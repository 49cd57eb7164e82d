use presence::channel_status::{channel_status, StatusLookup, StatusStep};
use presence::counter::{stream_counter, COUNTER_EVENT, TICK_SECS};
use presence::devices::{
    available_devices, available_devices_by_capability, channels_offering, decode_values,
    describe_devices, CapabilityStep, DeviceCapabilities, DeviceLookup, DevicesStep,
};
use presence::metrics::{device_metrics, enabled_metrics, MetricsError, METRICS_CAPABILITY};

fn strings(list: &[&str]) -> Vec<String> {
    list.iter().map(|s| s.to_string()).collect()
}

fn plain(devices: Vec<DeviceCapabilities>) -> Vec<(String, Vec<String>)> {
    devices.into_iter().map(|d| (d.channel, d.capabilities)).collect()
}

fn lookup(channels: &[&str]) -> DeviceLookup {
    match available_devices(Ok(strings(channels))) {
        DevicesStep::Fetch(lookup) => lookup,
        DevicesStep::Answer(_) => panic!("answered too early"),
    }
}

#[test]
fn no_members_no_devices() {
    assert!(matches!(available_devices(Ok(vec![])), DevicesStep::Answer(d) if d.is_empty()));
    assert!(matches!(
        available_devices(Err("down".to_string())),
        DevicesStep::Answer(d) if d.is_empty()
    ));
    assert!(matches!(
        available_devices_by_capability("gpu".to_string(), Ok(vec![])),
        CapabilityStep::Answer(c) if c.is_empty()
    ));
    assert!(matches!(
        available_devices_by_capability("gpu".to_string(), Err("down".to_string())),
        CapabilityStep::Answer(c) if c.is_empty()
    ));
}

#[test]
fn devices_without_readable_capabilities_are_reported() {
    let lookup = lookup(&["a", "b", "c", "d"]);
    assert_eq!(
        lookup.keys(),
        strings(&["a_capability", "b_capability", "c_capability", "d_capability"])
    );
    let values = vec![
        Some("[\"gpu\",\"x\"]".to_string()),
        None,
        Some("garbage".to_string()),
        Some("[]".to_string()),
    ];
    assert_eq!(
        plain(lookup.answer(Ok(values))),
        vec![
            ("a".to_string(), strings(&["gpu", "x"])),
            ("b".to_string(), vec![]),
            ("c".to_string(), vec![]),
            ("d".to_string(), vec![]),
        ]
    );
    assert!(lookup.answer(Err("down".to_string())).is_empty());
}

#[test]
fn shorter_list_decides() {
    let read = vec![Some(strings(&["x"])), None];
    assert_eq!(
        plain(describe_devices(&strings(&["a"]), &read)),
        vec![("a".to_string(), strings(&["x"]))]
    );
    assert_eq!(describe_devices(&strings(&["a", "b", "c"]), &read).len(), 2);
    assert_eq!(
        decode_values(&vec![None, Some("[\"x\"]".to_string()), Some("1".to_string())]),
        vec![None, Some(strings(&["x"])), None]
    );
}

#[test]
fn capability_query_selects_whole_capabilities() {
    let step = available_devices_by_capability("gpu".to_string(), Ok(strings(&["a", "b", "c"])));
    let lookup = match step {
        CapabilityStep::Fetch(lookup) => lookup,
        CapabilityStep::Answer(_) => panic!("answered too early"),
    };
    assert_eq!(lookup.keys(), strings(&["a_capability", "b_capability", "c_capability"]));
    let values = vec![
        Some("[\"cpu\",\"gpu\"]".to_string()),
        Some("[\"gpus\"]".to_string()),
        Some("[\"gpu\"]".to_string()),
    ];
    assert_eq!(lookup.answer(Ok(values)), strings(&["a", "c"]));
    assert!(lookup.answer(Err("down".to_string())).is_empty());
    let devices = vec![
        DeviceCapabilities { channel: "a".to_string(), capabilities: vec![] },
        DeviceCapabilities { channel: "b".to_string(), capabilities: strings(&["GPU", "gpu"]) },
    ];
    assert_eq!(channels_offering(&devices, &"gpu".to_string()), strings(&["b"]));
}

fn status_lookup(channels: &str) -> StatusLookup {
    match channel_status(channels) {
        StatusStep::Fetch(lookup) => lookup,
        StatusStep::Answer(_) => panic!("answered too early"),
    }
}

#[test]
fn statuses_follow_the_question() {
    let lookup = status_lookup("channel_a,channel_b,channel_c");
    assert_eq!(
        lookup.keys(),
        strings(&["channel_a_last_seen", "channel_b_last_seen", "channel_c_last_seen"])
    );
    let values = vec![Some("t".to_string()), None, Some(String::new())];
    assert_eq!(lookup.answer(Ok(values)).statuses, vec![true, false, true]);
}

#[test]
fn all_offline_when_the_store_fails() {
    let lookup = status_lookup("a,b,a");
    assert_eq!(lookup.answer(Err("down".to_string())).statuses, vec![false; 3]);
}

#[test]
fn lists_are_trimmed_and_blanks_dropped() {
    let lookup = status_lookup(" a ,, \t,\u{a0}b c\u{3000},\n");
    assert_eq!(lookup.keys(), strings(&["a_last_seen", "b c_last_seen"]));
    for blank in ["", ",", " , ,\t", "\u{2028}"] {
        assert!(matches!(
            channel_status(blank),
            StatusStep::Answer(r) if r.statuses.is_empty()
        ));
    }
}

fn some(s: &str) -> Option<String> {
    Some(s.to_string())
}

#[test]
fn metrics_are_handed_on_as_stored() {
    let lookup = device_metrics("presence-abc_rackmint");
    assert_eq!(
        lookup.keys(),
        vec!["presence-abc_rackmint_capability", "metrics_presence-abc_rackmint"]
    );
    let stored = "# HELP up é\nup 1\n";
    let values = vec![some("[\"gpu\",\"metrics\"]"), some(stored)];
    let response = lookup.answer(Ok(values)).unwrap().respond_to();
    assert_eq!(response.body, stored);
    assert_eq!(response.content_length, stored.len());
    assert_eq!(response.content_length, 18);
    assert_eq!(response.content_type, "text/plain; version=0.0.4; charset=utf-8");
}

#[test]
fn missing_metrics_are_not_found() {
    let lookup = device_metrics("d");
    let missing = lookup.answer(Ok(vec![some("[\"metrics\"]"), None])).unwrap_err();
    assert_eq!(missing, MetricsError::NotFound);
    assert_eq!(missing.code(), 404);
    let failed = lookup.answer(Err("down".to_string())).unwrap_err();
    assert_eq!(failed, MetricsError::InternalServerError);
    assert_eq!(failed.code(), 500);
}

#[test]
fn metrics_need_the_capability() {
    let lookup = device_metrics("dev1");
    for capabilities in [
        some("[\"gpu\"]"),
        some("[]"),
        some("[\"metrics2\", \"Metrics\"]"),
        some("metrics"),
        None,
    ] {
        let refused = lookup.answer(Ok(vec![capabilities, some("up 1\n")]));
        assert_eq!(refused.unwrap_err(), MetricsError::NotFound);
    }
    for short in [vec![], vec![some("[\"metrics\"]")]] {
        assert_eq!(lookup.answer(Ok(short)).unwrap_err(), MetricsError::NotFound);
    }
    let list = Some(vec!["metrics".to_string()]);
    let found = enabled_metrics(&list, &some("up 1\n")).unwrap();
    assert_eq!(found.respond_to().body, "up 1\n");
    assert_eq!(enabled_metrics(&list, &None).unwrap_err(), MetricsError::NotFound);
    assert_eq!(enabled_metrics(&None, &some("up 1\n")).unwrap_err(), MetricsError::NotFound);
    assert_eq!(METRICS_CAPABILITY, "metrics");
}

#[test]
fn joined_lists_are_read_one_after_the_other() {
    let left = " a,,b ";
    let right = "\tc , ";
    let joined = format!("{left},{right}");
    let mut keys = status_lookup(left).keys();
    keys.extend(status_lookup(right).keys());
    assert_eq!(status_lookup(&joined).keys(), keys);
    assert_eq!(keys, vec!["a_last_seen", "b_last_seen", "c_last_seen"]);
}

#[test]
fn stream_counts_to_ten() {
    let mut stream = stream_counter();
    for n in 0..=10 {
        let event = stream.next_event().unwrap();
        assert_eq!(event.data, n.to_string());
        assert_eq!(event.id, n.to_string());
        assert_eq!(event.event, "counter");
    }
    assert!(stream.next_event().is_none());
    assert!(stream.next_event().is_none());
    assert_eq!(COUNTER_EVENT, "counter");
    assert_eq!(TICK_SECS, 1);
}

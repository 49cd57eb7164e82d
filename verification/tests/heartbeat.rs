use presence::heartbeat::{
    begin_heartbeat, handle_heartbeat, parse_heartbeat, resume_heartbeat, HeartbeatError,
    HeartbeatStep, HEARTBEAT_PROCEDURE, HEARTBEAT_TTL_SECS,
};
use presence::json::{collect_texts, decode_texts, encode_texts, Json};
use presence::store::{StoreWrite, WriteRun};

fn text(s: &str) -> Json {
    Json::Text(s.to_string())
}

fn object(fields: Vec<(&str, Json)>) -> Json {
    Json::Object(fields.into_iter().map(|(k, v)| (k.to_string(), v)).collect())
}

fn message(reply: Result<Json, Json>) -> (bool, String, String) {
    let (ok, body) = match reply {
        Ok(body) => (true, body),
        Err(body) => (false, body),
    };
    match body {
        Json::Object(fields) => {
            assert_eq!(fields.len(), 1);
            let (key, value) = fields.into_iter().next().unwrap();
            match value {
                Json::Text(t) => (ok, key, t),
                _ => panic!("no text"),
            }
        }
        _ => panic!("no object"),
    }
}

fn refusal(kwargs: Option<Json>) -> String {
    match handle_heartbeat(kwargs) {
        HeartbeatStep::Reply(reply) => {
            let (ok, key, value) = message(reply);
            assert!(!ok);
            assert_eq!(key, "error");
            value
        }
        HeartbeatStep::Perform(_) => panic!("not refused"),
    }
}

#[test]
fn call_without_kwargs_is_refused() {
    assert_eq!(refusal(None), "missing kwargs");
    assert_eq!(parse_heartbeat(&None).err(), Some(HeartbeatError::MissingKwargs));
}

#[test]
fn call_without_channel_is_refused() {
    let wanted = "missing 'device_channel'";
    assert_eq!(refusal(Some(object(vec![]))), wanted);
    assert_eq!(refusal(Some(Json::Null)), wanted);
    assert_eq!(refusal(Some(Json::Bool(true))), wanted);
    assert_eq!(refusal(Some(text("device_channel"))), wanted);
    assert_eq!(refusal(Some(Json::Array(vec![text("device_channel")]))), wanted);
    assert_eq!(
        refusal(Some(object(vec![
            ("device_channel", Json::Number("7".to_string())),
            ("capabilities", Json::Array(vec![])),
        ]))),
        wanted
    );
}

#[test]
fn call_without_capabilities_is_refused() {
    let wanted = "missing 'capabilities' (expected array)";
    assert_eq!(refusal(Some(object(vec![("device_channel", text("d"))]))), wanted);
    assert_eq!(
        refusal(Some(object(vec![
            ("device_channel", text("d")),
            ("capabilities", text("gpu")),
        ]))),
        wanted
    );
}

#[test]
fn capabilities_that_are_not_text_are_passed_over() {
    let kwargs = Some(object(vec![
        ("other", Json::Null),
        (
            "capabilities",
            Json::Array(vec![
                text("gpu"),
                Json::Null,
                Json::Number("1".to_string()),
                Json::Array(vec![text("nested")]),
                text("camera"),
            ]),
        ),
        ("device_channel", text("d")),
    ]));
    let heartbeat = parse_heartbeat(&kwargs).ok().unwrap();
    assert_eq!(heartbeat.device_channel, "d");
    assert_eq!(heartbeat.capabilities, vec!["gpu", "camera"]);
}

#[test]
fn last_of_two_fields_counts() {
    let json = object(vec![("k", text("a")), ("k", text("b")), ("l", Json::Null)]);
    assert_eq!(json.get("k").unwrap().as_text().unwrap(), "b");
    assert!(json.get("m").is_none());
    assert!(json.get("l").unwrap().as_text().is_none());
    assert!(json.get("l").unwrap().as_array().is_none());
    assert!(collect_texts(&vec![Json::Null, Json::Bool(false)]).is_empty());
}

fn writes(run: WriteRun) -> Vec<String> {
    let mut seen = Vec::new();
    let mut step = HeartbeatStep::Perform(run);
    loop {
        step = match step {
            HeartbeatStep::Perform(run) => {
                seen.push(match run.current() {
                    StoreWrite::Put { key, value } => format!("set {key} {value}"),
                    StoreWrite::PutExpiring { key, value, seconds } => {
                        format!("setex {key} {value} {seconds}")
                    }
                    StoreWrite::AddMember { key, member } => format!("sadd {key} {member}"),
                    _ => panic!("unexpected write"),
                });
                resume_heartbeat(run, Ok(()))
            }
            HeartbeatStep::Reply(reply) => {
                assert_eq!(message(reply), (true, "status".to_string(), "ok".to_string()));
                return seen;
            }
        }
    }
}

#[test]
fn heartbeat_makes_three_writes_in_order() {
    let run = begin_heartbeat("d", "[\"gpu\"]".to_string(), "now".to_string(), None);
    assert_eq!(
        writes(run),
        vec![
            "set d_capability [\"gpu\"]",
            "setex d_last_seen now 15",
            "sadd available_devices d",
        ]
    );
    assert_eq!(HEARTBEAT_TTL_SECS, 15);
    assert_eq!(HEARTBEAT_PROCEDURE, "handle_heartbeat");
}

#[test]
fn heartbeat_with_metrics_makes_a_fourth_write() {
    let metrics = Some("up 1".to_string());
    let run = begin_heartbeat("d", "[\"metrics\"]".to_string(), "now".to_string(), metrics);
    assert_eq!(
        writes(run),
        vec![
            "set d_capability [\"metrics\"]",
            "setex d_last_seen now 15",
            "sadd available_devices d",
            "setex metrics_d up 1 15",
        ]
    );
}

#[test]
fn metrics_are_read_where_they_are_text() {
    let call = |metrics: Option<Json>| {
        let mut fields = vec![
            ("device_channel", text("d")),
            ("capabilities", Json::Array(vec![text("metrics")])),
        ];
        if let Some(json) = metrics {
            fields.push(("metrics_text", json));
        }
        parse_heartbeat(&Some(object(fields))).ok().unwrap().metrics_text
    };
    assert_eq!(call(None), None);
    assert_eq!(call(Some(Json::Null)), None);
    assert_eq!(call(Some(Json::Number("1".to_string()))), None);
    assert_eq!(call(Some(Json::Array(vec![text("up 1")]))), None);
    assert_eq!(call(Some(text(""))), Some("".to_string()));
    assert_eq!(call(Some(text("up 1\n# é"))), Some("up 1\n# é".to_string()));
}

#[test]
fn first_failure_ends_a_heartbeat() {
    for failing in 0..4 {
        let metrics = Some("up 1\n".to_string());
        let mut run = begin_heartbeat("d", "[]".to_string(), "now".to_string(), metrics);
        for _ in 0..failing {
            run = match resume_heartbeat(run, Ok(())) {
                HeartbeatStep::Perform(run) => run,
                HeartbeatStep::Reply(_) => panic!("answered too early"),
            };
        }
        match resume_heartbeat(run, Err("connection reset".to_string())) {
            HeartbeatStep::Reply(reply) => assert_eq!(
                message(reply),
                (false, "error".to_string(), "connection reset".to_string())
            ),
            HeartbeatStep::Perform(_) => panic!("went on after a failure"),
        }
    }
}

#[test]
fn list_of_texts_is_read_back() {
    let list: Vec<String> = ["", "gpu", "a\"b\\c", "\u{1}\t\n", "caméra \u{1f4f7}"]
        .iter()
        .map(|s| s.to_string())
        .collect();
    let encoded = encode_texts(&list);
    assert_ne!(encoded, list.concat());
    assert_eq!(decode_texts(&encoded), Some(list));
    assert_eq!(encode_texts(&vec![]), "[]");
    assert_eq!(encode_texts(&vec!["gpu".to_string(), "x".to_string()]), "[\"gpu\",\"x\"]");
}

#[test]
fn other_json_is_not_a_list_of_texts() {
    assert_eq!(decode_texts(" [ \"a\" , \"b\" ] "), Some(vec!["a".to_string(), "b".to_string()]));
    assert_eq!(decode_texts(""), None);
    assert_eq!(decode_texts("gpu"), None);
    assert_eq!(decode_texts("[\"a\", 1]"), None);
    assert_eq!(decode_texts("{\"a\": \"b\"}"), None);
    assert_eq!(decode_texts("[\"a\"] x"), None);
}

#[test]
fn heartbeat_carries_the_time() {
    let kwargs = Some(object(vec![
        ("device_channel", text("d")),
        ("capabilities", Json::Array(vec![])),
    ]));
    let before = chrono::Utc::now();
    let run = match handle_heartbeat(kwargs) {
        HeartbeatStep::Perform(run) => run,
        HeartbeatStep::Reply(_) => panic!("refused"),
    };
    let after = chrono::Utc::now();
    let run = match resume_heartbeat(run, Ok(())) {
        HeartbeatStep::Perform(run) => run,
        HeartbeatStep::Reply(_) => panic!("answered too early"),
    };
    match run.current() {
        StoreWrite::PutExpiring { value, .. } => {
            assert!(value.ends_with("+00:00"));
            let time = chrono::DateTime::parse_from_rfc3339(value).unwrap();
            assert!(before <= time && time <= after);
            assert_eq!(time.to_rfc3339(), *value);
            // Four digits of a year, and groups of three in the fraction.
            assert_eq!(value.find('T'), Some(10));
            assert!(matches!(value.len(), 25 | 29 | 32 | 35));
        }
        _ => panic!("unexpected write"),
    }
}

use presence::service::{
    channel_name, index, instance_prefix, mount_point, new_instance_prefix, plan_mongo, MongoPlan,
    REALM,
};
use presence::store::{
    capability_key, capability_keys, last_seen_key, last_seen_keys, lock_key, members_key,
    metrics_key,
};
use presence::text::{decimal_text, join, split, split_list, strip_suffix, trim, white_space};

#[test]
fn white_space_is_that_of_unicode() {
    for c in '\0'..=char::MAX {
        assert_eq!(white_space(c), c.is_whitespace(), "{c:?}");
    }
}

#[test]
fn trim_cuts_both_ends() {
    for s in ["", " ", "a", " a", "a ", " a b ", "\u{2003}é\u{85}", "\n\t", "\u{200b}x\u{200b}"] {
        assert_eq!(trim(s), s.trim());
    }
}

#[test]
fn split_gives_all_pieces() {
    for s in ["", ",", "a", "a,b", ",a,,b,", "é,\u{1f4f7},"] {
        assert_eq!(split(s, ','), s.split(',').map(|p| p.to_string()).collect::<Vec<_>>());
    }
}

#[test]
fn comma_list_is_read_back() {
    let channels = vec!["a".to_string(), "b c".to_string(), "é_x".to_string()];
    assert_eq!(split_list(&channels.join(",")), channels);
    assert_eq!(split_list(&channels.join(" ,\t")), channels);
    assert!(split_list("").is_empty());
    assert_eq!(split_list(" , x ,,"), vec!["x"]);
}

#[test]
fn suffix_is_stripped_once() {
    assert_eq!(strip_suffix("abab", "ab"), Some("ab".to_string()));
    assert_eq!(strip_suffix("ab", "ab"), Some(String::new()));
    assert_eq!(strip_suffix("ab", ""), Some("ab".to_string()));
    assert_eq!(strip_suffix("b", "ab"), None);
    assert_eq!(strip_suffix("aé", "é"), Some("a".to_string()));
    assert_eq!(join("a", "é"), "aé");
}

#[test]
fn numbers_are_written_in_decimal() {
    for n in [0, 1, 9, 10, 11, 99, 100, 1009, 4294967296, u64::MAX] {
        assert_eq!(decimal_text(n), n.to_string());
    }
}

#[test]
fn keys_have_their_names() {
    assert_eq!(members_key(), "available_devices");
    assert_eq!(last_seen_key("d"), "d_last_seen");
    assert_eq!(capability_key("d"), "d_capability");
    assert_eq!(lock_key("d"), "cleanup_lock:d");
    assert_eq!(metrics_key("d"), "metrics_d");
    let channels = vec!["a".to_string(), "b".to_string()];
    assert_eq!(capability_keys(&channels), vec!["a_capability", "b_capability"]);
    assert_eq!(last_seen_keys(&channels), vec!["a_last_seen", "b_last_seen"]);
}

#[test]
fn instances_have_their_own_channels() {
    assert_eq!(instance_prefix("7"), "presence-7");
    assert_eq!(channel_name("presence-7", REALM), "presence-7_ginger-society");
    let one = new_instance_prefix();
    let other = new_instance_prefix();
    assert_ne!(channel_name(&one, REALM), channel_name(&other, REALM));
}

#[test]
fn new_instance_has_a_random_uuid() {
    let prefix = new_instance_prefix();
    let id = prefix.strip_prefix("presence-").unwrap();
    let parsed = uuid::Uuid::parse_str(id).unwrap();
    assert_eq!(parsed.get_version_num(), 4);
    assert_eq!(parsed.get_variant(), uuid::Variant::RFC4122);
    assert_eq!(parsed.hyphenated().to_string(), id);
}

#[test]
fn index_tells_the_channel() {
    assert_eq!(index("presence-7_ginger-society").message, "presence-7_ginger-society");
}

#[test]
fn paths_begin_with_the_service() {
    assert_eq!(mount_point(""), "/presence/");
    assert_eq!(mount_point("api-docs"), "/presence/api-docs");
    assert_eq!(mount_point("metrics"), "/presence/metrics");
}

#[test]
fn mongo_needs_address_and_name() {
    let uri = || Some("mongodb://db".to_string());
    let name = || Some("presence".to_string());
    match plan_mongo(uri(), name()) {
        MongoPlan::Connect { uri, database } => {
            assert_eq!((uri.as_str(), database.as_str()), ("mongodb://db", "presence"));
        }
        _ => panic!("does not connect"),
    }
    assert!(matches!(plan_mongo(uri(), None), MongoPlan::MissingDatabase));
    assert!(matches!(plan_mongo(None, name()), MongoPlan::MissingUri));
    assert!(matches!(plan_mongo(None, None), MongoPlan::MissingUri));
}

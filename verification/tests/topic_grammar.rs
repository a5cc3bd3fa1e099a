//! The topic grammar: publish and subscribe classification over the closed
//! set of recognized shapes.

use mqtt_session::topic::{classify_publish_topic, classify_subscribe_topic, split_topic, str_eq,
    PublishClass, SubscribeClass};

#[test]
fn split_single_segment() {
    let segs = split_topic("telemetry");
    assert_eq!(segs, vec!["telemetry"]);
}

#[test]
fn split_keeps_empty_segments() {
    let segs = split_topic("command/inbox//#");
    assert_eq!(segs, vec!["command", "inbox", "", "#"]);
    assert_eq!(split_topic(""), vec![""]);
    assert_eq!(split_topic("a/"), vec!["a", ""]);
    assert_eq!(split_topic("/a"), vec!["", "a"]);
}

#[test]
fn str_eq_compares_text() {
    assert!(str_eq("command", "command"));
    assert!(!str_eq("command", "commands"));
    assert!(!str_eq("command", "commanD"));
    assert!(str_eq("", ""));
}

#[test]
fn publish_one_segment_is_own() {
    match classify_publish_topic("telemetry") {
        PublishClass::Own { channel } => assert_eq!(channel, "telemetry"),
        _ => panic!("expected a publish as self"),
    }
}

#[test]
fn publish_two_segments_is_proxied() {
    match classify_publish_topic("telemetry/d2") {
        PublishClass::Proxied { channel, as_device } => {
            assert_eq!(channel, "telemetry");
            assert_eq!(as_device, "d2");
        }
        _ => panic!("expected a proxied publish"),
    }
}

#[test]
fn publish_three_segments_is_invalid() {
    assert!(matches!(classify_publish_topic("a/b/c"), PublishClass::Invalid));
}

#[test]
fn subscribe_plain_wildcard() {
    assert!(matches!(classify_subscribe_topic("command/inbox/#"), SubscribeClass::AllDevices));
}

#[test]
fn subscribe_plus_wildcard() {
    assert!(matches!(classify_subscribe_topic("command/inbox/+/#"), SubscribeClass::AllDevices));
}

#[test]
fn subscribe_empty_segment_is_self_only() {
    assert!(matches!(classify_subscribe_topic("command/inbox//#"), SubscribeClass::SelfOnly));
}

#[test]
fn subscribe_named_device_is_proxied() {
    match classify_subscribe_topic("command/inbox/d1/#") {
        SubscribeClass::ProxiedDevice { device } => assert_eq!(device, "d1"),
        _ => panic!("expected a proxied-device subscription"),
    }
}

#[test]
fn subscribe_rejects_everything_else() {
    assert!(matches!(classify_subscribe_topic("telemetry"), SubscribeClass::Invalid));
    assert!(matches!(classify_subscribe_topic("command/inbox"), SubscribeClass::Invalid));
    assert!(matches!(classify_subscribe_topic("command/inbox/d1"), SubscribeClass::Invalid));
    assert!(matches!(classify_subscribe_topic("command/inbox/a/b/#"), SubscribeClass::Invalid));
    assert!(matches!(classify_subscribe_topic("command/outbox/#"), SubscribeClass::Invalid));
    assert!(matches!(classify_subscribe_topic(""), SubscribeClass::Invalid));
}

#[test]
fn classification_is_reproducible() {
    for topic in ["telemetry", "telemetry/d2", "command/inbox/#", "junk/a/b"] {
        let first = format!("{:?}", shape_tag(topic));
        let second = format!("{:?}", shape_tag(topic));
        assert_eq!(first, second);
    }
}

fn shape_tag(topic: &str) -> (u32, u32) {
    let p = match classify_publish_topic(topic) {
        PublishClass::Own { .. } => 0,
        PublishClass::Proxied { .. } => 1,
        PublishClass::Invalid => 2,
    };
    let s = match classify_subscribe_topic(topic) {
        SubscribeClass::AllDevices => 0,
        SubscribeClass::SelfOnly => 1,
        SubscribeClass::ProxiedDevice { .. } => 2,
        SubscribeClass::Invalid => 3,
    };
    (p, s)
}

//! Inbox subscription lifecycle: registration, idempotent re-subscribe,
//! unsubscribe, session close, and relay command matching.

use mqtt_session::registry::{command_matches, InboxSubscription};
use mqtt_session::session::{Session, SubscribeRequest};
use mqtt_session::types::{CommandFilter, CommandMessage, DeviceIdentity, QoS, SubscribeAck,
    UnsubscribeAck};

fn session() -> Session {
    Session::new("a1".to_string(), DeviceIdentity { name: "d1".to_string() })
}

fn batch(topics: &[&str]) -> SubscribeRequest {
    SubscribeRequest {
        topics: topics.iter().map(|t| t.to_string()).collect(),
        has_subscription_id: false,
    }
}

#[test]
fn subscribe_wildcard_creates_one_relay() {
    let mut s = session();
    let decisions = s.subscribe(&batch(&["command/inbox/#"]));
    assert_eq!(decisions.len(), 1);
    assert!(matches!(decisions[0].ack, SubscribeAck::Granted(QoS::AtMostOnce)));
    let spawn = decisions[0].spawn.as_ref().expect("a relay must be started");
    assert_eq!(spawn.topic_filter, "command/inbox/#");
    assert!(!spawn.force_device);
    match &spawn.filter {
        CommandFilter::Wildcard { app_id, device_id } => {
            assert_eq!(app_id, "a1");
            assert_eq!(device_id, "d1");
        }
        _ => panic!("expected a wildcard filter"),
    }
    assert_eq!(s.subscription_count(), 1);
    assert!(s.is_subscribed(&"command/inbox/#".to_string()));
}

#[test]
fn subscribe_self_only_uses_device_filter() {
    let mut s = session();
    let decisions = s.subscribe(&batch(&["command/inbox//#"]));
    let spawn = decisions[0].spawn.as_ref().expect("a relay must be started");
    assert!(!spawn.force_device);
    assert!(matches!(&spawn.filter, CommandFilter::Device { .. }));
}

#[test]
fn subscribe_proxied_device_is_forced() {
    let mut s = session();
    let decisions = s.subscribe(&batch(&["command/inbox/d9/#"]));
    let spawn = decisions[0].spawn.as_ref().expect("a relay must be started");
    assert!(spawn.force_device);
    match &spawn.filter {
        CommandFilter::ProxiedDevice { app_id, device_id, name } => {
            assert_eq!(app_id, "a1");
            assert_eq!(device_id, "d1");
            assert_eq!(name, "d9");
        }
        _ => panic!("expected a proxied-device filter"),
    }
}

#[test]
fn subscribe_invalid_topic_is_acknowledged_negatively() {
    let mut s = session();
    let decisions = s.subscribe(&batch(&["telemetry"]));
    assert!(matches!(decisions[0].ack, SubscribeAck::UnspecifiedError));
    assert!(decisions[0].spawn.is_none());
    assert_eq!(s.subscription_count(), 0);
}

#[test]
fn mixed_batch_is_decided_per_entry() {
    let mut s = session();
    let decisions = s.subscribe(&batch(&["command/inbox/#", "bogus/a/b", "command/inbox//#"]));
    assert_eq!(decisions.len(), 3);
    assert!(matches!(decisions[0].ack, SubscribeAck::Granted(QoS::AtMostOnce)));
    assert!(matches!(decisions[1].ack, SubscribeAck::UnspecifiedError));
    assert!(matches!(decisions[2].ack, SubscribeAck::Granted(QoS::AtMostOnce)));
    assert_eq!(s.subscription_count(), 2);
}

#[test]
fn subscription_identifier_rejects_whole_batch() {
    let mut s = session();
    let request = SubscribeRequest {
        topics: vec!["command/inbox/#".to_string(), "command/inbox//#".to_string()],
        has_subscription_id: true,
    };
    let decisions = s.subscribe(&request);
    assert_eq!(decisions.len(), 2);
    for d in &decisions {
        assert!(matches!(d.ack, SubscribeAck::SubscriptionIdentifiersNotSupported));
        assert!(d.spawn.is_none());
    }
    assert_eq!(s.subscription_count(), 0);
}

#[test]
fn duplicate_subscribe_is_idempotent() {
    let mut s = session();
    let first = s.subscribe(&batch(&["command/inbox/#"]));
    assert!(first[0].spawn.is_some());
    let second = s.subscribe(&batch(&["command/inbox/#"]));
    assert!(matches!(second[0].ack, SubscribeAck::Granted(QoS::AtMostOnce)));
    assert!(second[0].spawn.is_none(), "re-subscribing must not start a second relay");
    assert_eq!(s.subscription_count(), 1);
    let removed = s.unsubscribe(&vec!["command/inbox/#".to_string()]);
    assert!(matches!(removed[0].ack, UnsubscribeAck::Success));
    assert!(removed[0].stopped.is_some());
    assert_eq!(s.subscription_count(), 0);
}

#[test]
fn unsubscribe_without_subscription_reports_it() {
    let mut s = session();
    let decisions = s.unsubscribe(&vec!["command/inbox/#".to_string()]);
    assert!(matches!(decisions[0].ack, UnsubscribeAck::NoSubscriptionExisted));
    assert!(decisions[0].stopped.is_none());
    assert_eq!(s.subscription_count(), 0);
}

#[test]
fn unsubscribe_hands_back_the_relay_for_shutdown() {
    let mut s = session();
    s.subscribe(&batch(&["command/inbox/d9/#"]));
    let decisions = s.unsubscribe(&vec!["command/inbox/d9/#".to_string()]);
    let stopped = decisions[0].stopped.as_ref().expect("the relay must be shut down");
    assert!(stopped.force_device);
    assert!(matches!(&stopped.filter, CommandFilter::ProxiedDevice { .. }));
}

#[test]
fn close_drains_every_relay() {
    let mut s = session();
    s.subscribe(&batch(&["command/inbox/#", "command/inbox//#", "command/inbox/d9/#"]));
    assert_eq!(s.subscription_count(), 3);
    let drained = s.closed();
    assert_eq!(drained.len(), 3);
    let keys: Vec<&str> = drained.iter().map(|e| e.0.as_str()).collect();
    assert_eq!(keys, vec!["command/inbox/#", "command/inbox//#", "command/inbox/d9/#"]);
    assert_eq!(s.subscription_count(), 0);
}

fn msg(application: &str, device: &str) -> CommandMessage {
    CommandMessage { application: application.to_string(), device: device.to_string() }
}

#[test]
fn wildcard_relay_matches_any_device_of_the_application() {
    let sub = InboxSubscription {
        filter: CommandFilter::wildcard("a1".to_string(), "d1".to_string()),
        force_device: false,
    };
    assert!(command_matches(&sub, &msg("a1", "d1")));
    assert!(command_matches(&sub, &msg("a1", "d7")));
    assert!(!command_matches(&sub, &msg("a2", "d1")));
}

#[test]
fn device_relay_matches_the_device_only() {
    let sub = InboxSubscription {
        filter: CommandFilter::device("a1".to_string(), "d1".to_string()),
        force_device: false,
    };
    assert!(command_matches(&sub, &msg("a1", "d1")));
    assert!(!command_matches(&sub, &msg("a1", "d2")));
}

#[test]
fn forced_relay_demands_the_exact_proxied_device() {
    let sub = InboxSubscription {
        filter: CommandFilter::proxied_device("a1".to_string(), "d1".to_string(), "d9".to_string()),
        force_device: true,
    };
    assert!(command_matches(&sub, &msg("a1", "d9")));
    assert!(!command_matches(&sub, &msg("a1", "d1")));
    assert!(!command_matches(&sub, &msg("a2", "d9")));
}

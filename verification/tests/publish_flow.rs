//! Publish handling: identity resolution, authorization caching with
//! least-recently-used eviction, and downstream outcome mapping.

use mqtt_session::session::{map_publish_outcome, EvalStep, PublishStep, Session};
use mqtt_session::types::{DeviceIdentity, GatewayOutcome, PublishError, PublishOutcome};

fn session() -> Session {
    Session::new("a1".to_string(), DeviceIdentity { name: "d1".to_string() })
}

fn grant(name: &str) -> Result<GatewayOutcome, String> {
    Ok(GatewayOutcome::Pass(DeviceIdentity { name: name.to_string() }))
}

#[test]
fn publish_as_self_forwards() {
    let mut s = session();
    match s.handle_publish("telemetry", None) {
        PublishStep::Forward(q) => {
            assert_eq!(q.channel, "telemetry");
            assert_eq!(q.application, "a1");
            assert_eq!(q.device_id, "d1");
            assert_eq!(q.sender_id, "d1");
            assert_eq!(q.content_type, None);
        }
        _ => panic!("expected a forwarded publish"),
    }
}

#[test]
fn content_type_travels_with_the_request() {
    let mut s = session();
    match s.handle_publish("telemetry", Some("text/plain".to_string())) {
        PublishStep::Forward(q) => assert_eq!(q.content_type.as_deref(), Some("text/plain")),
        _ => panic!("expected a forwarded publish"),
    }
}

#[test]
fn invalid_topic_fails_publish() {
    let mut s = session();
    assert!(matches!(
        s.handle_publish("a/b/c", None),
        PublishStep::Fail(PublishError::TopicNameInvalid)
    ));
}

#[test]
fn unknown_proxied_device_needs_authorization() {
    let mut s = session();
    match s.handle_publish("telemetry/d2", None) {
        PublishStep::NeedAuthorization { channel, as_device } => {
            assert_eq!(channel, "telemetry");
            assert_eq!(as_device, "d2");
        }
        _ => panic!("expected an authorizer round trip"),
    }
}

#[test]
fn denial_is_cached_and_reused() {
    let mut s = session();
    assert!(matches!(s.handle_publish("telemetry/d2", None), PublishStep::NeedAuthorization { .. }));
    let r = s.complete_authorization("d2".to_string(), Ok(GatewayOutcome::Other));
    assert!(matches!(r, Err(PublishError::NotAuthorized)));
    // The cached denial answers the second publish; no second authorizer call.
    assert!(matches!(
        s.handle_publish("telemetry/d2", None),
        PublishStep::Fail(PublishError::NotAuthorized)
    ));
}

#[test]
fn grant_is_cached_and_reused() {
    let mut s = session();
    assert!(matches!(s.handle_publish("telemetry/d2", None), PublishStep::NeedAuthorization { .. }));
    let r = s.complete_authorization("d2".to_string(), grant("d2"));
    assert_eq!(r.ok().map(|d| d.name), Some("d2".to_string()));
    match s.handle_publish("telemetry/d2", None) {
        PublishStep::Forward(q) => {
            assert_eq!(q.device_id, "d2");
            assert_eq!(q.sender_id, "d1");
        }
        _ => panic!("expected the cached grant to resolve the publish"),
    }
}

#[test]
fn authorizer_failure_is_internal_and_not_cached() {
    let mut s = session();
    let r = s.complete_authorization("d2".to_string(), Err("gateway timeout".to_string()));
    match r {
        Err(PublishError::InternalError(detail)) => {
            assert_eq!(detail, "Failed to authorize device");
        }
        _ => panic!("expected an internal error"),
    }
    // Nothing was memoized: the next publish still needs the authorizer.
    assert!(matches!(s.handle_publish("telemetry/d2", None), PublishStep::NeedAuthorization { .. }));
}

#[test]
fn eval_device_resolves_self() {
    let mut s = session();
    match s.eval_device("metrics") {
        EvalStep::Resolved { channel, device } => {
            assert_eq!(channel, "metrics");
            assert_eq!(device.name, "d1");
        }
        _ => panic!("expected resolution as self"),
    }
}

#[test]
fn cache_capacity_evicts_least_recently_used() {
    let mut s = Session::with_cache_capacity(
        "a1".to_string(),
        DeviceIdentity { name: "d1".to_string() },
        2,
    );
    assert!(s.complete_authorization("d2".to_string(), grant("d2")).is_ok());
    assert!(s.complete_authorization("d3".to_string(), grant("d3")).is_ok());
    // Touch d2 so d3 becomes the least recently used entry.
    assert!(matches!(s.handle_publish("t/d2", None), PublishStep::Forward(_)));
    // A third distinct key evicts d3, not d2.
    assert!(s.complete_authorization("d4".to_string(), grant("d4")).is_ok());
    assert!(matches!(s.handle_publish("t/d3", None), PublishStep::NeedAuthorization { .. }));
    assert!(matches!(s.handle_publish("t/d2", None), PublishStep::Forward(_)));
    assert!(matches!(s.handle_publish("t/d4", None), PublishStep::Forward(_)));
}

#[test]
fn cache_eviction_without_touch_drops_oldest() {
    let mut s = Session::with_cache_capacity(
        "a1".to_string(),
        DeviceIdentity { name: "d1".to_string() },
        2,
    );
    assert!(s.complete_authorization("d2".to_string(), grant("d2")).is_ok());
    assert!(s.complete_authorization("d3".to_string(), grant("d3")).is_ok());
    assert!(s.complete_authorization("d4".to_string(), grant("d4")).is_ok());
    assert!(matches!(s.handle_publish("t/d2", None), PublishStep::NeedAuthorization { .. }));
}

#[test]
fn accepted_outcome_is_success() {
    assert!(map_publish_outcome(Ok(PublishOutcome::Accepted)).is_ok());
}

#[test]
fn rejected_outcome_is_unspecified_error() {
    assert!(matches!(
        map_publish_outcome(Ok(PublishOutcome::Rejected)),
        Err(PublishError::UnspecifiedError)
    ));
}

#[test]
fn queue_full_outcome_is_quota_exceeded() {
    assert!(matches!(
        map_publish_outcome(Ok(PublishOutcome::QueueFull)),
        Err(PublishError::QuotaExceeded)
    ));
}

#[test]
fn bus_failure_is_internal_with_detail() {
    match map_publish_outcome(Err("broken pipe".to_string())) {
        Err(PublishError::InternalError(detail)) => assert_eq!(detail, "broken pipe"),
        _ => panic!("expected an internal error"),
    }
}

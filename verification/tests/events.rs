use dataflare_wasm::events::{EnterpriseEvent, EventPriority, EventProcessingResult, EventRoutingRule, EventStatus};

fn object(pairs: &[(&str, serde_json::Value)]) -> serde_json::Value {
    let mut map = serde_json::Map::new();
    for (k, v) in pairs {
        map.insert(k.to_string(), v.clone());
    }
    serde_json::Value::Object(map)
}

#[test]
fn test_enterprise_event_creation() {
    let data = object(&[
        ("user_id", serde_json::Value::from(123)),
        ("name", serde_json::Value::from("Alice")),
    ]);
    let event = EnterpriseEvent::new("user.created", data, "user-service")
        .with_trace_id("trace-123")
        .with_priority(EventPriority::High)
        .with_metadata("region", "us-east-1");

    assert_eq!(event.event_type, "user.created");
    assert_eq!(event.source, "user-service");
    assert_eq!(event.priority, EventPriority::High);
    assert_eq!(event.trace_id, Some("trace-123".to_string()));
    assert_eq!(event.metadata.get("region"), Some(&"us-east-1".to_string()));
}

#[test]
fn test_event_validation() {
    let mut event = EnterpriseEvent::new("test.event", object(&[]), "test-source");
    assert!(event.validate().is_ok());

    event.id = String::new();
    assert!(event.validate().is_err());
}

#[test]
fn test_routing_rule_matching() {
    let rule = EventRoutingRule::new("user events", "user.*", vec!["user-processor".to_string()]);

    let event1 = EnterpriseEvent::new("user.created", object(&[]), "test");
    let event2 = EnterpriseEvent::new("order.created", object(&[]), "test");

    assert!(rule.matches(&event1));
    assert!(!rule.matches(&event2));
}

#[test]
fn star_pattern_matches_every_event_type() {
    let rule = EventRoutingRule::new("all", "*", vec![]);
    for t in ["a", "user.created", ""] {
        let e = EnterpriseEvent::new(t, object(&[]), "s");
        assert!(rule.matches(&e));
    }
}

#[test]
fn test_event_processing_result() {
    let result = EventProcessingResult::success("event-123", 50, "processor-1")
        .with_output_events(vec![EnterpriseEvent::new("output.event", object(&[]), "processor-1")]);

    assert_eq!(result.status, EventStatus::Completed);
    assert_eq!(result.processing_time_ms, 50);
    assert_eq!(result.output_events.len(), 1);
}

#[test]
fn new_ids_are_distinct_and_uuid_shaped() {
    let a = EnterpriseEvent::new("x", object(&[]), "s");
    let b = a.clone_with_new_id(object(&[]));
    assert_eq!(a.id.len(), 36);
    assert_eq!(b.id.len(), 36);
    assert_ne!(a.id, b.id);
    assert_eq!(b.event_type, "x");
}

#[test]
fn wildcard_prefix_and_suffix_do_not_overlap() {
    let rule = EventRoutingRule::new("overlap", "ab*b", vec![]);
    assert!(!rule.matches(&EnterpriseEvent::new("ab", object(&[]), "s")));
    assert!(rule.matches(&EnterpriseEvent::new("abb", object(&[]), "s")));
    assert!(rule.matches(&EnterpriseEvent::new("abxb", object(&[]), "s")));
}

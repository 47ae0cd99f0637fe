use tracing_sprout::JsonVal;
use tracing_sprout::Level;
use tracing_sprout::SpanMetadata;
use tracing_sprout::SproutStorage;
use tracing_sprout::ThreadInfo;
use tracing_sprout::TrunkLayer;

fn meta(level: Level, name: &str, target: &str) -> SpanMetadata {
    SpanMetadata {
        level,
        name: name.to_string(),
        target: target.to_string(),
        file: None,
        line: None,
    }
}

fn thread() -> ThreadInfo {
    ThreadInfo { id: "ThreadId(1)".to_string(), name: Some("main".to_string()) }
}

#[test]
fn new_store_seeds_identity() {
    let store = SproutStorage::new("groot", 42);
    let snap = store.clone_attributes();
    assert_eq!(snap.get(&"app_name".to_string()), Some(&JsonVal::Str("groot".to_string())));
    assert_eq!(snap.get(&"pid".to_string()), Some(&JsonVal::UInt(42)));
}

#[test]
fn child_inherits_and_overrides() {
    let layer = TrunkLayer::new("app".to_string(), 7);
    let mut parent = SproutStorage::new("app", 7);
    parent.record_field("a", JsonVal::Int(1));
    parent.record_field("b", JsonVal::Int(2));
    let fields = vec![
        ("b".to_string(), JsonVal::Int(3)),
        ("c".to_string(), JsonVal::Int(4)),
    ];
    let (child, _line) = layer.new_span(
        Some(&parent),
        &fields,
        &meta(Level::Info, "child", "t"),
        &thread(),
    );
    let snap = child.clone_attributes();
    assert_eq!(snap.get(&"a".to_string()), Some(&JsonVal::Int(1)));
    assert_eq!(snap.get(&"b".to_string()), Some(&JsonVal::Int(3)));
    assert_eq!(snap.get(&"c".to_string()), Some(&JsonVal::Int(4)));
    assert_eq!(snap.get(&"app_name".to_string()), Some(&JsonVal::Str("app".to_string())));
    assert_eq!(snap.get(&"pid".to_string()), Some(&JsonVal::UInt(7)));
}

#[test]
fn snapshot_twice_is_equal_and_independent() {
    let mut store = SproutStorage::new("app", 1);
    store.record_field("k", JsonVal::Bool(true));
    let first = store.clone_attributes();
    let second = store.clone_attributes();
    assert_eq!(first, second);
    store.record_field("k", JsonVal::Bool(false));
    assert_eq!(first.get(&"k".to_string()), Some(&JsonVal::Bool(true)));
    assert_eq!(second.get(&"k".to_string()), Some(&JsonVal::Bool(true)));
}

#[test]
fn log_prefixed_fields_are_dropped() {
    let mut store = SproutStorage::new("app", 1);
    store.record_field("log.target", JsonVal::Str("x".to_string()));
    store.record_field("log.module_path", JsonVal::Str("y".to_string()));
    let snap = store.clone_attributes();
    assert_eq!(snap.get(&"log.target".to_string()), None);
    assert_eq!(snap.get(&"log.module_path".to_string()), None);
    assert_eq!(snap.get(&"target".to_string()), None);
}

#[test]
fn raw_identifier_prefix_is_stripped() {
    let mut store = SproutStorage::new("app", 1);
    store.record_field("r#type", JsonVal::Str("query".to_string()));
    let snap = store.clone_attributes();
    assert_eq!(snap.get(&"r#type".to_string()), None);
    assert_eq!(snap.get(&"type".to_string()), Some(&JsonVal::Str("query".to_string())));
}

#[test]
fn record_field_overwrites_in_place() {
    let mut store = SproutStorage::new("app", 1);
    store.record_field("x", JsonVal::Int(1));
    store.record_field("y", JsonVal::Int(2));
    store.record_field("x", JsonVal::Int(9));
    let snap = store.clone_attributes();
    assert_eq!(snap.get(&"x".to_string()), Some(&JsonVal::Int(9)));
    assert_eq!(snap.get(&"y".to_string()), Some(&JsonVal::Int(2)));
}

#[test]
fn add_attribute_opt_inserts_only_present_values() {
    let mut store = SproutStorage::new("app", 1);
    let r = store.add_attribute_opt("elapsed_time_ms", Some(JsonVal::UInt(5)));
    assert!(r.is_ok());
    let r2 = store.add_attribute_opt("missing", None);
    assert!(r2.is_ok());
    let snap = store.clone_attributes();
    assert_eq!(snap.get(&"elapsed_time_ms".to_string()), Some(&JsonVal::UInt(5)));
    assert_eq!(snap.get(&"missing".to_string()), None);
}

#[test]
fn exit_without_enter_has_no_elapsed_time() {
    let layer = TrunkLayer::new("app".to_string(), 1);
    let mut store = SproutStorage::new("app", 1);
    let line = layer.on_close(&mut store, &meta(Level::Info, "job", "t"), &thread());
    let parsed = json::parse(line.trim_end()).unwrap();
    assert!(!parsed.has_key("elapsed_time_ms"));
    assert_eq!(parsed["span_type"], "exit");
}

#[test]
fn exit_after_enter_reports_elapsed_time() {
    let layer = TrunkLayer::new("app".to_string(), 1);
    let mut store = SproutStorage::new("app", 1);
    layer.on_enter(&mut store);
    let begin = std::time::Instant::now();
    while begin.elapsed().as_millis() < 12 {}
    let line = layer.on_close(&mut store, &meta(Level::Info, "job", "t"), &thread());
    let parsed = json::parse(line.trim_end()).unwrap();
    assert!(parsed.has_key("elapsed_time_ms"));
    assert!(parsed["elapsed_time_ms"].as_u64().unwrap() >= 10);
}

#[test]
fn event_inside_entered_span_reports_time_since_entered() {
    let layer = TrunkLayer::new("app".to_string(), 1);
    let mut store = SproutStorage::new("app", 1);
    layer.on_enter(&mut store);
    let line = layer.on_event(Some(&store), &vec![], &meta(Level::Info, "e", "t"), &thread());
    let parsed = json::parse(line.trim_end()).unwrap();
    assert!(parsed.has_key("time_since_span_entered_ms"));
    let line2 = layer.on_event(Some(&store), &vec![], &meta(Level::Info, "e", "t"), &thread());
    let parsed2 = json::parse(line2.trim_end()).unwrap();
    assert!(parsed2.has_key("time_since_span_entered_ms"));
}

#[test]
fn event_outside_entered_span_has_no_timing() {
    let layer = TrunkLayer::new("app".to_string(), 1);
    let store = SproutStorage::new("app", 1);
    let line = layer.on_event(Some(&store), &vec![], &meta(Level::Info, "e", "t"), &thread());
    let parsed = json::parse(line.trim_end()).unwrap();
    assert!(!parsed.has_key("time_since_span_entered_ms"));
    let line2 = layer.on_event(None, &vec![], &meta(Level::Info, "e", "t"), &thread());
    let parsed2 = json::parse(line2.trim_end()).unwrap();
    assert!(!parsed2.has_key("time_since_span_entered_ms"));
}

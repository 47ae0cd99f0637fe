use tracing_sprout::AttrObject;
use tracing_sprout::JsonVal;
use tracing_sprout::Level;
use tracing_sprout::SpanMetadata;
use tracing_sprout::ThreadInfo;
use tracing_sprout::TrunkLayer;

fn meta(level: Level, name: &str, target: &str) -> SpanMetadata {
    SpanMetadata {
        level,
        name: name.to_string(),
        target: target.to_string(),
        file: None,
        line: None,
    }
}

fn meta_located(level: Level, name: &str, target: &str, file: &str, line: u32) -> SpanMetadata {
    SpanMetadata {
        level,
        name: name.to_string(),
        target: target.to_string(),
        file: Some(file.to_string()),
        line: Some(line),
    }
}

fn thread() -> ThreadInfo {
    ThreadInfo { id: "ThreadId(1)".to_string(), name: Some("main".to_string()) }
}

#[test]
fn enter_and_exit_messages_use_uppercase_span_name() {
    let layer = TrunkLayer::new("app".to_string(), 1);
    let m = meta(Level::Info, "login_handler", "auth");
    let (mut store, enter_line) = layer.new_span(None, &vec![], &m, &thread());
    let entered = json::parse(enter_line.trim_end()).unwrap();
    assert_eq!(entered["msg"], "[LOGIN_HANDLER | START]");
    assert_eq!(entered["span_type"], "enter");
    let exit_line = layer.on_close(&mut store, &m, &thread());
    let exited = json::parse(exit_line.trim_end()).unwrap();
    assert_eq!(exited["msg"], "[LOGIN_HANDLER | END]");
    assert_eq!(exited["span_type"], "exit");
}

#[test]
fn event_message_falls_back_to_target() {
    let layer = TrunkLayer::new("app".to_string(), 1);
    let line = layer.on_event(None, &vec![], &meta(Level::Info, "e", "auth::login"), &thread());
    let parsed = json::parse(line.trim_end()).unwrap();
    assert_eq!(parsed["msg"], "[EVENT] auth::login");
    assert_eq!(parsed["span_type"], "event");
}

#[test]
fn event_message_uses_recorded_message_field() {
    let layer = TrunkLayer::new("app".to_string(), 1);
    let fields = vec![("message".to_string(), JsonVal::Str("hello there".to_string()))];
    let line = layer.on_event(None, &fields, &meta(Level::Info, "e", "auth"), &thread());
    let parsed = json::parse(line.trim_end()).unwrap();
    assert_eq!(parsed["msg"], "[EVENT] hello there");
    assert!(!parsed.has_key("message"));
}

#[test]
fn event_with_non_string_message_falls_back_to_target() {
    let layer = TrunkLayer::new("app".to_string(), 1);
    let fields = vec![("message".to_string(), JsonVal::Int(5))];
    let line = layer.on_event(None, &fields, &meta(Level::Info, "e", "auth"), &thread());
    let parsed = json::parse(line.trim_end()).unwrap();
    assert_eq!(parsed["msg"], "[EVENT] auth");
    assert!(!parsed.has_key("message"));
}

#[test]
fn info_records_stay_lean() {
    let layer = TrunkLayer::new("app".to_string(), 1);
    let m = meta_located(Level::Info, "e", "t", "src/a.rs", 10);
    let line = layer.on_event(None, &vec![], &m, &thread());
    let parsed = json::parse(line.trim_end()).unwrap();
    assert!(!parsed.has_key("file"));
    assert!(!parsed.has_key("line"));
    assert!(!parsed.has_key("thread_id"));
    assert!(!parsed.has_key("thread_name"));
    assert_eq!(parsed["level"], "info");
}

#[test]
fn warn_records_stay_lean() {
    let layer = TrunkLayer::new("app".to_string(), 1);
    let m = meta_located(Level::Warn, "e", "t", "src/a.rs", 10);
    let line = layer.on_event(None, &vec![], &m, &thread());
    let parsed = json::parse(line.trim_end()).unwrap();
    assert!(!parsed.has_key("file"));
    assert!(!parsed.has_key("thread_id"));
    assert_eq!(parsed["level"], "warn");
}

#[test]
fn trace_records_carry_location_and_thread() {
    let layer = TrunkLayer::new("app".to_string(), 1);
    let m = meta_located(Level::Trace, "e", "t", "src/a.rs", 33);
    let line = layer.on_event(None, &vec![], &m, &thread());
    let parsed = json::parse(line.trim_end()).unwrap();
    assert_eq!(parsed["file"], "src/a.rs");
    assert_eq!(parsed["line"], 33);
    assert_eq!(parsed["thread_id"], "ThreadId(1)");
    assert_eq!(parsed["thread_name"], "main");
    assert_eq!(parsed["level"], "trace");
}

#[test]
fn error_records_carry_location_and_unnamed_thread_is_empty() {
    let layer = TrunkLayer::new("app".to_string(), 1);
    let m = meta_located(Level::Error, "e", "t", "src/b.rs", 7);
    let anon = ThreadInfo { id: "ThreadId(9)".to_string(), name: None };
    let line = layer.on_event(None, &vec![], &m, &anon);
    let parsed = json::parse(line.trim_end()).unwrap();
    assert_eq!(parsed["file"], "src/b.rs");
    assert_eq!(parsed["line"], 7);
    assert_eq!(parsed["thread_id"], "ThreadId(9)");
    assert_eq!(parsed["thread_name"], "");
    assert_eq!(parsed["level"], "error");
}

#[test]
fn core_fields_overwrite_user_fields_of_the_same_name() {
    let layer = TrunkLayer::new("app".to_string(), 1);
    let fields = vec![
        ("level".to_string(), JsonVal::Str("user".to_string())),
        ("target".to_string(), JsonVal::Str("user".to_string())),
    ];
    let line = layer.on_event(None, &fields, &meta(Level::Warn, "e", "real"), &thread());
    let parsed = json::parse(line.trim_end()).unwrap();
    assert_eq!(parsed["level"], "warn");
    assert_eq!(parsed["target"], "real");
}

#[test]
fn records_always_carry_the_core_fields() {
    let layer = TrunkLayer::new("groot".to_string(), 99);
    let line = layer.on_event(None, &vec![], &meta(Level::Debug, "e", "t"), &thread());
    let parsed = json::parse(line.trim_end()).unwrap();
    assert_eq!(parsed["app_name"], "groot");
    assert_eq!(parsed["pid"], 99);
    assert!(parsed.has_key("time"));
    assert!(parsed.has_key("msg"));
    assert_eq!(parsed["level"], "debug");
    assert_eq!(parsed["target"], "t");
    assert_eq!(parsed["span_type"], "event");
}

#[test]
fn object_renders_compact_json_exactly() {
    let mut obj = AttrObject::empty();
    obj.insert("a".to_string(), JsonVal::Int(-12));
    obj.insert("b".to_string(), JsonVal::Bool(true));
    obj.insert("c".to_string(), JsonVal::Str("x\"y\nz".to_string()));
    assert_eq!(obj.to_json(), "{\"a\":-12,\"b\":true,\"c\":\"x\\\"y\\nz\"}");
}

#[test]
fn number_rendering_covers_the_extremes() {
    let mut obj = AttrObject::empty();
    obj.insert("min".to_string(), JsonVal::Int(i64::MIN));
    obj.insert("max".to_string(), JsonVal::UInt(u64::MAX));
    obj.insert("zero".to_string(), JsonVal::UInt(0));
    assert_eq!(
        obj.to_json(),
        "{\"min\":-9223372036854775808,\"max\":18446744073709551615,\"zero\":0}"
    );
    let mut small = AttrObject::empty();
    small.insert("v".to_string(), JsonVal::Int(-42));
    let parsed = json::parse(&small.to_json()).unwrap();
    assert_eq!(parsed["v"].as_i64().unwrap(), -42);
}

#[test]
fn control_characters_are_escaped() {
    let mut obj = AttrObject::empty();
    obj.insert("k".to_string(), JsonVal::Str("\u{1}\t\\".to_string()));
    assert_eq!(obj.to_json(), "{\"k\":\"\\u0001\\t\\\\\"}");
    let parsed = json::parse(&obj.to_json()).unwrap();
    assert_eq!(parsed["k"], "\u{1}\t\\");
}

#[test]
fn keys_keep_insertion_order_and_overwrite_keeps_place() {
    let mut obj = AttrObject::empty();
    obj.insert("one".to_string(), JsonVal::Int(1));
    obj.insert("two".to_string(), JsonVal::Int(2));
    obj.insert("one".to_string(), JsonVal::Int(11));
    assert_eq!(obj.to_json(), "{\"one\":11,\"two\":2}");
}

#[test]
fn emitted_lines_stay_whole_in_a_shared_sink() {
    let layer = TrunkLayer::new("app".to_string(), 1);
    let mut sink = String::new();
    let m = meta(Level::Info, "job", "t");
    let (mut store, enter_line) = layer.new_span(None, &vec![], &m, &thread());
    sink.push_str(&enter_line);
    let fields = vec![("note".to_string(), JsonVal::Str("line1\nline2".to_string()))];
    sink.push_str(&layer.on_event(Some(&store), &fields, &m, &thread()));
    sink.push_str(&layer.on_close(&mut store, &m, &thread()));
    assert!(sink.ends_with('\n'));
    let lines: Vec<&str> = sink.trim_end().split('\n').collect();
    assert_eq!(lines.len(), 3);
    for line in lines {
        let parsed = json::parse(line).unwrap();
        assert!(parsed.is_object());
    }
}

#[test]
fn each_record_ends_with_exactly_one_newline() {
    let layer = TrunkLayer::new("app".to_string(), 1);
    let line = layer.on_event(None, &vec![], &meta(Level::Info, "e", "t"), &thread());
    assert!(line.ends_with('\n'));
    assert_eq!(line.matches('\n').count(), 1);
}

use cli_batteries::console::{render_compact, render_json, render_span_close, render_span_enter,
    LogFormat};
use cli_batteries::fanout::{LayerConfig, LayerKind, LayerOutcome, Pipeline};
use cli_batteries::filter::{MinLevel, TargetFilter};
use cli_batteries::json::{FieldMap, JsonValue};
use cli_batteries::level::Level;
use cli_batteries::lifecycle::{shutdown, FlushGuard};
use cli_batteries::otlp::{Event, OtlpFormatter, TraceInfo, WriteAdaptor};
use cli_batteries::span::{SpanData, SpanStack};

fn plain_event(target: &str, message: &str) -> Event {
    let mut fields = FieldMap::new();
    fields.insert("message".to_owned(), JsonValue::Str(message.to_owned()));
    Event {
        level: Level::Info,
        target: target.to_owned(),
        module: None,
        file: None,
        line: None,
        fields,
        is_span_boundary: false,
    }
}

fn span(handle: u64, trace_id: Option<u128>, span_id: Option<u64>) -> SpanData {
    SpanData {
        handle,
        name: "work".to_owned(),
        target: "app".to_owned(),
        level: Level::Info,
        fields: FieldMap::new(),
        ext_trace_id: trace_id,
        ext_span_id: span_id,
    }
}

#[test]
fn trace_id_prefers_innermost_carrier() {
    let mut stack = SpanStack::new();
    stack.enter(span(1, Some(0xaaaa), None));
    stack.enter(span(2, Some(0xbbbb), None));
    stack.enter(span(3, None, None));
    // Walking innermost to outermost, the first carried id wins.
    assert_eq!(stack.find_trace_id(), Some(0xbbbb));
}

#[test]
fn trace_id_none_when_no_span_carries_one() {
    let mut stack = SpanStack::new();
    stack.enter(span(1, None, None));
    stack.enter(span(2, None, None));
    assert_eq!(stack.find_trace_id(), None);
    assert_eq!(SpanStack::new().find_trace_id(), None);
}

#[test]
fn span_id_prefers_external_then_handle() {
    let mut stack = SpanStack::new();
    stack.enter(span(7, None, None));
    assert_eq!(stack.find_span_id(), Some(7));
    stack.enter(span(8, None, Some(0x99)));
    assert_eq!(stack.find_span_id(), Some(0x99));
    let popped = stack.exit().unwrap();
    assert_eq!(popped.handle, 8);
    assert_eq!(stack.find_span_id(), Some(7));
    assert_eq!(SpanStack::new().find_span_id(), None);
}

#[test]
fn otlp_line_without_span_context() {
    // An event with fields {message: "hello", log.file: "a.rs", x: 1} and no
    // active span: Body is "hello", log.file lands as code.filepath, x passes
    // through, and no TraceId/SpanId keys appear.
    let mut fields = FieldMap::new();
    fields.insert("message".to_owned(), JsonValue::Str("hello".to_owned()));
    fields.insert("log.file".to_owned(), JsonValue::Str("a.rs".to_owned()));
    fields.insert("x".to_owned(), JsonValue::Int(1));
    let event = Event {
        level: Level::Info,
        target: "app".to_owned(),
        module: None,
        file: None,
        line: None,
        fields,
        is_span_boundary: false,
    };
    let stack = SpanStack::new();
    let line = OtlpFormatter.format_event_at(&event, &stack, "main", 1234);
    assert!(line.ends_with('\n'));
    let v: serde_json::Value = serde_json::from_str(&line).unwrap();
    assert_eq!(v["Body"].as_str(), Some("hello"));
    assert_eq!(v["Timestamp"].as_str(), Some("1234"));
    assert_eq!(v["severity"].as_str(), Some("INFO"));
    assert_eq!(v["SeverityText"].as_str(), Some("INFO"));
    assert_eq!(v["SeverityNumber"].as_i64(), Some(9));
    let attrs = v["Attributes"].as_object().unwrap();
    assert_eq!(attrs["code.filepath"].as_str(), Some("a.rs"));
    assert_eq!(attrs["x"].as_i64(), Some(1));
    assert!(!attrs.contains_key("log.file"));
    assert!(!attrs.contains_key("message"));
    assert_eq!(attrs["thread.name"].as_str(), Some("main"));
    let top = v.as_object().unwrap();
    assert!(!top.contains_key("TraceId"));
    assert!(!top.contains_key("SpanId"));
}

#[test]
fn otlp_line_with_external_ids() {
    // Externally-assigned trace id 0x..01 and span id 0x..02 render as
    // fixed-width lowercase zero-padded hex.
    let mut stack = SpanStack::new();
    stack.enter(span(5, Some(1), Some(2)));
    let event = plain_event("app", "hi");
    let line = OtlpFormatter.format_event_at(&event, &stack, "main", 0);
    let v: serde_json::Value = serde_json::from_str(&line).unwrap();
    assert_eq!(
        v["TraceId"].as_str(),
        Some("00000000000000000000000000000001")
    );
    assert_eq!(v["SpanId"].as_str(), Some("0000000000000002"));
}

#[test]
fn otlp_span_id_falls_back_to_handle() {
    let mut stack = SpanStack::new();
    stack.enter(span(0xab, None, None));
    let event = plain_event("app", "hi");
    let line = OtlpFormatter.format_event_at(&event, &stack, "main", 0);
    let v: serde_json::Value = serde_json::from_str(&line).unwrap();
    assert_eq!(v["SpanId"].as_str(), Some("00000000000000ab"));
    assert!(!v.as_object().unwrap().contains_key("TraceId"));
}

#[test]
fn otlp_exact_line() {
    let event = plain_event("app", "hi");
    let stack = SpanStack::new();
    let line = OtlpFormatter.format_event_at(&event, &stack, "main", 42);
    assert_eq!(
        line,
        "{\"Timestamp\":\"42\",\"severity\":\"INFO\",\"SeverityText\":\"INFO\",\
         \"SeverityNumber\":9,\"Body\":\"hi\",\"Attributes\":{\"thread.name\":\"main\"}}\n"
    );
}

#[test]
fn otlp_escapes_message() {
    let event = plain_event("app", "he said \"hi\"\n");
    let stack = SpanStack::new();
    let line = OtlpFormatter.format_event_at(&event, &stack, "main", 0);
    let v: serde_json::Value = serde_json::from_str(&line).unwrap();
    assert_eq!(v["Body"].as_str(), Some("he said \"hi\"\n"));
}

#[test]
fn otlp_event_field_overrides_source_location() {
    // Event fields merge after source-location attributes, so a colliding
    // name wins.
    let mut fields = FieldMap::new();
    fields.insert(
        "code.filepath".to_owned(),
        JsonValue::Str("event.rs".to_owned()),
    );
    let event = Event {
        level: Level::Warn,
        target: "app".to_owned(),
        module: Some("app::inner".to_owned()),
        file: Some("meta.rs".to_owned()),
        line: Some(17),
        fields,
        is_span_boundary: false,
    };
    let stack = SpanStack::new();
    let line = OtlpFormatter.format_event_at(&event, &stack, "main", 0);
    let v: serde_json::Value = serde_json::from_str(&line).unwrap();
    let attrs = v["Attributes"].as_object().unwrap();
    assert_eq!(attrs["code.filepath"].as_str(), Some("event.rs"));
    assert_eq!(attrs["code.namespace"].as_str(), Some("app::inner"));
    assert_eq!(attrs["code.lineno"].as_u64(), Some(17));
}

#[test]
fn otlp_span_fields_do_not_override() {
    // For a span-boundary record the enclosing span's fields merge last but
    // never override event or source attributes.
    let mut span_fields = FieldMap::new();
    span_fields.insert("x".to_owned(), JsonValue::Int(1));
    span_fields.insert("y".to_owned(), JsonValue::Int(2));
    let mut stack = SpanStack::new();
    stack.enter(SpanData {
        handle: 1,
        name: "work".to_owned(),
        target: "app".to_owned(),
        level: Level::Info,
        fields: span_fields,
        ext_trace_id: None,
        ext_span_id: None,
    });
    let mut fields = FieldMap::new();
    fields.insert("x".to_owned(), JsonValue::Int(10));
    let event = Event {
        level: Level::Info,
        target: "app".to_owned(),
        module: None,
        file: None,
        line: None,
        fields,
        is_span_boundary: true,
    };
    let line = OtlpFormatter.format_event_at(&event, &stack, "main", 0);
    let v: serde_json::Value = serde_json::from_str(&line).unwrap();
    let attrs = v["Attributes"].as_object().unwrap();
    assert_eq!(attrs["x"].as_i64(), Some(10));
    assert_eq!(attrs["y"].as_i64(), Some(2));
}

#[test]
fn otlp_field_order_is_semantically_irrelevant() {
    // Two events with the same two independent fields in reversed insertion
    // order render semantically equal JSON objects.
    let build = |first: (&str, i64), second: (&str, i64)| {
        let mut fields = FieldMap::new();
        fields.insert("message".to_owned(), JsonValue::Str("m".to_owned()));
        fields.insert(first.0.to_owned(), JsonValue::Int(first.1));
        fields.insert(second.0.to_owned(), JsonValue::Int(second.1));
        Event {
            level: Level::Info,
            target: "app".to_owned(),
            module: None,
            file: None,
            line: None,
            fields,
            is_span_boundary: false,
        }
    };
    let stack = SpanStack::new();
    let l1 = OtlpFormatter.format_event_at(&build(("a", 1), ("b", 2)), &stack, "main", 7);
    let l2 = OtlpFormatter.format_event_at(&build(("b", 2), ("a", 1)), &stack, "main", 7);
    assert_ne!(l1, l2, "key order differs textually");
    let v1: serde_json::Value = serde_json::from_str(&l1).unwrap();
    let v2: serde_json::Value = serde_json::from_str(&l2).unwrap();
    assert_eq!(v1, v2, "but the objects are semantically equal");
}

#[test]
fn otlp_format_event_stamps_current_time() {
    let event = plain_event("app", "hi");
    let stack = SpanStack::new();
    let line = OtlpFormatter.format_event(&event, &stack, "main");
    let v: serde_json::Value = serde_json::from_str(&line).unwrap();
    let ts: i64 = v["Timestamp"].as_str().unwrap().parse().unwrap();
    // A real clock reading, not the argument handed back: at or after 2020.
    assert!(ts > 1_577_836_800_000);
}

#[test]
fn trace_info_renders_fixed_width_hex() {
    let info = TraceInfo::from_ids(0xdeadbeef, 0x1f);
    assert_eq!(info.trace_id, "000000000000000000000000deadbeef");
    assert_eq!(info.span_id, "000000000000001f");
    assert_eq!(info.trace_id.len(), 32);
    assert_eq!(info.span_id.len(), 16);
}

#[test]
fn compact_and_json_render_exactly() {
    let mut fields = FieldMap::new();
    fields.insert("message".to_owned(), JsonValue::Str("go".to_owned()));
    fields.insert("n".to_owned(), JsonValue::Int(-3));
    fields.insert("ok".to_owned(), JsonValue::Bool(true));
    let event = Event {
        level: Level::Debug,
        target: "app".to_owned(),
        module: None,
        file: None,
        line: None,
        fields,
        is_span_boundary: false,
    };
    assert_eq!(render_compact(&event), "DEBUG app: go {n=-3, ok=true}\n");
    assert_eq!(
        render_json(&event, 5),
        "{\"level\":\"DEBUG\",\"target\":\"app\",\"message\":\"go\",\
         \"fields\":{\"n\":-3,\"ok\":true},\"timestamp\":5}\n"
    );
}

#[test]
fn pretty_renders_indented_by_depth() {
    let mut p = Pipeline::new();
    p.register(LayerConfig {
        kind: LayerKind::Console(LogFormat::Pretty),
        filter: TargetFilter::with_default(MinLevel::At(Level::Trace)),
        span_lifecycle: true,
    });
    let mut stack = SpanStack::new();
    stack.enter(span(1, None, None));
    let mut fields = FieldMap::new();
    fields.insert("message".to_owned(), JsonValue::Str("deep".to_owned()));
    fields.insert("k".to_owned(), JsonValue::Uint(7));
    let event = Event {
        level: Level::Info,
        target: "app".to_owned(),
        module: None,
        file: None,
        line: None,
        fields,
        is_span_boundary: false,
    };
    let outcomes = p.dispatch(&event, &stack, "main", 0, &vec![true]);
    match &outcomes[0] {
        LayerOutcome::Rendered(text) => {
            assert_eq!(text, "  INFO app: deep\n    k: 7\n");
        }
        other => panic!("expected a rendered block, got {other:?}"),
    }
}

#[test]
fn json_escapes_control_characters() {
    let event = plain_event("app", "a\u{000f}b\tc");
    let stack = SpanStack::new();
    let line = OtlpFormatter.format_event_at(&event, &stack, "main", 0);
    assert!(line.contains("a\\u000fb\\tc"));
    let v: serde_json::Value = serde_json::from_str(&line).unwrap();
    assert_eq!(v["Body"].as_str(), Some("a\u{000f}b\tc"));
}

#[test]
fn span_boundary_lines_render() {
    let s = span(1, None, None);
    assert_eq!(render_span_enter(&s), "INFO app: work new\n");
    assert_eq!(render_span_close(&s), "INFO app: work close\n");
}

#[test]
fn failing_layer_does_not_silence_others() {
    // Two independently registered layers; the first one's sink fails on an
    // event, the second still renders that same event.
    let mut p = Pipeline::new();
    p.register(LayerConfig {
        kind: LayerKind::Console(LogFormat::Compact),
        filter: TargetFilter::with_default(MinLevel::At(Level::Trace)),
        span_lifecycle: true,
    });
    p.register(LayerConfig {
        kind: LayerKind::Otlp,
        filter: TargetFilter::with_default(MinLevel::At(Level::Trace)),
        span_lifecycle: false,
    });
    let event = plain_event("app", "hi");
    let stack = SpanStack::new();
    let outcomes = p.dispatch(&event, &stack, "main", 0, &vec![false, true]);
    assert!(matches!(outcomes[0], LayerOutcome::Failed));
    assert!(matches!(outcomes[1], LayerOutcome::Rendered(_)));
}

#[test]
fn dispatch_respects_each_layer_filter() {
    let mut p = Pipeline::new();
    p.register(LayerConfig {
        kind: LayerKind::Console(LogFormat::Compact),
        filter: TargetFilter::with_default(MinLevel::At(Level::Error)),
        span_lifecycle: false,
    });
    p.register(LayerConfig {
        kind: LayerKind::Console(LogFormat::Json),
        filter: TargetFilter::with_default(MinLevel::At(Level::Trace)),
        span_lifecycle: false,
    });
    let event = plain_event("app", "hi");
    let stack = SpanStack::new();
    let outcomes = p.dispatch(&event, &stack, "main", 0, &vec![true, true]);
    assert!(matches!(outcomes[0], LayerOutcome::Skipped));
    assert!(matches!(outcomes[1], LayerOutcome::Rendered(_)));
}

#[test]
fn flame_layer_sees_only_span_lifecycle() {
    let mut p = Pipeline::new();
    p.register(LayerConfig {
        kind: LayerKind::Flame,
        filter: TargetFilter::with_default(MinLevel::At(Level::Trace)),
        span_lifecycle: true,
    });
    let event = plain_event("app", "hi");
    let stack = SpanStack::new();
    let outcomes = p.dispatch(&event, &stack, "main", 0, &vec![true]);
    assert!(matches!(outcomes[0], LayerOutcome::Skipped));
    let s = span(1, None, None);
    let enters = p.dispatch_span_enter(&s, &vec![true]);
    match &enters[0] {
        LayerOutcome::Rendered(line) => assert_eq!(line, "INFO app: work new\n"),
        other => panic!("expected a rendered boundary line, got {other:?}"),
    }
    let exits = p.dispatch_span_exit(&s, &vec![true]);
    assert!(matches!(&exits[0], LayerOutcome::Rendered(l) if l == "INFO app: work close\n"));
}

#[test]
fn shutdown_flushes_exactly_once() {
    let mut armed = FlushGuard::new(true);
    assert!(shutdown(&mut armed));
    assert!(!shutdown(&mut armed));
    assert!(!shutdown(&mut armed));
    let mut unarmed = FlushGuard::new(false);
    assert!(!shutdown(&mut unarmed));
    assert!(!shutdown(&mut unarmed));
}

#[test]
fn write_adaptor_accumulates() {
    let mut w = WriteAdaptor::new();
    w.write_str("hello ");
    w.flush();
    w.write_str("world");
    assert_eq!(w.into_string(), "hello world");
}

use tracing_tail_sample::AttrValue;
use tracing_tail_sample::CloseOutcome;
use tracing_tail_sample::FieldValue;
use tracing_tail_sample::InputField;
use tracing_tail_sample::Level;
use tracing_tail_sample::OtelData;
use tracing_tail_sample::ParentContext;
use tracing_tail_sample::ParentHint;
use tracing_tail_sample::SpanId;
use tracing_tail_sample::SpanKind;
use tracing_tail_sample::SpanMeta;
use tracing_tail_sample::Status;
use tracing_tail_sample::TailSampleLayer;
use tracing_tail_sample::TraceId;
use tracing_tail_sample::layer;

fn meta(name: &str) -> SpanMeta {
    SpanMeta { name: name.to_string(), file: None, namespace: None, line: None }
}

fn field(key: &str, value: FieldValue) -> InputField {
    InputField { key: key.to_string(), value }
}

fn exported(outcome: Result<CloseOutcome, tracing_tail_sample::ProgrammerError>) -> Vec<OtelData> {
    match outcome {
        Ok(CloseOutcome::Exported(out)) => out,
        _ => panic!("expected records to be exported"),
    }
}

fn attr_of<'a>(data: &'a OtelData, key: &str) -> &'a AttrValue {
    let mut found = None;
    for kv in data.builder.attributes.iter() {
        if kv.key == key {
            found = Some(&kv.value);
        }
    }
    match found {
        Some(v) => v,
        None => panic!("attribute not found"),
    }
}

#[test]
fn it_works() {
    let mut engine = layer();
    engine
        .on_new_span(1, meta("base_span"), ParentHint::Contextual(None), ParentContext::Detached, vec![], 0)
        .unwrap();
    engine
        .on_new_span(2, meta("nested_span"), ParentHint::Contextual(Some(1)), ParentContext::Detached, vec![], 1)
        .unwrap();
    engine
        .on_event(Some(2), Level::Info, "tests".to_string(), vec![field("message", FieldValue::Str("event".to_string()))], 2)
        .unwrap();
    assert!(matches!(engine.on_close(2, 3), Ok(CloseOutcome::Buffered)));
    let out = exported(engine.on_close(1, 4));
    assert_eq!(out.len(), 2);
    // Both records belong to one trace: the root carries the trace id, the
    // nested record inherits it through its captured parent context.
    assert_eq!(out[0].builder.name, "nested_span");
    assert_eq!(out[1].builder.name, "base_span");
    let root_trace = out[1].builder.trace_id.unwrap();
    match out[0].parent_cx {
        ParentContext::Span { trace_id, span_id } => {
            assert_eq!(trace_id, root_trace);
            assert_eq!(span_id, out[1].builder.span_id);
        },
        ParentContext::Detached => panic!("nested record lost its parent"),
    }
    assert_eq!(out[0].builder.events.len(), 1);
    assert_eq!(out[0].builder.events[0].name, "event");
}

#[test]
fn dynamic_span_names() {
    let dynamic_name = "GET http://example.com".to_string();
    let mut engine = layer();
    engine
        .on_new_span(
            1,
            meta("static_name"),
            ParentHint::Contextual(None),
            ParentContext::Detached,
            vec![field("otel.name", FieldValue::Str(dynamic_name.clone()))],
            0,
        )
        .unwrap();
    let out = exported(engine.on_close(1, 1));
    assert_eq!(out[0].builder.name, dynamic_name);
}

#[test]
fn span_kind() {
    let mut engine = layer();
    engine
        .on_new_span(
            1,
            meta("request"),
            ParentHint::Contextual(None),
            ParentContext::Detached,
            vec![field("otel.kind", FieldValue::Str("server".to_string()))],
            0,
        )
        .unwrap();
    let out = exported(engine.on_close(1, 1));
    assert_eq!(out[0].builder.kind, Some(SpanKind::Server));
}

#[test]
fn span_status_code() {
    let mut engine = layer();
    engine
        .on_new_span(
            1,
            meta("request"),
            ParentHint::Contextual(None),
            ParentContext::Detached,
            vec![field("otel.status", FieldValue::Str("Ok".to_string()))],
            0,
        )
        .unwrap();
    let out = exported(engine.on_close(1, 1));
    assert_eq!(out[0].builder.status, Status::Okay);
}

#[test]
fn trace_id_from_existing_context() {
    let trace_id = TraceId(42);
    let existing = ParentContext::Span { trace_id, span_id: SpanId(1) };
    let mut engine = layer();
    engine
        .on_new_span(1, meta("request"), ParentHint::Contextual(None), existing, vec![], 0)
        .unwrap();
    let out = exported(engine.on_close(1, 1));
    let recorded_trace_id = match out[0].parent_cx {
        ParentContext::Span { trace_id, .. } => trace_id,
        ParentContext::Detached => panic!("ambient context was dropped"),
    };
    assert_eq!(recorded_trace_id, trace_id);
}

#[test]
fn includes_timings() {
    let mut engine = layer().with_tracked_inactivity(true);
    engine
        .on_new_span(1, meta("request"), ParentHint::Contextual(None), ParentContext::Detached, vec![], 0)
        .unwrap();
    engine.on_enter(1, 5).unwrap();
    engine.on_exit(1, 9).unwrap();
    let out = exported(engine.on_close(1, 10));
    let keys: Vec<&str> = out[0].builder.attributes.iter().map(|kv| kv.key.as_str()).collect();
    assert!(keys.contains(&"idle_ns"));
    assert!(keys.contains(&"busy_ns"));
    assert_eq!(attr_of(&out[0], "idle_ns"), &AttrValue::I64(5));
    assert_eq!(attr_of(&out[0], "busy_ns"), &AttrValue::I64(4));
}

#[test]
fn records_error_fields() {
    let mut engine = layer();
    engine
        .on_new_span(
            1,
            meta("request"),
            ParentHint::Contextual(None),
            ParentContext::Detached,
            vec![field(
                "error",
                FieldValue::Error {
                    display: "user error".to_string(),
                    chain: vec!["intermediate error".to_string(), "base error".to_string()],
                },
            )],
            0,
        )
        .unwrap();
    let out = exported(engine.on_close(1, 1));
    assert_eq!(attr_of(&out[0], "error"), &AttrValue::Str("user error".to_string()));
    assert_eq!(
        attr_of(&out[0], "error.chain"),
        &AttrValue::StrArray(vec!["intermediate error".to_string(), "base error".to_string()]),
    );
}

#[test]
fn sample_decision_false_discards_whole_trace() {
    let mut engine = layer();
    engine
        .on_new_span(1, meta("base_span"), ParentHint::Contextual(None), ParentContext::Detached, vec![], 0)
        .unwrap();
    engine
        .on_new_span(2, meta("nested_span"), ParentHint::Contextual(Some(1)), ParentContext::Detached, vec![], 1)
        .unwrap();
    engine
        .on_event(Some(2), Level::Info, "tests".to_string(), vec![field("message", FieldValue::Str("event".to_string()))], 2)
        .unwrap();
    assert!(matches!(engine.on_close(2, 3), Ok(CloseOutcome::Buffered)));
    assert_eq!(engine.set_sample_decision(1, false), Ok(true));
    assert!(matches!(engine.on_close(1, 4), Ok(CloseOutcome::Discarded(2))));
}

#[test]
fn status_error_without_error_event() {
    let mut engine = layer();
    engine
        .on_new_span(
            1,
            meta("request"),
            ParentHint::Contextual(None),
            ParentContext::Detached,
            vec![field("otel.status", FieldValue::Str("error".to_string()))],
            0,
        )
        .unwrap();
    let out = exported(engine.on_close(1, 1));
    assert_eq!(out[0].builder.status, Status::Error { description: "error".to_string() });
    assert_eq!(out[0].builder.events.len(), 0);
}

#[test]
fn independent_roots_get_distinct_trace_ids() {
    let mut engine = layer();
    engine
        .on_new_span(1, meta("first"), ParentHint::ExplicitRoot, ParentContext::Detached, vec![], 0)
        .unwrap();
    engine
        .on_new_span(2, meta("second"), ParentHint::ExplicitRoot, ParentContext::Detached, vec![], 0)
        .unwrap();
    let first = exported(engine.on_close(1, 1));
    let second = exported(engine.on_close(2, 1));
    let t1 = first[0].builder.trace_id.unwrap();
    let t2 = second[0].builder.trace_id.unwrap();
    assert_ne!(t1, t2);
    assert!(matches!(first[0].parent_cx, ParentContext::Detached));
}

#[test]
fn root_with_two_children_exports_three_records() {
    let mut engine = layer();
    engine
        .on_new_span(1, meta("root"), ParentHint::ExplicitRoot, ParentContext::Detached, vec![], 0)
        .unwrap();
    engine
        .on_new_span(2, meta("a"), ParentHint::Explicit(1), ParentContext::Detached, vec![], 1)
        .unwrap();
    engine
        .on_new_span(3, meta("b"), ParentHint::Explicit(1), ParentContext::Detached, vec![], 1)
        .unwrap();
    assert!(matches!(engine.on_close(2, 2), Ok(CloseOutcome::Buffered)));
    assert!(matches!(engine.on_close(3, 3), Ok(CloseOutcome::Buffered)));
    let out = exported(engine.on_close(1, 4));
    assert_eq!(out.len(), 3);
    // Buffered in close order, root last; every child names the root's span
    // and the root's trace.
    assert_eq!(out[0].builder.name, "a");
    assert_eq!(out[1].builder.name, "b");
    assert_eq!(out[2].builder.name, "root");
    let root_trace = out[2].builder.trace_id.unwrap();
    for child in &out[0..2] {
        match child.parent_cx {
            ParentContext::Span { trace_id, span_id } => {
                assert_eq!(trace_id, root_trace);
                assert_eq!(span_id, out[2].builder.span_id);
            },
            ParentContext::Detached => panic!("child lost its parent"),
        }
    }
}

#[test]
fn no_record_is_exported_twice() {
    let mut engine = layer();
    engine
        .on_new_span(1, meta("root"), ParentHint::ExplicitRoot, ParentContext::Detached, vec![], 0)
        .unwrap();
    let out = exported(engine.on_close(1, 1));
    assert_eq!(out.len(), 1);
    // Closing again finds nothing: the record left the engine exactly once.
    assert!(matches!(
        engine.on_close(1, 2),
        Err(tracing_tail_sample::ProgrammerError::UnknownSpan { id: 1 })
    ));
}

#[test]
fn late_descendant_falls_back_to_standalone_export() {
    let mut engine = layer();
    engine
        .on_new_span(1, meta("root"), ParentHint::ExplicitRoot, ParentContext::Detached, vec![], 0)
        .unwrap();
    engine
        .on_new_span(2, meta("late"), ParentHint::Explicit(1), ParentContext::Detached, vec![], 1)
        .unwrap();
    // The root closes and flushes while the descendant is still open.
    let first = exported(engine.on_close(1, 2));
    assert_eq!(first.len(), 1);
    // The late descendant finds no buffer and exports standalone instead of
    // being silently dropped.
    let second = exported(engine.on_close(2, 3));
    assert_eq!(second.len(), 1);
    assert_eq!(second[0].builder.name, "late");
}

#[test]
fn error_event_promotes_unset_status() {
    let mut engine = layer();
    engine
        .on_new_span(1, meta("request"), ParentHint::ExplicitRoot, ParentContext::Detached, vec![], 0)
        .unwrap();
    engine
        .on_event(Some(1), Level::Error, "tests".to_string(), vec![], 1)
        .unwrap();
    let out = exported(engine.on_close(1, 2));
    assert_eq!(out[0].builder.status, Status::Error { description: String::new() });
    assert_eq!(out[0].builder.events.len(), 1);
    assert_eq!(attr_of_event(&out[0], 0, "level"), &AttrValue::Str("ERROR".to_string()));
    assert_eq!(attr_of_event(&out[0], 0, "target"), &AttrValue::Str("tests".to_string()));
}

fn attr_of_event<'a>(data: &'a OtelData, ev: usize, key: &str) -> &'a AttrValue {
    let mut found = None;
    for kv in data.builder.events[ev].attributes.iter() {
        if kv.key == key {
            found = Some(&kv.value);
        }
    }
    match found {
        Some(v) => v,
        None => panic!("event attribute not found"),
    }
}

#[test]
fn ok_event_leaves_status_alone() {
    let mut engine = layer();
    engine
        .on_new_span(
            1,
            meta("request"),
            ParentHint::ExplicitRoot,
            ParentContext::Detached,
            vec![field("otel.status", FieldValue::Str("ok".to_string()))],
            0,
        )
        .unwrap();
    engine
        .on_event(Some(1), Level::Error, "tests".to_string(), vec![], 1)
        .unwrap();
    let out = exported(engine.on_close(1, 2));
    assert_eq!(out[0].builder.status, Status::Okay);
}

#[test]
fn attribute_merge_is_last_write_wins() {
    let mut engine = layer();
    engine
        .on_new_span(1, meta("request"), ParentHint::ExplicitRoot, ParentContext::Detached, vec![], 0)
        .unwrap();
    engine
        .on_record(1, vec![field("k", FieldValue::I64(1)), field("k", FieldValue::I64(2))])
        .unwrap();
    engine.on_record(1, vec![field("k", FieldValue::I64(3))]).unwrap();
    let out = exported(engine.on_close(1, 1));
    assert_eq!(attr_of(&out[0], "k"), &AttrValue::I64(3));
}

#[test]
fn reserved_fields_never_become_attributes() {
    let mut engine = layer();
    engine
        .on_new_span(
            1,
            meta("request"),
            ParentHint::ExplicitRoot,
            ParentContext::Detached,
            vec![
                field("otel.name", FieldValue::Str("renamed".to_string())),
                field("otel.kind", FieldValue::Str("client".to_string())),
                field("otel.status", FieldValue::Str("bogus".to_string())),
                field("otel.kind", FieldValue::Bool(true)),
            ],
            0,
        )
        .unwrap();
    let out = exported(engine.on_close(1, 1));
    assert_eq!(out[0].builder.name, "renamed");
    assert_eq!(out[0].builder.kind, Some(SpanKind::Client));
    assert_eq!(out[0].builder.status, Status::Unset);
    for kv in out[0].builder.attributes.iter() {
        assert_ne!(kv.key, "otel.name");
        assert_ne!(kv.key, "otel.kind");
        assert_ne!(kv.key, "otel.status");
    }
}

#[test]
fn follows_from_links_the_followed_context() {
    let mut engine = layer();
    engine
        .on_new_span(1, meta("first"), ParentHint::ExplicitRoot, ParentContext::Detached, vec![], 0)
        .unwrap();
    engine
        .on_new_span(2, meta("second"), ParentHint::ExplicitRoot, ParentContext::Detached, vec![], 0)
        .unwrap();
    engine.on_follows_from(2, 1).unwrap();
    let first = exported(engine.on_close(1, 1));
    let second = exported(engine.on_close(2, 2));
    assert_eq!(second[0].builder.links.len(), 1);
    assert_eq!(second[0].builder.links[0].span_id, first[0].builder.span_id);
    assert_eq!(second[0].builder.links[0].trace_id, first[0].builder.trace_id.unwrap());
    assert!(second[0].builder.links[0].attributes.is_empty());
}

#[test]
fn set_parent_replaces_the_captured_context() {
    let mut engine = layer();
    engine
        .on_new_span(1, meta("request"), ParentHint::ExplicitRoot, ParentContext::Detached, vec![], 0)
        .unwrap();
    let remote = ParentContext::Span { trace_id: TraceId(7), span_id: SpanId(9) };
    engine.set_parent(1, remote).unwrap();
    let out = exported(engine.on_close(1, 1));
    assert_eq!(out[0].parent_cx, remote);
}

#[test]
fn add_link_ignores_invalid_contexts() {
    let mut engine = layer();
    engine
        .on_new_span(1, meta("request"), ParentHint::ExplicitRoot, ParentContext::Detached, vec![], 0)
        .unwrap();
    engine.add_link(1, TraceId(0), SpanId(5)).unwrap();
    engine.add_link(1, TraceId(3), SpanId(4)).unwrap();
    let out = exported(engine.on_close(1, 1));
    assert_eq!(out[0].builder.links.len(), 1);
    assert_eq!(out[0].builder.links[0].trace_id, TraceId(3));
    assert_eq!(out[0].builder.links[0].span_id, SpanId(4));
}

#[test]
fn unknown_span_is_a_programmer_error() {
    let mut engine = TailSampleLayer::new();
    assert!(matches!(
        engine.on_record(7, vec![]),
        Err(tracing_tail_sample::ProgrammerError::UnknownSpan { id: 7 })
    ));
    engine
        .on_new_span(1, meta("root"), ParentHint::ExplicitRoot, ParentContext::Detached, vec![], 0)
        .unwrap();
    assert!(matches!(
        engine.on_new_span(1, meta("again"), ParentHint::ExplicitRoot, ParentContext::Detached, vec![], 1),
        Err(tracing_tail_sample::ProgrammerError::DuplicateSpan { id: 1 })
    ));
    assert!(matches!(
        engine.on_new_span(2, meta("child"), ParentHint::Explicit(9), ParentContext::Detached, vec![], 1),
        Err(tracing_tail_sample::ProgrammerError::UnknownSpan { id: 9 })
    ));
}

#[test]
fn context_reports_effective_ids() {
    let mut engine = layer();
    engine
        .on_new_span(1, meta("root"), ParentHint::ExplicitRoot, ParentContext::Detached, vec![], 0)
        .unwrap();
    engine
        .on_new_span(2, meta("child"), ParentHint::Explicit(1), ParentContext::Detached, vec![], 1)
        .unwrap();
    let root_cx = engine.context(1).unwrap();
    let child_cx = engine.context(2).unwrap();
    assert_eq!(child_cx.trace_id, root_cx.trace_id);
    assert!(root_cx.trace_id.is_some());
    assert_ne!(child_cx.span_id, root_cx.span_id);
    assert!(engine.context(3).is_none());
}

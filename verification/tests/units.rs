use tracing_tail_sample::AttrValue;
use tracing_tail_sample::ChainedExporter;
use tracing_tail_sample::Export;
use tracing_tail_sample::export::DropAll;
use tracing_tail_sample::export::KeepAll;
use tracing_tail_sample::FieldValue;
use tracing_tail_sample::KeyValue;
use tracing_tail_sample::SpanKind;
use tracing_tail_sample::Status;
use tracing_tail_sample::Timings;
use tracing_tail_sample::Trace;
use tracing_tail_sample::TraceContext;
use tracing_tail_sample::TraceId;
use tracing_tail_sample::record::event_record_field;
use tracing_tail_sample::record::level_str;
use tracing_tail_sample::record::new_event;
use tracing_tail_sample::record::span_attr_record;
use tracing_tail_sample::record::str_to_span_kind;
use tracing_tail_sample::record::string_to_status;
use tracing_tail_sample::record::Level;
use tracing_tail_sample::record::SpanMeta;
use tracing_tail_sample::record::base_record;
use tracing_tail_sample::ids::SpanId;
use tracing_tail_sample::store::ExtKey;
use tracing_tail_sample::store::ExtStore;
use tracing_tail_sample::store::ExtValue;
use tracing_tail_sample::trace::TraceCache;
use tracing_tail_sample::trace::SampleDecision;

#[test]
fn span_kind_strings_parse_case_insensitively() {
    assert_eq!(str_to_span_kind("server"), Some(SpanKind::Server));
    assert_eq!(str_to_span_kind("SERVER"), Some(SpanKind::Server));
    assert_eq!(str_to_span_kind("Client"), Some(SpanKind::Client));
    assert_eq!(str_to_span_kind("producer"), Some(SpanKind::Producer));
    assert_eq!(str_to_span_kind("Consumer"), Some(SpanKind::Consumer));
    assert_eq!(str_to_span_kind("INTERNAL"), Some(SpanKind::Internal));
    assert_eq!(str_to_span_kind("gateway"), None);
    assert_eq!(str_to_span_kind(""), None);
}

#[test]
fn status_strings_parse_with_error_prefix() {
    assert_eq!(string_to_status("unset"), Some(Status::Unset));
    assert_eq!(string_to_status("UNSET"), Some(Status::Unset));
    assert_eq!(string_to_status("ok"), Some(Status::Okay));
    assert_eq!(string_to_status("Ok"), Some(Status::Okay));
    assert_eq!(
        string_to_status("Error: connection reset"),
        Some(Status::Error { description: "Error: connection reset".to_string() }),
    );
    assert_eq!(
        string_to_status("ERRORS ahead"),
        Some(Status::Error { description: "ERRORS ahead".to_string() }),
    );
    assert_eq!(string_to_status("err"), None);
    assert_eq!(string_to_status(""), None);
}

#[test]
fn level_strings_are_uppercase() {
    assert_eq!(level_str(Level::Trace), "TRACE");
    assert_eq!(level_str(Level::Debug), "DEBUG");
    assert_eq!(level_str(Level::Info), "INFO");
    assert_eq!(level_str(Level::Warn), "WARN");
    assert_eq!(level_str(Level::Error), "ERROR");
}

#[test]
fn timings_accumulate_idle_and_busy() {
    let mut t = Timings::new(100);
    t.enter(130);
    assert_eq!(t.idle, 30);
    assert_eq!(t.busy, 0);
    t.exit(150);
    assert_eq!(t.idle, 30);
    assert_eq!(t.busy, 20);
    t.enter(170);
    assert_eq!(t.idle, 50);
    assert_eq!(t.busy, 20);
    // A clock read that appears to go backwards counts as no elapsed time.
    t.exit(160);
    assert_eq!(t.busy, 20);
    assert_eq!(t.last, 160);
}

#[test]
fn extension_store_keeps_one_value_per_type() {
    let mut st = ExtStore::new();
    assert!(!st.contains(ExtKey::Decision));
    st.insert(ExtValue::Decision(SampleDecision { record_trace: true }));
    assert!(st.contains(ExtKey::Decision));
    st.insert(ExtValue::Decision(SampleDecision { record_trace: false }));
    assert_eq!(st.get_decision(), Some(SampleDecision { record_trace: false }));
    st.insert(ExtValue::Timing(Timings::new(5)));
    assert!(st.contains(ExtKey::Timing));
    let taken = st.take_timing();
    assert_eq!(taken, Some(Timings::new(5)));
    assert!(!st.contains(ExtKey::Timing));
    assert!(matches!(
        st.remove(ExtKey::Decision),
        Some(ExtValue::Decision(SampleDecision { record_trace: false }))
    ));
    assert!(st.remove(ExtKey::Decision).is_none());
}

#[test]
fn trace_cache_hands_records_out_in_append_order() {
    let mut cache = TraceCache::new();
    let mk = |name: &str| tracing_tail_sample::OtelData::new(
        base_record(
            SpanMeta { name: name.to_string(), file: None, namespace: None, line: None },
            0,
            SpanId(1),
            None,
        ),
        tracing_tail_sample::ParentContext::Detached,
    );
    cache.push(mk("a"));
    cache.push(mk("b"));
    let out = cache.take_spans();
    assert_eq!(out.len(), 2);
    assert_eq!(out[0].builder.name, "a");
    assert_eq!(out[1].builder.name, "b");
    cache.push(mk("c"));
    cache.clear();
    assert!(cache.take_spans().is_empty());
}

#[test]
fn trace_context_children_share_the_trace() {
    let root = TraceContext::new(3);
    assert_eq!(root.parent_id, None);
    assert_eq!(root.trace, 3);
    let child = root.child();
    assert_eq!(child.trace_id, root.trace_id);
    assert_eq!(child.parent_id, Some(root.span_id));
    assert_eq!(child.trace, 3);
    let other = TraceContext::new(4);
    assert_ne!(other.trace_id, root.trace_id);
}

#[test]
fn base_record_collects_source_location() {
    let rec = base_record(
        SpanMeta {
            name: "req".to_string(),
            file: Some("src/app.rs".to_string()),
            namespace: Some("app::server".to_string()),
            line: Some(17),
        },
        55,
        SpanId(8),
        Some(TraceId(2)),
    );
    assert_eq!(rec.name, "req");
    assert_eq!(rec.start_time, 55);
    assert_eq!(rec.end_time, None);
    assert_eq!(rec.span_id, SpanId(8));
    assert_eq!(rec.trace_id, Some(TraceId(2)));
    assert_eq!(rec.attributes.len(), 3);
    assert_eq!(rec.attributes[0].key, "code.filepath");
    assert_eq!(rec.attributes[0].value, AttrValue::Str("src/app.rs".to_string()));
    assert_eq!(rec.attributes[1].key, "code.namespace");
    assert_eq!(rec.attributes[2].key, "code.lineno");
    assert_eq!(rec.attributes[2].value, AttrValue::I64(17));
}

#[test]
fn span_fields_divert_and_append() {
    let mut rec = base_record(
        SpanMeta { name: "req".to_string(), file: None, namespace: None, line: None },
        0,
        SpanId(1),
        None,
    );
    span_attr_record(&mut rec, "otel.kind".to_string(), FieldValue::Str("server".to_string()));
    span_attr_record(&mut rec, "answer".to_string(), FieldValue::I64(42));
    span_attr_record(&mut rec, "flag".to_string(), FieldValue::Bool(true));
    span_attr_record(&mut rec, "ratio".to_string(), FieldValue::F64Bits(2.5f64.to_bits()));
    assert_eq!(rec.kind, Some(SpanKind::Server));
    assert_eq!(rec.attributes.len(), 3);
    assert_eq!(rec.attributes[0], KeyValue { key: "answer".to_string(), value: AttrValue::I64(42) });
    assert_eq!(rec.attributes[1], KeyValue { key: "flag".to_string(), value: AttrValue::Bool(true) });
    assert_eq!(
        rec.attributes[2],
        KeyValue { key: "ratio".to_string(), value: AttrValue::F64Bits(2.5f64.to_bits()) },
    );
}

#[test]
fn event_fields_handle_message_and_log_prefix() {
    let mut ev = new_event(Level::Info, "tests".to_string(), 9);
    assert_eq!(ev.name, "");
    assert_eq!(ev.timestamp, 9);
    event_record_field(&mut ev, "message".to_string(), FieldValue::Str("hello".to_string()));
    assert_eq!(ev.name, "hello");
    event_record_field(&mut ev, "message".to_string(), FieldValue::I64(-12));
    assert_eq!(ev.name, "-12");
    event_record_field(&mut ev, "message".to_string(), FieldValue::Bool(true));
    assert_eq!(ev.name, "true");
    event_record_field(&mut ev, "log.target".to_string(), FieldValue::Str("drop me".to_string()));
    event_record_field(&mut ev, "detail".to_string(), FieldValue::Str("kept".to_string()));
    // level + target from creation, plus the one kept field.
    assert_eq!(ev.attributes.len(), 3);
    assert_eq!(ev.attributes[2].key, "detail");
}

#[test]
fn chained_exporters_filter_in_order() {
    let both = ChainedExporter { a: KeepAll, b: KeepAll };
    let filtered = tracing_tail_sample::export::chain(KeepAll, DropAll);
    let t = Trace::new(TraceId(1));
    assert!(both.export(&t));
    assert!(!filtered.export(&t));
    assert_eq!(t.id, TraceId(1));
    assert!(!t.extensions().contains(ExtKey::Decision));
    assert!(!t.extensions().contains(ExtKey::Cache));
}

//! The wire-format span record and the rules that merge recorded fields into
//! it.
//!
//! A record is built incrementally while its span lives and finalized when
//! the span closes. Three reserved field names divert to typed slots instead
//! of becoming attributes; the field name `message` names an event; fields
//! with the log-normalization prefix are dropped.

use vstd::prelude::*;

use crate::attr::attrs_lookup;
use crate::attr::chars_eq_ci;
use crate::attr::chars_prefix;
use crate::attr::chars_prefix_ci;
use crate::attr::str_eq;
use crate::attr::str_eq_ci;
use crate::attr::str_prefix;
use crate::attr::str_prefix_ci;
use crate::attr::AttrValue;
use crate::attr::KeyValue;
use crate::ids::SpanId;
use crate::ids::TraceId;

verus! {

/// The kind of work a span stands for, as backends understand it.
#[derive(Clone, Copy, Debug, PartialEq, Eq, Structural)]
pub enum SpanKind {
    Server,
    Client,
    Producer,
    Consumer,
    Internal,
}

/// The status of a span: unset, success, or an error with a description.
#[derive(Clone, Debug, PartialEq)]
pub enum Status {
    Unset,
    Okay,
    Error { description: String },
}

/// The severity of a log-style event.
#[derive(Clone, Copy, Debug, PartialEq, Eq, Structural)]
pub enum Level {
    Trace,
    Debug,
    Info,
    Warn,
    Error,
}

/// A field value as the instrumentation host hands it in. Strings cover both
/// string fields and debug-formatted values; an error field carries its
/// display string and its ordered cause chain (outer to inner).
#[derive(Clone, Debug, PartialEq)]
pub enum FieldValue {
    Bool(bool),
    I64(i64),
    F64Bits(u64),
    Str(String),
    Error { display: String, chain: Vec<String> },
}

/// A timestamped event recorded against a span.
#[derive(Clone, Debug, PartialEq)]
pub struct SpanEvent {
    pub name: String,
    pub timestamp: u64,
    pub attributes: Vec<KeyValue>,
}

/// A causal, non-parent link from a span to another span's context.
#[derive(Clone, Debug, PartialEq)]
pub struct SpanLink {
    pub trace_id: TraceId,
    pub span_id: SpanId,
    pub attributes: Vec<KeyValue>,
}

/// The causal parent context captured for a record: either no active parent,
/// or the parent span's identifiers.
#[derive(Clone, Copy, Debug, PartialEq, Eq, Structural)]
pub enum ParentContext {
    Detached,
    Span { trace_id: TraceId, span_id: SpanId },
}

impl ParentContext {
    /// Whether this context names an active parent span.
    pub open spec fn spec_has_active_span(self) -> bool {
        self is Span
    }

    /// Whether this context names an active parent span.
    pub fn has_active_span(&self) -> (r: bool)
        ensures
            r == self.spec_has_active_span(),
    {
        match self {
            ParentContext::Detached => false,
            ParentContext::Span { .. } => true,
        }
    }
}

/// A wire-format span record, accumulated while the span lives.
///
/// `trace_id` is set only on records that start a new trace; other records
/// inherit the trace through their captured parent context.
#[derive(Clone, Debug, PartialEq)]
pub struct WireSpanRecord {
    pub name: String,
    pub kind: Option<SpanKind>,
    pub status: Status,
    pub start_time: u64,
    pub end_time: Option<u64>,
    pub attributes: Vec<KeyValue>,
    pub events: Vec<SpanEvent>,
    pub links: Vec<SpanLink>,
    pub trace_id: Option<TraceId>,
    pub span_id: SpanId,
}

/// The span kind a recorded string stands for; unrecognized strings stand
/// for no kind.
pub open spec fn spec_kind_of(s: Seq<char>) -> Option<SpanKind> {
    if chars_eq_ci(s, "server"@) {
        Some(SpanKind::Server)
    } else if chars_eq_ci(s, "client"@) {
        Some(SpanKind::Client)
    } else if chars_eq_ci(s, "producer"@) {
        Some(SpanKind::Producer)
    } else if chars_eq_ci(s, "consumer"@) {
        Some(SpanKind::Consumer)
    } else if chars_eq_ci(s, "internal"@) {
        Some(SpanKind::Internal)
    } else {
        None
    }
}

/// Parse a span-kind string, ignoring ASCII case.
pub fn str_to_span_kind(s: &str) -> (r: Option<SpanKind>)
    ensures
        r == spec_kind_of(s@),
{
    if str_eq_ci(s, "server") {
        Some(SpanKind::Server)
    } else if str_eq_ci(s, "client") {
        Some(SpanKind::Client)
    } else if str_eq_ci(s, "producer") {
        Some(SpanKind::Producer)
    } else if str_eq_ci(s, "consumer") {
        Some(SpanKind::Consumer)
    } else if str_eq_ci(s, "internal") {
        Some(SpanKind::Internal)
    } else {
        None
    }
}

/// What a recognized status string parses to: `unset` and `ok` (ignoring
/// ASCII case) name those statuses; any string beginning case-insensitively
/// with `error` is an error whose description is the whole string; anything
/// else is unrecognized.
pub open spec fn is_status_for(s: Seq<char>, r: Option<Status>) -> bool {
    match r {
        None => !chars_eq_ci(s, "unset"@) && !chars_eq_ci(s, "ok"@) && !chars_prefix_ci(
            s,
            "error"@,
        ),
        Some(Status::Unset) => chars_eq_ci(s, "unset"@),
        Some(Status::Okay) => chars_eq_ci(s, "ok"@) && !chars_eq_ci(s, "unset"@),
        Some(
            Status::Error { description },
        ) => chars_prefix_ci(s, "error"@) && description@ == s && !chars_eq_ci(s, "unset"@)
            && !chars_eq_ci(s, "ok"@),
    }
}

/// Parse a status string; unrecognized strings parse to nothing.
pub fn string_to_status(s: &str) -> (r: Option<Status>)
    ensures
        is_status_for(s@, r),
{
    if str_eq_ci(s, "unset") {
        Some(Status::Unset)
    } else if str_eq_ci(s, "ok") {
        Some(Status::Okay)
    } else if str_prefix_ci(s, "error") {
        Some(Status::Error { description: s.to_owned() })
    } else {
        None
    }
}

/// The status slot after recording a status string: a recognized status, or
/// unset for an unrecognized string.
pub open spec fn status_after(s: Seq<char>, st: Status) -> bool {
    is_status_for(s, Some(st)) || (is_status_for(s, None) && st == Status::Unset)
}

/// Whether a field name is one of the three reserved names that divert to
/// typed slots of the record instead of becoming attributes.
pub open spec fn spec_is_reserved_span_field(key: Seq<char>) -> bool {
    key == "otel.name"@ || key == "otel.kind"@ || key == "otel.status"@
}

/// The uppercase name of a severity level.
pub open spec fn level_chars(l: Level) -> Seq<char> {
    match l {
        Level::Trace => "TRACE"@,
        Level::Debug => "DEBUG"@,
        Level::Info => "INFO"@,
        Level::Warn => "WARN"@,
        Level::Error => "ERROR"@,
    }
}

/// The uppercase name of a severity level.
pub fn level_str(l: Level) -> (r: String)
    ensures
        r@ == level_chars(l),
{
    match l {
        Level::Trace => String::from_str("TRACE"),
        Level::Debug => String::from_str("DEBUG"),
        Level::Info => String::from_str("INFO"),
        Level::Warn => String::from_str("WARN"),
        Level::Error => String::from_str("ERROR"),
    }
}

/// One incoming field: a name and a typed value.
#[derive(Clone, Debug, PartialEq)]
pub struct InputField {
    pub key: String,
    pub value: FieldValue,
}

/// The attribute value a plain (non-error) field value is stored as.
pub open spec fn plain_attr(value: FieldValue) -> AttrValue
    recommends
        !(value is Error),
{
    match value {
        FieldValue::Bool(b) => AttrValue::Bool(b),
        FieldValue::I64(v) => AttrValue::I64(v),
        FieldValue::F64Bits(bits) => AttrValue::F64Bits(bits),
        FieldValue::Str(s) => AttrValue::Str(s),
        FieldValue::Error { display, chain } => AttrValue::Str(display),
    }
}

/// How recording one field changes a span record.
///
/// The three reserved names divert string values to the record's typed
/// slots and store nothing for other values; an error field contributes its
/// display string plus a sibling `<field>.chain` attribute holding the cause
/// chain; every other field is appended as an attribute.
pub open spec fn span_field_step(
    old: WireSpanRecord,
    new: WireSpanRecord,
    key: String,
    value: FieldValue,
) -> bool {
    if spec_is_reserved_span_field(key@) {
        match value {
            FieldValue::Str(s) => {
                if key@ == "otel.name"@ {
                    new == WireSpanRecord { name: s, ..old }
                } else if key@ == "otel.kind"@ {
                    new == WireSpanRecord { kind: spec_kind_of(s@), ..old }
                } else {
                    new == WireSpanRecord { status: new.status, ..old } && status_after(
                        s@,
                        new.status,
                    )
                }
            },
            _ => new == old,
        }
    } else {
        match value {
            FieldValue::Error { display, chain } => {
                &&& new == WireSpanRecord { attributes: new.attributes, ..old }
                &&& new.attributes@.len() == old.attributes@.len() + 2
                &&& new.attributes@ == old.attributes@.push(
                    KeyValue { key, value: AttrValue::Str(display) },
                ).push(new.attributes@.last())
                &&& new.attributes@.last().key@ == key@ + ".chain"@
                &&& new.attributes@.last().value == AttrValue::StrArray(chain)
            },
            _ => new == WireSpanRecord {
                attributes: new.attributes,
                ..old
            } && new.attributes@ == old.attributes@.push(
                KeyValue { key, value: plain_attr(value) },
            ),
        }
    }
}

/// Record one field into a span record.
pub fn span_attr_record(rec: &mut WireSpanRecord, key: String, value: FieldValue)
    ensures
        span_field_step(*old(rec), *final(rec), key, value),
{
    let reserved_name = str_eq(key.as_str(), "otel.name");
    let reserved_kind = str_eq(key.as_str(), "otel.kind");
    let reserved_status = str_eq(key.as_str(), "otel.status");
    if reserved_name || reserved_kind || reserved_status {
        match value {
            FieldValue::Str(s) => {
                if reserved_name {
                    rec.name = s;
                } else if reserved_kind {
                    rec.kind = str_to_span_kind(s.as_str());
                } else {
                    rec.status = match string_to_status(s.as_str()) {
                        Some(st) => st,
                        None => Status::Unset,
                    };
                }
            },
            _ => {},
        }
    } else {
        match value {
            FieldValue::Error { display, chain } => {
                let chain_key = key.clone();
                rec.attributes.push(KeyValue { key, value: AttrValue::Str(display) });
                rec.attributes.push(
                    KeyValue {
                        key: chain_key.concat(".chain"),
                        value: AttrValue::StrArray(chain),
                    },
                );
            },
            FieldValue::Bool(b) => {
                rec.attributes.push(KeyValue { key, value: AttrValue::Bool(b) });
            },
            FieldValue::I64(v) => {
                rec.attributes.push(KeyValue { key, value: AttrValue::I64(v) });
            },
            FieldValue::F64Bits(bits) => {
                rec.attributes.push(KeyValue { key, value: AttrValue::F64Bits(bits) });
            },
            FieldValue::Str(s) => {
                rec.attributes.push(KeyValue { key, value: AttrValue::Str(s) });
            },
        }
    }
}

/// How recording a whole list of fields, in order, changes a span record.
pub open spec fn span_fields_rel(
    old: WireSpanRecord,
    new: WireSpanRecord,
    fields: Seq<InputField>,
) -> bool
    decreases fields.len(),
{
    if fields.len() == 0 {
        new == old
    } else {
        exists|mid: WireSpanRecord|
            span_fields_rel(old, mid, fields.drop_last()) && #[trigger] span_field_step(
                mid,
                new,
                fields.last().key,
                fields.last().value,
            )
    }
}

/// Record a list of fields into a span record, in order.
pub fn record_fields_into(rec: &mut WireSpanRecord, fields: Vec<InputField>)
    ensures
        span_fields_rel(*old(rec), *final(rec), fields@),
{
    let ghost all = fields@;
    let ghost orig = *rec;
    let mut rest = fields;
    let ghost done: Seq<InputField> = Seq::empty();
    proof {
        assert(all =~= done + rest@);
    }
    while rest.len() > 0
        invariant
            all == done + rest@,
            span_fields_rel(orig, *rec, done),
        decreases rest.len(),
    {
        let ghost prev = *rec;
        let f = rest.remove(0);
        span_attr_record(rec, f.key, f.value);
        proof {
            let ghost done2 = done.push(f);
            assert(done2.drop_last() =~= done);
            assert(span_fields_rel(orig, *rec, done2));
            done = done2;
            assert(all =~= done + rest@);
        }
    }
    proof {
        assert(done =~= all);
    }
}

/// Recording fields never changes a record's identifiers, its timestamps,
/// its events or its links.
pub proof fn lemma_span_fields_frame(
    old: WireSpanRecord,
    new: WireSpanRecord,
    fields: Seq<InputField>,
)
    requires
        span_fields_rel(old, new, fields),
    ensures
        new.span_id == old.span_id,
        new.trace_id == old.trace_id,
        new.start_time == old.start_time,
        new.end_time == old.end_time,
        new.events == old.events,
        new.links == old.links,
    decreases fields.len(),
{
    if fields.len() > 0 {
        let mid = choose|mid: WireSpanRecord|
            span_fields_rel(old, mid, fields.drop_last()) && #[trigger] span_field_step(
                mid,
                new,
                fields.last().key,
                fields.last().value,
            );
        lemma_span_fields_frame(old, mid, fields.drop_last());
    }
}

/// Recording a non-reserved, non-error field makes its value the one looked
/// up for its key and leaves every other key's lookup, and every typed slot,
/// unchanged: attribute merge is last-write-wins per key.
pub proof fn law_field_merge_last_write_wins(
    old: WireSpanRecord,
    new: WireSpanRecord,
    key: String,
    value: FieldValue,
    other: Seq<char>,
)
    requires
        span_field_step(old, new, key, value),
        !spec_is_reserved_span_field(key@),
        !(value is Error),
        other != key@,
    ensures
        attrs_lookup(new.attributes@, key@) == Some(plain_attr(value)),
        attrs_lookup(new.attributes@, other) == attrs_lookup(old.attributes@, other),
        new.name == old.name && new.kind == old.kind && new.status == old.status,
{
    let kv = KeyValue { key, value: plain_attr(value) };
    crate::attr::lemma_attrs_lookup_push(old.attributes@, kv, key@);
    crate::attr::lemma_attrs_lookup_push(old.attributes@, kv, other);
}

/// Recording a field under one of the three reserved names stores nothing in
/// the attributes, whatever the value: reserved names divert to typed slots.
pub proof fn law_reserved_fields_never_stored(
    old: WireSpanRecord,
    new: WireSpanRecord,
    key: String,
    value: FieldValue,
)
    requires
        span_field_step(old, new, key, value),
        spec_is_reserved_span_field(key@),
    ensures
        new.attributes == old.attributes,
{
}

/// How recording one field changes an event.
///
/// The field name `message` sets the event's name to the value's display
/// form instead of storing an attribute; fields carrying the
/// log-normalization prefix `log.` are dropped; every other field is
/// appended as an attribute, an error field as its display string. A
/// floating-point message is the one display form the host must render
/// itself, so such a value is kept as an attribute.
pub open spec fn event_field_step(
    old: SpanEvent,
    new: SpanEvent,
    key: String,
    value: FieldValue,
) -> bool {
    if key@ == "message"@ && !(value is F64Bits) {
        match value {
            FieldValue::Str(s) => new == SpanEvent { name: s, ..old },
            FieldValue::Bool(b) => new == SpanEvent { name: new.name, ..old } && new.name@ == (
            if b {
                "true"@
            } else {
                "false"@
            }),
            FieldValue::I64(v) => new == SpanEvent { name: new.name, ..old }
                && vstd::string::to_string_from_display_ensures::<i64>(&v, new.name),
            FieldValue::Error { display, chain } => new == SpanEvent { name: display, ..old },
            FieldValue::F64Bits(bits) => false,
        }
    } else if chars_prefix(key@, "log."@) {
        new == old
    } else {
        new == SpanEvent { attributes: new.attributes, ..old } && new.attributes@
            == old.attributes@.push(KeyValue { key, value: plain_attr_of_event(value) })
    }
}

/// The attribute value an event field is stored as; an error contributes its
/// display string.
pub open spec fn plain_attr_of_event(value: FieldValue) -> AttrValue {
    match value {
        FieldValue::Error { display, chain } => AttrValue::Str(display),
        _ => plain_attr(value),
    }
}

/// Record one field into an event.
pub fn event_record_field(ev: &mut SpanEvent, key: String, value: FieldValue)
    ensures
        event_field_step(*old(ev), *final(ev), key, value),
{
    let is_message = str_eq(key.as_str(), "message");
    let is_f64 = match &value {
        FieldValue::F64Bits(_) => true,
        _ => false,
    };
    if is_message && !is_f64 {
        match value {
            FieldValue::Str(s) => {
                ev.name = s;
            },
            FieldValue::Bool(b) => {
                ev.name = if b {
                    String::from_str("true")
                } else {
                    String::from_str("false")
                };
            },
            FieldValue::I64(v) => {
                ev.name = v.to_string();
            },
            FieldValue::Error { display, chain: _ } => {
                ev.name = display;
            },
            FieldValue::F64Bits(_) => {},
        }
    } else if str_prefix(key.as_str(), "log.") {
    } else {
        match value {
            FieldValue::Error { display, chain: _ } => {
                ev.attributes.push(KeyValue { key, value: AttrValue::Str(display) });
            },
            FieldValue::Bool(b) => {
                ev.attributes.push(KeyValue { key, value: AttrValue::Bool(b) });
            },
            FieldValue::I64(v) => {
                ev.attributes.push(KeyValue { key, value: AttrValue::I64(v) });
            },
            FieldValue::F64Bits(bits) => {
                ev.attributes.push(KeyValue { key, value: AttrValue::F64Bits(bits) });
            },
            FieldValue::Str(s) => {
                ev.attributes.push(KeyValue { key, value: AttrValue::Str(s) });
            },
        }
    }
}

/// How recording a whole list of fields, in order, changes an event.
pub open spec fn event_fields_rel(old: SpanEvent, new: SpanEvent, fields: Seq<InputField>) -> bool
    decreases fields.len(),
{
    if fields.len() == 0 {
        new == old
    } else {
        exists|mid: SpanEvent|
            event_fields_rel(old, mid, fields.drop_last()) && #[trigger] event_field_step(
                mid,
                new,
                fields.last().key,
                fields.last().value,
            )
    }
}

/// Record a list of fields into an event, in order.
pub fn record_event_fields(ev: &mut SpanEvent, fields: Vec<InputField>)
    ensures
        event_fields_rel(*old(ev), *final(ev), fields@),
{
    let ghost all = fields@;
    let ghost orig = *ev;
    let mut rest = fields;
    let ghost done: Seq<InputField> = Seq::empty();
    proof {
        assert(all =~= done + rest@);
    }
    while rest.len() > 0
        invariant
            all == done + rest@,
            event_fields_rel(orig, *ev, done),
        decreases rest.len(),
    {
        let f = rest.remove(0);
        event_record_field(ev, f.key, f.value);
        proof {
            let ghost done2 = done.push(f);
            assert(done2.drop_last() =~= done);
            assert(event_fields_rel(orig, *ev, done2));
            done = done2;
            assert(all =~= done + rest@);
        }
    }
    proof {
        assert(done =~= all);
    }
}

/// A fresh event as a log-style record starts it: empty name, the given
/// timestamp, and the severity level and target as its first attributes.
pub open spec fn is_new_event(ev: SpanEvent, level: Level, target: String, now: u64) -> bool {
    &&& ev.name@ == Seq::<char>::empty()
    &&& ev.timestamp == now
    &&& ev.attributes@.len() == 2
    &&& ev.attributes@[0].key@ == "level"@
    &&& ev.attributes@[0].value matches AttrValue::Str(s) && s@ == level_chars(level)
    &&& ev.attributes@[1].key@ == "target"@
    &&& ev.attributes@[1].value == AttrValue::Str(target)
}

/// Start a log-style event: empty name, the given timestamp, and the level
/// and target as attributes.
pub fn new_event(level: Level, target: String, now: u64) -> (ev: SpanEvent)
    ensures
        is_new_event(ev, level, target, now),
{
    let mut attributes: Vec<KeyValue> = Vec::new();
    attributes.push(KeyValue { key: String::from_str("level"), value: AttrValue::Str(level_str(level)) });
    attributes.push(KeyValue { key: String::from_str("target"), value: AttrValue::Str(target) });
    SpanEvent { name: String::new(), timestamp: now, attributes }
}

/// Source-location metadata of a span at creation.
#[derive(Clone, Debug, PartialEq)]
pub struct SpanMeta {
    pub name: String,
    pub file: Option<String>,
    pub namespace: Option<String>,
    pub line: Option<u32>,
}

/// A record as span creation starts it, before the creation fields are
/// merged: the span's name, start time and ids, empty slots, and the
/// source-location attributes in order.
pub open spec fn is_base_record(
    rec: WireSpanRecord,
    meta: SpanMeta,
    now: u64,
    span_id: SpanId,
    trace_id: Option<TraceId>,
) -> bool {
    let nf: int = if meta.file is Some {
        1
    } else {
        0
    };
    let nm: int = if meta.namespace is Some {
        1
    } else {
        0
    };
    let nl: int = if meta.line is Some {
        1
    } else {
        0
    };
    &&& rec.name == meta.name
    &&& rec.kind is None
    &&& rec.status == Status::Unset
    &&& rec.start_time == now
    &&& rec.end_time is None
    &&& rec.events@.len() == 0
    &&& rec.links@.len() == 0
    &&& rec.trace_id == trace_id
    &&& rec.span_id == span_id
    &&& rec.attributes@.len() == nf + nm + nl
    &&& (meta.file matches Some(f) ==> rec.attributes@[0].key@ == "code.filepath"@
        && rec.attributes@[0].value == AttrValue::Str(f))
    &&& (meta.namespace matches Some(m) ==> rec.attributes@[nf].key@ == "code.namespace"@
        && rec.attributes@[nf].value == AttrValue::Str(m))
    &&& (meta.line matches Some(l) ==> rec.attributes@[nf + nm].key@ == "code.lineno"@
        && rec.attributes@[nf + nm].value == AttrValue::I64(l as i64))
}

/// Start a span record: name, start time, ids, and the source-location
/// attributes.
pub fn base_record(meta: SpanMeta, now: u64, span_id: SpanId, trace_id: Option<TraceId>) -> (rec:
    WireSpanRecord)
    ensures
        is_base_record(rec, meta, now, span_id, trace_id),
{
    let mut attributes: Vec<KeyValue> = Vec::new();
    match &meta.file {
        Some(f) => {
            attributes.push(
                KeyValue { key: String::from_str("code.filepath"), value: AttrValue::Str(f.clone()) },
            );
        },
        None => {},
    }
    match &meta.namespace {
        Some(m) => {
            attributes.push(
                KeyValue {
                    key: String::from_str("code.namespace"),
                    value: AttrValue::Str(m.clone()),
                },
            );
        },
        None => {},
    }
    match meta.line {
        Some(l) => {
            attributes.push(
                KeyValue { key: String::from_str("code.lineno"), value: AttrValue::I64(l as i64) },
            );
        },
        None => {},
    }
    WireSpanRecord {
        name: meta.name,
        kind: None,
        status: Status::Unset,
        start_time: now,
        end_time: None,
        attributes,
        events: Vec::new(),
        links: Vec::new(),
        trace_id,
        span_id,
    }
}

/// A finalized-or-building record paired with the causal parent context
/// captured for it at span creation. This is the unit the trace buffer holds
/// and the exporter receives.
pub struct OtelData {
    pub builder: WireSpanRecord,
    pub parent_cx: ParentContext,
    /// Ghost identity of the record, carried so that the export protocol can
    /// state that no record is ever handed out twice.
    pub tag: Ghost<nat>,
}

impl OtelData {
    /// Pair a record with its captured parent context. Records made this way
    /// live outside the engine; the engine tags the ones it owns itself.
    pub fn new(builder: WireSpanRecord, parent_cx: ParentContext) -> (r: Self)
        ensures
            r.builder == builder,
            r.parent_cx == parent_cx,
    {
        OtelData { builder, parent_cx, tag: Ghost(0) }
    }
}

/// The trace a buffered record belongs to on the wire: its own trace id if
/// it started a trace, else the trace of its captured parent context.
pub open spec fn spec_effective_trace_id(d: OtelData) -> Option<TraceId> {
    match d.builder.trace_id {
        Some(t) => Some(t),
        None => match d.parent_cx {
            ParentContext::Span { trace_id, span_id } => Some(trace_id),
            ParentContext::Detached => None,
        },
    }
}

/// The trace a buffered record belongs to on the wire.
pub fn effective_trace_id(d: &OtelData) -> (r: Option<TraceId>)
    ensures
        r == spec_effective_trace_id(*d),
{
    match d.builder.trace_id {
        Some(t) => Some(t),
        None => match d.parent_cx {
            ParentContext::Span { trace_id, span_id: _ } => Some(trace_id),
            ParentContext::Detached => None,
        },
    }
}

} // verus!

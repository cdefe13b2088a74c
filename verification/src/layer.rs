//! The tail-sample engine: the span-lifecycle state machine and the
//! buffer-and-flush protocol.
//!
//! The engine models the host framework's per-span storage as a table of
//! extension stores keyed by the host's span id, and the shared traces as a
//! table keyed by a trace handle the engine allocates. Span lifecycle
//! callbacks drive the machine; `on_close` returns the records that must be
//! exported now, so the host's exporter stays outside the engine.
//!
//! Every record carries a ghost tag. The engine's invariant keeps all live
//! tags distinct and disjoint from the tags already exported, which is what
//! makes the exactly-once export guarantee a theorem rather than a habit.

use std::collections::HashMap;

use vstd::prelude::*;

use crate::ids::child_context;
use crate::ids::fresh_span_id;
use crate::ids::fresh_trace_id;
use crate::ids::root_context;
use crate::ids::SpanId;
use crate::ids::TraceContext;
use crate::ids::TraceId;
use crate::record::base_record;
use crate::record::effective_trace_id;
use crate::record::event_fields_rel;
use crate::record::is_base_record;
use crate::record::is_new_event;
use crate::record::new_event;
use crate::record::record_event_fields;
use crate::record::Level;
use crate::record::SpanEvent;
use crate::record::Status;
use crate::record::record_fields_into;
use crate::record::span_fields_rel;
use crate::record::spec_effective_trace_id;
use crate::record::WireSpanRecord;
use crate::record::InputField;
use crate::record::OtelData;
use crate::record::ParentContext;
use crate::record::SpanLink;
use crate::record::SpanMeta;
use crate::attr::AttrValue;
use crate::attr::KeyValue;
use crate::store::ExtStore;
use crate::store::ExtValue;
use crate::timings::Timings;
use crate::trace::SampleDecision;
use crate::trace::TraceCache;
use crate::trace::Trace;

verus! {

broadcast use vstd::std_specs::hash::group_hash_axioms;

/// A broken framework invariant, surfaced loudly and never absorbed.
#[derive(Clone, Copy, Debug, PartialEq, Eq, Structural)]
pub enum ProgrammerError {
    /// A callback named a span the engine was never told about.
    UnknownSpan { id: u64 },
    /// Span creation reused the id of a live span.
    DuplicateSpan { id: u64 },
    /// A live span unexpectedly had no record under construction.
    MissingRecord { id: u64 },
}

/// How a new span names its parent: an explicit parent span, the current
/// contextual span (if any), or an explicit root.
#[derive(Clone, Copy, Debug, PartialEq, Eq, Structural)]
pub enum ParentHint {
    Explicit(u64),
    Contextual(Option<u64>),
    ExplicitRoot,
}

/// The parent span a hint resolves to: an explicit parent wins; a contextual
/// span uses the currently active span; otherwise the span is a root.
pub open spec fn spec_resolve_parent(hint: ParentHint) -> Option<u64> {
    match hint {
        ParentHint::Explicit(p) => Some(p),
        ParentHint::Contextual(cur) => cur,
        ParentHint::ExplicitRoot => None,
    }
}

/// Resolve the parent span of a new span.
pub fn resolve_parent(hint: &ParentHint) -> (r: Option<u64>)
    ensures
        r == spec_resolve_parent(*hint),
{
    match hint {
        ParentHint::Explicit(p) => Some(*p),
        ParentHint::Contextual(cur) => *cur,
        ParentHint::ExplicitRoot => None,
    }
}

/// Whether the span is live and has a record under construction.
pub open spec fn has_data(spans: Map<u64, ExtStore>, id: u64) -> bool {
    spans.contains_key(id) && spans[id].data is Some
}

/// The record of a live span.
pub open spec fn data_of(spans: Map<u64, ExtStore>, id: u64) -> OtelData {
    spans[id].data->0
}

/// The buffered records of the trace with the given handle, in append order;
/// empty if the trace is not live or has no buffer yet.
pub open spec fn buf_of(traces: Map<u64, Trace>, h: u64) -> Seq<OtelData> {
    if traces.contains_key(h) && traces[h].ext.cache is Some {
        traces[h].ext.cache->0.spans@
    } else {
        Seq::empty()
    }
}

/// A tag that is still live: below the bound and never exported.
pub open spec fn tag_live(t: nat, exported: Set<nat>, bound: nat) -> bool {
    t < bound && !exported.contains(t)
}

/// The engine's invariant over its state: every record held by a live span
/// or buffered in a trace carries a tag below the bound that was never
/// exported, and no two held records share a tag.
pub open spec fn wf_state(
    spans: Map<u64, ExtStore>,
    traces: Map<u64, Trace>,
    exported: Set<nat>,
    bound: nat,
    hbound: u64,
) -> bool {
    &&& forall|h: u64| #[trigger] traces.contains_key(h) ==> h < hbound
    &&& forall|t: nat| #[trigger] exported.contains(t) ==> t < bound
    &&& forall|id: u64| #[trigger]
        has_data(spans, id) ==> tag_live(data_of(spans, id).tag@, exported, bound)
    &&& forall|h: u64, i: int|
        0 <= i < buf_of(traces, h).len() ==> tag_live(
            #[trigger] buf_of(traces, h)[i].tag@,
            exported,
            bound,
        )
    &&& forall|id1: u64, id2: u64|
        id1 != id2 && #[trigger] has_data(spans, id1) && #[trigger] has_data(spans, id2)
            ==> data_of(spans, id1).tag@ != data_of(spans, id2).tag@
    &&& forall|h1: u64, i1: int, h2: u64, i2: int|
        #![trigger buf_of(traces, h1)[i1], buf_of(traces, h2)[i2]]
        0 <= i1 < buf_of(traces, h1).len() && 0 <= i2 < buf_of(traces, h2).len() && (h1 != h2 || i1
            != i2) ==> buf_of(traces, h1)[i1].tag@ != buf_of(traces, h2)[i2].tag@
    &&& forall|id: u64, h: u64, i: int|
        #![trigger data_of(spans, id), buf_of(traces, h)[i]]
        has_data(spans, id) && 0 <= i < buf_of(traces, h).len() ==> data_of(spans, id).tag@
            != buf_of(traces, h)[i].tag@
}

/// The invariant survives any change that removes records, keeps every kept
/// record's tag, and leaves every trace buffer as it was.
pub proof fn lemma_wf_frame(
    spans0: Map<u64, ExtStore>,
    traces0: Map<u64, Trace>,
    spans1: Map<u64, ExtStore>,
    traces1: Map<u64, Trace>,
    exported: Set<nat>,
    bound: nat,
    hbound: u64,
)
    requires
        wf_state(spans0, traces0, exported, bound, hbound),
        forall|x: u64| #[trigger]
            has_data(spans1, x) ==> has_data(spans0, x) && data_of(spans1, x).tag@ == data_of(
                spans0,
                x,
            ).tag@,
        forall|h: u64| #[trigger]
            buf_of(traces1, h) == buf_of(traces0, h) || buf_of(traces1, h).len() == 0,
        forall|h: u64| #[trigger] traces1.contains_key(h) ==> h < hbound,
    ensures
        wf_state(spans1, traces1, exported, bound, hbound),
{
    assert forall|id: u64| #[trigger] has_data(spans1, id) implies tag_live(
        data_of(spans1, id).tag@,
        exported,
        bound,
    ) by {
        assert(has_data(spans0, id));
    }
    assert forall|h: u64, i: int| 0 <= i < buf_of(traces1, h).len() implies tag_live(
        #[trigger] buf_of(traces1, h)[i].tag@,
        exported,
        bound,
    ) by {
        assert(buf_of(traces1, h).len() > 0);
        assert(buf_of(traces1, h) == buf_of(traces0, h));
    }
    assert forall|id1: u64, id2: u64|
        id1 != id2 && #[trigger] has_data(spans1, id1) && #[trigger] has_data(
            spans1,
            id2,
        ) implies data_of(spans1, id1).tag@ != data_of(spans1, id2).tag@ by {
        assert(has_data(spans0, id1));
        assert(has_data(spans0, id2));
    }
    assert forall|h1: u64, i1: int, h2: u64, i2: int|
        #![trigger buf_of(traces1, h1)[i1], buf_of(traces1, h2)[i2]]
        0 <= i1 < buf_of(traces1, h1).len() && 0 <= i2 < buf_of(traces1, h2).len() && (h1 != h2
            || i1 != i2) implies buf_of(traces1, h1)[i1].tag@ != buf_of(traces1, h2)[i2].tag@ by {
        assert(buf_of(traces1, h1).len() > 0);
        assert(buf_of(traces1, h2).len() > 0);
        assert(buf_of(traces1, h1) == buf_of(traces0, h1));
        assert(buf_of(traces1, h2) == buf_of(traces0, h2));
    }
    assert forall|id: u64, h: u64, i: int|
        #![trigger data_of(spans1, id), buf_of(traces1, h)[i]]
        has_data(spans1, id) && 0 <= i < buf_of(traces1, h).len() implies data_of(spans1, id).tag@
            != buf_of(traces1, h)[i].tag@ by {
        assert(has_data(spans0, id));
        assert(buf_of(traces1, h).len() > 0);
        assert(buf_of(traces1, h) == buf_of(traces0, h));
    }
}

/// The parts of a span's store a callback leaves untouched when it only
/// works on the span's record.
pub open spec fn store_frame(st0: ExtStore, st1: ExtStore) -> bool {
    &&& st1.context == st0.context
    &&& st1.timing == st0.timing
    &&& st1.cache == st0.cache
    &&& st1.decision == st0.decision
}

/// The tail-sample engine. Buffers the records of each trace until the
/// trace's root span closes, then exports them together or discards them
/// together.
pub struct TailSampleLayer {
    tracked_inactivity: bool,
    spans: HashMap<u64, ExtStore>,
    traces: HashMap<u64, Trace>,
    next_trace: u64,
    exported: Ghost<Set<nat>>,
    next_tag: Ghost<nat>,
}

impl TailSampleLayer {
    /// The per-span stores, keyed by the host's span id.
    pub closed spec fn spans_m(self) -> Map<u64, ExtStore> {
        self.spans@
    }

    /// The live traces, keyed by their engine handle.
    pub closed spec fn traces_m(self) -> Map<u64, Trace> {
        self.traces@
    }

    /// The ghost tags of every record handed out for export so far.
    pub closed spec fn exported_tags(self) -> Set<nat> {
        self.exported@
    }

    /// Strict upper bound on every tag handed out so far.
    pub closed spec fn tag_bound(self) -> nat {
        self.next_tag@
    }

    /// Whether busy/idle time is tracked for spans.
    pub closed spec fn spec_inactivity_tracked(self) -> bool {
        self.tracked_inactivity
    }

    /// The next trace handle to be allocated.
    pub closed spec fn handle_bound(self) -> u64 {
        self.next_trace
    }

    /// Whether a fresh trace handle can still be allocated.
    pub open spec fn fresh_handles_left(self) -> bool {
        self.handle_bound() < u64::MAX
    }

    /// Whether the span is live and has a record under construction.
    pub open spec fn span_has_data(self, id: u64) -> bool {
        has_data(self.spans_m(), id)
    }

    /// The record of a live span.
    pub open spec fn span_data(self, id: u64) -> OtelData {
        data_of(self.spans_m(), id)
    }

    /// The buffered records of the trace with the given handle, in append
    /// order; empty if the trace is not live or has no buffer yet.
    pub open spec fn trace_buf(self, h: u64) -> Seq<OtelData> {
        buf_of(self.traces_m(), h)
    }

    /// A tag that is still live: below the bound and never exported.
    pub open spec fn tag_ok(self, t: nat) -> bool {
        t < self.tag_bound() && !self.exported_tags().contains(t)
    }

    /// The engine's invariant: every record held by a live span or buffered
    /// in a trace carries a tag that was never exported, and no two held
    /// records share a tag.
    pub open spec fn wf(self) -> bool {
        wf_state(
            self.spans_m(),
            self.traces_m(),
            self.exported_tags(),
            self.tag_bound(),
            self.handle_bound(),
        )
    }

    /// A fresh engine with busy/idle tracking on, no live spans and no live
    /// traces.
    pub fn new() -> (r: Self)
        ensures
            r.wf(),
            r.spec_inactivity_tracked(),
            r.spans_m() == Map::<u64, ExtStore>::empty(),
            r.traces_m() == Map::<u64, Trace>::empty(),
            r.exported_tags() == Set::<nat>::empty(),
            r.handle_bound() == 0,
    {
        TailSampleLayer {
            tracked_inactivity: true,
            spans: HashMap::new(),
            traces: HashMap::new(),
            next_trace: 0,
            exported: Ghost(Set::empty()),
            next_tag: Ghost(0),
        }
    }

    /// Set whether spans record busy time (total time entered) and idle time
    /// (total time alive but not entered) as attributes at close.
    pub fn with_tracked_inactivity(self, tracked_inactivity: bool) -> (r: Self)
        ensures
            r.spec_inactivity_tracked() == tracked_inactivity,
            r.spans_m() == self.spans_m(),
            r.traces_m() == self.traces_m(),
            r.exported_tags() == self.exported_tags(),
            r.tag_bound() == self.tag_bound(),
            r.handle_bound() == self.handle_bound(),
            self.wf() ==> r.wf(),
    {
        TailSampleLayer { tracked_inactivity, ..self }
    }

    /// Whether a new span can still be created without exhausting trace
    /// handles.
    pub fn can_create_span(&self) -> (r: bool)
        ensures
            r == self.fresh_handles_left(),
    {
        self.next_trace < u64::MAX
    }
}

/// The trace context of the parent span a hint resolves to, if that span is
/// live and carries one.
pub open spec fn parent_ctx_of(spans: Map<u64, ExtStore>, hint: ParentHint) -> Option<
    TraceContext,
> {
    match spec_resolve_parent(hint) {
        Some(p) => if spans.contains_key(p) {
            spans[p].context
        } else {
            None
        },
        None => None,
    }
}

/// The parent context a new span falls back to when its resolved parent has
/// no record: the ambient context for a contextual span, no parent for an
/// explicit one.
pub open spec fn fallback_parent_cx(hint: ParentHint, ambient: ParentContext) -> ParentContext {
    if hint is Contextual {
        ambient
    } else {
        ParentContext::Detached
    }
}

/// The causal parent context captured for a new span's record: derived from
/// the resolved parent's record when it has one, else the fallback. A parent
/// record names its own span id; its trace is its effective trace id.
pub open spec fn parent_cx_for(
    spans: Map<u64, ExtStore>,
    hint: ParentHint,
    ambient: ParentContext,
    pcx: ParentContext,
) -> bool {
    match spec_resolve_parent(hint) {
        Some(p) => if has_data(spans, p) {
            let pd = data_of(spans, p);
            &&& pcx matches ParentContext::Span { trace_id: pt, span_id: ps } && ps
                == pd.builder.span_id
            &&& (spec_effective_trace_id(pd) matches Some(t) ==> pcx == ParentContext::Span {
                trace_id: t,
                span_id: pd.builder.span_id,
            })
        } else {
            pcx == fallback_parent_cx(hint, ambient)
        },
        None => pcx == fallback_parent_cx(hint, ambient),
    }
}

impl TailSampleLayer {
    /// What a successful span creation does to the engine.
    ///
    /// The span gets a fresh store holding its trace context, its record
    /// under construction (carrying a fresh ghost tag) and, when tracked,
    /// fresh timing bookkeeping. The context is a child of the resolved
    /// parent's context when there is one, else a root of a newly allocated
    /// trace. The record starts from the base record and merges the creation
    /// fields in order; its causal parent context comes from the resolved
    /// parent's record, and it carries its own wire trace id exactly when the
    /// captured parent context names no active span.
    pub open spec fn on_new_span_ok(
        pre: Self,
        post: Self,
        id: u64,
        meta: SpanMeta,
        hint: ParentHint,
        ambient: ParentContext,
        fields: Seq<InputField>,
        now: u64,
    ) -> bool {
        let spans0 = pre.spans_m();
        let st = post.spans_m()[id];
        let c = st.context->0;
        let d = st.data->0;
        &&& post.spans_m() == spans0.insert(id, st)
        &&& st.context is Some
        &&& st.data is Some
        &&& st.cache is None
        &&& st.decision is None
        &&& st.timing == if pre.spec_inactivity_tracked() {
            Some(Timings { idle: 0, busy: 0, last: now })
        } else {
            None::<Timings>
        }
        &&& d.tag@ == pre.tag_bound()
        &&& post.tag_bound() == pre.tag_bound() + 1
        &&& post.exported_tags() == pre.exported_tags()
        &&& post.spec_inactivity_tracked() == pre.spec_inactivity_tracked()
        &&& c.span_id == d.builder.span_id
        &&& parent_cx_for(spans0, hint, ambient, d.parent_cx)
        &&& (d.builder.trace_id is Some <==> !d.parent_cx.spec_has_active_span())
        &&& exists|base: WireSpanRecord|
            #[trigger] is_base_record(base, meta, now, d.builder.span_id, d.builder.trace_id)
                && span_fields_rel(base, d.builder, fields)
        &&& match parent_ctx_of(spans0, hint) {
            Some(ptc) => {
                &&& c == child_context(ptc, c.span_id)
                &&& post.traces_m() == pre.traces_m()
                &&& post.handle_bound() == pre.handle_bound()
            },
            None => {
                &&& c == root_context(c.span_id, c.trace_id, pre.handle_bound())
                &&& (!d.parent_cx.spec_has_active_span() ==> d.builder.trace_id == Some(c.trace_id))
                &&& post.handle_bound() == pre.handle_bound() + 1
                &&& post.traces_m() == pre.traces_m().insert(
                    pre.handle_bound(),
                    post.traces_m()[pre.handle_bound()],
                )
                &&& post.traces_m().contains_key(pre.handle_bound())
                &&& post.traces_m()[pre.handle_bound()].id == c.trace_id
                &&& post.traces_m()[pre.handle_bound()].ext == ExtStore::new_spec()
            },
        }
    }

    /// A span was created. Resolve its parent, derive or create its trace
    /// context, and start its wire record from the creation fields.
    ///
    /// Fails loudly when the id names a live span or the resolved parent is
    /// not live, as those break the host framework's invariants.
    pub fn on_new_span(
        &mut self,
        id: u64,
        meta: SpanMeta,
        hint: ParentHint,
        ambient: ParentContext,
        fields: Vec<InputField>,
        now: u64,
    ) -> (r: Result<(), ProgrammerError>)
        requires
            old(self).wf(),
            old(self).fresh_handles_left(),
        ensures
            final(self).wf(),
            match r {
                Ok(()) => {
                    &&& !old(self).spans_m().contains_key(id)
                    &&& (spec_resolve_parent(hint) matches Some(p) ==> old(
                        self,
                    ).spans_m().contains_key(p))
                    &&& Self::on_new_span_ok(
                        *old(self),
                        *final(self),
                        id,
                        meta,
                        hint,
                        ambient,
                        fields@,
                        now,
                    )
                },
                Err(ProgrammerError::DuplicateSpan { id: e }) => {
                    &&& e == id
                    &&& old(self).spans_m().contains_key(id)
                    &&& Self::unchanged(*old(self), *final(self))
                },
                Err(ProgrammerError::UnknownSpan { id: e }) => {
                    &&& spec_resolve_parent(hint) == Some(e)
                    &&& !old(self).spans_m().contains_key(e)
                    &&& !old(self).spans_m().contains_key(id)
                    &&& Self::unchanged(*old(self), *final(self))
                },
                Err(ProgrammerError::MissingRecord { .. }) => false,
            },
    {
        if self.spans.contains_key(&id) {
            return Err(ProgrammerError::DuplicateSpan { id });
        }
        let rp = resolve_parent(&hint);

        // The causal parent context for the wire record, from the resolved
        // parent's record when it has one.
        let mut pcx: ParentContext = match &hint {
            ParentHint::Contextual(_) => ambient,
            _ => ParentContext::Detached,
        };
        // The parent's trace context, for deriving this span's own.
        let mut pctx_opt: Option<TraceContext> = None;
        match rp {
            Some(p) => {
                match self.spans.get(&p) {
                    None => {
                        return Err(ProgrammerError::UnknownSpan { id: p });
                    },
                    Some(pst) => {
                        pctx_opt = pst.get_context();
                        match pst.get_data() {
                            Some(pd) => {
                                let t = match effective_trace_id(pd) {
                                    Some(t) => t,
                                    None => fresh_trace_id(),
                                };
                                pcx = ParentContext::Span {
                                    trace_id: t,
                                    span_id: pd.builder.span_id,
                                };
                            },
                            None => {},
                        }
                    },
                }
            },
            None => {},
        }

        let sid = fresh_span_id();
        let c: TraceContext = match pctx_opt {
            Some(ptc) => TraceContext {
                span_id: sid,
                trace_id: ptc.trace_id,
                parent_id: Some(ptc.span_id),
                trace: ptc.trace,
            },
            None => {
                let h = self.next_trace;
                let tid = fresh_trace_id();
                self.traces.insert(h, Trace::new(tid));
                self.next_trace = h + 1;
                TraceContext { span_id: sid, trace_id: tid, parent_id: None, trace: h }
            },
        };

        // A record carries its own wire trace id exactly when it has no
        // active parent context; a fresh root reuses its context's trace id.
        let wire_tid: Option<TraceId> = if pcx.has_active_span() {
            None
        } else {
            match c.parent_id {
                None => Some(c.trace_id),
                Some(_) => Some(fresh_trace_id()),
            }
        };

        let mut rec = base_record(meta, now, sid, wire_tid);
        let ghost base = rec;
        record_fields_into(&mut rec, fields);
        proof {
            crate::record::lemma_span_fields_frame(base, rec, fields@);
            assert(is_base_record(base, meta, now, rec.span_id, rec.trace_id)
                && span_fields_rel(base, rec, fields@));
        }
        let d = OtelData { builder: rec, parent_cx: pcx, tag: Ghost(self.next_tag@) };
        let mut st = ExtStore::new();
        st.insert(ExtValue::Context(c));
        if self.tracked_inactivity {
            st.insert(ExtValue::Timing(Timings::new(now)));
        }
        st.insert(ExtValue::Data(d));
        self.spans.insert(id, st);
        self.next_tag = Ghost(self.next_tag@ + 1);

        proof {
            let spans0 = old(self).spans_m();
            let spans1 = self.spans_m();
            let traces0 = old(self).traces_m();
            let traces1 = self.traces_m();
            let exp = self.exported_tags();
            let b0 = old(self).tag_bound();
            let b1 = self.tag_bound();
            assert(spans1 == spans0.insert(id, st));
            assert forall|h: u64| #[trigger] buf_of(traces1, h) == buf_of(traces0, h) by {
                if pctx_opt is None {
                    let h0 = old(self).handle_bound();
                    if h == h0 {
                        assert(!traces0.contains_key(h));
                        assert(buf_of(traces0, h) =~= Seq::<OtelData>::empty());
                        assert(traces1[h].ext.cache is None);
                        assert(buf_of(traces1, h) =~= Seq::<OtelData>::empty());
                    }
                }
            }
            assert forall|h: u64| #[trigger] traces1.contains_key(h) implies h
                < self.handle_bound() by {
                if pctx_opt is Some {
                    assert(traces0.contains_key(h));
                }
            }
            assert forall|id2: u64| #[trigger] has_data(spans1, id2) implies tag_live(
                data_of(spans1, id2).tag@,
                exp,
                b1,
            ) by {
                if id2 != id {
                    assert(has_data(spans0, id2));
                }
            }
            assert forall|id1: u64, id2: u64|
                id1 != id2 && #[trigger] has_data(spans1, id1) && #[trigger] has_data(
                    spans1,
                    id2,
                ) implies data_of(spans1, id1).tag@ != data_of(spans1, id2).tag@ by {
                if id1 != id && id2 != id {
                    assert(has_data(spans0, id1));
                    assert(has_data(spans0, id2));
                } else if id1 == id {
                    assert(has_data(spans0, id2));
                } else {
                    assert(has_data(spans0, id1));
                }
            }
            assert forall|id2: u64, h: u64, i: int|
                #![trigger data_of(spans1, id2), buf_of(traces1, h)[i]]
                has_data(spans1, id2) && 0 <= i < buf_of(traces1, h).len() implies data_of(
                spans1,
                id2,
            ).tag@ != buf_of(traces1, h)[i].tag@ by {
                assert(buf_of(traces1, h) == buf_of(traces0, h));
                if id2 != id {
                    assert(has_data(spans0, id2));
                }
            }
            assert forall|h1: u64, i1: int, h2: u64, i2: int|
                #![trigger buf_of(traces1, h1)[i1], buf_of(traces1, h2)[i2]]
                0 <= i1 < buf_of(traces1, h1).len() && 0 <= i2 < buf_of(traces1, h2).len() && (h1
                    != h2 || i1 != i2) implies buf_of(traces1, h1)[i1].tag@ != buf_of(
                traces1,
                h2,
            )[i2].tag@ by {
                assert(buf_of(traces1, h1) == buf_of(traces0, h1));
                assert(buf_of(traces1, h2) == buf_of(traces0, h2));
            }
            assert forall|h: u64, i: int| 0 <= i < buf_of(traces1, h).len() implies tag_live(
                #[trigger] buf_of(traces1, h)[i].tag@,
                exp,
                b1,
            ) by {
                assert(buf_of(traces1, h) == buf_of(traces0, h));
            }
        }
        Ok(())
    }
}

/// A fresh engine with busy/idle tracking on.
pub fn layer() -> (r: TailSampleLayer)
    ensures
        r.wf(),
        r.spec_inactivity_tracked(),
        r.spans_m() == Map::<u64, ExtStore>::empty(),
        r.traces_m() == Map::<u64, Trace>::empty(),
        r.exported_tags() == Set::<nat>::empty(),
        r.handle_bound() == 0,
{
    TailSampleLayer::new()
}


/// The wire context of a span as handed to propagation: its effective trace
/// id (if any) and its span id.
#[derive(Clone, Copy, Debug, PartialEq, Eq, Structural)]
pub struct ContextSnapshot {
    pub trace_id: Option<TraceId>,
    pub span_id: SpanId,
}

impl TailSampleLayer {
    /// Everything a record-only callback leaves untouched.
    pub open spec fn engine_frame(pre: Self, post: Self) -> bool {
        &&& post.traces_m() == pre.traces_m()
        &&& post.exported_tags() == pre.exported_tags()
        &&& post.tag_bound() == pre.tag_bound()
        &&& post.handle_bound() == pre.handle_bound()
        &&& post.spec_inactivity_tracked() == pre.spec_inactivity_tracked()
    }

    /// The engine is observably as it was.
    pub open spec fn unchanged(pre: Self, post: Self) -> bool {
        &&& post.spans_m() == pre.spans_m()
        &&& Self::engine_frame(pre, post)
    }

    /// The engine after a callback that replaced one span's store and touched
    /// nothing else.
    pub open spec fn span_updated(pre: Self, post: Self, id: u64) -> bool {
        &&& Self::engine_frame(pre, post)
        &&& pre.spans_m().contains_key(id)
        &&& post.spans_m().contains_key(id)
        &&& post.spans_m() == pre.spans_m().insert(id, post.spans_m()[id])
    }

    /// A span recorded more fields after creation: merge them into its
    /// record, in order. A span without a record is left alone.
    pub fn on_record(&mut self, id: u64, fields: Vec<InputField>) -> (r: Result<
        (),
        ProgrammerError,
    >)
        requires
            old(self).wf(),
        ensures
            final(self).wf(),
            match r {
                Ok(()) => {
                    &&& Self::span_updated(*old(self), *final(self), id)
                    &&& {
                        let st0 = old(self).spans_m()[id];
                        let st1 = final(self).spans_m()[id];
                        &&& store_frame(st0, st1)
                        &&& match st0.data {
                            Some(d0) => st1.data matches Some(d1) && d1.parent_cx == d0.parent_cx
                                && d1.tag == d0.tag && span_fields_rel(
                                d0.builder,
                                d1.builder,
                                fields@,
                            ),
                            None => st1.data is None,
                        }
                    }
                },
                Err(e) => {
                    &&& e == (ProgrammerError::UnknownSpan { id })
                    &&& !old(self).spans_m().contains_key(id)
                    &&& Self::unchanged(*old(self), *final(self))
                },
            },
    {
        let mut st = match self.spans.remove(&id) {
            None => {
                proof {
                    assert(self.spans_m() =~= old(self).spans_m());
                }
                return Err(ProgrammerError::UnknownSpan { id });
            },
            Some(st) => st,
        };
        match st.take_data() {
            Some(mut d) => {
                record_fields_into(&mut d.builder, fields);
                st.insert(ExtValue::Data(d));
            },
            None => {},
        }
        self.spans.insert(id, st);
        proof {
            let spans0 = old(self).spans_m();
            let spans1 = self.spans_m();
            assert(spans1 =~= spans0.insert(id, spans1[id]));
            assert forall|x: u64| #[trigger] has_data(spans1, x) implies has_data(spans0, x)
                && data_of(spans1, x).tag@ == data_of(spans0, x).tag@ by {
                if x != id {
                    assert(has_data(spans0, x));
                }
            }
            lemma_wf_frame(
                spans0,
                old(self).traces_m(),
                spans1,
                self.traces_m(),
                self.exported_tags(),
                self.tag_bound(),
                self.handle_bound(),
            );
        }
        Ok(())
    }

    /// A span was entered: when inactivity is tracked, the time since its
    /// last transition counts as idle.
    pub fn on_enter(&mut self, id: u64, now: u64) -> (r: Result<(), ProgrammerError>)
        requires
            old(self).wf(),
        ensures
            final(self).wf(),
            !old(self).spec_inactivity_tracked() ==> r is Ok && Self::unchanged(*old(self), *final(self)),
            old(self).spec_inactivity_tracked() ==> match r {
                Ok(()) => {
                    &&& Self::span_updated(*old(self), *final(self), id)
                    &&& {
                        let st0 = old(self).spans_m()[id];
                        let st1 = final(self).spans_m()[id];
                        &&& st1.context == st0.context
                        &&& st1.data == st0.data
                        &&& st1.cache == st0.cache
                        &&& st1.decision == st0.decision
                        &&& match st0.timing {
                            Some(t0) => st1.timing == Some(
                                Timings {
                                    idle: crate::timings::sat_add(
                                        t0.idle,
                                        crate::timings::elapsed(t0.last, now),
                                    ),
                                    busy: t0.busy,
                                    last: now,
                                },
                            ),
                            None => st1.timing is None,
                        }
                    }
                },
                Err(e) => {
                    &&& e == (ProgrammerError::UnknownSpan { id })
                    &&& !old(self).spans_m().contains_key(id)
                    &&& Self::unchanged(*old(self), *final(self))
                },
            },
    {
        if !self.tracked_inactivity {
            return Ok(());
        }
        let mut st = match self.spans.remove(&id) {
            None => {
                proof {
                    assert(self.spans_m() =~= old(self).spans_m());
                }
                return Err(ProgrammerError::UnknownSpan { id });
            },
            Some(st) => st,
        };
        match st.take_timing() {
            Some(mut t) => {
                t.enter(now);
                st.insert(ExtValue::Timing(t));
            },
            None => {},
        }
        self.spans.insert(id, st);
        proof {
            let spans0 = old(self).spans_m();
            let spans1 = self.spans_m();
            assert(spans1 =~= spans0.insert(id, spans1[id]));
            assert forall|x: u64| #[trigger] has_data(spans1, x) implies has_data(spans0, x)
                && data_of(spans1, x).tag@ == data_of(spans0, x).tag@ by {
                if x != id {
                    assert(has_data(spans0, x));
                }
            }
            lemma_wf_frame(
                spans0,
                old(self).traces_m(),
                spans1,
                self.traces_m(),
                self.exported_tags(),
                self.tag_bound(),
                self.handle_bound(),
            );
        }
        Ok(())
    }

    /// A span was exited: when inactivity is tracked, the time since its
    /// last transition counts as busy.
    pub fn on_exit(&mut self, id: u64, now: u64) -> (r: Result<(), ProgrammerError>)
        requires
            old(self).wf(),
        ensures
            final(self).wf(),
            !old(self).spec_inactivity_tracked() ==> r is Ok && Self::unchanged(*old(self), *final(self)),
            old(self).spec_inactivity_tracked() ==> match r {
                Ok(()) => {
                    &&& Self::span_updated(*old(self), *final(self), id)
                    &&& {
                        let st0 = old(self).spans_m()[id];
                        let st1 = final(self).spans_m()[id];
                        &&& st1.context == st0.context
                        &&& st1.data == st0.data
                        &&& st1.cache == st0.cache
                        &&& st1.decision == st0.decision
                        &&& match st0.timing {
                            Some(t0) => st1.timing == Some(
                                Timings {
                                    idle: t0.idle,
                                    busy: crate::timings::sat_add(
                                        t0.busy,
                                        crate::timings::elapsed(t0.last, now),
                                    ),
                                    last: now,
                                },
                            ),
                            None => st1.timing is None,
                        }
                    }
                },
                Err(e) => {
                    &&& e == (ProgrammerError::UnknownSpan { id })
                    &&& !old(self).spans_m().contains_key(id)
                    &&& Self::unchanged(*old(self), *final(self))
                },
            },
    {
        if !self.tracked_inactivity {
            return Ok(());
        }
        let mut st = match self.spans.remove(&id) {
            None => {
                proof {
                    assert(self.spans_m() =~= old(self).spans_m());
                }
                return Err(ProgrammerError::UnknownSpan { id });
            },
            Some(st) => st,
        };
        match st.take_timing() {
            Some(mut t) => {
                t.exit(now);
                st.insert(ExtValue::Timing(t));
            },
            None => {},
        }
        self.spans.insert(id, st);
        proof {
            let spans0 = old(self).spans_m();
            let spans1 = self.spans_m();
            assert(spans1 =~= spans0.insert(id, spans1[id]));
            assert forall|x: u64| #[trigger] has_data(spans1, x) implies has_data(spans0, x)
                && data_of(spans1, x).tag@ == data_of(spans0, x).tag@ by {
                if x != id {
                    assert(has_data(spans0, x));
                }
            }
            lemma_wf_frame(
                spans0,
                old(self).traces_m(),
                spans1,
                self.traces_m(),
                self.exported_tags(),
                self.tag_bound(),
                self.handle_bound(),
            );
        }
        Ok(())
    }

    /// Reparent a span's record onto the given causal context, as context
    /// propagation from another process requires. A span without a record is
    /// left alone.
    pub fn set_parent(&mut self, id: u64, cx: ParentContext) -> (r: Result<(), ProgrammerError>)
        requires
            old(self).wf(),
        ensures
            final(self).wf(),
            match r {
                Ok(()) => {
                    &&& Self::span_updated(*old(self), *final(self), id)
                    &&& {
                        let st0 = old(self).spans_m()[id];
                        let st1 = final(self).spans_m()[id];
                        &&& store_frame(st0, st1)
                        &&& match st0.data {
                            Some(d0) => st1.data == Some(
                                OtelData { builder: d0.builder, parent_cx: cx, tag: d0.tag },
                            ),
                            None => st1.data is None,
                        }
                    }
                },
                Err(e) => {
                    &&& e == (ProgrammerError::UnknownSpan { id })
                    &&& !old(self).spans_m().contains_key(id)
                    &&& Self::unchanged(*old(self), *final(self))
                },
            },
    {
        let mut st = match self.spans.remove(&id) {
            None => {
                proof {
                    assert(self.spans_m() =~= old(self).spans_m());
                }
                return Err(ProgrammerError::UnknownSpan { id });
            },
            Some(st) => st,
        };
        match st.take_data() {
            Some(d) => {
                st.insert(
                    ExtValue::Data(OtelData { builder: d.builder, parent_cx: cx, tag: d.tag }),
                );
            },
            None => {},
        }
        self.spans.insert(id, st);
        proof {
            let spans0 = old(self).spans_m();
            let spans1 = self.spans_m();
            assert(spans1 =~= spans0.insert(id, spans1[id]));
            assert forall|x: u64| #[trigger] has_data(spans1, x) implies has_data(spans0, x)
                && data_of(spans1, x).tag@ == data_of(spans0, x).tag@ by {
                if x != id {
                    assert(has_data(spans0, x));
                }
            }
            lemma_wf_frame(
                spans0,
                old(self).traces_m(),
                spans1,
                self.traces_m(),
                self.exported_tags(),
                self.tag_bound(),
                self.handle_bound(),
            );
        }
        Ok(())
    }

    /// Whether a propagated context is valid: both identifiers nonzero.
    pub open spec fn spec_link_valid(trace_id: TraceId, span_id: SpanId) -> bool {
        trace_id.0 != 0 && span_id.0 != 0
    }

    /// Link a span's record to another span's context, with attributes. An
    /// invalid context is ignored; a span without a record is left alone.
    pub fn add_link_with_attributes(
        &mut self,
        id: u64,
        trace_id: TraceId,
        span_id: SpanId,
        attributes: Vec<KeyValue>,
    ) -> (r: Result<(), ProgrammerError>)
        requires
            old(self).wf(),
        ensures
            final(self).wf(),
            !Self::spec_link_valid(trace_id, span_id) ==> r is Ok && Self::unchanged(*old(self), *final(self)),
            Self::spec_link_valid(trace_id, span_id) ==> match r {
                Ok(()) => {
                    &&& Self::span_updated(*old(self), *final(self), id)
                    &&& {
                        let st0 = old(self).spans_m()[id];
                        let st1 = final(self).spans_m()[id];
                        &&& store_frame(st0, st1)
                        &&& match st0.data {
                            Some(d0) => {
                                &&& st1.data matches Some(d1) && d1.parent_cx == d0.parent_cx
                                    && d1.tag == d0.tag
                                &&& st1.data->0.builder == (WireSpanRecord {
                                    links: st1.data->0.builder.links,
                                    ..d0.builder
                                })
                                &&& st1.data->0.builder.links@ == d0.builder.links@.push(
                                    SpanLink { trace_id, span_id, attributes },
                                )
                            },
                            None => st1.data is None,
                        }
                    }
                },
                Err(e) => {
                    &&& e == (ProgrammerError::UnknownSpan { id })
                    &&& !old(self).spans_m().contains_key(id)
                    &&& Self::unchanged(*old(self), *final(self))
                },
            },
    {
        if !(trace_id.0 != 0 && span_id.0 != 0) {
            return Ok(());
        }
        let mut st = match self.spans.remove(&id) {
            None => {
                proof {
                    assert(self.spans_m() =~= old(self).spans_m());
                }
                return Err(ProgrammerError::UnknownSpan { id });
            },
            Some(st) => st,
        };
        match st.take_data() {
            Some(mut d) => {
                d.builder.links.push(SpanLink { trace_id, span_id, attributes });
                st.insert(ExtValue::Data(d));
            },
            None => {},
        }
        self.spans.insert(id, st);
        proof {
            let spans0 = old(self).spans_m();
            let spans1 = self.spans_m();
            assert(spans1 =~= spans0.insert(id, spans1[id]));
            assert forall|x: u64| #[trigger] has_data(spans1, x) implies has_data(spans0, x)
                && data_of(spans1, x).tag@ == data_of(spans0, x).tag@ by {
                if x != id {
                    assert(has_data(spans0, x));
                }
            }
            lemma_wf_frame(
                spans0,
                old(self).traces_m(),
                spans1,
                self.traces_m(),
                self.exported_tags(),
                self.tag_bound(),
                self.handle_bound(),
            );
        }
        Ok(())
    }

    /// Link a span's record to another span's context.
    pub fn add_link(&mut self, id: u64, trace_id: TraceId, span_id: SpanId) -> (r: Result<
        (),
        ProgrammerError,
    >)
        requires
            old(self).wf(),
        ensures
            final(self).wf(),
            !Self::spec_link_valid(trace_id, span_id) ==> r is Ok && Self::unchanged(*old(self), *final(self)),
            Self::spec_link_valid(trace_id, span_id) ==> match r {
                Ok(()) => {
                    &&& Self::span_updated(*old(self), *final(self), id)
                    &&& {
                        let st0 = old(self).spans_m()[id];
                        let st1 = final(self).spans_m()[id];
                        &&& store_frame(st0, st1)
                        &&& match st0.data {
                            Some(d0) => {
                                &&& st1.data matches Some(d1) && d1.parent_cx == d0.parent_cx
                                    && d1.tag == d0.tag
                                &&& st1.data->0.builder == (WireSpanRecord {
                                    links: st1.data->0.builder.links,
                                    ..d0.builder
                                })
                                &&& st1.data->0.builder.links@.len() == d0.builder.links@.len() + 1
                                &&& st1.data->0.builder.links@.last() == (SpanLink {
                                    trace_id,
                                    span_id,
                                    attributes: st1.data->0.builder.links@.last().attributes,
                                })
                                &&& st1.data->0.builder.links@.last().attributes@.len() == 0
                                &&& st1.data->0.builder.links@.subrange(
                                    0,
                                    d0.builder.links@.len() as int,
                                ) == d0.builder.links@
                            },
                            None => st1.data is None,
                        }
                    }
                },
                Err(e) => {
                    &&& e == (ProgrammerError::UnknownSpan { id })
                    &&& !old(self).spans_m().contains_key(id)
                    &&& Self::unchanged(*old(self), *final(self))
                },
            },
    {
        let r = self.add_link_with_attributes(id, trace_id, span_id, Vec::new());
        proof {
            if Self::spec_link_valid(trace_id, span_id) && r is Ok {
                let st0 = old(self).spans_m()[id];
                let st1 = self.spans_m()[id];
                if st0.data is Some {
                    assert(st1.data->0.builder.links@.subrange(
                        0,
                        st0.data->0.builder.links@.len() as int,
                    ) =~= st0.data->0.builder.links@);
                }
            }
        }
        r
    }
}


impl TailSampleLayer {
    /// A span declared that it follows from another span: append a causal,
    /// non-parent link to the followed span's context onto the record.
    ///
    /// Both spans must be live and carry records, as they do whenever the
    /// host framework delivers the callback; anything else is a broken
    /// invariant, surfaced as an error.
    pub fn on_follows_from(&mut self, id: u64, follows: u64) -> (r: Result<(), ProgrammerError>)
        requires
            old(self).wf(),
        ensures
            final(self).wf(),
            match r {
                Ok(()) => {
                    &&& Self::span_updated(*old(self), *final(self), id)
                    &&& old(self).span_has_data(id)
                    &&& old(self).span_has_data(follows)
                    &&& {
                        let st0 = old(self).spans_m()[id];
                        let st1 = final(self).spans_m()[id];
                        let d0 = st0.data->0;
                        let fd = old(self).span_data(follows);
                        let links1 = st1.data->0.builder.links@;
                        &&& store_frame(st0, st1)
                        &&& st1.data matches Some(d1) && d1.parent_cx == d0.parent_cx && d1.tag
                            == d0.tag
                        &&& st1.data->0.builder == (WireSpanRecord {
                            links: st1.data->0.builder.links,
                            ..d0.builder
                        })
                        &&& links1.len() == d0.builder.links@.len() + 1
                        &&& links1.subrange(0, d0.builder.links@.len() as int)
                            == d0.builder.links@
                        &&& links1.last().span_id == fd.builder.span_id
                        &&& (spec_effective_trace_id(fd) matches Some(t) ==> links1.last().trace_id
                            == t)
                        &&& links1.last().attributes@.len() == 0
                    }
                },
                Err(ProgrammerError::UnknownSpan { id: e }) => {
                    &&& Self::unchanged(*old(self), *final(self))
                    &&& (e == id && !old(self).spans_m().contains_key(id)) || (e == follows && old(
                        self,
                    ).spans_m().contains_key(id) && !old(self).spans_m().contains_key(follows))
                },
                Err(ProgrammerError::MissingRecord { id: e }) => {
                    &&& Self::unchanged(*old(self), *final(self))
                    &&& (e == id && old(self).spans_m().contains_key(id) && !old(
                        self,
                    ).span_has_data(id)) || (e == follows && old(self).span_has_data(id) && old(
                        self,
                    ).spans_m().contains_key(follows) && !old(self).span_has_data(follows))
                },
                Err(ProgrammerError::DuplicateSpan { .. }) => false,
            },
    {
        let mut st = match self.spans.remove(&id) {
            None => {
                proof {
                    assert(self.spans_m() =~= old(self).spans_m());
                }
                return Err(ProgrammerError::UnknownSpan { id });
            },
            Some(st) => st,
        };
        let mut d = match st.take_data() {
            None => {
                self.spans.insert(id, st);
                proof {
                    assert(self.spans_m() =~= old(self).spans_m());
                }
                return Err(ProgrammerError::MissingRecord { id });
            },
            Some(d) => d,
        };
        // The followed span's wire context: its record's own span id and its
        // effective trace.
        let (f_span, f_trace) = if follows == id {
            let t = match effective_trace_id(&d) {
                Some(t) => t,
                None => fresh_trace_id(),
            };
            (d.builder.span_id, t)
        } else {
            match self.spans.get(&follows) {
                None => {
                    st.insert(ExtValue::Data(d));
                    self.spans.insert(id, st);
                    proof {
                        assert(self.spans_m() =~= old(self).spans_m());
                    }
                    return Err(ProgrammerError::UnknownSpan { id: follows });
                },
                Some(fst) => {
                    match fst.get_data() {
                        None => {
                            st.insert(ExtValue::Data(d));
                            self.spans.insert(id, st);
                            proof {
                                assert(self.spans_m() =~= old(self).spans_m());
                            }
                            return Err(ProgrammerError::MissingRecord { id: follows });
                        },
                        Some(fd) => {
                            let t = match effective_trace_id(fd) {
                                Some(t) => t,
                                None => fresh_trace_id(),
                            };
                            (fd.builder.span_id, t)
                        },
                    }
                },
            }
        };
        let ghost links0 = d.builder.links@;
        d.builder.links.push(SpanLink { trace_id: f_trace, span_id: f_span, attributes: Vec::new() });
        st.insert(ExtValue::Data(d));
        self.spans.insert(id, st);
        proof {
            let spans0 = old(self).spans_m();
            let spans1 = self.spans_m();
            assert(spans1 =~= spans0.insert(id, spans1[id]));
            assert(spans1[id].data->0.builder.links@.subrange(0, links0.len() as int) =~= links0);
            assert forall|x: u64| #[trigger] has_data(spans1, x) implies has_data(spans0, x)
                && data_of(spans1, x).tag@ == data_of(spans0, x).tag@ by {
                if x != id {
                    assert(has_data(spans0, x));
                }
            }
            lemma_wf_frame(
                spans0,
                old(self).traces_m(),
                spans1,
                self.traces_m(),
                self.exported_tags(),
                self.tag_bound(),
                self.handle_bound(),
            );
        }
        Ok(())
    }

    /// A log-style event fired against the current span, if any: append it to
    /// the span's record as a timestamped event carrying the severity level
    /// and target plus the recorded fields. An error-level event on a span
    /// whose status is still unset promotes the status to an error with an
    /// empty description. Outside any span, or on a span without a record,
    /// nothing is recorded.
    pub fn on_event(
        &mut self,
        current: Option<u64>,
        level: Level,
        target: String,
        fields: Vec<InputField>,
        now: u64,
    ) -> (r: Result<(), ProgrammerError>)
        requires
            old(self).wf(),
        ensures
            final(self).wf(),
            current is None ==> r is Ok && Self::unchanged(*old(self), *final(self)),
            match (current, r) {
                (Some(id), Ok(())) => {
                    if old(self).span_has_data(id) {
                        let st0 = old(self).spans_m()[id];
                        let st1 = final(self).spans_m()[id];
                        let d0 = st0.data->0;
                        let events1 = st1.data->0.builder.events@;
                        &&& Self::span_updated(*old(self), *final(self), id)
                        &&& store_frame(st0, st1)
                        &&& st1.data matches Some(d1) && d1.parent_cx == d0.parent_cx && d1.tag
                            == d0.tag
                        &&& st1.data->0.builder == (WireSpanRecord {
                            events: st1.data->0.builder.events,
                            status: st1.data->0.builder.status,
                            ..d0.builder
                        })
                        &&& events1 == d0.builder.events@.push(events1.last())
                        &&& exists|e0: SpanEvent|
                            #[trigger] is_new_event(e0, level, target, now) && event_fields_rel(
                                e0,
                                events1.last(),
                                fields@,
                            )
                        &&& if level == Level::Error && d0.builder.status is Unset {
                            st1.data->0.builder.status matches Status::Error { description }
                                && description@ == Seq::<char>::empty()
                        } else {
                            st1.data->0.builder.status == d0.builder.status
                        }
                    } else {
                        Self::unchanged(*old(self), *final(self))
                    }
                },
                (Some(id), Err(e)) => {
                    &&& e == (ProgrammerError::UnknownSpan { id })
                    &&& !old(self).spans_m().contains_key(id)
                    &&& Self::unchanged(*old(self), *final(self))
                },
                (None, _) => true,
            },
    {
        let id = match current {
            None => {
                return Ok(());
            },
            Some(id) => id,
        };
        let mut st = match self.spans.remove(&id) {
            None => {
                proof {
                    assert(self.spans_m() =~= old(self).spans_m());
                }
                return Err(ProgrammerError::UnknownSpan { id });
            },
            Some(st) => st,
        };
        let mut d = match st.take_data() {
            None => {
                self.spans.insert(id, st);
                proof {
                    assert(self.spans_m() =~= old(self).spans_m());
                }
                return Ok(());
            },
            Some(d) => d,
        };
        let mut ev = new_event(level, target, now);
        record_event_fields(&mut ev, fields);
        let promote = match (level, &d.builder.status) {
            (Level::Error, Status::Unset) => true,
            _ => false,
        };
        if promote {
            d.builder.status = Status::Error { description: String::new() };
        }
        d.builder.events.push(ev);
        st.insert(ExtValue::Data(d));
        self.spans.insert(id, st);
        proof {
            let spans0 = old(self).spans_m();
            let spans1 = self.spans_m();
            assert(spans1 =~= spans0.insert(id, spans1[id]));
            assert forall|x: u64| #[trigger] has_data(spans1, x) implies has_data(spans0, x)
                && data_of(spans1, x).tag@ == data_of(spans0, x).tag@ by {
                if x != id {
                    assert(has_data(spans0, x));
                }
            }
            lemma_wf_frame(
                spans0,
                old(self).traces_m(),
                spans1,
                self.traces_m(),
                self.exported_tags(),
                self.tag_bound(),
                self.handle_bound(),
            );
        }
        Ok(())
    }

    /// The wire context of a live span's record: its effective trace id and
    /// its span id. Nothing for an unknown span or one without a record.
    pub fn context(&self, id: u64) -> (r: Option<ContextSnapshot>)
        ensures
            match r {
                Some(s) => {
                    &&& self.span_has_data(id)
                    &&& s.span_id == self.span_data(id).builder.span_id
                    &&& s.trace_id == spec_effective_trace_id(self.span_data(id))
                },
                None => !self.span_has_data(id),
            },
    {
        match self.spans.get(&id) {
            None => None,
            Some(st) => match st.get_data() {
                None => None,
                Some(d) => Some(
                    ContextSnapshot {
                        trace_id: effective_trace_id(d),
                        span_id: d.builder.span_id,
                    },
                ),
            },
        }
    }

    /// The sampling policy's hook: write the export-or-discard verdict into
    /// the trace a span belongs to, overwriting any earlier verdict. Returns
    /// whether a verdict was written: a span without a trace context, or
    /// whose trace is no longer live, takes no verdict.
    pub fn set_sample_decision(&mut self, id: u64, record_trace: bool) -> (r: Result<
        bool,
        ProgrammerError,
    >)
        requires
            old(self).wf(),
        ensures
            final(self).wf(),
            match r {
                Ok(true) => {
                    let tc = old(self).spans_m()[id].context->0;
                    let h = tc.trace;
                    &&& old(self).spans_m().contains_key(id)
                    &&& old(self).spans_m()[id].context is Some
                    &&& old(self).traces_m().contains_key(h)
                    &&& final(self).spans_m() == old(self).spans_m()
                    &&& final(self).traces_m() == old(self).traces_m().insert(
                        h,
                        final(self).traces_m()[h],
                    )
                    &&& final(self).traces_m()[h].id == old(self).traces_m()[h].id
                    &&& final(self).traces_m()[h].ext == (ExtStore {
                        decision: Some(SampleDecision { record_trace }),
                        ..old(self).traces_m()[h].ext
                    })
                    &&& final(self).exported_tags() == old(self).exported_tags()
                    &&& final(self).tag_bound() == old(self).tag_bound()
                    &&& final(self).handle_bound() == old(self).handle_bound()
                    &&& final(self).spec_inactivity_tracked() == old(
                        self,
                    ).spec_inactivity_tracked()
                },
                Ok(false) => {
                    &&& Self::unchanged(*old(self), *final(self))
                    &&& old(self).spans_m().contains_key(id)
                    &&& (old(self).spans_m()[id].context is None || !old(
                        self,
                    ).traces_m().contains_key(old(self).spans_m()[id].context->0.trace))
                },
                Err(e) => {
                    &&& e == (ProgrammerError::UnknownSpan { id })
                    &&& !old(self).spans_m().contains_key(id)
                    &&& Self::unchanged(*old(self), *final(self))
                },
            },
    {
        let tc = match self.spans.get(&id) {
            None => {
                return Err(ProgrammerError::UnknownSpan { id });
            },
            Some(st) => match st.get_context() {
                None => {
                    return Ok(false);
                },
                Some(tc) => tc,
            },
        };
        let mut tr = match self.traces.remove(&tc.trace) {
            None => {
                proof {
                    assert(self.traces_m() =~= old(self).traces_m());
                }
                return Ok(false);
            },
            Some(tr) => tr,
        };
        tr.ext.insert(ExtValue::Decision(SampleDecision { record_trace }));
        self.traces.insert(tc.trace, tr);
        proof {
            let traces0 = old(self).traces_m();
            let traces1 = self.traces_m();
            assert(traces1 =~= traces0.insert(tc.trace, traces1[tc.trace]));
            assert forall|h: u64| #[trigger] buf_of(traces1, h) == buf_of(traces0, h) by {
                if h == tc.trace {
                    assert(traces1[h].ext.cache == traces0[h].ext.cache);
                }
            }
            assert forall|h: u64| #[trigger] traces1.contains_key(h) implies h
                < self.handle_bound() by {
                assert(traces0.contains_key(h));
            }
            lemma_wf_frame(
                old(self).spans_m(),
                traces0,
                self.spans_m(),
                traces1,
                self.exported_tags(),
                self.tag_bound(),
                self.handle_bound(),
            );
        }
        Ok(true)
    }
}


/// The ghost tags of a sequence of records.
pub open spec fn tags_of(s: Seq<OtelData>) -> Set<nat> {
    Set::new(|t: nat| exists|i: int| 0 <= i < s.len() && s[i].tag@ == t)
}

/// How a record is finalized at close: the end timestamp is set, and, when
/// inactivity was tracked for the span, the accumulated busy and idle times
/// are appended as attributes.
pub open spec fn finalize_rel(
    d0: OtelData,
    tm: Option<Timings>,
    timed: bool,
    now: u64,
    fin: OtelData,
) -> bool {
    &&& fin.parent_cx == d0.parent_cx
    &&& fin.tag == d0.tag
    &&& fin.builder == (WireSpanRecord {
        end_time: Some(now),
        attributes: fin.builder.attributes,
        ..d0.builder
    })
    &&& if timed && tm is Some {
        let t = tm->0;
        let n = d0.builder.attributes@.len() as int;
        &&& fin.builder.attributes@.len() == n + 2
        &&& fin.builder.attributes@.subrange(0, n) == d0.builder.attributes@
        &&& fin.builder.attributes@[n].key@ == "busy_ns"@
        &&& fin.builder.attributes@[n].value == AttrValue::I64(t.busy as i64)
        &&& fin.builder.attributes@[n + 1].key@ == "idle_ns"@
        &&& fin.builder.attributes@[n + 1].value == AttrValue::I64(t.idle as i64)
    } else {
        fin.builder.attributes == d0.builder.attributes
    }
}

/// Finalize a record at close.
fn finalize_record(d: OtelData, tm: Option<Timings>, timed: bool, now: u64) -> (fin: OtelData)
    ensures
        finalize_rel(d, tm, timed, now, fin),
{
    let mut d = d;
    let ghost attrs0 = d.builder.attributes@;
    if timed {
        match tm {
            Some(t) => {
                d.builder.attributes.push(
                    KeyValue {
                        key: String::from_str("busy_ns"),
                        value: AttrValue::I64(#[verifier::truncate] (t.busy as i64)),
                    },
                );
                d.builder.attributes.push(
                    KeyValue {
                        key: String::from_str("idle_ns"),
                        value: AttrValue::I64(#[verifier::truncate] (t.idle as i64)),
                    },
                );
                proof {
                    assert(d.builder.attributes@.subrange(0, attrs0.len() as int) =~= attrs0);
                }
            },
            None => {},
        }
    }
    d.builder.end_time = Some(now);
    d
}

/// What closing a span led to: nothing recorded for it; its record buffered
/// to await the trace's verdict; records to hand to the exporter now; or a
/// whole trace discarded, with the count of records dropped.
pub enum CloseOutcome {
    Missing,
    Buffered,
    Exported(Vec<OtelData>),
    Discarded(usize),
}

/// The verdict stored in a trace: export unless a policy wrote `false`.
pub open spec fn trace_verdict(t: Trace) -> bool {
    match t.ext.decision {
        Some(d) => d.record_trace,
        None => true,
    }
}


impl TailSampleLayer {
    /// Closing a span that had no record: the span is dropped and nothing
    /// else moves.
    pub open spec fn close_missing(pre: Self, post: Self, id: u64) -> bool {
        &&& pre.spans_m().contains_key(id)
        &&& pre.spans_m()[id].data is None
        &&& post.spans_m() == pre.spans_m().remove(id)
        &&& Self::engine_frame(pre, post)
    }

    /// Closing a span with no trace context, or whose trace has already been
    /// flushed or discarded: its finalized record is exported standalone,
    /// immediately.
    pub open spec fn close_standalone(
        pre: Self,
        post: Self,
        id: u64,
        now: u64,
        out: Seq<OtelData>,
    ) -> bool {
        let st0 = pre.spans_m()[id];
        &&& pre.span_has_data(id)
        &&& (st0.context is None || !pre.traces_m().contains_key(st0.context->0.trace))
        &&& out.len() == 1
        &&& finalize_rel(st0.data->0, st0.timing, pre.spec_inactivity_tracked(), now, out[0])
        &&& post.spans_m() == pre.spans_m().remove(id)
        &&& post.traces_m() == pre.traces_m()
        &&& post.exported_tags() == pre.exported_tags().union(tags_of(out))
        &&& post.tag_bound() == pre.tag_bound()
        &&& post.handle_bound() == pre.handle_bound()
        &&& post.spec_inactivity_tracked() == pre.spec_inactivity_tracked()
    }

    /// Closing a non-root span of a live trace: its finalized record is
    /// appended to the trace's buffer (created on first use) and export is
    /// deferred.
    pub open spec fn close_buffered(pre: Self, post: Self, id: u64, now: u64) -> bool {
        let st0 = pre.spans_m()[id];
        let tc = st0.context->0;
        let h = tc.trace;
        &&& pre.span_has_data(id)
        &&& st0.context is Some
        &&& pre.traces_m().contains_key(h)
        &&& tc.parent_id is Some
        &&& post.spans_m() == pre.spans_m().remove(id)
        &&& post.traces_m() == pre.traces_m().insert(h, post.traces_m()[h])
        &&& post.traces_m().contains_key(h)
        &&& post.traces_m()[h].id == pre.traces_m()[h].id
        &&& post.traces_m()[h].ext == (ExtStore {
            cache: post.traces_m()[h].ext.cache,
            ..pre.traces_m()[h].ext
        })
        &&& buf_of(post.traces_m(), h) == buf_of(pre.traces_m(), h).push(
            buf_of(post.traces_m(), h).last(),
        )
        &&& finalize_rel(
            st0.data->0,
            st0.timing,
            pre.spec_inactivity_tracked(),
            now,
            buf_of(post.traces_m(), h).last(),
        )
        &&& post.exported_tags() == pre.exported_tags()
        &&& post.tag_bound() == pre.tag_bound()
        &&& post.handle_bound() == pre.handle_bound()
        &&& post.spec_inactivity_tracked() == pre.spec_inactivity_tracked()
    }

    /// Closing the root of a live trace whose verdict is export (or unset):
    /// the whole buffer plus the root's own finalized record is exported, in
    /// append order, and the trace is consumed.
    pub open spec fn close_flushed(
        pre: Self,
        post: Self,
        id: u64,
        now: u64,
        out: Seq<OtelData>,
    ) -> bool {
        let st0 = pre.spans_m()[id];
        let tc = st0.context->0;
        let h = tc.trace;
        &&& pre.span_has_data(id)
        &&& st0.context is Some
        &&& pre.traces_m().contains_key(h)
        &&& tc.parent_id is None
        &&& trace_verdict(pre.traces_m()[h])
        &&& out.len() == buf_of(pre.traces_m(), h).len() + 1
        &&& out == buf_of(pre.traces_m(), h).push(out.last())
        &&& finalize_rel(st0.data->0, st0.timing, pre.spec_inactivity_tracked(), now, out.last())
        &&& post.spans_m() == pre.spans_m().remove(id)
        &&& post.traces_m() == pre.traces_m().remove(h)
        &&& post.exported_tags() == pre.exported_tags().union(tags_of(out))
        &&& post.tag_bound() == pre.tag_bound()
        &&& post.handle_bound() == pre.handle_bound()
        &&& post.spec_inactivity_tracked() == pre.spec_inactivity_tracked()
    }

    /// Closing the root of a live trace whose verdict is discard: the whole
    /// buffer and the root's own record are dropped, nothing is exported,
    /// and the trace is consumed.
    pub open spec fn close_discarded(pre: Self, post: Self, id: u64, now: u64, n: int) -> bool {
        let st0 = pre.spans_m()[id];
        let tc = st0.context->0;
        let h = tc.trace;
        &&& pre.span_has_data(id)
        &&& st0.context is Some
        &&& pre.traces_m().contains_key(h)
        &&& tc.parent_id is None
        &&& !trace_verdict(pre.traces_m()[h])
        &&& n == buf_of(pre.traces_m(), h).len() + 1
        &&& post.spans_m() == pre.spans_m().remove(id)
        &&& post.traces_m() == pre.traces_m().remove(h)
        &&& post.exported_tags() == pre.exported_tags()
        &&& post.tag_bound() == pre.tag_bound()
        &&& post.handle_bound() == pre.handle_bound()
        &&& post.spec_inactivity_tracked() == pre.spec_inactivity_tracked()
    }

    /// A span closed: finalize its record and run the tail-sample protocol.
    ///
    /// A span with no trace context, or whose trace was already consumed,
    /// exports standalone at once. Otherwise the record joins the trace's
    /// buffer; a non-root stops there, and the root settles the whole trace:
    /// export everything (in append order, each record with its own captured
    /// parent context) when the stored verdict is export or absent, discard
    /// everything when it is not.
    ///
    /// Exactly-once: every exported record's tag is fresh, the exported tags
    /// are pairwise distinct, and the engine never hands a tag out twice.
    pub fn on_close(&mut self, id: u64, now: u64) -> (r: Result<CloseOutcome, ProgrammerError>)
        requires
            old(self).wf(),
        ensures
            final(self).wf(),
            match r {
                Ok(CloseOutcome::Missing) => Self::close_missing(*old(self), *final(self), id),
                Ok(CloseOutcome::Buffered) => Self::close_buffered(
                    *old(self),
                    *final(self),
                    id,
                    now,
                ),
                Ok(CloseOutcome::Exported(out)) => Self::close_standalone(
                    *old(self),
                    *final(self),
                    id,
                    now,
                    out@,
                ) || Self::close_flushed(*old(self), *final(self), id, now, out@),
                Ok(CloseOutcome::Discarded(n)) => Self::close_discarded(
                    *old(self),
                    *final(self),
                    id,
                    now,
                    n as int,
                ),
                Err(e) => {
                    &&& e == (ProgrammerError::UnknownSpan { id })
                    &&& !old(self).spans_m().contains_key(id)
                    &&& Self::unchanged(*old(self), *final(self))
                },
            },
            match r {
                Ok(CloseOutcome::Exported(out)) => {
                    &&& forall|i: int|
                        0 <= i < out@.len() ==> !old(self).exported_tags().contains(
                            #[trigger] out@[i].tag@,
                        )
                    &&& forall|i: int, j: int|
                        0 <= i < j < out@.len() ==> out@[i].tag@ != out@[j].tag@
                    &&& final(self).exported_tags() == old(self).exported_tags().union(
                        tags_of(out@),
                    )
                },
                _ => final(self).exported_tags() == old(self).exported_tags(),
            },
    {
        let ghost spans0 = old(self).spans_m();
        let ghost traces0 = old(self).traces_m();
        let ghost exp0 = old(self).exported_tags();
        let ghost bound = old(self).tag_bound();
        let ghost hbound = old(self).handle_bound();
        let mut st = match self.spans.remove(&id) {
            None => {
                proof {
                    assert(self.spans_m() =~= spans0);
                }
                return Err(ProgrammerError::UnknownSpan { id });
            },
            Some(st) => st,
        };
        let d0 = match st.take_data() {
            None => {
                proof {
                    let spans1 = self.spans_m();
                    assert(spans1 =~= spans0.remove(id));
                    assert forall|x: u64| #[trigger] has_data(spans1, x) implies has_data(
                        spans0,
                        x,
                    ) && data_of(spans1, x).tag@ == data_of(spans0, x).tag@ by {}
                    lemma_wf_frame(spans0, traces0, spans1, traces0, exp0, bound, hbound);
                }
                return Ok(CloseOutcome::Missing);
            },
            Some(d) => d,
        };
        let ghost t0 = d0.tag@;
        let tm = st.take_timing();
        let fin = finalize_record(d0, tm, self.tracked_inactivity, now);

        let tc = match st.get_context() {
            Some(tc) => Some(tc),
            None => None,
        };
        // A live trace to buffer into, or standalone export.
        let trace_slot: Option<(TraceContext, Trace)> = match tc {
            None => None,
            Some(tc) => match self.traces.remove(&tc.trace) {
                None => {
                    proof {
                        assert(self.traces_m() =~= traces0);
                    }
                    None
                },
                Some(tr) => Some((tc, tr)),
            },
        };
        let (tc, mut tr) = match trace_slot {
            None => {
                // Standalone export: no context, or the trace is gone.
                self.exported = Ghost(self.exported@.insert(fin.tag@));
                let mut out: Vec<OtelData> = Vec::new();
                out.push(fin);
                proof {
                    let spans1 = self.spans_m();
                    let exp1 = self.exported_tags();
                    assert(spans1 =~= spans0.remove(id));
                    assert(out@[0] == fin);
                    assert forall|t: nat| #[trigger]
                        tags_of(out@).contains(t) implies t == fin.tag@ by {
                        let i = choose|i: int| 0 <= i < out@.len() && out@[i].tag@ == t;
                        assert(out@[i] == fin);
                    }
                    assert(tags_of(out@).contains(fin.tag@));
                    assert(exp1 =~= exp0.union(tags_of(out@)));
                    assert(has_data(spans0, id));
                    assert(tag_live(t0, exp0, bound));
                    assert forall|x: u64| #[trigger] has_data(spans1, x) implies tag_live(
                        data_of(spans1, x).tag@,
                        exp1,
                        bound,
                    ) by {
                        assert(has_data(spans0, x));
                        assert(x != id);
                        assert(data_of(spans0, x).tag@ != t0);
                    }
                    assert forall|h: u64, i: int|
                        0 <= i < buf_of(traces0, h).len() implies tag_live(
                        #[trigger] buf_of(traces0, h)[i].tag@,
                        exp1,
                        bound,
                    ) by {
                        assert(buf_of(traces0, h)[i].tag@ != t0);
                    }
                    assert forall|id1: u64, id2: u64|
                        id1 != id2 && #[trigger] has_data(spans1, id1) && #[trigger] has_data(
                            spans1,
                            id2,
                        ) implies data_of(spans1, id1).tag@ != data_of(spans1, id2).tag@ by {
                        assert(has_data(spans0, id1));
                        assert(has_data(spans0, id2));
                    }
                    assert forall|x: u64, h: u64, i: int|
                        #![trigger data_of(spans1, x), buf_of(traces0, h)[i]]
                        has_data(spans1, x) && 0 <= i < buf_of(traces0, h).len() implies data_of(
                        spans1,
                        x,
                    ).tag@ != buf_of(traces0, h)[i].tag@ by {
                        assert(has_data(spans0, x));
                    }
                }
                return Ok(CloseOutcome::Exported(out));
            },
            Some(pair) => pair,
        };
        let h = tc.trace;
        let mut cache = match tr.ext.take_cache() {
            Some(c) => c,
            None => TraceCache::new(),
        };
        let record_trace = match tr.ext.get_decision() {
            Some(sd) => sd.record_trace,
            None => true,
        };
        let ghost buf0 = buf_of(traces0, h);
        proof {
            assert(cache.spans@ =~= buf0);
        }
        cache.push(fin);
        let is_root = match tc.parent_id {
            None => true,
            Some(_) => false,
        };
        if !is_root {
            tr.ext.insert(ExtValue::Cache(cache));
            self.traces.insert(h, tr);
            proof {
                let spans1 = self.spans_m();
                let traces1 = self.traces_m();
                assert(spans1 =~= spans0.remove(id));
                assert(traces1 =~= traces0.insert(h, traces1[h]));
                assert(buf_of(traces1, h) =~= buf0.push(fin));
                assert(has_data(spans0, id));
                assert(tag_live(t0, exp0, bound));
                assert forall|x: u64| #[trigger] has_data(spans1, x) implies tag_live(
                    data_of(spans1, x).tag@,
                    exp0,
                    bound,
                ) by {
                    assert(has_data(spans0, x));
                }
                assert forall|h2: u64, i: int|
                    0 <= i < buf_of(traces1, h2).len() implies tag_live(
                    #[trigger] buf_of(traces1, h2)[i].tag@,
                    exp0,
                    bound,
                ) by {
                    if h2 != h {
                        assert(buf_of(traces1, h2) == buf_of(traces0, h2));
                    } else {
                        if i < buf0.len() {
                            assert(buf_of(traces1, h2)[i] == buf0[i]);
                        } else {
                            assert(buf_of(traces1, h2)[i].tag@ == t0);
                        }
                    }
                }
                assert forall|id1: u64, id2: u64|
                    id1 != id2 && #[trigger] has_data(spans1, id1) && #[trigger] has_data(
                        spans1,
                        id2,
                    ) implies data_of(spans1, id1).tag@ != data_of(spans1, id2).tag@ by {
                    assert(has_data(spans0, id1));
                    assert(has_data(spans0, id2));
                }
                assert forall|h1: u64, i1: int, h2: u64, i2: int|
                    #![trigger buf_of(traces1, h1)[i1], buf_of(traces1, h2)[i2]]
                    0 <= i1 < buf_of(traces1, h1).len() && 0 <= i2 < buf_of(traces1, h2).len() && (
                h1 != h2 || i1 != i2) implies buf_of(traces1, h1)[i1].tag@ != buf_of(
                    traces1,
                    h2,
                )[i2].tag@ by {
                    if h1 != h {
                        assert(buf_of(traces1, h1) == buf_of(traces0, h1));
                    }
                    if h2 != h {
                        assert(buf_of(traces1, h2) == buf_of(traces0, h2));
                    }
                    if h1 == h && i1 == buf0.len() as int {
                        assert(buf_of(traces1, h1)[i1].tag@ == t0);
                        if h2 == h && i2 < buf0.len() {
                            assert(data_of(spans0, id).tag@ != buf_of(traces0, h2)[i2].tag@);
                        } else if h2 != h {
                            assert(data_of(spans0, id).tag@ != buf_of(traces0, h2)[i2].tag@);
                        }
                    }
                    if h2 == h && i2 == buf0.len() as int {
                        assert(buf_of(traces1, h2)[i2].tag@ == t0);
                        if h1 == h && i1 < buf0.len() {
                            assert(data_of(spans0, id).tag@ != buf_of(traces0, h1)[i1].tag@);
                        } else if h1 != h {
                            assert(data_of(spans0, id).tag@ != buf_of(traces0, h1)[i1].tag@);
                        }
                    }
                }
                assert forall|x: u64, h2: u64, i: int|
                    #![trigger data_of(spans1, x), buf_of(traces1, h2)[i]]
                    has_data(spans1, x) && 0 <= i < buf_of(traces1, h2).len() implies data_of(
                    spans1,
                    x,
                ).tag@ != buf_of(traces1, h2)[i].tag@ by {
                    assert(has_data(spans0, x));
                    assert(x != id);
                    if h2 != h {
                        assert(buf_of(traces1, h2) == buf_of(traces0, h2));
                    } else {
                        if i < buf0.len() {
                            assert(buf_of(traces1, h2)[i] == buf0[i]);
                        } else {
                            assert(buf_of(traces1, h2)[i].tag@ == t0);
                            assert(data_of(spans0, x).tag@ != data_of(spans0, id).tag@);
                        }
                    }
                }
                assert forall|h2: u64| #[trigger] traces1.contains_key(h2) implies h2 < hbound by {
                    assert(traces0.contains_key(h2));
                }
            }
            Ok(CloseOutcome::Buffered)
        } else if record_trace {
            let out = cache.take_spans();
            self.exported = Ghost(self.exported@.union(tags_of(out@)));
            proof {
                let spans1 = self.spans_m();
                let traces1 = self.traces_m();
                let exp1 = self.exported_tags();
                assert(spans1 =~= spans0.remove(id));
                assert(traces1 =~= traces0.remove(h));
                assert(out@ =~= buf0.push(fin));
                assert(has_data(spans0, id));
                assert(tag_live(t0, exp0, bound));
                // The exported tags: everything in the old buffer, plus the
                // root's own.
                assert forall|t: nat| #[trigger] tags_of(out@).contains(t) implies tag_live(
                    t,
                    exp0,
                    bound,
                ) by {
                    let i = choose|i: int| 0 <= i < out@.len() && out@[i].tag@ == t;
                    if i < buf0.len() {
                        assert(out@[i] == buf0[i]);
                    } else {
                        assert(out@[i].tag@ == t0);
                    }
                }
                assert forall|i: int, j: int|
                    0 <= i < j < out@.len() implies out@[i].tag@ != out@[j].tag@ by {
                    if j < buf0.len() {
                        assert(out@[i] == buf0[i]);
                        assert(out@[j] == buf0[j]);
                    } else {
                        assert(out@[j].tag@ == t0);
                        assert(out@[i] == buf0[i]);
                        assert(data_of(spans0, id).tag@ != buf_of(traces0, h)[i].tag@);
                    }
                }
                assert forall|x: u64| #[trigger] has_data(spans1, x) implies tag_live(
                    data_of(spans1, x).tag@,
                    exp1,
                    bound,
                ) by {
                    assert(has_data(spans0, x));
                    assert(x != id);
                    assert(data_of(spans0, x).tag@ != t0);
                    assert(!tags_of(out@).contains(data_of(spans1, x).tag@)) by {
                        if tags_of(out@).contains(data_of(spans1, x).tag@) {
                            let i = choose|i: int|
                                0 <= i < out@.len() && out@[i].tag@ == data_of(spans1, x).tag@;
                            if i < buf0.len() {
                                assert(out@[i] == buf0[i]);
                                assert(data_of(spans0, x).tag@ != buf_of(traces0, h)[i].tag@);
                            }
                        }
                    }
                }
                assert forall|h2: u64, i: int|
                    0 <= i < buf_of(traces1, h2).len() implies tag_live(
                    #[trigger] buf_of(traces1, h2)[i].tag@,
                    exp1,
                    bound,
                ) by {
                    assert(h2 != h);
                    assert(buf_of(traces1, h2) == buf_of(traces0, h2));
                    let tg = buf_of(traces0, h2)[i].tag@;
                    assert(!tags_of(out@).contains(tg)) by {
                        if tags_of(out@).contains(tg) {
                            let j = choose|j: int| 0 <= j < out@.len() && out@[j].tag@ == tg;
                            if j < buf0.len() {
                                assert(out@[j] == buf0[j]);
                                assert(buf_of(traces0, h)[j].tag@ != buf_of(traces0, h2)[i].tag@);
                            } else {
                                assert(out@[j].tag@ == t0);
                                assert(data_of(spans0, id).tag@ != buf_of(traces0, h2)[i].tag@);
                            }
                        }
                    }
                }
                assert forall|id1: u64, id2: u64|
                    id1 != id2 && #[trigger] has_data(spans1, id1) && #[trigger] has_data(
                        spans1,
                        id2,
                    ) implies data_of(spans1, id1).tag@ != data_of(spans1, id2).tag@ by {
                    assert(has_data(spans0, id1));
                    assert(has_data(spans0, id2));
                }
                assert forall|h1: u64, i1: int, h2: u64, i2: int|
                    #![trigger buf_of(traces1, h1)[i1], buf_of(traces1, h2)[i2]]
                    0 <= i1 < buf_of(traces1, h1).len() && 0 <= i2 < buf_of(traces1, h2).len() && (
                h1 != h2 || i1 != i2) implies buf_of(traces1, h1)[i1].tag@ != buf_of(
                    traces1,
                    h2,
                )[i2].tag@ by {
                    assert(buf_of(traces1, h1) == buf_of(traces0, h1));
                    assert(buf_of(traces1, h2) == buf_of(traces0, h2));
                }
                assert forall|x: u64, h2: u64, i: int|
                    #![trigger data_of(spans1, x), buf_of(traces1, h2)[i]]
                    has_data(spans1, x) && 0 <= i < buf_of(traces1, h2).len() implies data_of(
                    spans1,
                    x,
                ).tag@ != buf_of(traces1, h2)[i].tag@ by {
                    assert(has_data(spans0, x));
                    assert(buf_of(traces1, h2) == buf_of(traces0, h2));
                }
                assert forall|h2: u64| #[trigger] traces1.contains_key(h2) implies h2 < hbound by {
                    assert(traces0.contains_key(h2));
                }
                assert forall|t: nat| #[trigger] exp1.contains(t) implies t < bound by {
                    if !exp0.contains(t) {
                        assert(tags_of(out@).contains(t));
                    }
                }
            }
            Ok(CloseOutcome::Exported(out))
        } else {
            let n = cache.spans.len();
            cache.clear();
            proof {
                let spans1 = self.spans_m();
                let traces1 = self.traces_m();
                assert(spans1 =~= spans0.remove(id));
                assert(traces1 =~= traces0.remove(h));
                assert forall|x: u64| #[trigger] has_data(spans1, x) implies has_data(spans0, x)
                    && data_of(spans1, x).tag@ == data_of(spans0, x).tag@ by {}
                assert forall|h2: u64| #[trigger]
                    buf_of(traces1, h2) == buf_of(traces0, h2) || buf_of(traces1, h2).len()
                        == 0 by {
                    if h2 == h {
                        assert(!traces1.contains_key(h2));
                        assert(buf_of(traces1, h2) =~= Seq::<OtelData>::empty());
                    }
                }
                lemma_wf_frame(spans0, traces0, spans1, traces1, exp0, bound, hbound);
            }
            Ok(CloseOutcome::Discarded(n))
        }
    }
}


impl TailSampleLayer {
    /// A trace is exported all together: when the root of a live trace with
    /// K buffered records closes under an export verdict, exactly K + 1
    /// records are handed out, the buffered ones first, in append order, the
    /// root's own record last.
    pub proof fn law_flush_exports_whole_buffer(
        pre: Self,
        post: Self,
        id: u64,
        now: u64,
        out: Seq<OtelData>,
    )
        requires
            Self::close_flushed(pre, post, id, now, out),
        ensures
            out.len() == buf_of(pre.traces_m(), pre.spans_m()[id].context->0.trace).len() + 1,
            forall|i: int|
                0 <= i < out.len() - 1 ==> out[i] == buf_of(
                    pre.traces_m(),
                    pre.spans_m()[id].context->0.trace,
                )[i],
            finalize_rel(
                pre.spans_m()[id].data->0,
                pre.spans_m()[id].timing,
                pre.spec_inactivity_tracked(),
                now,
                out.last(),
            ),
    {
    }

    /// A trace is discarded all together: when the root of a live trace
    /// closes under a discard verdict, nothing is exported, and the buffered
    /// records are gone for good.
    pub proof fn law_discard_exports_nothing(pre: Self, post: Self, id: u64, now: u64, n: int)
        requires
            Self::close_discarded(pre, post, id, now, n),
        ensures
            post.exported_tags() == pre.exported_tags(),
            n == buf_of(pre.traces_m(), pre.spans_m()[id].context->0.trace).len() + 1,
            !post.traces_m().contains_key(pre.spans_m()[id].context->0.trace),
    {
    }

    /// No record is exported twice: whatever a close hands out is pairwise
    /// distinct, was never handed out before, and is remembered afterwards,
    /// so no interleaving of closes can ever export the same record again.
    pub proof fn law_export_at_most_once(
        pre: Self,
        post: Self,
        id: u64,
        now: u64,
        out: Seq<OtelData>,
    )
        requires
            pre.wf(),
            Self::close_standalone(pre, post, id, now, out) || Self::close_flushed(
                pre,
                post,
                id,
                now,
                out,
            ),
        ensures
            forall|i: int, j: int| 0 <= i < j < out.len() ==> out[i].tag@ != out[j].tag@,
            forall|i: int|
                0 <= i < out.len() ==> !pre.exported_tags().contains(#[trigger] out[i].tag@),
            forall|i: int|
                0 <= i < out.len() ==> post.exported_tags().contains(#[trigger] out[i].tag@),
    {
        let spans0 = pre.spans_m();
        let traces0 = pre.traces_m();
        let st0 = spans0[id];
        let t0 = st0.data->0.tag@;
        assert(has_data(spans0, id));
        if Self::close_standalone(pre, post, id, now, out) {
            assert(out[0].tag@ == t0);
            assert forall|i: int|
                0 <= i < out.len() implies !pre.exported_tags().contains(
                #[trigger] out[i].tag@,
            ) by {
                assert(tag_live(t0, pre.exported_tags(), pre.tag_bound()));
            }
            assert forall|i: int|
                0 <= i < out.len() implies post.exported_tags().contains(
                #[trigger] out[i].tag@,
            ) by {
                assert(tags_of(out).contains(out[i].tag@));
            }
        } else {
            let h = st0.context->0.trace;
            let buf0 = buf_of(traces0, h);
            assert(out == buf0.push(out.last()));
            assert(out.last().tag@ == t0);
            assert forall|i: int, j: int|
                0 <= i < j < out.len() implies out[i].tag@ != out[j].tag@ by {
                assert(out[i] == buf0[i]);
                if j < buf0.len() {
                    assert(out[j] == buf0[j]);
                } else {
                    assert(out[j].tag@ == t0);
                    assert(data_of(spans0, id).tag@ != buf_of(traces0, h)[i].tag@);
                }
            }
            assert forall|i: int|
                0 <= i < out.len() implies !pre.exported_tags().contains(
                #[trigger] out[i].tag@,
            ) by {
                if i < buf0.len() {
                    assert(out[i] == buf0[i]);
                    assert(tag_live(buf_of(traces0, h)[i].tag@, pre.exported_tags(), pre.tag_bound()));
                } else {
                    assert(out[i].tag@ == t0);
                    assert(tag_live(t0, pre.exported_tags(), pre.tag_bound()));
                }
            }
            assert forall|i: int|
                0 <= i < out.len() implies post.exported_tags().contains(
                #[trigger] out[i].tag@,
            ) by {
                assert(tags_of(out).contains(out[i].tag@));
            }
        }
    }
}

impl TailSampleLayer {
    /// A child span belongs to its parent's trace: after a root span and
    /// then a child naming it are created, the child's record captures the
    /// root record's span id and the root's trace as its causal parent, and
    /// the child's trace context carries the root context's trace id and
    /// names the root as its parent.
    pub proof fn law_child_inherits_roots_trace(
        pre: Self,
        mid: Self,
        post: Self,
        root_id: u64,
        child_id: u64,
        meta1: SpanMeta,
        meta2: SpanMeta,
        ambient: ParentContext,
        f1: Seq<InputField>,
        f2: Seq<InputField>,
        now1: u64,
        now2: u64,
    )
        requires
            Self::on_new_span_ok(
                pre,
                mid,
                root_id,
                meta1,
                ParentHint::ExplicitRoot,
                ParentContext::Detached,
                f1,
                now1,
            ),
            Self::on_new_span_ok(
                mid,
                post,
                child_id,
                meta2,
                ParentHint::Explicit(root_id),
                ambient,
                f2,
                now2,
            ),
        ensures
            post.spans_m()[child_id].data->0.parent_cx == (ParentContext::Span {
                trace_id: mid.spans_m()[root_id].data->0.builder.trace_id->0,
                span_id: mid.spans_m()[root_id].data->0.builder.span_id,
            }),
            post.spans_m()[child_id].context->0.trace_id
                == mid.spans_m()[root_id].context->0.trace_id,
            post.spans_m()[child_id].context->0.parent_id == Some(
                mid.spans_m()[root_id].context->0.span_id,
            ),
    {
        let rst = mid.spans_m()[root_id];
        let rd = rst.data->0;
        assert(has_data(mid.spans_m(), root_id));
        assert(data_of(mid.spans_m(), root_id) == rd);
        assert(parent_ctx_of(pre.spans_m(), ParentHint::ExplicitRoot) is None);
        assert(!rd.parent_cx.spec_has_active_span());
        assert(rd.builder.trace_id is Some);
        assert(spec_effective_trace_id(rd) == Some(rd.builder.trace_id->0));
        assert(parent_ctx_of(mid.spans_m(), ParentHint::Explicit(root_id)) == rst.context);
    }
}

} // verus!

//! Span and trace identifiers, and the per-span trace context.
//!
//! Identifiers are opaque random values; freshness is a statistical property
//! of the generator, so nothing is assumed about the values drawn.

use vstd::prelude::*;

verus! {

/// Identifier of a single span on the wire.
#[derive(Clone, Copy, Debug, PartialEq, Eq, Structural, Hash)]
pub struct SpanId(pub u64);

/// Identifier shared by every span of one trace.
#[derive(Clone, Copy, Debug, PartialEq, Eq, Structural, Hash)]
pub struct TraceId(pub u128);

/// Relies on uuid::Uuid::new_v4: a freshly generated random 128-bit
/// identifier. Nothing is assumed about the value drawn.
#[verifier::external_body]
fn fresh_u128() -> u128 {
    uuid::Uuid::new_v4().as_u128()
}

/// A fresh random span identifier.
pub fn fresh_span_id() -> SpanId {
    let raw = fresh_u128();
    SpanId((raw & 0xFFFF_FFFF_FFFF_FFFFu128) as u64)
}

/// A fresh random trace identifier.
pub fn fresh_trace_id() -> TraceId {
    TraceId(fresh_u128())
}

/// The per-span trace context: the span's own identifier, the identifier of
/// the trace it belongs to, the parent span (if any), and the handle of the
/// shared trace record that buffers the trace.
///
/// A context is attached to exactly one span when the span is created and is
/// never replaced afterwards.
#[derive(Clone, Copy, Debug, PartialEq, Eq, Structural)]
pub struct TraceContext {
    pub span_id: SpanId,
    pub trace_id: TraceId,
    pub parent_id: Option<SpanId>,
    /// Handle of the shared trace record this context points at.
    pub trace: u64,
}

/// The context a child span derives from its parent's context: same trace,
/// same trace handle, the parent's span id as parent, and the given fresh
/// span id as its own.
pub open spec fn child_context(parent: TraceContext, fresh: SpanId) -> TraceContext {
    TraceContext {
        span_id: fresh,
        trace_id: parent.trace_id,
        parent_id: Some(parent.span_id),
        trace: parent.trace,
    }
}

/// The context of a span that starts a new trace: no parent, and the given
/// fresh trace id as the trace.
pub open spec fn root_context(fresh_span: SpanId, fresh_trace: TraceId, trace: u64) -> TraceContext {
    TraceContext { span_id: fresh_span, trace_id: fresh_trace, parent_id: None, trace }
}

impl TraceContext {
    /// A root context for a new trace: fresh random span and trace ids, no
    /// parent, pointing at the trace record with the given handle.
    pub fn new(trace: u64) -> (r: Self)
        ensures
            r.parent_id is None,
            r.trace == trace,
            r == root_context(r.span_id, r.trace_id, trace),
    {
        TraceContext { span_id: fresh_span_id(), trace_id: fresh_trace_id(), parent_id: None, trace }
    }

    /// A child context derived from `self`: fresh random span id, same trace,
    /// parent set to `self`'s span.
    pub fn child(&self) -> (r: Self)
        ensures
            r == child_context(*self, r.span_id),
    {
        TraceContext {
            span_id: fresh_span_id(),
            trace_id: self.trace_id,
            parent_id: Some(self.span_id),
            trace: self.trace,
        }
    }
}

/// Two spans that derive their contexts from the same parent context belong
/// to that parent's trace and name the parent as their parent, whatever span
/// ids were drawn for them.
pub proof fn law_child_shares_trace(parent: TraceContext, s1: SpanId, s2: SpanId)
    ensures
        child_context(parent, s1).trace_id == parent.trace_id,
        child_context(parent, s1).parent_id == Some(parent.span_id),
        child_context(parent, s2).trace_id == child_context(parent, s1).trace_id,
{
}

/// Root contexts carry exactly the trace id that was drawn for them, so two
/// roots whose drawn trace ids differ belong to distinct traces, and a root
/// has no parent.
pub proof fn law_distinct_roots(s1: SpanId, t1: TraceId, h1: u64, s2: SpanId, t2: TraceId, h2: u64)
    requires
        t1 != t2,
    ensures
        root_context(s1, t1, h1).trace_id != root_context(s2, t2, h2).trace_id,
        root_context(s1, t1, h1).parent_id is None,
{
}

} // verus!

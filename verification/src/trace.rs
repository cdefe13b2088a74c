//! The shared per-trace state: the trace's identity, its extension store,
//! the buffer of finalized records, and the sampling verdict.

use vstd::prelude::*;

use crate::ids::TraceId;
use crate::record::OtelData;
use crate::store::ExtStore;

verus! {

/// The ordered buffer of finalized records of one trace, appended to by every
/// closing span of the trace and consumed exactly once by the root's flush.
pub struct TraceCache {
    pub spans: Vec<OtelData>,
}

impl TraceCache {
    /// An empty buffer.
    pub fn new() -> (r: Self)
        ensures
            r.spans@.len() == 0,
    {
        TraceCache { spans: Vec::new() }
    }

    /// Append a finalized record.
    pub fn push(&mut self, d: OtelData)
        ensures
            final(self).spans@ == old(self).spans@.push(d),
    {
        self.spans.push(d);
    }

    /// Take every buffered record, in append order, leaving the buffer
    /// empty; the caller hands them to the exporter.
    pub fn take_spans(&mut self) -> (r: Vec<OtelData>)
        ensures
            r@ == old(self).spans@,
            final(self).spans@.len() == 0,
    {
        let mut out: Vec<OtelData> = Vec::new();
        core::mem::swap(&mut out, &mut self.spans);
        out
    }

    /// Drop every buffered record without exporting it.
    pub fn clear(&mut self)
        ensures
            final(self).spans@.len() == 0,
    {
        self.spans.clear();
    }
}

/// The sampling verdict an external policy writes into a trace's store
/// before the root closes; absent means export.
#[derive(Clone, Copy, Debug, PartialEq, Eq, Structural)]
pub struct SampleDecision {
    pub record_trace: bool,
}

/// The shared per-trace state: the trace's identity and its extension store,
/// which holds the record buffer and the sampling verdict. Every span of the
/// trace reaches the same `Trace` through its trace context.
pub struct Trace {
    pub id: TraceId,
    pub ext: ExtStore,
}

impl Trace {
    /// A fresh trace with an empty store.
    pub fn new(id: TraceId) -> (r: Self)
        ensures
            r.id == id,
            r.ext@ == Map::<crate::store::ExtKey, crate::store::ExtValue>::empty(),
            r.ext == ExtStore::new_spec(),
    {
        Trace { id, ext: ExtStore::new() }
    }

    /// The trace's extension store.
    pub fn extensions(&self) -> (r: &ExtStore)
        ensures
            r == &self.ext,
    {
        &self.ext
    }
}

} // verus!

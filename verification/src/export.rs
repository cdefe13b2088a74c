//! Exporting a finished trace, with exporters that can be chained so that an
//! early one acts as a filter for the ones behind it.

use vstd::prelude::*;

use crate::trace::Trace;

verus! {

/// Export a trace.
///
/// Exporters chain: one that returns `false` keeps downstream exporters from
/// seeing the trace. Each implementation states what it exports with
/// `export_spec`, and `export` must answer exactly that.
pub trait Export: Sized {
    /// Whether this exporter passes the trace on.
    spec fn export_spec(&self, trace: &Trace) -> bool;

    /// Export or filter the trace. Returning `false` prevents downstream
    /// exporters from seeing it.
    fn export(&self, trace: &Trace) -> (r: bool)
        ensures
            r == self.export_spec(trace),
    ;

}

/// Two exporters in a row: the second sees a trace only if the first passed
/// it on.
pub struct ChainedExporter<E1, E2> {
    pub a: E1,
    pub b: E2,
}

impl<E1: Export, E2: Export> Export for ChainedExporter<E1, E2> {
    open spec fn export_spec(&self, trace: &Trace) -> bool {
        self.a.export_spec(trace) && self.b.export_spec(trace)
    }

    fn export(&self, trace: &Trace) -> (r: bool)
        ensures
            r == self.export_spec(trace),
    {
        self.a.export(trace) && self.b.export(trace)
    }
}

/// Chain a second exporter behind a first: the second sees a trace only if
/// the first passed it on.
pub fn chain<E1: Export, E2: Export>(a: E1, b: E2) -> (r: ChainedExporter<E1, E2>)
    ensures
        r.a == a,
        r.b == b,
{
    ChainedExporter { a, b }
}

/// An exporter that passes every trace on.
pub struct KeepAll;

impl Export for KeepAll {
    open spec fn export_spec(&self, trace: &Trace) -> bool {
        true
    }

    fn export(&self, trace: &Trace) -> (r: bool)
        ensures
            r == self.export_spec(trace),
    {
        true
    }
}

/// An exporter that filters every trace out.
pub struct DropAll;

impl Export for DropAll {
    open spec fn export_spec(&self, trace: &Trace) -> bool {
        false
    }

    fn export(&self, trace: &Trace) -> (r: bool)
        ensures
            r == self.export_spec(trace),
    {
        false
    }
}

} // verus!

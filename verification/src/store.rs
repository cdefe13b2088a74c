//! The extension store: a container keyed by the identity of the stored
//! data's type, holding at most one value per type.
//!
//! One store hangs off every span and one off every trace. A span's store
//! holds its trace context, its record under construction and its timing
//! bookkeeping; a trace's store holds the record buffer and the sampling
//! verdict. The store is a tagged union keyed by an explicit type tag, and
//! its contract is a map from tag to value.

use vstd::prelude::*;

use crate::ids::TraceContext;
use crate::record::OtelData;
use crate::timings::Timings;
use crate::trace::SampleDecision;
use crate::trace::TraceCache;

verus! {

/// The identity of a storable data type.
#[derive(Clone, Copy, Debug, PartialEq, Eq, Structural, Hash)]
pub enum ExtKey {
    Context,
    Data,
    Timing,
    Cache,
    Decision,
}

/// A stored value, tagged with its type.
pub enum ExtValue {
    Context(TraceContext),
    Data(OtelData),
    Timing(Timings),
    Cache(TraceCache),
    Decision(SampleDecision),
}

/// The type tag a value is stored under.
pub open spec fn key_of(v: ExtValue) -> ExtKey {
    match v {
        ExtValue::Context(_) => ExtKey::Context,
        ExtValue::Data(_) => ExtKey::Data,
        ExtValue::Timing(_) => ExtKey::Timing,
        ExtValue::Cache(_) => ExtKey::Cache,
        ExtValue::Decision(_) => ExtKey::Decision,
    }
}

/// The extension store: at most one value of each type.
pub struct ExtStore {
    pub context: Option<TraceContext>,
    pub data: Option<OtelData>,
    pub timing: Option<Timings>,
    pub cache: Option<TraceCache>,
    pub decision: Option<SampleDecision>,
}

impl View for ExtStore {
    type V = Map<ExtKey, ExtValue>;

    open spec fn view(&self) -> Map<ExtKey, ExtValue> {
        let m = Map::<ExtKey, ExtValue>::empty();
        let m = match self.context {
            Some(c) => m.insert(ExtKey::Context, ExtValue::Context(c)),
            None => m,
        };
        let m = match self.data {
            Some(d) => m.insert(ExtKey::Data, ExtValue::Data(d)),
            None => m,
        };
        let m = match self.timing {
            Some(t) => m.insert(ExtKey::Timing, ExtValue::Timing(t)),
            None => m,
        };
        let m = match self.cache {
            Some(c) => m.insert(ExtKey::Cache, ExtValue::Cache(c)),
            None => m,
        };
        let m = match self.decision {
            Some(d) => m.insert(ExtKey::Decision, ExtValue::Decision(d)),
            None => m,
        };
        m
    }
}

impl ExtStore {
    /// The empty store.
    pub open spec fn new_spec() -> ExtStore {
        ExtStore { context: None, data: None, timing: None, cache: None, decision: None }
    }

    /// An empty store.
    pub fn new() -> (r: Self)
        ensures
            r@ == Map::<ExtKey, ExtValue>::empty(),
            r == (ExtStore {
                context: None,
                data: None,
                timing: None,
                cache: None,
                decision: None,
            }),
    {
        let r = ExtStore { context: None, data: None, timing: None, cache: None, decision: None };
        proof {
            assert(r@ =~= Map::<ExtKey, ExtValue>::empty());
        }
        r
    }

    /// Store a value under its type's tag, overwriting any value of that
    /// type.
    pub fn insert(&mut self, v: ExtValue)
        ensures
            final(self)@ == old(self)@.insert(key_of(v), v),
            match v {
                ExtValue::Context(c) => *final(self) == (ExtStore { context: Some(c), ..*old(self) }),
                ExtValue::Data(d) => *final(self) == (ExtStore { data: Some(d), ..*old(self) }),
                ExtValue::Timing(t) => *final(self) == (ExtStore { timing: Some(t), ..*old(self) }),
                ExtValue::Cache(c) => *final(self) == (ExtStore { cache: Some(c), ..*old(self) }),
                ExtValue::Decision(d) => *final(self) == (ExtStore { decision: Some(d), ..*old(self) }),
            },
    {
        let ghost k = key_of(v);
        match v {
            ExtValue::Context(c) => {
                self.context = Some(c);
            },
            ExtValue::Data(d) => {
                self.data = Some(d);
            },
            ExtValue::Timing(t) => {
                self.timing = Some(t);
            },
            ExtValue::Cache(c) => {
                self.cache = Some(c);
            },
            ExtValue::Decision(d) => {
                self.decision = Some(d);
            },
        }
        proof {
            assert(self@ =~= old(self)@.insert(k, v));
        }
    }

    /// Take the value of a type out of the store, deleting its slot.
    pub fn remove(&mut self, k: ExtKey) -> (r: Option<ExtValue>)
        ensures
            final(self)@ == old(self)@.remove(k),
            r matches Some(v) ==> old(self)@.contains_key(k) && old(self)@[k] == v,
            r is None ==> !old(self)@.contains_key(k),
    {
        let r = match k {
            ExtKey::Context => match self.context.take() {
                Some(c) => Some(ExtValue::Context(c)),
                None => None,
            },
            ExtKey::Data => match self.data.take() {
                Some(d) => Some(ExtValue::Data(d)),
                None => None,
            },
            ExtKey::Timing => match self.timing.take() {
                Some(t) => Some(ExtValue::Timing(t)),
                None => None,
            },
            ExtKey::Cache => match self.cache.take() {
                Some(c) => Some(ExtValue::Cache(c)),
                None => None,
            },
            ExtKey::Decision => match self.decision.take() {
                Some(d) => Some(ExtValue::Decision(d)),
                None => None,
            },
        };
        proof {
            assert(self@ =~= old(self)@.remove(k));
        }
        r
    }

    /// Whether the store holds a value of the given type.
    pub fn contains(&self, k: ExtKey) -> (r: bool)
        ensures
            r == self@.contains_key(k),
    {
        match k {
            ExtKey::Context => self.context.is_some(),
            ExtKey::Data => self.data.is_some(),
            ExtKey::Timing => self.timing.is_some(),
            ExtKey::Cache => self.cache.is_some(),
            ExtKey::Decision => self.decision.is_some(),
        }
    }

    /// Read the stored trace context.
    pub fn get_context(&self) -> (r: Option<TraceContext>)
        ensures
            r matches Some(c) ==> self@.contains_key(ExtKey::Context) && self@[ExtKey::Context]
                == ExtValue::Context(c),
            r is None ==> !self@.contains_key(ExtKey::Context),
            r == self.context,
    {
        self.context
    }

    /// Borrow the stored record.
    pub fn get_data(&self) -> (r: Option<&OtelData>)
        ensures
            r matches Some(d) ==> self@.contains_key(ExtKey::Data) && self@[ExtKey::Data]
                == ExtValue::Data(*d),
            r is None ==> !self@.contains_key(ExtKey::Data),
            (r matches Some(d) ==> self.data == Some(*d)),
            (r is None ==> self.data is None),
    {
        self.data.as_ref()
    }

    /// Take the stored record out.
    pub fn take_data(&mut self) -> (r: Option<OtelData>)
        ensures
            final(self)@ == old(self)@.remove(ExtKey::Data),
            r matches Some(d) ==> old(self)@.contains_key(ExtKey::Data) && old(self)@[ExtKey::Data]
                == ExtValue::Data(d),
            r is None ==> !old(self)@.contains_key(ExtKey::Data),
            *final(self) == (ExtStore { data: None, ..*old(self) }),
            r == old(self).data,
    {
        let r = self.data.take();
        proof {
            assert(self@ =~= old(self)@.remove(ExtKey::Data));
        }
        r
    }

    /// Take the stored timing bookkeeping out.
    pub fn take_timing(&mut self) -> (r: Option<Timings>)
        ensures
            final(self)@ == old(self)@.remove(ExtKey::Timing),
            r matches Some(t) ==> old(self)@.contains_key(ExtKey::Timing) && old(
                self,
            )@[ExtKey::Timing] == ExtValue::Timing(t),
            r is None ==> !old(self)@.contains_key(ExtKey::Timing),
            *final(self) == (ExtStore { timing: None, ..*old(self) }),
            r == old(self).timing,
    {
        let r = self.timing.take();
        proof {
            assert(self@ =~= old(self)@.remove(ExtKey::Timing));
        }
        r
    }

    /// Take the stored record buffer out.
    pub fn take_cache(&mut self) -> (r: Option<TraceCache>)
        ensures
            final(self)@ == old(self)@.remove(ExtKey::Cache),
            r matches Some(c) ==> old(self)@.contains_key(ExtKey::Cache) && old(
                self,
            )@[ExtKey::Cache] == ExtValue::Cache(c),
            r is None ==> !old(self)@.contains_key(ExtKey::Cache),
            *final(self) == (ExtStore { cache: None, ..*old(self) }),
            (r matches Some(c) ==> old(self).cache == Some(c)),
            (r is None ==> old(self).cache is None),
    {
        let r = self.cache.take();
        proof {
            assert(self@ =~= old(self)@.remove(ExtKey::Cache));
        }
        r
    }

    /// Read the stored sampling verdict.
    pub fn get_decision(&self) -> (r: Option<SampleDecision>)
        ensures
            r matches Some(d) ==> self@.contains_key(ExtKey::Decision) && self@[ExtKey::Decision]
                == ExtValue::Decision(d),
            r is None ==> !self@.contains_key(ExtKey::Decision),
            r == self.decision,
    {
        self.decision
    }
}

} // verus!

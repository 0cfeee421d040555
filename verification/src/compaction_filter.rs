//! The per-job filter contract: a stateful decision-maker invoked once per
//! key encountered during one compaction job.

use vstd::prelude::*;

verus! {

/// The per-key verdict a filter returns during a compaction job.
#[derive(Debug, Clone, PartialEq, Eq)]
pub enum Decision {
    /// Keep the key/value pair as it is.
    Keep,
    /// Drop the key/value pair from the output of the job.
    Remove,
    /// Keep the key but rewrite its value.
    ChangeValue(Vec<u8>),
    /// Drop this key and every following key before the given one.
    RemoveAndSkipUntil(Vec<u8>),
}

impl Decision {
    /// The engine's per-key signaling convention for this decision, as plain
    /// values: whether the pair is dropped, and the replacement value when
    /// it is kept with a rewritten one.
    pub open spec fn signal_spec(self) -> (bool, Option<Vec<u8>>) {
        match self {
            Decision::Keep => (false, None),
            Decision::Remove => (true, None),
            Decision::ChangeValue(v) => (false, Some(v)),
            Decision::RemoveAndSkipUntil(_) => (false, None),
        }
    }

    /// Translates the decision into the engine's signaling convention. A
    /// skip-range decision degrades to keeping the pair: this engine
    /// revision's callback convention has no skip signal, and keeping
    /// preserves data.
    pub fn into_signal(self) -> (r: (bool, Option<Vec<u8>>))
        ensures
            r == self.signal_spec(),
    {
        match self {
            Decision::Keep => (false, None),
            Decision::Remove => (true, None),
            Decision::ChangeValue(v) => (false, Some(v)),
            Decision::RemoveAndSkipUntil(_) => (false, None),
        }
    }
}

/// The view of an optional byte slice as an optional byte sequence.
pub open spec fn opt_bytes_view(b: Option<&[u8]>) -> Option<Seq<u8>> {
    match b {
        Some(s) => Some(s@),
        None => None,
    }
}

/// A per-job, stateful decision-maker. The engine creates one instance per
/// compaction job through a [`CompactionFilterFactory`], invokes `decide`
/// once per candidate key in its own merge order, and destroys the instance
/// exactly once when the job ends.
///
/// [`CompactionFilterFactory`]: crate::compaction_filter_factory::CompactionFilterFactory
pub trait CompactionFilter: Sized {
    /// What this filter promises of one `decide` call: how the returned
    /// decision and the state after the call relate to the state before it
    /// and to the key and value presented.
    spec fn decide_ens(
        &self,
        key: Seq<u8>,
        existing_value: Seq<u8>,
        merge_operand: Option<Seq<u8>>,
        post: Self,
        d: Decision,
    ) -> bool;

    /// The per-key decision. `key` and `existing_value` describe the pair
    /// under consideration; `merge_operand` carries the previous value when
    /// the pair is a merge. The call may consult and mutate only state
    /// private to this filter instance.
    fn decide(&mut self, key: &[u8], existing_value: &[u8], merge_operand: Option<&[u8]>) -> (d:
        Decision)
        ensures
            old(self).decide_ens(
                key@,
                existing_value@,
                opt_bytes_view(merge_operand),
                *final(self),
                d,
            ),
    ;

    /// The stable identifier of this filter type.
    spec fn name_spec() -> Seq<char>;

    /// A stable identifier for this filter, for logging and diagnostics: the
    /// same string for every instance and for the whole life of each, so a
    /// reader of the engine's log can rely on it.
    fn name(&self) -> (n: String)
        ensures
            n@ == Self::name_spec(),
    ;
}

/// The degenerate filter: it keeps every key and holds no state. It is the
/// safe fallback a bridge hands to the engine when constructing the intended
/// filter fails, since the engine's callback contract has no error channel.
#[derive(Debug, Clone, PartialEq, Eq, Structural)]
pub struct KeepAllFilter {
}

impl CompactionFilter for KeepAllFilter {
    open spec fn decide_ens(
        &self,
        key: Seq<u8>,
        existing_value: Seq<u8>,
        merge_operand: Option<Seq<u8>>,
        post: Self,
        d: Decision,
    ) -> bool {
        &&& post == *self
        &&& d == Decision::Keep
    }

    fn decide(&mut self, _key: &[u8], _existing_value: &[u8], _merge_operand: Option<&[u8]>) -> (d:
        Decision) {
        Decision::Keep
    }

    open spec fn name_spec() -> Seq<char> {
        "KeepAllFilter"@
    }

    fn name(&self) -> (n: String) {
        "KeepAllFilter".to_owned()
    }
}

} // verus!

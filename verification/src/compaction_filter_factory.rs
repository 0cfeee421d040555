//! The long-lived factory contract: one filter instance manufactured per
//! compaction job, given the translated job context.

use vstd::prelude::*;
use crate::compaction_filter::CompactionFilter;
use crate::compaction_filter::KeepAllFilter;

verus! {

/// Context information of a compaction run, translated once at job start
/// from the engine's opaque context handle. Immutable; both fields are
/// always set.
#[derive(Debug, Clone, Copy, PartialEq, Eq, Structural)]
pub struct CompactionFilterContext {
    /// Does this compaction run include all data files.
    pub is_full_compaction: bool,
    /// Is this compaction requested by the client (true), or is it occurring
    /// as an automatic compaction process.
    pub is_manual_compaction: bool,
}

impl CompactionFilterContext {
    /// The context translator's engine-agnostic core: it turns the two raw
    /// flag bytes read from the engine's context handle into a context
    /// value, treating any nonzero byte as true. Total over all inputs, so
    /// it can run inside a callback the engine does not expect to unwind
    /// through.
    pub fn from_flags(full: u8, manual: u8) -> (ctx: Self)
        ensures
            ctx.is_full_compaction == (full != 0),
            ctx.is_manual_compaction == (manual != 0),
    {
        CompactionFilterContext {
            is_full_compaction: full != 0,
            is_manual_compaction: manual != 0,
        }
    }
}

/// Each compaction job gets a fresh filter from this factory, so the
/// application can specialize its per-key logic to the job at hand. The
/// factory is long-lived and may be driven from several concurrent jobs; a
/// filter it returns is owned by exactly one job.
pub trait CompactionFilterFactory: Sized {
    type Filter: CompactionFilter;

    /// What this factory promises of one `create` call: how the returned
    /// filter and the factory state after the call relate to the state
    /// before it and to the job context presented.
    spec fn create_ens(
        &self,
        context: CompactionFilterContext,
        post: Self,
        filter: Self::Filter,
    ) -> bool;

    /// Returns a freshly constructed filter for one compaction job,
    /// specialized to the given immutable job description.
    fn create(&mut self, context: CompactionFilterContext) -> (filter: Self::Filter)
        ensures
            old(self).create_ens(context, *final(self), filter),
    ;

    /// The stable identifier of this factory type.
    spec fn name_spec() -> Seq<char>;

    /// A stable identifier for this factory, for logging and diagnostics:
    /// the same string for the whole life of the factory.
    fn name(&self) -> (n: String)
        ensures
            n@ == Self::name_spec(),
    ;
}

/// The degenerate factory: every job gets a [`KeepAllFilter`]. A harmless
/// stand-in wherever a real factory is not available.
#[derive(Debug, Clone, PartialEq, Eq, Structural)]
pub struct KeepAllFilterFactory {
}

impl CompactionFilterFactory for KeepAllFilterFactory {
    type Filter = KeepAllFilter;

    open spec fn create_ens(
        &self,
        context: CompactionFilterContext,
        post: Self,
        filter: KeepAllFilter,
    ) -> bool {
        &&& post == *self
        &&& filter == (KeepAllFilter {  })
    }

    fn create(&mut self, _context: CompactionFilterContext) -> (filter: KeepAllFilter) {
        KeepAllFilter {  }
    }

    open spec fn name_spec() -> Seq<char> {
        "KeepAllFilterFactory"@
    }

    fn name(&self) -> (n: String) {
        "KeepAllFilterFactory".to_owned()
    }
}

} // verus!

//! A verified side table of per-job filter instances.
//!
//! The engine understands only opaque handles; this table realizes the
//! bridge's central ownership rule with a checked index into a slot vector:
//! `create` moves a freshly built filter into a new slot and hands back its
//! handle, every later access goes through that handle, and `destroy`
//! releases the slot exactly once. A live handle denotes exactly one filter
//! allocation, and no path reaches an allocation after its destroy.

use vstd::prelude::*;
use crate::compaction_filter::CompactionFilter;
use crate::compaction_filter::Decision;
use crate::compaction_filter::opt_bytes_view;
use crate::compaction_filter_factory::CompactionFilterContext;

verus! {

/// Byte-wise lexicographic order: `lex_le(a, b)` holds when `a` sorts no
/// later than `b`, a prefix sorting before every extension of itself.
pub open spec fn lex_le(a: Seq<u8>, b: Seq<u8>) -> bool
    decreases a.len(),
{
    if a.len() == 0 {
        true
    } else if b.len() == 0 {
        false
    } else if a[0] < b[0] {
        true
    } else if a[0] > b[0] {
        false
    } else {
        lex_le(a.skip(1), b.skip(1))
    }
}

/// Executable byte-wise lexicographic comparison.
pub fn bytes_le(a: &[u8], b: &[u8]) -> (r: bool)
    ensures
        r == lex_le(a@, b@),
{
    let a_len = a.len();
    let b_len = b.len();
    let mut i: usize = 0;
    proof {
        assert(a@.skip(0) =~= a@);
        assert(b@.skip(0) =~= b@);
    }
    loop
        invariant
            i <= a_len,
            i <= b_len,
            a_len == a@.len(),
            b_len == b@.len(),
            lex_le(a@, b@) == lex_le(a@.skip(i as int), b@.skip(i as int)),
            forall|j: int| 0 <= j < i ==> a@[j] == b@[j],
        decreases a_len - i,
    {
        if i == a_len {
            return true;
        }
        if i == b_len {
            return false;
        }
        let x = a[i];
        let y = b[i];
        if x < y {
            return true;
        }
        if x > y {
            return false;
        }
        proof {
            assert(a@.skip(i as int).skip(1) =~= a@.skip(i as int + 1));
            assert(b@.skip(i as int).skip(1) =~= b@.skip(i as int + 1));
        }
        i += 1;
    }
}

/// Adjacent keys are delivered in non-decreasing lexicographic order.
pub open spec fn keys_in_order(ks: Seq<Seq<u8>>) -> bool {
    forall|i: int| 0 <= i && i + 1 < ks.len() ==> lex_le(#[trigger] ks[i], ks[i + 1])
}

/// The lexicographic order is reflexive.
pub proof fn lemma_lex_le_refl(a: Seq<u8>)
    ensures
        lex_le(a, a),
    decreases a.len(),
{
    if a.len() > 0 {
        lemma_lex_le_refl(a.skip(1));
    }
}

/// The lexicographic order is transitive.
pub proof fn lemma_lex_le_trans(a: Seq<u8>, b: Seq<u8>, c: Seq<u8>)
    requires
        lex_le(a, b),
        lex_le(b, c),
    ensures
        lex_le(a, c),
    decreases a.len(),
{
    if a.len() > 0 && b.len() > 0 && c.len() > 0 {
        if a[0] == b[0] && b[0] == c[0] {
            lemma_lex_le_trans(a.skip(1), b.skip(1), c.skip(1));
        }
    }
}

/// In an adjacently ordered key sequence every earlier key sorts no later
/// than every later one.
proof fn lemma_keys_pairwise(ks: Seq<Seq<u8>>, i: int, j: int)
    requires
        keys_in_order(ks),
        0 <= i <= j < ks.len(),
    ensures
        lex_le(ks[i], ks[j]),
    decreases j - i,
{
    if i == j {
        lemma_lex_le_refl(ks[i]);
    } else {
        lemma_keys_pairwise(ks, i, j - 1);
        lemma_lex_le_trans(ks[i], ks[j - 1], ks[j]);
    }
}

/// One slot of the table: the filter owned by one compaction job, beside the
/// job's translated context and a record of the keys the job has seen. A
/// destroyed slot keeps its record but no longer holds a filter.
struct FilterSlot<F> {
    filter: Option<F>,
    context: CompactionFilterContext,
    decide_count: u64,
    last_key: Vec<u8>,
    keys: Ghost<Seq<Seq<u8>>>,
}

impl<F> FilterSlot<F> {
    spec fn wf(self) -> bool {
        &&& self.decide_count as int == self.keys@.len()
        &&& keys_in_order(self.keys@)
        &&& self.keys@.len() > 0 ==> self.last_key@ == self.keys@.last()
    }
}

spec fn live_count<F>(s: Seq<FilterSlot<F>>) -> int
    decreases s.len(),
{
    if s.len() == 0 {
        0
    } else {
        live_count(s.drop_last()) + if s.last().filter is Some {
            1int
        } else {
            0int
        }
    }
}

proof fn lemma_live_count_bounds<F>(s: Seq<FilterSlot<F>>)
    ensures
        0 <= live_count(s) <= s.len(),
    decreases s.len(),
{
    if s.len() > 0 {
        lemma_live_count_bounds(s.drop_last());
    }
}

proof fn lemma_live_count_push<F>(s: Seq<FilterSlot<F>>, x: FilterSlot<F>)
    ensures
        live_count(s.push(x)) == live_count(s) + if x.filter is Some {
            1int
        } else {
            0int
        },
{
    assert(s.push(x).drop_last() =~= s);
    assert(s.push(x).last() == x);
}

proof fn lemma_live_count_update<F>(s: Seq<FilterSlot<F>>, i: int, x: FilterSlot<F>)
    requires
        0 <= i < s.len(),
    ensures
        live_count(s.update(i, x)) == live_count(s) - (if s[i].filter is Some {
            1int
        } else {
            0int
        }) + (if x.filter is Some {
            1int
        } else {
            0int
        }),
    decreases s.len(),
{
    if i == s.len() - 1 {
        assert(s.update(i, x).drop_last() =~= s.drop_last());
        assert(s.update(i, x).last() == x);
        assert(s.last() == s[i]);
    } else {
        assert(s.update(i, x).drop_last() =~= s.drop_last().update(i, x));
        assert(s.update(i, x).last() == s.last());
        assert(s.drop_last()[i] == s[i]);
        lemma_live_count_update(s.drop_last(), i, x);
    }
}

proof fn lemma_live_count_zero<F>(s: Seq<FilterSlot<F>>)
    requires
        forall|i: int| 0 <= i < s.len() ==> !((#[trigger] s[i]).filter is Some),
    ensures
        live_count(s) == 0,
    decreases s.len(),
{
    if s.len() > 0 {
        assert(forall|i: int|
            0 <= i < s.drop_last().len() ==> (#[trigger] s.drop_last()[i]) == s[i]);
        lemma_live_count_zero(s.drop_last());
        assert(s.last() == s[s.len() - 1]);
    }
}

/// A table of per-job filter instances, indexed by the opaque handles it
/// hands out. It owns each filter from `create` to `destroy`: a handle is
/// live in exactly that span, every access in between goes through the
/// handle, and `destroy` gives the filter up exactly once.
pub struct FilterTable<F> {
    slots: Vec<FilterSlot<F>>,
    outstanding: usize,
}

impl<F: CompactionFilter> FilterTable<F> {
    /// How many handles this table has ever handed out.
    pub closed spec fn num_slots(self) -> int {
        self.slots@.len() as int
    }

    /// A handle is live between its `create` and its `destroy`.
    pub closed spec fn is_live(self, h: int) -> bool {
        0 <= h < self.slots@.len() && self.slots@[h].filter is Some
    }

    /// The filter instance a live handle denotes.
    pub closed spec fn job_filter(self, h: int) -> F {
        self.slots@[h].filter->Some_0
    }

    /// The job context recorded when the handle was created.
    pub closed spec fn job_context(self, h: int) -> CompactionFilterContext {
        self.slots@[h].context
    }

    /// The keys delivered to the handle's filter so far, oldest first.
    pub closed spec fn job_keys(self, h: int) -> Seq<Seq<u8>> {
        self.slots@[h].keys@
    }

    /// How many decide calls the handle's filter has received.
    pub closed spec fn job_decide_count(self, h: int) -> int {
        self.slots@[h].decide_count as int
    }

    /// How many handles are outstanding: created and not yet destroyed.
    pub closed spec fn live_handles(self) -> int {
        live_count(self.slots@)
    }

    /// The engine's ordering guarantee for the next key of a job: it comes
    /// no earlier than every key the job has already seen.
    pub open spec fn key_in_order(self, h: int, key: Seq<u8>) -> bool {
        self.job_keys(h).len() == 0 || lex_le(self.job_keys(h).last(), key)
    }

    /// The table's internal invariant.
    pub closed spec fn wf(self) -> bool {
        &&& self.outstanding as int == live_count(self.slots@)
        &&& forall|h: int| 0 <= h < self.slots@.len() ==> (#[trigger] self.slots@[h]).wf()
    }

    /// An empty table: no handle has ever been handed out.
    pub fn new() -> (t: Self)
        ensures
            t.wf(),
            t.num_slots() == 0,
            t.live_handles() == 0,
    {
        FilterTable { slots: Vec::new(), outstanding: 0 }
    }

    /// Moves a freshly built filter into the table and hands back a fresh
    /// handle for it: one heap slot per handle, owned by the table until the
    /// matching `destroy`. Every other job is untouched.
    pub fn create(&mut self, filter: F, context: CompactionFilterContext) -> (h: usize)
        requires
            old(self).wf(),
            old(self).num_slots() < usize::MAX,
        ensures
            final(self).wf(),
            h as int == old(self).num_slots(),
            !old(self).is_live(h as int),
            final(self).num_slots() == old(self).num_slots() + 1,
            final(self).is_live(h as int),
            final(self).job_filter(h as int) == filter,
            final(self).job_context(h as int) == context,
            final(self).job_keys(h as int) == Seq::<Seq<u8>>::empty(),
            final(self).job_decide_count(h as int) == 0,
            final(self).live_handles() == old(self).live_handles() + 1,
            forall|g: int|
                0 <= g < old(self).num_slots() ==> #[trigger] final(self).is_live(g) == old(self).is_live(g),
            forall|g: int|
                0 <= g < old(self).num_slots() ==> #[trigger] final(self).job_context(g) == old(self).job_context(g),
            forall|g: int|
                0 <= g < old(self).num_slots() ==> #[trigger] final(self).job_keys(g) == old(self).job_keys(g),
            forall|g: int|
                0 <= g < old(self).num_slots() ==> #[trigger] final(self).job_decide_count(g)
                    == old(self).job_decide_count(g),
            forall|g: int|
                0 <= g < old(self).num_slots() && old(self).is_live(g)
                    ==> #[trigger] final(self).job_filter(g) == old(self).job_filter(g),
    {
        let h = self.slots.len();
        let slot = FilterSlot {
            filter: Some(filter),
            context,
            decide_count: 0,
            last_key: Vec::new(),
            keys: Ghost(Seq::empty()),
        };
        proof {
            lemma_live_count_push(self.slots@, slot);
            lemma_live_count_bounds(self.slots@);
        }
        self.slots.push(slot);
        self.outstanding = self.outstanding + 1;
        h
    }

    /// Routes one per-key decision to the filter the handle denotes. Only
    /// that job's state moves: its key record grows by this key, its decide
    /// count by one, and the returned decision is whatever its own filter's
    /// contract promises. Every other job is untouched.
    pub fn decide(
        &mut self,
        h: usize,
        key: &[u8],
        existing_value: &[u8],
        merge_operand: Option<&[u8]>,
    ) -> (d: Decision)
        requires
            old(self).wf(),
            old(self).is_live(h as int),
            old(self).job_decide_count(h as int) < u64::MAX,
            old(self).key_in_order(h as int, key@),
        ensures
            final(self).wf(),
            final(self).num_slots() == old(self).num_slots(),
            final(self).is_live(h as int),
            final(self).job_context(h as int) == old(self).job_context(h as int),
            final(self).job_keys(h as int) == old(self).job_keys(h as int).push(key@),
            final(self).job_decide_count(h as int) == old(self).job_decide_count(h as int) + 1,
            final(self).live_handles() == old(self).live_handles(),
            old(self).job_filter(h as int).decide_ens(
                key@,
                existing_value@,
                opt_bytes_view(merge_operand),
                final(self).job_filter(h as int),
                d,
            ),
            forall|g: int|
                0 <= g < old(self).num_slots() && g != h as int ==> #[trigger] final(self).is_live(g) == old(self).is_live(g),
            forall|g: int|
                0 <= g < old(self).num_slots() && g != h as int ==> #[trigger] final(self).job_context(g) == old(self).job_context(g),
            forall|g: int|
                0 <= g < old(self).num_slots() && g != h as int ==> #[trigger] final(self).job_keys(g) == old(self).job_keys(g),
            forall|g: int|
                0 <= g < old(self).num_slots() && g != h as int ==> #[trigger] final(self).job_decide_count(g) == old(self).job_decide_count(g),
            forall|g: int|
                0 <= g < old(self).num_slots() && g != h as int && old(self).is_live(g)
                    ==> #[trigger] final(self).job_filter(g) == old(self).job_filter(g),
    {
        let ghost pre_slots = self.slots@;
        let slot = &mut self.slots[h];
        let mut f = slot.filter.take().unwrap();
        let d = f.decide(key, existing_value, merge_operand);
        slot.filter = Some(f);
        slot.decide_count = slot.decide_count + 1;
        slot.last_key = vstd::slice::slice_to_vec(key);
        proof {
            slot.keys@ = slot.keys@.push(key@);
        }
        proof {
            lemma_live_count_update(pre_slots, h as int, self.slots@[h as int]);
        }
        d
    }

    /// Releases the slot the handle denotes and gives its filter up to the
    /// caller: the one reclamation of that allocation. The handle is dead
    /// afterwards, so no later call can reach the filter through it; the
    /// job's record stays readable. Every other job is untouched.
    pub fn destroy(&mut self, h: usize) -> (filter: F)
        requires
            old(self).wf(),
            old(self).is_live(h as int),
        ensures
            final(self).wf(),
            filter == old(self).job_filter(h as int),
            final(self).num_slots() == old(self).num_slots(),
            !final(self).is_live(h as int),
            final(self).job_context(h as int) == old(self).job_context(h as int),
            final(self).job_keys(h as int) == old(self).job_keys(h as int),
            final(self).job_decide_count(h as int) == old(self).job_decide_count(h as int),
            final(self).live_handles() == old(self).live_handles() - 1,
            forall|g: int|
                0 <= g < old(self).num_slots() && g != h as int ==> #[trigger] final(self).is_live(g) == old(self).is_live(g),
            forall|g: int|
                0 <= g < old(self).num_slots() && g != h as int ==> #[trigger] final(self).job_context(g) == old(self).job_context(g),
            forall|g: int|
                0 <= g < old(self).num_slots() && g != h as int ==> #[trigger] final(self).job_keys(g) == old(self).job_keys(g),
            forall|g: int|
                0 <= g < old(self).num_slots() && g != h as int ==> #[trigger] final(self).job_decide_count(g) == old(self).job_decide_count(g),
            forall|g: int|
                0 <= g < old(self).num_slots() && g != h as int && old(self).is_live(g)
                    ==> #[trigger] final(self).job_filter(g) == old(self).job_filter(g),
    {
        let ghost pre_slots = self.slots@;
        let slot = &mut self.slots[h];
        let f = slot.filter.take();
        proof {
            lemma_live_count_update(pre_slots, h as int, self.slots@[h as int]);
            lemma_live_count_bounds(self.slots@);
        }
        self.outstanding = self.outstanding - 1;
        f.unwrap()
    }

    /// How many handles are outstanding: created and not yet destroyed.
    pub fn outstanding(&self) -> (n: usize)
        requires
            self.wf(),
        ensures
            n as int == self.live_handles(),
    {
        self.outstanding
    }

    /// Whether the handle currently denotes a filter.
    pub fn is_live_handle(&self, h: usize) -> (b: bool)
        ensures
            b == self.is_live(h as int),
    {
        h < self.slots.len() && self.slots[h].filter.is_some()
    }

    /// How many decide calls the handle's filter has received.
    pub fn decide_count(&self, h: usize) -> (n: u64)
        requires
            (h as int) < self.num_slots(),
        ensures
            n as int == self.job_decide_count(h as int),
    {
        self.slots[h].decide_count
    }

    /// The job context recorded when the handle was created.
    pub fn context_of(&self, h: usize) -> (c: CompactionFilterContext)
        requires
            (h as int) < self.num_slots(),
        ensures
            c == self.job_context(h as int),
    {
        self.slots[h].context
    }

    /// The identifier of the filter the handle denotes, read through the
    /// handle as the engine's name callback does.
    pub fn name_of(&self, h: usize) -> (n: String)
        requires
            self.is_live(h as int),
        ensures
            n@ == F::name_spec(),
    {
        self.slots[h].filter.as_ref().unwrap().name()
    }

    /// Whether delivering `key` to the handle's job next would respect the
    /// engine's ordering guarantee.
    pub fn next_key_in_order(&self, h: usize, key: &[u8]) -> (b: bool)
        requires
            self.wf(),
            (h as int) < self.num_slots(),
        ensures
            b == self.key_in_order(h as int, key@),
    {
        self.slots[h].decide_count == 0 || bytes_le(&self.slots[h].last_key, key)
    }

    /// No job ever sees keys out of order: in the record of every handle,
    /// live or destroyed, each key sorts no later than every key delivered
    /// after it.
    pub proof fn lemma_job_keys_in_order(t: Self, h: int)
        requires
            t.wf(),
            0 <= h < t.num_slots(),
        ensures
            keys_in_order(t.job_keys(h)),
            forall|i: int, j: int|
                0 <= i <= j < t.job_keys(h).len() ==> lex_le(
                    #[trigger] t.job_keys(h)[i],
                    #[trigger] t.job_keys(h)[j],
                ),
    {
        assert forall|i: int, j: int| 0 <= i <= j < t.job_keys(h).len() implies lex_le(
            #[trigger] t.job_keys(h)[i],
            #[trigger] t.job_keys(h)[j],
        ) by {
            lemma_keys_pairwise(t.job_keys(h), i, j);
        }
    }

    /// Leak freedom: once no handle is live any more — every created job was
    /// destroyed — the table has no outstanding allocation.
    pub proof fn lemma_all_destroyed_none_outstanding(t: Self)
        requires
            t.wf(),
            forall|h: int| 0 <= h < t.num_slots() ==> !t.is_live(h),
        ensures
            t.live_handles() == 0,
    {
        assert forall|i: int| 0 <= i < t.slots@.len() implies !((#[trigger] t.slots@[i]).filter
            is Some) by {
            assert(!t.is_live(i));
        }
        lemma_live_count_zero(t.slots@);
    }
}

} // verus!

//! Allocation tracking for arena garbage collection.
use vstd::prelude::*;
use crate::types::ArenaOffset;

verus! {

/// An entry tracking a single allocation.
#[derive(Debug, Clone, Copy, PartialEq, Eq, Structural)]
pub struct AllocationEntry {
    /// Offset in the arena where the allocation starts.
    pub offset: ArenaOffset,
    /// Size of the allocation in bytes.
    pub size: u32,
    /// Generation when this allocation was made.
    pub generation: u32,
    /// Whether this allocation is still live (referenced).
    pub live: bool,
}

impl AllocationEntry {
    /// Create a new, live allocation entry.
    pub fn new(offset: ArenaOffset, size: u32, generation: u32) -> (r: Self)
        ensures
            r == (AllocationEntry { offset, size, generation, live: true }),
    {
        AllocationEntry { offset, size, generation, live: true }
    }

    /// Mark this allocation as dead (no longer referenced).
    pub fn mark_dead(&mut self)
        ensures
            *final(self) == (AllocationEntry { live: false, ..*old(self) }),
    {
        self.live = false;
    }

    /// The offset just past the end of this allocation.
    pub fn end_offset(&self) -> (r: ArenaOffset)
        requires
            self.offset.value + self.size <= u64::MAX,
        ensures
            r.value == self.offset.value + self.size,
    {
        self.offset.add(self.size as u64)
    }
}

/// Entries strictly ordered by offset (so no offset occurs twice).
pub open spec fn sorted_by_offset(s: Seq<AllocationEntry>) -> bool {
    forall|i: int, j: int| 0 <= i < j < s.len() ==> s[i].offset.value < s[j].offset.value
}

/// No offset occurs twice in `s`.
pub open spec fn distinct_offsets(s: Seq<AllocationEntry>) -> bool {
    forall|i: int, j: int| 0 <= i < j < s.len() ==> s[i].offset.value != s[j].offset.value
}

/// Bytes an entry counts toward the live total.
pub open spec fn live_contribution(e: AllocationEntry) -> int {
    if e.live {
        e.size as int
    } else {
        0
    }
}

/// Bytes an entry counts toward the dead total.
pub open spec fn dead_contribution(e: AllocationEntry) -> int {
    if e.live {
        0
    } else {
        e.size as int
    }
}

/// Total bytes of the live entries of `s`.
pub open spec fn live_bytes(s: Seq<AllocationEntry>) -> int
    decreases s.len(),
{
    if s.len() == 0 {
        0
    } else {
        live_bytes(s.drop_last()) + live_contribution(s.last())
    }
}

/// Total bytes of the dead entries of `s`.
pub open spec fn dead_bytes(s: Seq<AllocationEntry>) -> int
    decreases s.len(),
{
    if s.len() == 0 {
        0
    } else {
        dead_bytes(s.drop_last()) + dead_contribution(s.last())
    }
}

/// Total bytes of all entries of `s`.
pub open spec fn all_bytes(s: Seq<AllocationEntry>) -> int
    decreases s.len(),
{
    if s.len() == 0 {
        0
    } else {
        all_bytes(s.drop_last()) + s.last().size
    }
}

/// An entry is live.
pub open spec fn is_live_entry(e: AllocationEntry) -> bool {
    e.live
}

/// An entry is dead.
pub open spec fn is_dead_entry(e: AllocationEntry) -> bool {
    !e.live
}

/// Whether `s` holds an entry at `offset`.
pub open spec fn has_offset(s: Seq<AllocationEntry>, offset: u64) -> bool {
    exists|i: int| 0 <= i < s.len() && s[i].offset.value == offset
}

/// `new` holds `e` and, besides, exactly the entries of `old` at other offsets.
pub open spec fn replaced_with(old: Seq<AllocationEntry>, new: Seq<AllocationEntry>, e: AllocationEntry) -> bool {
    forall|x: AllocationEntry|
        new.contains(x) <==> (x == e || (old.contains(x) && x.offset.value != e.offset.value))
}

proof fn lemma_live_bytes_add(a: Seq<AllocationEntry>, b: Seq<AllocationEntry>)
    ensures
        live_bytes(a + b) == live_bytes(a) + live_bytes(b),
        dead_bytes(a + b) == dead_bytes(a) + dead_bytes(b),
        all_bytes(a + b) == all_bytes(a) + all_bytes(b),
    decreases b.len(),
{
    if b.len() == 0 {
        assert(a + b =~= a);
    } else {
        lemma_live_bytes_add(a, b.drop_last());
        assert((a + b).drop_last() =~= a + b.drop_last());
    }
}

proof fn lemma_bytes_single(x: AllocationEntry)
    ensures
        live_bytes(seq![x]) == live_contribution(x),
        dead_bytes(seq![x]) == dead_contribution(x),
        all_bytes(seq![x]) == x.size,
{
    assert(seq![x].drop_last() =~= Seq::<AllocationEntry>::empty());
    assert(seq![x].last() == x);
    reveal_with_fuel(live_bytes, 2);
    reveal_with_fuel(dead_bytes, 2);
    reveal_with_fuel(all_bytes, 2);
}

proof fn lemma_live_bytes_split(s: Seq<AllocationEntry>, i: int)
    requires
        0 <= i < s.len(),
    ensures
        live_bytes(s) == live_bytes(s.subrange(0, i)) + live_contribution(s[i]) + live_bytes(
            s.subrange(i + 1, s.len() as int),
        ),
{
    let a = s.subrange(0, i);
    let b = s.subrange(i + 1, s.len() as int);
    assert(s =~= a + seq![s[i]] + b);
    lemma_live_bytes_add(a + seq![s[i]], b);
    lemma_live_bytes_add(a, seq![s[i]]);
    lemma_bytes_single(s[i]);
}

proof fn lemma_live_bytes_nonneg(s: Seq<AllocationEntry>)
    ensures
        live_bytes(s) >= 0,
        dead_bytes(s) >= 0,
        all_bytes(s) >= 0,
        live_bytes(s) + dead_bytes(s) == all_bytes(s),
    decreases s.len(),
{
    if s.len() > 0 {
        lemma_live_bytes_nonneg(s.drop_last());
    }
}

/// Finds the position of `offset` in a sorted entry list: the first index whose
/// offset is at least `offset`.
fn find_position(entries: &Vec<AllocationEntry>, offset: u64) -> (r: usize)
    requires
        sorted_by_offset(entries@),
    ensures
        r <= entries@.len(),
        forall|j: int| 0 <= j < r ==> entries@[j].offset.value < offset,
        r < entries@.len() ==> entries@[r as int].offset.value >= offset,
{
    let mut i: usize = 0;
    while i < entries.len()
        invariant
            i <= entries@.len(),
            forall|j: int| 0 <= j < i ==> entries@[j].offset.value < offset,
        decreases entries@.len() - i,
    {
        if entries[i].offset.value >= offset {
            return i;
        }
        i = i + 1;
    }
    i
}

proof fn lemma_set_contents(old_s: Seq<AllocationEntry>, pos: int, e: AllocationEntry)
    requires
        sorted_by_offset(old_s),
        0 <= pos < old_s.len(),
        old_s[pos].offset.value == e.offset.value,
    ensures
        sorted_by_offset(old_s.update(pos, e)),
        replaced_with(old_s, old_s.update(pos, e), e),
{
    let s = old_s.update(pos, e);
    assert forall|x: AllocationEntry|
        s.contains(x) <==> (x == e || (old_s.contains(x) && x.offset.value != e.offset.value)) by {
        if s.contains(x) {
            let k = choose|k: int| 0 <= k < s.len() && s[k] == x;
            if k != pos {
                assert(old_s[k] == x);
            }
        }
        if x == e {
            assert(s[pos] == x);
        }
        if old_s.contains(x) && x.offset.value != e.offset.value {
            let k = choose|k: int| 0 <= k < old_s.len() && old_s[k] == x;
            assert(s[k] == x);
        }
    }
}

#[verifier::rlimit(40)]
proof fn lemma_insert_contents(old_s: Seq<AllocationEntry>, pos: int, e: AllocationEntry)
    requires
        sorted_by_offset(old_s),
        0 <= pos <= old_s.len(),
        forall|j: int| 0 <= j < pos ==> old_s[j].offset.value < e.offset.value,
        pos < old_s.len() ==> old_s[pos].offset.value > e.offset.value,
    ensures
        sorted_by_offset(old_s.insert(pos, e)),
        replaced_with(old_s, old_s.insert(pos, e), e),
        live_bytes(old_s.insert(pos, e)) == live_bytes(old_s) + live_contribution(e),
{
    let s = old_s.insert(pos, e);
    let a = old_s.subrange(0, pos);
    let b = old_s.subrange(pos, old_s.len() as int);
    assert(s =~= a + seq![e] + b);
    assert(old_s =~= a + b);
    lemma_live_bytes_add(a, b);
    lemma_live_bytes_add(a + seq![e], b);
    lemma_live_bytes_add(a, seq![e]);
    lemma_bytes_single(e);
    assert forall|x: AllocationEntry|
        s.contains(x) <==> (x == e || (old_s.contains(x) && x.offset.value != e.offset.value)) by {
        if s.contains(x) {
            let k = choose|k: int| 0 <= k < s.len() && s[k] == x;
            if k < pos {
                assert(old_s[k] == x);
            } else if k > pos {
                assert(old_s[k - 1] == x);
            }
        }
        if x == e {
            assert(s[pos] == x);
        }
        if old_s.contains(x) && x.offset.value != e.offset.value {
            let k = choose|k: int| 0 <= k < old_s.len() && old_s[k] == x;
            if k < pos {
                assert(s[k] == x);
            } else {
                assert(s[k + 1] == x);
            }
        }
    }
}

proof fn lemma_set_live_bytes(old_s: Seq<AllocationEntry>, pos: int, e: AllocationEntry)
    requires
        0 <= pos < old_s.len(),
    ensures
        live_bytes(old_s.update(pos, e)) == live_bytes(old_s) - live_contribution(old_s[pos])
            + live_contribution(e),
{
    let s = old_s.update(pos, e);
    lemma_live_bytes_split(old_s, pos);
    lemma_live_bytes_split(s, pos);
    assert(s.subrange(0, pos) =~= old_s.subrange(0, pos));
    assert(s.subrange(pos + 1, s.len() as int) =~= old_s.subrange(pos + 1, old_s.len() as int));
}

/// Puts `e` into a sorted entry list, replacing any entry at the same offset.
fn put_entry(entries: &mut Vec<AllocationEntry>, e: AllocationEntry)
    requires
        sorted_by_offset(old(entries)@),
    ensures
        sorted_by_offset(final(entries)@),
        replaced_with(old(entries)@, final(entries)@, e),
        live_bytes(final(entries)@) <= live_bytes(old(entries)@) + live_contribution(e),
        final(entries)@.len() == old(entries)@.len() + if has_offset(old(entries)@, e.offset.value) {
            0int
        } else {
            1int
        },
{
    let ghost old_s = entries@;
    let pos = find_position(entries, e.offset.value);
    if pos < entries.len() && entries[pos].offset.value == e.offset.value {
        proof {
            lemma_set_contents(old_s, pos as int, e);
            lemma_set_live_bytes(old_s, pos as int, e);
        }
        entries.set(pos, e);
    } else {
        proof {
            lemma_insert_contents(old_s, pos as int, e);
            assert forall|j: int| 0 <= j < old_s.len() implies #[trigger] old_s[j].offset.value != e.offset.value by {
                if j > pos {
                    assert(old_s[pos as int].offset.value < old_s[j].offset.value);
                }
            }
        }
        entries.insert(pos, e);
    }
}

/// Two entry lists ordered by offset that hold the same entries are the same list: the
/// tracker's entries are fixed by what they hold.
pub proof fn lemma_sorted_determined_by_contents(a: Seq<AllocationEntry>, b: Seq<AllocationEntry>)
    requires
        sorted_by_offset(a),
        sorted_by_offset(b),
        forall|x: AllocationEntry| a.contains(x) <==> b.contains(x),
    ensures
        a == b,
    decreases a.len(),
{
    if a.len() == 0 {
        if b.len() > 0 {
            assert(b.contains(b[0]));
        }
        assert(a =~= b);
    } else {
        assert(a.contains(a.last()));
        let j = choose|j: int| 0 <= j < b.len() && b[j] == a.last();
        assert(b.contains(b.last()));
        let i = choose|i: int| 0 <= i < a.len() && a[i] == b.last();
        if i != a.len() - 1 {
            assert(a[i].offset.value < a.last().offset.value);
            if j != b.len() - 1 {
                assert(b[j].offset.value < b.last().offset.value);
            }
            assert(false);
        }
        let ap = a.drop_last();
        let bp = b.drop_last();
        assert forall|x: AllocationEntry| ap.contains(x) <==> bp.contains(x) by {
            if ap.contains(x) {
                let k = choose|k: int| 0 <= k < ap.len() && ap[k] == x;
                assert(a[k] == x);
                assert(x.offset.value < a.last().offset.value);
                assert(b.contains(x));
                let m = choose|m: int| 0 <= m < b.len() && b[m] == x;
                assert(m != b.len() - 1);
                assert(bp[m] == x);
            }
            if bp.contains(x) {
                let k = choose|k: int| 0 <= k < bp.len() && bp[k] == x;
                assert(b[k] == x);
                assert(x.offset.value < b.last().offset.value);
                assert(a.contains(x));
                let m = choose|m: int| 0 <= m < a.len() && a[m] == x;
                assert(m != a.len() - 1);
                assert(ap[m] == x);
            }
        }
        lemma_sorted_determined_by_contents(ap, bp);
        assert(a =~= ap.push(a.last()));
        assert(b =~= bp.push(b.last()));
    }
}

/// Marking a live entry dead takes one from the number of live entries and leaves the
/// number of entries as it was.
pub proof fn lemma_mark_dead_counts(s: Seq<AllocationEntry>, i: int)
    requires
        0 <= i < s.len(),
        s[i].live,
    ensures
        s.update(i, AllocationEntry { live: false, ..s[i] }).len() == s.len(),
        s.update(i, AllocationEntry { live: false, ..s[i] }).filter(|e: AllocationEntry| is_live_entry(e)).len()
            == s.filter(|e: AllocationEntry| is_live_entry(e)).len() - 1,
    decreases s.len(),
{
    let d = AllocationEntry { live: false, ..s[i] };
    let u = s.update(i, d);
    let sp = s.drop_last();
    assert(s =~= sp.push(s.last()));
    sp.lemma_filter_push(s.last(), |e: AllocationEntry| is_live_entry(e));
    if i == s.len() - 1 {
        assert(u =~= sp.push(d));
        sp.lemma_filter_push(d, |e: AllocationEntry| is_live_entry(e));
    } else {
        lemma_mark_dead_counts(sp, i);
        assert(u =~= sp.update(i, d).push(s.last()));
        sp.update(i, d).lemma_filter_push(s.last(), |e: AllocationEntry| is_live_entry(e));
    }
}

/// Tracks all allocations in an arena for garbage collection.
///
/// The entries are kept ordered by offset, one per offset.
pub struct AllocationTracker {
    entries: Vec<AllocationEntry>,
    generation: u32,
    total_allocated: u64,
    total_dead: u64,
}

impl AllocationTracker {
    /// The tracked entries, ordered by offset.
    pub closed spec fn entries(&self) -> Seq<AllocationEntry> {
        self.entries@
    }

    /// The current generation.
    pub closed spec fn spec_generation(&self) -> u32 {
        self.generation
    }

    /// Total bytes ever recorded.
    pub closed spec fn spec_total_allocated(&self) -> u64 {
        self.total_allocated
    }

    /// Total bytes marked dead.
    pub closed spec fn spec_total_dead(&self) -> u64 {
        self.total_dead
    }

    /// The tracker's invariant: entries ordered by offset, and the dead bytes plus the
    /// bytes of the live entries never exceed the bytes recorded.
    pub closed spec fn wf(&self) -> bool {
        &&& sorted_by_offset(self.entries@)
        &&& self.total_dead + live_bytes(self.entries@) <= self.total_allocated
    }

    /// Under the invariant, the bytes of the live entries fit between zero and what was
    /// recorded less what is dead.
    pub proof fn lemma_live_within_totals(&self)
        requires
            self.wf(),
        ensures
            0 <= live_bytes(self.entries()),
            live_bytes(self.entries()) + self.spec_total_dead() <= self.spec_total_allocated(),
    {
        lemma_live_bytes_nonneg(self.entries@);
    }

    /// Under the invariant, the entries are ordered by offset, so no offset occurs twice.
    pub proof fn lemma_entries_sorted(&self)
        requires
            self.wf(),
        ensures
            sorted_by_offset(self.entries()),
            distinct_offsets(self.entries()),
    {
    }

    /// Create a new allocation tracker (generation 1, nothing recorded).
    pub fn new() -> (r: Self)
        ensures
            r.wf(),
            r.entries() == Seq::<AllocationEntry>::empty(),
            r.spec_generation() == 1,
            r.spec_total_allocated() == 0,
            r.spec_total_dead() == 0,
    {
        AllocationTracker { entries: Vec::new(), generation: 1, total_allocated: 0, total_dead: 0 }
    }

    /// Record a new allocation in the current generation; an entry already at this
    /// offset is replaced.
    pub fn record_allocation(&mut self, offset: ArenaOffset, size: u32)
        requires
            old(self).wf(),
            old(self).spec_total_allocated() + size <= u64::MAX,
        ensures
            final(self).wf(),
            replaced_with(
                old(self).entries(),
                final(self).entries(),
                AllocationEntry { offset, size, generation: old(self).spec_generation(), live: true },
            ),
            final(self).spec_generation() == old(self).spec_generation(),
            final(self).spec_total_allocated() == old(self).spec_total_allocated() + size,
            final(self).spec_total_dead() == old(self).spec_total_dead(),
    {
        let entry = AllocationEntry::new(offset, size, self.generation);
        put_entry(&mut self.entries, entry);
        self.total_allocated = self.total_allocated + size as u64;
    }

    /// Mark the allocation at `offset` as dead; nothing changes if there is none or it is
    /// already dead.
    pub fn mark_dead(&mut self, offset: ArenaOffset)
        requires
            old(self).wf(),
        ensures
            final(self).wf(),
            final(self).spec_generation() == old(self).spec_generation(),
            final(self).spec_total_allocated() == old(self).spec_total_allocated(),
            forall|i: int|
                0 <= i < old(self).entries().len() && old(self).entries()[i].offset == offset
                    && old(self).entries()[i].live ==> {
                    &&& final(self).entries() == old(self).entries().update(
                        i,
                        AllocationEntry { live: false, ..old(self).entries()[i] },
                    )
                    &&& final(self).spec_total_dead() == old(self).spec_total_dead()
                        + old(self).entries()[i].size
                },
            !(exists|i: int|
                0 <= i < old(self).entries().len() && old(self).entries()[i].offset == offset
                    && old(self).entries()[i].live) ==> {
                &&& final(self).entries() == old(self).entries()
                &&& final(self).spec_total_dead() == old(self).spec_total_dead()
            },
    {
        let pos = find_position(&self.entries, offset.value);
        if pos < self.entries.len() && self.entries[pos].offset.value == offset.value
            && self.entries[pos].live {
            let ghost old_s = self.entries@;
            let mut e = self.entries[pos];
            e.live = false;
            proof {
                lemma_set_live_bytes(old_s, pos as int, e);
                lemma_live_bytes_split(old_s, pos as int);
                lemma_live_bytes_nonneg(old_s.subrange(0, pos as int));
                lemma_live_bytes_nonneg(old_s.subrange(pos + 1, old_s.len() as int));
            }
            self.entries.set(pos, e);
            self.total_dead = self.total_dead + e.size as u64;
            proof {
                assert forall|i: int|
                    0 <= i < old_s.len() && old_s[i].offset == offset && old_s[i].live implies i
                    == pos by {
                    if i < pos {
                    } else if i > pos {
                    }
                }
            }
        } else {
            proof {
                assert forall|i: int|
                    0 <= i < self.entries@.len() && self.entries@[i].offset == offset implies !self.entries@[i].live by {
                    if i < pos {
                    } else if i > pos {
                        assert(self.entries@[pos as int].offset.value < self.entries@[i].offset.value);
                    }
                }
            }
        }
    }

    /// Whether the allocation at `offset` exists and is live.
    pub fn is_live(&self, offset: ArenaOffset) -> (r: bool)
        requires
            self.wf(),
        ensures
            r == exists|i: int|
                0 <= i < self.entries().len() && self.entries()[i].offset == offset
                    && self.entries()[i].live,
    {
        let pos = find_position(&self.entries, offset.value);
        let r = pos < self.entries.len() && self.entries[pos].offset.value == offset.value
            && self.entries[pos].live;
        proof {
            let s = self.entries();
            if r {
                assert(s[pos as int].offset == offset && s[pos as int].live);
            } else {
                assert forall|i: int|
                    0 <= i < s.len() && s[i].offset == offset implies !s[i].live by {
                    if i > pos {
                        assert(s[pos as int].offset.value < s[i].offset.value);
                    } else if i < pos {
                        assert(s[i].offset.value < offset.value);
                    }
                }
            }
        }
        r
    }

    /// All live allocations, ordered by offset.
    pub fn get_live_allocations(&self) -> (r: Vec<AllocationEntry>)
        requires
            self.wf(),
        ensures
            r@ == self.entries().filter(|e: AllocationEntry| is_live_entry(e)),
            sorted_by_offset(r@),
            forall|k: int| 0 <= k < r@.len() ==> (#[trigger] r@[k]).live,
    {
        let mut out: Vec<AllocationEntry> = Vec::new();
        let mut i: usize = 0;
        while i < self.entries.len()
            invariant
                i <= self.entries@.len(),
                sorted_by_offset(self.entries@),
                out@ == self.entries@.take(i as int).filter(|e: AllocationEntry| is_live_entry(e)),
                sorted_by_offset(out@),
                forall|k: int| 0 <= k < out@.len() ==> (#[trigger] out@[k]).live,
                out@.len() > 0 ==> exists|idx: int| 0 <= idx < i && out@.last() == self.entries@[idx],
            decreases self.entries@.len() - i,
        {
            proof {
                reveal(Seq::filter);
                assert(self.entries@.take(i + 1).drop_last() =~= self.entries@.take(i as int));
            }
            if self.entries[i].live {
                let ghost prev = out@;
                proof {
                    if prev.len() > 0 {
                        let idx = choose|idx: int| 0 <= idx < i && prev.last() == self.entries@[idx];
                        assert(prev.last().offset.value < self.entries@[i as int].offset.value);
                        assert(forall|k: int| 0 <= k < prev.len() - 1 ==> (#[trigger] prev[k]).offset.value < prev[prev.len() - 1].offset.value);
                    }
                }
                out.push(self.entries[i]);
                proof {
                    assert(out@.last() == self.entries@[i as int]);
                }
            }
            i = i + 1;
        }
        assert(self.entries@.take(i as int) =~= self.entries@);
        out
    }

    /// All dead allocations, ordered by offset.
    pub fn get_dead_allocations(&self) -> (r: Vec<AllocationEntry>)
        requires
            self.wf(),
        ensures
            r@ == self.entries().filter(|e: AllocationEntry| is_dead_entry(e)),
    {
        let mut out: Vec<AllocationEntry> = Vec::new();
        let mut i: usize = 0;
        while i < self.entries.len()
            invariant
                i <= self.entries@.len(),
                out@ == self.entries@.take(i as int).filter(|e: AllocationEntry| is_dead_entry(e)),
            decreases self.entries@.len() - i,
        {
            proof {
                reveal(Seq::filter);
                assert(self.entries@.take(i + 1).drop_last() =~= self.entries@.take(i as int));
            }
            if !self.entries[i].live {
                out.push(self.entries[i]);
            }
            i = i + 1;
        }
        assert(self.entries@.take(i as int) =~= self.entries@);
        out
    }

    /// The current generation.
    pub fn generation(&self) -> (r: u32)
        ensures
            r == self.spec_generation(),
    {
        self.generation
    }

    /// Increment the generation (after compaction) and return the new one.
    pub fn increment_generation(&mut self) -> (r: u32)
        requires
            old(self).wf(),
            old(self).spec_generation() < u32::MAX,
        ensures
            final(self).wf(),
            r == old(self).spec_generation() + 1,
            final(self).spec_generation() == r,
            final(self).entries() == old(self).entries(),
            final(self).spec_total_allocated() == old(self).spec_total_allocated(),
            final(self).spec_total_dead() == old(self).spec_total_dead(),
    {
        self.generation = self.generation + 1;
        self.generation
    }

    /// Total bytes recorded.
    pub fn total_allocated(&self) -> (r: u64)
        ensures
            r == self.spec_total_allocated(),
    {
        self.total_allocated
    }

    /// Total bytes marked dead (reclaimable).
    pub fn total_dead(&self) -> (r: u64)
        ensures
            r == self.spec_total_dead(),
    {
        self.total_dead
    }

    /// Total bytes not marked dead.
    pub fn total_live(&self) -> (r: u64)
        requires
            self.wf(),
        ensures
            r == self.spec_total_allocated() - self.spec_total_dead(),
    {
        proof {
            lemma_live_bytes_nonneg(self.entries@);
        }
        self.total_allocated - self.total_dead
    }

    /// The number of tracked allocations.
    pub fn allocation_count(&self) -> (r: usize)
        ensures
            r == self.entries().len(),
    {
        self.entries.len()
    }

    /// The number of live allocations.
    pub fn live_count(&self) -> (r: usize)
        requires
            self.wf(),
        ensures
            r == self.entries().filter(|e: AllocationEntry| is_live_entry(e)).len(),
    {
        self.get_live_allocations().len()
    }

    /// Clear all tracking; the generation is kept.
    pub fn clear(&mut self)
        ensures
            final(self).wf(),
            final(self).entries() == Seq::<AllocationEntry>::empty(),
            final(self).spec_generation() == old(self).spec_generation(),
            final(self).spec_total_allocated() == 0,
            final(self).spec_total_dead() == 0,
    {
        self.entries.clear();
        self.total_allocated = 0;
        self.total_dead = 0;
    }

    /// Rebuild the tracker from a list of allocations, put in one after another (a later
    /// entry replaces an earlier one at the same offset); the totals count every entry
    /// of the list.
    pub fn rebuild(&mut self, allocations: Vec<AllocationEntry>)
        requires
            all_bytes(allocations@) <= u64::MAX,
        ensures
            final(self).wf(),
            forall|x: AllocationEntry|
                final(self).entries().contains(x) <==> exists|i: int|
                    0 <= i < allocations@.len() && allocations@[i] == x && forall|j: int|
                        i < j < allocations@.len() ==> allocations@[j].offset.value
                            != x.offset.value,
            final(self).spec_generation() == old(self).spec_generation(),
            final(self).spec_total_allocated() == all_bytes(allocations@),
            final(self).spec_total_dead() == dead_bytes(allocations@),
            distinct_offsets(allocations@) ==> final(self).entries().len() == allocations@.len(),
    {
        self.entries.clear();
        let mut total_alloc: u64 = 0;
        let mut total_dead: u64 = 0;
        let mut i: usize = 0;
        while i < allocations.len()
            invariant
                i <= allocations@.len(),
                all_bytes(allocations@) <= u64::MAX,
                sorted_by_offset(self.entries@),
                total_alloc == all_bytes(allocations@.take(i as int)),
                total_dead == dead_bytes(allocations@.take(i as int)),
                total_dead + live_bytes(self.entries@) <= total_alloc,
                self.generation == old(self).generation,
                forall|x: AllocationEntry|
                    self.entries@.contains(x) <==> exists|k: int|
                        0 <= k < i && allocations@[k] == x && forall|j: int|
                            k < j < i ==> allocations@[j].offset.value != x.offset.value,
                distinct_offsets(allocations@.take(i as int)) ==> self.entries@.len() == i,
            decreases allocations@.len() - i,
        {
            let e = allocations[i];
            let ghost prev = self.entries@;
            proof {
                if distinct_offsets(allocations@.take(i + 1)) {
                    assert(distinct_offsets(allocations@.take(i as int)));
                    if has_offset(prev, e.offset.value) {
                        let idx = choose|idx: int| 0 <= idx < prev.len() && prev[idx].offset.value == e.offset.value;
                        assert(prev.contains(prev[idx]));
                        let k = choose|k: int|
                            0 <= k < i && allocations@[k] == prev[idx] && forall|j: int|
                                k < j < i ==> allocations@[j].offset.value != prev[idx].offset.value;
                        assert(allocations@.take(i + 1)[k] == allocations@[k]);
                        assert(allocations@.take(i + 1)[i as int] == e);
                        assert(false);
                    }
                }
            }
            proof {
                assert(allocations@.take(i + 1) =~= allocations@.take(i as int) + seq![e]);
                lemma_live_bytes_add(allocations@.take(i as int), seq![e]);
                lemma_bytes_single(e);
                assert(allocations@ =~= allocations@.take(i + 1) + allocations@.skip(i + 1));
                lemma_live_bytes_add(allocations@.take(i + 1), allocations@.skip(i + 1));
                lemma_live_bytes_nonneg(allocations@.skip(i + 1));
                lemma_live_bytes_nonneg(allocations@.take(i + 1));
            }
            put_entry(&mut self.entries, e);
            total_alloc = total_alloc + e.size as u64;
            if !e.live {
                total_dead = total_dead + e.size as u64;
            }
            proof {
                let s = self.entries@;
                assert forall|x: AllocationEntry|
                    s.contains(x) <==> exists|k: int|
                        0 <= k < i + 1 && allocations@[k] == x && forall|j: int|
                            k < j < i + 1 ==> allocations@[j].offset.value != x.offset.value by {
                    if s.contains(x) {
                        if x == e {
                            assert(allocations@[i as int] == x);
                        } else {
                            assert(prev.contains(x) && x.offset.value != e.offset.value);
                            let k = choose|k: int|
                                0 <= k < i && allocations@[k] == x && forall|j: int|
                                    k < j < i ==> allocations@[j].offset.value != x.offset.value;
                            assert(forall|j: int|
                                k < j < i + 1 ==> allocations@[j].offset.value != x.offset.value);
                        }
                    }
                    if exists|k: int|
                        0 <= k < i + 1 && allocations@[k] == x && forall|j: int|
                            k < j < i + 1 ==> allocations@[j].offset.value != x.offset.value {
                        let k = choose|k: int|
                            0 <= k < i + 1 && allocations@[k] == x && forall|j: int|
                                k < j < i + 1 ==> allocations@[j].offset.value != x.offset.value;
                        if k < i {
                            assert(allocations@[i as int].offset.value != x.offset.value);
                            assert(prev.contains(x));
                        }
                    }
                }
            }
            i = i + 1;
        }
        assert(allocations@.take(i as int) =~= allocations@);
        self.total_allocated = total_alloc;
        self.total_dead = total_dead;
    }

    /// Move the allocation at `old_offset` to `new_offset` (after compaction); an entry
    /// already at `new_offset` is replaced. Nothing changes if there is no entry at
    /// `old_offset`.
    pub fn update_offset(&mut self, old_offset: ArenaOffset, new_offset: ArenaOffset)
        requires
            old(self).wf(),
        ensures
            final(self).wf(),
            final(self).spec_generation() == old(self).spec_generation(),
            final(self).spec_total_allocated() == old(self).spec_total_allocated(),
            final(self).spec_total_dead() == old(self).spec_total_dead(),
            forall|i: int|
                0 <= i < old(self).entries().len() && old(self).entries()[i].offset == old_offset
                    ==> forall|x: AllocationEntry|
                    final(self).entries().contains(x) <==> (x == AllocationEntry {
                        offset: new_offset,
                        ..old(self).entries()[i]
                    } || (old(self).entries().contains(x) && x.offset != old_offset
                        && x.offset != new_offset)),
            !has_offset(old(self).entries(), old_offset.value) ==> final(self).entries()
                == old(self).entries(),
    {
        let pos = find_position(&self.entries, old_offset.value);
        if pos < self.entries.len() && self.entries[pos].offset.value == old_offset.value {
            let ghost old_s = self.entries@;
            let mut e = self.entries.remove(pos);
            proof {
                lemma_live_bytes_split(old_s, pos as int);
                let s = self.entries@;
                assert(s =~= old_s.subrange(0, pos as int) + old_s.subrange(pos + 1, old_s.len() as int));
                lemma_live_bytes_add(old_s.subrange(0, pos as int), old_s.subrange(pos + 1, old_s.len() as int));
            }
            let ghost mid = self.entries@;
            e.offset = new_offset;
            put_entry(&mut self.entries, e);
            proof {
                let s = self.entries@;
                assert forall|i: int|
                    0 <= i < old_s.len() && old_s[i].offset == old_offset implies i == pos by {
                    if i < pos {
                    } else if i > pos {
                    }
                }
                assert forall|x: AllocationEntry|
                    mid.contains(x) <==> (old_s.contains(x) && x.offset != old_offset) by {
                    if mid.contains(x) {
                        let k = choose|k: int| 0 <= k < mid.len() && mid[k] == x;
                        if k < pos {
                            assert(old_s[k] == x);
                        } else {
                            assert(old_s[k + 1] == x);
                        }
                    }
                    if old_s.contains(x) && x.offset != old_offset {
                        let k = choose|k: int| 0 <= k < old_s.len() && old_s[k] == x;
                        if k < pos {
                            assert(mid[k] == x);
                        } else {
                            assert(mid[k - 1] == x);
                        }
                    }
                }
            }
        } else {
            proof {
                assert forall|i: int|
                    0 <= i < self.entries@.len() implies self.entries@[i].offset != old_offset by {
                    if i > pos {
                        assert(self.entries@[pos as int].offset.value < self.entries@[i].offset.value);
                    }
                }
            }
        }
    }
}

} // verus!

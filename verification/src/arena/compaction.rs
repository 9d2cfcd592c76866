//! Arena compaction: planning where live allocations go and moving them there.
use vstd::prelude::*;
use crate::types::ArenaOffset;
use crate::error::XervError;
use crate::text::{decimal_text, owned, u64_text};
use super::allocation::{
    AllocationEntry, AllocationTracker, all_bytes, dead_bytes, is_live_entry, live_bytes,
};

verus! {

/// `x` rounded up to a multiple of 8.
pub open spec fn align8(x: int) -> int {
    ((x + 7) / 8) * 8
}

/// Align an offset up to the entry alignment (8 bytes).
pub fn align_offset(offset: ArenaOffset) -> (r: ArenaOffset)
    requires
        offset.value + 7 <= u64::MAX,
    ensures
        r.value == align8(offset.value as int),
{
    let sum: u64 = offset.as_u64() + 7;
    let aligned: u64 = sum & !7u64;
    assert(aligned == sum - sum % 8) by (bit_vector)
        requires
            aligned == sum & !7u64,
    ;
    ArenaOffset::new(aligned)
}

/// Align a size up to the entry alignment (8 bytes).
pub fn align_size(size: u32) -> (r: u32)
    requires
        size + 7 <= u32::MAX,
    ensures
        r == align8(size as int),
{
    let sum: u32 = size + 7;
    let aligned: u32 = sum & !7u32;
    assert(aligned == sum - sum % 8) by (bit_vector)
        requires
            aligned == sum & !7u32,
    ;
    aligned
}

/// Where packing the entries of `s` one after another from `start` ends: each entry
/// starts at the next multiple of 8 and takes its size rounded up to a multiple of 8.
pub open spec fn packed_end(start: int, s: Seq<AllocationEntry>) -> int
    decreases s.len(),
{
    if s.len() == 0 {
        start
    } else {
        align8(packed_end(start, s.drop_last())) + align8(s.last().size as int)
    }
}

/// Where the entry at index `k` of `s` lands when `s` is packed from `start`.
pub open spec fn packed_position(start: int, s: Seq<AllocationEntry>, k: int) -> int {
    align8(packed_end(start, s.take(k)))
}

/// The moves of a packing of `s` from `start`: each entry that does not already sit
/// where it lands, paired with where it lands, in the order of `s`.
pub open spec fn planned_moves(start: int, s: Seq<AllocationEntry>) -> Seq<(AllocationEntry, ArenaOffset)>
    decreases s.len(),
{
    if s.len() == 0 {
        Seq::empty()
    } else {
        let pos = align8(packed_end(start, s.drop_last()));
        let prev = planned_moves(start, s.drop_last());
        if s.last().offset.value != pos {
            prev.push((s.last(), ArenaOffset { value: pos as u64 }))
        } else {
            prev
        }
    }
}

/// Packing `s` from `start` stays within `u64` (and every size can be rounded up
/// within `u32`).
pub open spec fn packing_fits(start: int, s: Seq<AllocationEntry>) -> bool {
    &&& packed_end(start, s) <= u64::MAX
    &&& s.len() > 0 ==> packed_end(start, s.drop_last()) + 7 <= u64::MAX
    &&& forall|k: int| 0 <= k < s.len() ==> s[k].size + 7 <= u32::MAX
}

/// Rounding up never moves down.
pub proof fn lemma_align8_bounds(x: int)
    ensures
        x <= align8(x) <= x + 7,
        align8(x) % 8 == 0,
{
}

/// Packing more entries never ends earlier.
pub proof fn lemma_packed_end_monotone(start: int, s: Seq<AllocationEntry>, i: int, j: int)
    requires
        0 <= i <= j <= s.len(),
    ensures
        packed_end(start, s.take(i)) <= packed_end(start, s.take(j)),
    decreases j - i,
{
    if i < j {
        lemma_packed_end_monotone(start, s, i, j - 1);
        assert(s.take(j).drop_last() =~= s.take(j - 1));
        lemma_align8_bounds(packed_end(start, s.take(j - 1)));
        lemma_align8_bounds(s.take(j).last().size as int);
    }
}

/// Packing places each block at a multiple of 8, in the order of `s`, wholly below the
/// next one: the planned targets never overlap.
pub proof fn lemma_packed_positions_disjoint(start: int, s: Seq<AllocationEntry>, i: int, j: int)
    requires
        0 <= i < j < s.len(),
    ensures
        packed_position(start, s, i) % 8 == 0,
        packed_position(start, s, i) + s[i].size <= packed_position(start, s, j),
{
    assert(s.take(i + 1).drop_last() =~= s.take(i));
    assert(s.take(i + 1).last() == s[i]);
    lemma_align8_bounds(packed_end(start, s.take(i)));
    lemma_align8_bounds(s[i].size as int);
    lemma_packed_end_monotone(start, s, i + 1, j);
    lemma_align8_bounds(packed_end(start, s.take(j)));
}

/// `idx` picks, in ascending order, exactly the entries of `s` that packing from `start`
/// moves, and `ms` pairs each with the place it lands.
pub open spec fn moves_at(start: int, s: Seq<AllocationEntry>, ms: Seq<(AllocationEntry, ArenaOffset)>, idx: Seq<int>) -> bool {
    &&& idx.len() == ms.len()
    &&& forall|m1: int, m2: int| 0 <= m1 < m2 < idx.len() ==> #[trigger] idx[m1] < #[trigger] idx[m2]
    &&& forall|m: int| 0 <= m < idx.len() ==> {
        &&& 0 <= #[trigger] idx[m] < s.len()
        &&& s[idx[m]].offset.value != packed_position(start, s, idx[m])
        &&& ms[m] == (s[idx[m]], ArenaOffset { value: packed_position(start, s, idx[m]) as u64 })
    }
    &&& forall|k: int| 0 <= k < s.len() && (#[trigger] s[k]).offset.value != packed_position(start, s, k)
        ==> exists|m: int| 0 <= m < idx.len() && idx[m] == k
}

/// The plan in closed form: its moves are the entries whose packed place differs from
/// where they sit, in the order of the entries, each with its packed place.
pub proof fn lemma_planned_moves_closed_form(start: int, s: Seq<AllocationEntry>)
    ensures
        exists|idx: Seq<int>| moves_at(start, s, planned_moves(start, s), idx),
    decreases s.len(),
{
    if s.len() == 0 {
        assert(moves_at(start, s, planned_moves(start, s), Seq::<int>::empty()));
    } else {
        let n = s.len() as int;
        let sp = s.drop_last();
        lemma_planned_moves_closed_form(start, sp);
        let idxp = choose|idx: Seq<int>| moves_at(start, sp, planned_moves(start, sp), idx);
        let pmp = planned_moves(start, sp);
        let pm = planned_moves(start, s);
        let pos = packed_position(start, s, n - 1);
        assert(s.take(n - 1) =~= sp);
        assert forall|k: int| 0 <= k < n - 1 implies packed_position(start, sp, k) == packed_position(start, s, k)
            && #[trigger] sp[k] == s[k] by {
            assert(sp.take(k) =~= s.take(k));
        }
        let idx = if s[n - 1].offset.value != pos { idxp.push(n - 1) } else { idxp };
        assert forall|m: int| 0 <= m < idx.len() implies {
            &&& 0 <= #[trigger] idx[m] < s.len()
            &&& s[idx[m]].offset.value != packed_position(start, s, idx[m])
            &&& pm[m] == (s[idx[m]], ArenaOffset { value: packed_position(start, s, idx[m]) as u64 })
        } by {
            if m < idxp.len() {
                assert(idx[m] == idxp[m]);
                assert(sp[idxp[m]] == s[idxp[m]]);
                assert(pm[m] == pmp[m]);
            }
        }
        assert forall|k: int| 0 <= k < s.len() && (#[trigger] s[k]).offset.value != packed_position(start, s, k)
            implies exists|m: int| 0 <= m < idx.len() && idx[m] == k by {
            if k < n - 1 {
                assert(sp[k] == s[k]);
                assert(sp[k].offset.value != packed_position(start, sp, k));
                let m = choose|m: int| 0 <= m < idxp.len() && idxp[m] == k;
                assert(idx[m] == k);
            } else {
                assert(idx[idx.len() - 1] == k);
            }
        }
        assert(moves_at(start, s, pm, idx));
    }
}

/// Plan for compacting an arena.
#[derive(Debug)]
pub struct CompactionPlan {
    /// Allocations to move, with their new offsets.
    moves: Vec<(AllocationEntry, ArenaOffset)>,
    /// Total bytes to reclaim.
    bytes_to_reclaim: u64,
    /// New write position after compaction.
    new_write_pos: ArenaOffset,
}

impl CompactionPlan {
    /// The planned moves.
    pub closed spec fn spec_moves(&self) -> Seq<(AllocationEntry, ArenaOffset)> {
        self.moves@
    }

    /// The bytes the plan reclaims.
    pub closed spec fn spec_bytes_to_reclaim(&self) -> u64 {
        self.bytes_to_reclaim
    }

    /// The write position after the plan.
    pub closed spec fn spec_new_write_pos(&self) -> ArenaOffset {
        self.new_write_pos
    }

    /// Get the moves planned.
    pub fn moves(&self) -> (r: &[(AllocationEntry, ArenaOffset)])
        ensures
            r@ == self.spec_moves(),
    {
        self.moves.as_slice()
    }

    /// Get the bytes that will be reclaimed.
    pub fn bytes_to_reclaim(&self) -> (r: u64)
        ensures
            r == self.spec_bytes_to_reclaim(),
    {
        self.bytes_to_reclaim
    }

    /// Get the new write position after compaction.
    pub fn new_write_pos(&self) -> (r: ArenaOffset)
        ensures
            r == self.spec_new_write_pos(),
    {
        self.new_write_pos
    }
}

/// The live entries of a tracker, ordered by offset.
pub open spec fn live_entries(t: AllocationTracker) -> Seq<AllocationEntry> {
    t.entries().filter(|e: AllocationEntry| is_live_entry(e))
}

/// Plan a compaction: pack the live allocations, in offset order, from `data_offset`,
/// each at the next multiple of 8; record a move for each one that changes place.
pub fn plan_compaction(tracker: &AllocationTracker, data_offset: ArenaOffset) -> (r: CompactionPlan)
    requires
        tracker.wf(),
        packing_fits(data_offset.value as int, live_entries(*tracker)),
    ensures
        r.spec_moves() == planned_moves(data_offset.value as int, live_entries(*tracker)),
        r.spec_new_write_pos().value == packed_end(data_offset.value as int, live_entries(*tracker)),
        r.spec_bytes_to_reclaim() == tracker.spec_total_dead(),
{
    let live = tracker.get_live_allocations();
    let ghost start = data_offset.value as int;
    let ghost s = live@;
    let mut moves: Vec<(AllocationEntry, ArenaOffset)> = Vec::new();
    let mut current = data_offset;
    let mut i: usize = 0;
    assert(s.take(0) =~= Seq::<AllocationEntry>::empty());
    while i < live.len()
        invariant
            s == live@,
            packing_fits(start, s),
            i <= s.len(),
            current.value == packed_end(start, s.take(i as int)),
            moves@ == planned_moves(start, s.take(i as int)),
        decreases s.len() - i,
    {
        let alloc = live[i];
        proof {
            assert(s.take(i + 1).drop_last() =~= s.take(i as int));
            assert(s.take(i + 1).last() == alloc);
            assert(s.drop_last() =~= s.take(s.len() - 1));
            assert(s =~= s.take(s.len() as int));
            lemma_packed_end_monotone(start, s, i as int, s.len() - 1);
            lemma_packed_end_monotone(start, s, i + 1, s.len() as int);
            lemma_align8_bounds(current.value as int);
            lemma_align8_bounds(alloc.size as int);
        }
        let aligned = align_offset(current);
        if alloc.offset.value != aligned.value {
            moves.push((alloc, aligned));
        }
        let size = align_size(alloc.size);
        current = aligned.add(size as u64);
        i = i + 1;
    }
    assert(s.take(i as int) =~= s);
    CompactionPlan { moves, bytes_to_reclaim: tracker.total_dead(), new_write_pos: current }
}

/// Whether the live allocations of `tracker` can be packed from `data_offset`:
/// the packing stays within `u64` and every size can be rounded up within `u32`.
pub fn can_pack(tracker: &AllocationTracker, data_offset: ArenaOffset) -> (r: bool)
    requires
        tracker.wf(),
    ensures
        r == packing_fits(data_offset.value as int, live_entries(*tracker)),
{
    let live = tracker.get_live_allocations();
    let ghost start = data_offset.value as int;
    let ghost s = live@;
    let mut end: u64 = data_offset.value;
    let mut i: usize = 0;
    assert(s.take(0) =~= Seq::<AllocationEntry>::empty());
    while i < live.len()
        invariant
            s == live@,
            s == live_entries(*tracker),
            start == data_offset.value as int,
            i <= s.len(),
            end == packed_end(start, s.take(i as int)),
            i > 0 ==> packed_end(start, s.take(i - 1)) + 7 <= u64::MAX,
            forall|k: int| 0 <= k < i ==> s[k].size + 7 <= u32::MAX,
        decreases s.len() - i,
    {
        let alloc = live[i];
        proof {
            assert(s.take(i + 1).drop_last() =~= s.take(i as int));
            assert(s.take(i + 1).last() == alloc);
            assert(s.drop_last() =~= s.take(s.len() - 1));
            assert(s =~= s.take(s.len() as int));
            lemma_packed_end_monotone(start, s, i as int, s.len() - 1);
            lemma_packed_end_monotone(start, s, i + 1, s.len() as int);
        }
        if alloc.size > u32::MAX - 7 {
            return false;
        }
        if end > u64::MAX - 7 {
            proof {
                assert(packed_end(start, s.drop_last()) >= packed_end(start, s.take(i as int)));
                assert(!packing_fits(start, s));
            }
            return false;
        }
        let aligned = align_offset(ArenaOffset::new(end)).value;
        let size = align_size(alloc.size) as u64;
        if aligned > u64::MAX - size {
            proof {
                assert(packed_end(start, s.take(i + 1)) == aligned + size);
                assert(packed_end(start, s) >= packed_end(start, s.take(i + 1)));
                assert(!packing_fits(start, s));
            }
            return false;
        }
        end = aligned + size;
        i = i + 1;
    }
    proof {
        assert(s.take(i as int) =~= s);
        if s.len() > 0 {
            assert(s.drop_last() =~= s.take(s.len() - 1));
        }
    }
    true
}

/// Result of a compaction operation.
#[derive(Debug, Clone)]
pub struct CompactionResult {
    /// Old offset and new offset of each moved allocation, in the order they were moved.
    pub offset_map: Vec<(ArenaOffset, ArenaOffset)>,
    /// Bytes reclaimed by compaction.
    pub bytes_reclaimed: u64,
    /// Bytes still in use after compaction.
    pub bytes_used: u64,
    /// New generation number after compaction.
    pub new_generation: u32,
    /// Number of allocations moved.
    pub allocations_moved: usize,
    /// Whether compaction was performed.
    pub performed: bool,
}

impl CompactionResult {
    /// Create a result indicating no compaction was performed.
    pub fn not_performed() -> (r: Self)
        ensures
            r.offset_map@.len() == 0,
            r.bytes_reclaimed == 0,
            r.bytes_used == 0,
            r.new_generation == 0,
            r.allocations_moved == 0,
            !r.performed,
    {
        CompactionResult {
            offset_map: Vec::new(),
            bytes_reclaimed: 0,
            bytes_used: 0,
            new_generation: 0,
            allocations_moved: 0,
            performed: false,
        }
    }
}

/// `b` with the `n` bytes at `from` copied to `to` (as a copy through a temporary
/// buffer would leave them, overlap or not).
pub open spec fn copy_range(b: Seq<u8>, from: int, to: int, n: int) -> Seq<u8> {
    Seq::new(b.len(), |p: int| if to <= p < to + n { b[from + (p - to)] } else { b[p] })
}

/// The effect of one move on a buffer.
pub open spec fn apply_move(b: Seq<u8>, m: (AllocationEntry, ArenaOffset)) -> Seq<u8> {
    copy_range(b, m.0.offset.value as int, m.1.value as int, m.0.size as int)
}

/// The effect of performing the moves of `ms` in order, from the first to the last.
pub open spec fn apply_moves(b: Seq<u8>, ms: Seq<(AllocationEntry, ArenaOffset)>) -> Seq<u8>
    decreases ms.len(),
{
    if ms.len() == 0 {
        b
    } else {
        apply_move(apply_moves(b, ms.drop_last()), ms.last())
    }
}

/// Two byte ranges (start and length) share no byte.
pub open spec fn ranges_disjoint(a: int, n: int, c: int, m: int) -> bool {
    n == 0 || m == 0 || a + n <= c || c + m <= a
}

/// Move `mi`, performed before `mj`, writes neither over `mj`'s source (still to be read)
/// nor over its destination.
pub open spec fn move_safe(mi: (AllocationEntry, ArenaOffset), mj: (AllocationEntry, ArenaOffset)) -> bool {
    &&& ranges_disjoint(mi.1.value as int, mi.0.size as int, mj.0.offset.value as int, mj.0.size as int)
    &&& ranges_disjoint(mi.1.value as int, mi.0.size as int, mj.1.value as int, mj.0.size as int)
}

/// Every move of `ms` is safe with respect to each move after it.
pub open spec fn safe_order(ms: Seq<(AllocationEntry, ArenaOffset)>) -> bool {
    forall|i: int, j: int| 0 <= i < j < ms.len() ==> move_safe(#[trigger] ms[i], #[trigger] ms[j])
}

/// Move `m` writes byte `q`.
pub open spec fn writes(m: (AllocationEntry, ArenaOffset), q: int) -> bool {
    m.1.value <= q < m.1.value + m.0.size
}

/// Performing moves in a safe order, each within the buffer, leaves every moved block's
/// bytes at its destination and every byte that no move writes as it was.
pub proof fn lemma_safe_moves(b: Seq<u8>, ms: Seq<(AllocationEntry, ArenaOffset)>)
    requires
        safe_order(ms),
        forall|k: int| 0 <= k < ms.len() ==> move_in_bounds(#[trigger] ms[k], b.len() as int),
    ensures
        apply_moves(b, ms).len() == b.len(),
        forall|i: int, t: int| 0 <= i < ms.len() && 0 <= t < ms[i].0.size ==>
            #[trigger] apply_moves(b, ms)[ms[i].1.value + t] == b[ms[i].0.offset.value + t],
        forall|q: int| 0 <= q < b.len() && (forall|i: int| 0 <= i < ms.len() ==> !writes(#[trigger] ms[i], q)) ==>
            #[trigger] apply_moves(b, ms)[q] == b[q],
    decreases ms.len(),
{
    if ms.len() > 0 {
        let n = ms.len() as int;
        let sp = ms.drop_last();
        let l = ms.last();
        assert forall|i: int, j: int| 0 <= i < j < sp.len() implies move_safe(#[trigger] sp[i], #[trigger] sp[j]) by {
            assert(sp[i] == ms[i] && sp[j] == ms[j]);
        }
        assert forall|k: int| 0 <= k < sp.len() implies move_in_bounds(#[trigger] sp[k], b.len() as int) by {
            assert(sp[k] == ms[k]);
        }
        lemma_safe_moves(b, sp);
        let bp = apply_moves(b, sp);
        let res = apply_moves(b, ms);
        assert(ms[n - 1] == l);
        assert(move_in_bounds(ms[n - 1], b.len() as int));
        assert(res == apply_move(bp, l));
        assert forall|t: int| 0 <= t < l.0.size implies #[trigger] bp[l.0.offset.value + t] == b[l.0.offset.value + t] by {
            assert forall|i: int| 0 <= i < sp.len() implies !writes(#[trigger] sp[i], l.0.offset.value + t) by {
                assert(sp[i] == ms[i]);
                assert(move_safe(ms[i], ms[n - 1]));
            }
        }
        assert forall|i: int, t: int| 0 <= i < ms.len() && 0 <= t < ms[i].0.size implies
            #[trigger] res[ms[i].1.value + t] == b[ms[i].0.offset.value + t] by {
            if i < n - 1 {
                assert(sp[i] == ms[i]);
                assert(move_safe(ms[i], ms[n - 1]));
                assert(move_in_bounds(ms[i], b.len() as int));
                assert(bp[sp[i].1.value + t] == b[sp[i].0.offset.value + t]);
            }
        }
        assert forall|q: int| 0 <= q < b.len() && (forall|i: int| 0 <= i < ms.len() ==> !writes(#[trigger] ms[i], q)) implies
            #[trigger] res[q] == b[q] by {
            assert(!writes(ms[n - 1], q));
            assert forall|i: int| 0 <= i < sp.len() implies !writes(#[trigger] sp[i], q) by {
                assert(sp[i] == ms[i]);
                assert(!writes(ms[i], q));
            }
            assert(bp[q] == b[q]);
        }
    }
}

/// Move `m` takes its block down (or leaves it where it is).
pub open spec fn moves_down(m: (AllocationEntry, ArenaOffset)) -> bool {
    m.1.value <= m.0.offset.value
}

/// The moves of `ms` that take a block down, in the order of `ms`.
pub open spec fn downward_moves(ms: Seq<(AllocationEntry, ArenaOffset)>) -> Seq<(AllocationEntry, ArenaOffset)>
    decreases ms.len(),
{
    if ms.len() == 0 {
        Seq::empty()
    } else if moves_down(ms.last()) {
        downward_moves(ms.drop_last()).push(ms.last())
    } else {
        downward_moves(ms.drop_last())
    }
}

/// The moves of `ms` that take a block up, in the reverse order of `ms`.
pub open spec fn upward_moves_reversed(ms: Seq<(AllocationEntry, ArenaOffset)>) -> Seq<(AllocationEntry, ArenaOffset)>
    decreases ms.len(),
{
    if ms.len() == 0 {
        Seq::empty()
    } else if moves_down(ms.last()) {
        upward_moves_reversed(ms.drop_last())
    } else {
        seq![ms.last()] + upward_moves_reversed(ms.drop_last())
    }
}

/// The order in which compaction performs the planned moves: the downward moves from the
/// lowest block up, then the upward moves from the highest block down. Neither kind then
/// writes over a block still to move.
pub open spec fn move_order(ms: Seq<(AllocationEntry, ArenaOffset)>) -> Seq<(AllocationEntry, ArenaOffset)> {
    downward_moves(ms) + upward_moves_reversed(ms)
}

/// What the two parts of the order hold: the downward and the upward moves of `ms`, all
/// of them once.
proof fn lemma_order_parts(ms: Seq<(AllocationEntry, ArenaOffset)>)
    ensures
        downward_moves(ms).len() + upward_moves_reversed(ms).len() == ms.len(),
        forall|x: (AllocationEntry, ArenaOffset)| #[trigger] downward_moves(ms).contains(x) <==> ms.contains(x) && moves_down(x),
        forall|x: (AllocationEntry, ArenaOffset)| #[trigger] upward_moves_reversed(ms).contains(x) <==> ms.contains(x) && !moves_down(x),
    decreases ms.len(),
{
    if ms.len() > 0 {
        let sp = ms.drop_last();
        let l = ms.last();
        lemma_order_parts(sp);
        lemma_contains_push(sp, l);
        assert(ms =~= sp.push(l));
        let d = downward_moves(sp);
        let u = upward_moves_reversed(sp);
        if moves_down(l) {
            assert(downward_moves(ms) == d.push(l));
            assert(upward_moves_reversed(ms) == u);
            lemma_contains_push(d, l);
        } else {
            assert(downward_moves(ms) == d);
            assert(upward_moves_reversed(ms) == seq![l] + u);
            lemma_contains_prepend(l, u);
        }
        assert forall|x: (AllocationEntry, ArenaOffset)| #[trigger] downward_moves(ms).contains(x) <==> ms.contains(x) && moves_down(x) by {
            assert(sp.push(l).contains(x) <==> sp.contains(x) || x == l);
            assert(downward_moves(sp).contains(x) <==> sp.contains(x) && moves_down(x));
            if moves_down(l) {
                assert(d.push(l).contains(x) <==> d.contains(x) || x == l);
            }
        }
        assert forall|x: (AllocationEntry, ArenaOffset)| #[trigger] upward_moves_reversed(ms).contains(x) <==> ms.contains(x) && !moves_down(x) by {
            assert(sp.push(l).contains(x) <==> sp.contains(x) || x == l);
            assert(upward_moves_reversed(sp).contains(x) <==> sp.contains(x) && !moves_down(x));
            if !moves_down(l) {
                assert((seq![l] + u).contains(x) <==> u.contains(x) || x == l);
            }
        }
    }
}

/// What `s.push(l)` holds: what `s` holds, and `l`.
proof fn lemma_contains_push(s: Seq<(AllocationEntry, ArenaOffset)>, l: (AllocationEntry, ArenaOffset))
    ensures
        forall|x: (AllocationEntry, ArenaOffset)| #[trigger] s.push(l).contains(x) <==> s.contains(x) || x == l,
{
    let t = s.push(l);
    assert forall|x: (AllocationEntry, ArenaOffset)| #[trigger] t.contains(x) <==> s.contains(x) || x == l by {
        if t.contains(x) {
            let i = choose|i: int| 0 <= i < t.len() && t[i] == x;
            if i < s.len() {
                assert(s[i] == x);
            }
        }
        if s.contains(x) {
            let i = choose|i: int| 0 <= i < s.len() && s[i] == x;
            assert(t[i] == x);
        }
        if x == l {
            assert(t[s.len() as int] == x);
        }
    }
}

/// What `seq![l] + s` holds: `l`, and what `s` holds.
proof fn lemma_contains_prepend(l: (AllocationEntry, ArenaOffset), s: Seq<(AllocationEntry, ArenaOffset)>)
    ensures
        forall|x: (AllocationEntry, ArenaOffset)| #[trigger] (seq![l] + s).contains(x) <==> s.contains(x) || x == l,
{
    let t = seq![l] + s;
    assert forall|x: (AllocationEntry, ArenaOffset)| #[trigger] t.contains(x) <==> s.contains(x) || x == l by {
        if t.contains(x) {
            let i = choose|i: int| 0 <= i < t.len() && t[i] == x;
            if i > 0 {
                assert(s[i - 1] == x);
            }
        }
        if s.contains(x) {
            let i = choose|i: int| 0 <= i < s.len() && s[i] == x;
            assert(t[i + 1] == x);
        }
        if x == l {
            assert(t[0] == x);
        }
    }
}

/// Pairwise facts about the moves of `ms` that make `move_order` safe: two downward moves
/// are safe in the order of `ms`, two upward ones in the reverse order, and a downward move
/// is safe before any upward one.
pub open spec fn pairs_safe(ms: Seq<(AllocationEntry, ArenaOffset)>) -> bool {
    &&& forall|a: int, b: int| 0 <= a < b < ms.len() && moves_down(ms[a]) && moves_down(ms[b])
        ==> move_safe(#[trigger] ms[a], #[trigger] ms[b])
    &&& forall|a: int, b: int| 0 <= a < b < ms.len() && !moves_down(ms[a]) && !moves_down(ms[b])
        ==> move_safe(#[trigger] ms[b], #[trigger] ms[a])
    &&& forall|a: int, b: int| 0 <= a < ms.len() && 0 <= b < ms.len() && moves_down(ms[a]) && !moves_down(ms[b])
        ==> move_safe(#[trigger] ms[a], #[trigger] ms[b])
}

/// `pairs_safe` holds of every prefix.
proof fn lemma_pairs_safe_prefix(ms: Seq<(AllocationEntry, ArenaOffset)>)
    requires
        ms.len() > 0,
        pairs_safe(ms),
    ensures
        pairs_safe(ms.drop_last()),
{
    let sp = ms.drop_last();
    assert forall|a: int| 0 <= a < sp.len() implies #[trigger] sp[a] == ms[a] by {}
}

/// The downward moves, in the order of `ms`, are in a safe order.
proof fn lemma_downward_safe(ms: Seq<(AllocationEntry, ArenaOffset)>)
    requires
        pairs_safe(ms),
    ensures
        safe_order(downward_moves(ms)),
    decreases ms.len(),
{
    if ms.len() > 0 {
        let n = ms.len() as int;
        let sp = ms.drop_last();
        let l = ms.last();
        lemma_pairs_safe_prefix(ms);
        lemma_downward_safe(sp);
        lemma_order_parts(sp);
        let d = downward_moves(sp);
        if moves_down(l) {
            let dd = d.push(l);
            assert(downward_moves(ms) == dd);
            assert forall|i: int, j: int| 0 <= i < j < dd.len() implies move_safe(#[trigger] dd[i], #[trigger] dd[j]) by {
                if j == dd.len() - 1 {
                    assert(dd[i] == d[i]);
                    assert(dd[j] == l);
                    assert(d.contains(d[i]));
                    assert(sp.contains(d[i]) && moves_down(d[i]));
                    let a = choose|a: int| 0 <= a < sp.len() && sp[a] == d[i];
                    assert(sp[a] == ms[a]);
                    assert(ms[n - 1] == l);
                    assert(move_safe(ms[a], ms[n - 1]));
                } else {
                    assert(dd[i] == d[i] && dd[j] == d[j]);
                }
            }
        } else {
            assert(downward_moves(ms) == d);
        }
    }
}

/// The upward moves, in the reverse order of `ms`, are in a safe order.
proof fn lemma_upward_safe(ms: Seq<(AllocationEntry, ArenaOffset)>)
    requires
        pairs_safe(ms),
    ensures
        safe_order(upward_moves_reversed(ms)),
    decreases ms.len(),
{
    if ms.len() > 0 {
        let n = ms.len() as int;
        let sp = ms.drop_last();
        let l = ms.last();
        lemma_pairs_safe_prefix(ms);
        lemma_upward_safe(sp);
        lemma_order_parts(sp);
        let u = upward_moves_reversed(sp);
        if !moves_down(l) {
            let uu = seq![l] + u;
            assert(upward_moves_reversed(ms) == uu);
            assert forall|i: int, j: int| 0 <= i < j < uu.len() implies move_safe(#[trigger] uu[i], #[trigger] uu[j]) by {
                if i == 0 {
                    assert(uu[0] == l);
                    assert(uu[j] == u[j - 1]);
                    assert(u.contains(u[j - 1]));
                    assert(sp.contains(u[j - 1]) && !moves_down(u[j - 1]));
                    let a = choose|a: int| 0 <= a < sp.len() && sp[a] == u[j - 1];
                    assert(sp[a] == ms[a]);
                    assert(ms[n - 1] == l);
                    assert(move_safe(ms[n - 1], ms[a]));
                } else {
                    assert(uu[i] == u[i - 1] && uu[j] == u[j - 1]);
                }
            }
        } else {
            assert(upward_moves_reversed(ms) == u);
        }
    }
}

/// When `pairs_safe` holds, `move_order` is a safe order.
proof fn lemma_order_safe(ms: Seq<(AllocationEntry, ArenaOffset)>)
    requires
        pairs_safe(ms),
    ensures
        safe_order(move_order(ms)),
{
    lemma_downward_safe(ms);
    lemma_upward_safe(ms);
    lemma_order_parts(ms);
    let d = downward_moves(ms);
    let u = upward_moves_reversed(ms);
    let o = move_order(ms);
    assert forall|i: int, j: int| 0 <= i < j < o.len() implies move_safe(#[trigger] o[i], #[trigger] o[j]) by {
        if j < d.len() {
            assert(o[i] == d[i] && o[j] == d[j]);
        } else if i >= d.len() {
            assert(o[i] == u[i - d.len()] && o[j] == u[j - d.len()]);
        } else {
            assert(o[i] == d[i] && o[j] == u[j - d.len()]);
            assert(d.contains(d[i]));
            assert(u.contains(u[j - d.len()]));
            let a = choose|a: int| 0 <= a < ms.len() && ms[a] == d[i];
            let b = choose|b: int| 0 <= b < ms.len() && ms[b] == u[j - d.len()];
            assert(moves_down(ms[a]) && !moves_down(ms[b]));
            assert(move_safe(ms[a], ms[b]));
        }
    }
}

/// The blocks of `s`, in order, do not overlap: each ends at or before the next begins.
pub open spec fn disjoint_blocks(s: Seq<AllocationEntry>) -> bool {
    forall|i: int, j: int| 0 <= i < j < s.len() ==> #[trigger] s[i].offset.value + s[i].size <= #[trigger] s[j].offset.value
}

/// A block packed from a non-negative start lands at or after the start and within the
/// packing.
proof fn lemma_position_within(start: int, s: Seq<AllocationEntry>, k: int)
    requires
        0 <= start,
        0 <= k < s.len(),
    ensures
        start <= packed_position(start, s, k),
        packed_position(start, s, k) + s[k].size <= packed_end(start, s),
{
    lemma_packed_end_nonneg(start, s.take(k));
    lemma_align8_bounds(packed_end(start, s.take(k)));
    assert(s.take(k + 1).drop_last() =~= s.take(k));
    assert(s.take(k + 1).last() == s[k]);
    lemma_align8_bounds(s[k].size as int);
    lemma_packed_end_monotone(start, s, k + 1, s.len() as int);
    assert(s.take(s.len() as int) =~= s);
}

/// The planned moves of disjoint blocks, packed within `u64`, satisfy `pairs_safe`.
proof fn lemma_plan_pairs_safe(start: int, s: Seq<AllocationEntry>)
    requires
        0 <= start,
        packed_end(start, s) <= u64::MAX,
        disjoint_blocks(s),
    ensures
        pairs_safe(planned_moves(start, s)),
{
    let ms = planned_moves(start, s);
    lemma_planned_moves_closed_form(start, s);
    let idx = choose|idx: Seq<int>| moves_at(start, s, ms, idx);
    assert forall|m: int| 0 <= m < ms.len() implies {
        &&& (#[trigger] ms[m]).0 == s[idx[m]]
        &&& ms[m].1.value == packed_position(start, s, idx[m])
        &&& 0 <= idx[m] < s.len()
    } by {
        lemma_position_within(start, s, idx[m]);
    }
    assert forall|a: int, b: int| 0 <= a < ms.len() && 0 <= b < ms.len() && a != b implies
        move_safe(#[trigger] ms[a], #[trigger] ms[b]) || !(
            (a < b && moves_down(ms[a]) && moves_down(ms[b]))
            || (b < a && !moves_down(ms[a]) && !moves_down(ms[b]))
            || (moves_down(ms[a]) && !moves_down(ms[b]))) by {
        let ka = idx[a];
        let kb = idx[b];
        if a < b {
            assert(ka < kb);
            lemma_packed_positions_disjoint(start, s, ka, kb);
        } else {
            assert(kb < ka);
            lemma_packed_positions_disjoint(start, s, kb, ka);
        }
    }
}

/// The order holds exactly the moves of `ms`.
proof fn lemma_order_contains(ms: Seq<(AllocationEntry, ArenaOffset)>, x: (AllocationEntry, ArenaOffset))
    ensures
        move_order(ms).contains(x) <==> ms.contains(x),
{
    lemma_order_parts(ms);
    let d = downward_moves(ms);
    let u = upward_moves_reversed(ms);
    let o = move_order(ms);
    if o.contains(x) {
        let i = choose|i: int| 0 <= i < o.len() && o[i] == x;
        if i < d.len() {
            assert(d[i] == x);
            assert(d.contains(x));
        } else {
            assert(u[i - d.len()] == x);
            assert(u.contains(x));
        }
    }
    if ms.contains(x) {
        if moves_down(x) {
            assert(d.contains(x));
            let i = choose|i: int| 0 <= i < d.len() && d[i] == x;
            assert(o[i] == x);
        } else {
            assert(u.contains(x));
            let i = choose|i: int| 0 <= i < u.len() && u[i] == x;
            assert(o[i + d.len()] == x);
        }
    }
}

/// Orders `ms` as `move_order` does.
fn order_moves(ms: &Vec<(AllocationEntry, ArenaOffset)>) -> (r: Vec<(AllocationEntry, ArenaOffset)>)
    ensures
        r@ == move_order(ms@),
{
    let mut out: Vec<(AllocationEntry, ArenaOffset)> = Vec::new();
    let mut i: usize = 0;
    while i < ms.len()
        invariant
            i <= ms@.len(),
            out@ == downward_moves(ms@.take(i as int)),
        decreases ms@.len() - i,
    {
        let m = ms[i];
        proof {
            assert(ms@.take(i + 1).drop_last() =~= ms@.take(i as int));
            assert(ms@.take(i + 1).last() == m);
        }
        if m.1.value <= m.0.offset.value {
            out.push(m);
        }
        i = i + 1;
    }
    assert(ms@.take(ms@.len() as int) =~= ms@);
    let ghost down = out@;
    let mut j: usize = ms.len();
    assert(ms@.take(j as int) =~= ms@);
    while j > 0
        invariant
            j <= ms@.len(),
            down == downward_moves(ms@),
            out@.len() >= down.len(),
            out@.take(down.len() as int) == down,
            out@.skip(down.len() as int) + upward_moves_reversed(ms@.take(j as int)) == upward_moves_reversed(ms@),
        decreases j,
    {
        j = j - 1;
        let m = ms[j];
        let ghost prev = out@;
        proof {
            assert(ms@.take(j + 1).drop_last() =~= ms@.take(j as int));
            assert(ms@.take(j + 1).last() == m);
        }
        if !(m.1.value <= m.0.offset.value) {
            out.push(m);
            proof {
                assert(out@.take(down.len() as int) =~= prev.take(down.len() as int));
                assert(out@.skip(down.len() as int) =~= prev.skip(down.len() as int).push(m));
                assert(out@.skip(down.len() as int) + upward_moves_reversed(ms@.take(j as int))
                    =~= prev.skip(down.len() as int) + upward_moves_reversed(ms@.take(j + 1)));
            }
        }
    }
    assert(ms@.take(0) =~= Seq::<(AllocationEntry, ArenaOffset)>::empty());
    assert(out@ =~= out@.take(down.len() as int) + out@.skip(down.len() as int));
    out
}

/// Packing from a non-negative start ends at a non-negative place.
proof fn lemma_packed_end_nonneg(start: int, s: Seq<AllocationEntry>)
    requires
        0 <= start,
    ensures
        start <= packed_end(start, s),
    decreases s.len(),
{
    if s.len() > 0 {
        lemma_packed_end_nonneg(start, s.drop_last());
        lemma_align8_bounds(packed_end(start, s.drop_last()));
        lemma_align8_bounds(s.last().size as int);
    }
}

/// Both the source and the destination of a move lie within a buffer of `len` bytes.
pub open spec fn move_in_bounds(m: (AllocationEntry, ArenaOffset), len: int) -> bool {
    &&& m.0.offset.value + m.0.size <= len
    &&& m.1.value + m.0.size <= len
}

/// The live entries of `s` as compaction re-records them: each at the place the packing
/// from `start` gives it, live, in generation `generation`.
pub open spec fn relocated(start: int, s: Seq<AllocationEntry>, generation: u32) -> Seq<AllocationEntry> {
    Seq::new(
        s.len(),
        |k: int|
            AllocationEntry {
                offset: ArenaOffset { value: packed_position(start, s, k) as u64 },
                size: s[k].size,
                generation,
                live: true,
            },
    )
}

/// The moves as the result reports them: old and new offsets, in the order performed.
pub open spec fn reported_moves(ms: Seq<(AllocationEntry, ArenaOffset)>) -> Seq<(ArenaOffset, ArenaOffset)> {
    Seq::new(ms.len(), |k: int| (ms[k].0.offset, ms[k].1))
}

/// Copies `size` bytes within `buffer` from `from` to `to`, correct for overlapping ranges.
fn move_bytes(buffer: &mut [u8], from: usize, to: usize, size: usize)
    requires
        from + size <= old(buffer)@.len(),
        to + size <= old(buffer)@.len(),
    ensures
        final(buffer)@ == copy_range(old(buffer)@, from as int, to as int, size as int),
{
    let ghost b0 = buffer@;
    let n = buffer.len();
    if from < to {
        let mut i: usize = size;
        while i > 0
            invariant
                from < to,
                n == b0.len(),
                from + size <= b0.len(),
                to + size <= b0.len(),
                i <= size,
                buffer@.len() == b0.len(),
                forall|p: int|
                    0 <= p < b0.len() ==> buffer@[p] == (if to + i <= p < to + size {
                        b0[from + (p - to)]
                    } else {
                        b0[p]
                    }),
            decreases i,
        {
            i = i - 1;
            let v = buffer[from + i];
            buffer[to + i] = v;
        }
    } else if from > to {
        let mut i: usize = 0;
        while i < size
            invariant
                from > to,
                n == b0.len(),
                from + size <= b0.len(),
                to + size <= b0.len(),
                i <= size,
                buffer@.len() == b0.len(),
                forall|p: int|
                    0 <= p < b0.len() ==> buffer@[p] == (if to <= p < to + i {
                        b0[from + (p - to)]
                    } else {
                        b0[p]
                    }),
            decreases size - i,
        {
            let v = buffer[from + i];
            buffer[to + i] = v;
            i = i + 1;
        }
    }
    assert(buffer@ =~= copy_range(b0, from as int, to as int, size as int));
}

/// The message of a failed move: its old and new offsets, its size and the buffer length.
pub open spec fn out_of_bounds_message(m: (AllocationEntry, ArenaOffset), len: int) -> Seq<char> {
    "Move out of bounds: old="@ + decimal_text(m.0.offset.value as nat) + ", new="@ + decimal_text(
        m.1.value as nat,
    ) + ", size="@ + decimal_text(m.0.size as nat) + ", buffer_len="@ + decimal_text(len as nat)
}

fn out_of_bounds_cause(old_start: u64, new_start: u64, size: u64, len: u64) -> (r: String)
    ensures
        r@ == "Move out of bounds: old="@ + decimal_text(old_start as nat) + ", new="@
            + decimal_text(new_start as nat) + ", size="@ + decimal_text(size as nat)
            + ", buffer_len="@ + decimal_text(len as nat),
{
    let mut c = owned("Move out of bounds: old=");
    c.append(u64_text(old_start).as_str());
    c.append(", new=");
    c.append(u64_text(new_start).as_str());
    c.append(", size=");
    c.append(u64_text(size).as_str());
    c.append(", buffer_len=");
    c.append(u64_text(len).as_str());
    c
}

proof fn lemma_all_bytes_filter_live(s: Seq<AllocationEntry>)
    ensures
        all_bytes(s.filter(|e: AllocationEntry| is_live_entry(e))) == live_bytes(s),
    decreases s.len(),
{
    reveal(Seq::filter);
    if s.len() > 0 {
        lemma_all_bytes_filter_live(s.drop_last());
        let f = s.drop_last().filter(|e: AllocationEntry| is_live_entry(e));
        if s.last().live {
            assert(f.push(s.last()).drop_last() =~= f);
        }
    }
}

proof fn lemma_relocated_bytes(start: int, s: Seq<AllocationEntry>, generation: u32, i: int)
    requires
        0 <= i <= s.len(),
    ensures
        all_bytes(relocated(start, s, generation).take(i)) == all_bytes(s.take(i)),
        dead_bytes(relocated(start, s, generation).take(i)) == 0,
    decreases i,
{
    if i > 0 {
        lemma_relocated_bytes(start, s, generation, i - 1);
        assert(relocated(start, s, generation).take(i).drop_last() =~= relocated(start, s, generation).take(i - 1));
        assert(s.take(i).drop_last() =~= s.take(i - 1));
    }
}

/// Move `k` of `ms` is out of bounds for a buffer of `len` bytes and every earlier move
/// is within them: moves run from the first to the last, so it is the one that stops them.
pub open spec fn stopping_move(ms: Seq<(AllocationEntry, ArenaOffset)>, len: int, k: int) -> bool {
    &&& 0 <= k < ms.len()
    &&& !move_in_bounds(ms[k], len)
    &&& forall|j: int| 0 <= j < k ==> move_in_bounds(#[trigger] ms[j], len)
}

/// Compaction keeps every live block's bytes: performing the planned moves in
/// `move_order`, when the blocks do not overlap and every block and move fits in the
/// buffer, leaves each block's bytes at the place the packing gives it.
pub proof fn lemma_compaction_preserves_data(b: Seq<u8>, start: int, s: Seq<AllocationEntry>)
    requires
        0 <= start,
        packed_end(start, s) <= u64::MAX,
        disjoint_blocks(s),
        forall|k: int| 0 <= k < s.len() ==> (#[trigger] s[k]).offset.value + s[k].size <= b.len(),
        forall|k: int| 0 <= k < planned_moves(start, s).len()
            ==> move_in_bounds(#[trigger] planned_moves(start, s)[k], b.len() as int),
    ensures
        apply_moves(b, move_order(planned_moves(start, s))).len() == b.len(),
        forall|k: int, t: int| 0 <= k < s.len() && 0 <= t < s[k].size ==>
            #[trigger] apply_moves(b, move_order(planned_moves(start, s)))[packed_position(start, s, k) + t]
                == b[s[k].offset.value + t],
{
    let ms = planned_moves(start, s);
    let o = move_order(ms);
    lemma_plan_pairs_safe(start, s);
    lemma_order_safe(ms);
    lemma_order_parts(ms);
    assert forall|x: (AllocationEntry, ArenaOffset)| o.contains(x) <==> ms.contains(x) by {
        lemma_order_contains(ms, x);
    }
    assert forall|i: int| 0 <= i < o.len() implies move_in_bounds(#[trigger] o[i], b.len() as int) by {
        assert(o.contains(o[i]));
        let m = choose|m: int| 0 <= m < ms.len() && ms[m] == o[i];
    }
    lemma_safe_moves(b, o);
    lemma_planned_moves_closed_form(start, s);
    let idx = choose|idx: Seq<int>| moves_at(start, s, ms, idx);
    let res = apply_moves(b, o);
    assert forall|k: int, t: int| 0 <= k < s.len() && 0 <= t < s[k].size implies
        #[trigger] res[packed_position(start, s, k) + t] == b[s[k].offset.value + t] by {
        lemma_position_within(start, s, k);
        if s[k].offset.value != packed_position(start, s, k) {
            let m = choose|m: int| 0 <= m < idx.len() && idx[m] == k;
            assert(ms.contains(ms[m]));
            let i = choose|i: int| 0 <= i < o.len() && o[i] == ms[m];
            assert(o[i].1.value == packed_position(start, s, k));
            assert(res[o[i].1.value + t] == b[o[i].0.offset.value + t]);
        } else {
            let q = packed_position(start, s, k) + t;
            assert forall|i: int| 0 <= i < o.len() implies !writes(#[trigger] o[i], q) by {
                assert(o.contains(o[i]));
                let m = choose|m: int| 0 <= m < ms.len() && ms[m] == o[i];
                let k2 = idx[m];
                lemma_position_within(start, s, k2);
                if k2 < k {
                    lemma_packed_positions_disjoint(start, s, k2, k);
                } else if k < k2 {
                    lemma_packed_positions_disjoint(start, s, k, k2);
                }
            }
        }
    }
}

/// Compacts the arena buffer and the tracker (the threshold check aside): the planned
/// moves are performed in `move_order` (downward moves from the lowest block up, then
/// upward moves from the highest block down), each after checking that its source and
/// destination fit in the buffer; then the tracker is rebuilt with every live allocation
/// at its new place, in a new generation. When the live blocks do not overlap and lie in
/// the buffer, every live block's bytes end at its new place.
#[verifier::spinoff_prover]
#[verifier::rlimit(40)]
pub fn compact(tracker: &mut AllocationTracker, buffer: &mut [u8], data_offset: ArenaOffset) -> (r: Result<CompactionResult, XervError>)
    requires
        old(tracker).wf(),
        packing_fits(data_offset.value as int, live_entries(*old(tracker))),
        old(tracker).spec_generation() < u32::MAX,
    ensures
        ({
            let start = data_offset.value as int;
            let live = live_entries(*old(tracker));
            let ms = planned_moves(start, live);
            let os = move_order(ms);
            let len = old(buffer)@.len() as int;
            let moved = relocated(start, live, (old(tracker).spec_generation() + 1) as u32);
            &&& (r is Err <==> exists|k: int| 0 <= k < ms.len() && !move_in_bounds(#[trigger] ms[k], len))
            &&& (r is Err ==> {
                &&& *final(tracker) == *old(tracker)
                &&& exists|k: int|
                    #[trigger] stopping_move(os, len, k)
                    && final(buffer)@ == apply_moves(old(buffer)@, os.take(k))
                    && (r matches Err(XervError::CompactionFailed { cause })
                        && cause@ == out_of_bounds_message(os[k], len))
            })
            &&& (r matches Ok(res) ==> {
                &&& res.performed
                &&& res.allocations_moved == ms.len()
                &&& res.offset_map@ == reported_moves(os)
                &&& res.bytes_reclaimed == old(tracker).spec_total_dead()
                &&& res.new_generation == old(tracker).spec_generation() + 1
                &&& res.bytes_used == all_bytes(live)
                &&& final(buffer)@ == apply_moves(old(buffer)@, os)
                &&& (disjoint_blocks(live)
                    && forall|k: int| 0 <= k < live.len() ==> (#[trigger] live[k]).offset.value + live[k].size <= len)
                    ==> forall|k: int, t: int| 0 <= k < live.len() && 0 <= t < live[k].size ==>
                        #[trigger] final(buffer)@[packed_position(start, live, k) + t] == old(buffer)@[live[k].offset.value + t]
                &&& final(tracker).wf()
                &&& final(tracker).spec_generation() == res.new_generation
                &&& final(tracker).spec_total_allocated() == all_bytes(moved)
                &&& final(tracker).spec_total_dead() == 0
                &&& forall|x: AllocationEntry|
                    final(tracker).entries().contains(x) <==> exists|i: int|
                        0 <= i < moved.len() && moved[i] == x && forall|j: int|
                            i < j < moved.len() ==> moved[j].offset.value != x.offset.value
            })
        }),
{
    let ghost start = data_offset.value as int;
    let ghost b0 = buffer@;
    let ghost t0 = *tracker;
    let plan = plan_compaction(tracker, data_offset);
    let ghost ms = plan.moves@;
    let order = order_moves(&plan.moves);
    let ghost os = order@;
    proof {
        lemma_order_parts(ms);
    }
    let len = buffer.len();
    let mut offset_map: Vec<(ArenaOffset, ArenaOffset)> = Vec::new();
    let mut j: usize = 0;
    assert(os.take(0) =~= Seq::<(AllocationEntry, ArenaOffset)>::empty());
    assert(reported_moves(os).take(0) =~= Seq::<(ArenaOffset, ArenaOffset)>::empty());
    while j < order.len()
        invariant
            ms == plan.moves@,
            os == order@,
            os == move_order(ms),
            start == data_offset.value as int,
            ms == planned_moves(start, live_entries(t0)),
            t0 == *old(tracker),
            *tracker == t0,
            b0 == old(buffer)@,
            j <= os.len(),
            len == b0.len(),
            buffer@.len() == len,
            buffer@ == apply_moves(b0, os.take(j as int)),
            forall|k: int| 0 <= k < j ==> move_in_bounds(#[trigger] os[k], len as int),
            offset_map@ == reported_moves(os).take(j as int),
        decreases os.len() - j,
    {
        let (alloc, new_offset) = order[j];
        let old_start = alloc.offset.value;
        let new_start = new_offset.value;
        let size = alloc.size as u64;
        let len64 = len as u64;
        if old_start > len64 || size > len64 - old_start || new_start > len64 || size > len64 - new_start {
            let cause = out_of_bounds_cause(old_start, new_start, size, len64);
            proof {
                assert(os[j as int] == (alloc, new_offset));
                assert(!move_in_bounds(os[j as int], len as int));
                assert(stopping_move(os, len as int, j as int));
                lemma_order_contains(ms, os[j as int]);
                assert(ms == planned_moves(data_offset.value as int, live_entries(*old(tracker))));
            }
            return Err(XervError::CompactionFailed { cause });
        }
        proof {
            assert(os.take(j + 1).drop_last() =~= os.take(j as int));
            assert(os.take(j + 1).last() == os[j as int]);
            assert(reported_moves(os).take(j + 1) =~= reported_moves(os).take(j as int).push((alloc.offset, new_offset)));
        }
        move_bytes(buffer, old_start as usize, new_start as usize, size as usize);
        offset_map.push((alloc.offset, new_offset));
        j = j + 1;
    }
    assert(os.take(os.len() as int) =~= os);
    assert(reported_moves(os).take(os.len() as int) =~= reported_moves(os));
    proof {
        assert forall|k: int| 0 <= k < ms.len() implies move_in_bounds(#[trigger] ms[k], len as int) by {
            lemma_order_contains(ms, ms[k]);
        }
    }

    let new_gen = tracker.increment_generation();
    let live = tracker.get_live_allocations();
    let ghost s = live@;
    let ghost moved = relocated(start, s, new_gen);
    let ghost t1 = *tracker;
    let mut new_allocs: Vec<AllocationEntry> = Vec::new();
    let mut current = data_offset;
    let mut i: usize = 0;
    assert(s.take(0) =~= Seq::<AllocationEntry>::empty());
    proof {
        assert(s == live_entries(t0));
        lemma_all_bytes_filter_live(t0.entries());
        t0.lemma_live_within_totals();
        lemma_relocated_bytes(start, s, new_gen, s.len() as int);
        assert(s.take(s.len() as int) =~= s);
        assert(moved.take(s.len() as int) =~= moved);
        assert(all_bytes(moved) == all_bytes(s));
        assert(all_bytes(moved) <= u64::MAX);
        assert(dead_bytes(moved) == 0);
    }
    while i < live.len()
        invariant
            s == live@,
            packing_fits(start, s),
            moved == relocated(start, s, new_gen),
            start == data_offset.value as int,
            *tracker == t1,
            i <= s.len(),
            current.value == packed_end(start, s.take(i as int)),
            new_allocs@ == moved.take(i as int),
        decreases s.len() - i,
    {
        let alloc = live[i];
        proof {
            assert(s.take(i + 1).drop_last() =~= s.take(i as int));
            assert(s.take(i + 1).last() == alloc);
            assert(s.drop_last() =~= s.take(s.len() - 1));
            assert(s =~= s.take(s.len() as int));
            lemma_packed_end_monotone(start, s, i as int, s.len() - 1);
            lemma_packed_end_monotone(start, s, i + 1, s.len() as int);
            lemma_align8_bounds(current.value as int);
            lemma_align8_bounds(alloc.size as int);
        }
        let aligned = align_offset(current);
        new_allocs.push(AllocationEntry { offset: aligned, size: alloc.size, generation: new_gen, live: true });
        let size = align_size(alloc.size);
        current = aligned.add(size as u64);
        proof {
            assert(new_allocs@ =~= moved.take(i + 1));
        }
        i = i + 1;
    }
    assert(new_allocs@ =~= moved);
    let reclaimed = plan.bytes_to_reclaim();
    let moved_count = plan.moves.len();
    tracker.rebuild(new_allocs);
    let bytes_used = tracker.total_live();
    proof {
        assert(!(exists|k: int| 0 <= k < ms.len() && !move_in_bounds(#[trigger] ms[k], len as int)));
        assert(moved == relocated(
            data_offset.value as int,
            live_entries(*old(tracker)),
            (old(tracker).spec_generation() + 1) as u32,
        ));
        assert(ms == planned_moves(data_offset.value as int, live_entries(*old(tracker))));
        let live0 = live_entries(*old(tracker));
        if disjoint_blocks(live0)
            && forall|k: int| 0 <= k < live0.len() ==> (#[trigger] live0[k]).offset.value + live0[k].size <= len {
            lemma_compaction_preserves_data(b0, start, live0);
        }
    }
    Ok(CompactionResult {
        offset_map,
        bytes_reclaimed: reclaimed,
        bytes_used,
        new_generation: new_gen,
        allocations_moved: moved_count,
        performed: true,
    })
}

} // verus!

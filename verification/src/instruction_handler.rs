//! The instruction scheduler: a registry from a (target, time)
//! coordinate to the deduplicated set of instructions pending there.
//!
//! Identity for deduplication is the instruction tag alone: at one
//! coordinate at most one instruction of each tag is pending, and
//! re-inserting a tag replaces the payload — last write per parameter
//! per time step. Two auxiliary counting indices, per-target tick
//! counts and per-tick target counts, are maintained alongside the
//! primary table; the well-formedness invariant keeps them exactly
//! consistent with the primary table's contents, with a bucket
//! vanishing as soon as its count reaches zero.

use vstd::prelude::*;
use crate::instruction::InstructionKind;

verus! {

/// An instruction viewed through its scheduling identity: equality
/// compares the tag alone, so two payloads of one tag are the same
/// schedule slot.
#[derive(Copy, Clone, Debug)]
pub struct InstructionHashWrapper {
    pub kind: InstructionKind,
}

impl PartialEq for InstructionHashWrapper {
    fn eq(&self, other: &Self) -> (r: bool) {
        self.kind.same_tag(&other.kind)
    }
}

impl vstd::std_specs::cmp::PartialEqSpecImpl for InstructionHashWrapper {
    open spec fn obeys_eq_spec() -> bool {
        true
    }

    open spec fn eq_spec(&self, other: &Self) -> bool {
        self.kind.spec_same_tag(other.kind)
    }
}

impl Eq for InstructionHashWrapper {

}

/// The instructions pending at one (target, time) coordinate.
pub struct ScheduledEntry {
    pub target: u128,
    pub time: u128,
    pub instructions: Vec<InstructionKind>,
}

/// One cell of an auxiliary index: how many instructions are pending
/// at the (primary, secondary) coordinate.
#[derive(Copy, Clone, Debug)]
pub struct PendingCount {
    pub primary: u128,
    pub secondary: u128,
    pub count: usize,
}

/// Entry `i` of the primary table sits at coordinate (target, time).
pub open spec fn entry_at(s: Seq<ScheduledEntry>, i: int, target: u128, time: u128) -> bool {
    0 <= i < s.len() && s[i].target == target && s[i].time == time
}

/// Coordinates are unique in the primary table.
pub open spec fn entries_unique(s: Seq<ScheduledEntry>) -> bool {
    forall|i: int, j: int|
        #![trigger s[i], s[j]]
        0 <= i < s.len() && 0 <= j < s.len() && s[i].target == s[j].target && s[i].time
            == s[j].time ==> i == j
}

/// No two instructions of one tag in a sequence.
pub open spec fn distinct_tags(s: Seq<InstructionKind>) -> bool {
    forall|i: int, j: int|
        #![trigger s[i], s[j]]
        0 <= i < s.len() && 0 <= j < s.len() && i != j ==> !s[i].spec_same_tag(s[j])
}

/// Some instruction in the sequence carries the tag of `kind`.
pub open spec fn seq_has_tag(s: Seq<InstructionKind>, kind: InstructionKind) -> bool {
    exists|i: int| 0 <= i < s.len() && (#[trigger] s[i]).spec_same_tag(kind)
}

/// Cell `i` of an auxiliary index sits at coordinate (a, b).
pub open spec fn cell_at(s: Seq<PendingCount>, i: int, a: u128, b: u128) -> bool {
    0 <= i < s.len() && s[i].primary == a && s[i].secondary == b
}

/// Coordinates are unique in an auxiliary index, and a cell only
/// exists while its count is positive: buckets vanish at zero.
pub open spec fn counts_wf(s: Seq<PendingCount>) -> bool {
    &&& forall|i: int, j: int|
        #![trigger s[i], s[j]]
        0 <= i < s.len() && 0 <= j < s.len() && s[i].primary == s[j].primary && s[i].secondary
            == s[j].secondary ==> i == j
    &&& forall|i: int| 0 <= i < s.len() ==> (#[trigger] s[i]).count >= 1
}

/// The count an auxiliary index holds for a coordinate; zero when no
/// cell is present.
pub open spec fn count_of(s: Seq<PendingCount>, a: u128, b: u128) -> int {
    if exists|i: int| cell_at(s, i, a, b) {
        s[choose|i: int| cell_at(s, i, a, b)].count as int
    } else {
        0
    }
}

/// The scheduler. `time_target_to_inst` is the primary table;
/// `target_to_times` counts, for each target, the instructions pending
/// per tick; `time_to_targets` counts, for each tick, the instructions
/// pending per target.
pub struct InstructionHandler {
    pub time_target_to_inst: Vec<ScheduledEntry>,
    pub target_to_times: Vec<PendingCount>,
    pub time_to_targets: Vec<PendingCount>,
}

/// The instructions a primary table holds at a coordinate; empty when
/// none are.
pub open spec fn pending_of(s: Seq<ScheduledEntry>, target: u128, time: u128) -> Seq<
    InstructionKind,
> {
    if exists|i: int| entry_at(s, i, target, time) {
        s[choose|i: int| entry_at(s, i, target, time)].instructions@
    } else {
        Seq::empty()
    }
}

/// The index of the instruction carrying the tag of `kind`; meaningful
/// where `seq_has_tag` holds and the tags are distinct.
pub open spec fn tag_index(s: Seq<InstructionKind>, kind: InstructionKind) -> int {
    choose|i: int| 0 <= i < s.len() && s[i].spec_same_tag(kind)
}

/// What insertion does to the instructions at one coordinate: a fresh
/// tag is appended; an already pending tag has its payload replaced in
/// place — the new payload wins.
pub open spec fn spec_insert_seq(s: Seq<InstructionKind>, kind: InstructionKind) -> Seq<
    InstructionKind,
> {
    if seq_has_tag(s, kind) {
        s.update(tag_index(s, kind), kind)
    } else {
        s.push(kind)
    }
}

/// What tag removal does to the instructions at one coordinate: the
/// instruction of that tag leaves, whatever its payload; without one,
/// nothing changes.
pub open spec fn spec_remove_tag_seq(s: Seq<InstructionKind>, kind: InstructionKind) -> Seq<
    InstructionKind,
> {
    if seq_has_tag(s, kind) {
        s.remove(tag_index(s, kind))
    } else {
        s
    }
}

impl InstructionHandler {
    /// The instructions pending at a coordinate; empty when none are.
    pub open spec fn pending(self, target: u128, time: u128) -> Seq<InstructionKind> {
        pending_of(self.time_target_to_inst@, target, time)
    }

    /// Structure of the primary table: unique coordinates, and every
    /// entry holds at least one instruction, with distinct tags.
    pub open spec fn primary_wf(self) -> bool {
        let s = self.time_target_to_inst@;
        &&& entries_unique(s)
        &&& forall|i: int|
            0 <= i < s.len() ==> (#[trigger] s[i]).instructions@.len() >= 1 && distinct_tags(
                s[i].instructions@,
            )
    }

    /// The auxiliary indices agree exactly with the primary table: for
    /// every coordinate, both hold the number of pending instructions.
    pub open spec fn counts_consistent(self) -> bool {
        forall|target: u128, time: u128|
            count_of(self.target_to_times@, target, time) == (#[trigger] pending_of(
                self.time_target_to_inst@,
                target,
                time,
            )).len() && count_of(self.time_to_targets@, time, target) == pending_of(
                self.time_target_to_inst@,
                target,
                time,
            ).len()
    }

    /// The scheduler invariant.
    pub open spec fn wf(self) -> bool {
        &&& self.primary_wf()
        &&& counts_wf(self.target_to_times@)
        &&& counts_wf(self.time_to_targets@)
        &&& self.counts_consistent()
    }

    /// An empty scheduler: nothing pending anywhere.
    pub fn new() -> (h: InstructionHandler)
        ensures
            h.wf(),
            forall|target: u128, time: u128| (#[trigger] h.pending(target, time)).len() == 0,
    {
        InstructionHandler {
            time_target_to_inst: Vec::new(),
            target_to_times: Vec::new(),
            time_to_targets: Vec::new(),
        }
    }
}

/// The entry found at a coordinate is the one `pending_of` speaks of.
pub proof fn lemma_pending_at(s: Seq<ScheduledEntry>, i: int, target: u128, time: u128)
    requires
        entries_unique(s),
        entry_at(s, i, target, time),
    ensures
        pending_of(s, target, time) == s[i].instructions@,
{
    assert(entry_at(s, i, target, time));
    let j = choose|j: int| entry_at(s, j, target, time);
    if i != j {
        assert(false);
    }
}

/// The instruction found for a tag is the one `tag_index` speaks of.
pub proof fn lemma_tag_at(s: Seq<InstructionKind>, j: int, kind: InstructionKind)
    requires
        distinct_tags(s),
        0 <= j < s.len(),
        s[j].spec_same_tag(kind),
    ensures
        seq_has_tag(s, kind),
        tag_index(s, kind) == j,
{
    assert(seq_has_tag(s, kind));
    let i = tag_index(s, kind);
    assert(0 <= i < s.len() && s[i].spec_same_tag(kind));
    if i != j {
        assert(false);
    }
}

/// Appending an entry at a fresh coordinate: that coordinate now holds
/// the entry's instructions, and no other coordinate moves.
proof fn lemma_pending_push_new(s: Seq<ScheduledEntry>, e: ScheduledEntry)
    requires
        entries_unique(s),
        forall|j: int| !entry_at(s, j, e.target, e.time),
    ensures
        entries_unique(s.push(e)),
        pending_of(s.push(e), e.target, e.time) == e.instructions@,
        forall|x: u128, y: u128|
            !(x == e.target && y == e.time) ==> pending_of(s.push(e), x, y) == pending_of(s, x, y),
{
    let s2 = s.push(e);
    assert forall|k: int, l: int|
        #![trigger s2[k], s2[l]]
        0 <= k < s2.len() && 0 <= l < s2.len() && s2[k].target == s2[l].target && s2[k].time
            == s2[l].time implies k == l by {
        if k < s.len() && l < s.len() {
            assert(s2[k] == s[k]);
            assert(s2[l] == s[l]);
        } else if k < s.len() {
            assert(s2[k] == s[k]);
            assert(s2[l] == e);
            assert(entry_at(s, k, e.target, e.time));
        } else if l < s.len() {
            assert(s2[l] == s[l]);
            assert(s2[k] == e);
            assert(entry_at(s, l, e.target, e.time));
        }
    }
    assert(entry_at(s2, s.len() as int, e.target, e.time));
    lemma_pending_at(s2, s.len() as int, e.target, e.time);
    assert forall|x: u128, y: u128| !(x == e.target && y == e.time) implies pending_of(s2, x, y)
        == pending_of(s, x, y) by {
        if exists|k: int| entry_at(s, k, x, y) {
            let k1 = choose|k: int| entry_at(s, k, x, y);
            assert(s2[k1] == s[k1]);
            assert(entry_at(s2, k1, x, y));
            lemma_pending_at(s, k1, x, y);
            lemma_pending_at(s2, k1, x, y);
        } else {
            if exists|k: int| entry_at(s2, k, x, y) {
                let k2 = choose|k: int| entry_at(s2, k, x, y);
                assert(s2[k2] == if k2 < s.len() {
                    s[k2]
                } else {
                    e
                });
                assert(entry_at(s, k2, x, y));
                assert(false);
            }
        }
    }
}

/// Removing the entry at a coordinate: that coordinate is empty
/// afterwards, and no other coordinate moves.
proof fn lemma_pending_remove(s: Seq<ScheduledEntry>, i: int)
    requires
        entries_unique(s),
        0 <= i < s.len(),
    ensures
        entries_unique(s.remove(i)),
        pending_of(s.remove(i), s[i].target, s[i].time) == Seq::<InstructionKind>::empty(),
        forall|x: u128, y: u128|
            !(x == s[i].target && y == s[i].time) ==> pending_of(s.remove(i), x, y) == pending_of(
                s,
                x,
                y,
            ),
{
    let s2 = s.remove(i);
    assert forall|k: int, l: int|
        #![trigger s2[k], s2[l]]
        0 <= k < s2.len() && 0 <= l < s2.len() && s2[k].target == s2[l].target && s2[k].time
            == s2[l].time implies k == l by {
        let ko = if k < i {
            k
        } else {
            k + 1
        };
        let lo = if l < i {
            l
        } else {
            l + 1
        };
        assert(s2[k] == s[ko]);
        assert(s2[l] == s[lo]);
    }
    if exists|k: int| entry_at(s2, k, s[i].target, s[i].time) {
        let k2 = choose|k: int| entry_at(s2, k, s[i].target, s[i].time);
        let ko = if k2 < i {
            k2
        } else {
            k2 + 1
        };
        assert(s2[k2] == s[ko]);
        assert(entry_at(s, ko, s[i].target, s[i].time));
        assert(entry_at(s, i, s[i].target, s[i].time));
        assert(false);
    }
    assert forall|x: u128, y: u128| !(x == s[i].target && y == s[i].time) implies pending_of(
        s2,
        x,
        y,
    ) == pending_of(s, x, y) by {
        if exists|k: int| entry_at(s, k, x, y) {
            let k1 = choose|k: int| entry_at(s, k, x, y);
            assert(k1 != i);
            let k2 = if k1 < i {
                k1
            } else {
                k1 - 1
            };
            assert(s2[k2] == s[k1]);
            assert(entry_at(s2, k2, x, y));
            lemma_pending_at(s, k1, x, y);
            lemma_pending_at(s2, k2, x, y);
        } else {
            if exists|k: int| entry_at(s2, k, x, y) {
                let k2 = choose|k: int| entry_at(s2, k, x, y);
                let ko = if k2 < i {
                    k2
                } else {
                    k2 + 1
                };
                assert(s2[k2] == s[ko]);
                assert(entry_at(s, ko, x, y));
                assert(false);
            }
        }
    }
}

/// Find the primary-table entry at a coordinate.
fn find_entry_index(entries: &Vec<ScheduledEntry>, target: u128, time: u128) -> (r: Option<usize>)
    ensures
        match r {
            Some(i) => entry_at(entries@, i as int, target, time),
            None => forall|j: int| !entry_at(entries@, j, target, time),
        },
{
    let n = entries.len();
    let mut k: usize = 0;
    while k < n
        invariant
            n == entries@.len(),
            k <= n,
            forall|j: int| 0 <= j < k ==> !entry_at(entries@, j, target, time),
        decreases n - k,
    {
        if entries[k].target == target && entries[k].time == time {
            return Some(k);
        }
        k = k + 1;
    }
    None
}

/// Find the first instruction carrying the tag of `kind`.
fn find_tag_index(v: &Vec<InstructionKind>, kind: &InstructionKind) -> (r: Option<usize>)
    ensures
        match r {
            Some(i) => 0 <= i < v@.len() && v@[i as int].spec_same_tag(*kind),
            None => !seq_has_tag(v@, *kind),
        },
{
    let n = v.len();
    let mut k: usize = 0;
    while k < n
        invariant
            n == v@.len(),
            k <= n,
            forall|j: int| 0 <= j < k ==> !(#[trigger] v@[j]).spec_same_tag(*kind),
        decreases n - k,
    {
        if v[k].same_tag(kind) {
            return Some(k);
        }
        k = k + 1;
    }
    None
}

/// Find the auxiliary-index cell at a coordinate.
fn find_cell_index(cells: &Vec<PendingCount>, a: u128, b: u128) -> (r: Option<usize>)
    ensures
        match r {
            Some(i) => cell_at(cells@, i as int, a, b),
            None => forall|j: int| !cell_at(cells@, j, a, b),
        },
{
    let n = cells.len();
    let mut k: usize = 0;
    while k < n
        invariant
            n == cells@.len(),
            k <= n,
            forall|j: int| 0 <= j < k ==> !cell_at(cells@, j, a, b),
        decreases n - k,
    {
        if cells[k].primary == a && cells[k].secondary == b {
            return Some(k);
        }
        k = k + 1;
    }
    None
}

/// The cell found at a coordinate is the one `count_of` speaks of.
pub proof fn lemma_count_at(s: Seq<PendingCount>, i: int, a: u128, b: u128)
    requires
        counts_wf(s),
        cell_at(s, i, a, b),
    ensures
        count_of(s, a, b) == s[i].count,
{
    let j = choose|j: int| cell_at(s, j, a, b);
    if i != j {
        assert(false);
    }
}

/// Replacing one cell by another at the same coordinate, with a
/// positive count, keeps an auxiliary index well formed.
proof fn lemma_counts_wf_update(s: Seq<PendingCount>, i: int, c: PendingCount)
    requires
        counts_wf(s),
        0 <= i < s.len(),
        c.primary == s[i].primary,
        c.secondary == s[i].secondary,
        c.count >= 1,
    ensures
        counts_wf(s.update(i, c)),
{
    let s2 = s.update(i, c);
    assert forall|k: int, l: int|
        #![trigger s2[k], s2[l]]
        0 <= k < s2.len() && 0 <= l < s2.len() && s2[k].primary == s2[l].primary
            && s2[k].secondary == s2[l].secondary implies k == l by {
        assert(s[k].primary == s2[k].primary && s[k].secondary == s2[k].secondary);
        assert(s[l].primary == s2[l].primary && s[l].secondary == s2[l].secondary);
    }
}

/// Appending a cell at a coordinate the index does not yet hold keeps
/// it well formed.
proof fn lemma_counts_wf_push(s: Seq<PendingCount>, c: PendingCount)
    requires
        counts_wf(s),
        forall|j: int| !cell_at(s, j, c.primary, c.secondary),
        c.count >= 1,
    ensures
        counts_wf(s.push(c)),
{
    let s2 = s.push(c);
    assert forall|k: int, l: int|
        #![trigger s2[k], s2[l]]
        0 <= k < s2.len() && 0 <= l < s2.len() && s2[k].primary == s2[l].primary
            && s2[k].secondary == s2[l].secondary implies k == l by {
        if k < s.len() && l < s.len() {
            assert(s2[k] == s[k]);
            assert(s2[l] == s[l]);
        } else if k < s.len() {
            assert(s2[k] == s[k]);
            assert(s2[l] == c);
            assert(cell_at(s, k, c.primary, c.secondary));
        } else if l < s.len() {
            assert(s2[l] == s[l]);
            assert(s2[k] == c);
            assert(cell_at(s, l, c.primary, c.secondary));
        }
    }
    assert forall|k: int| 0 <= k < s2.len() implies (#[trigger] s2[k]).count >= 1 by {
        if k < s.len() {
            assert(s2[k] == s[k]);
        } else {
            assert(s2[k] == c);
        }
    }
}

/// With only seven tags, a sequence of pairwise distinct tags holds at
/// most seven instructions.
proof fn lemma_tags_bound(s: Seq<InstructionKind>)
    requires
        distinct_tags(s),
    ensures
        s.len() <= 7,
{
    if s.len() >= 8 {
        assert(s[0].spec_tag() is Waveform || s[0].spec_tag() is Frequency || s[0].spec_tag() is Note
            || s[0].spec_tag() is State || s[0].spec_tag() is Vibrato
            || s[0].spec_tag() is VibratoSettings || s[0].spec_tag() is AdsrSettings);
        assert(!s[0].spec_same_tag(s[1]) && !s[0].spec_same_tag(s[2]) && !s[0].spec_same_tag(s[3])
            && !s[0].spec_same_tag(s[4]) && !s[0].spec_same_tag(s[5]) && !s[0].spec_same_tag(s[6])
            && !s[0].spec_same_tag(s[7]));
        assert(!s[1].spec_same_tag(s[2]) && !s[1].spec_same_tag(s[3]) && !s[1].spec_same_tag(s[4])
            && !s[1].spec_same_tag(s[5]) && !s[1].spec_same_tag(s[6]) && !s[1].spec_same_tag(s[7]));
        assert(!s[2].spec_same_tag(s[3]) && !s[2].spec_same_tag(s[4]) && !s[2].spec_same_tag(s[5])
            && !s[2].spec_same_tag(s[6]) && !s[2].spec_same_tag(s[7]));
        assert(!s[3].spec_same_tag(s[4]) && !s[3].spec_same_tag(s[5]) && !s[3].spec_same_tag(s[6])
            && !s[3].spec_same_tag(s[7]));
        assert(!s[4].spec_same_tag(s[5]) && !s[4].spec_same_tag(s[6]) && !s[4].spec_same_tag(s[7]));
        assert(!s[5].spec_same_tag(s[6]) && !s[5].spec_same_tag(s[7]));
        assert(!s[6].spec_same_tag(s[7]));
        assert(false);
    }
}

/// Two indices that hold the same cells for a coordinate hold the same
/// count there.
proof fn lemma_count_frame(s1: Seq<PendingCount>, s2: Seq<PendingCount>, x: u128, y: u128)
    requires
        counts_wf(s2),
        forall|k: int| cell_at(s1, k, x, y) <==> cell_at(s2, k, x, y),
        forall|k: int| cell_at(s1, k, x, y) ==> s1[k].count == s2[k].count,
    ensures
        count_of(s1, x, y) == count_of(s2, x, y),
{
    if exists|k: int| cell_at(s1, k, x, y) {
        let k1 = choose|k: int| cell_at(s1, k, x, y);
        let k2 = choose|k: int| cell_at(s2, k, x, y);
        assert(cell_at(s2, k1, x, y));
        if k1 != k2 {
            assert(false);
        }
    } else {
        assert(!exists|k: int| cell_at(s2, k, x, y));
    }
}

/// Removing a cell leaves every other coordinate's count alone.
proof fn lemma_count_remove_frame(s: Seq<PendingCount>, i: int, x: u128, y: u128)
    requires
        counts_wf(s),
        0 <= i < s.len(),
        !(s[i].primary == x && s[i].secondary == y),
    ensures
        count_of(s.remove(i), x, y) == count_of(s, x, y),
{
    let s2 = s.remove(i);
    if exists|k: int| cell_at(s, k, x, y) {
        let k1 = choose|k: int| cell_at(s, k, x, y);
        let k2 = if k1 < i {
            k1
        } else {
            k1 - 1
        };
        assert(s2[k2] == s[k1]);
        assert(cell_at(s2, k2, x, y));
        let kc = choose|k: int| cell_at(s2, k, x, y);
        let ko = if kc < i {
            kc
        } else {
            kc + 1
        };
        assert(s2[kc] == s[ko]);
        assert(cell_at(s, ko, x, y));
        if ko != k1 {
            assert(false);
        }
    } else {
        if exists|k: int| cell_at(s2, k, x, y) {
            let kc = choose|k: int| cell_at(s2, k, x, y);
            let ko = if kc < i {
                kc
            } else {
                kc + 1
            };
            assert(s2[kc] == s[ko]);
            assert(cell_at(s, ko, x, y));
            assert(false);
        }
    }
}

/// Raise the count a coordinate holds by one, creating the cell at one
/// if none is present; no other coordinate moves.
fn bump_count(cells: &mut Vec<PendingCount>, a: u128, b: u128)
    requires
        counts_wf(old(cells)@),
        count_of(old(cells)@, a, b) < usize::MAX,
    ensures
        counts_wf(final(cells)@),
        count_of(final(cells)@, a, b) == count_of(old(cells)@, a, b) + 1,
        forall|x: u128, y: u128|
            !(x == a && y == b) ==> count_of(final(cells)@, x, y) == count_of(old(cells)@, x, y),
{
    let ghost s1 = cells@;
    match find_cell_index(cells, a, b) {
        Some(i) => {
            let c = cells[i];
            proof {
                lemma_count_at(s1, i as int, a, b);
            }
            cells[i] = PendingCount { count: c.count + 1, ..c };
            proof {
                let s2 = cells@;
                assert(forall|k: int| 0 <= k < s1.len() && k != i ==> s2[k] == s1[k]);
                assert(s2[i as int].primary == a && s2[i as int].secondary == b);
                lemma_counts_wf_update(s1, i as int, PendingCount { count: (c.count + 1) as usize, ..c });
                assert(counts_wf(s2));
                lemma_count_at(s2, i as int, a, b);
                assert forall|x: u128, y: u128| !(x == a && y == b) implies count_of(s2, x, y)
                    == count_of(s1, x, y) by {
                    assert(forall|k: int| cell_at(s2, k, x, y) <==> cell_at(s1, k, x, y));
                    lemma_count_frame(s2, s1, x, y);
                }
            }
        },
        None => {
            cells.push(PendingCount { primary: a, secondary: b, count: 1 });
            proof {
                let s2 = cells@;
                lemma_counts_wf_push(s1, PendingCount { primary: a, secondary: b, count: 1 });
                assert(counts_wf(s2));
                assert(cell_at(s2, s1.len() as int, a, b));
                lemma_count_at(s2, s1.len() as int, a, b);
                assert(!exists|k: int| cell_at(s1, k, a, b));
                assert forall|x: u128, y: u128| !(x == a && y == b) implies count_of(s2, x, y)
                    == count_of(s1, x, y) by {
                    assert(forall|k: int| cell_at(s2, k, x, y) <==> cell_at(s1, k, x, y));
                    lemma_count_frame(s2, s1, x, y);
                }
            }
        },
    }
}

/// Lower the count a coordinate holds by one, deleting the cell as
/// soon as it reaches zero; no other coordinate moves.
fn drop_count(cells: &mut Vec<PendingCount>, a: u128, b: u128)
    requires
        counts_wf(old(cells)@),
        count_of(old(cells)@, a, b) >= 1,
    ensures
        counts_wf(final(cells)@),
        count_of(final(cells)@, a, b) == count_of(old(cells)@, a, b) - 1,
        forall|x: u128, y: u128|
            !(x == a && y == b) ==> count_of(final(cells)@, x, y) == count_of(old(cells)@, x, y),
{
    let ghost s1 = cells@;
    match find_cell_index(cells, a, b) {
        Some(i) => {
            let c = cells[i];
            proof {
                lemma_count_at(s1, i as int, a, b);
            }
            if c.count == 1 {
                cells.remove(i);
                proof {
                    let s2 = cells@;
                    assert(forall|k: int, l: int|
                        0 <= k < l < s2.len() ==> (s2[k] == if k < i as int {
                            s1[k]
                        } else {
                            s1[k + 1]
                        } && s2[l] == if l < i as int {
                            s1[l]
                        } else {
                            s1[l + 1]
                        }));
                    assert(counts_wf(s2));
                    if exists|k: int| cell_at(s2, k, a, b) {
                        let kc = choose|k: int| cell_at(s2, k, a, b);
                        let ko = if kc < i as int {
                            kc
                        } else {
                            kc + 1
                        };
                        assert(s2[kc] == s1[ko]);
                        assert(cell_at(s1, ko, a, b));
                        assert(false);
                    }
                    assert(count_of(s2, a, b) == 0);
                    assert forall|x: u128, y: u128| !(x == a && y == b) implies count_of(s2, x, y)
                        == count_of(s1, x, y) by {
                        lemma_count_remove_frame(s1, i as int, x, y);
                    }
                }
            } else {
                cells[i] = PendingCount { count: c.count - 1, ..c };
                proof {
                    let s2 = cells@;
                    assert(counts_wf(s2));
                    lemma_count_at(s2, i as int, a, b);
                    assert forall|x: u128, y: u128| !(x == a && y == b) implies count_of(s2, x, y)
                        == count_of(s1, x, y) by {
                        assert(forall|k: int| cell_at(s2, k, x, y) <==> cell_at(s1, k, x, y));
                        lemma_count_frame(s2, s1, x, y);
                    }
                }
            }
        },
        None => {
            proof {
                assert(false);
            }
        },
    }
}

/// One coordinate's pending set and both of its counts moved together
/// by `d`, everything else stood still: the indices stay consistent.
proof fn lemma_consistent_shift(
    h1: InstructionHandler,
    h2: InstructionHandler,
    target: u128,
    time: u128,
    d: int,
)
    requires
        h1.counts_consistent(),
        pending_of(h2.time_target_to_inst@, target, time).len() == pending_of(
            h1.time_target_to_inst@,
            target,
            time,
        ).len() + d,
        forall|x: u128, y: u128|
            !(x == target && y == time) ==> pending_of(h2.time_target_to_inst@, x, y)
                == pending_of(h1.time_target_to_inst@, x, y),
        count_of(h2.target_to_times@, target, time) == count_of(
            h1.target_to_times@,
            target,
            time,
        ) + d,
        count_of(h2.time_to_targets@, time, target) == count_of(
            h1.time_to_targets@,
            time,
            target,
        ) + d,
        forall|x: u128, y: u128|
            !(x == target && y == time) ==> count_of(h2.target_to_times@, x, y) == count_of(
                h1.target_to_times@,
                x,
                y,
            ),
        forall|x: u128, y: u128|
            !(x == time && y == target) ==> count_of(h2.time_to_targets@, x, y) == count_of(
                h1.time_to_targets@,
                x,
                y,
            ),
    ensures
        h2.counts_consistent(),
{
    assert forall|x: u128, y: u128|
        count_of(h2.target_to_times@, x, y) == (#[trigger] pending_of(
            h2.time_target_to_inst@,
            x,
            y,
        )).len() && count_of(h2.time_to_targets@, y, x) == pending_of(
            h2.time_target_to_inst@,
            x,
            y,
        ).len() by {
        assert(count_of(h1.target_to_times@, x, y) == pending_of(
            h1.time_target_to_inst@,
            x,
            y,
        ).len() && count_of(h1.time_to_targets@, y, x) == pending_of(
            h1.time_target_to_inst@,
            x,
            y,
        ).len());
        if x == target && y == time {
        } else {
            assert(pending_of(h2.time_target_to_inst@, x, y) == pending_of(
                h1.time_target_to_inst@,
                x,
                y,
            ));
            assert(count_of(h2.target_to_times@, x, y) == count_of(h1.target_to_times@, x, y));
            assert(count_of(h2.time_to_targets@, y, x) == count_of(h1.time_to_targets@, y, x));
        }
    }
}

impl InstructionHandler {
    /// Schedule an instruction at a coordinate. A fresh tag joins the
    /// pending set; a tag already pending there has its payload
    /// replaced — last write per parameter per time step, and the
    /// auxiliary counts are not touched on that path. No other
    /// coordinate moves.
    pub fn insert(&mut self, target: u128, time: u128, kind: InstructionKind)
        requires
            old(self).wf(),
        ensures
            final(self).wf(),
            final(self).pending(target, time) == spec_insert_seq(
                old(self).pending(target, time),
                kind,
            ),
            forall|x: u128, y: u128|
                !(x == target && y == time) ==> final(self).pending(x, y) == old(self).pending(
                    x,
                    y,
                ),
    {
        let ghost h1 = *self;
        let ghost s1 = self.time_target_to_inst@;
        match find_entry_index(&self.time_target_to_inst, target, time) {
            Some(i) => {
                proof {
                    lemma_pending_at(s1, i as int, target, time);
                }
                let mut entry = self.time_target_to_inst.remove(i);
                let ghost p1 = entry.instructions@;
                match find_tag_index(&entry.instructions, &kind) {
                    Some(j) => {
                        entry.instructions[j] = kind;
                        self.time_target_to_inst.push(entry);
                        proof {
                            lemma_tag_at(p1, j as int, kind);
                            lemma_pending_remove(s1, i as int);
                            lemma_pending_push_new(
                                s1.remove(i as int),
                                ScheduledEntry {
                                    target,
                                    time,
                                    instructions: self.time_target_to_inst@.last().instructions,
                                },
                            );
                            let s2 = self.time_target_to_inst@;
                            assert(pending_of(s2, target, time) == p1.update(j as int, kind));
                            assert forall|k: int, l: int|
                                #![trigger p1.update(j as int, kind)[k], p1.update(j as int, kind)[l]]
                                0 <= k < p1.len() && 0 <= l < p1.len() && k != l implies !p1.update(
                                j as int,
                                kind,
                            )[k].spec_same_tag(p1.update(j as int, kind)[l]) by {
                                assert(p1[k].spec_same_tag(p1.update(j as int, kind)[k]));
                                assert(p1[l].spec_same_tag(p1.update(j as int, kind)[l]));
                            }
                            assert(distinct_tags(pending_of(s2, target, time)));
                            lemma_consistent_shift(h1, *self, target, time, 0);
                        }
                    },
                    None => {
                        proof {
                            lemma_tags_bound(p1);
                        }
                        entry.instructions.push(kind);
                        self.time_target_to_inst.push(entry);
                        proof {
                            lemma_pending_remove(s1, i as int);
                            lemma_pending_push_new(
                                s1.remove(i as int),
                                ScheduledEntry {
                                    target,
                                    time,
                                    instructions: self.time_target_to_inst@.last().instructions,
                                },
                            );
                            let s2 = self.time_target_to_inst@;
                            assert(pending_of(s2, target, time) == p1.push(kind));
                            assert forall|k: int, l: int|
                                #![trigger p1.push(kind)[k], p1.push(kind)[l]]
                                0 <= k < p1.push(kind).len() && 0 <= l < p1.push(kind).len() && k
                                    != l implies !p1.push(kind)[k].spec_same_tag(
                                p1.push(kind)[l],
                            ) by {
                                if k < p1.len() && l < p1.len() {
                                    assert(p1.push(kind)[k] == p1[k]);
                                    assert(p1.push(kind)[l] == p1[l]);
                                } else if k < p1.len() {
                                    assert(p1.push(kind)[k] == p1[k]);
                                    assert(p1.push(kind)[l] == kind);
                                } else if l < p1.len() {
                                    assert(p1.push(kind)[l] == p1[l]);
                                    assert(p1.push(kind)[k] == kind);
                                }
                            }
                            assert(distinct_tags(pending_of(s2, target, time)));
                        }
                        bump_count(&mut self.target_to_times, target, time);
                        bump_count(&mut self.time_to_targets, time, target);
                        proof {
                            lemma_consistent_shift(h1, *self, target, time, 1);
                        }
                    },
                }
            },
            None => {
                proof {
                    assert(pending_of(s1, target, time) == Seq::<InstructionKind>::empty());
                }
                let mut instructions: Vec<InstructionKind> = Vec::new();
                instructions.push(kind);
                self.time_target_to_inst.push(ScheduledEntry { target, time, instructions });
                proof {
                    lemma_pending_push_new(
                        s1,
                        ScheduledEntry {
                            target,
                            time,
                            instructions: self.time_target_to_inst@.last().instructions,
                        },
                    );
                    let s2 = self.time_target_to_inst@;
                    assert(pending_of(s2, target, time) =~= pending_of(s1, target, time).push(
                        kind,
                    ));
                    assert(distinct_tags(pending_of(s2, target, time)));
                }
                bump_count(&mut self.target_to_times, target, time);
                bump_count(&mut self.time_to_targets, time, target);
                proof {
                    lemma_consistent_shift(h1, *self, target, time, 1);
                }
            },
        }
    }

    /// The instructions pending at a coordinate, in no significant
    /// order; empty when none are. Nothing is consumed.
    pub fn get(&self, target: u128, time: u128) -> (r: Vec<InstructionKind>)
        requires
            self.wf(),
        ensures
            r@ == self.pending(target, time),
    {
        match find_entry_index(&self.time_target_to_inst, target, time) {
            Some(i) => {
                proof {
                    lemma_pending_at(self.time_target_to_inst@, i as int, target, time);
                }
                let src = &self.time_target_to_inst[i].instructions;
                let n = src.len();
                let mut out: Vec<InstructionKind> = Vec::new();
                let mut k: usize = 0;
                while k < n
                    invariant
                        n == src@.len(),
                        k <= n,
                        out@ =~= src@.subrange(0, k as int),
                    decreases n - k,
                {
                    out.push(src[k]);
                    proof {
                        assert(out@ =~= src@.subrange(0, k as int + 1));
                    }
                    k = k + 1;
                }
                proof {
                    assert(out@ =~= src@);
                }
                out
            },
            None => Vec::new(),
        }
    }

    /// Whether an instruction of the same tag as `kind` is pending at
    /// the coordinate, whatever its payload.
    pub fn has_type(&self, target: u128, time: u128, kind: InstructionKind) -> (r: bool)
        requires
            self.wf(),
        ensures
            r == seq_has_tag(self.pending(target, time), kind),
    {
        match find_entry_index(&self.time_target_to_inst, target, time) {
            Some(i) => {
                proof {
                    lemma_pending_at(self.time_target_to_inst@, i as int, target, time);
                }
                match find_tag_index(&self.time_target_to_inst[i].instructions, &kind) {
                    Some(_) => true,
                    None => false,
                }
            },
            None => false,
        }
    }

    /// Whether this exact instruction — same tag and equal payload —
    /// is pending at the coordinate.
    pub fn has(&self, target: u128, time: u128, kind: InstructionKind) -> (r: bool)
        requires
            self.wf(),
        ensures
            r == self.pending(target, time).contains(kind),
    {
        match find_entry_index(&self.time_target_to_inst, target, time) {
            Some(i) => {
                proof {
                    lemma_pending_at(self.time_target_to_inst@, i as int, target, time);
                }
                match find_tag_index(&self.time_target_to_inst[i].instructions, &kind) {
                    Some(j) => {
                        let ghost p = self.time_target_to_inst@[i as int].instructions@;
                        let found = self.time_target_to_inst[i].instructions[j] == kind;
                        proof {
                            if found {
                                assert(p.contains(kind)) by {
                                    assert(p[j as int] == kind);
                                }
                            } else {
                                if p.contains(kind) {
                                    let m = choose|m: int| 0 <= m < p.len() && p[m] == kind;
                                    assert(p[m].spec_same_tag(kind));
                                    assert(m == j);
                                    assert(false);
                                }
                            }
                        }
                        found
                    },
                    None => {
                        proof {
                            let p = self.time_target_to_inst@[i as int].instructions@;
                            if p.contains(kind) {
                                let m = choose|m: int| 0 <= m < p.len() && p[m] == kind;
                                assert(p[m].spec_same_tag(kind));
                                assert(seq_has_tag(p, kind));
                            }
                        }
                        false
                    },
                }
            },
            None => false,
        }
    }

    /// Unschedule the instruction of this tag at the coordinate, if
    /// one is pending: it leaves whatever its payload, both auxiliary
    /// counts fall, and an empty entry or bucket vanishes entirely. No
    /// other coordinate moves.
    pub fn remove_type(&mut self, target: u128, time: u128, kind: InstructionKind)
        requires
            old(self).wf(),
        ensures
            final(self).wf(),
            final(self).pending(target, time) == spec_remove_tag_seq(
                old(self).pending(target, time),
                kind,
            ),
            forall|x: u128, y: u128|
                !(x == target && y == time) ==> final(self).pending(x, y) == old(self).pending(
                    x,
                    y,
                ),
    {
        let ghost h1 = *self;
        let ghost s1 = self.time_target_to_inst@;
        match find_entry_index(&self.time_target_to_inst, target, time) {
            Some(i) => {
                proof {
                    lemma_pending_at(s1, i as int, target, time);
                }
                let mut entry = self.time_target_to_inst.remove(i);
                let ghost p1 = entry.instructions@;
                match find_tag_index(&entry.instructions, &kind) {
                    Some(j) => {
                        proof {
                            lemma_tag_at(p1, j as int, kind);
                        }
                        entry.instructions.remove(j);
                        proof {
                            let p2 = entry.instructions@;
                            assert forall|k: int, l: int|
                                #![trigger p2[k], p2[l]]
                                0 <= k < p2.len() && 0 <= l < p2.len() && k != l implies !p2[k].spec_same_tag(
                                p2[l],
                            ) by {
                                let ko = if k < j as int {
                                    k
                                } else {
                                    k + 1
                                };
                                let lo = if l < j as int {
                                    l
                                } else {
                                    l + 1
                                };
                                assert(p2[k] == p1[ko]);
                                assert(p2[l] == p1[lo]);
                            }
                            assert(distinct_tags(entry.instructions@));
                        }
                        if entry.instructions.len() == 0 {
                            proof {
                                lemma_pending_remove(s1, i as int);
                                assert(pending_of(self.time_target_to_inst@, target, time) =~= p1.remove(
                                    j as int,
                                ));
                            }
                        } else {
                            self.time_target_to_inst.push(entry);
                            proof {
                                lemma_pending_remove(s1, i as int);
                                lemma_pending_push_new(
                                    s1.remove(i as int),
                                    ScheduledEntry {
                                        target,
                                        time,
                                        instructions: self.time_target_to_inst@.last().instructions,
                                    },
                                );
                                assert(pending_of(self.time_target_to_inst@, target, time)
                                    == p1.remove(j as int));
                            }
                        }
                        drop_count(&mut self.target_to_times, target, time);
                        drop_count(&mut self.time_to_targets, time, target);
                        proof {
                            lemma_consistent_shift(h1, *self, target, time, -1);
                        }
                    },
                    None => {
                        self.time_target_to_inst.push(entry);
                        proof {
                            lemma_pending_remove(s1, i as int);
                            lemma_pending_push_new(
                                s1.remove(i as int),
                                ScheduledEntry {
                                    target,
                                    time,
                                    instructions: self.time_target_to_inst@.last().instructions,
                                },
                            );
                            assert(pending_of(self.time_target_to_inst@, target, time) == p1);
                            lemma_consistent_shift(h1, *self, target, time, 0);
                        }
                    },
                }
            },
            None => {
            },
        }
    }
}

} // verus!

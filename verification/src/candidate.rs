//! The candidate classifier.
//!
//! A segment is worth scanning if it is not empty, lies within the file and
//! is no larger than 20 MiB. The segments that pass are kept in two groups,
//! each in table order: those of the reserved type, which are tried first,
//! and all others.

use vstd::prelude::*;
use crate::program_header::ProgramHeaderEntry;

verus! {

/// No segment larger than this is buffered and scanned: 20 MiB.
pub const MAX_SEGMENT_SIZE: u64 = 0x140_0000;

/// The type tag of a reserved, otherwise unused segment.
pub const PT_NULL: u32 = 0;

/// The group that a candidate is scanned with.
#[derive(Clone, Copy, Debug, PartialEq, Eq, Structural)]
pub enum PriorityTier {
    /// Reserved-type segments; scanned first.
    Reserved,
    /// Segments of any other type; scanned when no reserved one matched.
    Other,
}

/// A segment that passed the bounds and size filter.
#[derive(Clone, Copy, Debug, PartialEq, Eq)]
pub struct SegmentCandidate {
    pub offset: u64,
    pub size: u64,
    /// Ordinal position of the segment's record in the table.
    pub index: usize,
    pub tier: PriorityTier,
}

impl SegmentCandidate {
    /// The invariant of a candidate: it is not empty and within the cap.
    pub open spec fn wf(&self) -> bool {
        0 < self.size <= MAX_SEGMENT_SIZE
    }

    /// The candidate lies within a file of `file_len` bytes.
    pub open spec fn within(&self, file_len: int) -> bool {
        self.offset + self.size <= file_len
    }
}

/// Why a segment was skipped. Neither is fatal.
#[derive(Clone, Copy, Debug, PartialEq, Eq)]
pub enum BoundsWarning {
    SegmentExceedsFile,
    SegmentTooLarge,
}

/// A skipped segment, for the caller to report.
#[derive(Clone, Copy, Debug, PartialEq, Eq)]
pub struct SegmentWarning {
    pub index: usize,
    pub size: u64,
    pub kind: BoundsWarning,
}

/// What the classifier makes of one segment.
#[derive(Clone, Copy, Debug, PartialEq, Eq)]
pub enum SegmentClass {
    /// Nothing to scan; dropped without a warning.
    Empty,
    /// Dropped with a warning.
    Rejected(BoundsWarning),
    /// Kept for scanning.
    Candidate(SegmentCandidate),
}

/// The tier of a segment with type tag `p_type`.
pub open spec fn tier_of(p_type: u32) -> PriorityTier {
    if p_type == PT_NULL {
        PriorityTier::Reserved
    } else {
        PriorityTier::Other
    }
}

/// The verdict on one segment of a file of `file_len` bytes. The bounds
/// check comes before the size check.
pub open spec fn classify(entry: ProgramHeaderEntry, file_len: u64) -> SegmentClass {
    if entry.file_size == 0 {
        SegmentClass::Empty
    } else if entry.offset + entry.file_size > file_len {
        SegmentClass::Rejected(BoundsWarning::SegmentExceedsFile)
    } else if entry.file_size > MAX_SEGMENT_SIZE {
        SegmentClass::Rejected(BoundsWarning::SegmentTooLarge)
    } else {
        SegmentClass::Candidate(
            SegmentCandidate {
                offset: entry.offset,
                size: entry.file_size,
                index: entry.index,
                tier: tier_of(entry.p_type),
            },
        )
    }
}

/// `entry` is kept as a candidate of `tier`.
pub open spec fn admitted(entry: ProgramHeaderEntry, file_len: u64, tier: PriorityTier) -> bool {
    classify(entry, file_len) matches SegmentClass::Candidate(c) && c.tier == tier
}

/// Classifies one segment of a file of `file_len` bytes.
pub fn classify_segment(entry: &ProgramHeaderEntry, file_len: u64) -> (r: SegmentClass)
    ensures
        r == classify(*entry, file_len),
        r matches SegmentClass::Candidate(c) ==> c.wf() && c.within(file_len as int),
{
    if entry.file_size == 0 {
        return SegmentClass::Empty;
    }
    if entry.file_size > file_len || entry.offset > file_len - entry.file_size {
        return SegmentClass::Rejected(BoundsWarning::SegmentExceedsFile);
    }
    if entry.file_size > MAX_SEGMENT_SIZE {
        return SegmentClass::Rejected(BoundsWarning::SegmentTooLarge);
    }
    let tier = if entry.p_type == PT_NULL {
        PriorityTier::Reserved
    } else {
        PriorityTier::Other
    };
    SegmentClass::Candidate(
        SegmentCandidate { offset: entry.offset, size: entry.file_size, index: entry.index, tier },
    )
}

/// The candidates of `tier` among `entries`, in table order.
pub open spec fn group_of(entries: Seq<ProgramHeaderEntry>, file_len: u64, tier: PriorityTier) -> Seq<
    SegmentCandidate,
>
    decreases entries.len(),
{
    if entries.len() == 0 {
        Seq::empty()
    } else {
        let before = group_of(entries.drop_last(), file_len, tier);
        match classify(entries.last(), file_len) {
            SegmentClass::Candidate(c) => if c.tier == tier {
                before.push(c)
            } else {
                before
            },
            _ => before,
        }
    }
}

/// The positions in `entries` of the candidates of `tier`, ascending.
pub open spec fn positions_of(
    entries: Seq<ProgramHeaderEntry>,
    file_len: u64,
    tier: PriorityTier,
) -> Seq<int>
    decreases entries.len(),
{
    if entries.len() == 0 {
        Seq::empty()
    } else {
        let before = positions_of(entries.drop_last(), file_len, tier);
        if admitted(entries.last(), file_len, tier) {
            before.push(entries.len() - 1)
        } else {
            before
        }
    }
}

/// The warnings that `entries` give rise to, in table order.
pub open spec fn warnings_of(entries: Seq<ProgramHeaderEntry>, file_len: u64) -> Seq<
    SegmentWarning,
>
    decreases entries.len(),
{
    if entries.len() == 0 {
        Seq::empty()
    } else {
        let before = warnings_of(entries.drop_last(), file_len);
        match classify(entries.last(), file_len) {
            SegmentClass::Rejected(kind) => before.push(
                SegmentWarning { index: entries.last().index, size: entries.last().file_size, kind },
            ),
            _ => before,
        }
    }
}

/// The candidates of a file, partitioned for scanning.
#[derive(Debug, PartialEq, Eq)]
pub struct CandidateGroups {
    /// Reserved-type candidates, in table order.
    pub priority: Vec<SegmentCandidate>,
    /// All other candidates, in table order.
    pub fallback: Vec<SegmentCandidate>,
    /// The segments that were skipped with a warning, in table order.
    pub warnings: Vec<SegmentWarning>,
}

impl CandidateGroups {
    /// These are the groups and warnings of `entries` in a file of
    /// `file_len` bytes.
    pub open spec fn classifies(&self, entries: Seq<ProgramHeaderEntry>, file_len: u64) -> bool {
        &&& self.priority@ == group_of(entries, file_len, PriorityTier::Reserved)
        &&& self.fallback@ == group_of(entries, file_len, PriorityTier::Other)
        &&& self.warnings@ == warnings_of(entries, file_len)
    }

    /// Every candidate is well formed, sits in the group of its tier and
    /// lies within a file of `file_len` bytes.
    pub open spec fn wf(&self, file_len: int) -> bool {
        &&& forall|j: int|
            0 <= j < self.priority@.len() ==> {
                &&& (#[trigger] self.priority@[j]).wf()
                &&& self.priority@[j].within(file_len)
                &&& self.priority@[j].tier == PriorityTier::Reserved
            }
        &&& forall|j: int|
            0 <= j < self.fallback@.len() ==> {
                &&& (#[trigger] self.fallback@[j]).wf()
                &&& self.fallback@[j].within(file_len)
                &&& self.fallback@[j].tier == PriorityTier::Other
            }
    }

    /// The order in which the candidates are scanned: the priority group,
    /// then the fallback group.
    pub open spec fn scan_order(&self) -> Seq<SegmentCandidate> {
        self.priority@ + self.fallback@
    }

    /// The groups of an empty table.
    pub fn new() -> (r: CandidateGroups)
        ensures
            r.priority@.len() == 0,
            r.fallback@.len() == 0,
            r.warnings@.len() == 0,
            forall|file_len: u64| #[trigger] r.classifies(Seq::empty(), file_len),
            forall|file_len: int| #[trigger] r.wf(file_len),
    {
        CandidateGroups { priority: Vec::new(), fallback: Vec::new(), warnings: Vec::new() }
    }

    /// Classifies the next segment of the table and files it: a candidate
    /// goes to the end of its group, a rejected segment to the warnings, an
    /// empty one nowhere.
    pub fn consider(&mut self, entry: &ProgramHeaderEntry, file_len: u64) -> (r: SegmentClass)
        ensures
            r == classify(*entry, file_len),
            final(self).priority@ == if admitted(*entry, file_len, PriorityTier::Reserved) {
                old(self).priority@.push(r->Candidate_0)
            } else {
                old(self).priority@
            },
            final(self).fallback@ == if admitted(*entry, file_len, PriorityTier::Other) {
                old(self).fallback@.push(r->Candidate_0)
            } else {
                old(self).fallback@
            },
            final(self).warnings@ == if r is Rejected {
                old(self).warnings@.push(
                    SegmentWarning { index: entry.index, size: entry.file_size, kind: r->Rejected_0 },
                )
            } else {
                old(self).warnings@
            },
            old(self).wf(file_len as int) ==> final(self).wf(file_len as int),
            forall|entries: Seq<ProgramHeaderEntry>|
                old(self).classifies(entries, file_len) ==> #[trigger] final(self).classifies(
                    entries.push(*entry),
                    file_len,
                ),
    {
        let class = classify_segment(entry, file_len);
        match class {
            SegmentClass::Empty => {},
            SegmentClass::Rejected(kind) => {
                self.warnings.push(
                    SegmentWarning { index: entry.index, size: entry.file_size, kind },
                );
            },
            SegmentClass::Candidate(c) => {
                match c.tier {
                    PriorityTier::Reserved => {
                        self.priority.push(c);
                    },
                    PriorityTier::Other => {
                        self.fallback.push(c);
                    },
                }
            },
        }
        proof {
            assert forall|entries: Seq<ProgramHeaderEntry>|
                old(self).classifies(entries, file_len) implies #[trigger] self.classifies(
                entries.push(*entry),
                file_len,
            ) by {
                let longer = entries.push(*entry);
                assert(longer.drop_last() =~= entries);
                assert(longer.last() == *entry);
            }
        }
        class
    }
}

/// Filters and partitions the segments of a file of `file_len` bytes.
pub fn classify_entries(entries: &[ProgramHeaderEntry], file_len: u64) -> (r: CandidateGroups)
    ensures
        r.classifies(entries@, file_len),
        r.wf(file_len as int),
{
    let mut groups = CandidateGroups::new();
    let mut i: usize = 0;
    assert(entries@.take(0) =~= Seq::empty());
    while i < entries.len()
        invariant
            i <= entries.len(),
            groups.classifies(entries@.take(i as int), file_len),
            groups.wf(file_len as int),
        decreases entries.len() - i,
    {
        let ghost seen = entries@.take(i as int);
        groups.consider(&entries[i], file_len);
        assert(seen.push(entries@[i as int]) =~= entries@.take(i + 1));
        i += 1;
    }
    assert(entries@.take(i as int) =~= entries@);
    groups
}

/// The groups are an ordered selection of the table: `positions_of` is
/// strictly ascending, names exactly the records that are admitted to the
/// tier, and the group holds their candidates in the same order.
pub proof fn lemma_group_is_ordered_selection(
    entries: Seq<ProgramHeaderEntry>,
    file_len: u64,
    tier: PriorityTier,
)
    ensures
        group_of(entries, file_len, tier).len() == positions_of(entries, file_len, tier).len(),
        forall|j: int|
            0 <= j < positions_of(entries, file_len, tier).len() ==> {
                let p = #[trigger] positions_of(entries, file_len, tier)[j];
                &&& 0 <= p < entries.len()
                &&& admitted(entries[p], file_len, tier)
                &&& classify(entries[p], file_len) == SegmentClass::Candidate(
                    group_of(entries, file_len, tier)[j],
                )
            },
        forall|j: int, k: int|
            0 <= j < k < positions_of(entries, file_len, tier).len() ==> positions_of(
                entries,
                file_len,
                tier,
            )[j] < positions_of(entries, file_len, tier)[k],
        forall|p: int|
            0 <= p < entries.len() && admitted(#[trigger] entries[p], file_len, tier)
                ==> positions_of(entries, file_len, tier).contains(p),
    decreases entries.len(),
{
    if entries.len() > 0 {
        let shorter = entries.drop_last();
        lemma_group_is_ordered_selection(shorter, file_len, tier);
        let positions = positions_of(entries, file_len, tier);
        let before = positions_of(shorter, file_len, tier);
        assert forall|p: int|
            0 <= p < entries.len() && admitted(
                #[trigger] entries[p],
                file_len,
                tier,
            ) implies positions.contains(p) by {
            if p < entries.len() - 1 {
                assert(shorter[p] == entries[p]);
                assert(before.contains(p));
                let j = choose|j: int| 0 <= j < before.len() && before[j] == p;
                assert(positions[j] == p);
            } else {
                assert(positions.last() == p);
            }
        }
    }
}

/// Every candidate in a group is well formed, of the group's tier, and
/// within the file.
pub proof fn lemma_group_members_wf(
    entries: Seq<ProgramHeaderEntry>,
    file_len: u64,
    tier: PriorityTier,
    j: int,
)
    requires
        0 <= j < group_of(entries, file_len, tier).len(),
    ensures
        group_of(entries, file_len, tier)[j].wf(),
        group_of(entries, file_len, tier)[j].within(file_len as int),
        group_of(entries, file_len, tier)[j].tier == tier,
{
    lemma_group_is_ordered_selection(entries, file_len, tier);
    let p = positions_of(entries, file_len, tier)[j];
    assert(admitted(entries[p], file_len, tier));
}

/// A segment that is not admitted to a tier leaves that tier's group as it
/// would be without the segment: the scan goes on with the others. This
/// holds of an empty segment, of one that exceeds the file, and of one
/// larger than 20 MiB.
pub proof fn lemma_skipped_segment_ignored(
    entries: Seq<ProgramHeaderEntry>,
    file_len: u64,
    tier: PriorityTier,
    k: int,
)
    requires
        0 <= k < entries.len(),
        !admitted(entries[k], file_len, tier),
    ensures
        group_of(entries, file_len, tier) == group_of(entries.remove(k), file_len, tier),
    decreases entries.len(),
{
    if k == entries.len() - 1 {
        assert(entries.remove(k) =~= entries.drop_last());
    } else {
        lemma_skipped_segment_ignored(entries.drop_last(), file_len, tier, k);
        assert(entries.remove(k).drop_last() =~= entries.drop_last().remove(k));
        assert(entries.remove(k).last() == entries.last());
    }
}

/// Every rejected segment is among the warnings, with its ordinal, its
/// size and the reason.
pub proof fn lemma_rejected_segment_warned(
    entries: Seq<ProgramHeaderEntry>,
    file_len: u64,
    k: int,
)
    requires
        0 <= k < entries.len(),
        classify(entries[k], file_len) is Rejected,
    ensures
        warnings_of(entries, file_len).contains(
            SegmentWarning {
                index: entries[k].index,
                size: entries[k].file_size,
                kind: classify(entries[k], file_len)->Rejected_0,
            },
        ),
    decreases entries.len(),
{
    let warnings = warnings_of(entries, file_len);
    if k == entries.len() - 1 {
        assert(warnings.last() == SegmentWarning {
            index: entries[k].index,
            size: entries[k].file_size,
            kind: classify(entries[k], file_len)->Rejected_0,
        });
    } else {
        let shorter = entries.drop_last();
        lemma_rejected_segment_warned(shorter, file_len, k);
        let before = warnings_of(shorter, file_len);
        let w = SegmentWarning {
            index: entries[k].index,
            size: entries[k].file_size,
            kind: classify(entries[k], file_len)->Rejected_0,
        };
        let j = choose|j: int| 0 <= j < before.len() && before[j] == w;
        assert(warnings[j] == w);
    }
}

/// A segment larger than 20 MiB is never a candidate: it is rejected with
/// a warning, as too large or, where it also runs past the end of the file,
/// as exceeding the file.
pub proof fn lemma_oversized_segment_rejected(entry: ProgramHeaderEntry, file_len: u64)
    requires
        entry.file_size > MAX_SEGMENT_SIZE,
    ensures
        classify(entry, file_len) is Rejected,
        entry.offset + entry.file_size <= file_len ==> classify(entry, file_len)
            == SegmentClass::Rejected(BoundsWarning::SegmentTooLarge),
        !admitted(entry, file_len, PriorityTier::Reserved),
        !admitted(entry, file_len, PriorityTier::Other),
{
}

} // verus!

//! The scan over the candidate segments, as a state machine.
//!
//! The candidates are visited in a fixed order: the priority group in table
//! order, then the fallback group in table order. Each segment is loaded by
//! the caller and fed to the machine, which runs the header scanner and the
//! metadata extractor on it. The first segment that yields a version triple
//! ends the scan; a segment that yields none moves it on to the next.

use vstd::prelude::*;
use vstd::slice::slice_subrange;
use crate::candidate::{CandidateGroups, SegmentCandidate};
use crate::metadata::{segment_metadata, try_extract_hash_info, HashInfo};

verus! {

/// Where the scan stands.
#[derive(Clone, Copy, Debug, PartialEq, Eq)]
pub enum ScanState {
    /// Nothing was asked for yet.
    Unscanned,
    /// The priority candidate with this position in its group is awaited.
    ScanningPriorityGroup(usize),
    /// The fallback candidate with this position in its group is awaited.
    ScanningFallbackGroup(usize),
    /// A segment yielded a version triple. Terminal.
    Matched(HashInfo),
    /// Every candidate of both groups was tried in vain. Terminal.
    Exhausted,
}

/// What the caller has to do next.
#[derive(Clone, Copy, Debug, PartialEq, Eq)]
pub enum ScanAction {
    /// Load this segment in full and feed it.
    Load(SegmentCandidate),
    /// The scan succeeded with this result.
    Report(HashInfo),
    /// The scan failed: no candidate is left.
    GiveUp,
}

/// No segment holds a header that leads to a sane version triple.
#[derive(Clone, Copy, Debug, PartialEq, Eq)]
pub enum NotFoundError {
    NoValidHashSegment,
}

/// The state that awaits the candidate at position `n` of the scan order,
/// or `Exhausted` where the order has no such position.
pub open spec fn state_at(groups: CandidateGroups, n: int) -> ScanState {
    if 0 <= n < groups.priority@.len() {
        ScanState::ScanningPriorityGroup(n as usize)
    } else if groups.priority@.len() <= n < groups.scan_order().len() {
        ScanState::ScanningFallbackGroup((n - groups.priority@.len()) as usize)
    } else {
        ScanState::Exhausted
    }
}

/// The position in the scan order of the candidate that `state` awaits.
pub open spec fn position(groups: CandidateGroups, state: ScanState) -> Option<int> {
    match state {
        ScanState::ScanningPriorityGroup(i) => if i < groups.priority@.len() {
            Some(i as int)
        } else {
            None
        },
        ScanState::ScanningFallbackGroup(i) => if i < groups.fallback@.len() {
            Some(groups.priority@.len() + i)
        } else {
            None
        },
        _ => None,
    }
}

/// A scanning state names a candidate that its group holds.
pub open spec fn state_wf(groups: CandidateGroups, state: ScanState) -> bool {
    match state {
        ScanState::ScanningPriorityGroup(i) => i < groups.priority@.len(),
        ScanState::ScanningFallbackGroup(i) => i < groups.fallback@.len(),
        _ => true,
    }
}

/// The state after a segment with contents `seg` was fed in `state`.
///
/// A scanning state takes `seg` for the candidate it awaits: a version
/// triple ends the scan, none moves it to the next position. Before the
/// start no segment was asked for, so `seg` is ignored and the scan starts.
/// A terminal state stays as it is.
pub open spec fn next_state(groups: CandidateGroups, state: ScanState, seg: Seq<u8>) -> ScanState {
    match state {
        ScanState::Unscanned => state_at(groups, 0),
        ScanState::Matched(_) | ScanState::Exhausted => state,
        _ => match position(groups, state) {
            Some(n) => match segment_metadata(seg, groups.scan_order()[n].offset) {
                Some(info) => ScanState::Matched(info),
                None => state_at(groups, n + 1),
            },
            None => ScanState::Exhausted,
        },
    }
}

/// The state after the start was asked for in `state`.
pub open spec fn started_state(groups: CandidateGroups, state: ScanState) -> ScanState {
    match state {
        ScanState::Unscanned => state_at(groups, 0),
        _ => state,
    }
}

/// What a started scan in `state` asks of the caller.
pub open spec fn action_of(groups: CandidateGroups, state: ScanState) -> ScanAction {
    match state {
        ScanState::Matched(info) => ScanAction::Report(info),
        _ => match position(groups, state) {
            Some(n) => ScanAction::Load(groups.scan_order()[n]),
            None => ScanAction::GiveUp,
        },
    }
}

/// The scan over the candidates of one file.
pub struct Scanner<'a> {
    groups: &'a CandidateGroups,
    state: ScanState,
}

impl<'a> Scanner<'a> {
    #[verifier::type_invariant]
    spec fn inv(self) -> bool {
        state_wf(*self.groups, self.state)
    }

    /// The candidates that are scanned.
    pub closed spec fn groups(&self) -> CandidateGroups {
        *self.groups
    }

    /// Where the scan stands.
    pub closed spec fn state(&self) -> ScanState {
        self.state
    }

    /// A scan of `groups` that has not started.
    pub fn new(groups: &'a CandidateGroups) -> (r: Scanner<'a>)
        ensures
            r.groups() == *groups,
            r.state() == ScanState::Unscanned,
    {
        Scanner { groups, state: ScanState::Unscanned }
    }

    /// Where the scan stands.
    pub fn current(&self) -> (r: ScanState)
        ensures
            r == self.state(),
            state_wf(self.groups(), r),
    {
        proof {
            use_type_invariant(self);
        }
        self.state
    }

    fn first_fallback(&self) -> (r: ScanState)
        ensures
            r == state_at(self.groups(), self.groups().priority@.len() as int),
            state_wf(self.groups(), r),
    {
        if self.groups.fallback.len() > 0 {
            ScanState::ScanningFallbackGroup(0)
        } else {
            ScanState::Exhausted
        }
    }

    fn first_position(&self) -> (r: ScanState)
        ensures
            r == state_at(self.groups(), 0),
            state_wf(self.groups(), r),
    {
        if self.groups.priority.len() > 0 {
            ScanState::ScanningPriorityGroup(0)
        } else {
            self.first_fallback()
        }
    }

    fn pending(&self) -> (action: ScanAction)
        ensures
            action == action_of(self.groups(), self.state()),
    {
        proof {
            use_type_invariant(self);
        }
        match self.state {
            ScanState::ScanningPriorityGroup(i) => ScanAction::Load(self.groups.priority[i]),
            ScanState::ScanningFallbackGroup(i) => ScanAction::Load(self.groups.fallback[i]),
            ScanState::Matched(info) => ScanAction::Report(info),
            _ => ScanAction::GiveUp,
        }
    }

    /// Starts the scan and says what to do first: load the first candidate
    /// of the priority group or, where that group is empty, of the fallback
    /// group; give up where both are empty. On a scan that has started
    /// already this only repeats what is asked for.
    pub fn start(&mut self) -> (action: ScanAction)
        ensures
            final(self).groups() == old(self).groups(),
            final(self).state() == started_state(old(self).groups(), old(self).state()),
            action == action_of(final(self).groups(), final(self).state()),
    {
        if let ScanState::Unscanned = self.state {
            self.state = self.first_position();
        }
        self.pending()
    }

    /// Takes the contents of the segment that was asked for, scans them,
    /// and says what to do next.
    pub fn feed(&mut self, seg: &[u8]) -> (action: ScanAction)
        ensures
            final(self).groups() == old(self).groups(),
            final(self).state() == next_state(old(self).groups(), old(self).state(), seg@),
            action == action_of(final(self).groups(), final(self).state()),
    {
        proof {
            use_type_invariant(&*self);
        }
        match self.state {
            ScanState::Unscanned => {
                self.state = self.first_position();
            },
            ScanState::ScanningPriorityGroup(i) => {
                let candidate = self.groups.priority[i];
                match try_extract_hash_info(seg, candidate.offset) {
                    Some(info) => {
                        self.state = ScanState::Matched(info);
                    },
                    None => {
                        if i < self.groups.priority.len() - 1 {
                            self.state = ScanState::ScanningPriorityGroup(i + 1);
                        } else {
                            self.state = self.first_fallback();
                        }
                    },
                }
            },
            ScanState::ScanningFallbackGroup(i) => {
                let candidate = self.groups.fallback[i];
                match try_extract_hash_info(seg, candidate.offset) {
                    Some(info) => {
                        self.state = ScanState::Matched(info);
                    },
                    None => {
                        if i < self.groups.fallback.len() - 1 {
                            self.state = ScanState::ScanningFallbackGroup(i + 1);
                        } else {
                            self.state = ScanState::Exhausted;
                        }
                    },
                }
            },
            ScanState::Matched(_) => {},
            ScanState::Exhausted => {},
        }
        self.pending()
    }
}

/// The bytes of `image` that candidate `c` covers.
pub open spec fn segment_bytes(image: Seq<u8>, c: SegmentCandidate) -> Seq<u8> {
    image.subrange(c.offset as int, c.offset + c.size)
}

/// What the candidate at position `n` of `order` yields in `image`.
pub open spec fn match_at(order: Seq<SegmentCandidate>, image: Seq<u8>, n: int) -> Option<
    HashInfo,
> {
    segment_metadata(segment_bytes(image, order[n]), order[n].offset)
}

/// No candidate before position `n` of `order` yields a version triple.
pub open spec fn no_match_before(order: Seq<SegmentCandidate>, image: Seq<u8>, n: int) -> bool {
    forall|j: int| 0 <= j < n && j < order.len() ==> #[trigger] match_at(order, image, j) is None
}

/// The first version triple that the candidates from position `n` on
/// yield, visited in order.
pub open spec fn first_match_from(order: Seq<SegmentCandidate>, image: Seq<u8>, n: int) -> Option<
    HashInfo,
>
    decreases order.len() - n,
{
    if n < 0 || n >= order.len() {
        None
    } else {
        match match_at(order, image, n) {
            Some(info) => Some(info),
            None => first_match_from(order, image, n + 1),
        }
    }
}

/// The result of scanning `image` for the candidates in `order`.
pub open spec fn scan_result(order: Seq<SegmentCandidate>, image: Seq<u8>) -> Result<
    HashInfo,
    NotFoundError,
> {
    match first_match_from(order, image, 0) {
        Some(info) => Ok(info),
        None => Err(NotFoundError::NoValidHashSegment),
    }
}

/// The contents that a faithful caller feeds in `state`: the bytes of the
/// candidate that is awaited.
pub open spec fn loaded_for(groups: CandidateGroups, image: Seq<u8>, state: ScanState) -> Seq<u8> {
    match position(groups, state) {
        Some(n) => segment_bytes(image, groups.scan_order()[n]),
        None => Seq::empty(),
    }
}

/// Where a scan of `image` stands after it was started and `steps`
/// segments were fed, each the one that was asked for.
pub open spec fn state_after(groups: CandidateGroups, image: Seq<u8>, steps: nat) -> ScanState
    decreases steps,
{
    if steps == 0 {
        state_at(groups, 0)
    } else {
        let before = state_after(groups, image, (steps - 1) as nat);
        next_state(groups, before, loaded_for(groups, image, before))
    }
}

/// How many segments a scan in `state` may still ask for.
pub open spec fn remaining(groups: CandidateGroups, state: ScanState) -> int {
    match position(groups, state) {
        Some(n) => groups.scan_order().len() - n,
        None => 0,
    }
}

/// Skipping candidates that yield nothing does not change the first match.
pub proof fn lemma_first_match_skips(order: Seq<SegmentCandidate>, image: Seq<u8>, n: int)
    requires
        0 <= n <= order.len(),
        no_match_before(order, image, n),
    ensures
        first_match_from(order, image, 0) == first_match_from(order, image, n),
    decreases n,
{
    if n > 0 {
        lemma_first_match_skips(order, image, n - 1);
        assert(match_at(order, image, n - 1) is None);
    }
}

/// The first match is the triple of the first candidate that yields one.
pub proof fn lemma_first_match_is(order: Seq<SegmentCandidate>, image: Seq<u8>, m: int)
    requires
        0 <= m < order.len(),
        no_match_before(order, image, m),
        match_at(order, image, m) is Some,
    ensures
        first_match_from(order, image, 0) == match_at(order, image, m),
{
    lemma_first_match_skips(order, image, m);
}

/// Where no candidate yields a triple, there is no first match.
pub proof fn lemma_first_match_none(order: Seq<SegmentCandidate>, image: Seq<u8>)
    requires
        no_match_before(order, image, order.len() as int),
    ensures
        first_match_from(order, image, 0) == None::<HashInfo>,
{
    lemma_first_match_skips(order, image, order.len() as int);
}

/// What every reachable state says about the segments fed so far.
///
/// A scan never returns to `Unscanned`. While it awaits a candidate, one
/// segment was fed for every earlier position and none yielded a triple.
/// `Matched` holds the triple of the first candidate that yields one.
/// `Exhausted` is reached only after every candidate yielded nothing.
pub proof fn lemma_state_after(groups: CandidateGroups, image: Seq<u8>, steps: nat)
    ensures
        state_wf(groups, state_after(groups, image, steps)),
        match state_after(groups, image, steps) {
            ScanState::Unscanned => false,
            ScanState::Matched(info) => exists|m: int|
                0 <= m < steps && m < groups.scan_order().len() && no_match_before(
                    groups.scan_order(),
                    image,
                    m,
                ) && #[trigger] match_at(groups.scan_order(), image, m) == Some(info),
            ScanState::Exhausted => steps >= groups.scan_order().len() && no_match_before(
                groups.scan_order(),
                image,
                groups.scan_order().len() as int,
            ),
            _ => position(groups, state_after(groups, image, steps)) == Some(steps as int)
                && no_match_before(groups.scan_order(), image, steps as int),
        },
    decreases steps,
{
    let order = groups.scan_order();
    assert(groups.priority@.len() == groups.priority.len());
    assert(groups.fallback@.len() == groups.fallback.len());
    if steps > 0 {
        let before = state_after(groups, image, (steps - 1) as nat);
        lemma_state_after(groups, image, (steps - 1) as nat);
        match before {
            ScanState::Matched(info) => {
                // The witness of the earlier state still serves.
                let m = choose|m: int|
                    0 <= m < steps - 1 && m < order.len() && no_match_before(order, image, m)
                        && #[trigger] match_at(order, image, m) == Some(info);
                assert(match_at(order, image, m) == Some(info));
            },
            ScanState::Exhausted | ScanState::Unscanned => {},
            _ => {
                // The candidate at position `steps - 1` was fed: either it
                // is the first to match, or nothing matched up to `steps`.
                let n = steps - 1;
                assert(position(groups, before) == Some(n));
                if match_at(order, image, n) is None {
                    assert(no_match_before(order, image, n + 1));
                }
            },
        }
    }
}

/// Group ordering: a candidate of the fallback group is asked for only
/// after every candidate of the priority group was fed and yielded nothing.
pub proof fn lemma_fallback_only_after_priority(
    groups: CandidateGroups,
    image: Seq<u8>,
    steps: nat,
    k: usize,
)
    requires
        state_after(groups, image, steps) == ScanState::ScanningFallbackGroup(k),
    ensures
        steps == groups.priority@.len() + k,
        forall|j: int|
            0 <= j < groups.priority@.len() ==> #[trigger] match_at(groups.priority@, image, j)
                is None,
{
    lemma_state_after(groups, image, steps);
    let order = groups.scan_order();
    assert forall|j: int| 0 <= j < groups.priority@.len() implies #[trigger] match_at(
        groups.priority@,
        image,
        j,
    ) is None by {
        assert(order[j] == groups.priority@[j]);
        assert(match_at(order, image, j) is None);
    }
}

/// First match wins: where some candidate of the priority group yields a
/// triple, the result is the first such triple, whatever the fallback group
/// holds.
pub proof fn lemma_priority_match_wins(
    priority: Seq<SegmentCandidate>,
    fallback: Seq<SegmentCandidate>,
    image: Seq<u8>,
    n: int,
)
    requires
        0 <= n <= priority.len(),
        first_match_from(priority, image, n) is Some,
    ensures
        first_match_from(priority + fallback, image, n) == first_match_from(priority, image, n),
    decreases priority.len() - n,
{
    let order = priority + fallback;
    if n < priority.len() {
        assert(order[n] == priority[n]);
        if match_at(priority, image, n) is None {
            lemma_priority_match_wins(priority, fallback, image, n + 1);
        }
    }
}

/// Behind the priority group, the scan order is the fallback group.
pub proof fn lemma_first_match_shift(
    priority: Seq<SegmentCandidate>,
    fallback: Seq<SegmentCandidate>,
    image: Seq<u8>,
    i: int,
)
    requires
        0 <= i <= fallback.len(),
    ensures
        first_match_from(priority + fallback, image, priority.len() + i) == first_match_from(
            fallback,
            image,
            i,
        ),
    decreases fallback.len() - i,
{
    if i < fallback.len() {
        assert((priority + fallback)[priority.len() + i] == fallback[i]);
        lemma_first_match_shift(priority, fallback, image, i + 1);
    }
}

/// Where no candidate of the priority group yields a triple, the result is
/// that of the fallback group alone.
pub proof fn lemma_fallback_after_priority(
    priority: Seq<SegmentCandidate>,
    fallback: Seq<SegmentCandidate>,
    image: Seq<u8>,
)
    requires
        first_match_from(priority, image, 0) is None,
    ensures
        first_match_from(priority + fallback, image, 0) == first_match_from(fallback, image, 0),
{
    let order = priority + fallback;
    assert forall|j: int| 0 <= j < priority.len() && j < order.len() implies #[trigger] match_at(
        order,
        image,
        j,
    ) is None by {
        assert(order[j] == priority[j]);
        lemma_first_match_none_from(priority, image, j);
    }
    lemma_first_match_skips(order, image, priority.len() as int);
    lemma_first_match_shift(priority, fallback, image, 0);
}

/// Where there is no match from the start, there is none from any later
/// position.
pub proof fn lemma_first_match_none_from(order: Seq<SegmentCandidate>, image: Seq<u8>, n: int)
    requires
        0 <= n,
        first_match_from(order, image, 0) is None,
    ensures
        first_match_from(order, image, n) is None,
    decreases n,
{
    if n > 0 && n <= order.len() {
        lemma_first_match_none_from(order, image, n - 1);
    }
}

/// A completed scan ends in the result that `scan_result` names.
pub proof fn lemma_scan_completes(groups: CandidateGroups, image: Seq<u8>)
    ensures
        state_after(groups, image, groups.scan_order().len()) == match scan_result(
            groups.scan_order(),
            image,
        ) {
            Ok(info) => ScanState::Matched(info),
            Err(_) => ScanState::Exhausted,
        },
{
    let order = groups.scan_order();
    lemma_state_after(groups, image, order.len());
    match state_after(groups, image, order.len()) {
        ScanState::Matched(info) => {
            let m = choose|m: int|
                0 <= m < order.len() && no_match_before(order, image, m) && #[trigger] match_at(
                    order,
                    image,
                    m,
                ) == Some(info);
            lemma_first_match_is(order, image, m);
        },
        ScanState::Exhausted => {
            lemma_first_match_none(order, image);
        },
        _ => {},
    }
}

/// Scans a file held in memory for its candidates: drives the scan to its
/// end, handing it each segment that it asks for.
pub fn scan_image(image: &[u8], groups: &CandidateGroups) -> (r: Result<HashInfo, NotFoundError>)
    requires
        groups.wf(image.len() as int),
    ensures
        r == scan_result(groups.scan_order(), image@),
{
    let ghost order = groups.scan_order();
    let mut scanner = Scanner::new(groups);
    let mut action = scanner.start();
    loop
        invariant
            order == groups.scan_order(),
            groups.wf(image.len() as int),
            scanner.groups() == *groups,
            state_wf(*groups, scanner.state()),
            action == action_of(*groups, scanner.state()),
            match scanner.state() {
                ScanState::Unscanned => false,
                ScanState::Matched(info) => first_match_from(order, image@, 0) == Some(info),
                ScanState::Exhausted => first_match_from(order, image@, 0) == None::<HashInfo>,
                _ => first_match_from(order, image@, 0) == first_match_from(
                    order,
                    image@,
                    position(*groups, scanner.state())->0,
                ),
            },
        decreases remaining(*groups, scanner.state()),
    {
        match action {
            ScanAction::Load(candidate) => {
                let ghost n = position(*groups, scanner.state())->0;
                assert(candidate == order[n] && candidate.within(image.len() as int));
                let start: usize = candidate.offset as usize;
                let end: usize = (candidate.offset + candidate.size) as usize;
                let seg = slice_subrange(image, start, end);
                action = scanner.feed(seg);
                proof {
                    assert(groups.priority@.len() == groups.priority.len());
                    assert(groups.fallback@.len() == groups.fallback.len());
                    if match_at(order, image@, n) is None {
                        assert(first_match_from(order, image@, n) == first_match_from(
                            order,
                            image@,
                            n + 1,
                        ));
                    }
                }
            },
            ScanAction::Report(info) => {
                return Ok(info);
            },
            ScanAction::GiveUp => {
                return Err(NotFoundError::NoValidHashSegment);
            },
        }
    }
}

} // verus!

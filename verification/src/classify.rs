use crate::region::{RegionSet, TargetRegion};
use vstd::prelude::*;

verus! {

/// What the classifier and the index builder read of one alignment record.
/// `start` and `end` are 1-based and absent when the record has no
/// resolvable position; `byte_range` is the span of the record in the
/// stream that holds it.
#[derive(Clone, Copy, Debug, PartialEq, Eq)]
pub struct AlignmentSummary {
    pub contig_id: Option<usize>,
    pub start: Option<usize>,
    pub end: Option<usize>,
    pub is_mapped: bool,
    pub byte_range: (u64, u64),
}

/// Which end of a read is held against the same end of a region.
#[derive(Clone, Copy, Debug, PartialEq, Eq, Structural)]
pub enum Boundary {
    Start,
    End,
}

/// The four ways a read can lie against the target regions.
#[derive(Clone, Copy, Debug, PartialEq, Eq, Structural)]
pub enum Label {
    OnTarget,
    OffTarget,
    StartOnly,
    EndOnly,
}

/// The distance between two coordinates.
pub open spec fn distance(a: usize, b: usize) -> int {
    if a >= b {
        a - b
    } else {
        b - a
    }
}

/// The chosen coordinate of a read.
pub open spec fn read_coordinate(which: Boundary, read: AlignmentSummary) -> Option<usize> {
    match which {
        Boundary::Start => read.start,
        Boundary::End => read.end,
    }
}

/// The chosen coordinate of a region.
pub open spec fn region_coordinate(which: Boundary, region: TargetRegion) -> usize {
    match which {
        Boundary::Start => region.start,
        Boundary::End => region.end,
    }
}

/// A read's end matches a region's when both lie on one contig, the read has
/// that coordinate, and the two are at most `tolerance` apart.
pub open spec fn boundary_matches_spec(
    which: Boundary,
    region: TargetRegion,
    read: AlignmentSummary,
    tolerance: usize,
) -> bool {
    &&& read.contig_id == Some(region.contig_id)
    &&& read_coordinate(which, read) matches Some(c)
    &&& distance(c, region_coordinate(which, region)) <= tolerance
}

pub open spec fn matches_start_spec(region: TargetRegion, read: AlignmentSummary, tolerance: usize) -> bool {
    boundary_matches_spec(Boundary::Start, region, read, tolerance)
}

pub open spec fn matches_end_spec(region: TargetRegion, read: AlignmentSummary, tolerance: usize) -> bool {
    boundary_matches_spec(Boundary::End, region, read, tolerance)
}

/// Some region of the set matches the read at the chosen end.
pub open spec fn any_matches(
    which: Boundary,
    regions: Set<TargetRegion>,
    read: AlignmentSummary,
    tolerance: usize,
) -> bool {
    exists|r: TargetRegion| regions.contains(r) && #[trigger] boundary_matches_spec(which, r, read, tolerance)
}

/// The label that two independent answers give.
pub open spec fn label_of(start_ok: bool, end_ok: bool) -> Label {
    if start_ok && end_ok {
        Label::OnTarget
    } else if start_ok {
        Label::StartOnly
    } else if end_ok {
        Label::EndOnly
    } else {
        Label::OffTarget
    }
}

/// The label of a read against a set of regions. The start and the end are
/// looked up independently: they may be matched by two different regions.
pub open spec fn classify_spec(read: AlignmentSummary, regions: Set<TargetRegion>, tolerance: usize) -> Label {
    label_of(
        any_matches(Boundary::Start, regions, read, tolerance),
        any_matches(Boundary::End, regions, read, tolerance),
    )
}

/// The labels of a run of reads, one for one.
pub open spec fn labels_of(reads: Seq<AlignmentSummary>, regions: Set<TargetRegion>, tolerance: usize) -> Seq<Label> {
    Seq::new(reads.len(), |i: int| classify_spec(reads[i], regions, tolerance))
}

pub fn abs_diff(a: usize, b: usize) -> (d: usize)
    ensures
        d == distance(a, b),
{
    if a >= b {
        a - b
    } else {
        b - a
    }
}

/// Tests one end of a read against the same end of a region.
pub fn boundary_matches(which: Boundary, region: TargetRegion, read: &AlignmentSummary, tolerance: usize) -> (hit: bool)
    ensures
        hit == boundary_matches_spec(which, region, *read, tolerance),
{
    let coordinate = match which {
        Boundary::Start => read.start,
        Boundary::End => read.end,
    };
    let target = match which {
        Boundary::Start => region.start,
        Boundary::End => region.end,
    };
    match (read.contig_id, coordinate) {
        (Some(id), Some(c)) => id == region.contig_id && abs_diff(c, target) <= tolerance,
        _ => false,
    }
}

pub fn matches_start(region: TargetRegion, read: &AlignmentSummary, tolerance: usize) -> (hit: bool)
    ensures
        hit == matches_start_spec(region, *read, tolerance),
{
    boundary_matches(Boundary::Start, region, read, tolerance)
}

pub fn matches_end(region: TargetRegion, read: &AlignmentSummary, tolerance: usize) -> (hit: bool)
    ensures
        hit == matches_end_spec(region, *read, tolerance),
{
    boundary_matches(Boundary::End, region, read, tolerance)
}

/// Whether any region of the set matches the read at the chosen end.
pub fn matches_any(which: Boundary, read: &AlignmentSummary, regions: &RegionSet, tolerance: usize) -> (hit: bool)
    requires
        regions.wf(),
    ensures
        hit == any_matches(which, regions@, *read, tolerance),
{
    proof {
        regions.lemma_items();
    }
    let mut i: usize = 0;
    while i < regions.len()
        invariant
            i <= regions.items().len(),
            forall|j: int| 0 <= j < i ==> !boundary_matches_spec(which, #[trigger] regions.items()[j], *read, tolerance),
            forall|r: TargetRegion| regions@.contains(r) <==> regions.items().contains(r),
        decreases regions.items().len() - i,
    {
        let region = regions.get(i);
        if boundary_matches(which, region, read, tolerance) {
            assert(regions.items().contains(region));
            return true;
        }
        i += 1;
    }
    assert forall|r: TargetRegion| regions@.contains(r) implies !#[trigger] boundary_matches_spec(which, r, *read, tolerance) by {
        let k = choose|k: int| 0 <= k < regions.items().len() && regions.items()[k] == r;
        assert(!boundary_matches_spec(which, regions.items()[k], *read, tolerance));
    }
    false
}

/// Labels a read against the whole region set.
pub fn classify(read: &AlignmentSummary, regions: &RegionSet, tolerance: usize) -> (label: Label)
    requires
        regions.wf(),
    ensures
        label == classify_spec(*read, regions@, tolerance),
{
    let start_ok = matches_any(Boundary::Start, read, regions, tolerance);
    let end_ok = matches_any(Boundary::End, read, regions, tolerance);
    if start_ok && end_ok {
        Label::OnTarget
    } else if start_ok {
        Label::StartOnly
    } else if end_ok {
        Label::EndOnly
    } else {
        Label::OffTarget
    }
}

/// A match at some tolerance is a match at every larger tolerance, at either end.
pub proof fn lemma_tolerance_monotonic(
    which: Boundary,
    region: TargetRegion,
    read: AlignmentSummary,
    t1: usize,
    t2: usize,
)
    requires
        t1 <= t2,
    ensures
        boundary_matches_spec(which, region, read, t1) ==> boundary_matches_spec(which, region, read, t2),
        matches_start_spec(region, read, t1) ==> matches_start_spec(region, read, t2),
        matches_end_spec(region, read, t1) ==> matches_end_spec(region, read, t2),
{
}

/// A read that starts where a region starts, on the region's contig,
/// matches its start at tolerance zero; likewise for the end.
pub proof fn lemma_exact_match(region: TargetRegion, read: AlignmentSummary)
    requires
        read.contig_id == Some(region.contig_id),
    ensures
        read.start == Some(region.start) ==> matches_start_spec(region, read, 0),
        read.end == Some(region.end) ==> matches_end_spec(region, read, 0),
{
}

/// A region on another contig than the read's matches neither end of it,
/// whatever the tolerance.
pub proof fn lemma_other_contig_never_matches(
    which: Boundary,
    region: TargetRegion,
    read: AlignmentSummary,
    tolerance: usize,
)
    requires
        read.contig_id != Some(region.contig_id),
    ensures
        !boundary_matches_spec(which, region, read, tolerance),
{
}

/// Matching reads a record's contig and coordinates only: whether it is
/// flagged as mapped, and where it lies in its stream, change nothing.
pub proof fn lemma_matching_ignores_mapping(
    which: Boundary,
    region: TargetRegion,
    a: AlignmentSummary,
    b: AlignmentSummary,
    tolerance: usize,
)
    requires
        a.contig_id == b.contig_id,
        a.start == b.start,
        a.end == b.end,
    ensures
        boundary_matches_spec(which, region, a, tolerance) == boundary_matches_spec(which, region, b, tolerance),
{
}

/// A larger tolerance never takes a matched end away from a read: what
/// matched at `t1` in the set matches at `t2`.
pub proof fn lemma_any_matches_monotonic(
    which: Boundary,
    regions: Set<TargetRegion>,
    read: AlignmentSummary,
    t1: usize,
    t2: usize,
)
    requires
        t1 <= t2,
    ensures
        any_matches(which, regions, read, t1) ==> any_matches(which, regions, read, t2),
{
    if any_matches(which, regions, read, t1) {
        let r = choose|r: TargetRegion| regions.contains(r) && #[trigger] boundary_matches_spec(which, r, read, t1);
        assert(boundary_matches_spec(which, r, read, t2));
    }
}

} // verus!

use crate::classify::{classify, labels_of, AlignmentSummary, Label};
use crate::region::RegionSet;
use vstd::prelude::*;

verus! {

/// A sink takes reads when it is the on-target sink, or when the run is not
/// limited to on-target reads.
pub open spec fn sink_enabled_spec(label: Label, on_target_only: bool) -> bool {
    label == Label::OnTarget || !on_target_only
}

/// The positions in `labels` that carry `label`, ascending.
pub open spec fn positions_of(labels: Seq<Label>, label: Label) -> Seq<usize>
    decreases labels.len(),
{
    if labels.len() == 0 {
        Seq::empty()
    } else {
        let rest = positions_of(labels.drop_last(), label);
        if labels.last() == label {
            rest.push((labels.len() - 1) as usize)
        } else {
            rest
        }
    }
}

/// What a sink receives: the positions of its label in input order, or
/// nothing when the sink is switched off.
pub open spec fn routed(labels: Seq<Label>, label: Label, on_target_only: bool) -> Seq<usize> {
    if sink_enabled_spec(label, on_target_only) {
        positions_of(labels, label)
    } else {
        Seq::empty()
    }
}

pub fn sink_enabled(label: Label, on_target_only: bool) -> (enabled: bool)
    ensures
        enabled == sink_enabled_spec(label, on_target_only),
{
    match label {
        Label::OnTarget => true,
        _ => !on_target_only,
    }
}

/// The sink that a read with this label goes to, or `None` when the read is dropped.
pub fn route(label: Label, on_target_only: bool) -> (sink: Option<Label>)
    ensures
        sink == if sink_enabled_spec(label, on_target_only) {
            Some(label)
        } else {
            None
        },
{
    if sink_enabled(label, on_target_only) {
        Some(label)
    } else {
        None
    }
}

/// For each sink, the positions of the reads it receives, in input order.
#[derive(Clone, Debug)]
pub struct Partition {
    pub on_target: Vec<usize>,
    pub off_target: Vec<usize>,
    pub start_only: Vec<usize>,
    pub end_only: Vec<usize>,
}

/// How many reads carried each label, whether or not their sink was enabled.
#[derive(Clone, Copy, Debug, PartialEq, Eq, Structural)]
pub struct LabelCounts {
    pub on_target: usize,
    pub off_target: usize,
    pub start_only: usize,
    pub end_only: usize,
}

/// Classifies every read and routes its position to the sink of its label.
pub fn partition(reads: &Vec<AlignmentSummary>, regions: &RegionSet, tolerance: usize, on_target_only: bool) -> (out: Partition)
    requires
        regions.wf(),
    ensures
        out.on_target@ == routed(labels_of(reads@, regions@, tolerance), Label::OnTarget, on_target_only),
        out.off_target@ == routed(labels_of(reads@, regions@, tolerance), Label::OffTarget, on_target_only),
        out.start_only@ == routed(labels_of(reads@, regions@, tolerance), Label::StartOnly, on_target_only),
        out.end_only@ == routed(labels_of(reads@, regions@, tolerance), Label::EndOnly, on_target_only),
{
    let mut out = Partition {
        on_target: Vec::new(),
        off_target: Vec::new(),
        start_only: Vec::new(),
        end_only: Vec::new(),
    };
    let ghost labels = labels_of(reads@, regions@, tolerance);
    let mut i: usize = 0;
    while i < reads.len()
        invariant
            i <= reads@.len(),
            regions.wf(),
            labels == labels_of(reads@, regions@, tolerance),
            out.on_target@ == routed(labels.take(i as int), Label::OnTarget, on_target_only),
            out.off_target@ == routed(labels.take(i as int), Label::OffTarget, on_target_only),
            out.start_only@ == routed(labels.take(i as int), Label::StartOnly, on_target_only),
            out.end_only@ == routed(labels.take(i as int), Label::EndOnly, on_target_only),
        decreases reads@.len() - i,
    {
        let label = classify(&reads[i], regions, tolerance);
        proof {
            assert(labels.take(i + 1).drop_last() =~= labels.take(i as int));
            assert(labels.take(i + 1).last() == label);
        }
        match route(label, on_target_only) {
            Some(Label::OnTarget) => out.on_target.push(i),
            Some(Label::OffTarget) => out.off_target.push(i),
            Some(Label::StartOnly) => out.start_only.push(i),
            Some(Label::EndOnly) => out.end_only.push(i),
            None => {},
        }
        i += 1;
    }
    assert(labels.take(i as int) =~= labels);
    out
}

/// Counts the reads under each label.
pub fn count_labels(reads: &Vec<AlignmentSummary>, regions: &RegionSet, tolerance: usize) -> (counts: LabelCounts)
    requires
        regions.wf(),
    ensures
        counts.on_target == positions_of(labels_of(reads@, regions@, tolerance), Label::OnTarget).len(),
        counts.off_target == positions_of(labels_of(reads@, regions@, tolerance), Label::OffTarget).len(),
        counts.start_only == positions_of(labels_of(reads@, regions@, tolerance), Label::StartOnly).len(),
        counts.end_only == positions_of(labels_of(reads@, regions@, tolerance), Label::EndOnly).len(),
        counts.on_target + counts.off_target + counts.start_only + counts.end_only == reads@.len(),
{
    let out = partition(reads, regions, tolerance, false);
    proof {
        lemma_labels_partition(labels_of(reads@, regions@, tolerance));
    }
    LabelCounts {
        on_target: out.on_target.len(),
        off_target: out.off_target.len(),
        start_only: out.start_only.len(),
        end_only: out.end_only.len(),
    }
}

/// Every read carries exactly one label: the four position lists together
/// are as long as the input.
pub proof fn lemma_labels_partition(labels: Seq<Label>)
    ensures
        positions_of(labels, Label::OnTarget).len() + positions_of(labels, Label::OffTarget).len()
            + positions_of(labels, Label::StartOnly).len() + positions_of(labels, Label::EndOnly).len()
            == labels.len(),
    decreases labels.len(),
{
    if labels.len() > 0 {
        lemma_labels_partition(labels.drop_last());
    }
}

/// A position list names exactly the positions that carry the label, and
/// keeps them in input order.
pub proof fn lemma_positions_stable(labels: Seq<Label>, label: Label)
    requires
        labels.len() <= usize::MAX,
    ensures
        forall|k: int| 0 <= k < positions_of(labels, label).len() ==> {
            &&& (#[trigger] positions_of(labels, label)[k]) < labels.len()
            &&& labels[positions_of(labels, label)[k] as int] == label
        },
        forall|k: int, l: int| 0 <= k < l < positions_of(labels, label).len() ==>
            positions_of(labels, label)[k] < positions_of(labels, label)[l],
        forall|p: usize| 0 <= p < labels.len() && labels[p as int] == label ==>
            positions_of(labels, label).contains(p),
    decreases labels.len(),
{
    if labels.len() > 0 {
        let front = labels.drop_last();
        lemma_positions_stable(front, label);
        let rest = positions_of(front, label);
        let all = positions_of(labels, label);
        assert forall|k: int| 0 <= k < all.len() implies (#[trigger] all[k]) < labels.len()
            && labels[all[k] as int] == label by {
            if k < rest.len() {
                assert(all[k] == rest[k]);
                assert(front[rest[k] as int] == label);
            }
        }
        assert forall|k: int, l: int| 0 <= k < l < all.len() implies all[k] < all[l] by {
            assert(all[k] == rest[k]);
            assert(rest[k] < front.len());
            if l < rest.len() {
                assert(all[l] == rest[l]);
            }
        }
        assert forall|p: usize| 0 <= p < labels.len() && labels[p as int] == label implies all.contains(p) by {
            if p < front.len() {
                assert(front[p as int] == label);
                let k = choose|k: int| 0 <= k < rest.len() && rest[k] == p;
                assert(all[k] == p);
            } else {
                assert(all[all.len() - 1] == p);
            }
        }
    }
}

} // verus!

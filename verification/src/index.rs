use crate::classify::AlignmentSummary;
use crate::error::Error;
use noodles::bgzf::VirtualPosition;
use noodles::csi::binning_index::index::reference_sequence::bin;
use noodles::csi::binning_index::indexer::AddRecordError;
use noodles::csi::binning_index::{Index, Indexer};
use vstd::prelude::*;

verus! {

/// A span of stream offsets that holds one or more records.
#[derive(Clone, Copy, Debug, PartialEq, Eq, Structural)]
pub struct Chunk {
    pub start: u64,
    pub end: u64,
}

/// A bin of the binning scheme with the chunks filed under it.
#[derive(Clone, Debug, PartialEq, Eq)]
pub struct Bin {
    pub id: usize,
    pub chunks: Vec<Chunk>,
}

/// The per-contig counters and the span of offsets that its records cover.
#[derive(Clone, Copy, Debug, PartialEq, Eq, Structural)]
pub struct Metadata {
    pub start: u64,
    pub end: u64,
    pub mapped: u64,
    pub unmapped: u64,
}

/// The index of one contig: its bins, and for each 16384-base window the
/// smallest offset of a record that reaches it.
#[derive(Clone, Debug, PartialEq, Eq)]
pub struct ReferenceIndex {
    pub bins: Vec<Bin>,
    pub linear_index: Vec<u64>,
    pub metadata: Option<Metadata>,
}

/// A finished index: one entry per contig in header order, and the number
/// of records without a position.
#[derive(Clone, Debug, PartialEq, Eq)]
pub struct IndexFile {
    pub references: Vec<ReferenceIndex>,
    pub unplaced: u64,
}

pub ghost struct BinModel {
    pub id: usize,
    pub chunks: Seq<Chunk>,
}

pub ghost struct ReferenceModel {
    pub bins: Seq<BinModel>,
    pub linear_index: Seq<u64>,
    pub metadata: Option<Metadata>,
}

pub ghost struct IndexModel {
    pub references: Seq<ReferenceModel>,
    pub unplaced: u64,
}

impl View for Bin {
    type V = BinModel;

    open spec fn view(&self) -> BinModel {
        BinModel { id: self.id, chunks: self.chunks@ }
    }
}

/// The bins of a list, each by its view.
pub open spec fn bins_view(bins: Vec<Bin>) -> Seq<BinModel> {
    Seq::new(bins@.len(), |i: int| bins@[i]@)
}

impl View for ReferenceIndex {
    type V = ReferenceModel;

    open spec fn view(&self) -> ReferenceModel {
        ReferenceModel {
            bins: bins_view(self.bins),
            linear_index: self.linear_index@,
            metadata: self.metadata,
        }
    }
}

impl View for IndexFile {
    type V = IndexModel;

    open spec fn view(&self) -> IndexModel {
        IndexModel {
            references: Seq::new(self.references@.len(), |i: int| self.references@[i]@),
            unplaced: self.unplaced,
        }
    }
}

/// Where a record lies: contig id, 1-based start and end, and whether it is mapped.
pub type Placement = (usize, usize, usize, bool);

/// What the indexer is told of one record: where it lies, if anywhere, and
/// the offsets before and after it.
pub type Entry = (Option<(usize, usize, usize, bool)>, (u64, u64));

/// Why the indexer turns a record away.
#[derive(Clone, Copy, Debug, PartialEq, Eq, Structural)]
pub enum Rejection {
    InvalidInterval,
    EndExceedsMaxPosition,
    OutOfOrderReference,
    OutOfOrderStart,
}

/// The largest end coordinate that the five-level scheme can file.
pub const MAX_POSITION: usize = 536870912;

#[verifier::external_type_specification]
#[verifier::external_body]
pub struct ExVirtualPosition(VirtualPosition);

#[verifier::external_type_specification]
#[verifier::external_body]
#[verifier::reject_recursive_types(I)]
pub struct ExIndexer<I>(Indexer<I>);

#[verifier::external_type_specification]
#[verifier::external_body]
#[verifier::reject_recursive_types(I)]
pub struct ExIndex<I>(Index<I>);

/// The records that an indexer has accepted, in order.
pub uninterp spec fn indexer_records(indexer: Indexer<Vec<VirtualPosition>>) -> Seq<Entry>;

/// The per-contig entries that a built index holds, in order.
pub uninterp spec fn index_references(index: Index<Vec<VirtualPosition>>) -> Seq<ReferenceModel>;

/// The count of unplaced records that a built index declares, if it declares one.
pub uninterp spec fn index_unplaced(index: Index<Vec<VirtualPosition>>) -> Option<u64>;

/// The per-contig entries that the indexer builds from the accepted records
/// for a header of `contig_count` contigs.
pub uninterp spec fn built_references(records: Seq<Entry>, contig_count: usize) -> Seq<ReferenceModel>;

/// The contig and the start of the last accepted record that has a position.
pub open spec fn last_placed(records: Seq<Entry>) -> Option<(usize, usize)>
    decreases records.len(),
{
    if records.len() == 0 {
        None
    } else {
        match records.last().0 {
            Some((id, start, _, _)) => Some((id, start)),
            None => last_placed(records.drop_last()),
        }
    }
}

/// Whether the indexer turns a record away after it has accepted `records`,
/// and why. A record without a position is always accepted. One with a
/// position must have `start <= end <= MAX_POSITION`, must not lie on an
/// earlier contig than the last placed record, nor start before it on the
/// same contig.
pub open spec fn verdict(records: Seq<Entry>, placement: Option<Placement>) -> Option<Rejection> {
    match placement {
        None => None,
        Some((id, start, end, _)) => {
            let (current, previous) = match last_placed(records) {
                Some(p) => p,
                None => (0usize, 1usize),
            };
            if start > end {
                Some(Rejection::InvalidInterval)
            } else if end > MAX_POSITION {
                Some(Rejection::EndExceedsMaxPosition)
            } else if id < current {
                Some(Rejection::OutOfOrderReference)
            } else if id == current && start < previous {
                Some(Rejection::OutOfOrderStart)
            } else {
                None
            }
        },
    }
}

/// How many per-contig entries a build gives: one for each declared
/// contig, and no fewer than the last placed record's contig needs.
pub open spec fn reference_total(records: Seq<Entry>, contig_count: usize) -> int {
    let needed = match last_placed(records) {
        Some((id, _)) => id + 1,
        None => 0,
    };
    if contig_count >= needed {
        contig_count as int
    } else {
        needed
    }
}

/// How many of the records have no position.
pub open spec fn unplaced_in(records: Seq<Entry>) -> nat
    decreases records.len(),
{
    if records.len() == 0 {
        0
    } else {
        unplaced_in(records.drop_last()) + if records.last().0.is_none() {
            1nat
        } else {
            0nat
        }
    }
}

/// The offset after the last record, or zero before the first.
pub open spec fn last_offset(records: Seq<Entry>) -> u64 {
    if records.len() == 0 {
        0
    } else {
        records.last().1.1
    }
}

/// Every record ends no earlier than it begins, and begins no earlier than
/// the record before it ends.
pub open spec fn offsets_ascending(records: Seq<Entry>) -> bool {
    forall|i: int|
        0 <= i < records.len() ==> {
            &&& (#[trigger] records[i]).1.0 <= records[i].1.1
            &&& (i > 0 ==> records[i - 1].1.1 <= records[i].1.0)
        }
}

/// `Indexer::default` of noodles-csi: an indexer for the five-level scheme
/// with 16384-base windows that has accepted no record yet.
#[verifier::external_body]
fn new_indexer() -> (indexer: Indexer<Vec<VirtualPosition>>)
    ensures
        indexer_records(indexer) == Seq::<Entry>::empty(),
{
    Indexer::default()
}

/// `Indexer::add_record` of noodles-csi. The call turns the record away
/// exactly as `verdict` says, each of its four errors on its own condition,
/// tested in that order; an accepted record is appended to what the indexer
/// holds, a refused one leaves the indexer as it was. The positions must be positive, the contig id below `usize::MAX`
/// and fewer than `u64::MAX` records held: otherwise the call would overflow.
#[verifier::external_body]
fn push_record(indexer: &mut Indexer<Vec<VirtualPosition>>, placement: Option<Placement>, range: (u64, u64)) -> (out: Result<(), Rejection>)
    requires
        indexer_records(*old(indexer)).len() < u64::MAX,
        placement matches Some((id, start, end, _)) ==> id < usize::MAX && start >= 1 && end >= 1,
    ensures
        out == match verdict(indexer_records(*old(indexer)), placement) {
            Some(why) => Err::<(), Rejection>(why),
            None => Ok(()),
        },
        indexer_records(*final(indexer)) == if out.is_ok() {
            indexer_records(*old(indexer)).push((placement, range))
        } else {
            indexer_records(*old(indexer))
        },
{
    let context = placement.map(|(id, start, end, mapped)| (id, noodles::core::Position::new(start).unwrap(), noodles::core::Position::new(end).unwrap(), mapped));
    let chunk = bin::Chunk::new(range.0.into(), range.1.into());
    match indexer.add_record(context, chunk) {
        Ok(()) => Ok(()),
        Err(AddRecordError::InvalidInterval { .. }) => Err(Rejection::InvalidInterval),
        Err(AddRecordError::EndExceedsMaxPosition { .. }) => Err(Rejection::EndExceedsMaxPosition),
        Err(AddRecordError::OutOfOrderReferenceSequenceId { .. }) => Err(Rejection::OutOfOrderReference),
        Err(AddRecordError::OutOfOrderStartPosition { .. }) => Err(Rejection::OutOfOrderStart),
    }
}

/// `Indexer::build` of noodles-csi. The index's per-contig entries are a
/// function of the accepted records and the contig count, named
/// `built_references`; there are as many as contigs were declared, or as
/// the last placed record needs if that is more. Its count of unplaced
/// records is the number of accepted records without a position. The
/// offsets must ascend: the call subtracts the first offset of a bin from
/// its last.
#[verifier::external_body]
fn finish_indexer(indexer: Indexer<Vec<VirtualPosition>>, contig_count: usize) -> (index: Index<Vec<VirtualPosition>>)
    requires
        offsets_ascending(indexer_records(indexer)),
        indexer_records(indexer).len() <= u64::MAX,
    ensures
        index_references(index) == built_references(indexer_records(indexer), contig_count),
        index_references(index).len() == reference_total(indexer_records(indexer), contig_count),
        index_unplaced(index) == Some(unplaced_in(indexer_records(indexer)) as u64),
{
    indexer.build(contig_count)
}

/// `Index::reference_sequences` of noodles-csi, its length: the number of
/// per-contig entries that the index holds.
#[verifier::external_body]
fn reference_count(index: &Index<Vec<VirtualPosition>>) -> (n: usize)
    ensures
        n == index_references(*index).len(),
{
    index.reference_sequences().len()
}

/// `ReferenceSequence::bins` of noodles-csi for the `i`-th contig: its bins
/// in the order in which the index holds them, each with its chunks.
#[verifier::external_body]
fn bins_at(index: &Index<Vec<VirtualPosition>>, i: usize) -> (bins: Vec<Bin>)
    requires
        i < index_references(*index).len(),
    ensures
        bins_view(bins) == index_references(*index)[i as int].bins,
{
    index.reference_sequences()[i].bins().iter().map(|(id, bin)| Bin {
        id: *id,
        chunks: bin.chunks().iter().map(|c| Chunk { start: c.start().into(), end: c.end().into() }).collect(),
    }).collect()
}

/// `ReferenceSequence::index` of noodles-csi for the `i`-th contig: the
/// offsets of its linear index, window by window.
#[verifier::external_body]
fn linear_index_at(index: &Index<Vec<VirtualPosition>>, i: usize) -> (offsets: Vec<u64>)
    requires
        i < index_references(*index).len(),
    ensures
        offsets@ == index_references(*index)[i as int].linear_index,
{
    index.reference_sequences()[i].index().iter().copied().map(u64::from).collect()
}

/// `ReferenceSequence::metadata` of noodles-csi for the `i`-th contig: its
/// counters and offset span, where it has any.
#[verifier::external_body]
fn metadata_at(index: &Index<Vec<VirtualPosition>>, i: usize) -> (metadata: Option<Metadata>)
    requires
        i < index_references(*index).len(),
    ensures
        metadata == index_references(*index)[i as int].metadata,
{
    noodles::csi::binning_index::ReferenceSequence::metadata(&index.reference_sequences()[i]).map(|m| Metadata {
        start: m.start_position().into(),
        end: m.end_position().into(),
        mapped: m.mapped_record_count(),
        unmapped: m.unmapped_record_count(),
    })
}

/// `BinningIndex::unplaced_unmapped_record_count` of noodles-csi: the count
/// of unplaced records that the index declares.
#[verifier::external_body]
fn unplaced_count(index: &Index<Vec<VirtualPosition>>) -> (count: Option<u64>)
    ensures
        count == index_unplaced(*index),
{
    noodles::csi::BinningIndex::unplaced_unmapped_record_count(index)
}

/// Where a summary places its record: all of contig, start and end, or nothing.
pub open spec fn placement_spec(summary: AlignmentSummary) -> Option<Placement> {
    match (summary.contig_id, summary.start, summary.end) {
        (Some(id), Some(start), Some(end)) => Some((id, start, end, summary.is_mapped)),
        _ => None,
    }
}

/// What the indexer is told of a summary.
pub open spec fn entry_of(summary: AlignmentSummary) -> Entry {
    (placement_spec(summary), summary.byte_range)
}

/// The error that a record coming after `prior` meets, if any. Its byte
/// range must ascend and follow the one before; a placed record needs
/// positive coordinates, a contig that the header declares, and must pass
/// the indexer: a bad interval is a malformed record, a step backwards
/// breaks the sort order.
pub open spec fn check_record(prior: Seq<Entry>, summary: AlignmentSummary, contig_count: usize) -> Option<Error> {
    if summary.byte_range.0 > summary.byte_range.1 || last_offset(prior) > summary.byte_range.0 {
        Some(Error::MalformedRecord)
    } else {
        match placement_spec(summary) {
            None => None,
            Some((id, start, end, mapped)) => if start < 1 || end < 1 {
                Some(Error::MalformedRecord)
            } else if id >= contig_count {
                Some(Error::ReferenceCountMismatch)
            } else {
                match verdict(prior, Some((id, start, end, mapped))) {
                    None => None,
                    Some(Rejection::InvalidInterval) => Some(Error::MalformedRecord),
                    Some(Rejection::EndExceedsMaxPosition) => Some(Error::MalformedRecord),
                    Some(Rejection::OutOfOrderReference) => Some(Error::NotCoordinateSorted),
                    Some(Rejection::OutOfOrderStart) => Some(Error::NotCoordinateSorted),
                }
            },
        }
    }
}

/// The entries that the indexer holds after the summaries, or the error of
/// the first one that fails.
pub open spec fn accepted(summaries: Seq<AlignmentSummary>, contig_count: usize) -> Result<Seq<Entry>, Error>
    decreases summaries.len(),
{
    if summaries.len() == 0 {
        Ok(Seq::empty())
    } else {
        match accepted(summaries.drop_last(), contig_count) {
            Err(e) => Err(e),
            Ok(prior) => match check_record(prior, summaries.last(), contig_count) {
                Some(e) => Err(e),
                None => Ok(prior.push(entry_of(summaries.last()))),
            },
        }
    }
}

/// A built index is handed out when it holds one entry per declared contig.
pub open spec fn finished(references: Seq<ReferenceModel>, unplaced: Option<u64>, contig_count: usize) -> Result<IndexModel, Error> {
    if references.len() == contig_count {
        Ok(IndexModel {
            references,
            unplaced: match unplaced {
                Some(n) => n,
                None => 0,
            },
        })
    } else {
        Err(Error::ReferenceCountMismatch)
    }
}

/// What indexing a stream gives: a stream that is not declared sorted is
/// refused before any record is read; then the first failing record decides;
/// then the built index must fit the header.
pub open spec fn index_outcome(coordinate_sorted: bool, summaries: Seq<AlignmentSummary>, contig_count: usize) -> Result<IndexModel, Error> {
    if !coordinate_sorted {
        Err(Error::NotCoordinateSorted)
    } else {
        match accepted(summaries, contig_count) {
            Err(e) => Err(e),
            Ok(entries) => finished(
                built_references(entries, contig_count),
                Some(unplaced_in(entries) as u64),
                contig_count,
            ),
        }
    }
}

/// Where a record lies, if contig, start and end are all known.
pub fn placement(summary: &AlignmentSummary) -> (out: Option<Placement>)
    ensures
        out == placement_spec(*summary),
{
    match (summary.contig_id, summary.start, summary.end) {
        (Some(id), Some(start), Some(end)) => Some((id, start, end, summary.is_mapped)),
        _ => None,
    }
}

/// The error kind of the library for each reason of the indexer.
pub fn rejection_error(why: Rejection) -> (e: Error)
    ensures
        e == match why {
            Rejection::InvalidInterval => Error::MalformedRecord,
            Rejection::EndExceedsMaxPosition => Error::MalformedRecord,
            Rejection::OutOfOrderReference => Error::NotCoordinateSorted,
            Rejection::OutOfOrderStart => Error::NotCoordinateSorted,
        },
{
    match why {
        Rejection::InvalidInterval | Rejection::EndExceedsMaxPosition => Error::MalformedRecord,
        Rejection::OutOfOrderReference | Rejection::OutOfOrderStart => Error::NotCoordinateSorted,
    }
}

/// Turns a built index into the library's own structure, or refuses it when
/// it does not hold exactly one entry per declared contig.
pub fn assemble(index: &Index<Vec<VirtualPosition>>, contig_count: usize) -> (out: Result<IndexFile, Error>)
    ensures
        match out {
            Ok(file) => finished(index_references(*index), index_unplaced(*index), contig_count) == Ok::<IndexModel, Error>(file@)
                && file.references@.len() == contig_count,
            Err(e) => finished(index_references(*index), index_unplaced(*index), contig_count) == Err::<IndexModel, Error>(e),
        },
{
    let n = reference_count(index);
    if n != contig_count {
        return Err(Error::ReferenceCountMismatch);
    }
    let mut references: Vec<ReferenceIndex> = Vec::new();
    let mut i: usize = 0;
    while i < n
        invariant
            i <= n,
            n == index_references(*index).len(),
            references@.len() == i,
            forall|j: int| 0 <= j < i ==> (#[trigger] references@[j])@ == index_references(*index)[j],
        decreases n - i,
    {
        let reference = ReferenceIndex {
            bins: bins_at(index, i),
            linear_index: linear_index_at(index, i),
            metadata: metadata_at(index, i),
        };
        references.push(reference);
        i += 1;
    }
    let unplaced = match unplaced_count(index) {
        Some(count) => count,
        None => 0,
    };
    let file = IndexFile { references, unplaced };
    assert(file@.references =~= index_references(*index));
    Ok(file)
}

/// An index in the making: the indexer with what it has accepted, the
/// offset after the last record, and the number of contigs that the header
/// declares.
pub struct IndexBuilder {
    indexer: Indexer<Vec<VirtualPosition>>,
    cursor: u64,
    contig_count: usize,
}

impl IndexBuilder {
    /// What the indexer has accepted so far, in order.
    pub closed spec fn entries(&self) -> Seq<Entry> {
        indexer_records(self.indexer)
    }

    /// The number of contigs that the header declares.
    pub closed spec fn contigs(&self) -> usize {
        self.contig_count
    }

    /// The offsets ascend up to the cursor, and every placed record lies on
    /// a declared contig.
    pub closed spec fn wf(&self) -> bool {
        &&& offsets_ascending(self.entries())
        &&& self.cursor == last_offset(self.entries())
        &&& self.entries().len() <= u64::MAX
        &&& (last_placed(self.entries()) matches Some((id, _)) ==> id < self.contig_count)
    }

    /// Starts an index for a stream whose header declares `contig_count`
    /// contigs. A stream that is not declared coordinate-sorted is refused.
    pub fn new(coordinate_sorted: bool, contig_count: usize) -> (out: Result<IndexBuilder, Error>)
        ensures
            match out {
                Ok(builder) => coordinate_sorted && builder.wf() && builder.entries() == Seq::<Entry>::empty()
                    && builder.contigs() == contig_count,
                Err(e) => !coordinate_sorted && e == Error::NotCoordinateSorted,
            },
    {
        if !coordinate_sorted {
            return Err(Error::NotCoordinateSorted);
        }
        Ok(IndexBuilder { indexer: new_indexer(), cursor: 0, contig_count })
    }

    /// The offset after the last record taken, or zero before the first.
    pub fn cursor(&self) -> (offset: u64)
        requires
            self.wf(),
        ensures
            offset == last_offset(self.entries()),
    {
        self.cursor
    }

    /// Takes the next record of the stream. A record that fails leaves the
    /// builder as it was.
    pub fn add_record(&mut self, summary: &AlignmentSummary) -> (out: Result<(), Error>)
        requires
            old(self).wf(),
            old(self).entries().len() < u64::MAX,
        ensures
            final(self).wf(),
            final(self).contigs() == old(self).contigs(),
            match out {
                Ok(()) => check_record(old(self).entries(), *summary, old(self).contigs()).is_none()
                    && final(self).entries() == old(self).entries().push(entry_of(*summary)),
                Err(e) => check_record(old(self).entries(), *summary, old(self).contigs()) == Some(e)
                    && final(self).entries() == old(self).entries(),
            },
    {
        if summary.byte_range.0 > summary.byte_range.1 || self.cursor > summary.byte_range.0 {
            return Err(Error::MalformedRecord);
        }
        let place = placement(summary);
        match place {
            Some((id, start, end, _)) => {
                if start < 1 || end < 1 {
                    return Err(Error::MalformedRecord);
                }
                if id >= self.contig_count {
                    return Err(Error::ReferenceCountMismatch);
                }
            },
            None => {},
        }
        let ghost prior = self.entries();
        match push_record(&mut self.indexer, place, summary.byte_range) {
            Err(why) => {
                return Err(rejection_error(why));
            },
            Ok(()) => {},
        }
        proof {
            let entry = (place, summary.byte_range);
            assert(prior.push(entry).drop_last() =~= prior);
            assert(prior.push(entry).last() == entry);
        }
        self.cursor = summary.byte_range.1;
        Ok(())
    }

    /// Builds the index of the records taken. It holds one entry for each
    /// declared contig.
    pub fn finish(self) -> (out: Result<IndexFile, Error>)
        requires
            self.wf(),
        ensures
            out matches Ok(file) && file.references@.len() == self.contigs() && file@ == (IndexModel {
                references: built_references(self.entries(), self.contigs()),
                unplaced: unplaced_in(self.entries()) as u64,
            }),
    {
        let contig_count = self.contig_count;
        let index = finish_indexer(self.indexer, contig_count);
        let out = assemble(&index, contig_count);
        assert(out.is_ok());
        out
    }
}

/// Builds the binning index of a stream of records. `coordinate_sorted` is
/// what the stream's header declares; the records are not inspected to
/// second-guess it, but one that steps backwards still fails the build.
pub fn build_index(coordinate_sorted: bool, records: &Vec<AlignmentSummary>, contig_count: usize) -> (out: Result<IndexFile, Error>)
    ensures
        !coordinate_sorted ==> out == Err::<IndexFile, Error>(Error::NotCoordinateSorted),
        out.is_ok() <==> coordinate_sorted && accepted(records@, contig_count).is_ok(),
        coordinate_sorted ==> (out matches Err(e) ==> accepted(records@, contig_count) == Err::<Seq<Entry>, Error>(e)),
        match out {
            Ok(file) => index_outcome(coordinate_sorted, records@, contig_count) == Ok::<IndexModel, Error>(file@)
                && file.references@.len() == contig_count,
            Err(e) => index_outcome(coordinate_sorted, records@, contig_count) == Err::<IndexModel, Error>(e),
        },
{
    let mut builder = match IndexBuilder::new(coordinate_sorted, contig_count) {
        Ok(builder) => builder,
        Err(e) => {
            return Err(e);
        },
    };
    let mut i: usize = 0;
    while i < records.len()
        invariant
            coordinate_sorted,
            i <= records@.len(),
            builder.wf(),
            builder.contigs() == contig_count,
            builder.entries().len() == i,
            accepted(records@.take(i as int), contig_count) == Ok::<Seq<Entry>, Error>(builder.entries()),
        decreases records@.len() - i,
    {
        proof {
            assert(records@.take(i + 1).drop_last() =~= records@.take(i as int));
            lemma_accepted_error_stays(records@, contig_count, i + 1);
        }
        match builder.add_record(&records[i]) {
            Err(e) => {
                return Err(e);
            },
            Ok(()) => {},
        }
        i += 1;
    }
    assert(records@.take(i as int) =~= records@);
    builder.finish()
}

/// A stream whose prefix fails fails as a whole, with the same error.
pub proof fn lemma_accepted_error_stays(summaries: Seq<AlignmentSummary>, contig_count: usize, n: int)
    requires
        0 <= n <= summaries.len(),
    ensures
        accepted(summaries.take(n), contig_count) matches Err(e) ==> accepted(summaries, contig_count) == Err::<Seq<Entry>, Error>(e),
    decreases summaries.len() - n,
{
    if n < summaries.len() {
        assert(summaries.take(n + 1).drop_last() =~= summaries.take(n));
        lemma_accepted_error_stays(summaries, contig_count, n + 1);
    } else {
        assert(summaries.take(n) =~= summaries);
    }
}

/// One position comes no later than another: on an earlier contig, or on
/// the same contig with no later start.
pub open spec fn no_later(a: (usize, usize), b: (usize, usize)) -> bool {
    a.0 < b.0 || (a.0 == b.0 && a.1 <= b.1)
}

/// The contig and start of a summary that has a position.
pub open spec fn position_of(summary: AlignmentSummary) -> Option<(usize, usize)> {
    match placement_spec(summary) {
        Some((id, start, _, _)) => Some((id, start)),
        None => None,
    }
}

/// In a stream that is accepted, every record reaches the indexer with its
/// own byte range, in input order; the byte ranges ascend; and the records
/// that have a position ascend by contig and start, each on a contig that
/// the header declares. So a stream that steps backwards yields no index.
pub proof fn lemma_accepted_is_sorted(summaries: Seq<AlignmentSummary>, contig_count: usize)
    requires
        accepted(summaries, contig_count).is_ok(),
    ensures
        accepted(summaries, contig_count).unwrap().len() == summaries.len(),
        forall|i: int|
            0 <= i < summaries.len() ==> accepted(summaries, contig_count).unwrap()[i] == entry_of(
                #[trigger] summaries[i],
            ),
        offsets_ascending(accepted(summaries, contig_count).unwrap()),
        forall|i: int|
            0 <= i < summaries.len() ==> (position_of(#[trigger] summaries[i]) matches Some(p) ==> p.0
                < contig_count && p.1 >= 1),
        forall|i: int, j: int|
            0 <= i <= j < summaries.len() ==> (position_of(#[trigger] summaries[i]) matches Some(a) ==> (
            position_of(#[trigger] summaries[j]) matches Some(b) ==> no_later(a, b))),
        forall|i: int|
            0 <= i < summaries.len() ==> (position_of(#[trigger] summaries[i]) matches Some(a) ==> (
            last_placed(accepted(summaries, contig_count).unwrap()) matches Some(b) && no_later(a, b))),
    decreases summaries.len(),
{
    if summaries.len() > 0 {
        let front = summaries.drop_last();
        let last = summaries.last();
        lemma_accepted_is_sorted(front, contig_count);
        let prior = accepted(front, contig_count).unwrap();
        let entries = accepted(summaries, contig_count).unwrap();
        assert(entries == prior.push(entry_of(last)));
        assert(entries.drop_last() =~= prior);
        assert(check_record(prior, last, contig_count).is_none());
        assert forall|i: int| 0 <= i < front.len() implies front[i] == summaries[i] by {}
        assert forall|i: int| 0 <= i < summaries.len() implies (position_of(#[trigger] summaries[i]) matches Some(a)
            ==> (last_placed(entries) matches Some(b) && no_later(a, b))) by {
            if i < front.len() {
                assert(front[i] == summaries[i]);
            }
        }
        assert forall|i: int, j: int| 0 <= i <= j < summaries.len() implies (position_of(
            #[trigger] summaries[i],
        ) matches Some(a) ==> (position_of(#[trigger] summaries[j]) matches Some(b) ==> no_later(a, b))) by {
            if i < front.len() {
                assert(front[i] == summaries[i]);
            }
            if j < front.len() {
                assert(front[j] == summaries[j]);
            }
        }
        assert forall|i: int| 0 <= i < summaries.len() implies (position_of(#[trigger] summaries[i]) matches Some(p)
            ==> p.0 < contig_count && p.1 >= 1) by {
            if i < front.len() {
                assert(front[i] == summaries[i]);
            }
        }
        assert forall|i: int| 0 <= i < summaries.len() implies entries[i] == entry_of(#[trigger] summaries[i]) by {
            if i < front.len() {
                assert(front[i] == summaries[i]);
                assert(entries[i] == prior[i]);
            }
        }
        assert forall|i: int| 0 <= i < entries.len() implies {
            &&& (#[trigger] entries[i]).1.0 <= entries[i].1.1
            &&& (i > 0 ==> entries[i - 1].1.1 <= entries[i].1.0)
        } by {
            if i < prior.len() {
                assert(entries[i] == prior[i]);
                if i > 0 {
                    assert(entries[i - 1] == prior[i - 1]);
                }
            } else if i > 0 {
                assert(entries[i - 1] == prior[i - 1]);
            }
        }
    }
}

/// A stream in which a record with a position comes after one that lies
/// later, on the same or a later contig, is never accepted.
pub proof fn lemma_step_backwards_is_refused(summaries: Seq<AlignmentSummary>, contig_count: usize, i: int, j: int)
    requires
        0 <= i < j < summaries.len(),
        position_of(summaries[i]).is_some(),
        position_of(summaries[j]).is_some(),
        !no_later(position_of(summaries[i]).unwrap(), position_of(summaries[j]).unwrap()),
    ensures
        accepted(summaries, contig_count).is_err(),
        index_outcome(true, summaries, contig_count).is_err(),
{
    if accepted(summaries, contig_count).is_ok() {
        lemma_accepted_is_sorted(summaries, contig_count);
    }
}

/// A stream that is not declared coordinate-sorted never yields an index.
pub proof fn lemma_unsorted_is_refused(summaries: Seq<AlignmentSummary>, contig_count: usize)
    ensures
        index_outcome(false, summaries, contig_count) == Err::<IndexModel, Error>(Error::NotCoordinateSorted),
{
}

} // verus!

use crate::error::Error;
use vstd::prelude::*;

verus! {

/// A target interval: 1-based, both ends inclusive, on the contig with the
/// given position in the alignment header.
#[derive(Clone, Copy, Debug, PartialEq, Eq, Structural)]
pub struct TargetRegion {
    pub contig_id: usize,
    pub start: usize,
    pub end: usize,
}

/// One record of an interval list as it is read: 0-based, half-open.
/// A coordinate that the source could not resolve is `None`.
#[derive(Clone, Debug)]
pub struct RegionRecord {
    pub contig_name: Vec<u8>,
    pub start: Option<usize>,
    pub end: Option<usize>,
}

/// The names of a header's contigs as byte sequences, in header order.
pub open spec fn names_view(names: &Vec<Vec<u8>>) -> Seq<Seq<u8>> {
    Seq::new(names@.len(), |i: int| names@[i]@)
}

/// The position of the first contig called `name` at or after `from`.
pub open spec fn lookup_from(names: Seq<Seq<u8>>, name: Seq<u8>, from: int) -> Option<usize>
    decreases names.len() - from,
{
    if from < 0 || from >= names.len() {
        None
    } else if names[from] == name {
        Some(from as usize)
    } else {
        lookup_from(names, name, from + 1)
    }
}

/// The id of the contig called `name`: its position in the header.
pub open spec fn contig_lookup(names: Seq<Seq<u8>>, name: Seq<u8>) -> Option<usize> {
    lookup_from(names, name, 0)
}

/// The 1-based inclusive interval that a record stands for, if it has one:
/// the start moves up by one, the end stays, and both must be positive.
pub open spec fn to_region(contig_id: usize, start: Option<usize>, end: Option<usize>) -> Option<
    TargetRegion,
> {
    match (start, end) {
        (Some(s), Some(e)) => if s < usize::MAX && e >= 1 {
            Some(TargetRegion { contig_id, start: (s + 1) as usize, end: e })
        } else {
            None
        },
        _ => None,
    }
}

/// What loading `records` against a header with contigs `names` gives:
/// records on unknown contigs are skipped, the first record on a known
/// contig that has no interval fails the load.
pub open spec fn loaded(records: Seq<RegionRecord>, names: Seq<Seq<u8>>) -> Result<
    Set<TargetRegion>,
    Error,
>
    decreases records.len(),
{
    if records.len() == 0 {
        Ok(Set::empty())
    } else {
        let last = records.last();
        match loaded(records.drop_last(), names) {
            Err(e) => Err(e),
            Ok(set) => match contig_lookup(names, last.contig_name@) {
                None => Ok(set),
                Some(id) => match to_region(id, last.start, last.end) {
                    None => Err(Error::MalformedRegion),
                    Some(region) => Ok(set.insert(region)),
                },
            },
        }
    }
}

/// Whether two byte strings are equal.
pub fn bytes_eq(a: &Vec<u8>, b: &Vec<u8>) -> (same: bool)
    ensures
        same == (a@ == b@),
{
    if a.len() != b.len() {
        return false;
    }
    let mut i: usize = 0;
    while i < a.len()
        invariant
            a@.len() == b@.len(),
            i <= a@.len(),
            forall|j: int| 0 <= j < i ==> a@[j] == b@[j],
        decreases a@.len() - i,
    {
        if a[i] != b[i] {
            return false;
        }
        i += 1;
    }
    assert(a@ =~= b@);
    true
}

/// Finds the id of the contig called `name`.
pub fn find_contig(names: &Vec<Vec<u8>>, name: &Vec<u8>) -> (id: Option<usize>)
    ensures
        id == contig_lookup(names_view(names), name@),
        id matches Some(i) ==> i < names@.len() && names@[i as int]@ == name@,
{
    let mut i: usize = 0;
    while i < names.len()
        invariant
            i <= names@.len(),
            contig_lookup(names_view(names), name@) == lookup_from(names_view(names), name@, i as int),
        decreases names@.len() - i,
    {
        if bytes_eq(&names[i], name) {
            return Some(i);
        }
        i += 1;
    }
    None
}

/// Turns one record's coordinates into a target interval on contig `contig_id`.
pub fn resolve_region(contig_id: usize, start: Option<usize>, end: Option<usize>) -> (region:
    Result<TargetRegion, Error>)
    ensures
        region == match to_region(contig_id, start, end) {
            Some(r) => Ok::<TargetRegion, Error>(r),
            None => Err(Error::MalformedRegion),
        },
{
    match (start, end) {
        (Some(s), Some(e)) => {
            if s < usize::MAX && e >= 1 {
                Ok(TargetRegion { contig_id, start: s + 1, end: e })
            } else {
                Err(Error::MalformedRegion)
            }
        },
        _ => Err(Error::MalformedRegion),
    }
}

/// A set of target intervals, each held once.
pub struct RegionSet {
    regions: Vec<TargetRegion>,
}

impl View for RegionSet {
    type V = Set<TargetRegion>;

    closed spec fn view(&self) -> Set<TargetRegion> {
        Set::new(|r: TargetRegion| self.regions@.contains(r))
    }
}

impl RegionSet {
    /// No interval is held twice.
    pub closed spec fn wf(&self) -> bool {
        forall|i: int, j: int|
            0 <= i < j < self.regions@.len() ==> self.regions@[i] != self.regions@[j]
    }

    /// The intervals in the order in which they were first inserted.
    pub closed spec fn items(&self) -> Seq<TargetRegion> {
        self.regions@
    }

    /// `items` lists exactly the members, each once.
    pub proof fn lemma_items(&self)
        requires
            self.wf(),
        ensures
            self.items().no_duplicates(),
            forall|r: TargetRegion| self@.contains(r) <==> self.items().contains(r),
            self@.finite(),
            self@.len() == self.items().len(),
    {
        assert(self@ =~= self.items().to_set());
        self.items().unique_seq_to_set();
    }

    pub fn new() -> (set: RegionSet)
        ensures
            set.wf(),
            set@ == Set::<TargetRegion>::empty(),
            set.items() == Seq::<TargetRegion>::empty(),
    {
        let set = RegionSet { regions: Vec::new() };
        assert(set@ =~= Set::<TargetRegion>::empty());
        set
    }

    pub fn len(&self) -> (n: usize)
        ensures
            n == self.items().len(),
    {
        self.regions.len()
    }

    /// The `i`-th interval in insertion order.
    pub fn get(&self, i: usize) -> (region: TargetRegion)
        requires
            i < self.items().len(),
        ensures
            region == self.items()[i as int],
    {
        self.regions[i]
    }

    pub fn contains(&self, region: TargetRegion) -> (found: bool)
        ensures
            found == self@.contains(region),
    {
        let mut i: usize = 0;
        while i < self.regions.len()
            invariant
                i <= self.regions@.len(),
                forall|j: int| 0 <= j < i ==> self.regions@[j] != region,
            decreases self.regions@.len() - i,
        {
            if self.regions[i] == region {
                return true;
            }
            i += 1;
        }
        false
    }

    /// Adds an interval; one that is already held changes nothing.
    /// Returns whether the interval was new.
    pub fn insert(&mut self, region: TargetRegion) -> (added: bool)
        requires
            old(self).wf(),
        ensures
            final(self).wf(),
            final(self)@ == old(self)@.insert(region),
            added == !old(self)@.contains(region),
            final(self).items() == if added {
                old(self).items().push(region)
            } else {
                old(self).items()
            },
    {
        if self.contains(region) {
            assert(self@ =~= self@.insert(region));
            false
        } else {
            let ghost before = self.regions@;
            self.regions.push(region);
            assert forall|r: TargetRegion| #[trigger]
                self.regions@.contains(r) <==> (before.contains(r) || r == region) by {
                if before.contains(r) {
                    let k = choose|k: int| 0 <= k < before.len() && before[k] == r;
                    assert(self.regions@[k] == r);
                }
                if r == region {
                    assert(self.regions@[before.len() as int] == r);
                }
            }
            assert(self@ =~= old(self)@.insert(region));
            true
        }
    }

    /// Builds the set from the records of an interval list and the contig
    /// names of the alignment header.
    pub fn load(records: &Vec<RegionRecord>, names: &Vec<Vec<u8>>) -> (out: Result<
        RegionSet,
        Error,
    >)
        ensures
            match out {
                Ok(set) => set.wf() && loaded(records@, names_view(names)) == Ok::<
                    Set<TargetRegion>,
                    Error,
                >(set@),
                Err(e) => loaded(records@, names_view(names)) == Err::<Set<TargetRegion>, Error>(e),
            },
    {
        let mut set = RegionSet::new();
        let mut i: usize = 0;
        while i < records.len()
            invariant
                i <= records@.len(),
                set.wf(),
                loaded(records@.take(i as int), names_view(names)) == Ok::<
                    Set<TargetRegion>,
                    Error,
                >(set@),
            decreases records@.len() - i,
        {
            proof {
                assert(records@.take(i + 1).drop_last() =~= records@.take(i as int));
                lemma_loaded_error_stays(records@, names_view(names), i + 1);
            }
            let record = &records[i];
            match find_contig(names, &record.contig_name) {
                None => {},
                Some(id) => match resolve_region(id, record.start, record.end) {
                    Err(e) => {
                        return Err(e);
                    },
                    Ok(region) => {
                        set.insert(region);
                    },
                },
            }
            i += 1;
        }
        assert(records@.take(i as int) =~= records@);
        Ok(set)
    }
}

/// A load that fails on a prefix of the records fails in the same way on all of them.
pub proof fn lemma_loaded_error_stays(records: Seq<RegionRecord>, names: Seq<Seq<u8>>, n: int)
    requires
        0 <= n <= records.len(),
    ensures
        loaded(records.take(n), names) matches Err(e) ==> loaded(records, names) == Err::<
            Set<TargetRegion>,
            Error,
        >(e),
    decreases records.len() - n,
{
    if n < records.len() {
        assert(records.take(n + 1).drop_last() =~= records.take(n));
        lemma_loaded_error_stays(records, names, n + 1);
    } else {
        assert(records.take(n) =~= records);
    }
}

/// The interval that one record contributes: none when its contig is
/// unknown or its coordinates cannot be resolved.
pub open spec fn region_of(record: RegionRecord, names: Seq<Seq<u8>>) -> Option<TargetRegion> {
    match contig_lookup(names, record.contig_name@) {
        Some(id) => to_region(id, record.start, record.end),
        None => None,
    }
}

/// A record is malformed when its contig is known and its coordinates
/// cannot be resolved.
pub open spec fn malformed(record: RegionRecord, names: Seq<Seq<u8>>) -> bool {
    contig_lookup(names, record.contig_name@).is_some() && region_of(record, names).is_none()
}

/// A load succeeds exactly when no record is malformed, and then holds
/// exactly the intervals that the records contribute.
pub proof fn lemma_loaded_members(records: Seq<RegionRecord>, names: Seq<Seq<u8>>)
    ensures
        loaded(records, names).is_ok() <==> forall|i: int|
            0 <= i < records.len() ==> !malformed(#[trigger] records[i], names),
        loaded(records, names) matches Err(e) ==> e == Error::MalformedRegion,
        loaded(records, names) matches Ok(set) ==> forall|r: TargetRegion|
            set.contains(r) <==> exists|i: int|
                0 <= i < records.len() && region_of(#[trigger] records[i], names) == Some(r),
    decreases records.len(),
{
    if records.len() > 0 {
        let front = records.drop_last();
        let last = records.last();
        lemma_loaded_members(front, names);
        assert forall|i: int| 0 <= i < front.len() implies front[i] == records[i] by {}
        if loaded(front, names).is_ok() {
            if !malformed(last, names) {
                assert forall|i: int| 0 <= i < records.len() implies !malformed(#[trigger] records[i], names) by {
                    if i < front.len() {
                        assert(front[i] == records[i]);
                    }
                }
                let before = loaded(front, names).unwrap();
                let set = loaded(records, names).unwrap();
                assert forall|r: TargetRegion|
                    set.contains(r) <==> exists|i: int|
                        0 <= i < records.len() && region_of(#[trigger] records[i], names) == Some(r) by {
                    if set.contains(r) {
                        if before.contains(r) {
                            let i = choose|i: int|
                                0 <= i < front.len() && region_of(#[trigger] front[i], names) == Some(r);
                            assert(region_of(records[i], names) == Some(r));
                        } else {
                            assert(region_of(records[records.len() - 1], names) == Some(r));
                        }
                    }
                    if exists|i: int|
                        0 <= i < records.len() && region_of(#[trigger] records[i], names) == Some(r) {
                        let i = choose|i: int|
                            0 <= i < records.len() && region_of(#[trigger] records[i], names) == Some(r);
                        if i < front.len() {
                            assert(region_of(front[i], names) == Some(r));
                        }
                    }
                }
            } else {
                assert(malformed(records[records.len() - 1], names));
            }
        } else {
            let i = choose|i: int| 0 <= i < front.len() && malformed(#[trigger] front[i], names);
            assert(malformed(records[i], names));
        }
    }
}

/// A record on a contig that the header does not name leaves the loaded
/// set as it was, whatever its coordinates.
pub proof fn lemma_unknown_contig_dropped(records: Seq<RegionRecord>, names: Seq<Seq<u8>>, extra: RegionRecord)
    requires
        contig_lookup(names, extra.contig_name@).is_none(),
    ensures
        loaded(records.push(extra), names) == loaded(records, names),
{
    assert(records.push(extra).drop_last() =~= records);
}

/// A record on a known contig with both coordinates in range adds its
/// interval, 1-based and inclusive, to the loaded set.
pub proof fn lemma_known_contig_inserted(records: Seq<RegionRecord>, names: Seq<Seq<u8>>, extra: RegionRecord)
    requires
        loaded(records, names).is_ok(),
        contig_lookup(names, extra.contig_name@).is_some(),
        to_region(contig_lookup(names, extra.contig_name@).unwrap(), extra.start, extra.end).is_some(),
    ensures
        loaded(records.push(extra), names) == Ok::<Set<TargetRegion>, Error>(
            loaded(records, names).unwrap().insert(
                to_region(contig_lookup(names, extra.contig_name@).unwrap(), extra.start, extra.end).unwrap(),
            ),
        ),
{
    assert(records.push(extra).drop_last() =~= records);
}

} // verus!

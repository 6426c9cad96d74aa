use crate::classify::AlignmentSummary;
use crate::error::Error;
use crate::region::bytes_eq;
use vstd::prelude::*;

verus! {

/// One coordinate of an alignment record as its source hands it over: not
/// there, there but unreadable, or a value.
#[derive(Clone, Copy, Debug, PartialEq, Eq, Structural)]
pub enum Field {
    Absent,
    Unreadable,
    Present(usize),
}

/// A field as the index builder takes it: an unreadable one is an error.
pub open spec fn strict_spec(field: Field) -> Result<Option<usize>, Error> {
    match field {
        Field::Absent => Ok(None),
        Field::Unreadable => Err(Error::MalformedRecord),
        Field::Present(v) => Ok(Some(v)),
    }
}

/// A field as the classifier takes it: an unreadable one counts as absent.
pub open spec fn lenient_spec(field: Field) -> Option<usize> {
    match field {
        Field::Present(v) => Some(v),
        _ => None,
    }
}

/// Contig, start and end of a record for the index builder: the three
/// values when none is unreadable.
pub open spec fn alignment_context_spec(contig: Field, start: Field, end: Field) -> Result<
    (Option<usize>, Option<usize>, Option<usize>),
    Error,
> {
    match (strict_spec(contig), strict_spec(start), strict_spec(end)) {
        (Ok(c), Ok(s), Ok(e)) => Ok((c, s, e)),
        _ => Err(Error::MalformedRecord),
    }
}

/// The bytes of the sort-order tag value that declares ascending coordinates.
pub open spec fn coordinate_tag() -> Seq<u8> {
    seq![99u8, 111u8, 111u8, 114u8, 100u8, 105u8, 110u8, 97u8, 116u8, 101u8]
}

pub fn strict(field: Field) -> (out: Result<Option<usize>, Error>)
    ensures
        out == strict_spec(field),
{
    match field {
        Field::Absent => Ok(None),
        Field::Unreadable => Err(Error::MalformedRecord),
        Field::Present(v) => Ok(Some(v)),
    }
}

pub fn lenient(field: Field) -> (out: Option<usize>)
    ensures
        out == lenient_spec(field),
{
    match field {
        Field::Present(v) => Some(v),
        _ => None,
    }
}

/// Resolves contig, start and end of a record for the index builder.
pub fn alignment_context(contig: Field, start: Field, end: Field) -> (out: Result<
    (Option<usize>, Option<usize>, Option<usize>),
    Error,
>)
    ensures
        out == alignment_context_spec(contig, start, end),
{
    let c = match strict(contig) {
        Ok(c) => c,
        Err(e) => {
            return Err(e);
        },
    };
    let s = match strict(start) {
        Ok(s) => s,
        Err(e) => {
            return Err(e);
        },
    };
    let e = match strict(end) {
        Ok(e) => e,
        Err(e) => {
            return Err(e);
        },
    };
    Ok((c, s, e))
}

/// The summary of a record for the index builder. A record with an
/// unreadable coordinate is refused.
pub fn summarize_strict(contig: Field, start: Field, end: Field, is_mapped: bool, byte_range: (u64, u64)) -> (out:
    Result<AlignmentSummary, Error>)
    ensures
        out == match alignment_context_spec(contig, start, end) {
            Ok((c, s, e)) => Ok::<AlignmentSummary, Error>(
                (AlignmentSummary { contig_id: c, start: s, end: e, is_mapped, byte_range }),
            ),
            Err(e) => Err(e),
        },
{
    match alignment_context(contig, start, end) {
        Ok((c, s, e)) => Ok(AlignmentSummary { contig_id: c, start: s, end: e, is_mapped, byte_range }),
        Err(e) => Err(e),
    }
}

/// The summary of a record for the classifier. An unreadable coordinate
/// counts as absent, so the record matches nothing at that end.
pub fn summarize_lenient(contig: Field, start: Field, end: Field, is_mapped: bool, byte_range: (u64, u64)) -> (out:
    AlignmentSummary)
    ensures
        out == (AlignmentSummary {
            contig_id: lenient_spec(contig),
            start: lenient_spec(start),
            end: lenient_spec(end),
            is_mapped,
            byte_range,
        }),
{
    AlignmentSummary {
        contig_id: lenient(contig),
        start: lenient(start),
        end: lenient(end),
        is_mapped,
        byte_range,
    }
}

/// Whether a header declares its records sorted by ascending coordinate:
/// it carries a sort-order tag, and the tag's value is `coordinate`.
pub fn is_coordinate_sorted(sort_order: &Option<Vec<u8>>) -> (sorted: bool)
    ensures
        sorted == (*sort_order matches Some(tag) && tag@ == coordinate_tag()),
{
    match sort_order {
        None => false,
        Some(tag) => {
            let expected: Vec<u8> = vec![99, 111, 111, 114, 100, 105, 110, 97, 116, 101];
            assert(expected@ =~= coordinate_tag());
            bytes_eq(tag, &expected)
        },
    }
}

} // verus!

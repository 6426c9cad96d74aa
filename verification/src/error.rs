use vstd::prelude::*;

verus! {

/// The fatal conditions that the library itself detects.
#[derive(Clone, Copy, Debug, PartialEq, Eq, Structural)]
pub enum Error {
    /// The stream handed to the index builder is not in ascending coordinate order.
    NotCoordinateSorted,
    /// An interval-list record on a known contig has no positive 1-based coordinates.
    MalformedRegion,
    /// An alignment record carries coordinates that cannot be used.
    MalformedRecord,
    /// The built index does not hold one entry per declared contig.
    ReferenceCountMismatch,
}

impl Error {
    /// A one-line description for the user.
    pub fn message(&self) -> (text: &'static str)
        ensures
            text@ == error_text(*self),
    {
        match self {
            Error::NotCoordinateSorted => "the input must be coordinate-sorted to be indexed",
            Error::MalformedRegion => "an interval has no resolvable start or end",
            Error::MalformedRecord => "an alignment record has unusable coordinates",
            Error::ReferenceCountMismatch => "the index and the header disagree on the number of contigs",
        }
    }
}

/// The text that `Error::message` returns for each condition.
pub open spec fn error_text(e: Error) -> Seq<char> {
    match e {
        Error::NotCoordinateSorted => "the input must be coordinate-sorted to be indexed"@,
        Error::MalformedRegion => "an interval has no resolvable start or end"@,
        Error::MalformedRecord => "an alignment record has unusable coordinates"@,
        Error::ReferenceCountMismatch => "the index and the header disagree on the number of contigs"@,
    }
}

} // verus!

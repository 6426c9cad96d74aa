//! Splits sequencing-read alignments by how their ends line up with a set of
//! target regions, and builds a binning index over a coordinate-sorted stream
//! of alignment summaries.

pub mod classify;
pub mod cli;
pub mod error;
pub mod index;
pub mod partition;
pub mod record;
pub mod region;

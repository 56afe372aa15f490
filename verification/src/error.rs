use vstd::prelude::*;

verus! {

/// Errors reported by the library. The messages are fixed strings that
/// callers and tests compare against.
#[derive(Clone, Debug, PartialEq, Eq)]
pub enum TvmError {
    InvalidReceipt(&'static str),
    InvalidChunk { chunk_index: u64 },
    Storage(&'static str),
    DimensionMismatch { left: Vec<usize>, right: Vec<usize> },
    UnsupportedRank { rank: usize },
}

pub type Result<T> = core::result::Result<T, TvmError>;

} // verus!

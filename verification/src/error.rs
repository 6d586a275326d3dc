use vstd::prelude::*;

verus! {

/// Why reading a chunk from bytes failed.
#[derive(Debug, Clone, Copy, PartialEq, Eq, Structural)]
pub enum M2Error {
    /// The input ended before every byte that the record needs was read.
    UnexpectedEof,
}

} // verus!

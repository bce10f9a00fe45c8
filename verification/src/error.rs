//! Errors surfaced by the bookmark store.
//!
//! Lookups signal "not found" with `None`; only the operations below
//! fail with an error.  The first four variants are failures of the
//! table boundary (a sentinel came back, or would have been handed in);
//! `Encoding` is raised before the table is touched, when a description
//! cannot be converted to the table's text representation.

use vstd::prelude::*;

verus! {

/// Why a bookmark operation failed.  Each variant carries the offending
/// address or index for diagnosis.
#[derive(Debug, Clone, Copy, PartialEq, Eq, Structural)]
pub enum IDAError {
    /// Setting a description on a bookmark whose slot has no valid
    /// address.
    NoValidAddress { index: usize },
    /// Marking was refused: the sentinel address or the sentinel index
    /// was requested.
    MarkFailed { address: u64, index: usize },
    /// Erasing was refused: the index is not below the table's length.
    EraseFailed { index: usize },
    /// Erasing by address found no bookmark at that address.
    AddressNotFound { address: u64 },
    /// The description text cannot be represented in the table (it
    /// contains an embedded terminator).
    Encoding,
}

impl IDAError {
    /// Whether this error reports a failure of the table boundary, as
    /// opposed to a text-encoding failure caught before the table was
    /// touched.
    pub fn is_ffi(&self) -> (r: bool)
        ensures
            r == !(*self is Encoding),
    {
        !matches!(self, IDAError::Encoding)
    }
}

} // verus!

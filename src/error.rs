use vstd::prelude::*;

verus! {

/// Why a publication cycle cannot go ahead.
#[derive(Clone, Copy, Debug, PartialEq, Eq, Structural)]
pub enum RsyncError {
    /// The ledger file does not hold a well-formed ledger.
    CorruptLedger,
    /// The new revision is already current or deprecated.
    RevisionExists,
    /// An object's URI is not a valid rsync URI.
    InvalidUri,
}

} // verus!

//! Positions in the write-ahead log.

use vstd::prelude::*;

verus! {

/// A 64-bit position in the write-ahead log.
#[derive(Clone, Copy, Debug, PartialEq, Eq, Structural, Hash)]
pub struct Lsn(pub u64);

impl Lsn {
    /// The position that stands for "no position".
    pub open spec fn spec_invalid() -> Lsn {
        Lsn(0)
    }

    /// The position that stands for "no position".
    #[verifier::when_used_as_spec(spec_invalid)]
    pub fn invalid() -> (r: Lsn)
        ensures
            r == Lsn(0),
    {
        Lsn(0)
    }

    /// Whether this is a real position.
    pub fn is_valid(&self) -> (r: bool)
        ensures
            r == (self.0 != 0),
    {
        self.0 != 0
    }
}

} // verus!

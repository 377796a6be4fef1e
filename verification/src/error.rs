//! What can go wrong in the library.

use vstd::prelude::*;

verus! {

#[derive(Debug, Clone, Copy, PartialEq, Eq, Structural)]
pub enum Error {
    /// A property value is invalid.
    InvalidProperty,
    /// An index value is invalid.
    InvalidIndex,
    /// A title or process pattern is not a valid regular expression. The
    /// entry that holds it is skipped; the entries after it are still handled.
    InvalidPattern,
    /// The platform could not list its windows or monitors. Nothing is
    /// staged.
    PlatformEnumerationFailure,
    /// A position that a cascade would give out lies beyond the largest
    /// coordinate. Nothing is staged.
    PositionOutOfRange,
    /// One window's update could not be staged. The other updates of the
    /// batch are staged all the same.
    StagingFailure,
    /// The platform rejected the commit of a batch, with this code. None of
    /// the batch is applied.
    CommitFailure(u32),
}

} // verus!

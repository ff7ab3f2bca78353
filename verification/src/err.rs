//! The failures a transaction can report.

use vstd::prelude::*;

verus! {

/// An error returned by a transaction operation.
///
/// Every error is diagnostic, not terminal: after any of these the
/// transaction stays usable, and only `commit` or `cancel` terminate it.
#[derive(Clone, Copy, Debug, PartialEq, Eq, Structural)]
pub enum Error {
    /// The operation was attempted on a terminated transaction.
    TxClosed,
    /// A mutating operation or `commit` was attempted on a read-only
    /// transaction.
    TxNotWritable,
    /// `put` found the key already present.
    KeyAlreadyExists,
    /// `putc` or `delc` found the current value different from the
    /// expected one.
    ValNotExpectedValue,
}

} // verus!

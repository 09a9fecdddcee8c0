//! The ways in which an operation of this library is refused.

use vstd::prelude::*;

verus! {

/// Why an operation on scalars, points, rings or the registry was refused.
#[derive(Clone, Copy, Debug, PartialEq, Eq, Structural)]
pub enum Error {
    /// An integer that is not reduced modulo the group order.
    InvalidScalar,
    /// A residue that is not an element of the group.
    InvalidPoint,
    /// A ring of fewer than two members.
    InvalidRingSize,
    /// A signer position past the end of the ring.
    IndexOutOfRange,
    /// Signature data whose shape does not fit the ring.
    MalformedSignature,
    /// A key image that the registry already holds.
    DoubleSpend,
}

/// Why a transaction was not accepted.
#[derive(Clone, Copy, Debug, PartialEq, Eq, Structural)]
pub enum TxError {
    /// The ring has fewer than two members.
    InvalidRingSize,
    /// The signature's shape does not fit the ring.
    MalformedSignature,
    /// The challenge chain does not close on the signed message.
    InvalidSignature,
    /// The key image was spent before.
    DoubleSpend,
}

} // verus!

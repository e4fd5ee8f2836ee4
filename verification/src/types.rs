use vstd::prelude::*;

verus! {

/// An account or contract on the ledger, identified by a number.
///
/// Contract logic only ever compares addresses for equality, so the
/// identifier is all that the library keeps of one.
#[derive(Clone, Copy, Debug, PartialEq, Eq, Structural, Hash)]
pub struct Address(pub u64);

} // verus!

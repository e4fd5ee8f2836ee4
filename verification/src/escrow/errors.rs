use vstd::prelude::*;

verus! {

/// Why the escrow contract refused a call.
#[derive(Clone, Copy, Debug, PartialEq, Eq, Structural)]
pub enum EscrowError {
    AlreadyExists,
    NotActive,
    WorkNotSubmitted,
    InvalidAmount,
    DeadlineNotPassed,
    NotExpired,
    Unauthorized,
    Paused,
    TokenNotAllowed,
    NotRecurring,
    RecurrenceComplete,
    IntervalNotElapsed,
}

} // verus!

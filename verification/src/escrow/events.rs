use vstd::prelude::*;
use crate::types::Address;

verus! {

/// What the escrow contract publishes when its state changes.
#[derive(Debug)]
pub enum EscrowEvent {
    EscrowCreated { payer: Address, freelancer: Address, amount: i128, milestone: String },
    WorkSubmitted { freelancer: Address },
    PaymentReleased { freelancer: Address, amount: i128 },
    RecurringReleased { freelancer: Address, amount: i128, releases_made: u32 },
    EscrowCancelled { payer: Address, amount: i128 },
    EscrowExpired { payer: Address, amount: i128 },
    FreelancerTransferred { old: Address, new: Address },
    ContractPaused { admin: Address },
    ContractUnpaused { admin: Address },
    YieldDeposited { protocol: Address, amount: i128 },
}

} // verus!

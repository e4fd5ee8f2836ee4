use star_escrow::escrow::contract::{Effects, ReputationRecord};
use star_escrow::escrow::{EscrowContract, EscrowError, EscrowStatus, YieldRecipient};
use star_escrow::reputation::ReputationContract;
use star_escrow::types::Address;
use std::collections::HashMap;

const PAYER: Address = Address(1);
const FREELANCER: Address = Address(2);
const ADMIN: Address = Address(3);
const FEE_COLLECTOR: Address = Address(4);
const TOKEN: Address = Address(10);
const CONTRACT: Address = Address(20);
const REPUTATION: Address = Address(21);

/// An escrow contract wired to a reputation contract, with a token ledger
/// on which the contract's payments are carried out.
struct Setup {
    contract: EscrowContract,
    rep: ReputationContract,
    balances: HashMap<Address, i128>,
    now: u64,
}

impl Setup {
    fn new() -> Self {
        let mut s = Setup::bare(0);
        s.rep.init(ADMIN).unwrap();
        s.rep.register_caller(CONTRACT).unwrap();
        s.contract.set_reputation_contract(REPUTATION);
        s
    }

    fn bare(fee_bps: u32) -> Self {
        let mut s = Setup {
            contract: EscrowContract::new(CONTRACT),
            rep: ReputationContract::new(),
            balances: HashMap::new(),
            now: 0,
        };
        s.balances.insert(PAYER, 1000);
        let e = s.contract.init(ADMIN, fee_bps, FEE_COLLECTOR).unwrap();
        assert_eq!(e.auth, Some(ADMIN));
        s
    }

    fn balance(&self, a: Address) -> i128 {
        *self.balances.get(&a).unwrap_or(&0)
    }

    fn apply(&mut self, e: &Effects) {
        for t in e.transfers.iter() {
            assert_eq!(t.token, TOKEN);
            let from = self.balance(t.from) - t.amount;
            assert!(from >= 0, "insufficient balance");
            self.balances.insert(t.from, from);
            let to = self.balance(t.to) + t.amount;
            self.balances.insert(t.to, to);
        }
        if let Some(call) = e.reputation {
            assert_eq!(call.contract, REPUTATION);
            match call.record {
                ReputationRecord::Completion => {
                    self.rep.record_completion(call.caller, call.address).result.unwrap();
                }
                ReputationRecord::Cancellation => {
                    self.rep.record_cancellation(call.caller, call.address).result.unwrap();
                }
            }
        }
    }

    fn try_create(&mut self, amount: i128, milestone: &str, deadline: Option<u64>) -> Result<(), EscrowError> {
        let e = self.contract.create(
            PAYER,
            FREELANCER,
            TOKEN,
            amount,
            milestone.to_string(),
            deadline,
            None,
            YieldRecipient::Payer,
            0,
            0,
            self.now,
        )?;
        self.apply(&e);
        Ok(())
    }

    fn simple_create(&mut self, amount: i128, milestone: &str) {
        self.try_create(amount, milestone, None).unwrap();
    }

    fn submit_work(&mut self) {
        let e = self.contract.submit_work().unwrap();
        self.apply(&e);
    }

    fn approve(&mut self) {
        let e = self.contract.approve(None).unwrap();
        self.apply(&e);
    }

    fn cancel(&mut self) {
        let e = self.contract.cancel(None).unwrap();
        self.apply(&e);
    }
}

#[test]
fn test_full_happy_path() {
    let mut s = Setup::new();
    s.simple_create(500, "Deliver MVP");
    s.submit_work();
    s.approve();
    assert_eq!(s.balance(FREELANCER), 500);
}

#[test]
fn test_cancel_refunds_payer() {
    let mut s = Setup::new();
    s.simple_create(300, "Design mockups");
    s.cancel();
    assert_eq!(s.balance(PAYER), 1000);
}

#[test]
fn test_approve_before_submit_fails() {
    let mut s = Setup::new();
    s.simple_create(100, "Early approve");
    let err = s.contract.approve(None).unwrap_err();
    assert_eq!(err, EscrowError::WorkNotSubmitted);
}

#[test]
fn escrow_tests_test_approve_before_submit_fails() {
    let mut s = Setup::new();
    s.simple_create(100, "Cancel after submit");
    s.submit_work();
    let err = s.contract.cancel(None).unwrap_err();
    assert_eq!(err, EscrowError::NotActive);
}

#[test]
fn test_double_create_fails() {
    let mut s = Setup::new();
    s.simple_create(100, "First");
    let err = s.try_create(100, "Second", None).unwrap_err();
    assert_eq!(err, EscrowError::AlreadyExists);
}

#[test]
fn test_invalid_amount_fails() {
    let mut s = Setup::new();
    let err = s.try_create(0, "Bad", None).unwrap_err();
    assert_eq!(err, EscrowError::InvalidAmount);
}

#[test]
fn test_get_status_lifecycle() {
    let mut s = Setup::new();
    s.simple_create(100, "Status test");
    assert_eq!(s.contract.get_status(), EscrowStatus::Active);
    s.submit_work();
    assert_eq!(s.contract.get_status(), EscrowStatus::WorkSubmitted);
    s.approve();
    assert_eq!(s.contract.get_status(), EscrowStatus::Completed);
}

#[test]
fn test_expire_before_deadline_fails() {
    let mut s = Setup::new();
    s.now = 100;
    s.try_create(100, "Expire test", Some(500)).unwrap();
    let err = s.contract.expire(s.now, None).unwrap_err();
    assert_eq!(err, EscrowError::DeadlineNotPassed);
}

#[test]
fn test_get_status_expired() {
    let mut s = Setup::new();
    s.now = 100;
    s.try_create(100, "Expired", Some(500)).unwrap();
    s.now = 1000;
    let e = s.contract.expire(s.now, None).unwrap();
    s.apply(&e);
    assert_eq!(s.contract.get_status(), EscrowStatus::Expired);
}

#[test]
fn test_transfer_freelancer_and_submit_work() {
    let mut s = Setup::new();
    let new_freelancer = Address(5);
    s.simple_create(400, "Subcontract");
    let e = s.contract.transfer_freelancer(new_freelancer).unwrap();
    assert_eq!(e.auth, Some(FREELANCER));
    s.submit_work();
    s.approve();
    assert_eq!(s.balance(new_freelancer), 400);
}

#[test]
fn test_pause_blocks_submit_work() {
    let mut s = Setup::new();
    s.simple_create(100, "Paused");
    s.contract.pause().unwrap();
    let err = s.contract.submit_work().unwrap_err();
    assert_eq!(err, EscrowError::Paused);
}

#[test]
fn test_unpause_restores_operations() {
    let mut s = Setup::new();
    s.contract.pause().unwrap();
    s.contract.unpause().unwrap();
    s.simple_create(100, "Unpause");
    s.submit_work();
    s.approve();
    assert_eq!(s.balance(FREELANCER), 100);
}

#[test]
fn test_fee_deducted_on_approve() {
    let mut s = Setup::bare(100);
    s.simple_create(500, "Fee test");
    s.submit_work();
    s.approve();
    assert_eq!(s.balance(FREELANCER), 495);
}

#[test]
fn test_approve_records_completion() {
    let mut s = Setup::new();
    s.simple_create(100, "Reputation completion");
    s.submit_work();
    s.approve();
    let stats = s.rep.get_stats(FREELANCER);
    assert_eq!(stats.completed, 1);
    assert_eq!(stats.cancelled, 0);
    assert_eq!(s.rep.get_reputation(FREELANCER), 10);
}

#[test]
fn test_cancel_records_cancellation() {
    let mut s = Setup::new();
    s.simple_create(100, "Reputation cancellation");
    s.cancel();
    let stats = s.rep.get_stats(FREELANCER);
    assert_eq!(stats.completed, 0);
    assert_eq!(stats.cancelled, 1);
    assert_eq!(s.rep.get_reputation(FREELANCER), 0);
}

#[test]
fn test_reputation_accumulates_across_escrows() {
    let mut s = Setup::new();
    s.rep.record_completion(CONTRACT, FREELANCER).result.unwrap();
    s.rep.record_completion(CONTRACT, FREELANCER).result.unwrap();
    s.rep.record_completion(CONTRACT, FREELANCER).result.unwrap();
    s.rep.record_cancellation(CONTRACT, FREELANCER).result.unwrap();
    assert_eq!(s.rep.get_reputation(FREELANCER), 25);
}

#[test]
fn test_get_reputation_unknown_address() {
    let s = Setup::new();
    let unknown = Address(99);
    assert_eq!(s.rep.get_reputation(unknown), 0);
}

#[test]
fn test_escrow_without_reputation_contract_still_works() {
    let mut s = Setup::bare(0);
    s.simple_create(100, "No rep");
    s.submit_work();
    let e = s.contract.approve(None).unwrap();
    assert!(e.reputation.is_none());
    s.apply(&e);
    assert_eq!(s.balance(FREELANCER), 100);
}

#[test]
fn bench_create() {
    let mut s = Setup::bare(0);
    s.balances.insert(PAYER, 1_000_000);
    s.simple_create(1000, "bench milestone");
}

#[test]
fn bench_submit_work() {
    let mut s = Setup::bare(0);
    s.balances.insert(PAYER, 1_000_000);
    s.simple_create(1000, "bench milestone");
    s.submit_work();
}

#[test]
fn bench_approve() {
    let mut s = Setup::bare(0);
    s.balances.insert(PAYER, 1_000_000);
    s.simple_create(1000, "bench milestone");
    s.submit_work();
    s.approve();
}

#[test]
fn bench_cancel() {
    let mut s = Setup::bare(0);
    s.balances.insert(PAYER, 1_000_000);
    s.simple_create(1000, "bench milestone");
    s.cancel();
}

#[test]
fn bench_expire() {
    let mut s = Setup::bare(0);
    s.balances.insert(PAYER, 1_000_000);
    s.now = 100;
    s.try_create(1000, "bench milestone", Some(500)).unwrap();
    s.now = 1000;
    let e = s.contract.expire(s.now, None).unwrap();
    s.apply(&e);
}

#[test]
fn bench_get_status() {
    let mut s = Setup::bare(0);
    s.balances.insert(PAYER, 1_000_000);
    s.simple_create(1000, "bench milestone");
    s.contract.get_status();
}

use star_escrow::reputation::{ReputationContract, ReputationError, ReputationStats};
use star_escrow::types::Address;

const ADMIN: Address = Address(1);

struct Setup {
    contract: ReputationContract,
}

impl Setup {
    fn new() -> Self {
        let mut contract = ReputationContract::new();
        contract.init(ADMIN).unwrap();
        Setup { contract }
    }

    fn register_caller(&mut self, caller: Address) {
        self.contract.register_caller(caller).unwrap();
    }
}

#[test]
fn test_double_init_fails() {
    let mut s = Setup::new();
    let admin2 = Address(2);
    let err = s.contract.init(admin2).unwrap_err();
    assert_eq!(err, ReputationError::AlreadyInitialized);
}

#[test]
fn test_unregistered_caller_rejected() {
    let mut s = Setup::new();
    let unregistered = Address(3);
    let freelancer = Address(4);
    let err = s.contract.record_completion(unregistered, freelancer).result.unwrap_err();
    assert_eq!(err, ReputationError::Unauthorized);
}

#[test]
fn test_completion_increments_score() {
    let mut s = Setup::new();
    let escrow = Address(5);
    let freelancer = Address(6);
    s.register_caller(escrow);
    s.contract.record_completion(escrow, freelancer).result.unwrap();
    s.contract.record_completion(escrow, freelancer).result.unwrap();
    let stats = s.contract.get_stats(freelancer);
    assert_eq!(stats.completed, 2);
    assert_eq!(stats.cancelled, 0);
    assert_eq!(s.contract.get_reputation(freelancer), 20);
}

#[test]
fn test_cancellation_decrements_score() {
    let mut s = Setup::new();
    let escrow = Address(5);
    let freelancer = Address(6);
    s.register_caller(escrow);
    s.contract.record_completion(escrow, freelancer).result.unwrap();
    s.contract.record_cancellation(escrow, freelancer).result.unwrap();
    let stats = s.contract.get_stats(freelancer);
    assert_eq!(stats.completed, 1);
    assert_eq!(stats.cancelled, 1);
    assert_eq!(s.contract.get_reputation(freelancer), 5);
}

#[test]
fn test_score_floors_at_zero() {
    let mut s = Setup::new();
    let escrow = Address(5);
    let freelancer = Address(6);
    s.register_caller(escrow);
    s.contract.record_cancellation(escrow, freelancer).result.unwrap();
    s.contract.record_cancellation(escrow, freelancer).result.unwrap();
    s.contract.record_cancellation(escrow, freelancer).result.unwrap();
    assert_eq!(s.contract.get_reputation(freelancer), 0);
}

#[test]
fn test_multiple_escrows_accumulate() {
    let mut s = Setup::new();
    let escrow1 = Address(5);
    let escrow2 = Address(7);
    let freelancer = Address(6);
    s.register_caller(escrow1);
    s.register_caller(escrow2);
    s.contract.record_completion(escrow1, freelancer).result.unwrap();
    s.contract.record_completion(escrow2, freelancer).result.unwrap();
    s.contract.record_completion(escrow2, freelancer).result.unwrap();
    assert_eq!(s.contract.get_reputation(freelancer), 30);
}

#[test]
fn test_unknown_address_has_zero_reputation() {
    let s = Setup::new();
    let unknown = Address(9);
    assert_eq!(s.contract.get_reputation(unknown), 0);
    let stats = s.contract.get_stats(unknown);
    assert_eq!(stats, ReputationStats { completed: 0, cancelled: 0 });
}

#[test]
fn test_different_addresses_isolated() {
    let mut s = Setup::new();
    let escrow = Address(5);
    let freelancer1 = Address(6);
    let freelancer2 = Address(8);
    s.register_caller(escrow);
    s.contract.record_completion(escrow, freelancer1).result.unwrap();
    s.contract.record_completion(escrow, freelancer1).result.unwrap();
    s.contract.record_cancellation(escrow, freelancer2).result.unwrap();
    assert_eq!(s.contract.get_reputation(freelancer1), 20);
    assert_eq!(s.contract.get_reputation(freelancer2), 0);
}

#[test]
fn recording_reports_the_new_counts() {
    let mut s = Setup::new();
    let escrow = Address(5);
    let freelancer = Address(6);
    s.register_caller(escrow);
    let out = s.contract.record_completion(escrow, freelancer);
    assert_eq!(out.auth, escrow);
    let ev = out.result.unwrap();
    assert_eq!((ev.address, ev.completed, ev.cancelled), (freelancer, 1, 0));
    let out = s.contract.record_cancellation(escrow, freelancer);
    assert_eq!(out.auth, escrow);
    let ev = out.result.unwrap();
    assert_eq!((ev.address, ev.completed, ev.cancelled), (freelancer, 1, 1));
}

#[test]
fn admin_calls_need_the_admin_signature() {
    let mut contract = ReputationContract::new();
    let eff = contract.init(ADMIN).unwrap();
    assert_eq!(eff.auth, ADMIN);
    let eff = contract.register_caller(Address(5)).unwrap();
    assert_eq!(eff.auth, ADMIN);
}

#[test]
fn rejected_recording_changes_nothing() {
    let mut s = Setup::new();
    let freelancer = Address(6);
    let out = s.contract.record_cancellation(Address(5), freelancer);
    // The unregistered caller's signature is still asked for.
    assert_eq!(out.auth, Address(5));
    assert_eq!(out.result.unwrap_err(), ReputationError::Unauthorized);
    assert_eq!(s.contract.get_stats(freelancer), ReputationStats { completed: 0, cancelled: 0 });
}

#[test]
fn register_needs_the_admin() {
    let s = Setup::new();
    assert_eq!(s.contract.admin(), Some(ADMIN));
    assert_eq!(ReputationContract::new().admin(), None);
}

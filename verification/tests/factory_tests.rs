use star_escrow::factory::{EscrowFactory, EscrowStatus, FactoryEffects, FactoryError, FactoryEvent};
use star_escrow::types::Address;
use std::collections::HashMap;

const PAYER: Address = Address(1);
const FREELANCER: Address = Address(2);
const TOKEN: Address = Address(10);
const FACTORY: Address = Address(30);

struct Setup {
    factory: EscrowFactory,
    balances: HashMap<Address, i128>,
}

impl Setup {
    fn new() -> Self {
        let mut balances = HashMap::new();
        balances.insert(PAYER, 10_000);
        Setup { factory: EscrowFactory::new(FACTORY), balances }
    }

    fn balance(&self, a: Address) -> i128 {
        *self.balances.get(&a).unwrap_or(&0)
    }

    fn apply(&mut self, e: &FactoryEffects) {
        if let Some(t) = e.transfer {
            let from = self.balance(t.from) - t.amount;
            assert!(from >= 0, "insufficient balance");
            self.balances.insert(t.from, from);
            let to = self.balance(t.to) + t.amount;
            self.balances.insert(t.to, to);
        }
    }

    fn create_for(&mut self, payer: Address, amount: i128, milestone: &str) -> u64 {
        let (id, e) = self
            .factory
            .create_escrow(payer, FREELANCER, TOKEN, amount, milestone.to_string())
            .unwrap();
        self.apply(&e);
        id
    }

    fn create(&mut self, amount: i128, milestone: &str) -> u64 {
        self.create_for(PAYER, amount, milestone)
    }
}

#[test]
fn test_factory_creates_escrow_with_unique_id() {
    let mut s = Setup::new();
    let id1 = s.create(100, "First");
    let id2 = s.create(200, "Second");
    assert_ne!(id1, id2);
    assert_eq!(id1, 0);
    assert_eq!(id2, 1);
}

#[test]
fn test_factory_locks_funds_on_create() {
    let mut s = Setup::new();
    s.create(500, "Lock test");
    assert_eq!(s.balance(FACTORY), 500);
    assert_eq!(s.balance(PAYER), 9500);
}

#[test]
fn test_factory_invalid_amount_fails() {
    let mut s = Setup::new();
    let err = s
        .factory
        .create_escrow(PAYER, FREELANCER, TOKEN, 0, "Bad".to_string())
        .unwrap_err();
    assert_eq!(err, FactoryError::InvalidAmount);
}

#[test]
fn test_factory_happy_path() {
    let mut s = Setup::new();
    let id = s.create(300, "Deliver feature");
    let e = s.factory.submit_work(id).unwrap();
    s.apply(&e);
    let e = s.factory.approve(id).unwrap();
    s.apply(&e);
    assert_eq!(s.balance(FREELANCER), 300);
    assert_eq!(s.balance(FACTORY), 0);
    let record = s.factory.get_escrow(id).unwrap();
    assert_eq!(record.status, EscrowStatus::Completed);
}

#[test]
fn test_factory_cancel_refunds_payer() {
    let mut s = Setup::new();
    let id = s.create(400, "Cancel me");
    let e = s.factory.cancel(id).unwrap();
    s.apply(&e);
    assert_eq!(s.balance(PAYER), 10_000);
    assert_eq!(s.balance(FACTORY), 0);
    let record = s.factory.get_escrow(id).unwrap();
    assert_eq!(record.status, EscrowStatus::Cancelled);
}

#[test]
fn test_factory_approve_before_submit_fails() {
    let mut s = Setup::new();
    let id = s.create(100, "Approve early");
    let err = s.factory.approve(id).unwrap_err();
    assert_eq!(err, FactoryError::WorkNotSubmitted);
}

#[test]
fn test_factory_cancel_after_submit_fails() {
    let mut s = Setup::new();
    let id = s.create(100, "Cancel after submit");
    s.factory.submit_work(id).unwrap();
    let err = s.factory.cancel(id).unwrap_err();
    assert_eq!(err, FactoryError::NotActive);
}

#[test]
fn test_factory_get_nonexistent_fails() {
    let s = Setup::new();
    let err = s.factory.get_escrow(999).unwrap_err();
    assert_eq!(err, FactoryError::NotFound);
}

#[test]
fn test_factory_list_by_payer() {
    let mut s = Setup::new();
    let id1 = s.create(100, "A");
    let id2 = s.create(200, "B");
    let id3 = s.create(300, "C");
    let ids = s.factory.list_by_payer(PAYER);
    assert_eq!(ids.len(), 3);
    assert_eq!(ids[0], id1);
    assert_eq!(ids[1], id2);
    assert_eq!(ids[2], id3);
}

#[test]
fn test_factory_list_by_freelancer() {
    let mut s = Setup::new();
    let id1 = s.create(100, "A");
    let id2 = s.create(200, "B");
    let ids = s.factory.list_by_freelancer(FREELANCER);
    assert_eq!(ids.len(), 2);
    assert_eq!(ids[0], id1);
    assert_eq!(ids[1], id2);
}

#[test]
fn test_factory_list_by_payer_empty_for_unknown() {
    let s = Setup::new();
    let unknown = Address(77);
    let ids = s.factory.list_by_payer(unknown);
    assert_eq!(ids.len(), 0);
}

#[test]
fn test_factory_multiple_payers_isolated() {
    let mut s = Setup::new();
    let payer2 = Address(3);
    s.create(100, "P1 escrow");
    let ids = s.factory.list_by_payer(payer2);
    assert_eq!(ids.len(), 0);
    let ids = s.factory.list_by_payer(PAYER);
    assert_eq!(ids.len(), 1);
}

#[test]
fn factory_effects_name_signer_payment_and_event() {
    let mut s = Setup::new();
    let (id, e) = s
        .factory
        .create_escrow(PAYER, FREELANCER, TOKEN, 250, "Docs".to_string())
        .unwrap();
    assert_eq!(e.auth, PAYER);
    assert_eq!(e.transfer.unwrap().to, FACTORY);
    assert_eq!(
        e.event,
        Some(FactoryEvent::EscrowCreated { id, payer: PAYER, freelancer: FREELANCER, amount: 250 })
    );
    let e = s.factory.submit_work(id).unwrap();
    assert_eq!(e.auth, FREELANCER);
    assert!(e.transfer.is_none());
    let e = s.factory.approve(id).unwrap();
    assert_eq!(e.auth, PAYER);
    assert_eq!(e.event, Some(FactoryEvent::PaymentReleased { id, freelancer: FREELANCER, amount: 250 }));
}

#[test]
fn factory_settled_escrow_cannot_settle_again() {
    let mut s = Setup::new();
    let id = s.create(100, "Once");
    s.factory.cancel(id).unwrap();
    assert_eq!(s.factory.cancel(id).unwrap_err(), FactoryError::NotActive);
    assert_eq!(s.factory.submit_work(id).unwrap_err(), FactoryError::NotActive);
    assert_eq!(s.factory.approve(id).unwrap_err(), FactoryError::WorkNotSubmitted);
}

#[test]
fn factory_lists_are_kept_per_party() {
    let mut s = Setup::new();
    let a = s.create_for(PAYER, 100, "A");
    let other = Address(3);
    s.balances.insert(other, 500);
    let b = s.create_for(other, 100, "B");
    let c = s.create_for(PAYER, 100, "C");
    assert_eq!(s.factory.list_by_payer(PAYER), vec![a, c]);
    assert_eq!(s.factory.list_by_payer(other), vec![b]);
    assert_eq!(s.factory.list_by_freelancer(FREELANCER), vec![a, b, c]);
    assert_eq!(s.factory.get_escrow(b).unwrap().milestone, "B");
}

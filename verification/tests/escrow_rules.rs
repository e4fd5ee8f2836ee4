use star_escrow::escrow::contract::{ReputationRecord, Settlement, Transfer, YieldDeposit, YieldWithdrawal};
use star_escrow::escrow::storage::{
    add_to_allowlist, check_and_update_rate_limit, read_allowed_tokens, read_config,
    read_payer_stats, remove_from_allowlist, write_config,
};
use star_escrow::escrow::{
    EscrowContract, EscrowError, EscrowEvent, EscrowStatus, PayerStats, RateLimitConfig,
    YieldRecipient,
};
use star_escrow::types::Address;

const PAYER: Address = Address(1);
const FREELANCER: Address = Address(2);
const ADMIN: Address = Address(3);
const COLLECTOR: Address = Address(4);
const TOKEN: Address = Address(10);
const OTHER_TOKEN: Address = Address(11);
const CONTRACT: Address = Address(20);
const YIELD: Address = Address(40);

fn configured(fee_bps: u32) -> EscrowContract {
    let mut c = EscrowContract::new(CONTRACT);
    c.init(ADMIN, fee_bps, COLLECTOR).unwrap();
    c
}

fn create(
    c: &mut EscrowContract,
    amount: i128,
    deadline: Option<u64>,
    yield_protocol: Option<Address>,
    recipient: YieldRecipient,
    interval: u64,
    count: u32,
    now: u64,
) -> Result<star_escrow::escrow::Effects, EscrowError> {
    c.create(PAYER, FREELANCER, TOKEN, amount, "work".to_string(), deadline, yield_protocol, recipient, interval, count, now)
}

fn paid(ts: &[Transfer]) -> Vec<(Address, Address, i128)> {
    ts.iter().map(|t| (t.from, t.to, t.amount)).collect()
}

#[test]
fn init_twice_is_refused() {
    let mut c = configured(0);
    assert_eq!(c.init(ADMIN, 5, COLLECTOR).unwrap_err(), EscrowError::AlreadyExists);
}

#[test]
fn pause_and_unpause_refuse_when_already_in_that_state() {
    let mut c = configured(0);
    assert_eq!(c.unpause().unwrap_err(), EscrowError::Paused);
    let e = c.pause().unwrap();
    assert_eq!(e.auth, Some(ADMIN));
    assert!(matches!(e.events[0], EscrowEvent::ContractPaused { admin } if admin == ADMIN));
    assert_eq!(c.pause().unwrap_err(), EscrowError::Paused);
    assert_eq!(
        create(&mut c, 100, None, None, YieldRecipient::Payer, 0, 0, 0).unwrap_err(),
        EscrowError::Paused
    );
    c.unpause().unwrap();
    assert!(create(&mut c, 100, None, None, YieldRecipient::Payer, 0, 0, 0).is_ok());
}

#[test]
fn paused_contract_refuses_every_escrow_call() {
    let mut c = configured(0);
    create(&mut c, 100, Some(5), None, YieldRecipient::Payer, 0, 0, 0).unwrap();
    c.pause().unwrap();
    assert_eq!(c.submit_work().unwrap_err(), EscrowError::Paused);
    assert_eq!(c.approve(None).unwrap_err(), EscrowError::Paused);
    assert_eq!(c.cancel(None).unwrap_err(), EscrowError::Paused);
    assert_eq!(c.expire(10, None).unwrap_err(), EscrowError::Paused);
    assert_eq!(c.release_recurring(10).unwrap_err(), EscrowError::Paused);
    assert_eq!(c.transfer_freelancer(Address(9)).unwrap_err(), EscrowError::Paused);
    assert_eq!(c.get_status(), EscrowStatus::Active);
}

#[test]
fn create_locks_the_funds_and_announces_the_escrow() {
    let mut c = configured(0);
    let e = create(&mut c, 300, None, None, YieldRecipient::Payer, 0, 0, 7).unwrap();
    assert_eq!(e.auth, Some(PAYER));
    assert_eq!(paid(&e.transfers), vec![(PAYER, CONTRACT, 300)]);
    assert!(e.yield_deposit.is_none());
    assert_eq!(e.events.len(), 1);
    assert!(matches!(
        e.events[0],
        EscrowEvent::EscrowCreated { payer, freelancer, amount: 300, .. }
            if payer == PAYER && freelancer == FREELANCER
    ));
    match &e.events[0] {
        EscrowEvent::EscrowCreated { milestone, .. } => assert_eq!(milestone, "work"),
        other => panic!("unexpected event {:?}", other),
    }
    let d = c.get_escrow();
    assert_eq!(d.last_release_time, 7);
    assert_eq!(d.principal_deposited, 0);
}

#[test]
fn create_with_yield_deposits_everything() {
    let mut c = configured(0);
    let e = create(&mut c, 300, None, Some(YIELD), YieldRecipient::Freelancer, 0, 0, 0).unwrap();
    assert_eq!(e.yield_deposit, Some(YieldDeposit { protocol: YIELD, amount: 300 }));
    assert!(matches!(e.events[0], EscrowEvent::YieldDeposited { protocol, amount } if protocol == YIELD && amount == 300));
    assert!(matches!(e.events[1], EscrowEvent::EscrowCreated { .. }));
    assert_eq!(c.get_escrow().principal_deposited, 300);
}

#[test]
fn approve_pays_fee_share_and_yield() {
    let mut c = configured(250);
    create(&mut c, 1000, None, Some(YIELD), YieldRecipient::Freelancer, 0, 0, 0).unwrap();
    c.submit_work().unwrap();
    let w = YieldWithdrawal { principal: 1000, yield_accrued: 40 };
    let e = c.approve(Some(w)).unwrap();
    assert_eq!(
        paid(&e.transfers),
        vec![(CONTRACT, COLLECTOR, 25), (CONTRACT, FREELANCER, 975), (CONTRACT, FREELANCER, 40)]
    );
    assert!(matches!(e.events[0], EscrowEvent::PaymentReleased { amount, .. } if amount == 975));
    assert_eq!(c.get_status(), EscrowStatus::Completed);
    assert_eq!(c.submit_work().unwrap_err(), EscrowError::NotActive);
    assert_eq!(c.approve(None).unwrap_err(), EscrowError::WorkNotSubmitted);
}

#[test]
fn cancel_refunds_and_routes_yield() {
    let mut c = configured(250);
    create(&mut c, 1000, None, Some(YIELD), YieldRecipient::Freelancer, 0, 0, 0).unwrap();
    let e = c.cancel(Some(YieldWithdrawal { principal: 1000, yield_accrued: 12 })).unwrap();
    assert_eq!(paid(&e.transfers), vec![(CONTRACT, PAYER, 1000), (CONTRACT, FREELANCER, 12)]);
    assert_eq!(c.get_status(), EscrowStatus::Cancelled);
    assert_eq!(c.cancel(None).unwrap_err(), EscrowError::NotActive);
}

#[test]
fn no_yield_without_a_protocol_or_gain() {
    let mut c = configured(0);
    create(&mut c, 100, None, Some(YIELD), YieldRecipient::Payer, 0, 0, 0).unwrap();
    let e = c.cancel(Some(YieldWithdrawal { principal: 100, yield_accrued: 0 })).unwrap();
    assert_eq!(paid(&e.transfers), vec![(CONTRACT, PAYER, 100)]);
    let mut c = configured(0);
    create(&mut c, 100, None, None, YieldRecipient::Payer, 0, 0, 0).unwrap();
    let e = c.cancel(Some(YieldWithdrawal { principal: 100, yield_accrued: 9 })).unwrap();
    assert_eq!(paid(&e.transfers), vec![(CONTRACT, PAYER, 100)]);
}

#[test]
fn expire_needs_a_passed_deadline() {
    let mut c = configured(0);
    create(&mut c, 100, None, None, YieldRecipient::Payer, 0, 0, 0).unwrap();
    assert_eq!(c.expire(1_000, None).unwrap_err(), EscrowError::NotExpired);
    let mut c = configured(0);
    create(&mut c, 100, Some(500), None, YieldRecipient::Payer, 0, 0, 0).unwrap();
    assert_eq!(c.expire(500, None).unwrap_err(), EscrowError::DeadlineNotPassed);
    let e = c.expire(501, None).unwrap();
    assert_eq!(e.auth, Some(PAYER));
    assert_eq!(paid(&e.transfers), vec![(CONTRACT, PAYER, 100)]);
    assert!(e.reputation.is_none());
    assert_eq!(c.expire(600, None).unwrap_err(), EscrowError::NotActive);
}

#[test]
fn submitted_work_cannot_expire() {
    let mut c = configured(0);
    create(&mut c, 100, Some(5), None, YieldRecipient::Payer, 0, 0, 0).unwrap();
    c.submit_work().unwrap();
    assert_eq!(c.expire(10, None).unwrap_err(), EscrowError::NotActive);
}

#[test]
fn recurring_escrow_releases_on_schedule() {
    let mut c = configured(100);
    let e = create(&mut c, 1000, None, None, YieldRecipient::Payer, 10, 3, 0).unwrap();
    assert_eq!(paid(&e.transfers), vec![(PAYER, CONTRACT, 3000)]);
    assert_eq!(c.release_recurring(5).unwrap_err(), EscrowError::IntervalNotElapsed);
    let e = c.release_recurring(10).unwrap();
    assert_eq!(e.auth, None);
    assert_eq!(paid(&e.transfers), vec![(CONTRACT, COLLECTOR, 10), (CONTRACT, FREELANCER, 990)]);
    assert!(matches!(e.events[0], EscrowEvent::RecurringReleased { releases_made: 1, amount: 990, .. }));
    assert_eq!(e.events.len(), 1);
    assert_eq!(c.release_recurring(15).unwrap_err(), EscrowError::IntervalNotElapsed);
    c.release_recurring(20).unwrap();
    assert_eq!(c.get_status(), EscrowStatus::Active);
    let e = c.release_recurring(35).unwrap();
    assert_eq!(e.events.len(), 2);
    assert!(matches!(e.events[1], EscrowEvent::PaymentReleased { amount: 990, .. }));
    assert_eq!(c.get_status(), EscrowStatus::Completed);
    assert_eq!(c.get_escrow().releases_made, 3);
    assert_eq!(c.get_escrow().last_release_time, 35);
    assert_eq!(c.release_recurring(100).unwrap_err(), EscrowError::NotActive);
}

#[test]
fn cancelling_a_recurring_escrow_refunds_what_is_left() {
    let mut c = configured(0);
    create(&mut c, 100, None, None, YieldRecipient::Payer, 10, 4, 0).unwrap();
    c.release_recurring(10).unwrap();
    let e = c.cancel(None).unwrap();
    assert_eq!(paid(&e.transfers), vec![(CONTRACT, PAYER, 300)]);
    assert!(matches!(e.events[0], EscrowEvent::EscrowCancelled { amount: 300, .. }));
}

#[test]
fn single_payment_escrow_is_not_recurring() {
    let mut c = configured(0);
    create(&mut c, 100, None, None, YieldRecipient::Payer, 0, 5, 0).unwrap();
    assert_eq!(c.release_recurring(100).unwrap_err(), EscrowError::NotRecurring);
    let e = c.cancel(None).unwrap();
    assert_eq!(paid(&e.transfers), vec![(CONTRACT, PAYER, 100)]);
}

#[test]
fn approval_reports_to_the_wired_reputation_contract() {
    let mut c = configured(0);
    let e = c.set_reputation_contract(Address(21));
    assert_eq!(e.auth, Some(ADMIN));
    create(&mut c, 100, None, None, YieldRecipient::Payer, 0, 0, 0).unwrap();
    c.submit_work().unwrap();
    let e = c.approve(None).unwrap();
    let call = e.reputation.unwrap();
    assert_eq!((call.contract, call.caller, call.address), (Address(21), CONTRACT, FREELANCER));
    assert_eq!(call.record, ReputationRecord::Completion);
}

#[test]
fn allowlist_limits_tokens() {
    let mut c = configured(0);
    assert!(read_allowed_tokens(&c).is_empty());
    assert!(add_to_allowlist(&mut c, OTHER_TOKEN));
    assert!(!add_to_allowlist(&mut c, OTHER_TOKEN));
    assert_eq!(read_allowed_tokens(&c), vec![OTHER_TOKEN]);
    assert_eq!(
        create(&mut c, 100, None, None, YieldRecipient::Payer, 0, 0, 0).unwrap_err(),
        EscrowError::TokenNotAllowed
    );
    assert!(add_to_allowlist(&mut c, TOKEN));
    assert!(remove_from_allowlist(&mut c, OTHER_TOKEN));
    assert!(!remove_from_allowlist(&mut c, OTHER_TOKEN));
    assert_eq!(read_allowed_tokens(&c), vec![TOKEN]);
    assert!(create(&mut c, 100, None, None, YieldRecipient::Payer, 0, 0, 0).is_ok());
}

#[test]
fn rate_limit_counts_per_window() {
    let mut c = configured(0);
    let config = RateLimitConfig { admin: ADMIN, max_per_window: 2, window_duration: 100, min_amount: 1, max_amount: 1000 };
    write_config(&mut c, &config);
    assert_eq!(read_config(&c), Some(config));
    assert_eq!(check_and_update_rate_limit(&mut c, PAYER, config, 10), Ok(()));
    assert_eq!(check_and_update_rate_limit(&mut c, PAYER, config, 50), Ok(()));
    assert_eq!(check_and_update_rate_limit(&mut c, PAYER, config, 60), Err(()));
    assert_eq!(read_payer_stats(&c, &PAYER), Some(PayerStats { window_start: 10, count: 2 }));
    assert_eq!(check_and_update_rate_limit(&mut c, Address(8), config, 60), Ok(()));
    assert_eq!(check_and_update_rate_limit(&mut c, PAYER, config, 110), Ok(()));
    assert_eq!(read_payer_stats(&c, &PAYER), Some(PayerStats { window_start: 110, count: 1 }));
}

#[test]
fn rate_limit_window_end_saturates() {
    let mut c = configured(0);
    let config = RateLimitConfig { admin: ADMIN, max_per_window: 1, window_duration: u64::MAX, min_amount: 0, max_amount: 0 };
    assert_eq!(check_and_update_rate_limit(&mut c, PAYER, config, 5), Ok(()));
    assert_eq!(check_and_update_rate_limit(&mut c, PAYER, config, u64::MAX - 1), Err(()));
    assert_eq!(check_and_update_rate_limit(&mut c, PAYER, config, u64::MAX), Ok(()));
}

#[test]
fn freelancer_role_moves() {
    let mut c = configured(0);
    create(&mut c, 100, None, None, YieldRecipient::Payer, 0, 0, 0).unwrap();
    let e = c.transfer_freelancer(Address(6)).unwrap();
    assert!(matches!(e.events[0], EscrowEvent::FreelancerTransferred { old, new } if old == FREELANCER && new == Address(6)));
    let e = c.submit_work().unwrap();
    assert_eq!(e.auth, Some(Address(6)));
}

#[test]
fn freelancer_role_stays_with_a_settled_escrow() {
    let mut c = configured(0);
    create(&mut c, 100, None, None, YieldRecipient::Payer, 0, 0, 0).unwrap();
    c.submit_work().unwrap();
    // Still open after submission: the role can move.
    c.transfer_freelancer(Address(6)).unwrap();
    c.approve(None).unwrap();
    assert_eq!(c.transfer_freelancer(Address(7)).unwrap_err(), EscrowError::NotActive);
    assert_eq!(c.get_escrow().freelancer, Address(6));

    let mut c = configured(0);
    create(&mut c, 100, None, None, YieldRecipient::Payer, 0, 0, 0).unwrap();
    c.cancel(None).unwrap();
    assert_eq!(c.transfer_freelancer(Address(7)).unwrap_err(), EscrowError::NotActive);
    assert_eq!(c.get_escrow().freelancer, FREELANCER);

    let mut c = configured(0);
    create(&mut c, 100, Some(5), None, YieldRecipient::Payer, 0, 0, 0).unwrap();
    c.expire(6, None).unwrap();
    assert_eq!(c.transfer_freelancer(Address(7)).unwrap_err(), EscrowError::NotActive);
    assert_eq!(c.get_escrow().freelancer, FREELANCER);
}

#[test]
fn recurring_releases_add_up_to_the_locked_funds() {
    let mut c = configured(250);
    create(&mut c, 400, None, None, YieldRecipient::Payer, 7, 4, 100).unwrap();
    let mut total = 0;
    let mut released_at = Vec::new();
    for now in [100, 106, 107, 110, 114, 120, 121, 128, 200, 300] {
        if let Ok(e) = c.release_recurring(now) {
            assert!(e.transfers.iter().all(|t| t.from == CONTRACT && (t.to == FREELANCER || t.to == COLLECTOR)));
            total += e.transfers.iter().map(|t| t.amount).sum::<i128>();
            released_at.push(now);
        }
        assert!(c.get_escrow().releases_made <= 4);
        assert_eq!(c.get_status() == EscrowStatus::Completed, c.get_escrow().releases_made == 4);
    }
    assert_eq!(released_at, vec![107, 114, 121, 128]);
    assert_eq!(total, 4 * 400);
    assert_eq!(c.get_escrow().releases_made, 4);
    assert_eq!(c.get_status(), EscrowStatus::Completed);
}

#[test]
fn other_calls_leave_the_release_schedule_alone() {
    let mut c = configured(100);
    create(&mut c, 1000, None, None, YieldRecipient::Payer, 10, 2, 0).unwrap();
    c.release_recurring(10).unwrap();
    c.pause().unwrap();
    assert_eq!(c.release_recurring(20).unwrap_err(), EscrowError::Paused);
    c.unpause().unwrap();
    c.transfer_freelancer(Address(6)).unwrap();
    assert_eq!(c.get_escrow().releases_made, 1);
    assert_eq!(c.get_escrow().last_release_time, 10);
    assert_eq!(c.release_recurring(19).unwrap_err(), EscrowError::IntervalNotElapsed);
    let e = c.release_recurring(20).unwrap();
    assert_eq!(paid(&e.transfers), vec![(CONTRACT, COLLECTOR, 10), (CONTRACT, Address(6), 990)]);
    assert_eq!(c.get_status(), EscrowStatus::Completed);
    assert_eq!(c.get_escrow().releases_made, 2);
}

#[test]
fn yield_withdrawn_only_before_a_settlement_that_goes_ahead() {
    let mut c = configured(0);
    create(&mut c, 300, Some(50), Some(YIELD), YieldRecipient::Payer, 0, 0, 0).unwrap();
    let principal = Some(YieldDeposit { protocol: YIELD, amount: 300 });
    assert_eq!(c.yield_to_withdraw(Settlement::Approve), None);
    assert_eq!(c.yield_to_withdraw(Settlement::Cancel), principal);
    assert_eq!(c.yield_to_withdraw(Settlement::Expire { now: 50 }), None);
    assert_eq!(c.yield_to_withdraw(Settlement::Expire { now: 51 }), principal);
    c.submit_work().unwrap();
    assert_eq!(c.yield_to_withdraw(Settlement::Approve), principal);
    assert_eq!(c.yield_to_withdraw(Settlement::Cancel), None);
    c.pause().unwrap();
    assert_eq!(c.yield_to_withdraw(Settlement::Approve), None);
    let mut plain = configured(0);
    create(&mut plain, 300, None, None, YieldRecipient::Payer, 0, 0, 0).unwrap();
    assert_eq!(plain.yield_to_withdraw(Settlement::Cancel), None);
}

use vstd::prelude::*;
use crate::types::Address;
use crate::escrow::errors::EscrowError;
use crate::escrow::events::EscrowEvent;
use crate::escrow::storage;
use crate::escrow::storage::{
    data_wf, is_recurring, remaining, total_locked, EscrowContract, EscrowData, EscrowState,
    EscrowStatus, ProtocolConfig, YieldRecipient,
};

verus! {

/// A token payment the contract makes or asks for.
#[derive(Clone, Copy, Debug, PartialEq, Eq, Structural)]
pub struct Transfer {
    pub token: Address,
    pub from: Address,
    pub to: Address,
    pub amount: i128,
}

/// Funds handed to a yield protocol.
#[derive(Clone, Copy, Debug, PartialEq, Eq, Structural)]
pub struct YieldDeposit {
    pub protocol: Address,
    pub amount: i128,
}

/// What a yield protocol returned when the contract withdrew from it.
#[derive(Clone, Copy, Debug, PartialEq, Eq, Structural)]
pub struct YieldWithdrawal {
    pub principal: i128,
    pub yield_accrued: i128,
}

/// Which outcome is reported to the reputation contract.
#[derive(Clone, Copy, Debug, PartialEq, Eq, Structural)]
pub enum ReputationRecord {
    Completion,
    Cancellation,
}

/// A report to the reputation contract about the freelancer.
#[derive(Clone, Copy, Debug, PartialEq, Eq, Structural)]
pub struct ReputationCall {
    pub contract: Address,
    pub caller: Address,
    pub address: Address,
    pub record: ReputationRecord,
}

/// What an accepted call asks of the ledger: whose signature it needs,
/// the token payments, a deposit into a yield protocol, the events to
/// publish and a report to the reputation contract.
#[derive(Debug)]
pub struct Effects {
    pub auth: Option<Address>,
    pub transfers: Vec<Transfer>,
    pub yield_deposit: Option<YieldDeposit>,
    pub events: Vec<EscrowEvent>,
    pub reputation: Option<ReputationCall>,
}

/// The effects are exactly the given ones.
pub open spec fn effects_are(
    e: Effects,
    auth: Option<Address>,
    transfers: Seq<Transfer>,
    yield_deposit: Option<YieldDeposit>,
    events: Seq<EscrowEvent>,
    reputation: Option<ReputationCall>,
) -> bool {
    &&& e.auth == auth
    &&& e.transfers@ == transfers
    &&& e.yield_deposit == yield_deposit
    &&& e.events@ == events
    &&& e.reputation == reputation
}

/// The contract is paused.
pub open spec fn is_paused(s: EscrowState) -> bool {
    s.config matches Some(c) && c.paused
}

/// The protocol fee on a payment of `amount`: `amount * fee_bps / 10_000`,
/// nothing before the protocol is configured.
pub open spec fn fee_for(s: EscrowState, amount: i128) -> int {
    match s.config {
        Some(c) => amount * c.fee_bps / 10000,
        None => 0,
    }
}

/// Computing the fee on `amount` stays within `i128`.
pub open spec fn fee_fits(s: EscrowState, amount: i128) -> bool {
    s.config matches Some(c) ==> amount * c.fee_bps <= i128::MAX
}

/// The payment of the fee to the collector, when there is a positive fee.
pub open spec fn fee_transfers(s: EscrowState, d: EscrowData) -> Seq<Transfer> {
    match s.config {
        Some(c) => if fee_for(s, d.amount) > 0 {
            seq![
                Transfer {
                    token: d.token,
                    from: s.address,
                    to: c.fee_collector,
                    amount: fee_for(s, d.amount) as i128,
                },
            ]
        } else {
            seq![]
        },
        None => seq![],
    }
}

/// The yield handed out at settlement: what the protocol reported, when positive.
pub open spec fn paid_yield(d: EscrowData, w: Option<YieldWithdrawal>) -> int {
    match w {
        Some(w) => if d.yield_protocol is Some && w.yield_accrued > 0 {
            w.yield_accrued as int
        } else {
            0
        },
        None => 0,
    }
}

/// Who receives the yield of an escrow.
pub open spec fn yield_beneficiary(d: EscrowData) -> Address {
    match d.yield_recipient {
        YieldRecipient::Payer => d.payer,
        YieldRecipient::Freelancer => d.freelancer,
    }
}

/// The payment of the yield to its recipient, when there is any.
pub open spec fn yield_transfers(s: EscrowState, d: EscrowData, w: Option<YieldWithdrawal>) -> Seq<
    Transfer,
> {
    if paid_yield(d, w) > 0 {
        seq![
            Transfer {
                token: d.token,
                from: s.address,
                to: yield_beneficiary(d),
                amount: paid_yield(d, w) as i128,
            },
        ]
    } else {
        seq![]
    }
}

/// The report to the reputation contract, when one is wired.
pub open spec fn reputation_call(s: EscrowState, d: EscrowData, record: ReputationRecord) -> Option<
    ReputationCall,
> {
    match s.reputation_contract {
        Some(c) => Some(
            ReputationCall { contract: c, caller: s.address, address: d.freelancer, record },
        ),
        None => None,
    }
}

/// The stored escrow, with the given status.
pub open spec fn with_status(s: EscrowState, status: EscrowStatus) -> EscrowState {
    EscrowState { escrow: Some(EscrowData { status, ..s.escrow.unwrap() }), ..s }
}

/// The status is final.
pub open spec fn is_terminal(status: EscrowStatus) -> bool {
    status == EscrowStatus::Completed || status == EscrowStatus::Cancelled || status
        == EscrowStatus::Expired
}

/// The transitions of the escrow state machine.
pub open spec fn status_step(a: EscrowStatus, b: EscrowStatus) -> bool {
    ||| a == b
    ||| a == EscrowStatus::Active && b == EscrowStatus::WorkSubmitted
    ||| a == EscrowStatus::WorkSubmitted && b == EscrowStatus::Completed
    ||| a == EscrowStatus::Active && b == EscrowStatus::Completed
    ||| a == EscrowStatus::Active && b == EscrowStatus::Cancelled
    ||| a == EscrowStatus::Active && b == EscrowStatus::Expired
}

/// A call moved the stored escrow along the state machine: a new escrow
/// starts out `Active`, and an existing one only takes valid transitions.
pub open spec fn escrow_step(old: EscrowState, new: EscrowState) -> bool {
    match old.escrow {
        None => new.escrow matches Some(d) ==> d.status == EscrowStatus::Active,
        Some(d0) => new.escrow matches Some(d1) && status_step(d0.status, d1.status),
    }
}

/// What the contract still holds on behalf of the escrow's parties.
pub open spec fn owed(s: EscrowState) -> int {
    match s.escrow {
        Some(d) => if is_terminal(d.status) {
            0
        } else {
            remaining(d)
        },
        None => 0,
    }
}

/// The sum of the payments in `ts` that `a` makes.
pub open spec fn paid_by(ts: Seq<Transfer>, a: Address) -> int
    decreases ts.len(),
{
    if ts.len() == 0 {
        0
    } else {
        paid_by(ts.drop_last(), a) + if ts.last().from == a {
            ts.last().amount as int
        } else {
            0
        }
    }
}

/// The sum of the payments in `ts` that `a` receives.
pub open spec fn paid_to(ts: Seq<Transfer>, a: Address) -> int
    decreases ts.len(),
{
    if ts.len() == 0 {
        0
    } else {
        paid_to(ts.drop_last(), a) + if ts.last().to == a {
            ts.last().amount as int
        } else {
            0
        }
    }
}

/// The escrow record that `create` stores.
pub open spec fn created_data(
    payer: Address,
    freelancer: Address,
    token: Address,
    amount: i128,
    milestone: String,
    deadline: Option<u64>,
    yield_protocol: Option<Address>,
    yield_recipient: YieldRecipient,
    interval: u64,
    recurrence_count: u32,
    now: u64,
) -> EscrowData {
    EscrowData {
        payer,
        freelancer,
        token,
        amount,
        milestone,
        status: EscrowStatus::Active,
        deadline,
        yield_protocol,
        principal_deposited: if yield_protocol is Some {
            total_locked(amount, interval, recurrence_count) as i128
        } else {
            0
        },
        yield_recipient,
        interval,
        recurrence_count,
        releases_made: 0,
        last_release_time: now,
    }
}

/// Why `create` refuses, if it does.
pub open spec fn create_error(s: EscrowState, token: Address, amount: i128) -> Option<EscrowError> {
    if is_paused(s) {
        Some(EscrowError::Paused)
    } else if s.escrow is Some {
        Some(EscrowError::AlreadyExists)
    } else if amount <= 0 {
        Some(EscrowError::InvalidAmount)
    } else if s.allowed_tokens.len() > 0 && !s.allowed_tokens.contains(token) {
        Some(EscrowError::TokenNotAllowed)
    } else {
        None
    }
}

fn no_effects(auth: Option<Address>) -> (e: Effects)
    ensures
        effects_are(e, auth, seq![], None, seq![], None),
{
    Effects {
        auth,
        transfers: Vec::new(),
        yield_deposit: None,
        events: Vec::new(),
        reputation: None,
    }
}

fn fee_amount(store: &EscrowContract, amount: i128) -> (r: i128)
    requires
        amount > 0,
        fee_fits(store@, amount),
    ensures
        r == fee_for(store@, amount),
        r >= 0,
{
    if storage::has_config(store) {
        let config = storage::load_config(store);
        let fee = amount * (config.fee_bps as i128) / 10000;
        fee
    } else {
        0
    }
}

fn push_fee_transfer(store: &EscrowContract, data: &EscrowData, transfers: &mut Vec<Transfer>)
    requires
        data.amount > 0,
        fee_fits(store@, data.amount),
    ensures
        final(transfers)@ == old(transfers)@ + fee_transfers(store@, *data),
{
    if storage::has_config(store) {
        let config = storage::load_config(store);
        let fee = fee_amount(store, data.amount);
        if fee > 0 {
            transfers.push(
                Transfer {
                    token: data.token,
                    from: storage::current_contract_address(store),
                    to: config.fee_collector,
                    amount: fee,
                },
            );
        }
    }
    assert(final(transfers)@ =~= old(transfers)@ + fee_transfers(store@, *data));
}

fn reputation_report(store: &EscrowContract, data: &EscrowData, record: ReputationRecord) -> (r:
    Option<ReputationCall>)
    ensures
        r == reputation_call(store@, *data, record),
{
    match storage::load_reputation_contract(store) {
        Some(c) => Some(
            ReputationCall {
                contract: c,
                caller: storage::current_contract_address(store),
                address: data.freelancer,
                record,
            },
        ),
        None => None,
    }
}

impl EscrowContract {
    fn assert_not_paused(&self) -> (r: Result<(), EscrowError>)
        ensures
            r is Err <==> is_paused(self@),
            r matches Err(e) ==> e == EscrowError::Paused,
    {
        if storage::has_config(self) && storage::load_config(self).paused {
            return Err(EscrowError::Paused);
        }
        Ok(())
    }

    /// Sets the protocol configuration, once: the admin who may pause the
    /// contract, the fee in basis points and who collects it. The call
    /// needs the admin's signature.
    pub fn init(&mut self, admin: Address, fee_bps: u32, fee_collector: Address) -> (r: Result<
        Effects,
        EscrowError,
    >)
        requires
            old(self).wf(),
        ensures
            final(self).wf(),
            escrow_step(old(self)@, final(self)@),
            call_step(old(self)@, final(self)@, None),
            r is Err <==> old(self)@.config is Some,
            r matches Err(e) ==> e == EscrowError::AlreadyExists && final(self)@ == old(self)@,
            r matches Ok(e) ==> {
                &&& final(self)@ == (EscrowState {
                    config: Some(ProtocolConfig { admin, paused: false, fee_bps, fee_collector }),
                    ..old(self)@
                })
                &&& effects_are(e, Some(admin), seq![], None, seq![], None)
            },
    {
        if storage::has_config(self) {
            return Err(EscrowError::AlreadyExists);
        }
        storage::save_config(self, &ProtocolConfig { admin, paused: false, fee_bps, fee_collector });
        Ok(no_effects(Some(admin)))
    }

    /// Pauses every state-changing call. Fails with `Paused` when the
    /// contract is paused already. The call needs the admin's signature.
    pub fn pause(&mut self) -> (r: Result<Effects, EscrowError>)
        requires
            old(self).wf(),
            old(self)@.config is Some,
        ensures
            final(self).wf(),
            escrow_step(old(self)@, final(self)@),
            call_step(old(self)@, final(self)@, None),
            r is Err <==> is_paused(old(self)@),
            r matches Err(e) ==> e == EscrowError::Paused && final(self)@ == old(self)@,
            r matches Ok(e) ==> {
                let c = old(self)@.config.unwrap();
                &&& final(self)@ == (EscrowState {
                    config: Some(ProtocolConfig { paused: true, ..c }),
                    ..old(self)@
                })
                &&& effects_are(
                    e,
                    Some(c.admin),
                    seq![],
                    None,
                    seq![EscrowEvent::ContractPaused { admin: c.admin }],
                    None,
                )
            },
    {
        let mut config = storage::load_config(self);
        if config.paused {
            return Err(EscrowError::Paused);
        }
        config.paused = true;
        storage::save_config(self, &config);
        let events = vec![EscrowEvent::ContractPaused { admin: config.admin }];
        assert(events@ =~= seq![EscrowEvent::ContractPaused { admin: config.admin }]);
        Ok(
            Effects {
                auth: Some(config.admin),
                transfers: Vec::new(),
                yield_deposit: None,
                events,
                reputation: None,
            },
        )
    }

    /// Lifts the pause. Fails with `Paused` when the contract is not
    /// paused. The call needs the admin's signature.
    pub fn unpause(&mut self) -> (r: Result<Effects, EscrowError>)
        requires
            old(self).wf(),
            old(self)@.config is Some,
        ensures
            final(self).wf(),
            escrow_step(old(self)@, final(self)@),
            call_step(old(self)@, final(self)@, None),
            r is Err <==> !is_paused(old(self)@),
            r matches Err(e) ==> e == EscrowError::Paused && final(self)@ == old(self)@,
            r matches Ok(e) ==> {
                let c = old(self)@.config.unwrap();
                &&& final(self)@ == (EscrowState {
                    config: Some(ProtocolConfig { paused: false, ..c }),
                    ..old(self)@
                })
                &&& effects_are(
                    e,
                    Some(c.admin),
                    seq![],
                    None,
                    seq![EscrowEvent::ContractUnpaused { admin: c.admin }],
                    None,
                )
            },
    {
        let mut config = storage::load_config(self);
        if !config.paused {
            return Err(EscrowError::Paused);
        }
        config.paused = false;
        storage::save_config(self, &config);
        let events = vec![EscrowEvent::ContractUnpaused { admin: config.admin }];
        assert(events@ =~= seq![EscrowEvent::ContractUnpaused { admin: config.admin }]);
        Ok(
            Effects {
                auth: Some(config.admin),
                transfers: Vec::new(),
                yield_deposit: None,
                events,
                reputation: None,
            },
        )
    }

    /// Wires the reputation contract that settlements are reported to.
    /// The call needs the admin's signature.
    pub fn set_reputation_contract(&mut self, reputation: Address) -> (r: Effects)
        requires
            old(self).wf(),
            old(self)@.config is Some,
        ensures
            final(self).wf(),
            escrow_step(old(self)@, final(self)@),
            call_step(old(self)@, final(self)@, None),
            final(self)@ == (EscrowState { reputation_contract: Some(reputation), ..old(self)@ }),
            effects_are(r, Some(old(self)@.config.unwrap().admin), seq![], None, seq![], None),
    {
        let config = storage::load_config(self);
        storage::save_reputation_contract(self, &reputation);
        no_effects(Some(config.admin))
    }
}


/// Why `release_recurring` refuses, if it does.
pub open spec fn release_error(s: EscrowState, now: u64) -> Option<EscrowError> {
    let d = s.escrow.unwrap();
    if is_paused(s) {
        Some(EscrowError::Paused)
    } else if !is_recurring(d.interval, d.recurrence_count) {
        Some(EscrowError::NotRecurring)
    } else if d.status != EscrowStatus::Active {
        Some(EscrowError::NotActive)
    } else if d.releases_made >= d.recurrence_count {
        Some(EscrowError::RecurrenceComplete)
    } else if now < d.last_release_time + d.interval {
        Some(EscrowError::IntervalNotElapsed)
    } else {
        None
    }
}

/// The payment one recurring release makes: the fee, then the rest to the
/// freelancer.
pub open spec fn release_transfers(s: EscrowState) -> Seq<Transfer> {
    let d = s.escrow.unwrap();
    fee_transfers(s, d) + seq![
        Transfer {
            token: d.token,
            from: s.address,
            to: d.freelancer,
            amount: (d.amount - fee_for(s, d.amount)) as i128,
        },
    ]
}

/// The storage after a recurring release at time `now`: one more release,
/// made now, and completed after the last one.
pub open spec fn released_state(s: EscrowState, now: u64) -> EscrowState {
    let d = s.escrow.unwrap();
    let made = (d.releases_made + 1) as u32;
    EscrowState {
        escrow: Some(
            EscrowData {
                releases_made: made,
                last_release_time: now,
                status: if made >= d.recurrence_count {
                    EscrowStatus::Completed
                } else {
                    EscrowStatus::Active
                },
                ..d
            },
        ),
        ..s
    }
}

/// The events of a recurring release; the last release also announces
/// the payment as released.
pub open spec fn release_events(s: EscrowState) -> Seq<EscrowEvent> {
    let d = s.escrow.unwrap();
    let payout = (d.amount - fee_for(s, d.amount)) as i128;
    let made = (d.releases_made + 1) as u32;
    let released = EscrowEvent::RecurringReleased {
        freelancer: d.freelancer,
        amount: payout,
        releases_made: made,
    };
    if made >= d.recurrence_count {
        seq![released, EscrowEvent::PaymentReleased { freelancer: d.freelancer, amount: payout }]
    } else {
        seq![released]
    }
}

proof fn lemma_release_paid(s: EscrowState)
    requires
        s.escrow is Some,
        s.escrow.unwrap().amount > 0,
        fee_fits(s, s.escrow.unwrap().amount),
    ensures
        paid_by(release_transfers(s), s.address) == s.escrow.unwrap().amount,
{
    let d = s.escrow.unwrap();
    let t = Transfer {
        token: d.token,
        from: s.address,
        to: d.freelancer,
        amount: (d.amount - fee_for(s, d.amount)) as i128,
    };
    lemma_fee_paid_by(s, d);
    lemma_paid_by_single(t, s.address);
    lemma_paid_by_concat(fee_transfers(s, d), seq![t], s.address);
    assert(fee_for(s, d.amount) <= d.amount * s.config.unwrap().fee_bps || s.config is None);
}

proof fn lemma_release_owed(s: EscrowState, now: u64)
    requires
        s.escrow is Some,
        data_wf(s.escrow.unwrap()),
        is_recurring(s.escrow.unwrap().interval, s.escrow.unwrap().recurrence_count),
        s.escrow.unwrap().status == EscrowStatus::Active,
        s.escrow.unwrap().releases_made < s.escrow.unwrap().recurrence_count,
    ensures
        owed(s) - owed(released_state(s, now)) == s.escrow.unwrap().amount,
{
    let d = s.escrow.unwrap();
    let k = d.recurrence_count - d.releases_made;
    assert(d.amount * k == d.amount * (k - 1) + d.amount) by (nonlinear_arith);
    assert(owed(s) == d.amount * k);
    if d.releases_made + 1 >= d.recurrence_count {
        assert(k == 1);
        assert(d.amount * (k - 1) == 0) by (nonlinear_arith)
            requires
                k == 1,
        ;
    }
}

/// `release_recurring` called at each of `times` in turn, starting from the
/// storage `s`: the storage afterwards, the payments made, and the times of
/// the calls that released a payment. A refused call changes nothing.
pub open spec fn release_run(s: EscrowState, times: Seq<u64>) -> (
    EscrowState,
    Seq<Transfer>,
    Seq<u64>,
)
    decreases times.len(),
{
    if times.len() == 0 {
        (s, seq![], seq![])
    } else {
        let prev = release_run(s, times.drop_last());
        let now = times.last();
        if release_error(prev.0, now) is None {
            (released_state(prev.0, now), prev.1 + release_transfers(prev.0), prev.2.push(now))
        } else {
            prev
        }
    }
}

/// Every payment in `ts` leaves the contract for the freelancer or the fee
/// collector.
pub open spec fn pays_freelancer_or_collector(s: EscrowState, ts: Seq<Transfer>) -> bool {
    forall|i: int|
        0 <= i < ts.len() ==> {
            &&& (#[trigger] ts[i]).from == s.address
            &&& ts[i].to == s.escrow.unwrap().freelancer || (s.config matches Some(c)
                && ts[i].to == c.fee_collector)
        }
}

/// Successive times in `ts` lie at least `interval` apart.
pub open spec fn spaced(ts: Seq<u64>, interval: u64) -> bool {
    forall|i: int, j: int| 0 <= i && j == i + 1 && j < ts.len() ==> #[trigger] ts[i] + interval
        <= #[trigger] ts[j]
}

/// The storage `t` is `s` with only the release bookkeeping of its escrow
/// changed.
pub open spec fn only_releases_changed(s: EscrowState, t: EscrowState) -> bool {
    let e = t.escrow.unwrap();
    t == (EscrowState {
        escrow: Some(
            EscrowData {
                releases_made: e.releases_made,
                last_release_time: e.last_release_time,
                status: e.status,
                ..s.escrow.unwrap()
            },
        ),
        ..s
    })
}

/// What holds after a run of recurring releases: see
/// `lemma_recurring_releases`.
pub open spec fn release_run_facts(s: EscrowState, times: Seq<u64>) -> bool {
    let d = s.escrow.unwrap();
    let run = release_run(s, times);
    let e = run.0.escrow.unwrap();
    let done = run.2;
    &&& only_releases_changed(s, run.0)
    &&& e.releases_made == d.releases_made + done.len()
    &&& e.releases_made <= d.recurrence_count
    &&& paid_by(run.1, s.address) == done.len() * d.amount
    &&& pays_freelancer_or_collector(s, run.1)
    &&& (e.status == EscrowStatus::Completed <==> e.releases_made == d.recurrence_count)
    &&& (e.status == EscrowStatus::Completed || e.status == EscrowStatus::Active)
    &&& (done.len() == 0 ==> e.last_release_time == d.last_release_time)
    &&& (done.len() > 0 ==> done[0] >= d.last_release_time + d.interval && e.last_release_time
        == done.last())
    &&& spaced(done, d.interval)
}

/// Over any sequence of `release_recurring` calls on an open recurring
/// escrow (active, with releases left): the releases never exceed the recurrence count; each release
/// pays out exactly one `amount` (fee included), to the freelancer and the
/// fee collector only; the escrow is completed exactly when the last
/// release is made, and stays active before; successive releases lie at
/// least one interval apart, the first one interval after the last release
/// before the run. Nothing else of the storage changes.
pub proof fn lemma_recurring_releases(s: EscrowState, times: Seq<u64>)
    requires
        s.escrow is Some,
        data_wf(s.escrow.unwrap()),
        is_recurring(s.escrow.unwrap().interval, s.escrow.unwrap().recurrence_count),
        s.escrow.unwrap().status == EscrowStatus::Active,
        s.escrow.unwrap().releases_made < s.escrow.unwrap().recurrence_count,
        fee_fits(s, s.escrow.unwrap().amount),
    ensures
        release_run_facts(s, times),
    decreases times.len(),
{
    if times.len() == 0 {
        let run = release_run(s, times);
        assert(run.0 == s);
        assert(run.1 =~= Seq::<Transfer>::empty());
        assert(run.2 =~= Seq::<u64>::empty());
        assert(only_releases_changed(s, s)) by {
            let e = s.escrow.unwrap();
            assert(EscrowData {
                releases_made: e.releases_made,
                last_release_time: e.last_release_time,
                status: e.status,
                ..e
            } == e);
        }
    } else {
        lemma_recurring_releases(s, times.drop_last());
        lemma_release_run_step(s, times);
    }
}

proof fn lemma_release_run_step(s: EscrowState, times: Seq<u64>)
    requires
        times.len() > 0,
        s.escrow is Some,
        data_wf(s.escrow.unwrap()),
        is_recurring(s.escrow.unwrap().interval, s.escrow.unwrap().recurrence_count),
        fee_fits(s, s.escrow.unwrap().amount),
        release_run_facts(s, times.drop_last()),
    ensures
        release_run_facts(s, times),
{
    let d = s.escrow.unwrap();
    let prev = release_run(s, times.drop_last());
    let t = prev.0;
    let now = times.last();
    assert(release_run(s, times) == if release_error(t, now) is None {
        (released_state(t, now), prev.1 + release_transfers(t), prev.2.push(now))
    } else {
        prev
    });
    if release_error(t, now) is None {
        let e = t.escrow.unwrap();
        let n = prev.2.len();
        assert(e.amount == d.amount && t.config == s.config && t.address == s.address);
        lemma_release_paid(t);
        lemma_paid_by_concat(prev.1, release_transfers(t), s.address);
        assert(n * d.amount + d.amount == (n + 1) * d.amount) by (nonlinear_arith);
        let r = release_transfers(t);
        let all = prev.1 + r;
        assert forall|i: int| 0 <= i < all.len() implies {
            &&& (#[trigger] all[i]).from == s.address
            &&& all[i].to == d.freelancer || (s.config matches Some(c) && all[i].to
                == c.fee_collector)
        } by {
            if i < prev.1.len() {
                assert(all[i] == prev.1[i]);
            } else {
                assert(all[i] == r[i - prev.1.len()]);
                if i - prev.1.len() < fee_transfers(t, e).len() {
                    assert(r[i - prev.1.len()] == fee_transfers(t, e)[i - prev.1.len()]);
                }
            }
        }
        let done = prev.2.push(now);
        assert forall|i: int, j: int| 0 <= i && j == i + 1 && j < done.len() implies
            #[trigger] done[i] + d.interval <= #[trigger] done[j] by {
            if j < prev.2.len() {
                assert(done[i] == prev.2[i] && done[j] == prev.2[j]);
            }
        }
        let t2 = released_state(t, now);
        let e2 = t2.escrow.unwrap();
        assert(only_releases_changed(s, t2)) by {
            assert(EscrowData {
                releases_made: e2.releases_made,
                last_release_time: e2.last_release_time,
                status: e2.status,
                ..d
            } == e2);
        }
    }
}

/// A call other than `release_recurring` leaves the release bookkeeping of
/// a stored escrow alone: its amount, schedule, releases made and last
/// release time, the contract's address and fee terms; its status only
/// moves along the state machine.
pub open spec fn keeps_releases(s: EscrowState, t: EscrowState) -> bool {
    &&& t.address == s.address
    &&& s.config matches Some(c) ==> (t.config matches Some(c2) && c2.fee_bps == c.fee_bps
        && c2.fee_collector == c.fee_collector)
    &&& s.escrow matches Some(d) ==> {
        &&& t.escrow matches Some(e)
        &&& e.amount == d.amount
        &&& e.interval == d.interval
        &&& e.recurrence_count == d.recurrence_count
        &&& e.releases_made == d.releases_made
        &&& e.last_release_time == d.last_release_time
        &&& status_step(d.status, e.status)
    }
}

/// The storage went from `s` to `t` through one contract call:
/// `release_recurring` at `now` when `call` is `Some(now)` (which releases
/// or changes nothing), any other call when it is `None`.
pub open spec fn call_step(s: EscrowState, t: EscrowState, call: Option<u64>) -> bool {
    match call {
        Some(now) => if release_error(s, now) is None {
            t == released_state(s, now)
        } else {
            t == s
        },
        None => keeps_releases(s, t),
    }
}

/// `states` is a run of the contract: each state follows from the one
/// before by the matching call of `calls`.
pub open spec fn is_run(states: Seq<EscrowState>, calls: Seq<Option<u64>>) -> bool {
    &&& states.len() > calls.len()
    &&& forall|i: int, j: int|
        0 <= i && j == i + 1 && j <= calls.len() ==> call_step(
            #[trigger] states[i],
            #[trigger] states[j],
            calls[i],
        )
}

/// The call `call` from storage `s` is a release that goes ahead.
pub open spec fn releases(s: EscrowState, call: Option<u64>) -> bool {
    call matches Some(now) && release_error(s, now) is None
}

/// The payments that the releases of a run make, in order.
pub open spec fn release_payments(states: Seq<EscrowState>, calls: Seq<Option<u64>>) -> Seq<
    Transfer,
>
    decreases calls.len(),
{
    if calls.len() == 0 {
        seq![]
    } else {
        let k = calls.len() - 1;
        release_payments(states, calls.drop_last()) + if releases(states[k], calls[k]) {
            release_transfers(states[k])
        } else {
            seq![]
        }
    }
}

/// The times of the releases of a run, in order.
pub open spec fn release_times(states: Seq<EscrowState>, calls: Seq<Option<u64>>) -> Seq<u64>
    decreases calls.len(),
{
    if calls.len() == 0 {
        seq![]
    } else {
        let k = calls.len() - 1;
        let prev = release_times(states, calls.drop_last());
        if releases(states[k], calls[k]) {
            prev.push(calls[k].unwrap())
        } else {
            prev
        }
    }
}

/// What holds at the end of a run that starts at a recurring escrow: see
/// `lemma_releases_across_calls`.
pub open spec fn run_facts(states: Seq<EscrowState>, calls: Seq<Option<u64>>) -> bool {
    let d = states[0].escrow.unwrap();
    let last = states[calls.len() as int];
    let e = last.escrow.unwrap();
    let times = release_times(states, calls);
    &&& last.escrow is Some
    &&& last.address == states[0].address
    &&& last.config matches Some(c) && c.fee_bps == states[0].config.unwrap().fee_bps
    &&& e.amount == d.amount
    &&& e.interval == d.interval
    &&& e.recurrence_count == d.recurrence_count
    &&& e.releases_made == d.releases_made + times.len()
    &&& e.releases_made <= d.recurrence_count
    &&& paid_by(release_payments(states, calls), states[0].address) == times.len() * d.amount
    &&& (times.len() == 0 ==> e.last_release_time == d.last_release_time)
    &&& (times.len() > 0 ==> times[0] >= d.last_release_time + d.interval && e.last_release_time
        == times.last())
    &&& spaced(times, d.interval)
    &&& forall|i: int, j: int|
        0 <= i && j == i + 1 && j <= calls.len() && releases(#[trigger] states[i], calls[i]) ==> (
        (#[trigger] states[j]).escrow.unwrap().status == EscrowStatus::Completed
            <==> states[j].escrow.unwrap().releases_made == d.recurrence_count)
}

/// Over any run of contract calls that starts at a stored recurring escrow
/// of an initialised contract: the releases made never exceed the
/// recurrence count; the releases pay out exactly one `amount` each (fee
/// included); a release completes the escrow exactly when it is the last
/// one; releases lie at least one interval apart, the first one interval
/// after the last release before the run. The other calls change none of
/// this (they may settle the escrow otherwise).
pub proof fn lemma_releases_across_calls(states: Seq<EscrowState>, calls: Seq<Option<u64>>)
    requires
        is_run(states, calls),
        states[0].escrow is Some,
        states[0].config is Some,
        data_wf(states[0].escrow.unwrap()),
        is_recurring(states[0].escrow.unwrap().interval, states[0].escrow.unwrap().recurrence_count),
        fee_fits(states[0], states[0].escrow.unwrap().amount),
    ensures
        run_facts(states, calls),
    decreases calls.len(),
{
    let d = states[0].escrow.unwrap();
    if calls.len() == 0 {
        assert(release_payments(states, calls) =~= Seq::<Transfer>::empty());
        assert(release_times(states, calls) =~= Seq::<u64>::empty());
    } else {
        let k = calls.len() - 1;
        let prev_calls = calls.drop_last();
        assert(is_run(states, prev_calls)) by {
            assert forall|i: int, j: int|
                0 <= i && j == i + 1 && j <= prev_calls.len() implies call_step(
                #[trigger] states[i],
                #[trigger] states[j],
                prev_calls[i],
            ) by {
                assert(prev_calls[i] == calls[i]);
            }
        }
        lemma_releases_across_calls(states, prev_calls);
        lemma_run_step(states, calls);
    }
}

proof fn lemma_run_step(states: Seq<EscrowState>, calls: Seq<Option<u64>>)
    requires
        calls.len() > 0,
        is_run(states, calls),
        states[0].escrow is Some,
        states[0].config is Some,
        data_wf(states[0].escrow.unwrap()),
        is_recurring(states[0].escrow.unwrap().interval, states[0].escrow.unwrap().recurrence_count),
        fee_fits(states[0], states[0].escrow.unwrap().amount),
        run_facts(states, calls.drop_last()),
    ensures
        run_facts(states, calls),
{
    let d = states[0].escrow.unwrap();
    let k = calls.len() - 1;
    let prev_calls = calls.drop_last();
    let s = states[k];
    let t = states[k + 1];
    let call = calls[k];
    assert(call_step(s, t, call));
    let prev_times = release_times(states, prev_calls);
    let prev_paid = release_payments(states, prev_calls);
    assert(prev_calls.len() == k);
    let e = s.escrow.unwrap();
    assert(fee_fits(s, e.amount));
    if releases(s, call) {
        let now = call.unwrap();
        let n = prev_times.len();
        lemma_release_paid(s);
        lemma_paid_by_concat(prev_paid, release_transfers(s), s.address);
        assert(n * d.amount + d.amount == (n + 1) * d.amount) by (nonlinear_arith);
        let done = prev_times.push(now);
        assert(release_times(states, calls) == done);
        assert forall|i: int, j: int| 0 <= i && j == i + 1 && j < done.len() implies
            #[trigger] done[i] + d.interval <= #[trigger] done[j] by {
            if j < prev_times.len() {
                assert(done[i] == prev_times[i] && done[j] == prev_times[j]);
            }
        }
    } else {
        assert(release_times(states, calls) == prev_times);
        assert(release_payments(states, calls) =~= prev_paid);
        match call {
            Some(now) => {
                assert(t == s);
            },
            None => {
                assert(keeps_releases(s, t));
            },
        }
    }
    assert forall|i: int, j: int|
        0 <= i && j == i + 1 && j <= calls.len() && releases(#[trigger] states[i], calls[i]) implies (
    (#[trigger] states[j]).escrow.unwrap().status == EscrowStatus::Completed
        <==> states[j].escrow.unwrap().releases_made == d.recurrence_count) by {
        if j <= prev_calls.len() {
            assert(prev_calls[i] == calls[i]);
        }
    }
}

/// The calls that settle an escrow.
#[derive(Clone, Copy, Debug, PartialEq, Eq, Structural)]
pub enum Settlement {
    Approve,
    Cancel,
    Expire { now: u64 },
}

/// Why a settlement would be refused, if it would.
pub open spec fn settlement_error(s: EscrowState, how: Settlement) -> Option<EscrowError> {
    let d = s.escrow.unwrap();
    match how {
        Settlement::Approve => if is_paused(s) {
            Some(EscrowError::Paused)
        } else if d.status != EscrowStatus::WorkSubmitted {
            Some(EscrowError::WorkNotSubmitted)
        } else {
            None
        },
        Settlement::Cancel => if is_paused(s) {
            Some(EscrowError::Paused)
        } else if d.status != EscrowStatus::Active {
            Some(EscrowError::NotActive)
        } else {
            None
        },
        Settlement::Expire { now } => expire_error(s, now),
    }
}

/// Why `expire` refuses, if it does.
pub open spec fn expire_error(s: EscrowState, now: u64) -> Option<EscrowError> {
    let d = s.escrow.unwrap();
    if is_paused(s) {
        Some(EscrowError::Paused)
    } else if d.status != EscrowStatus::Active {
        Some(EscrowError::NotActive)
    } else if d.deadline is None {
        Some(EscrowError::NotExpired)
    } else if now <= d.deadline.unwrap() {
        Some(EscrowError::DeadlineNotPassed)
    } else {
        None
    }
}

/// The payments that hand the held funds back to the payer, then the yield.
pub open spec fn refund_transfers(s: EscrowState, d: EscrowData, w: Option<YieldWithdrawal>) -> Seq<
    Transfer,
> {
    seq![Transfer { token: d.token, from: s.address, to: d.payer, amount: remaining(d) as i128 }]
        + yield_transfers(s, d, w)
}

/// The payments of an approval: the fee, the freelancer's share, then the yield.
pub open spec fn approve_transfers(s: EscrowState, d: EscrowData, w: Option<YieldWithdrawal>) -> Seq<
    Transfer,
> {
    fee_transfers(s, d) + seq![
        Transfer {
            token: d.token,
            from: s.address,
            to: d.freelancer,
            amount: (d.amount - fee_for(s, d.amount)) as i128,
        },
    ] + yield_transfers(s, d, w)
}

/// A recurring release that is due goes ahead, however late it comes: on
/// an unpaused, active recurring escrow with releases left, any time at
/// least one interval after the last release is accepted, and the release
/// pays out one `amount`, counts one more release and records `now`. A
/// release is refused as too early only before that time.
pub proof fn lemma_due_release_goes_ahead(s: EscrowState, now: u64)
    requires
        s.escrow is Some,
        data_wf(s.escrow.unwrap()),
        fee_fits(s, s.escrow.unwrap().amount),
    ensures
        ({
            let d = s.escrow.unwrap();
            let due = !is_paused(s) && d.interval > 0 && d.recurrence_count > 0 && d.status
                == EscrowStatus::Active && d.releases_made < d.recurrence_count;
            &&& due && now >= d.last_release_time + d.interval ==> {
                &&& release_error(s, now) is None
                &&& released_state(s, now).escrow.unwrap().releases_made == d.releases_made + 1
                &&& released_state(s, now).escrow.unwrap().last_release_time == now
                &&& paid_by(release_transfers(s), s.address) == d.amount
            }
            &&& release_error(s, now) == Some(EscrowError::IntervalNotElapsed) <==> due && now
                < d.last_release_time + d.interval
        }),
{
    let d = s.escrow.unwrap();
    lemma_release_paid(s);
}

/// The yield of a settlement goes to the recipient chosen at creation: to
/// the payer when that is the payer, to the freelancer when that is the
/// freelancer; in full, as the last payment, from the contract.
pub proof fn lemma_yield_goes_to_recipient(
    s: EscrowState,
    d: EscrowData,
    w: YieldWithdrawal,
)
    requires
        d.yield_protocol is Some,
        w.yield_accrued > 0,
    ensures
        ({
            let ts = yield_transfers(s, d, Some(w));
            &&& ts.len() == 1
            &&& ts[0].from == s.address
            &&& ts[0].amount == w.yield_accrued
            &&& ts[0].token == d.token
            &&& d.yield_recipient == YieldRecipient::Payer ==> ts[0].to == d.payer
            &&& d.yield_recipient == YieldRecipient::Freelancer ==> ts[0].to == d.freelancer
            &&& refund_transfers(s, d, Some(w)).last() == ts[0]
            &&& approve_transfers(s, d, Some(w)).last() == ts[0]
        }),
{
}

/// An escrow whose deadline has passed can be expired, recurring or not:
/// on an unpaused active escrow with a deadline before `now`, `expire`
/// goes ahead, its yield is withdrawn first, and the payer gets back what
/// is still locked: one `amount`, or for a recurring escrow one `amount`
/// per release not yet made.
pub proof fn lemma_passed_deadline_expires(s: EscrowState, now: u64, w: Option<YieldWithdrawal>)
    requires
        s.escrow is Some,
        data_wf(s.escrow.unwrap()),
        !is_paused(s),
        s.escrow.unwrap().status == EscrowStatus::Active,
        s.escrow.unwrap().deadline is Some,
        now > s.escrow.unwrap().deadline.unwrap(),
    ensures
        ({
            let d = s.escrow.unwrap();
            let refund = refund_transfers(s, d, w)[0];
            &&& expire_error(s, now) is None
            &&& settlement_error(s, Settlement::Expire { now }) is None
            &&& refund.from == s.address
            &&& refund.to == d.payer
            &&& refund.token == d.token
            &&& d.interval > 0 && d.recurrence_count > 0 ==> refund.amount == d.amount * (
            d.recurrence_count - d.releases_made)
            &&& !(d.interval > 0 && d.recurrence_count > 0) ==> refund.amount == d.amount
        }),
{
    lemma_remaining_bounds(s.escrow.unwrap());
}

/// The protocol fee on a payment is the basis-point share of it, rounded
/// down: no fee before the protocol is configured or at zero basis points,
/// never more than the payment at up to 10 000 basis points.
pub proof fn lemma_fee_is_rounded_share(s: EscrowState, amount: i128)
    requires
        amount > 0,
        fee_fits(s, amount),
    ensures
        s.config is None ==> fee_for(s, amount) == 0,
        s.config matches Some(c) ==> {
            &&& 0 <= fee_for(s, amount) * 10000 <= amount * c.fee_bps
            &&& amount * c.fee_bps < fee_for(s, amount) * 10000 + 10000
            &&& c.fee_bps == 0 ==> fee_for(s, amount) == 0
            &&& c.fee_bps <= 10000 ==> fee_for(s, amount) <= amount
        },
{
    if let Some(c) = s.config {
        let p = amount * c.fee_bps;
        assert(p >= 0) by (nonlinear_arith)
            requires
                amount > 0,
                c.fee_bps >= 0,
                p == amount * c.fee_bps,
        ;
        assert(c.fee_bps <= 10000 ==> p <= amount * 10000) by (nonlinear_arith)
            requires
                amount > 0,
                p == amount * c.fee_bps,
        ;
        assert(c.fee_bps == 0 ==> p == 0) by (nonlinear_arith)
            requires
                p == amount * c.fee_bps,
        ;
    }
}

/// No yield moves when there is nothing to hand out: without a yield
/// protocol, without a withdrawal, or when the protocol reported no gain.
pub proof fn lemma_no_gain_no_yield(s: EscrowState, d: EscrowData, w: Option<YieldWithdrawal>)
    requires
        d.yield_protocol is None || w is None || w.unwrap().yield_accrued <= 0,
    ensures
        yield_transfers(s, d, w) == Seq::<Transfer>::empty(),
        refund_transfers(s, d, w).len() == 1,
{
}

/// `expire` before or at the deadline is refused as too early, and an
/// escrow without a deadline never expires.
pub proof fn lemma_expire_needs_a_passed_deadline(s: EscrowState, now: u64)
    requires
        s.escrow is Some,
        !is_paused(s),
        s.escrow.unwrap().status == EscrowStatus::Active,
    ensures
        s.escrow.unwrap().deadline is None ==> expire_error(s, now) == Some(EscrowError::NotExpired),
        s.escrow.unwrap().deadline matches Some(t) ==> (expire_error(s, now) is None <==> now > t),
{
}

/// An active escrow of an unpaused contract can always be cancelled, and
/// the payer gets back what is still locked; submitted work can always be
/// approved, and the freelancer gets the payment less the fee, the fee
/// collector the fee.
pub proof fn lemma_open_escrow_settles(s: EscrowState, w: Option<YieldWithdrawal>)
    requires
        s.escrow is Some,
        data_wf(s.escrow.unwrap()),
        !is_paused(s),
        fee_fits(s, s.escrow.unwrap().amount),
    ensures
        ({
            let d = s.escrow.unwrap();
            &&& d.status == EscrowStatus::Active ==> settlement_error(s, Settlement::Cancel) is None
            &&& refund_transfers(s, d, w)[0] == (Transfer {
                token: d.token,
                from: s.address,
                to: d.payer,
                amount: remaining(d) as i128,
            })
            &&& d.status == EscrowStatus::WorkSubmitted ==> settlement_error(s, Settlement::Approve)
                is None
            &&& d.status != EscrowStatus::WorkSubmitted ==> settlement_error(s, Settlement::Approve)
                is Some
            &&& paid_by(approve_transfers(s, d, None), s.address) == d.amount
            &&& approve_transfers(s, d, None).last() == (Transfer {
                token: d.token,
                from: s.address,
                to: d.freelancer,
                amount: (d.amount - fee_for(s, d.amount)) as i128,
            })
            &&& fee_for(s, d.amount) > 0 ==> approve_transfers(s, d, None)[0] == (Transfer {
                token: d.token,
                from: s.address,
                to: s.config.unwrap().fee_collector,
                amount: fee_for(s, d.amount) as i128,
            })
        }),
{
    let d = s.escrow.unwrap();
    lemma_fee_paid_by(s, d);
    let t = Transfer {
        token: d.token,
        from: s.address,
        to: d.freelancer,
        amount: (d.amount - fee_for(s, d.amount)) as i128,
    };
    lemma_paid_by_single(t, s.address);
    lemma_paid_by_concat(fee_transfers(s, d), seq![t], s.address);
    assert(yield_transfers(s, d, None) =~= Seq::<Transfer>::empty());
    assert(approve_transfers(s, d, None) =~= fee_transfers(s, d) + seq![t]);
    assert(fee_for(s, d.amount) <= d.amount * s.config.unwrap().fee_bps || s.config is None);
}

/// Creating an escrow locks every payment it will make: one `amount`, or
/// for a recurring escrow one `amount` per release; the new escrow is
/// active, has made no release, counts its schedule from `now`, and holds
/// all it locked. Creation goes ahead on an unpaused contract without an
/// escrow, for a positive amount in an allowed token (any token while the
/// allowlist is empty).
pub proof fn lemma_create_locks_every_payment(
    s: EscrowState,
    payer: Address,
    freelancer: Address,
    token: Address,
    amount: i128,
    milestone: String,
    deadline: Option<u64>,
    yield_protocol: Option<Address>,
    yield_recipient: YieldRecipient,
    interval: u64,
    recurrence_count: u32,
    now: u64,
)
    ensures
        ({
            let d = created_data(
                payer,
                freelancer,
                token,
                amount,
                milestone,
                deadline,
                yield_protocol,
                yield_recipient,
                interval,
                recurrence_count,
                now,
            );
            &&& interval > 0 && recurrence_count > 0 ==> total_locked(
                amount,
                interval,
                recurrence_count,
            ) == amount * recurrence_count
            &&& !(interval > 0 && recurrence_count > 0) ==> total_locked(
                amount,
                interval,
                recurrence_count,
            ) == amount
            &&& remaining(d) == total_locked(amount, interval, recurrence_count)
            &&& d.status == EscrowStatus::Active
            &&& d.releases_made == 0
            &&& d.last_release_time == now
            &&& d.payer == payer && d.freelancer == freelancer && d.token == token
            &&& d.amount == amount && d.deadline == deadline
            &&& d.yield_recipient == yield_recipient
            &&& (create_error(s, token, amount) is None <==> !is_paused(s) && s.escrow is None
                && amount > 0 && (s.allowed_tokens.len() == 0 || s.allowed_tokens.contains(token)))
        }),
{
}

/// Payments made by `a` add up over concatenation.
pub proof fn lemma_paid_by_concat(a: Seq<Transfer>, b: Seq<Transfer>, x: Address)
    ensures
        paid_by(a + b, x) == paid_by(a, x) + paid_by(b, x),
    decreases b.len(),
{
    if b.len() == 0 {
        assert(a + b =~= a);
    } else {
        lemma_paid_by_concat(a, b.drop_last(), x);
        assert((a + b).drop_last() =~= a + b.drop_last());
    }
}

proof fn lemma_paid_by_single(t: Transfer, x: Address)
    ensures
        paid_by(seq![t], x) == if t.from == x {
            t.amount as int
        } else {
            0
        },
{
    reveal_with_fuel(paid_by, 2);
    assert(seq![t].drop_last() =~= Seq::<Transfer>::empty());
}

proof fn lemma_fee_paid_by(s: EscrowState, d: EscrowData)
    requires
        d.amount > 0,
        fee_fits(s, d.amount),
    ensures
        paid_by(fee_transfers(s, d), s.address) == fee_for(s, d.amount),
        fee_for(s, d.amount) >= 0,
{
    match s.config {
        Some(c) => {
            assert(d.amount * c.fee_bps >= 0) by (nonlinear_arith)
                requires
                    d.amount > 0,
            ;
            assert(fee_for(s, d.amount) <= d.amount * c.fee_bps);
            if fee_for(s, d.amount) > 0 {
                lemma_paid_by_single(fee_transfers(s, d)[0], s.address);
                assert(fee_transfers(s, d) =~= seq![fee_transfers(s, d)[0]]);
            } else {
                assert(paid_by(Seq::<Transfer>::empty(), s.address) == 0);
            }
        },
        None => {
            assert(paid_by(Seq::<Transfer>::empty(), s.address) == 0);
        },
    }
}

proof fn lemma_yield_paid_by(s: EscrowState, d: EscrowData, w: Option<YieldWithdrawal>)
    ensures
        paid_by(yield_transfers(s, d, w), s.address) == paid_yield(d, w),
{
    if paid_yield(d, w) > 0 {
        lemma_paid_by_single(yield_transfers(s, d, w)[0], s.address);
        assert(yield_transfers(s, d, w) =~= seq![yield_transfers(s, d, w)[0]]);
    } else {
        assert(paid_by(Seq::<Transfer>::empty(), s.address) == 0);
    }
}

proof fn lemma_remaining_bounds(d: EscrowData)
    requires
        data_wf(d),
    ensures
        0 < remaining(d) <= total_locked(d.amount, d.interval, d.recurrence_count) || (remaining(
            d,
        ) == 0 && is_recurring(d.interval, d.recurrence_count)),
        remaining(d) >= 0,
        remaining(d) <= i128::MAX,
{
    if is_recurring(d.interval, d.recurrence_count) {
        let k = d.recurrence_count - d.releases_made;
        assert(0 <= k <= d.recurrence_count);
        assert(d.amount * k <= d.amount * d.recurrence_count) by (nonlinear_arith)
            requires
                d.amount > 0,
                0 <= k <= d.recurrence_count,
        ;
        assert(d.amount * k >= 0) by (nonlinear_arith)
            requires
                d.amount > 0,
                0 <= k,
        ;
        if k > 0 {
            assert(d.amount * k > 0) by (nonlinear_arith)
                requires
                    d.amount > 0,
                    k > 0,
            ;
        }
    }
}

fn remaining_amount(d: &EscrowData) -> (r: i128)
    requires
        data_wf(*d),
    ensures
        r == remaining(*d),
{
    proof {
        lemma_remaining_bounds(*d);
    }
    if d.recurrence_count > 0 && d.interval > 0 {
        d.amount * ((d.recurrence_count - d.releases_made) as i128)
    } else {
        d.amount
    }
}

fn push_yield_transfer(
    store: &EscrowContract,
    data: &EscrowData,
    withdrawal: Option<YieldWithdrawal>,
    transfers: &mut Vec<Transfer>,
)
    ensures
        final(transfers)@ == old(transfers)@ + yield_transfers(store@, *data, withdrawal),
{
    if let Some(w) = withdrawal {
        if data.yield_protocol.is_some() && w.yield_accrued > 0 {
            let to = match data.yield_recipient {
                YieldRecipient::Payer => data.payer,
                YieldRecipient::Freelancer => data.freelancer,
            };
            transfers.push(
                Transfer {
                    token: data.token,
                    from: storage::current_contract_address(store),
                    to,
                    amount: w.yield_accrued,
                },
            );
        }
    }
    assert(final(transfers)@ =~= old(transfers)@ + yield_transfers(store@, *data, withdrawal));
}

impl EscrowContract {
    /// Whether `create` would accept an escrow of `amount` in `token`, and
    /// if not, why not.
    pub fn create_check(&self, token: Address, amount: i128) -> (r: Result<(), EscrowError>)
        ensures
            r is Err <==> create_error(self@, token, amount) is Some,
            r matches Err(e) ==> create_error(self@, token, amount) == Some(e),
    {
        self.assert_not_paused()?;
        if storage::has_escrow(self) {
            return Err(EscrowError::AlreadyExists);
        }
        if amount <= 0 {
            return Err(EscrowError::InvalidAmount);
        }
        let allowed = storage::read_allowed_tokens(self);
        if allowed.len() > 0 && !storage::contains_address(&allowed, token) {
            return Err(EscrowError::TokenNotAllowed);
        }
        Ok(())
    }

    /// Creates the escrow and asks for the funds: `amount`, or in recurring
    /// mode (`interval > 0` and `recurrence_count > 0`) `amount` per release
    /// times `recurrence_count`. The funds go on to `yield_protocol` when one
    /// is given. The call needs the payer's signature.
    pub fn create(
        &mut self,
        payer: Address,
        freelancer: Address,
        token: Address,
        amount: i128,
        milestone: String,
        deadline: Option<u64>,
        yield_protocol: Option<Address>,
        yield_recipient: YieldRecipient,
        interval: u64,
        recurrence_count: u32,
        now: u64,
    ) -> (r: Result<Effects, EscrowError>)
        requires
            old(self).wf(),
            create_error(old(self)@, token, amount) is None ==> total_locked(
                amount,
                interval,
                recurrence_count,
            ) <= i128::MAX,
        ensures
            final(self).wf(),
            escrow_step(old(self)@, final(self)@),
            call_step(old(self)@, final(self)@, None),
            r is Err <==> create_error(old(self)@, token, amount) is Some,
            r matches Err(e) ==> create_error(old(self)@, token, amount) == Some(e) && final(self)@
                == old(self)@,
            r matches Ok(e) ==> {
                let total = total_locked(amount, interval, recurrence_count) as i128;
                let data = created_data(
                    payer,
                    freelancer,
                    token,
                    amount,
                    milestone,
                    deadline,
                    yield_protocol,
                    yield_recipient,
                    interval,
                    recurrence_count,
                    now,
                );
                let created = EscrowEvent::EscrowCreated { payer, freelancer, amount, milestone };
                &&& final(self)@ == (EscrowState { escrow: Some(data), ..old(self)@ })
                &&& effects_are(
                    e,
                    Some(payer),
                    seq![Transfer { token, from: payer, to: old(self)@.address, amount: total }],
                    match yield_protocol {
                        Some(p) => Some(YieldDeposit { protocol: p, amount: total }),
                        None => None,
                    },
                    match yield_protocol {
                        Some(p) => seq![
                            EscrowEvent::YieldDeposited { protocol: p, amount: total },
                            created,
                        ],
                        None => seq![created],
                    },
                    None,
                )
                &&& paid_to(e.transfers@, old(self)@.address) == owed(final(self)@) - owed(
                    old(self)@,
                )
            },
    {
        self.create_check(token, amount)?;
        let total: i128 = if recurrence_count > 0 && interval > 0 {
            amount * (recurrence_count as i128)
        } else {
            amount
        };
        let contract = storage::current_contract_address(self);
        let transfers = vec![Transfer { token, from: payer, to: contract, amount: total }];
        let created = EscrowEvent::EscrowCreated {
            payer,
            freelancer,
            amount,
            milestone: milestone.clone(),
        };
        let mut data = EscrowData {
            payer,
            freelancer,
            token,
            amount,
            milestone,
            status: EscrowStatus::Active,
            deadline,
            yield_protocol,
            principal_deposited: 0,
            yield_recipient,
            interval,
            recurrence_count,
            releases_made: 0,
            last_release_time: now,
        };
        let mut events: Vec<EscrowEvent> = Vec::new();
        let yield_deposit = match yield_protocol {
            Some(p) => {
                events.push(EscrowEvent::YieldDeposited { protocol: p, amount: total });
                data.principal_deposited = total;
                Some(YieldDeposit { protocol: p, amount: total })
            },
            None => None,
        };
        events.push(created);
        proof {
            if recurrence_count > 0 && interval > 0 {
                assert(amount * recurrence_count > 0) by (nonlinear_arith)
                    requires
                        amount > 0,
                        recurrence_count > 0,
                ;
            }
            reveal_with_fuel(paid_to, 2);
            assert(transfers@.drop_last() =~= Seq::<Transfer>::empty());
        }
        storage::save_escrow(self, &data);
        proof {
        assert(transfers@ =~= seq![Transfer { token, from: payer, to: contract, amount: total }]);
        assert(paid_to(transfers@, contract) == total);
        assert(owed(self@) == total);
        assert(owed(old(self)@) == 0);
        assert(self@.escrow == Some(created_data(
                    payer,
                    freelancer,
                    token,
                    amount,
                    milestone,
                    deadline,
                    yield_protocol,
                    yield_recipient,
                    interval,
                    recurrence_count,
                    now,
                )));
        assert(events@ =~= match yield_protocol {
            Some(p) => seq![
                EscrowEvent::YieldDeposited { protocol: p, amount: total },
                EscrowEvent::EscrowCreated { payer, freelancer, amount, milestone },
            ],
            None => seq![EscrowEvent::EscrowCreated { payer, freelancer, amount, milestone }],
        });
        }
        Ok(Effects { auth: Some(payer), transfers, yield_deposit, events, reputation: None })
    }

    /// The freelancer declares the work done. The call needs the
    /// freelancer's signature.
    pub fn submit_work(&mut self) -> (r: Result<Effects, EscrowError>)
        requires
            old(self).wf(),
            !is_paused(old(self)@) ==> old(self)@.escrow is Some,
        ensures
            final(self).wf(),
            escrow_step(old(self)@, final(self)@),
            call_step(old(self)@, final(self)@, None),
            r is Err <==> is_paused(old(self)@) || old(self)@.escrow.unwrap().status
                != EscrowStatus::Active,
            r matches Err(e) ==> final(self)@ == old(self)@ && e == (if is_paused(old(self)@) {
                EscrowError::Paused
            } else {
                EscrowError::NotActive
            }),
            r matches Ok(e) ==> {
                let d = old(self)@.escrow.unwrap();
                &&& final(self)@ == with_status(old(self)@, EscrowStatus::WorkSubmitted)
                &&& effects_are(
                    e,
                    Some(d.freelancer),
                    seq![],
                    None,
                    seq![EscrowEvent::WorkSubmitted { freelancer: d.freelancer }],
                    None,
                )
            },
    {
        self.assert_not_paused()?;
        let mut data = storage::load_escrow(self);
        if data.status != EscrowStatus::Active {
            return Err(EscrowError::NotActive);
        }
        data.status = EscrowStatus::WorkSubmitted;
        storage::save_escrow(self, &data);
        let events = vec![EscrowEvent::WorkSubmitted { freelancer: data.freelancer }];
        assert(events@ =~= seq![EscrowEvent::WorkSubmitted { freelancer: data.freelancer }]);
        Ok(
            Effects {
                auth: Some(data.freelancer),
                transfers: Vec::new(),
                yield_deposit: None,
                events,
                reputation: None,
            },
        )
    }

    /// The payer approves the submitted work: the fee goes to the fee
    /// collector, the rest of the payment to the freelancer, and any yield
    /// that `withdrawal` reports to the yield recipient. The call needs the
    /// payer's signature.
    pub fn approve(&mut self, withdrawal: Option<YieldWithdrawal>) -> (r: Result<
        Effects,
        EscrowError,
    >)
        requires
            old(self).wf(),
            !is_paused(old(self)@) ==> old(self)@.escrow is Some,
            !is_paused(old(self)@) && old(self)@.escrow.unwrap().status
                == EscrowStatus::WorkSubmitted ==> fee_fits(
                old(self)@,
                old(self)@.escrow.unwrap().amount,
            ),
        ensures
            final(self).wf(),
            escrow_step(old(self)@, final(self)@),
            call_step(old(self)@, final(self)@, None),
            r is Err <==> is_paused(old(self)@) || old(self)@.escrow.unwrap().status
                != EscrowStatus::WorkSubmitted,
            r matches Err(e) ==> final(self)@ == old(self)@ && e == (if is_paused(old(self)@) {
                EscrowError::Paused
            } else {
                EscrowError::WorkNotSubmitted
            }),
            r matches Ok(e) ==> {
                let d = old(self)@.escrow.unwrap();
                let payout = (d.amount - fee_for(old(self)@, d.amount)) as i128;
                &&& final(self)@ == with_status(old(self)@, EscrowStatus::Completed)
                &&& effects_are(
                    e,
                    Some(d.payer),
                    approve_transfers(old(self)@, d, withdrawal),
                    None,
                    seq![EscrowEvent::PaymentReleased { freelancer: d.freelancer, amount: payout }],
                    reputation_call(old(self)@, d, ReputationRecord::Completion),
                )
                &&& paid_by(e.transfers@, old(self)@.address) == d.amount + paid_yield(
                    d,
                    withdrawal,
                )
                &&& !is_recurring(d.interval, d.recurrence_count) ==> paid_by(
                    e.transfers@,
                    old(self)@.address,
                ) == owed(old(self)@) - owed(final(self)@) + paid_yield(d, withdrawal)
            },
    {
        self.assert_not_paused()?;
        let mut data = storage::load_escrow(self);
        if data.status != EscrowStatus::WorkSubmitted {
            return Err(EscrowError::WorkNotSubmitted);
        }
        let ghost s0 = self@;
        let fee = fee_amount(self, data.amount);
        let freelancer_amount = data.amount - fee;
        let mut transfers: Vec<Transfer> = Vec::new();
        push_fee_transfer(self, &data, &mut transfers);
        transfers.push(
            Transfer {
                token: data.token,
                from: storage::current_contract_address(self),
                to: data.freelancer,
                amount: freelancer_amount,
            },
        );
        push_yield_transfer(self, &data, withdrawal, &mut transfers);
        let reputation = reputation_report(self, &data, ReputationRecord::Completion);
        let events = vec![
            EscrowEvent::PaymentReleased { freelancer: data.freelancer, amount: freelancer_amount },
        ];
        proof {
            let d = s0.escrow.unwrap();
            let t = Transfer {
                token: d.token,
                from: s0.address,
                to: d.freelancer,
                amount: freelancer_amount,
            };
            assert(transfers@ =~= approve_transfers(s0, d, withdrawal));
            lemma_fee_paid_by(s0, d);
            lemma_yield_paid_by(s0, d, withdrawal);
            lemma_paid_by_single(t, s0.address);
            lemma_paid_by_concat(fee_transfers(s0, d), seq![t], s0.address);
            lemma_paid_by_concat(fee_transfers(s0, d) + seq![t], yield_transfers(s0, d, withdrawal), s0.address);
            assert(events@ =~= seq![
                EscrowEvent::PaymentReleased { freelancer: d.freelancer, amount: freelancer_amount },
            ]);
        }
        data.status = EscrowStatus::Completed;
        storage::save_escrow(self, &data);
        Ok(Effects { auth: Some(data.payer), transfers, yield_deposit: None, events, reputation })
    }
}


impl EscrowContract {
    /// Releases the next payment of a recurring escrow once `interval` has
    /// passed since the last one, less the fee. After the last release the
    /// escrow is completed. Anyone may call it.
    pub fn release_recurring(&mut self, now: u64) -> (r: Result<Effects, EscrowError>)
        requires
            old(self).wf(),
            !is_paused(old(self)@) ==> old(self)@.escrow is Some,
            ({
                let d = old(self)@.escrow.unwrap();
                &&& !is_paused(old(self)@) && is_recurring(d.interval, d.recurrence_count)
                    && d.status == EscrowStatus::Active && d.releases_made < d.recurrence_count
                    ==> d.last_release_time + d.interval <= u64::MAX
                &&& release_error(old(self)@, now) is None ==> fee_fits(old(self)@, d.amount)
            }),
        ensures
            final(self).wf(),
            escrow_step(old(self)@, final(self)@),
            call_step(old(self)@, final(self)@, Some(now)),
            r is Err <==> release_error(old(self)@, now) is Some,
            ({
                let d = old(self)@.escrow.unwrap();
                !is_paused(old(self)@) && d.interval > 0 && d.recurrence_count > 0 && d.status
                    == EscrowStatus::Active && d.releases_made < d.recurrence_count && now
                    >= d.last_release_time + d.interval ==> r is Ok
            }),
            r matches Err(e) ==> release_error(old(self)@, now) == Some(e) && final(self)@ == old(
                self,
            )@,
            r matches Ok(e) ==> {
                &&& final(self)@ == released_state(old(self)@, now)
                &&& effects_are(
                    e,
                    None,
                    release_transfers(old(self)@),
                    None,
                    release_events(old(self)@),
                    None,
                )
                &&& paid_by(e.transfers@, old(self)@.address) == owed(old(self)@) - owed(
                    final(self)@,
                )
            },
    {
        self.assert_not_paused()?;
        let mut data = storage::load_escrow(self);
        if data.interval == 0 || data.recurrence_count == 0 {
            return Err(EscrowError::NotRecurring);
        }
        if data.status != EscrowStatus::Active {
            return Err(EscrowError::NotActive);
        }
        if data.releases_made >= data.recurrence_count {
            return Err(EscrowError::RecurrenceComplete);
        }
        if now < data.last_release_time + data.interval {
            return Err(EscrowError::IntervalNotElapsed);
        }
        let ghost s0 = self@;
        let ghost d = data;
        let fee = fee_amount(self, data.amount);
        let release_amount = data.amount - fee;
        let mut transfers: Vec<Transfer> = Vec::new();
        push_fee_transfer(self, &data, &mut transfers);
        transfers.push(
            Transfer {
                token: data.token,
                from: storage::current_contract_address(self),
                to: data.freelancer,
                amount: release_amount,
            },
        );
        data.releases_made = data.releases_made + 1;
        data.last_release_time = now;
        let mut events = vec![
            EscrowEvent::RecurringReleased {
                freelancer: data.freelancer,
                amount: release_amount,
                releases_made: data.releases_made,
            },
        ];
        if data.releases_made >= data.recurrence_count {
            data.status = EscrowStatus::Completed;
            events.push(
                EscrowEvent::PaymentReleased { freelancer: data.freelancer, amount: release_amount },
            );
        }
        proof {
            let t = Transfer {
                token: d.token,
                from: s0.address,
                to: d.freelancer,
                amount: release_amount,
            };
            assert(transfers@ =~= fee_transfers(s0, d) + seq![t]);
            assert(transfers@ == release_transfers(s0));
            lemma_release_paid(s0);
            if data.releases_made >= data.recurrence_count {
                assert(events@ =~= release_events(s0));
            } else {
                assert(events@ =~= release_events(s0));
            }
        }
        storage::save_escrow(self, &data);
        proof {
            assert(self@ == released_state(s0, now));
            lemma_release_owed(s0, now);
        }
        let e = Effects { auth: None, transfers, yield_deposit: None, events, reputation: None };
        Ok(e)
    }

    /// The payer cancels an escrow on which no work was submitted: the funds
    /// it still holds go back to the payer, and any yield that `withdrawal`
    /// reports to the yield recipient. The call needs the payer's signature.
    pub fn cancel(&mut self, withdrawal: Option<YieldWithdrawal>) -> (r: Result<
        Effects,
        EscrowError,
    >)
        requires
            old(self).wf(),
            !is_paused(old(self)@) ==> old(self)@.escrow is Some,
        ensures
            final(self).wf(),
            escrow_step(old(self)@, final(self)@),
            call_step(old(self)@, final(self)@, None),
            r is Err <==> is_paused(old(self)@) || old(self)@.escrow.unwrap().status
                != EscrowStatus::Active,
            r matches Err(e) ==> final(self)@ == old(self)@ && e == (if is_paused(old(self)@) {
                EscrowError::Paused
            } else {
                EscrowError::NotActive
            }),
            r matches Ok(e) ==> {
                let d = old(self)@.escrow.unwrap();
                &&& final(self)@ == with_status(old(self)@, EscrowStatus::Cancelled)
                &&& effects_are(
                    e,
                    Some(d.payer),
                    refund_transfers(old(self)@, d, withdrawal),
                    None,
                    seq![
                        EscrowEvent::EscrowCancelled { payer: d.payer, amount: remaining(d) as i128 },
                    ],
                    reputation_call(old(self)@, d, ReputationRecord::Cancellation),
                )
                &&& paid_by(e.transfers@, old(self)@.address) == owed(old(self)@) - owed(
                    final(self)@,
                ) + paid_yield(d, withdrawal)
            },
    {
        self.assert_not_paused()?;
        let mut data = storage::load_escrow(self);
        if data.status != EscrowStatus::Active {
            return Err(EscrowError::NotActive);
        }
        let ghost s0 = self@;
        let refund = remaining_amount(&data);
        let transfers = self.refund(&data, refund, withdrawal);
        let reputation = reputation_report(self, &data, ReputationRecord::Cancellation);
        let events = vec![EscrowEvent::EscrowCancelled { payer: data.payer, amount: refund }];
        assert(events@ =~= seq![EscrowEvent::EscrowCancelled { payer: data.payer, amount: refund }]);
        data.status = EscrowStatus::Cancelled;
        storage::save_escrow(self, &data);
        Ok(Effects { auth: Some(data.payer), transfers, yield_deposit: None, events, reputation })
    }

    fn refund(&self, data: &EscrowData, refund: i128, withdrawal: Option<YieldWithdrawal>) -> (r:
        Vec<Transfer>)
        requires
            self.wf(),
            data_wf(*data),
            refund == remaining(*data),
        ensures
            r@ == refund_transfers(self@, *data, withdrawal),
            paid_by(r@, self@.address) == remaining(*data) + paid_yield(*data, withdrawal),
    {
        let mut transfers: Vec<Transfer> = Vec::new();
        transfers.push(
            Transfer {
                token: data.token,
                from: storage::current_contract_address(self),
                to: data.payer,
                amount: refund,
            },
        );
        push_yield_transfer(self, data, withdrawal, &mut transfers);
        proof {
            let t = Transfer { token: data.token, from: self@.address, to: data.payer, amount: refund };
            lemma_paid_by_single(t, self@.address);
            lemma_yield_paid_by(self@, *data, withdrawal);
            lemma_paid_by_concat(seq![t], yield_transfers(self@, *data, withdrawal), self@.address);
            assert(transfers@ =~= refund_transfers(self@, *data, withdrawal));
        }
        transfers
    }

    /// The payer takes the funds back once the deadline has passed on an
    /// escrow with no submitted work: they go back to the payer, and any
    /// yield that `withdrawal` reports to the yield recipient. The call
    /// needs the payer's signature.
    pub fn expire(&mut self, now: u64, withdrawal: Option<YieldWithdrawal>) -> (r: Result<
        Effects,
        EscrowError,
    >)
        requires
            old(self).wf(),
            !is_paused(old(self)@) ==> old(self)@.escrow is Some,
        ensures
            final(self).wf(),
            escrow_step(old(self)@, final(self)@),
            call_step(old(self)@, final(self)@, None),
            r is Err <==> expire_error(old(self)@, now) is Some,
            ({
                let d = old(self)@.escrow.unwrap();
                !is_paused(old(self)@) && d.status == EscrowStatus::Active && d.deadline is Some
                    && now > d.deadline.unwrap() ==> r is Ok
            }),
            r matches Err(e) ==> expire_error(old(self)@, now) == Some(e) && final(self)@ == old(
                self,
            )@,
            r matches Ok(e) ==> {
                let d = old(self)@.escrow.unwrap();
                &&& final(self)@ == with_status(old(self)@, EscrowStatus::Expired)
                &&& effects_are(
                    e,
                    Some(d.payer),
                    refund_transfers(old(self)@, d, withdrawal),
                    None,
                    seq![EscrowEvent::EscrowExpired { payer: d.payer, amount: remaining(d) as i128 }],
                    None,
                )
                &&& paid_by(e.transfers@, old(self)@.address) == owed(old(self)@) - owed(
                    final(self)@,
                ) + paid_yield(d, withdrawal)
            },
    {
        self.assert_not_paused()?;
        let mut data = storage::load_escrow(self);
        if data.status != EscrowStatus::Active {
            return Err(EscrowError::NotActive);
        }
        let deadline = match data.deadline {
            Some(d) => d,
            None => return Err(EscrowError::NotExpired),
        };
        if now <= deadline {
            return Err(EscrowError::DeadlineNotPassed);
        }
        let refund = remaining_amount(&data);
        let transfers = self.refund(&data, refund, withdrawal);
        let events = vec![EscrowEvent::EscrowExpired { payer: data.payer, amount: refund }];
        assert(events@ =~= seq![EscrowEvent::EscrowExpired { payer: data.payer, amount: refund }]);
        data.status = EscrowStatus::Expired;
        storage::save_escrow(self, &data);
        Ok(
            Effects {
                auth: Some(data.payer),
                transfers,
                yield_deposit: None,
                events,
                reputation: None,
            },
        )
    }

    /// The freelancer hands the role to `new_freelancer` while the escrow is
    /// still open (not completed, cancelled or expired). The call needs the
    /// current freelancer's signature.
    pub fn transfer_freelancer(&mut self, new_freelancer: Address) -> (r: Result<
        Effects,
        EscrowError,
    >)
        requires
            old(self).wf(),
            !is_paused(old(self)@) ==> old(self)@.escrow is Some,
        ensures
            final(self).wf(),
            escrow_step(old(self)@, final(self)@),
            call_step(old(self)@, final(self)@, None),
            r is Err <==> is_paused(old(self)@) || is_terminal(
                old(self)@.escrow.unwrap().status,
            ),
            r matches Err(e) ==> final(self)@ == old(self)@ && e == (if is_paused(old(self)@) {
                EscrowError::Paused
            } else {
                EscrowError::NotActive
            }),
            r matches Ok(e) ==> {
                let d = old(self)@.escrow.unwrap();
                &&& final(self)@ == (EscrowState {
                    escrow: Some(EscrowData { freelancer: new_freelancer, ..d }),
                    ..old(self)@
                })
                &&& effects_are(
                    e,
                    Some(d.freelancer),
                    seq![],
                    None,
                    seq![
                        EscrowEvent::FreelancerTransferred {
                            old: d.freelancer,
                            new: new_freelancer,
                        },
                    ],
                    None,
                )
            },
    {
        self.assert_not_paused()?;
        let mut data = storage::load_escrow(self);
        if data.status == EscrowStatus::Completed || data.status == EscrowStatus::Cancelled
            || data.status == EscrowStatus::Expired {
            return Err(EscrowError::NotActive);
        }
        let old = data.freelancer;
        data.freelancer = new_freelancer;
        storage::save_escrow(self, &data);
        let events = vec![EscrowEvent::FreelancerTransferred { old, new: new_freelancer }];
        assert(events@ =~= seq![EscrowEvent::FreelancerTransferred { old, new: new_freelancer }]);
        Ok(
            Effects {
                auth: Some(old),
                transfers: Vec::new(),
                yield_deposit: None,
                events,
                reputation: None,
            },
        )
    }

    /// What has to be withdrawn from the yield protocol before settling:
    /// the principal deposited, when the escrow uses a yield protocol and
    /// the settlement will go ahead.
    pub fn yield_to_withdraw(&self, how: Settlement) -> (r: Option<YieldDeposit>)
        requires
            !is_paused(self@) ==> self@.escrow is Some,
        ensures
            r is Some <==> settlement_error(self@, how) is None
                && self@.escrow.unwrap().yield_protocol is Some,
            r matches Some(w) ==> w == (YieldDeposit {
                protocol: self@.escrow.unwrap().yield_protocol.unwrap(),
                amount: self@.escrow.unwrap().principal_deposited,
            }),
    {
        if self.assert_not_paused().is_err() {
            return None;
        }
        let d = storage::escrow_ref(self);
        let settles = match how {
            Settlement::Approve => d.status == EscrowStatus::WorkSubmitted,
            Settlement::Cancel => d.status == EscrowStatus::Active,
            Settlement::Expire { now } => d.status == EscrowStatus::Active && match d.deadline {
                Some(t) => now > t,
                None => false,
            },
        };
        match d.yield_protocol {
            Some(p) => if settles {
                Some(YieldDeposit { protocol: p, amount: d.principal_deposited })
            } else {
                None
            },
            None => None,
        }
    }

    /// The status of the escrow, which must exist.
    pub fn get_status(&self) -> (r: EscrowStatus)
        requires
            self@.escrow is Some,
        ensures
            r == self@.escrow.unwrap().status,
    {
        storage::escrow_ref(self).status
    }

    /// The escrow record, which must exist.
    pub fn get_escrow(&self) -> (r: EscrowData)
        requires
            self@.escrow is Some,
        ensures
            r == self@.escrow.unwrap(),
    {
        storage::load_escrow(self)
    }
}

/// Completed, cancelled and expired escrows stay so: no call moves an
/// escrow out of a final status.
pub proof fn lemma_terminal_status_is_final(old: EscrowState, new: EscrowState)
    requires
        escrow_step(old, new),
        old.escrow is Some,
        is_terminal(old.escrow.unwrap().status),
    ensures
        new.escrow is Some,
        new.escrow.unwrap().status == old.escrow.unwrap().status,
{
}

} // verus!

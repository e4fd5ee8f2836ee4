use vstd::prelude::*;
use crate::assoc::AddressMap;
use crate::types::Address;

verus! {

/// Identifier of an escrow.
pub type EscrowId = u64;

/// The states an escrow can be in.
#[derive(Clone, Copy, Debug, PartialEq, Eq, Structural)]
pub enum EscrowStatus {
    Active,
    WorkSubmitted,
    Completed,
    Cancelled,
    Expired,
}

/// Who receives the yield accrued on the locked funds.
#[derive(Clone, Copy, Debug, PartialEq, Eq, Structural)]
pub enum YieldRecipient {
    Payer,
    Freelancer,
}

/// The escrow record the contract keeps.
#[derive(Debug)]
pub struct EscrowData {
    pub payer: Address,
    pub freelancer: Address,
    pub token: Address,
    pub amount: i128,
    pub milestone: String,
    pub status: EscrowStatus,
    pub deadline: Option<u64>,
    pub yield_protocol: Option<Address>,
    pub principal_deposited: i128,
    pub yield_recipient: YieldRecipient,
    pub interval: u64,
    pub recurrence_count: u32,
    pub releases_made: u32,
    pub last_release_time: u64,
}

impl Clone for EscrowData {
    fn clone(&self) -> (r: Self)
        ensures
            r == *self,
    {
        EscrowData {
            payer: self.payer,
            freelancer: self.freelancer,
            token: self.token,
            amount: self.amount,
            milestone: self.milestone.clone(),
            status: self.status,
            deadline: self.deadline,
            yield_protocol: self.yield_protocol,
            principal_deposited: self.principal_deposited,
            yield_recipient: self.yield_recipient,
            interval: self.interval,
            recurrence_count: self.recurrence_count,
            releases_made: self.releases_made,
            last_release_time: self.last_release_time,
        }
    }
}

/// Limits on how many escrows a payer may open per time window.
#[derive(Clone, Copy, Debug, PartialEq, Eq, Structural)]
pub struct RateLimitConfig {
    pub admin: Address,
    pub max_per_window: u32,
    pub window_duration: u64,
    pub min_amount: i128,
    pub max_amount: i128,
}

/// A payer's use of the current rate-limit window.
#[derive(Clone, Copy, Debug, PartialEq, Eq, Structural)]
pub struct PayerStats {
    pub window_start: u64,
    pub count: u32,
}

/// Protocol-level configuration: admin, pause flag and fee.
#[derive(Clone, Copy, Debug, PartialEq, Eq, Structural)]
pub struct ProtocolConfig {
    pub admin: Address,
    pub paused: bool,
    pub fee_bps: u32,
    pub fee_collector: Address,
}

/// Recurring mode: a positive interval and a positive number of releases.
pub open spec fn is_recurring(interval: u64, recurrence_count: u32) -> bool {
    interval > 0 && recurrence_count > 0
}

/// The funds that creating an escrow locks: one payment, or every
/// payment of a recurring escrow.
pub open spec fn total_locked(amount: i128, interval: u64, recurrence_count: u32) -> int {
    if is_recurring(interval, recurrence_count) {
        amount * recurrence_count
    } else {
        amount as int
    }
}

/// The funds an escrow still holds for its parties while it is open.
pub open spec fn remaining(d: EscrowData) -> int {
    if is_recurring(d.interval, d.recurrence_count) {
        d.amount * (d.recurrence_count - d.releases_made)
    } else {
        d.amount as int
    }
}

/// The invariant of a stored escrow record.
pub open spec fn data_wf(d: EscrowData) -> bool {
    &&& d.amount > 0
    &&& total_locked(d.amount, d.interval, d.recurrence_count) <= i128::MAX
    &&& d.releases_made <= d.recurrence_count
    &&& !is_recurring(d.interval, d.recurrence_count) ==> d.releases_made == 0
}

/// The abstract contents of an escrow contract's instance storage.
pub struct EscrowState {
    pub address: Address,
    pub config: Option<ProtocolConfig>,
    pub escrow: Option<EscrowData>,
    pub rate_config: Option<RateLimitConfig>,
    pub payer_stats: Map<Address, PayerStats>,
    pub allowed_tokens: Seq<Address>,
    pub reputation_contract: Option<Address>,
}

/// One escrow contract instance: its own address and its storage.
pub struct EscrowContract {
    address: Address,
    config: Option<ProtocolConfig>,
    escrow: Option<EscrowData>,
    rate_config: Option<RateLimitConfig>,
    payer_stats: AddressMap<PayerStats>,
    allowed_tokens: Vec<Address>,
    reputation_contract: Option<Address>,
}

impl View for EscrowContract {
    type V = EscrowState;

    closed spec fn view(&self) -> EscrowState {
        EscrowState {
            address: self.address,
            config: self.config,
            escrow: self.escrow,
            rate_config: self.rate_config,
            payer_stats: self.payer_stats@,
            allowed_tokens: self.allowed_tokens@,
            reputation_contract: self.reputation_contract,
        }
    }
}

impl EscrowContract {
    /// The storage is well formed.
    pub closed spec fn wf(&self) -> bool {
        &&& self.payer_stats.wf()
        &&& (self.escrow matches Some(d) ==> data_wf(d))
    }

    /// A freshly deployed contract at `address`, its storage empty.
    pub fn new(address: Address) -> (c: Self)
        ensures
            c.wf(),
            c@.address == address,
            c@.config is None,
            c@.escrow is None,
            c@.rate_config is None,
            c@.payer_stats == Map::<Address, PayerStats>::empty(),
            c@.allowed_tokens == Seq::<Address>::empty(),
            c@.reputation_contract is None,
    {
        EscrowContract {
            address,
            config: None,
            escrow: None,
            rate_config: None,
            payer_stats: AddressMap::new(),
            allowed_tokens: Vec::new(),
            reputation_contract: None,
        }
    }
}

/// The contract's own address.
pub fn current_contract_address(store: &EscrowContract) -> (r: Address)
    ensures
        r == store@.address,
{
    store.address
}

/// Stores the escrow record.
pub fn save_escrow(store: &mut EscrowContract, data: &EscrowData)
    requires
        old(store).wf(),
        data_wf(*data),
    ensures
        final(store).wf(),
        final(store)@ == (EscrowState { escrow: Some(*data), ..old(store)@ }),
{
    store.escrow = Some(data.clone());
}

/// The stored escrow record; there must be one.
pub fn load_escrow(store: &EscrowContract) -> (r: EscrowData)
    requires
        store@.escrow is Some,
    ensures
        r == store@.escrow.unwrap(),
        store.wf() ==> data_wf(r),
{
    match &store.escrow {
        Some(d) => d.clone(),
        None => {
            proof {
                assert(false);
            }
            unreached()
        },
    }
}

/// A reference to the stored escrow record; there must be one.
pub fn escrow_ref(store: &EscrowContract) -> (r: &EscrowData)
    requires
        store@.escrow is Some,
    ensures
        *r == store@.escrow.unwrap(),
        store.wf() ==> data_wf(*r),
{
    match &store.escrow {
        Some(d) => d,
        None => {
            proof {
                assert(false);
            }
            unreached()
        },
    }
}

/// Whether an escrow record is stored.
pub fn has_escrow(store: &EscrowContract) -> (r: bool)
    ensures
        r == store@.escrow is Some,
{
    store.escrow.is_some()
}

/// The rate-limit configuration, if one was written.
pub fn read_config(store: &EscrowContract) -> (r: Option<RateLimitConfig>)
    ensures
        r == store@.rate_config,
{
    store.rate_config
}

/// Stores the rate-limit configuration.
pub fn write_config(store: &mut EscrowContract, config: &RateLimitConfig)
    requires
        old(store).wf(),
    ensures
        final(store).wf(),
        final(store)@ == (EscrowState { rate_config: Some(*config), ..old(store)@ }),
{
    store.rate_config = Some(*config);
}

/// The rate-limit window of `payer`, if one was written.
pub fn read_payer_stats(store: &EscrowContract, payer: &Address) -> (r: Option<PayerStats>)
    requires
        store.wf(),
    ensures
        r == (if store@.payer_stats.contains_key(*payer) {
            Some(store@.payer_stats[*payer])
        } else {
            None
        }),
{
    match store.payer_stats.get(*payer) {
        Some(s) => Some(*s),
        None => None,
    }
}

/// Stores the rate-limit window of `payer`.
pub fn write_payer_stats(store: &mut EscrowContract, payer: &Address, stats: &PayerStats)
    requires
        old(store).wf(),
    ensures
        final(store).wf(),
        final(store)@ == (EscrowState {
            payer_stats: old(store)@.payer_stats.insert(*payer, *stats),
            ..old(store)@
        }),
{
    store.payer_stats.insert(*payer, *stats);
}

/// The window `payer` is in at time `now` before a new escrow counts:
/// the stored one, a fresh one when none is stored, and a fresh one once
/// the stored window has run out.
pub open spec fn current_window(
    stats: Map<Address, PayerStats>,
    payer: Address,
    config: RateLimitConfig,
    now: u64,
) -> PayerStats {
    let stored = if stats.contains_key(payer) {
        stats[payer]
    } else {
        PayerStats { window_start: now, count: 0 }
    };
    let end = if stored.window_start + config.window_duration > u64::MAX {
        u64::MAX as int
    } else {
        stored.window_start + config.window_duration
    };
    if now >= end {
        PayerStats { window_start: now, count: 0 }
    } else {
        stored
    }
}

/// Counts one more escrow for `payer` in its current window, or refuses
/// when the window already holds `max_per_window` of them.
pub fn check_and_update_rate_limit(
    store: &mut EscrowContract,
    payer: Address,
    config: RateLimitConfig,
    now: u64,
) -> (r: Result<(), ()>)
    requires
        old(store).wf(),
    ensures
        final(store).wf(),
        ({
            let w = current_window(old(store)@.payer_stats, payer, config, now);
            &&& r is Err <==> w.count >= config.max_per_window
            &&& r is Err ==> final(store)@ == old(store)@
            &&& r is Ok ==> final(store)@ == (EscrowState {
                payer_stats: old(store)@.payer_stats.insert(
                    payer,
                    PayerStats { window_start: w.window_start, count: (w.count + 1) as u32 },
                ),
                ..old(store)@
            })
        }),
        r is Ok ==> final(store)@.payer_stats[payer].count <= config.max_per_window,
{
    let current_time = now;
    let stats = match read_payer_stats(store, &payer) {
        Some(s) => s,
        None => PayerStats { window_start: current_time, count: 0 },
    };
    let mut stats = stats;
    if current_time >= stats.window_start.saturating_add(config.window_duration) {
        stats.window_start = current_time;
        stats.count = 0;
    }
    if stats.count >= config.max_per_window {
        return Err(());
    }
    stats.count = stats.count.saturating_add(1);
    write_payer_stats(store, &payer, &stats);
    Ok(())
}

/// The tokens that escrows may use; empty means any token.
pub fn read_allowed_tokens(store: &EscrowContract) -> (r: Vec<Address>)
    ensures
        r@ == store@.allowed_tokens,
{
    copy_addresses(&store.allowed_tokens)
}

fn copy_addresses(v: &Vec<Address>) -> (r: Vec<Address>)
    ensures
        r@ == v@,
{
    let mut r: Vec<Address> = Vec::new();
    let mut i: usize = 0;
    while i < v.len()
        invariant
            i <= v@.len(),
            r@ == v@.take(i as int),
        decreases v@.len() - i,
    {
        r.push(v[i]);
        assert(v@.take(i + 1) == v@.take(i as int).push(v@[i as int]));
        i = i + 1;
    }
    assert(v@.take(v@.len() as int) == v@);
    r
}

/// Whether `a` occurs in `v`.
pub fn contains_address(v: &Vec<Address>, a: Address) -> (r: bool)
    ensures
        r == v@.contains(a),
{
    let mut i: usize = 0;
    while i < v.len()
        invariant
            i <= v@.len(),
            forall|j: int| 0 <= j < i ==> v@[j] != a,
        decreases v@.len() - i,
    {
        if v[i] == a {
            assert(v@[i as int] == a);
            return true;
        }
        i = i + 1;
    }
    false
}

/// Stores the list of allowed tokens.
pub fn write_allowed_tokens(store: &mut EscrowContract, tokens: &Vec<Address>)
    requires
        old(store).wf(),
    ensures
        final(store).wf(),
        final(store)@ == (EscrowState { allowed_tokens: tokens@, ..old(store)@ }),
{
    store.allowed_tokens = copy_addresses(tokens);
}

/// Adds `token` to the allowed tokens; false when it was already there.
pub fn add_to_allowlist(store: &mut EscrowContract, token: Address) -> (r: bool)
    requires
        old(store).wf(),
    ensures
        final(store).wf(),
        r == !old(store)@.allowed_tokens.contains(token),
        final(store)@ == (EscrowState {
            allowed_tokens: if r {
                old(store)@.allowed_tokens.push(token)
            } else {
                old(store)@.allowed_tokens
            },
            ..old(store)@
        }),
{
    let mut tokens = read_allowed_tokens(store);
    if contains_address(&tokens, token) {
        false
    } else {
        tokens.push(token);
        write_allowed_tokens(store, &tokens);
        true
    }
}

/// The list without any occurrence of `token`.
pub open spec fn without(s: Seq<Address>, token: Address) -> Seq<Address> {
    s.filter(other_than(token))
}

/// Holds of every address but `token`.
pub open spec fn other_than(token: Address) -> spec_fn(Address) -> bool {
    |t: Address| t != token
}

/// A list without `token` is its own `without(.., token)`.
proof fn lemma_without_absent(s: Seq<Address>, token: Address)
    requires
        !s.contains(token),
    ensures
        without(s, token) == s,
    decreases s.len(),
{
    reveal_with_fuel(Seq::<_>::filter, 1);
    if s.len() > 0 {
        assert(!s.drop_last().contains(token)) by {
            if s.drop_last().contains(token) {
                let k = choose|k: int| 0 <= k < s.drop_last().len() && s.drop_last()[k] == token;
                assert(s[k] == token);
            }
        }
        lemma_without_absent(s.drop_last(), token);
        assert(s.last() != token) by {
            assert(s[s.len() - 1] == s.last());
        }
        assert(s.drop_last().push(s.last()) =~= s);
    }
}

/// Adding a token that was not allowed and then removing it gives back the
/// list as it was.
pub proof fn lemma_add_then_remove_restores(s: Seq<Address>, token: Address)
    requires
        !s.contains(token),
    ensures
        without(s.push(token), token) == s,
{
    reveal_with_fuel(Seq::<_>::filter, 1);
    assert(s.push(token).drop_last() =~= s);
    lemma_without_absent(s, token);
}

/// After removal, the token is no longer allowed.
pub proof fn lemma_removed_token_gone(s: Seq<Address>, token: Address)
    ensures
        !without(s, token).contains(token),
{
    broadcast use vstd::seq_lib::group_filter_ensures;
    if without(s, token).contains(token) {
        let k = choose|k: int| 0 <= k < without(s, token).len() && without(s, token)[k] == token;
        assert(other_than(token)(without(s, token)[k]));
    }
}

/// Removes every occurrence of `token` from the allowed tokens; false when
/// it was not there.
pub fn remove_from_allowlist(store: &mut EscrowContract, token: Address) -> (r: bool)
    requires
        old(store).wf(),
    ensures
        final(store).wf(),
        r == old(store)@.allowed_tokens.contains(token),
        final(store)@ == (EscrowState {
            allowed_tokens: if r {
                without(old(store)@.allowed_tokens, token)
            } else {
                old(store)@.allowed_tokens
            },
            ..old(store)@
        }),
{
    let tokens = read_allowed_tokens(store);
    let ghost s = tokens@;
    let ghost pred = other_than(token);
    let mut kept: Vec<Address> = Vec::new();
    let mut found = false;
    let mut i: usize = 0;
    while i < tokens.len()
        invariant
            i <= s.len(),
            tokens@ == s,
            pred == other_than(token),
            kept@ == s.take(i as int).filter(pred),
            found == s.take(i as int).contains(token),
        decreases s.len() - i,
    {
        let t = tokens[i];
        let ghost t0 = s.take(i as int);
        let ghost t1 = s.take(i + 1);
        assert(t1.drop_last() =~= t0);
        assert(t1.last() == t);
        assert(t1.filter(pred) == (if pred(t) {
            t0.filter(pred).push(t)
        } else {
            t0.filter(pred)
        })) by {
            reveal_with_fuel(Seq::<_>::filter, 1);
        }
        assert(pred(t) == (t != token));
        if t != token {
            kept.push(t);
        } else {
            found = true;
        }
        assert(t1[i as int] == t);
        assert(found == t1.contains(token)) by {
            if t0.contains(token) {
                let k = choose|k: int| 0 <= k < t0.len() && #[trigger] t0[k] == token;
                assert(t1[k] == token);
            }
            if t1.contains(token) {
                let k = choose|k: int| 0 <= k < t1.len() && #[trigger] t1[k] == token;
                if k < i {
                    assert(t0[k] == token);
                }
            }
        }
        i = i + 1;
    }
    assert(s.take(s.len() as int) =~= s);
    if found {
        write_allowed_tokens(store, &kept);
        true
    } else {
        false
    }
}

/// Stores the protocol configuration.
pub fn save_config(store: &mut EscrowContract, config: &ProtocolConfig)
    requires
        old(store).wf(),
    ensures
        final(store).wf(),
        final(store)@ == (EscrowState { config: Some(*config), ..old(store)@ }),
{
    store.config = Some(*config);
}

/// The protocol configuration; it must have been initialised.
pub fn load_config(store: &EscrowContract) -> (r: ProtocolConfig)
    requires
        store@.config is Some,
    ensures
        r == store@.config.unwrap(),
{
    match store.config {
        Some(c) => c,
        None => {
            proof {
                assert(false);
            }
            unreached()
        },
    }
}

/// Whether the protocol configuration was initialised.
pub fn has_config(store: &EscrowContract) -> (r: bool)
    ensures
        r == store@.config is Some,
{
    store.config.is_some()
}

/// Stores the address of the reputation contract to report to.
pub fn save_reputation_contract(store: &mut EscrowContract, addr: &Address)
    requires
        old(store).wf(),
    ensures
        final(store).wf(),
        final(store)@ == (EscrowState { reputation_contract: Some(*addr), ..old(store)@ }),
{
    store.reputation_contract = Some(*addr);
}

/// The reputation contract to report to, if one was set.
pub fn load_reputation_contract(store: &EscrowContract) -> (r: Option<Address>)
    ensures
        r == store@.reputation_contract,
{
    store.reputation_contract
}

} // verus!

use vstd::prelude::*;
use crate::assoc::AddressMap;
use crate::types::Address;

verus! {

/// How many escrows an address has completed and had cancelled.
#[derive(Clone, Copy, Debug, PartialEq, Eq, Structural)]
pub struct ReputationStats {
    pub completed: u32,
    pub cancelled: u32,
}

/// Why the reputation contract refused a call.
#[derive(Clone, Copy, Debug, PartialEq, Eq, Structural)]
pub enum ReputationError {
    Unauthorized,
    AlreadyInitialized,
}

/// What a recording call published about the address it updated.
#[derive(Clone, Copy, Debug, PartialEq, Eq, Structural)]
pub struct ReputationUpdated {
    pub address: Address,
    pub completed: u32,
    pub cancelled: u32,
}

/// What an accepted admin call asks of the ledger: whose signature it
/// needs. It publishes no event.
#[derive(Clone, Copy, Debug, PartialEq, Eq, Structural)]
pub struct ReputationEffects {
    pub auth: Address,
}

/// What a recording call did: whose signature it needs (asked for before
/// the caller is checked), and the counts it published, or why it refused.
#[derive(Clone, Copy, Debug)]
pub struct RecordOutcome {
    pub auth: Address,
    pub result: Result<ReputationUpdated, ReputationError>,
}

/// The stats of an address that nothing was ever recorded for.
pub open spec fn zero_stats() -> ReputationStats {
    ReputationStats { completed: 0, cancelled: 0 }
}

/// The score of a record: ten points per completion, five off per
/// cancellation, never below zero.
pub open spec fn score(stats: ReputationStats) -> int {
    let raw = 10 * stats.completed - 5 * stats.cancelled;
    if raw > 0 {
        raw
    } else {
        0
    }
}

/// The scoring arithmetic fits in `u32` (the contract panics otherwise).
pub open spec fn score_fits(stats: ReputationStats) -> bool {
    10 * stats.completed <= u32::MAX && 5 * stats.cancelled <= u32::MAX
}

/// The abstract state of a reputation contract.
pub struct ReputationState {
    pub admin: Option<Address>,
    pub callers: Set<Address>,
    pub stats: Map<Address, ReputationStats>,
}

/// The stats the contract reports for `a`.
pub open spec fn stats_of(s: ReputationState, a: Address) -> ReputationStats {
    if s.stats.contains_key(a) {
        s.stats[a]
    } else {
        zero_stats()
    }
}

/// The stats after one more completion.
pub open spec fn with_completion(st: ReputationStats) -> ReputationStats {
    ReputationStats { completed: (st.completed + 1) as u32, ..st }
}

/// The stats after one more cancellation.
pub open spec fn with_cancellation(st: ReputationStats) -> ReputationStats {
    ReputationStats { cancelled: (st.cancelled + 1) as u32, ..st }
}

/// Records completed and cancelled escrows per address and scores them.
/// Only callers that the admin registered may record.
pub struct ReputationContract {
    admin: Option<Address>,
    callers: AddressMap<bool>,
    stats: AddressMap<ReputationStats>,
}

impl View for ReputationContract {
    type V = ReputationState;

    closed spec fn view(&self) -> ReputationState {
        ReputationState {
            admin: self.admin,
            callers: self.callers@.dom(),
            stats: self.stats@,
        }
    }
}

impl ReputationContract {
    /// The internal lists are well formed.
    pub closed spec fn wf(&self) -> bool {
        self.callers.wf() && self.stats.wf()
    }

    /// A contract instance whose storage is still empty.
    pub fn new() -> (c: Self)
        ensures
            c.wf(),
            c@.admin is None,
            c@.callers == Set::<Address>::empty(),
            c@.stats == Map::<Address, ReputationStats>::empty(),
    {
        ReputationContract { admin: None, callers: AddressMap::new(), stats: AddressMap::new() }
    }

    /// Sets the admin, once. The call needs `admin`'s signature.
    pub fn init(&mut self, admin: Address) -> (r: Result<ReputationEffects, ReputationError>)
        requires
            old(self).wf(),
        ensures
            final(self).wf(),
            final(self)@.callers == old(self)@.callers,
            final(self)@.stats == old(self)@.stats,
            r is Err <==> old(self)@.admin is Some,
            r matches Err(e) ==> e == ReputationError::AlreadyInitialized && final(self)@.admin
                == old(self)@.admin,
            r matches Ok(e) ==> final(self)@.admin == Some(admin) && e == (ReputationEffects { auth: admin }),
    {
        if self.admin.is_some() {
            return Err(ReputationError::AlreadyInitialized);
        }
        self.admin = Some(admin);
        Ok(ReputationEffects { auth: admin })
    }

    /// The admin, once one was set.
    pub fn admin(&self) -> (r: Option<Address>)
        ensures
            r == self@.admin,
    {
        self.admin
    }

    /// Registers `caller` as allowed to record. The call needs the admin's
    /// signature, so an admin must have been set.
    pub fn register_caller(&mut self, caller: Address) -> (r: Result<
        ReputationEffects,
        ReputationError,
    >)
        requires
            old(self).wf(),
            old(self)@.admin is Some,
        ensures
            final(self).wf(),
            r == Ok::<ReputationEffects, ReputationError>(
                ReputationEffects { auth: old(self)@.admin.unwrap() },
            ),
            final(self)@.admin == old(self)@.admin,
            final(self)@.callers == old(self)@.callers.insert(caller),
            final(self)@.stats == old(self)@.stats,
    {
        let admin = self.admin.unwrap();
        self.callers.insert(caller, true);
        Ok(ReputationEffects { auth: admin })
    }

    /// The stats kept for `address`; zero when none are kept.
    pub fn load_stats(&self, address: Address) -> (r: ReputationStats)
        requires
            self.wf(),
        ensures
            r == stats_of(self@, address),
    {
        match self.stats.get(address) {
            Some(s) => *s,
            None => ReputationStats { completed: 0, cancelled: 0 },
        }
    }

    /// Keeps `stats` for `address`.
    pub fn save_stats(&mut self, address: Address, stats: ReputationStats)
        requires
            old(self).wf(),
        ensures
            final(self).wf(),
            final(self)@.admin == old(self)@.admin,
            final(self)@.callers == old(self)@.callers,
            final(self)@.stats == old(self)@.stats.insert(address, stats),
    {
        self.stats.insert(address, stats);
    }

    /// Records that `address` completed an escrow. `caller` must be a
    /// registered caller. The call needs the caller's signature, whatever
    /// the outcome, and publishes the new counts.
    pub fn record_completion(&mut self, caller: Address, address: Address) -> (r: RecordOutcome)
        requires
            old(self).wf(),
            old(self)@.callers.contains(caller) ==> stats_of(old(self)@, address).completed
                < u32::MAX,
        ensures
            final(self).wf(),
            final(self)@.admin == old(self)@.admin,
            final(self)@.callers == old(self)@.callers,
            r.auth == caller,
            r.result is Err <==> !old(self)@.callers.contains(caller),
            r.result matches Err(e) ==> e == ReputationError::Unauthorized && final(self)@ == old(
                self,
            )@,
            r.result matches Ok(ev) ==> {
                &&& stats_of(final(self)@, address) == with_completion(stats_of(old(self)@, address))
                &&& forall|b: Address|
                    b != address ==> #[trigger] stats_of(final(self)@, b) == stats_of(
                        old(self)@,
                        b,
                    )
                &&& ev == ReputationUpdated {
                    address,
                    completed: stats_of(final(self)@, address).completed,
                    cancelled: stats_of(final(self)@, address).cancelled,
                }
            },
    {
        if self.callers.get(caller).is_none() {
            return RecordOutcome { auth: caller, result: Err(ReputationError::Unauthorized) };
        }
        let mut stats = self.load_stats(address);
        stats.completed = stats.completed + 1;
        self.save_stats(address, stats);
        RecordOutcome {
            auth: caller,
            result: Ok(
                ReputationUpdated { address, completed: stats.completed, cancelled: stats.cancelled },
            ),
        }
    }

    /// Records that an escrow of `address` was cancelled. `caller` must be
    /// a registered caller. The call needs the caller's signature, whatever
    /// the outcome, and publishes the new counts.
    pub fn record_cancellation(&mut self, caller: Address, address: Address) -> (r: RecordOutcome)
        requires
            old(self).wf(),
            old(self)@.callers.contains(caller) ==> stats_of(old(self)@, address).cancelled
                < u32::MAX,
        ensures
            final(self).wf(),
            final(self)@.admin == old(self)@.admin,
            final(self)@.callers == old(self)@.callers,
            r.auth == caller,
            r.result is Err <==> !old(self)@.callers.contains(caller),
            r.result matches Err(e) ==> e == ReputationError::Unauthorized && final(self)@ == old(
                self,
            )@,
            r.result matches Ok(ev) ==> {
                &&& stats_of(final(self)@, address) == with_cancellation(
                    stats_of(old(self)@, address),
                )
                &&& forall|b: Address|
                    b != address ==> #[trigger] stats_of(final(self)@, b) == stats_of(
                        old(self)@,
                        b,
                    )
                &&& ev == ReputationUpdated {
                    address,
                    completed: stats_of(final(self)@, address).completed,
                    cancelled: stats_of(final(self)@, address).cancelled,
                }
            },
    {
        if self.callers.get(caller).is_none() {
            return RecordOutcome { auth: caller, result: Err(ReputationError::Unauthorized) };
        }
        let mut stats = self.load_stats(address);
        stats.cancelled = stats.cancelled + 1;
        self.save_stats(address, stats);
        RecordOutcome {
            auth: caller,
            result: Ok(
                ReputationUpdated { address, completed: stats.completed, cancelled: stats.cancelled },
            ),
        }
    }

    /// The raw stats of `address`; zero for an address never recorded.
    pub fn get_stats(&self, address: Address) -> (r: ReputationStats)
        requires
            self.wf(),
        ensures
            r == stats_of(self@, address),
    {
        self.load_stats(address)
    }

    /// The score of `address`: `completed * 10 - cancelled * 5`, at least 0.
    pub fn get_reputation(&self, address: Address) -> (r: u32)
        requires
            self.wf(),
            score_fits(stats_of(self@, address)),
        ensures
            r == score(stats_of(self@, address)),
    {
        let stats = self.load_stats(address);
        let positive = stats.completed * 10;
        let negative = stats.cancelled * 5;
        positive.saturating_sub(negative)
    }
}

/// A further completion never lowers the score, and raises it by exactly
/// ten points once the completions outweigh the cancellations.
pub proof fn lemma_completion_never_lowers_score(stats: ReputationStats)
    requires
        stats.completed < u32::MAX,
    ensures
        score(with_completion(stats)) >= score(stats),
        score(with_completion(stats)) <= score(stats) + 10,
        10 * stats.completed >= 5 * stats.cancelled ==> score(with_completion(stats)) == score(
            stats,
        ) + 10,
{
}

/// The score is ten points per completion less five per cancellation,
/// with no upper limit, and never negative: it is at least that balance and
/// at least zero, and it is either that balance or zero.
pub proof fn lemma_score_is_balance_or_zero(stats: ReputationStats)
    ensures
        score(stats) >= 0,
        score(stats) >= 10 * stats.completed - 5 * stats.cancelled,
        score(stats) == 0 || score(stats) == 10 * stats.completed - 5 * stats.cancelled,
        score(zero_stats()) == 0,
{
}

/// A further cancellation never raises the score, and lowers it by
/// exactly five points while the completions still outweigh the
/// cancellations afterwards.
pub proof fn lemma_cancellation_never_raises_score(stats: ReputationStats)
    requires
        stats.cancelled < u32::MAX,
    ensures
        score(with_cancellation(stats)) <= score(stats),
        score(with_cancellation(stats)) >= score(stats) - 5,
        10 * stats.completed >= 5 * (stats.cancelled + 1) ==> score(with_cancellation(stats))
            == score(stats) - 5,
{
}

/// Recording counts one more completion or cancellation and leaves the
/// other count alone.
pub proof fn lemma_recording_counts_one(stats: ReputationStats)
    requires
        stats.completed < u32::MAX,
        stats.cancelled < u32::MAX,
    ensures
        with_completion(stats).completed == stats.completed + 1,
        with_completion(stats).cancelled == stats.cancelled,
        with_cancellation(stats).cancelled == stats.cancelled + 1,
        with_cancellation(stats).completed == stats.completed,
        zero_stats().completed == 0 && zero_stats().cancelled == 0,
{
}

} // verus!

use vstd::prelude::*;
use crate::assoc::AddressMap;
use crate::escrow::contract::Transfer;
use crate::types::Address;

verus! {

/// Identifier of an escrow within the factory.
pub type EscrowId = u64;

/// The states a factory escrow can be in.
#[derive(Clone, Copy, Debug, PartialEq, Eq, Structural)]
pub enum EscrowStatus {
    Active,
    WorkSubmitted,
    Completed,
    Cancelled,
}

/// One escrow kept by the factory.
#[derive(Debug)]
pub struct EscrowRecord {
    pub id: EscrowId,
    pub payer: Address,
    pub freelancer: Address,
    pub token: Address,
    pub amount: i128,
    pub milestone: String,
    pub status: EscrowStatus,
}

impl Clone for EscrowRecord {
    fn clone(&self) -> (r: Self)
        ensures
            r == *self,
    {
        EscrowRecord {
            id: self.id,
            payer: self.payer,
            freelancer: self.freelancer,
            token: self.token,
            amount: self.amount,
            milestone: self.milestone.clone(),
            status: self.status,
        }
    }
}

/// Why the factory refused a call.
#[derive(Clone, Copy, Debug, PartialEq, Eq, Structural)]
pub enum FactoryError {
    NotFound,
    NotActive,
    WorkNotSubmitted,
    InvalidAmount,
    Unauthorized,
}

/// What the factory publishes.
#[derive(Clone, Copy, Debug, PartialEq, Eq, Structural)]
pub enum FactoryEvent {
    EscrowCreated { id: EscrowId, payer: Address, freelancer: Address, amount: i128 },
    PaymentReleased { id: EscrowId, freelancer: Address, amount: i128 },
    EscrowCancelled { id: EscrowId, payer: Address, amount: i128 },
}

/// What an accepted factory call asks of the ledger: whose signature it
/// needs, the token payment and the event to publish.
#[derive(Clone, Copy, Debug, PartialEq, Eq, Structural)]
pub struct FactoryEffects {
    pub auth: Address,
    pub transfer: Option<Transfer>,
    pub event: Option<FactoryEvent>,
}

/// The abstract state of a factory: its address, its escrows in the order
/// they were created, and the per-payer and per-freelancer lists of ids.
pub struct FactoryState {
    pub address: Address,
    pub records: Seq<EscrowRecord>,
    pub payer_index: Map<Address, Vec<EscrowId>>,
    pub freelancer_index: Map<Address, Vec<EscrowId>>,
}

/// The ids of the escrows whose payer is `a`, in creation order.
pub open spec fn ids_of_payer(records: Seq<EscrowRecord>, a: Address) -> Seq<EscrowId>
    decreases records.len(),
{
    if records.len() == 0 {
        seq![]
    } else {
        let rest = ids_of_payer(records.drop_last(), a);
        if records.last().payer == a {
            rest.push(records.last().id)
        } else {
            rest
        }
    }
}

/// The ids of the escrows whose freelancer is `a`, in creation order.
pub open spec fn ids_of_freelancer(records: Seq<EscrowRecord>, a: Address) -> Seq<EscrowId>
    decreases records.len(),
{
    if records.len() == 0 {
        seq![]
    } else {
        let rest = ids_of_freelancer(records.drop_last(), a);
        if records.last().freelancer == a {
            rest.push(records.last().id)
        } else {
            rest
        }
    }
}

/// The list an index keeps for `a`; empty when it keeps none.
pub open spec fn index_list(index: Map<Address, Vec<EscrowId>>, a: Address) -> Seq<EscrowId> {
    if index.contains_key(a) {
        index[a]@
    } else {
        seq![]
    }
}

/// The record `id` after a status change.
pub open spec fn with_record_status(s: FactoryState, id: EscrowId, status: EscrowStatus) -> FactoryState {
    FactoryState {
        records: s.records.update(id as int, EscrowRecord { status, ..s.records[id as int] }),
        ..s
    }
}

/// The transitions of a factory escrow.
pub open spec fn status_step(a: EscrowStatus, b: EscrowStatus) -> bool {
    ||| a == b
    ||| a == EscrowStatus::Active && b == EscrowStatus::WorkSubmitted
    ||| a == EscrowStatus::WorkSubmitted && b == EscrowStatus::Completed
    ||| a == EscrowStatus::Active && b == EscrowStatus::Cancelled
}

/// A call keeps every existing escrow, changes at most its status and only
/// along a valid transition, and only ever adds new escrows at the end.
pub open spec fn records_step(old: FactoryState, new: FactoryState) -> bool {
    &&& new.address == old.address
    &&& old.records.len() <= new.records.len()
    &&& forall|i: int|
        0 <= i < old.records.len() ==> {
            let a = #[trigger] old.records[i];
            let b = new.records[i];
            &&& b.id == a.id
            &&& b.payer == a.payer
            &&& b.freelancer == a.freelancer
            &&& b.token == a.token
            &&& b.amount == a.amount
            &&& b.milestone == a.milestone
            &&& status_step(a.status, b.status)
        }
}

/// Creates many escrows, each with its own id, in one contract.
pub struct EscrowFactory {
    address: Address,
    records: Vec<EscrowRecord>,
    payer_index: AddressMap<Vec<EscrowId>>,
    freelancer_index: AddressMap<Vec<EscrowId>>,
}

impl View for EscrowFactory {
    type V = FactoryState;

    closed spec fn view(&self) -> FactoryState {
        FactoryState {
            address: self.address,
            records: self.records@,
            payer_index: self.payer_index@,
            freelancer_index: self.freelancer_index@,
        }
    }
}

/// Changing fields other than id and parties keeps the id lists.
proof fn lemma_ids_keep(records: Seq<EscrowRecord>, i: int, r: EscrowRecord, a: Address)
    requires
        0 <= i < records.len(),
        r.id == records[i].id,
        r.payer == records[i].payer,
        r.freelancer == records[i].freelancer,
    ensures
        ids_of_payer(records.update(i, r), a) == ids_of_payer(records, a),
        ids_of_freelancer(records.update(i, r), a) == ids_of_freelancer(records, a),
    decreases records.len(),
{
    let u = records.update(i, r);
    if i == records.len() - 1 {
        assert(u.drop_last() =~= records.drop_last());
    } else {
        assert(u.drop_last() =~= records.drop_last().update(i, r));
        lemma_ids_keep(records.drop_last(), i, r, a);
    }
}

impl EscrowFactory {
    /// Ids are positions, and the indexes list exactly the escrows of each
    /// payer and each freelancer.
    pub closed spec fn wf(&self) -> bool {
        &&& self.payer_index.wf()
        &&& self.freelancer_index.wf()
        &&& self.records@.len() <= u64::MAX
        &&& forall|i: int| 0 <= i < self.records@.len() ==> #[trigger] self.records@[i].id == i
        &&& forall|a: Address| #[trigger]
            index_list(self.payer_index@, a) == ids_of_payer(self.records@, a)
        &&& forall|a: Address| #[trigger]
            index_list(self.freelancer_index@, a) == ids_of_freelancer(self.records@, a)
    }

    /// A freshly deployed factory at `address`, with no escrows.
    pub fn new(address: Address) -> (f: Self)
        ensures
            f.wf(),
            f@.address == address,
            f@.records == Seq::<EscrowRecord>::empty(),
    {
        let f = EscrowFactory {
            address,
            records: Vec::new(),
            payer_index: AddressMap::new(),
            freelancer_index: AddressMap::new(),
        };
        assert(f.records@ =~= Seq::<EscrowRecord>::empty());
        f
    }

    /// The factory at `address` that holds `records`, in creation order,
    /// with the per-party lists rebuilt from them. Each record's id must be
    /// its position.
    pub fn from_records(address: Address, records: Vec<EscrowRecord>) -> (f: Self)
        requires
            records@.len() <= u64::MAX,
            forall|i: int| 0 <= i < records@.len() ==> #[trigger] records@[i].id == i,
        ensures
            f.wf(),
            f@.address == address,
            f@.records == records@,
    {
        let mut f = Self::new(address);
        let ghost all = records@;
        let mut k: usize = 0;
        while k < records.len()
            invariant
                f.wf(),
                f@.address == address,
                k <= all.len(),
                all == records@,
                f@.records == all.take(k as int),
                all.len() <= u64::MAX,
                forall|i: int| 0 <= i < all.len() ==> #[trigger] all[i].id == i,
            decreases all.len() - k,
        {
            let r = records[k].clone();
            let ghost s0 = f.records@;
            let payer = r.payer;
            let freelancer = r.freelancer;
            let id = r.id;
            assert(id == k);
            f.records.push(r);
            Self::append_to_index(&mut f.payer_index, payer, id);
            Self::append_to_index(&mut f.freelancer_index, freelancer, id);
            proof {
                let s1 = f.records@;
                assert(s1.drop_last() =~= s0);
                assert(s1 =~= all.take(k + 1));
                assert forall|i: int| 0 <= i < s1.len() implies #[trigger] s1[i].id == i by {
                    assert(s1[i] == all[i]);
                }
            }
            k = k + 1;
        }
        assert(all.take(all.len() as int) =~= all);
        assert(f.records@ =~= all);
        f
    }

    fn next_id(&self) -> (r: EscrowId)
        requires
            self.wf(),
        ensures
            r == self@.records.len(),
    {
        self.records.len() as u64
    }

    fn load_escrow(&self, id: EscrowId) -> (r: Result<EscrowRecord, FactoryError>)
        requires
            self.wf(),
        ensures
            r is Err <==> id >= self@.records.len(),
            r matches Err(e) ==> e == FactoryError::NotFound,
            r matches Ok(rec) ==> rec == self@.records[id as int],
    {
        if id < self.records.len() as u64 {
            Ok(self.records[id as usize].clone())
        } else {
            Err(FactoryError::NotFound)
        }
    }

    fn save_escrow(&mut self, record: EscrowRecord)
        requires
            old(self).wf(),
            record.id < old(self)@.records.len(),
            record.payer == old(self)@.records[record.id as int].payer,
            record.freelancer == old(self)@.records[record.id as int].freelancer,
        ensures
            final(self).wf(),
            final(self)@ == (FactoryState {
                records: old(self)@.records.update(record.id as int, record),
                ..old(self)@
            }),
    {
        let ghost s0 = self.records@;
        let ghost r = record;
        let i = record.id as usize;
        assert(s0[i as int].id == i);
        self.records.set(i, record);
        proof {
            assert forall|a: Address| #[trigger]
                index_list(self.payer_index@, a) == ids_of_payer(self.records@, a) by {
                lemma_ids_keep(s0, i as int, r, a);
            }
            assert forall|a: Address| #[trigger]
                index_list(self.freelancer_index@, a) == ids_of_freelancer(self.records@, a) by {
                lemma_ids_keep(s0, i as int, r, a);
            }
        }
    }

    fn index_of(index: &AddressMap<Vec<EscrowId>>, a: Address) -> (r: Vec<EscrowId>)
        requires
            index.wf(),
        ensures
            r@ == index_list(index@, a),
    {
        match index.get(a) {
            Some(ids) => {
                let mut out: Vec<EscrowId> = Vec::new();
                let mut i: usize = 0;
                while i < ids.len()
                    invariant
                        i <= ids@.len(),
                        out@ == ids@.take(i as int),
                    decreases ids@.len() - i,
                {
                    out.push(ids[i]);
                    assert(ids@.take(i + 1) =~= ids@.take(i as int).push(ids@[i as int]));
                    i = i + 1;
                }
                assert(ids@.take(ids@.len() as int) =~= ids@);
                out
            },
            None => Vec::new(),
        }
    }

    fn append_to_index(index: &mut AddressMap<Vec<EscrowId>>, a: Address, id: EscrowId)
        requires
            old(index).wf(),
        ensures
            final(index).wf(),
            forall|b: Address|
                b != a ==> #[trigger] index_list(final(index)@, b) == index_list(old(index)@, b),
            index_list(final(index)@, a) == index_list(old(index)@, a).push(id),
    {
        let mut ids = Self::index_of(index, a);
        ids.push(id);
        let ghost pushed = ids@;
        index.insert(a, ids);
        assert(index_list(index@, a) == pushed);
    }

    /// Creates an escrow and asks for its funds. Returns its id: the number
    /// of escrows created before it. The call needs the payer's signature.
    pub fn create_escrow(
        &mut self,
        payer: Address,
        freelancer: Address,
        token: Address,
        amount: i128,
        milestone: String,
    ) -> (r: Result<(EscrowId, FactoryEffects), FactoryError>)
        requires
            old(self).wf(),
            old(self)@.records.len() < u64::MAX,
        ensures
            final(self).wf(),
            records_step(old(self)@, final(self)@),
            r is Err <==> amount <= 0,
            r matches Err(e) ==> e == FactoryError::InvalidAmount && final(self)@ == old(self)@,
            r matches Ok((id, e)) ==> {
                &&& id == old(self)@.records.len()
                &&& final(self)@.address == old(self)@.address
                &&& final(self)@.records == old(self)@.records.push(
                    EscrowRecord {
                        id,
                        payer,
                        freelancer,
                        token,
                        amount,
                        milestone,
                        status: EscrowStatus::Active,
                    },
                )
                &&& e == FactoryEffects {
                    auth: payer,
                    transfer: Some(
                        Transfer { token, from: payer, to: old(self)@.address, amount },
                    ),
                    event: Some(FactoryEvent::EscrowCreated { id, payer, freelancer, amount }),
                }
            },
    {
        if amount <= 0 {
            return Err(FactoryError::InvalidAmount);
        }
        let id = self.next_id();
        let record = EscrowRecord {
            id,
            payer,
            freelancer,
            token,
            amount,
            milestone,
            status: EscrowStatus::Active,
        };
        let ghost s0 = self.records@;
        let ghost rec = record;
        self.records.push(record);
        Self::append_to_index(&mut self.payer_index, payer, id);
        Self::append_to_index(&mut self.freelancer_index, freelancer, id);
        proof {
            let s1 = self.records@;
            assert(s1.drop_last() =~= s0);
            assert forall|i: int| 0 <= i < s1.len() implies #[trigger] s1[i].id == i by {
                if i < s0.len() {
                    assert(s1[i] == s0[i]);
                }
            }
        }
        Ok(
            (
                id,
                FactoryEffects {
                    auth: payer,
                    transfer: Some(Transfer { token, from: payer, to: self.address, amount }),
                    event: Some(FactoryEvent::EscrowCreated { id, payer, freelancer, amount }),
                },
            ),
        )
    }

    /// The freelancer of escrow `id` declares the work done. The call needs
    /// that freelancer's signature.
    pub fn submit_work(&mut self, id: EscrowId) -> (r: Result<FactoryEffects, FactoryError>)
        requires
            old(self).wf(),
        ensures
            final(self).wf(),
            records_step(old(self)@, final(self)@),
            r is Err <==> id >= old(self)@.records.len() || old(self)@.records[id as int].status
                != EscrowStatus::Active,
            r matches Err(e) ==> final(self)@ == old(self)@ && e == (if id >= old(
                self,
            )@.records.len() {
                FactoryError::NotFound
            } else {
                FactoryError::NotActive
            }),
            r matches Ok(e) ==> {
                &&& final(self)@ == with_record_status(old(self)@, id, EscrowStatus::WorkSubmitted)
                &&& e == FactoryEffects {
                    auth: old(self)@.records[id as int].freelancer,
                    transfer: None,
                    event: None,
                }
            },
    {
        let mut record = self.load_escrow(id)?;
        if record.status != EscrowStatus::Active {
            return Err(FactoryError::NotActive);
        }
        record.status = EscrowStatus::WorkSubmitted;
        let auth = record.freelancer;
        self.save_escrow(record);
        Ok(FactoryEffects { auth, transfer: None, event: None })
    }

    /// The payer of escrow `id` approves the work; the funds go to the
    /// freelancer. The call needs the payer's signature.
    pub fn approve(&mut self, id: EscrowId) -> (r: Result<FactoryEffects, FactoryError>)
        requires
            old(self).wf(),
        ensures
            final(self).wf(),
            records_step(old(self)@, final(self)@),
            r is Err <==> id >= old(self)@.records.len() || old(self)@.records[id as int].status
                != EscrowStatus::WorkSubmitted,
            r matches Err(e) ==> final(self)@ == old(self)@ && e == (if id >= old(
                self,
            )@.records.len() {
                FactoryError::NotFound
            } else {
                FactoryError::WorkNotSubmitted
            }),
            r matches Ok(e) ==> {
                let rec = old(self)@.records[id as int];
                &&& final(self)@ == with_record_status(old(self)@, id, EscrowStatus::Completed)
                &&& e == FactoryEffects {
                    auth: rec.payer,
                    transfer: Some(
                        Transfer {
                            token: rec.token,
                            from: old(self)@.address,
                            to: rec.freelancer,
                            amount: rec.amount,
                        },
                    ),
                    event: Some(
                        FactoryEvent::PaymentReleased {
                            id,
                            freelancer: rec.freelancer,
                            amount: rec.amount,
                        },
                    ),
                }
            },
    {
        let mut record = self.load_escrow(id)?;
        if record.status != EscrowStatus::WorkSubmitted {
            return Err(FactoryError::WorkNotSubmitted);
        }
        let effects = FactoryEffects {
            auth: record.payer,
            transfer: Some(
                Transfer {
                    token: record.token,
                    from: self.address,
                    to: record.freelancer,
                    amount: record.amount,
                },
            ),
            event: Some(
                FactoryEvent::PaymentReleased {
                    id,
                    freelancer: record.freelancer,
                    amount: record.amount,
                },
            ),
        };
        record.status = EscrowStatus::Completed;
        self.save_escrow(record);
        Ok(effects)
    }

    /// The payer of escrow `id` cancels it before any work was submitted;
    /// the funds go back to the payer. The call needs the payer's signature.
    pub fn cancel(&mut self, id: EscrowId) -> (r: Result<FactoryEffects, FactoryError>)
        requires
            old(self).wf(),
        ensures
            final(self).wf(),
            records_step(old(self)@, final(self)@),
            r is Err <==> id >= old(self)@.records.len() || old(self)@.records[id as int].status
                != EscrowStatus::Active,
            r matches Err(e) ==> final(self)@ == old(self)@ && e == (if id >= old(
                self,
            )@.records.len() {
                FactoryError::NotFound
            } else {
                FactoryError::NotActive
            }),
            r matches Ok(e) ==> {
                let rec = old(self)@.records[id as int];
                &&& final(self)@ == with_record_status(old(self)@, id, EscrowStatus::Cancelled)
                &&& e == FactoryEffects {
                    auth: rec.payer,
                    transfer: Some(
                        Transfer {
                            token: rec.token,
                            from: old(self)@.address,
                            to: rec.payer,
                            amount: rec.amount,
                        },
                    ),
                    event: Some(
                        FactoryEvent::EscrowCancelled { id, payer: rec.payer, amount: rec.amount },
                    ),
                }
            },
    {
        let mut record = self.load_escrow(id)?;
        if record.status != EscrowStatus::Active {
            return Err(FactoryError::NotActive);
        }
        let effects = FactoryEffects {
            auth: record.payer,
            transfer: Some(
                Transfer {
                    token: record.token,
                    from: self.address,
                    to: record.payer,
                    amount: record.amount,
                },
            ),
            event: Some(
                FactoryEvent::EscrowCancelled { id, payer: record.payer, amount: record.amount },
            ),
        };
        record.status = EscrowStatus::Cancelled;
        self.save_escrow(record);
        Ok(effects)
    }

    /// Escrow `id`, or `NotFound`.
    pub fn get_escrow(&self, id: EscrowId) -> (r: Result<EscrowRecord, FactoryError>)
        requires
            self.wf(),
        ensures
            r is Err <==> id >= self@.records.len(),
            r matches Err(e) ==> e == FactoryError::NotFound,
            r matches Ok(rec) ==> rec == self@.records[id as int],
    {
        self.load_escrow(id)
    }

    /// The ids of the escrows of `payer`, in creation order.
    pub fn list_by_payer(&self, payer: Address) -> (r: Vec<EscrowId>)
        requires
            self.wf(),
        ensures
            r@ == ids_of_payer(self@.records, payer),
    {
        Self::index_of(&self.payer_index, payer)
    }

    /// The ids of the escrows of `freelancer`, in creation order.
    pub fn list_by_freelancer(&self, freelancer: Address) -> (r: Vec<EscrowId>)
        requires
            self.wf(),
        ensures
            r@ == ids_of_freelancer(self@.records, freelancer),
    {
        Self::index_of(&self.freelancer_index, freelancer)
    }
}

/// A completed or cancelled escrow stays so.
pub proof fn lemma_terminal_status_is_final(old: FactoryState, new: FactoryState, i: int)
    requires
        records_step(old, new),
        0 <= i < old.records.len(),
        old.records[i].status == EscrowStatus::Completed || old.records[i].status
            == EscrowStatus::Cancelled,
    ensures
        new.records[i].status == old.records[i].status,
{
    assert(status_step(old.records[i].status, new.records[i].status));
}

/// A new escrow is listed last for its payer and its freelancer, and no
/// other address's list changes.
pub proof fn lemma_new_escrow_listed(records: Seq<EscrowRecord>, rec: EscrowRecord, a: Address)
    ensures
        ids_of_payer(records.push(rec), a) == if rec.payer == a {
            ids_of_payer(records, a).push(rec.id)
        } else {
            ids_of_payer(records, a)
        },
        ids_of_freelancer(records.push(rec), a) == if rec.freelancer == a {
            ids_of_freelancer(records, a).push(rec.id)
        } else {
            ids_of_freelancer(records, a)
        },
{
    assert(records.push(rec).drop_last() =~= records);
}

} // verus!

//! The registry of coordinators: the workers that may commit uploads and
//! fillers for the miners.

use vstd::prelude::*;
use crate::duplicate::Duplicate;
use crate::ordered_map::{sorted, to_map, OrderedMap};
use crate::types::AccountId;

verus! {

/// Why the registry refused an operation.
#[derive(Clone, Copy, Debug, PartialEq, Eq, Structural)]
pub enum Error {
    /// The account is registered already.
    AlreadyRegistration,
    /// The sender is not the controller that the stash account is bound to.
    NotController,
    /// The stash account is bound to no controller.
    NotBond,
    /// The account is no registered worker.
    NonTeeWorker,
    /// The attestation of the worker was not accepted.
    VerifyCertFailed,
}

/// A notice that the registry gives of what it did.
#[derive(Clone, Copy, Debug, PartialEq, Eq, Structural)]
pub enum Event {
    /// A worker was registered under its controller account.
    RegistrationTeeWorker { acc: AccountId },
}

/// What the registry knows of a worker.
#[derive(Clone, Copy, Debug, PartialEq, Eq)]
pub struct TeeWorkerInfo {
    pub controller_account: AccountId,
    pub peer_id: [u8; 53],
    pub node_key: [u8; 32],
    pub stash_account: AccountId,
}

impl View for TeeWorkerInfo {
    type V = TeeWorkerInfo;

    open spec fn view(&self) -> TeeWorkerInfo {
        *self
    }
}

impl Duplicate for TeeWorkerInfo {
    fn duplicate(&self) -> (copy: Self) {
        *self
    }
}

/// What the ledger asks of a registry of coordinators.
pub trait ScheduleFind {
    /// The account is a registered coordinator.
    spec fn is_scheduler(&self, acc: AccountId) -> bool;

    /// The registry is in a state in which it can be asked.
    spec fn ready(&self) -> bool;

    /// Whether `acc` is a registered coordinator.
    fn contains_scheduler(&self, acc: AccountId) -> (found: bool)
        requires
            self.ready(),
        ensures
            found == self.is_scheduler(acc),
    ;

    /// The controller of the worker whose stash account is `acc`; `acc` itself
    /// where no worker has that stash account.
    fn get_controller_acc(&self, acc: AccountId) -> (controller: AccountId)
        requires
            self.ready(),
    ;

    /// The stash account that is to be punished for the coordinator `acc`.
    fn punish_scheduler(&self, acc: AccountId) -> (r: Result<AccountId, Error>)
        requires
            self.ready(),
        ensures
            r is Err <==> !self.is_scheduler(acc),
    ;

    /// The first coordinator in the order of the accounts.
    fn get_first_controller(&self) -> (r: Result<AccountId, Error>)
        requires
            self.ready(),
        ensures
            r matches Ok(acc) ==> self.is_scheduler(acc),
    ;

    /// The coordinators in the order of their accounts.
    fn get_controller_list(&self) -> (list: Vec<AccountId>)
        requires
            self.ready(),
        ensures
            forall|acc: AccountId| list@.contains(acc) <==> self.is_scheduler(acc),
    ;
}

/// The controller of the first worker of `workers` whose stash account is
/// `acc`, and `acc` where there is none.
pub open spec fn controller_of(
    workers: Seq<(AccountId, TeeWorkerInfo)>,
    acc: AccountId,
) -> AccountId
    decreases workers.len(),
{
    if workers.len() == 0 {
        acc
    } else if workers[0].1.stash_account == acc {
        workers[0].0
    } else {
        controller_of(workers.drop_first(), acc)
    }
}

/// The registry of workers.
#[derive(Debug, PartialEq, Eq)]
pub struct Pallet {
    tee_worker_map: OrderedMap<AccountId, TeeWorkerInfo>,
    tee_podr2_pk: Option<[u8; 294]>,
    mr_enclave_whitelist: Vec<[u8; 64]>,
    max_whitelist: u32,
}

/// The registry as mathematics.
pub struct PalletView {
    /// The workers by controller account, in the order of the accounts.
    pub workers: Seq<(AccountId, TeeWorkerInfo)>,
    /// The proving key that the first worker brought.
    pub podr2_pk: Option<[u8; 294]>,
    /// The enclave measurements that are accepted.
    pub whitelist: Seq<[u8; 64]>,
    /// The most measurements that the list takes.
    pub max_whitelist: u32,
}

impl PalletView {
    /// The workers as a map from controller account.
    pub open spec fn worker_map(self) -> Map<AccountId, TeeWorkerInfo> {
        to_map(self.workers)
    }

    /// The workers are in the order of their accounts and the list of
    /// measurements is within its limit.
    pub open spec fn wf(self) -> bool {
        &&& sorted::<AccountId, TeeWorkerInfo>(self.workers)
        &&& self.whitelist.len() <= self.max_whitelist
    }

    /// What a registration of `sender` for `stash_account` comes to, where
    /// `bonded` is the controller that the stash account is bound to and
    /// `attested` says whether the attestation of the worker was accepted.
    pub open spec fn registration_error(
        self,
        sender: AccountId,
        bonded: Option<AccountId>,
        attested: bool,
    ) -> Option<Error> {
        if bonded is None {
            Some(Error::NotBond)
        } else if bonded != Some(sender) {
            Some(Error::NotController)
        } else if self.worker_map().contains_key(sender) {
            Some(Error::AlreadyRegistration)
        } else if !attested {
            Some(Error::VerifyCertFailed)
        } else {
            None
        }
    }
}

impl Pallet {
    /// The registry as mathematics.
    pub closed spec fn view(&self) -> PalletView {
        PalletView {
            workers: self.tee_worker_map@,
            podr2_pk: self.tee_podr2_pk,
            whitelist: self.mr_enclave_whitelist@,
            max_whitelist: self.max_whitelist,
        }
    }

    /// The invariant of the registry: see [`PalletView::wf`].
    pub open spec fn wf(&self) -> bool {
        self@.wf()
    }

    /// An empty registry whose list of measurements takes `max_whitelist`
    /// entries.
    pub fn new(max_whitelist: u32) -> (pallet: Self)
        ensures
            pallet.wf(),
            pallet@.workers.len() == 0,
            pallet@.podr2_pk is None,
            pallet@.whitelist.len() == 0,
            pallet@.max_whitelist == max_whitelist,
    {
        Pallet {
            tee_worker_map: OrderedMap::new(),
            tee_podr2_pk: None,
            mr_enclave_whitelist: Vec::new(),
            max_whitelist,
        }
    }

    /// The worker that is registered under `acc`, if there is one.
    pub fn tee_worker_map(&self, acc: AccountId) -> (r: Option<TeeWorkerInfo>)
        requires
            self.wf(),
        ensures
            match r {
                Some(info) => self@.worker_map().contains_key(acc) && self@.worker_map()[acc]
                    == info,
                None => !self@.worker_map().contains_key(acc),
            },
    {
        match self.tee_worker_map.get(&acc) {
            Some(info) => Some(*info),
            None => None,
        }
    }

    /// The proving key that the first worker brought.
    pub fn tee_podr2_pk(&self) -> (r: Option<[u8; 294]>)
        ensures
            r == self@.podr2_pk,
    {
        self.tee_podr2_pk
    }

    /// The enclave measurements that are accepted.
    pub fn mr_enclave_whitelist(&self) -> (r: &Vec<[u8; 64]>)
        ensures
            r@ == self@.whitelist,
    {
        &self.mr_enclave_whitelist
    }

    /// Whether the attestation of a worker is to be examined for a
    /// registration of `sender`, where `bonded` is the controller that the
    /// staking accounts bind the stash account to: it is, unless the
    /// registration fails whatever the attestation says.
    pub fn wants_attestation(&self, sender: AccountId, bonded: Option<AccountId>) -> (wanted: bool)
        requires
            self.wf(),
        ensures
            wanted == (self@.registration_error(sender, bonded, true) is None),
            !wanted ==> self@.registration_error(sender, bonded, false)
                == self@.registration_error(sender, bonded, true),
    {
        match bonded {
            Some(acc) => acc == sender && !self.tee_worker_map.contains_key(&sender),
            None => false,
        }
    }

    /// Registers `sender` as the worker of `stash_account`.
    ///
    /// `bonded` is the controller that the staking accounts bind the stash
    /// account to, and `attested` the verdict on the attestation report of the
    /// worker. Fails with `NotBond` where the stash account is bound to nobody,
    /// `NotController` where it is bound to another account than `sender`,
    /// `AlreadyRegistration` where `sender` is registered, `VerifyCertFailed`
    /// where the attestation was not accepted. The first worker of all brings
    /// the proving key of the network.
    pub fn regist_scheduler(
        &mut self,
        sender: AccountId,
        stash_account: AccountId,
        node_key: [u8; 32],
        peer_id: [u8; 53],
        podr2_pbk: [u8; 294],
        bonded: Option<AccountId>,
        attested: bool,
    ) -> (r: Result<Event, Error>)
        requires
            old(self).wf(),
        ensures
            final(self).wf(),
            match r {
                Ok(event) => {
                    &&& old(self)@.registration_error(sender, bonded, attested) is None
                    &&& event == Event::RegistrationTeeWorker { acc: sender }
                    &&& final(self)@.worker_map() == old(self)@.worker_map().insert(
                        sender,
                        TeeWorkerInfo {
                            controller_account: sender,
                            peer_id,
                            node_key,
                            stash_account,
                        },
                    )
                    &&& final(self)@.podr2_pk == if old(self)@.workers.len() == 0 {
                        Some(podr2_pbk)
                    } else {
                        old(self)@.podr2_pk
                    }
                    &&& final(self)@.whitelist == old(self)@.whitelist
                    &&& final(self)@.max_whitelist == old(self)@.max_whitelist
                },
                Err(e) => old(self)@.registration_error(sender, bonded, attested) == Some(e)
                    && final(self)@ == old(self)@,
            },
    {
        let acc = match bonded {
            Some(acc) => acc,
            None => {
                return Err(Error::NotBond);
            },
        };
        if sender != acc {
            return Err(Error::NotController);
        }
        if self.tee_worker_map.contains_key(&sender) {
            return Err(Error::AlreadyRegistration);
        }
        if !attested {
            return Err(Error::VerifyCertFailed);
        }
        let info = TeeWorkerInfo { controller_account: sender, peer_id, node_key, stash_account };
        if self.tee_worker_map.len() == 0 {
            self.tee_podr2_pk = Some(podr2_pbk);
        }
        self.tee_worker_map.insert(sender, info);
        Ok(Event::RegistrationTeeWorker { acc: sender })
    }

    /// Passes on the verdict on a test signature: fails with
    /// `VerifyCertFailed` where the signature was not `verified`.
    pub fn test_verify_sig(verified: bool) -> (r: Result<(), Error>)
        ensures
            r == if verified {
                Ok::<(), Error>(())
            } else {
                Err::<(), Error>(Error::VerifyCertFailed)
            },
    {
        if verified {
            Ok(())
        } else {
            Err(Error::VerifyCertFailed)
        }
    }

    /// Adds an enclave measurement to the accepted ones. The list must have
    /// room for it.
    pub fn update_whitelist(&mut self, mr_enclave: [u8; 64])
        requires
            old(self).wf(),
            old(self)@.whitelist.len() < old(self)@.max_whitelist,
        ensures
            final(self).wf(),
            final(self)@.whitelist == old(self)@.whitelist.push(mr_enclave),
            final(self)@.workers == old(self)@.workers,
            final(self)@.podr2_pk == old(self)@.podr2_pk,
            final(self)@.max_whitelist == old(self)@.max_whitelist,
    {
        self.mr_enclave_whitelist.push(mr_enclave);
    }

    /// Whether the list of measurements has room for one more.
    pub fn whitelist_has_room(&self) -> (room: bool)
        ensures
            room == (self@.whitelist.len() < self@.max_whitelist),
    {
        self.mr_enclave_whitelist.len() < self.max_whitelist as usize
    }
}

impl ScheduleFind for Pallet {
    open spec fn is_scheduler(&self, acc: AccountId) -> bool {
        self@.worker_map().contains_key(acc)
    }

    open spec fn ready(&self) -> bool {
        self.wf()
    }

    fn contains_scheduler(&self, acc: AccountId) -> (found: bool) {
        self.tee_worker_map.contains_key(&acc)
    }

    fn get_controller_acc(&self, acc: AccountId) -> (controller: AccountId)
        ensures
            controller == controller_of(self@.workers, acc),
    {
        let ghost all = self@.workers;
        let mut i: usize = 0;
        assert(all.skip(0) =~= all);
        while i < self.tee_worker_map.len()
            invariant
                all == self@.workers,
                i <= all.len(),
                controller_of(all, acc) == controller_of(all.skip(i as int), acc),
            decreases self.tee_worker_map@.len() - i,
        {
            proof {
                assert(all.skip(i as int).drop_first() =~= all.skip(i + 1));
            }
            if self.tee_worker_map.value_at(i).stash_account == acc {
                return *self.tee_worker_map.key_at(i);
            }
            i = i + 1;
        }
        acc
    }

    fn punish_scheduler(&self, acc: AccountId) -> (r: Result<AccountId, Error>)
        ensures
            match r {
                Ok(stash) => self@.worker_map().contains_key(acc) && stash
                    == self@.worker_map()[acc].stash_account,
                Err(e) => e == Error::NonTeeWorker && !self@.worker_map().contains_key(acc),
            },
    {
        match self.tee_worker_map.get(&acc) {
            Some(info) => Ok(info.stash_account),
            None => Err(Error::NonTeeWorker),
        }
    }

    fn get_first_controller(&self) -> (r: Result<AccountId, Error>)
        ensures
            match r {
                Ok(acc) => self@.workers.len() > 0 && acc == self@.workers[0].0,
                Err(e) => e == Error::NonTeeWorker && self@.workers.len() == 0,
            },
    {
        if self.tee_worker_map.len() == 0 {
            return Err(Error::NonTeeWorker);
        }
        Ok(*self.tee_worker_map.key_at(0))
    }

    fn get_controller_list(&self) -> (list: Vec<AccountId>)
        ensures
            list@.len() == self@.workers.len(),
            forall|i: int| 0 <= i < list@.len() ==> list@[i] == self@.workers[i].0,
    {
        let mut list: Vec<AccountId> = Vec::new();
        let mut i: usize = 0;
        while i < self.tee_worker_map.len()
            invariant
                self.wf(),
                i <= self@.workers.len(),
                list@.len() == i,
                forall|j: int| 0 <= j < i ==> list@[j] == self@.workers[j].0,
            decreases self.tee_worker_map@.len() - i,
        {
            list.push(*self.tee_worker_map.key_at(i));
            i = i + 1;
        }
        proof {
            let workers = self@.workers;
            assert forall|acc: AccountId| list@.contains(acc) <==> self.is_scheduler(acc) by {
                if self.is_scheduler(acc) {
                    let j = crate::ordered_map::index_of(workers, acc);
                    assert(list@[j] == acc);
                }
            }
        }
        list
    }
}

} // verus!

//! What each miner still has to purge from its disks, and the accounts that
//! may submit for the ledger's workers.

use vstd::prelude::*;
use crate::duplicate::Duplicate;
use crate::file_bank::{lemma_filter_keeps, Pallet, PalletView};
use crate::list::{lemma_without_contains, without, List};
use crate::types::{effects_view, AccountId, Effect, EffectView, Error, Event, EventView};

verus! {

/// To drop an entry twice leaves what dropping it once leaves.
pub proof fn lemma_without_idempotent(s: Seq<Seq<u8>>, x: Seq<u8>)
    ensures
        without(without(s, x), x) == without(s, x),
{
    lemma_without_contains(without(s, x), x);
}

impl Pallet {
    /// What `miner` still has to purge, oldest first.
    pub fn invalid_file(&self, miner: AccountId) -> (r: List<Vec<u8>>)
        requires
            self.wf(),
        ensures
            r@ == self@.outbox_of(miner),
    {
        match self.invalid_file.get(&miner) {
            Some(list) => list.duplicate(),
            None => List::new(),
        }
    }

    /// The number of entries that `miner` still has to purge.
    pub(crate) fn outbox_len(&self, miner: AccountId) -> (n: usize)
        requires
            self.wf(),
        ensures
            n == self@.outbox_of(miner).len(),
    {
        match self.invalid_file.get(&miner) {
            Some(list) => list.len(),
            None => 0,
        }
    }

    /// Appends an entry that the ledger can store to what `miner` has to
    /// purge, where the list has room.
    pub(crate) fn push_outbox(&mut self, miner: AccountId, file_hash: Vec<u8>)
        requires
            old(self).wf(),
            file_hash@.len() <= old(self)@.config.string_limit,
            old(self)@.outbox_of(miner).len() < old(self)@.config.string_limit,
        ensures
            final(self).wf(),
            final(self)@ == old(self)@.with_outbox(
                miner,
                old(self)@.outbox_of(miner).push(file_hash@),
            ),
    {
        let mut list = match self.invalid_file.remove(&miner) {
            Some(list) => list,
            None => List::new(),
        };
        list.push(file_hash);
        self.invalid_file.insert(miner, list);
        assert(self@ =~= old(self)@.with_outbox(miner, list@));
    }

    /// Tells `miner_acc` to purge `file_hash`. Fails with `BoundedVecError`
    /// where the hash is longer than the ledger stores, and with
    /// `StorageLimitReached` where the list of the miner is full.
    pub fn add_invalid_file(&mut self, miner_acc: AccountId, file_hash: Vec<u8>) -> (r: Result<
        (),
        Error,
    >)
        requires
            old(self).wf(),
        ensures
            final(self).wf(),
            match r {
                Ok(()) => {
                    &&& file_hash@.len() <= old(self)@.config.string_limit
                    &&& old(self)@.outbox_of(miner_acc).len() < old(self)@.config.string_limit
                    &&& final(self)@ == old(self)@.with_outbox(
                        miner_acc,
                        old(self)@.outbox_of(miner_acc).push(file_hash@),
                    )
                },
                Err(e) => {
                    &&& final(self).tables() == old(self).tables()
                    &&& e == if file_hash@.len() > old(self)@.config.string_limit {
                        Error::BoundedVecError
                    } else {
                        Error::StorageLimitReached
                    }
                    &&& file_hash@.len() > old(self)@.config.string_limit || old(self)@.outbox_of(
                        miner_acc,
                    ).len() >= old(self)@.config.string_limit
                },
            },
    {
        let limit = self.config.string_limit as usize;
        if file_hash.len() > limit {
            return Err(Error::BoundedVecError);
        }
        if self.outbox_len(miner_acc) >= limit {
            return Err(Error::StorageLimitReached);
        }
        self.push_outbox(miner_acc, file_hash);
        Ok(())
    }

    /// Records that the miner `sender` has purged `file_hash`: every entry of
    /// its list with that hash goes, and the others stay in their order. A hash
    /// that is not in the list changes nothing.
    pub fn clear_invalid_file(&mut self, sender: AccountId, file_hash: Vec<u8>) -> (effects: Vec<
        Effect,
    >)
        requires
            old(self).wf(),
        ensures
            final(self).wf(),
            final(self)@ == if old(self)@.outbox.contains_key(sender) {
                old(self)@.with_outbox(sender, without(old(self)@.outbox_of(sender), file_hash@))
            } else {
                old(self)@
            },
            final(self)@.outbox_of(sender) == without(old(self)@.outbox_of(sender), file_hash@),
            effects_view(effects@) == seq![
                EffectView::Deposit(
                    EventView::ClearInvalidFile { acc: sender, file_hash: file_hash@ },
                ),
            ],
    {
        if let Some(list) = self.invalid_file.remove(&sender) {
            let mut list = list;
            list.retain_ne(&file_hash);
            self.invalid_file.insert(sender, list);
            proof {
                let limit = self.config.string_limit;
                lemma_filter_keeps(
                    old(self)@.outbox_of(sender),
                    |y: Seq<u8>| y != file_hash@,
                    |y: Seq<u8>| y.len() <= limit,
                );
                assert(self@ =~= old(self)@.with_outbox(sender, list@));
            }
        }
        let mut effects: Vec<Effect> = Vec::new();
        effects.push(Effect::Deposit(Event::ClearInvalidFile { acc: sender, file_hash }));
        effects
    }

    /// The accounts that may submit for the ledger's workers.
    pub fn members(&self) -> (r: List<AccountId>)
        ensures
            r@ == self@.members,
    {
        self.members.duplicate()
    }

    /// Whether `acc` may submit for the ledger's workers.
    pub fn contains_member(&self, acc: AccountId) -> (found: bool)
        ensures
            found == self@.members.contains(acc),
    {
        self.members.contains(&acc)
    }

    /// Lets `acc` submit for the ledger's workers. Fails with `AlreadyExists`
    /// where it may already, and with `StorageLimitReached` where the list of
    /// members is full.
    pub fn add_member(&mut self, acc: AccountId) -> (r: Result<(), Error>)
        requires
            old(self).wf(),
        ensures
            final(self).wf(),
            match r {
                Ok(()) => {
                    &&& !old(self)@.members.contains(acc)
                    &&& old(self)@.members.len() < old(self)@.config.string_limit
                    &&& final(self)@ == (PalletView {
                        members: old(self)@.members.push(acc),
                        ..old(self)@
                    })
                },
                Err(e) => {
                    &&& final(self).tables() == old(self).tables()
                    &&& if old(self)@.members.contains(acc) {
                        e == Error::AlreadyExists
                    } else {
                        e == Error::StorageLimitReached && old(self)@.members.len()
                            >= old(self)@.config.string_limit
                    }
                },
            },
    {
        if self.members.contains(&acc) {
            return Err(Error::AlreadyExists);
        }
        if self.members.len() >= self.config.string_limit as usize {
            return Err(Error::StorageLimitReached);
        }
        self.members.push(acc);
        Ok(())
    }

    /// Takes from `acc` the right to submit for the ledger's workers. An
    /// account that is no member changes nothing.
    pub fn del_member(&mut self, acc: AccountId)
        requires
            old(self).wf(),
        ensures
            final(self).wf(),
            final(self)@ == (PalletView {
                members: without(old(self)@.members, acc),
                ..old(self)@
            }),
    {
        self.members.retain_ne(&acc);
    }
}

} // verus!

//! The daily sweep over the leases: a lease past its deadline is frozen, and a
//! lease past its days of grace expires with all that its account holds.

use vstd::prelude::*;
use crate::bytes::copy_bytes;
use crate::duplicate::Duplicate;
use crate::file_bank::registry::{held_without, release_effects};
use crate::file_bank::{lemma_filter_keeps, Pallet, PalletView};
use crate::quota::grace_days;
use crate::types::{
    AccountId, BlockNumber, Effect, Event, LeaseState, PackageDetails, UserFileSliceInfoView,
};

verus! {

/// The notice that the lease of `acc`, of `size` bytes, has expired.
pub open spec fn expiry_notice(acc: AccountId, size: u128) -> Effect {
    Effect::Deposit(Event::LeaseExpired { acc, size })
}

/// The lease `lease`, frozen.
pub open spec fn frozen(lease: PackageDetails) -> PackageDetails {
    PackageDetails { state: LeaseState::Frozen, ..lease }
}

/// The accounts of `leases`, in their order.
pub open spec fn accounts_of(leases: Seq<(AccountId, PackageDetails)>) -> Seq<AccountId> {
    leases.map_values(|e: (AccountId, PackageDetails)| e.0)
}

/// An index without the entries of its first file is shorter.
pub proof fn lemma_held_without_shorter(
    held: Seq<UserFileSliceInfoView>,
    hash: Seq<u8>,
    at: int,
)
    requires
        0 <= at < held.len(),
        held[at].file_hash == hash,
    ensures
        held_without(held, hash).len() < held.len(),
    decreases held.len(),
{
    reveal(Seq::filter);
    let keep = |e: UserFileSliceInfoView| e.file_hash != hash;
    let rest = held.drop_last();
    if at == held.len() - 1 {
        lemma_filter_keeps(rest, keep, |e: UserFileSliceInfoView| true);
    } else {
        lemma_held_without_shorter(rest, hash, at);
    }
}

impl PalletView {
    /// The ledger after `acc` let go of the first file of its index, with what
    /// the capacity accounts are to take for it. Where `acc` can leave the
    /// owners of the file, it does. Where it cannot, because the ledger does
    /// not know the file, `acc` does not own it, or the file has no other
    /// owner and the list of what its miner has to purge is full, the file is
    /// passed over: it stays as it is. Either way the index loses the file.
    pub open spec fn first_released(self, acc: AccountId) -> (PalletView, Seq<Effect>) {
        let hash = self.held_by(acc)[0].file_hash;
        if self.leave_error(acc, hash) is None {
            (self.after_leave(acc, hash), release_effects(self.files[hash]))
        } else {
            (self.with_held(acc, held_without(self.held_by(acc), hash)), Seq::empty())
        }
    }

    /// The ledger after `acc` let go of the files of its index, one after the
    /// other from the first as [`PalletView::first_released`] says, in at most
    /// `steps` steps, with what the capacity accounts are to take for them.
    pub open spec fn released(self, acc: AccountId, steps: nat) -> (PalletView, Seq<Effect>)
        decreases steps,
    {
        if steps == 0 || self.held_by(acc).len() == 0 {
            (self, Seq::empty())
        } else {
            let (next, effects) = self.first_released(acc);
            let (last, more) = next.released(acc, (steps - 1) as nat);
            (last, effects + more)
        }
    }

    /// What the sweep at `now` does for the lease of `acc`, and what is to be
    /// done for it. A lease whose deadline lies after `now` stays. A lease
    /// within its days of grace is frozen. A lease past them expires: the
    /// account lets go of the files of its index, the lease goes, and a notice
    /// of the expiry is given.
    pub open spec fn lease_swept(self, acc: AccountId, now: BlockNumber) -> (
        PalletView,
        Seq<Effect>,
    ) {
        if !self.packages.contains_key(acc) {
            (self, Seq::empty())
        } else {
            let lease = self.packages[acc];
            if lease.deadline > now {
                (self, Seq::empty())
            } else if lease.expiry(self.config.one_day) > now {
                (self.with_lease(acc, frozen(lease)), Seq::empty())
            } else {
                let (v, effects) = self.released(acc, self.held_by(acc).len());
                (v.without_lease(acc), effects.push(expiry_notice(acc, lease.space)))
            }
        }
    }

    /// What the sweep at `now` does for the leases of `accounts`, one after
    /// the other, and what is to be done for them, in that order.
    pub open spec fn swept(self, accounts: Seq<AccountId>, now: BlockNumber) -> (
        PalletView,
        Seq<Effect>,
    )
        decreases accounts.len(),
    {
        if accounts.len() == 0 {
            (self, Seq::empty())
        } else {
            let (v, effects) = self.lease_swept(accounts[0], now);
            let (w, more) = v.swept(accounts.drop_first(), now);
            (w, effects + more)
        }
    }
}

impl Pallet {
    /// A copy of the ledger.
    pub fn duplicate(&self) -> (copy: Self)
        ensures
            copy.tables() == self.tables(),
    {
        Pallet {
            config: self.config,
            file: self.file.duplicate(),
            user_hold_file_list: self.user_hold_file_list.duplicate(),
            filler_map: self.filler_map.duplicate(),
            invalid_file: self.invalid_file.duplicate(),
            members: self.members.duplicate(),
            purchased_package: self.purchased_package.duplicate(),
            unit_price: self.unit_price,
        }
    }

    /// The hash of the first file in the index of `acc`, if the index holds
    /// any.
    fn first_held(&self, acc: AccountId) -> (r: Option<Vec<u8>>)
        requires
            self.wf(),
        ensures
            match r {
                Some(hash) => self@.held_by(acc).len() > 0 && hash@ == self@.held_by(
                    acc,
                )[0].file_hash,
                None => self@.held_by(acc).len() == 0,
            },
    {
        match self.user_hold_file_list.get(&acc) {
            Some(list) => {
                if list.len() > 0 {
                    Some(copy_bytes(&list.get(0).file_hash))
                } else {
                    None
                }
            },
            None => None,
        }
    }

    /// Lets `acc` go of every file of its index, the first one first, as
    /// [`PalletView::released`] says: a file that `acc` cannot leave is passed
    /// over, so that the index is empty in the end. The effects say what the
    /// capacity accounts are to take for the files that `acc` left.
    pub fn clear_expired_file(&mut self, acc: AccountId) -> (effects: Vec<Effect>)
        requires
            old(self).wf(),
        ensures
            final(self).wf(),
            (final(self)@, effects@) == old(self)@.released(acc, old(self)@.held_by(acc).len()),
            final(self)@.held_by(acc).len() == 0,
    {
        let mut effects: Vec<Effect> = Vec::new();
        let ghost start = self@;
        let ghost steps = start.held_by(acc).len();
        loop
            invariant
                self.wf(),
                start == old(self)@,
                steps == start.held_by(acc).len(),
                self@.held_by(acc).len() <= steps,
                start.released(acc, steps) == (
                    self@.released(acc, self@.held_by(acc).len()).0,
                    effects@ + self@.released(acc, self@.held_by(acc).len()).1,
                ),
            decreases self@.held_by(acc).len(),
        {
            let hash = match self.first_held(acc) {
                Some(hash) => hash,
                None => {
                    return effects;
                },
            };
            let ghost current = self@;
            match self.release_file(&hash, acc) {
                Ok(more) => {
                    let mut more = more;
                    effects.append(&mut more);
                },
                Err(_) => {
                    self.drop_held(acc, &hash);
                },
            }
            proof {
                lemma_first_released_shortens(current, acc);
                lemma_released_more(
                    self@,
                    acc,
                    self@.held_by(acc).len(),
                    (current.held_by(acc).len() - 1) as nat,
                );
            }
        }
    }

    /// What the sweep at `now` does for the lease of `acc`: see
    /// [`PalletView::lease_swept`]. What is to be done is appended to
    /// `effects`.
    fn sweep_lease(&mut self, acc: AccountId, now: BlockNumber, effects: &mut Vec<Effect>)
        requires
            old(self).wf(),
        ensures
            final(self).wf(),
            final(self)@ == old(self)@.lease_swept(acc, now).0,
            final(effects)@ == old(effects)@ + old(self)@.lease_swept(acc, now).1,
    {
        let lease = match self.purchased_package.get(&acc) {
            Some(lease) => *lease,
            None => {
                return ;
            },
        };
        if lease.deadline > now {
            return ;
        }
        let days = grace_days(lease.package_type) as u64;
        let day = self.config.one_day as u64;
        assert(days * day <= 30 * 0xFFFF_FFFF) by (nonlinear_arith)
            requires
                days <= 30,
                day <= 0xFFFF_FFFF,
        ;
        let expiry: u64 = lease.deadline as u64 + days * day;
        if expiry > now as u64 {
            let chilled = PackageDetails {
                space: lease.space,
                used_space: lease.used_space,
                remaining_space: lease.remaining_space,
                tenancy: lease.tenancy,
                package_type: lease.package_type,
                start: lease.start,
                deadline: lease.deadline,
                state: LeaseState::Frozen,
            };
            self.purchased_package.insert(acc, chilled);
            return ;
        }
        let mut freed = self.clear_expired_file(acc);
        effects.append(&mut freed);
        self.purchased_package.remove(&acc);
        effects.push(Effect::Deposit(Event::LeaseExpired { acc, size: lease.space }));
    }

    /// Looks over the leases. At a tick that is no multiple of the day nothing
    /// happens. Else the leases are taken in the order of their accounts, each
    /// as [`PalletView::lease_swept`] says, and the effects say in that order
    /// what the capacity accounts are to take and which leases expired.
    ///
    /// The sweep does not fail, and it reads every lease: its cost grows with
    /// the ledger.
    pub fn on_initialize(&mut self, now: BlockNumber) -> (effects: Vec<Effect>)
        requires
            old(self).wf(),
        ensures
            final(self).wf(),
            if now % old(self)@.config.one_day != 0 {
                final(self).tables() == old(self).tables() && effects@.len() == 0
            } else {
                (final(self)@, effects@) == old(self)@.swept(
                    accounts_of(old(self).tables().purchased_package),
                    now,
                )
            },
    {
        let mut effects: Vec<Effect> = Vec::new();
        if now % self.config.one_day != 0 {
            return effects;
        }
        let ghost accounts = accounts_of(self.tables().purchased_package);
        let mut due: Vec<AccountId> = Vec::new();
        let mut i: usize = 0;
        while i < self.purchased_package.len()
            invariant
                i <= self.purchased_package@.len(),
                accounts == accounts_of(self.purchased_package@),
                due@ == accounts.take(i as int),
            decreases self.purchased_package@.len() - i,
        {
            due.push(*self.purchased_package.key_at(i));
            i = i + 1;
        }
        assert(accounts.take(accounts.len() as int) =~= accounts);
        let mut k: usize = 0;
        while k < due.len()
            invariant
                k <= due@.len(),
                self.wf(),
                now % old(self)@.config.one_day == 0,
                due@ == accounts,
                accounts == accounts_of(old(self).tables().purchased_package),
                old(self)@.swept(accounts, now) == (
                    self@.swept(due@.skip(k as int), now).0,
                    effects@ + self@.swept(due@.skip(k as int), now).1,
                ),
            decreases due@.len() - k,
        {
            proof {
                assert(due@.skip(k as int).drop_first() =~= due@.skip(k + 1));
            }
            self.sweep_lease(due[k], now, &mut effects);
            k = k + 1;
        }
        effects
    }
}

/// An index of `n` files is released in `n` steps, and more are not used.
pub proof fn lemma_released_more(v: PalletView, acc: AccountId, n: nat, steps: nat)
    requires
        v.held_by(acc).len() <= n,
        n <= steps,
    ensures
        v.released(acc, steps) == v.released(acc, n),
    decreases n,
{
    if n > 0 && v.held_by(acc).len() > 0 {
        lemma_first_released_shortens(v, acc);
        lemma_released_more(v.first_released(acc).0, acc, (n - 1) as nat, (steps - 1) as nat);
    }
}

/// Where `acc` lets go of the first file of its index, the index loses the
/// entries of that file and gets shorter; the index of every other account,
/// the leases and the parameters of the ledger stay as they are.
pub proof fn lemma_first_released_shortens(v: PalletView, acc: AccountId)
    requires
        v.held_by(acc).len() > 0,
    ensures
        v.first_released(acc).0.held_by(acc) == held_without(
            v.held_by(acc),
            v.held_by(acc)[0].file_hash,
        ),
        v.first_released(acc).0.held_by(acc).len() < v.held_by(acc).len(),
        v.first_released(acc).0.config == v.config,
        v.first_released(acc).0.packages == v.packages,
        forall|other: AccountId|
            other != acc ==> #[trigger] v.first_released(acc).0.held_by(other) == v.held_by(
                other,
            ),
{
    lemma_held_without_shorter(v.held_by(acc), v.held_by(acc)[0].file_hash, 0);
}

} // verus!

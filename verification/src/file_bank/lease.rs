//! Buying a lease and moving its used space.

use vstd::prelude::*;
use crate::file_bank::{lemma_with_lease_wf, Pallet, PalletView};
use crate::quota::{
    cost_of, get_price, lease_blocks, lease_ticks, package_cost, package_terms, quote_of,
    terms_of,
};
use crate::types::{AccountId, BlockNumber, Effect, Error, LeaseState, PackageDetails};

verus! {

/// The lease that a purchase at `now` creates.
pub open spec fn lease_of(space: u128, months: u32, package_type: u8, now: BlockNumber) -> Result<
    PackageDetails,
    Error,
> {
    if !(1 <= package_type <= 5) {
        Err(Error::InvalidTier)
    } else if now + lease_ticks(months) > u32::MAX {
        Err(Error::Overflow)
    } else {
        Ok(PackageDetails::fresh(space, months, package_type, now))
    }
}

/// The lease and the amount to pay for package `package_type` bought with
/// `count` at `now`, while the network has `total_space` bytes: the unit price
/// is quoted for the space of the package.
pub open spec fn purchase_of(
    package_type: u8,
    count: u128,
    now: BlockNumber,
    total_space: u128,
) -> Result<(PackageDetails, u128), Error> {
    match terms_of(package_type, count) {
        Err(e) => Err(e),
        Ok(terms) => match quote_of(terms.space, total_space) {
            Err(e) => Err(e),
            Ok(unit) => match lease_of(terms.space, terms.months, package_type, now) {
                Err(e) => Err(e),
                Ok(lease) => if cost_of(terms.space, unit) > u128::MAX {
                    Err(Error::Overflow)
                } else {
                    Ok((lease, cost_of(terms.space, unit) as u128))
                },
            },
        },
    }
}

impl PalletView {
    /// The lease of `acc` after `size` bytes were added to what it uses.
    pub open spec fn credit_outcome(self, acc: AccountId, size: u128) -> Result<
        PackageDetails,
        Error,
    > {
        if !self.packages.contains_key(acc) {
            Err(Error::NotPurchased)
        } else {
            self.packages[acc].credited(size)
        }
    }

    /// The lease of `acc` after `size` bytes were taken from what it uses.
    pub open spec fn debit_outcome(self, acc: AccountId, size: u128) -> Result<
        PackageDetails,
        Error,
    > {
        if !self.packages.contains_key(acc) {
            Err(Error::NotPurchased)
        } else {
            self.packages[acc].debited(size)
        }
    }
}

impl Pallet {
    /// The lease of `acc`, if it holds one.
    pub fn purchase_package(&self, acc: AccountId) -> (r: Option<PackageDetails>)
        requires
            self.wf(),
        ensures
            match r {
                Some(p) => self@.packages.contains_key(acc) && self@.packages[acc] == p,
                None => !self@.packages.contains_key(acc),
            },
    {
        match self.purchased_package.get(&acc) {
            Some(p) => Some(*p),
            None => None,
        }
    }

    /// Books `size` bytes of a new file on the lease of `acc`. Fails with
    /// `NotPurchased` where the account has no lease, `Frozen` where the lease
    /// is frozen, `InsufficientStorage` where less than `size` bytes remain.
    pub fn credit_usage(&mut self, acc: AccountId, size: u128) -> (r: Result<(), Error>)
        requires
            old(self).wf(),
        ensures
            final(self).wf(),
            match r {
                Ok(()) => {
                    &&& old(self)@.credit_outcome(acc, size) matches Ok(p)
                    &&& final(self)@ == old(self)@.with_lease(acc, p)
                },
                Err(e) => old(self)@.credit_outcome(acc, size) == Err::<PackageDetails, Error>(e)
                    && final(self).tables() == old(self).tables(),
            },
    {
        let lease = match self.purchased_package.get(&acc) {
            Some(p) => *p,
            None => {
                return Err(Error::NotPurchased);
            },
        };
        match lease.credit(size) {
            Ok(next) => {
                self.purchased_package.insert(acc, next);
                proof {
                    lemma_with_lease_wf(old(self)@, acc, next);
                }
                Ok(())
            },
            Err(e) => Err(e),
        }
    }

    /// Takes `size` bytes of a deleted file from the lease of `acc`. Fails with
    /// `NotPurchased` where the account has no lease, and with `Overflow` where
    /// the lease uses less than `size` bytes.
    pub fn debit_usage(&mut self, acc: AccountId, size: u128) -> (r: Result<(), Error>)
        requires
            old(self).wf(),
        ensures
            final(self).wf(),
            match r {
                Ok(()) => {
                    &&& old(self)@.debit_outcome(acc, size) matches Ok(p)
                    &&& final(self)@ == old(self)@.with_lease(acc, p)
                },
                Err(e) => old(self)@.debit_outcome(acc, size) == Err::<PackageDetails, Error>(e)
                    && final(self).tables() == old(self).tables(),
            },
    {
        let lease = match self.purchased_package.get(&acc) {
            Some(p) => *p,
            None => {
                return Err(Error::NotPurchased);
            },
        };
        match lease.debit(size) {
            Ok(next) => {
                self.purchased_package.insert(acc, next);
                proof {
                    lemma_with_lease_wf(old(self)@, acc, next);
                }
                Ok(())
            },
            Err(e) => Err(e),
        }
    }

    /// Gives `acc` a new lease of `space` bytes for `months` months from `now`,
    /// where it has none. Fails with `AlreadyPurchased` where it has one, with
    /// `InvalidTier` where `package_type` is not one of 1 to 5, and with
    /// `Overflow` where the deadline lies beyond the clock.
    pub fn add_purchased_package(
        &mut self,
        acc: AccountId,
        space: u128,
        months: u32,
        package_type: u8,
        now: BlockNumber,
    ) -> (r: Result<(), Error>)
        requires
            old(self).wf(),
        ensures
            final(self).wf(),
            match r {
                Ok(()) => {
                    &&& !old(self)@.packages.contains_key(acc)
                    &&& lease_of(space, months, package_type, now) matches Ok(lease)
                    &&& final(self)@ == old(self)@.with_lease(acc, lease)
                },
                Err(e) => {
                    &&& final(self).tables() == old(self).tables()
                    &&& if old(self)@.packages.contains_key(acc) {
                        e == Error::AlreadyPurchased
                    } else {
                        lease_of(space, months, package_type, now) == Err::<
                            PackageDetails,
                            Error,
                        >(e)
                    }
                },
            },
    {
        if self.purchased_package.contains_key(&acc) {
            return Err(Error::AlreadyPurchased);
        }
        if package_type < 1 || package_type > 5 {
            return Err(Error::InvalidTier);
        }
        let ticks = match lease_blocks(months) {
            Ok(t) => t,
            Err(e) => {
                return Err(e);
            },
        };
        let deadline = match now.checked_add(ticks) {
            Some(d) => d,
            None => {
                return Err(Error::Overflow);
            },
        };
        let lease = PackageDetails {
            space,
            used_space: 0,
            remaining_space: space,
            tenancy: months,
            package_type,
            start: now,
            deadline,
            state: LeaseState::Normal,
        };
        self.purchased_package.insert(acc, lease);
        proof {
            lemma_with_lease_wf(old(self)@, acc, lease);
        }
        Ok(())
    }

    /// Sells `sender` the package `package_type`, for package 5 with `count`
    /// tebibytes, while the network has `total_space` bytes of capacity.
    ///
    /// Fails with `AlreadyPurchased` where `sender` holds a lease, else with the
    /// error of [`purchase_of`]. On success the lease is recorded and the one
    /// effect is the transfer of the price from `sender`; the purchase stands
    /// only if that transfer goes through.
    pub fn buy_package(
        &mut self,
        sender: AccountId,
        package_type: u8,
        count: u128,
        now: BlockNumber,
        total_space: u128,
    ) -> (r: Result<Vec<Effect>, Error>)
        requires
            old(self).wf(),
        ensures
            final(self).wf(),
            match r {
                Ok(effects) => {
                    &&& !old(self)@.packages.contains_key(sender)
                    &&& purchase_of(package_type, count, now, total_space) matches Ok(bought)
                    &&& final(self)@ == old(self)@.with_lease(sender, bought.0)
                    &&& effects@ == seq![Effect::Transfer { from: sender, amount: bought.1 }]
                },
                Err(e) => {
                    &&& final(self).tables() == old(self).tables()
                    &&& if old(self)@.packages.contains_key(sender) {
                        e == Error::AlreadyPurchased
                    } else {
                        purchase_of(package_type, count, now, total_space) == Err::<
                            (PackageDetails, u128),
                            Error,
                        >(e)
                    }
                },
            },
    {
        if self.purchased_package.contains_key(&sender) {
            return Err(Error::AlreadyPurchased);
        }
        let terms = match package_terms(package_type, count) {
            Ok(t) => t,
            Err(e) => {
                return Err(e);
            },
        };
        let unit_price = match get_price(terms.space, total_space) {
            Ok(p) => p,
            Err(e) => {
                return Err(e);
            },
        };
        let amount = match package_cost(terms.space, unit_price) {
            Ok(a) => a,
            Err(e) => {
                return Err(e);
            },
        };
        match self.add_purchased_package(sender, terms.space, terms.months, package_type, now) {
            Ok(()) => {},
            Err(e) => {
                return Err(e);
            },
        }
        let mut effects: Vec<Effect> = Vec::new();
        effects.push(Effect::Transfer { from: sender, amount });
        Ok(effects)
    }
}

} // verus!

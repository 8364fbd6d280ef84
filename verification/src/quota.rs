//! Leases: what a package holds and costs, how long it runs, and how its used
//! and remaining space move.

use vstd::prelude::*;
use crate::types::{BlockNumber, Error, LeaseState, PackageDetails, G_BYTE, T_BYTE};

verus! {

/// The base price of a byte of space.
pub const BASE_PRICE: u128 = 1_000_000_000_000;

/// The factor by which the base price is raised before it is shared out over
/// the capacity of the network.
pub const PRICE_FACTOR: u128 = 10_000;

/// The price below which no quote falls.
pub const MIN_PRICE: u128 = 1_000_000_000_000_000;

/// The days in a month of a lease.
pub const DAYS_PER_MONTH: u32 = 30;

/// The ticks in a day: one every three seconds.
pub const TICKS_PER_DAY: u32 = 28_800;

/// The smallest count of tebibytes that the package by count is sold for.
pub const MIN_COUNT: u128 = 5;

/// What a package offers: its space and the months that it runs.
#[derive(Clone, Copy, Debug, PartialEq, Eq)]
pub struct PackageTerms {
    pub space: u128,
    pub months: u32,
}

/// The terms of package `package_type`, bought with `count`: 10 GiB for
/// package 1, 500 GiB for package 2, 1 TiB for each of the packages 3 and 4,
/// which differ in their days of grace, and `count` tebibytes, at least
/// [`MIN_COUNT`] of them, for package 5; each for a month.
pub open spec fn terms_of(package_type: u8, count: u128) -> Result<PackageTerms, Error> {
    if package_type == 1 {
        Ok(PackageTerms { space: (10 * G_BYTE) as u128, months: 1 })
    } else if package_type == 2 {
        Ok(PackageTerms { space: (500 * G_BYTE) as u128, months: 1 })
    } else if package_type == 3 || package_type == 4 {
        Ok(PackageTerms { space: T_BYTE, months: 1 })
    } else if package_type == 5 {
        if count < MIN_COUNT {
            Err(Error::InvalidTier)
        } else if count * T_BYTE > u128::MAX {
            Err(Error::Overflow)
        } else {
            Ok(PackageTerms { space: (count * T_BYTE) as u128, months: 1 })
        }
    } else {
        Err(Error::InvalidTier)
    }
}

/// Looks up the terms of a package: see [`terms_of`].
pub fn package_terms(package_type: u8, count: u128) -> (r: Result<PackageTerms, Error>)
    ensures
        r == terms_of(package_type, count),
{
    match package_type {
        1 => Ok(PackageTerms { space: 10 * G_BYTE, months: 1 }),
        2 => Ok(PackageTerms { space: 500 * G_BYTE, months: 1 }),
        3 | 4 => Ok(PackageTerms { space: T_BYTE, months: 1 }),
        5 => {
            if count < MIN_COUNT {
                return Err(Error::InvalidTier);
            }
            match count.checked_mul(T_BYTE) {
                Some(space) => Ok(PackageTerms { space, months: 1 }),
                None => Err(Error::Overflow),
            }
        },
        _ => Err(Error::InvalidTier),
    }
}

/// The unit price of `buy_space` bytes while the network has `total_space`
/// bytes: the less room there is, the dearer, and never under [`MIN_PRICE`].
pub open spec fn price_of(buy_space: u128, total_space: u128) -> int {
    buy_space * BASE_PRICE * PRICE_FACTOR / (total_space as int) + MIN_PRICE
}

/// What [`get_price`] returns.
pub open spec fn quote_of(buy_space: u128, total_space: u128) -> Result<u128, Error> {
    if total_space == 0 {
        Err(Error::DivisionByZero)
    } else if buy_space * BASE_PRICE * PRICE_FACTOR > u128::MAX || price_of(buy_space, total_space)
        > u128::MAX {
        Err(Error::Overflow)
    } else {
        Ok(price_of(buy_space, total_space) as u128)
    }
}

/// Quotes the unit price of `buy_space` bytes against the capacity
/// `total_space` of the whole network.
pub fn get_price(buy_space: u128, total_space: u128) -> (r: Result<u128, Error>)
    ensures
        r == quote_of(buy_space, total_space),
{
    if total_space == 0 {
        return Err(Error::DivisionByZero);
    }
    let scaled = match buy_space.checked_mul(BASE_PRICE) {
        Some(x) => x,
        None => {
            return Err(Error::Overflow);
        },
    };
    let scaled = match scaled.checked_mul(PRICE_FACTOR) {
        Some(x) => x,
        None => {
            return Err(Error::Overflow);
        },
    };
    let shared = scaled / total_space;
    match shared.checked_add(MIN_PRICE) {
        Some(price) => Ok(price),
        None => Err(Error::Overflow),
    }
}

/// What a package of `space` bytes costs at the unit price `unit_price`: the
/// gibibytes of the package times the price of a gibibyte.
pub open spec fn cost_of(space: u128, unit_price: u128) -> int {
    (space / G_BYTE) * (unit_price / G_BYTE)
}

/// The cost of a package, or `Overflow` where it does not fit.
pub fn package_cost(space: u128, unit_price: u128) -> (r: Result<u128, Error>)
    ensures
        r == if cost_of(space, unit_price) > u128::MAX {
            Err::<u128, Error>(Error::Overflow)
        } else {
            Ok(cost_of(space, unit_price) as u128)
        },
{
    let per_gib = unit_price / G_BYTE;
    match (space / G_BYTE).checked_mul(per_gib) {
        Some(cost) => Ok(cost),
        None => Err(Error::Overflow),
    }
}

/// The ticks that a lease of `months` months runs.
pub open spec fn lease_ticks(months: u32) -> int {
    months * DAYS_PER_MONTH * TICKS_PER_DAY
}

/// The ticks of a lease, or `Overflow` where they do not fit the clock.
pub fn lease_blocks(months: u32) -> (r: Result<BlockNumber, Error>)
    ensures
        r == if lease_ticks(months) > u32::MAX {
            Err::<BlockNumber, Error>(Error::Overflow)
        } else {
            Ok(lease_ticks(months) as u32)
        },
{
    let days = match months.checked_mul(DAYS_PER_MONTH) {
        Some(x) => x,
        None => {
            return Err(Error::Overflow);
        },
    };
    match days.checked_mul(TICKS_PER_DAY) {
        Some(ticks) => Ok(ticks),
        None => Err(Error::Overflow),
    }
}

/// The days for which a lease of package `package_type` stays frozen after its
/// deadline before it expires.
pub open spec fn grace_days_of(package_type: u8) -> int {
    if package_type == 2 {
        7
    } else if package_type == 3 {
        14
    } else if package_type == 4 {
        20
    } else if package_type == 5 {
        30
    } else {
        0
    }
}

/// The days of grace of a package.
pub fn grace_days(package_type: u8) -> (days: u32)
    ensures
        days == grace_days_of(package_type),
{
    match package_type {
        2 => 7,
        3 => 14,
        4 => 20,
        5 => 30,
        _ => 0,
    }
}

impl PackageDetails {
    /// Used and remaining space make up the space of the lease.
    pub open spec fn balanced(self) -> bool {
        self.used_space + self.remaining_space == self.space
    }

    /// A lease as it stands right after its purchase at `now`.
    pub open spec fn fresh(
        space: u128,
        months: u32,
        package_type: u8,
        now: BlockNumber,
    ) -> PackageDetails {
        PackageDetails {
            space,
            used_space: 0,
            remaining_space: space,
            tenancy: months,
            package_type,
            start: now,
            deadline: (now + lease_ticks(months)) as u32,
            state: LeaseState::Normal,
        }
    }

    /// The lease after `size` bytes were added to what it uses.
    pub open spec fn credited(self, size: u128) -> Result<PackageDetails, Error> {
        if self.state == LeaseState::Frozen {
            Err(Error::Frozen)
        } else if size > self.space - self.used_space {
            Err(Error::InsufficientStorage)
        } else {
            Ok(
                PackageDetails {
                    used_space: (self.used_space + size) as u128,
                    remaining_space: (self.remaining_space - size) as u128,
                    ..self
                },
            )
        }
    }

    /// Adds `size` bytes to the used space and takes them from the remaining
    /// space. A frozen lease takes nothing, and no lease takes more than it has
    /// left.
    pub fn credit(&self, size: u128) -> (r: Result<PackageDetails, Error>)
        requires
            self.balanced(),
        ensures
            r == self.credited(size),
            r matches Ok(p) ==> p.balanced(),
    {
        match self.state {
            LeaseState::Frozen => {
                return Err(Error::Frozen);
            },
            LeaseState::Normal => {},
        }
        if size > self.space - self.used_space {
            return Err(Error::InsufficientStorage);
        }
        Ok(
            PackageDetails {
                space: self.space,
                used_space: self.used_space + size,
                remaining_space: self.remaining_space - size,
                tenancy: self.tenancy,
                package_type: self.package_type,
                start: self.start,
                deadline: self.deadline,
                state: self.state,
            },
        )
    }

    /// The lease after `size` bytes were taken from what it uses.
    pub open spec fn debited(self, size: u128) -> Result<PackageDetails, Error> {
        if size > self.used_space {
            Err(Error::Overflow)
        } else {
            Ok(
                PackageDetails {
                    used_space: (self.used_space - size) as u128,
                    remaining_space: (self.space - (self.used_space - size)) as u128,
                    ..self
                },
            )
        }
    }

    /// Takes `size` bytes from the used space and sets the remaining space to
    /// the rest of the lease. To take more than is used is `Overflow`: the books
    /// are out of step.
    pub fn debit(&self, size: u128) -> (r: Result<PackageDetails, Error>)
        requires
            self.balanced(),
        ensures
            r == self.debited(size),
            r matches Ok(p) ==> p.balanced(),
    {
        if size > self.used_space {
            return Err(Error::Overflow);
        }
        let used = self.used_space - size;
        Ok(
            PackageDetails {
                space: self.space,
                used_space: used,
                remaining_space: self.space - used,
                tenancy: self.tenancy,
                package_type: self.package_type,
                start: self.start,
                deadline: self.deadline,
                state: self.state,
            },
        )
    }

    /// The first tick at which the lease is expired: its deadline and the days
    /// of grace of its package.
    pub open spec fn expiry(self, one_day: BlockNumber) -> int {
        self.deadline + grace_days_of(self.package_type) * one_day
    }
}

} // verus!

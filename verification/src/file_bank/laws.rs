//! What holds of the ledger whatever was done to it, stated over its view.

use vstd::prelude::*;
use crate::file_bank::filler::ids_of;
use crate::file_bank::registry::{joined_by, stored_file};
use crate::file_bank::sweep::{
    accounts_of, expiry_notice, frozen, lemma_first_released_shortens,
};
use crate::file_bank::{PalletView, Tables};
use crate::ordered_map::{has_key, index_of, sorted, to_map};
use crate::types::{
    AccountId, BlockNumber, Effect, Error, Event, FileInfoView, FileState, MinerCapacity,
    PackageDetails,
};

verus! {

/// In a well-formed ledger the used and the remaining space of every lease
/// make up its space.
pub proof fn lemma_leases_balanced(v: PalletView, acc: AccountId)
    requires
        v.wf(),
        v.packages.contains_key(acc),
    ensures
        v.packages[acc].used_space + v.packages[acc].remaining_space == v.packages[acc].space,
{
}

/// In a well-formed ledger every file has as many names as owners, and at
/// least one owner: a file without owners is not in the ledger.
pub proof fn lemma_files_owned(v: PalletView, hash: Seq<u8>)
    requires
        v.wf(),
        v.files.contains_key(hash),
    ensures
        v.files[hash].user.len() == v.files[hash].file_name.len(),
        v.files[hash].user.len() >= 1,
{
}

/// An account that has declared a file cannot declare it again, under
/// whichever name that the ledger stores.
pub proof fn lemma_declared_twice(
    v: PalletView,
    sender: AccountId,
    hash: Seq<u8>,
    name: Seq<u8>,
    again: Seq<u8>,
)
    requires
        v.wf(),
        v.declaration_error(sender, hash, name) is None,
        again.len() <= v.config.string_limit,
    ensures
        v.after_declaration(sender, hash, name).declaration_error(sender, hash, again) == Some(
            Error::AlreadyDeclared,
        ),
{
    let next = v.after_declaration(sender, hash, name);
    if v.files.contains_key(hash) {
        let file = v.files[hash];
        let joined = joined_by(file, sender, name);
        assert(joined.user[file.user.len() as int] == sender);
    } else {
        assert(next.files[hash].user[0] == sender);
    }
}

/// Another account can declare a file that is in the ledger, and becomes its
/// last owner, where it has a lease that takes the size of the file and
/// neither its index nor the list of owners is full.
pub proof fn lemma_declared_by_another(
    v: PalletView,
    other: AccountId,
    hash: Seq<u8>,
    name: Seq<u8>,
)
    requires
        v.wf(),
        v.files.contains_key(hash),
        hash.len() <= v.config.string_limit,
        name.len() <= v.config.string_limit,
        !v.files[hash].user.contains(other),
        v.credit_outcome(other, v.files[hash].file_size as u128) is Ok,
        v.held_by(other).len() < v.config.item_limit,
        v.files[hash].user.len() < v.config.string_limit,
    ensures
        v.declaration_error(other, hash, name) is None,
        v.after_declaration(other, hash, name).files[hash].user == v.files[hash].user.push(other),
        v.after_declaration(other, hash, name).files[hash].file_name
            == v.files[hash].file_name.push(name),
{
}

/// The upload of a file that was not declared fails with `FileNotFound`.
pub proof fn lemma_upload_undeclared(
    v: PalletView,
    hash: Seq<u8>,
    file_size: u64,
    miner_acc: AccountId,
    miner_ip: Seq<u8>,
    user: AccountId,
    capacity: MinerCapacity,
)
    requires
        !v.files.contains_key(hash),
    ensures
        v.upload_error(true, hash, file_size, miner_acc, miner_ip, user, capacity) == Some(
            Error::FileNotFound,
        ),
{
}

/// The upload of a file for an account that has not declared it fails with
/// `NotDeclaredByAccount`, where the caller is a coordinator, whatever the
/// lease of the account and the state of the file.
pub proof fn lemma_upload_by_stranger(
    v: PalletView,
    hash: Seq<u8>,
    file_size: u64,
    miner_acc: AccountId,
    miner_ip: Seq<u8>,
    user: AccountId,
    capacity: MinerCapacity,
)
    requires
        v.files.contains_key(hash),
        !v.files[hash].user.contains(user),
    ensures
        v.upload_error(true, hash, file_size, miner_acc, miner_ip, user, capacity) == Some(
            Error::NotDeclaredByAccount,
        ),
{
}

/// In a well-formed ledger nothing is longer than the ledger was set up to
/// store: no list of owners, no index of held files, no list of what a miner
/// has to purge, and not the list of members.
pub proof fn lemma_lists_within_limits(
    v: PalletView,
    hash: Seq<u8>,
    acc: AccountId,
    miner: AccountId,
)
    requires
        v.wf(),
    ensures
        v.files.contains_key(hash) ==> hash.len() <= v.config.string_limit
            && v.files[hash].user.len() <= v.config.string_limit,
        v.held_by(acc).len() <= v.config.item_limit,
        v.outbox_of(miner).len() <= v.config.string_limit,
        v.members.len() <= v.config.string_limit,
{
}

/// In a well-formed ledger a filler stands under its own identifier, which is
/// no longer than the ledger stores.
pub proof fn lemma_filler_under_its_identifier(v: PalletView, miner: AccountId, id: Seq<u8>)
    requires
        v.wf(),
        has_key(v.fillers_of(miner), id),
    ensures
        to_map(v.fillers_of(miner))[id].filler_id == id,
        id.len() <= v.config.string_limit,
{
    let at = index_of(v.fillers_of(miner), id);
}

/// Too little slack on the miner refuses a file with `MinerPowerInsufficient`,
/// and a slack that suffices does not: then as many fillers go as the file
/// consumes, where the list of the miner has room for their identifiers.
pub proof fn lemma_replacement_by_slack(
    v: PalletView,
    miner: AccountId,
    file_size: u64,
    capacity: MinerCapacity,
)
    ensures
        capacity.power - capacity.space < file_size ==> v.replacement_error(
            miner,
            file_size,
            capacity,
        ) == Some(Error::MinerPowerInsufficient),
        capacity.power - capacity.space >= file_size && v.outbox_of(miner).len() + v.consumed(
            miner,
            file_size,
        ) <= v.config.string_limit ==> {
            &&& v.replacement_error(miner, file_size, capacity) is None
            &&& v.after_replacement(miner, file_size).fillers_of(miner) == v.fillers_of(
                miner,
            ).skip(v.consumed(miner, file_size))
            &&& forall|m: AccountId|
                m != miner ==> v.after_replacement(miner, file_size).fillers_of(m)
                    == v.fillers_of(m)
        },
{
}

/// The upload of a file that is active fails with `AlreadyActive`, where the
/// caller is a coordinator and `user` an owner, whatever the lease of `user`.
pub proof fn lemma_upload_active(
    v: PalletView,
    hash: Seq<u8>,
    file_size: u64,
    miner_acc: AccountId,
    miner_ip: Seq<u8>,
    user: AccountId,
    capacity: MinerCapacity,
)
    requires
        v.files.contains_key(hash),
        v.files[hash].file_state == FileState::Active,
        v.files[hash].user.contains(user),
    ensures
        v.upload_error(true, hash, file_size, miner_acc, miner_ip, user, capacity) == Some(
            Error::AlreadyActive,
        ),
{
}

/// A file is active once its upload was recorded, so that it cannot be
/// uploaded again.
pub proof fn lemma_uploaded_is_active(
    v: PalletView,
    hash: Seq<u8>,
    file_size: u64,
    block_num: u32,
    scan_size: u32,
    segment_size: u32,
    miner_acc: AccountId,
    miner_id: u64,
    miner_ip: Seq<u8>,
    user: AccountId,
    capacity: MinerCapacity,
)
    requires
        v.wf(),
        v.upload_error(true, hash, file_size, miner_acc, miner_ip, user, capacity) is None,
    ensures
        ({
            let next = v.after_upload(
                hash,
                stored_file(
                    v.files[hash],
                    file_size,
                    block_num,
                    scan_size,
                    segment_size,
                    miner_acc,
                    miner_id,
                    miner_ip,
                ),
                user,
            );
            &&& next.files.contains_key(hash)
            &&& next.files[hash].file_state == FileState::Active
            &&& next.files[hash].user == v.files[hash].user
            &&& next.packages[user].used_space == v.packages[user].used_space + file_size
            &&& next.fillers_of(miner_acc) == v.fillers_of(miner_acc).skip(
                v.consumed(miner_acc, file_size),
            )
            &&& next.outbox_of(miner_acc) == v.outbox_of(miner_acc) + ids_of(
                v.fillers_of(miner_acc).take(v.consumed(miner_acc, file_size)),
            )
        }),
{
}

/// Where the one owner of a file gives it up, the file leaves the ledger and
/// its hash is the one entry added to what its miner has to purge; no other
/// miner is told anything.
pub proof fn lemma_delete_sole_owner(v: PalletView, user: AccountId, hash: Seq<u8>)
    requires
        v.wf(),
        v.deletion_error(user, hash) is None,
        v.files[hash].user.len() == 1,
    ensures
        !v.after_deletion(user, hash).files.contains_key(hash),
        v.after_deletion(user, hash).outbox_of(v.files[hash].miner_acc) == v.outbox_of(
            v.files[hash].miner_acc,
        ).push(hash),
        forall|m: AccountId|
            m != v.files[hash].miner_acc ==> v.after_deletion(user, hash).outbox_of(m)
                == v.outbox_of(m),
{
}

/// Where one of several owners gives a file up, the file stays with one owner
/// fewer, the owner that left is no longer among them, and no lease but that
/// of the owner that left changes.
pub proof fn lemma_delete_one_of_many(v: PalletView, user: AccountId, hash: Seq<u8>)
    requires
        v.wf(),
        v.deletion_error(user, hash) is None,
        v.files[hash].user.len() > 1,
    ensures
        v.after_deletion(user, hash).files.contains_key(hash),
        v.after_deletion(user, hash).files[hash].user.len() == v.files[hash].user.len() - 1,
        v.after_deletion(user, hash).files[hash].file_name.len() == v.files[hash].user.len() - 1,
        !v.after_deletion(user, hash).files[hash].user.contains(user),
        v.after_deletion(user, hash).outbox == v.outbox,
        v.after_deletion(user, hash).packages.dom() == v.packages.dom(),
        forall|a: AccountId|
            a != user && v.packages.contains_key(a) ==> v.after_deletion(user, hash).packages[a]
                == v.packages[a],
        v.after_deletion(user, hash).packages[user].used_space == v.packages[user].used_space
            - v.files[hash].file_size,
{
    let file = v.files[hash];
    let rest = file.user.remove(file.user.index_of(user));
    if rest.contains(user) {
        let j = choose|j: int| 0 <= j < rest.len() && rest[j] == user;
    }
}

/// What a purchase fixes of a lease: its space, its package and its dates.
pub open spec fn same_terms(a: PackageDetails, b: PackageDetails) -> bool {
    &&& a.space == b.space
    &&& a.tenancy == b.tenancy
    &&& a.package_type == b.package_type
    &&& a.start == b.start
    &&& a.deadline == b.deadline
}

/// `after` has no lease that `before` has not, and every lease that it has is
/// on the terms that it had in `before`: no deadline moved.
pub open spec fn terms_kept(before: PalletView, after: PalletView) -> bool {
    forall|acc: AccountId| #[trigger]
        after.packages.contains_key(acc) ==> before.packages.contains_key(acc) && same_terms(
            before.packages[acc],
            after.packages[acc],
        )
}

/// A declaration moves no deadline and creates no lease.
pub proof fn lemma_declaration_keeps_terms(
    v: PalletView,
    sender: AccountId,
    hash: Seq<u8>,
    name: Seq<u8>,
)
    ensures
        terms_kept(v, v.after_declaration(sender, hash, name)),
{
}

/// An upload moves no deadline and creates no lease.
pub proof fn lemma_upload_keeps_terms(
    v: PalletView,
    hash: Seq<u8>,
    stored: FileInfoView,
    user: AccountId,
)
    ensures
        terms_kept(v, v.after_upload(hash, stored, user)),
{
}

/// A deletion moves no deadline and creates no lease.
pub proof fn lemma_deletion_keeps_terms(v: PalletView, user: AccountId, hash: Seq<u8>)
    ensures
        terms_kept(v, v.after_deletion(user, hash)),
{
}

/// Where an account lets go of what it holds, the leases and the parameters
/// of the ledger and the index of every other account stay as they are, and
/// no notice of an expiry is given.
pub proof fn lemma_release_keeps_leases(
    v: PalletView,
    acc: AccountId,
    steps: nat,
    other: AccountId,
)
    ensures
        v.released(acc, steps).0.packages == v.packages,
        v.released(acc, steps).0.config == v.config,
        other != acc ==> v.released(acc, steps).0.held_by(other) == v.held_by(other),
        forall|i: int|
            0 <= i < v.released(acc, steps).1.len() ==> !is_expiry(
                #[trigger] v.released(acc, steps).1[i],
                other,
            ),
    decreases steps,
{
    if steps > 0 && v.held_by(acc).len() > 0 {
        lemma_first_released_shortens(v, acc);
        lemma_release_keeps_leases(v.first_released(acc).0, acc, (steps - 1) as nat, other);
    }
}

/// The sweep moves no deadline and creates no lease: it freezes leases and
/// takes leases away, and that is all it does to them.
pub proof fn lemma_sweep_keeps_terms(v: PalletView, accounts: Seq<AccountId>, now: BlockNumber)
    ensures
        terms_kept(v, v.swept(accounts, now).0),
    decreases accounts.len(),
{
    if accounts.len() > 0 {
        let acc = accounts[0];
        lemma_release_keeps_leases(v, acc, v.held_by(acc).len(), acc);
        let next = v.lease_swept(acc, now).0;
        lemma_sweep_keeps_terms(next, accounts.drop_first(), now);
    }
}

/// `effect` is a notice that the lease of `acc` has expired.
pub open spec fn is_expiry(effect: Effect, acc: AccountId) -> bool {
    match effect {
        Effect::Deposit(Event::LeaseExpired { acc: a, size }) => a == acc,
        _ => false,
    }
}

/// The number of notices among `effects` that the lease of `acc` has expired.
pub open spec fn expiries(effects: Seq<Effect>, acc: AccountId) -> nat
    decreases effects.len(),
{
    if effects.len() == 0 {
        0
    } else {
        expiries(effects.drop_last(), acc) + if is_expiry(effects.last(), acc) {
            1nat
        } else {
            0nat
        }
    }
}

/// What the sweep at `now` has made of the lease that `acc` had in `v`, where
/// `after` is the ledger after the sweep and `effects` what is to be done for
/// it. A lease before its deadline is as it was. A lease past its deadline
/// and within its days of grace is frozen. A lease past its days of grace is
/// gone, with one notice of its expiry, and the account holds no file. No
/// other notice names the account.
pub open spec fn lease_settled(
    v: PalletView,
    after: PalletView,
    effects: Seq<Effect>,
    acc: AccountId,
    now: BlockNumber,
) -> bool {
    let lease = v.packages[acc];
    if lease.deadline > now {
        &&& after.packages.contains_key(acc)
        &&& after.packages[acc] == lease
        &&& expiries(effects, acc) == 0
    } else if lease.expiry(v.config.one_day) > now {
        &&& after.packages.contains_key(acc)
        &&& after.packages[acc] == frozen(lease)
        &&& expiries(effects, acc) == 0
    } else {
        &&& !after.packages.contains_key(acc)
        &&& after.held_by(acc).len() == 0
        &&& expiries(effects, acc) == 1
        &&& effects.contains(expiry_notice(acc, lease.space))
    }
}

/// The notices of two lists of effects add up.
pub proof fn lemma_expiries_add(first: Seq<Effect>, second: Seq<Effect>, acc: AccountId)
    ensures
        expiries(first + second, acc) == expiries(first, acc) + expiries(second, acc),
    decreases second.len(),
{
    if second.len() > 0 {
        assert((first + second).drop_last() =~= first + second.drop_last());
        lemma_expiries_add(first, second.drop_last(), acc);
    }
}

/// Effects of which none is a notice for `acc` hold no notice for `acc`.
pub proof fn lemma_no_expiries(effects: Seq<Effect>, acc: AccountId)
    requires
        forall|i: int| 0 <= i < effects.len() ==> !is_expiry(#[trigger] effects[i], acc),
    ensures
        expiries(effects, acc) == 0,
    decreases effects.len(),
{
    if effects.len() > 0 {
        lemma_no_expiries(effects.drop_last(), acc);
    }
}

/// What the sweep does for the lease of one account leaves the lease and the
/// index of every other account as they were, gives no notice for it, and
/// leaves the parameters of the ledger alone.
pub proof fn lemma_lease_swept_spares_others(
    v: PalletView,
    acc: AccountId,
    now: BlockNumber,
    other: AccountId,
)
    requires
        other != acc,
    ensures
        v.lease_swept(acc, now).0.config == v.config,
        v.lease_swept(acc, now).0.packages.contains_key(other) == v.packages.contains_key(other),
        v.packages.contains_key(other) ==> v.lease_swept(acc, now).0.packages[other]
            == v.packages[other],
        v.lease_swept(acc, now).0.held_by(other) == v.held_by(other),
        expiries(v.lease_swept(acc, now).1, other) == 0,
{
    let out = v.lease_swept(acc, now);
    lemma_release_keeps_leases(v, acc, v.held_by(acc).len(), other);
    lemma_no_expiries(out.1, other);
}

/// What the sweep does for the lease of one account settles that lease.
pub proof fn lemma_lease_swept_settles(v: PalletView, acc: AccountId, now: BlockNumber)
    requires
        v.packages.contains_key(acc),
    ensures
        lease_settled(v, v.lease_swept(acc, now).0, v.lease_swept(acc, now).1, acc, now),
{
    let out = v.lease_swept(acc, now);
    let lease = v.packages[acc];
    lemma_release_keeps_leases(v, acc, v.held_by(acc).len(), acc);
    if lease.deadline <= now && lease.expiry(v.config.one_day) <= now {
        let freed = v.released(acc, v.held_by(acc).len());
        lemma_release_empties(v, acc, v.held_by(acc).len());
        lemma_no_expiries(freed.1, acc);
        assert(out.1.drop_last() =~= freed.1);
    }
}

/// The sweep over accounts among which `other` is not leaves the lease and
/// the index of `other` as they were and gives no notice for it.
pub proof fn lemma_sweep_spares_others(
    v: PalletView,
    accounts: Seq<AccountId>,
    now: BlockNumber,
    other: AccountId,
)
    requires
        !accounts.contains(other),
    ensures
        v.swept(accounts, now).0.config == v.config,
        v.swept(accounts, now).0.packages.contains_key(other) == v.packages.contains_key(other),
        v.packages.contains_key(other) ==> v.swept(accounts, now).0.packages[other]
            == v.packages[other],
        v.swept(accounts, now).0.held_by(other) == v.held_by(other),
        expiries(v.swept(accounts, now).1, other) == 0,
    decreases accounts.len(),
{
    if accounts.len() > 0 {
        let first = accounts[0];
        let rest = accounts.drop_first();
        let step = v.lease_swept(first, now);
        lemma_lease_swept_spares_others(v, first, now, other);
        lemma_sweep_spares_others(step.0, rest, now, other);
        lemma_expiries_add(step.1, step.0.swept(rest, now).1, other);
    }
}

/// The sweep settles every lease that it is given: each is left alone, frozen,
/// or gone with one notice of its expiry, as [`lease_settled`] says, whatever
/// becomes of the other leases.
pub proof fn lemma_sweep_settles_every_lease(
    v: PalletView,
    accounts: Seq<AccountId>,
    now: BlockNumber,
    acc: AccountId,
)
    requires
        accounts.no_duplicates(),
        accounts.contains(acc),
        v.packages.contains_key(acc),
    ensures
        lease_settled(v, v.swept(accounts, now).0, v.swept(accounts, now).1, acc, now),
    decreases accounts.len(),
{
    let first = accounts[0];
    let rest = accounts.drop_first();
    let step = v.lease_swept(first, now);
    let tail = step.0.swept(rest, now);
    let lease = v.packages[acc];
    lemma_expiries_add(step.1, tail.1, acc);
    if first == acc {
        lemma_lease_swept_settles(v, acc, now);
        lemma_sweep_spares_others(step.0, rest, now, acc);
        if step.1.contains(expiry_notice(acc, lease.space)) {
            let i = choose|i: int|
                0 <= i < step.1.len() && step.1[i] == expiry_notice(acc, lease.space);
            assert((step.1 + tail.1)[i] == expiry_notice(acc, lease.space));
        }
    } else {
        let at = choose|i: int| 0 <= i < accounts.len() && accounts[i] == acc;
        assert(rest[at - 1] == acc);
        lemma_lease_swept_spares_others(v, first, now, acc);
        lemma_sweep_settles_every_lease(step.0, rest, now, acc);
        if tail.1.contains(expiry_notice(acc, lease.space)) {
            let i = choose|i: int|
                0 <= i < tail.1.len() && tail.1[i] == expiry_notice(acc, lease.space);
            assert((step.1 + tail.1)[step.1.len() + i] == expiry_notice(acc, lease.space));
        }
    }
}

/// The accounts of leases in key order are the accounts that hold a lease,
/// each once: the sweep of a ledger settles every lease of the ledger.
pub proof fn lemma_accounts_of_leases(leases: Seq<(AccountId, PackageDetails)>)
    requires
        sorted::<AccountId, PackageDetails>(leases),
    ensures
        accounts_of(leases).no_duplicates(),
        forall|acc: AccountId|
            accounts_of(leases).contains(acc) <==> #[trigger] to_map(leases).contains_key(acc),
{
    let accounts = accounts_of(leases);
    assert forall|acc: AccountId| accounts.contains(acc) <==> #[trigger] to_map(
        leases,
    ).contains_key(acc) by {
        if to_map(leases).contains_key(acc) {
            let i = index_of(leases, acc);
            assert(accounts[i] == acc);
        }
    }
}

/// Once an account has let go of all that it holds, its index is empty.
pub proof fn lemma_release_empties(v: PalletView, acc: AccountId, steps: nat)
    requires
        v.held_by(acc).len() <= steps,
    ensures
        v.released(acc, steps).0.held_by(acc).len() == 0,
    decreases steps,
{
    if steps > 0 && v.held_by(acc).len() > 0 {
        lemma_first_released_shortens(v, acc);
        lemma_release_empties(v.first_released(acc).0, acc, (steps - 1) as nat);
    }
}

/// A lease past its days of grace expires at the sweep, whatever its account
/// holds: the lease is gone, the index of the account is empty, and the last
/// effect is the notice of the expiry.
pub proof fn lemma_expiry_is_owed(v: PalletView, acc: AccountId, now: BlockNumber)
    requires
        v.packages.contains_key(acc),
        v.packages[acc].expiry(v.config.one_day) <= now,
    ensures
        !v.lease_swept(acc, now).0.packages.contains_key(acc),
        v.lease_swept(acc, now).0.held_by(acc).len() == 0,
        v.lease_swept(acc, now).1.len() > 0,
        v.lease_swept(acc, now).1.last() == expiry_notice(acc, v.packages[acc].space),
{
    lemma_release_empties(v, acc, v.held_by(acc).len());
}

/// The sweep of a ledger settles every lease of the ledger: whatever lease an
/// account holds when the sweep begins is, when it ends, as it was before its
/// deadline, frozen within its days of grace, and gone with one notice of its
/// expiry past them, as [`lease_settled`] says.
pub proof fn lemma_sweep_settles_the_ledger(tables: Tables, now: BlockNumber, acc: AccountId)
    requires
        tables.sorted(),
        tables.ledger().packages.contains_key(acc),
    ensures
        lease_settled(
            tables.ledger(),
            tables.ledger().swept(accounts_of(tables.purchased_package), now).0,
            tables.ledger().swept(accounts_of(tables.purchased_package), now).1,
            acc,
            now,
        ),
{
    lemma_accounts_of_leases(tables.purchased_package);
    lemma_sweep_settles_every_lease(
        tables.ledger(),
        accounts_of(tables.purchased_package),
        now,
        acc,
    );
}

} // verus!

//! The files: declaring, uploading and deleting them, and the index of the
//! files that each account holds.

use vstd::prelude::*;
use crate::bytes::{bytes_eq, copy_bytes};
use crate::duplicate::Duplicate;
use crate::file_bank::{
    lemma_filter_keeps, lemma_with_lease_wf, lemma_without_file_wf, Pallet, PalletView,
};
use crate::list::{lemma_filter_step, List};
use crate::tee_worker::ScheduleFind;
use crate::types::{
    effects_view, AccountId, Effect, EffectView, Error, Event, EventView, FileInfo,
    FileInfoView, FileState, MinerCapacity, PackageDetails, UserFileSliceInfo,
    UserFileSliceInfoView,
};

verus! {

/// A file as its first declaration by `sender` under `name` records it: of no
/// size yet, with `sender` as its one owner.
pub open spec fn declared_file(sender: AccountId, name: Seq<u8>) -> FileInfoView {
    FileInfoView {
        file_size: 0,
        block_num: 0,
        scan_size: 0,
        segment_size: 0,
        miner_acc: sender,
        miner_id: 0,
        miner_ip: Seq::empty(),
        user: seq![sender],
        file_name: seq![name],
        file_state: FileState::Declared,
    }
}

/// The file `file` with one more owner.
pub open spec fn joined_by(file: FileInfoView, sender: AccountId, name: Seq<u8>) -> FileInfoView {
    FileInfoView { user: file.user.push(sender), file_name: file.file_name.push(name), ..file }
}

/// The file `file` as an upload records it: with its size, its layout and its
/// miner, and active. Owners and names stay.
pub open spec fn stored_file(
    file: FileInfoView,
    file_size: u64,
    block_num: u32,
    scan_size: u32,
    segment_size: u32,
    miner_acc: AccountId,
    miner_id: u64,
    miner_ip: Seq<u8>,
) -> FileInfoView {
    FileInfoView {
        file_size,
        block_num,
        scan_size,
        segment_size,
        miner_acc,
        miner_id,
        miner_ip,
        user: file.user,
        file_name: file.file_name,
        file_state: FileState::Active,
    }
}

/// The file `file` without the owner `user` and the name that `user` gave it.
pub open spec fn left_by(file: FileInfoView, user: AccountId) -> FileInfoView {
    let i = file.user.index_of(user);
    FileInfoView { user: file.user.remove(i), file_name: file.file_name.remove(i), ..file }
}

/// The index `held` without the entries of the file `hash`.
pub open spec fn held_without(
    held: Seq<UserFileSliceInfoView>,
    hash: Seq<u8>,
) -> Seq<UserFileSliceInfoView> {
    held.filter(|e: UserFileSliceInfoView| e.file_hash != hash)
}

/// What the capacity accounts are to take from the miner of a deleted file:
/// nothing while the file has other owners, else its size from the capacity
/// and from the space in use.
pub open spec fn release_effects(file: FileInfoView) -> Seq<Effect> {
    if file.user.len() > 1 {
        Seq::empty()
    } else {
        seq![
            Effect::SubPower { miner: file.miner_acc, amount: file.file_size as u128 },
            Effect::SubSpace { miner: file.miner_acc, amount: file.file_size as u128 },
        ]
    }
}

/// Lets a coordinator pass: fails with `UnauthorizedCoordinator` where `sender`
/// is not among the coordinators of `scheduler`.
pub fn ensure_coordinator<S: ScheduleFind>(scheduler: &S, sender: AccountId) -> (r: Result<
    (),
    Error,
>)
    requires
        scheduler.ready(),
    ensures
        r == if scheduler.is_scheduler(sender) {
            Ok::<(), Error>(())
        } else {
            Err::<(), Error>(Error::UnauthorizedCoordinator)
        },
{
    if scheduler.contains_scheduler(sender) {
        Ok(())
    } else {
        Err(Error::UnauthorizedCoordinator)
    }
}

impl PalletView {
    /// Why the upload of the file `hash` for `user` cannot be recorded, if it
    /// cannot; `authorized` says whether the caller is a coordinator.
    pub open spec fn upload_error(
        self,
        authorized: bool,
        hash: Seq<u8>,
        file_size: u64,
        miner_acc: AccountId,
        miner_ip: Seq<u8>,
        user: AccountId,
        capacity: MinerCapacity,
    ) -> Option<Error> {
        if !authorized {
            Some(Error::UnauthorizedCoordinator)
        } else if !self.files.contains_key(hash) {
            Some(Error::FileNotFound)
        } else {
            let file = self.files[hash];
            if !file.user.contains(user) {
                Some(Error::NotDeclaredByAccount)
            } else if file.file_state == FileState::Active {
                Some(Error::AlreadyActive)
            } else {
                match self.credit_outcome(user, file_size as u128) {
                    Err(e) => Some(e),
                    Ok(_) => if miner_ip.len() > self.config.string_limit {
                        Some(Error::Overflow)
                    } else if self.held_by(user).len() >= self.config.item_limit {
                        Some(Error::StorageLimitReached)
                    } else {
                        self.replacement_error(miner_acc, file_size, capacity)
                    },
                }
            }
        }
    }

    /// This ledger after the upload of the file `hash` for `user` was
    /// recorded: the size is booked on the lease of `user`, the file is as
    /// `stored` says and in the index of `user`, and fillers of the miner have
    /// gone as [`PalletView::after_replacement`] says.
    pub open spec fn after_upload(
        self,
        hash: Seq<u8>,
        stored: FileInfoView,
        user: AccountId,
    ) -> PalletView {
        match self.credit_outcome(user, stored.file_size as u128) {
            Ok(lease) => self.with_lease(user, lease).with_file(hash, stored).with_held(
                user,
                self.held_by(user).push(
                    UserFileSliceInfoView { file_hash: hash, file_size: stored.file_size },
                ),
            ).after_replacement(stored.miner_acc, stored.file_size),
            Err(_) => self,
        }
    }

    /// Why `user` cannot leave the owners of the file `hash`, if it cannot.
    pub open spec fn leave_error(self, user: AccountId, hash: Seq<u8>) -> Option<Error> {
        if !self.files.contains_key(hash) {
            Some(Error::FileNotFound)
        } else {
            let file = self.files[hash];
            if !file.user.contains(user) {
                Some(Error::NotOwner)
            } else if file.user.len() <= 1 && self.outbox_of(file.miner_acc).len()
                >= self.config.string_limit {
                Some(Error::StorageLimitReached)
            } else {
                None
            }
        }
    }

    /// This ledger after `user` left the owners of the file `hash`: the file is
    /// taken from the index of `user`; a file with other owners loses `user`
    /// and the name that `user` gave it; a file without is gone, and its hash
    /// stands at the end of what its miner has to purge. No lease changes.
    pub open spec fn after_leave(self, user: AccountId, hash: Seq<u8>) -> PalletView {
        let file = self.files[hash];
        let cleared = if file.user.len() > 1 {
            self.with_file(hash, left_by(file, user))
        } else {
            self.without_file(hash).with_outbox(
                file.miner_acc,
                self.outbox_of(file.miner_acc).push(hash),
            )
        };
        if self.held.contains_key(user) {
            cleared.with_held(user, held_without(self.held_by(user), hash))
        } else {
            cleared
        }
    }

    /// Why `user` cannot give up the file `hash`, if it cannot: `user` cannot
    /// leave its owners, or the size of the file cannot be taken from the
    /// lease of `user`.
    pub open spec fn deletion_error(self, user: AccountId, hash: Seq<u8>) -> Option<Error> {
        match self.leave_error(user, hash) {
            Some(Error::FileNotFound) => Some(Error::FileNotFound),
            Some(Error::NotOwner) => Some(Error::NotOwner),
            full => match self.debit_outcome(user, self.files[hash].file_size as u128) {
                Err(e) => Some(e),
                Ok(_) => full,
            },
        }
    }

    /// This ledger after `user` gave up the file `hash`: the size of the file
    /// is taken from the lease of `user`, and `user` leaves the owners of the
    /// file, as [`PalletView::after_leave`] says.
    pub open spec fn after_deletion(self, user: AccountId, hash: Seq<u8>) -> PalletView {
        match self.debit_outcome(user, self.files[hash].file_size as u128) {
            Ok(lease) => self.with_lease(user, lease).after_leave(user, hash),
            Err(_) => self,
        }
    }
}

impl PalletView {
    /// Why `sender` cannot declare the file `hash` under `name`, if it cannot.
    pub open spec fn declaration_error(
        self,
        sender: AccountId,
        hash: Seq<u8>,
        name: Seq<u8>,
    ) -> Option<Error> {
        if hash.len() > self.config.string_limit || name.len() > self.config.string_limit {
            Some(Error::Overflow)
        } else if self.files.contains_key(hash) {
            let file = self.files[hash];
            if file.user.contains(sender) {
                Some(Error::AlreadyDeclared)
            } else {
                match self.credit_outcome(sender, file.file_size as u128) {
                    Err(e) => Some(e),
                    Ok(_) => if self.held_by(sender).len() >= self.config.item_limit
                        || file.user.len() >= self.config.string_limit {
                        Some(Error::StorageLimitReached)
                    } else {
                        None
                    },
                }
            }
        } else if self.config.string_limit < 1 {
            Some(Error::BoundedVecError)
        } else {
            None
        }
    }

    /// This ledger after `sender` declared the file `hash` under `name`. A
    /// file that was there has one more owner, its size is booked on the lease
    /// of `sender` and it is in the index of `sender`; a file that was not there
    /// is there, as [`declared_file`] says.
    pub open spec fn after_declaration(
        self,
        sender: AccountId,
        hash: Seq<u8>,
        name: Seq<u8>,
    ) -> PalletView {
        if self.files.contains_key(hash) {
            let file = self.files[hash];
            match self.credit_outcome(sender, file.file_size as u128) {
                Ok(lease) => self.with_lease(sender, lease).with_held(
                    sender,
                    self.held_by(sender).push(
                        UserFileSliceInfoView { file_hash: hash, file_size: file.file_size },
                    ),
                ).with_file(hash, joined_by(file, sender, name)),
                Err(_) => self,
            }
        } else {
            self.with_file(hash, declared_file(sender, name))
        }
    }
}

impl Pallet {
    /// What the ledger knows of the file `hash`, if it knows it.
    pub fn file(&self, hash: &Vec<u8>) -> (r: Option<FileInfo>)
        requires
            self.wf(),
        ensures
            match r {
                Some(info) => self@.files.contains_key(hash@) && self@.files[hash@] == info@,
                None => !self@.files.contains_key(hash@),
            },
    {
        match self.file.get(hash) {
            Some(info) => Some(info.duplicate()),
            None => None,
        }
    }

    /// The files that `acc` holds, in the order in which they came.
    pub fn user_hold_file_list(&self, acc: AccountId) -> (r: List<UserFileSliceInfo>)
        requires
            self.wf(),
        ensures
            r@ == self@.held_by(acc),
    {
        match self.user_hold_file_list.get(&acc) {
            Some(list) => list.duplicate(),
            None => List::new(),
        }
    }

    /// The lease of `acc` as it would be with `size` more bytes in use.
    pub(crate) fn check_credit(&self, acc: AccountId, size: u128) -> (r: Result<
        PackageDetails,
        Error,
    >)
        requires
            self.wf(),
        ensures
            r == self@.credit_outcome(acc, size),
            r matches Ok(p) ==> p.balanced() && 1 <= p.package_type <= 5,
    {
        match self.purchased_package.get(&acc) {
            Some(lease) => lease.credit(size),
            None => Err(Error::NotPurchased),
        }
    }

    /// The number of files in the index of `acc`.
    pub(crate) fn held_len(&self, acc: AccountId) -> (n: usize)
        requires
            self.wf(),
        ensures
            n == self@.held_by(acc).len(),
    {
        match self.user_hold_file_list.get(&acc) {
            Some(list) => list.len(),
            None => 0,
        }
    }

    /// Appends a file under a hash that the ledger can store to the index of
    /// `acc`, where the index has room.
    pub(crate) fn push_held(&mut self, acc: AccountId, file_hash: Vec<u8>, file_size: u64)
        requires
            old(self).wf(),
            file_hash@.len() <= old(self)@.config.string_limit,
            old(self)@.held_by(acc).len() < old(self)@.config.item_limit,
        ensures
            final(self).wf(),
            final(self)@ == old(self)@.with_held(
                acc,
                old(self)@.held_by(acc).push(
                    UserFileSliceInfoView { file_hash: file_hash@, file_size },
                ),
            ),
    {
        let mut list = match self.user_hold_file_list.remove(&acc) {
            Some(list) => list,
            None => List::new(),
        };
        list.push(UserFileSliceInfo { file_hash, file_size });
        self.user_hold_file_list.insert(acc, list);
        assert(self@ =~= old(self)@.with_held(acc, list@));
    }

    /// The lease of `acc` as it would be with `size` fewer bytes in use.
    pub(crate) fn check_debit(&self, acc: AccountId, size: u128) -> (r: Result<
        PackageDetails,
        Error,
    >)
        requires
            self.wf(),
        ensures
            r == self@.debit_outcome(acc, size),
            r matches Ok(p) ==> p.balanced() && 1 <= p.package_type <= 5,
    {
        match self.purchased_package.get(&acc) {
            Some(lease) => lease.debit(size),
            None => Err(Error::NotPurchased),
        }
    }

    /// Takes the entries of the file `hash` out of the index of `acc`.
    pub(crate) fn drop_held(&mut self, acc: AccountId, hash: &Vec<u8>)
        requires
            old(self).wf(),
        ensures
            final(self).wf(),
            final(self)@ == if old(self)@.held.contains_key(acc) {
                old(self)@.with_held(acc, held_without(old(self)@.held_by(acc), hash@))
            } else {
                old(self)@
            },
    {
        let mut list = match self.user_hold_file_list.remove(&acc) {
            Some(list) => list,
            None => {
                return ;
            },
        };
        let ghost before = list@;
        let ghost keep = |e: UserFileSliceInfoView| e.file_hash != hash@;
        assert(before == old(self)@.held[acc]);
        let ghost mut k: int = 0;
        let mut i: usize = 0;
        while i < list.len()
            invariant
                0 <= i <= k <= before.len(),
                i <= list@.len(),
                list@.len() - i == before.len() - k,
                list@.take(i as int) == before.take(k).filter(keep),
                list@.skip(i as int) == before.skip(k),
                keep == |e: UserFileSliceInfoView| e.file_hash != hash@,
            decreases list@.len() - i,
        {
            let ghost current = list@;
            proof {
                lemma_filter_step(before, keep, k);
                assert(current[i as int] == current.skip(i as int)[0]);
            }
            let same = bytes_eq(&list.get(i).file_hash, hash);
            if same {
                list.remove(i);
                proof {
                    assert(list@.skip(i as int) =~= current.skip(i as int).skip(1));
                    k = k + 1;
                }
            } else {
                proof {
                    assert(current.skip(i + 1) =~= current.skip(i as int).skip(1));
                    k = k + 1;
                }
                i = i + 1;
            }
        }
        proof {
            assert(list@.take(i as int) =~= list@);
            assert(before.take(k) =~= before);
            let limit = self.config.string_limit;
            lemma_filter_keeps(
                before,
                keep,
                |e: UserFileSliceInfoView| e.file_hash.len() <= limit,
            );
        }
        self.user_hold_file_list.insert(acc, list);
        assert(self@ =~= old(self)@.with_held(acc, list@));
    }

    /// Adds the file `file_hash` of `file_size` bytes to the index of the files
    /// that `user` holds. Fails with `Overflow` where the hash is longer than
    /// the ledger stores, and with `StorageLimitReached` where the index is
    /// full.
    pub fn add_user_hold_fileslice(
        &mut self,
        user: AccountId,
        file_hash: Vec<u8>,
        file_size: u64,
    ) -> (r: Result<(), Error>)
        requires
            old(self).wf(),
        ensures
            final(self).wf(),
            match r {
                Ok(()) => {
                    &&& file_hash@.len() <= old(self)@.config.string_limit
                    &&& old(self)@.held_by(user).len() < old(self)@.config.item_limit
                    &&& final(self)@ == old(self)@.with_held(
                        user,
                        old(self)@.held_by(user).push(
                            UserFileSliceInfoView { file_hash: file_hash@, file_size },
                        ),
                    )
                },
                Err(e) => {
                    &&& final(self).tables() == old(self).tables()
                    &&& if file_hash@.len() > old(self)@.config.string_limit {
                        e == Error::Overflow
                    } else {
                        e == Error::StorageLimitReached && old(self)@.held_by(user).len()
                            >= old(self)@.config.item_limit
                    }
                },
            },
    {
        if file_hash.len() > self.config.string_limit as usize {
            return Err(Error::Overflow);
        }
        if self.held_len(user) >= self.config.item_limit as usize {
            return Err(Error::StorageLimitReached);
        }
        self.push_held(user, file_hash, file_size);
        Ok(())
    }

    /// Records that `sender` declares the file `file_hash` under the name
    /// `file_name`.
    ///
    /// A hash that the ledger does not know gets a new record, with `sender`
    /// as its one owner. A hash that it knows gets `sender` as one more owner,
    /// and the size of the file is booked on the lease of `sender`. Fails, and
    /// leaves the ledger as it was, as [`PalletView::declaration_error`] says:
    /// with `Overflow` where hash or name are longer than the ledger stores,
    /// `AlreadyDeclared` where `sender` owns the file, the error of the lease
    /// where the size cannot be booked, and `StorageLimitReached` where the
    /// index of `sender` or the list of owners is full.
    pub fn upload_declaration(
        &mut self,
        sender: AccountId,
        file_hash: Vec<u8>,
        file_name: Vec<u8>,
    ) -> (r: Result<Vec<Effect>, Error>)
        requires
            old(self).wf(),
        ensures
            final(self).wf(),
            match r {
                Ok(effects) => {
                    &&& old(self)@.declaration_error(sender, file_hash@, file_name@) is None
                    &&& final(self)@ == old(self)@.after_declaration(sender, file_hash@, file_name@)
                    &&& effects_view(effects@) == seq![
                        EffectView::Deposit(
                            EventView::UploadDeclaration {
                                acc: sender,
                                file_hash: file_hash@,
                                file_name: file_name@,
                            },
                        ),
                    ]
                },
                Err(e) => {
                    &&& old(self)@.declaration_error(sender, file_hash@, file_name@) == Some(e)
                    &&& final(self).tables() == old(self).tables()
                },
            },
    {
        let limit = self.config.string_limit as usize;
        if file_hash.len() > limit || file_name.len() > limit {
            return Err(Error::Overflow);
        }
        let notice = Event::UploadDeclaration {
            acc: sender,
            file_hash: copy_bytes(&file_hash),
            file_name: copy_bytes(&file_name),
        };
        let known = match self.file.get(&file_hash) {
            Some(info) => Some((info.user.contains(&sender), info.file_size, info.user.len())),
            None => None,
        };
        match known {
            Some((owns, file_size, owners)) => {
                if owns {
                    return Err(Error::AlreadyDeclared);
                }
                let lease = match self.check_credit(sender, file_size as u128) {
                    Ok(lease) => lease,
                    Err(e) => {
                        return Err(e);
                    },
                };
                if self.held_len(sender) >= self.config.item_limit as usize {
                    return Err(Error::StorageLimitReached);
                }
                if owners >= limit {
                    return Err(Error::StorageLimitReached);
                }
                self.purchased_package.insert(sender, lease);
                proof {
                    lemma_with_lease_wf(old(self)@, sender, lease);
                }
                self.push_held(sender, copy_bytes(&file_hash), file_size);
                let mut info = self.file.remove(&file_hash).unwrap();
                info.user.push(sender);
                info.file_name.push(file_name);
                self.file.insert(file_hash, info);
            },
            None => {
                if limit < 1 {
                    return Err(Error::BoundedVecError);
                }
                let mut user: List<AccountId> = List::new();
                user.push(sender);
                let mut names: List<Vec<u8>> = List::new();
                names.push(file_name);
                let info = FileInfo {
                    file_size: 0,
                    block_num: 0,
                    scan_size: 0,
                    segment_size: 0,
                    miner_acc: sender,
                    miner_id: 0,
                    miner_ip: Vec::new(),
                    user,
                    file_name: names,
                    file_state: FileState::Declared,
                };
                self.file.insert(file_hash, info);
            },
        }
        let mut effects: Vec<Effect> = Vec::new();
        effects.push(Effect::Deposit(notice));
        Ok(effects)
    }

    /// Records that the coordinator `sender` has stored the file `file_hash`
    /// of `file_size` bytes on the miner `miner_acc` for the owner `user`.
    /// `capacity` is what the capacity accounts report of the miner once the
    /// file has been added to its space.
    ///
    /// Fails, and leaves the ledger as it was, as [`PalletView::upload_error`]
    /// says: with `UnauthorizedCoordinator` where `sender` is no coordinator,
    /// `FileNotFound` where the file was not declared, `NotDeclaredByAccount`
    /// where `user` is no owner, `AlreadyActive` where the file was uploaded
    /// before, the error of the lease where the size cannot be booked on the
    /// lease of `user`, `Overflow` where the address of the miner is longer
    /// than the ledger stores, `StorageLimitReached` where the index of `user`
    /// is full, and else the error of the replacement of fillers.
    pub fn upload<S: ScheduleFind>(
        &mut self,
        scheduler: &S,
        sender: AccountId,
        file_hash: Vec<u8>,
        file_size: u64,
        block_num: u32,
        scan_size: u32,
        segment_size: u32,
        miner_acc: AccountId,
        miner_id: u64,
        miner_ip: Vec<u8>,
        user: AccountId,
        capacity: MinerCapacity,
    ) -> (r: Result<Vec<Effect>, Error>)
        requires
            old(self).wf(),
            scheduler.ready(),
        ensures
            final(self).wf(),
            match r {
                Ok(effects) => {
                    &&& old(self)@.upload_error(
                        scheduler.is_scheduler(sender),
                        file_hash@,
                        file_size,
                        miner_acc,
                        miner_ip@,
                        user,
                        capacity,
                    ) is None
                    &&& final(self)@ == old(self)@.after_upload(
                        file_hash@,
                        stored_file(
                            old(self)@.files[file_hash@],
                            file_size,
                            block_num,
                            scan_size,
                            segment_size,
                            miner_acc,
                            miner_id,
                            miner_ip@,
                        ),
                        user,
                    )
                    &&& effects@ == seq![Effect::Deposit(Event::FileUpload { acc: user })]
                },
                Err(e) => {
                    &&& old(self)@.upload_error(
                        scheduler.is_scheduler(sender),
                        file_hash@,
                        file_size,
                        miner_acc,
                        miner_ip@,
                        user,
                        capacity,
                    ) == Some(e)
                    &&& final(self).tables() == old(self).tables()
                },
            },
    {
        if let Err(e) = ensure_coordinator(scheduler, sender) {
            return Err(e);
        }
        let (owns, active) = match self.file.get(&file_hash) {
            Some(info) => (
                info.user.contains(&user),
                match info.file_state {
                    FileState::Active => true,
                    FileState::Declared => false,
                },
            ),
            None => {
                return Err(Error::FileNotFound);
            },
        };
        if !owns {
            return Err(Error::NotDeclaredByAccount);
        }
        if active {
            return Err(Error::AlreadyActive);
        }
        let lease = match self.check_credit(user, file_size as u128) {
            Ok(lease) => lease,
            Err(e) => {
                return Err(e);
            },
        };
        if miner_ip.len() > self.config.string_limit as usize {
            return Err(Error::Overflow);
        }
        if self.held_len(user) >= self.config.item_limit as usize {
            return Err(Error::StorageLimitReached);
        }
        let n = match self.check_replacement(miner_acc, file_size, capacity) {
            Ok(n) => n,
            Err(e) => {
                return Err(e);
            },
        };
        self.purchased_package.insert(user, lease);
        let mut info = self.file.remove(&file_hash).unwrap();
        info.file_size = file_size;
        info.block_num = block_num;
        info.scan_size = scan_size;
        info.segment_size = segment_size;
        info.miner_acc = miner_acc;
        info.miner_id = miner_id;
        info.miner_ip = miner_ip;
        info.file_state = FileState::Active;
        let held_hash = copy_bytes(&file_hash);
        self.file.insert(file_hash, info);
        self.push_held(user, held_hash, file_size);
        if n > 0 {
            self.consume_fillers(miner_acc, n);
        }
        let mut effects: Vec<Effect> = Vec::new();
        effects.push(Effect::Deposit(Event::FileUpload { acc: user }));
        Ok(effects)
    }

    /// Takes `user` from the owners of the file `file_hash` and leaves the
    /// lease of `user` alone.
    ///
    /// Fails, and leaves the ledger as it was, as [`PalletView::leave_error`]
    /// says: with `FileNotFound` where the ledger does not know the file,
    /// `NotOwner` where `user` does not own it, and `StorageLimitReached`
    /// where the file has no other owner and the list of what its miner has
    /// to purge is full. The effects say what the capacity accounts are to
    /// take from the miner.
    pub fn release_file(&mut self, file_hash: &Vec<u8>, user: AccountId) -> (r: Result<
        Vec<Effect>,
        Error,
    >)
        requires
            old(self).wf(),
        ensures
            final(self).wf(),
            match r {
                Ok(effects) => {
                    &&& old(self)@.leave_error(user, file_hash@) is None
                    &&& final(self)@ == old(self)@.after_leave(user, file_hash@)
                    &&& effects@ == release_effects(old(self)@.files[file_hash@])
                },
                Err(e) => {
                    &&& old(self)@.leave_error(user, file_hash@) == Some(e)
                    &&& final(self).tables() == old(self).tables()
                },
            },
    {
        let (owner_at, file_size, owners, miner) = match self.file.get(file_hash) {
            Some(info) => (
                info.user.position(&user),
                info.file_size,
                info.user.len(),
                info.miner_acc,
            ),
            None => {
                return Err(Error::FileNotFound);
            },
        };
        let at = match owner_at {
            Some(i) => i,
            None => {
                return Err(Error::NotOwner);
            },
        };
        if owners <= 1 && self.outbox_len(miner) >= self.config.string_limit as usize {
            return Err(Error::StorageLimitReached);
        }
        let mut info = self.file.remove(file_hash).unwrap();
        proof {
            lemma_without_file_wf(old(self)@, file_hash@);
        }
        let mut effects: Vec<Effect> = Vec::new();
        if owners > 1 {
            info.user.remove(at);
            info.file_name.remove(at);
            self.file.insert(copy_bytes(file_hash), info);
        } else {
            self.push_outbox(miner, copy_bytes(file_hash));
            effects.push(Effect::SubPower { miner, amount: file_size as u128 });
            effects.push(Effect::SubSpace { miner, amount: file_size as u128 });
        }
        self.drop_held(user, file_hash);
        Ok(effects)
    }

    /// Takes `user` from the owners of the file `file_hash`, and the size of
    /// the file from the lease of `user`.
    ///
    /// Fails, and leaves the ledger as it was, as
    /// [`PalletView::deletion_error`] says: with `FileNotFound` where the
    /// ledger does not know the file, `NotOwner` where `user` does not own it,
    /// the error of the lease where the size cannot be taken from the lease of
    /// `user`, and `StorageLimitReached` where the file has no other owner and
    /// the list of what its miner has to purge is full. The effects say what
    /// the capacity accounts are to take from the miner.
    pub fn clear_user_file(&mut self, file_hash: &Vec<u8>, user: AccountId) -> (r: Result<
        Vec<Effect>,
        Error,
    >)
        requires
            old(self).wf(),
        ensures
            final(self).wf(),
            match r {
                Ok(effects) => {
                    &&& old(self)@.deletion_error(user, file_hash@) is None
                    &&& final(self)@ == old(self)@.after_deletion(user, file_hash@)
                    &&& effects@ == release_effects(old(self)@.files[file_hash@])
                },
                Err(e) => {
                    &&& old(self)@.deletion_error(user, file_hash@) == Some(e)
                    &&& final(self).tables() == old(self).tables()
                },
            },
    {
        let (owned, file_size, owners, miner) = match self.file.get(file_hash) {
            Some(info) => (
                info.user.contains(&user),
                info.file_size,
                info.user.len(),
                info.miner_acc,
            ),
            None => {
                return Err(Error::FileNotFound);
            },
        };
        if !owned {
            return Err(Error::NotOwner);
        }
        let lease = match self.check_debit(user, file_size as u128) {
            Ok(lease) => lease,
            Err(e) => {
                return Err(e);
            },
        };
        if owners <= 1 && self.outbox_len(miner) >= self.config.string_limit as usize {
            return Err(Error::StorageLimitReached);
        }
        self.purchased_package.insert(user, lease);
        proof {
            lemma_with_lease_wf(old(self)@, user, lease);
        }
        self.release_file(file_hash, user)
    }

    /// Records that `sender` gives up the file `fileid`: see
    /// [`Pallet::clear_user_file`]. The last effect is the notice of the
    /// deletion, with the hash of the file.
    pub fn delete_file(&mut self, sender: AccountId, fileid: Vec<u8>) -> (r: Result<
        Vec<Effect>,
        Error,
    >)
        requires
            old(self).wf(),
        ensures
            final(self).wf(),
            match r {
                Ok(effects) => {
                    &&& old(self)@.deletion_error(sender, fileid@) is None
                    &&& final(self)@ == old(self)@.after_deletion(sender, fileid@)
                    &&& effects_view(effects@) == effects_view(
                        release_effects(old(self)@.files[fileid@]),
                    ).push(
                        EffectView::Deposit(EventView::DeleteFile { acc: sender, fileid: fileid@ }),
                    )
                },
                Err(e) => {
                    &&& old(self)@.deletion_error(sender, fileid@) == Some(e)
                    &&& final(self).tables() == old(self).tables()
                },
            },
    {
        match self.clear_user_file(&fileid, sender) {
            Ok(effects) => {
                let mut effects = effects;
                effects.push(Effect::Deposit(Event::DeleteFile { acc: sender, fileid }));
                Ok(effects)
            },
            Err(e) => Err(e),
        }
    }

    /// Takes the file `file_hash` out of the ledger, whoever owns it. Fails
    /// with `BoundedVecError` where the hash is longer than the ledger stores,
    /// and with `FileNotFound` where the ledger does not know the file.
    pub fn clear_file(&mut self, file_hash: Vec<u8>) -> (r: Result<(), Error>)
        requires
            old(self).wf(),
        ensures
            final(self).wf(),
            match r {
                Ok(()) => {
                    &&& file_hash@.len() <= old(self)@.config.string_limit
                    &&& old(self)@.files.contains_key(file_hash@)
                    &&& final(self)@ == old(self)@.without_file(file_hash@)
                },
                Err(e) => {
                    &&& final(self).tables() == old(self).tables()
                    &&& if file_hash@.len() > old(self)@.config.string_limit {
                        e == Error::BoundedVecError
                    } else {
                        e == Error::FileNotFound && !old(self)@.files.contains_key(file_hash@)
                    }
                },
            },
    {
        if file_hash.len() > self.config.string_limit as usize {
            return Err(Error::BoundedVecError);
        }
        if !self.file.contains_key(&file_hash) {
            return Err(Error::FileNotFound);
        }
        self.file.remove(&file_hash);
        proof {
            lemma_without_file_wf(old(self)@, file_hash@);
        }
        Ok(())
    }
}

} // verus!

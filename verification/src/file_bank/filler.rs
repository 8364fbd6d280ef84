//! The fillers with which miners prove idle capacity, and how a stored file
//! takes their place.

use vstd::prelude::*;
use crate::bytes::bytes_eq;
use crate::duplicate::Duplicate;
use crate::file_bank::{
    all_short, fillers_within, lemma_with_fillers_wf, lemma_without_fillers_wf, Pallet,
    PalletView,
};
use crate::file_bank::registry::ensure_coordinator;
use crate::list::List;
use crate::ordered_map::{has_key, sorted, to_map, OrderedMap};
use crate::tee_worker::ScheduleFind;
use crate::types::{
    AccountId, Effect, Error, Event, FillerInfo, FillerInfoView, MinerCapacity, M_BYTE,
};

verus! {

/// The most fillers that one call may bring.
pub const MAX_BATCH: usize = 10;

/// The capacity that one filler proves, in bytes.
pub const FILLER_POWER: u128 = 8 * M_BYTE;

/// The bytes of a file that one filler makes room for.
pub const REPLACE_UNIT: u128 = 8 * M_BYTE;

/// The state of a miner in good standing, as the capacity accounts write it:
/// the text "positive".
pub open spec fn positive_state() -> Seq<u8> {
    seq![112u8, 111u8, 115u8, 105u8, 116u8, 105u8, 118u8, 101u8]
}

/// The state of a miner that has left, as the capacity accounts write it: the
/// text "exit".
pub open spec fn exit_state() -> Seq<u8> {
    seq![101u8, 120u8, 105u8, 116u8]
}

/// Whether `state` is the text "positive".
pub fn is_positive(state: &Vec<u8>) -> (yes: bool)
    ensures
        yes == (state@ == positive_state()),
{
    let yes = state.len() == 8 && state[0] == 112 && state[1] == 111 && state[2] == 115
        && state[3] == 105 && state[4] == 116 && state[5] == 105 && state[6] == 118 && state[7]
        == 101;
    assert(yes ==> state@ =~= positive_state());
    yes
}

/// Whether `state` is the text "exit".
pub fn is_exit(state: &Vec<u8>) -> (yes: bool)
    ensures
        yes == (state@ == exit_state()),
{
    let yes = state.len() == 4 && state[0] == 101 && state[1] == 120 && state[2] == 105
        && state[3] == 116;
    assert(yes ==> state@ =~= exit_state());
    yes
}

/// The fillers of a batch by their views.
pub open spec fn batch_view(list: Seq<FillerInfo>) -> Seq<FillerInfoView> {
    list.map_values(|f: FillerInfo| f@)
}

/// No filler of the batch has an identifier of more than `limit` bytes.
pub open spec fn batch_short(list: Seq<FillerInfoView>, limit: u32) -> bool {
    forall|i: int| 0 <= i < list.len() ==> (#[trigger] list[i]).filler_id.len() <= limit
}

/// No two fillers of the batch share an identifier, and none has the
/// identifier of a filler in `existing`.
pub open spec fn batch_fresh(
    existing: Seq<(Seq<u8>, FillerInfoView)>,
    list: Seq<FillerInfoView>,
) -> bool {
    &&& forall|i: int, j: int| 0 <= i < j < list.len() ==> list[i].filler_id != list[j].filler_id
    &&& forall|i: int| 0 <= i < list.len() ==> !has_key(existing, (#[trigger] list[i]).filler_id)
}

/// `existing` with each filler of the batch under its identifier.
pub open spec fn with_batch(
    existing: Map<Seq<u8>, FillerInfoView>,
    list: Seq<FillerInfoView>,
) -> Map<Seq<u8>, FillerInfoView>
    decreases list.len(),
{
    if list.len() == 0 {
        existing
    } else {
        with_batch(existing, list.drop_last()).insert(list.last().filler_id, list.last())
    }
}

/// The fillers that a file of `file_size` bytes takes the place of: one for
/// each [`REPLACE_UNIT`] bytes or part of it, and one more.
pub open spec fn replace_count(file_size: u64) -> int {
    (file_size + REPLACE_UNIT - 1) / (REPLACE_UNIT as int) + 1
}

/// The identifiers of `fillers`, in their order.
pub open spec fn ids_of(fillers: Seq<(Seq<u8>, FillerInfoView)>) -> Seq<Seq<u8>> {
    fillers.map_values(|e: (Seq<u8>, FillerInfoView)| e.0)
}

impl PalletView {
    /// Why the batch of a sender cannot be recorded whatever the state of its
    /// miner is, if it cannot.
    pub open spec fn batch_error(self, authorized: bool, list: Seq<FillerInfoView>) -> Option<
        Error,
    > {
        if list.len() > MAX_BATCH {
            Some(Error::LengthExceedsLimit)
        } else if !batch_short(list, self.config.string_limit) {
            Some(Error::Overflow)
        } else if !authorized {
            Some(Error::UnauthorizedCoordinator)
        } else {
            None
        }
    }

    /// Why the coordinator `sender` cannot record the batch for `miner`, if it
    /// cannot.
    pub open spec fn filler_upload_error(
        self,
        authorized: bool,
        miner: AccountId,
        list: Seq<FillerInfoView>,
        miner_state: Seq<u8>,
    ) -> Option<Error> {
        if self.batch_error(authorized, list) is Some {
            self.batch_error(authorized, list)
        } else if miner_state != positive_state() {
            Some(Error::NotQualifiedMiner)
        } else if !batch_fresh(self.fillers_of(miner), list) {
            Some(Error::AlreadyExists)
        } else {
            None
        }
    }

    /// The number of fillers of `miner` that a file of `file_size` bytes
    /// consumes: [`replace_count`] of them, or all that the miner has.
    pub open spec fn consumed(self, miner: AccountId, file_size: u64) -> int {
        if replace_count(file_size) <= self.fillers_of(miner).len() {
            replace_count(file_size)
        } else {
            self.fillers_of(miner).len() as int
        }
    }

    /// Why a file of `file_size` bytes cannot take the place of fillers of
    /// `miner`, if it cannot, where the capacity accounts report `capacity` of
    /// the miner with the file added to its space. The slack of the miner is
    /// what it has proved less what its files use; a slack smaller than the
    /// file, and so every slack below nothing, is `MinerPowerInsufficient`.
    pub open spec fn replacement_error(
        self,
        miner: AccountId,
        file_size: u64,
        capacity: MinerCapacity,
    ) -> Option<Error> {
        if capacity.power - capacity.space < file_size {
            Some(Error::MinerPowerInsufficient)
        } else if self.outbox_of(miner).len() + self.consumed(miner, file_size)
            > self.config.string_limit {
            Some(Error::StorageLimitReached)
        } else {
            None
        }
    }

    /// This ledger after a file of `file_size` bytes took the place of fillers
    /// of `miner`: the first fillers of the miner, in the order of their
    /// identifiers, are gone, and their identifiers stand at the end of what
    /// the miner has to purge. A miner without fillers changes nothing.
    pub open spec fn after_replacement(self, miner: AccountId, file_size: u64) -> PalletView {
        let n = self.consumed(miner, file_size);
        if n == 0 {
            self
        } else {
            self.with_fillers(miner, self.fillers_of(miner).skip(n)).with_outbox(
                miner,
                self.outbox_of(miner) + ids_of(self.fillers_of(miner).take(n)),
            )
        }
    }
}

impl Pallet {
    /// The filler `filler_id` of `miner`, if the ledger has it.
    pub fn filler_map(&self, miner: AccountId, filler_id: &Vec<u8>) -> (r: Option<FillerInfo>)
        requires
            self.wf(),
        ensures
            match r {
                Some(info) => has_key(self@.fillers_of(miner), filler_id@) && to_map(
                    self@.fillers_of(miner),
                )[filler_id@] == info@,
                None => !has_key(self@.fillers_of(miner), filler_id@),
            },
    {
        match self.filler_map.get(&miner) {
            Some(fillers) => {
                assert(self@.fillers.contains_key(miner));
                match fillers.get(filler_id) {
                    Some(info) => Some(info.duplicate()),
                    None => None,
                }
            },
            None => None,
        }
    }

    /// The number of fillers that `miner` has.
    pub(crate) fn filler_count(&self, miner: AccountId) -> (n: usize)
        requires
            self.wf(),
        ensures
            n == self@.fillers_of(miner).len(),
    {
        match self.filler_map.get(&miner) {
            Some(fillers) => fillers.len(),
            None => 0,
        }
    }

    /// Whether the ledger can store the identifier of every filler of the
    /// batch.
    fn batch_is_short(&self, filler_list: &Vec<FillerInfo>) -> (short: bool)
        ensures
            short == batch_short(batch_view(filler_list@), self@.config.string_limit),
    {
        let ghost list = batch_view(filler_list@);
        let mut i: usize = 0;
        while i < filler_list.len()
            invariant
                i <= filler_list@.len(),
                list == batch_view(filler_list@),
                forall|a: int|
                    0 <= a < i ==> (#[trigger] list[a]).filler_id.len()
                        <= self@.config.string_limit,
            decreases filler_list@.len() - i,
        {
            assert(list[i as int] == filler_list@[i as int]@);
            if filler_list[i].filler_id.len() > self.config.string_limit as usize {
                return false;
            }
            i = i + 1;
        }
        true
    }

    /// Whether the fillers of the batch have identifiers that differ from each
    /// other and from those of the fillers that `miner` has.
    fn batch_is_fresh(&self, miner: AccountId, filler_list: &Vec<FillerInfo>) -> (fresh: bool)
        requires
            self.wf(),
        ensures
            fresh == batch_fresh(self@.fillers_of(miner), batch_view(filler_list@)),
    {
        let ghost list = batch_view(filler_list@);
        let ghost existing = self@.fillers_of(miner);
        let existing_fillers = self.filler_map.get(&miner);
        let mut i: usize = 0;
        while i < filler_list.len()
            invariant
                self.wf(),
                i <= filler_list@.len(),
                list == batch_view(filler_list@),
                existing == self@.fillers_of(miner),
                match existing_fillers {
                    Some(fillers) => fillers@ == existing && fillers.wf(),
                    None => existing.len() == 0,
                },
                forall|a: int, b: int| 0 <= a < b < i ==> list[a].filler_id != list[b].filler_id,
                forall|a: int| 0 <= a < i ==> !has_key(existing, (#[trigger] list[a]).filler_id),
            decreases filler_list@.len() - i,
        {
            assert(list[i as int] == filler_list@[i as int]@);
            let present = match existing_fillers {
                Some(fillers) => fillers.contains_key(&filler_list[i].filler_id),
                None => false,
            };
            if present {
                return false;
            }
            let mut j: usize = 0;
            while j < i
                invariant
                    j <= i < filler_list@.len(),
                    list == batch_view(filler_list@),
                    forall|a: int| 0 <= a < j ==> list[a].filler_id != list[i as int].filler_id,
                decreases i - j,
            {
                assert(list[j as int] == filler_list@[j as int]@);
                assert(list[i as int] == filler_list@[i as int]@);
                if bytes_eq(&filler_list[j].filler_id, &filler_list[i].filler_id) {
                    return false;
                }
                j = j + 1;
            }
            i = i + 1;
        }
        true
    }

    /// Records the fillers of the batch under `miner`, each under its
    /// identifier. The identifiers are fresh.
    fn insert_batch(&mut self, miner: AccountId, filler_list: &Vec<FillerInfo>)
        requires
            old(self).wf(),
            batch_short(batch_view(filler_list@), old(self)@.config.string_limit),
            batch_fresh(old(self)@.fillers_of(miner), batch_view(filler_list@)),
        ensures
            final(self).wf(),
            final(self)@ == old(self)@.with_fillers(miner, final(self)@.fillers_of(miner)),
            to_map(final(self)@.fillers_of(miner)) == with_batch(
                to_map(old(self)@.fillers_of(miner)),
                batch_view(filler_list@),
            ),
    {
        let ghost list = batch_view(filler_list@);
        let ghost existing = to_map(self@.fillers_of(miner));
        let mut fillers = match self.filler_map.remove(&miner) {
            Some(fillers) => fillers,
            None => OrderedMap::new(),
        };
        let mut i: usize = 0;
        while i < filler_list.len()
            invariant
                i <= filler_list@.len(),
                list == batch_view(filler_list@),
                fillers.wf(),
                fillers.map() == with_batch(existing, list.take(i as int)),
                batch_short(list, self.config.string_limit),
                fillers_within(fillers@, self.config.string_limit),
            decreases filler_list@.len() - i,
        {
            let info = filler_list[i].duplicate();
            let id = filler_list[i].filler_id.duplicate();
            proof {
                assert(list.take(i + 1).drop_last() =~= list.take(i as int));
            }
            fillers.insert(id, info);
            i = i + 1;
        }
        assert(list.take(list.len() as int) =~= list);
        self.filler_map.insert(miner, fillers);
        proof {
            lemma_with_fillers_wf(old(self)@, miner, fillers@);
        }
    }

    /// Examines a batch of fillers that `sender` brings, before the state of
    /// their miner is asked for. Fails with `LengthExceedsLimit` where the
    /// batch holds more than [`MAX_BATCH`] fillers, `Overflow` where an
    /// identifier of the batch is longer than the ledger stores, and
    /// `UnauthorizedCoordinator` where `sender` is no coordinator.
    pub fn check_filler_batch<S: ScheduleFind>(
        &self,
        scheduler: &S,
        sender: AccountId,
        filler_list: &Vec<FillerInfo>,
    ) -> (r: Result<(), Error>)
        requires
            scheduler.ready(),
        ensures
            match r {
                Ok(()) => self@.batch_error(
                    scheduler.is_scheduler(sender),
                    batch_view(filler_list@),
                ) is None,
                Err(e) => self@.batch_error(
                    scheduler.is_scheduler(sender),
                    batch_view(filler_list@),
                ) == Some(e),
            },
    {
        if filler_list.len() > MAX_BATCH {
            return Err(Error::LengthExceedsLimit);
        }
        if !self.batch_is_short(filler_list) {
            return Err(Error::Overflow);
        }
        ensure_coordinator(scheduler, sender)
    }

    /// Records a batch of fillers that the coordinator `sender` has placed on
    /// `miner`, whose state the capacity accounts give as `miner_state`.
    ///
    /// Fails with `LengthExceedsLimit` where the batch holds more than
    /// [`MAX_BATCH`] fillers, `Overflow` where an identifier of the batch is
    /// longer than the ledger stores, `UnauthorizedCoordinator` where `sender`
    /// is no coordinator, `NotQualifiedMiner` where the miner is not in good
    /// standing, and `AlreadyExists` where an identifier of the batch is taken
    /// or occurs twice. On success the miner is to be credited with
    /// [`FILLER_POWER`] bytes of capacity for each filler.
    pub fn upload_filler<S: ScheduleFind>(
        &mut self,
        scheduler: &S,
        sender: AccountId,
        miner: AccountId,
        filler_list: Vec<FillerInfo>,
        miner_state: &Vec<u8>,
    ) -> (r: Result<Vec<Effect>, Error>)
        requires
            old(self).wf(),
            scheduler.ready(),
        ensures
            final(self).wf(),
            match r {
                Ok(effects) => {
                    &&& old(self)@.filler_upload_error(
                        scheduler.is_scheduler(sender),
                        miner,
                        batch_view(filler_list@),
                        miner_state@,
                    ) is None
                    &&& final(self)@ == old(self)@.with_fillers(
                        miner,
                        final(self)@.fillers_of(miner),
                    )
                    &&& sorted::<Vec<u8>, FillerInfoView>(final(self)@.fillers_of(miner))
                    &&& to_map(final(self)@.fillers_of(miner)) == with_batch(
                        to_map(old(self)@.fillers_of(miner)),
                        batch_view(filler_list@),
                    )
                    &&& effects@ == seq![
                        Effect::AddPower {
                            miner,
                            amount: (FILLER_POWER * filler_list@.len()) as u128,
                        },
                        Effect::Deposit(
                            Event::FillerUpload {
                                acc: sender,
                                file_size: (FILLER_POWER * filler_list@.len()) as u64,
                            },
                        ),
                    ]
                },
                Err(e) => {
                    &&& old(self)@.filler_upload_error(
                        scheduler.is_scheduler(sender),
                        miner,
                        batch_view(filler_list@),
                        miner_state@,
                    ) == Some(e)
                    &&& final(self).tables() == old(self).tables()
                },
            },
    {
        if let Err(e) = self.check_filler_batch(scheduler, sender, &filler_list) {
            return Err(e);
        }
        if !is_positive(miner_state) {
            return Err(Error::NotQualifiedMiner);
        }
        if !self.batch_is_fresh(miner, &filler_list) {
            return Err(Error::AlreadyExists);
        }
        self.insert_batch(miner, &filler_list);
        let power: u128 = FILLER_POWER * (filler_list.len() as u128);
        let mut effects: Vec<Effect> = Vec::new();
        effects.push(Effect::AddPower { miner, amount: power });
        effects.push(Effect::Deposit(Event::FillerUpload { acc: sender, file_size: power as u64 }));
        Ok(effects)
    }

    /// The number of fillers of `miner_acc` that a file of `file_size` bytes
    /// would consume, or why it cannot take their place.
    pub(crate) fn check_replacement(
        &self,
        miner_acc: AccountId,
        file_size: u64,
        capacity: MinerCapacity,
    ) -> (r: Result<usize, Error>)
        requires
            self.wf(),
        ensures
            match r {
                Ok(n) => self@.replacement_error(miner_acc, file_size, capacity) is None && n
                    == self@.consumed(miner_acc, file_size),
                Err(e) => self@.replacement_error(miner_acc, file_size, capacity) == Some(e),
            },
    {
        if capacity.power < capacity.space || capacity.power - capacity.space < file_size as u128 {
            return Err(Error::MinerPowerInsufficient);
        }
        let need: u128 = (file_size as u128 + REPLACE_UNIT - 1) / REPLACE_UNIT + 1;
        let have = self.filler_count(miner_acc);
        let n: usize = if need <= have as u128 {
            need as usize
        } else {
            have
        };
        let pending = self.outbox_len(miner_acc);
        let limit = self.config.string_limit as usize;
        if pending > limit || n > limit - pending {
            return Err(Error::StorageLimitReached);
        }
        Ok(n)
    }

    /// Takes the first `n` fillers of `miner` out of the ledger and appends
    /// their identifiers to what the miner has to purge, where that list has
    /// room for them.
    pub(crate) fn consume_fillers(&mut self, miner: AccountId, n: usize)
        requires
            old(self).wf(),
            0 < n <= old(self)@.fillers_of(miner).len(),
            old(self)@.outbox_of(miner).len() + n <= old(self)@.config.string_limit,
        ensures
            final(self).wf(),
            final(self)@ == old(self)@.with_fillers(
                miner,
                old(self)@.fillers_of(miner).skip(n as int),
            ).with_outbox(
                miner,
                old(self)@.outbox_of(miner) + ids_of(old(self)@.fillers_of(miner).take(n as int)),
            ),
    {
        let ghost all = self@.fillers_of(miner);
        let ghost pending = self@.outbox_of(miner);
        let mut fillers = self.filler_map.remove(&miner).unwrap();
        let mut list = match self.invalid_file.remove(&miner) {
            Some(list) => list,
            None => List::new(),
        };
        let mut k: usize = 0;
        while k < n
            invariant
                k <= n <= all.len(),
                fillers.wf(),
                fillers@ == all.skip(k as int),
                list@ == pending + ids_of(all.take(k as int)),
                fillers_within(all, self.config.string_limit),
                all_short(pending, self.config.string_limit),
                all_short(list@, self.config.string_limit),
            decreases n - k,
        {
            let entry = fillers.remove_at(0);
            list.push(entry.0);
            k = k + 1;
        }
        self.filler_map.insert(miner, fillers);
        self.invalid_file.insert(miner, list);
        proof {
            lemma_with_fillers_wf(old(self)@, miner, fillers@);
        }
    }

    /// Lets a file of `file_size` bytes that was stored on `miner_acc` take the
    /// place of fillers of that miner. `capacity` is what the capacity accounts
    /// report of the miner once the file has been added to its space.
    ///
    /// Fails with `MinerPowerInsufficient` where the slack of the miner, which
    /// is what it has proved less what its files use, is smaller than the file,
    /// and with `StorageLimitReached` where the list of what the miner has to
    /// purge cannot take the fillers that go.
    pub fn replace_file(
        &mut self,
        miner_acc: AccountId,
        file_size: u64,
        capacity: MinerCapacity,
    ) -> (r: Result<(), Error>)
        requires
            old(self).wf(),
        ensures
            final(self).wf(),
            match r {
                Ok(()) => {
                    &&& old(self)@.replacement_error(miner_acc, file_size, capacity) is None
                    &&& final(self)@ == old(self)@.after_replacement(miner_acc, file_size)
                },
                Err(e) => {
                    &&& old(self)@.replacement_error(miner_acc, file_size, capacity) == Some(e)
                    &&& final(self).tables() == old(self).tables()
                },
            },
    {
        let n = match self.check_replacement(miner_acc, file_size, capacity) {
            Ok(n) => n,
            Err(e) => {
                return Err(e);
            },
        };
        if n > 0 {
            self.consume_fillers(miner_acc, n);
        }
        Ok(())
    }

    /// Takes the filler `filler_id` of `miner_acc` out of the ledger. Fails
    /// with `BoundedVecError` where the identifier is longer than the ledger
    /// stores, and with `FileNotFound` where the miner has no such filler.
    pub fn delete_filler(&mut self, miner_acc: AccountId, filler_id: Vec<u8>) -> (r: Result<
        (),
        Error,
    >)
        requires
            old(self).wf(),
        ensures
            final(self).wf(),
            match r {
                Ok(()) => {
                    &&& filler_id@.len() <= old(self)@.config.string_limit
                    &&& has_key(old(self)@.fillers_of(miner_acc), filler_id@)
                    &&& final(self)@ == old(self)@.with_fillers(
                        miner_acc,
                        final(self)@.fillers_of(miner_acc),
                    )
                    &&& sorted::<Vec<u8>, FillerInfoView>(final(self)@.fillers_of(miner_acc))
                    &&& to_map(final(self)@.fillers_of(miner_acc)) == to_map(
                        old(self)@.fillers_of(miner_acc),
                    ).remove(filler_id@)
                },
                Err(e) => {
                    &&& final(self).tables() == old(self).tables()
                    &&& if filler_id@.len() > old(self)@.config.string_limit {
                        e == Error::BoundedVecError
                    } else {
                        e == Error::FileNotFound && !has_key(
                            old(self)@.fillers_of(miner_acc),
                            filler_id@,
                        )
                    }
                },
            },
    {
        if filler_id.len() > self.config.string_limit as usize {
            return Err(Error::BoundedVecError);
        }
        let present = match self.filler_map.get(&miner_acc) {
            Some(fillers) => {
                assert(self@.fillers.contains_key(miner_acc));
                fillers.contains_key(&filler_id)
            },
            None => false,
        };
        if !present {
            return Err(Error::FileNotFound);
        }
        let mut fillers = self.filler_map.remove(&miner_acc).unwrap();
        fillers.remove(&filler_id);
        self.filler_map.insert(miner_acc, fillers);
        proof {
            lemma_with_fillers_wf(old(self)@, miner_acc, fillers@);
        }
        Ok(())
    }

    /// Takes every filler of `miner_acc` out of the ledger.
    pub fn delete_miner_all_filler(&mut self, miner_acc: AccountId)
        requires
            old(self).wf(),
        ensures
            final(self).wf(),
            final(self)@ == old(self)@.without_fillers(miner_acc),
    {
        self.filler_map.remove(&miner_acc);
        proof {
            lemma_without_fillers_wf(old(self)@, miner_acc);
        }
    }

    /// Takes every filler of the miner `sender` out of the ledger, once the
    /// miner has left: the capacity accounts give its state as `miner_state`.
    /// Fails with `NotQualifiedMiner` where that is not "exit".
    pub fn clear_all_filler(&mut self, sender: AccountId, miner_state: &Vec<u8>) -> (r: Result<
        (),
        Error,
    >)
        requires
            old(self).wf(),
        ensures
            final(self).wf(),
            match r {
                Ok(()) => {
                    &&& miner_state@ == exit_state()
                    &&& final(self)@ == old(self)@.without_fillers(sender)
                },
                Err(e) => {
                    &&& e == Error::NotQualifiedMiner
                    &&& miner_state@ != exit_state()
                    &&& final(self).tables() == old(self).tables()
                },
            },
    {
        if !is_exit(miner_state) {
            return Err(Error::NotQualifiedMiner);
        }
        self.delete_miner_all_filler(sender);
        Ok(())
    }
}

} // verus!

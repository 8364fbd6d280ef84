//! The audit round: which fillers and which active files are challenged at a
//! tick, and on which of their shards.

use vstd::prelude::*;
use crate::bytes::copy_bytes;
use crate::duplicate::Duplicate;
use crate::file_bank::{lemma_tables_determined, Pallet, Tables};
use crate::list::lemma_filter_step;
use crate::ordered_map::{has_key, sorted, to_map, OrderedMap};
use crate::sampler::{
    deterministic, draws, first_nonzero, get_random_numberlist, get_random_shards,
    number_list_of, shards_of, total,
};
use crate::types::{
    AccountId, BlockNumber, Error, FileInfo, FileInfoView, FileState, FillerInfo, FillerInfoView,
};

verus! {

/// The kind of a challenge on a filler.
pub const KIND_FILLER: u8 = 1;

/// The kind of a challenge on a file.
pub const KIND_FILE: u8 = 2;

/// A challenge: the miner, the identifier of the object, the shards to prove,
/// the size of the object, its kind and its segment size.
pub type Challenge = (AccountId, Vec<u8>, Vec<u8>, u64, u8, u32);

/// The view of a [`Challenge`].
pub type ChallengeView = (AccountId, Seq<u8>, Seq<u8>, u64, u8, u32);

/// The challenges by their views.
pub open spec fn challenge_view(data: Seq<Challenge>) -> Seq<ChallengeView> {
    data.map_values(|c: Challenge| (c.0, c.1@, c.2@, c.3, c.4, c.5))
}

/// Files with their hashes by their views.
pub open spec fn files_view(files: Seq<(Vec<u8>, FileInfo)>) -> Seq<(Seq<u8>, FileInfoView)> {
    files.map_values(|e: (Vec<u8>, FileInfo)| (e.0@, e.1@))
}

/// A filler with the miner that the ledger holds it for.
pub type HeldFiller = (AccountId, FillerInfo);

/// The view of a [`HeldFiller`].
pub type HeldFillerView = (AccountId, FillerInfoView);

/// Fillers with their miners by their views.
pub open spec fn held_view(fillers: Seq<HeldFiller>) -> Seq<HeldFillerView> {
    fillers.map_values(|e: HeldFiller| (e.0, e.1@))
}

/// Borrowed fillers with their miners by their views.
pub open spec fn borrowed_view(fillers: Seq<(AccountId, &FillerInfo)>) -> Seq<HeldFillerView> {
    fillers.map_values(|e: (AccountId, &FillerInfo)| (e.0, e.1@))
}

/// The fillers that the ledger holds for `miner`, each with `miner`.
pub open spec fn held_for(
    miner: AccountId,
    fillers: Seq<(Seq<u8>, FillerInfoView)>,
) -> Seq<HeldFillerView> {
    fillers.map_values(|e: (Seq<u8>, FillerInfoView)| (miner, e.1))
}

/// Every filler of the ledger with the miner that it is held for, in the
/// order of a scan: miner by miner in the order of the accounts, the fillers
/// of a miner in the order of their identifiers.
pub open spec fn flat_fillers(
    fillers: Seq<(AccountId, Seq<(Seq<u8>, FillerInfoView)>)>,
) -> Seq<HeldFillerView>
    decreases fillers.len(),
{
    if fillers.len() == 0 {
        Seq::empty()
    } else {
        flat_fillers(fillers.drop_last()) + held_for(fillers.last().0, fillers.last().1)
    }
}

/// The active files of the ledger in the order of their hashes.
pub open spec fn active_files(file: Seq<(Seq<u8>, FileInfoView)>) -> Seq<(Seq<u8>, FileInfoView)> {
    file.filter(|e: (Seq<u8>, FileInfoView)| e.1.file_state == FileState::Active)
}

/// The items of `pool` at the indices `picks`, in the order of `picks`.
pub open spec fn picked<A>(pool: Seq<A>, picks: Seq<u32>) -> Seq<A> {
    picks.map_values(|i: u32| pool[i as int])
}

/// The fillers that an audit at `now` settles on, each with its miner.
pub open spec fn sampled_fillers(
    tables: Tables,
    w: spec_fn(u32) -> u32,
    now: BlockNumber,
) -> Result<Seq<HeldFillerView>, Error> {
    let pool = flat_fillers(tables.filler_map);
    if pool.len() > u32::MAX {
        Err(Error::Overflow)
    } else {
        match number_list_of(w, pool.len() as u32, 1, now) {
            Ok(picks) => Ok(picked(pool, picks)),
            Err(e) => Err(e),
        }
    }
}

/// The active files that an audit at `now` settles on.
pub open spec fn sampled_files(
    tables: Tables,
    w: spec_fn(u32) -> u32,
    now: BlockNumber,
) -> Result<Seq<(Seq<u8>, FileInfoView)>, Error> {
    let pool = active_files(tables.file);
    if pool.len() > u32::MAX {
        Err(Error::Overflow)
    } else {
        match number_list_of(w, pool.len() as u32, 2, now) {
            Ok(picks) => Ok(picked(pool, picks)),
            Err(e) => Err(e),
        }
    }
}

/// The challenges on `fillers`, one for each in their order. A challenge goes
/// to the miner that the ledger holds the filler for.
pub open spec fn filler_challenges(
    w: spec_fn(u32) -> u32,
    fillers: Seq<HeldFillerView>,
    now: BlockNumber,
) -> Result<Seq<ChallengeView>, Error>
    decreases fillers.len(),
{
    if fillers.len() == 0 {
        Ok(Seq::empty())
    } else {
        match filler_challenges(w, fillers.drop_last(), now) {
            Err(e) => Err(e),
            Ok(before) => {
                let (miner, f) = fillers.last();
                match shards_of(w, f.block_num, now) {
                    Err(e) => Err(e),
                    Ok(shards) => Ok(
                        before.push(
                            (
                                miner,
                                f.filler_id,
                                shards,
                                f.filler_size,
                                KIND_FILLER,
                                f.segment_size,
                            ),
                        ),
                    ),
                }
            },
        }
    }
}

/// The miner of `file` still has the identifier that the file was stored
/// under.
pub open spec fn assignment_stands(file: FileInfoView, miner_ids: Map<AccountId, u64>) -> bool {
    miner_ids.contains_key(file.miner_acc) && miner_ids[file.miner_acc] == file.miner_id
}

/// The challenges on `files`, in their order: one for each file whose
/// assignment stands, none for the others.
pub open spec fn file_challenges(
    w: spec_fn(u32) -> u32,
    files: Seq<(Seq<u8>, FileInfoView)>,
    miner_ids: Map<AccountId, u64>,
    now: BlockNumber,
) -> Result<Seq<ChallengeView>, Error>
    decreases files.len(),
{
    if files.len() == 0 {
        Ok(Seq::empty())
    } else {
        match file_challenges(w, files.drop_last(), miner_ids, now) {
            Err(e) => Err(e),
            Ok(before) => {
                let (hash, file) = files.last();
                if !assignment_stands(file, miner_ids) {
                    Ok(before)
                } else {
                    match shards_of(w, file.block_num, now) {
                        Err(e) => Err(e),
                        Ok(shards) => Ok(
                            before.push(
                                (
                                    file.miner_acc,
                                    hash,
                                    shards,
                                    file.file_size,
                                    KIND_FILE,
                                    file.segment_size,
                                ),
                            ),
                        ),
                    }
                }
            },
        }
    }
}

/// The challenges of the audit at `now`: those on the sampled fillers, then
/// those on the sampled files.
pub open spec fn challenge_data_of(
    tables: Tables,
    miner_ids: Map<AccountId, u64>,
    w: spec_fn(u32) -> u32,
    now: BlockNumber,
) -> Result<Seq<ChallengeView>, Error> {
    match sampled_fillers(tables, w, now) {
        Err(e) => Err(e),
        Ok(fillers) => match filler_challenges(w, fillers, now) {
            Err(e) => Err(e),
            Ok(first) => match sampled_files(tables, w, now) {
                Err(e) => Err(e),
                Ok(files) => match file_challenges(w, files, miner_ids, now) {
                    Err(e) => Err(e),
                    Ok(second) => Ok(first + second),
                },
            },
        },
    }
}

/// Each filler is challenged once, in the order given, and each challenge goes
/// to the miner that the ledger holds the filler for, whatever the filler says
/// of its miner.
pub proof fn lemma_filler_challenges_name_the_holder(
    w: spec_fn(u32) -> u32,
    fillers: Seq<HeldFillerView>,
    now: BlockNumber,
)
    ensures
        filler_challenges(w, fillers, now) matches Ok(challenges) ==> {
            &&& challenges.len() == fillers.len()
            &&& forall|i: int|
                0 <= i < fillers.len() ==> {
                    &&& (#[trigger] challenges[i]).0 == fillers[i].0
                    &&& challenges[i].1 == fillers[i].1.filler_id
                    &&& challenges[i].3 == fillers[i].1.filler_size
                    &&& challenges[i].4 == KIND_FILLER
                    &&& challenges[i].5 == fillers[i].1.segment_size
                }
        },
    decreases fillers.len(),
{
    if fillers.len() > 0 {
        lemma_filler_challenges_name_the_holder(w, fillers.drop_last(), now);
    }
}

/// An audit of a ledger without fillers and without active files challenges
/// nothing, whatever the randomness.
pub proof fn lemma_empty_round(
    tables: Tables,
    miner_ids: Map<AccountId, u64>,
    w: spec_fn(u32) -> u32,
    now: BlockNumber,
)
    requires
        flat_fillers(tables.filler_map).len() == 0,
        active_files(tables.file).len() == 0,
    ensures
        challenge_data_of(tables, miner_ids, w, now) == Ok::<Seq<ChallengeView>, Error>(
            Seq::empty(),
        ),
{
}

/// Two ledgers that hold the same are challenged the same at the same tick by
/// the same randomness: the round depends on what is stored and not on how it
/// came to be stored.
pub proof fn lemma_round_determined(
    a: Tables,
    b: Tables,
    miner_ids: Map<AccountId, u64>,
    w: spec_fn(u32) -> u32,
    now: BlockNumber,
)
    requires
        a.sorted(),
        b.sorted(),
        a.ledger() == b.ledger(),
    ensures
        challenge_data_of(a, miner_ids, w, now) == challenge_data_of(b, miner_ids, w, now),
{
    lemma_tables_determined(a, b);
}

impl Pallet {
    /// Every filler of the ledger in the order of a scan.
    fn filler_pool(&self) -> (pool: Vec<(AccountId, &FillerInfo)>)
        ensures
            borrowed_view(pool@) == flat_fillers(self.tables().filler_map),
    {
        let ghost all = self.tables().filler_map;
        let mut pool: Vec<(AccountId, &FillerInfo)> = Vec::new();
        let mut m: usize = 0;
        while m < self.filler_map.len()
            invariant
                all == self.filler_map@,
                m <= all.len(),
                borrowed_view(pool@) == flat_fillers(all.take(m as int)),
            decreases all.len() - m,
        {
            let fillers = self.filler_map.value_at(m);
            let miner = *self.filler_map.key_at(m);
            let ghost done = flat_fillers(all.take(m as int));
            let mut j: usize = 0;
            while j < fillers.len()
                invariant
                    j <= fillers@.len(),
                    miner == all[m as int].0,
                    borrowed_view(pool@) == done + held_for(
                        miner,
                        fillers@.take(j as int),
                    ),
                decreases fillers@.len() - j,
            {
                let ghost before = borrowed_view(pool@);
                let filler = fillers.value_at(j);
                pool.push((miner, filler));
                proof {
                    assert(borrowed_view(pool@)
                        =~= before.push((miner, filler@)));
                }
                j = j + 1;
            }
            proof {
                assert(all.take(m + 1).drop_last() =~= all.take(m as int));
            }
            m = m + 1;
        }
        assert(all.take(all.len() as int) =~= all);
        pool
    }

    /// The active files of the ledger with their hashes, in the order of the
    /// hashes.
    fn active_pool(&self) -> (pool: Vec<(&Vec<u8>, &FileInfo)>)
        ensures
            pool@.map_values(|e: (&Vec<u8>, &FileInfo)| (e.0@, e.1@)) == active_files(
                self.tables().file,
            ),
    {
        let ghost all = self.tables().file;
        let ghost keep = |e: (Seq<u8>, FileInfoView)| e.1.file_state == FileState::Active;
        let mut pool: Vec<(&Vec<u8>, &FileInfo)> = Vec::new();
        let mut i: usize = 0;
        while i < self.file.len()
            invariant
                all == self.file@,
                i <= all.len(),
                keep == |e: (Seq<u8>, FileInfoView)| e.1.file_state == FileState::Active,
                pool@.map_values(|e: (&Vec<u8>, &FileInfo)| (e.0@, e.1@)) == all.take(
                    i as int,
                ).filter(keep),
            decreases all.len() - i,
        {
            let info = self.file.value_at(i);
            let hash = self.file.key_at(i);
            proof {
                lemma_filter_step(all, keep, i as int);
            }
            match info.file_state {
                FileState::Active => {
                    pool.push((hash, info));
                },
                FileState::Declared => {},
            }
            i = i + 1;
        }
        assert(all.take(all.len() as int) =~= all);
        pool
    }

    /// The number of fillers in the ledger. Fails with `Overflow` where it is
    /// more than a `u32` holds.
    pub fn get_fillermap_length(&self) -> (r: Result<u32, Error>)
        ensures
            r == if flat_fillers(self.tables().filler_map).len() > u32::MAX {
                Err::<u32, Error>(Error::Overflow)
            } else {
                Ok(flat_fillers(self.tables().filler_map).len() as u32)
            },
    {
        let pool = self.filler_pool();
        if pool.len() > u32::MAX as usize {
            Err(Error::Overflow)
        } else {
            Ok(pool.len() as u32)
        }
    }

    /// The number of active files in the ledger. Fails with `Overflow` where
    /// it is more than a `u32` holds.
    pub fn get_file_map_length(&self) -> (r: Result<u32, Error>)
        ensures
            r == if active_files(self.tables().file).len() > u32::MAX {
                Err::<u32, Error>(Error::Overflow)
            } else {
                Ok(active_files(self.tables().file).len() as u32)
            },
    {
        let pool = self.active_pool();
        if pool.len() > u32::MAX as usize {
            Err(Error::Overflow)
        } else {
            Ok(pool.len() as u32)
        }
    }

    /// Draws a number other than 0 under the tag of the ledger, from the
    /// counter `seed` on: see [`crate::sampler::generate_random_number`].
    pub fn generate_random_number<F: Fn(Vec<u8>) -> Vec<u8>>(&self, seed: u32, random: &F) -> (r:
        Result<u32, Error>)
        requires
            total(*random),
            deterministic(*random),
        ensures
            match r {
                Ok(v) => v != 0 && first_nonzero(
                    draws(*random, self@.config.pallet_id@),
                    seed as int,
                ) == Some(v),
                Err(e) => e == Error::Overflow && first_nonzero(
                    draws(*random, self@.config.pallet_id@),
                    seed as int,
                ) is None,
            },
    {
        crate::sampler::generate_random_number(&self.config.pallet_id, seed, random)
    }

    /// The fillers that the audit at `now` settles on, each with the miner that
    /// the ledger holds it for, in the order of a scan: see
    /// [`sampled_fillers`].
    pub fn get_random_filler<F: Fn(Vec<u8>) -> Vec<u8>>(&self, now: BlockNumber, random: &F) -> (r:
        Result<Vec<HeldFiller>, Error>)
        requires
            total(*random),
            deterministic(*random),
        ensures
            match r {
                Ok(list) => sampled_fillers(
                    self.tables(),
                    draws(*random, self@.config.pallet_id@),
                    now,
                ) == Ok::<Seq<HeldFillerView>, Error>(held_view(list@)),
                Err(e) => sampled_fillers(
                    self.tables(),
                    draws(*random, self@.config.pallet_id@),
                    now,
                ) == Err::<Seq<HeldFillerView>, Error>(e),
            },
    {
        let pool = self.filler_pool();
        let ghost flat = flat_fillers(self.tables().filler_map);
        if pool.len() > u32::MAX as usize {
            return Err(Error::Overflow);
        }
        let picks = match get_random_numberlist(
            &self.config.pallet_id,
            pool.len() as u32,
            1,
            now,
            random,
        ) {
            Ok(picks) => picks,
            Err(e) => {
                return Err(e);
            },
        };
        let mut list: Vec<HeldFiller> = Vec::new();
        let mut i: usize = 0;
        while i < picks.len()
            invariant
                i <= picks@.len(),
                flat == borrowed_view(pool@),
                forall|k: int| 0 <= k < picks@.len() ==> picks@[k] < pool@.len(),
                held_view(list@) == picked(flat, picks@.take(i as int)),
            decreases picks@.len() - i,
        {
            let ghost before = held_view(list@);
            let at = picks[i] as usize;
            let miner = pool[at].0;
            let copy = pool[at].1.duplicate();
            list.push((miner, copy));
            proof {
                assert(held_view(list@) =~= before.push((miner, copy@)));
            }
            i = i + 1;
        }
        assert(picks@.take(picks@.len() as int) =~= picks@);
        Ok(list)
    }

    /// The active files that the audit at `now` settles on, with their
    /// hashes, in the order of the hashes: see [`sampled_files`].
    pub fn get_random_file<F: Fn(Vec<u8>) -> Vec<u8>>(&self, now: BlockNumber, random: &F) -> (r:
        Result<Vec<(Vec<u8>, FileInfo)>, Error>)
        requires
            total(*random),
            deterministic(*random),
        ensures
            match r {
                Ok(list) => sampled_files(
                    self.tables(),
                    draws(*random, self@.config.pallet_id@),
                    now,
                ) == Ok::<Seq<(Seq<u8>, FileInfoView)>, Error>(files_view(list@)),
                Err(e) => sampled_files(
                    self.tables(),
                    draws(*random, self@.config.pallet_id@),
                    now,
                ) == Err::<Seq<(Seq<u8>, FileInfoView)>, Error>(e),
            },
    {
        let pool = self.active_pool();
        let ghost active = active_files(self.tables().file);
        if pool.len() > u32::MAX as usize {
            return Err(Error::Overflow);
        }
        let picks = match get_random_numberlist(
            &self.config.pallet_id,
            pool.len() as u32,
            2,
            now,
            random,
        ) {
            Ok(picks) => picks,
            Err(e) => {
                return Err(e);
            },
        };
        let mut list: Vec<(Vec<u8>, FileInfo)> = Vec::new();
        let mut i: usize = 0;
        while i < picks.len()
            invariant
                i <= picks@.len(),
                active == pool@.map_values(|e: (&Vec<u8>, &FileInfo)| (e.0@, e.1@)),
                forall|k: int| 0 <= k < picks@.len() ==> picks@[k] < pool@.len(),
                files_view(list@) == picked(active, picks@.take(i as int)),
            decreases picks@.len() - i,
        {
            let ghost before = files_view(list@);
            let at = picks[i] as usize;
            let hash = copy_bytes(pool[at].0);
            let info = pool[at].1.duplicate();
            list.push((hash, info));
            proof {
                assert(files_view(list@) =~= before.push((hash@, info@)));
            }
            i = i + 1;
        }
        assert(picks@.take(picks@.len() as int) =~= picks@);
        Ok(list)
    }

    /// The challenges of the audit at `now`: one on each sampled filler, then
    /// one on each sampled active file whose miner still has the identifier
    /// that `miner_ids` gives for it. `random` is the source of randomness: a
    /// function from the subject of a draw to the bytes drawn.
    ///
    /// The result is a function of the ledger, of `miner_ids`, of `now` and of
    /// what `random` answers: two rounds over the same state at the same tick
    /// challenge the same. Fails with `Overflow` where a pool or a share does
    /// not fit a `u32`, or the counter of the draws runs out.
    pub fn get_random_challenge_data<F: Fn(Vec<u8>) -> Vec<u8>>(
        &self,
        now: BlockNumber,
        miner_ids: &OrderedMap<AccountId, u64>,
        random: &F,
    ) -> (r: Result<Vec<Challenge>, Error>)
        requires
            miner_ids.wf(),
            total(*random),
            deterministic(*random),
        ensures
            match r {
                Ok(data) => challenge_data_of(
                    self.tables(),
                    miner_ids.map(),
                    draws(*random, self@.config.pallet_id@),
                    now,
                ) == Ok::<Seq<ChallengeView>, Error>(challenge_view(data@)),
                Err(e) => challenge_data_of(
                    self.tables(),
                    miner_ids.map(),
                    draws(*random, self@.config.pallet_id@),
                    now,
                ) == Err::<Seq<ChallengeView>, Error>(e),
            },
    {
        let ghost w = draws(*random, self@.config.pallet_id@);
        let ghost ids = miner_ids.map();
        let fillers = match self.get_random_filler(now, random) {
            Ok(fillers) => fillers,
            Err(e) => {
                return Err(e);
            },
        };
        let mut data: Vec<Challenge> = Vec::new();
        let mut i: usize = 0;
        proof {
            assert(challenge_view(data@) =~= Seq::<ChallengeView>::empty());
        }
        while i < fillers.len()
            invariant
                i <= fillers@.len(),
                total(*random),
                deterministic(*random),
                w == draws(*random, self@.config.pallet_id@),
                sampled_fillers(self.tables(), w, now) == Ok::<Seq<HeldFillerView>, Error>(
                    held_view(fillers@),
                ),
                filler_challenges(w, held_view(fillers@).take(i as int), now) == Ok::<
                    Seq<ChallengeView>,
                    Error,
                >(challenge_view(data@)),
            decreases fillers@.len() - i,
        {
            let ghost before = challenge_view(data@);
            proof {
                assert(held_view(fillers@).take(i + 1).drop_last() =~= held_view(fillers@).take(
                    i as int,
                ));
            }
            let miner = fillers[i].0;
            let filler = &fillers[i].1;
            let shards = match get_random_shards(
                &self.config.pallet_id,
                filler.block_num,
                now,
                random,
            ) {
                Ok(shards) => shards,
                Err(e) => {
                    proof {
                        lemma_filler_challenges_fail(w, held_view(fillers@), i + 1, now);
                    }
                    return Err(e);
                },
            };
            let id = copy_bytes(&filler.filler_id);
            data.push(
                (miner, id, shards, filler.filler_size, KIND_FILLER, filler.segment_size),
            );
            proof {
                assert(challenge_view(data@) =~= before.push(
                    (
                        miner,
                        id@,
                        shards@,
                        filler.filler_size,
                        KIND_FILLER,
                        filler.segment_size,
                    ),
                ));
            }
            i = i + 1;
        }
        proof {
            assert(held_view(fillers@).take(fillers@.len() as int) =~= held_view(fillers@));
        }
        let ghost first = challenge_view(data@);
        let files = match self.get_random_file(now, random) {
            Ok(files) => files,
            Err(e) => {
                return Err(e);
            },
        };
        let mut k: usize = 0;
        let ghost mut second = Seq::<ChallengeView>::empty();
        while k < files.len()
            invariant
                k <= files@.len(),
                miner_ids.wf(),
                ids == miner_ids.map(),
                total(*random),
                deterministic(*random),
                w == draws(*random, self@.config.pallet_id@),
                sampled_fillers(self.tables(), w, now) == Ok::<Seq<HeldFillerView>, Error>(
                    held_view(fillers@),
                ),
                filler_challenges(w, held_view(fillers@), now) == Ok::<
                    Seq<ChallengeView>,
                    Error,
                >(first),
                sampled_files(self.tables(), w, now) == Ok::<Seq<(Seq<u8>, FileInfoView)>, Error>(
                    files_view(files@),
                ),
                file_challenges(w, files_view(files@).take(k as int), ids, now) == Ok::<
                    Seq<ChallengeView>,
                    Error,
                >(second),
                challenge_view(data@) == first + second,
            decreases files@.len() - k,
        {
            let ghost before = challenge_view(data@);
            proof {
                assert(files_view(files@).take(k + 1).drop_last() =~= files_view(files@).take(
                    k as int,
                ));
            }
            let file = &files[k].1;
            let stands = match miner_ids.get(&file.miner_acc) {
                Some(id) => *id == file.miner_id,
                None => false,
            };
            if stands {
                let shards = match get_random_shards(
                    &self.config.pallet_id,
                    file.block_num,
                    now,
                    random,
                ) {
                    Ok(shards) => shards,
                    Err(e) => {
                        proof {
                            lemma_file_challenges_fail(w, files_view(files@), ids, k + 1, now);
                        }
                        return Err(e);
                    },
                };
                let hash = copy_bytes(&files[k].0);
                data.push(
                    (file.miner_acc, hash, shards, file.file_size, KIND_FILE, file.segment_size),
                );
                proof {
                    let item = (
                        file.miner_acc,
                        hash@,
                        shards@,
                        file.file_size,
                        KIND_FILE,
                        file.segment_size,
                    );
                    assert(challenge_view(data@) =~= before.push(item));
                    second = second.push(item);
                }
            }
            k = k + 1;
        }
        proof {
            assert(files_view(files@).take(files@.len() as int) =~= files_view(files@));
        }
        Ok(data)
    }
}

/// Where the challenges on the first `n` fillers fail, those on all fail
/// alike.
pub proof fn lemma_filler_challenges_fail(
    w: spec_fn(u32) -> u32,
    fillers: Seq<HeldFillerView>,
    n: int,
    now: BlockNumber,
)
    requires
        0 <= n <= fillers.len(),
        filler_challenges(w, fillers.take(n), now) is Err,
    ensures
        filler_challenges(w, fillers, now) == filler_challenges(w, fillers.take(n), now),
    decreases fillers.len() - n,
{
    if n < fillers.len() {
        assert(fillers.take(n + 1).drop_last() =~= fillers.take(n));
        lemma_filler_challenges_fail(w, fillers, n + 1, now);
    } else {
        assert(fillers.take(n) =~= fillers);
    }
}

/// Where the challenges on the first `n` files fail, those on all fail alike.
pub proof fn lemma_file_challenges_fail(
    w: spec_fn(u32) -> u32,
    files: Seq<(Seq<u8>, FileInfoView)>,
    miner_ids: Map<AccountId, u64>,
    n: int,
    now: BlockNumber,
)
    requires
        0 <= n <= files.len(),
        file_challenges(w, files.take(n), miner_ids, now) is Err,
    ensures
        file_challenges(w, files, miner_ids, now) == file_challenges(
            w,
            files.take(n),
            miner_ids,
            now,
        ),
    decreases files.len() - n,
{
    if n < files.len() {
        assert(files.take(n + 1).drop_last() =~= files.take(n));
        lemma_file_challenges_fail(w, files, miner_ids, n + 1, now);
    } else {
        assert(files.take(n) =~= files);
    }
}

/// What the auditor of the network asks of the ledger.
pub trait RandomFileList {
    /// The ledger is in a state in which it can be asked.
    spec fn ready(&self) -> bool;

    /// The challenges of the audit at `now`.
    fn get_random_challenge_data<F: Fn(Vec<u8>) -> Vec<u8>>(
        &self,
        now: BlockNumber,
        miner_ids: &OrderedMap<AccountId, u64>,
        random: &F,
    ) -> (r: Result<Vec<Challenge>, Error>)
        requires
            self.ready(),
            miner_ids.wf(),
            total(*random),
            deterministic(*random),
    ;

    /// Takes one filler of a miner out of the ledger.
    fn delete_filler(&mut self, miner_acc: AccountId, filler_id: Vec<u8>) -> (r: Result<(), Error>)
        requires
            old(self).ready(),
        ensures
            final(self).ready(),
    ;

    /// Takes every filler of a miner out of the ledger.
    fn delete_miner_all_filler(&mut self, miner_acc: AccountId)
        requires
            old(self).ready(),
        ensures
            final(self).ready(),
    ;

    /// Takes a file out of the ledger, whoever owns it.
    fn clear_file(&mut self, file_hash: Vec<u8>) -> (r: Result<(), Error>)
        requires
            old(self).ready(),
        ensures
            final(self).ready(),
    ;

    /// Tells a miner to purge a file.
    fn add_invalid_file(&mut self, miner_acc: AccountId, file_hash: Vec<u8>) -> (r: Result<
        (),
        Error,
    >)
        requires
            old(self).ready(),
        ensures
            final(self).ready(),
    ;

    /// Whether an account may submit for the ledger's workers.
    fn contains_member(&self, acc: AccountId) -> (found: bool)
        requires
            self.ready(),
    ;
}

impl RandomFileList for Pallet {
    open spec fn ready(&self) -> bool {
        self.wf()
    }

    fn get_random_challenge_data<F: Fn(Vec<u8>) -> Vec<u8>>(
        &self,
        now: BlockNumber,
        miner_ids: &OrderedMap<AccountId, u64>,
        random: &F,
    ) -> (r: Result<Vec<Challenge>, Error>)
        ensures
            match r {
                Ok(data) => challenge_data_of(
                    self.tables(),
                    miner_ids.map(),
                    draws(*random, self@.config.pallet_id@),
                    now,
                ) == Ok::<Seq<ChallengeView>, Error>(challenge_view(data@)),
                Err(e) => challenge_data_of(
                    self.tables(),
                    miner_ids.map(),
                    draws(*random, self@.config.pallet_id@),
                    now,
                ) == Err::<Seq<ChallengeView>, Error>(e),
            },
    {
        Pallet::get_random_challenge_data(self, now, miner_ids, random)
    }

    fn delete_filler(&mut self, miner_acc: AccountId, filler_id: Vec<u8>) -> (r: Result<(), Error>)
        ensures
            match r {
                Ok(()) => {
                    &&& filler_id@.len() <= old(self)@.config.string_limit
                    &&& has_key(old(self)@.fillers_of(miner_acc), filler_id@)
                    &&& final(self)@ == old(self)@.with_fillers(
                        miner_acc,
                        final(self)@.fillers_of(miner_acc),
                    )
                    &&& sorted::<Vec<u8>, FillerInfoView>(final(self)@.fillers_of(miner_acc))
                    &&& to_map(final(self)@.fillers_of(miner_acc)) == to_map(
                        old(self)@.fillers_of(miner_acc),
                    ).remove(filler_id@)
                },
                Err(e) => {
                    &&& final(self).tables() == old(self).tables()
                    &&& if filler_id@.len() > old(self)@.config.string_limit {
                        e == Error::BoundedVecError
                    } else {
                        e == Error::FileNotFound && !has_key(
                            old(self)@.fillers_of(miner_acc),
                            filler_id@,
                        )
                    }
                },
            },
    {
        Pallet::delete_filler(self, miner_acc, filler_id)
    }

    fn delete_miner_all_filler(&mut self, miner_acc: AccountId)
        ensures
            final(self)@ == old(self)@.without_fillers(miner_acc),
    {
        Pallet::delete_miner_all_filler(self, miner_acc)
    }

    fn clear_file(&mut self, file_hash: Vec<u8>) -> (r: Result<(), Error>)
        ensures
            match r {
                Ok(()) => {
                    &&& file_hash@.len() <= old(self)@.config.string_limit
                    &&& old(self)@.files.contains_key(file_hash@)
                    &&& final(self)@ == old(self)@.without_file(file_hash@)
                },
                Err(e) => {
                    &&& final(self).tables() == old(self).tables()
                    &&& if file_hash@.len() > old(self)@.config.string_limit {
                        e == Error::BoundedVecError
                    } else {
                        e == Error::FileNotFound && !old(self)@.files.contains_key(file_hash@)
                    }
                },
            },
    {
        Pallet::clear_file(self, file_hash)
    }

    fn add_invalid_file(&mut self, miner_acc: AccountId, file_hash: Vec<u8>) -> (r: Result<
        (),
        Error,
    >)
        ensures
            match r {
                Ok(()) => {
                    &&& file_hash@.len() <= old(self)@.config.string_limit
                    &&& old(self)@.outbox_of(miner_acc).len() < old(self)@.config.string_limit
                    &&& final(self)@ == old(self)@.with_outbox(
                        miner_acc,
                        old(self)@.outbox_of(miner_acc).push(file_hash@),
                    )
                },
                Err(e) => {
                    &&& final(self).tables() == old(self).tables()
                    &&& e == if file_hash@.len() > old(self)@.config.string_limit {
                        Error::BoundedVecError
                    } else {
                        Error::StorageLimitReached
                    }
                    &&& file_hash@.len() > old(self)@.config.string_limit || old(self)@.outbox_of(
                        miner_acc,
                    ).len() >= old(self)@.config.string_limit
                },
            },
    {
        Pallet::add_invalid_file(self, miner_acc, file_hash)
    }

    fn contains_member(&self, acc: AccountId) -> (found: bool)
        ensures
            found == self@.members.contains(acc),
    {
        Pallet::contains_member(self, acc)
    }
}

} // verus!

//! The ledger itself: files, leases, fillers and the lists of what miners still
//! have to purge, with the operations that accounts, coordinators and miners
//! carry out on them.

use vstd::prelude::*;
use crate::list::List;
use crate::ordered_map::{lemma_sorted_unique, sorted, to_map, OrderedMap};
use crate::types::{
    AccountId, Config, FileInfo, FileInfoView, FillerInfo, FillerInfoView, PackageDetails,
    UserFileSliceInfo, UserFileSliceInfoView,
};

pub mod audit;
pub mod filler;
pub mod laws;
pub mod lease;
pub mod outbox;
pub mod registry;
pub mod sweep;

verus! {

/// The storage ledger.
#[derive(Debug, PartialEq, Eq)]
pub struct Pallet {
    pub(crate) config: Config,
    pub(crate) file: OrderedMap<Vec<u8>, FileInfo>,
    pub(crate) user_hold_file_list: OrderedMap<AccountId, List<UserFileSliceInfo>>,
    pub(crate) filler_map: OrderedMap<AccountId, OrderedMap<Vec<u8>, FillerInfo>>,
    pub(crate) invalid_file: OrderedMap<AccountId, List<Vec<u8>>>,
    pub(crate) members: List<AccountId>,
    pub(crate) purchased_package: OrderedMap<AccountId, PackageDetails>,
    pub(crate) unit_price: u128,
}

/// The tables of the ledger as they are scanned: each as the sequence of its
/// entries in key order.
pub struct Tables {
    pub config: Config,
    /// The files by content hash.
    pub file: Seq<(Seq<u8>, FileInfoView)>,
    /// For each account the files that it holds.
    pub user_hold_file_list: Seq<(AccountId, Seq<UserFileSliceInfoView>)>,
    /// For each miner its fillers by identifier.
    pub filler_map: Seq<(AccountId, Seq<(Seq<u8>, FillerInfoView)>)>,
    /// For each miner what it still has to purge.
    pub invalid_file: Seq<(AccountId, Seq<Seq<u8>>)>,
    /// The accounts that may submit for the ledger's workers.
    pub members: Seq<AccountId>,
    /// The leases by account.
    pub purchased_package: Seq<(AccountId, PackageDetails)>,
    pub unit_price: u128,
}

/// The ledger as mathematics: each table as a map from its key.
#[verifier::ext_equal]
pub struct PalletView {
    pub config: Config,
    /// The files by content hash.
    pub files: Map<Seq<u8>, FileInfoView>,
    /// For each account the files that it holds, in the order in which they
    /// came.
    pub held: Map<AccountId, Seq<UserFileSliceInfoView>>,
    /// For each miner its fillers, in the order of their identifiers.
    pub fillers: Map<AccountId, Seq<(Seq<u8>, FillerInfoView)>>,
    /// For each miner what it still has to purge, oldest first.
    pub outbox: Map<AccountId, Seq<Seq<u8>>>,
    /// The accounts that may submit for the ledger's workers.
    pub members: Seq<AccountId>,
    /// The leases by account.
    pub packages: Map<AccountId, PackageDetails>,
    pub unit_price: u128,
}

impl Tables {
    /// The tables as maps.
    pub open spec fn ledger(self) -> PalletView {
        PalletView {
            config: self.config,
            files: to_map(self.file),
            held: to_map(self.user_hold_file_list),
            fillers: to_map(self.filler_map),
            outbox: to_map(self.invalid_file),
            members: self.members,
            packages: to_map(self.purchased_package),
            unit_price: self.unit_price,
        }
    }

    /// Every table is in the order of its keys, so that no key occurs twice.
    pub open spec fn sorted(self) -> bool {
        &&& sorted::<Vec<u8>, FileInfoView>(self.file)
        &&& sorted::<AccountId, Seq<UserFileSliceInfoView>>(self.user_hold_file_list)
        &&& sorted::<AccountId, Seq<(Seq<u8>, FillerInfoView)>>(self.filler_map)
        &&& sorted::<AccountId, Seq<Seq<u8>>>(self.invalid_file)
        &&& sorted::<AccountId, PackageDetails>(self.purchased_package)
    }
}

impl PalletView {
    /// The files that `acc` holds; none where the ledger has no index for it.
    pub open spec fn held_by(self, acc: AccountId) -> Seq<UserFileSliceInfoView> {
        if self.held.contains_key(acc) {
            self.held[acc]
        } else {
            Seq::empty()
        }
    }

    /// What `miner` still has to purge, oldest first.
    pub open spec fn outbox_of(self, miner: AccountId) -> Seq<Seq<u8>> {
        if self.outbox.contains_key(miner) {
            self.outbox[miner]
        } else {
            Seq::empty()
        }
    }

    /// The fillers of `miner` in the order of their identifiers.
    pub open spec fn fillers_of(self, miner: AccountId) -> Seq<(Seq<u8>, FillerInfoView)> {
        if self.fillers.contains_key(miner) {
            self.fillers[miner]
        } else {
            Seq::empty()
        }
    }

    /// This ledger with `lease` as the lease of `acc`.
    pub open spec fn with_lease(self, acc: AccountId, lease: PackageDetails) -> PalletView {
        PalletView { packages: self.packages.insert(acc, lease), ..self }
    }

    /// This ledger without a lease of `acc`.
    pub open spec fn without_lease(self, acc: AccountId) -> PalletView {
        PalletView { packages: self.packages.remove(acc), ..self }
    }

    /// This ledger with `info` as the record of the file `hash`.
    pub open spec fn with_file(self, hash: Seq<u8>, info: FileInfoView) -> PalletView {
        PalletView { files: self.files.insert(hash, info), ..self }
    }

    /// This ledger without the file `hash`.
    pub open spec fn without_file(self, hash: Seq<u8>) -> PalletView {
        PalletView { files: self.files.remove(hash), ..self }
    }

    /// This ledger with `held` as the index of the files that `acc` holds.
    pub open spec fn with_held(
        self,
        acc: AccountId,
        held: Seq<UserFileSliceInfoView>,
    ) -> PalletView {
        PalletView { held: self.held.insert(acc, held), ..self }
    }

    /// This ledger with `fillers` as the fillers of `miner`.
    pub open spec fn with_fillers(
        self,
        miner: AccountId,
        fillers: Seq<(Seq<u8>, FillerInfoView)>,
    ) -> PalletView {
        PalletView { fillers: self.fillers.insert(miner, fillers), ..self }
    }

    /// This ledger without fillers of `miner`.
    pub open spec fn without_fillers(self, miner: AccountId) -> PalletView {
        PalletView { fillers: self.fillers.remove(miner), ..self }
    }

    /// This ledger with `pending` as what `miner` has to purge.
    pub open spec fn with_outbox(self, miner: AccountId, pending: Seq<Seq<u8>>) -> PalletView {
        PalletView { outbox: self.outbox.insert(miner, pending), ..self }
    }

    /// What holds of the ledger between operations. A day has ticks. Every
    /// lease is balanced and of one of the packages 1 to 5. Every file has as
    /// many names as owners, no owner twice and at least one owner. The fillers
    /// of every miner are in the order of their identifiers, each under its
    /// own. And nothing is longer than the ledger was set up to store: no
    /// hash, name, address or identifier, no list of owners, of members or of
    /// what a miner has to purge, and no index of the files that an account
    /// holds.
    pub open spec fn wf(self) -> bool {
        &&& self.config.one_day > 0
        &&& forall|h: Seq<u8>| #[trigger]
            self.files.contains_key(h) ==> self.files[h].wf() && h.len()
                <= self.config.string_limit && self.files[h].within(self.config.string_limit)
        &&& forall|a: AccountId| #[trigger]
            self.packages.contains_key(a) ==> self.packages[a].balanced() && 1
                <= self.packages[a].package_type <= 5
        &&& forall|m: AccountId| #[trigger]
            self.fillers.contains_key(m) ==> sorted::<Vec<u8>, FillerInfoView>(self.fillers[m])
                && fillers_within(self.fillers[m], self.config.string_limit)
        &&& forall|a: AccountId| #[trigger]
            self.held.contains_key(a) ==> held_within(self.held[a], self.config)
        &&& forall|m: AccountId| #[trigger]
            self.outbox.contains_key(m) ==> purge_within(
                self.outbox[m],
                self.config.string_limit,
            )
        &&& self.members.len() <= self.config.string_limit
    }
}

/// Every byte string of `list` has at most `limit` bytes.
pub open spec fn all_short(list: Seq<Seq<u8>>, limit: u32) -> bool {
    forall|i: int| 0 <= i < list.len() ==> (#[trigger] list[i]).len() <= limit
}

/// A list of what a miner has to purge that the ledger can store: at most
/// `limit` entries of at most `limit` bytes.
pub open spec fn purge_within(list: Seq<Seq<u8>>, limit: u32) -> bool {
    list.len() <= limit && all_short(list, limit)
}

/// An index of held files that the ledger can store: no more files than an
/// index holds, under hashes no longer than a byte string may be.
pub open spec fn held_within(held: Seq<UserFileSliceInfoView>, config: Config) -> bool {
    &&& held.len() <= config.item_limit
    &&& forall|i: int|
        0 <= i < held.len() ==> (#[trigger] held[i]).file_hash.len() <= config.string_limit
}

/// Each of `fillers` stands under its own identifier, of at most `limit`
/// bytes.
pub open spec fn fillers_within(fillers: Seq<(Seq<u8>, FillerInfoView)>, limit: u32) -> bool {
    forall|i: int|
        0 <= i < fillers.len() ==> (#[trigger] fillers[i]).1.filler_id == fillers[i].0
            && fillers[i].0.len() <= limit
}

/// What a filter keeps of a sequence is no longer than the sequence, and what
/// holds of every item of the sequence holds of every item that is kept.
pub proof fn lemma_filter_keeps<A>(s: Seq<A>, keep: spec_fn(A) -> bool, good: spec_fn(A) -> bool)
    requires
        forall|i: int| 0 <= i < s.len() ==> good(#[trigger] s[i]),
    ensures
        s.filter(keep).len() <= s.len(),
        forall|i: int| 0 <= i < s.filter(keep).len() ==> good(#[trigger] s.filter(keep)[i]),
    decreases s.len(),
{
    reveal(Seq::filter);
    if s.len() > 0 {
        lemma_filter_keeps(s.drop_last(), keep, good);
    }
}

/// The tables of a ledger are what its maps make them: two ledgers in key
/// order that hold the same hold it in the same order.
pub proof fn lemma_tables_determined(a: Tables, b: Tables)
    requires
        a.sorted(),
        b.sorted(),
        a.ledger() == b.ledger(),
    ensures
        a == b,
{
    lemma_sorted_unique::<Vec<u8>, FileInfoView>(a.file, b.file);
    lemma_sorted_unique::<AccountId, Seq<UserFileSliceInfoView>>(
        a.user_hold_file_list,
        b.user_hold_file_list,
    );
    lemma_sorted_unique::<AccountId, Seq<(Seq<u8>, FillerInfoView)>>(a.filler_map, b.filler_map);
    lemma_sorted_unique::<AccountId, Seq<Seq<u8>>>(a.invalid_file, b.invalid_file);
    lemma_sorted_unique::<AccountId, PackageDetails>(a.purchased_package, b.purchased_package);
}

/// A balanced lease of a known package keeps the ledger well formed.
pub proof fn lemma_with_lease_wf(v: PalletView, acc: AccountId, lease: PackageDetails)
    requires
        v.wf(),
        lease.balanced(),
        1 <= lease.package_type <= 5,
    ensures
        v.with_lease(acc, lease).wf(),
{
}

/// To take a file out keeps the ledger well formed.
pub proof fn lemma_without_file_wf(v: PalletView, hash: Seq<u8>)
    requires
        v.wf(),
    ensures
        v.without_file(hash).wf(),
{
}

/// Fillers in the order of their identifiers, each under its own, keep the
/// ledger well formed.
pub proof fn lemma_with_fillers_wf(
    v: PalletView,
    miner: AccountId,
    fillers: Seq<(Seq<u8>, FillerInfoView)>,
)
    requires
        v.wf(),
        sorted::<Vec<u8>, FillerInfoView>(fillers),
        fillers_within(fillers, v.config.string_limit),
    ensures
        v.with_fillers(miner, fillers).wf(),
{
}

/// To take the fillers of a miner out keeps the ledger well formed.
pub proof fn lemma_without_fillers_wf(v: PalletView, miner: AccountId)
    requires
        v.wf(),
    ensures
        v.without_fillers(miner).wf(),
{
}

impl Pallet {
    /// The tables of the ledger in the order in which they are scanned.
    pub open(crate) spec fn tables(&self) -> Tables {
        Tables {
            config: self.config,
            file: self.file@,
            user_hold_file_list: self.user_hold_file_list@,
            filler_map: self.filler_map@,
            invalid_file: self.invalid_file@,
            members: self.members@,
            purchased_package: self.purchased_package@,
            unit_price: self.unit_price,
        }
    }

    /// The ledger as mathematics.
    pub open spec fn view(&self) -> PalletView {
        self.tables().ledger()
    }

    /// The invariant of the ledger: the tables are in key order, and
    /// [`PalletView::wf`] holds.
    pub open spec fn wf(&self) -> bool {
        self.tables().sorted() && self@.wf()
    }

    /// An empty ledger with the parameters `config`, in which a day has at
    /// least one tick.
    pub fn new(config: Config) -> (pallet: Self)
        requires
            config.one_day > 0,
        ensures
            pallet.wf(),
            pallet@ == (PalletView {
                config,
                files: Map::empty(),
                held: Map::empty(),
                fillers: Map::empty(),
                outbox: Map::empty(),
                members: Seq::empty(),
                packages: Map::empty(),
                unit_price: 0,
            }),
    {
        let pallet = Pallet {
            config,
            file: OrderedMap::new(),
            user_hold_file_list: OrderedMap::new(),
            filler_map: OrderedMap::new(),
            invalid_file: OrderedMap::new(),
            members: List::new(),
            purchased_package: OrderedMap::new(),
            unit_price: 0,
        };
        pallet
    }

    /// The parameters that the ledger was set up with.
    pub fn config(&self) -> (config: Config)
        ensures
            config == self@.config,
    {
        self.config
    }

    /// The unit price that was last put down.
    pub fn unit_price(&self) -> (price: u128)
        ensures
            price == self@.unit_price,
    {
        self.unit_price
    }

    /// Puts the unit price down as 100.
    pub fn update_price_for_tests(&mut self)
        requires
            old(self).wf(),
        ensures
            final(self).wf(),
            final(self)@ == (PalletView { unit_price: 100, ..old(self)@ }),
    {
        self.unit_price = 100;
    }
}

} // verus!

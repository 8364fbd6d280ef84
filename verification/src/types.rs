//! The records of the ledger, their mathematical views, and what an operation
//! hands back to its caller.

use vstd::prelude::*;
use crate::bytes::copy_bytes;
use crate::duplicate::Duplicate;
use crate::list::List;

verus! {

/// An account of the network: an owner of files, a miner or a coordinator.
pub type AccountId = u64;

/// A tick of the ledger's clock.
pub type BlockNumber = u32;

/// One mebibyte, in bytes.
pub const M_BYTE: u128 = 1_048_576;

/// One gibibyte, in bytes.
pub const G_BYTE: u128 = 1_073_741_824;

/// One tebibyte, in bytes.
pub const T_BYTE: u128 = 1_099_511_627_776;

/// Why an operation was refused. A refused operation leaves the ledger as it was.
#[derive(Clone, Copy, Debug, PartialEq, Eq, Structural)]
pub enum Error {
    /// The account is already among the owners of the file.
    AlreadyDeclared,
    /// The file has been uploaded before.
    AlreadyActive,
    /// The entry is already there.
    AlreadyExists,
    /// The account holds a lease already.
    AlreadyPurchased,
    /// The account is not among the owners of the file.
    NotOwner,
    /// The account has not declared the file.
    NotDeclaredByAccount,
    /// The lease has less free space than the file needs.
    InsufficientStorage,
    /// The miner has proved too little capacity for the file.
    MinerPowerInsufficient,
    /// A bounded list is full.
    StorageLimitReached,
    /// The caller is not a registered coordinator.
    UnauthorizedCoordinator,
    /// The miner is not in the state that the operation asks for.
    NotQualifiedMiner,
    /// A number left the range of its type.
    Overflow,
    /// The network reports no capacity to price against.
    DivisionByZero,
    /// No file or filler is recorded under the identifier.
    FileNotFound,
    /// The account holds no lease.
    NotPurchased,
    /// The lease is frozen.
    Frozen,
    /// No such package, or too small a count for it.
    InvalidTier,
    /// A batch holds more items than one call may carry.
    LengthExceedsLimit,
    /// A byte string is longer than the ledger stores.
    BoundedVecError,
}

/// The parameters that the ledger is set up with.
#[derive(Clone, Copy, Debug, PartialEq, Eq)]
pub struct Config {
    /// The longest byte string that is stored, and the longest list of owners,
    /// members and pending deletions.
    pub string_limit: u32,
    /// The most files that one account's index holds.
    pub item_limit: u32,
    /// The number of ticks in a day.
    pub one_day: BlockNumber,
    /// The tag under which the ledger asks for randomness.
    pub pallet_id: [u8; 8],
}

/// Where a file stands between declaration and upload.
#[derive(Clone, Copy, Debug, PartialEq, Eq, Structural)]
pub enum FileState {
    /// Declared by an owner, not stored yet.
    Declared,
    /// Stored on its miner.
    Active,
}

/// Whether a lease can still take files.
#[derive(Clone, Copy, Debug, PartialEq, Eq, Structural)]
pub enum LeaseState {
    Normal,
    /// Past its deadline and within the days of grace: nothing can be added.
    Frozen,
}

/// What the ledger knows of a file.
#[derive(Debug, PartialEq, Eq)]
pub struct FileInfo {
    pub file_size: u64,
    pub block_num: u32,
    pub scan_size: u32,
    pub segment_size: u32,
    pub miner_acc: AccountId,
    pub miner_id: u64,
    pub miner_ip: Vec<u8>,
    /// The owners, in the order in which they declared the file.
    pub user: List<AccountId>,
    /// The name that each owner gave the file, in the order of `user`.
    pub file_name: List<Vec<u8>>,
    pub file_state: FileState,
}

/// The view of a [`FileInfo`].
pub struct FileInfoView {
    pub file_size: u64,
    pub block_num: u32,
    pub scan_size: u32,
    pub segment_size: u32,
    pub miner_acc: AccountId,
    pub miner_id: u64,
    pub miner_ip: Seq<u8>,
    pub user: Seq<AccountId>,
    pub file_name: Seq<Seq<u8>>,
    pub file_state: FileState,
}

impl FileInfoView {
    /// Each owner has a name, no owner is listed twice, and there is an owner.
    pub open spec fn wf(self) -> bool {
        &&& self.user.len() == self.file_name.len()
        &&& self.user.len() >= 1
        &&& self.user.no_duplicates()
    }

    /// The file has at most `limit` owners, and its names and the address of
    /// its miner have at most `limit` bytes each.
    pub open spec fn within(self, limit: u32) -> bool {
        &&& self.user.len() <= limit
        &&& self.miner_ip.len() <= limit
        &&& forall|i: int|
            0 <= i < self.file_name.len() ==> (#[trigger] self.file_name[i]).len() <= limit
    }
}

impl View for FileInfo {
    type V = FileInfoView;

    open spec fn view(&self) -> FileInfoView {
        FileInfoView {
            file_size: self.file_size,
            block_num: self.block_num,
            scan_size: self.scan_size,
            segment_size: self.segment_size,
            miner_acc: self.miner_acc,
            miner_id: self.miner_id,
            miner_ip: self.miner_ip@,
            user: self.user@,
            file_name: self.file_name@,
            file_state: self.file_state,
        }
    }
}

impl Duplicate for FileInfo {
    fn duplicate(&self) -> (copy: Self) {
        FileInfo {
            file_size: self.file_size,
            block_num: self.block_num,
            scan_size: self.scan_size,
            segment_size: self.segment_size,
            miner_acc: self.miner_acc,
            miner_id: self.miner_id,
            miner_ip: copy_bytes(&self.miner_ip),
            user: self.user.duplicate(),
            file_name: self.file_name.duplicate(),
            file_state: self.file_state,
        }
    }
}

/// A placeholder with which a miner proves capacity that no file uses yet.
#[derive(Debug, PartialEq, Eq)]
pub struct FillerInfo {
    pub filler_size: u64,
    pub block_num: u32,
    pub segment_size: u32,
    pub miner_address: AccountId,
    pub filler_id: Vec<u8>,
}

/// The view of a [`FillerInfo`].
pub struct FillerInfoView {
    pub filler_size: u64,
    pub block_num: u32,
    pub segment_size: u32,
    pub miner_address: AccountId,
    pub filler_id: Seq<u8>,
}

impl View for FillerInfo {
    type V = FillerInfoView;

    open spec fn view(&self) -> FillerInfoView {
        FillerInfoView {
            filler_size: self.filler_size,
            block_num: self.block_num,
            segment_size: self.segment_size,
            miner_address: self.miner_address,
            filler_id: self.filler_id@,
        }
    }
}

impl Duplicate for FillerInfo {
    fn duplicate(&self) -> (copy: Self) {
        FillerInfo {
            filler_size: self.filler_size,
            block_num: self.block_num,
            segment_size: self.segment_size,
            miner_address: self.miner_address,
            filler_id: copy_bytes(&self.filler_id),
        }
    }
}

/// A lease: the space that an account has bought, and what it has used of it.
#[derive(Clone, Copy, Debug, PartialEq, Eq)]
pub struct PackageDetails {
    pub space: u128,
    pub used_space: u128,
    pub remaining_space: u128,
    /// The months that the lease runs.
    pub tenancy: u32,
    pub package_type: u8,
    pub start: BlockNumber,
    pub deadline: BlockNumber,
    pub state: LeaseState,
}

impl View for PackageDetails {
    type V = PackageDetails;

    open spec fn view(&self) -> PackageDetails {
        *self
    }
}

impl Duplicate for PackageDetails {
    fn duplicate(&self) -> (copy: Self) {
        *self
    }
}

/// One entry of an account's index of the files that it holds.
#[derive(Debug, PartialEq, Eq)]
pub struct UserFileSliceInfo {
    pub file_hash: Vec<u8>,
    pub file_size: u64,
}

/// The view of a [`UserFileSliceInfo`].
pub struct UserFileSliceInfoView {
    pub file_hash: Seq<u8>,
    pub file_size: u64,
}

impl View for UserFileSliceInfo {
    type V = UserFileSliceInfoView;

    open spec fn view(&self) -> UserFileSliceInfoView {
        UserFileSliceInfoView { file_hash: self.file_hash@, file_size: self.file_size }
    }
}

impl Duplicate for UserFileSliceInfo {
    fn duplicate(&self) -> (copy: Self) {
        UserFileSliceInfo { file_hash: copy_bytes(&self.file_hash), file_size: self.file_size }
    }
}

/// A notice that the ledger gives of what it did.
#[derive(Debug, PartialEq, Eq)]
pub enum Event {
    /// An account declared the file `file_hash` under the name `file_name`.
    UploadDeclaration { acc: AccountId, file_hash: Vec<u8>, file_name: Vec<u8> },
    /// A file of the account was stored.
    FileUpload { acc: AccountId },
    /// A coordinator recorded fillers worth `file_size` bytes of capacity.
    FillerUpload { acc: AccountId, file_size: u64 },
    /// An account gave up the file `fileid`.
    DeleteFile { acc: AccountId, fileid: Vec<u8> },
    /// A miner has purged `file_hash` from its list of pending deletions.
    ClearInvalidFile { acc: AccountId, file_hash: Vec<u8> },
    /// A lease of `size` bytes ran out.
    LeaseExpired { acc: AccountId, size: u128 },
}

/// The view of an [`Event`].
pub enum EventView {
    UploadDeclaration { acc: AccountId, file_hash: Seq<u8>, file_name: Seq<u8> },
    FileUpload { acc: AccountId },
    FillerUpload { acc: AccountId, file_size: u64 },
    DeleteFile { acc: AccountId, fileid: Seq<u8> },
    ClearInvalidFile { acc: AccountId, file_hash: Seq<u8> },
    LeaseExpired { acc: AccountId, size: u128 },
}

impl View for Event {
    type V = EventView;

    open spec fn view(&self) -> EventView {
        match *self {
            Event::UploadDeclaration { acc, file_hash, file_name } => EventView::UploadDeclaration {
                acc,
                file_hash: file_hash@,
                file_name: file_name@,
            },
            Event::FileUpload { acc } => EventView::FileUpload { acc },
            Event::FillerUpload { acc, file_size } => EventView::FillerUpload { acc, file_size },
            Event::DeleteFile { acc, fileid } => EventView::DeleteFile { acc, fileid: fileid@ },
            Event::ClearInvalidFile { acc, file_hash } => EventView::ClearInvalidFile {
                acc,
                file_hash: file_hash@,
            },
            Event::LeaseExpired { acc, size } => EventView::LeaseExpired { acc, size },
        }
    }
}

/// What the caller of an operation has to carry out with the services around
/// the ledger, in the order given.
#[derive(Debug, PartialEq, Eq)]
pub enum Effect {
    /// Publish the notice.
    Deposit(Event),
    /// Move `amount` from the account to the ledger's own account.
    Transfer { from: AccountId, amount: u128 },
    /// Credit the miner with `amount` bytes of proven capacity.
    AddPower { miner: AccountId, amount: u128 },
    /// Take `amount` bytes of proven capacity from the miner.
    SubPower { miner: AccountId, amount: u128 },
    /// Take `amount` bytes from the space that the miner's files use.
    SubSpace { miner: AccountId, amount: u128 },
}

/// The view of an [`Effect`].
pub enum EffectView {
    Deposit(EventView),
    Transfer { from: AccountId, amount: u128 },
    AddPower { miner: AccountId, amount: u128 },
    SubPower { miner: AccountId, amount: u128 },
    SubSpace { miner: AccountId, amount: u128 },
}

impl View for Effect {
    type V = EffectView;

    open spec fn view(&self) -> EffectView {
        match *self {
            Effect::Deposit(event) => EffectView::Deposit(event@),
            Effect::Transfer { from, amount } => EffectView::Transfer { from, amount },
            Effect::AddPower { miner, amount } => EffectView::AddPower { miner, amount },
            Effect::SubPower { miner, amount } => EffectView::SubPower { miner, amount },
            Effect::SubSpace { miner, amount } => EffectView::SubSpace { miner, amount },
        }
    }
}

/// Effects by their views, in their order. Only a notice can carry byte
/// strings: contracts name the other effects as they are, and go through this
/// view where a notice with byte strings is among them.
pub open spec fn effects_view(effects: Seq<Effect>) -> Seq<EffectView> {
    effects.map_values(|e: Effect| e@)
}

/// What the capacity accounts report of a miner.
#[derive(Clone, Copy, Debug, PartialEq, Eq)]
pub struct MinerCapacity {
    /// The capacity that the miner has proved, in bytes.
    pub power: u128,
    /// The space that files on the miner use, in bytes.
    pub space: u128,
}

} // verus!

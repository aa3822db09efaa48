use vstd::prelude::*;

verus! {

/// How the planner obtains the partition requests.
#[derive(Clone, Copy, Debug, PartialEq, Eq, Structural)]
pub enum LayoutMode {
    /// The planner derives the whole scheme itself.
    Automatic,
    /// The caller supplies the partition requests.
    Manual,
}

/// Partition table written to the device.
#[derive(Clone, Copy, Debug, PartialEq, Eq, Structural)]
pub enum TableType {
    Gpt,
    Msdos,
}

/// Content of a partition. `Efi` is an EFI system partition (vfat); `Swap`
/// is a swap area and has no mountpoint.
#[derive(Clone, Copy, Debug, PartialEq, Eq, Structural)]
pub enum FsType {
    Ext4,
    Btrfs,
    Xfs,
    Efi,
    Swap,
}

/// Requested size of a partition, in MiB.
#[derive(Clone, Copy, Debug, PartialEq, Eq, Structural)]
pub enum SizeSpec {
    Fixed(u64),
    /// Whatever is left once every fixed request is placed.
    Remaining,
}

/// One partition that the caller asks for.
#[derive(Clone, Debug, PartialEq, Eq)]
pub struct PartitionRequest {
    /// `None` for swap, else an absolute path such as `/` or `/boot/efi`.
    pub mountpoint: Option<String>,
    pub size: SizeSpec,
    pub fs: FsType,
    /// Position of the partition on the device, counted from one.
    pub ordinal: u32,
    pub encrypted: bool,
}

/// Mathematical view of a [`PartitionRequest`].
pub struct RequestModel {
    pub mountpoint: Option<Seq<char>>,
    pub size: SizeSpec,
    pub fs: FsType,
    pub ordinal: u32,
    pub encrypted: bool,
}

impl View for PartitionRequest {
    type V = RequestModel;

    open spec fn view(&self) -> RequestModel {
        RequestModel {
            mountpoint: match self.mountpoint {
                Some(m) => Some(m@),
                None => None,
            },
            size: self.size,
            fs: self.fs,
            ordinal: self.ordinal,
            encrypted: self.encrypted,
        }
    }
}

/// Snapshot of the target device, as the device inspector reported it.
#[derive(Clone, Debug, PartialEq, Eq)]
pub struct Device {
    pub path: String,
    /// Space that partitions may use, in MiB.
    pub free_mib: u64,
    pub table: Option<TableType>,
    pub mounted: bool,
}

/// MiB kept free on a device: one in front for the partition table, one at
/// the end for the backup GPT header.
pub const RESERVED_MIB: u64 = 2;

/// MiB that partitions may use on a device of `size_bytes` bytes.
pub open spec fn usable_mib(size_bytes: u64) -> u64 {
    let mib = size_bytes / 1048576;
    if mib >= RESERVED_MIB {
        (mib - RESERVED_MIB) as u64
    } else {
        0
    }
}

impl Device {
    /// The snapshot of a device of `size_bytes` bytes at `path`.
    pub fn from_size(path: String, size_bytes: u64, table: Option<TableType>, mounted: bool) -> (d: Device)
        ensures
            d.path == path,
            d.free_mib == usable_mib(size_bytes),
            d.table == table,
            d.mounted == mounted,
    {
        let mib = size_bytes / 1048576;
        let free_mib = if mib >= RESERVED_MIB {
            mib - RESERVED_MIB
        } else {
            0
        };
        Device { path, free_mib, table, mounted }
    }
}

/// Where a swap area is made.
#[derive(Clone, Copy, Debug, PartialEq, Eq, Structural)]
pub enum SwapTarget {
    /// A new partition with this ordinal, starting this many MiB into the free space.
    Partition { ordinal: u32, start_mib: u64 },
    /// A swap file on the root filesystem.
    File,
}

/// One step of a layout plan.
#[derive(Clone, Debug, PartialEq, Eq)]
pub enum Operation {
    CreateTable(TableType),
    /// Creates a partition `size_mib` long, `start_mib` into the device's free space.
    CreatePartition { ordinal: u32, start_mib: u64, size_mib: u64, fs: FsType },
    EncryptPartition { ordinal: u32 },
    FormatFilesystem { ordinal: u32, fs: FsType },
    CreateSwap { target: SwapTarget, size_mib: u64 },
    Mount { ordinal: u32, mountpoint: String },
}

/// Mathematical view of an [`Operation`].
pub enum OperationModel {
    CreateTable(TableType),
    CreatePartition { ordinal: u32, start_mib: u64, size_mib: u64, fs: FsType },
    EncryptPartition { ordinal: u32 },
    FormatFilesystem { ordinal: u32, fs: FsType },
    CreateSwap { target: SwapTarget, size_mib: u64 },
    Mount { ordinal: u32, mountpoint: Seq<char> },
}

impl View for Operation {
    type V = OperationModel;

    open spec fn view(&self) -> OperationModel {
        match self {
            Operation::CreateTable(t) => OperationModel::CreateTable(*t),
            Operation::CreatePartition { ordinal, start_mib, size_mib, fs } =>
                OperationModel::CreatePartition {
                    ordinal: *ordinal,
                    start_mib: *start_mib,
                    size_mib: *size_mib,
                    fs: *fs,
                },
            Operation::EncryptPartition { ordinal } =>
                OperationModel::EncryptPartition { ordinal: *ordinal },
            Operation::FormatFilesystem { ordinal, fs } =>
                OperationModel::FormatFilesystem { ordinal: *ordinal, fs: *fs },
            Operation::CreateSwap { target, size_mib } =>
                OperationModel::CreateSwap { target: *target, size_mib: *size_mib },
            Operation::Mount { ordinal, mountpoint } =>
                OperationModel::Mount { ordinal: *ordinal, mountpoint: mountpoint@ },
        }
    }
}

/// The invariant of a request list that the planner found broken.
#[derive(Clone, Copy, Debug, PartialEq, Eq, Structural)]
pub enum Violation {
    /// Swap is enabled with a size of zero.
    NonPositiveSwap,
    /// A swap request has a mountpoint, another request has none, or a
    /// mountpoint is not a normalised absolute path.
    BadMountpoint,
    /// A fixed size of zero.
    ZeroSize,
    /// A swap or EFI request is marked encrypted.
    UnencryptableRequest,
    /// Two requests share an ordinal, or an ordinal is zero.
    BadOrdinal,
    DuplicateMountpoint,
    MissingRoot,
    MultipleRemaining,
    /// The request for the remaining space is not the last on the device.
    RemainingNotLast,
    /// EFI is requested but not exactly one request is an EFI system partition.
    EfiMismatch,
    /// Full-disk encryption is demanded but a data request is not encrypted.
    EncryptionMismatch,
}

/// Why a plan could not be made.
#[derive(Clone, Copy, Debug, PartialEq, Eq, Structural)]
pub enum LayoutError {
    InvalidLayout(Violation),
    InsufficientSpace,
    DeviceUnavailable,
}

pub open spec fn requests_model(v: Seq<PartitionRequest>) -> Seq<RequestModel> {
    v.map_values(|r: PartitionRequest| r@)
}

pub open spec fn operations_model(v: Seq<Operation>) -> Seq<OperationModel> {
    v.map_values(|o: Operation| o@)
}

} // verus!

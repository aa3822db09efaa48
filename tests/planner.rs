use aegis::{
    plan, FsType, LayoutError, LayoutMode, Operation, PartitionRequest, SizeSpec, SwapTarget,
    TableType, Violation, Device, EFI_SIZE_MIB,
};

fn device(free_mib: u64) -> Device {
    Device { path: String::from("/dev/sda"), free_mib, table: None, mounted: false }
}

fn req(mountpoint: Option<&str>, size: SizeSpec, fs: FsType, ordinal: u32, encrypted: bool) -> PartitionRequest {
    PartitionRequest { mountpoint: mountpoint.map(String::from), size, fs, ordinal, encrypted }
}

fn mount(ordinal: u32, mp: &str) -> Operation {
    Operation::Mount { ordinal, mountpoint: String::from(mp) }
}

fn manual(free: u64, efi: bool, reqs: &Vec<PartitionRequest>) -> Result<Vec<Operation>, LayoutError> {
    plan(&device(free), LayoutMode::Manual, false, efi, false, 0, reqs)
}

#[test]
fn automatic_efi_swap_scenario() {
    let ops = plan(&device(20480), LayoutMode::Automatic, false, true, true, 2048, &Vec::new()).unwrap();
    assert_eq!(EFI_SIZE_MIB, 512);
    let expected = vec![
        Operation::CreateTable(TableType::Gpt),
        Operation::CreatePartition { ordinal: 1, start_mib: 0, size_mib: 512, fs: FsType::Efi },
        Operation::FormatFilesystem { ordinal: 1, fs: FsType::Efi },
        Operation::CreateSwap { target: SwapTarget::Partition { ordinal: 2, start_mib: 512 }, size_mib: 2048 },
        Operation::CreatePartition { ordinal: 3, start_mib: 2560, size_mib: 17920, fs: FsType::Ext4 },
        Operation::FormatFilesystem { ordinal: 3, fs: FsType::Ext4 },
        mount(3, "/"),
        mount(1, "/boot/efi"),
    ];
    assert_eq!(ops, expected);
}

#[test]
fn automatic_legacy_without_swap() {
    let ops = plan(&device(1000), LayoutMode::Automatic, false, false, false, 0, &Vec::new()).unwrap();
    assert_eq!(
        ops,
        vec![
            Operation::CreateTable(TableType::Msdos),
            Operation::CreatePartition { ordinal: 1, start_mib: 0, size_mib: 1000, fs: FsType::Ext4 },
            Operation::FormatFilesystem { ordinal: 1, fs: FsType::Ext4 },
            mount(1, "/"),
        ]
    );
}

#[test]
fn automatic_encrypted_root() {
    let ops = plan(&device(1000), LayoutMode::Automatic, true, false, false, 0, &Vec::new()).unwrap();
    assert_eq!(ops[2], Operation::EncryptPartition { ordinal: 1 });
    assert_eq!(ops[3], Operation::FormatFilesystem { ordinal: 1, fs: FsType::Ext4 });
}

#[test]
fn automatic_swap_too_large() {
    let r = plan(&device(20480), LayoutMode::Automatic, false, true, true, 19968, &Vec::new());
    assert_eq!(r, Err(LayoutError::InsufficientSpace));
    let r = plan(&device(20480), LayoutMode::Automatic, false, true, true, 19967, &Vec::new());
    assert!(r.is_ok());
}

#[test]
fn mounted_device_is_unavailable() {
    let mut d = device(20480);
    d.mounted = true;
    let r = plan(&d, LayoutMode::Automatic, false, true, false, 0, &Vec::new());
    assert_eq!(r, Err(LayoutError::DeviceUnavailable));
}

#[test]
fn mounts_follow_depth_not_input_order() {
    let reqs = vec![
        req(Some("/home/media"), SizeSpec::Remaining, FsType::Xfs, 5, false),
        req(Some("/boot/efi"), SizeSpec::Fixed(512), FsType::Efi, 1, false),
        req(Some("/home"), SizeSpec::Fixed(4000), FsType::Ext4, 4, false),
        req(Some("/boot"), SizeSpec::Fixed(1024), FsType::Ext4, 2, false),
        req(Some("/"), SizeSpec::Fixed(8000), FsType::Btrfs, 3, false),
    ];
    let ops = manual(20000, true, &reqs).unwrap();
    let mounts: Vec<Operation> = ops.iter().filter(|o| matches!(o, Operation::Mount { .. })).cloned().collect();
    assert_eq!(
        mounts,
        vec![mount(3, "/"), mount(2, "/boot"), mount(4, "/home"), mount(1, "/boot/efi"), mount(5, "/home/media")]
    );
    // partitions in device order, laid out back to back
    assert_eq!(ops[1], Operation::CreatePartition { ordinal: 1, start_mib: 0, size_mib: 512, fs: FsType::Efi });
    assert_eq!(ops[3], Operation::CreatePartition { ordinal: 2, start_mib: 512, size_mib: 1024, fs: FsType::Ext4 });
    assert_eq!(
        ops[9],
        Operation::CreatePartition { ordinal: 5, start_mib: 13536, size_mib: 6464, fs: FsType::Xfs }
    );
}

#[test]
fn table_is_created_first_and_once() {
    let reqs = vec![
        req(Some("/"), SizeSpec::Remaining, FsType::Ext4, 2, false),
        req(None, SizeSpec::Fixed(100), FsType::Swap, 1, false),
    ];
    let ops = manual(1000, false, &reqs).unwrap();
    assert_eq!(ops[0], Operation::CreateTable(TableType::Msdos));
    assert_eq!(ops.iter().filter(|o| matches!(o, Operation::CreateTable(_))).count(), 1);
    assert_eq!(
        ops[1],
        Operation::CreateSwap { target: SwapTarget::Partition { ordinal: 1, start_mib: 0 }, size_mib: 100 }
    );
}

#[test]
fn encryption_between_create_and_format() {
    let reqs = vec![
        req(Some("/home"), SizeSpec::Remaining, FsType::Ext4, 2, true),
        req(Some("/"), SizeSpec::Fixed(500), FsType::Ext4, 1, false),
    ];
    let ops = manual(1000, false, &reqs).unwrap();
    assert_eq!(
        ops,
        vec![
            Operation::CreateTable(TableType::Msdos),
            Operation::CreatePartition { ordinal: 1, start_mib: 0, size_mib: 500, fs: FsType::Ext4 },
            Operation::FormatFilesystem { ordinal: 1, fs: FsType::Ext4 },
            Operation::CreatePartition { ordinal: 2, start_mib: 500, size_mib: 500, fs: FsType::Ext4 },
            Operation::EncryptPartition { ordinal: 2 },
            Operation::FormatFilesystem { ordinal: 2, fs: FsType::Ext4 },
            mount(1, "/"),
            mount(2, "/home"),
        ]
    );
}

#[test]
fn planning_is_deterministic() {
    let reqs = vec![
        req(Some("/"), SizeSpec::Remaining, FsType::Ext4, 2, false),
        req(Some("/boot/efi"), SizeSpec::Fixed(300), FsType::Efi, 1, false),
    ];
    let a = plan(&device(5000), LayoutMode::Manual, false, true, true, 100, &reqs);
    let b = plan(&device(5000), LayoutMode::Manual, false, true, true, 100, &reqs);
    assert_eq!(a, b);
    let ops = a.unwrap();
    assert_eq!(ops.last(), Some(&Operation::CreateSwap { target: SwapTarget::File, size_mib: 100 }));
}

#[test]
fn duplicate_home_is_invalid() {
    let reqs = vec![
        req(Some("/"), SizeSpec::Fixed(100), FsType::Ext4, 1, false),
        req(Some("/home"), SizeSpec::Fixed(100), FsType::Ext4, 2, false),
        req(Some("/home"), SizeSpec::Fixed(100), FsType::Ext4, 3, false),
    ];
    assert_eq!(manual(1000, false, &reqs), Err(LayoutError::InvalidLayout(Violation::DuplicateMountpoint)));
}

#[test]
fn missing_root_is_invalid() {
    let reqs = vec![req(Some("/home"), SizeSpec::Fixed(100), FsType::Ext4, 1, false)];
    assert_eq!(manual(1000, false, &reqs), Err(LayoutError::InvalidLayout(Violation::MissingRoot)));
    assert_eq!(manual(1000, false, &Vec::new()), Err(LayoutError::InvalidLayout(Violation::MissingRoot)));
}

#[test]
fn efi_without_efi_request_is_invalid() {
    let reqs = vec![req(Some("/"), SizeSpec::Remaining, FsType::Ext4, 1, false)];
    assert_eq!(manual(1000, true, &reqs), Err(LayoutError::InvalidLayout(Violation::EfiMismatch)));
    let two = vec![
        req(Some("/"), SizeSpec::Remaining, FsType::Ext4, 3, false),
        req(Some("/boot/efi"), SizeSpec::Fixed(100), FsType::Efi, 1, false),
        req(Some("/efi"), SizeSpec::Fixed(100), FsType::Efi, 2, false),
    ];
    assert_eq!(manual(1000, true, &two), Err(LayoutError::InvalidLayout(Violation::EfiMismatch)));
}

#[test]
fn two_remaining_requests_are_invalid() {
    let reqs = vec![
        req(Some("/"), SizeSpec::Remaining, FsType::Ext4, 1, false),
        req(Some("/home"), SizeSpec::Remaining, FsType::Ext4, 2, false),
    ];
    assert_eq!(manual(1000, false, &reqs), Err(LayoutError::InvalidLayout(Violation::MultipleRemaining)));
}

#[test]
fn remaining_not_last_is_invalid() {
    let reqs = vec![
        req(Some("/"), SizeSpec::Remaining, FsType::Ext4, 1, false),
        req(Some("/home"), SizeSpec::Fixed(10), FsType::Ext4, 2, false),
    ];
    assert_eq!(manual(1000, false, &reqs), Err(LayoutError::InvalidLayout(Violation::RemainingNotLast)));
}

#[test]
fn other_violations() {
    let zero_swap = vec![req(Some("/"), SizeSpec::Remaining, FsType::Ext4, 1, false)];
    assert_eq!(
        plan(&device(1000), LayoutMode::Manual, false, false, true, 0, &zero_swap),
        Err(LayoutError::InvalidLayout(Violation::NonPositiveSwap))
    );
    let bad_mp = vec![req(Some("/home/"), SizeSpec::Fixed(1), FsType::Ext4, 1, false)];
    assert_eq!(manual(1000, false, &bad_mp), Err(LayoutError::InvalidLayout(Violation::BadMountpoint)));
    let swap_mp = vec![req(Some("/swap"), SizeSpec::Fixed(1), FsType::Swap, 1, false)];
    assert_eq!(manual(1000, false, &swap_mp), Err(LayoutError::InvalidLayout(Violation::BadMountpoint)));
    let zero = vec![req(Some("/"), SizeSpec::Fixed(0), FsType::Ext4, 1, false)];
    assert_eq!(manual(1000, false, &zero), Err(LayoutError::InvalidLayout(Violation::ZeroSize)));
    let enc_swap = vec![
        req(Some("/"), SizeSpec::Fixed(5), FsType::Ext4, 1, false),
        req(None, SizeSpec::Fixed(5), FsType::Swap, 2, true),
    ];
    assert_eq!(manual(1000, false, &enc_swap), Err(LayoutError::InvalidLayout(Violation::UnencryptableRequest)));
    let same_ord = vec![
        req(Some("/"), SizeSpec::Fixed(5), FsType::Ext4, 1, false),
        req(Some("/var"), SizeSpec::Fixed(5), FsType::Ext4, 1, false),
    ];
    assert_eq!(manual(1000, false, &same_ord), Err(LayoutError::InvalidLayout(Violation::BadOrdinal)));
    let mixed = vec![
        req(Some("/"), SizeSpec::Fixed(5), FsType::Ext4, 1, true),
        req(Some("/var"), SizeSpec::Fixed(5), FsType::Ext4, 2, false),
    ];
    assert_eq!(
        plan(&device(1000), LayoutMode::Manual, true, false, false, 0, &mixed),
        Err(LayoutError::InvalidLayout(Violation::EncryptionMismatch))
    );
}

#[test]
fn manual_swap_exceeding_free_space() {
    let reqs = vec![
        req(Some("/boot"), SizeSpec::Fixed(600), FsType::Ext4, 1, false),
        req(Some("/"), SizeSpec::Fixed(300), FsType::Ext4, 2, false),
    ];
    assert_eq!(
        plan(&device(1000), LayoutMode::Manual, false, false, true, 101, &reqs),
        Err(LayoutError::InsufficientSpace)
    );
    assert!(plan(&device(1000), LayoutMode::Manual, false, false, true, 100, &reqs).is_ok());
    assert_eq!(manual(899, false, &reqs), Err(LayoutError::InsufficientSpace));
}

#[test]
fn device_size_to_usable_space() {
    let d = Device::from_size(String::from("/dev/vda"), 20 * 1024 * 1024 * 1024, None, false);
    assert_eq!(d.free_mib, 20480 - aegis::RESERVED_MIB);
    assert_eq!(Device::from_size(String::from("/dev/vda"), 1048576, None, true).free_mib, 0);
}

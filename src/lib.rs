//! Disk layout planning and execution for an operating-system installer.
//!
//! The planner turns a device snapshot, a layout mode, a few flags and a list of
//! partition requests into an ordered plan of disk operations. The executor walks
//! such a plan one operation at a time, deciding after each tool run whether to go
//! on or to stop for good.
mod executor;
mod hardware;
mod install;
mod laws;
mod layout;
mod mountpoint;
mod order;
mod planner;
mod steps;
mod tools;
mod validate;

pub use layout::{
    Device, FsType, LayoutError, LayoutMode, Operation, OperationModel, PartitionRequest,
    RequestModel, SizeSpec, SwapTarget, TableType, Violation, RESERVED_MIB,
};
pub use mountpoint::{depth, is_well_formed_mountpoint, mountpoint_depth, well_formed_mountpoint};
pub use validate::{find_violation, violation};
pub use planner::{plan, plan_result, EFI_SIZE_MIB};
pub use executor::{evaluate, CommandResult, Execution, ExecutionOutcome};
pub use laws::{
    is_ancestor, law_encryption_between_create_and_format, law_halts_at_first_failure,
    law_mounts_by_depth, law_parent_mounted_before_child,
    law_plan_deterministic, law_swap_exceeding_space, law_table_created_first_and_once,
};
pub use steps::{
    efi_bootloader_commands, efi_directory, genfstab, kernel_headers, kernel_package,
    legacy_bootloader_commands, Command, CommandModel,
};
pub use tools::operation_commands;
pub use hardware::{cpu_detect, cpu_gpu_check, virt_check, virt_detection_ok, virt_extras, ParamEdit, VirtExtras};
pub use install::{
    install_base_packages, install_bootloader_efi, install_bootloader_legacy, install_busybox,
    install_cherrytree, install_cuda, install_flameshot, install_flatpak, install_homemgr,
    install_spotify, install_toybox, install_zram, secure_password_config, secure_ssh_config,
    setup_snapper, setup_timeshift, InstallStep, StepModel,
};

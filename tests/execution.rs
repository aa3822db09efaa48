use aegis::{operation_commands, evaluate, CommandResult, Execution, ExecutionOutcome, FsType, Operation, TableType};

fn ok() -> CommandResult {
    CommandResult::Exited { code: 0, stderr: String::new() }
}

fn five_operations() -> Vec<Operation> {
    vec![
        Operation::CreateTable(TableType::Gpt),
        Operation::CreatePartition { ordinal: 1, start_mib: 0, size_mib: 10, fs: FsType::Ext4 },
        Operation::FormatFilesystem { ordinal: 1, fs: FsType::Ext4 },
        Operation::Mount { ordinal: 1, mountpoint: String::from("/") },
        Operation::CreateSwap { target: aegis::SwapTarget::File, size_mib: 1 },
    ]
}

#[test]
fn halts_at_third_failure() {
    let mut e = Execution::new(five_operations());
    e.record(ok());
    e.record(ok());
    assert_eq!(e.next_index(), Some(2));
    e.record(CommandResult::Exited { code: 1, stderr: String::from("mkfs failed") });
    assert_eq!(e.next_index(), None);
    assert!(e.next_operation().is_none());
    assert!(!e.all_succeeded());
    assert_eq!(
        e.outcomes(),
        &vec![
            ExecutionOutcome::Succeeded { index: 0 },
            ExecutionOutcome::Succeeded { index: 1 },
            ExecutionOutcome::Failed { index: 2, code: Some(1), diagnostics: String::from("mkfs failed") },
        ]
    );
}

#[test]
fn launch_failure_halts() {
    let mut e = Execution::new(five_operations());
    e.record(CommandResult::LaunchFailure { reason: String::from("not found") });
    assert_eq!(e.next_index(), None);
    assert_eq!(
        e.outcomes(),
        &vec![ExecutionOutcome::Failed { index: 0, code: None, diagnostics: String::from("not found") }]
    );
}

#[test]
fn all_operations_succeed() {
    let mut e = Execution::new(five_operations());
    let mut n = 0;
    while let Some(op) = e.next_operation() {
        let _ = op;
        e.record(ok());
        n += 1;
    }
    assert_eq!(n, 5);
    assert!(e.all_succeeded());
}

#[test]
fn evaluation_of_results() {
    assert!(evaluate(&ok()));
    assert!(!evaluate(&CommandResult::Exited { code: 2, stderr: String::new() }));
    assert!(!evaluate(&CommandResult::LaunchFailure { reason: String::new() }));
}

#[test]
fn tool_commands_for_operations() {
    let plan = vec![
        Operation::CreateTable(TableType::Gpt),
        Operation::CreatePartition { ordinal: 1, start_mib: 0, size_mib: 512, fs: FsType::Efi },
        Operation::CreatePartition { ordinal: 2, start_mib: 512, size_mib: 1000, fs: FsType::Ext4 },
        Operation::EncryptPartition { ordinal: 2 },
        Operation::FormatFilesystem { ordinal: 2, fs: FsType::Ext4 },
        Operation::Mount { ordinal: 2, mountpoint: String::from("/") },
        Operation::Mount { ordinal: 1, mountpoint: String::from("/boot/efi") },
        Operation::CreateSwap { target: aegis::SwapTarget::File, size_mib: 2048 },
    ];
    let dev = "/dev/nvme0n1";
    let t = operation_commands(&plan, 0, dev);
    assert_eq!(t[0].program, "parted");
    assert_eq!(t[0].args, vec!["-s", "/dev/nvme0n1", "mklabel", "gpt"]);
    let p = operation_commands(&plan, 1, dev);
    assert_eq!(p.len(), 2);
    assert_eq!(p[0].args, vec!["-s", "/dev/nvme0n1", "mkpart", "primary", "fat32", "1MiB", "513MiB"]);
    assert_eq!(p[1].args, vec!["-s", "/dev/nvme0n1", "set", "1", "esp", "on"]);
    let e = operation_commands(&plan, 3, dev);
    assert_eq!(e[0].args, vec!["-q", "luksFormat", "/dev/nvme0n1p2"]);
    assert_eq!(e[1].args, vec!["open", "/dev/nvme0n1p2", "crypt2"]);
    let f = operation_commands(&plan, 4, dev);
    assert_eq!(f[0].program, "mkfs.ext4");
    assert_eq!(f[0].args, vec!["-F", "/dev/mapper/crypt2"]);
    let m = operation_commands(&plan, 5, dev);
    assert_eq!(m[0].args, vec!["--mkdir", "/dev/mapper/crypt2", "/mnt/"]);
    let m = operation_commands(&plan, 6, dev);
    assert_eq!(m[0].args, vec!["--mkdir", "/dev/nvme0n1p1", "/mnt/boot/efi"]);
    let s = operation_commands(&plan, 7, dev);
    assert_eq!(s.len(), 4);
    assert_eq!(s[0].args, vec!["-l", "2048M", "/mnt/swapfile"]);
    let sda = operation_commands(&plan, 6, "/dev/sda");
    assert_eq!(sda[0].args[1], "/dev/sda1");
}

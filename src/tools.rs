use vstd::prelude::*;
use crate::layout::{FsType, Operation, SwapTarget, TableType};
use crate::steps::{Command, CommandModel, commands_model, strings_model};

verus! {

pub open spec fn digit(d: nat) -> char {
    if d == 0 {
        '0'
    } else if d == 1 {
        '1'
    } else if d == 2 {
        '2'
    } else if d == 3 {
        '3'
    } else if d == 4 {
        '4'
    } else if d == 5 {
        '5'
    } else if d == 6 {
        '6'
    } else if d == 7 {
        '7'
    } else if d == 8 {
        '8'
    } else {
        '9'
    }
}

/// The decimal digits of `n`, without leading zeros.
pub open spec fn decimal(n: nat) -> Seq<char>
    decreases n,
{
    if n < 10 {
        seq![digit(n)]
    } else {
        decimal(n / 10) + seq![digit(n % 10)]
    }
}

fn digit_str(d: u128) -> (r: &'static str)
    requires
        d < 10,
    ensures
        r@ == seq![digit(d as nat)],
{
    proof {
        reveal_strlit("0");
        reveal_strlit("1");
        reveal_strlit("2");
        reveal_strlit("3");
        reveal_strlit("4");
        reveal_strlit("5");
        reveal_strlit("6");
        reveal_strlit("7");
        reveal_strlit("8");
        reveal_strlit("9");
    }
    let r = if d == 0 {
        "0"
    } else if d == 1 {
        "1"
    } else if d == 2 {
        "2"
    } else if d == 3 {
        "3"
    } else if d == 4 {
        "4"
    } else if d == 5 {
        "5"
    } else if d == 6 {
        "6"
    } else if d == 7 {
        "7"
    } else if d == 8 {
        "8"
    } else {
        "9"
    };
    assert(r@ =~= seq![digit(d as nat)]);
    r
}

fn append_decimal(out: &mut String, n: u128)
    ensures
        final(out)@ == old(out)@ + decimal(n as nat),
    decreases n,
{
    if n >= 10 {
        append_decimal(out, n / 10);
    }
    out.append(digit_str(n % 10));
    proof {
        if n < 10 {
            assert(n % 10 == n);
        }
    }
    assert(out@ =~= old(out)@ + decimal(n as nat));
}

fn text(s: &str) -> (r: String)
    ensures
        r@ == s@,
{
    String::from_str(s)
}

fn concat(a: &str, b: &str) -> (r: String)
    ensures
        r@ == a@ + b@,
{
    let mut r = String::from_str(a);
    r.append(b);
    r
}

fn with_decimal(prefix: &str, n: u128, suffix: &str) -> (r: String)
    ensures
        r@ == prefix@ + decimal(n as nat) + suffix@,
{
    let mut r = String::from_str(prefix);
    append_decimal(&mut r, n);
    r.append(suffix);
    r
}

pub open spec fn is_digit(c: char) -> bool {
    '0' <= c && c <= '9'
}

/// Path of partition `ordinal` of `device`: `/dev/sda` gives `/dev/sda2`, and a
/// device whose name ends in a digit takes a `p` first (`/dev/nvme0n1p2`).
pub open spec fn partition_path(device: Seq<char>, ordinal: nat) -> Seq<char> {
    if device.len() > 0 && is_digit(device.last()) {
        device + seq!['p'] + decimal(ordinal)
    } else {
        device + decimal(ordinal)
    }
}

/// Name under `/dev/mapper` of the opened encrypted partition `ordinal`.
pub open spec fn mapper_name(ordinal: nat) -> Seq<char> {
    "crypt"@ + decimal(ordinal)
}

/// The plan encrypts partition `ordinal` before operation `i`.
pub open spec fn encrypted_before(plan: Seq<Operation>, i: int, ordinal: u32) -> bool {
    exists|j: int| 0 <= j < i && #[trigger] plan[j] == (Operation::EncryptPartition { ordinal })
}

/// What is formatted and mounted for partition `ordinal`: the opened
/// encrypted device when it is encrypted, else the partition itself.
pub open spec fn volume_path(device: Seq<char>, ordinal: u32, encrypted: bool) -> Seq<char> {
    if encrypted {
        "/dev/mapper/"@ + mapper_name(ordinal as nat)
    } else {
        partition_path(device, ordinal as nat)
    }
}

pub open spec fn cmd(program: Seq<char>, args: Seq<Seq<char>>, description: Seq<char>) -> CommandModel {
    CommandModel { program, args, chroot: false, description }
}

pub open spec fn parted_fs(fs: FsType) -> Seq<char> {
    match fs {
        FsType::Ext4 => "ext4"@,
        FsType::Btrfs => "btrfs"@,
        FsType::Xfs => "xfs"@,
        FsType::Efi => "fat32"@,
        FsType::Swap => "linux-swap"@,
    }
}

/// The `parted` call that creates a partition. Partitions start one MiB into
/// the device, after the partition table.
pub open spec fn mkpart(device: Seq<char>, start_mib: nat, size_mib: nat, fs: FsType) -> CommandModel {
    cmd(
        "parted"@,
        seq![
            "-s"@,
            device,
            "mkpart"@,
            "primary"@,
            parted_fs(fs),
            decimal(start_mib + 1) + "MiB"@,
            decimal(start_mib + 1 + size_mib) + "MiB"@,
        ],
        "Create partition"@,
    )
}

pub open spec fn mkfs(fs: FsType, target: Seq<char>) -> CommandModel {
    match fs {
        FsType::Ext4 => cmd("mkfs.ext4"@, seq!["-F"@, target], "Format partition"@),
        FsType::Btrfs => cmd("mkfs.btrfs"@, seq!["-f"@, target], "Format partition"@),
        FsType::Xfs => cmd("mkfs.xfs"@, seq!["-f"@, target], "Format partition"@),
        FsType::Efi => cmd("mkfs.fat"@, seq!["-F32"@, target], "Format partition"@),
        FsType::Swap => cmd("mkswap"@, seq![target], "Format partition"@),
    }
}

pub open spec fn swap_file_path() -> Seq<char> {
    "/mnt/swapfile"@
}

/// The external commands that carry out operation `i` of `plan` on `device`,
/// in the order they must run.
pub open spec fn operation_commands_model(plan: Seq<Operation>, i: int, device: Seq<char>) -> Seq<
    CommandModel,
> {
    match plan[i] {
        Operation::CreateTable(t) => seq![
            cmd(
                "parted"@,
                seq![
                    "-s"@,
                    device,
                    "mklabel"@,
                    if t == TableType::Gpt {
                        "gpt"@
                    } else {
                        "msdos"@
                    },
                ],
                "Create partition table"@,
            ),
        ],
        Operation::CreatePartition { ordinal, start_mib, size_mib, fs } => seq![
            mkpart(device, start_mib as nat, size_mib as nat, fs),
        ] + if fs == FsType::Efi {
            seq![
                cmd(
                    "parted"@,
                    seq!["-s"@, device, "set"@, decimal(ordinal as nat), "esp"@, "on"@],
                    "Mark EFI system partition"@,
                ),
            ]
        } else {
            Seq::empty()
        },
        Operation::EncryptPartition { ordinal } => seq![
            cmd(
                "cryptsetup"@,
                seq!["-q"@, "luksFormat"@, partition_path(device, ordinal as nat)],
                "Encrypt partition"@,
            ),
            cmd(
                "cryptsetup"@,
                seq!["open"@, partition_path(device, ordinal as nat), mapper_name(ordinal as nat)],
                "Open encrypted partition"@,
            ),
        ],
        Operation::FormatFilesystem { ordinal, fs } => seq![
            mkfs(fs, volume_path(device, ordinal, encrypted_before(plan, i, ordinal))),
        ],
        Operation::CreateSwap { target, size_mib } => match target {
            SwapTarget::Partition { ordinal, start_mib } => seq![
                mkpart(device, start_mib as nat, size_mib as nat, FsType::Swap),
                cmd("mkswap"@, seq![partition_path(device, ordinal as nat)], "Create swap"@),
                cmd("swapon"@, seq![partition_path(device, ordinal as nat)], "Enable swap"@),
            ],
            SwapTarget::File => seq![
                cmd(
                    "fallocate"@,
                    seq!["-l"@, decimal(size_mib as nat) + "M"@, swap_file_path()],
                    "Allocate swap file"@,
                ),
                cmd("chmod"@, seq!["600"@, swap_file_path()], "Restrict swap file"@),
                cmd("mkswap"@, seq![swap_file_path()], "Create swap"@),
                cmd("swapon"@, seq![swap_file_path()], "Enable swap"@),
            ],
        },
        Operation::Mount { ordinal, mountpoint } => seq![
            cmd(
                "mount"@,
                seq![
                    "--mkdir"@,
                    volume_path(device, ordinal, encrypted_before(plan, i, ordinal)),
                    "/mnt"@ + mountpoint@,
                ],
                "Mount partition"@,
            ),
        ],
    }
}

fn tool(program: &str, args: Vec<String>, description: &str) -> (c: Command)
    ensures
        c@ == cmd(program@, strings_model(args@), description@),
{
    Command { program: text(program), args, chroot: false, description: text(description) }
}

fn ends_in_digit(s: &str) -> (b: bool)
    ensures
        b == (s@.len() > 0 && is_digit(s@.last())),
{
    let n = s.unicode_len();
    if n == 0 {
        false
    } else {
        let c = s.get_char(n - 1);
        '0' <= c && c <= '9'
    }
}

fn partition_path_of(device: &str, ordinal: u32) -> (r: String)
    ensures
        r@ == partition_path(device@, ordinal as nat),
{
    proof {
        reveal_strlit("p");
        reveal_strlit("");
    }
    if ends_in_digit(device) {
        let mut r2 = text(device);
        r2.append("p");
        append_decimal(&mut r2, ordinal as u128);
        assert(r2@ =~= partition_path(device@, ordinal as nat));
        r2
    } else {
        let r = with_decimal(device, ordinal as u128, "");
        assert(r@ =~= partition_path(device@, ordinal as nat));
        r
    }
}

fn is_encrypted_before(plan: &Vec<Operation>, i: usize, ordinal: u32) -> (b: bool)
    requires
        i <= plan.len(),
    ensures
        b == encrypted_before(plan@, i as int, ordinal),
{
    let mut j: usize = 0;
    while j < i
        invariant
            i <= plan.len(),
            j <= i,
            forall|k: int| 0 <= k < j ==> #[trigger] plan@[k] != (Operation::EncryptPartition { ordinal }),
        decreases i - j,
    {
        match &plan[j] {
            Operation::EncryptPartition { ordinal: o } => {
                if *o == ordinal {
                    return true;
                }
            },
            _ => {},
        }
        j = j + 1;
    }
    false
}

fn volume_path_of(device: &str, ordinal: u32, encrypted: bool) -> (r: String)
    ensures
        r@ == volume_path(device@, ordinal, encrypted),
{
    if encrypted {
        let r = with_decimal("/dev/mapper/crypt", ordinal as u128, "");
        proof {
            reveal_strlit("/dev/mapper/crypt");
            reveal_strlit("/dev/mapper/");
            reveal_strlit("crypt");
            reveal_strlit("");
        }
        assert(r@ =~= volume_path(device@, ordinal, encrypted));
        r
    } else {
        partition_path_of(device, ordinal)
    }
}

fn parted_fs_of(fs: FsType) -> (r: &'static str)
    ensures
        r@ == parted_fs(fs),
{
    match fs {
        FsType::Ext4 => "ext4",
        FsType::Btrfs => "btrfs",
        FsType::Xfs => "xfs",
        FsType::Efi => "fat32",
        FsType::Swap => "linux-swap",
    }
}

fn mkpart_of(device: &str, start_mib: u64, size_mib: u64, fs: FsType) -> (c: Command)
    ensures
        c@ == mkpart(device@, start_mib as nat, size_mib as nat, fs),
{
    let start = start_mib as u128 + 1;
    let end = start + size_mib as u128;
    let args = vec![
        text("-s"),
        text(device),
        text("mkpart"),
        text("primary"),
        text(parted_fs_of(fs)),
        with_decimal("", start, "MiB"),
        with_decimal("", end, "MiB"),
    ];
    proof {
        reveal_strlit("");
    }
    let c = tool("parted", args, "Create partition");
    assert(c@.args =~= mkpart(device@, start_mib as nat, size_mib as nat, fs).args);
    c
}

fn mkfs_of(fs: FsType, target: String) -> (c: Command)
    ensures
        c@ == mkfs(fs, target@),
{
    let c = match fs {
        FsType::Ext4 => tool("mkfs.ext4", vec![text("-F"), target], "Format partition"),
        FsType::Btrfs => tool("mkfs.btrfs", vec![text("-f"), target], "Format partition"),
        FsType::Xfs => tool("mkfs.xfs", vec![text("-f"), target], "Format partition"),
        FsType::Efi => tool("mkfs.fat", vec![text("-F32"), target], "Format partition"),
        FsType::Swap => tool("mkswap", vec![target], "Format partition"),
    };
    assert(c@.args =~= mkfs(fs, target@).args);
    c
}

/// The external commands that carry out operation `i` of `plan` on `device`.
pub fn operation_commands(plan: &Vec<Operation>, i: usize, device: &str) -> (r: Vec<Command>)
    requires
        i < plan.len(),
    ensures
        commands_model(r@) == operation_commands_model(plan@, i as int, device@),
{
    let ghost want = operation_commands_model(plan@, i as int, device@);
    match &plan[i] {
        Operation::CreateTable(t) => {
            let label = match t {
                TableType::Gpt => "gpt",
                TableType::Msdos => "msdos",
            };
            let c = tool("parted", vec![text("-s"), text(device), text("mklabel"), text(label)], "Create partition table");
            assert(c@.args =~= want[0].args);
            let r = vec![c];
            assert(commands_model(r@) =~= want);
            r
        },
        Operation::CreatePartition { ordinal, start_mib, size_mib, fs } => {
            let mut r = vec![mkpart_of(device, *start_mib, *size_mib, *fs)];
            if *fs == FsType::Efi {
                let c = tool(
                    "parted",
                    vec![text("-s"), text(device), text("set"), with_decimal("", *ordinal as u128, ""), text("esp"), text("on")],
                    "Mark EFI system partition",
                );
                proof {
                    reveal_strlit("");
                }
                assert(c@.args =~= want[1].args);
                r.push(c);
            }
            assert(commands_model(r@) =~= want);
            r
        },
        Operation::EncryptPartition { ordinal } => {
            let part = partition_path_of(device, *ordinal);
            let name = with_decimal("crypt", *ordinal as u128, "");
            proof {
                reveal_strlit("");
            }
            let a = tool("cryptsetup", vec![text("-q"), text("luksFormat"), part.clone()], "Encrypt partition");
            let b = tool("cryptsetup", vec![text("open"), part, name], "Open encrypted partition");
            assert(a@.args =~= want[0].args);
            assert(b@.args =~= want[1].args);
            let r = vec![a, b];
            assert(commands_model(r@) =~= want);
            r
        },
        Operation::FormatFilesystem { ordinal, fs } => {
            let enc = is_encrypted_before(plan, i, *ordinal);
            let r = vec![mkfs_of(*fs, volume_path_of(device, *ordinal, enc))];
            assert(commands_model(r@) =~= want);
            r
        },
        Operation::CreateSwap { target, size_mib } => match target {
            SwapTarget::Partition { ordinal, start_mib } => {
                let part = partition_path_of(device, *ordinal);
                let a = mkpart_of(device, *start_mib, *size_mib, FsType::Swap);
                let b = tool("mkswap", vec![part.clone()], "Create swap");
                let c = tool("swapon", vec![part], "Enable swap");
                assert(b@.args =~= want[1].args);
                assert(c@.args =~= want[2].args);
                let r = vec![a, b, c];
                assert(commands_model(r@) =~= want);
                r
            },
            SwapTarget::File => {
                proof {
                    reveal_strlit("");
                }
                let a = tool(
                    "fallocate",
                    vec![text("-l"), with_decimal("", *size_mib as u128, "M"), text("/mnt/swapfile")],
                    "Allocate swap file",
                );
                let b = tool("chmod", vec![text("600"), text("/mnt/swapfile")], "Restrict swap file");
                let c = tool("mkswap", vec![text("/mnt/swapfile")], "Create swap");
                let d = tool("swapon", vec![text("/mnt/swapfile")], "Enable swap");
                assert(a@.args =~= want[0].args);
                assert(b@.args =~= want[1].args);
                assert(c@.args =~= want[2].args);
                assert(d@.args =~= want[3].args);
                let r = vec![a, b, c, d];
                assert(commands_model(r@) =~= want);
                r
            },
        },
        Operation::Mount { ordinal, mountpoint } => {
            let enc = is_encrypted_before(plan, i, *ordinal);
            let c = tool(
                "mount",
                vec![text("--mkdir"), volume_path_of(device, *ordinal, enc), concat("/mnt", mountpoint.as_str())],
                "Mount partition",
            );
            assert(c@.args =~= want[0].args);
            let r = vec![c];
            assert(commands_model(r@) =~= want);
            r
        },
    }
}

} // verus!

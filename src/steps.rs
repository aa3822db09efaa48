use vstd::prelude::*;

verus! {

/// An external program to run, with the description logged beside its result.
#[derive(Clone, Debug, PartialEq, Eq)]
pub struct Command {
    pub program: String,
    pub args: Vec<String>,
    /// Run inside the installed system, rooted at the mount target.
    pub chroot: bool,
    pub description: String,
}

/// Mathematical view of a [`Command`].
pub struct CommandModel {
    pub program: Seq<char>,
    pub args: Seq<Seq<char>>,
    pub chroot: bool,
    pub description: Seq<char>,
}

impl View for Command {
    type V = CommandModel;

    open spec fn view(&self) -> CommandModel {
        CommandModel {
            program: self.program@,
            args: self.args@.map_values(|a: String| a@),
            chroot: self.chroot,
            description: self.description@,
        }
    }
}

pub open spec fn commands_model(v: Seq<Command>) -> Seq<CommandModel> {
    v.map_values(|c: Command| c@)
}

pub open spec fn strings_model(v: Seq<String>) -> Seq<Seq<char>> {
    v.map_values(|a: String| a@)
}

fn text(s: &str) -> (r: String)
    ensures
        r@ == s@,
{
    String::from_str(s)
}

fn concat(a: &str, b: &str) -> (r: String)
    ensures
        r@ == a@ + b@,
{
    let mut r = String::from_str(a);
    r.append(b);
    r
}

fn command(program: &str, args: Vec<String>, chroot: bool, description: &str) -> (c: Command)
    ensures
        c@ == (CommandModel {
            program: program@,
            args: strings_model(args@),
            chroot,
            description: description@,
        }),
{
    Command { program: text(program), args, chroot, description: text(description) }
}

/// The command that writes the mounted filesystems into the new system's fstab.
pub fn genfstab() -> (c: Command)
    ensures
        c@ == (CommandModel {
            program: "bash"@,
            args: seq!["-c"@, "genfstab -U /mnt >> /mnt/etc/fstab"@],
            chroot: false,
            description: "Generate fstab"@,
        }),
{
    let args = vec![text("-c"), text("genfstab -U /mnt >> /mnt/etc/fstab")];
    let c = command("bash", args, false, "Generate fstab");
    assert(c@.args =~= seq!["-c"@, "genfstab -U /mnt >> /mnt/etc/fstab"@]);
    c
}

/// The kernel that is installed when the caller names none or one that is not known.
pub open spec fn default_kernel() -> Seq<char> {
    "linux-lts"@
}

/// Kernels that can be installed.
pub open spec fn known_kernel(k: Seq<char>) -> bool {
    ||| k == "linux"@
    ||| k == "linux-lts"@
    ||| k == "linux-zen"@
    ||| k == "linux-hardened"@
    ||| k == "linux-rt"@
    ||| k == "linux-rt-lts"@
    ||| k == "linux-lqx"@
    ||| k == "linux-xanmod"@
}

pub open spec fn kernel_choice(k: Seq<char>) -> Seq<char> {
    if known_kernel(k) {
        k
    } else {
        default_kernel()
    }
}

/// The kernel package to install for the requested kernel `kernel`: itself when
/// it is known, else the default.
pub fn kernel_package(kernel: &str) -> (r: String)
    ensures
        r@ == kernel_choice(kernel@),
{
    let k = text(kernel);
    let known = k == text("linux") || k == text("linux-lts") || k == text("linux-zen") || k
        == text("linux-hardened") || k == text("linux-rt") || k == text("linux-rt-lts") || k
        == text("linux-lqx") || k == text("linux-xanmod");
    if known {
        k
    } else {
        text("linux-lts")
    }
}

/// The headers package of the kernel package `kernel`.
pub fn kernel_headers(kernel: &str) -> (r: String)
    ensures
        r@ == kernel@ + "-headers"@,
{
    concat(kernel, "-headers")
}

pub open spec fn grub_theme_line() -> Seq<char> {
    "GRUB_THEME=\"/boot/grub/themes/athena/theme.txt\""@
}

/// The EFI directory as seen from inside the installed system: an absolute
/// `efidir` as it is, a relative one below `/mnt/`.
pub open spec fn efi_directory_of(efidir: Seq<char>) -> Seq<char> {
    if efidir.len() > 0 && efidir[0] == '/' {
        efidir
    } else {
        "/mnt/"@ + efidir
    }
}

pub fn efi_directory(efidir: &str) -> (r: String)
    ensures
        r@ == efi_directory_of(efidir@),
{
    if efidir.unicode_len() > 0 && efidir.get_char(0) == '/' {
        text(efidir)
    } else {
        concat("/mnt/", efidir)
    }
}

/// The two `grub-install` runs of an EFI install (with `--removable`, then
/// without) and the generation of `grub.cfg`, all inside the new system.
pub open spec fn efi_bootloader_model(efidir: Seq<char>) -> Seq<CommandModel> {
    let dir = "--efi-directory="@ + efi_directory_of(efidir);
    seq![
        CommandModel {
            program: "grub-install"@,
            args: seq!["--target=x86_64-efi"@, dir, "--bootloader-id=tofill"@, "--removable"@],
            chroot: true,
            description: "install grub as efi with --removable"@,
        },
        CommandModel {
            program: "grub-install"@,
            args: seq!["--target=x86_64-efi"@, dir, "--bootloader-id=tofill"@],
            chroot: true,
            description: "install grub as efi without --removable"@,
        },
        grub_mkconfig_model(),
    ]
}

pub open spec fn grub_mkconfig_model() -> CommandModel {
    CommandModel {
        program: "grub-mkconfig"@,
        args: seq!["-o"@, "/boot/grub/grub.cfg"@],
        chroot: true,
        description: "create grub.cfg"@,
    }
}

fn grub_mkconfig() -> (c: Command)
    ensures
        c@ == grub_mkconfig_model(),
{
    let c = command("grub-mkconfig", vec![text("-o"), text("/boot/grub/grub.cfg")], true, "create grub.cfg");
    assert(c@.args =~= grub_mkconfig_model().args);
    c
}

/// Commands of the EFI bootloader install; the theme line is appended to
/// `/mnt/etc/default/grub` between the installs and the configuration.
pub fn efi_bootloader_commands(efidir: &str) -> (r: Vec<Command>)
    ensures
        commands_model(r@) == efi_bootloader_model(efidir@),
{
    let dir = efi_directory(efidir);
    let flag = concat("--efi-directory=", dir.as_str());
    let first = command(
        "grub-install",
        vec![text("--target=x86_64-efi"), flag.clone(), text("--bootloader-id=tofill"), text("--removable")],
        true,
        "install grub as efi with --removable",
    );
    let second = command(
        "grub-install",
        vec![text("--target=x86_64-efi"), flag, text("--bootloader-id=tofill")],
        true,
        "install grub as efi without --removable",
    );
    let ghost d = "--efi-directory="@ + efi_directory_of(efidir@);
    assert(first@.args =~= seq!["--target=x86_64-efi"@, d, "--bootloader-id=tofill"@, "--removable"@]);
    assert(second@.args =~= seq!["--target=x86_64-efi"@, d, "--bootloader-id=tofill"@]);
    let r = vec![first, second, grub_mkconfig()];
    assert(commands_model(r@) =~= efi_bootloader_model(efidir@));
    r
}

/// The legacy `grub-install` on `device` and the generation of `grub.cfg`.
pub open spec fn legacy_bootloader_model(device: Seq<char>) -> Seq<CommandModel> {
    seq![
        CommandModel {
            program: "grub-install"@,
            args: seq!["--target=i386-pc"@, device],
            chroot: true,
            description: "install grub as legacy"@,
        },
        grub_mkconfig_model(),
    ]
}

pub fn legacy_bootloader_commands(device: &str) -> (r: Vec<Command>)
    ensures
        commands_model(r@) == legacy_bootloader_model(device@),
{
    let first = command("grub-install", vec![text("--target=i386-pc"), text(device)], true, "install grub as legacy");
    assert(first@.args =~= seq!["--target=i386-pc"@, device@]);
    let r = vec![first, grub_mkconfig()];
    assert(commands_model(r@) =~= legacy_bootloader_model(device@));
    r
}

} // verus!

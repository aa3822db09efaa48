use vstd::prelude::*;
use crate::steps::{
    Command, CommandModel, efi_bootloader_commands, efi_bootloader_model, grub_theme_line,
    kernel_choice, kernel_headers, kernel_package, legacy_bootloader_commands,
    legacy_bootloader_model, strings_model,
};

verus! {

/// One step of installing software into the mounted system.
#[derive(Clone, Debug, PartialEq, Eq)]
pub enum InstallStep {
    /// Install these packages into the new system.
    Packages(Vec<String>),
    Run(Command),
    /// Create the file at `path`, empty.
    CreateFile { path: String },
    /// Append `line` to the file at `path`.
    AppendLine { path: String, line: String, description: String },
    /// Replace what matches the regular expression `pattern` in the file at `path`.
    Replace { path: String, pattern: String, replacement: String, description: String },
}

/// Mathematical view of an [`InstallStep`].
pub enum StepModel {
    Packages(Seq<Seq<char>>),
    Run(CommandModel),
    CreateFile { path: Seq<char> },
    AppendLine { path: Seq<char>, line: Seq<char>, description: Seq<char> },
    Replace { path: Seq<char>, pattern: Seq<char>, replacement: Seq<char>, description: Seq<char> },
}

impl View for InstallStep {
    type V = StepModel;

    open spec fn view(&self) -> StepModel {
        match self {
            InstallStep::Packages(p) => StepModel::Packages(strings_model(p@)),
            InstallStep::Run(c) => StepModel::Run(c@),
            InstallStep::CreateFile { path } => StepModel::CreateFile { path: path@ },
            InstallStep::AppendLine { path, line, description } => StepModel::AppendLine {
                path: path@,
                line: line@,
                description: description@,
            },
            InstallStep::Replace { path, pattern, replacement, description } => StepModel::Replace {
                path: path@,
                pattern: pattern@,
                replacement: replacement@,
                description: description@,
            },
        }
    }
}

pub open spec fn steps_model(v: Seq<InstallStep>) -> Seq<StepModel> {
    v.map_values(|s: InstallStep| s@)
}

fn text(s: &str) -> (r: String)
    ensures
        r@ == s@,
{
    String::from_str(s)
}

fn texts_of(names: &Vec<&str>) -> (r: Vec<String>)
    ensures
        strings_model(r@) == views_of(names@),
{
    let mut r: Vec<String> = Vec::new();
    let mut i: usize = 0;
    while i < names.len()
        invariant
            i <= names.len(),
            r.len() == i,
            strings_model(r@) == views_of(names@).subrange(0, i as int),
        decreases names.len() - i,
    {
        r.push(text(names[i]));
        i = i + 1;
        assert(strings_model(r@) =~= views_of(names@).subrange(0, i as int));
    }
    assert(views_of(names@).subrange(0, names.len() as int) =~= names@.map_values(
        |n: &str| n@,
    ));
    r
}

pub open spec fn views_of(v: Seq<&str>) -> Seq<Seq<char>> {
    v.map_values(|n: &str| n@)
}

fn packages(names: Vec<&str>) -> (s: InstallStep)
    ensures
        s@ == StepModel::Packages(views_of(names@)),
{
    InstallStep::Packages(texts_of(&names))
}

/// The packages installed with the base system after the kernel and its headers.
pub open spec fn base_extra_packages() -> Seq<Seq<char>> {
    seq![
        "linux-firmware"@,
        "systemd-sysvcompat"@,
        "networkmanager"@,
        "man-db"@,
        "man-pages"@,
        "texinfo"@,
        "nano"@,
        "sudo"@,
        "curl"@,
        "archlinux-keyring"@,
        "accountsservice"@,
        "alsa-utils"@,
        "arch-install-scripts"@,
        "broadcom-wl-dkms"@,
        "dhcpcd"@,
        "dialog"@,
        "dosfstools"@,
        "edk2-shell"@,
        "inetutils"@,
        "irqbalance"@,
        "lvm2"@,
        "memtest86+"@,
        "mesa"@,
        "mesa-utils"@,
        "mkinitcpio-nfs-utils"@,
        "mkinitcpio-openswap"@,
        "most"@,
        "mtools"@,
        "nbd"@,
        "net-tools"@,
        "netctl"@,
        "nfs-utils"@,
        "nohang"@,
        "nss-mdns"@,
        "ntfsprogs"@,
        "ntp"@,
        "pavucontrol"@,
        "profile-sync-daemon"@,
        "pv"@,
        "rsync"@,
        "rtl8821cu-morrownr-dkms-git"@,
        "sof-firmware"@,
        "squashfs-tools"@,
        "syslinux"@,
        "timelineproject-hg"@,
        "usbutils"@,
        "wireless_tools"@,
        "wpa_supplicant"@,
        "xfsprogs"@,
        "noto-fonts"@,
        "noto-fonts-emoji"@,
        "noto-fonts-cjk"@,
        "pipewire"@,
        "pipewire-pulse"@,
        "pipewire-alsa"@,
        "pipewire-jack"@,
        "wireplumber"@,
        "ntfs-3g"@,
        "vi"@,
        "eza"@,
        "pocl"@,
        "ananicy"@,
        "armcord-git"@,
        "asciinema"@,
        "bashtop"@,
        "bat"@,
        "bc"@,
        "bless"@,
        "chatgpt-desktop-bin"@,
        "cmatrix"@,
        "cowsay"@,
        "cron"@,
        "cyberchef-electron"@,
        "downgrade"@,
        "edex-ui-bin"@,
        "eog"@,
        "espeakup"@,
        "figlet"@,
        "figlet-fonts"@,
        "file-roller"@,
        "fortune-mod"@,
        "git"@,
        "gparted"@,
        "grub-customizer"@,
        "gtk-engine-murrine"@,
        "gvfs-gphoto2"@,
        "gvfs-mtp"@,
        "hexedit"@,
        "imagemagick"@,
        "jdk-openjdk"@,
        "jq"@,
        "lib32-glibc"@,
        "lolcat"@,
        "lsd"@,
        "mtpfs"@,
        "nano-syntax-highlighting"@,
        "nautilus"@,
        "ncdu"@,
        "networkmanager-openvpn"@,
        "nyancat"@,
        "octopi"@,
        "onionshare"@,
        "openbsd-netcat"@,
        "openvpn"@,
        "orca"@,
        "p7zip"@,
        "paru"@,
        "pfetch"@,
        "polkit"@,
        "python-pywhat"@,
        "reflector"@,
        "sl"@,
        "superbfetch-git"@,
        "textart"@,
        "tidy"@,
        "tk"@,
        "toilet-fonts"@,
        "tor-browser"@,
        "tree"@,
        "ufw"@,
        "unzip"@,
        "vnstat"@,
        "wget"@,
        "which"@,
        "xclip"@,
        "xcp"@,
        "xmlstarlet"@,
        "zoxide"@,
        "athena-keyring"@,
        "athena-mirrorlist"@,
        "blackarch-keyring"@,
        "blackarch-mirrorlist"@,
        "chaotic-keyring"@,
        "chaotic-mirrorlist"@,
        "athena-cyber-hub"@,
        "athena-neofetch-config"@,
        "athena-nvchad"@,
        "athena-powershell-config"@,
        "athena-system-config"@,
        "athena-theme-tweak"@,
        "athena-tmux-config"@,
        "athena-vim-config"@,
        "athena-vscodium-themes"@,
        "athena-welcome"@,
        "htb-toolkit"@,
        "nist-feed"@
    ]
}

pub open spec fn run_in_chroot(program: Seq<char>, args: Seq<Seq<char>>, description: Seq<char>) -> StepModel {
    StepModel::Run(CommandModel { program, args, chroot: true, description })
}

fn chroot_step(program: &str, args: Vec<String>, description: &str) -> (s: InstallStep)
    ensures
        s@ == run_in_chroot(program@, strings_model(args@), description@),
{
    InstallStep::Run(Command { program: text(program), args, chroot: true, description: text(description) })
}

/// The base system for kernel `kernel` (the default one when it is unknown):
/// the packages, then the enabling of bluetooth.
pub open spec fn base_steps(kernel: Seq<char>) -> Seq<StepModel> {
    let k = kernel_choice(kernel);
    seq![
        StepModel::Packages(seq!["base"@, k, k + "-headers"@] + base_extra_packages()),
        run_in_chroot("systemctl"@, seq!["enable"@, "bluetooth"@], "Enable bluetooth"@),
    ]
}

pub fn install_base_packages(kernel: &str) -> (r: Vec<InstallStep>)
    ensures
        steps_model(r@) == base_steps(kernel@),
{
    let k = kernel_package(kernel);
    let headers = kernel_headers(k.as_str());
    let extra: Vec<&str> = vec![
        "linux-firmware",
        "systemd-sysvcompat",
        "networkmanager",
        "man-db",
        "man-pages",
        "texinfo",
        "nano",
        "sudo",
        "curl",
        "archlinux-keyring",
        "accountsservice",
        "alsa-utils",
        "arch-install-scripts",
        "broadcom-wl-dkms",
        "dhcpcd",
        "dialog",
        "dosfstools",
        "edk2-shell",
        "inetutils",
        "irqbalance",
        "lvm2",
        "memtest86+",
        "mesa",
        "mesa-utils",
        "mkinitcpio-nfs-utils",
        "mkinitcpio-openswap",
        "most",
        "mtools",
        "nbd",
        "net-tools",
        "netctl",
        "nfs-utils",
        "nohang",
        "nss-mdns",
        "ntfsprogs",
        "ntp",
        "pavucontrol",
        "profile-sync-daemon",
        "pv",
        "rsync",
        "rtl8821cu-morrownr-dkms-git",
        "sof-firmware",
        "squashfs-tools",
        "syslinux",
        "timelineproject-hg",
        "usbutils",
        "wireless_tools",
        "wpa_supplicant",
        "xfsprogs",
        "noto-fonts",
        "noto-fonts-emoji",
        "noto-fonts-cjk",
        "pipewire",
        "pipewire-pulse",
        "pipewire-alsa",
        "pipewire-jack",
        "wireplumber",
        "ntfs-3g",
        "vi",
        "eza",
        "pocl",
        "ananicy",
        "armcord-git",
        "asciinema",
        "bashtop",
        "bat",
        "bc",
        "bless",
        "chatgpt-desktop-bin",
        "cmatrix",
        "cowsay",
        "cron",
        "cyberchef-electron",
        "downgrade",
        "edex-ui-bin",
        "eog",
        "espeakup",
        "figlet",
        "figlet-fonts",
        "file-roller",
        "fortune-mod",
        "git",
        "gparted",
        "grub-customizer",
        "gtk-engine-murrine",
        "gvfs-gphoto2",
        "gvfs-mtp",
        "hexedit",
        "imagemagick",
        "jdk-openjdk",
        "jq",
        "lib32-glibc",
        "lolcat",
        "lsd",
        "mtpfs",
        "nano-syntax-highlighting",
        "nautilus",
        "ncdu",
        "networkmanager-openvpn",
        "nyancat",
        "octopi",
        "onionshare",
        "openbsd-netcat",
        "openvpn",
        "orca",
        "p7zip",
        "paru",
        "pfetch",
        "polkit",
        "python-pywhat",
        "reflector",
        "sl",
        "superbfetch-git",
        "textart",
        "tidy",
        "tk",
        "toilet-fonts",
        "tor-browser",
        "tree",
        "ufw",
        "unzip",
        "vnstat",
        "wget",
        "which",
        "xclip",
        "xcp",
        "xmlstarlet",
        "zoxide",
        "athena-keyring",
        "athena-mirrorlist",
        "blackarch-keyring",
        "blackarch-mirrorlist",
        "chaotic-keyring",
        "chaotic-mirrorlist",
        "athena-cyber-hub",
        "athena-neofetch-config",
        "athena-nvchad",
        "athena-powershell-config",
        "athena-system-config",
        "athena-theme-tweak",
        "athena-tmux-config",
        "athena-vim-config",
        "athena-vscodium-themes",
        "athena-welcome",
        "htb-toolkit",
        "nist-feed"
    ];
    let rest = texts_of(&extra);
    assert(strings_model(rest@) =~= base_extra_packages());
    let mut names = vec![text("base"), k, headers];
    let ghost head = strings_model(names@);
    let mut i: usize = 0;
    while i < rest.len()
        invariant
            i <= rest.len(),
            names.len() == 3 + i,
            head.len() == 3,
            strings_model(names@) == head + strings_model(rest@).subrange(0, i as int),
        decreases rest.len() - i,
    {
        let ghost prev = names@;
        let item = rest[i].clone();
        names.push(item);
        proof {
            assert forall|k: int| 0 <= k < 3 + i implies #[trigger] strings_model(names@)[k]
                == strings_model(prev)[k] by {
                assert(names@[k] == prev[k]);
            }
            assert(strings_model(names@)[3 + i] == strings_model(rest@)[i as int]);
        }
        i = i + 1;
        assert(strings_model(names@) =~= head + strings_model(rest@).subrange(0, i as int));
    }
    assert(strings_model(rest@).subrange(0, rest.len() as int) =~= strings_model(rest@));
    assert(strings_model(names@) =~= seq!["base"@, kernel_choice(kernel@), kernel_choice(kernel@) + "-headers"@] + base_extra_packages());
    let args = vec![text("enable"), text("bluetooth")];
    assert(strings_model(args@) =~= seq!["enable"@, "bluetooth"@]);
    let enable = chroot_step("systemctl", args, "Enable bluetooth");
    let r = vec![InstallStep::Packages(names), enable];
    assert(steps_model(r@) =~= base_steps(kernel@));
    r
}

fn append_line(path: &str, line: &str, description: &str) -> (s: InstallStep)
    ensures
        s@ == (StepModel::AppendLine { path: path@, line: line@, description: description@ }),
{
    InstallStep::AppendLine { path: text(path), line: text(line), description: text(description) }
}

fn replace(path: &str, pattern: &str, replacement: &str, description: &str) -> (s: InstallStep)
    ensures
        s@ == (StepModel::Replace {
            path: path@,
            pattern: pattern@,
            replacement: replacement@,
            description: description@,
        }),
{
    InstallStep::Replace {
        path: text(path),
        pattern: text(pattern),
        replacement: text(replacement),
        description: text(description),
    }
}

pub open spec fn grub_theme_step() -> StepModel {
    StepModel::AppendLine {
        path: "/mnt/etc/default/grub"@,
        line: grub_theme_line(),
        description: "enable athena grub theme"@,
    }
}

fn grub_theme() -> (s: InstallStep)
    ensures
        s@ == grub_theme_step(),
{
    append_line(
        "/mnt/etc/default/grub",
        "GRUB_THEME=\"/boot/grub/themes/athena/theme.txt\"",
        "enable athena grub theme",
    )
}

/// The EFI bootloader: GRUB and its tools, the two installs, the theme, the configuration.
pub open spec fn efi_steps(efidir: Seq<char>) -> Seq<StepModel> {
    let m = efi_bootloader_model(efidir);
    seq![
        StepModel::Packages(seq!["grub"@, "efibootmgr"@, "os-prober"@]),
        StepModel::Run(m[0]),
        StepModel::Run(m[1]),
        grub_theme_step(),
        StepModel::Run(m[2]),
    ]
}

/// Steps of the EFI bootloader install into `efidir`; that the directory exists
/// is for the caller to check first.
pub fn install_bootloader_efi(efidir: &str) -> (r: Vec<InstallStep>)
    ensures
        steps_model(r@) == efi_steps(efidir@),
{
    let names = vec!["grub", "efibootmgr", "os-prober"];
    assert(views_of(names@) =~= seq!["grub"@, "efibootmgr"@, "os-prober"@]);
    let pk = packages(names);
    let mut c = efi_bootloader_commands(efidir);
    let ghost m = crate::steps::commands_model(c@);
    let ghost cs = c@;
    assert(efi_bootloader_model(efidir@).len() == 3);
    assert(m.len() == 3 && cs.len() == 3);
    assert(m[0] == cs[0]@ && m[1] == cs[1]@ && m[2] == cs[2]@);
    let third = c.remove(2);
    let second = c.remove(1);
    let first = c.remove(0);
    assert(first@ == m[0] && second@ == m[1] && third@ == m[2]);
    let r = vec![
        pk,
        InstallStep::Run(first),
        InstallStep::Run(second),
        grub_theme(),
        InstallStep::Run(third),
    ];
    assert(steps_model(r@) =~= efi_steps(efidir@));
    r
}

/// The legacy bootloader on `device`: GRUB, its theme package, the install,
/// the theme, the configuration.
pub open spec fn legacy_steps(device: Seq<char>) -> Seq<StepModel> {
    let m = legacy_bootloader_model(device);
    seq![
        StepModel::Packages(seq!["grub"@, "athena-grub-theme"@, "os-prober"@]),
        StepModel::Run(m[0]),
        grub_theme_step(),
        StepModel::Run(m[1]),
    ]
}

/// Steps of the legacy bootloader install on `device`; that the device exists
/// is for the caller to check first.
pub fn install_bootloader_legacy(device: &str) -> (r: Vec<InstallStep>)
    ensures
        steps_model(r@) == legacy_steps(device@),
{
    let names = vec!["grub", "athena-grub-theme", "os-prober"];
    assert(views_of(names@) =~= seq!["grub"@, "athena-grub-theme"@, "os-prober"@]);
    let pk = packages(names);
    let mut c = legacy_bootloader_commands(device);
    let ghost m = crate::steps::commands_model(c@);
    let ghost cs = c@;
    assert(legacy_bootloader_model(device@).len() == 2);
    assert(m.len() == 2 && cs.len() == 2);
    assert(m[0] == cs[0]@ && m[1] == cs[1]@);
    let second = c.remove(1);
    let first = c.remove(0);
    assert(first@ == m[0] && second@ == m[1]);
    let r = vec![
        pk,
        InstallStep::Run(first),
        grub_theme(),
        InstallStep::Run(second),
    ];
    assert(steps_model(r@) =~= legacy_steps(device@));
    r
}

pub fn setup_snapper() -> (r: Vec<InstallStep>)
    ensures
        steps_model(r@) == seq![StepModel::Packages(seq!["snap-pac"@, "snap-pac-grub"@, "snapper-support"@])],
{
    let names = vec!["snap-pac", "snap-pac-grub", "snapper-support"];
    assert(views_of(names@) =~= seq!["snap-pac"@, "snap-pac-grub"@, "snapper-support"@]);
    let pk = packages(names);
    let r = vec![pk];
    assert(steps_model(r@) =~= seq![StepModel::Packages(seq!["snap-pac"@, "snap-pac-grub"@, "snapper-support"@])]);
    r
}

pub fn install_homemgr() -> (r: Vec<InstallStep>)
    ensures
        steps_model(r@) == seq![StepModel::Packages(seq!["nix"@])],
{
    let names = vec!["nix"];
    assert(views_of(names@) =~= seq!["nix"@]);
    let pk = packages(names);
    let r = vec![pk];
    assert(steps_model(r@) =~= seq![StepModel::Packages(seq!["nix"@])]);
    r
}

pub fn install_cuda() -> (r: Vec<InstallStep>)
    ensures
        steps_model(r@) == seq![StepModel::Packages(seq!["cuda"@])],
{
    let names = vec!["cuda"];
    assert(views_of(names@) =~= seq!["cuda"@]);
    let pk = packages(names);
    let r = vec![pk];
    assert(steps_model(r@) =~= seq![StepModel::Packages(seq!["cuda"@])]);
    r
}

pub fn install_spotify() -> (r: Vec<InstallStep>)
    ensures
        steps_model(r@) == seq![StepModel::Packages(seq!["spotify"@])],
{
    let names = vec!["spotify"];
    assert(views_of(names@) =~= seq!["spotify"@]);
    let pk = packages(names);
    let r = vec![pk];
    assert(steps_model(r@) =~= seq![StepModel::Packages(seq!["spotify"@])]);
    r
}

pub fn install_cherrytree() -> (r: Vec<InstallStep>)
    ensures
        steps_model(r@) == seq![StepModel::Packages(seq!["cherrytree"@])],
{
    let names = vec!["cherrytree"];
    assert(views_of(names@) =~= seq!["cherrytree"@]);
    let pk = packages(names);
    let r = vec![pk];
    assert(steps_model(r@) =~= seq![StepModel::Packages(seq!["cherrytree"@])]);
    r
}

pub fn install_flameshot() -> (r: Vec<InstallStep>)
    ensures
        steps_model(r@) == seq![StepModel::Packages(seq!["flameshot"@])],
{
    let names = vec!["flameshot"];
    assert(views_of(names@) =~= seq!["flameshot"@]);
    let pk = packages(names);
    let r = vec![pk];
    assert(steps_model(r@) =~= seq![StepModel::Packages(seq!["flameshot"@])]);
    r
}

pub fn install_busybox() -> (r: Vec<InstallStep>)
    ensures
        steps_model(r@) == seq![StepModel::Packages(seq!["busybox"@])],
{
    let names = vec!["busybox"];
    assert(views_of(names@) =~= seq!["busybox"@]);
    let pk = packages(names);
    let r = vec![pk];
    assert(steps_model(r@) =~= seq![StepModel::Packages(seq!["busybox"@])]);
    r
}

pub fn install_toybox() -> (r: Vec<InstallStep>)
    ensures
        steps_model(r@) == seq![StepModel::Packages(seq!["toybox"@])],
{
    let names = vec!["toybox"];
    assert(views_of(names@) =~= seq!["toybox"@]);
    let pk = packages(names);
    let r = vec![pk];
    assert(steps_model(r@) =~= seq![StepModel::Packages(seq!["toybox"@])]);
    r
}

pub fn setup_timeshift() -> (r: Vec<InstallStep>)
    ensures
        steps_model(r@) == seq![StepModel::Packages(seq!["timeshift"@, "timeshift-autosnap"@, "grub-btrfs"@]), run_in_chroot("timeshift"@, seq!["--btrfs"@], "setup timeshift"@)],
{
    let names = vec!["timeshift", "timeshift-autosnap", "grub-btrfs"];
    assert(views_of(names@) =~= seq!["timeshift"@, "timeshift-autosnap"@, "grub-btrfs"@]);
    let pk = packages(names);
    let step_args = vec![text("--btrfs")];
    assert(strings_model(step_args@) =~= seq!["--btrfs"@]);
    let step = chroot_step("timeshift", step_args, "setup timeshift");
    let r = vec![pk, step];
    assert(steps_model(r@) =~= seq![StepModel::Packages(seq!["timeshift"@, "timeshift-autosnap"@, "grub-btrfs"@]), run_in_chroot("timeshift"@, seq!["--btrfs"@], "setup timeshift"@)]);
    r
}

pub fn install_flatpak() -> (r: Vec<InstallStep>)
    ensures
        steps_model(r@) == seq![StepModel::Packages(seq!["flatpak"@]), run_in_chroot("flatpak"@, seq!["remote-add"@, "--if-not-exists"@, "flathub"@, "https://flathub.org/repo/flathub.flatpakrepo"@], "add flathub remote"@)],
{
    let names = vec!["flatpak"];
    assert(views_of(names@) =~= seq!["flatpak"@]);
    let pk = packages(names);
    let step_args = vec![text("remote-add"), text("--if-not-exists"), text("flathub"), text("https://flathub.org/repo/flathub.flatpakrepo")];
    assert(strings_model(step_args@) =~= seq!["remote-add"@, "--if-not-exists"@, "flathub"@, "https://flathub.org/repo/flathub.flatpakrepo"@]);
    let step = chroot_step("flatpak", step_args, "add flathub remote");
    let r = vec![pk, step];
    assert(steps_model(r@) =~= seq![StepModel::Packages(seq!["flatpak"@]), run_in_chroot("flatpak"@, seq!["remote-add"@, "--if-not-exists"@, "flathub"@, "https://flathub.org/repo/flathub.flatpakrepo"@], "add flathub remote"@)]);
    r
}

pub fn install_zram() -> (r: Vec<InstallStep>)
    ensures
        steps_model(r@) == seq![StepModel::Packages(seq!["zram-generator"@]), StepModel::CreateFile { path: "/mnt/etc/systemd/zram-generator.conf"@ }, StepModel::AppendLine { path: "/mnt/etc/systemd/zram-generator.conf"@, line: "[zram0]"@, description: "Write zram-generator config"@ }],
{
    let names = vec!["zram-generator"];
    assert(views_of(names@) =~= seq!["zram-generator"@]);
    let pk = packages(names);
    let r = vec![
        pk,
        InstallStep::CreateFile { path: text("/mnt/etc/systemd/zram-generator.conf") },
        append_line("/mnt/etc/systemd/zram-generator.conf", "[zram0]", "Write zram-generator config"),
    ];
    assert(steps_model(r@) =~= seq![StepModel::Packages(seq!["zram-generator"@]), StepModel::CreateFile { path: "/mnt/etc/systemd/zram-generator.conf"@ }, StepModel::AppendLine { path: "/mnt/etc/systemd/zram-generator.conf"@, line: "[zram0]"@, description: "Write zram-generator config"@ }]);
    r
}

pub fn secure_password_config() -> (r: Vec<InstallStep>)
    ensures
        steps_model(r@) == seq![StepModel::Replace { path: "/mnt/etc/login.defs"@, pattern: "PASS_MAX_DAYS\t99999"@, replacement: "PASS_MAX_DAYS\t365"@, description: "Set the password expiration to 365 days"@ }],
{
    let r = vec![replace("/mnt/etc/login.defs", "PASS_MAX_DAYS\t99999", "PASS_MAX_DAYS\t365", "Set the password expiration to 365 days")];
    assert(steps_model(r@) =~= seq![StepModel::Replace { path: "/mnt/etc/login.defs"@, pattern: "PASS_MAX_DAYS\t99999"@, replacement: "PASS_MAX_DAYS\t365"@, description: "Set the password expiration to 365 days"@ }]);
    r
}

/// Hardening of the SSH daemon of the new system.
pub open spec fn ssh_steps() -> Seq<StepModel> {
    seq![
        StepModel::Replace { path: "/mnt/etc/ssh/sshd_config"@, pattern: "#Port.*"@, replacement: "Port 2222"@, description: "Setting SSH port to 2222"@ },
        StepModel::Replace { path: "/mnt/etc/ssh/sshd_config"@, pattern: "#PermitRootLogin.*"@, replacement: "PermitRootLogin no"@, description: "Prevent root login"@ },
        StepModel::Replace { path: "/mnt/etc/ssh/sshd_config"@, pattern: "#PubkeyAuthentication.*"@, replacement: "PubkeyAuthentication yes"@, description: "Allow public key authentication"@ },
        StepModel::Replace { path: "/mnt/etc/ssh/sshd_config"@, pattern: "#PasswordAuthentication.*"@, replacement: "PasswordAuthentication no"@, description: "Prevent password authentication"@ },
        StepModel::Replace { path: "/mnt/etc/ssh/sshd_config"@, pattern: "#PermitEmptyPasswords.*"@, replacement: "PermitEmptyPasswords no"@, description: "Prevent password authentication"@ },
        StepModel::Replace { path: "/mnt/etc/ssh/sshd_config"@, pattern: "#IgnoreRhosts.*"@, replacement: "IgnoreRhosts yes"@, description: "Prevent remote hosts to be used in authentication"@ },
        StepModel::Replace { path: "/mnt/etc/ssh/sshd_config"@, pattern: "#LoginGraceTime.*"@, replacement: "LoginGraceTime 30"@, description: "Set a secure login grace time"@ },
        StepModel::Replace { path: "/mnt/etc/ssh/sshd_config"@, pattern: "#MaxAuthTries.*"@, replacement: "MaxAuthTries 4"@, description: "Set a maximum number of permitted authentication attempts per connection"@ },
        StepModel::Replace { path: "/mnt/etc/ssh/sshd_config"@, pattern: "#HostbasedAuthentication.*"@, replacement: "HostbasedAuthentication no"@, description: "Prevent authentication via .rhosts file"@ },
        StepModel::AppendLine { path: "/mnt/etc/ssh/sshd_config"@, line: "Protocol 2"@, description: "Set SSH protocol 2"@ }
    ]
}

pub fn secure_ssh_config() -> (r: Vec<InstallStep>)
    ensures
        steps_model(r@) == ssh_steps(),
{
    let r = vec![
        replace("/mnt/etc/ssh/sshd_config", "#Port.*", "Port 2222", "Setting SSH port to 2222"),
        replace("/mnt/etc/ssh/sshd_config", "#PermitRootLogin.*", "PermitRootLogin no", "Prevent root login"),
        replace("/mnt/etc/ssh/sshd_config", "#PubkeyAuthentication.*", "PubkeyAuthentication yes", "Allow public key authentication"),
        replace("/mnt/etc/ssh/sshd_config", "#PasswordAuthentication.*", "PasswordAuthentication no", "Prevent password authentication"),
        replace("/mnt/etc/ssh/sshd_config", "#PermitEmptyPasswords.*", "PermitEmptyPasswords no", "Prevent password authentication"),
        replace("/mnt/etc/ssh/sshd_config", "#IgnoreRhosts.*", "IgnoreRhosts yes", "Prevent remote hosts to be used in authentication"),
        replace("/mnt/etc/ssh/sshd_config", "#LoginGraceTime.*", "LoginGraceTime 30", "Set a secure login grace time"),
        replace("/mnt/etc/ssh/sshd_config", "#MaxAuthTries.*", "MaxAuthTries 4", "Set a maximum number of permitted authentication attempts per connection"),
        replace("/mnt/etc/ssh/sshd_config", "#HostbasedAuthentication.*", "HostbasedAuthentication no", "Prevent authentication via .rhosts file"),
        append_line("/mnt/etc/ssh/sshd_config", "Protocol 2", "Set SSH protocol 2")
    ];
    assert(steps_model(r@) =~= ssh_steps());
    r
}

} // verus!

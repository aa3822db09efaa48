use aegis::{
    install_base_packages, install_bootloader_efi, install_bootloader_legacy, install_busybox,
    install_cherrytree, install_cuda, install_flameshot, install_flatpak, install_homemgr,
    install_spotify, install_toybox, install_zram, secure_password_config, secure_ssh_config,
    setup_snapper, setup_timeshift, InstallStep,
};

fn packages(step: &InstallStep) -> Vec<String> {
    match step {
        InstallStep::Packages(p) => p.clone(),
        other => panic!("not a package step: {other:?}"),
    }
}

#[test]
fn base_packages_follow_kernel() {
    let steps = install_base_packages("linux-zen");
    let p = packages(&steps[0]);
    assert_eq!(&p[..4], &[String::from("base"), String::from("linux-zen"), String::from("linux-zen-headers"), String::from("linux-firmware")]);
    assert_eq!(p.len(), 149);
    assert_eq!(p.last().unwrap(), "nist-feed");
    let fallback = packages(&install_base_packages("unknown")[0]);
    assert_eq!(fallback[1], "linux-lts");
    assert_eq!(fallback[2], "linux-lts-headers");
    match &steps[1] {
        InstallStep::Run(c) => {
            assert_eq!(c.program, "systemctl");
            assert_eq!(c.args, vec![String::from("enable"), String::from("bluetooth")]);
            assert!(c.chroot);
        }
        other => panic!("unexpected {other:?}"),
    }
}

#[test]
fn bootloader_steps() {
    let efi = install_bootloader_efi("/boot/efi");
    assert_eq!(efi.len(), 5);
    assert_eq!(packages(&efi[0]), vec![String::from("grub"), String::from("efibootmgr"), String::from("os-prober")]);
    match &efi[3] {
        InstallStep::AppendLine { path, line, .. } => {
            assert_eq!(path, "/mnt/etc/default/grub");
            assert_eq!(line, "GRUB_THEME=\"/boot/grub/themes/athena/theme.txt\"");
        }
        other => panic!("unexpected {other:?}"),
    }
    let legacy = install_bootloader_legacy("/dev/vda");
    assert_eq!(legacy.len(), 4);
    assert_eq!(packages(&legacy[0])[1], "athena-grub-theme");
}

#[test]
fn optional_packages() {
    assert_eq!(packages(&setup_snapper()[0]), vec![String::from("snap-pac"), String::from("snap-pac-grub"), String::from("snapper-support")]);
    assert_eq!(packages(&install_homemgr()[0]), vec![String::from("nix")]);
    assert_eq!(packages(&install_cuda()[0]), vec![String::from("cuda")]);
    assert_eq!(packages(&install_spotify()[0]), vec![String::from("spotify")]);
    assert_eq!(packages(&install_cherrytree()[0]), vec![String::from("cherrytree")]);
    assert_eq!(packages(&install_flameshot()[0]), vec![String::from("flameshot")]);
    assert_eq!(packages(&install_busybox()[0]), vec![String::from("busybox")]);
    assert_eq!(packages(&install_toybox()[0]), vec![String::from("toybox")]);
    let t = setup_timeshift();
    assert_eq!(packages(&t[0]).len(), 3);
    let f = install_flatpak();
    match &f[1] {
        InstallStep::Run(c) => assert_eq!(c.args[3], "https://flathub.org/repo/flathub.flatpakrepo"),
        other => panic!("unexpected {other:?}"),
    }
    let z = install_zram();
    assert_eq!(z[1], InstallStep::CreateFile { path: String::from("/mnt/etc/systemd/zram-generator.conf") });
}

#[test]
fn hardening_edits() {
    let p = secure_password_config();
    assert_eq!(
        p,
        vec![InstallStep::Replace {
            path: String::from("/mnt/etc/login.defs"),
            pattern: String::from("PASS_MAX_DAYS\t99999"),
            replacement: String::from("PASS_MAX_DAYS\t365"),
            description: String::from("Set the password expiration to 365 days"),
        }]
    );
    let s = secure_ssh_config();
    assert_eq!(s.len(), 10);
    match &s[0] {
        InstallStep::Replace { pattern, replacement, .. } => {
            assert_eq!(pattern, "#Port.*");
            assert_eq!(replacement, "Port 2222");
        }
        other => panic!("unexpected {other:?}"),
    }
    match &s[9] {
        InstallStep::AppendLine { line, .. } => assert_eq!(line, "Protocol 2"),
        other => panic!("unexpected {other:?}"),
    }
}

use aegis::{efi_bootloader_commands, efi_directory, genfstab, kernel_headers, kernel_package, legacy_bootloader_commands};

#[test]
fn genfstab_command() {
    let c = genfstab();
    assert_eq!(c.program, "bash");
    assert_eq!(c.args, vec![String::from("-c"), String::from("genfstab -U /mnt >> /mnt/etc/fstab")]);
    assert!(!c.chroot);
    assert_eq!(c.description, "Generate fstab");
}

#[test]
fn kernel_selection() {
    assert_eq!(kernel_package("linux-zen"), "linux-zen");
    assert_eq!(kernel_package("linux"), "linux");
    assert_eq!(kernel_package(""), "linux-lts");
    assert_eq!(kernel_package("linux-foo"), "linux-lts");
    assert_eq!(kernel_headers("linux-zen"), "linux-zen-headers");
}

#[test]
fn efi_directory_join() {
    assert_eq!(efi_directory("/boot/efi"), "/boot/efi");
    assert_eq!(efi_directory("boot/efi"), "/mnt/boot/efi");
}

#[test]
fn bootloader_commands() {
    let efi = efi_bootloader_commands("/boot/efi");
    assert_eq!(efi.len(), 3);
    assert_eq!(efi[0].args[1], "--efi-directory=/boot/efi");
    assert_eq!(efi[0].args[3], "--removable");
    assert_eq!(efi[1].args.len(), 3);
    assert_eq!(efi[2].program, "grub-mkconfig");
    let legacy = legacy_bootloader_commands("/dev/sda");
    assert_eq!(legacy[0].args, vec![String::from("--target=i386-pc"), String::from("/dev/sda")]);
    assert!(legacy[0].chroot);
}

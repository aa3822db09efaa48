use aegis::{cpu_detect, cpu_gpu_check, virt_check, virt_detection_ok, virt_extras};

#[test]
fn virt_kinds() {
    let q = virt_extras("kvm");
    assert_eq!(q.packages, vec![String::from("qemu-guest-agent"), String::from("spice-vdagent")]);
    assert_eq!(q.services, vec![String::from("qemu-guest-agent")]);
    let o = virt_extras("oracle");
    assert_eq!(o.packages, vec![String::from("virtualbox-guest-additions")]);
    assert_eq!(o.services, vec![String::from("vboxservice")]);
    let m = virt_extras("microsoft");
    assert_eq!(m.packages, vec![String::from("hyperv-tools")]);
    assert_eq!(m.params.len(), 1);
    assert_eq!(m.params[0].description, "Set hyperv kernel parameter");
    assert_eq!(m.params[0].sed_args[3], "/mnt/etc/default/grub");
    let none = virt_extras("none");
    assert!(none.packages.is_empty() && none.services.is_empty() && none.params.is_empty());
}

#[test]
fn virt_detection_status() {
    assert!(virt_detection_ok("vmware", Some(0)));
    assert!(virt_detection_ok("none", Some(1)));
    assert!(!virt_detection_ok("vmware", Some(1)));
    assert!(!virt_detection_ok("none", None));
    // the output is trimmed before it is read
    let r = virt_check("vmware\n", Some(0)).unwrap();
    assert_eq!(r.packages, vec![String::from("open-vm-tools"), String::from("xorg-x11-drv-vmware")]);
    assert!(virt_check("none\n", Some(1)).is_some());
    assert!(virt_check("qemu\n", Some(2)).is_none());
}

#[test]
fn cpu_and_gpu_packages() {
    let r = cpu_gpu_check("GenuineIntel", "01:00.0 VGA compatible controller: NVIDIA Corporation");
    assert_eq!(
        r,
        vec![
            String::from("intel-compute-runtime"),
            String::from("nvidia-gpu-firmware"),
            String::from("gwe"),
            String::from("nvtop"),
        ]
    );
    let r = cpu_gpu_check("AuthenticAMD", "VGA: Advanced Micro Devices, Inc. [AMD/ATI] Radeon");
    assert_eq!(
        r,
        vec![
            String::from("amd-ucode-firmware"),
            String::from("xorg-x11-drv-amdgpu"),
            String::from("amd-gpu-firmware"),
        ]
    );
    assert_eq!(cpu_gpu_check("Other", "ATI Rage"), vec![String::from("mesa-libOpenCL")]);
    assert!(cpu_gpu_check("", "").is_empty());
}

#[test]
fn lscpu_vendor() {
    let listing = "Architecture:            x86_64\r\nVendor ID:               GenuineIntel\r\nModel name: X\n";
    assert_eq!(cpu_detect(listing), Some(String::from("GenuineIntel")));
    assert_eq!(cpu_detect("Vendor ID: AuthenticAMD"), Some(String::from("AuthenticAMD")));
    assert_eq!(cpu_detect("Vendor ID: a:b\n"), Some(String::from("a")));
    assert_eq!(cpu_detect("Model: x\n  Vendor ID: y\n"), None);
    assert_eq!(cpu_detect(""), None);
}

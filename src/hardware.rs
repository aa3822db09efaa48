use vstd::prelude::*;

verus! {

/// What `str::trim` gives for `s`: `s` without leading and trailing white space.
pub uninterp spec fn trim_of(s: Seq<char>) -> Seq<char>;

/// Relies on `str::trim`: the result depends on the characters of `s` alone.
#[verifier::external_body]
fn trim_text(s: &str) -> (r: &str)
    ensures
        r@ == trim_of(s@),
{
    s.trim()
}

/// A kernel parameter to set with `sed`, and the description logged beside it.
#[derive(Clone, Debug, PartialEq, Eq)]
pub struct ParamEdit {
    pub description: String,
    pub sed_args: Vec<String>,
}

/// Packages, services and kernel parameter edits that a virtualised system needs.
#[derive(Clone, Debug, PartialEq, Eq)]
pub struct VirtExtras {
    pub packages: Vec<String>,
    pub services: Vec<String>,
    pub params: Vec<ParamEdit>,
}

pub open spec fn texts(v: Seq<String>) -> Seq<Seq<char>> {
    v.map_values(|s: String| s@)
}

pub open spec fn hyperv_sed_args() -> Seq<Seq<char>> {
    seq![
        "-i"@,
        "-e"@,
        "/^GRUB_CMDLINE_LINUX_DEFAULT*/ s/\"$/ video=hyperv_fb:3840x2160\"/g"@,
        "/mnt/etc/default/grub"@,
    ]
}

pub open spec fn virt_packages(kind: Seq<char>) -> Seq<Seq<char>> {
    if kind == "oracle"@ {
        seq!["virtualbox-guest-additions"@]
    } else if kind == "vmware"@ {
        seq!["open-vm-tools"@, "xorg-x11-drv-vmware"@]
    } else if kind == "qemu"@ || kind == "kvm"@ {
        seq!["qemu-guest-agent"@, "spice-vdagent"@]
    } else if kind == "microsoft"@ {
        seq!["hyperv-tools"@]
    } else {
        Seq::empty()
    }
}

pub open spec fn virt_services(kind: Seq<char>) -> Seq<Seq<char>> {
    if kind == "oracle"@ {
        seq!["vboxservice"@]
    } else if kind == "vmware"@ {
        seq!["vmtoolsd"@]
    } else if kind == "qemu"@ || kind == "kvm"@ {
        seq!["qemu-guest-agent"@]
    } else {
        Seq::empty()
    }
}

/// Hyper-V guests get a framebuffer resolution on the kernel command line.
pub open spec fn virt_has_param(kind: Seq<char>) -> bool {
    kind == "microsoft"@
}

/// `e` holds what a system of virtualisation kind `kind` needs.
pub open spec fn extras_for(e: VirtExtras, kind: Seq<char>) -> bool {
    &&& texts(e.packages@) == virt_packages(kind)
    &&& texts(e.services@) == virt_services(kind)
    &&& virt_has_param(kind) ==> e.params@.len() == 1 && e.params@[0].description@
        == "Set hyperv kernel parameter"@ && texts(e.params@[0].sed_args@) == hyperv_sed_args()
    &&& !virt_has_param(kind) ==> e.params@.len() == 0
}

fn text(s: &str) -> (r: String)
    ensures
        r@ == s@,
{
    String::from_str(s)
}

fn is(s: &String, lit: &str) -> (b: bool)
    ensures
        b == (s@ == lit@),
{
    *s == text(lit)
}

/// The extras for the virtualisation kind `kind` that `systemd-detect-virt`
/// printed, already trimmed; bare metal and unknown kinds need none.
pub fn virt_extras(kind: &str) -> (r: VirtExtras)
    ensures
        extras_for(r, kind@),
{
    proof {
        reveal_strlit("oracle");
        reveal_strlit("vmware");
        reveal_strlit("qemu");
        reveal_strlit("kvm");
        reveal_strlit("microsoft");
        assert("oracle"@.len() != "microsoft"@.len());
        assert("vmware"@.len() != "microsoft"@.len());
        assert("qemu"@.len() != "microsoft"@.len());
        assert("kvm"@.len() != "microsoft"@.len());
    }
    let k = text(kind);
    let mut packages: Vec<String> = Vec::new();
    let mut services: Vec<String> = Vec::new();
    let mut params: Vec<ParamEdit> = Vec::new();
    if is(&k, "oracle") {
        packages.push(text("virtualbox-guest-additions"));
        services.push(text("vboxservice"));
    } else if is(&k, "vmware") {
        packages.push(text("open-vm-tools"));
        packages.push(text("xorg-x11-drv-vmware"));
        services.push(text("vmtoolsd"));
    } else if is(&k, "qemu") || is(&k, "kvm") {
        packages.push(text("qemu-guest-agent"));
        packages.push(text("spice-vdagent"));
        services.push(text("qemu-guest-agent"));
    } else if is(&k, "microsoft") {
        packages.push(text("hyperv-tools"));
        let sed_args = vec![
            text("-i"),
            text("-e"),
            text("/^GRUB_CMDLINE_LINUX_DEFAULT*/ s/\"$/ video=hyperv_fb:3840x2160\"/g"),
            text("/mnt/etc/default/grub"),
        ];
        assert(texts(sed_args@) =~= hyperv_sed_args());
        params.push(ParamEdit { description: text("Set hyperv kernel parameter"), sed_args });
        assert(params@.len() == 1);
    } else {
        assert(!virt_has_param(kind@));
    }
    assert(texts(packages@) =~= virt_packages(kind@));
    assert(texts(services@) =~= virt_services(kind@));
    VirtExtras { packages, services, params }
}

/// `systemd-detect-virt` exits with 1 when it prints `none` on bare metal;
/// any other non-zero exit, or none at all, is a failure.
pub open spec fn detection_ok(kind: Seq<char>, code: Option<i32>) -> bool {
    code == Some(0i32) || (kind == "none"@ && code == Some(1i32))
}

/// Whether a detection that printed `kind` (trimmed) and exited with `code` succeeded.
pub fn virt_detection_ok(kind: &str, code: Option<i32>) -> (b: bool)
    ensures
        b == detection_ok(kind@, code),
{
    match code {
        Some(c) => c == 0 || (c == 1 && is(&text(kind), "none")),
        None => false,
    }
}

/// Reads the output of `systemd-detect-virt` and its exit status: the extras
/// that the detected kind needs, or `None` when detection failed.
pub fn virt_check(output: &str, code: Option<i32>) -> (r: Option<VirtExtras>)
    ensures
        r is Some <==> detection_ok(trim_of(output@), code),
        r is Some ==> extras_for(r->Some_0, trim_of(output@)),
{
    let kind = trim_text(output);
    if virt_detection_ok(kind, code) {
        Some(virt_extras(kind))
    } else {
        None
    }
}

/// `s` holds `p` as a contiguous run of characters.
pub open spec fn contains_text(s: Seq<char>, p: Seq<char>) -> bool {
    exists|i: int| 0 <= i && i + p.len() <= s.len() && #[trigger] s.subrange(i, i + p.len()) == p
}

fn chars_of(s: &str) -> (r: Vec<char>)
    ensures
        r@ == s@,
{
    let n = s.unicode_len();
    let mut r: Vec<char> = Vec::new();
    let mut i: usize = 0;
    while i < n
        invariant
            n == s@.len(),
            i <= n,
            r@ == s@.subrange(0, i as int),
        decreases n - i,
    {
        r.push(s.get_char(i));
        i = i + 1;
        assert(r@ =~= s@.subrange(0, i as int));
    }
    assert(s@.subrange(0, n as int) =~= s@);
    r
}

fn holds(s: &Vec<char>, p: &str) -> (b: bool)
    ensures
        b == contains_text(s@, p@),
{
    let pc = chars_of(p);
    let m = pc.len();
    if m > s.len() {
        assert(!contains_text(s@, p@));
        return false;
    }
    let mut i: usize = 0;
    while i <= s.len() - m
        invariant
            m == p@.len(),
            pc@ == p@,
            m <= s.len(),
            i <= s.len() - m + 1,
            forall|k: int| 0 <= k < i ==> #[trigger] s@.subrange(k, k + m) != p@,
        decreases s.len() - i,
    {
        let mut j: usize = 0;
        while j < m && s[i + j] == pc[j]
            invariant
                m == p@.len(),
                pc@ == p@,
                i + m <= s.len(),
                j <= m,
                s@.subrange(i as int, i + j) == p@.subrange(0, j as int),
            decreases m - j,
        {
            assert(s@.subrange(i as int, i + j + 1) =~= p@.subrange(0, j + 1));
            j = j + 1;
        }
        if j == m {
            assert(p@.subrange(0, m as int) =~= p@);
            return true;
        }
        assert(s@.subrange(i as int, i + m)[j as int] != p@[j as int]);
        assert(s@.subrange(i as int, i + m) != p@);
        i = i + 1;
    }
    false
}

pub open spec fn cpu_packages(vendor: Seq<char>) -> Seq<Seq<char>> {
    if contains_text(vendor, "Intel"@) {
        seq!["intel-compute-runtime"@]
    } else if contains_text(vendor, "AMD"@) {
        seq!["amd-ucode-firmware"@]
    } else {
        Seq::empty()
    }
}

pub open spec fn gpu_packages(listing: Seq<char>) -> Seq<Seq<char>> {
    let amd = contains_text(listing, "AMD"@);
    (if amd {
        seq!["xorg-x11-drv-amdgpu"@, "amd-gpu-firmware"@]
    } else {
        Seq::empty()
    }) + (if contains_text(listing, "ATI"@) && !amd {
        seq!["mesa-libOpenCL"@]
    } else {
        Seq::empty()
    }) + if contains_text(listing, "NVIDIA"@) {
        seq!["nvidia-gpu-firmware"@, "gwe"@, "nvtop"@]
    } else {
        Seq::empty()
    }
}

/// Firmware and driver packages for the CPU vendor `cpu_vendor` (as `lscpu`
/// names it) and the devices that `lspci -k` listed in `gpu_listing`.
pub fn cpu_gpu_check(cpu_vendor: &str, gpu_listing: &str) -> (r: Vec<String>)
    ensures
        texts(r@) == cpu_packages(cpu_vendor@) + gpu_packages(gpu_listing@),
{
    let vendor = chars_of(cpu_vendor);
    let listing = chars_of(gpu_listing);
    let mut r: Vec<String> = Vec::new();
    if holds(&vendor, "Intel") {
        r.push(text("intel-compute-runtime"));
    } else if holds(&vendor, "AMD") {
        r.push(text("amd-ucode-firmware"));
    }
    assert(texts(r@) =~= cpu_packages(cpu_vendor@));
    let ghost cpu = texts(r@);
    let amd = holds(&listing, "AMD");
    if amd {
        r.push(text("xorg-x11-drv-amdgpu"));
        r.push(text("amd-gpu-firmware"));
    }
    if holds(&listing, "ATI") && !amd {
        r.push(text("mesa-libOpenCL"));
    }
    if holds(&listing, "NVIDIA") {
        r.push(text("nvidia-gpu-firmware"));
        r.push(text("gwe"));
        r.push(text("nvtop"));
    }
    assert(texts(r@) =~= cpu + gpu_packages(gpu_listing@));
    r
}

/// Index of the first `':'` or `'\n'` at or after `i`, else the length of `s`.
pub open spec fn next_stop(s: Seq<char>, i: int) -> int
    decreases s.len() - i,
{
    if i >= s.len() || i < 0 {
        s.len() as int
    } else if s[i] == ':' || s[i] == '\n' {
        i
    } else {
        next_stop(s, i + 1)
    }
}

/// Index of the first `'\n'` at or after `i`, else the length of `s`.
pub open spec fn next_newline(s: Seq<char>, i: int) -> int
    decreases s.len() - i,
{
    if i >= s.len() || i < 0 {
        s.len() as int
    } else if s[i] == '\n' {
        i
    } else {
        next_newline(s, i + 1)
    }
}

pub open spec fn vendor_prefix() -> Seq<char> {
    "Vendor ID:"@
}

pub open spec fn prefix_at(s: Seq<char>, i: int, p: Seq<char>) -> bool {
    0 <= i && i + p.len() <= s.len() && s.subrange(i, i + p.len()) == p
}

/// Start of the first line, from the line that starts at `i` on, that begins
/// with `Vendor ID:`.
pub open spec fn vendor_line(s: Seq<char>, i: int) -> Option<int>
    decreases s.len() + 1 - i,
{
    if i < 0 || i > s.len() {
        None
    } else if prefix_at(s, i, vendor_prefix()) {
        Some(i)
    } else if next_newline(s, i) >= s.len() || next_newline(s, i) < i {
        None
    } else {
        vendor_line(s, next_newline(s, i) + 1)
    }
}

/// The text after `Vendor ID:` on the line at `i`, up to the next colon or the
/// end of the line, a carriage return before the line feed left out.
pub open spec fn vendor_field(s: Seq<char>, i: int) -> Seq<char> {
    let a = i + vendor_prefix().len();
    let b = next_stop(s, a);
    let end = if b < s.len() && s[b] == '\n' && b > a && s[b - 1] == '\r' {
        b - 1
    } else {
        b
    };
    s.subrange(a, end)
}

/// The CPU vendor that `lscpu` printed in `listing`, trimmed.
pub open spec fn vendor_of(listing: Seq<char>) -> Option<Seq<char>> {
    match vendor_line(listing, 0) {
        Some(i) => Some(trim_of(vendor_field(listing, i))),
        None => None,
    }
}

proof fn lemma_next_stop(s: Seq<char>, i: int)
    requires
        0 <= i <= s.len(),
    ensures
        i <= next_stop(s, i) <= s.len(),
        forall|k: int| i <= k < next_stop(s, i) ==> s[k] != ':' && s[k] != '\n',
        next_stop(s, i) < s.len() ==> s[next_stop(s, i)] == ':' || s[next_stop(s, i)] == '\n',
    decreases s.len() - i,
{
    if i < s.len() && !(s[i] == ':' || s[i] == '\n') {
        lemma_next_stop(s, i + 1);
    }
}

proof fn lemma_next_newline(s: Seq<char>, i: int)
    requires
        0 <= i <= s.len(),
    ensures
        i <= next_newline(s, i) <= s.len(),
        forall|k: int| i <= k < next_newline(s, i) ==> s[k] != '\n',
        next_newline(s, i) < s.len() ==> s[next_newline(s, i)] == '\n',
    decreases s.len() - i,
{
    if i < s.len() && s[i] != '\n' {
        lemma_next_newline(s, i + 1);
    }
}

fn find_stop(s: &Vec<char>, from: usize, newline_only: bool) -> (r: usize)
    requires
        from <= s.len(),
    ensures
        r == if newline_only {
            next_newline(s@, from as int)
        } else {
            next_stop(s@, from as int)
        },
{
    proof {
        lemma_next_stop(s@, from as int);
        lemma_next_newline(s@, from as int);
    }
    let mut k = from;
    while k < s.len() && s[k] != '\n' && (newline_only || s[k] != ':')
        invariant
            from <= k <= s.len(),
            next_newline(s@, from as int) == next_newline(s@, k as int),
            !newline_only ==> next_stop(s@, from as int) == next_stop(s@, k as int),
            !newline_only ==> forall|j: int| from <= j < k ==> s@[j] != ':' && s@[j] != '\n',
        decreases s.len() - k,
    {
        k = k + 1;
    }
    k
}

fn prefix_here(s: &Vec<char>, i: usize, p: &Vec<char>) -> (b: bool)
    requires
        i <= s.len(),
    ensures
        b == prefix_at(s@, i as int, p@),
{
    if p.len() > s.len() - i {
        return false;
    }
    let mut j: usize = 0;
    while j < p.len() && s[i + j] == p[j]
        invariant
            i + p.len() <= s.len(),
            j <= p.len(),
            s@.subrange(i as int, i + j) == p@.subrange(0, j as int),
        decreases p.len() - j,
    {
        assert(s@.subrange(i as int, i + j + 1) =~= p@.subrange(0, j + 1));
        j = j + 1;
    }
    if j == p.len() {
        assert(p@.subrange(0, j as int) =~= p@);
        true
    } else {
        assert(s@.subrange(i as int, i + p.len())[j as int] != p@[j as int]);
        false
    }
}

/// The CPU vendor in the output of `lscpu`: the first line that begins with
/// `Vendor ID:`, the text after it up to the next colon, trimmed.
pub fn cpu_detect(listing: &str) -> (r: Option<String>)
    ensures
        match r {
            Some(v) => vendor_of(listing@) == Some(v@),
            None => vendor_of(listing@) is None,
        },
{
    let s = chars_of(listing);
    let p = chars_of("Vendor ID:");
    let n = s.len();
    let mut i: usize = 0;
    while i <= n
        invariant
            n == s.len(),
            s@ == listing@,
            p@ == vendor_prefix(),
            i <= n,
            vendor_line(s@, 0) == vendor_line(s@, i as int),
        decreases n + 1 - i,
    {
        if prefix_here(&s, i, &p) {
            proof {
                reveal_strlit("Vendor ID:");
            }
            let a = i + p.len();
            let b = find_stop(&s, a, false);
            proof {
                lemma_next_stop(s@, a as int);
            }
            let end = if b < n && s[b] == '\n' && b > a && s[b - 1] == '\r' {
                b - 1
            } else {
                b
            };
            let field = listing.substring_char(a, end);
            assert(field@ == vendor_field(s@, i as int));
            return Some(String::from_str(trim_text(field)));
        }
        let e = find_stop(&s, i, true);
        proof {
            lemma_next_newline(s@, i as int);
        }
        if e >= n {
            return None;
        }
        i = e + 1;
    }
    None
}

} // verus!

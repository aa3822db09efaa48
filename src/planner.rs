use vstd::prelude::*;
use crate::layout::{
    Device, FsType, LayoutError, LayoutMode, Operation, OperationModel, PartitionRequest,
    RequestModel, SizeSpec, SwapTarget, TableType, operations_model, requests_model,
};
use crate::mountpoint::{depth, mountpoint_depth};
use crate::order::{lemma_min_index_by, min_index_by, sorted_by};
use crate::validate::{find_violation, has_multiple_remaining, is_remaining, violation};

verus! {

/// Size of the EFI system partition that automatic layouts create, in MiB.
pub const EFI_SIZE_MIB: u64 = 512;

pub open spec fn ordinal_key() -> spec_fn(RequestModel) -> int {
    |r: RequestModel| r.ordinal as int
}

/// Mounts sort by depth; other operations never reach this order.
pub open spec fn depth_key() -> spec_fn(OperationModel) -> int {
    |o: OperationModel|
        match o {
            OperationModel::Mount { mountpoint, .. } => depth(mountpoint) as int,
            _ => 0,
        }
}

/// Requests in device order.
pub open spec fn by_ordinal(s: Seq<RequestModel>) -> Seq<RequestModel> {
    sorted_by(s, ordinal_key())
}

pub open spec fn fixed_size(r: RequestModel) -> int {
    match r.size {
        SizeSpec::Fixed(n) => n as int,
        SizeSpec::Remaining => 0,
    }
}

/// Sum of the fixed sizes in `t`.
pub open spec fn fixed_total(t: Seq<RequestModel>) -> int
    decreases t.len(),
{
    if t.len() == 0 {
        0
    } else {
        fixed_total(t.drop_last()) + fixed_size(t.last())
    }
}

pub open spec fn has_remaining(t: Seq<RequestModel>) -> bool {
    exists|i: int| 0 <= i < t.len() && is_remaining(#[trigger] t[i])
}

/// Size of the swap file: manual layouts put swap in a file on the root filesystem.
pub open spec fn swap_file_size(mode: LayoutMode, swap: bool, swap_size: u64) -> int {
    if mode == LayoutMode::Manual && swap {
        swap_size as int
    } else {
        0
    }
}

/// Space that the layout needs: every fixed size, the swap file, and at least
/// one MiB for the request that takes the rest.
pub open spec fn space_needed(t: Seq<RequestModel>, swap_file: int) -> int {
    fixed_total(t) + swap_file + if has_remaining(t) {
        1int
    } else {
        0int
    }
}

pub open spec fn resolved_size(r: RequestModel, rem: u64) -> u64 {
    match r.size {
        SizeSpec::Fixed(n) => n,
        SizeSpec::Remaining => rem,
    }
}

/// Space taken by the partitions of `t` once the remaining request gets `rem`.
pub open spec fn span(t: Seq<RequestModel>, rem: u64) -> int
    decreases t.len(),
{
    if t.len() == 0 {
        0
    } else {
        span(t.drop_last(), rem) + resolved_size(t.last(), rem)
    }
}

/// The operations that make the partition of request `r`, starting at `start`.
pub open spec fn request_ops(r: RequestModel, start: u64, rem: u64) -> Seq<OperationModel> {
    let size = resolved_size(r, rem);
    if r.fs == FsType::Swap {
        seq![
            OperationModel::CreateSwap {
                target: SwapTarget::Partition { ordinal: r.ordinal, start_mib: start },
                size_mib: size,
            },
        ]
    } else {
        seq![OperationModel::CreatePartition { ordinal: r.ordinal, start_mib: start, size_mib: size, fs: r.fs }]
            + if r.encrypted {
            seq![OperationModel::EncryptPartition { ordinal: r.ordinal }]
        } else {
            Seq::empty()
        } + seq![OperationModel::FormatFilesystem { ordinal: r.ordinal, fs: r.fs }]
    }
}

/// The operations that make every partition of `t`, laid out back to back.
pub open spec fn partition_ops(t: Seq<RequestModel>, rem: u64) -> Seq<OperationModel>
    decreases t.len(),
{
    if t.len() == 0 {
        Seq::empty()
    } else {
        partition_ops(t.drop_last(), rem) + request_ops(
            t.last(),
            span(t.drop_last(), rem) as u64,
            rem,
        )
    }
}

/// One mount for each request of `t` that has a mountpoint, in the order of `t`.
pub open spec fn mount_list(t: Seq<RequestModel>) -> Seq<OperationModel>
    decreases t.len(),
{
    if t.len() == 0 {
        Seq::empty()
    } else {
        mount_list(t.drop_last()) + match t.last().mountpoint {
            Some(mp) => seq![OperationModel::Mount { ordinal: t.last().ordinal, mountpoint: mp }],
            None => Seq::empty(),
        }
    }
}

pub open spec fn table_for(efi: bool) -> TableType {
    if efi {
        TableType::Gpt
    } else {
        TableType::Msdos
    }
}

/// The plan for valid, sorted requests `t` on `free_mib` MiB of free space.
pub open spec fn layout_ops(
    t: Seq<RequestModel>,
    free_mib: u64,
    mode: LayoutMode,
    efi: bool,
    swap: bool,
    swap_size: u64,
) -> Seq<OperationModel> {
    let rem = (free_mib - fixed_total(t)) as u64;
    seq![OperationModel::CreateTable(table_for(efi))] + partition_ops(t, rem) + sorted_by(
        mount_list(t),
        depth_key(),
    ) + if mode == LayoutMode::Manual && swap {
        seq![OperationModel::CreateSwap { target: SwapTarget::File, size_mib: swap_size }]
    } else {
        Seq::empty()
    }
}

pub open spec fn efi_path() -> Seq<char> {
    seq!['/', 'b', 'o', 'o', 't', '/', 'e', 'f', 'i']
}

/// The scheme of automatic mode: an EFI system partition if asked for, a swap
/// partition if asked for, and a root partition over the rest, encrypted when
/// full-disk encryption is demanded.
pub open spec fn auto_requests(encrypt_check: bool, efi: bool, swap: bool, swap_size: u64) -> Seq<
    RequestModel,
> {
    let e = if efi {
        seq![
            RequestModel {
                mountpoint: Some(efi_path()),
                size: SizeSpec::Fixed(EFI_SIZE_MIB),
                fs: FsType::Efi,
                ordinal: 1,
                encrypted: false,
            },
        ]
    } else {
        Seq::empty()
    };
    let s = if swap {
        seq![
            RequestModel {
                mountpoint: None,
                size: SizeSpec::Fixed(swap_size),
                fs: FsType::Swap,
                ordinal: (e.len() + 1) as u32,
                encrypted: false,
            },
        ]
    } else {
        Seq::empty()
    };
    e + s + seq![
        RequestModel {
            mountpoint: Some(seq!['/']),
            size: SizeSpec::Remaining,
            fs: FsType::Ext4,
            ordinal: (e.len() + s.len() + 1) as u32,
            encrypted: encrypt_check,
        },
    ]
}

/// The requests that a plan is made from, in device order.
pub open spec fn effective_requests(
    mode: LayoutMode,
    encrypt_check: bool,
    efi: bool,
    swap: bool,
    swap_size: u64,
    requests: Seq<RequestModel>,
) -> Seq<RequestModel> {
    by_ordinal(
        if mode == LayoutMode::Automatic {
            auto_requests(encrypt_check, efi, swap, swap_size)
        } else {
            requests
        },
    )
}

/// What planning yields: the device must not be in use, the requests must be
/// valid, and the layout must fit in the free space.
pub open spec fn plan_result(
    free_mib: u64,
    mounted: bool,
    mode: LayoutMode,
    encrypt_check: bool,
    efi: bool,
    swap: bool,
    swap_size: u64,
    requests: Seq<RequestModel>,
) -> Result<Seq<OperationModel>, LayoutError> {
    let t = effective_requests(mode, encrypt_check, efi, swap, swap_size, requests);
    if mounted {
        Err(LayoutError::DeviceUnavailable)
    } else if let Some(v) = violation(t, encrypt_check, efi, swap, swap_size) {
        Err(LayoutError::InvalidLayout(v))
    } else if space_needed(t, swap_file_size(mode, swap, swap_size)) > free_mib {
        Err(LayoutError::InsufficientSpace)
    } else {
        Ok(layout_ops(t, free_mib, mode, efi, swap, swap_size))
    }
}

proof fn lemma_fixed_total_prefix(t: Seq<RequestModel>, i: int)
    requires
        0 <= i <= t.len(),
    ensures
        0 <= fixed_total(t.subrange(0, i)) <= fixed_total(t),
    decreases t.len(),
{
    if t.len() > 0 {
        if i == t.len() {
            assert(t.subrange(0, i) =~= t);
            lemma_fixed_total_prefix(t.drop_last(), i - 1);
        } else {
            lemma_fixed_total_prefix(t.drop_last(), i);
            assert(t.drop_last().subrange(0, i) =~= t.subrange(0, i));
        }
    }
}

proof fn lemma_span_prefix(t: Seq<RequestModel>, i: int, rem: u64)
    requires
        0 <= i <= t.len(),
    ensures
        0 <= span(t.subrange(0, i), rem) <= span(t, rem),
    decreases t.len(),
{
    if t.len() > 0 {
        if i == t.len() {
            assert(t.subrange(0, i) =~= t);
            lemma_span_prefix(t.drop_last(), i - 1, rem);
        } else {
            lemma_span_prefix(t.drop_last(), i, rem);
            assert(t.drop_last().subrange(0, i) =~= t.subrange(0, i));
        }
    }
}

/// With at most one remaining request, the partitions take the fixed sizes
/// plus `rem` for the remaining one.
proof fn lemma_span_total(t: Seq<RequestModel>, rem: u64)
    requires
        !has_multiple_remaining(t),
    ensures
        span(t, rem) == fixed_total(t) + if has_remaining(t) {
            rem as int
        } else {
            0
        },
    decreases t.len(),
{
    if t.len() > 0 {
        let d = t.drop_last();
        assert forall|i: int, j: int| 0 <= i < j < d.len() implies !(is_remaining(
            #[trigger] d[i],
        ) && is_remaining(#[trigger] d[j])) by {
            assert(d[i] == t[i] && d[j] == t[j]);
        }
        lemma_span_total(d, rem);
        if has_remaining(d) {
            let k = choose|k: int| 0 <= k < d.len() && is_remaining(#[trigger] d[k]);
            assert(t[k] == d[k]);
            assert(is_remaining(t[k]));
            assert(!is_remaining(t[t.len() - 1]));
            assert(has_remaining(t));
        } else if is_remaining(t.last()) {
            assert(is_remaining(t[t.len() - 1]));
        } else {
            assert forall|k: int| 0 <= k < t.len() implies !is_remaining(#[trigger] t[k]) by {
                if k < d.len() {
                    assert(d[k] == t[k]);
                }
            }
        }
    }
}

fn copy_request(r: &PartitionRequest) -> (c: PartitionRequest)
    ensures
        c@ == r@,
{
    PartitionRequest {
        mountpoint: match &r.mountpoint {
            Some(m) => Some(m.clone()),
            None => None,
        },
        size: r.size,
        fs: r.fs,
        ordinal: r.ordinal,
        encrypted: r.encrypted,
    }
}

fn min_ordinal_position(v: &Vec<PartitionRequest>) -> (k: usize)
    requires
        v.len() > 0,
    ensures
        k == min_index_by(requests_model(v@), ordinal_key()),
{
    let ghost m = requests_model(v@);
    let mut best: usize = 0;
    let mut i: usize = 1;
    while i < v.len()
        invariant
            m == requests_model(v@),
            1 <= i <= v.len(),
            best == min_index_by(m.subrange(0, i as int), ordinal_key()),
        decreases v.len() - i,
    {
        proof {
            let p = m.subrange(0, i + 1);
            assert(p.drop_last() =~= m.subrange(0, i as int));
            lemma_min_index_by(m.subrange(0, i as int), ordinal_key());
            assert(p[best as int] == m[best as int]);
        }
        if v[i].ordinal < v[best].ordinal {
            best = i;
        }
        i = i + 1;
    }
    assert(m.subrange(0, v.len() as int) =~= m);
    best
}

/// Puts `v` in device order.
fn sort_requests(v: Vec<PartitionRequest>) -> (r: Vec<PartitionRequest>)
    ensures
        requests_model(r@) == by_ordinal(requests_model(v@)),
{
    let ghost target = by_ordinal(requests_model(v@));
    let mut rest = v;
    let mut out: Vec<PartitionRequest> = Vec::new();
    assert(requests_model(out@) =~= Seq::<RequestModel>::empty());
    while rest.len() > 0
        invariant
            requests_model(out@) + by_ordinal(requests_model(rest@)) == target,
        decreases rest.len(),
    {
        let ghost before = requests_model(rest@);
        let ghost acc = requests_model(out@);
        let k = min_ordinal_position(&rest);
        proof {
            lemma_min_index_by(before, ordinal_key());
        }
        let x = rest.remove(k);
        out.push(x);
        proof {
            assert(requests_model(rest@) =~= before.remove(k as int));
            assert(requests_model(out@) =~= acc.push(before[k as int]));
            assert(by_ordinal(before) == seq![before[k as int]] + by_ordinal(before.remove(k as int)));
            assert(acc.push(before[k as int]) + by_ordinal(before.remove(k as int)) =~= acc + (
            seq![before[k as int]] + by_ordinal(before.remove(k as int))));
        }
    }
    assert(requests_model(rest@) =~= Seq::<RequestModel>::empty());
    assert(by_ordinal(Seq::<RequestModel>::empty()) =~= Seq::<RequestModel>::empty());
    assert(requests_model(out@) =~= requests_model(out@) + Seq::<RequestModel>::empty());
    out
}

fn auto_request_list(encrypt_check: bool, efi: bool, swap: bool, swap_size: u64) -> (r: Vec<
    PartitionRequest,
>)
    ensures
        requests_model(r@) == auto_requests(encrypt_check, efi, swap, swap_size),
{
    let mut v: Vec<PartitionRequest> = Vec::new();
    let mut ordinal: u32 = 1;
    if efi {
        let p = String::from_str("/boot/efi");
        proof {
            reveal_strlit("/boot/efi");
            assert(p@ =~= efi_path());
        }
        v.push(
            PartitionRequest {
                mountpoint: Some(p),
                size: SizeSpec::Fixed(EFI_SIZE_MIB),
                fs: FsType::Efi,
                ordinal,
                encrypted: false,
            },
        );
        ordinal = 2;
    }
    if swap {
        v.push(
            PartitionRequest {
                mountpoint: None,
                size: SizeSpec::Fixed(swap_size),
                fs: FsType::Swap,
                ordinal,
                encrypted: false,
            },
        );
        ordinal = ordinal + 1;
    }
    let root = String::from_str("/");
    proof {
        reveal_strlit("/");
        assert(root@ =~= seq!['/']);
    }
    v.push(
        PartitionRequest {
            mountpoint: Some(root),
            size: SizeSpec::Remaining,
            fs: FsType::Ext4,
            ordinal,
            encrypted: encrypt_check,
        },
    );
    assert(requests_model(v@) =~= auto_requests(encrypt_check, efi, swap, swap_size));
    v
}

/// The sum of the fixed sizes of `t`, when it is at most `limit`.
fn fixed_total_within(t: &Vec<PartitionRequest>, limit: u64) -> (r: Option<u64>)
    ensures
        match r {
            Some(n) => n == fixed_total(requests_model(t@)) && n <= limit,
            None => fixed_total(requests_model(t@)) > limit,
        },
{
    let ghost m = requests_model(t@);
    let mut total: u64 = 0;
    let mut i: usize = 0;
    while i < t.len()
        invariant
            m == requests_model(t@),
            i <= t.len(),
            total == fixed_total(m.subrange(0, i as int)),
            total <= limit,
        decreases t.len() - i,
    {
        let size: u64 = match t[i].size {
            SizeSpec::Fixed(n) => n,
            SizeSpec::Remaining => 0,
        };
        proof {
            assert(m.subrange(0, i + 1).drop_last() =~= m.subrange(0, i as int));
            assert(m[i as int] == t@[i as int]@);
        }
        if size > limit - total {
            proof {
                lemma_fixed_total_prefix(m, i + 1);
            }
            return None;
        }
        total = total + size;
        i = i + 1;
    }
    assert(m.subrange(0, t.len() as int) =~= m);
    Some(total)
}

fn any_remaining(t: &Vec<PartitionRequest>) -> (r: bool)
    ensures
        r == has_remaining(requests_model(t@)),
{
    let ghost m = requests_model(t@);
    let mut i: usize = 0;
    while i < t.len()
        invariant
            m == requests_model(t@),
            i <= t.len(),
            forall|k: int| 0 <= k < i ==> !is_remaining(#[trigger] m[k]),
        decreases t.len() - i,
    {
        if t[i].size == SizeSpec::Remaining {
            assert(is_remaining(m[i as int]));
            return true;
        }
        i = i + 1;
    }
    false
}

fn push_request_ops(ops: &mut Vec<Operation>, r: &PartitionRequest, start: u64, rem: u64)
    ensures
        operations_model(final(ops)@) == operations_model(old(ops)@) + request_ops(r@, start, rem),
{
    let ghost before = operations_model(ops@);
    let size = match r.size {
        SizeSpec::Fixed(n) => n,
        SizeSpec::Remaining => rem,
    };
    if r.fs == FsType::Swap {
        ops.push(
            Operation::CreateSwap {
                target: SwapTarget::Partition { ordinal: r.ordinal, start_mib: start },
                size_mib: size,
            },
        );
    } else {
        ops.push(Operation::CreatePartition { ordinal: r.ordinal, start_mib: start, size_mib: size, fs: r.fs });
        if r.encrypted {
            ops.push(Operation::EncryptPartition { ordinal: r.ordinal });
        }
        ops.push(Operation::FormatFilesystem { ordinal: r.ordinal, fs: r.fs });
    }
    assert(operations_model(ops@) =~= before + request_ops(r@, start, rem));
}

fn push_partition_ops(ops: &mut Vec<Operation>, t: &Vec<PartitionRequest>, rem: u64)
    requires
        span(requests_model(t@), rem) <= u64::MAX,
    ensures
        operations_model(final(ops)@) == operations_model(old(ops)@) + partition_ops(
            requests_model(t@),
            rem,
        ),
{
    let ghost m = requests_model(t@);
    let ghost before = operations_model(ops@);
    let mut start: u64 = 0;
    let mut i: usize = 0;
    assert(partition_ops(m.subrange(0, 0), rem) =~= Seq::<OperationModel>::empty());
    assert(before + Seq::<OperationModel>::empty() =~= before);
    while i < t.len()
        invariant
            m == requests_model(t@),
            i <= t.len(),
            span(m, rem) <= u64::MAX,
            start == span(m.subrange(0, i as int), rem),
            operations_model(ops@) == before + partition_ops(m.subrange(0, i as int), rem),
        decreases t.len() - i,
    {
        let ghost acc = operations_model(ops@);
        proof {
            let p = m.subrange(0, i + 1);
            assert(p.drop_last() =~= m.subrange(0, i as int));
            assert(p.last() == t@[i as int]@);
            lemma_span_prefix(m, i + 1, rem);
        }
        let r = &t[i];
        push_request_ops(ops, r, start, rem);
        let size = match r.size {
            SizeSpec::Fixed(n) => n,
            SizeSpec::Remaining => rem,
        };
        start = start + size;
        i = i + 1;
        proof {
            assert(acc + request_ops(r@, (start - size) as u64, rem) =~= before + partition_ops(
                m.subrange(0, i as int),
                rem,
            ));
        }
    }
    assert(m.subrange(0, t.len() as int) =~= m);
}

fn mount_operations(t: &Vec<PartitionRequest>) -> (r: Vec<Operation>)
    ensures
        operations_model(r@) == mount_list(requests_model(t@)),
{
    let ghost m = requests_model(t@);
    let mut out: Vec<Operation> = Vec::new();
    let mut i: usize = 0;
    assert(operations_model(out@) =~= mount_list(m.subrange(0, 0)));
    while i < t.len()
        invariant
            m == requests_model(t@),
            i <= t.len(),
            operations_model(out@) == mount_list(m.subrange(0, i as int)),
        decreases t.len() - i,
    {
        let ghost acc = operations_model(out@);
        proof {
            let p = m.subrange(0, i + 1);
            assert(p.drop_last() =~= m.subrange(0, i as int));
            assert(p.last() == t@[i as int]@);
        }
        match &t[i].mountpoint {
            Some(mp) => {
                out.push(Operation::Mount { ordinal: t[i].ordinal, mountpoint: mp.clone() });
            },
            None => {},
        }
        assert(operations_model(out@) =~= mount_list(m.subrange(0, i + 1)));
        i = i + 1;
    }
    assert(m.subrange(0, t.len() as int) =~= m);
    out
}

fn operation_depth(o: &Operation) -> (d: usize)
    ensures
        d as int == (depth_key())(o@),
{
    match o {
        Operation::Mount { mountpoint, .. } => mountpoint_depth(mountpoint.as_str()),
        _ => 0,
    }
}

fn min_depth_position(v: &Vec<Operation>) -> (k: usize)
    requires
        v.len() > 0,
    ensures
        k == min_index_by(operations_model(v@), depth_key()),
{
    let ghost m = operations_model(v@);
    let mut best: usize = 0;
    let mut best_depth = operation_depth(&v[0]);
    let mut i: usize = 1;
    while i < v.len()
        invariant
            m == operations_model(v@),
            1 <= i <= v.len(),
            best == min_index_by(m.subrange(0, i as int), depth_key()),
            best < i,
            best_depth as int == (depth_key())(m[best as int]),
        decreases v.len() - i,
    {
        proof {
            let p = m.subrange(0, i + 1);
            assert(p.drop_last() =~= m.subrange(0, i as int));
            lemma_min_index_by(m.subrange(0, i as int), depth_key());
            assert(p[best as int] == m[best as int]);
        }
        let d = operation_depth(&v[i]);
        if d < best_depth {
            best = i;
            best_depth = d;
        }
        i = i + 1;
    }
    assert(m.subrange(0, v.len() as int) =~= m);
    best
}

/// Appends `mounts` to `ops`, ordered by depth.
fn push_mounts_by_depth(ops: &mut Vec<Operation>, mounts: Vec<Operation>)
    ensures
        operations_model(final(ops)@) == operations_model(old(ops)@) + sorted_by(
            operations_model(mounts@),
            depth_key(),
        ),
{
    let ghost target = operations_model(ops@) + sorted_by(operations_model(mounts@), depth_key());
    let mut rest = mounts;
    while rest.len() > 0
        invariant
            operations_model(ops@) + sorted_by(operations_model(rest@), depth_key()) == target,
        decreases rest.len(),
    {
        let ghost before = operations_model(rest@);
        let ghost acc = operations_model(ops@);
        let k = min_depth_position(&rest);
        proof {
            lemma_min_index_by(before, depth_key());
        }
        let x = rest.remove(k);
        ops.push(x);
        proof {
            assert(operations_model(rest@) =~= before.remove(k as int));
            assert(operations_model(ops@) =~= acc.push(before[k as int]));
            assert(sorted_by(before, depth_key()) == seq![before[k as int]] + sorted_by(
                before.remove(k as int),
                depth_key(),
            ));
            assert(acc.push(before[k as int]) + sorted_by(before.remove(k as int), depth_key())
                =~= acc + (seq![before[k as int]] + sorted_by(
                before.remove(k as int),
                depth_key(),
            )));
        }
    }
    assert(operations_model(rest@) =~= Seq::<OperationModel>::empty());
    assert(operations_model(ops@) =~= operations_model(ops@) + Seq::<OperationModel>::empty());
}

/// Plans the layout of `device`: in automatic mode from the scheme that
/// [`auto_requests`] describes, in manual mode from `requests`, taken in order
/// of their ordinals. With `encrypt_check`, full-disk encryption is demanded:
/// the automatic root partition is encrypted, and in manual mode every data
/// request (neither swap nor EFI) must be marked encrypted. With `swap`, the
/// automatic scheme has a swap partition and a manual one a swap file. Fails with
/// `DeviceUnavailable` when the device is mounted, with `InvalidLayout` for the
/// first broken invariant of the requests, and with `InsufficientSpace` when
/// the layout does not fit in the device's free space.
pub fn plan(
    device: &Device,
    mode: LayoutMode,
    encrypt_check: bool,
    efi: bool,
    swap: bool,
    swap_size: u64,
    requests: &Vec<PartitionRequest>,
) -> (r: Result<Vec<Operation>, LayoutError>)
    ensures
        match r {
            Ok(ops) => plan_result(
                device.free_mib,
                device.mounted,
                mode,
                encrypt_check,
                efi,
                swap,
                swap_size,
                requests_model(requests@),
            ) == Ok::<Seq<OperationModel>, LayoutError>(operations_model(ops@)),
            Err(e) => plan_result(
                device.free_mib,
                device.mounted,
                mode,
                encrypt_check,
                efi,
                swap,
                swap_size,
                requests_model(requests@),
            ) == Err::<Seq<OperationModel>, LayoutError>(e),
        },
{
    if device.mounted {
        return Err(LayoutError::DeviceUnavailable);
    }
    let source = match mode {
        LayoutMode::Automatic => auto_request_list(encrypt_check, efi, swap, swap_size),
        LayoutMode::Manual => {
            let mut copy: Vec<PartitionRequest> = Vec::new();
            let mut i: usize = 0;
            while i < requests.len()
                invariant
                    i <= requests.len(),
                    copy.len() == i,
                    requests_model(copy@) == requests_model(requests@).subrange(0, i as int),
                decreases requests.len() - i,
            {
                let ghost prev = copy@;
                copy.push(copy_request(&requests[i]));
                proof {
                    assert forall|k: int| 0 <= k < i implies #[trigger] copy@[k] == prev[k] by {}
                    assert(requests_model(copy@) =~= requests_model(requests@).subrange(0, i + 1));
                }
                i = i + 1;
            }
            assert(requests_model(requests@).subrange(0, requests.len() as int) =~= requests_model(
                requests@,
            ));
            copy
        },
    };
    let t = sort_requests(source);
    let ghost m = requests_model(t@);
    assert(m == effective_requests(
        mode,
        encrypt_check,
        efi,
        swap,
        swap_size,
        requests_model(requests@),
    ));
    if let Some(v) = find_violation(&t, encrypt_check, efi, swap, swap_size) {
        return Err(LayoutError::InvalidLayout(v));
    }
    let free = device.free_mib;
    let fixed = match fixed_total_within(&t, free) {
        Some(n) => n,
        None => {
            return Err(LayoutError::InsufficientSpace);
        },
    };
    let swap_file: u64 = match mode {
        LayoutMode::Manual => if swap {
            swap_size
        } else {
            0
        },
        LayoutMode::Automatic => 0,
    };
    if swap_file > free - fixed {
        return Err(LayoutError::InsufficientSpace);
    }
    let remaining = any_remaining(&t);
    if remaining && free - fixed - swap_file < 1 {
        return Err(LayoutError::InsufficientSpace);
    }
    let rem: u64 = free - fixed;
    proof {
        lemma_span_total(m, rem);
    }
    let mut ops: Vec<Operation> = Vec::new();
    let table = if efi {
        TableType::Gpt
    } else {
        TableType::Msdos
    };
    ops.push(Operation::CreateTable(table));
    push_partition_ops(&mut ops, &t, rem);
    let mounts = mount_operations(&t);
    push_mounts_by_depth(&mut ops, mounts);
    let ghost before_swap = operations_model(ops@);
    if swap_file > 0 {
        ops.push(Operation::CreateSwap { target: SwapTarget::File, size_mib: swap_size });
    }
    proof {
        let tail = if mode == LayoutMode::Manual && swap {
            seq![OperationModel::CreateSwap { target: SwapTarget::File, size_mib: swap_size }]
        } else {
            Seq::empty()
        };
        assert(operations_model(ops@) =~= before_swap + tail);
        assert(operations_model(ops@) =~= layout_ops(m, free, mode, efi, swap, swap_size));
    }
    Ok(ops)
}

} // verus!

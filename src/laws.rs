use vstd::prelude::*;
use crate::layout::{FsType, LayoutError, LayoutMode, OperationModel, RequestModel};
use crate::mountpoint::{depth, slash_count};
use crate::order::{lemma_sorted_by_covers, lemma_sorted_by_elements, lemma_sorted_by_ordered, sorted_by};
use crate::planner::{
    by_ordinal, depth_key, effective_requests, layout_ops, mount_list, ordinal_key, partition_ops,
    fixed_total, plan_result, request_ops, span, table_for,
};
use crate::validate::{is_data, violation};
use crate::executor::{CommandResult, ExecutionOutcome, is_success, outcome_for, run, ends_in_failure};

verus! {

proof fn lemma_run_successes(n: nat, results: Seq<CommandResult>, j: int)
    requires
        0 <= j <= results.len(),
        j <= n,
        n <= usize::MAX,
        forall|i: int| 0 <= i < j ==> is_success(#[trigger] results[i]),
    ensures
        run(n, results.subrange(0, j)).len() == j,
        forall|i: int|
            0 <= i < j ==> #[trigger] run(n, results.subrange(0, j))[i]
                == (ExecutionOutcome::Succeeded { index: i as usize }),
    decreases j,
{
    if j > 0 {
        let p = results.subrange(0, j);
        assert(p.drop_last() =~= results.subrange(0, j - 1));
        lemma_run_successes(n, results, j - 1);
        assert(is_success(results[j - 1]));
    }
}

proof fn lemma_run_stays_halted(n: nat, results: Seq<CommandResult>, k: int, j: int)
    requires
        0 <= k < j <= results.len(),
        ends_in_failure(run(n, results.subrange(0, k + 1))),
    ensures
        run(n, results.subrange(0, j)) == run(n, results.subrange(0, k + 1)),
    decreases j,
{
    if j > k + 1 {
        let p = results.subrange(0, j);
        assert(p.drop_last() =~= results.subrange(0, j - 1));
        lemma_run_stays_halted(n, results, k, j - 1);
    }
}

/// Execution stops at the first failing step: when the tools of the first `k`
/// operations succeed and that of operation `k` fails, exactly `k + 1`
/// outcomes are recorded, the last one that failure, whatever results follow.
pub proof fn law_halts_at_first_failure(n: nat, results: Seq<CommandResult>, k: int)
    requires
        n <= usize::MAX,
        0 <= k < n,
        k < results.len(),
        forall|i: int| 0 <= i < k ==> is_success(#[trigger] results[i]),
        !is_success(results[k]),
    ensures
        run(n, results).len() == k + 1,
        forall|i: int|
            0 <= i < k ==> #[trigger] run(n, results)[i] == (ExecutionOutcome::Succeeded {
                index: i as usize,
            }),
        run(n, results)[k] == outcome_for(k as usize, results[k]),
        run(n, results)[k] is Failed,
{
    lemma_run_successes(n, results, k);
    let p = results.subrange(0, k + 1);
    assert(p.drop_last() =~= results.subrange(0, k));
    if k > 0 {
        assert(run(n, results.subrange(0, k)).last() is Succeeded);
    }
    assert(run(n, p)[k] is Failed);
    lemma_run_stays_halted(n, results, k, results.len() as int);
    assert(results.subrange(0, results.len() as int) =~= results);
}

proof fn lemma_partition_ops_kinds(t: Seq<RequestModel>, rem: u64)
    ensures
        forall|i: int|
            0 <= i < partition_ops(t, rem).len() ==> !(#[trigger] partition_ops(t, rem)[i] is CreateTable)
                && !(partition_ops(t, rem)[i] is Mount),
    decreases t.len(),
{
    if t.len() > 0 {
        lemma_partition_ops_kinds(t.drop_last(), rem);
    }
}

proof fn lemma_mount_list_kinds(t: Seq<RequestModel>)
    ensures
        forall|i: int| 0 <= i < mount_list(t).len() ==> #[trigger] mount_list(t)[i] is Mount,
    decreases t.len(),
{
    if t.len() > 0 {
        lemma_mount_list_kinds(t.drop_last());
    }
}

/// The operations of request `t[k]` stand together in the partition operations,
/// after those of the requests before it.
proof fn lemma_request_ops_position(t: Seq<RequestModel>, rem: u64, k: int)
    requires
        0 <= k < t.len(),
    ensures
        ({
            let off = partition_ops(t.subrange(0, k), rem).len() as int;
            let ro = request_ops(t[k], span(t.subrange(0, k), rem) as u64, rem);
            &&& off + ro.len() <= partition_ops(t, rem).len()
            &&& forall|j: int| 0 <= j < ro.len() ==> partition_ops(t, rem)[off + j] == #[trigger] ro[j]
        }),
    decreases t.len(),
{
    let d = t.drop_last();
    if k == t.len() - 1 {
        assert(d =~= t.subrange(0, k));
    } else {
        lemma_request_ops_position(d, rem, k);
        assert(d.subrange(0, k) =~= t.subrange(0, k));
        assert(d[k] == t[k]);
    }
}

/// Facts about the shape of a successful plan: where its parts begin and what
/// each part holds.
proof fn lemma_plan_shape(
    t: Seq<RequestModel>,
    free_mib: u64,
    mode: LayoutMode,
    efi: bool,
    swap: bool,
    swap_size: u64,
)
    ensures
        ({
            let ops = layout_ops(t, free_mib, mode, efi, swap, swap_size);
            let rem = (free_mib - crate::planner::fixed_total(t)) as u64;
            let p = partition_ops(t, rem);
            let s = sorted_by(mount_list(t), depth_key());
            &&& ops.len() == 1 + p.len() + s.len() + if mode == LayoutMode::Manual && swap {
                1int
            } else {
                0
            }
            &&& ops[0] == OperationModel::CreateTable(table_for(efi))
            &&& forall|i: int| 0 <= i < p.len() ==> ops[1 + i] == #[trigger] p[i]
            &&& forall|i: int| 0 <= i < s.len() ==> ops[1 + p.len() + i] == #[trigger] s[i]
            &&& forall|i: int| 1 + p.len() + s.len() <= i < ops.len() ==> #[trigger] ops[i] is CreateSwap
            &&& forall|i: int| 0 <= i < s.len() ==> #[trigger] s[i] is Mount
        }),
{
    let rem = (free_mib - crate::planner::fixed_total(t)) as u64;
    lemma_sorted_by_elements(mount_list(t), depth_key());
    lemma_mount_list_kinds(t);
    let s = sorted_by(mount_list(t), depth_key());
    assert forall|i: int| 0 <= i < s.len() implies #[trigger] s[i] is Mount by {
        let w = choose|w: int| 0 <= w < mount_list(t).len() && mount_list(t)[w] == s[i];
    }
}

/// A successful plan begins with the creation of the partition table (GPT when
/// EFI is asked for, else MBR) and creates no other table.
pub proof fn law_table_created_first_and_once(
    free_mib: u64,
    mounted: bool,
    mode: LayoutMode,
    encrypt_check: bool,
    efi: bool,
    swap: bool,
    swap_size: u64,
    requests: Seq<RequestModel>,
)
    requires
        plan_result(free_mib, mounted, mode, encrypt_check, efi, swap, swap_size, requests) is Ok,
    ensures
        ({
            let ops = plan_result(
                free_mib,
                mounted,
                mode,
                encrypt_check,
                efi,
                swap,
                swap_size,
                requests,
            )->Ok_0;
            &&& ops.len() > 0
            &&& ops[0] == OperationModel::CreateTable(table_for(efi))
            &&& forall|i: int| 1 <= i < ops.len() ==> !(#[trigger] ops[i] is CreateTable)
        }),
{
    let t = effective_requests(mode, encrypt_check, efi, swap, swap_size, requests);
    let rem = (free_mib - crate::planner::fixed_total(t)) as u64;
    lemma_plan_shape(t, free_mib, mode, efi, swap, swap_size);
    lemma_partition_ops_kinds(t, rem);
    let ops = layout_ops(t, free_mib, mode, efi, swap, swap_size);
    let p = partition_ops(t, rem);
    let s = sorted_by(mount_list(t), depth_key());
    assert forall|i: int| 1 <= i < ops.len() implies !(#[trigger] ops[i] is CreateTable) by {
        if i < 1 + p.len() {
            assert(ops[1 + (i - 1)] == p[i - 1]);
        } else if i < 1 + p.len() + s.len() {
            assert(ops[1 + p.len() + (i - 1 - p.len())] == s[i - 1 - p.len()]);
        }
    }
}

/// In a successful plan, mounts come in order of non-decreasing depth, so
/// that a mountpoint is mounted before any mountpoint below it.
pub proof fn law_mounts_by_depth(
    free_mib: u64,
    mounted: bool,
    mode: LayoutMode,
    encrypt_check: bool,
    efi: bool,
    swap: bool,
    swap_size: u64,
    requests: Seq<RequestModel>,
)
    requires
        plan_result(free_mib, mounted, mode, encrypt_check, efi, swap, swap_size, requests) is Ok,
    ensures
        ({
            let ops = plan_result(
                free_mib,
                mounted,
                mode,
                encrypt_check,
                efi,
                swap,
                swap_size,
                requests,
            )->Ok_0;
            forall|i: int, j: int|
                0 <= i < j < ops.len() && ops[i] is Mount && ops[j] is Mount ==> depth(
                    (#[trigger] ops[i])->Mount_mountpoint,
                ) <= depth((#[trigger] ops[j])->Mount_mountpoint)
        }),
{
    let t = effective_requests(mode, encrypt_check, efi, swap, swap_size, requests);
    let rem = (free_mib - crate::planner::fixed_total(t)) as u64;
    lemma_plan_shape(t, free_mib, mode, efi, swap, swap_size);
    lemma_partition_ops_kinds(t, rem);
    lemma_sorted_by_ordered(mount_list(t), depth_key());
    lemma_sorted_by_elements(mount_list(t), depth_key());
    let ops = layout_ops(t, free_mib, mode, efi, swap, swap_size);
    let p = partition_ops(t, rem);
    let s = sorted_by(mount_list(t), depth_key());
    assert forall|i: int, j: int|
        0 <= i < j < ops.len() && ops[i] is Mount && ops[j] is Mount implies depth(
            (#[trigger] ops[i])->Mount_mountpoint,
        ) <= depth((#[trigger] ops[j])->Mount_mountpoint) by {
        if i < 1 + p.len() {
            if i > 0 {
                assert(ops[1 + (i - 1)] == p[i - 1]);
            }
        } else if j < 1 + p.len() + s.len() {
            let a = i - 1 - p.len();
            let b = j - 1 - p.len();
            assert(ops[1 + p.len() + a] == s[a]);
            assert(ops[1 + p.len() + b] == s[b]);
            assert((depth_key())(s[a]) <= (depth_key())(s[b]));
        }
    }
}

/// In a successful manual plan, every request marked encrypted has its
/// encryption step strictly between the creation of its partition and the
/// formatting of its filesystem.
pub proof fn law_encryption_between_create_and_format(
    free_mib: u64,
    mounted: bool,
    encrypt_check: bool,
    efi: bool,
    swap: bool,
    swap_size: u64,
    requests: Seq<RequestModel>,
    k: int,
)
    requires
        plan_result(
            free_mib,
            mounted,
            LayoutMode::Manual,
            encrypt_check,
            efi,
            swap,
            swap_size,
            requests,
        ) is Ok,
        0 <= k < requests.len(),
        requests[k].encrypted,
    ensures
        ({
            let ops = plan_result(
                free_mib,
                mounted,
                LayoutMode::Manual,
                encrypt_check,
                efi,
                swap,
                swap_size,
                requests,
            )->Ok_0;
            exists|a: int, b: int, c: int|
                0 <= a < b < c < ops.len() && (#[trigger] ops[a]) is CreatePartition
                    && ops[a]->CreatePartition_ordinal == requests[k].ordinal && #[trigger] ops[b]
                    == (OperationModel::EncryptPartition { ordinal: requests[k].ordinal })
                    && #[trigger] ops[c] == (OperationModel::FormatFilesystem {
                    ordinal: requests[k].ordinal,
                    fs: requests[k].fs,
                })
        }),
{
    let mode = LayoutMode::Manual;
    let t = effective_requests(mode, encrypt_check, efi, swap, swap_size, requests);
    let rem = (free_mib - crate::planner::fixed_total(t)) as u64;
    lemma_sorted_by_covers(requests, ordinal_key());
    assert(t.contains(requests[k]));
    let w = choose|w: int| 0 <= w < t.len() && t[w] == requests[k];
    // Valid requests: an encrypted one is a data partition.
    assert(violation(t, encrypt_check, efi, swap, swap_size) is None);
    assert(is_data(t[w]));
    lemma_request_ops_position(t, rem, w);
    lemma_plan_shape(t, free_mib, mode, efi, swap, swap_size);
    let ops = layout_ops(t, free_mib, mode, efi, swap, swap_size);
    let p = partition_ops(t, rem);
    let off = partition_ops(t.subrange(0, w), rem).len() as int;
    let ro = request_ops(t[w], span(t.subrange(0, w), rem) as u64, rem);
    assert(ro.len() == 3);
    assert(p[off] == ro[0]);
    assert(p[off + 1] == ro[1]);
    assert(p[off + 2] == ro[2]);
    assert(ops[1 + off] == p[off]);
    assert(ops[1 + (off + 1)] == p[off + 1]);
    assert(ops[1 + (off + 2)] == p[off + 2]);
    let a = 1 + off;
    assert(ops[a] is CreatePartition && ops[a]->CreatePartition_ordinal == requests[k].ordinal);
    assert(ops[a + 1] == OperationModel::EncryptPartition { ordinal: requests[k].ordinal });
    assert(ops[a + 2] == OperationModel::FormatFilesystem {
        ordinal: requests[k].ordinal,
        fs: requests[k].fs,
    });
    assert(plan_result(free_mib, mounted, mode, encrypt_check, efi, swap, swap_size, requests)->Ok_0
        == ops);
}

/// Planning depends on its inputs alone: the same device snapshot, mode,
/// flags and requests always give the same result.
pub proof fn law_plan_deterministic(
    free_mib: u64,
    mounted: bool,
    mode: LayoutMode,
    encrypt_check: bool,
    efi: bool,
    swap: bool,
    swap_size: u64,
    first: Seq<RequestModel>,
    second: Seq<RequestModel>,
)
    requires
        first == second,
    ensures
        plan_result(free_mib, mounted, mode, encrypt_check, efi, swap, swap_size, first)
            == plan_result(free_mib, mounted, mode, encrypt_check, efi, swap, swap_size, second),
{
}

/// A valid manual layout whose swap file is larger than the free space left
/// once every fixed-size request is subtracted fails for want of space.
pub proof fn law_swap_exceeding_space(
    free_mib: u64,
    encrypt_check: bool,
    efi: bool,
    swap_size: u64,
    requests: Seq<RequestModel>,
)
    requires
        violation(
            by_ordinal(requests),
            encrypt_check,
            efi,
            true,
            swap_size,
        ) is None,
        swap_size > free_mib - fixed_total(by_ordinal(requests)),
    ensures
        plan_result(free_mib, false, LayoutMode::Manual, encrypt_check, efi, true, swap_size, requests)
            == Err::<Seq<OperationModel>, LayoutError>(LayoutError::InsufficientSpace),
{
}

/// `a` is a proper ancestor of mountpoint `b`: `/` of every other mountpoint,
/// `/boot` of `/boot/efi` but not of `/bootx`.
pub open spec fn is_ancestor(a: Seq<char>, b: Seq<char>) -> bool {
    &&& a.len() > 0
    &&& b.len() > a.len()
    &&& b.subrange(0, a.len() as int) == a
    &&& (a == seq!['/'] || b[a.len() as int] == '/')
}

proof fn lemma_slash_count_prefix(s: Seq<char>, k: int)
    requires
        0 <= k <= s.len(),
    ensures
        slash_count(s.subrange(0, k)) <= slash_count(s),
    decreases s.len(),
{
    if k < s.len() {
        lemma_slash_count_prefix(s.drop_last(), k);
        assert(s.drop_last().subrange(0, k) =~= s.subrange(0, k));
    } else {
        assert(s.subrange(0, k) =~= s);
    }
}

proof fn lemma_ancestor_shallower(a: Seq<char>, b: Seq<char>)
    requires
        is_ancestor(a, b),
    ensures
        depth(a) < depth(b),
{
    let n = a.len() as int;
    let step = b.subrange(0, n + 1);
    assert(step.drop_last() =~= b.subrange(0, n));
    lemma_slash_count_prefix(b, n + 1);
    if a == seq!['/'] {
        let one = b.subrange(0, 1);
        assert(one.drop_last() =~= Seq::<char>::empty());
        assert(one =~= a);
        assert(slash_count(one) == slash_count(one.drop_last()) + 1);
        assert(slash_count(Seq::<char>::empty()) == 0);
        lemma_slash_count_prefix(b, 1);
    } else {
        assert(step.last() == '/');
        assert(slash_count(step) == slash_count(b.subrange(0, n)) + 1);
    }
}

/// In a successful plan, a mountpoint is mounted after every mountpoint above
/// it in the tree (after `/`, and `/boot/efi` after `/boot`).
pub proof fn law_parent_mounted_before_child(
    free_mib: u64,
    mounted: bool,
    mode: LayoutMode,
    encrypt_check: bool,
    efi: bool,
    swap: bool,
    swap_size: u64,
    requests: Seq<RequestModel>,
)
    requires
        plan_result(free_mib, mounted, mode, encrypt_check, efi, swap, swap_size, requests) is Ok,
    ensures
        ({
            let ops = plan_result(
                free_mib,
                mounted,
                mode,
                encrypt_check,
                efi,
                swap,
                swap_size,
                requests,
            )->Ok_0;
            forall|i: int, j: int|
                0 <= i < ops.len() && 0 <= j < ops.len() && ops[i] is Mount && ops[j] is Mount
                    && is_ancestor(
                    (#[trigger] ops[i])->Mount_mountpoint,
                    (#[trigger] ops[j])->Mount_mountpoint,
                ) ==> i < j
        }),
{
    law_mounts_by_depth(free_mib, mounted, mode, encrypt_check, efi, swap, swap_size, requests);
    let ops = plan_result(free_mib, mounted, mode, encrypt_check, efi, swap, swap_size, requests)->Ok_0;
    assert forall|i: int, j: int|
        0 <= i < ops.len() && 0 <= j < ops.len() && ops[i] is Mount && ops[j] is Mount
            && is_ancestor(
            (#[trigger] ops[i])->Mount_mountpoint,
            (#[trigger] ops[j])->Mount_mountpoint,
        ) implies i < j by {
        lemma_ancestor_shallower(ops[i]->Mount_mountpoint, ops[j]->Mount_mountpoint);
        if j < i {
            assert(depth(ops[j]->Mount_mountpoint) <= depth(ops[i]->Mount_mountpoint));
        }
    }
}

} // verus!

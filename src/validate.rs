use vstd::prelude::*;
use crate::layout::{FsType, PartitionRequest, RequestModel, SizeSpec, Violation, requests_model};
use crate::mountpoint::{is_well_formed_mountpoint, well_formed_mountpoint};

verus! {

/// A swap request has no mountpoint; any other has a well-formed one.
pub open spec fn mountpoint_ok(r: RequestModel) -> bool {
    match r.mountpoint {
        None => r.fs == FsType::Swap,
        Some(m) => r.fs != FsType::Swap && well_formed_mountpoint(m),
    }
}

pub open spec fn is_remaining(r: RequestModel) -> bool {
    r.size == SizeSpec::Remaining
}

/// Data partitions: neither swap nor the EFI system partition.
pub open spec fn is_data(r: RequestModel) -> bool {
    r.fs != FsType::Swap && r.fs != FsType::Efi
}

pub open spec fn is_root(r: RequestModel) -> bool {
    r.mountpoint == Some(seq!['/'])
}

pub open spec fn has_bad_mountpoint(t: Seq<RequestModel>) -> bool {
    exists|i: int| 0 <= i < t.len() && !mountpoint_ok(#[trigger] t[i])
}

pub open spec fn has_zero_size(t: Seq<RequestModel>) -> bool {
    exists|i: int| 0 <= i < t.len() && (#[trigger] t[i]).size == SizeSpec::Fixed(0)
}

pub open spec fn has_unencryptable(t: Seq<RequestModel>) -> bool {
    exists|i: int| 0 <= i < t.len() && (#[trigger] t[i]).encrypted && !is_data(t[i])
}

pub open spec fn has_bad_ordinal(t: Seq<RequestModel>) -> bool {
    ||| exists|i: int| 0 <= i < t.len() && (#[trigger] t[i]).ordinal == 0
    ||| exists|i: int, j: int|
        0 <= i < j < t.len() && (#[trigger] t[i]).ordinal == (#[trigger] t[j]).ordinal
}

pub open spec fn has_duplicate_mountpoint(t: Seq<RequestModel>) -> bool {
    exists|i: int, j: int|
        0 <= i < j < t.len() && (#[trigger] t[i]).mountpoint is Some
            && t[i].mountpoint == (#[trigger] t[j]).mountpoint
}

pub open spec fn has_root(t: Seq<RequestModel>) -> bool {
    exists|i: int| 0 <= i < t.len() && is_root(#[trigger] t[i])
}

pub open spec fn has_multiple_remaining(t: Seq<RequestModel>) -> bool {
    exists|i: int, j: int|
        0 <= i < j < t.len() && is_remaining(#[trigger] t[i]) && is_remaining(#[trigger] t[j])
}

pub open spec fn has_remaining_not_last(t: Seq<RequestModel>) -> bool {
    exists|i: int, j: int|
        0 <= i < t.len() && 0 <= j < t.len() && is_remaining(#[trigger] t[i])
            && (#[trigger] t[j]).ordinal > t[i].ordinal
}

/// Exactly one request is an EFI system partition.
pub open spec fn has_single_efi(t: Seq<RequestModel>) -> bool {
    exists|i: int|
        0 <= i < t.len() && (#[trigger] t[i]).fs == FsType::Efi && forall|j: int|
            0 <= j < t.len() && (#[trigger] t[j]).fs == FsType::Efi ==> j == i
}

pub open spec fn has_unencrypted_data(t: Seq<RequestModel>) -> bool {
    exists|i: int| 0 <= i < t.len() && is_data(#[trigger] t[i]) && !t[i].encrypted
}

/// The first broken invariant of request list `t`, checked in a fixed order;
/// `None` when `t` is valid for these flags.
pub open spec fn violation(
    t: Seq<RequestModel>,
    encrypt_check: bool,
    efi: bool,
    swap: bool,
    swap_size: u64,
) -> Option<Violation> {
    if swap && swap_size == 0 {
        Some(Violation::NonPositiveSwap)
    } else if has_bad_mountpoint(t) {
        Some(Violation::BadMountpoint)
    } else if has_zero_size(t) {
        Some(Violation::ZeroSize)
    } else if has_unencryptable(t) {
        Some(Violation::UnencryptableRequest)
    } else if has_bad_ordinal(t) {
        Some(Violation::BadOrdinal)
    } else if has_duplicate_mountpoint(t) {
        Some(Violation::DuplicateMountpoint)
    } else if !has_root(t) {
        Some(Violation::MissingRoot)
    } else if has_multiple_remaining(t) {
        Some(Violation::MultipleRemaining)
    } else if has_remaining_not_last(t) {
        Some(Violation::RemainingNotLast)
    } else if efi && !has_single_efi(t) {
        Some(Violation::EfiMismatch)
    } else if encrypt_check && has_unencrypted_data(t) {
        Some(Violation::EncryptionMismatch)
    } else {
        None
    }
}

fn check_mountpoint(r: &PartitionRequest) -> (ok: bool)
    ensures
        ok == mountpoint_ok(r@),
{
    match &r.mountpoint {
        None => r.fs == FsType::Swap,
        Some(m) => r.fs != FsType::Swap && is_well_formed_mountpoint(m.as_str()),
    }
}

fn is_data_request(r: &PartitionRequest) -> (b: bool)
    ensures
        b == is_data(r@),
{
    r.fs != FsType::Swap && r.fs != FsType::Efi
}

fn is_remaining_request(r: &PartitionRequest) -> (b: bool)
    ensures
        b == is_remaining(r@),
{
    match r.size {
        SizeSpec::Remaining => true,
        SizeSpec::Fixed(_) => false,
    }
}

fn same_mountpoint(a: &PartitionRequest, b: &PartitionRequest) -> (r: bool)
    ensures
        r == (a@.mountpoint is Some && a@.mountpoint == b@.mountpoint),
{
    match (&a.mountpoint, &b.mountpoint) {
        (Some(x), Some(y)) => *x == *y,
        _ => false,
    }
}

fn is_root_request(r: &PartitionRequest) -> (b: bool)
    ensures
        b == is_root(r@),
{
    match &r.mountpoint {
        Some(m) => {
            let s = m.as_str();
            let n = s.unicode_len();
            let b = n == 1 && s.get_char(0) == '/';
            proof {
                if b {
                    assert(m@ =~= seq!['/']);
                }
            }
            b
        },
        None => false,
    }
}

fn any_bad_mountpoint(t: &Vec<PartitionRequest>) -> (r: bool)
    ensures
        r == has_bad_mountpoint(requests_model(t@)),
{
    let ghost m = requests_model(t@);
    let mut i: usize = 0;
    while i < t.len()
        invariant
            m == requests_model(t@),
            i <= t.len(),
            forall|k: int| 0 <= k < i ==> mountpoint_ok(#[trigger] m[k]),
        decreases t.len() - i,
    {
        if !check_mountpoint(&t[i]) {
            assert(!mountpoint_ok(m[i as int]));
            return true;
        }
        i = i + 1;
    }
    false
}

fn any_zero_size(t: &Vec<PartitionRequest>) -> (r: bool)
    ensures
        r == has_zero_size(requests_model(t@)),
{
    let ghost m = requests_model(t@);
    let mut i: usize = 0;
    while i < t.len()
        invariant
            m == requests_model(t@),
            i <= t.len(),
            forall|k: int| 0 <= k < i ==> (#[trigger] m[k]).size != SizeSpec::Fixed(0),
        decreases t.len() - i,
    {
        if t[i].size == SizeSpec::Fixed(0) {
            assert(m[i as int].size == SizeSpec::Fixed(0));
            return true;
        }
        i = i + 1;
    }
    false
}

fn any_unencryptable(t: &Vec<PartitionRequest>) -> (r: bool)
    ensures
        r == has_unencryptable(requests_model(t@)),
{
    let ghost m = requests_model(t@);
    let mut i: usize = 0;
    while i < t.len()
        invariant
            m == requests_model(t@),
            i <= t.len(),
            forall|k: int| 0 <= k < i ==> !((#[trigger] m[k]).encrypted && !is_data(m[k])),
        decreases t.len() - i,
    {
        if t[i].encrypted && !is_data_request(&t[i]) {
            assert(m[i as int].encrypted && !is_data(m[i as int]));
            return true;
        }
        i = i + 1;
    }
    false
}

fn any_unencrypted_data(t: &Vec<PartitionRequest>) -> (r: bool)
    ensures
        r == has_unencrypted_data(requests_model(t@)),
{
    let ghost m = requests_model(t@);
    let mut i: usize = 0;
    while i < t.len()
        invariant
            m == requests_model(t@),
            i <= t.len(),
            forall|k: int| 0 <= k < i ==> !(is_data(#[trigger] m[k]) && !m[k].encrypted),
        decreases t.len() - i,
    {
        if is_data_request(&t[i]) && !t[i].encrypted {
            assert(is_data(m[i as int]) && !m[i as int].encrypted);
            return true;
        }
        i = i + 1;
    }
    false
}

fn any_root(t: &Vec<PartitionRequest>) -> (r: bool)
    ensures
        r == has_root(requests_model(t@)),
{
    let ghost m = requests_model(t@);
    let mut i: usize = 0;
    while i < t.len()
        invariant
            m == requests_model(t@),
            i <= t.len(),
            forall|k: int| 0 <= k < i ==> !is_root(#[trigger] m[k]),
        decreases t.len() - i,
    {
        if is_root_request(&t[i]) {
            assert(is_root(m[i as int]));
            return true;
        }
        i = i + 1;
    }
    false
}

fn any_bad_ordinal(t: &Vec<PartitionRequest>) -> (r: bool)
    ensures
        r == has_bad_ordinal(requests_model(t@)),
{
    let ghost m = requests_model(t@);
    let n = t.len();
    let mut a: usize = 0;
    while a < n
        invariant
            n == t.len(),
            m == requests_model(t@),
            a <= n,
            forall|x: int| 0 <= x < a ==> (#[trigger] m[x]).ordinal != 0,
            forall|x: int, y: int|
                0 <= x < y < n && x < a ==> (#[trigger] m[x]).ordinal != (#[trigger] m[y]).ordinal,
        decreases n - a,
    {
        if t[a].ordinal == 0 {
            assert(m[a as int].ordinal == 0);
            return true;
        }
        let mut b: usize = a + 1;
        while b < n
            invariant
                n == t.len(),
                m == requests_model(t@),
                a < b <= n,
                forall|y: int| a < y < b ==> m[a as int].ordinal != (#[trigger] m[y]).ordinal,
            decreases n - b,
        {
            if t[a].ordinal == t[b].ordinal {
                assert(m[a as int].ordinal == m[b as int].ordinal);
                return true;
            }
            b = b + 1;
        }
        a = a + 1;
    }
    false
}

fn any_duplicate_mountpoint(t: &Vec<PartitionRequest>) -> (r: bool)
    ensures
        r == has_duplicate_mountpoint(requests_model(t@)),
{
    let ghost m = requests_model(t@);
    let n = t.len();
    let mut a: usize = 0;
    while a < n
        invariant
            n == t.len(),
            m == requests_model(t@),
            a <= n,
            forall|x: int, y: int|
                0 <= x < y < n && x < a ==> !((#[trigger] m[x]).mountpoint is Some
                    && m[x].mountpoint == (#[trigger] m[y]).mountpoint),
        decreases n - a,
    {
        let mut b: usize = a + 1;
        while b < n
            invariant
                n == t.len(),
                m == requests_model(t@),
                a < b <= n,
                forall|y: int|
                    a < y < b ==> !(m[a as int].mountpoint is Some && m[a as int].mountpoint == (
                    #[trigger] m[y]).mountpoint),
            decreases n - b,
        {
            if same_mountpoint(&t[a], &t[b]) {
                assert(m[a as int].mountpoint is Some && m[a as int].mountpoint
                    == m[b as int].mountpoint);
                return true;
            }
            b = b + 1;
        }
        a = a + 1;
    }
    false
}

fn any_multiple_remaining(t: &Vec<PartitionRequest>) -> (r: bool)
    ensures
        r == has_multiple_remaining(requests_model(t@)),
{
    let ghost m = requests_model(t@);
    let n = t.len();
    let mut a: usize = 0;
    while a < n
        invariant
            n == t.len(),
            m == requests_model(t@),
            a <= n,
            forall|x: int, y: int|
                0 <= x < y < n && x < a ==> !(is_remaining(#[trigger] m[x]) && is_remaining(
                    #[trigger] m[y],
                )),
        decreases n - a,
    {
        if is_remaining_request(&t[a]) {
            let mut b: usize = a + 1;
            while b < n
                invariant
                    n == t.len(),
                    m == requests_model(t@),
                    a < b <= n,
                    is_remaining(m[a as int]),
                    forall|y: int| a < y < b ==> !is_remaining(#[trigger] m[y]),
                decreases n - b,
            {
                if is_remaining_request(&t[b]) {
                    assert(is_remaining(m[a as int]) && is_remaining(m[b as int]));
                    return true;
                }
                b = b + 1;
            }
        }
        a = a + 1;
    }
    false
}

fn any_remaining_not_last(t: &Vec<PartitionRequest>) -> (r: bool)
    ensures
        r == has_remaining_not_last(requests_model(t@)),
{
    let ghost m = requests_model(t@);
    let n = t.len();
    let mut a: usize = 0;
    while a < n
        invariant
            n == t.len(),
            m == requests_model(t@),
            a <= n,
            forall|x: int, y: int|
                0 <= x < n && 0 <= y < n && x < a ==> !(is_remaining(#[trigger] m[x]) && (
                #[trigger] m[y]).ordinal > m[x].ordinal),
        decreases n - a,
    {
        if is_remaining_request(&t[a]) {
            let mut b: usize = 0;
            while b < n
                invariant
                    n == t.len(),
                    m == requests_model(t@),
                    a < n,
                    b <= n,
                    is_remaining(m[a as int]),
                    forall|y: int| 0 <= y < b ==> (#[trigger] m[y]).ordinal <= m[a as int].ordinal,
                decreases n - b,
            {
                if t[b].ordinal > t[a].ordinal {
                    assert(m[b as int].ordinal > m[a as int].ordinal);
                    return true;
                }
                b = b + 1;
            }
        }
        a = a + 1;
    }
    false
}

fn single_efi(t: &Vec<PartitionRequest>) -> (r: bool)
    ensures
        r == has_single_efi(requests_model(t@)),
{
    let ghost m = requests_model(t@);
    let n = t.len();
    let mut found = false;
    let mut at: usize = 0;
    let mut i: usize = 0;
    while i < n
        invariant
            n == t.len(),
            m == requests_model(t@),
            i <= n,
            !found ==> forall|k: int| 0 <= k < i ==> (#[trigger] m[k]).fs != FsType::Efi,
            found ==> at < i && m[at as int].fs == FsType::Efi,
            found ==> forall|k: int| 0 <= k < i && (#[trigger] m[k]).fs == FsType::Efi ==> k == at,
        decreases n - i,
    {
        if t[i].fs == FsType::Efi {
            if found {
                assert(m[i as int].fs == FsType::Efi);
                assert(!has_single_efi(m)) by {
                    if has_single_efi(m) {
                        let w = choose|w: int|
                            0 <= w < m.len() && (#[trigger] m[w]).fs == FsType::Efi && forall|j: int|
                                0 <= j < m.len() && (#[trigger] m[j]).fs == FsType::Efi ==> j == w;
                        assert(m[at as int].fs == FsType::Efi);
                    }
                }
                return false;
            }
            found = true;
            at = i;
        }
        i = i + 1;
    }
    if found {
        assert(m[at as int].fs == FsType::Efi);
    }
    found
}

/// Finds the first broken invariant of `t`, as [`violation`] states it.
pub fn find_violation(
    t: &Vec<PartitionRequest>,
    encrypt_check: bool,
    efi: bool,
    swap: bool,
    swap_size: u64,
) -> (r: Option<Violation>)
    ensures
        r == violation(requests_model(t@), encrypt_check, efi, swap, swap_size),
{
    if swap && swap_size == 0 {
        Some(Violation::NonPositiveSwap)
    } else if any_bad_mountpoint(t) {
        Some(Violation::BadMountpoint)
    } else if any_zero_size(t) {
        Some(Violation::ZeroSize)
    } else if any_unencryptable(t) {
        Some(Violation::UnencryptableRequest)
    } else if any_bad_ordinal(t) {
        Some(Violation::BadOrdinal)
    } else if any_duplicate_mountpoint(t) {
        Some(Violation::DuplicateMountpoint)
    } else if !any_root(t) {
        Some(Violation::MissingRoot)
    } else if any_multiple_remaining(t) {
        Some(Violation::MultipleRemaining)
    } else if any_remaining_not_last(t) {
        Some(Violation::RemainingNotLast)
    } else if efi && !single_efi(t) {
        Some(Violation::EfiMismatch)
    } else if encrypt_check && any_unencrypted_data(t) {
        Some(Violation::EncryptionMismatch)
    } else {
        None
    }
}

} // verus!

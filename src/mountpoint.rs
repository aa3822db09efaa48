use vstd::prelude::*;

verus! {

/// A mountpoint is an absolute path: `/`, or `/` followed by non-empty
/// components separated by single slashes, with no trailing slash.
pub open spec fn well_formed_mountpoint(s: Seq<char>) -> bool {
    &&& s.len() >= 1
    &&& s[0] == '/'
    &&& s.len() > 1 ==> s[s.len() - 1] != '/'
    &&& forall|i: int| 0 <= i < s.len() - 1 ==> !(#[trigger] s[i] == '/' && s[i + 1] == '/')
}

/// Number of slashes in `s`.
pub open spec fn slash_count(s: Seq<char>) -> nat
    decreases s.len(),
{
    if s.len() == 0 {
        0
    } else {
        slash_count(s.drop_last()) + if s.last() == '/' {
            1nat
        } else {
            0nat
        }
    }
}

/// Number of path components below `/`: 0 for `/`, 1 for `/home`, 2 for `/boot/efi`.
pub open spec fn depth(s: Seq<char>) -> nat {
    if s.len() <= 1 {
        0
    } else {
        slash_count(s)
    }
}

proof fn lemma_slash_count_bound(s: Seq<char>)
    ensures
        slash_count(s) <= s.len(),
    decreases s.len(),
{
    if s.len() > 0 {
        lemma_slash_count_bound(s.drop_last());
    }
}

/// Tells whether `s` is a well-formed mountpoint.
pub fn is_well_formed_mountpoint(s: &str) -> (r: bool)
    ensures
        r == well_formed_mountpoint(s@),
{
    let n = s.unicode_len();
    if n == 0 || s.get_char(0) != '/' {
        return false;
    }
    if n > 1 && s.get_char(n - 1) == '/' {
        return false;
    }
    let mut i: usize = 0;
    while i < n - 1
        invariant
            n == s@.len(),
            n >= 1,
            forall|j: int| 0 <= j < i ==> !(#[trigger] s@[j] == '/' && s@[j + 1] == '/'),
        decreases n - i,
    {
        if s.get_char(i) == '/' && s.get_char(i + 1) == '/' {
            return false;
        }
        i = i + 1;
    }
    true
}

/// The depth of mountpoint `s`.
pub fn mountpoint_depth(s: &str) -> (r: usize)
    ensures
        r == depth(s@),
{
    let n = s.unicode_len();
    if n <= 1 {
        return 0;
    }
    let mut count: usize = 0;
    let mut i: usize = 0;
    while i < n
        invariant
            n == s@.len(),
            i <= n,
            count == slash_count(s@.subrange(0, i as int)),
        decreases n - i,
    {
        proof {
            assert(s@.subrange(0, i + 1).drop_last() =~= s@.subrange(0, i as int));
            lemma_slash_count_bound(s@.subrange(0, i as int));
        }
        if s.get_char(i) == '/' {
            count = count + 1;
        }
        i = i + 1;
    }
    assert(s@.subrange(0, n as int) =~= s@);
    count
}

} // verus!

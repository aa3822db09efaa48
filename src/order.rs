use vstd::prelude::*;

verus! {

/// Index of the first element of `s` with the least key.
pub open spec fn min_index_by<A>(s: Seq<A>, key: spec_fn(A) -> int) -> int
    decreases s.len(),
{
    if s.len() <= 1 {
        0
    } else {
        let m = min_index_by(s.drop_last(), key);
        if key(s.last()) < key(s[m]) {
            s.len() - 1
        } else {
            m
        }
    }
}

/// `s` ordered by `key`, equal keys keeping their relative order: the first
/// least element, then the rest ordered likewise.
pub open spec fn sorted_by<A>(s: Seq<A>, key: spec_fn(A) -> int) -> Seq<A>
    decreases s.len(),
{
    if s.len() == 0 {
        s
    } else {
        let m = min_index_by(s, key);
        if 0 <= m < s.len() {
            seq![s[m]] + sorted_by(s.remove(m), key)
        } else {
            s
        }
    }
}

pub proof fn lemma_min_index_by<A>(s: Seq<A>, key: spec_fn(A) -> int)
    requires
        s.len() > 0,
    ensures
        0 <= min_index_by(s, key) < s.len(),
        forall|j: int| 0 <= j < s.len() ==> key(s[min_index_by(s, key)]) <= key(#[trigger] s[j]),
        forall|j: int| 0 <= j < min_index_by(s, key) ==> key(s[min_index_by(s, key)]) < key(
            #[trigger] s[j],
        ),
    decreases s.len(),
{
    if s.len() > 1 {
        let d = s.drop_last();
        lemma_min_index_by(d, key);
        assert forall|j: int| 0 <= j < d.len() implies d[j] == s[j] by {}
    }
}

/// Sorting keeps the length and draws every element from the input.
pub proof fn lemma_sorted_by_elements<A>(s: Seq<A>, key: spec_fn(A) -> int)
    ensures
        sorted_by(s, key).len() == s.len(),
        forall|i: int| 0 <= i < s.len() ==> s.contains(#[trigger] sorted_by(s, key)[i]),
    decreases s.len(),
{
    if s.len() > 0 {
        let m = min_index_by(s, key);
        lemma_min_index_by(s, key);
        let rest = s.remove(m);
        lemma_sorted_by_elements(rest, key);
        let r = sorted_by(s, key);
        assert forall|i: int| 0 <= i < s.len() implies s.contains(#[trigger] r[i]) by {
            if i == 0 {
                assert(s[m] == r[0]);
            } else {
                assert(r[i] == sorted_by(rest, key)[i - 1]);
                assert(rest.contains(r[i]));
                let k = choose|k: int| 0 <= k < rest.len() && rest[k] == r[i];
                if k < m {
                    assert(s[k] == r[i]);
                } else {
                    assert(s[k + 1] == r[i]);
                }
            }
        }
    }
}

/// Sorting yields keys in non-decreasing order.
pub proof fn lemma_sorted_by_ordered<A>(s: Seq<A>, key: spec_fn(A) -> int)
    ensures
        forall|i: int, j: int|
            0 <= i < j < s.len() ==> key(#[trigger] sorted_by(s, key)[i]) <= key(
                #[trigger] sorted_by(s, key)[j],
            ),
    decreases s.len(),
{
    lemma_sorted_by_elements(s, key);
    if s.len() > 0 {
        let m = min_index_by(s, key);
        lemma_min_index_by(s, key);
        let rest = s.remove(m);
        lemma_sorted_by_ordered(rest, key);
        lemma_sorted_by_elements(rest, key);
        let r = sorted_by(s, key);
        let rr = sorted_by(rest, key);
        assert forall|i: int, j: int| 0 <= i < j < s.len() implies key(#[trigger] r[i]) <= key(
            #[trigger] r[j],
        ) by {
            assert(r[j] == rr[j - 1]);
            if i == 0 {
                assert(rest.contains(rr[j - 1]));
                let k = choose|k: int| 0 <= k < rest.len() && rest[k] == rr[j - 1];
                if k < m {
                    assert(s[k] == r[j]);
                } else {
                    assert(s[k + 1] == r[j]);
                }
            } else {
                assert(r[i] == rr[i - 1]);
            }
        }
    }
}

/// Every element of the input is found in the sorted sequence.
pub proof fn lemma_sorted_by_covers<A>(s: Seq<A>, key: spec_fn(A) -> int)
    ensures
        forall|i: int| 0 <= i < s.len() ==> sorted_by(s, key).contains(#[trigger] s[i]),
    decreases s.len(),
{
    if s.len() > 0 {
        let m = min_index_by(s, key);
        lemma_min_index_by(s, key);
        let rest = s.remove(m);
        lemma_sorted_by_covers(rest, key);
        lemma_sorted_by_elements(rest, key);
        let r = sorted_by(s, key);
        assert forall|i: int| 0 <= i < s.len() implies r.contains(#[trigger] s[i]) by {
            if i == m {
                assert(r[0] == s[i]);
            } else {
                let i2 = if i < m {
                    i
                } else {
                    i - 1
                };
                assert(rest[i2] == s[i]);
                assert(sorted_by(rest, key).contains(rest[i2]));
                let w = choose|w: int|
                    0 <= w < sorted_by(rest, key).len() && sorted_by(rest, key)[w] == rest[i2];
                assert(r[w + 1] == s[i]);
            }
        }
    }
}

} // verus!

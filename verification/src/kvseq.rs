//! Association sequences: the mathematical model shared by the authorization
//! cache and the inbox subscription registry. A container's contents are a
//! sequence of (key, value) pairs ordered from most recently used to least
//! recently used, with pairwise-distinct keys.

use vstd::prelude::*;

verus! {

/// Index of the first pair carrying `k`, or -1 if no pair does.
pub open spec fn key_find<T>(m: Seq<(Seq<char>, T)>, k: Seq<char>) -> int
    decreases m.len(),
{
    if m.len() == 0 {
        -1
    } else if m[0].0 == k {
        0
    } else if key_find(m.drop_first(), k) == -1 {
        -1
    } else {
        key_find(m.drop_first(), k) + 1
    }
}

/// Whether some pair carries `k`.
pub open spec fn has_key<T>(m: Seq<(Seq<char>, T)>, k: Seq<char>) -> bool {
    key_find(m, k) >= 0
}

/// No two pairs carry the same key.
pub open spec fn distinct_keys<T>(m: Seq<(Seq<char>, T)>) -> bool {
    forall|i: int, j: int| 0 <= i < j < m.len() ==> m[i].0 != m[j].0
}

/// The pair at `i` moved to the front, everything else kept in order.
pub open spec fn promote<T>(m: Seq<(Seq<char>, T)>, i: int) -> Seq<(Seq<char>, T)> {
    seq![m[i]] + m.remove(i)
}

/// `key_find` lands inside the sequence on the sought key, and -1 means the
/// key is nowhere.
pub proof fn lemma_key_find<T>(m: Seq<(Seq<char>, T)>, k: Seq<char>)
    ensures
        -1 <= key_find(m, k) < m.len(),
        key_find(m, k) >= 0 ==> m[key_find(m, k)].0 == k,
        key_find(m, k) == -1 ==> forall|j: int| 0 <= j < m.len() ==> m[j].0 != k,
    decreases m.len(),
{
    if m.len() > 0 && m[0].0 != k {
        lemma_key_find(m.drop_first(), k);
        if key_find(m.drop_first(), k) == -1 {
            assert forall|j: int| 0 <= j < m.len() implies m[j].0 != k by {
                if j > 0 {
                    assert(m.drop_first()[j - 1] == m[j]);
                }
            }
        } else {
            assert(m.drop_first()[key_find(m.drop_first(), k)] == m[key_find(m, k)]);
        }
    }
}

/// A key that some pair carries is found.
pub proof fn lemma_key_find_present<T>(m: Seq<(Seq<char>, T)>, k: Seq<char>, j: int)
    requires
        0 <= j < m.len(),
        m[j].0 == k,
    ensures
        0 <= key_find(m, k) < m.len(),
    decreases m.len(),
{
    if m[0].0 != k {
        assert(m.drop_first()[j - 1] == m[j]);
        lemma_key_find_present(m.drop_first(), k, j - 1);
    }
}

/// Under distinct keys, `key_find` is the only index carrying the key.
pub proof fn lemma_key_find_unique<T>(m: Seq<(Seq<char>, T)>, k: Seq<char>, j: int)
    requires
        distinct_keys(m),
        0 <= j < m.len(),
        m[j].0 == k,
    ensures
        key_find(m, k) == j,
{
    lemma_key_find_present(m, k, j);
    lemma_key_find(m, k);
    let i = key_find(m, k);
    if i != j {
        assert(m[i].0 == m[j].0);
    }
}

/// Promoting a pair keeps the length, the key set and key distinctness.
pub proof fn lemma_promote_distinct<T>(m: Seq<(Seq<char>, T)>, i: int)
    requires
        distinct_keys(m),
        0 <= i < m.len(),
    ensures
        promote(m, i).len() == m.len(),
        distinct_keys(promote(m, i)),
        forall|k: Seq<char>| has_key(promote(m, i), k) == has_key(m, k),
{
    let p = promote(m, i);
    assert forall|a: int, b: int| 0 <= a < b < p.len() implies p[a].0 != p[b].0 by {
        lemma_promote_index_src(m, i, a);
        lemma_promote_index_src(m, i, b);
    }
    assert forall|k: Seq<char>| has_key(p, k) == has_key(m, k) by {
        lemma_key_find(p, k);
        lemma_key_find(m, k);
        if has_key(m, k) {
            let j = key_find(m, k);
            let pj = if j == i {
                0int
            } else if j < i {
                j + 1
            } else {
                j
            };
            lemma_promote_index_src(m, i, pj);
            lemma_key_find_present(p, k, pj);
        }
        if has_key(p, k) {
            let j = key_find(p, k);
            lemma_promote_index_src(m, i, j);
            let sj = promote_src(m.len(), i, j);
            lemma_key_find_present(m, k, sj);
        }
    }
}

/// Which source index a position of `promote(m, i)` reads from.
pub open spec fn promote_src(len: nat, i: int, a: int) -> int {
    if a == 0 {
        i
    } else if a <= i {
        a - 1
    } else {
        a
    }
}

/// Every position of a promoted sequence holds some pair of the source sequence,
/// at the index `promote_src` names.
pub proof fn lemma_promote_index_src<T>(m: Seq<(Seq<char>, T)>, i: int, a: int)
    requires
        0 <= i < m.len(),
        0 <= a < m.len(),
    ensures
        promote(m, i).len() == m.len(),
        promote(m, i)[a] == m[promote_src(m.len(), i, a)],
        0 <= promote_src(m.len(), i, a) < m.len(),
        a != 0 ==> promote_src(m.len(), i, a) != i,
{
    if a == 0 {
    } else if a <= i {
        assert(promote(m, i)[a] == m.remove(i)[a - 1]);
    } else {
        assert(promote(m, i)[a] == m.remove(i)[a - 1]);
    }
}

} // verus!

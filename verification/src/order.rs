//! The order of the listing: folders first, then by name, and a stable
//! sort of indices by such keys.

use vstd::prelude::*;

verus! {

/// Whether `a` comes before `b` in the lexicographic order of their
/// characters (the order of `String`'s `Ord`: UTF-8 bytes compare as the
/// code points they encode).
pub open spec fn lex_lt(a: Seq<char>, b: Seq<char>) -> bool
    decreases a.len(),
{
    if a.len() == 0 {
        b.len() > 0
    } else if b.len() == 0 {
        false
    } else if a[0] < b[0] {
        true
    } else if a[0] > b[0] {
        false
    } else {
        lex_lt(a.drop_first(), b.drop_first())
    }
}

/// A sort key: a rank (0 for folders, 1 for the rest) and a name.
pub type SortKey = (u8, Seq<char>);

/// Whether key `a` comes before key `b`: by rank, then by name.
pub open spec fn key_lt(a: SortKey, b: SortKey) -> bool {
    a.0 < b.0 || (a.0 == b.0 && lex_lt(a.1, b.1))
}

/// Whether `perm` lists each index below `n` exactly once.
pub open spec fn is_permutation(perm: Seq<usize>, n: nat) -> bool {
    &&& perm.len() == n
    &&& forall|i: int| 0 <= i < perm.len() ==> perm[i] < n
    &&& forall|i: int, j: int| 0 <= i < j < perm.len() ==> perm[i] != perm[j]
}

/// Whether `perm` puts the keys in order, equal keys in their first order.
pub open spec fn is_stable_order(keys: Seq<SortKey>, perm: Seq<usize>) -> bool {
    &&& is_permutation(perm, keys.len())
    &&& forall|i: int, j: int|
        0 <= i < j < perm.len() ==> !key_lt(keys[perm[j] as int], keys[perm[i] as int])
    &&& forall|i: int, j: int|
        0 <= i < j < perm.len() && keys[perm[i] as int] == keys[perm[j] as int] ==> perm[i]
            < perm[j]
}

pub proof fn lemma_lex_irreflexive(a: Seq<char>)
    ensures
        !lex_lt(a, a),
    decreases a.len(),
{
    if a.len() > 0 {
        lemma_lex_irreflexive(a.drop_first());
    }
}

pub proof fn lemma_lex_transitive(a: Seq<char>, b: Seq<char>, c: Seq<char>)
    requires
        lex_lt(a, b),
        lex_lt(b, c),
    ensures
        lex_lt(a, c),
    decreases a.len(),
{
    if a.len() > 0 && b.len() > 0 && c.len() > 0 {
        if a[0] == b[0] && b[0] == c[0] {
            lemma_lex_transitive(a.drop_first(), b.drop_first(), c.drop_first());
        }
    }
}

/// Two different names are ordered one way or the other.
pub proof fn lemma_lex_total(a: Seq<char>, b: Seq<char>)
    ensures
        lex_lt(a, b) || a == b || lex_lt(b, a),
    decreases a.len(),
{
    if a.len() > 0 && b.len() > 0 {
        if a[0] == b[0] {
            lemma_lex_total(a.drop_first(), b.drop_first());
            if a.drop_first() == b.drop_first() {
                assert(a =~= seq![a[0]] + a.drop_first());
                assert(b =~= seq![b[0]] + b.drop_first());
            }
        }
    } else if a.len() == 0 && b.len() == 0 {
        assert(a =~= b);
    }
}

pub proof fn lemma_lex_asymmetric(a: Seq<char>, b: Seq<char>)
    ensures
        !(lex_lt(a, b) && lex_lt(b, a)),
{
    if lex_lt(a, b) && lex_lt(b, a) {
        lemma_lex_transitive(a, b, a);
        lemma_lex_irreflexive(a);
    }
}

/// The order on keys is a strict total order.
pub proof fn lemma_key_order(a: SortKey, b: SortKey, c: SortKey)
    ensures
        !key_lt(a, a),
        key_lt(a, b) && key_lt(b, c) ==> key_lt(a, c),
        key_lt(a, b) || a == b || key_lt(b, a),
        !(key_lt(a, b) && key_lt(b, a)),
{
    lemma_lex_irreflexive(a.1);
    if key_lt(a, b) && key_lt(b, c) && a.0 == b.0 && b.0 == c.0 {
        lemma_lex_transitive(a.1, b.1, c.1);
    }
    lemma_lex_total(a.1, b.1);
    lemma_lex_asymmetric(a.1, b.1);
}

/// In a stable order, lower ranks (folders) come first, and within a rank
/// names never descend.
pub proof fn lemma_ranks_then_names(keys: Seq<SortKey>, perm: Seq<usize>)
    requires
        is_stable_order(keys, perm),
    ensures
        forall|i: int, j: int|
            0 <= i < j < perm.len() ==> keys[perm[i] as int].0 <= keys[perm[j] as int].0,
        forall|i: int, j: int|
            0 <= i < j < perm.len() && keys[perm[i] as int].0 == keys[perm[j] as int].0 ==> !lex_lt(
                keys[perm[j] as int].1,
                keys[perm[i] as int].1,
            ),
{
    assert forall|i: int, j: int| 0 <= i < j < perm.len() implies keys[perm[i] as int].0
        <= keys[perm[j] as int].0 by {
        assert(!key_lt(keys[perm[j] as int], keys[perm[i] as int]));
    }
    assert forall|i: int, j: int|
        0 <= i < j < perm.len() && keys[perm[i] as int].0 == keys[perm[j] as int].0 implies !lex_lt(
        keys[perm[j] as int].1,
        keys[perm[i] as int].1,
    ) by {
        assert(!key_lt(keys[perm[j] as int], keys[perm[i] as int]));
    }
}

/// Whether the name `a` comes after `b`.
pub fn lex_greater(a: &Vec<char>, b: &Vec<char>) -> (r: bool)
    ensures
        r == lex_lt(b@, a@),
{
    let n = if a.len() < b.len() {
        a.len()
    } else {
        b.len()
    };
    let mut i: usize = 0;
    assert(a@.skip(0) =~= a@);
    assert(b@.skip(0) =~= b@);
    while i < n
        invariant
            i <= n,
            n <= a.len(),
            n <= b.len(),
            lex_lt(b@, a@) == lex_lt(b@.skip(i as int), a@.skip(i as int)),
        decreases n - i,
    {
        assert(b@.skip(i as int)[0] == b@[i as int]);
        assert(a@.skip(i as int)[0] == a@[i as int]);
        let x = a[i];
        let y = b[i];
        if x != y {
            return x > y;
        }
        proof {
            assert(b@.skip(i as int).drop_first() =~= b@.skip(i + 1));
            assert(a@.skip(i as int).drop_first() =~= a@.skip(i + 1));
        }
        i = i + 1;
    }
    b.len() < a.len()
}

/// Names compare as `String`s do: a proper prefix comes before every
/// longer name that begins with it, and never after it.
pub proof fn lemma_lex_prefix_first(a: Seq<char>, s: Seq<char>)
    requires
        s.len() > 0,
    ensures
        lex_lt(a, a + s),
        !lex_lt(a + s, a),
    decreases a.len(),
{
    if a.len() == 0 {
        assert(a + s =~= s);
    } else {
        assert((a + s).drop_first() =~= a.drop_first() + s);
        assert((a + s)[0] == a[0]);
        lemma_lex_prefix_first(a.drop_first(), s);
    }
}

/// Names compare as `String`s do: where they agree up to position `i` and
/// differ there, the one with the smaller character at `i` comes first,
/// whatever follows.
pub proof fn lemma_lex_first_difference(a: Seq<char>, b: Seq<char>, i: int)
    requires
        0 <= i < a.len(),
        i < b.len(),
        a.take(i) == b.take(i),
        a[i] != b[i],
    ensures
        lex_lt(a, b) == (a[i] < b[i]),
    decreases i,
{
    if i > 0 {
        assert(a[0] == a.take(i)[0] && b[0] == b.take(i)[0]);
        assert(a.drop_first().take(i - 1) =~= a.take(i).drop_first());
        assert(b.drop_first().take(i - 1) =~= b.take(i).drop_first());
        lemma_lex_first_difference(a.drop_first(), b.drop_first(), i - 1);
    }
}

/// In a stable order of sort keys, a name never comes after a longer name
/// of the same rank that begins with it.
pub proof fn lemma_sorted_prefix_first(
    keys: Seq<SortKey>,
    perm: Seq<usize>,
    i: int,
    j: int,
    s: Seq<char>,
)
    requires
        is_stable_order(keys, perm),
        0 <= i < j < perm.len(),
        keys[perm[i] as int].0 == keys[perm[j] as int].0,
        s.len() > 0,
    ensures
        keys[perm[i] as int].1 != keys[perm[j] as int].1 + s,
{
    if keys[perm[i] as int].1 == keys[perm[j] as int].1 + s {
        lemma_lex_prefix_first(keys[perm[j] as int].1, s);
        assert(key_lt(keys[perm[j] as int], keys[perm[i] as int]));
    }
}

/// Whether key `a` comes after key `b`.
pub fn key_greater(a: &(u8, Vec<char>), b: &(u8, Vec<char>)) -> (r: bool)
    ensures
        r == key_lt((b.0, b.1@), (a.0, a.1@)),
{
    if a.0 != b.0 {
        a.0 > b.0
    } else {
        lex_greater(&a.1, &b.1)
    }
}

/// The keys as sort keys of characters.
pub open spec fn key_views(keys: Seq<(u8, Vec<char>)>) -> Seq<SortKey> {
    keys.map_values(|k: (u8, Vec<char>)| (k.0, k.1@))
}

/// The indices of `keys` in sorted order, equal keys kept in their order
/// (the order a stable sort such as `sort_by` gives).
pub fn stable_order(keys: &Vec<(u8, Vec<char>)>) -> (perm: Vec<usize>)
    ensures
        is_stable_order(key_views(keys@), perm@),
{
    let ghost kv = key_views(keys@);
    let n = keys.len();
    let mut perm: Vec<usize> = Vec::new();
    for k in 0..n
        invariant
            n == keys.len(),
            kv == key_views(keys@),
            kv.len() == n,
            perm@.len() == k,
            forall|i: int| 0 <= i < perm@.len() ==> perm@[i] < k,
            forall|i: int, j: int| 0 <= i < j < perm@.len() ==> perm@[i] != perm@[j],
            forall|i: int, j: int|
                0 <= i < j < perm@.len() ==> !key_lt(kv[perm@[j] as int], kv[perm@[i] as int]),
            forall|i: int, j: int|
                0 <= i < j < perm@.len() && kv[perm@[i] as int] == kv[perm@[j] as int]
                    ==> perm@[i] < perm@[j],
    {
        let mut pos = perm.len();
        while pos > 0 && key_greater(&keys[perm[pos - 1]], &keys[k])
            invariant
                pos <= perm@.len(),
                n == keys.len(),
                k < n,
                kv == key_views(keys@),
                forall|i: int| 0 <= i < perm@.len() ==> perm@[i] < k,
                forall|t: int| pos <= t < perm@.len() ==> key_lt(kv[k as int], kv[perm@[t] as int]),
            decreases pos,
        {
            pos = pos - 1;
        }
        let ghost old_perm = perm@;
        proof {
            // everything before `pos` is at most the new key
            assert forall|t: int| 0 <= t < pos implies !key_lt(kv[k as int], kv[old_perm[t] as int])
                by {
                let last = kv[old_perm[pos - 1] as int];
                assert(!key_lt(kv[k as int], last));
                if t < pos - 1 {
                    assert(!key_lt(last, kv[old_perm[t] as int]));
                    lemma_key_order(kv[k as int], kv[old_perm[t] as int], last);
                    lemma_key_order(kv[old_perm[t] as int], last, kv[k as int]);
                    lemma_key_order(kv[k as int], last, kv[old_perm[t] as int]);
                    lemma_key_order(last, kv[old_perm[t] as int], kv[k as int]);
                }
            }
        }
        perm.insert(pos, k);
        proof {
            let p = perm@;
            assert(p =~= old_perm.insert(pos as int, k));
            assert forall|i: int| 0 <= i < p.len() implies p[i] < k + 1 by {
                if i > pos {
                    assert(p[i] == old_perm[i - 1]);
                } else if i < pos {
                    assert(p[i] == old_perm[i]);
                }
            }
            assert forall|i: int, j: int| 0 <= i < j < p.len() implies p[i] != p[j] by {
                if i < pos && j < pos {
                    assert(p[i] == old_perm[i] && p[j] == old_perm[j]);
                } else if i < pos && j > pos {
                    assert(p[i] == old_perm[i] && p[j] == old_perm[j - 1]);
                } else if i > pos {
                    assert(p[i] == old_perm[i - 1] && p[j] == old_perm[j - 1]);
                } else if i == pos {
                    assert(p[j] == old_perm[j - 1]);
                } else {
                    assert(p[i] == old_perm[i]);
                }
            }
            assert forall|i: int, j: int| 0 <= i < j < p.len() implies !key_lt(
                kv[p[j] as int],
                kv[p[i] as int],
            ) by {
                if i < pos && j < pos {
                    assert(p[i] == old_perm[i] && p[j] == old_perm[j]);
                } else if i < pos && j > pos {
                    assert(p[i] == old_perm[i] && p[j] == old_perm[j - 1]);
                } else if i > pos {
                    assert(p[i] == old_perm[i - 1] && p[j] == old_perm[j - 1]);
                } else if i == pos {
                    assert(p[j] == old_perm[j - 1]);
                    lemma_key_order(kv[p[j] as int], kv[k as int], kv[k as int]);
                    lemma_key_order(kv[k as int], kv[p[j] as int], kv[k as int]);
                } else {
                    assert(p[i] == old_perm[i]);
                }
            }
            assert forall|i: int, j: int|
                0 <= i < j < p.len() && kv[p[i] as int] == kv[p[j] as int] implies p[i] < p[j] by {
                if i < pos && j < pos {
                    assert(p[i] == old_perm[i] && p[j] == old_perm[j]);
                } else if i < pos && j > pos {
                    assert(p[i] == old_perm[i] && p[j] == old_perm[j - 1]);
                } else if i > pos {
                    assert(p[i] == old_perm[i - 1] && p[j] == old_perm[j - 1]);
                } else if i == pos {
                    assert(p[j] == old_perm[j - 1]);
                    lemma_key_order(kv[k as int], kv[k as int], kv[k as int]);
                } else {
                    assert(p[i] == old_perm[i]);
                }
            }
        }
    }
    perm
}

} // verus!

//! Stable orderings: byte strings in lexicographic order (the order of file
//! names on Unix) and integer keys, each sorted stably by index.
use vstd::prelude::*;

verus! {

/// Strict lexicographic order on byte strings; a proper prefix comes first.
pub open spec fn bytes_lt(a: Seq<u8>, b: Seq<u8>) -> bool
    decreases a.len(),
{
    if a.len() == 0 {
        b.len() > 0
    } else if b.len() == 0 {
        false
    } else if a[0] != b[0] {
        a[0] < b[0]
    } else {
        bytes_lt(a.drop_first(), b.drop_first())
    }
}

/// No byte string comes before itself.
pub proof fn lemma_bytes_lt_irreflexive(a: Seq<u8>)
    ensures
        !bytes_lt(a, a),
    decreases a.len(),
{
    if a.len() > 0 {
        lemma_bytes_lt_irreflexive(a.drop_first());
    }
}

/// The lexicographic order is transitive.
pub proof fn lemma_bytes_lt_transitive(a: Seq<u8>, b: Seq<u8>, c: Seq<u8>)
    requires
        bytes_lt(a, b),
        bytes_lt(b, c),
    ensures
        bytes_lt(a, c),
    decreases a.len(),
{
    if a.len() > 0 && b.len() > 0 && c.len() > 0 && a[0] == b[0] && b[0] == c[0] {
        lemma_bytes_lt_transitive(a.drop_first(), b.drop_first(), c.drop_first());
    }
}

/// Two different byte strings are ordered one way or the other.
pub proof fn lemma_bytes_lt_total(a: Seq<u8>, b: Seq<u8>)
    requires
        a != b,
    ensures
        bytes_lt(a, b) || bytes_lt(b, a),
    decreases a.len(),
{
    if a.len() == 0 {
        assert(b.len() > 0) by {
            if b.len() == 0 {
                assert(a =~= b);
            }
        }
    } else if b.len() > 0 && a[0] == b[0] {
        if a.drop_first() == b.drop_first() {
            assert(a =~= seq![a[0]] + a.drop_first());
            assert(b =~= seq![b[0]] + b.drop_first());
        }
        lemma_bytes_lt_total(a.drop_first(), b.drop_first());
    }
}

/// `perm` lists every index below `n` exactly once.
pub open spec fn is_index_permutation(perm: Seq<int>, n: int) -> bool {
    &&& perm.len() == n
    &&& forall|k: int| 0 <= k < n ==> 0 <= #[trigger] perm[k] < n
    &&& forall|k: int, l: int| 0 <= k < n && 0 <= l < n && k != l ==> perm[k] != perm[l]
    &&& forall|v: int| 0 <= v < n ==> #[trigger] perm.contains(v)
}

/// Entry `i` comes before entry `j` when its name is smaller, or when the
/// names are equal and `i` was first.
pub open spec fn name_before(names: Seq<Seq<u8>>, i: int, j: int) -> bool {
    bytes_lt(names[i], names[j]) || (names[i] == names[j] && i < j)
}

/// The entries listed by `perm` are in stable name order.
pub open spec fn stably_ordered_by_name(names: Seq<Seq<u8>>, perm: Seq<int>) -> bool {
    forall|k: int, l: int|
        0 <= k < l < perm.len() ==> name_before(names, #[trigger] perm[k], #[trigger] perm[l])
}

/// Entry `i` comes before entry `j` when its key is smaller, or when the keys
/// are equal and `i` was first.
pub open spec fn key_before(keys: Seq<i64>, i: int, j: int) -> bool {
    keys[i] < keys[j] || (keys[i] == keys[j] && i < j)
}

/// The entries listed by `perm` are in stable key order.
pub open spec fn stably_ordered_by_key(keys: Seq<i64>, perm: Seq<int>) -> bool {
    forall|k: int, l: int|
        0 <= k < l < perm.len() ==> key_before(keys, #[trigger] perm[k], #[trigger] perm[l])
}

/// The indices of a `Vec<usize>` as integers.
pub open spec fn as_ints(v: Seq<usize>) -> Seq<int> {
    v.map_values(|x: usize| x as int)
}

/// The byte strings held by a vector of byte vectors.
pub open spec fn byte_strings(v: Seq<Vec<u8>>) -> Seq<Seq<u8>> {
    v.map_values(|x: Vec<u8>| x@)
}

/// Appending a vector appends its bytes.
pub proof fn lemma_byte_strings_push(s: Seq<Vec<u8>>, v: Vec<u8>)
    ensures
        byte_strings(s.push(v)) == byte_strings(s).push(v@),
{
    assert(byte_strings(s.push(v)) =~= byte_strings(s).push(v@));
}

/// Whether `a` comes strictly before `b` in lexicographic order.
pub fn bytes_less(a: &Vec<u8>, b: &Vec<u8>) -> (r: bool)
    ensures
        r == bytes_lt(a@, b@),
{
    let mut i: usize = 0;
    assert(a@.skip(0) =~= a@);
    assert(b@.skip(0) =~= b@);
    while i < a.len() && i < b.len()
        invariant
            i <= a.len(),
            i <= b.len(),
            bytes_lt(a@, b@) == bytes_lt(a@.skip(i as int), b@.skip(i as int)),
        decreases a.len() - i,
    {
        if a[i] != b[i] {
            return a[i] < b[i];
        }
        assert(a@.skip(i as int).drop_first() =~= a@.skip(i + 1));
        assert(b@.skip(i as int).drop_first() =~= b@.skip(i + 1));
        i = i + 1;
    }
    a.len() < b.len()
}

/// Inserting a new largest index `x` at a position keeps the invariants of an
/// index permutation of the first `n` indices.
proof fn lemma_insert_keeps_permutation(s: Seq<int>, n: int, j: int, x: int)
    requires
        x == n,
        0 <= j <= s.len(),
        is_index_permutation(s, n),
    ensures
        is_index_permutation(s.insert(j, x), n + 1),
{
    let t = s.insert(j, x);
    assert forall|k: int| 0 <= k < n + 1 implies 0 <= #[trigger] t[k] < n + 1 by {
        if k < j {
            assert(t[k] == s[k]);
        } else if k > j {
            assert(t[k] == s[k - 1]);
        }
    }
    assert forall|k: int, l: int| 0 <= k < n + 1 && 0 <= l < n + 1 && k != l implies t[k] != t[l] by {
        let sk: int = if k < j { k } else { k - 1 };
        let sl: int = if l < j { l } else { l - 1 };
        if k != j && l != j {
            assert(t[k] == s[sk]);
            assert(t[l] == s[sl]);
        } else if k == j {
            assert(t[l] == s[sl]);
        } else {
            assert(t[k] == s[sk]);
        }
    }
    assert forall|v: int| 0 <= v < n + 1 implies #[trigger] t.contains(v) by {
        if v == n {
            assert(t[j] == v);
        } else {
            assert(s.contains(v));
            let k = choose|k: int| 0 <= k < s.len() && s[k] == v;
            if k < j {
                assert(t[k] == v);
            } else {
                assert(t[k + 1] == v);
            }
        }
    }
}

/// The stable name order of a list of names: the indices of the names, each
/// once, in increasing order of name, ties kept in their original order.
pub fn sort_indices_by_name(names: &Vec<Vec<u8>>) -> (perm: Vec<usize>)
    ensures
        is_index_permutation(as_ints(perm@), names.len() as int),
        stably_ordered_by_name(byte_strings(names@), as_ints(perm@)),
{
    let ghost keys = byte_strings(names@);
    let mut out: Vec<usize> = Vec::new();
    let mut i: usize = 0;
    assert(as_ints(out@) =~= Seq::<int>::empty());
    while i < names.len()
        invariant
            i <= names.len(),
            keys == byte_strings(names@),
            is_index_permutation(as_ints(out@), i as int),
            stably_ordered_by_name(keys, as_ints(out@)),
        decreases names.len() - i,
    {
        let ghost s = as_ints(out@);
        assert forall|k: int| 0 <= k < out.len() implies #[trigger] out@[k] < i by {
            assert(s[k] == out@[k] as int);
        }
        let mut j: usize = out.len();
        while j > 0 && bytes_less(&names[i], &names[out[j - 1]])
            invariant
                j <= out.len(),
                out.len() == i,
                i < names.len(),
                s == as_ints(out@),
                keys == byte_strings(names@),
                is_index_permutation(s, i as int),
                forall|k: int| 0 <= k < out.len() ==> #[trigger] out@[k] < i,
                forall|k: int| j <= k < i ==> bytes_lt(keys[i as int], #[trigger] keys[s[k]]),
            decreases j,
        {
            j = j - 1;
        }
        proof {
            // Everything left of the insertion point is at most the new name.
            assert forall|k: int| 0 <= k < j implies name_before(keys, #[trigger] s[k], i as int) by {
                let a = keys[s[k]];
                let b = keys[s[j - 1]];
                let c = keys[i as int];
                assert(!bytes_lt(c, b));
                if b != c {
                    lemma_bytes_lt_total(b, c);
                }
                if k < j - 1 {
                    assert(name_before(keys, s[k], s[j - 1]));
                    if bytes_lt(a, b) && bytes_lt(b, c) {
                        lemma_bytes_lt_transitive(a, b, c);
                    }
                }
            }
            // Everything right of it is strictly greater.
            assert forall|k: int| j <= k < i implies name_before(keys, i as int, #[trigger] s[k]) by {}
            lemma_insert_keeps_permutation(s, i as int, j as int, i as int);
        }
        out.insert(j, i);
        proof {
            let t = as_ints(out@);
            assert(t =~= s.insert(j as int, i as int));
            assert forall|k: int, l: int| 0 <= k < l < t.len() implies name_before(
                keys,
                #[trigger] t[k],
                #[trigger] t[l],
            ) by {
                let jj: int = j as int;
                if l < jj {
                    assert(t[k] == s[k] && t[l] == s[l]);
                } else if l == jj {
                    assert(t[k] == s[k]);
                } else if k < jj {
                    assert(t[k] == s[k] && t[l] == s[l - 1]);
                } else if k == jj {
                    assert(t[l] == s[l - 1]);
                } else {
                    assert(t[k] == s[k - 1] && t[l] == s[l - 1]);
                }
            }
        }
        i = i + 1;
    }
    out
}

/// The stable key order of a list of keys: the indices of the keys, each
/// once, in increasing order of key, ties kept in their original order.
pub fn sort_indices_by_key(keys: &Vec<i64>) -> (perm: Vec<usize>)
    ensures
        is_index_permutation(as_ints(perm@), keys.len() as int),
        stably_ordered_by_key(keys@, as_ints(perm@)),
{
    let mut out: Vec<usize> = Vec::new();
    let mut i: usize = 0;
    assert(as_ints(out@) =~= Seq::<int>::empty());
    while i < keys.len()
        invariant
            i <= keys.len(),
            is_index_permutation(as_ints(out@), i as int),
            stably_ordered_by_key(keys@, as_ints(out@)),
        decreases keys.len() - i,
    {
        let ghost s = as_ints(out@);
        assert forall|k: int| 0 <= k < out.len() implies #[trigger] out@[k] < i by {
            assert(s[k] == out@[k] as int);
        }
        let mut j: usize = out.len();
        while j > 0 && keys[i] < keys[out[j - 1]]
            invariant
                j <= out.len(),
                out.len() == i,
                i < keys.len(),
                s == as_ints(out@),
                is_index_permutation(s, i as int),
                forall|k: int| 0 <= k < out.len() ==> #[trigger] out@[k] < i,
                forall|k: int| j <= k < i ==> keys@[i as int] < #[trigger] keys@[s[k]],
            decreases j,
        {
            j = j - 1;
        }
        proof {
            assert forall|k: int| 0 <= k < j implies key_before(keys@, #[trigger] s[k], i as int) by {
                if k < j - 1 {
                    assert(key_before(keys@, s[k], s[j - 1]));
                }
            }
            lemma_insert_keeps_permutation(s, i as int, j as int, i as int);
        }
        out.insert(j, i);
        proof {
            let t = as_ints(out@);
            assert(t =~= s.insert(j as int, i as int));
            assert forall|k: int, l: int| 0 <= k < l < t.len() implies key_before(
                keys@,
                #[trigger] t[k],
                #[trigger] t[l],
            ) by {
                let jj: int = j as int;
                if l < jj {
                    assert(t[k] == s[k] && t[l] == s[l]);
                } else if l == jj {
                    assert(t[k] == s[k]);
                } else if k < jj {
                    assert(t[k] == s[k] && t[l] == s[l - 1]);
                } else if k == jj {
                    assert(t[l] == s[l - 1]);
                } else {
                    assert(t[k] == s[k - 1] && t[l] == s[l - 1]);
                }
            }
        }
        i = i + 1;
    }
    out
}

} // verus!

//! The order in which files are fingerprinted: paths compared component by
//! component, as sorted paths are.
use vstd::prelude::*;

verus! {

/// The rank of a byte in path order: the separator `/` comes before every
/// other byte, so that paths compare component by component.
pub open spec fn byte_rank(b: u8) -> int {
    if b == 47 {
        -1
    } else {
        b as int
    }
}

/// Path order on the bytes from position `i` on.
pub open spec fn path_lt_from(a: Seq<u8>, b: Seq<u8>, i: int) -> bool
    decreases a.len() - i,
{
    if i >= a.len() {
        i < b.len()
    } else if i >= b.len() {
        false
    } else if byte_rank(a[i]) != byte_rank(b[i]) {
        byte_rank(a[i]) < byte_rank(b[i])
    } else {
        path_lt_from(a, b, i + 1)
    }
}

/// `a` comes strictly before `b` in path order.
pub open spec fn path_lt(a: Seq<u8>, b: Seq<u8>) -> bool {
    path_lt_from(a, b, 0)
}

/// `a` comes before `b` in path order, or is equal to it.
pub open spec fn path_le(a: Seq<u8>, b: Seq<u8>) -> bool {
    !path_lt(b, a)
}

proof fn lemma_lt_from_trans(a: Seq<u8>, b: Seq<u8>, c: Seq<u8>, i: int)
    requires
        0 <= i,
        path_lt_from(a, b, i),
        path_lt_from(b, c, i),
    ensures
        path_lt_from(a, c, i),
    decreases a.len() - i,
{
    if i < a.len() && i < b.len() && i < c.len() && byte_rank(a[i]) == byte_rank(b[i])
        && byte_rank(b[i]) == byte_rank(c[i]) {
        lemma_lt_from_trans(a, b, c, i + 1);
    }
}

proof fn lemma_lt_from_asym(a: Seq<u8>, b: Seq<u8>, i: int)
    requires
        0 <= i,
        path_lt_from(a, b, i),
    ensures
        !path_lt_from(b, a, i),
    decreases a.len() - i,
{
    if i < a.len() && i < b.len() && byte_rank(a[i]) == byte_rank(b[i]) {
        lemma_lt_from_asym(a, b, i + 1);
    }
}

proof fn lemma_lt_from_total(a: Seq<u8>, b: Seq<u8>, i: int)
    requires
        0 <= i <= a.len(),
        i <= b.len(),
        !path_lt_from(a, b, i),
        !path_lt_from(b, a, i),
    ensures
        a.subrange(i, a.len() as int) == b.subrange(i, b.len() as int),
    decreases a.len() - i,
{
    if i < a.len() && i < b.len() {
        lemma_lt_from_total(a, b, i + 1);
        assert(a[i] == b[i]);
        assert(a.subrange(i, a.len() as int) =~= seq![a[i]] + a.subrange(i + 1, a.len() as int));
        assert(b.subrange(i, b.len() as int) =~= seq![b[i]] + b.subrange(i + 1, b.len() as int));
    }
}

/// Path order is transitive.
pub proof fn lemma_path_lt_trans(a: Seq<u8>, b: Seq<u8>, c: Seq<u8>)
    requires
        path_lt(a, b),
        path_lt(b, c),
    ensures
        path_lt(a, c),
{
    lemma_lt_from_trans(a, b, c, 0);
}

/// Path order is asymmetric.
pub proof fn lemma_path_lt_asym(a: Seq<u8>, b: Seq<u8>)
    requires
        path_lt(a, b),
    ensures
        !path_lt(b, a),
{
    lemma_lt_from_asym(a, b, 0);
}

/// Path order is total: two paths that neither precedes are equal.
pub proof fn lemma_path_lt_total(a: Seq<u8>, b: Seq<u8>)
    requires
        !path_lt(a, b),
        !path_lt(b, a),
    ensures
        a == b,
{
    lemma_lt_from_total(a, b, 0);
    assert(a.subrange(0, a.len() as int) =~= a);
    assert(b.subrange(0, b.len() as int) =~= b);
}

/// The keys are pairwise distinct.
pub open spec fn distinct_keys(keys: Seq<Seq<u8>>) -> bool {
    forall|i: int, j: int| 0 <= i < j < keys.len() ==> keys[i] != keys[j]
}

proof fn lemma_sorted_orders_agree_upto(keys: Seq<Seq<u8>>, o1: Seq<usize>, o2: Seq<usize>, k: int)
    requires
        distinct_keys(keys),
        is_sorted_order(keys, o1),
        is_sorted_order(keys, o2),
        0 <= k < o1.len(),
    ensures
        forall|m: int| 0 <= m <= k ==> o1[m] == o2[m],
    decreases k,
{
    if k > 0 {
        lemma_sorted_orders_agree_upto(keys, o1, o2, k - 1);
    }
    let a = o1[k] as int;
    let b = o2[k] as int;
    if a != b {
        assert(lists_index(o2, a));
        assert(lists_index(o1, b));
        let ma = choose|m: int| 0 <= m < o2.len() && o2[m] == a;
        let mb = choose|m: int| 0 <= m < o1.len() && o1[m] == b;
        if ma < k {
            assert(o1[ma] == o2[ma]);
        }
        if mb < k {
            assert(o1[mb] == o2[mb]);
        }
        assert(path_le(keys[o2[k] as int], keys[o2[ma] as int]));
        assert(path_le(keys[o1[k] as int], keys[o1[mb] as int]));
        lemma_path_lt_total(keys[a], keys[b]);
        if a < b {
            assert(keys[a] != keys[b]);
        } else {
            assert(keys[b] != keys[a]);
        }
    }
}

/// With pairwise distinct keys there is one sorted order only.
pub proof fn lemma_sorted_order_unique(keys: Seq<Seq<u8>>, o1: Seq<usize>, o2: Seq<usize>)
    requires
        distinct_keys(keys),
        is_sorted_order(keys, o1),
        is_sorted_order(keys, o2),
    ensures
        o1 == o2,
{
    if o1.len() > 0 {
        lemma_sorted_orders_agree_upto(keys, o1, o2, o1.len() - 1);
    }
    assert(o1 =~= o2);
}

/// Whether `a` comes strictly before `b` in path order.
pub fn path_less(a: &[u8], b: &[u8]) -> (r: bool)
    ensures
        r == path_lt(a@, b@),
{
    let mut i: usize = 0;
    while i < a.len() && i < b.len()
        invariant
            i <= a@.len(),
            i <= b@.len(),
            path_lt(a@, b@) == path_lt_from(a@, b@, i as int),
        decreases a@.len() - i,
    {
        let ra: i32 = if a[i] == 47 {
            -1
        } else {
            a[i] as i32
        };
        let rb: i32 = if b[i] == 47 {
            -1
        } else {
            b[i] as i32
        };
        if ra != rb {
            return ra < rb;
        }
        i = i + 1;
    }
    i < b.len()
}

/// `ord` holds the index `i`.
pub open spec fn lists_index(ord: Seq<usize>, i: int) -> bool {
    exists|k: int| 0 <= k < ord.len() && ord[k] == i
}

/// `ord` lists each index of `keys` once, in path order of the keys.
pub open spec fn is_sorted_order(keys: Seq<Seq<u8>>, ord: Seq<usize>) -> bool {
    &&& ord.len() == keys.len()
    &&& forall|k: int| 0 <= k < ord.len() ==> #[trigger] ord[k] < keys.len()
    &&& forall|k: int, l: int| 0 <= k < l < ord.len() ==> ord[k] != ord[l]
    &&& forall|i: int| 0 <= i < keys.len() ==> #[trigger] lists_index(ord, i)
    &&& forall|k: int, l: int|
        0 <= k < l < ord.len() ==> path_le(#[trigger] keys[ord[k] as int], #[trigger] keys[ord[l] as int])
}

/// Sorts the indices of `keys` into path order of the keys; equal keys keep
/// their order.
pub fn sort_order(keys: &Vec<Vec<u8>>) -> (r: Vec<usize>)
    ensures
        is_sorted_order(keys@.map_values(|x: Vec<u8>| x@), r@),
{
    let ghost ks = keys@.map_values(|x: Vec<u8>| x@);
    let n = keys.len();
    let mut ord: Vec<usize> = Vec::new();
    let mut i: usize = 0;
    while i < n
        invariant
            n == keys@.len(),
            ks == keys@.map_values(|x: Vec<u8>| x@),
            i <= n,
            ord@.len() == i,
            forall|k: int| 0 <= k < ord@.len() ==> #[trigger] ord@[k] < i,
            forall|k: int, l: int| 0 <= k < l < ord@.len() ==> ord@[k] != ord@[l],
            forall|j: int| 0 <= j < i ==> #[trigger] lists_index(ord@, j),
            forall|k: int, l: int|
                0 <= k < l < ord@.len() ==> path_le(
                    #[trigger] ks[ord@[k] as int],
                    #[trigger] ks[ord@[l] as int],
                ),
        decreases n - i,
    {
        let mut p: usize = 0;
        while p < ord.len() && !path_less(keys[i].as_slice(), keys[ord[p]].as_slice())
            invariant
                n == keys@.len(),
                ks == keys@.map_values(|x: Vec<u8>| x@),
                i < n,
                p <= ord@.len(),
                forall|k: int| 0 <= k < ord@.len() ==> #[trigger] ord@[k] < i,
                forall|k: int| 0 <= k < p ==> path_le(#[trigger] ks[ord@[k] as int], ks[i as int]),
            decreases ord@.len() - p,
        {
            p = p + 1;
        }
        proof {
            if p < ord@.len() {
                lemma_path_lt_asym(ks[i as int], ks[ord@[p as int] as int]);
                assert forall|k: int| p <= k < ord@.len() implies path_le(
                    ks[i as int],
                    #[trigger] ks[ord@[k] as int],
                ) by {
                    if k > p && path_lt(ks[ord@[k] as int], ks[i as int]) {
                        lemma_path_lt_trans(
                            ks[ord@[k] as int],
                            ks[i as int],
                            ks[ord@[p as int] as int],
                        );
                    }
                }
            }
        }
        let ghost old_ord = ord@;
        ord.insert(p, i);
        assert(ord@ == old_ord.insert(p as int, i));
        assert forall|k: int, l: int| 0 <= k < l < ord@.len() implies path_le(
            #[trigger] ks[ord@[k] as int],
            #[trigger] ks[ord@[l] as int],
        ) by {
            if k < p && l < p {
                assert(ord@[k] == old_ord[k] && ord@[l] == old_ord[l]);
            } else if k < p && l == p {
            } else if k < p && l > p {
                assert(ord@[k] == old_ord[k] && ord@[l] == old_ord[l - 1]);
            } else if k == p {
                assert(ord@[l] == old_ord[l - 1]);
            } else {
                assert(ord@[k] == old_ord[k - 1] && ord@[l] == old_ord[l - 1]);
            }
        }
        assert forall|k: int, l: int| 0 <= k < l < ord@.len() implies ord@[k] != ord@[l] by {
            if k < p && l < p {
            } else if k < p && l == p {
                assert(old_ord[k] < i);
            } else if k < p && l > p {
                assert(ord@[l] == old_ord[l - 1]);
            } else if k == p {
                assert(old_ord[l - 1] < i);
            } else {
                assert(ord@[k] == old_ord[k - 1] && ord@[l] == old_ord[l - 1]);
            }
        }
        assert forall|j: int| 0 <= j < i + 1 implies #[trigger] lists_index(ord@, j) by {
            if j == i {
                assert(ord@[p as int] == i);
            } else {
                assert(lists_index(old_ord, j));
                let k = choose|k: int| 0 <= k < old_ord.len() && old_ord[k] == j;
                if k < p {
                    assert(ord@[k] == j);
                } else {
                    assert(ord@[k + 1] == j);
                }
            }
        }
        assert forall|k: int| 0 <= k < ord@.len() implies #[trigger] ord@[k] < i + 1 by {
            if k < p {
                assert(ord@[k] == old_ord[k]);
            } else if k > p {
                assert(ord@[k] == old_ord[k - 1]);
            }
        }
        i = i + 1;
    }
    ord
}

} // verus!

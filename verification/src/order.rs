//! Byte-wise string order and the stable insertion sort that every
//! canonical form in the crate relies on.
use vstd::prelude::*;
use vstd::utf8::encode_utf8;

verus! {

/// Lexicographic comparison of byte strings: negative, zero or positive.
pub open spec fn bytes_ord(a: Seq<u8>, b: Seq<u8>) -> int
    decreases a.len(),
{
    if a.len() == 0 {
        if b.len() == 0 {
            0
        } else {
            -1
        }
    } else if b.len() == 0 {
        1
    } else if a[0] < b[0] {
        -1
    } else if a[0] > b[0] {
        1
    } else {
        bytes_ord(a.drop_first(), b.drop_first())
    }
}

/// The order of `str` values: their UTF-8 bytes compared lexicographically.
pub open spec fn str_ord(a: Seq<char>, b: Seq<char>) -> int {
    bytes_ord(encode_utf8(a), encode_utf8(b))
}

pub open spec fn sign(x: int) -> int {
    if x < 0 {
        -1
    } else if x > 0 {
        1
    } else {
        0
    }
}

/// `bytes_ord` is reflexive and antisymmetric in sign.
pub proof fn lemma_bytes_ord_basic(a: Seq<u8>, b: Seq<u8>)
    ensures
        bytes_ord(a, a) == 0,
        bytes_ord(a, b) > 0 <==> bytes_ord(b, a) < 0,
        bytes_ord(a, b) == 0 <==> bytes_ord(b, a) == 0,
    decreases a.len(),
{
    if a.len() > 0 && b.len() > 0 {
        lemma_bytes_ord_basic(a.drop_first(), b.drop_first());
    }
    if a.len() > 0 {
        lemma_bytes_ord_basic(a.drop_first(), a.drop_first());
    }
}

/// `bytes_ord` is transitive in its "not greater" relation.
pub proof fn lemma_bytes_ord_trans(a: Seq<u8>, b: Seq<u8>, c: Seq<u8>)
    requires
        bytes_ord(a, b) <= 0,
        bytes_ord(b, c) <= 0,
    ensures
        bytes_ord(a, c) <= 0,
    decreases a.len(),
{
    if a.len() > 0 && b.len() > 0 && c.len() > 0 && a[0] == b[0] && b[0] == c[0] {
        lemma_bytes_ord_trans(a.drop_first(), b.drop_first(), c.drop_first());
    }
}

/// Ordering strings by their text is a total order.
pub proof fn lemma_str_order_total()
    ensures
        total_order(str_order()),
{
    assert forall|a: String, b: String| #[trigger] str_order()(a, b) > 0 <==> str_order()(b, a) < 0 by {
        lemma_bytes_ord_basic(encode_utf8(a@), encode_utf8(b@));
    }
    assert forall|a: String| #[trigger] str_order()(a, a) == 0 by {
        lemma_bytes_ord_basic(encode_utf8(a@), encode_utf8(a@));
    }
    assert forall|a: String, b: String, c: String|
        #[trigger] str_order()(a, b) <= 0 && #[trigger] str_order()(b, c) <= 0 implies str_order()(a, c) <= 0 by {
        lemma_bytes_ord_trans(encode_utf8(a@), encode_utf8(b@), encode_utf8(c@));
    }
}

/// An order that compares items by a text key is a total order.
pub proof fn lemma_keyed_order_total<T>(order: spec_fn(T, T) -> int, key: spec_fn(T) -> Seq<char>)
    requires
        forall|a: T, b: T| #[trigger] order(a, b) == str_ord(key(a), key(b)),
    ensures
        total_order(order),
{
    assert forall|a: T, b: T| #[trigger] order(a, b) > 0 <==> order(b, a) < 0 by {
        lemma_bytes_ord_basic(encode_utf8(key(a)), encode_utf8(key(b)));
    }
    assert forall|a: T| #[trigger] order(a, a) == 0 by {
        lemma_bytes_ord_basic(encode_utf8(key(a)), encode_utf8(key(a)));
    }
    assert forall|a: T, b: T, c: T| #[trigger] order(a, b) <= 0 && #[trigger] order(b, c) <= 0 implies order(a, c)
        <= 0 by {
        lemma_bytes_ord_trans(encode_utf8(key(a)), encode_utf8(key(b)), encode_utf8(key(c)));
    }
}

pub fn compare_bytes(a: &[u8], b: &[u8]) -> (r: i8)
    ensures
        r as int == bytes_ord(a@, b@),
{
    let n = a.len();
    let m = b.len();
    let mut i: usize = 0;
    assert(a@.skip(0) =~= a@);
    assert(b@.skip(0) =~= b@);
    while i < n && i < m
        invariant
            n == a@.len(),
            m == b@.len(),
            i <= n,
            i <= m,
            bytes_ord(a@, b@) == bytes_ord(a@.skip(i as int), b@.skip(i as int)),
        decreases n - i,
    {
        if a[i] < b[i] {
            return -1;
        }
        if a[i] > b[i] {
            return 1;
        }
        assert(a@.skip(i as int).drop_first() =~= a@.skip(i + 1));
        assert(b@.skip(i as int).drop_first() =~= b@.skip(i + 1));
        i += 1;
    }
    if i == n {
        if i == m {
            0
        } else {
            -1
        }
    } else {
        1
    }
}

pub fn compare_str(a: &str, b: &str) -> (r: i8)
    ensures
        r as int == str_ord(a@, b@),
{
    compare_bytes(a.as_bytes(), b.as_bytes())
}

/// Where a stable insertion places `x` in an already sorted `s`: after every
/// element that does not compare greater than it.
pub open spec fn insert_sorted<T>(s: Seq<T>, x: T, order: spec_fn(T, T) -> int) -> Seq<T>
    decreases s.len(),
{
    if s.len() == 0 {
        seq![x]
    } else if order(s[0], x) > 0 {
        seq![x] + s
    } else {
        seq![s[0]] + insert_sorted(s.drop_first(), x, order)
    }
}

/// Stable sort (the order `slice::sort_by` gives) of `s` under `order`.
pub open spec fn sort_seq<T>(s: Seq<T>, order: spec_fn(T, T) -> int) -> Seq<T>
    decreases s.len(),
{
    if s.len() == 0 {
        s
    } else {
        insert_sorted(sort_seq(s.drop_last(), order), s.last(), order)
    }
}

proof fn lemma_insert_step<T>(s: Seq<T>, j: int, x: T, order: spec_fn(T, T) -> int)
    requires
        0 <= j < s.len(),
        order(s[j], x) <= 0,
        insert_sorted(s, x, order) == s.take(j) + insert_sorted(s.skip(j), x, order),
    ensures
        insert_sorted(s, x, order) == s.take(j + 1) + insert_sorted(s.skip(j + 1), x, order),
{
    assert(s.skip(j)[0] == s[j]);
    assert(s.skip(j).drop_first() =~= s.skip(j + 1));
    assert(s.take(j) + (seq![s[j]] + insert_sorted(s.skip(j + 1), x, order)) =~= s.take(j + 1)
        + insert_sorted(s.skip(j + 1), x, order));
}

/// Sorts `v` stably under the comparator `order`, which says "greater" exactly
/// when `spec_order` is positive.
pub fn sort_by_order<T, F: Fn(&T, &T) -> i8>(v: Vec<T>, order: F, Ghost(spec_order): Ghost<
    spec_fn(T, T) -> int,
>) -> (r: Vec<T>)
    requires
        forall|a: &T, b: &T| v@.contains(*a) && v@.contains(*b) ==> #[trigger] order.requires((a, b)),
        forall|a: &T, b: &T, r: i8|
            v@.contains(*a) && v@.contains(*b) && #[trigger] order.ensures((a, b), r) ==> ((r > 0) <==> (
            spec_order(*a, *b) > 0)),
    ensures
        r@ == sort_seq(v@, spec_order),
{
    let ghost sc = spec_order;
    let ghost orig = v@;
    let mut src = v;
    let mut out: Vec<T> = Vec::new();
    let n = src.len();
    let mut i: usize = 0;
    while i < n
        invariant
            n == orig.len(),
            i <= n,
            src@ == orig.skip(i as int),
            out@ == sort_seq(orig.take(i as int), sc),
            sc == spec_order,
            forall|k: int| 0 <= k < out@.len() ==> orig.contains(#[trigger] out@[k]),
            forall|a: &T, b: &T|
                orig.contains(*a) && orig.contains(*b) ==> #[trigger] order.requires((a, b)),
            forall|a: &T, b: &T, r: i8|
                orig.contains(*a) && orig.contains(*b) && #[trigger] order.ensures((a, b), r) ==> ((r
                    > 0) <==> (spec_order(*a, *b) > 0)),
        decreases n - i,
    {
        let x = src.remove(0);
        assert(x == orig[i as int]);
        assert(orig.contains(x));
        let ghost before = out@;
        let mut j: usize = 0;
        let len = out.len();
        let mut stop = false;
        assert(before.skip(0) =~= before);
        assert(before.take(0) + insert_sorted(before.skip(0), x, sc) =~= insert_sorted(
            before,
            x,
            sc,
        ));
        while j < len && !stop
            invariant
                len == out@.len(),
                out@ == before,
                j <= len,
                stop ==> j < len && sc(before[j as int], x) > 0,
                sc == spec_order,
                orig.contains(x),
                forall|k: int| 0 <= k < out@.len() ==> orig.contains(#[trigger] out@[k]),
                insert_sorted(before, x, sc) == before.take(j as int) + insert_sorted(
                    before.skip(j as int),
                    x,
                    sc,
                ),
                forall|a: &T, b: &T|
                    orig.contains(*a) && orig.contains(*b) ==> #[trigger] order.requires((a, b)),
                forall|a: &T, b: &T, r: i8|
                    orig.contains(*a) && orig.contains(*b) && #[trigger] order.ensures((a, b), r)
                        ==> ((r > 0) <==> (spec_order(*a, *b) > 0)),
            decreases len - j, if stop { 0int } else { 1int },
        {
            assert(orig.contains(out@[j as int]));
            let c = order(&out[j], &x);
            assert((c > 0) <==> (spec_order(before[j as int], x) > 0));
            if c > 0 {
                stop = true;
            } else {
                proof {
                    lemma_insert_step(before, j as int, x, sc);
                }
                j += 1;
            }
        }
        proof {
            if stop {
                assert(before.skip(j as int)[0] == before[j as int]);
                assert(insert_sorted(before.skip(j as int), x, sc) == seq![x] + before.skip(
                    j as int,
                ));
            } else {
                assert(before.skip(j as int).len() == 0);
            }
            assert(before.take(j as int) + insert_sorted(before.skip(j as int), x, sc)
                =~= before.insert(j as int, x));
        }
        out.insert(j, x);
        proof {
            assert forall|k: int| 0 <= k < out@.len() implies orig.contains(#[trigger] out@[k]) by {
                if k < j {
                    assert(out@[k] == before[k]);
                } else if k > j {
                    assert(out@[k] == before[k - 1]);
                }
            }
            let t = orig.take(i + 1);
            assert(t.drop_last() =~= orig.take(i as int));
            assert(t.last() == x);
            assert(orig.skip(i as int).remove(0) =~= orig.skip(i + 1));
        }
        i += 1;
    }
    assert(orig.take(n as int) =~= orig);
    out
}

} // verus!

verus! {

/// The first `Some` that `f` gives along `s`, scanning from the front.
pub open spec fn first_some<T, E>(s: Seq<T>, f: spec_fn(T) -> Option<E>) -> Option<E>
    decreases s.len(),
{
    if s.len() == 0 {
        None
    } else {
        match first_some(s.drop_last(), f) {
            Some(e) => Some(e),
            None => f(s.last()),
        }
    }
}

pub proof fn lemma_first_some_step<T, E>(s: Seq<T>, i: int, f: spec_fn(T) -> Option<E>)
    requires
        0 <= i < s.len(),
        first_some(s.take(i), f) is None,
    ensures
        first_some(s.take(i + 1), f) == f(s[i]),
{
    assert(s.take(i + 1).drop_last() =~= s.take(i));
}

pub proof fn lemma_first_some_prefix<T, E>(s: Seq<T>, i: int, f: spec_fn(T) -> Option<E>)
    requires
        0 <= i <= s.len(),
        first_some(s.take(i), f) is Some,
    ensures
        first_some(s, f) == first_some(s.take(i), f),
    decreases s.len() - i,
{
    if i == s.len() {
        assert(s.take(i) =~= s);
    } else {
        assert(s.take(i + 1).drop_last() =~= s.take(i));
        lemma_first_some_prefix(s, i + 1, f);
    }
}

pub proof fn lemma_first_some_all<T, E>(s: Seq<T>, f: spec_fn(T) -> Option<E>)
    requires
        first_some(s.take(s.len() as int), f) is None,
    ensures
        first_some(s, f) is None,
{
    assert(s.take(s.len() as int) =~= s);
}

/// `v.sort()` for strings.
pub fn sort_strings(v: Vec<String>) -> (r: Vec<String>)
    ensures
        r@ == sort_seq(v@, |a: String, b: String| str_ord(a@, b@)),
{
    let order = |a: &String, b: &String| -> (r: i8)
        ensures
            r as int == str_ord(a@, b@),
        { compare_str(a.as_str(), b.as_str()) };
    let ghost so = |a: String, b: String| str_ord(a@, b@);
    let r = sort_by_order(v, order, Ghost(so));
    assert(so =~= (|a: String, b: String| str_ord(a@, b@)));
    r
}

} // verus!

verus! {

/// `order` is a total preorder that says "greater" exactly when its mirror
/// says "less".
pub open spec fn total_order<T>(order: spec_fn(T, T) -> int) -> bool {
    &&& forall|a: T, b: T| #[trigger] order(a, b) > 0 <==> order(b, a) < 0
    &&& forall|a: T| #[trigger] order(a, a) == 0
    &&& forall|a: T, b: T, c: T|
        #[trigger] order(a, b) <= 0 && #[trigger] order(b, c) <= 0 ==> order(a, c) <= 0
}

pub open spec fn sorted_by<T>(s: Seq<T>, order: spec_fn(T, T) -> int) -> bool {
    forall|i: int, j: int| 0 <= i < j < s.len() ==> order(#[trigger] s[i], #[trigger] s[j]) <= 0
}

pub proof fn lemma_insert_sorted<T>(s: Seq<T>, x: T, order: spec_fn(T, T) -> int)
    requires
        total_order(order),
        sorted_by(s, order),
    ensures
        sorted_by(insert_sorted(s, x, order), order),
        insert_sorted(s, x, order).to_multiset() == s.to_multiset().insert(x),
        insert_sorted(s, x, order).len() == s.len() + 1,
    decreases s.len(),
{
    broadcast use vstd::seq_lib::group_to_multiset_ensures;
    if s.len() == 0 {
        assert(seq![x].to_multiset() =~= vstd::multiset::Multiset::empty().insert(x)) by {
            assert(seq![x] =~= Seq::<T>::empty().push(x));
        }
    } else if order(s[0], x) > 0 {
        let r = seq![x] + s;
        assert(r =~= s.insert(0, x));
        assert forall|i: int, j: int| 0 <= i < j < r.len() implies order(
            #[trigger] r[i],
            #[trigger] r[j],
        ) <= 0 by {
            if i == 0 {
                assert(order(x, s[0]) < 0);
                if j > 1 {
                    assert(order(s[0], s[j - 1]) <= 0);
                }
            } else {
                assert(order(s[i - 1], s[j - 1]) <= 0);
            }
        }
    } else {
        let rest = s.drop_first();
        assert(sorted_by(rest, order)) by {
            assert forall|i: int, j: int| 0 <= i < j < rest.len() implies order(
                #[trigger] rest[i],
                #[trigger] rest[j],
            ) <= 0 by {
                assert(order(s[i + 1], s[j + 1]) <= 0);
            }
        }
        lemma_insert_sorted(rest, x, order);
        let ir = insert_sorted(rest, x, order);
        let r = seq![s[0]] + ir;
        assert forall|k: int| 0 <= k < ir.len() implies order(s[0], #[trigger] ir[k]) <= 0 by {
            assert(ir.to_multiset().count(ir[k]) > 0);
            assert(ir.to_multiset() == rest.to_multiset().insert(x));
            if ir[k] != x {
                assert(rest.to_multiset().count(ir[k]) > 0);
                assert(rest.contains(ir[k]));
                let m = choose|m: int| 0 <= m < rest.len() && rest[m] == ir[k];
                assert(order(s[0], s[m + 1]) <= 0);
            }
        }
        assert forall|i: int, j: int| 0 <= i < j < r.len() implies order(
            #[trigger] r[i],
            #[trigger] r[j],
        ) <= 0 by {
            if i == 0 {
                assert(r[j] == ir[j - 1]);
            } else {
                assert(r[i] == ir[i - 1]);
                assert(r[j] == ir[j - 1]);
            }
        }
        assert(s =~= seq![s[0]] + rest);
        vstd::seq_lib::lemma_multiset_commutative(seq![s[0]], rest);
        vstd::seq_lib::lemma_multiset_commutative(seq![s[0]], ir);
        assert(seq![s[0]].to_multiset() =~= vstd::multiset::Multiset::empty().insert(s[0])) by {
            assert(seq![s[0]] =~= Seq::<T>::empty().push(s[0]));
        }
        assert(r.to_multiset() =~= s.to_multiset().insert(x));
    }
}

/// The stable sort gives a sorted permutation of its input.
pub proof fn lemma_sort_seq<T>(s: Seq<T>, order: spec_fn(T, T) -> int)
    requires
        total_order(order),
    ensures
        sorted_by(sort_seq(s, order), order),
        sort_seq(s, order).to_multiset() == s.to_multiset(),
        sort_seq(s, order).len() == s.len(),
    decreases s.len(),
{
    broadcast use vstd::seq_lib::group_to_multiset_ensures;
    if s.len() > 0 {
        lemma_sort_seq(s.drop_last(), order);
        lemma_insert_sorted(sort_seq(s.drop_last(), order), s.last(), order);
        assert(s =~= s.drop_last().push(s.last()));
    }
}


proof fn lemma_insert_sorted_multiset<T>(s: Seq<T>, x: T, order: spec_fn(T, T) -> int)
    ensures
        insert_sorted(s, x, order).to_multiset() == s.to_multiset().insert(x),
    decreases s.len(),
{
    broadcast use vstd::seq_lib::group_to_multiset_ensures;
    if s.len() == 0 {
        assert(seq![x] =~= Seq::<T>::empty().push(x));
    } else if order(s[0], x) > 0 {
        assert(seq![x] + s =~= s.insert(0, x));
    } else {
        let rest = s.drop_first();
        lemma_insert_sorted_multiset(rest, x, order);
        let ir = insert_sorted(rest, x, order);
        assert(s =~= seq![s[0]] + rest);
        vstd::seq_lib::lemma_multiset_commutative(seq![s[0]], rest);
        vstd::seq_lib::lemma_multiset_commutative(seq![s[0]], ir);
        assert(seq![s[0]] =~= Seq::<T>::empty().push(s[0]));
        assert((seq![s[0]] + ir).to_multiset() =~= s.to_multiset().insert(x));
    }
}

/// Sorting, under any comparison, keeps every item as often as it was.
pub proof fn lemma_sort_seq_multiset<T>(s: Seq<T>, order: spec_fn(T, T) -> int)
    ensures
        sort_seq(s, order).to_multiset() == s.to_multiset(),
    decreases s.len(),
{
    broadcast use vstd::seq_lib::group_to_multiset_ensures;
    if s.len() > 0 {
        lemma_sort_seq_multiset(s.drop_last(), order);
        lemma_insert_sorted_multiset(sort_seq(s.drop_last(), order), s.last(), order);
        assert(s =~= s.drop_last().push(s.last()));
    }
}

/// Items whose keys are all different keep different keys once sorted.
pub proof fn lemma_sort_keeps_keys_distinct<T, K>(s: Seq<T>, order: spec_fn(T, T) -> int, key: spec_fn(T) -> K)
    requires
        forall|i: int, j: int| 0 <= i < j < s.len() ==> key(#[trigger] s[i]) != key(#[trigger] s[j]),
    ensures
        forall|i: int, j: int|
            0 <= i < j < sort_seq(s, order).len() ==> key(#[trigger] sort_seq(s, order)[i]) != key(#[trigger] sort_seq(s, order)[j]),
{
    broadcast use vstd::seq_lib::group_to_multiset_ensures;
    let t = sort_seq(s, order);
    assert(s.no_duplicates()) by {
        assert forall|i: int, j: int| 0 <= i < s.len() && 0 <= j < s.len() && i != j implies s[i] != s[j] by {
            if i < j {
                assert(key(s[i]) != key(s[j]));
            } else {
                assert(key(s[j]) != key(s[i]));
            }
        }
    }
    s.lemma_multiset_has_no_duplicates();
    lemma_sort_seq_multiset(s, order);
    lemma_sort_seq_elems(s, order);
    t.lemma_multiset_has_no_duplicates_conv();
    assert forall|i: int, j: int| 0 <= i < j < t.len() implies key(#[trigger] t[i]) != key(#[trigger] t[j]) by {
        assert(s.contains(t[i]));
        assert(s.contains(t[j]));
        let a = choose|a: int| 0 <= a < s.len() && s[a] == t[i];
        let b = choose|b: int| 0 <= b < s.len() && s[b] == t[j];
        if key(t[i]) == key(t[j]) {
            if a < b {
                assert(key(s[a]) != key(s[b]));
            } else if b < a {
                assert(key(s[b]) != key(s[a]));
            }
            assert(t[i] == t[j]);
        }
    }
}

/// An order that calls two values equal only when they are the same value.
pub open spec fn antisymmetric<T>(order: spec_fn(T, T) -> int) -> bool {
    forall|a: T, b: T| #[trigger] order(a, b) == 0 ==> a == b
}

/// Two sequences sorted under an antisymmetric total order that hold the same
/// items are the same sequence.
pub proof fn lemma_sorted_unique<T>(s: Seq<T>, t: Seq<T>, order: spec_fn(T, T) -> int)
    requires
        total_order(order),
        antisymmetric(order),
        sorted_by(s, order),
        sorted_by(t, order),
        s.to_multiset() == t.to_multiset(),
    ensures
        s == t,
    decreases s.len(),
{
    broadcast use vstd::seq_lib::group_to_multiset_ensures;
    if s.len() == 0 {
        assert(t.len() == 0) by {
            assert(t.to_multiset().len() == t.len());
        }
        assert(s =~= t);
    } else {
        assert(t.len() == s.len()) by {
            assert(t.to_multiset().len() == t.len());
            assert(s.to_multiset().len() == s.len());
        }
        assert(s.to_multiset().count(s[0]) > 0);
        assert(t.contains(s[0]));
        let k = choose|k: int| 0 <= k < t.len() && t[k] == s[0];
        assert(t.to_multiset().count(t[0]) > 0);
        assert(s.contains(t[0]));
        let m = choose|m: int| 0 <= m < s.len() && s[m] == t[0];
        if k > 0 {
            assert(order(t[0], t[k]) <= 0);
        }
        if m > 0 {
            assert(order(s[0], s[m]) <= 0);
        }
        assert(order(s[0], t[0]) <= 0);
        assert(order(t[0], s[0]) <= 0);
        assert(order(s[0], t[0]) == 0);
        assert(s[0] == t[0]);
        let rs = s.drop_first();
        let rt = t.drop_first();
        assert(s =~= seq![s[0]] + rs);
        assert(t =~= seq![t[0]] + rt);
        vstd::seq_lib::lemma_multiset_commutative(seq![s[0]], rs);
        vstd::seq_lib::lemma_multiset_commutative(seq![t[0]], rt);
        assert(rs.to_multiset() =~= rt.to_multiset()) by {
            assert forall|x: T| rs.to_multiset().count(x) == rt.to_multiset().count(x) by {
                assert(s.to_multiset().count(x) == seq![s[0]].to_multiset().count(x)
                    + rs.to_multiset().count(x));
                assert(t.to_multiset().count(x) == seq![t[0]].to_multiset().count(x)
                    + rt.to_multiset().count(x));
            }
        }
        assert(sorted_by(rs, order)) by {
            assert forall|i: int, j: int| 0 <= i < j < rs.len() implies order(
                #[trigger] rs[i],
                #[trigger] rs[j],
            ) <= 0 by {
                assert(order(s[i + 1], s[j + 1]) <= 0);
            }
        }
        assert(sorted_by(rt, order)) by {
            assert forall|i: int, j: int| 0 <= i < j < rt.len() implies order(
                #[trigger] rt[i],
                #[trigger] rt[j],
            ) <= 0 by {
                assert(order(t[i + 1], t[j + 1]) <= 0);
            }
        }
        lemma_sorted_unique(rs, rt, order);
    }
}

/// Under an antisymmetric total order the stable sort depends only on which
/// items there are, not on the order they come in.
pub proof fn lemma_sort_seq_permutation<T>(a: Seq<T>, b: Seq<T>, order: spec_fn(T, T) -> int)
    requires
        total_order(order),
        antisymmetric(order),
        a.to_multiset() == b.to_multiset(),
    ensures
        sort_seq(a, order) == sort_seq(b, order),
{
    lemma_sort_seq(a, order);
    lemma_sort_seq(b, order);
    lemma_sorted_unique(sort_seq(a, order), sort_seq(b, order), order);
}


/// The first error `f` reports over the indices `0..n`, scanning upwards.
pub open spec fn first_err<E>(n: nat, f: spec_fn(int) -> Option<E>) -> Option<E>
    decreases n,
{
    if n == 0 {
        None
    } else {
        match first_err((n - 1) as nat, f) {
            Some(e) => Some(e),
            None => f(n - 1),
        }
    }
}

pub proof fn lemma_first_err_step<E>(i: nat, f: spec_fn(int) -> Option<E>)
    requires
        first_err(i, f) is None,
    ensures
        first_err(i + 1, f) == f(i as int),
{
}

pub proof fn lemma_first_err_prefix<E>(i: nat, n: nat, f: spec_fn(int) -> Option<E>)
    requires
        i <= n,
        first_err(i, f) is Some,
    ensures
        first_err(n, f) == first_err(i, f),
    decreases n - i,
{
    if i < n {
        lemma_first_err_prefix(i, (n - 1) as nat, f);
    }
}


/// The first error `check` reports along `v`, scanning from the front.
pub fn first_error_in<T, E, F: Fn(&T) -> Option<E>>(v: &Vec<T>, check: F, Ghost(f): Ghost<
    spec_fn(T) -> Option<E>,
>) -> (r: Option<E>)
    requires
        forall|x: &T| #[trigger] check.requires((x,)),
        forall|x: &T, e: Option<E>| #[trigger] check.ensures((x,), e) ==> e == f(*x),
    ensures
        r == first_some(v@, f),
{
    let n = v.len();
    let mut i: usize = 0;
    while i < n
        invariant
            n == v@.len(),
            i <= n,
            first_some(v@.take(i as int), f) is None,
            forall|x: &T| #[trigger] check.requires((x,)),
            forall|x: &T, e: Option<E>| #[trigger] check.ensures((x,), e) ==> e == f(*x),
        decreases n - i,
    {
        let e = check(&v[i]);
        proof {
            lemma_first_some_step(v@, i as int, f);
        }
        if e.is_some() {
            proof {
                lemma_first_some_prefix(v@, i + 1, f);
            }
            return e;
        }
        i += 1;
    }
    proof {
        lemma_first_some_all(v@, f);
    }
    None
}

/// The first error `check` reports over the indices `0..n`, scanning upwards.
pub fn first_error_at<E, F: Fn(usize) -> Option<E>>(n: usize, check: F, Ghost(f): Ghost<
    spec_fn(int) -> Option<E>,
>) -> (r: Option<E>)
    requires
        forall|i: usize| i < n ==> #[trigger] check.requires((i,)),
        forall|i: usize, e: Option<E>| i < n && #[trigger] check.ensures((i,), e) ==> e == f(i as int),
    ensures
        r == first_err(n as nat, f),
{
    let mut i: usize = 0;
    while i < n
        invariant
            i <= n,
            first_err(i as nat, f) is None,
            forall|i: usize| i < n ==> #[trigger] check.requires((i,)),
            forall|i: usize, e: Option<E>|
                i < n && #[trigger] check.ensures((i,), e) ==> e == f(i as int),
        decreases n - i,
    {
        let e = check(i);
        proof {
            lemma_first_err_step(i as nat, f);
        }
        if e.is_some() {
            proof {
                lemma_first_err_prefix((i + 1) as nat, n as nat, f);
            }
            return e;
        }
        i += 1;
    }
    None
}


/// Inserting and then mapping is mapping and then inserting, when the two
/// orders agree on which pairs are out of order.
pub proof fn lemma_insert_sorted_map<A, B>(
    s: Seq<A>,
    x: A,
    oa: spec_fn(A, A) -> int,
    ob: spec_fn(B, B) -> int,
    f: spec_fn(A) -> B,
)
    requires
        forall|a1: A, a2: A| #[trigger] oa(a1, a2) > 0 <==> ob(f(a1), f(a2)) > 0,
    ensures
        insert_sorted(s, x, oa).map_values(f) == insert_sorted(s.map_values(f), f(x), ob),
    decreases s.len(),
{
    let m = s.map_values(f);
    if s.len() == 0 {
        assert(insert_sorted(s, x, oa).map_values(f) =~= seq![f(x)]);
    } else {
        assert(m[0] == f(s[0]));
        assert(oa(s[0], x) > 0 <==> ob(f(s[0]), f(x)) > 0);
        if oa(s[0], x) > 0 {
            assert((seq![x] + s).map_values(f) =~= seq![f(x)] + m);
        } else {
            lemma_insert_sorted_map(s.drop_first(), x, oa, ob, f);
            assert(s.drop_first().map_values(f) =~= m.drop_first());
            assert((seq![s[0]] + insert_sorted(s.drop_first(), x, oa)).map_values(f) =~= seq![
                f(s[0]),
            ] + insert_sorted(s.drop_first(), x, oa).map_values(f));
        }
    }
}

/// Sorting and then mapping is mapping and then sorting, under agreeing orders.
pub proof fn lemma_sort_seq_map<A, B>(
    s: Seq<A>,
    oa: spec_fn(A, A) -> int,
    ob: spec_fn(B, B) -> int,
    f: spec_fn(A) -> B,
)
    requires
        forall|a1: A, a2: A| #[trigger] oa(a1, a2) > 0 <==> ob(f(a1), f(a2)) > 0,
    ensures
        sort_seq(s, oa).map_values(f) == sort_seq(s.map_values(f), ob),
    decreases s.len(),
{
    if s.len() > 0 {
        lemma_sort_seq_map(s.drop_last(), oa, ob, f);
        lemma_insert_sorted_map(sort_seq(s.drop_last(), oa), s.last(), oa, ob, f);
        assert(s.map_values(f).drop_last() =~= s.drop_last().map_values(f));
    } else {
        assert(s.map_values(f) =~= Seq::<B>::empty());
    }
}

/// Inserting adds exactly the one item.
pub proof fn lemma_insert_sorted_elems<T>(s: Seq<T>, x: T, order: spec_fn(T, T) -> int)
    ensures
        insert_sorted(s, x, order).len() == s.len() + 1,
        forall|k: int|
            0 <= k < s.len() + 1 ==> #[trigger] insert_sorted(s, x, order)[k] == x || s.contains(
                insert_sorted(s, x, order)[k],
            ),
    decreases s.len(),
{
    if s.len() > 0 && order(s[0], x) <= 0 {
        let rest = s.drop_first();
        lemma_insert_sorted_elems(rest, x, order);
        let r = insert_sorted(s, x, order);
        assert forall|k: int| 0 <= k < s.len() + 1 implies #[trigger] r[k] == x || s.contains(
            r[k],
        ) by {
            if k == 0 {
                assert(r[0] == s[0]);
            } else {
                let y = insert_sorted(rest, x, order)[k - 1];
                assert(r[k] == y);
                if y != x {
                    assert(rest.contains(y));
                    let j = choose|j: int| 0 <= j < rest.len() && rest[j] == y;
                    assert(s[j + 1] == y);
                }
            }
        }
    } else if s.len() > 0 {
        let r = insert_sorted(s, x, order);
        assert forall|k: int| 0 <= k < s.len() + 1 implies #[trigger] r[k] == x || s.contains(
            r[k],
        ) by {
            if k > 0 {
                assert(r[k] == s[k - 1]);
            }
        }
    }
}

/// Sorting keeps the length and introduces no new item.
pub proof fn lemma_sort_seq_elems<T>(s: Seq<T>, order: spec_fn(T, T) -> int)
    ensures
        sort_seq(s, order).len() == s.len(),
        forall|k: int| 0 <= k < s.len() ==> s.contains(#[trigger] sort_seq(s, order)[k]),
    decreases s.len(),
{
    if s.len() > 0 {
        let p = s.drop_last();
        lemma_sort_seq_elems(p, order);
        lemma_insert_sorted_elems(sort_seq(p, order), s.last(), order);
        let r = sort_seq(s, order);
        assert forall|k: int| 0 <= k < s.len() implies s.contains(#[trigger] r[k]) by {
            if r[k] == s.last() {
                assert(s[s.len() - 1] == r[k]);
            } else {
                assert(sort_seq(p, order).contains(r[k]));
                let j = choose|j: int| 0 <= j < p.len() && sort_seq(p, order)[j] == r[k];
                assert(p.contains(r[k]));
                let m = choose|m: int| 0 <= m < p.len() && p[m] == r[k];
                assert(s[m] == r[k]);
            }
        }
    }
}

/// The positions `0..n`.
pub open spec fn index_seq(n: nat) -> Seq<usize> {
    Seq::new(n, |i: int| i as usize)
}

/// The positions of `v` listed in the order a stable sort of `v` under
/// `order` would put the items.
pub fn sorted_indices<T, F: Fn(&T, &T) -> i8>(v: &Vec<T>, compare: F, Ghost(order): Ghost<
    spec_fn(T, T) -> int,
>) -> (r: Vec<usize>)
    requires
        forall|a: &T, b: &T| #[trigger] compare.requires((a, b)),
        forall|a: &T, b: &T, x: i8| #[trigger] compare.ensures((a, b), x) ==> ((x > 0) <==> (order(*a, *b) > 0)),
    ensures
        r@.len() == v@.len(),
        forall|k: int| 0 <= k < r@.len() ==> #[trigger] r@[k] < v@.len(),
        r@.map_values(|i: usize| v@[i as int]) == sort_seq(v@, order),
{
    let n = v.len();
    let mut idx: Vec<usize> = Vec::new();
    let mut i: usize = 0;
    while i < n
        invariant
            n == v@.len(),
            i <= n,
            idx@ == index_seq(i as nat),
        decreases n - i,
    {
        idx.push(i);
        i += 1;
        assert(idx@ =~= index_seq(i as nat));
    }
    let ghost vs = v@;
    let ghost f = |i: usize| vs[i as int];
    let ghost oi = |a: usize, b: usize| order(vs[a as int], vs[b as int]);
    let cref = &compare;
    let g: Ghost<spec_fn(T, T) -> int> = Ghost(order);
    let by_index = |a: &usize, b: &usize| -> (x: i8)
        requires
            *a < v@.len(),
            *b < v@.len(),
            forall|a: &T, b: &T| #[trigger] cref.requires((a, b)),
            forall|a: &T, b: &T, x: i8| #[trigger] cref.ensures((a, b), x) ==> ((x > 0) <==> (g@(*a, *b) > 0)),
        ensures
            (x > 0) <==> (g@(v@[*a as int], v@[*b as int]) > 0),
        { cref(&v[*a], &v[*b]) };
    proof {
        assert forall|a: &usize| #[trigger] index_seq(n as nat).contains(*a) implies *a < n by {
            let k = choose|k: int| 0 <= k < n && index_seq(n as nat)[k] == *a;
        }
    }
    let r = sort_by_order(idx, by_index, Ghost(oi));
    proof {
        lemma_sort_seq_map(index_seq(n as nat), oi, order, f);
        assert(index_seq(n as nat).map_values(f) =~= vs);
        lemma_sort_seq_elems(index_seq(n as nat), oi);
        assert forall|k: int| 0 <= k < r@.len() implies #[trigger] r@[k] < v@.len() by {
            assert(index_seq(n as nat).contains(r@[k]));
        }
    }
    r
}


/// The order of integers as a three-way comparison.
pub open spec fn int_ord(a: int, b: int) -> int {
    if a < b {
        -1
    } else if a > b {
        1
    } else {
        0
    }
}

/// `c1`, or `c2` when `c1` calls the pair equal.
pub open spec fn then_ord(c1: int, c2: int) -> int {
    if c1 != 0 {
        c1
    } else {
        c2
    }
}

/// Lexicographic order of sequences under an item order.
pub open spec fn seq_lex_ord<T>(a: Seq<T>, b: Seq<T>, order: spec_fn(T, T) -> int) -> int
    decreases a.len(),
{
    if a.len() == 0 {
        if b.len() == 0 {
            0
        } else {
            -1
        }
    } else if b.len() == 0 {
        1
    } else if order(a[0], b[0]) != 0 {
        order(a[0], b[0])
    } else {
        seq_lex_ord(a.drop_first(), b.drop_first(), order)
    }
}

pub open spec fn str_order() -> spec_fn(String, String) -> int {
    |a: String, b: String| str_ord(a@, b@)
}

pub fn compare_i64(a: i64, b: i64) -> (r: i8)
    ensures
        r as int == int_ord(a as int, b as int),
{
    if a < b {
        -1
    } else if a > b {
        1
    } else {
        0
    }
}


pub proof fn lemma_first_err_none<E>(n: nat, f: spec_fn(int) -> Option<E>, i: int)
    requires
        first_err(n, f) is None,
        0 <= i < n,
    ensures
        f(i) is None,
    decreases n,
{
    if i < n - 1 {
        lemma_first_err_none((n - 1) as nat, f, i);
    }
}

pub proof fn lemma_first_some_none<T, E>(s: Seq<T>, f: spec_fn(T) -> Option<E>, i: int)
    requires
        first_some(s, f) is None,
        0 <= i < s.len(),
    ensures
        f(s[i]) is None,
    decreases s.len(),
{
    if i < s.len() - 1 {
        lemma_first_some_none(s.drop_last(), f, i);
    }
}

/// Inserting keeps every item already there and adds the new one.
pub proof fn lemma_insert_sorted_contains<T>(s: Seq<T>, x: T, order: spec_fn(T, T) -> int)
    ensures
        insert_sorted(s, x, order).contains(x),
        forall|k: int| 0 <= k < s.len() ==> insert_sorted(s, x, order).contains(#[trigger] s[k]),
    decreases s.len(),
{
    let r = insert_sorted(s, x, order);
    if s.len() == 0 {
        assert(r[0] == x);
    } else if order(s[0], x) > 0 {
        assert(r[0] == x);
        assert forall|k: int| 0 <= k < s.len() implies r.contains(#[trigger] s[k]) by {
            assert(r[k + 1] == s[k]);
        }
    } else {
        let rest = s.drop_first();
        lemma_insert_sorted_contains(rest, x, order);
        let ir = insert_sorted(rest, x, order);
        let j = choose|j: int| 0 <= j < ir.len() && ir[j] == x;
        assert(r[j + 1] == x);
        assert forall|k: int| 0 <= k < s.len() implies r.contains(#[trigger] s[k]) by {
            if k == 0 {
                assert(r[0] == s[0]);
            } else {
                assert(rest[k - 1] == s[k]);
                assert(ir.contains(rest[k - 1]));
                let m = choose|m: int| 0 <= m < ir.len() && ir[m] == s[k];
                assert(r[m + 1] == s[k]);
            }
        }
    }
}

/// Every item of `s` is somewhere in the sorted sequence.
pub proof fn lemma_sort_seq_permutation_elems<T>(s: Seq<T>, order: spec_fn(T, T) -> int)
    ensures
        forall|k: int| 0 <= k < s.len() ==> sort_seq(s, order).contains(#[trigger] s[k]),
    decreases s.len(),
{
    if s.len() > 0 {
        let p = s.drop_last();
        lemma_sort_seq_permutation_elems(p, order);
        lemma_insert_sorted_contains(sort_seq(p, order), s.last(), order);
        let sp = sort_seq(p, order);
        assert forall|k: int| 0 <= k < s.len() implies sort_seq(s, order).contains(#[trigger] s[k]) by {
            if k < s.len() - 1 {
                assert(p[k] == s[k]);
                assert(sp.contains(p[k]));
                let m = choose|m: int| 0 <= m < sp.len() && sp[m] == s[k];
                assert(insert_sorted(sp, s.last(), order).contains(sp[m]));
            }
        }
    }
}


pub proof fn lemma_first_err_congruent<E>(n: nat, f: spec_fn(int) -> Option<E>, g: spec_fn(int) -> Option<E>)
    requires
        forall|i: int| 0 <= i < n ==> #[trigger] f(i) == g(i),
    ensures
        first_err(n, f) == first_err(n, g),
    decreases n,
{
    if n > 0 {
        lemma_first_err_congruent((n - 1) as nat, f, g);
    }
}

pub proof fn lemma_first_some_all_none<T, E>(s: Seq<T>, f: spec_fn(T) -> Option<E>)
    requires
        forall|i: int| 0 <= i < s.len() ==> (#[trigger] f(s[i])) is None,
    ensures
        first_some(s, f) is None,
    decreases s.len(),
{
    if s.len() > 0 {
        let p = s.drop_last();
        assert forall|i: int| 0 <= i < p.len() implies (#[trigger] f(p[i])) is None by {
            assert(p[i] == s[i]);
        }
        lemma_first_some_all_none(p, f);
        assert(f(s[s.len() - 1]) is None);
    }
}


/// Byte strings that compare equal are equal.
pub proof fn lemma_bytes_ord_zero(a: Seq<u8>, b: Seq<u8>)
    requires
        bytes_ord(a, b) == 0,
    ensures
        a == b,
    decreases a.len(),
{
    if a.len() > 0 && b.len() > 0 {
        lemma_bytes_ord_zero(a.drop_first(), b.drop_first());
        assert(a =~= seq![a[0]] + a.drop_first());
        assert(b =~= seq![b[0]] + b.drop_first());
    } else {
        assert(a =~= b);
    }
}

/// Texts that compare equal are equal.
pub proof fn lemma_str_ord_zero(a: Seq<char>, b: Seq<char>)
    requires
        str_ord(a, b) == 0,
    ensures
        a == b,
{
    lemma_bytes_ord_zero(encode_utf8(a), encode_utf8(b));
    vstd::utf8::encode_utf8_decode_utf8(a);
    vstd::utf8::encode_utf8_decode_utf8(b);
}

} // verus!

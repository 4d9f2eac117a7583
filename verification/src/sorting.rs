//! Stable sorting by a byte-string key, in the order in which Rust compares
//! strings: byte by byte, a proper prefix first.
use vstd::prelude::*;

verus! {

/// Lexicographic order on byte strings: `a` comes no later than `b`.
pub open spec fn lex_le(a: Seq<u8>, b: Seq<u8>) -> bool
    decreases a.len(),
{
    if a.len() == 0 {
        true
    } else if b.len() == 0 {
        false
    } else if a[0] != b[0] {
        a[0] < b[0]
    } else {
        lex_le(a.drop_first(), b.drop_first())
    }
}

/// The order is reflexive.
pub proof fn lemma_lex_refl(a: Seq<u8>)
    ensures
        lex_le(a, a),
    decreases a.len(),
{
    if a.len() > 0 {
        lemma_lex_refl(a.drop_first());
    }
}

/// Any two byte strings are ordered one way or the other.
pub proof fn lemma_lex_total(a: Seq<u8>, b: Seq<u8>)
    ensures
        lex_le(a, b) || lex_le(b, a),
    decreases a.len(),
{
    if a.len() > 0 && b.len() > 0 && a[0] == b[0] {
        lemma_lex_total(a.drop_first(), b.drop_first());
    }
}

/// The order is transitive.
pub proof fn lemma_lex_trans(a: Seq<u8>, b: Seq<u8>, c: Seq<u8>)
    requires
        lex_le(a, b),
        lex_le(b, c),
    ensures
        lex_le(a, c),
    decreases a.len(),
{
    if a.len() > 0 && b.len() > 0 && c.len() > 0 && a[0] == b[0] && b[0] == c[0] {
        lemma_lex_trans(a.drop_first(), b.drop_first(), c.drop_first());
    }
}

/// Byte strings ordered both ways are equal.
pub proof fn lemma_lex_antisym(a: Seq<u8>, b: Seq<u8>)
    requires
        lex_le(a, b),
        lex_le(b, a),
    ensures
        a == b,
    decreases a.len(),
{
    if a.len() > 0 && b.len() > 0 {
        lemma_lex_antisym(a.drop_first(), b.drop_first());
        assert(a =~= seq![a[0]] + a.drop_first());
        assert(b =~= seq![b[0]] + b.drop_first());
    } else {
        assert(a =~= b);
    }
}

/// Compares two byte strings in lexicographic order.
pub fn bytes_le(a: &[u8], b: &[u8]) -> (r: bool)
    ensures
        r == lex_le(a@, b@),
{
    let mut i: usize = 0;
    assert(a@.skip(0) =~= a@);
    assert(b@.skip(0) =~= b@);
    while i < a.len() && i < b.len()
        invariant
            i <= a.len(),
            i <= b.len(),
            lex_le(a@, b@) == lex_le(a@.skip(i as int), b@.skip(i as int)),
        decreases a.len() - i,
    {
        if a[i] != b[i] {
            return a[i] < b[i];
        }
        assert(a@.skip(i as int).drop_first() =~= a@.skip(i + 1));
        assert(b@.skip(i as int).drop_first() =~= b@.skip(i + 1));
        i = i + 1;
    }
    a.len() <= b.len()
}

/// Values ordered by a byte-string key.
pub trait SortKey {
    /// The key of the value.
    spec fn sort_key(&self) -> Seq<u8>;

    /// The key of the value, as bytes.
    fn key_bytes(&self) -> (k: Vec<u8>)
        ensures
            k@ == self.sort_key(),
    ;
}

/// Whether the keys of a sequence never decrease.
pub open spec fn sorted_by_key<T: SortKey>(s: Seq<T>) -> bool {
    forall|i: int, j: int| 0 <= i < j < s.len() ==> lex_le(#[trigger] s[i].sort_key(), #[trigger] s[j].sort_key())
}

/// The values with key `k`.
pub open spec fn key_is<T: SortKey>(k: Seq<u8>) -> spec_fn(T) -> bool {
    |e: T| e.sort_key() == k
}

/// Whether two sequences hold, for each key, the same values in the same
/// order.
pub open spec fn same_per_key<T: SortKey>(a: Seq<T>, b: Seq<T>) -> bool {
    forall|k: Seq<u8>| #[trigger] a.filter(key_is::<T>(k)) == b.filter(key_is::<T>(k))
}

proof fn lemma_filter_none<T>(s: Seq<T>, pred: spec_fn(T) -> bool)
    requires
        forall|i: int| 0 <= i < s.len() ==> !pred(#[trigger] s[i]),
    ensures
        s.filter(pred) == Seq::<T>::empty(),
    decreases s.len(),
{
    reveal(Seq::filter);
    if s.len() > 0 {
        lemma_filter_none(s.drop_last(), pred);
    }
    assert(s.filter(pred) =~= Seq::<T>::empty());
}

proof fn lemma_insert_filter<T: SortKey>(out: Seq<T>, p: int, x: T, k: Seq<u8>)
    requires
        0 <= p <= out.len(),
        forall|i: int| 0 <= i < p ==> (#[trigger] out[i]).sort_key() != x.sort_key(),
    ensures
        out.insert(p, x).filter(key_is::<T>(k)) == (if x.sort_key() == k {
            seq![x]
        } else {
            Seq::<T>::empty()
        }) + out.filter(key_is::<T>(k)),
{
    let pred = key_is::<T>(k);
    let front = out.take(p);
    let back = out.skip(p);
    assert(out.insert(p, x) =~= front + (seq![x] + back));
    assert(out =~= front + back);
    Seq::filter_distributes_over_add(front, seq![x] + back, pred);
    Seq::filter_distributes_over_add(front, back, pred);
    back.lemma_filter_prepend(x, pred);
    if x.sort_key() == k {
        assert forall|i: int| 0 <= i < front.len() implies !pred(#[trigger] front[i]) by {
            assert(front[i] == out[i]);
        }
        lemma_filter_none(front, pred);
        assert(out.insert(p, x).filter(pred) =~= seq![x] + out.filter(pred));
    } else {
        assert(out.insert(p, x).filter(pred) =~= out.filter(pred));
    }
}

/// Sorts by key, keeping values with equal keys in their original order:
/// the result is sorted, and for every key it holds the same values in the
/// same order as the input. This is `sort_by` of the standard library with
/// the keys compared as strings are.
pub fn sort_by_key<T: SortKey>(v: Vec<T>) -> (r: Vec<T>)
    ensures
        sorted_by_key(r@),
        same_per_key(r@, v@),
        r@.len() == v@.len(),
{
    let ghost orig = v@;
    let mut input = v;
    let mut out: Vec<T> = Vec::new();
    while input.len() > 0
        invariant
            input@ == orig.take(input@.len() as int),
            input@.len() + out@.len() == orig.len(),
            sorted_by_key(out@),
            forall|k: Seq<u8>| #[trigger] out@.filter(key_is::<T>(k)) == orig.skip(input@.len() as int).filter(key_is::<T>(k)),
        decreases input@.len(),
    {
        let ghost n = input@.len() as int;
        let x = input.pop().unwrap();
        assert(x == orig[n - 1]);
        let xk = x.key_bytes();
        let mut p: usize = 0;
        while p < out.len() && !bytes_le(xk.as_slice(), out[p].key_bytes().as_slice())
            invariant
                p <= out@.len(),
                xk@ == x.sort_key(),
                forall|i: int| 0 <= i < p ==> !lex_le(x.sort_key(), #[trigger] out@[i].sort_key()),
            decreases out@.len() - p,
        {
            p = p + 1;
        }
        let ghost before = out@;
        proof {
            assert forall|i: int| 0 <= i < p implies (#[trigger] before[i]).sort_key() != x.sort_key() by {
                lemma_lex_refl(x.sort_key());
            }
            assert forall|k: Seq<u8>| #[trigger] before.insert(p as int, x).filter(key_is::<T>(k))
                == orig.skip(n - 1).filter(key_is::<T>(k)) by {
                lemma_insert_filter(before, p as int, x, k);
                assert(orig.skip(n - 1) =~= seq![x] + orig.skip(n));
                orig.skip(n).lemma_filter_prepend(x, key_is::<T>(k));
            }
            let after = before.insert(p as int, x);
            assert forall|i: int, j: int| 0 <= i < j < after.len() implies lex_le(
                #[trigger] after[i].sort_key(),
                #[trigger] after[j].sort_key(),
            ) by {
                if j < p {
                } else if i < p && j == p {
                    lemma_lex_total(x.sort_key(), before[i].sort_key());
                } else if i < p {
                    lemma_lex_total(x.sort_key(), before[i].sort_key());
                    if (j - 1) > p as int {
                        lemma_lex_trans(x.sort_key(), before[p as int].sort_key(), before[j - 1].sort_key());
                    }
                    lemma_lex_trans(before[i].sort_key(), x.sort_key(), before[j - 1].sort_key());
                } else if i == p {
                    if j - 1 > p {
                        lemma_lex_trans(x.sort_key(), before[p as int].sort_key(), before[j - 1].sort_key());
                    }
                } else {
                }
            }
        }
        out.insert(p, x);
        assert(input@ =~= orig.take(input@.len() as int));
    }
    assert(orig.skip(0) =~= orig);
    out
}

proof fn lemma_filter_first<T: SortKey>(s: Seq<T>, k: Seq<u8>)
    requires
        s.len() > 0,
    ensures
        s.filter(key_is::<T>(k)) == (if s[0].sort_key() == k {
            seq![s[0]]
        } else {
            Seq::<T>::empty()
        }) + s.drop_first().filter(key_is::<T>(k)),
{
    assert(s =~= seq![s[0]] + s.drop_first());
    s.drop_first().lemma_filter_prepend(s[0], key_is::<T>(k));
}

proof fn lemma_key_present<T: SortKey>(s: Seq<T>, i: int)
    requires
        0 <= i < s.len(),
    ensures
        s.filter(key_is::<T>(s[i].sort_key())).len() > 0,
    decreases s.len(),
{
    let k = s[i].sort_key();
    lemma_filter_first(s, k);
    if i > 0 {
        lemma_key_present(s.drop_first(), i - 1);
    }
}

proof fn lemma_key_found<T: SortKey>(s: Seq<T>, k: Seq<u8>)
    requires
        s.filter(key_is::<T>(k)).len() > 0,
    ensures
        exists|i: int| 0 <= i < s.len() && (#[trigger] s[i]).sort_key() == k,
    decreases s.len(),
{
    if s.len() == 0 {
        assert(s.filter(key_is::<T>(k)) =~= Seq::<T>::empty()) by {
            reveal(Seq::filter);
        }
    } else {
        lemma_filter_first(s, k);
        if s[0].sort_key() != k {
            lemma_key_found(s.drop_first(), k);
            let i = choose|i: int| 0 <= i < s.drop_first().len() && (#[trigger] s.drop_first()[i]).sort_key() == k;
            assert(s[i + 1] == s.drop_first()[i]);
        }
    }
}

/// A stable sort has one result: two sorted sequences that hold, for each
/// key, the same values in the same order are equal. So the contract of
/// [`sort_by_key`] determines its result.
pub proof fn lemma_sorted_unique<T: SortKey>(a: Seq<T>, b: Seq<T>)
    requires
        sorted_by_key(a),
        sorted_by_key(b),
        same_per_key(a, b),
    ensures
        a == b,
    decreases a.len(),
{
    if a.len() == 0 {
        if b.len() > 0 {
            lemma_key_present(b, 0);
            let k = b[0].sort_key();
            assert(a.filter(key_is::<T>(k)) == b.filter(key_is::<T>(k)));
            assert(a.filter(key_is::<T>(k)) =~= Seq::<T>::empty()) by {
                reveal(Seq::filter);
            }
        }
        assert(a =~= b);
    } else if b.len() == 0 {
        lemma_key_present(a, 0);
        let k = a[0].sort_key();
        assert(a.filter(key_is::<T>(k)) == b.filter(key_is::<T>(k)));
        assert(b.filter(key_is::<T>(k)) =~= Seq::<T>::empty()) by {
            reveal(Seq::filter);
        }
    } else {
        let ka = a[0].sort_key();
        let kb = b[0].sort_key();
        lemma_key_present(a, 0);
        lemma_key_present(b, 0);
        assert(a.filter(key_is::<T>(ka)) == b.filter(key_is::<T>(ka)));
        assert(a.filter(key_is::<T>(kb)) == b.filter(key_is::<T>(kb)));
        lemma_key_found(b, ka);
        lemma_key_found(a, kb);
        let ib = choose|i: int| 0 <= i < b.len() && (#[trigger] b[i]).sort_key() == ka;
        let ia = choose|i: int| 0 <= i < a.len() && (#[trigger] a[i]).sort_key() == kb;
        if ib > 0 {
            assert(lex_le(b[0].sort_key(), b[ib].sort_key()));
        } else {
            lemma_lex_refl(kb);
        }
        if ia > 0 {
            assert(lex_le(a[0].sort_key(), a[ia].sort_key()));
        } else {
            lemma_lex_refl(ka);
        }
        lemma_lex_antisym(ka, kb);
        lemma_filter_first(a, ka);
        lemma_filter_first(b, ka);
        assert(a[0] == a.filter(key_is::<T>(ka))[0]);
        assert(b[0] == b.filter(key_is::<T>(ka))[0]);
        let ta = a.drop_first();
        let tb = b.drop_first();
        assert forall|k: Seq<u8>| #[trigger] ta.filter(key_is::<T>(k)) == tb.filter(key_is::<T>(k)) by {
            lemma_filter_first(a, k);
            lemma_filter_first(b, k);
            assert(a.filter(key_is::<T>(k)) == b.filter(key_is::<T>(k)));
            if k == ka {
                assert(ta.filter(key_is::<T>(k)) =~= a.filter(key_is::<T>(k)).drop_first());
                assert(tb.filter(key_is::<T>(k)) =~= b.filter(key_is::<T>(k)).drop_first());
            } else {
                assert(ta.filter(key_is::<T>(k)) =~= a.filter(key_is::<T>(k)));
                assert(tb.filter(key_is::<T>(k)) =~= b.filter(key_is::<T>(k)));
            }
        }
        assert forall|i: int, j: int| 0 <= i < j < ta.len() implies lex_le(
            #[trigger] ta[i].sort_key(),
            #[trigger] ta[j].sort_key(),
        ) by {
            assert(ta[i] == a[i + 1]);
            assert(ta[j] == a[j + 1]);
        }
        assert forall|i: int, j: int| 0 <= i < j < tb.len() implies lex_le(
            #[trigger] tb[i].sort_key(),
            #[trigger] tb[j].sort_key(),
        ) by {
            assert(tb[i] == b[i + 1]);
            assert(tb[j] == b[j + 1]);
        }
        lemma_sorted_unique(ta, tb);
        assert(a =~= seq![a[0]] + ta);
        assert(b =~= seq![b[0]] + tb);
    }
}

} // verus!

//! The order in which paths are compared as `Path`s are: component by
//! component, as on Unix, and a sort key of bytes that gives that order.
//!
//! A path splits at `/` into components: a leading `/` is the root, a
//! leading `.` segment is the current directory, `..` is the parent, any
//! other non-empty segment other than `.` is a name; empty segments and
//! later `.` segments are dropped. Components compare root < current <
//! parent < name, names by their bytes; paths compare by their components
//! in order, a proper prefix first.
use vstd::prelude::*;
use vstd::utf8::encode_utf8;
use crate::sorting::lex_le;

verus! {

/// A component of a path.
pub enum PathPart {
    Root,
    Cur,
    Parent,
    Name(Seq<u8>),
}

/// The components of one segment between slashes.
pub open spec fn segment_parts(s: Seq<u8>) -> Seq<PathPart> {
    if s.len() == 0 || s == seq![0x2eu8] {
        seq![]
    } else if s == seq![0x2eu8, 0x2eu8] {
        seq![PathPart::Parent]
    } else {
        seq![PathPart::Name(s)]
    }
}

/// Reading `b` from the left: the components of the segments that a slash
/// has closed, and the segment still open.
pub open spec fn scan_parts(b: Seq<u8>) -> (Seq<PathPart>, Seq<u8>)
    decreases b.len(),
{
    if b.len() == 0 {
        (seq![], seq![])
    } else {
        let prev = scan_parts(b.drop_last());
        if b.last() == 0x2fu8 {
            (prev.0 + segment_parts(prev.1), seq![])
        } else {
            (prev.0, prev.1.push(b.last()))
        }
    }
}

/// The root or current-directory component that a path starts with, if any.
pub open spec fn leading_parts(b: Seq<u8>) -> Seq<PathPart> {
    if b.len() > 0 && b[0] == 0x2fu8 {
        seq![PathPart::Root]
    } else if b.len() > 0 && b[0] == 0x2eu8 && (b.len() == 1 || b[1] == 0x2fu8) {
        seq![PathPart::Cur]
    } else {
        seq![]
    }
}

/// The components of the path with bytes `b`.
pub open spec fn path_parts(b: Seq<u8>) -> Seq<PathPart> {
    leading_parts(b) + scan_parts(b).0 + segment_parts(scan_parts(b).1)
}

/// The rank of a component's kind.
pub open spec fn part_rank(p: PathPart) -> int {
    match p {
        PathPart::Root => 1,
        PathPart::Cur => 2,
        PathPart::Parent => 3,
        PathPart::Name(_) => 4,
    }
}

/// One component comes strictly before another.
pub open spec fn part_lt(p: PathPart, q: PathPart) -> bool {
    match (p, q) {
        (PathPart::Name(s), PathPart::Name(t)) => s != t && lex_le(s, t),
        _ => part_rank(p) < part_rank(q),
    }
}

/// The order of paths by their components: the first differing component
/// decides, and a proper prefix comes first.
pub open spec fn parts_le(ps: Seq<PathPart>, qs: Seq<PathPart>) -> bool
    decreases ps.len(),
{
    if ps.len() == 0 {
        true
    } else if qs.len() == 0 {
        false
    } else if ps[0] != qs[0] {
        part_lt(ps[0], qs[0])
    } else {
        parts_le(ps.drop_first(), qs.drop_first())
    }
}

/// The bytes of a name in the key: each byte behind a 1, then a 0.
pub open spec fn name_code(s: Seq<u8>) -> Seq<u8> {
    Seq::new(
        2 * s.len() + 1,
        |i: int|
            if i == 2 * s.len() {
                0u8
            } else if i % 2 == 0 {
                1u8
            } else {
                s[i / 2]
            },
    )
}

/// The key of one component.
pub open spec fn part_code(p: PathPart) -> Seq<u8> {
    match p {
        PathPart::Root => seq![1u8],
        PathPart::Cur => seq![2u8],
        PathPart::Parent => seq![3u8],
        PathPart::Name(s) => seq![4u8] + name_code(s),
    }
}

/// The key of a list of components.
pub open spec fn parts_code(ps: Seq<PathPart>) -> Seq<u8>
    decreases ps.len(),
{
    if ps.len() == 0 {
        seq![]
    } else {
        part_code(ps[0]) + parts_code(ps.drop_first())
    }
}

/// The sort key of the path with bytes `b`.
pub open spec fn path_key(b: Seq<u8>) -> Seq<u8> {
    parts_code(path_parts(b))
}

proof fn lemma_common_prefix(e: Seq<u8>, u: Seq<u8>, v: Seq<u8>)
    ensures
        lex_le(e + u, e + v) == lex_le(u, v),
    decreases e.len(),
{
    if e.len() > 0 {
        assert((e + u).drop_first() =~= e.drop_first() + u);
        assert((e + v).drop_first() =~= e.drop_first() + v);
        lemma_common_prefix(e.drop_first(), u, v);
    } else {
        assert(e + u =~= u);
        assert(e + v =~= v);
    }
}

proof fn lemma_name_code_unfold(s: Seq<u8>)
    requires
        s.len() > 0,
    ensures
        name_code(s) == seq![1u8, s[0]] + name_code(s.drop_first()),
{
    assert(name_code(s) =~= seq![1u8, s[0]] + name_code(s.drop_first()));
}

proof fn lemma_name_order(s: Seq<u8>, t: Seq<u8>, u: Seq<u8>, v: Seq<u8>)
    requires
        s != t,
    ensures
        lex_le(name_code(s) + u, name_code(t) + v) == lex_le(s, t),
    decreases s.len(),
{
    let a = name_code(s) + u;
    let b = name_code(t) + v;
    if s.len() == 0 {
        if t.len() == 0 {
            assert(s =~= t);
        }
        assert(a[0] == 0u8);
        lemma_name_code_unfold(t);
        assert(b[0] == 1u8);
    } else if t.len() == 0 {
        lemma_name_code_unfold(s);
        assert(a[0] == 1u8);
        assert(b[0] == 0u8);
    } else {
        lemma_name_code_unfold(s);
        lemma_name_code_unfold(t);
        let s1 = s.drop_first();
        let t1 = t.drop_first();
        assert(a =~= seq![1u8, s[0]] + (name_code(s1) + u));
        assert(b =~= seq![1u8, t[0]] + (name_code(t1) + v));
        assert(a.drop_first() =~= seq![s[0]] + (name_code(s1) + u));
        assert(b.drop_first() =~= seq![t[0]] + (name_code(t1) + v));
        assert(lex_le(a, b) == lex_le(a.drop_first(), b.drop_first()));
        if s[0] != t[0] {
            assert(lex_le(a.drop_first(), b.drop_first()) == (s[0] < t[0]));
        }
        if s[0] == t[0] {
            assert(lex_le(a.drop_first(), b.drop_first()) == lex_le(
                a.drop_first().drop_first(),
                b.drop_first().drop_first(),
            ));
            assert(lex_le(s, t) == lex_le(s1, t1));
            assert(a.drop_first().drop_first() =~= name_code(s1) + u);
            assert(b.drop_first().drop_first() =~= name_code(t1) + v);
            assert(s1 != t1) by {
                if s1 == t1 {
                    assert(s =~= seq![s[0]] + s1);
                    assert(t =~= seq![t[0]] + t1);
                }
            }
            lemma_name_order(s1, t1, u, v);
        }
    }
}

proof fn lemma_part_order(p: PathPart, q: PathPart, u: Seq<u8>, v: Seq<u8>)
    requires
        p != q,
    ensures
        lex_le(part_code(p) + u, part_code(q) + v) == part_lt(p, q),
{
    let a = part_code(p) + u;
    let b = part_code(q) + v;
    match (p, q) {
        (PathPart::Name(s), PathPart::Name(t)) => {
            assert(a.drop_first() =~= name_code(s) + u);
            assert(b.drop_first() =~= name_code(t) + v);
            lemma_name_order(s, t, u, v);
        },
        _ => {
            assert(a[0] == part_rank(p));
            assert(b[0] == part_rank(q));
        },
    }
}

/// The key gives the component order: one path's key comes no later than
/// another's exactly when its components come no later.
pub proof fn lemma_key_order(ps: Seq<PathPart>, qs: Seq<PathPart>)
    ensures
        lex_le(parts_code(ps), parts_code(qs)) == parts_le(ps, qs),
    decreases ps.len(),
{
    if ps.len() == 0 {
    } else if qs.len() == 0 {
        assert(parts_code(ps).len() > 0);
    } else {
        let p = ps[0];
        let q = qs[0];
        if p != q {
            lemma_part_order(p, q, parts_code(ps.drop_first()), parts_code(qs.drop_first()));
        } else {
            lemma_common_prefix(part_code(p), parts_code(ps.drop_first()), parts_code(qs.drop_first()));
            lemma_key_order(ps.drop_first(), qs.drop_first());
        }
    }
}

proof fn lemma_parts_code_single(p: PathPart)
    ensures
        parts_code(seq![p]) == part_code(p),
        parts_code(Seq::<PathPart>::empty()) == Seq::<u8>::empty(),
{
    reveal_with_fuel(parts_code, 2);
    assert(seq![p].drop_first() =~= Seq::<PathPart>::empty());
    assert(seq![p][0] == p);
    assert(parts_code(seq![p]) =~= part_code(p));
}

proof fn lemma_parts_code_concat(a: Seq<PathPart>, b: Seq<PathPart>)
    ensures
        parts_code(a + b) == parts_code(a) + parts_code(b),
    decreases a.len(),
{
    if a.len() == 0 {
        assert(a + b =~= b);
        assert(parts_code(a) + parts_code(b) =~= parts_code(b));
    } else {
        assert((a + b).drop_first() =~= a.drop_first() + b);
        lemma_parts_code_concat(a.drop_first(), b);
        assert(parts_code(a + b) =~= parts_code(a) + parts_code(b));
    }
}

fn push_segment_code(out: &mut Vec<u8>, seg: &Vec<u8>)
    ensures
        final(out)@ == old(out)@ + parts_code(segment_parts(seg@)),
{
    let n = seg.len();
    if n == 0 || (n == 1 && seg[0] == 0x2e) {
        proof {
            if n == 1 {
                assert(seg@ =~= seq![0x2eu8]);
            }
            assert(parts_code(segment_parts(seg@)) =~= seq![]);
        }
        assert(final(out)@ =~= old(out)@ + parts_code(segment_parts(seg@)));
        return;
    }
    if n == 2 && seg[0] == 0x2e && seg[1] == 0x2e {
        proof {
            assert(seg@ =~= seq![0x2eu8, 0x2eu8]);
            lemma_parts_code_single(PathPart::Parent);
        }
        out.push(3);
        return;
    }
    proof {
        assert(seg@ != seq![0x2eu8]) by {
            if n == 1 {
            } else {
                assert(seg@.len() != 1);
            }
        }
        assert(seg@ != seq![0x2eu8, 0x2eu8]) by {
            if n == 2 {
                assert(!(seg@[0] == 0x2eu8 && seg@[1] == 0x2eu8));
            }
        }
        assert(segment_parts(seg@) == seq![PathPart::Name(seg@)]);
        lemma_parts_code_single(PathPart::Name(seg@));
    }
    let ghost start = out@;
    out.push(4);
    let mut j: usize = 0;
    while j < n
        invariant
            n == seg@.len(),
            j <= n,
            out@ =~= start + seq![4u8] + name_code(seg@).take(2 * j),
        decreases n - j,
    {
        out.push(1);
        out.push(seg[j]);
        j = j + 1;
    }
    out.push(0);
    assert(name_code(seg@) =~= name_code(seg@).take(2 * n).push(0u8));
    assert(out@ =~= start + parts_code(segment_parts(seg@)));
}

/// The sort key of a path given by its text: the key of its components.
/// Keys compare as the paths do (see [`lemma_key_order`]).
pub fn path_key_of(path: &str) -> (k: Vec<u8>)
    ensures
        k@ == path_key(encode_utf8(path@)),
{
    let b = path.as_bytes();
    let ghost bs = b@;
    let mut out: Vec<u8> = Vec::new();
    if b.len() > 0 && b[0] == 0x2f {
        out.push(1);
    } else if b.len() > 0 && b[0] == 0x2e && (b.len() == 1 || b[1] == 0x2f) {
        out.push(2);
    }
    let ghost lead = out@;
    proof {
        lemma_parts_code_single(PathPart::Root);
        lemma_parts_code_single(PathPart::Cur);
        assert(lead =~= parts_code(leading_parts(bs)));
    }
    let mut cur: Vec<u8> = Vec::new();
    let mut i: usize = 0;
    assert(bs.take(0) =~= Seq::<u8>::empty());
    while i < b.len()
        invariant
            bs == b@,
            i <= bs.len(),
            out@ == lead + parts_code(scan_parts(bs.take(i as int)).0),
            cur@ == scan_parts(bs.take(i as int)).1,
        decreases bs.len() - i,
    {
        let ghost prev = scan_parts(bs.take(i as int));
        assert(bs.take(i + 1).drop_last() =~= bs.take(i as int));
        if b[i] == 0x2f {
            push_segment_code(&mut out, &cur);
            proof {
                lemma_parts_code_concat(prev.0, segment_parts(prev.1));
            }
            cur = Vec::new();
            assert(cur@ =~= seq![]);
        } else {
            cur.push(b[i]);
        }
        i = i + 1;
    }
    assert(bs.take(bs.len() as int) =~= bs);
    push_segment_code(&mut out, &cur);
    proof {
        let sc = scan_parts(bs);
        lemma_parts_code_concat(leading_parts(bs), sc.0);
        lemma_parts_code_concat(leading_parts(bs) + sc.0, segment_parts(sc.1));
    }
    out
}

} // verus!

//! Character sequences: conversion from `&str`, splitting on a separator.
use vstd::prelude::*;

verus! {

/// The pieces of `s` between occurrences of `sep`, as `str::split` yields them:
/// always at least one piece, an empty one between adjacent separators.
pub open spec fn split_on(s: Seq<char>, sep: char) -> Seq<Seq<char>>
    decreases s.len(),
{
    if s.len() == 0 {
        seq![Seq::<char>::empty()]
    } else {
        let p = split_on(s.drop_last(), sep);
        if s.last() == sep {
            p.push(Seq::<char>::empty())
        } else {
            p.update(p.len() - 1, p.last().push(s.last()))
        }
    }
}

pub proof fn lemma_split_nonempty(s: Seq<char>, sep: char)
    ensures
        split_on(s, sep).len() >= 1,
    decreases s.len(),
{
    if s.len() > 0 {
        lemma_split_nonempty(s.drop_last(), sep);
    }
}

/// No piece of a split contains the separator.
pub proof fn lemma_split_pieces_lack_sep(s: Seq<char>, sep: char)
    ensures
        forall|k: int, j: int|
            0 <= k < split_on(s, sep).len() && 0 <= j < split_on(s, sep)[k].len()
                ==> #[trigger] split_on(s, sep)[k][j] != sep,
    decreases s.len(),
{
    lemma_split_nonempty(s, sep);
    if s.len() > 0 {
        lemma_split_pieces_lack_sep(s.drop_last(), sep);
        lemma_split_nonempty(s.drop_last(), sep);
        let p = split_on(s.drop_last(), sep);
        let q = split_on(s, sep);
        assert forall|k: int, j: int| 0 <= k < q.len() && 0 <= j < q[k].len()
            implies #[trigger] q[k][j] != sep by {
            if k < p.len() - 1 {
                assert(q[k] == p[k]);
            } else if k == p.len() - 1 && s.last() != sep && j < p[k].len() {
                assert(q[k][j] == p[k][j]);
            }
        }
    }
}

/// Character ranges `[start, end)` of `s` whose contents are the pieces of `split_on`,
/// consecutive pieces separated by exactly one separator.
pub open spec fn ranges_of_split(s: Seq<char>, sep: char, r: Seq<(usize, usize)>) -> bool {
    let p = split_on(s, sep);
    &&& r.len() == p.len()
    &&& r.len() >= 1
    &&& r[0].0 == 0
    &&& r[r.len() - 1].1 == s.len()
    &&& forall|k: int| 0 <= k < r.len() ==> r[k].0 <= #[trigger] r[k].1 <= s.len()
    &&& forall|k: int| 0 <= k < r.len() ==> s.subrange(r[k].0 as int, r[k].1 as int) == #[trigger] p[k]
    &&& forall|k: int| 0 <= k < r.len() - 1 ==> #[trigger] r[k + 1].0 == r[k].1 + 1
    &&& forall|k: int| 0 <= k < r.len() - 1 ==> s[#[trigger] r[k].1 as int] == sep
}

/// `String::push` of std: appends one character.
#[verifier::external_body]
fn string_push(s: &mut String, c: char)
    ensures
        final(s)@ == old(s)@.push(c),
{
    s.push(c);
}

/// The string made of the characters `v`.
pub fn chars_to_string(v: &Vec<char>) -> (s: String)
    ensures
        s@ == v@,
{
    let mut s = String::new();
    let mut i: usize = 0;
    while i < v.len()
        invariant
            i <= v.len(),
            s@ == v@.take(i as int),
        decreases v.len() - i,
    {
        string_push(&mut s, v[i]);
        proof {
            assert(v@.take(i + 1) =~= v@.take(i as int).push(v@[i as int]));
        }
        i = i + 1;
    }
    proof {
        assert(v@.take(i as int) =~= v@);
    }
    s
}

/// Whether two character sequences are equal.
pub fn chars_eq(a: &Vec<char>, b: &Vec<char>) -> (r: bool)
    ensures
        r == (a@ == b@),
{
    if a.len() != b.len() {
        return false;
    }
    let mut i: usize = 0;
    while i < a.len()
        invariant
            i <= a.len(),
            a.len() == b.len(),
            forall|j: int| 0 <= j < i ==> a@[j] == b@[j],
        decreases a.len() - i,
    {
        if a[i] != b[i] {
            return false;
        }
        i = i + 1;
    }
    proof {
        assert(a@ =~= b@);
    }
    true
}

/// The characters of `s`.
pub fn to_chars(s: &str) -> (v: Vec<char>)
    ensures
        v@ == s@,
{
    let mut v: Vec<char> = Vec::new();
    for c in it: s.chars()
        invariant
            v@ == it.seq().take(it.index() as int),
    {
        v.push(c);
    }
    v
}

/// One more character: the split's ranges grow by a fresh empty piece after a
/// separator, otherwise the last piece absorbs the character.
proof fn lemma_ranges_step(t: Seq<char>, x: char, sep: char, r: Seq<(usize, usize)>)
    requires
        ranges_of_split(t, sep, r),
        t.len() + 1 <= usize::MAX,
    ensures
        x == sep ==> ranges_of_split(
            t.push(x),
            sep,
            r.push(((t.len() + 1) as usize, (t.len() + 1) as usize)),
        ),
        x != sep ==> ranges_of_split(
            t.push(x),
            sep,
            r.update(r.len() - 1, (r[r.len() - 1].0, (t.len() + 1) as usize)),
        ),
{
    let t1 = t.push(x);
    let p = split_on(t, sep);
    assert(t1.drop_last() == t);
    assert(t1.last() == x);
    assert forall|k: int| 0 <= k < r.len() implies t1.subrange(r[k].0 as int, r[k].1 as int)
        == t.subrange(r[k].0 as int, r[k].1 as int) by {
        assert(t1.subrange(r[k].0 as int, r[k].1 as int) =~= t.subrange(r[k].0 as int, r[k].1 as int));
    }
    if x == sep {
        let rn = r.push(((t.len() + 1) as usize, (t.len() + 1) as usize));
        assert(t1.subrange(t.len() + 1 as int, t.len() + 1 as int) =~= Seq::<char>::empty());
        assert forall|k: int| 0 <= k < rn.len() implies t1.subrange(rn[k].0 as int, rn[k].1 as int)
            == #[trigger] split_on(t1, sep)[k] by {
            if k < rn.len() - 1 {
                assert(rn[k] == r[k]);
            }
        }
        assert forall|k: int| 0 <= k < rn.len() - 1 implies t1[#[trigger] rn[k].1 as int] == sep by {
            if k < rn.len() - 2 {
                assert(rn[k] == r[k]);
                assert(r[k + 1].0 == r[k].1 + 1);
                assert(r[k + 1].0 <= r[k + 1].1);
                assert(t1[rn[k].1 as int] == t[r[k].1 as int]);
            }
        }
    } else {
        let last = r.len() - 1;
        let rn = r.update(last, (r[last].0, (t.len() + 1) as usize));
        assert(t1.subrange(r[last].0 as int, t.len() + 1 as int) =~= t.subrange(r[last].0 as int, t.len() as int).push(x));
        assert forall|k: int| 0 <= k < rn.len() implies t1.subrange(rn[k].0 as int, rn[k].1 as int)
            == #[trigger] split_on(t1, sep)[k] by {
            if k < last {
                assert(rn[k] == r[k]);
            }
        }
        assert forall|k: int| 0 <= k < rn.len() - 1 implies t1[#[trigger] rn[k].1 as int] == sep by {
            assert(rn[k] == r[k]);
            assert(r[k + 1].0 == r[k].1 + 1);
            assert(r[k + 1].0 <= r[k + 1].1);
            assert(t1[rn[k].1 as int] == t[r[k].1 as int]);
        }
        assert forall|k: int| 0 <= k < rn.len() - 1 implies #[trigger] rn[k + 1].0 == rn[k].1 + 1 by {
            assert(rn[k] == r[k]);
            assert(rn[k + 1].0 == r[k + 1].0);
        }
    }
}

/// Every sequence short enough to index has ranges for its split.
pub proof fn lemma_ranges_exist(s: Seq<char>, sep: char) -> (r: Seq<(usize, usize)>)
    requires
        s.len() < usize::MAX,
    ensures
        ranges_of_split(s, sep, r),
    decreases s.len(),
{
    if s.len() == 0 {
        assert(s.subrange(0, 0) =~= Seq::<char>::empty());
        seq![(0usize, 0usize)]
    } else {
        let t = s.drop_last();
        let rt = lemma_ranges_exist(t, sep);
        lemma_ranges_step(t, s.last(), sep, rt);
        assert(t.push(s.last()) == s);
        if s.last() == sep {
            rt.push((s.len() as usize, s.len() as usize))
        } else {
            rt.update(rt.len() - 1, (rt[rt.len() - 1].0, s.len() as usize))
        }
    }
}

/// The ranges of the pieces of `s` split on `sep`.
pub fn split_ranges(s: &Vec<char>, sep: char) -> (r: Vec<(usize, usize)>)
    ensures
        ranges_of_split(s@, sep, r@),
{
    let mut r: Vec<(usize, usize)> = Vec::new();
    let mut start: usize = 0;
    let mut i: usize = 0;
    proof {
        assert(s@.take(0) =~= Seq::<char>::empty());
        assert(s@.take(0).subrange(0, 0) =~= Seq::<char>::empty());
    }
    while i < s.len()
        invariant
            i <= s.len(),
            start <= i,
            ranges_of_split(s@.take(i as int), sep, r@.push((start, i))),
        decreases s.len() - i,
    {
        let ghost t = s@.take(i as int);
        proof {
            assert(s@.take(i + 1) == t.push(s@[i as int]));
            lemma_ranges_step(t, s@[i as int], sep, r@.push((start, i)));
        }
        if s[i] == sep {
            r.push((start, i));
            start = i + 1;
        } else {
            proof {
                assert(r@.push((start, i)).update(r@.len() as int, (start, (i + 1) as usize))
                    == r@.push((start, (i + 1) as usize)));
            }
        }
        i = i + 1;
    }
    r.push((start, i));
    proof {
        assert(s@.take(i as int) =~= s@);
    }
    r
}

/// The pieces joined back together, `sep` between each two.
pub open spec fn joined(pieces: Seq<Seq<char>>, sep: char) -> Seq<char>
    decreases pieces.len(),
{
    if pieces.len() == 0 {
        Seq::empty()
    } else if pieces.len() == 1 {
        pieces[0]
    } else {
        joined(pieces.drop_last(), sep) + seq![sep] + pieces.last()
    }
}

/// Splitting loses nothing: the pieces of `s`, joined with the separator, are `s`.
pub proof fn lemma_split_joins_back(s: Seq<char>, sep: char)
    ensures
        joined(split_on(s, sep), sep) == s,
    decreases s.len(),
{
    if s.len() == 0 {
        assert(joined(split_on(s, sep), sep) =~= s);
    } else {
        let t = s.drop_last();
        let x = s.last();
        lemma_split_joins_back(t, sep);
        lemma_split_nonempty(t, sep);
        let p = split_on(t, sep);
        let q = split_on(s, sep);
        if x == sep {
            assert(q.drop_last() =~= p);
            assert(joined(q, sep) =~= s);
        } else {
            if p.len() == 1 {
                assert(joined(q, sep) =~= s);
            } else {
                assert(q.drop_last() =~= p.drop_last());
                assert(q.last() == p.last().push(x));
                let a = joined(p.drop_last(), sep) + seq![sep];
                assert(joined(p, sep) == a + p.last());
                assert(joined(q, sep) == a + p.last().push(x));
                assert(a + p.last().push(x) =~= (a + p.last()).push(x));
                assert(s =~= t.push(x));
            }
        }
    }
}

} // verus!

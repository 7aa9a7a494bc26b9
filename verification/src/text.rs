//! Character-level text helpers shared by the plugins: conversion between
//! strings and character vectors, joining, splitting and comparison.

use vstd::prelude::*;

verus! {

/// Appends one character to a string; calls std's `String::push`, which
/// leaves the string followed by exactly that character.
#[verifier::external_body]
pub(crate) fn push_char(s: &mut String, c: char)
    ensures
        final(s)@ == old(s)@.push(c),
{
    s.push(c);
}

/// The characters of `s`, in order.
pub fn chars_of(s: &str) -> (r: Vec<char>)
    ensures
        r@ == s@,
{
    let n = s.unicode_len();
    let mut v: Vec<char> = Vec::new();
    let mut i: usize = 0;
    while i < n
        invariant
            n == s@.len(),
            i <= n,
            v@ == s@.take(i as int),
        decreases n - i,
    {
        let c = s.get_char(i);
        v.push(c);
        i += 1;
        assert(v@ =~= s@.take(i as int));
    }
    assert(v@ =~= s@);
    v
}

/// The string made of the characters `cs`, in order.
pub fn string_of(cs: &Vec<char>) -> (r: String)
    ensures
        r@ == cs@,
{
    let mut s = String::new();
    let mut i: usize = 0;
    while i < cs.len()
        invariant
            i <= cs.len(),
            s@ == cs@.take(i as int),
        decreases cs.len() - i,
    {
        push_char(&mut s, cs[i]);
        i += 1;
        assert(s@ =~= cs@.take(i as int));
    }
    assert(s@ =~= cs@);
    s
}

/// Whether two strings hold the same characters.
pub fn eq_str(a: &str, b: &str) -> (r: bool)
    ensures
        r == (a@ == b@),
{
    let x = chars_of(a);
    let y = chars_of(b);
    if x.len() != y.len() {
        return false;
    }
    let mut i: usize = 0;
    while i < x.len()
        invariant
            x@ == a@,
            y@ == b@,
            x.len() == y.len(),
            i <= x.len(),
            forall|j: int| 0 <= j < i ==> x@[j] == y@[j],
        decreases x.len() - i,
    {
        if x[i] != y[i] {
            return false;
        }
        i += 1;
    }
    assert(x@ =~= y@);
    true
}

/// The character sequences of a list of strings.
pub open spec fn views(v: Seq<String>) -> Seq<Seq<char>> {
    v.map_values(|s: String| s@)
}

/// `parts` joined with `sep` between neighbours, as `[T]::join` does.
pub open spec fn join_spec(parts: Seq<Seq<char>>, sep: Seq<char>) -> Seq<char>
    decreases parts.len(),
{
    if parts.len() == 0 {
        seq![]
    } else if parts.len() == 1 {
        parts[0]
    } else {
        join_spec(parts.drop_last(), sep) + sep + parts.last()
    }
}

/// A join is at least as long as its first part.
pub proof fn lemma_join_len_first(parts: Seq<Seq<char>>, sep: Seq<char>)
    requires
        parts.len() >= 1,
    ensures
        join_spec(parts, sep).len() >= parts[0].len(),
    decreases parts.len(),
{
    if parts.len() > 1 {
        lemma_join_len_first(parts.drop_last(), sep);
    }
}

/// `parts[start..]` joined with `sep`.
pub fn join_from(parts: &Vec<String>, start: usize, sep: &str) -> (r: String)
    requires
        start <= parts.len(),
    ensures
        r@ == join_spec(views(parts@).skip(start as int), sep@),
{
    let ghost ps = views(parts@);
    let mut res = String::new();
    let mut i: usize = start;
    assert(ps.subrange(start as int, start as int) =~= Seq::<Seq<char>>::empty());
    while i < parts.len()
        invariant
            ps == views(parts@),
            start <= i <= parts.len(),
            res@ == join_spec(ps.subrange(start as int, i as int), sep@),
        decreases parts.len() - i,
    {
        if i > start {
            res.append(sep);
        }
        res.append(parts[i].as_str());
        proof {
            let sub = ps.subrange(start as int, i + 1);
            assert(sub.drop_last() =~= ps.subrange(start as int, i as int));
            assert(sub.last() == parts@[i as int]@);
            if i == start {
                assert(sub.len() == 1);
                assert(res@ =~= join_spec(sub, sep@));
            }
        }
        i += 1;
    }
    assert(ps.subrange(start as int, parts.len() as int) =~= ps.skip(start as int));
    res
}

/// `parts` joined with `sep` between neighbours.
pub fn join(parts: &Vec<String>, sep: &str) -> (r: String)
    ensures
        r@ == join_spec(views(parts@), sep@),
{
    let r = join_from(parts, 0, sep);
    assert(views(parts@).skip(0) =~= views(parts@));
    r
}


/// Whether `c` has the Unicode White_Space property, which is what std's
/// `char::is_whitespace` tests.
pub open spec fn is_white_space(c: char) -> bool {
    ||| '\u{9}' <= c <= '\u{d}'
    ||| c == ' '
    ||| c == '\u{85}'
    ||| c == '\u{a0}'
    ||| c == '\u{1680}'
    ||| '\u{2000}' <= c <= '\u{200a}'
    ||| c == '\u{2028}'
    ||| c == '\u{2029}'
    ||| c == '\u{202f}'
    ||| c == '\u{205f}'
    ||| c == '\u{3000}'
}

/// Whether `c` is a white-space character.
pub fn is_whitespace(c: char) -> (r: bool)
    ensures
        r == is_white_space(c),
{
    ('\u{9}' <= c && c <= '\u{d}') || c == ' ' || c == '\u{85}' || c == '\u{a0}' || c
        == '\u{1680}' || ('\u{2000}' <= c && c <= '\u{200a}') || c == '\u{2028}' || c
        == '\u{2029}' || c == '\u{202f}' || c == '\u{205f}' || c == '\u{3000}'
}

/// The pieces of `s` between occurrences of `sep`, as `str::split` with a
/// single-character pattern gives them: always at least one piece.
pub open spec fn split_spec(s: Seq<char>, sep: char) -> Seq<Seq<char>>
    decreases s.len(),
{
    if s.len() == 0 {
        seq![seq![]]
    } else {
        let r = split_spec(s.drop_last(), sep);
        if s.last() == sep {
            r.push(seq![])
        } else {
            r.update(r.len() - 1, r.last().push(s.last()))
        }
    }
}

/// The maximal runs of non-white-space characters of `s`, in order, as
/// `str::split_whitespace` gives them.
pub open spec fn words_spec(s: Seq<char>) -> Seq<Seq<char>>
    decreases s.len(),
{
    if s.len() == 0 {
        seq![]
    } else {
        let r = words_spec(s.drop_last());
        if is_white_space(s.last()) {
            r
        } else if s.len() >= 2 && !is_white_space(s[s.len() - 2]) {
            r.update(r.len() - 1, r.last().push(s.last()))
        } else {
            r.push(seq![s.last()])
        }
    }
}

/// `split_spec` always has at least one piece.
pub proof fn lemma_split_nonempty(s: Seq<char>, sep: char)
    ensures
        split_spec(s, sep).len() >= 1,
    decreases s.len(),
{
    if s.len() > 0 {
        lemma_split_nonempty(s.drop_last(), sep);
    }
}

/// Splitting on a character and joining the pieces with that character
/// gives back the text.
pub proof fn lemma_join_split(s: Seq<char>, sep: char)
    ensures
        join_spec(split_spec(s, sep), seq![sep]) == s,
    decreases s.len(),
{
    if s.len() > 0 {
        let t = s.drop_last();
        let r = split_spec(t, sep);
        lemma_join_split(t, sep);
        lemma_split_nonempty(t, sep);
        if s.last() == sep {
            let r2 = r.push(seq![]);
            assert(r2.drop_last() =~= r);
            assert(join_spec(r2, seq![sep]) =~= s);
        } else {
            let r2 = r.update(r.len() - 1, r.last().push(s.last()));
            if r.len() == 1 {
                assert(join_spec(r2, seq![sep]) =~= s);
            } else {
                assert(r2.drop_last() =~= r.drop_last());
                assert(join_spec(r, seq![sep]) == join_spec(r.drop_last(), seq![sep]) + seq![sep]
                    + r.last());
                assert(s =~= t.push(s.last()));
                assert(join_spec(r2, seq![sep]) =~= s);
            }
        }
    } else {
        assert(join_spec(split_spec(s, sep), seq![sep]) =~= s);
    }
}

/// The pieces of `s` between occurrences of `sep`.
pub fn split_on(s: &str, sep: char) -> (r: Vec<String>)
    ensures
        views(r@) == split_spec(s@, sep),
{
    let cs = chars_of(s);
    let mut pieces: Vec<String> = Vec::new();
    let mut cur = String::new();
    let mut i: usize = 0;
    assert(views(pieces@).push(cur@) =~= split_spec(cs@.take(0), sep));
    while i < cs.len()
        invariant
            cs@ == s@,
            i <= cs.len(),
            views(pieces@).push(cur@) == split_spec(cs@.take(i as int), sep),
        decreases cs.len() - i,
    {
        let c = cs[i];
        let ghost before = views(pieces@).push(cur@);
        assert(cs@.take(i + 1).drop_last() =~= cs@.take(i as int));
        if c == sep {
            let done = cur;
            pieces.push(done);
            cur = String::new();
            assert(views(pieces@).push(cur@) =~= before.push(seq![]));
        } else {
            push_char(&mut cur, c);
            assert(views(pieces@).push(cur@) =~= before.update(
                before.len() - 1,
                before.last().push(c),
            ));
        }
        i += 1;
    }
    assert(cs@.take(cs.len() as int) =~= cs@);
    pieces.push(cur);
    pieces
}

/// The white-space separated words of `s`.
pub fn words(s: &str) -> (r: Vec<String>)
    ensures
        views(r@) == words_spec(s@),
{
    let cs = chars_of(s);
    let mut ws: Vec<String> = Vec::new();
    let mut cur = String::new();
    let mut in_word = false;
    let mut i: usize = 0;
    assert(views(ws@) =~= words_spec(cs@.take(0)));
    while i < cs.len()
        invariant
            cs@ == s@,
            i <= cs.len(),
            in_word == (i > 0 && !is_white_space(cs@[i - 1])),
            in_word ==> views(ws@).push(cur@) == words_spec(cs@.take(i as int)),
            !in_word ==> views(ws@) == words_spec(cs@.take(i as int)),
        decreases cs.len() - i,
    {
        let c = cs[i];
        let ghost t = cs@.take(i + 1);
        assert(t.drop_last() =~= cs@.take(i as int));
        assert(t.last() == c);
        if is_whitespace(c) {
            if in_word {
                let w = cur;
                ws.push(w);
                cur = String::new();
            }
            in_word = false;
        } else {
            if in_word {
                let ghost before = views(ws@).push(cur@);
                assert(t[t.len() - 2] == cs@[i - 1]);
                push_char(&mut cur, c);
                assert(views(ws@).push(cur@) =~= before.update(
                    before.len() - 1,
                    before.last().push(c),
                ));
            } else {
                cur = String::new();
                push_char(&mut cur, c);
                assert(i > 0 ==> t[t.len() - 2] == cs@[i - 1]);
                assert(views(ws@).push(cur@) =~= views(ws@).push(seq![c]));
            }
            in_word = true;
        }
        i += 1;
    }
    assert(cs@.take(cs.len() as int) =~= cs@);
    if in_word {
        ws.push(cur);
    }
    ws
}

} // verus!

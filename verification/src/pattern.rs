//! Splitting on a multi-character pattern and into lines, as std's
//! `str::split` with a string pattern and `str::lines` do.

use vstd::prelude::*;
use crate::text::{chars_of, push_char, split_spec, views};

verus! {

/// The pieces of `s` between the leftmost non-overlapping occurrences of
/// the non-empty pattern `p`.
pub open spec fn split_pattern(s: Seq<char>, p: Seq<char>) -> Seq<Seq<char>>
    decreases s.len(),
{
    if p.len() == 0 || s.len() < p.len() {
        seq![s]
    } else if s.take(p.len() as int) == p {
        seq![seq![]] + split_pattern(s.skip(p.len() as int), p)
    } else {
        let r = split_pattern(s.drop_first(), p);
        r.update(0, seq![s[0]] + r[0])
    }
}

/// `split_pattern` always has at least one piece.
pub proof fn lemma_split_pattern_nonempty(s: Seq<char>, p: Seq<char>)
    ensures
        split_pattern(s, p).len() >= 1,
    decreases s.len(),
{
    if p.len() > 0 && s.len() >= p.len() {
        if s.take(p.len() as int) == p {
            lemma_split_pattern_nonempty(s.skip(p.len() as int), p);
        } else {
            lemma_split_pattern_nonempty(s.drop_first(), p);
        }
    }
}

/// Whether `p` occurs in `cs` at position `i`.
fn occurs_at(cs: &Vec<char>, i: usize, p: &Vec<char>) -> (r: bool)
    requires
        i + p.len() <= cs.len(),
    ensures
        r == (cs@.skip(i as int).take(p.len() as int) == p@),
{
    let mut j: usize = 0;
    while j < p.len()
        invariant
            i + p.len() <= cs.len(),
            j <= p.len(),
            forall|k: int| 0 <= k < j ==> cs@[i + k] == p@[k],
        decreases p.len() - j,
    {
        if cs[i + j] != p[j] {
            assert(cs@.skip(i as int).take(p.len() as int)[j as int] != p@[j as int]);
            return false;
        }
        j += 1;
    }
    assert(cs@.skip(i as int).take(p.len() as int) =~= p@);
    true
}

/// The pieces of `s` between the leftmost non-overlapping occurrences of
/// the non-empty pattern `p`.
pub fn split_by(s: &str, p: &str) -> (r: Vec<String>)
    requires
        p@.len() > 0,
    ensures
        views(r@) == split_pattern(s@, p@),
{
    let cs = chars_of(s);
    let ps = chars_of(p);
    let mut pieces: Vec<String> = Vec::new();
    let mut cur = String::new();
    let mut i: usize = 0;
    assert(cs@.skip(0) =~= cs@);
    proof {
        lemma_split_pattern_nonempty(cs@, ps@);
        let r = split_pattern(cs@, ps@);
        assert(views(pieces@) + seq![cur@ + r[0]] + r.drop_first() =~= r);
    }
    while ps.len() <= cs.len() - i
        invariant
            cs@ == s@,
            ps@ == p@,
            ps.len() > 0,
            i <= cs.len(),
            ({
                let r = split_pattern(cs@.skip(i as int), ps@);
                r.len() >= 1 && split_pattern(cs@, ps@) == views(pieces@) + seq![cur@ + r[0]]
                    + r.drop_first()
            }),
        decreases cs.len() - i,
    {
        let ghost rest = cs@.skip(i as int);
        if occurs_at(&cs, i, &ps) {
            let ghost r2 = split_pattern(rest.skip(ps.len() as int), ps@);
            assert(rest.skip(ps.len() as int) =~= cs@.skip(i + ps.len()));
            proof {
                lemma_split_pattern_nonempty(rest.skip(ps.len() as int), ps@);
                assert(split_pattern(rest, ps@) == seq![seq![]] + r2);
            }
            let done = cur;
            pieces.push(done);
            cur = String::new();
            i = i + ps.len();
            proof {
                let r = split_pattern(cs@.skip(i as int), ps@);
                assert(r == r2);
                let old_r = seq![seq![]] + r2;
                assert(old_r[0] =~= Seq::<char>::empty());
                assert(old_r.drop_first() =~= r2);
                assert(r2 =~= seq![r2[0]] + r2.drop_first());
                assert(views(pieces@) + seq![cur@ + r[0]] + r.drop_first() =~= split_pattern(
                    cs@,
                    ps@,
                ));
            }
        } else {
            let c = cs[i];
            let ghost r2 = split_pattern(rest.drop_first(), ps@);
            assert(rest.drop_first() =~= cs@.skip(i + 1));
            proof {
                lemma_split_pattern_nonempty(rest.drop_first(), ps@);
                assert(rest[0] == c);
                assert(split_pattern(rest, ps@) == r2.update(0, seq![c] + r2[0]));
            }
            let ghost old_cur = cur@;
            push_char(&mut cur, c);
            i = i + 1;
            proof {
                let r = split_pattern(cs@.skip(i as int), ps@);
                assert(r == r2);
                let old_r = r2.update(0, seq![c] + r2[0]);
                assert(old_r.drop_first() =~= r2.drop_first());
                assert(old_cur + old_r[0] =~= cur@ + r2[0]);
                assert(views(pieces@) + seq![cur@ + r[0]] + r.drop_first() =~= split_pattern(
                    cs@,
                    ps@,
                ));
            }
        }
    }
    let ghost tail = cs@.skip(i as int);
    assert(split_pattern(tail, ps@) == seq![tail]);
    while i < cs.len()
        invariant
            cs@ == s@,
            ps@ == p@,
            i <= cs.len(),
            split_pattern(cs@, ps@) == views(pieces@) + seq![cur@ + cs@.skip(i as int)],
        decreases cs.len() - i,
    {
        let ghost old_cur = cur@;
        push_char(&mut cur, cs[i]);
        assert(old_cur + cs@.skip(i as int) =~= cur@ + cs@.skip(i + 1));
        i = i + 1;
    }
    assert(cur@ + cs@.skip(i as int) =~= cur@);
    let ghost before = views(pieces@);
    pieces.push(cur);
    assert(views(pieces@) =~= before + seq![pieces@.last()@]);
    pieces
}

/// A line without its carriage return at the end, if it has one.
pub open spec fn strip_cr(line: Seq<char>) -> Seq<char> {
    if line.len() > 0 && line.last() == '\r' {
        line.drop_last()
    } else {
        line
    }
}

/// The lines of `s` as `str::lines` gives them: the pieces between line
/// feeds, without a final empty piece; a piece ended by a line feed loses a
/// carriage return before it.
pub open spec fn lines_spec(s: Seq<char>) -> Seq<Seq<char>> {
    let pieces = split_spec(s, '\n');
    let ended = pieces.drop_last().map_values(|l: Seq<char>| strip_cr(l));
    if pieces.last().len() == 0 {
        ended
    } else {
        ended.push(pieces.last())
    }
}

/// The line `line` without a carriage return at its end.
fn strip_cr_of(line: &str) -> (r: String)
    ensures
        r@ == strip_cr(line@),
{
    let cs = chars_of(line);
    let m = if cs.len() > 0 && cs[cs.len() - 1] == '\r' {
        cs.len() - 1
    } else {
        cs.len()
    };
    let mut out = String::new();
    let mut k: usize = 0;
    while k < m
        invariant
            m <= cs.len(),
            k <= m,
            out@ == cs@.take(k as int),
        decreases m - k,
    {
        push_char(&mut out, cs[k]);
        assert(cs@.take(k + 1) =~= cs@.take(k as int).push(cs@[k as int]));
        k += 1;
    }
    assert(out@ =~= strip_cr(line@));
    out
}

/// The lines of `s`.
pub fn lines(s: &str) -> (r: Vec<String>)
    ensures
        views(r@) == lines_spec(s@),
{
    let pieces = crate::text::split_on(s, '\n');
    proof {
        crate::text::lemma_split_nonempty(s@, '\n');
    }
    let ghost pv = views(pieces@);
    let n = pieces.len();
    let mut out: Vec<String> = Vec::new();
    let mut i: usize = 0;
    while i + 1 < n
        invariant
            n == pieces.len(),
            n >= 1,
            pv == views(pieces@),
            i + 1 <= n,
            views(out@) == pv.drop_last().take(i as int).map_values(|l: Seq<char>| strip_cr(l)),
        decreases n - i,
    {
        let line = strip_cr_of(pieces[i].as_str());
        let ghost before = views(out@);
        out.push(line);
        assert(pv.drop_last()[i as int] == pieces@[i as int]@);
        assert(views(out@) =~= before.push(strip_cr(pv.drop_last()[i as int])));
        assert(pv.drop_last().take(i + 1).map_values(|l: Seq<char>| strip_cr(l)) =~= pv.drop_last().take(
            i as int,
        ).map_values(|l: Seq<char>| strip_cr(l)).push(strip_cr(pv.drop_last()[i as int])));
        i += 1;
    }
    assert(pv.drop_last().take(i as int) =~= pv.drop_last());
    if pieces[n - 1].unicode_len() > 0 {
        let ghost before = views(out@);
        out.push(pieces[n - 1].clone());
        assert(views(out@) =~= before.push(pv.last()));
    }
    out
}

} // verus!

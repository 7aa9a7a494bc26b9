//! Decimal numbers as text: std's `to_string` of unsigned integers and the
//! `FromStr` parsers of `bool`, `u32` and `u64`.

use vstd::prelude::*;
use crate::text::{chars_of, push_char, eq_str};

verus! {

/// The character of a decimal digit.
pub open spec fn digit_char(d: nat) -> char {
    (48 + d) as char
}

/// The decimal representation of `n`, without leading zeros.
pub open spec fn decimal(n: nat) -> Seq<char>
    decreases n,
{
    if n < 10 {
        seq![digit_char(n)]
    } else {
        decimal(n / 10).push(digit_char(n % 10))
    }
}

/// Whether `c` is an ASCII decimal digit.
pub open spec fn is_digit(c: char) -> bool {
    '0' <= c <= '9'
}

/// The value of a string of decimal digits (0 for the empty string).
pub open spec fn digits_value(s: Seq<char>) -> nat
    decreases s.len(),
{
    if s.len() == 0 {
        0
    } else {
        digits_value(s.drop_last()) * 10 + ((s.last() as int - 48) as nat)
    }
}

/// The digits after an optional leading `+`.
pub open spec fn unsigned_digits(s: Seq<char>) -> Seq<char> {
    if s.len() > 0 && s[0] == '+' {
        s.drop_first()
    } else {
        s
    }
}

/// What `FromStr` of an unsigned integer type whose largest value is `max`
/// returns for `s`: an optional `+`, then at least one decimal digit and
/// nothing else, of value at most `max`.
pub open spec fn parse_unsigned(s: Seq<char>, max: nat) -> Option<nat> {
    let d = unsigned_digits(s);
    if d.len() > 0 && (forall|i: int| 0 <= i < d.len() ==> is_digit(#[trigger] d[i]))
        && digits_value(d) <= max {
        Some(digits_value(d))
    } else {
        None
    }
}

/// What `FromStr` for `bool` returns for `s`.
pub open spec fn parse_bool_spec(s: Seq<char>) -> Option<bool> {
    if s == "true"@ {
        Some(true)
    } else if s == "false"@ {
        Some(false)
    } else {
        None
    }
}

/// The text of a `bool` as `Display` and `Debug` write it.
pub open spec fn bool_text(b: bool) -> Seq<char> {
    if b {
        "true"@
    } else {
        "false"@
    }
}

/// The character of the digit `d`.
pub fn digit_to_char(d: u64) -> (r: char)
    requires
        d < 10,
    ensures
        r == digit_char(d as nat),
{
    match d {
        0 => '0',
        1 => '1',
        2 => '2',
        3 => '3',
        4 => '4',
        5 => '5',
        6 => '6',
        7 => '7',
        8 => '8',
        _ => '9',
    }
}

/// The decimal text of `n`, as `to_string` writes it.
pub fn decimal_text(n: u64) -> (r: String)
    ensures
        r@ == decimal(n as nat),
{
    let mut m = n;
    let mut acc: Vec<char> = Vec::new();
    while m >= 10
        invariant
            decimal(n as nat) == decimal(m as nat) + acc@,
        decreases m,
    {
        let d = digit_to_char(m % 10);
        acc.insert(0, d);
        let ghost old_m = m;
        m = m / 10;
        assert(decimal(old_m as nat) == decimal(m as nat).push(d));
        assert(decimal(m as nat).push(d) + acc@.drop_first() =~= decimal(m as nat) + acc@);
    }
    let mut s = String::new();
    push_char(&mut s, digit_to_char(m));
    assert(s@ == decimal(m as nat));
    let mut i: usize = 0;
    while i < acc.len()
        invariant
            decimal(n as nat) == decimal(m as nat) + acc@,
            i <= acc.len(),
            s@ == decimal(m as nat) + acc@.take(i as int),
        decreases acc.len() - i,
    {
        push_char(&mut s, acc[i]);
        assert(acc@.take(i + 1) =~= acc@.take(i as int).push(acc@[i as int]));
        i += 1;
    }
    assert(acc@.take(acc.len() as int) =~= acc@);
    s
}

/// The text of `b`, as `Display` and `Debug` write it.
pub fn bool_to_text(b: bool) -> (r: String)
    ensures
        r@ == bool_text(b),
{
    if b {
        String::from_str("true")
    } else {
        String::from_str("false")
    }
}

/// Reading `true` or `false`, as `FromStr` for `bool` does.
pub fn parse_bool(s: &str) -> (r: Option<bool>)
    ensures
        r == parse_bool_spec(s@),
{
    if eq_str(s, "true") {
        Some(true)
    } else if eq_str(s, "false") {
        Some(false)
    } else {
        None
    }
}

/// The value of a prefix of a digit string is at most the value of the
/// whole string.
pub proof fn lemma_digits_prefix(s: Seq<char>, i: int)
    requires
        0 <= i <= s.len(),
        forall|j: int| 0 <= j < s.len() ==> is_digit(#[trigger] s[j]),
    ensures
        digits_value(s.take(i)) <= digits_value(s),
    decreases s.len() - i,
{
    if i < s.len() {
        lemma_digits_prefix(s, i + 1);
        assert(s.take(i + 1).drop_last() =~= s.take(i));
    } else {
        assert(s.take(i) =~= s);
    }
}

/// Reading an unsigned decimal number no greater than `max`.
pub fn parse_unsigned_text(s: &str, max: u64) -> (r: Option<u64>)
    ensures
        r matches Some(v) ==> parse_unsigned(s@, max as nat) == Some(v as nat),
        r is None ==> parse_unsigned(s@, max as nat) is None,
{
    let cs = chars_of(s);
    let start: usize = if cs.len() > 0 && cs[0] == '+' {
        1
    } else {
        0
    };
    let ghost d = unsigned_digits(s@);
    assert(d =~= cs@.skip(start as int));
    if start >= cs.len() {
        return None;
    }
    let mut i = start;
    while i < cs.len()
        invariant
            cs@ == s@,
            d == cs@.skip(start as int),
            d == unsigned_digits(s@),
            start <= i <= cs.len(),
            forall|j: int| start <= j < i ==> is_digit(#[trigger] cs@[j]),
        decreases cs.len() - i,
    {
        if !('0' <= cs[i] && cs[i] <= '9') {
            assert(d[i - start] == cs@[i as int]);
            assert(!is_digit(d[i - start]));
            assert(!(forall|j: int| 0 <= j < d.len() ==> is_digit(#[trigger] d[j])));
            assert(parse_unsigned(s@, max as nat) is None);
            return None;
        }
        i += 1;
    }
    assert(forall|j: int| 0 <= j < d.len() ==> is_digit(#[trigger] d[j])) by {
        assert forall|j: int| 0 <= j < d.len() implies is_digit(#[trigger] d[j]) by {
            assert(d[j] == cs@[start + j]);
        }
    }
    let mut v: u64 = 0;
    let mut k = start;
    assert(d.take(0) =~= Seq::<char>::empty());
    while k < cs.len()
        invariant
            cs@ == s@,
            d == cs@.skip(start as int),
            d == unsigned_digits(s@),
            start <= k <= cs.len(),
            forall|j: int| 0 <= j < d.len() ==> is_digit(#[trigger] d[j]),
            v as nat == digits_value(d.take(k - start)),
            v <= max,
        decreases cs.len() - k,
    {
        let c = cs[k];
        assert(c == d[k - start]);
        assert(is_digit(d[k - start]));
        let dv: u64 = if c == '0' { 0 } else if c == '1' { 1 } else if c == '2' { 2 } else if c
            == '3' { 3 } else if c == '4' { 4 } else if c == '5' { 5 } else if c == '6' { 6 } else if c
            == '7' { 7 } else if c == '8' { 8 } else { 9 };
        assert(dv == c as int - 48);
        let ghost pre = d.take(k + 1 - start);
        assert(pre.drop_last() =~= d.take(k - start));
        assert(pre.last() == c);
        if dv > max || v > (max - dv) / 10 {
            proof {
                assert(digits_value(pre) == v * 10 + dv);
                assert(v * 10 + dv > max) by (nonlinear_arith)
                    requires
                        dv > max || v > (max - dv) / 10,
                        v >= 0,
                        dv >= 0,
                ;
                lemma_digits_prefix(d, k + 1 - start);
                assert(digits_value(d) > max);
                assert(parse_unsigned(s@, max as nat) is None);
            }
            return None;
        }
        assert(v * 10 + dv <= max) by (nonlinear_arith)
            requires v <= (max - dv) / 10, dv <= max;
        v = v * 10 + dv;
        k += 1;
    }
    assert(d.take(cs.len() - start) =~= d);
    Some(v)
}

/// Reading a `u32`, as `FromStr` for `u32` does.
pub fn parse_u32(s: &str) -> (r: Option<u32>)
    ensures
        r matches Some(v) ==> parse_unsigned(s@, u32::MAX as nat) == Some(v as nat),
        r is None ==> parse_unsigned(s@, u32::MAX as nat) is None,
{
    match parse_unsigned_text(s, 0xffff_ffff) {
        Some(v) => Some(v as u32),
        None => None,
    }
}

/// Reading a `u64`, as `FromStr` for `u64` does.
pub fn parse_u64(s: &str) -> (r: Option<u64>)
    ensures
        r matches Some(v) ==> parse_unsigned(s@, u64::MAX as nat) == Some(v as nat),
        r is None ==> parse_unsigned(s@, u64::MAX as nat) is None,
{
    parse_unsigned_text(s, 0xffff_ffff_ffff_ffff)
}

} // verus!

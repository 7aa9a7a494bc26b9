//! The text transform command: rewrites a text in one of the styles of
//! the Mathematical Alphanumeric Symbols block, through the
//! `math-text-transform` crate.

use vstd::prelude::*;
use math_text_transform::MathTextTransform;
use crate::text::{eq_str, join_from, join_spec, views};
use crate::plugins::TextTransformPlugin;

verus! {

/// Whether `c` is an ASCII character that is neither a letter nor a digit;
/// no style has a variant of such a character.
pub open spec fn ascii_unstyled(c: char) -> bool {
    c < '\u{80}' && !('0' <= c <= '9') && !('A' <= c <= 'Z') && !('a' <= c <= 'z')
}

/// Whether `c` is a small ASCII letter, `a` to `z`.
pub open spec fn is_small(c: char) -> bool {
    'a' <= c <= 'z'
}

/// The code point of the small letter `c` in an alphabet whose `a` stands
/// at `base` and whose other letters follow it in order.
pub open spec fn letter_at(c: char, base: int) -> int {
    base + (c as int - 'a' as int)
}

/// The code point of the italic small letter `c`: the italic alphabet from
/// U+1D44E, where `h` is U+210E, the Planck constant.
pub open spec fn italic_letter(c: char) -> int {
    if c == 'h' {
        0x210E
    } else {
        letter_at(c, 0x1D44E)
    }
}

/// The code point of the script small letter `c`: the script alphabet from
/// U+1D4B6, where `e`, `g` and `o` are U+212F, U+210A and U+2134 of the
/// Letterlike Symbols block.
pub open spec fn script_letter(c: char) -> int {
    if c == 'e' {
        0x212F
    } else if c == 'g' {
        0x210A
    } else if c == 'o' {
        0x2134
    } else {
        letter_at(c, 0x1D4B6)
    }
}

/// What `math_text_transform::MathTextTransform::to_math_bold` returns for
/// the characters `s`.
pub uninterp spec fn bold_text(s: Seq<char>) -> Seq<char>;

/// Calls `MathTextTransform::to_math_bold` on `s`, which maps each character to
/// its bold variant, leaving characters without one as they are. The
/// contract names the result and states that it has one character per
/// character of `s`, and that ASCII characters other than letters and
/// digits, which have no variant, stay as they are. Of the variant table it
/// states the small letters: `a` to `z` become the letters from U+1D41A on,
/// in order; other characters are not stated.
#[verifier::external_body]
pub(crate) fn bold(s: &str) -> (r: String)
    ensures
        r@ == bold_text(s@),
        r@.len() == s@.len(),
        forall|i: int| 0 <= i < s@.len() && ascii_unstyled(#[trigger] s@[i]) ==> r@[i] == s@[i],
        forall|i: int| 0 <= i < s@.len() && is_small(#[trigger] s@[i]) ==> r@[i] as int == letter_at(s@[i], 0x1D41A),
{
    s.to_math_bold()
}

/// What `math_text_transform::MathTextTransform::to_math_italic` returns for
/// the characters `s`.
pub uninterp spec fn italic_text(s: Seq<char>) -> Seq<char>;

/// Calls `MathTextTransform::to_math_italic` on `s`, which maps each character to
/// its italic variant, leaving characters without one as they are. The
/// contract names the result and states that it has one character per
/// character of `s`, and that ASCII characters other than letters and
/// digits, which have no variant, stay as they are. Of the variant table it
/// states the small letters: `a` to `z` become the letters from U+1D44E on,
/// in order, but for `h`, which becomes U+210E; other characters are not
/// stated.
#[verifier::external_body]
pub(crate) fn italic(s: &str) -> (r: String)
    ensures
        r@ == italic_text(s@),
        r@.len() == s@.len(),
        forall|i: int| 0 <= i < s@.len() && ascii_unstyled(#[trigger] s@[i]) ==> r@[i] == s@[i],
        forall|i: int| 0 <= i < s@.len() && is_small(#[trigger] s@[i]) ==> r@[i] as int == italic_letter(s@[i]),
{
    s.to_math_italic()
}

/// What `math_text_transform::MathTextTransform::to_math_bold_italic` returns for
/// the characters `s`.
pub uninterp spec fn bold_italic_text(s: Seq<char>) -> Seq<char>;

/// Calls `MathTextTransform::to_math_bold_italic` on `s`, which maps each character to
/// its bold italic variant, leaving characters without one as they are. The
/// contract names the result and states that it has one character per
/// character of `s`, and that ASCII characters other than letters and
/// digits, which have no variant, stay as they are. Of the variant table it
/// states the small letters: `a` to `z` become the letters from U+1D482 on,
/// in order; other characters are not stated.
#[verifier::external_body]
pub(crate) fn bold_italic(s: &str) -> (r: String)
    ensures
        r@ == bold_italic_text(s@),
        r@.len() == s@.len(),
        forall|i: int| 0 <= i < s@.len() && ascii_unstyled(#[trigger] s@[i]) ==> r@[i] == s@[i],
        forall|i: int| 0 <= i < s@.len() && is_small(#[trigger] s@[i]) ==> r@[i] as int == letter_at(s@[i], 0x1D482),
{
    s.to_math_bold_italic()
}

/// What `math_text_transform::MathTextTransform::to_math_sans_serif` returns for
/// the characters `s`.
pub uninterp spec fn sans_serif_text(s: Seq<char>) -> Seq<char>;

/// Calls `MathTextTransform::to_math_sans_serif` on `s`, which maps each character to
/// its sans-serif variant, leaving characters without one as they are. The
/// contract names the result and states that it has one character per
/// character of `s`, and that ASCII characters other than letters and
/// digits, which have no variant, stay as they are. Of the variant table it
/// states the small letters: `a` to `z` become the letters from U+1D5BA on,
/// in order; other characters are not stated.
#[verifier::external_body]
pub(crate) fn sans_serif(s: &str) -> (r: String)
    ensures
        r@ == sans_serif_text(s@),
        r@.len() == s@.len(),
        forall|i: int| 0 <= i < s@.len() && ascii_unstyled(#[trigger] s@[i]) ==> r@[i] == s@[i],
        forall|i: int| 0 <= i < s@.len() && is_small(#[trigger] s@[i]) ==> r@[i] as int == letter_at(s@[i], 0x1D5BA),
{
    s.to_math_sans_serif()
}

/// What `math_text_transform::MathTextTransform::to_math_sans_serif_bold` returns for
/// the characters `s`.
pub uninterp spec fn sans_serif_bold_text(s: Seq<char>) -> Seq<char>;

/// Calls `MathTextTransform::to_math_sans_serif_bold` on `s`, which maps each character to
/// its sans-serif bold variant, leaving characters without one as they are. The
/// contract names the result and states that it has one character per
/// character of `s`, and that ASCII characters other than letters and
/// digits, which have no variant, stay as they are. Of the variant table it
/// states the small letters: `a` to `z` become the letters from U+1D5EE on,
/// in order; other characters are not stated.
#[verifier::external_body]
pub(crate) fn sans_serif_bold(s: &str) -> (r: String)
    ensures
        r@ == sans_serif_bold_text(s@),
        r@.len() == s@.len(),
        forall|i: int| 0 <= i < s@.len() && ascii_unstyled(#[trigger] s@[i]) ==> r@[i] == s@[i],
        forall|i: int| 0 <= i < s@.len() && is_small(#[trigger] s@[i]) ==> r@[i] as int == letter_at(s@[i], 0x1D5EE),
{
    s.to_math_sans_serif_bold()
}

/// What `math_text_transform::MathTextTransform::to_math_sans_serif_italic` returns for
/// the characters `s`.
pub uninterp spec fn sans_serif_italic_text(s: Seq<char>) -> Seq<char>;

/// Calls `MathTextTransform::to_math_sans_serif_italic` on `s`, which maps each character to
/// its sans-serif italic variant, leaving characters without one as they are. The
/// contract names the result and states that it has one character per
/// character of `s`, and that ASCII characters other than letters and
/// digits, which have no variant, stay as they are. Of the variant table it
/// states the small letters: `a` to `z` become the letters from U+1D622 on,
/// in order; other characters are not stated.
#[verifier::external_body]
pub(crate) fn sans_serif_italic(s: &str) -> (r: String)
    ensures
        r@ == sans_serif_italic_text(s@),
        r@.len() == s@.len(),
        forall|i: int| 0 <= i < s@.len() && ascii_unstyled(#[trigger] s@[i]) ==> r@[i] == s@[i],
        forall|i: int| 0 <= i < s@.len() && is_small(#[trigger] s@[i]) ==> r@[i] as int == letter_at(s@[i], 0x1D622),
{
    s.to_math_sans_serif_italic()
}

/// What `math_text_transform::MathTextTransform::to_math_sans_serif_bold_italic` returns for
/// the characters `s`.
pub uninterp spec fn sans_serif_bold_italic_text(s: Seq<char>) -> Seq<char>;

/// Calls `MathTextTransform::to_math_sans_serif_bold_italic` on `s`, which maps each character to
/// its sans-serif bold italic variant, leaving characters without one as they are. The
/// contract names the result and states that it has one character per
/// character of `s`, and that ASCII characters other than letters and
/// digits, which have no variant, stay as they are. Of the variant table it
/// states the small letters: `a` to `z` become the letters from U+1D656 on,
/// in order; other characters are not stated.
#[verifier::external_body]
pub(crate) fn sans_serif_bold_italic(s: &str) -> (r: String)
    ensures
        r@ == sans_serif_bold_italic_text(s@),
        r@.len() == s@.len(),
        forall|i: int| 0 <= i < s@.len() && ascii_unstyled(#[trigger] s@[i]) ==> r@[i] == s@[i],
        forall|i: int| 0 <= i < s@.len() && is_small(#[trigger] s@[i]) ==> r@[i] as int == letter_at(s@[i], 0x1D656),
{
    s.to_math_sans_serif_bold_italic()
}

/// What `math_text_transform::MathTextTransform::to_math_script` returns for
/// the characters `s`.
pub uninterp spec fn script_text(s: Seq<char>) -> Seq<char>;

/// Calls `MathTextTransform::to_math_script` on `s`, which maps each character to
/// its script variant, leaving characters without one as they are. The
/// contract names the result and states that it has one character per
/// character of `s`, and that ASCII characters other than letters and
/// digits, which have no variant, stay as they are. Of the variant table it
/// states the small letters: `a` to `z` become the letters from U+1D4B6 on,
/// in order, but for `e`, `g` and `o`, which become U+212F, U+210A and
/// U+2134; other characters are not stated.
#[verifier::external_body]
pub(crate) fn script(s: &str) -> (r: String)
    ensures
        r@ == script_text(s@),
        r@.len() == s@.len(),
        forall|i: int| 0 <= i < s@.len() && ascii_unstyled(#[trigger] s@[i]) ==> r@[i] == s@[i],
        forall|i: int| 0 <= i < s@.len() && is_small(#[trigger] s@[i]) ==> r@[i] as int == script_letter(s@[i]),
{
    s.to_math_script()
}

/// What `math_text_transform::MathTextTransform::to_math_bold_script` returns for
/// the characters `s`.
pub uninterp spec fn bold_script_text(s: Seq<char>) -> Seq<char>;

/// Calls `MathTextTransform::to_math_bold_script` on `s`, which maps each character to
/// its bold script variant, leaving characters without one as they are. The
/// contract names the result and states that it has one character per
/// character of `s`, and that ASCII characters other than letters and
/// digits, which have no variant, stay as they are. Of the variant table it
/// states the small letters: `a` to `z` become the letters from U+1D4EA on,
/// in order; other characters are not stated.
#[verifier::external_body]
pub(crate) fn bold_script(s: &str) -> (r: String)
    ensures
        r@ == bold_script_text(s@),
        r@.len() == s@.len(),
        forall|i: int| 0 <= i < s@.len() && ascii_unstyled(#[trigger] s@[i]) ==> r@[i] == s@[i],
        forall|i: int| 0 <= i < s@.len() && is_small(#[trigger] s@[i]) ==> r@[i] as int == letter_at(s@[i], 0x1D4EA),
{
    s.to_math_bold_script()
}

/// What `math_text_transform::MathTextTransform::to_math_fraktur` returns for
/// the characters `s`.
pub uninterp spec fn fraktur_text(s: Seq<char>) -> Seq<char>;

/// Calls `MathTextTransform::to_math_fraktur` on `s`, which maps each character to
/// its fraktur variant, leaving characters without one as they are. The
/// contract names the result and states that it has one character per
/// character of `s`, and that ASCII characters other than letters and
/// digits, which have no variant, stay as they are. Of the variant table it
/// states the small letters: `a` to `z` become the letters from U+1D51E on,
/// in order; other characters are not stated.
#[verifier::external_body]
pub(crate) fn fraktur(s: &str) -> (r: String)
    ensures
        r@ == fraktur_text(s@),
        r@.len() == s@.len(),
        forall|i: int| 0 <= i < s@.len() && ascii_unstyled(#[trigger] s@[i]) ==> r@[i] == s@[i],
        forall|i: int| 0 <= i < s@.len() && is_small(#[trigger] s@[i]) ==> r@[i] as int == letter_at(s@[i], 0x1D51E),
{
    s.to_math_fraktur()
}

/// What `math_text_transform::MathTextTransform::to_math_monospace` returns for
/// the characters `s`.
pub uninterp spec fn monospace_text(s: Seq<char>) -> Seq<char>;

/// Calls `MathTextTransform::to_math_monospace` on `s`, which maps each character to
/// its monospace variant, leaving characters without one as they are. The
/// contract names the result and states that it has one character per
/// character of `s`, and that ASCII characters other than letters and
/// digits, which have no variant, stay as they are. Of the variant table it
/// states the small letters: `a` to `z` become the letters from U+1D68A on,
/// in order; other characters are not stated.
#[verifier::external_body]
pub(crate) fn monospace(s: &str) -> (r: String)
    ensures
        r@ == monospace_text(s@),
        r@.len() == s@.len(),
        forall|i: int| 0 <= i < s@.len() && ascii_unstyled(#[trigger] s@[i]) ==> r@[i] == s@[i],
        forall|i: int| 0 <= i < s@.len() && is_small(#[trigger] s@[i]) ==> r@[i] as int == letter_at(s@[i], 0x1D68A),
{
    s.to_math_monospace()
}

/// What `math_text_transform::MathTextTransform::to_math_double_struck` returns for
/// the characters `s`.
pub uninterp spec fn double_struck_text(s: Seq<char>) -> Seq<char>;

/// Calls `MathTextTransform::to_math_double_struck` on `s`, which maps each character to
/// its double struck variant, leaving characters without one as they are. The
/// contract names the result and states that it has one character per
/// character of `s`, and that ASCII characters other than letters and
/// digits, which have no variant, stay as they are. Of the variant table it
/// states the small letters: `a` to `z` become the letters from U+1D552 on,
/// in order; other characters are not stated.
#[verifier::external_body]
pub(crate) fn double_struck(s: &str) -> (r: String)
    ensures
        r@ == double_struck_text(s@),
        r@.len() == s@.len(),
        forall|i: int| 0 <= i < s@.len() && ascii_unstyled(#[trigger] s@[i]) ==> r@[i] == s@[i],
        forall|i: int| 0 <= i < s@.len() && is_small(#[trigger] s@[i]) ==> r@[i] as int == letter_at(s@[i], 0x1D552),
{
    s.to_math_double_struck()
}

/// The text in the style that the code `style` selects, or `None` for an
/// unknown code.
pub open spec fn transform_spec(style: Seq<char>, text: Seq<char>) -> Option<Seq<char>> {
    if style == "b"@ {
        Some(bold_text(text))
    } else if style == "i"@ {
        Some(italic_text(text))
    } else if style == "bi"@ {
        Some(bold_italic_text(text))
    } else if style == "ss"@ {
        Some(sans_serif_text(text))
    } else if style == "ssb"@ {
        Some(sans_serif_bold_text(text))
    } else if style == "ssi"@ {
        Some(sans_serif_italic_text(text))
    } else if style == "ssbi"@ {
        Some(sans_serif_bold_italic_text(text))
    } else if style == "s"@ {
        Some(script_text(text))
    } else if style == "bs"@ {
        Some(bold_script_text(text))
    } else if style == "f"@ {
        Some(fraktur_text(text))
    } else if style == "m"@ {
        Some(monospace_text(text))
    } else if style == "ds"@ {
        Some(double_struck_text(text))
    } else {
        None
    }
}

/// Whether `style` is one of the style codes.
pub open spec fn is_style_code(style: Seq<char>) -> bool {
    transform_spec(style, Seq::<char>::empty()) is Some
}

/// The code point that the style with code `style` gives the small letter
/// `c`: each style has its own alphabet in the Mathematical Alphanumeric
/// Symbols block.
pub open spec fn style_letter(style: Seq<char>, c: char) -> int {
    if style == "b"@ {
        letter_at(c, 0x1D41A)
    } else if style == "i"@ {
        italic_letter(c)
    } else if style == "bi"@ {
        letter_at(c, 0x1D482)
    } else if style == "ss"@ {
        letter_at(c, 0x1D5BA)
    } else if style == "ssb"@ {
        letter_at(c, 0x1D5EE)
    } else if style == "ssi"@ {
        letter_at(c, 0x1D622)
    } else if style == "ssbi"@ {
        letter_at(c, 0x1D656)
    } else if style == "s"@ {
        script_letter(c)
    } else if style == "bs"@ {
        letter_at(c, 0x1D4EA)
    } else if style == "f"@ {
        letter_at(c, 0x1D51E)
    } else if style == "m"@ {
        letter_at(c, 0x1D68A)
    } else if style == "ds"@ {
        letter_at(c, 0x1D552)
    } else {
        c as int
    }
}

/// Each style code selects its own transform of the crate: `b` bold, `i`
/// italic, `bi` bold italic, `ss` sans-serif, `ssb` sans-serif bold, `ssi`
/// sans-serif italic, `ssbi` sans-serif bold italic, `s` script, `bs` bold
/// script, `f` fraktur, `m` monospace and `ds` double-struck; any other
/// code, such as `bf`, selects none.
pub proof fn lemma_style_codes(text: Seq<char>)
    ensures
        transform_spec("b"@, text) == Some(bold_text(text)),
        transform_spec("i"@, text) == Some(italic_text(text)),
        transform_spec("bi"@, text) == Some(bold_italic_text(text)),
        transform_spec("ss"@, text) == Some(sans_serif_text(text)),
        transform_spec("ssb"@, text) == Some(sans_serif_bold_text(text)),
        transform_spec("ssi"@, text) == Some(sans_serif_italic_text(text)),
        transform_spec("ssbi"@, text) == Some(sans_serif_bold_italic_text(text)),
        transform_spec("s"@, text) == Some(script_text(text)),
        transform_spec("bs"@, text) == Some(bold_script_text(text)),
        transform_spec("f"@, text) == Some(fraktur_text(text)),
        transform_spec("m"@, text) == Some(monospace_text(text)),
        transform_spec("ds"@, text) == Some(double_struck_text(text)),
        transform_spec("bf"@, text) is None,
        transform_spec(""@, text) is None,
        forall|c: char| #[trigger] style_letter("b"@, c) == letter_at(c, 0x1D41A),
        forall|c: char| #[trigger] style_letter("i"@, c) == italic_letter(c),
        forall|c: char| #[trigger] style_letter("bi"@, c) == letter_at(c, 0x1D482),
        forall|c: char| #[trigger] style_letter("ss"@, c) == letter_at(c, 0x1D5BA),
        forall|c: char| #[trigger] style_letter("ssb"@, c) == letter_at(c, 0x1D5EE),
        forall|c: char| #[trigger] style_letter("ssi"@, c) == letter_at(c, 0x1D622),
        forall|c: char| #[trigger] style_letter("ssbi"@, c) == letter_at(c, 0x1D656),
        forall|c: char| #[trigger] style_letter("s"@, c) == script_letter(c),
        forall|c: char| #[trigger] style_letter("bs"@, c) == letter_at(c, 0x1D4EA),
        forall|c: char| #[trigger] style_letter("f"@, c) == letter_at(c, 0x1D51E),
        forall|c: char| #[trigger] style_letter("m"@, c) == letter_at(c, 0x1D68A),
        forall|c: char| #[trigger] style_letter("ds"@, c) == letter_at(c, 0x1D552),
{
    reveal_strlit("b");
    reveal_strlit("i");
    reveal_strlit("bi");
    reveal_strlit("ss");
    reveal_strlit("ssb");
    reveal_strlit("ssi");
    reveal_strlit("ssbi");
    reveal_strlit("s");
    reveal_strlit("bs");
    reveal_strlit("f");
    reveal_strlit("m");
    reveal_strlit("ds");
    reveal_strlit("bf");
    reveal_strlit("");
    assert("b"@[0] != "i"@[0]);
    assert("b"@.len() != "bi"@.len());
    assert("i"@.len() != "bi"@.len());
    assert("b"@.len() != "ss"@.len());
    assert("i"@.len() != "ss"@.len());
    assert("bi"@[0] != "ss"@[0]);
    assert("b"@.len() != "ssb"@.len());
    assert("i"@.len() != "ssb"@.len());
    assert("bi"@.len() != "ssb"@.len());
    assert("ss"@.len() != "ssb"@.len());
    assert("b"@.len() != "ssi"@.len());
    assert("i"@.len() != "ssi"@.len());
    assert("bi"@.len() != "ssi"@.len());
    assert("ss"@.len() != "ssi"@.len());
    assert("ssb"@[2] != "ssi"@[2]);
    assert("b"@.len() != "ssbi"@.len());
    assert("i"@.len() != "ssbi"@.len());
    assert("bi"@.len() != "ssbi"@.len());
    assert("ss"@.len() != "ssbi"@.len());
    assert("ssb"@.len() != "ssbi"@.len());
    assert("ssi"@.len() != "ssbi"@.len());
    assert("b"@[0] != "s"@[0]);
    assert("i"@[0] != "s"@[0]);
    assert("bi"@.len() != "s"@.len());
    assert("ss"@.len() != "s"@.len());
    assert("ssb"@.len() != "s"@.len());
    assert("ssi"@.len() != "s"@.len());
    assert("ssbi"@.len() != "s"@.len());
    assert("b"@.len() != "bs"@.len());
    assert("i"@.len() != "bs"@.len());
    assert("bi"@[1] != "bs"@[1]);
    assert("ss"@[0] != "bs"@[0]);
    assert("ssb"@.len() != "bs"@.len());
    assert("ssi"@.len() != "bs"@.len());
    assert("ssbi"@.len() != "bs"@.len());
    assert("s"@.len() != "bs"@.len());
    assert("b"@[0] != "f"@[0]);
    assert("i"@[0] != "f"@[0]);
    assert("bi"@.len() != "f"@.len());
    assert("ss"@.len() != "f"@.len());
    assert("ssb"@.len() != "f"@.len());
    assert("ssi"@.len() != "f"@.len());
    assert("ssbi"@.len() != "f"@.len());
    assert("s"@[0] != "f"@[0]);
    assert("bs"@.len() != "f"@.len());
    assert("b"@[0] != "m"@[0]);
    assert("i"@[0] != "m"@[0]);
    assert("bi"@.len() != "m"@.len());
    assert("ss"@.len() != "m"@.len());
    assert("ssb"@.len() != "m"@.len());
    assert("ssi"@.len() != "m"@.len());
    assert("ssbi"@.len() != "m"@.len());
    assert("s"@[0] != "m"@[0]);
    assert("bs"@.len() != "m"@.len());
    assert("f"@[0] != "m"@[0]);
    assert("b"@.len() != "ds"@.len());
    assert("i"@.len() != "ds"@.len());
    assert("bi"@[0] != "ds"@[0]);
    assert("ss"@[0] != "ds"@[0]);
    assert("ssb"@.len() != "ds"@.len());
    assert("ssi"@.len() != "ds"@.len());
    assert("ssbi"@.len() != "ds"@.len());
    assert("s"@.len() != "ds"@.len());
    assert("bs"@[0] != "ds"@[0]);
    assert("f"@.len() != "ds"@.len());
    assert("m"@.len() != "ds"@.len());
    assert("b"@.len() != "bf"@.len());
    assert("i"@.len() != "bf"@.len());
    assert("bi"@[1] != "bf"@[1]);
    assert("ss"@[0] != "bf"@[0]);
    assert("ssb"@.len() != "bf"@.len());
    assert("ssi"@.len() != "bf"@.len());
    assert("ssbi"@.len() != "bf"@.len());
    assert("s"@.len() != "bf"@.len());
    assert("bs"@[1] != "bf"@[1]);
    assert("f"@.len() != "bf"@.len());
    assert("m"@.len() != "bf"@.len());
    assert("ds"@[0] != "bf"@[0]);
    assert("b"@.len() != ""@.len());
    assert("i"@.len() != ""@.len());
    assert("bi"@.len() != ""@.len());
    assert("ss"@.len() != ""@.len());
    assert("ssb"@.len() != ""@.len());
    assert("ssi"@.len() != ""@.len());
    assert("ssbi"@.len() != ""@.len());
    assert("s"@.len() != ""@.len());
    assert("bs"@.len() != ""@.len());
    assert("f"@.len() != ""@.len());
    assert("m"@.len() != ""@.len());
    assert("ds"@.len() != ""@.len());
    assert("bf"@.len() != ""@.len());
}

/// Each style writes the small letters in an alphabet of its own: `a` is
/// U+1D41A in bold (`b`), U+1D44E in italic (`i`), U+1D482 in bold italic
/// (`bi`), U+1D5BA in sans-serif (`ss`), U+1D5EE in sans-serif bold
/// (`ssb`), U+1D622 in sans-serif italic (`ssi`), U+1D656 in sans-serif
/// bold italic (`ssbi`), U+1D4B6 in script (`s`), U+1D4EA in bold script
/// (`bs`), U+1D51E in fraktur (`f`), U+1D68A in monospace (`m`) and U+1D552
/// in double-struck (`ds`), the other letters following in order; and no
/// two style codes give any small letter the same character.
pub proof fn lemma_style_letters(s1: Seq<char>, s2: Seq<char>, c: char)
    requires
        is_style_code(s1),
        is_style_code(s2),
        s1 != s2,
        is_small(c),
    ensures
        style_letter(s1, c) != style_letter(s2, c),
        style_letter("b"@, 'a') == 0x1D41A,
        style_letter("i"@, 'a') == 0x1D44E,
        style_letter("bi"@, 'a') == 0x1D482,
        style_letter("ss"@, 'a') == 0x1D5BA,
        style_letter("ssb"@, 'a') == 0x1D5EE,
        style_letter("ssi"@, 'a') == 0x1D622,
        style_letter("ssbi"@, 'a') == 0x1D656,
        style_letter("s"@, 'a') == 0x1D4B6,
        style_letter("bs"@, 'a') == 0x1D4EA,
        style_letter("f"@, 'a') == 0x1D51E,
        style_letter("m"@, 'a') == 0x1D68A,
        style_letter("ds"@, 'a') == 0x1D552,
{
    lemma_style_codes(Seq::<char>::empty());
}

impl TextTransformPlugin {
    /// The arguments after the first, joined by spaces, in the style that
    /// the first argument selects (`b`, `i`, `bi`, `ss`, `ssb`, `ssi`,
    /// `ssbi`, `s`, `bs`, `f`, `m` or `ds`); empty for any other code.
    pub fn execute(&self, arguments: &Vec<String>) -> (r: String)
        requires
            arguments.len() >= 1,
        ensures
            ({
                let text = join_spec(views(arguments@).skip(1), " "@);
                match transform_spec(arguments@[0]@, text) {
                    Some(t) => r@ == t,
                    None => r@ == Seq::<char>::empty(),
                }
            }),
            ({
                let text = join_spec(views(arguments@).skip(1), " "@);
                is_style_code(arguments@[0]@) ==> r@.len() == text.len() && forall|i: int|
                    0 <= i < text.len() && is_small(#[trigger] text[i]) ==> r@[i] as int
                        == style_letter(arguments@[0]@, text[i])
            }),
    {
        let text = join_from(arguments, 1, " ");
        let t = text.as_str();
        let style = arguments[0].as_str();
        if eq_str(style, "b") {
            bold(t)
        } else if eq_str(style, "i") {
            italic(t)
        } else if eq_str(style, "bi") {
            bold_italic(t)
        } else if eq_str(style, "ss") {
            sans_serif(t)
        } else if eq_str(style, "ssb") {
            sans_serif_bold(t)
        } else if eq_str(style, "ssi") {
            sans_serif_italic(t)
        } else if eq_str(style, "ssbi") {
            sans_serif_bold_italic(t)
        } else if eq_str(style, "s") {
            script(t)
        } else if eq_str(style, "bs") {
            bold_script(t)
        } else if eq_str(style, "f") {
            fraktur(t)
        } else if eq_str(style, "m") {
            monospace(t)
        } else if eq_str(style, "ds") {
            double_struck(t)
        } else {
            String::new()
        }
    }
}

} // verus!

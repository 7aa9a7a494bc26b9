//! The LaTeX command: the form body it posts to the renderer, and the image
//! link it reads from the renderer's answer.

use vstd::prelude::*;
use vstd::utf8::{decode_utf8, valid_utf8};
use crate::text::{chars_of, join, join_spec, split_on, split_spec, views};
use crate::plugins::LatexPlugin;

verus! {

/// Calls std's `String::from_utf8` on a copy of the bytes; it fails exactly
/// when the bytes are not UTF-8, and otherwise holds their decoding.
#[verifier::external_body]
pub(crate) fn utf8_text(bytes: &Vec<u8>) -> (r: Option<String>)
    ensures
        r is Some <==> valid_utf8(bytes@),
        r matches Some(s) ==> s@ == decode_utf8(bytes@),
{
    String::from_utf8(bytes.clone()).ok()
}

/// The renderer options that follow the formula and colour in the body.
pub open spec fn render_options() -> Seq<char> {
    "&fsize=17px&mode=0&out=1&remhost=quicklatex.com&preamble=\\usepackage{amsmath}\n\\usepackage{amsfonts}\n\\usepackage{amssymb}&rnd=66.52322504562316"@
}

/// The link in a renderer answer: the text after its first three
/// characters, up to the first space.
pub open spec fn link_spec(answer: Seq<char>) -> Seq<char> {
    split_spec(answer.skip(if answer.len() < 3 { answer.len() as int } else { 3 }), ' ')[0]
}

impl LatexPlugin {
    /// The address the form is posted to.
    pub fn endpoint(&self) -> (r: &'static str)
        ensures
            r@ == "http://quicklatex.com/latex3.f"@,
    {
        "http://quicklatex.com/latex3.f"
    }

    /// The form body that asks the renderer for the arguments, joined by
    /// spaces, as a formula in colour `latex_color`.
    pub fn request_body(&self, arguments: &Vec<String>, latex_color: &str) -> (r: String)
        ensures
            r@ == "formula="@ + join_spec(views(arguments@), " "@) + "&fcolor="@ + latex_color@
                + render_options(),
    {
        let form = join(arguments, " ");
        let mut out = String::from_str("formula=");
        out.append(form.as_str());
        out.append("&fcolor=");
        out.append(latex_color);
        out.append(
            "&fsize=17px&mode=0&out=1&remhost=quicklatex.com&preamble=\\usepackage{amsmath}\n\\usepackage{amsfonts}\n\\usepackage{amssymb}&rnd=66.52322504562316",
        );
        out
    }

    /// The image link in the renderer's answer; `None` when the answer is
    /// not UTF-8.
    pub fn link(&self, answer: &Vec<u8>) -> (r: Option<String>)
        ensures
            r is Some <==> valid_utf8(answer@),
            r matches Some(l) ==> l@ == link_spec(decode_utf8(answer@)),
    {
        match utf8_text(answer) {
            Some(text) => {
                let cs = chars_of(text.as_str());
                let start: usize = if cs.len() < 3 {
                    cs.len()
                } else {
                    3
                };
                let mut rest = String::new();
                let mut i = start;
                while i < cs.len()
                    invariant
                        start <= i <= cs.len(),
                        rest@ == cs@.subrange(start as int, i as int),
                    decreases cs.len() - i,
                {
                    crate::text::push_char(&mut rest, cs[i]);
                    assert(cs@.subrange(start as int, i + 1) =~= cs@.subrange(
                        start as int,
                        i as int,
                    ).push(cs@[i as int]));
                    i += 1;
                }
                assert(rest@ =~= cs@.skip(start as int));
                let pieces = split_on(rest.as_str(), ' ');
                proof {
                    crate::text::lemma_split_nonempty(rest@, ' ');
                }
                Some(pieces[0].clone())
            },
            None => None,
        }
    }
}

} // verus!

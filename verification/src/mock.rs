//! Mocking case: each character of a text in upper or lower case as a coin
//! decides.

use vstd::prelude::*;
use crate::text::chars_of;

verus! {

/// What std's `char::to_uppercase` yields for `c`, as a string.
pub uninterp spec fn uppercased_char(c: char) -> Seq<char>;

/// What std's `char::to_lowercase` yields for `c`, as a string.
pub uninterp spec fn lowercased_char(c: char) -> Seq<char>;

/// Calls std's `char::to_uppercase` and collects it into a string; the
/// contract names the result `uppercased_char` and states nothing of the
/// Unicode mapping.
#[verifier::external_body]
pub(crate) fn upper_text(c: char) -> (r: String)
    ensures
        r@ == uppercased_char(c),
{
    c.to_uppercase().to_string()
}

/// Calls std's `char::to_lowercase` and collects it into a string; the
/// contract names the result `lowercased_char` and states nothing of the
/// Unicode mapping.
#[verifier::external_body]
pub(crate) fn lower_text(c: char) -> (r: String)
    ensures
        r@ == lowercased_char(c),
{
    c.to_lowercase().to_string()
}

/// Calls `rand::random::<bool>()`, a fair coin from the thread's random
/// generator; nothing is stated of the outcome.
#[verifier::external_body]
pub(crate) fn coin_flip() -> (r: bool) {
    rand::random::<bool>()
}

/// `text` with character `i` in upper case where `coins[i]` holds and in
/// lower case otherwise.
pub open spec fn mock_spec(text: Seq<char>, coins: Seq<bool>) -> Seq<char>
    decreases text.len(),
{
    if text.len() == 0 {
        seq![]
    } else {
        mock_spec(text.drop_last(), coins.take(text.len() - 1)) + if coins[text.len() - 1] {
            uppercased_char(text.last())
        } else {
            lowercased_char(text.last())
        }
    }
}

/// `text` in the case that each coin gives, one coin per character.
pub fn mock_with(text: &str, coins: &Vec<bool>) -> (r: String)
    requires
        coins.len() == text@.len(),
    ensures
        r@ == mock_spec(text@, coins@),
{
    let cs = chars_of(text);
    let mut out = String::new();
    let mut i: usize = 0;
    assert(cs@.take(0) =~= Seq::<char>::empty());
    while i < cs.len()
        invariant
            cs@ == text@,
            coins.len() == cs.len(),
            i <= cs.len(),
            out@ == mock_spec(cs@.take(i as int), coins@.take(i as int)),
        decreases cs.len() - i,
    {
        let part = if coins[i] {
            upper_text(cs[i])
        } else {
            lower_text(cs[i])
        };
        out.append(part.as_str());
        proof {
            let t = cs@.take(i + 1);
            assert(t.drop_last() =~= cs@.take(i as int));
            assert(coins@.take(i + 1).take(i as int) =~= coins@.take(i as int));
        }
        i += 1;
    }
    assert(cs@.take(cs.len() as int) =~= cs@);
    assert(coins@.take(cs.len() as int) =~= coins@);
    out
}

/// `text` with each character in upper or lower case at random.
pub fn mock(text: &str) -> (r: String)
    ensures
        exists|coins: Seq<bool>| coins.len() == text@.len() && r@ == mock_spec(text@, coins),
{
    let n = text.unicode_len();
    let mut coins: Vec<bool> = Vec::new();
    while coins.len() < n
        invariant
            coins.len() <= n,
        decreases n - coins.len(),
    {
        coins.push(coin_flip());
    }
    let r = mock_with(text, &coins);
    assert(coins@.len() == text@.len() && r@ == mock_spec(text@, coins@));
    r
}

} // verus!

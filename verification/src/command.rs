//! Reading a command out of a message, choosing the plugin that handles
//! it, and the text of the answer.

use vstd::prelude::*;
use crate::text::{chars_of, eq_str, push_char, split_on, split_spec, views, words, words_spec};
use crate::settings::{lowercase_of, to_lowercase};

verus! {

/// A command read from a message: the word after the prefix, and the
/// words after the first.
pub struct Command {
    pub ident: String,
    pub arguments: Vec<String>,
}

/// The number of characters of the message compared with the prefix: as
/// many as the prefix has bytes in UTF-8.
pub open spec fn prefix_width(catalyst: &str) -> nat {
    catalyst.len() as nat
}

/// The first `n` characters of `s`, or all of them when it is shorter.
pub open spec fn take_upto(s: Seq<char>, n: nat) -> Seq<char> {
    if s.len() <= n {
        s
    } else {
        s.take(n as int)
    }
}

/// `s` without its first `n` characters, or empty when it is shorter.
pub open spec fn skip_upto(s: Seq<char>, n: nat) -> Seq<char> {
    if s.len() <= n {
        seq![]
    } else {
        s.skip(n as int)
    }
}

/// The words of a sequence after the first.
pub open spec fn after_first(ws: Seq<Seq<char>>) -> Seq<Seq<char>> {
    if ws.len() == 0 {
        seq![]
    } else {
        ws.drop_first()
    }
}

/// The command in `content` when it starts with the prefix `catalyst`:
/// the word right after the prefix, up to the first space, and the
/// white-space separated words of the message after the first.
pub open spec fn command_spec(content: Seq<char>, catalyst: &str) -> Option<(Seq<char>, Seq<Seq<char>>)> {
    let n = prefix_width(catalyst);
    if take_upto(content, n) == catalyst@ {
        Some((split_spec(skip_upto(content, n), ' ')[0], after_first(words_spec(content))))
    } else {
        None
    }
}

/// The first of the plugins, by their alias lists, that has `key` among its
/// aliases.
pub open spec fn first_plugin(aliases: Seq<Seq<Seq<char>>>, key: Seq<char>) -> Option<int>
    decreases aliases.len(),
{
    if aliases.len() == 0 {
        None
    } else if aliases.last().contains(key) {
        match first_plugin(aliases.drop_last(), key) {
            Some(i) => Some(i),
            None => Some(aliases.len() - 1),
        }
    } else {
        first_plugin(aliases.drop_last(), key)
    }
}

/// The marker in front of answers when marking is on.
pub open spec fn marker(should_mark: bool) -> Seq<char> {
    if should_mark {
        "`\u{25ba}`"@
    } else {
        ""@
    }
}

/// Reads a command out of a message that starts with `catalyst`.
pub fn parse_command(content: &str, catalyst: &str) -> (r: Option<Command>)
    ensures
        match command_spec(content@, catalyst) {
            Some((ident, arguments)) => r matches Some(c) && c.ident@ == ident && views(
                c.arguments@,
            ) == arguments,
            None => r is None,
        },
{
    let n = catalyst.len();
    let cs = chars_of(content);
    let m = if cs.len() <= n {
        cs.len()
    } else {
        n
    };
    let mut head = String::new();
    let mut i: usize = 0;
    while i < m
        invariant
            m <= cs.len(),
            i <= m,
            head@ == cs@.take(i as int),
        decreases m - i,
    {
        push_char(&mut head, cs[i]);
        assert(cs@.take(i + 1) =~= cs@.take(i as int).push(cs@[i as int]));
        i += 1;
    }
    assert(head@ =~= take_upto(content@, prefix_width(catalyst)));
    if !eq_str(head.as_str(), catalyst) {
        return None;
    }
    let mut rest = String::new();
    let mut j = m;
    while j < cs.len()
        invariant
            m <= j <= cs.len(),
            rest@ == cs@.subrange(m as int, j as int),
        decreases cs.len() - j,
    {
        push_char(&mut rest, cs[j]);
        assert(cs@.subrange(m as int, j + 1) =~= cs@.subrange(m as int, j as int).push(
            cs@[j as int],
        ));
        j += 1;
    }
    assert(rest@ =~= skip_upto(content@, prefix_width(catalyst)));
    let pieces = split_on(rest.as_str(), ' ');
    proof {
        crate::text::lemma_split_nonempty(rest@, ' ');
    }
    let ident = pieces[0].clone();
    let ws = words(content);
    let mut arguments: Vec<String> = Vec::new();
    let mut k: usize = 1;
    if ws.len() == 0 {
        k = 0;
    }
    assert(views(arguments@) =~= views(ws@).subrange(k as int, k as int));
    while k < ws.len()
        invariant
            ws.len() > 0 ==> 1 <= k,
            ws.len() == 0 ==> k == 0,
            k <= ws.len(),
            views(arguments@) == views(ws@).subrange(if ws.len() == 0 { 0 } else { 1 }, k as int),
        decreases ws.len() - k,
    {
        let ghost before = views(arguments@);
        arguments.push(ws[k].clone());
        assert(views(arguments@) =~= before.push(ws@[k as int]@));
        assert(views(ws@).subrange(1, k + 1) =~= views(ws@).subrange(1, k as int).push(
            ws@[k as int]@,
        ));
        k += 1;
    }
    assert(views(arguments@) =~= after_first(words_spec(content@)));
    Some(Command { ident, arguments })
}

/// Whether an alias list holds `key`.
fn has_alias(list: &Vec<String>, key: &str) -> (r: bool)
    ensures
        r == views(list@).contains(key@),
{
    let mut i: usize = 0;
    while i < list.len()
        invariant
            i <= list.len(),
            forall|j: int| 0 <= j < i ==> list@[j]@ != key@,
        decreases list.len() - i,
    {
        if eq_str(list[i].as_str(), key) {
            assert(views(list@)[i as int] == key@);
            return true;
        }
        i += 1;
    }
    assert forall|j: int| 0 <= j < views(list@).len() implies views(list@)[j] != key@ by {
        assert(views(list@)[j] == list@[j]@);
    }
    false
}

/// The plain values of a list of alias lists.
pub open spec fn alias_lists(v: Seq<Vec<String>>) -> Seq<Seq<Seq<char>>> {
    v.map_values(|l: Vec<String>| views(l@))
}

/// Whether no alias list before `i` holds `key`.
proof fn lemma_first_plugin_prefix(aliases: Seq<Seq<Seq<char>>>, key: Seq<char>, i: int)
    requires
        0 <= i < aliases.len(),
        forall|j: int| 0 <= j < i ==> !aliases[j].contains(key),
    ensures
        first_plugin(aliases.take(i), key) is None,
        aliases[i].contains(key) ==> first_plugin(aliases.take(i + 1), key) == Some(i),
        !aliases[i].contains(key) ==> first_plugin(aliases.take(i + 1), key) is None,
    decreases i,
{
    let t = aliases.take(i + 1);
    assert(t.drop_last() =~= aliases.take(i));
    if i > 0 {
        lemma_first_plugin_prefix(aliases, key, i - 1);
        assert(aliases.take(i).drop_last() =~= aliases.take(i - 1));
    }
}

/// The index of the first plugin that has the lowercase `ident` among its
/// aliases.
pub fn find_plugin(aliases: &Vec<Vec<String>>, ident: &str) -> (r: Option<usize>)
    ensures
        match first_plugin(alias_lists(aliases@), lowercase_of(ident@)) {
            Some(i) => r == Some(i as usize),
            None => r is None,
        },
{
    let key = to_lowercase(ident);
    let ghost al = alias_lists(aliases@);
    let mut i: usize = 0;
    while i < aliases.len()
        invariant
            al == alias_lists(aliases@),
            key@ == lowercase_of(ident@),
            i <= aliases.len(),
            forall|j: int| 0 <= j < i ==> !al[j].contains(key@),
        decreases aliases.len() - i,
    {
        if has_alias(&aliases[i], key.as_str()) {
            proof {
                lemma_first_plugin_prefix(al, key@, i as int);
                lemma_first_plugin_extend(al, key@, i + 1);
            }
            return Some(i);
        }
        i += 1;
    }
    proof {
        if aliases.len() > 0 {
            lemma_first_plugin_prefix(al, key@, aliases.len() - 1);
            assert(al.take(aliases.len() as int) =~= al);
        } else {
            assert(al.len() == 0);
        }
    }
    None
}

/// A plugin found in a prefix of the list is the one found in the whole
/// list.
proof fn lemma_first_plugin_extend(aliases: Seq<Seq<Seq<char>>>, key: Seq<char>, n: int)
    requires
        0 <= n <= aliases.len(),
        first_plugin(aliases.take(n), key) is Some,
    ensures
        first_plugin(aliases, key) == first_plugin(aliases.take(n), key),
    decreases aliases.len() - n,
{
    if n < aliases.len() {
        let t = aliases.take(n + 1);
        assert(t.drop_last() =~= aliases.take(n));
        lemma_first_plugin_extend(aliases, key, n + 1);
    } else {
        assert(aliases.take(n) =~= aliases);
    }
}

/// The message to send for a plugin's answer: nothing for an empty answer,
/// else the answer after the marker and a space.
pub fn reply_text(should_mark: bool, result: &str) -> (r: Option<String>)
    ensures
        result@.len() == 0 ==> r is None,
        result@.len() > 0 ==> (r matches Some(t) && t@ == marker(should_mark) + " "@ + result@),
{
    if result.unicode_len() == 0 {
        return None;
    }
    let mut out = if should_mark {
        String::from_str("`\u{25ba}`")
    } else {
        String::from_str("")
    };
    out.append(" ");
    out.append(result);
    Some(out)
}

} // verus!

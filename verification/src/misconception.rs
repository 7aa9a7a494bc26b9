//! The table of commonly mistaken words and the rewriting of a message
//! with it.

use vstd::prelude::*;
use crate::text::{eq_str, views, join, join_spec, split_on, split_spec};
use crate::pattern::{split_by, split_pattern, lines, lines_spec};
use crate::settings::{lowercase_of, to_lowercase};

verus! {

/// An entry of the table: the words that are replaced, and their
/// replacement.
pub type EntryView = (Seq<Seq<char>>, Seq<char>);

/// The position of the last entry of `t` whose word list is `k`, or -1.
pub open spec fn last_key_index(t: Seq<EntryView>, k: Seq<Seq<char>>) -> int
    decreases t.len(),
{
    if t.len() == 0 {
        -1
    } else if t.last().0 == k {
        t.len() - 1
    } else {
        last_key_index(t.drop_last(), k)
    }
}

/// `t` with the replacement for the word list `k` set to `v`, as inserting
/// into a map does: an existing entry for `k` keeps its place, a new one
/// goes last.
pub open spec fn insert_spec(t: Seq<EntryView>, k: Seq<Seq<char>>, v: Seq<char>) -> Seq<EntryView> {
    let j = last_key_index(t, k);
    if j >= 0 {
        t.update(j, (k, v))
    } else {
        t.push((k, v))
    }
}

/// No word list occurs twice in `t`.
pub open spec fn unique_keys(t: Seq<EntryView>) -> bool {
    forall|i: int, j: int| 0 <= i < j < t.len() ==> t[i].0 != t[j].0
}

/// The replacement of the first entry of `t` whose word list holds `w`.
pub open spec fn first_match(t: Seq<EntryView>, w: Seq<char>) -> Option<Seq<char>>
    decreases t.len(),
{
    if t.len() == 0 {
        None
    } else if t[0].0.contains(w) {
        Some(t[0].1)
    } else {
        first_match(t.drop_first(), w)
    }
}

/// A word as the rewriting leaves it: its replacement if the table has
/// one, else the word itself.
pub open spec fn replace_word(t: Seq<EntryView>, w: Seq<char>) -> Seq<char> {
    match first_match(t, w) {
        Some(v) => v,
        None => w,
    }
}

/// `text` with each space-separated word replaced by `replace_word`.
pub open spec fn misconception_spec(t: Seq<EntryView>, text: Seq<char>) -> Seq<char> {
    join_spec(split_spec(text, ' ').map_values(|w: Seq<char>| replace_word(t, w)), " "@)
}

/// Whether the word list `ws` has the word `w` among its words.
pub open spec fn lists_word(ws: Seq<Seq<char>>, w: Seq<char>) -> bool {
    exists|j: int| 0 <= j < ws.len() && ws[j] == w
}

/// A word is replaced only by the entry of the first word list that has it
/// among its words: a replacement comes from an entry whose list holds the
/// word itself, no earlier list holds it, and a word that no list holds has
/// no replacement.
pub proof fn lemma_first_match_lists_word(t: Seq<EntryView>, w: Seq<char>)
    ensures
        first_match(t, w) matches Some(v) ==> exists|i: int| 0 <= i < t.len() && t[i].1 == v
            && lists_word(t[i].0, w) && forall|k: int| 0 <= k < i ==> !lists_word(
            #[trigger] t[k].0,
            w,
        ),
        first_match(t, w) is None ==> forall|i: int| 0 <= i < t.len() ==> !lists_word(#[trigger] t[i].0, w),
    decreases t.len(),
{
    if t.len() > 0 {
        let rest = t.drop_first();
        lemma_first_match_lists_word(rest, w);
        if t[0].0.contains(w) {
            let j = choose|j: int| 0 <= j < t[0].0.len() && t[0].0[j] == w;
            assert(lists_word(t[0].0, w));
        } else {
            assert(!lists_word(t[0].0, w)) by {
                if lists_word(t[0].0, w) {
                    let j = choose|j: int| 0 <= j < t[0].0.len() && t[0].0[j] == w;
                    assert(t[0].0.contains(w));
                }
            }
            if let Some(v) = first_match(t, w) {
                let i = choose|i: int| 0 <= i < rest.len() && rest[i].1 == v && lists_word(rest[i].0, w)
                    && forall|k: int| 0 <= k < i ==> !lists_word(#[trigger] rest[k].0, w);
                assert(t[i + 1] == rest[i]);
                assert forall|k: int| 0 <= k < i + 1 implies !lists_word(#[trigger] t[k].0, w) by {
                    if k > 0 {
                        assert(t[k] == rest[k - 1]);
                    }
                }
            } else {
                assert forall|i: int| 0 <= i < t.len() implies !lists_word(#[trigger] t[i].0, w) by {
                    if i > 0 {
                        assert(t[i] == rest[i - 1]);
                    }
                }
            }
        }
    }
}

/// A word that no list holds is left as it is by the rewriting.
pub proof fn lemma_unlisted_word_kept(t: Seq<EntryView>, w: Seq<char>)
    requires
        forall|i: int| 0 <= i < t.len() ==> !lists_word(#[trigger] t[i].0, w),
    ensures
        replace_word(t, w) == w,
{
    lemma_first_match_lists_word(t, w);
    if let Some(v) = first_match(t, w) {
        let i = choose|i: int| 0 <= i < t.len() && t[i].1 == v && lists_word(t[i].0, w)
            && forall|k: int| 0 <= k < i ==> !lists_word(#[trigger] t[k].0, w);
        assert(!lists_word(t[i].0, w));
    }
}

/// Whether a line of the word file has the `left->right` shape.
pub open spec fn well_formed_line(line: Seq<char>) -> bool {
    split_pattern(line, "->"@).len() >= 2
}

/// The entry of one line `left->w1, w2, ...`: the words after the arrow,
/// separated by `", "`, and the lowercase text before it.
pub open spec fn line_entry(line: Seq<char>) -> EntryView {
    let sides = split_pattern(line, "->"@);
    (split_pattern(sides[1], ", "@), lowercase_of(sides[0]))
}

/// The table that the lines give, each line inserted in turn.
pub open spec fn table_of_lines(ls: Seq<Seq<char>>) -> Seq<EntryView>
    decreases ls.len(),
{
    if ls.len() == 0 {
        seq![]
    } else {
        let e = line_entry(ls.last());
        insert_spec(table_of_lines(ls.drop_last()), e.0, e.1)
    }
}

/// Inserting keeps word lists unique.
pub proof fn lemma_insert_unique(t: Seq<EntryView>, k: Seq<Seq<char>>, v: Seq<char>)
    requires
        unique_keys(t),
    ensures
        unique_keys(insert_spec(t, k, v)),
{
    lemma_last_key_index_range(t, k);
    let j = last_key_index(t, k);
    if j < 0 {
        lemma_last_key_index_absent(t, k);
    }
}

/// `last_key_index` is -1 or the position of an entry for `k`.
pub proof fn lemma_last_key_index_range(t: Seq<EntryView>, k: Seq<Seq<char>>)
    ensures
        -1 <= last_key_index(t, k) < t.len(),
        last_key_index(t, k) >= 0 ==> t[last_key_index(t, k)].0 == k,
    decreases t.len(),
{
    if t.len() > 0 && t.last().0 != k {
        lemma_last_key_index_range(t.drop_last(), k);
    }
}

/// When `last_key_index` is -1 no entry is for `k`.
pub proof fn lemma_last_key_index_absent(t: Seq<EntryView>, k: Seq<Seq<char>>)
    requires
        last_key_index(t, k) < 0,
    ensures
        forall|i: int| 0 <= i < t.len() ==> t[i].0 != k,
    decreases t.len(),
{
    if t.len() > 0 {
        lemma_last_key_index_absent(t.drop_last(), k);
        assert forall|i: int| 0 <= i < t.len() implies t[i].0 != k by {
            if i < t.len() - 1 {
                assert(t.drop_last()[i] == t[i]);
            }
        }
    }
}

/// The word table is a map: no word list occurs twice.
pub proof fn lemma_table_unique(ls: Seq<Seq<char>>)
    ensures
        unique_keys(table_of_lines(ls)),
    decreases ls.len(),
{
    if ls.len() > 0 {
        lemma_table_unique(ls.drop_last());
        let e = line_entry(ls.last());
        lemma_insert_unique(table_of_lines(ls.drop_last()), e.0, e.1);
    }
}

/// Where no word of `text` has a replacement, rewriting gives `text` back.
pub proof fn lemma_misconception_identity(t: Seq<EntryView>, text: Seq<char>)
    requires
        forall|i: int| 0 <= i < split_spec(text, ' ').len() ==> first_match(t, #[trigger] split_spec(text, ' ')[i]) is None,
    ensures
        misconception_spec(t, text) == text,
{
    let ws = split_spec(text, ' ');
    assert forall|i: int| 0 <= i < ws.len() implies replace_word(t, ws[i]) == ws[i] by {
        assert(first_match(t, split_spec(text, ' ')[i]) is None);
    }
    assert(ws.map_values(|w: Seq<char>| replace_word(t, w)) =~= ws);
    crate::text::lemma_join_split(text, ' ');
    reveal_strlit(" ");
    assert(" "@ =~= seq![' ']);
}

/// The table of commonly mistaken words.
pub struct WordTable {
    keys: Vec<Vec<String>>,
    values: Vec<String>,
}

impl View for WordTable {
    type V = Seq<EntryView>;

    closed spec fn view(&self) -> Seq<EntryView> {
        Seq::new(self.keys.len() as nat, |i: int| (views(self.keys@[i]@), self.values@[i]@))
    }
}

/// Whether two word lists hold the same words.
fn same_words(a: &Vec<String>, b: &Vec<String>) -> (r: bool)
    ensures
        r == (views(a@) == views(b@)),
{
    if a.len() != b.len() {
        assert(views(a@).len() != views(b@).len());
        return false;
    }
    let mut i: usize = 0;
    while i < a.len()
        invariant
            a.len() == b.len(),
            i <= a.len(),
            forall|j: int| 0 <= j < i ==> a@[j]@ == b@[j]@,
        decreases a.len() - i,
    {
        if !eq_str(a[i].as_str(), b[i].as_str()) {
            assert(views(a@)[i as int] != views(b@)[i as int]);
            return false;
        }
        i += 1;
    }
    assert(views(a@) =~= views(b@));
    true
}

/// Whether a word list holds `w`.
fn holds_word(k: &Vec<String>, w: &str) -> (r: bool)
    ensures
        r == views(k@).contains(w@),
{
    let mut i: usize = 0;
    while i < k.len()
        invariant
            i <= k.len(),
            forall|j: int| 0 <= j < i ==> k@[j]@ != w@,
        decreases k.len() - i,
    {
        if eq_str(k[i].as_str(), w) {
            assert(views(k@)[i as int] == w@);
            return true;
        }
        i += 1;
    }
    assert forall|j: int| 0 <= j < views(k@).len() implies views(k@)[j] != w@ by {
        assert(views(k@)[j] == k@[j]@);
    }
    false
}

impl WordTable {
    /// The table's invariant: one replacement per word list, and no word
    /// list twice.
    pub closed spec fn wf(&self) -> bool {
        self.keys.len() == self.values.len() && unique_keys(self@)
    }

    /// An empty table.
    pub fn new() -> (r: Self)
        ensures
            r.wf(),
            r@ == Seq::<EntryView>::empty(),
    {
        let r = WordTable { keys: Vec::new(), values: Vec::new() };
        assert(r@ =~= Seq::<EntryView>::empty());
        r
    }

    /// Sets the replacement of the word list `key` to `value`.
    pub fn insert(&mut self, key: Vec<String>, value: String)
        requires
            old(self).wf(),
        ensures
            final(self).wf(),
            final(self)@ == insert_spec(old(self)@, views(key@), value@),
    {
        let ghost t = self@;
        let ghost k = views(key@);
        proof {
            lemma_insert_unique(t, k, value@);
        }
        let mut i = self.keys.len();
        assert(t.take(i as int) =~= t);
        while i > 0
            invariant
                self.wf(),
                self@ == t,
                t == old(self)@,
                k == views(key@),
                i <= self.keys.len(),
                forall|j: int| i <= j < t.len() ==> t[j].0 != k,
                last_key_index(t, k) == last_key_index(t.take(i as int), k),
            decreases i,
        {
            if same_words(&self.keys[i - 1], &key) {
                proof {
                    let tt = t.take(i as int);
                    assert(tt.last() == t[i - 1]);
                    assert(last_key_index(tt, k) == i - 1);
                }
                self.values.set(i - 1, value);
                assert(self@ =~= t.update(i - 1, (k, value@)));
                assert(insert_spec(t, k, value@) == t.update(i - 1, (k, value@)));
                return;
            }
            assert(t.take(i as int).drop_last() =~= t.take(i - 1));
            i -= 1;
        }
        assert(last_key_index(t.take(0), k) == -1);
        self.keys.push(key);
        self.values.push(value);
        assert(self@ =~= t.push((k, value@)));
    }

    /// The replacement of the first entry whose word list holds `word`.
    pub fn lookup(&self, word: &str) -> (r: Option<String>)
        requires
            self.wf(),
        ensures
            r matches Some(v) ==> first_match(self@, word@) == Some(v@),
            r is None ==> first_match(self@, word@) is None,
    {
        let ghost t = self@;
        let mut i: usize = 0;
        assert(t.skip(0) =~= t);
        while i < self.keys.len()
            invariant
                self.wf(),
                self@ == t,
                i <= self.keys.len(),
                first_match(t, word@) == first_match(t.skip(i as int), word@),
            decreases self.keys.len() - i,
        {
            let ghost rest = t.skip(i as int);
            assert(rest[0] == t[i as int]);
            assert(rest.drop_first() =~= t.skip(i + 1));
            if holds_word(&self.keys[i], word) {
                return Some(self.values[i].clone());
            }
            i += 1;
        }
        None
    }
}

/// Reads the word table from the text of the word file: one entry per line
/// `left->w1, w2, ...`, later lines overriding earlier ones with the same
/// word list.
pub fn load_words(content: &str) -> (r: WordTable)
    requires
        forall|i: int| 0 <= i < lines_spec(content@).len() ==> well_formed_line(#[trigger] lines_spec(content@)[i]),
    ensures
        r.wf(),
        r@ == table_of_lines(lines_spec(content@)),
{
    let ls = lines(content);
    let ghost lv = lines_spec(content@);
    let mut table = WordTable::new();
    let mut i: usize = 0;
    assert(lv.take(0) =~= Seq::<Seq<char>>::empty());
    while i < ls.len()
        invariant
            views(ls@) == lv,
            lv == lines_spec(content@),
            forall|j: int| 0 <= j < lv.len() ==> well_formed_line(#[trigger] lv[j]),
            i <= ls.len(),
            table.wf(),
            table@ == table_of_lines(lv.take(i as int)),
        decreases ls.len() - i,
    {
        assert(lv[i as int] == ls@[i as int]@);
        assert(well_formed_line(lv[i as int]));
        proof {
            reveal_strlit("->");
            reveal_strlit(", ");
        }
        let sides = split_by(ls[i].as_str(), "->");
        let left = to_lowercase(sides[0].as_str());
        let right = split_by(sides[1].as_str(), ", ");
        table.insert(right, left);
        assert(lv.take(i + 1).drop_last() =~= lv.take(i as int));
        i += 1;
    }
    assert(lv.take(ls.len() as int) =~= lv);
    table
}

/// `text` with each space-separated word replaced by its entry in the
/// table.
pub fn to_misconception(table: &WordTable, text: &str) -> (r: String)
    requires
        table.wf(),
    ensures
        r@ == misconception_spec(table@, text@),
{
    let ws = split_on(text, ' ');
    let mut out: Vec<String> = Vec::new();
    let mut i: usize = 0;
    while i < ws.len()
        invariant
            table.wf(),
            i <= ws.len(),
            views(out@) == views(ws@).take(i as int).map_values(|w: Seq<char>| replace_word(table@, w)),
        decreases ws.len() - i,
    {
        let w = match table.lookup(ws[i].as_str()) {
            Some(v) => v,
            None => ws[i].clone(),
        };
        let ghost before = views(out@);
        out.push(w);
        assert(views(out@) =~= before.push(replace_word(table@, ws@[i as int]@)));
        assert(views(ws@).take(i + 1).map_values(|w: Seq<char>| replace_word(table@, w))
            =~= views(ws@).take(i as int).map_values(|w: Seq<char>| replace_word(table@, w)).push(
            replace_word(table@, ws@[i as int]@),
        ));
        i += 1;
    }
    assert(views(ws@).take(ws.len() as int) =~= views(ws@));
    join(&out, " ")
}

} // verus!

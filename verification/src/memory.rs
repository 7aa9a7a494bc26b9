//! The bot's memory of texts stored under keys: the rows it keeps, and the
//! text of the remember, forget, list and recall commands.

use vstd::prelude::*;
use crate::text::{eq_str, join_from, join_spec, views};
use crate::react::count_of;
use crate::plugins::{ForgetPlugin, OmnipotencePlugin, RecallPlugin, RememberPlugin};

verus! {

/// One row of the memory: a text stored under a key.
pub struct MemoryChunk {
    pub from: String,
    pub into: String,
}

impl View for MemoryChunk {
    type V = (Seq<char>, Seq<char>);

    open spec fn view(&self) -> (Seq<char>, Seq<char>) {
        (self.from@, self.into@)
    }
}

/// The plain values of a list of rows.
pub open spec fn chunk_views(v: Seq<MemoryChunk>) -> Seq<(Seq<char>, Seq<char>)> {
    v.map_values(|c: MemoryChunk| c@)
}

/// The text of the first row stored under `key`.
pub open spec fn first_with_key(rows: Seq<(Seq<char>, Seq<char>)>, key: Seq<char>) -> Option<(Seq<char>, Seq<char>)>
    decreases rows.len(),
{
    if rows.len() == 0 {
        None
    } else if rows[0].0 == key {
        Some(rows[0])
    } else {
        first_with_key(rows.drop_first(), key)
    }
}

/// The listing of the whole memory: each row as `key => text` on a line of
/// its own.
pub open spec fn listing_lines(rows: Seq<(Seq<char>, Seq<char>)>) -> Seq<char>
    decreases rows.len(),
{
    if rows.len() == 0 {
        seq![]
    } else {
        listing_lines(rows.drop_last()) + rows.last().0 + " => "@ + rows.last().1 + "\n"@
    }
}

/// The line that lists one row: its key, ` => `, its text and a line break.
pub open spec fn listing_line(row: (Seq<char>, Seq<char>)) -> Seq<char> {
    row.0 + " => "@ + row.1 + "\n"@
}

/// The listing of a non-empty memory ends with the line of its last row.
pub proof fn lemma_listing_last(rows: Seq<(Seq<char>, Seq<char>)>)
    requires
        rows.len() > 0,
    ensures
        listing_lines(rows) == listing_lines(rows.drop_last()) + listing_line(rows.last()),
{
    assert(listing_lines(rows) =~= listing_lines(rows.drop_last()) + listing_line(rows.last()));
}

/// The listing of two runs of rows is the listing of the first followed by
/// the listing of the second.
pub proof fn lemma_listing_concat(a: Seq<(Seq<char>, Seq<char>)>, b: Seq<(Seq<char>, Seq<char>)>)
    ensures
        listing_lines(a + b) == listing_lines(a) + listing_lines(b),
    decreases b.len(),
{
    if b.len() == 0 {
        assert(a + b =~= a);
        assert(listing_lines(a) + listing_lines(b) =~= listing_lines(a));
    } else {
        let ab = a + b;
        assert(ab.drop_last() =~= a + b.drop_last());
        assert(ab.last() == b.last());
        lemma_listing_concat(a, b.drop_last());
        lemma_listing_last(ab);
        lemma_listing_last(b);
        assert(listing_lines(ab) =~= listing_lines(a) + listing_lines(b));
    }
}

/// Every row is listed, in place and in order: the listing is the listing
/// of the rows before row `i`, then the line of row `i`, then the listing
/// of the rows after it. A memory of one row is listed as that row's line.
pub proof fn lemma_listing_row_in_place(rows: Seq<(Seq<char>, Seq<char>)>, i: int)
    requires
        0 <= i < rows.len(),
    ensures
        listing_lines(rows) == listing_lines(rows.take(i)) + listing_line(rows[i])
            + listing_lines(rows.skip(i + 1)),
        listing_lines(seq![rows[i]]) == listing_line(rows[i]),
{
    let one = seq![rows[i]];
    assert(one.drop_last() =~= Seq::<(Seq<char>, Seq<char>)>::empty());
    lemma_listing_last(one);
    assert(listing_lines(one) =~= listing_line(rows[i]));
    assert(rows =~= rows.take(i) + one + rows.skip(i + 1));
    lemma_listing_concat(rows.take(i) + one, rows.skip(i + 1));
    lemma_listing_concat(rows.take(i), one);
}

/// The listing is the lines of the rows, one per row in the rows' order,
/// written one after another.
pub proof fn lemma_listing_is_lines(rows: Seq<(Seq<char>, Seq<char>)>)
    ensures
        listing_lines(rows) == rows.map_values(|r: (Seq<char>, Seq<char>)| listing_line(r)).flatten(),
    decreases rows.len(),
{
    let ls = rows.map_values(|r: (Seq<char>, Seq<char>)| listing_line(r));
    if rows.len() == 0 {
        assert(ls =~= Seq::<Seq<char>>::empty());
    } else {
        lemma_listing_is_lines(rows.drop_last());
        lemma_listing_last(rows);
        assert(ls.drop_last() =~= rows.drop_last().map_values(
            |r: (Seq<char>, Seq<char>)| listing_line(r),
        ));
        ls.lemma_flatten_and_flatten_alt_are_equivalent();
        ls.drop_last().lemma_flatten_and_flatten_alt_are_equivalent();
    }
}

/// The occurrences of `c` in two texts written one after the other add up.
pub proof fn lemma_count_of_concat(a: Seq<char>, b: Seq<char>, c: char)
    ensures
        count_of(a + b, c) == count_of(a, c) + count_of(b, c),
    decreases b.len(),
{
    if b.len() == 0 {
        assert(a + b =~= a);
    } else {
        assert((a + b).drop_last() =~= a + b.drop_last());
        lemma_count_of_concat(a, b.drop_last(), c);
    }
}

/// Whether no key or text of the rows holds a line break.
pub open spec fn single_line_rows(rows: Seq<(Seq<char>, Seq<char>)>) -> bool {
    forall|i: int| 0 <= i < rows.len() ==> !(#[trigger] rows[i]).0.contains('\n') && !rows[i].1.contains('\n')
}

/// A text without line breaks has none.
pub proof fn lemma_no_newline(s: Seq<char>)
    requires
        !s.contains('\n'),
    ensures
        count_of(s, '\n') == 0,
    decreases s.len(),
{
    if s.len() > 0 {
        assert(!s.drop_last().contains('\n')) by {
            if s.drop_last().contains('\n') {
                let j = choose|j: int| 0 <= j < s.drop_last().len() && s.drop_last()[j] == '\n';
                assert(s[j] == '\n');
            }
        }
        assert(s.last() != '\n') by {
            assert(s[s.len() - 1] == s.last());
        }
        lemma_no_newline(s.drop_last());
    }
}

/// Where no key or text holds a line break, the listing has exactly one
/// line per row: as many line breaks as rows.
pub proof fn lemma_listing_line_count(rows: Seq<(Seq<char>, Seq<char>)>)
    requires
        single_line_rows(rows),
    ensures
        count_of(listing_lines(rows), '\n') == rows.len(),
    decreases rows.len(),
{
    if rows.len() > 0 {
        let r = rows.last();
        assert(rows[rows.len() - 1] == r);
        assert(single_line_rows(rows.drop_last())) by {
            assert forall|i: int| 0 <= i < rows.drop_last().len() implies !(
            #[trigger] rows.drop_last()[i]).0.contains('\n') && !rows.drop_last()[i].1.contains('\n') by {
                assert(rows.drop_last()[i] == rows[i]);
            }
        }
        lemma_listing_line_count(rows.drop_last());
        lemma_listing_last(rows);
        reveal_strlit(" => ");
        reveal_strlit("\n");
        lemma_no_newline(r.0);
        lemma_no_newline(r.1);
        lemma_no_newline(" => "@);
        assert(count_of("\n"@, '\n') == 1) by {
            reveal_strlit("\n");
            assert("\n"@.len() == 1 && "\n"@[0] == '\n');
            assert("\n"@.drop_last() =~= Seq::<char>::empty());
            assert(count_of(Seq::<char>::empty(), '\n') == 0);
        }
        lemma_count_of_concat(r.0, " => "@, '\n');
        lemma_count_of_concat(r.0 + " => "@, r.1, '\n');
        lemma_count_of_concat(r.0 + " => "@ + r.1, "\n"@, '\n');
        lemma_count_of_concat(listing_lines(rows.drop_last()), listing_line(r), '\n');
    }
}

/// No key is stored twice, as the memory table's primary key ensures.
pub open spec fn unique_rows(rows: Seq<(Seq<char>, Seq<char>)>) -> bool {
    forall|i: int, j: int| 0 <= i < j < rows.len() ==> rows[i].0 != rows[j].0
}

/// Recalling a key gives back the text remembered under it: among rows
/// with unique keys, the row stored under `key` is the one found.
pub proof fn lemma_recall_remembered(rows: Seq<(Seq<char>, Seq<char>)>, key: Seq<char>, text: Seq<char>)
    requires
        unique_rows(rows),
        rows.contains((key, text)),
    ensures
        first_with_key(rows, key) == Some((key, text)),
    decreases rows.len(),
{
    if rows[0].0 != key {
        let i = choose|i: int| 0 <= i < rows.len() && rows[i] == (key, text);
        assert(i > 0);
        assert(rows.drop_first()[i - 1] == (key, text));
        assert(unique_rows(rows.drop_first())) by {
            assert forall|a: int, b: int| 0 <= a < b < rows.len() - 1 implies rows.drop_first()[a].0
                != rows.drop_first()[b].0 by {
                assert(rows.drop_first()[a] == rows[a + 1]);
                assert(rows.drop_first()[b] == rows[b + 1]);
            }
        }
        lemma_recall_remembered(rows.drop_first(), key, text);
    } else {
        let i = choose|i: int| 0 <= i < rows.len() && rows[i] == (key, text);
        assert(i == 0);
    }
}

/// A key with no row is not found.
pub proof fn lemma_recall_forgotten(rows: Seq<(Seq<char>, Seq<char>)>, key: Seq<char>)
    requires
        forall|i: int| 0 <= i < rows.len() ==> rows[i].0 != key,
    ensures
        first_with_key(rows, key) is None,
    decreases rows.len(),
{
    if rows.len() > 0 {
        assert forall|i: int| 0 <= i < rows.len() - 1 implies rows.drop_first()[i].0 != key by {
            assert(rows.drop_first()[i] == rows[i + 1]);
        }
        lemma_recall_forgotten(rows.drop_first(), key);
    }
}

/// The row that the remember command stores for its arguments: the text
/// of all arguments after the first, joined by spaces, under the first.
pub open spec fn remembered_row(arguments: Seq<Seq<char>>) -> (Seq<char>, Seq<char>) {
    (arguments[0], join_spec(arguments.skip(1), " "@))
}

/// The answer of the recall command for `key` over the rows of the memory.
pub open spec fn recall_reply(rows: Seq<(Seq<char>, Seq<char>)>, key: Seq<char>) -> Seq<char> {
    match first_with_key(rows, key) {
        Some(row) => row.1,
        None => "Memory \""@ + key + "\" does not exist."@,
    }
}

/// The rows left after the forget command removes every row under `key`.
pub open spec fn without_key(rows: Seq<(Seq<char>, Seq<char>)>, key: Seq<char>) -> Seq<(Seq<char>, Seq<char>)>
    decreases rows.len(),
{
    if rows.len() == 0 {
        seq![]
    } else if rows.last().0 == key {
        without_key(rows.drop_last(), key)
    } else {
        without_key(rows.drop_last(), key).push(rows.last())
    }
}

/// No row is left under the removed key.
pub proof fn lemma_without_key(rows: Seq<(Seq<char>, Seq<char>)>, key: Seq<char>)
    ensures
        forall|i: int| 0 <= i < without_key(rows, key).len() ==> without_key(rows, key)[i].0 != key,
    decreases rows.len(),
{
    if rows.len() > 0 {
        lemma_without_key(rows.drop_last(), key);
        let prev = without_key(rows.drop_last(), key);
        if rows.last().0 != key {
            assert forall|i: int| 0 <= i < prev.push(rows.last()).len() implies prev.push(
                rows.last(),
            )[i].0 != key by {
                if i < prev.len() {
                    assert(prev.push(rows.last())[i] == prev[i]);
                }
            }
        }
    }
}

/// Remember, then recall: once the row that remember gives for
/// `arguments` is in the memory, whose keys are unique, recalling its key
/// answers with the remembered text.
pub proof fn lemma_remember_then_recall(arguments: Seq<Seq<char>>, rows: Seq<(Seq<char>, Seq<char>)>)
    requires
        arguments.len() >= 1,
        unique_rows(rows),
        rows.contains(remembered_row(arguments)),
    ensures
        recall_reply(rows, arguments[0]) == join_spec(arguments.skip(1), " "@),
{
    lemma_recall_remembered(rows, arguments[0], join_spec(arguments.skip(1), " "@));
}

/// Forget, then recall: once every row under `key` is removed, recalling
/// `key` answers that no such memory exists.
pub proof fn lemma_forget_then_recall(rows: Seq<(Seq<char>, Seq<char>)>, key: Seq<char>)
    ensures
        recall_reply(without_key(rows, key), key) == "Memory \""@ + key + "\" does not exist."@,
{
    lemma_without_key(rows, key);
    lemma_recall_forgotten(without_key(rows, key), key);
}

impl MemoryChunk {
    /// A row storing `into` under `from`.
    pub fn new(from: String, into: String) -> (r: MemoryChunk)
        ensures
            r@ == (from@, into@),
    {
        MemoryChunk { from, into }
    }
}

impl Clone for MemoryChunk {
    fn clone(&self) -> (r: Self)
        ensures
            r@ == self@,
    {
        MemoryChunk { from: self.from.clone(), into: self.into.clone() }
    }
}

/// The first row stored under `from`, as found among all rows.
pub fn fetch_memory(rows: &Vec<MemoryChunk>, from: &str) -> (r: Option<MemoryChunk>)
    ensures
        r matches Some(c) ==> first_with_key(chunk_views(rows@), from@) == Some(c@),
        r is None ==> first_with_key(chunk_views(rows@), from@) is None,
{
    let ghost all = chunk_views(rows@);
    let mut i: usize = 0;
    assert(all.skip(0) =~= all);
    while i < rows.len()
        invariant
            all == chunk_views(rows@),
            i <= rows.len(),
            first_with_key(all, from@) == first_with_key(all.skip(i as int), from@),
        decreases rows.len() - i,
    {
        let ghost rest = all.skip(i as int);
        assert(rest[0] == rows@[i as int]@);
        assert(rest.drop_first() =~= all.skip(i + 1));
        if eq_str(rows[i].from.as_str(), from) {
            return Some(rows[i].clone());
        }
        i += 1;
    }
    None
}

impl RememberPlugin {
    /// The row that the remember command stores: the text of all arguments
    /// after the first, joined by spaces, under the first argument.
    pub fn execute(&self, arguments: &Vec<String>) -> (r: MemoryChunk)
        requires
            arguments.len() >= 1,
        ensures
            r@ == remembered_row(views(arguments@)),
    {
        MemoryChunk::new(arguments[0].clone(), join_from(arguments, 1, " "))
    }
}

impl ForgetPlugin {
    /// The key whose rows the forget command removes: the first argument.
    pub fn execute(&self, arguments: &Vec<String>) -> (r: String)
        requires
            arguments.len() >= 1,
        ensures
            r@ == arguments@[0]@,
    {
        arguments[0].clone()
    }
}

impl OmnipotencePlugin {
    /// The listing of the whole memory, in a code block headed `Memory:`.
    pub fn execute(&self, rows: &Vec<MemoryChunk>) -> (r: String)
        ensures
            r@ == "```Memory:\n"@ + listing_lines(chunk_views(rows@)) + "```"@,
    {
        let mut data = String::new();
        let mut i: usize = 0;
        assert(chunk_views(rows@).take(0) =~= Seq::<(Seq<char>, Seq<char>)>::empty());
        while i < rows.len()
            invariant
                i <= rows.len(),
                data@ == listing_lines(chunk_views(rows@).take(i as int)),
            decreases rows.len() - i,
        {
            data.append(rows[i].from.as_str());
            data.append(" => ");
            data.append(rows[i].into.as_str());
            data.append("\n");
            let ghost t = chunk_views(rows@).take(i + 1);
            assert(t.drop_last() =~= chunk_views(rows@).take(i as int));
            assert(t.last() == rows@[i as int]@);
            i += 1;
        }
        assert(chunk_views(rows@).take(rows.len() as int) =~= chunk_views(rows@));
        let mut out = String::from_str("```Memory:\n");
        out.append(data.as_str());
        out.append("```");
        out
    }
}

impl RecallPlugin {
    /// The answer of the recall command: the text stored under the first
    /// argument, or a note that no such memory exists.
    pub fn execute(&self, arguments: &Vec<String>, rows: &Vec<MemoryChunk>) -> (r: String)
        requires
            arguments.len() >= 1,
        ensures
            r@ == recall_reply(chunk_views(rows@), arguments@[0]@),
    {
        let name = arguments[0].as_str();
        match fetch_memory(rows, name) {
            Some(chunk) => chunk.into,
            None => {
                let mut out = String::from_str("Memory \"");
                out.append(name);
                out.append("\" does not exist.");
                out
            },
        }
    }
}

} // verus!

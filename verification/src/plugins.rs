//! The built-in plugins: each one's aliases and the text it computes.

use vstd::prelude::*;
use crate::text::{chars_of, push_char, join, join_spec, views};
use crate::number::{bool_text, bool_to_text, decimal, decimal_text};
use crate::misconception::{misconception_spec, to_misconception, WordTable};
use crate::mock::{mock, mock_spec};

verus! {

/// The characters of each alias in a list of aliases.
pub open spec fn alias_views(v: Seq<&str>) -> Seq<Seq<char>> {
    v.map_values(|a: &str| a@)
}

/// Stores a text under a key in the bot's memory.
pub struct RememberPlugin;

impl RememberPlugin {
    /// The names that invoke this plugin.
    pub fn id(&self) -> (r: Vec<&'static str>)
        ensures
            alias_views(r@) == seq!["rem"@, "sa"@, "@"@],
    {
        let r = vec!["rem", "sa", "@"];
        assert(alias_views(r@) =~= seq!["rem"@, "sa"@, "@"@]);
        r
    }
}

/// Removes a key from the bot's memory.
pub struct ForgetPlugin;

impl ForgetPlugin {
    /// The names that invoke this plugin.
    pub fn id(&self) -> (r: Vec<&'static str>)
        ensures
            alias_views(r@) == seq!["#"@],
    {
        let r = vec!["#"];
        assert(alias_views(r@) =~= seq!["#"@]);
        r
    }
}

/// Lists the whole memory.
pub struct OmnipotencePlugin;

impl OmnipotencePlugin {
    /// The names that invoke this plugin.
    pub fn id(&self) -> (r: Vec<&'static str>)
        ensures
            alias_views(r@) == seq!["!!"@],
    {
        let r = vec!["!!"];
        assert(alias_views(r@) =~= seq!["!!"@]);
        r
    }
}

/// Answers with the text stored under a key.
pub struct RecallPlugin;

impl RecallPlugin {
    /// The names that invoke this plugin.
    pub fn id(&self) -> (r: Vec<&'static str>)
        ensures
            alias_views(r@) == seq!["rec"@, "!"@],
    {
        let r = vec!["rec", "!"];
        assert(alias_views(r@) =~= seq!["rec"@, "!"@]);
        r
    }
}

/// Rewrites the last message with commonly mistaken words.
pub struct MisconceptionPlugin;

impl MisconceptionPlugin {
    /// The names that invoke this plugin.
    pub fn id(&self) -> (r: Vec<&'static str>)
        ensures
            alias_views(r@) == seq!["misconcept"@, "uhm"@],
    {
        let r = vec!["misconcept", "uhm"];
        assert(alias_views(r@) =~= seq!["misconcept"@, "uhm"@]);
        r
    }
}

/// Deletes the user's most recent messages.
pub struct PurgePlugin;

impl PurgePlugin {
    /// The names that invoke this plugin.
    pub fn id(&self) -> (r: Vec<&'static str>)
        ensures
            alias_views(r@) == seq!["purge"@, "clear"@],
    {
        let r = vec!["purge", "clear"];
        assert(alias_views(r@) =~= seq!["purge"@, "clear"@]);
        r
    }
}

/// Lays a text out as a square of characters.
pub struct ShillPlugin;

impl ShillPlugin {
    /// The names that invoke this plugin.
    pub fn id(&self) -> (r: Vec<&'static str>)
        ensures
            alias_views(r@) == seq!["shill"@, "box"@],
    {
        let r = vec!["shill", "box"];
        assert(alias_views(r@) =~= seq!["shill"@, "box"@]);
        r
    }
}

/// Reads and changes the bot's settings.
pub struct SettingsPlugin;

impl SettingsPlugin {
    /// The names that invoke this plugin.
    pub fn id(&self) -> (r: Vec<&'static str>)
        ensures
            alias_views(r@) == seq!["settings"@, "edit"@],
    {
        let r = vec!["settings", "edit"];
        assert(alias_views(r@) =~= seq!["settings"@, "edit"@]);
        r
    }
}

/// Evaluates an arithmetic expression.
pub struct EvalPlugin;

impl EvalPlugin {
    /// The names that invoke this plugin.
    pub fn id(&self) -> (r: Vec<&'static str>)
        ensures
            alias_views(r@) == seq![";"@, "e"@, "eval"@],
    {
        let r = vec![";", "e", "eval"];
        assert(alias_views(r@) =~= seq![";"@, "e"@, "eval"@]);
        r
    }
}

/// Describes the first mentioned user.
pub struct UserInfoPlugin;

impl UserInfoPlugin {
    /// The names that invoke this plugin.
    pub fn id(&self) -> (r: Vec<&'static str>)
        ensures
            alias_views(r@) == seq!["dox"@, "whois"@, "usr"@],
    {
        let r = vec!["dox", "whois", "usr"];
        assert(alias_views(r@) =~= seq!["dox"@, "whois"@, "usr"@]);
        r
    }
}

/// Rewrites the last message in randomly mixed case.
pub struct MockPlugin;

impl MockPlugin {
    /// The names that invoke this plugin.
    pub fn id(&self) -> (r: Vec<&'static str>)
        ensures
            alias_views(r@) == seq!["mock"@, "mo"@],
    {
        let r = vec!["mock", "mo"];
        assert(alias_views(r@) =~= seq!["mock"@, "mo"@]);
        r
    }
}

/// Rewrites a text in a mathematical letter style.
pub struct TextTransformPlugin;

impl TextTransformPlugin {
    /// The names that invoke this plugin.
    pub fn id(&self) -> (r: Vec<&'static str>)
        ensures
            alias_views(r@) == seq!["transf"@, "mt"@],
    {
        let r = vec!["transf", "mt"];
        assert(alias_views(r@) =~= seq!["transf"@, "mt"@]);
        r
    }
}

/// Describes the bot.
pub struct AboutPlugin;

impl AboutPlugin {
    /// The names that invoke this plugin.
    pub fn id(&self) -> (r: Vec<&'static str>)
        ensures
            alias_views(r@) == seq!["about"@, "bot"@],
    {
        let r = vec!["about", "bot"];
        assert(alias_views(r@) =~= seq!["about"@, "bot"@]);
        r
    }
}

/// Renders a LaTeX formula.
pub struct LatexPlugin;

impl LatexPlugin {
    /// The names that invoke this plugin.
    pub fn id(&self) -> (r: Vec<&'static str>)
        ensures
            alias_views(r@) == seq!["tex"@, "latex"@, ".."@],
    {
        let r = vec!["tex", "latex", ".."];
        assert(alias_views(r@) =~= seq!["tex"@, "latex"@, ".."@]);
        r
    }
}


/// The characters of `t` separated by spaces.
pub open spec fn spaced(t: Seq<char>) -> Seq<char>
    decreases t.len(),
{
    if t.len() <= 1 {
        t
    } else {
        spaced(t.drop_last()) + seq![' ', t.last()]
    }
}

/// Each character of `t` on a line of its own, each preceded by a line
/// feed.
pub open spec fn column(t: Seq<char>) -> Seq<char>
    decreases t.len(),
{
    if t.len() == 0 {
        seq![]
    } else {
        column(t.drop_last()) + seq!['\n', t.last()]
    }
}

/// The shill layout of `text`: its characters spaced out on the first line,
/// then all but the first again, one per line, in a code block.
pub open spec fn shill_spec(text: Seq<char>) -> Seq<char> {
    "```"@ + spaced(text) + column(text.drop_first()) + "```"@
}

impl ShillPlugin {
    /// The arguments joined by spaces and laid out by `shill_spec`, or
    /// `Blank Message` when the first argument is empty.
    pub fn execute(&self, arguments: &Vec<String>) -> (r: String)
        requires
            arguments.len() >= 1,
        ensures
            arguments@[0]@.len() > 0 ==> r@ == shill_spec(join_spec(views(arguments@), " "@)),
            arguments@[0]@.len() == 0 ==> r@ == "Blank Message"@,
    {
        if arguments[0].unicode_len() > 0 {
            let text = join(arguments, " ");
            let cs = chars_of(text.as_str());
            proof {
                crate::text::lemma_join_len_first(views(arguments@), " "@);
            }
            assert(cs.len() > 0);
            let mut base = String::new();
            let mut i: usize = 0;
            while i < cs.len()
                invariant
                    i <= cs.len(),
                    base@ == spaced(cs@.take(i as int)),
                decreases cs.len() - i,
            {
                if i > 0 {
                    push_char(&mut base, ' ');
                }
                push_char(&mut base, cs[i]);
                let ghost t = cs@.take(i + 1);
                assert(t.drop_last() =~= cs@.take(i as int));
                assert(i == 0 ==> t =~= seq![cs@[0]]);
                i += 1;
            }
            assert(cs@.take(cs.len() as int) =~= cs@);
            let ghost rest = cs@.drop_first();
            let mut tail = String::new();
            let mut j: usize = 1;
            assert(rest.take(0) =~= Seq::<char>::empty());
            while j < cs.len()
                invariant
                    1 <= j <= cs.len(),
                    rest == cs@.drop_first(),
                    tail@ == column(rest.take(j - 1)),
                decreases cs.len() - j,
            {
                push_char(&mut tail, '\n');
                push_char(&mut tail, cs[j]);
                let ghost t = rest.take(j as int);
                assert(t.drop_last() =~= rest.take(j - 1));
                assert(t.last() == cs@[j as int]);
                j += 1;
            }
            assert(rest.take(cs.len() - 1) =~= rest);
            let mut out = String::from_str("```");
            out.append(base.as_str());
            out.append(tail.as_str());
            out.append("```");
            out
        } else {
            String::from_str("Blank Message")
        }
    }
}

/// What a command that rewrites the last message does with the new text.
pub enum Rewrite {
    /// The last message is the user's: edit it to this text.
    EditLast(String),
    /// The last message is someone else's: answer with this text.
    Reply(String),
}

/// The edit or answer of a rewrite.
pub open spec fn rewrite_spec(r: Rewrite, last_is_mine: bool, text: Seq<char>) -> bool {
    if last_is_mine {
        r matches Rewrite::EditLast(t) && t@ == text
    } else {
        r matches Rewrite::Reply(t) && t@ == text
    }
}

impl MisconceptionPlugin {
    /// The rewrite of the last message with the table of mistaken words.
    pub fn execute(&self, table: &WordTable, last_is_mine: bool, last_content: &str) -> (r: Rewrite)
        requires
            table.wf(),
        ensures
            rewrite_spec(r, last_is_mine, misconception_spec(table@, last_content@)),
    {
        let text = to_misconception(table, last_content);
        if last_is_mine {
            Rewrite::EditLast(text)
        } else {
            Rewrite::Reply(text)
        }
    }
}

impl MockPlugin {
    /// The rewrite of the last message in random case.
    pub fn execute(&self, last_is_mine: bool, last_content: &str) -> (r: Rewrite)
        ensures
            exists|coins: Seq<bool>| #![trigger mock_spec(last_content@, coins)]
                coins.len() == last_content@.len() && rewrite_spec(
                    r,
                    last_is_mine,
                    mock_spec(last_content@, coins),
                ),
    {
        let text = mock(last_content);
        if last_is_mine {
            Rewrite::EditLast(text)
        } else {
            Rewrite::Reply(text)
        }
    }
}

/// A field of an embed: a title, a value and whether it sits inline.
pub struct EmbedField {
    pub name: String,
    pub value: String,
    pub inline: bool,
}

impl View for EmbedField {
    type V = (Seq<char>, Seq<char>, bool);

    open spec fn view(&self) -> (Seq<char>, Seq<char>, bool) {
        (self.name@, self.value@, self.inline)
    }
}

/// The plain values of a list of embed fields.
pub open spec fn field_views(v: Seq<EmbedField>) -> Seq<(Seq<char>, Seq<char>, bool)> {
    v.map_values(|f: EmbedField| f@)
}

/// An inline embed field.
fn inline_field(name: &str, value: String) -> (r: EmbedField)
    ensures
        r@ == (name@, value@, true),
{
    EmbedField { name: String::from_str(name), value, inline: true }
}

impl UserInfoPlugin {
    /// The colour of the user embed.
    pub fn color(&self) -> (r: u64)
        ensures
            r == 0xFFFFFF,
    {
        0xFFFFFF
    }

    /// The fields of the user embed: discriminator, whether the user is a
    /// bot, and id.
    pub fn fields(&self, discriminator: u16, bot: bool, id: u64) -> (r: Vec<EmbedField>)
        ensures
            field_views(r@) == seq![
                ("Discriminator"@, decimal(discriminator as nat), true),
                ("Bot?"@, bool_text(bot), true),
                ("Id"@, decimal(id as nat), true),
            ],
    {
        let mut r: Vec<EmbedField> = Vec::new();
        r.push(inline_field("Discriminator", decimal_text(discriminator as u64)));
        r.push(inline_field("Bot?", bool_to_text(bot)));
        r.push(inline_field("Id", decimal_text(id)));
        assert(field_views(r@) =~= seq![
            ("Discriminator"@, decimal(discriminator as nat), true),
            ("Bot?"@, bool_text(bot), true),
            ("Id"@, decimal(id as nat), true),
        ]);
        r
    }
}

impl AboutPlugin {
    /// The colour of the about embed.
    pub fn color(&self) -> (r: u64)
        ensures
            r == 0xFF3333,
    {
        0xFF3333
    }

    /// The fields of the about embed: the number of stored memory rows and
    /// the number of modules.
    pub fn fields(&self, memory_chunks: usize) -> (r: Vec<EmbedField>)
        ensures
            field_views(r@) == seq![
                ("Memory Chunks"@, decimal(memory_chunks as nat), true),
                ("Modules"@, "12"@, true),
            ],
    {
        let mut r: Vec<EmbedField> = Vec::new();
        r.push(inline_field("Memory Chunks", decimal_text(memory_chunks as u64)));
        r.push(inline_field("Modules", String::from_str("12")));
        assert(field_views(r@) =~= seq![
            ("Memory Chunks"@, decimal(memory_chunks as nat), true),
            ("Modules"@, "12"@, true),
        ]);
        r
    }
}


/// An embed message: colour, title, optional link, thumbnail and fields.
pub struct Embed {
    pub color: u64,
    pub title: String,
    pub url: Option<String>,
    pub thumbnail: String,
    pub fields: Vec<EmbedField>,
}

impl UserInfoPlugin {
    /// The user embed for a user with this name, avatar, discriminator, bot
    /// flag and id: white, titled with the name, the avatar as thumbnail,
    /// no link, and the fields of `fields`.
    pub fn embed(&self, name: &str, avatar_url: &str, discriminator: u16, bot: bool, id: u64) -> (r: Embed)
        ensures
            r.color == 0xFFFFFF,
            r.title@ == name@,
            r.url is None,
            r.thumbnail@ == avatar_url@,
            field_views(r.fields@) == seq![
                ("Discriminator"@, decimal(discriminator as nat), true),
                ("Bot?"@, bool_text(bot), true),
                ("Id"@, decimal(id as nat), true),
            ],
    {
        Embed {
            color: self.color(),
            title: String::from_str(name),
            url: None,
            thumbnail: String::from_str(avatar_url),
            fields: self.fields(discriminator, bot, id),
        }
    }
}

impl AboutPlugin {
    /// The about embed: red, titled `Misaki (Modular Selfbot)`, linking to
    /// the project's page, with the bot's picture and the fields of
    /// `fields`.
    pub fn embed(&self, memory_chunks: usize) -> (r: Embed)
        ensures
            r.color == 0xFF3333,
            r.title@ == "Misaki (Modular Selfbot)"@,
            r.url matches Some(u) && u@ == "https://github.com/hvze/misaki"@,
            r.thumbnail@ == "https://ill.fi/ncdt.png"@,
            field_views(r.fields@) == seq![
                ("Memory Chunks"@, decimal(memory_chunks as nat), true),
                ("Modules"@, "12"@, true),
            ],
    {
        Embed {
            color: self.color(),
            title: String::from_str("Misaki (Modular Selfbot)"),
            url: Some(String::from_str("https://github.com/hvze/misaki")),
            thumbnail: String::from_str("https://ill.fi/ncdt.png"),
            fields: self.fields(memory_chunks),
        }
    }
}

} // verus!

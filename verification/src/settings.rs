//! The bot's run-time settings and the name-based commands that read and
//! change them.

use vstd::prelude::*;
use crate::text::eq_str;

verus! {

/// What std's `str::to_lowercase` returns for the characters `s`: the
/// Unicode lowercase mapping of the whole string.
pub uninterp spec fn lowercased(s: Seq<char>) -> Seq<char>;

/// Whether every character of `s` is ASCII.
pub open spec fn is_ascii_text(s: Seq<char>) -> bool {
    forall|i: int| 0 <= i < s.len() ==> (#[trigger] s[i]) < '\u{80}'
}

/// The ASCII lowercase of a character: `A` to `Z` become `a` to `z`, any
/// other character stays.
pub open spec fn ascii_lower_char(c: char) -> char {
    if 'A' <= c <= 'Z' {
        ((c as int) + 32) as char
    } else {
        c
    }
}

/// The ASCII lowercase of each character of `s`.
pub open spec fn ascii_lowercase(s: Seq<char>) -> Seq<char> {
    s.map_values(|c: char| ascii_lower_char(c))
}

/// The lowercase of a name: for ASCII text its ASCII lowercase, otherwise
/// what `str::to_lowercase` gives.
pub open spec fn lowercase_of(s: Seq<char>) -> Seq<char> {
    if is_ascii_text(s) {
        ascii_lowercase(s)
    } else {
        lowercased(s)
    }
}

/// Calls std's `str::to_lowercase`. The contract names the result
/// `lowercased` of the argument's characters, and states that ASCII text
/// is lowercased letter by letter, `A` to `Z` becoming `a` to `z`, as the
/// Unicode lowercase mapping does for ASCII; the mapping of other
/// characters is not stated.
#[verifier::external_body]
pub(crate) fn to_lowercase(s: &str) -> (r: String)
    ensures
        r@ == lowercased(s@),
        is_ascii_text(s@) ==> r@ == ascii_lowercase(s@),
{
    s.to_lowercase()
}

/// The ASCII lowercase of ASCII text is ASCII text, and lowercasing it
/// again changes nothing.
pub proof fn lemma_lowercase_idempotent(s: Seq<char>)
    requires
        is_ascii_text(s),
    ensures
        is_ascii_text(lowercase_of(s)),
        lowercase_of(lowercase_of(s)) == lowercase_of(s),
{
    let l = ascii_lowercase(s);
    assert(is_ascii_text(l)) by {
        assert forall|i: int| 0 <= i < l.len() implies (#[trigger] l[i]) < '\u{80}' by {
            assert(s[i] < '\u{80}');
        }
    }
    assert(ascii_lowercase(l) =~= l);
}

/// The on/off settings, each chosen by one lowercase name.
#[derive(Clone, Copy, PartialEq, Eq, Debug)]
pub enum Flag {
    Embed,
    Mark,
    React,
    HyperShill,
    Uzi,
}

/// The on/off setting that a lowercase name selects.
pub open spec fn flag_of(key: Seq<char>) -> Option<Flag> {
    if key == "embed"@ {
        Some(Flag::Embed)
    } else if key == "mark"@ {
        Some(Flag::Mark)
    } else if key == "react"@ {
        Some(Flag::React)
    } else if key == "hypershill"@ {
        Some(Flag::HyperShill)
    } else if key == "uzi"@ {
        Some(Flag::Uzi)
    } else {
        None
    }
}

/// Whether a lowercase name selects an on/off setting.
pub open spec fn is_bool_key(key: Seq<char>) -> bool {
    key == "embed"@ || key == "mark"@ || key == "react"@ || key == "hypershill"@ || key
        == "uzi"@
}

/// Whether a lowercase name selects the numeric setting.
pub open spec fn is_number_key(key: Seq<char>) -> bool {
    key == "latex_size"@
}

/// Whether a lowercase name selects the text setting.
pub open spec fn is_string_key(key: Seq<char>) -> bool {
    key == "latex_col"@
}

/// The settings of one running bot.
pub struct MisakiSettings {
    pub embed_mode: bool,
    pub should_mark: bool,
    pub react_custom: bool,
    pub latex_color: String,
    pub latex_size: u32,
    pub hyper_shill: bool,
    pub uzi_mode: bool,
}

/// The settings as plain values.
pub struct SettingsModel {
    pub embed_mode: bool,
    pub should_mark: bool,
    pub react_custom: bool,
    pub latex_color: Seq<char>,
    pub latex_size: u32,
    pub hyper_shill: bool,
    pub uzi_mode: bool,
}

impl View for MisakiSettings {
    type V = SettingsModel;

    open spec fn view(&self) -> SettingsModel {
        SettingsModel {
            embed_mode: self.embed_mode,
            should_mark: self.should_mark,
            react_custom: self.react_custom,
            latex_color: self.latex_color@,
            latex_size: self.latex_size,
            hyper_shill: self.hyper_shill,
            uzi_mode: self.uzi_mode,
        }
    }
}

impl SettingsModel {
    /// The value of an on/off setting.
    pub open spec fn flag(self, f: Flag) -> bool {
        match f {
            Flag::Embed => self.embed_mode,
            Flag::Mark => self.should_mark,
            Flag::React => self.react_custom,
            Flag::HyperShill => self.hyper_shill,
            Flag::Uzi => self.uzi_mode,
        }
    }

    /// These settings with one on/off setting replaced by `v`.
    pub open spec fn with_flag(self, f: Flag, v: bool) -> SettingsModel {
        match f {
            Flag::Embed => SettingsModel { embed_mode: v, ..self },
            Flag::Mark => SettingsModel { should_mark: v, ..self },
            Flag::React => SettingsModel { react_custom: v, ..self },
            Flag::HyperShill => SettingsModel { hyper_shill: v, ..self },
            Flag::Uzi => SettingsModel { uzi_mode: v, ..self },
        }
    }

    /// The value that `set` stores: `to`, or the negation of the current
    /// value when flipping.
    pub open spec fn next_flag(self, f: Flag, to: bool, flip: bool) -> bool {
        if flip {
            !self.flag(f)
        } else {
            to
        }
    }
}

/// A name selects an on/off setting exactly when it has a flag.
pub proof fn lemma_bool_key_has_flag(key: Seq<char>)
    ensures
        is_bool_key(key) <==> flag_of(key) is Some,
{
}

/// No name selects two kinds of setting.
pub proof fn lemma_setting_kinds_disjoint(key: Seq<char>)
    ensures
        !(is_bool_key(key) && is_number_key(key)),
        !(is_bool_key(key) && is_string_key(key)),
        !(is_number_key(key) && is_string_key(key)),
{
    reveal_strlit("embed");
    reveal_strlit("mark");
    reveal_strlit("react");
    reveal_strlit("hypershill");
    reveal_strlit("uzi");
    reveal_strlit("latex_size");
    reveal_strlit("latex_col");
    if is_number_key(key) {
        assert(key.len() == 10 && key[0] == 'l');
    }
    if is_string_key(key) {
        assert(key.len() == 9);
    }
}

/// Each on/off setting name selects the field it names: setting it stores
/// the value in that field alone, and reading it reads that field.
pub proof fn lemma_names_select_their_fields(s: SettingsModel, v: bool)
    ensures
        flag_of("embed"@) == Some(Flag::Embed),
        s.with_flag(Flag::Embed, v) == (SettingsModel { embed_mode: v, ..s }),
        s.flag(Flag::Embed) == s.embed_mode,
        flag_of("mark"@) == Some(Flag::Mark),
        s.with_flag(Flag::Mark, v) == (SettingsModel { should_mark: v, ..s }),
        s.flag(Flag::Mark) == s.should_mark,
        flag_of("react"@) == Some(Flag::React),
        s.with_flag(Flag::React, v) == (SettingsModel { react_custom: v, ..s }),
        s.flag(Flag::React) == s.react_custom,
        flag_of("hypershill"@) == Some(Flag::HyperShill),
        s.with_flag(Flag::HyperShill, v) == (SettingsModel { hyper_shill: v, ..s }),
        s.flag(Flag::HyperShill) == s.hyper_shill,
        flag_of("uzi"@) == Some(Flag::Uzi),
        s.with_flag(Flag::Uzi, v) == (SettingsModel { uzi_mode: v, ..s }),
        s.flag(Flag::Uzi) == s.uzi_mode,
{
    reveal_strlit("embed");
    reveal_strlit("mark");
    reveal_strlit("react");
    reveal_strlit("hypershill");
    reveal_strlit("uzi");
    assert("mark"@.len() != "embed"@.len());
    assert("react"@[0] != "embed"@[0] && "react"@.len() != "mark"@.len());
    assert("hypershill"@.len() != "embed"@.len() && "hypershill"@.len() != "mark"@.len()
        && "hypershill"@.len() != "react"@.len());
    assert("uzi"@.len() != "embed"@.len() && "uzi"@.len() != "mark"@.len() && "uzi"@.len()
        != "react"@.len() && "uzi"@.len() != "hypershill"@.len());
}

/// The numeric and text settings are named `latex_size` and `latex_col`,
/// and no on/off setting has those names.
pub proof fn lemma_value_setting_names()
    ensures
        is_number_key("latex_size"@),
        is_string_key("latex_col"@),
        flag_of("latex_size"@) is None,
        flag_of("latex_col"@) is None,
{
    lemma_setting_kinds_disjoint("latex_size"@);
    lemma_setting_kinds_disjoint("latex_col"@);
}

/// After storing `v` in an on/off setting it reads `v`, and every other
/// setting keeps its value.
pub proof fn lemma_flag_read_after_write(s: SettingsModel, f: Flag, v: bool)
    ensures
        s.with_flag(f, v).flag(f) == v,
        forall|g: Flag| g != f ==> s.with_flag(f, v).flag(g) == s.flag(g),
        s.with_flag(f, v).latex_color == s.latex_color,
        s.with_flag(f, v).latex_size == s.latex_size,
{
}

/// Flipping an on/off setting twice restores the settings.
pub proof fn lemma_flip_twice(s: SettingsModel, f: Flag)
    ensures
        ({
            let once = s.with_flag(f, s.next_flag(f, false, true));
            once.with_flag(f, once.next_flag(f, false, true)) == s
        }),
{
}

/// Storing a value that a setting already holds changes nothing.
pub proof fn lemma_write_same(s: SettingsModel, f: Flag)
    ensures
        s.with_flag(f, s.flag(f)) == s,
{
}

impl Default for MisakiSettings {
    /// Every switch off, an empty colour and size 0.
    fn default() -> (r: Self)
        ensures
            !r.embed_mode,
            !r.should_mark,
            !r.react_custom,
            r.latex_color@ == Seq::<char>::empty(),
            r.latex_size == 0,
            !r.hyper_shill,
            !r.uzi_mode,
    {
        MisakiSettings::new()
    }
}

impl MisakiSettings {
    /// Every switch off, an empty colour and size 0.
    pub fn new() -> (r: Self)
        ensures
            !r.embed_mode,
            !r.should_mark,
            !r.react_custom,
            r.latex_color@ == Seq::<char>::empty(),
            r.latex_size == 0,
            !r.hyper_shill,
            !r.uzi_mode,
    {
        MisakiSettings {
            embed_mode: false,
            should_mark: false,
            react_custom: false,
            latex_color: String::new(),
            latex_size: 0,
            hyper_shill: false,
            uzi_mode: false,
        }
    }

    /// Whether `name`, in lowercase, is the numeric setting.
    pub fn is_number(&self, name: &str) -> (r: bool)
        ensures
            r == is_number_key(lowercase_of(name@)),
    {
        let key = to_lowercase(name);
        eq_str(key.as_str(), "latex_size")
    }

    /// Whether `name`, in lowercase, is the text setting.
    pub fn is_string(&self, name: &str) -> (r: bool)
        ensures
            r == is_string_key(lowercase_of(name@)),
    {
        let key = to_lowercase(name);
        eq_str(key.as_str(), "latex_col")
    }

    /// Whether `name`, in lowercase, is one of the on/off settings.
    pub fn is_bool(&self, name: &str) -> (r: bool)
        ensures
            r == is_bool_key(lowercase_of(name@)),
    {
        let key = to_lowercase(name);
        let k = key.as_str();
        eq_str(k, "embed") || eq_str(k, "mark") || eq_str(k, "react") || eq_str(k, "hypershill")
            || eq_str(k, "uzi")
    }

    /// Stores `to` in the numeric setting when `name` selects it, and
    /// returns the stored value; otherwise changes nothing.
    pub fn set_num(&mut self, name: &str, to: u32) -> (r: Option<u32>)
        ensures
            is_number_key(lowercase_of(name@)) ==> r == Some(to) && final(self)@ == (SettingsModel {
                latex_size: to,
                ..old(self)@
            }),
            !is_number_key(lowercase_of(name@)) ==> r is None && final(self)@ == old(self)@,
    {
        let key = to_lowercase(name);
        if eq_str(key.as_str(), "latex_size") {
            self.latex_size = to;
            Some(self.latex_size)
        } else {
            None
        }
    }

    /// Stores `to` in the text setting when `name` selects it, and returns
    /// a copy of the stored text; otherwise changes nothing.
    pub fn set_str(&mut self, name: &str, to: String) -> (r: Option<String>)
        ensures
            is_string_key(lowercase_of(name@)) ==> (r matches Some(s) && s@ == to@),
            is_string_key(lowercase_of(name@)) ==> final(self)@ == (SettingsModel {
                latex_color: to@,
                ..old(self)@
            }),
            !is_string_key(lowercase_of(name@)) ==> r is None && final(self)@ == old(self)@,
    {
        let key = to_lowercase(name);
        if eq_str(key.as_str(), "latex_col") {
            self.latex_color = to.clone();
            Some(self.latex_color.clone())
        } else {
            None
        }
    }

    /// Sets the on/off setting that `name` selects to `to`, or flips it when
    /// `flip` holds, and returns its new value; for any other name changes
    /// nothing and returns `None`.
    pub fn set(&mut self, name: &str, to: bool, flip: bool) -> (r: Option<bool>)
        ensures
            match flag_of(lowercase_of(name@)) {
                Some(f) => {
                    let v = old(self)@.next_flag(f, to, flip);
                    r == Some(v) && final(self)@ == old(self)@.with_flag(f, v)
                },
                None => r is None && final(self)@ == old(self)@,
            },
            lowercase_of(name@) == "embed"@ ==> final(self)@ == (SettingsModel {
                embed_mode: if flip { !old(self).embed_mode } else { to },
                ..old(self)@
            }) && r == Some(final(self).embed_mode),
            lowercase_of(name@) == "mark"@ ==> final(self)@ == (SettingsModel {
                should_mark: if flip { !old(self).should_mark } else { to },
                ..old(self)@
            }) && r == Some(final(self).should_mark),
            lowercase_of(name@) == "react"@ ==> final(self)@ == (SettingsModel {
                react_custom: if flip { !old(self).react_custom } else { to },
                ..old(self)@
            }) && r == Some(final(self).react_custom),
            lowercase_of(name@) == "hypershill"@ ==> final(self)@ == (SettingsModel {
                hyper_shill: if flip { !old(self).hyper_shill } else { to },
                ..old(self)@
            }) && r == Some(final(self).hyper_shill),
            lowercase_of(name@) == "uzi"@ ==> final(self)@ == (SettingsModel {
                uzi_mode: if flip { !old(self).uzi_mode } else { to },
                ..old(self)@
            }) && r == Some(final(self).uzi_mode),
    {
        proof {
            lemma_names_select_their_fields(self@, to);
        }
        let key = to_lowercase(name);
        let k = key.as_str();
        if eq_str(k, "embed") {
            self.embed_mode = if flip {
                !self.embed_mode
            } else {
                to
            };
            Some(self.embed_mode)
        } else if eq_str(k, "mark") {
            self.should_mark = if flip {
                !self.should_mark
            } else {
                to
            };
            Some(self.should_mark)
        } else if eq_str(k, "react") {
            self.react_custom = if flip {
                !self.react_custom
            } else {
                to
            };
            Some(self.react_custom)
        } else if eq_str(k, "hypershill") {
            self.hyper_shill = if flip {
                !self.hyper_shill
            } else {
                to
            };
            Some(self.hyper_shill)
        } else if eq_str(k, "uzi") {
            self.uzi_mode = if flip {
                !self.uzi_mode
            } else {
                to
            };
            Some(self.uzi_mode)
        } else {
            None
        }
    }
}

} // verus!

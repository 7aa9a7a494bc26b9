//! The settings command: shows, sets and flips settings by name.

use vstd::prelude::*;
use crate::number::{bool_text, bool_to_text, decimal, decimal_text, parse_bool, parse_bool_spec,
    parse_u32, parse_unsigned};
use crate::plugins::SettingsPlugin;
use crate::settings::{flag_of, is_bool_key, is_number_key, is_string_key, lowercase_of,
    to_lowercase, MisakiSettings, SettingsModel};

verus! {

/// What std's `Debug` formatting writes for the string `s`: the string in
/// double quotes, with special characters escaped.
pub uninterp spec fn debug_quoted(s: Seq<char>) -> Seq<char>;

/// Formats a string with `{:?}` through std's `Debug` for `str`; the
/// contract names the result `debug_quoted` of the characters and states
/// nothing of the escaping itself.
#[verifier::external_body]
pub(crate) fn debug_text(s: &str) -> (r: String)
    ensures
        r@ == debug_quoted(s@),
{
    format!("{:?}", s)
}

/// Whether the settings command can read its value: a value for an on/off
/// setting is `true` or `false`, one for the numeric setting is a `u32`.
pub open spec fn value_readable(setting: Seq<char>, value: Option<Seq<char>>) -> bool {
    let key = lowercase_of(setting);
    match value {
        Some(v) => if is_bool_key(key) {
            parse_bool_spec(v) is Some
        } else if is_number_key(key) {
            parse_unsigned(v, u32::MAX as nat) is Some
        } else {
            true
        },
        None => true,
    }
}

/// The reply and the new settings of the settings command for the
/// lowercase setting name `setting` and an optional value.
///
/// With a value: an on/off setting is set to the value read as a `bool`,
/// the numeric setting to the value read as a `u32`, and the text setting
/// to the value; the reply is `name = value`, the text in quotes. Any
/// other name changes nothing and gets an empty reply. Without a value an
/// on/off setting is flipped and reported; any other name is answered
/// that it cannot be flipped.
pub open spec fn settings_command(
    setting: Seq<char>,
    value: Option<Seq<char>>,
    s: SettingsModel,
) -> (Seq<char>, SettingsModel) {
    let key = lowercase_of(setting);
    match value {
        Some(v) => if is_bool_key(key) {
            let b = parse_bool_spec(v).unwrap();
            (setting + " = "@ + bool_text(b), s.with_flag(flag_of(key).unwrap(), b))
        } else if is_number_key(key) {
            let n = parse_unsigned(v, u32::MAX as nat).unwrap();
            (setting + " = "@ + decimal(n), SettingsModel { latex_size: n as u32, ..s })
        } else if is_string_key(key) {
            (setting + " = "@ + debug_quoted(v), SettingsModel { latex_color: v, ..s })
        } else {
            (seq![], s)
        },
        None => if is_bool_key(key) {
            let f = flag_of(key).unwrap();
            (setting + " = "@ + bool_text(!s.flag(f)), s.with_flag(f, !s.flag(f)))
        } else {
            (setting + " is not a flippable variable."@, s)
        },
    }
}

/// The setting name and the optional value of the command's arguments.
pub open spec fn command_parts(arguments: Seq<String>) -> (Seq<char>, Option<Seq<char>>) {
    (
        lowercase_of(arguments[0]@),
        if arguments.len() > 1 {
            Some(arguments[1]@)
        } else {
            None
        },
    )
}

/// `a` followed by `b` and `c`.
fn concat3(a: &str, b: &str, c: &str) -> (r: String)
    ensures
        r@ == a@ + b@ + c@,
{
    let mut out = String::from_str(a);
    out.append(b);
    out.append(c);
    out
}

impl SettingsPlugin {
    /// Runs the settings command on its arguments: the first names the
    /// setting, the optional second gives its value.
    pub fn execute(&self, arguments: &Vec<String>, settings: &mut MisakiSettings) -> (r: String)
        requires
            arguments.len() >= 1,
            value_readable(command_parts(arguments@).0, command_parts(arguments@).1),
        ensures
            (r@, final(settings)@) == settings_command(
                command_parts(arguments@).0,
                command_parts(arguments@).1,
                old(settings)@,
            ),
    {
        let setting = to_lowercase(arguments[0].as_str());
        let s = setting.as_str();
        proof {
            reveal_strlit(" = ");
        }
        if arguments.len() > 1 {
            let v = arguments[1].as_str();
            if settings.is_bool(s) {
                let b = match parse_bool(v) {
                    Some(b) => b,
                    None => {
                        assert(false);
                        false
                    },
                };
                let r = settings.set(s, b, false);
                match r {
                    Some(x) => concat3(s, " = ", bool_to_text(x).as_str()),
                    None => String::new(),
                }
            } else if settings.is_number(s) {
                let n = match parse_u32(v) {
                    Some(n) => n,
                    None => {
                        assert(false);
                        0
                    },
                };
                let r = settings.set_num(s, n);
                match r {
                    Some(x) => concat3(s, " = ", decimal_text(x as u64).as_str()),
                    None => String::new(),
                }
            } else {
                let r = settings.set_str(s, arguments[1].clone());
                match r {
                    Some(x) => concat3(s, " = ", debug_text(x.as_str()).as_str()),
                    None => String::new(),
                }
            }
        } else {
            if settings.is_bool(s) {
                let r = settings.set(s, false, true);
                match r {
                    Some(x) => concat3(s, " = ", bool_to_text(x).as_str()),
                    None => String::new(),
                }
            } else {
                let mut out = String::from_str(s);
                out.append(" is not a flippable variable.");
                out
            }
        }
    }

    /// Runs the settings command when its value can be read; `None`, with
    /// the settings unchanged, when the value for an on/off setting is not
    /// `true` or `false` or the value for the numeric setting is not a
    /// `u32`.
    pub fn try_execute(&self, arguments: &Vec<String>, settings: &mut MisakiSettings) -> (r: Option<String>)
        requires
            arguments.len() >= 1,
        ensures
            value_readable(command_parts(arguments@).0, command_parts(arguments@).1) ==> (r matches Some(t) && (t@, final(settings)@) == settings_command(
                command_parts(arguments@).0,
                command_parts(arguments@).1,
                old(settings)@,
            )),
            !value_readable(command_parts(arguments@).0, command_parts(arguments@).1) ==> r is None && final(settings)@ == old(settings)@,
    {
        let setting = to_lowercase(arguments[0].as_str());
        if arguments.len() > 1 {
            let v = arguments[1].as_str();
            if settings.is_bool(setting.as_str()) {
                if parse_bool(v).is_none() {
                    return None;
                }
            } else if settings.is_number(setting.as_str()) {
                if parse_u32(v).is_none() {
                    return None;
                }
            }
        }
        Some(self.execute(arguments, settings))
    }
}

} // verus!

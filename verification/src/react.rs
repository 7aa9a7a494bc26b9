//! Reactions that spell a text on the last message: with the custom
//! letter emoji of the bot's server, or with regional-indicator symbols.

use vstd::prelude::*;
use crate::text::{chars_of, push_char, join, join_spec, views};

verus! {

/// A reaction to add to a message.
pub enum Reaction {
    /// A custom emoji of the server, by name and id.
    Custom { name: String, id: u64 },
    /// A Unicode emoji.
    Unicode(String),
}

/// A reaction as plain values.
pub enum ReactionView {
    Custom { name: Seq<char>, id: u64 },
    Unicode(Seq<char>),
}

impl View for Reaction {
    type V = ReactionView;

    open spec fn view(&self) -> ReactionView {
        match self {
            Reaction::Custom { name, id } => ReactionView::Custom { name: name@, id: *id },
            Reaction::Unicode(s) => ReactionView::Unicode(s@),
        }
    }
}

/// The plain values of a list of reactions.
pub open spec fn reaction_views(v: Seq<Reaction>) -> Seq<ReactionView> {
    v.map_values(|r: Reaction| r@)
}

/// The custom emoji for the `count`-th occurrence of `c` in a text: the
/// server has one emoji per lowercase letter for the first occurrence, a
/// second one for the second, and three blank ones for spaces.
pub open spec fn custom_emoji_spec(c: char, count: nat) -> Option<(Seq<char>, u64)> {
    match c {
        ' ' => {
            if count == 1 {
                Some(("space_blank"@, 350213580651757579u64))
            } else if count == 2 {
                Some(("space_blank_1"@, 350213580827656202u64))
            } else if count == 3 {
                Some(("space_blank_4"@, 350213580970262528u64))
            } else {
                None
            }
        },
        'a' => {
            if count == 1 {
                Some(("cap_A"@, 350164697095340032u64))
            } else if count == 2 {
                Some(("cap_A_2"@, 350172373414051840u64))
            } else {
                None
            }
        },
        'b' => {
            if count == 1 {
                Some(("cap_B"@, 350164699595145216u64))
            } else if count == 2 {
                Some(("cap_B_2"@, 350172375154819073u64))
            } else {
                None
            }
        },
        'c' => {
            if count == 1 {
                Some(("cap_C"@, 350164703391121408u64))
            } else if count == 2 {
                Some(("cap_C_2"@, 350172376429887488u64))
            } else {
                None
            }
        },
        'd' => {
            if count == 1 {
                Some(("cap_D"@, 350164704234045442u64))
            } else if count == 2 {
                Some(("cap_D_2"@, 350172377193119746u64))
            } else {
                None
            }
        },
        'e' => {
            if count == 1 {
                Some(("cap_E"@, 350164704569851905u64))
            } else if count == 2 {
                Some(("cap_E_2"@, 350172377700761600u64))
            } else {
                None
            }
        },
        'f' => {
            if count == 1 {
                Some(("cap_F"@, 350164704855064577u64))
            } else if count == 2 {
                Some(("cap_F_2"@, 350172377684115456u64))
            } else {
                None
            }
        },
        'g' => {
            if count == 1 {
                Some(("cap_G"@, 350164705341341706u64))
            } else if count == 2 {
                Some(("cap_G_2"@, 350172377713475594u64))
            } else {
                None
            }
        },
        'h' => {
            if count == 1 {
                Some(("cap_H"@, 350164705555251200u64))
            } else if count == 2 {
                Some(("cap_H_2"@, 350172377843367936u64))
            } else {
                None
            }
        },
        'i' => {
            if count == 1 {
                Some(("cap_I"@, 350164705534541825u64))
            } else if count == 2 {
                Some(("cap_I_2"@, 350172377637715969u64))
            } else {
                None
            }
        },
        'j' => {
            if count == 1 {
                Some(("cap_J"@, 350164705974812672u64))
            } else if count == 2 {
                Some(("cap_J_2"@, 350172377709150210u64))
            } else {
                None
            }
        },
        'k' => {
            if count == 1 {
                Some(("cap_K"@, 350164705626685441u64))
            } else if count == 2 {
                Some(("cap_K_2"@, 350172377990299659u64))
            } else {
                None
            }
        },
        'l' => {
            if count == 1 {
                Some(("cap_L"@, 350164705966555136u64))
            } else if count == 2 {
                Some(("cap_L_2"@, 350172377893830658u64))
            } else {
                None
            }
        },
        'm' => {
            if count == 1 {
                Some(("cap_m"@, 350164705907703809u64))
            } else if count == 2 {
                Some(("cap_M_2"@, 350172377793036290u64))
            } else {
                None
            }
        },
        'n' => {
            if count == 1 {
                Some(("cap_N"@, 350164705794457601u64))
            } else if count == 2 {
                Some(("cap_N_2"@, 350172377998688258u64))
            } else {
                None
            }
        },
        'o' => {
            if count == 1 {
                Some(("cap_O"@, 350164706142453760u64))
            } else if count == 2 {
                Some(("cap_O_2"@, 350172378145488916u64))
            } else {
                None
            }
        },
        'p' => {
            if count == 1 {
                Some(("cap_P"@, 350164706075344896u64))
            } else if count == 2 {
                Some(("cap_P_2"@, 350172378212335616u64))
            } else {
                None
            }
        },
        'q' => {
            if count == 1 {
                Some(("cap_Q"@, 350164705895120906u64))
            } else if count == 2 {
                Some(("cap_Q_2"@, 350172378237763585u64))
            } else {
                None
            }
        },
        'r' => {
            if count == 1 {
                Some(("cap_R"@, 350164706197110784u64))
            } else if count == 2 {
                Some(("cap_R_2"@, 350172378749206538u64))
            } else {
                None
            }
        },
        's' => {
            if count == 1 {
                Some(("cap_S"@, 350164706033664000u64))
            } else if count == 2 {
                Some(("cap_S_2"@, 350172378472382466u64))
            } else {
                None
            }
        },
        't' => {
            if count == 1 {
                Some(("cap_T"@, 350164706075344906u64))
            } else if count == 2 {
                Some(("cap_T_2"@, 350172378518519812u64))
            } else {
                None
            }
        },
        'u' => {
            if count == 1 {
                Some(("cap_U"@, 350164706071150593u64))
            } else if count == 2 {
                Some(("cap_U_2"@, 350172378921304064u64))
            } else {
                None
            }
        },
        'v' => {
            if count == 1 {
                Some(("cap_V"@, 350164705811234817u64))
            } else if count == 2 {
                Some(("cap_V_2"@, 350172378913046538u64))
            } else {
                None
            }
        },
        'w' => {
            if count == 1 {
                Some(("cap_W"@, 350164705723023363u64))
            } else if count == 2 {
                Some(("cap_W_2"@, 350172379055521792u64))
            } else {
                None
            }
        },
        'x' => {
            if count == 1 {
                Some(("cap_X"@, 350164706092122122u64))
            } else if count == 2 {
                Some(("cap_X_2"@, 350172379038613514u64))
            } else {
                None
            }
        },
        'y' => {
            if count == 1 {
                Some(("cap_Y"@, 350164705979138051u64))
            } else if count == 2 {
                Some(("cap_Y_2"@, 350172378963378176u64))
            } else {
                None
            }
        },
        'z' => {
            if count == 1 {
                Some(("cap_Z"@, 350164706259894272u64))
            } else if count == 2 {
                Some(("cap_Z_2"@, 350172378799669251u64))
            } else {
                None
            }
        },
        _ => None,
    }
}

/// The custom emoji for the `count`-th occurrence of `c`.
pub fn custom_emoji(c: char, count: usize) -> (r: Option<(&'static str, u64)>)
    ensures
        r is None <==> custom_emoji_spec(c, count as nat) is None,
        r matches Some((name, id)) ==> custom_emoji_spec(c, count as nat) == Some((name@, id)),
{
    match c {
        ' ' => {
            if count == 1 {
                Some(("space_blank", 350213580651757579u64))
            } else if count == 2 {
                Some(("space_blank_1", 350213580827656202u64))
            } else if count == 3 {
                Some(("space_blank_4", 350213580970262528u64))
            } else {
                None
            }
        },
        'a' => {
            if count == 1 {
                Some(("cap_A", 350164697095340032u64))
            } else if count == 2 {
                Some(("cap_A_2", 350172373414051840u64))
            } else {
                None
            }
        },
        'b' => {
            if count == 1 {
                Some(("cap_B", 350164699595145216u64))
            } else if count == 2 {
                Some(("cap_B_2", 350172375154819073u64))
            } else {
                None
            }
        },
        'c' => {
            if count == 1 {
                Some(("cap_C", 350164703391121408u64))
            } else if count == 2 {
                Some(("cap_C_2", 350172376429887488u64))
            } else {
                None
            }
        },
        'd' => {
            if count == 1 {
                Some(("cap_D", 350164704234045442u64))
            } else if count == 2 {
                Some(("cap_D_2", 350172377193119746u64))
            } else {
                None
            }
        },
        'e' => {
            if count == 1 {
                Some(("cap_E", 350164704569851905u64))
            } else if count == 2 {
                Some(("cap_E_2", 350172377700761600u64))
            } else {
                None
            }
        },
        'f' => {
            if count == 1 {
                Some(("cap_F", 350164704855064577u64))
            } else if count == 2 {
                Some(("cap_F_2", 350172377684115456u64))
            } else {
                None
            }
        },
        'g' => {
            if count == 1 {
                Some(("cap_G", 350164705341341706u64))
            } else if count == 2 {
                Some(("cap_G_2", 350172377713475594u64))
            } else {
                None
            }
        },
        'h' => {
            if count == 1 {
                Some(("cap_H", 350164705555251200u64))
            } else if count == 2 {
                Some(("cap_H_2", 350172377843367936u64))
            } else {
                None
            }
        },
        'i' => {
            if count == 1 {
                Some(("cap_I", 350164705534541825u64))
            } else if count == 2 {
                Some(("cap_I_2", 350172377637715969u64))
            } else {
                None
            }
        },
        'j' => {
            if count == 1 {
                Some(("cap_J", 350164705974812672u64))
            } else if count == 2 {
                Some(("cap_J_2", 350172377709150210u64))
            } else {
                None
            }
        },
        'k' => {
            if count == 1 {
                Some(("cap_K", 350164705626685441u64))
            } else if count == 2 {
                Some(("cap_K_2", 350172377990299659u64))
            } else {
                None
            }
        },
        'l' => {
            if count == 1 {
                Some(("cap_L", 350164705966555136u64))
            } else if count == 2 {
                Some(("cap_L_2", 350172377893830658u64))
            } else {
                None
            }
        },
        'm' => {
            if count == 1 {
                Some(("cap_m", 350164705907703809u64))
            } else if count == 2 {
                Some(("cap_M_2", 350172377793036290u64))
            } else {
                None
            }
        },
        'n' => {
            if count == 1 {
                Some(("cap_N", 350164705794457601u64))
            } else if count == 2 {
                Some(("cap_N_2", 350172377998688258u64))
            } else {
                None
            }
        },
        'o' => {
            if count == 1 {
                Some(("cap_O", 350164706142453760u64))
            } else if count == 2 {
                Some(("cap_O_2", 350172378145488916u64))
            } else {
                None
            }
        },
        'p' => {
            if count == 1 {
                Some(("cap_P", 350164706075344896u64))
            } else if count == 2 {
                Some(("cap_P_2", 350172378212335616u64))
            } else {
                None
            }
        },
        'q' => {
            if count == 1 {
                Some(("cap_Q", 350164705895120906u64))
            } else if count == 2 {
                Some(("cap_Q_2", 350172378237763585u64))
            } else {
                None
            }
        },
        'r' => {
            if count == 1 {
                Some(("cap_R", 350164706197110784u64))
            } else if count == 2 {
                Some(("cap_R_2", 350172378749206538u64))
            } else {
                None
            }
        },
        's' => {
            if count == 1 {
                Some(("cap_S", 350164706033664000u64))
            } else if count == 2 {
                Some(("cap_S_2", 350172378472382466u64))
            } else {
                None
            }
        },
        't' => {
            if count == 1 {
                Some(("cap_T", 350164706075344906u64))
            } else if count == 2 {
                Some(("cap_T_2", 350172378518519812u64))
            } else {
                None
            }
        },
        'u' => {
            if count == 1 {
                Some(("cap_U", 350164706071150593u64))
            } else if count == 2 {
                Some(("cap_U_2", 350172378921304064u64))
            } else {
                None
            }
        },
        'v' => {
            if count == 1 {
                Some(("cap_V", 350164705811234817u64))
            } else if count == 2 {
                Some(("cap_V_2", 350172378913046538u64))
            } else {
                None
            }
        },
        'w' => {
            if count == 1 {
                Some(("cap_W", 350164705723023363u64))
            } else if count == 2 {
                Some(("cap_W_2", 350172379055521792u64))
            } else {
                None
            }
        },
        'x' => {
            if count == 1 {
                Some(("cap_X", 350164706092122122u64))
            } else if count == 2 {
                Some(("cap_X_2", 350172379038613514u64))
            } else {
                None
            }
        },
        'y' => {
            if count == 1 {
                Some(("cap_Y", 350164705979138051u64))
            } else if count == 2 {
                Some(("cap_Y_2", 350172378963378176u64))
            } else {
                None
            }
        },
        'z' => {
            if count == 1 {
                Some(("cap_Z", 350164706259894272u64))
            } else if count == 2 {
                Some(("cap_Z_2", 350172378799669251u64))
            } else {
                None
            }
        },
        _ => None,
    }
}

/// The upper-case form of a lowercase ASCII letter.
pub open spec fn upper_letter(c: char) -> char {
    ((c as int) - 32) as char
}

/// The name of the server's emoji for the `count`-th occurrence of the
/// lowercase letter `c`: `cap_` and the letter in upper case (in lower case
/// for the first `m`), followed by `_2` for the second occurrence.
pub open spec fn letter_emoji_name(c: char, count: nat) -> Seq<char> {
    let first = if c == 'm' && count == 1 {
        'm'
    } else {
        upper_letter(c)
    };
    if count == 1 {
        "cap_"@ + seq![first]
    } else {
        "cap_"@ + seq![first] + "_2"@
    }
}

/// Each lowercase letter is spelled with its own emoji: the first and
/// second occurrences of `c` get the emoji named after `c`.
pub proof fn lemma_letter_emoji_named_after_letter(c: char, count: nat)
    requires
        is_lower_letter(c),
        1 <= count <= 2,
    ensures
        custom_emoji_spec(c, count) matches Some((name, id)) && name == letter_emoji_name(c, count),
{
    reveal_strlit("cap_");
    reveal_strlit("_2");
    if c == 'a' {
        reveal_strlit("cap_A");
        reveal_strlit("cap_A_2");
        assert("cap_A"@ =~= "cap_"@ + seq!['A']);
        assert("cap_A_2"@ =~= "cap_"@ + seq!['A'] + "_2"@);
    } else if c == 'b' {
        reveal_strlit("cap_B");
        reveal_strlit("cap_B_2");
        assert("cap_B"@ =~= "cap_"@ + seq!['B']);
        assert("cap_B_2"@ =~= "cap_"@ + seq!['B'] + "_2"@);
    } else if c == 'c' {
        reveal_strlit("cap_C");
        reveal_strlit("cap_C_2");
        assert("cap_C"@ =~= "cap_"@ + seq!['C']);
        assert("cap_C_2"@ =~= "cap_"@ + seq!['C'] + "_2"@);
    } else if c == 'd' {
        reveal_strlit("cap_D");
        reveal_strlit("cap_D_2");
        assert("cap_D"@ =~= "cap_"@ + seq!['D']);
        assert("cap_D_2"@ =~= "cap_"@ + seq!['D'] + "_2"@);
    } else if c == 'e' {
        reveal_strlit("cap_E");
        reveal_strlit("cap_E_2");
        assert("cap_E"@ =~= "cap_"@ + seq!['E']);
        assert("cap_E_2"@ =~= "cap_"@ + seq!['E'] + "_2"@);
    } else if c == 'f' {
        reveal_strlit("cap_F");
        reveal_strlit("cap_F_2");
        assert("cap_F"@ =~= "cap_"@ + seq!['F']);
        assert("cap_F_2"@ =~= "cap_"@ + seq!['F'] + "_2"@);
    } else if c == 'g' {
        reveal_strlit("cap_G");
        reveal_strlit("cap_G_2");
        assert("cap_G"@ =~= "cap_"@ + seq!['G']);
        assert("cap_G_2"@ =~= "cap_"@ + seq!['G'] + "_2"@);
    } else if c == 'h' {
        reveal_strlit("cap_H");
        reveal_strlit("cap_H_2");
        assert("cap_H"@ =~= "cap_"@ + seq!['H']);
        assert("cap_H_2"@ =~= "cap_"@ + seq!['H'] + "_2"@);
    } else if c == 'i' {
        reveal_strlit("cap_I");
        reveal_strlit("cap_I_2");
        assert("cap_I"@ =~= "cap_"@ + seq!['I']);
        assert("cap_I_2"@ =~= "cap_"@ + seq!['I'] + "_2"@);
    } else if c == 'j' {
        reveal_strlit("cap_J");
        reveal_strlit("cap_J_2");
        assert("cap_J"@ =~= "cap_"@ + seq!['J']);
        assert("cap_J_2"@ =~= "cap_"@ + seq!['J'] + "_2"@);
    } else if c == 'k' {
        reveal_strlit("cap_K");
        reveal_strlit("cap_K_2");
        assert("cap_K"@ =~= "cap_"@ + seq!['K']);
        assert("cap_K_2"@ =~= "cap_"@ + seq!['K'] + "_2"@);
    } else if c == 'l' {
        reveal_strlit("cap_L");
        reveal_strlit("cap_L_2");
        assert("cap_L"@ =~= "cap_"@ + seq!['L']);
        assert("cap_L_2"@ =~= "cap_"@ + seq!['L'] + "_2"@);
    } else if c == 'm' {
        reveal_strlit("cap_m");
        reveal_strlit("cap_M_2");
        assert("cap_m"@ =~= "cap_"@ + seq!['m']);
        assert("cap_M_2"@ =~= "cap_"@ + seq!['M'] + "_2"@);
    } else if c == 'n' {
        reveal_strlit("cap_N");
        reveal_strlit("cap_N_2");
        assert("cap_N"@ =~= "cap_"@ + seq!['N']);
        assert("cap_N_2"@ =~= "cap_"@ + seq!['N'] + "_2"@);
    } else if c == 'o' {
        reveal_strlit("cap_O");
        reveal_strlit("cap_O_2");
        assert("cap_O"@ =~= "cap_"@ + seq!['O']);
        assert("cap_O_2"@ =~= "cap_"@ + seq!['O'] + "_2"@);
    } else if c == 'p' {
        reveal_strlit("cap_P");
        reveal_strlit("cap_P_2");
        assert("cap_P"@ =~= "cap_"@ + seq!['P']);
        assert("cap_P_2"@ =~= "cap_"@ + seq!['P'] + "_2"@);
    } else if c == 'q' {
        reveal_strlit("cap_Q");
        reveal_strlit("cap_Q_2");
        assert("cap_Q"@ =~= "cap_"@ + seq!['Q']);
        assert("cap_Q_2"@ =~= "cap_"@ + seq!['Q'] + "_2"@);
    } else if c == 'r' {
        reveal_strlit("cap_R");
        reveal_strlit("cap_R_2");
        assert("cap_R"@ =~= "cap_"@ + seq!['R']);
        assert("cap_R_2"@ =~= "cap_"@ + seq!['R'] + "_2"@);
    } else if c == 's' {
        reveal_strlit("cap_S");
        reveal_strlit("cap_S_2");
        assert("cap_S"@ =~= "cap_"@ + seq!['S']);
        assert("cap_S_2"@ =~= "cap_"@ + seq!['S'] + "_2"@);
    } else if c == 't' {
        reveal_strlit("cap_T");
        reveal_strlit("cap_T_2");
        assert("cap_T"@ =~= "cap_"@ + seq!['T']);
        assert("cap_T_2"@ =~= "cap_"@ + seq!['T'] + "_2"@);
    } else if c == 'u' {
        reveal_strlit("cap_U");
        reveal_strlit("cap_U_2");
        assert("cap_U"@ =~= "cap_"@ + seq!['U']);
        assert("cap_U_2"@ =~= "cap_"@ + seq!['U'] + "_2"@);
    } else if c == 'v' {
        reveal_strlit("cap_V");
        reveal_strlit("cap_V_2");
        assert("cap_V"@ =~= "cap_"@ + seq!['V']);
        assert("cap_V_2"@ =~= "cap_"@ + seq!['V'] + "_2"@);
    } else if c == 'w' {
        reveal_strlit("cap_W");
        reveal_strlit("cap_W_2");
        assert("cap_W"@ =~= "cap_"@ + seq!['W']);
        assert("cap_W_2"@ =~= "cap_"@ + seq!['W'] + "_2"@);
    } else if c == 'x' {
        reveal_strlit("cap_X");
        reveal_strlit("cap_X_2");
        assert("cap_X"@ =~= "cap_"@ + seq!['X']);
        assert("cap_X_2"@ =~= "cap_"@ + seq!['X'] + "_2"@);
    } else if c == 'y' {
        reveal_strlit("cap_Y");
        reveal_strlit("cap_Y_2");
        assert("cap_Y"@ =~= "cap_"@ + seq!['Y']);
        assert("cap_Y_2"@ =~= "cap_"@ + seq!['Y'] + "_2"@);
    } else if c == 'z' {
        reveal_strlit("cap_Z");
        reveal_strlit("cap_Z_2");
        assert("cap_Z"@ =~= "cap_"@ + seq!['Z']);
        assert("cap_Z_2"@ =~= "cap_"@ + seq!['Z'] + "_2"@);
    }
}

/// Spaces are spelled with the blank emoji: the first, second and third
/// spaces with `space_blank`, `space_blank_1` and `space_blank_4`.
pub proof fn lemma_space_emoji()
    ensures
        custom_emoji_spec(' ', 1) == Some(("space_blank"@, 350213580651757579u64)),
        custom_emoji_spec(' ', 2) == Some(("space_blank_1"@, 350213580827656202u64)),
        custom_emoji_spec(' ', 3) == Some(("space_blank_4"@, 350213580970262528u64)),
{
}

/// Different letters, or different occurrences of one letter, get
/// different emoji.
pub proof fn lemma_letter_emoji_distinct(c1: char, n1: nat, c2: char, n2: nat)
    requires
        is_lower_letter(c1),
        is_lower_letter(c2),
        1 <= n1 <= 2,
        1 <= n2 <= 2,
        c1 != c2 || n1 != n2,
    ensures
        custom_emoji_spec(c1, n1).unwrap().0 != custom_emoji_spec(c2, n2).unwrap().0,
        custom_emoji_spec(c1, n1).unwrap().1 != custom_emoji_spec(c2, n2).unwrap().1,
{
    lemma_letter_emoji_named_after_letter(c1, n1);
    lemma_letter_emoji_named_after_letter(c2, n2);
    reveal_strlit("cap_");
    reveal_strlit("_2");
    let a = letter_emoji_name(c1, n1);
    let b = letter_emoji_name(c2, n2);
    if n1 != n2 {
        assert(a.len() != b.len());
    } else if c1 == 'm' || c2 == 'm' {
        assert(a[4] != b[4]);
    } else {
        assert(a[4] != b[4]);
    }
}

/// How often `c` occurs in `s`.
pub open spec fn count_of(s: Seq<char>, c: char) -> nat
    decreases s.len(),
{
    if s.len() == 0 {
        0
    } else {
        count_of(s.drop_last(), c) + if s.last() == c {
            1nat
        } else {
            0nat
        }
    }
}

/// The custom reactions that spell `text`: for each character in order, the
/// emoji for that character and the number of its occurrences so far, where
/// the server has one; other characters are skipped.
pub open spec fn custom_reactions(text: Seq<char>) -> Seq<ReactionView>
    decreases text.len(),
{
    if text.len() == 0 {
        seq![]
    } else {
        let prev = custom_reactions(text.drop_last());
        match custom_emoji_spec(text.last(), count_of(text, text.last())) {
            Some((name, id)) => prev.push(ReactionView::Custom { name, id }),
            None => prev,
        }
    }
}

/// The regional-indicator symbol of a lowercase ASCII letter.
pub open spec fn regional_indicator(c: char) -> char {
    (0x1F1E6 + (c as int - 97)) as char
}

/// Whether `c` is a lowercase ASCII letter.
pub open spec fn is_lower_letter(c: char) -> bool {
    'a' <= c <= 'z'
}

/// The regional-indicator reactions that spell `word`: one per lowercase
/// ASCII letter, in order; other characters are skipped.
pub open spec fn letter_reactions(word: Seq<char>) -> Seq<ReactionView>
    decreases word.len(),
{
    if word.len() == 0 {
        seq![]
    } else {
        let prev = letter_reactions(word.drop_last());
        if is_lower_letter(word.last()) {
            prev.push(ReactionView::Unicode(seq![regional_indicator(word.last())]))
        } else {
            prev
        }
    }
}

/// The reactions that the react command adds: the custom ones for all
/// arguments joined by spaces when custom reactions are on, else the
/// regional-indicator ones for the first argument.
pub open spec fn reactions_spec(arguments: Seq<Seq<char>>, react_custom: bool) -> Seq<ReactionView> {
    if react_custom {
        custom_reactions(join_spec(arguments, " "@))
    } else {
        letter_reactions(arguments[0])
    }
}

/// Different letters get different regional-indicator symbols.
pub proof fn lemma_regional_indicator_injective(a: char, b: char)
    requires
        is_lower_letter(a),
        is_lower_letter(b),
        a != b,
    ensures
        regional_indicator(a) != regional_indicator(b),
{
}

/// At most one reaction per character.
pub proof fn lemma_reactions_bounded(text: Seq<char>)
    ensures
        custom_reactions(text).len() <= text.len(),
        letter_reactions(text).len() <= text.len(),
    decreases text.len(),
{
    if text.len() > 0 {
        lemma_reactions_bounded(text.drop_last());
    }
}

/// Only letters and spaces get custom emoji, only up to their second
/// occurrence (third for spaces).
pub proof fn lemma_custom_emoji_domain(c: char, count: nat)
    ensures
        custom_emoji_spec(c, count) is Some <==> (is_lower_letter(c) && 1 <= count <= 2) || (c
            == ' ' && 1 <= count <= 3),
{
}

/// The regional-indicator symbol of a lowercase ASCII letter.
pub fn regional_indicator_of(c: char) -> (r: char)
    requires
        is_lower_letter(c),
    ensures
        r == regional_indicator(c),
{
    match c {
        'a' => '\u{1F1E6}',
        'b' => '\u{1F1E7}',
        'c' => '\u{1F1E8}',
        'd' => '\u{1F1E9}',
        'e' => '\u{1F1EA}',
        'f' => '\u{1F1EB}',
        'g' => '\u{1F1EC}',
        'h' => '\u{1F1ED}',
        'i' => '\u{1F1EE}',
        'j' => '\u{1F1EF}',
        'k' => '\u{1F1F0}',
        'l' => '\u{1F1F1}',
        'm' => '\u{1F1F2}',
        'n' => '\u{1F1F3}',
        'o' => '\u{1F1F4}',
        'p' => '\u{1F1F5}',
        'q' => '\u{1F1F6}',
        'r' => '\u{1F1F7}',
        's' => '\u{1F1F8}',
        't' => '\u{1F1F9}',
        'u' => '\u{1F1FA}',
        'v' => '\u{1F1FB}',
        'w' => '\u{1F1FC}',
        'x' => '\u{1F1FD}',
        'y' => '\u{1F1FE}',
        'z' => '\u{1F1FF}',
        _ => '\u{1F1FF}',
    }
}

/// How often `c` occurs in the first `end` characters of `cs`.
fn count_prefix(cs: &Vec<char>, end: usize, c: char) -> (r: usize)
    requires
        end <= cs.len(),
    ensures
        r == count_of(cs@.take(end as int), c),
{
    let mut n: usize = 0;
    let mut i: usize = 0;
    while i < end
        invariant
            end <= cs.len(),
            i <= end,
            n == count_of(cs@.take(i as int), c),
            n <= i,
        decreases end - i,
    {
        assert(cs@.take(i + 1).drop_last() =~= cs@.take(i as int));
        if cs[i] == c {
            n += 1;
        }
        i += 1;
    }
    n
}

/// The custom reactions that spell `text`.
pub fn custom_reactions_of(text: &str) -> (r: Vec<Reaction>)
    ensures
        reaction_views(r@) == custom_reactions(text@),
{
    let cs = chars_of(text);
    let mut out: Vec<Reaction> = Vec::new();
    let mut i: usize = 0;
    assert(reaction_views(out@) =~= custom_reactions(cs@.take(0)));
    while i < cs.len()
        invariant
            cs@ == text@,
            i <= cs.len(),
            reaction_views(out@) == custom_reactions(cs@.take(i as int)),
        decreases cs.len() - i,
    {
        let c = cs[i];
        let n = count_prefix(&cs, i + 1, c);
        let ghost t = cs@.take(i + 1);
        assert(t.drop_last() =~= cs@.take(i as int));
        assert(t.last() == c);
        match custom_emoji(c, n) {
            Some((name, id)) => {
                let ghost before = reaction_views(out@);
                out.push(Reaction::Custom { name: String::from_str(name), id });
                assert(reaction_views(out@) =~= before.push(
                    ReactionView::Custom { name: name@, id },
                ));
            },
            None => {},
        }
        i += 1;
    }
    assert(cs@.take(cs.len() as int) =~= cs@);
    out
}

/// The regional-indicator reactions that spell `word`.
pub fn letter_reactions_of(word: &str) -> (r: Vec<Reaction>)
    ensures
        reaction_views(r@) == letter_reactions(word@),
{
    let cs = chars_of(word);
    let mut out: Vec<Reaction> = Vec::new();
    let mut i: usize = 0;
    assert(reaction_views(out@) =~= letter_reactions(cs@.take(0)));
    while i < cs.len()
        invariant
            cs@ == word@,
            i <= cs.len(),
            reaction_views(out@) == letter_reactions(cs@.take(i as int)),
        decreases cs.len() - i,
    {
        let c = cs[i];
        let ghost t = cs@.take(i + 1);
        assert(t.drop_last() =~= cs@.take(i as int));
        assert(t.last() == c);
        if 'a' <= c && c <= 'z' {
            let e = regional_indicator_of(c);
            let mut s = String::new();
            push_char(&mut s, e);
            let ghost before = reaction_views(out@);
            out.push(Reaction::Unicode(s));
            assert(reaction_views(out@) =~= before.push(ReactionView::Unicode(seq![e])));
        }
        i += 1;
    }
    assert(cs@.take(cs.len() as int) =~= cs@);
    out
}

/// Spells a text in reactions on the last message.
pub struct ReactPlugin;

impl ReactPlugin {
    /// The names that invoke this plugin.
    pub fn id(&self) -> (r: Vec<&'static str>)
        ensures
            crate::plugins::alias_views(r@) == seq!["react"@, "re"@],
    {
        let r = vec!["react", "re"];
        assert(crate::plugins::alias_views(r@) =~= seq!["react"@, "re"@]);
        r
    }

    /// The reactions to add to the last message for these arguments: with
    /// custom reactions on, the server's letter emoji for all arguments
    /// joined by spaces; otherwise regional-indicator symbols for the
    /// lowercase letters of the first argument.
    pub fn execute(&self, arguments: &Vec<String>, react_custom: bool) -> (r: Vec<Reaction>)
        requires
            arguments.len() >= 1,
        ensures
            reaction_views(r@) == reactions_spec(views(arguments@), react_custom),
    {
        if react_custom {
            let text = join(arguments, " ");
            custom_reactions_of(text.as_str())
        } else {
            letter_reactions_of(arguments[0].as_str())
        }
    }
}

} // verus!

use misaki::command::{find_plugin, parse_command, reply_text};
use misaki::evaluate::{eval_answer, evaluate_arguments};
use misaki::memory::{fetch_memory, MemoryChunk};
use misaki::misconception::{load_words, to_misconception, WordTable};
use misaki::mock::{mock, mock_with};
use misaki::number::{bool_to_text, decimal_text, parse_bool, parse_u32, parse_u64};
use misaki::pattern::{lines, split_by};
use misaki::plugins::{
    AboutPlugin, EvalPlugin, ForgetPlugin, LatexPlugin, MisconceptionPlugin, MockPlugin,
    OmnipotencePlugin, PurgePlugin, RecallPlugin, RememberPlugin, Rewrite, SettingsPlugin,
    ShillPlugin, TextTransformPlugin, UserInfoPlugin,
};
use misaki::purge::{PurgeAction, PurgeEvent, PurgeState};
use misaki::react::{Reaction, ReactPlugin};
use misaki::settings::{Flag, MisakiSettings};
use misaki::text::{chars_of, eq_str, is_whitespace, join, join_from, split_on, string_of, words};

fn strings(v: &[&str]) -> Vec<String> {
    v.iter().map(|s| s.to_string()).collect()
}

#[test]
fn settings_names_ignore_case() {
    let s = MisakiSettings::new();
    assert!(s.is_number("LaTeX_Size"));
    assert!(!s.is_number("latex_col"));
    assert!(s.is_string("LATEX_COL"));
    assert!(s.is_bool("Embed"));
    assert!(s.is_bool("hypershill"));
    assert!(s.is_bool("UZI"));
    assert!(s.is_bool("EMBED"));
    assert!(!s.is_bool("latex_size"));
    assert!(!s.is_bool("embedded"));
}

#[test]
fn settings_set_and_flip() {
    let mut s = MisakiSettings::default();
    assert_eq!(s.set("MARK", true, false), Some(true));
    assert!(s.should_mark);
    assert!(!s.embed_mode);
    assert_eq!(s.set("mark", true, true), Some(false));
    assert!(!s.should_mark);
    assert_eq!(s.set("react", false, true), Some(true));
    assert_eq!(s.set("react", false, true), Some(false));
    assert_eq!(s.set("nothing", true, false), None);
    assert_eq!(s.set_num("latex_size", 17), Some(17));
    assert_eq!(s.latex_size, 17);
    assert_eq!(s.set_num("latex_col", 3), None);
    assert_eq!(s.latex_size, 17);
    assert_eq!(s.set_str("Latex_Col", "red".to_string()), Some("red".to_string()));
    assert_eq!(s.latex_color, "red");
    assert_eq!(s.set_str("embed", "x".to_string()), None);
    assert_eq!(Flag::Embed, Flag::Embed);
}

#[test]
fn settings_command_replies() {
    let p = SettingsPlugin;
    let mut s = MisakiSettings::new();
    assert_eq!(p.execute(&strings(&["Embed"]), &mut s), "embed = true");
    assert!(s.embed_mode);
    assert_eq!(p.execute(&strings(&["embed", "false"]), &mut s), "embed = false");
    assert!(!s.embed_mode);
    assert_eq!(p.execute(&strings(&["latex_size", "+20"]), &mut s), "latex_size = 20");
    assert_eq!(s.latex_size, 20);
    assert_eq!(p.execute(&strings(&["LATEX_COL", "white"]), &mut s), "latex_col = \"white\"");
    assert_eq!(s.latex_color, "white");
    assert_eq!(p.execute(&strings(&["colour", "red"]), &mut s), "");
    assert_eq!(p.execute(&strings(&["colour"]), &mut s), "colour is not a flippable variable.");
    assert_eq!(p.try_execute(&strings(&["uzi", "maybe"]), &mut s), None);
    assert_eq!(p.try_execute(&strings(&["latex_size", "-1"]), &mut s), None);
    assert_eq!(s.latex_size, 20);
    assert_eq!(p.try_execute(&strings(&["uzi", "true"]), &mut s), Some("uzi = true".to_string()));
    assert!(s.uzi_mode);
}

#[test]
fn text_helpers() {
    assert_eq!(chars_of("héllo"), vec!['h', 'é', 'l', 'l', 'o']);
    assert_eq!(string_of(&vec!['a', 'ß']), "aß");
    assert!(eq_str("abc", "abc"));
    assert!(!eq_str("abc", "abd"));
    assert!(!eq_str("abc", "ab"));
    assert_eq!(join(&strings(&["a", "b", "c"]), ", "), "a, b, c");
    assert_eq!(join(&strings(&[]), " "), "");
    assert_eq!(join_from(&strings(&["x", "y", "z"]), 1, "-"), "y-z");
    assert_eq!(split_on("a  b", ' '), strings(&["a", "", "b"]));
    assert_eq!(split_on("", ' '), strings(&[""]));
    assert_eq!(words("  one\ttwo\u{a0}three \n"), strings(&["one", "two", "three"]));
    assert!(is_whitespace('\u{3000}'));
    assert!(!is_whitespace('x'));
}

#[test]
fn split_then_join_gives_text_back() {
    for text in ["", "a b  c ", " lead", "no-spaces"] {
        assert_eq!(join(&split_on(text, ' '), " "), text);
    }
}

#[test]
fn patterns_and_lines() {
    assert_eq!(split_by("a->b->c", "->"), strings(&["a", "b", "c"]));
    assert_eq!(split_by("x, y,z", ", "), strings(&["x", "y,z"]));
    assert_eq!(split_by("->", "->"), strings(&["", ""]));
    assert_eq!(lines("one\r\ntwo\n\nthree\n"), strings(&["one", "two", "", "three"]));
    assert_eq!(lines(""), strings(&[]));
    assert_eq!(lines("a\r"), strings(&["a\r"]));
    assert_eq!(lines("a\r\nb\r"), strings(&["a", "b\r"]));
}

#[test]
fn numbers() {
    assert_eq!(decimal_text(0), "0");
    assert_eq!(decimal_text(12345), "12345");
    assert_eq!(decimal_text(u64::MAX), "18446744073709551615");
    assert_eq!(bool_to_text(true), "true");
    assert_eq!(parse_bool("false"), Some(false));
    assert_eq!(parse_bool("True"), None);
    assert_eq!(parse_u32("+12"), Some(12));
    assert_eq!(parse_u32("4294967295"), Some(u32::MAX));
    assert_eq!(parse_u32("4294967296"), None);
    assert_eq!(parse_u32(""), None);
    assert_eq!(parse_u32("+"), None);
    assert_eq!(parse_u32("-1"), None);
    assert_eq!(parse_u32("1a"), None);
    assert_eq!(parse_u64("18446744073709551615"), Some(u64::MAX));
    assert_eq!(parse_u64("18446744073709551616"), None);
}

#[test]
fn react_custom_letters() {
    let r = ReactPlugin.execute(&strings(&["aa", "a"]), true);
    assert_eq!(r.len(), 3);
    match &r[0] {
        Reaction::Custom { name, id } => {
            assert_eq!(name, "cap_A");
            assert_eq!(*id, 350164697095340032);
        }
        _ => panic!("expected a custom reaction"),
    }
    match &r[1] {
        Reaction::Custom { name, id } => {
            assert_eq!(name, "cap_A_2");
            assert_eq!(*id, 350172373414051840);
        }
        _ => panic!("expected a custom reaction"),
    }
    match &r[2] {
        Reaction::Custom { name, .. } => assert_eq!(name, "space_blank"),
        _ => panic!("expected a custom reaction"),
    }
}

#[test]
fn react_spaces_and_m() {
    let r = ReactPlugin.execute(&strings(&["m", "m", "m", "m"]), true);
    let names: Vec<String> = r
        .iter()
        .map(|x| match x {
            Reaction::Custom { name, .. } => name.clone(),
            Reaction::Unicode(s) => s.clone(),
        })
        .collect();
    assert_eq!(names, strings(&["cap_m", "space_blank", "cap_M_2", "space_blank_1", "space_blank_4"]));
}

#[test]
fn react_regional_indicators() {
    let r = ReactPlugin.execute(&strings(&["Hi!z", "ignored"]), false);
    assert_eq!(r.len(), 2);
    match &r[0] {
        Reaction::Unicode(s) => assert_eq!(s, "\u{1F1EE}"),
        _ => panic!("expected a unicode reaction"),
    }
    match &r[1] {
        Reaction::Unicode(s) => assert_eq!(s, "\u{1F1FF}"),
        _ => panic!("expected a unicode reaction"),
    }
    assert_eq!(ReactPlugin.id(), vec!["react", "re"]);
}

#[test]
fn purge_machine() {
    let p = PurgePlugin;
    assert_eq!(p.target(&strings(&["2"])), Some(2));
    assert_eq!(p.target(&strings(&["2", "3"])), None);
    assert_eq!(p.target(&strings(&[])), None);
    let mut s = PurgeState::new(2);
    assert!(matches!(s.step(PurgeEvent::Continue), PurgeAction::FetchLatest));
    assert!(matches!(s.step(PurgeEvent::Latest(None)), PurgeAction::FetchLatest));
    assert!(matches!(s.step(PurgeEvent::Latest(Some(true))), PurgeAction::DeleteLatest));
    assert_eq!(s.deleted(), 1);
    assert!(matches!(s.step(PurgeEvent::Continue), PurgeAction::FetchLatest));
    assert!(matches!(s.step(PurgeEvent::Latest(Some(false))), PurgeAction::FetchRecent(1)));
    match s.step(PurgeEvent::Recent(vec![false, true, true])) {
        PurgeAction::DeleteRecent(positions) => assert_eq!(positions, vec![1, 2]),
        _ => panic!("expected deletions"),
    }
    assert_eq!(s.deleted(), 3);
    assert!(matches!(s.step(PurgeEvent::Continue), PurgeAction::Finish));
}

#[test]
fn purge_gives_up_after_lookbacks() {
    let mut s = PurgeState::new(5);
    for n in 1..=100u64 {
        match s.step(PurgeEvent::Latest(Some(false))) {
            PurgeAction::FetchRecent(k) => assert_eq!(k, n),
            _ => panic!("expected a look back"),
        }
        assert!(matches!(s.step(PurgeEvent::Recent(vec![false])), PurgeAction::DeleteRecent(_)));
    }
    assert!(matches!(s.step(PurgeEvent::Latest(Some(false))), PurgeAction::Finish));
}

#[test]
fn misconception_table() {
    let table = load_words("Their->there, they're\nyour->you're\nTHEM->there, they're\n");
    assert_eq!(to_misconception(&table, "over there you're"), "over them your");
    assert_eq!(to_misconception(&table, "nothing  here"), "nothing  here");
    let mut t = WordTable::new();
    t.insert(strings(&["a"]), "x".to_string());
    t.insert(strings(&["a"]), "y".to_string());
    assert_eq!(t.lookup("a"), Some("y".to_string()));
    assert_eq!(t.lookup("b"), None);
    match MisconceptionPlugin.execute(&table, false, "they're") {
        Rewrite::Reply(s) => assert_eq!(s, "them"),
        _ => panic!("expected a reply"),
    }
    match MisconceptionPlugin.execute(&table, true, "hi") {
        Rewrite::EditLast(s) => assert_eq!(s, "hi"),
        _ => panic!("expected an edit"),
    }
}

#[test]
fn mock_case() {
    assert_eq!(mock_with("aBc", &vec![true, false, true]), "AbC");
    assert_eq!(mock_with("ß", &vec![true]), "SS");
    let m = mock("hello");
    assert_eq!(m.to_lowercase(), "hello");
    match MockPlugin.execute(true, "abc") {
        Rewrite::EditLast(s) => assert_eq!(s.to_lowercase(), "abc"),
        _ => panic!("expected an edit"),
    }
}

#[test]
fn shill_layout() {
    assert_eq!(ShillPlugin.execute(&strings(&["ab"])), "```a b\nb```");
    assert_eq!(ShillPlugin.execute(&strings(&["a", "b"])), "```a   b\n \nb```");
    assert_eq!(ShillPlugin.execute(&strings(&["", "b"])), "Blank Message");
}

#[test]
fn memory_commands() {
    let row = RememberPlugin.execute(&strings(&["key", "hello", "world"]));
    assert_eq!(row.from, "key");
    assert_eq!(row.into, "hello world");
    let empty = RememberPlugin.execute(&strings(&["k"]));
    assert_eq!(empty.into, "");
    assert_eq!(ForgetPlugin.execute(&strings(&["key"])), "key");
    let rows = vec![row, MemoryChunk::new("b".to_string(), "2".to_string())];
    assert_eq!(OmnipotencePlugin.execute(&rows), "```Memory:\nkey => hello world\nb => 2\n```");
    assert_eq!(OmnipotencePlugin.execute(&vec![]), "```Memory:\n```");
    assert_eq!(RecallPlugin.execute(&strings(&["b"]), &rows), "2");
    assert_eq!(RecallPlugin.execute(&strings(&["c"]), &rows), "Memory \"c\" does not exist.");
    assert!(fetch_memory(&rows, "key").is_some());
    assert!(fetch_memory(&rows, "Key").is_none());
}

#[test]
fn latex_requests() {
    let p = LatexPlugin;
    assert_eq!(p.endpoint(), "http://quicklatex.com/latex3.f");
    let body = p.request_body(&strings(&["x^2", "+", "1"]), "black");
    assert!(body.starts_with("formula=x^2 + 1&fcolor=black&fsize=17px&mode=0&out=1"));
    assert!(body.ends_with("\\usepackage{amssymb}&rnd=66.52322504562316"));
    assert_eq!(p.link(&b"0\r\nhttps://q.com/a.png 1 2".to_vec()), Some("https://q.com/a.png".to_string()));
    assert_eq!(p.link(&b"ab".to_vec()), Some(String::new()));
    assert_eq!(p.link(&vec![0xff, 0xfe]), None);
}

#[test]
fn math_transforms() {
    let p = TextTransformPlugin;
    assert_eq!(p.execute(&strings(&["b", "Bold", "123"])), "𝐁𝐨𝐥𝐝 𝟏𝟐𝟑");
    assert_eq!(p.execute(&strings(&["ds", "1"])), "𝟙");
    assert_eq!(p.execute(&strings(&["f", "a-b!"])), "𝔞-𝔟!");
    assert_eq!(p.execute(&strings(&["i", "f"])), "𝑓");
    assert_eq!(p.execute(&strings(&["bf", "x"])), "");
    assert_eq!(p.execute(&strings(&["m"])), "");
}

#[test]
fn eval_expressions() {
    assert_eq!(EvalPlugin.execute(&strings(&["1", "+", "2"])), Some("1 + 2 = 3".to_string()));
    assert_eq!(EvalPlugin.execute(&strings(&["1", "+", "2", "*", "3"])), Some("1 + 2 * 3 = 7".to_string()));
    assert_eq!(EvalPlugin.execute(&strings(&["2", "-", "5"])), Some("2 - 5 = -3".to_string()));
    assert_eq!(
        EvalPlugin.execute(&strings(&["999999999", "*", "999999999"])),
        Some("999999999 * 999999999 = 999999998000000001".to_string())
    );
    assert_eq!(evaluate_arguments(&strings(&["2", "*", "3"])), Some("6".to_string()));
    assert_eq!(EvalPlugin.execute(&strings(&["5", "%", "0"])), None);
    assert_eq!(EvalPlugin.execute(&strings(&["18446744073709551615", "-", "1"])), None);
    assert_eq!(EvalPlugin.execute(&strings(&["(", "1"])), None);
    assert_eq!(EvalPlugin.execute(&strings(&["1", "+"])), None);
    assert_eq!(EvalPlugin.execute(&strings(&[])), None);
    assert_eq!(evaluate_arguments(&strings(&["1", "/", "2"])), None);
    assert_eq!(EvalPlugin.expression(&strings(&["1", "+", "2"])), "1 + 2");
    assert_eq!(eval_answer("1 / 2", Ok("0.5".to_string()), true), "1 / 2 = 0.5");
    assert_eq!(eval_answer("1 / 2", Ok("0.5".to_string()), false), "0.5");
    assert_eq!(eval_answer("(", Err("bad".to_string()), true), "bad");
    assert_eq!(EvalPlugin.answer(&strings(&["min(1,", "2)"]), Ok("1".to_string())), "min(1, 2) = 1");
    assert_eq!(EvalPlugin.answer(&strings(&["x"]), Err("oops".to_string())), "oops");
}

#[test]
fn commands_and_dispatch() {
    let c = parse_command("!React hello  world", "!").unwrap();
    assert_eq!(c.ident, "React");
    assert_eq!(c.arguments, strings(&["hello", "world"]));
    assert!(parse_command("?react x", "!").is_none());
    let short = parse_command("!", "!").unwrap();
    assert_eq!(short.ident, "");
    assert!(short.arguments.is_empty());
    let aliases = vec![strings(&["transf", "mt"]), strings(&["react", "re"]), strings(&["re"])];
    assert_eq!(find_plugin(&aliases, "REACT"), Some(1));
    assert_eq!(find_plugin(&aliases, "re"), Some(1));
    assert_eq!(find_plugin(&aliases, "purge"), None);
    assert_eq!(reply_text(true, "hi"), Some("`\u{25ba}` hi".to_string()));
    assert_eq!(reply_text(false, "hi"), Some(" hi".to_string()));
    assert_eq!(reply_text(true, ""), None);
}

#[test]
fn embeds() {
    let f = UserInfoPlugin.fields(42, false, 1234);
    assert_eq!(f.len(), 3);
    assert_eq!((f[0].name.as_str(), f[0].value.as_str(), f[0].inline), ("Discriminator", "42", true));
    assert_eq!((f[1].name.as_str(), f[1].value.as_str()), ("Bot?", "false"));
    assert_eq!((f[2].name.as_str(), f[2].value.as_str()), ("Id", "1234"));
    assert_eq!(UserInfoPlugin.color(), 0xFFFFFF);
    let a = AboutPlugin.fields(7);
    assert_eq!((a[0].name.as_str(), a[0].value.as_str()), ("Memory Chunks", "7"));
    assert_eq!((a[1].name.as_str(), a[1].value.as_str()), ("Modules", "12"));
    assert_eq!(AboutPlugin.color(), 0xFF3333);
    let e = AboutPlugin.embed(3);
    assert_eq!(e.title, "Misaki (Modular Selfbot)");
    assert_eq!(e.url, Some("https://github.com/hvze/misaki".to_string()));
    assert_eq!(e.thumbnail, "https://ill.fi/ncdt.png");
    assert_eq!(e.color, 0xFF3333);
    assert_eq!(e.fields[0].value, "3");
    let u = UserInfoPlugin.embed("neko", "https://a/b.png", 7, true, 99);
    assert_eq!((u.title.as_str(), u.thumbnail.as_str(), u.color), ("neko", "https://a/b.png", 0xFFFFFF));
    assert!(u.url.is_none());
    assert_eq!(u.fields[1].value, "true");
}

#[test]
fn plugin_aliases() {
    assert_eq!(RememberPlugin.id(), vec!["rem", "sa", "@"]);
    assert_eq!(EvalPlugin.id(), vec![";", "e", "eval"]);
    assert_eq!(LatexPlugin.id(), vec!["tex", "latex", ".."]);
}

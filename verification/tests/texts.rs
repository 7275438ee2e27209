use diffview::args::parse_args;
use diffview::command::{cmd_context, cmd_resize, cmd_toggle_target, StateFile};
use diffview::listing::{generate_list, plan_list};
use diffview::paths::{parse_rename_path, shell_quote, shorten_path};
use diffview::stats::{capture_int, format_stats, show_stats};
use diffview::text::{
    begins_with, chars_of, close_text, fields_of, finishes_with, join_with, last_position_of_char,
    lines_of, lines_text, mentions, piece, position_of, position_of_char, same, space, split_on,
    stands_at, strings, trimmed, without_end_newlines, words_of,
};
use diffview::viewed::{toggle_viewed, WorkFile};

fn s(v: &[&str]) -> Vec<String> {
    v.iter().map(|x| x.to_string()).collect()
}

#[test]
fn pieces_join_to_the_text_again() {
    for text in ["", "/", "a", "a/b", "/a//b/", "é/ü"] {
        let pieces = split_on(text, '/');
        let want: Vec<&str> = text.split('/').collect();
        assert_eq!(pieces, want);
        assert_eq!(join_with(&pieces, "/"), text);
    }
    assert_eq!(join_with(&s(&[]), ", "), "");
    assert_eq!(join_with(&s(&["a", "b", "c"]), ", "), "a, b, c");
}

#[test]
fn lines_are_those_of_the_standard_library() {
    for text in ["", "\n", "a", "a\n", "a\nb", "a\r\nb\r\n", "a\r", "\r\n", "a\n\nb\n", "a\r\r\n"] {
        let want: Vec<&str> = text.lines().collect();
        assert_eq!(lines_of(text), want, "{:?}", text);
    }
    assert_eq!(lines_text(&s(&["a", "", "b"])), "a\n\nb\n");
    assert_eq!(lines_of(&lines_text(&s(&["a", "", "b"]))), s(&["a", "", "b"]));
    assert_eq!(lines_text(&s(&[])), "");
    assert_eq!(close_text("a".to_string()), "a\n");
    assert_eq!(close_text(String::new()), "");
}

#[test]
fn trimming_is_that_of_the_standard_library() {
    for text in ["", " ", " a b ", "\u{2003}x\u{3000}", "\u{85}\u{a0}x", "\u{200b}x", "x\n\n"] {
        assert_eq!(trimmed(text), text.trim(), "{:?}", text);
        assert_eq!(without_end_newlines(text), text.trim_end_matches('\n'));
        let want: Vec<&str> = text.split_whitespace().collect();
        assert_eq!(words_of(text), want, "{:?}", text);
    }
    for n in 0..0x3100u32 {
        if let Some(c) = char::from_u32(n) {
            assert_eq!(space(c), c.is_whitespace(), "{:x}", n);
        }
    }
}

#[test]
fn searching_finds_first_and_last_positions() {
    let cs = chars_of("añb ñb");
    assert_eq!(cs.len(), 6);
    assert_eq!(position_of(&cs, &chars_of("ñb")), Some(1));
    assert_eq!(position_of(&cs, &chars_of("bñ")), None);
    assert_eq!(position_of(&cs, &[]), Some(0));
    assert_eq!(position_of_char(&cs, 'b', 3), Some(5));
    assert_eq!(position_of_char(&cs, 'a', 1), None);
    assert_eq!(last_position_of_char(&cs, 'b', 5), Some(2));
    assert_eq!(last_position_of_char(&cs, 'b', 2), None);
    assert!(stands_at(&cs, &chars_of("ñb"), 4));
    assert!(!stands_at(&cs, &chars_of("ñbx"), 4));
    assert_eq!(piece(&cs, 1, 3), "ñb");
}

#[test]
fn texts_are_looked_into() {
    assert!(mentions("a..b", "..") && !mentions("a.b", ".."));
    assert!(begins_with("send> ", "send") && !begins_with("sen", "send"));
    assert!(finishes_with("a b", " b") && !finishes_with("b", " b"));
    assert!(same("é", "é") && !same("e", "é") && !same("a", "ab"));
    assert_eq!(fields_of("1\t2\ta\tb"), Some(("1".to_string(), "2".to_string(), "a\tb".to_string())));
    assert_eq!(fields_of("\t\t"), Some((String::new(), String::new(), String::new())));
    assert_eq!(fields_of("1\t2"), None);
    assert_eq!(strings(&["a", ""]), s(&["a", ""]));
}

#[test]
fn shortened_paths_keep_their_segments() {
    assert_eq!(shorten_path("/usr/local/é€x/file"), "/us/lo/é€/file");
    assert_eq!(shorten_path("a/bc/def/"), "a/bc/de/");
    assert_eq!(shorten_path(""), "");
    for path in ["a/b/c", "src/deep/er/file.rs", "//x", "no"] {
        let once = shorten_path(path);
        assert_eq!(shorten_path(&once), once);
        assert_eq!(once.split('/').count(), path.split('/').count());
        assert_eq!(once.split('/').last(), path.split('/').last());
    }
}

#[test]
fn renames_read_back() {
    let pair = |a: &str, b: &str| Some((a.to_string(), b.to_string()));
    assert_eq!(parse_rename_path("a{b => c"), pair("a{b", "c"));
    assert_eq!(parse_rename_path("b => c}"), pair("b", "c}"));
    assert_eq!(parse_rename_path("a => b => c"), pair("a", "b => c"));
    assert_eq!(parse_rename_path("{a => b}/c"), pair("a/c", "b/c"));
    assert_eq!(parse_rename_path("{ => b}/c"), pair("/c", "b/c"));
    assert_eq!(parse_rename_path("x{a => }y"), pair("xay", "xy"));
    assert_eq!(parse_rename_path("p/{o/{q => n}/s"), pair("p/{o/q/s", "p/{o/n/s"));
    assert_eq!(parse_rename_path(" =>"), None);
}

#[test]
fn quoted_words_are_safe_for_a_shell() {
    assert_eq!(shell_quote("/usr/bin/diff-view_2.0"), "/usr/bin/diff-view_2.0");
    assert_eq!(shell_quote(""), "''");
    assert_eq!(shell_quote("a b"), "'a b'");
    assert_eq!(shell_quote("it's"), "'it'\\''s'");
    assert_eq!(shell_quote("'"), "''\\'''");
    assert_eq!(shell_quote("é"), "'é'");
}

#[test]
fn flags_mean_the_same_in_any_order() {
    let a = parse_args(&s(&["w", "m", "~4", "x", "t"]));
    let b = parse_args(&s(&["t", "~4", "x", "junk", "m", "w", "w"]));
    assert_eq!(format!("{:?}", a), format!("{:?}", b));
    assert!(a.merge_base && a.exclude && a.target_mode && !a.upstream && !a.sidebyside);
    let c = parse_args(&s(&["x", "send", "w", "list", "~1"]));
    assert_eq!(c.subcmd, "send");
    assert_eq!(c.subcmd_args, s(&["w", "list", "~1"]));
    assert_eq!((c.ws.as_str(), c.commit_back.as_str(), c.exclude), ("", "", true));
    assert_eq!(parse_args(&s(&["~", "~x", "~1x", "-w", ""])).commit_back, "");
}

#[test]
fn numbers_are_captured_before_their_word() {
    assert_eq!(capture_int("1 file, 12 insertions, 3 insertions", " insertion"), Some(12));
    assert_eq!(capture_int("x insertion", " insertion"), None);
    assert_eq!(capture_int("12", " insertion"), None);
    assert_eq!(capture_int("99999999999999999999 deletion", " deletion"), None);
    assert_eq!(format_stats(" 1 file changed, 1 insertion(+), 1 deletion(-)"), "+1/-1");
    assert_eq!(show_stats(0, 0), "");
    assert_eq!(show_stats(0, 7), "+0/-7");
}

#[test]
fn toggled_file_is_listed_as_viewed() {
    let numstat = "1\t1\tsrc/foo.py\n";
    let content = || WorkFile::Content(b"y\n".to_vec());
    let show = |viewed: &str, f: WorkFile| {
        generate_list(&plan_list("HEAD", "", numstat, "", viewed), &vec![f])
    };
    let once = toggle_viewed("src/foo.py", &content(), "").unwrap();
    assert_eq!(show(&once, content()), "✓ sr/foo.py (+1/-1)\x1fsrc/foo.py\n");
    assert_eq!(show(&once, WorkFile::Missing), "  sr/foo.py (+1/-1)\x1fsrc/foo.py\n");
    let twice = toggle_viewed("src/foo.py", &content(), &once).unwrap();
    assert_eq!(show(&twice, content()), "  sr/foo.py (+1/-1)\x1fsrc/foo.py\n");
}

#[test]
fn state_stays_within_its_bounds() {
    let mut size = "80".to_string();
    let mut context = "4".to_string();
    for delta in ["+3", "+3", "+50", "-3", "-90", "-1", "x", "+2147483000"] {
        size = cmd_resize(&s(&[delta, "diffview> "]), &size).writes[0].1.clone();
        let n: i32 = size.parse().unwrap();
        assert!((20..=95).contains(&n));
        context = cmd_context(&s(&[delta]), &context).writes[0].1.clone();
        let n: i32 = context.parse().unwrap();
        assert!((0..=999).contains(&n));
    }
    assert_eq!((size.as_str(), context.as_str()), ("95", "999"));
    let o = cmd_toggle_target("d", &s(&["diffview> "]), "files");
    assert_eq!(o.writes[0], (StateFile::Filter, String::new()));
    assert_eq!(o.writes[1], (StateFile::Mode, "target".to_string()));
}

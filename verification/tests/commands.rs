use diffview::args::{is_subcommand, parse_args};
use diffview::blob::{blob_bytes, hash_blob, hex_of};
use diffview::command::{
    arg, cmd_context, cmd_enter_action, cmd_enter_filter, cmd_escape_action, cmd_list, cmd_resize,
    cmd_toggle, cmd_toggle_exclude, cmd_toggle_sbs, cmd_toggle_target, cmd_toggle_ws,
    context_fits, dispatch, load_more_fits, resize_fits, Command, Listed, Outcome, Reply,
    StateFile,
};
use diffview::editor::{
    cmd_open, config_path, editor_command, editor_template, hunk_line, open_diff_args,
};
use diffview::fzf::{all_typing_keys, binds, cmd_preview, fzf_args, PREVIEW_CMD};
use diffview::message::{caller_args, cmd_send, tmux_env};
use diffview::viewed::{counts_as_viewed, load_viewed, mark_of, toggle_viewed, WorkFile};

const ME: &str = "/usr/bin/diffview";

fn s(v: &[&str]) -> Vec<String> {
    v.iter().map(|x| x.to_string()).collect()
}

fn written(o: &Outcome, f: StateFile) -> Option<String> {
    let mut last = None;
    for w in &o.writes {
        if w.0 == f {
            last = Some(w.1.clone());
        }
    }
    last
}

fn stdout(o: &Outcome, header: &str) -> String {
    match o.reply.render(header) {
        Some(line) => format!("{}\n", line),
        None => String::new(),
    }
}

#[test]
fn cmd_context_clamps_high() {
    let args = s(&["+1000"]);
    assert!(context_fits(&args, "5"));
    let o = cmd_context(&args, "5");
    assert_eq!(o.code, 0);
    assert_eq!(written(&o, StateFile::Context).unwrap(), "999");
}

#[test]
fn cmd_context_clamps_low() {
    let args = s(&["-100"]);
    assert!(context_fits(&args, "5"));
    let o = cmd_context(&args, "5");
    assert_eq!(written(&o, StateFile::Context).unwrap(), "0");
}

#[test]
fn cmd_context_falls_back_to_its_defaults() {
    assert_eq!(written(&cmd_context(&s(&["+3"]), ""), StateFile::Context).unwrap(), "10");
    assert_eq!(written(&cmd_context(&s(&["+3"]), "x"), StateFile::Context).unwrap(), "10");
    assert_eq!(written(&cmd_context(&s(&["x"]), "4"), StateFile::Context).unwrap(), "4");
    assert_eq!(written(&cmd_context(&[], "4"), StateFile::Context).unwrap(), "4");
}

#[test]
fn changes_that_do_not_fit_are_seen() {
    assert!(!context_fits(&s(&["1"]), "2147483647"));
    assert!(context_fits(&s(&["-1"]), "2147483647"));
    assert!(!resize_fits(&s(&["-1"]), "-2147483648"));
    assert!(resize_fits(&s(&["2147483648"]), "2147483647"));
    assert!(resize_fits(&s(&["-1", "filter> "]), "-2147483648"));
    let more = s(&["target> ", "", "__LOAD_MORE__"]);
    assert!(!load_more_fits(&more, "target", "4294967286"));
    assert!(load_more_fits(&more, "target", "4294967285"));
    assert!(load_more_fits(&more, "target", "4294967296"));
    assert!(load_more_fits(&more, "files", "4294967286"));
    assert!(load_more_fits(&s(&["target> ", "", "HEAD"]), "target", "4294967286"));
}

#[test]
fn cmd_resize_writes_size() {
    let args = s(&["+3", "diffview> "]);
    assert!(resize_fits(&args, "80"));
    let o = cmd_resize(&args, "80");
    assert_eq!(written(&o, StateFile::Size).unwrap(), "83");
    assert!(stdout(&o, "").contains("change-preview-window(right,83%,wrap)"));
}

#[test]
fn cmd_resize_in_filter_prompt_navigates() {
    let o = cmd_resize(&s(&["+3", "filter> "]), "80");
    assert_eq!(stdout(&o, "").trim(), "backward-word");
    assert!(o.writes.is_empty());
    let o = cmd_resize(&s(&["-3", "send> "]), "80");
    assert_eq!(stdout(&o, ""), "forward-word\n");
}

#[test]
fn cmd_resize_stays_in_bounds() {
    assert_eq!(written(&cmd_resize(&s(&["+100"]), ""), StateFile::Size).unwrap(), "95");
    assert_eq!(written(&cmd_resize(&s(&["-100"]), ""), StateFile::Size).unwrap(), "20");
    let up = written(&cmd_resize(&s(&["3"]), "50"), StateFile::Size).unwrap();
    assert_eq!(written(&cmd_resize(&s(&["-3"]), &up), StateFile::Size).unwrap(), "50");
}

#[test]
fn cmd_send_no_query_returns_zero() {
    assert!(cmd_send("", "", "").is_empty());
}

#[test]
fn cmd_send_with_query_calls_tmux() {
    assert_eq!(caller_args(), s(&["show-environment", "-g", "DIFFVIEW_CALLER"]));
    let calls = cmd_send("src/foo.py", "explain this", "DIFFVIEW_CALLER=%42\n");
    assert_eq!(calls.len(), 2);
    assert_eq!(
        calls[0],
        vec!["send-keys", "-t", "%42", "-l", "In src/foo.py: explain this"]
    );
    assert_eq!(calls[1], vec!["send-keys", "-t", "%42", "Enter"]);
}

#[test]
fn cmd_send_strips_tmux_from_env() {
    let vars = vec![
        ("PATH".to_string(), "/bin".to_string()),
        ("TMUX".to_string(), "/tmp/popup,123,0".to_string()),
        ("TMUX_PANE".to_string(), "%3".to_string()),
    ];
    let env = tmux_env(&vars);
    assert!(!env.iter().any(|v| v.0 == "TMUX"));
    assert_eq!(env, vec![vars[0].clone(), vars[2].clone()]);
    let calls = cmd_send("", "hi", "DIFFVIEW_CALLER=%1\n");
    assert_eq!(calls[0], vec!["send-keys", "-t", "%1", "-l", "hi"]);
}

#[test]
fn nothing_is_sent_without_a_pane() {
    assert!(cmd_send("a", "hi", "").is_empty());
    assert!(cmd_send("a", "hi", "-DIFFVIEW_CALLER\n").is_empty());
    assert!(cmd_send("a", "hi", "DIFFVIEW_CALLER=\n").is_empty());
    assert_eq!(cmd_send("", "hi", "A=b=c")[0][2], "b=c");
}

#[test]
fn cmd_open_extracts_first_hunk_line() {
    let diff = "diff --git a/foo.py b/foo.py\nindex 1..2 100644\n--- a/foo.py\n+++ b/foo.py\n\
@@ -39,7 +39,7 @@ line 38\n line 39\n line 40\n line 41\n-line 42\n+MODIFIED\n line 43\n line 44\n line 45\n";
    assert_eq!(open_diff_args("", "HEAD", "foo.py"), s(&["diff", "HEAD", "--", "foo.py"]));
    let call = cmd_open("files", "foo.py", diff, "", "", "nvim").unwrap();
    assert_eq!(call[0], "nvim");
    assert_eq!(call.len(), 3);
    assert!(call[1].starts_with('+'));
    let line: i32 = call[1][1..].parse().unwrap();
    assert!(line >= 30 && line <= 45, "expected hunk line ~42, got {}", line);
    assert_eq!(line, 42);
    assert_eq!(call[2], "foo.py");
}

#[test]
fn cmd_open_defaults_to_line_one_without_hunk() {
    let call = cmd_open("files", "foo.py", "", "", "", "nvim").unwrap();
    assert_eq!(call[1], "+1");
}

#[test]
fn cmd_open_noop_in_target_mode() {
    assert!(cmd_open("target", "foo.py", "", "", "", "nvim").is_none());
}

#[test]
fn hunk_line_reads_the_first_hunk_alone() {
    assert_eq!(hunk_line("@@ -1 +7 @@\n-a\n+b\n@@ -1 +9 @@\n-c\n+d\n"), "7");
    assert_eq!(hunk_line("@@ -1 @@\n+a\n@@ -1 +9 @@\n+b\n"), "1");
    assert_eq!(hunk_line("@@ -1 +x @@\n+a\n"), "1");
    assert_eq!(hunk_line("+5\n"), "1");
}

#[test]
fn hunk_line_skips_the_context() {
    assert_eq!(hunk_line("--- a/f\n+++ b/f\n@@ -1,4 +1,5 @@\n a\n b\n\n+c\n d\n"), "4");
    assert_eq!(hunk_line("@@ -8,3 +8,2 @@\n a\n-b\n c\n"), "9");
    assert_eq!(hunk_line("@@ -0,0 +1,2 @@\n+a\n+b\n"), "1");
    assert_eq!(hunk_line("@@ -7,4 +97,4 @@ fn x() {\n a\n b\n c\n+d\n"), "100");
    assert_eq!(hunk_line("@@ -1 +007 @@\n a\n+b\n"), "8");
    assert_eq!(hunk_line("@@ -1 +007 @@\n+b\n"), "007");
    assert_eq!(hunk_line("@@ -1 +007 @@\n"), "007");
    assert_eq!(
        hunk_line("@@ -1 +99999999999999999999999999999999999999999 @@\n a\n+b\n"),
        "100000000000000000000000000000000000000000"
    );
}

#[test]
fn hunk_without_a_change_gives_its_start() {
    assert_eq!(hunk_line("@@ -1 +7 @@\n"), "7");
    assert_eq!(hunk_line("@@ -1 +7 @@\n a\n b\n"), "7");
    assert_eq!(hunk_line("@@@ -1,2 -1,2 +12,4 @@@"), "12");
}

#[test]
fn configured_editor_gets_the_first_changed_line() {
    let config = "editor = micro $file +$line\n";
    let diff = "@@ -39,7 +39,7 @@\n line 39\n line 40\n line 41\n-line 42\n+MODIFIED\n";
    assert_eq!(
        cmd_open("files", "foo.py", diff, config, "", "").unwrap(),
        s(&["micro", "foo.py", "+42"])
    );
    assert_eq!(
        cmd_open("files", "foo.py", "", config, "", "").unwrap(),
        s(&["micro", "foo.py", "+1"])
    );
}

#[test]
fn open_diff_args_pass_the_whitespace_option() {
    assert_eq!(
        open_diff_args("-w", "a..b", "f"),
        s(&["diff", "-w", "a..b", "--", "f"])
    );
}

#[test]
fn editor_comes_from_the_configuration() {
    let config = "# editors\n\neditor = micro $file +$line\nother = x\n";
    let t = editor_template(config, "v", "e");
    assert_eq!(t, "micro $file +$line");
    assert_eq!(editor_command(&t, "a b.txt", "12"), s(&["micro", "a b.txt", "+12"]));
    assert_eq!(
        editor_command("nvim +$line $file", "x", "3"),
        s(&["nvim", "+3", "x"])
    );
    assert_eq!(
        editor_command("code --goto $file:$line", "x", "3"),
        s(&["code", "--goto", "x:3"])
    );
}

#[test]
fn editor_defaults_to_visual_then_editor_then_vi() {
    assert_eq!(editor_template("", "code -w", "nano"), "code -w +$line $file");
    assert_eq!(editor_template("", "", "nano"), "nano +$line $file");
    assert_eq!(editor_template("", "", ""), "vi +$line $file");
    assert_eq!(editor_template("editor =\n", "", ""), "vi +$line $file");
    assert_eq!(editor_template("#editor = x\n", "", ""), "vi +$line $file");
    assert_eq!(editor_template("editor\n", "", ""), "vi +$line $file");
    assert_eq!(
        cmd_open("files", "f", "", "", "code -w", "").unwrap(),
        s(&["code", "-w", "+1", "f"])
    );
}

#[test]
fn last_setting_of_a_key_prevails() {
    assert_eq!(editor_template("editor = a\neditor = b = c\n", "", ""), "b = c");
    assert_eq!(editor_template("  editor=a  \r\n", "", ""), "a");
}

#[test]
fn substituted_text_is_not_read_again() {
    assert_eq!(
        editor_command("e $file$line$fil", "$line", "4"),
        s(&["e", "$line4$fil"])
    );
    assert_eq!(editor_command("  ", "f", "1"), s(&[]));
}

#[test]
fn configuration_path_follows_the_environment() {
    assert_eq!(config_path("/x", "/home/u"), "/x/diffview/config");
    assert_eq!(config_path("", "/home/u"), "/home/u/.config/diffview/config");
}

#[test]
fn cmd_toggle_marks_file_viewed() {
    let h = "ce013625030ba8dba906f756967f9e9ca394464a";
    let file = cmd_toggle(&s(&["foo.py"]), "files").unwrap();
    let work = WorkFile::Content(b"hello\n".to_vec());
    assert_eq!(mark_of(&work), h);
    let viewed = toggle_viewed(&file, &work, "").unwrap();
    assert_eq!(viewed, format!("{} foo.py\n", h));
}

#[test]
fn cmd_toggle_unmarks_when_already_viewed_at_same_hash() {
    let h = "ce013625030ba8dba906f756967f9e9ca394464a";
    let file = cmd_toggle(&s(&["foo.py"]), "files").unwrap();
    let work = WorkFile::Content(b"hello\n".to_vec());
    let existing = format!("{} foo.py\nother bar.py\n", h);
    let text = toggle_viewed(&file, &work, &existing).unwrap();
    assert!(!text.contains("foo.py"), "got: {:?}", text);
    assert!(text.contains("bar.py"));
    assert_eq!(text, "other bar.py\n");
}

#[test]
fn cmd_toggle_noop_in_target_mode() {
    assert!(cmd_toggle(&s(&["foo.py"]), "target").is_none());
}

#[test]
fn cmd_toggle_needs_a_file() {
    assert!(cmd_toggle(&[], "files").is_none());
    assert!(cmd_toggle(&s(&[""]), "").is_none());
}

#[test]
fn toggle_viewed_remarks_a_changed_file() {
    let work = WorkFile::Content(b"hello\n".to_vec());
    assert_eq!(
        toggle_viewed("f", &work, "old f\nx g\n").unwrap(),
        "x g\nce013625030ba8dba906f756967f9e9ca394464a f\n"
    );
    assert_eq!(toggle_viewed("f", &WorkFile::Missing, "").unwrap(), "DELETED f\n");
    assert_eq!(toggle_viewed("f", &WorkFile::Missing, "DELETED f\n").unwrap(), "");
    assert!(toggle_viewed("f", &WorkFile::Unreadable, "").is_none());
    assert!(toggle_viewed("", &work, "").is_none());
}

#[test]
fn toggle_viewed_twice_restores_the_record() {
    let work = WorkFile::Content(Vec::new());
    let record = "a x\nb y\n";
    let once = toggle_viewed("f", &work, record).unwrap();
    assert_eq!(once, "a x\nb y\ne69de29bb2d1d6434b8b29ae775ad8c2e48c5391 f\n");
    assert_eq!(toggle_viewed("f", &work, &once).unwrap(), record);
}

#[test]
fn toggle_viewed_takes_paths_that_end_alike_for_one() {
    assert_eq!(toggle_viewed("b", &WorkFile::Missing, "h a b\n").unwrap(), "DELETED b\n");
}

#[test]
fn load_viewed_keeps_the_last_mark() {
    let m = load_viewed("h1 a\nh2 b c\n\nnothing\n h\nh3 a\nh4 \n");
    assert_eq!(m.get("a").unwrap(), "h3");
    assert_eq!(m.get("b c").unwrap(), "h2");
    assert!(m.get("").is_none());
    assert!(m.get("h").is_none());
    assert!(counts_as_viewed("DELETED", &WorkFile::Missing));
    assert!(!counts_as_viewed("", &WorkFile::Unreadable));
    assert!(!counts_as_viewed("DELETED", &WorkFile::Unreadable));
}

#[test]
fn cmd_toggle_ws_flips() {
    let o = cmd_toggle_ws(ME, "");
    assert_eq!(o.code, 0);
    let once = written(&o, StateFile::Ws).unwrap();
    assert_eq!(once, "-w");
    let out = stdout(&o, "w · u");
    assert!(out.contains("reload-sync"));
    assert!(out.contains("change-header"));
    assert_eq!(
        out,
        "reload-sync(/usr/bin/diffview list)+refresh-preview+change-header(w · u)\n"
    );
    assert_eq!(written(&cmd_toggle_ws(ME, &once), StateFile::Ws).unwrap(), "");
}

#[test]
fn cmd_toggle_sbs_flips() {
    let once = written(&cmd_toggle_sbs(ME, "false"), StateFile::Sbs).unwrap();
    assert_eq!(once, "true");
    assert_eq!(written(&cmd_toggle_sbs(ME, &once), StateFile::Sbs).unwrap(), "false");
}

#[test]
fn cmd_toggle_exclude_flips() {
    let o = cmd_toggle_exclude(ME, "false");
    let once = written(&o, StateFile::Exclude).unwrap();
    assert_eq!(once, "true");
    assert_eq!(
        stdout(&o, "x"),
        "reload-sync(/usr/bin/diffview list)+change-header(x)\n"
    );
    assert_eq!(written(&cmd_toggle_exclude(ME, &once), StateFile::Exclude).unwrap(), "false");
}

#[test]
fn cmd_toggle_target_switches_to_target_mode() {
    let o = cmd_toggle_target(ME, &s(&["diffview> ", "myquery"]), "files");
    assert_eq!(written(&o, StateFile::Mode).unwrap(), "target");
    assert_eq!(written(&o, StateFile::Filter).unwrap(), "myquery");
    let out = stdout(&o, "u");
    assert!(out.contains("change-prompt(target> )"));
    assert!(out.contains("disable-search"));
    assert!(out.contains("clear-query"));
    assert!(out.ends_with("+first+change-header(u)+change-ghost(/ to filter)\n"));
}

#[test]
fn cmd_toggle_target_noop_in_target_mode() {
    let o = cmd_toggle_target(ME, &s(&["target> ", "q"]), "target");
    assert_eq!(o.code, 0);
    assert_eq!(stdout(&o, ""), "");
    assert!(o.writes.is_empty());
}

#[test]
fn cmd_toggle_target_noop_in_send_prompt() {
    let o = cmd_toggle_target(ME, &s(&["send> ", "q"]), "files");
    assert_eq!(o.code, 0);
    assert_eq!(stdout(&o, ""), "");
    assert!(o.writes.is_empty());
}

#[test]
fn cmd_enter_action_target_mode_picks_target() {
    let args = s(&["target> ", "q", "abc123^..abc123"]);
    let o = cmd_enter_action(ME, &args, "target", "", "previous-filter");
    assert_eq!(written(&o, StateFile::Target).unwrap(), "abc123^..abc123");
    assert_eq!(written(&o, StateFile::Mode).unwrap(), "files");
    let out = stdout(&o, "");
    assert!(out.contains("change-prompt(diffview> )"));
    assert!(out.contains("change-query(previous-filter)"));
}

#[test]
fn cmd_enter_action_target_mode_load_more() {
    let args = s(&["target> ", "", "__LOAD_MORE__"]);
    assert!(load_more_fits(&args, "target", "10"));
    let o = cmd_enter_action(ME, &args, "target", "10", "");
    assert_eq!(written(&o, StateFile::RecentLimit).unwrap(), "20");
    assert!(stdout(&o, "").contains("reload-sync"));
    let o = cmd_enter_action(ME, &args, "target", "", "");
    assert_eq!(written(&o, StateFile::RecentLimit).unwrap(), "20");
}

#[test]
fn cmd_enter_action_needs_a_target() {
    let o = cmd_enter_action(ME, &s(&["target> ", "q"]), "target", "10", "");
    assert!(matches!(o.reply, Reply::Silent));
    assert!(o.writes.is_empty());
}

#[test]
fn cmd_enter_action_send_prompt_with_query_triggers_send() {
    let args = s(&["send> ", "the question", "src/foo.py"]);
    let o = cmd_enter_action(ME, &args, "files", "", "saved");
    assert_eq!(written(&o, StateFile::Query).unwrap(), "the question");
    let out = stdout(&o, "");
    assert!(out.contains("execute-silent"));
    assert!(out.contains("send"));
    assert!(out.contains("change-query(saved)"));
}

#[test]
fn cmd_enter_action_send_prompt_without_query_just_restores() {
    let args = s(&["send> ", "", "src/foo.py"]);
    let o = cmd_enter_action(ME, &args, "files", "", "saved");
    let out = stdout(&o, "");
    assert!(!out.contains("execute-silent"));
    assert!(out.contains("change-prompt(diffview> )"));
    assert!(o.writes.is_empty());
}

#[test]
fn cmd_enter_action_default_enters_send_prompt() {
    let args = s(&["diffview> ", "user-typed", "src/foo.py"]);
    let o = cmd_enter_action(ME, &args, "files", "", "");
    assert_eq!(written(&o, StateFile::Filter).unwrap(), "user-typed");
    assert_eq!(written(&o, StateFile::Send).unwrap(), "src/foo.py");
    let out = stdout(&o, "");
    assert!(out.contains("change-prompt(send> )"));
    assert!(out.contains("clear-query"));
}

#[test]
fn cmd_escape_action_from_filter_returns_to_diffview() {
    let o = cmd_escape_action(ME, &s(&["filter> "]), "files", "");
    assert!(stdout(&o, "").contains("change-prompt(diffview> )"));
}

#[test]
fn cmd_escape_action_from_filter_in_target_mode() {
    let o = cmd_escape_action(ME, &s(&["filter> "]), "target", "");
    assert!(stdout(&o, "").contains("change-prompt(target> )"));
}

#[test]
fn cmd_escape_action_from_target_switches_to_files() {
    let o = cmd_escape_action(ME, &s(&["target> "]), "target", "saved-filter");
    assert_eq!(written(&o, StateFile::Mode).unwrap(), "files");
    let out = stdout(&o, "");
    assert!(out.contains("change-query(saved-filter)"));
    assert!(out.contains("change-prompt(diffview> )"));
}

#[test]
fn cmd_escape_action_from_send_restores() {
    let o = cmd_escape_action(ME, &s(&["send> "]), "files", "back-to-this");
    let out = stdout(&o, "");
    assert!(out.contains("change-prompt(diffview> )"));
    assert!(out.contains("change-query(back-to-this)"));
}

#[test]
fn cmd_escape_action_elsewhere_does_nothing() {
    let o = cmd_escape_action(ME, &s(&["diffview> "]), "files", "x");
    assert_eq!(stdout(&o, ""), "");
    assert_eq!(o.code, 0);
}

#[test]
fn cmd_enter_filter_emits_search_actions() {
    let out = stdout(&cmd_enter_filter(), "");
    assert!(out.contains("enable-search"));
    assert!(out.contains("change-prompt(filter> )"));
}

#[test]
fn leaving_the_picker_brings_the_filter_back() {
    let opened = cmd_toggle_target(ME, &s(&["diffview> ", "abc"]), "files");
    let mode = written(&opened, StateFile::Mode).unwrap();
    let saved = written(&opened, StateFile::Filter).unwrap();
    let left = cmd_escape_action(ME, &s(&["target> "]), &mode, &saved);
    assert_eq!(written(&left, StateFile::Mode).unwrap(), "files");
    assert!(stdout(&left, "").contains("change-query(abc)"));
    assert!(written(&left, StateFile::Target).is_none());
}

#[test]
fn message_is_about_the_file_under_the_cursor() {
    let begun = cmd_enter_action(ME, &s(&["diffview> ", "abc", "src/x"]), "files", "", "");
    let saved = written(&begun, StateFile::Filter).unwrap();
    let sent = cmd_enter_action(ME, &s(&["send> ", "why", "src/y"]), "files", "", &saved);
    assert!(stdout(&sent, "").contains("change-query(abc)"));
    let calls = cmd_send(
        &written(&begun, StateFile::Send).unwrap(),
        &written(&sent, StateFile::Query).unwrap(),
        "DIFFVIEW_CALLER=%7\n",
    );
    assert_eq!(calls[0][4], "In src/x: why");
}

#[test]
fn dispatch_finds_each_subcommand() {
    let names = [
        ("list", Command::List),
        ("header", Command::Header),
        ("toggle", Command::Toggle),
        ("toggle-ws", Command::ToggleWs),
        ("toggle-sbs", Command::ToggleSbs),
        ("toggle-exclude", Command::ToggleExclude),
        ("toggle-target", Command::ToggleTarget),
        ("enter-filter", Command::EnterFilter),
        ("resize", Command::Resize),
        ("send", Command::Send),
        ("context", Command::Context),
        ("open", Command::Open),
        ("enter-action", Command::EnterAction),
        ("escape-action", Command::EscapeAction),
        ("preview", Command::Preview),
    ];
    for (name, command) in names {
        assert!(is_subcommand(name));
        assert_eq!(dispatch(&parse_args(&s(&["w", name, "x"]))), Some(command));
    }
    assert!(!is_subcommand("lists"));
    assert_eq!(dispatch(&parse_args(&s(&["w", "unknown"]))), None);
}

#[test]
fn cmd_list_follows_the_mode() {
    assert_eq!(cmd_list("target"), Listed::Targets);
    assert_eq!(cmd_list("files"), Listed::Files);
    assert_eq!(cmd_list(""), Listed::Files);
}

#[test]
fn arg_is_empty_where_there_is_none() {
    assert_eq!(arg(&s(&["a", "b"]), 1), "b");
    assert_eq!(arg(&s(&["a", "b"]), 2), "");
}

#[test]
fn object_ids_are_those_of_git() {
    assert_eq!(hash_blob(b""), "e69de29bb2d1d6434b8b29ae775ad8c2e48c5391");
    assert_eq!(hash_blob(b"hello\n"), "ce013625030ba8dba906f756967f9e9ca394464a");
    assert_eq!(blob_bytes(b"ab"), b"blob 2\0ab".to_vec());
    assert_eq!(hex_of(&[0, 15, 160, 255]), "000fa0ff");
}

#[test]
fn fzf_is_called_back_through_a_quoted_path() {
    let list = "  a\x1fa\n";
    let args = fzf_args("/my dir/diffview", false, "u", list);
    assert_eq!(args[4..6], s(&["--prompt", "diffview> "])[..]);
    assert_eq!(args[9..13], s(&["--header", "u", "--delimiter", "\\x1f"])[..]);
    assert!(args[14].starts_with("bash -c '\nfile=\"$1\"\n"));
    assert!(args[14].ends_with("fi\n' -- {2}"));
    assert_eq!(args.len(), 16 + 2 * 28);
    assert_eq!(args.iter().filter(|a| a.as_str() == "--bind").count(), 28);
    assert!(args.contains(&"w:transform('/my dir/diffview' toggle-ws)".to_string()));
    assert_eq!(
        args[args.len() - 1],
        "tab:execute-silent('/my dir/diffview' toggle {2})+reload-sync('/my dir/diffview' list)\
+transform([[ {1} == ✓* ]] || echo down)"
    );
    assert!(!args.contains(&"--header-lines=1".to_string()));
}

#[test]
fn fzf_shows_the_cut_as_a_header() {
    let args = fzf_args("d", true, "", "* Showing\x1f__TOO_MANY__\n  a\x1fa\n");
    assert_eq!(args[5], "target> ");
    assert_eq!(args[16], "--header-lines=1");
    let args = fzf_args("d", true, "", "  a\x1fa\n* Showing\x1f__TOO_MANY__\n");
    assert_eq!(args[16], "--bind");
    let args = fzf_args("d", true, "", "");
    assert_eq!(args[16], "--bind");
}

#[test]
fn bindings_name_every_typing_key() {
    let all = binds("d");
    let keys = all_typing_keys();
    assert!(keys.starts_with("w,x,s,g,o,q,/,a,b,c,"));
    for key in keys.split(',') {
        let bound = all.iter().any(|b| {
            b.starts_with(&format!("{}:", key))
                || (b.ends_with(":ignore") && b.split([',', ':']).any(|k| k == key))
        });
        assert!(bound, "key {:?}", key);
    }
}

#[test]
fn preview_runs_the_script_on_its_argument() {
    assert_eq!(cmd_preview(&s(&["a b"])), s(&["-c", PREVIEW_CMD, "--", "a b"]));
    assert_eq!(cmd_preview(&[])[3], "");
    assert!(!PREVIEW_CMD.contains('\''));
}

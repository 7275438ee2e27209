use diffview::cache::OutputCache;
use diffview::header::{header, rev_count_args, HeaderState};
use diffview::listing::{generate_list, needs_file, plan_list, untracked_args, untracked_paths};
use diffview::number::{decimal_of, digits_plus, i32_of, signed_decimal_of, u32_of, u64_of};
use diffview::numstat::{numstat_args, parse_numstat};
use diffview::order::{sort_once, stands_before};
use diffview::startup::{
    base_branch, candidates, git_dir_args, init_state, merge_base_args, read_file,
    setup_state_files, toplevel_args, upstream_args, upstream_name_args, variable_of, verify_args,
    RepoAnswers,
};
use diffview::stats::{count_newlines, diff_stats, diff_stats_args, diff_totals_of, names_range};
use diffview::targets::{
    branch_log_args, emit_commits_shortstat, generate_target_list, more_args, recent_limit,
    recent_log_args, short_args, upstream_row, TargetSource,
};
use diffview::viewed::WorkFile;

const EMPTY_TREE: &str = "4b825dc642cb6eb9a060e54bf8d69288fbee4904";

fn s(v: &[&str]) -> Vec<String> {
    v.iter().map(|x| x.to_string()).collect()
}

fn content(text: &str) -> WorkFile {
    WorkFile::Content(text.as_bytes().to_vec())
}

fn header_state(target: &str, mode: &str, ws: &str, sbs: &str, exclude: &str) -> HeaderState {
    HeaderState {
        target: target.to_string(),
        mode: mode.to_string(),
        sbs: sbs.to_string(),
        ws: ws.to_string(),
        exclude: exclude.to_string(),
        merge_base: "1111111111111111111111111111111111111111".to_string(),
        upstream: String::new(),
    }
}

fn header_state_default() -> HeaderState {
    header_state("HEAD", "files", "", "false", "false")
}

/// The rows of a list whose files in the working tree `file` gives.
fn list(
    target: &str,
    exclude: &str,
    numstat: &str,
    ls_files: &str,
    viewed: &str,
    file: fn(&str) -> WorkFile,
) -> Vec<(String, String)> {
    let plan = plan_list(target, exclude, numstat, ls_files, viewed);
    let mut files = Vec::new();
    for e in &plan.entries {
        files.push(if needs_file(e, plan.range) { file(&e.path) } else { WorkFile::Unreadable });
    }
    parse_list_rows(&generate_list(&plan, &files))
}

fn parse_list_rows(stdout: &str) -> Vec<(String, String)> {
    stdout
        .lines()
        .filter_map(|line| line.split_once('\x1f').map(|(d, t)| (d.to_string(), t.to_string())))
        .collect()
}

fn has_target(rows: &[(String, String)], target: &str) -> bool {
    rows.iter().any(|r| r.1 == target)
}

#[test]
fn header_uncommitted_no_changes() {
    assert_eq!(header(&header_state_default(), "", "", &[]).trim(), "u");
}

#[test]
fn header_uncommitted_with_stats() {
    let out = header(&header_state_default(), "", "1\t0\tinit.txt\n", &[]);
    assert_eq!(out.trim(), "u +1/-0");
}

#[test]
fn header_merge_base() {
    let head = "1111111111111111111111111111111111111111";
    let h = header_state(head, "files", "", "false", "false");
    let out = header(&h, "", "1\t0\tinit.txt\n", &[]);
    assert!(out.starts_with("m "), "got: {}", out);
    assert!(out.contains("+1/-0"));
}

#[test]
fn header_commit_back_range() {
    let h = header_state("HEAD~1^..HEAD~1", "files", "", "false", "false");
    assert_eq!(rev_count_args(&h).unwrap(), s(&["rev-list", "--count", "HEAD~1..HEAD"]));
    assert!(header(&h, "1\n", "", &[]).trim().starts_with('~'));
    assert_eq!(header(&h, "1\n", "", &[]), "~1");
    assert_eq!(header(&h, "", "2\t3\tf\n", &[7]), "~? +2/-3");
}

#[test]
fn header_flags_only() {
    let h = header_state("HEAD", "files", "-w", "true", "true");
    assert_eq!(header(&h, "", "", &[]).trim(), "s w x · u");
}

#[test]
fn header_flag_order() {
    let h = header_state("HEAD", "files", "-w", "false", "true");
    assert!(header(&h, "", "", &[]).trim().starts_with("w x"));
}

#[test]
fn header_target_mode_omits_target_suffix() {
    let h = header_state("HEAD", "target", "-w", "false", "false");
    let out = header(&h, "", "1\t0\tinit.txt\n", &[]);
    let rhs = out.split('·').last().unwrap_or("").trim().to_string();
    let rhs_words: Vec<&str> = rhs.split_whitespace().collect();
    assert!(!rhs_words.contains(&"u"));
    assert!(out.contains("+1/-0"));
    assert!(rev_count_args(&h).is_none());
}

#[test]
fn header_upstream_and_other_targets() {
    let mut h = header_state("abc", "files", "", "false", "false");
    h.upstream = "abc".to_string();
    assert_eq!(header(&h, "", "", &[]), "p");
    h.upstream = String::new();
    assert_eq!(header(&h, "", "", &[4]), "+4/-0");
    h.target = format!("{}..abc", EMPTY_TREE);
    assert_eq!(header(&h, "9", "", &[4]), "");
    assert!(rev_count_args(&h).is_none());
}

#[test]
fn generate_list_basic() {
    let rows = list("HEAD", "false", "6\t5\tsrc/a.py\n2\t0\tsrc/b.py\n", "", "", |_| {
        WorkFile::Missing
    });
    assert!(has_target(&rows, "src/a.py"));
    assert!(has_target(&rows, "src/b.py"));
    assert_eq!(rows[0].0, "  sr/a.py (+6/-5)");
}

#[test]
fn generate_list_ws_mode_includes_whitespace_only_change() {
    assert_eq!(numstat_args("HEAD"), s(&["diff", "--numstat", "HEAD"]));
    let rows = list("HEAD", "false", "1\t1\ta.txt\n1\t1\tb.txt\n", "", "", |_| {
        WorkFile::Missing
    });
    assert!(has_target(&rows, "a.txt"), "whitespace-only change should still appear: {:?}", rows);
    assert!(has_target(&rows, "b.txt"));
}

#[test]
fn generate_list_rename_suffix() {
    let rows = list("HEAD", "false", "0\t20\told.py\n", "new.py\n", "", |p| {
        if p == "new.py" { content(&"hello\n".repeat(20)) } else { WorkFile::Missing }
    });
    assert!(rows.iter().any(|(_, t)| t == "new.py"));
    let rows = list("HEAD", "false", "0\t0\told.py => new.py\n", "", "", |_| content("x\n"));
    assert_eq!(rows, vec![("  new.py (rename)".to_string(), "new.py".to_string())]);
}

#[test]
fn generate_list_viewed_marker_shown_when_hash_matches() {
    let h = "975fbec8256d3e8a3797e7a3611380f27c49f4ac";
    let rows = list("HEAD", "false", "1\t1\tfoo.py\n", "", &format!("{} foo.py\n", h), |_| {
        content("y\n")
    });
    assert!(
        rows.iter().any(|(d, t)| d.starts_with("✓ ") && t == "foo.py"),
        "rows: {:?}",
        rows
    );
}

#[test]
fn generate_list_viewed_marker_dropped_when_hash_changed() {
    let rows = list("HEAD", "false", "1\t1\tfoo.py\n", "", "oldhash foo.py\n", |_| {
        content("y\n")
    });
    assert!(rows.iter().any(|(d, t)| t == "foo.py" && !d.starts_with("✓")));
}

#[test]
fn generate_list_viewed_marker_for_deleted_file() {
    let rows = list("HEAD", "false", "0\t5\tfoo.py\n", "", "DELETED foo.py\n", |_| {
        WorkFile::Missing
    });
    assert!(rows.iter().any(|(d, t)| t == "foo.py" && d.starts_with("✓")));
}

#[test]
fn generate_list_exclude_drops_generated() {
    let numstat = "1\t1\tsrc/a.py\n1\t1\tsrc/generated/b.py\n";
    let rows = list("HEAD", "true", numstat, "", "", |_| WorkFile::Missing);
    assert!(has_target(&rows, "src/a.py"));
    assert!(!has_target(&rows, "src/generated/b.py"));
}

#[test]
fn exclude_drops_generated_folders_at_any_depth() {
    let none = list("HEAD", "true", "1\t1\tgenerated/b.py\n", "", "", |_| WorkFile::Missing);
    assert!(none.is_empty());
    let numstat = "1\t1\tgenerated/b.py\n1\t1\tgenerated.py\n1\t1\tregenerated/c.py\n";
    let rows = list("HEAD", "true", numstat, "a/generated\n", "", |_| WorkFile::Missing);
    let paths: Vec<&str> = rows.iter().map(|r| r.1.as_str()).collect();
    assert_eq!(paths, vec!["a/generated", "generated.py", "regenerated/c.py"]);
    let all = list("HEAD", "false", numstat, "", "", |_| WorkFile::Missing);
    assert!(has_target(&all, "generated/b.py"));
}

#[test]
fn generate_list_untracked_file_gets_line_count() {
    let rows = list("HEAD", "false", "", "new.py\n", "", |_| content("a\nb\nc\n"));
    let m: Vec<&String> = rows.iter().filter(|(_, t)| t == "new.py").map(|(d, _)| d).collect();
    assert!(!m.is_empty(), "rows: {:?}", rows);
    assert!(m[0].contains("(+3/-0)"), "got: {:?}", m[0]);
}

#[test]
fn generate_list_caps_at_500_with_sentinel() {
    let mut ls_files = String::new();
    for i in 0..501 {
        ls_files.push_str(&format!("u{:04}.txt\n", i));
    }
    let rows = list("HEAD", "false", "", &ls_files, "", |_| content("x\n"));
    assert_eq!(rows.len(), 501, "want 1 sentinel + 500 files");
    let (display, target) = &rows[0];
    assert_eq!(target, "__TOO_MANY__");
    assert!(display.contains("Showing 500 of 501"), "sentinel text: {:?}", display);
    assert_eq!(display, "\x1b[2m* Showing 500 of 501 files\x1b[0m");
    assert_eq!(rows[500].1, "u0499.txt");
}

#[test]
fn generate_list_no_sentinel_under_cap() {
    let mut ls_files = String::new();
    for i in 0..10 {
        ls_files.push_str(&format!("u{:02}.txt\n", i));
    }
    let rows = list("HEAD", "false", "", &ls_files, "", |_| content("x\n"));
    assert!(!rows.iter().any(|(_, t)| t == "__TOO_MANY__"));
    assert_eq!(rows.len(), 10);
}

#[test]
fn generate_list_range_target_skips_untracked() {
    let rows = list("HEAD^..HEAD", "false", "1\t0\ttracked.py\n", "untracked.py\n", "", |_| {
        content("nope\n")
    });
    assert!(has_target(&rows, "tracked.py"));
    assert!(!has_target(&rows, "untracked.py"));
}

#[test]
fn changed_files_come_before_untracked_ones_where_room_is_short() {
    let mut numstat = String::new();
    for i in 0..300 {
        numstat.push_str(&format!("1\t0\tz{:04}\n", i));
    }
    let mut ls_files = String::new();
    for i in 0..300 {
        ls_files.push_str(&format!("a{:04}\n", i));
    }
    let plan = plan_list("HEAD", "false", &numstat, &ls_files, "");
    assert!(plan.truncated);
    assert_eq!(plan.total, 600);
    assert_eq!(plan.entries.len(), 500);
    assert_eq!(plan.entries[199].path, "a0199");
    assert_eq!(plan.entries[200].path, "z0000");
    assert_eq!(plan.entries[499].path, "z0299");
}

#[test]
fn lists_are_sorted_and_hold_each_file_once() {
    let plan = plan_list("HEAD", "false", "1\t0\tb\n1\t0\ta\n", "b\nB\n\n", "");
    let paths: Vec<&str> = plan.entries.iter().map(|e| e.path.as_str()).collect();
    assert_eq!(paths, vec!["B", "a", "b"]);
    assert_eq!(plan.total, 4);
    assert!(!plan.truncated);
    assert_eq!(generate_list(&plan_list("HEAD", "", "", "", ""), &Vec::new()), "");
}

#[test]
fn known_rows_need_no_file() {
    let plan = plan_list("HEAD", "", "1\t0\ta\n-\t-\tb\n0\t0\tc => d\n", "", "x a\n");
    let needs: Vec<bool> = plan.entries.iter().map(|e| needs_file(e, plan.range)).collect();
    assert_eq!(needs, vec![true, true, false]);
    assert!(!needs_file(&plan.entries[1], true));
}

#[test]
fn untracked_files_are_those_that_git_lists() {
    assert_eq!(untracked_args(), s(&["ls-files", "--others", "--exclude-standard"]));
    assert_eq!(untracked_paths("HEAD", "a\n\nb c\r\n"), s(&["a", "b c"]));
    assert_eq!(untracked_paths("a..b", "a\n"), s(&[]));
}

#[test]
fn parse_numstat_lists_every_changed_file() {
    let n = parse_numstat("3\t4\ta\n-\t-\tbin\n0\t0\tx/{p => q}/y\n0\t0\tmode\nbad\n1\t1\t\nx\t1\tw\n");
    assert_eq!(n.paths, s(&["a", "bin", "x/q/y", "mode", "w"]));
    assert_eq!(n.file_stats.get("a").unwrap(), "+3/-4");
    assert!(n.file_stats.get("bin").is_none());
    assert!(n.file_stats.get("mode").is_none());
    assert!(n.file_stats.get("w").is_none());
    assert_eq!(n.renamed.get("x/q/y").unwrap(), "x/p/y");
    assert!(n.renamed.get("a").is_none());
}

fn source(merge_base: &str) -> TargetSource {
    TargetSource {
        head_stats: String::new(),
        merge_base: merge_base.to_string(),
        branch_log: String::new(),
        base_short: String::new(),
        base_stats: String::new(),
        upstream: String::new(),
        upstream_name: String::new(),
        upstream_short: String::new(),
        upstream_stats: String::new(),
        recent_log: String::new(),
        more: false,
    }
}

#[test]
fn generate_target_list_no_merge_base() {
    let head = "1111111111111111111111111111111111111111";
    let mut src = source(head);
    src.base_short = "1111111\n".to_string();
    src.recent_log =
        "COMMIT 1111111\t\tinit\n\n 1 file changed, 1 insertion(+)\n".to_string();
    let rows = parse_list_rows(&generate_target_list(&src));
    let targets: Vec<&str> = rows.iter().map(|(_, t)| t.as_str()).collect();
    assert_eq!(targets[0], "HEAD");
    assert!(
        targets.iter().any(|&t| t.ends_with(&format!("..{}", "1111111"))),
        "no per-commit row for HEAD: {:?}",
        targets,
    );
}

#[test]
fn generate_target_list_with_merge_base() {
    let init = "1111111111111111111111111111111111111111";
    let mut src = source(init);
    src.branch_log =
        "COMMIT 2222222\t1111111\tsecond\n\n 1 file changed, 1 insertion(+)\n".to_string();
    src.base_short = "1111111\n".to_string();
    src.base_stats = "+1/-0".to_string();
    src.recent_log =
        "COMMIT 1111111\t\tinit\n\n 1 file changed, 1 insertion(+)\n".to_string();
    let rows = parse_list_rows(&generate_target_list(&src));
    let displays: Vec<&str> = rows.iter().map(|(d, _)| d.as_str()).collect();
    assert!(displays.iter().any(|d| d.contains("Uncommitted")));
    assert!(displays.iter().any(|d| d.contains("Since merge base")));
    assert_eq!(displays[1], "second (+1/-0) 2222222");
    assert_eq!(rows[1].1, "2222222^..2222222");
    assert_eq!(displays[2], "* Since merge base (+1/-0) 1111111");
}

#[test]
fn generate_target_list_root_commit_target_diffs_cleanly() {
    let mut src = source("1111111111111111111111111111111111111111");
    src.recent_log =
        "COMMIT 1111111\t\tinit\n\n 1 file changed, 1 insertion(+)\n".to_string();
    let rows = parse_list_rows(&generate_target_list(&src));
    let row = rows.iter().find(|(_, t)| t.ends_with("..1111111") && t.as_str() != "HEAD");
    let target = match row {
        Some(r) => r.1.clone(),
        None => panic!("no per-commit row found: {:?}", rows),
    };
    assert_eq!(target, format!("{}..1111111", EMPTY_TREE));
    assert!(names_range(&target));
}

#[test]
fn target_list_without_a_merge_base_is_short() {
    let mut src = source("HEAD");
    src.head_stats = "+2/-1".to_string();
    src.upstream = "abc".to_string();
    src.upstream_short = "ab\n".to_string();
    src.more = true;
    assert_eq!(
        generate_target_list(&src),
        "* Uncommitted (+2/-1)\x1fHEAD\n* Vs upstream ab\x1fabc\n* Load 10 more\x1f__LOAD_MORE__\n"
    );
}

#[test]
fn commits_without_statistics_get_no_row() {
    let log = "COMMIT a\tp q\tmerge\nCOMMIT b\tp\tfix\tit\n\n 2 files changed, 3 insertions(+), 1 deletion(-)\nCOMMIT c\tp\trename\n\n 1 file changed\n";
    assert_eq!(
        emit_commits_shortstat(log),
        "fix\tit (+3/-1) b\x1fb^..b\nrename c\x1fc^..c\n"
    );
    assert_eq!(emit_commits_shortstat(""), "");
    assert_eq!(emit_commits_shortstat("COMMIT broken\n\n 1 file changed\n"), "");
}

#[test]
fn upstream_row_is_shown_where_it_tells_something() {
    assert!(upstream_row("", "m", "n", "s", "").is_none());
    assert!(upstream_row("m", "m", "n", "s", "").is_none());
    assert_eq!(upstream_row("u", "m", "o/x", "s\n", "+1/-2").unwrap(), "* Vs o/x (+1/-2) s\x1fu");
    assert_eq!(upstream_row("u", "m", "", "s", "").unwrap(), "* Vs upstream s\x1fu");
}

#[test]
fn git_is_asked_for_commits() {
    let format = "--pretty=tformat:COMMIT %h\t%P\t%s";
    assert_eq!(branch_log_args("", "mb"), s(&["log", "--shortstat", format, "mb..HEAD"]));
    assert_eq!(
        recent_log_args("-w", 20, "HEAD"),
        s(&["log", "--shortstat", format, "-w", "-n", "20", "HEAD"])
    );
    assert_eq!(more_args("mb", 10), s(&["rev-parse", "--quiet", "--verify", "mb~10"]));
    assert_eq!(short_args("mb"), s(&["rev-parse", "--short", "mb"]));
    assert_eq!(recent_limit("30"), 30);
    assert_eq!(recent_limit(""), 10);
    assert_eq!(recent_limit("-1"), 10);
}

#[test]
fn statistics_add_up() {
    assert_eq!(diff_stats_args("", "t"), s(&["diff", "--numstat", "t"]));
    assert_eq!(diff_stats_args("-w", "t"), s(&["diff", "--numstat", "-w", "t"]));
    let numstat = "1\t2\ta\n-\t-\tb\n3\t4\tc\nx\ty\tz\n1\t1\n";
    assert_eq!(diff_stats(numstat, "HEAD", &[5, 0]), "+9/-6");
    assert_eq!(diff_stats(numstat, "a..b", &[5, 0]), "+4/-6");
    assert_eq!(diff_stats("", "HEAD", &[0]), "");
    assert_eq!(count_newlines(b"a\nb\n\nc"), 3);
}

#[test]
fn statistics_that_do_not_fit_are_seen() {
    let big = "18446744073709551615\t0\ta\n";
    assert_eq!(diff_totals_of(big, "HEAD", &[0]), Some((u64::MAX, 0)));
    assert_eq!(diff_totals_of(big, "HEAD", &[1]), None);
    assert_eq!(diff_totals_of(big, "a..b", &[1]), Some((u64::MAX, 0)));
    assert_eq!(diff_totals_of("18446744073709551616\t0\ta\n", "HEAD", &[]), Some((0, 0)));
}

fn answers() -> RepoAnswers {
    RepoAnswers {
        merge_base: "mb\n".to_string(),
        upstream: "up\n".to_string(),
        upstream_name: "origin/x\n".to_string(),
        git_dir: ".git\n".to_string(),
        toplevel: "/repo\n".to_string(),
    }
}

fn start(argv: &[&str], repo: &RepoAnswers) -> (Vec<(String, String)>, bool, bool) {
    let mut a = diffview::args::parse_args(&s(argv));
    let st = init_state(&mut a, None, repo);
    (st.env, st.upstream_missing, a.target_mode)
}

fn first_target(argv: &[&str]) -> String {
    start(argv, &answers()).0[0].1.clone()
}

#[test]
fn first_target_follows_the_flags() {
    assert_eq!(first_target(&[]), "HEAD");
    assert_eq!(first_target(&["u"]), "HEAD");
    assert_eq!(first_target(&["m"]), "mb");
    assert_eq!(first_target(&["p", "m"]), "up");
    assert_eq!(first_target(&["m", "~12", "p"]), "HEAD~12^..HEAD~12");
    assert_eq!(first_target(&["~"]), "HEAD");
    assert_eq!(first_target(&["~1", "~2"]), "HEAD~2^..HEAD~2");
}

#[test]
fn environment_holds_what_calls_back_need() {
    let (env, missing, picker) = start(&["w", "x", "s"], &answers());
    let want = [
        ("DIFFVIEW_TARGET", "HEAD"),
        ("DIFFVIEW_HEAD_TARGET", "HEAD"),
        ("DIFFVIEW_MERGE_BASE_TARGET", "mb"),
        ("DIFFVIEW_UPSTREAM_TARGET", "up"),
        ("DIFFVIEW_UPSTREAM_NAME", "origin/x"),
        ("DIFFVIEW_WS", "-w"),
        ("DIFFVIEW_EXCLUDE", "true"),
        ("DIFFVIEW_VIEWED", ".git/diff-viewed"),
        ("DIFFVIEW_TOPLEVEL", "/repo"),
    ];
    let want: Vec<(String, String)> =
        want.iter().map(|(k, v)| (k.to_string(), v.to_string())).collect();
    assert_eq!(env, want);
    assert!(!missing);
    assert!(!picker);
}

#[test]
fn call_back_changes_nothing() {
    for present in ["HEAD", ""] {
        let mut a = diffview::args::parse_args(&s(&["p", "w", "list"]));
        let before = format!("{:?}", a);
        let mut repo = answers();
        repo.upstream = String::new();
        let st = init_state(&mut a, Some(present), &repo);
        assert!(st.env.is_empty());
        assert!(!st.upstream_missing);
        assert_eq!(format!("{:?}", a), before);
    }
}

#[test]
fn missing_upstream_opens_the_picker() {
    let mut repo = answers();
    repo.upstream = "\n".to_string();
    repo.merge_base = String::new();
    let (env, missing, picker) = start(&["p", "m"], &repo);
    assert!(missing);
    assert!(picker);
    assert_eq!(env[0].1, "HEAD");
    assert_eq!(env[2].1, "HEAD");
    assert_eq!(env[4].1, "");
}

#[test]
fn base_branch_is_the_first_that_exists() {
    assert_eq!(candidates(), s(&["origin/main", "origin/master", "main", "master"]));
    assert_eq!(base_branch(&[true]), "origin/main");
    assert_eq!(base_branch(&[false, false, true]), "main");
    assert_eq!(base_branch(&[false, false, false, true]), "master");
    assert_eq!(base_branch(&[false, false, false, false]), "origin/main");
    assert_eq!(verify_args("main"), s(&["rev-parse", "--verify", "main"]));
    assert_eq!(merge_base_args("main"), s(&["merge-base", "HEAD", "main"]));
}

#[test]
fn git_is_asked_about_the_repository() {
    assert_eq!(upstream_args(), s(&["rev-parse", "--verify", "--quiet", "@{upstream}"]));
    assert_eq!(upstream_name_args(), s(&["rev-parse", "--abbrev-ref", "@{upstream}"]));
    assert_eq!(git_dir_args(), s(&["rev-parse", "--git-dir"]));
    assert_eq!(toplevel_args(), s(&["rev-parse", "--show-toplevel"]));
}

#[test]
fn state_files_start_with_their_values() {
    let a = diffview::args::parse_args(&s(&["s", "t"]));
    let files: Vec<(String, String)> = setup_state_files(&a, "-w", "false", "HEAD")
        .into_iter()
        .map(|(f, v)| (variable_of(f), v))
        .collect();
    let want = [
        ("DIFFVIEW_SIZE_FILE", "80"),
        ("DIFFVIEW_SEND_FILE", ""),
        ("DIFFVIEW_QUERY_FILE", ""),
        ("DIFFVIEW_FILTER_FILE", ""),
        ("DIFFVIEW_CONTEXT_FILE", "4"),
        ("DIFFVIEW_WS_FILE", "-w"),
        ("DIFFVIEW_EXCLUDE_FILE", "false"),
        ("DIFFVIEW_TARGET_FILE", "HEAD"),
        ("DIFFVIEW_SBS_FILE", "true"),
        ("DIFFVIEW_MODE_FILE", "target"),
        ("DIFFVIEW_RECENT_LIMIT_FILE", "10"),
    ];
    let want: Vec<(String, String)> =
        want.iter().map(|(k, v)| (k.to_string(), v.to_string())).collect();
    assert_eq!(files, want);
}

#[test]
fn state_values_lose_their_line_feeds() {
    assert_eq!(read_file("p", Some("a\nb\n\n"), "d"), "a\nb");
    assert_eq!(read_file("p", None, "d"), "d");
    assert_eq!(read_file("", Some("a"), "d"), "d");
    assert_eq!(read_file("p", Some(""), "d"), "");
}

#[test]
fn outputs_are_kept_under_their_arguments() {
    let mut cache = OutputCache::new();
    assert!(cache.get(&s(&["a"])).is_none());
    cache.insert(s(&["a", "b"]), "1".to_string());
    cache.insert(s(&["a"]), "2".to_string());
    assert_eq!(cache.get(&s(&["a", "b"])).unwrap(), "1");
    assert_eq!(cache.get(&s(&["a"])).unwrap(), "2");
    assert!(cache.get(&s(&["ab"])).is_none());
    cache.insert(s(&["a"]), "3".to_string());
    assert_eq!(cache.get(&s(&["a"])).unwrap(), "3");
}

#[test]
fn numbers_read_back() {
    for n in [0u128, 9, 10, 999, 4294967295, 18446744073709551615] {
        assert_eq!(decimal_of(n), n.to_string());
        assert_eq!(u64_of(&decimal_of(n)), Some(n as u64));
    }
    assert_eq!(u64_of("18446744073709551616"), None);
    assert_eq!(u64_of("+7"), Some(7));
    assert_eq!(u64_of("+"), None);
    assert_eq!(u64_of(""), None);
    assert_eq!(u64_of("-0"), None);
    assert_eq!(u32_of("4294967296"), None);
    assert_eq!(u32_of("0004294967295"), Some(u32::MAX));
    for n in [i32::MIN, -10, 0, 5, i32::MAX] {
        assert_eq!(i32_of(&signed_decimal_of(n)), Some(n));
    }
    assert_eq!(i32_of("2147483648"), None);
    assert_eq!(i32_of("-2147483649"), None);
    assert_eq!(i32_of("-"), None);
    assert_eq!(i32_of("+-1"), None);
}

#[test]
fn digits_add_up() {
    assert_eq!(digits_plus(&['3', '9'], 3), "42");
    assert_eq!(digits_plus(&['0', '9'], 1), "10");
    assert_eq!(digits_plus(&['0', '0'], 0), "0");
    assert_eq!(digits_plus(&[], 12), "12");
    assert_eq!(digits_plus(&['9', '9'], 1000001), "1000100");
}

#[test]
fn texts_are_ordered_by_their_bytes() {
    let mut v = s(&["b", "a", "é", "z", "a/b", "a", "", "A", "\u{10000}", "\u{ffff}"]);
    let mut want = v.clone();
    want.sort();
    want.dedup();
    v.push("b".to_string());
    assert_eq!(sort_once(v), want);
    assert!(stands_before("a", "ab"));
    assert!(!stands_before("a", "a"));
    assert!(!stands_before("b", "ab"));
}

use diffview::args::parse_args;
use diffview::paths::{parse_rename_path, shorten_path};
use diffview::stats::format_stats;

fn s(v: &[&str]) -> Vec<String> {
    v.iter().map(|x| x.to_string()).collect()
}

#[test]
fn format_stats_basic() {
    assert_eq!(format_stats(" 3 files changed, 5 insertions(+), 2 deletions(-)"), "+5/-2");
}

#[test]
fn format_stats_insertions_only() {
    assert_eq!(format_stats(" 1 file changed, 7 insertions(+)"), "+7/-0");
}

#[test]
fn format_stats_deletions_only() {
    assert_eq!(format_stats(" 1 file changed, 4 deletions(-)"), "+0/-4");
}

#[test]
fn format_stats_empty() {
    assert_eq!(format_stats(""), "");
}

#[test]
fn format_stats_no_changes() {
    assert_eq!(format_stats(" 0 files changed"), "");
}

#[test]
fn shorten_path_short() {
    assert_eq!(shorten_path("foo.py"), "foo.py");
}

#[test]
fn shorten_path_keeps_last_segment() {
    assert_eq!(shorten_path("foo/bar/baz.py"), "fo/ba/baz.py");
}

#[test]
fn parse_args_flags() {
    let a = parse_args(&s(&["w", "x", "s", "m", "p"]));
    assert_eq!(a.ws, "-w");
    assert!(a.exclude);
    assert!(a.sidebyside);
    assert!(a.merge_base);
    assert!(a.upstream);
    assert_eq!(a.subcmd, "");
}

#[test]
fn parse_args_commit_back() {
    let a = parse_args(&s(&["~3"]));
    assert_eq!(a.commit_back, "3");
}

#[test]
fn parse_args_subcommand_swallows_rest() {
    let a = parse_args(&s(&["w", "list", "extra", "args"]));
    assert_eq!(a.ws, "-w");
    assert_eq!(a.subcmd, "list");
    assert_eq!(a.subcmd_args, vec!["extra", "args"]);
}

#[test]
fn parse_args_target_mode() {
    assert!(parse_args(&s(&["t"])).target_mode);
}

#[test]
fn parse_args_upstream_flag() {
    assert!(parse_args(&s(&["p"])).upstream);
}

#[test]
fn parse_rename_path_plain() {
    assert_eq!(
        parse_rename_path("old.py => new.py"),
        Some(("old.py".to_string(), "new.py".to_string()))
    );
}

#[test]
fn parse_rename_path_brace_with_prefix_and_suffix() {
    assert_eq!(
        parse_rename_path("a/{old => new}/c"),
        Some(("a/old/c".to_string(), "a/new/c".to_string()))
    );
}

#[test]
fn parse_rename_path_brace_empty_new_collapses_slash() {
    assert_eq!(
        parse_rename_path("dir/{sub => }/file.hpp"),
        Some(("dir/sub/file.hpp".to_string(), "dir/file.hpp".to_string()))
    );
}

#[test]
fn parse_rename_path_brace_empty_old_collapses_slash() {
    assert_eq!(
        parse_rename_path("dir/{ => sub}/file.hpp"),
        Some(("dir/file.hpp".to_string(), "dir/sub/file.hpp".to_string()))
    );
}

#[test]
fn parse_rename_path_brace_only_prefix() {
    assert_eq!(
        parse_rename_path("dir/{old.hpp => new.hpp}"),
        Some(("dir/old.hpp".to_string(), "dir/new.hpp".to_string()))
    );
}

#[test]
fn parse_rename_path_no_arrow() {
    assert_eq!(parse_rename_path("just/a/path.py"), None);
}

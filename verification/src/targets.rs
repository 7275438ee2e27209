//! The list of targets to diff against: the working tree, commits, branches.

use crate::number::{decimal, decimal_of, parse_unsigned, u32_of};
use crate::stats::{format_stats, shortstat_text};
use crate::text::{
    begins_with, chars_of, close_text, closed, fields, fields_of, join, join_with, lines, lines_of,
    piece, same, starts_with, strings, texts, trim, trim_end_newlines, trimmed,
    without_end_newlines,
};
use vstd::prelude::*;
use vstd::string::*;

verus! {

/// The object id of the empty tree, which stands in for the parent of a root commit.
pub const EMPTY_TREE: &'static str = "4b825dc642cb6eb9a060e54bf8d69288fbee4904";

/// The format of `git log` that [`emit_commits_shortstat`] reads.
pub const LOG_FORMAT: &'static str = "--pretty=tformat:COMMIT %h\t%P\t%s";

/// How many recent commits are listed at first.
pub const RECENT_LIMIT: u32 = 10;

/// The range of commits that holds the commit `h` alone.
pub open spec fn commit_range(h: Seq<char>, parents: Seq<char>) -> Seq<char> {
    if parents.len() == 0 {
        EMPTY_TREE@ + ".."@ + h
    } else {
        h + "^"@ + ".."@ + h
    }
}

/// The row of the commit `h` with the subject `subj`.
pub open spec fn commit_row(
    h: Seq<char>,
    parents: Seq<char>,
    subj: Seq<char>,
    shortstat: Seq<char>,
) -> Seq<char> {
    let stat = shortstat_text(shortstat);
    let display = if stat.len() > 0 {
        subj + " ("@ + stat + ") "@ + h
    } else {
        subj + " "@ + h
    };
    display + "\x1f"@ + commit_range(h, parents)
}

/// How far the output of `git log` has been read: the rows so far, and the commit whose
/// statistics are still to come.
pub struct LogScan {
    pub rows: Seq<Seq<char>>,
    pub pending: Seq<char>,
}

/// What `scan` becomes when the output goes on with `line`.
pub open spec fn with_log_line(scan: LogScan, line: Seq<char>) -> LogScan {
    if starts_with(line, "COMMIT "@) {
        LogScan { rows: scan.rows, pending: line.skip(7) }
    } else if line.len() > 0 && scan.pending.len() > 0 {
        match fields(scan.pending) {
            None => LogScan { rows: scan.rows, pending: Seq::empty() },
            Some((h, parents, subj)) => LogScan {
                rows: scan.rows.push(commit_row(h, parents, subj, line)),
                pending: Seq::empty(),
            },
        }
    } else {
        scan
    }
}

/// How far the lines `ls` take the reading of the output of `git log`.
pub open spec fn log_scan(ls: Seq<Seq<char>>) -> LogScan
    decreases ls.len(),
{
    if ls.len() == 0 {
        LogScan { rows: Seq::empty(), pending: Seq::empty() }
    } else {
        with_log_line(log_scan(ls.drop_last()), ls.last())
    }
}

/// The rows for the commits that `git log` gives in `output`.
pub open spec fn commit_rows(output: Seq<char>) -> Seq<Seq<char>> {
    log_scan(lines(output)).rows
}

/// The text of the rows for the commits that `git log` gives in `output`.
pub open spec fn commits_text(output: Seq<char>) -> Seq<char> {
    closed(join(commit_rows(output), "\n"@))
}

/// The arguments of the `git` call that shows the commits that `log_args` ask for.
pub open spec fn commit_log_argv(ws: Seq<char>, log_args: Seq<Seq<char>>) -> Seq<Seq<char>> {
    let start = seq!["log"@, "--shortstat"@, LOG_FORMAT@];
    if ws.len() == 0 {
        start + log_args
    } else {
        start.push(ws) + log_args
    }
}

/// The arguments of the `git` call that shows the commits since the merge base `mb`.
pub open spec fn branch_log_argv(ws: Seq<char>, mb: Seq<char>) -> Seq<Seq<char>> {
    commit_log_argv(ws, seq![mb + "..HEAD"@])
}

/// The arguments of the `git` call that shows the `limit` latest commits up to `mb`.
pub open spec fn recent_log_argv(ws: Seq<char>, limit: nat, mb: Seq<char>) -> Seq<Seq<char>> {
    commit_log_argv(ws, seq!["-n"@, decimal(limit), mb])
}

/// The arguments of the `git` call that succeeds where there are commits before the `limit`
/// latest ones up to `mb`.
pub open spec fn more_argv(mb: Seq<char>, limit: nat) -> Seq<Seq<char>> {
    seq!["rev-parse"@, "--quiet"@, "--verify"@, mb + "~"@ + decimal(limit)]
}

/// The arguments of the `git` call that abbreviates the object id of `rev`.
pub open spec fn short_argv(rev: Seq<char>) -> Seq<Seq<char>> {
    seq!["rev-parse"@, "--short"@, rev]
}

/// How many recent commits the state `s` asks for.
pub open spec fn limit_in(s: Seq<char>) -> nat {
    match parse_unsigned(s, u32::MAX as nat) {
        Some(n) => n,
        None => RECENT_LIMIT as nat,
    }
}

/// The row of the upstream branch, unless there is none or it is the merge base.
pub open spec fn upstream_shown(
    upstream: Seq<char>,
    mb: Seq<char>,
    name: Seq<char>,
    short: Seq<char>,
    stats: Seq<char>,
) -> Option<Seq<char>> {
    if upstream.len() == 0 || upstream == mb {
        None
    } else {
        let label = if name.len() == 0 {
            "upstream"@
        } else {
            name
        };
        let shown = if stats.len() > 0 {
            "* Vs "@ + label + " ("@ + stats + ") "@ + trim(short)
        } else {
            "* Vs "@ + label + " "@ + trim(short)
        };
        Some(shown + "\x1f"@ + upstream)
    }
}

/// What the list of targets is made from.
pub struct TargetSource {
    /// The statistics of the working tree against `HEAD`.
    pub head_stats: String,
    /// The merge base, or `HEAD` where there is none.
    pub merge_base: String,
    /// The output of `git` for [`branch_log_args`].
    pub branch_log: String,
    /// The output of `git` for [`short_args`] of the merge base.
    pub base_short: String,
    /// The statistics against the merge base.
    pub base_stats: String,
    /// The upstream commit, or nothing.
    pub upstream: String,
    /// The name of the upstream branch, or nothing.
    pub upstream_name: String,
    /// The output of `git` for [`short_args`] of the upstream commit.
    pub upstream_short: String,
    /// The statistics against the upstream commit.
    pub upstream_stats: String,
    /// The output of `git` for [`recent_log_args`].
    pub recent_log: String,
    /// Whether `git` succeeded for [`more_args`].
    pub more: bool,
}

/// The contents of [`TargetSource`].
pub struct SourceModel {
    pub head_stats: Seq<char>,
    pub merge_base: Seq<char>,
    pub branch_log: Seq<char>,
    pub base_short: Seq<char>,
    pub base_stats: Seq<char>,
    pub upstream: Seq<char>,
    pub upstream_name: Seq<char>,
    pub upstream_short: Seq<char>,
    pub upstream_stats: Seq<char>,
    pub recent_log: Seq<char>,
    pub more: bool,
}

impl View for TargetSource {
    type V = SourceModel;

    open spec fn view(&self) -> SourceModel {
        SourceModel {
            head_stats: self.head_stats@,
            merge_base: self.merge_base@,
            branch_log: self.branch_log@,
            base_short: self.base_short@,
            base_stats: self.base_stats@,
            upstream: self.upstream@,
            upstream_name: self.upstream_name@,
            upstream_short: self.upstream_short@,
            upstream_stats: self.upstream_stats@,
            recent_log: self.recent_log@,
            more: self.more,
        }
    }
}

/// The row of the working tree.
pub open spec fn head_row(stats: Seq<char>) -> Seq<char> {
    if stats.len() > 0 {
        "* Uncommitted ("@ + stats + ")\x1fHEAD"@
    } else {
        "* Uncommitted\x1fHEAD"@
    }
}

/// The row of the merge base `mb`.
pub open spec fn base_row(mb: Seq<char>, short: Seq<char>, stats: Seq<char>) -> Seq<char> {
    if stats.len() > 0 {
        "* Since merge base ("@ + stats + ") "@ + trim(short) + "\x1f"@ + mb
    } else {
        "* Since merge base "@ + trim(short) + "\x1f"@ + mb
    }
}

/// `rows`, and the rows for the commits in `log` as one block where there are any.
pub open spec fn with_commits(rows: Seq<Seq<char>>, log: Seq<char>) -> Seq<Seq<char>> {
    let block = trim_end_newlines(commits_text(log));
    if block.len() > 0 {
        rows.push(block)
    } else {
        rows
    }
}

/// The blocks of rows of the list of targets.
pub open spec fn target_blocks(s: SourceModel) -> Seq<Seq<char>> {
    let start = seq![head_row(s.head_stats)];
    let branch = if s.merge_base != "HEAD"@ {
        with_commits(start, s.branch_log).push(base_row(s.merge_base, s.base_short, s.base_stats))
    } else {
        start
    };
    let up = upstream_shown(
        s.upstream,
        s.merge_base,
        s.upstream_name,
        s.upstream_short,
        s.upstream_stats,
    );
    let with_up = match up {
        Some(r) => branch.push(r),
        None => branch,
    };
    let recent = with_commits(with_up, s.recent_log);
    if s.more {
        recent.push("* Load 10 more\x1f__LOAD_MORE__"@)
    } else {
        recent
    }
}

/// The text of the list of targets.
pub open spec fn target_list_text(s: SourceModel) -> Seq<char> {
    closed(join(target_blocks(s), "\n"@))
}

/// The row of the commit `h`.
fn show_commit(h: &str, parents: &str, subj: &str, shortstat: &str) -> (r: String)
    ensures
        r@ == commit_row(h@, parents@, subj@, shortstat@),
{
    let stat = format_stats(shortstat);
    let mut r = subj.to_owned();
    if !stat.as_str().is_empty() {
        r.append(" (");
        r.append(&stat);
        r.append(") ");
        r.append(h);
    } else {
        r.append(" ");
        r.append(h);
    }
    r.append("\x1f");
    let mut range = if parents.is_empty() {
        EMPTY_TREE.to_owned()
    } else {
        let mut parent = h.to_owned();
        parent.append("^");
        parent
    };
    range.append("..");
    range.append(h);
    r.append(&range);
    r
}

/// The text of the rows for the commits that `git log` gives in `output`.
/// A commit without statistics has no row.
pub fn emit_commits_shortstat(output: &str) -> (r: String)
    ensures
        r@ == commits_text(output@),
{
    let ls = lines_of(output);
    let ghost all = lines(output@);
    let mut out: Vec<String> = Vec::new();
    let mut pending = String::new();
    let mut i: usize = 0;
    assert(texts(out@) =~= Seq::<Seq<char>>::empty());
    while i < ls.len()
        invariant
            all == texts(ls@),
            i <= ls@.len(),
            texts(out@) == log_scan(all.take(i as int)).rows,
            pending@ == log_scan(all.take(i as int)).pending,
        decreases ls@.len() - i,
    {
        broadcast use crate::text::lemma_texts_push;

        assert(all.take(i + 1).drop_last() == all.take(i as int));
        assert(all.take(i + 1).last() == ls@[i as int]@);
        let line = ls[i].as_str();
        if begins_with(line, "COMMIT ") {
            proof {
                reveal_strlit("COMMIT ");
            }
            let cs = chars_of(line);
            pending = piece(&cs, 7, cs.len());
            assert(pending@ == line@.skip(7));
        } else if !line.is_empty() && !pending.as_str().is_empty() {
            match fields_of(&pending) {
                None => {},
                Some((h, parents, subj)) => {
                    out.push(show_commit(&h, &parents, &subj, line));
                },
            }
            pending = String::new();
        }
        i += 1;
    }
    assert(all.take(all.len() as int) == all);
    close_text(join_with(&out, "\n"))
}

/// The arguments of the `git` call that shows the commits that `log_args` ask for.
fn commit_log_args(ws: &str, log_args: Vec<String>) -> (r: Vec<String>)
    ensures
        texts(r@) == commit_log_argv(ws@, texts(log_args@)),
{
    let mut r = strings(&["log", "--shortstat", LOG_FORMAT]);
    let ghost start = seq!["log"@, "--shortstat"@, LOG_FORMAT@];
    assert(texts(r@) =~= start);
    let ghost mut head = start;
    if !ws.is_empty() {
        r.push(ws.to_owned());
        proof {
            head = start.push(ws@);
        }
        assert(texts(r@) =~= head);
    }
    let ghost more = texts(log_args@);
    let mut rest = log_args;
    r.append(&mut rest);
    assert(texts(r@) =~= head + more);
    r
}

/// The arguments of the `git` call that shows the commits since the merge base `mb`.
pub fn branch_log_args(ws: &str, mb: &str) -> (r: Vec<String>)
    ensures
        texts(r@) == branch_log_argv(ws@, mb@),
{
    let mut range = mb.to_owned();
    range.append("..HEAD");
    let args = strings(&[range.as_str()]);
    assert(texts(args@) =~= seq![mb@ + "..HEAD"@]);
    commit_log_args(ws, args)
}

/// The arguments of the `git` call that shows the `limit` latest commits up to `mb`.
pub fn recent_log_args(ws: &str, limit: u32, mb: &str) -> (r: Vec<String>)
    ensures
        texts(r@) == recent_log_argv(ws@, limit as nat, mb@),
{
    let n = decimal_of(limit as u128);
    let args = strings(&["-n", n.as_str(), mb]);
    assert(texts(args@) =~= seq!["-n"@, decimal(limit as nat), mb@]);
    commit_log_args(ws, args)
}

/// The arguments of the `git` call that succeeds where there are commits before the `limit`
/// latest ones up to `mb`.
pub fn more_args(mb: &str, limit: u32) -> (r: Vec<String>)
    ensures
        texts(r@) == more_argv(mb@, limit as nat),
{
    let mut rev = mb.to_owned();
    rev.append("~");
    rev.append(&decimal_of(limit as u128));
    let r = strings(&["rev-parse", "--quiet", "--verify", rev.as_str()]);
    assert(texts(r@) =~= more_argv(mb@, limit as nat));
    r
}

/// The arguments of the `git` call that abbreviates the object id of `rev`.
pub fn short_args(rev: &str) -> (r: Vec<String>)
    ensures
        texts(r@) == short_argv(rev@),
{
    let r = strings(&["rev-parse", "--short", rev]);
    assert(texts(r@) =~= short_argv(rev@));
    r
}

/// How many recent commits the state `s` asks for.
pub fn recent_limit(s: &str) -> (r: u32)
    ensures
        r == limit_in(s@),
{
    match u32_of(s) {
        Some(n) => n,
        None => RECENT_LIMIT,
    }
}

/// The row of the upstream branch, unless there is none or it is the merge base.
///
/// `short` is the output of `git` for [`short_args`] of the upstream commit, and `stats` the
/// statistics against it.
pub fn upstream_row(upstream: &str, mb: &str, name: &str, short: &str, stats: &str) -> (r: Option<
    String,
>)
    ensures
        match r {
            Some(t) => upstream_shown(upstream@, mb@, name@, short@, stats@) == Some(t@),
            None => upstream_shown(upstream@, mb@, name@, short@, stats@) is None,
        },
{
    if upstream.is_empty() || same(upstream, mb) {
        return None;
    }
    let mut r = "* Vs ".to_owned();
    if name.is_empty() {
        r.append("upstream");
    } else {
        r.append(name);
    }
    if !stats.is_empty() {
        r.append(" (");
        r.append(stats);
        r.append(") ");
    } else {
        r.append(" ");
    }
    r.append(&trimmed(short));
    r.append("\x1f");
    r.append(upstream);
    Some(r)
}

/// Appends the rows for the commits in `log`, as one block, where there are any.
fn add_commits(rows: &mut Vec<String>, log: &str)
    ensures
        texts(final(rows)@) == with_commits(texts(old(rows)@), log@),
{
    broadcast use crate::text::lemma_texts_push;

    let block = without_end_newlines(&emit_commits_shortstat(log));
    if !block.as_str().is_empty() {
        rows.push(block);
    }
}

/// The text of the list of targets.
pub fn generate_target_list(s: &TargetSource) -> (r: String)
    ensures
        r@ == target_list_text(s@),
{
    broadcast use crate::text::lemma_texts_push;

    let head = if s.head_stats.as_str().is_empty() {
        "* Uncommitted\x1fHEAD".to_owned()
    } else {
        let mut shown = "* Uncommitted (".to_owned();
        shown.append(&s.head_stats);
        shown.append(")\x1fHEAD");
        shown
    };
    let mut out: Vec<String> = Vec::new();
    let ghost first = head@;
    out.push(head);
    assert(texts(out@) =~= seq![first]);
    if !same(&s.merge_base, "HEAD") {
        add_commits(&mut out, &s.branch_log);
        let mut base = if s.base_stats.as_str().is_empty() {
            "* Since merge base ".to_owned()
        } else {
            let mut shown = "* Since merge base (".to_owned();
            shown.append(&s.base_stats);
            shown.append(") ");
            shown
        };
        base.append(&trimmed(&s.base_short));
        base.append("\x1f");
        base.append(&s.merge_base);
        out.push(base);
    }
    match upstream_row(
        &s.upstream,
        &s.merge_base,
        &s.upstream_name,
        &s.upstream_short,
        &s.upstream_stats,
    ) {
        Some(row) => {
            out.push(row);
        },
        None => {},
    }
    add_commits(&mut out, &s.recent_log);
    if s.more {
        out.push("* Load 10 more\x1f__LOAD_MORE__".to_owned());
    }
    assert(texts(out@) == target_blocks(s@));
    close_text(join_with(&out, "\n"))
}

} // verus!

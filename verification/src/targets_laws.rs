//! What holds of every list of targets.

use crate::number::{decimal, law_decimal_reads_back, parse_unsigned};
use crate::stats::{captured, is_range, or_zero, shortstat_text, stats_text};
use crate::targets::{
    base_row, branch_log_argv, commit_range, commit_row, commit_rows, commits_text, head_row,
    limit_in, log_scan, more_argv, recent_log_argv, short_argv, target_blocks, target_list_text,
    upstream_shown, with_commits, EMPTY_TREE, SourceModel,
};
use crate::text::{
    contains, fields, find_char, join, lemma_find_char_from, lines, matches_at, split, starts_with,
    trim, trim_end_newlines,
};
use crate::stats_laws::lemma_stats_lacks;
use crate::text_laws::{
    lacks, law_fields_stand_between_tabs, law_split_undoes_join, lemma_fields, lemma_lacks,
    lemma_lines_lack,
};
use vstd::prelude::*;

verus! {

/// The target of a commit is a range of commits, also where the commit has no parent.
pub proof fn law_commit_target_is_a_range(h: Seq<char>, parents: Seq<char>)
    ensures
        is_range(commit_range(h, parents)),
{
    reveal_strlit("..");
    reveal_strlit("^");
    let r = commit_range(h, parents);
    let at = if parents.len() == 0 {
        EMPTY_TREE@.len() as int
    } else {
        h.len() + 1int
    };
    assert(r.subrange(at, at + 2) =~= ".."@);
    assert(matches_at(r, ".."@, at));
}

/// The second field of the row of a commit is its range.
pub proof fn law_commit_row_names_its_range(
    h: Seq<char>,
    parents: Seq<char>,
    subj: Seq<char>,
    shortstat: Seq<char>,
)
    requires
        !h.contains('\x1f'),
        !subj.contains('\x1f'),
    ensures
        split(commit_row(h, parents, subj, shortstat), '\x1f').len() == 2,
        split(commit_row(h, parents, subj, shortstat), '\x1f')[1] == commit_range(h, parents),
{
    let stat = shortstat_text(shortstat);
    let display = if stat.len() > 0 {
        subj + " ("@ + stat + ") "@ + h
    } else {
        subj + " "@ + h
    };
    let sep = '\x1f';
    lemma_lacks(h, sep);
    lemma_lacks(subj, sep);
    lemma_display_lacks(subj, stat, h, shortstat, sep);
    lemma_range_lacks(h, parents, sep);
    let parts = seq![display, commit_range(h, parents)];
    assert forall|k: int| 0 <= k < parts.len() implies !(#[trigger] parts[k]).contains(sep) by {}
    law_split_undoes_join(parts, sep);
    reveal_strlit("\x1f");
    assert("\x1f"@ =~= seq![sep]);
    assert(parts.drop_last() =~= seq![display]);
    assert(join(parts.drop_last(), seq![sep]) == display);
    assert(join(parts, seq![sep]) =~= commit_row(h, parents, subj, shortstat));
}

/// Statistics hold neither a separator nor a line feed.
proof fn lemma_shortstat_lacks(shortstat: Seq<char>, c: char)
    requires
        c == '\n' || c == '\x1f',
    ensures
        lacks(shortstat_text(shortstat), c),
{
    lemma_stats_lacks(
        or_zero(captured(shortstat, " insertion"@)),
        or_zero(captured(shortstat, " deletion"@)),
        c,
    );
}

/// What the row of a commit shows holds neither a separator nor a line feed.
proof fn lemma_display_lacks(
    subj: Seq<char>,
    stat: Seq<char>,
    h: Seq<char>,
    shortstat: Seq<char>,
    c: char,
)
    requires
        lacks(subj, c),
        lacks(h, c),
        stat == shortstat_text(shortstat),
        c == '\n' || c == '\x1f',
    ensures
        lacks(subj + " ("@ + stat + ") "@ + h, c),
        lacks(subj + " "@ + h, c),
{
    lemma_shortstat_lacks(shortstat, c);
    reveal_strlit(" (");
    reveal_strlit(") ");
    reveal_strlit(" ");
    assert(" ("@[0] == ' ' && " ("@[1] == '(' && ") "@[0] == ')' && ") "@[1] == ' ' && " "@[0]
        == ' ');
}

/// The range of a commit is made of the characters of its id and of a few others.
proof fn lemma_range_lacks(h: Seq<char>, parents: Seq<char>, c: char)
    requires
        lacks(h, c),
        c == '\n' || c == '\x1f',
    ensures
        lacks(commit_range(h, parents), c),
        commit_range(h, parents).len() >= 2,
{
    reveal_strlit("..");
    reveal_strlit("^");
    reveal_strlit("4b825dc642cb6eb9a060e54bf8d69288fbee4904");
    assert(".."@[0] == '.' && ".."@[1] == '.' && "^"@[0] == '^');
    assert(lacks(EMPTY_TREE@, c));
}

/// A commit as `git log` shows it: without statistics where it changes nothing.
pub struct LogEntry {
    pub id: Seq<char>,
    pub parents: Seq<char>,
    pub subject: Seq<char>,
    pub shortstat: Seq<char>,
}

/// The line that introduces a commit.
pub open spec fn commit_line(e: LogEntry) -> Seq<char> {
    "COMMIT "@ + e.id + seq!['\t'] + e.parents + seq!['\t'] + e.subject
}

/// The lines of `git log` for the commits `es`.
pub open spec fn log_lines(es: Seq<LogEntry>) -> Seq<Seq<char>>
    decreases es.len(),
{
    if es.len() == 0 {
        Seq::empty()
    } else {
        let e = es.last();
        let start = log_lines(es.drop_last()).push(commit_line(e));
        if e.shortstat.len() == 0 {
            start
        } else {
            start.push(Seq::empty()).push(e.shortstat)
        }
    }
}

/// The rows for those of the commits `es` that have statistics.
pub open spec fn log_rows(es: Seq<LogEntry>) -> Seq<Seq<char>>
    decreases es.len(),
{
    if es.len() == 0 {
        Seq::empty()
    } else {
        let e = es.last();
        if e.shortstat.len() == 0 {
            log_rows(es.drop_last())
        } else {
            log_rows(es.drop_last()).push(commit_row(e.id, e.parents, e.subject, e.shortstat))
        }
    }
}

/// Each commit that `git log` shows with statistics gets one row, in the same order, and no
/// other commit gets one.
pub proof fn law_log_gives_one_row_for_each_commit(es: Seq<LogEntry>)
    requires
        forall|i: int|
            0 <= i < es.len() ==> {
                &&& !(#[trigger] es[i]).id.contains('\t')
                &&& !es[i].parents.contains('\t')
                &&& !starts_with(es[i].shortstat, "COMMIT "@)
            },
    ensures
        log_scan(log_lines(es)).rows == log_rows(es),
    decreases es.len(),
{
    if es.len() > 0 {
        let d = es.drop_last();
        let e = es[es.len() - 1];
        assert forall|i: int| 0 <= i < d.len() implies {
            &&& !(#[trigger] d[i]).id.contains('\t')
            &&& !d[i].parents.contains('\t')
            &&& !starts_with(d[i].shortstat, "COMMIT "@)
        } by {
            assert(d[i] == es[i]);
        }
        law_log_gives_one_row_for_each_commit(d);
        reveal_strlit("COMMIT ");
        let before = log_lines(d);
        let l = commit_line(e);
        let start = before.push(l);
        assert(start.drop_last() == before);
        assert(l.subrange(0, 7) =~= "COMMIT "@);
        assert(starts_with(l, "COMMIT "@));
        let rest = e.id + seq!['\t'] + e.parents + seq!['\t'] + e.subject;
        assert(l.skip(7) =~= rest);
        lemma_fields(e.id, e.parents, e.subject);
        let scan = log_scan(start);
        assert(scan.rows == log_rows(d) && scan.pending == rest);
        if e.shortstat.len() > 0 {
            let blank = start.push(Seq::empty());
            assert(blank.drop_last() == start);
            assert(!starts_with(Seq::<char>::empty(), "COMMIT "@));
            assert(log_scan(blank) == scan);
            let all = blank.push(e.shortstat);
            assert(all.drop_last() == blank);
            assert(log_lines(es) == all);
        } else {
            assert(log_lines(es) == start);
        }
    }
}

/// All rows of the list of targets.
pub open spec fn target_rows(s: SourceModel) -> Seq<Seq<char>> {
    let start = seq![head_row(s.head_stats)];
    let branch = if s.merge_base != "HEAD"@ {
        (start + commit_rows(s.branch_log)).push(base_row(s.merge_base, s.base_short, s.base_stats))
    } else {
        start
    };
    let with_up = match upstream_shown(
        s.upstream,
        s.merge_base,
        s.upstream_name,
        s.upstream_short,
        s.upstream_stats,
    ) {
        Some(r) => branch.push(r),
        None => branch,
    };
    let recent = with_up + commit_rows(s.recent_log);
    if s.more {
        recent.push("* Load 10 more\x1f__LOAD_MORE__"@)
    } else {
        recent
    }
}

/// Whether all rows in `rs` have characters, and none is a line feed.
pub open spec fn are_lines(rs: Seq<Seq<char>>) -> bool {
    forall|i: int| 0 <= i < rs.len() ==> lacks(#[trigger] rs[i], '\n') && rs[i].len() > 0
}

/// The rows of commits have characters, and none is a line feed.
proof fn lemma_commit_rows_are_lines(ls: Seq<Seq<char>>)
    requires
        forall|i: int| 0 <= i < ls.len() ==> lacks(#[trigger] ls[i], '\n'),
    ensures
        are_lines(log_scan(ls).rows),
        lacks(log_scan(ls).pending, '\n'),
    decreases ls.len(),
{
    if ls.len() > 0 {
        let d = ls.drop_last();
        assert forall|i: int| 0 <= i < d.len() implies lacks(#[trigger] d[i], '\n') by {
            assert(lacks(ls[i], '\n'));
        }
        lemma_commit_rows_are_lines(d);
        let line = ls[ls.len() - 1];
        assert(lacks(line, '\n'));
        reveal_strlit("COMMIT ");
        let scan = log_scan(d);
        let s = scan.pending;
        let a = scan.rows;
        let b = log_scan(ls).rows;
        lemma_find_char_from(s, '\t', 0);
        if let Some(i) = find_char(s, '\t') {
            lemma_find_char_from(s, '\t', i + 1);
        }
        if let Some((h, parents, subj)) = fields(s) {
            assert(lacks(h, '\n'));
            assert(lacks(subj, '\n'));
            lemma_display_lacks(subj, shortstat_text(line), h, line, '\n');
            lemma_range_lacks(h, parents, '\n');
            reveal_strlit("\x1f");
            assert("\x1f"@[0] == '\x1f');
            let r = commit_row(h, parents, subj, line);
            assert(lacks(r, '\n') && r.len() > 0);
        }
        assert forall|i: int| 0 <= i < b.len() implies lacks(#[trigger] b[i], '\n') && b[i].len()
            > 0 by {
            if i < a.len() {
                assert(b[i] == a[i]);
            }
        }
    }
}

/// Joining a block of joined texts is joining all of them.
proof fn lemma_join_block(a: Seq<Seq<char>>, b: Seq<Seq<char>>, sep: Seq<char>)
    requires
        a.len() > 0,
        b.len() > 0,
    ensures
        join(a.push(join(b, sep)), sep) == join(a + b, sep),
    decreases b.len(),
{
    let x = a.push(join(b, sep));
    assert(x.drop_last() == a);
    let y = a + b;
    if b.len() == 1 {
        assert(y.drop_last() =~= a);
    } else {
        let d = b.drop_last();
        lemma_join_block(a, d, sep);
        assert(a.push(join(d, sep)).drop_last() == a);
        assert(y.drop_last() =~= a + d);
        assert(join(x, sep) =~= join(a, sep) + sep + join(d, sep) + sep + b.last());
    }
}

/// Joining what begins alike and goes on alike gives the same.
proof fn lemma_join_push(a: Seq<Seq<char>>, b: Seq<Seq<char>>, x: Seq<char>, sep: Seq<char>)
    requires
        a.len() > 0,
        b.len() > 0,
        join(a, sep) == join(b, sep),
    ensures
        join(a.push(x), sep) == join(b.push(x), sep),
{
    assert(a.push(x).drop_last() == a);
    assert(b.push(x).drop_last() == b);
}

/// Joined lines do not end with a line feed, and hold something where there are any.
proof fn lemma_joined_lines(rs: Seq<Seq<char>>)
    requires
        are_lines(rs),
        rs.len() > 0,
    ensures
        join(rs, seq!['\n']).len() > 0,
        join(rs, seq!['\n']).last() != '\n',
{
    let last = rs[rs.len() - 1];
    assert(lacks(last, '\n') && last.len() > 0);
    assert(last[last.len() - 1] != '\n');
    assert(join(rs, seq!['\n']).last() == last.last());
}

/// The block of commits is the rows of the commits, joined.
proof fn lemma_with_commits(
    blocks: Seq<Seq<char>>,
    flat: Seq<Seq<char>>,
    log: Seq<char>,
)
    requires
        blocks.len() > 0,
        flat.len() > 0,
        join(blocks, seq!['\n']) == join(flat, seq!['\n']),
    ensures
        join(with_commits(blocks, log), seq!['\n']) == join(flat + commit_rows(log), seq!['\n']),
        with_commits(blocks, log).len() > 0,
        are_lines(commit_rows(log)),
{
    let sep = seq!['\n'];
    reveal_strlit("\n");
    assert("\n"@ =~= sep);
    lemma_lines_lack(log);
    lemma_commit_rows_are_lines(lines(log));
    let rs = commit_rows(log);
    let text = commits_text(log);
    if rs.len() == 0 {
        assert(text.len() == 0);
        assert(flat + rs =~= flat);
    } else {
        lemma_joined_lines(rs);
        let j = join(rs, sep);
        assert(text == j.push('\n'));
        assert(text.drop_last() == j);
        assert(trim_end_newlines(j) == j);
        assert(trim_end_newlines(text) == j);
        assert(with_commits(blocks, log) == blocks.push(j));
        lemma_join_push(blocks, flat, j, sep);
        lemma_join_block(flat, rs, sep);
    }
}

/// The list of targets has one line for each row: the working tree first, then the commits since
/// the merge base and the merge base itself, the upstream branch, the recent commits, and at the
/// end, where there are more, a row that loads them.
pub proof fn law_target_list_has_one_line_for_each_row(s: SourceModel)
    requires
        forall|i: int|
            0 <= i < target_rows(s).len() ==> !(#[trigger] target_rows(s)[i]).contains('\n'),
    ensures
        split(target_list_text(s), '\n') == target_rows(s).push(Seq::empty()),
        target_rows(s)[0] == head_row(s.head_stats),
        s.more ==> target_rows(s).last() == "* Load 10 more\x1f__LOAD_MORE__"@,
{
    let sep = seq!['\n'];
    reveal_strlit("\n");
    assert("\n"@ =~= sep);
    let start = seq![head_row(s.head_stats)];
    let base = base_row(s.merge_base, s.base_short, s.base_stats);
    let blocks1 = if s.merge_base != "HEAD"@ {
        with_commits(start, s.branch_log).push(base)
    } else {
        start
    };
    let flat1 = if s.merge_base != "HEAD"@ {
        (start + commit_rows(s.branch_log)).push(base)
    } else {
        start
    };
    if s.merge_base != "HEAD"@ {
        lemma_with_commits(start, start, s.branch_log);
        lemma_join_push(
            with_commits(start, s.branch_log),
            start + commit_rows(s.branch_log),
            base,
            sep,
        );
    }
    let up = upstream_shown(
        s.upstream,
        s.merge_base,
        s.upstream_name,
        s.upstream_short,
        s.upstream_stats,
    );
    let blocks2 = match up {
        Some(r) => blocks1.push(r),
        None => blocks1,
    };
    let flat2 = match up {
        Some(r) => flat1.push(r),
        None => flat1,
    };
    if let Some(r) = up {
        lemma_join_push(blocks1, flat1, r, sep);
    }
    lemma_with_commits(blocks2, flat2, s.recent_log);
    let blocks3 = with_commits(blocks2, s.recent_log);
    let flat3 = flat2 + commit_rows(s.recent_log);
    let more = "* Load 10 more\x1f__LOAD_MORE__"@;
    if s.more {
        lemma_join_push(blocks3, flat3, more, sep);
    }
    let flat = target_rows(s);
    assert(join(target_blocks(s), sep) == join(flat, sep));
    law_split_undoes_join(flat, '\n');
    let j = join(flat, sep);
    assert(flat[0] == head_row(s.head_stats));
    assert(j.len() > 0) by {
        if j.len() == 0 {
            assert(split(j, '\n') == seq![Seq::<char>::empty()]);
            reveal_strlit("* Uncommitted (");
            reveal_strlit("* Uncommitted\x1fHEAD");
        }
    }
    let t = target_list_text(s);
    assert(t == j.push('\n'));
    assert(t.drop_last() == j);
}

/// The row of the working tree has `HEAD` as its target.
pub proof fn law_first_target_is_head(ins: nat, del: nat)
    ensures
        split(head_row(stats_text(ins, del)), '\x1f').len() == 2,
        split(head_row(stats_text(ins, del)), '\x1f')[1] == "HEAD"@,
{
    reveal_strlit("* Uncommitted (");
    reveal_strlit(")\x1fHEAD");
    reveal_strlit("* Uncommitted\x1fHEAD");
    reveal_strlit("HEAD");
    let stats = stats_text(ins, del);
    let sep = '\x1f';
    lemma_stats_lacks(ins, del, sep);
    let shown = if stats.len() > 0 {
        "* Uncommitted ("@ + stats + seq![')']
    } else {
        "* Uncommitted\x1fHEAD"@.take(13)
    };
    assert(lacks("* Uncommitted ("@, sep));
    assert(lacks("* Uncommitted\x1fHEAD"@.take(13), sep));
    assert(lacks(shown, sep));
    assert(lacks("HEAD"@, sep));
    let parts = seq![shown, "HEAD"@];
    assert forall|k: int| 0 <= k < parts.len() implies !(#[trigger] parts[k]).contains(sep) by {}
    law_split_undoes_join(parts, sep);
    assert(parts.drop_last() =~= seq![shown]);
    assert(join(parts.drop_last(), seq![sep]) == shown);
    assert(join(parts, seq![sep]) =~= head_row(stats));
}

/// A text with one separator between two texts without any has these two as its fields.
proof fn lemma_two_fields(shown: Seq<char>, target: Seq<char>)
    requires
        !shown.contains('\x1f'),
        !target.contains('\x1f'),
    ensures
        split(shown + "\x1f"@ + target, '\x1f') == seq![shown, target],
{
    reveal_strlit("\x1f");
    let sep = seq!['\x1f'];
    assert("\x1f"@ =~= sep);
    let parts = seq![shown, target];
    law_split_undoes_join(parts, '\x1f');
    assert(parts.drop_last() =~= seq![shown]);
    assert(join(parts.drop_last(), sep) == shown);
    assert(join(parts, sep) =~= shown + sep + target);
}

/// A text between others without a character is without it, too.
proof fn lemma_concat_contains(a: Seq<char>, b: Seq<char>, c: char)
    ensures
        (a + b).contains(c) <==> a.contains(c) || b.contains(c),
{
    let s = a + b;
    if s.contains(c) {
        let k = choose|k: int| 0 <= k < s.len() && s[k] == c;
        if k < a.len() {
            assert(a[k] == c);
        } else {
            assert(b[k - a.len()] == c);
        }
    }
    if a.contains(c) {
        let k = choose|k: int| 0 <= k < a.len() && a[k] == c;
        assert(s[k] == c);
    }
    if b.contains(c) {
        let k = choose|k: int| 0 <= k < b.len() && b[k] == c;
        assert(s[a.len() + k] == c);
    }
}

/// The fixed parts of rows hold no separator.
proof fn lemma_parts()
    ensures
        !" ("@.contains('\x1f'),
        !") "@.contains('\x1f'),
        !" "@.contains('\x1f'),
        !"* Since merge base ("@.contains('\x1f'),
        !"* Since merge base "@.contains('\x1f'),
        !"* Vs "@.contains('\x1f'),
        !"upstream"@.contains('\x1f'),
{
    reveal_strlit(" (");
    reveal_strlit(") ");
    reveal_strlit(" ");
    reveal_strlit("* Since merge base (");
    reveal_strlit("* Since merge base ");
    reveal_strlit("* Vs ");
    reveal_strlit("upstream");
}

/// The row of the merge base has the merge base as its target, and shows its short id behind the
/// statistics, where there are any.
pub proof fn law_merge_base_row_names_the_merge_base(
    mb: Seq<char>,
    short: Seq<char>,
    stats: Seq<char>,
)
    requires
        !mb.contains('\x1f'),
        !trim(short).contains('\x1f'),
        !stats.contains('\x1f'),
    ensures
        stats.len() > 0 ==> split(base_row(mb, short, stats), '\x1f') == seq![
            "* Since merge base ("@ + stats + ") "@ + trim(short),
            mb,
        ],
        stats.len() == 0 ==> split(base_row(mb, short, stats), '\x1f') == seq![
            "* Since merge base "@ + trim(short),
            mb,
        ],
{
    lemma_parts();
    let c = '\x1f';
    let with = "* Since merge base ("@ + stats + ") "@ + trim(short);
    let bare = "* Since merge base "@ + trim(short);
    lemma_concat_contains("* Since merge base ("@, stats, c);
    lemma_concat_contains("* Since merge base ("@ + stats, ") "@, c);
    lemma_concat_contains("* Since merge base ("@ + stats + ") "@, trim(short), c);
    lemma_concat_contains("* Since merge base "@, trim(short), c);
    lemma_two_fields(with, mb);
    lemma_two_fields(bare, mb);
}

/// The row of the upstream branch is left out exactly where there is none or it is the merge base.
/// It has the upstream commit as its target, and shows the name of the branch, the statistics
/// where there are any, and the short id.
pub proof fn law_upstream_row_names_the_upstream_commit(
    upstream: Seq<char>,
    mb: Seq<char>,
    name: Seq<char>,
    short: Seq<char>,
    stats: Seq<char>,
)
    requires
        !upstream.contains('\x1f'),
        !name.contains('\x1f'),
        !trim(short).contains('\x1f'),
        !stats.contains('\x1f'),
    ensures
        upstream_shown(upstream, mb, name, short, stats) is None <==> upstream.len() == 0
            || upstream == mb,
        upstream_shown(upstream, mb, name, short, stats) matches Some(r) ==> {
            let label = if name.len() > 0 {
                name
            } else {
                "upstream"@
            };
            &&& stats.len() > 0 ==> split(r, '\x1f') == seq![
                "* Vs "@ + label + " ("@ + stats + ") "@ + trim(short),
                upstream,
            ]
            &&& stats.len() == 0 ==> split(r, '\x1f') == seq![
                "* Vs "@ + label + " "@ + trim(short),
                upstream,
            ]
        },
{
    lemma_parts();
    let c = '\x1f';
    let label = if name.len() > 0 {
        name
    } else {
        "upstream"@
    };
    let a = "* Vs "@ + label;
    lemma_concat_contains("* Vs "@, label, c);
    lemma_concat_contains(a, " ("@, c);
    lemma_concat_contains(a + " ("@, stats, c);
    lemma_concat_contains(a + " ("@ + stats, ") "@, c);
    lemma_concat_contains(a + " ("@ + stats + ") "@, trim(short), c);
    lemma_concat_contains(a, " "@, c);
    lemma_concat_contains(a + " "@, trim(short), c);
    lemma_two_fields(a + " ("@ + stats + ") "@ + trim(short), upstream);
    lemma_two_fields(a + " "@ + trim(short), upstream);
}

/// The row of the working tree shows the statistics where there are any, and has `HEAD` as its
/// target.
pub proof fn law_working_tree_row(stats: Seq<char>)
    requires
        !stats.contains('\x1f'),
    ensures
        stats.len() > 0 ==> split(head_row(stats), '\x1f') == seq![
            "* Uncommitted ("@ + stats + ")"@,
            "HEAD"@,
        ],
        stats.len() == 0 ==> split(head_row(stats), '\x1f') == seq!["* Uncommitted"@, "HEAD"@],
{
    reveal_strlit("* Uncommitted (");
    reveal_strlit("* Uncommitted");
    reveal_strlit(")");
    reveal_strlit(")\x1fHEAD");
    reveal_strlit("* Uncommitted\x1fHEAD");
    reveal_strlit("HEAD");
    reveal_strlit("\x1f");
    let c = '\x1f';
    assert(!"* Uncommitted ("@.contains(c));
    assert(!"* Uncommitted"@.contains(c));
    assert(!")"@.contains(c));
    assert(!"HEAD"@.contains(c));
    lemma_concat_contains("* Uncommitted ("@, stats, c);
    lemma_concat_contains("* Uncommitted ("@ + stats, ")"@, c);
    let with = "* Uncommitted ("@ + stats + ")"@;
    lemma_two_fields(with, "HEAD"@);
    lemma_two_fields("* Uncommitted"@, "HEAD"@);
    assert("* Uncommitted ("@ + stats + ")\x1fHEAD"@ =~= with + "\x1f"@ + "HEAD"@);
    assert("* Uncommitted\x1fHEAD"@ =~= "* Uncommitted"@ + "\x1f"@ + "HEAD"@);
}

/// The row of a commit shows its subject, its statistics where there are any, and its id. Its
/// target is the range from its parent to it, or from the empty tree where it has none.
pub proof fn law_commit_row_shows_the_commit(
    h: Seq<char>,
    parents: Seq<char>,
    subj: Seq<char>,
    shortstat: Seq<char>,
)
    requires
        !h.contains('\x1f'),
        !subj.contains('\x1f'),
    ensures
        ({
            let range = if parents.len() > 0 {
                h + "^.."@ + h
            } else {
                "4b825dc642cb6eb9a060e54bf8d69288fbee4904.."@ + h
            };
            let stat = shortstat_text(shortstat);
            &&& stat.len() > 0 ==> split(commit_row(h, parents, subj, shortstat), '\x1f') == seq![
                subj + " ("@ + stat + ") "@ + h,
                range,
            ]
            &&& stat.len() == 0 ==> split(commit_row(h, parents, subj, shortstat), '\x1f') == seq![
                subj + " "@ + h,
                range,
            ]
        }),
{
    let c = '\x1f';
    let stat = shortstat_text(shortstat);
    lemma_parts();
    lemma_lacks(h, c);
    lemma_range_lacks(h, parents, c);
    lemma_shortstat_lacks(shortstat, c);
    lemma_concat_contains(subj, " ("@, c);
    lemma_concat_contains(subj + " ("@, stat, c);
    lemma_concat_contains(subj + " ("@ + stat, ") "@, c);
    lemma_concat_contains(subj + " ("@ + stat + ") "@, h, c);
    lemma_concat_contains(subj, " "@, c);
    lemma_concat_contains(subj + " "@, h, c);
    lemma_two_fields(subj + " ("@ + stat + ") "@ + h, commit_range(h, parents));
    lemma_two_fields(subj + " "@ + h, commit_range(h, parents));
    reveal_strlit("^..");
    reveal_strlit("^");
    reveal_strlit("..");
    reveal_strlit("4b825dc642cb6eb9a060e54bf8d69288fbee4904");
    reveal_strlit("4b825dc642cb6eb9a060e54bf8d69288fbee4904..");
    if parents.len() > 0 {
        assert(commit_range(h, parents) =~= h + "^.."@ + h);
    } else {
        assert(commit_range(h, parents) =~= "4b825dc642cb6eb9a060e54bf8d69288fbee4904.."@ + h);
    }
}

/// As many recent commits are listed as the state says, or ten where it holds no number.
pub proof fn law_limit_is_the_number_in_the_state(n: nat, s: Seq<char>)
    ensures
        n <= u32::MAX ==> limit_in(decimal(n)) == n,
        parse_unsigned(s, u32::MAX as nat) is None ==> limit_in(s) == 10,
{
    if n <= u32::MAX {
        law_decimal_reads_back(n, u32::MAX as nat);
    }
}

/// `git` is asked for the commits since the merge base, for the latest ones up to it, for the
/// commit behind these, and for the short id of a commit. The whitespace option goes with the
/// first two where there is one.
pub proof fn law_commits_are_asked_for(ws: Seq<char>, mb: Seq<char>, limit: nat)
    ensures
        branch_log_argv(Seq::empty(), mb) == seq![
            "log"@,
            "--shortstat"@,
            "--pretty=tformat:COMMIT %h\t%P\t%s"@,
            mb + "..HEAD"@,
        ],
        ws.len() > 0 ==> branch_log_argv(ws, mb) == seq![
            "log"@,
            "--shortstat"@,
            "--pretty=tformat:COMMIT %h\t%P\t%s"@,
            ws,
            mb + "..HEAD"@,
        ],
        recent_log_argv(Seq::empty(), limit, mb) == seq![
            "log"@,
            "--shortstat"@,
            "--pretty=tformat:COMMIT %h\t%P\t%s"@,
            "-n"@,
            decimal(limit),
            mb,
        ],
        ws.len() > 0 ==> recent_log_argv(ws, limit, mb) == seq![
            "log"@,
            "--shortstat"@,
            "--pretty=tformat:COMMIT %h\t%P\t%s"@,
            ws,
            "-n"@,
            decimal(limit),
            mb,
        ],
        more_argv(mb, limit) == seq![
            "rev-parse"@,
            "--quiet"@,
            "--verify"@,
            mb + "~"@ + decimal(limit),
        ],
        short_argv(mb) == seq!["rev-parse"@, "--short"@, mb],
{
    assert(branch_log_argv(Seq::empty(), mb) =~= seq![
        "log"@,
        "--shortstat"@,
        "--pretty=tformat:COMMIT %h\t%P\t%s"@,
        mb + "..HEAD"@,
    ]);
    assert(recent_log_argv(Seq::empty(), limit, mb) =~= seq![
        "log"@,
        "--shortstat"@,
        "--pretty=tformat:COMMIT %h\t%P\t%s"@,
        "-n"@,
        decimal(limit),
        mb,
    ]);
    if ws.len() > 0 {
        assert(branch_log_argv(ws, mb) =~= seq![
            "log"@,
            "--shortstat"@,
            "--pretty=tformat:COMMIT %h\t%P\t%s"@,
            ws,
            mb + "..HEAD"@,
        ]);
        assert(recent_log_argv(ws, limit, mb) =~= seq![
            "log"@,
            "--shortstat"@,
            "--pretty=tformat:COMMIT %h\t%P\t%s"@,
            ws,
            "-n"@,
            decimal(limit),
            mb,
        ]);
    }
}

/// Statistics without a commit in front of them give no row, and neither does a commit whose line
/// has fewer than three fields.
pub proof fn law_broken_log_lines_give_no_row(ls: Seq<Seq<char>>, line: Seq<char>)
    ensures
        log_scan(ls).pending.len() == 0 ==> log_scan(ls.push(line)).rows == log_scan(ls).rows,
        split(log_scan(ls).pending, '\t').len() < 3 ==> log_scan(ls.push(line)).rows == log_scan(
            ls,
        ).rows,
        line.len() == 0 ==> log_scan(ls.push(line)) == log_scan(ls),
{
    assert(ls.push(line).drop_last() =~= ls);
    reveal_strlit("COMMIT ");
    let s = log_scan(ls).pending;
    law_fields_stand_between_tabs(s, s, s, s);
}

/// Output that names no commit gives no row.
pub proof fn law_no_row_without_a_commit(ls: Seq<Seq<char>>)
    requires
        forall|i: int| 0 <= i < ls.len() ==> !starts_with(#[trigger] ls[i], "COMMIT "@),
    ensures
        log_scan(ls).rows.len() == 0,
        log_scan(ls).pending.len() == 0,
    decreases ls.len(),
{
    if ls.len() > 0 {
        let d = ls.drop_last();
        assert forall|i: int| 0 <= i < d.len() implies !starts_with(
            #[trigger] d[i],
            "COMMIT "@,
        ) by {
            assert(d[i] == ls[i]);
        }
        assert(!starts_with(ls[ls.len() - 1], "COMMIT "@));
        law_no_row_without_a_commit(d);
    }
}

/// A line that names a commit begins that commit: one before it whose statistics have not come
/// gets no row, and the rows so far stay.
pub proof fn law_commit_line_begins_a_commit(ls: Seq<Seq<char>>, commit: Seq<char>)
    ensures
        log_scan(ls.push("COMMIT "@ + commit)).rows == log_scan(ls).rows,
        log_scan(ls.push("COMMIT "@ + commit)).pending == commit,
{
    reveal_strlit("COMMIT ");
    let line = "COMMIT "@ + commit;
    assert(ls.push(line).drop_last() =~= ls);
    assert(line.subrange(0, 7) =~= "COMMIT "@);
    assert(starts_with(line, "COMMIT "@));
    assert(line.skip(7) =~= commit);
}

} // verus!

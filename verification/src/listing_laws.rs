//! What holds of every list of files.

use crate::fzf::is_cut_short;
use crate::listing::{
    at_most, depends_on_file, is_generated, list_rows, list_text, nonempty, planned, row,
    row_display, row_stats, rows, selected, sentinel, untracked_against, without_generated,
    EntryModel, MAX_FILES,
};
use crate::number::decimal;
use crate::numstat::{listed, with_line};
use crate::order::{law_sorted_once, sorted_once, strictly_sorted};
use crate::paths::{rename_of, shortened};
use crate::paths_laws::{law_shortening_keeps_the_segments, shortened_segments};
use crate::stats::{is_range, newlines, stats_text};
use crate::text::{
    contains, fields, find, find_char, find_char_from, is_digit, join, lemma_find_char_from,
    lemma_find_from, lemma_rfind_char, lines, matches_at, rfind_char, split,
};
use crate::text_laws::{
    lacks, law_join_undoes_split, law_split_undoes_join, lemma_join_lacks, lemma_lacks,
    lemma_lines_lack, lemma_split_lacks,
};
use crate::stats_laws::{lemma_decimal_lacks, lemma_stats_lacks};
use crate::viewed::{current_mark, is_mark, is_viewed, stored_mark, toggled, WorkFileModel};
use crate::viewed_laws::{
    fits_line, is_settled, law_marked_file_is_viewed, law_unmarked_file_is_not_viewed,
};
use vstd::prelude::*;

verus! {

/// The path of the file that a line of `git diff --numstat` is about: the new one where the file
/// was renamed.
pub open spec fn named(line: Seq<char>) -> Option<Seq<char>> {
    match fields(line) {
        None => None,
        Some((_, _, path)) => if path.len() == 0 {
            None
        } else {
            match rename_of(path) {
                Some((_, new_path)) => Some(new_path),
                None => Some(path),
            }
        },
    }
}

/// Every file that a line names is listed, whether or not lines are counted for it, and nothing
/// else is: statistics and old names are kept for listed files alone.
pub proof fn law_every_changed_file_is_listed(ls: Seq<Seq<char>>)
    ensures
        forall|i: int|
            #![trigger named(ls[i])]
            0 <= i < ls.len() && named(ls[i]) is Some ==> listed(ls).paths.contains(
                named(ls[i])->0,
            ),
        forall|p: Seq<char>| #[trigger]
            listed(ls).paths.contains(p) ==> exists|i: int|
                0 <= i < ls.len() && #[trigger] named(ls[i]) == Some(p),
        forall|p: Seq<char>| #[trigger]
            listed(ls).file_stats.contains_key(p) ==> listed(ls).paths.contains(p),
        forall|p: Seq<char>| #[trigger]
            listed(ls).renamed.contains_key(p) ==> listed(ls).paths.contains(p),
    decreases ls.len(),
{
    if ls.len() > 0 {
        let d = ls.drop_last();
        law_every_changed_file_is_listed(d);
        let a = listed(d);
        let b = listed(ls);
        assert(b == with_line(a, ls.last()));
        assert forall|p: Seq<char>| #[trigger]
            b.paths.contains(p) <==> a.paths.contains(p) || named(ls.last()) == Some(p) by {
            if a.paths.contains(p) {
                let k = choose|k: int| 0 <= k < a.paths.len() && a.paths[k] == p;
                assert(b.paths[k] == p);
            }
            if named(ls.last()) == Some(p) {
                assert(b.paths[b.paths.len() - 1] == p);
            }
            if b.paths.contains(p) {
                let k = choose|k: int| 0 <= k < b.paths.len() && b.paths[k] == p;
                if k < a.paths.len() {
                    assert(a.paths[k] == p);
                }
            }
        }
        assert forall|i: int|
            #![trigger named(ls[i])]
            0 <= i < ls.len() && named(ls[i]) is Some implies b.paths.contains(named(ls[i])->0) by {
            if i < d.len() {
                assert(named(d[i]) == named(ls[i]));
                assert(a.paths.contains(named(d[i])->0));
            }
        }
        assert forall|p: Seq<char>| #[trigger] b.paths.contains(p) implies exists|i: int|
            0 <= i < ls.len() && #[trigger] named(ls[i]) == Some(p) by {
            if a.paths.contains(p) {
                let i = choose|i: int| 0 <= i < d.len() && #[trigger] named(d[i]) == Some(p);
                assert(named(ls[i]) == Some(p));
            } else {
                assert(named(ls[ls.len() - 1]) == Some(p));
            }
        }
        assert forall|p: Seq<char>| #[trigger]
            b.file_stats.contains_key(p) implies b.paths.contains(p) by {
            if a.file_stats.contains_key(p) {
                assert(a.paths.contains(p));
            } else {
                assert(named(ls.last()) == Some(p));
            }
        }
        assert forall|p: Seq<char>| #[trigger] b.renamed.contains_key(p) implies b.paths.contains(
            p,
        ) by {
            if a.renamed.contains_key(p) {
                assert(a.paths.contains(p));
            } else {
                assert(named(ls.last()) == Some(p));
            }
        }
    } else {
        assert(listed(ls).paths.len() == 0);
    }
}

/// Leaving out generated files keeps the others, in their order.
pub proof fn lemma_without_generated(fs: Seq<Seq<char>>)
    requires
        strictly_sorted(fs),
    ensures
        strictly_sorted(without_generated(fs)),
        without_generated(fs).len() <= fs.len(),
        forall|p: Seq<char>| #[trigger]
            without_generated(fs).contains(p) <==> fs.contains(p) && !is_generated(p),
    decreases fs.len(),
{
    if fs.len() > 0 {
        let d = fs.drop_last();
        let last = fs.last();
        assert(strictly_sorted(d)) by {
            assert forall|i: int, j: int| 0 <= i < j < d.len() implies crate::order::before(
                #[trigger] d[i],
                #[trigger] d[j],
            ) by {
                assert(d[i] == fs[i] && d[j] == fs[j]);
            }
        }
        lemma_without_generated(d);
        let a = without_generated(d);
        let b = without_generated(fs);
        assert forall|p: Seq<char>| #[trigger] fs.contains(p) <==> d.contains(p) || p == last by {
            if fs.contains(p) {
                let k = choose|k: int| 0 <= k < fs.len() && fs[k] == p;
                if k < d.len() {
                    assert(d[k] == p);
                }
            }
            if d.contains(p) {
                let k = choose|k: int| 0 <= k < d.len() && d[k] == p;
                assert(fs[k] == p);
            }
            if p == last {
                assert(fs[fs.len() - 1] == p);
            }
        }
        if !is_generated(last) {
            assert forall|p: Seq<char>| #[trigger]
                b.contains(p) <==> a.contains(p) || p == last by {
                if b.contains(p) {
                    let k = choose|k: int| 0 <= k < b.len() && b[k] == p;
                    if k < a.len() {
                        assert(a[k] == p);
                    }
                }
                if a.contains(p) {
                    let k = choose|k: int| 0 <= k < a.len() && a[k] == p;
                    assert(b[k] == p);
                }
                if p == last {
                    assert(b[b.len() - 1] == p);
                }
            }
            assert forall|i: int, j: int| 0 <= i < j < b.len() implies crate::order::before(
                #[trigger] b[i],
                #[trigger] b[j],
            ) by {
                assert(a[i] == b[i]);
                if j < a.len() {
                    assert(a[j] == b[j]);
                } else {
                    assert(a.contains(a[i]));
                    let k = choose|k: int| 0 <= k < d.len() && d[k] == a[i];
                    assert(fs[k] == a[i]);
                    assert(fs[fs.len() - 1] == last);
                }
            }
        }
    }
}

/// The listed files are at most `MAX_FILES`, sorted, and each stands there once. Only changed and
/// untracked files are listed, and none in a folder named `generated` where these are left out.
/// Where there are no more than `MAX_FILES`, all others are listed; where there are more, the
/// changed ones still are, as long as they are fewer than `MAX_FILES` themselves.
pub proof fn law_listed_files(
    changed: Seq<Seq<char>>,
    untracked: Seq<Seq<char>>,
    exclude: bool,
)
    ensures
        selected(changed, untracked, exclude).len() <= MAX_FILES,
        strictly_sorted(selected(changed, untracked, exclude)),
        forall|p: Seq<char>| #[trigger]
            selected(changed, untracked, exclude).contains(p) ==> changed.contains(p)
                || untracked.contains(p),
        forall|p: Seq<char>| #[trigger]
            selected(changed, untracked, exclude).contains(p) && exclude ==> !is_generated(p),
        forall|p: Seq<char>| #[trigger]
            changed.contains(p) && (changed.len() < MAX_FILES || changed.len() + untracked.len()
                <= MAX_FILES) && !(exclude && is_generated(p)) ==> selected(
                changed,
                untracked,
                exclude,
            ).contains(p),
        forall|p: Seq<char>| #[trigger]
            untracked.contains(p) && changed.len() + untracked.len() <= MAX_FILES && !(exclude
                && is_generated(p)) ==> selected(changed, untracked, exclude).contains(
                p,
            ),
{
    let room = if changed.len() < MAX_FILES {
        at_most(untracked, MAX_FILES - changed.len())
    } else {
        untracked
    };
    let all = changed + room;
    let sorted = sorted_once(all);
    law_sorted_once(all);
    let capped = at_most(sorted, MAX_FILES as int);
    assert(strictly_sorted(capped)) by {
        assert forall|i: int, j: int| 0 <= i < j < capped.len() implies crate::order::before(
            #[trigger] capped[i],
            #[trigger] capped[j],
        ) by {
            assert(capped[i] == sorted[i] && capped[j] == sorted[j]);
        }
    }
    lemma_without_generated(capped);
    let r = selected(changed, untracked, exclude);
    assert forall|p: Seq<char>| #[trigger]
        all.contains(p) <==> changed.contains(p) || room.contains(p) by {
        if all.contains(p) {
            let k = choose|k: int| 0 <= k < all.len() && all[k] == p;
            if k < changed.len() {
                assert(changed[k] == p);
            } else {
                assert(room[k - changed.len()] == p);
            }
        }
        if changed.contains(p) {
            let k = choose|k: int| 0 <= k < changed.len() && changed[k] == p;
            assert(all[k] == p);
        }
        if room.contains(p) {
            let k = choose|k: int| 0 <= k < room.len() && room[k] == p;
            assert(all[changed.len() + k] == p);
        }
    }
    assert forall|p: Seq<char>| #[trigger] r.contains(p) implies changed.contains(p)
        || untracked.contains(p) by {
        let k = choose|k: int| 0 <= k < r.len() && r[k] == p;
        assert(capped.contains(p));
        let k = choose|k: int| 0 <= k < capped.len() && capped[k] == p;
        assert(sorted[k] == p);
        assert(sorted.contains(p));
        assert(all.contains(p));
        if room.contains(p) {
            let m = choose|m: int| 0 <= m < room.len() && room[m] == p;
            assert(untracked[m] == p);
        }
    }
    if changed.len() < MAX_FILES || changed.len() + untracked.len() <= MAX_FILES {
        assert(all.len() <= MAX_FILES);
        assert(capped == sorted);
        assert forall|p: Seq<char>| #[trigger]
            changed.contains(p) && !(exclude && is_generated(p)) implies r.contains(
            p,
        ) by {
            assert(all.contains(p));
            assert(sorted.contains(p));
        }
    }
    if changed.len() + untracked.len() <= MAX_FILES {
        assert(room == untracked);
        assert forall|p: Seq<char>| #[trigger]
            untracked.contains(p) && !(exclude && is_generated(p)) implies r.contains(
            p,
        ) by {
            assert(all.contains(p));
            assert(sorted.contains(p));
        }
    }
}

/// The paths of a rename are made of characters of the text that shows it.
proof fn lemma_rename_lacks(path: Seq<char>, c: char)
    requires
        lacks(path, c),
    ensures
        rename_of(path) matches Some((a, b)) ==> lacks(a, c) && lacks(b, c),
{
    if let Some((a, b)) = rename_of(path) {
        reveal_strlit(" => ");
        let p = " => "@;
        lemma_find_from(path, p, 0);
        let arrow = find(path, p)->0;
        assert(forall|k: int|
            0 <= k < 4 ==> path.subrange(arrow, arrow + 4)[k] == #[trigger] path[arrow + k]);
        lemma_rfind_char(path.take(arrow), '{');
        lemma_find_char_from(path, '}', arrow);
        match (rfind_char(path.take(arrow), '{'), find_char_from(path, '}', arrow)) {
            (Some(open), Some(close)) => {
                assert(close >= arrow + 4) by {
                    assert(path[arrow] == p[0] && path[arrow + 1] == p[1] && path[arrow + 2] == p[2]
                        && path[arrow + 3] == p[3]);
                }
            },
            _ => {},
        }
    }
}

/// The listed paths are made of characters of the lines that list them.
proof fn lemma_listed_lacks(ls: Seq<Seq<char>>, c: char)
    requires
        forall|i: int| 0 <= i < ls.len() ==> lacks(#[trigger] ls[i], c),
    ensures
        forall|i: int| 0 <= i < listed(ls).paths.len() ==> lacks(#[trigger] listed(ls).paths[i], c),
    decreases ls.len(),
{
    if ls.len() > 0 {
        let d = ls.drop_last();
        assert forall|i: int| 0 <= i < d.len() implies lacks(#[trigger] d[i], c) by {
            assert(lacks(ls[i], c));
        }
        lemma_listed_lacks(d, c);
        let line = ls[ls.len() - 1];
        assert(lacks(line, c));
        lemma_find_char_from(line, '\t', 0);
        if let Some(i) = find_char(line, '\t') {
            lemma_find_char_from(line, '\t', i + 1);
            if let Some(j) = find_char_from(line, '\t', i + 1) {
                let path = line.skip(j + 1);
                assert(lacks(path, c));
                lemma_rename_lacks(path, c);
            }
        }
        let a = listed(d).paths;
        let b = listed(ls).paths;
        assert forall|i: int| 0 <= i < b.len() implies lacks(#[trigger] b[i], c) by {
            if i < a.len() {
                assert(b[i] == a[i]);
            }
        }
    }
}

/// What is kept as statistics holds digits and signs alone.
proof fn lemma_file_stats_lack(ls: Seq<Seq<char>>, c: char)
    requires
        !is_digit(c),
        c != '+',
        c != '/',
        c != '-',
    ensures
        forall|p: Seq<char>| #[trigger]
            listed(ls).file_stats.contains_key(p) ==> lacks(listed(ls).file_stats[p], c),
    decreases ls.len(),
{
    if ls.len() > 0 {
        lemma_file_stats_lack(ls.drop_last(), c);
        assert forall|i: nat, d: nat| lacks(#[trigger] stats_text(i, d), c) by {
            lemma_stats_lacks(i, d, c);
        }
        let a = listed(ls.drop_last()).file_stats;
        let b = listed(ls).file_stats;
        assert forall|p: Seq<char>| #[trigger] b.contains_key(p) implies lacks(b[p], c) by {
            if a.contains_key(p) && b[p] == a[p] {
                assert(lacks(a[p], c));
            }
        }
    }
}

/// A shortened path is made of characters of the path.
proof fn lemma_shortened_lacks(path: Seq<char>, c: char)
    requires
        lacks(path, c),
        c != '/',
    ensures
        lacks(shortened(path), c),
{
    law_shortening_keeps_the_segments(path);
    law_join_undoes_split(shortened(path), '/');
    lemma_split_lacks(path, '/', c);
    let parts = split(path, '/');
    let short = shortened_segments(parts);
    assert forall|i: int| 0 <= i < short.len() implies lacks(#[trigger] short[i], c) by {
        assert(lacks(parts[i], c));
    }
    assert(lacks(seq!['/'], c));
    lemma_join_lacks(short, seq!['/'], c);
}

/// What a row shows is made of the characters of the path and of its statistics, and of a few
/// others.
proof fn lemma_display_lacks(e: EntryModel, range: bool, f: WorkFileModel, c: char)
    requires
        lacks(e.path, c),
        lacks(e.stats, c),
        c == '\n' || c == '\x1f',
    ensures
        lacks(row_display(e, range, f), c),
{
    reveal_strlit("✓ ");
    reveal_strlit("  ");
    reveal_strlit(" (");
    reveal_strlit(")");
    reveal_strlit(" (rename)");
    lemma_shortened_lacks(e.path, c);
    if let WorkFileModel::Content(bytes) = f {
        lemma_stats_lacks(newlines(bytes), 0, c);
    }
    let stats = row_stats(e, range, f);
    assert(lacks(stats, c));
    let marker = if is_viewed(e.stored, f) {
        "✓ "@
    } else {
        "  "@
    };
    assert("✓ "@[0] == '✓' && "✓ "@[1] == ' ' && "  "@[0] == ' ' && "  "@[1] == ' ');
    assert(lacks(marker, c));
    let suffix = if stats.len() > 0 {
        " ("@ + stats + ")"@
    } else if e.renamed {
        " (rename)"@
    } else {
        Seq::empty()
    };
    assert(" ("@[0] == ' ' && " ("@[1] == '(' && ")"@[0] == ')');
    assert(lacks(" (rename)"@, c));
    assert(lacks(suffix, c));
}

/// Neither a path nor statistics in a list hold a line feed, and the statistics hold no
/// separator.
proof fn lemma_entries(
    target: Seq<char>,
    exclude: Seq<char>,
    numstat: Seq<char>,
    ls_files: Seq<char>,
    viewed: Seq<char>,
    i: int,
)
    requires
        0 <= i < planned(target, exclude, numstat, ls_files, viewed).entries.len(),
    ensures
        ({
            let e = planned(target, exclude, numstat, ls_files, viewed).entries[i];
            lacks(e.path, '\n') && lacks(e.stats, '\n') && lacks(e.stats, '\x1f')
        }),
{
    let ls = lines(numstat);
    let n = listed(ls);
    let untracked = untracked_against(target, ls_files);
    let files = selected(n.paths, untracked, exclude == "true"@);
    law_listed_files(n.paths, untracked, exclude == "true"@);
    let path = files[i];
    assert(files.contains(path));
    lemma_lines_lack(numstat);
    lemma_listed_lacks(ls, '\n');
    lemma_lines_lack(ls_files);
    lemma_nonempty(lines(ls_files));
    if n.paths.contains(path) {
        let k = choose|k: int| 0 <= k < n.paths.len() && n.paths[k] == path;
        assert(lacks(n.paths[k], '\n'));
    } else {
        let k = choose|k: int| 0 <= k < untracked.len() && untracked[k] == path;
        assert(lines(ls_files).contains(untracked[k]));
        let m = choose|m: int| 0 <= m < lines(ls_files).len() && lines(ls_files)[m] == path;
        assert(lacks(lines(ls_files)[m], '\n'));
    }
    lemma_file_stats_lack(ls, '\n');
    lemma_file_stats_lack(ls, '\x1f');
}

/// The lines that are not empty are among the lines.
proof fn lemma_nonempty(ls: Seq<Seq<char>>)
    ensures
        forall|i: int| 0 <= i < nonempty(ls).len() ==> ls.contains(#[trigger] nonempty(ls)[i]),
    decreases ls.len(),
{
    if ls.len() > 0 {
        let d = ls.drop_last();
        lemma_nonempty(d);
        let a = nonempty(d);
        let b = nonempty(ls);
        assert forall|i: int| 0 <= i < b.len() implies ls.contains(#[trigger] b[i]) by {
            if i < a.len() {
                assert(b[i] == a[i]);
                let k = choose|k: int| 0 <= k < d.len() && d[k] == a[i];
                assert(ls[k] == b[i]);
            } else {
                assert(ls[ls.len() - 1] == b[i]);
            }
        }
    }
}

/// The second field of a row is the path, whole, for every path without a separator.
pub proof fn law_row_names_its_file(
    target: Seq<char>,
    exclude: Seq<char>,
    numstat: Seq<char>,
    ls_files: Seq<char>,
    viewed: Seq<char>,
    i: int,
    f: WorkFileModel,
)
    requires
        0 <= i < planned(target, exclude, numstat, ls_files, viewed).entries.len(),
        !planned(target, exclude, numstat, ls_files, viewed).entries[i].path.contains('\x1f'),
    ensures
        ({
            let p = planned(target, exclude, numstat, ls_files, viewed);
            split(row(p.entries[i], p.range, f), '\x1f') == seq![
                row_display(p.entries[i], p.range, f),
                p.entries[i].path,
            ]
        }),
{
    let p = planned(target, exclude, numstat, ls_files, viewed);
    let e = p.entries[i];
    lemma_entries(target, exclude, numstat, ls_files, viewed, i);
    lemma_lacks(e.path, '\x1f');
    lemma_display_lacks(e, p.range, f, '\x1f');
    let parts = seq![row_display(e, p.range, f), e.path];
    assert forall|k: int| 0 <= k < parts.len() implies !(#[trigger] parts[k]).contains('\x1f') by {}
    law_split_undoes_join(parts, '\x1f');
    reveal_strlit("\x1f");
    assert("\x1f"@ =~= seq!['\x1f']);
    assert(parts.drop_last() =~= seq![row_display(e, p.range, f)]);
    assert(join(parts.drop_last(), seq!['\x1f']) == row_display(e, p.range, f));
    assert(join(parts, seq!['\x1f']) =~= row(e, p.range, f));
}

/// The list has one line for each row.
pub proof fn law_list_has_one_line_for_each_row(
    target: Seq<char>,
    exclude: Seq<char>,
    numstat: Seq<char>,
    ls_files: Seq<char>,
    viewed: Seq<char>,
    files: Seq<WorkFileModel>,
)
    ensures
        ({
            let p = planned(target, exclude, numstat, ls_files, viewed);
            let rs = list_rows(p, files);
            if rs.len() == 0 {
                list_text(p, files).len() == 0
            } else {
                split(list_text(p, files), '\n') == rs.push(Seq::empty())
            }
        }),
{
    let p = planned(target, exclude, numstat, ls_files, viewed);
    let rs = list_rows(p, files);
    reveal_strlit("\n");
    assert("\n"@ =~= seq!['\n']);
    if rs.len() > 0 {
        lemma_rows_hold_no_newline(target, exclude, numstat, ls_files, viewed, files);
        law_split_undoes_join(rs, '\n');
        let j = join(rs, seq!['\n']);
        assert(j.len() > 0) by {
            if j.len() == 0 {
                assert(split(j, '\n') == seq![Seq::<char>::empty()]);
                assert(rs[0].len() == 0);
                reveal_strlit("\x1f");
                reveal_strlit(" files\x1b[0m\x1f__TOO_MANY__");
            }
        }
        let t = list_text(p, files);
        assert(t == j.push('\n'));
        assert(t.drop_last() == j);
    }
}

/// No row holds a line feed.
proof fn lemma_rows_hold_no_newline(
    target: Seq<char>,
    exclude: Seq<char>,
    numstat: Seq<char>,
    ls_files: Seq<char>,
    viewed: Seq<char>,
    files: Seq<WorkFileModel>,
)
    ensures
        ({
            let rs = list_rows(planned(target, exclude, numstat, ls_files, viewed), files);
            forall|i: int| 0 <= i < rs.len() ==> !(#[trigger] rs[i]).contains('\n')
        }),
{
    let p = planned(target, exclude, numstat, ls_files, viewed);
    let rs = list_rows(p, files);
    let own = rows(p, files, p.entries.len());
    reveal_strlit("\x1f");
    assert("\x1f"@[0] == '\x1f');
    assert forall|i: int| 0 <= i < own.len() implies lacks(#[trigger] own[i], '\n') by {
        lemma_entries(target, exclude, numstat, ls_files, viewed, i);
        lemma_display_lacks(p.entries[i], p.range, files[i], '\n');
        assert(own[i] == row(p.entries[i], p.range, files[i]));
    }
    lemma_sentinel_lacks_newline(p.entries.len(), p.total);
    assert forall|i: int| 0 <= i < rs.len() implies !(#[trigger] rs[i]).contains('\n') by {
        if p.truncated {
            if i == 0 {
                assert(rs[i] == sentinel(p.entries.len(), p.total));
            } else {
                assert(rs[i] == own[i - 1]);
            }
        } else {
            assert(rs[i] == own[i]);
        }
        assert(lacks(rs[i], '\n'));
    }
}

/// The row that says how many files are listed holds no line feed.
proof fn lemma_sentinel_lacks_newline(shown: nat, total: nat)
    ensures
        lacks(sentinel(shown, total), '\n'),
{
    reveal_strlit("\x1b[2m* Showing ");
    reveal_strlit(" of ");
    reveal_strlit(" files\x1b[0m\x1f__TOO_MANY__");
    lemma_decimal_lacks(shown, '\n');
    lemma_decimal_lacks(total, '\n');
    assert(lacks("\x1b[2m* Showing "@, '\n'));
    assert(lacks(" of "@, '\n'));
    assert(lacks(" files\x1b[0m\x1f__TOO_MANY__"@, '\n'));
}

/// Where files were left out, the list starts with the line that says so, so that the line is
/// shown as a header.
pub proof fn law_list_that_is_cut_short_says_so(
    target: Seq<char>,
    exclude: Seq<char>,
    numstat: Seq<char>,
    ls_files: Seq<char>,
    viewed: Seq<char>,
    files: Seq<WorkFileModel>,
)
    ensures
        ({
            let p = planned(target, exclude, numstat, ls_files, viewed);
            &&& p.truncated <==> p.total > 500
            &&& p.truncated ==> is_cut_short(list_text(p, files)) && lines(list_text(p, files))[0]
                == "\x1b[2m* Showing "@ + decimal(p.entries.len()) + " of "@ + decimal(p.total)
                + " files\x1b[0m\x1f__TOO_MANY__"@
        }),
{
    let p = planned(target, exclude, numstat, ls_files, viewed);
    if p.truncated {
        let rs = list_rows(p, files);
        let first = sentinel(p.entries.len(), p.total);
        law_list_has_one_line_for_each_row(target, exclude, numstat, ls_files, viewed, files);
        let t = list_text(p, files);
        let pieces = split(t, '\n');
        assert(pieces.drop_last() == rs);
        reveal_strlit(" files\x1b[0m\x1f__TOO_MANY__");
        reveal_strlit("__TOO_MANY__");
        let tail = " files\x1b[0m\x1f__TOO_MANY__"@;
        assert(first.last() == tail.last());
        assert(tail.last() == '_');
        assert(rs[0] == first);
        assert(lines(t)[0] == first);
        let at = first.len() - 12;
        assert(first.subrange(at, at + 12) =~= "__TOO_MANY__"@);
        assert(matches_at(first, "__TOO_MANY__"@, at));
    }
}

/// A row whose statistics are known and that is not recorded as viewed shows the same whatever
/// the working tree holds.
pub proof fn law_known_row_needs_no_file(
    e: EntryModel,
    range: bool,
    f: WorkFileModel,
    g: WorkFileModel,
)
    requires
        !depends_on_file(e, range),
    ensures
        row(e, range, f) == row(e, range, g),
{
}

/// Against a range of commits untracked files are not listed.
pub proof fn law_range_lists_no_untracked_files(
    target: Seq<char>,
    exclude: Seq<char>,
    numstat: Seq<char>,
    ls_files: Seq<char>,
    viewed: Seq<char>,
)
    requires
        is_range(target),
    ensures
        planned(target, exclude, numstat, ls_files, viewed) == planned(
            target,
            exclude,
            numstat,
            Seq::empty(),
            viewed,
        ),
{
}

/// The mark in front of a row.
pub open spec fn marker(e: EntryModel, range: bool, f: WorkFileModel) -> Seq<char> {
    row(e, range, f).take(2)
}

/// A file that was toggled for the first time in its present state is listed as viewed, and one
/// that was toggled again is not. A later change of the file takes the mark away, as far as it
/// changes the object id.
pub proof fn law_toggling_shows_in_the_list(
    target: Seq<char>,
    exclude: Seq<char>,
    numstat: Seq<char>,
    ls_files: Seq<char>,
    viewed: Seq<char>,
    i: int,
    f: WorkFileModel,
    later: WorkFileModel,
)
    requires
        0 <= i < planned(target, exclude, numstat, ls_files, viewed).entries.len(),
        is_mark(current_mark(f)),
        is_settled(viewed),
        planned(target, exclude, numstat, ls_files, viewed).entries[i].path.len() > 0,
        fits_line(planned(target, exclude, numstat, ls_files, viewed).entries[i].path),
    ensures
        ({
            let file = planned(target, exclude, numstat, ls_files, viewed).entries[i].path;
            let p = planned(
                target,
                exclude,
                numstat,
                ls_files,
                toggled(viewed, file, current_mark(f)),
            );
            let marks = stored_mark(lines(viewed), file) != current_mark(f);
            &&& p.entries[i].path == file
            &&& marker(p.entries[i], p.range, later) == if marks && current_mark(later)
                == current_mark(f) {
                "✓ "@
            } else {
                "  "@
            }
        }),
{
    let old_plan = planned(target, exclude, numstat, ls_files, viewed);
    let file = old_plan.entries[i].path;
    let mark = current_mark(f);
    let v = toggled(viewed, file, mark);
    let p = planned(target, exclude, numstat, ls_files, v);
    let e = p.entries[i];
    assert(e.path == file);
    reveal_strlit("✓ ");
    reveal_strlit("  ");
    if stored_mark(lines(viewed), file) != mark {
        law_marked_file_is_viewed(viewed, file, mark);
        assert(e.stored == mark);
    } else {
        law_unmarked_file_is_not_viewed(viewed, file, mark);
        assert(e.stored.len() == 0);
    }
    let shown = is_viewed(e.stored, later);
    let m = if shown {
        "✓ "@
    } else {
        "  "@
    };
    assert(marker(e, p.range, later) =~= m);
}

} // verus!

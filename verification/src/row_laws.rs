//! What the rows of the list of files show, and which files they are about.

use crate::blob::{blob_data, hex, sha1_of};
use crate::listing::{
    at_most, is_generated, list_rows, nonempty, planned, row, selected, untracked_argv, EntryModel,
    PlanModel,
};
use crate::listing_laws::{law_listed_files, lemma_without_generated, marker, named};
use crate::number::decimal;
use crate::numstat::listed;
use crate::numstat_laws::{
    law_renamed_files_are_those_shown_so, law_statistics_are_those_of_the_line,
    law_uncounted_file_has_no_statistics, renames_to,
};
use crate::order::{before, law_sorted_once, sorted_once};
use crate::paths::shortened;
use crate::stats::{newlines, numstat_counts};
use crate::stats_laws::{counted_line, law_statistics_show_both_counts};
use crate::text::{contains, lines, starts_with};
use crate::text_laws::{law_beginning_is_a_prefix, law_held_text_stands_between};
use crate::viewed::{viewed_in, WorkFileModel};
use vstd::prelude::*;

verus! {

/// A file with statistics against the target shows them in brackets behind its short path,
/// whatever the target is and whatever the working tree holds.
pub proof fn law_row_shows_its_statistics(e: EntryModel, range: bool, f: WorkFileModel)
    requires
        e.stats.len() > 0,
    ensures
        row(e, range, f).skip(2) == shortened(e.path) + seq![' ', '('] + e.stats + seq![
            ')',
            '\x1f',
        ] + e.path,
{
    lemma_literals();
    assert(row(e, range, f).skip(2) =~= shortened(e.path) + seq![' ', '('] + e.stats + seq![
        ')',
        '\x1f',
    ] + e.path);
}

/// A renamed file without statistics is shown as renamed.
pub proof fn law_row_shows_a_rename(e: EntryModel, range: bool, f: WorkFileModel)
    requires
        e.stats.len() == 0,
        e.renamed,
    ensures
        row(e, range, f).skip(2) == shortened(e.path) + seq![
            ' ',
            '(',
            'r',
            'e',
            'n',
            'a',
            'm',
            'e',
            ')',
            '\x1f',
        ] + e.path,
{
    lemma_literals();
    reveal_strlit(" (rename)");
    assert(row(e, range, f).skip(2) =~= shortened(e.path) + seq![
        ' ',
        '(',
        'r',
        'e',
        'n',
        'a',
        'm',
        'e',
        ')',
        '\x1f',
    ] + e.path);
}

/// A file that is neither counted nor renamed shows its lines as inserted where it stands in the
/// working tree, holds any, and the target is no range. Otherwise it shows its path alone.
pub proof fn law_row_counts_the_lines_of_a_new_file(e: EntryModel, range: bool, f: WorkFileModel)
    requires
        e.stats.len() == 0,
        !e.renamed,
    ensures
        f matches WorkFileModel::Content(bytes) ==> (!range && newlines(bytes) > 0 ==> row(
            e,
            range,
            f,
        ).skip(2) == shortened(e.path) + seq![' ', '(', '+'] + decimal(newlines(bytes)) + seq![
            '/',
            '-',
            '0',
            ')',
            '\x1f',
        ] + e.path),
        f matches WorkFileModel::Content(bytes) ==> (newlines(bytes) == 0 ==> row(e, range, f).skip(
            2,
        ) == shortened(e.path) + seq!['\x1f'] + e.path),
        range || f is Missing || f is Unreadable ==> row(e, range, f).skip(2) == shortened(e.path)
            + seq!['\x1f'] + e.path,
{
    lemma_literals();
    match f {
        WorkFileModel::Content(bytes) => {
            if !range && newlines(bytes) > 0 {
                law_statistics_show_both_counts(newlines(bytes), 0);
                assert(decimal(0) =~= seq!['0']);
                assert(row(e, range, f).skip(2) =~= shortened(e.path) + seq![' ', '(', '+']
                    + decimal(newlines(bytes)) + seq!['/', '-', '0', ')', '\x1f'] + e.path);
            } else {
                assert(row(e, range, f).skip(2) =~= shortened(e.path) + seq!['\x1f'] + e.path);
            }
        },
        _ => {
            assert(row(e, range, f).skip(2) =~= shortened(e.path) + seq!['\x1f'] + e.path);
        },
    }
}

/// The fixed parts of a row.
proof fn lemma_literals()
    ensures
        "✓ "@ == seq!['✓', ' '],
        "  "@ == seq![' ', ' '],
        " ("@ == seq![' ', '('],
        ")"@ == seq![')'],
        "\x1f"@ == seq!['\x1f'],
{
    reveal_strlit("✓ ");
    reveal_strlit("  ");
    reveal_strlit(" (");
    reveal_strlit(")");
    reveal_strlit("\x1f");
    assert("✓ "@ =~= seq!['✓', ' ']);
    assert("  "@ =~= seq![' ', ' ']);
    assert(" ("@ =~= seq![' ', '(']);
    assert(")"@ =~= seq![')']);
    assert("\x1f"@ =~= seq!['\x1f']);
}

/// A row is marked as viewed exactly where the file is gone and was recorded so, or where it
/// stands there with the object id under which it was recorded.
pub proof fn law_row_is_marked_where_viewed(e: EntryModel, range: bool, f: WorkFileModel)
    ensures
        marker(e, range, f) == (if match f {
            WorkFileModel::Missing => e.stored == "DELETED"@,
            WorkFileModel::Unreadable => false,
            WorkFileModel::Content(bytes) => e.stored.len() > 0 && e.stored == hex(
                sha1_of(blob_data(bytes)),
            ),
        } {
            seq!['✓', ' ']
        } else {
            seq![' ', ' ']
        }),
{
    lemma_literals();
    reveal_strlit("DELETED");
    assert(marker(e, range, f) =~= if match f {
        WorkFileModel::Missing => e.stored == "DELETED"@,
        WorkFileModel::Unreadable => false,
        WorkFileModel::Content(bytes) => e.stored.len() > 0 && e.stored == hex(
            sha1_of(blob_data(bytes)),
        ),
    } {
        seq!['✓', ' ']
    } else {
        seq![' ', ' ']
    });
}

/// In every list, the row of a file that a line of the listing counts shows these counts, against
/// a range as against any other target.
pub proof fn law_listed_row_shows_the_counts_of_its_line(
    target: Seq<char>,
    exclude: Seq<char>,
    numstat: Seq<char>,
    ls_files: Seq<char>,
    viewed: Seq<char>,
    k: int,
    ins: nat,
    del: nat,
    path: Seq<char>,
    i: int,
    f: WorkFileModel,
)
    requires
        0 <= k < lines(numstat).len(),
        lines(numstat)[k] == counted_line(ins, del, path),
        path.len() > 0,
        !contains(path, " => "@),
        ins <= u64::MAX,
        del <= u64::MAX,
        ins > 0 || del > 0,
        forall|j: int| k < j < lines(numstat).len() ==> named(#[trigger] lines(numstat)[j]) != Some(
            path,
        ),
        0 <= i < planned(target, exclude, numstat, ls_files, viewed).entries.len(),
        planned(target, exclude, numstat, ls_files, viewed).entries[i].path == path,
    ensures
        ({
            let p = planned(target, exclude, numstat, ls_files, viewed);
            &&& p.entries[i].stats == seq!['+'] + decimal(ins) + seq!['/', '-'] + decimal(del)
            &&& row(p.entries[i], p.range, f).skip(2) == shortened(path) + seq![' ', '(', '+']
                + decimal(ins) + seq!['/', '-'] + decimal(del) + seq![')', '\x1f'] + path
        }),
{
    let p = planned(target, exclude, numstat, ls_files, viewed);
    law_statistics_are_those_of_the_line(lines(numstat), k, ins, del, path);
    let e = p.entries[i];
    assert(e.stats == seq!['+'] + decimal(ins) + seq!['/', '-'] + decimal(del));
    law_row_shows_its_statistics(e, p.range, f);
    assert(row(e, p.range, f).skip(2) =~= shortened(path) + seq![' ', '(', '+'] + decimal(ins)
        + seq!['/', '-'] + decimal(del) + seq![')', '\x1f'] + path);
}

/// What is listed of a file: it has statistics only where a line counts something for it, it is
/// renamed exactly where a line shows a rename to it, and its mark is the one in the record.
pub proof fn law_entries_follow_the_listing_and_the_record(
    target: Seq<char>,
    exclude: Seq<char>,
    numstat: Seq<char>,
    ls_files: Seq<char>,
    viewed: Seq<char>,
    i: int,
)
    requires
        0 <= i < planned(target, exclude, numstat, ls_files, viewed).entries.len(),
    ensures
        ({
            let e = planned(target, exclude, numstat, ls_files, viewed).entries[i];
            let ls = lines(numstat);
            &&& e.renamed <==> exists|j: int| 0 <= j < ls.len() && renames_to(#[trigger] ls[j], e.path)
            &&& (forall|j: int|
                0 <= j < ls.len() && named(#[trigger] ls[j]) == Some(e.path) ==> numstat_counts(
                    ls[j],
                ) == (0nat, 0nat)) ==> e.stats.len() == 0
            &&& viewed_in(viewed).contains_key(e.path) ==> e.stored == viewed_in(viewed)[e.path]
            &&& !viewed_in(viewed).contains_key(e.path) ==> e.stored.len() == 0
        }),
{
    let e = planned(target, exclude, numstat, ls_files, viewed).entries[i];
    let ls = lines(numstat);
    law_renamed_files_are_those_shown_so(ls, e.path);
    if forall|j: int|
        0 <= j < ls.len() && named(#[trigger] ls[j]) == Some(e.path) ==> numstat_counts(ls[j]) == (
            0nat,
            0nat,
        ) {
        law_uncounted_file_has_no_statistics(ls, e.path);
    }
}

/// What a list is about: the changed files and, unless the target is a range, the untracked ones.
/// Its entries are the selected files in their order, it knows how many there are, and it is cut
/// exactly where there are more than `MAX_FILES`.
pub proof fn law_plan_of_a_list(
    target: Seq<char>,
    exclude: Seq<char>,
    numstat: Seq<char>,
    ls_files: Seq<char>,
    viewed: Seq<char>,
)
    ensures
        ({
            let p = planned(target, exclude, numstat, ls_files, viewed);
            let changed = listed(lines(numstat)).paths;
            let untracked = nonempty(lines(ls_files));
            let taken = if contains(target, ".."@) {
                Seq::empty()
            } else {
                untracked
            };
            let files = selected(changed, taken, exclude == "true"@);
            &&& p.range == contains(target, ".."@)
            &&& p.total == changed.len() + taken.len()
            &&& p.truncated == (changed.len() + taken.len() > 500)
            &&& p.entries.len() == files.len()
            &&& forall|i: int| 0 <= i < files.len() ==> (#[trigger] p.entries[i]).path == files[i]
        }),
{
}

/// The lines that are not empty are kept, in their order.
pub proof fn law_empty_lines_are_passed_over(
    a: Seq<Seq<char>>,
    b: Seq<Seq<char>>,
    line: Seq<char>,
)
    ensures
        nonempty(a + b) == nonempty(a) + nonempty(b),
        line.len() > 0 ==> nonempty(seq![line]) == seq![line],
        nonempty(seq![Seq::empty()]).len() == 0,
    decreases b.len(),
{
    let e = seq![Seq::<char>::empty()];
    assert(e.drop_last() =~= Seq::empty());
    assert(seq![line].drop_last() =~= Seq::empty());
    assert(nonempty(Seq::empty()) =~= Seq::empty());
    assert(line.len() > 0 ==> nonempty(seq![line]) =~= seq![line]);
    if b.len() == 0 {
        assert(a + b =~= a);
        assert(nonempty(a) + nonempty(b) =~= nonempty(a));
    } else {
        law_empty_lines_are_passed_over(a, b.drop_last(), line);
        assert((a + b).drop_last() =~= a + b.drop_last());
        assert(nonempty(a + b) =~= nonempty(a) + nonempty(b));
    }
}

/// A file is generated exactly where a folder named `generated` stands on its path.
pub proof fn law_generated_files_lie_in_a_folder_of_that_name(
    path: Seq<char>,
    a: Seq<char>,
    b: Seq<char>,
)
    ensures
        is_generated("generated/"@ + b),
        is_generated(a + "/generated/"@ + b),
        is_generated(path) <==> (exists|y: Seq<char>| path == #[trigger] ("generated/"@ + y)) || (
        exists|x: Seq<char>, y: Seq<char>| path == #[trigger] (x + "/generated/"@ + y)),
{
    let top = "generated/"@;
    law_beginning_is_a_prefix(path, top, b);
    law_held_text_stands_between(path, "/generated/"@, a, b);
    if starts_with(path, top) {
        let y = path.skip(top.len() as int);
        assert(path == top + y);
    }
    if exists|y: Seq<char>| path == #[trigger] (top + y) {
        let y = choose|y: Seq<char>| path == #[trigger] (top + y);
        law_beginning_is_a_prefix(path, top, y);
    }
}

/// Leaving generated files out takes these away from the list, and nothing else.
pub proof fn law_leaving_out_takes_generated_files_away(
    changed: Seq<Seq<char>>,
    untracked: Seq<Seq<char>>,
    path: Seq<char>,
)
    ensures
        selected(changed, untracked, true).contains(path) <==> selected(
            changed,
            untracked,
            false,
        ).contains(path) && !is_generated(path),
{
    law_listed_files(changed, untracked, false);
    lemma_without_generated(selected(changed, untracked, false));
}

/// Where there are too many files and room for some untracked ones, these are the first that
/// `git` lists.
pub proof fn law_room_goes_to_the_first_untracked_files(
    changed: Seq<Seq<char>>,
    untracked: Seq<Seq<char>>,
    path: Seq<char>,
)
    requires
        changed.len() < 500,
        changed.len() + untracked.len() > 500,
    ensures
        selected(changed, untracked, false).contains(path) <==> changed.contains(path)
            || untracked.take(500 - changed.len()).contains(path),
{
    let room = untracked.take(500 - changed.len());
    let all = changed + room;
    law_sorted_once(all);
    if all.contains(path) {
        let k = choose|k: int| 0 <= k < all.len() && all[k] == path;
        if k < changed.len() {
            assert(changed[k] == path);
        } else {
            assert(room[k - changed.len()] == path);
        }
    }
    if changed.contains(path) {
        let k = choose|k: int| 0 <= k < changed.len() && changed[k] == path;
        assert(all[k] == path);
    }
    if room.contains(path) {
        let k = choose|k: int| 0 <= k < room.len() && room[k] == path;
        assert(all[changed.len() + k] == path);
    }
}

/// Where the changed files alone are too many, the first of all in order are listed: `MAX_FILES`
/// of them, or as many as there are different ones, and none that is left out stands before one
/// that is listed.
pub proof fn law_first_files_in_order_are_listed(
    changed: Seq<Seq<char>>,
    untracked: Seq<Seq<char>>,
    path: Seq<char>,
    i: int,
)
    requires
        changed.len() >= 500,
        changed.contains(path) || untracked.contains(path),
        !selected(changed, untracked, false).contains(path),
        0 <= i < selected(changed, untracked, false).len(),
    ensures
        selected(changed, untracked, false).len() == 500,
        before(selected(changed, untracked, false)[i], path),
{
    let all = changed + untracked;
    law_sorted_once(all);
    let sorted = sorted_once(all);
    let r = selected(changed, untracked, false);
    assert(r == at_most(sorted, 500));
    if changed.contains(path) {
        let k = choose|k: int| 0 <= k < changed.len() && changed[k] == path;
        assert(all[k] == path);
    } else {
        let k = choose|k: int| 0 <= k < untracked.len() && untracked[k] == path;
        assert(all[changed.len() + k] == path);
    }
    assert(sorted.contains(path));
    let m = choose|m: int| 0 <= m < sorted.len() && sorted[m] == path;
    if m < r.len() {
        assert(r[m] == path);
        assert(r.contains(path));
    }
    assert(sorted.len() > 500);
    assert(r[i] == sorted[i]);
}

/// A list has one row for each file, in their order, behind the row that says how many are shown
/// where it is cut.
pub proof fn law_rows_stand_in_the_order_of_the_files(
    p: PlanModel,
    files: Seq<WorkFileModel>,
    i: int,
)
    requires
        0 <= i < p.entries.len(),
    ensures
        p.truncated ==> {
            &&& list_rows(p, files).len() == p.entries.len() + 1
            &&& list_rows(p, files)[i + 1] == row(p.entries[i], p.range, files[i])
            &&& list_rows(p, files)[0] == "\x1b[2m* Showing "@ + decimal(p.entries.len()) + " of "@
                + decimal(p.total) + " files\x1b[0m\x1f__TOO_MANY__"@
        },
        !p.truncated ==> {
            &&& list_rows(p, files).len() == p.entries.len()
            &&& list_rows(p, files)[i] == row(p.entries[i], p.range, files[i])
        },
{
}

/// `git` is asked for the untracked files that are not ignored.
pub proof fn law_untracked_files_are_asked_for()
    ensures
        untracked_argv() == seq!["ls-files"@, "--others"@, "--exclude-standard"@],
{
}

} // verus!

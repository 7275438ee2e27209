//! What each line of a listing adds to the changed files.

use crate::listing_laws::named;
use crate::number::{decimal, law_decimal_reads_back, parse_unsigned};
use crate::numstat::{listed, numstat_argv};
use crate::paths::rename_of;
use crate::paths_laws::law_rename_has_an_arrow;
use crate::stats::numstat_counts;
use crate::stats_laws::{
    counted_line, law_statistics_show_both_counts, lemma_counted_fields, lemma_number_is_no_dash,
};
use crate::text::{contains, fields, split};
use crate::text_laws::{law_fields_stand_between_tabs, lemma_fields};
use vstd::prelude::*;

verus! {

/// A line with counts lists its file, and keeps the counts for it unless both are zero.
pub proof fn law_counted_line_lists_its_file(
    ls: Seq<Seq<char>>,
    ins: nat,
    del: nat,
    path: Seq<char>,
)
    requires
        path.len() > 0,
        !contains(path, " => "@),
        ins <= u64::MAX,
        del <= u64::MAX,
    ensures
        ({
            let a = listed(ls);
            let b = listed(ls.push(counted_line(ins, del, path)));
            &&& b.paths == a.paths.push(path)
            &&& b.renamed == a.renamed
            &&& ins > 0 || del > 0 ==> b.file_stats == a.file_stats.insert(
                path,
                seq!['+'] + decimal(ins) + seq!['/', '-'] + decimal(del),
            )
            &&& ins == 0 && del == 0 ==> b.file_stats == a.file_stats
        }),
{
    let line = counted_line(ins, del, path);
    assert(ls.push(line).drop_last() =~= ls);
    lemma_counted_fields(ins, del, path);
    lemma_number_is_no_dash(ins);
    law_rename_has_an_arrow(path);
    law_decimal_reads_back(ins, u64::MAX as nat);
    law_decimal_reads_back(del, u64::MAX as nat);
    if ins > 0 || del > 0 {
        law_statistics_show_both_counts(ins, del);
    }
}

/// A line with counts that shows a rename lists the file by its new path, keeps the counts for
/// that path, and keeps the old path.
pub proof fn law_renamed_file_is_listed_by_its_new_path(
    ls: Seq<Seq<char>>,
    ins: nat,
    del: nat,
    path: Seq<char>,
    old_path: Seq<char>,
    new_path: Seq<char>,
)
    requires
        path.len() > 0,
        rename_of(path) == Some((old_path, new_path)),
        ins <= u64::MAX,
        del <= u64::MAX,
    ensures
        ({
            let a = listed(ls);
            let b = listed(ls.push(counted_line(ins, del, path)));
            &&& b.paths == a.paths.push(new_path)
            &&& b.renamed == a.renamed.insert(new_path, old_path)
            &&& ins > 0 || del > 0 ==> b.file_stats == a.file_stats.insert(
                new_path,
                seq!['+'] + decimal(ins) + seq!['/', '-'] + decimal(del),
            )
            &&& ins == 0 && del == 0 ==> b.file_stats == a.file_stats
        }),
{
    let line = counted_line(ins, del, path);
    assert(ls.push(line).drop_last() =~= ls);
    lemma_counted_fields(ins, del, path);
    lemma_number_is_no_dash(ins);
    law_decimal_reads_back(ins, u64::MAX as nat);
    law_decimal_reads_back(del, u64::MAX as nat);
    if ins > 0 || del > 0 {
        law_statistics_show_both_counts(ins, del);
    }
}

/// A line whose counts are no numbers, as that of a binary file, lists its file without
/// statistics. A line without three fields, or with an empty path, lists nothing.
pub proof fn law_other_lines_keep_no_statistics(
    ls: Seq<Seq<char>>,
    line: Seq<char>,
    first: Seq<char>,
    second: Seq<char>,
    path: Seq<char>,
)
    requires
        !first.contains('\t'),
        !second.contains('\t'),
        parse_unsigned(first, u64::MAX as nat) is None || parse_unsigned(second, u64::MAX as nat)
            is None,
    ensures
        ({
            let a = listed(ls);
            let b = listed(ls.push(first + seq!['\t'] + second + seq!['\t'] + path));
            &&& b.file_stats == a.file_stats
            &&& path.len() == 0 ==> b == a
            &&& path.len() > 0 && !contains(path, " => "@) ==> b.paths == a.paths.push(path)
                && b.renamed == a.renamed
            &&& path.len() > 0 ==> (rename_of(path) matches Some((o, n)) ==> b.paths
                == a.paths.push(n) && b.renamed == a.renamed.insert(n, o))
        }),
        split(line, '\t').len() < 3 ==> listed(ls.push(line)) == listed(ls),
{
    let l = first + seq!['\t'] + second + seq!['\t'] + path;
    assert(ls.push(l).drop_last() =~= ls);
    assert(ls.push(line).drop_last() =~= ls);
    lemma_fields(first, second, path);
    law_rename_has_an_arrow(path);
    law_fields_stand_between_tabs(line, first, second, path);
}

/// The statistics of a file are the counts on the last line that names it.
pub proof fn law_statistics_are_those_of_the_line(
    ls: Seq<Seq<char>>,
    k: int,
    ins: nat,
    del: nat,
    path: Seq<char>,
)
    requires
        0 <= k < ls.len(),
        ls[k] == counted_line(ins, del, path),
        path.len() > 0,
        !contains(path, " => "@),
        ins <= u64::MAX,
        del <= u64::MAX,
        ins > 0 || del > 0,
        forall|j: int| k < j < ls.len() ==> named(#[trigger] ls[j]) != Some(path),
    ensures
        listed(ls).file_stats.contains_key(path),
        listed(ls).file_stats[path] == seq!['+'] + decimal(ins) + seq!['/', '-'] + decimal(del),
    decreases ls.len(),
{
    let d = ls.drop_last();
    assert(ls =~= d.push(ls.last()));
    if k == ls.len() - 1 {
        law_counted_line_lists_its_file(d, ins, del, path);
    } else {
        assert forall|j: int| k < j < d.len() implies named(#[trigger] d[j]) != Some(path) by {
            assert(d[j] == ls[j]);
        }
        law_statistics_are_those_of_the_line(d, k, ins, del, path);
        assert(named(ls[ls.len() - 1]) != Some(path));
    }
}

/// A file has no statistics where no line counts anything for it.
pub proof fn law_uncounted_file_has_no_statistics(ls: Seq<Seq<char>>, path: Seq<char>)
    requires
        forall|j: int|
            0 <= j < ls.len() && named(#[trigger] ls[j]) == Some(path) ==> numstat_counts(ls[j])
                == (0nat, 0nat),
    ensures
        !listed(ls).file_stats.contains_key(path),
    decreases ls.len(),
{
    if ls.len() > 0 {
        let d = ls.drop_last();
        assert forall|j: int|
            0 <= j < d.len() && named(#[trigger] d[j]) == Some(path) implies numstat_counts(d[j])
            == (0nat, 0nat) by {
            assert(d[j] == ls[j]);
        }
        law_uncounted_file_has_no_statistics(d, path);
        let last = ls[ls.len() - 1];
        if named(last) == Some(path) {
            assert(numstat_counts(last) == (0nat, 0nat));
        }
    }
}

/// A file counts as renamed exactly where a line shows a rename to its path.
pub proof fn law_renamed_files_are_those_shown_so(ls: Seq<Seq<char>>, path: Seq<char>)
    ensures
        listed(ls).renamed.contains_key(path) <==> exists|j: int|
            0 <= j < ls.len() && renames_to(#[trigger] ls[j], path),
    decreases ls.len(),
{
    if ls.len() > 0 {
        let d = ls.drop_last();
        law_renamed_files_are_those_shown_so(d, path);
        let last = ls[ls.len() - 1];
        if listed(d).renamed.contains_key(path) {
            let j = choose|j: int| 0 <= j < d.len() && renames_to(#[trigger] d[j], path);
            assert(renames_to(ls[j], path));
        }
        if exists|j: int| 0 <= j < ls.len() && renames_to(#[trigger] ls[j], path) {
            let j = choose|j: int| 0 <= j < ls.len() && renames_to(#[trigger] ls[j], path);
            if j < d.len() {
                assert(renames_to(d[j], path));
            }
        }
        if renames_to(last, path) {
            assert(listed(ls).renamed.contains_key(path));
        }
    }
}

/// Whether a line shows a rename to `path`.
pub open spec fn renames_to(line: Seq<char>, path: Seq<char>) -> bool {
    fields(line) matches Some((_, _, shown)) && shown.len() > 0 && (rename_of(shown) matches Some(r)
        && r.1 == path)
}

/// `git` is asked for the listing against the target, with whitespace changes.
pub proof fn law_listing_is_asked_for(target: Seq<char>)
    ensures
        numstat_argv(target) == seq!["diff"@, "--numstat"@, target],
{
}

} // verus!

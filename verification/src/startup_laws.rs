//! What the viewer diffs against when it starts.

use crate::args::{is_commit_back, parsed, subcommands, ArgsModel};
use crate::args_laws::{last_commit_back, law_flags_in_any_order};
use crate::header::{law_range_tip_reads_back, rev_count_argv};
use crate::number::all_digits;
use crate::startup::{
    base_candidates, base_of, first_env, first_target, lacks_upstream, merge_base_target,
    settled_args, value_in, RepoModel,
};
use crate::stats::is_range;
use crate::text::{contains, is_digit, matches_at, trim, trim_end_newlines};
use vstd::prelude::*;

verus! {

/// Without a word about it, the working tree is diffed against `HEAD`, in whatever repository.
pub proof fn law_default_target_is_head(argv: Seq<Seq<char>>, repo: RepoModel)
    requires
        forall|i: int| 0 <= i < argv.len() ==> !subcommands().contains(#[trigger] argv[i]),
        forall|i: int| 0 <= i < argv.len() ==> !is_commit_back(#[trigger] argv[i]),
        !argv.contains("m"@),
        !argv.contains("p"@),
    ensures
        first_target(parsed(argv), repo) == "HEAD"@,
{
    law_flags_in_any_order(argv);
    lemma_no_commit_back(argv);
}

/// Without `~N` there are no digits.
proof fn lemma_no_commit_back(argv: Seq<Seq<char>>)
    requires
        forall|i: int| 0 <= i < argv.len() ==> !is_commit_back(#[trigger] argv[i]),
    ensures
        last_commit_back(argv).len() == 0,
    decreases argv.len(),
{
    if argv.len() > 0 {
        let d = argv.drop_last();
        assert forall|i: int| 0 <= i < d.len() implies !is_commit_back(#[trigger] d[i]) by {
            assert(d[i] == argv[i]);
        }
        lemma_no_commit_back(d);
        assert(!is_commit_back(argv[argv.len() - 1]));
    }
}

/// A commit that is named by its distance comes before the upstream branch, that before the
/// merge base, and that before `HEAD`.
pub proof fn law_targets_in_order(a: ArgsModel, repo: RepoModel)
    ensures
        a.commit_back.len() > 0 ==> first_target(a, repo) == "HEAD~"@ + a.commit_back
            + "^..HEAD~"@ + a.commit_back,
        a.commit_back.len() == 0 && a.upstream && trim(repo.upstream).len() > 0 ==> first_target(
            a,
            repo,
        ) == trim(repo.upstream),
        a.commit_back.len() == 0 && a.merge_base && (!a.upstream || trim(repo.upstream).len()
            == 0) ==> first_target(a, repo) == merge_base_target(repo),
        a.commit_back.len() == 0 && !a.merge_base && (!a.upstream || trim(repo.upstream).len()
            == 0) ==> first_target(a, repo) == "HEAD"@,
{
}

/// A commit that is named by its distance is diffed as a range, so the working tree plays no
/// part.
pub proof fn law_commit_back_is_a_range(a: ArgsModel, repo: RepoModel)
    requires
        a.commit_back.len() > 0,
    ensures
        is_range(first_target(a, repo)),
        contains(first_target(a, repo), "^.."@),
{
    reveal_strlit("HEAD~");
    reveal_strlit("^..HEAD~");
    reveal_strlit("..");
    reveal_strlit("^..");
    let t = first_target(a, repo);
    let at = 5int + a.commit_back.len();
    assert(t.subrange(at, at + 3) =~= "^.."@);
    assert(matches_at(t, "^.."@, at));
    assert(t.subrange(at + 1, at + 3) =~= ".."@);
    assert(matches_at(t, ".."@, at + 1));
}

/// The header counts the commits behind a commit that is named by its distance `N` from
/// `HEAD~N` on.
pub proof fn law_commit_back_is_counted_from_itself(a: ArgsModel, repo: RepoModel)
    requires
        a.commit_back.len() > 0,
        all_digits(a.commit_back),
    ensures
        rev_count_argv(first_target(a, repo)) == seq![
            "rev-list"@,
            "--count"@,
            "HEAD~"@ + a.commit_back + "..HEAD"@,
        ],
{
    reveal_strlit("HEAD~");
    reveal_strlit("^..HEAD~");
    reveal_strlit("..");
    let n = a.commit_back;
    let left = ("HEAD~"@ + n).push('^');
    let right = "HEAD~"@ + n;
    assert(first_target(a, repo) =~= left + ".."@ + right);
    assert forall|k: int| 0 <= k < left.len() implies #[trigger] left[k] != '.' by {
        if 5 <= k < 5 + n.len() {
            assert(left[k] == n[k - 5]);
            assert(is_digit(n[k - 5]));
        }
    }
    law_range_tip_reads_back(left, right);
}

/// Where the upstream branch is asked for and there is none, the target picker opens, and the
/// target is what it would be had the upstream branch not been asked for.
pub proof fn law_missing_upstream_opens_the_picker(a: ArgsModel, repo: RepoModel)
    requires
        lacks_upstream(a, repo),
    ensures
        settled_args(a, repo).target_mode,
        !settled_args(a, repo).upstream,
        first_target(a, repo) == first_target(ArgsModel { upstream: false, ..a }, repo),
{
}

/// A value that does not end with a line feed is read back from its state file as it was
/// written.
pub proof fn law_state_value_reads_back(path: Seq<char>, value: Seq<char>, default: Seq<char>)
    requires
        path.len() > 0,
        value.len() == 0 || value.last() != '\n',
    ensures
        value_in(path, Some(value), default) == value,
{
}

/// The base branch is the first candidate that exists, and `origin/main` where none does.
pub proof fn law_base_is_the_first_that_exists(found: Seq<bool>, k: int)
    ensures
        0 <= k < found.len() && k < 4 && found[k] && (forall|j: int|
            0 <= j < k ==> !#[trigger] found[j]) ==> base_of(found, 0) == seq![
            "origin/main"@,
            "origin/master"@,
            "main"@,
            "master"@,
        ][k],
        (forall|j: int| 0 <= j < found.len() && j < 4 ==> !#[trigger] found[j]) ==> base_of(
            found,
            0,
        ) == "origin/main"@,
{
    let names = seq!["origin/main"@, "origin/master"@, "main"@, "master"@];
    assert(base_candidates() =~= names);
    if 0 <= k < found.len() && k < 4 && found[k] && (forall|j: int|
        0 <= j < k ==> !#[trigger] found[j]) {
        lemma_base_from(found, 0, k);
    }
    if forall|j: int| 0 <= j < found.len() && j < 4 ==> !#[trigger] found[j] {
        lemma_base_of_none(found, 0);
    }
}

/// Candidates that do not exist are passed over.
proof fn lemma_base_from(found: Seq<bool>, i: int, k: int)
    requires
        0 <= i <= k < found.len(),
        k < 4,
        found[k],
        forall|j: int| i <= j < k ==> !#[trigger] found[j],
    ensures
        base_of(found, i) == base_candidates()[k],
    decreases k - i,
{
    if i < k {
        assert(!found[i]);
        lemma_base_from(found, i + 1, k);
    }
}

/// Where no candidate exists, the first is taken.
proof fn lemma_base_of_none(found: Seq<bool>, i: int)
    requires
        0 <= i,
        forall|j: int| i <= j < found.len() && j < 4 ==> !#[trigger] found[j],
    ensures
        base_of(found, i) == base_candidates()[0],
    decreases 4 - i,
{
    if i < 4 && i < found.len() {
        assert(!found[i]);
        lemma_base_of_none(found, i + 1);
    }
}

/// What is read from a state file: what it holds up to the line feeds at its end, and the default
/// where there is no path or no file.
pub proof fn law_state_value_is_what_the_file_holds(
    path: Seq<char>,
    content: Seq<char>,
    default: Seq<char>,
)
    ensures
        value_in(path, None, default) == default,
        value_in(Seq::empty(), Some(content), default) == default,
        path.len() > 0 ==> value_in(path, Some(content), default) == trim_end_newlines(content),
{
}

/// The environment of the calls back: the target to start with and the ones to choose from, the
/// switches as they were asked for, and where the record and the working tree stand. What `git`
/// says is trimmed; a merge base that it does not know is `HEAD`, and the upstream branch has a
/// name only where there is one.
pub proof fn law_environment_of_the_calls_back(a: ArgsModel, repo: RepoModel)
    ensures
        ({
            let env = first_env(a, repo);
            &&& env.len() == 9
            &&& env[0] == ("DIFFVIEW_TARGET"@, first_target(a, repo))
            &&& env[1] == ("DIFFVIEW_HEAD_TARGET"@, "HEAD"@)
            &&& env[2].0 == "DIFFVIEW_MERGE_BASE_TARGET"@
            &&& trim(repo.merge_base).len() > 0 ==> env[2].1 == trim(repo.merge_base)
            &&& trim(repo.merge_base).len() == 0 ==> env[2].1 == "HEAD"@
            &&& env[3] == ("DIFFVIEW_UPSTREAM_TARGET"@, trim(repo.upstream))
            &&& env[4].0 == "DIFFVIEW_UPSTREAM_NAME"@
            &&& trim(repo.upstream).len() > 0 ==> env[4].1 == trim(repo.upstream_name)
            &&& trim(repo.upstream).len() == 0 ==> env[4].1.len() == 0
            &&& env[5] == ("DIFFVIEW_WS"@, a.ws)
            &&& env[6].0 == "DIFFVIEW_EXCLUDE"@
            &&& a.exclude ==> env[6].1 == "true"@
            &&& !a.exclude ==> env[6].1 == "false"@
            &&& env[7] == ("DIFFVIEW_VIEWED"@, trim(repo.git_dir) + "/diff-viewed"@)
            &&& env[8] == ("DIFFVIEW_TOPLEVEL"@, trim(repo.toplevel))
        }),
{
}

/// The merge base is diffed against where it is asked for and known.
pub proof fn law_merge_base_is_the_target(a: ArgsModel, repo: RepoModel)
    requires
        a.merge_base,
        !a.upstream,
        a.commit_back.len() == 0,
    ensures
        trim(repo.merge_base).len() > 0 ==> first_target(a, repo) == trim(repo.merge_base),
        trim(repo.merge_base).len() == 0 ==> first_target(a, repo) == "HEAD"@,
{
}

/// What was asked for stays as it was, but for an upstream branch that is missing.
pub proof fn law_request_is_kept(a: ArgsModel, repo: RepoModel)
    ensures
        lacks_upstream(a, repo) <==> a.upstream && trim(repo.upstream).len() == 0,
        !a.upstream || trim(repo.upstream).len() > 0 ==> settled_args(a, repo) == a,
        settled_args(a, repo).ws == a.ws,
        settled_args(a, repo).merge_base == a.merge_base,
        settled_args(a, repo).commit_back == a.commit_back,
        settled_args(a, repo).exclude == a.exclude,
        settled_args(a, repo).sidebyside == a.sidebyside,
        settled_args(a, repo).subcmd == a.subcmd,
        settled_args(a, repo).subcmd_args == a.subcmd_args,
        a.target_mode ==> settled_args(a, repo).target_mode,
{
}

} // verus!

//! The state that the viewer starts with.

use crate::args::{Args, ArgsModel};
use crate::command::{write_models, StateFile};
use crate::number::{decimal, decimal_of};
use crate::text::{strings, texts, trim, trim_end_newlines, trimmed, without_end_newlines};
use vstd::prelude::*;
use vstd::string::*;

verus! {

/// How many context lines previews show at first.
pub const DEFAULT_CONTEXT: u32 = 4;

/// The value that a state file holds: its contents without the line feeds at the end, or
/// `default` where there is no path or no file.
pub open spec fn value_in(path: Seq<char>, content: Option<Seq<char>>, default: Seq<char>) -> Seq<
    char,
> {
    match content {
        Some(s) => if path.len() == 0 {
            default
        } else {
            trim_end_newlines(s)
        },
        None => default,
    }
}

/// The characters of an optional text.
pub open spec fn opt_text(o: Option<&str>) -> Option<Seq<char>> {
    match o {
        Some(s) => Some(s@),
        None => None,
    }
}

/// The value that a state file holds. `content` is what the file at `path` holds, where it can
/// be read.
pub fn read_file(path: &str, content: Option<&str>, default: &str) -> (r: String)
    ensures
        r@ == value_in(path@, opt_text(content), default@),
{
    match content {
        Some(s) => {
            if path.is_empty() {
                default.to_owned()
            } else {
                without_end_newlines(s)
            }
        },
        None => default.to_owned(),
    }
}

/// The branches that may be the base of the current one, the likeliest first.
pub open spec fn base_candidates() -> Seq<Seq<char>> {
    seq!["origin/main"@, "origin/master"@, "main"@, "master"@]
}

/// The first candidate that exists, or the first of all. `found[i]` says whether candidate `i`
/// exists.
pub open spec fn base_of(found: Seq<bool>, i: int) -> Seq<char>
    decreases base_candidates().len() - i,
{
    if i < 0 || i >= base_candidates().len() || i >= found.len() {
        base_candidates()[0]
    } else if found[i] {
        base_candidates()[i]
    } else {
        base_of(found, i + 1)
    }
}

/// The branches that may be the base of the current one, the likeliest first.
pub fn candidates() -> (r: Vec<String>)
    ensures
        texts(r@) == base_candidates(),
{
    let r = strings(&["origin/main", "origin/master", "main", "master"]);
    assert(texts(r@) =~= base_candidates());
    r
}

/// The base of the current branch. `found[i]` says whether candidate `i` exists; it may end with
/// the first that does.
pub fn base_branch(found: &[bool]) -> (r: String)
    ensures
        r@ == base_of(found@, 0),
{
    let all = candidates();
    let ghost names = base_candidates();
    let mut i: usize = 0;
    while i < all.len() && i < found.len()
        invariant
            names == base_candidates(),
            texts(all@) == names,
            i <= all@.len(),
            i <= found@.len(),
            base_of(found@, 0) == base_of(found@, i as int),
        decreases all@.len() - i,
    {
        if found[i] {
            assert(names[i as int] == all@[i as int]@);
            return all[i].clone();
        }
        i += 1;
    }
    assert(names[0] == all@[0]@);
    all[0].clone()
}

/// The arguments of the `git` call that succeeds where `branch` exists.
pub fn verify_args(branch: &str) -> (r: Vec<String>)
    ensures
        texts(r@) == seq!["rev-parse"@, "--verify"@, branch@],
{
    let r = strings(&["rev-parse", "--verify", branch]);
    assert(texts(r@) =~= seq!["rev-parse"@, "--verify"@, branch@]);
    r
}

/// The arguments of the `git` call that gives the merge base with `branch`.
pub fn merge_base_args(branch: &str) -> (r: Vec<String>)
    ensures
        texts(r@) == seq!["merge-base"@, "HEAD"@, branch@],
{
    let r = strings(&["merge-base", "HEAD", branch]);
    assert(texts(r@) =~= seq!["merge-base"@, "HEAD"@, branch@]);
    r
}

/// The arguments of the `git` call that gives the upstream commit.
pub fn upstream_args() -> (r: Vec<String>)
    ensures
        texts(r@) == seq!["rev-parse"@, "--verify"@, "--quiet"@, "@{upstream}"@],
{
    let r = strings(&["rev-parse", "--verify", "--quiet", "@{upstream}"]);
    assert(texts(r@) =~= seq!["rev-parse"@, "--verify"@, "--quiet"@, "@{upstream}"@]);
    r
}

/// The arguments of the `git` call that gives the name of the upstream branch.
pub fn upstream_name_args() -> (r: Vec<String>)
    ensures
        texts(r@) == seq!["rev-parse"@, "--abbrev-ref"@, "@{upstream}"@],
{
    let r = strings(&["rev-parse", "--abbrev-ref", "@{upstream}"]);
    assert(texts(r@) =~= seq!["rev-parse"@, "--abbrev-ref"@, "@{upstream}"@]);
    r
}

/// The arguments of the `git` call that gives the directory of the repository.
pub fn git_dir_args() -> (r: Vec<String>)
    ensures
        texts(r@) == seq!["rev-parse"@, "--git-dir"@],
{
    let r = strings(&["rev-parse", "--git-dir"]);
    assert(texts(r@) =~= seq!["rev-parse"@, "--git-dir"@]);
    r
}

/// The arguments of the `git` call that gives the top of the working tree.
pub fn toplevel_args() -> (r: Vec<String>)
    ensures
        texts(r@) == seq!["rev-parse"@, "--show-toplevel"@],
{
    let r = strings(&["rev-parse", "--show-toplevel"]);
    assert(texts(r@) =~= seq!["rev-parse"@, "--show-toplevel"@]);
    r
}

/// What `git` said when the viewer was started.
pub struct RepoAnswers {
    /// To [`merge_base_args`].
    pub merge_base: String,
    /// To [`upstream_args`].
    pub upstream: String,
    /// To [`upstream_name_args`].
    pub upstream_name: String,
    /// To [`git_dir_args`].
    pub git_dir: String,
    /// To [`toplevel_args`].
    pub toplevel: String,
}

/// The contents of [`RepoAnswers`].
pub struct RepoModel {
    pub merge_base: Seq<char>,
    pub upstream: Seq<char>,
    pub upstream_name: Seq<char>,
    pub git_dir: Seq<char>,
    pub toplevel: Seq<char>,
}

impl View for RepoAnswers {
    type V = RepoModel;

    open spec fn view(&self) -> RepoModel {
        RepoModel {
            merge_base: self.merge_base@,
            upstream: self.upstream@,
            upstream_name: self.upstream_name@,
            git_dir: self.git_dir@,
            toplevel: self.toplevel@,
        }
    }
}

/// Whether the upstream branch was asked for and there is none.
pub open spec fn lacks_upstream(a: ArgsModel, repo: RepoModel) -> bool {
    a.upstream && trim(repo.upstream).len() == 0
}

/// What is asked for, once it is known whether there is an upstream branch: without one, the
/// target picker takes its place.
pub open spec fn settled_args(a: ArgsModel, repo: RepoModel) -> ArgsModel {
    if lacks_upstream(a, repo) {
        ArgsModel { upstream: false, target_mode: true, ..a }
    } else {
        a
    }
}

/// The merge base, or `HEAD` where there is none.
pub open spec fn merge_base_target(repo: RepoModel) -> Seq<char> {
    if trim(repo.merge_base).len() == 0 {
        "HEAD"@
    } else {
        trim(repo.merge_base)
    }
}

/// What is diffed against at first.
pub open spec fn first_target(a: ArgsModel, repo: RepoModel) -> Seq<char> {
    let s = settled_args(a, repo);
    if s.commit_back.len() > 0 {
        "HEAD~"@ + s.commit_back + "^..HEAD~"@ + s.commit_back
    } else if s.upstream {
        trim(repo.upstream)
    } else if s.merge_base {
        merge_base_target(repo)
    } else {
        "HEAD"@
    }
}

/// The environment that the viewer and the calls back to it share.
pub open spec fn first_env(a: ArgsModel, repo: RepoModel) -> Seq<(Seq<char>, Seq<char>)> {
    seq![
        ("DIFFVIEW_TARGET"@, first_target(a, repo)),
        ("DIFFVIEW_HEAD_TARGET"@, "HEAD"@),
        ("DIFFVIEW_MERGE_BASE_TARGET"@, merge_base_target(repo)),
        ("DIFFVIEW_UPSTREAM_TARGET"@, trim(repo.upstream)),
        (
            "DIFFVIEW_UPSTREAM_NAME"@,
            if trim(repo.upstream).len() == 0 {
                Seq::empty()
            } else {
                trim(repo.upstream_name)
            },
        ),
        ("DIFFVIEW_WS"@, a.ws),
        (
            "DIFFVIEW_EXCLUDE"@,
            if a.exclude {
                "true"@
            } else {
                "false"@
            },
        ),
        ("DIFFVIEW_VIEWED"@, trim(repo.git_dir) + "/diff-viewed"@),
        ("DIFFVIEW_TOPLEVEL"@, trim(repo.toplevel)),
    ]
}

/// The contents of a sequence of settings.
pub open spec fn env_models(env: Seq<(String, String)>) -> Seq<(Seq<char>, Seq<char>)> {
    env.map_values(|p: (String, String)| (p.0@, p.1@))
}

/// What the viewer starts with.
pub struct Startup {
    /// The environment variables to set.
    pub env: Vec<(String, String)>,
    /// Whether the upstream branch was asked for and there is none.
    pub upstream_missing: bool,
}

/// Works out what the viewer starts with, from what was asked for and what `git` said.
///
/// `present` is the environment's `DIFFVIEW_TARGET`. Where it is set, whatever it holds, this is
/// a call back into a viewer that has started already: nothing is changed, and `repo` plays no
/// part.
pub fn init_state(a: &mut Args, present: Option<&str>, repo: &RepoAnswers) -> (r: Startup)
    ensures
        present is Some ==> *final(a) == *old(a) && r.env@.len() == 0 && !r.upstream_missing,
        present is None ==> final(a)@ == settled_args(old(a)@, repo@),
        present is None ==> env_models(r.env@) == first_env(old(a)@, repo@),
        present is None ==> r.upstream_missing == lacks_upstream(old(a)@, repo@),
{
    if present.is_some() {
        return Startup { env: Vec::new(), upstream_missing: false };
    }
    let upstream = trimmed(&repo.upstream);
    let mut base = trimmed(&repo.merge_base);
    if base.as_str().is_empty() {
        base = "HEAD".to_owned();
    }
    let name = if upstream.as_str().is_empty() {
        String::new()
    } else {
        trimmed(&repo.upstream_name)
    };
    let missing = a.upstream && upstream.as_str().is_empty();
    if missing {
        a.upstream = false;
        a.target_mode = true;
    }
    assert(a@ == settled_args(old(a)@, repo@));
    let target = if !a.commit_back.as_str().is_empty() {
        let mut t = "HEAD~".to_owned();
        t.append(&a.commit_back);
        t.append("^..HEAD~");
        t.append(&a.commit_back);
        t
    } else if a.upstream {
        upstream.clone()
    } else if a.merge_base {
        base.clone()
    } else {
        "HEAD".to_owned()
    };
    assert(target@ == first_target(old(a)@, repo@));
    let exclude = if a.exclude {
        "true".to_owned()
    } else {
        "false".to_owned()
    };
    let mut viewed = trimmed(&repo.git_dir);
    viewed.append("/diff-viewed");
    let mut env: Vec<(String, String)> = Vec::new();
    env.push(("DIFFVIEW_TARGET".to_owned(), target));
    env.push(("DIFFVIEW_HEAD_TARGET".to_owned(), "HEAD".to_owned()));
    env.push(("DIFFVIEW_MERGE_BASE_TARGET".to_owned(), base));
    env.push(("DIFFVIEW_UPSTREAM_TARGET".to_owned(), upstream));
    env.push(("DIFFVIEW_UPSTREAM_NAME".to_owned(), name));
    env.push(("DIFFVIEW_WS".to_owned(), a.ws.clone()));
    env.push(("DIFFVIEW_EXCLUDE".to_owned(), exclude));
    env.push(("DIFFVIEW_VIEWED".to_owned(), viewed));
    env.push(("DIFFVIEW_TOPLEVEL".to_owned(), trimmed(&repo.toplevel)));
    assert(env_models(env@) =~= first_env(old(a)@, repo@));
    Startup { env, upstream_missing: missing }
}

/// The environment variable that holds the path of a state file.
pub open spec fn state_variable(f: StateFile) -> Seq<char> {
    match f {
        StateFile::Size => "DIFFVIEW_SIZE_FILE"@,
        StateFile::Send => "DIFFVIEW_SEND_FILE"@,
        StateFile::Query => "DIFFVIEW_QUERY_FILE"@,
        StateFile::Filter => "DIFFVIEW_FILTER_FILE"@,
        StateFile::Context => "DIFFVIEW_CONTEXT_FILE"@,
        StateFile::Ws => "DIFFVIEW_WS_FILE"@,
        StateFile::Exclude => "DIFFVIEW_EXCLUDE_FILE"@,
        StateFile::Target => "DIFFVIEW_TARGET_FILE"@,
        StateFile::Sbs => "DIFFVIEW_SBS_FILE"@,
        StateFile::Mode => "DIFFVIEW_MODE_FILE"@,
        StateFile::RecentLimit => "DIFFVIEW_RECENT_LIMIT_FILE"@,
    }
}

/// The environment variable that holds the path of a state file.
pub fn variable_of(f: StateFile) -> (r: String)
    ensures
        r@ == state_variable(f),
{
    match f {
        StateFile::Size => "DIFFVIEW_SIZE_FILE".to_owned(),
        StateFile::Send => "DIFFVIEW_SEND_FILE".to_owned(),
        StateFile::Query => "DIFFVIEW_QUERY_FILE".to_owned(),
        StateFile::Filter => "DIFFVIEW_FILTER_FILE".to_owned(),
        StateFile::Context => "DIFFVIEW_CONTEXT_FILE".to_owned(),
        StateFile::Ws => "DIFFVIEW_WS_FILE".to_owned(),
        StateFile::Exclude => "DIFFVIEW_EXCLUDE_FILE".to_owned(),
        StateFile::Target => "DIFFVIEW_TARGET_FILE".to_owned(),
        StateFile::Sbs => "DIFFVIEW_SBS_FILE".to_owned(),
        StateFile::Mode => "DIFFVIEW_MODE_FILE".to_owned(),
        StateFile::RecentLimit => "DIFFVIEW_RECENT_LIMIT_FILE".to_owned(),
    }
}

/// The state files and their first values.
pub open spec fn first_state(
    a: ArgsModel,
    ws: Seq<char>,
    exclude: Seq<char>,
    target: Seq<char>,
) -> Seq<(StateFile, Seq<char>)> {
    seq![
        (StateFile::Size, "80"@),
        (StateFile::Send, Seq::empty()),
        (StateFile::Query, Seq::empty()),
        (StateFile::Filter, Seq::empty()),
        (StateFile::Context, decimal(DEFAULT_CONTEXT as nat)),
        (StateFile::Ws, ws),
        (StateFile::Exclude, exclude),
        (StateFile::Target, target),
        (
            StateFile::Sbs,
            if a.sidebyside {
                "true"@
            } else {
                "false"@
            },
        ),
        (
            StateFile::Mode,
            if a.target_mode {
                "target"@
            } else {
                "files"@
            },
        ),
        (StateFile::RecentLimit, "10"@),
    ]
}

/// The state files and their first values. `ws`, `exclude` and `target` come from the
/// environment that [`init_state`] gave.
pub fn setup_state_files(a: &Args, ws: &str, exclude: &str, target: &str) -> (r: Vec<
    (StateFile, String),
>)
    ensures
        write_models(r@) == first_state(a@, ws@, exclude@, target@),
{
    let sbs = if a.sidebyside {
        "true".to_owned()
    } else {
        "false".to_owned()
    };
    let mode = if a.target_mode {
        "target".to_owned()
    } else {
        "files".to_owned()
    };
    let mut r: Vec<(StateFile, String)> = Vec::new();
    r.push((StateFile::Size, "80".to_owned()));
    r.push((StateFile::Send, String::new()));
    r.push((StateFile::Query, String::new()));
    r.push((StateFile::Filter, String::new()));
    r.push((StateFile::Context, decimal_of(DEFAULT_CONTEXT as u128)));
    r.push((StateFile::Ws, ws.to_owned()));
    r.push((StateFile::Exclude, exclude.to_owned()));
    r.push((StateFile::Target, target.to_owned()));
    r.push((StateFile::Sbs, sbs));
    r.push((StateFile::Mode, mode));
    r.push((StateFile::RecentLimit, "10".to_owned()));
    assert(write_models(r@) =~= first_state(a@, ws@, exclude@, target@));
    r
}

} // verus!

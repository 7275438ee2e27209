//! The list of changed files.

use crate::number::{decimal, decimal_of};
use crate::numstat::{listed, parse_numstat, text_map, NumStat, NumStatModel};
use crate::order::{sort_once, sorted_once};
use crate::paths::{shorten_path, shortened};
use crate::stats::{count_newlines, is_range, names_range, newlines, show_stats, stats_text};
use crate::text::{
    begins_with, close_text, closed, contains, join, join_with, lines, lines_of, mentions, same,
    starts_with, strings, texts,
};
use crate::viewed::{counts_as_viewed, is_viewed, load_viewed, viewed_in, WorkFile, WorkFileModel};
use vstd::hash_map::StringHashMap;
use vstd::prelude::*;
use vstd::string::*;

verus! {

/// How many files are listed at most.
pub const MAX_FILES: usize = 500;

/// A file to be listed.
pub struct ListEntry {
    /// The path of the file.
    pub path: String,
    /// Its line statistics against the target, or nothing.
    pub stats: String,
    /// Whether it was renamed.
    pub renamed: bool,
    /// The mark under which it is recorded as viewed, or nothing.
    pub stored: String,
}

/// The contents of [`ListEntry`].
pub struct EntryModel {
    pub path: Seq<char>,
    pub stats: Seq<char>,
    pub renamed: bool,
    pub stored: Seq<char>,
}

impl View for ListEntry {
    type V = EntryModel;

    open spec fn view(&self) -> EntryModel {
        EntryModel {
            path: self.path@,
            stats: self.stats@,
            renamed: self.renamed,
            stored: self.stored@,
        }
    }
}

/// The files to be listed, before the working tree is looked at.
pub struct ListPlan {
    /// The files, in order.
    pub entries: Vec<ListEntry>,
    /// Whether the target is a range of commits.
    pub range: bool,
    /// Whether there are more changed files than can be listed.
    pub truncated: bool,
    /// How many changed files there are.
    pub total: u128,
}

/// The contents of [`ListPlan`].
pub struct PlanModel {
    pub entries: Seq<EntryModel>,
    pub range: bool,
    pub truncated: bool,
    pub total: nat,
}

/// The contents of a sequence of entries.
pub open spec fn entry_models(entries: Seq<ListEntry>) -> Seq<EntryModel> {
    entries.map_values(|e: ListEntry| e@)
}

/// The contents of a sequence of files.
pub open spec fn file_models(files: Seq<WorkFile>) -> Seq<WorkFileModel> {
    files.map_values(|f: WorkFile| f@)
}

impl View for ListPlan {
    type V = PlanModel;

    open spec fn view(&self) -> PlanModel {
        PlanModel {
            entries: entry_models(self.entries@),
            range: self.range,
            truncated: self.truncated,
            total: self.total as nat,
        }
    }
}

/// The lines of `ls` that are not empty.
pub open spec fn nonempty(ls: Seq<Seq<char>>) -> Seq<Seq<char>>
    decreases ls.len(),
{
    if ls.len() == 0 {
        Seq::empty()
    } else if ls.last().len() == 0 {
        nonempty(ls.drop_last())
    } else {
        nonempty(ls.drop_last()).push(ls.last())
    }
}

/// Whether `path` lies in a folder named `generated`, at the top or below another folder.
pub open spec fn is_generated(path: Seq<char>) -> bool {
    contains(path, "/generated/"@) || starts_with(path, "generated/"@)
}

/// The files of `fs` that lie in no folder named `generated`.
pub open spec fn without_generated(fs: Seq<Seq<char>>) -> Seq<Seq<char>>
    decreases fs.len(),
{
    if fs.len() == 0 {
        Seq::empty()
    } else if is_generated(fs.last()) {
        without_generated(fs.drop_last())
    } else {
        without_generated(fs.drop_last()).push(fs.last())
    }
}

/// The first `n` elements of `s`, or all where there are fewer.
pub open spec fn at_most(s: Seq<Seq<char>>, n: int) -> Seq<Seq<char>> {
    if s.len() > n {
        s.take(n)
    } else {
        s
    }
}

/// The files to list: the changed ones that `git` tracks, and the untracked ones as far as there
/// is room, sorted, each once, and at most `MAX_FILES` of them.
pub open spec fn selected(
    changed: Seq<Seq<char>>,
    untracked: Seq<Seq<char>>,
    exclude: bool,
) -> Seq<Seq<char>> {
    let room = if changed.len() < MAX_FILES {
        at_most(untracked, MAX_FILES - changed.len())
    } else {
        untracked
    };
    let capped = at_most(sorted_once(changed + room), MAX_FILES as int);
    if exclude {
        without_generated(capped)
    } else {
        capped
    }
}

/// What `m` holds under `k`, or nothing.
pub open spec fn held(m: Map<Seq<char>, Seq<char>>, k: Seq<char>) -> Seq<char> {
    if m.contains_key(k) {
        m[k]
    } else {
        Seq::empty()
    }
}

/// The entry for `path`.
pub open spec fn entry_for(
    n: NumStatModel,
    viewed: Map<Seq<char>, Seq<char>>,
    path: Seq<char>,
) -> EntryModel {
    EntryModel {
        path,
        stats: held(n.file_stats, path),
        renamed: n.renamed.contains_key(path),
        stored: held(viewed, path),
    }
}

/// The entries for `paths`.
pub open spec fn entries_for(
    n: NumStatModel,
    viewed: Map<Seq<char>, Seq<char>>,
    paths: Seq<Seq<char>>,
) -> Seq<EntryModel> {
    paths.map_values(|path: Seq<char>| entry_for(n, viewed, path))
}

/// The untracked files that take part in a diff against `target`.
pub open spec fn untracked_against(target: Seq<char>, ls_files: Seq<char>) -> Seq<Seq<char>> {
    if is_range(target) {
        Seq::empty()
    } else {
        nonempty(lines(ls_files))
    }
}

/// The files to be listed, before the working tree is looked at.
pub open spec fn planned(
    target: Seq<char>,
    exclude: Seq<char>,
    numstat: Seq<char>,
    ls_files: Seq<char>,
    viewed: Seq<char>,
) -> PlanModel {
    let n = listed(lines(numstat));
    let untracked = untracked_against(target, ls_files);
    let total = n.paths.len() + untracked.len();
    PlanModel {
        entries: entries_for(
            n,
            viewed_in(viewed),
            selected(n.paths, untracked, exclude == "true"@),
        ),
        range: is_range(target),
        truncated: total > MAX_FILES,
        total,
    }
}

/// The line statistics that a row shows: those against the target or, for a file that has none
/// there and was not renamed, its number of lines. Such a file is untracked, binary, or changed
/// in its mode alone. Against a range of commits no lines are counted.
pub open spec fn row_stats(e: EntryModel, range: bool, f: WorkFileModel) -> Seq<char> {
    if e.stats.len() == 0 && !e.renamed && !range {
        match f {
            WorkFileModel::Content(bytes) => stats_text(newlines(bytes), 0),
            _ => Seq::empty(),
        }
    } else {
        e.stats
    }
}

/// What a row shows, in front of the separator.
pub open spec fn row_display(e: EntryModel, range: bool, f: WorkFileModel) -> Seq<char> {
    let stats = row_stats(e, range, f);
    let marker = if is_viewed(e.stored, f) {
        "✓ "@
    } else {
        "  "@
    };
    let suffix = if stats.len() > 0 {
        " ("@ + stats + ")"@
    } else if e.renamed {
        " (rename)"@
    } else {
        Seq::empty()
    };
    marker + shortened(e.path) + suffix
}

/// The row of a file: what is shown, a separator, and the path.
pub open spec fn row(e: EntryModel, range: bool, f: WorkFileModel) -> Seq<char> {
    row_display(e, range, f) + "\x1f"@ + e.path
}

/// The rows of the first `n` files.
pub open spec fn rows(p: PlanModel, files: Seq<WorkFileModel>, n: nat) -> Seq<Seq<char>> {
    Seq::new(n, |i: int| row(p.entries[i], p.range, files[i]))
}

/// The row that says how many of the changed files are listed.
pub open spec fn sentinel(shown: nat, total: nat) -> Seq<char> {
    "\x1b[2m* Showing "@ + decimal(shown) + " of "@ + decimal(total)
        + " files\x1b[0m\x1f__TOO_MANY__"@
}

/// All rows of the list.
pub open spec fn list_rows(p: PlanModel, files: Seq<WorkFileModel>) -> Seq<Seq<char>> {
    let rs = rows(p, files, p.entries.len());
    if p.truncated {
        seq![sentinel(p.entries.len(), p.total)] + rs
    } else {
        rs
    }
}

/// The text of the list.
pub open spec fn list_text(p: PlanModel, files: Seq<WorkFileModel>) -> Seq<char> {
    closed(join(list_rows(p, files), "\n"@))
}

/// The arguments of the `git` call that lists the untracked files.
pub open spec fn untracked_argv() -> Seq<Seq<char>> {
    seq!["ls-files"@, "--others"@, "--exclude-standard"@]
}

/// The arguments of the `git` call that lists the untracked files.
pub fn untracked_args() -> (r: Vec<String>)
    ensures
        texts(r@) == untracked_argv(),
{
    let r = strings(&["ls-files", "--others", "--exclude-standard"]);
    assert(texts(r@) == untracked_argv());
    r
}

/// The untracked files that take part in a diff against `target`, from the output of `git` for
/// [`untracked_args`].
pub fn untracked_paths(target: &str, ls_files: &str) -> (r: Vec<String>)
    ensures
        texts(r@) == untracked_against(target@, ls_files@),
{
    let mut r: Vec<String> = Vec::new();
    assert(texts(r@) =~= Seq::<Seq<char>>::empty());
    if names_range(target) {
        return r;
    }
    let ls = lines_of(ls_files);
    let ghost all = lines(ls_files@);
    let mut i: usize = 0;
    while i < ls.len()
        invariant
            all == texts(ls@),
            i <= ls@.len(),
            texts(r@) == nonempty(all.take(i as int)),
        decreases ls@.len() - i,
    {
        broadcast use crate::text::lemma_texts_push;

        assert(all.take(i + 1).drop_last() == all.take(i as int));
        assert(all.take(i + 1).last() == ls@[i as int]@);
        if !ls[i].as_str().is_empty() {
            r.push(ls[i].clone());
        }
        i += 1;
    }
    assert(all.take(all.len() as int) == all);
    r
}

/// The files to list.
fn select(changed: Vec<String>, untracked: &Vec<String>, exclude: bool) -> (r: Vec<String>)
    ensures
        texts(r@) == selected(texts(changed@), texts(untracked@), exclude),
{
    let ghost ts = texts(changed@);
    let ghost us = texts(untracked@);
    let mut room: usize = untracked.len();
    if changed.len() < MAX_FILES && room > MAX_FILES - changed.len() {
        room = MAX_FILES - changed.len();
    }
    let mut all = changed;
    let mut i: usize = 0;
    assert(ts == ts + us.take(0));
    while i < room
        invariant
            us == texts(untracked@),
            i <= room <= untracked@.len(),
            texts(all@) == ts + us.take(i as int),
        decreases room - i,
    {
        let ghost before = texts(all@);
        all.push(untracked[i].clone());
        assert(texts(all@) == before.push(us[i as int])) by {
            broadcast use crate::text::lemma_texts_push;
        }
        assert(us.take(i + 1) == us.take(i as int).push(us[i as int]));
        i += 1;
    }
    assert(us.take(us.len() as int) == us);
    let mut sorted = sort_once(all);
    let ghost full = texts(sorted@);
    if sorted.len() > MAX_FILES {
        sorted.truncate(MAX_FILES);
    }
    let ghost capped = at_most(full, MAX_FILES as int);
    assert(texts(sorted@) == capped);
    if !exclude {
        return sorted;
    }
    let mut r: Vec<String> = Vec::new();
    let mut j: usize = 0;
    assert(texts(r@) =~= Seq::<Seq<char>>::empty());
    while j < sorted.len()
        invariant
            capped == texts(sorted@),
            j <= sorted@.len(),
            texts(r@) == without_generated(capped.take(j as int)),
        decreases sorted@.len() - j,
    {
        broadcast use crate::text::lemma_texts_push;

        assert(capped.take(j + 1).drop_last() == capped.take(j as int));
        assert(capped.take(j + 1).last() == sorted@[j as int]@);
        if !mentions(&sorted[j], "/generated/") && !begins_with(&sorted[j], "generated/") {
            r.push(sorted[j].clone());
        }
        j += 1;
    }
    assert(capped.take(capped.len() as int) == capped);
    r
}

/// What `m` holds under `k`, or nothing.
fn held_in(m: &StringHashMap<String>, k: &str) -> (r: String)
    ensures
        r@ == held(text_map(m@), k@),
{
    match m.get(k) {
        Some(v) => v.clone(),
        None => String::new(),
    }
}

/// Works out which files are to be listed.
///
/// `numstat` is the output of `git diff --numstat` against `target`, `ls_files` that for
/// [`untracked_args`], and `viewed` the record of viewed files.
pub fn plan_list(
    target: &str,
    exclude: &str,
    numstat: &str,
    ls_files: &str,
    viewed: &str,
) -> (r: ListPlan)
    ensures
        r@ == planned(target@, exclude@, numstat@, ls_files@, viewed@),
{
    let n = parse_numstat(numstat);
    let ghost nm = n@;
    let NumStat { paths, file_stats, renamed } = n;
    let untracked = untracked_paths(target, ls_files);
    let marks = load_viewed(viewed);
    let range = names_range(target);
    let total: u128 = paths.len() as u128 + untracked.len() as u128;
    let truncated = total > MAX_FILES as u128;
    let files = select(paths, &untracked, same(exclude, "true"));
    let ghost chosen = texts(files@);
    let mut entries: Vec<ListEntry> = Vec::new();
    let mut i: usize = 0;
    assert(entry_models(entries@) =~= entries_for(nm, viewed_in(viewed@), chosen.take(0)));
    while i < files.len()
        invariant
            chosen == texts(files@),
            nm.file_stats == text_map(file_stats@),
            nm.renamed == text_map(renamed@),
            viewed_in(viewed@) == text_map(marks@),
            i <= files@.len(),
            entry_models(entries@) == entries_for(nm, viewed_in(viewed@), chosen.take(i as int)),
        decreases files@.len() - i,
    {
        let ghost old_entries = entries@;
        let path = files[i].clone();
        let e = ListEntry {
            stats: held_in(&file_stats, &path),
            renamed: renamed.contains_key(&path),
            stored: held_in(&marks, &path),
            path,
        };
        let ghost em = e@;
        assert(em == entry_for(nm, viewed_in(viewed@), chosen[i as int]));
        entries.push(e);
        assert(entry_models(entries@) =~= entry_models(old_entries).push(em));
        assert(entries_for(nm, viewed_in(viewed@), chosen.take(i + 1)) =~= entries_for(
            nm,
            viewed_in(viewed@),
            chosen.take(i as int),
        ).push(em));
        i += 1;
    }
    assert(chosen.take(chosen.len() as int) == chosen);
    ListPlan { entries, range, truncated, total }
}

/// Whether the row of a file depends on the file in the working tree.
pub open spec fn depends_on_file(e: EntryModel, range: bool) -> bool {
    (e.stats.len() == 0 && !e.renamed && !range) || e.stored.len() > 0
}

/// Whether the row of a file depends on the file in the working tree.
pub fn needs_file(e: &ListEntry, range: bool) -> (r: bool)
    ensures
        r == depends_on_file(e@, range),
{
    (e.stats.as_str().is_empty() && !e.renamed && !range) || !e.stored.as_str().is_empty()
}

/// The row of a file.
fn show_row(e: &ListEntry, range: bool, f: &WorkFile) -> (r: String)
    ensures
        r@ == row(e@, range, f@),
{
    let mut r = if counts_as_viewed(&e.stored, f) {
        "✓ ".to_owned()
    } else {
        "  ".to_owned()
    };
    r.append(&shorten_path(&e.path));
    let stats = if e.stats.as_str().is_empty() && !e.renamed && !range {
        match f {
            WorkFile::Content(bytes) => show_stats(count_newlines(bytes), 0),
            _ => String::new(),
        }
    } else {
        e.stats.clone()
    };
    assert(stats@ == row_stats(e@, range, f@));
    let ghost start = r@;
    if !stats.as_str().is_empty() {
        let mut suffix = " (".to_owned();
        suffix.append(&stats);
        suffix.append(")");
        r.append(&suffix);
    } else if e.renamed {
        r.append(" (rename)");
    } else {
        assert(start + Seq::<char>::empty() == start);
    }
    assert(r@ == row_display(e@, range, f@));
    r.append("\x1f");
    r.append(&e.path);
    r
}

/// The text of the list of changed files: one row for each, behind a row that says how many
/// there are where not all are listed.
///
/// `files` holds, for each entry, the file in the working tree.
pub fn generate_list(plan: &ListPlan, files: &Vec<WorkFile>) -> (r: String)
    requires
        files@.len() == plan.entries@.len(),
    ensures
        r@ == list_text(plan@, file_models(files@)),
{
    let ghost p = plan@;
    let ghost fs = file_models(files@);
    let mut out: Vec<String> = Vec::new();
    let shown: usize = plan.entries.len();
    let ghost mut first = Seq::<Seq<char>>::empty();
    if plan.truncated {
        let mut s = "\x1b[2m* Showing ".to_owned();
        s.append(&decimal_of(shown as u128));
        s.append(" of ");
        s.append(&decimal_of(plan.total));
        s.append(" files\x1b[0m\x1f__TOO_MANY__");
        proof {
            first = seq![s@];
        }
        out.push(s);
    }
    assert(texts(out@) =~= first);
    assert(first + rows(p, fs, 0) =~= first);
    let mut i: usize = 0;
    while i < shown
        invariant
            shown == plan.entries@.len(),
            files@.len() == shown,
            p == plan@,
            fs == file_models(files@),
            i <= shown,
            texts(out@) == first + rows(p, fs, i as nat),
        decreases shown - i,
    {
        let ghost before = texts(out@);
        let line = show_row(&plan.entries[i], plan.range, &files[i]);
        let ghost l = line@;
        assert(p.entries[i as int] == plan.entries@[i as int]@);
        assert(fs[i as int] == files@[i as int]@);
        out.push(line);
        assert(texts(out@) == before.push(l)) by {
            broadcast use crate::text::lemma_texts_push;
        }
        assert(rows(p, fs, (i + 1) as nat) =~= rows(p, fs, i as nat).push(l));
        i += 1;
    }
    assert(texts(out@) == list_rows(p, fs)) by {
        assert(Seq::<Seq<char>>::empty() + rows(p, fs, shown as nat) =~= rows(p, fs, shown as nat));
    }
    close_text(join_with(&out, "\n"))
}

} // verus!

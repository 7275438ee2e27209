//! The changed files that `git diff --numstat` lists.

use crate::number::{parse_unsigned, u64_of};
use crate::paths::{parse_rename_path, rename_of};
use crate::stats::{show_stats, stats_text};
use crate::text::{fields, fields_of, lines, lines_of, same, strings, texts};
use vstd::hash_map::StringHashMap;
use vstd::prelude::*;
use vstd::string::*;

verus! {

/// The changed files.
pub struct NumStat {
    /// Every changed file, in the order of the listing; a renamed file by its new path.
    pub paths: Vec<String>,
    /// The line statistics of the files that have any.
    pub file_stats: StringHashMap<String>,
    /// The old path of each renamed file, under its new one.
    pub renamed: StringHashMap<String>,
}

/// The contents of [`NumStat`].
pub struct NumStatModel {
    pub paths: Seq<Seq<char>>,
    pub file_stats: Map<Seq<char>, Seq<char>>,
    pub renamed: Map<Seq<char>, Seq<char>>,
}

/// The contents of a map from text to text.
pub open spec fn text_map(m: Map<Seq<char>, String>) -> Map<Seq<char>, Seq<char>> {
    m.map_values(|s: String| s@)
}

impl View for NumStat {
    type V = NumStatModel;

    open spec fn view(&self) -> NumStatModel {
        NumStatModel {
            paths: texts(self.paths@),
            file_stats: text_map(self.file_stats@),
            renamed: text_map(self.renamed@),
        }
    }
}

/// No files.
pub open spec fn no_files() -> NumStatModel {
    NumStatModel { paths: Seq::empty(), file_stats: Map::empty(), renamed: Map::empty() }
}

/// What `n` becomes when the listing goes on with `line`.
pub open spec fn with_line(n: NumStatModel, line: Seq<char>) -> NumStatModel {
    match fields(line) {
        None => n,
        Some((ins, del, listed)) => if listed.len() == 0 {
            n
        } else {
            let path = match rename_of(listed) {
                Some((_, new)) => new,
                None => listed,
            };
            let renamed = match rename_of(listed) {
                Some((old, new)) => n.renamed.insert(new, old),
                None => n.renamed,
            };
            let counts = (
                parse_unsigned(ins, u64::MAX as nat),
                parse_unsigned(del, u64::MAX as nat),
            );
            let file_stats = if ins == "-"@ {
                n.file_stats
            } else {
                match counts {
                    (Some(i), Some(d)) => if i > 0 || d > 0 {
                        n.file_stats.insert(path, stats_text(i, d))
                    } else {
                        n.file_stats
                    },
                    _ => n.file_stats,
                }
            };
            NumStatModel { paths: n.paths.push(path), file_stats, renamed }
        },
    }
}

/// The files that the lines `ls` list.
pub open spec fn listed(ls: Seq<Seq<char>>) -> NumStatModel
    decreases ls.len(),
{
    if ls.len() == 0 {
        no_files()
    } else {
        with_line(listed(ls.drop_last()), ls.last())
    }
}

/// The arguments of the `git` call whose output `parse_numstat` takes.
pub open spec fn numstat_argv(target: Seq<char>) -> Seq<Seq<char>> {
    seq!["diff"@, "--numstat"@, target]
}

/// The arguments of the `git` call whose output `parse_numstat` takes.
pub fn numstat_args(target: &str) -> (r: Vec<String>)
    ensures
        texts(r@) == numstat_argv(target@),
{
    let r = strings(&["diff", "--numstat", target]);
    assert(texts(r@) == numstat_argv(target@));
    r
}

/// Putting a text into a map puts its characters into the contents.
pub proof fn lemma_text_map_insert(m: Map<Seq<char>, String>, k: Seq<char>, v: String)
    ensures
        text_map(m.insert(k, v)) == text_map(m).insert(k, v@),
{
    assert(text_map(m.insert(k, v)) =~= text_map(m).insert(k, v@));
}

/// Reads the output of `git diff --numstat`.
///
/// Every changed file is listed, binary files and renames without changes too.
pub fn parse_numstat(output: &str) -> (r: NumStat)
    ensures
        r@ == listed(lines(output@)),
{
    let ls = lines_of(output);
    let ghost all = lines(output@);
    let mut paths: Vec<String> = Vec::new();
    let mut file_stats: StringHashMap<String> = StringHashMap::new();
    let mut renamed: StringHashMap<String> = StringHashMap::new();
    let ghost mut model = no_files();
    assert(texts(paths@) =~= model.paths);
    assert(text_map(file_stats@) =~= model.file_stats);
    assert(text_map(renamed@) =~= model.renamed);
    let mut i: usize = 0;
    while i < ls.len()
        invariant
            all == texts(ls@),
            i <= ls@.len(),
            model == listed(all.take(i as int)),
            texts(paths@) == model.paths,
            text_map(file_stats@) == model.file_stats,
            text_map(renamed@) == model.renamed,
        decreases ls@.len() - i,
    {
        broadcast use crate::text::lemma_texts_push;
        assert(all.take(i + 1).drop_last() == all.take(i as int));
        assert(all.take(i + 1).last() == ls@[i as int]@);
        proof {
            model = with_line(model, ls@[i as int]@);
        }
        match fields_of(&ls[i]) {
            None => {},
            Some((ins, del, listed_path)) => {
                if !listed_path.as_str().is_empty() {
                    let path = match parse_rename_path(&listed_path) {
                        Some((old, new)) => {
                            proof {
                                lemma_text_map_insert(renamed@, new@, old);
                            }
                            renamed.insert(new.clone(), old);
                            new
                        },
                        None => listed_path,
                    };
                    paths.push(path.clone());
                    if !same(&ins, "-") {
                        match (u64_of(&ins), u64_of(&del)) {
                            (Some(a), Some(d)) => {
                                if a > 0 || d > 0 {
                                    let shown = show_stats(a, d);
                                    proof {
                                        lemma_text_map_insert(file_stats@, path@, shown);
                                    }
                                    file_stats.insert(path, shown);
                                }
                            },
                            _ => {},
                        }
                    }
                }
            },
        }
        i += 1;
    }
    assert(all.take(all.len() as int) == all);
    NumStat { paths, file_stats, renamed }
}

} // verus!

//! The record of viewed files: one line for each, with a mark for its contents and its path.

use crate::blob::{blob_id, hash_blob, is_id};
use crate::numstat::{lemma_text_map_insert, text_map};
use crate::text::{
    chars_of, ends_with, find_char, finishes_with, lines, lines_of, lines_text, piece,
    position_of_char, same, text_of_lines, texts,
};
use vstd::hash_map::StringHashMap;
use vstd::prelude::*;
use vstd::string::*;

verus! {

/// A path in the working tree.
pub enum WorkFile {
    /// There is no such file.
    Missing,
    /// There is such a file, but it cannot be read.
    Unreadable,
    /// The contents of the file.
    Content(Vec<u8>),
}

/// The contents of [`WorkFile`].
pub enum WorkFileModel {
    Missing,
    Unreadable,
    Content(Seq<u8>),
}

impl View for WorkFile {
    type V = WorkFileModel;

    open spec fn view(&self) -> WorkFileModel {
        match self {
            WorkFile::Missing => WorkFileModel::Missing,
            WorkFile::Unreadable => WorkFileModel::Unreadable,
            WorkFile::Content(bytes) => WorkFileModel::Content(bytes@),
        }
    }
}

/// The mark under which a file in the state `f` is recorded: its object id, or a word for a
/// file that is gone. A file that cannot be read has none.
pub open spec fn current_mark(f: WorkFileModel) -> Seq<char> {
    match f {
        WorkFileModel::Missing => "DELETED"@,
        WorkFileModel::Unreadable => Seq::empty(),
        WorkFileModel::Content(bytes) => blob_id(bytes),
    }
}

/// Whether `m` can be told apart from the path behind it, and fits one line.
pub open spec fn is_mark(m: Seq<char>) -> bool {
    &&& m.len() > 0
    &&& !m.contains(' ')
    &&& !m.contains('\n')
}

/// The mark and the path on one line of the record.
pub open spec fn entry(line: Seq<char>) -> Option<(Seq<char>, Seq<char>)> {
    match find_char(line, ' ') {
        Some(i) => if i > 0 && i + 1 < line.len() {
            Some((line.take(i), line.skip(i + 1)))
        } else {
            None
        },
        None => None,
    }
}

/// The mark of each path that the lines `ls` record. Later lines prevail.
pub open spec fn viewed_on(ls: Seq<Seq<char>>) -> Map<Seq<char>, Seq<char>>
    decreases ls.len(),
{
    if ls.len() == 0 {
        Map::empty()
    } else {
        match entry(ls.last()) {
            Some((mark, path)) => viewed_on(ls.drop_last()).insert(path, mark),
            None => viewed_on(ls.drop_last()),
        }
    }
}

/// The mark of each path that the record `content` holds.
pub open spec fn viewed_in(content: Seq<char>) -> Map<Seq<char>, Seq<char>> {
    viewed_on(lines(content))
}

/// Whether a line of the record is about `file`.
pub open spec fn is_about(line: Seq<char>, file: Seq<char>) -> bool {
    ends_with(line, " "@ + file)
}

/// The lines of `ls` that are not about `file`.
pub open spec fn others(ls: Seq<Seq<char>>, file: Seq<char>) -> Seq<Seq<char>>
    decreases ls.len(),
{
    if ls.len() == 0 {
        Seq::empty()
    } else if is_about(ls.last(), file) {
        others(ls.drop_last(), file)
    } else {
        others(ls.drop_last(), file).push(ls.last())
    }
}

/// What stands before the first space of `line`.
pub open spec fn line_mark(line: Seq<char>) -> Seq<char> {
    match find_char(line, ' ') {
        Some(i) => line.take(i),
        None => Seq::empty(),
    }
}

/// The mark on the first line of `ls` that is about `file` and has one.
pub open spec fn stored_mark(ls: Seq<Seq<char>>, file: Seq<char>) -> Seq<char>
    decreases ls.len(),
{
    if ls.len() == 0 {
        Seq::empty()
    } else {
        let before = stored_mark(ls.drop_last(), file);
        if before.len() == 0 && is_about(ls.last(), file) {
            line_mark(ls.last())
        } else {
            before
        }
    }
}

/// The line that records `file` under `mark`.
pub open spec fn record_line(mark: Seq<char>, file: Seq<char>) -> Seq<char> {
    mark + " "@ + file
}

/// The record `content` after `file` was toggled in a state with the mark `mark`: a file that
/// is recorded under that mark is taken out, any other is recorded under it, last.
pub open spec fn toggled(content: Seq<char>, file: Seq<char>, mark: Seq<char>) -> Seq<char> {
    let ls = lines(content);
    if stored_mark(ls, file) == mark {
        text_of_lines(others(ls, file))
    } else {
        text_of_lines(others(ls, file).push(record_line(mark, file)))
    }
}

/// Whether a file that is recorded under `stored` counts as viewed in the state `f`.
pub open spec fn is_viewed(stored: Seq<char>, f: WorkFileModel) -> bool {
    stored.len() > 0 && current_mark(f) == stored
}

/// The mark under which a file in the state `f` is recorded.
pub fn mark_of(f: &WorkFile) -> (r: String)
    ensures
        r@ == current_mark(f@),
        r@.len() == 0 <==> f is Unreadable,
        r@.len() > 0 ==> is_mark(r@),
{
    match f {
        WorkFile::Missing => {
            proof {
                reveal_strlit("DELETED");
            }
            "DELETED".to_owned()
        },
        WorkFile::Unreadable => String::new(),
        WorkFile::Content(bytes) => {
            let r = hash_blob(bytes);
            proof {
                lemma_id_is_mark(r@);
            }
            r
        },
    }
}

/// Whether a file that is recorded under `stored` counts as viewed in the state `f`.
pub fn counts_as_viewed(stored: &str, f: &WorkFile) -> (r: bool)
    ensures
        r == is_viewed(stored@, f@),
{
    if stored.is_empty() {
        return false;
    }
    same(&mark_of(f), stored)
}

/// Reads the record of viewed files: the mark of each path.
pub fn load_viewed(content: &str) -> (r: StringHashMap<String>)
    ensures
        text_map(r@) == viewed_in(content@),
{
    let ls = lines_of(content);
    let ghost all = lines(content@);
    let mut r: StringHashMap<String> = StringHashMap::new();
    let mut i: usize = 0;
    assert(text_map(r@) =~= Map::<Seq<char>, Seq<char>>::empty());
    while i < ls.len()
        invariant
            all == texts(ls@),
            i <= ls@.len(),
            text_map(r@) == viewed_on(all.take(i as int)),
        decreases ls@.len() - i,
    {
        assert(all.take(i + 1).drop_last() == all.take(i as int));
        assert(all.take(i + 1).last() == ls@[i as int]@);
        let cs = chars_of(&ls[i]);
        let n: usize = cs.len();
        match position_of_char(&cs, ' ', 0) {
            Some(at) => {
                if at > 0 && at + 1 < n {
                    let mark = piece(&cs, 0, at);
                    let path = piece(&cs, at + 1, n);
                    proof {
                        lemma_text_map_insert(r@, path@, mark);
                    }
                    r.insert(path, mark);
                }
            },
            None => {},
        }
        i += 1;
    }
    assert(all.take(all.len() as int) == all);
    r
}

/// The record `existing` after `file`, which is in the state `work`, was toggled.
/// Nothing comes of an empty path or of a file that cannot be read.
pub fn toggle_viewed(file: &str, work: &WorkFile, existing: &str) -> (r: Option<String>)
    ensures
        r is None <==> file@.len() == 0 || work is Unreadable,
        r matches Some(t) ==> t@ == toggled(existing@, file@, current_mark(work@)),
        r is Some ==> is_mark(current_mark(work@)),
{
    if file.is_empty() {
        return None;
    }
    let mark = mark_of(work);
    if mark.as_str().is_empty() {
        return None;
    }
    let mut suffix = " ".to_owned();
    suffix.append(file);
    let ls = lines_of(existing);
    let ghost all = lines(existing@);
    let mut stored = String::new();
    let mut kept: Vec<String> = Vec::new();
    let mut i: usize = 0;
    assert(texts(kept@) =~= others(all.take(0), file@));
    while i < ls.len()
        invariant
            all == texts(ls@),
            suffix@ == " "@ + file@,
            i <= ls@.len(),
            stored@ == stored_mark(all.take(i as int), file@),
            texts(kept@) == others(all.take(i as int), file@),
        decreases ls@.len() - i,
    {
        broadcast use crate::text::lemma_texts_push;

        assert(all.take(i + 1).drop_last() == all.take(i as int));
        assert(all.take(i + 1).last() == ls@[i as int]@);
        if finishes_with(&ls[i], &suffix) {
            if stored.as_str().is_empty() {
                let cs = chars_of(&ls[i]);
                match position_of_char(&cs, ' ', 0) {
                    Some(at) => {
                        stored = piece(&cs, 0, at);
                    },
                    None => {},
                }
            }
        } else {
            kept.push(ls[i].clone());
        }
        i += 1;
    }
    assert(all.take(all.len() as int) == all);
    if !same(&stored, &mark) {
        let ghost before = texts(kept@);
        let mut line = mark;
        line.append(" ");
        line.append(file);
        kept.push(line);
        assert(texts(kept@) == before.push(record_line(current_mark(work@), file@))) by {
            broadcast use crate::text::lemma_texts_push;
        }
    }
    Some(lines_text(&kept))
}

/// An object id can stand as a mark.
pub proof fn lemma_id_is_mark(id: Seq<char>)
    requires
        is_id(id),
    ensures
        is_mark(id),
{
    if id.contains(' ') {
        let k = choose|k: int| 0 <= k < id.len() && id[k] == ' ';
        assert('0' <= id[k] <= '9' || 'a' <= id[k] <= 'f');
    }
    if id.contains('\n') {
        let k = choose|k: int| 0 <= k < id.len() && id[k] == '\n';
        assert('0' <= id[k] <= '9' || 'a' <= id[k] <= 'f');
    }
}

} // verus!

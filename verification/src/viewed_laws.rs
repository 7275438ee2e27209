//! What toggling does to the record of viewed files, as reading the record back shows it.

use crate::blob::blob_id;
use crate::text::{
    ends_with, find_char, lemma_find_char_from, lines, strip_cr, strip_each_cr, text_of_lines,
};
use crate::text_laws::{law_lines_read_back, lemma_lines_hold_no_newline};
use crate::viewed::{
    current_mark, entry, is_about, is_mark, is_viewed, line_mark, others, record_line, stored_mark,
    toggled, viewed_in, viewed_on, WorkFileModel,
};
use vstd::prelude::*;

verus! {

/// Whether `file` can stand at the end of a line: no line feed in it, no carriage return
/// behind it.
pub open spec fn fits_line(file: Seq<char>) -> bool {
    !file.contains('\n') && strip_cr(file) == file
}

/// Whether writing out the lines of `content` and reading them again keeps them: none ends with
/// a carriage return.
pub open spec fn is_settled(content: Seq<char>) -> bool {
    forall|i: int|
        0 <= i < lines(content).len() ==> strip_cr(#[trigger] lines(content)[i]) == lines(
            content,
        )[i]
}

/// On a line that starts with a mark, the first space stands behind it.
proof fn lemma_record_line(mark: Seq<char>, file: Seq<char>)
    requires
        is_mark(mark),
    ensures
        find_char(record_line(mark, file), ' ') == Some(mark.len() as int),
        line_mark(record_line(mark, file)) == mark,
        is_about(record_line(mark, file), file),
        file.len() > 0 ==> entry(record_line(mark, file)) == Some((mark, file)),
{
    reveal_strlit(" ");
    let l = record_line(mark, file);
    lemma_find_char_from(l, ' ', 0);
    assert(l[mark.len() as int] == ' ');
    match find_char(l, ' ') {
        Some(k) => {
            if k < mark.len() {
                assert(mark[k] == ' ');
            }
            if k > mark.len() {
                assert(l[mark.len() as int] != ' ');
            }
        },
        None => {},
    }
    assert(l.take(mark.len() as int) == mark);
    assert(l.skip(mark.len() as int + 1) == file);
    let suffix = " "@ + file;
    assert(l.subrange(l.len() - suffix.len(), l.len() as int) == suffix);
}

/// A line that fits one line, behind a mark, fits one line too.
proof fn lemma_record_line_fits(mark: Seq<char>, file: Seq<char>)
    requires
        is_mark(mark),
        fits_line(file),
    ensures
        !record_line(mark, file).contains('\n'),
        strip_cr(record_line(mark, file)) == record_line(mark, file),
{
    reveal_strlit(" ");
    let l = record_line(mark, file);
    if l.contains('\n') {
        let k = choose|k: int| 0 <= k < l.len() && l[k] == '\n';
        if k < mark.len() {
            assert(mark[k] == '\n');
        } else if k > mark.len() {
            assert(file[k - mark.len() - 1] == '\n');
        }
    }
    if file.len() > 0 {
        assert(l.last() == file.last());
    }
}

/// The lines that are left come from the record and are not about the file.
proof fn lemma_others(ls: Seq<Seq<char>>, file: Seq<char>)
    ensures
        forall|i: int|
            0 <= i < others(ls, file).len() ==> ls.contains(#[trigger] others(ls, file)[i])
                && !is_about(others(ls, file)[i], file),
    decreases ls.len(),
{
    if ls.len() > 0 {
        let d = ls.drop_last();
        lemma_others(d, file);
        let o = others(ls, file);
        let p = others(d, file);
        assert forall|i: int| 0 <= i < o.len() implies ls.contains(#[trigger] o[i]) && !is_about(
            o[i],
            file,
        ) by {
            if i < p.len() {
                assert(o[i] == p[i]);
                let k = choose|k: int| 0 <= k < d.len() && d[k] == p[i];
                assert(ls[k] == o[i]);
            } else {
                assert(ls[ls.len() - 1] == o[i]);
            }
        }
    }
}

/// Where no line is about the file, all lines are left and none has a mark for it.
proof fn lemma_nothing_about(ls: Seq<Seq<char>>, file: Seq<char>)
    requires
        forall|i: int| 0 <= i < ls.len() ==> !is_about(#[trigger] ls[i], file),
    ensures
        others(ls, file) == ls,
        stored_mark(ls, file).len() == 0,
    decreases ls.len(),
{
    if ls.len() > 0 {
        let d = ls.drop_last();
        assert forall|i: int| 0 <= i < d.len() implies !is_about(#[trigger] d[i], file) by {
            assert(d[i] == ls[i]);
        }
        assert(!is_about(ls[ls.len() - 1], file));
        lemma_nothing_about(d, file);
        assert(d.push(ls.last()) == ls);
    } else {
        assert(others(ls, file) =~= ls);
    }
}

/// The lines that a toggled record holds.
proof fn lemma_lines_of_toggled(content: Seq<char>, file: Seq<char>, mark: Seq<char>)
    requires
        is_mark(mark),
        fits_line(file),
    ensures
        ({
            let o = others(lines(content), file);
            let new = if stored_mark(lines(content), file) == mark {
                o
            } else {
                o.push(record_line(mark, file))
            };
            &&& lines(toggled(content, file, mark)) == strip_each_cr(new)
            &&& is_settled(content) ==> lines(toggled(content, file, mark)) == new
        }),
{
    let ls = lines(content);
    let o = others(ls, file);
    let rec = record_line(mark, file);
    let new = if stored_mark(ls, file) == mark {
        o
    } else {
        o.push(rec)
    };
    lemma_others(ls, file);
    lemma_lines_hold_no_newline(content);
    lemma_record_line_fits(mark, file);
    assert forall|i: int| 0 <= i < new.len() implies !(#[trigger] new[i]).contains('\n') by {
        if i < o.len() {
            assert(new[i] == o[i]);
            let k = choose|k: int| 0 <= k < ls.len() && ls[k] == o[i];
            assert(!ls[k].contains('\n'));
        }
    }
    law_lines_read_back(new);
    if is_settled(content) {
        assert forall|i: int| 0 <= i < new.len() implies strip_cr(#[trigger] new[i]) == new[i] by {
            if i < o.len() {
                assert(new[i] == o[i]);
                let k = choose|k: int| 0 <= k < ls.len() && ls[k] == o[i];
                assert(strip_cr(ls[k]) == ls[k]);
            }
        }
    }
}

/// Marking a file reads back: the record then holds the file under the mark of its state, so it
/// counts as viewed in exactly the states that have this mark.
pub proof fn law_marked_file_is_viewed(content: Seq<char>, file: Seq<char>, mark: Seq<char>)
    requires
        is_mark(mark),
        file.len() > 0,
        fits_line(file),
        stored_mark(lines(content), file) != mark,
    ensures
        viewed_in(toggled(content, file, mark)).contains_key(file),
        viewed_in(toggled(content, file, mark))[file] == mark,
        forall|f: WorkFileModel|
            #[trigger] is_viewed(viewed_in(toggled(content, file, mark))[file], f)
                <==> current_mark(f) == mark,
{
    lemma_lines_of_toggled(content, file, mark);
    lemma_record_line(mark, file);
    lemma_record_line_fits(mark, file);
    let new = others(lines(content), file).push(record_line(mark, file));
    let ls = strip_each_cr(new);
    assert(ls.last() == record_line(mark, file));
}

/// What the record holds comes from one of its lines.
proof fn lemma_viewed_comes_from_a_line(ls: Seq<Seq<char>>, path: Seq<char>)
    requires
        viewed_on(ls).contains_key(path),
    ensures
        exists|i: int|
            0 <= i < ls.len() && (#[trigger] entry(ls[i]) matches Some(e) && e.1 == path && e.0
                == viewed_on(ls)[path]),
    decreases ls.len(),
{
    if ls.len() > 0 {
        let d = ls.drop_last();
        let last = entry(ls.last());
        if last is Some && (last->0).1 == path {
            assert(entry(ls[ls.len() - 1]) is Some);
        } else {
            lemma_viewed_comes_from_a_line(d, path);
            let i = choose|i: int|
                0 <= i < d.len() && (#[trigger] entry(d[i]) matches Some(e) && e.1 == path && e.0
                    == viewed_on(d)[path]);
            assert(entry(ls[i]) == entry(d[i]));
        }
    }
}

/// A line that holds an entry for a path is about that path.
proof fn lemma_entry_is_about(line: Seq<char>)
    requires
        entry(line) is Some,
    ensures
        is_about(line, (entry(line)->0).1),
{
    reveal_strlit(" ");
    lemma_find_char_from(line, ' ', 0);
    let i = find_char(line, ' ')->0;
    let path = (entry(line)->0).1;
    let suffix = " "@ + path;
    assert(line.subrange(line.len() - suffix.len(), line.len() as int) == suffix);
}

/// Unmarking a file reads back: the record then holds nothing for it.
pub proof fn law_unmarked_file_is_not_viewed(content: Seq<char>, file: Seq<char>, mark: Seq<char>)
    requires
        is_mark(mark),
        fits_line(file),
        is_settled(content),
        stored_mark(lines(content), file) == mark,
    ensures
        !viewed_in(toggled(content, file, mark)).contains_key(file),
{
    lemma_lines_of_toggled(content, file, mark);
    let o = others(lines(content), file);
    lemma_others(lines(content), file);
    if viewed_on(o).contains_key(file) {
        lemma_viewed_comes_from_a_line(o, file);
        let i = choose|i: int|
            0 <= i < o.len() && (#[trigger] entry(o[i]) matches Some(e) && e.1 == file && e.0
                == viewed_on(o)[file]);
        lemma_entry_is_about(o[i]);
        assert(false);
    }
}

/// A line that is about `file` and holds an entry for `path` shows that `path` ends like `file`.
proof fn lemma_about_two(line: Seq<char>, file: Seq<char>, path: Seq<char>)
    requires
        is_about(line, file),
        entry(line) is Some,
        (entry(line)->0).1 == path,
    ensures
        ends_with(" "@ + path, " "@ + file),
{
    reveal_strlit(" ");
    lemma_find_char_from(line, ' ', 0);
    let i = find_char(line, ' ')->0;
    let a = " "@ + file;
    let b = " "@ + path;
    let at = line.len() - a.len();
    assert(line.subrange(at, line.len() as int) == a);
    assert(line[at] == a[0]);
    assert(line[at] == ' ');
    assert(at >= i);
    assert(b == line.skip(i));
    assert(b.subrange(b.len() - a.len(), b.len() as int) == a) by {
        assert(b.subrange(b.len() - a.len(), b.len() as int) =~= line.subrange(
            at,
            line.len() as int,
        ));
    }
}

/// Leaving out the lines about `file` changes nothing for a path that does not end like it.
proof fn lemma_others_keep(ls: Seq<Seq<char>>, file: Seq<char>, path: Seq<char>)
    requires
        !ends_with(" "@ + path, " "@ + file),
    ensures
        viewed_on(others(ls, file)).contains_key(path) == viewed_on(ls).contains_key(path),
        viewed_on(ls).contains_key(path) ==> viewed_on(others(ls, file))[path] == viewed_on(
            ls,
        )[path],
    decreases ls.len(),
{
    if ls.len() > 0 {
        let d = ls.drop_last();
        lemma_others_keep(d, file, path);
        if is_about(ls.last(), file) {
            if entry(ls.last()) is Some && (entry(ls.last())->0).1 == path {
                lemma_about_two(ls.last(), file, path);
            }
        } else {
            assert(others(ls, file).drop_last() == others(d, file));
        }
    }
}

/// Toggling a file leaves the record of every other path as it was, unless that path ends with
/// a space and the path of the file.
pub proof fn law_toggling_leaves_other_files(
    content: Seq<char>,
    file: Seq<char>,
    mark: Seq<char>,
    path: Seq<char>,
)
    requires
        is_mark(mark),
        fits_line(file),
        is_settled(content),
        path != file,
        !ends_with(path, " "@ + file),
    ensures
        viewed_in(toggled(content, file, mark)).contains_key(path) == viewed_in(
            content,
        ).contains_key(path),
        viewed_in(content).contains_key(path) ==> viewed_in(toggled(content, file, mark))[path]
            == viewed_in(content)[path],
{
    reveal_strlit(" ");
    let a = " "@ + file;
    let b = " "@ + path;
    if ends_with(b, a) {
        let at = b.len() - a.len();
        assert(b.subrange(at, b.len() as int) == a);
        if at == 0 {
            assert(b == a);
            assert(b.skip(1) == path);
            assert(a.skip(1) == file);
        } else {
            assert(path.subrange(path.len() - a.len(), path.len() as int) == a) by {
                assert(path.subrange(path.len() - a.len(), path.len() as int) =~= b.subrange(
                    at,
                    b.len() as int,
                ));
            }
        }
    }
    let ls = lines(content);
    let o = others(ls, file);
    lemma_lines_of_toggled(content, file, mark);
    lemma_others_keep(ls, file, path);
    if stored_mark(ls, file) != mark {
        let rec = record_line(mark, file);
        lemma_record_line(mark, file);
        assert(o.push(rec).drop_last() == o);
    }
}

/// Toggling a file twice in one state takes the mark back: what was marked ends up without a
/// line, what was not ends up with one, and all other lines are as they were.
pub proof fn law_second_toggle_reverses_the_first(
    content: Seq<char>,
    file: Seq<char>,
    mark: Seq<char>,
)
    requires
        is_mark(mark),
        fits_line(file),
        is_settled(content),
    ensures
        ({
            let o = others(lines(content), file);
            toggled(toggled(content, file, mark), file, mark) == if stored_mark(
                lines(content),
                file,
            ) == mark {
                text_of_lines(o.push(record_line(mark, file)))
            } else {
                text_of_lines(o)
            }
        }),
{
    let ls = lines(content);
    let o = others(ls, file);
    let rec = record_line(mark, file);
    lemma_lines_of_toggled(content, file, mark);
    lemma_others(ls, file);
    lemma_nothing_about(o, file);
    lemma_record_line(mark, file);
    if stored_mark(ls, file) != mark {
        assert(o.push(rec).drop_last() == o);
    }
}

/// Toggling twice gives back a record, as this library writes it, that said nothing of the file.
pub proof fn law_toggling_twice_restores(content: Seq<char>, file: Seq<char>, mark: Seq<char>)
    requires
        is_mark(mark),
        fits_line(file),
        is_settled(content),
        content == text_of_lines(lines(content)),
        forall|i: int|
            0 <= i < lines(content).len() ==> !is_about(#[trigger] lines(content)[i], file),
    ensures
        toggled(toggled(content, file, mark), file, mark) == content,
{
    lemma_nothing_about(lines(content), file);
    law_second_toggle_reverses_the_first(content, file, mark);
}

/// A file that is gone is marked by a word, one with contents by its object id, and one that
/// cannot be read by nothing. A file counts as viewed where it is recorded under the mark that
/// it has now.
pub proof fn law_marks_of_the_states(stored: Seq<char>, bytes: Seq<u8>)
    ensures
        current_mark(WorkFileModel::Missing) == "DELETED"@,
        current_mark(WorkFileModel::Content(bytes)) == blob_id(bytes),
        current_mark(WorkFileModel::Unreadable).len() == 0,
        is_viewed(stored, WorkFileModel::Missing) <==> stored == "DELETED"@,
        is_viewed(stored, WorkFileModel::Content(bytes)) <==> stored.len() > 0 && stored == blob_id(
            bytes,
        ),
        !is_viewed(stored, WorkFileModel::Unreadable),
{
    reveal_strlit("DELETED");
}

/// A line that is added to a record says of its path what stands before its first space, and
/// prevails over what the record said of that path before.
pub proof fn law_added_line_prevails(
    old_record: Seq<char>,
    new_record: Seq<char>,
    mark: Seq<char>,
    path: Seq<char>,
)
    requires
        mark.len() > 0,
        !mark.contains(' '),
        path.len() > 0,
        lines(new_record) == lines(old_record).push(mark + seq![' '] + path),
    ensures
        viewed_in(new_record) == viewed_in(old_record).insert(path, mark),
{
    let line = mark + seq![' '] + path;
    let at = mark.len() as int;
    lemma_find_char_from(line, ' ', 0);
    assert(line[at] == ' ');
    let i = find_char(line, ' ')->0;
    if i < at {
        assert(mark[i] == ' ');
    }
    assert(line.take(at) =~= mark);
    assert(line.skip(at + 1) =~= path);
    assert(lines(new_record).drop_last() =~= lines(old_record));
}

/// A line that begins with a space, has none, or has nothing behind its first, says nothing.
pub proof fn law_other_lines_say_nothing(
    old_record: Seq<char>,
    new_record: Seq<char>,
    line: Seq<char>,
)
    requires
        lines(new_record) == lines(old_record).push(line),
        line.len() == 0 || line[0] == ' ' || !line.drop_last().contains(' '),
    ensures
        viewed_in(new_record) == viewed_in(old_record),
        viewed_in(Seq::empty()) == Map::<Seq<char>, Seq<char>>::empty(),
{
    lemma_find_char_from(line, ' ', 0);
    if let Some(i) = find_char(line, ' ') {
        if 0 < i && i + 1 < line.len() {
            assert(line.drop_last()[i] == ' ');
        }
    }
    assert(lines(new_record).drop_last() =~= lines(old_record));
    assert(lines(Seq::empty()).len() == 0);
}

/// A line is about a file where it ends with a space and the path of the file.
pub proof fn law_line_is_about_its_end(before: Seq<char>, file: Seq<char>, line: Seq<char>)
    ensures
        is_about(before + seq![' '] + file, file),
        is_about(line, file) ==> line.len() > file.len() && line == line.take(
            line.len() - file.len() - 1,
        ) + seq![' '] + file,
{
    reveal_strlit(" ");
    let end = " "@ + file;
    let whole = before + seq![' '] + file;
    assert(whole.subrange(whole.len() - end.len(), whole.len() as int) =~= end);
    if is_about(line, file) {
        let at = line.len() - file.len() - 1;
        assert(line.subrange(at, line.len() as int) == end);
        assert(line =~= line.take(at) + line.subrange(at, line.len() as int));
        assert(line =~= line.take(at) + seq![' '] + file);
    }
}

/// The lines that toggling keeps are those that are not about the file, in their order.
pub proof fn law_other_lines_keep_their_order(
    a: Seq<Seq<char>>,
    line: Seq<char>,
    b: Seq<Seq<char>>,
    file: Seq<char>,
)
    ensures
        others(a + b, file) == others(a, file) + others(b, file),
        is_about(line, file) ==> others(seq![line], file).len() == 0,
        !is_about(line, file) ==> others(seq![line], file) == seq![line],
    decreases b.len(),
{
    let one = seq![line];
    assert(one.drop_last() =~= Seq::empty());
    assert(others(one.drop_last(), file).len() == 0);
    if !is_about(line, file) {
        assert(others(one, file) =~= one);
    }
    if b.len() == 0 {
        assert(a + b =~= a);
        assert(others(a, file) + others(b, file) =~= others(a, file));
    } else {
        law_other_lines_keep_their_order(a, line, b.drop_last(), file);
        assert((a + b).drop_last() =~= a + b.drop_last());
    }
}

/// The mark of a file is that on the first line about it.
pub proof fn law_mark_stands_on_the_first_line_about_the_file(
    before: Seq<Seq<char>>,
    mark: Seq<char>,
    file: Seq<char>,
    after: Seq<Seq<char>>,
)
    requires
        mark.len() > 0,
        !mark.contains(' '),
        !mark.contains('\n'),
        forall|i: int| 0 <= i < before.len() ==> !is_about(#[trigger] before[i], file),
    ensures
        stored_mark(before + seq![mark + seq![' '] + file] + after, file) == mark,
        stored_mark(before, file).len() == 0,
    decreases after.len(),
{
    reveal_strlit(" ");
    assert(" "@ =~= seq![' ']);
    lemma_nothing_about(before, file);
    lemma_record_line(mark, file);
    let line = mark + seq![' '] + file;
    let all = before + seq![line] + after;
    if after.len() == 0 {
        assert(all.drop_last() =~= before);
        assert(all.last() == record_line(mark, file));
    } else {
        law_mark_stands_on_the_first_line_about_the_file(before, mark, file, after.drop_last());
        assert(all.drop_last() =~= before + seq![line] + after.drop_last());
    }
}

/// Marking writes one more line, behind the lines about other files: the mark, a space and the
/// path. Unmarking writes the lines about other files alone.
pub proof fn law_marking_writes_one_more_line(content: Seq<char>, file: Seq<char>, mark: Seq<char>)
    ensures
        stored_mark(lines(content), file) != mark ==> toggled(content, file, mark) == text_of_lines(
            others(lines(content), file),
        ) + mark + seq![' '] + file + seq!['\n'],
        stored_mark(lines(content), file) == mark ==> toggled(content, file, mark) == text_of_lines(
            others(lines(content), file),
        ),
{
    reveal_strlit(" ");
    assert(" "@ =~= seq![' ']);
    let o = others(lines(content), file);
    let all = o.push(record_line(mark, file));
    assert(all.drop_last() =~= o);
    if stored_mark(lines(content), file) != mark {
        assert(toggled(content, file, mark) =~= text_of_lines(o) + mark + seq![' '] + file + seq![
            '\n',
        ]);
    }
}

} // verus!

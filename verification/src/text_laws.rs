//! How cutting and joining texts undo each other.

use crate::text::{
    closed, contains, ends_with, fields, find_char, find_char_from, is_digit, is_space, join,
    lemma_find_char_from, lines, matches_at, split, starts_with, strip_cr, strip_each_cr,
    text_of_lines, trim, trim_end, trim_end_newlines, trim_start,
};
use vstd::prelude::*;

verus! {

/// There is always at least one piece, and no piece holds the character at which the text was cut.
pub proof fn lemma_split_pieces(s: Seq<char>, c: char)
    ensures
        split(s, c).len() >= 1,
        forall|i: int| 0 <= i < split(s, c).len() ==> !(#[trigger] split(s, c)[i]).contains(c),
    decreases s.len(),
{
    if s.len() > 0 {
        let d = split(s.drop_last(), c);
        lemma_split_pieces(s.drop_last(), c);
        let r = split(s, c);
        assert forall|i: int| 0 <= i < r.len() implies !(#[trigger] r[i]).contains(c) by {
            if i < r.len() - 1 {
                assert(r[i] == d[i]);
            } else if s.last() != c {
                assert(!d[d.len() - 1].contains(c));
                assert(r[i] == d.last().push(s.last()));
                if r[i].contains(c) {
                    let k = choose|k: int| 0 <= k < r[i].len() && r[i][k] == c;
                    assert(d.last()[k] == c);
                }
            }
        }
    }
}

/// Text without `c` that is appended lengthens the last piece.
pub proof fn lemma_split_append(a: Seq<char>, b: Seq<char>, c: char)
    requires
        !b.contains(c),
    ensures
        split(a + b, c) == split(a, c).drop_last().push(split(a, c).last() + b),
    decreases b.len(),
{
    lemma_split_pieces(a, c);
    let p = split(a, c);
    if b.len() == 0 {
        assert(a + b == a);
        assert(p.last() + b == p.last());
        assert(p.drop_last().push(p.last()) == p);
    } else {
        let d = b.drop_last();
        assert(!d.contains(c)) by {
            if d.contains(c) {
                let k = choose|k: int| 0 <= k < d.len() && d[k] == c;
                assert(b[k] == c);
            }
        }
        lemma_split_append(a, d, c);
        assert((a + b).drop_last() == a + d);
        assert((a + b).last() == b.last());
        assert(b[b.len() - 1] != c);
        let q = split(a + d, c);
        assert(q.drop_last() == p.drop_last());
        assert(q.last().push(b.last()) == p.last() + b);
    }
}

/// Pieces without `c` that were joined by `c` are found again by cutting at `c`.
pub proof fn law_split_undoes_join(parts: Seq<Seq<char>>, c: char)
    requires
        parts.len() >= 1,
        forall|i: int| 0 <= i < parts.len() ==> !(#[trigger] parts[i]).contains(c),
    ensures
        split(join(parts, seq![c]), c) == parts,
    decreases parts.len(),
{
    let sep = seq![c];
    if parts.len() == 1 {
        let e = Seq::<char>::empty();
        assert(!parts[0].contains(c));
        lemma_split_append(e, parts[0], c);
        assert(e + parts[0] == parts[0]);
        assert(split(e, c) == seq![e]);
        assert(seq![e].drop_last().push(e + parts[0]) == parts);
    } else {
        let d = parts.drop_last();
        assert forall|i: int| 0 <= i < d.len() implies !(#[trigger] d[i]).contains(c) by {
            assert(d[i] == parts[i]);
        }
        law_split_undoes_join(d, c);
        let j = join(d, sep);
        let jc = j + sep;
        assert(jc.drop_last() == j);
        assert(split(jc, c) == d.push(Seq::empty()));
        assert(!parts[parts.len() - 1].contains(c));
        lemma_split_append(jc, parts.last(), c);
        assert(Seq::<char>::empty() + parts.last() == parts.last());
        assert(d.push(Seq::empty()).drop_last().push(parts.last()) == parts);
    }
}

/// The pieces between the occurrences of a character give the text back when joined by it.
pub proof fn law_join_undoes_split(s: Seq<char>, c: char)
    ensures
        join(split(s, c), seq![c]) == s,
    decreases s.len(),
{
    let sep = seq![c];
    if s.len() == 0 {
        assert(join(split(s, c), sep) == s);
    } else {
        let d = split(s.drop_last(), c);
        lemma_split_pieces(s.drop_last(), c);
        law_join_undoes_split(s.drop_last(), c);
        let r = split(s, c);
        if s.last() == c {
            assert(r.drop_last() == d);
            assert(join(r, sep) == s.drop_last() + sep + Seq::empty());
            assert(s == s.drop_last() + sep + Seq::empty());
        } else {
            assert(r.drop_last() == d.drop_last());
            if d.len() == 1 {
                assert(join(d, sep) == d[0]);
                assert(join(r, sep) == r[0]);
                assert(s == d[0].push(s.last()));
            } else {
                let h = join(d.drop_last(), sep) + sep;
                assert(join(d, sep) == h + d.last());
                assert(join(r, sep) == h + d.last().push(s.last()));
                assert(s == (h + d.last()).push(s.last()));
                assert(join(r, sep) == s);
            }
        }
    }
}

/// No line of a text holds a line feed.
pub proof fn lemma_lines_hold_no_newline(s: Seq<char>)
    ensures
        forall|i: int| 0 <= i < lines(s).len() ==> !(#[trigger] lines(s)[i]).contains('\n'),
{
    lemma_split_pieces(s, '\n');
    let p = split(s, '\n');
    let l = lines(s);
    assert forall|i: int| 0 <= i < l.len() implies !(#[trigger] l[i]).contains('\n') by {
        assert(!p[i].contains('\n'));
        if i < p.len() - 1 {
            assert(l[i] == strip_cr(p[i]));
            if l[i].contains('\n') {
                let k = choose|k: int| 0 <= k < l[i].len() && l[i][k] == '\n';
                assert(p[i][k] == '\n');
            }
        }
    }
}

/// Lines that were written out are read back, but for a carriage return at the end of a line.
pub proof fn law_lines_read_back(ls: Seq<Seq<char>>)
    requires
        forall|i: int| 0 <= i < ls.len() ==> !(#[trigger] ls[i]).contains('\n'),
    ensures
        lines(text_of_lines(ls)) == strip_each_cr(ls),
        (forall|i: int| 0 <= i < ls.len() ==> strip_cr(#[trigger] ls[i]) == ls[i]) ==> lines(
            text_of_lines(ls),
        ) == ls,
{
    if ls.len() == 0 {
        assert(lines(text_of_lines(ls)) =~= strip_each_cr(ls));
        assert(strip_each_cr(ls) =~= ls);
    } else {
        law_split_undoes_join(ls, '\n');
        let j = join(ls, seq!['\n']);
        let t = text_of_lines(ls);
        assert(t.drop_last() == j);
        assert(split(t, '\n') == ls.push(Seq::empty()));
        assert(ls.push(Seq::empty()).drop_last() == ls);
        assert(lines(t) == strip_each_cr(ls));
        if forall|i: int| 0 <= i < ls.len() ==> strip_cr(#[trigger] ls[i]) == ls[i] {
            assert(strip_each_cr(ls) =~= ls);
        }
    }
}

/// Whether `c` does not occur in `s`.
pub open spec fn lacks(s: Seq<char>, c: char) -> bool {
    forall|k: int| 0 <= k < s.len() ==> #[trigger] s[k] != c
}

/// A character that a text does not contain stands nowhere in it.
pub proof fn lemma_lacks(s: Seq<char>, c: char)
    requires
        !s.contains(c),
    ensures
        lacks(s, c),
{
    assert forall|k: int| 0 <= k < s.len() implies #[trigger] s[k] != c by {
        if s[k] == c {
            assert(s.contains(c));
        }
    }
}

/// No line of a text holds a line feed.
pub proof fn lemma_lines_lack(s: Seq<char>)
    ensures
        forall|i: int| 0 <= i < lines(s).len() ==> lacks(#[trigger] lines(s)[i], '\n'),
{
    lemma_lines_hold_no_newline(s);
    let ls = lines(s);
    assert forall|i: int| 0 <= i < ls.len() implies lacks(#[trigger] ls[i], '\n') by {
        assert(!ls[i].contains('\n'));
        lemma_lacks(ls[i], '\n');
    }
}

/// The pieces of a text are made of its characters.
pub proof fn lemma_split_lacks(s: Seq<char>, sep: char, c: char)
    requires
        lacks(s, c),
    ensures
        forall|i: int| 0 <= i < split(s, sep).len() ==> lacks(#[trigger] split(s, sep)[i], c),
    decreases s.len(),
{
    if s.len() > 0 {
        let d = s.drop_last();
        assert forall|k: int| 0 <= k < d.len() implies #[trigger] d[k] != c by {
            assert(s[k] != c);
        }
        lemma_split_lacks(d, sep, c);
        lemma_split_pieces(d, sep);
        let a = split(d, sep);
        let b = split(s, sep);
        assert forall|i: int| 0 <= i < b.len() implies lacks(#[trigger] b[i], c) by {
            if i < b.len() - 1 {
                assert(b[i] == a[i]);
            } else if s.last() != sep {
                assert(lacks(a[a.len() - 1], c));
                assert(s[s.len() - 1] != c);
            }
        }
    }
}

/// Joined texts are made of their characters and those of the separator.
pub proof fn lemma_join_lacks(parts: Seq<Seq<char>>, sep: Seq<char>, c: char)
    requires
        lacks(sep, c),
        forall|i: int| 0 <= i < parts.len() ==> lacks(#[trigger] parts[i], c),
    ensures
        lacks(join(parts, sep), c),
    decreases parts.len(),
{
    if parts.len() == 1 {
        assert(lacks(parts[0], c));
    } else if parts.len() > 1 {
        let d = parts.drop_last();
        assert forall|i: int| 0 <= i < d.len() implies lacks(#[trigger] d[i], c) by {
            assert(lacks(parts[i], c));
        }
        lemma_join_lacks(d, sep, c);
        assert(lacks(parts[parts.len() - 1], c));
    }
}

/// A text begins with another exactly where it goes on behind it.
pub proof fn law_beginning_is_a_prefix(s: Seq<char>, p: Seq<char>, rest: Seq<char>)
    ensures
        starts_with(p + rest, p),
        starts_with(s, p) <==> p.len() <= s.len() && s == p + s.skip(p.len() as int),
{
    assert((p + rest).subrange(0, p.len() as int) =~= p);
    if starts_with(s, p) {
        assert(s =~= s.subrange(0, p.len() as int) + s.skip(p.len() as int));
    }
    if p.len() <= s.len() && s == p + s.skip(p.len() as int) {
        assert(s.subrange(0, p.len() as int) =~= p);
    }
}

/// A text ends with another exactly where it stands behind what comes before.
pub proof fn law_ending_is_a_suffix(s: Seq<char>, p: Seq<char>, rest: Seq<char>)
    ensures
        ends_with(rest + p, p),
        ends_with(s, p) <==> p.len() <= s.len() && s == s.take(s.len() - p.len()) + p,
{
    let t = rest + p;
    assert(t.subrange(rest.len() as int, t.len() as int) =~= p);
    let at = s.len() - p.len();
    if ends_with(s, p) {
        assert(s =~= s.take(at) + s.subrange(at, at + p.len()));
    }
    if p.len() <= s.len() && s == s.take(at) + p {
        assert(s.subrange(at, at + p.len()) =~= p);
    }
}

/// A text holds another exactly where it is that other one between two more.
pub proof fn law_held_text_stands_between(s: Seq<char>, p: Seq<char>, a: Seq<char>, b: Seq<char>)
    ensures
        contains(a + p + b, p),
        contains(s, p) <==> exists|x: Seq<char>, y: Seq<char>| s == #[trigger] (x + p + y),
{
    let t = a + p + b;
    assert(t.subrange(a.len() as int, (a.len() + p.len()) as int) =~= p);
    assert(matches_at(t, p, a.len() as int));
    if contains(s, p) {
        let i = choose|i: int| matches_at(s, p, i);
        let x = s.take(i);
        let y = s.skip(i + p.len());
        assert(s =~= x + s.subrange(i, i + p.len()) + y);
        assert(s == x + p + y);
    }
    if exists|x: Seq<char>, y: Seq<char>| s == #[trigger] (x + p + y) {
        let (x, y) = choose|x: Seq<char>, y: Seq<char>| s == #[trigger] (x + p + y);
        assert((x + p + y).subrange(x.len() as int, (x.len() + p.len()) as int) =~= p);
        assert(matches_at(s, p, x.len() as int));
    }
}

/// Joining is putting the separator between neighbours, and nothing else.
pub proof fn law_join_puts_the_separator_between(
    a: Seq<Seq<char>>,
    b: Seq<Seq<char>>,
    x: Seq<char>,
    sep: Seq<char>,
)
    ensures
        join(Seq::empty(), sep).len() == 0,
        join(seq![x], sep) == x,
        a.len() > 0 && b.len() > 0 ==> join(a + b, sep) == join(a, sep) + sep + join(b, sep),
    decreases b.len(),
{
    if a.len() > 0 && b.len() > 0 {
        let d = b.drop_last();
        let all = a + b;
        assert(all.drop_last() =~= a + d);
        if b.len() == 1 {
            assert(a + d =~= a);
        } else {
            law_join_puts_the_separator_between(a, d, x, sep);
            assert(join(all, sep) =~= join(a, sep) + sep + join(b, sep));
        }
    }
}

/// One carriage return at the end of a line is taken away, and nothing else.
pub proof fn law_carriage_return_is_taken_away(line: Seq<char>)
    ensures
        strip_cr(line.push('\r')) == line,
        line.len() == 0 || line.last() != '\r' ==> strip_cr(line) == line,
{
    assert(line.push('\r').drop_last() =~= line);
}

/// Each line is written with a line feed behind it.
pub proof fn law_each_line_ends_with_a_line_feed(ls: Seq<Seq<char>>, line: Seq<char>)
    ensures
        text_of_lines(Seq::empty()).len() == 0,
        text_of_lines(ls.push(line)) == text_of_lines(ls) + line + seq!['\n'],
{
    let all = ls.push(line);
    assert(all.drop_last() =~= ls);
    if ls.len() == 0 {
        assert(text_of_lines(all) =~= text_of_lines(ls) + line + seq!['\n']);
    } else {
        assert(text_of_lines(all) =~= text_of_lines(ls) + line + seq!['\n']);
    }
}

/// Text behind the last line feed is a line of its own, with a carriage return at its end kept.
pub proof fn law_unended_text_is_the_last_line(ls: Seq<Seq<char>>, last: Seq<char>)
    requires
        forall|i: int| 0 <= i < ls.len() ==> !(#[trigger] ls[i]).contains('\n'),
        last.len() > 0,
        !last.contains('\n'),
    ensures
        lines(text_of_lines(ls) + last) == lines(text_of_lines(ls)).push(last),
{
    let t = text_of_lines(ls);
    lemma_split_append(t, last, '\n');
    lemma_split_pieces(t, '\n');
    if ls.len() == 0 {
        assert(split(t, '\n') =~= seq![Seq::<char>::empty()]);
    } else {
        law_split_undoes_join(ls, '\n');
        assert(t.drop_last() =~= join(ls, seq!['\n']));
    }
    let p = split(t, '\n');
    assert(p.last().len() == 0);
    let q = split(t + last, '\n');
    assert(q.drop_last() =~= p.drop_last());
    assert(p.last() + last =~= last);
    assert(lines(t + last) =~= lines(t).push(last));
}

/// Closing a text puts one line feed behind it, but not behind an empty one.
pub proof fn law_closed_text(s: Seq<char>)
    ensures
        closed(Seq::empty()).len() == 0,
        s.len() > 0 ==> closed(s) == s + seq!['\n'],
{
    if s.len() > 0 {
        assert(closed(s) =~= s + seq!['\n']);
    }
}

/// All line feeds at the end go, and nothing else does.
pub proof fn law_only_line_feeds_at_the_end_go(s: Seq<char>)
    ensures
        trim_end_newlines(s).len() <= s.len(),
        s.take(trim_end_newlines(s).len() as int) == trim_end_newlines(s),
        forall|i: int| trim_end_newlines(s).len() <= i < s.len() ==> #[trigger] s[i] == '\n',
        trim_end_newlines(s).len() == 0 || trim_end_newlines(s).last() != '\n',
    decreases s.len(),
{
    if s.len() > 0 && s.last() == '\n' {
        let d = s.drop_last();
        law_only_line_feeds_at_the_end_go(d);
        let r = trim_end_newlines(s);
        assert(s.take(r.len() as int) =~= d.take(r.len() as int));
        assert forall|i: int| r.len() <= i < s.len() implies #[trigger] s[i] == '\n' by {
            if i < d.len() {
                assert(d[i] == s[i]);
            }
        }
    } else {
        assert(s.take(s.len() as int) =~= s);
    }
}

/// The characters that count as white space.
pub proof fn law_white_space(c: char)
    ensures
        is_space(c) <==> seq![
            0x9int, 0xA, 0xB, 0xC, 0xD, 0x20, 0x85, 0xA0, 0x1680, 0x2000, 0x2001, 0x2002, 0x2003,
            0x2004, 0x2005, 0x2006, 0x2007, 0x2008, 0x2009, 0x200A, 0x2028, 0x2029, 0x202F, 0x205F,
            0x3000,
        ].contains(c as int),
{
    let all = seq![
        0x9int, 0xA, 0xB, 0xC, 0xD, 0x20, 0x85, 0xA0, 0x1680, 0x2000, 0x2001, 0x2002, 0x2003,
        0x2004, 0x2005, 0x2006, 0x2007, 0x2008, 0x2009, 0x200A, 0x2028, 0x2029, 0x202F, 0x205F,
        0x3000,
    ];
    let n = c as int;
    if all.contains(n) {
        let k = choose|k: int| 0 <= k < all.len() && all[k] == n;
        assert(is_space(c));
    }
    if is_space(c) {
        let k: int = if n <= 0xD {
            n - 9
        } else if n == 0x20 {
            5
        } else if n == 0x85 {
            6
        } else if n == 0xA0 {
            7
        } else if n == 0x1680 {
            8
        } else if n <= 0x200A {
            n - 0x2000 + 9
        } else if n == 0x2028 {
            20
        } else if n == 0x2029 {
            21
        } else if n == 0x202F {
            22
        } else if n == 0x205F {
            23
        } else {
            24
        };
        assert(all[k] == n);
    }
}

/// The white space at either end goes, and nothing else does.
pub proof fn law_only_white_space_at_the_ends_goes(s: Seq<char>)
    ensures
        exists|a: Seq<char>, b: Seq<char>|
            s == #[trigger] (a + trim(s) + b) && all_space(a) && all_space(b),
        trim(s).len() > 0 ==> !is_space(trim(s)[0]) && !is_space(trim(s).last()),
{
    let t = trim_start(s);
    lemma_trim_start(s);
    lemma_trim_end(t);
    let a = s.take(s.len() - t.len());
    let r = trim(s);
    let b = t.skip(r.len() as int);
    assert(s =~= a + r + b) by {
        assert(s =~= a + t);
        assert(t =~= t.take(r.len() as int) + b);
    }
    if r.len() > 0 {
        assert(r[0] == t[0]);
    }
    assert(s == a + r + b && all_space(a) && all_space(b));
}

/// Whether a text is white space alone.
pub open spec fn all_space(s: Seq<char>) -> bool {
    forall|i: int| 0 <= i < s.len() ==> is_space(#[trigger] s[i])
}

/// What goes at the beginning is white space, and what stays does not begin with any.
proof fn lemma_trim_start(s: Seq<char>)
    ensures
        trim_start(s).len() <= s.len(),
        trim_start(s) == s.skip(s.len() - trim_start(s).len()),
        all_space(s.take(s.len() - trim_start(s).len())),
        trim_start(s).len() > 0 ==> !is_space(trim_start(s)[0]),
    decreases s.len(),
{
    if s.len() > 0 && is_space(s[0]) {
        let d = s.skip(1);
        lemma_trim_start(d);
        let t = trim_start(s);
        let n = s.len() - t.len();
        assert(t =~= s.skip(n));
        let x = s.take(n);
        assert forall|i: int| 0 <= i < x.len() implies is_space(#[trigger] x[i]) by {
            if i > 0 {
                assert(x[i] == d.take(n - 1)[i - 1]);
            }
        }
    } else {
        assert(s.skip(0) =~= s);
    }
}

/// What goes at the end is white space, and what stays does not end with any.
proof fn lemma_trim_end(s: Seq<char>)
    ensures
        trim_end(s).len() <= s.len(),
        trim_end(s) == s.take(trim_end(s).len() as int),
        all_space(s.skip(trim_end(s).len() as int)),
        trim_end(s).len() > 0 ==> !is_space(trim_end(s).last()),
    decreases s.len(),
{
    if s.len() > 0 && is_space(s.last()) {
        let d = s.drop_last();
        lemma_trim_end(d);
        let t = trim_end(s);
        assert(t =~= s.take(t.len() as int));
        let x = s.skip(t.len() as int);
        assert forall|i: int| 0 <= i < x.len() implies is_space(#[trigger] x[i]) by {
            if i < x.len() - 1 {
                assert(x[i] == d.skip(t.len() as int)[i]);
            }
        }
    } else {
        assert(s.take(s.len() as int) =~= s);
    }
}

/// A text has three fields exactly where it is three texts with tabs between them, the first two
/// without a tab of their own.
pub proof fn law_fields_stand_between_tabs(
    line: Seq<char>,
    a: Seq<char>,
    b: Seq<char>,
    c: Seq<char>,
)
    ensures
        !a.contains('\t') && !b.contains('\t') ==> fields(a + seq!['\t'] + b + seq!['\t'] + c)
            == Some((a, b, c)),
        fields(line) matches Some((x, y, z)) ==> line == x + seq!['\t'] + y + seq!['\t'] + z
            && !x.contains('\t') && !y.contains('\t'),
        fields(line) is None <==> split(line, '\t').len() < 3,
{
    if !a.contains('\t') && !b.contains('\t') {
        lemma_fields(a, b, c);
    }
    lemma_find_char_from(line, '\t', 0);
    let tab = seq!['\t'];
    match find_char(line, '\t') {
        None => {
            assert(!line.contains('\t'));
            let e = Seq::<char>::empty();
            lemma_split_append(e, line, '\t');
            assert(e + line =~= line);
            assert(split(e, '\t') =~= seq![e]);
        },
        Some(i) => {
            lemma_find_char_from(line, '\t', i + 1);
            let x = line.take(i);
            assert(!x.contains('\t'));
            match find_char_from(line, '\t', i + 1) {
                None => {
                    let y = line.skip(i + 1);
                    assert(!y.contains('\t')) by {
                        if y.contains('\t') {
                            let k = choose|k: int| 0 <= k < y.len() && y[k] == '\t';
                            assert(line[i + 1 + k] == '\t');
                        }
                    }
                    let parts = seq![x, y];
                    law_split_undoes_join(parts, '\t');
                    assert(parts.drop_last() =~= seq![x]);
                    assert(join(parts.drop_last(), tab) == x);
                    assert(line =~= x + tab + y);
                },
                Some(j) => {
                    let y = line.subrange(i + 1, j);
                    let z = line.skip(j + 1);
                    assert(!y.contains('\t')) by {
                        if y.contains('\t') {
                            let k = choose|k: int| 0 <= k < y.len() && y[k] == '\t';
                            assert(line[i + 1 + k] == '\t');
                        }
                    }
                    assert(line =~= x + tab + y + tab + z);
                    let parts = seq![x, y];
                    law_split_undoes_join(parts, '\t');
                    assert(parts.drop_last() =~= seq![x]);
                    assert(join(parts.drop_last(), tab) == x);
                    let head = x + tab + y;
                    assert(split(head, '\t').len() == 2);
                    let next = head.push('\t');
                    assert(next.drop_last() =~= head);
                    assert(split(next, '\t').len() == 3);
                    lemma_split_grows(next, z, '\t');
                    assert(line =~= next + z);
                },
            }
        },
    }
}

/// More text never has fewer pieces.
proof fn lemma_split_grows(a: Seq<char>, b: Seq<char>, c: char)
    ensures
        split(a + b, c).len() >= split(a, c).len(),
    decreases b.len(),
{
    if b.len() == 0 {
        assert(a + b =~= a);
    } else {
        lemma_split_grows(a, b.drop_last(), c);
        assert((a + b).drop_last() =~= a + b.drop_last());
        lemma_split_pieces((a + b).drop_last(), c);
    }
}

/// The fields of a text with two tabs.
pub proof fn lemma_fields(a: Seq<char>, b: Seq<char>, c: Seq<char>)
    requires
        !a.contains('\t'),
        !b.contains('\t'),
    ensures
        fields(a + seq!['\t'] + b + seq!['\t'] + c) == Some((a, b, c)),
{
    let s = a + seq!['\t'] + b + seq!['\t'] + c;
    let i = a.len() as int;
    let j = i + 1 + b.len();
    assert(s[i] == '\t' && s[j] == '\t');
    lemma_find_char_from(s, '\t', 0);
    let x = find_char(s, '\t')->0;
    if x < i {
        assert(a[x] == '\t');
    }
    lemma_find_char_from(s, '\t', i + 1);
    let y = find_char_from(s, '\t', i + 1)->0;
    if y < j {
        assert(b[y - i - 1] == '\t');
    }
    assert(s.take(i) =~= a);
    assert(s.subrange(i + 1, j) =~= b);
    assert(s.skip(j + 1) =~= c);
}

/// The digits are the ten of ASCII.
pub proof fn law_digits(c: char)
    ensures
        is_digit(c) <==> seq!['0', '1', '2', '3', '4', '5', '6', '7', '8', '9'].contains(c),
{
    let all = seq!['0', '1', '2', '3', '4', '5', '6', '7', '8', '9'];
    if is_digit(c) {
        assert(all[c as int - 48] == c);
    }
}

} // verus!

//! What holds of every path that is shown, renamed or quoted.

use crate::paths::{
    abbreviated, abbreviated_heads, escaped, is_plain, quoted, rename_of, rename_side, shortened,
};
use crate::text::{
    contains, find, find_char_from, join, lemma_find_char_from, lemma_find_from, lemma_rfind_char,
    matches_at, rfind_char, split,
};
use crate::text_laws::{law_join_undoes_split, law_split_undoes_join, lemma_split_pieces};
use vstd::prelude::*;

verus! {

/// `parts`, each but the last abbreviated.
pub open spec fn shortened_segments(parts: Seq<Seq<char>>) -> Seq<Seq<char>> {
    Seq::new(
        parts.len(),
        |i: int|
            if i < parts.len() - 1 {
                abbreviated(parts[i])
            } else {
                parts[i]
            },
    )
}

/// The abbreviated heads are the abbreviated segments, joined, with a slash behind.
proof fn lemma_heads(parts: Seq<Seq<char>>, last: Seq<char>)
    ensures
        abbreviated_heads(parts) + last == join(
            parts.map_values(|p: Seq<char>| abbreviated(p)).push(last),
            seq!['/'],
        ),
    decreases parts.len(),
{
    reveal_strlit("/");
    assert("/"@ =~= seq!['/']);
    let short = parts.map_values(|p: Seq<char>| abbreviated(p));
    let all = short.push(last);
    if parts.len() == 0 {
        assert(abbreviated_heads(parts) + last =~= last);
    } else {
        let d = parts.drop_last();
        let ds = d.map_values(|p: Seq<char>| abbreviated(p));
        lemma_heads(d, abbreviated(parts.last()));
        assert(short == ds.push(abbreviated(parts.last())));
        assert(all.drop_last() == short);
        assert(abbreviated_heads(parts) + last =~= abbreviated_heads(d) + abbreviated(parts.last())
            + seq!['/'] + last);
    }
}

/// A shortened path has as many segments as the path. The last one is kept, and each other one
/// is cut to its first two characters.
pub proof fn law_shortening_keeps_the_segments(path: Seq<char>)
    ensures
        split(shortened(path), '/') == shortened_segments(split(path, '/')),
{
    let parts = split(path, '/');
    lemma_split_pieces(path, '/');
    let want = shortened_segments(parts);
    if parts.len() == 1 {
        assert(want =~= parts);
    } else {
        reveal_strlit("/");
        let heads = parts.len() - 1;
        let h = parts.take(heads);
        let tail = parts.skip(heads);
        assert(tail.len() == 1);
        assert(join(tail, "/"@) == parts.last());
        lemma_heads(h, parts.last());
        let short = h.map_values(|p: Seq<char>| abbreviated(p)).push(parts.last());
        assert(short =~= want);
        assert forall|i: int| 0 <= i < short.len() implies !(#[trigger] short[i]).contains('/') by {
            assert(!parts[i].contains('/'));
            if short[i].contains('/') {
                let k = choose|k: int| 0 <= k < short[i].len() && short[i][k] == '/';
                assert(parts[i][k] == '/');
            }
        }
        law_split_undoes_join(short, '/');
    }
}

/// Shortening a shortened path changes nothing.
pub proof fn law_shortening_twice_is_shortening_once(path: Seq<char>)
    ensures
        shortened(shortened(path)) == shortened(path),
{
    let s = shortened(path);
    law_shortening_keeps_the_segments(path);
    law_shortening_keeps_the_segments(s);
    lemma_split_pieces(path, '/');
    assert(split(shortened(s), '/') =~= split(s, '/'));
    law_join_undoes_split(shortened(s), '/');
    law_join_undoes_split(s, '/');
}

/// A path shows a rename exactly where it holds an arrow.
pub proof fn law_rename_has_an_arrow(path: Seq<char>)
    ensures
        rename_of(path) is Some <==> contains(path, " => "@),
{
    lemma_find_from(path, " => "@, 0);
}

/// The first arrow of `a => b` stands behind `a`, unless one starts within `a`.
proof fn lemma_arrow(a: Seq<char>, b: Seq<char>)
    requires
        !contains(a + " =>"@, " => "@),
    ensures
        find(a + " => "@ + b, " => "@) == Some(a.len() as int),
        " => "@.len() == 4,
{
    reveal_strlit(" => ");
    reveal_strlit(" =>");
    let s = a + " => "@ + b;
    let p = " => "@;
    assert(p.len() == 4);
    assert(s.subrange(a.len() as int, a.len() + 4int) =~= p);
    assert(matches_at(s, p, a.len() as int));
    lemma_find_from(s, p, 0);
    let i = find(s, p)->0;
    if i < a.len() {
        let t = a + " =>"@;
        assert(i + 4 <= t.len());
        assert(t.subrange(i, i + 4) =~= s.subrange(i, i + 4));
        assert(matches_at(t, p, i));
    }
}

/// A plain rename `old => new` is read back, unless an arrow starts within `old` or braces stand
/// round the arrow.
pub proof fn law_plain_rename_reads_back(old_path: Seq<char>, new_path: Seq<char>)
    requires
        !contains(old_path + " =>"@, " => "@),
        !old_path.contains('{') || !new_path.contains('}'),
    ensures
        rename_of(old_path + " => "@ + new_path) == Some((old_path, new_path)),
{
    let s = old_path + " => "@ + new_path;
    let arrow = old_path.len() as int;
    lemma_arrow(old_path, new_path);
    reveal_strlit(" => ");
    assert(s.take(arrow) =~= old_path);
    assert(s.skip(arrow + 4) =~= new_path);
    lemma_rfind_char(old_path, '{');
    lemma_find_char_from(s, '}', arrow);
    if !new_path.contains('}') {
        if let Some(j) = find_char_from(s, '}', arrow) {
            if j >= arrow + 4 {
                assert(new_path[j - arrow - 4] == '}');
            } else {
                assert(s[j] == " => "@[j - arrow]);
            }
        }
    }
}

/// A rename in brace shorthand, `prefix{old => new}suffix`, is read back: both paths have the
/// common parts round their own.
pub proof fn law_brace_rename_reads_back(
    prefix: Seq<char>,
    old_part: Seq<char>,
    new_part: Seq<char>,
    suffix: Seq<char>,
)
    requires
        !contains(prefix.push('{') + old_part + " =>"@, " => "@),
        !old_part.contains('{'),
        !new_part.contains('}'),
    ensures
        rename_of(prefix.push('{') + old_part + " => "@ + (new_part.push('}') + suffix)) == Some(
            (rename_side(prefix, old_part, suffix), rename_side(prefix, new_part, suffix)),
        ),
{
    let a = prefix.push('{') + old_part;
    let b = new_part.push('}') + suffix;
    let s = a + " => "@ + b;
    let arrow = a.len() as int;
    lemma_arrow(a, b);
    reveal_strlit(" => ");
    assert(s.take(arrow) =~= a);
    lemma_rfind_char(a, '{');
    let open = prefix.len() as int;
    assert(a[open] == '{');
    let o = rfind_char(a, '{')->0;
    if o > open {
        assert(old_part[o - open - 1] == '{');
    }
    lemma_find_char_from(s, '}', arrow);
    let close = arrow + 4 + new_part.len();
    assert(s[close] == '}');
    let c = find_char_from(s, '}', arrow)->0;
    if c < close {
        if c >= arrow + 4 {
            assert(new_part[c - arrow - 4] == '}');
        } else {
            assert(s[c] == " => "@[c - arrow]);
        }
    }
    assert(s.take(open) =~= prefix);
    assert(s.skip(close + 1) =~= suffix);
    assert(s.subrange(open + 1, arrow) =~= old_part);
    assert(s.subrange(arrow + 4, close) =~= new_part);
}

/// How far a shell has read a word: the characters that the word stands for, and what it is within.
pub enum ShellWord {
    /// Outside quotes.
    Bare(Seq<char>),
    /// Within single quotes.
    Quoted(Seq<char>),
    /// Right behind a backslash outside quotes.
    Escaped(Seq<char>),
    /// Not one word of plain characters, quotes and escapes.
    Broken,
}

/// How a shell reads `s` as one word. Outside quotes plain characters stand for themselves and a
/// backslash takes the next character literally; between single quotes every character but
/// the quote stands for itself.
pub open spec fn shell_word(s: Seq<char>) -> ShellWord
    decreases s.len(),
{
    if s.len() == 0 {
        ShellWord::Bare(Seq::empty())
    } else {
        let c = s.last();
        match shell_word(s.drop_last()) {
            ShellWord::Bare(w) => if c == '\'' {
                ShellWord::Quoted(w)
            } else if c == '\\' {
                ShellWord::Escaped(w)
            } else if is_plain(c) {
                ShellWord::Bare(w.push(c))
            } else {
                ShellWord::Broken
            },
            ShellWord::Quoted(w) => if c == '\'' {
                ShellWord::Bare(w)
            } else {
                ShellWord::Quoted(w.push(c))
            },
            ShellWord::Escaped(w) => ShellWord::Bare(w.push(c)),
            ShellWord::Broken => ShellWord::Broken,
        }
    }
}

/// Escaped text behind an opening quote leaves the shell within quotes, with the text read.
proof fn lemma_escaped(s: Seq<char>)
    ensures
        shell_word(seq!['\''] + escaped(s)) == ShellWord::Quoted(s),
    decreases s.len(),
{
    let q = seq!['\''];
    if s.len() == 0 {
        assert(q + escaped(s) =~= q);
        assert(q.drop_last() =~= Seq::empty());
        assert(shell_word(q.drop_last()) == ShellWord::Bare(Seq::empty()));
        assert(s =~= Seq::empty());
    } else {
        let d = s.drop_last();
        lemma_escaped(d);
        let e = q + escaped(d);
        if s.last() == '\'' {
            reveal_strlit("'\\''");
            let e1 = e.push('\'');
            let e2 = e1.push('\\');
            let e3 = e2.push('\'');
            let e4 = e3.push('\'');
            assert(q + escaped(s) =~= e4);
            assert(e1.drop_last() == e);
            assert(e2.drop_last() == e1);
            assert(e3.drop_last() == e2);
            assert(e4.drop_last() == e3);
            assert(shell_word(e1) == ShellWord::Bare(d));
            assert(shell_word(e2) == ShellWord::Escaped(d));
            assert(shell_word(e3) == ShellWord::Bare(d.push('\'')));
            assert(d.push('\'') == s);
        } else {
            assert(q + escaped(s) =~= e.push(s.last()));
            assert(e.push(s.last()).drop_last() == e);
            assert(d.push(s.last()) == s);
        }
    }
}

/// Plain characters are read as they stand.
proof fn lemma_plain(s: Seq<char>)
    requires
        forall|i: int| 0 <= i < s.len() ==> is_plain(#[trigger] s[i]),
    ensures
        shell_word(s) == ShellWord::Bare(s),
    decreases s.len(),
{
    if s.len() == 0 {
        assert(s =~= Seq::empty());
    } else {
        let d = s.drop_last();
        assert forall|i: int| 0 <= i < d.len() implies is_plain(#[trigger] d[i]) by {
            assert(is_plain(s[i]));
        }
        lemma_plain(d);
        assert(is_plain(s[s.len() - 1]));
        assert(d.push(s.last()) == s);
    }
}

/// A shell reads a quoted text back as one word that is the text.
pub proof fn law_shell_reads_back_what_was_quoted(s: Seq<char>)
    ensures
        shell_word(quoted(s)) == ShellWord::Bare(s),
{
    if s.len() > 0 && forall|i: int| 0 <= i < s.len() ==> is_plain(#[trigger] s[i]) {
        lemma_plain(s);
    } else {
        reveal_strlit("'");
        lemma_escaped(s);
        let e = seq!['\''] + escaped(s);
        assert(quoted(s) =~= e.push('\''));
        assert(e.push('\'').drop_last() == e);
    }
}

/// Each folder of a path is shown by its first two characters, or whole where it has fewer. The
/// last segment is shown whole, and none is added or lost.
pub proof fn law_folders_are_cut_to_two_characters(path: Seq<char>, i: int)
    requires
        0 <= i < split(path, '/').len(),
    ensures
        ({
            let long = split(path, '/');
            let short = split(shortened(path), '/');
            &&& short.len() == long.len()
            &&& i == long.len() - 1 ==> short[i] == long[i]
            &&& i < long.len() - 1 && long[i].len() <= 2 ==> short[i] == long[i]
            &&& i < long.len() - 1 && long[i].len() > 2 ==> short[i] == seq![long[i][0], long[i][1]]
        }),
{
    law_shortening_keeps_the_segments(path);
}

/// A rename in brace shorthand puts the common parts round the part of each side.
pub proof fn law_common_parts_stand_round_each_side(
    prefix: Seq<char>,
    old_part: Seq<char>,
    new_part: Seq<char>,
    suffix: Seq<char>,
)
    requires
        !contains(prefix.push('{') + old_part + " =>"@, " => "@),
        !old_part.contains('{'),
        !new_part.contains('}'),
        old_part.len() > 0,
        new_part.len() > 0,
    ensures
        rename_of(prefix.push('{') + old_part + " => "@ + (new_part.push('}') + suffix)) == Some(
            (prefix + old_part + suffix, prefix + new_part + suffix),
        ),
{
    law_brace_rename_reads_back(prefix, old_part, new_part, suffix);
}

/// Where a file is moved into a folder or out of one, the side without the folder has one slash
/// in the place of the braces.
pub proof fn law_missing_folder_leaves_one_slash(
    above: Seq<char>,
    folder: Seq<char>,
    below: Seq<char>,
)
    requires
        folder.len() > 0,
        !folder.contains('{'),
        !folder.contains('}'),
        !contains(above.push('/').push('{') + folder + " =>"@, " => "@),
        !contains(above.push('/').push('{') + " =>"@, " => "@),
    ensures
        rename_of(above.push('/').push('{') + folder + " => "@ + (seq!['}', '/'] + below)) == Some(
            (
                above + seq!['/'] + folder + seq!['/'] + below,
                above + seq!['/'] + below,
            ),
        ),
        rename_of(
            above.push('/').push('{') + " => "@ + (folder + seq!['}', '/'] + below),
        ) == Some(
            (
                above + seq!['/'] + below,
                above + seq!['/'] + folder + seq!['/'] + below,
            ),
        ),
{
    let none = Seq::<char>::empty();
    let p = above.push('/');
    let s = seq!['/'] + below;
    assert(p.push('{') + none =~= p.push('{'));
    law_brace_rename_reads_back(p, folder, none, s);
    law_brace_rename_reads_back(p, none, folder, s);
    assert(none.push('}') + s =~= seq!['}', '/'] + below);
    assert(folder.push('}') + s =~= folder + seq!['}', '/'] + below);
    assert(p + folder + s =~= above + seq!['/'] + folder + seq!['/'] + below);
    assert(p + s.skip(1) =~= above + seq!['/'] + below);
}

/// Where no slash stands on one side of the braces, an empty side leaves the common parts as they
/// are.
pub proof fn law_empty_side_joins_the_common_parts(
    prefix: Seq<char>,
    part: Seq<char>,
    suffix: Seq<char>,
)
    requires
        part.len() > 0,
        !part.contains('{'),
        !part.contains('}'),
        !contains(prefix.push('{') + part + " =>"@, " => "@),
        !contains(prefix.push('{') + " =>"@, " => "@),
        prefix.len() == 0 || prefix.last() != '/' || suffix.len() == 0 || suffix[0] != '/',
    ensures
        rename_of(prefix.push('{') + part + " => "@ + (seq!['}'] + suffix)) == Some(
            (prefix + part + suffix, prefix + suffix),
        ),
        rename_of(prefix.push('{') + " => "@ + (part + seq!['}'] + suffix)) == Some(
            (prefix + suffix, prefix + part + suffix),
        ),
{
    let none = Seq::<char>::empty();
    assert(prefix.push('{') + none =~= prefix.push('{'));
    law_brace_rename_reads_back(prefix, part, none, suffix);
    law_brace_rename_reads_back(prefix, none, part, suffix);
    assert(none.push('}') + suffix =~= seq!['}'] + suffix);
    assert(part.push('}') + suffix =~= part + seq!['}'] + suffix);
    assert(prefix + none + suffix =~= prefix + suffix);
}

/// The characters that need no quotes are the letters and digits of ASCII, the underscore, the
/// hyphen, the full stop and the slash.
pub proof fn law_plain_characters(c: char)
    ensures
        is_plain(c) <==> {
            let code = c as int;
            ||| 45 <= code <= 57
            ||| 65 <= code <= 90
            ||| code == 95
            ||| 97 <= code <= 122
        },
{
}

/// A text of plain characters is not quoted. Any other stands between single quotes.
pub proof fn law_only_plain_texts_go_without_quotes(s: Seq<char>)
    ensures
        s.len() > 0 && (forall|i: int| 0 <= i < s.len() ==> is_plain(#[trigger] s[i])) ==> quoted(s)
            == s,
        s.len() == 0 || !(forall|i: int| 0 <= i < s.len() ==> is_plain(#[trigger] s[i])) ==> {
            &&& quoted(s).len() >= s.len() + 2
            &&& quoted(s)[0] == '\''
            &&& quoted(s).last() == '\''
        },
        !s.contains('\'') && (exists|i: int| 0 <= i < s.len() && !is_plain(#[trigger] s[i]))
            ==> quoted(s) == seq!['\''] + s + seq!['\''],
{
    reveal_strlit("'");
    assert("'"@ =~= seq!['\'']);
    lemma_escaped_length(s);
}

/// Escaping loses no character, and changes nothing without single quotes.
proof fn lemma_escaped_length(s: Seq<char>)
    ensures
        escaped(s).len() >= s.len(),
        !s.contains('\'') ==> escaped(s) == s,
    decreases s.len(),
{
    reveal_strlit("'\\''");
    if s.len() == 0 {
        assert(escaped(s) =~= s);
    } else {
        let d = s.drop_last();
        lemma_escaped_length(d);
        if !s.contains('\'') {
            assert(s[s.len() - 1] != '\'');
            if d.contains('\'') {
                let k = choose|k: int| 0 <= k < d.len() && d[k] == '\'';
                assert(s[k] == '\'');
            }
            assert(d.push(s.last()) =~= s);
        }
    }
}

} // verus!

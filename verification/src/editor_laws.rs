//! What holds of every editor command.

use crate::editor::{
    changed_line, command_words, config_file, filled, first_hunk, hunk_digits, is_change,
    leading_digits, lines_before_change, open_diff_argv, or_else, setting, setting_of, template,
};
use crate::number::{
    all_digits, decimal, digits_value, lemma_decimal, lemma_digits_are_decimal,
};
use crate::stats::or_zero;
use crate::text::{
    find_char, is_digit, is_space, lemma_find_char_from, lines, starts_with, trim, trim_end,
    trim_start, words,
};
use vstd::prelude::*;

verus! {

/// Text behind white space starts a new word.
proof fn lemma_words_append(a: Seq<char>, c: char, b: Seq<char>)
    requires
        is_space(c),
    ensures
        words(a.push(c) + b) == words(a) + words(b),
    decreases b.len(),
{
    let s = a.push(c) + b;
    if b.len() == 0 {
        assert(s =~= a.push(c));
        assert(s.drop_last() =~= a);
        assert(words(a) + words(b) =~= words(a));
    } else {
        let d = b.drop_last();
        lemma_words_append(a, c, d);
        assert(s.drop_last() =~= a.push(c) + d);
        let before = words(a.push(c) + d);
        if is_space(b.last()) {
        } else if b.len() >= 2 && !is_space(b[b.len() - 2]) {
            assert(s[s.len() - 2] == b[b.len() - 2]);
            lemma_ends_with_word(d);
            assert(before.last() == words(d).last());
            assert(before.drop_last().push(before.last().push(b.last())) =~= words(a) + words(b));
        } else {
            assert(s[s.len() - 2] == if b.len() >= 2 {
                b[b.len() - 2]
            } else {
                c
            });
            assert(before.push(seq![b.last()]) =~= words(a) + words(b));
        }
    }
}

/// A text that does not end with white space has words.
proof fn lemma_ends_with_word(s: Seq<char>)
    requires
        s.len() > 0,
        !is_space(s.last()),
    ensures
        words(s).len() > 0,
    decreases s.len(),
{
    if s.len() >= 2 && !is_space(s[s.len() - 2]) {
        lemma_ends_with_word(s.drop_last());
    }
}

/// A text without white space is one word.
proof fn lemma_one_word(w: Seq<char>)
    requires
        w.len() > 0,
        forall|i: int| 0 <= i < w.len() ==> !is_space(#[trigger] w[i]),
    ensures
        words(w) == seq![w],
    decreases w.len(),
{
    assert(!is_space(w[w.len() - 1]));
    let d = w.drop_last();
    if w.len() == 1 {
        assert(words(d) =~= Seq::empty());
        assert(seq![w.last()] =~= w);
        assert(words(w) =~= seq![w]);
    } else {
        assert forall|i: int| 0 <= i < d.len() implies !is_space(#[trigger] d[i]) by {
            assert(!is_space(w[i]));
        }
        lemma_one_word(d);
        assert(!is_space(w[w.len() - 2]));
        assert(d.push(w.last()) =~= w);
        assert(words(w) =~= seq![w]);
    }
}

/// Every word is a run of characters that are no white space, and none is empty.
pub proof fn law_words_hold_no_space(s: Seq<char>)
    ensures
        forall|i: int|
            #![trigger words(s)[i]]
            0 <= i < words(s).len() ==> words(s)[i].len() > 0 && forall|k: int|
                0 <= k < words(s)[i].len() ==> !is_space(#[trigger] words(s)[i][k]),
    decreases s.len(),
{
    if s.len() > 0 {
        let d = s.drop_last();
        law_words_hold_no_space(d);
        let a = words(d);
        let b = words(s);
        if s.len() >= 2 && !is_space(s[s.len() - 2]) {
            lemma_ends_with_word(d);
        }
        assert forall|i: int|
            #![trigger b[i]]
            0 <= i < b.len() implies b[i].len() > 0 && forall|k: int|
            0 <= k < b[i].len() ==> !is_space(#[trigger] b[i][k]) by {
            if i < a.len() {
                if i < b.len() - 1 || is_space(s.last()) {
                    assert(b[i] == a[i]);
                } else if b.len() == a.len() {
                    assert(a[i] == a.last());
                    assert(b[i] == a.last().push(s.last()));
                } else {
                    assert(b[i] == a[i]);
                }
            }
        }
    }
}

/// Without a configured editor, the user's own is run, with the line behind a plus sign and then
/// the file as its last two arguments.
pub proof fn law_default_editor_command(
    config: Seq<char>,
    visual: Seq<char>,
    editor: Seq<char>,
    file: Seq<char>,
    line: Seq<char>,
)
    requires
        setting_of(lines(config), "editor"@).len() == 0,
    ensures
        ({
            let own = or_else(visual, or_else(editor, "vi"@));
            command_words(template(config, visual, editor), file, line) == command_words(
                own,
                file,
                line,
            ) + seq![seq!['+'] + line, file]
        }),
{
    let own = or_else(visual, or_else(editor, "vi"@));
    let t = template(config, visual, editor);
    reveal_strlit(" +$line $file");
    reveal_strlit("$file");
    reveal_strlit("$line");
    let tail = " +$line $file"@;
    let w1 = seq!['+'] + "$line"@;
    let w2 = "$file"@;
    let both = w1.push(' ') + w2;
    assert(t =~= own.push(' ') + both) by {
        assert(tail =~= seq![' '] + both);
    }
    lemma_words_append(own, ' ', both);
    lemma_words_append(w1, ' ', w2);
    assert forall|i: int| 0 <= i < w1.len() implies !is_space(#[trigger] w1[i]) by {}
    assert forall|i: int| 0 <= i < w2.len() implies !is_space(#[trigger] w2[i]) by {}
    lemma_one_word(w1);
    lemma_one_word(w2);
    assert(words(t) =~= words(own) + seq![w1, w2]);
    assert(filled(w2, file, line) =~= file) by {
        assert(w2.subrange(0, 5) =~= w2);
        assert(starts_with(w2, "$file"@));
        assert(w2.skip(5) =~= Seq::empty());
        assert(filled(w2.skip(5), file, line) == Seq::<char>::empty());
    }
    assert(filled(w1, file, line) =~= seq!['+'] + line) by {
        assert(w1.subrange(0, 5)[0] == '+');
        assert("$file"@[0] == '$' && "$line"@[0] == '$');
        let l = "$line"@;
        assert(w1.skip(1) =~= l);
        assert(l.subrange(0, 5) =~= l);
        assert(l.subrange(0, 5)[1] == 'l');
        assert("$file"@[1] == 'f');
        assert(starts_with(l, "$line"@));
        assert(l.skip(5) =~= Seq::empty());
        assert(filled(l.skip(5), file, line) == Seq::<char>::empty());
        assert(filled(l, file, line) =~= line);
    }
    assert(command_words(t, file, line) =~= command_words(own, file, line) + seq![
        seq!['+'] + line,
        file,
    ]);
}

/// A configured editor is run as configured, whatever the environment says.
pub proof fn law_configured_editor_prevails(
    config: Seq<char>,
    visual: Seq<char>,
    editor: Seq<char>,
    file: Seq<char>,
    line: Seq<char>,
)
    requires
        setting_of(lines(config), "editor"@).len() > 0,
    ensures
        command_words(template(config, visual, editor), file, line) == command_words(
            setting_of(lines(config), "editor"@),
            file,
            line,
        ),
{
}

/// The command has as many words as its template: nothing that is put in for `$file` or `$line`
/// is split, whatever it holds. A word without `$` stays as it is.
pub proof fn law_template_words_stay_whole(t: Seq<char>, file: Seq<char>, line: Seq<char>)
    ensures
        command_words(t, file, line).len() == words(t).len(),
        forall|i: int|
            #![trigger command_words(t, file, line)[i]]
            0 <= i < words(t).len() && !words(t)[i].contains('$') ==> command_words(
                t,
                file,
                line,
            )[i] == words(t)[i],
{
    let r = command_words(t, file, line);
    assert forall|i: int|
        #![trigger r[i]]
        0 <= i < words(t).len() && !words(t)[i].contains('$') implies r[i] == words(t)[i] by {
        lemma_filled_plain(words(t)[i], file, line);
    }
}

/// A word without `$` stays as it is.
proof fn lemma_filled_plain(w: Seq<char>, file: Seq<char>, line: Seq<char>)
    requires
        !w.contains('$'),
    ensures
        filled(w, file, line) == w,
    decreases w.len(),
{
    reveal_strlit("$file");
    reveal_strlit("$line");
    if w.len() > 0 {
        assert(w[0] != '$') by {
            if w[0] == '$' {
                assert(w.contains('$'));
            }
        }
        if w.len() >= 5 {
            assert(w.subrange(0, 5)[0] == w[0]);
            assert("$file"@[0] == '$' && "$line"@[0] == '$');
        }
        let d = w.skip(1);
        assert(!d.contains('$')) by {
            if d.contains('$') {
                let k = choose|k: int| 0 <= k < d.len() && d[k] == '$';
                assert(w[k + 1] == '$');
            }
        }
        lemma_filled_plain(d, file, line);
        assert(seq![w[0]] + d =~= w);
    } else {
        assert(w =~= Seq::empty());
    }
}

/// The line at which a file is opened is a number, for every diff.
pub proof fn law_line_is_a_number(diff: Seq<char>)
    ensures
        changed_line(diff).len() > 0,
        all_digits(changed_line(diff)),
{
    reveal_strlit("1");
    assert("1"@[0] == '1');
    if let Some(hunk) = first_hunk(lines(diff)) {
        lemma_decimal(
            digits_value(hunk_digits(hunk[0])) + or_zero(lines_before_change(hunk.skip(1))),
        );
        lemma_hunk_digits(hunk[0]);
    }
}

/// The start in a hunk header is digits alone.
proof fn lemma_hunk_digits(hunk: Seq<char>)
    ensures
        all_digits(hunk_digits(hunk)),
{
    if let Some(i) = find_char(hunk, '+') {
        lemma_leading_digits(hunk.skip(i + 1));
    }
}

/// Leading digits are digits.
proof fn lemma_leading_digits(s: Seq<char>)
    ensures
        all_digits(leading_digits(s)),
    decreases s.len(),
{
    if s.len() > 0 && is_digit(s[0]) {
        lemma_leading_digits(s.skip(1));
        let r = leading_digits(s);
        let d = leading_digits(s.skip(1));
        assert forall|i: int| 0 <= i < r.len() implies is_digit(#[trigger] r[i]) by {
            if i > 0 {
                assert(r[i] == d[i - 1]);
            }
        }
    }
}

/// The line at which a file is opened is the first that the diff changes: as many lines behind
/// the start of the first hunk as unchanged lines stand in front of the change. It is written in
/// decimal notation, but for a start with leading zeros at which the change itself stands.
pub proof fn law_line_is_the_first_changed(
    diff: Seq<char>,
    intro: Seq<Seq<char>>,
    hunk: Seq<char>,
    context: Seq<Seq<char>>,
    change: Seq<char>,
    rest: Seq<Seq<char>>,
)
    requires
        lines(diff) == intro + seq![hunk] + context + seq![change] + rest,
        forall|i: int| 0 <= i < intro.len() ==> !starts_with(#[trigger] intro[i], "@@"@),
        starts_with(hunk, "@@"@),
        hunk_digits(hunk).len() > 0,
        forall|i: int| 0 <= i < context.len() ==> !is_change(#[trigger] context[i]),
        is_change(change),
    ensures
        digits_value(changed_line(diff)) == digits_value(hunk_digits(hunk)) + context.len(),
        context.len() > 0 || hunk_digits(hunk)[0] != '0' ==> changed_line(diff) == decimal(
            digits_value(hunk_digits(hunk)) + context.len(),
        ),
{
    let body = context + seq![change] + rest;
    let from_hunk = seq![hunk] + body;
    assert(lines(diff) =~= intro + from_hunk);
    lemma_first_hunk(intro, from_hunk);
    assert(from_hunk.skip(1) =~= body);
    assert(body =~= context + (seq![change] + rest));
    lemma_lines_before_change(context, seq![change] + rest);
    lemma_decimal(digits_value(hunk_digits(hunk)) + context.len());
    lemma_hunk_digits(hunk);
    if hunk_digits(hunk)[0] != '0' {
        lemma_digits_are_decimal(hunk_digits(hunk));
    }
}

/// Lines in front of the first hunk header are passed over.
proof fn lemma_first_hunk(intro: Seq<Seq<char>>, from_hunk: Seq<Seq<char>>)
    requires
        forall|i: int| 0 <= i < intro.len() ==> !starts_with(#[trigger] intro[i], "@@"@),
        from_hunk.len() > 0,
        starts_with(from_hunk[0], "@@"@),
    ensures
        first_hunk(intro + from_hunk) == Some(from_hunk),
    decreases intro.len(),
{
    let all = intro + from_hunk;
    if intro.len() == 0 {
        assert(all =~= from_hunk);
    } else {
        assert(all[0] == intro[0]);
        let d = intro.skip(1);
        assert forall|i: int| 0 <= i < d.len() implies !starts_with(#[trigger] d[i], "@@"@) by {
            assert(d[i] == intro[i + 1]);
        }
        lemma_first_hunk(d, from_hunk);
        assert(all.skip(1) =~= d + from_hunk);
    }
}

/// Unchanged lines in front of a change are counted.
proof fn lemma_lines_before_change(context: Seq<Seq<char>>, from_change: Seq<Seq<char>>)
    requires
        forall|i: int| 0 <= i < context.len() ==> !is_change(#[trigger] context[i]),
        from_change.len() > 0,
        is_change(from_change[0]),
    ensures
        lines_before_change(context + from_change) == Some(context.len()),
    decreases context.len(),
{
    let all = context + from_change;
    if context.len() == 0 {
        assert(all =~= from_change);
    } else {
        assert(all[0] == context[0]);
        let d = context.skip(1);
        assert forall|i: int| 0 <= i < d.len() implies !is_change(#[trigger] d[i]) by {
            assert(d[i] == context[i + 1]);
        }
        lemma_lines_before_change(d, from_change);
        assert(all.skip(1) =~= d + from_change);
    }
}

/// A line `key = value` of the configuration gives `value` to `key`.
pub proof fn law_setting_reads_back(key: Seq<char>, value: Seq<char>)
    requires
        key.len() > 0,
        key[0] != '#',
        !key.contains('='),
        !is_space(key[0]),
        !is_space(key.last()),
        value.len() > 0,
        !is_space(value[0]),
        !is_space(value.last()),
    ensures
        setting(key + " = "@ + value) == Some((key, value)),
{
    reveal_strlit(" = ");
    let s = key + " = "@ + value;
    let at = key.len() + 1int;
    assert(s[0] == key[0] && s.last() == value.last());
    assert(trim(s) == s);
    lemma_find_char_from(s, '=', 0);
    assert(s[at] == '=');
    let i = find_char(s, '=')->0;
    if i < key.len() {
        assert(key[i] == '=');
    } else {
        assert(s[key.len() as int] == ' ');
    }
    let left = s.take(at);
    assert(left =~= key.push(' '));
    assert(left.drop_last() =~= key);
    assert(trim_start(left) == left);
    assert(trim_end(left) == trim_end(key));
    let right = s.skip(at + 1);
    assert(right =~= seq![' '] + value);
    assert(right.skip(1) =~= value);
    assert(trim_start(right) == trim_start(value));
}

/// Of two lines for one key the last prevails, and lines for other keys play no part.
pub proof fn law_last_setting_prevails(ls: Seq<Seq<char>>, line: Seq<char>, key: Seq<char>)
    ensures
        setting_of(ls.push(line), key) == match setting(line) {
            Some((k, v)) => if k == key {
                v
            } else {
                setting_of(ls, key)
            },
            None => setting_of(ls, key),
        },
{
    assert(ls.push(line).drop_last() == ls);
}

/// A diff without a hunk header, or with a first one that gives no start, opens at line 1.
pub proof fn law_line_is_one_without_a_start(
    diff: Seq<char>,
    intro: Seq<Seq<char>>,
    hunk: Seq<char>,
    rest: Seq<Seq<char>>,
)
    requires
        forall|i: int| 0 <= i < intro.len() ==> !starts_with(#[trigger] intro[i], "@@"@),
    ensures
        lines(diff) == intro ==> changed_line(diff) == "1"@,
        lines(diff) == intro + seq![hunk] + rest && starts_with(hunk, "@@"@) && hunk_digits(
            hunk,
        ).len() == 0 ==> changed_line(diff) == "1"@,
{
    lemma_no_hunk(intro);
    if lines(diff) == intro + seq![hunk] + rest && starts_with(hunk, "@@"@) {
        let from_hunk = seq![hunk] + rest;
        assert(lines(diff) =~= intro + from_hunk);
        lemma_first_hunk(intro, from_hunk);
    }
}

/// Lines without a hunk header hold no hunk.
proof fn lemma_no_hunk(ls: Seq<Seq<char>>)
    requires
        forall|i: int| 0 <= i < ls.len() ==> !starts_with(#[trigger] ls[i], "@@"@),
    ensures
        first_hunk(ls) is None,
    decreases ls.len(),
{
    if ls.len() > 0 {
        let d = ls.skip(1);
        assert(!starts_with(ls[0], "@@"@));
        assert forall|i: int| 0 <= i < d.len() implies !starts_with(#[trigger] d[i], "@@"@) by {
            assert(d[i] == ls[i + 1]);
        }
        lemma_no_hunk(d);
    }
}

/// The start of a hunk is the digits behind the first plus sign of its header.
pub proof fn law_start_stands_behind_the_plus_sign(
    before: Seq<char>,
    digits: Seq<char>,
    after: Seq<char>,
    bare: Seq<char>,
)
    requires
        !before.contains('+'),
        all_digits(digits),
        after.len() == 0 || !is_digit(after[0]),
        !bare.contains('+'),
    ensures
        hunk_digits(before + seq!['+'] + digits + after) == digits,
        hunk_digits(bare).len() == 0,
{
    let s = before + seq!['+'] + digits + after;
    let at = before.len() as int;
    assert(s[at] == '+');
    lemma_find_char_from(s, '+', 0);
    let i = find_char(s, '+')->0;
    if i < at {
        assert(before[i] == '+');
    }
    assert(s.skip(at + 1) =~= digits + after);
    lemma_leading_run(digits, after);
    lemma_find_char_from(bare, '+', 0);
    if let Some(k) = find_char(bare, '+') {
        assert(bare[k] == '+');
    }
}

/// Leading digits are all there are up to the first character that is none.
proof fn lemma_leading_run(digits: Seq<char>, after: Seq<char>)
    requires
        all_digits(digits),
        after.len() == 0 || !is_digit(after[0]),
    ensures
        leading_digits(digits + after) == digits,
    decreases digits.len(),
{
    let s = digits + after;
    if digits.len() == 0 {
        assert(s =~= after);
        assert(digits =~= Seq::empty());
    } else {
        assert(is_digit(digits[0]));
        let d = digits.skip(1);
        assert forall|i: int| 0 <= i < d.len() implies is_digit(#[trigger] d[i]) by {
            assert(is_digit(digits[i + 1]));
        }
        lemma_leading_run(d, after);
        assert(s.skip(1) =~= d + after);
        assert(seq![s[0]] + d =~= digits);
    }
}

/// A line of a hunk is a change exactly where it begins with a plus or a minus sign.
pub proof fn law_changes_begin_with_a_sign(c: char, rest: Seq<char>)
    ensures
        is_change(seq![c] + rest) <==> c == '+' || c == '-',
        !is_change(Seq::empty()),
{
}

/// Blank lines, comments and lines without an equals sign set nothing.
pub proof fn law_other_lines_set_nothing(line: Seq<char>)
    ensures
        trim(line).len() == 0 ==> setting(line) is None,
        trim(line).len() > 0 && trim(line)[0] == '#' ==> setting(line) is None,
        !trim(line).contains('=') ==> setting(line) is None,
        setting_of(Seq::empty(), line).len() == 0,
{
    let t = trim(line);
    lemma_find_char_from(t, '=', 0);
    if let Some(i) = find_char(t, '=') {
        assert(t[i] == '=');
        assert(t.contains('='));
    }
}

/// The value of a setting is all that stands behind the first equals sign, trimmed, and its key
/// what stands before.
pub proof fn law_setting_is_cut_at_the_first_equals_sign(
    line: Seq<char>,
    key: Seq<char>,
    value: Seq<char>,
)
    requires
        trim(line) == key + seq!['='] + value,
        !key.contains('='),
        trim(line)[0] != '#',
    ensures
        setting(line) == Some((trim(key), trim(value))),
{
    let t = trim(line);
    let at = key.len() as int;
    assert(t[at] == '=');
    lemma_find_char_from(t, '=', 0);
    let i = find_char(t, '=')->0;
    if i < at {
        assert(key[i] == '=');
    }
    assert(t.take(at) =~= key);
    assert(t.skip(at + 1) =~= value);
}

/// Every `$file` in a word becomes the file and every `$line` the line; what stands before stays,
/// and what stands behind is filled in the same way.
pub proof fn law_placeholders_are_filled(
    before: Seq<char>,
    after: Seq<char>,
    file: Seq<char>,
    line: Seq<char>,
)
    requires
        !before.contains('$'),
    ensures
        filled(before + "$file"@ + after, file, line) == before + file + filled(after, file, line),
        filled(before + "$line"@ + after, file, line) == before + line + filled(after, file, line),
        filled(before, file, line) == before,
    decreases before.len(),
{
    reveal_strlit("$file");
    reveal_strlit("$line");
    lemma_filled_plain(before, file, line);
    let f = before + "$file"@ + after;
    let l = before + "$line"@ + after;
    if before.len() == 0 {
        assert(f.subrange(0, 5) =~= "$file"@);
        assert(starts_with(f, "$file"@));
        assert(f.skip(5) =~= after);
        assert(l.subrange(0, 5) =~= "$line"@);
        assert(starts_with(l, "$line"@));
        assert(l.subrange(0, 5)[1] == 'l' && "$file"@[1] == 'f');
        assert(l.skip(5) =~= after);
        assert(before + file =~= file);
        assert(before + line =~= line);
    } else {
        let d = before.skip(1);
        assert(before[0] != '$') by {
            if before[0] == '$' {
                assert(before.contains('$'));
            }
        }
        assert(!d.contains('$')) by {
            if d.contains('$') {
                let k = choose|k: int| 0 <= k < d.len() && d[k] == '$';
                assert(before[k + 1] == '$');
            }
        }
        law_placeholders_are_filled(d, after, file, line);
        assert(f[0] == before[0] && l[0] == before[0]);
        assert(f.subrange(0, 5)[0] == before[0] && l.subrange(0, 5)[0] == before[0]);
        assert("$file"@[0] == '$' && "$line"@[0] == '$');
        assert(f.skip(1) =~= d + "$file"@ + after);
        assert(l.skip(1) =~= d + "$line"@ + after);
        assert(seq![before[0]] + (d + file + filled(after, file, line)) =~= before + file + filled(
            after,
            file,
            line,
        ));
        assert(seq![before[0]] + (d + line + filled(after, file, line)) =~= before + line + filled(
            after,
            file,
            line,
        ));
    }
}

/// A `$` that is followed neither by `file` nor by `line` stays.
pub proof fn law_other_dollars_stay(rest: Seq<char>, file: Seq<char>, line: Seq<char>)
    requires
        !starts_with(rest, "file"@),
        !starts_with(rest, "line"@),
    ensures
        filled(seq!['$'] + rest, file, line) == seq!['$'] + filled(rest, file, line),
{
    reveal_strlit("$file");
    reveal_strlit("$line");
    reveal_strlit("file");
    reveal_strlit("line");
    let s = seq!['$'] + rest;
    assert(s.skip(1) =~= rest);
    if starts_with(s, "$file"@) {
        assert(rest.subrange(0, 4) =~= s.subrange(0, 5).skip(1));
        assert("$file"@.skip(1) =~= "file"@);
    }
    if starts_with(s, "$line"@) {
        assert(rest.subrange(0, 4) =~= s.subrange(0, 5).skip(1));
        assert("$line"@.skip(1) =~= "line"@);
    }
}

/// Any white space parts words, and words keep their order.
pub proof fn law_white_space_parts_words(a: Seq<char>, c: char, b: Seq<char>, w: Seq<char>)
    requires
        is_space(c),
        w.len() > 0,
        forall|i: int| 0 <= i < w.len() ==> !is_space(#[trigger] w[i]),
    ensures
        words(a.push(c) + b) == words(a) + words(b),
        words(w) == seq![w],
        words(Seq::empty()).len() == 0,
{
    lemma_words_append(a, c, b);
    lemma_one_word(w);
}

/// The user's editor is the first of `VISUAL` and `EDITOR` that says something, else `vi`.
pub proof fn law_own_editor(config: Seq<char>, visual: Seq<char>, editor: Seq<char>)
    requires
        setting_of(lines(config), "editor"@).len() == 0,
    ensures
        visual.len() > 0 ==> template(config, visual, editor) == visual + " +$line $file"@,
        visual.len() == 0 && editor.len() > 0 ==> template(config, visual, editor) == editor
            + " +$line $file"@,
        visual.len() == 0 && editor.len() == 0 ==> template(config, visual, editor) == "vi"@
            + " +$line $file"@,
{
    reveal_strlit(" +$line $file");
}

/// The configuration stands below the directory for configurations, or below the one in the home
/// directory where there is none.
pub proof fn law_place_of_the_configuration(xdg: Seq<char>, home: Seq<char>)
    ensures
        xdg.len() > 0 ==> config_file(xdg, home) == xdg + "/diffview/config"@,
        config_file(Seq::empty(), home) == home + "/.config/diffview/config"@,
{
    reveal_strlit("/.config");
    reveal_strlit("/diffview/config");
    reveal_strlit("/.config/diffview/config");
    assert("/.config"@ + "/diffview/config"@ =~= "/.config/diffview/config"@);
    assert(config_file(Seq::empty(), home) =~= home + "/.config/diffview/config"@);
}

/// `git` is asked for the diff of the file against the target, with the whitespace option where
/// there is one.
pub proof fn law_diff_of_the_file_is_asked_for(ws: Seq<char>, target: Seq<char>, file: Seq<char>)
    ensures
        open_diff_argv(Seq::empty(), target, file) == seq!["diff"@, target, "--"@, file],
        ws.len() > 0 ==> open_diff_argv(ws, target, file) == seq!["diff"@, ws, target, "--"@, file],
{
}

} // verus!

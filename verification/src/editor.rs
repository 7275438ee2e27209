//! Which editor is started on a file, and at which line.

use crate::number::{all_digits, decimal, digits_plus, digits_value};
use crate::stats::or_zero;
use crate::text::{
    begins_with, chars_of, find_char, is_digit, lines, lines_of, piece, position_of_char, same,
    stands_at, starts_with, strings, texts, trim, trimmed, words, words_of,
};
use vstd::prelude::*;
use vstd::string::*;

verus! {

/// The longest run of digits at the beginning of `s`.
pub open spec fn leading_digits(s: Seq<char>) -> Seq<char>
    decreases s.len(),
{
    if s.len() > 0 && is_digit(s[0]) {
        seq![s[0]] + leading_digits(s.skip(1))
    } else {
        Seq::empty()
    }
}

/// The lines `ls` of a diff from the first hunk header on.
pub open spec fn first_hunk(ls: Seq<Seq<char>>) -> Option<Seq<Seq<char>>>
    decreases ls.len(),
{
    if ls.len() == 0 {
        None
    } else if starts_with(ls[0], "@@"@) {
        Some(ls)
    } else {
        first_hunk(ls.skip(1))
    }
}

/// Whether a line of a hunk was added or removed.
pub open spec fn is_change(line: Seq<char>) -> bool {
    line.len() > 0 && (line[0] == '+' || line[0] == '-')
}

/// How many of the lines `body` stand before the first that was added or removed, where there
/// is one.
pub open spec fn lines_before_change(body: Seq<Seq<char>>) -> Option<nat>
    decreases body.len(),
{
    if body.len() == 0 {
        None
    } else if is_change(body[0]) {
        Some(0)
    } else {
        match lines_before_change(body.skip(1)) {
            Some(n) => Some(n + 1),
            None => None,
        }
    }
}

/// The digits behind the first plus sign of a hunk header.
pub open spec fn hunk_digits(hunk: Seq<char>) -> Seq<char> {
    match find_char(hunk, '+') {
        Some(i) => leading_digits(hunk.skip(i + 1)),
        None => Seq::empty(),
    }
}

/// The line at which a file with the diff `diff` is opened: the first that was changed, or 1.
/// It is counted from the start that the first hunk header gives. Where the hunk opens with the
/// change, or no change follows the header, it is that start, in the digits of the header.
pub open spec fn changed_line(diff: Seq<char>) -> Seq<char> {
    match first_hunk(lines(diff)) {
        None => "1"@,
        Some(hunk) => {
            let start = hunk_digits(hunk[0]);
            let before = or_zero(lines_before_change(hunk.skip(1)));
            if start.len() == 0 {
                "1"@
            } else if before == 0 {
                start
            } else {
                decimal(digits_value(start) + before)
            }
        },
    }
}

/// The key and the value on one line of the configuration. Blank lines, comments and lines
/// without `=` hold none.
pub open spec fn setting(line: Seq<char>) -> Option<(Seq<char>, Seq<char>)> {
    let t = trim(line);
    if t.len() == 0 || t[0] == '#' {
        None
    } else {
        match find_char(t, '=') {
            Some(i) => Some((trim(t.take(i)), trim(t.skip(i + 1)))),
            None => None,
        }
    }
}

/// The value that the lines `ls` of the configuration give to `key`. The last one prevails.
pub open spec fn setting_of(ls: Seq<Seq<char>>, key: Seq<char>) -> Seq<char>
    decreases ls.len(),
{
    if ls.len() == 0 {
        Seq::empty()
    } else {
        match setting(ls.last()) {
            Some((k, v)) => if k == key {
                v
            } else {
                setting_of(ls.drop_last(), key)
            },
            None => setting_of(ls.drop_last(), key),
        }
    }
}

/// The first of the texts that is not empty, else the last.
pub open spec fn or_else(a: Seq<char>, b: Seq<char>) -> Seq<char> {
    if a.len() == 0 {
        b
    } else {
        a
    }
}

/// The command template: what the configuration says, or the user's editor with the line as a
/// `+` argument.
pub open spec fn template(config: Seq<char>, visual: Seq<char>, editor: Seq<char>) -> Seq<char> {
    or_else(
        setting_of(lines(config), "editor"@),
        or_else(visual, or_else(editor, "vi"@)) + " +$line $file"@,
    )
}

/// `word` with `$file` and `$line` replaced.
pub open spec fn filled(word: Seq<char>, file: Seq<char>, line: Seq<char>) -> Seq<char>
    decreases word.len(),
{
    if word.len() == 0 {
        Seq::empty()
    } else if word.len() >= 5 && starts_with(word, "$file"@) {
        file + filled(word.skip(5), file, line)
    } else if word.len() >= 5 && starts_with(word, "$line"@) {
        line + filled(word.skip(5), file, line)
    } else {
        seq![word[0]] + filled(word.skip(1), file, line)
    }
}

/// The words of the template `t`, each with `$file` and `$line` replaced.
pub open spec fn command_words(t: Seq<char>, file: Seq<char>, line: Seq<char>) -> Seq<Seq<char>> {
    words(t).map_values(|w: Seq<char>| filled(w, file, line))
}

/// The arguments of the `git` call whose output `cmd_open` takes.
pub open spec fn open_diff_argv(ws: Seq<char>, target: Seq<char>, file: Seq<char>) -> Seq<
    Seq<char>,
> {
    if ws.len() == 0 {
        seq!["diff"@, target, "--"@, file]
    } else {
        seq!["diff"@, ws, target, "--"@, file]
    }
}

/// Where the configuration stands: below `xdg` where that is set, else below `home`.
pub open spec fn config_file(xdg: Seq<char>, home: Seq<char>) -> Seq<char> {
    or_else(xdg, home + "/.config"@) + "/diffview/config"@
}

/// The arguments of the `git` call whose output `cmd_open` takes.
pub fn open_diff_args(ws: &str, target: &str, file: &str) -> (r: Vec<String>)
    ensures
        texts(r@) == open_diff_argv(ws@, target@, file@),
{
    if ws.is_empty() {
        let r = strings(&["diff", target, "--", file]);
        assert(texts(r@) =~= open_diff_argv(ws@, target@, file@));
        r
    } else {
        let r = strings(&["diff", ws, target, "--", file]);
        assert(texts(r@) =~= open_diff_argv(ws@, target@, file@));
        r
    }
}

/// Where the configuration stands. `xdg` and `home` are the environment's `XDG_CONFIG_HOME`
/// and `HOME`, or nothing.
pub fn config_path(xdg: &str, home: &str) -> (r: String)
    ensures
        r@ == config_file(xdg@, home@),
{
    let mut r = if xdg.is_empty() {
        let mut h = home.to_owned();
        h.append("/.config");
        h
    } else {
        xdg.to_owned()
    };
    r.append("/diffview/config");
    r
}

/// The digits behind the first plus sign of a hunk header.
fn start_digits(hunk: &str) -> (r: Vec<char>)
    ensures
        r@ == hunk_digits(hunk@),
        all_digits(r@),
{
    let cs = chars_of(hunk);
    let n: usize = cs.len();
    let mut r: Vec<char> = Vec::new();
    match position_of_char(&cs, '+', 0) {
        None => r,
        Some(at) => {
            let mut j: usize = at + 1;
            let ghost rest = cs@.skip(at + 1);
            assert(leading_digits(rest) == r@ + leading_digits(cs@.skip(j as int)));
            while j < n && '0' <= cs[j] && cs[j] <= '9'
                invariant
                    n == cs@.len(),
                    j <= n,
                    all_digits(r@),
                    leading_digits(rest) == r@ + leading_digits(cs@.skip(j as int)),
                decreases n - j,
            {
                let ghost tail = leading_digits(cs@.skip(j + 1));
                assert(cs@.skip(j as int).skip(1) == cs@.skip(j + 1));
                assert(r@ + (seq![cs@[j as int]] + tail) == r@.push(cs@[j as int]) + tail);
                r.push(cs[j]);
                j += 1;
            }
            assert(leading_digits(rest) == r@);
            r
        },
    }
}

/// How many of the lines `ls[from..]` stand before the first that was added or removed; none
/// where no line was.
fn count_before_change(ls: &Vec<String>, from: usize) -> (r: usize)
    requires
        from <= ls@.len(),
    ensures
        r == or_zero(lines_before_change(texts(ls@).skip(from as int))),
{
    let ghost all = texts(ls@);
    let mut i: usize = from;
    while i < ls.len()
        invariant
            all == texts(ls@),
            from <= i <= ls@.len(),
            lines_before_change(all.skip(from as int)) == (match lines_before_change(
                all.skip(i as int),
            ) {
                Some(n) => Some((n + (i - from)) as nat),
                None => None,
            }),
        decreases ls@.len() - i,
    {
        assert(all.skip(i as int)[0] == ls@[i as int]@);
        assert(all.skip(i as int).skip(1) == all.skip(i + 1));
        let cs = chars_of(&ls[i]);
        if cs.len() > 0 && (cs[0] == '+' || cs[0] == '-') {
            return i - from;
        }
        i += 1;
    }
    0
}

/// The line at which a file with the diff `diff` is opened: the first that was changed, or 1.
pub fn hunk_line(diff: &str) -> (r: String)
    ensures
        r@ == changed_line(diff@),
{
    let ls = lines_of(diff);
    let ghost all = lines(diff@);
    let mut i: usize = 0;
    assert(all.skip(0) == all);
    while i < ls.len()
        invariant
            all == texts(ls@),
            all == lines(diff@),
            i <= ls@.len(),
            first_hunk(all) == first_hunk(all.skip(i as int)),
        decreases ls@.len() - i,
    {
        assert(all.skip(i as int)[0] == ls@[i as int]@);
        assert(all.skip(i as int).skip(1) == all.skip(i + 1));
        if begins_with(&ls[i], "@@") {
            let start = start_digits(&ls[i]);
            if start.len() == 0 {
                return "1".to_owned();
            }
            let before: usize = count_before_change(&ls, i + 1);
            if before == 0 {
                return piece(&start, 0, start.len());
            }
            return digits_plus(&start, before);
        }
        i += 1;
    }
    "1".to_owned()
}

/// The key and the value on one line of the configuration.
fn setting_on(line: &str) -> (r: Option<(String, String)>)
    ensures
        match r {
            Some((k, v)) => setting(line@) == Some((k@, v@)),
            None => setting(line@) is None,
        },
{
    let t = trimmed(line);
    let cs = chars_of(&t);
    let n: usize = cs.len();
    if n == 0 || cs[0] == '#' {
        return None;
    }
    match position_of_char(&cs, '=', 0) {
        None => None,
        Some(i) => {
            let k = trimmed(&piece(&cs, 0, i));
            let v = trimmed(&piece(&cs, i + 1, n));
            Some((k, v))
        },
    }
}

/// The command template that the configuration and the environment give. `visual` and `editor`
/// are the environment's `VISUAL` and `EDITOR`, or nothing.
pub fn editor_template(config: &str, visual: &str, editor: &str) -> (r: String)
    ensures
        r@ == template(config@, visual@, editor@),
{
    let ls = lines_of(config);
    let ghost all = lines(config@);
    let mut value = String::new();
    let mut i: usize = 0;
    while i < ls.len()
        invariant
            all == texts(ls@),
            i <= ls@.len(),
            value@ == setting_of(all.take(i as int), "editor"@),
        decreases ls@.len() - i,
    {
        assert(all.take(i + 1).drop_last() == all.take(i as int));
        assert(all.take(i + 1).last() == ls@[i as int]@);
        match setting_on(&ls[i]) {
            Some((k, v)) => {
                if same(&k, "editor") {
                    value = v;
                }
            },
            None => {},
        }
        i += 1;
    }
    assert(all.take(all.len() as int) == all);
    if !value.as_str().is_empty() {
        return value;
    }
    let mut r = if !visual.is_empty() {
        visual.to_owned()
    } else if !editor.is_empty() {
        editor.to_owned()
    } else {
        "vi".to_owned()
    };
    r.append(" +$line $file");
    r
}

/// `word` with `$file` and `$line` replaced.
fn fill(word: &str, file: &str, line: &str) -> (r: String)
    ensures
        r@ == filled(word@, file@, line@),
{
    let cs = chars_of(word);
    let n: usize = cs.len();
    let file_name = chars_of("$file");
    let line_name = chars_of("$line");
    proof {
        reveal_strlit("$file");
        reveal_strlit("$line");
    }
    let mut r = String::new();
    let mut i: usize = 0;
    assert(cs@.skip(0) == word@);
    while i < n
        invariant
            n == cs@.len(),
            cs@ == word@,
            file_name@ == "$file"@,
            line_name@ == "$line"@,
            "$file"@.len() == 5,
            "$line"@.len() == 5,
            i <= n,
            filled(word@, file@, line@) == r@ + filled(cs@.skip(i as int), file@, line@),
        decreases n - i,
    {
        let ghost rest = cs@.skip(i as int);
        let ghost before = r@;
        assert(n - i >= 5 ==> rest.subrange(0, 5) == cs@.subrange(i as int, i + 5));
        if stands_at(&cs, &file_name, i) {
            assert(starts_with(rest, "$file"@));
            r.append(file);
            assert(rest.skip(5) == cs@.skip(i + 5));
            assert(before + (file@ + filled(cs@.skip(i + 5), file@, line@)) == r@ + filled(
                cs@.skip(i + 5),
                file@,
                line@,
            ));
            i += 5;
        } else if stands_at(&cs, &line_name, i) {
            assert(starts_with(rest, "$line"@));
            r.append(line);
            assert(rest.skip(5) == cs@.skip(i + 5));
            assert(before + (line@ + filled(cs@.skip(i + 5), file@, line@)) == r@ + filled(
                cs@.skip(i + 5),
                file@,
                line@,
            ));
            i += 5;
        } else {
            r.push(cs[i]);
            assert(rest.skip(1) == cs@.skip(i + 1));
            assert(before + (seq![rest[0]] + filled(cs@.skip(i + 1), file@, line@)) == r@ + filled(
                cs@.skip(i + 1),
                file@,
                line@,
            ));
            i += 1;
        }
    }
    assert(filled(cs@.skip(n as int), file@, line@) == Seq::<char>::empty());
    r
}

/// The words of the template `t`, each with `$file` and `$line` replaced.
pub fn editor_command(t: &str, file: &str, line: &str) -> (r: Vec<String>)
    ensures
        texts(r@) == command_words(t@, file@, line@),
{
    let ws = words_of(t);
    let ghost all = words(t@);
    let ghost want = command_words(t@, file@, line@);
    let mut r: Vec<String> = Vec::new();
    let mut i: usize = 0;
    while i < ws.len()
        invariant
            all == texts(ws@),
            all == words(t@),
            want == command_words(t@, file@, line@),
            i <= ws@.len(),
            texts(r@) == want.take(i as int),
        decreases ws@.len() - i,
    {
        let ghost before = texts(r@);
        let w = fill(&ws[i], file, line);
        assert(all[i as int] == ws@[i as int]@);
        assert(w@ == want[i as int]);
        r.push(w);
        assert(texts(r@) == before.push(want[i as int])) by {
            broadcast use crate::text::lemma_texts_push;
        }
        assert(want.take(i + 1) == want.take(i as int).push(want[i as int]));
        i += 1;
    }
    assert(want.take(want.len() as int) == want);
    r
}

/// The command that opens `file` at its first changed line, unless targets are listed.
///
/// `diff` is the output of `git` for [`open_diff_args`], `config` the configuration, and
/// `visual` and `editor` the environment's `VISUAL` and `EDITOR`, each empty where there is none.
pub fn cmd_open(
    mode: &str,
    file: &str,
    diff: &str,
    config: &str,
    visual: &str,
    editor: &str,
) -> (r: Option<Vec<String>>)
    ensures
        r is None <==> mode@ == "target"@,
        r matches Some(c) ==> texts(c@) == command_words(
            template(config@, visual@, editor@),
            file@,
            changed_line(diff@),
        ),
{
    if same(mode, "target") {
        return None;
    }
    let line = hunk_line(diff);
    let t = editor_template(config, visual, editor);
    Some(editor_command(&t, file, &line))
}

} // verus!

//! What holds of every statistic.

use crate::number::{all_digits, decimal, law_decimal_reads_back, lemma_decimal, parse_unsigned};
use crate::stats::{
    captured, diff_stats_argv, diff_totals, is_range, newlines, numstat_counts, numstat_totals,
    shortstat_text, stats_text, sum, trailing_digits,
};
use crate::text_laws::{
    lacks, law_fields_stand_between_tabs, law_held_text_stands_between, lemma_fields,
};
use crate::text::{contains, fields, find, is_digit, lemma_find_from, lines, matches_at, split};
use vstd::prelude::*;

verus! {

/// Statistics show nothing exactly where nothing changed.
pub proof fn law_nothing_is_shown_where_nothing_changed(ins: nat, del: nat)
    ensures
        stats_text(ins, del).len() == 0 <==> ins == 0 && del == 0,
{
    reveal_strlit("+");
}

/// Digits at the end of a text are all found, up to the first character that is none.
proof fn lemma_trailing_digits(pre: Seq<char>, digits: Seq<char>)
    requires
        pre.len() == 0 || !is_digit(pre.last()),
        all_digits(digits),
    ensures
        trailing_digits(pre + digits) == digits,
    decreases digits.len(),
{
    let s = pre + digits;
    if digits.len() == 0 {
        assert(s =~= pre);
        assert(digits =~= Seq::empty());
    } else {
        let d = digits.drop_last();
        assert forall|i: int| 0 <= i < d.len() implies is_digit(#[trigger] d[i]) by {
            assert(is_digit(digits[i]));
        }
        lemma_trailing_digits(pre, d);
        assert(s.drop_last() =~= pre + d);
        assert(is_digit(digits[digits.len() - 1]));
        assert(d.push(digits.last()) =~= digits);
    }
}

/// A number that was written directly before a word is captured by that word, whatever stands
/// behind it, unless the word stands earlier.
pub proof fn law_captured_number_reads_back(
    pre: Seq<char>,
    n: nat,
    suffix: Seq<char>,
    rest: Seq<char>,
)
    requires
        n <= u64::MAX,
        pre.len() == 0 || !is_digit(pre.last()),
        suffix.len() > 0,
        !contains(pre + decimal(n) + suffix.drop_last(), suffix),
    ensures
        captured(pre + decimal(n) + suffix + rest, suffix) == Some(n),
{
    let head = pre + decimal(n);
    let s = head + suffix + rest;
    let at = head.len() as int;
    assert(s.subrange(at, at + suffix.len()) =~= suffix);
    assert(matches_at(s, suffix, at));
    lemma_find_from(s, suffix, 0);
    let i = find(s, suffix)->0;
    if i < at {
        let t = head + suffix.drop_last();
        assert(t.subrange(i, i + suffix.len()) =~= s.subrange(i, i + suffix.len()));
        assert(matches_at(t, suffix, i));
    }
    assert(s.take(at) =~= head);
    lemma_decimal(n);
    lemma_trailing_digits(pre, decimal(n));
    law_decimal_reads_back(n, u64::MAX as nat);
}

/// The lines of untracked files count as insertions, but not against a range of commits.
pub proof fn law_untracked_lines_are_insertions(
    numstat: Seq<char>,
    target: Seq<char>,
    untracked: Seq<u64>,
)
    ensures
        ({
            let without = diff_totals(numstat, target, Seq::empty());
            diff_totals(numstat, target, untracked) == if is_range(target) {
                without
            } else {
                (without.0 + sum(untracked), without.1)
            }
        }),
{
    assert(sum(Seq::<u64>::empty()) == 0);
}

/// A number in decimal notation holds digits alone.
pub proof fn lemma_decimal_lacks(n: nat, c: char)
    requires
        !is_digit(c),
    ensures
        lacks(decimal(n), c),
{
    lemma_decimal(n);
    let d = decimal(n);
    assert forall|k: int| 0 <= k < d.len() implies #[trigger] d[k] != c by {
        assert(is_digit(d[k]));
    }
}

/// Statistics hold digits and signs alone.
pub proof fn lemma_stats_lacks(ins: nat, del: nat, c: char)
    requires
        !is_digit(c),
        c != '+',
        c != '/',
        c != '-',
    ensures
        lacks(stats_text(ins, del), c),
{
    reveal_strlit("+");
    reveal_strlit("/-");
    lemma_decimal_lacks(ins, c);
    lemma_decimal_lacks(del, c);
    assert("+"@[0] == '+');
    assert("/-"@[0] == '/' && "/-"@[1] == '-');
}

/// The line of `git diff --numstat` on `path`, with `ins` inserted and `del` deleted lines.
pub open spec fn counted_line(ins: nat, del: nat, path: Seq<char>) -> Seq<char> {
    decimal(ins) + seq!['\t'] + decimal(del) + seq!['\t'] + path
}

/// Where anything changed, statistics show the insertions behind a plus sign and the deletions
/// behind a minus sign.
pub proof fn law_statistics_show_both_counts(ins: nat, del: nat)
    requires
        ins > 0 || del > 0,
    ensures
        stats_text(ins, del) == seq!['+'] + decimal(ins) + seq!['/', '-'] + decimal(del),
{
    reveal_strlit("+");
    reveal_strlit("/-");
    assert("+"@ =~= seq!['+']);
    assert("/-"@ =~= seq!['/', '-']);
}

/// A line counts what is written on it, whichever of the two counts is zero.
pub proof fn law_line_counts_what_it_says(ins: nat, del: nat, path: Seq<char>)
    requires
        ins <= u64::MAX,
        del <= u64::MAX,
    ensures
        numstat_counts(counted_line(ins, del, path)) == (ins, del),
{
    lemma_counted_fields(ins, del, path);
    lemma_number_is_no_dash(ins);
    law_decimal_reads_back(ins, u64::MAX as nat);
    law_decimal_reads_back(del, u64::MAX as nat);
}

/// The fields of a line with counts.
pub proof fn lemma_counted_fields(ins: nat, del: nat, path: Seq<char>)
    ensures
        fields(counted_line(ins, del, path)) == Some((decimal(ins), decimal(del), path)),
{
    lemma_decimal_lacks(ins, '\t');
    lemma_decimal_lacks(del, '\t');
    lemma_fields(decimal(ins), decimal(del), path);
}

/// A number is not the sign for a binary file.
pub proof fn lemma_number_is_no_dash(n: nat)
    ensures
        decimal(n) != "-"@,
{
    reveal_strlit("-");
    lemma_decimal(n);
    assert(is_digit(decimal(n)[0]));
    assert("-"@[0] == '-');
}

/// The line of a binary file counts nothing, and neither does a line without three fields or one
/// on which a count is no number.
pub proof fn law_other_lines_count_nothing(
    line: Seq<char>,
    first: Seq<char>,
    second: Seq<char>,
    path: Seq<char>,
)
    requires
        !first.contains('\t'),
        !second.contains('\t'),
    ensures
        split(line, '\t').len() < 3 ==> numstat_counts(line) == (0nat, 0nat),
        parse_unsigned(first, u64::MAX as nat) is None || parse_unsigned(second, u64::MAX as nat)
            is None ==> numstat_counts(first + seq!['\t'] + second + seq!['\t'] + path) == (
            0nat,
            0nat,
        ),
        first == seq!['-'] ==> numstat_counts(first + seq!['\t'] + second + seq!['\t'] + path) == (
            0nat,
            0nat,
        ),
{
    reveal_strlit("-");
    assert("-"@ =~= seq!['-']);
    law_fields_stand_between_tabs(line, first, second, path);
    lemma_fields(first, second, path);
}

/// The totals of two listings are the sums of their totals, and those of one line are its counts.
pub proof fn law_totals_add_up(a: Seq<Seq<char>>, b: Seq<Seq<char>>, line: Seq<char>)
    ensures
        numstat_totals(Seq::empty()) == (0nat, 0nat),
        numstat_totals(seq![line]) == numstat_counts(line),
        numstat_totals(a + b) == (
            numstat_totals(a).0 + numstat_totals(b).0,
            numstat_totals(a).1 + numstat_totals(b).1,
        ),
    decreases b.len(),
{
    assert(seq![line].drop_last() =~= Seq::empty());
    assert(numstat_totals(seq![line].drop_last()) == (0nat, 0nat));
    if b.len() == 0 {
        assert(a + b =~= a);
    } else {
        law_totals_add_up(a, b.drop_last(), line);
        assert((a + b).drop_last() =~= a + b.drop_last());
    }
}

/// The sum of the first counts of `es`.
pub open spec fn insertions(es: Seq<(nat, nat, Seq<char>)>) -> nat
    decreases es.len(),
{
    if es.len() == 0 {
        0
    } else {
        insertions(es.drop_last()) + es.last().0
    }
}

/// The sum of the second counts of `es`.
pub open spec fn deletions(es: Seq<(nat, nat, Seq<char>)>) -> nat
    decreases es.len(),
{
    if es.len() == 0 {
        0
    } else {
        deletions(es.drop_last()) + es.last().1
    }
}

/// The totals of a diff are the sum of all insertions and the sum of all deletions that are
/// listed.
pub proof fn law_totals_are_the_sums(es: Seq<(nat, nat, Seq<char>)>)
    requires
        forall|i: int|
            0 <= i < es.len() ==> (#[trigger] es[i]).0 <= u64::MAX && es[i].1 <= u64::MAX,
    ensures
        numstat_totals(es.map_values(|e: (nat, nat, Seq<char>)| counted_line(e.0, e.1, e.2))) == (
            insertions(es),
            deletions(es),
        ),
    decreases es.len(),
{
    let f = |e: (nat, nat, Seq<char>)| counted_line(e.0, e.1, e.2);
    if es.len() > 0 {
        let d = es.drop_last();
        assert forall|i: int| 0 <= i < d.len() implies (#[trigger] d[i]).0 <= u64::MAX && d[i].1
            <= u64::MAX by {
            assert(d[i] == es[i]);
        }
        law_totals_are_the_sums(d);
        let e = es[es.len() - 1];
        law_line_counts_what_it_says(e.0, e.1, e.2);
        assert(es.map_values(f).drop_last() =~= d.map_values(f));
    }
}

/// Sums of counts add up.
pub proof fn law_sums_add_up(a: Seq<u64>, b: Seq<u64>, n: u64)
    ensures
        sum(Seq::empty()) == 0,
        sum(seq![n]) == n,
        sum(a + b) == sum(a) + sum(b),
    decreases b.len(),
{
    assert(seq![n].drop_last() =~= Seq::empty());
    assert(sum(seq![n].drop_last()) == 0);
    if b.len() == 0 {
        assert(a + b =~= a);
    } else {
        law_sums_add_up(a, b.drop_last(), n);
        assert((a + b).drop_last() =~= a + b.drop_last());
    }
}

/// Every line feed counts as one line, and no other byte does.
pub proof fn law_line_feeds_are_counted(a: Seq<u8>, b: Seq<u8>, c: u8)
    ensures
        newlines(Seq::empty()) == 0,
        newlines(seq![c]) == (if c == 10 {
            1nat
        } else {
            0
        }),
        newlines(a + b) == newlines(a) + newlines(b),
    decreases b.len(),
{
    assert(seq![c].drop_last() =~= Seq::empty());
    assert(newlines(seq![c].drop_last()) == 0);
    if b.len() == 0 {
        assert(a + b =~= a);
    } else {
        law_line_feeds_are_counted(a, b.drop_last(), c);
        assert((a + b).drop_last() =~= a + b.drop_last());
    }
}

/// A target is a range exactly where two dots stand in it.
pub proof fn law_range_has_two_dots(target: Seq<char>, a: Seq<char>, b: Seq<char>)
    ensures
        is_range(a + seq!['.', '.'] + b),
        is_range(target) <==> exists|i: int|
            0 <= i < target.len() - 1 && #[trigger] target[i] == '.' && target[i + 1] == '.',
{
    reveal_strlit("..");
    let p = ".."@;
    assert(p =~= seq!['.', '.']);
    law_held_text_stands_between(target, p, a, b);
    if is_range(target) {
        let i = choose|i: int| matches_at(target, p, i);
        assert(target.subrange(i, i + 2)[0] == target[i]);
        assert(target.subrange(i, i + 2)[1] == target[i + 1]);
    }
    if exists|i: int|
        0 <= i < target.len() - 1 && #[trigger] target[i] == '.' && target[i + 1] == '.' {
        let i = choose|i: int|
            0 <= i < target.len() - 1 && #[trigger] target[i] == '.' && target[i + 1] == '.';
        assert(target.subrange(i, i + 2) =~= p);
        assert(matches_at(target, p, i));
    }
}

/// Without untracked files, the totals of a diff are those of its listing.
pub proof fn law_totals_come_from_the_listing(numstat: Seq<char>, target: Seq<char>)
    ensures
        diff_totals(numstat, target, Seq::empty()) == numstat_totals(lines(numstat)),
{
    assert(sum(Seq::<u64>::empty()) == 0);
}

/// No number is captured where the word is missing or no digit stands before it.
pub proof fn law_nothing_is_captured_without_digits(
    s: Seq<char>,
    pre: Seq<char>,
    suffix: Seq<char>,
    rest: Seq<char>,
)
    requires
        suffix.len() > 0,
    ensures
        !contains(s, suffix) ==> captured(s, suffix) is None,
        (pre.len() == 0 || !is_digit(pre.last())) && !contains(pre + suffix.drop_last(), suffix)
            ==> captured(pre + suffix + rest, suffix) is None,
{
    lemma_find_from(s, suffix, 0);
    let t = pre + suffix + rest;
    if (pre.len() == 0 || !is_digit(pre.last())) && !contains(pre + suffix.drop_last(), suffix) {
        lemma_word_is_found(pre, suffix, rest);
        assert(t.take(pre.len() as int) =~= pre);
    }
}

/// A word is found at its first place.
proof fn lemma_word_is_found(pre: Seq<char>, word: Seq<char>, rest: Seq<char>)
    requires
        word.len() > 0,
        !contains(pre + word.drop_last(), word),
    ensures
        find(pre + word + rest, word) == Some(pre.len() as int),
{
    let s = pre + word + rest;
    let at = pre.len() as int;
    assert(s.subrange(at, at + word.len()) =~= word);
    assert(matches_at(s, word, at));
    lemma_find_from(s, word, 0);
    let i = find(s, word)->0;
    if i < at {
        let t = pre + word.drop_last();
        assert(t.subrange(i, i + word.len()) =~= s.subrange(i, i + word.len()));
        assert(matches_at(t, word, i));
    }
}

/// A summary line shows the number before "insertion" and the number before "deletion", and zero
/// for one that it does not name.
pub proof fn law_summary_shows_both_numbers(s: Seq<char>, ins: Option<nat>, del: Option<nat>)
    requires
        captured(s, " insertion"@) == ins,
        captured(s, " deletion"@) == del,
    ensures
        ins matches Some(i) ==> (del matches Some(d) ==> shortstat_text(s) == stats_text(i, d)),
        ins matches Some(i) ==> (del is None ==> shortstat_text(s) == stats_text(i, 0)),
        ins is None ==> (del matches Some(d) ==> shortstat_text(s) == stats_text(0, d)),
        ins is None && del is None ==> shortstat_text(s).len() == 0,
{
}

/// `git` is asked for the counts against the target, with the whitespace option where there is
/// one.
pub proof fn law_counts_are_asked_for(ws: Seq<char>, target: Seq<char>)
    ensures
        diff_stats_argv(Seq::empty(), target) == seq!["diff"@, "--numstat"@, target],
        ws.len() > 0 ==> diff_stats_argv(ws, target) == seq!["diff"@, "--numstat"@, ws, target],
{
}

} // verus!

//! Line statistics of a diff, shown as `+insertions/-deletions`.

use crate::number::{decimal, decimal_of, parse_unsigned, u64_of};
use crate::text::{
    chars_of, contains, fields, fields_of, find, is_digit, lines, lines_of, mentions, piece,
    position_of, same, strings, texts,
};
use vstd::prelude::*;
use vstd::string::*;

verus! {

/// How a diff with `ins` inserted and `del` deleted lines is shown. No change shows nothing.
pub open spec fn stats_text(ins: nat, del: nat) -> Seq<char> {
    if ins == 0 && del == 0 {
        Seq::empty()
    } else {
        "+"@ + decimal(ins) + "/-"@ + decimal(del)
    }
}

/// The longest run of digits at the end of `s`.
pub open spec fn trailing_digits(s: Seq<char>) -> Seq<char>
    decreases s.len(),
{
    if s.len() > 0 && is_digit(s.last()) {
        trailing_digits(s.drop_last()).push(s.last())
    } else {
        Seq::empty()
    }
}

/// The number that stands directly before the first `suffix` in `haystack`.
pub open spec fn captured(haystack: Seq<char>, suffix: Seq<char>) -> Option<nat> {
    match find(haystack, suffix) {
        None => None,
        Some(i) => parse_unsigned(trailing_digits(haystack.take(i)), u64::MAX as nat),
    }
}

/// `n`, or 0 where there is none.
pub open spec fn or_zero(n: Option<nat>) -> nat {
    match n {
        Some(n) => n,
        None => 0,
    }
}

/// How the summary line of `git log --shortstat` is shown.
pub open spec fn shortstat_text(shortstat: Seq<char>) -> Seq<char> {
    stats_text(
        or_zero(captured(shortstat, " insertion"@)),
        or_zero(captured(shortstat, " deletion"@)),
    )
}

/// The insertions and deletions on one line of `git diff --numstat`.
/// Lines of binary files and lines of another shape count nothing.
pub open spec fn numstat_counts(line: Seq<char>) -> (nat, nat) {
    match fields(line) {
        None => (0, 0),
        Some((ins, del, _)) => if ins == "-"@ {
            (0, 0)
        } else {
            match (parse_unsigned(ins, u64::MAX as nat), parse_unsigned(del, u64::MAX as nat)) {
                (Some(i), Some(d)) => (i, d),
                _ => (0, 0),
            }
        },
    }
}

/// The insertions and deletions on all lines of `git diff --numstat`.
pub open spec fn numstat_totals(ls: Seq<Seq<char>>) -> (nat, nat)
    decreases ls.len(),
{
    if ls.len() == 0 {
        (0, 0)
    } else {
        let before = numstat_totals(ls.drop_last());
        let last = numstat_counts(ls.last());
        (before.0 + last.0, before.1 + last.1)
    }
}

/// The sum of `counts`.
pub open spec fn sum(counts: Seq<u64>) -> nat
    decreases counts.len(),
{
    if counts.len() == 0 {
        0
    } else {
        sum(counts.drop_last()) + counts.last() as nat
    }
}

/// Whether `target` names a range of commits, so that the working tree plays no part.
pub open spec fn is_range(target: Seq<char>) -> bool {
    contains(target, ".."@)
}

/// The insertions and deletions against `target`: those that `git diff --numstat` lists and,
/// unless `target` is a range, the lines of the untracked files.
pub open spec fn diff_totals(numstat: Seq<char>, target: Seq<char>, untracked: Seq<u64>) -> (
    nat,
    nat,
) {
    let t = numstat_totals(lines(numstat));
    if is_range(target) {
        t
    } else {
        (t.0 + sum(untracked), t.1)
    }
}

/// The arguments of the `git` call whose output `diff_stats` takes.
pub open spec fn diff_stats_argv(ws: Seq<char>, target: Seq<char>) -> Seq<Seq<char>> {
    if ws.len() == 0 {
        seq!["diff"@, "--numstat"@, target]
    } else {
        seq!["diff"@, "--numstat"@, ws, target]
    }
}

/// The number of line feeds in `bytes`.
pub open spec fn newlines(bytes: Seq<u8>) -> nat
    decreases bytes.len(),
{
    if bytes.len() == 0 {
        0
    } else {
        newlines(bytes.drop_last()) + if bytes.last() == 10 {
            1nat
        } else {
            0
        }
    }
}

/// How a diff with `ins` inserted and `del` deleted lines is shown.
pub fn show_stats(ins: u64, del: u64) -> (r: String)
    ensures
        r@ == stats_text(ins as nat, del as nat),
{
    if ins == 0 && del == 0 {
        return String::new();
    }
    let mut r = "+".to_owned();
    r.append(&decimal_of(ins as u128));
    r.append("/-");
    r.append(&decimal_of(del as u128));
    r
}

/// The number that stands directly before the first `suffix` in `haystack`.
pub fn capture_int(haystack: &str, suffix: &str) -> (r: Option<u64>)
    ensures
        match r {
            Some(n) => captured(haystack@, suffix@) == Some(n as nat),
            None => captured(haystack@, suffix@) is None,
        },
{
    let cs = chars_of(haystack);
    let ps = chars_of(suffix);
    match position_of(&cs, &ps) {
        None => None,
        Some(i) => {
            let ghost before = haystack@.take(i as int);
            let mut j: usize = i;
            while j > 0 && '0' <= cs[j - 1] && cs[j - 1] <= '9'
                invariant
                    j <= i <= cs@.len(),
                    cs@ == haystack@,
                    before == haystack@.take(i as int),
                    trailing_digits(before) == trailing_digits(cs@.take(j as int)) + cs@.subrange(
                        j as int,
                        i as int,
                    ),
                decreases j,
            {
                assert(cs@.take(j as int).drop_last() == cs@.take(j - 1));
                assert(cs@.subrange(j - 1, i as int) == seq![cs@[j - 1]] + cs@.subrange(
                    j as int,
                    i as int,
                ));
                j -= 1;
            }
            assert(trailing_digits(before) == cs@.subrange(j as int, i as int));
            u64_of(&piece(&cs, j, i))
        },
    }
}

/// The text shown for the summary line of `git log --shortstat`.
pub fn format_stats(shortstat: &str) -> (r: String)
    ensures
        r@ == shortstat_text(shortstat@),
{
    let ins: u64 = match capture_int(shortstat, " insertion") {
        Some(n) => n,
        None => 0,
    };
    let del: u64 = match capture_int(shortstat, " deletion") {
        Some(n) => n,
        None => 0,
    };
    show_stats(ins, del)
}

/// The arguments of the `git` call whose output `diff_stats` takes.
pub fn diff_stats_args(ws: &str, target: &str) -> (r: Vec<String>)
    ensures
        texts(r@) == diff_stats_argv(ws@, target@),
{
    if ws.is_empty() {
        let r = strings(&["diff", "--numstat", target]);
        assert(texts(r@) == diff_stats_argv(ws@, target@));
        r
    } else {
        let r = strings(&["diff", "--numstat", ws, target]);
        assert(texts(r@) == diff_stats_argv(ws@, target@));
        r
    }
}

/// Whether `target` names a range of commits.
pub fn names_range(target: &str) -> (r: bool)
    ensures
        r == is_range(target@),
{
    mentions(target, "..")
}

/// The number of line feeds in `bytes`.
pub fn count_newlines(bytes: &[u8]) -> (r: u64)
    ensures
        r == newlines(bytes@),
{
    let mut n: u64 = 0;
    let mut i: usize = 0;
    while i < bytes.len()
        invariant
            n <= i <= bytes.len(),
            n == newlines(bytes@.take(i as int)),
        decreases bytes@.len() - i,
    {
        assert(bytes@.take(i + 1).drop_last() == bytes@.take(i as int));
        if bytes[i] == 10 {
            n += 1;
        }
        i += 1;
    }
    assert(bytes@.take(bytes@.len() as int) == bytes@);
    n
}

/// The insertions and deletions on one line of `git diff --numstat`.
fn line_counts(line: &str) -> (r: (u64, u64))
    ensures
        (r.0 as nat, r.1 as nat) == numstat_counts(line@),
{
    match fields_of(line) {
        None => (0, 0),
        Some((ins, del, _path)) => {
            if same(&ins, "-") {
                return (0, 0);
            }
            match (u64_of(&ins), u64_of(&del)) {
                (Some(i), Some(d)) => (i, d),
                _ => (0, 0),
            }
        },
    }
}

/// The insertions and deletions against `target`, where both fit 64 bits.
///
/// `numstat` is the output of `git` for [`diff_stats_args`]; `untracked` holds the
/// number of lines of each untracked file.
pub fn diff_totals_of(numstat: &str, target: &str, untracked: &[u64]) -> (r: Option<(u64, u64)>)
    ensures
        ({
            let t = diff_totals(numstat@, target@, untracked@);
            match r {
                Some((ins, del)) => t == (ins as nat, del as nat),
                None => t.0 > u64::MAX || t.1 > u64::MAX,
            }
        }),
{
    let ls = lines_of(numstat);
    let ghost all = lines(numstat@);
    let mut ins: u64 = 0;
    let mut del: u64 = 0;
    let mut i: usize = 0;
    assert(all.take(0) == Seq::<Seq<char>>::empty());
    while i < ls.len()
        invariant
            texts(ls@) == all,
            all == lines(numstat@),
            i <= ls@.len(),
            numstat_totals(all.take(i as int)) == (ins as nat, del as nat),
        decreases ls@.len() - i,
    {
        let (a, b) = line_counts(&ls[i]);
        assert(all[i as int] == ls@[i as int]@);
        assert(all.take(i + 1).drop_last() == all.take(i as int));
        if a > u64::MAX - ins || b > u64::MAX - del {
            proof {
                lemma_totals_grow(all, i + 1, all.len() as int);
                assert(all.take(all.len() as int) == all);
            }
            return None;
        }
        ins += a;
        del += b;
        i += 1;
    }
    assert(all.take(all.len() as int) == all);
    if names_range(target) {
        return Some((ins, del));
    }
    let ghost listed = ins;
    let mut j: usize = 0;
    while j < untracked.len()
        invariant
            j <= untracked@.len(),
            ins == listed + sum(untracked@.take(j as int)),
            numstat_totals(lines(numstat@)) == (listed as nat, del as nat),
            !is_range(target@),
        decreases untracked@.len() - j,
    {
        assert(untracked@.take(j + 1).drop_last() == untracked@.take(j as int));
        let n: u64 = untracked[j];
        if n > u64::MAX - ins {
            proof {
                lemma_sum_grows(untracked@, j + 1, untracked@.len() as int);
                assert(untracked@.take(untracked@.len() as int) == untracked@);
            }
            return None;
        }
        ins += n;
        j += 1;
    }
    assert(untracked@.take(untracked@.len() as int) == untracked@);
    Some((ins, del))
}

/// The text shown for the diff against `target`.
///
/// `numstat` is the output of `git` for [`diff_stats_args`]; `untracked` holds the
/// number of lines of each untracked file.
pub fn diff_stats(numstat: &str, target: &str, untracked: &[u64]) -> (r: String)
    requires
        diff_totals(numstat@, target@, untracked@).0 <= u64::MAX,
        diff_totals(numstat@, target@, untracked@).1 <= u64::MAX,
    ensures
        ({
            let t = diff_totals(numstat@, target@, untracked@);
            r@ == stats_text(t.0, t.1)
        }),
{
    match diff_totals_of(numstat, target, untracked) {
        Some((ins, del)) => show_stats(ins, del),
        None => String::new(),
    }
}

/// More lines never count less.
proof fn lemma_totals_grow(ls: Seq<Seq<char>>, a: int, b: int)
    requires
        0 <= a <= b <= ls.len(),
    ensures
        numstat_totals(ls.take(a)).0 <= numstat_totals(ls.take(b)).0,
        numstat_totals(ls.take(a)).1 <= numstat_totals(ls.take(b)).1,
    decreases b - a,
{
    if a < b {
        lemma_totals_grow(ls, a, b - 1);
        assert(ls.take(b).drop_last() == ls.take(b - 1));
    }
}

/// More summands never sum up to less.
proof fn lemma_sum_grows(counts: Seq<u64>, a: int, b: int)
    requires
        0 <= a <= b <= counts.len(),
    ensures
        sum(counts.take(a)) <= sum(counts.take(b)),
    decreases b - a,
{
    if a < b {
        lemma_sum_grows(counts, a, b - 1);
        assert(counts.take(b).drop_last() == counts.take(b - 1));
    }
}

} // verus!

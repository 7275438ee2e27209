//! Whole numbers in decimal notation.

use crate::text::{chars_of, is_digit, piece};
use vstd::prelude::*;
use vstd::string::*;

verus! {

/// The digit for `d`, which lies between 0 and 9.
pub open spec fn digit_char(d: int) -> char {
    (48 + d) as char
}

/// The number that the digit `c` stands for.
pub open spec fn digit_value(c: char) -> nat {
    (c as int - 48) as nat
}

/// `n` in decimal notation, without leading zeros.
pub open spec fn decimal(n: nat) -> Seq<char>
    decreases n,
{
    if n < 10 {
        seq![digit_char(n as int)]
    } else {
        decimal(n / 10).push(digit_char((n % 10) as int))
    }
}

/// `n` in decimal notation, with a minus sign where it is negative.
pub open spec fn signed_decimal(n: int) -> Seq<char> {
    if n < 0 {
        seq!['-'] + decimal((-n) as nat)
    } else {
        decimal(n as nat)
    }
}

/// Whether `s` is made of digits alone.
pub open spec fn all_digits(s: Seq<char>) -> bool {
    forall|i: int| 0 <= i < s.len() ==> is_digit(#[trigger] s[i])
}

/// The number that the digits `s` stand for.
pub open spec fn digits_value(s: Seq<char>) -> nat
    decreases s.len(),
{
    if s.len() == 0 {
        0
    } else {
        digits_value(s.drop_last()) * 10 + digit_value(s.last())
    }
}

/// The number that `d` stands for: at least one digit, digits alone, and at most `max`.
pub open spec fn magnitude(d: Seq<char>, max: nat) -> Option<nat> {
    if d.len() > 0 && all_digits(d) && digits_value(d) <= max {
        Some(digits_value(d))
    } else {
        None
    }
}

/// The number between 0 and `max` that `s` stands for. A plus sign may stand first.
pub open spec fn parse_unsigned(s: Seq<char>, max: nat) -> Option<nat> {
    if s.len() > 0 && s[0] == '+' {
        magnitude(s.skip(1), max)
    } else {
        magnitude(s, max)
    }
}

/// The number between `-min` and `max` that `s` stands for. A sign may stand first.
pub open spec fn parse_signed(s: Seq<char>, min: nat, max: nat) -> Option<int> {
    if s.len() > 0 && s[0] == '-' {
        match magnitude(s.skip(1), min) {
            Some(n) => Some(-(n as int)),
            None => None,
        }
    } else {
        match parse_unsigned(s, max) {
            Some(n) => Some(n as int),
            None => None,
        }
    }
}

/// `n` in decimal notation.
pub fn decimal_of(n: u128) -> (r: String)
    ensures
        r@ == decimal(n as nat),
    decreases n,
{
    let mut r = if n < 10 {
        String::new()
    } else {
        decimal_of(n / 10)
    };
    let d: u8 = (n % 10) as u8;
    let ghost before = r@;
    r.push((48 + d) as char);
    assert(before.len() == 0 ==> r@ == seq![digit_char(d as int)]);
    r
}

/// `n` in decimal notation, with a minus sign where it is negative.
pub fn signed_decimal_of(n: i32) -> (r: String)
    ensures
        r@ == signed_decimal(n as int),
{
    if n < 0 {
        let mut r = String::new();
        r.push('-');
        let m: u128 = (-(n as i64)) as u128;
        let digits = decimal_of(m);
        r.append(&digits);
        assert(r@ == seq!['-'] + decimal(m as nat));
        r
    } else {
        decimal_of(n as u128)
    }
}

/// The number that `cs[from..]` stands for, where it is at most `max`.
fn magnitude_of(cs: &[char], from: usize, max: u64) -> (r: Option<u64>)
    requires
        from <= cs@.len(),
    ensures
        match r {
            Some(n) => magnitude(cs@.skip(from as int), max as nat) == Some(n as nat),
            None => magnitude(cs@.skip(from as int), max as nat) is None,
        },
{
    let ghost d = cs@.skip(from as int);
    if from == cs.len() {
        return None;
    }
    let mut value: u64 = 0;
    let mut i: usize = from;
    assert(d.take(0) == Seq::<char>::empty());
    while i < cs.len()
        invariant
            from <= i <= cs@.len(),
            d == cs@.skip(from as int),
            all_digits(d.take(i - from)),
            value == digits_value(d.take(i - from)),
            value <= max,
        decreases cs@.len() - i,
    {
        let c = cs[i];
        assert(d[i - from] == c);
        if !('0' <= c && c <= '9') {
            return None;
        }
        let v: u64 = c as u64 - 48;
        let ghost next = d.take(i + 1 - from);
        assert(next.drop_last() == d.take(i - from));
        assert(digits_value(next) == value * 10 + v);
        if value > max / 10 || v > max - value * 10 {
            proof {
                assert(digits_value(next) > max);
                assert(d.take(d.len() as int) == d);
                lemma_digits_value_grows(d, i + 1 - from, d.len() as int);
            }
            return None;
        }
        value = value * 10 + v;
        assert(all_digits(next)) by {
            assert forall|k: int| 0 <= k < next.len() implies is_digit(#[trigger] next[k]) by {
                if k < i - from {
                    assert(d.take(i - from)[k] == next[k]);
                }
            }
        }
        i += 1;
    }
    assert(d.take(d.len() as int) == d);
    Some(value)
}

/// The number that `s` stands for, up to `max`.
fn unsigned_of(s: &str, max: u64) -> (r: Option<u64>)
    ensures
        match r {
            Some(n) => parse_unsigned(s@, max as nat) == Some(n as nat),
            None => parse_unsigned(s@, max as nat) is None,
        },
{
    let cs = chars_of(s);
    assert(s@.skip(0) == s@);
    if cs.len() > 0 && cs[0] == '+' {
        magnitude_of(&cs, 1, max)
    } else {
        magnitude_of(&cs, 0, max)
    }
}

/// The 64-bit unsigned number that `s` stands for.
pub fn u64_of(s: &str) -> (r: Option<u64>)
    ensures
        match r {
            Some(n) => parse_unsigned(s@, u64::MAX as nat) == Some(n as nat),
            None => parse_unsigned(s@, u64::MAX as nat) is None,
        },
{
    unsigned_of(s, u64::MAX)
}

/// The 32-bit unsigned number that `s` stands for.
pub fn u32_of(s: &str) -> (r: Option<u32>)
    ensures
        match r {
            Some(n) => parse_unsigned(s@, u32::MAX as nat) == Some(n as nat),
            None => parse_unsigned(s@, u32::MAX as nat) is None,
        },
{
    match unsigned_of(s, u32::MAX as u64) {
        Some(n) => Some(n as u32),
        None => None,
    }
}

/// The 32-bit signed number that `s` stands for.
pub fn i32_of(s: &str) -> (r: Option<i32>)
    ensures
        match r {
            Some(n) => parse_signed(s@, 0x8000_0000, 0x7fff_ffff) == Some(n as int),
            None => parse_signed(s@, 0x8000_0000, 0x7fff_ffff) is None,
        },
{
    let cs = chars_of(s);
    if cs.len() > 0 && cs[0] == '-' {
        match magnitude_of(&cs, 1, 0x8000_0000) {
            Some(n) => Some((-(n as i64)) as i32),
            None => None,
        }
    } else {
        match unsigned_of(s, 0x7fff_ffff) {
            Some(n) => Some(n as i32),
            None => None,
        }
    }
}

/// The number that the digits `tail` stand for when they are written behind the number `n`.
spec fn extended(n: nat, tail: Seq<char>) -> nat
    decreases tail.len(),
{
    if tail.len() == 0 {
        n
    } else {
        extended(n, tail.drop_last()) * 10 + digit_value(tail.last())
    }
}

/// A digit that is written behind a number lengthens it.
proof fn lemma_extended_front(n: nat, c: char, tail: Seq<char>)
    ensures
        extended(n, seq![c] + tail) == extended(n * 10 + digit_value(c), tail),
    decreases tail.len(),
{
    let s = seq![c] + tail;
    if tail.len() == 0 {
        assert(s.drop_last() =~= Seq::empty());
        assert(extended(n, s.drop_last()) == n);
    } else {
        lemma_extended_front(n, c, tail.drop_last());
        assert(s.drop_last() =~= seq![c] + tail.drop_last());
    }
}

/// Digits behind a number that is not zero go on with its decimal notation.
proof fn lemma_extended_decimal(n: nat, tail: Seq<char>)
    requires
        n > 0 || tail.len() == 0,
        all_digits(tail),
    ensures
        decimal(extended(n, tail)) == decimal(n) + tail,
        n > 0 ==> extended(n, tail) > 0,
    decreases tail.len(),
{
    if tail.len() == 0 {
        assert(decimal(n) + tail =~= decimal(n));
    } else {
        let d = tail.drop_last();
        assert forall|i: int| 0 <= i < d.len() implies is_digit(#[trigger] d[i]) by {
            assert(is_digit(tail[i]));
        }
        lemma_extended_decimal(n, d);
        assert(is_digit(tail[tail.len() - 1]));
        let m = extended(n, d);
        let v = digit_value(tail.last());
        let total = extended(n, tail);
        assert(total == m * 10 + v);
        assert(total / 10 == m && total % 10 == v);
        assert(digit_char(v as int) == tail.last());
        assert(decimal(m).push(tail.last()) =~= decimal(n) + tail);
    }
}

/// The sum of the number that `digits` stand for and `n`, in decimal notation.
pub fn digits_plus(digits: &[char], n: usize) -> (r: String)
    requires
        all_digits(digits@),
    ensures
        r@ == decimal(digits_value(digits@) + n as nat),
{
    let ghost total = digits_value(digits@) + n as nat;
    let len: usize = digits.len();
    let mut out: Vec<char> = Vec::new();
    let mut k: usize = 0;
    while k < len
        invariant
            len == digits@.len(),
            k <= len,
            out@ == digits@.take(k as int),
        decreases len - k,
    {
        out.push(digits[k]);
        k += 1;
    }
    assert(out@ =~= digits@);
    let mut carry: u128 = n as u128;
    let mut i: usize = len;
    assert(digits@.take(len as int) =~= digits@);
    assert(out@.skip(len as int) =~= Seq::empty());
    assert(extended(total, Seq::empty()) == total);
    while i > 0
        invariant
            len == digits@.len(),
            out@.len() == len,
            i <= len,
            carry <= n,
            all_digits(digits@),
            all_digits(out@),
            forall|j: int| 0 <= j < i ==> #[trigger] out@[j] == digits@[j],
            extended(
                digits_value(digits@.take(i as int)) + carry as nat,
                out@.skip(i as int),
            ) == total,
        decreases i,
    {
        let ghost tail = out@.skip(i as int);
        let ghost m = digits_value(digits@.take(i as int)) + carry as nat;
        i -= 1;
        assert(is_digit(digits@[i as int]));
        assert(digits@.take(i + 1).drop_last() =~= digits@.take(i as int));
        let c = out[i];
        let sum: u128 = (c as u32 - 48) as u128 + carry;
        let low: u8 = (sum % 10) as u8;
        let d = (48 + low) as char;
        carry = sum / 10;
        out.set(i, d);
        proof {
            let q = digits_value(digits@.take(i as int)) + carry as nat;
            assert(digit_value(d) == low);
            assert(m == q * 10 + digit_value(d));
            assert(out@.skip(i as int) =~= seq![d] + tail);
            lemma_extended_front(q, d, tail);
        }
    }
    assert(digits_value(digits@.take(0)) == 0);
    let mut head: u128 = carry;
    let mut j: usize = 0;
    while j < len && head == 0
        invariant
            out@.len() == len,
            j <= len,
            all_digits(out@),
            extended(head as nat, out@.skip(j as int)) == total,
        decreases len - j,
    {
        let c = out[j];
        assert(is_digit(out@[j as int]));
        assert(out@.skip(j as int) =~= seq![c] + out@.skip(j + 1));
        proof {
            lemma_extended_front(0, c, out@.skip(j + 1));
        }
        head = (c as u32 - 48) as u128;
        j += 1;
    }
    let mut r = decimal_of(head);
    let ghost rest = out@.skip(j as int);
    proof {
        assert forall|k: int| 0 <= k < rest.len() implies is_digit(#[trigger] rest[k]) by {
            assert(is_digit(out@[j + k]));
        }
        lemma_extended_decimal(head as nat, rest);
    }
    r.append(&piece(&out, j, len));
    assert(out@.subrange(j as int, len as int) =~= rest);
    r
}

/// More digits never stand for less.
proof fn lemma_digits_value_grows(d: Seq<char>, a: int, b: int)
    requires
        0 <= a <= b <= d.len(),
    ensures
        digits_value(d.take(a)) <= digits_value(d.take(b)),
    decreases b - a,
{
    if a < b {
        lemma_digits_value_grows(d, a, b - 1);
        assert(d.take(b).drop_last() == d.take(b - 1));
    }
}

/// The decimal notation of a number is made of digits, and stands for that number.
pub proof fn lemma_decimal(n: nat)
    ensures
        decimal(n).len() > 0,
        all_digits(decimal(n)),
        digits_value(decimal(n)) == n,
    decreases n,
{
    if n < 10 {
        let d = decimal(n);
        assert(digits_value(d.drop_last()) == 0);
        assert(digit_value(d.last()) == n);
    } else {
        lemma_decimal(n / 10);
        let d = decimal(n);
        assert(d.drop_last() == decimal(n / 10));
        assert(digit_value(d.last()) == n % 10);
        assert forall|k: int| 0 <= k < d.len() implies is_digit(#[trigger] d[k]) by {
            if k < d.len() - 1 {
                assert(decimal(n / 10)[k] == d[k]);
            }
        }
    }
}

/// Digits without a leading zero are the decimal notation of what they stand for.
pub proof fn lemma_digits_are_decimal(d: Seq<char>)
    requires
        d.len() > 0,
        all_digits(d),
        d[0] != '0',
    ensures
        decimal(digits_value(d)) == d,
        digits_value(d) > 0,
    decreases d.len(),
{
    let e = d.drop_last();
    assert(is_digit(d[d.len() - 1]));
    let v = digit_value(d.last());
    if d.len() == 1 {
        assert(digits_value(e) == 0);
        assert(decimal(digits_value(d)) =~= d);
    } else {
        assert forall|i: int| 0 <= i < e.len() implies is_digit(#[trigger] e[i]) by {
            assert(is_digit(d[i]));
        }
        lemma_digits_are_decimal(e);
        let m = digits_value(e);
        let total = digits_value(d);
        assert(total / 10 == m && total % 10 == v);
        assert(digit_char(v as int) == d.last());
        assert(decimal(total) =~= d);
    }
}

/// A number that is written in decimal notation is read back unchanged.
pub proof fn law_decimal_reads_back(n: nat, max: nat)
    requires
        n <= max,
    ensures
        parse_unsigned(decimal(n), max) == Some(n),
{
    lemma_decimal(n);
    assert(is_digit(decimal(n)[0]));
}

/// A signed number that is written in decimal notation is read back unchanged.
pub proof fn law_signed_decimal_reads_back(n: int, min: nat, max: nat)
    requires
        -(min as int) <= n <= max,
    ensures
        parse_signed(signed_decimal(n), min, max) == Some(n),
{
    if n < 0 {
        lemma_decimal((-n) as nat);
        let s = signed_decimal(n);
        assert(s.skip(1) == decimal((-n) as nat));
    } else {
        law_decimal_reads_back(n as nat, max);
        lemma_decimal(n as nat);
        assert(is_digit(decimal(n as nat)[0]));
    }
}

/// Each digit counts ten times the next one.
pub proof fn law_digits_have_place_value(d: Seq<char>, c: char)
    requires
        is_digit(c),
    ensures
        digits_value(Seq::empty()) == 0,
        digits_value(d.push(c)) == digits_value(d) * 10 + (c as int - '0' as int),
{
    assert(d.push(c).drop_last() =~= d);
}

/// Decimal notation starts with a zero for zero alone, and has one digit for it.
pub proof fn law_decimal_has_no_leading_zero(n: nat)
    ensures
        decimal(n)[0] == '0' <==> n == 0,
        n < 10 <==> decimal(n).len() == 1,
    decreases n,
{
    lemma_decimal(n);
    if n >= 10 {
        law_decimal_has_no_leading_zero(n / 10);
        lemma_decimal(n / 10);
    }
}

/// A negative number has a minus sign in front of its size, any other is written without a sign.
pub proof fn law_sign_of_a_number(n: nat)
    ensures
        signed_decimal(n as int) == decimal(n),
        n > 0 ==> signed_decimal(-(n as int)) == seq!['-'] + decimal(n),
{
}

/// Digits are read as a number where it is not too great, with or without a plus sign in front.
/// Nothing else is read as one.
pub proof fn law_unsigned_numbers_are_digits(s: Seq<char>, d: Seq<char>, max: nat)
    requires
        d.len() > 0,
        all_digits(d),
    ensures
        parse_unsigned(d, max) == (if digits_value(d) <= max {
            Some(digits_value(d))
        } else {
            None
        }),
        parse_unsigned(seq!['+'] + d, max) == parse_unsigned(d, max),
        parse_unsigned(s, max) is Some ==> s.len() > 0 && (all_digits(s) || (s[0] == '+' && s.len()
            > 1 && all_digits(s.skip(1)))),
{
    assert(is_digit(d[0]));
    assert((seq!['+'] + d).skip(1) =~= d);
}

/// Signed numbers are those without a sign or with a plus sign, and digits behind a minus sign.
pub proof fn law_signed_numbers_may_have_a_sign(s: Seq<char>, d: Seq<char>, min: nat, max: nat)
    requires
        d.len() > 0,
        all_digits(d),
    ensures
        parse_signed(d, min, max) == (if digits_value(d) <= max {
            Some(digits_value(d) as int)
        } else {
            None
        }),
        parse_signed(seq!['+'] + d, min, max) == parse_signed(d, min, max),
        parse_signed(seq!['-'] + d, min, max) == (if digits_value(d) <= min {
            Some(-(digits_value(d) as int))
        } else {
            None
        }),
        parse_signed(s, min, max) is Some ==> s.len() > 0 && (all_digits(s) || ((s[0] == '+' || s[0]
            == '-') && s.len() > 1 && all_digits(s.skip(1)))),
{
    assert(is_digit(d[0]));
    assert((seq!['+'] + d).skip(1) =~= d);
    assert((seq!['-'] + d).skip(1) =~= d);
}

} // verus!

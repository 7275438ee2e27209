//! The object id that `git` gives to the contents of a file.

use crate::number::{decimal, decimal_of, lemma_decimal};
use crate::text::is_digit;
use sha1::{Digest, Sha1};
use vstd::prelude::*;
use vstd::string::*;
use vstd::utf8::{encode_utf8, is_ascii_chars, is_ascii_chars_encode_utf8};

verus! {

/// The SHA-1 digest of `data`.
pub uninterp spec fn sha1_of(data: Seq<u8>) -> Seq<u8>;

/// Calls `sha1::Sha1::digest`, which hashes the whole of `data` at once.
/// The digest depends on `data` alone and has twenty bytes. What those bytes are is
/// left to the name `sha1_of`.
#[verifier::external_body]
fn sha1_digest(data: &[u8]) -> (r: Vec<u8>)
    ensures
        r@ == sha1_of(data@),
        r@.len() == 20,
{
    Sha1::digest(data).to_vec()
}

/// The lower-case hexadecimal digit for `d`, which lies between 0 and 15.
pub open spec fn hex_digit(d: int) -> char {
    if d < 10 {
        (48 + d) as char
    } else {
        (87 + d) as char
    }
}

/// `bytes` in lower-case hexadecimal notation, two digits each.
pub open spec fn hex(bytes: Seq<u8>) -> Seq<char>
    decreases bytes.len(),
{
    if bytes.len() == 0 {
        Seq::empty()
    } else {
        let b = bytes.last() as int;
        hex(bytes.drop_last()).push(hex_digit(b / 16)).push(hex_digit(b % 16))
    }
}

/// What `git` hashes for a file with the contents `bytes`: a header with the length, a zero
/// byte, and the contents.
pub open spec fn blob_data(bytes: Seq<u8>) -> Seq<u8> {
    encode_utf8("blob "@ + decimal(bytes.len())).push(0) + bytes
}

/// The object id of a file with the contents `bytes`.
pub open spec fn blob_id(bytes: Seq<u8>) -> Seq<char> {
    hex(sha1_of(blob_data(bytes)))
}

/// `bytes` in lower-case hexadecimal notation.
pub fn hex_of(bytes: &[u8]) -> (r: String)
    ensures
        r@ == hex(bytes@),
{
    let mut r = String::new();
    let mut i: usize = 0;
    while i < bytes.len()
        invariant
            i <= bytes@.len(),
            r@ == hex(bytes@.take(i as int)),
        decreases bytes@.len() - i,
    {
        assert(bytes@.take(i + 1).drop_last() == bytes@.take(i as int));
        let b: u8 = bytes[i];
        r.push(hex_digit_of(b / 16));
        r.push(hex_digit_of(b % 16));
        i += 1;
    }
    assert(bytes@.take(bytes@.len() as int) == bytes@);
    r
}

/// The lower-case hexadecimal digit for `d`.
fn hex_digit_of(d: u8) -> (c: char)
    requires
        d < 16,
    ensures
        c == hex_digit(d as int),
{
    if d < 10 {
        (48 + d) as char
    } else {
        (87 + d) as char
    }
}

/// What `git` hashes for a file with the contents `bytes`.
pub fn blob_bytes(bytes: &[u8]) -> (r: Vec<u8>)
    ensures
        r@ == blob_data(bytes@),
{
    let mut header = "blob ".to_owned();
    header.append(&decimal_of(bytes.len() as u128));
    let mut r = header.as_str().as_bytes_vec();
    r.push(0);
    let ghost start = r@;
    let mut i: usize = 0;
    while i < bytes.len()
        invariant
            i <= bytes@.len(),
            r@ == start + bytes@.take(i as int),
        decreases bytes@.len() - i,
    {
        r.push(bytes[i]);
        i += 1;
    }
    assert(bytes@.take(bytes@.len() as int) == bytes@);
    r
}

/// The object id of a file with the contents `bytes`, the same as `git hash-object` gives.
pub fn hash_blob(bytes: &[u8]) -> (r: String)
    ensures
        r@ == blob_id(bytes@),
        is_id(r@),
{
    let data = blob_bytes(bytes);
    let digest = sha1_digest(&data);
    let r = hex_of(&digest);
    proof {
        lemma_hex(digest@);
    }
    r
}

/// Whether `s` has the shape of an object id: forty lower-case hexadecimal digits.
pub open spec fn is_id(s: Seq<char>) -> bool {
    &&& s.len() == 40
    &&& forall|i: int| 0 <= i < s.len() ==> ('0' <= #[trigger] s[i] <= '9' || 'a' <= s[i] <= 'f')
}

/// Hexadecimal notation has two digits for each byte.
proof fn lemma_hex(bytes: Seq<u8>)
    ensures
        hex(bytes).len() == 2 * bytes.len(),
        forall|i: int|
            0 <= i < hex(bytes).len() ==> ('0' <= #[trigger] hex(bytes)[i] <= '9' || 'a' <= hex(
                bytes,
            )[i] <= 'f'),
    decreases bytes.len(),
{
    if bytes.len() > 0 {
        lemma_hex(bytes.drop_last());
        let b = bytes.last() as int;
        assert(0 <= b / 16 < 16 && 0 <= b % 16 < 16);
        let h = hex(bytes);
        let p = hex(bytes.drop_last());
        assert forall|i: int| 0 <= i < h.len() implies ('0' <= #[trigger] h[i] <= '9' || 'a' <= h[i]
            <= 'f') by {
            if i < p.len() {
                assert(h[i] == p[i]);
            }
        }
    }
}

/// Hexadecimal notation tells different bytes apart.
pub proof fn law_hex_tells_apart(a: Seq<u8>, b: Seq<u8>)
    requires
        hex(a) == hex(b),
    ensures
        a == b,
    decreases a.len(),
{
    lemma_hex(a);
    lemma_hex(b);
    if a.len() == 0 {
        assert(a =~= b);
    } else {
        let x = a.last() as int;
        let y = b.last() as int;
        let n = hex(a).len();
        assert(hex(a)[n - 1] == hex_digit(x % 16) && hex(b)[n - 1] == hex_digit(y % 16));
        assert(hex(a)[n - 2] == hex_digit(x / 16) && hex(b)[n - 2] == hex_digit(y / 16));
        assert(x == y);
        assert(hex(a.drop_last()) =~= hex(a).take(n - 2));
        assert(hex(b.drop_last()) =~= hex(b).take(n - 2));
        law_hex_tells_apart(a.drop_last(), b.drop_last());
        assert(a =~= a.drop_last().push(a.last()));
        assert(b =~= b.drop_last().push(b.last()));
    }
}

/// The header in front of the contents has as many bytes as characters, and none is zero.
proof fn lemma_header(n: nat)
    ensures
        forall|i: int|
            0 <= i < encode_utf8("blob "@ + decimal(n)).len() ==> #[trigger] encode_utf8(
                "blob "@ + decimal(n),
            )[i] != 0,
{
    let h = "blob "@ + decimal(n);
    reveal_strlit("blob ");
    lemma_decimal(n);
    let d = decimal(n);
    assert forall|i: int| 0 <= i < h.len() implies 0 < (#[trigger] h[i] as int) < 128 by {
        if i >= 5 {
            assert(h[i] == d[i - 5]);
            assert(is_digit(d[i - 5]));
        }
    }
    assert(is_ascii_chars(h));
    is_ascii_chars_encode_utf8(h);
    let e = encode_utf8(h);
    assert forall|i: int| 0 <= i < e.len() implies #[trigger] e[i] != 0 by {
        assert(e[i] == h[i] as u8);
    }
}

/// Different contents are hashed as different data.
pub proof fn law_blob_data_tells_apart(a: Seq<u8>, b: Seq<u8>)
    requires
        blob_data(a) == blob_data(b),
    ensures
        a == b,
{
    let x = encode_utf8("blob "@ + decimal(a.len()));
    let y = encode_utf8("blob "@ + decimal(b.len()));
    lemma_header(a.len());
    lemma_header(b.len());
    let d = blob_data(a);
    assert(d[x.len() as int] == 0);
    assert(d[y.len() as int] == 0);
    if x.len() < y.len() {
        assert(d[x.len() as int] == y[x.len() as int]);
    }
    if y.len() < x.len() {
        assert(d[y.len() as int] == x[y.len() as int]);
    }
    assert(a =~= d.skip(x.len() + 1int));
    assert(b =~= d.skip(y.len() + 1int));
}

/// The object ids of two contents agree exactly where the digests of what is hashed do.
pub proof fn law_ids_agree_where_digests_do(a: Seq<u8>, b: Seq<u8>)
    ensures
        blob_id(a) == blob_id(b) <==> sha1_of(blob_data(a)) == sha1_of(blob_data(b)),
        a == b ==> blob_id(a) == blob_id(b),
{
    if blob_id(a) == blob_id(b) {
        law_hex_tells_apart(sha1_of(blob_data(a)), sha1_of(blob_data(b)));
    }
}

/// What is hashed begins with `blob`, a space, the number of bytes in decimal digits and a zero
/// byte; the contents stand behind.
pub proof fn law_blob_has_a_header(bytes: Seq<u8>)
    ensures
        ({
            let data = blob_data(bytes);
            let digits = decimal(bytes.len());
            &&& data.len() == 6 + digits.len() + bytes.len()
            &&& data.take(5) == seq![98u8, 108u8, 111u8, 98u8, 32u8]
            &&& forall|i: int|
                0 <= i < digits.len() ==> #[trigger] data[5 + i] == digits[i] as int
            &&& data[5 + digits.len() as int] == 0
            &&& data.skip(6 + digits.len() as int) == bytes
        }),
{
    reveal_strlit("blob ");
    let data = blob_data(bytes);
    let digits = decimal(bytes.len());
    let h = "blob "@ + digits;
    lemma_decimal(bytes.len());
    assert forall|i: int| 0 <= i < h.len() implies 0 < (#[trigger] h[i] as int) < 128 by {
        if i >= 5 {
            assert(h[i] == digits[i - 5]);
            assert(is_digit(digits[i - 5]));
        }
    }
    assert(is_ascii_chars(h));
    is_ascii_chars_encode_utf8(h);
    let e = encode_utf8(h);
    assert(data =~= e + seq![0u8] + bytes);
    assert(h[0] == 'b' && h[1] == 'l' && h[2] == 'o' && h[3] == 'b' && h[4] == ' ');
    assert(data.take(5) =~= seq![98u8, 108u8, 111u8, 98u8, 32u8]);
    assert forall|i: int| 0 <= i < digits.len() implies #[trigger] data[5 + i]
        == digits[i] as int by {
        assert(data[5 + i] == e[5 + i]);
        assert(h[5 + i] == digits[i]);
        assert(is_digit(digits[i]));
    }
    assert(data.skip(6 + digits.len() as int) =~= bytes);
}

/// Each byte is shown by two digits, the high one first, in the order of the bytes.
pub proof fn law_hex_shows_each_byte(bytes: Seq<u8>, i: int)
    requires
        0 <= i < bytes.len(),
    ensures
        hex(bytes).len() == 2 * bytes.len(),
        hex(bytes)[2 * i] == "0123456789abcdef"@[bytes[i] as int / 16],
        hex(bytes)[2 * i + 1] == "0123456789abcdef"@[bytes[i] as int % 16],
    decreases bytes.len(),
{
    lemma_hex(bytes);
    let d = bytes.drop_last();
    lemma_hex(d);
    if i < d.len() {
        law_hex_shows_each_byte(d, i);
        assert(hex(bytes)[2 * i] == hex(d)[2 * i]);
        assert(hex(bytes)[2 * i + 1] == hex(d)[2 * i + 1]);
    } else {
        lemma_hex_digit(bytes[i] as int / 16);
        lemma_hex_digit(bytes[i] as int % 16);
    }
}

/// The hexadecimal digits, in the order of their values.
proof fn lemma_hex_digit(d: int)
    requires
        0 <= d < 16,
    ensures
        hex_digit(d) == "0123456789abcdef"@[d],
{
    reveal_strlit("0123456789abcdef");
    let t = "0123456789abcdef"@;
    assert(t[0] == '0' && t[1] == '1' && t[2] == '2' && t[3] == '3' && t[4] == '4' && t[5] == '5'
        && t[6] == '6' && t[7] == '7' && t[8] == '8' && t[9] == '9' && t[10] == 'a' && t[11] == 'b'
        && t[12] == 'c' && t[13] == 'd' && t[14] == 'e' && t[15] == 'f');
}

/// An object id shows the bytes of the digest of what is hashed.
pub proof fn law_id_shows_the_digest(bytes: Seq<u8>, i: int)
    requires
        0 <= i < sha1_of(blob_data(bytes)).len(),
    ensures
        ({
            let digest = sha1_of(blob_data(bytes));
            &&& blob_id(bytes).len() == 2 * digest.len()
            &&& blob_id(bytes)[2 * i] == "0123456789abcdef"@[digest[i] as int / 16]
            &&& blob_id(bytes)[2 * i + 1] == "0123456789abcdef"@[digest[i] as int % 16]
        }),
{
    law_hex_shows_each_byte(sha1_of(blob_data(bytes)), i);
}

} // verus!

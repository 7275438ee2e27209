//! Sorting texts by the bytes of their encoding, without repetitions.

use crate::text::texts;
use vstd::prelude::*;
use vstd::utf8::{encode_utf8, encode_utf8_decode_utf8};

verus! {

/// Whether `a` stands before `b` when bytes are compared from position `i` on.
pub open spec fn bytes_before(a: Seq<u8>, b: Seq<u8>, i: int) -> bool
    decreases a.len() - i,
{
    if i < 0 || i >= b.len() {
        false
    } else if i >= a.len() {
        true
    } else if a[i] != b[i] {
        a[i] < b[i]
    } else {
        bytes_before(a, b, i + 1)
    }
}

/// Whether `a` stands before `b` in the order of their UTF-8 bytes.
pub open spec fn before(a: Seq<char>, b: Seq<char>) -> bool {
    bytes_before(encode_utf8(a), encode_utf8(b), 0)
}

/// `sorted` with `x` in its place, unless it is there already.
pub open spec fn insert_sorted(sorted: Seq<Seq<char>>, x: Seq<char>) -> Seq<Seq<char>>
    decreases sorted.len(),
{
    if sorted.len() == 0 {
        seq![x]
    } else if sorted.last() == x {
        sorted
    } else if before(sorted.last(), x) {
        sorted.push(x)
    } else {
        insert_sorted(sorted.drop_last(), x).push(sorted.last())
    }
}

/// The elements of `s` in order, each once.
pub open spec fn sorted_once(s: Seq<Seq<char>>) -> Seq<Seq<char>>
    decreases s.len(),
{
    if s.len() == 0 {
        Seq::empty()
    } else {
        insert_sorted(sorted_once(s.drop_last()), s.last())
    }
}

/// Whether each element of `s` stands before the next ones.
pub open spec fn strictly_sorted(s: Seq<Seq<char>>) -> bool {
    forall|i: int, j: int| 0 <= i < j < s.len() ==> before(#[trigger] s[i], #[trigger] s[j])
}

/// Whether `a` stands before `b`.
pub fn stands_before(a: &str, b: &str) -> (r: bool)
    ensures
        r == before(a@, b@),
{
    let x = a.as_bytes();
    let y = b.as_bytes();
    let mut i: usize = 0;
    while i < x.len() && i < y.len()
        invariant
            x@ == encode_utf8(a@),
            y@ == encode_utf8(b@),
            i <= x@.len(),
            i <= y@.len(),
            before(a@, b@) == bytes_before(x@, y@, i as int),
        decreases x@.len() - i,
    {
        if x[i] != y[i] {
            return x[i] < y[i];
        }
        i += 1;
    }
    i < y.len()
}

/// Puts `x` into its place in `sorted`, unless it is there already.
fn put_in_place(sorted: &mut Vec<String>, x: String)
    ensures
        texts(final(sorted)@) == insert_sorted(texts(old(sorted)@), x@),
{
    let ghost all = texts(sorted@);
    let n: usize = sorted.len();
    let mut i: usize = n;
    assert(all.take(n as int) == all);
    assert(all.skip(n as int) == Seq::<Seq<char>>::empty());
    while i > 0
        invariant
            n == sorted@.len(),
            *sorted == *old(sorted),
            all == texts(sorted@),
            i <= n,
            insert_sorted(all, x@) == insert_sorted(all.take(i as int), x@) + all.skip(i as int),
        decreases i,
    {
        let ghost head = all.take(i as int);
        assert(head.last() == sorted@[i - 1]@);
        assert(head.drop_last() == all.take(i - 1));
        assert(all.skip(i - 1) == seq![all[i - 1]] + all.skip(i as int));
        if crate::text::same(&sorted[i - 1], &x) {
            assert(head + all.skip(i as int) == all);
            return;
        }
        if stands_before(&sorted[i - 1], &x) {
            let ghost xs = x@;
            sorted.insert(i, x);
            assert(texts(sorted@) == head.push(xs) + all.skip(i as int));
            return;
        }
        assert(insert_sorted(head.drop_last(), x@).push(head.last()) + all.skip(i as int)
            == insert_sorted(all.take(i - 1), x@) + all.skip(i - 1));
        i -= 1;
    }
    let ghost xs = x@;
    assert(all.take(0) == Seq::<Seq<char>>::empty());
    sorted.insert(0, x);
    assert(texts(sorted@) == seq![xs] + all.skip(0));
}

/// The elements of `v` in order, each once.
pub fn sort_once(v: Vec<String>) -> (r: Vec<String>)
    ensures
        texts(r@) == sorted_once(texts(v@)),
{
    let ghost all = texts(v@);
    let mut r: Vec<String> = Vec::new();
    let mut i: usize = 0;
    assert(texts(r@) =~= Seq::<Seq<char>>::empty());
    while i < v.len()
        invariant
            all == texts(v@),
            i <= v@.len(),
            texts(r@) == sorted_once(all.take(i as int)),
        decreases v@.len() - i,
    {
        assert(all.take(i + 1).drop_last() == all.take(i as int));
        assert(all.take(i + 1).last() == v@[i as int]@);
        put_in_place(&mut r, v[i].clone());
        i += 1;
    }
    assert(all.take(all.len() as int) == all);
    r
}

/// The order of bytes is total.
proof fn lemma_bytes_total(a: Seq<u8>, b: Seq<u8>, i: int)
    requires
        0 <= i <= a.len(),
        i <= b.len(),
        forall|k: int| 0 <= k < i ==> a[k] == b[k],
    ensures
        a == b || bytes_before(a, b, i) || bytes_before(b, a, i),
    decreases a.len() - i,
{
    if i == a.len() && i == b.len() {
        assert(a =~= b);
    } else if i < a.len() && i < b.len() && a[i] == b[i] {
        lemma_bytes_total(a, b, i + 1);
    }
}

/// The order of bytes is transitive.
proof fn lemma_bytes_transitive(a: Seq<u8>, b: Seq<u8>, c: Seq<u8>, i: int)
    requires
        0 <= i,
        bytes_before(a, b, i),
        bytes_before(b, c, i),
    ensures
        bytes_before(a, c, i),
    decreases a.len() - i,
{
    if i < a.len() && i < b.len() && i < c.len() && a[i] == b[i] && b[i] == c[i] {
        lemma_bytes_transitive(a, b, c, i + 1);
    }
}

/// Nothing stands before itself.
proof fn lemma_bytes_irreflexive(a: Seq<u8>, i: int)
    requires
        0 <= i,
    ensures
        !bytes_before(a, a, i),
    decreases a.len() - i,
{
    if i < a.len() {
        lemma_bytes_irreflexive(a, i + 1);
    }
}

/// The order of texts is a strict total order.
pub proof fn law_order_is_strict_and_total(a: Seq<char>, b: Seq<char>, c: Seq<char>)
    ensures
        !before(a, a),
        a == b || before(a, b) || before(b, a),
        before(a, b) && before(b, c) ==> before(a, c),
{
    lemma_bytes_irreflexive(encode_utf8(a), 0);
    lemma_bytes_total(encode_utf8(a), encode_utf8(b), 0);
    encode_utf8_decode_utf8(a);
    encode_utf8_decode_utf8(b);
    if before(a, b) && before(b, c) {
        lemma_bytes_transitive(encode_utf8(a), encode_utf8(b), encode_utf8(c), 0);
    }
}

/// Putting an element into its place keeps the order, and adds that element alone.
proof fn lemma_insert_sorted(sorted: Seq<Seq<char>>, x: Seq<char>)
    requires
        strictly_sorted(sorted),
    ensures
        strictly_sorted(insert_sorted(sorted, x)),
        forall|y: Seq<char>|
            #[trigger] insert_sorted(sorted, x).contains(y) <==> sorted.contains(y) || y == x,
        insert_sorted(sorted, x).len() <= sorted.len() + 1,
    decreases sorted.len(),
{
    let r = insert_sorted(sorted, x);
    if sorted.len() == 0 {
        assert(r[0] == x);
    } else if sorted.last() == x {
        assert(sorted[sorted.len() - 1] == x);
    } else if before(sorted.last(), x) {
        assert forall|i: int, j: int| 0 <= i < j < r.len() implies before(
            #[trigger] r[i],
            #[trigger] r[j],
        ) by {
            if j == sorted.len() {
                if i < sorted.len() - 1 {
                    assert(before(sorted[i], sorted[sorted.len() - 1]));
                    law_order_is_strict_and_total(sorted[i], sorted.last(), x);
                }
            } else {
                assert(before(sorted[i], sorted[j]));
            }
        }
        assert forall|y: Seq<char>| #[trigger] r.contains(y) <==> sorted.contains(y) || y == x by {
            if sorted.contains(y) {
                let k = choose|k: int| 0 <= k < sorted.len() && sorted[k] == y;
                assert(r[k] == y);
            }
            if y == x {
                assert(r[sorted.len() as int] == y);
            }
            if r.contains(y) {
                let k = choose|k: int| 0 <= k < r.len() && r[k] == y;
                if k < sorted.len() {
                    assert(sorted[k] == y);
                }
            }
        }
    } else {
        let d = sorted.drop_last();
        let last = sorted.last();
        assert(strictly_sorted(d)) by {
            assert forall|i: int, j: int| 0 <= i < j < d.len() implies before(
                #[trigger] d[i],
                #[trigger] d[j],
            ) by {
                assert(before(sorted[i], sorted[j]));
            }
        }
        lemma_insert_sorted(d, x);
        let p = insert_sorted(d, x);
        law_order_is_strict_and_total(last, x, last);
        assert forall|i: int, j: int| 0 <= i < j < r.len() implies before(
            #[trigger] r[i],
            #[trigger] r[j],
        ) by {
            if j == p.len() {
                assert(p.contains(p[i]));
                if p[i] != x {
                    assert(d.contains(p[i]));
                    let k = choose|k: int| 0 <= k < d.len() && d[k] == p[i];
                    assert(before(sorted[k], sorted[sorted.len() - 1]));
                }
            } else {
                assert(before(p[i], p[j]));
            }
        }
        assert forall|y: Seq<char>| #[trigger] r.contains(y) <==> sorted.contains(y) || y == x by {
            if r.contains(y) {
                let k = choose|k: int| 0 <= k < r.len() && r[k] == y;
                if k < p.len() {
                    assert(p.contains(p[k]));
                    if y != x {
                        let m = choose|m: int| 0 <= m < d.len() && d[m] == y;
                        assert(sorted[m] == y);
                    }
                } else {
                    assert(sorted[sorted.len() - 1] == y);
                }
            }
            if sorted.contains(y) || y == x {
                if y == last {
                    assert(r[p.len() as int] == y);
                } else {
                    if sorted.contains(y) {
                        let m = choose|m: int| 0 <= m < sorted.len() && sorted[m] == y;
                        assert(d[m] == y);
                    }
                    assert(p.contains(y));
                    let k = choose|k: int| 0 <= k < p.len() && p[k] == y;
                    assert(r[k] == y);
                }
            }
        }
    }
}

/// Sorting keeps the elements, drops repetitions and puts each element before the greater ones.
pub proof fn law_sorted_once(s: Seq<Seq<char>>)
    ensures
        strictly_sorted(sorted_once(s)),
        forall|y: Seq<char>| #[trigger] sorted_once(s).contains(y) <==> s.contains(y),
        sorted_once(s).len() <= s.len(),
    decreases s.len(),
{
    if s.len() > 0 {
        let d = s.drop_last();
        law_sorted_once(d);
        lemma_insert_sorted(sorted_once(d), s.last());
        assert forall|y: Seq<char>| #[trigger] sorted_once(s).contains(y) <==> s.contains(y) by {
            if s.contains(y) {
                let k = choose|k: int| 0 <= k < s.len() && s[k] == y;
                if k < d.len() {
                    assert(d[k] == y);
                } else {
                    assert(y == s.last());
                }
            }
            if d.contains(y) {
                let k = choose|k: int| 0 <= k < d.len() && d[k] == y;
                assert(s[k] == y);
            }
            if y == s.last() {
                assert(s[s.len() - 1] == y);
            }
            assert(sorted_once(d).contains(y) <==> d.contains(y));
        }
    }
}

/// The first byte in which two texts differ decides which of them stands before the other, and a
/// text stands before every longer one that begins with it.
pub proof fn law_first_difference_decides(a: Seq<char>, b: Seq<char>, at: int)
    requires
        0 <= at <= encode_utf8(a).len(),
        at <= encode_utf8(b).len(),
        encode_utf8(a).take(at) == encode_utf8(b).take(at),
    ensures
        at < encode_utf8(a).len() && at < encode_utf8(b).len() && encode_utf8(a)[at] < encode_utf8(
            b,
        )[at] ==> before(a, b) && !before(b, a),
        at == encode_utf8(a).len() && at < encode_utf8(b).len() ==> before(a, b) && !before(b, a),
{
    let x = encode_utf8(a);
    let y = encode_utf8(b);
    assert forall|k: int| 0 <= k < at implies #[trigger] x[k] == y[k] by {
        assert(x.take(at)[k] == y.take(at)[k]);
    }
    lemma_same_bytes_are_passed(x, y, 0, at);
    lemma_same_bytes_are_passed(y, x, 0, at);
}

/// Equal bytes decide nothing.
proof fn lemma_same_bytes_are_passed(a: Seq<u8>, b: Seq<u8>, i: int, at: int)
    requires
        0 <= i <= at <= a.len(),
        at <= b.len(),
        forall|k: int| 0 <= k < at ==> #[trigger] a[k] == b[k],
    ensures
        bytes_before(a, b, i) == bytes_before(a, b, at),
    decreases at - i,
{
    if i < at {
        assert(a[i] == b[i]);
        lemma_same_bytes_are_passed(a, b, i + 1, at);
    }
}

} // verus!

//! What calls of a program gave, so that no call is made twice.

use crate::text::{same, texts};
use vstd::prelude::*;

verus! {

/// The results of the calls that were made, under their arguments.
pub struct OutputCache {
    entries: Vec<(Vec<String>, String)>,
}

/// The result that the latest of `entries` with the arguments `args` holds.
pub open spec fn latest(entries: Seq<(Vec<String>, String)>, args: Seq<Seq<char>>) -> Option<
    Seq<char>,
>
    decreases entries.len(),
{
    if entries.len() == 0 {
        None
    } else if texts(entries.last().0@) == args {
        Some(entries.last().1@)
    } else {
        latest(entries.drop_last(), args)
    }
}

impl OutputCache {
    /// The result that is kept for a call with the arguments `args`.
    pub closed spec fn kept(&self, args: Seq<Seq<char>>) -> Option<Seq<char>> {
        latest(self.entries@, args)
    }

    /// A cache that holds nothing.
    pub fn new() -> (r: OutputCache)
        ensures
            forall|args: Seq<Seq<char>>| #[trigger] r.kept(args) is None,
    {
        OutputCache { entries: Vec::new() }
    }

    /// The result that is kept for a call with the arguments `args`.
    pub fn get(&self, args: &Vec<String>) -> (r: Option<String>)
        ensures
            match r {
                Some(s) => self.kept(texts(args@)) == Some(s@),
                None => self.kept(texts(args@)) is None,
            },
    {
        let mut i: usize = self.entries.len();
        assert(self.entries@.take(i as int) == self.entries@);
        while i > 0
            invariant
                i <= self.entries@.len(),
                latest(self.entries@, texts(args@)) == latest(
                    self.entries@.take(i as int),
                    texts(args@),
                ),
            decreases i,
        {
            assert(self.entries@.take(i as int).drop_last() == self.entries@.take(i - 1));
            if same_texts(&self.entries[i - 1].0, args) {
                return Some(self.entries[i - 1].1.clone());
            }
            i -= 1;
        }
        None
    }

    /// Keeps `output` as the result of a call with the arguments `args`.
    pub fn insert(&mut self, args: Vec<String>, output: String)
        ensures
            final(self).kept(texts(args@)) == Some(output@),
            forall|other: Seq<Seq<char>>|
                other != texts(args@) ==> #[trigger] final(self).kept(other) == old(self).kept(
                    other,
                ),
    {
        let ghost before = self.entries@;
        self.entries.push((args, output));
        assert(self.entries@.drop_last() == before);
    }
}

/// Whether `a` and `b` hold the same texts.
fn same_texts(a: &Vec<String>, b: &Vec<String>) -> (r: bool)
    ensures
        r == (texts(a@) == texts(b@)),
{
    if a.len() != b.len() {
        assert(texts(a@).len() != texts(b@).len());
        return false;
    }
    let mut i: usize = 0;
    while i < a.len()
        invariant
            a@.len() == b@.len(),
            i <= a@.len(),
            forall|k: int| 0 <= k < i ==> #[trigger] texts(a@)[k] == texts(b@)[k],
        decreases a@.len() - i,
    {
        if !same(&a[i], &b[i]) {
            assert(texts(a@)[i as int] != texts(b@)[i as int]);
            return false;
        }
        i += 1;
    }
    assert(texts(a@) =~= texts(b@));
    true
}

} // verus!

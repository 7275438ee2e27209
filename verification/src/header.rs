//! The header line: flags, target and statistics.

use crate::stats::{diff_stats, diff_totals, stats_text};
use crate::text::{
    chars_of, contains, find, join, join_with, lemma_find_from, matches_at, mentions, piece,
    position_of, same, strings, texts, trim, trimmed,
};
use vstd::prelude::*;
use vstd::string::*;

verus! {

/// What the header is made from.
pub struct HeaderState {
    /// What is diffed against.
    pub target: String,
    /// `target` while the target picker is open.
    pub mode: String,
    /// `true` for side-by-side previews.
    pub sbs: String,
    /// The whitespace option.
    pub ws: String,
    /// `true` while generated files are left out.
    pub exclude: String,
    /// The merge base.
    pub merge_base: String,
    /// The upstream commit, or nothing.
    pub upstream: String,
}

/// The contents of [`HeaderState`].
pub struct HeaderModel {
    pub target: Seq<char>,
    pub mode: Seq<char>,
    pub sbs: Seq<char>,
    pub ws: Seq<char>,
    pub exclude: Seq<char>,
    pub merge_base: Seq<char>,
    pub upstream: Seq<char>,
}

impl View for HeaderState {
    type V = HeaderModel;

    open spec fn view(&self) -> HeaderModel {
        HeaderModel {
            target: self.target@,
            mode: self.mode@,
            sbs: self.sbs@,
            ws: self.ws@,
            exclude: self.exclude@,
            merge_base: self.merge_base@,
            upstream: self.upstream@,
        }
    }
}

/// The flags that are set.
pub open spec fn flags(h: HeaderModel) -> Seq<Seq<char>> {
    let a = if h.sbs == "true"@ {
        seq!["s"@]
    } else {
        Seq::empty()
    };
    let b = if h.ws == "-w"@ {
        a.push("w"@)
    } else {
        a
    };
    if h.exclude == "true"@ {
        b.push("x"@)
    } else {
        b
    }
}

/// Whether the header counts the commits since the target.
pub open spec fn counts_commits(h: HeaderModel) -> bool {
    &&& h.mode != "target"@
    &&& h.target != "HEAD"@
    &&& !(h.upstream.len() > 0 && h.target == h.upstream)
    &&& h.target != h.merge_base
    &&& contains(h.target, "^.."@)
}

/// What stands behind the first `..` of the range `target`.
pub open spec fn range_tip(target: Seq<char>) -> Seq<char> {
    match find(target, ".."@) {
        Some(i) => target.skip(i + 2),
        None => Seq::empty(),
    }
}

/// The arguments of the `git` call that counts the commits since the target.
pub open spec fn rev_count_argv(target: Seq<char>) -> Seq<Seq<char>> {
    seq!["rev-list"@, "--count"@, range_tip(target) + "..HEAD"@]
}

/// The letter for the target. `rev_count` is the number of commits since the target.
pub open spec fn target_part(h: HeaderModel, rev_count: Seq<char>) -> Seq<char> {
    if h.mode == "target"@ {
        Seq::empty()
    } else if h.target == "HEAD"@ {
        "u"@
    } else if h.upstream.len() > 0 && h.target == h.upstream {
        "p"@
    } else if h.target == h.merge_base {
        "m"@
    } else if contains(h.target, "^.."@) {
        "~"@ + if trim(rev_count).len() == 0 {
            "?"@
        } else {
            trim(rev_count)
        }
    } else {
        Seq::empty()
    }
}

/// `a` and `b` with `sep` between them where neither is empty.
pub open spec fn spaced(a: Seq<char>, sep: Seq<char>, b: Seq<char>) -> Seq<char> {
    if a.len() > 0 && b.len() > 0 {
        a + sep + b
    } else if a.len() > 0 {
        a
    } else {
        b
    }
}

/// The header line.
pub open spec fn header_text(h: HeaderModel, rev_count: Seq<char>, stats: Seq<char>) -> Seq<char> {
    spaced(join(flags(h), " "@), " · "@, spaced(target_part(h, rev_count), " "@, stats))
}

/// The arguments of the `git` call that counts the commits since the target, where the header
/// shows their number.
pub fn rev_count_args(h: &HeaderState) -> (r: Option<Vec<String>>)
    ensures
        r is Some <==> counts_commits(h@),
        r matches Some(args) ==> texts(args@) == rev_count_argv(h.target@),
{
    if same(&h.mode, "target") || same(&h.target, "HEAD") || (!h.upstream.as_str().is_empty()
        && same(&h.target, &h.upstream)) || same(&h.target, &h.merge_base) || !mentions(
        &h.target,
        "^..",
    ) {
        return None;
    }
    let cs = chars_of(&h.target);
    let n: usize = cs.len();
    let dots = chars_of("..");
    proof {
        reveal_strlit("..");
    }
    let mut rev = match position_of(&cs, &dots) {
        Some(i) => piece(&cs, i + 2, n),
        None => String::new(),
    };
    assert(rev@ == range_tip(h.target@));
    rev.append("..HEAD");
    let args = strings(&["rev-list", "--count", rev.as_str()]);
    assert(texts(args@) =~= rev_count_argv(h.target@));
    Some(args)
}

/// `a` and `b` with `sep` between them where neither is empty.
fn space_out(a: String, sep: &str, b: &str) -> (r: String)
    ensures
        r@ == spaced(a@, sep@, b@),
{
    let mut r = a;
    if !r.as_str().is_empty() && !b.is_empty() {
        r.append(sep);
        r.append(b);
        r
    } else if !r.as_str().is_empty() {
        r
    } else {
        b.to_owned()
    }
}

/// The header line.
///
/// `rev_count` is the output of `git` for [`rev_count_args`], or nothing; `numstat` and
/// `untracked` are what [`diff_stats`] takes for the target.
pub fn header(h: &HeaderState, rev_count: &str, numstat: &str, untracked: &[u64]) -> (r: String)
    requires
        diff_totals(numstat@, h.target@, untracked@).0 <= u64::MAX,
        diff_totals(numstat@, h.target@, untracked@).1 <= u64::MAX,
    ensures
        ({
            let t = diff_totals(numstat@, h.target@, untracked@);
            r@ == header_text(h@, rev_count@, stats_text(t.0, t.1))
        }),
{
    let mut parts: Vec<String> = Vec::new();
    assert(texts(parts@) =~= Seq::<Seq<char>>::empty());
    if same(&h.sbs, "true") {
        parts.push("s".to_owned());
        assert(texts(parts@) =~= seq!["s"@]);
    }
    if same(&h.ws, "-w") {
        let ghost before = texts(parts@);
        parts.push("w".to_owned());
        assert(texts(parts@) =~= before.push("w"@));
    }
    if same(&h.exclude, "true") {
        let ghost before = texts(parts@);
        parts.push("x".to_owned());
        assert(texts(parts@) =~= before.push("x"@));
    }
    assert(texts(parts@) == flags(h@));
    let target = if same(&h.mode, "target") {
        String::new()
    } else if same(&h.target, "HEAD") {
        "u".to_owned()
    } else if !h.upstream.as_str().is_empty() && same(&h.target, &h.upstream) {
        "p".to_owned()
    } else if same(&h.target, &h.merge_base) {
        "m".to_owned()
    } else if mentions(&h.target, "^..") {
        let count = trimmed(rev_count);
        let mut t = "~".to_owned();
        if count.as_str().is_empty() {
            t.append("?");
        } else {
            t.append(&count);
        }
        t
    } else {
        String::new()
    };
    assert(target@ == target_part(h@, rev_count@));
    let stats = diff_stats(numstat, &h.target, untracked);
    let rhs = space_out(target, " ", &stats);
    space_out(join_with(&parts, " "), " · ", &rhs)
}

/// While the target picker is open, the header says nothing of the target: it is made of the
/// flags and the statistics alone.
pub proof fn law_target_picker_hides_the_target(
    h: HeaderModel,
    rev_count: Seq<char>,
    stats: Seq<char>,
)
    requires
        h.mode == "target"@,
    ensures
        header_text(h, rev_count, stats) == spaced(join(flags(h), " "@), " · "@, stats),
{
}

/// The number of commits matters to the header only where it is asked for.
pub proof fn law_count_matters_only_where_asked_for(
    h: HeaderModel,
    count: Seq<char>,
    other: Seq<char>,
    stats: Seq<char>,
)
    requires
        !counts_commits(h),
    ensures
        header_text(h, count, stats) == header_text(h, other, stats),
{
}

/// The tip of a range `a..b` is `b`, where no dot stands in `a`.
pub proof fn law_range_tip_reads_back(a: Seq<char>, b: Seq<char>)
    requires
        !a.contains('.'),
    ensures
        range_tip(a + ".."@ + b) == b,
        rev_count_argv(a + ".."@ + b) == seq!["rev-list"@, "--count"@, b + "..HEAD"@],
{
    reveal_strlit("..");
    let s = a + ".."@ + b;
    let p = ".."@;
    let at = a.len() as int;
    assert(s.subrange(at, at + 2) =~= p);
    assert(matches_at(s, p, at));
    lemma_find_from(s, p, 0);
    let i = find(s, p)->0;
    if i < at {
        assert(s.subrange(i, i + 2)[0] == a[i]);
        assert(p[0] == '.');
        assert(a.contains('.'));
    }
    assert(s.skip(at + 2) =~= b);
}

} // verus!

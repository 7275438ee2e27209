//! What the header says, for every state.

use crate::header::{counts_commits, flags, header_text, target_part, HeaderModel};
use crate::text::{contains, join, trim};
use vstd::prelude::*;

verus! {

/// The switches that are on are shown by their letters, in this order.
pub proof fn law_letters_of_the_switches(h: HeaderModel)
    ensures
        flags(h) == (if h.sbs == "true"@ {
            seq!["s"@]
        } else {
            Seq::empty()
        }) + (if h.ws == "-w"@ {
            seq!["w"@]
        } else {
            Seq::empty()
        }) + (if h.exclude == "true"@ {
            seq!["x"@]
        } else {
            Seq::empty()
        }),
{
    assert(flags(h) =~= (if h.sbs == "true"@ {
        seq!["s"@]
    } else {
        Seq::empty()
    }) + (if h.ws == "-w"@ {
        seq!["w"@]
    } else {
        Seq::empty()
    }) + (if h.exclude == "true"@ {
        seq!["x"@]
    } else {
        Seq::empty()
    }));
}

/// The letter for the target: none while targets are listed, `u` for the working tree, `p` for
/// the upstream commit, `m` for the merge base, and the distance for a commit. Other targets have
/// none.
pub proof fn law_letter_of_the_target(h: HeaderModel, count: Seq<char>)
    ensures
        h.mode == "target"@ ==> target_part(h, count).len() == 0,
        h.mode != "target"@ && h.target == "HEAD"@ ==> target_part(h, count) == "u"@,
        h.mode != "target"@ && h.target != "HEAD"@ && h.target.len() > 0 && h.target == h.upstream
            ==> target_part(h, count) == "p"@,
        h.mode != "target"@ && h.target != "HEAD"@ && (h.target != h.upstream || h.upstream.len()
            == 0) && h.target == h.merge_base ==> target_part(h, count) == "m"@,
        h.mode != "target"@ && h.target != "HEAD"@ && (h.target != h.upstream || h.upstream.len()
            == 0) && h.target != h.merge_base && contains(h.target, "^.."@) && trim(count).len()
            > 0 ==> target_part(h, count) == "~"@ + trim(count),
        h.mode != "target"@ && h.target != "HEAD"@ && (h.target != h.upstream || h.upstream.len()
            == 0) && h.target != h.merge_base && contains(h.target, "^.."@) && trim(count).len()
            == 0 ==> target_part(h, count) == "~"@ + "?"@,
        h.target != "HEAD"@ && (h.target != h.upstream || h.upstream.len() == 0) && h.target
            != h.merge_base && !contains(h.target, "^.."@) ==> target_part(h, count).len() == 0,
{
}

/// The commits are counted exactly where the header shows their number.
pub proof fn law_commits_are_counted_where_shown(h: HeaderModel)
    ensures
        counts_commits(h) <==> h.mode != "target"@ && h.target != "HEAD"@ && (h.target
            != h.upstream || h.upstream.len() == 0) && h.target != h.merge_base && contains(
            h.target,
            "^.."@,
        ),
{
}

/// The header is the letters of the switches, a dot, the letter of the target and the statistics.
/// What is missing is left out together with what would set it apart.
pub proof fn law_parts_of_the_header(h: HeaderModel, count: Seq<char>, stats: Seq<char>)
    ensures
        ({
            let f = join(flags(h), " "@);
            let t = target_part(h, count);
            let r = header_text(h, count, stats);
            &&& f.len() > 0 && t.len() > 0 && stats.len() > 0 ==> r == f + " · "@ + t + " "@ + stats
            &&& f.len() > 0 && t.len() > 0 && stats.len() == 0 ==> r == f + " · "@ + t
            &&& f.len() > 0 && t.len() == 0 && stats.len() > 0 ==> r == f + " · "@ + stats
            &&& f.len() > 0 && t.len() == 0 && stats.len() == 0 ==> r == f
            &&& f.len() == 0 && t.len() > 0 && stats.len() > 0 ==> r == t + " "@ + stats
            &&& f.len() == 0 && t.len() > 0 && stats.len() == 0 ==> r == t
            &&& f.len() == 0 && t.len() == 0 ==> r == stats
        }),
{
    let f = join(flags(h), " "@);
    let t = target_part(h, count);
    if f.len() > 0 && t.len() > 0 && stats.len() > 0 {
        assert(header_text(h, count, stats) =~= f + " · "@ + t + " "@ + stats);
    }
}

} // verus!

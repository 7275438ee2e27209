//! What holds of every command line.

use crate::args::{is_commit_back, parsed, subcommands, with_arg, ArgsModel};
use crate::command::{command_named, command_of, Command};
use crate::number::all_digits;
use crate::text::is_digit;
use vstd::prelude::*;

verus! {

/// The names of the mode flags and of the subcommands tell each other apart.
proof fn lemma_names()
    ensures
        forall|s: Seq<char>| #[trigger] is_commit_back(s) ==> !subcommands().contains(s),
        forall|s: Seq<char>| #[trigger]
            is_commit_back(s) ==> s != "w"@ && s != "m"@ && s != "p"@ && s != "x"@ && s != "s"@ && s
                != "t"@,
        "w"@ != "m"@,
        "w"@ != "p"@,
        "w"@ != "x"@,
        "w"@ != "s"@,
        "w"@ != "t"@,
        "m"@ != "p"@,
        "m"@ != "x"@,
        "m"@ != "s"@,
        "m"@ != "t"@,
        "p"@ != "x"@,
        "p"@ != "s"@,
        "p"@ != "t"@,
        "x"@ != "s"@,
        "x"@ != "t"@,
        "s"@ != "t"@,
        forall|i: int| 0 <= i < 15 ==> (#[trigger] subcommands()[i]).len() >= 4,
        "w"@.len() == 1 && "m"@.len() == 1 && "p"@.len() == 1 && "x"@.len() == 1 && "s"@.len() == 1
            && "t"@.len() == 1,
{
    reveal_strlit("w");
    reveal_strlit("m");
    reveal_strlit("p");
    reveal_strlit("x");
    reveal_strlit("s");
    reveal_strlit("t");
    reveal_strlit("list");
    reveal_strlit("toggle");
    reveal_strlit("resize");
    reveal_strlit("send");
    reveal_strlit("enter-action");
    reveal_strlit("escape-action");
    reveal_strlit("context");
    reveal_strlit("open");
    reveal_strlit("toggle-ws");
    reveal_strlit("toggle-exclude");
    reveal_strlit("toggle-sbs");
    reveal_strlit("toggle-target");
    reveal_strlit("enter-filter");
    reveal_strlit("preview");
    reveal_strlit("header");
    assert("w"@[0] == 'w' && "m"@[0] == 'm' && "p"@[0] == 'p' && "x"@[0] == 'x' && "s"@[0] == 's'
        && "t"@[0] == 't');
    let all = subcommands();
    assert forall|i: int| 0 <= i < 15 implies (#[trigger] all[i]).len() >= 4 && all[i][0]
        != '~' by {
        assert(all[0][0] == 'l' && all[1][0] == 't' && all[2][0] == 'r' && all[3][0] == 's'
            && all[4][0] == 'e' && all[5][0] == 'e' && all[6][0] == 'c' && all[7][0] == 'o'
            && all[8][0] == 't' && all[9][0] == 't' && all[10][0] == 't' && all[11][0] == 't'
            && all[12][0] == 'e' && all[13][0] == 'p' && all[14][0] == 'h');
    }
    assert forall|s: Seq<char>| #[trigger] is_commit_back(s) implies !all.contains(s) by {
        if all.contains(s) {
            let i = choose|i: int| 0 <= i < all.len() && all[i] == s;
            assert(all[i][0] != '~');
        }
    }
}

/// The digits that the last `~N` among `argv` holds, or nothing.
pub open spec fn last_commit_back(argv: Seq<Seq<char>>) -> Seq<char>
    decreases argv.len(),
{
    if argv.len() == 0 {
        Seq::empty()
    } else if is_commit_back(argv.last()) {
        argv.last().skip(1)
    } else {
        last_commit_back(argv.drop_last())
    }
}

/// Where no subcommand is named, each mode flag is set exactly where its word is given, in
/// whatever place; of several `~N` the last counts.
pub proof fn law_flags_in_any_order(argv: Seq<Seq<char>>)
    requires
        forall|i: int| 0 <= i < argv.len() ==> !subcommands().contains(#[trigger] argv[i]),
    ensures
        parsed(argv) == (ArgsModel {
            ws: if argv.contains("w"@) {
                "-w"@
            } else {
                Seq::empty()
            },
            merge_base: argv.contains("m"@),
            upstream: argv.contains("p"@),
            commit_back: last_commit_back(argv),
            exclude: argv.contains("x"@),
            sidebyside: argv.contains("s"@),
            target_mode: argv.contains("t"@),
            subcmd: Seq::empty(),
            subcmd_args: Seq::empty(),
        }),
    decreases argv.len(),
{
    lemma_names();
    if argv.len() > 0 {
        let d = argv.drop_last();
        assert forall|i: int| 0 <= i < d.len() implies !subcommands().contains(#[trigger] d[i]) by {
            assert(d[i] == argv[i]);
        }
        law_flags_in_any_order(d);
        let last = argv.last();
        assert(!subcommands().contains(argv[argv.len() - 1]));
        assert forall|s: Seq<char>| #[trigger]
            argv.contains(s) == (d.contains(s) || s == last) by {
            if argv.contains(s) {
                let i = choose|i: int| 0 <= i < argv.len() && argv[i] == s;
                if i < d.len() {
                    assert(d[i] == s);
                }
            }
            if d.contains(s) {
                let i = choose|i: int| 0 <= i < d.len() && d[i] == s;
                assert(argv[i] == s);
            }
            if s == last {
                assert(argv[argv.len() - 1] == s);
            }
        }
    }
}

/// Two mode flags give the same in either order, whatever stands before and behind them. Two
/// `~N` that differ do not: the last one counts.
pub proof fn law_neighbouring_flags_commute(
    before: Seq<Seq<char>>,
    a: Seq<char>,
    b: Seq<char>,
    after: Seq<Seq<char>>,
)
    requires
        !subcommands().contains(a),
        !subcommands().contains(b),
        !(is_commit_back(a) && is_commit_back(b)),
        parsed(before).subcmd.len() == 0,
    ensures
        parsed(before.push(a).push(b) + after) == parsed(before.push(b).push(a) + after),
    decreases after.len(),
{
    lemma_names();
    let x = before.push(a).push(b);
    let y = before.push(b).push(a);
    if after.len() == 0 {
        assert(x + after == x);
        assert(y + after == y);
        assert(x.drop_last() == before.push(a));
        assert(y.drop_last() == before.push(b));
        assert(before.push(a).drop_last() == before);
        assert(before.push(b).drop_last() == before);
        let p = parsed(before);
        assert(parsed(before.push(a)) == with_arg(p, a));
        assert(parsed(before.push(b)) == with_arg(p, b));
    } else {
        law_neighbouring_flags_commute(before, a, b, after.drop_last());
        assert((x + after).drop_last() == x + after.drop_last());
        assert((y + after).drop_last() == y + after.drop_last());
    }
}

/// Everything behind a subcommand belongs to it, and nothing there changes a mode flag.
pub proof fn law_subcommand_swallows_the_rest(
    before: Seq<Seq<char>>,
    name: Seq<char>,
    rest: Seq<Seq<char>>,
)
    requires
        subcommands().contains(name),
        parsed(before).subcmd.len() == 0,
    ensures
        parsed(before.push(name) + rest) == (ArgsModel {
            subcmd: name,
            subcmd_args: rest,
            ..parsed(before)
        }),
    decreases rest.len(),
{
    lemma_names();
    let x = before.push(name);
    if rest.len() == 0 {
        lemma_no_subcommand_no_args(before);
        assert(x + rest == x);
        assert(x.drop_last() == before);
        let k = choose|k: int| 0 <= k < subcommands().len() && subcommands()[k] == name;
        assert(subcommands()[k].len() >= 4);
        assert(parsed(x).subcmd_args =~= rest);
    } else {
        law_subcommand_swallows_the_rest(before, name, rest.drop_last());
        let k = choose|k: int| 0 <= k < subcommands().len() && subcommands()[k] == name;
        assert(subcommands()[k].len() >= 4);
        assert((x + rest).drop_last() == x + rest.drop_last());
        assert(rest.drop_last().push(rest.last()) == rest);
    }
}

/// Without a subcommand there is nothing that belongs to one.
proof fn lemma_no_subcommand_no_args(argv: Seq<Seq<char>>)
    ensures
        parsed(argv).subcmd.len() == 0 ==> parsed(argv).subcmd_args.len() == 0,
    decreases argv.len(),
{
    lemma_names();
    if argv.len() > 0 {
        lemma_no_subcommand_no_args(argv.drop_last());
    }
}

/// A command line names a subcommand that exists, or none.
pub proof fn law_subcommand_is_known(argv: Seq<Seq<char>>)
    ensures
        parsed(argv).subcmd.len() == 0 || subcommands().contains(parsed(argv).subcmd),
        parsed(argv).subcmd.len() > 0 ==> command_named(parsed(argv).subcmd) != Command::Nothing,
    decreases argv.len(),
{
    if argv.len() > 0 {
        law_subcommand_is_known(argv.drop_last());
    }
    let name = parsed(argv).subcmd;
    if name.len() > 0 {
        let all = subcommands();
        let k = choose|k: int| 0 <= k < all.len() && all[k] == name;
        assert(all[k] == name);
    }
}

/// The distance of a commit is digits alone, for every command line.
pub proof fn law_commit_back_is_a_number(argv: Seq<Seq<char>>)
    ensures
        all_digits(parsed(argv).commit_back),
    decreases argv.len(),
{
    if argv.len() > 0 {
        law_commit_back_is_a_number(argv.drop_last());
        let arg = argv.last();
        if is_commit_back(arg) {
            let n = arg.skip(1);
            assert forall|i: int| 0 <= i < n.len() implies is_digit(#[trigger] n[i]) by {
                assert(is_digit(arg[i + 1]));
            }
        }
    }
}

/// A distance is a tilde with at least one digit behind and nothing else, and it is those digits.
pub proof fn law_distance_is_a_tilde_and_digits(
    before: Seq<Seq<char>>,
    digits: Seq<char>,
    other: Seq<char>,
)
    requires
        parsed(before).subcmd.len() == 0,
    ensures
        is_commit_back(seq!['~'] + digits) <==> digits.len() > 0 && all_digits(digits),
        digits.len() > 0 && all_digits(digits) ==> parsed(
            before.push(seq!['~'] + digits),
        ).commit_back == digits,
        other.len() == 0 || other[0] != '~' ==> !is_commit_back(other) && parsed(
            before.push(other),
        ).commit_back == parsed(before).commit_back,
{
    let arg = seq!['~'] + digits;
    assert(before.push(arg).drop_last() =~= before);
    assert(before.push(other).drop_last() =~= before);
    assert(arg.skip(1) =~= digits);
    if digits.len() > 0 && all_digits(digits) {
        assert forall|i: int| 1 <= i < arg.len() implies is_digit(#[trigger] arg[i]) by {
            assert(is_digit(digits[i - 1]));
        }
    }
    if is_commit_back(arg) {
        assert forall|i: int| 0 <= i < digits.len() implies is_digit(#[trigger] digits[i]) by {
            assert(is_digit(arg[i + 1]));
        }
    }
}

/// These are the subcommands, and there are no others.
pub proof fn law_names_of_the_subcommands(name: Seq<char>)
    ensures
        subcommands().contains(name) <==> {
            ||| name == "list"@
            ||| name == "header"@
            ||| name == "preview"@
            ||| name == "open"@
            ||| name == "send"@
            ||| name == "toggle"@
            ||| name == "toggle-ws"@
            ||| name == "toggle-exclude"@
            ||| name == "toggle-sbs"@
            ||| name == "toggle-target"@
            ||| name == "enter-action"@
            ||| name == "enter-filter"@
            ||| name == "escape-action"@
            ||| name == "resize"@
            ||| name == "context"@
        },
{
    let all = subcommands();
    assert(all[0] == "list"@ && all[1] == "toggle"@ && all[2] == "resize"@ && all[3] == "send"@
        && all[4] == "enter-action"@ && all[5] == "escape-action"@ && all[6] == "context"@ && all[7]
        == "open"@ && all[8] == "toggle-ws"@ && all[9] == "toggle-exclude"@ && all[10]
        == "toggle-sbs"@ && all[11] == "toggle-target"@ && all[12] == "enter-filter"@ && all[13]
        == "preview"@ && all[14] == "header"@);
}

/// Each name runs the subcommand that it names.
pub proof fn law_name_runs_its_subcommand(a: ArgsModel)
    ensures
        command_named("list"@) == Command::List,
        command_named("header"@) == Command::Header,
        command_named("toggle"@) == Command::Toggle,
        command_named("toggle-ws"@) == Command::ToggleWs,
        command_named("toggle-sbs"@) == Command::ToggleSbs,
        command_named("toggle-exclude"@) == Command::ToggleExclude,
        command_named("toggle-target"@) == Command::ToggleTarget,
        command_named("enter-filter"@) == Command::EnterFilter,
        command_named("resize"@) == Command::Resize,
        command_named("send"@) == Command::Send,
        command_named("context"@) == Command::Context,
        command_named("open"@) == Command::Open,
        command_named("enter-action"@) == Command::EnterAction,
        command_named("escape-action"@) == Command::EscapeAction,
        command_named("preview"@) == Command::Preview,
        a.subcmd.len() > 0 ==> command_of(a) == Some(command_named(a.subcmd)),
        a.subcmd.len() == 0 ==> command_of(a) is None,
{
    reveal_strlit("list");
    reveal_strlit("header");
    reveal_strlit("toggle");
    reveal_strlit("toggle-ws");
    reveal_strlit("toggle-sbs");
    reveal_strlit("toggle-exclude");
    reveal_strlit("toggle-target");
    reveal_strlit("enter-filter");
    reveal_strlit("resize");
    reveal_strlit("send");
    reveal_strlit("context");
    reveal_strlit("open");
    reveal_strlit("enter-action");
    reveal_strlit("escape-action");
    reveal_strlit("preview");
    assert("list"@.len() == 4 && "send"@.len() == 4 && "open"@.len() == 4);
    assert("header"@.len() == 6 && "toggle"@.len() == 6 && "resize"@.len() == 6);
    assert("context"@.len() == 7 && "preview"@.len() == 7);
    assert("toggle-ws"@.len() == 9 && "toggle-sbs"@.len() == 10 && "toggle-exclude"@.len() == 14);
    assert("toggle-target"@.len() == 13 && "escape-action"@.len() == 13);
    assert("enter-filter"@.len() == 12 && "enter-action"@.len() == 12);
    assert("list"@[0] == 'l' && "send"@[0] == 's' && "open"@[0] == 'o');
    assert("header"@[0] == 'h' && "toggle"@[0] == 't' && "resize"@[0] == 'r');
    assert("context"@[0] == 'c' && "preview"@[0] == 'p');
    assert("enter-filter"@[6] == 'f' && "enter-action"@[6] == 'a');
    assert("toggle-target"@[0] == 't' && "escape-action"@[0] == 'e');
}

} // verus!

//! What the subcommands keep, change and undo.

use crate::args::ArgsModel;
use crate::command::{
    clamped, close_picker, done, is_typing, leave_message, number_in, on_context, on_enter,
    on_escape, on_resize, on_toggle_exclude, on_toggle_sbs, on_toggle_target, on_toggle_ws,
    recontexted, resized, OutcomeModel, ReplyModel, StateFile,
};
use crate::header::{flags, HeaderModel};
use crate::number::{
    decimal, law_decimal_reads_back, law_signed_decimal_reads_back, lemma_decimal, signed_decimal,
};
use crate::startup::{first_state, state_variable};
use crate::targets::limit_in;
use crate::text::{is_digit, starts_with, trim_end_newlines};
use vstd::prelude::*;

verus! {

/// What the state files hold.
pub type State = Map<StateFile, Seq<char>>;

/// What the state files hold after `writes`.
pub open spec fn applied(state: State, writes: Seq<(StateFile, Seq<char>)>) -> State
    decreases writes.len(),
{
    if writes.len() == 0 {
        state
    } else {
        applied(state, writes.drop_last()).insert(writes.last().0, writes.last().1)
    }
}

/// What the state files hold after a subcommand.
pub open spec fn after(state: State, outcome: OutcomeModel) -> State {
    applied(state, outcome.writes)
}

/// The value that is read from the state file `f`.
pub open spec fn value(state: State, f: StateFile) -> Seq<char> {
    trim_end_newlines(state[f])
}

/// Whether a text is read back from a state file as it was written.
pub open spec fn keeps(s: Seq<char>) -> bool {
    s.len() == 0 || s.last() != '\n'
}

/// Whether every state file holds a value that it may hold.
pub open spec fn is_valid(state: State) -> bool {
    &&& forall|f: StateFile| #[trigger] state.contains_key(f)
    &&& 20 <= number_in(value(state, StateFile::Size), 80) <= 95
    &&& 0 <= number_in(value(state, StateFile::Context), 7) <= 999
    &&& value(state, StateFile::Ws) == "-w"@ || value(state, StateFile::Ws) == ""@
    &&& value(state, StateFile::Exclude) == "true"@ || value(state, StateFile::Exclude) == "false"@
    &&& value(state, StateFile::Sbs) == "true"@ || value(state, StateFile::Sbs) == "false"@
    &&& value(state, StateFile::Mode) == "files"@ || value(state, StateFile::Mode) == "target"@
    &&& limit_in(value(state, StateFile::RecentLimit)) >= 10
}

/// The words that are written to state files are read back as they were written.
proof fn lemma_words()
    ensures
        trim_end_newlines("-w"@) == "-w"@,
        trim_end_newlines(""@) == ""@,
        trim_end_newlines("true"@) == "true"@,
        trim_end_newlines("false"@) == "false"@,
        trim_end_newlines("files"@) == "files"@,
        trim_end_newlines("target"@) == "target"@,
        "-w"@ != ""@,
        ""@.len() == 0,
        "true"@ != "false"@,
        "files"@ != "target"@,
        keeps("files"@),
{
    reveal_strlit("-w");
    reveal_strlit("");
    reveal_strlit("true");
    reveal_strlit("false");
    reveal_strlit("files");
    reveal_strlit("target");
    assert("true"@[0] == 't' && "false"@[0] == 'f' && "files"@[0] == 'f' && "target"@[0] == 't');
}

/// A number that is written to a state file is read back.
proof fn lemma_signed_value(n: int, default: int)
    requires
        0 <= n <= 999,
    ensures
        number_in(trim_end_newlines(signed_decimal(n)), default) == n,
        keeps(signed_decimal(n)),
{
    lemma_decimal(n as nat);
    let s = decimal(n as nat);
    assert(is_digit(s[s.len() - 1]));
    law_signed_decimal_reads_back(n, 0x8000_0000, 0x7fff_ffff);
}

/// A count that is written to a state file is read back.
proof fn lemma_limit(n: nat)
    requires
        n <= u32::MAX,
    ensures
        limit_in(trim_end_newlines(decimal(n))) == n,
{
    lemma_decimal(n);
    let s = decimal(n);
    assert(is_digit(s[s.len() - 1]));
    law_decimal_reads_back(n, u32::MAX as nat);
}

/// What one write leaves.
proof fn lemma_one(state: State, f: StateFile, v: Seq<char>)
    ensures
        applied(state, seq![(f, v)]) == state.insert(f, v),
{
    let w = seq![(f, v)];
    assert(w.drop_last() =~= Seq::empty());
    assert(applied(state, w.drop_last()) == state);
}

/// What two writes leave.
proof fn lemma_two(state: State, f: StateFile, v: Seq<char>, g: StateFile, u: Seq<char>)
    ensures
        applied(state, seq![(f, v), (g, u)]) == state.insert(f, v).insert(g, u),
{
    let w = seq![(f, v), (g, u)];
    assert(w.drop_last() =~= seq![(f, v)]);
    lemma_one(state, f, v);
}

/// What eleven writes to different files leave: each file holds its value.
proof fn lemma_first(state: State, w: Seq<(StateFile, Seq<char>)>)
    requires
        forall|i: int, j: int| 0 <= i < j < w.len() ==> (#[trigger] w[i]).0 != (#[trigger] w[j]).0,
    ensures
        forall|i: int|
            0 <= i < w.len() ==> applied(state, w).contains_key((#[trigger] w[i]).0) && applied(
                state,
                w,
            )[w[i].0] == w[i].1,
    decreases w.len(),
{
    if w.len() > 0 {
        let d = w.drop_last();
        assert forall|i: int, j: int| 0 <= i < j < d.len() implies (#[trigger] d[i]).0 != (
        #[trigger] d[j]).0 by {
            assert(d[i] == w[i] && d[j] == w[j]);
        }
        lemma_first(state, d);
        assert forall|i: int| 0 <= i < w.len() implies applied(state, w).contains_key(
            (#[trigger] w[i]).0,
        ) && applied(state, w)[w[i].0] == w[i].1 by {
            if i < d.len() {
                assert(d[i] == w[i]);
                assert(w[i].0 != w[w.len() - 1].0);
            }
        }
    }
}

/// The viewer starts in a valid state, in which every state file has its value: previews take up
/// 80 percent and show four lines of context, ten recent commits are listed, and the rest is as
/// the command line asks for.
pub proof fn law_first_state_is_valid(
    a: ArgsModel,
    ws: Seq<char>,
    exclude: Seq<char>,
    target: Seq<char>,
)
    requires
        ws == "-w"@ || ws == ""@,
        exclude == "true"@ || exclude == "false"@,
    ensures
        ({
            let state = applied(Map::empty(), first_state(a, ws, exclude, target));
            &&& is_valid(state)
            &&& number_in(value(state, StateFile::Size), 80) == 80
            &&& number_in(value(state, StateFile::Context), 7) == 4
            &&& limit_in(value(state, StateFile::RecentLimit)) == 10
            &&& state[StateFile::Ws] == ws
            &&& state[StateFile::Exclude] == exclude
            &&& state[StateFile::Target] == target
            &&& value(state, StateFile::Sbs) == "true"@ <==> a.sidebyside
            &&& value(state, StateFile::Mode) == "target"@ <==> a.target_mode
            &&& state[StateFile::Filter].len() == 0
            &&& state[StateFile::Send].len() == 0
            &&& state[StateFile::Query].len() == 0
        }),
{
    let w = first_state(a, ws, exclude, target);
    let state = applied(Map::empty(), w);
    lemma_words();
    assert forall|i: int, j: int| 0 <= i < j < w.len() implies (#[trigger] w[i]).0 != (
    #[trigger] w[j]).0 by {
        assert(w[0].0 is Size && w[1].0 is Send && w[2].0 is Query && w[3].0 is Filter
            && w[4].0 is Context && w[5].0 is Ws && w[6].0 is Exclude && w[7].0 is Target
            && w[8].0 is Sbs && w[9].0 is Mode && w[10].0 is RecentLimit);
    }
    lemma_first(Map::empty(), w);
    assert(w[0] == (StateFile::Size, "80"@));
    assert(w[1] == (StateFile::Send, Seq::<char>::empty()));
    assert(w[2] == (StateFile::Query, Seq::<char>::empty()));
    assert(w[3] == (StateFile::Filter, Seq::<char>::empty()));
    assert(w[4] == (StateFile::Context, decimal(4)));
    assert(w[5] == (StateFile::Ws, ws));
    assert(w[6] == (StateFile::Exclude, exclude));
    assert(w[7] == (StateFile::Target, target));
    assert(w[8].0 is Sbs && w[9].0 is Mode);
    assert(w[10] == (StateFile::RecentLimit, "10"@));
    reveal_strlit("80");
    reveal_strlit("10");
    assert("80"@ =~= decimal(80)) by {
        reveal_with_fuel(decimal, 3);
    }
    assert("10"@ =~= decimal(10)) by {
        reveal_with_fuel(decimal, 3);
    }
    lemma_signed_value(80, 80);
    lemma_signed_value(4, 7);
    lemma_limit(10);
    assert forall|f: StateFile| #[trigger] state.contains_key(f) by {
        match f {
            StateFile::Size => assert(w[0].0 == f),
            StateFile::Send => assert(w[1].0 == f),
            StateFile::Query => assert(w[2].0 == f),
            StateFile::Filter => assert(w[3].0 == f),
            StateFile::Context => assert(w[4].0 == f),
            StateFile::Ws => assert(w[5].0 == f),
            StateFile::Exclude => assert(w[6].0 == f),
            StateFile::Target => assert(w[7].0 == f),
            StateFile::Sbs => assert(w[8].0 == f),
            StateFile::Mode => assert(w[9].0 == f),
            StateFile::RecentLimit => assert(w[10].0 == f),
        }
    }
}

/// Switching the whitespace option, side-by-side previews and generated files keeps the state
/// valid. A second switch of the same kind restores it.
pub proof fn law_switching_twice_restores(state: State, me: Seq<char>)
    requires
        is_valid(state),
    ensures
        ({
            let once = after(state, on_toggle_ws(me, value(state, StateFile::Ws)));
            let twice = after(once, on_toggle_ws(me, value(once, StateFile::Ws)));
            &&& is_valid(once)
            &&& value(once, StateFile::Ws) != value(state, StateFile::Ws)
            &&& forall|f: StateFile| #[trigger] value(twice, f) == value(state, f)
        }),
        ({
            let once = after(state, on_toggle_sbs(me, value(state, StateFile::Sbs)));
            let twice = after(once, on_toggle_sbs(me, value(once, StateFile::Sbs)));
            &&& is_valid(once)
            &&& value(once, StateFile::Sbs) != value(state, StateFile::Sbs)
            &&& forall|f: StateFile| #[trigger] value(twice, f) == value(state, f)
        }),
        ({
            let once = after(state, on_toggle_exclude(me, value(state, StateFile::Exclude)));
            let twice = after(once, on_toggle_exclude(me, value(once, StateFile::Exclude)));
            &&& is_valid(once)
            &&& value(once, StateFile::Exclude) != value(state, StateFile::Exclude)
            &&& forall|f: StateFile| #[trigger] value(twice, f) == value(state, f)
        }),
{
    lemma_words();
    assert forall|s: State, f: StateFile, v: Seq<char>| #[trigger]
        applied(s, seq![(f, v)]) == s.insert(f, v) by {
        lemma_one(s, f, v);
    }
}

/// Each switch changes its own letter in the header, whatever the header showed.
pub proof fn law_switches_change_their_letter(h: HeaderModel, me: Seq<char>)
    ensures
        ({
            let ws = on_toggle_ws(me, h.ws).writes[0].1;
            flags(HeaderModel { ws, ..h }).contains("w"@) != flags(h).contains("w"@)
        }),
        ({
            let sbs = on_toggle_sbs(me, h.sbs).writes[0].1;
            flags(HeaderModel { sbs, ..h }).contains("s"@) != flags(h).contains("s"@)
        }),
        ({
            let exclude = on_toggle_exclude(me, h.exclude).writes[0].1;
            flags(HeaderModel { exclude, ..h }).contains("x"@) != flags(h).contains("x"@)
        }),
{
    lemma_words();
    let ws = on_toggle_ws(me, h.ws).writes[0].1;
    let sbs = on_toggle_sbs(me, h.sbs).writes[0].1;
    let exclude = on_toggle_exclude(me, h.exclude).writes[0].1;
    lemma_flags(h);
    lemma_flags(HeaderModel { ws, ..h });
    lemma_flags(HeaderModel { sbs, ..h });
    lemma_flags(HeaderModel { exclude, ..h });
}

/// Which letters the header shows.
proof fn lemma_flags(h: HeaderModel)
    ensures
        flags(h).contains("s"@) <==> h.sbs == "true"@,
        flags(h).contains("w"@) <==> h.ws == "-w"@,
        flags(h).contains("x"@) <==> h.exclude == "true"@,
{
    reveal_strlit("s");
    reveal_strlit("w");
    reveal_strlit("x");
    assert("s"@[0] == 's' && "w"@[0] == 'w' && "x"@[0] == 'x');
    let fs = flags(h);
    if h.sbs == "true"@ {
        assert(fs[0] == "s"@);
    }
    if h.ws == "-w"@ {
        assert(fs[if h.sbs == "true"@ {
            1int
        } else {
            0int
        }] == "w"@);
    }
    if h.exclude == "true"@ {
        assert(fs[fs.len() - 1] == "x"@);
    }
}

/// However the width and the number of context lines are changed, they stay within their bounds,
/// are read back, and nothing else changes. Where text is being typed, the width stays.
pub proof fn law_sizes_stay_in_bounds(
    state: State,
    delta: Seq<char>,
    prompt: Seq<char>,
)
    requires
        is_valid(state),
    ensures
        ({
            let size = value(state, StateFile::Size);
            let next = after(state, on_resize(delta, prompt, size));
            &&& is_valid(next)
            &&& is_typing(prompt) ==> next == state
            &&& !is_typing(prompt) ==> number_in(value(next, StateFile::Size), 80) == clamped(
                resized(size, delta),
                20,
                95,
            )
            &&& forall|f: StateFile| f != StateFile::Size ==> #[trigger] next[f] == state[f]
        }),
        ({
            let context = value(state, StateFile::Context);
            let next = after(state, on_context(delta, context));
            &&& is_valid(next)
            &&& number_in(value(next, StateFile::Context), 7) == clamped(
                recontexted(context, delta),
                0,
                999,
            )
            &&& forall|f: StateFile| f != StateFile::Context ==> #[trigger] next[f] == state[f]
        }),
{
    let size = clamped(resized(value(state, StateFile::Size), delta), 20, 95);
    let context = clamped(recontexted(value(state, StateFile::Context), delta), 0, 999);
    lemma_signed_value(size, 80);
    lemma_signed_value(context, 7);
    lemma_one(state, StateFile::Size, signed_decimal(size));
    lemma_one(state, StateFile::Context, signed_decimal(context));
}

/// A change of the width, or of the number of context lines, that stays within the bounds is
/// undone by the opposite change.
pub proof fn law_opposite_change_undoes(state: State, n: int, prompt: Seq<char>)
    requires
        is_valid(state),
        !is_typing(prompt),
        -999 <= n <= 999,
    ensures
        ({
            let size = value(state, StateFile::Size);
            let next = after(state, on_resize(signed_decimal(n), prompt, size));
            let back = after(
                next,
                on_resize(signed_decimal(-n), prompt, value(next, StateFile::Size)),
            );
            20 <= number_in(size, 80) + n <= 95 ==> number_in(value(back, StateFile::Size), 80)
                == number_in(size, 80)
        }),
        ({
            let context = value(state, StateFile::Context);
            let next = after(state, on_context(signed_decimal(n), context));
            let back = after(next, on_context(signed_decimal(-n), value(next, StateFile::Context)));
            0 <= number_in(context, 7) + n <= 999 ==> number_in(value(back, StateFile::Context), 7)
                == number_in(context, 7)
        }),
{
    law_signed_decimal_reads_back(n, 0x8000_0000, 0x7fff_ffff);
    law_signed_decimal_reads_back(-n, 0x8000_0000, 0x7fff_ffff);
    law_sizes_stay_in_bounds(state, signed_decimal(n), prompt);
    let a = after(state, on_resize(signed_decimal(n), prompt, value(state, StateFile::Size)));
    law_sizes_stay_in_bounds(a, signed_decimal(-n), prompt);
    let b = after(state, on_context(signed_decimal(n), value(state, StateFile::Context)));
    law_sizes_stay_in_bounds(b, signed_decimal(-n), prompt);
}

/// What the enter key does in the state `state`.
pub open spec fn entered(
    state: State,
    me: Seq<char>,
    prompt: Seq<char>,
    query: Seq<char>,
    file: Seq<char>,
) -> OutcomeModel {
    on_enter(
        me,
        prompt,
        query,
        file,
        value(state, StateFile::Mode),
        value(state, StateFile::RecentLimit),
        value(state, StateFile::Filter),
    )
}

/// What the escape key does in the state `state`.
pub open spec fn escaped(state: State, me: Seq<char>, prompt: Seq<char>) -> OutcomeModel {
    on_escape(me, prompt, value(state, StateFile::Mode), value(state, StateFile::Filter))
}

/// What asking for the target picker does in the state `state`.
pub open spec fn asked(
    state: State,
    me: Seq<char>,
    prompt: Seq<char>,
    query: Seq<char>,
) -> OutcomeModel {
    on_toggle_target(me, prompt, query, value(state, StateFile::Mode))
}

/// The enter and escape keys and the target picker keep the state valid. None of them touches
/// the sizes or the switches.
pub proof fn law_keys_keep_the_state_valid(
    state: State,
    me: Seq<char>,
    prompt: Seq<char>,
    query: Seq<char>,
    file: Seq<char>,
)
    requires
        is_valid(state),
        limit_in(value(state, StateFile::RecentLimit)) + 10 <= u32::MAX,
    ensures
        is_valid(after(state, entered(state, me, prompt, query, file))),
        is_valid(after(state, escaped(state, me, prompt))),
        is_valid(after(state, asked(state, me, prompt, query))),
        forall|f: StateFile|
            f == StateFile::Size || f == StateFile::Context || f == StateFile::Ws || f
                == StateFile::Exclude || f == StateFile::Sbs ==> {
                &&& #[trigger] after(state, entered(state, me, prompt, query, file))[f] == state[f]
                &&& after(state, escaped(state, me, prompt))[f] == state[f]
                &&& after(state, asked(state, me, prompt, query))[f] == state[f]
            },
{
    lemma_words();
    lemma_limit(limit_in(value(state, StateFile::RecentLimit)) + 10);
    lemma_one(
        state,
        StateFile::RecentLimit,
        decimal(limit_in(value(state, StateFile::RecentLimit)) + 10),
    );
    lemma_one(state, StateFile::Query, query);
    lemma_one(state, StateFile::Mode, "files"@);
    lemma_two(state, StateFile::Target, file, StateFile::Mode, "files"@);
    lemma_two(state, StateFile::Filter, query, StateFile::Send, file);
    lemma_two(state, StateFile::Filter, query, StateFile::Mode, "target"@);
}

/// Asking for ten more commits lists ten more, and stays in the picker.
pub proof fn law_loading_more_lists_ten_more(
    state: State,
    me: Seq<char>,
    prompt: Seq<char>,
    query: Seq<char>,
)
    requires
        value(state, StateFile::Mode) == "target"@,
        limit_in(value(state, StateFile::RecentLimit)) + 10 <= u32::MAX,
    ensures
        ({
            let next = after(state, entered(state, me, prompt, query, "__LOAD_MORE__"@));
            &&& limit_in(value(next, StateFile::RecentLimit)) == limit_in(
                value(state, StateFile::RecentLimit),
            ) + 10
            &&& value(next, StateFile::Mode) == "target"@
            &&& next[StateFile::Target] == state[StateFile::Target]
        }),
{
    let n = limit_in(value(state, StateFile::RecentLimit)) + 10;
    lemma_limit(n);
    lemma_one(state, StateFile::RecentLimit, decimal(n));
    reveal_strlit("__LOAD_MORE__");
}

/// Whoever opens the target picker and leaves it with the escape key comes back to the list of
/// files, with the target and the filter as they were.
pub proof fn law_leaving_the_picker_restores(
    state: State,
    me: Seq<char>,
    prompt: Seq<char>,
    query: Seq<char>,
)
    requires
        value(state, StateFile::Mode) == "files"@,
        !starts_with(prompt, "send"@),
        keeps(query),
    ensures
        ({
            let open = after(state, asked(state, me, prompt, query));
            let left = escaped(open, me, "target> "@);
            let end = after(open, left);
            &&& value(open, StateFile::Mode) == "target"@
            &&& left.reply == close_picker(me, query)
            &&& value(end, StateFile::Mode) == "files"@
            &&& end[StateFile::Target] == state[StateFile::Target]
        }),
{
    lemma_words();
    lemma_two(state, StateFile::Filter, query, StateFile::Mode, "target"@);
    let open = after(state, asked(state, me, prompt, query));
    lemma_one(open, StateFile::Mode, "files"@);
    lemma_prompts();
}

/// The prompts tell each other apart.
proof fn lemma_prompts()
    ensures
        starts_with("target> "@, "target"@),
        !starts_with("target> "@, "filter"@),
        starts_with("send> "@, "send"@),
        !starts_with("send> "@, "filter"@),
        !starts_with("send> "@, "target"@),
{
    reveal_strlit("target> ");
    reveal_strlit("send> ");
    reveal_strlit("target");
    reveal_strlit("filter");
    reveal_strlit("send");
    assert("target> "@.subrange(0, 6) =~= "target"@);
    assert("send> "@.subrange(0, 4) =~= "send"@);
    assert("target> "@.subrange(0, 6)[0] == 't' && "filter"@[0] == 'f');
    assert("send> "@.subrange(0, 6)[0] == 's' && "target"@[0] == 't');
}

/// Whoever opens the target picker and picks a target diffs against it, back in the list of
/// files, with the filter as it was.
pub proof fn law_picking_a_target_sets_it(
    state: State,
    me: Seq<char>,
    prompt: Seq<char>,
    query: Seq<char>,
    picker_prompt: Seq<char>,
    picker_query: Seq<char>,
    target: Seq<char>,
)
    requires
        value(state, StateFile::Mode) == "files"@,
        !starts_with(prompt, "send"@),
        keeps(query),
        target.len() > 0,
        target != "__LOAD_MORE__"@,
    ensures
        ({
            let open = after(state, asked(state, me, prompt, query));
            let picked = entered(open, me, picker_prompt, picker_query, target);
            let end = after(open, picked);
            &&& picked.reply == close_picker(me, query)
            &&& end[StateFile::Target] == target
            &&& value(end, StateFile::Mode) == "files"@
        }),
{
    lemma_words();
    lemma_two(state, StateFile::Filter, query, StateFile::Mode, "target"@);
    let open = after(state, asked(state, me, prompt, query));
    lemma_two(open, StateFile::Target, target, StateFile::Mode, "files"@);
}

/// While the target picker is open, asking for it again changes nothing, and neither does asking
/// for it while a message is written.
pub proof fn law_picker_opens_once(
    state: State,
    me: Seq<char>,
    prompt: Seq<char>,
    query: Seq<char>,
)
    requires
        value(state, StateFile::Mode) == "target"@ || starts_with(prompt, "send"@),
    ensures
        asked(state, me, prompt, query) == done(Seq::empty(), ReplyModel::Silent),
        after(state, asked(state, me, prompt, query)) == state,
{
}

/// A message is about the file at which it was begun, says what was typed, and is followed by
/// the filter that was there before; given up with the escape key, it leaves the filter too.
pub proof fn law_message_is_about_the_file(
    state: State,
    me: Seq<char>,
    prompt: Seq<char>,
    query: Seq<char>,
    file: Seq<char>,
    text: Seq<char>,
    other: Seq<char>,
)
    requires
        value(state, StateFile::Mode) == "files"@,
        !starts_with(prompt, "send"@),
        keeps(query),
        text.len() > 0,
    ensures
        ({
            let begun = after(state, entered(state, me, prompt, query, file));
            let sent = entered(begun, me, "send> "@, text, other);
            let end = after(begun, sent);
            &&& end[StateFile::Send] == file
            &&& end[StateFile::Query] == text
            &&& sent.reply == ReplyModel::Line(
                "execute-silent("@ + me + " send)+"@ + leave_message(query),
            )
            &&& value(end, StateFile::Mode) == "files"@
            &&& escaped(begun, me, "send> "@).reply == ReplyModel::Line(leave_message(query))
            &&& after(begun, escaped(begun, me, "send> "@)) == begun
        }),
{
    lemma_words();
    lemma_prompts();
    lemma_two(state, StateFile::Filter, query, StateFile::Send, file);
    let begun = after(state, entered(state, me, prompt, query, file));
    lemma_one(begun, StateFile::Query, text);
}

/// Each state file has an environment variable of its own.
pub proof fn law_state_files_have_their_own_variables(f: StateFile, g: StateFile)
    requires
        state_variable(f) == state_variable(g),
    ensures
        f == g,
{
    reveal_strlit("DIFFVIEW_SIZE_FILE");
    reveal_strlit("DIFFVIEW_SEND_FILE");
    reveal_strlit("DIFFVIEW_QUERY_FILE");
    reveal_strlit("DIFFVIEW_FILTER_FILE");
    reveal_strlit("DIFFVIEW_CONTEXT_FILE");
    reveal_strlit("DIFFVIEW_WS_FILE");
    reveal_strlit("DIFFVIEW_EXCLUDE_FILE");
    reveal_strlit("DIFFVIEW_TARGET_FILE");
    reveal_strlit("DIFFVIEW_SBS_FILE");
    reveal_strlit("DIFFVIEW_MODE_FILE");
    reveal_strlit("DIFFVIEW_RECENT_LIMIT_FILE");
    let a = state_variable(f);
    let b = state_variable(g);
    assert(a.len() == b.len());
    assert(a[9] == b[9] && a[10] == b[10] && a[11] == b[11]);
}

} // verus!

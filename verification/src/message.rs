//! Sending a message about a file to the pane that the viewer was called from.

use crate::startup::env_models;
use crate::text::{
    chars_of, ends_with, find_char, is_space, lemma_find_char_from, piece, position_of_char, same,
    strings, texts, trim, trim_end, trim_start, trimmed,
};
use vstd::prelude::*;
use vstd::string::*;

verus! {

/// The pane to send to: the value of the variable that `tmux show-environment` shows.
pub open spec fn caller_in(output: Seq<char>) -> Seq<char> {
    let t = trim(output);
    match find_char(t, '=') {
        Some(i) => t.skip(i + 1),
        None => Seq::empty(),
    }
}

/// The message: the query, behind the file that it is about.
pub open spec fn message(file: Seq<char>, query: Seq<char>) -> Seq<char> {
    if file.len() > 0 {
        "In "@ + file + ": "@ + query
    } else {
        query
    }
}

/// The calls of `tmux` that send the message: one that types it, one that presses enter.
/// Nothing is sent without a query or without a pane.
pub open spec fn send_calls(file: Seq<char>, query: Seq<char>, output: Seq<char>) -> Seq<
    Seq<Seq<char>>,
> {
    let caller = caller_in(output);
    if query.len() > 0 && caller.len() > 0 {
        seq![
            seq!["send-keys"@, "-t"@, caller, "-l"@, message(file, query)],
            seq!["send-keys"@, "-t"@, caller, "Enter"@],
        ]
    } else {
        Seq::empty()
    }
}

/// The arguments of the `tmux` call that shows the pane to send to.
pub open spec fn caller_argv() -> Seq<Seq<char>> {
    seq!["show-environment"@, "-g"@, "DIFFVIEW_CALLER"@]
}

/// The contents of a sequence of calls.
pub open spec fn call_texts(calls: Seq<Vec<String>>) -> Seq<Seq<Seq<char>>> {
    calls.map_values(|c: Vec<String>| texts(c@))
}

/// The arguments of the `tmux` call that shows the pane to send to.
pub fn caller_args() -> (r: Vec<String>)
    ensures
        texts(r@) == caller_argv(),
{
    let r = strings(&["show-environment", "-g", "DIFFVIEW_CALLER"]);
    assert(texts(r@) =~= caller_argv());
    r
}

/// The arguments of the `tmux` calls that send the message `query` about `file`.
/// `output` is what `tmux` says to [`caller_args`].
pub fn cmd_send(file: &str, query: &str, output: &str) -> (r: Vec<Vec<String>>)
    ensures
        call_texts(r@) == send_calls(file@, query@, output@),
{
    let t = trimmed(output);
    let cs = chars_of(&t);
    let n: usize = cs.len();
    let caller = match position_of_char(&cs, '=', 0) {
        Some(i) => piece(&cs, i + 1, n),
        None => String::new(),
    };
    let mut r: Vec<Vec<String>> = Vec::new();
    if query.is_empty() || caller.as_str().is_empty() {
        assert(call_texts(r@) =~= Seq::<Seq<Seq<char>>>::empty());
        return r;
    }
    let msg = if !file.is_empty() {
        let mut m = "In ".to_owned();
        m.append(file);
        m.append(": ");
        m.append(query);
        m
    } else {
        query.to_owned()
    };
    let a = strings(&["send-keys", "-t", caller.as_str(), "-l", msg.as_str()]);
    let b = strings(&["send-keys", "-t", caller.as_str(), "Enter"]);
    assert(texts(a@) =~= seq!["send-keys"@, "-t"@, caller@, "-l"@, msg@]);
    assert(texts(b@) =~= seq!["send-keys"@, "-t"@, caller@, "Enter"@]);
    r.push(a);
    r.push(b);
    assert(call_texts(r@) =~= send_calls(file@, query@, output@));
    r
}

/// The variables of `vars` but `TMUX`, so that `tmux` does not take the popup for its client.
pub open spec fn outside_popup(vars: Seq<(Seq<char>, Seq<char>)>) -> Seq<(Seq<char>, Seq<char>)>
    decreases vars.len(),
{
    if vars.len() == 0 {
        Seq::empty()
    } else if vars.last().0 == "TMUX"@ {
        outside_popup(vars.drop_last())
    } else {
        outside_popup(vars.drop_last()).push(vars.last())
    }
}

/// The environment in which `tmux` is called: that of the viewer, without `TMUX`.
pub fn tmux_env(vars: &[(String, String)]) -> (r: Vec<(String, String)>)
    ensures
        env_models(r@) == outside_popup(env_models(vars@)),
{
    let mut r: Vec<(String, String)> = Vec::new();
    let ghost all = env_models(vars@);
    assert(env_models(r@) =~= Seq::empty());
    let mut i: usize = 0;
    while i < vars.len()
        invariant
            i <= vars@.len(),
            all == env_models(vars@),
            env_models(r@) == outside_popup(all.take(i as int)),
        decreases vars@.len() - i,
    {
        assert(all.take(i + 1).drop_last() == all.take(i as int));
        assert(all.take(i + 1).last() == (vars@[i as int].0@, vars@[i as int].1@));
        if !same(&vars[i].0, "TMUX") {
            let ghost before = r@;
            r.push((vars[i].0.clone(), vars[i].1.clone()));
            assert(env_models(r@) =~= env_models(before).push(all.take(i + 1).last()));
        }
        i += 1;
    }
    assert(all.take(all.len() as int) == all);
    r
}

/// `TMUX` is not passed on, and every other variable is.
pub proof fn law_popup_is_not_passed_on(vars: Seq<(Seq<char>, Seq<char>)>)
    ensures
        forall|v: (Seq<char>, Seq<char>)| #[trigger]
            outside_popup(vars).contains(v) <==> vars.contains(v) && v.0 != "TMUX"@,
    decreases vars.len(),
{
    if vars.len() > 0 {
        let d = vars.drop_last();
        law_popup_is_not_passed_on(d);
        let a = outside_popup(d);
        let b = outside_popup(vars);
        assert forall|v: (Seq<char>, Seq<char>)| #[trigger]
            b.contains(v) <==> vars.contains(v) && v.0 != "TMUX"@ by {
            if b.contains(v) {
                let k = choose|k: int| 0 <= k < b.len() && b[k] == v;
                if k < a.len() {
                    assert(a[k] == v);
                    assert(a.contains(v));
                    let m = choose|m: int| 0 <= m < d.len() && d[m] == v;
                    assert(vars[m] == v);
                } else {
                    assert(vars[vars.len() - 1] == v);
                }
            }
            if vars.contains(v) && v.0 != "TMUX"@ {
                let m = choose|m: int| 0 <= m < vars.len() && vars[m] == v;
                if m < d.len() {
                    assert(d[m] == v);
                    assert(a.contains(v));
                    let k = choose|k: int| 0 <= k < a.len() && a[k] == v;
                    assert(b[k] == v);
                } else {
                    assert(b[b.len() - 1] == v);
                }
            }
        }
    }
}

/// The pane is what stands behind the first `=` of what `tmux` shows.
pub proof fn law_pane_reads_back(name: Seq<char>, pane: Seq<char>)
    requires
        name.len() > 0,
        !name.contains('='),
        !is_space(name[0]),
        pane.len() > 0,
        !is_space(pane.last()),
    ensures
        caller_in(name + seq!['='] + pane + seq!['\n']) == pane,
{
    let t = name + seq!['='] + pane;
    let s = t + seq!['\n'];
    assert(s[0] == name[0]);
    assert(s.drop_last() =~= t);
    assert(s.last() == '\n');
    assert(t.last() == pane.last());
    assert(trim_start(s) == s);
    assert(trim_end(s) == trim_end(t));
    assert(trim(s) == t);
    lemma_find_char_from(t, '=', 0);
    let at = name.len() as int;
    assert(t[at] == '=');
    let i = find_char(t, '=')->0;
    if i < at {
        assert(name[i] == '=');
    }
    assert(t.skip(at + 1) =~= pane);
}

/// Something is sent exactly where there is a message and a pane for it. What is typed is the
/// message, and it ends with the query.
pub proof fn law_message_needs_text_and_pane(
    file: Seq<char>,
    query: Seq<char>,
    output: Seq<char>,
)
    ensures
        send_calls(file, query, output).len() == 0 <==> query.len() == 0 || caller_in(output).len()
            == 0,
        send_calls(file, query, output).len() > 0 ==> send_calls(file, query, output)[0].last()
            == message(file, query),
        ends_with(message(file, query), query),
{
    let m = message(file, query);
    assert(m.subrange(m.len() - query.len(), m.len() as int) =~= query);
}

/// The variables that are passed on keep their order.
pub proof fn law_passed_variables_keep_their_order(
    a: Seq<(Seq<char>, Seq<char>)>,
    name: Seq<char>,
    value: Seq<char>,
    b: Seq<(Seq<char>, Seq<char>)>,
)
    ensures
        outside_popup(a + b) == outside_popup(a) + outside_popup(b),
        name != "TMUX"@ ==> outside_popup(seq![(name, value)]) == seq![(name, value)],
        outside_popup(seq![("TMUX"@, value)]).len() == 0,
    decreases b.len(),
{
    let one = seq![(name, value)];
    assert(one.drop_last() =~= Seq::empty());
    let popup = seq![("TMUX"@, value)];
    assert(popup.drop_last() =~= Seq::empty());
    assert(outside_popup(popup.drop_last()).len() == 0);
    if name != "TMUX"@ {
        assert(outside_popup(one) =~= one);
    }
    if b.len() == 0 {
        assert(a + b =~= a);
        assert(outside_popup(a) + outside_popup(b) =~= outside_popup(a));
    } else {
        law_passed_variables_keep_their_order(a, name, value, b.drop_last());
        assert((a + b).drop_last() =~= a + b.drop_last());
        assert((a + b).last() == b.last());
    }
}

/// A message about a file names the file before the query; one about no file is the query.
pub proof fn law_message_names_the_file(file: Seq<char>, query: Seq<char>)
    ensures
        file.len() > 0 ==> message(file, query) == seq!['I', 'n', ' '] + file + seq![':', ' ']
            + query,
        message(Seq::empty(), query) == query,
{
    reveal_strlit("In ");
    reveal_strlit(": ");
    assert("In "@ =~= seq!['I', 'n', ' ']);
    assert(": "@ =~= seq![':', ' ']);
}

/// The message is typed literally into the pane that `tmux` shows, and enter is pressed there
/// afterwards. What shows no pane sends nothing.
pub proof fn law_message_is_typed_and_entered(
    name: Seq<char>,
    pane: Seq<char>,
    file: Seq<char>,
    query: Seq<char>,
    unset: Seq<char>,
)
    requires
        name.len() > 0,
        !name.contains('='),
        !is_space(name[0]),
        pane.len() > 0,
        !is_space(pane.last()),
        query.len() > 0,
        !trim(unset).contains('='),
    ensures
        file.len() > 0 ==> send_calls(file, query, name + seq!['='] + pane + seq!['\n']) == seq![
            seq!["send-keys"@, "-t"@, pane, "-l"@, "In "@ + file + ": "@ + query],
            seq!["send-keys"@, "-t"@, pane, "Enter"@],
        ],
        send_calls(Seq::empty(), query, name + seq!['='] + pane + seq!['\n']) == seq![
            seq!["send-keys"@, "-t"@, pane, "-l"@, query],
            seq!["send-keys"@, "-t"@, pane, "Enter"@],
        ],
        send_calls(file, query, unset).len() == 0,
        caller_argv() == seq!["show-environment"@, "-g"@, "DIFFVIEW_CALLER"@],
{
    law_pane_reads_back(name, pane);
    let t = trim(unset);
    lemma_find_char_from(t, '=', 0);
    if let Some(i) = find_char(t, '=') {
        assert(t[i] == '=');
    }
}

} // verus!

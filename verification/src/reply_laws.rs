//! What the subcommands have `fzf` do, action by action.

use crate::command::{
    arg_at, back_to_files, clamped, close_picker, listed_in, on_context, on_enter, on_enter_filter,
    on_escape, on_resize, on_toggle_exclude, on_toggle_sbs, on_toggle_target, on_toggle_ws,
    open_picker, rendered, toggle_file, Listed, OutcomeModel, ReplyModel, StateFile,
};
use crate::fzf::typing_keys;
use crate::number::{
    decimal, law_decimal_reads_back, law_signed_decimal_reads_back, parse_signed, signed_decimal,
};
use crate::text::{join, starts_with};
use crate::text_laws::{law_beginning_is_a_prefix, law_join_puts_the_separator_between};
use vstd::prelude::*;

verus! {

/// The line that has `fzf` perform `actions`, one after the other.
pub open spec fn performs(actions: Seq<Seq<char>>) -> Seq<char> {
    join(actions, seq!['+'])
}

/// One more action goes behind a plus sign.
proof fn lemma_one_more(actions: Seq<Seq<char>>, action: Seq<char>)
    requires
        actions.len() > 0,
    ensures
        performs(actions.push(action)) == performs(actions) + seq!['+'] + action,
{
    assert(actions.push(action).drop_last() =~= actions);
}

/// How the fixed parts of the lines are made up of actions.
proof fn lemma_chunks()
    ensures
        " list)+refresh-preview+change-header("@ == " list)"@ + "+"@ + "refresh-preview"@ + "+"@
            + "change-header("@,
        " list)+change-header("@ == " list)"@ + "+"@ + "change-header("@,
        " list)+disable-search+rebind("@ == " list)"@ + "+"@ + "disable-search"@ + "+"@
            + "rebind("@,
        ")+change-prompt(target> )+clear-query+refresh-preview+first+change-header("@ == ")"@
            + "+"@ + "change-prompt(target> )"@ + "+"@ + "clear-query"@ + "+"@ + "refresh-preview"@
            + "+"@ + "first"@ + "+"@ + "change-header("@,
        ")+change-ghost("@ == ")"@ + "+"@ + "change-ghost("@,
        "enable-search+unbind("@ == "enable-search"@ + "+"@ + "unbind("@,
        ")+change-prompt(filter> )+change-ghost()"@ == ")"@ + "+"@ + "change-prompt(filter> )"@
            + "+"@ + "change-ghost()"@,
        "disable-search+rebind("@ == "disable-search"@ + "+"@ + "rebind("@,
        ")+change-prompt(diffview> )+change-query("@ == ")"@ + "+"@ + "change-prompt(diffview> )"@
            + "+"@ + "change-query("@,
        " list)+"@ == " list)"@ + "+"@,
        "+refresh-preview+first+change-header("@ == "+"@ + "refresh-preview"@ + "+"@ + "first"@
            + "+"@ + "change-header("@,
        "+change-ghost("@ == "+"@ + "change-ghost("@,
        " list)+refresh-preview+last"@ == " list)"@ + "+"@ + "refresh-preview"@ + "+"@ + "last"@,
        " send)+"@ == " send)"@ + "+"@,
        "disable-search+unbind("@ == "disable-search"@ + "+"@ + "unbind("@,
        ")+change-prompt(send> )+clear-query+change-ghost()"@ == ")"@ + "+"@
            + "change-prompt(send> )"@ + "+"@ + "clear-query"@ + "+"@ + "change-ghost()"@,
        ")+change-prompt("@ == ")"@ + "+"@ + "change-prompt("@,
        "change-ghost(/ to filter)"@ == "change-ghost("@ + "/ to filter"@ + ")"@,
        "change-prompt(target> )"@ == "change-prompt("@ + "target> "@ + ")"@,
        "change-prompt(diffview> )"@ == "change-prompt("@ + "diffview> "@ + ")"@,
        "+"@ == seq!['+'],
{
    reveal_strlit(" list)");
    reveal_strlit(" list)+");
    reveal_strlit(" list)+change-header(");
    reveal_strlit(" list)+disable-search+rebind(");
    reveal_strlit(" list)+refresh-preview+change-header(");
    reveal_strlit(" list)+refresh-preview+last");
    reveal_strlit(" send)");
    reveal_strlit(" send)+");
    reveal_strlit(")");
    reveal_strlit(")+change-ghost(");
    reveal_strlit(")+change-prompt(");
    reveal_strlit(")+change-prompt(diffview> )+change-query(");
    reveal_strlit(")+change-prompt(filter> )+change-ghost()");
    reveal_strlit(")+change-prompt(send> )+clear-query+change-ghost()");
    reveal_strlit(")+change-prompt(target> )+clear-query+refresh-preview+first+change-header(");
    reveal_strlit("+");
    reveal_strlit("+change-ghost(");
    reveal_strlit("+refresh-preview+first+change-header(");
    reveal_strlit("/ to filter");
    reveal_strlit("change-ghost(");
    reveal_strlit("change-ghost()");
    reveal_strlit("change-ghost(/ to filter)");
    reveal_strlit("change-header(");
    reveal_strlit("change-prompt(");
    reveal_strlit("change-prompt(diffview> )");
    reveal_strlit("change-prompt(filter> )");
    reveal_strlit("change-prompt(send> )");
    reveal_strlit("change-prompt(target> )");
    reveal_strlit("change-query(");
    reveal_strlit("clear-query");
    reveal_strlit("diffview> ");
    reveal_strlit("disable-search");
    reveal_strlit("disable-search+rebind(");
    reveal_strlit("disable-search+unbind(");
    reveal_strlit("enable-search");
    reveal_strlit("enable-search+unbind(");
    reveal_strlit("first");
    reveal_strlit("last");
    reveal_strlit("rebind(");
    reveal_strlit("refresh-preview");
    reveal_strlit("target> ");
    reveal_strlit("unbind(");
    assert(" list)+refresh-preview+change-header("@ =~= " list)"@ + "+"@ + "refresh-preview"@
        + "+"@ + "change-header("@);
    assert(" list)+change-header("@ =~= " list)"@ + "+"@ + "change-header("@);
    assert(" list)+disable-search+rebind("@ =~= " list)"@ + "+"@ + "disable-search"@ + "+"@
        + "rebind("@);
    assert(")+change-prompt(target> )+clear-query+refresh-preview+first+change-header("@ =~= ")"@
        + "+"@ + "change-prompt(target> )"@ + "+"@ + "clear-query"@ + "+"@ + "refresh-preview"@
        + "+"@ + "first"@ + "+"@ + "change-header("@);
    assert(")+change-ghost("@ =~= ")"@ + "+"@ + "change-ghost("@);
    assert("enable-search+unbind("@ =~= "enable-search"@ + "+"@ + "unbind("@);
    assert(")+change-prompt(filter> )+change-ghost()"@ =~= ")"@ + "+"@ + "change-prompt(filter> )"@
        + "+"@ + "change-ghost()"@);
    assert("disable-search+rebind("@ =~= "disable-search"@ + "+"@ + "rebind("@);
    assert(")+change-prompt(diffview> )+change-query("@ =~= ")"@ + "+"@
        + "change-prompt(diffview> )"@ + "+"@ + "change-query("@);
    assert(" list)+"@ =~= " list)"@ + "+"@);
    assert("+refresh-preview+first+change-header("@ =~= "+"@ + "refresh-preview"@ + "+"@ + "first"@
        + "+"@ + "change-header("@);
    assert("+change-ghost("@ =~= "+"@ + "change-ghost("@);
    assert(" list)+refresh-preview+last"@ =~= " list)"@ + "+"@ + "refresh-preview"@ + "+"@
        + "last"@);
    assert(" send)+"@ =~= " send)"@ + "+"@);
    assert("disable-search+unbind("@ =~= "disable-search"@ + "+"@ + "unbind("@);
    assert(")+change-prompt(send> )+clear-query+change-ghost()"@ =~= ")"@ + "+"@
        + "change-prompt(send> )"@ + "+"@ + "clear-query"@ + "+"@ + "change-ghost()"@);
    assert(")+change-prompt("@ =~= ")"@ + "+"@ + "change-prompt("@);
    assert("change-ghost(/ to filter)"@ =~= "change-ghost("@ + "/ to filter"@ + ")"@);
    assert("change-prompt(target> )"@ =~= "change-prompt("@ + "target> "@ + ")"@);
    assert("change-prompt(diffview> )"@ =~= "change-prompt("@ + "diffview> "@ + ")"@);
    assert("+"@ =~= seq!['+']);
}

/// Actions behind actions go behind a plus sign.
proof fn lemma_both(a: Seq<Seq<char>>, b: Seq<Seq<char>>)
    requires
        a.len() > 0,
        b.len() > 0,
    ensures
        performs(a + b) == performs(a) + seq!['+'] + performs(b),
{
    law_join_puts_the_separator_between(a, b, Seq::empty(), seq!['+']);
}

/// Three actions.
proof fn lemma_three(a: Seq<char>, b: Seq<char>, c: Seq<char>)
    ensures
        performs(seq![a, b, c]) == a + seq!['+'] + b + seq!['+'] + c,
{
    let one = seq![a];
    assert(performs(one) == a);
    lemma_one_more(one, b);
    lemma_one_more(one.push(b), c);
    assert(one.push(b).push(c) =~= seq![a, b, c]);
}

/// The actions that go back to the files.
proof fn lemma_back(saved: Seq<char>)
    ensures
        back_to_files(saved) == performs(
            seq![
                "disable-search"@,
                "rebind("@ + typing_keys() + ")"@,
                "change-prompt(diffview> )"@,
                "change-query("@ + saved + ")"@,
            ],
        ),
{
    lemma_chunks();
    let a = "disable-search"@;
    let b = "rebind("@ + typing_keys() + ")"@;
    let c = "change-prompt(diffview> )"@;
    let d = "change-query("@ + saved + ")"@;
    lemma_three(a, b, c);
    lemma_one_more(seq![a, b, c], d);
    assert(seq![a, b, c].push(d) =~= seq![a, b, c, d]);
    assert(back_to_files(saved) =~= a + seq!['+'] + b + seq!['+'] + c + seq!['+'] + d);
}

/// The actions that end every change of what is listed.
proof fn lemma_end(header: Seq<char>)
    ensures
        performs(
            seq![
                "refresh-preview"@,
                "first"@,
                "change-header("@ + header + ")"@,
                "change-ghost(/ to filter)"@,
            ],
        ) == "refresh-preview"@ + seq!['+'] + "first"@ + seq!['+'] + "change-header("@ + header
            + ")+change-ghost("@ + "/ to filter"@ + ")"@,
{
    lemma_chunks();
    let a = "refresh-preview"@;
    let b = "first"@;
    let c = "change-header("@ + header + ")"@;
    let d = "change-ghost(/ to filter)"@;
    lemma_three(a, b, c);
    lemma_one_more(seq![a, b, c], d);
    assert(seq![a, b, c].push(d) =~= seq![a, b, c, d]);
    assert(a + seq!['+'] + b + seq!['+'] + c + seq!['+'] + d =~= "refresh-preview"@ + seq!['+']
        + "first"@ + seq!['+'] + "change-header("@ + header + ")+change-ghost("@ + "/ to filter"@
        + ")"@);
}

/// The line that closes the picker.
proof fn lemma_close(me: Seq<char>, saved: Seq<char>, header: Seq<char>)
    ensures
        rendered(close_picker(me, saved), header) == Some(
            performs(
                seq![
                    "reload-sync("@ + me + " list)"@,
                    "disable-search"@,
                    "rebind("@ + typing_keys() + ")"@,
                    "change-prompt(diffview> )"@,
                    "change-query("@ + saved + ")"@,
                    "refresh-preview"@,
                    "first"@,
                    "change-header("@ + header + ")"@,
                    "change-ghost(/ to filter)"@,
                ],
            ),
        ),
{
    lemma_chunks();
    lemma_back(saved);
    lemma_end(header);
    let r = "reload-sync("@ + me + " list)"@;
    let back = seq![
        "disable-search"@,
        "rebind("@ + typing_keys() + ")"@,
        "change-prompt(diffview> )"@,
        "change-query("@ + saved + ")"@,
    ];
    let end = seq![
        "refresh-preview"@,
        "first"@,
        "change-header("@ + header + ")"@,
        "change-ghost(/ to filter)"@,
    ];
    let one = seq![r];
    assert(performs(one) == r);
    lemma_both(one, back);
    lemma_both(one + back, end);
    assert(one + back + end =~= seq![
        r,
        "disable-search"@,
        "rebind("@ + typing_keys() + ")"@,
        "change-prompt(diffview> )"@,
        "change-query("@ + saved + ")"@,
        "refresh-preview"@,
        "first"@,
        "change-header("@ + header + ")"@,
        "change-ghost(/ to filter)"@,
    ]);
    let b = back_to_files(saved);
    let line = rendered(close_picker(me, saved), header)->0;
    let tail = "refresh-preview"@ + seq!['+'] + "first"@ + seq!['+'] + "change-header("@;
    assert("+refresh-preview+first+change-header("@ =~= seq!['+'] + tail);
    assert(line =~= r + seq!['+'] + b + seq!['+'] + (tail + header + ")+change-ghost("@
        + "/ to filter"@ + ")"@));
}

/// A prompt is for one thing alone.
proof fn lemma_prompts_differ(prompt: Seq<char>)
    ensures
        starts_with(prompt, "send"@) ==> !starts_with(prompt, "filter"@) && !starts_with(
            prompt,
            "target"@,
        ),
        starts_with(prompt, "target"@) ==> !starts_with(prompt, "filter"@),
{
    reveal_strlit("send");
    reveal_strlit("filter");
    reveal_strlit("target");
    if starts_with(prompt, "send"@) {
        assert(prompt.subrange(0, 4)[0] == prompt[0]);
    }
    if starts_with(prompt, "filter"@) {
        assert(prompt.subrange(0, 6)[0] == prompt[0]);
    }
    if starts_with(prompt, "target"@) {
        assert(prompt.subrange(0, 6)[0] == prompt[0]);
    }
}

/// Switching the whitespace option or side-by-side previews loads the list anew, then the preview,
/// then the header.
pub proof fn law_switches_show_everything_anew(
    me: Seq<char>,
    cur: Seq<char>,
    header: Seq<char>,
)
    ensures
        rendered(on_toggle_ws(me, cur).reply, header) == Some(
            performs(seq![
                "reload-sync("@ + me + " list)"@,
                "refresh-preview"@,
                "change-header("@ + header + ")"@,
            ]),
        ),
        rendered(on_toggle_sbs(me, cur).reply, header) == Some(
            performs(seq![
                "reload-sync("@ + me + " list)"@,
                "refresh-preview"@,
                "change-header("@ + header + ")"@,
            ]),
        ),
{
    lemma_chunks();
    let a1 = seq!["reload-sync("@ + me + " list)"@];
    assert(performs(a1) == "reload-sync("@ + me + " list)"@);
    let a2 = a1.push("refresh-preview"@);
    lemma_one_more(a1, "refresh-preview"@);
    let a3 = a2.push("change-header("@ + header + ")"@);
    lemma_one_more(a2, "change-header("@ + header + ")"@);
    assert(a3 =~= seq![
        "reload-sync("@ + me + " list)"@,
        "refresh-preview"@,
        "change-header("@ + header + ")"@,
    ]);
    assert((rendered(on_toggle_ws(me, cur).reply, header))->0 =~= performs(a3));
    assert((rendered(on_toggle_sbs(me, cur).reply, header))->0 =~= performs(a3));
}

/// Switching the leaving out of generated files loads the list anew, then the header.
pub proof fn law_leaving_out_shows_the_list_anew(
    me: Seq<char>,
    cur: Seq<char>,
    header: Seq<char>,
)
    ensures
        rendered(on_toggle_exclude(me, cur).reply, header) == Some(
            performs(seq![
                "reload-sync("@ + me + " list)"@,
                "change-header("@ + header + ")"@,
            ]),
        ),
{
    lemma_chunks();
    let a1 = seq!["reload-sync("@ + me + " list)"@];
    assert(performs(a1) == "reload-sync("@ + me + " list)"@);
    let a2 = a1.push("change-header("@ + header + ")"@);
    lemma_one_more(a1, "change-header("@ + header + ")"@);
    assert(a2 =~= seq![
        "reload-sync("@ + me + " list)"@,
        "change-header("@ + header + ")"@,
    ]);
    assert((rendered(on_toggle_exclude(me, cur).reply, header))->0 =~= performs(a2));
}

/// Texts one after the other can be read in groups.
proof fn lemma_regroup(
    s: Seq<char>,
    c: Seq<char>,
    p: Seq<char>,
    m: Seq<char>,
    t: Seq<char>,
    h: Seq<char>,
    g: Seq<char>,
)
    ensures
        s + (c + p + m + p + t) + h + g == s + c + p + m + p + (t + h + g),
{
    assert(s + (c + p + m + p + t) + h + g =~= s + c + p + m + p + (t + h + g));
}

/// The line that opens the picker.
proof fn lemma_opening_line(me: Seq<char>, header: Seq<char>)
    ensures
        rendered(open_picker(me), header) == Some(
            "reload-sync("@ + me + " list)"@ + seq!['+'] + "disable-search"@ + seq!['+']
                + "rebind("@
                + typing_keys()
                + ")+change-prompt(target> )+clear-query+refresh-preview+first+change-header("@
                + header + (")+change-ghost("@ + "/ to filter"@ + ")"@),
        ),
{
    lemma_chunks();
    let line = rendered(open_picker(me), header)->0;
    assert(line =~= "reload-sync("@ + me + " list)"@ + seq!['+'] + "disable-search"@ + seq!['+']
        + "rebind("@ + typing_keys()
        + ")+change-prompt(target> )+clear-query+refresh-preview+first+change-header("@ + header
        + (")+change-ghost("@ + "/ to filter"@ + ")"@));
}

/// Opening the target picker loads the list anew, ends the search, lets keys act again, asks at the
/// prompt of the picker, and starts at the first row with an empty query.
pub proof fn law_picker_is_opened(
    me: Seq<char>,
    prompt: Seq<char>,
    query: Seq<char>,
    mode: Seq<char>,
    header: Seq<char>,
)
    requires
        mode != "target"@,
        !starts_with(prompt, "send"@),
    ensures
        rendered(on_toggle_target(me, prompt, query, mode).reply, header) == Some(
            performs(seq![
                "reload-sync("@ + me + " list)"@,
                "disable-search"@,
                "rebind("@ + typing_keys() + ")"@,
                "change-prompt(target> )"@,
                "clear-query"@,
                "refresh-preview"@,
                "first"@,
                "change-header("@ + header + ")"@,
                "change-ghost(/ to filter)"@,
            ]),
        ),
{
    lemma_chunks();
    lemma_end(header);
    let r = "reload-sync("@ + me + " list)"@;
    let keys = "rebind("@ + typing_keys() + ")"@;
    let start = seq![r, "disable-search"@, keys];
    let middle = seq!["change-prompt(target> )"@, "clear-query"@];
    let end = seq![
        "refresh-preview"@,
        "first"@,
        "change-header("@ + header + ")"@,
        "change-ghost(/ to filter)"@,
    ];
    lemma_three(r, "disable-search"@, keys);
    let one = seq!["change-prompt(target> )"@];
    assert(performs(one) == "change-prompt(target> )"@);
    lemma_one_more(one, "clear-query"@);
    assert(one.push("clear-query"@) =~= middle);
    lemma_both(start, middle);
    lemma_both(start + middle, end);
    assert(start + middle + end =~= seq![
        r,
        "disable-search"@,
        keys,
        "change-prompt(target> )"@,
        "clear-query"@,
        "refresh-preview"@,
        "first"@,
        "change-header("@ + header + ")"@,
        "change-ghost(/ to filter)"@,
    ]);
    let tail = "refresh-preview"@ + seq!['+'] + "first"@ + seq!['+'] + "change-header("@;
    let chunk = ")+change-prompt(target> )+clear-query+refresh-preview+first+change-header("@;
    let m = "change-prompt(target> )"@ + seq!['+'] + "clear-query"@;
    assert(chunk =~= ")"@ + seq!['+'] + m + seq!['+'] + tail);
    let s = r + seq!['+'] + "disable-search"@ + seq!['+'] + "rebind("@ + typing_keys();
    let ghost_end = ")+change-ghost("@ + "/ to filter"@ + ")"@;
    lemma_opening_line(me, header);
    lemma_regroup(s, ")"@, seq!['+'], m, tail, header, ghost_end);
    assert(performs(start) =~= s + ")"@);
    assert(performs(end) =~= tail + header + ghost_end);
}

/// Typing a filter begins the search and lets keys type.
pub proof fn law_filter_is_typed(
    header: Seq<char>,
)
    ensures
        rendered(on_enter_filter().reply, header) == Some(
            performs(seq![
                "enable-search"@,
                "unbind("@ + typing_keys() + ")"@,
                "change-prompt(filter> )"@,
                "change-ghost()"@,
            ]),
        ),
{
    lemma_chunks();
    let a1 = seq!["enable-search"@];
    assert(performs(a1) == "enable-search"@);
    let a2 = a1.push("unbind("@ + typing_keys() + ")"@);
    lemma_one_more(a1, "unbind("@ + typing_keys() + ")"@);
    let a3 = a2.push("change-prompt(filter> )"@);
    lemma_one_more(a2, "change-prompt(filter> )"@);
    let a4 = a3.push("change-ghost()"@);
    lemma_one_more(a3, "change-ghost()"@);
    assert(a4 =~= seq![
        "enable-search"@,
        "unbind("@ + typing_keys() + ")"@,
        "change-prompt(filter> )"@,
        "change-ghost()"@,
    ]);
    assert((rendered(on_enter_filter().reply, header))->0 =~= performs(a4));
}

/// Picking a target loads the list anew, ends the search, lets keys act again, goes back to the
/// prompt and the filter of the files, and starts at the first row.
pub proof fn law_picker_is_closed_by_a_target(
    me: Seq<char>,
    prompt: Seq<char>,
    query: Seq<char>,
    file: Seq<char>,
    limit: Seq<char>,
    saved: Seq<char>,
    header: Seq<char>,
)
    requires
        file.len() > 0,
        file != "__LOAD_MORE__"@,
    ensures
        rendered(on_enter(me, prompt, query, file, "target"@, limit, saved).reply, header) == Some(
            performs(seq![
                "reload-sync("@ + me + " list)"@,
                "disable-search"@,
                "rebind("@ + typing_keys() + ")"@,
                "change-prompt(diffview> )"@,
                "change-query("@ + saved + ")"@,
                "refresh-preview"@,
                "first"@,
                "change-header("@ + header + ")"@,
                "change-ghost(/ to filter)"@,
            ]),
        ),
{
    lemma_close(me, saved, header);
}

/// Leaving the picker shows the list of files again in the same way.
pub proof fn law_picker_is_closed_by_escape(
    me: Seq<char>,
    prompt: Seq<char>,
    mode: Seq<char>,
    saved: Seq<char>,
    header: Seq<char>,
)
    requires
        starts_with(prompt, "target"@),
    ensures
        rendered(on_escape(me, prompt, mode, saved).reply, header) == Some(
            performs(seq![
                "reload-sync("@ + me + " list)"@,
                "disable-search"@,
                "rebind("@ + typing_keys() + ")"@,
                "change-prompt(diffview> )"@,
                "change-query("@ + saved + ")"@,
                "refresh-preview"@,
                "first"@,
                "change-header("@ + header + ")"@,
                "change-ghost(/ to filter)"@,
            ]),
        ),
{
    lemma_close(me, saved, header);
    lemma_prompts_differ(prompt);
}

/// Asking for more commits loads the list anew and goes to its last row.
pub proof fn law_more_commits_are_shown(
    me: Seq<char>,
    prompt: Seq<char>,
    query: Seq<char>,
    limit: Seq<char>,
    saved: Seq<char>,
    header: Seq<char>,
)
    ensures
        rendered(on_enter(me, prompt, query, "__LOAD_MORE__"@, "target"@, limit, saved).reply, header) == Some(
            performs(seq![
                "reload-sync("@ + me + " list)"@,
                "refresh-preview"@,
                "last"@,
            ]),
        ),
{
    reveal_strlit("__LOAD_MORE__");
    lemma_chunks();
    let a1 = seq!["reload-sync("@ + me + " list)"@];
    assert(performs(a1) == "reload-sync("@ + me + " list)"@);
    let a2 = a1.push("refresh-preview"@);
    lemma_one_more(a1, "refresh-preview"@);
    let a3 = a2.push("last"@);
    lemma_one_more(a2, "last"@);
    assert(a3 =~= seq![
        "reload-sync("@ + me + " list)"@,
        "refresh-preview"@,
        "last"@,
    ]);
    assert((rendered(on_enter(me, prompt, query, "__LOAD_MORE__"@, "target"@, limit, saved).reply, header))->0 =~= performs(a3));
}

/// Ending a message sends it and goes back to the list of files with its filter.
pub proof fn law_message_is_sent(
    me: Seq<char>,
    prompt: Seq<char>,
    query: Seq<char>,
    file: Seq<char>,
    mode: Seq<char>,
    limit: Seq<char>,
    saved: Seq<char>,
    header: Seq<char>,
)
    requires
        mode != "target"@,
        starts_with(prompt, "send"@),
        query.len() > 0,
    ensures
        rendered(on_enter(me, prompt, query, file, mode, limit, saved).reply, header) == Some(
            performs(seq![
                "execute-silent("@ + me + " send)"@,
                "disable-search"@,
                "rebind("@ + typing_keys() + ")"@,
                "change-prompt(diffview> )"@,
                "change-query("@ + saved + ")"@,
                "change-ghost(/ to filter)"@,
            ]),
        ),
{
    lemma_chunks();
    let a1 = seq!["execute-silent("@ + me + " send)"@];
    assert(performs(a1) == "execute-silent("@ + me + " send)"@);
    let a2 = a1.push("disable-search"@);
    lemma_one_more(a1, "disable-search"@);
    let a3 = a2.push("rebind("@ + typing_keys() + ")"@);
    lemma_one_more(a2, "rebind("@ + typing_keys() + ")"@);
    let a4 = a3.push("change-prompt(diffview> )"@);
    lemma_one_more(a3, "change-prompt(diffview> )"@);
    let a5 = a4.push("change-query("@ + saved + ")"@);
    lemma_one_more(a4, "change-query("@ + saved + ")"@);
    let a6 = a5.push("change-ghost(/ to filter)"@);
    lemma_one_more(a5, "change-ghost(/ to filter)"@);
    assert(a6 =~= seq![
        "execute-silent("@ + me + " send)"@,
        "disable-search"@,
        "rebind("@ + typing_keys() + ")"@,
        "change-prompt(diffview> )"@,
        "change-query("@ + saved + ")"@,
        "change-ghost(/ to filter)"@,
    ]);
    assert((rendered(on_enter(me, prompt, query, file, mode, limit, saved).reply, header))->0
        =~= performs(a6));
}

/// An empty message is not sent; the list of files comes back with its filter.
pub proof fn law_empty_message_is_not_sent(
    me: Seq<char>,
    prompt: Seq<char>,
    file: Seq<char>,
    mode: Seq<char>,
    limit: Seq<char>,
    saved: Seq<char>,
    header: Seq<char>,
)
    requires
        mode != "target"@,
        starts_with(prompt, "send"@),
    ensures
        rendered(on_enter(me, prompt, Seq::empty(), file, mode, limit, saved).reply, header)
            == Some(
            performs(seq![
                "disable-search"@,
                "rebind("@ + typing_keys() + ")"@,
                "change-prompt(diffview> )"@,
                "change-query("@ + saved + ")"@,
                "change-ghost(/ to filter)"@,
            ]),
        ),
{
    lemma_chunks();
    let a1 = seq!["disable-search"@];
    assert(performs(a1) == "disable-search"@);
    let a2 = a1.push("rebind("@ + typing_keys() + ")"@);
    lemma_one_more(a1, "rebind("@ + typing_keys() + ")"@);
    let a3 = a2.push("change-prompt(diffview> )"@);
    lemma_one_more(a2, "change-prompt(diffview> )"@);
    let a4 = a3.push("change-query("@ + saved + ")"@);
    lemma_one_more(a3, "change-query("@ + saved + ")"@);
    let a5 = a4.push("change-ghost(/ to filter)"@);
    lemma_one_more(a4, "change-ghost(/ to filter)"@);
    assert(a5 =~= seq![
        "disable-search"@,
        "rebind("@ + typing_keys() + ")"@,
        "change-prompt(diffview> )"@,
        "change-query("@ + saved + ")"@,
        "change-ghost(/ to filter)"@,
    ]);
    assert((rendered(on_enter(me, prompt, Seq::empty(), file, mode, limit, saved).reply, header))->0 =~= performs(a5));
}

/// Giving a message up brings the list of files back with its filter.
pub proof fn law_message_is_given_up(
    me: Seq<char>,
    prompt: Seq<char>,
    mode: Seq<char>,
    saved: Seq<char>,
    header: Seq<char>,
)
    requires
        starts_with(prompt, "send"@),
    ensures
        rendered(on_escape(me, prompt, mode, saved).reply, header) == Some(
            performs(seq![
                "disable-search"@,
                "rebind("@ + typing_keys() + ")"@,
                "change-prompt(diffview> )"@,
                "change-query("@ + saved + ")"@,
                "change-ghost(/ to filter)"@,
            ]),
        ),
{
    lemma_prompts_differ(prompt);
    lemma_chunks();
    let a1 = seq!["disable-search"@];
    assert(performs(a1) == "disable-search"@);
    let a2 = a1.push("rebind("@ + typing_keys() + ")"@);
    lemma_one_more(a1, "rebind("@ + typing_keys() + ")"@);
    let a3 = a2.push("change-prompt(diffview> )"@);
    lemma_one_more(a2, "change-prompt(diffview> )"@);
    let a4 = a3.push("change-query("@ + saved + ")"@);
    lemma_one_more(a3, "change-query("@ + saved + ")"@);
    let a5 = a4.push("change-ghost(/ to filter)"@);
    lemma_one_more(a4, "change-ghost(/ to filter)"@);
    assert(a5 =~= seq![
        "disable-search"@,
        "rebind("@ + typing_keys() + ")"@,
        "change-prompt(diffview> )"@,
        "change-query("@ + saved + ")"@,
        "change-ghost(/ to filter)"@,
    ]);
    assert((rendered(on_escape(me, prompt, mode, saved).reply, header))->0 =~= performs(a5));
}

/// Beginning a message lets keys type at the prompt for it, with an empty query.
pub proof fn law_message_is_begun(
    me: Seq<char>,
    prompt: Seq<char>,
    query: Seq<char>,
    file: Seq<char>,
    mode: Seq<char>,
    limit: Seq<char>,
    saved: Seq<char>,
    header: Seq<char>,
)
    requires
        mode != "target"@,
        !starts_with(prompt, "send"@),
    ensures
        rendered(on_enter(me, prompt, query, file, mode, limit, saved).reply, header) == Some(
            performs(seq![
                "disable-search"@,
                "unbind("@ + typing_keys() + ")"@,
                "change-prompt(send> )"@,
                "clear-query"@,
                "change-ghost()"@,
            ]),
        ),
{
    lemma_chunks();
    let a1 = seq!["disable-search"@];
    assert(performs(a1) == "disable-search"@);
    let a2 = a1.push("unbind("@ + typing_keys() + ")"@);
    lemma_one_more(a1, "unbind("@ + typing_keys() + ")"@);
    let a3 = a2.push("change-prompt(send> )"@);
    lemma_one_more(a2, "change-prompt(send> )"@);
    let a4 = a3.push("clear-query"@);
    lemma_one_more(a3, "clear-query"@);
    let a5 = a4.push("change-ghost()"@);
    lemma_one_more(a4, "change-ghost()"@);
    assert(a5 =~= seq![
        "disable-search"@,
        "unbind("@ + typing_keys() + ")"@,
        "change-prompt(send> )"@,
        "clear-query"@,
        "change-ghost()"@,
    ]);
    assert((rendered(on_enter(me, prompt, query, file, mode, limit, saved).reply, header))->0
        =~= performs(a5));
}

/// Ending a filter among the targets goes back to the prompt of the picker.
pub proof fn law_filter_ends_in_the_picker(
    me: Seq<char>,
    prompt: Seq<char>,
    saved: Seq<char>,
    header: Seq<char>,
)
    requires
        starts_with(prompt, "filter"@),
    ensures
        rendered(on_escape(me, prompt, "target"@, saved).reply, header) == Some(
            performs(seq![
                "disable-search"@,
                "rebind("@ + typing_keys() + ")"@,
                "change-prompt(target> )"@,
                "change-ghost(/ to filter)"@,
            ]),
        ),
{
    lemma_chunks();
    let a1 = seq!["disable-search"@];
    assert(performs(a1) == "disable-search"@);
    let a2 = a1.push("rebind("@ + typing_keys() + ")"@);
    lemma_one_more(a1, "rebind("@ + typing_keys() + ")"@);
    let a3 = a2.push("change-prompt(target> )"@);
    lemma_one_more(a2, "change-prompt(target> )"@);
    let a4 = a3.push("change-ghost(/ to filter)"@);
    lemma_one_more(a3, "change-ghost(/ to filter)"@);
    assert(a4 =~= seq![
        "disable-search"@,
        "rebind("@ + typing_keys() + ")"@,
        "change-prompt(target> )"@,
        "change-ghost(/ to filter)"@,
    ]);
    assert((rendered(on_escape(me, prompt, "target"@, saved).reply, header))->0 =~= performs(a4));
}

/// Ending a filter among the files goes back to the prompt of the files.
pub proof fn law_filter_ends_among_the_files(
    me: Seq<char>,
    prompt: Seq<char>,
    mode: Seq<char>,
    saved: Seq<char>,
    header: Seq<char>,
)
    requires
        mode != "target"@,
        starts_with(prompt, "filter"@),
    ensures
        rendered(on_escape(me, prompt, mode, saved).reply, header) == Some(
            performs(seq![
                "disable-search"@,
                "rebind("@ + typing_keys() + ")"@,
                "change-prompt(diffview> )"@,
                "change-ghost(/ to filter)"@,
            ]),
        ),
{
    lemma_chunks();
    let a1 = seq!["disable-search"@];
    assert(performs(a1) == "disable-search"@);
    let a2 = a1.push("rebind("@ + typing_keys() + ")"@);
    lemma_one_more(a1, "rebind("@ + typing_keys() + ")"@);
    let a3 = a2.push("change-prompt(diffview> )"@);
    lemma_one_more(a2, "change-prompt(diffview> )"@);
    let a4 = a3.push("change-ghost(/ to filter)"@);
    lemma_one_more(a3, "change-ghost(/ to filter)"@);
    assert(a4 =~= seq![
        "disable-search"@,
        "rebind("@ + typing_keys() + ")"@,
        "change-prompt(diffview> )"@,
        "change-ghost(/ to filter)"@,
    ]);
    assert((rendered(on_escape(me, prompt, mode, saved).reply, header))->0 =~= performs(a4));
}

/// Whether an outcome changes what is listed.
pub open spec fn changes_the_list(o: OutcomeModel) -> bool {
    exists|i: int|
        0 <= i < o.writes.len() && ((#[trigger] o.writes[i]).0 == StateFile::Mode || o.writes[i].0
            == StateFile::Target)
}

/// Whatever changes the mode or the target has the list loaded anew before anything else.
pub proof fn law_changed_list_is_loaded_anew(
    me: Seq<char>,
    prompt: Seq<char>,
    query: Seq<char>,
    file: Seq<char>,
    mode: Seq<char>,
    limit: Seq<char>,
    saved: Seq<char>,
    header: Seq<char>,
)
    ensures
        changes_the_list(on_enter(me, prompt, query, file, mode, limit, saved)) ==> (rendered(
            on_enter(me, prompt, query, file, mode, limit, saved).reply,
            header,
        ) matches Some(line) && starts_with(line, "reload-sync("@ + me + " list)+"@)),
        changes_the_list(on_escape(me, prompt, mode, saved)) ==> (rendered(
            on_escape(me, prompt, mode, saved).reply,
            header,
        ) matches Some(line) && starts_with(line, "reload-sync("@ + me + " list)+"@)),
        changes_the_list(on_toggle_target(me, prompt, query, mode)) ==> (rendered(
            on_toggle_target(me, prompt, query, mode).reply,
            header,
        ) matches Some(line) && starts_with(line, "reload-sync("@ + me + " list)+"@)),
{
    lemma_chunks();
    let first = "reload-sync("@ + me + " list)+"@;
    let closing = rendered(close_picker(me, saved), header)->0;
    let rest = closing.skip(first.len() as int);
    assert(closing =~= first + rest);
    law_beginning_is_a_prefix(closing, first, rest);
    let opening = rendered(open_picker(me), header)->0;
    let more = opening.skip(first.len() as int);
    assert(first + "disable-search+rebind("@ =~= "reload-sync("@ + me
        + " list)+disable-search+rebind("@);
    assert(opening =~= first + more);
    law_beginning_is_a_prefix(opening, first, more);
}

/// What the enter key writes: the target and the mode where a target is picked, ten more commits
/// where more are asked for, the message where one is ended, and the filter and the file where
/// one is begun. Nothing is written where there is nothing to pick or to send.
pub proof fn law_what_enter_writes(
    me: Seq<char>,
    prompt: Seq<char>,
    query: Seq<char>,
    file: Seq<char>,
    mode: Seq<char>,
    limit: Seq<char>,
    saved: Seq<char>,
    n: nat,
)
    requires
        n + 10 <= u32::MAX,
    ensures
        mode == "target"@ && file.len() == 0 ==> on_enter(
            me,
            prompt,
            query,
            file,
            mode,
            limit,
            saved,
        ) == (OutcomeModel { writes: Seq::empty(), reply: ReplyModel::Silent, code: 0 }),
        mode == "target"@ && file == "__LOAD_MORE__"@ ==> on_enter(
            me,
            prompt,
            query,
            file,
            mode,
            decimal(n),
            saved,
        ).writes == seq![(StateFile::RecentLimit, decimal(n + 10))],
        mode == "target"@ && file.len() > 0 && file != "__LOAD_MORE__"@ ==> on_enter(
            me,
            prompt,
            query,
            file,
            mode,
            limit,
            saved,
        ).writes == seq![(StateFile::Target, file), (StateFile::Mode, "files"@)],
        mode != "target"@ && starts_with(prompt, "send"@) && query.len() > 0 ==> on_enter(
            me,
            prompt,
            query,
            file,
            mode,
            limit,
            saved,
        ).writes == seq![(StateFile::Query, query)],
        mode != "target"@ && starts_with(prompt, "send"@) && query.len() == 0 ==> on_enter(
            me,
            prompt,
            query,
            file,
            mode,
            limit,
            saved,
        ).writes.len() == 0,
        mode != "target"@ && !starts_with(prompt, "send"@) ==> on_enter(
            me,
            prompt,
            query,
            file,
            mode,
            limit,
            saved,
        ).writes == seq![(StateFile::Filter, query), (StateFile::Send, file)],
        on_enter(me, prompt, query, file, mode, limit, saved).code == 0,
{
    reveal_strlit("__LOAD_MORE__");
    law_decimal_reads_back(n, u32::MAX as nat);
}

/// What the escape key writes: the mode where the picker is left, and nothing elsewhere. But for
/// the filter, the picker and the message it says nothing.
pub proof fn law_what_escape_writes(
    me: Seq<char>,
    prompt: Seq<char>,
    mode: Seq<char>,
    saved: Seq<char>,
)
    ensures
        starts_with(prompt, "target"@) ==> on_escape(me, prompt, mode, saved).writes == seq![
            (StateFile::Mode, "files"@),
        ],
        !starts_with(prompt, "target"@) ==> on_escape(me, prompt, mode, saved).writes.len() == 0,
        !starts_with(prompt, "target"@) && !starts_with(prompt, "filter"@) && !starts_with(
            prompt,
            "send"@,
        ) ==> on_escape(me, prompt, mode, saved).reply is Silent,
        on_escape(me, prompt, mode, saved).code == 0,
{
    lemma_prompts_differ(prompt);
}

/// What asking for the picker writes: the query as the filter to come back to, and the mode; and
/// nothing, without a word, where it is open or a message is written.
pub proof fn law_what_asking_for_the_picker_writes(
    me: Seq<char>,
    prompt: Seq<char>,
    query: Seq<char>,
    mode: Seq<char>,
)
    ensures
        mode == "target"@ || starts_with(prompt, "send"@) ==> on_toggle_target(
            me,
            prompt,
            query,
            mode,
        ) == (OutcomeModel { writes: Seq::empty(), reply: ReplyModel::Silent, code: 0 }),
        mode != "target"@ && !starts_with(prompt, "send"@) ==> on_toggle_target(
            me,
            prompt,
            query,
            mode,
        ).writes == seq![(StateFile::Filter, query), (StateFile::Mode, "target"@)],
        on_toggle_target(me, prompt, query, mode).code == 0,
        on_enter_filter().writes.len() == 0,
        on_enter_filter().code == 0,
{
}

/// A switch that is on goes off, and one that holds anything else goes on.
pub proof fn law_what_switches_write(me: Seq<char>, cur: Seq<char>)
    ensures
        on_toggle_ws(me, "-w"@).writes == seq![(StateFile::Ws, ""@)],
        cur != "-w"@ ==> on_toggle_ws(me, cur).writes == seq![(StateFile::Ws, "-w"@)],
        on_toggle_sbs(me, "true"@).writes == seq![(StateFile::Sbs, "false"@)],
        cur != "true"@ ==> on_toggle_sbs(me, cur).writes == seq![(StateFile::Sbs, "true"@)],
        on_toggle_exclude(me, "true"@).writes == seq![(StateFile::Exclude, "false"@)],
        cur != "true"@ ==> on_toggle_exclude(me, cur).writes == seq![(StateFile::Exclude, "true"@)],
        on_toggle_ws(me, cur).code == 0,
        on_toggle_sbs(me, cur).code == 0,
        on_toggle_exclude(me, cur).code == 0,
{
}

/// The nearer of `lo` and `hi` where `n` lies outside them.
pub proof fn law_clamped(n: int, lo: int, hi: int)
    requires
        lo <= hi,
    ensures
        lo <= clamped(n, lo, hi) <= hi,
        lo <= n <= hi ==> clamped(n, lo, hi) == n,
        n < lo ==> clamped(n, lo, hi) == lo,
        n > hi ==> clamped(n, lo, hi) == hi,
{
}

/// The width changes by as many percent as asked for, from what it was, or from 80 where the state
/// holds no number; it stays between 20 and 95. What is written is what `fzf` is told.
pub proof fn law_width_changes_by_what_is_asked_for(
    cur: int,
    delta: int,
    other: Seq<char>,
    prompt: Seq<char>,
    header: Seq<char>,
    width: int,
)
    requires
        -0x8000_0000 <= cur <= 0x7fff_ffff,
        -0x8000_0000 <= delta <= 0x7fff_ffff,
        !starts_with(prompt, "filter"@),
        !starts_with(prompt, "send"@),
        parse_signed(other, 0x8000_0000, 0x7fff_ffff) is None,
        20 <= width <= 95,
    ensures
        width == cur + delta || (width == 20 && cur + delta < 20) || (width == 95 && cur + delta
            > 95) ==> {
            &&& on_resize(signed_decimal(delta), prompt, signed_decimal(cur)).writes == seq![
                (StateFile::Size, decimal(width as nat)),
            ]
            &&& rendered(on_resize(signed_decimal(delta), prompt, signed_decimal(cur)).reply, header)
                == Some("change-preview-window(right,"@ + decimal(width as nat) + "%,wrap)"@)
        },
        on_resize(signed_decimal(delta), prompt, other) == on_resize(
            signed_decimal(delta),
            prompt,
            signed_decimal(80),
        ),
        on_resize(other, prompt, signed_decimal(cur)) == on_resize(
            signed_decimal(0),
            prompt,
            signed_decimal(cur),
        ),
        on_resize(signed_decimal(delta), prompt, signed_decimal(cur)).code == 0,
{
    law_signed_decimal_reads_back(cur, 0x8000_0000, 0x7fff_ffff);
    law_signed_decimal_reads_back(delta, 0x8000_0000, 0x7fff_ffff);
    law_signed_decimal_reads_back(80, 0x8000_0000, 0x7fff_ffff);
    law_signed_decimal_reads_back(0, 0x8000_0000, 0x7fff_ffff);
}

/// Where text is typed, the keys move by a word: forward for a change with a minus sign, and
/// backward for any other.
pub proof fn law_typed_text_is_moved_in(
    delta: Seq<char>,
    prompt: Seq<char>,
    cur: Seq<char>,
    header: Seq<char>,
)
    requires
        starts_with(prompt, "filter"@) || starts_with(prompt, "send"@),
    ensures
        on_resize(delta, prompt, cur).writes.len() == 0,
        delta.len() > 0 && delta[0] == '-' ==> rendered(on_resize(delta, prompt, cur).reply, header)
            == Some("forward-word"@),
        delta.len() == 0 || delta[0] != '-' ==> rendered(
            on_resize(delta, prompt, cur).reply,
            header,
        ) == Some("backward-word"@),
{
    reveal_strlit("-");
    if delta.len() > 0 {
        assert(delta.subrange(0, 1)[0] == delta[0]);
        if delta[0] == '-' {
            assert(delta.subrange(0, 1) =~= "-"@);
        }
    }
}

/// The number of context lines changes by as many as asked for, from what it was, or from 7 where
/// the state holds no number; it stays between 0 and 999. Nothing is said.
pub proof fn law_context_changes_by_what_is_asked_for(
    cur: int,
    delta: int,
    other: Seq<char>,
    count: int,
)
    requires
        -0x8000_0000 <= cur <= 0x7fff_ffff,
        -0x8000_0000 <= delta <= 0x7fff_ffff,
        parse_signed(other, 0x8000_0000, 0x7fff_ffff) is None,
        0 <= count <= 999,
    ensures
        count == cur + delta || (count == 0 && cur + delta < 0) || (count == 999 && cur + delta
            > 999) ==> on_context(signed_decimal(delta), signed_decimal(cur)) == (OutcomeModel {
            writes: seq![(StateFile::Context, decimal(count as nat))],
            reply: ReplyModel::Silent,
            code: 0,
        }),
        on_context(signed_decimal(delta), other) == on_context(
            signed_decimal(delta),
            signed_decimal(7),
        ),
        on_context(other, signed_decimal(cur))
            == on_context(signed_decimal(0), signed_decimal(cur)),
{
    law_signed_decimal_reads_back(cur, 0x8000_0000, 0x7fff_ffff);
    law_signed_decimal_reads_back(delta, 0x8000_0000, 0x7fff_ffff);
    law_signed_decimal_reads_back(7, 0x8000_0000, 0x7fff_ffff);
    law_signed_decimal_reads_back(0, 0x8000_0000, 0x7fff_ffff);
}

/// The keys that type: the letters of both cases but for lower-case ones that act by themselves,
/// behind these and the slash, then the digits and the space.
pub proof fn law_typing_keys()
    ensures
        typing_keys()
            == "w,x,s,g,o,q,/,a,b,c,d,e,f,h,i,j,k,l,m,n,p,r,t,u,v,y,z,A,B,C,D,E,F,G,H,I,J,K,L,M,N,O,P,Q,R,S,T,U,V,W,X,Y,Z,0,1,2,3,4,5,6,7,8,9,space"@,
{
    reveal_strlit("w,x,s,g,o,q,/");
    reveal_strlit(",");
    reveal_strlit(
        "a,b,c,d,e,f,h,i,j,k,l,m,n,p,r,t,u,v,y,z,A,B,C,D,E,F,G,H,I,J,K,L,M,N,O,P,Q,R,S,T,U,V,W,X,Y,Z,0,1,2,3,4,5,6,7,8,9,space",
    );
    reveal_strlit(
        "w,x,s,g,o,q,/,a,b,c,d,e,f,h,i,j,k,l,m,n,p,r,t,u,v,y,z,A,B,C,D,E,F,G,H,I,J,K,L,M,N,O,P,Q,R,S,T,U,V,W,X,Y,Z,0,1,2,3,4,5,6,7,8,9,space",
    );
    assert(typing_keys()
        =~= "w,x,s,g,o,q,/,a,b,c,d,e,f,h,i,j,k,l,m,n,p,r,t,u,v,y,z,A,B,C,D,E,F,G,H,I,J,K,L,M,N,O,P,Q,R,S,T,U,V,W,X,Y,Z,0,1,2,3,4,5,6,7,8,9,space"@);
}

/// An answer is said as it stands, with the header between its two parts where it has two, and
/// a silent one not at all.
pub proof fn law_answers_are_said(a: Seq<char>, b: Seq<char>, header: Seq<char>)
    ensures
        rendered(ReplyModel::Silent, header) is None,
        rendered(ReplyModel::Line(a), header) == Some(a),
        rendered(ReplyModel::WithHeader(a, b), header) == Some(a + header + b),
{
}

/// The file under the cursor is toggled, but nothing is among the targets or where there is none.
pub proof fn law_file_under_the_cursor_is_toggled(
    file: Seq<char>,
    rest: Seq<Seq<char>>,
    mode: Seq<char>,
)
    ensures
        mode != "target"@ && file.len() > 0 ==> toggle_file(seq![file] + rest, mode) == Some(file),
        toggle_file(seq![file] + rest, "target"@) is None,
        toggle_file(seq![Seq::empty()] + rest, mode) is None,
        toggle_file(Seq::empty(), mode) is None,
        listed_in(mode) == Listed::Targets <==> mode == "target"@,
{
}

/// The arguments of a subcommand are numbered from zero, and those that are missing are empty.
pub proof fn law_missing_arguments_are_empty(args: Seq<Seq<char>>, i: int)
    ensures
        0 <= i < args.len() ==> arg_at(args, i) == args[i],
        i >= args.len() ==> arg_at(args, i).len() == 0,
{
}

} // verus!

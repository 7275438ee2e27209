//! The subcommands that `fzf` calls back: what each writes to the state and what it answers.

use crate::args::{Args, ArgsModel};
use crate::fzf::{all_typing_keys, typing_keys, VIEW_GHOST};
use crate::number::{decimal, decimal_of, i32_of, parse_signed, signed_decimal, signed_decimal_of};
use crate::targets::{limit_in, recent_limit};
use crate::text::{begins_with, same, starts_with, texts};
use vstd::prelude::*;
use vstd::string::*;

verus! {

/// The values that the running viewer keeps in files of their own.
#[derive(Clone, Copy, PartialEq, Eq, Structural, Debug)]
pub enum StateFile {
    /// The width of the preview, in percent.
    Size,
    /// The file that a message is about.
    Send,
    /// The message.
    Query,
    /// The filter to come back to.
    Filter,
    /// The number of context lines.
    Context,
    /// The whitespace option.
    Ws,
    /// Whether generated files are left out.
    Exclude,
    /// What is diffed against.
    Target,
    /// Whether previews are side by side.
    Sbs,
    /// Whether files or targets are listed.
    Mode,
    /// How many recent commits are listed.
    RecentLimit,
}

/// What a subcommand answers.
#[derive(Debug)]
pub enum Reply {
    /// Nothing.
    Silent,
    /// One line.
    Line(String),
    /// One line: the first text, the header as the new state gives it, the second text.
    WithHeader(String, String),
}

/// The contents of [`Reply`].
pub enum ReplyModel {
    Silent,
    Line(Seq<char>),
    WithHeader(Seq<char>, Seq<char>),
}

impl View for Reply {
    type V = ReplyModel;

    open spec fn view(&self) -> ReplyModel {
        match self {
            Reply::Silent => ReplyModel::Silent,
            Reply::Line(s) => ReplyModel::Line(s@),
            Reply::WithHeader(a, b) => ReplyModel::WithHeader(a@, b@),
        }
    }
}

/// What a subcommand does: values to be written, in order, then the answer and the exit status.
#[derive(Debug)]
pub struct Outcome {
    pub writes: Vec<(StateFile, String)>,
    pub reply: Reply,
    pub code: i32,
}

/// The contents of [`Outcome`].
pub struct OutcomeModel {
    pub writes: Seq<(StateFile, Seq<char>)>,
    pub reply: ReplyModel,
    pub code: int,
}

/// The contents of a sequence of writes.
pub open spec fn write_models(ws: Seq<(StateFile, String)>) -> Seq<(StateFile, Seq<char>)> {
    ws.map_values(|w: (StateFile, String)| (w.0, w.1@))
}

impl View for Outcome {
    type V = OutcomeModel;

    open spec fn view(&self) -> OutcomeModel {
        OutcomeModel {
            writes: write_models(self.writes@),
            reply: self.reply@,
            code: self.code as int,
        }
    }
}

/// An outcome with exit status 0.
pub open spec fn done(writes: Seq<(StateFile, Seq<char>)>, reply: ReplyModel) -> OutcomeModel {
    OutcomeModel { writes, reply, code: 0 }
}

/// The line that `reply` comes to, where there is one.
pub open spec fn rendered(reply: ReplyModel, header: Seq<char>) -> Option<Seq<char>> {
    match reply {
        ReplyModel::Silent => None,
        ReplyModel::Line(s) => Some(s),
        ReplyModel::WithHeader(a, b) => Some(a + header + b),
    }
}

impl Reply {
    /// The line that the answer comes to, where there is one. `header` is the header as the new
    /// state gives it.
    pub fn render(&self, header: &str) -> (r: Option<String>)
        ensures
            match r {
                Some(s) => rendered(self@, header@) == Some(s@),
                None => rendered(self@, header@) is None,
            },
    {
        match self {
            Reply::Silent => None,
            Reply::Line(s) => Some(s.clone()),
            Reply::WithHeader(a, b) => {
                let mut s = a.clone();
                s.append(header);
                s.append(b);
                Some(s)
            },
        }
    }
}

/// No writes.
fn no_writes() -> (r: Vec<(StateFile, String)>)
    ensures
        write_models(r@) == Seq::<(StateFile, Seq<char>)>::empty(),
{
    let r: Vec<(StateFile, String)> = Vec::new();
    assert(write_models(r@) =~= Seq::<(StateFile, Seq<char>)>::empty());
    r
}

/// One write.
fn one_write(f: StateFile, value: &str) -> (r: Vec<(StateFile, String)>)
    ensures
        write_models(r@) == seq![(f, value@)],
{
    let mut r: Vec<(StateFile, String)> = Vec::new();
    r.push((f, value.to_owned()));
    assert(write_models(r@) =~= seq![(f, value@)]);
    r
}

/// Two writes.
fn two_writes(f: StateFile, value: &str, g: StateFile, other: &str) -> (r: Vec<(StateFile, String)>)
    ensures
        write_models(r@) == seq![(f, value@), (g, other@)],
{
    let mut r: Vec<(StateFile, String)> = Vec::new();
    r.push((f, value.to_owned()));
    r.push((g, other.to_owned()));
    assert(write_models(r@) =~= seq![(f, value@), (g, other@)]);
    r
}

/// An outcome with exit status 0.
fn finish(writes: Vec<(StateFile, String)>, reply: Reply) -> (r: Outcome)
    ensures
        r@ == done(write_models(writes@), reply@),
{
    Outcome { writes, reply, code: 0 }
}

/// The argument at position `i`, or nothing.
pub open spec fn arg_at(args: Seq<Seq<char>>, i: int) -> Seq<char> {
    if 0 <= i < args.len() {
        args[i]
    } else {
        Seq::empty()
    }
}

/// The argument at position `i`, or nothing.
pub fn arg(args: &[String], i: usize) -> (r: String)
    ensures
        r@ == arg_at(texts(args@), i as int),
{
    if i < args.len() {
        args[i].clone()
    } else {
        String::new()
    }
}

/// `on` where the value is not `on`, else `off`.
pub open spec fn flipped(cur: Seq<char>, on: Seq<char>, off: Seq<char>) -> Seq<char> {
    if cur == on {
        off
    } else {
        on
    }
}

/// `on` where the value is not `on`, else `off`.
fn flip(cur: &str, on: &str, off: &str) -> (r: String)
    ensures
        r@ == flipped(cur@, on@, off@),
{
    if same(cur, on) {
        off.to_owned()
    } else {
        on.to_owned()
    }
}

/// The answer that has the list, the preview and the header shown anew.
pub open spec fn reload_all(me: Seq<char>) -> ReplyModel {
    ReplyModel::WithHeader(
        "reload-sync("@ + me + " list)+refresh-preview+change-header("@,
        ")"@,
    )
}

/// The answer that has the list and the header shown anew.
pub open spec fn reload_list(me: Seq<char>) -> ReplyModel {
    ReplyModel::WithHeader("reload-sync("@ + me + " list)+change-header("@, ")"@)
}

/// `a`, `b` and `c` one after the other.
fn three(a: &str, b: &str, c: &str) -> (r: String)
    ensures
        r@ == a@ + b@ + c@,
{
    let mut r = a.to_owned();
    r.append(b);
    r.append(c);
    r
}

/// What switching the whitespace option does.
pub open spec fn on_toggle_ws(me: Seq<char>, cur: Seq<char>) -> OutcomeModel {
    done(seq![(StateFile::Ws, flipped(cur, "-w"@, ""@))], reload_all(me))
}

/// What switching side-by-side previews does.
pub open spec fn on_toggle_sbs(me: Seq<char>, cur: Seq<char>) -> OutcomeModel {
    done(seq![(StateFile::Sbs, flipped(cur, "true"@, "false"@))], reload_all(me))
}

/// What switching the leaving out of generated files does.
pub open spec fn on_toggle_exclude(me: Seq<char>, cur: Seq<char>) -> OutcomeModel {
    done(seq![(StateFile::Exclude, flipped(cur, "true"@, "false"@))], reload_list(me))
}

/// Switches the whitespace option, which is `cur`, on or off. `me` is how to call this program.
pub fn cmd_toggle_ws(me: &str, cur: &str) -> (r: Outcome)
    ensures
        r@ == on_toggle_ws(me@, cur@),
{
    let writes = one_write(StateFile::Ws, &flip(cur, "-w", ""));
    let before = three("reload-sync(", me, " list)+refresh-preview+change-header(");
    finish(writes, Reply::WithHeader(before, ")".to_owned()))
}

/// Switches side-by-side previews, which are `cur`, on or off.
pub fn cmd_toggle_sbs(me: &str, cur: &str) -> (r: Outcome)
    ensures
        r@ == on_toggle_sbs(me@, cur@),
{
    let writes = one_write(StateFile::Sbs, &flip(cur, "true", "false"));
    let before = three("reload-sync(", me, " list)+refresh-preview+change-header(");
    finish(writes, Reply::WithHeader(before, ")".to_owned()))
}

/// Switches the leaving out of generated files, which is `cur`, on or off.
pub fn cmd_toggle_exclude(me: &str, cur: &str) -> (r: Outcome)
    ensures
        r@ == on_toggle_exclude(me@, cur@),
{
    let writes = one_write(StateFile::Exclude, &flip(cur, "true", "false"));
    let before = three("reload-sync(", me, " list)+change-header(");
    finish(writes, Reply::WithHeader(before, ")".to_owned()))
}

/// The answer that opens the target picker.
pub open spec fn open_picker(me: Seq<char>) -> ReplyModel {
    ReplyModel::WithHeader(
        "reload-sync("@ + me + " list)+disable-search+rebind("@ + typing_keys()
            + ")+change-prompt(target> )+clear-query+refresh-preview+first+change-header("@,
        ")+change-ghost("@ + VIEW_GHOST@ + ")"@,
    )
}

/// What asking for the target picker at `prompt` does.
pub open spec fn on_toggle_target(
    me: Seq<char>,
    prompt: Seq<char>,
    query: Seq<char>,
    mode: Seq<char>,
) -> OutcomeModel {
    if starts_with(prompt, "send"@) || mode == "target"@ {
        done(Seq::empty(), ReplyModel::Silent)
    } else {
        done(
            seq![(StateFile::Filter, query), (StateFile::Mode, "target"@)],
            open_picker(me),
        )
    }
}

/// Opens the target picker, unless it is open or a message is being written.
/// `args` are the prompt and the query; `mode` says what is listed.
pub fn cmd_toggle_target(me: &str, args: &[String], mode: &str) -> (r: Outcome)
    ensures
        r@ == on_toggle_target(me@, arg_at(texts(args@), 0), arg_at(texts(args@), 1), mode@),
{
    let prompt = arg(args, 0);
    let query = arg(args, 1);
    if begins_with(&prompt, "send") || same(mode, "target") {
        return finish(no_writes(), Reply::Silent);
    }
    let writes = two_writes(StateFile::Filter, &query, StateFile::Mode, "target");
    let mut before = three("reload-sync(", me, " list)+disable-search+rebind(");
    before.append(&all_typing_keys());
    before.append(
        ")+change-prompt(target> )+clear-query+refresh-preview+first+change-header(",
    );
    let after = three(")+change-ghost(", VIEW_GHOST, ")");
    finish(writes, Reply::WithHeader(before, after))
}

/// What beginning to type a filter does.
pub open spec fn on_enter_filter() -> OutcomeModel {
    done(
        Seq::empty(),
        ReplyModel::Line(
            "enable-search+unbind("@ + typing_keys() + ")+change-prompt(filter> )+change-ghost()"@,
        ),
    )
}

/// Lets the user type a filter.
pub fn cmd_enter_filter() -> (r: Outcome)
    ensures
        r@ == on_enter_filter(),
{
    let keys = all_typing_keys();
    let line = three("enable-search+unbind(", &keys, ")+change-prompt(filter> )+change-ghost()");
    finish(no_writes(), Reply::Line(line))
}

/// The number that `s` stands for, or `default`.
pub open spec fn number_in(s: Seq<char>, default: int) -> int {
    match parse_signed(s, 0x8000_0000, 0x7fff_ffff) {
        Some(n) => n,
        None => default,
    }
}

/// The number that `s` stands for, or `default`.
fn number_or(s: &str, default: i32) -> (r: i32)
    ensures
        r == number_in(s@, default as int),
{
    match i32_of(s) {
        Some(n) => n,
        None => default,
    }
}

/// `n`, or the nearer end where it lies outside `lo..=hi`.
pub open spec fn clamped(n: int, lo: int, hi: int) -> int {
    if n < lo {
        lo
    } else if n > hi {
        hi
    } else {
        n
    }
}

/// `n`, or the nearer end where it lies outside `lo..=hi`.
fn clamp(n: i32, lo: i32, hi: i32) -> (r: i32)
    ensures
        r == clamped(n as int, lo as int, hi as int),
{
    if n < lo {
        lo
    } else if n > hi {
        hi
    } else {
        n
    }
}

/// The width of the preview after a change by `delta` from `cur`, before it is limited.
pub open spec fn resized(cur: Seq<char>, delta: Seq<char>) -> int {
    number_in(cur, 80) + number_in(delta, 0)
}

/// Whether text is being typed at `prompt`.
pub open spec fn is_typing(prompt: Seq<char>) -> bool {
    starts_with(prompt, "filter"@) || starts_with(prompt, "send"@)
}

/// Whether [`cmd_resize`] can do its work: text is being typed, or the width after the change
/// asked for can be computed in 32 bits.
pub fn resize_fits(args: &[String], cur: &str) -> (r: bool)
    ensures
        r == (is_typing(arg_at(texts(args@), 1)) || i32::MIN <= resized(
            cur@,
            arg_at(texts(args@), 0),
        ) <= i32::MAX),
{
    let prompt = arg(args, 1);
    if begins_with(&prompt, "filter") || begins_with(&prompt, "send") {
        return true;
    }
    let delta = number_or(&arg(args, 0), 0);
    number_or(cur, 80).checked_add(delta).is_some()
}

/// What changing the width of the preview by `delta` from `cur` does at `prompt`.
pub open spec fn on_resize(delta: Seq<char>, prompt: Seq<char>, cur: Seq<char>) -> OutcomeModel {
    let size = signed_decimal(clamped(resized(cur, delta), 20, 95));
    if is_typing(prompt) {
        done(
            Seq::empty(),
            ReplyModel::Line(
                if starts_with(delta, "-"@) {
                    "forward-word"@
                } else {
                    "backward-word"@
                },
            ),
        )
    } else {
        done(
            seq![(StateFile::Size, size)],
            ReplyModel::Line("change-preview-window(right,"@ + size + "%,wrap)"@),
        )
    }
}

/// Changes the width of the preview, which is `cur`; where text is being typed, moves by a word.
/// `args` are the change and the prompt.
pub fn cmd_resize(args: &[String], cur: &str) -> (r: Outcome)
    requires
        is_typing(arg_at(texts(args@), 1)) || i32::MIN <= resized(cur@, arg_at(texts(args@), 0))
            <= i32::MAX,
    ensures
        r@ == on_resize(arg_at(texts(args@), 0), arg_at(texts(args@), 1), cur@),
{
    let delta = arg(args, 0);
    let prompt = arg(args, 1);
    if begins_with(&prompt, "filter") || begins_with(&prompt, "send") {
        let word = if begins_with(&delta, "-") {
            "forward-word".to_owned()
        } else {
            "backward-word".to_owned()
        };
        return finish(no_writes(), Reply::Line(word));
    }
    let size = signed_decimal_of(clamp(number_or(cur, 80) + number_or(&delta, 0), 20, 95));
    let line = three("change-preview-window(right,", &size, "%,wrap)");
    finish(one_write(StateFile::Size, &size), Reply::Line(line))
}

/// The number of context lines after a change by `delta` from `cur`, before it is limited.
pub open spec fn recontexted(cur: Seq<char>, delta: Seq<char>) -> int {
    number_in(cur, 7) + number_in(delta, 0)
}

/// Whether the number of context lines after the change asked for can be computed in 32 bits.
pub fn context_fits(args: &[String], cur: &str) -> (r: bool)
    ensures
        r == (i32::MIN <= recontexted(cur@, arg_at(texts(args@), 0)) <= i32::MAX),
{
    let delta = number_or(&arg(args, 0), 0);
    number_or(cur, 7).checked_add(delta).is_some()
}

/// What changing the number of context lines by `delta` from `cur` does.
pub open spec fn on_context(delta: Seq<char>, cur: Seq<char>) -> OutcomeModel {
    done(
        seq![(StateFile::Context, signed_decimal(clamped(recontexted(cur, delta), 0, 999)))],
        ReplyModel::Silent,
    )
}

/// Changes the number of context lines, which is `cur`. `args` is the change.
pub fn cmd_context(args: &[String], cur: &str) -> (r: Outcome)
    requires
        i32::MIN <= recontexted(cur@, arg_at(texts(args@), 0)) <= i32::MAX,
    ensures
        r@ == on_context(arg_at(texts(args@), 0), cur@),
{
    let delta = arg(args, 0);
    let n = signed_decimal_of(clamp(number_or(cur, 7) + number_or(&delta, 0), 0, 999));
    finish(one_write(StateFile::Context, &n), Reply::Silent)
}

/// The actions that bring the list of files back, with the filter `saved`.
pub open spec fn back_to_files(saved: Seq<char>) -> Seq<char> {
    "disable-search+rebind("@ + typing_keys() + ")+change-prompt(diffview> )+change-query("@ + saved
        + ")"@
}

/// The actions that bring the list of files back, with the filter `saved`.
fn show_back_to_files(saved: &str) -> (r: String)
    ensures
        r@ == back_to_files(saved@),
{
    let keys = all_typing_keys();
    let mut r = three("disable-search+rebind(", &keys, ")+change-prompt(diffview> )+change-query(");
    r.append(saved);
    r.append(")");
    r
}

/// The answer that closes the target picker.
pub open spec fn close_picker(me: Seq<char>, saved: Seq<char>) -> ReplyModel {
    ReplyModel::WithHeader(
        "reload-sync("@ + me + " list)+"@ + back_to_files(saved)
            + "+refresh-preview+first+change-header("@,
        ")+change-ghost("@ + VIEW_GHOST@ + ")"@,
    )
}

/// The answer that closes the target picker.
fn closing_reply(me: &str, saved: &str) -> (r: Reply)
    ensures
        r@ == close_picker(me@, saved@),
{
    let mut before = three("reload-sync(", me, " list)+");
    before.append(&show_back_to_files(saved));
    before.append("+refresh-preview+first+change-header(");
    Reply::WithHeader(before, three(")+change-ghost(", VIEW_GHOST, ")"))
}

/// The actions that leave the message prompt.
pub open spec fn leave_message(saved: Seq<char>) -> Seq<char> {
    back_to_files(saved) + "+change-ghost("@ + VIEW_GHOST@ + ")"@
}

/// The actions that leave the message prompt.
fn show_leave_message(saved: &str) -> (r: String)
    ensures
        r@ == leave_message(saved@),
{
    let mut r = show_back_to_files(saved);
    r.append("+change-ghost(");
    r.append(VIEW_GHOST);
    r.append(")");
    r
}

/// Whether [`cmd_enter_action`] can do its work: no more commits are asked for, or ten more can
/// be counted in 32 bits.
pub fn load_more_fits(args: &[String], mode: &str, limit: &str) -> (r: bool)
    ensures
        r == (mode@ == "target"@ && arg_at(texts(args@), 2) == "__LOAD_MORE__"@ ==> limit_in(limit@)
            + 10 <= u32::MAX),
{
    if !same(mode, "target") || !same(&arg(args, 2), "__LOAD_MORE__") {
        return true;
    }
    recent_limit(limit) <= u32::MAX - 10
}

/// What the enter key does: `prompt`, `query` and `file` are what the user is at, `mode` says
/// what is listed, `limit` how many recent commits, and `saved` is the filter to come back to.
pub open spec fn on_enter(
    me: Seq<char>,
    prompt: Seq<char>,
    query: Seq<char>,
    file: Seq<char>,
    mode: Seq<char>,
    limit: Seq<char>,
    saved: Seq<char>,
) -> OutcomeModel {
    if mode == "target"@ {
        if file.len() == 0 {
            done(Seq::empty(), ReplyModel::Silent)
        } else if file == "__LOAD_MORE__"@ {
            done(
                seq![(StateFile::RecentLimit, decimal(limit_in(limit) + 10))],
                ReplyModel::Line("reload-sync("@ + me + " list)+refresh-preview+last"@),
            )
        } else {
            done(
                seq![(StateFile::Target, file), (StateFile::Mode, "files"@)],
                close_picker(me, saved),
            )
        }
    } else if starts_with(prompt, "send"@) {
        if query.len() > 0 {
            done(
                seq![(StateFile::Query, query)],
                ReplyModel::Line("execute-silent("@ + me + " send)+"@ + leave_message(saved)),
            )
        } else {
            done(Seq::empty(), ReplyModel::Line(leave_message(saved)))
        }
    } else {
        done(
            seq![(StateFile::Filter, query), (StateFile::Send, file)],
            ReplyModel::Line(
                "disable-search+unbind("@ + typing_keys()
                    + ")+change-prompt(send> )+clear-query+change-ghost()"@,
            ),
        )
    }
}

/// What the enter key does. `args` are the prompt, the query and the file or target under the
/// cursor.
pub fn cmd_enter_action(me: &str, args: &[String], mode: &str, limit: &str, saved: &str) -> (r:
    Outcome)
    requires
        mode@ == "target"@ && arg_at(texts(args@), 2) == "__LOAD_MORE__"@ ==> limit_in(limit@) + 10
            <= u32::MAX,
    ensures
        r@ == on_enter(
            me@,
            arg_at(texts(args@), 0),
            arg_at(texts(args@), 1),
            arg_at(texts(args@), 2),
            mode@,
            limit@,
            saved@,
        ),
{
    let prompt = arg(args, 0);
    let query = arg(args, 1);
    let file = arg(args, 2);
    if same(mode, "target") {
        if file.as_str().is_empty() {
            return finish(no_writes(), Reply::Silent);
        }
        if same(&file, "__LOAD_MORE__") {
            let n: u32 = recent_limit(limit) + 10;
            let writes = one_write(StateFile::RecentLimit, &decimal_of(n as u128));
            let line = three("reload-sync(", me, " list)+refresh-preview+last");
            return finish(writes, Reply::Line(line));
        }
        let writes = two_writes(StateFile::Target, &file, StateFile::Mode, "files");
        return finish(writes, closing_reply(me, saved));
    }
    if begins_with(&prompt, "send") {
        let leave = show_leave_message(saved);
        if !query.as_str().is_empty() {
            let mut line = three("execute-silent(", me, " send)+");
            line.append(&leave);
            return finish(one_write(StateFile::Query, &query), Reply::Line(line));
        }
        return finish(no_writes(), Reply::Line(leave));
    }
    let writes = two_writes(StateFile::Filter, &query, StateFile::Send, &file);
    let keys = all_typing_keys();
    let line = three(
        "disable-search+unbind(",
        &keys,
        ")+change-prompt(send> )+clear-query+change-ghost()",
    );
    finish(writes, Reply::Line(line))
}

/// The answer that ends the typing of a filter, with the prompt `prompt`.
pub open spec fn end_filter(prompt: Seq<char>) -> ReplyModel {
    ReplyModel::Line(
        "disable-search+rebind("@ + typing_keys() + ")+change-prompt("@ + prompt
            + ")+change-ghost("@ + VIEW_GHOST@ + ")"@,
    )
}

/// What the escape key does at `prompt`: it leaves the filter, the target picker or the message.
pub open spec fn on_escape(
    me: Seq<char>,
    prompt: Seq<char>,
    mode: Seq<char>,
    saved: Seq<char>,
) -> OutcomeModel {
    if starts_with(prompt, "filter"@) {
        done(
            Seq::empty(),
            end_filter(
                if mode == "target"@ {
                    "target> "@
                } else {
                    "diffview> "@
                },
            ),
        )
    } else if starts_with(prompt, "target"@) {
        done(seq![(StateFile::Mode, "files"@)], close_picker(me, saved))
    } else if starts_with(prompt, "send"@) {
        done(Seq::empty(), ReplyModel::Line(leave_message(saved)))
    } else {
        done(Seq::empty(), ReplyModel::Silent)
    }
}

/// What the escape key does. `args` is the prompt, `mode` says what is listed, and `saved` is the
/// filter to come back to.
pub fn cmd_escape_action(me: &str, args: &[String], mode: &str, saved: &str) -> (r: Outcome)
    ensures
        r@ == on_escape(me@, arg_at(texts(args@), 0), mode@, saved@),
{
    let prompt = arg(args, 0);
    if begins_with(&prompt, "filter") {
        let keys = all_typing_keys();
        let mut line = three("disable-search+rebind(", &keys, ")+change-prompt(");
        if same(mode, "target") {
            line.append("target> ");
        } else {
            line.append("diffview> ");
        }
        line.append(")+change-ghost(");
        line.append(VIEW_GHOST);
        line.append(")");
        return finish(no_writes(), Reply::Line(line));
    }
    if begins_with(&prompt, "target") {
        let writes = one_write(StateFile::Mode, "files");
        return finish(writes, closing_reply(me, saved));
    }
    if begins_with(&prompt, "send") {
        return finish(no_writes(), Reply::Line(show_leave_message(saved)));
    }
    finish(no_writes(), Reply::Silent)
}

/// The file whose mark is to be toggled: the first of `args`, unless targets are listed.
pub open spec fn toggle_file(args: Seq<Seq<char>>, mode: Seq<char>) -> Option<Seq<char>> {
    if mode == "target"@ || arg_at(args, 0).len() == 0 {
        None
    } else {
        Some(arg_at(args, 0))
    }
}

/// The file whose mark is to be toggled: the first of `args`, unless targets are listed.
pub fn cmd_toggle(args: &[String], mode: &str) -> (r: Option<String>)
    ensures
        match r {
            Some(f) => toggle_file(texts(args@), mode@) == Some(f@),
            None => toggle_file(texts(args@), mode@) is None,
        },
{
    let file = arg(args, 0);
    if same(mode, "target") || file.as_str().is_empty() {
        None
    } else {
        Some(file)
    }
}

/// What can be listed.
#[derive(Clone, Copy, PartialEq, Eq, Structural, Debug)]
pub enum Listed {
    /// The changed files.
    Files,
    /// The targets to diff against.
    Targets,
}

/// What is listed in the mode `mode`.
pub open spec fn listed_in(mode: Seq<char>) -> Listed {
    if mode == "target"@ {
        Listed::Targets
    } else {
        Listed::Files
    }
}

/// What is listed in the mode `mode`.
pub fn cmd_list(mode: &str) -> (r: Listed)
    ensures
        r == listed_in(mode@),
{
    if same(mode, "target") {
        Listed::Targets
    } else {
        Listed::Files
    }
}

/// The subcommands.
#[derive(Clone, Copy, PartialEq, Eq, Structural, Debug)]
pub enum Command {
    List,
    Header,
    Toggle,
    ToggleWs,
    ToggleSbs,
    ToggleExclude,
    ToggleTarget,
    EnterFilter,
    Resize,
    Send,
    Context,
    Open,
    EnterAction,
    EscapeAction,
    Preview,
    /// A name that no subcommand has: nothing is done.
    Nothing,
}

/// The subcommand with the name `name`.
pub open spec fn command_named(name: Seq<char>) -> Command {
    if name == "list"@ {
        Command::List
    } else if name == "header"@ {
        Command::Header
    } else if name == "toggle"@ {
        Command::Toggle
    } else if name == "toggle-ws"@ {
        Command::ToggleWs
    } else if name == "toggle-sbs"@ {
        Command::ToggleSbs
    } else if name == "toggle-exclude"@ {
        Command::ToggleExclude
    } else if name == "toggle-target"@ {
        Command::ToggleTarget
    } else if name == "enter-filter"@ {
        Command::EnterFilter
    } else if name == "resize"@ {
        Command::Resize
    } else if name == "send"@ {
        Command::Send
    } else if name == "context"@ {
        Command::Context
    } else if name == "open"@ {
        Command::Open
    } else if name == "enter-action"@ {
        Command::EnterAction
    } else if name == "escape-action"@ {
        Command::EscapeAction
    } else if name == "preview"@ {
        Command::Preview
    } else {
        Command::Nothing
    }
}

/// The subcommand that the command line asks for, where it asks for one.
pub open spec fn command_of(a: ArgsModel) -> Option<Command> {
    if a.subcmd.len() == 0 {
        None
    } else {
        Some(command_named(a.subcmd))
    }
}

/// The subcommand that the command line asks for, where it asks for one.
pub fn dispatch(a: &Args) -> (r: Option<Command>)
    ensures
        r == command_of(a@),
{
    let name = a.subcmd.as_str();
    if name.is_empty() {
        return None;
    }
    let c = if same(name, "list") {
        Command::List
    } else if same(name, "header") {
        Command::Header
    } else if same(name, "toggle") {
        Command::Toggle
    } else if same(name, "toggle-ws") {
        Command::ToggleWs
    } else if same(name, "toggle-sbs") {
        Command::ToggleSbs
    } else if same(name, "toggle-exclude") {
        Command::ToggleExclude
    } else if same(name, "toggle-target") {
        Command::ToggleTarget
    } else if same(name, "enter-filter") {
        Command::EnterFilter
    } else if same(name, "resize") {
        Command::Resize
    } else if same(name, "send") {
        Command::Send
    } else if same(name, "context") {
        Command::Context
    } else if same(name, "open") {
        Command::Open
    } else if same(name, "enter-action") {
        Command::EnterAction
    } else if same(name, "escape-action") {
        Command::EscapeAction
    } else if same(name, "preview") {
        Command::Preview
    } else {
        Command::Nothing
    };
    Some(c)
}

} // verus!

//! The command line: mode flags, then perhaps a subcommand with its own arguments.

use crate::text::{chars_of, is_digit, piece, same, texts};
use vstd::prelude::*;
use vstd::string::*;

verus! {

/// What the command line asks for.
#[derive(Debug)]
pub struct Args {
    /// The whitespace option for `git diff`: `-w` or nothing.
    pub ws: String,
    /// Whether to diff against the merge base.
    pub merge_base: bool,
    /// Whether to diff against the upstream branch.
    pub upstream: bool,
    /// How many commits to go back, in digits; empty where not asked for.
    pub commit_back: String,
    /// Whether to leave out generated files.
    pub exclude: bool,
    /// Whether to show previews side by side.
    pub sidebyside: bool,
    /// Whether to open the target picker.
    pub target_mode: bool,
    /// The subcommand, or nothing.
    pub subcmd: String,
    /// The arguments after the subcommand.
    pub subcmd_args: Vec<String>,
}

/// The contents of [`Args`].
pub struct ArgsModel {
    pub ws: Seq<char>,
    pub merge_base: bool,
    pub upstream: bool,
    pub commit_back: Seq<char>,
    pub exclude: bool,
    pub sidebyside: bool,
    pub target_mode: bool,
    pub subcmd: Seq<char>,
    pub subcmd_args: Seq<Seq<char>>,
}

impl View for Args {
    type V = ArgsModel;

    open spec fn view(&self) -> ArgsModel {
        ArgsModel {
            ws: self.ws@,
            merge_base: self.merge_base,
            upstream: self.upstream,
            commit_back: self.commit_back@,
            exclude: self.exclude,
            sidebyside: self.sidebyside,
            target_mode: self.target_mode,
            subcmd: self.subcmd@,
            subcmd_args: texts(self.subcmd_args@),
        }
    }
}

/// The names of the subcommands.
pub open spec fn subcommands() -> Seq<Seq<char>> {
    seq![
        "list"@,
        "toggle"@,
        "resize"@,
        "send"@,
        "enter-action"@,
        "escape-action"@,
        "context"@,
        "open"@,
        "toggle-ws"@,
        "toggle-exclude"@,
        "toggle-sbs"@,
        "toggle-target"@,
        "enter-filter"@,
        "preview"@,
        "header"@,
    ]
}

/// Whether `arg` is `~` and at least one digit.
pub open spec fn is_commit_back(arg: Seq<char>) -> bool {
    &&& arg.len() >= 2
    &&& arg[0] == '~'
    &&& forall|i: int| 1 <= i < arg.len() ==> is_digit(#[trigger] arg[i])
}

/// Nothing asked for.
pub open spec fn no_args() -> ArgsModel {
    ArgsModel {
        ws: Seq::empty(),
        merge_base: false,
        upstream: false,
        commit_back: Seq::empty(),
        exclude: false,
        sidebyside: false,
        target_mode: false,
        subcmd: Seq::empty(),
        subcmd_args: Seq::empty(),
    }
}

/// What `a` becomes when `arg` comes next on the command line.
pub open spec fn with_arg(a: ArgsModel, arg: Seq<char>) -> ArgsModel {
    if a.subcmd.len() > 0 {
        ArgsModel { subcmd_args: a.subcmd_args.push(arg), ..a }
    } else if is_commit_back(arg) {
        ArgsModel { commit_back: arg.skip(1), ..a }
    } else if arg == "w"@ {
        ArgsModel { ws: "-w"@, ..a }
    } else if arg == "m"@ {
        ArgsModel { merge_base: true, ..a }
    } else if arg == "p"@ {
        ArgsModel { upstream: true, ..a }
    } else if arg == "x"@ {
        ArgsModel { exclude: true, ..a }
    } else if arg == "s"@ {
        ArgsModel { sidebyside: true, ..a }
    } else if arg == "t"@ {
        ArgsModel { target_mode: true, ..a }
    } else if subcommands().contains(arg) {
        ArgsModel { subcmd: arg, ..a }
    } else {
        a
    }
}

/// What the command line `argv` asks for.
pub open spec fn parsed(argv: Seq<Seq<char>>) -> ArgsModel
    decreases argv.len(),
{
    if argv.len() == 0 {
        no_args()
    } else {
        with_arg(parsed(argv.drop_last()), argv.last())
    }
}

/// Whether `s` names a subcommand.
pub fn is_subcommand(s: &str) -> (r: bool)
    ensures
        r == subcommands().contains(s@),
{
    let names: [&str; 15] = [
        "list",
        "toggle",
        "resize",
        "send",
        "enter-action",
        "escape-action",
        "context",
        "open",
        "toggle-ws",
        "toggle-exclude",
        "toggle-sbs",
        "toggle-target",
        "enter-filter",
        "preview",
        "header",
    ];
    let ghost all = subcommands();
    assert(forall|k: int| 0 <= k < 15 ==> all[k] == names@[k]@);
    let mut i: usize = 0;
    while i < 15
        invariant
            i <= 15,
            all == subcommands(),
            forall|k: int| 0 <= k < 15 ==> all[k] == names@[k]@,
            forall|k: int| 0 <= k < i ==> all[k] != s@,
        decreases 15 - i,
    {
        if same(s, names[i]) {
            assert(all[i as int] == s@);
            return true;
        }
        i += 1;
    }
    assert(all.len() == 15);
    false
}

/// The digits of `arg` where it is `~` and at least one digit.
fn commit_back_of(arg: &str) -> (r: Option<String>)
    ensures
        match r {
            Some(n) => is_commit_back(arg@) && n@ == arg@.skip(1),
            None => !is_commit_back(arg@),
        },
{
    let cs = chars_of(arg);
    let n: usize = cs.len();
    if n < 2 || cs[0] != '~' {
        return None;
    }
    let mut i: usize = 1;
    while i < n
        invariant
            n == cs@.len(),
            cs@ == arg@,
            1 <= i <= n,
            forall|k: int| 1 <= k < i ==> is_digit(#[trigger] arg@[k]),
        decreases n - i,
    {
        let c = cs[i];
        if !('0' <= c && c <= '9') {
            assert(!is_digit(arg@[i as int]));
            return None;
        }
        i += 1;
    }
    Some(piece(&cs, 1, n))
}

/// Reads the command line. Words that mean nothing are passed over; everything
/// after a subcommand belongs to it.
pub fn parse_args(argv: &[String]) -> (r: Args)
    ensures
        r@ == parsed(texts(argv@)),
{
    let mut a = Args {
        ws: String::new(),
        merge_base: false,
        upstream: false,
        commit_back: String::new(),
        exclude: false,
        sidebyside: false,
        target_mode: false,
        subcmd: String::new(),
        subcmd_args: Vec::new(),
    };
    assert(a@.subcmd_args =~= no_args().subcmd_args);
    let ghost all = texts(argv@);
    let mut i: usize = 0;
    while i < argv.len()
        invariant
            all == texts(argv@),
            i <= argv@.len(),
            a@ == parsed(all.take(i as int)),
        decreases argv@.len() - i,
    {
        let arg = argv[i].as_str();
        let ghost before = a@;
        assert(all.take(i + 1).drop_last() == all.take(i as int));
        assert(all.take(i + 1).last() == arg@);
        if !a.subcmd.as_str().is_empty() {
            a.subcmd_args.push(arg.to_owned());
            assert(a@.subcmd_args == before.subcmd_args.push(arg@)) by {
                broadcast use crate::text::lemma_texts_push;
            }
        } else {
            match commit_back_of(arg) {
                Some(n) => {
                    a.commit_back = n;
                },
                None => {
                    if same(arg, "w") {
                        a.ws = "-w".to_owned();
                    } else if same(arg, "m") {
                        a.merge_base = true;
                    } else if same(arg, "p") {
                        a.upstream = true;
                    } else if same(arg, "x") {
                        a.exclude = true;
                    } else if same(arg, "s") {
                        a.sidebyside = true;
                    } else if same(arg, "t") {
                        a.target_mode = true;
                    } else if is_subcommand(arg) {
                        a.subcmd = arg.to_owned();
                    }
                },
            }
        }
        i += 1;
    }
    assert(all.take(all.len() as int) == all);
    a
}

} // verus!

//! How `fzf` is set up, for every path of the viewer, header and list.

use crate::fzf::{
    bind_options, bindings, fzf_argv, is_cut_short, preview_argv, IGNORE_KEYS, PREVIEW_CMD,
};
use crate::paths::quoted;
use crate::text::{contains, lines};
use vstd::prelude::*;

verus! {

/// What each key does: the keys for the preview and the rows act within `fzf`, and all others call
/// the viewer back with the subcommand for them.
pub proof fn law_keys_call_the_viewer_back(me: Seq<char>)
    ensures
        bindings(me).len() == 28,
        bindings(me)[0] == "ctrl-d:preview-half-page-down,ctrl-u:preview-half-page-up"@,
        bindings(me)[1] == "page-down:preview-page-down,page-up:preview-page-up"@,
        bindings(me)[2] == "home:preview-half-page-up,end:preview-half-page-down"@,
        bindings(me)[3] == "left:up,right:down"@,
        bindings(me)[4] == "up:preview-up,down:preview-down"@,
        bindings(me)[5] == "shift-left:backward-char,shift-right:forward-char"@,
        bindings(me)[6] == "ctrl-right:transform("@ + me + " resize -3 {fzf:prompt})"@,
        bindings(me)[7] == "ctrl-left:transform("@ + me + " resize +3 {fzf:prompt})"@,
        bindings(me)[8] == "focus:reload-sync("@ + me + " list)"@,
        bindings(me)[9] == "ctrl-up:execute-silent("@ + me + (" context +3)+reload-sync("@ + me
            + " list)+refresh-preview"@),
        bindings(me)[10] == "ctrl-down:execute-silent("@ + me + (" context -3)+reload-sync("@ + me
            + " list)+refresh-preview"@),
        bindings(me)[11] == "start:disable-search"@,
        bindings(me)[12] == IGNORE_KEYS@ + ":ignore"@,
        bindings(me)[13] == "ctrl-e:execute("@ + me + (" open {2})+reload-sync("@ + me
            + " list)+refresh-preview"@),
        bindings(me)[14] == "o:execute("@ + me + (" open {2})+reload-sync("@ + me
            + " list)+refresh-preview"@),
        bindings(me)[15] == "ctrl-w:transform("@ + me + " toggle-ws)"@,
        bindings(me)[16] == "w:transform("@ + me + " toggle-ws)"@,
        bindings(me)[17] == "ctrl-x:transform("@ + me + " toggle-exclude)"@,
        bindings(me)[18] == "x:transform("@ + me + " toggle-exclude)"@,
        bindings(me)[19] == "ctrl-g:transform("@ + me + " toggle-target {fzf:prompt} {q})"@,
        bindings(me)[20] == "g:transform("@ + me + " toggle-target {fzf:prompt} {q})"@,
        bindings(me)[21] == "ctrl-s:transform("@ + me + " toggle-sbs)"@,
        bindings(me)[22] == "s:transform("@ + me + " toggle-sbs)"@,
        bindings(me)[23] == "q:abort"@,
        bindings(me)[24] == "/:transform("@ + me + " enter-filter {fzf:prompt})"@,
        bindings(me)[25] == "enter:transform("@ + me + " enter-action {fzf:prompt} {q} {2})"@,
        bindings(me)[26] == "esc:transform("@ + me + " escape-action {fzf:prompt})"@,
        bindings(me)[27] == "tab:execute-silent("@ + me + (" toggle {2})+reload-sync("@ + me
            + " list)+transform([[ {1} == ✓* ]] || echo down)"@),
{
}

/// `fzf` is given each binding, behind an option of its own.
pub proof fn law_every_binding_is_given(all: Seq<Seq<char>>, i: int)
    requires
        0 <= i < all.len(),
    ensures
        bind_options(all).len() == 2 * all.len(),
        bind_options(all)[2 * i] == "--bind"@,
        bind_options(all)[2 * i + 1] == all[i],
    decreases all.len(),
{
    let d = all.drop_last();
    if d.len() > 0 {
        law_every_binding_is_given(
            d,
            if i < d.len() {
                i
            } else {
                0
            },
        );
    } else {
        assert(bind_options(d).len() == 0);
    }
}

/// The line that says that files were left out is a header, and no other first line is.
pub proof fn law_first_line_may_be_a_header(list: Seq<char>)
    ensures
        is_cut_short(list) <==> lines(list).len() > 0 && contains(lines(list)[0], "__TOO_MANY__"@),
{
}

/// The options of `fzf`: the prompt for what is listed, the header, the second field behind the
/// separator for the preview, one header line where the list is cut, and the bindings that call
/// the viewer back by its quoted path.
pub proof fn law_options_of_fzf(
    me: Seq<char>,
    target_mode: bool,
    header: Seq<char>,
    list: Seq<char>,
)
    ensures
        ({
            let argv = fzf_argv(me, target_mode, header, list);
            let n: int = if is_cut_short(list) {
                17
            } else {
                16
            };
            &&& argv.len() == n + 56
            &&& argv[0] == "--ansi"@ && argv[1] == "--no-sort"@ && argv[2] == "--layout=reverse"@
                && argv[3] == "--with-nth=1"@
            &&& argv[4] == "--prompt"@
            &&& target_mode ==> argv[5] == "target> "@
            &&& !target_mode ==> argv[5] == "diffview> "@
            &&& argv[6] == "--ghost"@ && argv[7] == "/ to filter"@ && argv[8] == "--color=ghost:8"@
            &&& argv[9] == "--header"@ && argv[10] == header
            &&& argv[11] == "--delimiter"@ && argv[12] == "\\x1f"@
            &&& argv[13] == "--preview"@ && argv[14] == "bash -c '"@ + PREVIEW_CMD@ + "' -- {2}"@
            &&& argv[15] == "--preview-window=right:80%:wrap"@
            &&& is_cut_short(list) ==> argv[16] == "--header-lines=1"@
            &&& forall|i: int|
                0 <= i < 28 ==> argv[n + 2 * i] == "--bind"@ && argv[n + 2 * i + 1]
                    == #[trigger] bindings(quoted(me))[i]
        }),
{
    let all = bindings(quoted(me));
    let argv = fzf_argv(me, target_mode, header, list);
    let n: int = if is_cut_short(list) {
        17
    } else {
        16
    };
    let opts = bind_options(all);
    law_every_binding_is_given(all, 0);
    assert forall|i: int| 0 <= i < 28 implies argv[n + 2 * i] == "--bind"@ && argv[n + 2 * i + 1]
        == #[trigger] all[i] by {
        law_every_binding_is_given(all, i);
        assert(argv[n + 2 * i] == opts[2 * i]);
        assert(argv[n + 2 * i + 1] == opts[2 * i + 1]);
    }
}

/// The preview is the script, run on the row under the cursor, or on nothing where there is none.
pub proof fn law_preview_runs_the_script(file: Seq<char>, rest: Seq<Seq<char>>)
    ensures
        preview_argv(seq![file] + rest) == seq!["-c"@, PREVIEW_CMD@, "--"@, file],
        preview_argv(Seq::empty()) == seq!["-c"@, PREVIEW_CMD@, "--"@, Seq::empty()],
{
}

} // verus!

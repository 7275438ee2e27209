//! How `fzf` is started: keys, bindings and arguments.

use crate::command::{arg, arg_at};
use crate::paths::{quoted, shell_quote};
use crate::text::{contains, lines, lines_of, mentions, strings, texts};
use vstd::prelude::*;
use vstd::string::*;

verus! {

/// Keys that act by themselves while the list has the focus.
pub const UNPREFIXED_KEYS: &'static str = "w,x,s,g,o,q,/";

/// Keys that do nothing while the list has the focus.
pub const IGNORE_KEYS: &'static str = "a,b,c,d,e,f,h,i,j,k,l,m,n,p,r,t,u,v,y,z,A,B,C,D,E,F,G,H,I,J,K,L,M,N,O,P,Q,R,S,T,U,V,W,X,Y,Z,0,1,2,3,4,5,6,7,8,9,space";

/// What the empty query line says.
pub const VIEW_GHOST: &'static str = "/ to filter";

/// All keys that type text, where text can be typed.
pub open spec fn typing_keys() -> Seq<char> {
    UNPREFIXED_KEYS@ + ","@ + IGNORE_KEYS@
}

/// All keys that type text, where text can be typed.
pub fn all_typing_keys() -> (r: String)
    ensures
        r@ == typing_keys(),
{
    let mut r = UNPREFIXED_KEYS.to_owned();
    r.append(",");
    r.append(IGNORE_KEYS);
    r
}

/// The script that previews the row under the cursor, which it gets as its argument.
pub const PREVIEW_CMD: &'static str = r#"
file="$1"
[[ -z "$file" ]] && exit 0
ws=$(cat "$DIFFVIEW_WS_FILE" 2>/dev/null)
ctx=$(cat "$DIFFVIEW_CONTEXT_FILE" 2>/dev/null || echo 4)
sbs_flag=""
[[ "$(cat "$DIFFVIEW_SBS_FILE" 2>/dev/null)" == "true" ]] && sbs_flag="--side-by-side"
mode=$(cat "$DIFFVIEW_MODE_FILE" 2>/dev/null)
if [[ "$mode" == "target" ]]; then
    [[ "$file" == "__LOAD_MORE__" ]] && exit 0
    cd "$DIFFVIEW_TOPLEVEL"
    {
        git diff -U$ctx $ws "$file"
        if [[ "$file" != *..* ]]; then
            while IFS= read -r u; do
                [[ -z "$u" || ! -f "$u" ]] && continue
                git diff -U$ctx $ws --no-index -- /dev/null "$u" 2>/dev/null
            done < <(git ls-files --others --exclude-standard)
        fi
    } | DELTA_FEATURES=inline delta $sbs_flag --wrap-max-lines unlimited --width="$FZF_PREVIEW_COLUMNS" --paging=never
    exit 0
fi
target=$(cat "$DIFFVIEW_TARGET_FILE" 2>/dev/null || echo "$DIFFVIEW_TARGET")
cd "$DIFFVIEW_TOPLEVEL"
if [[ "$target" == *..* ]]; then
    git diff -U$ctx $ws "$target" -- "$file" \
        | DELTA_FEATURES=inline delta $sbs_flag --wrap-max-lines unlimited --width="$FZF_PREVIEW_COLUMNS" --paging=never
elif [[ -f "$file" ]] && ! git ls-files --error-unmatch -- "$file" >/dev/null 2>&1; then
    git diff -U$ctx $ws --no-index -- /dev/null "$file" 2>/dev/null \
        | DELTA_FEATURES=inline delta $sbs_flag --wrap-max-lines unlimited --width="$FZF_PREVIEW_COLUMNS" --paging=never
elif git cat-file -e "$target:$file" 2>/dev/null; then
    git diff -U$ctx $ws "$target" -- "$file" \
        | DELTA_FEATURES=inline delta $sbs_flag --wrap-max-lines unlimited --width="$FZF_PREVIEW_COLUMNS" --paging=never
else
    old_path=$(git diff --name-status $ws "$target" 2>/dev/null | grep -P "^R\d+\t.+\t\Q${file}\E$" | head -1 | cut -f2)
    if [[ -n "$old_path" ]]; then
        git diff -U$ctx $ws "$target" -- "$old_path" "$file" \
            | DELTA_FEATURES=inline delta $sbs_flag --wrap-max-lines unlimited --width="$FZF_PREVIEW_COLUMNS" --paging=never
    elif [[ -f "$file" ]]; then
        git diff -U$ctx $ws --no-index -- /dev/null "$file" 2>/dev/null \
            | DELTA_FEATURES=inline delta $sbs_flag --wrap-max-lines unlimited --width="$FZF_PREVIEW_COLUMNS" --paging=never
    fi
fi
"#;

/// `me` between `head` and `tail`.
pub open spec fn around(head: Seq<char>, me: Seq<char>, tail: Seq<char>) -> Seq<char> {
    head + me + tail
}

/// `me` between `head` and `tail`.
fn call(head: &str, me: &str, tail: &str) -> (r: String)
    ensures
        r@ == around(head@, me@, tail@),
{
    let mut r = head.to_owned();
    r.append(me);
    r.append(tail);
    r
}

/// What each key and event does. `me` is the command that calls the viewer back.
pub open spec fn bindings(me: Seq<char>) -> Seq<Seq<char>> {
    seq![
        "ctrl-d:preview-half-page-down,ctrl-u:preview-half-page-up"@,
        "page-down:preview-page-down,page-up:preview-page-up"@,
        "home:preview-half-page-up,end:preview-half-page-down"@,
        "left:up,right:down"@,
        "up:preview-up,down:preview-down"@,
        "shift-left:backward-char,shift-right:forward-char"@,
        around("ctrl-right:transform("@, me, " resize -3 {fzf:prompt})"@),
        around("ctrl-left:transform("@, me, " resize +3 {fzf:prompt})"@),
        around("focus:reload-sync("@, me, " list)"@),
        around(
            "ctrl-up:execute-silent("@,
            me,
            around(" context +3)+reload-sync("@, me, " list)+refresh-preview"@),
        ),
        around(
            "ctrl-down:execute-silent("@,
            me,
            around(" context -3)+reload-sync("@, me, " list)+refresh-preview"@),
        ),
        "start:disable-search"@,
        IGNORE_KEYS@ + ":ignore"@,
        around(
            "ctrl-e:execute("@,
            me,
            around(" open {2})+reload-sync("@, me, " list)+refresh-preview"@),
        ),
        around(
            "o:execute("@,
            me,
            around(" open {2})+reload-sync("@, me, " list)+refresh-preview"@),
        ),
        around("ctrl-w:transform("@, me, " toggle-ws)"@),
        around("w:transform("@, me, " toggle-ws)"@),
        around("ctrl-x:transform("@, me, " toggle-exclude)"@),
        around("x:transform("@, me, " toggle-exclude)"@),
        around("ctrl-g:transform("@, me, " toggle-target {fzf:prompt} {q})"@),
        around("g:transform("@, me, " toggle-target {fzf:prompt} {q})"@),
        around("ctrl-s:transform("@, me, " toggle-sbs)"@),
        around("s:transform("@, me, " toggle-sbs)"@),
        "q:abort"@,
        around("/:transform("@, me, " enter-filter {fzf:prompt})"@),
        around("enter:transform("@, me, " enter-action {fzf:prompt} {q} {2})"@),
        around("esc:transform("@, me, " escape-action {fzf:prompt})"@),
        around(
            "tab:execute-silent("@,
            me,
            around(" toggle {2})+reload-sync("@, me, " list)+transform([[ {1} == ✓* ]] || echo down)"@),
        ),
    ]
}

/// What each key and event does. `me` is the command that calls the viewer back.
pub fn binds(me: &str) -> (r: Vec<String>)
    ensures
        texts(r@) == bindings(me@),
{
    let mut r: Vec<String> = Vec::new();
    r.push("ctrl-d:preview-half-page-down,ctrl-u:preview-half-page-up".to_owned());
    r.push("page-down:preview-page-down,page-up:preview-page-up".to_owned());
    r.push("home:preview-half-page-up,end:preview-half-page-down".to_owned());
    r.push("left:up,right:down".to_owned());
    r.push("up:preview-up,down:preview-down".to_owned());
    r.push("shift-left:backward-char,shift-right:forward-char".to_owned());
    r.push(call("ctrl-right:transform(", me, " resize -3 {fzf:prompt})"));
    r.push(call("ctrl-left:transform(", me, " resize +3 {fzf:prompt})"));
    r.push(call("focus:reload-sync(", me, " list)"));
    r.push(
        call(
            "ctrl-up:execute-silent(",
            me,
            &call(" context +3)+reload-sync(", me, " list)+refresh-preview"),
        ),
    );
    r.push(
        call(
            "ctrl-down:execute-silent(",
            me,
            &call(" context -3)+reload-sync(", me, " list)+refresh-preview"),
        ),
    );
    r.push("start:disable-search".to_owned());
    let mut ignored = IGNORE_KEYS.to_owned();
    ignored.append(":ignore");
    r.push(ignored);
    r.push(
        call(
            "ctrl-e:execute(",
            me,
            &call(" open {2})+reload-sync(", me, " list)+refresh-preview"),
        ),
    );
    r.push(call("o:execute(", me, &call(" open {2})+reload-sync(", me, " list)+refresh-preview")));
    r.push(call("ctrl-w:transform(", me, " toggle-ws)"));
    r.push(call("w:transform(", me, " toggle-ws)"));
    r.push(call("ctrl-x:transform(", me, " toggle-exclude)"));
    r.push(call("x:transform(", me, " toggle-exclude)"));
    r.push(call("ctrl-g:transform(", me, " toggle-target {fzf:prompt} {q})"));
    r.push(call("g:transform(", me, " toggle-target {fzf:prompt} {q})"));
    r.push(call("ctrl-s:transform(", me, " toggle-sbs)"));
    r.push(call("s:transform(", me, " toggle-sbs)"));
    r.push("q:abort".to_owned());
    r.push(call("/:transform(", me, " enter-filter {fzf:prompt})"));
    r.push(call("enter:transform(", me, " enter-action {fzf:prompt} {q} {2})"));
    r.push(call("esc:transform(", me, " escape-action {fzf:prompt})"));
    r.push(
        call(
            "tab:execute-silent(",
            me,
            &call(" toggle {2})+reload-sync(", me, " list)+transform([[ {1} == ✓* ]] || echo down)"),
        ),
    );
    assert(texts(r@) =~= bindings(me@));
    r
}

/// Whether a list starts with the line that says that files were left out.
pub open spec fn is_cut_short(list: Seq<char>) -> bool {
    lines(list).len() > 0 && contains(lines(list)[0], "__TOO_MANY__"@)
}

/// The arguments that set the bindings `all`.
pub open spec fn bind_options(all: Seq<Seq<char>>) -> Seq<Seq<char>>
    decreases all.len(),
{
    if all.len() == 0 {
        Seq::empty()
    } else {
        bind_options(all.drop_last()) + seq!["--bind"@, all.last()]
    }
}

/// The prompt that the viewer starts with.
pub open spec fn first_prompt(target_mode: bool) -> Seq<char> {
    if target_mode {
        "target> "@
    } else {
        "diffview> "@
    }
}

/// The arguments of `fzf`. `me` is the path of the viewer, `list` what is listed.
pub open spec fn fzf_argv(
    me: Seq<char>,
    target_mode: bool,
    header: Seq<char>,
    list: Seq<char>,
) -> Seq<Seq<char>> {
    seq![
        "--ansi"@,
        "--no-sort"@,
        "--layout=reverse"@,
        "--with-nth=1"@,
        "--prompt"@,
        first_prompt(target_mode),
        "--ghost"@,
        VIEW_GHOST@,
        "--color=ghost:8"@,
        "--header"@,
        header,
        "--delimiter"@,
        "\\x1f"@,
        "--preview"@,
        around("bash -c '"@, PREVIEW_CMD@, "' -- {2}"@),
        "--preview-window=right:80%:wrap"@,
    ] + (if is_cut_short(list) {
        seq!["--header-lines=1"@]
    } else {
        Seq::empty()
    }) + bind_options(bindings(quoted(me)))
}

/// The arguments of `fzf`. `me` is the path of the viewer, `list` what is listed.
pub fn fzf_args(me: &str, target_mode: bool, header: &str, list: &str) -> (r: Vec<String>)
    ensures
        texts(r@) == fzf_argv(me@, target_mode, header@, list@),
{
    broadcast use crate::text::lemma_texts_push;

    let prompt = if target_mode {
        "target> "
    } else {
        "diffview> "
    };
    let preview = call("bash -c '", PREVIEW_CMD, "' -- {2}");
    let mut r = strings(
        &[
            "--ansi",
            "--no-sort",
            "--layout=reverse",
            "--with-nth=1",
            "--prompt",
            prompt,
            "--ghost",
            VIEW_GHOST,
            "--color=ghost:8",
            "--header",
            header,
            "--delimiter",
            "\\x1f",
            "--preview",
            preview.as_str(),
            "--preview-window=right:80%:wrap",
        ],
    );
    let rows = lines_of(list);
    assert(texts(rows@).len() == rows@.len());
    if rows.len() > 0 && mentions(&rows[0], "__TOO_MANY__") {
        r.push("--header-lines=1".to_owned());
    }
    let ghost start = texts(r@);
    let all = binds(&shell_quote(me));
    let ghost models = texts(all@);
    let mut i: usize = 0;
    assert(models.take(0) =~= Seq::empty());
    while i < all.len()
        invariant
            i <= all@.len(),
            models == texts(all@),
            texts(r@) == start + bind_options(models.take(i as int)),
        decreases all@.len() - i,
    {
        assert(models.take(i + 1).drop_last() == models.take(i as int));
        assert(models.take(i + 1).last() == all@[i as int]@);
        let ghost before = texts(r@);
        r.push("--bind".to_owned());
        assert(texts(r@) == before.push("--bind"@));
        r.push(all[i].clone());
        assert(texts(r@) == before.push("--bind"@).push(models[i as int]));
        assert(bind_options(models.take(i + 1)) == bind_options(models.take(i as int)) + seq![
            "--bind"@,
            models[i as int],
        ]);
        assert(texts(r@) =~= start + bind_options(models.take(i + 1)));
        i += 1;
    }
    assert(models.take(models.len() as int) =~= models);
    assert(start =~= fzf_argv(me@, target_mode, header@, list@).take(start.len() as int));
    r
}

/// The arguments of `bash` that preview the row that the arguments `args` name.
pub open spec fn preview_argv(args: Seq<Seq<char>>) -> Seq<Seq<char>> {
    seq!["-c"@, PREVIEW_CMD@, "--"@, arg_at(args, 0)]
}

/// The arguments of `bash` that preview the row that the arguments `args` name.
pub fn cmd_preview(args: &[String]) -> (r: Vec<String>)
    ensures
        texts(r@) == preview_argv(texts(args@)),
{
    let file = arg(args, 0);
    let r = strings(&["-c", PREVIEW_CMD, "--", file.as_str()]);
    assert(texts(r@) =~= preview_argv(texts(args@)));
    r
}

} // verus!

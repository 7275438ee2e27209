# diffview

An fzf-driven git diff viewer, with its logic in a library that Verus verifies.

- `src/` is the library: reading the command line and what `git` prints, the list of changed
  files, the list of targets, the header, the record of viewed files, the subcommands that `fzf`
  calls back, the editor command. Every function states what it returns; the modules whose names
  end in `_laws` prove what holds of several of them together.
- `app/` is the program around it: processes, files and the environment.
- `tests/` runs the library on concrete values.

Two things are taken on trust: `sha1` computes a digest that depends on its input alone and has
20 bytes, and `String::push` appends one character.

## Usage

Run `diffview` inside a git repository. The default target is the working tree against `HEAD`.

- `w` ignores whitespace
- `s` shows previews side by side
- `x` leaves out files in `generated` folders, at the top of the repository or below
- `m` diffs against the merge base of `origin/main` (or `master`)
- `p` diffs against `@{upstream}`
- `t` opens the target picker
- `~N` diffs `HEAD~N^..HEAD~N`

A file is opened in an editor at its first changed line. The editor is chosen in
`${XDG_CONFIG_HOME:-~/.config}/diffview/config`, for example with
`editor = nvim +$line $file`. Without that it is `${VISUAL:-${EDITOR:-vi}} +$line $file`.

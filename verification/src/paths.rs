//! Paths as they are shown, renamed and quoted.

use crate::text::{
    chars_of, find, find_char_from, is_digit, join, join_with, last_position_of_char, piece,
    position_of, position_of_char, rfind_char, split, split_on, texts,
};
use vstd::prelude::*;
use vstd::string::*;

verus! {

/// How many segments before the last one are shown in full.
pub const SHORTEN_KEEP: usize = 0;

/// The first two characters of `segment`.
pub open spec fn abbreviated(segment: Seq<char>) -> Seq<char> {
    if segment.len() <= 2 {
        segment
    } else {
        segment.take(2)
    }
}

/// The segments `parts`, each abbreviated and followed by a slash.
pub open spec fn abbreviated_heads(parts: Seq<Seq<char>>) -> Seq<char>
    decreases parts.len(),
{
    if parts.len() == 0 {
        Seq::empty()
    } else {
        abbreviated_heads(parts.drop_last()) + abbreviated(parts.last()) + "/"@
    }
}

/// `path` with all but its last segments abbreviated.
pub open spec fn shortened(path: Seq<char>) -> Seq<char> {
    let parts = split(path, '/');
    let keep = SHORTEN_KEEP + 1;
    if parts.len() <= keep {
        path
    } else {
        let heads = parts.len() - keep;
        abbreviated_heads(parts.take(heads)) + join(parts.skip(heads), "/"@)
    }
}

/// One side of a rename in brace shorthand. Where the side is empty, the slashes
/// around the braces collapse.
pub open spec fn rename_side(prefix: Seq<char>, part: Seq<char>, suffix: Seq<char>) -> Seq<char> {
    if part.len() == 0 && prefix.len() > 0 && prefix.last() == '/' && suffix.len() > 0 && suffix[0]
        == '/' {
        prefix + suffix.skip(1)
    } else {
        prefix + part + suffix
    }
}

/// The old and the new path of a rename, as `git diff --numstat` shows it: plain
/// `old => new`, or `prefix{old => new}suffix`.
pub open spec fn rename_of(path: Seq<char>) -> Option<(Seq<char>, Seq<char>)> {
    match find(path, " => "@) {
        None => None,
        Some(arrow) => {
            let plain = (path.take(arrow), path.skip(arrow + 4));
            match (rfind_char(path.take(arrow), '{'), find_char_from(path, '}', arrow)) {
                (Some(open), Some(close)) => {
                    let prefix = path.take(open);
                    let suffix = path.skip(close + 1);
                    Some(
                        (
                            rename_side(prefix, path.subrange(open + 1, arrow), suffix),
                            rename_side(prefix, path.subrange(arrow + 4, close), suffix),
                        ),
                    )
                },
                _ => Some(plain),
            }
        },
    }
}

/// Whether a shell takes `c` literally in an unquoted word.
pub open spec fn is_plain(c: char) -> bool {
    ||| is_digit(c)
    ||| 'a' <= c <= 'z'
    ||| 'A' <= c <= 'Z'
    ||| c == '_'
    ||| c == '-'
    ||| c == '.'
    ||| c == '/'
}

/// `s` with each single quote replaced by `'\\''`.
pub open spec fn escaped(s: Seq<char>) -> Seq<char>
    decreases s.len(),
{
    if s.len() == 0 {
        Seq::empty()
    } else if s.last() == '\'' {
        escaped(s.drop_last()) + "'\\''"@
    } else {
        escaped(s.drop_last()).push(s.last())
    }
}

/// `s` as one word of a shell command line.
pub open spec fn quoted(s: Seq<char>) -> Seq<char> {
    if s.len() > 0 && forall|i: int| 0 <= i < s.len() ==> is_plain(#[trigger] s[i]) {
        s
    } else {
        "'"@ + escaped(s) + "'"@
    }
}

/// `path` with all but its last segments abbreviated.
pub fn shorten_path(path: &str) -> (r: String)
    ensures
        r@ == shortened(path@),
{
    let mut parts = split_on(path, '/');
    let ghost all = split(path@, '/');
    let keep: usize = SHORTEN_KEEP + 1;
    if parts.len() <= keep {
        return path.to_owned();
    }
    let heads: usize = parts.len() - keep;
    let mut r = String::new();
    let mut i: usize = 0;
    while i < heads
        invariant
            texts(parts@) == all,
            i <= heads <= parts@.len(),
            r@ == abbreviated_heads(all.take(i as int)),
        decreases heads - i,
    {
        assert(all.take(i + 1).drop_last() == all.take(i as int));
        let cs = chars_of(&parts[i]);
        assert(cs@ == all[i as int]);
        let n: usize = cs.len();
        let head = if n <= 2 {
            piece(&cs, 0, n)
        } else {
            piece(&cs, 0, 2)
        };
        assert(head@ == abbreviated(cs@));
        r.append(&head);
        r.append("/");
        i += 1;
    }
    let tail = parts.split_off(heads);
    assert(texts(tail@) == all.skip(heads as int));
    r.append(&join_with(&tail, "/"));
    r
}

/// One side of a rename in brace shorthand.
fn assemble(prefix: &[char], part: &[char], suffix: &[char]) -> (r: String)
    ensures
        r@ == rename_side(prefix@, part@, suffix@),
{
    let a: usize = prefix.len();
    let c: usize = suffix.len();
    let mut r = piece(prefix, 0, a);
    if part.len() == 0 && a > 0 && prefix[a - 1] == '/' && c > 0 && suffix[0] == '/' {
        r.append(&piece(suffix, 1, c));
    } else {
        r.append(&piece(part, 0, part.len()));
        r.append(&piece(suffix, 0, c));
    }
    r
}

/// The old and the new path of a rename in `git diff --numstat`.
pub fn parse_rename_path(path: &str) -> (r: Option<(String, String)>)
    ensures
        match r {
            Some((old, new)) => rename_of(path@) == Some((old@, new@)),
            None => rename_of(path@) is None,
        },
{
    let cs = chars_of(path);
    let n: usize = cs.len();
    let ps = chars_of(" => ");
    proof {
        reveal_strlit(" => ");
    }
    match position_of(&cs, &ps) {
        None => None,
        Some(arrow) => {
            assert(arrow + 4 <= n);
            let open = last_position_of_char(&cs, '{', arrow);
            let close = position_of_char(&cs, '}', arrow);
            match (open, close) {
                (Some(open), Some(close)) => {
                    proof {
                        // The arrow holds no brace, so the brace stands behind it.
                        let mid = cs@.subrange(arrow as int, arrow + 4);
                        assert(mid == " => "@);
                        assert(forall|k: int| 0 <= k < 4 ==> mid[k] == cs@[arrow + k]);
                        assert(" => "@[0] == ' ' && " => "@[1] == '=' && " => "@[2] == '>'
                            && " => "@[3] == ' ');
                        assert(close >= arrow + 4);
                    }
                    let prefix = &cs.as_slice()[0..open];
                    let suffix = &cs.as_slice()[close + 1..n];
                    let old = assemble(prefix, &cs.as_slice()[open + 1..arrow], suffix);
                    let new = assemble(prefix, &cs.as_slice()[arrow + 4..close], suffix);
                    Some((old, new))
                },
                _ => Some((piece(&cs, 0, arrow), piece(&cs, arrow + 4, n))),
            }
        },
    }
}

/// `s` as one word of a shell command line.
pub fn shell_quote(s: &str) -> (r: String)
    ensures
        r@ == quoted(s@),
{
    let cs = chars_of(s);
    let mut plain: bool = cs.len() > 0;
    let mut r = "'".to_owned();
    let mut i: usize = 0;
    while i < cs.len()
        invariant
            cs@ == s@,
            i <= cs@.len(),
            r@ == "'"@ + escaped(s@.take(i as int)),
            plain <==> s@.len() > 0 && forall|k: int| 0 <= k < i ==> is_plain(#[trigger] s@[k]),
        decreases cs@.len() - i,
    {
        assert(s@.take(i + 1).drop_last() == s@.take(i as int));
        let c = cs[i];
        if !(('0' <= c && c <= '9') || ('a' <= c && c <= 'z') || ('A' <= c && c <= 'Z') || c == '_'
            || c == '-' || c == '.' || c == '/') {
            plain = false;
            assert(!is_plain(s@[i as int]));
        }
        if c == '\'' {
            r.append("'\\''");
        } else {
            r.push(c);
        }
        i += 1;
    }
    assert(s@.take(s@.len() as int) == s@);
    if plain {
        return s.to_owned();
    }
    r.append("'");
    r
}

} // verus!

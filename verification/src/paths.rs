//! Parent directories of slash-separated path strings.
//!
//! A path's parent is the text before its final `/`: the parent of
//! `/ws/a/lib.rs` is `/ws/a`, the parent of `/lib.rs` is `/`, and a path
//! without a separator — or the bare root `/` — has none.

use vstd::prelude::*;

verus! {

/// Index of the last `/` among the first `n` characters of `s`, or -1 when
/// there is none.
pub open spec fn last_sep_before(s: Seq<char>, n: int) -> int
    decreases n,
{
    if n <= 0 {
        -1
    } else if s[n - 1] == '/' {
        n - 1
    } else {
        last_sep_before(s, n - 1)
    }
}

/// Index of the last `/` in `s`, or -1 when there is none.
pub open spec fn last_separator(s: Seq<char>) -> int {
    last_sep_before(s, s.len() as int)
}

/// The parent directory of `s`: the text before the final separator, `/`
/// itself when the final separator is the leading one, and nothing when `s`
/// has no separator or is the bare root.
pub open spec fn parent_dir_spec(s: Seq<char>) -> Option<Seq<char>> {
    let i = last_separator(s);
    if i < 0 {
        None
    } else if i == 0 && s.len() == 1 {
        None
    } else if i == 0 {
        Some(seq!['/'])
    } else {
        Some(s.subrange(0, i))
    }
}

/// The parent directory of `path`, if it has one.
pub fn parent_dir(path: &str) -> (r: Option<String>)
    ensures
        (r is Some) == (parent_dir_spec(path@) is Some),
        r is Some ==> r->Some_0@ == parent_dir_spec(path@)->Some_0,
{
    let len = path.unicode_len();
    let mut last: Option<usize> = None;
    let mut i: usize = 0;
    while i < len
        invariant
            i <= len,
            len == path@.len(),
            match last {
                None => last_sep_before(path@, i as int) == -1,
                Some(j) => j < i && last_sep_before(path@, i as int) == j as int,
            },
        decreases len - i,
    {
        let c = path.get_char(i);
        if c == '/' {
            last = Some(i);
        }
        i = i + 1;
    }
    match last {
        None => None,
        Some(j) => {
            if j == 0 {
                if len == 1 {
                    None
                } else {
                    let root = String::from_str("/");
                    proof {
                        reveal_strlit("/");
                        assert(root@ =~= seq!['/']);
                    }
                    Some(root)
                }
            } else {
                let prefix = path.substring_char(0, j);
                Some(prefix.to_owned())
            }
        },
    }
}

} // verus!

//! Installing skills. Copying files is the host's; the library works out the
//! paths.
//!
//! Paths are `/`-separated text.

use vstd::prelude::*;
use crate::text::{chars_of, concat, is_last, rfind_char, slice_string};

verus! {

/// Why an install failed.
#[derive(Debug, Clone)]
pub enum InstallError {
    /// A file operation failed, with its message.
    Io(String),
    /// The home directory could not be found.
    NoHomeDir,
    /// The skill could not be copied.
    CopyFailed,
    /// Another failure, with its message.
    Other(String),
}

/// The last component of a path, ignoring trailing separators and `.`
/// components; none where the path is empty, the root, `.`, or ends in `..`.
pub open spec fn file_name(s: Seq<char>) -> Option<Seq<char>>
    decreases s.len(),
{
    if s.len() == 0 {
        None
    } else if s.last() == '/' {
        file_name(s.drop_last())
    } else {
        let start = if exists|p: int| is_last(s, '/', p) { (choose|p: int| is_last(s, '/', p)) + 1 } else { 0 };
        let seg = s.subrange(start, s.len() as int);
        if seg == seq!['.'] {
            file_name(s.take(start))
        } else if seg == seq!['.', '.'] {
            None
        } else {
            Some(seg)
        }
    }
}

/// `name` appended to `base` as a further component.
pub open spec fn joined_path(base: Seq<char>, name: Seq<char>) -> Seq<char> {
    if base.len() == 0 {
        name
    } else if base.last() == '/' {
        base + name
    } else {
        base + seq!['/'] + name
    }
}

/// The last component of a path (see [`file_name`]).
pub fn path_file_name(path: &str) -> (r: Option<String>)
    ensures
        match file_name(path@) {
            Some(n) => r is Some && r->0@ == n,
            None => r is None,
        },
{
    let cs = chars_of(path);
    let mut end: usize = cs.len();
    assert(cs@.take(end as int) =~= cs@);
    loop
        invariant
            end <= cs.len(),
            cs@ == path@,
            file_name(path@) == file_name(cs@.take(end as int)),
        decreases end,
    {
        let ghost s = cs@.take(end as int);
        if end == 0 {
            return None;
        }
        if cs[end - 1] == '/' {
            assert(s.drop_last() =~= cs@.take(end - 1));
            end -= 1;
        } else {
            let part = &cs.as_slice()[0..end];
            assert(part@ =~= s);
            let start: usize = match rfind_char(part, '/') {
                Some(p) => {
                    proof {
                        let c = choose|c: int| is_last(s, '/', c);
                        assert(c == p as int);
                    }
                    p + 1
                },
                None => 0,
            };
            let seg_len = end - start;
            if seg_len == 1 && cs[start] == '.' {
                assert(s.subrange(start as int, end as int) =~= seq!['.']);
                assert(s.take(start as int) =~= cs@.take(start as int));
                end = start;
            } else if seg_len == 2 && cs[start] == '.' && cs[start + 1] == '.' {
                assert(s.subrange(start as int, end as int) =~= seq!['.', '.']);
                return None;
            } else {
                proof {
                    let seg = s.subrange(start as int, end as int);
                    if seg == seq!['.'] {
                        assert(seg.len() == 1 && seg[0] == cs@[start as int]);
                    }
                    if seg == seq!['.', '.'] {
                        assert(seg.len() == 2 && seg[0] == cs@[start as int] && seg[1] == cs@[start + 1]);
                    }
                }
                assert(cs@.subrange(start as int, end as int) =~= s.subrange(start as int, end as int));
                return Some(slice_string(cs.as_slice(), start, end));
            }
        }
    }
}

/// `name` appended to `base` as a further component (see [`joined_path`]).
pub fn join_path(base: &str, name: &str) -> (r: String)
    ensures
        r@ == joined_path(base@, name@),
{
    let cs = chars_of(base);
    if cs.len() == 0 {
        name.to_owned()
    } else if cs[cs.len() - 1] == '/' {
        concat(base, name)
    } else {
        let mut r = concat(base, "/");
        r.append(name);
        proof {
            reveal_strlit("/");
        }
        assert(r@ =~= base@ + seq!['/'] + name@);
        r
    }
}

/// Where a skill is placed for the desktop application: under its own
/// directory, by its name. A path with no name fails.
pub fn install_to_claude_desktop(skill_path: &str, config_path: Option<&str>) -> (r: Result<String, InstallError>)
    ensures
        match file_name(skill_path@) {
            Some(n) => r is Ok && r->Ok_0@ == joined_path(skill_path@, n),
            None => r is Err && r->Err_0 is Other,
        },
{
    match path_file_name(skill_path) {
        Some(name) => Ok(join_path(skill_path, name.as_str())),
        None => Err(InstallError::Other(String::from_str("Invalid skill path"))),
    }
}

} // verus!

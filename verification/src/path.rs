//! Slash-separated paths as text: joining, the parent directory, and the absolute form of a
//! configured path.
use vstd::prelude::*;

use crate::text::{chars_of, joined, joined3, opt_text, text_of};

verus! {

/// Whether the path starts at the root.
pub open spec fn absolute(path: Seq<char>) -> bool {
    path.len() > 0 && path[0] == '/'
}

/// `path` as seen from `base`: an absolute path stands for itself, any other is appended after
/// a separator, which is not doubled.
pub open spec fn join(base: Seq<char>, path: Seq<char>) -> Seq<char> {
    if absolute(path) {
        path
    } else if base.len() == 0 || base.last() == '/' {
        base + path
    } else {
        base.push('/') + path
    }
}

/// The path without trailing separators and trailing `.` components. The root keeps its
/// separator.
pub open spec fn trimmed(path: Seq<char>) -> Seq<char>
    decreases path.len(),
{
    if path.len() > 1 && path.last() == '/' {
        trimmed(path.drop_last())
    } else if path.len() > 1 && path.last() == '.' && path[path.len() - 2] == '/' {
        trimmed(path.drop_last())
    } else {
        path
    }
}

/// Where the last component of a path begins: behind its last separator.
pub open spec fn last_component_start(path: Seq<char>) -> int
    decreases path.len(),
{
    if path.len() == 0 || path.last() == '/' {
        path.len() as int
    } else {
        last_component_start(path.drop_last())
    }
}

/// The path without its last component; `None` for the root and for the empty path.
pub open spec fn parent(path: Seq<char>) -> Option<Seq<char>> {
    let whole = trimmed(path);
    if whole.len() == 0 || whole == seq!['/'] {
        None
    } else {
        Some(trimmed(whole.take(last_component_start(whole))))
    }
}

/// Whether the path starts at the root.
pub fn is_absolute(path: &str) -> (r: bool)
    ensures
        r == absolute(path@),
{
    let chars = chars_of(path);
    chars.len() > 0 && chars[0] == '/'
}

/// Joins `path` to `base`.
pub fn join_path(base: &str, path: &str) -> (r: String)
    ensures
        r@ == join(base@, path@),
{
    if is_absolute(path) {
        return path.to_owned();
    }
    let chars = chars_of(base);
    if chars.len() == 0 || chars[chars.len() - 1] == '/' {
        joined(base, path)
    } else {
        let r = joined3(base, "/", path);
        proof {
            reveal_strlit("/");
            assert(base@ + "/"@ =~= base@.push('/'));
        }
        r
    }
}

fn trimmed_len(chars: &Vec<char>, len: usize) -> (r: usize)
    requires
        len <= chars@.len(),
    ensures
        r <= len,
        chars@.take(r as int) == trimmed(chars@.take(len as int)),
{
    let mut r: usize = len;
    while r > 1 && (chars[r - 1] == '/' || (chars[r - 1] == '.' && chars[r - 2] == '/'))
        invariant
            r <= len <= chars@.len(),
            trimmed(chars@.take(r as int)) == trimmed(chars@.take(len as int)),
        decreases r,
    {
        assert(chars@.take(r as int).drop_last() =~= chars@.take(r - 1));
        r = r - 1;
    }
    r
}

/// The directory that holds `path`.
pub fn parent_path(path: &str) -> (r: Option<String>)
    ensures
        opt_text(r) == parent(path@),
{
    let chars = chars_of(path);
    assert(chars@.take(chars@.len() as int) =~= chars@);
    let whole: usize = trimmed_len(&chars, chars.len());
    let ghost whole_path = chars@.take(whole as int);
    if whole == 0 {
        return None;
    }
    if whole == 1 && chars[0] == '/' {
        assert(whole_path =~= seq!['/']);
        return None;
    }
    proof {
        let root = seq!['/'];
        assert(root.len() == 1 && root[0] == '/');
        assert(whole_path[0] == chars@[0]);
    }
    let mut start: usize = whole;
    while start > 0 && chars[start - 1] != '/'
        invariant
            start <= whole <= chars@.len(),
            whole_path == chars@.take(whole as int),
            last_component_start(chars@.take(start as int)) == last_component_start(whole_path),
        decreases start,
    {
        assert(chars@.take(start as int).drop_last() =~= chars@.take(start - 1));
        start = start - 1;
    }
    assert(whole_path.take(start as int) =~= chars@.take(start as int));
    let end: usize = trimmed_len(&chars, start);
    assert(chars@.subrange(0, end as int) =~= chars@.take(end as int));
    Some(text_of(&chars, 0, end))
}

/// A configured path made absolute: an absolute path stands for itself, any other is seen from the
/// working directory. Where that directory is needed and not known, what is said of it.
pub open spec fn normalized(
    input: Seq<char>,
    cwd: Option<Seq<char>>,
) -> Result<Seq<char>, Seq<char>> {
    if absolute(input) {
        Ok(input)
    } else {
        match cwd {
            Some(dir) => Ok(join(dir, input)),
            None => Err("resolving current working directory"@),
        }
    }
}

/// The model of a path or of what is said where there is none.
pub open spec fn path_result(r: Result<String, String>) -> Result<Seq<char>, Seq<char>> {
    match r {
        Ok(path) => Ok(path@),
        Err(message) => Err(message@),
    }
}

/// Makes a configured path absolute. `cwd` is the working directory, or `None` where it could
/// not be found out.
pub fn normalize_path(input: &str, cwd: Option<&str>) -> (r: Result<String, String>)
    ensures
        cwd is None ==> path_result(r) == normalized(input@, None),
        cwd matches Some(dir) ==> path_result(r) == normalized(input@, Some(dir@)),
{
    if is_absolute(input) {
        return Ok(input.to_owned());
    }
    match cwd {
        Some(dir) => Ok(join_path(dir, input)),
        None => Err("resolving current working directory".to_owned()),
    }
}

/// The connection URL of the SQLite database at `path`.
pub fn sqlite_url_from_path(path: &str) -> (url: String)
    ensures
        url@ == "sqlite://"@ + path@,
{
    joined("sqlite://", path)
}

} // verus!

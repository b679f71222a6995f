//! Paths as text: joining, parents, the home directory and `~`.

use vstd::prelude::*;
use crate::text::{chars_of, string_of};

verus! {

/// What `std::path::Path::join` gives, as text, for `base` joined with `rest`.
pub uninterp spec fn joined_path(base: Seq<char>, rest: Seq<char>) -> Seq<char>;

/// What `std::path::Path::parent` gives, as text, for `path`.
pub uninterp spec fn parent_path(path: Seq<char>) -> Option<Seq<char>>;

/// `Path::join`: `base` with `rest` appended as a further component (as std computes it
/// for the platform the crate is built for; the result of joining UTF-8 text is UTF-8).
#[verifier::external_body]
pub(crate) fn path_join(base: &str, rest: &str) -> (r: String)
    ensures
        r@ == joined_path(base@, rest@),
{
    std::path::Path::new(base).join(rest).to_string_lossy().into_owned()
}

/// `Path::parent`: `path` without its final component, or `None` for a root or an empty
/// path (as std computes it for the platform the crate is built for).
#[verifier::external_body]
pub(crate) fn path_parent(path: &str) -> (r: Option<String>)
    ensures
        match r {
            Some(p) => parent_path(path@) == Some(p@),
            None => parent_path(path@) is None,
        },
{
    match std::path::Path::new(path).parent() {
        Some(p) => Some(p.to_string_lossy().into_owned()),
        None => None,
    }
}

/// `dirs::home_dir`: the current user's home directory, read from the environment
/// (`$HOME` where it is set and not empty) or the user database. What comes back
/// depends on the machine; when there is one it is not empty.
#[verifier::external_body]
pub(crate) fn home_dir() -> (r: Option<String>)
    ensures
        r matches Some(h) ==> h@.len() > 0,
{
    match dirs::home_dir() {
        Some(p) => Some(p.to_string_lossy().into_owned()),
        None => None,
    }
}

/// `path` with a leading `~` standing for the home directory `home` (or the working
/// directory `.` when there is none): `~` alone is the home directory, `~/rest` is `rest`
/// joined to it, and any other path is left as it is.
pub open spec fn tilde_expanded(path: Seq<char>, home: Option<Seq<char>>) -> Seq<char> {
    let base = match home {
        Some(h) => h,
        None => "."@,
    };
    if path == seq!['~'] {
        base
    } else if path.len() >= 2 && path[0] == '~' && path[1] == '/' {
        joined_path(base, path.skip(2))
    } else {
        path
    }
}

/// The text of an optional string.
pub open spec fn opt_text(s: Option<String>) -> Option<Seq<char>> {
    match s {
        Some(h) => Some(h@),
        None => None,
    }
}

/// Expands a leading `~` in `path` with the home directory `home`.
pub fn expand_tilde_with(path: &str, home: Option<String>) -> (r: String)
    ensures
        r@ == tilde_expanded(path@, opt_text(home)),
{
    let v = chars_of(path);
    let n = v.len();
    let base = match home {
        Some(h) => h,
        None => String::from_str("."),
    };
    if n == 1 && v[0] == '~' {
        assert(path@ =~= seq!['~']);
        base
    } else if n >= 2 && v[0] == '~' && v[1] == '/' {
        assert(path@ != seq!['~']);
        let rest = string_of(&v, 2, n);
        assert(v@.subrange(2, n as int) =~= path@.skip(2));
        path_join(base.as_str(), rest.as_str())
    } else {
        assert(n == 1 ==> path@ != seq!['~']);
        assert(n != 1 ==> path@.len() != seq!['~'].len());
        String::from_str(path)
    }
}

/// Expands a leading `~` in `path` with the current user's home directory.
pub fn expand_tilde(path: &str) -> (r: String)
    ensures
        exists|home: Option<Seq<char>>| (home matches Some(h) ==> h.len() > 0) && r@ == tilde_expanded(path@, home),
{
    let home = home_dir();
    expand_tilde_with(path, home)
}

} // verus!

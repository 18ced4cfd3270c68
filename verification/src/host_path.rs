//! Unix path operations, taken from `std::path` and carried as `String`s.
//!
//! `Path::join` is written out below (on Unix it is a few lines).  The
//! semantics of `Path::parent` and the component-wise comparisons are
//! std's own: each wrapper below calls it and its result is
//! named by an uninterpreted spec function.  Only short facts that std's
//! documentation states are claimed beside the names.
use vstd::prelude::*;
use std::path::Path;

verus! {

/// What `Path::parent` returns for a path.
pub uninterp spec fn path_parent(p: Seq<char>) -> Option<Seq<char>>;

/// What `Path::file_name` returns for a path.
pub uninterp spec fn path_file_name(p: Seq<char>) -> Option<Seq<char>>;

/// `Path::join` on Unix: an absolute tail replaces the base; otherwise the
/// tail is appended to the base, with a `/` in between when the base is not
/// empty and does not already end in `/`.
pub open spec fn path_join(base: Seq<char>, tail: Seq<char>) -> Seq<char> {
    if is_absolute_path(tail) {
        tail
    } else if base.len() > 0 && base.last() != '/' {
        base + seq!['/'] + tail
    } else {
        base + tail
    }
}

/// What `Path::starts_with` returns (a whole-component prefix test).
pub uninterp spec fn path_starts_with(p: Seq<char>, base: Seq<char>) -> bool;

/// What `Path::strip_prefix` returns, `None` standing for its error.
pub uninterp spec fn path_strip_prefix(p: Seq<char>, base: Seq<char>) -> Option<Seq<char>>;

/// What `==` on two `Path`s returns (a component-wise comparison).
pub uninterp spec fn path_equal(a: Seq<char>, b: Seq<char>) -> bool;

/// The view of an optional string.
pub open spec fn opt_view(o: Option<String>) -> Option<Seq<char>> {
    match o {
        Some(s) => Some(s@),
        None => None,
    }
}

/// A Unix path is absolute when it begins with the root `/`
/// (`Path::is_absolute`, whose documentation says exactly this for Unix).
pub open spec fn is_absolute_path(p: Seq<char>) -> bool {
    p.len() > 0 && p[0] == '/'
}

/// Whether a path is absolute.
pub fn path_is_absolute(p: &str) -> (r: bool)
    ensures
        r == is_absolute_path(p@),
{
    let v = crate::text::chars_of(p);
    v.len() > 0 && v[0] == '/'
}

/// `Path::parent`: the path without its final component.  Besides naming
/// the result, the contract claims what the documentation says of it: a
/// parent is the path with its final component cut off, so it is a
/// strictly shorter prefix of the path.
#[verifier::external_body]
pub(crate) fn parent_path(p: &str) -> (r: Option<String>)
    ensures
        opt_view(r) == path_parent(p@),
        r matches Some(q) ==> q@.len() < p@.len() && p@.take(q@.len() as int) == q@,
{
    match Path::new(p).parent() {
        Some(q) => Some(q.to_string_lossy().into_owned()),
        None => None,
    }
}

/// `Path::file_name`, converted to a `String`.
#[verifier::external_body]
pub(crate) fn file_name_of(p: &str) -> (r: Option<String>)
    ensures
        opt_view(r) == path_file_name(p@),
{
    match Path::new(p).file_name() {
        Some(q) => Some(q.to_string_lossy().into_owned()),
        None => None,
    }
}

/// Joins `tail` onto `base` as `Path::join` does.
pub fn join_path(base: &str, tail: &str) -> (r: String)
    ensures
        r@ == path_join(base@, tail@),
{
    let b = crate::text::chars_of(base);
    let t = crate::text::chars_of(tail);
    if t.len() > 0 && t[0] == '/' {
        crate::text::string_from_chars(&t)
    } else if b.len() > 0 && b[b.len() - 1] != '/' {
        let with_separator = crate::text::concat_chars(&b, &crate::text::chars_of("/"));
        proof {
            reveal_strlit("/");
        }
        crate::text::string_from_chars(&crate::text::concat_chars(&with_separator, &t))
    } else {
        crate::text::string_from_chars(&crate::text::concat_chars(&b, &t))
    }
}

/// `Path::starts_with`, which compares whole components.  Besides naming
/// the result, the contract claims one fact the documentation of components
/// gives: an absolute path begins with the root component, which a
/// non-empty relative path does not, so it never starts with one.
#[verifier::external_body]
pub(crate) fn path_has_prefix(p: &str, base: &str) -> (r: bool)
    ensures
        r == path_starts_with(p@, base@),
        is_absolute_path(p@) && base@.len() > 0 && !is_absolute_path(base@) ==> !r,
{
    Path::new(p).starts_with(base)
}

/// `Path::strip_prefix`; its documentation says that it fails exactly when
/// `base` is not a prefix in the sense of `Path::starts_with`.
#[verifier::external_body]
pub(crate) fn strip_path_prefix(p: &str, base: &str) -> (r: Option<String>)
    ensures
        opt_view(r) == path_strip_prefix(p@, base@),
        r is Some <==> path_starts_with(p@, base@),
{
    match Path::new(p).strip_prefix(base) {
        Ok(q) => Some(q.to_string_lossy().into_owned()),
        Err(_) => None,
    }
}

/// `==` on `Path`s.
#[verifier::external_body]
pub(crate) fn paths_equal(a: &str, b: &str) -> (r: bool)
    ensures
        r == path_equal(a@, b@),
{
    Path::new(a) == Path::new(b)
}

} // verus!

//! References to components and providers: how a reference that may be a path
//! is resolved.

use vstd::prelude::*;
use vstd::string::*;
use crate::text::{join, starts_with};

verus! {

/// What is to be done with a reference.
#[derive(Debug, Clone, PartialEq, Eq)]
pub enum RefPlan {
    /// The reference resolves to this text.
    Resolved(String),
    /// The reference resolves to `file://` and the absolute form of this path.
    Canonicalize(String),
}

/// The path of a reference that begins with `file://`: what follows that.
pub open spec fn uri_path(reference: Seq<char>) -> Seq<char> {
    reference.subrange("file://"@.len() as int, reference.len() as int)
}

/// The path of a reference that begins with `file://`, if it begins so.
pub fn file_uri_path(reference: &str) -> (path: Option<&str>)
    ensures
        match path {
            Some(p) => "file://"@.is_prefix_of(reference@) && p@ == uri_path(reference@),
            None => !"file://"@.is_prefix_of(reference@),
        },
{
    if starts_with(reference, "file://") {
        let len = reference.unicode_len();
        let from = "file://".unicode_len();
        Some(reference.substring_char(from, len))
    } else {
        None
    }
}

/// What is to be done with a reference, given whether a file stands at the
/// reference taken as a path, and whether one stands at its path where it
/// begins with `file://`.
///
/// An absolute path gets `file://` before it. A path at which a file stands is
/// made absolute, and so is the path of a `file://` reference at which one
/// stands. Every other reference stays as it is.
pub fn plan_resolve_ref(reference: &str, exists: bool, uri_path_exists: bool) -> (plan: RefPlan)
    ensures
        match plan {
            RefPlan::Resolved(text) => if "/"@.is_prefix_of(reference@) {
                text@ == "file://"@ + reference@
            } else {
                !exists && !("file://"@.is_prefix_of(reference@) && uri_path_exists) && text@
                    == reference@
            },
            RefPlan::Canonicalize(path) => !"/"@.is_prefix_of(reference@) && if exists {
                path@ == reference@
            } else {
                "file://"@.is_prefix_of(reference@) && uri_path_exists && path@ == uri_path(
                    reference@,
                )
            },
        },
{
    if starts_with(reference, "/") {
        return RefPlan::Resolved(join("file://", reference));
    }
    if exists {
        return RefPlan::Canonicalize(reference.to_owned());
    }
    match file_uri_path(reference) {
        Some(path) => {
            if uri_path_exists {
                RefPlan::Canonicalize(path.to_owned())
            } else {
                RefPlan::Resolved(reference.to_owned())
            }
        },
        None => RefPlan::Resolved(reference.to_owned()),
    }
}

/// The reference for a file at an absolute path.
pub fn file_reference(absolute_path: &str) -> (reference: String)
    ensures
        reference@ == "file://"@ + absolute_path@,
{
    join("file://", absolute_path)
}

/// What is reported when a path could not be made absolute.
pub fn resolve_failure(reference: &str) -> (text: String)
    ensures
        text@ == "failed to resolve absolute path: "@ + reference@,
{
    join("failed to resolve absolute path: ", reference)
}

} // verus!

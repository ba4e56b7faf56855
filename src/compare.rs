//! Version ordering, taken from the `version-compare` crate.
//!
//! The ordering of two version strings is the crate's: it splits each string
//! into numeric and textual parts and compares them part by part, so that
//! `3.9` comes before `3.10`. Its rules take pages to state, so the library
//! names its results and builds on the names.
use core::cmp::Ordering;
use vstd::prelude::*;

verus! {

/// Whether `version_compare::Version::from` accepts the text as a version.
pub uninterp spec fn version_valid(s: Seq<char>) -> bool;

/// What `version_compare::compare` answers for two version strings: how the
/// first stands to the second, or `None` where either is not a version.
pub uninterp spec fn version_order(a: Seq<char>, b: Seq<char>) -> Option<Ordering>;

/// Relies on `version_compare::Version::from`: `Some` exactly when the text
/// parses as a version.
#[verifier::external_body]
pub(crate) fn is_valid_version(s: &str) -> (r: bool)
    ensures
        r == version_valid(s@),
{
    version_compare::Version::from(s).is_some()
}

/// Relies on `version_compare::compare`: an error where either string is not
/// a version, else one of `Lt`, `Eq` and `Gt`.
#[verifier::external_body]
pub(crate) fn compare_versions(a: &str, b: &str) -> (r: Option<Ordering>)
    ensures
        r == version_order(a@, b@),
        r is Some <==> (version_valid(a@) && version_valid(b@)),
{
    match version_compare::compare(a, b) {
        Ok(version_compare::Cmp::Lt) => Some(Ordering::Less),
        Ok(version_compare::Cmp::Eq) => Some(Ordering::Equal),
        Ok(version_compare::Cmp::Gt) => Some(Ordering::Greater),
        Ok(_) => None,
        Err(()) => None,
    }
}

} // verus!

//! Semantic versions, as the `semver` crate parses, matches and orders them.
use vstd::prelude::*;

use crate::host_diagnostic::opt_view;

verus! {

/// The host API version that extension packages are matched against.
pub const HOST_API_VERSION: &'static str = "0.1.0";

/// `None` when `semver::Version::parse` accepts `text`; otherwise the
/// description of its error.
pub uninterp spec fn semver_version_parse_error(text: Seq<char>) -> Option<Seq<char>>;

/// `None` when `semver::VersionReq::parse` accepts `text`; otherwise the
/// description of its error.
pub uninterp spec fn semver_requirement_parse_error(text: Seq<char>) -> Option<Seq<char>>;

/// Whether the requirement spelled `requirement` matches the version spelled `version`.
pub uninterp spec fn semver_requirement_matches(requirement: Seq<char>, version: Seq<char>) -> bool;

/// The sign of the comparison of the versions spelled `a` and `b` in
/// `semver::Version`'s total order: -1, 0 or 1.
pub uninterp spec fn semver_order(a: Seq<char>, b: Seq<char>) -> int;

/// `semver::Version::parse` on `text`: `None` when it succeeds, the error's
/// description otherwise. The grammar is named, not stated.
#[verifier::external_body]
pub(crate) fn version_parse_error(text: &str) -> (error: Option<String>)
    ensures
        opt_view(error) == semver_version_parse_error(text@),
{
    match semver::Version::parse(text) {
        Ok(_) => None,
        Err(e) => Some(e.to_string()),
    }
}

/// `semver::VersionReq::parse` on `text`: `None` when it succeeds, the
/// error's description otherwise. The grammar is named, not stated.
#[verifier::external_body]
pub(crate) fn requirement_parse_error(text: &str) -> (error: Option<String>)
    ensures
        opt_view(error) == semver_requirement_parse_error(text@),
{
    match semver::VersionReq::parse(text) {
        Ok(_) => None,
        Err(e) => Some(e.to_string()),
    }
}

/// `semver::VersionReq::matches` on the requirement and the version that the
/// two texts spell, both of which parse. The matching rules are named, not stated.
#[verifier::external_body]
pub(crate) fn requirement_matches(requirement: &str, version: &str) -> (matches: bool)
    requires
        semver_requirement_parse_error(requirement@) is None,
        semver_version_parse_error(version@) is None,
    ensures
        matches == semver_requirement_matches(requirement@, version@),
{
    match (semver::VersionReq::parse(requirement), semver::Version::parse(version)) {
        (Ok(r), Ok(v)) => r.matches(&v),
        _ => false,
    }
}

/// The total order of `semver::Version` (its `PartialOrd` and `PartialEq`)
/// on the two versions that the texts spell, both of which parse, as -1, 0
/// or 1. The order itself is named, not stated; of it the contract says
/// only that a version is equal to itself and that swapping the two
/// versions flips the sign, as a total order has it.
#[verifier::external_body]
pub(crate) fn compare_versions(a: &str, b: &str) -> (order: i8)
    requires
        semver_version_parse_error(a@) is None,
        semver_version_parse_error(b@) is None,
    ensures
        order as int == semver_order(a@, b@),
        -1 <= order <= 1,
        a@ == b@ ==> order == 0,
        order as int == -semver_order(b@, a@),
{
    match (semver::Version::parse(a), semver::Version::parse(b)) {
        (Ok(x), Ok(y)) => if x < y {
            -1
        } else if x == y {
            0
        } else {
            1
        },
        _ => 0,
    }
}

} // verus!

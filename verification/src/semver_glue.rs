//! The one place where the engine calls the `semver` crate: reading the
//! starting version of a filter.

use crate::version::{Version, VersionView};
use vstd::prelude::*;

verus! {

/// What `semver::Version::parse` makes of a text: the major, minor and patch
/// numbers and the prerelease text of the version it reads, `None` where it
/// rejects the text.  Build metadata is not part of it.
pub uninterp spec fn semver_parse(text: Seq<char>) -> Option<(u64, u64, u64, Seq<char>)>;

/// The version that `semver` reads from a text.
pub open spec fn semver_version(text: Seq<char>) -> Option<VersionView> {
    match semver_parse(text) {
        Some((major, minor, patch, pre)) => Some(VersionView { major, minor, patch, pre }),
        None => None,
    }
}

/// Calls `semver::Version::parse` and hands over the numbers and the
/// prerelease text of what it read.  Nothing is claimed of which texts it
/// accepts, only that the outcome is the one that `semver_parse` names.
#[verifier::external_body]
pub(crate) fn parse_semver(text: &str) -> (r: Option<Version>)
    ensures
        match r {
            Some(v) => semver_parse(text@) == Some((v.major, v.minor, v.patch, v.pre@)),
            None => semver_parse(text@) is None,
        },
{
    match semver::Version::parse(text) {
        Ok(v) => {
            let pre = v.pre.as_str().to_string();
            Some(Version { major: v.major, minor: v.minor, patch: v.patch, pre })
        },
        Err(_) => None,
    }
}

} // verus!

//! The failures that the engine reports to its caller.

use vstd::prelude::*;

verus! {

/// A failure of the engine.  None of them is raised by panicking: each is
/// handed back so that the caller decides whether to go on.
#[derive(Clone, Copy, Debug, PartialEq, Eq, Structural)]
pub enum EngineError {
    /// The version embedded in a bundle name could not be read.
    MalformedVersion,
    /// The starting version of a filter is not a semantic version.
    InvalidFromVersion,
    /// Channel records came without a package record.
    MissingPackageRecord,
    /// The catalogs to work on name more than one base image.
    InconsistentCatalogSet,
}

impl EngineError {
    /// The text of [`EngineError::message`].
    pub open spec fn message_text(self) -> Seq<char> {
        match self {
            EngineError::MalformedVersion => "malformed version in bundle name"@,
            EngineError::InvalidFromVersion => "fromVersion is not a semantic version"@,
            EngineError::MissingPackageRecord => "no package record for the channels given"@,
            EngineError::InconsistentCatalogSet =>
                "catalog images are expected to be the same (except for versions)"@,
        }
    }

    /// A sentence for the person who reads the report.
    pub fn message(&self) -> (r: String)
        ensures
            r@ == self.message_text(),
    {
        match self {
            EngineError::MalformedVersion => "malformed version in bundle name".to_owned(),
            EngineError::InvalidFromVersion => "fromVersion is not a semantic version".to_owned(),
            EngineError::MissingPackageRecord =>
                "no package record for the channels given".to_owned(),
            EngineError::InconsistentCatalogSet =>
                "catalog images are expected to be the same (except for versions)".to_owned(),
        }
    }
}

} // verus!

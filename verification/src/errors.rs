//! The error conditions of version resolution and configuration
//! selection. None is retried: every input is deterministic and
//! local, so a second attempt could not end differently.

use vstd::prelude::*;

verus! {

/// Why a build cannot be configured.
#[derive(Clone, Copy, Debug, PartialEq, Eq, Structural)]
pub enum BuildError {
    /// A version string does not parse as `major.minor.patch`.
    InvalidVersion,
    /// The registry holds no target: the generated crate is corrupt.
    EmptyRegistry,
    /// The installed version predates every known version; no choice
    /// is safe. The one condition a caller may downgrade to a warning.
    UnsupportedVersion,
    /// A path template names a binding the installation data lacks:
    /// a packaging bug.
    MissingPathBinding,
    /// The explicitly requested version is not in the registry.
    UnknownOverrideVersion,
}

impl BuildError {
    /// A short description of the error, for the build log.
    pub fn describe(&self) -> (r: &'static str)
        ensures
            r@ == spec_describe(*self),
    {
        match self {
            BuildError::InvalidVersion => "version string does not parse as major.minor.patch",
            BuildError::EmptyRegistry => "the crate embeds no known target",
            BuildError::UnsupportedVersion => "the installed version predates every known version",
            BuildError::MissingPathBinding => "a path template names an unknown installation path",
            BuildError::UnknownOverrideVersion => "the requested version is not a known target",
        }
    }
}

/// The description of each error condition.
pub open spec fn spec_describe(e: BuildError) -> Seq<char> {
    match e {
        BuildError::InvalidVersion => "version string does not parse as major.minor.patch"@,
        BuildError::EmptyRegistry => "the crate embeds no known target"@,
        BuildError::UnsupportedVersion => "the installed version predates every known version"@,
        BuildError::MissingPathBinding => "a path template names an unknown installation path"@,
        BuildError::UnknownOverrideVersion => "the requested version is not a known target"@,
    }
}

} // verus!

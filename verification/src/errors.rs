//! The failure classes of the discovery pipeline. Every one of them is
//! fatal for a build: callers report the error and stop.

use vstd::prelude::*;

verus! {

/// Why the discovery pipeline cannot continue.
#[derive(Clone, Copy, Debug, PartialEq, Eq, Structural)]
pub enum BuildError {
    /// No strategy located usable library and include directories.
    NotFound,
    /// The native toolchain could not expand the probe source.
    ProbeFailure,
    /// The header's version text matched neither expected format.
    MalformedVersion,
    /// The version decoded, but lies outside the supported range.
    UnsupportedVersion,
    /// The library directory holds neither a complete static nor a
    /// complete dynamic artifact set for the requested libraries.
    AmbiguousArtifacts,
}

impl BuildError {
    /// A short, fixed description; callers add the probed paths and
    /// other context of their own before aborting.
    pub fn describe(&self) -> (r: &'static str)
        ensures
            self is NotFound ==> r@ == "no usable OpenSSL installation was located"@,
            self is ProbeFailure ==> r@ == "failed to expand the probe against the OpenSSL headers"@,
            self is MalformedVersion ==> r@ == "the OpenSSL version text matched neither known format"@,
            self is UnsupportedVersion ==> r@ == "only OpenSSL 1.1.1 and the 3.x series are supported"@,
            self is AmbiguousArtifacts ==> r@ == "the library directory supports neither static nor dynamic linking"@,
    {
        match self {
            BuildError::NotFound => "no usable OpenSSL installation was located",
            BuildError::ProbeFailure => "failed to expand the probe against the OpenSSL headers",
            BuildError::MalformedVersion => "the OpenSSL version text matched neither known format",
            BuildError::UnsupportedVersion => "only OpenSSL 1.1.1 and the 3.x series are supported",
            BuildError::AmbiguousArtifacts => "the library directory supports neither static nor dynamic linking",
        }
    }
}

} // verus!

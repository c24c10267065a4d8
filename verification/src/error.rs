//! The kinds of failure that the gateway reports.

use vstd::prelude::*;

verus! {

/// Why a request could not be served.
#[derive(Debug, Clone, Copy, PartialEq, Eq, Structural)]
pub enum Error {
    /// The file name does not end in a known package extension.
    UnknownFilename,
    /// The distribution tag of the request is not one the gateway serves.
    UnknownDistribution,
    /// The user-agent is not that of a known package manager.
    UnknownAgent,
    /// A selected package could not be fetched from upstream.
    DownloadFailed,
    /// A package or its stored metadata could not be read.
    ParseFailed,
    /// An index could not be rendered.
    RenderFailed,
    /// Signing failed, or no usable key was found.
    SignFailed,
    /// The metadata store refused a record.
    PersistFailed,
    /// A path parameter of the request names nothing the gateway serves.
    RouteInput,
}

impl Error {
    /// A short message for the client.
    pub fn message(&self) -> (r: &'static str)
        ensures
            r@ == match *self {
                Error::UnknownFilename => "Unknown package type"@,
                Error::UnknownDistribution => "Unknown distribution"@,
                Error::UnknownAgent => "Unknown user agent"@,
                Error::DownloadFailed => "Failed to download package"@,
                Error::ParseFailed => "Failed to parse package"@,
                Error::RenderFailed => "Failed to render index"@,
                Error::SignFailed => "Failed to sign metadata"@,
                Error::PersistFailed => "Failed to save metadata"@,
                Error::RouteInput => "Unknown file requested"@,
            },
    {
        match self {
            Error::UnknownFilename => "Unknown package type",
            Error::UnknownDistribution => "Unknown distribution",
            Error::UnknownAgent => "Unknown user agent",
            Error::DownloadFailed => "Failed to download package",
            Error::ParseFailed => "Failed to parse package",
            Error::RenderFailed => "Failed to render index",
            Error::SignFailed => "Failed to sign metadata",
            Error::PersistFailed => "Failed to save metadata",
            Error::RouteInput => "Unknown file requested",
        }
    }
}

} // verus!

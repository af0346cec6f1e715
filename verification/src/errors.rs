//! Unified failure kinds with their HTTP status mapping.

use vstd::prelude::*;

verus! {

/// Domain errors raised by the stitching pipeline.  Each variant carries a
/// human-readable detail message.
#[derive(Debug)]
pub enum RitcherError {
    /// Upstream fetch failed (timeout or non-2xx after retries).
    OriginFetchError(String),
    /// The HLS parser rejected the input.
    PlaylistParseError(String),
    /// The DASH parser rejected the input.
    MpdParseError(String),
    /// Serialization or an internal rewrite invariant failed.
    PlaylistModifyError(String),
    /// The session path segment was malformed.
    InvalidSessionId(String),
    /// Required configuration was missing or malformed.
    ConfigError(String),
    /// Byte/UTF-8 conversion failed unexpectedly.
    ConversionError(String),
    /// The SSRF check refused a client-supplied origin URL.
    InvalidOrigin(String),
    /// Catch-all for internal failures.
    InternalError(String),
}

impl RitcherError {
    /// The HTTP status code each failure kind maps to.
    pub open spec fn http_status_view(&self) -> u16 {
        match self {
            RitcherError::OriginFetchError(_) => 502u16,
            RitcherError::PlaylistParseError(_) => 422u16,
            RitcherError::MpdParseError(_) => 422u16,
            RitcherError::PlaylistModifyError(_) => 500u16,
            RitcherError::InvalidSessionId(_) => 400u16,
            RitcherError::ConfigError(_) => 500u16,
            RitcherError::ConversionError(_) => 500u16,
            RitcherError::InvalidOrigin(_) => 400u16,
            RitcherError::InternalError(_) => 500u16,
        }
    }

    /// The HTTP status code this error maps to at the handler boundary.
    pub fn http_status(&self) -> (status: u16)
        ensures
            status == self.http_status_view(),
    {
        match self {
            RitcherError::OriginFetchError(_) => 502,
            RitcherError::PlaylistParseError(_) => 422,
            RitcherError::MpdParseError(_) => 422,
            RitcherError::PlaylistModifyError(_) => 500,
            RitcherError::InvalidSessionId(_) => 400,
            RitcherError::ConfigError(_) => 500,
            RitcherError::ConversionError(_) => 500,
            RitcherError::InvalidOrigin(_) => 400,
            RitcherError::InternalError(_) => 500,
        }
    }

    /// The detail message carried by this error, unchanged.
    pub fn detail(&self) -> (msg: &String)
        ensures
            msg@ == self.detail_view(),
    {
        match self {
            RitcherError::OriginFetchError(m) => m,
            RitcherError::PlaylistParseError(m) => m,
            RitcherError::MpdParseError(m) => m,
            RitcherError::PlaylistModifyError(m) => m,
            RitcherError::InvalidSessionId(m) => m,
            RitcherError::ConfigError(m) => m,
            RitcherError::ConversionError(m) => m,
            RitcherError::InvalidOrigin(m) => m,
            RitcherError::InternalError(m) => m,
        }
    }

    /// The detail message, as a sequence of characters.
    pub open spec fn detail_view(&self) -> Seq<char> {
        match self {
            RitcherError::OriginFetchError(m) => m@,
            RitcherError::PlaylistParseError(m) => m@,
            RitcherError::MpdParseError(m) => m@,
            RitcherError::PlaylistModifyError(m) => m@,
            RitcherError::InvalidSessionId(m) => m@,
            RitcherError::ConfigError(m) => m@,
            RitcherError::ConversionError(m) => m@,
            RitcherError::InvalidOrigin(m) => m@,
            RitcherError::InternalError(m) => m@,
        }
    }

    /// A display string: a fixed prefix for the kind, then the detail.
    pub fn message(&self) -> (msg: String)
        ensures
            msg@ == self.message_view(),
    {
        let prefix: &str = match self {
            RitcherError::OriginFetchError(_) => "Failed to fetch content from origin: ",
            RitcherError::PlaylistParseError(_) => "Failed to parse HLS playlist: ",
            RitcherError::MpdParseError(_) => "Failed to parse DASH MPD: ",
            RitcherError::PlaylistModifyError(_) => "Failed to modify playlist: ",
            RitcherError::InvalidSessionId(_) => "Invalid session ID: ",
            RitcherError::ConfigError(_) => "Configuration error: ",
            RitcherError::ConversionError(_) => "Failed to convert data: ",
            RitcherError::InvalidOrigin(_) => "Invalid origin URL: ",
            RitcherError::InternalError(_) => "Internal server error: ",
        };
        let mut msg = prefix.to_owned();
        msg.append(self.detail().as_str());
        msg
    }

    /// The display string this error renders to.
    pub open spec fn message_view(&self) -> Seq<char> {
        self.message_prefix() + self.detail_view()
    }

    /// The fixed prefix naming the error kind.
    pub open spec fn message_prefix(&self) -> Seq<char> {
        match self {
            RitcherError::OriginFetchError(_) => "Failed to fetch content from origin: "@,
            RitcherError::PlaylistParseError(_) => "Failed to parse HLS playlist: "@,
            RitcherError::MpdParseError(_) => "Failed to parse DASH MPD: "@,
            RitcherError::PlaylistModifyError(_) => "Failed to modify playlist: "@,
            RitcherError::InvalidSessionId(_) => "Invalid session ID: "@,
            RitcherError::ConfigError(_) => "Configuration error: "@,
            RitcherError::ConversionError(_) => "Failed to convert data: "@,
            RitcherError::InvalidOrigin(_) => "Invalid origin URL: "@,
            RitcherError::InternalError(_) => "Internal server error: "@,
        }
    }
}

} // verus!

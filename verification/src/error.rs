//! Crate-wide error type.

use vstd::prelude::*;
use vstd::string::StringExecFns;
use crate::text::{decimal, decimal_chars, string_of};

verus! {

/// Convenience alias used by every fallible API in this crate.
pub type Result<T> = core::result::Result<T, Error>;

/// All the ways a Lager box interaction can fail.
#[derive(Debug)]
#[non_exhaustive]
pub enum Error {
    /// The box could not be reached at all (DNS, TCP connect, transport
    /// failure). Check network/Tailscale and that the box is online.
    Connection(String),
    /// The HTTP request timed out client-side.
    Timeout(String),
    /// The box accepted the request but reported failure. The box can report
    /// failure with HTTP 200 (e.g. a cross-role instrument conflict); this
    /// variant covers that too.
    Box {
        /// HTTP status code of the response.
        status: u16,
        /// Human-readable error message from the box.
        message: String,
    },
    /// This box image does not serve the endpoint (HTTP 501, a missing
    /// route, or an old box rejecting a newer action).
    UnsupportedByBox {
        /// Human-readable error message.
        message: String,
    },
    /// The box's response could not be parsed into the expected shape.
    Decode(String),
    /// The net type exists in the Lager Python API but has no box HTTP
    /// endpoint yet, so this crate ships it as a documented stub.
    NotSupportedByBox {
        /// Which net/feature was invoked (e.g. `"scope"`).
        feature: &'static str,
        /// What the box side would need to expose for this to work.
        details: &'static str,
    },
    /// The box sits behind an authenticating gateway and the request was
    /// denied with no usable credential available.
    AuthRequired {
        /// Hostname of the gated box.
        box_host: String,
        /// The auth server URL announced by the gateway.
        auth_url: String,
        /// What happened (no credential vs. rejected credential).
        message: String,
    },
    /// Client-side configuration problem (bad host string, missing env var).
    Config(String),
    /// A streaming session (UART, RTT) reported an error.
    Stream(String),
}

/// The human-readable text of an error (what the original `Display` prints).
pub open spec fn error_text(e: Error) -> Seq<char> {
    match e {
        Error::Connection(msg) => "cannot reach the Lager box: "@ + msg@
            + ". Check network/Tailscale and that the box is online and updated"@,
        Error::Timeout(msg) => "request to the Lager box timed out: "@ + msg@,
        Error::Box { status, message } => "box error (HTTP "@ + decimal(status as nat) + "): "@
            + message@,
        Error::UnsupportedByBox { message } => message@
            + ". This box image does not support this endpoint; update the box"@,
        Error::Decode(msg) => "could not decode box response: "@ + msg@,
        Error::NotSupportedByBox { feature, details } => "'"@ + feature@
            + "' is not yet available over the box HTTP API: "@ + details@,
        Error::AuthRequired { box_host, auth_url, message } => message@
            + ". Sign in with `lager login "@ + auth_url@
            + "` (this crate reuses the CLI's session), or set LAGER_GATEWAY_TOKEN / use LagerBoxBuilder::bearer_token"@,
        Error::Config(msg) => "configuration error: "@ + msg@,
        Error::Stream(msg) => "streaming session error: "@ + msg@,
    }
}

impl Error {
    /// The human-readable description of this error.
    pub fn message(&self) -> (s: String)
        ensures
            s@ == error_text(*self),
    {
        match self {
            Error::Connection(msg) => {
                let mut s = String::from_str("cannot reach the Lager box: ");
                s.append(msg.as_str());
                s.append(". Check network/Tailscale and that the box is online and updated");
                s
            },
            Error::Timeout(msg) => {
                let mut s = String::from_str("request to the Lager box timed out: ");
                s.append(msg.as_str());
                s
            },
            Error::Box { status, message } => {
                let mut s = String::from_str("box error (HTTP ");
                let digits = string_of(decimal_chars(*status as u64).as_slice());
                s.append(digits.as_str());
                s.append("): ");
                s.append(message.as_str());
                s
            },
            Error::UnsupportedByBox { message } => {
                let mut s = message.clone();
                s.append(". This box image does not support this endpoint; update the box");
                s
            },
            Error::Decode(msg) => {
                let mut s = String::from_str("could not decode box response: ");
                s.append(msg.as_str());
                s
            },
            Error::NotSupportedByBox { feature, details } => {
                let mut s = String::from_str("'");
                s.append(feature);
                s.append("' is not yet available over the box HTTP API: ");
                s.append(details);
                s
            },
            Error::AuthRequired { auth_url, message, .. } => {
                let mut s = message.clone();
                s.append(". Sign in with `lager login ");
                s.append(auth_url.as_str());
                s.append(
                    "` (this crate reuses the CLI's session), or set LAGER_GATEWAY_TOKEN / use LagerBoxBuilder::bearer_token",
                );
                s
            },
            Error::Config(msg) => {
                let mut s = String::from_str("configuration error: ");
                s.append(msg.as_str());
                s
            },
            Error::Stream(msg) => {
                let mut s = String::from_str("streaming session error: ");
                s.append(msg.as_str());
                s
            },
        }
    }
}

} // verus!

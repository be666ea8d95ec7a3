//! What can go wrong.

use vstd::prelude::*;

use crate::strs::{decimal, u64_string};

verus! {

/// An error of the gateway. What another library reported is kept as its text.
#[derive(Debug)]
pub enum GatewayError {
    Http(String),
    Json(String),
    Io(String),
    Config(String),
    Api { status: u16, body: String },
    NoCompletedMessage,
    Channel { channel: String, message: String },
    Other(String),
}

/// What an error holds.
#[verifier::ext_equal]
pub enum ErrorV {
    Http(Seq<char>),
    Json(Seq<char>),
    Io(Seq<char>),
    Config(Seq<char>),
    Api { status: u16, body: Seq<char> },
    NoCompletedMessage,
    Channel { channel: Seq<char>, message: Seq<char> },
    Other(Seq<char>),
}

impl View for GatewayError {
    type V = ErrorV;

    open spec fn view(&self) -> ErrorV {
        match self {
            GatewayError::Http(s) => ErrorV::Http(s@),
            GatewayError::Json(s) => ErrorV::Json(s@),
            GatewayError::Io(s) => ErrorV::Io(s@),
            GatewayError::Config(s) => ErrorV::Config(s@),
            GatewayError::Api { status, body } => ErrorV::Api { status: *status, body: body@ },
            GatewayError::NoCompletedMessage => ErrorV::NoCompletedMessage,
            GatewayError::Channel { channel, message } => ErrorV::Channel {
                channel: channel@,
                message: message@,
            },
            GatewayError::Other(s) => ErrorV::Other(s@),
        }
    }
}

/// The text that describes an error.
pub open spec fn error_text(e: ErrorV) -> Seq<char> {
    match e {
        ErrorV::Http(s) => "HTTP error: "@ + s,
        ErrorV::Json(s) => "JSON error: "@ + s,
        ErrorV::Io(s) => "IO error: "@ + s,
        ErrorV::Config(s) => "config error: "@ + s,
        ErrorV::Api { status, body } => "Agent API error ("@ + decimal(status as nat) + "): "@
            + body,
        ErrorV::NoCompletedMessage => "SSE stream ended without a completed message"@,
        ErrorV::Channel { channel, message } => "channel error ["@ + channel + "]: "@ + message,
        ErrorV::Other(s) => s,
    }
}

impl GatewayError {
    /// An error with a text of its own.
    pub fn other(message: &str) -> (r: GatewayError)
        ensures
            r@ == ErrorV::Other(message@),
    {
        GatewayError::Other(message.to_owned())
    }

    /// The text that describes the error.
    pub fn message(&self) -> (r: String)
        ensures
            r@ == error_text(self@),
    {
        let mut r: String = String::new();
        match self {
            GatewayError::Http(s) => {
                r.append("HTTP error: ");
                r.append(s.as_str());
                assert(r@ == "HTTP error: "@ + s@);
            },
            GatewayError::Json(s) => {
                r.append("JSON error: ");
                r.append(s.as_str());
                assert(r@ == "JSON error: "@ + s@);
            },
            GatewayError::Io(s) => {
                r.append("IO error: ");
                r.append(s.as_str());
                assert(r@ == "IO error: "@ + s@);
            },
            GatewayError::Config(s) => {
                r.append("config error: ");
                r.append(s.as_str());
                assert(r@ == "config error: "@ + s@);
            },
            GatewayError::Api { status, body } => {
                r.append("Agent API error (");
                r.append(u64_string(*status as u64).as_str());
                r.append("): ");
                r.append(body.as_str());
                assert(r@ == "Agent API error ("@ + decimal(*status as nat) + "): "@ + body@);
            },
            GatewayError::NoCompletedMessage => {
                r.append("SSE stream ended without a completed message");
                assert(r@ == "SSE stream ended without a completed message"@);
            },
            GatewayError::Channel { channel, message } => {
                r.append("channel error [");
                r.append(channel.as_str());
                r.append("]: ");
                r.append(message.as_str());
                assert(r@ == "channel error ["@ + channel@ + "]: "@ + message@);
            },
            GatewayError::Other(s) => {
                r.append(s.as_str());
                assert(r@ == s@);
            },
        }
        r
    }
}

/// What went wrong is told whole: the text of an error ends with what it was given, an error without
/// a kind is told as it is, and an answer of an agent is told with its status.
pub proof fn errors_tell_what_went_wrong(s: Seq<char>, channel: Seq<char>, status: u16)
    ensures
        error_text(ErrorV::Other(s)) == s,
        tells("HTTP error: "@, error_text(ErrorV::Http(s)), s),
        tells("JSON error: "@, error_text(ErrorV::Json(s)), s),
        tells("IO error: "@, error_text(ErrorV::Io(s)), s),
        tells("config error: "@, error_text(ErrorV::Config(s)), s),
        tells(
            "Agent API error ("@ + decimal(status as nat) + "): "@,
            error_text(ErrorV::Api { status: status, body: s }),
            s,
        ),
        tells(
            "channel error ["@ + channel + "]: "@,
            error_text(ErrorV::Channel { channel: channel, message: s }),
            s,
        ),
        error_text(ErrorV::NoCompletedMessage) == "SSE stream ended without a completed message"@,
{
}

/// Whether a text is what comes first and then what was given.
pub open spec fn tells(first: Seq<char>, text: Seq<char>, given: Seq<char>) -> bool {
    text == first + given
}

} // verus!

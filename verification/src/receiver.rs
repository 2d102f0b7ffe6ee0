//! The webhook receiver: which requests it admits, what it publishes for
//! them, and what it answers.
//!
//! A request is handled without memory of any other. Where a secret is
//! configured the request must carry a valid `X-Signature` over its raw
//! body; otherwise every request is admitted. An admitted request becomes
//! one event, which is published once: the receiver does not retry.

use crate::event::{event_of, to_event, Event, EventView};
use crate::headers::{find_signature, raw_headers_view, signature_position, RawHeader};
use crate::signature::{signature_valid, validate_signature_bytes};
use crate::text::{opt_str_view, opt_string_view};
use vstd::prelude::*;
use vstd::string::*;
use vstd::utf8::encode_utf8;

verus! {

/// The settings of a receiver, fixed when it starts.
#[derive(Clone, Debug, PartialEq, Eq)]
pub struct ReceiverConfig {
    pub host: String,
    pub port: u16,
    /// The path on which requests are accepted.
    pub path: String,
    /// The key of the signatures; without one, nothing is checked.
    pub secret: Option<String>,
}

/// Why a request was refused.
#[derive(Clone, Copy, Debug, PartialEq, Eq, Structural)]
pub enum AuthenticationFailure {
    /// A secret is configured and the request has no signature header.
    MissingSignature,
    /// The signature header does not sign the body.
    InvalidSignature,
}

/// What the receiver does with a request.
#[derive(Clone, Debug, PartialEq, Eq)]
pub enum Admission {
    /// Publish this event, then answer by how publishing went.
    Publish(Event),
    /// Publish nothing and answer `401`.
    Reject(AuthenticationFailure),
}

/// The answer to a request.
#[derive(Clone, Debug, PartialEq, Eq)]
pub struct Response {
    pub status: u16,
    pub body: &'static str,
}

/// The mathematical value of an [`Admission`].
pub enum AdmissionView {
    Publish(EventView),
    Reject(AuthenticationFailure),
}

impl View for Admission {
    type V = AdmissionView;

    open spec fn view(&self) -> AdmissionView {
        match self {
            Admission::Publish(event) => AdmissionView::Publish(event@),
            Admission::Reject(failure) => AdmissionView::Reject(*failure),
        }
    }
}

/// Whether a request passes. Without a secret it does. With one, it needs a
/// signature header, and the first such header must sign the body.
pub open spec fn authentication(
    secret: Option<Seq<char>>,
    raw: Seq<(Seq<char>, Seq<u8>)>,
    body: Seq<u8>,
) -> Result<(), AuthenticationFailure> {
    match secret {
        None => Ok(()),
        Some(key) => match signature_position(raw, 0) {
            None => Err(AuthenticationFailure::MissingSignature),
            Some(i) => if signature_valid(encode_utf8(key), body, raw[i].1) {
                Ok(())
            } else {
                Err(AuthenticationFailure::InvalidSignature)
            },
        },
    }
}

/// What the receiver does with a request: it publishes the request's event
/// if the request passes, and refuses it otherwise.
pub open spec fn admission(
    secret: Option<Seq<char>>,
    method: Seq<char>,
    path: Seq<char>,
    raw: Seq<(Seq<char>, Seq<u8>)>,
    body: Seq<u8>,
) -> AdmissionView {
    match authentication(secret, raw, body) {
        Ok(()) => AdmissionView::Publish(event_of(method, raw, body, path)),
        Err(failure) => AdmissionView::Reject(failure),
    }
}

/// The status that answers a refused request.
pub open spec fn rejection_status() -> u16 {
    401
}

/// The status that answers an admitted request, by whether its event was
/// published.
pub open spec fn publish_status(published: bool) -> u16 {
    if published {
        202
    } else {
        500
    }
}

/// Checks a request against the configured secret.
pub fn authenticate(secret: Option<&str>, headers: &Vec<RawHeader>, body: &[u8]) -> (out: Result<
    (),
    AuthenticationFailure,
>)
    ensures
        out == authentication(
            opt_str_view(secret),
            raw_headers_view(headers@),
            body@,
        ),
{
    match secret {
        None => Ok(()),
        Some(key) => match find_signature(headers) {
            None => Err(AuthenticationFailure::MissingSignature),
            Some(i) => if validate_signature_bytes(
                key.as_bytes(),
                body,
                headers[i].value.as_slice(),
            ) {
                Ok(())
            } else {
                Err(AuthenticationFailure::InvalidSignature)
            },
        },
    }
}

/// Handles an inbound request up to the point of publishing: the request is
/// checked against the configured secret, and one that passes is translated
/// into its event. The body is the raw body, read in full.
pub fn handle_request(
    config: &ReceiverConfig,
    method: &str,
    path: &str,
    headers: &Vec<RawHeader>,
    body: &[u8],
) -> (out: Admission)
    ensures
        out@ == admission(
            opt_string_view(config.secret),
            method@,
            path@,
            raw_headers_view(headers@),
            body@,
        ),
{
    let secret: Option<&str> = match &config.secret {
        Some(key) => Some(key.as_str()),
        None => None,
    };
    match authenticate(secret, headers, body) {
        Ok(()) => Admission::Publish(to_event(method, headers, body, path)),
        Err(failure) => Admission::Reject(failure),
    }
}

/// The answer to a refused request: `401 Unauthorized`.
pub fn reject(failure: AuthenticationFailure) -> (response: Response)
    ensures
        response.status == rejection_status(),
        response.body@ == match failure {
            AuthenticationFailure::MissingSignature => "Missing signature"@,
            AuthenticationFailure::InvalidSignature => "Invalid signature"@,
        },
{
    match failure {
        AuthenticationFailure::MissingSignature => Response {
            status: 401,
            body: "Missing signature",
        },
        AuthenticationFailure::InvalidSignature => Response {
            status: 401,
            body: "Invalid signature",
        },
    }
}

/// The answer to an admitted request, once publishing was tried:
/// `202 Accepted` if the event was published, `500 Internal Server Error`
/// if it was not.
pub fn respond(published: bool) -> (response: Response)
    ensures
        response.status == publish_status(published),
        response.body@ == if published {
            ""@
        } else {
            "Failed to publish event"@
        },
{
    if published {
        Response { status: 202, body: "" }
    } else {
        Response { status: 500, body: "Failed to publish event" }
    }
}

/// A request is published or refused, never both, and it is refused only
/// where a secret is configured.
pub proof fn law_no_secret_admits_all(
    method: Seq<char>,
    path: Seq<char>,
    raw: Seq<(Seq<char>, Seq<u8>)>,
    body: Seq<u8>,
)
    ensures
        admission(None, method, path, raw, body) == AdmissionView::Publish(
            event_of(method, raw, body, path),
        ),
{
}

/// With a secret configured, a request is admitted exactly when its first
/// signature header signs its body under the secret.
pub proof fn law_admitted_iff_signed(
    secret: Seq<char>,
    method: Seq<char>,
    path: Seq<char>,
    raw: Seq<(Seq<char>, Seq<u8>)>,
    body: Seq<u8>,
)
    ensures
        admission(Some(secret), method, path, raw, body) is Publish <==> (signature_position(
            raw,
            0,
        ) matches Some(i) && signature_valid(encode_utf8(secret), body, raw[i].1)),
{
}

} // verus!

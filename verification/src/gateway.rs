//! The gateway channel logic: normalizing the endpoint into the upgrade
//! address, the strict one-shot identify handshake, and the meaning of each
//! received frame. The socket itself is owned by the embedding application;
//! everything here is the decision logic it runs.

use vstd::prelude::*;

use crate::codec::DecodeError;
use crate::codec::GatewayEvent;
use crate::codec::decode_event;
use crate::codec::spec_decode_event;
use crate::model::User;

verus! {

/// An error of the gateway channel.
#[derive(Clone, Debug, PartialEq, Eq)]
pub enum Error {
    /// The underlying socket failed; the text describes the transport error.
    Websocket(String),
    /// The endpoint cannot take the gateway path segment, or does not parse.
    InvalidUrl(String),
    /// A text frame arrived that is not a well-formed event.
    Serialization(DecodeError),
    /// A binary frame arrived; the protocol only ever sends text.
    UnexpectedBinaryMessage,
    /// The server rejected the handshake, with its reason.
    GatewayError(String),
    /// Something other than `Ready` or `Error` answered the handshake.
    UnexpectedEvent(GatewayEvent),
    /// The socket closed before the handshake was answered.
    UnexpectedSocketClose,
}

/// What the upgrade-address normalization returns for a given endpoint text:
/// a function of the text alone.
pub uninterp spec fn gateway_url_of(s: Seq<char>) -> Option<Seq<char>>;

/// Relies on the url crate: `Url::parse`, `Url::path_segments_mut` and
/// `PathSegmentsMut::push`. Parses the endpoint, appends the single path
/// segment `app` to its path, and returns the serialization; `None` when the
/// endpoint does not parse as a URL or is cannot-be-a-base (its path cannot
/// take segments). The result depends on the endpoint text alone.
#[verifier::external_body]
fn append_app_segment(endpoint: &str) -> (r: Option<String>)
    ensures
        r matches Some(u) ==> gateway_url_of(endpoint@) == Some(u@),
        r is None ==> gateway_url_of(endpoint@) is None,
{
    let mut url = match url::Url::parse(endpoint) {
        Ok(u) => u,
        Err(_) => return None,
    };
    match url.path_segments_mut() {
        Ok(mut segments) => {
            segments.push("app");
        },
        Err(()) => return None,
    }
    Some(String::from(url))
}

/// The address one connection attempt upgrades against: the endpoint with the
/// fixed segment `app` appended. An endpoint that cannot take the segment is
/// a configuration error, reported as [`Error::InvalidUrl`] and never
/// retried.
pub fn connect_url(endpoint: &str) -> (r: Result<String, Error>)
    ensures
        r matches Ok(u) ==> gateway_url_of(endpoint@) == Some(u@),
        r matches Err(e) ==> gateway_url_of(endpoint@) is None && (e matches Error::InvalidUrl(u)
            && u@ == endpoint@),
        (r is Ok) == (gateway_url_of(endpoint@) is Some),
{
    match append_app_segment(endpoint) {
        Some(u) => Ok(u),
        None => Err(Error::InvalidUrl(endpoint.to_owned())),
    }
}

/// The outcome of the identify handshake, as a function of the first thing
/// the socket yields after the identify command is sent: `Ready` succeeds
/// with the session identity; a server `Error` fails with its reason; any
/// other event is unexpected; a pull failure is passed through; a closed
/// socket is an unexpected close.
pub open spec fn spec_identify_outcome(first: Option<Result<GatewayEvent, Error>>) -> Result<
    (String, User),
    Error,
> {
    match first {
        Some(Ok(GatewayEvent::Ready { session_id, user })) => Ok((session_id, user)),
        Some(Ok(GatewayEvent::Error { reason })) => Err(Error::GatewayError(reason)),
        Some(Ok(ev)) => Err(Error::UnexpectedEvent(ev)),
        Some(Err(e)) => Err(e),
        None => Err(Error::UnexpectedSocketClose),
    }
}

/// Decides the identify handshake: a strict one-shot exchange in which only
/// the very next thing the socket yields counts.
pub fn identify_outcome(first: Option<Result<GatewayEvent, Error>>) -> (r: Result<
    (String, User),
    Error,
>)
    ensures
        r == spec_identify_outcome(first),
{
    match first {
        Some(Ok(GatewayEvent::Ready { session_id, user })) => Ok((session_id, user)),
        Some(Ok(GatewayEvent::Error { reason })) => Err(Error::GatewayError(reason)),
        Some(Ok(ev)) => Err(Error::UnexpectedEvent(ev)),
        Some(Err(e)) => Err(e),
        None => Err(Error::UnexpectedSocketClose),
    }
}

/// One frame as the transport hands it over.
#[derive(Clone, Debug, PartialEq, Eq)]
pub enum WsFrame {
    Text(String),
    Binary(Vec<u8>),
}

/// What one received frame means: a binary frame is itself a protocol
/// violation, and a text frame must decode to exactly one event.
pub fn interpret_frame(f: WsFrame) -> (r: Result<GatewayEvent, Error>)
    ensures
        r matches Ok(ev) ==> (f matches WsFrame::Text(t) && spec_decode_event(t@) == Some(
            ev.deep_view(),
        )),
        f matches WsFrame::Binary(b) ==> r == Err::<GatewayEvent, Error>(
            Error::UnexpectedBinaryMessage,
        ),
        f matches WsFrame::Text(t) && spec_decode_event(t@) is None ==> r == Err::<
            GatewayEvent,
            Error,
        >(Error::Serialization(DecodeError)),
        f matches WsFrame::Text(t) && spec_decode_event(t@) is Some ==> r is Ok,
{
    match f {
        WsFrame::Text(t) => match decode_event(t.as_str()) {
            Ok(ev) => Ok(ev),
            Err(e) => Err(Error::Serialization(e)),
        },
        WsFrame::Binary(_) => Err(Error::UnexpectedBinaryMessage),
    }
}

} // verus!

//! The inbound half of the request translator: from an HTTP request as it
//! arrived to the event that is published for it.

use crate::headers::{collect, collect_headers, headers_view, raw_headers_view, Header, RawHeader};
use crate::json::{members_view, Json, JsonView, Member};
use crate::text::{utf8_lossy, utf8_to_string_lossy};
use vstd::prelude::*;
use vstd::string::*;

verus! {

/// A message for the bus.
#[derive(Clone, Debug, PartialEq, Eq)]
pub struct Event {
    /// The topic, dot-separated.
    pub event_type: String,
    pub payload: Json,
    /// The headers of the request that the event was made from.
    pub headers: Vec<Header>,
}

/// The mathematical value of an [`Event`].
pub struct EventView {
    pub event_type: Seq<char>,
    pub payload: JsonView,
    pub headers: Seq<(Seq<char>, Seq<char>)>,
}

impl View for Event {
    type V = EventView;

    open spec fn view(&self) -> EventView {
        EventView {
            event_type: self.event_type@,
            payload: self.payload@,
            headers: headers_view(self.headers@),
        }
    }
}

/// A header mapping as a JSON object of strings.
pub open spec fn headers_json(entries: Seq<(Seq<char>, Seq<char>)>) -> JsonView {
    JsonView::Object(Seq::new(entries.len(), |i: int| (entries[i].0, JsonView::Text(entries[i].1))))
}

/// The payload of the event for a request: its method, its path, its header
/// mapping and its body as text, under these names and in this order.
pub open spec fn event_payload(
    method: Seq<char>,
    path: Seq<char>,
    headers: Seq<(Seq<char>, Seq<char>)>,
    body: Seq<char>,
) -> JsonView {
    JsonView::Object(
        seq![
            ("method"@, JsonView::Text(method)),
            ("path"@, JsonView::Text(path)),
            ("headers"@, headers_json(headers)),
            ("body"@, JsonView::Text(body)),
        ],
    )
}

/// The event for a request with this header mapping and this body text.
pub open spec fn request_event(
    method: Seq<char>,
    path: Seq<char>,
    headers: Seq<(Seq<char>, Seq<char>)>,
    body: Seq<char>,
) -> EventView {
    EventView {
        event_type: "http.request"@,
        payload: event_payload(method, path, headers, body),
        headers,
    }
}

/// The event for a request as it arrived: with the header mapping of its
/// headers, and its body read as UTF-8, with U+FFFD in place of what is not.
pub open spec fn event_of(
    method: Seq<char>,
    raw_headers: Seq<(Seq<char>, Seq<u8>)>,
    body: Seq<u8>,
    path: Seq<char>,
) -> EventView {
    request_event(method, path, collect_headers(raw_headers), utf8_lossy(body))
}

/// A header mapping as a JSON object.
fn headers_to_json(headers: &Vec<Header>) -> (json: Json)
    ensures
        json@ == headers_json(headers_view(headers@)),
{
    let mut members: Vec<Member> = Vec::new();
    let mut i: usize = 0;
    while i < headers.len()
        invariant
            i <= headers.len(),
            members@.len() == i,
            forall|j: int|
                0 <= j < i ==> (#[trigger] members@[j])@ == (
                    headers@[j].name@,
                    JsonView::Text(headers@[j].value@),
                ),
        decreases headers.len() - i,
    {
        members.push(
            Member { name: headers[i].name.clone(), value: Json::Text(headers[i].value.clone()) },
        );
        i += 1;
    }
    assert(members_view(members@) =~= headers_json(headers_view(headers@))->Object_0);
    Json::object(members)
}

/// Builds the event for a request from its parts: the event's type is
/// `http.request`, and its payload holds the method, the path, the header
/// mapping and the body.
pub fn build_event(method: &str, path: &str, headers: Vec<Header>, body: String) -> (event: Event)
    ensures
        event@ == request_event(method@, path@, headers_view(headers@), body@),
{
    let mut members: Vec<Member> = Vec::new();
    members.push(Member::new("method", Json::text(method)));
    members.push(Member::new("path", Json::text(path)));
    members.push(Member::new("headers", headers_to_json(&headers)));
    members.push(Member::new("body", Json::Text(body)));
    assert(members_view(members@) =~= event_payload(
        method@,
        path@,
        headers_view(headers@),
        body@,
    )->Object_0);
    Event { event_type: String::from_str("http.request"), payload: Json::object(members), headers }
}

/// Translates an inbound request into the event to publish. The header
/// mapping leaves out the signature header and every header whose value is
/// not UTF-8; the body is read as UTF-8, with U+FFFD in place of what is not.
pub fn to_event(
    method: &str,
    headers: &Vec<RawHeader>,
    raw_body: &[u8],
    source_path: &str,
) -> (event: Event)
    ensures
        event@ == event_of(method@, raw_headers_view(headers@), raw_body@, source_path@),
{
    build_event(method, source_path, collect(headers), utf8_to_string_lossy(raw_body))
}

} // verus!

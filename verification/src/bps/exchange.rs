//! One exchange with the upstream: what is sent, and what came of the answer.

use crate::json::{
    object_in_text, object_member, object_reading, parse_object, render_object,
    json_text, text_member, try_parse_object, Json, JsonObject, Members, Tree,
};
use crate::headers::{
    field, field_views, is_header_text, is_header_value, HeaderField,
};
use crate::text::{contains_text, has_text, optional_str, optional_text, same_text};
use vstd::prelude::*;
use vstd::string::*;
use vstd::utf8::*;

verus! {

pub const BPS_RESPONSES_URL: &'static str = "https://bps.openai.com/basispoints/api/responses";

/// How many bytes an answer may have.
pub const MAX_BPS_RESPONSE_BYTES: usize = 67_108_864;

/// The time zone is sent when there is one.
pub open spec fn sent_timezone(timezone: Option<Seq<char>>) -> Seq<(Seq<char>, Seq<char>)> {
    match timezone {
        Some(zone) if zone.len() > 0 => seq![("x-oai-timezone"@, zone)],
        _ => Seq::empty(),
    }
}

pub open spec fn bps_fields(
    authorization: Seq<char>,
    account_id: Seq<char>,
    timezone: Option<Seq<char>>,
) -> Seq<(Seq<char>, Seq<char>)> {
    seq![
        ("content-type"@, "application/json"@),
        ("accept"@, "text/event-stream"@),
        ("accept-encoding"@, "identity"@),
        ("authorization"@, authorization),
        ("chatgpt-account-id"@, account_id),
        ("x-openai-account-id"@, account_id),
        ("x-basispoints-auth-mode"@, "chatgpt"@),
        ("origin"@, "https://bps.openai.com"@),
        ("x-openai-internal-basispoints-client-agent-profile"@, "excel"@),
        ("x-openai-internal-basispoints-client-editor"@, "excel"@),
        ("x-openai-internal-basispoints-client-host"@, "office"@),
        ("x-openai-internal-basispoints-client-platform"@, "excel"@),
        ("x-openai-internal-basispoints-client-platform-class"@, "PC"@),
        ("x-openai-internal-basispoints-client-product"@, "basispoints-excel-plugin"@),
        ("x-openai-internal-basispoints-client-runtime"@, "desktop"@),
        ("x-openai-internal-basispoints-office-host"@, "Excel"@),
        ("x-openai-internal-basispoints-office-platform"@, "PC"@),
        ("x-stainless-arch"@, "unknown"@),
        ("x-stainless-lang"@, "js"@),
        ("x-stainless-os"@, "Unknown"@),
        ("x-stainless-package-version"@, "6.31.0"@),
        ("x-stainless-retry-count"@, "0"@),
        ("x-stainless-runtime"@, "browser:chrome"@),
        ("user-agent"@, "oai-basispoints/0.1.9"@),
    ] + sent_timezone(timezone)
}

/// All that comes from outside can stand in a header.
pub open spec fn can_be_sent(
    authorization: Seq<char>,
    account_id: Seq<char>,
    timezone: Option<Seq<char>>,
) -> bool {
    is_header_text(authorization) && is_header_text(account_id) && match timezone {
        Some(zone) => is_header_text(zone),
        None => true,
    }
}

/// A value that cannot stand in a header.
#[derive(Debug, Clone, Copy, PartialEq, Eq, Structural)]
pub struct InvalidHeaderValue;

/// The header fields of the client that the upstream expects.
pub fn bps_headers(authorization: &str, account_id: &str, timezone: Option<&str>) -> (r: Result<
    Vec<HeaderField>,
    InvalidHeaderValue,
>)
    ensures
        match r {
            Ok(fields) => can_be_sent(authorization@, account_id@, optional_str(timezone))
                && field_views(fields@) == bps_fields(
                authorization@,
                account_id@,
                optional_str(timezone),
            ),
            Err(_) => !can_be_sent(authorization@, account_id@, optional_str(timezone)),
        },
{
    if !is_header_value(authorization) || !is_header_value(account_id) {
        return Err(InvalidHeaderValue);
    }
    let mut fields: Vec<HeaderField> = vec![
        field("content-type", "application/json"),
        field("accept", "text/event-stream"),
        field("accept-encoding", "identity"),
        field("authorization", authorization),
        field("chatgpt-account-id", account_id),
        field("x-openai-account-id", account_id),
        field("x-basispoints-auth-mode", "chatgpt"),
        field("origin", "https://bps.openai.com"),
        field("x-openai-internal-basispoints-client-agent-profile", "excel"),
        field("x-openai-internal-basispoints-client-editor", "excel"),
        field("x-openai-internal-basispoints-client-host", "office"),
        field("x-openai-internal-basispoints-client-platform", "excel"),
        field("x-openai-internal-basispoints-client-platform-class", "PC"),
        field("x-openai-internal-basispoints-client-product", "basispoints-excel-plugin"),
        field("x-openai-internal-basispoints-client-runtime", "desktop"),
        field("x-openai-internal-basispoints-office-host", "Excel"),
        field("x-openai-internal-basispoints-office-platform", "PC"),
        field("x-stainless-arch", "unknown"),
        field("x-stainless-lang", "js"),
        field("x-stainless-os", "Unknown"),
        field("x-stainless-package-version", "6.31.0"),
        field("x-stainless-retry-count", "0"),
        field("x-stainless-runtime", "browser:chrome"),
        field("user-agent", "oai-basispoints/0.1.9"),
    ];
    if let Some(zone) = timezone {
        if !zone.is_empty() {
            if !is_header_value(zone) {
                return Err(InvalidHeaderValue);
            }
            fields.push(field("x-oai-timezone", zone));
        }
    }
    assert(field_views(fields@) =~= bps_fields(
        authorization@,
        account_id@,
        optional_str(timezone),
    ));
    Ok(fields)
}

/// A request as it is sent.
pub struct BpsRequest {
    pub headers: Vec<HeaderField>,
    pub body: Vec<u8>,
}

/// The request for a body, to go to `BPS_RESPONSES_URL`.
pub fn bps_request(
    body: &JsonObject,
    authorization: &str,
    account_id: &str,
    timezone: Option<&str>,
) -> (r: Result<BpsRequest, InvalidHeaderValue>)
    ensures
        match r {
            Ok(request) => {
                &&& can_be_sent(authorization@, account_id@, optional_str(timezone))
                &&& field_views(request.headers@) == bps_fields(
                    authorization@,
                    account_id@,
                    optional_str(timezone),
                )
                &&& request.body@ == encode_utf8(json_text(Tree::Object(body@)))
            },
            Err(_) => !can_be_sent(authorization@, account_id@, optional_str(timezone)),
        },
{
    match bps_headers(authorization, account_id, timezone) {
        Ok(headers) => Ok(
            BpsRequest { headers, body: render_object(body).as_str().as_bytes_vec() },
        ),
        Err(error) => Err(error),
    }
}

/// How an answer ended.
pub enum BpsTerminal {
    /// The answer itself, complete or not.
    Response { incomplete: bool, response: JsonObject },
    /// The event that reports a failure.
    Failure(JsonObject),
}

pub enum TerminalView {
    Response { incomplete: bool, response: Members },
    Failure(Members),
}

impl View for BpsTerminal {
    type V = TerminalView;

    open spec fn view(&self) -> TerminalView {
        match self {
            BpsTerminal::Response { incomplete, response } => TerminalView::Response {
                incomplete: *incomplete,
                response: response@,
            },
            BpsTerminal::Failure(event) => TerminalView::Failure(event@),
        }
    }
}

pub open spec fn is_answer_event(name: Seq<char>) -> bool {
    name == "response.completed"@ || name == "response.incomplete"@
}

/// What a final event says: the answer that it carries, or a failure.
pub open spec fn terminal_of_event(event: Members) -> TerminalView {
    let name = text_member(event, "type"@);
    match object_member(event, "response"@) {
        Some(response) if is_answer_event(name) => TerminalView::Response {
            incomplete: name == "response.incomplete"@,
            response,
        },
        _ => TerminalView::Failure(event),
    }
}

/// What an object says: it is an answer, or a final event.
pub open spec fn terminal_of_object(object: Members) -> TerminalView {
    if text_member(object, "object"@) == "response"@ || object.dom().contains("output"@) {
        TerminalView::Response {
            incomplete: text_member(object, "status"@) == "incomplete"@,
            response: object,
        }
    } else {
        terminal_of_event(object)
    }
}

pub fn terminal_into_terminal(event: JsonObject) -> (r: BpsTerminal)
    ensures
        r@ == terminal_of_event(event@),
{
    let name = event.text_at("type");
    let incomplete = same_text(name.as_str(), "response.incomplete");
    if incomplete || same_text(name.as_str(), "response.completed") {
        let response = match event.object_at("response") {
            Some(response) => Some(response.copy()),
            None => None,
        };
        if let Some(response) = response {
            return BpsTerminal::Response { incomplete, response };
        }
    }
    BpsTerminal::Failure(event)
}

pub fn terminal_from_object(object: JsonObject) -> (r: BpsTerminal)
    ensures
        r@ == terminal_of_object(object@),
{
    if same_text(object.text_at("object").as_str(), "response") || object.contains_key("output") {
        let incomplete = same_text(object.text_at("status").as_str(), "incomplete");
        return BpsTerminal::Response { incomplete, response: object };
    }
    terminal_into_terminal(object)
}

/// An event of the upstream's stream.
pub struct SseEvent {
    pub event: Option<String>,
    pub data: String,
}

pub open spec fn event_views(events: Seq<SseEvent>) -> Seq<(Option<Seq<char>>, Seq<char>)> {
    events.map_values(|event: SseEvent| (optional_text(event.event), event.data@))
}

pub open spec fn is_final_name(name: Seq<char>) -> bool {
    is_answer_event(name) || name == "response.failed"@ || name == "error"@
}

/// An event ends the stream by its name, or by an answer that is completed.
pub open spec fn final_event(name: Option<Seq<char>>, data: Members) -> Option<Members> {
    let name = match name {
        Some(name) => name,
        None => text_member(data, "type"@),
    };
    if is_final_name(name) {
        Some(data)
    } else {
        match object_member(data, "response"@) {
            Some(response) if text_member(response, "status"@) == "completed"@ => Some(
                map![
                    "type"@ => Tree::Text("response.completed"@),
                    "response"@ => Tree::Object(response),
                ],
            ),
            _ => None,
        }
    }
}

/// The last event of a stream that ends it.
pub open spec fn last_final_event(events: Seq<(Option<Seq<char>>, Seq<char>)>) -> Option<Members>
    decreases events.len(),
{
    if events.len() == 0 {
        None
    } else {
        let earlier = last_final_event(events.drop_last());
        match object_in_text(events.last().1) {
            Some(data) => match final_event(events.last().0, data) {
                Some(found) => Some(found),
                None => earlier,
            },
            None => earlier,
        }
    }
}

/// The last event of a stream is the mark that it is over.
pub open spec fn ends_with_mark(events: Seq<(Option<Seq<char>>, Seq<char>)>) -> bool {
    events.len() > 0 && events.last().1 == DONE_MARK@
}

/// What a stream says when it is over.
pub const DONE_MARK: &'static str = "[DONE]";

fn final_event_of(event: &SseEvent) -> (r: Option<JsonObject>)
    ensures
        event.data@ == DONE_MARK@ ==> object_in_text(event.data@) is None,
        match r {
            Some(found) => object_in_text(event.data@) is Some && final_event(
                optional_text(event.event),
                object_in_text(event.data@)->0,
            ) == Some(found@),
            None => object_in_text(event.data@) is None || final_event(
                optional_text(event.event),
                object_in_text(event.data@)->0,
            ) is None,
        },
{
    proof {
        reveal_strlit("[DONE]");
    }
    let data = match parse_object(event.data.as_str()) {
        Some(data) => data,
        None => {
            return None;
        },
    };
    let name = match &event.event {
        Some(name) => name.clone(),
        None => data.text_at("type"),
    };
    let name = name.as_str();
    if same_text(name, "response.completed") || same_text(name, "response.incomplete") || same_text(
        name,
        "response.failed",
    ) || same_text(name, "error") {
        return Some(data);
    }
    if let Some(response) = data.object_at("response") {
        if same_text(response.text_at("status").as_str(), "completed") {
            return Some(
                JsonObject::new().insert(
                    "type",
                    Json::Text("response.completed".to_owned()),
                ).insert("response", Json::Object(response.copy())),
            );
        }
    }
    None
}

/// Why an answer cannot be read.
pub enum BpsReadError {
    /// The body is no JSON object; the text says why.
    InvalidJson(String),
    /// The stream has no final event.
    NoTerminalEvent,
    /// The body is longer than it may be.
    TooLong,
}

impl BpsReadError {
    /// The text that goes with the error, if it has one.
    pub fn message(&self) -> (r: Option<String>)
        ensures
            optional_text(r) == (match self {
                BpsReadError::InvalidJson(text) => Some(text@),
                BpsReadError::NoTerminalEvent => Some(
                    "Basis Points stream ended without a terminal response event"@,
                ),
                BpsReadError::TooLong => None,
            }),
    {
        match self {
            BpsReadError::InvalidJson(text) => Some(text.clone()),
            BpsReadError::NoTerminalEvent => Some(
                "Basis Points stream ended without a terminal response event".to_owned(),
            ),
            BpsReadError::TooLong => None,
        }
    }
}

/// How a stream of events ended. The mark at its end does not matter.
pub fn parse_terminal_events(events: &Vec<SseEvent>) -> (r: Result<BpsTerminal, BpsReadError>)
    ensures
        ends_with_mark(event_views(events@)) ==> last_final_event(event_views(events@))
            == last_final_event(event_views(events@).drop_last()),
        match last_final_event(event_views(events@)) {
            Some(event) => r is Ok && r->Ok_0@ == terminal_of_event(event),
            None => r is Err && r->Err_0 is NoTerminalEvent,
        },
{
    let ghost all = event_views(events@);
    let mut found: Option<JsonObject> = None;
    let mut i: usize = 0;
    proof {
        assert(all.take(0) =~= Seq::empty());
    }
    while i < events.len()
        invariant
            i <= events@.len(),
            all == event_views(events@),
            crate::json::optional_members(found) == last_final_event(all.take(i as int)),
            i == events@.len() && ends_with_mark(all) ==> object_in_text(all.last().1) is None,
        decreases events@.len() - i,
    {
        proof {
            assert(all.take(i + 1).drop_last() =~= all.take(i as int));
            assert(all.take(i + 1).last() == all[i as int]);
        }
        if let Some(event) = final_event_of(&events[i]) {
            found = Some(event);
        }
        i += 1;
    }
    proof {
        assert(all.take(events@.len() as int) =~= all);
    }
    match found {
        Some(event) => Ok(terminal_into_terminal(event)),
        None => Err(BpsReadError::NoTerminalEvent),
    }
}

/// How an answer in one piece of JSON ended.
pub fn parse_terminal_object(body: &str) -> (r: Result<BpsTerminal, BpsReadError>)
    ensures
        match object_reading(body@) {
            Ok(object) => r is Ok && r->Ok_0@ == terminal_of_object(object),
            Err(error) => r is Err && r->Err_0 is InvalidJson && r->Err_0->InvalidJson_0@ == error,
        },
{
    match try_parse_object(body) {
        Ok(object) => Ok(terminal_from_object(object)),
        Err(error) => Err(BpsReadError::InvalidJson(error)),
    }
}

/// What is to be done with an answer, by its status line and headers.
#[derive(Debug, Clone, Copy, PartialEq, Eq, Structural)]
pub enum BpsReading {
    /// The upstream refused: read the error body.
    ReadError,
    /// Read a stream of events.
    ReadEvents,
    /// Read one JSON object.
    ReadObject,
}

pub open spec fn is_success(status: u16) -> bool {
    200 <= status <= 299
}

pub fn reading_for(status: u16, content_type: Option<&str>) -> (r: BpsReading)
    ensures
        r == (if !is_success(status) {
            BpsReading::ReadError
        } else {
            match content_type {
                Some(kind) if contains_text(kind@, "text/event-stream"@) => BpsReading::ReadEvents,
                _ => BpsReading::ReadObject,
            }
        }),
        status < 200 || status > 299 ==> r == BpsReading::ReadError,
        200 <= status <= 299 && content_type is None ==> r == BpsReading::ReadObject,
        200 <= status <= 299 && content_type is Some ==> r == (if contains_text(
            content_type->0@,
            "text/event-stream"@,
        ) {
            BpsReading::ReadEvents
        } else {
            BpsReading::ReadObject
        }),
{
    if status < 200 || status > 299 {
        return BpsReading::ReadError;
    }
    match content_type {
        Some(kind) => if has_text(kind, "text/event-stream") {
            BpsReading::ReadEvents
        } else {
            BpsReading::ReadObject
        },
        None => BpsReading::ReadObject,
    }
}

/// When to try again: what the headers say, or else what the error body says.
pub fn retry_after(header_seconds: Option<u64>, body_seconds: Option<u64>) -> (r: Option<u64>)
    ensures
        r == (if header_seconds is Some {
            header_seconds
        } else {
            body_seconds
        }),
{
    match header_seconds {
        Some(seconds) => Some(seconds),
        None => body_seconds,
    }
}

/// The answer that was read: its body, or for a stream its events. `length` is
/// the length of what came in, in bytes.
pub fn parse_terminal(body: &str, events: Option<&Vec<SseEvent>>, length: usize) -> (r: Result<
    BpsTerminal,
    BpsReadError,
>)
    ensures
        length > MAX_BPS_RESPONSE_BYTES ==> r is Err && r->Err_0 is TooLong,
        length <= MAX_BPS_RESPONSE_BYTES && events is Some && ends_with_mark(
            event_views(events->0@),
        ) ==> last_final_event(event_views(events->0@)) == last_final_event(
            event_views(events->0@).drop_last(),
        ),
        length <= MAX_BPS_RESPONSE_BYTES ==> (match events {
            Some(events) => match last_final_event(event_views(events@)) {
                Some(event) => r is Ok && r->Ok_0@ == terminal_of_event(event),
                None => r is Err && r->Err_0 is NoTerminalEvent,
            },
            None => match object_reading(body@) {
                Ok(object) => r is Ok && r->Ok_0@ == terminal_of_object(object),
                Err(error) => r is Err && r->Err_0 is InvalidJson && r->Err_0->InvalidJson_0@
                    == error,
            },
        }),
{
    if length > MAX_BPS_RESPONSE_BYTES {
        return Err(BpsReadError::TooLong);
    }
    match events {
        Some(events) => parse_terminal_events(events),
        None => parse_terminal_object(body),
    }
}

} // verus!

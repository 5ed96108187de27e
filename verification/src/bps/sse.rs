//! The event stream that is made of a finished answer.

use crate::json::{
    a_member_is_plain, array_view, is_plain, is_text_of, json_text, member_or_null, render,
    text_member, trees, Json, JsonNumber, JsonObject, Members, NumberView, Tree, DEPTH_LIMIT,
};
use crate::text::{
    glue, is_one_line, same_text, split, split_takes_a_line, trimmed_stays,
};
use crate::bps::exchange::{last_final_event, terminal_of_event, TerminalView};
use crate::bps::response::output_of;
use vstd::prelude::*;
use vstd::string::*;
use vstd::utf8::*;

verus! {

/// An event: its name and what it says.
pub type Event = (Seq<char>, Members);

/// One event as it goes over the wire.
pub open spec fn frame(name: Seq<char>, value: Tree) -> Seq<char> {
    "event: "@ + name + "\ndata: "@ + json_text(value) + "\n\n"@
}

/// What an event says, with its name and its place in the stream.
pub open spec fn numbered(event: Event, place: nat) -> Tree {
    Tree::Object(
        event.1.insert("type"@, Tree::Text(event.0)).insert(
            "sequence_number"@,
            Tree::Number(NumberView::Unsigned(place)),
        ),
    )
}

/// The events one after the other, numbered from zero.
pub open spec fn frames(events: Seq<Event>) -> Seq<char>
    decreases events.len(),
{
    if events.len() == 0 {
        Seq::empty()
    } else {
        frames(events.drop_last()) + frame(
            events.last().0,
            numbered(events.last(), (events.len() - 1) as nat),
        )
    }
}

pub const DONE_FRAME: &'static str = "data: [DONE]\n\n";

pub open spec fn index_tree(index: int) -> Tree {
    Tree::Number(NumberView::Unsigned(index as nat))
}

/// The field that carries what a call is made with, and the name that its events
/// begin with; none for an item that is no call.
pub open spec fn payload_field(item: Members) -> Option<(Seq<char>, Seq<char>)> {
    let kind = text_member(item, "type"@);
    if kind == "function_call"@ {
        Some(("arguments"@, "response.function_call_arguments"@))
    } else if kind == "custom_tool_call"@ {
        Some(("input"@, "response.custom_tool_call_input"@))
    } else {
        None
    }
}

/// An item as it is first shown: a call in progress, without what it is made with.
pub open spec fn announced(item: Members) -> Members {
    match payload_field(item) {
        Some((field, name)) => item.insert(field, Tree::Text(Seq::empty())).insert(
            "status"@,
            Tree::Text("in_progress"@),
        ),
        None => item,
    }
}

pub open spec fn item_event(name: Seq<char>, index: int, item: Tree) -> Event {
    (name, map!["output_index"@ => index_tree(index), "item"@ => item])
}

/// The events that bring what a call is made with.
pub open spec fn payload_events(index: int, item: Members) -> Seq<Event> {
    match payload_field(item) {
        Some((field, name)) => {
            let text = text_member(item, field);
            let head = map![
                "output_index"@ => index_tree(index),
                "item_id"@ => member_or_null(item, "id"@),
            ];
            let done = (name + ".done"@, head.insert(field, Tree::Text(text)));
            if text.len() > 0 {
                seq![(name + ".delta"@, head.insert("delta"@, Tree::Text(text))), done]
            } else {
                seq![done]
            }
        },
        None => Seq::empty(),
    }
}

/// The events of one output item.
pub open spec fn item_events(index: int, value: Tree) -> Seq<Event> {
    match value {
        Tree::Object(item) => seq![
            item_event("response.output_item.added"@, index, Tree::Object(announced(item))),
        ] + payload_events(index, item) + seq![
            item_event("response.output_item.done"@, index, value),
        ],
        _ => Seq::empty(),
    }
}

pub open spec fn output_events(output: Seq<Tree>) -> Seq<Event>
    decreases output.len(),
{
    if output.len() == 0 {
        Seq::empty()
    } else {
        output_events(output.drop_last()) + item_events(output.len() - 1, output.last())
    }
}

pub open spec fn response_event(name: Seq<char>, response: Members) -> Event {
    (name, map!["response"@ => Tree::Object(response)])
}

pub open spec fn begun(response: Members) -> Members {
    response.insert("status"@, Tree::Text("in_progress"@)).insert(
        "output"@,
        Tree::Array(Seq::empty()),
    )
}

pub open spec fn ended(response: Members, incomplete: bool) -> Members {
    response.insert(
        "status"@,
        Tree::Text(
            if incomplete {
                "incomplete"@
            } else {
                "completed"@
            },
        ),
    )
}

pub open spec fn terminal_name(incomplete: bool) -> Seq<char> {
    if incomplete {
        "response.incomplete"@
    } else {
        "response.completed"@
    }
}

/// The whole stream of an answer.
pub open spec fn answer_events(response: Members, incomplete: bool) -> Seq<Event> {
    seq![
        response_event("response.created"@, begun(response)),
        response_event("response.in_progress"@, begun(response)),
    ] + output_events(output_of(response)) + seq![
        response_event(terminal_name(incomplete), ended(response, incomplete)),
    ]
}

/// The events as a reader of the stream gets them: their names and their data.
pub open spec fn events_read(events: Seq<Event>) -> Seq<(Option<Seq<char>>, Seq<char>)> {
    Seq::new(
        events.len(),
        |i: int| (Some(events[i].0), json_text(numbered(events[i], i as nat))),
    )
}

/// The lines of events: each has a line with its name, one with its data, and an
/// empty one.
pub open spec fn event_lines(events: Seq<Event>) -> Seq<Seq<char>>
    decreases events.len(),
{
    if events.len() == 0 {
        Seq::empty()
    } else {
        event_lines(events.drop_last()) + seq![
            "event: "@ + events.last().0,
            "data: "@ + json_text(numbered(events.last(), (events.len() - 1) as nat)),
            Seq::empty(),
        ]
    }
}

/// The lines of a whole stream: its events, then the mark at its end.
pub open spec fn stream_lines(events: Seq<Event>) -> Seq<Seq<char>> {
    event_lines(events) + seq!["data: [DONE]"@, Seq::empty(), Seq::empty()]
}

/// Neither the names nor the data of the events have a line break.
pub open spec fn are_one_line(events: Seq<Event>) -> bool {
    forall|k: int|
        0 <= k < events.len() ==> is_one_line((#[trigger] events[k]).0) && is_one_line(
            json_text(numbered(events[k], k as nat)),
        )
}

proof fn a_frame_is_lines(start: Seq<char>, lines: Seq<Seq<char>>, name: Seq<char>, data: Seq<char>)
    requires
        split(start, '\n') == lines.push(Seq::empty()),
        is_one_line(name),
        is_one_line(data),
    ensures
        split(start + ("event: "@ + name + "\ndata: "@ + data + "\n\n"@), '\n') == (lines + seq![
            "event: "@ + name,
            "data: "@ + data,
            Seq::empty(),
        ]).push(Seq::empty()),
{
    let first = "event: "@ + name;
    let second = "data: "@ + data;
    let empty = Seq::<char>::empty();
    let named = start + first.push('\n');
    let told = named + second.push('\n');
    assert(is_one_line(first)) by {
        reveal_strlit("event: ");
    }
    assert(is_one_line(second)) by {
        reveal_strlit("data: ");
    }
    assert(start + (first + "\ndata: "@ + data + "\n\n"@) =~= told + empty.push('\n')) by {
        reveal_strlit("data: ");
        reveal_strlit("\ndata: ");
        reveal_strlit("\n\n");
        assert("\ndata: "@ =~= seq!['\n'] + "data: "@);
        assert("\n\n"@ =~= seq!['\n', '\n']);
    }
    assert(split(start, '\n').drop_last() =~= lines);
    split_takes_a_line(start, first);
    assert(split(named, '\n').drop_last() =~= lines.push(first));
    split_takes_a_line(named, second);
    assert(split(told, '\n').drop_last() =~= lines.push(first).push(second));
    split_takes_a_line(told, empty);
    assert(lines.push(first).push(second).push(empty) =~= lines + seq![first, second, empty]);
}

/// The frames of events without line breaks, taken apart at the line breaks, are
/// the lines of the events.
pub proof fn frames_are_lines(events: Seq<Event>)
    requires
        are_one_line(events),
    ensures
        split(frames(events), '\n') == event_lines(events).push(Seq::empty()),
    decreases events.len(),
{
    if events.len() == 0 {
        assert(split(frames(events), '\n') =~= event_lines(events).push(Seq::empty()));
    } else {
        let before = events.drop_last();
        let last = events.last();
        assert(last == events[events.len() - 1]);
        assert forall|k: int| 0 <= k < before.len() implies is_one_line(
            (#[trigger] before[k]).0,
        ) && is_one_line(json_text(numbered(before[k], k as nat))) by {
            assert(before[k] == events[k]);
        }
        frames_are_lines(before);
        a_frame_is_lines(
            frames(before),
            event_lines(before),
            last.0,
            json_text(numbered(last, (events.len() - 1) as nat)),
        );
    }
}

proof fn the_stream_is_lines(events: Seq<Event>)
    requires
        are_one_line(events),
    ensures
        split(frames(events) + DONE_FRAME@, '\n') == stream_lines(events),
{
    let start = frames(events);
    let empty = Seq::<char>::empty();
    reveal_strlit("data: [DONE]");
    reveal_strlit("data: [DONE]\n\n");
    frames_are_lines(events);
    let marked = start + "data: [DONE]"@.push('\n');
    split_takes_a_line(start, "data: [DONE]"@);
    split_takes_a_line(marked, empty);
    assert(start + DONE_FRAME@ =~= marked + empty.push('\n'));
    assert(split(start + DONE_FRAME@, '\n') =~= stream_lines(events));
}

/// The last event of a stream of an answer, as it is written.
pub open spec fn last_event_data(response: Members, incomplete: bool) -> Tree {
    numbered(
        response_event(terminal_name(incomplete), ended(response, incomplete)),
        (answer_events(response, incomplete).len() - 1) as nat,
    )
}

proof fn the_last_event_is_plain(response: Members, incomplete: bool)
    requires
        is_plain(Tree::Object(response), (DEPTH_LIMIT - 1) as nat),
    ensures
        is_plain(last_event_data(response, incomplete), DEPTH_LIMIT as nat),
{
    reveal_strlit("$serde_json::private::RawValue");
    reveal_strlit("status");
    reveal_strlit("type");
    reveal_strlit("response");
    reveal_strlit("sequence_number");
    let whole = ended(response, incomplete);
    assert forall|key: Seq<char>| #[trigger] whole.dom().contains(key) implies key
        != "$serde_json::private::RawValue"@ && is_plain(
        whole[key],
        (DEPTH_LIMIT - 2) as nat,
    ) by {
        if key == "status"@ {
            assert(key[0] != '$');
            assert("$serde_json::private::RawValue"@[0] == '$');
        } else {
            a_member_is_plain(response, key, (DEPTH_LIMIT - 1) as nat);
        }
    }
    let event = last_event_data(response, incomplete)->Object_0;
    assert forall|key: Seq<char>| #[trigger] event.dom().contains(key) implies key
        != "$serde_json::private::RawValue"@ && is_plain(
        event[key],
        (DEPTH_LIMIT - 1) as nat,
    ) by {
        assert(key == "response"@ || key == "type"@ || key == "sequence_number"@);
        assert(key[0] != '$');
    }
}

proof fn the_last_event_is_final(response: Members, incomplete: bool)
    requires
        is_text_of(
            json_text(last_event_data(response, incomplete)),
            last_event_data(response, incomplete)->Object_0,
        ),
    ensures
        is_read_as(
            events_read(answer_events(response, incomplete)),
            incomplete,
            ended(response, incomplete),
        ),
{
    let events = answer_events(response, incomplete);
    let read = events_read(events);
    let event = last_event_data(response, incomplete)->Object_0;
    reveal_strlit("type");
    reveal_strlit("response");
    reveal_strlit("sequence_number");
    reveal_strlit("response.completed");
    reveal_strlit("response.incomplete");
    assert("type"@.len() == 4 && "response"@.len() == 8 && "sequence_number"@.len() == 15);
    assert("response.completed"@.len() == 18 && "response.incomplete"@.len() == 19);
    assert(events.last() == response_event(
        terminal_name(incomplete),
        ended(response, incomplete),
    ));
    assert(read.last() == (Some(terminal_name(incomplete)), json_text(Tree::Object(event))));
    trimmed_stays(terminal_name(incomplete));
    assert(text_member(event, "type"@) == terminal_name(incomplete));
    assert(last_final_event(read) == Some(event));
}

/// A stream of events is read as an answer, complete or not.
pub open spec fn is_read_as(
    events: Seq<(Option<Seq<char>>, Seq<char>)>,
    incomplete: bool,
    response: Members,
) -> bool {
    last_final_event(events) is Some && terminal_of_event(last_final_event(events)->0)
        == (TerminalView::Response { incomplete, response })
}

/// A stream under way: its text and how many events it has.
struct Stream {
    text: String,
    count: u64,
}

spec fn holds(stream: Stream, events: Seq<Event>) -> bool {
    stream.text@ == frames(events) && stream.count == events.len() && are_one_line(events)
}

fn write_sse(text: String, event: &str, value: &Json) -> (r: String)
    ensures
        r@ == text@ + frame(event@, value@),
        is_one_line(json_text(value@)),
        value@ is Object && is_plain(value@, DEPTH_LIMIT as nat) ==> is_text_of(
            json_text(value@),
            value@->Object_0,
        ),
{
    let mut one = glue("event: ", event);
    one.append("\ndata: ");
    one.append(render(value).as_str());
    one.append("\n\n");
    glue(text.as_str(), one.as_str())
}

fn emit_sse(stream: Stream, event: &str, value: JsonObject, Ghost(events): Ghost<Seq<Event>>) -> (r:
    Stream)
    requires
        holds(stream, events),
        events.len() < u64::MAX,
        is_one_line(event@),
    ensures
        holds(r, events.push((event@, value@))),
        is_plain(numbered((event@, value@), events.len()), DEPTH_LIMIT as nat) ==> is_text_of(
            json_text(numbered((event@, value@), events.len())),
            numbered((event@, value@), events.len())->Object_0,
        ),
{
    let Stream { text, count } = stream;
    let ghost said = value@;
    let value = value.insert("type", Json::Text(event.to_owned())).insert(
        "sequence_number",
        Json::Number(JsonNumber::Unsigned(count)),
    );
    let text = write_sse(text, event, &Json::Object(value));
    proof {
        let more = events.push((event@, said));
        assert(more.drop_last() =~= events);
        assert(more.last() == (event@, said));
        assert forall|k: int| 0 <= k < more.len() implies is_one_line(
            (#[trigger] more[k]).0,
        ) && is_one_line(json_text(numbered(more[k], k as nat))) by {
            if k < events.len() {
                assert(more[k] == events[k]);
            }
        }
    }
    Stream { text, count: count + 1 }
}

fn index_json(index: usize) -> (r: Json)
    ensures
        r@ == index_tree(index as int),
{
    Json::Number(JsonNumber::Unsigned(index as u64))
}

fn announced_item(item: &JsonObject) -> (r: JsonObject)
    ensures
        r@ == announced(item@),
{
    let kind = item.text_at("type");
    let field = if same_text(kind.as_str(), "function_call") {
        "arguments"
    } else if same_text(kind.as_str(), "custom_tool_call") {
        "input"
    } else {
        return item.copy();
    };
    item.copy().insert(field, Json::Text(String::new())).insert(
        "status",
        Json::Text("in_progress".to_owned()),
    )
}

fn emit_payload(
    stream: Stream,
    index: usize,
    item: &JsonObject,
    field: &str,
    name: &str,
    Ghost(events): Ghost<Seq<Event>>,
) -> (r: Stream)
    requires
        holds(stream, events),
        events.len() + 2 < u64::MAX,
        payload_field(item@) == Some((field@, name@)),
    ensures
        holds(r, events + payload_events(index as int, item@)),
{
    let text = item.text_at(field);
    let mut stream = stream;
    proof {
        reveal_strlit("response.function_call_arguments");
        reveal_strlit("response.custom_tool_call_input");
        reveal_strlit(".delta");
        reveal_strlit(".done");
    }
    let ghost mut sent = events;
    if !text.as_str().is_empty() {
        let delta = JsonObject::new().insert("output_index", index_json(index)).insert(
            "item_id",
            item.value_or_null("id"),
        ).insert("delta", Json::Text(text.clone()));
        let ghost said = delta@;
        let delta_name = glue(name, ".delta");
        stream = emit_sse(stream, delta_name.as_str(), delta, Ghost(sent));
        proof {
            sent = sent.push((name@ + ".delta"@, said));
        }
    }
    let done = JsonObject::new().insert("output_index", index_json(index)).insert(
        "item_id",
        item.value_or_null("id"),
    ).insert(field, Json::Text(text));
    let ghost said = done@;
    let done_name = glue(name, ".done");
    stream = emit_sse(stream, done_name.as_str(), done, Ghost(sent));
    proof {
        sent = sent.push((name@ + ".done"@, said));
        assert(sent =~= events + payload_events(index as int, item@));
    }
    stream
}

fn emit_item(stream: Stream, index: usize, value: &Json, Ghost(events): Ghost<Seq<Event>>) -> (r:
    Stream)
    requires
        holds(stream, events),
        events.len() + 4 < u64::MAX,
    ensures
        holds(r, events + item_events(index as int, value@)),
{
    let item = match value {
        Json::Object(item) => item,
        _ => {
            assert(events + item_events(index as int, value@) =~= events);
            return stream;
        },
    };
    proof {
        reveal_strlit("response.output_item.added");
        reveal_strlit("response.output_item.done");
    }
    let added = JsonObject::new().insert("output_index", index_json(index)).insert(
        "item",
        Json::Object(announced_item(item)),
    );
    let stream = emit_sse(stream, "response.output_item.added", added, Ghost(events));
    let ghost first = item_event(
        "response.output_item.added"@,
        index as int,
        Tree::Object(announced(item@)),
    );
    let ghost begun_events = events.push(first);
    let kind = item.text_at("type");
    let stream = if same_text(kind.as_str(), "function_call") {
        emit_payload(
            stream,
            index,
            item,
            "arguments",
            "response.function_call_arguments",
            Ghost(begun_events),
        )
    } else if same_text(kind.as_str(), "custom_tool_call") {
        emit_payload(
            stream,
            index,
            item,
            "input",
            "response.custom_tool_call_input",
            Ghost(begun_events),
        )
    } else {
        assert(begun_events + payload_events(index as int, item@) =~= begun_events);
        stream
    };
    let ghost middle = begun_events + payload_events(index as int, item@);
    let done = JsonObject::new().insert("output_index", index_json(index)).insert(
        "item",
        value.copy(),
    );
    let stream = emit_sse(stream, "response.output_item.done", done, Ghost(middle));
    proof {
        let last = item_event("response.output_item.done"@, index as int, value@);
        assert(middle.push(last) =~= events + item_events(index as int, value@));
    }
    stream
}

proof fn output_events_are_few(output: Seq<Tree>)
    ensures
        output_events(output).len() <= 4 * output.len(),
    decreases output.len(),
{
    if output.len() > 0 {
        output_events_are_few(output.drop_last());
    }
}

/// The event stream of a finished answer: it begins, each output item comes with
/// what it holds, and it ends completed or incomplete. Where the answer can be
/// written and read again, one who reads the events finds it as it was, with its
/// status. The text is made of lines as events are written in: none of them is
/// broken in two.
#[verifier::loop_isolation(false)]
pub fn synthetic_sse(response: &JsonObject, incomplete: bool) -> (r: Vec<u8>)
    requires
        4 * output_of(response@).len() + 8 < u64::MAX,
    ensures
        r@ == encode_utf8(frames(answer_events(response@, incomplete)) + DONE_FRAME@),
        split(frames(answer_events(response@, incomplete)) + DONE_FRAME@, '\n') == stream_lines(
            answer_events(response@, incomplete),
        ),
        is_plain(Tree::Object(response@), (DEPTH_LIMIT - 1) as nat) ==> is_read_as(
            events_read(answer_events(response@, incomplete)),
            incomplete,
            ended(response@, incomplete),
        ),
{
    broadcast use array_view;

    proof {
        reveal_strlit("response.created");
        reveal_strlit("response.in_progress");
        reveal_strlit("response.completed");
        reveal_strlit("response.incomplete");
    }
    let none: Vec<Json> = Vec::new();
    assert(trees(none@) =~= Seq::empty());
    let started = response.copy().insert("status", Json::Text("in_progress".to_owned())).insert(
        "output",
        Json::Array(none),
    );
    let created = JsonObject::new().insert("response", Json::Object(started.copy()));
    let in_progress = JsonObject::new().insert("response", Json::Object(started));
    let stream = Stream { text: String::new(), count: 0 };
    let ghost mut sent: Seq<Event> = Seq::empty();
    let stream = emit_sse(stream, "response.created", created, Ghost(sent));
    proof {
        sent = sent.push(response_event("response.created"@, begun(response@)));
    }
    let mut stream = emit_sse(stream, "response.in_progress", in_progress, Ghost(sent));
    proof {
        sent = sent.push(response_event("response.in_progress"@, begun(response@)));
    }
    let ghost opening = sent;
    let ghost output = output_of(response@);
    if let Some(items) = response.array_at("output") {
        let mut i: usize = 0;
        proof {
            assert(output.take(0) =~= Seq::empty());
            assert(opening + output_events(Seq::empty()) =~= opening);
        }
        while i < items.len()
            invariant
                i <= items@.len(),
                output == trees(items@),
                sent == opening + output_events(output.take(i as int)),
                holds(stream, sent),
            decreases items@.len() - i,
        {
            proof {
                assert(output.take(i + 1).drop_last() =~= output.take(i as int));
                assert(output.take(i + 1).last() == items@[i as int]@);
                output_events_are_few(output.take(i as int));
            }
            stream = emit_item(stream, i, &items[i], Ghost(sent));
            proof {
                let added = item_events(i as int, items@[i as int]@);
                assert(sent + added =~= opening + output_events(output.take(i + 1)));
                sent = sent + added;
            }
            i += 1;
        }
        proof {
            assert(output.take(items@.len() as int) =~= output);
        }
    } else {
        proof {
            assert(opening + output_events(output) =~= opening);
        }
    }
    let status = if incomplete {
        "incomplete"
    } else {
        "completed"
    };
    let name = if incomplete {
        "response.incomplete"
    } else {
        "response.completed"
    };
    let finished = response.copy().insert("status", Json::Text(status.to_owned()));
    let last = JsonObject::new().insert("response", Json::Object(finished));
    proof {
        output_events_are_few(output);
    }
    let stream = emit_sse(stream, name, last, Ghost(sent));
    proof {
        assert(sent.push(response_event(terminal_name(incomplete), ended(response@, incomplete)))
            =~= answer_events(response@, incomplete));
        the_stream_is_lines(answer_events(response@, incomplete));
        if is_plain(Tree::Object(response@), (DEPTH_LIMIT - 1) as nat) {
            the_last_event_is_plain(response@, incomplete);
            the_last_event_is_final(response@, incomplete);
        }
    }
    let whole = glue(stream.text.as_str(), DONE_FRAME);
    whole.as_str().as_bytes_vec()
}

pub open spec fn failure_name(event: Members) -> Seq<char> {
    if text_member(event, "type"@).len() == 0 {
        "error"@
    } else {
        text_member(event, "type"@)
    }
}

/// The stream of a single failure event, as it came.
pub fn terminal_event_sse(event: &JsonObject) -> (r: Vec<u8>)
    ensures
        r@ == encode_utf8(frame(failure_name(event@), Tree::Object(event@)) + DONE_FRAME@),
{
    let mut name = event.text_at("type");
    if name.as_str().is_empty() {
        name = "error".to_owned();
    }
    let text = write_sse(String::new(), name.as_str(), &Json::Object(event.copy()));
    proof {
        assert(text@ =~= frame(failure_name(event@), Tree::Object(event@)));
    }
    let whole = glue(text.as_str(), DONE_FRAME);
    whole.as_str().as_bytes_vec()
}

/// A stream begins with the answer under way and ends with the answer as it is,
/// and each output object is shown whole, under its index, in its `done` event.
pub proof fn the_stream_shows_the_whole_answer(response: Members, incomplete: bool, index: int)
    requires
        0 <= index < output_of(response).len(),
        output_of(response)[index] is Object,
    ensures
        answer_events(response, incomplete)[0] == response_event(
            "response.created"@,
            begun(response),
        ),
        answer_events(response, incomplete).last() == response_event(
            terminal_name(incomplete),
            ended(response, incomplete),
        ),
        answer_events(response, incomplete).contains(
            item_event("response.output_item.done"@, index, output_of(response)[index]),
        ),
{
    let output = output_of(response);
    let event = item_event("response.output_item.done"@, index, output[index]);
    item_is_among_output_events(output, index);
    let k = choose|k: int| 0 <= k < output_events(output).len() && output_events(output)[k] == event;
    assert(answer_events(response, incomplete)[k + 2] == event);
}

proof fn item_is_among_output_events(output: Seq<Tree>, index: int)
    requires
        0 <= index < output.len(),
        output[index] is Object,
    ensures
        output_events(output).contains(
            item_event("response.output_item.done"@, index, output[index]),
        ),
    decreases output.len(),
{
    let event = item_event("response.output_item.done"@, index, output[index]);
    let before = output_events(output.drop_last());
    let added = item_events(output.len() - 1, output.last());
    if index == output.len() - 1 {
        assert(added[added.len() - 1] == event);
        assert(output_events(output)[before.len() + added.len() - 1] == event);
    } else {
        item_is_among_output_events(output.drop_last(), index);
        assert(output.drop_last()[index] == output[index]);
        let k = choose|k: int| 0 <= k < before.len() && before[k] == event;
        assert(output_events(output)[k] == event);
    }
}

} // verus!

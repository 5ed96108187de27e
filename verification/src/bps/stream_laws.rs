//! What the stream of an answer shows of the answer.

use crate::bps::laws::trimming_takes_the_core;
use crate::bps::response::output_of;
use crate::bps::sse::{
    answer_events, are_one_line, event_lines, failure_name, frame, frames, frames_are_lines,
    index_tree, item_events, numbered, output_events, Event,
};
use crate::json::{json_text, member_or_null, text_member, Members, NumberView, Tree};
use crate::text::{is_space, is_trimmed, split, trimmed_stays};
use vstd::prelude::*;

verus! {

/// Where the events of an output item begin.
spec fn start_of(output: Seq<Tree>, index: int) -> int {
    2 + output_events(output.take(index)).len() as int
}

proof fn item_events_are_in_place(output: Seq<Tree>, index: int)
    requires
        0 <= index < output.len(),
    ensures
        ({
            let b = output_events(output.take(index)).len() as int;
            let block = item_events(index, output[index]);
            &&& b + block.len() <= output_events(output).len()
            &&& forall|k: int|
                0 <= k < block.len() ==> #[trigger] output_events(output)[b + k] == block[k]
        }),
    decreases output.len(),
{
    let fewer = output.drop_last();
    let last = item_events(output.len() - 1, output.last());
    if index == output.len() - 1 {
        assert(output.take(index) =~= fewer);
    } else {
        item_events_are_in_place(fewer, index);
        assert(fewer.take(index) =~= output.take(index));
        assert(fewer[index] == output[index]);
        let b = output_events(output.take(index)).len() as int;
        let block = item_events(index, output[index]);
        assert forall|k: int| 0 <= k < block.len() implies #[trigger] output_events(output)[b + k]
            == block[k] by {
            assert(output_events(fewer)[b + k] == block[k]);
        }
    }
}

proof fn item_events_carry_their_index(index: int, value: Tree)
    ensures
        forall|k: int|
            0 <= k < item_events(index, value).len() ==> (#[trigger] item_events(
                index,
                value,
            )[k]).1.dom().contains("output_index"@) && item_events(index, value)[k].1["output_index"@]
                == index_tree(index),
{
    words_of_events();
}

proof fn indices_are_inside(output: Seq<Tree>, k: int)
    requires
        0 <= k < output_events(output).len(),
    ensures
        output_events(output)[k].1.dom().contains("output_index"@),
        exists|j: int|
            0 <= j < output.len() && output_events(output)[k].1["output_index"@] == #[trigger] index_tree(
                j,
            ),
    decreases output.len(),
{
    let fewer = output.drop_last();
    let before = output_events(fewer);
    item_events_carry_their_index(output.len() - 1, output.last());
    if k < before.len() {
        indices_are_inside(fewer, k);
    } else {
        assert(output_events(output)[k] == item_events(output.len() - 1, output.last())[k
            - before.len()]);
        assert(output_events(output)[k].1["output_index"@] == index_tree(output.len() - 1));
    }
}

proof fn events_of_an_index_are_together(output: Seq<Tree>, index: int, k: int)
    requires
        0 <= index < output.len(),
        0 <= k < output_events(output).len(),
        output_events(output)[k].1["output_index"@] == index_tree(index),
    ensures
        ({
            let b = output_events(output.take(index)).len() as int;
            b <= k < b + item_events(index, output[index]).len()
        }),
    decreases output.len(),
{
    let fewer = output.drop_last();
    let before = output_events(fewer);
    item_events_carry_their_index(output.len() - 1, output.last());
    if k < before.len() {
        indices_are_inside(fewer, k);
        if index < fewer.len() {
            events_of_an_index_are_together(fewer, index, k);
            assert(fewer.take(index) =~= output.take(index));
            assert(fewer[index] == output[index]);
        } else {
            let j = choose|j: int|
                0 <= j < fewer.len() && before[k].1["output_index"@] == #[trigger] index_tree(j);
            assert(index_tree(j) == index_tree(index));
            assert(false);
        }
    } else {
        assert(output_events(output)[k] == item_events(output.len() - 1, output.last())[k
            - before.len()]);
        assert(index == output.len() - 1);
        assert(output.take(index) =~= fewer);
    }
}

proof fn words_of_events()
    ensures
        "output_index"@ != "item"@ && "output_index"@ != "item_id"@ && "output_index"@ != "delta"@
            && "output_index"@ != "arguments"@ && "output_index"@ != "input"@,
        "item_id"@ != "delta"@ && "item_id"@ != "arguments"@ && "item_id"@ != "input"@,
        "function_call"@ != "custom_tool_call"@,
        is_trimmed("function_call"@) && is_trimmed("custom_tool_call"@),
        "arguments"@ != "status"@ && "input"@ != "status"@ && "arguments"@ != "input"@,
{
    reveal_strlit("output_index");
    reveal_strlit("item");
    reveal_strlit("item_id");
    reveal_strlit("delta");
    reveal_strlit("arguments");
    reveal_strlit("input");
    reveal_strlit("status");
    reveal_strlit("function_call");
    reveal_strlit("custom_tool_call");
    assert("output_index"@[0] == 'o' && "item"@[0] == 'i' && "item_id"@[0] == 'i' && "delta"@[0]
        == 'd' && "arguments"@[0] == 'a' && "input"@[0] == 'i' && "status"@[0] == 's');
    assert("item_id"@.len() == 7 && "input"@.len() == 5);
    assert("function_call"@[0] == 'f' && "custom_tool_call"@[0] == 'c');
}

proof fn names_of_events()
    ensures
        "response.function_call_arguments"@ + ".delta"@
            =~= "response.function_call_arguments.delta"@,
        "response.function_call_arguments"@ + ".done"@ =~= "response.function_call_arguments.done"@,
        "response.custom_tool_call_input"@ + ".delta"@ =~= "response.custom_tool_call_input.delta"@,
        "response.custom_tool_call_input"@ + ".done"@ =~= "response.custom_tool_call_input.done"@,
        "response.function_call_arguments.delta"@.len() == 38,
        "response.function_call_arguments.done"@.len() == 37,
        "response.custom_tool_call_input.delta"@.len() == 37,
        "response.custom_tool_call_input.done"@.len() == 36,
        "response.custom_tool_call_input.delta"@[9] == 'c',
        "response.function_call_arguments.done"@[9] == 'f',
        "response.output_item.added"@.len() == 26,
        "response.output_item.done"@.len() == 25,
        "response.created"@.len() == 16,
        "response.in_progress"@.len() == 20,
        "response.completed"@.len() == 18,
        "response.incomplete"@.len() == 19,
{
    reveal_strlit("response.function_call_arguments");
    reveal_strlit("response.custom_tool_call_input");
    reveal_strlit(".delta");
    reveal_strlit(".done");
    reveal_strlit("response.function_call_arguments.delta");
    reveal_strlit("response.function_call_arguments.done");
    reveal_strlit("response.custom_tool_call_input.delta");
    reveal_strlit("response.custom_tool_call_input.done");
    reveal_strlit("response.output_item.added");
    reveal_strlit("response.output_item.done");
    reveal_strlit("response.created");
    reveal_strlit("response.in_progress");
    reveal_strlit("response.completed");
    reveal_strlit("response.incomplete");
}

proof fn an_event_of_the_stream(response: Members, incomplete: bool, output: Seq<Tree>, k: int)
    requires
        response.dom().contains("output"@),
        response["output"@] == Tree::Array(output),
    ensures
        answer_events(response, incomplete).len() == output_events(output).len() + 3,
        0 <= k < output_events(output).len() ==> answer_events(response, incomplete)[k + 2]
            == output_events(output)[k],
{
    assert(output_of(response) == output);
}

/// A call of the client's tools comes in four events one after the other: it is
/// announced without what it is made with and as in progress, then its text comes,
/// once as a piece and once whole, and then the call as it is. The pieces of a call
/// are this one. `text` is what a function is called with, or the input of a custom
/// tool, without the space around it.
pub proof fn a_call_comes_with_what_it_is_made_with(
    response: Members,
    incomplete: bool,
    output: Seq<Tree>,
    index: int,
    item: Members,
    custom: bool,
    before: Seq<char>,
    text: Seq<char>,
    after: Seq<char>,
)
    requires
        response.dom().contains("output"@),
        response["output"@] == Tree::Array(output),
        0 <= index < output.len(),
        output[index] == Tree::Object(item),
        item.dom().contains("type"@),
        item["type"@] == Tree::Text(
            if custom {
                "custom_tool_call"@
            } else {
                "function_call"@
            },
        ),
        ({
            let field = if custom {
                "input"@
            } else {
                "arguments"@
            };
            item.dom().contains(field) && item[field] == Tree::Text(before + text + after)
        }),
        forall|i: int| 0 <= i < before.len() ==> is_space(#[trigger] before[i]),
        forall|i: int| 0 <= i < after.len() ==> is_space(#[trigger] after[i]),
        text.len() > 0,
        !is_space(text[0]),
        !is_space(text.last()),
    ensures
        ({
            let events = answer_events(response, incomplete);
            let place = Tree::Number(NumberView::Unsigned(index as nat));
            let id = if item.dom().contains("id"@) {
                item["id"@]
            } else {
                Tree::Null
            };
            let field = if custom {
                "input"@
            } else {
                "arguments"@
            };
            let piece = if custom {
                "response.custom_tool_call_input.delta"@
            } else {
                "response.function_call_arguments.delta"@
            };
            let whole = if custom {
                "response.custom_tool_call_input.done"@
            } else {
                "response.function_call_arguments.done"@
            };
            exists|a: int|
                {
                    &&& 2 <= a && a + 4 < events.len()
                    &&& (#[trigger] events[a]).0 == "response.output_item.added"@
                    &&& events[a].1 == map![
                        "output_index"@ => place,
                        "item"@ => Tree::Object(
                            item.insert(field, Tree::Text(Seq::empty())).insert(
                                "status"@,
                                Tree::Text("in_progress"@),
                            ),
                        ),
                    ]
                    &&& events[a + 1].0 == piece
                    &&& events[a + 1].1 == map![
                        "output_index"@ => place,
                        "item_id"@ => id,
                        "delta"@ => Tree::Text(text),
                    ]
                    &&& events[a + 2].0 == whole
                    &&& events[a + 2].1 == map![
                        "output_index"@ => place,
                        "item_id"@ => id,
                        field => Tree::Text(text),
                    ]
                    &&& events[a + 3].0 == "response.output_item.done"@
                    &&& events[a + 3].1 == map![
                        "output_index"@ => place,
                        "item"@ => Tree::Object(item),
                    ]
                    &&& forall|k: int|
                        0 <= k < events.len() && (#[trigger] events[k]).1.dom().contains(
                            "output_index"@,
                        ) && events[k].1["output_index"@] == place ==> a <= k < a + 4
                }
        }),
{
    words_of_events();
    names_of_events();
    trimming_takes_the_core(before, text, after);
    trimmed_stays("function_call"@);
    trimmed_stays("custom_tool_call"@);
    let events = answer_events(response, incomplete);
    let a = start_of(output, index);
    let block = item_events(index, output[index]);
    let field = if custom {
        "input"@
    } else {
        "arguments"@
    };
    assert(text_member(item, field) == text);
    assert(block.len() == 4);
    item_events_are_in_place(output, index);
    assert forall|k: int| 0 <= k < 4 implies #[trigger] events[a + k] == block[k] by {
        an_event_of_the_stream(response, incomplete, output, a - 2 + k);
        assert(output_events(output)[a - 2 + k] == block[k]);
    }
    assert(events[a + 0] == block[0]);
    an_event_of_the_stream(response, incomplete, output, 0);
    assert(events[a + 1].1 =~= map![
        "output_index"@ => index_tree(index),
        "item_id"@ => member_or_null(item, "id"@),
        "delta"@ => Tree::Text(text),
    ]);
    assert(events[a + 2].1 =~= map![
        "output_index"@ => index_tree(index),
        "item_id"@ => member_or_null(item, "id"@),
        field => Tree::Text(text),
    ]);
    assert forall|k: int|
        0 <= k < events.len() && (#[trigger] events[k]).1.dom().contains("output_index"@)
            && events[k].1["output_index"@] == index_tree(index) implies a <= k < a + 4 by {
        reveal_strlit("response");
        reveal_strlit("output_index");
        assert("response"@.len() == 8 && "output_index"@.len() == 12);
        an_event_of_the_stream(response, incomplete, output, k - 2);
        if 2 <= k < events.len() - 1 {
            events_of_an_index_are_together(output, index, k - 2);
        }
    }
}

/// A call that is made with nothing is announced, comes with an empty text, and then
/// as it is.
pub proof fn a_call_made_with_nothing_comes_with_an_empty_text(
    response: Members,
    incomplete: bool,
    output: Seq<Tree>,
    index: int,
    item: Members,
)
    requires
        response.dom().contains("output"@),
        response["output"@] == Tree::Array(output),
        0 <= index < output.len(),
        output[index] == Tree::Object(item),
        item.dom().contains("type"@),
        item["type"@] == Tree::Text("function_call"@),
        item.dom().contains("arguments"@) ==> item["arguments"@] == Tree::Text(Seq::empty()),
    ensures
        ({
            let events = answer_events(response, incomplete);
            exists|a: int|
                {
                    &&& 2 <= a && a + 3 < events.len()
                    &&& (#[trigger] events[a]).0 == "response.output_item.added"@
                    &&& events[a + 1].0 == "response.function_call_arguments.done"@
                    &&& events[a + 1].1["output_index"@] == Tree::Number(
                        NumberView::Unsigned(index as nat),
                    )
                    &&& events[a + 1].1["arguments"@] == Tree::Text(Seq::empty())
                    &&& events[a + 2].0 == "response.output_item.done"@
                    &&& events[a + 2].1["item"@] == Tree::Object(item)
                }
        }),
{
    words_of_events();
    names_of_events();
    trimmed_stays("function_call"@);
    trimmed_stays(Seq::<char>::empty());
    let events = answer_events(response, incomplete);
    let a = start_of(output, index);
    let block = item_events(index, output[index]);
    assert(text_member(item, "arguments"@).len() == 0);
    assert(block.len() == 3);
    item_events_are_in_place(output, index);
    assert forall|k: int| 0 <= k < 3 implies #[trigger] events[a + k] == block[k] by {
        an_event_of_the_stream(response, incomplete, output, a - 2 + k);
        assert(output_events(output)[a - 2 + k] == block[k]);
    }
    assert(events[a + 0] == block[0]);
    assert(events[a + 1] == block[1]);
    assert(events[a + 2] == block[2]);
    an_event_of_the_stream(response, incomplete, output, 0);
}

/// An output object that is no call is shown twice as it is: when it begins and when
/// it is done.
pub proof fn other_output_is_shown_as_it_is(
    response: Members,
    incomplete: bool,
    output: Seq<Tree>,
    index: int,
    item: Members,
    kind: Seq<char>,
)
    requires
        response.dom().contains("output"@),
        response["output"@] == Tree::Array(output),
        0 <= index < output.len(),
        output[index] == Tree::Object(item),
        item.dom().contains("type"@),
        item["type"@] == Tree::Text(kind),
        is_trimmed(kind),
        kind != "function_call"@ && kind != "custom_tool_call"@,
    ensures
        ({
            let events = answer_events(response, incomplete);
            let said = map![
                "output_index"@ => Tree::Number(NumberView::Unsigned(index as nat)),
                "item"@ => Tree::Object(item),
            ];
            exists|a: int|
                {
                    &&& 2 <= a && a + 2 < events.len()
                    &&& #[trigger] events[a] == ("response.output_item.added"@, said)
                    &&& events[a + 1] == ("response.output_item.done"@, said)
                }
        }),
{
    trimmed_stays(kind);
    let events = answer_events(response, incomplete);
    let a = start_of(output, index);
    let block = item_events(index, output[index]);
    assert(block.len() == 2);
    item_events_are_in_place(output, index);
    assert forall|k: int| 0 <= k < 2 implies #[trigger] events[a + k] == block[k] by {
        an_event_of_the_stream(response, incomplete, output, a - 2 + k);
        assert(output_events(output)[a - 2 + k] == block[k]);
    }
    assert(events[a + 0] == block[0]);
    assert(events[a + 1] == block[1]);
    an_event_of_the_stream(response, incomplete, output, 0);
}

/// A stream opens with the answer under way, told twice, without output, and closes
/// with the whole answer and how it ended. All else of the answer is told as it is.
pub proof fn a_stream_opens_and_closes_with_the_answer(response: Members, incomplete: bool)
    ensures
        ({
            let events = answer_events(response, incomplete);
            let open = Tree::Object(
                response.insert("status"@, Tree::Text("in_progress"@)).insert(
                    "output"@,
                    Tree::Array(Seq::empty()),
                ),
            );
            let end = if incomplete {
                "incomplete"@
            } else {
                "completed"@
            };
            &&& events.len() >= 3
            &&& events[0] == ("response.created"@, map!["response"@ => open])
            &&& events[1] == ("response.in_progress"@, map!["response"@ => open])
            &&& events.last().0 == "response."@ + end
            &&& events.last().1 == map![
                "response"@ => Tree::Object(response.insert("status"@, Tree::Text(end))),
            ]
        }),
{
    reveal_strlit("response.");
    reveal_strlit("incomplete");
    reveal_strlit("completed");
    reveal_strlit("response.incomplete");
    reveal_strlit("response.completed");
    assert("response."@ + "incomplete"@ =~= "response.incomplete"@);
    assert("response."@ + "completed"@ =~= "response.completed"@);
}

/// The data of an event say what the event says, its name, and its place in the
/// stream.
pub proof fn an_event_tells_its_name_and_place(event: Event, place: nat, key: Seq<char>)
    ensures
        numbered(event, place) is Object,
        numbered(event, place)->Object_0["type"@] == Tree::Text(event.0),
        numbered(event, place)->Object_0["sequence_number"@] == Tree::Number(
            NumberView::Unsigned(place),
        ),
        numbered(event, place)->Object_0.dom() == event.1.dom().insert("type"@).insert(
            "sequence_number"@,
        ),
        key != "type"@ && key != "sequence_number"@ && event.1.dom().contains(key) ==> numbered(
            event,
            place,
        )->Object_0[key] == event.1[key],
{
    reveal_strlit("type");
    reveal_strlit("sequence_number");
    assert("type"@.len() == 4 && "sequence_number"@.len() == 15);
    assert(numbered(event, place)->Object_0.dom() =~= event.1.dom().insert("type"@).insert(
        "sequence_number"@,
    ));
}

proof fn the_lines_of_an_event(events: Seq<Event>, k: int)
    requires
        0 <= k < events.len(),
    ensures
        event_lines(events).len() == 3 * events.len(),
        event_lines(events)[3 * k] == "event: "@ + events[k].0,
        event_lines(events)[3 * k + 1] == "data: "@ + json_text(numbered(events[k], k as nat)),
        event_lines(events)[3 * k + 2] == Seq::<char>::empty(),
    decreases events.len(),
{
    let fewer = events.drop_last();
    if fewer.len() > 0 {
        the_lines_of_an_event(fewer, 0);
        if k < fewer.len() {
            the_lines_of_an_event(fewer, k);
            assert(fewer[k] == events[k]);
        }
    }
    assert(event_lines(fewer).len() == 3 * fewer.len());
}

/// An event takes three lines: its name, its data, and an empty one.
pub proof fn an_event_takes_three_lines(events: Seq<Event>, k: int)
    requires
        are_one_line(events),
        0 <= k < events.len(),
    ensures
        split(frames(events), '\n').len() == 3 * events.len() + 1,
        split(frames(events), '\n')[3 * k] == "event: "@ + events[k].0,
        split(frames(events), '\n')[3 * k + 1] == "data: "@ + json_text(
            numbered(events[k], k as nat),
        ),
        split(frames(events), '\n')[3 * k + 2] == Seq::<char>::empty(),
{
    frames_are_lines(events);
    the_lines_of_an_event(events, k);
}

/// A failure goes on as it came, under its own name, or as an error where it has none.
pub proof fn a_failure_goes_on_as_it_came(event: Members, name: Seq<char>)
    ensures
        event.dom().contains("type"@) && event["type"@] == Tree::Text(name) && name.len() > 0
            && is_trimmed(name) ==> frame(failure_name(event), Tree::Object(event)) == "event: "@
            + name + "\ndata: "@ + json_text(Tree::Object(event)) + "\n\n"@,
        !event.dom().contains("type"@) ==> frame(failure_name(event), Tree::Object(event))
            == "event: "@ + "error"@ + "\ndata: "@ + json_text(Tree::Object(event)) + "\n\n"@,
{
    if is_trimmed(name) {
        trimmed_stays(name);
    }
}

} // verus!

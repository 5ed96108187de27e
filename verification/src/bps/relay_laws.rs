//! What becomes of the upstream's native calls, and how an answer is read.

use crate::bps::cache::{
    a_remembered_call_is_recalled, is_remembered, log_is_valid, recall, remember, CallLog,
};
use crate::bps::envelope::{
    after_newline, arguments_in, asked_tool, carried_code, client_call, code_in, envelope_of,
    extracted_call, first_member, is_transport, schema_accepts, unfenced, unwrapped,
};
use crate::bps::exchange::{
    bps_fields, can_be_sent, ends_with_mark, last_final_event, terminal_of_event,
    terminal_of_object, TerminalView,
};
use crate::bps::response::{
    each_call_is_replaced_in_place, is_call, output_of, refusal, relay, verdict, Verdict,
};
use crate::bps::tools::{callable_tools, Catalog};
use crate::json::{
    json_text, leading_object_in_text, member_or_null, object_reading, text_member, Members, Tree,
};
use crate::text::{ends_with, is_space, is_trimmed, starts_with, trim, trimmed_stays};
use vstd::prelude::*;

verus! {

/// A member that is a text without space around it is read as that text.
pub proof fn a_text_member_is_read(members: Members, key: Seq<char>, text: Seq<char>)
    requires
        members.dom().contains(key),
        members[key] == Tree::Text(text),
        is_trimmed(text),
    ensures
        text_member(members, key) == text,
{
    trimmed_stays(text);
}

/// The value holds the object: it is the object, or a text that reads as it.
pub open spec fn holds_object(value: Tree, object: Members) -> bool {
    ||| value == Tree::Object(object)
    ||| value is Text && is_trimmed(value->Text_0) && value->Text_0.len() > 0 && object_reading(
        value->Text_0,
    ) == Ok::<Members, Seq<char>>(object) && value->Text_0[0] != '`'
}

proof fn held_objects_are_read(value: Tree, object: Members)
    requires
        holds_object(value, object),
    ensures
        arguments_in(value) == Some(object),
        code_in(value) == Some(object),
{
    if value is Text {
        let text = value->Text_0;
        trimmed_stays(text);
        reveal_strlit("```");
        assert(!starts_with(text, "```"@)) by {
            if starts_with(text, "```"@) {
                assert(text.take(3)[0] == text[0]);
            }
        }
    }
}

/// A native call that carries a call of a tool: under the transport's name, with an
/// id, and with the tool's name and no other inside.
pub open spec fn carries(
    native: Members,
    id: Seq<char>,
    outer: Members,
    inner: Members,
    tool: Seq<char>,
) -> bool {
    &&& native.dom().contains("type"@) && native["type"@] == Tree::Text("function_call"@)
    &&& native.dom().contains("name"@) && (native["name"@] == Tree::Text("run_officejs"@)
        || native["name"@] == Tree::Text("functions.run_officejs"@))
    &&& native.dom().contains("call_id"@) && native["call_id"@] == Tree::Text(id)
    &&& id.len() > 0 && is_trimmed(id)
    &&& native.dom().contains("arguments"@) && holds_object(native["arguments"@], outer)
    &&& outer.dom().contains("code"@) && holds_object(outer["code"@], inner)
    &&& inner.dom().contains("tool"@) && inner["tool"@] == Tree::Text(tool)
    &&& tool.len() > 0 && is_trimmed(tool) && tool != "run_officejs"@ && tool
        != "functions.run_officejs"@
    &&& !inner.dom().contains("name"@)
}

proof fn words_of_calls()
    ensures
        is_trimmed("function_call"@) && is_trimmed("run_officejs"@) && is_trimmed(
            "functions.run_officejs"@,
        ),
        "type"@ != "id"@ && "type"@ != "call_id"@ && "type"@ != "name"@ && "type"@ != "arguments"@
            && "type"@ != "status"@ && "type"@ != "input"@ && "type"@ != "namespace"@,
        "id"@ != "call_id"@ && "id"@ != "name"@ && "id"@ != "arguments"@ && "id"@ != "status"@
            && "id"@ != "input"@ && "id"@ != "namespace"@,
        "call_id"@ != "name"@ && "call_id"@ != "arguments"@ && "call_id"@ != "status"@
            && "call_id"@ != "input"@ && "call_id"@ != "namespace"@,
        "name"@ != "arguments"@ && "name"@ != "status"@ && "name"@ != "input"@ && "name"@
            != "namespace"@,
        "arguments"@ != "status"@ && "arguments"@ != "namespace"@ && "arguments"@ != "input"@
            && "status"@ != "namespace"@
            && "input"@ != "namespace"@ && "input"@ != "status"@,
        "function"@ != "custom"@ && "function_call"@ != "custom_tool_call"@,
        !is_transport(Seq::<char>::empty()),
{
    reveal_strlit("function_call");
    reveal_strlit("custom_tool_call");
    reveal_strlit("run_officejs");
    reveal_strlit("functions.run_officejs");
    reveal_strlit("type");
    reveal_strlit("id");
    reveal_strlit("call_id");
    reveal_strlit("name");
    reveal_strlit("arguments");
    reveal_strlit("status");
    reveal_strlit("input");
    reveal_strlit("namespace");
    reveal_strlit("function");
    reveal_strlit("custom");
    assert("id"@.len() == 2 && "call_id"@.len() == 7 && "name"@.len() == 4);
    assert("arguments"@.len() == 9 && "status"@.len() == 6 && "type"@.len() == 4);
    assert("input"@.len() == 5 && "namespace"@.len() == 9);
    assert("run_officejs"@.len() == 12 && "functions.run_officejs"@.len() == 22);
    assert("type"@[0] != "name"@[0] && "arguments"@[0] != "namespace"@[0]);
    assert("function"@.len() == 8 && "custom"@.len() == 6);
    assert("function_call"@[0] == 'f' && "custom_tool_call"@[0] == 'c');
}

proof fn the_envelope_is_found(
    native: Members,
    id: Seq<char>,
    outer: Members,
    inner: Members,
    tool: Seq<char>,
)
    requires
        carries(native, id, outer, inner, tool),
    ensures
        envelope_of(native) == Some(inner),
        asked_tool(inner) == tool,
        text_member(native, "call_id"@) == id,
        !is_transport(tool),
{
    words_of_calls();
    a_text_member_is_read(native, "type"@, "function_call"@);
    a_text_member_is_read(native, "name"@, native["name"@]->Text_0);
    a_text_member_is_read(native, "call_id"@, id);
    a_text_member_is_read(inner, "tool"@, tool);
    held_objects_are_read(native["arguments"@], outer);
    held_objects_are_read(outer["code"@], inner);
    assert(text_member(inner, "name"@) == Seq::<char>::empty());
    assert(carried_code(arguments_in(member_or_null(native, "arguments"@))) == Some(inner));
}

/// A native call of a function that the client declared becomes the client's call: it
/// has the native call's id, the function's own name and namespace, and the arguments
/// as they were carried. Nothing else stands in it.
pub proof fn a_function_call_is_handed_on(
    native: Members,
    id: Seq<char>,
    outer: Members,
    inner: Members,
    tool: Seq<char>,
    arguments: Members,
    tools: Catalog,
)
    requires
        carries(native, id, outer, inner, tool),
        tools.dom().contains(tool),
        tools[tool].tool_type == "function"@,
        inner.dom().contains("args"@),
        holds_object(inner["args"@], arguments),
        ({
            let spec = tools[tool].spec;
            ||| !spec.dom().contains("parameters"@) && !spec.dom().contains("inputSchema"@)
                && !spec.dom().contains("input_schema"@)
            ||| spec.dom().contains("parameters"@) && spec["parameters"@] is Object
                && schema_accepts(Tree::Object(arguments), spec["parameters"@]->Object_0)
        }),
        !native.dom().contains("id"@),
    ensures
        ({
            let call = extracted_call(native, tools)->0;
            &&& extracted_call(native, tools) is Some
            &&& call["type"@] == Tree::Text("function_call"@)
            &&& call["call_id"@] == Tree::Text(id)
            &&& call["id"@] == Tree::Text(
                if starts_with(id, "fc_"@) {
                    id
                } else {
                    "fc_"@ + id
                },
            )
            &&& call["name"@] == Tree::Text(tools[tool].name)
            &&& call["arguments"@] == Tree::Text(json_text(Tree::Object(arguments)))
            &&& call["status"@] == Tree::Text("completed"@)
            &&& tools[tool].namespace.len() > 0 ==> call["namespace"@] == Tree::Text(
                tools[tool].namespace,
            )
            &&& call.dom() =~= set![
                "type"@,
                "id"@,
                "call_id"@,
                "name"@,
                "arguments"@,
                "status"@,
            ].union(
                if tools[tool].namespace.len() > 0 {
                    set!["namespace"@]
                } else {
                    Set::empty()
                },
            )
        }),
{
    words_of_calls();
    the_envelope_is_found(native, id, outer, inner, tool);
    held_objects_are_read(inner["args"@], arguments);
    assert(first_member(inner, "args"@, "arguments"@) == inner["args"@]);
    assert(text_member(native, "id"@) == Seq::<char>::empty());
    assert(extracted_call(native, tools) == client_call(native, inner, tools[tool]));
}

/// A call keeps the item id that the native call has.
pub proof fn a_call_keeps_its_item_id(
    native: Members,
    id: Seq<char>,
    outer: Members,
    inner: Members,
    tool: Seq<char>,
    item: Seq<char>,
    tools: Catalog,
)
    requires
        carries(native, id, outer, inner, tool),
        native.dom().contains("id"@),
        native["id"@] == Tree::Text(item),
        is_trimmed(item) && item.len() > 0,
        extracted_call(native, tools) is Some,
    ensures
        extracted_call(native, tools)->0["id"@] == Tree::Text(item),
        extracted_call(native, tools)->0["call_id"@] == Tree::Text(id),
{
    words_of_calls();
    the_envelope_is_found(native, id, outer, inner, tool);
    a_text_member_is_read(native, "id"@, item);
}

/// A native call of a custom tool becomes the client's call with the text that it is
/// called with, as it is.
pub proof fn a_custom_call_is_handed_on(
    native: Members,
    id: Seq<char>,
    outer: Members,
    inner: Members,
    tool: Seq<char>,
    input: Seq<char>,
    tools: Catalog,
)
    requires
        carries(native, id, outer, inner, tool),
        tools.dom().contains(tool),
        tools[tool].tool_type == "custom"@,
        ({
            ||| inner.dom().contains("input"@) && inner["input"@] == Tree::Text(input)
            ||| !inner.dom().contains("input"@) && inner.dom().contains("args"@) && inner["args"@]
                == Tree::Text(input)
        }),
    ensures
        ({
            let call = extracted_call(native, tools)->0;
            &&& extracted_call(native, tools) is Some
            &&& call["type"@] == Tree::Text("custom_tool_call"@)
            &&& call["call_id"@] == Tree::Text(id)
            &&& call["name"@] == Tree::Text(tools[tool].name)
            &&& call["input"@] == Tree::Text(input)
            &&& !call.dom().contains("arguments"@)
            &&& tools[tool].namespace.len() > 0 ==> call["namespace"@] == Tree::Text(
                tools[tool].namespace,
            )
        }),
{
    words_of_calls();
    the_envelope_is_found(native, id, outer, inner, tool);
    assert(first_member(inner, "input"@, "args"@) == Tree::Text(input));
    assert(extracted_call(native, tools) == client_call(native, inner, tools[tool]));
}

/// No call is made of a tool that is not in the catalog, of a function with arguments
/// that its schema refuses or that are no object, of a custom tool without a text, or
/// of a native call without an id.
pub proof fn a_call_that_does_not_fit_is_refused(
    native: Members,
    id: Seq<char>,
    outer: Members,
    inner: Members,
    tool: Seq<char>,
    tools: Catalog,
)
    requires
        carries(native, id, outer, inner, tool),
        ({
            ||| !tools.dom().contains(tool)
            ||| tools[tool].tool_type == "function"@ && tools[tool].spec.dom().contains(
                "parameters"@,
            ) && tools[tool].spec["parameters"@] is Object && inner.dom().contains("args"@)
                && inner["args"@] is Object && !schema_accepts(
                inner["args"@],
                tools[tool].spec["parameters"@]->Object_0,
            )
            ||| tools[tool].tool_type == "function"@ && inner.dom().contains("args"@) && (
            inner["args"@] is Array || inner["args"@] is Number || inner["args"@] is Bool)
            ||| tools[tool].tool_type == "custom"@ && inner.dom().contains("input"@)
                && !(inner["input"@] is Text) && !(inner["input"@] is Null)
        }),
    ensures
        extracted_call(native, tools) is None,
{
    words_of_calls();
    the_envelope_is_found(native, id, outer, inner, tool);
    if tools.dom().contains(tool) {
        assert(extracted_call(native, tools) == client_call(native, inner, tools[tool]));
        if tools[tool].tool_type == "function"@ {
            assert(first_member(inner, "args"@, "arguments"@) == inner["args"@]);
        }
    }
}

/// A native call without an id, of another function than the transport, or of another
/// kind is no call of the client's tools.
pub proof fn only_transport_calls_with_an_id_are_handed_on(native: Members, tools: Catalog)
    requires
        ({
            ||| !native.dom().contains("call_id"@)
            ||| native["call_id"@] == Tree::Text(Seq::empty())
            ||| !native.dom().contains("name"@)
            ||| native["name"@] is Text && is_trimmed(native["name"@]->Text_0)
                && native["name"@]->Text_0 != "run_officejs"@ && native["name"@]->Text_0
                != "functions.run_officejs"@
            ||| !native.dom().contains("type"@)
            ||| native["type"@] == Tree::Text("custom_tool_call"@)
            ||| !native.dom().contains("arguments"@)
        }),
    ensures
        extracted_call(native, tools) is None,
{
    words_of_calls();
    trimmed_stays(Seq::<char>::empty());
    reveal_strlit("function_call");
    reveal_strlit("custom_tool_call");
    assert(is_trimmed("custom_tool_call"@));
    trimmed_stays("custom_tool_call"@);
    if native.dom().contains("name"@) && native["name"@] is Text && is_trimmed(
        native["name"@]->Text_0,
    ) {
        trimmed_stays(native["name"@]->Text_0);
    }
    if !native.dom().contains("arguments"@) {
        assert(arguments_in(member_or_null(native, "arguments"@)) is None);
        assert(carried_code(None) is None);
        assert(unwrapped(None, 2) is None);
    }
    assert("function_call"@.len() == 13 && "custom_tool_call"@.len() == 16);
}

/// A transport call that is wrapped in another one is unwrapped: it carries what the
/// inner one carries.
pub proof fn a_wrapped_call_is_unwrapped(
    native: Members,
    outer: Members,
    wrapper: Members,
    within: Members,
    inner: Members,
)
    requires
        native.dom().contains("type"@) && native["type"@] == Tree::Text("function_call"@),
        native.dom().contains("name"@) && native["name"@] == Tree::Text("run_officejs"@),
        native.dom().contains("arguments"@) && holds_object(native["arguments"@], outer),
        outer.dom().contains("code"@) && holds_object(outer["code"@], wrapper),
        wrapper.dom().contains("name"@) && wrapper["name"@] == Tree::Text("run_officejs"@),
        wrapper.dom().contains("arguments"@) && holds_object(wrapper["arguments"@], within),
        within.dom().contains("code"@) && holds_object(within["code"@], inner),
        !inner.dom().contains("name"@),
    ensures
        envelope_of(native) == Some(inner),
{
    words_of_calls();
    a_text_member_is_read(native, "type"@, "function_call"@);
    a_text_member_is_read(native, "name"@, "run_officejs"@);
    a_text_member_is_read(wrapper, "name"@, "run_officejs"@);
    held_objects_are_read(native["arguments"@], outer);
    held_objects_are_read(outer["code"@], wrapper);
    held_objects_are_read(wrapper["arguments"@], within);
    held_objects_are_read(within["code"@], inner);
    assert(text_member(inner, "name"@) == Seq::<char>::empty());
    assert(carried_code(arguments_in(member_or_null(wrapper, "arguments"@))) == Some(inner));
    reveal_with_fuel(unwrapped, 3);
}

proof fn the_line_after(line: Seq<char>, rest: Seq<char>)
    requires
        forall|i: int| 0 <= i < line.len() ==> #[trigger] line[i] != '\n',
    ensures
        after_newline(line + seq!['\n'] + rest) == Some(rest),
    decreases line.len(),
{
    let s = line + seq!['\n'] + rest;
    if line.len() == 0 {
        assert(s[0] == '\n');
        assert(s.drop_first() =~= rest);
    } else {
        assert(s[0] == line[0]);
        assert(s.drop_first() =~= line.drop_first() + seq!['\n'] + rest);
        assert forall|i: int| 0 <= i < line.drop_first().len() implies #[trigger] line.drop_first()[i]
            != '\n' by {
            assert(line.drop_first()[i] == line[i + 1]);
        }
        the_line_after(line.drop_first(), rest);
    }
}

/// Code in a fence, whatever the word behind the opening fence, is read without the
/// fence.
pub proof fn a_fence_is_taken_off(word: Seq<char>, code: Seq<char>, object: Members)
    requires
        forall|i: int| 0 <= i < word.len() ==> #[trigger] word[i] != '\n',
        code.len() > 0,
        !is_space(code[0]),
        object_reading(code) == Ok::<Members, Seq<char>>(object),
    ensures
        code_in(Tree::Text("```"@ + word + seq!['\n'] + code + "```"@)) == Some(object),
{
    reveal_strlit("```");
    let fence = "```"@;
    let text = fence + word + seq!['\n'] + code + fence;
    assert(text[0] == '`' && text.last() == '`');
    assert(is_trimmed(text));
    trimmed_stays(text);
    assert(text.take(3) =~= fence);
    assert(starts_with(text, fence));
    let fenced = text.skip(3);
    assert(fenced =~= word + seq!['\n'] + (code + fence));
    the_line_after(word, code + fence);
    let body = code + fence;
    assert(body[0] == code[0] && body.last() == '`');
    assert(is_trimmed(body));
    trimmed_stays(body);
    assert(body.skip(body.len() - 3) =~= fence);
    assert(ends_with(body, fence));
    assert(body.take(body.len() - 3) =~= code);
    assert(unfenced(text) == code);
}

/// Something behind the object in a code field does not matter, as long as the object
/// can be read from the start.
pub proof fn what_follows_the_code_does_not_matter(text: Seq<char>, object: Members)
    requires
        text.len() > 0,
        is_trimmed(text),
        text[0] != '`',
        object_reading(text) is Err,
        leading_object_in_text(text) == Some(object),
    ensures
        code_in(Tree::Text(text)) == Some(object),
{
    trimmed_stays(text);
    reveal_strlit("```");
    assert(!starts_with(text, "```"@)) by {
        if starts_with(text, "```"@) {
            assert(text.take(3)[0] == text[0]);
        }
    }
}

/// An answer that calls no tool is handed on as it is, if no call is demanded.
pub proof fn an_answer_without_calls_stays(response: Members, source: Members)
    requires
        !source.dom().contains("tool_choice"@),
        response.dom().contains("output"@) && response["output"@] is Array ==> forall|i: int|
            0 <= i < response["output"@]->Array_0.len() ==> {
                let item = #[trigger] response["output"@]->Array_0[i];
                item is Object ==> !item->Object_0.dom().contains("type"@)
                    || item->Object_0["type"@] == Tree::Text("message"@)
                    || item->Object_0["type"@] == Tree::Text("reasoning"@)
            },
    ensures
        verdict(response, source) == Verdict::Unchanged,
{
    let output = output_of(response);
    reveal_strlit("message");
    reveal_strlit("reasoning");
    reveal_strlit("function_call");
    reveal_strlit("custom_tool_call");
    assert(is_trimmed("message"@) && is_trimmed("reasoning"@));
    trimmed_stays("message"@);
    trimmed_stays("reasoning"@);
    assert("message"@[0] == 'm' && "reasoning"@[0] == 'r' && "function_call"@[0] == 'f'
        && "custom_tool_call"@[0] == 'c');
    assert forall|i: int| 0 <= i < output.len() implies !is_call(#[trigger] output[i]) by {
        assert(response["output"@]->Array_0[i] == output[i]);
    }
    no_calls_no_natives(output, callable_tools(source));
    reveal_strlit("required");
    assert("required"@.len() == 8);
    assert(text_member(source, "tool_choice"@).len() == 0);
}

proof fn no_calls_no_natives(output: Seq<Tree>, tools: Catalog)
    requires
        forall|i: int| 0 <= i < output.len() ==> !is_call(#[trigger] output[i]),
    ensures
        relay(output, tools) is Sound,
        relay(output, tools)->natives.len() == 0,
    decreases output.len(),
{
    if output.len() > 0 {
        let fewer = output.drop_last();
        assert forall|i: int| 0 <= i < fewer.len() implies !is_call(#[trigger] fewer[i]) by {
            assert(fewer[i] == output[i]);
        }
        no_calls_no_natives(fewer, tools);
    }
}

/// A call in an answer: a function call or a call of a custom tool.
pub open spec fn calls_a_tool(item: Tree) -> bool {
    item is Object && item->Object_0.dom().contains("type"@) && (item->Object_0["type"@]
        == Tree::Text("function_call"@) || item->Object_0["type"@] == Tree::Text(
        "custom_tool_call"@,
    ))
}

proof fn calls_are_calls(item: Tree)
    ensures
        calls_a_tool(item) ==> is_call(item),
{
    reveal_strlit("function_call");
    reveal_strlit("custom_tool_call");
    assert(is_trimmed("function_call"@) && is_trimmed("custom_tool_call"@));
    trimmed_stays("function_call"@);
    trimmed_stays("custom_tool_call"@);
}

proof fn a_bad_call_breaks_the_relay(output: Seq<Tree>, tools: Catalog, at: int)
    requires
        0 <= at < output.len(),
        is_call(output[at]),
        extracted_call(output[at]->Object_0, tools) is None,
    ensures
        relay(output, tools) is Broken,
    decreases output.len(),
{
    if at < output.len() - 1 {
        assert(output.drop_last()[at] == output[at]);
        a_bad_call_breaks_the_relay(output.drop_last(), tools, at);
    }
}

/// One call that cannot be handed on refuses the whole answer.
pub proof fn one_bad_call_refuses_the_answer(
    response: Members,
    source: Members,
    output: Seq<Tree>,
    at: int,
)
    requires
        response.dom().contains("output"@),
        response["output"@] == Tree::Array(output),
        0 <= at < output.len(),
        calls_a_tool(output[at]),
        extracted_call(output[at]->Object_0, callable_tools(source)) is None,
    ensures
        verdict(response, source) is Refused,
        output.len() == 1 ==> verdict(response, source) == Verdict::Refused(
            "Basis Points returned a tool call that does not match the client tool catalog or relay contract"@,
        ),
{
    calls_are_calls(output[at]);
    a_bad_call_breaks_the_relay(output, callable_tools(source), at);
    if output.len() == 1 {
        assert(output.drop_last() =~= Seq::empty());
        reveal_with_fuel(relay, 2);
    }
}

/// Two calls with one id refuse the answer.
pub proof fn two_calls_with_one_id_refuse_the_answer(
    response: Members,
    source: Members,
    output: Seq<Tree>,
    i: int,
    j: int,
    id: Seq<char>,
)
    requires
        response.dom().contains("output"@),
        response["output"@] == Tree::Array(output),
        0 <= i < j < output.len(),
        calls_a_tool(output[i]) && calls_a_tool(output[j]),
        output[i]->Object_0.dom().contains("call_id"@),
        output[i]->Object_0["call_id"@] == Tree::Text(id),
        output[j]->Object_0.dom().contains("call_id"@),
        output[j]->Object_0["call_id"@] == Tree::Text(id),
    ensures
        verdict(response, source) is Refused,
{
    let tools = callable_tools(source);
    calls_are_calls(output[i]);
    calls_are_calls(output[j]);
    if relay(output, tools) is Sound {
        each_call_is_replaced_in_place(output, tools);
        handed_on_calls_keep_the_id(output[i]->Object_0, tools);
        handed_on_calls_keep_the_id(output[j]->Object_0, tools);
    }
}

proof fn handed_on_calls_keep_the_id(native: Members, tools: Catalog)
    requires
        extracted_call(native, tools) is Some,
    ensures
        text_member(extracted_call(native, tools)->0, "call_id"@) == trim(
            text_member(native, "call_id"@),
        ),
{
    words_of_calls();
}

/// A sound answer comes out with as many items as it had: what is no call is as it
/// was, and each call has become the call that is handed on for it, in its place.
pub proof fn a_sound_answer_keeps_its_order(
    response: Members,
    source: Members,
    output: Seq<Tree>,
    i: int,
)
    requires
        response.dom().contains("output"@),
        response["output"@] == Tree::Array(output),
        verdict(response, source) is Relayed,
        0 <= i < output.len(),
    ensures
        ({
            let items = verdict(response, source)->items;
            &&& items.len() == output.len()
            &&& calls_a_tool(output[i]) ==> extracted_call(
                output[i]->Object_0,
                callable_tools(source),
            ) is Some && items[i] == Tree::Object(
                extracted_call(output[i]->Object_0, callable_tools(source))->0,
            )
            &&& !(output[i] is Object) || !output[i]->Object_0.dom().contains("type"@)
                || output[i]->Object_0["type"@] == Tree::Text("message"@)
                || output[i]->Object_0["type"@] == Tree::Text("reasoning"@) ==> items[i]
                == output[i]
        }),
{
    each_call_is_replaced_in_place(output, callable_tools(source));
    calls_are_calls(output[i]);
    reveal_strlit("message");
    reveal_strlit("reasoning");
    reveal_strlit("function_call");
    reveal_strlit("custom_tool_call");
    assert(is_trimmed("message"@) && is_trimmed("reasoning"@));
    trimmed_stays("message"@);
    trimmed_stays("reasoning"@);
    assert("message"@[0] == 'm' && "reasoning"@[0] == 'r' && "function_call"@[0] == 'f'
        && "custom_tool_call"@[0] == 'c');
}

proof fn each_call_is_a_native(output: Seq<Tree>, tools: Catalog, i: int, j: int)
    requires
        relay(output, tools) is Sound,
        0 <= i < output.len(),
        is_call(output[i]),
        0 <= j < output.len(),
        is_call(output[j]),
    ensures
        relay(output, tools)->natives.len() >= 1,
        i < j ==> relay(output, tools)->natives.len() >= 2,
        relay(output, tools)->natives.contains(output[i]->Object_0),
    decreases output.len(),
{
    let fewer = output.drop_last();
    let n = fewer.len() as int;
    let natives = relay(output, tools)->natives;
    if i < n {
        assert(fewer[i] == output[i]);
        if j < n {
            assert(fewer[j] == output[j]);
            each_call_is_a_native(fewer, tools, i, j);
        } else {
            each_call_is_a_native(fewer, tools, i, i);
        }
        let before = relay(fewer, tools)->natives;
        let k = choose|k: int| 0 <= k < before.len() && before[k] == output[i]->Object_0;
        assert(natives[k] == output[i]->Object_0);
    } else {
        assert(natives[natives.len() - 1] == output[i]->Object_0);
    }
}

/// An answer with a call is not taken for one without: if it is not refused, its calls
/// are handed on and the native calls are remembered. More than one call is refused
/// where only one is let in.
pub proof fn calls_are_handed_on_or_refused(
    response: Members,
    source: Members,
    output: Seq<Tree>,
    i: int,
    j: int,
)
    requires
        response.dom().contains("output"@),
        response["output"@] == Tree::Array(output),
        0 <= i <= j < output.len(),
        calls_a_tool(output[i]) && calls_a_tool(output[j]),
    ensures
        verdict(response, source) is Refused || (verdict(response, source) is Relayed && verdict(
            response,
            source,
        )->Relayed_natives.contains(output[i]->Object_0)),
        i < j && source.dom().contains("parallel_tool_calls"@) && source["parallel_tool_calls"@]
            == Tree::Bool(false) ==> verdict(response, source) is Refused,
        relay(output, callable_tools(source)) is Sound && (i == j && output.len() == 1
            || !source.dom().contains("parallel_tool_calls"@)) ==> verdict(
            response,
            source,
        ) is Relayed,
{
    calls_are_calls(output[i]);
    calls_are_calls(output[j]);
    let tools = callable_tools(source);
    if relay(output, tools) is Sound {
        each_call_is_a_native(output, tools, i, j);
        natives_are_few(output, tools);
    }
}

proof fn natives_are_few(output: Seq<Tree>, tools: Catalog)
    requires
        relay(output, tools) is Sound,
    ensures
        relay(output, tools)->natives.len() <= output.len(),
    decreases output.len(),
{
    if output.len() > 0 {
        natives_are_few(output.drop_last(), tools);
    }
}

/// An answer without a call is refused where the client demands one.
pub proof fn a_demanded_call_must_come(response: Members, source: Members)
    requires
        source.dom().contains("tool_choice"@),
        source["tool_choice"@] == Tree::Text("required"@),
        !response.dom().contains("output"@) || response["output"@] == Tree::Array(Seq::empty()),
    ensures
        verdict(response, source) == Verdict::Refused(
            "Basis Points did not satisfy the required client tool_choice"@,
        ),
{
    reveal_strlit("required");
    a_text_member_is_read(source, "tool_choice"@, "required"@);
    assert(output_of(response) =~= Seq::empty());
}

/// The event of a refusal is a failed answer with the id of the answer, the code for
/// calls that do not fit, and the reason.
pub proof fn a_refusal_says_why(response: Members, message: Seq<char>)
    ensures
        ({
            let event = refusal(response, message);
            let told = event["response"@]->Object_0;
            let error = told["error"@]->Object_0;
            &&& event["type"@] == Tree::Text("response.failed"@) && event["response"@] is Object
            &&& told["id"@] == (if response.dom().contains("id"@) {
                response["id"@]
            } else {
                Tree::Null
            })
            &&& told["status"@] == Tree::Text("failed"@) && told["error"@] is Object
            &&& error["code"@] == Tree::Text("invalid_tool_call"@)
            &&& error["message"@] == Tree::Text(message)
        }),
{
    reveal_strlit("type");
    reveal_strlit("response");
    reveal_strlit("id");
    reveal_strlit("status");
    reveal_strlit("error");
    reveal_strlit("code");
    reveal_strlit("message");
    assert("type"@.len() == 4 && "response"@.len() == 8 && "id"@.len() == 2 && "status"@.len() == 6
        && "error"@.len() == 5 && "code"@.len() == 4 && "message"@.len() == 7);
}

/// A final event that carries an answer gives that answer, complete or not by its
/// name; any other gives a failure with the event as it is.
pub proof fn a_final_event_gives_its_answer(event: Members, name: Seq<char>, response: Members)
    requires
        event.dom().contains("type"@),
        event["type"@] == Tree::Text(name),
        is_trimmed(name),
    ensures
        event.dom().contains("response"@) && event["response"@] == Tree::Object(response) && name
            == "response.completed"@ ==> terminal_of_event(event) == (TerminalView::Response {
            incomplete: false,
            response,
        }),
        event.dom().contains("response"@) && event["response"@] == Tree::Object(response) && name
            == "response.incomplete"@ ==> terminal_of_event(event) == (TerminalView::Response {
            incomplete: true,
            response,
        }),
        name != "response.completed"@ && name != "response.incomplete"@ ==> terminal_of_event(event)
            == TerminalView::Failure(event),
        !event.dom().contains("response"@) ==> terminal_of_event(event) == TerminalView::Failure(
            event,
        ),
{
    a_text_member_is_read(event, "type"@, name);
    reveal_strlit("response.completed");
    reveal_strlit("response.incomplete");
    assert("response.completed"@.len() != "response.incomplete"@.len());
}

/// An answer in one piece is an answer if it calls itself one or has output; it is
/// incomplete if its status says so.
pub proof fn an_answer_in_one_piece_is_read(object: Members)
    ensures
        object.dom().contains("output"@) || (object.dom().contains("object"@) && object["object"@]
            == Tree::Text("response"@)) ==> {
            &&& object.dom().contains("status"@) && object["status"@] == Tree::Text("incomplete"@)
                ==> terminal_of_object(object) == (TerminalView::Response {
                incomplete: true,
                response: object,
            })
            &&& object.dom().contains("status"@) && object["status"@] == Tree::Text("completed"@)
                || !object.dom().contains("status"@) ==> terminal_of_object(object) == (
            TerminalView::Response { incomplete: false, response: object })
        },
        !object.dom().contains("output"@) && !object.dom().contains("object"@)
            ==> terminal_of_object(object) == terminal_of_event(object),
{
    reveal_strlit("response");
    reveal_strlit("incomplete");
    reveal_strlit("completed");
    assert(is_trimmed("response"@) && is_trimmed("incomplete"@) && is_trimmed("completed"@));
    trimmed_stays("response"@);
    trimmed_stays("incomplete"@);
    trimmed_stays("completed"@);
    assert("response"@.len() == 8 && "incomplete"@.len() == 10 && "completed"@.len() == 9);
}

/// The last of the events that end a stream counts: one that ends it by its name is
/// taken as it is, one that does not end it changes nothing.
pub proof fn the_last_final_event_counts(
    events: Seq<(Option<Seq<char>>, Seq<char>)>,
    name: Seq<char>,
    text: Seq<char>,
    data: Members,
)
    requires
        object_reading(text) == Ok::<Members, Seq<char>>(data),
    ensures
        name == "response.completed"@ || name == "response.incomplete"@ || name
            == "response.failed"@ || name == "error"@ ==> last_final_event(
            events.push((Some(name), text)),
        ) == Some(data),
        name == "response.output_text.delta"@ && !data.dom().contains("response"@)
            ==> last_final_event(events.push((Some(name), text))) == last_final_event(events),
        name == "response.created"@ && data.dom().contains("response"@) && data["response"@]
            is Object && data["response"@]->Object_0.dom().contains("status"@)
            && data["response"@]->Object_0["status"@] == Tree::Text("in_progress"@)
            ==> last_final_event(events.push((Some(name), text))) == last_final_event(events),
{
    let all = events.push((Some(name), text));
    assert(all.drop_last() =~= events);
    reveal_strlit("response.completed");
    reveal_strlit("response.incomplete");
    reveal_strlit("response.failed");
    reveal_strlit("error");
    reveal_strlit("response.output_text.delta");
    reveal_strlit("response.created");
    reveal_strlit("completed");
    reveal_strlit("in_progress");
    assert("response.completed"@.len() == 18 && "response.incomplete"@.len() == 19
        && "response.failed"@.len() == 15 && "error"@.len() == 5
        && "response.output_text.delta"@.len() == 26 && "response.created"@.len() == 16
        && "completed"@.len() == 9 && "in_progress"@.len() == 11);
    assert(is_trimmed("in_progress"@));
    trimmed_stays("in_progress"@);
}

/// An event that carries a completed answer ends a stream under any name.
pub proof fn a_completed_answer_ends_the_stream(
    events: Seq<(Option<Seq<char>>, Seq<char>)>,
    name: Seq<char>,
    text: Seq<char>,
    data: Members,
    response: Members,
)
    requires
        object_reading(text) == Ok::<Members, Seq<char>>(data),
        name == "response.done"@,
        data.dom().contains("response"@),
        data["response"@] == Tree::Object(response),
        response.dom().contains("status"@),
        response["status"@] == Tree::Text("completed"@),
    ensures
        last_final_event(events.push((Some(name), text))) is Some,
        terminal_of_event(last_final_event(events.push((Some(name), text)))->0) == (
        TerminalView::Response { incomplete: false, response }),
{
    let all = events.push((Some(name), text));
    assert(all.drop_last() =~= events);
    reveal_strlit("response.done");
    reveal_strlit("response.completed");
    reveal_strlit("response.incomplete");
    reveal_strlit("response.failed");
    reveal_strlit("error");
    reveal_strlit("completed");
    reveal_strlit("type");
    reveal_strlit("response");
    assert("response.completed"@.len() == 18 && "response.incomplete"@.len() == 19
        && "response.failed"@.len() == 15 && "error"@.len() == 5 && "response.done"@.len() == 13
        && "type"@.len() == 4 && "response"@.len() == 8);
    assert(is_trimmed("completed"@) && is_trimmed("response.completed"@));
    trimmed_stays("completed"@);
    trimmed_stays("response.completed"@);
    let found = last_final_event(all)->0;
    assert(text_member(found, "type"@) == "response.completed"@);
}

/// The headers of a request carry the authorization and the account under both of its
/// names, and the time zone where there is one.
pub proof fn the_headers_carry_the_account(
    authorization: Seq<char>,
    account_id: Seq<char>,
    timezone: Option<Seq<char>>,
)
    ensures
        bps_fields(authorization, account_id, timezone).contains(
            ("authorization"@, authorization),
        ),
        bps_fields(authorization, account_id, timezone).contains(
            ("chatgpt-account-id"@, account_id),
        ),
        bps_fields(authorization, account_id, timezone).contains(
            ("x-openai-account-id"@, account_id),
        ),
        timezone is Some && timezone->0.len() > 0 ==> bps_fields(
            authorization,
            account_id,
            timezone,
        ).last() == ("x-oai-timezone"@, timezone->0),
        timezone is None || timezone->0.len() == 0 ==> bps_fields(
            authorization,
            account_id,
            timezone,
        ).len() == 24,
{
    let fields = bps_fields(authorization, account_id, timezone);
    assert(fields[3] == ("authorization"@, authorization));
    assert(fields[4] == ("chatgpt-account-id"@, account_id));
    assert(fields[5] == ("x-openai-account-id"@, account_id));
}

/// The headers name the client that the upstream expects.
pub proof fn the_headers_name_the_client(
    authorization: Seq<char>,
    account_id: Seq<char>,
    timezone: Option<Seq<char>>,
)
    ensures
        bps_fields(authorization, account_id, timezone).contains(
            ("content-type"@, "application/json"@),
        ),
        bps_fields(authorization, account_id, timezone).contains(("accept"@, "text/event-stream"@)),
        bps_fields(authorization, account_id, timezone).contains(("accept-encoding"@, "identity"@)),
        bps_fields(authorization, account_id, timezone).contains(
            ("x-basispoints-auth-mode"@, "chatgpt"@),
        ),
        bps_fields(authorization, account_id, timezone).contains(
            ("origin"@, "https://bps.openai.com"@),
        ),
        bps_fields(authorization, account_id, timezone).contains(
            ("x-openai-internal-basispoints-client-agent-profile"@, "excel"@),
        ),
        bps_fields(authorization, account_id, timezone).contains(
            ("x-openai-internal-basispoints-client-editor"@, "excel"@),
        ),
        bps_fields(authorization, account_id, timezone).contains(
            ("x-openai-internal-basispoints-client-host"@, "office"@),
        ),
        bps_fields(authorization, account_id, timezone).contains(
            ("x-openai-internal-basispoints-client-platform"@, "excel"@),
        ),
        bps_fields(authorization, account_id, timezone).contains(
            ("x-openai-internal-basispoints-client-platform-class"@, "PC"@),
        ),
        bps_fields(authorization, account_id, timezone).contains(
            ("x-openai-internal-basispoints-client-product"@, "basispoints-excel-plugin"@),
        ),
        bps_fields(authorization, account_id, timezone).contains(
            ("x-openai-internal-basispoints-client-runtime"@, "desktop"@),
        ),
        bps_fields(authorization, account_id, timezone).contains(
            ("x-openai-internal-basispoints-office-host"@, "Excel"@),
        ),
        bps_fields(authorization, account_id, timezone).contains(
            ("x-openai-internal-basispoints-office-platform"@, "PC"@),
        ),
        bps_fields(authorization, account_id, timezone).contains(("x-stainless-arch"@, "unknown"@)),
        bps_fields(authorization, account_id, timezone).contains(("x-stainless-lang"@, "js"@)),
        bps_fields(authorization, account_id, timezone).contains(("x-stainless-os"@, "Unknown"@)),
        bps_fields(authorization, account_id, timezone).contains(
            ("x-stainless-package-version"@, "6.31.0"@),
        ),
        bps_fields(authorization, account_id, timezone).contains(
            ("x-stainless-retry-count"@, "0"@),
        ),
        bps_fields(authorization, account_id, timezone).contains(
            ("x-stainless-runtime"@, "browser:chrome"@),
        ),
        bps_fields(authorization, account_id, timezone).contains(
            ("user-agent"@, "oai-basispoints/0.1.9"@),
        ),
{
    let fields = bps_fields(authorization, account_id, timezone);
    assert(fields[0] == ("content-type"@, "application/json"@));
    assert(fields[1] == ("accept"@, "text/event-stream"@));
    assert(fields[2] == ("accept-encoding"@, "identity"@));
    assert(fields[6] == ("x-basispoints-auth-mode"@, "chatgpt"@));
    assert(fields[7] == ("origin"@, "https://bps.openai.com"@));
    assert(fields[8] == ("x-openai-internal-basispoints-client-agent-profile"@, "excel"@));
    assert(fields[9] == ("x-openai-internal-basispoints-client-editor"@, "excel"@));
    assert(fields[10] == ("x-openai-internal-basispoints-client-host"@, "office"@));
    assert(fields[11] == ("x-openai-internal-basispoints-client-platform"@, "excel"@));
    assert(fields[12] == ("x-openai-internal-basispoints-client-platform-class"@, "PC"@));
    assert(fields[13] == (
        "x-openai-internal-basispoints-client-product"@,
        "basispoints-excel-plugin"@,
    ));
    assert(fields[14] == ("x-openai-internal-basispoints-client-runtime"@, "desktop"@));
    assert(fields[15] == ("x-openai-internal-basispoints-office-host"@, "Excel"@));
    assert(fields[16] == ("x-openai-internal-basispoints-office-platform"@, "PC"@));
    assert(fields[17] == ("x-stainless-arch"@, "unknown"@));
    assert(fields[18] == ("x-stainless-lang"@, "js"@));
    assert(fields[19] == ("x-stainless-os"@, "Unknown"@));
    assert(fields[20] == ("x-stainless-package-version"@, "6.31.0"@));
    assert(fields[21] == ("x-stainless-retry-count"@, "0"@));
    assert(fields[22] == ("x-stainless-runtime"@, "browser:chrome"@));
    assert(fields[23] == ("user-agent"@, "oai-basispoints/0.1.9"@));
}

/// What comes from outside can be sent when it has no control character but tabs.
pub proof fn which_values_can_be_sent(
    authorization: Seq<char>,
    account_id: Seq<char>,
    zone: Seq<char>,
    i: int,
)
    ensures
        0 <= i < authorization.len() && (authorization[i] == '\n' || authorization[i] == '\r')
            ==> !can_be_sent(authorization, account_id, None) && !can_be_sent(
            authorization,
            account_id,
            Some(zone),
        ),
        0 <= i < account_id.len() && (account_id[i] == '\n' || account_id[i] == '\r')
            ==> !can_be_sent(authorization, account_id, None) && !can_be_sent(
            authorization,
            account_id,
            Some(zone),
        ),
        0 <= i < zone.len() && (zone[i] == '\n' || zone[i] == '\r') ==> !can_be_sent(
            authorization,
            account_id,
            Some(zone),
        ),
        (forall|k: int|
            0 <= k < authorization.len() ==> ' ' <= #[trigger] authorization[k] <= '~') && (forall|
            k: int,
        |
            0 <= k < account_id.len() ==> ' ' <= #[trigger] account_id[k] <= '~') ==> can_be_sent(
            authorization,
            account_id,
            None,
        ) && ((forall|k: int| 0 <= k < zone.len() ==> ' ' <= #[trigger] zone[k] <= '~')
            ==> can_be_sent(authorization, account_id, Some(zone))),
{
}

/// A stream ends with the mark when its last event is the mark and nothing else.
pub proof fn when_a_stream_ends_with_the_mark(
    events: Seq<(Option<Seq<char>>, Seq<char>)>,
    name: Option<Seq<char>>,
    text: Seq<char>,
)
    ensures
        !ends_with_mark(Seq::empty()),
        ends_with_mark(events.push((name, text))) <==> text == "[DONE]"@,
{
}

/// A call is remembered under its id. It takes the place of an earlier one with that
/// id, or else comes last; of more than 512 the oldest leaves. A call without an id is
/// not remembered.
pub proof fn which_calls_are_remembered(log: CallLog, item: Members, id: Seq<char>)
    requires
        log_is_valid(log),
        item.dom().contains("call_id"@),
        item["call_id"@] == Tree::Text(id),
        is_trimmed(id),
    ensures
        id.len() > 0 ==> recall(remember(log, item), id) == Some(item),
        id.len() == 0 ==> remember(log, item) == log,
        id.len() > 0 && (forall|i: int| 0 <= i < log.len() ==> (#[trigger] log[i]).0 != id)
            && log.len() < 512 ==> remember(log, item) == log.push((id, item)),
        id.len() > 0 && (forall|i: int| 0 <= i < log.len() ==> (#[trigger] log[i]).0 != id)
            && log.len() == 512 ==> remember(log, item) == log.drop_first().push((id, item)),
        forall|i: int|
            id.len() > 0 && 0 <= i < log.len() && (#[trigger] log[i]).0 == id ==> remember(
                log,
                item,
            ) == log.update(i, (id, item)),
        log.len() <= 512,
{
    a_text_member_is_read(item, "call_id"@, id);
    if id.len() > 0 {
        a_remembered_call_is_recalled(log, item);
        let after = remember(log, item);
        if log.len() == 512 && !is_remembered(log, id) {
            assert(after =~= log.drop_first().push((id, item)));
        }
        assert forall|i: int| 0 <= i < log.len() && (#[trigger] log[i]).0 == id implies after
            == log.update(i, (id, item)) by {
            assert(is_remembered(log, id));
            assert(after =~= log.update(i, (id, item)));
        }
    }
}

/// An event without a name goes by the type that its data has.
pub proof fn a_nameless_event_goes_by_its_type(
    events: Seq<(Option<Seq<char>>, Seq<char>)>,
    name: Seq<char>,
    text: Seq<char>,
    data: Members,
)
    requires
        object_reading(text) == Ok::<Members, Seq<char>>(data),
        data.dom().contains("type"@),
        data["type"@] == Tree::Text(name),
        is_trimmed(name),
    ensures
        last_final_event(events.push((None, text))) == last_final_event(
            events.push((Some(name), text)),
        ),
{
    assert(events.push((None::<Seq<char>>, text)).drop_last() =~= events);
    assert(events.push((Some(name), text)).drop_last() =~= events);
    a_text_member_is_read(data, "type"@, name);
}

} // verus!

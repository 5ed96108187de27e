//! From a Responses request to the body that the upstream accepts.

use crate::json::{
    array_member, array_view, is_plain, is_text_of, json_text, member_or_null, object_member,
    object_reading,
    plain_values_stay_plain, render, render_object, string_value, text_member, text_value, trees, Json,
    JsonNumber, JsonObject, Members, NumberView, Tree, DEPTH_LIMIT,
};
use crate::text::{
    decimal, decimal_text, glue, glue3, is_trimmed, lowercase, lowercased, same_ignoring_case,
    same_text, same_text_ignoring_case, starts_with, trim, trimmed_stays, trimming_trims,
};
use crate::text_map::TextMap;
use crate::digest::{hash_text, short_hash, url_uuid, uuid_v5};
use crate::bps::laws::{keys_of_a_body_differ, keys_of_a_message_differ};
use crate::bps::cache::{recall, remember, CallLog, NativeCallCache};
use crate::bps::envelope::{
    admitted, arguments_in, asked_tool, call_head, carried_arguments, carried_code, envelope_of, extracted_call,
    first_member, function_item_id, is_transport, is_transport_name, item_id, parse_arguments,
    unfenced, TRANSPORT_NAME,
};
use crate::bps::tools::{
    callable_client_tool_specs, callable_tools, call_is_required, call_name, catalog_of,
    client_tool_call_name, client_tool_call_required, client_tool_protocol_instructions,
    client_tool_protocol_reminder, client_tool_specs, client_tools, has_no_tools, message,
    message_item, tool_instructions, tool_reminder, Catalog, ToolSpec, ToolView,
};
use vstd::prelude::*;
use vstd::string::*;

verus! {

/// The model that this channel serves; the client's model name stays inside.
pub const BPS_UPSTREAM_MODEL: &'static str = "gpt-6-astra";

pub const PASSTHROUGH_METADATA: &'static str = "internal_chat_message_metadata_passthrough";

pub open spec fn stripped(item: Members) -> Members {
    item.remove(PASSTHROUGH_METADATA@)
}

/// The item without what clients pass along for themselves.
pub fn strip_client_metadata(item: &JsonObject) -> (r: JsonObject)
    ensures
        r@ == stripped(item@),
{
    item.copy().remove(PASSTHROUGH_METADATA)
}

/// The id of a relayed call: its own, or one made from a clock reading.
pub open spec fn relayed_call_id(item: Members, nanos: nat) -> Seq<char> {
    let call_id = text_member(item, "call_id"@);
    if call_id.len() == 0 {
        "call_bp_"@ + hash_text(decimal(nanos))
    } else {
        call_id
    }
}

/// What goes into the `code` field: the tool and what it is called with.
pub open spec fn relayed_code(item: Members) -> Members {
    let args = if text_member(item, "type"@) == "custom_tool_call"@ {
        Tree::Text(text_member(item, "input"@))
    } else {
        match arguments_in(member_or_null(item, "arguments"@)) {
            Some(arguments) => Tree::Object(arguments),
            None => Tree::Null,
        }
    };
    map!["tool"@ => Tree::Text(call_name(item)), "args"@ => args]
}

pub open spec fn relayed_arguments(item: Members) -> Members {
    map![
        "summary"@ => Tree::Text("Run client tool "@ + call_name(item)),
        "extended_summary"@ => Tree::Text(
            "Relay "@ + call_name(item) + " through the external client"@,
        ),
        "code"@ => Tree::Text(json_text(Tree::Object(relayed_code(item)))),
        "destructive"@ => Tree::Bool(false),
        "references"@ => Tree::Array(Seq::empty()),
    ]
}

/// A client tool call of an earlier turn, as the native call that it stands for.
pub open spec fn relayed_call(item: Members, nanos: nat) -> Members {
    let call_id = relayed_call_id(item, nanos);
    map![
        "type"@ => Tree::Text("function_call"@),
        "id"@ => Tree::Text(item_id(call_id)),
        "call_id"@ => Tree::Text(call_id),
        "name"@ => Tree::Text(TRANSPORT_NAME@),
        "arguments"@ => Tree::Text(json_text(Tree::Object(relayed_arguments(item)))),
        "status"@ => Tree::Text("completed"@),
    ]
}

/// The client's call can be told from the native call that stands for it: it has
/// an id and names a tool of the catalog, in the form of that tool, with arguments
/// that the tool admits and that can be written and read again.
pub open spec fn can_be_read_back(item: Members, tools: Catalog) -> bool {
    let name = call_name(item);
    &&& text_member(item, "call_id"@).len() > 0
    &&& name.len() > 0 && !is_transport(name)
    &&& tools.dom().contains(name)
    &&& if tools[name].tool_type == "custom"@ {
        text_member(item, "type"@) == "custom_tool_call"@
    } else {
        &&& text_member(item, "type"@) != "custom_tool_call"@
        &&& arguments_in(member_or_null(item, "arguments"@)) matches Some(arguments) && admitted(
            arguments,
            tools[name],
        ) && is_plain(Tree::Object(arguments), (DEPTH_LIMIT - 1) as nat)
    }
}

/// The client's call as it is told from the native call that stands for it.
pub open spec fn read_back(item: Members, tool: ToolView) -> Members {
    let call_id = text_member(item, "call_id"@);
    let head = call_head(
        map!["call_id"@ => Tree::Text(call_id), "id"@ => Tree::Text(item_id(call_id))],
        tool,
    );
    if tool.tool_type == "custom"@ {
        head.insert("type"@, Tree::Text("custom_tool_call"@)).insert(
            "input"@,
            Tree::Text(text_member(item, "input"@)),
        )
    } else {
        head.insert(
            "arguments"@,
            Tree::Text(
                json_text(
                    Tree::Object(arguments_in(member_or_null(item, "arguments"@))->0),
                ),
            ),
        ).insert("status"@, Tree::Text("completed"@))
    }
}

proof fn relayed_texts_are_trimmed(item: Members)
    ensures
        trim(call_name(item)) == call_name(item),
        trim(text_member(item, "call_id"@)) == text_member(item, "call_id"@),
        trim(item_id(text_member(item, "call_id"@))) == item_id(text_member(item, "call_id"@)),
        trim(text_member(item, "input"@)) == text_member(item, "input"@),
{
    reveal_strlit("fc_");
    reveal_strlit(".");
    let namespace = text_member(item, "namespace"@);
    let name = text_member(item, "name"@);
    let call_id = text_member(item, "call_id"@);
    text_member_is_trimmed(item, "namespace"@);
    text_member_is_trimmed(item, "name"@);
    text_member_is_trimmed(item, "call_id"@);
    text_member_is_trimmed(item, "input"@);
    trimmed_stays(text_member(item, "input"@));
    trimmed_stays(call_id);
    assert(is_trimmed(call_name(item))) by {
        if namespace.len() > 0 {
            let full = namespace + "."@ + name;
            assert(full[0] == namespace[0]);
            if name.len() > 0 {
                assert(full.last() == name.last());
            } else {
                assert(full.last() == '.');
            }
        }
    }
    trimmed_stays(call_name(item));
    assert(is_trimmed(item_id(call_id))) by {
        if call_id.len() > 0 && !starts_with(call_id, "fc_"@) {
            let full = "fc_"@ + call_id;
            assert(full[0] == 'f');
            assert(full.last() == call_id.last());
        }
    }
    trimmed_stays(item_id(call_id));
}

proof fn text_member_is_trimmed(item: Members, key: Seq<char>)
    ensures
        is_trimmed(text_member(item, key)),
{
    match member_or_null(item, key) {
        Tree::Text(text) => trimming_trims(text),
        _ => {},
    }
}

proof fn a_relayed_call_reads_back(item: Members, nanos: nat, tools: Catalog)
    requires
        can_be_read_back(item, tools),
        is_text_of(json_text(Tree::Object(relayed_code(item))), relayed_code(item)),
        is_text_of(json_text(Tree::Object(relayed_arguments(item))), relayed_arguments(item)),
    ensures
        extracted_call(relayed_call(item, nanos), tools) == Some(
            read_back(item, tools[call_name(item)]),
        ),
        tools[call_name(item)].tool_type != "custom"@ ==> carried_arguments(
            relayed_call(item, nanos),
        ) == arguments_in(member_or_null(item, "arguments"@)),
{
    relay_keys_differ();
    relayed_texts_are_trimmed(item);
    let native = relayed_call(item, nanos);
    let tool = tools[call_name(item)];
    let outer = relayed_arguments(item);
    let inner = relayed_code(item);
    let outer_text = json_text(Tree::Object(outer));
    let inner_text = json_text(Tree::Object(inner));
    trimmed_stays(outer_text);
    trimmed_stays(inner_text);
    assert(is_trimmed("function_call"@)) by {
        reveal_strlit("function_call");
    }
    trimmed_stays("function_call"@);
    assert(is_trimmed(TRANSPORT_NAME@)) by {
        reveal_strlit("run_officejs");
    }
    trimmed_stays(TRANSPORT_NAME@);
    assert(text_member(native, "type"@) == "function_call"@);
    assert(text_member(native, "name"@) == TRANSPORT_NAME@);
    assert(text_member(native, "call_id"@) == text_member(item, "call_id"@));
    assert(text_member(native, "id"@) == item_id(text_member(item, "call_id"@)));
    assert(arguments_in(member_or_null(native, "arguments"@)) == Some(outer));
    assert(unfenced(inner_text) == inner_text) by {
        reveal_strlit("```");
        assert(!starts_with(inner_text, "```"@)) by {
            if starts_with(inner_text, "```"@) {
                assert(inner_text.take(3)[0] == inner_text[0]);
            }
        }
    }
    assert(carried_code(Some(outer)) == Some(inner));
    assert(!inner.dom().contains("name"@));
    assert(text_member(inner, "name"@) == Seq::<char>::empty());
    assert(!is_transport(Seq::<char>::empty())) by {
        reveal_strlit("run_officejs");
        reveal_strlit("functions.run_officejs");
    }
    assert(envelope_of(native) == Some(inner));
    assert(asked_tool(inner) == call_name(item));
    assert(text_member(inner, "tool"@) == call_name(item));
    let head = map![
        "call_id"@ => Tree::Text(text_member(item, "call_id"@)),
        "id"@ => Tree::Text(item_id(text_member(item, "call_id"@))),
    ];
    assert(text_member(head, "call_id"@) == text_member(item, "call_id"@));
    assert(text_member(head, "id"@) == item_id(text_member(item, "call_id"@)));
    assert(call_head(native, tool) == call_head(head, tool));
    if tool.tool_type == "custom"@ {
        assert(!inner.dom().contains("input"@));
        assert(first_member(inner, "input"@, "args"@) == Tree::Text(text_member(item, "input"@)));
    } else {
        assert(first_member(inner, "args"@, "arguments"@) == Tree::Object(
            arguments_in(member_or_null(item, "arguments"@))->0,
        ));
    }
}

proof fn relay_keys_differ()
    ensures
        "tool"@ != "args"@,
        "name"@ != "tool"@ && "name"@ != "args"@,
        "input"@ != "tool"@ && "input"@ != "args"@,
        "type"@ != "id"@ && "type"@ != "call_id"@ && "type"@ != "name"@ && "type"@ != "arguments"@
            && "type"@ != "status"@,
        "id"@ != "call_id"@ && "id"@ != "name"@ && "id"@ != "arguments"@ && "id"@ != "status"@,
        "call_id"@ != "name"@ && "call_id"@ != "arguments"@ && "call_id"@ != "status"@,
        "name"@ != "arguments"@ && "name"@ != "status"@,
        "arguments"@ != "status"@,
        "code"@ != "summary"@ && "code"@ != "extended_summary"@ && "code"@ != "destructive"@
            && "code"@ != "references"@,
{
    reveal_strlit("tool");
    reveal_strlit("args");
    reveal_strlit("name");
    reveal_strlit("input");
    reveal_strlit("type");
    reveal_strlit("id");
    reveal_strlit("call_id");
    reveal_strlit("arguments");
    reveal_strlit("status");
    reveal_strlit("code");
    reveal_strlit("summary");
    reveal_strlit("extended_summary");
    reveal_strlit("destructive");
    reveal_strlit("references");
    assert("id"@.len() == 2 && "call_id"@.len() == 7 && "name"@.len() == 4);
    assert("arguments"@.len() == 9 && "status"@.len() == 6 && "type"@.len() == 4);
    assert("tool"@[0] != "args"@[0]);
    assert("name"@[0] != "tool"@[0] && "name"@[0] != "args"@[0]);
    assert("type"@[0] != "name"@[0]);
    assert("code"@[0] != "summary"@[0]);
}

proof fn a_relayed_call_is_plain(item: Members, tools: Catalog)
    requires
        can_be_read_back(item, tools),
    ensures
        is_plain(Tree::Object(relayed_code(item)), DEPTH_LIMIT as nat),
        is_plain(Tree::Object(relayed_arguments(item)), DEPTH_LIMIT as nat),
{
    reveal_strlit("$serde_json::private::RawValue");
    reveal_strlit("tool");
    reveal_strlit("args");
    reveal_strlit("code");
    reveal_strlit("summary");
    reveal_strlit("extended_summary");
    reveal_strlit("destructive");
    reveal_strlit("references");
    reveal_with_fuel(is_plain, 3);
    assert forall|key: Seq<char>| #[trigger] relayed_code(item).dom().contains(key) implies key
        != "$serde_json::private::RawValue"@ && is_plain(
        relayed_code(item)[key],
        (DEPTH_LIMIT - 1) as nat,
    ) by {
        assert(key == "tool"@ || key == "args"@);
        assert(key[0] != '$');
    }
    assert forall|key: Seq<char>| #[trigger] relayed_arguments(item).dom().contains(key) implies key
        != "$serde_json::private::RawValue"@ && is_plain(
        relayed_arguments(item)[key],
        (DEPTH_LIMIT - 1) as nat,
    ) by {
        assert(key[0] != '$');
    }
}

/// A call with an id, by the bare name of a tool that is not the transport.
pub open spec fn names_a_call(item: Members) -> bool {
    &&& item.dom().contains("type"@) && item.dom().contains("name"@) && item.dom().contains(
        "call_id"@,
    ) && !item.dom().contains("namespace"@)
    &&& item["name"@] is Text && is_trimmed(item["name"@]->Text_0) && item["name"@]->Text_0.len()
        > 0
    &&& item["name"@]->Text_0 != "run_officejs"@ && item["name"@]->Text_0
        != "functions.run_officejs"@
    &&& item["call_id"@] is Text && is_trimmed(item["call_id"@]->Text_0)
        && item["call_id"@]->Text_0.len() > 0
}

proof fn a_named_call_is_plain(item: Members)
    requires
        names_a_call(item),
        (item["type"@] == Tree::Text("function_call"@) && item.dom().contains("arguments"@)
            && item["arguments"@] is Object && is_plain(
            item["arguments"@],
            (DEPTH_LIMIT - 1) as nat,
        )) || (item["type"@] == Tree::Text("custom_tool_call"@) && item.dom().contains("input"@)
            && item["input"@] is Text && is_trimmed(item["input"@]->Text_0)),
    ensures
        is_plain(Tree::Object(relayed_code(item)), DEPTH_LIMIT as nat),
        is_plain(Tree::Object(relayed_arguments(item)), DEPTH_LIMIT as nat),
        call_name(item) == item["name"@]->Text_0,
        relayed_code(item)["tool"@] == item["name"@],
        item["type"@] == Tree::Text("function_call"@) ==> relayed_code(item)["args"@]
            == item["arguments"@],
        item["type"@] == Tree::Text("custom_tool_call"@) ==> relayed_code(item)["args"@]
            == item["input"@],
{
    relay_keys_differ();
    trimmed_stays(item["name"@]->Text_0);
    trimmed_stays(item["call_id"@]->Text_0);
    reveal_strlit("function_call");
    reveal_strlit("custom_tool_call");
    assert(is_trimmed("function_call"@) && is_trimmed("custom_tool_call"@));
    trimmed_stays("function_call"@);
    trimmed_stays("custom_tool_call"@);
    assert("function_call"@.len() == 13 && "custom_tool_call"@.len() == 16);
    assert(text_member(item, "namespace"@) == Seq::<char>::empty());
    let name = call_name(item);
    let custom = item["type"@] == Tree::Text("custom_tool_call"@);
    reveal_strlit("function");
    reveal_strlit("custom");
    assert("function"@.len() == 8 && "custom"@.len() == 6);
    let tool = ToolView {
        key: name,
        name,
        namespace: Seq::empty(),
        tool_type: if custom {
            "custom"@
        } else {
            "function"@
        },
        spec: Map::empty(),
    };
    let tools = Map::<Seq<char>, ToolView>::empty().insert(name, tool);
    if custom {
        trimmed_stays(item["input"@]->Text_0);
    }
    assert(can_be_read_back(item, tools));
    a_relayed_call_is_plain(item, tools);
}

/// `nanos` is a clock reading, used where the call has no id of its own. Where the
/// client's call can be told from the result, it is told as it was, and carries the
/// arguments that it was made with.
pub fn fallback_transport_call(item: &JsonObject, nanos: u128) -> (r: JsonObject)
    ensures
        r@ == relayed_call(item@, nanos as nat),
        forall|tools: Catalog| #[trigger]
            can_be_read_back(item@, tools) ==> {
                &&& extracted_call(r@, tools) == Some(read_back(item@, tools[call_name(item@)]))
                &&& tools[call_name(item@)].tool_type != "custom"@ ==> carried_arguments(r@)
                    == arguments_in(member_or_null(item@, "arguments"@)) && is_plain(
                    Tree::Object(carried_arguments(r@)->0),
                    DEPTH_LIMIT as nat,
                )
            },
        names_a_call(item@) && item@["type"@] == Tree::Text("function_call"@) && item@.dom().contains(
            "arguments"@,
        ) && item@["arguments"@] is Object && is_plain(
            item@["arguments"@],
            (DEPTH_LIMIT - 1) as nat,
        ) ==> {
            let outer = object_reading(r@["arguments"@]->Text_0)->Ok_0;
            let inner = object_reading(outer["code"@]->Text_0)->Ok_0;
            &&& r@["arguments"@] is Text && object_reading(r@["arguments"@]->Text_0) is Ok
            &&& outer["code"@] is Text && object_reading(outer["code"@]->Text_0) is Ok
            &&& inner["tool"@] == item@["name"@] && inner["args"@] == item@["arguments"@]
        },
        names_a_call(item@) && item@["type"@] == Tree::Text("custom_tool_call"@)
            && item@.dom().contains("input"@) && item@["input"@] is Text && is_trimmed(
            item@["input"@]->Text_0,
        ) ==> {
            let outer = object_reading(r@["arguments"@]->Text_0)->Ok_0;
            let inner = object_reading(outer["code"@]->Text_0)->Ok_0;
            &&& r@["arguments"@] is Text && object_reading(r@["arguments"@]->Text_0) is Ok
            &&& outer["code"@] is Text && object_reading(outer["code"@]->Text_0) is Ok
            &&& inner["tool"@] == item@["name"@] && inner["args"@] == item@["input"@]
        },
{
    broadcast use array_view;

    let name = client_tool_call_name(item);
    let mut call_id = item.text_at("call_id");
    if call_id.as_str().is_empty() {
        call_id = glue("call_bp_", short_hash(decimal_text(nanos).as_str()).as_str());
    }
    let args = if same_text(item.text_at("type").as_str(), "custom_tool_call") {
        Json::Text(item.text_at("input"))
    } else {
        match parse_arguments(&item.value_or_null("arguments")) {
            Some(arguments) => Json::Object(arguments),
            None => Json::Null,
        }
    };
    let inner = JsonObject::new().insert("tool", Json::Text(name.clone())).insert("args", args);
    let code = render_object(&inner);
    let none: Vec<Json> = Vec::new();
    assert(trees(none@) =~= Seq::empty());
    let outer = JsonObject::new().insert(
        "summary",
        Json::Text(glue("Run client tool ", name.as_str())),
    ).insert(
        "extended_summary",
        Json::Text(glue3("Relay ", name.as_str(), " through the external client")),
    ).insert("code", Json::Text(code)).insert(
        "destructive",
        Json::Bool(false),
    ).insert("references", Json::Array(none));
    let arguments = render_object(&outer);
    proof {
        assert(inner@ =~= relayed_code(item@));
        assert(outer@ =~= relayed_arguments(item@));
        let made = relayed_call(item@, nanos as nat);
        relay_keys_differ();
        if names_a_call(item@) && ((item@["type"@] == Tree::Text("function_call"@)
            && item@.dom().contains("arguments"@) && item@["arguments"@] is Object && is_plain(
            item@["arguments"@],
            (DEPTH_LIMIT - 1) as nat,
        )) || (item@["type"@] == Tree::Text("custom_tool_call"@) && item@.dom().contains("input"@)
            && item@["input"@] is Text && is_trimmed(item@["input"@]->Text_0))) {
            a_named_call_is_plain(item@);
        }
        assert forall|tools: Catalog| #[trigger] can_be_read_back(item@, tools) implies {
            &&& extracted_call(made, tools) == Some(read_back(item@, tools[call_name(item@)]))
            &&& tools[call_name(item@)].tool_type != "custom"@ ==> carried_arguments(made)
                == arguments_in(member_or_null(item@, "arguments"@)) && is_plain(
                Tree::Object(carried_arguments(made)->0),
                DEPTH_LIMIT as nat,
            )
        } by {
            a_relayed_call_is_plain(item@, tools);
            a_relayed_call_reads_back(item@, nanos as nat, tools);
            if tools[call_name(item@)].tool_type != "custom"@ {
                plain_values_stay_plain(
                    Tree::Object(carried_arguments(made)->0),
                    (DEPTH_LIMIT - 1) as nat,
                    DEPTH_LIMIT as nat,
                );
            }
        }
    }
    JsonObject::new().insert("type", Json::Text("function_call".to_owned())).insert(
        "id",
        Json::Text(function_item_id(call_id.as_str())),
    ).insert("call_id", Json::Text(call_id)).insert(
        "name",
        Json::Text(TRANSPORT_NAME.to_owned()),
    ).insert("arguments", Json::Text(arguments)).insert(
        "status",
        Json::Text("completed".to_owned()),
    )
}

/// The output of a relayed call, under the native call's identity.
pub open spec fn replayed_output(item: Members) -> Members {
    item.insert("type"@, Tree::Text("function_call_output"@)).insert(
        "id"@,
        Tree::Text(item_id(text_member(item, "call_id"@))),
    ).remove("name"@).remove("namespace"@)
}

fn replayed_output_item(item: JsonObject) -> (r: JsonObject)
    ensures
        r@ == replayed_output(item@),
{
    let id = function_item_id(item.text_at("call_id").as_str());
    item.insert("type", Json::Text("function_call_output".to_owned())).insert(
        "id",
        Json::Text(id),
    ).remove("name").remove("namespace")
}

pub open spec fn kept_reasoning(encrypted: Seq<char>) -> Tree {
    Tree::Object(
        map![
            "type"@ => Tree::Text("reasoning"@),
            "summary"@ => Tree::Array(Seq::empty()),
            "encrypted_content"@ => Tree::Text(encrypted),
        ],
    )
}

fn reasoning_item(encrypted: String) -> (r: Json)
    ensures
        r@ == kept_reasoning(encrypted@),
{
    broadcast use array_view;

    let none: Vec<Json> = Vec::new();
    assert(trees(none@) =~= Seq::empty());
    Json::Object(
        JsonObject::new().insert("type", Json::Text("reasoning".to_owned())).insert(
            "summary",
            Json::Array(none),
        ).insert("encrypted_content", Json::Text(encrypted)),
    )
}

/// A content part, as output where it was written as input.
pub open spec fn as_output_part(part: Tree) -> Tree {
    if part is Object && text_member(part->Object_0, "type"@) == "input_text"@ {
        Tree::Object(part->Object_0.insert("type"@, Tree::Text("output_text"@)))
    } else {
        part
    }
}

pub open spec fn as_output_parts(parts: Seq<Tree>) -> Seq<Tree> {
    parts.map_values(|part: Tree| as_output_part(part))
}

/// A message; the text of the assistant's own messages is output.
pub open spec fn normalized_message(item: Members) -> Members {
    if text_member(item, "role"@) == "assistant"@ {
        match array_member(item, "content"@) {
            Some(parts) => item.insert("content"@, Tree::Array(as_output_parts(parts))),
            None => item,
        }
    } else {
        item
    }
}

fn output_parts(parts: &Vec<Json>) -> (r: Vec<Json>)
    ensures
        trees(r@) == as_output_parts(trees(parts@)),
{
    let mut r: Vec<Json> = Vec::new();
    let mut i: usize = 0;
    while i < parts.len()
        invariant
            i <= parts@.len(),
            r@.len() == i,
            forall|j: int| 0 <= j < i ==> (#[trigger] r@[j])@ == as_output_part(parts@[j]@),
        decreases parts@.len() - i,
    {
        let part = match &parts[i] {
            Json::Object(part) => {
                if same_text(part.text_at("type").as_str(), "input_text") {
                    Json::Object(part.copy().insert("type", Json::Text("output_text".to_owned())))
                } else {
                    parts[i].copy()
                }
            },
            _ => parts[i].copy(),
        };
        r.push(part);
        i += 1;
    }
    assert(trees(r@) =~= as_output_parts(trees(parts@)));
    r
}

fn normalize_message(item: JsonObject) -> (r: JsonObject)
    ensures
        r@ == normalized_message(item@),
{
    broadcast use array_view;

    if !same_text(item.text_at("role").as_str(), "assistant") {
        return item;
    }
    let parts = match item.array_at("content") {
        Some(parts) => output_parts(parts),
        None => {
            return item;
        },
    };
    item.insert("content", Json::Array(parts))
}

/// A translation under way: the items so far, what the calls so far were made
/// with, and the remembered native calls.
pub struct Translation {
    pub items: Seq<Tree>,
    pub origins: Map<Seq<char>, Seq<char>>,
    pub log: CallLog,
}

impl Translation {
    pub open spec fn with_item(self, item: Tree) -> Translation {
        Translation { items: self.items.push(item), ..self }
    }

    /// A call without an id leaves no trace.
    pub open spec fn with_origin(self, id: Seq<char>, name: Seq<char>) -> Translation {
        if id.len() == 0 {
            self
        } else {
            Translation { origins: self.origins.insert(id, name), ..self }
        }
    }
}

pub open spec fn translate_call(
    state: Translation,
    item: Members,
    allowed: Catalog,
    nanos: nat,
) -> Translation {
    let id = text_member(item, "call_id"@);
    match recall(state.log, id) {
        Some(native) => state.with_origin(id, text_member(native, "name"@)).with_item(
            Tree::Object(native),
        ),
        None => if is_transport(call_name(item)) {
            Translation { log: remember(state.log, item), ..state }.with_origin(
                id,
                TRANSPORT_NAME@,
            ).with_item(Tree::Object(item))
        } else if allowed.dom().contains(call_name(item)) {
            state.with_origin(id, TRANSPORT_NAME@).with_item(
                Tree::Object(relayed_call(item, nanos)),
            )
        } else {
            state.with_item(Tree::Object(item))
        },
    }
}

/// The output belongs to a call that went through the transport.
pub open spec fn was_relayed(state: Translation, id: Seq<char>) -> bool {
    ||| state.origins.dom().contains(id) && state.origins[id] == TRANSPORT_NAME@
    ||| recall(state.log, id) is Some
}

pub open spec fn translate_object(
    state: Translation,
    item: Members,
    allowed: Catalog,
    nanos: nat,
) -> Translation {
    let kind = lowercase(text_member(item, "type"@));
    if kind == "function_call"@ || kind == "custom_tool_call"@ {
        translate_call(state, item, allowed, nanos)
    } else if kind == "function_call_output"@ || kind == "custom_tool_call_output"@ {
        if was_relayed(state, text_member(item, "call_id"@)) {
            state.with_item(Tree::Object(replayed_output(item)))
        } else {
            state.with_item(Tree::Object(item))
        }
    } else if kind == "reasoning"@ {
        if text_member(item, "encrypted_content"@).len() > 0 {
            state.with_item(kept_reasoning(text_member(item, "encrypted_content"@)))
        } else {
            state
        }
    } else if kind == "item_reference"@ {
        state
    } else if kind == "message"@ {
        state.with_item(Tree::Object(normalized_message(item)))
    } else {
        state.with_item(Tree::Object(item))
    }
}

pub open spec fn translate_item(
    state: Translation,
    item: Tree,
    allowed: Catalog,
    nanos: nat,
) -> Translation {
    match item {
        Tree::Object(object) => translate_object(state, stripped(object), allowed, nanos),
        _ => state,
    }
}

/// The items of a request one after the other; `clock` has a reading for each.
pub open spec fn translate_items(
    items: Seq<Tree>,
    allowed: Catalog,
    clock: Seq<u128>,
    log: CallLog,
) -> Translation
    decreases items.len(),
{
    if items.len() == 0 {
        Translation { items: Seq::empty(), origins: Map::empty(), log }
    } else {
        translate_item(
            translate_items(items.drop_last(), allowed, clock, log),
            items.last(),
            allowed,
            clock[items.len() - 1] as nat,
        )
    }
}

/// A request's input: one text, or a list of items.
pub open spec fn translate_input(
    input: Tree,
    allowed: Catalog,
    clock: Seq<u128>,
    log: CallLog,
) -> Translation {
    match input {
        Tree::Text(text) => Translation {
            items: seq![message("user"@, text)],
            origins: Map::empty(),
            log,
        },
        Tree::Array(items) => translate_items(items, allowed, clock, log),
        _ => Translation { items: Seq::empty(), origins: Map::empty(), log },
    }
}

/// How many clock readings an input takes.
pub open spec fn readings_needed(input: Tree) -> nat {
    match input {
        Tree::Array(items) => items.len(),
        _ => 0,
    }
}

struct TranslationState {
    items: Vec<Json>,
    origins: TextMap<String>,
}

spec fn translation_of(state: TranslationState, log: CallLog) -> Translation {
    Translation {
        items: trees(state.items@),
        origins: state.origins@.map_values(|name: String| name@),
        log,
    }
}

fn add_item(state: TranslationState, item: Json, Ghost(log): Ghost<CallLog>) -> (r: TranslationState)
    ensures
        translation_of(r, log) == translation_of(state, log).with_item(item@),
{
    let TranslationState { items, origins } = state;
    let mut items = items;
    let ghost before = items@;
    let ghost added = item@;
    items.push(item);
    assert(trees(items@) =~= trees(before).push(added));
    TranslationState { items, origins }
}

fn add_origin(state: TranslationState, id: &str, name: String, Ghost(log): Ghost<CallLog>) -> (r:
    TranslationState)
    ensures
        translation_of(r, log) == translation_of(state, log).with_origin(id@, name@),
{
    if id.is_empty() {
        return state;
    }
    let TranslationState { items, origins } = state;
    let ghost before = origins@;
    let ghost text = name@;
    let origins = origins.insert(id, name);
    assert(origins@.map_values(|name: String| name@) =~= before.map_values(
        |name: String| name@,
    ).insert(id@, text));
    TranslationState { items, origins }
}

fn translate_one_call(
    state: TranslationState,
    item: JsonObject,
    allowed: &TextMap<ToolSpec>,
    cache: &mut NativeCallCache,
    nanos: u128,
) -> (r: TranslationState)
    ensures
        translation_of(r, final(cache)@) == translate_call(
            translation_of(state, old(cache)@),
            item@,
            catalog_of(*allowed),
            nanos as nat,
        ),
{
    let id = item.text_at("call_id");
    if let Some(native) = cache.remembered_native_call(id.as_str()) {
        let name = native.text_at("name");
        let state = add_origin(state, id.as_str(), name, Ghost(cache@));
        return add_item(state, Json::Object(native), Ghost(cache@));
    }
    let name = client_tool_call_name(&item);
    if is_transport_name(name.as_str()) {
        cache.remember_native_call(&item);
        let state = add_origin(state, id.as_str(), TRANSPORT_NAME.to_owned(), Ghost(cache@));
        return add_item(state, Json::Object(item), Ghost(cache@));
    }
    if allowed.contains_key(name.as_str()) {
        let call = fallback_transport_call(&item, nanos);
        let state = add_origin(state, id.as_str(), TRANSPORT_NAME.to_owned(), Ghost(cache@));
        return add_item(state, Json::Object(call), Ghost(cache@));
    }
    add_item(state, Json::Object(item), Ghost(cache@))
}

fn output_was_relayed(state: &TranslationState, cache: &NativeCallCache, id: &str) -> (r: bool)
    ensures
        r == was_relayed(translation_of(*state, cache@), id@),
{
    if let Some(origin) = state.origins.get(id) {
        if same_text(origin.as_str(), TRANSPORT_NAME) {
            return true;
        }
    }
    cache.remembered_native_call(id).is_some()
}

fn translate_one(
    state: TranslationState,
    item: JsonObject,
    allowed: &TextMap<ToolSpec>,
    cache: &mut NativeCallCache,
    nanos: u128,
) -> (r: TranslationState)
    ensures
        translation_of(r, final(cache)@) == translate_object(
            translation_of(state, old(cache)@),
            item@,
            catalog_of(*allowed),
            nanos as nat,
        ),
{
    let kind = lowercased(item.text_at("type").as_str());
    let kind = kind.as_str();
    if same_text(kind, "function_call") || same_text(kind, "custom_tool_call") {
        return translate_one_call(state, item, allowed, cache, nanos);
    }
    if same_text(kind, "function_call_output") || same_text(kind, "custom_tool_call_output") {
        let id = item.text_at("call_id");
        if output_was_relayed(&state, cache, id.as_str()) {
            return add_item(state, Json::Object(replayed_output_item(item)), Ghost(cache@));
        }
        return add_item(state, Json::Object(item), Ghost(cache@));
    }
    if same_text(kind, "reasoning") {
        let encrypted = item.text_at("encrypted_content");
        if encrypted.as_str().is_empty() {
            return state;
        }
        return add_item(state, reasoning_item(encrypted), Ghost(cache@));
    }
    if same_text(kind, "item_reference") {
        return state;
    }
    if same_text(kind, "message") {
        return add_item(state, Json::Object(normalize_message(item)), Ghost(cache@));
    }
    add_item(state, Json::Object(item), Ghost(cache@))
}

/// Translates a request's input. `clock` holds a reading of the clock for each
/// item of the input.
pub fn translate_input_items(
    raw_input: &Json,
    allowed: &TextMap<ToolSpec>,
    cache: &mut NativeCallCache,
    clock: &Vec<u128>,
) -> (r: Vec<Json>)
    requires
        readings_needed(raw_input@) <= clock@.len(),
    ensures
        trees(r@) == translate_input(raw_input@, catalog_of(*allowed), clock@, old(cache)@).items,
        final(cache)@ == translate_input(
            raw_input@,
            catalog_of(*allowed),
            clock@,
            old(cache)@,
        ).log,
{
    broadcast use array_view;

    let items = match raw_input {
        Json::Text(text) => {
            let r = vec![message_item("user", text.as_str())];
            assert(trees(r@) =~= seq![message("user"@, text@)]);
            return r;
        },
        Json::Array(items) => items,
        _ => {
            let r: Vec<Json> = Vec::new();
            assert(trees(r@) =~= Seq::empty());
            return r;
        },
    };
    let mut state = TranslationState { items: Vec::new(), origins: TextMap::new() };
    let ghost all = trees(items@);
    let ghost tools = catalog_of(*allowed);
    let ghost start = cache@;
    let mut i: usize = 0;
    proof {
        assert(all.take(0) =~= Seq::empty());
        assert(trees(state.items@) =~= Seq::empty());
        assert(state.origins@.map_values(|name: String| name@) =~= Map::empty());
    }
    while i < items.len()
        invariant
            i <= items@.len(),
            all == trees(items@),
            all.len() <= clock@.len(),
            tools == catalog_of(*allowed),
            translation_of(state, cache@) == translate_items(all.take(i as int), tools, clock@, start),
        decreases items@.len() - i,
    {
        proof {
            assert(all.take(i + 1).drop_last() =~= all.take(i as int));
            assert(all.take(i + 1).last() == items@[i as int]@);
        }
        if let Json::Object(object) = &items[i] {
            let item = strip_client_metadata(object);
            state = translate_one(state, item, allowed, cache, clock[i]);
        }
        i += 1;
    }
    proof {
        assert(all.take(items@.len() as int) =~= all);
    }
    state.items
}

/// The first of the keys that has a text.
pub open spec fn first_text(object: Members, keys: Seq<Seq<char>>) -> Seq<char>
    decreases keys.len(),
{
    if keys.len() == 0 {
        Seq::empty()
    } else if text_member(object, keys[0]).len() > 0 {
        text_member(object, keys[0])
    } else {
        first_text(object, keys.drop_first())
    }
}

/// The name that the client gives the conversation; empty where it gives none.
pub open spec fn conversation_key(source: Members) -> Seq<char> {
    let own = first_text(
        source,
        seq!["prompt_cache_key"@, "promptCacheKey"@, "session_id"@, "sessionId"@],
    );
    if own.len() > 0 {
        own
    } else {
        match object_member(source, "client_metadata"@) {
            Some(metadata) => first_text(metadata, seq!["session_id"@, "sessionId"@]),
            None => Seq::empty(),
        }
    }
}

fn first_text_of(object: &JsonObject, keys: &Vec<&str>) -> (r: String)
    ensures
        r@ == first_text(object@, keys@.map_values(|key: &str| key@)),
{
    let ghost names = keys@.map_values(|key: &str| key@);
    let mut i: usize = 0;
    proof {
        assert(names.skip(0) =~= names);
    }
    while i < keys.len()
        invariant
            i <= keys@.len(),
            names == keys@.map_values(|key: &str| key@),
            first_text(object@, names) == first_text(object@, names.skip(i as int)),
        decreases keys@.len() - i,
    {
        proof {
            assert(names.skip(i as int).drop_first() =~= names.skip(i + 1));
            assert(names.skip(i as int)[0] == keys@[i as int]@);
        }
        let text = object.text_at(keys[i]);
        if !text.as_str().is_empty() {
            return text;
        }
        i += 1;
    }
    proof {
        assert(names.skip(keys@.len() as int).len() == 0);
    }
    String::new()
}

pub fn explicit_conversation_key(source: &JsonObject) -> (r: String)
    ensures
        r@ == conversation_key(source@),
{
    let keys = vec!["prompt_cache_key", "promptCacheKey", "session_id", "sessionId"];
    assert(keys@.map_values(|key: &str| key@) =~= seq![
        "prompt_cache_key"@,
        "promptCacheKey"@,
        "session_id"@,
        "sessionId"@,
    ]);
    let own = first_text_of(source, &keys);
    if !own.as_str().is_empty() {
        return own;
    }
    match source.object_at("client_metadata") {
        Some(metadata) => {
            let keys = vec!["session_id", "sessionId"];
            assert(keys@.map_values(|key: &str| key@) =~= seq!["session_id"@, "sessionId"@]);
            first_text_of(metadata, &keys)
        },
        None => String::new(),
    }
}

/// The first object among the items stands for the conversation.
pub open spec fn root_of(items: Seq<Tree>) -> Seq<char>
    decreases items.len(),
{
    if items.len() == 0 {
        "anonymous"@
    } else if items[0] is Object {
        hash_text(json_text(items[0]))
    } else {
        root_of(items.drop_first())
    }
}

pub fn conversation_fingerprint(items: &Vec<Json>) -> (r: String)
    ensures
        r@ == root_of(trees(items@)),
{
    let ghost all = trees(items@);
    let mut i: usize = 0;
    proof {
        assert(all.skip(0) =~= all);
    }
    while i < items.len()
        invariant
            i <= items@.len(),
            all == trees(items@),
            root_of(all) == root_of(all.skip(i as int)),
        decreases items@.len() - i,
    {
        proof {
            assert(all.skip(i as int).drop_first() =~= all.skip(i + 1));
            assert(all.skip(i as int)[0] == items@[i as int]@);
        }
        if items[i].as_object().is_some() {
            return short_hash(render(&items[i]).as_str());
        }
        i += 1;
    }
    proof {
        assert(all.skip(items@.len() as int).len() == 0);
    }
    "anonymous".to_owned()
}

pub open spec fn is_user_item(item: Tree) -> bool {
    item is Object && same_ignoring_case(text_member(item->Object_0, "role"@), "user"@)
}

/// How many items there are up to and with the last one of the user.
pub open spec fn turn_start(items: Seq<Tree>) -> nat
    decreases items.len(),
{
    if items.len() == 0 {
        0
    } else if is_user_item(items.last()) {
        items.len()
    } else {
        turn_start(items.drop_last())
    }
}

/// The items that make out the turn: up to the last one of the user, or the
/// first item where there is none of the user.
pub open spec fn turn_length(items: Seq<Tree>) -> nat {
    if turn_start(items) > 0 {
        turn_start(items)
    } else if items.len() > 0 {
        1
    } else {
        0
    }
}

pub open spec fn is_tool_output(item: Tree) -> bool {
    item is Object && {
        let kind = text_member(item->Object_0, "type"@);
        kind == "function_call_output"@ || kind == "custom_tool_call_output"@
    }
}

pub open spec fn tool_outputs(items: Seq<Tree>) -> nat
    decreases items.len(),
{
    if items.len() == 0 {
        0
    } else {
        tool_outputs(items.drop_last()) + if is_tool_output(items.last()) {
            1nat
        } else {
            0nat
        }
    }
}

/// The fingerprint of the user's turn that an input is in.
pub open spec fn turn_fingerprint(input: Tree) -> Seq<char> {
    match input {
        Tree::Array(items) => hash_text(
            json_text(Tree::Array(items.take(turn_length(items) as int))),
        ),
        _ => hash_text(json_text(input)),
    }
}

/// How often the model has been asked in this turn: once, and once more for each
/// tool output since.
pub open spec fn turn_iteration(input: Tree) -> nat {
    match input {
        Tree::Array(items) => 1 + tool_outputs(items.skip(turn_length(items) as int)),
        _ => 1,
    }
}

proof fn turn_start_is_inside(items: Seq<Tree>)
    ensures
        turn_start(items) <= items.len(),
    decreases items.len(),
{
    if items.len() > 0 {
        turn_start_is_inside(items.drop_last());
    }
}

fn find_turn_start(items: &Vec<Json>) -> (r: usize)
    ensures
        r == turn_start(trees(items@)),
{
    let ghost all = trees(items@);
    let mut end: usize = items.len();
    proof {
        assert(all.take(all.len() as int) =~= all);
    }
    while end > 0
        invariant
            end <= items@.len(),
            all == trees(items@),
            turn_start(all) == turn_start(all.take(end as int)),
        decreases end,
    {
        proof {
            assert(all.take(end as int).drop_last() =~= all.take(end - 1));
            assert(all.take(end as int).last() == items@[end - 1]@);
        }
        if let Json::Object(object) = &items[end - 1] {
            if same_text_ignoring_case(object.text_at("role").as_str(), "user") {
                return end;
            }
        }
        end -= 1;
    }
    0
}

/// The turn's fingerprint and the iteration within it. Both stay with the user's
/// turn: the upstream takes a changed one for a new turn.
pub fn turn_state(raw_input: &Json) -> (r: (String, String))
    ensures
        r.0@ == turn_fingerprint(raw_input@),
        r.1@ == decimal(turn_iteration(raw_input@)),
{
    broadcast use array_view;

    let items = match raw_input {
        Json::Array(items) => items,
        _ => {
            return (short_hash(render(raw_input).as_str()), decimal_text(1));
        },
    };
    let ghost all = trees(items@);
    proof {
        turn_start_is_inside(all);
    }
    let mut length: usize = find_turn_start(items);
    if length == 0 && items.len() > 0 {
        length = 1;
    }
    assert(length == turn_length(all));
    let mut prefix: Vec<Json> = Vec::new();
    let mut i: usize = 0;
    while i < length
        invariant
            i <= length <= items@.len(),
            prefix@.len() == i,
            forall|j: int| 0 <= j < i ==> (#[trigger] prefix@[j])@ == items@[j]@,
        decreases length - i,
    {
        prefix.push(items[i].copy());
        i += 1;
    }
    assert(trees(prefix@) =~= all.take(length as int));
    let fingerprint = short_hash(render(&Json::Array(prefix)).as_str());
    let ghost rest = all.skip(length as int);
    let mut count: usize = 0;
    let mut at: usize = length;
    proof {
        assert(rest.take(0) =~= Seq::empty());
    }
    while at < items.len()
        invariant
            length <= at <= items@.len(),
            all == trees(items@),
            rest == all.skip(length as int),
            count == tool_outputs(rest.take(at - length)),
            count <= at - length,
        decreases items@.len() - at,
    {
        proof {
            assert(rest.take(at - length + 1).drop_last() =~= rest.take(at - length));
            assert(rest.take(at - length + 1).last() == items@[at as int]@);
        }
        if let Json::Object(object) = &items[at] {
            let kind = object.text_at("type");
            if same_text(kind.as_str(), "function_call_output") || same_text(
                kind.as_str(),
                "custom_tool_call_output",
            ) {
                count += 1;
            }
        }
        at += 1;
    }
    proof {
        assert(rest.take(items@.len() - length) =~= rest);
    }
    (fingerprint, decimal_text(count as u128 + 1))
}

proof fn more_items_keep_the_start(items: Seq<Tree>, more: Seq<Tree>)
    requires
        forall|i: int| 0 <= i < more.len() ==> !is_user_item(#[trigger] more[i]),
    ensures
        turn_start(items + more) == turn_start(items),
    decreases more.len(),
{
    if more.len() == 0 {
        assert(items + more =~= items);
    } else {
        assert((items + more).drop_last() =~= items + more.drop_last());
        assert((items + more).last() == more[more.len() - 1]);
        more_items_keep_the_start(items, more.drop_last());
    }
}

proof fn tool_outputs_add_up(a: Seq<Tree>, b: Seq<Tree>)
    ensures
        tool_outputs(a + b) == tool_outputs(a) + tool_outputs(b),
    decreases b.len(),
{
    if b.len() == 0 {
        assert(a + b =~= a);
    } else {
        assert((a + b).drop_last() =~= a + b.drop_last());
        tool_outputs_add_up(a, b.drop_last());
    }
}

/// Items that are not the user's, added to an input, leave the turn's fingerprint
/// as it is, and each tool output among them counts one iteration more.
pub proof fn later_items_stay_in_the_turn(items: Seq<Tree>, more: Seq<Tree>)
    requires
        items.len() > 0,
        forall|i: int| 0 <= i < more.len() ==> !is_user_item(#[trigger] more[i]),
    ensures
        turn_fingerprint(Tree::Array(items + more)) == turn_fingerprint(Tree::Array(items)),
        turn_iteration(Tree::Array(items + more)) == turn_iteration(Tree::Array(items))
            + tool_outputs(more),
{
    more_items_keep_the_start(items, more);
    turn_start_is_inside(items);
    let n = turn_length(items) as int;
    assert(turn_length(items + more) == n);
    assert((items + more).take(n) =~= items.take(n));
    assert((items + more).skip(n) =~= items.skip(n) + more);
    tool_outputs_add_up(items.skip(n), more);
}

/// How much the model is to think, in the upstream's words.
pub open spec fn effort_of(value: Tree) -> Seq<char> {
    let effort = lowercase(text_value(value));
    if effort == "low"@ || effort == "high"@ || effort == "ultra"@ {
        effort
    } else if effort == "xhigh"@ || effort == "x-high"@ || effort == "extra-high"@ || effort
        == "extra_high"@ || effort == "max"@ {
        "xhigh"@
    } else {
        "medium"@
    }
}

pub open spec fn reasoning_effort(source: Members) -> Seq<char> {
    match object_member(source, "reasoning"@) {
        Some(reasoning) if reasoning.dom().contains("effort"@) => effort_of(reasoning["effort"@]),
        _ => effort_of(member_or_null(source, "reasoning_effort"@)),
    }
}

fn normalize_effort(value: &Json) -> (r: String)
    ensures
        r@ == effort_of(value@),
{
    let effort = lowercased(string_value(value).as_str());
    let text = effort.as_str();
    if same_text(text, "low") || same_text(text, "high") || same_text(text, "ultra") {
        return effort;
    }
    if same_text(text, "xhigh") || same_text(text, "x-high") || same_text(text, "extra-high")
        || same_text(text, "extra_high") || same_text(text, "max") {
        return "xhigh".to_owned();
    }
    "medium".to_owned()
}

pub fn reasoning_effort_from_source(source: &JsonObject) -> (r: String)
    ensures
        r@ == reasoning_effort(source@),
{
    if let Some(reasoning) = source.object_at("reasoning") {
        if let Some(effort) = reasoning.get("effort") {
            return normalize_effort(effort);
        }
    }
    normalize_effort(&source.value_or_null("reasoning_effort"))
}

/// The client's rule for compacting the context, or the usual one.
pub open spec fn context_policy(source: Members) -> Tree {
    let policy = member_or_null(source, "context_management"@);
    if policy is Null || (policy is Array && policy->Array_0.len() == 0) {
        Tree::Array(
            seq![
                Tree::Object(
                    map![
                        "type"@ => Tree::Text("compaction"@),
                        "compact_threshold"@ => Tree::Number(NumberView::Unsigned(200000)),
                    ],
                ),
            ],
        )
    } else {
        policy
    }
}

fn context_policy_of(source: &JsonObject) -> (r: Json)
    ensures
        r@ == context_policy(source@),
{
    broadcast use array_view;

    let policy = source.value_or_null("context_management");
    let unset = match &policy {
        Json::Null => true,
        Json::Array(entries) => entries.len() == 0,
        _ => false,
    };
    if !unset {
        return policy;
    }
    let entry = JsonObject::new().insert("type", Json::Text("compaction".to_owned())).insert(
        "compact_threshold",
        Json::Number(JsonNumber::Unsigned(200000)),
    );
    let ghost inner = entry@;
    let entries = vec![Json::Object(entry)];
    assert(trees(entries@) =~= seq![Tree::Object(inner)]);
    Json::Array(entries)
}

/// What stands before the conversation: the client's instructions, what there is
/// to know about its tools, and a reminder of that.
pub open spec fn prologue(source: Members) -> Seq<Tree> {
    let instructions = text_member(source, "instructions"@);
    let first = if instructions.len() > 0 {
        seq![message("developer"@, instructions)]
    } else {
        Seq::empty()
    };
    let second = first.push(message("developer"@, tool_instructions(source)));
    if tool_reminder(source).len() > 0 {
        second.push(message("developer"@, tool_reminder(source)))
    } else {
        second
    }
}

fn prologue_of(source: &JsonObject) -> (r: Vec<Json>)
    ensures
        trees(r@) == prologue(source@),
{
    let mut r: Vec<Json> = Vec::new();
    let instructions = source.text_at("instructions");
    if !instructions.as_str().is_empty() {
        r.push(message_item("developer", instructions.as_str()));
    }
    r.push(message_item("developer", client_tool_protocol_instructions(source).as_str()));
    let reminder = client_tool_protocol_reminder(source);
    if !reminder.as_str().is_empty() {
        r.push(message_item("developer", reminder.as_str()));
    }
    assert(trees(r@) =~= prologue(source@));
    r
}

pub open spec fn task_name(conversation: Seq<char>) -> Seq<char> {
    "cpa-oai-basispoints/"@ + conversation
}

pub open spec fn turn_name(conversation: Seq<char>, fingerprint: Seq<char>) -> Seq<char> {
    task_name(conversation) + "/turn/"@ + fingerprint
}

pub open spec fn request_metadata(conversation: Seq<char>, input: Tree) -> Members {
    map![
        "task_id"@ => Tree::Text(url_uuid(task_name(conversation))),
        "turn_id"@ => Tree::Text(url_uuid(turn_name(conversation, turn_fingerprint(input)))),
        "agent_iteration"@ => Tree::Text(decimal(turn_iteration(input))),
    ]
}

/// The body made of a request whose input was translated to `items`.
pub open spec fn request_body(source: Members, items: Seq<Tree>) -> Members {
    let key = conversation_key(source);
    let conversation = if key.len() == 0 {
        root_of(items)
    } else {
        key
    };
    let body = map![
        "model"@ => Tree::Text(BPS_UPSTREAM_MODEL@),
        "model_selection"@ => Tree::Text("explicit"@),
        "stream"@ => Tree::Bool(member_or_null(source, "stream"@) == Tree::Bool(true)),
        "store"@ => Tree::Bool(false),
        "input"@ => Tree::Array(prologue(source) + items),
        "reasoning_effort"@ => Tree::Text(reasoning_effort(source)),
        "context_management"@ => context_policy(source),
        "metadata"@ => Tree::Object(
            request_metadata(conversation, member_or_null(source, "input"@)),
        ),
    ];
    if key.len() == 0 {
        body
    } else {
        body.insert("prompt_cache_key"@, Tree::Text(key))
    }
}

pub const NO_TOOL_TO_CHOOSE: &'static str = "tool_choice does not select any available client tool";

/// A call is demanded, and there is no tool to call.
pub open spec fn is_unanswerable(source: Members) -> bool {
    call_is_required(source) && callable_tools(source) == Map::<Seq<char>, ToolView>::empty()
}

pub open spec fn translated_request(source: Members, clock: Seq<u128>, log: CallLog) -> Translation {
    translate_input(member_or_null(source, "input"@), client_tools(source), clock, log)
}

proof fn texts_reach_the_model(source: Members, items: Seq<Tree>)
    ensures
        ({
            let body = request_body(source, items);
            &&& body.dom().contains("input"@)
            &&& body["input"@] == Tree::Array(prologue(source) + items)
        }),
        "type"@ != "role"@ && "type"@ != "content"@ && "role"@ != "content"@ && "type"@ != "text"@,
        "developer"@ != "assistant"@ && "user"@ != "assistant"@,
{
    keys_of_a_body_differ();
    keys_of_a_message_differ();
}

/// The body for the upstream, or the reason why there is none. `clock` holds a
/// reading of the clock for each item of the input.
pub fn prepare_request_body_at(
    source: &JsonObject,
    cache: &mut NativeCallCache,
    clock: &Vec<u128>,
) -> (r: Result<JsonObject, String>)
    requires
        readings_needed(member_or_null(source@, "input"@)) <= clock@.len(),
    ensures
        is_unanswerable(source@) ==> {
            &&& r is Err
            &&& r->Err_0@ == NO_TOOL_TO_CHOOSE@
            &&& final(cache)@ == old(cache)@
        },
        !is_unanswerable(source@) ==> {
            let translation = translated_request(source@, clock@, old(cache)@);
            &&& r is Ok
            &&& r->Ok_0@ == request_body(source@, translation.items)
            &&& final(cache)@ == translation.log
        },
        r is Ok && source@.dom().contains("input"@) && source@["input"@] is Text ==> {
            let input = r->Ok_0@["input"@]->Array_0;
            let item = input.last()->Object_0;
            let content = item["content"@]->Array_0;
            &&& r->Ok_0@["input"@] is Array && input.len() > 0 && input.last() is Object
            &&& item["type"@] == Tree::Text("message"@) && item["role"@] == Tree::Text("user"@)
            &&& item["content"@] is Array && content.len() == 1 && content[0] is Object
            &&& content[0]->Object_0["type"@] == Tree::Text("input_text"@)
            &&& content[0]->Object_0["text"@] == source@["input"@]
        },
        r is Ok && source@.dom().contains("instructions"@) && source@["instructions"@] is Text
            && trim(source@["instructions"@]->Text_0).len() > 0 ==> {
            let input = r->Ok_0@["input"@]->Array_0;
            let item = input[0]->Object_0;
            let content = item["content"@]->Array_0;
            &&& r->Ok_0@["input"@] is Array && input.len() > 0 && input[0] is Object
            &&& item["type"@] == Tree::Text("message"@) && item["role"@] == Tree::Text(
                "developer"@,
            )
            &&& item["content"@] is Array && content.len() == 1 && content[0] is Object
            &&& content[0]->Object_0["type"@] == Tree::Text("input_text"@)
            &&& content[0]->Object_0["text"@] == Tree::Text(
                trim(source@["instructions"@]->Text_0),
            )
        },
{
    broadcast use array_view;

    if client_tool_call_required(source) && has_no_tools(&callable_client_tool_specs(source)) {
        return Err(NO_TOOL_TO_CHOOSE.to_owned());
    }
    let allowed = client_tool_specs(source);
    let input = source.value_or_null("input");
    let mut items = translate_input_items(&input, &allowed, cache, clock);
    let root = conversation_fingerprint(&items);
    let ghost translated = trees(items@);
    let ghost tail = items@;
    let mut all = prologue_of(source);
    let ghost head = all@;
    all.append(&mut items);
    assert(trees(all@) =~= prologue(source@) + translated);
    let stream = match source.bool_at("stream") {
        Some(stream) => stream,
        None => false,
    };
    let key = explicit_conversation_key(source);
    let conversation = if key.as_str().is_empty() {
        root
    } else {
        key.clone()
    };
    let (fingerprint, iteration) = turn_state(&input);
    proof {
        texts_reach_the_model(source@, translated);
    }
    let task = glue("cpa-oai-basispoints/", conversation.as_str());
    let turn = glue3(task.as_str(), "/turn/", fingerprint.as_str());
    let metadata = JsonObject::new().insert("task_id", Json::Text(uuid_v5(task.as_str()))).insert(
        "turn_id",
        Json::Text(uuid_v5(turn.as_str())),
    ).insert("agent_iteration", Json::Text(iteration));
    let body = JsonObject::new().insert("model", Json::Text(BPS_UPSTREAM_MODEL.to_owned())).insert(
        "model_selection",
        Json::Text("explicit".to_owned()),
    ).insert("stream", Json::Bool(stream)).insert("store", Json::Bool(false)).insert(
        "input",
        Json::Array(all),
    ).insert("reasoning_effort", Json::Text(reasoning_effort_from_source(source))).insert(
        "context_management",
        context_policy_of(source),
    ).insert("metadata", Json::Object(metadata));
    if key.as_str().is_empty() {
        Ok(body)
    } else {
        Ok(body.insert("prompt_cache_key", Json::Text(key)))
    }
}

/// The time since 1970 in nanoseconds, by `std`'s `SystemTime::elapsed`; zero
/// before 1970. Nothing is stated of the reading.
#[verifier::external_body]
fn clock_nanos() -> u128 {
    std::time::UNIX_EPOCH.elapsed().map(|elapsed| elapsed.as_nanos()).unwrap_or_default()
}

/// Makes the body that the upstream accepts of a Responses request. Where
/// `tool_choice` demands a call and no tool can be called, it is refused.
pub fn prepare_request_body(source: &JsonObject, cache: &mut NativeCallCache) -> (r: Result<
    JsonObject,
    String,
>)
    ensures
        is_unanswerable(source@) ==> {
            &&& r is Err
            &&& r->Err_0@ == NO_TOOL_TO_CHOOSE@
            &&& final(cache)@ == old(cache)@
        },
        !is_unanswerable(source@) ==> r is Ok && exists|clock: Seq<u128>|
            {
                &&& clock.len() == readings_needed(member_or_null(source@, "input"@))
                &&& r->Ok_0@ == request_body(
                    source@,
                    (#[trigger] translated_request(source@, clock, old(cache)@)).items,
                )
                &&& final(cache)@ == translated_request(source@, clock, old(cache)@).log
            },
        r is Ok && source@.dom().contains("input"@) && source@["input"@] is Text ==> {
            let input = r->Ok_0@["input"@]->Array_0;
            let item = input.last()->Object_0;
            let content = item["content"@]->Array_0;
            &&& r->Ok_0@["input"@] is Array && input.len() > 0 && input.last() is Object
            &&& item["type"@] == Tree::Text("message"@) && item["role"@] == Tree::Text("user"@)
            &&& item["content"@] is Array && content.len() == 1 && content[0] is Object
            &&& content[0]->Object_0["type"@] == Tree::Text("input_text"@)
            &&& content[0]->Object_0["text"@] == source@["input"@]
        },
        r is Ok && source@.dom().contains("instructions"@) && source@["instructions"@] is Text
            && trim(source@["instructions"@]->Text_0).len() > 0 ==> {
            let input = r->Ok_0@["input"@]->Array_0;
            let item = input[0]->Object_0;
            let content = item["content"@]->Array_0;
            &&& r->Ok_0@["input"@] is Array && input.len() > 0 && input[0] is Object
            &&& item["type"@] == Tree::Text("message"@) && item["role"@] == Tree::Text(
                "developer"@,
            )
            &&& item["content"@] is Array && content.len() == 1 && content[0] is Object
            &&& content[0]->Object_0["type"@] == Tree::Text("input_text"@)
            &&& content[0]->Object_0["text"@] == Tree::Text(
                trim(source@["instructions"@]->Text_0),
            )
        },
{
    broadcast use array_view;

    let input = source.value_or_null("input");
    let needed: usize = match &input {
        Json::Array(items) => items.len(),
        _ => 0,
    };
    assert(needed == readings_needed(member_or_null(source@, "input"@)));
    let mut clock: Vec<u128> = Vec::new();
    while clock.len() < needed
        invariant
            clock@.len() <= needed,
        decreases needed - clock@.len(),
    {
        clock.push(clock_nanos());
    }
    let r = prepare_request_body_at(source, cache, &clock);
    proof {
        let translation = translated_request(source@, clock@, old(cache)@);
        assert(!is_unanswerable(source@) ==> r->Ok_0@ == request_body(source@, translation.items));
    }
    r
}

pub open spec fn known_fields() -> Seq<Seq<char>> {
    seq![
        "model"@,
        "model_selection"@,
        "stream"@,
        "store"@,
        "input"@,
        "reasoning_effort"@,
        "context_management"@,
        "metadata"@,
        "prompt_cache_key"@,
    ]
}

/// The body holds the fields that the upstream knows, and no others.
pub proof fn the_body_has_known_fields_only(source: Members, items: Seq<Tree>, field: Seq<char>)
    requires
        request_body(source, items).dom().contains(field),
    ensures
        known_fields().contains(field),
{
    let known = known_fields();
    assert(known[0] == "model"@ && known[1] == "model_selection"@ && known[2] == "stream"@
        && known[3] == "store"@ && known[4] == "input"@ && known[5] == "reasoning_effort"@
        && known[6] == "context_management"@ && known[7] == "metadata"@ && known[8]
        == "prompt_cache_key"@);
}

/// A call that was remembered is replayed as the native call that it was.
pub proof fn a_remembered_call_is_replayed(
    state: Translation,
    item: Members,
    allowed: Catalog,
    nanos: nat,
)
    requires
        recall(state.log, text_member(item, "call_id"@)) is Some,
    ensures
        translate_call(state, item, allowed, nanos).items == state.items.push(
            Tree::Object(recall(state.log, text_member(item, "call_id"@))->0),
        ),
        translate_call(state, item, allowed, nanos).log == state.log,
{
}

/// The output of a call that went through the transport is recognised after it.
pub proof fn the_output_of_a_relayed_call_is_replayed(
    state: Translation,
    call: Members,
    output: Members,
    allowed: Catalog,
    nanos: nat,
)
    requires
        recall(state.log, text_member(call, "call_id"@)) is None,
        !is_transport(call_name(call)),
        allowed.dom().contains(call_name(call)),
        text_member(call, "call_id"@).len() > 0,
        text_member(output, "call_id"@) == text_member(call, "call_id"@),
    ensures
        was_relayed(
            translate_call(state, call, allowed, nanos),
            text_member(output, "call_id"@),
        ),
{
}

} // verus!

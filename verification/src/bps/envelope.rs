//! From a native transport call back to the client's tool call.

use crate::json::{
    array_member, array_view, bool_member, is_plain, json_text, leading_object_in_text,
    member_or_null, object_in_text, object_member, optional_members, parse_leading_object, parse_object,
    render_object, same_json, same_tree, string_value, text_member, text_value, trees, Json,
    JsonObject, Members, Tree, DEPTH_LIMIT,
};
use crate::text::{
    chars_of, ends_with, glue, has_prefix, same_text, starts_with, text_of, trim, trimmed,
    trimmed_stays, without_prefix, without_suffix,
};
use crate::text_map::TextMap;
use crate::bps::tools::{catalog_of, parameters_of, tool_parameters, Catalog, ToolSpec, ToolView};
use vstd::prelude::*;
use vstd::string::*;

verus! {

/// The one native function that the upstream knows.
pub const TRANSPORT_NAME: &'static str = "run_officejs";

pub const TRANSPORT_ALIAS: &'static str = "functions.run_officejs";

pub open spec fn is_transport(name: Seq<char>) -> bool {
    name == TRANSPORT_NAME@ || name == TRANSPORT_ALIAS@
}

pub fn is_transport_name(name: &str) -> (r: bool)
    ensures
        r == is_transport(name@),
{
    same_text(name, TRANSPORT_NAME) || same_text(name, TRANSPORT_ALIAS)
}

/// The item id that goes with a call id.
pub open spec fn item_id(call_id: Seq<char>) -> Seq<char> {
    if call_id.len() == 0 || starts_with(call_id, "fc_"@) {
        call_id
    } else {
        "fc_"@ + call_id
    }
}

pub fn function_item_id(call_id: &str) -> (r: String)
    ensures
        r@ == item_id(call_id@),
{
    if call_id.is_empty() || has_prefix(call_id, "fc_") {
        call_id.to_owned()
    } else {
        glue("fc_", call_id)
    }
}

/// What follows the first line break.
pub open spec fn after_newline(s: Seq<char>) -> Option<Seq<char>>
    decreases s.len(),
{
    if s.len() == 0 {
        None
    } else if s[0] == '\n' {
        Some(s.drop_first())
    } else {
        after_newline(s.drop_first())
    }
}

fn text_after_newline(s: &str) -> (r: Option<String>)
    ensures
        match r {
            Some(rest) => after_newline(s@) == Some(rest@),
            None => after_newline(s@) is None,
        },
{
    let chars = chars_of(s);
    let total: usize = chars.len();
    let mut i: usize = 0;
    proof {
        assert(s@.skip(0) =~= s@);
    }
    while i < total
        invariant
            i <= total,
            total == chars@.len(),
            chars@ == s@,
            after_newline(s@) == after_newline(s@.skip(i as int)),
        decreases total - i,
    {
        proof {
            assert(s@.skip(i as int).drop_first() =~= s@.skip(i + 1));
        }
        if chars[i] == '\n' {
            proof {
                assert(s@.skip(i + 1) =~= chars@.subrange(i + 1, total as int));
            }
            return Some(text_of(&chars, i + 1, total));
        }
        i += 1;
    }
    None
}

/// The text without the code fence around it.
pub open spec fn unfenced(text: Seq<char>) -> Seq<char> {
    if starts_with(text, "```"@) {
        let fenced = text.skip("```"@.len() as int);
        let body = match after_newline(fenced) {
            Some(rest) => trim(rest),
            None => trim(fenced),
        };
        if ends_with(body, "```"@) {
            body.take(body.len() - "```"@.len())
        } else {
            body
        }
    } else {
        text
    }
}

fn without_fence(text: String) -> (r: String)
    ensures
        r@ == unfenced(text@),
{
    match without_prefix(text.as_str(), "```") {
        Some(fenced) => {
            let body = match text_after_newline(fenced.as_str()) {
                Some(rest) => trimmed(rest.as_str()),
                None => trimmed(fenced.as_str()),
            };
            match without_suffix(body.as_str(), "```") {
                Some(inner) => inner,
                None => body,
            }
        },
        None => text,
    }
}

/// The object that a `code` field holds: itself, or as text, in a code fence or
/// not, with or without something behind it.
pub open spec fn code_in(value: Tree) -> Option<Members> {
    match value {
        Tree::Object(object) => Some(object),
        _ => {
            let text = text_value(value);
            if text.len() == 0 {
                None
            } else {
                match object_in_text(unfenced(text)) {
                    Some(object) => Some(object),
                    None => leading_object_in_text(unfenced(text)),
                }
            }
        },
    }
}

pub fn decode_transport_code(value: &Json) -> (r: Option<JsonObject>)
    ensures
        optional_members(r) == code_in(value@),
{
    if let Some(object) = value.as_object() {
        return Some(object.copy());
    }
    let text = string_value(value);
    if text.as_str().is_empty() {
        return None;
    }
    let text = without_fence(text);
    match parse_object(text.as_str()) {
        Some(object) => Some(object),
        None => parse_leading_object(text.as_str()),
    }
}

/// The object that an `arguments` field holds: itself, or as text.
pub open spec fn arguments_in(value: Tree) -> Option<Members> {
    match value {
        Tree::Object(object) => Some(object),
        _ => if text_value(value).len() == 0 {
            None
        } else {
            object_in_text(text_value(value))
        },
    }
}

pub fn parse_arguments(value: &Json) -> (r: Option<JsonObject>)
    ensures
        optional_members(r) == arguments_in(value@),
{
    if let Some(object) = value.as_object() {
        return Some(object.copy());
    }
    let text = string_value(value);
    if text.as_str().is_empty() {
        return None;
    }
    parse_object(text.as_str())
}

/// The code that an arguments object carries.
pub open spec fn carried_code(arguments: Option<Members>) -> Option<Members> {
    match arguments {
        Some(arguments) => code_in(member_or_null(arguments, "code"@)),
        None => None,
    }
}

/// What is inside, when so many more transport layers may be wrapped around it.
pub open spec fn unwrapped(envelope: Option<Members>, layers: nat) -> Option<Members>
    decreases layers,
{
    match envelope {
        None => None,
        Some(current) => if !is_transport(text_member(current, "name"@)) {
            Some(current)
        } else if layers == 0 {
            None
        } else {
            unwrapped(
                carried_code(arguments_in(member_or_null(current, "arguments"@))),
                (layers - 1) as nat,
            )
        },
    }
}

/// The inner call that a native transport call carries.
pub open spec fn envelope_of(native: Members) -> Option<Members> {
    if text_member(native, "type"@) == "function_call"@ && is_transport(
        text_member(native, "name"@),
    ) {
        unwrapped(carried_code(arguments_in(member_or_null(native, "arguments"@))), 2)
    } else {
        None
    }
}

fn code_of_arguments(value: &Json) -> (r: Option<JsonObject>)
    ensures
        optional_members(r) == carried_code(arguments_in(value@)),
{
    match parse_arguments(value) {
        Some(arguments) => decode_transport_code(&arguments.value_or_null("code")),
        None => None,
    }
}

pub fn transport_envelope(native: &JsonObject) -> (r: Option<JsonObject>)
    ensures
        optional_members(r) == envelope_of(native@),
{
    if !same_text(native.text_at("type").as_str(), "function_call") || !is_transport_name(
        native.text_at("name").as_str(),
    ) {
        return None;
    }
    let mut envelope = code_of_arguments(&native.value_or_null("arguments"));
    let mut layers: u8 = 2;
    while layers > 0
        invariant
            layers <= 2,
            envelope_of(native@) == unwrapped(optional_members(envelope), layers as nat),
        decreases layers,
    {
        let next = match &envelope {
            None => {
                return None;
            },
            Some(current) => {
                if !is_transport_name(current.text_at("name").as_str()) {
                    return envelope;
                }
                code_of_arguments(&current.value_or_null("arguments"))
            },
        };
        envelope = next;
        layers = layers - 1;
    }
    match envelope {
        Some(current) => if is_transport_name(current.text_at("name").as_str()) {
            None
        } else {
            Some(current)
        },
        None => None,
    }
}

/// The value is one of the values that a schema's `enum` lists, if it lists any.
pub open spec fn enum_accepts(value: Tree, schema: Members) -> bool {
    match array_member(schema, "enum"@) {
        Some(options) => options.len() == 0 || exists|i: int|
            0 <= i < options.len() && same_tree(#[trigger] options[i], value),
        None => true,
    }
}

/// A JSON value meets a schema, as far as the schema's `type`, `required`,
/// `properties`, `additionalProperties`, `items` and `enum` go.
pub open spec fn schema_accepts(value: Tree, schema: Members) -> bool
    decreases value, member_or_null(schema, "type"@),
{
    if schema == Map::<Seq<char>, Tree>::empty() {
        true
    } else if member_or_null(schema, "type"@) is Array {
        let alternatives = member_or_null(schema, "type"@)->Array_0;
        exists|i: int|
            0 <= i < alternatives.len() && schema_accepts(
                value,
                schema.insert("type"@, #[trigger] alternatives[i]),
            )
    } else {
        let kind = text_member(schema, "type"@);
        &&& kind == "object"@ ==> value is Object && {
            let object = value->Object_0;
            &&& match array_member(schema, "required"@) {
                Some(required) => forall|i: int|
                    0 <= i < required.len() ==> object.dom().contains(
                        text_value(#[trigger] required[i]),
                    ),
                None => true,
            }
            &&& match object_member(schema, "properties"@) {
                Some(properties) => forall|key: Seq<char>| #[trigger]
                    object.dom().contains(key) ==> (match object_member(properties, key) {
                        Some(nested) => schema_accepts(object[key], nested),
                        None => bool_member(schema, "additionalProperties"@) != Some(false),
                    }),
                None => true,
            }
        }
        &&& kind == "array"@ ==> value is Array && match object_member(schema, "items"@) {
            Some(nested) => forall|i: int|
                0 <= i < value->Array_0.len() ==> schema_accepts(
                    #[trigger] value->Array_0[i],
                    nested,
                ),
            None => true,
        }
        &&& kind == "string"@ ==> value is Text
        &&& kind == "integer"@ || kind == "number"@ ==> value is Number
        &&& kind == "boolean"@ ==> value is Bool
        &&& kind == "null"@ ==> value is Null
        &&& enum_accepts(value, schema)
    }
}

#[verifier::loop_isolation(false)]
fn is_allowed_by_enum(value: &Json, schema: &JsonObject) -> (r: bool)
    ensures
        r == enum_accepts(value@, schema@),
{
    match schema.array_at("enum") {
        Some(options) => {
            if options.len() == 0 {
                return true;
            }
            let mut i: usize = 0;
            while i < options.len()
                invariant
                    i <= options@.len(),
                    forall|j: int|
                        0 <= j < i ==> !same_tree(#[trigger] trees(options@)[j], value@),
                decreases options@.len() - i,
            {
                assert(trees(options@)[i as int] == options@[i as int]@);
                if same_json(&options[i], value) {
                    assert(same_tree(trees(options@)[i as int], value@));
                    return true;
                }
                i += 1;
            }
            false
        },
        None => true,
    }
}

#[verifier::loop_isolation(false)]
fn has_required(object: &JsonObject, schema: &JsonObject) -> (r: bool)
    ensures
        r == (match array_member(schema@, "required"@) {
            Some(required) => forall|i: int|
                0 <= i < required.len() ==> object@.dom().contains(
                    text_value(#[trigger] required[i]),
                ),
            None => true,
        }),
{
    match schema.array_at("required") {
        Some(required) => {
            let mut i: usize = 0;
            while i < required.len()
                invariant
                    i <= required@.len(),
                    forall|j: int|
                        0 <= j < i ==> object@.dom().contains(
                            text_value(#[trigger] trees(required@)[j]),
                        ),
                decreases required@.len() - i,
            {
                assert(trees(required@)[i as int] == required@[i as int]@);
                if !object.contains_key(string_value(&required[i]).as_str()) {
                    proof {
                        let list = array_member(schema@, "required"@)->0;
                        assert(list == trees(required@));
                        assert(!object@.dom().contains(text_value(list[i as int])));
                    }
                    return false;
                }
                i += 1;
            }
            true
        },
        None => true,
    }
}

#[verifier::loop_isolation(false)]
pub fn schema_matches(value: &Json, schema: &JsonObject) -> (r: bool)
    ensures
        r == schema_accepts(value@, schema@),
    decreases value, member_or_null(schema@, "type"@),
{
    broadcast use array_view;

    if schema.is_empty() {
        return true;
    }
    if let Some(alternatives) = schema.array_at("type") {
        let ghost kinds = trees(alternatives@);
        let ghost kind_tree = member_or_null(schema@, "type"@);
        let mut i: usize = 0;
        while i < alternatives.len()
            invariant
                i <= alternatives@.len(),
                kinds == trees(alternatives@),
                kind_tree == Tree::Array(kinds),
                forall|j: int|
                    0 <= j < i ==> !schema_accepts(
                        value@,
                        schema@.insert("type"@, #[trigger] kinds[j]),
                    ),
            decreases alternatives@.len() - i,
        {
            let copy = schema.copy().insert("type", alternatives[i].copy());
            proof {
                assert(kinds[i as int] == alternatives@[i as int]@);
                assert(member_or_null(copy@, "type"@) == kinds[i as int]);
                assert(decreases_to!(kind_tree => kind_tree->Array_0));
                assert(decreases_to!(kinds => kinds[i as int]));
            }
            if schema_matches(value, &copy) {
                assert(schema_accepts(value@, schema@.insert("type"@, kinds[i as int])));
                return true;
            }
            i += 1;
        }
        return false;
    }
    let kind = schema.text_at("type");
    if same_text(kind.as_str(), "object") {
        let object = match value {
            Json::Object(object) => object,
            _ => {
                return false;
            },
        };
        if !has_required(object, schema) {
            return false;
        }
        if let Some(properties) = schema.object_at("properties") {
            let closed_schema = match schema.bool_at("additionalProperties") {
                Some(open) => !open,
                None => false,
            };
            let keys = object.keys();
            let mut i: usize = 0;
            while i < keys.len()
                invariant
                    i <= keys@.len(),
                    decreases_to!(value => object),
                    value@ == Tree::Object(object@),
                    closed_schema == (bool_member(schema@, "additionalProperties"@) == Some(false)),
                    crate::text::texts(keys@).to_set() == object@.dom(),
                    forall|j: int|
                        0 <= j < i ==> (match object_member(properties@, (#[trigger] keys@[j])@) {
                            Some(nested) => schema_accepts(object@[keys@[j]@], nested),
                            None => !closed_schema,
                        }),
                decreases keys@.len() - i,
            {
                proof {
                    assert(crate::text::texts(keys@)[i as int] == keys@[i as int]@);
                    assert(crate::text::texts(keys@).to_set().contains(keys@[i as int]@));
                }
                match properties.object_at(keys[i].as_str()) {
                    None => {
                        if closed_schema {
                            assert(value@->Object_0.dom().contains(keys@[i as int]@));
                            return false;
                        }
                    },
                    Some(nested) => {
                        if let Some(item) = object.get(keys[i].as_str()) {
                            if !schema_matches(item, nested) {
                                assert(value@->Object_0.dom().contains(keys@[i as int]@));
                                return false;
                            }
                        }
                    },
                }
                i += 1;
            }
            proof {
                assert forall|key: Seq<char>| #[trigger] object@.dom().contains(key) implies (
                match object_member(properties@, key) {
                    Some(nested) => schema_accepts(object@[key], nested),
                    None => bool_member(schema@, "additionalProperties"@) != Some(false),
                }) by {
                    assert(crate::text::texts(keys@).to_set().contains(key));
                    let j = choose|j: int|
                        0 <= j < crate::text::texts(keys@).len() && crate::text::texts(keys@)[j]
                            == key;
                    assert(keys@[j]@ == key);
                }
            }
        }
    }
    if same_text(kind.as_str(), "array") {
        let items = match value {
            Json::Array(items) => items,
            _ => {
                return false;
            },
        };
        if let Some(nested) = schema.object_at("items") {
            let ghost values = trees(items@);
            let mut i: usize = 0;
            while i < items.len()
                invariant
                    i <= items@.len(),
                    decreases_to!(value => items),
                    values == trees(items@),
                    forall|j: int| 0 <= j < i ==> schema_accepts(#[trigger] values[j], nested@),
                decreases items@.len() - i,
            {
                proof {
                    assert(values[i as int] == items@[i as int]@);
                    assert(decreases_to!(items => items@));
                    assert(decreases_to!(items@ => items@[i as int]));
                }
                if !schema_matches(&items[i], nested) {
                    assert(!schema_accepts(value@->Array_0[i as int], nested@));
                    return false;
                }
                i += 1;
            }
        }
    }
    if same_text(kind.as_str(), "string") && !value.is_text() {
        return false;
    }
    if (same_text(kind.as_str(), "integer") || same_text(kind.as_str(), "number"))
        && !value.is_number() {
        return false;
    }
    if same_text(kind.as_str(), "boolean") && !value.is_bool() {
        return false;
    }
    if same_text(kind.as_str(), "null") && !value.is_null() {
        return false;
    }
    is_allowed_by_enum(value, schema)
}

/// The first of two fields that is not null.
pub open spec fn first_member(object: Members, key: Seq<char>, other: Seq<char>) -> Tree {
    if member_or_null(object, key) is Null {
        member_or_null(object, other)
    } else {
        member_or_null(object, key)
    }
}

fn first_value(object: &JsonObject, key: &str, other: &str) -> (r: Json)
    ensures
        r@ == first_member(object@, key@, other@),
{
    let value = object.value_or_null(key);
    if value.is_null() {
        object.value_or_null(other)
    } else {
        value
    }
}

/// The name of the tool that an inner call asks for.
pub open spec fn asked_tool(inner: Members) -> Seq<char> {
    if text_member(inner, "tool"@).len() > 0 {
        text_member(inner, "tool"@)
    } else {
        text_member(inner, "name"@)
    }
}

/// The fields that every client tool call has.
pub open spec fn call_head(native: Members, tool: ToolView) -> Members {
    let call_id = text_member(native, "call_id"@);
    let id = text_member(native, "id"@);
    let head = map![
        "type"@ => Tree::Text("function_call"@),
        "id"@ => Tree::Text(
            if id.len() == 0 {
                item_id(call_id)
            } else {
                id
            },
        ),
        "call_id"@ => Tree::Text(call_id),
        "name"@ => Tree::Text(tool.name),
    ];
    if tool.namespace.len() == 0 {
        head
    } else {
        head.insert("namespace"@, Tree::Text(tool.namespace))
    }
}

/// Arguments that the tool's parameter schema admits.
pub open spec fn admitted(arguments: Members, tool: ToolView) -> bool {
    match parameters_of(tool.spec) {
        Some(schema) => schema_accepts(Tree::Object(arguments), schema),
        None => true,
    }
}

/// The client tool call that an inner call makes of a tool.
pub open spec fn client_call(native: Members, inner: Members, tool: ToolView) -> Option<Members> {
    let head = call_head(native, tool);
    if tool.tool_type == "custom"@ {
        let input = first_member(inner, "input"@, "args"@);
        if input is Text {
            Some(
                head.insert("type"@, Tree::Text("custom_tool_call"@)).insert("input"@, input),
            )
        } else {
            None
        }
    } else {
        match arguments_in(first_member(inner, "args"@, "arguments"@)) {
            Some(arguments) => if admitted(arguments, tool) {
                Some(
                    head.insert(
                        "arguments"@,
                        Tree::Text(json_text(Tree::Object(arguments))),
                    ).insert("status"@, Tree::Text("completed"@)),
                )
            } else {
                None
            },
            None => None,
        }
    }
}

/// The client tool call that a native call stands for, if it keeps to the relay
/// contract: a transport call with an id, of a tool of the catalog.
pub open spec fn extracted_call(native: Members, tools: Catalog) -> Option<Members> {
    match envelope_of(native) {
        Some(inner) => {
            let name = asked_tool(inner);
            if name.len() > 0 && !is_transport(name) && tools.dom().contains(name) && text_member(
                native,
                "call_id"@,
            ).len() > 0 {
                client_call(native, inner, tools[name])
            } else {
                None
            }
        },
        None => None,
    }
}

fn call_head_of(native: &JsonObject, tool: &ToolSpec) -> (r: JsonObject)
    ensures
        r@ == call_head(native@, tool@),
{
    let call_id = native.text_at("call_id");
    let mut id = native.text_at("id");
    if id.as_str().is_empty() {
        id = function_item_id(call_id.as_str());
    }
    let head = JsonObject::new().insert("type", Json::Text("function_call".to_owned())).insert(
        "id",
        Json::Text(id),
    ).insert("call_id", Json::Text(call_id)).insert("name", Json::Text(tool.name.clone()));
    if tool.namespace.as_str().is_empty() {
        head
    } else {
        head.insert("namespace", Json::Text(tool.namespace.clone()))
    }
}

/// The arguments that a native transport call carries.
pub open spec fn carried_arguments(native: Members) -> Option<Members> {
    match envelope_of(native) {
        Some(inner) => arguments_in(first_member(inner, "args"@, "arguments"@)),
        None => None,
    }
}

/// The client's call, if the native call stands for one. Where the arguments of a
/// function can be written and read again, the text in the call says what the
/// native call carries.
pub fn extract_native_client_tool_call(
    native: &JsonObject,
    specs: &TextMap<ToolSpec>,
) -> (r: Option<JsonObject>)
    ensures
        optional_members(r) == extracted_call(native@, catalog_of(*specs)),
        r is Some && member_or_null(r->0@, "type"@) == Tree::Text("function_call"@)
            && carried_arguments(native@) is Some && is_plain(
            Tree::Object(carried_arguments(native@)->0),
            DEPTH_LIMIT as nat,
        ) ==> arguments_in(member_or_null(r->0@, "arguments"@)) == carried_arguments(native@),
{
    let inner = match transport_envelope(native) {
        Some(inner) => inner,
        None => {
            return None;
        },
    };
    let mut name = inner.text_at("tool");
    if name.as_str().is_empty() {
        name = inner.text_at("name");
    }
    if name.as_str().is_empty() || is_transport_name(name.as_str()) {
        return None;
    }
    let spec = match specs.get(name.as_str()) {
        Some(spec) => spec,
        None => {
            return None;
        },
    };
    if native.text_at("call_id").as_str().is_empty() {
        return None;
    }
    let head = call_head_of(native, spec);
    if same_text(spec.tool_type.as_str(), "custom") {
        let input = first_value(&inner, "input", "args");
        if !input.is_text() {
            return None;
        }
        proof {
            reveal_strlit("type");
            reveal_strlit("input");
            reveal_strlit("function_call");
            reveal_strlit("custom_tool_call");
            assert("type"@.len() != "input"@.len());
            assert("function_call"@.len() != "custom_tool_call"@.len());
        }
        return Some(
            head.insert("type", Json::Text("custom_tool_call".to_owned())).insert("input", input),
        );
    }
    let arguments = match parse_arguments(&first_value(&inner, "args", "arguments")) {
        Some(arguments) => arguments,
        None => {
            return None;
        },
    };
    let text = render_object(&arguments);
    proof {
        reveal_strlit("arguments");
        reveal_strlit("status");
        assert("arguments"@.len() != "status"@.len());
        if is_plain(Tree::Object(arguments@), DEPTH_LIMIT as nat) {
            trimmed_stays(text@);
        }
    }
    if let Some(schema) = tool_parameters(&spec.spec) {
        let value = Json::Object(arguments);
        if !schema_matches(&value, schema) {
            return None;
        }
    }
    Some(
        head.insert("arguments", Json::Text(text)).insert(
            "status",
            Json::Text("completed".to_owned()),
        ),
    )
}

} // verus!

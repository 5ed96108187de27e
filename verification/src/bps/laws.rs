//! What holds of requests and answers, whatever they say.

use crate::bps::cache::CallLog;
use crate::bps::envelope::{enum_accepts, schema_accepts};
use crate::bps::request::{prologue, request_body, translated_request};
use crate::json::{array_member, member_or_null, same_tree, text_member, text_value, Members, Tree};
use crate::text::{is_space, is_trimmed, trim, trim_start, trimmed_stays};
use vstd::prelude::*;

verus! {

pub proof fn trimming_takes_the_core(before: Seq<char>, core: Seq<char>, after: Seq<char>)
    requires
        forall|i: int| 0 <= i < before.len() ==> is_space(#[trigger] before[i]),
        forall|i: int| 0 <= i < after.len() ==> is_space(#[trigger] after[i]),
        core.len() > 0,
        !is_space(core[0]),
        !is_space(core.last()),
    ensures
        trim(before + core + after) == core,
    decreases before.len() + after.len(),
{
    let s = before + core + after;
    if before.len() > 0 {
        assert(s[0] == before[0]);
        assert(s.drop_first() =~= before.drop_first() + core + after);
        assert forall|i: int| 0 <= i < before.drop_first().len() implies is_space(
            #[trigger] before.drop_first()[i],
        ) by {
            assert(before.drop_first()[i] == before[i + 1]);
        }
        trimming_takes_the_core(before.drop_first(), core, after);
    } else {
        assert(s =~= core + after);
        assert(s[0] == core[0]);
        assert(trim_start(s) == s);
        if after.len() > 0 {
            assert(s.last() == after.last());
            assert(s.drop_last() =~= before + core + after.drop_last());
            trimming_takes_the_core(before, core, after.drop_last());
            assert(trim_start(s.drop_last()) == s.drop_last()) by {
                assert(s.drop_last()[0] == core[0]);
            }
        } else {
            assert(s =~= core);
        }
    }
}

/// The text of a request's question is the last thing that the model is told, as a
/// message of the user with that text and nothing else.
pub proof fn a_question_reaches_the_model(
    source: Members,
    text: Seq<char>,
    clock: Seq<u128>,
    log: CallLog,
)
    requires
        source.dom().contains("input"@),
        source["input"@] == Tree::Text(text),
    ensures
        ({
            let body = request_body(source, translated_request(source, clock, log).items);
            let input = body["input"@]->Array_0;
            let item = input.last()->Object_0;
            let content = item["content"@]->Array_0;
            let part = content[0]->Object_0;
            &&& body.dom().contains("input"@) && body["input"@] is Array && input.len() > 0
            &&& input.last() is Object && item.dom() == set!["type"@, "role"@, "content"@]
            &&& item["type"@] == Tree::Text("message"@) && item["role"@] == Tree::Text("user"@)
            &&& item["content"@] is Array && content.len() == 1 && content[0] is Object
            &&& part.dom() == set!["type"@, "text"@]
            &&& part["type"@] == Tree::Text("input_text"@) && part["text"@] == Tree::Text(text)
        }),
{
    keys_of_a_body_differ();
    keys_of_a_message_differ();
    let items = translated_request(source, clock, log).items;
    let body = request_body(source, items);
    assert(member_or_null(source, "input"@) == Tree::Text(text));
    assert(items.len() == 1);
    assert(body["input"@] == Tree::Array(prologue(source) + items));
    let item = (prologue(source) + items).last()->Object_0;
    assert(item.dom() =~= set!["type"@, "role"@, "content"@]);
    let part = item["content"@]->Array_0[0]->Object_0;
    assert(part.dom() =~= set!["type"@, "text"@]);
}

/// The instructions of a request are the first thing that the model is told, as a
/// message of the developer with their text, without the space around it.
pub proof fn instructions_come_first(
    source: Members,
    before: Seq<char>,
    text: Seq<char>,
    after: Seq<char>,
    items: Seq<Tree>,
)
    requires
        source.dom().contains("instructions"@),
        source["instructions"@] == Tree::Text(before + text + after),
        forall|i: int| 0 <= i < before.len() ==> is_space(#[trigger] before[i]),
        forall|i: int| 0 <= i < after.len() ==> is_space(#[trigger] after[i]),
        text.len() > 0,
        !is_space(text[0]),
        !is_space(text.last()),
    ensures
        ({
            let body = request_body(source, items);
            let input = body["input"@]->Array_0;
            let item = input[0]->Object_0;
            let content = item["content"@]->Array_0;
            let part = content[0]->Object_0;
            &&& body.dom().contains("input"@) && body["input"@] is Array
            &&& input.len() >= 2 + items.len() && input[0] is Object
            &&& item["type"@] == Tree::Text("message"@) && item["role"@] == Tree::Text("developer"@)
            &&& item["content"@] is Array && content.len() == 1 && content[0] is Object
            &&& part["type"@] == Tree::Text("input_text"@) && part["text"@] == Tree::Text(text)
            &&& forall|i: int|
                0 <= i < items.len() ==> #[trigger] input[input.len() - items.len() + i] == items[i]
        }),
{
    keys_of_a_body_differ();
    keys_of_a_message_differ();
    trimming_takes_the_core(before, text, after);
    assert(text_member(source, "instructions"@) == text);
    let body = request_body(source, items);
    assert(body["input"@] == Tree::Array(prologue(source) + items));
}

pub proof fn keys_of_a_body_differ()
    ensures
        "input"@ != "model"@ && "input"@ != "model_selection"@ && "input"@ != "stream"@ && "input"@
            != "store"@ && "input"@ != "reasoning_effort"@ && "input"@ != "context_management"@
            && "input"@ != "metadata"@ && "input"@ != "prompt_cache_key"@,
{
    reveal_strlit("input");
    reveal_strlit("model");
    reveal_strlit("model_selection");
    reveal_strlit("stream");
    reveal_strlit("store");
    reveal_strlit("reasoning_effort");
    reveal_strlit("context_management");
    reveal_strlit("metadata");
    reveal_strlit("prompt_cache_key");
    assert("input"@[0] == 'i' && "model"@[0] == 'm' && "store"@[0] == 's');
    assert("input"@.len() == 5);
}

pub proof fn keys_of_a_message_differ()
    ensures
        "type"@ != "role"@ && "type"@ != "content"@ && "role"@ != "content"@ && "type"@ != "text"@,
        "developer"@ != "assistant"@ && "user"@ != "assistant"@,
{
    reveal_strlit("type");
    reveal_strlit("role");
    reveal_strlit("content");
    reveal_strlit("text");
    reveal_strlit("developer");
    reveal_strlit("user");
    reveal_strlit("assistant");
    assert("type"@[0] == 't' && "role"@[0] == 'r' && "content"@[0] == 'c');
    assert("type"@[1] == 'y' && "text"@[1] == 'e');
    assert("developer"@[0] == 'd' && "user"@[0] == 'u' && "assistant"@[0] == 'a');
}


proof fn words_of_schemas()
    ensures
        "enum"@ != "type"@ && "required"@ != "type"@ && "properties"@ != "type"@ && "items"@
            != "type"@ && "additionalProperties"@ != "type"@,
        "object"@ != "array"@ && "object"@ != "string"@ && "object"@ != "integer"@ && "object"@
            != "number"@ && "object"@ != "boolean"@ && "object"@ != "null"@,
        "array"@ != "string"@ && "array"@ != "integer"@ && "array"@ != "number"@ && "array"@
            != "boolean"@ && "array"@ != "null"@,
        "string"@ != "integer"@ && "string"@ != "number"@ && "string"@ != "boolean"@ && "string"@
            != "null"@,
        "integer"@ != "number"@ && "integer"@ != "boolean"@ && "integer"@ != "null"@,
        "number"@ != "boolean"@ && "number"@ != "null"@ && "boolean"@ != "null"@,
        is_trimmed("object"@) && is_trimmed("array"@) && is_trimmed("string"@) && is_trimmed(
            "integer"@,
        ) && is_trimmed("number"@) && is_trimmed("boolean"@) && is_trimmed("null"@),
{
    reveal_strlit("enum");
    reveal_strlit("type");
    reveal_strlit("required");
    reveal_strlit("properties");
    reveal_strlit("items");
    reveal_strlit("additionalProperties");
    reveal_strlit("object");
    reveal_strlit("array");
    reveal_strlit("string");
    reveal_strlit("integer");
    reveal_strlit("number");
    reveal_strlit("boolean");
    reveal_strlit("null");
    assert("enum"@[0] == 'e' && "type"@[0] == 't' && "required"@[0] == 'r' && "properties"@[0]
        == 'p' && "items"@[0] == 'i' && "additionalProperties"@[0] == 'a');
    assert("object"@[0] == 'o' && "array"@[0] == 'a' && "string"@[0] == 's' && "integer"@[0] == 'i'
        && "number"@[0] == 'n' && "boolean"@[0] == 'b' && "null"@[0] == 'n');
    assert("number"@.len() == 6 && "null"@.len() == 4);
}

proof fn the_kind_of_a_schema(schema: Members, kind: Seq<char>)
    requires
        schema.dom().contains("type"@),
        schema["type"@] == Tree::Text(kind),
        is_trimmed(kind),
    ensures
        text_member(schema, "type"@) == kind,
        !(member_or_null(schema, "type"@) is Array),
        schema != Map::<Seq<char>, Tree>::empty(),
{
    trimmed_stays(kind);
    assert(!Map::<Seq<char>, Tree>::empty().dom().contains("type"@));
}

/// A schema that names one simple type, and lists no values, accepts the values of
/// that type and no others.
pub proof fn a_simple_schema_accepts_its_own_kind(value: Tree, schema: Members)
    requires
        schema.dom().contains("type"@),
        !schema.dom().contains("enum"@),
    ensures
        schema["type"@] == Tree::Text("string"@) ==> schema_accepts(value, schema) == (
        value is Text),
        schema["type"@] == Tree::Text("boolean"@) ==> schema_accepts(value, schema) == (
        value is Bool),
        schema["type"@] == Tree::Text("number"@) ==> schema_accepts(value, schema) == (
        value is Number),
        schema["type"@] == Tree::Text("integer"@) ==> schema_accepts(value, schema) == (
        value is Number),
        schema["type"@] == Tree::Text("null"@) ==> schema_accepts(value, schema) == (value is Null),
{
    words_of_schemas();
    if schema["type"@] is Text && is_trimmed(schema["type"@]->Text_0) {
        the_kind_of_a_schema(schema, schema["type"@]->Text_0);
    }
}

/// A schema that says nothing accepts everything.
pub proof fn an_empty_schema_accepts_everything(value: Tree)
    ensures
        schema_accepts(value, Map::empty()),
{
}

/// A schema for objects accepts nothing else, and no object that lacks a member it
/// requires.
pub proof fn an_object_schema_refuses_what_lacks_a_member(
    value: Tree,
    schema: Members,
    required: Seq<Tree>,
    name: Seq<char>,
    at: int,
)
    requires
        schema.dom().contains("type"@),
        schema["type"@] == Tree::Text("object"@),
        schema.dom().contains("required"@),
        schema["required"@] == Tree::Array(required),
        0 <= at < required.len(),
        required[at] == Tree::Text(name),
        is_trimmed(name),
        value is Object ==> !value->Object_0.dom().contains(name),
    ensures
        !schema_accepts(value, schema),
{
    words_of_schemas();
    the_kind_of_a_schema(schema, "object"@);
    trimmed_stays(name);
    let list = array_member(schema, "required"@)->0;
    assert(list == required);
    assert(text_value(list[at]) == name);
}

/// A schema for objects refuses an object with a member that its own schema
/// refuses, and one with a member that no schema is given for where it says that
/// there are no others.
pub proof fn an_object_schema_refuses_a_wrong_member(
    object: Members,
    schema: Members,
    properties: Members,
    key: Seq<char>,
)
    requires
        schema.dom().contains("type"@),
        schema["type"@] == Tree::Text("object"@),
        schema.dom().contains("properties"@),
        schema["properties"@] == Tree::Object(properties),
        object.dom().contains(key),
        if properties.dom().contains(key) {
            properties[key] is Object && !schema_accepts(object[key], properties[key]->Object_0)
        } else {
            schema.dom().contains("additionalProperties"@) && schema["additionalProperties"@]
                == Tree::Bool(false)
        },
    ensures
        !schema_accepts(Tree::Object(object), schema),
{
    words_of_schemas();
    the_kind_of_a_schema(schema, "object"@);
    assert(Tree::Object(object)->Object_0.dom().contains(key));
}

/// A schema for objects accepts an object that has the members it requires, and
/// whose members are accepted by the schemas that are given for them, or have none
/// where others are let in.
pub proof fn an_object_schema_accepts_what_fits(object: Members, schema: Members)
    requires
        schema.dom().contains("type"@),
        schema["type"@] == Tree::Text("object"@),
        !schema.dom().contains("enum"@),
        schema.dom().contains("required"@) && schema["required"@] is Array ==> forall|i: int|
            0 <= i < schema["required"@]->Array_0.len() ==> {
                let name = #[trigger] schema["required"@]->Array_0[i];
                name is Text && is_trimmed(name->Text_0) && object.dom().contains(name->Text_0)
            },
        schema.dom().contains("properties"@) && schema["properties"@] is Object ==> forall|
            key: Seq<char>,
        | #[trigger]
            object.dom().contains(key) ==> {
                let properties = schema["properties"@]->Object_0;
                if properties.dom().contains(key) && properties[key] is Object {
                    schema_accepts(object[key], properties[key]->Object_0)
                } else {
                    !schema.dom().contains("additionalProperties"@)
                        || schema["additionalProperties"@] != Tree::Bool(false)
                }
            },
    ensures
        schema_accepts(Tree::Object(object), schema),
{
    words_of_schemas();
    the_kind_of_a_schema(schema, "object"@);
    let value = Tree::Object(object);
    assert(value->Object_0 == object);
    if schema.dom().contains("required"@) && schema["required"@] is Array {
        let required = schema["required"@]->Array_0;
        assert forall|i: int| 0 <= i < required.len() implies object.dom().contains(
            text_value(#[trigger] required[i]),
        ) by {
            trimmed_stays(required[i]->Text_0);
        }
    }
}

/// An object whose members are texts, numbers, truth values and nulls, each of the
/// kind that its schema names, is accepted if it has all that is required.
pub proof fn an_object_of_simple_members_is_accepted(
    object: Members,
    schema: Members,
    properties: Members,
    required: Seq<Tree>,
)
    requires
        schema == map![
            "type"@ => Tree::Text("object"@),
            "properties"@ => Tree::Object(properties),
            "required"@ => Tree::Array(required),
        ],
        forall|i: int|
            0 <= i < required.len() ==> {
                let name = #[trigger] required[i];
                name is Text && is_trimmed(name->Text_0) && object.dom().contains(name->Text_0)
            },
        forall|key: Seq<char>| #[trigger]
            object.dom().contains(key) && properties.dom().contains(key) ==> {
                ||| properties[key] == Tree::Object(map!["type"@ => Tree::Text("string"@)])
                    && object[key] is Text
                ||| properties[key] == Tree::Object(map!["type"@ => Tree::Text("number"@)])
                    && object[key] is Number
                ||| properties[key] == Tree::Object(map!["type"@ => Tree::Text("integer"@)])
                    && object[key] is Number
                ||| properties[key] == Tree::Object(map!["type"@ => Tree::Text("boolean"@)])
                    && object[key] is Bool
                ||| properties[key] == Tree::Object(map!["type"@ => Tree::Text("null"@)])
                    && object[key] is Null
            },
    ensures
        schema_accepts(Tree::Object(object), schema),
{
    words_of_schemas();
    reveal_strlit("properties");
    reveal_strlit("required");
    reveal_strlit("additionalProperties");
    reveal_strlit("enum");
    assert("properties"@.len() == 10 && "required"@.len() == 8 && "enum"@.len() == 4
        && "additionalProperties"@.len() == 20);
    assert forall|key: Seq<char>| #[trigger] object.dom().contains(key) implies (
    if properties.dom().contains(key) && properties[key] is Object {
        schema_accepts(object[key], properties[key]->Object_0)
    } else {
        !schema.dom().contains("additionalProperties"@) || schema["additionalProperties"@]
            != Tree::Bool(false)
    }) by {
        if properties.dom().contains(key) {
            a_simple_schema_accepts_its_own_kind(object[key], properties[key]->Object_0);
        }
    }
    an_object_schema_accepts_what_fits(object, schema);
}

/// A schema for arrays that lists no values accepts an array if its schema for
/// items, where it has one, accepts each item, and nothing else.
pub proof fn an_array_schema_looks_at_each_item(value: Tree, schema: Members)
    requires
        schema.dom().contains("type"@),
        schema["type"@] == Tree::Text("array"@),
        !schema.dom().contains("enum"@),
    ensures
        !(value is Array) ==> !schema_accepts(value, schema),
        value is Array && (!schema.dom().contains("items"@) || !(schema["items"@] is Object))
            ==> schema_accepts(value, schema),
        value is Array && schema.dom().contains("items"@) && schema["items"@] is Object
            ==> schema_accepts(value, schema) == (forall|i: int|
            0 <= i < value->Array_0.len() ==> schema_accepts(
                #[trigger] value->Array_0[i],
                schema["items"@]->Object_0,
            )),
{
    words_of_schemas();
    the_kind_of_a_schema(schema, "array"@);
}

/// A schema with a list of types accepts what one of the types alone would.
pub proof fn one_of_several_types_is_enough(
    value: Tree,
    schema: Members,
    types: Seq<Tree>,
)
    requires
        schema.dom().contains("type"@),
        schema["type"@] == Tree::Array(types),
    ensures
        schema_accepts(value, schema) == (exists|i: int|
            0 <= i < types.len() && schema_accepts(
                value,
                schema.insert("type"@, #[trigger] types[i]),
            )),
{
    assert(!Map::<Seq<char>, Tree>::empty().dom().contains("type"@));
    let listed = member_or_null(schema, "type"@)->Array_0;
    assert(listed == types);
    if schema_accepts(value, schema) {
        let i = choose|i: int|
            0 <= i < listed.len() && schema_accepts(
                value,
                schema.insert("type"@, #[trigger] listed[i]),
            );
        assert(schema_accepts(value, schema.insert("type"@, types[i])));
    }
    if exists|i: int|
        0 <= i < types.len() && schema_accepts(
            value,
            schema.insert("type"@, #[trigger] types[i]),
        ) {
        let i = choose|i: int|
            0 <= i < types.len() && schema_accepts(
                value,
                schema.insert("type"@, #[trigger] types[i]),
            );
        assert(schema_accepts(value, schema.insert("type"@, listed[i])));
    }
}

/// A schema with a list of texts accepts these texts and no others.
pub proof fn a_list_of_values_is_all_there_is(
    text: Seq<char>,
    schema: Members,
    options: Seq<Tree>,
)
    requires
        schema == map!["type"@ => Tree::Text("string"@), "enum"@ => Tree::Array(options)],
        options.len() > 0,
        forall|i: int| 0 <= i < options.len() ==> (#[trigger] options[i]) is Text,
    ensures
        schema_accepts(Tree::Text(text), schema) == (exists|i: int|
            0 <= i < options.len() && #[trigger] options[i] == Tree::Text(text)),
{
    words_of_schemas();
    the_kind_of_a_schema(schema, "string"@);
    if exists|i: int| 0 <= i < options.len() && #[trigger] options[i] == Tree::Text(text) {
        let i = choose|i: int| 0 <= i < options.len() && #[trigger] options[i] == Tree::Text(text);
        assert(same_tree(options[i], Tree::Text(text)));
    }
    if enum_accepts(Tree::Text(text), schema) {
        let i = choose|i: int|
            0 <= i < options.len() && same_tree(
                #[trigger] options[i],
                Tree::Text(text),
            );
        assert(options[i] == Tree::Text(text));
    }
}

} // verus!

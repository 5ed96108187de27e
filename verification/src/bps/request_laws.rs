//! What a request says to the upstream, member by member.

use crate::bps::cache::{recall, CallLog};
use crate::bps::envelope::is_transport;
use crate::bps::laws::{keys_of_a_body_differ, keys_of_a_message_differ};
use crate::bps::relay_laws::a_text_member_is_read;
use crate::bps::request::{
    conversation_key, first_text, is_unanswerable, is_user_item, prologue, reasoning_effort,
    relayed_arguments, relayed_call, relayed_code, request_body, stripped, tool_outputs,
    translate_items, turn_start,
};
use crate::bps::tools::{
    by_key, call_is_required, call_name, callable_tools, catalog_line, catalog_lines, catalog_text,
    client_tools, custom_notes, declared_tools, is_picked, listed_choices, parameter_label,
    parameter_labels, parameter_summary, parameters_of, picks, tool_instructions, tool_reminder,
    tools_among, tools_of, Catalog, ToolView, NO_TOOLS, REMINDER_EXAMPLE, TOOL_CATALOG_CLOSING,
    TOOL_CATALOG_PREFIX, TOOL_CATALOG_REMINDER, TOOL_CATALOG_RULES,
};
use crate::digest::{hash_text, url_uuid};
use crate::json::{
    array_member, bool_member, json_text, member_or_null, object_member, text_member, text_value,
    Members, NumberView, Tree,
};
use crate::text::{
    contains_text, decimal, in_order, is_trimmed, join, lower, lowercase, sort_texts,
    sorting_keeps_the_texts, starts_with, text_order_sorts_a_listing, trimmed_stays,
};
use vstd::prelude::*;

verus! {

proof fn words_of_tools()
    ensures
        "function"@ != "custom"@ && "function"@ != "namespace"@ && "custom"@ != "namespace"@,
        "function"@ != "allowed_tools"@ && "custom"@ != "allowed_tools"@,
        is_trimmed("function"@) && is_trimmed("custom"@) && is_trimmed("allowed_tools"@)
            && is_trimmed("none"@) && is_trimmed("auto"@) && is_trimmed("required"@) && is_trimmed(
            "namespace"@,
        ),
        "none"@ != "auto"@ && "none"@ != "required"@ && "auto"@ != "required"@,
        "none"@.len() == 4 && "required"@.len() == 8 && "allowed_tools"@.len() == 13,
{
    reveal_strlit("function");
    reveal_strlit("custom");
    reveal_strlit("namespace");
    reveal_strlit("allowed_tools");
    reveal_strlit("none");
    reveal_strlit("auto");
    reveal_strlit("required");
    assert("function"@.len() == 8 && "custom"@.len() == 6 && "namespace"@.len() == 9);
    assert("none"@[0] == 'n' && "auto"@[0] == 'a');
}

proof fn declarations_add_up(items: Seq<Tree>, more: Tree, namespace: Seq<char>)
    ensures
        tools_among(items.push(more), namespace) == tools_among(items, namespace) + tools_of(
            more,
            namespace,
        ),
{
    assert(items.push(more).drop_last() =~= items);
}

proof fn one_more_tool(list: Seq<ToolView>, tool: ToolView)
    ensures
        by_key(list + seq![tool]) == by_key(list).insert(tool.key, tool),
{
    assert((list + seq![tool]).drop_last() =~= list);
}

/// A function or custom tool that a request declares stands in the catalog under its
/// name, with its declaration; the other tools stand there as they would without it.
pub proof fn a_declared_tool_is_in_the_catalog(
    source: Members,
    fewer: Members,
    items: Seq<Tree>,
    tool: Members,
    kind: Seq<char>,
    name: Seq<char>,
    other: Seq<char>,
)
    requires
        source.dom().contains("tools"@),
        source["tools"@] == Tree::Array(items.push(Tree::Object(tool))),
        fewer.dom().contains("tools"@),
        fewer["tools"@] == Tree::Array(items),
        tool.dom().contains("type"@),
        tool["type"@] == Tree::Text(kind),
        is_trimmed(kind),
        lowercase(kind) == "function"@ || lowercase(kind) == "custom"@,
        tool.dom().contains("name"@),
        tool["name"@] == Tree::Text(name),
        is_trimmed(name) && name.len() > 0,
    ensures
        client_tools(source).dom().contains(name),
        client_tools(source)[name].key == name,
        client_tools(source)[name].name == name,
        client_tools(source)[name].namespace.len() == 0,
        client_tools(source)[name].tool_type == lowercase(kind),
        client_tools(source)[name].spec == tool,
        other != name ==> client_tools(source).dom().contains(other) == client_tools(
            fewer,
        ).dom().contains(other),
        other != name && client_tools(fewer).dom().contains(other) ==> client_tools(source)[other]
            == client_tools(fewer)[other],
{
    words_of_tools();
    a_text_member_is_read(tool, "type"@, kind);
    a_text_member_is_read(tool, "name"@, name);
    declarations_add_up(items, Tree::Object(tool), Seq::empty());
    let added = tools_of(Tree::Object(tool), Seq::empty());
    assert(added.len() == 1);
    assert(added =~= seq![added[0]]);
    one_more_tool(tools_among(items, Seq::empty()), added[0]);
}

/// A tool of a namespace stands in the catalog under both names.
pub proof fn a_tool_of_a_namespace_is_in_the_catalog(
    source: Members,
    items: Seq<Tree>,
    space: Members,
    nested: Seq<Tree>,
    tool: Members,
    namespace: Seq<char>,
    name: Seq<char>,
)
    requires
        source.dom().contains("tools"@),
        source["tools"@] == Tree::Array(items.push(Tree::Object(space))),
        space.dom().contains("type"@),
        space["type"@] == Tree::Text("namespace"@),
        lowercase("namespace"@) == "namespace"@,
        space.dom().contains("name"@),
        space["name"@] == Tree::Text(namespace),
        is_trimmed(namespace) && namespace.len() > 0,
        space.dom().contains("tools"@),
        space["tools"@] == Tree::Array(nested.push(Tree::Object(tool))),
        tool.dom().contains("type"@),
        tool["type"@] == Tree::Text("function"@),
        lowercase("function"@) == "function"@,
        tool.dom().contains("name"@),
        tool["name"@] == Tree::Text(name),
        is_trimmed(name) && name.len() > 0,
    ensures
        ({
            let key = namespace + "."@ + name;
            &&& client_tools(source).dom().contains(key)
            &&& client_tools(source)[key].name == name
            &&& client_tools(source)[key].namespace == namespace
            &&& client_tools(source)[key].tool_type == "function"@
            &&& client_tools(source)[key].spec == tool
        }),
{
    words_of_tools();
    a_text_member_is_read(space, "type"@, "namespace"@);
    a_text_member_is_read(space, "name"@, namespace);
    a_text_member_is_read(tool, "type"@, "function"@);
    a_text_member_is_read(tool, "name"@, name);
    declarations_add_up(items, Tree::Object(space), Seq::empty());
    declarations_add_up(nested, Tree::Object(tool), namespace);
    let inner = tools_among(nested.push(Tree::Object(tool)), namespace);
    let last = tools_of(Tree::Object(tool), namespace);
    assert(last.len() == 1);
    assert(tools_of(Tree::Object(space), Seq::empty()) == inner);
    let all = tools_among(items.push(Tree::Object(space)), Seq::empty());
    assert(all =~= (tools_among(items, Seq::empty()) + tools_among(nested, namespace)) + seq![
        last[0],
    ]);
    one_more_tool(tools_among(items, Seq::empty()) + tools_among(nested, namespace), last[0]);
}

/// A declaration without a name, or that is no object, adds nothing.
pub proof fn a_nameless_declaration_adds_nothing(
    source: Members,
    fewer: Members,
    items: Seq<Tree>,
    more: Tree,
)
    requires
        source.dom().contains("tools"@),
        source["tools"@] == Tree::Array(items.push(more)),
        fewer.dom().contains("tools"@),
        fewer["tools"@] == Tree::Array(items),
        more is Object ==> !more->Object_0.dom().contains("name"@),
    ensures
        client_tools(source) == client_tools(fewer),
{
    declarations_add_up(items, more, Seq::empty());
    assert(tools_among(items.push(more), Seq::empty()) =~= tools_among(items, Seq::empty()));
}

/// Without a choice, and with the choice to let the model decide, all declared tools
/// may be called; with the choice of none, none may.
pub proof fn the_choice_of_tools_by_a_word(source: Members)
    ensures
        !source.dom().contains("tool_choice"@) ==> callable_tools(source) == client_tools(source),
        source.dom().contains("tool_choice"@) && (source["tool_choice"@] == Tree::Text("auto"@)
            || source["tool_choice"@] == Tree::Text("required"@)) ==> callable_tools(source)
            == client_tools(source),
        source.dom().contains("tool_choice"@) && source["tool_choice"@] == Tree::Text("none"@)
            ==> callable_tools(source).dom() == Set::<Seq<char>>::empty(),
{
    words_of_tools();
    trimmed_stays("none"@);
    trimmed_stays("auto"@);
    trimmed_stays("required"@);
}

/// The choice of one tool leaves that tool, if it is declared with the type that the
/// choice names, and no other.
pub proof fn the_choice_of_one_tool(
    source: Members,
    choice: Members,
    kind: Seq<char>,
    name: Seq<char>,
    key: Seq<char>,
)
    requires
        source.dom().contains("tool_choice"@),
        source["tool_choice"@] == Tree::Object(choice),
        choice.dom().contains("type"@),
        choice["type"@] == Tree::Text(kind),
        kind == "function"@ || kind == "custom"@,
        choice.dom().contains("name"@),
        choice["name"@] == Tree::Text(name),
        is_trimmed(name),
        !choice.dom().contains("namespace"@),
    ensures
        callable_tools(source).dom().contains(key) == (client_tools(source).dom().contains(key)
            && client_tools(source)[key].key == name && client_tools(source)[key].tool_type == kind),
        callable_tools(source).dom().contains(key) ==> callable_tools(source)[key] == client_tools(
            source,
        )[key],
{
    words_of_tools();
    a_text_member_is_read(choice, "type"@, kind);
    a_text_member_is_read(choice, "name"@, name);
    assert(text_member(choice, "namespace"@) == Seq::<char>::empty());
    assert(call_name(choice) == name);
    let list = listed_choices(choice);
    assert(list.len() == 1 && list[0] == Tree::Object(choice));
    let tools = client_tools(source);
    if tools.dom().contains(key) && tools[key].key == name && tools[key].tool_type == kind {
        assert(is_picked(list, tools[key]));
    }
    assert(text_member(source, "tool_choice"@).len() == 0);
}

/// A choice that lists tools leaves those that it lists.
pub proof fn the_choice_of_some_tools(
    source: Members,
    choice: Members,
    list: Seq<Tree>,
    key: Seq<char>,
)
    requires
        source.dom().contains("tool_choice"@),
        source["tool_choice"@] == Tree::Object(choice),
        choice.dom().contains("type"@),
        choice["type"@] == Tree::Text("allowed_tools"@),
        choice.dom().contains("tools"@),
        choice["tools"@] == Tree::Array(list),
        client_tools(source).dom().contains(key),
    ensures
        callable_tools(source).dom().contains(key) == exists|i: int|
            {
                &&& 0 <= i < list.len()
                &&& (#[trigger] list[i]) is Object
                &&& call_name(list[i]->Object_0) == client_tools(source)[key].key
                &&& text_member(list[i]->Object_0, "type"@) == client_tools(source)[key].tool_type
            },
        callable_tools(source).dom().contains(key) ==> callable_tools(source)[key] == client_tools(
            source,
        )[key],
{
    words_of_tools();
    a_text_member_is_read(choice, "type"@, "allowed_tools"@);
    assert(listed_choices(choice) == list);
    let tool = client_tools(source)[key];
    if is_picked(list, tool) {
        let i = choose|i: int|
            0 <= i < list.len() && (#[trigger] list[i]) is Object
                && picks(list[i]->Object_0, tool);
        assert(call_name(list[i]->Object_0) == tool.key);
    }
    if exists|i: int|
        {
            &&& 0 <= i < list.len()
            &&& (#[trigger] list[i]) is Object
            &&& call_name(list[i]->Object_0) == tool.key
            &&& text_member(list[i]->Object_0, "type"@) == tool.tool_type
        } {
        let i = choose|i: int|
            {
                &&& 0 <= i < list.len()
                &&& (#[trigger] list[i]) is Object
                &&& call_name(list[i]->Object_0) == tool.key
                &&& text_member(list[i]->Object_0, "type"@) == tool.tool_type
            };
        assert(picks(list[i]->Object_0, tool));
        assert(is_picked(list, tool));
    }
    assert(text_member(source, "tool_choice"@).len() == 0);
}

/// A call is demanded by the word, by the choice of one tool, and by a list of tools
/// that says so; not without a choice, and not where the model may decide.
pub proof fn when_a_call_is_demanded(source: Members)
    ensures
        !source.dom().contains("tool_choice"@) ==> !call_is_required(source),
        source.dom().contains("tool_choice"@) && source["tool_choice"@] == Tree::Text("required"@)
            ==> call_is_required(source),
        source.dom().contains("tool_choice"@) && (source["tool_choice"@] == Tree::Text("auto"@)
            || source["tool_choice"@] == Tree::Text("none"@)) ==> !call_is_required(source),
        source.dom().contains("tool_choice"@) && source["tool_choice"@] is Object && {
            let choice = source["tool_choice"@]->Object_0;
            choice.dom().contains("type"@) && (choice["type"@] == Tree::Text("function"@)
                || choice["type"@] == Tree::Text("custom"@))
        } ==> call_is_required(source),
        source.dom().contains("tool_choice"@) && source["tool_choice"@] is Object && {
            let choice = source["tool_choice"@]->Object_0;
            choice.dom().contains("type"@) && choice["type"@] == Tree::Text("allowed_tools"@)
                && choice.dom().contains("mode"@) && choice["mode"@] == Tree::Text("required"@)
        } ==> call_is_required(source),
        source.dom().contains("tool_choice"@) && source["tool_choice"@] is Object && {
            let choice = source["tool_choice"@]->Object_0;
            choice.dom().contains("type"@) && choice["type"@] == Tree::Text("allowed_tools"@) && (
            !choice.dom().contains("mode"@) || choice["mode"@] == Tree::Text("auto"@))
        } ==> !call_is_required(source),
{
    words_of_tools();
    trimmed_stays("none"@);
    trimmed_stays("auto"@);
    trimmed_stays("required"@);
    trimmed_stays("function"@);
    trimmed_stays("custom"@);
    trimmed_stays("allowed_tools"@);
}

/// A text stands in a longer one.
pub proof fn parts_are_contained(before: Seq<char>, part: Seq<char>, after: Seq<char>)
    ensures
        contains_text(before + part + after, part),
{
    let s = before + part + after;
    let at = before.len() as int;
    assert(s.subrange(at, at + part.len()) =~= part);
}

/// What stands in a part stands in the whole.
pub proof fn a_part_of_a_part_is_contained(
    before: Seq<char>,
    part: Seq<char>,
    after: Seq<char>,
    needle: Seq<char>,
)
    requires
        contains_text(part, needle),
    ensures
        contains_text(before + part + after, needle),
{
    let i = choose|i: int|
        0 <= i <= part.len() - needle.len() && #[trigger] part.subrange(i, i + needle.len())
            == needle;
    let s = before + part + after;
    let at = before.len() + i;
    assert(s.subrange(at, at + needle.len()) =~= part.subrange(i, i + needle.len()));
}

/// Every piece stands in the joined text.
pub proof fn a_joined_text_has_every_piece(
    pieces: Seq<Seq<char>>,
    separator: Seq<char>,
    i: int,
)
    requires
        0 <= i < pieces.len(),
    ensures
        contains_text(join(pieces, separator), pieces[i]),
    decreases pieces.len(),
{
    let empty = Seq::<char>::empty();
    if pieces.len() == 1 {
        parts_are_contained(empty, pieces[0], empty);
        assert(empty + pieces[0] + empty =~= pieces[0]);
    } else if i == pieces.len() - 1 {
        parts_are_contained(join(pieces.drop_last(), separator) + separator, pieces[i], empty);
        assert(join(pieces.drop_last(), separator) + separator + pieces[i] + empty =~= join(
            pieces,
            separator,
        ));
    } else {
        let before = pieces.drop_last();
        a_joined_text_has_every_piece(before, separator, i);
        assert(before[i] == pieces[i]);
        a_part_of_a_part_is_contained(
            empty,
            join(before, separator),
            separator + pieces.last(),
            pieces[i],
        );
        assert(empty + join(before, separator) + (separator + pieces.last()) =~= join(
            pieces,
            separator,
        ));
    }
}

proof fn a_callable_tool_has_a_line(declared: Seq<ToolView>, callable: Catalog, i: int) -> (k: int)
    requires
        0 <= i < declared.len(),
        callable.dom().contains(declared[i].key),
    ensures
        0 <= k < catalog_lines(declared, callable).len(),
        catalog_lines(declared, callable)[k] == catalog_line(declared[i]),
    decreases declared.len(),
{
    let fewer = declared.drop_last();
    let before = catalog_lines(fewer, callable);
    if i < fewer.len() {
        assert(fewer[i] == declared[i]);
        a_callable_tool_has_a_line(fewer, callable, i)
    } else {
        before.len() as int
    }
}

proof fn a_line_tells_the_tool(tool: ToolView)
    ensures
        contains_text(catalog_line(tool), "- "@ + tool.key + " ("@ + tool.tool_type + ")"@),
        text_member(tool.spec, "description"@).len() > 0 ==> contains_text(
            catalog_line(tool),
            text_member(tool.spec, "description"@),
        ),
        tool.tool_type == "function"@ && tool.spec.dom().contains("parameters"@)
            && tool.spec["parameters"@] is Object ==> contains_text(
            catalog_line(tool),
            json_text(tool.spec["parameters"@]),
        ),
        tool.tool_type == "custom"@ && tool.spec.dom().contains("format"@) && tool.spec["format"@]
            is Object ==> contains_text(catalog_line(tool), json_text(tool.spec["format"@])),
{
    words_of_tools();
    let empty = Seq::<char>::empty();
    let head = "- "@ + tool.key + " ("@ + tool.tool_type + ")"@;
    let description = text_member(tool.spec, "description"@);
    let described = if description.len() > 0 {
        head + ": "@ + description
    } else {
        head
    };
    let line = catalog_line(tool);
    let tail = if tool.tool_type == "function"@ {
        match parameters_of(tool.spec) {
            Some(parameters) => ". Its arguments are an object with "@ + parameter_summary(
                parameters,
            ) + ". JSON Schema: "@ + json_text(Tree::Object(parameters)),
            None => empty,
        }
    } else {
        match object_member(tool.spec, "format"@) {
            Some(format) => ". It receives raw text in input."@ + " Input format: "@ + json_text(
                Tree::Object(format),
            ),
            None => ". It receives raw text in input."@,
        }
    };
    assert(line =~= described + tail);
    if description.len() > 0 {
        parts_are_contained(empty, head, ": "@ + description + tail);
        assert(empty + head + (": "@ + description + tail) =~= line);
        parts_are_contained(head + ": "@, description, tail);
        assert(head + ": "@ + description + tail =~= line);
    } else {
        parts_are_contained(empty, head, tail);
        assert(empty + head + tail =~= line);
    }
    if tool.tool_type == "function"@ && tool.spec.dom().contains("parameters"@)
        && tool.spec["parameters"@] is Object {
        let parameters = tool.spec["parameters"@]->Object_0;
        let before = described + (". Its arguments are an object with "@ + parameter_summary(
            parameters,
        ) + ". JSON Schema: "@);
        parts_are_contained(before, json_text(tool.spec["parameters"@]), empty);
        assert(before + json_text(tool.spec["parameters"@]) + empty =~= line);
    }
    if tool.tool_type == "custom"@ && tool.spec.dom().contains("format"@) && tool.spec["format"@]
        is Object {
        let before = described + (". It receives raw text in input."@ + " Input format: "@);
        parts_are_contained(before, json_text(tool.spec["format"@]), empty);
        assert(before + json_text(tool.spec["format"@]) + empty =~= line);
    }
}

/// The model is told of every declared tool that it may call: its full name and type,
/// its description, and the schema or format of what it takes.
pub proof fn every_callable_tool_is_told_of(source: Members, i: int)
    requires
        ({
            let declared = declared_tools(member_or_null(source, "tools"@), Seq::empty());
            0 <= i < declared.len() && callable_tools(source).dom().contains(declared[i].key)
        }),
    ensures
        ({
            let tool = declared_tools(member_or_null(source, "tools"@), Seq::empty())[i];
            let told = tool_instructions(source);
            &&& contains_text(told, "- "@ + tool.key + " ("@ + tool.tool_type + ")"@)
            &&& text_member(tool.spec, "description"@).len() > 0 ==> contains_text(
                told,
                text_member(tool.spec, "description"@),
            )
            &&& tool.tool_type == "function"@ && tool.spec.dom().contains("parameters"@)
                && tool.spec["parameters"@] is Object ==> contains_text(
                told,
                json_text(tool.spec["parameters"@]),
            )
            &&& tool.tool_type == "custom"@ && tool.spec.dom().contains("format"@)
                && tool.spec["format"@] is Object ==> contains_text(
                told,
                json_text(tool.spec["format"@]),
            )
        }),
{
    let declared = declared_tools(member_or_null(source, "tools"@), Seq::empty());
    let callable = callable_tools(source);
    let tool = declared[i];
    let lines = catalog_lines(declared, callable);
    let k = a_callable_tool_has_a_line(declared, callable, i);
    a_line_tells_the_tool(tool);
    a_joined_text_has_every_piece(lines, "\n"@, k);
    let line = catalog_line(tool);
    let joined = join(lines, "\n"@);
    assert(callable != Map::<Seq<char>, ToolView>::empty()) by {
        assert(!Map::<Seq<char>, ToolView>::empty().dom().contains(tool.key));
    }
    let told = tool_instructions(source);
    assert(contains_text(told, line)) by {
        the_catalog_is_told(source, line);
    }
    assert forall|needle: Seq<char>| contains_text(line, needle) implies #[trigger] contains_text(
        told,
        needle,
    ) by {
        contained_in_turn(told, line, needle);
    }
}

proof fn contained_in_turn(whole: Seq<char>, part: Seq<char>, needle: Seq<char>)
    requires
        contains_text(whole, part),
        contains_text(part, needle),
    ensures
        contains_text(whole, needle),
{
    let i = choose|i: int|
        0 <= i <= whole.len() - part.len() && #[trigger] whole.subrange(i, i + part.len()) == part;
    let before = whole.take(i);
    let after = whole.skip(i + part.len());
    assert(before + part + after =~= whole);
    a_part_of_a_part_is_contained(before, part, after, needle);
}

proof fn the_catalog_is_told(source: Members, line: Seq<char>)
    requires
        callable_tools(source) != Map::<Seq<char>, ToolView>::empty(),
        contains_text(
            join(
                catalog_lines(
                    declared_tools(member_or_null(source, "tools"@), Seq::empty()),
                    callable_tools(source),
                ),
                "\n"@,
            ),
            line,
        ),
    ensures
        contains_text(tool_instructions(source), line),
{
    let declared = declared_tools(member_or_null(source, "tools"@), Seq::empty());
    let joined = join(catalog_lines(declared, callable_tools(source)), "\n"@);
    let text = catalog_text(source);
    let empty = Seq::<char>::empty();
    assert(text.take(joined.len() as int) =~= joined);
    let rest = text.skip(joined.len() as int);
    assert(empty + joined + rest =~= text);
    a_part_of_a_part_is_contained(empty, joined, rest, line);
    let before = TOOL_CATALOG_PREFIX@ + TOOL_CATALOG_RULES@;
    let after = "\n"@ + TOOL_CATALOG_REMINDER@
        + TOOL_CATALOG_CLOSING@;
    a_part_of_a_part_is_contained(before, text, after, line);
    assert(before + text + after =~= tool_instructions(source));
}

proof fn catalogs_are_finite(list: Seq<ToolView>)
    ensures
        by_key(list).dom().finite(),
    decreases list.len(),
{
    if list.len() > 0 {
        catalogs_are_finite(list.drop_last());
    }
}

/// The reminder names every tool that may be called, and is there only if there is
/// one.
pub proof fn the_reminder_names_every_tool(source: Members, key: Seq<char>)
    ensures
        callable_tools(source).dom().contains(key) ==> tool_reminder(source).len() > 0
            && contains_text(tool_reminder(source), key),
        callable_tools(source).dom() == Set::<Seq<char>>::empty() ==> tool_reminder(source).len()
            == 0,
{
    let tools = callable_tools(source);
    if tools.dom() == Set::<Seq<char>>::empty() {
        assert(tools =~= Map::<Seq<char>, ToolView>::empty());
    }
    if tools.dom().contains(key) {
        assert(!Map::<Seq<char>, ToolView>::empty().dom().contains(key));
        let names = in_order(tools.dom());
        catalogs_are_finite(declared_tools(member_or_null(source, "tools"@), Seq::empty()));
        assert(tools.dom().subset_of(client_tools(source).dom()));
        vstd::set_lib::lemma_set_subset_finite(client_tools(source).dom(), tools.dom());
        text_order_sorts_a_listing(tools.dom());
        assert(names.contains(key));
        let k = choose|k: int| 0 <= k < names.len() && names[k] == key;
        a_joined_text_has_every_piece(names, ", "@, k);
        let before = TOOL_CATALOG_REMINDER@
            + REMINDER_EXAMPLE@;
        let after = ". Other native tools are unavailable."@
            + custom_notes(names, tools);
        a_part_of_a_part_is_contained(before, join(names, ", "@), after, key);
        assert(before + join(names, ", "@) + after =~= tool_reminder(source));
        reveal_strlit(". Other native tools are unavailable.");
        assert(tool_reminder(source).len() >= after.len());
    }
}


/// A message of the user or the developer in the history goes on as it is, but for
/// what the client passes along for itself.
pub proof fn a_message_goes_on_as_it_is(
    items: Seq<Tree>,
    item: Members,
    kind: Seq<char>,
    allowed: Catalog,
    clock: Seq<u128>,
    log: CallLog,
)
    requires
        item.dom().contains("type"@),
        item["type"@] == Tree::Text(kind),
        is_trimmed(kind),
        lowercase(kind) == "message"@,
        item.dom().contains("role"@),
        item["role"@] == Tree::Text("user"@) || item["role"@] == Tree::Text("developer"@)
            || item["role"@] == Tree::Text("system"@),
    ensures
        ({
            let before = translate_items(items, allowed, clock, log);
            let after = translate_items(items.push(Tree::Object(item)), allowed, clock, log);
            &&& after.items == before.items.push(
                Tree::Object(item.remove("internal_chat_message_metadata_passthrough"@)),
            )
            &&& after.log == before.log && after.origins == before.origins
        }),
{
    words_of_items();
    assert(items.push(Tree::Object(item)).drop_last() =~= items);
    let left = stripped(item);
    a_text_member_is_read(left, "type"@, kind);
    a_text_member_is_read(left, "role"@, item["role"@]->Text_0);
}

/// What the assistant said goes on as output: each text part keeps its text, and all
/// else of the message stays.
pub proof fn what_the_assistant_said_goes_on(
    items: Seq<Tree>,
    item: Members,
    kind: Seq<char>,
    parts: Seq<Tree>,
    allowed: Catalog,
    clock: Seq<u128>,
    log: CallLog,
    i: int,
)
    requires
        item.dom().contains("type"@),
        item["type"@] == Tree::Text(kind),
        is_trimmed(kind),
        lowercase(kind) == "message"@,
        item.dom().contains("role"@),
        item["role"@] == Tree::Text("assistant"@),
        item.dom().contains("content"@),
        item["content"@] == Tree::Array(parts),
        0 <= i < parts.len(),
        parts[i] is Object,
        parts[i]->Object_0.dom().contains("type"@),
    ensures
        ({
            let before = translate_items(items, allowed, clock, log);
            let after = translate_items(items.push(Tree::Object(item)), allowed, clock, log);
            let said = after.items.last()->Object_0;
            let told = said["content"@]->Array_0;
            &&& after.items.len() == before.items.len() + 1
            &&& after.items.drop_last() == before.items
            &&& after.items.last() is Object
            &&& said["role"@] == Tree::Text("assistant"@) && said["type"@] == Tree::Text(kind)
            &&& said["content"@] is Array && told.len() == parts.len() && told[i] is Object
            &&& parts[i]->Object_0["type"@] == Tree::Text("input_text"@)
                ==> told[i]->Object_0["type"@] == Tree::Text("output_text"@)
            &&& parts[i]->Object_0["type"@] == Tree::Text("output_text"@) ==> told[i] == parts[i]
            &&& parts[i]->Object_0.dom().contains("text"@) ==> told[i]->Object_0["text"@]
                == parts[i]->Object_0["text"@]
        }),
{
    words_of_items();
    keys_of_a_message_differ();
    assert(items.push(Tree::Object(item)).drop_last() =~= items);
    let left = stripped(item);
    a_text_member_is_read(left, "type"@, kind);
    a_text_member_is_read(left, "role"@, "assistant"@);
    let before = translate_items(items, allowed, clock, log);
    let after = translate_items(items.push(Tree::Object(item)), allowed, clock, log);
    assert(array_member(left, "content"@) == Some(parts));
    assert(after.items.drop_last() =~= before.items);
    trimmed_stays("input_text"@);
    trimmed_stays("output_text"@);
}

proof fn words_of_items()
    ensures
        "internal_chat_message_metadata_passthrough"@ != "type"@
            && "internal_chat_message_metadata_passthrough"@ != "role"@
            && "internal_chat_message_metadata_passthrough"@ != "content"@
            && "internal_chat_message_metadata_passthrough"@ != "call_id"@
            && "internal_chat_message_metadata_passthrough"@ != "encrypted_content"@,
        "message"@ != "function_call"@ && "message"@ != "custom_tool_call"@ && "message"@
            != "function_call_output"@ && "message"@ != "custom_tool_call_output"@ && "message"@
            != "reasoning"@ && "message"@ != "item_reference"@,
        "function_call_output"@ != "function_call"@ && "function_call_output"@
            != "custom_tool_call"@,
        "custom_tool_call_output"@ != "function_call"@ && "custom_tool_call_output"@
            != "custom_tool_call"@,
        "reasoning"@ != "function_call"@ && "reasoning"@ != "custom_tool_call"@ && "reasoning"@
            != "function_call_output"@ && "reasoning"@ != "custom_tool_call_output"@,
        "item_reference"@ != "function_call"@ && "item_reference"@ != "custom_tool_call"@
            && "item_reference"@ != "function_call_output"@ && "item_reference"@
            != "custom_tool_call_output"@ && "item_reference"@ != "reasoning"@,
        is_trimmed("user"@) && is_trimmed("developer"@) && is_trimmed("system"@) && is_trimmed(
            "assistant"@,
        ) && is_trimmed("input_text"@) && is_trimmed("output_text"@),
        "user"@ != "assistant"@ && "developer"@ != "assistant"@ && "system"@ != "assistant"@,
        "input_text"@ != "output_text"@,
{
    reveal_strlit("internal_chat_message_metadata_passthrough");
    reveal_strlit("type");
    reveal_strlit("role");
    reveal_strlit("content");
    reveal_strlit("call_id");
    reveal_strlit("encrypted_content");
    reveal_strlit("message");
    reveal_strlit("function_call");
    reveal_strlit("custom_tool_call");
    reveal_strlit("function_call_output");
    reveal_strlit("custom_tool_call_output");
    reveal_strlit("reasoning");
    reveal_strlit("item_reference");
    reveal_strlit("user");
    reveal_strlit("developer");
    reveal_strlit("system");
    reveal_strlit("assistant");
    reveal_strlit("input_text");
    reveal_strlit("output_text");
    assert("internal_chat_message_metadata_passthrough"@.len() == 42);
    assert("type"@.len() == 4 && "role"@.len() == 4 && "content"@.len() == 7 && "call_id"@.len()
        == 7 && "encrypted_content"@.len() == 17);
    assert("message"@.len() == 7 && "function_call"@.len() == 13 && "custom_tool_call"@.len() == 16
        && "function_call_output"@.len() == 20 && "custom_tool_call_output"@.len() == 23
        && "reasoning"@.len() == 9 && "item_reference"@.len() == 14);
    assert("user"@.len() == 4 && "developer"@[0] == 'd' && "system"@.len() == 6
        && "assistant"@[0] == 'a' && "assistant"@.len() == 9);
    assert("input_text"@.len() == 10 && "output_text"@.len() == 11);
}

/// Reasoning goes on by its encrypted text alone, and stays out without one. A mere
/// reference to an item stays out.
pub proof fn reasoning_goes_on_encrypted(
    items: Seq<Tree>,
    item: Members,
    kind: Seq<char>,
    text: Seq<char>,
    allowed: Catalog,
    clock: Seq<u128>,
    log: CallLog,
)
    requires
        item.dom().contains("type"@),
        item["type"@] == Tree::Text(kind),
        is_trimmed(kind),
        is_trimmed(text),
    ensures
        ({
            let before = translate_items(items, allowed, clock, log);
            let after = translate_items(items.push(Tree::Object(item)), allowed, clock, log);
            &&& lowercase(kind) == "reasoning"@ && item.dom().contains("encrypted_content"@)
                && item["encrypted_content"@] == Tree::Text(text) && text.len() > 0
                ==> after.items == before.items.push(
                Tree::Object(
                    map![
                        "type"@ => Tree::Text("reasoning"@),
                        "summary"@ => Tree::Array(Seq::empty()),
                        "encrypted_content"@ => Tree::Text(text),
                    ],
                ),
            )
            &&& lowercase(kind) == "reasoning"@ && !item.dom().contains("encrypted_content"@)
                ==> after.items == before.items
            &&& lowercase(kind) == "item_reference"@ ==> after.items == before.items
        }),
{
    words_of_items();
    assert(items.push(Tree::Object(item)).drop_last() =~= items);
    let left = stripped(item);
    a_text_member_is_read(left, "type"@, kind);
    if item.dom().contains("encrypted_content"@) && item["encrypted_content"@] == Tree::Text(text) {
        a_text_member_is_read(left, "encrypted_content"@, text);
    }
}

/// A call of an earlier turn that was remembered goes on as the native call that it
/// was, under which its output is recognised.
pub proof fn a_remembered_call_goes_on_natively(
    items: Seq<Tree>,
    call: Members,
    output: Members,
    native: Members,
    id: Seq<char>,
    kind: Seq<char>,
    output_kind: Seq<char>,
    allowed: Catalog,
    clock: Seq<u128>,
    log: CallLog,
)
    requires
        call.dom().contains("type"@) && call["type"@] == Tree::Text(kind) && is_trimmed(kind),
        lowercase(kind) == "function_call"@ || lowercase(kind) == "custom_tool_call"@,
        output.dom().contains("type"@) && output["type"@] == Tree::Text(output_kind) && is_trimmed(
            output_kind,
        ),
        lowercase(output_kind) == "function_call_output"@ || lowercase(output_kind)
            == "custom_tool_call_output"@,
        call.dom().contains("call_id"@) && call["call_id"@] == Tree::Text(id),
        output.dom().contains("call_id"@) && output["call_id"@] == Tree::Text(id),
        is_trimmed(id) && id.len() > 0,
        recall(translate_items(items, allowed, clock, log).log, id) == Some(native),
    ensures
        ({
            let before = translate_items(items, allowed, clock, log);
            let after = translate_items(
                items.push(Tree::Object(call)).push(Tree::Object(output)),
                allowed,
                clock,
                log,
            );
            let told = after.items.last()->Object_0;
            &&& after.items.len() == before.items.len() + 2
            &&& after.items[before.items.len() as int] == Tree::Object(native)
            &&& after.items.last() is Object
            &&& told["type"@] == Tree::Text("function_call_output"@)
            &&& told["call_id"@] == Tree::Text(id)
            &&& !told.dom().contains("name"@) && !told.dom().contains("namespace"@)
            &&& output.dom().contains("output"@) ==> told["output"@] == output["output"@]
        }),
{
    words_of_items();
    words_of_outputs();
    let one = items.push(Tree::Object(call));
    let two = one.push(Tree::Object(output));
    assert(one.drop_last() =~= items);
    assert(two.drop_last() =~= one);
    let left = stripped(call);
    let right = stripped(output);
    a_text_member_is_read(left, "type"@, kind);
    a_text_member_is_read(left, "call_id"@, id);
    a_text_member_is_read(right, "type"@, output_kind);
    a_text_member_is_read(right, "call_id"@, id);
    let middle = translate_items(one, allowed, clock, log);
    assert(middle.log == translate_items(items, allowed, clock, log).log);
}

proof fn words_of_outputs()
    ensures
        "output"@ != "type"@ && "output"@ != "id"@ && "output"@ != "name"@ && "output"@
            != "namespace"@ && "output"@ != "internal_chat_message_metadata_passthrough"@,
        "call_id"@ != "type"@ && "call_id"@ != "id"@ && "call_id"@ != "name"@ && "call_id"@
            != "namespace"@,
        "type"@ != "id"@ && "type"@ != "name"@ && "type"@ != "namespace"@,
{
    reveal_strlit("output");
    reveal_strlit("type");
    reveal_strlit("id");
    reveal_strlit("name");
    reveal_strlit("namespace");
    reveal_strlit("call_id");
    reveal_strlit("internal_chat_message_metadata_passthrough");
    assert("output"@.len() == 6 && "type"@.len() == 4 && "id"@.len() == 2 && "name"@.len() == 4
        && "namespace"@.len() == 9 && "call_id"@.len() == 7
        && "internal_chat_message_metadata_passthrough"@.len() == 42);
    assert("type"@[0] == 't' && "name"@[0] == 'n');
}

/// A call of an earlier turn that was not remembered goes on as a transport call with
/// its id, if its tool is declared; its output goes on under the same id.
pub proof fn a_forgotten_call_goes_on_as_transport(
    items: Seq<Tree>,
    call: Members,
    output: Members,
    name: Seq<char>,
    id: Seq<char>,
    kind: Seq<char>,
    output_kind: Seq<char>,
    allowed: Catalog,
    clock: Seq<u128>,
    log: CallLog,
)
    requires
        call.dom().contains("type"@) && call["type"@] == Tree::Text(kind) && is_trimmed(kind),
        lowercase(kind) == "function_call"@ || lowercase(kind) == "custom_tool_call"@,
        output.dom().contains("type"@) && output["type"@] == Tree::Text(output_kind) && is_trimmed(
            output_kind,
        ),
        lowercase(output_kind) == "function_call_output"@ || lowercase(output_kind)
            == "custom_tool_call_output"@,
        call.dom().contains("call_id"@) && call["call_id"@] == Tree::Text(id),
        output.dom().contains("call_id"@) && output["call_id"@] == Tree::Text(id),
        is_trimmed(id) && id.len() > 0,
        call.dom().contains("name"@) && call["name"@] == Tree::Text(name) && is_trimmed(name),
        !call.dom().contains("namespace"@),
        allowed.dom().contains(name),
        !is_transport(name),
        recall(translate_items(items, allowed, clock, log).log, id) is None,
    ensures
        ({
            let before = translate_items(items, allowed, clock, log);
            let after = translate_items(
                items.push(Tree::Object(call)).push(Tree::Object(output)),
                allowed,
                clock,
                log,
            );
            let sent = after.items[before.items.len() as int]->Object_0;
            let told = after.items.last()->Object_0;
            &&& after.items.len() == before.items.len() + 2
            &&& after.items[before.items.len() as int] is Object
            &&& sent["type"@] == Tree::Text("function_call"@)
            &&& sent["name"@] == Tree::Text("run_officejs"@)
            &&& sent["call_id"@] == Tree::Text(id)
            &&& sent["arguments"@] is Text
            &&& after.items.last() is Object
            &&& told["type"@] == Tree::Text("function_call_output"@)
            &&& told["call_id"@] == Tree::Text(id)
            &&& output.dom().contains("output"@) ==> told["output"@] == output["output"@]
        }),
{
    words_of_items();
    words_of_outputs();
    reveal_strlit("internal_chat_message_metadata_passthrough");
    reveal_strlit("arguments");
    reveal_strlit("status");
    reveal_strlit("namespace");
    reveal_strlit("name");
    reveal_strlit("type");
    reveal_strlit("id");
    reveal_strlit("call_id");
    assert("internal_chat_message_metadata_passthrough"@.len() == 42);
    assert("arguments"@.len() == 9 && "status"@.len() == 6 && "name"@.len() == 4
        && "namespace"@.len() == 9 && "type"@.len() == 4 && "id"@.len() == 2 && "call_id"@.len()
        == 7);
    let one = items.push(Tree::Object(call));
    let two = one.push(Tree::Object(output));
    assert(one.drop_last() =~= items);
    assert(two.drop_last() =~= one);
    let left = stripped(call);
    let right = stripped(output);
    a_text_member_is_read(left, "type"@, kind);
    a_text_member_is_read(left, "call_id"@, id);
    a_text_member_is_read(left, "name"@, name);
    assert(text_member(left, "namespace"@) == Seq::<char>::empty());
    assert(call_name(left) == name);
    a_text_member_is_read(right, "type"@, output_kind);
    a_text_member_is_read(right, "call_id"@, id);
    let middle = translate_items(one, allowed, clock, log);
    assert(middle.origins.dom().contains(id));
}

/// Items that are no objects are left out.
pub proof fn other_values_are_left_out(
    items: Seq<Tree>,
    item: Tree,
    allowed: Catalog,
    clock: Seq<u128>,
    log: CallLog,
)
    requires
        !(item is Object),
    ensures
        translate_items(items.push(item), allowed, clock, log) == translate_items(
            items,
            allowed,
            clock,
            log,
        ),
{
    assert(items.push(item).drop_last() =~= items);
}

proof fn words_of_bodies()
    ensures
        "model"@.len() == 5 && "model_selection"@.len() == 15 && "stream"@.len() == 6
            && "store"@.len() == 5 && "input"@.len() == 5 && "reasoning_effort"@.len() == 16
            && "context_management"@.len() == 18 && "metadata"@.len() == 8
            && "prompt_cache_key"@.len() == 16,
        "model"@[0] == 'm' && "store"@[0] == 's' && "input"@[0] == 'i' && "reasoning_effort"@[0]
            == 'r' && "prompt_cache_key"@[0] == 'p',
        "task_id"@.len() == 7 && "turn_id"@.len() == 7 && "agent_iteration"@.len() == 15,
        "task_id"@[1] == 'a' && "turn_id"@[1] == 'u',
{
    reveal_strlit("model");
    reveal_strlit("model_selection");
    reveal_strlit("stream");
    reveal_strlit("store");
    reveal_strlit("input");
    reveal_strlit("reasoning_effort");
    reveal_strlit("context_management");
    reveal_strlit("metadata");
    reveal_strlit("prompt_cache_key");
    reveal_strlit("task_id");
    reveal_strlit("turn_id");
    reveal_strlit("agent_iteration");
}

/// The body names the upstream's own model, keeps nothing, and streams if and only if
/// the client asks for a stream.
pub proof fn the_body_names_the_model_and_streams_on_demand(source: Members, items: Seq<Tree>)
    ensures
        ({
            let body = request_body(source, items);
            &&& body["model"@] == Tree::Text("gpt-6-astra"@)
            &&& body["model_selection"@] == Tree::Text("explicit"@)
            &&& body["store"@] == Tree::Bool(false)
            &&& body["stream"@] == Tree::Bool(
                source.dom().contains("stream"@) && source["stream"@] == Tree::Bool(true),
            )
        }),
{
    words_of_bodies();
}

/// The client's rule for its context goes on as it is; without one, or with an empty
/// one, the context is compacted at the usual size.
pub proof fn the_context_rule_goes_on(source: Members, items: Seq<Tree>)
    ensures
        ({
            let body = request_body(source, items);
            let entry = Tree::Object(
                map![
                    "type"@ => Tree::Text("compaction"@),
                    "compact_threshold"@ => Tree::Number(NumberView::Unsigned(200000)),
                ],
            );
            let given = source.dom().contains("context_management"@)
                && source["context_management"@] != Tree::Null && source["context_management"@]
                != Tree::Array(Seq::empty());
            &&& given ==> body["context_management"@] == source["context_management"@]
            &&& !given ==> body["context_management"@] == Tree::Array(seq![entry])
        }),
{
    words_of_bodies();
    let policy = member_or_null(source, "context_management"@);
    if policy is Array && policy->Array_0.len() == 0 {
        assert(policy->Array_0 =~= Seq::empty());
    }
}

/// How much the model is to think is told in the upstream's words, from the place that
/// the client says it first.
pub proof fn the_effort_is_told(source: Members, items: Seq<Tree>, text: Seq<char>)
    requires
        is_trimmed(text),
        ({
            ||| source.dom().contains("reasoning"@) && source["reasoning"@] is Object
                && source["reasoning"@]->Object_0.dom().contains("effort"@)
                && source["reasoning"@]->Object_0["effort"@] == Tree::Text(text)
            ||| !source.dom().contains("reasoning"@) && source.dom().contains("reasoning_effort"@)
                && source["reasoning_effort"@] == Tree::Text(text)
        }),
    ensures
        ({
            let told = request_body(source, items)["reasoning_effort"@];
            &&& lowercase(text) == "low"@ ==> told == Tree::Text("low"@)
            &&& lowercase(text) == "medium"@ ==> told == Tree::Text("medium"@)
            &&& lowercase(text) == "high"@ ==> told == Tree::Text("high"@)
            &&& lowercase(text) == "ultra"@ ==> told == Tree::Text("ultra"@)
            &&& lowercase(text) == "xhigh"@ || lowercase(text) == "x-high"@ || lowercase(text)
                == "extra-high"@ || lowercase(text) == "extra_high"@ || lowercase(text) == "max"@
                ==> told == Tree::Text("xhigh"@)
            &&& lowercase(text) == "minimal"@ || lowercase(text) == "none"@ ==> told == Tree::Text(
                "medium"@,
            )
        }),
{
    words_of_bodies();
    trimmed_stays(text);
    reveal_strlit("low");
    reveal_strlit("medium");
    reveal_strlit("high");
    reveal_strlit("ultra");
    reveal_strlit("xhigh");
    reveal_strlit("x-high");
    reveal_strlit("extra-high");
    reveal_strlit("extra_high");
    reveal_strlit("max");
    reveal_strlit("minimal");
    reveal_strlit("none");
    assert("low"@.len() == 3 && "medium"@.len() == 6 && "high"@.len() == 4 && "ultra"@.len() == 5
        && "xhigh"@.len() == 5 && "x-high"@.len() == 6 && "extra-high"@.len() == 10
        && "extra_high"@.len() == 10 && "max"@.len() == 3 && "minimal"@.len() == 7 && "none"@.len()
        == 4);
    assert("low"@[0] == 'l' && "max"@[0] == 'm' && "ultra"@[0] == 'u' && "xhigh"@[0] == 'x'
        && "medium"@[0] == 'm' && "x-high"@[0] == 'x' && "high"@[0] == 'h' && "none"@[0] == 'n');
}

/// Without a word on effort the model thinks as it usually does.
pub proof fn the_usual_effort_is_medium(source: Members, items: Seq<Tree>)
    requires
        !source.dom().contains("reasoning"@),
        !source.dom().contains("reasoning_effort"@),
        lowercase(Seq::empty()) == Seq::<char>::empty(),
    ensures
        request_body(source, items)["reasoning_effort"@] == Tree::Text("medium"@),
{
    words_of_bodies();
    reveal_strlit("low");
    reveal_strlit("high");
    reveal_strlit("ultra");
    reveal_strlit("xhigh");
    reveal_strlit("x-high");
    reveal_strlit("extra-high");
    reveal_strlit("extra_high");
    reveal_strlit("max");
    assert("low"@.len() == 3 && "high"@.len() == 4 && "ultra"@.len() == 5 && "xhigh"@.len() == 5
        && "x-high"@.len() == 6 && "extra-high"@.len() == 10 && "extra_high"@.len() == 10
        && "max"@.len() == 3);
}

/// A conversation that the client names is known by that name: the upstream caches by
/// it, and the task is named after it.
pub proof fn a_named_conversation_keeps_its_name(
    source: Members,
    items: Seq<Tree>,
    key: Seq<char>,
)
    requires
        key.len() > 0,
        is_trimmed(key),
        ({
            ||| source.dom().contains("prompt_cache_key"@) && source["prompt_cache_key"@]
                == Tree::Text(key)
            ||| !source.dom().contains("prompt_cache_key"@) && source.dom().contains(
                "promptCacheKey"@,
            ) && source["promptCacheKey"@] == Tree::Text(key)
            ||| !source.dom().contains("prompt_cache_key"@) && !source.dom().contains(
                "promptCacheKey"@,
            ) && source.dom().contains("session_id"@) && source["session_id"@] == Tree::Text(key)
            ||| !source.dom().contains("prompt_cache_key"@) && !source.dom().contains(
                "promptCacheKey"@,
            ) && !source.dom().contains("session_id"@) && source.dom().contains("sessionId"@)
                && source["sessionId"@] == Tree::Text(key)
            ||| !source.dom().contains("prompt_cache_key"@) && !source.dom().contains(
                "promptCacheKey"@,
            ) && !source.dom().contains("session_id"@) && !source.dom().contains("sessionId"@)
                && source.dom().contains("client_metadata"@) && source["client_metadata"@] is Object
                && source["client_metadata"@]->Object_0.dom().contains("session_id"@)
                && source["client_metadata"@]->Object_0["session_id"@] == Tree::Text(key)
            ||| !source.dom().contains("prompt_cache_key"@) && !source.dom().contains(
                "promptCacheKey"@,
            ) && !source.dom().contains("session_id"@) && !source.dom().contains("sessionId"@)
                && source.dom().contains("client_metadata"@) && source["client_metadata"@] is Object
                && !source["client_metadata"@]->Object_0.dom().contains("session_id"@)
                && source["client_metadata"@]->Object_0.dom().contains("sessionId"@)
                && source["client_metadata"@]->Object_0["sessionId"@] == Tree::Text(key)
        }),
    ensures
        ({
            let body = request_body(source, items);
            let metadata = body["metadata"@]->Object_0;
            &&& body.dom().contains("prompt_cache_key"@)
            &&& body["prompt_cache_key"@] == Tree::Text(key)
            &&& body["metadata"@] is Object
            &&& metadata["task_id"@] == Tree::Text(url_uuid("cpa-oai-basispoints/"@ + key))
        }),
{
    words_of_bodies();
    trimmed_stays(key);
    reveal_with_fuel(first_text, 5);
    let names = seq!["prompt_cache_key"@, "promptCacheKey"@, "session_id"@, "sessionId"@];
    assert(names.drop_first() =~= seq!["promptCacheKey"@, "session_id"@, "sessionId"@]);
    assert(names.drop_first().drop_first() =~= seq!["session_id"@, "sessionId"@]);
    assert(names.drop_first().drop_first().drop_first() =~= seq!["sessionId"@]);
    assert(names.drop_first().drop_first().drop_first().drop_first() =~= Seq::empty());
    let inner = seq!["session_id"@, "sessionId"@];
    assert(inner.drop_first() =~= seq!["sessionId"@]);
    assert(inner.drop_first().drop_first() =~= Seq::empty());
    assert(conversation_key(source) == key);
}

/// A conversation without a name is known by its first item, so that it stays the same
/// as items are added; it is not cached by a name.
pub proof fn a_nameless_conversation_goes_by_its_first_item(
    source: Members,
    first: Tree,
    rest: Seq<Tree>,
)
    requires
        !source.dom().contains("prompt_cache_key"@),
        !source.dom().contains("promptCacheKey"@),
        !source.dom().contains("session_id"@),
        !source.dom().contains("sessionId"@),
        !source.dom().contains("client_metadata"@),
        first is Object,
    ensures
        ({
            let body = request_body(source, seq![first] + rest);
            let metadata = body["metadata"@]->Object_0;
            &&& !body.dom().contains("prompt_cache_key"@)
            &&& body["metadata"@] is Object
            &&& metadata["task_id"@] == Tree::Text(
                url_uuid("cpa-oai-basispoints/"@ + hash_text(json_text(first))),
            )
        }),
{
    words_of_bodies();
    reveal_with_fuel(first_text, 5);
    let names = seq!["prompt_cache_key"@, "promptCacheKey"@, "session_id"@, "sessionId"@];
    assert(names.drop_first() =~= seq!["promptCacheKey"@, "session_id"@, "sessionId"@]);
    assert(names.drop_first().drop_first() =~= seq!["session_id"@, "sessionId"@]);
    assert(names.drop_first().drop_first().drop_first() =~= seq!["sessionId"@]);
    assert(names.drop_first().drop_first().drop_first().drop_first() =~= Seq::empty());
    assert(conversation_key(source).len() == 0);
    assert((seq![first] + rest)[0] == first);
}

proof fn the_turn_starts_at_the_last_user_item(items: Seq<Tree>, at: int)
    requires
        0 <= at < items.len(),
        is_user_item(items[at]),
        forall|j: int| at < j < items.len() ==> !is_user_item(#[trigger] items[j]),
    ensures
        turn_start(items) == at + 1,
    decreases items.len(),
{
    if at < items.len() - 1 {
        let fewer = items.drop_last();
        assert(fewer[at] == items[at]);
        assert forall|j: int| at < j < fewer.len() implies !is_user_item(#[trigger] fewer[j]) by {
            assert(fewer[j] == items[j]);
        }
        assert(!is_user_item(items[items.len() - 1]));
        the_turn_starts_at_the_last_user_item(fewer, at);
    }
}

/// A turn goes from its user's message on: it is known by the input up to that message,
/// and its steps are counted by the tool outputs since.
pub proof fn a_turn_is_known_by_its_user_message(
    source: Members,
    items: Seq<Tree>,
    sent: Seq<Tree>,
    at: int,
    key: Seq<char>,
)
    requires
        source.dom().contains("input"@),
        source["input"@] == Tree::Array(items),
        source.dom().contains("prompt_cache_key"@),
        source["prompt_cache_key"@] == Tree::Text(key),
        key.len() > 0 && is_trimmed(key),
        0 <= at < items.len(),
        items[at] is Object,
        items[at]->Object_0.dom().contains("role"@),
        items[at]->Object_0["role"@] == Tree::Text("user"@),
        forall|j: int|
            at < j < items.len() ==> {
                let item = #[trigger] items[j];
                item is Object && !item->Object_0.dom().contains("role"@)
            },
    ensures
        ({
            let metadata = request_body(source, sent)["metadata"@]->Object_0;
            &&& metadata["turn_id"@] == Tree::Text(
                url_uuid(
                    "cpa-oai-basispoints/"@ + key + "/turn/"@ + hash_text(
                        json_text(Tree::Array(items.take(at + 1))),
                    ),
                ),
            )
            &&& metadata["agent_iteration"@] == Tree::Text(
                decimal(1 + tool_outputs(items.skip(at + 1))),
            )
        }),
{
    words_of_bodies();
    words_of_items();
    a_named_conversation_keeps_its_name(source, sent, key);
    trimmed_stays("user"@);
    trimmed_stays(key);
    assert(is_user_item(items[at]));
    reveal_strlit("user");
    assert forall|j: int| at < j < items.len() implies !is_user_item(#[trigger] items[j]) by {
        let role = text_member(items[j]->Object_0, "role"@);
        assert(role.len() == 0);
        assert(lower(role).len() == 0);
        assert(lower("user"@).len() == 4);
    }
    the_turn_starts_at_the_last_user_item(items, at);
    reveal_with_fuel(first_text, 2);
}

/// A tool output counts one step, anything else none.
pub proof fn each_tool_output_is_a_step(items: Seq<Tree>, item: Tree)
    ensures
        item is Object && item->Object_0.dom().contains("type"@) && (item->Object_0["type"@]
            == Tree::Text("function_call_output"@) || item->Object_0["type"@] == Tree::Text(
            "custom_tool_call_output"@,
        )) ==> tool_outputs(items.push(item)) == tool_outputs(items) + 1,
        !(item is Object) || !item->Object_0.dom().contains("type"@) || item->Object_0["type"@]
            == Tree::Text("function_call"@) ==> tool_outputs(items.push(item)) == tool_outputs(
            items,
        ),
        tool_outputs(Seq::empty()) == 0,
{
    assert(items.push(item).drop_last() =~= items);
    reveal_strlit("function_call_output");
    reveal_strlit("custom_tool_call_output");
    reveal_strlit("function_call");
    assert(is_trimmed("function_call_output"@) && is_trimmed("custom_tool_call_output"@)
        && is_trimmed("function_call"@));
    trimmed_stays("function_call_output"@);
    trimmed_stays("custom_tool_call_output"@);
    trimmed_stays("function_call"@);
    assert("function_call_output"@.len() == 20 && "custom_tool_call_output"@.len() == 23
        && "function_call"@.len() == 13);
}

proof fn a_sorted_list_has_every_text(list: Seq<Seq<char>>, i: int) -> (k: int)
    requires
        0 <= i < list.len(),
    ensures
        0 <= k < sort_texts(list).len(),
        sort_texts(list)[k] == list[i],
{
    broadcast use vstd::seq_lib::group_to_multiset_ensures;

    sorting_keeps_the_texts(list);
    assert(list.to_multiset().contains(list[i]));
    assert(sort_texts(list).to_multiset().contains(list[i]));
    sort_texts(list).index_of(list[i])
}

/// The model is told each parameter of a tool by its name, with whether the schema
/// requires it. A schema without properties is told as such.
pub proof fn every_parameter_is_told_of(
    parameters: Members,
    properties: Members,
    required: Seq<Tree>,
    name: Seq<char>,
)
    requires
        parameters.dom().contains("properties"@),
        parameters["properties"@] == Tree::Object(properties),
        parameters.dom().contains("required"@),
        parameters["required"@] == Tree::Array(required),
        properties.dom().finite(),
        properties.dom().contains(name),
        is_trimmed(name) && name.len() > 0,
    ensures
        required.contains(Tree::Text(name)) ==> contains_text(
            parameter_summary(parameters),
            name + " (required)"@,
        ),
        (forall|i: int|
            0 <= i < required.len() ==> text_value(#[trigger] required[i]) != name)
            ==> contains_text(parameter_summary(parameters), name + " (optional)"@),
{
    trimmed_stays(name);
    let names = in_order(properties.dom());
    text_order_sorts_a_listing(properties.dom());
    assert(names.contains(name));
    let at = names.index_of(name);
    let labels = parameter_labels(required, names);
    assert(labels[at] == parameter_label(required, name));
    let k = a_sorted_list_has_every_text(labels, at);
    a_joined_text_has_every_piece(sort_texts(labels), ", "@, k);
    assert(properties != Map::<Seq<char>, Tree>::empty());
    if required.contains(Tree::Text(name)) {
        let i = required.index_of(Tree::Text(name));
        assert(text_value(required[i]) == name);
    }
}

/// The model is told the client's choice of tools, and that it may call one at most
/// where calls may not be made in parallel.
pub proof fn the_choice_and_the_limit_are_told(source: Members)
    ensures
        source.dom().contains("tool_choice"@) && !(source["tool_choice"@] is Null)
            ==> contains_text(catalog_text(source), json_text(source["tool_choice"@])),
        source.dom().contains("parallel_tool_calls"@) && source["parallel_tool_calls"@]
            == Tree::Bool(false) ==> contains_text(
            catalog_text(source),
            "Invoke at most one client tool in this response."@,
        ),
{
    let declared = declared_tools(member_or_null(source, "tools"@), Seq::empty());
    let lines = join(catalog_lines(declared, callable_tools(source)), "\n"@);
    let choice = member_or_null(source, "tool_choice"@);
    let limit = "\nInvoke at most one client tool in this response."@;
    let words = "Invoke at most one client tool in this response."@;
    let empty = Seq::<char>::empty();
    let with_choice = if choice is Null {
        lines
    } else {
        lines + "\nClient tool_choice: "@ + json_text(choice)
    };
    if !(choice is Null) {
        let before = lines + "\nClient tool_choice: "@;
        if bool_member(source, "parallel_tool_calls"@) == Some(false) {
            parts_are_contained(before, json_text(choice), limit);
        } else {
            parts_are_contained(before, json_text(choice), empty);
            assert(before + json_text(choice) + empty =~= with_choice);
        }
    }
    if bool_member(source, "parallel_tool_calls"@) == Some(false) {
        reveal_strlit("\nInvoke at most one client tool in this response.");
        reveal_strlit("Invoke at most one client tool in this response.");
        assert(limit =~= seq!['\n'] + words);
        parts_are_contained(with_choice + seq!['\n'], words, empty);
        assert(with_choice + seq!['\n'] + words + empty =~= catalog_text(source));
    }
}

/// A request that demands a call and offers no tool to call cannot be answered; any
/// other can.
pub proof fn which_requests_cannot_be_answered(source: Members, key: Seq<char>)
    ensures
        !call_is_required(source) ==> !is_unanswerable(source),
        callable_tools(source).dom().contains(key) ==> !is_unanswerable(source),
        call_is_required(source) && (forall|k: Seq<char>|
            !(#[trigger] callable_tools(source).dom().contains(k))) ==> is_unanswerable(source),
{
    if forall|k: Seq<char>| !(#[trigger] callable_tools(source).dom().contains(k)) {
        assert(callable_tools(source) =~= Map::<Seq<char>, ToolView>::empty());
    }
}

/// A developer's message with one piece of text.
pub open spec fn tells(message: Tree, text: Seq<char>) -> bool {
    &&& message is Object
    &&& message->Object_0["type"@] == Tree::Text("message"@)
    &&& message->Object_0["role"@] == Tree::Text("developer"@)
    &&& message->Object_0["content"@] is Array
    &&& message->Object_0["content"@]->Array_0.len() == 1
    &&& message->Object_0["content"@]->Array_0[0] is Object
    &&& message->Object_0["content"@]->Array_0[0]->Object_0["type"@] == Tree::Text("input_text"@)
    &&& message->Object_0["content"@]->Array_0[0]->Object_0["text"@] == Tree::Text(text)
}

/// Before the conversation the model is told the client's instructions, if there are
/// any, then about the tools, and where there are tools a reminder of them. Nothing
/// else stands there, and the conversation follows as it is.
pub proof fn what_stands_before_the_conversation(source: Members, items: Seq<Tree>)
    ensures
        ({
            let input = request_body(source, items)["input"@]->Array_0;
            let first = if text_member(source, "instructions"@).len() > 0 {
                1int
            } else {
                0int
            };
            let reminded = if tool_reminder(source).len() > 0 {
                1int
            } else {
                0int
            };
            &&& request_body(source, items)["input"@] is Array
            &&& input.len() == first + 1 + reminded + items.len()
            &&& first == 1 ==> tells(input[0], text_member(source, "instructions"@))
            &&& tells(input[first], tool_instructions(source))
            &&& reminded == 1 ==> tells(input[first + 1], tool_reminder(source))
            &&& forall|i: int|
                0 <= i < items.len() ==> #[trigger] input[first + 1 + reminded + i] == items[i]
        }),
        !source.dom().contains("instructions"@) ==> text_member(source, "instructions"@).len() == 0,
        callable_tools(source).dom() == Set::<Seq<char>>::empty() ==> tool_instructions(source)
            == NO_TOOLS@ && tool_reminder(source).len() == 0,
{
    keys_of_a_body_differ();
    keys_of_a_message_differ();
    if callable_tools(source).dom() == Set::<Seq<char>>::empty() {
        assert(callable_tools(source) =~= Map::<Seq<char>, ToolView>::empty());
    }
    assert(request_body(source, items)["input"@] == Tree::Array(prologue(source) + items));
}

/// A call that goes on as transport has the id of the client's call, or one made from
/// the clock where that has none, and the item id that goes with it. Its arguments are
/// a JSON object with the tool and what the tool is called with, as JSON in `code`, and
/// a summary that names the tool.
pub proof fn what_a_relayed_call_carries(
    item: Members,
    nanos: nat,
    name: Seq<char>,
    id: Seq<char>,
    arguments: Members,
) -> (carried: (Members, Members))
    requires
        item.dom().contains("name"@) && item["name"@] == Tree::Text(name) && is_trimmed(name),
        !item.dom().contains("namespace"@),
        item.dom().contains("type"@) && item["type"@] == Tree::Text("function_call"@),
        item.dom().contains("arguments"@) && item["arguments"@] == Tree::Object(arguments),
    ensures
        ({
            let sent = relayed_call(item, nanos);
            let (outer, inner) = carried;
            &&& sent["type"@] == Tree::Text("function_call"@)
            &&& sent["name"@] == Tree::Text("run_officejs"@)
            &&& sent["status"@] == Tree::Text("completed"@)
            &&& sent["arguments"@] == Tree::Text(json_text(Tree::Object(outer)))
            &&& outer["code"@] == Tree::Text(json_text(Tree::Object(inner)))
            &&& outer["summary"@] == Tree::Text("Run client tool "@ + name)
            &&& outer["extended_summary"@] == Tree::Text(
                "Relay "@ + name + " through the external client"@,
            )
            &&& outer["destructive"@] == Tree::Bool(false)
            &&& outer["references"@] is Array && outer["references"@]->Array_0.len() == 0
            &&& inner["tool"@] == Tree::Text(name)
            &&& inner["args"@] == Tree::Object(arguments)
            &&& item.dom().contains("call_id"@) && item["call_id"@] == Tree::Text(id)
                && is_trimmed(id) && id.len() > 0 ==> sent["call_id"@] == Tree::Text(id)
            &&& item.dom().contains("call_id"@) && item["call_id"@] == Tree::Text(id)
                && is_trimmed(id) && id.len() > 0 && !starts_with(id, "fc_"@) ==> sent["id"@]
                == Tree::Text("fc_"@ + id)
            &&& item.dom().contains("call_id"@) && item["call_id"@] == Tree::Text(id)
                && is_trimmed(id) && starts_with(id, "fc_"@) ==> sent["id"@] == Tree::Text(id)
            &&& !item.dom().contains("call_id"@) ==> sent["call_id"@] == Tree::Text(
                "call_bp_"@ + hash_text(decimal(nanos)),
            )
        }),
{
    reveal_strlit("type");
    reveal_strlit("id");
    reveal_strlit("call_id");
    reveal_strlit("name");
    reveal_strlit("arguments");
    reveal_strlit("status");
    reveal_strlit("summary");
    reveal_strlit("extended_summary");
    reveal_strlit("code");
    reveal_strlit("destructive");
    reveal_strlit("references");
    reveal_strlit("tool");
    reveal_strlit("args");
    reveal_strlit("function_call");
    reveal_strlit("custom_tool_call");
    reveal_strlit("fc_");
    assert("type"@.len() == 4 && "type"@[0] == 't');
    assert("name"@.len() == 4 && "name"@[0] == 'n');
    assert("code"@.len() == 4 && "id"@.len() == 2 && "call_id"@.len() == 7);
    assert("arguments"@.len() == 9 && "status"@.len() == 6 && "summary"@.len() == 7);
    assert("extended_summary"@.len() == 16 && "destructive"@.len() == 11);
    assert("references"@.len() == 10);
    assert("tool"@.len() == 4 && "tool"@[0] == 't' && "args"@.len() == 4 && "args"@[0] == 'a');
    assert("function_call"@.len() == 13 && "custom_tool_call"@.len() == 16);
    assert(is_trimmed("function_call"@));
    a_text_member_is_read(item, "name"@, name);
    a_text_member_is_read(item, "type"@, "function_call"@);
    if item.dom().contains("call_id"@) && item["call_id"@] == Tree::Text(id) && is_trimmed(id) {
        a_text_member_is_read(item, "call_id"@, id);
    }
    assert(call_name(item) == name);
    (relayed_arguments(item), relayed_code(item))
}

} // verus!

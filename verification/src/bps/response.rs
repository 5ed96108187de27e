//! The upstream's answer, with its native calls replaced by the client's.

use crate::json::{
    array_member, array_view, bool_member, member_or_null, text_member, trees,
    Json, JsonObject, Members, Tree,
};
use crate::text::{same_text, texts};
use crate::text_map::TextMap;
use crate::bps::cache::{
    is_remembered, log_is_valid, recall, remember, remembering_keeps_the_log_valid, CallLog,
    NativeCallCache, NATIVE_CALL_CACHE_CAP,
};
use crate::bps::envelope::{extract_native_client_tool_call, extracted_call};
use crate::bps::tools::{
    callable_client_tool_specs, callable_tools, call_is_required, catalog_of,
    client_tool_call_required, Catalog, ToolSpec,
};
use vstd::prelude::*;

verus! {

pub const MISMATCHED_CALL: &'static str = "Basis Points returned a tool call that does not match the client tool catalog or relay contract";

pub const DUPLICATE_CALL: &'static str = "Basis Points returned duplicate tool call IDs";

pub const MISSING_CALL: &'static str = "Basis Points did not satisfy the required client tool_choice";

pub const PARALLEL_CALLS: &'static str = "Basis Points returned multiple tool calls while parallel_tool_calls is false";

/// An output item that is a call of a tool.
pub open spec fn is_call(item: Tree) -> bool {
    item is Object && {
        let kind = text_member(item->Object_0, "type"@);
        kind == "function_call"@ || kind == "custom_tool_call"@
    }
}

/// What came of replacing the calls in a list of output items.
pub enum Relay {
    Broken(Seq<char>),
    Sound { items: Seq<Tree>, natives: Seq<Members>, ids: Set<Seq<char>> },
}

/// Replaces each call by the client's call, until one cannot be replaced or
/// comes with an id that an earlier one had.
pub open spec fn relay(output: Seq<Tree>, tools: Catalog) -> Relay
    decreases output.len(),
{
    if output.len() == 0 {
        Relay::Sound { items: Seq::empty(), natives: Seq::empty(), ids: Set::empty() }
    } else {
        match relay(output.drop_last(), tools) {
            Relay::Broken(message) => Relay::Broken(message),
            Relay::Sound { items, natives, ids } => relay_step(
                items,
                natives,
                ids,
                output.last(),
                tools,
            ),
        }
    }
}

pub open spec fn relay_step(
    items: Seq<Tree>,
    natives: Seq<Members>,
    ids: Set<Seq<char>>,
    item: Tree,
    tools: Catalog,
) -> Relay {
    if !is_call(item) {
        Relay::Sound { items: items.push(item), natives, ids }
    } else {
        match extracted_call(item->Object_0, tools) {
            None => Relay::Broken(MISMATCHED_CALL@),
            Some(call) => {
                let id = text_member(call, "call_id"@);
                if ids.contains(id) {
                    Relay::Broken(DUPLICATE_CALL@)
                } else {
                    Relay::Sound {
                        items: items.push(Tree::Object(call)),
                        natives: natives.push(item->Object_0),
                        ids: ids.insert(id),
                    }
                }
            },
        }
    }
}

pub open spec fn output_of(response: Members) -> Seq<Tree> {
    match array_member(response, "output"@) {
        Some(output) => output,
        None => Seq::empty(),
    }
}

/// What is made of an answer: a refusal with its reason, the answer as it is, or
/// the answer with these items and with these native calls to remember.
pub enum Verdict {
    Refused(Seq<char>),
    Unchanged,
    Relayed { items: Seq<Tree>, natives: Seq<Members> },
}

pub open spec fn verdict(response: Members, source: Members) -> Verdict {
    match relay(output_of(response), callable_tools(source)) {
        Relay::Broken(message) => Verdict::Refused(message),
        Relay::Sound { items, natives, ids } => if natives.len() == 0 {
            if call_is_required(source) {
                Verdict::Refused(MISSING_CALL@)
            } else {
                Verdict::Unchanged
            }
        } else if bool_member(source, "parallel_tool_calls"@) == Some(false) && natives.len() > 1 {
            Verdict::Refused(PARALLEL_CALLS@)
        } else {
            Verdict::Relayed { items, natives }
        },
    }
}

/// The event that reports a refused answer.
pub open spec fn refusal(response: Members, message: Seq<char>) -> Members {
    map![
        "type"@ => Tree::Text("response.failed"@),
        "response"@ => Tree::Object(
            map![
                "id"@ => member_or_null(response, "id"@),
                "status"@ => Tree::Text("failed"@),
                "error"@ => Tree::Object(
                    map![
                        "code"@ => Tree::Text("invalid_tool_call"@),
                        "message"@ => Tree::Text(message),
                    ],
                ),
            ],
        ),
    ]
}

pub open spec fn remember_all(log: CallLog, natives: Seq<Members>) -> CallLog
    decreases natives.len(),
{
    if natives.len() == 0 {
        log
    } else {
        remember(remember_all(log, natives.drop_last()), natives.last())
    }
}

fn refusal_event(response: &JsonObject, message: &str) -> (r: JsonObject)
    ensures
        r@ == refusal(response@, message@),
{
    let error = JsonObject::new().insert(
        "code",
        Json::Text("invalid_tool_call".to_owned()),
    ).insert("message", Json::Text(message.to_owned()));
    let inner = JsonObject::new().insert("id", response.value_or_null("id")).insert(
        "status",
        Json::Text("failed".to_owned()),
    ).insert("error", Json::Object(error));
    JsonObject::new().insert("type", Json::Text("response.failed".to_owned())).insert(
        "response",
        Json::Object(inner),
    )
}

pub open spec fn members_list(objects: Seq<JsonObject>) -> Seq<Members> {
    objects.map_values(|object: JsonObject| object@)
}

/// A relay under way, or the reason why it stopped.
struct RelayState {
    items: Vec<Json>,
    natives: Vec<JsonObject>,
    ids: Vec<String>,
}

spec fn state_of(state: RelayState) -> Relay {
    Relay::Sound {
        items: trees(state.items@),
        natives: members_list(state.natives@),
        ids: texts(state.ids@).to_set(),
    }
}

fn has_id(ids: &Vec<String>, id: &str) -> (r: bool)
    ensures
        r == texts(ids@).to_set().contains(id@),
{
    let mut i: usize = 0;
    while i < ids.len()
        invariant
            i <= ids@.len(),
            forall|j: int| 0 <= j < i ==> (#[trigger] texts(ids@)[j]) != id@,
        decreases ids@.len() - i,
    {
        assert(texts(ids@)[i as int] == ids@[i as int]@);
        if same_text(ids[i].as_str(), id) {
            assert(texts(ids@).contains(id@));
            return true;
        }
        i += 1;
    }
    false
}

fn relay_items(output: &Vec<Json>, specs: &TextMap<ToolSpec>) -> (r: Result<
    RelayState,
    &'static str,
>)
    ensures
        match r {
            Ok(state) => relay(trees(output@), catalog_of(*specs)) == state_of(state),
            Err(message) => relay(trees(output@), catalog_of(*specs)) == Relay::Broken(message@),
        },
{
    let mut state = RelayState { items: Vec::new(), natives: Vec::new(), ids: Vec::new() };
    let ghost all = trees(output@);
    let ghost tools = catalog_of(*specs);
    let mut i: usize = 0;
    proof {
        assert(all.take(0) =~= Seq::empty());
        assert(trees(state.items@) =~= Seq::empty());
        assert(members_list(state.natives@) =~= Seq::empty());
        assert(texts(state.ids@).to_set() =~= Set::empty());
    }
    while i < output.len()
        invariant
            i <= output@.len(),
            all == trees(output@),
            tools == catalog_of(*specs),
            relay(all.take(i as int), tools) == state_of(state),
        decreases output@.len() - i,
    {
        let ghost before = state;
        proof {
            assert(all.take(i + 1).drop_last() =~= all.take(i as int));
            assert(all.take(i + 1).last() == output@[i as int]@);
            broken_stays_broken(all, tools, i + 1);
        }
        let call_object = match &output[i] {
            Json::Object(item) => {
                let kind = item.text_at("type");
                if same_text(kind.as_str(), "function_call") || same_text(
                    kind.as_str(),
                    "custom_tool_call",
                ) {
                    Some(item)
                } else {
                    None
                }
            },
            _ => None,
        };
        match call_object {
            None => {
                state.items.push(output[i].copy());
                proof {
                    assert(trees(state.items@) =~= trees(before.items@).push(all[i as int]));
                }
            },
            Some(item) => match extract_native_client_tool_call(item, specs) {
                None => {
                    return Err(MISMATCHED_CALL);
                },
                Some(call) => {
                    let id = call.text_at("call_id");
                    if has_id(&state.ids, id.as_str()) {
                        return Err(DUPLICATE_CALL);
                    }
                    let ghost id_text = id@;
                    let ghost made = call@;
                    state.ids.push(id);
                    state.items.push(Json::Object(call));
                    state.natives.push(item.copy());
                    proof {
                        assert(trees(state.items@) =~= trees(before.items@).push(
                            Tree::Object(made),
                        ));
                        assert(members_list(state.natives@) =~= members_list(
                            before.natives@,
                        ).push(item@));
                        assert(texts(state.ids@) =~= texts(before.ids@).push(id_text));
                        let old_ids = texts(before.ids@);
                        let new_ids = texts(state.ids@);
                        assert forall|x: Seq<char>| new_ids.to_set().contains(x)
                            == old_ids.to_set().insert(id_text).contains(x) by {
                            if old_ids.contains(x) {
                                let k = choose|k: int| 0 <= k < old_ids.len() && old_ids[k] == x;
                                assert(new_ids[k] == x);
                            }
                            assert(new_ids[old_ids.len() as int] == id_text);
                        }
                        assert(new_ids.to_set() =~= old_ids.to_set().insert(id_text));
                    }
                },
            },
        }
        i += 1;
    }
    proof {
        assert(all.take(output@.len() as int) =~= all);
    }
    Ok(state)
}

/// Once a relay is broken, the items that follow do not mend it.
proof fn broken_stays_broken(output: Seq<Tree>, tools: Catalog, n: int)
    requires
        0 <= n <= output.len(),
    ensures
        relay(output.take(n), tools) is Broken ==> relay(output, tools) == relay(
            output.take(n),
            tools,
        ),
    decreases output.len() - n,
{
    if n == output.len() {
        assert(output.take(n) =~= output);
    } else {
        broken_stays_broken(output, tools, n + 1);
        assert(output.take(n + 1).drop_last() =~= output.take(n));
    }
}

/// Replaces the native calls of an answer by the client's calls and remembers
/// them. An answer that breaks the relay contract is refused whole: it stays as
/// it is, nothing is remembered, and the event that reports it is returned.
pub fn transform_response(
    response: &mut JsonObject,
    source: &JsonObject,
    cache: &mut NativeCallCache,
) -> (r: Result<(), JsonObject>)
    ensures
        match verdict(old(response)@, source@) {
            Verdict::Refused(message) => {
                &&& r is Err
                &&& r->Err_0@ == refusal(old(response)@, message)
                &&& final(response)@ == old(response)@
                &&& final(cache)@ == old(cache)@
            },
            Verdict::Unchanged => {
                &&& r is Ok
                &&& final(response)@ == old(response)@
                &&& final(cache)@ == old(cache)@
            },
            Verdict::Relayed { items, natives } => {
                &&& r is Ok
                &&& final(response)@ == old(response)@.insert("output"@, Tree::Array(items))
                &&& final(cache)@ == remember_all(old(cache)@, natives)
            },
        },
{
    broadcast use array_view;

    let specs = callable_client_tool_specs(source);
    let none: Vec<Json> = Vec::new();
    assert(trees(none@) =~= Seq::empty());
    let relayed = match response.array_at("output") {
        Some(output) => relay_items(output, &specs),
        None => relay_items(&none, &specs),
    };
    let state = match relayed {
        Ok(state) => state,
        Err(message) => {
            return Err(refusal_event(response, message));
        },
    };
    if state.natives.len() == 0 {
        if client_tool_call_required(source) {
            return Err(refusal_event(response, MISSING_CALL));
        }
        return Ok(());
    }
    let one_at_most = match source.bool_at("parallel_tool_calls") {
        Some(parallel) => !parallel,
        None => false,
    };
    if one_at_most && state.natives.len() > 1 {
        return Err(refusal_event(response, PARALLEL_CALLS));
    }
    let natives = state.natives;
    let ghost kept = members_list(natives@);
    let mut i: usize = 0;
    proof {
        assert(kept.take(0) =~= Seq::empty());
    }
    while i < natives.len()
        invariant
            i <= natives@.len(),
            kept == members_list(natives@),
            cache@ == remember_all(old(cache)@, kept.take(i as int)),
        decreases natives@.len() - i,
    {
        proof {
            assert(kept.take(i + 1).drop_last() =~= kept.take(i as int));
            assert(kept.take(i + 1).last() == natives@[i as int]@);
        }
        cache.remember_native_call(&natives[i]);
        i += 1;
    }
    proof {
        assert(kept.take(natives@.len() as int) =~= kept);
    }
    let changed = response.copy().insert("output", Json::Array(state.items));
    *response = changed;
    Ok(())
}

/// A sound relay replaces each item in its place: a call by the client's call,
/// anything else by itself; and no two calls share an id.
pub proof fn each_call_is_replaced_in_place(output: Seq<Tree>, tools: Catalog)
    requires
        relay(output, tools) is Sound,
    ensures
        relay(output, tools)->items.len() == output.len(),
        forall|i: int|
            0 <= i < output.len() ==> (if is_call(#[trigger] output[i]) {
                extracted_call(output[i]->Object_0, tools) is Some && relay(output, tools)->items[i]
                    == Tree::Object(extracted_call(output[i]->Object_0, tools)->0)
            } else {
                relay(output, tools)->items[i] == output[i]
            }),
        forall|i: int, j: int|
            0 <= i < j < output.len() && is_call(#[trigger] output[i]) && is_call(
                #[trigger] output[j],
            ) ==> text_member(relay(output, tools)->items[i]->Object_0, "call_id"@) != text_member(
                relay(output, tools)->items[j]->Object_0,
                "call_id"@,
            ),
        forall|i: int|
            0 <= i < output.len() && is_call(#[trigger] output[i]) ==> relay(
                output,
                tools,
            )->ids.contains(text_member(relay(output, tools)->items[i]->Object_0, "call_id"@)),
    decreases output.len(),
{
    if output.len() > 0 {
        let shorter = output.drop_last();
        each_call_is_replaced_in_place(shorter, tools);
        let n = shorter.len() as int;
        let items = relay(output, tools)->items;
        assert forall|i: int| 0 <= i < output.len() implies (if is_call(#[trigger] output[i]) {
            extracted_call(output[i]->Object_0, tools) is Some && items[i] == Tree::Object(
                extracted_call(output[i]->Object_0, tools)->0,
            )
        } else {
            items[i] == output[i]
        }) by {
            if i < n {
                assert(shorter[i] == output[i]);
                assert(items[i] == relay(shorter, tools)->items[i]);
            }
        }
        assert forall|i: int, j: int|
            0 <= i < j < output.len() && is_call(#[trigger] output[i]) && is_call(
                #[trigger] output[j],
            ) implies text_member(items[i]->Object_0, "call_id"@) != text_member(
            items[j]->Object_0,
            "call_id"@,
        ) by {
            assert(shorter[i] == output[i]);
            assert(items[i] == relay(shorter, tools)->items[i]);
            if j < n {
                assert(shorter[j] == output[j]);
                assert(items[j] == relay(shorter, tools)->items[j]);
            }
        }
        assert forall|i: int| 0 <= i < output.len() && is_call(#[trigger] output[i]) implies relay(
            output,
            tools,
        )->ids.contains(text_member(items[i]->Object_0, "call_id"@)) by {
            if i < n {
                assert(shorter[i] == output[i]);
                assert(items[i] == relay(shorter, tools)->items[i]);
            }
        }
    }
}

/// Whatever call reaches the client is a call of a tool that it may be asked to run.
pub proof fn only_catalog_tools_reach_the_client(output: Seq<Tree>, tools: Catalog, i: int)
    requires
        relay(output, tools) is Sound,
        0 <= i < output.len(),
        is_call(output[i]),
    ensures
        exists|key: Seq<char>| #[trigger]
            tools.dom().contains(key) && relay(output, tools)->items[i]->Object_0["name"@]
                == Tree::Text(tools[key].name),
{
    reveal_strlit("type");
    reveal_strlit("id");
    reveal_strlit("call_id");
    reveal_strlit("name");
    reveal_strlit("namespace");
    reveal_strlit("input");
    reveal_strlit("arguments");
    reveal_strlit("status");
    each_call_is_replaced_in_place(output, tools);
    let native = output[i]->Object_0;
    let inner = crate::bps::envelope::envelope_of(native)->0;
    let key = crate::bps::envelope::asked_tool(inner);
    assert(tools.dom().contains(key));
    assert("name"@.len() == 4 && "input"@.len() == 5 && "arguments"@.len() == 9 && "status"@.len()
        == 6 && "namespace"@.len() == 9 && "type"@[0] == 't' && "name"@[0] == 'n');
}

/// An id that no call of a list has.
pub open spec fn is_fresh(log: CallLog, natives: Seq<Members>) -> bool {
    &&& natives.len() <= NATIVE_CALL_CACHE_CAP
    &&& forall|i: int|
        0 <= i < natives.len() ==> text_member(#[trigger] natives[i], "call_id"@).len() > 0
            && !is_remembered(log, text_member(natives[i], "call_id"@))
    &&& forall|i: int, j: int|
        0 <= i < j < natives.len() ==> text_member(#[trigger] natives[i], "call_id"@)
            != text_member(#[trigger] natives[j], "call_id"@)
}

proof fn fresh_calls_stand_at_the_end(log: CallLog, natives: Seq<Members>)
    requires
        log_is_valid(log),
        is_fresh(log, natives),
    ensures
        log_is_valid(remember_all(log, natives)),
        remember_all(log, natives).len() >= natives.len(),
        forall|i: int|
            0 <= i < natives.len() ==> remember_all(log, natives)[remember_all(log, natives).len()
                - natives.len() + i] == (
                text_member(#[trigger] natives[i], "call_id"@),
                natives[i],
            ),
        forall|id: Seq<char>|
            is_remembered(remember_all(log, natives), id) && !is_remembered(log, id) ==> exists|
                i: int,
            |
                0 <= i < natives.len() && text_member(#[trigger] natives[i], "call_id"@) == id,
    decreases natives.len(),
{
    if natives.len() > 0 {
        let fewer = natives.drop_last();
        let last = natives.last();
        let id = text_member(last, "call_id"@);
        assert(is_fresh(log, fewer)) by {
            assert forall|i: int| 0 <= i < fewer.len() implies text_member(
                #[trigger] fewer[i],
                "call_id"@,
            ).len() > 0 && !is_remembered(log, text_member(fewer[i], "call_id"@)) by {
                assert(fewer[i] == natives[i]);
            }
            assert forall|i: int, j: int| 0 <= i < j < fewer.len() implies text_member(
                #[trigger] fewer[i],
                "call_id"@,
            ) != text_member(#[trigger] fewer[j], "call_id"@) by {
                assert(fewer[i] == natives[i] && fewer[j] == natives[j]);
            }
        }
        fresh_calls_stand_at_the_end(log, fewer);
        let before = remember_all(log, fewer);
        let after = remember_all(log, natives);
        remembering_keeps_the_log_valid(before, last);
        assert(natives[natives.len() - 1] == last);
        assert(!is_remembered(before, id)) by {
            if is_remembered(before, id) {
                let i = choose|i: int|
                    0 <= i < fewer.len() && text_member(#[trigger] fewer[i], "call_id"@) == id;
                assert(fewer[i] == natives[i]);
                assert(text_member(natives[i], "call_id"@) != text_member(
                    natives[natives.len() - 1],
                    "call_id"@,
                ));
            }
        }
        assert(after.last() == (id, last));
        let gone = before.len() + 1 - after.len();
        assert forall|i: int| 0 <= i < natives.len() implies after[after.len() - natives.len() + i]
            == (text_member(#[trigger] natives[i], "call_id"@), natives[i]) by {
            if i < fewer.len() {
                assert(fewer[i] == natives[i]);
                let k = before.len() - fewer.len() + i;
                assert(before[k] == (text_member(fewer[i], "call_id"@), fewer[i]));
                assert(after[k - gone] == before[k]);
            }
        }
        assert forall|other: Seq<char>|
            is_remembered(after, other) && !is_remembered(log, other) implies exists|i: int|
            0 <= i < natives.len() && text_member(#[trigger] natives[i], "call_id"@) == other by {
            let k = choose|k: int| 0 <= k < after.len() && (#[trigger] after[k]).0 == other;
            if k == after.len() - 1 {
                assert(text_member(natives[natives.len() - 1], "call_id"@) == other);
            } else {
                assert(before[k + gone] == after[k]);
                assert(is_remembered(before, other));
                let i = choose|i: int|
                    0 <= i < fewer.len() && text_member(#[trigger] fewer[i], "call_id"@) == other;
                assert(fewer[i] == natives[i]);
            }
        }
    }
}

/// Every native call of an answer, when its id is new, can be replayed in the
/// next turn.
pub proof fn relayed_calls_can_be_replayed(log: CallLog, natives: Seq<Members>, i: int)
    requires
        log_is_valid(log),
        is_fresh(log, natives),
        0 <= i < natives.len(),
    ensures
        recall(remember_all(log, natives), text_member(natives[i], "call_id"@)) == Some(natives[i]),
{
    fresh_calls_stand_at_the_end(log, natives);
    let after = remember_all(log, natives);
    let id = text_member(natives[i], "call_id"@);
    let k = after.len() - natives.len() + i;
    assert(after[k] == (id, natives[i]));
    let j = choose|j: int| 0 <= j < after.len() && (#[trigger] after[j]).0 == id;
    assert(j == k);
}

/// The calls that a log keeps of a longer list: the newest, as many as fit.
pub open spec fn newest_calls(calls: CallLog) -> CallLog {
    if calls.len() <= NATIVE_CALL_CACHE_CAP {
        calls
    } else {
        calls.skip(calls.len() - NATIVE_CALL_CACHE_CAP)
    }
}

/// Each native call with its id.
pub open spec fn named_calls(natives: Seq<Members>) -> CallLog {
    natives.map_values(|native: Members| (text_member(native, "call_id"@), native))
}

/// Every call has an id, and no id occurs twice, nor in the log.
pub open spec fn ids_are_new(log: CallLog, natives: Seq<Members>) -> bool {
    let calls = log + named_calls(natives);
    &&& forall|i: int| 0 <= i < calls.len() ==> (#[trigger] calls[i]).0.len() > 0
    &&& forall|i: int, j: int|
        0 <= i < j < calls.len() ==> (#[trigger] calls[i]).0 != (#[trigger] calls[j]).0
}

/// However many calls come, the log stays valid, and of calls with new ids it
/// keeps the newest in the order in which they came: what came first leaves first.
pub proof fn the_newest_calls_are_kept(log: CallLog, natives: Seq<Members>)
    requires
        log_is_valid(log),
    ensures
        log_is_valid(remember_all(log, natives)),
        ids_are_new(log, natives) ==> remember_all(log, natives) == newest_calls(
            log + named_calls(natives),
        ),
    decreases natives.len(),
{
    if natives.len() == 0 {
        assert(log + named_calls(natives) =~= log);
    } else {
        let fewer = natives.drop_last();
        let item = natives.last();
        the_newest_calls_are_kept(log, fewer);
        let before = remember_all(log, fewer);
        remembering_keeps_the_log_valid(before, item);
        if ids_are_new(log, natives) {
            let calls = log + named_calls(natives);
            let earlier = log + named_calls(fewer);
            let call = (text_member(item, "call_id"@), item);
            assert(earlier.push(call) =~= calls);
            assert forall|i: int| 0 <= i < earlier.len() implies (#[trigger] earlier[i]).0.len()
                > 0 by {
                assert(calls[i] == earlier[i]);
            }
            assert forall|i: int, j: int| 0 <= i < j < earlier.len() implies (
            #[trigger] earlier[i]).0 != (#[trigger] earlier[j]).0 by {
                assert(calls[i] == earlier[i] && calls[j] == earlier[j]);
            }
            assert(ids_are_new(log, fewer));
            assert(before == newest_calls(earlier));
            assert(calls[calls.len() - 1] == call);
            assert(!is_remembered(before, call.0)) by {
                if is_remembered(before, call.0) {
                    let k = choose|k: int|
                        0 <= k < before.len() && (#[trigger] before[k]).0 == call.0;
                    let at = k + earlier.len() - before.len();
                    assert(earlier[at] == before[k]);
                    assert(calls[at] == earlier[at]);
                }
            }
            assert(remember(before, item) =~= newest_calls(calls));
        }
    }
}

} // verus!

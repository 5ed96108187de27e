use turn_state_gateway::bps::cache::NativeCallCache;
use turn_state_gateway::bps::envelope::{
    decode_transport_code, extract_native_client_tool_call, function_item_id, is_transport_name,
    parse_arguments, schema_matches, transport_envelope,
};
use turn_state_gateway::bps::exchange::{
    bps_headers, bps_request, parse_terminal, parse_terminal_events, parse_terminal_object,
    reading_for, retry_after, BpsReadError, BpsReading, BpsTerminal, SseEvent,
};
use turn_state_gateway::bps::request::{
    conversation_fingerprint, explicit_conversation_key, fallback_transport_call,
    prepare_request_body, prepare_request_body_at, reasoning_effort_from_source,
    strip_client_metadata, translate_input_items, turn_state,
};
use turn_state_gateway::bps::response::transform_response;
use turn_state_gateway::bps::sse::{synthetic_sse, terminal_event_sse};
use turn_state_gateway::bps::tools::{
    callable_client_tool_specs, client_tool_call_required, client_tool_protocol_instructions,
    client_tool_protocol_reminder, client_tool_specs, describe_parameter_names,
};
use turn_state_gateway::digest::short_hash;
use turn_state_gateway::json::{
    parse_json, parse_object, render, render_object, same_json, Json, JsonObject,
};

fn object(text: &str) -> JsonObject {
    parse_object(text).unwrap()
}

fn value(text: &str) -> Json {
    parse_json(text).unwrap()
}

const SOURCE: &str = r#"{
    "model": "client-model",
    "stream": true,
    "instructions": "Be brief.",
    "prompt_cache_key": "conversation-1",
    "tools": [
        {"type": "function", "name": "exec", "description": "Runs.",
         "parameters": {"type": "object", "required": ["cmd"], "additionalProperties": false,
            "properties": {"cmd": {"type": "string"}, "count": {"type": "integer"}}}},
        {"type": "custom", "name": "patch"},
        {"type": "namespace", "name": "files", "tools": [{"type": "function", "name": "read"}]}
    ],
    "input": [{"role": "user", "type": "message", "content": "hi"}]
}"#;

fn native(call_id: &str, code: &str) -> JsonObject {
    let arguments = JsonObject::new().insert("code", Json::Text(code.to_owned()));
    JsonObject::new()
        .insert("type", Json::Text("function_call".to_owned()))
        .insert("call_id", Json::Text(call_id.to_owned()))
        .insert("name", Json::Text("run_officejs".to_owned()))
        .insert("arguments", Json::Text(render_object(&arguments)))
}

#[test]
fn tools_are_named_with_their_namespace() {
    let source = object(SOURCE);
    let mut keys = client_tool_specs(&source).keys();
    keys.sort();
    assert_eq!(keys, ["exec", "files.read", "patch"]);
    let chosen = object(SOURCE).insert(
        "tool_choice",
        value(r#"{"type":"function","name":"exec"}"#),
    );
    assert_eq!(callable_client_tool_specs(&chosen).keys(), ["exec"]);
    assert!(client_tool_call_required(&chosen));
    let none = object(SOURCE).insert("tool_choice", Json::Text("none".to_owned()));
    assert!(callable_client_tool_specs(&none).is_empty());
    assert!(!client_tool_call_required(&none));
    assert!(client_tool_protocol_reminder(&none).is_empty());
}

#[test]
fn the_catalog_is_described_to_the_model() {
    let source = object(SOURCE);
    let instructions = client_tool_protocol_instructions(&source);
    assert!(instructions.contains("exec"));
    assert!(instructions.contains("cmd (required)"));
    let reminder = client_tool_protocol_reminder(&source);
    assert!(reminder.contains("Client tools: exec, files.read, patch."));
    assert!(reminder.ends_with(" Custom tool patch uses input, not arguments."));
    assert_eq!(
        describe_parameter_names(&object(
            r#"{"properties":{"b":{},"a":{}},"required":["b"]}"#
        )),
        "a (optional), b (required)"
    );
    assert_eq!(
        describe_parameter_names(&JsonObject::new()),
        "the arguments required by the client"
    );
}

#[test]
fn ids_and_names_of_the_transport() {
    assert!(is_transport_name("run_officejs"));
    assert!(is_transport_name("functions.run_officejs"));
    assert!(!is_transport_name("exec"));
    assert_eq!(function_item_id(""), "");
    assert_eq!(function_item_id("fc_1"), "fc_1");
    assert_eq!(function_item_id("call_1"), "fc_call_1");
}

#[test]
fn code_is_read_in_a_fence_and_with_text_behind_it() {
    for code in [
        "{\"tool\":\"exec\"}",
        "```json\n{\"tool\":\"exec\"}\n```",
        "{\"tool\":\"exec\"} and more",
    ] {
        let read = decode_transport_code(&Json::Text(code.to_owned())).unwrap();
        assert_eq!(read.text_at("tool"), "exec");
    }
    assert!(decode_transport_code(&Json::Text("nothing".to_owned())).is_none());
    assert!(decode_transport_code(&Json::Null).is_none());
    assert!(parse_arguments(&Json::Text("{} and more".to_owned())).is_none());
    assert!(parse_arguments(&Json::Text("{}".to_owned())).is_some());
}

#[test]
fn envelopes_are_unwrapped_up_to_three_layers() {
    let inner = "{\"tool\":\"exec\",\"args\":{\"cmd\":\"pwd\"}}".to_owned();
    let mut call = native("c", &inner);
    for _ in 0..2 {
        assert_eq!(
            transport_envelope(&call).unwrap().text_at("tool"),
            "exec"
        );
        call = native("c", &render_object(&call));
    }
    assert_eq!(transport_envelope(&call).unwrap().text_at("tool"), "exec");
    call = native("c", &render_object(&call));
    assert!(transport_envelope(&call).is_none());
}

#[test]
fn schemas_are_checked() {
    let schema = object(
        r#"{"type":"object","required":["a"],"additionalProperties":false,
            "properties":{"a":{"type":["string","null"]},"b":{"type":"array","items":{"type":"integer"}},
                          "c":{"enum":["x",1]}}}"#,
    );
    for (text, accepted) in [
        (r#"{"a":"t"}"#, true),
        (r#"{"a":null}"#, true),
        (r#"{"a":1}"#, false),
        (r#"{"b":[]}"#, false),
        (r#"{"a":"t","b":[1,2]}"#, true),
        (r#"{"a":"t","b":["1"]}"#, false),
        (r#"{"a":"t","c":1}"#, true),
        (r#"{"a":"t","c":2}"#, false),
        (r#"{"a":"t","d":true}"#, false),
        (r#"[]"#, false),
    ] {
        assert_eq!(schema_matches(&value(text), &schema), accepted, "{text}");
    }
}

#[test]
fn a_native_call_is_turned_into_the_clients_call() {
    let source = object(SOURCE);
    let tools = callable_client_tool_specs(&source);
    let call = extract_native_client_tool_call(
        &native("call_1", "{\"tool\":\"exec\",\"args\":{\"cmd\":\"pwd\"}}"),
        &tools,
    )
    .unwrap();
    assert_eq!(call.text_at("type"), "function_call");
    assert_eq!(call.text_at("id"), "fc_call_1");
    assert_eq!(call.text_at("name"), "exec");
    assert_eq!(call.text_at("arguments"), "{\"cmd\":\"pwd\"}");
    assert_eq!(call.text_at("status"), "completed");
    let custom = extract_native_client_tool_call(
        &native("call_2", "{\"tool\":\"patch\",\"input\":\"text\"}"),
        &tools,
    )
    .unwrap();
    assert_eq!(custom.text_at("type"), "custom_tool_call");
    assert_eq!(custom.text_at("input"), "text");
    let nested = extract_native_client_tool_call(
        &native("call_3", "{\"name\":\"files.read\",\"arguments\":{}}"),
        &tools,
    )
    .unwrap();
    assert_eq!(
        (nested.text_at("name"), nested.text_at("namespace")),
        ("read".to_owned(), "files".to_owned())
    );
    for (id, code) in [
        ("", "{\"tool\":\"exec\",\"args\":{\"cmd\":\"pwd\"}}"),
        ("c", "{\"tool\":\"unknown\",\"args\":{}}"),
        ("c", "{\"tool\":\"exec\",\"args\":{}}"),
        ("c", "{\"tool\":\"patch\",\"args\":{}}"),
    ] {
        assert!(extract_native_client_tool_call(&native(id, code), &tools).is_none());
    }
}

#[test]
fn a_call_of_an_earlier_turn_reads_back() {
    let source = object(SOURCE);
    let tools = client_tool_specs(&source);
    let item = object(
        r#"{"type":"function_call","call_id":"call_9","name":"exec",
            "arguments":"{\"cmd\": \"ls\", \"count\": 3}"}"#,
    );
    let standing = fallback_transport_call(&item, 1);
    assert_eq!(standing.text_at("name"), "run_officejs");
    let back = extract_native_client_tool_call(&standing, &tools).unwrap();
    assert_eq!(back.text_at("call_id"), "call_9");
    assert_eq!(back.text_at("id"), "fc_call_9");
    assert_eq!(back.text_at("name"), "exec");
    assert_eq!(back.text_at("arguments"), "{\"cmd\":\"ls\",\"count\":3}");
    let custom = object(
        r#"{"type":"custom_tool_call","call_id":"call_8","name":"patch","input":"diff"}"#,
    );
    let back = extract_native_client_tool_call(&fallback_transport_call(&custom, 1), &tools).unwrap();
    assert_eq!(back.text_at("type"), "custom_tool_call");
    assert_eq!(back.text_at("input"), "diff");
    let read = |arguments: &str| {
        let item = JsonObject::new()
            .insert("type", Json::Text("function_call".to_owned()))
            .insert("call_id", Json::Text("call_7".to_owned()))
            .insert("name", Json::Text("read".to_owned()))
            .insert("namespace", Json::Text("files".to_owned()))
            .insert("arguments", Json::Text(arguments.to_owned()));
        extract_native_client_tool_call(&fallback_transport_call(&item, 1), &tools)
            .map(|call| call.text_at("arguments"))
    };
    assert_eq!(
        read(r#"{"ratio":0.25}"#).as_deref(),
        Some(r#"{"ratio":0.25}"#)
    );
    let nested = |depth: usize| "{\"a\":".repeat(depth - 1) + "{}" + &"}".repeat(depth - 1);
    assert_eq!(read(&nested(126)), Some(nested(126)));
    assert_eq!(read(&nested(127)), None);
    let nameless = object(r#"{"type":"function_call","name":"exec","arguments":"{}"}"#);
    assert_eq!(
        fallback_transport_call(&nameless, 42).text_at("call_id"),
        format!("call_bp_{}", short_hash("42"))
    );
}

#[test]
fn answers_are_relayed_and_their_calls_remembered() {
    let source = object(SOURCE);
    let mut cache = NativeCallCache::new();
    let call = native("call_1", "{\"tool\":\"exec\",\"args\":{\"cmd\":\"pwd\"}}");
    let mut response = object(r#"{"id":"resp_1","status":"completed"}"#).insert(
        "output",
        Json::Array(vec![
            value(r#"{"type":"message","role":"assistant"}"#),
            Json::Object(call.copy()),
        ]),
    );
    assert!(transform_response(&mut response, &source, &mut cache).is_ok());
    let output = response.array_at("output").unwrap();
    assert_eq!(output.len(), 2);
    assert_eq!(output[1].as_object().unwrap().text_at("name"), "exec");
    assert_eq!(
        cache
            .remembered_native_call("call_1")
            .unwrap()
            .text_at("name"),
        "run_officejs"
    );
    let input = Json::Array(vec![
        Json::Object(output[1].as_object().unwrap().copy()),
        value(r#"{"type":"function_call_output","call_id":"call_1","name":"exec","output":"ok"}"#),
    ]);
    let items = translate_input_items(
        &input,
        &client_tool_specs(&source),
        &mut cache,
        &vec![0, 0],
    );
    assert!(same_json(&items[0], &Json::Object(call)));
    let replayed = items[1].as_object().unwrap();
    assert_eq!(replayed.text_at("id"), "fc_call_1");
    assert!(!replayed.contains_key("name"));
}

#[test]
fn broken_answers_are_refused() {
    let exec = "{\"tool\":\"exec\",\"args\":{\"cmd\":\"pwd\"}}";
    let answer = |items: Vec<Json>| {
        object(r#"{"id":"resp_1"}"#).insert("output", Json::Array(items))
    };
    let refused = |source: JsonObject, items: Vec<Json>| {
        let mut response = answer(items);
        let failure =
            transform_response(&mut response, &source, &mut NativeCallCache::new()).unwrap_err();
        let response = failure.object_at("response").unwrap();
        assert_eq!(response.text_at("id"), "resp_1");
        response.object_at("error").unwrap().text_at("message")
    };
    assert_eq!(
        refused(
            object(SOURCE),
            vec![value(r#"{"type":"function_call","name":"exec"}"#)]
        ),
        "Basis Points returned a tool call that does not match the client tool catalog or relay contract"
    );
    assert_eq!(
        refused(
            object(SOURCE),
            vec![
                Json::Object(native("c", exec)),
                Json::Object(native("c", exec))
            ]
        ),
        "Basis Points returned duplicate tool call IDs"
    );
    assert_eq!(
        refused(
            object(SOURCE).insert("tool_choice", Json::Text("required".to_owned())),
            Vec::new()
        ),
        "Basis Points did not satisfy the required client tool_choice"
    );
    assert_eq!(
        refused(
            object(SOURCE).insert("parallel_tool_calls", Json::Bool(false)),
            vec![
                Json::Object(native("c1", exec)),
                Json::Object(native("c2", exec))
            ]
        ),
        "Basis Points returned multiple tool calls while parallel_tool_calls is false"
    );
}

#[test]
fn the_cache_forgets_the_oldest_call() {
    let mut cache = NativeCallCache::new();
    for i in 0..513 {
        cache.remember_native_call(&native(&format!("call_{i}"), "{}"));
    }
    assert!(cache.remembered_native_call("call_0").is_none());
    assert!(cache.remembered_native_call("call_1").is_some());
    assert!(cache.remembered_native_call("call_512").is_some());
    for i in 513..600 {
        cache.remember_native_call(&native(&format!("call_{i}"), "{}"));
    }
    for i in 0..600 {
        assert_eq!(
            cache.remembered_native_call(&format!("call_{i}")).is_some(),
            i >= 600 - 512
        );
    }
}

#[test]
fn history_items_are_translated() {
    let source = object(SOURCE);
    let mut cache = NativeCallCache::new();
    let input = value(
        r#"[
            {"type":"reasoning","encrypted_content":"e","id":"r1"},
            {"type":"reasoning"},
            {"type":"item_reference","id":"x"},
            {"type":"message","role":"assistant","content":[{"type":"input_text","text":"t"}]},
            {"type":"FUNCTION_CALL","call_id":"c1","name":"exec","arguments":"{}"},
            {"type":"custom_tool_call_output","call_id":"c1","output":"o"},
            "text"
        ]"#,
    );
    let items = translate_input_items(
        &input,
        &client_tool_specs(&source),
        &mut cache,
        &vec![0; 7],
    );
    assert_eq!(items.len(), 4);
    assert_eq!(
        render(&items[0]),
        r#"{"encrypted_content":"e","summary":[],"type":"reasoning"}"#
    );
    assert_eq!(
        render(&items[1]),
        r#"{"content":[{"text":"t","type":"output_text"}],"role":"assistant","type":"message"}"#
    );
    assert_eq!(items[2].as_object().unwrap().text_at("name"), "run_officejs");
    assert_eq!(
        render(&items[3]),
        r#"{"call_id":"c1","id":"fc_c1","output":"o","type":"function_call_output"}"#
    );
    let text = translate_input_items(
        &Json::Text("hello".to_owned()),
        &client_tool_specs(&source),
        &mut cache,
        &Vec::new(),
    );
    assert_eq!(text[0].as_object().unwrap().text_at("role"), "user");
}

#[test]
fn the_turn_counts_tool_outputs_behind_the_last_question() {
    let input = value(
        r#"[{"role":"user","content":"a"},{"type":"function_call_output"},{"role":"User","content":"b"},
            {"type":"function_call_output"},{"type":"custom_tool_call_output"}]"#,
    );
    let (fingerprint, iteration) = turn_state(&input);
    assert_eq!(iteration, "3");
    let shorter = value(
        r#"[{"role":"user","content":"a"},{"type":"function_call_output"},{"role":"User","content":"b"}]"#,
    );
    assert_eq!(turn_state(&shorter), (fingerprint.clone(), "1".to_owned()));
    assert_eq!(fingerprint, short_hash(&render(&shorter)));
    assert_eq!(
        turn_state(&Json::Text("q".to_owned())),
        (short_hash("\"q\""), "1".to_owned())
    );
}

#[test]
fn the_conversation_is_found() {
    assert_eq!(
        explicit_conversation_key(&object(
            r#"{"prompt_cache_key":" ","sessionId":"s","client_metadata":{"session_id":"m"}}"#
        )),
        "s"
    );
    assert_eq!(
        explicit_conversation_key(&object(r#"{"client_metadata":{"session_id":"m"}}"#)),
        "m"
    );
    assert_eq!(explicit_conversation_key(&JsonObject::new()), "");
    assert_eq!(conversation_fingerprint(&Vec::new()), "anonymous");
    assert_eq!(
        conversation_fingerprint(&vec![Json::Null, value("{\"a\":1}")]),
        short_hash("{\"a\":1}")
    );
}

#[test]
fn hashes_are_whole_digests() {
    assert_eq!(
        short_hash("abc"),
        "ba7816bf8f01cfea414140de5dae2223b00361a396177a9cb410ff61f20015ad"
    );
}

#[test]
fn efforts_are_normalized() {
    for (text, effort) in [
        (r#"{"reasoning":{"effort":"X-High"}}"#, "xhigh"),
        (r#"{"reasoning":{"effort":"ultra"},"reasoning_effort":"low"}"#, "ultra"),
        (r#"{"reasoning_effort":"LOW"}"#, "low"),
        (r#"{"reasoning":{}}"#, "medium"),
        (r#"{}"#, "medium"),
    ] {
        assert_eq!(reasoning_effort_from_source(&object(text)), effort);
    }
}

#[test]
fn a_request_is_prepared() {
    let source = object(SOURCE);
    let mut cache = NativeCallCache::new();
    let body = prepare_request_body_at(&source, &mut cache, &vec![0]).unwrap();
    assert_eq!(body.text_at("model"), "gpt-6-astra");
    assert_eq!(body.bool_at("stream"), Some(true));
    assert_eq!(body.bool_at("store"), Some(false));
    assert_eq!(body.text_at("prompt_cache_key"), "conversation-1");
    assert_eq!(body.array_at("input").unwrap().len(), 4);
    assert_eq!(
        render(&body.value_or_null("context_management")),
        r#"[{"compact_threshold":200000,"type":"compaction"}]"#
    );
    let metadata = body.object_at("metadata").unwrap();
    assert_eq!(metadata.text_at("agent_iteration"), "1");
    assert_eq!(metadata.text_at("task_id").len(), 36);
    assert_ne!(metadata.text_at("task_id"), metadata.text_at("turn_id"));
    assert!(!body.contains_key("tools"));
    let again = prepare_request_body(&source, &mut cache).unwrap();
    assert_eq!(render_object(&again), render_object(&body));
    let unanswerable = object(r#"{"tool_choice":"required","input":"x"}"#);
    assert_eq!(
        prepare_request_body(&unanswerable, &mut cache).err().unwrap(),
        "tool_choice does not select any available client tool"
    );
}

#[test]
fn task_ids_are_named_by_the_conversation() {
    let mut cache = NativeCallCache::new();
    let body = prepare_request_body(&object(SOURCE), &mut cache).unwrap();
    assert_eq!(
        body.object_at("metadata").unwrap().text_at("task_id"),
        uuid::Uuid::new_v5(
            &uuid::Uuid::NAMESPACE_URL,
            b"cpa-oai-basispoints/conversation-1"
        )
        .to_string()
    );
}

#[test]
fn client_metadata_is_stripped() {
    let item = object(
        r#"{"type":"message","internal_chat_message_metadata_passthrough":{"a":1}}"#,
    );
    assert_eq!(
        render_object(&strip_client_metadata(&item)),
        r#"{"type":"message"}"#
    );
}

#[test]
fn a_stream_is_made_of_an_answer() {
    let response = object(
        r#"{"id":"resp_1","output":[
            {"type":"message","id":"m"},
            {"type":"function_call","id":"fc_1","arguments":"{}"},
            {"type":"custom_tool_call","id":"ct_1","input":""}]}"#,
    );
    let text = String::from_utf8(synthetic_sse(&response, false)).unwrap();
    let events = text
        .lines()
        .filter_map(|line| line.strip_prefix("event: "))
        .collect::<Vec<_>>();
    assert_eq!(
        events,
        [
            "response.created",
            "response.in_progress",
            "response.output_item.added",
            "response.output_item.done",
            "response.output_item.added",
            "response.function_call_arguments.delta",
            "response.function_call_arguments.done",
            "response.output_item.done",
            "response.output_item.added",
            "response.custom_tool_call_input.done",
            "response.output_item.done",
            "response.completed",
        ]
    );
    for (index, line) in text
        .lines()
        .filter_map(|line| line.strip_prefix("data: {"))
        .enumerate()
    {
        assert!(line.contains(&format!("\"sequence_number\":{index}")));
    }
    assert!(text.ends_with("data: [DONE]\n\n"));
    assert!(text.contains(
        r#"data: {"item":{"arguments":"","id":"fc_1","status":"in_progress","type":"function_call"},"output_index":1,"sequence_number":4,"type":"response.output_item.added"}"#
    ));
    assert!(text.contains(
        r#"data: {"item":{"id":"ct_1","input":"","status":"in_progress","type":"custom_tool_call"},"output_index":2,"sequence_number":8,"type":"response.output_item.added"}"#
    ));
    assert!(text.contains(
        r#"data: {"item":{"id":"ct_1","input":"","type":"custom_tool_call"},"output_index":2,"sequence_number":10,"type":"response.output_item.done"}"#
    ));
    let incomplete = String::from_utf8(synthetic_sse(&JsonObject::new(), true)).unwrap();
    assert!(incomplete.contains(
        r#"data: {"response":{"status":"incomplete"},"sequence_number":2,"type":"response.incomplete"}"#
    ));
}

#[test]
fn a_custom_call_is_announced_in_progress() {
    let response = object(
        r#"{"output":[{"type":"custom_tool_call","id":"ct_1","status":"completed","input":" diff "}]}"#,
    );
    let text = String::from_utf8(synthetic_sse(&response, false)).unwrap();
    let data = text
        .lines()
        .filter_map(|line| line.strip_prefix("data: "))
        .collect::<Vec<_>>();
    assert_eq!(
        data[2..6],
        [
            r#"{"item":{"id":"ct_1","input":"","status":"in_progress","type":"custom_tool_call"},"output_index":0,"sequence_number":2,"type":"response.output_item.added"}"#,
            r#"{"delta":"diff","item_id":"ct_1","output_index":0,"sequence_number":3,"type":"response.custom_tool_call_input.delta"}"#,
            r#"{"input":"diff","item_id":"ct_1","output_index":0,"sequence_number":4,"type":"response.custom_tool_call_input.done"}"#,
            r#"{"item":{"id":"ct_1","input":" diff ","status":"completed","type":"custom_tool_call"},"output_index":0,"sequence_number":5,"type":"response.output_item.done"}"#,
        ]
    );
}

/// The events of a stream, by their lines.
fn events_of(text: &str) -> Vec<SseEvent> {
    text.split("\n\n")
        .filter(|frame| !frame.is_empty())
        .map(|frame| {
            let field = |name: &str| {
                frame
                    .lines()
                    .find_map(|line| line.strip_prefix(name))
                    .map(str::to_owned)
            };
            SseEvent {
                event: field("event: "),
                data: field("data: ").unwrap(),
            }
        })
        .collect()
}

#[test]
fn an_answer_is_read_from_its_own_stream() {
    let response = object(
        r#"{"id":"resp_1","status":"queued","n":[1,-2,0.5],"output":[
            {"type":"message","id":"m","content":[{"text":"a\nb"}]},
            {"type":"function_call","id":"fc_1","arguments":"{}"}]}"#,
    );
    for (incomplete, status) in [(false, "completed"), (true, "incomplete")] {
        let text = String::from_utf8(synthetic_sse(&response, incomplete)).unwrap();
        let events = events_of(&text);
        assert_eq!(events.last().unwrap().data, "[DONE]");
        let expected = response
            .copy()
            .insert("status", Json::Text(status.to_owned()));
        match parse_terminal(&text, Some(&events), text.len()) {
            Ok(BpsTerminal::Response {
                incomplete: found,
                response,
            }) => {
                assert_eq!(found, incomplete);
                assert_eq!(render_object(&response), render_object(&expected));
            }
            _ => panic!("no answer"),
        }
    }
}

#[test]
fn no_line_of_a_stream_is_broken() {
    let response = JsonObject::new().insert(
        "output",
        Json::Array(vec![Json::Object(
            JsonObject::new()
                .insert("type", Json::Text("a\nb\r\ndata: [DONE]\n\n".to_owned()))
                .insert("$serde_json::private::Number", Json::Text("1\n2".to_owned())),
        )]),
    );
    let text = String::from_utf8(synthetic_sse(&response, false)).unwrap();
    assert!(!text.contains('\r'));
    let lines = text.split('\n').collect::<Vec<_>>();
    assert_eq!(lines.len(), 5 * 3 + 3);
    for event in lines[..15].chunks(3) {
        assert!(event[0].starts_with("event: response."));
        assert!(event[1].starts_with("data: {") && event[1].ends_with('}'));
        assert_eq!(event[2], "");
    }
    assert_eq!(lines[15..], ["data: [DONE]", "", ""]);
    let events = events_of(&text);
    let expected = response
        .copy()
        .insert("status", Json::Text("completed".to_owned()));
    match parse_terminal(&text, Some(&events), text.len()) {
        Ok(BpsTerminal::Response { response, .. }) => {
            assert_eq!(render_object(&response), render_object(&expected));
        }
        _ => panic!("no answer"),
    }
}

#[test]
fn a_failure_is_one_event() {
    assert_eq!(
        terminal_event_sse(&object(r#"{"type":"response.failed","a":1}"#)),
        b"event: response.failed\ndata: {\"a\":1,\"type\":\"response.failed\"}\n\ndata: [DONE]\n\n"
    );
    assert_eq!(
        terminal_event_sse(&JsonObject::new()),
        b"event: error\ndata: {}\n\ndata: [DONE]\n\n"
    );
}

#[test]
fn headers_carry_the_clients_persona() {
    let headers = match bps_headers("Bearer token", "account", Some("Asia/Shanghai")) {
        Ok(headers) => headers,
        Err(_) => panic!("refused"),
    };
    let get = |name: &str| {
        headers
            .iter()
            .find(|field| field.name == name)
            .map(|field| field.value.as_str())
    };
    assert_eq!(get("authorization"), Some("Bearer token"));
    assert_eq!(get("chatgpt-account-id"), Some("account"));
    assert_eq!(get("x-oai-timezone"), Some("Asia/Shanghai"));
    assert_eq!(get("user-agent"), Some("oai-basispoints/0.1.9"));
    assert!(bps_headers("Bearer\n", "account", None).is_err());
    assert!(bps_headers("Bearer", "acc\u{7f}ount", None).is_err());
    let body = object("{\"a\":1}");
    let request = match bps_request(&body, "Bearer token", "account", None) {
        Ok(request) => request,
        Err(_) => panic!("refused"),
    };
    assert_eq!(request.body, b"{\"a\":1}");
    assert!(request
        .headers
        .iter()
        .all(|field| field.name != "x-oai-timezone"));
}

fn event(name: Option<&str>, data: &str) -> SseEvent {
    SseEvent {
        event: name.map(str::to_owned),
        data: data.to_owned(),
    }
}

#[test]
fn the_last_final_event_counts() {
    let events = vec![
        event(Some("response.created"), "{}"),
        event(None, "not json"),
        event(
            Some("response.incomplete"),
            r#"{"type":"response.incomplete","response":{"id":"a"}}"#,
        ),
        event(
            None,
            r#"{"type":"response.other","response":{"id":"b","status":"completed"}}"#,
        ),
    ];
    match parse_terminal_events(&events) {
        Ok(BpsTerminal::Response {
            incomplete,
            response,
        }) => {
            assert!(!incomplete);
            assert_eq!(response.text_at("id"), "b");
        }
        _ => panic!("no answer"),
    }
    match parse_terminal_events(&events[..3].iter().map(copy_event).collect()) {
        Ok(BpsTerminal::Response { incomplete, .. }) => assert!(incomplete),
        _ => panic!("no answer"),
    }
    match parse_terminal_events(&vec![event(Some("error"), r#"{"type":"error"}"#)]) {
        Ok(BpsTerminal::Failure(failure)) => assert_eq!(failure.text_at("type"), "error"),
        _ => panic!("no failure"),
    }
    match parse_terminal_events(&Vec::new()) {
        Err(error) => assert_eq!(
            error.message().unwrap(),
            "Basis Points stream ended without a terminal response event"
        ),
        Ok(_) => panic!("accepted"),
    }
}

fn copy_event(event: &SseEvent) -> SseEvent {
    SseEvent {
        event: event.event.clone(),
        data: event.data.clone(),
    }
}

#[test]
fn a_body_without_a_stream_is_one_object() {
    match parse_terminal_object(r#"{"object":"response","status":"incomplete"}"#) {
        Ok(BpsTerminal::Response { incomplete, .. }) => assert!(incomplete),
        _ => panic!("no answer"),
    }
    match parse_terminal_object(r#"{"error":"x"}"#) {
        Ok(BpsTerminal::Failure(_)) => {}
        _ => panic!("no failure"),
    }
    match parse_terminal_object("[]") {
        Err(BpsReadError::InvalidJson(message)) => assert!(message.starts_with("invalid type")),
        _ => panic!("accepted"),
    }
    assert!(parse_terminal(r#"{"output":[]}"#, None, 13).is_ok());
    assert!(matches!(
        parse_terminal("{}", None, 67_108_865),
        Err(BpsReadError::TooLong)
    ));
}

#[test]
fn what_is_read_depends_on_status_and_type() {
    assert!(matches!(reading_for(429, None), BpsReading::ReadError));
    assert!(matches!(
        reading_for(200, Some("text/event-stream; charset=utf-8")),
        BpsReading::ReadEvents
    ));
    assert!(matches!(
        reading_for(200, Some("application/json")),
        BpsReading::ReadObject
    ));
    assert_eq!(retry_after(Some(3), Some(9)), Some(3));
    assert_eq!(retry_after(None, Some(9)), Some(9));
}

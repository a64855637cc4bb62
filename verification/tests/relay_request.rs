use modelwire_server::canonical::{
    CanonicalInputItem, CanonicalToolChoice, ContentBlock, WireApi,
};
use modelwire_server::error::ErrorKind;
use modelwire_server::json::{
    parse_json, parse_json_array, parse_json_bytes, parse_json_opt, render_json, Json,
};
use modelwire_server::relay::request::{
    parse_canonical_request, parse_input, parse_instructions, parse_reasoning, parse_tool_choice,
    parse_tools, request_has_tools,
};
use modelwire_server::relay::selection::plain_request_model;
use modelwire_server::routes::responses::{parse_request_body, wants_stream};

fn json(text: &str) -> Json {
    parse_json(text).unwrap()
}

#[test]
fn parses_string_input_to_canonical_text() {
    let raw = json(r#"{"model": "codex-main", "input": "hello"}"#);

    let canonical =
        parse_canonical_request("req_mw_test", &raw, "codex-main", "gpt-upstream").unwrap();

    assert_eq!(canonical.downstream_model, "codex-main");
    assert_eq!(canonical.upstream_model, "gpt-upstream");
    assert!(matches!(
        canonical.input.first(),
        Some(CanonicalInputItem::Text { content }) if content == "hello"
    ));
}

#[test]
fn rejects_unsupported_content_block() {
    let raw = json(
        r#"{
            "model": "codex-main",
            "input": [{
                "role": "user",
                "content": [{"type": "input_image", "image_url": "https://example.test/a.png"}]
            }]
        }"#,
    );

    let error =
        parse_canonical_request("req_mw_test", &raw, "codex-main", "gpt-upstream").unwrap_err();

    assert_eq!(error.kind, ErrorKind::RequestInvalid);
    assert_eq!(error.message, "Unsupported content block type 'input_image'");
}

#[test]
fn requests_are_read_in_full() {
    let raw = json(
        r#"{
            "model": "codex-main",
            "instructions": {"role": "system", "content": "be brief"},
            "input": [
                {"role": "assistant", "content": "earlier"},
                {"type": "message", "content": [{"text": "now"}, {"type": "output_text", "text": "x"}]},
                {"type": "function_call_output", "call_id": "call_1", "output": "42"}
            ],
            "previous_response_id": "resp_mw_1",
            "tools": [{"type": "function", "function": {"name": "f", "description": "d"}}],
            "tool_choice": {"type": "function", "name": "f"},
            "parallel_tool_calls": true,
            "max_output_tokens": 4294967297,
            "temperature": 0.5,
            "stream": true,
            "reasoning": {"effort": "high", "include_summary": true},
            "include": ["a", 1, "b"],
            "metadata": {"k": "v"},
            "store": true
        }"#,
    );
    let request = parse_canonical_request("req", &raw, "codex-main", "up").unwrap();
    assert_eq!(request.request_id, "req");
    let instructions = request.instructions.as_ref().unwrap();
    assert_eq!(instructions.role, "system");
    assert_eq!(instructions.content, "be brief");
    assert_eq!(request.input.len(), 3);
    match &request.input[0] {
        CanonicalInputItem::Message { role, content } => {
            assert_eq!(role, "assistant");
            assert!(matches!(&content[0], ContentBlock::Text { text } if text == "earlier"));
        }
        other => panic!("{:?}", other),
    }
    match &request.input[1] {
        CanonicalInputItem::Message { role, content } => {
            assert_eq!(role, "user");
            assert_eq!(content.len(), 2);
        }
        other => panic!("{:?}", other),
    }
    assert!(matches!(
        &request.input[2],
        CanonicalInputItem::FunctionCallOutput { call_id, output } if call_id == "call_1" && output == "42"
    ));
    assert_eq!(request.previous_response_id.as_deref(), Some("resp_mw_1"));
    assert_eq!(request.tools.len(), 1);
    assert_eq!(request.tools[0].name, "f");
    assert_eq!(request.tools[0].description, "d");
    assert_eq!(
        render_json(&request.tools[0].parameters),
        r#"{"properties":{},"type":"object"}"#
    );
    assert!(matches!(&request.tool_choice, CanonicalToolChoice::Specific(name) if name == "f"));
    assert!(request.parallel_tool_calls);
    assert_eq!(request.max_output_tokens, Some(1));
    assert_eq!(request.temperature.as_ref().map(render_json).as_deref(), Some("0.5"));
    assert!(request.top_p.is_none());
    assert!(request.stream);
    let reasoning = request.reasoning.as_ref().unwrap();
    assert_eq!(reasoning.effort.as_deref(), Some("high"));
    assert_eq!(reasoning.include_summary, Some(true));
    assert_eq!(reasoning.include_encrypted_content, None);
    assert_eq!(request.included, vec!["a".to_string(), "b".to_string()]);
    assert_eq!(render_json(&request.metadata), r#"{"k":"v"}"#);
    assert!(request.store);
    assert_eq!(render_json(&request.raw_downstream), render_json(&raw));
}

#[test]
fn what_is_left_out_has_its_default() {
    let raw = json(r#"{"input": []}"#);
    let request = parse_canonical_request("req", &raw, "d", "u").unwrap();
    assert!(request.instructions.is_none());
    assert!(request.input.is_empty());
    assert!(request.tools.is_empty());
    assert!(matches!(request.tool_choice, CanonicalToolChoice::Auto));
    assert!(!request.parallel_tool_calls && !request.stream && !request.store);
    assert_eq!(request.max_output_tokens, None);
    assert!(request.reasoning.is_none());
    assert!(request.included.is_empty());
    assert!(matches!(request.metadata, Json::Null));
    assert!(!request_has_tools(&raw));
    assert!(request_has_tools(&json(r#"{"tools": [1]}"#)));
    assert!(!request_has_tools(&json(r#"{"tools": []}"#)));
}

#[test]
fn malformed_requests_are_rejected() {
    let cases = [
        (r#"{}"#, "Missing 'input' field in request"),
        (r#"{"input": 7}"#, "'input' must be a string or an array"),
        (r#"{"input": [{"type": "file"}]}"#, "Unsupported input item type 'file'"),
        (
            r#"{"input": [{"type": "function_call_output", "call_id": "c"}]}"#,
            "Missing or invalid string field 'output'",
        ),
        (
            r#"{"input": [{"content": {"a": 1}}]}"#,
            "Message content must be a string or an array",
        ),
        (
            r#"{"input": [{"content": [{"type": "text"}]}]}"#,
            "Missing or invalid string field 'text'",
        ),
        (r#"{"input": "x", "tools": {}}"#, "'tools' must be an array"),
        (
            r#"{"input": "x", "tools": [{"type": "web_search"}]}"#,
            "Unsupported tool type 'web_search'",
        ),
        (
            r#"{"input": "x", "tools": [{"name": "a"}, {"name": "a"}]}"#,
            "Duplicate tool name 'a'",
        ),
        (
            r#"{"input": "x", "tools": [{}]}"#,
            "Missing or invalid string field 'name'",
        ),
        (
            r#"{"input": "x", "instructions": 3}"#,
            "'instructions' must be a string or object",
        ),
        (
            r#"{"input": "x", "tool_choice": 3}"#,
            "'tool_choice' must be a string or object",
        ),
        (r#"{"input": "x", "reasoning": []}"#, "'reasoning' must be an object"),
    ];
    for (text, message) in cases {
        let error = parse_canonical_request("req", &json(text), "d", "u").unwrap_err();
        assert_eq!(error.kind, ErrorKind::RequestInvalid);
        assert_eq!(error.message, message);
    }
}

#[test]
fn parts_are_read_on_their_own() {
    assert!(parse_input(None).is_err());
    assert!(matches!(
        parse_tool_choice(Some(&json(r#""none""#))).unwrap(),
        CanonicalToolChoice::Never
    ));
    assert!(matches!(
        parse_tool_choice(Some(&json(r#""f""#))).unwrap(),
        CanonicalToolChoice::Specific(name) if name == "f"
    ));
    let instructions = parse_instructions(Some(&json(r#""short""#))).unwrap().unwrap();
    assert_eq!(instructions.role, "developer");
    assert!(parse_reasoning(None).unwrap().is_none());
    let tools = parse_tools(Some(&json(r#"[{"name": "a", "parameters": {"b": 1}}, {"name": "c"}]"#)));
    let tools = tools.unwrap();
    assert_eq!(render_json(&tools[0].parameters), r#"{"b":1}"#);
    assert_eq!(tools[0].description, "");
    assert_ne!(tools[0].name, tools[1].name);
}

#[test]
fn plain_requests_name_a_model_and_do_not_stream() {
    assert_eq!(plain_request_model(&json(r#"{"model": "m"}"#)).unwrap(), "m");
    let error = plain_request_model(&json(r#"{"input": "x"}"#)).unwrap_err();
    assert_eq!(error.kind, ErrorKind::RequestInvalid);
    assert_eq!(error.message, "Missing or invalid string field 'model'");
    let error = plain_request_model(&json(r#"{"model": "m", "stream": true}"#)).unwrap_err();
    assert_eq!(error.message, "Use relay_streaming_response for stream=true requests");
    assert!(wants_stream(&json(r#"{"stream": true}"#)));
    assert!(!wants_stream(&json(r#"{"stream": "true"}"#)));
}

#[test]
fn bodies_are_json() {
    assert_eq!(
        render_json(&parse_request_body(&br#"{"b":1,"a":[true,null]}"#.to_vec()).unwrap()),
        r#"{"a":[true,null],"b":1}"#
    );
    let error = parse_request_body(&b"{".to_vec()).unwrap_err();
    assert_eq!(error.kind, ErrorKind::RequestInvalid);
    assert_eq!(error.message, "Invalid JSON in request body");
}

#[test]
fn json_is_read_and_written() {
    let value = json(r#"{"z": -1, "a": "x\"y", "f": 1.25, "n": 18446744073709551615}"#);
    assert_eq!(
        render_json(&value),
        r#"{"a":"x\"y","f":1.25,"n":18446744073709551615,"z":-1}"#
    );
    assert_eq!(render_json(&value.duplicate()), render_json(&value));
    assert_eq!(value.get_str("a"), Some("x\"y"));
    assert_eq!(value.get_u64("n"), Some(u64::MAX));
    assert_eq!(value.get_u64("z"), None);
    assert!(value.get("q").is_none());
    assert!(value.is_object());
    assert!(parse_json("{").is_err());
    assert!(parse_json_opt("nul").is_none());
    assert_eq!(parse_json_array("[1, 2]").unwrap().len(), 2);
    assert!(parse_json_array("{}").is_err());
    assert!(parse_json_array(r#"{"$serde_json::private::RawValue":"[1]"}"#).is_err());
    assert_eq!(parse_json_array(&render_json(&parse_json("[[1], 2]").unwrap())).unwrap().len(), 2);
    assert!(parse_json_bytes(&vec![0xff]).is_err());
    assert_eq!(json("true").as_bool(), Some(true));
    assert_eq!(json("[1]").as_array().map(|items| items.len()), Some(1));
}

#[test]
fn protocols_have_names() {
    for api in [WireApi::Auto, WireApi::Responses, WireApi::OpenAiChat, WireApi::Anthropic] {
        assert_eq!(WireApi::parse(api.as_str()), Some(api));
    }
    assert_eq!(WireApi::OpenAiChat.as_str(), "openai_chat");
    assert_eq!(WireApi::parse("grpc"), None);
}

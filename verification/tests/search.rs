use photo_intake::gemma_text::{normalize_string_artifacts, serialize_functiongemma_value};
use photo_intake::gemma_value::parse_functiongemma_value;
use photo_intake::json::{parse_json, JsonValue};
use photo_intake::natural_search::{
    candidate_context_sizes, create_first_context, default_thread_count,
    ensure_function_gemma_runtime, plan_generation, release_function_gemma_runtime,
    run_function_gemma_natural_search, settle_generation, ContextPlan, FunctionGemmaRuntime,
    GenerateEvent, Generation, RunFunctionGemmaNaturalSearchRequest,
};
use photo_intake::prompt::{
    build_function_declarations, build_function_gemma_prompt, FunctionGemmaPromptPayload,
    START_FUNCTION_DECLARATION_TOKEN,
};
use photo_intake::tool_call::{
    call_of_match, extract_first_functiongemma_object, extract_first_json_object,
    extract_function_call_arguments, extract_function_call_block,
    extract_tagged_tool_call_payload, normalize_call_from_parts, normalize_tool_call_output,
    normalize_tool_call_payload, parse_arguments_object, single_tagged_block,
};

#[test]
fn normalizes_tagged_tool_call_payload() {
    let raw = r#"
<tool_call>
{"name":"search_photos_v1","arguments":{"limit":10}}
</tool_call>
"#;
    let normalized = normalize_tool_call_output(raw).expect("normalization should succeed");
    assert_eq!(
        normalized,
        r#"{"arguments":{"limit":10},"name":"search_photos_v1"}"#
    );
}

#[test]
fn normalizes_functiongemma_call_syntax() {
    let raw = r#"call:search_photos_v1({"semantic_query":"Photo of a beach","ownership_scope":"mine"})"#;
    let normalized = normalize_tool_call_output(raw).expect("normalization should succeed");
    assert_eq!(
        normalized,
        r#"{"arguments":{"ownership_scope":"mine","semantic_query":"Photo of a beach"},"name":"search_photos_v1"}"#
    );
}

#[test]
fn normalizes_escape_wrapped_string_values() {
    let raw = r#"call:search_photos_v1({"place_queries":["<escape>New York<escape>"],"limit":5})"#;
    let normalized = normalize_tool_call_output(raw).expect("normalization should succeed");
    assert_eq!(
        normalized,
        r#"{"arguments":{"limit":5,"place_queries":["New York"]},"name":"search_photos_v1"}"#
    );
}

#[test]
fn normalizes_canonical_functiongemma_call_syntax() {
    let raw = r#"<start_function_call>call:search_photos_v1{semantic_query:<escape>Photo of a beach<escape>,ownership_scope:<escape>mine<escape>,limit:5}<end_function_call>"#;
    let normalized = normalize_tool_call_output(raw).expect("normalization should succeed");
    assert_eq!(
        normalized,
        r#"{"arguments":{"limit":5,"ownership_scope":"mine","semantic_query":"Photo of a beach"},"name":"search_photos_v1"}"#
    );
}

#[test]
fn normalizes_nested_functiongemma_arguments() {
    let raw = r#"call:search_photos_v1{time_filter:{kind:<escape>calendar_year<escape>,year:2024},file_types:[<escape>image<escape>,<escape>video<escape>]}"#;
    let normalized = normalize_tool_call_output(raw).expect("normalization should succeed");
    assert_eq!(
        normalized,
        r#"{"arguments":{"file_types":["image","video"],"time_filter":{"kind":"calendar_year","year":2024}},"name":"search_photos_v1"}"#
    );
}

#[test]
fn rejects_non_matching_tool_name() {
    let raw = r#"call:wrong_tool({"limit":5})"#;
    let error = normalize_tool_call_output(raw).expect_err("should fail");
    assert!(error.contains("Unexpected FunctionGemma tool call"));
}

#[test]
fn builds_functiongemma_prompt_with_developer_turn_and_declarations() {
    let payload = FunctionGemmaPromptPayload {
        developer_prompt:
            "You are a model that can do function calling with the following functions\nRules."
                .to_string(),
        tool_schema_json: r#"{
            "type":"function",
            "function":{
                "name":"search_photos_v1",
                "description":"Search photos",
                "parameters":{
                    "type":"object",
                    "properties":{
                        "limit":{"type":"integer"}
                    }
                }
            }
        }"#
        .to_string(),
        user_query: "photos from 2024".to_string(),
    };

    let prompt = build_function_gemma_prompt(&payload).expect("prompt should build");

    assert!(prompt.contains("<start_of_turn>developer\n"));
    assert!(prompt.contains(START_FUNCTION_DECLARATION_TOKEN));
    assert!(prompt.contains("declaration:search_photos_v1"));
    assert!(prompt.contains("description:<escape>Search photos<escape>"));
    assert!(prompt.contains("type:<escape>OBJECT<escape>"));
    assert!(prompt.contains("<start_of_turn>user\nphotos from 2024<end_of_turn>"));
}

fn json(text: &str) -> JsonValue {
    parse_json(text).unwrap()
}

#[test]
fn json_is_read_and_written() {
    assert_eq!(
        json(r#" {"b": [1, 2.5, -3], "a": {"x": null, "y": true}, "c": "é\n"} "#).write(),
        r#"{"a":{"x":null,"y":true},"b":[1,2.5,-3],"c":"é\n"}"#
    );
    assert!(parse_json("{").is_err());
}

#[test]
fn values_are_serialized_in_the_notation() {
    let value = json(r#"{"type":"object","n":1.5,"list":[null,true,"type"],"empty":{}}"#);
    assert_eq!(
        serialize_functiongemma_value(None, &value),
        "{empty:{},list:[null,true,<escape>type<escape>],n:1.5,type:<escape>OBJECT<escape>}"
    );
    let text = json(r#""integer""#);
    assert_eq!(serialize_functiongemma_value(Some("type"), &text), "<escape>INTEGER<escape>");
    assert_eq!(serialize_functiongemma_value(Some("kind"), &text), "<escape>integer<escape>");
    assert_eq!(serialize_functiongemma_value(None, &json("false")), "false");
}

fn parsed(text: &str) -> Result<String, String> {
    parse_functiongemma_value(text).map(|value| value.write())
}

#[test]
fn values_are_parsed_in_the_notation() {
    assert_eq!(
        parsed(r#" { a : TRUE , "b c" : [ 1 , x y_z ] } "#),
        Err("Expected ',' or ']' in FunctionGemma array".to_owned())
    );
    assert_eq!(
        parsed(r#" { b : TRUE , "a c" : [ 1e3 , x, Null, ] , b: "q\"é" , } "#),
        Ok(r#"{"a c":[1000.0,"x",null],"b":"q\"é"}"#.to_owned())
    );
    assert_eq!(parsed("<escape> {,} <escape>"), Ok(r#"" {,} ""#.to_owned()));
    assert_eq!(parsed("[]"), Ok("[]".to_owned()));
    assert_eq!(parsed("12ab"), Ok(r#""12ab""#.to_owned()));
}

#[test]
fn damaged_values_are_told() {
    for (text, error) in [
        ("  ", "Unexpected end of FunctionGemma payload"),
        ("{a:1} x", "Unexpected trailing content in FunctionGemma payload"),
        ("{a:1", "Expected ',' or '}' in FunctionGemma object"),
        ("{a 1}", "Expected ':' but found '1'"),
        ("{a", "Expected ':' but reached end of input"),
        ("{:1}", "Expected token in FunctionGemma payload"),
        ("[1", "Expected ',' or ']' in FunctionGemma array"),
        ("<escape>a", "Unterminated <escape> string in FunctionGemma payload"),
        ("\"a", "Unterminated quoted string in FunctionGemma payload"),
        (":", "Expected token in FunctionGemma payload"),
    ] {
        assert_eq!(parsed(text), Err(error.to_owned()), "{text}");
    }
    assert!(
        parsed("\"\\q\"")
            .unwrap_err()
            .starts_with("Invalid quoted string in FunctionGemma payload: ")
    );
}

#[test]
fn escaped_text_is_read_back() {
    for text in ["", "New York", "a<escap", "{\"x\":1}", "<", "é, ü"] {
        let value = JsonValue::Text(text.to_owned());
        let written = serialize_functiongemma_value(None, &value);
        assert_eq!(written, format!("<escape>{text}<escape>"));
        match parse_functiongemma_value(&written) {
            Ok(JsonValue::Text(read)) => assert_eq!(read, text),
            other => panic!("{other:?}"),
        }
    }
}

fn cleared(text: &str) -> String {
    let mut value = json(text);
    normalize_string_artifacts(&mut value);
    value.write()
}

#[test]
fn texts_are_cleared_up() {
    assert_eq!(cleared(r#"["<escape>a<escape>", {"k<escape>": "\"b\""}]"#), r#"["a",{"k<escape>":"b"}]"#);
    assert_eq!(cleared(r#""a<escape>b""#), r#""a\"b""#);
    assert_eq!(cleared(r#""<escape>""#), r#""\"""#);
    assert_eq!(cleared(r#""\"""#), r#""\"""#);
    assert_eq!(cleared(r#""\"\"""#), r#""""#);
    assert_eq!(cleared(r#""<esc<escape>ape>""#), r#""<esc\"ape>""#);
    assert_eq!(cleared("[1,null]"), "[1,null]");
}

#[test]
fn objects_are_found_in_texts() {
    assert_eq!(
        extract_first_json_object(r#" so: {"a":"}{","b":{}} and {}"#),
        Some(r#"{"a":"}{","b":{}}"#.to_owned())
    );
    assert_eq!(extract_first_json_object("{\"a\":1"), None);
    assert_eq!(extract_first_json_object("none"), None);
    assert_eq!(
        extract_first_functiongemma_object("x {a:<escape>}<escape>,b:\"}\"} y"),
        Some("{a:<escape>}<escape>,b:\"}\"}".to_owned())
    );
    assert_eq!(extract_first_functiongemma_object("{a:<escape>}"), None);
    assert_eq!(extract_first_functiongemma_object(""), None);
}

#[test]
fn call_blocks_are_found_in_texts() {
    assert_eq!(
        extract_function_call_block("a <start_function_call> call:x{} <end_function_call> b"),
        Some("call:x{}".to_owned())
    );
    assert_eq!(
        extract_function_call_block("<start_function_call>call:x{}"),
        Some("call:x{}".to_owned())
    );
    assert_eq!(extract_function_call_block("call:x{}"), None);
}

#[test]
fn calls_are_found_in_texts() {
    let found = |name: &str, arguments: &str| Ok(Some((name.to_owned(), arguments.to_owned())));
    assert_eq!(extract_function_call_arguments("CALL : f_1 (see {\"a\":1})"), found("f_1", "{\"a\":1}"));
    assert_eq!(extract_function_call_arguments("call f{a:1}"), found("f", "{a:1}"));
    assert_eq!(extract_function_call_arguments("call:f"), found("f", "{}"));
    assert_eq!(extract_function_call_arguments("nothing"), Ok(None));
    assert_eq!(
        extract_function_call_arguments("call:f()"),
        Err("Missing JSON arguments in call output".to_owned())
    );
    assert_eq!(
        extract_function_call_arguments("call:f{"),
        Err("Missing object arguments in call output".to_owned())
    );
    assert_eq!(
        extract_function_call_arguments("call:f [1]"),
        Err("Unsupported FunctionGemma call syntax".to_owned())
    );
    assert_eq!(
        call_of_match(Some((" f ".to_owned(), " ({})".to_owned()))),
        found("f", "{}")
    );
}

#[test]
fn tagged_calls_stand_alone() {
    assert_eq!(
        extract_tagged_tool_call_payload("<TOOL_CALL> {} </tool_call>"),
        Ok(Some("{}".to_owned()))
    );
    assert_eq!(extract_tagged_tool_call_payload("{}"), Ok(None));
    assert_eq!(
        extract_tagged_tool_call_payload("<tool_call>a</tool_call><tool_call>b</tool_call>"),
        Err("Found multiple <tool_call> blocks; expected exactly one".to_owned())
    );
    assert_eq!(single_tagged_block(&vec![" a ".to_owned()]), Ok(Some("a".to_owned())));
}

fn call(arguments: &str) -> Result<String, String> {
    Ok(format!("{{\"arguments\":{arguments},\"name\":\"search_photos_v1\"}}"))
}

#[test]
fn payloads_name_their_call() {
    for payload in [
        r#"{"name":"search_photos_v1","arguments":{"a":1}}"#,
        r#"{"function":{"name":"search_photos_v1","arguments":{"a":1}}}"#,
        r#"{"tool_calls":[{"function":{"name":"search_photos_v1","arguments":{"a":1}}}]}"#,
        r#"{"tool_calls":[{"tool_calls":[{"name":"search_photos_v1","arguments":{"a":1}}]}]}"#,
    ] {
        assert_eq!(normalize_tool_call_payload(payload), call(r#"{"a":1}"#));
    }
    assert_eq!(normalize_tool_call_payload(r#"{"name":" search_photos_v1 "}"#), call("{}"));
}

#[test]
fn damaged_payloads_are_told() {
    for (payload, error) in [
        ("[1]", "Tool call payload must be a JSON object, got [1]"),
        (r#"{"tool_calls":{}}"#, "tool_calls must be an array"),
        (r#"{"tool_calls":[]}"#, "tool_calls must contain exactly one item"),
        (r#"{"tool_calls":[1]}"#, "tool_calls[0] must be an object"),
        (r#"{"function":1}"#, "function must be an object"),
        (r#"{"function":{}}"#, "function.name must be a non-empty string"),
        (r#"{"name":1}"#, "name must be a non-empty string"),
        (
            r#"{"name":"search_photos_v1","arguments":[]}"#,
            "Invalid tool arguments: Could not parse tool-call arguments as a JSON object",
        ),
        (
            r#"{"name":"other"}"#,
            "Unexpected FunctionGemma tool call 'other'; expected 'search_photos_v1'",
        ),
    ] {
        assert_eq!(normalize_tool_call_payload(payload), Err(error.to_owned()), "{payload}");
    }
    assert!(
        normalize_tool_call_payload("{").unwrap_err().starts_with("Tool call payload is not valid JSON: ")
    );
}

#[test]
fn arguments_are_read_in_every_notation() {
    let read = |text: &str| parse_arguments_object(text).map(|value| value.write());
    assert_eq!(read("  "), Ok("{}".to_owned()));
    assert_eq!(read(r#"{"a":1}"#), Ok(r#"{"a":1}"#.to_owned()));
    assert_eq!(read(r#"{"a":<escape>b<escape>}"#), Ok(r#"{"a":"b"}"#.to_owned()));
    assert_eq!(read("{a:<escape>b<escape>}"), Ok(r#"{"a":"b"}"#.to_owned()));
    assert_eq!(
        read("[1]"),
        Err("Could not parse tool-call arguments as a JSON object".to_owned())
    );
    assert_eq!(normalize_call_from_parts("search_photos_v1", ""), call("{}"));
}

#[test]
fn outputs_without_a_call_are_told() {
    assert_eq!(
        normalize_tool_call_output("  "),
        Err("FunctionGemma output is empty".to_owned())
    );
    assert_eq!(
        normalize_tool_call_output(" nothing here "),
        Err("Could not normalize FunctionGemma output to a tool call: nothing here".to_owned())
    );
    assert_eq!(
        normalize_tool_call_output("<start_function_call>nothing"),
        Err("Missing function call inside <start_function_call> block".to_owned())
    );
    assert_eq!(
        normalize_tool_call_output(r#"so {"name":"search_photos_v1","arguments":{}}"#),
        call("{}")
    );
}

#[test]
fn declarations_describe_every_tool() {
    let one = r#"{"name":" f ","description":"D"}"#;
    let declared = build_function_declarations(&json(one)).unwrap();
    assert_eq!(
        declared,
        "<start_function_declaration>declaration:f{description:<escape>D<escape>,parameters:{properties:{},type:<escape>OBJECT<escape>}}<end_function_declaration>"
    );
    assert_eq!(build_function_declarations(&json(&format!("[{one}]"))).unwrap(), declared);
    assert_eq!(
        build_function_declarations(&json(&format!("[{one},{one}]"))).unwrap(),
        format!("{declared}\n{declared}")
    );
    assert!(
        build_function_declarations(&json(r#"{"name":"g","parameters":{"type":"x"}}"#))
            .unwrap()
            .contains("{description:<escape><escape>,parameters:{type:<escape>X<escape>}}")
    );
}

#[test]
fn damaged_schemas_are_told() {
    for (schema, error) in [
        ("[]", "FunctionGemma tool schema must contain at least one tool"),
        ("1", "FunctionGemma tool schema item must be a JSON object"),
        ("[{\"name\":\"f\"},1]", "FunctionGemma tool schema item must be a JSON object"),
        (r#"{"type":"function"}"#, "FunctionGemma tool schema is missing 'function'"),
        (
            r#"{"type":"function","function":1}"#,
            "FunctionGemma 'function' entry must be a JSON object",
        ),
        (r#"{"name":" "}"#, "FunctionGemma tool schema function.name is required"),
        (r#"{"type":1}"#, "FunctionGemma tool schema function.name is required"),
    ] {
        assert_eq!(build_function_declarations(&json(schema)), Err(error.to_owned()), "{schema}");
    }
}

fn payload(developer: &str, schema: &str, query: &str) -> FunctionGemmaPromptPayload {
    FunctionGemmaPromptPayload {
        developer_prompt: developer.to_owned(),
        tool_schema_json: schema.to_owned(),
        user_query: query.to_owned(),
    }
}

#[test]
fn prompt_has_three_turns() {
    let declared = build_function_declarations(&json(r#"{"name":"f"}"#)).unwrap();
    assert_eq!(
        build_function_gemma_prompt(&payload(" D ", r#"{"name":"f"}"#, "\tQ\n")).unwrap(),
        format!(
            "<bos><start_of_turn>developer\nD\n\n{declared}<end_of_turn>\n<start_of_turn>user\nQ<end_of_turn>\n<start_of_turn>model\n"
        )
    );
    assert_eq!(
        build_function_gemma_prompt(&payload(" ", "{}", "Q")),
        Err("FunctionGemma payload developer_prompt is empty".to_owned())
    );
    assert_eq!(
        build_function_gemma_prompt(&payload("D", "{}", " ")),
        Err("FunctionGemma payload user_query is empty".to_owned())
    );
    assert!(
        build_function_gemma_prompt(&payload("D", "{", "Q"))
            .unwrap_err()
            .starts_with("Invalid tool_schema_json: ")
    );
}

#[test]
fn contexts_are_tried_from_large_to_small() {
    assert_eq!(candidate_context_sizes(), vec![16_384, 8_192, 4_096]);
    let plan = |context_size: i32| ContextPlan { context_size, n_threads: 2, n_batch: 256 };
    let small = |model: &u8, asked: ContextPlan| {
        assert_eq!(*model, 7);
        if asked == plan(8_192) { Ok("made") } else { Err("no".to_owned()) }
    };
    assert_eq!(create_first_context(&small, &7u8, 2), Ok(("made", 8_192)));
    let none = |_: &u8, asked: ContextPlan| -> Result<u8, String> {
        Err(format!("e{}", asked.context_size))
    };
    assert_eq!(
        create_first_context(&none, &7u8, 2),
        Err("Failed to create FunctionGemma context. Attempted sizes 16384, 8192, 4096. Errors: 16384: e16384 | 8192: e8192 | 4096: e4096".to_owned())
    );
}

#[test]
fn threads_are_bounded() {
    assert_eq!(default_thread_count(None), 4);
    assert_eq!(default_thread_count(Some(0)), 1);
    assert_eq!(default_thread_count(Some(3)), 3);
    assert_eq!(default_thread_count(Some(64)), 4);
}

fn ensure(
    state: &mut Option<FunctionGemmaRuntime<u8, i32>>,
    poisoned: bool,
    path: &str,
    model: Result<u8, String>,
) -> Result<(), String> {
    ensure_function_gemma_runtime(
        Ok(()),
        state,
        poisoned,
        path,
        4,
        |_: &str| model,
        |model: &u8, plan: ContextPlan| Ok(*model as i32 + plan.context_size),
    )
}

#[test]
fn runtime_is_loaded_once_and_released() {
    let mut state = None;
    assert_eq!(ensure(&mut state, false, "a", Ok(1)), Ok(()));
    assert_eq!(state.as_ref().map(|r| (r.model, r.context, r.context_size)), Some((1, 16_385, 16_384)));
    // The model is held already, so that nothing is loaded.
    assert_eq!(ensure(&mut state, false, "a", Err("unused".to_owned())), Ok(()));
    assert_eq!(
        ensure(&mut state, false, "b", Err("gone".to_owned())),
        Err("Failed to load FunctionGemma model: gone".to_owned())
    );
    assert_eq!(state.as_ref().map(|r| r.model), Some(1));
    assert_eq!(ensure(&mut state, false, "b", Ok(2)), Ok(()));
    assert_eq!(state.as_ref().map(|r| r.model), Some(2));
    let poisoned = Err("FunctionGemma runtime mutex is poisoned".to_owned());
    assert_eq!(ensure(&mut state, true, "b", Ok(3)), poisoned);
    assert_eq!(release_function_gemma_runtime(&mut state, true), poisoned);
    assert!(state.is_some());
    assert_eq!(release_function_gemma_runtime(&mut state, false), Ok(()));
    assert!(state.is_none());
    let broken = ensure_function_gemma_runtime(
        Err("off".to_owned()),
        &mut state,
        false,
        "a",
        4,
        |_: &str| Ok(1),
        |_: &u8, _: ContextPlan| Ok(1),
    );
    assert_eq!(broken, Err("Failed to initialize inference backend: off".to_owned()));
}

#[test]
fn events_are_gathered() {
    let mut generation = Generation::new();
    generation.accept(GenerateEvent::Text("a".to_owned()));
    generation.accept(GenerateEvent::Error("e".to_owned()));
    generation.accept(GenerateEvent::Text("b".to_owned()));
    generation.accept(GenerateEvent::Error("f".to_owned()));
    generation.accept(GenerateEvent::Done);
    assert_eq!(generation.text, "ab");
    assert_eq!(generation.stream_error.as_deref(), Some("f"));
    assert_eq!(
        settle_generation(Ok(()), generation).unwrap_err(),
        "FunctionGemma generation stream error: f"
    );
    assert_eq!(
        settle_generation(Err("x".to_owned()), Generation::new()).unwrap_err(),
        "FunctionGemma generation failed: x"
    );
}

#[test]
fn generation_stops_at_the_end_of_the_call() {
    let plan = plan_generation("p".to_owned());
    assert_eq!(plan.prompt, "p");
    assert_eq!(plan.max_tokens, 128);
    assert_eq!(plan.seed, 0);
    assert_eq!(
        plan.stop_sequences,
        vec![
            "<end_function_call>",
            "<end_of_turn>",
            "<start_of_turn>",
            "<start_function_response>",
            "<eos>",
        ]
    );
}

fn search(path: &str, json: &str, output: &str) -> Result<(String, String), String> {
    let request = RunFunctionGemmaNaturalSearchRequest {
        prompt_payload_json: json.to_owned(),
        model_path: path.to_owned(),
    };
    run_function_gemma_natural_search(
        &request,
        |text: &String| {
            if text == "bad" {
                Err("worse".to_owned())
            } else {
                Ok(payload("D", r#"{"name":"f"}"#, text))
            }
        },
        |path: &String| {
            if path == "gone" { Err("no model".to_owned()) } else { Ok(9u8) }
        },
        |context, plan| {
            assert_eq!(context, 9);
            assert!(plan.prompt.contains("<start_of_turn>user\nQ<end_of_turn>"));
            let mut generation = Generation::new();
            generation.accept(GenerateEvent::Text(output.to_owned()));
            (Ok(()), generation)
        },
    )
    .map(|result| (result.raw_output, result.normalized_tool_call_json))
}

#[test]
fn search_runs_from_payload_to_call() {
    assert_eq!(
        search("m", "Q", "call:search_photos_v1{limit:2}"),
        Ok((
            "call:search_photos_v1{limit:2}".to_owned(),
            r#"{"arguments":{"limit":2},"name":"search_photos_v1"}"#.to_owned(),
        ))
    );
    assert_eq!(search(" ", "Q", ""), Err("FunctionGemma model path is empty".to_owned()));
    assert_eq!(
        search("m", " ", ""),
        Err("FunctionGemma prompt payload JSON is empty".to_owned())
    );
    assert_eq!(
        search("m", "bad", ""),
        Err("Invalid FunctionGemma prompt payload JSON: worse".to_owned())
    );
    assert_eq!(search("gone", "Q", ""), Err("no model".to_owned()));
    assert_eq!(search("m", "Q", " "), Err("FunctionGemma output is empty".to_owned()));
}

#[test]
fn prompt_ignores_outer_space() {
    let schema = r#"{"name":"f"}"#;
    assert_eq!(
        build_function_gemma_prompt(&payload("  D\n", schema, "\tQ ")),
        build_function_gemma_prompt(&payload("D", schema, "Q"))
    );
}

#[test]
fn plain_values_are_read_back() {
    for text in [
        "null",
        "[]",
        "{}",
        r#"{"a":[true,false,null,["x"]],"b":{"c":"New, {York}","d":-12.5},"type":"OBJECT"}"#,
    ] {
        let value = json(text);
        let written = serialize_functiongemma_value(None, &value);
        assert_eq!(parsed(&written), Ok(text.to_owned()), "{written}");
    }
    // Small letters under the key `type` are not.
    let lower = serialize_functiongemma_value(None, &json(r#"{"type":"object"}"#));
    assert_eq!(parsed(&lower), Ok(r#"{"type":"OBJECT"}"#.to_owned()));
}

#[test]
fn integers_are_written_and_read_back() {
    for text in ["0", "-1", "42", "-9223372036854775808", "18446744073709551615"] {
        let written = serialize_functiongemma_value(None, &json(text));
        assert_eq!(written, text);
        match parse_functiongemma_value(&written) {
            Ok(value) => assert_eq!(value.write(), text),
            Err(error) => panic!("{error}"),
        }
    }
    assert!(matches!(json("7"), JsonValue::Unsigned(7)));
    assert!(matches!(json("-7"), JsonValue::Signed(-7)));
    assert!(matches!(json("7.0"), JsonValue::Number(_)));
    assert_eq!(serialize_functiongemma_value(None, &json("[1.5,2e3]")), "[1.5,2000.0]");
}

#[test]
fn normalized_call_is_left_as_it_is() {
    for arguments in [
        "{}",
        r#"{"b":[1,-2,{"d":"{","c":null}],"a":"x\"y\\"}"#,
        r#"{"query":"<escape>dogs<escape>","year":2024}"#,
    ] {
        let raw = format!("call:search_photos_v1{arguments}");
        let once = normalize_tool_call_output(&raw).unwrap();
        assert_eq!(normalize_tool_call_output(&once).unwrap(), once);
    }
    // A text in quotes loses them one pair at a time.
    let quoted = r#"call:search_photos_v1{"a":"\"\"x\"\""}"#;
    let once = normalize_tool_call_output(quoted).unwrap();
    assert_ne!(normalize_tool_call_output(&once).unwrap(), once);
    // The word `call` begins another call.
    let call = r#"call:search_photos_v1{"a":"call me"}"#;
    assert!(normalize_tool_call_output(&normalize_tool_call_output(call).unwrap()).is_err());
}

#[test]
fn fields_of_a_call_are_sorted() {
    assert_eq!(
        normalize_tool_call_output(r#"call:search_photos_v1{"b":{"z":1,"y":2},"a":3}"#).unwrap(),
        r#"{"arguments":{"a":3,"b":{"y":2,"z":1}},"name":"search_photos_v1"}"#
    );
}

#[test]
fn integers_of_the_json_library_are_integers() {
    let five = JsonValue::Number(serde_json::Number::from(5u64));
    assert_eq!(five.write(), "5");
    assert_eq!(serialize_functiongemma_value(None, &five), "5");
    let half = JsonValue::Number(serde_json::Number::from_f64(0.5).unwrap());
    assert_eq!(half.write(), "0.5");
}

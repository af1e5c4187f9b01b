use ksearch::server::channel::{split_reasoning_and_content, strip_native_tool_calls};
use ksearch::server::chat::{
    apply_chat_template, awaits_tool_call, gemma4_chat_from_messages, gemma4_chat_prompt,
    json_value_to_gemma4, render_tool_declarations, ChatMessage, FunctionDef, Tool, ToolCall,
};
use ksearch::server::json::{read_json, Field, Json};
use ksearch::server::tools::{
    extract_at_file_path, gemma4_dict_to_json_object, infer_tool_calls_without_generation,
    make_tool_call, parse_native_tool_calls, resolve_tool_calls, user_message_implies_read,
    user_wants_directory_listing,
};

fn tool(name: &str, description: &str) -> Tool {
    Tool {
        tool_type: Some("function".to_string()),
        function: FunctionDef {
            name: name.to_string(),
            description: Some(description.to_string()),
            parameters: None,
        },
    }
}

fn read_tool() -> Tool {
    tool("read", "Read a file")
}

fn message(role: &str, content: &str) -> ChatMessage {
    ChatMessage {
        role: role.into(),
        content: Some(content.into()),
        ..Default::default()
    }
}

fn path_args() -> Json {
    Json::Object(vec![Field {
        key: "path".to_string(),
        value: Json::Str("AGENTS.md".to_string()),
    }])
}

#[test]
fn template_puts_think_and_tools_on_system() {
    let messages = vec![message("system", "be helpful"), message("user", "hi")];
    let tools = vec![read_tool()];
    let prompt = apply_chat_template(&messages, Some(&tools), None);
    assert!(prompt.contains("<|turn>system\n<|think|>\nbe helpful\n"));
    assert!(prompt.contains("<|tool>declaration:read"));
    assert!(prompt.contains("You must call a tool to answer this request."));
    assert!(prompt.ends_with("<|turn>model\n"));
    assert!(!prompt.contains("<|tool_call>"));
}

#[test]
fn splits_thought_channel_from_final() {
    let text = "<|channel>thought\nI should read the file.\n<channel|>\n<|channel>final\nIt is a Metal LLM server.\n<channel|>";
    let (r, c) = split_reasoning_and_content(text);
    assert!(r.contains("I should read"));
    assert_eq!(c, "It is a Metal LLM server.");
}

#[test]
fn splits_answer_after_closed_thought() {
    let text = "<|channel>thought\nThe user asked about the project.\n<channel|>\nThis is a Failed Experiments Log for Metal inference.";
    let (r, c) = split_reasoning_and_content(text);
    assert!(r.contains("The user asked"));
    assert!(c.contains("Failed Experiments Log"));
}

#[test]
fn infers_read_for_pi_at_file() {
    let messages = vec![message("user", "whats this project about @AGENTS.md")];
    let tools = vec![read_tool()];
    let calls = infer_tool_calls_without_generation(&messages, Some(&tools), None);
    assert_eq!(calls.len(), 1);
    assert_eq!(calls[0].function.name, "read");
    assert_eq!(calls[0].function.arguments, r#"{"path":"AGENTS.md"}"#);
}

#[test]
fn parses_native_read_call() {
    let text = r#"<|tool_call>call:read{path:<|"|>AGENTS.md<|"|>}<tool_call|>"#;
    let calls = parse_native_tool_calls(text, Some(&vec!["read".to_string()]));
    assert_eq!(calls.len(), 1);
    assert_eq!(calls[0].function.name, "read");
    assert_eq!(calls[0].function.arguments, r#"{"path":"AGENTS.md"}"#);
}

#[test]
fn tool_result_stays_in_open_model_turn() {
    let messages = vec![
        message("user", "whats this @AGENTS.md"),
        ChatMessage {
            role: "assistant".into(),
            tool_calls: Some(vec![make_tool_call("read", &path_args())]),
            ..Default::default()
        },
        ChatMessage {
            role: "tool".into(),
            name: Some("read".into()),
            content: Some("# ksearch\ncompiler".into()),
            ..Default::default()
        },
    ];
    let prompt = apply_chat_template(&messages, None, None);
    assert!(prompt.contains("<|tool_response>response:read"));
    assert!(prompt.contains("compiler"));
    assert!(prompt.contains("<|turn>model\n"));
}

#[test]
fn gemma4_chat_from_messages_opens_model_turn() {
    let prompt = gemma4_chat_from_messages(&[
        ("system", "be brief"),
        ("user", "Hi"),
        ("assistant", "Hi!"),
        ("user", "again"),
    ]);
    assert_eq!(
        prompt,
        "<|turn>system\nbe brief<turn|>\n<|turn>user\nHi<turn|>\n<|turn>model\nHi!<turn|>\n<|turn>user\nagain<turn|>\n<|turn>model\n"
    );
    assert_eq!(
        gemma4_chat_prompt("Hi"),
        "<|turn>user\nHi<turn|>\n<|turn>model\n"
    );
}

#[test]
fn system_messages_are_put_together() {
    let prompt = gemma4_chat_from_messages(&[("user", "a"), ("system", "s1"), ("system", "s2")]);
    assert_eq!(
        prompt,
        "<|turn>system\ns1\n\ns2<turn|>\n<|turn>user\na<turn|>\n<|turn>model\n"
    );
    assert_eq!(gemma4_chat_from_messages(&[]), "<|turn>model\n");
}

#[test]
fn paths_behind_an_at_sign() {
    assert_eq!(extract_at_file_path("see @a/b.rs, please"), Some("a/b.rs".to_string()));
    assert_eq!(extract_at_file_path("see @\"my file.txt\" now"), Some("my file.txt".to_string()));
    assert_eq!(extract_at_file_path("see @\"open"), None);
    assert_eq!(extract_at_file_path("nothing here"), None);
    assert_eq!(extract_at_file_path("mail @. now"), None);
    assert_eq!(extract_at_file_path("@\"\" @x"), None);
}

#[test]
fn listings_and_reads_are_recognised() {
    assert!(user_wants_directory_listing(&vec![message("user", "Please LIST FILES here")]));
    assert!(user_wants_directory_listing(&vec![message("user", "  ls ")]));
    assert!(!user_wants_directory_listing(&vec![message("user", "lsof")]));
    assert!(user_message_implies_read(&vec![message("user", "Summarize it")]));
    assert!(!user_message_implies_read(&vec![message("user", "hello")]));
    assert!(!user_message_implies_read(&vec![message("assistant", "summary")]));
}

#[test]
fn a_listing_goes_through_bash() {
    let tools = vec![read_tool(), tool("bash", "Run")];
    let messages = vec![message("user", "list files")];
    let calls = infer_tool_calls_without_generation(&messages, Some(&tools), None);
    assert_eq!(calls.len(), 1);
    assert_eq!(calls[0].function.name, "bash");
    assert_eq!(calls[0].function.arguments, r#"{"command":"ls -F"}"#);
    assert_eq!(calls[0].call_type, "function");
    assert_eq!(calls[0].id.len(), 37);
    assert!(calls[0].id.starts_with("call_"));
    let none = Json::Str("none".to_string());
    assert!(infer_tool_calls_without_generation(&messages, Some(&tools), Some(&none)).is_empty());
}

#[test]
fn two_calls_get_two_identifiers() {
    let a = make_tool_call("read", &path_args());
    let b = make_tool_call("read", &path_args());
    assert_ne!(a.id, b.id);
    assert!(a.id[5..].chars().all(|ch| ch.is_ascii_hexdigit() && !ch.is_ascii_uppercase()));
}

#[test]
fn doubles_are_kept_exactly() {
    for t in ["1.0000000000000007", "0.1", "123456789.12345679", "5e-324", "1.7976931348623157e308"] {
        let dict: Vec<char> = format!("{{a:{t}}}").chars().collect();
        let args = gemma4_dict_to_json_object(&dict).unwrap();
        let call = make_tool_call("f", &args);
        let back = call.function.arguments.trim_start_matches("{\"a\":").trim_end_matches('}');
        assert_eq!(back.parse::<f64>().unwrap(), t.parse::<f64>().unwrap());
    }
    let dict: Vec<char> = "{a:1.0000000000000007}".chars().collect();
    let call = make_tool_call("f", &gemma4_dict_to_json_object(&dict).unwrap());
    assert_eq!(call.function.arguments, "{\"a\":1.0000000000000007}");
}

#[test]
fn flat_arguments_are_read_back() {
    let field = |key: &str, value: Json| Field { key: key.to_string(), value };
    let object = Json::Object(vec![
        field("path", Json::Str(" a b: <x>|é ".to_string())),
        field("", Json::Bool(false)),
        field("deep", Json::Bool(true)),
        field("none", Json::Null),
        field("empty", Json::Str(String::new())),
    ]);
    let text = json_value_to_gemma4(&object);
    let chars: Vec<char> = text.chars().collect();
    match gemma4_dict_to_json_object(&chars) {
        Some(Json::Object(f)) => {
            assert_eq!(f.len(), 5);
            assert!(f[0].key == "path" && matches!(&f[0].value, Json::Str(s) if s == " a b: <x>|é "));
            assert!(f[1].key.is_empty() && matches!(&f[1].value, Json::Bool(false)));
            assert!(f[2].key == "deep" && matches!(&f[2].value, Json::Bool(true)));
            assert!(f[3].key == "none" && matches!(&f[3].value, Json::Null));
            assert!(f[4].key == "empty" && matches!(&f[4].value, Json::Str(s) if s.is_empty()));
        }
        _ => panic!("{text}"),
    }
    let none: Vec<char> = json_value_to_gemma4(&Json::Object(vec![])).chars().collect();
    assert!(matches!(gemma4_dict_to_json_object(&none), Some(Json::Object(f)) if f.is_empty()));
}

#[test]
fn arguments_of_every_kind() {
    let dict: Vec<char> = "{a:1.5,b:true,c:null,d:<|\"|>x<|\"|>,e:word}".chars().collect();
    match gemma4_dict_to_json_object(&dict) {
        Some(Json::Object(fields)) => {
            assert_eq!(fields.len(), 5);
            assert!(matches!(&fields[0].value, Json::Double(n) if n == "1.5"));
            assert!(matches!(&fields[1].value, Json::Bool(true)));
            assert!(matches!(&fields[2].value, Json::Null));
            assert!(matches!(&fields[3].value, Json::Str(s) if s == "x"));
            assert!(matches!(&fields[4].value, Json::Str(s) if s == "word"));
        }
        _ => panic!("no object"),
    }
    let open: Vec<char> = "{a:<|\"|>x}".chars().collect();
    assert!(gemma4_dict_to_json_object(&open).is_none());
    let bare: Vec<char> = "{a}".chars().collect();
    assert!(gemma4_dict_to_json_object(&bare).is_none());
    let empty: Vec<char> = "{}".chars().collect();
    assert!(matches!(gemma4_dict_to_json_object(&empty), Some(Json::Object(f)) if f.is_empty()));
}

#[test]
fn content_holds_no_closed_call() {
    let call = "<|tool_call>call:rm{path:<|\"|>x<|\"|>}<tool_call|>";
    for text in [
        format!("before {call} between {call} after"),
        format!("<|channel>thought\nhm<channel|>answer {call}"),
        format!("{call}{call}"),
    ] {
        let (_, content) = split_reasoning_and_content(&text);
        assert!(!content.contains("<tool_call|>"), "{content}");
    }
}

#[test]
fn calls_of_unknown_tools_are_passed_over() {
    let text = "<|tool_call>call:rm{path:<|\"|>x<|\"|>}<tool_call|>";
    assert!(parse_native_tool_calls(text, Some(&vec!["read".to_string()])).is_empty());
    assert_eq!(parse_native_tool_calls(text, None).len(), 1);
    assert_eq!(parse_native_tool_calls(text, None)[0].function.name, "rm");
}

#[test]
fn a_call_in_the_text_comes_before_an_inferred_one() {
    let tools = vec![read_tool()];
    let messages = vec![message("user", "read the file @a.txt")];
    let text = "<|tool_call>call:read{path:<|\"|>b.txt<|\"|>}";
    let calls = resolve_tool_calls(text, &messages, Some(&tools), None);
    assert_eq!(calls.len(), 1);
    assert_eq!(calls[0].function.arguments, r#"{"path":"b.txt"}"#);
    let calls = resolve_tool_calls("no call", &messages, Some(&tools), None);
    assert_eq!(calls[0].function.arguments, r#"{"path":"a.txt"}"#);
}

#[test]
fn a_required_call_is_primed() {
    let tools = vec![read_tool()];
    let messages = vec![message("user", "hi")];
    let required = Json::Str("required".to_string());
    let prompt = apply_chat_template(&messages, Some(&tools), Some(&required));
    assert!(prompt.ends_with("<|turn>model\n<|tool_call>"));
}

#[test]
fn a_tool_answer_is_awaited_until_it_came() {
    let call = ChatMessage {
        role: "assistant".into(),
        tool_calls: Some(vec![make_tool_call("read", &path_args())]),
        ..Default::default()
    };
    assert!(awaits_tool_call(&vec![message("user", "hi")]));
    let answered = vec![message("user", "hi"), call, message("tool", "done")];
    assert!(!awaits_tool_call(&answered));
}

#[test]
fn calls_are_stripped_from_visible_text() {
    let mut text = "a<|tool_call>call:x{}<tool_call|>b".to_string();
    strip_native_tool_calls(&mut text);
    assert_eq!(text, "ab");
}

#[test]
fn parameters_are_declared_in_order() {
    let schema = r#"{"type":"object","properties":{"path":{"type":"string","description":"Where"}},"required":["path"]}"#;
    let tools = vec![Tool {
        tool_type: None,
        function: FunctionDef {
            name: "read".to_string(),
            description: Some("Read a file".to_string()),
            parameters: read_json(schema),
        },
    }];
    let text = render_tool_declarations(&tools);
    assert!(text.contains("declaration:read"));
    assert!(text.contains("path"));
    assert!(text.contains("STRING"));
    assert!(read_json("{").is_none());
}

#[test]
fn a_call_written_in_the_template_reads_back() {
    let call = make_tool_call("read", &path_args());
    let messages = vec![
        message("user", "hi"),
        ChatMessage {
            role: "assistant".into(),
            tool_calls: Some(vec![ToolCall {
                id: call.id.clone(),
                call_type: call.call_type,
                function: call.function,
            }]),
            ..Default::default()
        },
    ];
    let prompt = apply_chat_template(&messages, None, None);
    let calls = parse_native_tool_calls(&prompt, None);
    assert_eq!(calls.len(), 1);
    assert_eq!(calls[0].function.name, "read");
    assert_eq!(calls[0].function.arguments, r#"{"path":"AGENTS.md"}"#);
}

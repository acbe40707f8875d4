use roleplayer::errors::AppError;
use roleplayer::json::{member, object1, JsonNumber, JsonValue};
use roleplayer::llm::{ChatMessage, ContentBlock, ModelInfo, Role, ToolSchema};
use roleplayer::providers::domain::{ProviderConfig, ProviderKind};
use roleplayer::providers::mock::{contract_test_mock, MockProvider};
use roleplayer::providers::openai::{
    completion_from_body, drain_consumed, first_delta_text, frame_payloads, http_failure, line_payload, models_from_ids,
    openai_message, truncate, Choice, CompletionBody, OpenAiCompatibleProvider, OutboundMessage, StreamAccumulator,
    StreamChoice, StreamChunk, StreamDelta, StreamFunction, StreamToolCall, UsageBody, WireFunction, WireMessage,
    WireToolCall,
};
use roleplayer::providers::registry::ProviderRegistry;
use roleplayer::providers::secrets::{KeyringFailure, Secrets};
use roleplayer::providers::service::{
    apply_config_input, build_adapter, preferred_default, probe_text, provider_seeds, require_config, resolve_key,
    to_info, BuiltAdapter, ProviderConfigInput, ProviderConfigRequest,
};

fn to_json(v: &serde_json::Value) -> JsonValue {
    match v {
        serde_json::Value::Null => JsonValue::Null,
        serde_json::Value::Bool(b) => JsonValue::Bool(*b),
        serde_json::Value::Number(n) => match (n.as_u64(), n.as_i64()) {
            (Some(u), _) => JsonValue::Number(JsonNumber::PosInt(u)),
            (None, Some(i)) => JsonValue::Number(JsonNumber::NegInt(i)),
            _ => JsonValue::Number(JsonNumber::Float(n.to_string())),
        },
        serde_json::Value::String(s) => JsonValue::String(s.clone()),
        serde_json::Value::Array(items) => JsonValue::Array(items.iter().map(to_json).collect()),
        serde_json::Value::Object(map) => JsonValue::Object(map.iter().map(|(k, v)| (k.clone(), to_json(v))).collect()),
    }
}

fn parse(text: &str) -> Option<JsonValue> {
    serde_json::from_str::<serde_json::Value>(text).ok().map(|v| to_json(&v))
}

fn dice_tool() -> ToolSchema {
    ToolSchema { name: "dice".to_string(), description: "roll dice".to_string(), parameters: JsonValue::empty_object() }
}

fn first_text(message: &ChatMessage) -> Option<&str> {
    message.content.iter().find_map(|block| block.text())
}

#[test]
fn replies_with_template_and_echo() {
    let mock = MockProvider::new("mock", "mock/model", "The tavern is quiet.");
    let messages = vec![ChatMessage::text(Role::User, "I look around".to_string())];
    let response = mock.complete(&messages, &vec![dice_tool()]);
    let text = first_text(&response.message).expect("has text");
    assert!(text.starts_with("The tavern is quiet."));
    assert!(text.contains("I look around"));
    assert_eq!(text, "The tavern is quiet. (I look around)");
    assert_eq!(response.finish_reason.as_deref(), Some("stop"));
}

#[test]
fn triggers_dice_tool_call_on_request() {
    let mock = MockProvider::new("mock", "mock/model", "Roll!");
    let messages = vec![ChatMessage::text(Role::User, "I swing, roll DICE".to_string())];
    let response = mock.complete(&messages, &vec![dice_tool()]);
    match response.message.content.first() {
        Some(ContentBlock::ToolCall { id, tool, arguments }) => {
            assert_eq!(id, "mock-dice-1");
            assert_eq!(tool, "dice");
            assert_eq!(arguments.get("expr").and_then(|v| v.as_str()), Some("2d6"));
        }
        other => panic!("expected a dice tool call, got {other:?}"),
    }
}

#[test]
fn narrates_after_tool_result() {
    let mock = MockProvider::new("mock", "mock/model", "The blow lands.");
    let messages = vec![
        ChatMessage::text(Role::User, "I swing, roll dice".to_string()),
        ChatMessage {
            role: Role::Assistant,
            content: vec![ContentBlock::ToolCall {
                id: "1".to_string(),
                tool: "dice".to_string(),
                arguments: object1(member("expr", JsonValue::from_str_slice("2d6"))),
            }],
        },
        ChatMessage {
            role: Role::Tool,
            content: vec![ContentBlock::ToolResult {
                id: "1".to_string(),
                result: object1(member("total", JsonValue::from_i64(9))),
            }],
        },
    ];
    let response = mock.complete(&messages, &vec![dice_tool()]);
    let text = first_text(&response.message).expect("has text");
    assert!(text.starts_with("The blow lands."));
}

#[test]
fn mock_does_not_call_tools_when_none_are_offered() {
    let mock = contract_test_mock();
    let messages = vec![ChatMessage::text(Role::User, "roll dice".to_string())];
    let reply = mock.build_reply(&messages, &Vec::new());
    assert_eq!(first_text(&reply), Some("The GM nods thoughtfully. (roll dice)"));
}

#[test]
fn mock_echo_is_cut_to_the_limit_and_empty_without_user_text() {
    let mock = MockProvider::new("mock", "m", "T");
    let long = "a".repeat(130);
    let reply = mock.build_reply(&vec![ChatMessage::text(Role::User, long)], &Vec::new());
    assert_eq!(first_text(&reply).unwrap(), format!("T ({})", "a".repeat(120)));
    let reply = mock.build_reply(&Vec::new(), &Vec::new());
    assert_eq!(first_text(&reply), Some("T"));
}

#[test]
fn mock_streams_space_separated_fragments() {
    let message = ChatMessage::text(Role::Assistant, "The GM  nods".to_string());
    let deltas = MockProvider::stream_deltas(&message);
    assert_eq!(deltas, vec!["The ".to_string(), "GM ".to_string(), " ".to_string(), "nods ".to_string()]);
    let silent = ChatMessage { role: Role::Assistant, content: vec![] };
    assert!(MockProvider::stream_deltas(&silent).is_empty());
}

#[test]
fn mock_lists_its_model() {
    let mock = contract_test_mock();
    let models = mock.list_models();
    assert_eq!(models.len(), 1);
    assert_eq!(models[0].id, "mock/model");
    assert_eq!(models[0].name, "Mock Model");
    assert_eq!(mock.capabilities().max_output_tokens, 4096);
    assert_eq!(mock.id(), "mock");
}

#[test]
fn first_registered_provider_becomes_default() {
    let mut registry: ProviderRegistry<MockProvider> = ProviderRegistry::new();
    registry.register("mock".to_string(), MockProvider::new("mock", "mock/model", "hi"));
    let default = registry.get_default().expect("has default");
    assert_eq!(default.id(), "mock");
}

#[test]
fn set_default_rejects_unknown_ids() {
    let mut registry: ProviderRegistry<MockProvider> = ProviderRegistry::new();
    registry.register("mock".to_string(), MockProvider::new("mock", "mock/model", "hi"));
    assert!(registry.set_default("nope").is_err());
    assert!(registry.set_default("mock").is_ok());
}

#[test]
fn registry_replaces_and_keeps_default() {
    let mut registry: ProviderRegistry<MockProvider> = ProviderRegistry::new();
    registry.register("a".to_string(), MockProvider::new("a", "m1", "x"));
    registry.register("b".to_string(), MockProvider::new("b", "m2", "y"));
    registry.register("a".to_string(), MockProvider::new("a", "m3", "z"));
    assert_eq!(registry.default_id(), Some("a"));
    let mut ids = registry.ids();
    ids.sort();
    assert_eq!(ids, vec!["a".to_string(), "b".to_string()]);
    assert_eq!(registry.get("a").unwrap().list_models()[0].id, "m3");
    match registry.set_default("zzz") {
        Err(AppError::Config(m)) => assert_eq!(m, "unknown provider: zzz"),
        other => panic!("unexpected {other:?}"),
    }
    match registry.require("zzz") {
        Err(AppError::Config(m)) => assert_eq!(m, "provider not configured: zzz"),
        other => panic!("unexpected {:?}", other.map(|p| p.id().to_string())),
    }
    registry.set_default_model("m2".to_string());
    assert_eq!(registry.default_model().as_deref(), Some("m2"));
    let empty: ProviderRegistry<MockProvider> = ProviderRegistry::new();
    assert!(empty.require_default().is_err());
}

#[test]
fn payload_maps_tool_results_to_tool_role() {
    let message = ChatMessage {
        role: Role::Tool,
        content: vec![ContentBlock::ToolResult {
            id: "call-1".to_string(),
            result: object1(member("total", JsonValue::from_i64(9))),
        }],
    };
    match openai_message(&message) {
        OutboundMessage::ToolResult { tool_call_id, result } => {
            assert_eq!(tool_call_id, "call-1");
            assert!(matches!(result.get("total"), Some(JsonValue::Number(JsonNumber::PosInt(9)))));
        }
        other => panic!("expected a tool reply, got {other:?}"),
    }
    let provider = OpenAiCompatibleProvider::new("test", "https://example.com/v1", "key", vec![]);
    assert_eq!(provider.id(), "test");
}

#[test]
fn tool_message_without_result_answers_unknown() {
    let message = ChatMessage { role: Role::Tool, content: vec![] };
    match openai_message(&message) {
        OutboundMessage::ToolResult { tool_call_id, result } => {
            assert_eq!(tool_call_id, "unknown");
            assert!(matches!(result, JsonValue::Object(ref m) if m.is_empty()));
        }
        other => panic!("unexpected {other:?}"),
    }
}

#[test]
fn payload_maps_tool_calls_to_tool_calls_field() {
    let message = ChatMessage {
        role: Role::Assistant,
        content: vec![
            ContentBlock::Text { text: "Rolling...".to_string() },
            ContentBlock::ToolCall {
                id: "call-2".to_string(),
                tool: "dice".to_string(),
                arguments: object1(member("expr", JsonValue::from_str_slice("2d6"))),
            },
        ],
    };
    match openai_message(&message) {
        OutboundMessage::Chat { role, content, tool_calls } => {
            assert_eq!(role, Role::Assistant);
            assert_eq!(content.as_deref(), Some("Rolling..."));
            assert_eq!(tool_calls.len(), 1);
            assert_eq!(tool_calls[0].name, "dice");
            assert_eq!(tool_calls[0].arguments.get("expr").and_then(|v| v.as_str()), Some("2d6"));
        }
        other => panic!("unexpected {other:?}"),
    }
    let only_calls = ChatMessage {
        role: Role::Assistant,
        content: vec![ContentBlock::ToolCall {
            id: "c".to_string(),
            tool: "dice".to_string(),
            arguments: JsonValue::empty_object(),
        }],
    };
    assert!(matches!(openai_message(&only_calls), OutboundMessage::Chat { content: None, .. }));
}

#[test]
fn payload_offers_tools_with_auto_choice() {
    let provider = OpenAiCompatibleProvider::new("p", "https://x/v1/", "k", vec![]);
    let messages = vec![ChatMessage::text(Role::User, "hi".to_string())];
    let payload = provider.build_payload("m", &messages, &vec![dice_tool()], Some(64), true);
    assert_eq!(payload.model, "m");
    assert!(payload.stream);
    assert_eq!(payload.max_tokens, Some(64));
    assert_eq!(payload.tool_choice.as_deref(), Some("auto"));
    assert_eq!(payload.tools.len(), 1);
    assert_eq!(payload.messages.len(), 1);
    let bare = provider.build_payload("m", &messages, &Vec::new(), None, false);
    assert!(bare.tool_choice.is_none());
}

#[test]
fn chat_url_is_derived_from_the_base() {
    let provider = OpenAiCompatibleProvider::new("p", "https://x.example/v1//", "k", vec![]);
    assert_eq!(provider.chat_url(), "https://x.example/v1/chat/completions");
    assert_eq!(provider.models_url(), "https://x.example/v1/models");
    let full = OpenAiCompatibleProvider::new("p", "https://x.example/v1/chat/completions", "k", vec![]);
    assert_eq!(full.chat_url(), "https://x.example/v1/chat/completions");
    assert_eq!(full.capabilities().max_output_tokens, 8192);
    assert_eq!(full.api_key(), "k");
}

#[test]
fn list_models_falls_back_to_the_catalog() {
    let known = vec![ModelInfo {
        id: "k1".to_string(),
        name: "K1".to_string(),
        context_window: None,
        max_output: None,
        supports_tools: true,
    }];
    let provider = OpenAiCompatibleProvider::new("p", "u", "k", known);
    assert_eq!(provider.list_models(Ok(vec![]))[0].id, "k1");
    assert_eq!(provider.list_models(Err(AppError::Provider("down".to_string())))[0].id, "k1");
    let live = models_from_ids(vec!["live".to_string()]);
    assert_eq!(live[0].name, "live");
    assert_eq!(provider.list_models(Ok(live))[0].id, "live");
}

#[test]
fn parse_completion_handles_tool_calls() {
    let arguments = "{\"key\":\"room\",\"value\":\"flooded\"}".to_string();
    let parsed = vec![parse(&arguments)];
    let body = CompletionBody {
        choices: vec![Choice {
            message: WireMessage {
                content: None,
                tool_calls: vec![WireToolCall {
                    id: "call-3".to_string(),
                    function: WireFunction { name: "update_world".to_string(), arguments },
                }],
            },
            finish_reason: Some("tool_calls".to_string()),
        }],
        usage: Some(UsageBody { prompt_tokens: Some(10), completion_tokens: Some(5) }),
    };
    let response = completion_from_body(body, parsed).expect("parse should succeed");
    match response.message.content.first() {
        Some(ContentBlock::ToolCall { tool, arguments, .. }) => {
            assert_eq!(tool, "update_world");
            assert_eq!(arguments.get("key").and_then(|v| v.as_str()), Some("room"));
            assert_eq!(arguments.get("value").and_then(|v| v.as_str()), Some("flooded"));
        }
        other => panic!("expected tool call, got {other:?}"),
    }
    assert_eq!(response.finish_reason.as_deref(), Some("tool_calls"));
    assert_eq!(response.usage.unwrap().prompt_tokens, Some(10));
}

#[test]
fn completion_without_choices_is_a_provider_error() {
    let body = CompletionBody { choices: vec![], usage: None };
    match completion_from_body(body, vec![]) {
        Err(AppError::Provider(m)) => assert_eq!(m, "completion response had no choices"),
        other => panic!("unexpected {other:?}"),
    }
}

#[test]
fn malformed_arguments_fall_back_to_an_empty_object() {
    let body = CompletionBody {
        choices: vec![Choice {
            message: WireMessage {
                content: Some("Hello".to_string()),
                tool_calls: vec![WireToolCall {
                    id: "x".to_string(),
                    function: WireFunction { name: "dice".to_string(), arguments: "{oops".to_string() },
                }],
            },
            finish_reason: None,
        }],
        usage: None,
    };
    let response = completion_from_body(body, vec![parse("{oops")]).unwrap();
    assert_eq!(response.message.content.len(), 2);
    assert_eq!(response.message.content[0].text(), Some("Hello"));
    assert!(matches!(&response.message.content[1], ContentBlock::ToolCall { arguments: JsonValue::Object(m), .. } if m.is_empty()));
}

fn fragment(index: usize, id: Option<&str>, name: Option<&str>, arguments: Option<&str>) -> StreamChunk {
    StreamChunk {
        choices: vec![StreamChoice {
            delta: StreamDelta {
                content: None,
                tool_calls: vec![StreamToolCall {
                    index,
                    id: id.map(|s| s.to_string()),
                    function: Some(StreamFunction {
                        name: name.map(|s| s.to_string()),
                        arguments: arguments.map(|s| s.to_string()),
                    }),
                }],
            },
            finish_reason: None,
        }],
    }
}

#[test]
fn stream_accumulator_merges_fragmented_tool_calls() {
    let mut accumulator = StreamAccumulator::new();
    accumulator.apply(&fragment(0, Some("call-9"), Some("dice"), Some("")));
    accumulator.apply(&fragment(0, None, None, Some("{\"expr\":\"2")));
    accumulator.apply(&fragment(0, None, None, Some("d6\"}")));
    let pending = accumulator.pending_arguments();
    assert_eq!(pending, vec!["{\"expr\":\"2d6\"}".to_string()]);
    let parsed: Vec<Option<JsonValue>> = pending.iter().map(|a| parse(a)).collect();
    let response = accumulator.finish(parsed);
    match response.message.content.first() {
        Some(ContentBlock::ToolCall { id, tool, arguments }) => {
            assert_eq!(id, "call-9");
            assert_eq!(tool, "dice");
            assert_eq!(arguments.get("expr").and_then(|v| v.as_str()), Some("2d6"));
            assert!(matches!(arguments, JsonValue::Object(m) if m.len() == 1));
        }
        other => panic!("expected merged tool call, got {other:?}"),
    }
}

#[test]
fn stream_accumulator_orders_calls_by_index_and_keeps_text() {
    let mut accumulator = StreamAccumulator::new();
    let text_chunk = StreamChunk {
        choices: vec![StreamChoice {
            delta: StreamDelta { content: Some("Hel".to_string()), tool_calls: vec![] },
            finish_reason: None,
        }],
    };
    assert_eq!(first_delta_text(&text_chunk), Some("Hel"));
    accumulator.apply(&text_chunk);
    accumulator.apply(&fragment(2, Some("b"), Some("update_world"), Some("{}")));
    accumulator.apply(&fragment(1, Some("a"), Some("dice"), Some("{}")));
    let done = StreamChunk {
        choices: vec![StreamChoice {
            delta: StreamDelta { content: Some("lo".to_string()), tool_calls: vec![] },
            finish_reason: Some("tool_calls".to_string()),
        }],
    };
    accumulator.apply(&done);
    let parsed = vec![None, None];
    let response = accumulator.finish(parsed);
    assert_eq!(response.message.content.len(), 3);
    assert_eq!(response.message.content[0].text(), Some("Hello"));
    assert!(matches!(&response.message.content[1], ContentBlock::ToolCall { id, .. } if id == "a"));
    assert!(matches!(&response.message.content[2], ContentBlock::ToolCall { id, .. } if id == "b"));
    assert_eq!(response.finish_reason.as_deref(), Some("tool_calls"));
    assert!(response.usage.is_none());
}

#[test]
fn sse_frames_yield_data_payloads() {
    let buffer = "data: {\"a\":1}\r\n\n: comment\ndata: [DONE]\n  data: {\"b\":2}  \ndata: {\"c\"".as_bytes();
    let payloads = frame_payloads(buffer);
    assert_eq!(payloads, vec!["{\"a\":1}".to_string(), "{\"b\":2}".to_string()]);
    assert_eq!(drain_consumed(buffer), b"data: {\"c\"".to_vec());
    assert_eq!(drain_consumed(b"no newline"), b"no newline".to_vec());
    assert_eq!(drain_consumed(b"line\n"), Vec::<u8>::new());
    assert_eq!(line_payload(b"data: {\"c\"}"), Some("{\"c\"}".to_string()));
    assert_eq!(line_payload(b"data: [DONE]"), None);
}

#[test]
fn sse_line_split_across_chunks_is_framed_once() {
    let whole = "data: x\ndata: y\n".as_bytes();
    let mut seen: Vec<String> = Vec::new();
    let mut buffer: Vec<u8> = Vec::new();
    for chunk in [&b"data: x"[..], &b"\ndata: "[..], &b"y\n"[..]] {
        buffer.extend_from_slice(chunk);
        seen.extend(frame_payloads(&buffer));
        buffer = drain_consumed(&buffer);
    }
    assert_eq!(seen, frame_payloads(whole));
    assert_eq!(seen, vec!["x".to_string(), "y".to_string()]);
    assert!(buffer.is_empty());
    assert_eq!(frame_payloads(b"data: x"), Vec::<String>::new());
    assert_eq!(line_payload(&drain_consumed(b"data: x")), Some("x".to_string()));
}

#[test]
fn sse_chunk_cut_inside_a_character_decodes_whole() {
    let whole = "data: h\u{e9}\n".as_bytes();
    let cut = 8;
    assert!(!"data: h\u{e9}\n".is_char_boundary(cut));
    let mut buffer = whole[..cut].to_vec();
    let mut seen = frame_payloads(&buffer);
    buffer = drain_consumed(&buffer);
    buffer.extend_from_slice(&whole[cut..]);
    seen.extend(frame_payloads(&buffer));
    assert_eq!(seen, vec!["h\u{e9}".to_string()]);
    assert_eq!(line_payload(&[0x64, 0x61, 0x74, 0x61, 0x3a, 0x20, 0xff]), Some("\u{fffd}".to_string()));
}

#[test]
fn truncate_shortens_long_bodies() {
    let short = truncate("ok", 100);
    assert_eq!(short, "ok");
    let long = truncate(&"x".repeat(500), 100);
    assert_eq!(long.len(), 103);
}

#[test]
fn truncate_cuts_at_a_character_boundary() {
    assert_eq!(truncate("h\u{e9}llo", 2), "h...");
    assert_eq!(truncate("h\u{e9}llo", 3), "h\u{e9}...");
    assert_eq!(truncate("h\u{e9}llo", 6), "h\u{e9}llo");
    assert_eq!(truncate("\u{e9}", 0), "...");
}

#[test]
fn http_failure_with_multibyte_body_cut_inside_a_character() {
    let body = format!("{}\u{e9}tail", "a".repeat(299));
    match http_failure("502", &body) {
        AppError::Provider(m) => assert_eq!(m, format!("provider returned HTTP 502: {}...", "a".repeat(299))),
        other => panic!("unexpected {other:?}"),
    }
}

#[test]
fn http_failures_carry_status_and_body() {
    match http_failure("404 Not Found", "missing") {
        AppError::Provider(m) => assert_eq!(m, "provider returned HTTP 404 Not Found: missing"),
        other => panic!("unexpected {other:?}"),
    }
    match http_failure("500", &"y".repeat(400)) {
        AppError::Provider(m) => assert!(m.ends_with("...") && m.len() == "provider returned HTTP 500: ".len() + 303),
        other => panic!("unexpected {other:?}"),
    }
}

fn config(id: &str, kind: ProviderKind) -> ProviderConfig {
    ProviderConfig {
        id: id.to_string(),
        name: "N".to_string(),
        kind,
        base_url: "https://e.example/v1/".to_string(),
        model: "m".to_string(),
        is_default: false,
        created_at: "t".to_string(),
    }
}

#[test]
fn config_updates_trim_and_keep_blank_base_url() {
    let blank = ProviderConfigInput { model: "  ".to_string(), base_url: String::new() };
    match blank.validate() {
        Err(AppError::Config(m)) => assert_eq!(m, "model must not be empty"),
        other => panic!("unexpected {other:?}"),
    }
    let input = ProviderConfigRequest { model: " gpt ".to_string(), base_url: "   ".to_string() }.into_input();
    assert!(input.validate().is_ok());
    let updated = apply_config_input(config("x", ProviderKind::Mock), &input);
    assert_eq!(updated.model, "gpt");
    assert_eq!(updated.base_url, "https://e.example/v1/");
    let moved = apply_config_input(
        config("x", ProviderKind::Mock),
        &ProviderConfigInput { model: "m".to_string(), base_url: " https://n ".to_string() },
    );
    assert_eq!(moved.base_url, "https://n");
}

#[test]
fn key_resolution_prefers_a_non_blank_env_value_for_opencode() {
    assert_eq!(resolve_key("opencode-go", Some("env".to_string()), Some("ring".to_string())).as_deref(), Some("env"));
    assert_eq!(resolve_key("opencode-go", Some(" ".to_string()), Some("ring".to_string())).as_deref(), Some("ring"));
    assert_eq!(resolve_key("other", Some("env".to_string()), None), None);
    assert_eq!(preferred_default(true), "opencode-go");
    assert_eq!(preferred_default(false), "mock");
}

#[test]
fn adapters_and_infos_follow_the_config() {
    match build_adapter(&config("opencode-go", ProviderKind::OpenAiCompatible), None) {
        BuiltAdapter::OpenAiCompatible(p) => {
            assert_eq!(p.api_key(), "");
            assert_eq!(p.chat_url(), "https://e.example/v1/chat/completions");
            assert_eq!(p.list_models(Ok(vec![])).len(), 6);
        }
        BuiltAdapter::Mock(_) => panic!("expected an OpenAI-compatible adapter"),
    }
    match build_adapter(&config("local", ProviderKind::Mock), Some("k".to_string())) {
        BuiltAdapter::Mock(m) => assert_eq!(m.id(), "local"),
        BuiltAdapter::OpenAiCompatible(_) => panic!("expected a mock"),
    }
    let info = to_info(&config("a", ProviderKind::Mock), true, Some("a"));
    assert!(info.is_default && info.has_key);
    assert!(!to_info(&config("a", ProviderKind::Mock), false, Some("b")).is_default);
    assert!(require_config("zz", None).is_err());
    let response = MockProvider::new("m", "m", "A").complete(&vec![], &vec![]);
    assert_eq!(probe_text(&response), "A");
}

#[test]
fn keyring_outcomes_follow_the_degrade_policy() {
    assert!(Secrets::check_value("  ").is_err());
    assert!(Secrets::check_value("sk-1").is_ok());
    assert_eq!(Secrets::read_outcome(Err(KeyringFailure::Other("x".to_string()))), None);
    assert_eq!(Secrets::read_outcome(Ok("k".to_string())).as_deref(), Some("k"));
    assert!(Secrets::delete_outcome(Err(KeyringFailure::NoEntry("gone".to_string()))).is_ok());
    match Secrets::delete_outcome(Err(KeyringFailure::Other("locked".to_string()))) {
        Err(AppError::Config(m)) => assert_eq!(m, "keyring delete failed: locked"),
        other => panic!("unexpected {other:?}"),
    }
    match Secrets::write_outcome(Err(KeyringFailure::Other("denied".to_string()))) {
        Err(AppError::Config(m)) => assert_eq!(m, "keyring write failed: denied"),
        other => panic!("unexpected {other:?}"),
    }
}

#[test]
fn start_up_seeds_only_the_missing_built_in_providers() {
    let seeds = provider_seeds(&Vec::new());
    assert_eq!(seeds.len(), 2);
    assert_eq!(seeds[0].id, "mock");
    assert_eq!(seeds[0].model, "mock/model");
    assert_eq!(seeds[1].id, "opencode-go");
    assert_eq!(seeds[1].base_url, "https://opencode.ai/zen/go/v1");
    assert_eq!(seeds[1].model, "deepseek-v4-flash");
    assert!(seeds.iter().all(|c| !c.is_default));
    let only_mock = vec![config("mock", ProviderKind::Mock)];
    let rest = provider_seeds(&only_mock);
    assert_eq!(rest.len(), 1);
    assert_eq!(rest[0].id, "opencode-go");
    let mut all = seeds;
    assert!(provider_seeds(&all).is_empty());
    all.push(config("custom", ProviderKind::OpenAiCompatible));
    assert!(provider_seeds(&all).is_empty());
}

#[test]
fn refreshing_the_default_config_realigns_the_default_model() {
    let mut registry: ProviderRegistry<MockProvider> = ProviderRegistry::new();
    registry.register("mock".to_string(), MockProvider::new("mock", "mock/model", "hi"));
    registry.register("other".to_string(), MockProvider::new("other", "o1", "hi"));
    registry.set_default("other").unwrap();
    registry.set_default_model("o1".to_string());
    registry.refresh("other".to_string(), MockProvider::new("other", "o2", "hi"), true, "o2".to_string());
    assert_eq!(registry.default_model().as_deref(), Some("o2"));
    assert_eq!(registry.default_id(), Some("other"));
    registry.refresh("mock".to_string(), MockProvider::new("mock", "m2", "hi"), false, "m2".to_string());
    assert_eq!(registry.default_id(), Some("other"));
    assert_eq!(registry.default_model().as_deref(), Some("o2"));
}

use roleplayer::characters::Character;
use roleplayer::errors::AppError;
use roleplayer::game_command::CommandContext;
use roleplayer::json::{member, object1, object2, JsonValue};
use roleplayer::llm::{Capabilities, ChatMessage, ContentBlock, MessageMode, Role};
use roleplayer::rulesets::Ruleset;
use roleplayer::turnflow::service::{
    build_context, build_system_message, character_name_of, house_rules_present, execute_tool, failed_tools_message,
    is_registered_tool, next_turn_index,
    offered_tools, resolve_ruleset, should_apply_mutations, to_chat_message, tool_call_count, tool_call_ok, tool_result_rows,
    tool_invocations, tool_message_to_chat, tool_result_value, turn_end_error, turn_max_tokens, turn_request_shape,
    user_turn_message,
    LoopStep, MessageDto, PreparedTurn, RosterLine, TurnEnd, TurnLoop, MAX_TOOL_ITERATIONS,
};

fn user_row(text: &str, mode: MessageMode) -> MessageDto {
    MessageDto::text("c1", Role::User, text, mode, 1)
}

fn chat_text(chat: &ChatMessage) -> &str {
    chat.content.iter().find_map(|block| block.text()).expect("text")
}

#[test]
fn speech_mode_quotes_the_line_for_the_gm() {
    let chat = to_chat_message("Elara", &user_row("I swear on my honor", MessageMode::Speech));
    assert_eq!(chat_text(&chat), "Elara says: \"I swear on my honor\"");
}

#[test]
fn action_mode_narrates_the_deed() {
    let chat = to_chat_message("Elara", &user_row("draw my sword", MessageMode::Action));
    assert_eq!(chat_text(&chat), "Elara acts: draw my sword");
}

#[test]
fn you_fallback_conjugates_the_verb() {
    assert_eq!(chat_text(&to_chat_message("You", &user_row("hi", MessageMode::Speech))), "You say: \"hi\"");
    assert_eq!(chat_text(&to_chat_message("You", &user_row("run", MessageMode::Action))), "You act: run");
}

#[test]
fn non_user_rows_pass_through_unchanged() {
    let assistant = MessageDto {
        id: "a1".to_string(),
        campaign_id: "c1".to_string(),
        role: Role::Assistant,
        content: vec![ContentBlock::Text { text: "The door creaks.".to_string() }],
        mode: MessageMode::Action,
        model: Some("mock".to_string()),
        turn_index: 1,
        created_at: "t".to_string(),
    };
    let chat = to_chat_message("Elara", &assistant);
    assert_eq!(chat.role, Role::Assistant);
    assert_eq!(chat.content[0].text(), Some("The door creaks."));
    let tool = tool_message_to_chat(&assistant);
    assert_eq!(tool.role, Role::Tool);
}

#[test]
fn user_turn_rows_are_trimmed_and_indexed() {
    let row = user_turn_message("c9", "  look around \n", MessageMode::Action, next_turn_index(41).unwrap());
    assert_eq!(row.turn_index, 42);
    assert_eq!(row.content[0].text(), Some("look around"));
    assert_eq!(row.id.len(), 36);
    assert!(row.model.is_none());
    let prepared = PreparedTurn::new(row);
    assert_eq!(prepared.campaign_id, "c9");
    assert_eq!(prepared.turn_index, 42);
    assert_eq!(next_turn_index(i64::MAX), None);
    assert_eq!(next_turn_index(-1), Some(0));
}

fn character(name: &str, is_player: bool) -> Character {
    Character {
        id: name.to_string(),
        campaign_id: "c1".to_string(),
        name: name.to_string(),
        is_player,
        bio: String::new(),
        stats: JsonValue::empty_object(),
        extra: JsonValue::empty_object(),
        created_at: "t".to_string(),
    }
}

#[test]
fn persona_is_the_first_player_character() {
    assert_eq!(character_name_of(&vec![]), "You");
    assert_eq!(character_name_of(&vec![character("Guard", false), character("Elara", true)]), "Elara");
    assert_eq!(character_name_of(&vec![character("Guard", false)]), "You");
}

#[test]
fn context_is_system_history_then_fresh_line() {
    let fresh = user_row("open the door", MessageMode::Action);
    let mut older = user_row("hello", MessageMode::Speech);
    older.id = "old".to_string();
    let fresh_copy = MessageDto {
        id: fresh.id.clone(),
        campaign_id: "c1".to_string(),
        role: Role::User,
        content: vec![ContentBlock::Text { text: "open the door".to_string() }],
        mode: MessageMode::Action,
        model: None,
        turn_index: 1,
        created_at: "t".to_string(),
    };
    let system = ChatMessage::text(Role::System, "sys".to_string());
    let context = build_context(system, &vec![older, fresh_copy], &fresh, "Elara");
    assert_eq!(context.len(), 3);
    assert_eq!(chat_text(&context[0]), "sys");
    assert_eq!(chat_text(&context[1]), "Elara says: \"hello\"");
    assert_eq!(chat_text(&context[2]), "Elara acts: open the door");
}

fn ruleset(id: &str, builtin: bool) -> Ruleset {
    Ruleset {
        id: id.to_string(),
        name: id.to_string(),
        system_prompt: "You are the GM.".to_string(),
        world_rules: JsonValue::empty_object(),
        is_builtin: builtin,
        created_at: "t".to_string(),
    }
}

#[test]
fn ruleset_resolution_prefers_the_bound_one_then_the_builtin() {
    assert_eq!(resolve_ruleset(Some("r1"), Some(ruleset("r1", false)), vec![]).unwrap().id, "r1");
    match resolve_ruleset(Some("r9"), None, vec![ruleset("b", true)]) {
        Err(AppError::Domain(m)) => assert_eq!(m, "ruleset not found: r9"),
        other => panic!("unexpected {other:?}"),
    }
    let chosen = resolve_ruleset(None, None, vec![ruleset("c", false), ruleset("b", true), ruleset("d", true)]);
    assert_eq!(chosen.unwrap().id, "b");
    match resolve_ruleset(None, None, vec![ruleset("c", false)]) {
        Err(AppError::Domain(m)) => assert_eq!(m, "no ruleset configured for campaign"),
        other => panic!("unexpected {other:?}"),
    }
}

#[test]
fn system_prompt_lists_world_roster_and_tools() {
    let roster = vec![
        RosterLine { name: "Elara".to_string(), is_player: true, stats_json: "{\"hp\":12}".to_string() },
        RosterLine { name: "Guard".to_string(), is_player: false, stats_json: "{}".to_string() },
    ];
    let message = build_system_message(&ruleset("r", true), "{\n  \"room\": \"dark\"\n}", "{}", &roster);
    assert_eq!(message.role, Role::System);
    let text = chat_text(&message);
    assert!(text.starts_with("You are the GM.\n\n## CURRENT WORLD STATE (this is the truth)\n{\n  \"room\": \"dark\"\n}"));
    assert!(text.contains("\n\n## CHARACTERS\n- Elara [player]: {\"hp\":12}\n- Guard [npc]: {}"));
    assert!(text.contains("\n- dice: Roll dice for the game."));
    assert!(text.contains("\n- update_world: Set or update a persistent fact"));
    assert!(text.ends_with("'<name> acts: ...' is a narrated action (respond to the deed)."));
    assert!(!text.contains("## HOUSE RULES"));
    let bare = build_system_message(&ruleset("r", true), "{}", "{}", &vec![]);
    assert!(!chat_text(&bare).contains("## CHARACTERS"));
}

#[test]
fn house_rules_are_merged_into_the_system_prompt() {
    let mut with_rules = ruleset("r", false);
    with_rules.world_rules = object1(member("magic", JsonValue::from_str_slice("rare")));
    let message = build_system_message(&with_rules, "{}", "{\"magic\":\"rare\"}", &vec![]);
    let text = chat_text(&message);
    assert!(text.starts_with(
        "You are the GM.\n\n## CURRENT WORLD STATE (this is the truth)\n{}\n\n## HOUSE RULES\n{\"magic\":\"rare\"}\n\n## AVAILABLE TOOLS"
    ));
    assert!(house_rules_present(&with_rules.world_rules));
    assert!(!house_rules_present(&JsonValue::Null));
    assert!(!house_rules_present(&JsonValue::empty_object()));
    let ignored = build_system_message(&ruleset("r", false), "{}", "{\"x\":1}", &vec![]);
    assert!(!chat_text(&ignored).contains("## HOUSE RULES"));
}

#[test]
fn tools_are_offered_only_with_tool_use() {
    assert_eq!(offered_tools(true).len(), 2);
    assert_eq!(offered_tools(true)[1].name, "update_world");
    assert!(offered_tools(false).is_empty());
    let caps = Capabilities { streaming: true, tool_use: true, json_mode: true, max_output_tokens: 4096 };
    assert_eq!(turn_max_tokens(&caps), 4096);
    let shape = turn_request_shape(&caps);
    assert_eq!(shape.tools.len(), 2);
    assert_eq!(shape.max_tokens, 4096);
    assert!(shape.stream);
    let plain = Capabilities { streaming: false, tool_use: false, json_mode: false, max_output_tokens: 512 };
    let shape = turn_request_shape(&plain);
    assert!(shape.tools.is_empty() && !shape.stream && shape.max_tokens == 512);
}

#[test]
fn tool_calls_are_counted_and_listed_in_order() {
    let message = ChatMessage {
        role: Role::Assistant,
        content: vec![
            ContentBlock::Text { text: "Let me see.".to_string() },
            ContentBlock::ToolCall { id: "1".to_string(), tool: "dice".to_string(), arguments: JsonValue::empty_object() },
            ContentBlock::ToolCall {
                id: "2".to_string(),
                tool: "update_world".to_string(),
                arguments: JsonValue::empty_object(),
            },
        ],
    };
    assert_eq!(tool_call_count(&message), 2);
    let calls = tool_invocations(&message);
    assert_eq!(calls.len(), 2);
    assert_eq!(calls[0].id, "1");
    assert_eq!(calls[1].tool, "update_world");
}

#[test]
fn tools_execute_by_name_and_unknown_tools_are_answered() {
    let mut ctx = CommandContext { campaign_id: "c1".to_string(), world: JsonValue::empty_object(), mutations: vec![] };
    let arguments = object2(member("key", JsonValue::from_str_slice("room")), member("value", JsonValue::Null));
    let outcome = execute_tool("update_world", arguments, &mut ctx);
    assert!(tool_call_ok(&outcome));
    assert_eq!(ctx.mutations.len(), 1);
    let unknown = execute_tool("teleport", JsonValue::empty_object(), &mut ctx);
    assert!(unknown.is_none());
    let value = tool_result_value(unknown);
    assert!(matches!(value.get("ok"), Some(JsonValue::Bool(false))));
    assert_eq!(value.get("error").and_then(|v| v.as_str()), Some("unknown tool"));
    let failed = execute_tool("dice", JsonValue::empty_object(), &mut ctx);
    assert!(!tool_call_ok(&failed));
    let value = tool_result_value(failed);
    assert_eq!(value.get("error").and_then(|v| v.as_str()), Some("domain error: dice requires an 'expr' string"));
    let extreme = execute_tool("dice", object1(member("expr", JsonValue::from_str_slice("1d6+-2147483648"))), &mut ctx);
    assert_eq!(
        tool_result_value(extreme).get("error").and_then(|v| v.as_str()),
        Some("domain error: dice modifier is out of range")
    );
    let synthetic = failed_tools_message(&AppError::Storage("disk full".to_string()));
    assert_eq!(synthetic.role, Role::Tool);
    match &synthetic.content[0] {
        ContentBlock::ToolResult { result, .. } => {
            assert_eq!(result.get("error").and_then(|v| v.as_str()), Some("storage error: disk full"))
        }
        other => panic!("unexpected {other:?}"),
    }
}

#[test]
fn tool_result_rows_answer_their_call() {
    let row = MessageDto::tool_result("c1", "call-7", JsonValue::Bool(true), "mock/model", 3);
    assert_eq!(row.role, Role::Tool);
    assert_eq!(row.model.as_deref(), Some("mock/model"));
    assert!(matches!(&row.content[0], ContentBlock::ToolResult { id, .. } if id == "call-7"));
    let reply = ChatMessage::text(Role::Assistant, "Done".to_string());
    let stored = MessageDto::from_assistant("c1", &reply, "m", 3);
    assert_eq!(stored.content[0].text(), Some("Done"));
    assert_eq!(stored.mode, MessageMode::Action);
}

#[test]
fn loop_completes_on_prose_and_caps_tool_cycles() {
    let mut l = TurnLoop::start();
    assert_eq!(l.next_step(false), LoopStep::CallProvider);
    l.record_response(1);
    assert_eq!(l.next_step(false), LoopStep::CallProvider);
    l.record_response(0);
    assert_eq!(l.next_step(true), LoopStep::End(TurnEnd::Complete));

    let mut busy = TurnLoop::start();
    let mut calls = 0;
    while busy.next_step(false) == LoopStep::CallProvider {
        busy.record_response(2);
        calls += 1;
    }
    assert_eq!(calls, MAX_TOOL_ITERATIONS);
    assert_eq!(busy.next_step(false), LoopStep::End(TurnEnd::CapReached));
    assert_eq!(turn_end_error(TurnEnd::CapReached), Some("tool loop exceeded its iteration cap"));
    assert_eq!(turn_end_error(TurnEnd::Complete), None);

    let fresh = TurnLoop::start();
    assert_eq!(fresh.next_step(true), LoopStep::End(TurnEnd::Cancelled));
}

#[test]
fn tool_calls_run_by_name() {
    let mut ctx = CommandContext { campaign_id: "c1".to_string(), world: JsonValue::empty_object(), mutations: vec![] };
    let fine = object1(member("expr", JsonValue::from_str_slice("2d4")));
    match execute_tool("dice", fine, &mut ctx) {
        Some(Ok(result)) => assert_eq!(result.get("expression").and_then(|v| v.as_str()), Some("2d4")),
        other => panic!("unexpected {other:?}"),
    }
    assert!(execute_tool("nope", JsonValue::Null, &mut ctx).is_none());
    assert!(is_registered_tool("dice") && is_registered_tool("update_world") && !is_registered_tool("Dice"));
}

#[test]
fn mutations_apply_only_after_a_successful_call_that_made_some() {
    let mut ctx = CommandContext { campaign_id: "c1".to_string(), world: JsonValue::empty_object(), mutations: vec![] };
    let arguments = object2(member("key", JsonValue::from_str_slice("door")), member("value", JsonValue::Bool(true)));
    let ok = execute_tool("update_world", arguments, &mut ctx);
    assert!(should_apply_mutations(&ok, &ctx.mutations));
    assert!(!should_apply_mutations(&ok, &Vec::new()));
    let failed: Option<roleplayer::errors::Result<JsonValue>> = Some(Err(AppError::Domain("x".to_string())));
    assert!(!should_apply_mutations(&failed, &ctx.mutations));
    assert!(!should_apply_mutations(&None, &ctx.mutations));
}

#[test]
fn one_tool_row_per_call_in_order() {
    let message = ChatMessage {
        role: Role::Assistant,
        content: vec![
            ContentBlock::ToolCall { id: "a".to_string(), tool: "dice".to_string(), arguments: JsonValue::empty_object() },
            ContentBlock::Text { text: "between".to_string() },
            ContentBlock::ToolCall { id: "b".to_string(), tool: "teleport".to_string(), arguments: JsonValue::Null },
        ],
    };
    let calls = tool_invocations(&message);
    let outcomes = vec![Some(Ok(JsonValue::Bool(true))), None];
    let rows = tool_result_rows("c1", &calls, outcomes, "m", 4);
    assert_eq!(rows.len(), 2);
    match &rows[0].content[0] {
        ContentBlock::ToolResult { id, result } => {
            assert_eq!(id, "a");
            assert!(matches!(result, JsonValue::Bool(true)));
        }
        other => panic!("unexpected {other:?}"),
    }
    match &rows[1].content[0] {
        ContentBlock::ToolResult { id, result } => {
            assert_eq!(id, "b");
            assert_eq!(result.get("error").and_then(|v| v.as_str()), Some("unknown tool"));
        }
        other => panic!("unexpected {other:?}"),
    }
    assert!(rows.iter().all(|r| r.role == Role::Tool && r.turn_index == 4 && r.model.as_deref() == Some("m")));
}

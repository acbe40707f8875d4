use roleplayer::errors::{provider_error, AppError, ErrorDto};
use roleplayer::json::JsonValue;
use roleplayer::llm::{join_texts, ChatMessage, ContentBlock, MessageMode, Role};
use roleplayer::memories::{check_summary_range, summarized_memory, summary_from_reply, summary_request, summary_request_messages,
    transcript_of};
use roleplayer::turnflow::service::MessageDto;

#[test]
fn roles_round_trip_and_unknown_is_user() {
    for role in [Role::System, Role::User, Role::Assistant, Role::Tool] {
        assert_eq!(Role::from_wire(role.as_str()), role);
    }
    assert_eq!(Role::from_wire("narrator"), Role::User);
    assert_eq!(MessageMode::from_wire("speech"), MessageMode::Speech);
    assert_eq!(MessageMode::from_wire("shout"), MessageMode::Action);
    assert_eq!(MessageMode::Speech.as_str(), "speech");
}

#[test]
fn errors_render_kind_and_detail() {
    let e = provider_error("stream read failed", "reset");
    assert_eq!(e.message(), "provider error: stream read failed: reset");
    assert!(e.is_retryable());
    let dto = ErrorDto::with_correlation_id(&AppError::Domain("bad".to_string()), "cid".to_string());
    assert_eq!(dto.message, "domain error: bad");
    assert!(!dto.retryable);
    assert_eq!(dto.correlation_id, "cid");
    let fresh = ErrorDto::from_error(AppError::Config("x".to_string()));
    assert_eq!(fresh.correlation_id.len(), 36);
}

#[test]
fn text_blocks_join_in_order() {
    let blocks = vec![
        ContentBlock::Text { text: "a".to_string() },
        ContentBlock::ToolResult { id: "1".to_string(), result: JsonValue::Null },
        ContentBlock::Text { text: "b".to_string() },
    ];
    assert_eq!(join_texts(&blocks, "\n"), "a\nb");
    assert_eq!(join_texts(&vec![], " "), "");
}

fn row(role: Role, text: &str) -> MessageDto {
    MessageDto::text("c1", role, text, MessageMode::Action, 1)
}

#[test]
fn summaries_are_built_from_the_transcript() {
    assert!(check_summary_range(&vec![]).is_err());
    let rows = vec![row(Role::User, "I enter"), row(Role::Assistant, "A dragon!")];
    assert!(check_summary_range(&rows).is_ok());
    let transcript = transcript_of(&rows);
    assert_eq!(transcript, "[user] I enter\n[assistant] A dragon!");
    let messages = summary_request_messages(transcript);
    assert_eq!(messages.len(), 2);
    assert_eq!(messages[0].role, Role::System);
    assert!(messages[0].content[0].text().unwrap().starts_with("You are a game chronicler."));
    let request = summary_request("[user] hi".to_string());
    assert!(request.tools.is_empty());
    assert_eq!(request.max_tokens, Some(500));
    assert!(!request.stream);
    assert_eq!(request.messages[1].content[0].text(), Some("[user] hi"));
    let reply = ChatMessage::text(Role::Assistant, "  The hero met a dragon.  ".to_string());
    assert_eq!(summary_from_reply(&reply).unwrap(), "The hero met a dragon.");
    let empty = ChatMessage::text(Role::Assistant, "   ".to_string());
    match summary_from_reply(&empty) {
        Err(AppError::Provider(m)) => assert_eq!(m, "provider returned an empty summary"),
        other => panic!("unexpected {other:?}"),
    }
    let memory = summarized_memory("c1", "s".to_string(), 1, 4);
    assert_eq!(memory.source_to, 4);
    assert_eq!(memory.id.len(), 36);
}

fn is_uuid_v4_text(s: &str) -> bool {
    let b = s.as_bytes();
    b.len() == 36
        && b.iter().enumerate().all(|(i, c)| {
            if [8, 13, 18, 23].contains(&i) {
                *c == b'-'
            } else {
                c.is_ascii_digit() || (b'a'..=b'f').contains(c)
            }
        })
        && b[14] == b'4'
        && [b'8', b'9', b'a', b'b'].contains(&b[19])
}

fn is_utc_rfc3339(s: &str) -> bool {
    let Some(body) = s.strip_suffix("+00:00") else { return false };
    let (main, fraction) = match body.split_once('.') {
        Some((m, f)) => (m, Some(f)),
        None => (body, None),
    };
    let fraction_ok = fraction.map_or(true, |f| [3, 6, 9].contains(&f.len()) && f.bytes().all(|c| c.is_ascii_digit()));
    let tail = &main[main.len().saturating_sub(15)..];
    let pattern = "-DD-DDTDD:DD:DD";
    fraction_ok
        && main.len() >= 19
        && tail.bytes().zip(pattern.bytes()).all(|(c, p)| if p == b'D' { c.is_ascii_digit() } else { c == p })
        && main[..main.len() - 15].bytes().all(|c| c.is_ascii_digit())
}

#[test]
fn fresh_ids_and_timestamps_have_their_documented_forms() {
    let memory = summarized_memory("c1", "s".to_string(), 1, 2);
    assert!(is_uuid_v4_text(&memory.id), "{}", memory.id);
    assert!(is_utc_rfc3339(&memory.created_at), "{}", memory.created_at);
    let dto = ErrorDto::from_error(AppError::Provider("x".to_string()));
    assert!(is_uuid_v4_text(&dto.correlation_id));
    assert_eq!(dto.message, "provider error: x");
    assert!(dto.retryable);
    let other = ErrorDto::from_error(AppError::Provider("x".to_string()));
    assert_ne!(dto.correlation_id, other.correlation_id);
    let row = MessageDto::text("c1", Role::User, "hi", MessageMode::Speech, 1);
    assert!(is_uuid_v4_text(&row.id) && is_utc_rfc3339(&row.created_at));
}

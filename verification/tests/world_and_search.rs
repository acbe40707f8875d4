use roleplayer::errors::AppError;
use roleplayer::game_command::StateMutation;
use roleplayer::json::{JsonValue};
use roleplayer::search::{build_match_expression, search_limit};
use roleplayer::world_state::{
    apply_world_mutations, manual_edit_args, record_change, remove_document_key, set_document_key, world_key_of,
};

fn text(v: &str) -> JsonValue {
    JsonValue::from_str_slice(v)
}

#[test]
fn set_key_records_before_and_after() {
    let mut document = JsonValue::empty_object();
    let (before, after) = set_document_key(&mut document, "room", &text("burning")).expect("set key");
    assert!(matches!(before, JsonValue::Null));
    assert_eq!(after.as_str(), Some("burning"));
    let change = record_change("camp-1", "update_world", &JsonValue::empty_object(), &before, &after, None);
    assert_eq!(change.tool, "update_world");
    assert_eq!(change.after_value.as_str(), Some("burning"));

    let (before, after) = set_document_key(&mut document, "room", &text("flooded")).expect("set key again");
    assert_eq!(before.as_str(), Some("burning"));
    assert_eq!(after.as_str(), Some("flooded"));
    assert_eq!(document.get("room").and_then(|v| v.as_str()), Some("flooded"));
}

#[test]
fn remove_key_records_deletion() {
    let mut document = JsonValue::empty_object();
    set_document_key(&mut document, "king", &text("alive")).expect("set key");
    let (before, removed) = remove_document_key(&mut document, "king").expect("remove key");
    assert_eq!(before.as_str(), Some("alive"));
    assert_eq!(removed.as_str(), Some("alive"));
    assert!(document.get("king").is_none());
    let (before, removed) = remove_document_key(&mut document, "king").expect("absent key");
    assert!(matches!(before, JsonValue::Null) && matches!(removed, JsonValue::Null));
}

#[test]
fn non_object_documents_are_refused() {
    let mut document = JsonValue::Bool(true);
    match set_document_key(&mut document, "k", &JsonValue::Null) {
        Err(AppError::Domain(m)) => assert_eq!(m, "world state document is not an object"),
        other => panic!("unexpected {other:?}"),
    }
    assert!(matches!(document, JsonValue::Bool(true)));
}

#[test]
fn manual_edits_and_character_mutations() {
    let args = manual_edit_args("door");
    assert_eq!(args.get("key").and_then(|v| v.as_str()), Some("door"));
    let mutation = StateMutation::CreateCharacter {
        name: "A".to_string(),
        bio: String::new(),
        is_player: false,
        stats: JsonValue::empty_object(),
    };
    assert!(world_key_of(&mutation).is_err());
    let set = StateMutation::SetWorldKey { key: "k".to_string(), value: JsonValue::Null };
    assert_eq!(world_key_of(&set).unwrap().0, "k");
}

#[test]
fn match_expression_quotes_terms_and_scopes_the_campaign() {
    assert_eq!(
        build_match_expression("camp-1", "tavern  ring"),
        "campaign_id:\"camp-1\" AND content:\"tavern\" AND content:\"ring\""
    );
}

#[test]
fn empty_or_injected_queries_are_safe() {
    assert_eq!(build_match_expression("camp-1", ""), "");
    assert_eq!(build_match_expression("camp-1", "  \"\" "), "");
    assert_eq!(
        build_match_expression("camp-1", "plain\" OR \"1"),
        "campaign_id:\"camp-1\" AND content:\"plain\" AND content:\"OR\" AND content:\"1\""
    );
}

#[test]
fn search_limit_is_clamped() {
    assert_eq!(search_limit(0), 1);
    assert_eq!(search_limit(-5), 1);
    assert_eq!(search_limit(50), 50);
    assert_eq!(search_limit(10_000), 200);
}

fn set(key: &str, value: &str) -> StateMutation {
    StateMutation::SetWorldKey { key: key.to_string(), value: text(value) }
}

#[test]
fn batch_applies_in_order_and_the_last_write_wins() {
    let mut document = JsonValue::empty_object();
    let batch = vec![set("door", "open"), set("torch", "lit"), set("door", "closed")];
    let (changes, failure) = apply_world_mutations(&mut document, &batch);
    assert!(failure.is_none());
    assert_eq!(changes.len(), 3);
    assert!(matches!(changes[0].0, JsonValue::Null));
    assert_eq!(changes[0].1.as_str(), Some("open"));
    assert_eq!(changes[2].0.as_str(), Some("open"));
    assert_eq!(changes[2].1.as_str(), Some("closed"));
    assert_eq!(document.get("door").and_then(|v| v.as_str()), Some("closed"));
    assert_eq!(document.get("torch").and_then(|v| v.as_str()), Some("lit"));
}

#[test]
fn batch_stops_at_a_character_mutation_keeping_earlier_sets() {
    let mut document = JsonValue::empty_object();
    let hero = StateMutation::CreateCharacter {
        name: "Hero".to_string(),
        bio: String::new(),
        is_player: true,
        stats: JsonValue::empty_object(),
    };
    let batch = vec![set("door", "open"), hero, set("torch", "lit")];
    let (changes, failure) = apply_world_mutations(&mut document, &batch);
    assert_eq!(changes.len(), 1);
    match failure {
        Some(AppError::Domain(m)) => assert_eq!(m, "world applier cannot handle character mutations"),
        other => panic!("unexpected {other:?}"),
    }
    assert_eq!(document.get("door").and_then(|v| v.as_str()), Some("open"));
    assert!(document.get("torch").is_none());
    let mut scalar = JsonValue::Null;
    let (changes, failure) = apply_world_mutations(&mut scalar, &[set("a", "b")]);
    assert!(changes.is_empty());
    assert!(matches!(failure, Some(AppError::Domain(m)) if m == "world state document is not an object"));
}

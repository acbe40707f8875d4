use roleplayer::campaigns::{CampaignStatus, NewCampaign, UpdateCampaign, MAX_NAME_LENGTH as CAMPAIGN_NAME_LIMIT};
use roleplayer::characters::{NewCharacter, MAX_NAME_LENGTH as CHARACTER_NAME_LIMIT};
use roleplayer::errors::AppError;
use roleplayer::json::JsonValue;
use roleplayer::memories::NewMemory;
use roleplayer::providers::domain::{opencode_go_known_models, ProviderKind};
use roleplayer::rulesets::{ruleset_to_seed, NewRuleset, DEFAULT_RULESET_NAME, DEFAULT_SYSTEM_PROMPT};

fn new_campaign(name: &str) -> NewCampaign {
    NewCampaign { name: name.to_string(), description: String::new(), ruleset_id: None }
}

fn new_character(name: &str) -> NewCharacter {
    NewCharacter {
        campaign_id: "c1".to_string(),
        name: name.to_string(),
        is_player: true,
        bio: String::new(),
        stats: JsonValue::empty_object(),
    }
}

fn new_memory(summary: &str) -> NewMemory {
    NewMemory { campaign_id: "c1".to_string(), summary: summary.to_string(), source_from: 1, source_to: 10 }
}

fn new_ruleset(name: &str, prompt: &str) -> NewRuleset {
    NewRuleset { name: name.to_string(), system_prompt: prompt.to_string(), world_rules: JsonValue::empty_object() }
}

#[test]
fn accepts_valid_name() {
    assert!(new_campaign("The Wandering Merchant").validate().is_ok());
    assert!(new_campaign("  Camp  ").validate().is_ok());
}

#[test]
fn rejects_empty_name() {
    assert!(new_campaign("").validate().is_err());
    assert!(new_campaign("   ").validate().is_err());
}

#[test]
fn domain_rejects_overlong_name() {
    let long_name = "x".repeat(CAMPAIGN_NAME_LIMIT + 1);
    assert!(new_campaign(&long_name).validate().is_err());
}

#[test]
fn campaign_name_at_the_limit_is_accepted() {
    let name = "x".repeat(CAMPAIGN_NAME_LIMIT);
    assert!(new_campaign(&name).validate().is_ok());
    // The limit counts bytes: 60 two-byte characters fill 120 bytes exactly.
    assert!(new_campaign(&"é".repeat(60)).validate().is_ok());
    assert!(new_campaign(&"é".repeat(61)).validate().is_err());
}

#[test]
fn campaign_errors_are_domain_errors_with_messages() {
    match new_campaign(" ").validate() {
        Err(AppError::Domain(message)) => assert_eq!(message, "campaign name must not be empty"),
        other => panic!("expected a domain error, got {other:?}"),
    }
    let update = UpdateCampaign { name: "".to_string(), description: String::new(), ruleset_id: None };
    assert!(update.validate().is_err());
}

#[test]
fn campaign_status_round_trips() {
    for status in [CampaignStatus::Setup, CampaignStatus::Worldgen, CampaignStatus::Active] {
        assert_eq!(CampaignStatus::from_wire(status.as_str()), status);
    }
}

#[test]
fn accepts_valid_character() {
    assert!(new_character("Elara").validate().is_ok());
}

#[test]
fn rejects_empty_or_blank_name() {
    assert!(new_character("").validate().is_err());
    assert!(new_character("   ").validate().is_err());
}

#[test]
fn rejects_overlong_name() {
    let long_name = "x".repeat(CHARACTER_NAME_LIMIT + 1);
    assert!(new_character(&long_name).validate().is_err());
}

#[test]
fn rejects_missing_campaign() {
    let mut input = new_character("Elara");
    input.campaign_id = " ".to_string();
    assert!(input.validate().is_err());
}

#[test]
fn accepts_valid_memory() {
    assert!(new_memory("The party befriended the innkeeper.").validate().is_ok());
}

#[test]
fn rejects_empty_summary() {
    assert!(new_memory("").validate().is_err());
}

#[test]
fn rejects_inverted_turn_range() {
    let mut memory = new_memory("summary");
    memory.source_from = 20;
    memory.source_to = 10;
    assert!(memory.validate().is_err());
}

#[test]
fn accepts_a_single_turn_memory() {
    let mut memory = new_memory("one turn");
    memory.source_from = 7;
    memory.source_to = 7;
    assert!(memory.validate().is_ok());
}

#[test]
fn accepts_valid_ruleset() {
    assert!(new_ruleset("Grimdark", "You are the GM.").validate().is_ok());
}

#[test]
fn rejects_empty_name_or_prompt() {
    assert!(new_ruleset("", "prompt").validate().is_err());
    assert!(new_ruleset("name", "  ").validate().is_err());
}

#[test]
fn kind_round_trips_through_wire_format() {
    for kind in [ProviderKind::Mock, ProviderKind::OpenAiCompatible] {
        assert_eq!(ProviderKind::from_wire(kind.as_str()), kind);
    }
}

#[test]
fn unknown_kind_falls_back_to_mock() {
    assert_eq!(ProviderKind::from_wire("garbage"), ProviderKind::Mock);
}

#[test]
fn opencode_catalog_lists_six_models_with_tools() {
    let models = opencode_go_known_models();
    assert_eq!(models.len(), 6);
    assert_eq!(models[0].id, "deepseek-v4-flash");
    assert_eq!(models[0].context_window, Some(1_000_000));
    assert!(models.iter().all(|m| m.supports_tools));
}

#[test]
fn the_default_ruleset_is_seeded_once() {
    let mut table = Vec::new();
    let seed = ruleset_to_seed(&table).expect("seed into an empty table");
    assert_eq!(seed.name, DEFAULT_RULESET_NAME);
    assert_eq!(seed.system_prompt, DEFAULT_SYSTEM_PROMPT);
    assert!(seed.is_builtin);
    assert!(matches!(&seed.world_rules, roleplayer::json::JsonValue::Object(m) if m.is_empty()));
    table.push(seed);
    assert!(ruleset_to_seed(&table).is_none());
}

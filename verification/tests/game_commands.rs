use rand::SeedableRng;
use roleplayer::characters::CreateCharacterCommand;
use roleplayer::errors::AppError;
use roleplayer::game_command::{CommandContext, GameCommand, StateMutation};
use roleplayer::json::{member, object1, object2, object4, JsonNumber, JsonValue};
use roleplayer::turnflow::domain::{
    parse_dice_expression, roll_with, DiceCommand, DiceSpec, UpdateWorldCommand,
};

fn context() -> CommandContext {
    CommandContext { campaign_id: "c1".to_string(), world: JsonValue::empty_object(), mutations: Vec::new() }
}

fn text(v: &str) -> JsonValue {
    JsonValue::from_str_slice(v)
}

#[test]
fn parses_common_expressions() {
    assert_eq!(parse_dice_expression("2d6+1").unwrap(), DiceSpec { count: 2, sides: 6, modifier: 1 });
    assert_eq!(parse_dice_expression("d20").unwrap(), DiceSpec { count: 1, sides: 20, modifier: 0 });
    assert_eq!(parse_dice_expression("3d8-2").unwrap(), DiceSpec { count: 3, sides: 8, modifier: -2 });
    assert_eq!(parse_dice_expression("  2D6  ").unwrap(), DiceSpec { count: 2, sides: 6, modifier: 0 });
}

#[test]
fn rejects_invalid_expressions() {
    assert!(parse_dice_expression("").is_err());
    assert!(parse_dice_expression("abc").is_err());
    assert!(parse_dice_expression("0d6").is_err());
    assert!(parse_dice_expression("2d0").is_err());
    assert!(parse_dice_expression("200d6").is_err());
    assert!(parse_dice_expression("2d2000").is_err());
    assert!(parse_dice_expression("2d6x").is_err());
}

#[test]
fn dice_limits_are_inclusive() {
    assert_eq!(parse_dice_expression("100d1000").unwrap(), DiceSpec { count: 100, sides: 1000, modifier: 0 });
    assert_eq!(parse_dice_expression("1d6+10000").unwrap(), DiceSpec { count: 1, sides: 6, modifier: 10000 });
    assert!(parse_dice_expression("1d6+10001").is_err());
    assert!(parse_dice_expression("101d6").is_err());
}

#[test]
fn extreme_modifiers_are_out_of_range() {
    for expression in ["1d6+-2147483648", "1d6--2147483648", "1d6-2147483647", "1d6-10001"] {
        match parse_dice_expression(expression) {
            Err(AppError::Domain(m)) => assert_eq!(m, "dice modifier is out of range"),
            other => panic!("unexpected {other:?}"),
        }
    }
    assert_eq!(parse_dice_expression("1d6-10000").unwrap(), DiceSpec { count: 1, sides: 6, modifier: -10000 });
    match parse_dice_expression("1d6+2147483648") {
        Err(AppError::Domain(m)) => assert_eq!(m, "dice modifier must be an integer"),
        other => panic!("unexpected {other:?}"),
    }
}

#[test]
fn rolls_within_bounds_and_applies_modifier() {
    let mut rng = rand::rngs::StdRng::seed_from_u64(42);
    let spec = parse_dice_expression("2d6+1").unwrap();
    for _ in 0..100 {
        let roll = roll_with(&spec, "2d6+1", &mut rng);
        assert_eq!(roll.rolls.len(), 2);
        assert!((3..=13).contains(&roll.total));
    }
}

#[test]
fn dice_command_reports_expression_total_and_rolls() {
    let mut ctx = context();
    let result = DiceCommand.execute(object1(member("expr", text("3d1+2"))), &mut ctx).expect("valid");
    assert_eq!(result.get("expression").and_then(|v| v.as_str()), Some("3d1+2"));
    match result.get("total") {
        Some(JsonValue::Number(JsonNumber::PosInt(5))) => {}
        other => panic!("expected total 5, got {other:?}"),
    }
    match result.get("rolls") {
        Some(JsonValue::Array(items)) => assert_eq!(items.len(), 3),
        other => panic!("expected rolls, got {other:?}"),
    }
    assert!(ctx.mutations.is_empty());
    assert!(DiceCommand.execute(JsonValue::empty_object(), &mut ctx).is_err());
}

#[test]
fn update_world_declares_mutation_not_storage() {
    let command = UpdateWorldCommand;
    let mut ctx = context();
    let result = command
        .execute(object2(member("key", text("room_state")), member("value", text("flooded"))), &mut ctx)
        .expect("valid args");
    assert_eq!(result.get("key").and_then(|v| v.as_str()), Some("room_state"));
    assert_eq!(result.get("value").and_then(|v| v.as_str()), Some("flooded"));
    assert_eq!(ctx.mutations.len(), 1);
    assert!(matches!(
        ctx.mutations.first(),
        Some(StateMutation::SetWorldKey { key, .. }) if key == "room_state"
    ));
}

#[test]
fn update_world_rejects_missing_or_empty_key() {
    let command = UpdateWorldCommand;
    let mut ctx = context();
    assert!(command.execute(object1(member("value", JsonValue::from_i64(1))), &mut ctx).is_err());
    assert!(command
        .execute(object2(member("key", text("  ")), member("value", JsonValue::from_i64(1))), &mut ctx)
        .is_err());
    assert!(ctx.mutations.is_empty());
}

#[test]
fn update_world_trims_the_key() {
    let mut ctx = context();
    let result = UpdateWorldCommand
        .execute(object2(member("key", text("  door ")), member("value", JsonValue::Bool(true))), &mut ctx)
        .expect("valid");
    assert_eq!(result.get("key").and_then(|v| v.as_str()), Some("door"));
    assert!(matches!(ctx.mutations.first(), Some(StateMutation::SetWorldKey { key, .. }) if key == "door"));
}

#[test]
fn declares_a_create_character_mutation() {
    let mut ctx = context();
    let arguments = object4(
        member("name", text("Elara")),
        member("bio", text("A ranger.")),
        member("is_player", JsonValue::Bool(true)),
        member("stats", object1(member("hp", JsonValue::from_i64(12)))),
    );
    let result = CreateCharacterCommand.execute(arguments, &mut ctx).expect("valid args");
    assert_eq!(result.get("created").and_then(|v| v.as_str()), Some("Elara"));
    assert_eq!(ctx.mutations.len(), 1);
    match &ctx.mutations[0] {
        StateMutation::CreateCharacter { name, bio, is_player, stats } => {
            assert_eq!(name, "Elara");
            assert_eq!(bio, "A ranger.");
            assert!(*is_player);
            assert!(matches!(stats.get("hp"), Some(JsonValue::Number(JsonNumber::PosInt(12)))));
        }
        other => panic!("expected a character mutation, got {other:?}"),
    }
}

#[test]
fn rejects_an_empty_name() {
    let mut ctx = context();
    let result = CreateCharacterCommand.execute(object1(member("name", text("  "))), &mut ctx);
    assert!(result.is_err());
    assert!(ctx.mutations.is_empty());
}

#[test]
fn command_ids_and_schemas() {
    assert_eq!(DiceCommand.id(), "dice");
    assert_eq!(UpdateWorldCommand.id(), "update_world");
    assert_eq!(DiceCommand.schema().name, "dice");
    let mut ctx = context();
    match DiceCommand.execute(object1(member("expr", text("1d6--2147483648"))), &mut ctx) {
        Err(AppError::Domain(m)) => assert_eq!(m, "dice modifier is out of range"),
        other => panic!("unexpected {other:?}"),
    }
}

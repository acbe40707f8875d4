//! Pure turn domain: dice parsing and rolling, and the v1 game commands.

use rand::Rng;
use vstd::prelude::*;
use vstd::string::*;

use crate::errors::{domain_error, AppError, Result};
use crate::game_command::{CommandContext, GameCommand, StateMutation};
use crate::json::{
    int_array, int_items, int_model, lookup, member, object1, object2, object3, str_model,
    string_array1, string_array2, string_field, JsonModel, JsonValue,
};
use crate::llm::ToolSchema;
use crate::text::{
    lowercase, str_lowercase, chars_of, find_first_of, first_of, parse_i32_range, parse_i32_text, parse_u32_range,
    parse_u32_text, trim, trim_bounds, trim_str,
};

verus! {

/// Maximum number of dice in a single roll (bounds hostile input).
pub const MAX_DICE_COUNT: u32 = 100;

/// Maximum face value (d2 .. d1000).
pub const MAX_DICE_SIDES: u32 = 1000;

/// Maximum absolute modifier.
pub const MAX_MODIFIER: i32 = 10_000;

/// A parsed dice expression like `2d6+1` or `d20-2`.
#[derive(Debug, Clone, Copy, PartialEq, Eq, Structural)]
pub struct DiceSpec {
    pub count: u32,
    pub sides: u32,
    pub modifier: i32,
}

/// The seedable random generator that rolls dice.
#[verifier::external_type_specification]
#[verifier::external_body]
pub struct ExStdRng(rand::rngs::StdRng);

/// The text a dice expression is parsed from: trimmed, then lower-cased.
pub open spec fn normalized_dice_text(expression: Seq<char>) -> Seq<char> {
    str_lowercase(trim(expression))
}

/// Where the modifier sign of `e` sits: the first `+` or `-` after the
/// first `d`.
pub open spec fn sign_index(e: Seq<char>, d: int) -> Option<int> {
    match first_of(e.subrange(d + 1, e.len() as int), '+', '-') {
        Some(k) => Some(d + 1 + k),
        None => None,
    }
}

/// The integer written after the modifier sign at `idx` (before the sign is
/// applied).
pub open spec fn modifier_magnitude(e: Seq<char>, idx: int) -> Option<i32> {
    parse_i32_text(trim(e.subrange(idx + 1, e.len() as int)))
}

/// Outcome of splitting `e` into its dice part and its signed modifier.
pub open spec fn split_outcome(e: Seq<char>) -> core::result::Result<(Seq<char>, int), Seq<char>> {
    match first_of(e, 'd', 'd') {
        None => Err("not a dice expression: "@ + e),
        Some(d) => match sign_index(e, d) {
            None => Ok((e, 0)),
            Some(idx) => match modifier_magnitude(e, idx) {
                None => Err("dice modifier must be an integer"@),
                Some(m) => Ok((e.subrange(0, idx), if e[idx] == '-' { -m } else { m as int })),
            },
        },
    }
}

/// The dice count written before the `d` of `dice_part` (1 when omitted).
pub open spec fn count_of(dice_part: Seq<char>, d: int) -> Option<u32> {
    if d == 0 {
        Some(1)
    } else {
        parse_u32_text(trim(dice_part.subrange(0, d)))
    }
}

/// The number of sides written after the `d` of `dice_part`.
pub open spec fn sides_of(dice_part: Seq<char>, d: int) -> Option<u32> {
    parse_u32_text(trim(dice_part.subrange(d + 1, dice_part.len() as int)))
}

/// Count and sides of a dice part, each parsed and within its bounds.
pub open spec fn count_sides_outcome(e: Seq<char>, dice_part: Seq<char>) -> core::result::Result<(u32, u32), Seq<char>> {
    match first_of(dice_part, 'd', 'd') {
        None => Err("not a dice expression: "@ + e),
        Some(d) => match count_of(dice_part, d) {
            None => Err("dice count"@ + " must be a positive integer"@),
            Some(count) => match sides_of(dice_part, d) {
                None => Err("dice sides"@ + " must be a positive integer"@),
                Some(sides) => if count == 0 || count > MAX_DICE_COUNT {
                    Err("dice count must be between 1 and 100"@)
                } else if sides == 0 || sides > MAX_DICE_SIDES {
                    Err("dice sides must be between 1 and 1000"@)
                } else {
                    Ok((count, sides))
                },
            },
        },
    }
}

/// The outcome of parsing the normalized dice text `e`: the count, sides and
/// modifier, or the message of the domain error.
pub open spec fn dice_outcome(e: Seq<char>) -> core::result::Result<(u32, u32, int), Seq<char>> {
    if e.len() == 0 {
        Err("dice expression must not be empty"@)
    } else {
        match split_outcome(e) {
            Err(msg) => Err(msg),
            Ok((dice_part, m)) => match count_sides_outcome(e, dice_part) {
                Err(msg) => Err(msg),
                Ok((count, sides)) => if m > MAX_MODIFIER || m < -MAX_MODIFIER {
                    Err("dice modifier is out of range"@)
                } else {
                    Ok((count, sides, m))
                },
            },
        }
    }
}

/// `r` is the result that `outcome` describes.
pub open spec fn dice_result_is(r: Result<DiceSpec>, outcome: core::result::Result<(u32, u32, int), Seq<char>>) -> bool {
    match r {
        Ok(spec) => match outcome {
            Ok((count, sides, m)) => spec.count == count && spec.sides == sides && spec.modifier == m,
            Err(_) => false,
        },
        Err(error) => match outcome {
            Ok(_) => false,
            Err(msg) => error is Domain && error.detail() == msg,
        },
    }
}

/// Parse a `u32` from the trimmed `part`; `what` names it in the error.
pub fn parse_u32(part: &str, what: &str) -> (r: Result<u32>)
    ensures
        match r {
            Ok(v) => parse_u32_text(trim(part@)) == Some(v),
            Err(e) => parse_u32_text(trim(part@)) is None && e is Domain
                && e.detail() == what@ + " must be a positive integer"@,
        },
{
    let cs = chars_of(part);
    let (a, b) = trim_bounds(&cs, 0, cs.len());
    proof {
        assert(cs@.subrange(0, cs@.len() as int) =~= part@);
    }
    match parse_u32_range(&cs, a, b) {
        Some(v) => Ok(v),
        None => Err(AppError::Domain(String::from_str(what).concat(" must be a positive integer"))),
    }
}

/// Split `2d6+1` into `("2d6", 1)`; handles `d20`, `2d6-2`, `2d6`. The
/// modifier is the `i32` written after the sign with the sign applied, which
/// needs a wider type: `-(-2147483648)` does not fit an `i32`.
pub fn split_modifier(expression: &str) -> (r: Result<(&str, i64)>)
    ensures
        match r {
            Ok((dice_part, m)) => split_outcome(expression@) == Ok::<(Seq<char>, int), Seq<char>>((dice_part@, m as int)),
            Err(e) => e is Domain && split_outcome(expression@) == Err::<(Seq<char>, int), Seq<char>>(e.detail()),
        },
{
    let cs = chars_of(expression);
    let n = cs.len();
    proof {
        assert(cs@.subrange(0, n as int) =~= expression@);
    }
    let d = match find_first_of(&cs, 0, n, 'd', 'd') {
        Some(d) => d,
        None => {
            return Err(AppError::Domain(String::from_str("not a dice expression: ").concat(expression)));
        },
    };
    match find_first_of(&cs, d + 1, n, '+', '-') {
        None => Ok((expression, 0)),
        Some(k) => {
            let index = d + 1 + k;
            let (a, b) = trim_bounds(&cs, index + 1, n);
            match parse_i32_range(&cs, a, b) {
                None => Err(domain_error("dice modifier must be an integer")),
                Some(magnitude) => {
                    let wide = magnitude as i64;
                    let modifier: i64 = if cs[index] == '-' {
                        -wide
                    } else {
                        wide
                    };
                    Ok((expression.substring_char(0, index), modifier))
                },
            }
        },
    }
}

/// Parse already-normalized (trimmed, lower-cased) dice text.
pub fn parse_normalized_dice_expression(expression: &str) -> (r: Result<DiceSpec>)
    ensures
        dice_result_is(r, dice_outcome(expression@)),
{
    if expression.unicode_len() == 0 {
        return Err(domain_error("dice expression must not be empty"));
    }
    let (dice_part, modifier) = match split_modifier(expression) {
        Ok(split) => split,
        Err(e) => return Err(e),
    };
    let cs = chars_of(dice_part);
    let n = cs.len();
    proof {
        assert(cs@.subrange(0, n as int) =~= dice_part@);
    }
    let d = match find_first_of(&cs, 0, n, 'd', 'd') {
        Some(d) => d,
        None => {
            return Err(AppError::Domain(String::from_str("not a dice expression: ").concat(expression)));
        },
    };
    let count: u32 = if d == 0 {
        1
    } else {
        match parse_u32(dice_part.substring_char(0, d), "dice count") {
            Ok(v) => v,
            Err(e) => return Err(e),
        }
    };
    let sides: u32 = match parse_u32(dice_part.substring_char(d + 1, n), "dice sides") {
        Ok(v) => v,
        Err(e) => return Err(e),
    };
    if count == 0 || count > MAX_DICE_COUNT {
        return Err(domain_error("dice count must be between 1 and 100"));
    }
    if sides == 0 || sides > MAX_DICE_SIDES {
        return Err(domain_error("dice sides must be between 1 and 1000"));
    }
    if modifier > MAX_MODIFIER as i64 || modifier < -(MAX_MODIFIER as i64) {
        return Err(domain_error("dice modifier is out of range"));
    }
    Ok(DiceSpec { count, sides, modifier: modifier as i32 })
}

/// Parse a dice expression. Format: `[count]d<sides>[+|-modifier]`, case
/// and surrounding whitespace ignored; every part is validated against sane
/// bounds so a hostile expression fails with a typed error.
pub fn parse_dice_expression(expression: &str) -> (r: Result<DiceSpec>)
    ensures
        dice_result_is(r, dice_outcome(normalized_dice_text(expression@))),
{
    let normalized = lowercase(trim_str(expression));
    parse_normalized_dice_expression(normalized.as_str())
}

/// The result of a single roll.
#[derive(Debug, Clone, PartialEq, Eq)]
pub struct DiceRoll {
    pub expression: String,
    pub total: i32,
    pub rolls: Vec<u32>,
}

/// The sum of the faces rolled.
pub open spec fn sum_of(rolls: Seq<u32>) -> int
    decreases rolls.len(),
{
    if rolls.len() == 0 {
        0
    } else {
        sum_of(rolls.drop_last()) + rolls.last()
    }
}

/// The total of the faces is their arithmetic sum: zero for no faces, the
/// face itself for one face, and for two runs of faces one after the other
/// the totals of the runs added, so every face counts exactly once
/// whatever its position.
pub proof fn law_sum_of_faces_adds_up(a: Seq<u32>, b: Seq<u32>, x: u32)
    ensures
        sum_of(Seq::<u32>::empty()) == 0,
        sum_of(seq![x]) == x,
        sum_of(a + b) == sum_of(a) + sum_of(b),
    decreases b.len(),
{
    assert(seq![x].drop_last() =~= Seq::<u32>::empty());
    if b.len() == 0 {
        assert(a + b =~= a);
    } else {
        law_sum_of_faces_adds_up(a, b.drop_last(), x);
        assert((a + b).drop_last() =~= a + b.drop_last());
        assert((a + b).last() == b.last());
    }
}

/// A spec that can be rolled without overflowing: dice with at least one
/// side, and every possible total within `i32`.
pub open spec fn rollable(spec: DiceSpec) -> bool {
    &&& (spec.count == 0 || spec.sides >= 1)
    &&& spec.count * spec.sides + (if spec.modifier < 0 { -spec.modifier } else { spec.modifier as int }) <= i32::MAX
}

/// Every face lies between 1 and `sides`.
pub open spec fn faces_within(rolls: Seq<u32>, sides: u32) -> bool {
    forall|i: int| 0 <= i < rolls.len() ==> 1 <= #[trigger] rolls[i] <= sides
}

proof fn lemma_sum_bounds(rolls: Seq<u32>, sides: u32)
    requires
        faces_within(rolls, sides),
    ensures
        rolls.len() <= sum_of(rolls) <= rolls.len() * sides,
    decreases rolls.len(),
{
    if rolls.len() > 0 {
        let t = rolls.drop_last();
        assert(faces_within(t, sides)) by {
            assert forall|i: int| 0 <= i < t.len() implies 1 <= #[trigger] t[i] <= sides by {
                assert(t[i] == rolls[i]);
            }
        }
        lemma_sum_bounds(t, sides);
        assert(1 <= rolls.last() <= sides);
        assert(t.len() * sides + sides == rolls.len() * sides) by (nonlinear_arith)
            requires
                t.len() + 1 == rolls.len(),
        ;
    }
}

/// Total up already-drawn faces: their sum plus the modifier.
pub fn roll_from_faces(spec: &DiceSpec, expression: &str, rolls: Vec<u32>) -> (roll: DiceRoll)
    requires
        rollable(*spec),
        rolls@.len() == spec.count,
        faces_within(rolls@, spec.sides),
    ensures
        roll.expression@ == expression@,
        roll.rolls@ == rolls@,
        roll.total == sum_of(rolls@) + spec.modifier,
{
    let mut sum: u32 = 0;
    let mut i: usize = 0;
    proof {
        lemma_sum_bounds(rolls@, spec.sides);
    }
    while i < rolls.len()
        invariant
            i <= rolls@.len(),
            rolls@.len() == spec.count,
            faces_within(rolls@, spec.sides),
            rollable(*spec),
            sum == sum_of(rolls@.subrange(0, i as int)),
        decreases rolls@.len() - i,
    {
        proof {
            let p = rolls@.subrange(0, i + 1);
            assert(p.drop_last() =~= rolls@.subrange(0, i as int));
            assert(faces_within(p, spec.sides)) by {
                assert forall|j: int| 0 <= j < p.len() implies 1 <= #[trigger] p[j] <= spec.sides by {
                    assert(p[j] == rolls@[j]);
                }
            }
            lemma_sum_bounds(p, spec.sides);
            assert(p.len() * spec.sides <= spec.count * spec.sides) by (nonlinear_arith)
                requires
                    p.len() <= spec.count,
            ;
        }
        sum = sum + rolls[i];
        i = i + 1;
    }
    proof {
        assert(rolls@.subrange(0, rolls@.len() as int) =~= rolls@);
    }
    DiceRoll { expression: String::from_str(expression), total: sum as i32 + spec.modifier, rolls }
}

/// Roll one die.
///
/// Calls `rand::Rng::gen_range(1..=sides)` on the given generator, which the
/// rand documentation defines as a value drawn from the inclusive range (it
/// panics on an empty range, hence `sides >= 1`). The contract claims only
/// the range; the value is random.
#[verifier::external_body]
fn draw_face(rng: &mut rand::rngs::StdRng, sides: u32) -> (face: u32)
    requires
        sides >= 1,
    ensures
        1 <= face <= sides,
{
    rng.gen_range(1..=sides)
}

/// Roll one die with the thread-local generator.
///
/// Calls `rand::thread_rng().gen_range(1..=sides)`; as for [`draw_face`],
/// only the range is claimed.
#[verifier::external_body]
fn draw_face_thread_rng(sides: u32) -> (face: u32)
    requires
        sides >= 1,
    ensures
        1 <= face <= sides,
{
    rand::thread_rng().gen_range(1..=sides)
}

/// Roll the dice with an injected generator (deterministic under a seed).
pub fn roll_with(spec: &DiceSpec, expression: &str, rng: &mut rand::rngs::StdRng) -> (roll: DiceRoll)
    requires
        rollable(*spec),
    ensures
        roll.expression@ == expression@,
        roll.rolls@.len() == spec.count,
        faces_within(roll.rolls@, spec.sides),
        roll.total == sum_of(roll.rolls@) + spec.modifier,
        spec.count + spec.modifier <= roll.total <= spec.count * spec.sides + spec.modifier,
{
    let mut rolls: Vec<u32> = Vec::new();
    let mut i: u32 = 0;
    while i < spec.count
        invariant
            i <= spec.count,
            rollable(*spec),
            rolls@.len() == i,
            faces_within(rolls@, spec.sides),
        decreases spec.count - i,
    {
        let face = draw_face(rng, spec.sides);
        rolls.push(face);
        i = i + 1;
    }
    proof {
        lemma_sum_bounds(rolls@, spec.sides);
    }
    roll_from_faces(spec, expression, rolls)
}

/// Roll the dice with the thread-local generator.
pub fn roll(spec: &DiceSpec, expression: &str) -> (roll: DiceRoll)
    requires
        rollable(*spec),
    ensures
        roll.expression@ == expression@,
        roll.rolls@.len() == spec.count,
        faces_within(roll.rolls@, spec.sides),
        roll.total == sum_of(roll.rolls@) + spec.modifier,
        spec.count + spec.modifier <= roll.total <= spec.count * spec.sides + spec.modifier,
{
    let mut rolls: Vec<u32> = Vec::new();
    let mut i: u32 = 0;
    while i < spec.count
        invariant
            i <= spec.count,
            rollable(*spec),
            rolls@.len() == i,
            faces_within(rolls@, spec.sides),
        decreases spec.count - i,
    {
        let face = draw_face_thread_rng(spec.sides);
        rolls.push(face);
        i = i + 1;
    }
    proof {
        lemma_sum_bounds(rolls@, spec.sides);
    }
    roll_from_faces(spec, expression, rolls)
}

/// The JSON result the dice command reports for a roll.
pub open spec fn dice_result_model(expression: Seq<char>, total: int, rolls: Seq<u32>) -> JsonModel {
    JsonModel::Object(
        seq![
            ("expression"@, JsonModel::String(expression)),
            ("total"@, int_model(total)),
            ("rolls"@, JsonModel::Array(int_items(rolls))),
        ],
    )
}

/// What executing the dice command on `arguments` may give.
pub open spec fn dice_command_result(arguments: JsonModel, r: Result<JsonValue>) -> bool {
    match string_field(arguments, "expr"@) {
        None => r matches Err(e) && e is Domain && e.detail() == "dice requires an 'expr' string"@,
        Some(text) => match dice_outcome(normalized_dice_text(text)) {
            Err(msg) => r matches Err(e) && e is Domain && e.detail() == msg,
            Ok((count, sides, m)) => r matches Ok(v) && exists|rolls: Seq<u32>|
                rolls.len() == count && faces_within(rolls, sides)
                    && v@ == dice_result_model(text, sum_of(rolls) + m, rolls),
        },
    }
}

/// The JSON Schema of the dice command's arguments.
pub open spec fn dice_schema_model() -> JsonModel {
    JsonModel::Object(
        seq![
            ("type"@, str_model("object"@)),
            (
                "properties"@,
                JsonModel::Object(
                    seq![
                        (
                            "expr"@,
                            JsonModel::Object(
                                seq![
                                    ("type"@, str_model("string"@)),
                                    ("description"@, str_model("Dice expression, e.g. 2d6, 1d20+2, 3d8-1"@)),
                                ],
                            ),
                        ),
                    ],
                ),
            ),
            ("required"@, JsonModel::Array(seq![str_model("expr"@)])),
        ],
    )
}

fn dice_schema() -> (v: JsonValue)
    ensures
        v@ == dice_schema_model(),
{
    let expr = object2(
        member("type", JsonValue::from_str_slice("string")),
        member("description", JsonValue::from_str_slice("Dice expression, e.g. 2d6, 1d20+2, 3d8-1")),
    );
    object3(
        member("type", JsonValue::from_str_slice("object")),
        member("properties", object1(member("expr", expr))),
        member("required", string_array1("expr")),
    )
}

/// What the dice command tells the model about itself.
pub open spec fn dice_description() -> Seq<char> {
    "Roll dice for the game. Provide an expression like 2d6, 1d20+2, or 3d8-1. Use it whenever an action's outcome is uncertain or opposed."@
}

/// The `dice` game command: roll a validated dice expression.
pub struct DiceCommand;

/// A spec accepted by the parser can be rolled.
proof fn lemma_parsed_rollable(count: u32, sides: u32, m: int)
    requires
        1 <= count <= MAX_DICE_COUNT,
        1 <= sides <= MAX_DICE_SIDES,
        -MAX_MODIFIER <= m <= MAX_MODIFIER,
    ensures
        count * sides + (if m < 0 { -m } else { m }) <= i32::MAX,
{
    assert(count * sides <= 100 * 1000) by (nonlinear_arith)
        requires
            count <= 100,
            sides <= 1000,
    ;
}

impl GameCommand for DiceCommand {
    fn id(&self) -> (r: &str)
        ensures
            r@ == "dice"@,
    {
        "dice"
    }

    fn description(&self) -> (r: &str)
        ensures
            r@ == dice_description(),
    {
        "Roll dice for the game. Provide an expression like 2d6, 1d20+2, or 3d8-1. Use it whenever an action's outcome is uncertain or opposed."
    }

    fn schema(&self) -> (s: ToolSchema)
        ensures
            s.name@ == "dice"@,
            s.description@ == dice_description(),
            s.parameters@ == dice_schema_model(),
    {
        ToolSchema {
            name: String::from_str("dice"),
            description: String::from_str(self.description()),
            parameters: dice_schema(),
        }
    }

    fn execute(&self, arguments: JsonValue, context: &mut CommandContext) -> (r: Result<JsonValue>)
        ensures
            dice_command_result(arguments@, r),
            final(context).mutations@ == old(context).mutations@,
    {
        let expression = match arguments.get("expr") {
            Some(v) => match v.as_str() {
                Some(text) => text,
                None => return Err(domain_error("dice requires an 'expr' string")),
            },
            None => return Err(domain_error("dice requires an 'expr' string")),
        };
        let spec = match parse_dice_expression(expression) {
            Ok(spec) => spec,
            Err(e) => return Err(e),
        };
        proof {
            lemma_parsed_rollable(spec.count, spec.sides, spec.modifier as int);
        }
        let rolled = roll(&spec, expression);
        let mut members: Vec<(String, JsonValue)> = Vec::new();
        members.push(member("expression", JsonValue::String(rolled.expression)));
        members.push(member("total", JsonValue::from_i64(rolled.total as i64)));
        members.push(member("rolls", int_array(&rolled.rolls)));
        let result = JsonValue::Object(members);
        proof {
            assert(result@ == dice_result_model(expression@, sum_of(rolled.rolls@) + spec.modifier, rolled.rolls@)) by {
                assert(crate::json::members_model(members@) =~= dice_result_model(expression@, sum_of(rolled.rolls@) + spec.modifier, rolled.rolls@)->Object_0);
            }
        }
        Ok(result)
    }
}

/// The JSON Schema of the world-update command's arguments.
pub open spec fn update_world_schema_model() -> JsonModel {
    JsonModel::Object(
        seq![
            ("type"@, str_model("object"@)),
            (
                "properties"@,
                JsonModel::Object(
                    seq![
                        (
                            "key"@,
                            JsonModel::Object(
                                seq![
                                    ("type"@, str_model("string"@)),
                                    (
                                        "description"@,
                                        str_model(
                                            "A snake_case key describing the fact, e.g. 'room_state' or 'npc.guard_awake'"@,
                                        ),
                                    ),
                                ],
                            ),
                        ),
                        (
                            "value"@,
                            JsonModel::Object(
                                seq![
                                    (
                                        "description"@,
                                        str_model("The fact's value (string, number, bool, object, array)"@),
                                    ),
                                ],
                            ),
                        ),
                    ],
                ),
            ),
            ("required"@, JsonModel::Array(seq![str_model("key"@), str_model("value"@)])),
        ],
    )
}

fn update_world_schema() -> (v: JsonValue)
    ensures
        v@ == update_world_schema_model(),
{
    let key = object2(
        member("type", JsonValue::from_str_slice("string")),
        member(
            "description",
            JsonValue::from_str_slice(
                "A snake_case key describing the fact, e.g. 'room_state' or 'npc.guard_awake'",
            ),
        ),
    );
    let value = object1(
        member("description", JsonValue::from_str_slice("The fact's value (string, number, bool, object, array)")),
    );
    object3(
        member("type", JsonValue::from_str_slice("object")),
        member("properties", object2(member("key", key), member("value", value))),
        member("required", string_array2("key", "value")),
    )
}

/// The key and value a world update names, or the message of its error.
pub open spec fn update_world_outcome(arguments: JsonModel) -> core::result::Result<(Seq<char>, JsonModel), Seq<char>> {
    match string_field(arguments, "key"@) {
        Some(k) if trim(k).len() > 0 => match lookup(arguments, "value"@) {
            Some(v) => Ok((trim(k), v)),
            None => Err("update_world requires a 'value'"@),
        },
        _ => Err("update_world requires a non-empty 'key'"@),
    }
}

/// The mutation sets world key `key` to `value`.
pub open spec fn sets_world_key(m: StateMutation, key: Seq<char>, value: JsonModel) -> bool {
    match m {
        StateMutation::SetWorldKey { key: k, value: v } => k@ == key && v@ == value,
        _ => false,
    }
}

/// What executing the world update on `arguments` gives and does to the
/// mutation journal: on success `{"ok": true, "key", "value"}` and one
/// more mutation setting that key; on failure a domain error and no change.
pub open spec fn update_world_effect(
    arguments: JsonModel,
    r: Result<JsonValue>,
    before: Seq<StateMutation>,
    after: Seq<StateMutation>,
) -> bool {
    match update_world_outcome(arguments) {
        Ok((key, value)) => {
            &&& r matches Ok(v) && v@ == JsonModel::Object(
                seq![("ok"@, JsonModel::Bool(true)), ("key"@, str_model(key)), ("value"@, value)],
            )
            &&& after.len() == before.len() + 1
            &&& after.drop_last() == before
            &&& sets_world_key(after.last(), key, value)
        },
        Err(msg) => {
            &&& r matches Err(e) && e is Domain && e.detail() == msg
            &&& after == before
        },
    }
}

/// What the world update tells the model about itself.
pub open spec fn update_world_description() -> Seq<char> {
    "Set or update a persistent fact in the world state (e.g. room conditions, NPC status, flags). The value becomes the new truth for future turns."@
}

/// The `update_world` game command: set a key in the persistent world state.
///
/// It does not touch storage: it declares a [`StateMutation`] that the turn
/// flow applies and audits.
pub struct UpdateWorldCommand;

impl GameCommand for UpdateWorldCommand {
    fn id(&self) -> (r: &str)
        ensures
            r@ == "update_world"@,
    {
        "update_world"
    }

    fn description(&self) -> (r: &str)
        ensures
            r@ == update_world_description(),
    {
        "Set or update a persistent fact in the world state (e.g. room conditions, NPC status, flags). The value becomes the new truth for future turns."
    }

    fn schema(&self) -> (s: ToolSchema)
        ensures
            s.name@ == "update_world"@,
            s.description@ == update_world_description(),
            s.parameters@ == update_world_schema_model(),
    {
        ToolSchema {
            name: String::from_str("update_world"),
            description: String::from_str(self.description()),
            parameters: update_world_schema(),
        }
    }

    fn execute(&self, arguments: JsonValue, context: &mut CommandContext) -> (r: Result<JsonValue>)
        ensures
            update_world_effect(arguments@, r, old(context).mutations@, final(context).mutations@),
    {
        let raw_key = match arguments.get("key") {
            Some(v) => match v.as_str() {
                Some(text) => text,
                None => return Err(domain_error("update_world requires a non-empty 'key'")),
            },
            None => return Err(domain_error("update_world requires a non-empty 'key'")),
        };
        let key = trim_str(raw_key);
        if key.unicode_len() == 0 {
            return Err(domain_error("update_world requires a non-empty 'key'"));
        }
        let value = match arguments.get("value") {
            Some(v) => v.duplicate(),
            None => return Err(domain_error("update_world requires a 'value'")),
        };
        let recorded = value.duplicate();
        context.mutations.push(StateMutation::SetWorldKey { key: String::from_str(key), value: recorded });
        proof {
            assert(context.mutations@.drop_last() =~= old(context).mutations@);
        }
        Ok(object3(
            member("ok", JsonValue::Bool(true)),
            member("key", JsonValue::from_str_slice(key)),
            member("value", value),
        ))
    }
}

} // verus!

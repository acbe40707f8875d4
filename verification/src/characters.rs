//! Characters (player persona and NPCs) of a campaign: the entity, its
//! validation rules, and the GM's `create_character` command.

use vstd::prelude::*;
use vstd::string::*;

use crate::errors::{checked_by, AppError, Result};
use crate::game_command::{CommandContext, GameCommand, StateMutation};
use crate::ids::{is_utc_rfc3339, is_uuid_v4_text, new_id, now_rfc3339};
use crate::json::{
    bool_field, lookup, member, object2, object3, object4, str_model, string_array1, string_field,
    JsonModel, JsonValue,
};
use crate::llm::ToolSchema;
use crate::text::{trim, trim_str, utf8_len, utf8_len_exceeds};

verus! {

/// Maximum length of a character name.
pub const MAX_NAME_LENGTH: usize = 80;

/// A character (player or NPC) belonging to a campaign.
#[derive(Debug)]
pub struct Character {
    pub id: String,
    pub campaign_id: String,
    pub name: String,
    pub is_player: bool,
    pub bio: String,
    /// Free-form stats (attributes, HP, gold, ...).
    pub stats: JsonValue,
    /// Free-form extra data for rulesets/modules to hang onto.
    pub extra: JsonValue,
    pub created_at: String,
}

/// Input for creating a character.
#[derive(Debug)]
pub struct NewCharacter {
    pub campaign_id: String,
    pub name: String,
    pub is_player: bool,
    pub bio: String,
    pub stats: JsonValue,
}

/// Input for updating a character (full replace of editable fields).
#[derive(Debug)]
pub struct UpdateCharacter {
    pub name: String,
    pub is_player: bool,
    pub bio: String,
    pub stats: JsonValue,
}

/// Why a character name is refused, if it is.
pub open spec fn name_error(name: Seq<char>) -> Option<Seq<char>> {
    if trim(name).len() == 0 {
        Some("character name must not be empty"@)
    } else if utf8_len(trim(name)) > MAX_NAME_LENGTH {
        Some("character name is too long (max 80 chars)"@)
    } else {
        None
    }
}

/// Why a creation input is refused, if it is.
pub open spec fn new_character_error(input: NewCharacter) -> Option<Seq<char>> {
    match name_error(input.name@) {
        Some(msg) => Some(msg),
        None => if trim(input.campaign_id@).len() == 0 {
            Some("character must belong to a campaign"@)
        } else {
            None
        },
    }
}

pub fn validate_name(name: &str) -> (r: Result<()>)
    ensures
        checked_by(r, name_error(name@)),
{
    let trimmed = trim_str(name);
    if trimmed.unicode_len() == 0 {
        return Err(AppError::Domain(String::from_str("character name must not be empty")));
    }
    if utf8_len_exceeds(trimmed, MAX_NAME_LENGTH) {
        return Err(AppError::Domain(String::from_str("character name is too long (max 80 chars)")));
    }
    Ok(())
}

impl NewCharacter {
    /// Validate creation input before it reaches storage.
    pub fn validate(&self) -> (r: Result<()>)
        ensures
            checked_by(r, new_character_error(*self)),
    {
        match validate_name(self.name.as_str()) {
            Ok(()) => {},
            Err(e) => return Err(e),
        }
        if trim_str(self.campaign_id.as_str()).unicode_len() == 0 {
            return Err(AppError::Domain(String::from_str("character must belong to a campaign")));
        }
        Ok(())
    }
}

impl UpdateCharacter {
    /// Validate update input before it reaches storage.
    pub fn validate(&self) -> (r: Result<()>)
        ensures
            checked_by(r, name_error(self.name@)),
    {
        validate_name(self.name.as_str())
    }
}

/// Build the character a valid creation input describes, with the given id
/// and creation time: whitespace trimmed, no extra data yet.
pub fn character_from_input(input: NewCharacter, id: String, now: String) -> (r: Result<Character>)
    ensures
        match new_character_error(input) {
            Some(msg) => r matches Err(e) && e is Domain && e.detail() == msg,
            None => r matches Ok(c) && c.id@ == id@ && c.campaign_id@ == trim(input.campaign_id@)
                && c.name@ == trim(input.name@) && c.is_player == input.is_player && c.bio@ == trim(
                input.bio@,
            ) && c.stats@ == input.stats@ && c.extra@ == JsonModel::Object(Seq::empty())
                && c.created_at@ == now@,
        },
{
    match input.validate() {
        Ok(()) => {},
        Err(e) => return Err(e),
    }
    Ok(Character {
        id,
        campaign_id: String::from_str(trim_str(input.campaign_id.as_str())),
        name: String::from_str(trim_str(input.name.as_str())),
        is_player: input.is_player,
        bio: String::from_str(trim_str(input.bio.as_str())),
        stats: input.stats,
        extra: JsonValue::empty_object(),
        created_at: now,
    })
}

/// Build a new character from input with a fresh id and the current time.
pub fn prepare_character(input: NewCharacter) -> (r: Result<Character>)
    ensures
        match new_character_error(input) {
            Some(msg) => r matches Err(e) && e is Domain && e.detail() == msg,
            None => r matches Ok(c) && is_uuid_v4_text(c.id@) && is_utc_rfc3339(c.created_at@) && c.campaign_id@ == trim(input.campaign_id@)
                && c.name@ == trim(input.name@) && c.is_player == input.is_player && c.bio@ == trim(
                input.bio@,
            ) && c.stats@ == input.stats@ && c.extra@ == JsonModel::Object(Seq::empty()),
        },
{
    match input.validate() {
        Ok(()) => {},
        Err(e) => return Err(e),
    }
    let id = new_id();
    let now = now_rfc3339();
    character_from_input(input, id, now)
}

/// Apply an update to a stored character: the editable fields are replaced
/// (trimmed), identity, campaign, extra data and creation time are kept.
pub fn updated_character(existing: Character, input: UpdateCharacter) -> (r: Result<Character>)
    ensures
        match name_error(input.name@) {
            Some(msg) => r matches Err(e) && e is Domain && e.detail() == msg,
            None => r matches Ok(c) && c.id@ == existing.id@ && c.campaign_id@ == existing.campaign_id@
                && c.name@ == trim(input.name@) && c.is_player == input.is_player && c.bio@ == trim(
                input.bio@,
            ) && c.stats@ == input.stats@ && c.extra@ == existing.extra@ && c.created_at@
                == existing.created_at@,
        },
{
    match input.validate() {
        Ok(()) => {},
        Err(e) => return Err(e),
    }
    Ok(Character {
        id: existing.id,
        campaign_id: existing.campaign_id,
        name: String::from_str(trim_str(input.name.as_str())),
        is_player: input.is_player,
        bio: String::from_str(trim_str(input.bio.as_str())),
        stats: input.stats,
        extra: existing.extra,
        created_at: existing.created_at,
    })
}

/// The description the GM sees for `create_character`.
pub open spec fn create_character_description() -> Seq<char> {
    "Create a character in this campaign — the player persona or an NPC — with a name, a short bio, and optional stats."@
}

/// The JSON Schema of the `create_character` arguments.
pub open spec fn create_character_schema_model() -> JsonModel {
    JsonModel::Object(
        seq![
            ("type"@, str_model("object"@)),
            (
                "properties"@,
                JsonModel::Object(
                    seq![
                        (
                            "name"@,
                            JsonModel::Object(
                                seq![
                                    ("type"@, str_model("string"@)),
                                    ("description"@, str_model("The character's display name"@)),
                                ],
                            ),
                        ),
                        (
                            "bio"@,
                            JsonModel::Object(
                                seq![
                                    ("type"@, str_model("string"@)),
                                    ("description"@, str_model("A short backstory or description"@)),
                                ],
                            ),
                        ),
                        (
                            "is_player"@,
                            JsonModel::Object(
                                seq![
                                    ("type"@, str_model("boolean"@)),
                                    (
                                        "description"@,
                                        str_model(
                                            "True when this is the player's persona; false (default) for an NPC"@,
                                        ),
                                    ),
                                ],
                            ),
                        ),
                        (
                            "stats"@,
                            JsonModel::Object(
                                seq![
                                    ("type"@, str_model("object"@)),
                                    ("description"@, str_model("Attributes, HP, gold, or any other numbers"@)),
                                ],
                            ),
                        ),
                    ],
                ),
            ),
            ("required"@, JsonModel::Array(seq![str_model("name"@)])),
        ],
    )
}

fn create_character_schema() -> (v: JsonValue)
    ensures
        v@ == create_character_schema_model(),
{
    let name = object2(
        member("type", JsonValue::from_str_slice("string")),
        member("description", JsonValue::from_str_slice("The character's display name")),
    );
    let bio = object2(
        member("type", JsonValue::from_str_slice("string")),
        member("description", JsonValue::from_str_slice("A short backstory or description")),
    );
    let is_player = object2(
        member("type", JsonValue::from_str_slice("boolean")),
        member(
            "description",
            JsonValue::from_str_slice("True when this is the player's persona; false (default) for an NPC"),
        ),
    );
    let stats = object2(
        member("type", JsonValue::from_str_slice("object")),
        member("description", JsonValue::from_str_slice("Attributes, HP, gold, or any other numbers")),
    );
    object3(
        member("type", JsonValue::from_str_slice("object")),
        member(
            "properties",
            object4(member("name", name), member("bio", bio), member("is_player", is_player), member("stats", stats)),
        ),
        member("required", string_array1("name")),
    )
}

/// The trimmed name a `create_character` call asks for, if it names one.
pub open spec fn requested_name(arguments: JsonModel) -> Option<Seq<char>> {
    match string_field(arguments, "name"@) {
        Some(n) if trim(n).len() > 0 => Some(trim(n)),
        _ => None,
    }
}

/// The bio a `create_character` call gives (empty when absent).
pub open spec fn requested_bio(arguments: JsonModel) -> Seq<char> {
    match string_field(arguments, "bio"@) {
        Some(b) => b,
        None => Seq::empty(),
    }
}

/// Whether a `create_character` call asks for the player persona.
pub open spec fn requested_is_player(arguments: JsonModel) -> bool {
    match bool_field(arguments, "is_player"@) {
        Some(b) => b,
        None => false,
    }
}

/// The stats a `create_character` call gives (`{}` when absent).
pub open spec fn requested_stats(arguments: JsonModel) -> JsonModel {
    match lookup(arguments, "stats"@) {
        Some(s) => s,
        None => JsonModel::Object(Seq::empty()),
    }
}

/// The mutation creates exactly the given character.
pub open spec fn creates_character(m: StateMutation, name: Seq<char>, bio: Seq<char>, is_player: bool, stats: JsonModel) -> bool {
    match m {
        StateMutation::CreateCharacter { name: n, bio: b, is_player: p, stats: s } => n@ == name && b@ == bio
            && p == is_player && s@ == stats,
        _ => false,
    }
}

/// The `create_character` tool: lets the GM populate the roster.
pub struct CreateCharacterCommand;

impl GameCommand for CreateCharacterCommand {
    fn id(&self) -> (r: &str)
        ensures
            r@ == "create_character"@,
    {
        "create_character"
    }

    fn description(&self) -> (r: &str)
        ensures
            r@ == create_character_description(),
    {
        "Create a character in this campaign — the player persona or an NPC — with a name, a short bio, and optional stats."
    }

    fn schema(&self) -> (s: ToolSchema)
        ensures
            s.name@ == "create_character"@,
            s.description@ == create_character_description(),
            s.parameters@ == create_character_schema_model(),
    {
        ToolSchema {
            name: String::from_str("create_character"),
            description: String::from_str(self.description()),
            parameters: create_character_schema(),
        }
    }

    fn execute(&self, arguments: JsonValue, context: &mut CommandContext) -> (r: Result<JsonValue>)
        ensures
            match requested_name(arguments@) {
                None => {
                    &&& r matches Err(e) && e is Domain && e.detail()
                        == "create_character requires a non-empty 'name'"@
                    &&& final(context).mutations@ == old(context).mutations@
                },
                Some(name) => {
                    &&& r matches Ok(v) && v@ == JsonModel::Object(
                        seq![
                            ("ok"@, JsonModel::Bool(true)),
                            ("created"@, str_model(name)),
                            ("is_player"@, JsonModel::Bool(requested_is_player(arguments@))),
                        ],
                    )
                    &&& final(context).mutations@.len() == old(context).mutations@.len() + 1
                    &&& final(context).mutations@.drop_last() == old(context).mutations@
                    &&& creates_character(
                        final(context).mutations@.last(),
                        name,
                        requested_bio(arguments@),
                        requested_is_player(arguments@),
                        requested_stats(arguments@),
                    )
                },
            },
    {
        let raw_name = match arguments.get("name") {
            Some(v) => match v.as_str() {
                Some(text) => text,
                None => return Err(AppError::Domain(String::from_str("create_character requires a non-empty 'name'"))),
            },
            None => return Err(AppError::Domain(String::from_str("create_character requires a non-empty 'name'"))),
        };
        let name = trim_str(raw_name);
        if name.unicode_len() == 0 {
            return Err(AppError::Domain(String::from_str("create_character requires a non-empty 'name'")));
        }
        let bio: String = match arguments.get("bio") {
            Some(v) => match v.as_str() {
                Some(text) => String::from_str(text),
                None => String::new(),
            },
            None => String::new(),
        };
        let is_player: bool = match arguments.get("is_player") {
            Some(v) => match v.as_bool() {
                Some(b) => b,
                None => false,
            },
            None => false,
        };
        let stats = match arguments.get("stats") {
            Some(v) => v.duplicate(),
            None => JsonValue::empty_object(),
        };
        context.mutations.push(
            StateMutation::CreateCharacter { name: String::from_str(name), bio, is_player, stats },
        );
        proof {
            assert(context.mutations@.drop_last() =~= old(context).mutations@);
        }
        Ok(object3(
            member("ok", JsonValue::Bool(true)),
            member("created", JsonValue::from_str_slice(name)),
            member("is_player", JsonValue::Bool(is_player)),
        ))
    }
}

} // verus!

//! Rulesets: reusable GM presets (system prompt plus house rules), with one
//! protected built-in default.

use vstd::prelude::*;
use vstd::string::*;

use crate::errors::{checked_by, AppError, Result};
use crate::ids::{is_utc_rfc3339, is_uuid_v4_text, new_id, now_rfc3339};
use crate::json::{JsonModel, JsonValue};
use crate::text::{str_eq, trim, trim_str, utf8_len, utf8_len_exceeds};

verus! {

/// Maximum length of a ruleset name.
pub const MAX_NAME_LENGTH: usize = 100;

/// Name of the built-in ruleset seeded on first run.
pub const DEFAULT_RULESET_NAME: &'static str = "Standard Fantasy GM";

/// The default GM system prompt: narrative only, world changes only via
/// tools, storage is the source of truth.
pub const DEFAULT_SYSTEM_PROMPT: &'static str = "You are the Game Master of a text roleplay.

BEHAVIOUR
- Narrate vivid, coherent scenes in the present tense, second person (\"you\").
- Keep the story going: react to the player's actions, create consequences,
  and move the world forward. Do not end the scene unless it is a natural
  resting point.
- Respect the world rules and the current world state below. If the world
  state conflicts with something you \"remember\", the world state is the truth.

WORLD CHANGES (very important)
- You change the world ONLY by calling tools. Never claim in narration that
  something changed in the world unless you actually applied it with a tool.
- Free text in your replies is narrative only — it does not mutate state.
- When a fact should persist (a room is now on fire, an NPC is dead, the
  player gained an item), update it with the available tools, then narrate.
- Never invent tool results; only call a tool when you genuinely need to
  record a change or roll dice.

TURNS
- Address the player's intent directly. If an action is uncertain or opposed,
  use the dice tool to resolve it fairly.
- Keep replies focused: a few paragraphs per turn is plenty.";

/// A reusable GM preset.
#[derive(Debug)]
pub struct Ruleset {
    /// Backend-generated UUID (v4); clients never supply it.
    pub id: String,
    /// Display name; validated, then trimmed.
    pub name: String,
    /// The behaviour-defining instruction text sent to the GM model.
    pub system_prompt: String,
    /// Free-form house rules document merged into the system prompt.
    pub world_rules: JsonValue,
    /// Built-in presets are seeded and not editable or deletable.
    pub is_builtin: bool,
    /// RFC 3339 timestamp, set once at insert; drives list ordering.
    pub created_at: String,
}

/// Input for creating a ruleset.
#[derive(Debug)]
pub struct NewRuleset {
    pub name: String,
    pub system_prompt: String,
    pub world_rules: JsonValue,
}

/// Input for updating a ruleset.
#[derive(Debug)]
pub struct UpdateRuleset {
    pub name: String,
    pub system_prompt: String,
    pub world_rules: JsonValue,
}

/// Why a ruleset name is refused, if it is.
pub open spec fn name_error(name: Seq<char>) -> Option<Seq<char>> {
    if trim(name).len() == 0 {
        Some("ruleset name must not be empty"@)
    } else if utf8_len(trim(name)) > MAX_NAME_LENGTH {
        Some("ruleset name is too long (max 100 chars)"@)
    } else {
        None
    }
}

/// Why a ruleset's name and prompt are refused, if they are.
pub open spec fn input_error(name: Seq<char>, system_prompt: Seq<char>) -> Option<Seq<char>> {
    match name_error(name) {
        Some(msg) => Some(msg),
        None => if trim(system_prompt).len() == 0 {
            Some("system prompt must not be empty"@)
        } else {
            None
        },
    }
}

pub fn validate_name(name: &str) -> (r: Result<()>)
    ensures
        checked_by(r, name_error(name@)),
{
    let trimmed = trim_str(name);
    if trimmed.unicode_len() == 0 {
        return Err(AppError::Domain(String::from_str("ruleset name must not be empty")));
    }
    if utf8_len_exceeds(trimmed, MAX_NAME_LENGTH) {
        return Err(AppError::Domain(String::from_str("ruleset name is too long (max 100 chars)")));
    }
    Ok(())
}

fn validate_input(name: &str, system_prompt: &str) -> (r: Result<()>)
    ensures
        checked_by(r, input_error(name@, system_prompt@)),
{
    match validate_name(name) {
        Ok(()) => {},
        Err(e) => return Err(e),
    }
    if trim_str(system_prompt).unicode_len() == 0 {
        return Err(AppError::Domain(String::from_str("system prompt must not be empty")));
    }
    Ok(())
}

impl NewRuleset {
    /// Validate creation input before it reaches storage.
    pub fn validate(&self) -> (r: Result<()>)
        ensures
            checked_by(r, input_error(self.name@, self.system_prompt@)),
    {
        validate_input(self.name.as_str(), self.system_prompt.as_str())
    }
}

impl UpdateRuleset {
    /// Validate update input before it reaches storage.
    pub fn validate(&self) -> (r: Result<()>)
        ensures
            checked_by(r, input_error(self.name@, self.system_prompt@)),
    {
        validate_input(self.name.as_str(), self.system_prompt.as_str())
    }
}

/// Whether the built-in default ruleset is among `rulesets` (by name).
pub fn has_default_ruleset(rulesets: &Vec<Ruleset>) -> (r: bool)
    ensures
        r == exists|i: int| 0 <= i < rulesets@.len() && (#[trigger] rulesets@[i]).name@ == DEFAULT_RULESET_NAME@,
{
    let mut i: usize = 0;
    while i < rulesets.len()
        invariant
            i <= rulesets@.len(),
            forall|j: int| 0 <= j < i ==> (#[trigger] rulesets@[j]).name@ != DEFAULT_RULESET_NAME@,
        decreases rulesets@.len() - i,
    {
        if str_eq(rulesets[i].name.as_str(), DEFAULT_RULESET_NAME) {
            return true;
        }
        i = i + 1;
    }
    false
}

/// The built-in default ruleset, with the given id and creation time.
pub fn default_ruleset(id: String, now: String) -> (r: Ruleset)
    ensures
        r.id@ == id@,
        r.name@ == DEFAULT_RULESET_NAME@,
        r.system_prompt@ == DEFAULT_SYSTEM_PROMPT@,
        r.world_rules@ == JsonModel::Object(Seq::empty()),
        r.is_builtin,
        r.created_at@ == now@,
{
    Ruleset {
        id,
        name: String::from_str(DEFAULT_RULESET_NAME),
        system_prompt: String::from_str(DEFAULT_SYSTEM_PROMPT),
        world_rules: JsonValue::empty_object(),
        is_builtin: true,
        created_at: now,
    }
}

/// Some ruleset of `rows` carries the built-in default's name.
pub open spec fn has_default_named(rows: Seq<Ruleset>) -> bool {
    exists|i: int| 0 <= i < rows.len() && (#[trigger] rows[i]).name@ == DEFAULT_RULESET_NAME@
}

/// `seed` is what start-up seeds into a table holding `existing`: nothing
/// when a ruleset already has the default's name, otherwise the built-in
/// default (its prompt, no house rules).
pub open spec fn ruleset_seed_for(existing: Seq<Ruleset>, seed: Option<Ruleset>) -> bool {
    match seed {
        None => has_default_named(existing),
        Some(d) => !has_default_named(existing) && d.name@ == DEFAULT_RULESET_NAME@ && d.system_prompt@
            == DEFAULT_SYSTEM_PROMPT@ && d.world_rules@ == JsonModel::Object(Seq::empty()) && d.is_builtin,
    }
}

/// The table once `seed` is inserted.
pub open spec fn after_ruleset_seeding(existing: Seq<Ruleset>, seed: Option<Ruleset>) -> Seq<Ruleset> {
    match seed {
        Some(d) => existing.push(d),
        None => existing,
    }
}

/// Seeding the default ruleset: afterwards some ruleset has the default's
/// name; if none had it before exactly the built-in default was added,
/// otherwise nothing changed; seeding again changes nothing.
pub proof fn law_ruleset_seeding_is_idempotent(existing: Seq<Ruleset>, seed: Option<Ruleset>, again: Option<Ruleset>)
    requires
        ruleset_seed_for(existing, seed),
    ensures
        has_default_named(after_ruleset_seeding(existing, seed)),
        has_default_named(existing) ==> after_ruleset_seeding(existing, seed) == existing,
        !has_default_named(existing) ==> after_ruleset_seeding(existing, seed).len() == existing.len() + 1
            && after_ruleset_seeding(existing, seed).drop_last() == existing,
        ruleset_seed_for(after_ruleset_seeding(existing, seed), again) ==> again is None
            && after_ruleset_seeding(after_ruleset_seeding(existing, seed), again) == after_ruleset_seeding(
            existing,
            seed,
        ),
{
    match seed {
        Some(d) => {
            let after = existing.push(d);
            assert(after[existing.len() as int].name@ == DEFAULT_RULESET_NAME@);
            assert(after.drop_last() =~= existing);
        },
        None => {},
    }
}

/// The built-in ruleset to seed, unless one named like it already exists.
pub fn ruleset_to_seed(existing: &Vec<Ruleset>) -> (r: Option<Ruleset>)
    ensures
        ruleset_seed_for(existing@, r),
        r matches Some(d) ==> is_uuid_v4_text(d.id@) && is_utc_rfc3339(d.created_at@),
{
    if has_default_ruleset(existing) {
        None
    } else {
        Some(default_ruleset(new_id(), now_rfc3339()))
    }
}

/// Build the custom ruleset a valid creation input describes: trimmed name
/// and prompt, never built-in.
pub fn ruleset_from_input(input: NewRuleset, id: String, now: String) -> (r: Result<Ruleset>)
    ensures
        match input_error(input.name@, input.system_prompt@) {
            Some(msg) => r matches Err(e) && e is Domain && e.detail() == msg,
            None => r matches Ok(rs) && rs.id@ == id@ && rs.name@ == trim(input.name@) && rs.system_prompt@
                == trim(input.system_prompt@) && rs.world_rules@ == input.world_rules@ && !rs.is_builtin
                && rs.created_at@ == now@,
        },
{
    match input.validate() {
        Ok(()) => {},
        Err(e) => return Err(e),
    }
    Ok(Ruleset {
        id,
        name: String::from_str(trim_str(input.name.as_str())),
        system_prompt: String::from_str(trim_str(input.system_prompt.as_str())),
        world_rules: input.world_rules,
        is_builtin: false,
        created_at: now,
    })
}

/// Build a new custom ruleset with a fresh id and the current time.
pub fn prepare_ruleset(input: NewRuleset) -> (r: Result<Ruleset>)
    ensures
        match input_error(input.name@, input.system_prompt@) {
            Some(msg) => r matches Err(e) && e is Domain && e.detail() == msg,
            None => r matches Ok(rs) && is_uuid_v4_text(rs.id@) && is_utc_rfc3339(rs.created_at@) && rs.name@ == trim(input.name@) && rs.system_prompt@
                == trim(input.system_prompt@) && rs.world_rules@ == input.world_rules@ && !rs.is_builtin,
        },
{
    match input.validate() {
        Ok(()) => {},
        Err(e) => return Err(e),
    }
    ruleset_from_input(input, new_id(), now_rfc3339())
}

/// Apply an update to a stored ruleset. Built-ins are immutable: they give
/// `None`; a custom ruleset gets the new trimmed fields and keeps its id and
/// creation time.
pub fn updated_ruleset(existing: Ruleset, input: UpdateRuleset) -> (r: Result<Option<Ruleset>>)
    ensures
        match input_error(input.name@, input.system_prompt@) {
            Some(msg) => r matches Err(e) && e is Domain && e.detail() == msg,
            None => if existing.is_builtin {
                r matches Ok(None)
            } else {
                r matches Ok(Some(rs)) && rs.id@ == existing.id@ && rs.name@ == trim(input.name@)
                    && rs.system_prompt@ == trim(input.system_prompt@) && rs.world_rules@ == input.world_rules@
                    && !rs.is_builtin && rs.created_at@ == existing.created_at@
            },
        },
{
    match input.validate() {
        Ok(()) => {},
        Err(e) => return Err(e),
    }
    if existing.is_builtin {
        return Ok(None);
    }
    Ok(Some(Ruleset {
        id: existing.id,
        name: String::from_str(trim_str(input.name.as_str())),
        system_prompt: String::from_str(trim_str(input.system_prompt.as_str())),
        world_rules: input.world_rules,
        is_builtin: false,
        created_at: existing.created_at,
    }))
}

/// The first built-in ruleset of a listing, if any.
pub fn first_builtin(rulesets: &Vec<Ruleset>) -> (r: Option<usize>)
    ensures
        match r {
            Some(i) => i < rulesets@.len() && rulesets@[i as int].is_builtin && forall|j: int|
                0 <= j < i ==> !(#[trigger] rulesets@[j]).is_builtin,
            None => forall|j: int| 0 <= j < rulesets@.len() ==> !(#[trigger] rulesets@[j]).is_builtin,
        },
{
    let mut i: usize = 0;
    while i < rulesets.len()
        invariant
            i <= rulesets@.len(),
            forall|j: int| 0 <= j < i ==> !(#[trigger] rulesets@[j]).is_builtin,
        decreases rulesets@.len() - i,
    {
        if rulesets[i].is_builtin {
            return Some(i);
        }
        i = i + 1;
    }
    None
}

} // verus!

//! The game-command seam: how the GM mutates the world.
//!
//! Commands are the only sanctioned way for the model to change game state.
//! A command validates its arguments and returns its result plus a journal of
//! [`StateMutation`]s; the turn flow applies the journal and audits it, so
//! commands never touch storage themselves.

use vstd::prelude::*;

use crate::errors::Result;
use crate::json::JsonValue;
use crate::llm::ToolSchema;

verus! {

/// A mutation a command wants to apply. The turn flow is the only applier.
#[derive(Debug)]
pub enum StateMutation {
    /// Set one key in the campaign's world-state document.
    SetWorldKey { key: String, value: JsonValue },
    /// Add a character (player persona or NPC) to the campaign's roster.
    CreateCharacter { name: String, bio: String, is_player: bool, stats: JsonValue },
}

/// Read-only execution context handed to a command.
#[derive(Debug)]
pub struct CommandContext {
    /// The campaign this turn belongs to.
    pub campaign_id: String,
    /// Snapshot of the world-state document at turn start.
    pub world: JsonValue,
    /// Journal of mutations the command wants applied.
    pub mutations: Vec<StateMutation>,
}

/// A single in-world action the GM can call, e.g. dice or world update.
pub trait GameCommand {
    /// Stable tool name the model uses to call it.
    fn id(&self) -> &str;

    /// One-line description shown to the model so it knows when to call it.
    fn description(&self) -> &str;

    /// JSON Schema of the arguments the command accepts.
    fn schema(&self) -> ToolSchema;

    /// Execute the command. Returns a JSON result for the model and pushes any
    /// mutations into `context.mutations`.
    fn execute(&self, arguments: JsonValue, context: &mut CommandContext) -> Result<JsonValue>;
}

} // verus!

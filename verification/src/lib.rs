//! Roleplayer: the verified core of an LLM-ruled text roleplay runtime.

pub mod text;
pub mod ids;
pub mod errors;
pub mod turnflow;
pub mod json;
pub mod llm;
pub mod game_command;
pub mod characters;
pub mod campaigns;
pub mod rulesets;
pub mod memories;
pub mod world_state;
pub mod providers;
pub mod search;

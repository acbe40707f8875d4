//! Turn orchestration rules: the agentic GM loop that powers a single turn.
//!
//! A turn persists the player's line, builds the provider conversation
//! (system prompt, recent history, the fresh line), then alternates provider
//! calls and tool executions until the GM answers with prose, the turn is
//! cancelled, or the tool-iteration cap is hit. The library decides every
//! step; the caller performs the I/O between them.

use vstd::prelude::*;
use vstd::string::*;

use crate::characters::Character;
use crate::errors::{AppError, Result};
use crate::ids::{is_utc_rfc3339, is_uuid_v4_text, new_id, now_rfc3339};
use crate::json::{member, object2, str_model, JsonModel, JsonValue};
use crate::llm::{
    block_text, duplicate_blocks, join, join_texts, same_blocks, texts_of, ChatMessage,
    ContentBlock, MessageMode, Role,
};
use crate::game_command::{CommandContext, GameCommand, StateMutation};
use crate::llm::{Capabilities, ToolSchema};
use crate::providers::openai::tool_calls_of;
use crate::rulesets::{first_builtin, Ruleset};
use crate::turnflow::domain::{
    dice_command_result, dice_description, dice_schema_model, update_world_description,
    update_world_effect, update_world_schema_model, DiceCommand, UpdateWorldCommand,
};
use crate::text::{str_eq, trim, trim_str};

verus! {

/// How many transcript rows the context window includes.
pub const HISTORY_WINDOW: i64 = 40;

/// Maximum provider round-trips in one turn, so a misbehaving model cannot
/// loop forever and burn tokens.
pub const MAX_TOOL_ITERATIONS: usize = 5;

/// A transcript row, in the provider-agnostic shape the UI and IPC use.
#[derive(Debug)]
pub struct MessageDto {
    /// Server-generated UUID; the persistence key of the row.
    pub id: String,
    pub campaign_id: String,
    /// Which side produced the row: user, assistant (GM), or tool result.
    pub role: Role,
    /// Typed content blocks.
    pub content: Vec<ContentBlock>,
    /// For player rows: dialogue (speech) or narration (action). GM and
    /// tool rows store `Action` and never read it.
    pub mode: MessageMode,
    /// The model that produced the row; `None` for user rows.
    pub model: Option<String>,
    /// Monotonic per-campaign sequence number; orders the transcript.
    pub turn_index: i64,
    /// RFC3339 timestamp of when the row was created.
    pub created_at: String,
}

impl MessageDto {
    /// A plain text-only row (the user's typed action or speech).
    pub fn text(campaign_id: &str, role: Role, text: &str, mode: MessageMode, turn_index: i64) -> (m: MessageDto)
        ensures
            is_uuid_v4_text(m.id@),
            is_utc_rfc3339(m.created_at@),
            m.campaign_id@ == campaign_id@,
            m.role == role,
            m.content@.len() == 1,
            block_text(m.content@[0]) == Some(text@),
            m.mode == mode,
            m.model is None,
            m.turn_index == turn_index,
    {
        let mut content: Vec<ContentBlock> = Vec::new();
        content.push(ContentBlock::Text { text: String::from_str(text) });
        MessageDto {
            id: new_id(),
            campaign_id: String::from_str(campaign_id),
            role,
            content,
            mode,
            model: None,
            turn_index,
            created_at: now_rfc3339(),
        }
    }

    /// Wrap a provider assistant message with model and turn metadata.
    pub fn from_assistant(campaign_id: &str, message: &ChatMessage, model: &str, turn_index: i64) -> (m:
        MessageDto)
        ensures
            is_uuid_v4_text(m.id@),
            is_utc_rfc3339(m.created_at@),
            m.campaign_id@ == campaign_id@,
            m.role == message.role,
            same_blocks(m.content@, message.content@),
            m.mode == MessageMode::Action,
            m.model matches Some(s) && s@ == model@,
            m.turn_index == turn_index,
    {
        MessageDto {
            id: new_id(),
            campaign_id: String::from_str(campaign_id),
            role: message.role,
            content: duplicate_blocks(&message.content),
            mode: MessageMode::Action,
            model: Some(String::from_str(model)),
            turn_index,
            created_at: now_rfc3339(),
        }
    }

    /// The row answering tool call `call_id` with `result`.
    pub fn tool_result(campaign_id: &str, call_id: &str, result: JsonValue, model: &str, turn_index: i64) -> (m:
        MessageDto)
        ensures
            is_uuid_v4_text(m.id@),
            is_utc_rfc3339(m.created_at@),
            m.campaign_id@ == campaign_id@,
            m.role == Role::Tool,
            m.content@.len() == 1,
            m.content@[0] matches ContentBlock::ToolResult { id, result: r } && id@ == call_id@ && r@ == result@,
            m.mode == MessageMode::Action,
            m.model matches Some(s) && s@ == model@,
            m.turn_index == turn_index,
    {
        let mut content: Vec<ContentBlock> = Vec::new();
        content.push(ContentBlock::ToolResult { id: String::from_str(call_id), result });
        MessageDto {
            id: new_id(),
            campaign_id: String::from_str(campaign_id),
            role: Role::Tool,
            content,
            mode: MessageMode::Action,
            model: Some(String::from_str(model)),
            turn_index,
            created_at: now_rfc3339(),
        }
    }
}

/// A turn that is prepared but not yet executed: the persisted user row
/// waits to be replayed into the loop when the turn runs.
#[derive(Debug)]
pub struct PreparedTurn {
    pub campaign_id: String,
    pub turn_index: i64,
    pub user_message: MessageDto,
}

impl PreparedTurn {
    /// The turn of a freshly persisted user message.
    pub fn new(user_message: MessageDto) -> (t: PreparedTurn)
        ensures
            t.campaign_id@ == user_message.campaign_id@,
            t.turn_index == user_message.turn_index,
            t.user_message == user_message,
    {
        PreparedTurn {
            campaign_id: user_message.campaign_id.clone(),
            turn_index: user_message.turn_index,
            user_message,
        }
    }
}

/// The turn index after the latest stored one; `None` when the latest is
/// already the largest index there can be.
pub fn next_turn_index(latest: i64) -> (r: Option<i64>)
    ensures
        latest < i64::MAX ==> r == Some((latest + 1) as i64),
        latest == i64::MAX ==> r is None,
{
    latest.checked_add(1)
}

/// The user row of a new turn: the trimmed text, as a user message.
pub fn user_turn_message(campaign_id: &str, text: &str, mode: MessageMode, turn_index: i64) -> (m: MessageDto)
    ensures
        is_uuid_v4_text(m.id@),
        is_utc_rfc3339(m.created_at@),
        m.campaign_id@ == campaign_id@,
        m.role == Role::User,
        m.content@.len() == 1,
        block_text(m.content@[0]) == Some(trim(text@)),
        m.mode == mode,
        m.model is None,
        m.turn_index == turn_index,
{
    MessageDto::text(campaign_id, Role::User, trim_str(text), mode, turn_index)
}

/// How a player line reaches the GM: speech is quoted dialogue, action is a
/// narrated deed; the verb conjugates for the "You" fallback.
pub open spec fn user_line(character_name: Seq<char>, mode: MessageMode, text: Seq<char>) -> Seq<char> {
    match mode {
        MessageMode::Speech => if character_name == "You"@ {
            "You say: \""@ + text + "\""@
        } else {
            character_name + " says: \""@ + text + "\""@
        },
        MessageMode::Action => if character_name == "You"@ {
            "You act: "@ + text
        } else {
            character_name + " acts: "@ + text
        },
    }
}

/// `chat` is the provider message for the stored row `row`: a player row
/// becomes one text block holding its prefixed line (its text blocks joined
/// by newlines), any other row keeps its role and blocks.
pub open spec fn chat_of(character_name: Seq<char>, row: MessageDto, chat: ChatMessage) -> bool {
    if row.role == Role::User {
        &&& chat.role == Role::User
        &&& chat.content@.len() == 1
        &&& block_text(chat.content@[0]) == Some(
            user_line(character_name, row.mode, join(texts_of(row.content@), "\n"@)),
        )
    } else {
        chat.role == row.role && same_blocks(chat.content@, row.content@)
    }
}

/// Convert a stored transcript row into a provider chat message.
pub fn to_chat_message(character_name: &str, message: &MessageDto) -> (chat: ChatMessage)
    ensures
        chat_of(character_name@, *message, chat),
{
    if message.role != Role::User {
        return ChatMessage { role: message.role, content: duplicate_blocks(&message.content) };
    }
    let text = join_texts(&message.content, "\n");
    let is_you = str_eq(character_name, "You");
    let line = match message.mode {
        MessageMode::Speech => {
            if is_you {
                let mut l = String::from_str("You say: \"");
                l.append(text.as_str());
                l.append("\"");
                l
            } else {
                let mut l = String::from_str(character_name);
                l.append(" says: \"");
                l.append(text.as_str());
                l.append("\"");
                l
            }
        },
        MessageMode::Action => {
            if is_you {
                let mut l = String::from_str("You act: ");
                l.append(text.as_str());
                l
            } else {
                let mut l = String::from_str(character_name);
                l.append(" acts: ");
                l.append(text.as_str());
                l
            }
        },
    };
    ChatMessage::text(Role::User, line)
}

/// Convert a persisted tool-result row back into a provider chat message.
pub fn tool_message_to_chat(message: &MessageDto) -> (chat: ChatMessage)
    ensures
        chat.role == Role::Tool,
        same_blocks(chat.content@, message.content@),
{
    ChatMessage { role: Role::Tool, content: duplicate_blocks(&message.content) }
}

/// The name player lines are prefixed with: the first player character's,
/// or "You" before a persona exists.
pub open spec fn persona_name(characters: Seq<Character>) -> Seq<char>
    decreases characters.len(),
{
    if characters.len() == 0 {
        "You"@
    } else if characters[0].is_player {
        characters[0].name@
    } else {
        persona_name(characters.drop_first())
    }
}

proof fn lemma_persona_skip(characters: Seq<Character>, i: int)
    requires
        0 <= i <= characters.len(),
        forall|j: int| 0 <= j < i ==> !(#[trigger] characters[j]).is_player,
    ensures
        persona_name(characters) == persona_name(characters.subrange(i, characters.len() as int)),
    decreases i,
{
    if i == 0 {
        assert(characters.subrange(0, characters.len() as int) =~= characters);
    } else {
        let t = characters.drop_first();
        assert(!characters[0].is_player);
        assert forall|j: int| 0 <= j < i - 1 implies !(#[trigger] t[j]).is_player by {
            assert(t[j] == characters[j + 1]);
        }
        lemma_persona_skip(t, i - 1);
        assert(t.subrange(i - 1, t.len() as int) =~= characters.subrange(i, characters.len() as int));
    }
}

/// The player persona's name, or "You".
pub fn character_name_of(characters: &Vec<Character>) -> (name: &str)
    ensures
        name@ == persona_name(characters@),
{
    let mut i: usize = 0;
    while i < characters.len()
        invariant
            i <= characters@.len(),
            forall|j: int| 0 <= j < i ==> !(#[trigger] characters@[j]).is_player,
        decreases characters@.len() - i,
    {
        if characters[i].is_player {
            proof {
                lemma_persona_skip(characters@, i as int);
                assert(characters@.subrange(i as int, characters@.len() as int)[0] == characters@[i as int]);
            }
            return characters[i].name.as_str();
        }
        i = i + 1;
    }
    proof {
        lemma_persona_skip(characters@, i as int);
    }
    "You"
}

/// The history rows that stay in the conversation: all but the fresh user
/// row, which is appended last on its own.
pub open spec fn kept_history(history: Seq<MessageDto>, user_id: Seq<char>) -> Seq<MessageDto>
    decreases history.len(),
{
    if history.len() == 0 {
        Seq::empty()
    } else {
        let rest = kept_history(history.drop_last(), user_id);
        if history.last().id@ == user_id {
            rest
        } else {
            rest.push(history.last())
        }
    }
}

/// The history a turn's conversation keeps is the transcript without the
/// fresh user row: every other row kept exactly once and in transcript
/// order (oldest first), so the rows of two consecutive stretches of
/// history come out as those of the first followed by those of the second.
pub proof fn law_history_keeps_transcript_order(a: Seq<MessageDto>, b: Seq<MessageDto>, user_id: Seq<char>)
    ensures
        kept_history(a, user_id) == a.filter(|m: MessageDto| m.id@ != user_id),
        kept_history(a + b, user_id) == kept_history(a, user_id) + kept_history(b, user_id),
    decreases a.len() + b.len(),
{
    reveal(Seq::filter);
    if a.len() > 0 {
        law_history_keeps_transcript_order(a.drop_last(), Seq::empty(), user_id);
    }
    if b.len() == 0 {
        assert(a + b =~= a);
        assert(kept_history(b, user_id) =~= Seq::<MessageDto>::empty());
        assert(kept_history(a, user_id) + Seq::<MessageDto>::empty() =~= kept_history(a, user_id));
    } else {
        law_history_keeps_transcript_order(a, b.drop_last(), user_id);
        assert((a + b).drop_last() =~= a + b.drop_last());
        assert((a + b).last() == b.last());
        if b.last().id@ != user_id {
            assert((kept_history(a, user_id) + kept_history(b.drop_last(), user_id)).push(b.last())
                =~= kept_history(a, user_id) + kept_history(b.drop_last(), user_id).push(b.last()));
        }
    }
}

/// Build the provider conversation: the system message, then the history
/// (oldest first, the fresh row skipped), then the fresh user row last.
pub fn build_context(system: ChatMessage, history: &Vec<MessageDto>, user_message: &MessageDto, character_name: &str) -> (r:
    Vec<ChatMessage>)
    ensures
        r@.len() == kept_history(history@, user_message.id@).len() + 2,
        r@[0] == system,
        forall|i: int|
            0 <= i < kept_history(history@, user_message.id@).len() ==> chat_of(
                character_name@,
                #[trigger] kept_history(history@, user_message.id@)[i],
                r@[i + 1],
            ),
        chat_of(character_name@, *user_message, r@.last()),
        r@.len() == history@.filter(|m: MessageDto| m.id@ != user_message.id@).len() + 2,
        forall|j: int|
            1 <= j <= history@.filter(|m: MessageDto| m.id@ != user_message.id@).len() ==> chat_of(
                character_name@,
                history@.filter(|m: MessageDto| m.id@ != user_message.id@)[j - 1],
                #[trigger] r@[j],
            ),
{
    let ghost user_id = user_message.id@;
    proof {
        law_history_keeps_transcript_order(history@, Seq::empty(), user_id);
        let p1 = |m: MessageDto| m.id@ != user_message.id@;
        let p2 = |m: MessageDto| m.id@ != user_id;
        assert(p1 =~= p2);
        assert(history@.filter(p1) == kept_history(history@, user_id));
    }
    let mut context: Vec<ChatMessage> = Vec::new();
    context.push(system);
    let mut i: usize = 0;
    while i < history.len()
        invariant
            user_id == user_message.id@,
            i <= history@.len(),
            context@.len() == kept_history(history@.subrange(0, i as int), user_id).len() + 1,
            context@[0] == system,
            forall|j: int|
                0 <= j < kept_history(history@.subrange(0, i as int), user_id).len() ==> chat_of(
                    character_name@,
                    #[trigger] kept_history(history@.subrange(0, i as int), user_id)[j],
                    context@[j + 1],
                ),
        decreases history@.len() - i,
    {
        let ghost kept = kept_history(history@.subrange(0, i as int), user_id);
        proof {
            assert(history@.subrange(0, i + 1).drop_last() =~= history@.subrange(0, i as int));
            assert(history@.subrange(0, i + 1).last() == history@[i as int]);
        }
        if !str_eq(history[i].id.as_str(), user_message.id.as_str()) {
            let ghost before = context@;
            context.push(to_chat_message(character_name, &history[i]));
            proof {
                let kept2 = kept_history(history@.subrange(0, i + 1), user_id);
                assert(kept2 == kept.push(history@[i as int]));
                assert forall|j: int| 0 <= j < kept2.len() implies chat_of(
                    character_name@,
                    #[trigger] kept2[j],
                    context@[j + 1],
                ) by {
                    if j < kept.len() {
                        assert(kept2[j] == kept[j]);
                        assert(context@[j + 1] == before[j + 1]);
                    }
                }
            }
        }
        i = i + 1;
    }
    proof {
        assert(history@.subrange(0, history@.len() as int) =~= history@);
    }
    context.push(to_chat_message(character_name, user_message));
    context
}

/// The ruleset a turn runs under: the campaign's own when it names one
/// (which must exist), else the first built-in ruleset.
pub fn resolve_ruleset(ruleset_id: Option<&str>, bound: Option<Ruleset>, listed: Vec<Ruleset>) -> (r: Result<Ruleset>)
    ensures
        match ruleset_id {
            Some(id) => match bound {
                Some(b) => r matches Ok(x) && x == b,
                None => r matches Err(e) && e is Domain && e.detail() == "ruleset not found: "@ + id@,
            },
            None => match r {
                Ok(x) => exists|i: int|
                    0 <= i < listed@.len() && listed@[i] == x && x.is_builtin && forall|j: int|
                        0 <= j < i ==> !(#[trigger] listed@[j]).is_builtin,
                Err(e) => e is Domain && e.detail() == "no ruleset configured for campaign"@ && forall|j: int|
                    0 <= j < listed@.len() ==> !(#[trigger] listed@[j]).is_builtin,
            },
        },
{
    match ruleset_id {
        Some(id) => match bound {
            Some(b) => Ok(b),
            None => Err(AppError::Domain(String::from_str("ruleset not found: ").concat(id))),
        },
        None => match first_builtin(&listed) {
            Some(i) => {
                let ghost before = listed@;
                let mut listed = listed;
                let chosen = listed.remove(i);
                proof {
                    assert(chosen == before[i as int]);
                }
                Ok(chosen)
            },
            None => Err(AppError::Domain(String::from_str("no ruleset configured for campaign"))),
        },
    }
}

/// One character of the roster shown to the GM, its stats rendered as JSON.
#[derive(Debug)]
pub struct RosterLine {
    pub name: String,
    pub is_player: bool,
    pub stats_json: String,
}

/// The roster bullet of a character: name, player/NPC tag, and stats.
pub open spec fn roster_line(line: RosterLine) -> Seq<char> {
    "- "@ + line.name@ + " ["@ + (if line.is_player {
        "player"@
    } else {
        "npc"@
    }) + "]: "@ + line.stats_json@
}

/// The roster bullets joined by newlines.
pub open spec fn roster_text(roster: Seq<RosterLine>) -> Seq<char> {
    join(roster.map_values(|l: RosterLine| roster_line(l)), "\n"@)
}

/// The reminder that only tool calls change the world.
pub open spec fn tools_reminder() -> Seq<char> {
    "\nRemember: narrative free text never changes the world. Only tool calls do."@
}

/// The explanation of the two player input modes.
pub open spec fn modes_explanation() -> Seq<char> {
    "\nPlayer lines are prefixed with their mode: '<name> says: \"...\"' is spoken dialogue (respond to it in character), '<name> acts: ...' is a narrated action (respond to the deed)."@
}

/// Whether a ruleset's house rules document says anything: it is neither
/// null nor an empty object or array.
pub open spec fn has_house_rules(rules: JsonModel) -> bool {
    match rules {
        JsonModel::Null => false,
        JsonModel::Object(members) => members.len() > 0,
        JsonModel::Array(items) => items.len() > 0,
        _ => true,
    }
}

/// Whether the house rules document says anything.
pub fn house_rules_present(rules: &JsonValue) -> (b: bool)
    ensures
        b == has_house_rules(rules@),
{
    match rules {
        JsonValue::Null => false,
        JsonValue::Object(members) => members.len() > 0,
        JsonValue::Array(items) => items.len() > 0,
        _ => true,
    }
}

/// The house rules section of the system prompt, empty without rules.
pub open spec fn rules_section(rules: Option<Seq<char>>) -> Seq<char> {
    match rules {
        Some(r) => "\n"@ + ("\n## HOUSE RULES\n"@ + r),
        None => Seq::empty(),
    }
}

fn append_rules_section(text: &mut String, ruleset: &Ruleset, rules_json: &str)
    ensures
        final(text)@ == old(text)@ + rules_section(prompt_rules(*ruleset, rules_json@)),
{
    if house_rules_present(&ruleset.world_rules) {
        text.append("\n");
        text.append("\n## HOUSE RULES\n");
        text.append(rules_json);
        proof {
            assert(text@ =~= old(text)@ + rules_section(prompt_rules(*ruleset, rules_json@)));
        }
    } else {
        proof {
            assert(text@ =~= old(text)@ + rules_section(prompt_rules(*ruleset, rules_json@)));
        }
    }
}

/// The system prompt: the ruleset's prompt, the world state as ground
/// truth, the house rules (when there are any, as their rendered JSON), the
/// roster (when there is one), the available tools, and the two reminders,
/// as sections joined by newlines.
pub open spec fn system_prompt_text(
    prompt: Seq<char>,
    world: Seq<char>,
    rules: Option<Seq<char>>,
    roster: Seq<RosterLine>,
) -> Seq<char> {
    prompt + "\n"@ + ("\n## CURRENT WORLD STATE (this is the truth)\n"@ + world) + rules_section(rules) + (if roster.len() > 0 {
        "\n"@ + ("\n## CHARACTERS\n"@ + roster_text(roster))
    } else {
        Seq::empty()
    }) + "\n"@ + "\n## AVAILABLE TOOLS (use them to change the world)"@ + "\n"@ + ("- "@ + "dice"@ + ": "@
        + dice_description()) + "\n"@ + ("- "@ + "update_world"@ + ": "@ + update_world_description()) + "\n"@
        + tools_reminder() + "\n"@ + modes_explanation()
}

fn roster_join(roster: &Vec<RosterLine>) -> (r: String)
    requires
        roster@.len() > 0,
    ensures
        r@ == roster_text(roster@),
{
    let ghost parts = roster@.map_values(|l: RosterLine| roster_line(l));
    let mut out = String::new();
    let mut k: usize = 0;
    while k < roster.len()
        invariant
            parts == roster@.map_values(|l: RosterLine| roster_line(l)),
            k <= roster@.len(),
            out@ == join(parts.subrange(0, k as int), "\n"@),
        decreases roster@.len() - k,
    {
        proof {
            assert(parts.subrange(0, k + 1).drop_last() =~= parts.subrange(0, k as int));
            assert(parts[k as int] == roster_line(roster@[k as int]));
            if k == 0 {
                assert(parts.subrange(0, 1) =~= seq![parts[0]]);
                assert(out@ =~= Seq::<char>::empty());
            }
        }
        let line = &roster[k];
        if k > 0 {
            out.append("\n");
        }
        let ghost before = out@;
        out.append("- ");
        out.append(line.name.as_str());
        out.append(" [");
        if line.is_player {
            out.append("player");
        } else {
            out.append("npc");
        }
        out.append("]: ");
        out.append(line.stats_json.as_str());
        proof {
            assert(out@ =~= before + roster_line(roster@[k as int]));
        }
        k = k + 1;
    }
    proof {
        assert(parts.subrange(0, roster@.len() as int) =~= parts);
    }
    out
}

/// The house rules text that goes into the prompt: the rendered document
/// when the ruleset has any rules.
pub open spec fn prompt_rules(ruleset: Ruleset, rules_json: Seq<char>) -> Option<Seq<char>> {
    if has_house_rules(ruleset.world_rules@) {
        Some(rules_json)
    } else {
        None
    }
}

/// Assemble the system message for a ruleset, the rendered world state, the
/// rendered house rules document of the ruleset and the roster.
pub fn build_system_message(
    ruleset: &Ruleset,
    world_json: &str,
    rules_json: &str,
    roster: &Vec<RosterLine>,
) -> (m: ChatMessage)
    ensures
        m.role == Role::System,
        m.content@.len() == 1,
        block_text(m.content@[0]) == Some(
            system_prompt_text(ruleset.system_prompt@, world_json@, prompt_rules(*ruleset, rules_json@), roster@),
        ),
{
    let mut text = ruleset.system_prompt.clone();
    text.append("\n");
    text.append("\n## CURRENT WORLD STATE (this is the truth)\n");
    text.append(world_json);
    append_rules_section(&mut text, ruleset, rules_json);
    if roster.len() > 0 {
        let listing = roster_join(roster);
        text.append("\n");
        text.append("\n## CHARACTERS\n");
        text.append(listing.as_str());
    }
    text.append("\n");
    text.append("\n## AVAILABLE TOOLS (use them to change the world)");
    text.append("\n");
    text.append("- ");
    text.append(DiceCommand.id());
    text.append(": ");
    text.append(DiceCommand.description());
    text.append("\n");
    text.append("- ");
    text.append(UpdateWorldCommand.id());
    text.append(": ");
    text.append(UpdateWorldCommand.description());
    text.append("\n");
    text.append("\nRemember: narrative free text never changes the world. Only tool calls do.");
    text.append("\n");
    text.append(
        "\nPlayer lines are prefixed with their mode: '<name> says: \"...\"' is spoken dialogue (respond to it in character), '<name> acts: ...' is a narrated action (respond to the deed).",
    );
    proof {
        assert(text@ =~= system_prompt_text(
            ruleset.system_prompt@,
            world_json@,
            prompt_rules(*ruleset, rules_json@),
            roster@,
        ));
    }
    ChatMessage::text(Role::System, text)
}

/// `tools` are the tools a turn offers: the dice roll and the world update
/// when the provider supports tool use, none otherwise.
pub open spec fn offers_tools(tool_use: bool, tools: Seq<ToolSchema>) -> bool {
    &&& tool_use ==> {
        &&& tools.len() == 2
        &&& tools[0].name@ == "dice"@
        &&& tools[0].description@ == dice_description()
        &&& tools[0].parameters@ == dice_schema_model()
        &&& tools[1].name@ == "update_world"@
        &&& tools[1].description@ == update_world_description()
        &&& tools[1].parameters@ == update_world_schema_model()
    }
    &&& !tool_use ==> tools.len() == 0
}

/// The tools offered to the model: the dice roll and the world update when
/// the provider supports tool use, none otherwise.
pub fn offered_tools(tool_use: bool) -> (tools: Vec<ToolSchema>)
    ensures
        offers_tools(tool_use, tools@),
{
    let mut tools: Vec<ToolSchema> = Vec::new();
    if tool_use {
        tools.push(DiceCommand.schema());
        tools.push(UpdateWorldCommand.schema());
    }
    tools
}

/// The output cap of a turn's completions: what the provider advertises,
/// as the request's 32-bit field holds it.
pub fn turn_max_tokens(capabilities: &Capabilities) -> (r: u32)
    ensures
        r == capabilities.max_output_tokens as u32,
{
    #[verifier::truncate]
    (capabilities.max_output_tokens as u32)
}

/// A turn's completion request, the model and the conversation aside: the
/// tools offered, the output cap and whether to stream, each following what
/// the provider can do.
#[derive(Debug)]
pub struct TurnRequestShape {
    pub tools: Vec<ToolSchema>,
    pub max_tokens: u32,
    pub stream: bool,
}

/// The shape of a turn's requests to a provider with `capabilities`: tools
/// only with tool use, the advertised output cap, streaming only when the
/// provider streams.
pub fn turn_request_shape(capabilities: &Capabilities) -> (r: TurnRequestShape)
    ensures
        offers_tools(capabilities.tool_use, r.tools@),
        r.max_tokens == capabilities.max_output_tokens as u32,
        r.stream == capabilities.streaming,
{
    TurnRequestShape {
        tools: offered_tools(capabilities.tool_use),
        max_tokens: turn_max_tokens(capabilities),
        stream: capabilities.streaming,
    }
}

/// How many tool calls an assistant message requests.
pub fn tool_call_count(message: &ChatMessage) -> (n: usize)
    ensures
        n == tool_calls_of(message.content@).len(),
{
    let mut n: usize = 0;
    let mut i: usize = 0;
    while i < message.content.len()
        invariant
            i <= message.content@.len(),
            n == tool_calls_of(message.content@.subrange(0, i as int)).len(),
            n <= i,
        decreases message.content@.len() - i,
    {
        proof {
            assert(message.content@.subrange(0, i + 1).drop_last() =~= message.content@.subrange(0, i as int));
        }
        match &message.content[i] {
            ContentBlock::ToolCall { .. } => {
                n = n + 1;
            },
            _ => {},
        }
        i = i + 1;
    }
    proof {
        assert(message.content@.subrange(0, message.content@.len() as int) =~= message.content@);
    }
    n
}

/// A tool call to execute: the call id, the tool and its arguments.
#[derive(Debug)]
pub struct ToolInvocation {
    pub id: String,
    pub tool: String,
    pub arguments: JsonValue,
}

/// The views of a list of invocations.
pub open spec fn invocations_view(calls: Seq<ToolInvocation>) -> Seq<(Seq<char>, Seq<char>, JsonModel)> {
    calls.map_values(|c: ToolInvocation| (c.id@, c.tool@, c.arguments@))
}

/// The tool calls of an assistant message, in order.
pub fn tool_invocations(message: &ChatMessage) -> (r: Vec<ToolInvocation>)
    ensures
        invocations_view(r@) == tool_calls_of(message.content@),
{
    let blocks = &message.content;
    let mut calls: Vec<ToolInvocation> = Vec::new();
    let mut i: usize = 0;
    while i < blocks.len()
        invariant
            blocks@ == message.content@,
            i <= blocks@.len(),
            invocations_view(calls@) == tool_calls_of(blocks@.subrange(0, i as int)),
        decreases blocks@.len() - i,
    {
        proof {
            assert(blocks@.subrange(0, i + 1).drop_last() =~= blocks@.subrange(0, i as int));
        }
        match &blocks[i] {
            ContentBlock::ToolCall { id, tool, arguments } => {
                calls.push(ToolInvocation { id: id.clone(), tool: tool.clone(), arguments: arguments.duplicate() });
                proof {
                    assert(invocations_view(calls@) =~= tool_calls_of(blocks@.subrange(0, i + 1)));
                }
            },
            _ => {
                proof {
                    assert(invocations_view(calls@) =~= tool_calls_of(blocks@.subrange(0, i + 1)));
                }
            },
        }
        i = i + 1;
    }
    proof {
        assert(blocks@.subrange(0, blocks@.len() as int) =~= blocks@);
    }
    calls
}

/// The registered command a tool name selects: 0 for the dice roll, 1 for
/// the world update, none for any other name.
pub open spec fn command_index(tool: Seq<char>) -> Option<int> {
    if tool == "dice"@ {
        Some(0)
    } else if tool == "update_world"@ {
        Some(1)
    } else {
        None
    }
}

/// Whether a command is registered under a tool name.
pub fn is_registered_tool(tool: &str) -> (r: bool)
    ensures
        r == command_index(tool@) is Some,
{
    str_eq(tool, "dice") || str_eq(tool, "update_world")
}

/// What running a tool call gives and does to the mutation journal: the
/// dice roll's result with the journal untouched, the world update's
/// effect, or nothing at all for an unregistered name.
pub open spec fn tool_outcome(
    tool: Seq<char>,
    arguments: JsonModel,
    r: Option<Result<JsonValue>>,
    before: Seq<StateMutation>,
    after: Seq<StateMutation>,
) -> bool {
    match command_index(tool) {
        Some(i) => if i == 0 {
            r matches Some(res) && dice_command_result(arguments, res) && after == before
        } else {
            r matches Some(res) && update_world_effect(arguments, res, before, after)
        },
        None => r is None && after == before,
    }
}

/// Run the command a tool call names; `None` when no command has that name
/// (the context is then untouched).
pub fn execute_tool(tool: &str, arguments: JsonValue, context: &mut CommandContext) -> (r: Option<Result<JsonValue>>)
    ensures
        tool_outcome(tool@, arguments@, r, old(context).mutations@, final(context).mutations@),
{
    if str_eq(tool, "dice") {
        Some(DiceCommand.execute(arguments, context))
    } else if str_eq(tool, "update_world") {
        Some(UpdateWorldCommand.execute(arguments, context))
    } else {
        None
    }
}

/// The failure payload a tool result carries: `{"ok": false, "error"}`.
pub open spec fn failure_model(message: Seq<char>) -> JsonModel {
    JsonModel::Object(seq![("ok"@, JsonModel::Bool(false)), ("error"@, str_model(message))])
}

/// What a tool call answers the model: the command's result, or a failure
/// naming the error (or the unknown tool).
pub open spec fn tool_result_model(outcome: Option<Result<JsonValue>>) -> JsonModel {
    match outcome {
        None => failure_model("unknown tool"@),
        Some(Ok(v)) => v@,
        Some(Err(e)) => failure_model(e.message_text()),
    }
}

fn failure_value(message: &str) -> (v: JsonValue)
    ensures
        v@ == failure_model(message@),
{
    object2(member("ok", JsonValue::Bool(false)), member("error", JsonValue::from_str_slice(message)))
}

/// The payload answering a tool call.
pub fn tool_result_value(outcome: Option<Result<JsonValue>>) -> (v: JsonValue)
    ensures
        v@ == tool_result_model(outcome),
{
    match outcome {
        None => failure_value("unknown tool"),
        Some(Ok(v)) => v,
        Some(Err(e)) => {
            let m = e.message();
            failure_value(m.as_str())
        },
    }
}

/// Whether a tool call succeeded, as the UI is told.
pub fn tool_call_ok(outcome: &Option<Result<JsonValue>>) -> (ok: bool)
    ensures
        ok == (outcome matches Some(Ok(_))),
{
    match outcome {
        Some(Ok(_)) => true,
        _ => false,
    }
}

/// Whether a tool call's world mutations are applied: only when the call
/// succeeded and asked for some.
pub fn should_apply_mutations(outcome: &Option<Result<JsonValue>>, mutations: &Vec<StateMutation>) -> (b: bool)
    ensures
        b == (outcome matches Some(Ok(_)) && mutations@.len() > 0),
{
    tool_call_ok(outcome) && mutations.len() > 0
}

/// `row` is the tool-result row answering the call `call_id` with `answer`.
pub open spec fn answers_call(
    row: MessageDto,
    call_id: Seq<char>,
    answer: JsonModel,
    campaign_id: Seq<char>,
    model: Seq<char>,
    turn_index: i64,
) -> bool {
    &&& row.campaign_id@ == campaign_id
    &&& row.role == Role::Tool
    &&& row.content@.len() == 1
    &&& row.content@[0] matches ContentBlock::ToolResult { id, result } && id@ == call_id && result@ == answer
    &&& row.mode == MessageMode::Action
    &&& row.model matches Some(s) && s@ == model
    &&& row.turn_index == turn_index
}

/// The tool-result rows answering a batch of tool calls, given each call's
/// outcome in the same order: one row per call, in the calls' order, each
/// answering its call's id with what the outcome reports (see
/// [`tool_result_model`]).
pub fn tool_result_rows(
    campaign_id: &str,
    calls: &Vec<ToolInvocation>,
    outcomes: Vec<Option<Result<JsonValue>>>,
    model: &str,
    turn_index: i64,
) -> (rows: Vec<MessageDto>)
    ensures
        rows@.len() == if calls@.len() <= outcomes@.len() {
            calls@.len()
        } else {
            outcomes@.len()
        },
        forall|i: int|
            0 <= i < rows@.len() ==> answers_call(
                #[trigger] rows@[i],
                calls@[i].id@,
                tool_result_model(outcomes@[i]),
                campaign_id@,
                model@,
                turn_index,
            ),
{
    let n = if calls.len() <= outcomes.len() {
        calls.len()
    } else {
        outcomes.len()
    };
    let ghost all = outcomes@;
    let mut rest = outcomes;
    let mut rows: Vec<MessageDto> = Vec::new();
    let mut i: usize = 0;
    while i < n
        invariant
            n <= calls@.len(),
            n <= all.len(),
            i <= n,
            rest@ == all.subrange(i as int, all.len() as int),
            rows@.len() == i,
            forall|k: int|
                0 <= k < i ==> answers_call(
                    #[trigger] rows@[k],
                    calls@[k].id@,
                    tool_result_model(all[k]),
                    campaign_id@,
                    model@,
                    turn_index,
                ),
        decreases n - i,
    {
        let outcome = rest.remove(0);
        proof {
            assert(outcome == all[i as int]);
            assert(rest@ =~= all.subrange(i + 1, all.len() as int));
        }
        let result = tool_result_value(outcome);
        let row = MessageDto::tool_result(campaign_id, calls[i].id.as_str(), result, model, turn_index);
        rows.push(row);
        i = i + 1;
    }
    rows
}

/// The synthetic tool message fed back when a whole batch of tool calls
/// failed, so the next provider call can react to the failure.
pub fn failed_tools_message(error: &AppError) -> (m: ChatMessage)
    ensures
        m.role == Role::Tool,
        m.content@.len() == 1,
        m.content@[0] matches ContentBlock::ToolResult { id, result } && is_uuid_v4_text(id@) && result@ == failure_model(
            error.message_text(),
        ),
{
    let m = error.message();
    let mut content: Vec<ContentBlock> = Vec::new();
    content.push(ContentBlock::ToolResult { id: new_id(), result: failure_value(m.as_str()) });
    ChatMessage { role: Role::Tool, content }
}

/// How a turn ends.
#[derive(Debug, Clone, Copy, PartialEq, Eq, Structural)]
pub enum TurnEnd {
    /// The GM answered with prose: the turn is complete.
    Complete,
    /// A cancel request landed: a quiet exit, no error.
    Cancelled,
    /// The tool loop hit its iteration cap: surfaced as a turn error.
    CapReached,
}

/// The next thing the loop does.
#[derive(Debug, Clone, Copy, PartialEq, Eq, Structural)]
pub enum LoopStep {
    /// Call the provider with the current conversation.
    CallProvider,
    /// Stop the loop.
    End(TurnEnd),
}

/// Where the loop stands: how many provider answers it has had, and whether
/// the last one was prose.
#[derive(Debug, Clone, Copy, PartialEq, Eq, Structural)]
pub struct TurnLoop {
    pub iterations: usize,
    pub finished: bool,
}

/// The loop's next step: a prose answer completes the turn, a cancel request
/// stops it quietly, the cap ends it, and otherwise the provider is called.
pub open spec fn step_of(l: TurnLoop, cancelled: bool) -> LoopStep {
    if l.finished {
        LoopStep::End(TurnEnd::Complete)
    } else if cancelled {
        LoopStep::End(TurnEnd::Cancelled)
    } else if l.iterations >= MAX_TOOL_ITERATIONS {
        LoopStep::End(TurnEnd::CapReached)
    } else {
        LoopStep::CallProvider
    }
}

/// The loop after a provider answer carrying `tool_calls` tool calls.
pub open spec fn after_response(l: TurnLoop, tool_calls: nat) -> TurnLoop {
    TurnLoop { iterations: (l.iterations + 1) as usize, finished: tool_calls == 0 }
}

impl TurnLoop {
    /// A loop that has not called the provider yet.
    pub fn start() -> (l: TurnLoop)
        ensures
            l.iterations == 0,
            !l.finished,
    {
        TurnLoop { iterations: 0, finished: false }
    }

    /// The next step, given whether a cancel request is pending.
    pub fn next_step(&self, cancelled: bool) -> (s: LoopStep)
        ensures
            s == step_of(*self, cancelled),
    {
        if self.finished {
            LoopStep::End(TurnEnd::Complete)
        } else if cancelled {
            LoopStep::End(TurnEnd::Cancelled)
        } else if self.iterations >= MAX_TOOL_ITERATIONS {
            LoopStep::End(TurnEnd::CapReached)
        } else {
            LoopStep::CallProvider
        }
    }

    /// Record a provider answer; only a call the loop asked for is recorded.
    pub fn record_response(&mut self, tool_calls: usize)
        requires
            step_of(*old(self), false) == LoopStep::CallProvider,
        ensures
            *final(self) == after_response(*old(self), tool_calls as nat),
    {
        self.iterations = self.iterations + 1;
        self.finished = tool_calls == 0;
    }
}

/// The error message a turn ending this way reports, if any.
pub fn turn_end_error(end: TurnEnd) -> (r: Option<&'static str>)
    ensures
        match end {
            TurnEnd::CapReached => r matches Some(m) && m@ == "tool loop exceeded its iteration cap"@,
            _ => r is None,
        },
{
    match end {
        TurnEnd::CapReached => Some("tool loop exceeded its iteration cap"),
        _ => None,
    }
}

/// The loop driven by a sequence of provider answers (tool call counts),
/// with no cancel request: it stops at the first step that is not a call.
pub open spec fn run_loop(l: TurnLoop, answers: Seq<nat>) -> TurnLoop
    decreases answers.len(),
{
    if answers.len() == 0 || step_of(l, false) != LoopStep::CallProvider {
        l
    } else {
        run_loop(after_response(l, answers[0]), answers.drop_first())
    }
}

proof fn lemma_run_loop_bounded(l: TurnLoop, answers: Seq<nat>)
    requires
        l.iterations <= MAX_TOOL_ITERATIONS,
    ensures
        run_loop(l, answers).iterations <= MAX_TOOL_ITERATIONS,
        answers.len() + l.iterations >= MAX_TOOL_ITERATIONS ==> step_of(run_loop(l, answers), false)
            != LoopStep::CallProvider,
    decreases answers.len(),
{
    if answers.len() > 0 && step_of(l, false) == LoopStep::CallProvider {
        lemma_run_loop_bounded(after_response(l, answers[0]), answers.drop_first());
    }
}

/// Whatever the model answers, a turn calls the provider at most
/// [`MAX_TOOL_ITERATIONS`] times, and after that many answers the loop has
/// stopped.
pub proof fn law_turn_loop_is_bounded(answers: Seq<nat>)
    ensures
        run_loop(TurnLoop { iterations: 0, finished: false }, answers).iterations <= MAX_TOOL_ITERATIONS,
        answers.len() >= MAX_TOOL_ITERATIONS ==> step_of(
            run_loop(TurnLoop { iterations: 0, finished: false }, answers),
            false,
        ) != LoopStep::CallProvider,
{
    lemma_run_loop_bounded(TurnLoop { iterations: 0, finished: false }, answers);
}

/// A turn completes exactly when the provider's latest answer carried no
/// tool call; an answer with tool calls keeps the loop going until the cap.
pub proof fn law_prose_answer_completes_turn(l: TurnLoop, tool_calls: nat, cancelled: bool)
    requires
        step_of(l, false) == LoopStep::CallProvider,
    ensures
        (step_of(after_response(l, tool_calls), cancelled) == LoopStep::End(TurnEnd::Complete)) <==> tool_calls == 0,
{
}

/// A pending cancel request stops an unfinished turn without an error.
pub proof fn law_cancel_is_quiet(l: TurnLoop)
    requires
        !l.finished,
    ensures
        step_of(l, true) == LoopStep::End(TurnEnd::Cancelled),
{
}

} // verus!

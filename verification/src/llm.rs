//! The model-agnostic message types every provider adapter speaks.

use vstd::prelude::*;
use vstd::string::*;

use crate::json::JsonValue;
use crate::text::str_eq;

verus! {

/// Who produced a message: the chat-API roles plus `Tool` for tool-call
/// round-trips inside the agentic GM loop.
#[derive(Debug, Clone, Copy, PartialEq, Eq, Structural)]
pub enum Role {
    System,
    User,
    Assistant,
    Tool,
}

/// The stable wire name of a role.
pub open spec fn role_wire(role: Role) -> Seq<char> {
    match role {
        Role::System => "system"@,
        Role::User => "user"@,
        Role::Assistant => "assistant"@,
        Role::Tool => "tool"@,
    }
}

/// The role a wire name denotes; unknown names are `User`.
pub open spec fn role_from_wire_text(value: Seq<char>) -> Role {
    if value == "system"@ {
        Role::System
    } else if value == "assistant"@ {
        Role::Assistant
    } else if value == "tool"@ {
        Role::Tool
    } else {
        Role::User
    }
}

impl Role {
    /// Stable wire name used in persistence and provider payloads.
    pub fn as_str(&self) -> (s: &'static str)
        ensures
            s@ == role_wire(*self),
    {
        match self {
            Role::System => "system",
            Role::User => "user",
            Role::Assistant => "assistant",
            Role::Tool => "tool",
        }
    }

    /// Inverse of [`Role::as_str`]; unknown strings are treated as `User` so
    /// malformed persisted rows degrade gracefully instead of failing hard.
    pub fn from_wire(value: &str) -> (r: Role)
        ensures
            r == role_from_wire_text(value@),
    {
        if str_eq(value, "system") {
            Role::System
        } else if str_eq(value, "assistant") {
            Role::Assistant
        } else if str_eq(value, "tool") {
            Role::Tool
        } else {
            Role::User
        }
    }
}

/// Reading back a role's wire name gives the role again.
pub proof fn lemma_role_wire_round_trip(role: Role)
    ensures
        role_from_wire_text(role_wire(role)) == role,
{
    reveal_strlit("system");
    reveal_strlit("user");
    reveal_strlit("assistant");
    reveal_strlit("tool");
    match role {
        Role::System => {},
        Role::User => {
            assert("user"@.len() != "system"@.len());
            assert("user"@.len() != "assistant"@.len());
            assert("user"@[0] != "tool"@[0]);
        },
        Role::Assistant => {
            assert("assistant"@.len() != "system"@.len());
        },
        Role::Tool => {
            assert("tool"@.len() != "system"@.len());
            assert("tool"@.len() != "assistant"@.len());
        },
    }
}

/// How a player line is meant: dialogue (`Speech`) or narrated deed
/// (`Action`).
#[derive(Debug, Clone, Copy, PartialEq, Eq, Structural)]
pub enum MessageMode {
    Action,
    Speech,
}

/// The stable wire name of a mode.
pub open spec fn mode_wire(mode: MessageMode) -> Seq<char> {
    match mode {
        MessageMode::Action => "action"@,
        MessageMode::Speech => "speech"@,
    }
}

impl MessageMode {
    /// Stable wire name used in persistence and IPC.
    pub fn as_str(&self) -> (s: &'static str)
        ensures
            s@ == mode_wire(*self),
    {
        match self {
            MessageMode::Action => "action",
            MessageMode::Speech => "speech",
        }
    }

    /// Inverse of [`MessageMode::as_str`]; anything but `"speech"` is an
    /// action.
    pub fn from_wire(value: &str) -> (m: MessageMode)
        ensures
            m == (if value@ == "speech"@ { MessageMode::Speech } else { MessageMode::Action }),
    {
        if str_eq(value, "speech") {
            MessageMode::Speech
        } else {
            MessageMode::Action
        }
    }
}

/// Reading back a mode's wire name gives the mode again.
pub proof fn lemma_mode_wire_round_trip(mode: MessageMode)
    ensures
        (if mode_wire(mode) == "speech"@ {
            MessageMode::Speech
        } else {
            MessageMode::Action
        }) == mode,
{
    reveal_strlit("action");
    reveal_strlit("speech");
    if mode == MessageMode::Action {
        assert("action"@[0] != "speech"@[0]);
    }
}

/// One unit of message content in the provider-agnostic shape.
#[derive(Debug)]
pub enum ContentBlock {
    /// Narrative text (GM prose, user actions, system directives).
    Text { text: String },
    /// A tool invocation requested by the model.
    ToolCall { id: String, tool: String, arguments: JsonValue },
    /// The outcome of a tool call, fed back to the model as a `Tool` message.
    ToolResult { id: String, result: JsonValue },
}

/// The text of a block, when it is a text block.
pub open spec fn block_text(block: ContentBlock) -> Option<Seq<char>> {
    match block {
        ContentBlock::Text { text } => Some(text@),
        _ => None,
    }
}

impl ContentBlock {
    /// Plain text of a text block; `None` for tool blocks.
    pub fn text(&self) -> (r: Option<&str>)
        ensures
            match r {
                Some(t) => block_text(*self) == Some(t@),
                None => block_text(*self) is None,
            },
    {
        match self {
            ContentBlock::Text { text } => Some(text.as_str()),
            _ => None,
        }
    }

    /// A copy of the block.
    pub fn duplicate(&self) -> (r: ContentBlock)
        ensures
            same_block(r, *self),
    {
        match self {
            ContentBlock::Text { text } => ContentBlock::Text { text: text.clone() },
            ContentBlock::ToolCall { id, tool, arguments } => ContentBlock::ToolCall {
                id: id.clone(),
                tool: tool.clone(),
                arguments: arguments.duplicate(),
            },
            ContentBlock::ToolResult { id, result } => ContentBlock::ToolResult {
                id: id.clone(),
                result: result.duplicate(),
            },
        }
    }
}

/// Two blocks carry the same content.
pub open spec fn same_block(a: ContentBlock, b: ContentBlock) -> bool {
    match (a, b) {
        (ContentBlock::Text { text: x }, ContentBlock::Text { text: y }) => x@ == y@,
        (
            ContentBlock::ToolCall { id: i1, tool: t1, arguments: a1 },
            ContentBlock::ToolCall { id: i2, tool: t2, arguments: a2 },
        ) => i1@ == i2@ && t1@ == t2@ && a1@ == a2@,
        (ContentBlock::ToolResult { id: i1, result: r1 }, ContentBlock::ToolResult { id: i2, result: r2 }) => i1@
            == i2@ && r1@ == r2@,
        _ => false,
    }
}

/// Two block lists carry the same content, block by block.
pub open spec fn same_blocks(a: Seq<ContentBlock>, b: Seq<ContentBlock>) -> bool {
    a.len() == b.len() && forall|i: int| 0 <= i < a.len() ==> same_block(#[trigger] a[i], b[i])
}

/// A copy of a list of blocks.
pub fn duplicate_blocks(blocks: &Vec<ContentBlock>) -> (r: Vec<ContentBlock>)
    ensures
        same_blocks(r@, blocks@),
{
    let mut out: Vec<ContentBlock> = Vec::new();
    let mut i: usize = 0;
    while i < blocks.len()
        invariant
            i <= blocks@.len(),
            out@.len() == i,
            forall|j: int| 0 <= j < i ==> same_block(#[trigger] out@[j], blocks@[j]),
        decreases blocks@.len() - i,
    {
        out.push(blocks[i].duplicate());
        i = i + 1;
    }
    out
}

/// A chat message: a role plus an ordered list of content blocks.
#[derive(Debug)]
pub struct ChatMessage {
    pub role: Role,
    pub content: Vec<ContentBlock>,
}

impl ChatMessage {
    /// Convenience constructor for a single text block.
    pub fn text(role: Role, text: String) -> (m: ChatMessage)
        ensures
            m.role == role,
            m.content@.len() == 1,
            block_text(m.content@[0]) == Some(text@),
    {
        let mut content: Vec<ContentBlock> = Vec::new();
        content.push(ContentBlock::Text { text });
        ChatMessage { role, content }
    }
}

/// The texts of the text blocks of `blocks`, in order.
pub open spec fn texts_of(blocks: Seq<ContentBlock>) -> Seq<Seq<char>>
    decreases blocks.len(),
{
    if blocks.len() == 0 {
        Seq::empty()
    } else {
        let rest = texts_of(blocks.drop_last());
        match block_text(blocks.last()) {
            Some(t) => rest.push(t),
            None => rest,
        }
    }
}

/// `parts` joined with `sep` between consecutive parts.
pub open spec fn join(parts: Seq<Seq<char>>, sep: Seq<char>) -> Seq<char>
    decreases parts.len(),
{
    if parts.len() == 0 {
        Seq::empty()
    } else if parts.len() == 1 {
        parts[0]
    } else {
        join(parts.drop_last(), sep) + sep + parts.last()
    }
}

/// The texts of the text blocks of `blocks`, joined by `sep`.
pub fn join_texts(blocks: &Vec<ContentBlock>, sep: &str) -> (r: String)
    ensures
        r@ == join(texts_of(blocks@), sep@),
{
    let mut out = String::new();
    let mut any = false;
    let mut i: usize = 0;
    while i < blocks.len()
        invariant
            i <= blocks@.len(),
            out@ == join(texts_of(blocks@.subrange(0, i as int)), sep@),
            any == (texts_of(blocks@.subrange(0, i as int)).len() > 0),
        decreases blocks@.len() - i,
    {
        proof {
            assert(blocks@.subrange(0, i + 1).drop_last() =~= blocks@.subrange(0, i as int));
        }
        match blocks[i].text() {
            Some(t) => {
                if any {
                    out.append(sep);
                }
                out.append(t);
                any = true;
                proof {
                    let parts = texts_of(blocks@.subrange(0, i + 1));
                    assert(parts.drop_last() =~= texts_of(blocks@.subrange(0, i as int)));
                }
            },
            None => {},
        }
        i = i + 1;
    }
    proof {
        assert(blocks@.subrange(0, blocks@.len() as int) =~= blocks@);
    }
    out
}

/// JSON Schema description of a tool a provider may call.
#[derive(Debug)]
pub struct ToolSchema {
    pub name: String,
    pub description: String,
    /// JSON Schema object (type, properties, required, ...).
    pub parameters: JsonValue,
}

impl ToolSchema {
    /// A copy of the schema.
    pub fn duplicate(&self) -> (r: ToolSchema)
        ensures
            r.name@ == self.name@,
            r.description@ == self.description@,
            r.parameters@ == self.parameters@,
    {
        ToolSchema {
            name: self.name.clone(),
            description: self.description.clone(),
            parameters: self.parameters.duplicate(),
        }
    }
}

/// Capability flags a provider honestly advertises.
#[derive(Debug, Clone, Copy)]
pub struct Capabilities {
    pub streaming: bool,
    pub tool_use: bool,
    pub json_mode: bool,
    pub max_output_tokens: usize,
}

/// Metadata about a model a provider can run, surfaced in the picker UI.
#[derive(Debug)]
pub struct ModelInfo {
    pub id: String,
    pub name: String,
    pub context_window: Option<usize>,
    pub max_output: Option<usize>,
    pub supports_tools: bool,
}

/// Two model descriptions agree field by field.
pub open spec fn same_model(a: ModelInfo, b: ModelInfo) -> bool {
    a.id@ == b.id@ && a.name@ == b.name@ && a.context_window == b.context_window && a.max_output
        == b.max_output && a.supports_tools == b.supports_tools
}

impl ModelInfo {
    /// A copy of the model description.
    pub fn duplicate(&self) -> (r: ModelInfo)
        ensures
            same_model(r, *self),
    {
        ModelInfo {
            id: self.id.clone(),
            name: self.name.clone(),
            context_window: self.context_window,
            max_output: self.max_output,
            supports_tools: self.supports_tools,
        }
    }
}

/// A copy of a list of model descriptions.
pub fn duplicate_models(models: &Vec<ModelInfo>) -> (r: Vec<ModelInfo>)
    ensures
        r@.len() == models@.len(),
        forall|i: int| 0 <= i < r@.len() ==> same_model(#[trigger] r@[i], models@[i]),
{
    let mut out: Vec<ModelInfo> = Vec::new();
    let mut i: usize = 0;
    while i < models.len()
        invariant
            i <= models@.len(),
            out@.len() == i,
            forall|j: int| 0 <= j < i ==> same_model(#[trigger] out@[j], models@[j]),
        decreases models@.len() - i,
    {
        out.push(models[i].duplicate());
        i = i + 1;
    }
    out
}

/// Token usage for a completion, when the provider reports it.
#[derive(Debug, Clone, Copy)]
pub struct Usage {
    pub prompt_tokens: Option<u64>,
    pub completion_tokens: Option<u64>,
}

/// The completed turn: the assistant message plus usage metadata.
#[derive(Debug)]
pub struct CompletionResponse {
    pub message: ChatMessage,
    pub usage: Option<Usage>,
    pub finish_reason: Option<String>,
}

} // verus!

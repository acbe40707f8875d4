//! The reference LLM provider: deterministic and headless-friendly.
//!
//! Used by every test, the contract suite, and as a fallback when no real
//! provider is configured. If a change breaks the Mock, it breaks the
//! provider contract.

use vstd::prelude::*;
use vstd::string::*;

use crate::json::{member, object1, str_model, JsonModel, JsonValue};
use crate::llm::{
    block_text, join, join_texts, texts_of, Capabilities, ChatMessage, CompletionResponse,
    ContentBlock, ModelInfo, Role, ToolSchema, Usage,
};
use crate::text::{contains_seq, contains_text, lowercase, split_char, split_on, str_lowercase, strings_view};

verus! {

/// How much of the user's text the mock echoes back (keeps replies short).
pub const ECHO_LIMIT: usize = 120;

/// Position of the last user message of `messages`.
pub open spec fn last_user_index(messages: Seq<ChatMessage>) -> Option<int>
    decreases messages.len(),
{
    if messages.len() == 0 {
        None
    } else if messages.last().role == Role::User {
        Some(messages.len() - 1)
    } else {
        last_user_index(messages.drop_last())
    }
}

/// The text blocks of the last user message joined by newlines; empty when
/// there is no user message.
pub open spec fn last_user_text_of(messages: Seq<ChatMessage>) -> Seq<char> {
    match last_user_index(messages) {
        Some(i) => join(texts_of(messages[i].content@), "\n"@),
        None => Seq::empty(),
    }
}

/// Some message of `messages` carries a tool result.
pub open spec fn has_tool_message(messages: Seq<ChatMessage>) -> bool {
    exists|i: int| 0 <= i < messages.len() && #[trigger] messages[i].role == Role::Tool
}

/// What the mock appends to its template: the user text, cut to
/// [`ECHO_LIMIT`] characters, in parentheses; nothing for empty text.
pub open spec fn echo_suffix(text: Seq<char>) -> Seq<char> {
    if text.len() == 0 {
        Seq::empty()
    } else {
        let cut = if text.len() <= ECHO_LIMIT { text.len() as int } else { ECHO_LIMIT as int };
        " ("@ + text.subrange(0, cut) + ")"@
    }
}

/// The arguments of the mock's dice call: `{"expr": "2d6"}`.
pub open spec fn mock_dice_arguments() -> JsonModel {
    JsonModel::Object(seq![("expr"@, str_model("2d6"@))])
}

/// Whether the mock answers `messages` with a dice tool call.
pub open spec fn mock_calls_dice(simulate_tools: bool, messages: Seq<ChatMessage>, tools_offered: bool) -> bool {
    &&& simulate_tools
    &&& tools_offered
    &&& !has_tool_message(messages)
    &&& contains_seq(str_lowercase(last_user_text_of(messages)), "dice"@)
}

/// `reply` is the mock's answer for the given template and conversation.
pub open spec fn mock_reply(
    template: Seq<char>,
    simulate_tools: bool,
    messages: Seq<ChatMessage>,
    tools_offered: bool,
    reply: ChatMessage,
) -> bool {
    &&& reply.role == Role::Assistant
    &&& reply.content@.len() == 1
    &&& if mock_calls_dice(simulate_tools, messages, tools_offered) {
        reply.content@[0] matches ContentBlock::ToolCall { id, tool, arguments } && id@ == "mock-dice-1"@
            && tool@ == "dice"@ && arguments@ == mock_dice_arguments()
    } else {
        block_text(reply.content@[0]) == Some(template + echo_suffix(last_user_text_of(messages)))
    }
}

/// The first text of `blocks`, if any block is text.
pub open spec fn first_text(blocks: Seq<ContentBlock>) -> Option<Seq<char>>
    decreases blocks.len(),
{
    if blocks.len() == 0 {
        None
    } else {
        match block_text(blocks[0]) {
            Some(t) => Some(t),
            None => first_text(blocks.drop_first()),
        }
    }
}

/// The reference adapter. Deterministic behaviour:
/// - If the last user message mentions "dice" (and tools are offered and no
///   tool result is present yet), it emits a `dice` tool call.
/// - Otherwise it replies with the template followed by the (short) last
///   user text.
pub struct MockProvider {
    /// Provider id (normally "mock").
    id: String,
    /// The model name it claims to be.
    model: String,
    /// Reply template.
    reply_template: String,
    /// Whether to simulate tool calls on a "dice" trigger.
    simulate_tools: bool,
}

proof fn lemma_last_user_suffix(messages: Seq<ChatMessage>, i: int)
    requires
        0 <= i <= messages.len(),
        forall|j: int| i <= j < messages.len() ==> #[trigger] messages[j].role != Role::User,
    ensures
        last_user_index(messages) == last_user_index(messages.subrange(0, i)),
    decreases messages.len() - i,
{
    if i == messages.len() {
        assert(messages.subrange(0, i) =~= messages);
    } else {
        let t = messages.drop_last();
        assert(messages.last() == messages[messages.len() - 1]);
        assert forall|j: int| i <= j < t.len() implies #[trigger] t[j].role != Role::User by {
            assert(t[j] == messages[j]);
        }
        lemma_last_user_suffix(t, i);
        assert(t.subrange(0, i) =~= messages.subrange(0, i));
    }
}

proof fn lemma_first_text_skip(blocks: Seq<ContentBlock>, i: int)
    requires
        0 <= i <= blocks.len(),
        forall|j: int| 0 <= j < i ==> block_text(#[trigger] blocks[j]) is None,
    ensures
        first_text(blocks) == first_text(blocks.subrange(i, blocks.len() as int)),
    decreases i,
{
    if i == 0 {
        assert(blocks.subrange(0, blocks.len() as int) =~= blocks);
    } else {
        let t = blocks.drop_first();
        assert(block_text(blocks[0]) is None);
        assert forall|j: int| 0 <= j < i - 1 implies block_text(#[trigger] t[j]) is None by {
            assert(t[j] == blocks[j + 1]);
        }
        lemma_first_text_skip(t, i - 1);
        assert(t.subrange(i - 1, t.len() as int) =~= blocks.subrange(i, blocks.len() as int));
    }
}

/// The text of the last user message (text blocks joined by newlines).
fn last_user_text(messages: &Vec<ChatMessage>) -> (r: String)
    ensures
        r@ == last_user_text_of(messages@),
{
    let mut i: usize = messages.len();
    while i > 0
        invariant
            i <= messages@.len(),
            forall|j: int| i <= j < messages@.len() ==> #[trigger] messages@[j].role != Role::User,
        decreases i,
    {
        if messages[i - 1].role == Role::User {
            proof {
                lemma_last_user_suffix(messages@, i as int);
                assert(messages@.subrange(0, i as int).last() == messages@[i - 1]);
            }
            return join_texts(&messages[i - 1].content, "\n");
        }
        i = i - 1;
    }
    proof {
        lemma_last_user_suffix(messages@, 0);
    }
    String::new()
}

/// Whether some message carries a tool result.
fn tool_result_present(messages: &Vec<ChatMessage>) -> (r: bool)
    ensures
        r == has_tool_message(messages@),
{
    let mut i: usize = 0;
    while i < messages.len()
        invariant
            i <= messages@.len(),
            forall|j: int| 0 <= j < i ==> #[trigger] messages@[j].role != Role::Tool,
        decreases messages@.len() - i,
    {
        if messages[i].role == Role::Tool {
            return true;
        }
        i = i + 1;
    }
    false
}

/// The text the mock appends to its template.
fn echo_of(text: &str) -> (r: String)
    ensures
        r@ == echo_suffix(text@),
{
    let n = text.unicode_len();
    if n == 0 {
        return String::new();
    }
    let cut = if n <= ECHO_LIMIT { n } else { ECHO_LIMIT };
    let mut out = String::from_str(" (");
    out.append(text.substring_char(0, cut));
    out.append(")");
    out
}

impl MockProvider {
    /// The provider id.
    pub closed spec fn id_view(&self) -> Seq<char> {
        self.id@
    }

    /// The model name.
    pub closed spec fn model_view(&self) -> Seq<char> {
        self.model@
    }

    /// The reply template.
    pub closed spec fn template_view(&self) -> Seq<char> {
        self.reply_template@
    }

    /// Whether a "dice" trigger produces a tool call.
    pub closed spec fn simulates_tools(&self) -> bool {
        self.simulate_tools
    }

    /// Create a mock with a reply template and tool simulation enabled.
    pub fn new(id: &str, model: &str, reply_template: &str) -> (m: MockProvider)
        ensures
            m.id_view() == id@,
            m.model_view() == model@,
            m.template_view() == reply_template@,
            m.simulates_tools(),
    {
        MockProvider {
            id: String::from_str(id),
            model: String::from_str(model),
            reply_template: String::from_str(reply_template),
            simulate_tools: true,
        }
    }

    /// Stable provider id.
    pub fn id(&self) -> (r: &str)
        ensures
            r@ == self.id_view(),
    {
        self.id.as_str()
    }

    /// What the mock can do: everything, with a 4096-token output cap.
    pub fn capabilities(&self) -> (c: Capabilities)
        ensures
            c.streaming,
            c.tool_use,
            c.json_mode,
            c.max_output_tokens == 4096,
    {
        Capabilities { streaming: true, tool_use: true, json_mode: true, max_output_tokens: 4096 }
    }

    /// The one model the mock runs.
    pub fn list_models(&self) -> (r: Vec<ModelInfo>)
        ensures
            r@.len() == 1,
            r@[0].id@ == self.model_view(),
            r@[0].name@ == "Mock Model"@,
            r@[0].context_window == Some(8192usize),
            r@[0].max_output == Some(4096usize),
            r@[0].supports_tools,
    {
        let mut models: Vec<ModelInfo> = Vec::new();
        models.push(
            ModelInfo {
                id: self.model.clone(),
                name: String::from_str("Mock Model"),
                context_window: Some(8192),
                max_output: Some(4096),
                supports_tools: true,
            },
        );
        models
    }

    /// Build the deterministic reply for a conversation.
    pub fn build_reply(&self, messages: &Vec<ChatMessage>, tools: &Vec<ToolSchema>) -> (r: ChatMessage)
        ensures
            mock_reply(self.template_view(), self.simulates_tools(), messages@, tools@.len() > 0, r),
    {
        let last_user_text = last_user_text(messages);
        let tool_result = tool_result_present(messages);
        let lowered = lowercase(last_user_text.as_str());
        let should_call_dice = self.simulate_tools && tools.len() > 0 && !tool_result && contains_text(
            lowered.as_str(),
            "dice",
        );
        if should_call_dice {
            let arguments = object1(member("expr", JsonValue::from_str_slice("2d6")));
            let mut content: Vec<ContentBlock> = Vec::new();
            content.push(
                ContentBlock::ToolCall {
                    id: String::from_str("mock-dice-1"),
                    tool: String::from_str("dice"),
                    arguments,
                },
            );
            return ChatMessage { role: Role::Assistant, content };
        }
        let mut text = self.reply_template.clone();
        let echoed = echo_of(last_user_text.as_str());
        text.append(echoed.as_str());
        ChatMessage::text(Role::Assistant, text)
    }

    /// One-shot completion: the reply, empty usage and a `stop` finish.
    pub fn complete(&self, messages: &Vec<ChatMessage>, tools: &Vec<ToolSchema>) -> (r: CompletionResponse)
        ensures
            mock_reply(self.template_view(), self.simulates_tools(), messages@, tools@.len() > 0, r.message),
            r.usage == Some(Usage { prompt_tokens: None, completion_tokens: None }),
            r.finish_reason matches Some(f) && f@ == "stop"@,
    {
        let message = self.build_reply(messages, tools);
        CompletionResponse {
            message,
            usage: Some(Usage { prompt_tokens: None, completion_tokens: None }),
            finish_reason: Some(String::from_str("stop")),
        }
    }

    /// The fragments a streamed reply is delivered in: the first text block
    /// split at each space, every piece followed by one space. A reply
    /// without text streams nothing.
    pub fn stream_deltas(message: &ChatMessage) -> (r: Vec<String>)
        ensures
            match first_text(message.content@) {
                Some(t) => {
                    &&& r@.len() == split_on(t, ' ').len()
                    &&& forall|i: int| 0 <= i < r@.len() ==> #[trigger] r@[i]@ == split_on(t, ' ')[i] + " "@
                },
                None => r@.len() == 0,
            },
    {
        let blocks = &message.content;
        let mut i: usize = 0;
        while i < blocks.len()
            invariant
                blocks@ == message.content@,
                i <= blocks@.len(),
                forall|j: int| 0 <= j < i ==> block_text(#[trigger] blocks@[j]) is None,
            decreases blocks@.len() - i,
        {
            match blocks[i].text() {
                Some(text) => {
                    proof {
                        lemma_first_text_skip(blocks@, i as int);
                        assert(blocks@.subrange(i as int, blocks@.len() as int)[0] == blocks@[i as int]);
                    }
                    let pieces = split_char(text, ' ');
                    let mut out: Vec<String> = Vec::new();
                    let mut k: usize = 0;
                    while k < pieces.len()
                        invariant
                            strings_view(pieces@) == split_on(text@, ' '),
                            k <= pieces@.len(),
                            out@.len() == k,
                            forall|j: int| 0 <= j < k ==> #[trigger] out@[j]@ == pieces@[j]@ + " "@,
                        decreases pieces@.len() - k,
                    {
                        let mut fragment = pieces[k].clone();
                        fragment.append(" ");
                        out.push(fragment);
                        k = k + 1;
                    }
                    proof {
                        assert forall|j: int| 0 <= j < out@.len() implies #[trigger] out@[j]@ == split_on(
                            text@,
                            ' ',
                        )[j] + " "@ by {
                            assert(strings_view(pieces@)[j] == pieces@[j]@);
                        }
                    }
                    return out;
                },
                None => {},
            }
            i = i + 1;
        }
        proof {
            lemma_first_text_skip(blocks@, i as int);
        }
        Vec::new()
    }
}

/// A fully static mock whose behaviour is fixed, used by contract tests so a
/// passing suite is reproducible regardless of local configuration.
pub fn contract_test_mock() -> (m: MockProvider)
    ensures
        m.id_view() == "mock"@,
        m.model_view() == "mock/model"@,
        m.template_view() == "The GM nods thoughtfully."@,
        m.simulates_tools(),
{
    MockProvider::new("mock", "mock/model", "The GM nods thoughtfully.")
}

} // verus!

//! OpenAI-compatible provider adapter (`/chat/completions`): the decisions.
//!
//! This covers OpenCode Go (base `https://opencode.ai/zen/go/v1`) and any
//! other OpenAI-compatible endpoint. The library decides what goes on the
//! wire and how replies, streamed deltas and failures are folded back into
//! the provider-agnostic shape; the HTTP exchange itself stands outside.

use std::collections::HashMap;

use vstd::prelude::*;
use vstd::string::*;

use crate::errors::{provider_error, AppError, Result};
use crate::json::{JsonModel, JsonValue};
use crate::llm::{
    block_text, duplicate_models, join, join_texts, same_model, texts_of, Capabilities, ChatMessage,
    CompletionResponse, ContentBlock, ModelInfo, Role, ToolSchema, Usage,
};
use crate::text::{lemma_split_on_nonempty, split_on, str_eq, strings_view, trim, trim_str, utf8_fit, utf8_len, lemma_utf8_len_prefix, ends_with_seq, ends_with_text, strip_trailing, strip_trailing_char};

verus! {

/// Default capability assumptions for an OpenAI-compatible endpoint.
pub const DEFAULT_MAX_OUTPUT: usize = 8192;

/// How many bytes of a failing provider body an error message keeps.
pub const ERROR_BODY_LIMIT: usize = 300;

/// The path every chat completion is posted to.
pub open spec fn chat_suffix() -> Seq<char> {
    "/chat/completions"@
}

/// The chat completions URL for an API root.
pub open spec fn chat_url_for(base: Seq<char>) -> Seq<char> {
    if ends_with_seq(base, chat_suffix()) {
        base
    } else {
        base + chat_suffix()
    }
}

/// An adapter for any OpenAI-compatible chat completions API.
pub struct OpenAiCompatibleProvider {
    /// Stable id used in configs (e.g. "opencode-go").
    id: String,
    /// API root without trailing slashes.
    base_url: String,
    /// Bearer token for authentication.
    api_key: String,
    /// Capabilities advertised by this deployment.
    capabilities: Capabilities,
    /// Static model catalog used when the `/models` endpoint is unreachable.
    known_models: Vec<ModelInfo>,
}

impl OpenAiCompatibleProvider {
    /// The provider id.
    pub closed spec fn id_view(&self) -> Seq<char> {
        self.id@
    }

    /// The API root.
    pub closed spec fn base_view(&self) -> Seq<char> {
        self.base_url@
    }

    /// The bearer token.
    pub closed spec fn key_view(&self) -> Seq<char> {
        self.api_key@
    }

    /// The advertised capabilities.
    pub closed spec fn capabilities_view(&self) -> Capabilities {
        self.capabilities
    }

    /// The fallback catalog.
    pub closed spec fn known_view(&self) -> Seq<ModelInfo> {
        self.known_models@
    }

    /// Build an adapter. `known_models` is the fallback catalog for the
    /// picker; trailing slashes of `base_url` are dropped.
    pub fn new(id: &str, base_url: &str, api_key: &str, known_models: Vec<ModelInfo>) -> (p:
        OpenAiCompatibleProvider)
        ensures
            p.id_view() == id@,
            p.base_view() == strip_trailing(base_url@, '/'),
            p.key_view() == api_key@,
            p.capabilities_view() == (Capabilities {
                streaming: true,
                tool_use: true,
                json_mode: true,
                max_output_tokens: DEFAULT_MAX_OUTPUT,
            }),
            p.known_view() == known_models@,
    {
        OpenAiCompatibleProvider {
            id: String::from_str(id),
            base_url: String::from_str(strip_trailing_char(base_url, '/')),
            api_key: String::from_str(api_key),
            capabilities: Capabilities {
                streaming: true,
                tool_use: true,
                json_mode: true,
                max_output_tokens: DEFAULT_MAX_OUTPUT,
            },
            known_models,
        }
    }

    /// Stable provider id.
    pub fn id(&self) -> (r: &str)
        ensures
            r@ == self.id_view(),
    {
        self.id.as_str()
    }

    /// The bearer token sent with every request.
    pub fn api_key(&self) -> (r: &str)
        ensures
            r@ == self.key_view(),
    {
        self.api_key.as_str()
    }

    /// What this deployment advertises.
    pub fn capabilities(&self) -> (c: Capabilities)
        ensures
            c == self.capabilities_view(),
    {
        self.capabilities
    }

    /// Resolve the chat completions URL from the configured base.
    pub fn chat_url(&self) -> (r: String)
        ensures
            r@ == chat_url_for(self.base_view()),
    {
        if ends_with_text(self.base_url.as_str(), "/chat/completions") {
            self.base_url.clone()
        } else {
            let mut url = self.base_url.clone();
            url.append("/chat/completions");
            url
        }
    }

    /// The URL of the live model catalog.
    pub fn models_url(&self) -> (r: String)
        ensures
            r@ == self.base_view() + "/models"@,
    {
        let mut url = self.base_url.clone();
        url.append("/models");
        url
    }

    /// The models to offer: the live catalog when it was fetched and is not
    /// empty, the static fallback otherwise.
    pub fn list_models(&self, fetched: Result<Vec<ModelInfo>>) -> (r: Vec<ModelInfo>)
        ensures
            match fetched {
                Ok(models) if models@.len() > 0 => r@ == models@,
                _ => r@.len() == self.known_view().len() && forall|i: int|
                    0 <= i < r@.len() ==> same_model(#[trigger] r@[i], self.known_view()[i]),
            },
    {
        match fetched {
            Ok(models) => {
                if models.len() > 0 {
                    models
                } else {
                    duplicate_models(&self.known_models)
                }
            },
            Err(_) => duplicate_models(&self.known_models),
        }
    }
}

/// The catalog entries of the `/models` endpoint: each id doubles as the
/// display name, with no known limits and tool support assumed.
pub fn models_from_ids(ids: Vec<String>) -> (r: Vec<ModelInfo>)
    ensures
        r@.len() == ids@.len(),
        forall|i: int|
            0 <= i < r@.len() ==> {
                &&& #[trigger] r@[i].id@ == ids@[i]@
                &&& r@[i].name@ == ids@[i]@
                &&& r@[i].context_window is None
                &&& r@[i].max_output is None
                &&& r@[i].supports_tools
            },
{
    let mut out: Vec<ModelInfo> = Vec::new();
    let mut i: usize = 0;
    while i < ids.len()
        invariant
            i <= ids@.len(),
            out@.len() == i,
            forall|j: int|
                0 <= j < i ==> {
                    &&& #[trigger] out@[j].id@ == ids@[j]@
                    &&& out@[j].name@ == ids@[j]@
                    &&& out@[j].context_window is None
                    &&& out@[j].max_output is None
                    &&& out@[j].supports_tools
                },
        decreases ids@.len() - i,
    {
        out.push(
            ModelInfo {
                id: ids[i].clone(),
                name: ids[i].clone(),
                context_window: None,
                max_output: None,
                supports_tools: true,
            },
        );
        i = i + 1;
    }
    out
}

/// `j` is where a text is cut to fit `limit` bytes: its first `j`
/// characters fit, and either they are all of it or one more would not fit.
pub open spec fn fitting_cut(text: Seq<char>, limit: int, j: int) -> bool {
    &&& 0 <= j <= text.len()
    &&& utf8_len(text.subrange(0, j)) <= limit
    &&& j < text.len() ==> utf8_len(text.subrange(0, j + 1)) > limit
}

/// What [`truncate`] makes of `text`: itself when its UTF-8 encoding has at
/// most `limit` bytes, else its longest prefix that fits in `limit` bytes
/// (the cut falls on a character boundary) followed by `...`.
pub open spec fn truncated(text: Seq<char>, limit: int, r: Seq<char>) -> bool {
    &&& utf8_len(text) <= limit ==> r == text
    &&& utf8_len(text) > limit ==> exists|j: int| fitting_cut(text, limit, j) && r == text.subrange(0, j) + "..."@
}

/// Cap an error message so a huge provider body never floods the logs/UI:
/// texts of at most `limit` bytes are kept, longer ones are cut at the last
/// character boundary within the first `limit` bytes and marked with `...`.
/// Never panics.
pub fn truncate(text: &str, limit: usize) -> (r: String)
    ensures
        truncated(text@, limit as int, r@),
{
    let n = utf8_fit(text, limit);
    if n == text.unicode_len() {
        proof {
            assert(text@.subrange(0, n as int) =~= text@);
        }
        return String::from_str(text);
    }
    let mut out = String::from_str(text.substring_char(0, n));
    out.append("...");
    proof {
        lemma_utf8_len_prefix(text@, n + 1);
        assert(fitting_cut(text@, limit as int, n as int));
    }
    out
}

/// The error for a provider answering with a failing HTTP status: the status
/// line, then the start of the body (see [`truncate`]).
pub fn http_failure(status: &str, body: &str) -> (e: AppError)
    ensures
        e is Provider,
        exists|cut: Seq<char>|
            {
                &&& truncated(body@, ERROR_BODY_LIMIT as int, cut)
                &&& e.detail() == "provider returned HTTP "@ + status@ + ": "@ + cut
            },
{
    let mut context = String::from_str("provider returned HTTP ");
    context.append(status);
    let cut = truncate(body, ERROR_BODY_LIMIT);
    let e = provider_error(context.as_str(), cut.as_str());
    proof {
        assert(e.detail() == "provider returned HTTP "@ + status@ + ": "@ + cut@);
    }
    e
}

/// A tool call inside an outbound assistant message: `{"id", "type":
/// "function", "function": {"name", "arguments"}}`, the arguments rendered
/// as JSON text.
#[derive(Debug)]
pub struct OutboundCall {
    pub id: String,
    pub name: String,
    pub arguments: JsonValue,
}

/// One message in the OpenAI wire shape.
#[derive(Debug)]
pub enum OutboundMessage {
    /// `{"role": "tool", "tool_call_id", "content"}`, the content being the
    /// result rendered as JSON text (required by OpenAI-compatible APIs).
    ToolResult { tool_call_id: String, result: JsonValue },
    /// `{"role", "content", "tool_calls"}`: the content is the text (null
    /// when there is none), `tool_calls` is left out when empty.
    Chat { role: Role, content: Option<String>, tool_calls: Vec<OutboundCall> },
}

/// The first tool result among `blocks`: its id and payload.
pub open spec fn first_tool_result(blocks: Seq<ContentBlock>) -> Option<(Seq<char>, JsonModel)>
    decreases blocks.len(),
{
    if blocks.len() == 0 {
        None
    } else {
        match blocks[0] {
            ContentBlock::ToolResult { id, result } => Some((id@, result@)),
            _ => first_tool_result(blocks.drop_first()),
        }
    }
}

/// The tool calls among `blocks`, in order: id, tool name, arguments.
pub open spec fn tool_calls_of(blocks: Seq<ContentBlock>) -> Seq<(Seq<char>, Seq<char>, JsonModel)>
    decreases blocks.len(),
{
    if blocks.len() == 0 {
        Seq::empty()
    } else {
        let rest = tool_calls_of(blocks.drop_last());
        match blocks.last() {
            ContentBlock::ToolCall { id, tool, arguments } => rest.push((id@, tool@, arguments@)),
            _ => rest,
        }
    }
}

/// The views of outbound calls.
pub open spec fn outbound_calls_view(calls: Seq<OutboundCall>) -> Seq<(Seq<char>, Seq<char>, JsonModel)> {
    calls.map_values(|c: OutboundCall| (c.id@, c.name@, c.arguments@))
}

/// `out` is the wire form of `message`: a tool message becomes a tool reply
/// carrying its first result (id `unknown` and `{}` when it has none); any
/// other message keeps its role, its text blocks joined by newlines (no
/// content when that is empty) and its tool calls.
pub open spec fn outbound_of(message: ChatMessage, out: OutboundMessage) -> bool {
    if message.role == Role::Tool {
        out matches OutboundMessage::ToolResult { tool_call_id, result } && match first_tool_result(
            message.content@,
        ) {
            Some((id, r)) => tool_call_id@ == id && result@ == r,
            None => tool_call_id@ == "unknown"@ && result@ == JsonModel::Object(Seq::empty()),
        }
    } else {
        let text = join(texts_of(message.content@), "\n"@);
        out matches OutboundMessage::Chat { role, content, tool_calls } && role == message.role && (if text.len()
            == 0 {
            content is None
        } else {
            content matches Some(c) && c@ == text
        }) && outbound_calls_view(tool_calls@) == tool_calls_of(message.content@)
    }
}

proof fn lemma_first_tool_result_skip(blocks: Seq<ContentBlock>, i: int)
    requires
        0 <= i <= blocks.len(),
        forall|j: int| 0 <= j < i ==> !(#[trigger] blocks[j] is ToolResult),
    ensures
        first_tool_result(blocks) == first_tool_result(blocks.subrange(i, blocks.len() as int)),
    decreases i,
{
    if i == 0 {
        assert(blocks.subrange(0, blocks.len() as int) =~= blocks);
    } else {
        let t = blocks.drop_first();
        assert(!(blocks[0] is ToolResult));
        assert forall|j: int| 0 <= j < i - 1 implies !(#[trigger] t[j] is ToolResult) by {
            assert(t[j] == blocks[j + 1]);
        }
        lemma_first_tool_result_skip(t, i - 1);
        assert(t.subrange(i - 1, t.len() as int) =~= blocks.subrange(i, blocks.len() as int));
    }
}

/// Maps a provider-agnostic message to the OpenAI wire shape.
pub fn openai_message(message: &ChatMessage) -> (out: OutboundMessage)
    ensures
        outbound_of(*message, out),
{
    let blocks = &message.content;
    if message.role == Role::Tool {
        let mut i: usize = 0;
        while i < blocks.len()
            invariant
                message.role == Role::Tool,
                blocks@ == message.content@,
                i <= blocks@.len(),
                forall|j: int| 0 <= j < i ==> !(#[trigger] blocks@[j] is ToolResult),
            decreases blocks@.len() - i,
        {
            match &blocks[i] {
                ContentBlock::ToolResult { id, result } => {
                    proof {
                        lemma_first_tool_result_skip(blocks@, i as int);
                        let rest = blocks@.subrange(i as int, blocks@.len() as int);
                        assert(rest[0] == blocks@[i as int]);
                        assert(first_tool_result(rest) == Some((id@, result@)));
                    }
                    return OutboundMessage::ToolResult { tool_call_id: id.clone(), result: result.duplicate() };
                },
                _ => {},
            }
            i = i + 1;
        }
        proof {
            lemma_first_tool_result_skip(blocks@, i as int);
        }
        return OutboundMessage::ToolResult {
            tool_call_id: String::from_str("unknown"),
            result: JsonValue::empty_object(),
        };
    }
    let text = join_texts(blocks, "\n");
    let mut calls: Vec<OutboundCall> = Vec::new();
    let mut i: usize = 0;
    while i < blocks.len()
        invariant
            blocks@ == message.content@,
            i <= blocks@.len(),
            outbound_calls_view(calls@) == tool_calls_of(blocks@.subrange(0, i as int)),
        decreases blocks@.len() - i,
    {
        proof {
            assert(blocks@.subrange(0, i + 1).drop_last() =~= blocks@.subrange(0, i as int));
        }
        match &blocks[i] {
            ContentBlock::ToolCall { id, tool, arguments } => {
                calls.push(OutboundCall { id: id.clone(), name: tool.clone(), arguments: arguments.duplicate() });
                proof {
                    assert(outbound_calls_view(calls@) =~= tool_calls_of(blocks@.subrange(0, i + 1)));
                }
            },
            _ => {
                proof {
                    assert(outbound_calls_view(calls@) =~= tool_calls_of(blocks@.subrange(0, i + 1)));
                }
            },
        }
        i = i + 1;
    }
    proof {
        assert(blocks@.subrange(0, blocks@.len() as int) =~= blocks@);
    }
    let content = if text.unicode_len() == 0 {
        None
    } else {
        Some(text)
    };
    OutboundMessage::Chat { role: message.role, content, tool_calls: calls }
}

/// The body of a chat completion request. A temperature, when the caller
/// sets one, is added to the wire form beside these fields.
#[derive(Debug)]
pub struct ChatPayload {
    pub model: String,
    pub messages: Vec<OutboundMessage>,
    pub stream: bool,
    /// Each becomes `{"type": "function", "function": {name, description,
    /// parameters}}`; the `tools` field is left out when there are none.
    pub tools: Vec<ToolSchema>,
    /// `auto` whenever tools are offered.
    pub tool_choice: Option<String>,
    pub max_tokens: Option<u32>,
}

impl OpenAiCompatibleProvider {
    /// Build the OpenAI wire payload from a provider-agnostic request.
    pub fn build_payload(
        &self,
        model: &str,
        messages: &Vec<ChatMessage>,
        tools: &Vec<ToolSchema>,
        max_tokens: Option<u32>,
        stream: bool,
    ) -> (p: ChatPayload)
        ensures
            p.model@ == model@,
            p.stream == stream,
            p.max_tokens == max_tokens,
            p.messages@.len() == messages@.len(),
            forall|i: int| 0 <= i < p.messages@.len() ==> outbound_of(messages@[i], #[trigger] p.messages@[i]),
            p.tools@.len() == tools@.len(),
            forall|i: int|
                0 <= i < p.tools@.len() ==> {
                    &&& (#[trigger] p.tools@[i]).name@ == tools@[i].name@
                    &&& p.tools@[i].description@ == tools@[i].description@
                    &&& p.tools@[i].parameters@ == tools@[i].parameters@
                },
            if tools@.len() > 0 {
                p.tool_choice matches Some(c) && c@ == "auto"@
            } else {
                p.tool_choice is None
            },
    {
        let mut wire: Vec<OutboundMessage> = Vec::new();
        let mut i: usize = 0;
        while i < messages.len()
            invariant
                i <= messages@.len(),
                wire@.len() == i,
                forall|j: int| 0 <= j < i ==> outbound_of(messages@[j], #[trigger] wire@[j]),
            decreases messages@.len() - i,
        {
            wire.push(openai_message(&messages[i]));
            i = i + 1;
        }
        let mut schemas: Vec<ToolSchema> = Vec::new();
        let mut k: usize = 0;
        while k < tools.len()
            invariant
                k <= tools@.len(),
                schemas@.len() == k,
                forall|j: int|
                    0 <= j < k ==> {
                        &&& (#[trigger] schemas@[j]).name@ == tools@[j].name@
                        &&& schemas@[j].description@ == tools@[j].description@
                        &&& schemas@[j].parameters@ == tools@[j].parameters@
                    },
            decreases tools@.len() - k,
        {
            schemas.push(tools[k].duplicate());
            k = k + 1;
        }
        let tool_choice = if tools.len() > 0 {
            Some(String::from_str("auto"))
        } else {
            None
        };
        ChatPayload { model: String::from_str(model), messages: wire, stream, tools: schemas, tool_choice, max_tokens }
    }
}

/// A tool call in a completion reply; `arguments` is JSON text.
#[derive(Debug)]
pub struct WireToolCall {
    pub id: String,
    pub function: WireFunction,
}

/// The function part of a tool call.
#[derive(Debug)]
pub struct WireFunction {
    pub name: String,
    pub arguments: String,
}

/// The message of a completion choice.
#[derive(Debug)]
pub struct WireMessage {
    pub content: Option<String>,
    pub tool_calls: Vec<WireToolCall>,
}

/// One choice of a completion reply.
#[derive(Debug)]
pub struct Choice {
    pub message: WireMessage,
    pub finish_reason: Option<String>,
}

/// Token counts as the provider reports them.
#[derive(Debug)]
pub struct UsageBody {
    pub prompt_tokens: Option<u64>,
    pub completion_tokens: Option<u64>,
}

/// A non-streamed completion reply (the fields the app reads).
#[derive(Debug)]
pub struct CompletionBody {
    pub choices: Vec<Choice>,
    pub usage: Option<UsageBody>,
}

/// The characters of an optional string.
pub open spec fn opt_view(o: Option<String>) -> Option<Seq<char>> {
    match o {
        Some(s) => Some(s@),
        None => None,
    }
}

/// The arguments a tool call carries: the parsed JSON, or `{}` when the
/// text did not parse.
pub open spec fn argument_model(parsed: Option<JsonValue>) -> JsonModel {
    match parsed {
        Some(v) => v@,
        None => JsonModel::Object(Seq::empty()),
    }
}

/// `blocks` is the assistant content for a reply text and its tool calls:
/// the text as a block when present and not empty, then one tool call block
/// per call, in order, with the parsed arguments (or `{}`).
pub open spec fn assistant_blocks(
    text: Option<Seq<char>>,
    calls: Seq<WireToolCall>,
    parsed: Seq<Option<JsonValue>>,
    blocks: Seq<ContentBlock>,
) -> bool {
    let lead: int = match text {
        Some(t) => if t.len() > 0 { 1 } else { 0 },
        None => 0,
    };
    &&& blocks.len() == lead + calls.len()
    &&& (lead == 1 ==> block_text(blocks[0]) == text)
    &&& forall|i: int| 0 <= i < calls.len() ==> is_call_block(blocks[lead + i], #[trigger] calls[i], parsed[i])
}

/// `block` is the tool call block for `call` with the parsed arguments.
pub open spec fn is_call_block(block: ContentBlock, call: WireToolCall, parsed: Option<JsonValue>) -> bool {
    block matches ContentBlock::ToolCall { id, tool, arguments } && id@ == call.id@ && tool@ == call.function.name@
        && arguments@ == argument_model(parsed)
}

/// The assistant content for a reply text and its tool calls. `parsed[i]`
/// is the JSON of the arguments text of `calls[i]`, `None` where that text
/// is not JSON: a malformed call never breaks the turn.
pub fn assistant_content(text: Option<String>, calls: Vec<WireToolCall>, parsed: Vec<Option<JsonValue>>) -> (r:
    Vec<ContentBlock>)
    requires
        parsed@.len() == calls@.len(),
    ensures
        assistant_blocks(opt_view(text), calls@, parsed@, r@),
{
    let ghost text_view = opt_view(text);
    let ghost calls_view = calls@;
    let ghost parsed_view = parsed@;
    let mut content: Vec<ContentBlock> = Vec::new();
    match text {
        Some(t) => {
            if t.unicode_len() > 0 {
                content.push(ContentBlock::Text { text: t });
            }
        },
        None => {},
    }
    let lead = content.len();
    let mut calls = calls;
    let mut parsed = parsed;
    let mut i: usize = 0;
    let n = calls.len();
    let ghost rest_calls = calls@;
    while i < n
        invariant
            n == calls_view.len(),
            parsed_view.len() == n,
            i <= n,
            lead <= 1,
            lead == 1 <==> (text_view matches Some(t) && t.len() > 0),
            lead == 1 ==> block_text(content@[0]) == text_view,
            content@.len() == lead + i,
            calls@ == calls_view.subrange(i as int, n as int),
            parsed@ == parsed_view.subrange(i as int, n as int),
            forall|j: int| 0 <= j < i ==> is_call_block(content@[lead + j], #[trigger] calls_view[j], parsed_view[j]),
        decreases n - i,
    {
        let call = calls.remove(0);
        let parsed_here = parsed.remove(0);
        proof {
            assert(call == calls_view[i as int]);
            assert(parsed_here == parsed_view[i as int]);
            assert(calls@ =~= calls_view.subrange(i + 1, n as int));
            assert(parsed@ =~= parsed_view.subrange(i + 1, n as int));
        }
        let arguments = match parsed_here {
            Some(v) => v,
            None => JsonValue::empty_object(),
        };
        let ghost before = content@;
        content.push(ContentBlock::ToolCall { id: call.id, tool: call.function.name, arguments });
        proof {
            assert(is_call_block(content@[lead + i], calls_view[i as int], parsed_view[i as int]));
            assert forall|j: int| 0 <= j < i + 1 implies is_call_block(
                content@[lead + j],
                #[trigger] calls_view[j],
                parsed_view[j],
            ) by {
                if j < i {
                    assert(content@[lead + j] == before[lead + j]);
                }
            }
        }
        i = i + 1;
    }
    content
}

/// The error for a completion reply without choices.
pub open spec fn no_choices_message() -> Seq<char> {
    "completion response had no choices"@
}

/// Fold a non-streamed completion reply into the provider-agnostic response:
/// its first choice becomes the assistant message. `parsed` holds the JSON
/// of that choice's tool call arguments (see [`assistant_content`]).
pub fn completion_from_body(body: CompletionBody, parsed: Vec<Option<JsonValue>>) -> (r: Result<
    CompletionResponse,
>)
    requires
        body.choices@.len() > 0 ==> parsed@.len() == body.choices@[0].message.tool_calls@.len(),
    ensures
        body.choices@.len() == 0 <==> r is Err,
        r matches Err(e) ==> e is Provider && e.detail() == no_choices_message(),
        r matches Ok(resp) ==> {
            let choice = body.choices@[0];
            &&& resp.message.role == Role::Assistant
            &&& assistant_blocks(
                opt_view(choice.message.content),
                choice.message.tool_calls@,
                parsed@,
                resp.message.content@,
            )
            &&& opt_view(resp.finish_reason) == opt_view(choice.finish_reason)
            &&& match body.usage {
                Some(u) => resp.usage == Some(
                    Usage { prompt_tokens: u.prompt_tokens, completion_tokens: u.completion_tokens },
                ),
                None => resp.usage is None,
            }
        },
{
    let mut choices = body.choices;
    if choices.len() == 0 {
        return Err(AppError::Provider(String::from_str("completion response had no choices")));
    }
    let choice = choices.remove(0);
    let usage = match body.usage {
        Some(u) => Some(Usage { prompt_tokens: u.prompt_tokens, completion_tokens: u.completion_tokens }),
        None => None,
    };
    let content = assistant_content(choice.message.content, choice.message.tool_calls, parsed);
    Ok(
        CompletionResponse {
            message: ChatMessage { role: Role::Assistant, content },
            usage,
            finish_reason: choice.finish_reason,
        },
    )
}

/// One streamed `data:` chunk: the delta variant of a reply.
#[derive(Debug)]
pub struct StreamChunk {
    pub choices: Vec<StreamChoice>,
}

/// One choice of a streamed chunk.
#[derive(Debug)]
pub struct StreamChoice {
    pub delta: StreamDelta,
    pub finish_reason: Option<String>,
}

/// What a chunk adds to the reply.
#[derive(Debug)]
pub struct StreamDelta {
    pub content: Option<String>,
    pub tool_calls: Vec<StreamToolCall>,
}

/// A fragment of a tool call, keyed by its position in the reply.
#[derive(Debug)]
pub struct StreamToolCall {
    pub index: usize,
    pub id: Option<String>,
    pub function: Option<StreamFunction>,
}

/// A fragment of a tool call's function.
#[derive(Debug)]
pub struct StreamFunction {
    pub name: Option<String>,
    pub arguments: Option<String>,
}

/// The text a chunk's first choice adds, which is what a streaming UI
/// renders as it arrives.
pub fn first_delta_text(chunk: &StreamChunk) -> (r: Option<&str>)
    ensures
        match r {
            Some(t) => chunk.choices@.len() > 0 && opt_view(chunk.choices@[0].delta.content) == Some(t@),
            None => chunk.choices@.len() == 0 || chunk.choices@[0].delta.content is None,
        },
{
    if chunk.choices.len() == 0 {
        return None;
    }
    match &chunk.choices[0].delta.content {
        Some(t) => Some(t.as_str()),
        None => None,
    }
}

/// What is known of one streamed tool call so far.
pub struct CallFragments {
    pub id: Seq<char>,
    pub name: Seq<char>,
    pub arguments: Seq<char>,
}

/// A tool call nothing is known of yet.
pub open spec fn empty_call() -> CallFragments {
    CallFragments { id: Seq::empty(), name: Seq::empty(), arguments: Seq::empty() }
}

/// What a tool call holds.
pub open spec fn fragments_of(call: WireToolCall) -> CallFragments {
    CallFragments { id: call.id@, name: call.function.name@, arguments: call.function.arguments@ }
}

/// A fragment merged into a call: a given id or name replaces the known
/// one, given arguments text is appended.
pub open spec fn merge_fragment(call: CallFragments, fragment: StreamToolCall) -> CallFragments {
    CallFragments {
        id: match fragment.id {
            Some(i) => i@,
            None => call.id,
        },
        name: match fragment.function {
            Some(f) => match f.name {
                Some(n) => n@,
                None => call.name,
            },
            None => call.name,
        },
        arguments: match fragment.function {
            Some(f) => match f.arguments {
                Some(a) => call.arguments + a@,
                None => call.arguments,
            },
            None => call.arguments,
        },
    }
}

/// The calls after one fragment: merged into the call of its index, which
/// starts out empty.
pub open spec fn fold_tool_call(calls: Map<usize, CallFragments>, fragment: StreamToolCall) -> Map<
    usize,
    CallFragments,
> {
    let before = if calls.contains_key(fragment.index) {
        calls[fragment.index]
    } else {
        empty_call()
    };
    calls.insert(fragment.index, merge_fragment(before, fragment))
}

/// The calls after a sequence of fragments, in order.
pub open spec fn fold_tool_calls(calls: Map<usize, CallFragments>, fragments: Seq<StreamToolCall>) -> Map<
    usize,
    CallFragments,
>
    decreases fragments.len(),
{
    if fragments.len() == 0 {
        calls
    } else {
        fold_tool_call(fold_tool_calls(calls, fragments.drop_last()), fragments.last())
    }
}

/// What a stream has delivered so far.
pub struct AccumulatorModel {
    pub text: Seq<char>,
    pub calls: Map<usize, CallFragments>,
    pub finish_reason: Option<Seq<char>>,
}

/// The state after one streamed choice: its text appended, its tool call
/// fragments merged, its finish reason (when given) recorded.
pub open spec fn fold_choice(m: AccumulatorModel, choice: StreamChoice) -> AccumulatorModel {
    AccumulatorModel {
        text: match choice.delta.content {
            Some(t) => m.text + t@,
            None => m.text,
        },
        calls: fold_tool_calls(m.calls, choice.delta.tool_calls@),
        finish_reason: match choice.finish_reason {
            Some(f) => Some(f@),
            None => m.finish_reason,
        },
    }
}

/// The state after a sequence of choices, in order.
pub open spec fn fold_choices(m: AccumulatorModel, choices: Seq<StreamChoice>) -> AccumulatorModel
    decreases choices.len(),
{
    if choices.len() == 0 {
        m
    } else {
        fold_choice(fold_choices(m, choices.drop_last()), choices.last())
    }
}

/// `listing` lists every call of `calls` once, by increasing index.
pub open spec fn lists_calls(calls: Map<usize, CallFragments>, listing: Seq<(usize, CallFragments)>) -> bool {
    &&& forall|i: int, j: int| 0 <= i < j < listing.len() ==> #[trigger] listing[i].0 < #[trigger] listing[j].0
    &&& forall|i: int|
        0 <= i < listing.len() ==> calls.contains_key(#[trigger] listing[i].0) && calls[listing[i].0]
            == listing[i].1
    &&& forall|k: usize| #[trigger]
        calls.contains_key(k) ==> exists|i: int| 0 <= i < listing.len() && #[trigger] listing[i].0 == k
}

/// Accumulates streamed deltas into a final message.
pub struct StreamAccumulator {
    text: String,
    /// Tool call fragments merged so far, keyed by their stream index.
    tool_calls: HashMap<usize, WireToolCall>,
    /// The stream indices seen so far, in increasing order: the order the
    /// calls are listed in once the stream ends.
    indices: Vec<usize>,
    finish_reason: Option<String>,
}

/// A call with a fragment merged in.
fn merged_call(call: &WireToolCall, fragment: &StreamToolCall) -> (r: WireToolCall)
    ensures
        fragments_of(r) == merge_fragment(fragments_of(*call), *fragment),
{
    let id = match &fragment.id {
        Some(i) => i.clone(),
        None => call.id.clone(),
    };
    let mut name = call.function.name.clone();
    let mut arguments = call.function.arguments.clone();
    match &fragment.function {
        Some(f) => {
            match &f.name {
                Some(n) => {
                    name = n.clone();
                },
                None => {},
            }
            match &f.arguments {
                Some(a) => {
                    arguments.append(a.as_str());
                },
                None => {},
            }
        },
        None => {},
    }
    WireToolCall { id, function: WireFunction { name, arguments } }
}

impl StreamAccumulator {
    /// What the calls hold, by stream index.
    pub closed spec fn calls_view(&self) -> Map<usize, CallFragments> {
        self.tool_calls@.map_values(|c: WireToolCall| fragments_of(c))
    }

    /// The calls, listed by increasing stream index.
    pub closed spec fn listing(&self) -> Seq<(usize, CallFragments)> {
        self.indices@.map_values(|k: usize| (k, self.calls_view()[k]))
    }

    /// What the stream has delivered so far.
    pub closed spec fn model(&self) -> AccumulatorModel {
        AccumulatorModel { text: self.text@, calls: self.calls_view(), finish_reason: opt_view(self.finish_reason) }
    }

    /// The listing lists exactly the delivered calls.
    pub open spec fn wf(&self) -> bool {
        lists_calls(self.model().calls, self.listing())
    }

    /// An accumulator that has seen nothing.
    pub fn new() -> (a: StreamAccumulator)
        ensures
            a.wf(),
            a.model() == (AccumulatorModel { text: Seq::empty(), calls: Map::empty(), finish_reason: None }),
    {
        let a = StreamAccumulator {
            text: String::new(),
            tool_calls: HashMap::new(),
            indices: Vec::new(),
            finish_reason: None,
        };
        proof {
            assert(a.listing() =~= Seq::empty());
            assert(a.calls_view() =~= Map::empty());
        }
        a
    }

    /// Merge one tool call fragment into the call of its index.
    fn merge_tool_call(&mut self, fragment: &StreamToolCall)
        requires
            old(self).wf(),
        ensures
            final(self).wf(),
            final(self).model() == (AccumulatorModel {
                calls: fold_tool_call(old(self).model().calls, *fragment),
                ..old(self).model()
            }),
    {
        let idx = fragment.index;
        let ghost calls = self.calls_view();
        let ghost listing = self.listing();
        let ghost new_calls = fold_tool_call(calls, *fragment);
        let known = match self.tool_calls.get(&idx) {
            Some(existing) => Some(merged_call(existing, fragment)),
            None => None,
        };
        match known {
            Some(call) => {
                proof {
                    assert(calls.contains_key(idx));
                }
                self.tool_calls.insert(idx, call);
                proof {
                    assert(self.calls_view() =~= new_calls);
                    let l2 = self.listing();
                    assert forall|i: int|
                        0 <= i < l2.len() implies new_calls.contains_key(#[trigger] l2[i].0) && new_calls[l2[i].0]
                        == l2[i].1 by {
                        assert(l2[i].0 == listing[i].0);
                    }
                    assert forall|i: int, j: int| 0 <= i < j < l2.len() implies #[trigger] l2[i].0 < #[trigger] l2[j].0 by {
                        assert(l2[i].0 == listing[i].0 && l2[j].0 == listing[j].0);
                    }
                    assert forall|k: usize| #[trigger]
                        new_calls.contains_key(k) implies exists|i: int| 0 <= i < l2.len() && #[trigger] l2[i].0 == k by {
                        let i = choose|i: int| 0 <= i < listing.len() && #[trigger] listing[i].0 == k;
                        assert(l2[i].0 == k);
                    }
                }
            },
            None => {
                proof {
                    assert(!calls.contains_key(idx));
                }
                let empty = WireToolCall {
                    id: String::new(),
                    function: WireFunction { name: String::new(), arguments: String::new() },
                };
                let call = merged_call(&empty, fragment);
                proof {
                    assert(fragments_of(empty) == empty_call());
                }
                self.tool_calls.insert(idx, call);
                let mut p: usize = 0;
                while p < self.indices.len() && self.indices[p] < idx
                    invariant
                        p <= self.indices@.len(),
                        listing.len() == self.indices@.len(),
                        forall|j: int| 0 <= j < self.indices@.len() ==> #[trigger] listing[j].0 == self.indices@[j],
                        forall|j: int| 0 <= j < p ==> #[trigger] listing[j].0 < idx,
                    decreases self.indices@.len() - p,
                {
                    p = p + 1;
                }
                let ghost order = self.indices@;
                self.indices.insert(p, idx);
                proof {
                    assert(self.calls_view() =~= new_calls);
                    let l2 = self.listing();
                    assert(self.indices@ == order.insert(p as int, idx));
                    assert forall|i: int| 0 <= i < l2.len() implies #[trigger] l2[i].0 == (if i < p {
                        listing[i].0
                    } else if i == p {
                        idx
                    } else {
                        listing[i - 1].0
                    }) by {}
                    if p < listing.len() {
                        if listing[p as int].0 == idx {
                            assert(calls.contains_key(listing[p as int].0));
                        }
                        assert(idx < listing[p as int].0);
                    }
                    assert forall|i: int, j: int| 0 <= i < j < l2.len() implies #[trigger] l2[i].0 < #[trigger] l2[j].0 by {
                        if i < p && j == p {
                            assert(listing[i].0 < idx);
                        } else if i == p && j > p {
                            if j - 1 > p {
                                assert(listing[p as int].0 < listing[j - 1].0);
                            }
                        } else if i < p && j > p {
                            assert(listing[i].0 < listing[j - 1].0);
                        } else if i > p {
                            assert(listing[i - 1].0 < listing[j - 1].0);
                        } else {
                            assert(listing[i].0 < listing[j].0);
                        }
                    }
                    assert forall|i: int|
                        0 <= i < l2.len() implies new_calls.contains_key(#[trigger] l2[i].0) && new_calls[l2[i].0]
                        == l2[i].1 by {
                        if i < p {
                            assert(calls.contains_key(listing[i].0));
                        } else if i > p {
                            assert(calls.contains_key(listing[i - 1].0));
                        }
                    }
                    assert forall|k: usize| #[trigger]
                        new_calls.contains_key(k) implies exists|i: int| 0 <= i < l2.len() && #[trigger] l2[i].0 == k by {
                        if k == idx {
                            assert(l2[p as int].0 == k);
                        } else {
                            assert(calls.contains_key(k));
                            let i = choose|i: int| 0 <= i < listing.len() && #[trigger] listing[i].0 == k;
                            if i < p {
                                assert(l2[i].0 == k);
                            } else {
                                assert(l2[i + 1].0 == k);
                            }
                        }
                    }
                }
            },
        }
    }

    /// Fold one chunk's choices into the accumulator, in order.
    pub fn apply(&mut self, chunk: &StreamChunk)
        requires
            old(self).wf(),
        ensures
            final(self).wf(),
            final(self).model() == fold_choices(old(self).model(), chunk.choices@),
    {
        let ghost start = self.model();
        let mut i: usize = 0;
        while i < chunk.choices.len()
            invariant
                i <= chunk.choices@.len(),
                self.wf(),
                self.model() == fold_choices(start, chunk.choices@.subrange(0, i as int)),
            decreases chunk.choices@.len() - i,
        {
            let choice = &chunk.choices[i];
            let ghost before = self.model();
            proof {
                assert(chunk.choices@.subrange(0, i + 1).drop_last() =~= chunk.choices@.subrange(0, i as int));
            }
            match &choice.delta.content {
                Some(content) => {
                    self.text.append(content.as_str());
                },
                None => {},
            }
            let ghost calls_before = self.model().calls;
            let fragments = &choice.delta.tool_calls;
            let mut j: usize = 0;
            while j < fragments.len()
                invariant
                    j <= fragments@.len(),
                    self.wf(),
                    self.model().calls == fold_tool_calls(calls_before, fragments@.subrange(0, j as int)),
                    self.model().text == (match choice.delta.content {
                        Some(t) => before.text + t@,
                        None => before.text,
                    }),
                    self.model().finish_reason == before.finish_reason,
                decreases fragments@.len() - j,
            {
                proof {
                    assert(fragments@.subrange(0, j + 1).drop_last() =~= fragments@.subrange(0, j as int));
                }
                self.merge_tool_call(&fragments[j]);
                j = j + 1;
            }
            proof {
                assert(fragments@.subrange(0, fragments@.len() as int) =~= fragments@);
            }
            match &choice.finish_reason {
                Some(f) => {
                    self.finish_reason = Some(f.clone());
                },
                None => {},
            }
            i = i + 1;
        }
        proof {
            assert(chunk.choices@.subrange(0, chunk.choices@.len() as int) =~= chunk.choices@);
        }
    }

    /// The arguments texts of the calls, by increasing stream index: what
    /// must be parsed as JSON before [`StreamAccumulator::finish`].
    pub fn pending_arguments(&self) -> (r: Vec<String>)
        requires
            self.wf(),
        ensures
            r@.len() == self.listing().len(),
            forall|i: int| 0 <= i < r@.len() ==> #[trigger] r@[i]@ == self.listing()[i].1.arguments,
    {
        let mut out: Vec<String> = Vec::new();
        let mut i: usize = 0;
        while i < self.indices.len()
            invariant
                self.wf(),
                i <= self.indices@.len(),
                out@.len() == i,
                forall|j: int| 0 <= j < i ==> #[trigger] out@[j]@ == self.listing()[j].1.arguments,
            decreases self.indices@.len() - i,
        {
            let k = self.indices[i];
            proof {
                assert(self.listing()[i as int].0 == k);
                assert(self.calls_view().contains_key(k));
            }
            match self.tool_calls.get(&k) {
                Some(call) => {
                    out.push(call.function.arguments.clone());
                },
                None => {
                    proof {
                        assert(false);
                    }
                },
            }
            i = i + 1;
        }
        out
    }

    /// Build the final provider-agnostic response: the streamed text (when
    /// not empty), then the tool calls by increasing stream index, each with
    /// its parsed arguments (`parsed[i]` for the `i`-th, `{}` where the text
    /// was not JSON).
    pub fn finish(self, parsed: Vec<Option<JsonValue>>) -> (r: CompletionResponse)
        requires
            self.wf(),
            parsed@.len() == self.listing().len(),
        ensures
            r.message.role == Role::Assistant,
            r.usage is None,
            opt_view(r.finish_reason) == self.model().finish_reason,
            ({
                let lead: int = if self.model().text.len() > 0 { 1 } else { 0 };
                &&& r.message.content@.len() == lead + self.listing().len()
                &&& (lead == 1 ==> block_text(r.message.content@[0]) == Some(self.model().text))
                &&& forall|i: int|
                    0 <= i < self.listing().len() ==> is_fragments_block(
                        r.message.content@[lead + i],
                        #[trigger] self.listing()[i].1,
                        parsed@[i],
                    )
            }),
    {
        let ghost listing = self.listing();
        let ghost calls = self.calls_view();
        let mut table = self.tool_calls;
        let indices = self.indices;
        let mut out: Vec<WireToolCall> = Vec::new();
        let n = indices.len();
        let mut i: usize = 0;
        proof {
            assert forall|j: int| 0 <= j < n implies #[trigger] listing[j].0 == indices@[j] by {}
            assert forall|j: int, m: int| 0 <= j < m < n implies indices@[j] < indices@[m] by {
                assert(listing[j].0 < listing[m].0);
            }
            assert forall|j: int| 0 <= j < n implies table@.contains_key(#[trigger] indices@[j]) && fragments_of(
                table@[indices@[j]],
            ) == calls[indices@[j]] by {
                assert(calls.contains_key(listing[j].0));
            }
        }
        while i < n
            invariant
                n == indices@.len(),
                n == listing.len(),
                i <= n,
                forall|j: int| 0 <= j < n ==> #[trigger] listing[j].0 == indices@[j],
                forall|j: int, m: int| 0 <= j < m < n ==> indices@[j] < indices@[m],
                forall|j: int| 0 <= j < n ==> calls.contains_key(#[trigger] listing[j].0) && calls[listing[j].0] == listing[j].1,
                forall|j: int| i <= j < n ==> table@.contains_key(#[trigger] indices@[j]) && fragments_of(
                    table@[indices@[j]],
                ) == calls[indices@[j]],
                out@.len() == i,
                forall|j: int| 0 <= j < i ==> fragments_of(#[trigger] out@[j]) == listing[j].1,
            decreases n - i,
        {
            let k = indices[i];
            proof {
                assert(listing[i as int].0 == k);
            }
            let ghost before = table@;
            match table.remove(&k) {
                Some(call) => {
                    proof {
                        assert(fragments_of(call) == listing[i as int].1);
                        assert forall|j: int| i + 1 <= j < n implies table@.contains_key(#[trigger] indices@[j])
                            && fragments_of(table@[indices@[j]]) == calls[indices@[j]] by {
                            assert(indices@[i as int] < indices@[j]);
                            assert(before.contains_key(indices@[j]));
                        }
                    }
                    out.push(call);
                },
                None => {
                    proof {
                        assert(false);
                    }
                },
            }
            i = i + 1;
        }
        let text = self.text;
        let ghost text_view = text@;
        let content = assistant_content(Some(text), out, parsed);
        proof {
            let lead: int = if text_view.len() > 0 { 1 } else { 0 };
            assert forall|i: int| 0 <= i < listing.len() implies is_fragments_block(
                content@[lead + i],
                #[trigger] listing[i].1,
                parsed@[i],
            ) by {
                assert(is_call_block(content@[lead + i], out@[i], parsed@[i]));
            }
        }
        CompletionResponse {
            message: ChatMessage { role: Role::Assistant, content },
            usage: None,
            finish_reason: self.finish_reason,
        }
    }
}

/// `block` is the tool call block for a streamed call with the parsed
/// arguments.
pub open spec fn is_fragments_block(block: ContentBlock, call: CallFragments, parsed: Option<JsonValue>) -> bool {
    block matches ContentBlock::ToolCall { id, tool, arguments } && id@ == call.id && tool@ == call.name
        && arguments@ == argument_model(parsed)
}

/// The payload an SSE line carries: the text after `data: ` in the trimmed
/// line, unless it is the `[DONE]` marker.
pub open spec fn sse_payload(line: Seq<char>) -> Option<Seq<char>> {
    let t = trim(line);
    if t.len() >= 6 && t.subrange(0, 6) == "data: "@ {
        let p = t.subrange(6, t.len() as int);
        if p == "[DONE]"@ {
            None
        } else {
            Some(p)
        }
    } else {
        None
    }
}

/// The payloads of a sequence of lines, in order.
pub open spec fn sse_payloads(lines: Seq<Seq<char>>) -> Seq<Seq<char>>
    decreases lines.len(),
{
    if lines.len() == 0 {
        Seq::empty()
    } else {
        let rest = sse_payloads(lines.drop_last());
        match sse_payload(lines.last()) {
            Some(p) => rest.push(p),
            None => rest,
        }
    }
}

/// What `String::from_utf8_lossy` makes of a run of bytes.
pub uninterp spec fn utf8_lossy(bytes: Seq<u8>) -> Seq<char>;

/// Decodes bytes as UTF-8, invalid sequences becoming U+FFFD.
///
/// Calls `String::from_utf8_lossy`. The contract names the result (a
/// function of the bytes alone) and states what std documents of valid
/// input: it decodes to the text the bytes encode.
#[verifier::external_body]
fn decode_lossy(bytes: &[u8]) -> (r: String)
    ensures
        r@ == utf8_lossy(bytes@),
        vstd::utf8::valid_utf8(bytes@) ==> r@ == vstd::utf8::decode_utf8(bytes@),
{
    String::from_utf8_lossy(bytes).into_owned()
}

/// The payload of one decoded line.
fn text_payload(line: &str) -> (r: Option<String>)
    ensures
        opt_view(r) == sse_payload(line@),
{
    let t = trim_str(line);
    let n = t.unicode_len();
    if n < 6 {
        return None;
    }
    if !str_eq(t.substring_char(0, 6), "data: ") {
        return None;
    }
    let p = t.substring_char(6, n);
    if str_eq(p, "[DONE]") {
        None
    } else {
        Some(String::from_str(p))
    }
}

/// The payload of one line of bytes, decoded as UTF-8 (invalid sequences
/// replaced); also the way to read the unterminated bytes left in the
/// buffer once the stream has ended.
pub fn line_payload(line: &[u8]) -> (r: Option<String>)
    ensures
        opt_view(r) == sse_payload(utf8_lossy(line@)),
{
    let text = decode_lossy(line);
    text_payload(text.as_str())
}

/// The newline byte that ends every server-sent event line.
pub open spec fn newline() -> u8 {
    10u8
}

/// The decoded texts of lines of bytes.
pub open spec fn decoded(lines: Seq<Seq<u8>>) -> Seq<Seq<char>> {
    lines.map_values(|l: Seq<u8>| utf8_lossy(l))
}

/// The newline-terminated lines of `s`: every piece between newline bytes
/// but the last, which is still waiting for its newline. A newline byte
/// never occurs inside the encoding of another character, so a line's
/// bytes are whole characters wherever the stream was cut.
pub open spec fn complete_lines(s: Seq<u8>) -> Seq<Seq<u8>> {
    split_on(s, newline()).drop_last()
}

/// The payloads of the complete lines of `s`.
pub open spec fn complete_payloads(s: Seq<u8>) -> Seq<Seq<char>> {
    sse_payloads(decoded(complete_lines(s)))
}

/// What stays buffered once the complete lines are consumed: the bytes
/// after the last newline, or everything when there is none.
pub open spec fn unconsumed(s: Seq<u8>) -> Seq<u8> {
    split_on(s, newline()).last()
}

/// The views of a list of byte lines.
pub open spec fn byte_lines_view(v: Seq<Vec<u8>>) -> Seq<Seq<u8>> {
    v.map_values(|x: Vec<u8>| x@)
}

/// The pieces of `s` between newline bytes.
fn split_lines(s: &[u8]) -> (r: Vec<Vec<u8>>)
    ensures
        byte_lines_view(r@) == split_on(s@, newline()),
{
    let mut out: Vec<Vec<u8>> = Vec::new();
    let mut current: Vec<u8> = Vec::new();
    let mut i: usize = 0;
    proof {
        assert(s@.subrange(0, 0) =~= Seq::<u8>::empty());
        assert(byte_lines_view(out@).push(current@) =~= split_on(s@.subrange(0, 0), newline()));
    }
    while i < s.len()
        invariant
            i <= s@.len(),
            byte_lines_view(out@).push(current@) == split_on(s@.subrange(0, i as int), newline()),
        decreases s@.len() - i,
    {
        let ghost prefix = s@.subrange(0, i + 1);
        proof {
            assert(prefix.drop_last() =~= s@.subrange(0, i as int));
            assert(prefix.last() == s@[i as int]);
            lemma_split_on_nonempty(s@.subrange(0, i as int), newline());
        }
        let b = s[i];
        if b == 10u8 {
            let ghost before = byte_lines_view(out@);
            let ghost line = current@;
            out.push(current);
            current = Vec::new();
            proof {
                assert(byte_lines_view(out@) =~= before.push(line));
                assert(byte_lines_view(out@).push(current@) =~= before.push(line).push(Seq::<u8>::empty()));
            }
        } else {
            let ghost before = byte_lines_view(out@);
            let ghost line = current@;
            current.push(b);
            proof {
                assert(byte_lines_view(out@).push(current@) =~= before.push(line).update(
                    before.push(line).len() - 1,
                    before.push(line).last().push(b),
                ));
            }
        }
        i = i + 1;
    }
    proof {
        assert(s@.subrange(0, s@.len() as int) =~= s@);
    }
    let ghost before = byte_lines_view(out@);
    let ghost line = current@;
    out.push(current);
    proof {
        assert(byte_lines_view(out@) =~= before.push(line));
    }
    out
}

/// The chunk payloads of a buffer of server-sent events: each complete line
/// (ended by a newline byte; a `\r` before it is dropped by trimming),
/// decoded as UTF-8, that reads `data: <payload>` once trimmed, `[DONE]`
/// excepted. The unterminated rest is left for a later chunk.
pub fn frame_payloads(buffer: &[u8]) -> (r: Vec<String>)
    ensures
        strings_view(r@) == complete_payloads(buffer@),
{
    let lines = split_lines(buffer);
    let ghost lines_view = byte_lines_view(lines@);
    let ghost texts = decoded(lines_view);
    proof {
        lemma_split_on_nonempty(buffer@, newline());
    }
    let complete = lines.len() - 1;
    let mut out: Vec<String> = Vec::new();
    let mut i: usize = 0;
    while i < complete
        invariant
            lines_view == byte_lines_view(lines@),
            lines_view == split_on(buffer@, newline()),
            texts == decoded(lines_view),
            complete == lines@.len() - 1,
            i <= complete,
            strings_view(out@) == sse_payloads(texts.subrange(0, i as int)),
        decreases complete - i,
    {
        proof {
            assert(texts.subrange(0, i + 1).drop_last() =~= texts.subrange(0, i as int));
            assert(texts[i as int] == utf8_lossy(lines@[i as int]@));
        }
        let ghost before = strings_view(out@);
        match line_payload(lines[i].as_slice()) {
            Some(p) => {
                out.push(p);
                proof {
                    assert(strings_view(out@) =~= before.push(out@.last()@));
                }
            },
            None => {},
        }
        i = i + 1;
    }
    proof {
        assert(texts.subrange(0, complete as int) =~= decoded(lines_view.drop_last()));
    }
    out
}

/// The buffer with its complete lines dropped.
pub fn drain_consumed(buffer: &[u8]) -> (r: Vec<u8>)
    ensures
        r@ == unconsumed(buffer@),
{
    let mut lines = split_lines(buffer);
    proof {
        lemma_split_on_nonempty(buffer@, newline());
        assert(byte_lines_view(lines@).last() == lines@.last()@);
    }
    match lines.pop() {
        Some(rest) => rest,
        None => Vec::new(),
    }
}

/// The last piece of a split holds no separator.
proof fn lemma_split_on_last_free<T>(s: Seq<T>, c: T)
    ensures
        split_on(s, c).len() >= 1,
        forall|i: int| 0 <= i < split_on(s, c).last().len() ==> #[trigger] split_on(s, c).last()[i] != c,
    decreases s.len(),
{
    lemma_split_on_nonempty(s, c);
    if s.len() > 0 {
        lemma_split_on_last_free(s.drop_last(), c);
    }
}

/// A run without the separator splits into itself.
proof fn lemma_split_on_free<T>(s: Seq<T>, c: T)
    requires
        forall|i: int| 0 <= i < s.len() ==> #[trigger] s[i] != c,
    ensures
        split_on(s, c) == seq![s],
    decreases s.len(),
{
    if s.len() > 0 {
        let t = s.drop_last();
        assert forall|i: int| 0 <= i < t.len() implies #[trigger] t[i] != c by {
            assert(t[i] == s[i]);
        }
        lemma_split_on_free(t, c);
        assert(s.last() == s[s.len() - 1]);
        assert(t.push(s.last()) =~= s);
        assert(seq![t].update(0, t.push(s.last())) =~= seq![s]);
    } else {
        assert(s =~= Seq::<T>::empty());
    }
}

/// Splitting `a + b` splits `a`, then splits its last piece followed by `b`.
proof fn lemma_split_on_append<T>(a: Seq<T>, b: Seq<T>, c: T)
    ensures
        split_on(a + b, c) == split_on(a, c).drop_last() + split_on(split_on(a, c).last() + b, c),
    decreases b.len(),
{
    let d = split_on(a, c).drop_last();
    let l = split_on(a, c).last();
    lemma_split_on_last_free(a, c);
    if b.len() == 0 {
        assert(a + b =~= a);
        assert(l + b =~= l);
        lemma_split_on_free(l, c);
        assert(d + seq![l] =~= split_on(a, c));
    } else {
        let b1 = b.drop_last();
        lemma_split_on_append(a, b1, c);
        assert((a + b).drop_last() =~= a + b1);
        assert((a + b).last() == b.last());
        assert((l + b).drop_last() =~= l + b1);
        assert((l + b).last() == b.last());
        let q = split_on(l + b1, c);
        lemma_split_on_nonempty(l + b1, c);
        if b.last() == c {
            assert((d + q).push(Seq::<T>::empty()) =~= d + q.push(Seq::<T>::empty()));
        } else {
            assert((d + q).update((d + q).len() - 1, (d + q).last().push(b.last())) =~= d + q.update(
                q.len() - 1,
                q.last().push(b.last()),
            ));
        }
    }
}

/// The payloads of two runs of lines are those of the first, then those of
/// the second.
proof fn lemma_sse_payloads_append(x: Seq<Seq<char>>, y: Seq<Seq<char>>)
    ensures
        sse_payloads(x + y) == sse_payloads(x) + sse_payloads(y),
    decreases y.len(),
{
    if y.len() == 0 {
        assert(x + y =~= x);
        assert(sse_payloads(x) + Seq::<Seq<char>>::empty() =~= sse_payloads(x));
    } else {
        lemma_sse_payloads_append(x, y.drop_last());
        assert((x + y).drop_last() =~= x + y.drop_last());
        assert((x + y).last() == y.last());
        match sse_payload(y.last()) {
            Some(p) => {
                assert((sse_payloads(x) + sse_payloads(y.drop_last())).push(p) =~= sse_payloads(x)
                    + sse_payloads(y.drop_last()).push(p));
            },
            None => {},
        }
    }
}

/// Framing does not depend on where the stream was cut into chunks: framing
/// one chunk, keeping what it leaves unconsumed and framing that followed
/// by the next chunk yields every complete line's payload exactly once, in
/// order, as framing both chunks at once does, and leaves the same bytes
/// buffered. At the end of the stream, the payloads of the complete lines
/// followed by that of the unterminated rest are those of every line.
pub proof fn law_framing_is_chunking_independent(a: Seq<u8>, b: Seq<u8>)
    ensures
        complete_payloads(a) + complete_payloads(unconsumed(a) + b) == complete_payloads(a + b),
        unconsumed(unconsumed(a) + b) == unconsumed(a + b),
        complete_payloads(a) + sse_payloads(seq![utf8_lossy(unconsumed(a))]) == sse_payloads(
            decoded(split_on(a, newline())),
        ),
{
    let d = split_on(a, newline()).drop_last();
    let s = split_on(unconsumed(a) + b, newline());
    lemma_split_on_append(a, b, newline());
    lemma_split_on_nonempty(unconsumed(a) + b, newline());
    lemma_split_on_nonempty(a, newline());
    assert((d + s).drop_last() =~= d + s.drop_last());
    assert((d + s).last() == s.last());
    assert(decoded(d + s.drop_last()) =~= decoded(d) + decoded(s.drop_last()));
    lemma_sse_payloads_append(decoded(d), decoded(s.drop_last()));
    assert(decoded(split_on(a, newline())) =~= decoded(d) + seq![utf8_lossy(unconsumed(a))]);
    lemma_sse_payloads_append(decoded(d), seq![utf8_lossy(unconsumed(a))]);
}

/// The bytes of a sequence of chunks, one after the other.
pub open spec fn concat_chunks(chunks: Seq<Seq<u8>>) -> Seq<u8>
    decreases chunks.len(),
{
    if chunks.len() == 0 {
        Seq::empty()
    } else {
        concat_chunks(chunks.drop_last()) + chunks.last()
    }
}

/// What reading a stream chunk by chunk has framed and left buffered: each
/// chunk is appended to what the chunks before it left, the complete lines
/// of that buffer are framed and the rest is kept.
pub open spec fn stream_framing(chunks: Seq<Seq<u8>>) -> (Seq<Seq<char>>, Seq<u8>)
    decreases chunks.len(),
{
    if chunks.len() == 0 {
        (Seq::empty(), Seq::empty())
    } else {
        let before = stream_framing(chunks.drop_last());
        let buffer = before.1 + chunks.last();
        (before.0 + complete_payloads(buffer), unconsumed(buffer))
    }
}

/// However a stream's bytes are cut into chunks, reading it chunk by chunk
/// frames the payloads of its complete lines exactly once, in order, and
/// leaves its unterminated end buffered, as framing all its bytes at once
/// does.
pub proof fn law_stream_framing_is_chunking_independent(chunks: Seq<Seq<u8>>)
    ensures
        stream_framing(chunks) == (complete_payloads(concat_chunks(chunks)), unconsumed(concat_chunks(chunks))),
    decreases chunks.len(),
{
    if chunks.len() == 0 {
        let e = Seq::<u8>::empty();
        assert(split_on(e, newline()) == seq![e]);
        assert(seq![e].drop_last() =~= Seq::<Seq<u8>>::empty());
        assert(decoded(Seq::<Seq<u8>>::empty()) =~= Seq::<Seq<char>>::empty());
    } else {
        let rest = chunks.drop_last();
        law_stream_framing_is_chunking_independent(rest);
        law_framing_is_chunking_independent(concat_chunks(rest), chunks.last());
    }
}

} // verus!

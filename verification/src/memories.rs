//! Memories: long-term facts and summaries of a campaign's turn ranges.

use vstd::prelude::*;
use vstd::string::*;

use crate::errors::{checked_by, AppError, Result};
use crate::ids::{is_utc_rfc3339, is_uuid_v4_text, new_id, now_rfc3339};
use crate::llm::{join, join_texts, role_wire, texts_of, ChatMessage, Role, ToolSchema};
use crate::text::{trim, trim_str, utf8_len, utf8_len_exceeds};
use crate::turnflow::service::MessageDto;

verus! {

/// Maximum summary length; summaries are meant to be compact.
pub const MAX_SUMMARY_LENGTH: usize = 4000;

/// A long-term fact/summary belonging to a campaign.
#[derive(Debug)]
pub struct Memory {
    pub id: String,
    pub campaign_id: String,
    pub summary: String,
    /// First turn covered (inclusive).
    pub source_from: i64,
    /// Last turn covered (inclusive).
    pub source_to: i64,
    pub created_at: String,
}

/// Input for creating a memory.
#[derive(Debug)]
pub struct NewMemory {
    pub campaign_id: String,
    pub summary: String,
    pub source_from: i64,
    pub source_to: i64,
}

/// Why a memory input is refused, if it is: a blank summary, a summary over
/// the byte limit, or an inverted turn range.
pub open spec fn new_memory_error(input: NewMemory) -> Option<Seq<char>> {
    if trim(input.summary@).len() == 0 {
        Some("memory summary must not be empty"@)
    } else if utf8_len(input.summary@) > MAX_SUMMARY_LENGTH {
        Some("memory summary is too long (max 4000 chars)"@)
    } else if input.source_to < input.source_from {
        Some("memory turn range is inverted (to < from)"@)
    } else {
        None
    }
}

impl NewMemory {
    /// Validate creation input before it reaches storage.
    pub fn validate(&self) -> (r: Result<()>)
        ensures
            checked_by(r, new_memory_error(*self)),
    {
        if trim_str(self.summary.as_str()).unicode_len() == 0 {
            return Err(AppError::Domain(String::from_str("memory summary must not be empty")));
        }
        if utf8_len_exceeds(self.summary.as_str(), MAX_SUMMARY_LENGTH) {
            return Err(AppError::Domain(String::from_str("memory summary is too long (max 4000 chars)")));
        }
        if self.source_to < self.source_from {
            return Err(AppError::Domain(String::from_str("memory turn range is inverted (to < from)")));
        }
        Ok(())
    }
}

/// Build the memory a valid input describes: campaign id and summary
/// trimmed, turn range kept.
pub fn memory_from_input(input: NewMemory, id: String, now: String) -> (r: Result<Memory>)
    ensures
        match new_memory_error(input) {
            Some(msg) => r matches Err(e) && e is Domain && e.detail() == msg,
            None => r matches Ok(m) && m.id@ == id@ && m.campaign_id@ == trim(input.campaign_id@) && m.summary@
                == trim(input.summary@) && m.source_from == input.source_from && m.source_to == input.source_to
                && m.created_at@ == now@,
        },
{
    match input.validate() {
        Ok(()) => {},
        Err(e) => return Err(e),
    }
    Ok(Memory {
        id,
        campaign_id: String::from_str(trim_str(input.campaign_id.as_str())),
        summary: String::from_str(trim_str(input.summary.as_str())),
        source_from: input.source_from,
        source_to: input.source_to,
        created_at: now,
    })
}

/// Build a new memory with a fresh id and the current time.
pub fn prepare_memory(input: NewMemory) -> (r: Result<Memory>)
    ensures
        match new_memory_error(input) {
            Some(msg) => r matches Err(e) && e is Domain && e.detail() == msg,
            None => r matches Ok(m) && is_uuid_v4_text(m.id@) && is_utc_rfc3339(m.created_at@) && m.campaign_id@ == trim(input.campaign_id@)
                && m.summary@ == trim(input.summary@) && m.source_from == input.source_from && m.source_to
                == input.source_to,
        },
{
    match input.validate() {
        Ok(()) => {},
        Err(e) => return Err(e),
    }
    memory_from_input(input, new_id(), now_rfc3339())
}

/// Wire shape for a summarization request.
#[derive(Debug)]
pub struct SummarizeRequest {
    pub campaign_id: String,
    pub source_from: i64,
    pub source_to: i64,
}

/// The output budget of a summary completion.
pub const SUMMARY_MAX_TOKENS: u32 = 500;

/// The instruction the chronicler model gets.
pub open spec fn chronicler_prompt() -> Seq<char> {
    "You are a game chronicler. Summarize the roleplay transcript into 2-4 concise sentences covering only facts a future GM must remember: locations, items, NPCs, injuries, world changes. Do not invent anything not in the transcript."@
}

/// One transcript line: the role in brackets, then the text blocks joined
/// by spaces.
pub open spec fn transcript_line(row: MessageDto) -> Seq<char> {
    "["@ + role_wire(row.role) + "] "@ + join(texts_of(row.content@), " "@)
}

/// The transcript of a turn range: one line per row, newline-separated.
pub open spec fn transcript_text(rows: Seq<MessageDto>) -> Seq<char> {
    join(rows.map_values(|r: MessageDto| transcript_line(r)), "\n"@)
}

/// A summary needs at least one transcript row.
pub fn check_summary_range(rows: &Vec<MessageDto>) -> (r: Result<()>)
    ensures
        r is Ok <==> rows@.len() > 0,
        r matches Err(e) ==> e is Domain && e.detail() == "no messages in the given turn range"@,
{
    if rows.len() == 0 {
        return Err(AppError::Domain(String::from_str("no messages in the given turn range")));
    }
    Ok(())
}

/// The transcript handed to the chronicler.
pub fn transcript_of(rows: &Vec<MessageDto>) -> (r: String)
    ensures
        r@ == transcript_text(rows@),
{
    let ghost parts = rows@.map_values(|row: MessageDto| transcript_line(row));
    let mut out = String::new();
    let mut k: usize = 0;
    while k < rows.len()
        invariant
            parts == rows@.map_values(|row: MessageDto| transcript_line(row)),
            k <= rows@.len(),
            out@ == join(parts.subrange(0, k as int), "\n"@),
        decreases rows@.len() - k,
    {
        proof {
            assert(parts.subrange(0, k + 1).drop_last() =~= parts.subrange(0, k as int));
            assert(parts[k as int] == transcript_line(rows@[k as int]));
            if k == 0 {
                assert(parts.subrange(0, 1) =~= seq![parts[0]]);
                assert(out@ =~= Seq::<char>::empty());
            }
        }
        if k > 0 {
            out.append("\n");
        }
        let ghost before = out@;
        let text = join_texts(&rows[k].content, " ");
        out.append("[");
        out.append(rows[k].role.as_str());
        out.append("] ");
        out.append(text.as_str());
        proof {
            assert(out@ =~= before + transcript_line(rows@[k as int]));
        }
        k = k + 1;
    }
    proof {
        assert(parts.subrange(0, rows@.len() as int) =~= parts);
    }
    out
}

/// The conversation asking for a summary: the chronicler instruction, then
/// the transcript as the user message.
pub fn summary_request_messages(transcript: String) -> (r: Vec<ChatMessage>)
    ensures
        r@.len() == 2,
        r@[0].role == Role::System,
        r@[0].content@.len() == 1,
        crate::llm::block_text(r@[0].content@[0]) == Some(chronicler_prompt()),
        r@[1].role == Role::User,
        r@[1].content@.len() == 1,
        crate::llm::block_text(r@[1].content@[0]) == Some(transcript@),
{
    let mut messages: Vec<ChatMessage> = Vec::new();
    messages.push(
        ChatMessage::text(
            Role::System,
            String::from_str(
                "You are a game chronicler. Summarize the roleplay transcript into 2-4 concise sentences covering only facts a future GM must remember: locations, items, NPCs, injuries, world changes. Do not invent anything not in the transcript.",
            ),
        ),
    );
    messages.push(ChatMessage::text(Role::User, transcript));
    messages
}

/// A summary request, the sampling temperature aside: the chronicler
/// conversation, no tools offered, a cap on the reply's tokens, and no
/// streaming.
#[derive(Debug)]
pub struct SummaryRequest {
    pub messages: Vec<ChatMessage>,
    pub tools: Vec<ToolSchema>,
    pub max_tokens: Option<u32>,
    pub stream: bool,
}

/// The request asking for a summary of `transcript`.
pub fn summary_request(transcript: String) -> (r: SummaryRequest)
    ensures
        r.messages@.len() == 2,
        r.messages@[0].role == Role::System,
        r.messages@[0].content@.len() == 1,
        crate::llm::block_text(r.messages@[0].content@[0]) == Some(chronicler_prompt()),
        r.messages@[1].role == Role::User,
        r.messages@[1].content@.len() == 1,
        crate::llm::block_text(r.messages@[1].content@[0]) == Some(transcript@),
        r.tools@.len() == 0,
        r.max_tokens == Some(SUMMARY_MAX_TOKENS),
        !r.stream,
{
    SummaryRequest {
        messages: summary_request_messages(transcript),
        tools: Vec::new(),
        max_tokens: Some(SUMMARY_MAX_TOKENS),
        stream: false,
    }
}

/// The summary a reply carries: its text blocks joined by spaces, trimmed;
/// an empty summary is a provider error and nothing gets stored.
pub fn summary_from_reply(reply: &ChatMessage) -> (r: Result<String>)
    ensures
        match r {
            Ok(s) => s@ == trim(join(texts_of(reply.content@), " "@)) && s@.len() > 0,
            Err(e) => e is Provider && e.detail() == "provider returned an empty summary"@ && trim(
                join(texts_of(reply.content@), " "@),
            ).len() == 0,
        },
{
    let joined = join_texts(&reply.content, " ");
    let summary = trim_str(joined.as_str());
    if summary.unicode_len() == 0 {
        return Err(AppError::Provider(String::from_str("provider returned an empty summary")));
    }
    Ok(String::from_str(summary))
}

/// The memory a generated summary is stored as.
pub fn summarized_memory(campaign_id: &str, summary: String, source_from: i64, source_to: i64) -> (m: Memory)
    ensures
        is_uuid_v4_text(m.id@),
        is_utc_rfc3339(m.created_at@),
        m.campaign_id@ == campaign_id@,
        m.summary@ == summary@,
        m.source_from == source_from,
        m.source_to == source_to,
{
    Memory {
        id: new_id(),
        campaign_id: String::from_str(campaign_id),
        summary,
        source_from,
        source_to,
        created_at: now_rfc3339(),
    }
}

} // verus!

//! The simulated-call endpoint's logic: request validation, record ids,
//! the analysis prompt and the tools the model may call.
use vstd::prelude::*;
use vstd::string::*;

use crate::api::ApiError;
use crate::prompt::{excerpt_block, push_excerpt};
use crate::text::{lemma_concat_left, lemma_concat_right, push_str, same_text, signed_decimal};

pub use crate::util::format_record_id;

verus! {

broadcast use vstd::string::group_string_axioms;

/// The key part of a database record id.
#[derive(Debug, Clone)]
pub enum RecordKey {
    Text(String),
    Number(i64),
    /// Any other kind of key, carried as its debug rendering.
    Other(String),
}

/// A database record id: a table and a key.
#[derive(Debug, Clone)]
pub struct RecordRef {
    pub table: String,
    pub key: RecordKey,
}

/// The `table:key` text of a record id.
pub open spec fn record_ref_text(r: RecordRef) -> Seq<char> {
    r.table@ + ":"@ + match r.key {
        RecordKey::Text(s) => s@,
        RecordKey::Number(n) => signed_decimal(n as int),
        RecordKey::Other(d) => d@,
    }
}


/// One message of a simulated call.
#[derive(Debug, Clone)]
pub struct CallMessage {
    pub role: String,
    pub content: String,
    /// Bit pattern of the `f64` number of seconds to wait before the message.
    pub wait_bits: Option<u64>,
}

/// Body of a simulated call: the messages, in order.
#[derive(Debug)]
pub struct CreateCallRequest {
    pub messages: Vec<CallMessage>,
}

/// Answer to a simulated call.
pub struct CreateCallResponse {
    pub conversation_id: String,
}

/// Whether `role` names one of the two parties of a call.
pub open spec fn is_call_role(role: Seq<char>) -> bool {
    role == "customer"@ || role == "operator"@
}

/// The first message whose role is not a party of the call.
pub open spec fn first_bad_role(msgs: Seq<CallMessage>) -> Option<nat>
    decreases msgs.len(),
{
    if msgs.len() == 0 {
        None
    } else if !is_call_role(msgs[0].role@) {
        Some(0)
    } else {
        match first_bad_role(msgs.drop_first()) {
            Some(i) => Some((i + 1) as nat),
            None => None,
        }
    }
}

proof fn lemma_first_bad_role_step(msgs: Seq<CallMessage>, i: int)
    requires
        0 <= i <= msgs.len(),
        forall|k: int| 0 <= k < i ==> is_call_role(#[trigger] msgs[k].role@),
    ensures
        first_bad_role(msgs) == match first_bad_role(msgs.skip(i)) {
            Some(j) => Some((j + i) as nat),
            None => None,
        },
    decreases i,
{
    if i > 0 {
        let t = msgs.drop_first();
        assert forall|k: int| 0 <= k < i - 1 implies is_call_role(#[trigger] t[k].role@) by {
            assert(t[k] == msgs[k + 1]);
        }
        lemma_first_bad_role_step(t, i - 1);
        assert(t.skip(i - 1) =~= msgs.skip(i));
    } else {
        assert(msgs.skip(0) =~= msgs);
    }
}

/// Checks the messages of a simulated call: there must be at least one, and
/// each must come from the customer or the operator.
pub fn validate_call_messages(messages: &Vec<CallMessage>) -> (r: Result<(), ApiError>)
    ensures
        r is Ok <==> messages@.len() > 0 && first_bad_role(messages@) is None,
        messages@.len() == 0 ==> r->Err_0.is_bad_request_with("messages must not be empty"@),
        messages@.len() > 0 && first_bad_role(messages@) is Some ==> r->Err_0.is_bad_request_with(
            "invalid role '"@ + messages@[first_bad_role(messages@)->Some_0 as int].role@
                + "', must be 'customer' or 'operator'"@,
        ),
{
    let n = messages.len();
    if n == 0 {
        return Err(ApiError::BadRequest(String::from_str("messages must not be empty")));
    }
    let mut i: usize = 0;
    while i < n
        invariant
            i <= n,
            n == messages@.len(),
            forall|k: int| 0 <= k < i ==> is_call_role(#[trigger] messages@[k].role@),
        decreases n - i,
    {
        let role = messages[i].role.as_str();
        if !same_text(role, "customer") && !same_text(role, "operator") {
            proof {
                lemma_first_bad_role_step(messages@, i as int);
            }
            let mut msg = String::from_str("invalid role '");
            push_str(&mut msg, role);
            push_str(&mut msg, "', must be 'customer' or 'operator'");
            return Err(ApiError::BadRequest(msg));
        }
        i = i + 1;
    }
    proof {
        lemma_first_bad_role_step(messages@, n as int);
    }
    Ok(())
}

/// A knowledge-base chunk retrieved for a simulated call.
#[derive(Debug, Clone)]
pub struct RetrievedChunk {
    pub id: RecordRef,
    pub content: String,
    pub source_path: Option<String>,
    /// Bit pattern of the `f64` similarity score.
    pub score_bits: u64,
}

/// The lines `[role]: content` of the call so far.
pub open spec fn history_lines(history: Seq<CallMessage>) -> Seq<char>
    decreases history.len(),
{
    if history.len() == 0 {
        Seq::empty()
    } else {
        history_lines(history.drop_last()) + "["@ + history.last().role@ + "]: "@
            + history.last().content@ + "\n"@
    }
}

/// The excerpt blocks of the retrieved chunks, numbered from 1.
pub open spec fn retrieved_excerpts(chunks: Seq<RetrievedChunk>) -> Seq<char>
    decreases chunks.len(),
{
    if chunks.len() == 0 {
        Seq::empty()
    } else {
        retrieved_excerpts(chunks.drop_last()) + excerpt_block(
            (chunks.len() - 1) as nat,
            chunks.last().source_path,
            chunks.last().content@,
        )
    }
}

/// The analysis prompt of a simulated call.
pub open spec fn call_prompt(history: Seq<CallMessage>, chunks: Seq<RetrievedChunk>) -> Seq<char> {
    "## Conversation so far\n"@ + history_lines(history) + "\n## Relevant knowledge base excerpts\n"@
        + retrieved_excerpts(chunks)
}

/// Writes the analysis prompt of a simulated call; see `call_prompt`.
pub fn build_call_prompt(history: &Vec<CallMessage>, chunks: &Vec<RetrievedChunk>) -> (p: String)
    requires
        chunks@.len() < usize::MAX,
    ensures
        p@ == call_prompt(history@, chunks@),
{
    let mut prompt = String::from_str("## Conversation so far\n");
    let n = history.len();
    let mut i: usize = 0;
    while i < n
        invariant
            i <= n,
            n == history@.len(),
            prompt@ == "## Conversation so far\n"@ + history_lines(history@.take(i as int)),
        decreases n - i,
    {
        push_str(&mut prompt, "[");
        push_str(&mut prompt, history[i].role.as_str());
        push_str(&mut prompt, "]: ");
        push_str(&mut prompt, history[i].content.as_str());
        push_str(&mut prompt, "\n");
        proof {
            let t = history@.take(i + 1);
            assert(t.drop_last() =~= history@.take(i as int));
            assert(prompt@ =~= "## Conversation so far\n"@ + history_lines(t));
        }
        i = i + 1;
    }
    assert(history@.take(n as int) =~= history@);
    push_str(&mut prompt, "\n## Relevant knowledge base excerpts\n");
    let ghost head = prompt@;
    let m = chunks.len();
    let mut j: usize = 0;
    while j < m
        invariant
            j <= m,
            m == chunks@.len(),
            m < usize::MAX,
            prompt@ == head + retrieved_excerpts(chunks@.take(j as int)),
        decreases m - j,
    {
        push_excerpt(&mut prompt, j, &chunks[j].source_path, chunks[j].content.as_str());
        proof {
            let t = chunks@.take(j + 1);
            assert(t.drop_last() =~= chunks@.take(j as int));
            assert(prompt@ =~= head + retrieved_excerpts(t));
        }
        j = j + 1;
    }
    assert(chunks@.take(m as int) =~= chunks@);
    assert(prompt@ =~= call_prompt(history@, chunks@));
    prompt
}

/// A tool that the analysis model may call.
#[derive(Debug, Clone, Copy, PartialEq, Eq, Structural)]
pub enum CallTool {
    Highlight,
    Summary,
    Suggest,
    NoAnswer,
}

/// The tool a tool call names, by its type name or its schema name.
pub open spec fn tool_named(name: Seq<char>) -> Option<CallTool> {
    if name == "Highlight"@ || name == "highlight"@ {
        Some(CallTool::Highlight)
    } else if name == "Summary"@ || name == "summary"@ {
        Some(CallTool::Summary)
    } else if name == "Suggest"@ || name == "suggest"@ {
        Some(CallTool::Suggest)
    } else if name == "NoAnswer"@ || name == "no_answer"@ {
        Some(CallTool::NoAnswer)
    } else {
        None
    }
}

/// The intelligence kind under which a tool's output is stored.
pub open spec fn tool_kind(t: CallTool) -> Seq<char> {
    match t {
        CallTool::Highlight => "highlight"@,
        CallTool::Summary => "summary"@,
        CallTool::Suggest => "suggestion"@,
        CallTool::NoAnswer => "summary"@,
    }
}

impl CallTool {
    /// The tool a tool call names; `None` for a tool the model does not have,
    /// which is skipped.
    pub fn from_name(name: &str) -> (r: Option<CallTool>)
        ensures
            r == tool_named(name@),
    {
        if same_text(name, "Highlight") || same_text(name, "highlight") {
            Some(CallTool::Highlight)
        } else if same_text(name, "Summary") || same_text(name, "summary") {
            Some(CallTool::Summary)
        } else if same_text(name, "Suggest") || same_text(name, "suggest") {
            Some(CallTool::Suggest)
        } else if same_text(name, "NoAnswer") || same_text(name, "no_answer") {
            Some(CallTool::NoAnswer)
        } else {
            None
        }
    }

    /// The intelligence kind under which the tool's output is stored.
    pub fn kind(self) -> (s: &'static str)
        ensures
            s@ == tool_kind(self),
    {
        match self {
            CallTool::Highlight => "highlight",
            CallTool::Summary => "summary",
            CallTool::Suggest => "suggestion",
            CallTool::NoAnswer => "summary",
        }
    }
}

/// The summary stored when no knowledge-base excerpt was retrieved.
pub fn no_excerpts_summary() -> (s: &'static str)
    ensures
        s@ == "No relevant knowledge base excerpts found."@,
{
    "No relevant knowledge base excerpts found."
}

/// What the analysis of one call message reports to `call_analysis_next`.
#[derive(Debug, Clone, Copy)]
pub enum CallEvent {
    /// The knowledge-base search for the message returned `chunks` chunks.
    Retrieved { chunks: usize },
    /// The model answered, with tool calls or not and with text or not.
    ModelAnswered { tool_calls: bool, text: bool },
}

/// What the analysis of one call message does next.
#[derive(Debug)]
pub enum CallAction {
    /// Store this summary for the message and go on to the next message.
    StoreSummary { text: String },
    /// Ask the model, with the prompt built from the history and the chunks.
    AskModel,
    /// Store the output of each tool the model called, under its kind.
    StoreToolOutputs,
    /// Store the model's text as the message's summary.
    StoreTextAsSummary,
    /// Go on to the next message.
    Next,
}

/// The next step of analysing a call message: with no chunk found, a summary
/// saying so is stored; otherwise the model is asked, and its tool outputs
/// are stored, or, failing those, its text as the summary.
pub fn call_analysis_next(event: CallEvent) -> (a: CallAction)
    ensures
        match event {
            CallEvent::Retrieved { chunks } => if chunks == 0 {
                a matches CallAction::StoreSummary { text } && text@
                    == "No relevant knowledge base excerpts found."@
            } else {
                a is AskModel
            },
            CallEvent::ModelAnswered { tool_calls, text } => if tool_calls {
                a is StoreToolOutputs
            } else if text {
                a is StoreTextAsSummary
            } else {
                a is Next
            },
        },
{
    match event {
        CallEvent::Retrieved { chunks } => {
            if chunks == 0 {
                CallAction::StoreSummary { text: String::from_str(no_excerpts_summary()) }
            } else {
                CallAction::AskModel
            }
        },
        CallEvent::ModelAnswered { tool_calls, text } => {
            if tool_calls {
                CallAction::StoreToolOutputs
            } else if text {
                CallAction::StoreTextAsSummary
            } else {
                CallAction::Next
            }
        },
    }
}

/// The line of the history section that a call message becomes.
pub open spec fn call_line(m: CallMessage) -> Seq<char> {
    "["@ + m.role@ + "]: "@ + m.content@ + "\n"@
}

/// Where the line of message `i` starts in the history section: the total
/// length of the lines of the messages before it.
pub open spec fn call_line_offset(history: Seq<CallMessage>, i: int) -> int
    decreases i,
{
    if i <= 0 {
        0
    } else {
        call_line_offset(history, i - 1) + call_line(history[i - 1]).len()
    }
}

proof fn lemma_call_line_offset_prefix(h: Seq<CallMessage>, p: Seq<CallMessage>, i: int)
    requires
        0 <= i <= p.len(),
        p.len() <= h.len(),
        forall|k: int| 0 <= k < p.len() ==> h[k] == p[k],
    ensures
        call_line_offset(h, i) == call_line_offset(p, i),
    decreases i,
{
    if i > 0 {
        lemma_call_line_offset_prefix(h, p, i - 1);
    }
}

proof fn lemma_call_line_offset_grows(h: Seq<CallMessage>, i: int, j: int)
    requires
        0 <= i <= j,
    ensures
        call_line_offset(h, i) <= call_line_offset(h, j),
    decreases j,
{
    if i < j {
        lemma_call_line_offset_grows(h, i, j - 1);
    }
}

proof fn lemma_history_lines_split(h: Seq<CallMessage>)
    requires
        h.len() > 0,
    ensures
        history_lines(h) == history_lines(h.drop_last()) + call_line(h.last()),
        forall|k: int| 0 <= k < h.len() - 1 ==> h.drop_last()[k] == h[k],
{
    assert(history_lines(h) =~= history_lines(h.drop_last()) + call_line(h.last()));
}

proof fn lemma_history_lines_len(h: Seq<CallMessage>)
    ensures
        history_lines(h).len() == call_line_offset(h, h.len() as int),
    decreases h.len(),
{
    if h.len() > 0 {
        let p = h.drop_last();
        lemma_history_lines_split(h);
        lemma_history_lines_len(p);
        lemma_call_line_offset_prefix(h, p, p.len() as int);
    }
}

proof fn lemma_history_line_at(h: Seq<CallMessage>, i: int)
    requires
        0 <= i < h.len(),
    ensures
        history_lines(h).subrange(call_line_offset(h, i), call_line_offset(h, i + 1)) == call_line(h[i]),
    decreases h.len(),
{
    let p = h.drop_last();
    lemma_history_lines_split(h);
    lemma_history_lines_len(p);
    lemma_call_line_offset_prefix(h, p, p.len() as int);
    if i < h.len() - 1 {
        lemma_history_line_at(p, i);
        lemma_call_line_offset_prefix(h, p, i);
        lemma_call_line_offset_prefix(h, p, i + 1);
        lemma_call_line_offset_grows(p, i + 1, p.len() as int);
        lemma_call_line_offset_grows(p, i, i + 1);
        lemma_call_line_offset_grows(p, 0, i);
        lemma_concat_left(history_lines(p), call_line(h.last()), call_line_offset(p, i), call_line_offset(p, i + 1));
    } else {
        lemma_concat_right(history_lines(p), call_line(h.last()));
    }
}

/// The history section of the call prompt writes every message of the
/// history, in order, as its own `[role]: content` line: the prompt starts
/// with the section's title, the line of message `i` comes right after the
/// lines of the messages before it, and the excerpts section follows the
/// last line.
pub proof fn lemma_call_prompt_lists_every_message(history: Seq<CallMessage>, chunks: Seq<RetrievedChunk>)
    ensures
        ({
            let p = call_prompt(history, chunks);
            let head = "## Conversation so far\n"@;
            let tail = "\n## Relevant knowledge base excerpts\n"@;
            let end = head.len() + call_line_offset(history, history.len() as int);
            &&& p.subrange(0, head.len() as int) == head
            &&& forall|i: int|
                0 <= i < history.len() ==> p.subrange(
                    head.len() + call_line_offset(history, i),
                    head.len() + call_line_offset(history, i + 1),
                ) == call_line(#[trigger] history[i])
            &&& p.subrange(end, end + tail.len()) == tail
        }),
{
    lemma_history_lines_len(history);
    let p = call_prompt(history, chunks);
    let head = "## Conversation so far\n"@;
    let tail = "\n## Relevant knowledge base excerpts\n"@;
    let hl = history_lines(history);
    let rest = tail + retrieved_excerpts(chunks);
    assert(p =~= head + (hl + rest));
    lemma_concat_left(head, hl + rest, 0, head.len() as int);
    assert(head.subrange(0, head.len() as int) =~= head);
    assert forall|i: int| 0 <= i < history.len() implies p.subrange(
        head.len() + call_line_offset(history, i),
        head.len() + call_line_offset(history, i + 1),
    ) == call_line(#[trigger] history[i]) by {
        lemma_history_line_at(history, i);
        lemma_call_line_offset_grows(history, i, i + 1);
        lemma_call_line_offset_grows(history, i + 1, history.len() as int);
        lemma_call_line_offset_grows(history, 0, i);
        assert(p.subrange(head.len() + call_line_offset(history, i), head.len() + call_line_offset(history, i + 1))
            =~= hl.subrange(call_line_offset(history, i), call_line_offset(history, i + 1)));
    }
    let end = head.len() + call_line_offset(history, history.len() as int);
    assert(p.subrange(end, end + tail.len()) =~= tail);
}

} // verus!

//! The prompts that present a conversation and the retrieved knowledge-base
//! excerpts to the language model.
use vstd::prelude::*;
use vstd::string::*;

use crate::intelligence::ChunkMatch;
use crate::text::{decimal, lemma_concat_left, lemma_concat_right, push_decimal, push_str};

verus! {

broadcast use vstd::string::group_string_axioms;

/// The prompt block for the excerpt at 0-based position `i`.
pub open spec fn excerpt_block(i: nat, source: Option<String>, content: Seq<char>) -> Seq<char> {
    "### Excerpt "@ + decimal(i + 1) + " (source: "@ + (match source {
        Some(s) => s@,
        None => "unknown"@,
    }) + ")\n"@ + content + "\n"@
}

/// Appends the prompt block of the excerpt at 0-based position `i`.
pub fn push_excerpt(prompt: &mut String, i: usize, source: &Option<String>, content: &str)
    requires
        i < usize::MAX,
    ensures
        final(prompt)@ == old(prompt)@ + excerpt_block(i as nat, *source, content@),
{
    push_str(prompt, "### Excerpt ");
    push_decimal(prompt, (i + 1) as u64);
    push_str(prompt, " (source: ");
    match source {
        Some(s) => push_str(prompt, s.as_str()),
        None => push_str(prompt, "unknown"),
    }
    push_str(prompt, ")\n");
    push_str(prompt, content);
    push_str(prompt, "\n");
}

/// The excerpt blocks of the retrieved chunks, numbered from 1.
pub open spec fn chunk_excerpts(chunks: Seq<ChunkMatch>) -> Seq<char>
    decreases chunks.len(),
{
    if chunks.len() == 0 {
        Seq::empty()
    } else {
        chunk_excerpts(chunks.drop_last()) + excerpt_block(
            (chunks.len() - 1) as nat,
            chunks.last().source_path,
            chunks.last().content@,
        )
    }
}

/// The lines `**role**: content` of the conversation so far.
pub open spec fn turn_lines(turns: Seq<(String, String)>) -> Seq<char>
    decreases turns.len(),
{
    if turns.len() == 0 {
        Seq::empty()
    } else {
        turn_lines(turns.drop_last()) + "**"@ + turns.last().0@ + "**: "@ + turns.last().1@
            + "\n"@
    }
}

/// The copilot prompt for `trigger`: the conversation so far (when there is
/// one), the message needing assistance, and the excerpts.
pub open spec fn copilot_prompt(
    trigger: Seq<char>,
    turns: Seq<(String, String)>,
    chunks: Seq<ChunkMatch>,
) -> Seq<char> {
    (if turns.len() > 0 {
        "## Conversation so far\n"@ + turn_lines(turns) + "\n"@
    } else {
        Seq::empty()
    }) + "## Current message requiring assistance\n"@ + trigger + "\n"@
        + "\n## Relevant knowledge base excerpts\n"@ + chunk_excerpts(chunks)
}

/// Appends the excerpt blocks of `chunks`.
fn push_chunk_excerpts(prompt: &mut String, chunks: &Vec<ChunkMatch>)
    requires
        chunks@.len() < usize::MAX,
    ensures
        final(prompt)@ == old(prompt)@ + chunk_excerpts(chunks@),
{
    let n = chunks.len();
    let mut i: usize = 0;
    while i < n
        invariant
            i <= n,
            n == chunks@.len(),
            n < usize::MAX,
            prompt@ == old(prompt)@ + chunk_excerpts(chunks@.take(i as int)),
        decreases n - i,
    {
        let ghost before = prompt@;
        push_excerpt(prompt, i, &chunks[i].source_path, chunks[i].content.as_str());
        proof {
            let t = chunks@.take(i + 1);
            assert(t.drop_last() =~= chunks@.take(i as int));
            assert(t.last() == chunks@[i as int]);
            assert(prompt@ =~= old(prompt)@ + chunk_excerpts(t));
        }
        i = i + 1;
    }
    assert(chunks@.take(n as int) =~= chunks@);
}

/// Writes the copilot prompt; see `copilot_prompt`.
pub fn build_prompt(
    trigger_content: &str,
    conversation: &Vec<(String, String)>,
    chunks: &Vec<ChunkMatch>,
) -> (p: String)
    requires
        chunks@.len() < usize::MAX,
    ensures
        p@ == copilot_prompt(trigger_content@, conversation@, chunks@),
{
    let mut prompt = String::new();
    if conversation.len() > 0 {
        push_str(&mut prompt, "## Conversation so far\n");
        let n = conversation.len();
        let mut i: usize = 0;
        while i < n
            invariant
                i <= n,
                n == conversation@.len(),
                prompt@ == "## Conversation so far\n"@ + turn_lines(conversation@.take(i as int)),
            decreases n - i,
        {
            push_str(&mut prompt, "**");
            push_str(&mut prompt, conversation[i].0.as_str());
            push_str(&mut prompt, "**: ");
            push_str(&mut prompt, conversation[i].1.as_str());
            push_str(&mut prompt, "\n");
            proof {
                let t = conversation@.take(i + 1);
                assert(t.drop_last() =~= conversation@.take(i as int));
                assert(prompt@ =~= "## Conversation so far\n"@ + turn_lines(t));
            }
            i = i + 1;
        }
        assert(conversation@.take(n as int) =~= conversation@);
        push_str(&mut prompt, "\n");
    }
    let ghost head = prompt@;
    push_str(&mut prompt, "## Current message requiring assistance\n");
    push_str(&mut prompt, trigger_content);
    push_str(&mut prompt, "\n");
    push_str(&mut prompt, "\n## Relevant knowledge base excerpts\n");
    push_chunk_excerpts(&mut prompt, chunks);
    assert(prompt@ =~= copilot_prompt(trigger_content@, conversation@, chunks@));
    prompt
}

/// The line of the conversation section that a turn becomes.
pub open spec fn turn_line(turn: (String, String)) -> Seq<char> {
    "**"@ + turn.0@ + "**: "@ + turn.1@ + "\n"@
}

/// Where the line of turn `i` starts in the conversation section: the total
/// length of the lines of the turns before it.
pub open spec fn turn_line_offset(turns: Seq<(String, String)>, i: int) -> int
    decreases i,
{
    if i <= 0 {
        0
    } else {
        turn_line_offset(turns, i - 1) + turn_line(turns[i - 1]).len()
    }
}

proof fn lemma_turn_line_offset_prefix(h: Seq<(String, String)>, p: Seq<(String, String)>, i: int)
    requires
        0 <= i <= p.len(),
        p.len() <= h.len(),
        forall|k: int| 0 <= k < p.len() ==> h[k] == p[k],
    ensures
        turn_line_offset(h, i) == turn_line_offset(p, i),
    decreases i,
{
    if i > 0 {
        lemma_turn_line_offset_prefix(h, p, i - 1);
    }
}

proof fn lemma_turn_line_offset_grows(h: Seq<(String, String)>, i: int, j: int)
    requires
        0 <= i <= j,
    ensures
        turn_line_offset(h, i) <= turn_line_offset(h, j),
    decreases j,
{
    if i < j {
        lemma_turn_line_offset_grows(h, i, j - 1);
    }
}

proof fn lemma_turn_lines_split(h: Seq<(String, String)>)
    requires
        h.len() > 0,
    ensures
        turn_lines(h) == turn_lines(h.drop_last()) + turn_line(h.last()),
        forall|k: int| 0 <= k < h.len() - 1 ==> h.drop_last()[k] == h[k],
{
    assert(turn_lines(h) =~= turn_lines(h.drop_last()) + turn_line(h.last()));
}

proof fn lemma_turn_lines_len(h: Seq<(String, String)>)
    ensures
        turn_lines(h).len() == turn_line_offset(h, h.len() as int),
    decreases h.len(),
{
    if h.len() > 0 {
        let p = h.drop_last();
        lemma_turn_lines_split(h);
        lemma_turn_lines_len(p);
        lemma_turn_line_offset_prefix(h, p, p.len() as int);
    }
}

proof fn lemma_turn_line_at(h: Seq<(String, String)>, i: int)
    requires
        0 <= i < h.len(),
    ensures
        turn_lines(h).subrange(turn_line_offset(h, i), turn_line_offset(h, i + 1)) == turn_line(h[i]),
    decreases h.len(),
{
    let p = h.drop_last();
    lemma_turn_lines_split(h);
    lemma_turn_lines_len(p);
    lemma_turn_line_offset_prefix(h, p, p.len() as int);
    if i < h.len() - 1 {
        lemma_turn_line_at(p, i);
        lemma_turn_line_offset_prefix(h, p, i);
        lemma_turn_line_offset_prefix(h, p, i + 1);
        lemma_turn_line_offset_grows(p, i + 1, p.len() as int);
        lemma_turn_line_offset_grows(p, i, i + 1);
        lemma_turn_line_offset_grows(p, 0, i);
        lemma_concat_left(turn_lines(p), turn_line(h.last()), turn_line_offset(p, i), turn_line_offset(p, i + 1));
    } else {
        lemma_concat_right(turn_lines(p), turn_line(h.last()));
    }
}

/// The text of the prompt from the current message's section on.
pub open spec fn prompt_after_conversation(trigger: Seq<char>, chunks: Seq<ChunkMatch>) -> Seq<char> {
    "## Current message requiring assistance\n"@ + (trigger + "\n"@ + "\n## Relevant knowledge base excerpts\n"@
        + chunk_excerpts(chunks))
}

proof fn lemma_copilot_prompt_shape(trigger: Seq<char>, turns: Seq<(String, String)>, chunks: Seq<ChunkMatch>)
    ensures
        turns.len() == 0 ==> copilot_prompt(trigger, turns, chunks) == prompt_after_conversation(trigger, chunks),
        turns.len() > 0 ==> copilot_prompt(trigger, turns, chunks) == "## Conversation so far\n"@ + (turn_lines(
            turns,
        ) + ("\n"@ + prompt_after_conversation(trigger, chunks))),
{
    let after = prompt_after_conversation(trigger, chunks);
    if turns.len() == 0 {
        assert(copilot_prompt(trigger, turns, chunks) =~= after);
    } else {
        assert(copilot_prompt(trigger, turns, chunks) =~= "## Conversation so far\n"@ + (turn_lines(turns) + (
        "\n"@ + after)));
    }
}

proof fn lemma_nested_concat_middle(a: Seq<char>, b: Seq<char>, c: Seq<char>, i: int, j: int)
    requires
        0 <= i <= j <= b.len(),
    ensures
        (a + (b + c)).subrange(a.len() + i, a.len() + j) == b.subrange(i, j),
{
    assert((a + (b + c)).subrange(a.len() + i, a.len() + j) =~= b.subrange(i, j));
}

proof fn lemma_nested_concat_after(a: Seq<char>, b: Seq<char>, c: Seq<char>, d: Seq<char>)
    ensures
        (a + (b + (c + d))).subrange((a.len() + b.len()) as int, (a.len() + b.len() + c.len()) as int) == c,
{
    assert((a + (b + (c + d))).subrange((a.len() + b.len()) as int, (a.len() + b.len() + c.len()) as int) =~= c);
}

/// The copilot prompt shows the whole conversation whenever there is one: for
/// a non-empty conversation it starts with the section's title, the line of
/// turn `i` comes right after the lines of the turns before it, and the
/// current message's section follows the last line; only an empty
/// conversation leaves the section out, and the prompt then starts with the
/// current message's section.
pub proof fn lemma_copilot_prompt_lists_every_turn(
    trigger: Seq<char>,
    turns: Seq<(String, String)>,
    chunks: Seq<ChunkMatch>,
)
    ensures
        ({
            let p = copilot_prompt(trigger, turns, chunks);
            let head = "## Conversation so far\n"@;
            let current = "## Current message requiring assistance\n"@;
            let end = head.len() + turn_line_offset(turns, turns.len() as int);
            &&& turns.len() > 0 ==> p.subrange(0, head.len() as int) == head
            &&& forall|i: int|
                0 <= i < turns.len() ==> p.subrange(
                    head.len() + turn_line_offset(turns, i),
                    head.len() + turn_line_offset(turns, i + 1),
                ) == turn_line(#[trigger] turns[i])
            &&& turns.len() > 0 ==> p.subrange(end, end + 1 + current.len()) == "\n"@ + current
            &&& turns.len() == 0 ==> p.subrange(0, current.len() as int) == current
        }),
{
    let p = copilot_prompt(trigger, turns, chunks);
    let head = "## Conversation so far\n"@;
    let current = "## Current message requiring assistance\n"@;
    let rest = trigger + "\n"@ + "\n## Relevant knowledge base excerpts\n"@ + chunk_excerpts(chunks);
    let after = prompt_after_conversation(trigger, chunks);
    lemma_copilot_prompt_shape(trigger, turns, chunks);
    if turns.len() == 0 {
        lemma_concat_left(current, rest, 0, current.len() as int);
        assert(current.subrange(0, current.len() as int) =~= current);
        assert(p == current + rest);
        assert(p.subrange(0, current.len() as int) == current);
    } else {
        lemma_turn_lines_len(turns);
        let tl = turn_lines(turns);
        let nl_after = "\n"@ + after;
        lemma_concat_left(head, tl + nl_after, 0, head.len() as int);
        assert(head.subrange(0, head.len() as int) =~= head);
        assert forall|i: int| 0 <= i < turns.len() implies p.subrange(
            head.len() + turn_line_offset(turns, i),
            head.len() + turn_line_offset(turns, i + 1),
        ) == turn_line(#[trigger] turns[i]) by {
            lemma_turn_line_at(turns, i);
            lemma_turn_line_offset_grows(turns, i, i + 1);
            lemma_turn_line_offset_grows(turns, i + 1, turns.len() as int);
            lemma_turn_line_offset_grows(turns, 0, i);
            lemma_nested_concat_middle(head, tl, nl_after, turn_line_offset(turns, i), turn_line_offset(turns, i + 1));
        }
        let nl_current = "\n"@ + current;
        reveal_strlit("\n");
        assert(nl_current.len() == 1 + current.len());
        assert(nl_after =~= nl_current + rest);
        assert(p =~= head + (tl + (nl_current + rest)));
        lemma_nested_concat_after(head, tl, nl_current, rest);
        let end = head.len() + turn_line_offset(turns, turns.len() as int);
        assert(end == head.len() + tl.len());
        assert(end + 1 + current.len() == head.len() + tl.len() + nl_current.len());
        assert(p.subrange(end, end + 1 + current.len()) == nl_current);
        assert(p.subrange(0, head.len() as int) == head);
    }
}

} // verus!

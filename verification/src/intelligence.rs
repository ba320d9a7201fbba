//! The copilot pipeline's own logic: locating the passages an answer cites,
//! reading record ids, merging neighbouring chunks and writing the prompt.
use vstd::prelude::*;
use vstd::string::*;

use crate::events::{Reference, ServerMessage};
use crate::search::{byte_len, fuzzy_find, fuzzy_match};
use crate::text::{lowercase, push_decimal, push_signed_decimal, push_str, decimal, signed_decimal, to_lowercase, chars_of, chars_match_at};

verus! {

broadcast use vstd::string::group_string_axioms;

/// A knowledge-base chunk retrieved for a message.
#[derive(Debug, Clone)]
pub struct ChunkMatch {
    pub id: String,
    pub document_id: String,
    pub content: String,
    pub source_path: Option<String>,
    pub char_offset: i64,
    pub chunk_index: i64,
    /// Bit pattern of the `f64` similarity score.
    pub score_bits: u64,
}

/// A passage the model cites: its text and the source path of its document.
#[derive(Debug, Clone)]
pub struct RespondReference {
    pub text: String,
    pub source_path: String,
}

/// Whether chunk `c` comes from the document at `source_path`.
pub open spec fn chunk_from(c: ChunkMatch, source_path: Seq<char>) -> bool {
    c.source_path matches Some(p) && p@ == source_path
}

/// The first of `chunks` that comes from `source_path`.
pub open spec fn first_chunk_from(chunks: Seq<ChunkMatch>, source_path: Seq<char>) -> Option<nat>
    decreases chunks.len(),
{
    if chunks.len() == 0 {
        None
    } else if chunk_from(chunks[0], source_path) {
        Some(0)
    } else {
        match first_chunk_from(chunks.drop_first(), source_path) {
            Some(i) => Some(i + 1),
            None => None,
        }
    }
}

/// `a + b` wrapped around the `usize` range, as `usize::wrapping_add`.
pub open spec fn wrapped_sum(a: usize, b: usize) -> usize {
    vstd::wrapping::usize_specs::wrapping_add(a, b)
}

/// Where a cited passage lies in its document: the first chunk from its
/// source, the passage's byte range within that chunk (or, when it cannot be
/// found, the chunk's start, for as many bytes as the passage has, cut at the
/// chunk's end), shifted by the chunk's offset in the document.
pub open spec fn reference_in(text: Seq<char>, source_path: Seq<char>, chunks: Seq<ChunkMatch>) -> Option<(Seq<char>, usize, usize)> {
    match first_chunk_from(chunks, source_path) {
        None => None,
        Some(i) => {
            let c = chunks[i as int];
            let range: (nat, nat) = match fuzzy_match(c.content@, text) {
                Some(q) => q,
                None => (0, if byte_len(text) < byte_len(c.content@) {
                    byte_len(text)
                } else {
                    byte_len(c.content@)
                }),
            };
            Some((
                c.document_id@,
                wrapped_sum(c.char_offset as usize, range.0 as usize),
                wrapped_sum(c.char_offset as usize, range.1 as usize),
            ))
        },
    }
}

proof fn lemma_first_chunk_step(chunks: Seq<ChunkMatch>, source_path: Seq<char>, i: int)
    requires
        0 <= i < chunks.len(),
        forall|k: int| 0 <= k < i ==> !chunk_from(#[trigger] chunks[k], source_path),
    ensures
        first_chunk_from(chunks, source_path) == (if chunk_from(chunks[i], source_path) {
            Some(i as nat)
        } else {
            match first_chunk_from(chunks.skip(i + 1), source_path) {
                Some(j) => Some((j + i + 1) as nat),
                None => None,
            }
        }),
    decreases i,
{
    if i > 0 {
        let t = chunks.drop_first();
        assert forall|k: int| 0 <= k < i - 1 implies !chunk_from(#[trigger] t[k], source_path) by {
            assert(t[k] == chunks[k + 1]);
        }
        lemma_first_chunk_step(t, source_path, i - 1);
        assert(t.skip(i) =~= chunks.skip(i + 1));
    } else {
        assert(chunks.skip(1) =~= chunks.drop_first());
    }
}

/// Whether the optional source path `p` is `source_path`.
fn source_is(p: &Option<String>, source_path: &str) -> (b: bool)
    ensures
        b == (p matches Some(q) && q@ == source_path@),
{
    match p {
        Some(q) => {
            let a = chars_of(q.as_str());
            let b = chars_of(source_path);
            if a.len() != b.len() {
                return false;
            }
            let r = chars_match_at(&a, &b, 0);
            assert(a@.subrange(0, b@.len() as int) =~= a@);
            r
        },
        None => false,
    }
}

/// Locates a passage cited by the model in the chunks retrieved for it; see
/// `reference_in`.
pub fn process_reference(text: &str, source_path: &str, chunks: &Vec<ChunkMatch>) -> (r: Option<Reference>)
    ensures
        match (r, reference_in(text@, source_path@, chunks@)) {
            (Some(rf), Some(q)) => rf.document_id@ == q.0 && rf.start == q.1 && rf.end == q.2
                && rf.text@ == text@,
            (None, None) => true,
            _ => false,
        },
{
    let n = chunks.len();
    let mut i: usize = 0;
    while i < n
        invariant
            i <= n,
            n == chunks@.len(),
            forall|k: int| 0 <= k < i ==> !chunk_from(#[trigger] chunks@[k], source_path@),
        decreases n - i,
    {
        if source_is(&chunks[i].source_path, source_path) {
            proof {
                lemma_first_chunk_step(chunks@, source_path@, i as int);
            }
            let c = &chunks[i];
            let (rel_start, rel_end) = match fuzzy_find(c.content.as_str(), text) {
                Some(q) => q,
                None => {
                    let tl = text.as_bytes().len();
                    let cl = c.content.as_str().as_bytes().len();
                    (0, if tl < cl { tl } else { cl })
                },
            };
            let base = c.char_offset as usize;
            return Some(
                Reference {
                    document_id: c.document_id.clone(),
                    start: base.wrapping_add(rel_start),
                    end: base.wrapping_add(rel_end),
                    text: String::from_str(text),
                },
            );
        }
        i = i + 1;
    }
    proof {
        if n > 0 {
            lemma_first_chunk_step(chunks@, source_path@, (n - 1) as int);
            assert(chunks@.skip(n as int).len() == 0);
        }
    }
    None
}

/// The references of the model's answer, in the same order so that the
/// `[[ref:N]]` markers stay aligned: each located in the chunks, or, when its
/// source is not among them, kept with an empty document id at position 0.
pub fn resolve_references(refs: &Vec<RespondReference>, chunks: &Vec<ChunkMatch>) -> (r: Vec<Reference>)
    ensures
        r@.len() == refs@.len(),
        forall|i: int| 0 <= i < refs@.len() ==> {
            let rf = #[trigger] r@[i];
            &&& match reference_in(refs@[i].text@, refs@[i].source_path@, chunks@) {
                Some(q) => rf.document_id@ == q.0 && rf.start == q.1 && rf.end == q.2,
                None => rf.document_id@.len() == 0 && rf.start == 0 && rf.end == 0,
            }
            &&& rf.text@ == refs@[i].text@
        },
{
    let mut out: Vec<Reference> = Vec::new();
    let n = refs.len();
    let mut i: usize = 0;
    while i < n
        invariant
            i <= n,
            n == refs@.len(),
            out@.len() == i,
            forall|j: int| 0 <= j < i ==> {
                let rf = #[trigger] out@[j];
                &&& match reference_in(refs@[j].text@, refs@[j].source_path@, chunks@) {
                    Some(q) => rf.document_id@ == q.0 && rf.start == q.1 && rf.end == q.2,
                    None => rf.document_id@.len() == 0 && rf.start == 0 && rf.end == 0,
                }
                &&& rf.text@ == refs@[j].text@
            },
        decreases n - i,
    {
        let item = &refs[i];
        let rf = match process_reference(item.text.as_str(), item.source_path.as_str(), chunks) {
            Some(rf) => rf,
            None => Reference {
                document_id: String::new(),
                start: 0,
                end: 0,
                text: item.text.clone(),
            },
        };
        out.push(rf);
        i = i + 1;
    }
    out
}

/// The `id` member of a record id read from a database row.
#[derive(Debug, Clone)]
pub enum IdValue {
    Text(String),
    /// A JSON number that is an integer in the `i64` range.
    Integer(i64),
    /// Anything else.
    Other,
}

/// A record id field of a database row, as JSON: a string, an object with a
/// table name `tb` (when it is a string) and an `id`, or something else.
#[derive(Debug, Clone)]
pub enum RecordIdValue {
    Text(String),
    Object { tb: Option<String>, id: IdValue },
    Other,
}

/// The `table:id` text of a record id field named `field`, or the error text.
pub open spec fn record_id_text(v: RecordIdValue, field: Seq<char>) -> Result<Seq<char>, Seq<char>> {
    match v {
        RecordIdValue::Text(s) => Ok(s@),
        RecordIdValue::Object { tb, id } => match tb {
            None => Err("missing tb in "@ + field),
            Some(t) => match id {
                IdValue::Text(s) => Ok(t@ + ":"@ + s@),
                IdValue::Integer(n) => Ok(t@ + ":"@ + signed_decimal(n as int)),
                IdValue::Other => Err("invalid id type in "@ + field),
            },
        },
        RecordIdValue::Other => Err("cannot parse record ID from "@ + field),
    }
}

fn text_then(prefix: &str, rest: &str) -> (s: String)
    ensures
        s@ == prefix@ + rest@,
{
    let mut s = String::from_str(prefix);
    push_str(&mut s, rest);
    s
}

/// Reads the record id in the field `field` of a database row as `table:id`.
pub fn parse_record_id(value: &RecordIdValue, field: &str) -> (r: Result<String, String>)
    ensures
        match (r, record_id_text(*value, field@)) {
            (Ok(a), Ok(b)) => a@ == b,
            (Err(a), Err(b)) => a@ == b,
            _ => false,
        },
{
    match value {
        RecordIdValue::Text(s) => Ok(s.clone()),
        RecordIdValue::Object { tb, id } => match tb {
            None => Err(text_then("missing tb in ", field)),
            Some(t) => match id {
                IdValue::Text(s) => {
                    let mut out = text_then(t.as_str(), ":");
                    push_str(&mut out, s.as_str());
                    Ok(out)
                },
                IdValue::Integer(n) => {
                    let mut out = text_then(t.as_str(), ":");
                    push_signed_decimal(&mut out, *n);
                    Ok(out)
                },
                IdValue::Other => Err(text_then("invalid id type in ", field)),
            },
        },
        RecordIdValue::Other => Err(text_then("cannot parse record ID from ", field)),
    }
}

/// The texts present among `parts`, in order.
pub open spec fn present_texts(parts: Seq<Option<String>>) -> Seq<Seq<char>>
    decreases parts.len(),
{
    if parts.len() == 0 {
        Seq::empty()
    } else {
        let prefix = present_texts(parts.drop_last());
        match parts.last() {
            Some(t) => prefix.push(t@),
            None => prefix,
        }
    }
}

/// The texts joined with a single space between neighbours.
pub open spec fn space_joined(texts: Seq<Seq<char>>) -> Seq<char>
    decreases texts.len(),
{
    if texts.len() == 0 {
        Seq::empty()
    } else if texts.len() == 1 {
        texts[0]
    } else {
        space_joined(texts.drop_last()) + " "@ + texts.last()
    }
}

/// The context of a retrieved chunk: the contents of it and its neighbours
/// that the database returned, joined with spaces; an error when that is
/// empty.
pub fn merge_chunk_texts(parts: &Vec<Option<String>>) -> (r: Result<String, String>)
    ensures
        match r {
            Ok(t) => t@ == space_joined(present_texts(parts@)) && t@.len() > 0,
            Err(m) => space_joined(present_texts(parts@)).len() == 0 && m@ == "no chunks found"@,
        },
{
    let mut merged = String::new();
    let mut count: usize = 0;
    let n = parts.len();
    let mut i: usize = 0;
    proof {
        reveal_strlit(" ");
    }
    while i < n
        invariant
            i <= n,
            n == parts@.len(),
            count == present_texts(parts@.take(i as int)).len(),
            count <= i,
            merged@ == space_joined(present_texts(parts@.take(i as int))),
            " "@ == seq![' '],
        decreases n - i,
    {
        assert(parts@.take(i + 1).drop_last() =~= parts@.take(i as int));
        match &parts[i] {
            Some(t) => {
                if count > 0 {
                    push_str(&mut merged, " ");
                }
                push_str(&mut merged, t.as_str());
                count = count + 1;
                proof {
                    let prev = present_texts(parts@.take(i as int));
                    let cur = present_texts(parts@.take(i + 1));
                    assert(cur == prev.push(t@));
                    assert(cur.drop_last() =~= prev);
                    if prev.len() == 0 {
                        assert(merged@ =~= space_joined(cur));
                    } else {
                        assert(merged@ =~= space_joined(cur));
                    }
                }
            },
            None => {},
        }
        i = i + 1;
    }
    assert(parts@.take(n as int) =~= parts@);
    if merged.as_str().unicode_len() == 0 {
        Err(String::from_str("no chunks found"))
    } else {
        Ok(merged)
    }
}

/// The chunk indices whose contents make up the context of chunk `i`: the
/// one before, `i` itself and the one after.
pub fn neighbour_indices(i: i64) -> (r: [i64; 3])
    requires
        i64::MIN < i < i64::MAX,
    ensures
        r@ == seq![(i - 1) as i64, i, (i + 1) as i64],
{
    let r = [i - 1, i, i + 1];
    assert(r@ =~= seq![(i - 1) as i64, i, (i + 1) as i64]);
    r
}

/// Whether a tool called by the model is the `respond` tool, whatever the
/// case of its name.
pub open spec fn is_respond_tool(name: Seq<char>) -> bool {
    lowercase(name) == "respond"@
}

/// The first tool call, among those named `names`, that calls `respond`.
pub open spec fn first_respond_call(names: Seq<String>) -> Option<nat>
    decreases names.len(),
{
    if names.len() == 0 {
        None
    } else if is_respond_tool(names[0]@) {
        Some(0)
    } else {
        match first_respond_call(names.drop_first()) {
            Some(i) => Some((i + 1) as nat),
            None => None,
        }
    }
}

proof fn lemma_first_respond_step(names: Seq<String>, i: int)
    requires
        0 <= i <= names.len(),
        forall|k: int| 0 <= k < i ==> !is_respond_tool(#[trigger] names[k]@),
    ensures
        first_respond_call(names) == match first_respond_call(names.skip(i)) {
            Some(j) => Some((j + i) as nat),
            None => None,
        },
    decreases i,
{
    if i > 0 {
        let t = names.drop_first();
        assert forall|k: int| 0 <= k < i - 1 implies !is_respond_tool(#[trigger] t[k]@) by {
            assert(t[k] == names[k + 1]);
        }
        lemma_first_respond_step(t, i - 1);
        assert(t.skip(i - 1) =~= names.skip(i));
    } else {
        assert(names.skip(0) =~= names);
    }
}

/// Which of the model's tool calls, given by their names, carries its answer.
pub fn respond_call_index(names: &Vec<String>) -> (r: Option<usize>)
    ensures
        match (r, first_respond_call(names@)) {
            (Some(a), Some(b)) => a as nat == b,
            (None, None) => true,
            _ => false,
        },
{
    let n = names.len();
    let target = "respond";
    proof {
        reveal_strlit("respond");
    }
    let t = chars_of(target);
    let mut i: usize = 0;
    while i < n
        invariant
            i <= n,
            n == names@.len(),
            t@ == "respond"@,
            forall|k: int| 0 <= k < i ==> !is_respond_tool(#[trigger] names@[k]@),
        decreases n - i,
    {
        let lower = to_lowercase(names[i].as_str());
        let v = chars_of(lower.as_str());
        let is_match = v.len() == t.len() && chars_match_at(&v, &t, 0);
        proof {
            if v@.len() == t@.len() {
                assert(v@.subrange(0, t@.len() as int) =~= v@);
            }
        }
        if is_match {
            proof {
                lemma_first_respond_step(names@, i as int);
            }
            return Some(i);
        }
        i = i + 1;
    }
    proof {
        lemma_first_respond_step(names@, n as int);
    }
    None
}

/// The message that tells the client about a new pipeline event: only
/// `processing` events are shown, with their stage (empty when the event's
/// data names none).
pub open spec fn processing_message_for(kind: Seq<char>) -> bool {
    kind == "processing"@
}

/// The client message announcing a pipeline event of kind `kind`, if that
/// kind is shown to the client.
pub fn processing_message(kind: &str, id: String, trigger_id: &str, stage: Option<&str>) -> (r: Option<ServerMessage>)
    ensures
        r is Some <==> processing_message_for(kind@),
        r matches Some(ServerMessage::Processing { id: i, trigger_id: t, stage: s }) ==> i@ == id@
            && t@ == trigger_id@ && s@ == (match stage {
            Some(x) => x@,
            None => Seq::<char>::empty(),
        }),
        r matches Some(m) ==> m is Processing,
{
    let k = chars_of(kind);
    proof {
        reveal_strlit("processing");
    }
    let p = chars_of("processing");
    let same = k.len() == p.len() && chars_match_at(&k, &p, 0);
    proof {
        if k@.len() == p@.len() {
            assert(k@.subrange(0, p@.len() as int) =~= k@);
        }
    }
    if !same {
        return None;
    }
    let stage_text = match stage {
        Some(x) => String::from_str(x),
        None => String::new(),
    };
    Some(ServerMessage::Processing { id, trigger_id: String::from_str(trigger_id), stage: stage_text })
}

/// Reading a record id gives back its formatted text: an object with table
/// `t` and a text or integer key reads as `format_record_id` writes the same
/// record id.
pub proof fn lemma_record_id_round_trip(table: String, key: String, number: i64, field: Seq<char>)
    ensures
        record_id_text(RecordIdValue::Object { tb: Some(table), id: IdValue::Text(key) }, field)
            == Ok::<Seq<char>, Seq<char>>(crate::calls::record_ref_text(crate::calls::RecordRef { table, key: crate::calls::RecordKey::Text(key) })),
        record_id_text(RecordIdValue::Object { tb: Some(table), id: IdValue::Integer(number) }, field)
            == Ok::<Seq<char>, Seq<char>>(crate::calls::record_ref_text(crate::calls::RecordRef { table, key: crate::calls::RecordKey::Number(number) })),
{
}

/// A row of the conversation history: its role and content, where they are
/// text.
pub open spec fn turns_of(rows: Seq<(Option<String>, Option<String>)>) -> Seq<(String, String)>
    decreases rows.len(),
{
    if rows.len() == 0 {
        Seq::empty()
    } else {
        let prefix = turns_of(rows.drop_last());
        match rows.last() {
            (Some(r), Some(c)) => prefix.push((r, c)),
            _ => prefix,
        }
    }
}

/// The conversation so far, from the rows the database returned: the rows
/// whose role and content are both text, in order.
pub fn conversation_turns(rows: Vec<(Option<String>, Option<String>)>) -> (r: Vec<(String, String)>)
    ensures
        r@ == turns_of(rows@),
{
    let mut out: Vec<(String, String)> = Vec::new();
    let n = rows.len();
    let mut i: usize = 0;
    while i < n
        invariant
            i <= n,
            n == rows@.len(),
            out@ == turns_of(rows@.take(i as int)),
        decreases n - i,
    {
        assert(rows@.take(i + 1).drop_last() =~= rows@.take(i as int));
        match &rows[i] {
            (Some(r), Some(c)) => {
                out.push((r.clone(), c.clone()));
            },
            _ => {},
        }
        i = i + 1;
    }
    assert(rows@.take(n as int) =~= rows@);
    out
}

/// A retrieved chunk row, as the database returned it.
#[derive(Debug, Clone)]
pub struct ChunkRow {
    pub id: RecordIdValue,
    pub document_id: RecordIdValue,
    /// The `content` field, when it is text.
    pub content: Option<String>,
    /// The `source_path` field, when it is text.
    pub source_path: Option<String>,
    /// The `char_offset` field, when it is an `i64`.
    pub char_offset: Option<i64>,
    /// The `chunk_index` field, when it is an `i64`.
    pub chunk_index: Option<i64>,
    /// Bit pattern of the `score` field, when it is a number.
    pub score_bits: Option<u64>,
}

/// The retrieved chunk a row describes, when both of its record ids can be
/// read; missing fields default to empty text, 0, and a score of 0.
pub fn chunk_from_row(row: &ChunkRow) -> (r: Option<ChunkMatch>)
    ensures
        r is Some <==> record_id_text(row.id, "id"@) is Ok && record_id_text(row.document_id, "document_id"@) is Ok,
        r matches Some(c) ==> {
            &&& c.id@ == record_id_text(row.id, "id"@)->Ok_0
            &&& c.document_id@ == record_id_text(row.document_id, "document_id"@)->Ok_0
            &&& c.content@ == match row.content { Some(t) => t@, None => Seq::empty() }
            &&& c.source_path == row.source_path
            &&& c.char_offset == match row.char_offset { Some(v) => v, None => 0 }
            &&& c.chunk_index == match row.chunk_index { Some(v) => v, None => 0 }
            &&& c.score_bits == match row.score_bits { Some(v) => v, None => 0 }
        },
{
    let id = match parse_record_id(&row.id, "id") {
        Ok(v) => v,
        Err(_) => return None,
    };
    let document_id = match parse_record_id(&row.document_id, "document_id") {
        Ok(v) => v,
        Err(_) => return None,
    };
    let content = match &row.content {
        Some(t) => t.clone(),
        None => String::new(),
    };
    Some(ChunkMatch {
        id,
        document_id,
        content,
        source_path: row.source_path.clone(),
        char_offset: match row.char_offset { Some(v) => v, None => 0 },
        chunk_index: match row.chunk_index { Some(v) => v, None => 0 },
        score_bits: match row.score_bits { Some(v) => v, None => 0 },
    })
}

/// The answer given when no knowledge-base chunk was retrieved.
pub fn no_information_answer() -> (s: &'static str)
    ensures
        s@ == "I couldn't find any relevant information in the knowledge base for this topic."@,
{
    "I couldn't find any relevant information in the knowledge base for this topic."
}

/// Whether `m` is the highlight of the reference `r`, for the answer `id`
/// to the event `trigger_id`.
pub open spec fn is_highlight_of(m: ServerMessage, id: Seq<char>, trigger_id: Seq<char>, r: Reference) -> bool {
    m matches ServerMessage::Highlight { id: i, trigger_id: t, document_id: d, start: s, end: e, text: x }
        && i@ == id && t@ == trigger_id && d@ == r.document_id@ && s == r.start && e == r.end && x@ == r.text@
}

/// The client messages carrying a copilot answer, stored as event `id`, to the
/// event `trigger_id`: the `summary` with the answer's text, then one
/// `highlight` per cited passage in the order of the references (so that the
/// answer's `[[ref:N]]` marker names the `N`-th highlight), then the
/// `suggestion`, when there is one.
pub fn answer_messages(
    id: &str,
    trigger_id: &str,
    content: &str,
    references: &Vec<Reference>,
    suggestion: Option<&str>,
) -> (ms: Vec<ServerMessage>)
    requires
        references@.len() + 2 <= usize::MAX,
    ensures
        ms@.len() == references@.len() + 1 + (if suggestion is Some { 1int } else { 0int }),
        ms@[0] matches ServerMessage::Summary { id: i, trigger_id: t, content: c } && i@ == id@ && t@
            == trigger_id@ && c@ == content@,
        forall|j: int|
            1 <= j <= references@.len() ==> is_highlight_of(
                #[trigger] ms@[j],
                id@,
                trigger_id@,
                references@[j - 1],
            ),
        suggestion matches Some(g) ==> ms@[references@.len() + 1int] matches ServerMessage::Suggestion {
            id: i,
            trigger_id: t,
            content: c,
        } && i@ == id@ && t@ == trigger_id@ && c@ == g@,
{
    let mut ms: Vec<ServerMessage> = Vec::new();
    ms.push(
        ServerMessage::Summary {
            id: String::from_str(id),
            trigger_id: String::from_str(trigger_id),
            content: String::from_str(content),
        },
    );
    let n = references.len();
    let mut k: usize = 0;
    while k < n
        invariant
            k <= n,
            n == references@.len(),
            ms@.len() == k + 1,
            ms@[0] matches ServerMessage::Summary { id: i, trigger_id: t, content: c } && i@ == id@
                && t@ == trigger_id@ && c@ == content@,
            forall|j: int|
                1 <= j <= k ==> is_highlight_of(#[trigger] ms@[j], id@, trigger_id@, references@[j - 1]),
        decreases n - k,
    {
        let r = &references[k];
        ms.push(
            ServerMessage::Highlight {
                id: String::from_str(id),
                trigger_id: String::from_str(trigger_id),
                document_id: r.document_id.clone(),
                start: r.start,
                end: r.end,
                text: r.text.clone(),
            },
        );
        k = k + 1;
    }
    match suggestion {
        Some(g) => {
            ms.push(
                ServerMessage::Suggestion {
                    id: String::from_str(id),
                    trigger_id: String::from_str(trigger_id),
                    content: String::from_str(g),
                },
            );
        },
        None => {},
    }
    ms
}

/// The client message telling that no knowledge-base content was found for
/// the event `trigger_id`, stored as event `id`, with the answer that says so.
pub fn no_relevant_info_message(id: &str, trigger_id: &str) -> (m: ServerMessage)
    ensures
        m matches ServerMessage::NoRelevantInfo { id: i, trigger_id: t, content: c } && i@ == id@ && t@
            == trigger_id@ && c@
            == "I couldn't find any relevant information in the knowledge base for this topic."@,
{
    ServerMessage::NoRelevantInfo {
        id: String::from_str(id),
        trigger_id: String::from_str(trigger_id),
        content: String::from_str(no_information_answer()),
    }
}

/// What the copilot pipeline reports to `pipeline_next` after each step.
#[derive(Debug, Clone, Copy)]
pub enum PipelineEvent {
    /// The pipeline was started for a message.
    Started,
    /// The knowledge-base search returned `chunks` chunks.
    Retrieved { chunks: usize },
    /// The model answered, with tool calls or not and with text or not.
    ModelAnswered { tool_calls: bool, text: bool },
}

/// What the copilot pipeline does next.
#[derive(Debug)]
pub enum PipelineAction {
    /// Record a `processing` event at this stage and show it, then search the
    /// knowledge base.
    Retrieve { stage: String },
    /// Store this text as the answer, with no references, tell the client
    /// with `no_relevant_info_message`, and stop.
    ReportNoRelevantInfo { content: String },
    /// Record a `processing` event at this stage and show it, then ask the
    /// model, with the prompt built from the conversation and the chunks.
    Analyze { stage: String },
    /// Handle the model's tool calls: store its answer and send it with
    /// `answer_messages` (summary, highlights, suggestion), and stop.
    RunTools,
    /// Store the model's text as the answer, with no references, send it as a
    /// summary with `answer_messages`, and stop.
    AnswerText,
    /// Stop.
    Done,
}

/// The next step of the copilot pipeline: it first shows the `retrieving`
/// stage and searches; with no chunk found it reports that no relevant
/// information was found;
/// otherwise it shows the `analyzing` stage and asks the model, whose tool
/// calls are handled, or, failing those, whose text is the answer.
pub fn pipeline_next(event: PipelineEvent) -> (a: PipelineAction)
    ensures
        match event {
            PipelineEvent::Started => a matches PipelineAction::Retrieve { stage } && stage@
                == "retrieving"@,
            PipelineEvent::Retrieved { chunks } => if chunks == 0 {
                a matches PipelineAction::ReportNoRelevantInfo { content } && content@
                    == "I couldn't find any relevant information in the knowledge base for this topic."@
            } else {
                a matches PipelineAction::Analyze { stage } && stage@ == "analyzing"@
            },
            PipelineEvent::ModelAnswered { tool_calls, text } => if tool_calls {
                a is RunTools
            } else if text {
                a is AnswerText
            } else {
                a is Done
            },
        },
{
    match event {
        PipelineEvent::Started => PipelineAction::Retrieve { stage: String::from_str("retrieving") },
        PipelineEvent::Retrieved { chunks } => {
            if chunks == 0 {
                PipelineAction::ReportNoRelevantInfo { content: String::from_str(no_information_answer()) }
            } else {
                PipelineAction::Analyze { stage: String::from_str("analyzing") }
            }
        },
        PipelineEvent::ModelAnswered { tool_calls, text } => {
            if tool_calls {
                PipelineAction::RunTools
            } else if text {
                PipelineAction::AnswerText
            } else {
                PipelineAction::Done
            }
        },
    }
}

} // verus!

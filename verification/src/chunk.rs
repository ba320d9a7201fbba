//! Splitting a document's text into chunks sized by token count.
use vstd::prelude::*;

use crate::ingest::ContentType;

verus! {

/// A chunk of a document's text, with its position.
#[derive(Debug)]
pub struct Chunk {
    /// The chunk's text.
    pub content: String,
    /// Position of the chunk among the document's chunks, from 0.
    pub chunk_index: usize,
    /// Offset of the chunk in the document, in characters.
    pub char_offset: usize,
    /// Length of the chunk, in characters.
    pub char_length: usize,
}

/// What `MarkdownSplitter::chunk_char_indices`, sized by the `cl100k_base`
/// tokenizer with capacity `max_tokens`, gives for `text`: each chunk's
/// character offset and text, in order. A function of its arguments alone.
pub uninterp spec fn markdown_chunks(text: Seq<char>, max_tokens: usize) -> Seq<(nat, Seq<char>)>;

/// The same as `markdown_chunks` for `TextSplitter`, used for plain text.
pub uninterp spec fn plain_chunks(text: Seq<char>, max_tokens: usize) -> Seq<(nat, Seq<char>)>;

/// The pieces a document of this content type is split into.
pub open spec fn pieces_of(text: Seq<char>, content_type: ContentType, max_tokens: usize) -> Seq<(nat, Seq<char>)> {
    match content_type {
        ContentType::Markdown => markdown_chunks(text, max_tokens),
        ContentType::Csv => plain_chunks(text, max_tokens),
    }
}

/// A piece as plain values.
pub open spec fn piece_view(p: (usize, String)) -> (nat, Seq<char>) {
    (p.0 as nat, p.1@)
}

/// Splits markdown with `text_splitter::MarkdownSplitter` sized by the
/// `cl100k_base` tokenizer. As the crate documents, each chunk is the text
/// found at its character offset; with no overlap configured, each chunk
/// starts at or after the end of the one before.
#[verifier::external_body]
fn markdown_pieces(text: &str, max_tokens: usize) -> (r: Vec<(usize, String)>)
    requires
        max_tokens > 0,
    ensures
        r@.map_values(|p: (usize, String)| piece_view(p)) == markdown_chunks(text@, max_tokens),
        forall|i: int| 0 <= i < r@.len() ==> r@[i].0 + r@[i].1@.len() <= text@.len() && text@.subrange(
            r@[i].0 as int,
            r@[i].0 + r@[i].1@.len(),
        ) == #[trigger] r@[i].1@,
        forall|i: int, j: int| 0 <= i < j < r@.len() ==> #[trigger] r@[i].0 + r@[i].1@.len() <= #[trigger] r@[j].0,
{
    let tokenizer = tiktoken_rs::cl100k_base().expect("failed to load cl100k_base tokenizer");
    let config = text_splitter::ChunkConfig::new(max_tokens).with_sizer(&tokenizer);
    let splitter = text_splitter::MarkdownSplitter::new(config);
    splitter.chunk_char_indices(text).map(|c| (c.char_offset, c.chunk.to_string())).collect()
}

/// Splits plain text with `text_splitter::TextSplitter` sized by the
/// `cl100k_base` tokenizer. As the crate documents, each chunk is the text
/// found at its character offset; with no overlap configured, each chunk
/// starts at or after the end of the one before.
#[verifier::external_body]
fn plain_pieces(text: &str, max_tokens: usize) -> (r: Vec<(usize, String)>)
    requires
        max_tokens > 0,
    ensures
        r@.map_values(|p: (usize, String)| piece_view(p)) == plain_chunks(text@, max_tokens),
        forall|i: int| 0 <= i < r@.len() ==> r@[i].0 + r@[i].1@.len() <= text@.len() && text@.subrange(
            r@[i].0 as int,
            r@[i].0 + r@[i].1@.len(),
        ) == #[trigger] r@[i].1@,
        forall|i: int, j: int| 0 <= i < j < r@.len() ==> #[trigger] r@[i].0 + r@[i].1@.len() <= #[trigger] r@[j].0,
{
    let tokenizer = tiktoken_rs::cl100k_base().expect("failed to load cl100k_base tokenizer");
    let config = text_splitter::ChunkConfig::new(max_tokens).with_sizer(&tokenizer);
    let splitter = text_splitter::TextSplitter::new(config);
    splitter.chunk_char_indices(text).map(|c| (c.char_offset, c.chunk.to_string())).collect()
}

/// Splits a document's text into chunks of at most `max_tokens` tokens
/// (counted by the `cl100k_base` tokenizer; the capacity is at least one
/// token, as the splitter cannot size chunks to none): markdown along its structure,
/// CSV as plain text. Chunks are numbered in order and carry their character
/// offset and length; each is the document's text at that offset, and each
/// starts at or after the end of the one before.
pub fn split_document(text: &str, content_type: ContentType, max_tokens: usize) -> (r: Vec<Chunk>)
    requires
        max_tokens > 0,
    ensures
        r@.len() == pieces_of(text@, content_type, max_tokens).len(),
        forall|i: int| 0 <= i < r@.len() ==> {
            let c = #[trigger] r@[i];
            let p = pieces_of(text@, content_type, max_tokens)[i];
            &&& c.content@ == p.1
            &&& c.chunk_index == i
            &&& c.char_offset == p.0
            &&& c.char_length == p.1.len()
            &&& c.char_offset + c.char_length <= text@.len()
            &&& text@.subrange(c.char_offset as int, c.char_offset + c.char_length) == c.content@
        },
        forall|i: int, j: int| 0 <= i < j < r@.len() ==> #[trigger] r@[i].char_offset + r@[i].char_length
            <= #[trigger] r@[j].char_offset,
{
    let pieces = match content_type {
        ContentType::Markdown => markdown_pieces(text, max_tokens),
        ContentType::Csv => plain_pieces(text, max_tokens),
    };
    let ghost pv = pieces@.map_values(|p: (usize, String)| piece_view(p));
    let mut out: Vec<Chunk> = Vec::new();
    let n = pieces.len();
    let mut i: usize = 0;
    while i < n
        invariant
            i <= n,
            n == pieces@.len(),
            pv == pieces_of(text@, content_type, max_tokens),
            pv == pieces@.map_values(|p: (usize, String)| piece_view(p)),
            forall|a: int, b: int| 0 <= a < b < pieces@.len() ==> #[trigger] pieces@[a].0 + pieces@[a].1@.len()
                <= #[trigger] pieces@[b].0,
            forall|k: int| 0 <= k < pieces@.len() ==> pieces@[k].0 + pieces@[k].1@.len() <= text@.len()
                && text@.subrange(pieces@[k].0 as int, pieces@[k].0 + pieces@[k].1@.len())
                == #[trigger] pieces@[k].1@,
            out@.len() == i,
            forall|k: int| 0 <= k < i ==> {
                let c = #[trigger] out@[k];
                let p = pv[k];
                &&& c.content@ == p.1
                &&& c.chunk_index == k
                &&& c.char_offset == p.0
                &&& c.char_length == p.1.len()
                &&& c.char_offset + c.char_length <= text@.len()
                &&& text@.subrange(c.char_offset as int, c.char_offset + c.char_length) == c.content@
            },
        decreases n - i,
    {
        let piece = &pieces[i];
        assert(out@.len() == i);
        let content = piece.1.clone();
        let len = content.as_str().unicode_len();
        assert(pv[i as int] == piece_view(pieces@[i as int]));
        assert(text@.subrange(pieces@[i as int].0 as int, pieces@[i as int].0 + pieces@[i as int].1@.len()) == pieces@[i as int].1@);
        out.push(Chunk { content, chunk_index: i, char_offset: piece.0, char_length: len });
        i = i + 1;
    }
    assert forall|a: int, b: int| 0 <= a < b < out@.len() implies #[trigger] out@[a].char_offset
        + out@[a].char_length <= #[trigger] out@[b].char_offset by {
        assert(pieces@[a].0 + pieces@[a].1@.len() <= pieces@[b].0);
    }
    out
}

} // verus!

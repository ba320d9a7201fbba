//! Speech-recognition results: turning recogniser tokens into transcript
//! events, and assembling those events into utterances.
use vstd::prelude::*;
use vstd::string::*;

use crate::events::ServerMessage;
use crate::intelligence::space_joined;
use crate::text::{chars_of, chars_match_at, push_char, push_str, trim, trim_end, trim_start, trim_str};

verus! {

broadcast use vstd::string::group_string_axioms;

/// One token of a speech-recognition response.
#[derive(Debug, Clone)]
pub struct SonioxToken {
    pub text: String,
    pub start_ms: Option<i64>,
    pub end_ms: Option<i64>,
    /// Bit pattern of the `f32` confidence score.
    pub confidence_bits: u32,
    pub is_final: bool,
}

/// A speech-recognition response: its tokens, or an error.
#[derive(Debug, Clone)]
pub struct SonioxResponse {
    pub tokens: Vec<SonioxToken>,
    pub error_code: Option<u16>,
    pub error_message: Option<String>,
}

/// A recognised word.
#[derive(Debug, Clone)]
pub struct TranscriptWord {
    pub text: String,
    /// Start of the word in the audio stream, in milliseconds.
    pub start_ms: u64,
    /// End of the word in the audio stream, in milliseconds.
    pub end_ms: u64,
    /// Bit pattern of the `f32` confidence score.
    pub confidence_bits: u32,
    pub is_final: bool,
}

/// A transcript event: a word, or the end of an utterance.
#[derive(Debug, Clone)]
pub enum TranscriptEvent {
    Word(TranscriptWord),
    UtteranceEnd,
}

/// A transcript event as plain values.
pub enum TranscriptEventView {
    Word { text: Seq<char>, start_ms: u64, end_ms: u64, confidence_bits: u32, is_final: bool },
    UtteranceEnd,
}

impl View for TranscriptEvent {
    type V = TranscriptEventView;

    open spec fn view(&self) -> TranscriptEventView {
        match self {
            TranscriptEvent::Word(w) => TranscriptEventView::Word {
                text: w.text@,
                start_ms: w.start_ms,
                end_ms: w.end_ms,
                confidence_bits: w.confidence_bits,
                is_final: w.is_final,
            },
            TranscriptEvent::UtteranceEnd => TranscriptEventView::UtteranceEnd,
        }
    }
}

/// The token text that marks the end of an utterance.
pub open spec fn end_marker() -> Seq<char> {
    "<end>"@
}

/// The event a token gives, if any: the end marker ends the utterance, a
/// token that is only white space gives nothing, any other token gives a word
/// with the white space around its text removed and missing times read as 0.
pub open spec fn token_event(t: SonioxToken) -> Option<TranscriptEventView> {
    if t.text@ == end_marker() {
        Some(TranscriptEventView::UtteranceEnd)
    } else if trim(t.text@).len() == 0 {
        None
    } else {
        Some(
            TranscriptEventView::Word {
                text: trim(t.text@),
                start_ms: (match t.start_ms { Some(v) => v, None => 0 }) as u64,
                end_ms: (match t.end_ms { Some(v) => v, None => 0 }) as u64,
                confidence_bits: t.confidence_bits,
                is_final: t.is_final,
            },
        )
    }
}

/// The events that a sequence of tokens gives, in order.
pub open spec fn token_events(tokens: Seq<SonioxToken>) -> Seq<TranscriptEventView>
    decreases tokens.len(),
{
    if tokens.len() == 0 {
        Seq::empty()
    } else {
        let prefix = token_events(tokens.drop_last());
        match token_event(tokens.last()) {
            Some(e) => prefix.push(e),
            None => prefix,
        }
    }
}

/// The events a recogniser response gives: none when it reports an error.
pub open spec fn response_events(r: SonioxResponse) -> Seq<TranscriptEventView> {
    if r.error_code is Some {
        Seq::empty()
    } else {
        token_events(r.tokens@)
    }
}

fn token_to_event(t: &SonioxToken) -> (r: Option<TranscriptEvent>)
    ensures
        match (r, token_event(*t)) {
            (Some(e), Some(v)) => e@ == v,
            (None, None) => true,
            _ => false,
        },
{
    let v = chars_of(t.text.as_str());
    let marker = "<end>";
    proof {
        reveal_strlit("<end>");
    }
    let m = chars_of(marker);
    if v.len() == m.len() && chars_match_at(&v, &m, 0) {
        assert(v@ =~= v@.subrange(0, m@.len() as int));
        return Some(TranscriptEvent::UtteranceEnd);
    }
    proof {
        if t.text@ == end_marker() {
            assert(v@.subrange(0, m@.len() as int) =~= v@);
        }
    }
    let text = trim_str(t.text.as_str());
    if text.unicode_len() == 0 {
        return None;
    }
    let start: i64 = match t.start_ms {
        Some(x) => x,
        None => 0,
    };
    let end: i64 = match t.end_ms {
        Some(x) => x,
        None => 0,
    };
    Some(
        TranscriptEvent::Word(
            TranscriptWord {
                text: String::from_str(text),
                start_ms: start as u64,
                end_ms: end as u64,
                confidence_bits: t.confidence_bits,
                is_final: t.is_final,
            },
        ),
    )
}

/// The transcript events of a recogniser response, in token order.
pub fn response_to_events(resp: &SonioxResponse) -> (r: Vec<TranscriptEvent>)
    ensures
        r@.map_values(|e: TranscriptEvent| e@) == response_events(*resp),
{
    let mut out: Vec<TranscriptEvent> = Vec::new();
    if resp.error_code.is_some() {
        assert(out@.map_values(|e: TranscriptEvent| e@) =~= Seq::<TranscriptEventView>::empty());
        return out;
    }
    let n = resp.tokens.len();
    let mut i: usize = 0;
    while i < n
        invariant
            i <= n,
            n == resp.tokens@.len(),
            out@.map_values(|e: TranscriptEvent| e@) == token_events(
                resp.tokens@.take(i as int),
            ),
        decreases n - i,
    {
        let ev = token_to_event(&resp.tokens[i]);
        let ghost before = out@;
        assert(resp.tokens@.take(i + 1).drop_last() =~= resp.tokens@.take(i as int));
        match ev {
            Some(e) => {
                out.push(e);
                assert(out@.map_values(|e: TranscriptEvent| e@) =~= before.map_values(
                    |e: TranscriptEvent| e@,
                ).push(e@));
            },
            None => {},
        }
        i = i + 1;
    }
    assert(resp.tokens@.take(n as int) =~= resp.tokens@);
    out
}

/// `text` appended to `content` with one space between them, or `text` alone
/// when `content` is empty.
pub open spec fn joined(content: Seq<char>, text: Seq<char>) -> Seq<char> {
    if content.len() == 0 {
        text
    } else {
        content + seq![' '] + text
    }
}

/// The transcript of the utterance being spoken on one channel: the final
/// words so far, and the text shown while a word is not yet final.
pub struct UtteranceBuffer {
    pub content: String,
    pub interim: String,
}

/// What the transcript handler does after one event.
#[derive(Debug)]
pub enum TranscriptAction {
    /// Show the running transcript to the client.
    Show(ServerMessage),
    /// Store this utterance; once it is stored, send it to the client and
    /// clear the buffer.
    Persist(String),
    /// Nothing to do.
    Ignore,
}

/// The text an utterance ending now would have: the final words, or, when
/// there are none, the interim text without surrounding white space.
pub open spec fn utterance_text_of(content: Seq<char>, interim: Seq<char>) -> Seq<char> {
    if content.len() == 0 {
        trim(interim)
    } else {
        content
    }
}

impl UtteranceBuffer {
    pub fn new() -> (b: Self)
        ensures
            b.content@.len() == 0,
            b.interim@.len() == 0,
    {
        UtteranceBuffer { content: String::new(), interim: String::new() }
    }

    /// Adds a recognised word: a final word is appended to the content and
    /// clears the interim text; any other word only replaces the interim text
    /// with the content followed by the word. Returns the text to show.
    pub fn add_word(&mut self, text: &str, is_final: bool) -> (shown: String)
        ensures
            is_final ==> final(self).content@ == joined(old(self).content@, text@)
                && final(self).interim@.len() == 0 && shown@ == final(self).content@,
            !is_final ==> final(self).content@ == old(self).content@ && final(self).interim@
                == joined(old(self).content@, text@) && shown@ == final(self).interim@,
    {
        if is_final {
            if self.content.as_str().unicode_len() != 0 {
                push_char(&mut self.content, ' ');
            }
            push_str(&mut self.content, text);
            self.interim = String::new();
            assert(self.content@ =~= joined(old(self).content@, text@));
            self.content.clone()
        } else {
            if self.content.as_str().unicode_len() == 0 {
                self.interim = String::from_str(text);
            } else {
                let mut s = self.content.clone();
                push_char(&mut s, ' ');
                push_str(&mut s, text);
                self.interim = s;
            }
            self.interim.clone()
        }
    }

    /// The text of the utterance if it ended now, or `None` when that text is
    /// empty.
    pub fn utterance_text(&self) -> (r: Option<String>)
        ensures
            match r {
                Some(t) => t@ == utterance_text_of(self.content@, self.interim@) && t@.len() > 0,
                None => utterance_text_of(self.content@, self.interim@).len() == 0,
            },
    {
        if self.content.as_str().unicode_len() == 0 {
            let t = trim_str(self.interim.as_str());
            if t.unicode_len() == 0 {
                None
            } else {
                Some(String::from_str(t))
            }
        } else {
            Some(self.content.clone())
        }
    }

    /// Empties the buffer once an utterance is stored.
    pub fn clear(&mut self)
        ensures
            final(self).content@.len() == 0,
            final(self).interim@.len() == 0,
    {
        self.content = String::new();
        self.interim = String::new();
    }

    /// The content to run the copilot on when an utterance ends: the final
    /// words, where they are not only white space.
    pub fn pipeline_content(&self, is_utterance_end: bool) -> (r: Option<String>)
        ensures
            r is Some <==> is_utterance_end && trim(self.content@).len() > 0,
            r matches Some(t) ==> t@ == self.content@,
    {
        if is_utterance_end {
            let t = trim_str(self.content.as_str());
            if t.unicode_len() != 0 {
                return Some(self.content.clone());
            }
        }
        None
    }

    /// Handles one transcript event for the speaker `role`: a word updates the
    /// buffer and shows the running transcript; the end of an utterance asks
    /// for the utterance to be stored, unless it is empty.
    pub fn on_event(&mut self, role: &str, event: &TranscriptEvent) -> (a: TranscriptAction)
        ensures
            match event {
                TranscriptEvent::Word(w) => {
                    &&& (w.is_final ==> final(self).content@ == joined(old(self).content@, w.text@)
                        && final(self).interim@.len() == 0)
                    &&& (!w.is_final ==> final(self).content@ == old(self).content@
                        && final(self).interim@ == joined(old(self).content@, w.text@))
                    &&& a matches TranscriptAction::Show(ServerMessage::InterimTranscript {
                        role: r,
                        content: c,
                    }) && r@ == role@ && c@ == (if w.is_final {
                        final(self).content@
                    } else {
                        final(self).interim@
                    })
                },
                TranscriptEvent::UtteranceEnd => {
                    &&& final(self).content@ == old(self).content@
                    &&& final(self).interim@ == old(self).interim@
                    &&& if utterance_text_of(old(self).content@, old(self).interim@).len() == 0 {
                        a is Ignore
                    } else {
                        a matches TranscriptAction::Persist(t) && t@ == utterance_text_of(
                            old(self).content@,
                            old(self).interim@,
                        )
                    }
                },
            },
    {
        match event {
            TranscriptEvent::Word(w) => {
                let shown = self.add_word(w.text.as_str(), w.is_final);
                TranscriptAction::Show(
                    ServerMessage::InterimTranscript { role: String::from_str(role), content: shown },
                )
            },
            TranscriptEvent::UtteranceEnd => match self.utterance_text() {
                Some(t) => TranscriptAction::Persist(t),
                None => TranscriptAction::Ignore,
            },
        }
    }
}

/// The content of a buffer that started empty after the final words `ws`.
pub open spec fn content_after_final_words(ws: Seq<Seq<char>>) -> Seq<char>
    decreases ws.len(),
{
    if ws.len() == 0 {
        Seq::empty()
    } else {
        joined(content_after_final_words(ws.drop_last()), ws.last())
    }
}

/// Final words accumulate into an utterance: starting from an empty buffer,
/// the non-empty final words `ws` leave the words joined by single spaces.
pub proof fn lemma_final_words_are_space_joined(ws: Seq<Seq<char>>)
    requires
        forall|i: int| 0 <= i < ws.len() ==> (#[trigger] ws[i]).len() > 0,
    ensures
        content_after_final_words(ws) == space_joined(ws),
    decreases ws.len(),
{
    reveal_strlit(" ");
    if ws.len() > 0 {
        let p = ws.drop_last();
        assert forall|i: int| 0 <= i < p.len() implies (#[trigger] p[i]).len() > 0 by {
            assert(p[i] == ws[i]);
        }
        lemma_final_words_are_space_joined(p);
        if ws.len() > 1 {
            assert(p[0] == ws[0]);
            assert(ws[0].len() > 0);
            lemma_space_joined_nonempty(p);
        } else {
            assert(p.len() == 0);
        }
    }
}

proof fn lemma_space_joined_nonempty(ws: Seq<Seq<char>>)
    requires
        ws.len() > 0,
        ws[0].len() > 0,
    ensures
        space_joined(ws).len() > 0,
    decreases ws.len(),
{
    if ws.len() > 1 {
        let p = ws.drop_last();
        assert(p[0] == ws[0]);
        lemma_space_joined_nonempty(p);
    }
}

/// A cleared buffer holds no utterance: after `clear`, `utterance_text`
/// gives `None`.
pub proof fn lemma_cleared_buffer_has_no_utterance(content: Seq<char>, interim: Seq<char>)
    requires
        content.len() == 0,
        interim.len() == 0,
    ensures
        utterance_text_of(content, interim).len() == 0,
{
    assert(trim_start(interim) == interim);
    assert(trim_end(interim) == interim);
}

/// An utterance is made of what was said: when a buffer holds final words,
/// the utterance is exactly those words, whatever the interim text.
pub proof fn lemma_utterance_is_final_words(content: Seq<char>, interim: Seq<char>)
    requires
        content.len() > 0,
    ensures
        utterance_text_of(content, interim) == content,
{
}

/// What the recogniser's reader does with a message from its WebSocket.
#[derive(Debug, Clone, Copy, PartialEq, Eq, Structural)]
pub enum ReaderAction {
    /// Parse the text as a recogniser response and hand out its events.
    Parse,
    /// Nothing to do; read the next message.
    Skip,
    /// The connection is over.
    Stop,
}

/// The reader's decision for one message: text is parsed, a close or an
/// error ends reading, anything else is skipped.
pub open spec fn reader_action_for(e: crate::events::SocketEvent) -> ReaderAction {
    match e {
        crate::events::SocketEvent::Text => ReaderAction::Parse,
        crate::events::SocketEvent::Close => ReaderAction::Stop,
        crate::events::SocketEvent::Error => ReaderAction::Stop,
        _ => ReaderAction::Skip,
    }
}

/// Decides what the recogniser's reader does with one message.
pub fn reader_action(e: crate::events::SocketEvent) -> (a: ReaderAction)
    ensures
        a == reader_action_for(e),
{
    match e {
        crate::events::SocketEvent::Text => ReaderAction::Parse,
        crate::events::SocketEvent::Close => ReaderAction::Stop,
        crate::events::SocketEvent::Error => ReaderAction::Stop,
        _ => ReaderAction::Skip,
    }
}

/// The settings a recognition session starts with.
#[derive(Debug, Clone)]
pub struct RecognizerConfig {
    pub api_key: String,
    pub model: String,
    pub audio_format: String,
    pub sample_rate: u32,
    pub num_channels: u32,
    pub language_hints: Vec<String>,
    pub enable_endpoint_detection: bool,
}

/// The settings for a session: the real-time model, 16-bit little-endian PCM
/// at 44.1 kHz mono, with end-of-utterance detection.
pub fn recognizer_config(api_key: String, language_hints: Vec<String>) -> (c: RecognizerConfig)
    ensures
        c.api_key == api_key,
        c.language_hints == language_hints,
        c.model@ == "stt-rt-preview"@,
        c.audio_format@ == "pcm_s16le"@,
        c.sample_rate == 44100,
        c.num_channels == 1,
        c.enable_endpoint_detection,
{
    RecognizerConfig {
        api_key,
        model: String::from_str("stt-rt-preview"),
        audio_format: String::from_str("pcm_s16le"),
        sample_rate: 44100,
        num_channels: 1,
        language_hints,
        enable_endpoint_detection: true,
    }
}

} // verus!

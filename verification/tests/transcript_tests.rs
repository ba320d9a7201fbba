use azor::events::ServerMessage;
use azor::transcript::{
    response_to_events, SonioxResponse, SonioxToken, TranscriptAction, TranscriptEvent, TranscriptWord,
    UtteranceBuffer,
};

fn token(text: &str, start: Option<i64>, is_final: bool) -> SonioxToken {
    SonioxToken {
        text: text.to_string(),
        start_ms: start,
        end_ms: start.map(|s| s + 100),
        confidence_bits: 0.9f32.to_bits(),
        is_final,
    }
}

fn word(text: &str, is_final: bool) -> TranscriptEvent {
    TranscriptEvent::Word(TranscriptWord {
        text: text.to_string(),
        start_ms: 0,
        end_ms: 0,
        confidence_bits: 0,
        is_final,
    })
}

#[test]
fn tokens_become_words_and_utterance_ends() {
    let resp = SonioxResponse {
        tokens: vec![token(" Hello", Some(10), true), token("  ", Some(20), true), token("<end>", None, true), token("world ", None, false)],
        error_code: None,
        error_message: None,
    };
    let events = response_to_events(&resp);
    assert_eq!(events.len(), 3);
    match &events[0] {
        TranscriptEvent::Word(w) => {
            assert_eq!(w.text, "Hello");
            assert_eq!(w.start_ms, 10);
            assert_eq!(w.end_ms, 110);
            assert_eq!(f32::from_bits(w.confidence_bits), 0.9);
            assert!(w.is_final);
        }
        other => panic!("unexpected {:?}", other),
    }
    assert!(matches!(events[1], TranscriptEvent::UtteranceEnd));
    match &events[2] {
        TranscriptEvent::Word(w) => {
            assert_eq!(w.text, "world");
            assert_eq!(w.start_ms, 0);
            assert!(!w.is_final);
        }
        other => panic!("unexpected {:?}", other),
    }
}

#[test]
fn negative_times_wrap_like_an_unsigned_cast() {
    let resp = SonioxResponse { tokens: vec![token("x", Some(-1), true)], error_code: None, error_message: None };
    match &response_to_events(&resp)[0] {
        TranscriptEvent::Word(w) => assert_eq!(w.start_ms, u64::MAX),
        other => panic!("unexpected {:?}", other),
    }
}

#[test]
fn error_responses_give_no_events() {
    let resp = SonioxResponse {
        tokens: vec![token("Hello", None, true)],
        error_code: Some(401),
        error_message: Some("bad key".to_string()),
    };
    assert!(response_to_events(&resp).is_empty());
}

#[test]
fn final_words_accumulate_with_single_spaces() {
    let mut b = UtteranceBuffer::new();
    assert_eq!(b.add_word("how", true), "how");
    assert_eq!(b.add_word("are", true), "how are");
    assert_eq!(b.add_word("you", true), "how are you");
    assert_eq!(b.content, "how are you");
    assert_eq!(b.interim, "");
}

#[test]
fn interim_words_do_not_change_the_content() {
    let mut b = UtteranceBuffer::new();
    assert_eq!(b.add_word("hel", false), "hel");
    assert_eq!(b.content, "");
    b.add_word("hello", true);
    assert_eq!(b.add_word("wor", false), "hello wor");
    assert_eq!(b.content, "hello");
    assert_eq!(b.interim, "hello wor");
}

#[test]
fn utterance_prefers_final_words_then_interim_text() {
    let mut b = UtteranceBuffer::new();
    assert_eq!(b.utterance_text(), None);
    b.add_word(" maybe ", false);
    assert_eq!(b.utterance_text().unwrap(), "maybe");
    b.add_word("yes", true);
    assert_eq!(b.utterance_text().unwrap(), "yes");
    b.clear();
    assert_eq!(b.utterance_text(), None);
    assert_eq!(b.content, "");
    assert_eq!(b.interim, "");
}

#[test]
fn pipeline_runs_only_on_utterance_end_with_content() {
    let mut b = UtteranceBuffer::new();
    assert_eq!(b.pipeline_content(true), None);
    b.add_word("help", true);
    assert_eq!(b.pipeline_content(false), None);
    assert_eq!(b.pipeline_content(true).unwrap(), "help");
}

#[test]
fn events_drive_the_buffer() {
    let mut b = UtteranceBuffer::new();
    match b.on_event("customer", &word("hi", true)) {
        TranscriptAction::Show(ServerMessage::InterimTranscript { role, content }) => {
            assert_eq!(role, "customer");
            assert_eq!(content, "hi");
        }
        other => panic!("unexpected {:?}", other),
    }
    match b.on_event("customer", &word("the", false)) {
        TranscriptAction::Show(ServerMessage::InterimTranscript { content, .. }) => assert_eq!(content, "hi the"),
        other => panic!("unexpected {:?}", other),
    }
    match b.on_event("customer", &TranscriptEvent::UtteranceEnd) {
        TranscriptAction::Persist(t) => assert_eq!(t, "hi"),
        other => panic!("unexpected {:?}", other),
    }
    // The buffer is only cleared once the utterance is stored.
    assert_eq!(b.content, "hi");
    b.clear();
    assert!(matches!(b.on_event("customer", &TranscriptEvent::UtteranceEnd), TranscriptAction::Ignore));
}

use azor::api::{document_response, ApiError};
use azor::auth::request_token;
use azor::calls::no_excerpts_summary;
use azor::events::{Reference, ServerMessage, SocketEvent};
use azor::intelligence::{
    answer_messages, chunk_from_row, conversation_turns, no_information_answer, no_relevant_info_message, ChunkRow, IdValue, RecordIdValue,
};
use azor::migrations::{migration_lookup, migration_script};
use azor::intelligence::{pipeline_next, PipelineAction, PipelineEvent};
use azor::transcript::{reader_action, recognizer_config, ReaderAction};
use azor::uploads::{error_event, extracting_event, form_field, FormField};

#[test]
fn request_tokens_come_from_the_authorization_header() {
    assert_eq!(request_token(Some("Bearer t0k")).unwrap(), "t0k");
    match request_token(None) {
        Err(ApiError::Unauthorized(m)) => assert_eq!(m, "missing authorization header"),
        other => panic!("unexpected {:?}", other),
    }
    match request_token(Some("Token x")) {
        Err(ApiError::Unauthorized(m)) => assert_eq!(m, "authorization header must use Bearer token"),
        other => panic!("unexpected {:?}", other),
    }
}

#[test]
fn multipart_parts_are_routed_by_name() {
    assert_eq!(form_field(Some("upload_type")), FormField::UploadType);
    assert_eq!(form_field(Some("name")), FormField::Name);
    assert_eq!(form_field(Some("file")), FormField::File);
    assert_eq!(form_field(Some("other")), FormField::Other);
    assert_eq!(form_field(None), FormField::Other);
}

#[test]
fn migrations_run_in_a_recording_transaction() {
    assert_eq!(
        migration_script("20240101_init", "DEFINE TABLE x;"),
        "BEGIN TRANSACTION;\nDEFINE TABLE x;\nCREATE _migrations:20240101_init SET applied_at = time::now();\nCOMMIT TRANSACTION;"
    );
    assert_eq!(migration_lookup("m1"), "SELECT * FROM _migrations:m1");
}

#[test]
fn conversation_rows_without_text_are_dropped() {
    let rows = vec![
        (Some("customer".to_string()), Some("hi".to_string())),
        (None, Some("x".to_string())),
        (Some("operator".to_string()), None),
        (Some("operator".to_string()), Some("hello".to_string())),
    ];
    let turns = conversation_turns(rows);
    assert_eq!(
        turns,
        vec![("customer".to_string(), "hi".to_string()), ("operator".to_string(), "hello".to_string())]
    );
}

#[test]
fn chunk_rows_need_readable_record_ids() {
    let row = ChunkRow {
        id: RecordIdValue::Object { tb: Some("chunks".to_string()), id: IdValue::Integer(3) },
        document_id: RecordIdValue::Text("documents:d".to_string()),
        content: None,
        source_path: Some("a.md".to_string()),
        char_offset: Some(12),
        chunk_index: None,
        score_bits: Some(0.75f64.to_bits()),
    };
    let c = chunk_from_row(&row).unwrap();
    assert_eq!(c.id, "chunks:3");
    assert_eq!(c.document_id, "documents:d");
    assert_eq!(c.content, "");
    assert_eq!(c.char_offset, 12);
    assert_eq!(c.chunk_index, 0);
    assert_eq!(f64::from_bits(c.score_bits), 0.75);
    let bad = ChunkRow { document_id: RecordIdValue::Other, ..row };
    assert!(chunk_from_row(&bad).is_none());
}

#[test]
fn fixed_answers() {
    assert_eq!(
        no_information_answer(),
        "I couldn't find any relevant information in the knowledge base for this topic."
    );
    assert_eq!(no_excerpts_summary(), "No relevant knowledge base excerpts found.");
}

#[test]
fn answers_are_sent_as_summary_highlights_and_suggestion() {
    let refs = vec![
        Reference { document_id: "d1".to_string(), start: 1, end: 2, text: "t1".to_string() },
        Reference { document_id: "d2".to_string(), start: 5, end: 9, text: "t2".to_string() },
    ];
    let ms = answer_messages("events:9", "events:1", "Answer [[ref:0]] [[ref:1]]", &refs, Some("Say this"));
    assert_eq!(ms.len(), 4);
    match &ms[0] {
        ServerMessage::Summary { id, trigger_id, content } => {
            assert_eq!((id.as_str(), trigger_id.as_str()), ("events:9", "events:1"));
            assert_eq!(content, "Answer [[ref:0]] [[ref:1]]");
        }
        other => panic!("unexpected {:?}", other),
    }
    for (k, r) in refs.iter().enumerate() {
        match &ms[k + 1] {
            ServerMessage::Highlight { id, trigger_id, document_id, start, end, text } => {
                assert_eq!((id.as_str(), trigger_id.as_str()), ("events:9", "events:1"));
                assert_eq!((document_id, *start, *end, text), (&r.document_id, r.start, r.end, &r.text));
            }
            other => panic!("unexpected {:?}", other),
        }
    }
    match &ms[3] {
        ServerMessage::Suggestion { content, trigger_id, .. } => {
            assert_eq!((content.as_str(), trigger_id.as_str()), ("Say this", "events:1"));
        }
        other => panic!("unexpected {:?}", other),
    }
    let plain = answer_messages("events:9", "events:1", "Just text", &Vec::new(), None);
    assert_eq!(plain.len(), 1);
    assert!(matches!(&plain[0], ServerMessage::Summary { content, .. } if content == "Just text"));
}

#[test]
fn missing_knowledge_is_reported_as_no_relevant_info() {
    match no_relevant_info_message("events:3", "events:2") {
        ServerMessage::NoRelevantInfo { id, trigger_id, content } => {
            assert_eq!((id.as_str(), trigger_id.as_str()), ("events:3", "events:2"));
            assert_eq!(content, no_information_answer());
        }
        other => panic!("unexpected {:?}", other),
    }
}

#[test]
fn recogniser_messages_are_parsed_skipped_or_end_reading() {
    assert_eq!(reader_action(SocketEvent::Text), ReaderAction::Parse);
    assert_eq!(reader_action(SocketEvent::Binary), ReaderAction::Skip);
    assert_eq!(reader_action(SocketEvent::Ping), ReaderAction::Skip);
    assert_eq!(reader_action(SocketEvent::Close), ReaderAction::Stop);
    assert_eq!(reader_action(SocketEvent::Error), ReaderAction::Stop);
}

#[test]
fn recogniser_settings() {
    let c = recognizer_config("key".to_string(), vec!["en".to_string()]);
    assert_eq!(c.model, "stt-rt-preview");
    assert_eq!(c.audio_format, "pcm_s16le");
    assert_eq!((c.sample_rate, c.num_channels), (44100, 1));
    assert!(c.enable_endpoint_detection);
    assert_eq!(c.language_hints, vec!["en".to_string()]);
}

#[test]
fn document_responses_default_missing_content() {
    let d = document_response("documents:x".to_string(), None, Some("p.md".to_string()), None);
    assert_eq!(d.content, "");
    assert_eq!(d.source_path.as_deref(), Some("p.md"));
}

#[test]
fn upload_events() {
    assert_eq!(error_event("boom".to_string()).message, "boom");
    assert_eq!(extracting_event(3).documents_found, 3);
}

#[test]
fn pipeline_starts_by_retrieving() {
    match azor::intelligence::pipeline_next(azor::intelligence::PipelineEvent::Started) {
        azor::intelligence::PipelineAction::Retrieve { stage } => assert_eq!(stage, "retrieving"),
        other => panic!("unexpected action {other:?}"),
    }
}

#[test]
fn pipeline_without_chunks_answers_that_nothing_was_found() {
    match azor::intelligence::pipeline_next(azor::intelligence::PipelineEvent::Retrieved { chunks: 0 }) {
        azor::intelligence::PipelineAction::ReportNoRelevantInfo { content } => assert_eq!(
            content,
            "I couldn't find any relevant information in the knowledge base for this topic."
        ),
        other => panic!("unexpected action {other:?}"),
    }
}

#[test]
fn pipeline_with_chunks_analyzes() {
    match azor::intelligence::pipeline_next(azor::intelligence::PipelineEvent::Retrieved { chunks: 3 }) {
        azor::intelligence::PipelineAction::Analyze { stage } => assert_eq!(stage, "analyzing"),
        other => panic!("unexpected action {other:?}"),
    }
}

#[test]
fn pipeline_prefers_tool_calls_over_text() {
    assert!(matches!(
        pipeline_next(PipelineEvent::ModelAnswered { tool_calls: true, text: true }),
        PipelineAction::RunTools
    ));
    assert!(matches!(
        pipeline_next(PipelineEvent::ModelAnswered { tool_calls: false, text: true }),
        PipelineAction::AnswerText
    ));
    assert!(matches!(
        pipeline_next(PipelineEvent::ModelAnswered { tool_calls: false, text: false }),
        PipelineAction::Done
    ));
}

#[test]
fn recorded_migrations_are_not_applied_again() {
    assert_eq!(azor::migrations::migration_step(true, "0001_init", "DEFINE TABLE t;"), None);
    assert_eq!(
        azor::migrations::migration_step(false, "0001_init", "DEFINE TABLE t;").unwrap(),
        migration_script("0001_init", "DEFINE TABLE t;")
    );
}

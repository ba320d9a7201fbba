use azor::events::ServerMessage;
use azor::intelligence::{
    merge_chunk_texts, neighbour_indices, parse_record_id, process_reference, processing_message,
    resolve_references, respond_call_index, ChunkMatch, IdValue, RecordIdValue, RespondReference,
};
use azor::prompt::build_prompt;

fn chunk(doc: &str, source: Option<&str>, content: &str, offset: i64) -> ChunkMatch {
    ChunkMatch {
        id: "chunks:1".to_string(),
        document_id: doc.to_string(),
        content: content.to_string(),
        source_path: source.map(String::from),
        char_offset: offset,
        chunk_index: 0,
        score_bits: 0.5f64.to_bits(),
    }
}

#[test]
fn reference_is_located_in_the_first_chunk_of_its_source() {
    let chunks = vec![
        chunk("documents:a", Some("faq.md"), "Other text", 0),
        chunk("documents:b", Some("billing.md"), "Invoices are sent monthly.", 100),
        chunk("documents:c", Some("billing.md"), "Invoices are sent monthly.", 500),
    ];
    let r = process_reference("sent monthly", "billing.md", &chunks).unwrap();
    assert_eq!(r.document_id, "documents:b");
    assert_eq!(r.start, 113);
    assert_eq!(r.end, 125);
    assert_eq!(r.text, "sent monthly");
}

#[test]
fn unfound_passage_falls_back_to_the_chunk_start() {
    let chunks = vec![chunk("documents:b", Some("billing.md"), "Invoices.", 40)];
    let r = process_reference("xyz", "billing.md", &chunks).unwrap();
    assert_eq!((r.start, r.end), (40, 43));
    let r = process_reference("a much longer passage than the chunk", "billing.md", &chunks).unwrap();
    assert_eq!((r.start, r.end), (40, 49));
}

#[test]
fn reference_from_unknown_source_is_none() {
    let chunks = vec![chunk("documents:b", None, "Invoices.", 0)];
    assert!(process_reference("Invoices", "billing.md", &chunks).is_none());
}

#[test]
fn references_keep_their_order_and_count() {
    let chunks = vec![chunk("documents:b", Some("billing.md"), "Invoices are sent monthly.", 10)];
    let refs = vec![
        RespondReference { text: "missing".to_string(), source_path: "nowhere.md".to_string() },
        RespondReference { text: "Invoices".to_string(), source_path: "billing.md".to_string() },
    ];
    let out = resolve_references(&refs, &chunks);
    assert_eq!(out.len(), 2);
    assert_eq!(out[0].document_id, "");
    assert_eq!((out[0].start, out[0].end), (0, 0));
    assert_eq!(out[0].text, "missing");
    assert_eq!(out[1].document_id, "documents:b");
    assert_eq!((out[1].start, out[1].end), (10, 18));
}

#[test]
fn record_ids_are_read_from_strings_and_objects() {
    assert_eq!(parse_record_id(&RecordIdValue::Text("chunks:x".to_string()), "id").unwrap(), "chunks:x");
    let obj = RecordIdValue::Object { tb: Some("documents".to_string()), id: IdValue::Text("abc".to_string()) };
    assert_eq!(parse_record_id(&obj, "document_id").unwrap(), "documents:abc");
    let obj = RecordIdValue::Object { tb: Some("chunks".to_string()), id: IdValue::Integer(-42) };
    assert_eq!(parse_record_id(&obj, "id").unwrap(), "chunks:-42");
    let obj = RecordIdValue::Object { tb: Some("chunks".to_string()), id: IdValue::Integer(i64::MIN) };
    assert_eq!(parse_record_id(&obj, "id").unwrap(), "chunks:-9223372036854775808");
}

#[test]
fn malformed_record_ids_are_reported() {
    let obj = RecordIdValue::Object { tb: None, id: IdValue::Text("abc".to_string()) };
    assert_eq!(parse_record_id(&obj, "id").unwrap_err(), "missing tb in id");
    let obj = RecordIdValue::Object { tb: Some("t".to_string()), id: IdValue::Other };
    assert_eq!(parse_record_id(&obj, "document_id").unwrap_err(), "invalid id type in document_id");
    assert_eq!(parse_record_id(&RecordIdValue::Other, "id").unwrap_err(), "cannot parse record ID from id");
}

#[test]
fn neighbouring_chunks_are_joined_with_spaces() {
    let parts = vec![Some("one".to_string()), None, Some("two".to_string()), Some("three".to_string())];
    assert_eq!(merge_chunk_texts(&parts).unwrap(), "one two three");
    assert_eq!(merge_chunk_texts(&vec![None, None]).unwrap_err(), "no chunks found");
    assert_eq!(merge_chunk_texts(&vec![Some(String::new())]).unwrap_err(), "no chunks found");
    assert_eq!(merge_chunk_texts(&vec![Some(String::new()), Some(String::new())]).unwrap(), " ");
}

#[test]
fn neighbour_indices_surround_the_chunk() {
    assert_eq!(neighbour_indices(5), [4, 5, 6]);
    assert_eq!(neighbour_indices(0), [-1, 0, 1]);
}

#[test]
fn respond_call_is_found_case_insensitively() {
    let names = vec!["search".to_string(), "Respond".to_string(), "respond".to_string()];
    assert_eq!(respond_call_index(&names), Some(1));
    assert_eq!(respond_call_index(&vec!["responder".to_string()]), None);
}

#[test]
fn only_processing_events_are_announced() {
    match processing_message("processing", "events:1".to_string(), "events:0", Some("retrieving")) {
        Some(ServerMessage::Processing { id, trigger_id, stage }) => {
            assert_eq!(id, "events:1");
            assert_eq!(trigger_id, "events:0");
            assert_eq!(stage, "retrieving");
        }
        other => panic!("unexpected {:?}", other),
    }
    match processing_message("processing", "e".to_string(), "t", None) {
        Some(ServerMessage::Processing { stage, .. }) => assert_eq!(stage, ""),
        other => panic!("unexpected {:?}", other),
    }
    assert!(processing_message("retrieval", "e".to_string(), "t", Some("x")).is_none());
}

#[test]
fn copilot_prompt_lists_conversation_message_and_excerpts() {
    let conv = vec![("customer".to_string(), "Hi".to_string()), ("operator".to_string(), "Hello".to_string())];
    let chunks = vec![chunk("d", Some("a.md"), "Alpha", 0), chunk("d", None, "Beta", 0)];
    let p = build_prompt("Need help", &conv, &chunks);
    assert_eq!(
        p,
        "## Conversation so far\n**customer**: Hi\n**operator**: Hello\n\n## Current message requiring assistance\nNeed help\n\n## Relevant knowledge base excerpts\n### Excerpt 1 (source: a.md)\nAlpha\n### Excerpt 2 (source: unknown)\nBeta\n"
    );
}

#[test]
fn copilot_prompt_without_conversation() {
    let p = build_prompt("Q", &Vec::new(), &Vec::new());
    assert_eq!(p, "## Current message requiring assistance\nQ\n\n## Relevant knowledge base excerpts\n");
}

use azor::api::{document_key, health_status, ApiError};
use azor::embed::{batch_bounds, check_batch_response, default_model, stable_order, EmbedError, InputType};
use azor::events::{socket_action, SocketAction, SocketEvent};
use azor::ingest::{ContentType, ExtractedDocument};
use azor::uploads::{document_extracted_event, upload_created_event, UploadForm, UploadProgress, UploadType};

#[test]
fn document_keys_follow_the_last_colon() {
    assert_eq!(document_key("documents:abc123"), "abc123");
    assert_eq!(document_key("abc123"), "abc123");
    assert_eq!(document_key("a:b:c"), "c");
    assert_eq!(document_key("documents:"), "");
}

#[test]
fn health_status_follows_the_database() {
    assert_eq!(health_status(true), (200, "ok"));
    assert_eq!(health_status(false), (503, "unhealthy"));
}

#[test]
fn batches_hold_at_most_128_texts() {
    assert!(batch_bounds(0).is_empty());
    assert_eq!(batch_bounds(5), vec![(0, 5)]);
    assert_eq!(batch_bounds(128), vec![(0, 128)]);
    assert_eq!(batch_bounds(300), vec![(0, 128), (128, 256), (256, 300)]);
}

#[test]
fn stable_order_sorts_by_index_keeping_ties() {
    assert_eq!(stable_order(&vec![2, 0, 1]), vec![1, 2, 0]);
    assert_eq!(stable_order(&vec![1, 0, 1, 0]), vec![1, 3, 0, 2]);
    assert!(stable_order(&Vec::new()).is_empty());
}

#[test]
fn batch_answers_are_checked() {
    assert!(matches!(
        check_batch_response(Some("quota".to_string()), Some(vec![0]), 1),
        Err(EmbedError::Api { message }) if message == "quota"
    ));
    assert!(matches!(check_batch_response(None, None, 1), Err(EmbedError::BadResponse)));
    assert!(matches!(check_batch_response(None, Some(vec![0]), 2), Err(EmbedError::BadResponse)));
    assert_eq!(check_batch_response(None, Some(vec![1, 0]), 2).unwrap(), vec![1, 0]);
}

#[test]
fn embedding_names() {
    assert_eq!(default_model(), "voyage-3-large");
    assert_eq!(InputType::Document.as_str(), "document");
    assert_eq!(InputType::Query.as_str(), "query");
}

#[test]
fn socket_events_map_to_actions() {
    assert_eq!(socket_action(SocketEvent::Binary), SocketAction::HandleAudio);
    assert_eq!(socket_action(SocketEvent::Text), SocketAction::HandleText);
    assert_eq!(socket_action(SocketEvent::Ping), SocketAction::ReplyPong);
    assert_eq!(socket_action(SocketEvent::Pong), SocketAction::Ignore);
    assert_eq!(socket_action(SocketEvent::Close), SocketAction::Stop);
    assert_eq!(socket_action(SocketEvent::Error), SocketAction::Stop);
}

#[test]
fn upload_type_field_is_checked() {
    assert_eq!(UploadType::from_field("notion_export").unwrap(), UploadType::NotionExport);
    match UploadType::from_field("dropbox") {
        Err(ApiError::BadRequest(m)) => assert_eq!(m, "unsupported upload_type: dropbox"),
        other => panic!("unexpected {:?}", other),
    }
    assert_eq!(UploadType::NotionExport.as_str(), "notion_export");
}

#[test]
fn upload_form_reports_the_first_missing_field() {
    let missing = |f: UploadForm| match f.finish() {
        Err(ApiError::BadRequest(m)) => m,
        other => panic!("unexpected {:?}", other),
    };
    assert_eq!(missing(UploadForm::new()), "missing field: upload_type");
    let mut f = UploadForm::new();
    f.upload_type = Some(UploadType::NotionExport);
    assert_eq!(missing(f), "missing field: name");
    let mut f = UploadForm::new();
    f.upload_type = Some(UploadType::NotionExport);
    f.name = Some("kb".to_string());
    assert_eq!(missing(f), "missing field: file");
    let mut f = UploadForm::new();
    f.upload_type = Some(UploadType::NotionExport);
    f.name = Some("kb".to_string());
    f.file = Some(vec![1, 2]);
    let req = f.finish().unwrap();
    assert_eq!(req.name, "kb");
    assert_eq!(req.file, vec![1, 2]);
}

#[test]
fn upload_progress_counts_chunks() {
    let mut p = UploadProgress::new(2);
    let e = p.document_chunked(0, "a.md", 3);
    assert_eq!((e.document_index, e.source_path.as_str(), e.chunks_created), (0, "a.md", 3));
    p.document_chunked(1, "b.md", 4);
    let done = p.completed_event("uploads:1".to_string());
    assert_eq!(done.status, "completed");
    assert_eq!(done.total_documents, 2);
    assert_eq!(done.total_chunks, 7);
    let created = upload_created_event("uploads:1".to_string(), "kb".to_string(), UploadType::NotionExport);
    assert_eq!(created.status, "processing");
}

#[test]
fn document_events_report_byte_lengths() {
    let doc = ExtractedDocument {
        source_path: "é.md".to_string(),
        content: "héllo".to_string(),
        content_type: ContentType::Markdown,
        origin_url: None,
    };
    let e = document_extracted_event(4, &doc);
    assert_eq!(e.index, 4);
    assert_eq!(e.source_path, "é.md");
    assert_eq!(e.content_type, "markdown");
    assert_eq!(e.content_length, 6);
}

use azor::api::ApiError;
use azor::calls::{
    build_call_prompt, format_record_id, validate_call_messages, CallMessage, CallTool, RecordKey, RecordRef,
    RetrievedChunk,
};

fn msg(role: &str, content: &str) -> CallMessage {
    CallMessage { role: role.to_string(), content: content.to_string(), wait_bits: None }
}

fn bad_request(r: Result<(), ApiError>) -> String {
    match r {
        Err(ApiError::BadRequest(m)) => m,
        other => panic!("unexpected {:?}", other),
    }
}

#[test]
fn record_ids_are_formatted_as_table_and_key() {
    let r = RecordRef { table: "conversations".to_string(), key: RecordKey::Text("abc".to_string()) };
    assert_eq!(format_record_id(&r), "conversations:abc");
    let r = RecordRef { table: "events".to_string(), key: RecordKey::Number(-7) };
    assert_eq!(format_record_id(&r), "events:-7");
    let r = RecordRef { table: "t".to_string(), key: RecordKey::Other("Uuid(1)".to_string()) };
    assert_eq!(azor::util::format_record_id(&r), "t:Uuid(1)");
}

#[test]
fn call_messages_must_be_present() {
    assert_eq!(bad_request(validate_call_messages(&Vec::new())), "messages must not be empty");
}

#[test]
fn call_roles_must_be_customer_or_operator() {
    assert!(validate_call_messages(&vec![msg("customer", "hi"), msg("operator", "hello")]).is_ok());
    assert_eq!(
        bad_request(validate_call_messages(&vec![msg("customer", "hi"), msg("agent", "x"), msg("bot", "y")])),
        "invalid role 'agent', must be 'customer' or 'operator'"
    );
}

#[test]
fn call_prompt_lists_history_and_excerpts() {
    let history = vec![msg("customer", "Where is my invoice?")];
    let chunks = vec![RetrievedChunk {
        id: RecordRef { table: "chunks".to_string(), key: RecordKey::Number(1) },
        content: "Invoices are emailed.".to_string(),
        source_path: Some("billing.md".to_string()),
        score_bits: 0,
    }];
    assert_eq!(
        build_call_prompt(&history, &chunks),
        "## Conversation so far\n[customer]: Where is my invoice?\n\n## Relevant knowledge base excerpts\n### Excerpt 1 (source: billing.md)\nInvoices are emailed.\n"
    );
}

#[test]
fn tools_are_recognised_by_either_name() {
    assert_eq!(CallTool::from_name("Highlight"), Some(CallTool::Highlight));
    assert_eq!(CallTool::from_name("highlight"), Some(CallTool::Highlight));
    assert_eq!(CallTool::from_name("summary"), Some(CallTool::Summary));
    assert_eq!(CallTool::from_name("Suggest"), Some(CallTool::Suggest));
    assert_eq!(CallTool::from_name("no_answer"), Some(CallTool::NoAnswer));
    assert_eq!(CallTool::from_name("NoAnswer"), Some(CallTool::NoAnswer));
    assert_eq!(CallTool::from_name("noanswer"), None);
}

#[test]
fn tool_output_kinds() {
    assert_eq!(CallTool::Highlight.kind(), "highlight");
    assert_eq!(CallTool::Summary.kind(), "summary");
    assert_eq!(CallTool::Suggest.kind(), "suggestion");
    assert_eq!(CallTool::NoAnswer.kind(), "summary");
}

#[test]
fn call_analysis_without_excerpts_stores_a_summary() {
    match azor::calls::call_analysis_next(azor::calls::CallEvent::Retrieved { chunks: 0 }) {
        azor::calls::CallAction::StoreSummary { text } => {
            assert_eq!(text, "No relevant knowledge base excerpts found.")
        }
        other => panic!("unexpected action {other:?}"),
    }
    assert!(matches!(
        azor::calls::call_analysis_next(azor::calls::CallEvent::Retrieved { chunks: 2 }),
        azor::calls::CallAction::AskModel
    ));
}

#[test]
fn call_analysis_stores_tool_outputs_before_text() {
    use_answer(true, true, "StoreToolOutputs");
    use_answer(false, true, "StoreTextAsSummary");
    use_answer(false, false, "Next");
}

fn use_answer(tool_calls: bool, text: bool, expected: &str) {
    let a = azor::calls::call_analysis_next(azor::calls::CallEvent::ModelAnswered { tool_calls, text });
    assert_eq!(format!("{a:?}"), expected);
}

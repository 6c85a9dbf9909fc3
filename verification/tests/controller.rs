use gemini_chat::assembler::{apply_progress, apply_terminal, finish_trailing};
use gemini_chat::chat::Chat;
use gemini_chat::executor::{preflight, fold_thoughts_into_history, CompletionState};
use gemini_chat::flower::{ChatProgress, CompletionFlower, TaskOutcome};
use gemini_chat::history::{
    build_history, conversion_requests, conversion_requests_now, Conversion, Part, WireRole,
};
use gemini_chat::message::{Attachment, AttachmentState, Message, MessageRole, RemoteHandle, Usage};
use gemini_chat::widgets::{AuthMethod, GeminiModel, ModelPicker, Settings};

fn text_message(role: MessageRole, content: &str) -> Message {
    let mut m = Message::user(content.to_string(), GeminiModel::Gemini30Flash, Vec::new(), 0, 0);
    m.role = role;
    m
}

fn text_part(t: &str) -> Part {
    Part::Text { text: t.to_string(), thought: None }
}

fn uploaded_attachment(path: &str, expiration: Option<i64>) -> Attachment {
    Attachment {
        path: path.to_string(),
        state: AttachmentState::Uploaded(RemoteHandle {
            uri: Some(format!("files/{path}")),
            mime_type: Some("text/plain".to_string()),
            expiration_time: expiration,
        }),
    }
}

#[test]
fn merging_consecutive_roles_builds_three_blocks() {
    let messages = vec![
        text_message(MessageRole::User, "first"),
        text_message(MessageRole::User, "second"),
        text_message(MessageRole::Assistant, "answer"),
        text_message(MessageRole::User, "third"),
    ];
    let (blocks, events) = build_history(&messages, None, Vec::new(), 0, false, false, 0);
    assert_eq!(blocks.len(), 3);
    assert_eq!(blocks[0].role, WireRole::User);
    assert_eq!(blocks[0].parts.len(), 2);
    match &blocks[0].parts[0] {
        Part::Text { text, .. } => assert_eq!(text, "first"),
        _ => panic!("expected a text part"),
    }
    match &blocks[0].parts[1] {
        Part::Text { text, .. } => assert_eq!(text, "second"),
        _ => panic!("expected a text part"),
    }
    assert_eq!(blocks[1].role, WireRole::Model);
    assert_eq!(blocks[1].parts.len(), 1);
    assert_eq!(blocks[2].role, WireRole::User);
    assert_eq!(blocks[2].parts.len(), 1);
    assert!(events.is_empty());
}

#[test]
fn thought_and_empty_turns_are_skipped() {
    let mut thought = text_message(MessageRole::Assistant, "inner");
    thought.is_thought = true;
    let messages = vec![
        text_message(MessageRole::User, "q"),
        thought,
        text_message(MessageRole::Assistant, ""),
        text_message(MessageRole::Assistant, "a"),
    ];
    let (blocks, _) = build_history(&messages, None, Vec::new(), 0, false, false, 0);
    assert_eq!(blocks.len(), 2);
    assert_eq!(blocks[0].parts.len(), 1);
    assert_eq!(blocks[1].parts.len(), 1);
}

#[test]
fn thought_split_produces_two_turns() {
    let mut messages = vec![Message::assistant(String::new(), GeminiModel::Gemini30Flash, 100, 0)];
    apply_progress(
        &mut messages,
        0,
        ChatProgress::Part(Part::Text { text: "abc".to_string(), thought: Some(true) }),
        150,
        0,
    );
    apply_progress(
        &mut messages,
        0,
        ChatProgress::Part(Part::Text { text: "def".to_string(), thought: Some(false) }),
        200,
        0,
    );
    assert_eq!(messages.len(), 2);
    assert!(messages[0].is_thought);
    assert_eq!(messages[0].content, "abc");
    assert!(!messages[0].is_generating);
    assert_eq!(messages[0].generation_time, Some(100));
    assert!(!messages[1].is_thought);
    assert_eq!(messages[1].content, "def");
    assert!(messages[1].is_generating);
    assert_eq!(messages[1].role, MessageRole::Assistant);
}

#[test]
fn plain_answer_text_appends_to_trailing_turn() {
    let mut messages = vec![Message::assistant(String::new(), GeminiModel::Gemini30Flash, 0, 0)];
    apply_progress(
        &mut messages,
        0,
        ChatProgress::Part(Part::Text { text: "Hel".to_string(), thought: None }),
        0,
        0,
    );
    apply_progress(
        &mut messages,
        0,
        ChatProgress::Part(Part::Text { text: "lo".to_string(), thought: None }),
        0,
        0,
    );
    assert_eq!(messages.len(), 1);
    assert_eq!(messages[0].content, "Hello");
}

#[test]
fn cancellation_finishes_with_partial_text() {
    let mut state = CompletionState::new(3);
    let events = state.absorb_chunk(vec![text_part("par"), text_part("tial")], None);
    assert_eq!(events.len(), 2);
    // the cancellation flag is observed here: the outcome is still a success
    match state.finish() {
        TaskOutcome::Success { index, text, usage } => {
            assert_eq!(index, 3);
            assert_eq!(text, "partial");
            assert!(usage.is_none());
        }
        _ => panic!("cancellation must not produce a failure"),
    }
}

#[test]
fn streaming_accumulates_text_and_latest_usage() {
    let usage1 = Usage {
        prompt_token_count: Some(1),
        candidates_token_count: Some(2),
        total_token_count: Some(3),
    };
    let usage2 = Usage {
        prompt_token_count: Some(4),
        candidates_token_count: Some(5),
        total_token_count: Some(9),
    };
    let mut state = CompletionState::new(0);
    state.absorb_chunk(vec![text_part("a")], Some(usage1));
    state.absorb_chunk(vec![text_part("b"), text_part("c")], None);
    state.absorb_chunk(vec![], Some(usage2));
    match state.finish() {
        TaskOutcome::Success { text, usage, .. } => {
            assert_eq!(text, "abc");
            assert_eq!(usage.unwrap().total_token_count, Some(9));
        }
        _ => panic!("expected success"),
    }
}

#[test]
fn transport_error_preserves_raw_text() {
    let state = CompletionState::new(2);
    match state.fail("boom".to_string()) {
        TaskOutcome::Failure { index, message } => {
            assert_eq!(index, 2);
            assert_eq!(message, "boom");
        }
        _ => panic!("expected failure"),
    }
}

#[test]
fn unexpired_handle_is_reused_without_conversion() {
    let att = uploaded_attachment("a.txt", Some(32503680000)); // year 3000
    let messages =
        vec![Message::user("hi".to_string(), GeminiModel::Gemini30Flash, vec![att], 0, 0)];
    let (requests, _now) = conversion_requests_now(&messages, None, true);
    assert!(requests.is_empty());
    let (blocks, _) = build_history(&messages, None, Vec::new(), 0, true, false, 0);
    assert_eq!(blocks.len(), 1);
    assert_eq!(blocks[0].parts.len(), 2);
    match &blocks[0].parts[0] {
        Part::FileRef { file_uri, mime_type } => {
            assert_eq!(file_uri, "files/a.txt");
            assert_eq!(mime_type, "text/plain");
        }
        _ => panic!("expected a file reference"),
    }
}

#[test]
fn expired_handle_requires_a_new_conversion() {
    let att = uploaded_attachment("a.txt", Some(1000)); // long past
    let messages =
        vec![Message::user("hi".to_string(), GeminiModel::Gemini30Flash, vec![att], 0, 0)];
    let (requests, _now) = conversion_requests_now(&messages, None, true);
    assert_eq!(requests.len(), 1);
    assert_eq!(requests[0].path, "a.txt");
    assert!(requests[0].allow_upload);
    assert_eq!(requests[0].msg_index, 0);
}

#[test]
fn pending_attachment_consumes_conversion_and_reports_progress() {
    let att = Attachment { path: "dir/pic.png".to_string(), state: AttachmentState::Pending };
    let messages =
        vec![Message::user("look".to_string(), GeminiModel::Gemini30Flash, vec![att], 0, 0)];
    let requests = conversion_requests(&messages, None, 0, true);
    assert_eq!(requests.len(), 1);
    let handle = RemoteHandle {
        uri: Some("files/xyz".to_string()),
        mime_type: Some("image/png".to_string()),
        expiration_time: None,
    };
    let (blocks, events) =
        build_history(&messages, None, vec![Conversion::Uploaded(handle)], 0, true, true, 7);
    assert_eq!(blocks.len(), 1);
    assert_eq!(blocks[0].parts.len(), 2);
    match &blocks[0].parts[0] {
        Part::FileRef { file_uri, .. } => assert_eq!(file_uri, "files/xyz"),
        _ => panic!("expected a file reference"),
    }
    // status (with the file name), uploading, uploaded, then the clear-status event
    assert_eq!(events.len(), 4);
    match &events[0] {
        (7, ChatProgress::Status { message }) => {
            assert_eq!(message, "Processing file: pic.png...")
        }
        _ => panic!("expected a status event"),
    }
    match &events[1] {
        (0, ChatProgress::FileUploading { path }) => assert_eq!(path, "dir/pic.png"),
        _ => panic!("expected an uploading event"),
    }
    match &events[2] {
        (0, ChatProgress::FileUploaded { path, file }) => {
            assert_eq!(path, "dir/pic.png");
            assert_eq!(file.uri.as_deref(), Some("files/xyz"));
        }
        _ => panic!("expected an uploaded event"),
    }
    match &events[3] {
        (7, ChatProgress::Status { message }) => assert_eq!(message, ""),
        _ => panic!("expected the clear-status event"),
    }
}

#[test]
fn failed_conversion_skips_the_attachment() {
    let att = Attachment { path: "gone.txt".to_string(), state: AttachmentState::Pending };
    let messages =
        vec![Message::user("hi".to_string(), GeminiModel::Gemini30Flash, vec![att], 0, 0)];
    let (blocks, _) = build_history(
        &messages,
        None,
        vec![Conversion::Failed("unreadable".to_string())],
        0,
        false,
        false,
        0,
    );
    assert_eq!(blocks.len(), 1);
    assert_eq!(blocks[0].parts.len(), 1);
    match &blocks[0].parts[0] {
        Part::Text { text, .. } => assert_eq!(text, "hi"),
        _ => panic!("expected the text part alone"),
    }
}

#[test]
fn extra_content_forms_trailing_inline_user_block() {
    let messages = vec![text_message(MessageRole::User, "q")];
    let extra = gemini_chat::history::ExtraContent {
        text: "draft".to_string(),
        files: Vec::new(),
    };
    let (blocks, events) = build_history(&messages, Some(&extra), Vec::new(), 0, false, false, 0);
    assert_eq!(blocks.len(), 2);
    assert_eq!(blocks[1].role, WireRole::User);
    match &blocks[1].parts[0] {
        Part::Text { text, .. } => assert_eq!(text, "draft"),
        _ => panic!("expected a text part"),
    }
    assert!(events.is_empty());
}

#[test]
fn channel_delivers_progress_in_order_before_terminal() {
    let mut flower = CompletionFlower::new(9);
    assert_eq!(flower.id(), 9);
    assert!(!flower.is_active());
    flower.activate();
    for i in 0..5usize {
        flower.send(0, ChatProgress::Status { message: format!("step {i}") });
    }
    flower.success(0, "done".to_string(), None);
    let events = flower.extract();
    assert_eq!(events.len(), 5);
    for (i, (idx, ev)) in events.iter().enumerate() {
        assert_eq!(*idx, 0);
        match ev {
            ChatProgress::Status { message } => assert_eq!(message, &format!("step {i}")),
            _ => panic!("expected a status event"),
        }
    }
    assert!(flower.is_active());
    match flower.finalize() {
        Some(TaskOutcome::Success { text, .. }) => assert_eq!(text, "done"),
        _ => panic!("expected the terminal success"),
    }
    assert!(!flower.is_active());
    assert!(flower.finalize().is_none());
}

#[test]
fn stale_success_still_clears_trailing_turn() {
    // a split happened after the terminal outcome was computed for index 0
    let mut messages = vec![
        text_message(MessageRole::User, "q"),
        Message::assistant(String::new(), GeminiModel::Gemini30Flash, 0, 0),
    ];
    apply_progress(
        &mut messages,
        1,
        ChatProgress::Part(Part::Text { text: "think".to_string(), thought: Some(true) }),
        10,
        0,
    );
    apply_progress(
        &mut messages,
        1,
        ChatProgress::Part(Part::Text { text: "answer".to_string(), thought: Some(false) }),
        20,
        0,
    );
    assert_eq!(messages.len(), 3);
    assert!(messages[2].is_generating);
    let alert = apply_terminal(
        &mut messages,
        TaskOutcome::Success { index: 1, text: "answer".to_string(), usage: None },
        30,
    );
    assert!(alert.is_none());
    finish_trailing(&mut messages, 30);
    assert!(!messages[2].is_generating);
    assert!(messages[2].generation_time.is_some());
}

#[test]
fn preflight_reports_missing_api_key() {
    let settings = Settings::default();
    assert_eq!(preflight(&settings).as_deref(), Some("API key not set."));
    let mut with_key = Settings::default();
    with_key.api_key = "k".to_string();
    assert!(preflight(&with_key).is_none());
}

#[test]
fn preflight_reports_missing_oauth_credentials() {
    let mut settings = Settings::default();
    settings.auth_method = AuthMethod::CodeAssist;
    assert_eq!(
        preflight(&settings).as_deref(),
        Some("OAuth token or Project ID not set. Please login in settings.")
    );
    settings.oauth_token = "t".to_string();
    settings.project_id = "p".to_string();
    assert!(preflight(&settings).is_none());
}

#[test]
fn folded_thoughts_are_wrapped_in_reflection_markers() {
    let mut thought = text_message(MessageRole::Assistant, "x");
    thought.is_thought = true;
    let mut messages = vec![text_message(MessageRole::User, "q"), thought];
    fold_thoughts_into_history(&mut messages);
    assert_eq!(messages[0].content, "q");
    assert!(!messages[1].is_thought);
    assert_eq!(
        messages[1].content,
        "MY INNER REFLECTIONS: x--- end of inner reflections ---\\r\\n"
    );
}

#[test]
fn status_events_set_and_text_clears_status() {
    let mut messages = vec![Message::assistant(String::new(), GeminiModel::Gemini30Flash, 0, 0)];
    apply_progress(
        &mut messages,
        0,
        ChatProgress::Status { message: "Uploading...".to_string() },
        0,
        0,
    );
    assert_eq!(messages[0].status_message.as_deref(), Some("Uploading..."));
    apply_progress(
        &mut messages,
        0,
        ChatProgress::Part(Part::Text { text: "hi".to_string(), thought: None }),
        0,
        0,
    );
    assert!(messages[0].status_message.is_none());
}

#[test]
fn upload_events_advance_attachment_state() {
    let att = Attachment { path: "f.txt".to_string(), state: AttachmentState::Pending };
    let mut messages =
        vec![Message::user("hi".to_string(), GeminiModel::Gemini30Flash, vec![att], 0, 0)];
    apply_progress(
        &mut messages,
        0,
        ChatProgress::FileUploading { path: "f.txt".to_string() },
        0,
        0,
    );
    assert!(matches!(messages[0].files[0].state, AttachmentState::Uploading));
    apply_progress(
        &mut messages,
        0,
        ChatProgress::FileUploaded {
            path: "f.txt".to_string(),
            file: RemoteHandle {
                uri: Some("files/1".to_string()),
                mime_type: None,
                expiration_time: Some(5),
            },
        },
        0,
        0,
    );
    match &messages[0].files[0].state {
        AttachmentState::Uploaded(h) => {
            assert_eq!(h.uri.as_deref(), Some("files/1"));
            assert_eq!(h.expiration_time, Some(5));
        }
        _ => panic!("expected the uploaded state"),
    }
}

#[test]
fn panicked_task_reports_distinguished_alert() {
    let mut chat = Chat::new(1, ModelPicker::default());
    chat.chatbox = "hi".to_string();
    let idx = chat.send_message(0, 0).unwrap();
    assert_eq!(idx, 1);
    chat.flower.activate();
    chat.flower.task_failed("boom".to_string());
    let alert = chat.poll_flower(10, 0);
    assert_eq!(alert.as_deref(), Some("Tokio task panicked: boom"));
    assert!(chat.messages[1].is_error);
    assert!(!chat.messages[1].is_generating);
    assert_eq!(chat.messages[1].content, "Tokio task panicked: boom");
    assert!(!chat.flower_active());
}

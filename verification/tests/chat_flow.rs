use gemini_chat::chat::{
    export_messages_plaintext, make_short_name, make_summary, Chat, ChatExportFormat,
};
use gemini_chat::diagnose::diagnose_error_text;
use gemini_chat::flower::{ChatProgress, TaskOutcome};
use gemini_chat::history::Part;
use gemini_chat::message::{Message, MessageRole};
use gemini_chat::sessions::{default_true, Sessions};
use gemini_chat::text::{i64_to_string, replace_pair, str_eq, trim_end_str};
use gemini_chat::widgets::{sanitize_text_for_tts, GeminiModel, ModelPicker};

#[test]
fn quota_exhausted_diagnosis_from_escaped_json() {
    let raw = "request failed: \"{\\\"error\\\": {\\\"code\\\": 429, \\\"status\\\": \\\"RESOURCE_EXHAUSTED\\\", \\\"message\\\": \\\"Please retry in 30s\\\"}}\"";
    let diagnosis = diagnose_error_text(raw);
    assert!(diagnosis.contains("Quota Exhausted"));
    assert!(diagnosis.contains("**Suggestion:** retry in 30s"));
}

#[test]
fn known_status_codes_map_to_templates() {
    let not_found =
        diagnose_error_text("x {\"error\": {\"code\": 404, \"status\": \"NOT_FOUND\", \"message\": \"no model\"}}");
    assert!(not_found.contains("Model Not Found"));
    assert!(not_found.contains("**Details:** no model"));

    let denied = diagnose_error_text(
        "x {\"error\": {\"code\": 403, \"status\": \"PERMISSION_DENIED\", \"message\": \"bad key\"}}",
    );
    assert!(denied.contains("Permission Denied"));

    let invalid = diagnose_error_text(
        "x {\"error\": {\"code\": 400, \"status\": \"INVALID_ARGUMENT\", \"message\": \"bad arg\"}}",
    );
    assert!(invalid.contains("Invalid Request"));
}

#[test]
fn unknown_status_uses_generic_template() {
    let generic = diagnose_error_text(
        "x {\"error\": {\"code\": 7, \"status\": \"WEIRD\", \"message\": \"m\"}}",
    );
    assert!(generic.contains("Gemini API Error (7)"));
    assert!(generic.contains("**Status:** WEIRD"));
    assert!(generic.contains("**Message:** m"));
}

#[test]
fn missing_error_fields_fall_back_to_defaults() {
    let generic = diagnose_error_text("x {\"error\": {}}");
    assert!(generic.contains("Gemini API Error (0)"));
    assert!(generic.contains("**Status:** UNKNOWN"));
    assert!(generic.contains("**Message:** No message"));
}

#[test]
fn structured_non_error_json_is_pretty_printed() {
    let pretty = diagnose_error_text("x {\"a\": 1}");
    assert_eq!(pretty, "{\n  \"a\": 1\n}");
}

#[test]
fn unstructured_text_is_shown_verbatim() {
    let raw = "connection reset by peer";
    assert_eq!(diagnose_error_text(raw), raw);
}

#[test]
fn send_message_trims_builds_summary_and_appends_placeholder() {
    let mut chat = Chat::new(4, ModelPicker::default());
    chat.chatbox = "hello there  \n".to_string();
    let idx = chat.send_message(50, 1000).unwrap();
    assert_eq!(idx, 1);
    assert_eq!(chat.messages.len(), 2);
    assert_eq!(chat.messages[0].content, "hello there");
    assert_eq!(chat.messages[0].role, MessageRole::User);
    assert!(chat.messages[1].is_generating);
    assert_eq!(chat.messages[1].role, MessageRole::Assistant);
    assert_eq!(chat.summary, "Hello there");
    assert!(chat.chatbox.is_empty());
    assert!(chat.files.is_empty());
}

#[test]
fn empty_chatbox_sends_nothing() {
    let mut chat = Chat::new(1, ModelPicker::default());
    assert!(chat.send_message(0, 0).is_none());
    assert!(chat.messages.is_empty());
}

#[test]
fn send_message_drops_previous_error_turns() {
    let mut chat = Chat::new(1, ModelPicker::default());
    chat.chatbox = "q1".to_string();
    chat.send_message(0, 0);
    chat.messages[1].is_error = true;
    chat.messages[1].is_generating = false;
    chat.chatbox = "q2".to_string();
    chat.send_message(0, 0);
    assert_eq!(chat.messages.len(), 3);
    assert_eq!(chat.messages[0].content, "q1");
    assert_eq!(chat.messages[1].content, "q2");
    assert!(!chat.messages.iter().any(|m| m.is_error));
}

#[test]
fn success_outcome_writes_usage_and_clears_status() {
    let mut chat = Chat::new(1, ModelPicker::default());
    chat.chatbox = "hi".to_string();
    let idx = chat.send_message(0, 0).unwrap();
    chat.flower.activate();
    chat.flower.send(
        idx,
        ChatProgress::Part(Part::Text { text: "answer".to_string(), thought: None }),
    );
    chat.flower.success(
        idx,
        "answer".to_string(),
        Some(gemini_chat::message::Usage {
            prompt_token_count: Some(1),
            candidates_token_count: Some(2),
            total_token_count: Some(3),
        }),
    );
    let alert = chat.poll_flower(25, 0);
    assert!(alert.is_none());
    assert_eq!(chat.messages[idx].content, "answer");
    assert_eq!(chat.messages[idx].usage.unwrap().total_token_count, Some(3));
    assert!(!chat.messages[idx].is_generating);
    assert!(!chat.flower_active());
}

#[test]
fn failure_outcome_marks_error_turn_and_surfaces_alert() {
    let mut chat = Chat::new(1, ModelPicker::default());
    chat.chatbox = "hi".to_string();
    let idx = chat.send_message(0, 0).unwrap();
    chat.flower.activate();
    chat.flower.error(idx, "plain transport error".to_string());
    let alert = chat.poll_flower(10, 0);
    assert_eq!(alert.as_deref(), Some("plain transport error"));
    assert!(chat.messages[idx].is_error);
    assert_eq!(chat.messages[idx].content, "plain transport error");
}

#[test]
fn restore_retry_returns_prompt_to_chatbox() {
    let mut chat = Chat::new(1, ModelPicker::default());
    chat.chatbox = "ask me".to_string();
    chat.send_message(0, 0);
    chat.messages[1].is_error = true;
    chat.restore_retry(1);
    assert_eq!(chat.chatbox, "ask me");
    assert!(chat.messages.is_empty());
    assert!(chat.retry_message_idx.is_none());
}

#[test]
fn regenerate_response_installs_prepend_buffer() {
    let mut chat = Chat::new(1, ModelPicker::default());
    chat.chatbox = "q".to_string();
    let idx = chat.send_message(0, 0).unwrap();
    chat.prepend_buf = "Sure: ".to_string();
    chat.regenerate_response(idx);
    assert_eq!(chat.messages[idx].content, "Sure: ");
    assert!(chat.prepend_buf.is_empty());
}

#[test]
fn last_message_contents_marks_user_turns() {
    let mut chat = Chat::new(1, ModelPicker::default());
    assert!(chat.last_message_contents().is_none());
    chat.chatbox = "question".to_string();
    chat.send_message(0, 0);
    // the trailing placeholder is empty, so the user turn is reported
    assert_eq!(chat.last_message_contents().as_deref(), Some("You: question"));
}

#[test]
fn summary_caps_length_and_uppercases() {
    assert_eq!(make_summary(""), "");
    assert_eq!(make_summary("hi"), "Hi");
    assert_eq!(
        make_summary("hello world this is a long prompt"),
        "Hello world this is a lo\u{2026}"
    );
    assert_eq!(make_summary("abc\ndef"), "Abc");
    assert_eq!(make_summary("\nabc"), "");
}

#[test]
fn short_name_is_fixed() {
    assert_eq!(make_short_name("models/gemini-3-pro-preview"), "Gemini");
}

#[test]
fn export_formats_offer_expected_extensions() {
    assert_eq!(ChatExportFormat::Plaintext.extensions(), vec!["txt"]);
    assert_eq!(ChatExportFormat::Json.extensions(), vec!["json"]);
    assert_eq!(ChatExportFormat::Ron.extensions(), vec!["ron"]);
    assert_eq!(ChatExportFormat::Plaintext.name(), "Plaintext");
    assert_eq!(ChatExportFormat::default(), ChatExportFormat::Plaintext);
}

#[test]
fn plaintext_export_renders_time_role_model_and_content() {
    let mut m = Message::user("hi".to_string(), GeminiModel::Gemini30Flash, Vec::new(), 0, 0);
    m.time = 0;
    let out = export_messages_plaintext(&vec![m]);
    assert_eq!(out, "1970-01-01T00:00:00+00:00 - User (gemini-3-flash-preview): hi\n");
}

#[test]
fn model_ids_match_the_wire_names() {
    assert_eq!(GeminiModel::Gemini30Flash.model_id(), "gemini-3-flash-preview");
    assert_eq!(GeminiModel::Gemini25Pro.model_id(), "gemini-2.5-pro");
    assert_eq!(GeminiModel::Gemma3nE2bIt.model_id(), "gemma-3n-e2b-it");
    assert_eq!(GeminiModel::default(), GeminiModel::Gemini30Flash);
}

#[test]
fn text_utilities_behave() {
    assert_eq!(trim_end_str("a \t\n"), "a");
    assert_eq!(trim_end_str(""), "");
    assert_eq!(replace_pair("a\\nb\\n", '\\', 'n', "\n"), "a\nb\n");
    assert_eq!(i64_to_string(0), "0");
    assert_eq!(i64_to_string(-42), "-42");
    assert_eq!(i64_to_string(9007199254740993), "9007199254740993");
    assert_eq!(i64_to_string(i64::MIN), "-9223372036854775808");
    assert!(str_eq("abc", "abc"));
    assert!(!str_eq("abc", "abd"));
    assert_eq!(sanitize_text_for_tts("**hello**"), "**hello**");
    assert!(default_true());
}

#[test]
fn sessions_add_and_remove_chats_keep_ids_unique() {
    let mut sessions = Sessions::default();
    assert_eq!(sessions.chats.len(), 1);
    let first_id = sessions.chats[0].id();
    sessions.add_default_chat();
    assert_eq!(sessions.chats.len(), 2);
    assert!(sessions.chats[1].id() > first_id);
    sessions.remove_chat(0);
    assert_eq!(sessions.chats.len(), 1);
    assert_eq!(sessions.selected_chat, 0);
    // removing the last chat grows a fresh default one
    sessions.remove_chat(0);
    assert_eq!(sessions.chats.len(), 1);
}

#[test]
fn picked_files_land_in_the_right_chat() {
    let mut sessions = Sessions::default();
    sessions.add_default_chat();
    let id = sessions.chats[1].id();
    let k = sessions
        .add_files_to_chat(id, vec!["a.png".to_string(), "b.txt".to_string()])
        .unwrap();
    assert_eq!(k, 1);
    assert_eq!(sessions.chats[1].files.len(), 2);
    assert_eq!(sessions.chats[1].files[0].path, "a.png");
    assert!(sessions.add_files_to_chat(99999, vec![]).is_none());
}

#[test]
fn token_counts_and_auth_results_update_state() {
    let mut sessions = Sessions::default();
    let id = sessions.chats[0].id();
    sessions.set_token_count(id, 321);
    assert_eq!(sessions.chats[0].token_count, Some(321));
    sessions.apply_auth_result(
        "tok".to_string(),
        vec!["proj-a".to_string(), "proj-b".to_string()],
    );
    assert_eq!(sessions.settings.oauth_token, "tok");
    assert_eq!(sessions.settings.project_id, "proj-a");
    assert_eq!(sessions.settings.available_projects.len(), 2);
    // a project already chosen is kept
    sessions.apply_auth_result("tok2".to_string(), vec!["proj-c".to_string()]);
    assert_eq!(sessions.settings.project_id, "proj-a");
}

#[test]
fn restore_clamps_selection() {
    let mut sessions = Sessions::default();
    let chats = vec![Chat::new(1, ModelPicker::default()), Chat::new(2, ModelPicker::default())];
    sessions.restore_chats(chats, 7);
    assert_eq!(sessions.selected_chat, 0);
    let chats2 = vec![Chat::new(1, ModelPicker::default()), Chat::new(2, ModelPicker::default())];
    sessions.restore_chats(chats2, 1);
    assert_eq!(sessions.selected_chat, 1);
}

#[test]
fn duplicate_log_copies_turn_contents() {
    let mut chat = Chat::new(1, ModelPicker::default());
    chat.chatbox = "hi".to_string();
    chat.send_message(0, 0);
    let copy = gemini_chat::message::duplicate_log(&chat.messages);
    assert_eq!(copy.len(), chat.messages.len());
    assert_eq!(copy[0].content, chat.messages[0].content);
    assert_eq!(copy[0].role, chat.messages[0].role);
}

#[test]
fn poll_keeps_outcome_for_turn_after_stream_events() {
    // N progress sends followed by one terminal call: the drain applies
    // all progress, in order, before the terminal outcome
    let mut chat = Chat::new(1, ModelPicker::default());
    chat.chatbox = "count".to_string();
    let idx = chat.send_message(0, 0).unwrap();
    chat.flower.activate();
    for piece in ["1", "2", "3"] {
        chat.flower.send(
            idx,
            ChatProgress::Part(Part::Text { text: piece.to_string(), thought: None }),
        );
    }
    chat.flower.success(idx, "123".to_string(), None);
    let alert = chat.poll_flower(5, 0);
    assert!(alert.is_none());
    assert_eq!(chat.messages[idx].content, "123");
}

#[test]
fn terminal_outcome_variants_roundtrip_through_flower() {
    let mut chat = Chat::new(1, ModelPicker::default());
    chat.chatbox = "x".to_string();
    let idx = chat.send_message(0, 0).unwrap();
    chat.flower.activate();
    chat.flower.error(idx, "{\"error\": {\"code\": 429, \"status\": \"RESOURCE_EXHAUSTED\", \"message\": \"slow down\"}}".to_string());
    let alert = chat.poll_flower(0, 0).unwrap();
    assert!(alert.contains("Quota Exhausted"));
    assert_eq!(chat.messages[idx].content, alert);
}

use crabcode::message::{message_block_clipboard_text, message_response_markdown, Message};
use crabcode::queue::{
    combine_queued_messages, remote_prompt_with_image_placeholders, QueuedUserMessage,
};
use crabcode::selection::{
    selection_action_bar_labels, selection_action_bar_width, selection_action_for_column,
    SelectionAction,
};
use crabcode::titles::{
    disconnected_stream_warning_message, fork_title_from_session_title,
    is_auto_session_title_for_prompt, parse_model_ref, subagent_tab_label, titlecase_agent_name,
};
use crabcode::ui::{SelectionActionBarState, SelectionActionTarget};

#[test]
fn message_block_clipboard_text_includes_assistant_turn_parts() {
    let mut assistant = Message::assistant("Final answer");
    assistant.reasoning = Some("Check files".to_string());
    let messages = vec![
        Message::user("Prompt"),
        assistant,
        Message::tool(
            "{\"name\":\"read\",\"status\":\"ok\",\"output_preview\":\"contents\"}",
        ),
    ];

    let text = message_block_clipboard_text(&messages, 1, 3);

    assert!(text.contains("Thinking:\nCheck files"));
    assert!(text.contains("Final answer"));
    assert!(text.contains("Tool:\n{"));
    assert!(text.contains("\"output_preview\": \"contents\""));
}

#[test]
fn message_response_markdown_only_returns_assistant_text() {
    let mut assistant = Message::assistant("\n## Result\n\n```rust\nfn main() {}\n```\n");
    assistant.reasoning = Some("Internal reasoning".to_string());

    assert_eq!(
        message_response_markdown(&assistant).as_deref(),
        Some("## Result\n\n```rust\nfn main() {}\n```")
    );
    assert!(message_response_markdown(&Message::user("Prompt")).is_none());
    assert!(message_response_markdown(&Message::assistant("   ")).is_none());
}

fn bar(target: SelectionActionTarget, can_open_in_editor: bool) -> SelectionActionBarState {
    SelectionActionBarState { target, can_open_in_editor }
}

#[test]
fn selection_action_bar_column_mapping_matches_rendered_labels() {
    let chat_without_editor = bar(SelectionActionTarget::Chat, false);
    let chat_with_editor = bar(SelectionActionTarget::Chat, true);
    let input = bar(SelectionActionTarget::Input, false);
    assert_eq!(selection_action_for_column(chat_without_editor, 1), SelectionAction::Copy);
    assert_eq!(selection_action_for_column(chat_without_editor, 8), SelectionAction::AddToPrompt);
    assert_eq!(selection_action_for_column(chat_without_editor, 24), SelectionAction::Dismiss);
    assert_eq!(selection_action_for_column(chat_with_editor, 24), SelectionAction::OpenInEditor);
    assert_eq!(selection_action_for_column(chat_with_editor, 43), SelectionAction::Dismiss);
    assert_eq!(selection_action_for_column(input, 1), SelectionAction::Copy);
    assert_eq!(selection_action_for_column(input, 8), SelectionAction::Dismiss);
}

#[test]
fn the_bar_has_room_for_its_labels() {
    for state in [
        bar(SelectionActionTarget::Chat, false),
        bar(SelectionActionTarget::Chat, true),
        bar(SelectionActionTarget::Input, false),
    ] {
        let labels = selection_action_bar_labels(state);
        let columns: usize = labels.iter().map(|l| l.text.len()).sum();
        assert!(columns <= selection_action_bar_width(state) as usize);
    }
    let labels = selection_action_bar_labels(bar(SelectionActionTarget::Input, false));
    let written: String = labels.iter().map(|l| l.text).collect();
    assert_eq!(written, " y copy esc ");
    assert_eq!(selection_action_bar_width(bar(SelectionActionTarget::Input, false)), 12);
}

#[test]
fn remote_prompt_adds_missing_image_placeholders() {
    assert_eq!(
        remote_prompt_with_image_placeholders("look here".to_string(), 2),
        "look here [Image #1] [Image #2]"
    );
    assert_eq!(
        remote_prompt_with_image_placeholders("[Image #1] describe".to_string(), 1),
        "[Image #1] describe"
    );
}

#[test]
fn fork_title_prefixes_current_session_title() {
    assert_eq!(fork_title_from_session_title("Original"), "[fork1] Original");
    assert_eq!(fork_title_from_session_title("  Renamed fork  "), "[fork1] Renamed fork");
}

#[test]
fn fork_title_increments_existing_left_fork_prefix() {
    assert_eq!(fork_title_from_session_title("[fork1] Original"), "[fork2] Original");
    assert_eq!(fork_title_from_session_title("[fork12] Original"), "[fork13] Original");
}

#[test]
fn disconnected_stream_errors_show_warning_text() {
    assert_eq!(
        disconnected_stream_warning_message(
            "Streaming failed: stream disconnected before completion: websocket closed by server before response.completed",
        )
        .as_deref(),
        Some(
            "Stream disconnected before completion: websocket closed by server before response.completed"
        )
    );
    assert_eq!(
        disconnected_stream_warning_message(
            "Provider stream ended without a terminal completion event",
        )
        .as_deref(),
        Some(
            "Stream disconnected before completion: Provider stream ended without a terminal completion event"
        )
    );
}

#[test]
fn non_disconnected_stream_errors_keep_error_toast() {
    assert!(disconnected_stream_warning_message("OpenAI API error: status=401").is_none());
}

#[test]
fn auto_session_title_matches_first_prompt_heuristic() {
    assert!(is_auto_session_title_for_prompt("You are so cool", "You are so cool"));
    assert!(is_auto_session_title_for_prompt("You the coolest!", "You the coolest!"));
    assert!(is_auto_session_title_for_prompt("session-12", "anything"));
    assert!(!is_auto_session_title_for_prompt("Manual title", "You are so cool"));
}

#[test]
fn subagent_tab_label_prefers_agent_type_marker() {
    assert_eq!(subagent_tab_label("Find files (@explore subagent)", "fallback"), "Explore");
    assert_eq!(
        subagent_tab_label("Analyze image (@vlm-agent subagent)", "fallback"),
        "Vlm-Agent"
    );
    assert_eq!(subagent_tab_label("", "fallback"), "fallback");
}

#[test]
fn model_refs_split_at_the_first_slash() {
    assert_eq!(
        parse_model_ref("openai/gpt-5"),
        ("openai".to_string(), "gpt-5".to_string())
    );
    assert_eq!(
        parse_model_ref("openrouter/meta/llama"),
        ("openrouter".to_string(), "meta/llama".to_string())
    );
}

#[test]
fn an_agent_name_begins_with_a_capital() {
    assert_eq!(titlecase_agent_name("build"), "Build");
    assert_eq!(titlecase_agent_name("\u{df}eta"), "SSeta");
    assert_eq!(titlecase_agent_name(""), "Build");
}

#[test]
fn a_placeholder_is_picked_by_the_moment() {
    assert_eq!(
        crabcode::prompting::placeholder(0),
        "Ask anything... \"Fix a TODO in the codebase\""
    );
    assert_eq!(crabcode::prompting::placeholder(12), crabcode::prompting::placeholder(0));
    assert_eq!(
        crabcode::prompting::placeholder(11),
        "Ask anything... \"Implement caching for this endpoint\""
    );
}

#[test]
fn blocks_of_messages_join() {
    let messages = vec![
        Message::user("Prompt"),
        Message::assistant("   "),
        Message::assistant("Answer"),
        Message::user("Thanks"),
    ];
    let copied = |start: usize, end: usize| message_block_clipboard_text(&messages, start, end);
    assert_eq!(copied(0, 4), "Prompt\n\nAnswer\n\nThanks");
    for a in 0..=4 {
        for b in a..=4 {
            for c in b..=4 {
                let (left, right) = (copied(a, b), copied(b, c));
                let joined = if left.is_empty() {
                    right
                } else if right.is_empty() {
                    left
                } else {
                    format!("{}\n\n{}", left, right)
                };
                assert_eq!(copied(a, c), joined);
            }
        }
    }
    assert_eq!(copied(1, 2), "");
    assert_eq!(copied(2, 5), "");
    assert_eq!(copied(3, 2), "");
}

#[test]
fn placeholders_are_added_once() {
    let with = |prompt: &str, count: usize| {
        remote_prompt_with_image_placeholders(prompt.to_string(), count)
    };
    assert_eq!(with("see [Image #2]", 3), "see [Image #2] [Image #1] [Image #3]");
    assert_eq!(with(&with("see [Image #2]", 3), 3), with("see [Image #2]", 3));
    assert_eq!(with("as is", 0), "as is");
    assert_eq!(with("", 1), "[Image #1]");
    assert_eq!(with("line\n", 1), "line\n[Image #1]");
}

fn queued(text: &str, images: &[&str]) -> QueuedUserMessage {
    QueuedUserMessage {
        text: text.to_string(),
        image_paths: images.iter().map(|p| p.to_string()).collect(),
    }
}

#[test]
fn queued_messages_combine_bit_by_bit() {
    let a = || queued("look [Image #1]", &["a.png"]);
    let b = || queued("  ", &["b.png", "c.png"]);
    let c = || queued("and [Image #1]", &["d.png"]);
    let all = combine_queued_messages(vec![a(), b(), c()]);
    assert_eq!(all.text, "look [Image #1]\n[Image #2] [Image #3]\nand [Image #4]");
    assert_eq!(all.image_paths, vec!["a.png", "b.png", "c.png", "d.png"]);

    let first = combine_queued_messages(vec![a(), b()]);
    let bit_by_bit = combine_queued_messages(vec![first, c()]);
    assert_eq!(bit_by_bit.text, all.text);
    assert_eq!(bit_by_bit.image_paths, all.image_paths);

    let none = combine_queued_messages(vec![queued("", &[]), queued("one", &[]), queued("", &[])]);
    assert_eq!(none.text, "one");
    assert!(none.image_paths.is_empty());
}

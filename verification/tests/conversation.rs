#![allow(dead_code, unused_imports)]

use crabcode::agents::{AgentDefinition, AgentMode};
use crabcode::app::{
    App, TerminalNotificationCondition, TerminalNotificationMode, TerminalNotifications,
};
use crabcode::chunks::SubagentStart;
use crabcode::commands::{CommandFacts, InputType, ParsedCommand};
use crabcode::keys::{KeyCode, KeyNext, KeyPress, KeyScene, Submission};
use crabcode::layout::{Area, ChatHeights};
use crabcode::message::Message;
use crabcode::mouse::{ChatTouch, MouseEvent, MouseKind, MouseScene};
use crabcode::queue::{QueuedItem, QueuedUserMessage};
use crabcode::remote::SuggestionKind;
use crabcode::session::{Session, Workspace};
use crabcode::startup::Shell;
use crabcode::state::{ClientSessionState, Effect, StreamState};
use crabcode::ui::{DialogItem, Theme};
use crabcode::compaction::CompactionEvent;
use crabcode::focus::{BaseFocus, OverlayFocus};
use crabcode::keys::{
    picked_suggestion, DialogAnswer, Picked, SelectedSuggestion, SuggestionAnswer,
};
use crabcode::live::start_frame;
use crabcode::message::{CompactionStats, MessageRole};
use crabcode::session::SessionStatus;
use crabcode::state::{CompactionPending, Input, ToolCallPlace};
use crabcode::chunks::{ChunkMessage, ToolCall, ToolCallResult};
use crabcode::drain::StreamSource;

fn agent(name: &str, mode: AgentMode) -> AgentDefinition {
    AgentDefinition {
        name: name.to_string(),
        description: format!("The {} agent", name),
        mode,
        hidden: false,
        model: None,
        reasoning_effort: None,
    }
}

fn notifications() -> TerminalNotifications {
    TerminalNotifications {
        condition: TerminalNotificationCondition::Always,
        complete: TerminalNotificationMode::Disabled,
        subagent_complete: TerminalNotificationMode::Disabled,
        permission: TerminalNotificationMode::Disabled,
        question: TerminalNotificationMode::Disabled,
        error: TerminalNotificationMode::Disabled,
        bell_supported: false,
        focused: true,
    }
}

fn shell() -> Shell {
    Shell {
        now: 1_000_000,
        cwd: ".".to_string(),
        workspace: Workspace {
            id: 1,
            path: "/tmp/workspace".to_string(),
            name: "workspace".to_string(),
            sort_order: 0,
        },
        next_session_id: "session-1".to_string(),
        themes: vec![Theme { id: "default".to_string(), dark: true }],
        theme_index: 0,
        dark_mode: true,
        transparent: false,
        title_enabled: false,
        notifications: notifications(),
    }
}

fn test_app() -> App {
    let mut app = App::new(shell());
    app.agents = vec![
        agent("build", AgentMode::Primary),
        agent("plan", AgentMode::Primary),
        agent("general", AgentMode::Subagent),
        agent("explore", AgentMode::Subagent),
    ];
    app.model = "test-model".to_string();
    app.provider_name = "test-provider".to_string();
    app.ui.startup_hydrated = true;
    app
}

fn new_session(app: &mut App, title: &str) -> String {
    app.next_session_id = format!("s{}", app.sessions.len() + 1);
    app.create_new_session(title)
}

fn client<'a>(app: &'a mut App, id: &str) -> &'a mut ClientSessionState {
    app.clients.iter_mut().find(|c| c.id == id).expect("client")
}

fn session<'a>(app: &'a App, id: &str) -> &'a Session {
    app.sessions.iter().find(|s| s.id == id).expect("session")
}

fn session_mut<'a>(app: &'a mut App, id: &str) -> &'a mut Session {
    app.sessions.iter_mut().find(|s| s.id == id).expect("session")
}

fn add_current_session_message(app: &mut App, message: Message) {
    let id = app.current.clone().expect("current session");
    app.chat.add_message(message.copy());
    session_mut(app, &id).messages.push(message);
}

fn start_stream(app: &mut App, id: &str, boundary: usize) {
    let now = app.now;
    client(app, id).stream = Some(StreamState::new(
        Some("test-model".to_string()),
        Some("test-provider".to_string()),
        boundary,
        now,
    ));
    app.is_streaming = true;
}

fn queue_text(app: &mut App, id: &str, text: &str) {
    client(app, id).queued_items.push(QueuedItem::Message(QueuedUserMessage {
        text: text.to_string(),
        image_paths: Vec::new(),
    }));
}

fn was_cancelled(app: &App, id: &str) -> bool {
    app.effects
        .iter()
        .any(|e| matches!(e, Effect::CancelStream { session_id } if session_id == id))
}

fn facts(canonical: &str, chat_only: bool) -> CommandFacts {
    CommandFacts {
        custom: false,
        canonical: Some(canonical.to_string()),
        chat_only,
        connected: None,
    }
}

fn command(name: &str) -> InputType {
    InputType::Command(ParsedCommand { name: name.to_string(), args: Vec::new() })
}

fn run_command(app: &mut App, name: &str, chat_only: bool) {
    let f = facts(name, chat_only);
    app.process_input(command(name), &f, true);
}

fn scene() -> KeyScene {
    KeyScene {
        chat_text: None,
        editable: false,
        facts: CommandFacts { custom: false, canonical: None, chat_only: false, connected: None },
    }
}

fn key(code: KeyCode) -> KeyPress {
    KeyPress { code, ctrl: false, shift: false, alt: false, command: false, release: false }
}

fn ctrl(c: char) -> KeyPress {
    KeyPress { ctrl: true, ..key(KeyCode::Char { c }) }
}

fn press(app: &mut App, code: KeyCode) -> KeyNext {
    app.handle_keys(key(code), &scene())
}

fn submit_text(app: &mut App, text: &str) {
    app.submit_prompt(
        Submission {
            input: Some(InputType::Message(text.to_string())),
            images: Vec::new(),
            allowed: true,
        },
        &scene(),
    );
}

fn subagent(parent: &str, id: &str, kind: &str) -> SubagentStart {
    SubagentStart {
        parent_session_id: parent.to_string(),
        session_id: id.to_string(),
        title: format!("A task (@{} subagent)", kind),
        subagent_type: kind.to_string(),
        model: Some("sub-model".to_string()),
        provider: Some("sub-provider".to_string()),
        description: "A task".to_string(),
        prompt: "Check implementation".to_string(),
    }
}

fn mouse(kind: MouseKind, column: u16, row: u16) -> MouseEvent {
    MouseEvent { kind, column, row, shift: false, command: false, other_modifier: false }
}

fn size() -> Area {
    Area::new(0, 0, 80, 24)
}

fn heights() -> ChatHeights {
    ChatHeights { input: 3, queue: 0, footer: 2 }
}

fn mouse_scene(app: &App, message: Option<usize>) -> MouseScene {
    MouseScene {
        chat_area: app.chat_area_for_size(size(), heights()),
        bar_area: None,
        chat_text: None,
        editable: false,
        sticky: None,
        message,
        target: None,
        inside_popup: false,
    }
}

fn touch(has_selection: bool, is_dragging: bool) -> ChatTouch {
    ChatTouch { taken: true, has_selection, is_dragging }
}

fn model_item(id: &str) -> DialogItem {
    DialogItem {
        id: id.to_string(),
        name: "Test Model".to_string(),
        group: "Test".to_string(),
        description: String::new(),
        tip: None,
        provider_id: "test-provider".to_string(),
        active: false,
    }
}

fn contents(messages: &Vec<Message>) -> Vec<String> {
    messages.iter().map(|m| m.content.clone()).collect()
}

fn value_of(content: &str) -> serde_json::Value {
    serde_json::from_str(content).expect("json")
}

fn tool_running(id: &str, name: &str) -> Message {
    Message::tool(&format!(
        "{{\"id\":\"{}\",\"name\":\"{}\",\"status\":\"running\"}}",
        id, name
    ))
}

fn read_call() -> ToolCall {
    ToolCall {
        id: "call_1".to_string(),
        name: "read".to_string(),
        arguments: "{\"path\":\"Cargo.toml\"}".to_string(),
    }
}

fn read_result() -> ToolCallResult {
    ToolCallResult {
        tool_call_id: "call_1".to_string(),
        name: "read".to_string(),
        content: "{\"status\":\"ok\",\"title\":\"Read\",\"output_preview\":\"contents\"}".to_string(),
    }
}

fn sources(
    id: &str,
    receiver: tokio::sync::mpsc::UnboundedReceiver<ChunkMessage>,
) -> Vec<StreamSource> {
    vec![StreamSource { session_id: id.to_string(), receiver }]
}

fn previews(app: &App) -> Vec<String> {
    app.remote_queued_message_previews()
}

#[test]
fn commands_can_submit_while_streaming() {
    assert!(crabcode::commands::can_submit_input(&command("models"), true));
}

#[test]
fn messages_wait_until_streaming_finishes() {
    let input = InputType::Message("send another prompt".to_string());
    assert!(!crabcode::commands::can_submit_input(&input, true));
    assert!(crabcode::commands::can_submit_input(&input, false));
}

#[test]
fn messages_entered_while_streaming_are_queued() {
    let mut app = test_app();
    let id = new_session(&mut app, "Queue");
    app.base_focus = BaseFocus::Chat;
    start_stream(&mut app, &id, 0);
    app.input.insert_str("Then about riolu");

    assert_eq!(press(&mut app, KeyCode::Enter), KeyNext::Submit);
    submit_text(&mut app, "Then about riolu");

    assert_eq!(client(&mut app, &id).queued_items.len(), 1);
    assert!(matches!(
        &client(&mut app, &id).queued_items[0],
        QueuedItem::Message(m) if m.text == "Then about riolu"
    ));
    assert_eq!(previews(&app), vec!["Then about riolu".to_string()]);
    assert!(app.input.is_empty());
    assert!(app.chat.messages.is_empty());
}

fn suggested(name: &str, custom: bool, filled: &str) -> SelectedSuggestion {
    SelectedSuggestion {
        kind: SuggestionKind::Command,
        replacement: name.to_string(),
        custom,
        filled: Input::with_text_and_images(filled.to_string(), Vec::new()),
        suggestions: false,
        read_as: command(name),
        allowed: true,
    }
}

#[test]
fn agents_and_files_only_fill_the_prompt() {
    assert!(matches!(picked_suggestion(SuggestionKind::Agent, "plan", false), Picked::Fill));
    assert!(matches!(picked_suggestion(SuggestionKind::File, "src/lib.rs", false), Picked::Fill));
    assert!(matches!(picked_suggestion(SuggestionKind::File, "src/lib.rs", true), Picked::Fill));

    let mut app = test_app();
    app.base_focus = BaseFocus::Chat;
    app.input.insert_str("@pl");
    app.set_suggestions(true);
    let mut selected = suggested("plan", false, "@plan ");
    selected.kind = SuggestionKind::Agent;
    selected.suggestions = true;
    assert_eq!(press(&mut app, KeyCode::Tab), KeyNext::Ask);
    app.handle_key_answer(
        key(KeyCode::Tab),
        DialogAnswer::Suggestions { answer: SuggestionAnswer::Picked { selected: Some(selected) } },
        &scene(),
    );
    assert_eq!(app.input.text, "@plan ");
    assert!(!app.suggestions);
    assert_ne!(app.overlay_focus, OverlayFocus::SuggestionsPopup);

    app.set_suggestions(true);
    app.autocomplete_and_submit(None, &scene());
    assert_eq!(app.input.text, "@plan ");
    assert!(!app.suggestions);
}

#[test]
fn builtin_command_suggestion_autosubmits() {
    let mut app = test_app();
    new_session(&mut app, "Compact suggest");
    app.base_focus = BaseFocus::Chat;
    app.input.insert_str("/comp");
    app.set_suggestions(true);

    assert!(matches!(
        picked_suggestion(SuggestionKind::Command, "compact", false),
        Picked::Run { command } if command == "/compact"
    ));
    let mut s = scene();
    s.facts = facts("compact", true);
    app.autocomplete_and_submit(Some(suggested("compact", false, "/compact ")), &s);

    assert!(app.input.is_empty());
    assert!(!app.suggestions);
    assert_ne!(app.overlay_focus, OverlayFocus::SuggestionsPopup);
}

#[test]
fn custom_command_suggestion_fills_without_submit() {
    let mut app = test_app();
    app.base_focus = BaseFocus::Chat;
    app.input.insert_str("/ship");
    app.set_suggestions(true);

    assert!(matches!(picked_suggestion(SuggestionKind::Command, "shipit", true), Picked::Fill));
    app.autocomplete_and_submit(Some(suggested("shipit", true, "/shipit ")), &scene());

    assert_eq!(app.input.text, "/shipit ");
}

#[test]
fn compact_while_streaming_is_queued() {
    let mut app = test_app();
    let id = new_session(&mut app, "Queue compact");
    app.base_focus = BaseFocus::Chat;
    start_stream(&mut app, &id, 0);

    app.compact_current_session();

    assert!(app.compaction.is_none());
    assert!(matches!(client(&mut app, &id).queued_items[0], QueuedItem::Compact));
    assert_eq!(previews(&app), vec!["/compact".to_string()]);
}

#[test]
fn compact_while_already_compacting_is_rejected() {
    let mut app = test_app();
    let id = new_session(&mut app, "Already compacting");
    app.base_focus = BaseFocus::Chat;
    app.compaction = Some(CompactionPending { session_id: id.clone(), before_tokens: 1_000 });
    app.is_streaming = true;

    app.compact_current_session();

    assert!(client(&mut app, &id).queued_items.is_empty());
    assert!(app.compaction.is_some());
}

#[test]
fn double_esc_cancels_active_compaction() {
    let mut app = test_app();
    let id = new_session(&mut app, "Cancel compact");
    app.base_focus = BaseFocus::Chat;
    app.compaction = Some(CompactionPending { session_id: id, before_tokens: 1_000 });
    app.is_streaming = true;

    press(&mut app, KeyCode::Esc);
    assert!(!app.effects.iter().any(|e| matches!(e, Effect::CancelCompaction)));
    press(&mut app, KeyCode::Esc);
    assert!(app.effects.iter().any(|e| matches!(e, Effect::CancelCompaction)));
}

#[test]
fn messages_entered_while_compacting_are_queued() {
    let mut app = test_app();
    let id = new_session(&mut app, "Compact queue");
    app.base_focus = BaseFocus::Chat;
    app.compaction = Some(CompactionPending { session_id: id.clone(), before_tokens: 1_000 });
    app.sync_active_streaming_flag();
    app.input.insert_str("Then about eevee");

    assert_eq!(press(&mut app, KeyCode::Enter), KeyNext::Submit);
    submit_text(&mut app, "Then about eevee");

    assert_eq!(client(&mut app, &id).queued_items.len(), 1);
    assert_eq!(previews(&app), vec!["Then about eevee".to_string()]);
    assert!(app.input.is_empty());
    assert!(app.chat.messages.is_empty());
}

#[test]
fn streaming_text_persistence_is_throttled_until_terminal_chunk() {
    let mut app = test_app();
    let id = new_session(&mut app, "Streaming throttle");
    app.base_focus = BaseFocus::Chat;
    app.chat.add_message(Message::incomplete(""));
    let (sender, receiver) = tokio::sync::mpsc::unbounded_channel();
    sender.send(ChunkMessage::Text("hello".to_string())).unwrap();
    sender.send(ChunkMessage::Text(" world".to_string())).unwrap();
    start_stream(&mut app, &id, 0);
    let mut from = sources(&id, receiver);

    app.process_streaming_chunks(&mut from, &mut start_frame());

    assert_eq!(app.chat.messages[0].content, "hello world");
    assert!(session(&app, &id).messages.is_empty());

    sender.send(ChunkMessage::End).unwrap();
    app.process_streaming_chunks(&mut from, &mut start_frame());

    assert_eq!(session(&app, &id).messages[0].content, "hello world");
}

#[test]
fn streaming_tool_events_share_snapshot_throttling() {
    let mut app = test_app();
    let id = new_session(&mut app, "Tool snapshot throttle");
    app.base_focus = BaseFocus::Chat;
    app.chat.add_message(Message::incomplete(""));
    start_stream(&mut app, &id, 0);

    app.add_tool_calls_to_session(&id, &vec![read_call()]);
    app.add_tool_result_to_session(&id, &read_result());

    assert_eq!(app.chat.messages[0].parts.len(), 2);
    assert!(client(&mut app, &id).stream.as_ref().unwrap().pending_snapshot);
    assert!(session(&app, &id).messages.iter().all(|m| {
        m.tool_call_part_data("call_1").is_none() && m.tool_result_part_data("call_1").is_none()
    }));

    app.finish_streaming_session(&id);

    let persisted = &session(&app, &id).messages[0];
    assert_eq!(persisted.parts.len(), 2);
    assert!(persisted.tool_result_part_data("call_1").is_some());
}

#[test]
fn streaming_text_chunks_do_not_dirty_sessions_dialog_live_state() {
    let mut app = test_app();
    let id = new_session(&mut app, "Text only");
    app.open_sessions_dialog();
    app.refresh_sessions_dialog();
    app.base_focus = BaseFocus::Chat;
    app.chat.add_message(Message::incomplete(""));
    app.sessions_dialog.dirty = false;
    app.sessions_dialog.last_probe = app.now;
    let before = app.sessions_dialog.last_probe;
    let (sender, receiver) = tokio::sync::mpsc::unbounded_channel();
    sender.send(ChunkMessage::Text("hello".to_string())).unwrap();
    sender.send(ChunkMessage::Text(" world".to_string())).unwrap();
    start_stream(&mut app, &id, 0);
    let mut from = sources(&id, receiver);

    app.process_streaming_chunks(&mut from, &mut start_frame());

    assert!(!app.sessions_dialog.dirty);
    assert_eq!(app.sessions_dialog.last_probe, before);

    sender.send(ChunkMessage::End).unwrap();
    app.process_streaming_chunks(&mut from, &mut start_frame());

    assert!(!app.sessions_dialog.dirty);
    let row = app.sessions_dialog.rows.iter().find(|row| row.id == id).expect("row");
    assert!(!row.is_streaming);
}

#[test]
fn queued_messages_cancel_stream_after_next_tool_result() {
    let mut app = test_app();
    let id = new_session(&mut app, "Queue after tool");
    app.base_focus = BaseFocus::Chat;
    app.chat.add_message(tool_running("call_1", "bash"));
    start_stream(&mut app, &id, 0);
    client(&mut app, &id)
        .tool_calls
        .places
        .push(ToolCallPlace { id: "call_1".to_string(), index: 0 });
    queue_text(&mut app, &id, "then about pikachu");

    app.add_tool_result_to_session(
        &id,
        &ToolCallResult {
            tool_call_id: "call_1".to_string(),
            name: "bash".to_string(),
            content: "done".to_string(),
        },
    );

    assert!(was_cancelled(&app, &id));
}

fn partial_response(title: &str) -> (App, String) {
    let mut app = test_app();
    let id = new_session(&mut app, title);
    app.base_focus = BaseFocus::Chat;
    let boundary = app.chat.messages.len();
    app.chat.add_message(Message::assistant("partial response"));
    start_stream(&mut app, &id, boundary);
    (app, id)
}

#[test]
fn single_esc_does_not_cancel_streaming() {
    let (mut app, id) = partial_response("Single esc");

    press(&mut app, KeyCode::Esc);

    assert!(!was_cancelled(&app, &id));
    assert!(app.esc_is_primed());
    assert!(app.is_streaming);
}

#[test]
fn double_esc_cancels_streaming() {
    let (mut app, id) = partial_response("Double esc");

    press(&mut app, KeyCode::Esc);
    press(&mut app, KeyCode::Esc);

    assert!(was_cancelled(&app, &id));
    assert!(!app.esc_is_primed());
}

#[test]
fn esc_arm_expires_before_second_press() {
    let (mut app, id) = partial_response("Esc arm timeout");

    press(&mut app, KeyCode::Esc);
    assert!(app.esc_is_primed());
    app.now = app.now + crabcode::keys::ESC_ARM_TIMEOUT + 1;

    press(&mut app, KeyCode::Esc);

    assert!(!was_cancelled(&app, &id));
    assert!(app.esc_is_primed());
}

#[test]
fn esc_with_queued_messages_interrupts_and_submits_immediately() {
    let (mut app, id) = partial_response("Queue esc");
    queue_text(&mut app, &id, "Then about riolu");

    press(&mut app, KeyCode::Esc);
    assert!(!was_cancelled(&app, &id));
    assert!(app.esc_is_primed());

    press(&mut app, KeyCode::Esc);

    assert!(was_cancelled(&app, &id));
    assert!(!app.esc_is_primed());
    assert!(client(&mut app, &id).queued_items.is_empty());
    assert!(app
        .chat
        .messages
        .iter()
        .any(|m| m.role == MessageRole::User && m.content == "Then about riolu"));
}

#[test]
fn queued_messages_submit_as_single_user_record_with_line_breaks() {
    let mut app = test_app();
    let id = new_session(&mut app, "Queue batch");
    app.base_focus = BaseFocus::Chat;
    for text in ["nice", "nice", "nice"] {
        queue_text(&mut app, &id, text);
    }

    assert!(app.submit_queued_messages_for_session(&id));

    assert!(client(&mut app, &id).queued_items.is_empty());
    assert!(client(&mut app, &id).stream.is_some());
    assert_eq!(contents(&app.chat.messages), vec!["nice\nnice\nnice", ""]);
    let persisted = &session(&app, &id).messages;
    assert_eq!(persisted.len(), 2);
    assert_eq!(persisted[0].content, "nice\nnice\nnice");
    assert_eq!(persisted[1].role, MessageRole::Assistant);
    assert!(!persisted[1].is_complete);
}

#[test]
fn interruption_guidance_augments_the_request_system_prompt() {
    let mut messages = vec![Message::system("base prompt"), Message::user("new request")];

    crabcode::message::apply_turn_guidance(
        &mut messages,
        Some(crabcode::message::INTERRUPTED_TURN_CONTINUATION_GUIDANCE),
    );

    assert_eq!(messages.len(), 2);
    assert_eq!(messages[0].role, MessageRole::System);
    assert!(messages[0].content.starts_with("base prompt\n\n"));
    assert!(messages[0].content.contains("resume unfinished work"));
}

#[test]
fn no_interruption_guidance_leaves_messages_unchanged() {
    let mut messages = vec![Message::system("base prompt")];

    crabcode::message::apply_turn_guidance(&mut messages, None);

    assert_eq!(contents(&messages), vec!["base prompt"]);
    assert_eq!(messages[0].role, MessageRole::System);
}

#[test]
fn queued_image_messages_submit_as_single_record_with_renumbered_placeholders() {
    let mut app = test_app();
    let id = new_session(&mut app, "Queue images");
    app.base_focus = BaseFocus::Chat;
    client(&mut app, &id).queued_items.push(QueuedItem::Message(QueuedUserMessage {
        text: "first [Image #1]".to_string(),
        image_paths: vec!["/tmp/first.png".to_string()],
    }));
    client(&mut app, &id).queued_items.push(QueuedItem::Message(QueuedUserMessage {
        text: "second [Image #1]".to_string(),
        image_paths: vec!["/tmp/second.png".to_string()],
    }));

    assert!(app.submit_queued_messages_for_session(&id));

    let said = app.chat.messages.iter().find(|m| m.role == MessageRole::User).unwrap();
    assert_eq!(said.content, "first [Image #1]\nsecond [Image #2]");
    assert_eq!(
        said.local_image_paths,
        vec!["/tmp/first.png".to_string(), "/tmp/second.png".to_string()]
    );
}

fn with_partial_answer(title: &str, answer: &str, tool: &str) -> (App, String) {
    let mut app = test_app();
    let id = new_session(&mut app, title);
    add_current_session_message(&mut app, Message::user("Prompt"));
    app.chat.add_message(Message::incomplete(answer));
    app.chat.add_message(tool_running("call_1", tool));
    start_stream(&mut app, &id, 1);
    (app, id)
}

#[test]
fn failed_stream_persists_partial_messages() {
    let (mut app, id) = with_partial_answer("Failure", "I'll inspect that file.", "read");

    app.fail_streaming_session(&id, "Permission denied by user");

    assert_eq!(app.chat.messages.len(), 3);
    {
        let saved = &session(&app, &id).messages;
        assert_eq!(saved.len(), 3);
        assert_eq!(saved[1].role, MessageRole::Assistant);
        assert!(saved[1].is_complete);
        assert_eq!(saved[1].model.as_deref(), Some("test-model"));
        assert_eq!(saved[1].provider.as_deref(), Some("test-provider"));
        let payload = value_of(&saved[2].content);
        assert_eq!(payload["status"], "error");
        assert_eq!(payload["output_preview"], "Permission denied by user");
    }

    app.fail_streaming_session(&id, "duplicate terminal chunk");

    assert_eq!(app.chat.messages.len(), 3);
    assert_eq!(session(&app, &id).messages.len(), 3);
}

#[test]
fn interrupted_stream_persists_partial_messages() {
    let (mut app, id) = with_partial_answer("Interrupted", "Partial answer.", "read");

    app.cancelled_streaming_session(&id);

    assert_eq!(app.chat.messages.len(), 3);
    let s = session(&app, &id);
    assert_eq!(s.status, SessionStatus::Interrupted);
    assert_eq!(s.messages.len(), 3);
    assert_eq!(s.messages[1].role, MessageRole::Assistant);
    assert_eq!(s.messages[1].content, "Partial answer.");
    assert!(s.messages[1].is_complete);
    assert!(s.messages[1].was_interrupted);
    assert_eq!(s.messages[1].model.as_deref(), Some("test-model"));
    assert_eq!(s.messages[1].provider.as_deref(), Some("test-provider"));
    let payload = value_of(&s.messages[2].content);
    assert_eq!(payload["status"], "error");
    assert_eq!(payload["output_preview"], "Streaming cancelled by user");
}

#[test]
fn streamed_tool_call_and_result_persist_as_single_assistant_message() {
    let mut app = test_app();
    let id = new_session(&mut app, "Logical assistant");
    add_current_session_message(&mut app, Message::user("Prompt"));
    app.chat.add_message(Message::incomplete("Checking."));
    start_stream(&mut app, &id, 1);

    app.add_tool_calls_to_session(&id, &vec![read_call()]);
    app.add_tool_result_to_session(&id, &read_result());
    app.finish_streaming_session(&id);

    assert_eq!(app.chat.messages.len(), 2);
    let s = session(&app, &id);
    assert_eq!(s.messages.len(), 2);
    let assistant = &s.messages[1];
    assert_eq!(assistant.role, MessageRole::Assistant);
    assert_eq!(
        assistant.parts.iter().map(|p| p.part_type.as_str()).collect::<Vec<_>>(),
        vec!["text", "tool_call", "tool_result"]
    );
    assert_eq!(assistant.content, "Checking.");
    assert!(assistant.tool_call_part_data("call_1").is_some());
    assert_eq!(
        assistant.tool_result_part_data("call_1").and_then(|d| d.get_str("output_preview")),
        Some("contents".to_string())
    );
}

#[test]
fn stream_finish_waits_for_running_tool_result() {
    let (mut app, id) = with_partial_answer("Deferred", "Checking.", "read");
    client(&mut app, &id)
        .tool_calls
        .places
        .push(ToolCallPlace { id: "call_1".to_string(), index: 2 });

    app.finish_streaming_session(&id);

    assert!(client(&mut app, &id).stream.is_some());
    assert!(client(&mut app, &id).tool_calls.deferred_finish);
    assert!(!app.chat.messages[1].is_complete);
    assert_eq!(session(&app, &id).messages.len(), 1);

    app.add_tool_result_to_session(&id, &read_result());

    assert!(client(&mut app, &id).stream.is_none());
    assert!(!client(&mut app, &id).tool_calls.deferred_finish);
    assert!(app.chat.messages[1].is_complete);
    let saved = &session(&app, &id).messages;
    assert_eq!(saved.len(), 3);
    assert_eq!(value_of(&saved[2].content)["status"], "ok");
}

#[test]
fn disconnected_stream_receiver_marks_running_tools_failed() {
    let (mut app, id) = with_partial_answer("Disconnected", "Working.", "bash");
    client(&mut app, &id)
        .tool_calls
        .places
        .push(ToolCallPlace { id: "call_1".to_string(), index: 2 });
    let (sender, receiver) = tokio::sync::mpsc::unbounded_channel();
    drop(sender);

    app.process_streaming_chunks(&mut sources(&id, receiver), &mut start_frame());

    assert!(client(&mut app, &id).stream.is_none());
    assert!(!app.is_streaming);
    let s = session(&app, &id);
    assert_eq!(s.status, SessionStatus::Failed);
    assert_eq!(s.messages.len(), 3);
    let payload = value_of(&s.messages[2].content);
    assert_eq!(payload["status"], "error");
    assert_eq!(
        payload["output_preview"],
        "stream disconnected before completion: stream task ended before sending a completion event"
    );
}

#[test]
fn disconnected_stream_receiver_processes_queued_tool_result_before_failing() {
    let (mut app, id) = with_partial_answer("Tool result then disconnect", "Working.", "bash");
    client(&mut app, &id)
        .tool_calls
        .places
        .push(ToolCallPlace { id: "call_1".to_string(), index: 2 });
    let (sender, receiver) = tokio::sync::mpsc::unbounded_channel();
    sender
        .send(ChunkMessage::ToolResult(ToolCallResult {
            tool_call_id: "call_1".to_string(),
            name: "bash".to_string(),
            content: "{\"status\":\"ok\",\"title\":\"Bash\",\"output_preview\":\"tests passed\"}"
                .to_string(),
        }))
        .unwrap();
    drop(sender);

    app.process_streaming_chunks(&mut sources(&id, receiver), &mut start_frame());

    assert!(client(&mut app, &id).stream.is_none());
    assert!(!app.is_streaming);
    let s = session(&app, &id);
    assert_eq!(s.status, SessionStatus::Failed);
    assert_eq!(s.messages.len(), 3);
    let payload = value_of(&s.messages[2].content);
    assert_eq!(payload["status"], "ok");
    assert_eq!(payload["output_preview"], "tests passed");
}

fn summary_stats() -> CompactionStats {
    CompactionStats {
        before_tokens: 1_000,
        after_tokens: 120,
        before_messages: 5,
        after_messages: 1,
    }
}

#[test]
fn compaction_result_is_applied_from_receiver() {
    let mut app = test_app();
    let id = new_session(&mut app, "Compact");
    app.base_focus = BaseFocus::Chat;
    let mut summary = Message::user("summary");
    summary.compaction_stats = Some(summary_stats());
    app.compaction = Some(CompactionPending { session_id: id.clone(), before_tokens: 1_000 });
    app.is_streaming = true;

    app.process_compaction_events(
        vec![CompactionEvent::Success {
            session_id: id.clone(),
            messages: vec![summary],
            marker: None,
            stats_text: "saved 88%".to_string(),
            stored: Ok(()),
        }],
        false,
    );

    assert!(app.compaction.is_none());
    assert!(!app.is_streaming);
    assert_eq!(contents(&app.chat.messages), vec!["summary"]);
    assert_eq!(contents(&session(&app, &id).messages), vec!["summary"]);
    assert_eq!(app.chat.messages[0].compaction_stats, Some(summary_stats()));
}

#[test]
fn queued_messages_submit_after_compaction_result() {
    let mut app = test_app();
    let id = new_session(&mut app, "Compact queue submit");
    app.base_focus = BaseFocus::Chat;
    queue_text(&mut app, &id, "Then about jolteon");
    app.compaction = Some(CompactionPending { session_id: id.clone(), before_tokens: 1_000 });
    app.is_streaming = true;

    app.process_compaction_events(
        vec![CompactionEvent::Success {
            session_id: id.clone(),
            messages: vec![Message::assistant("summary")],
            marker: None,
            stats_text: "saved 88%".to_string(),
            stored: Ok(()),
        }],
        false,
    );

    assert!(client(&mut app, &id).queued_items.is_empty());
    assert!(client(&mut app, &id).stream.is_some());
    assert!(app.is_streaming);
    assert_eq!(contents(&app.chat.messages), vec!["summary", "Then about jolteon", ""]);
}

#[test]
fn parent_cancellation_interrupts_active_subagent_sessions() {
    let mut app = test_app();
    let parent = new_session(&mut app, "Parent");
    app.base_focus = BaseFocus::Chat;
    app.chat.add_message(Message::incomplete("Parent partial"));
    start_stream(&mut app, &parent, 0);
    app.start_subagent_session(&subagent(&parent, "child-a", "general"));

    assert!(app.session_has_active_stream("child-a"));

    app.cancelled_streaming_session(&parent);

    assert!(!app.session_has_active_stream("child-a"));
    let child = session(&app, "child-a");
    assert_eq!(child.status, SessionStatus::Interrupted);
    assert_eq!(child.messages.len(), 2);
    assert!(child.messages[1].is_complete);
    assert!(child.messages[1].was_interrupted);
}

#[test]
fn queue_interrupt_also_interrupts_active_subagent_sessions() {
    let mut app = test_app();
    let parent = new_session(&mut app, "Parent");
    app.base_focus = BaseFocus::Chat;
    app.chat.add_message(Message::incomplete("Parent partial"));
    start_stream(&mut app, &parent, 0);
    app.start_subagent_session(&subagent(&parent, "child-a", "general"));

    assert!(app.session_has_active_stream("child-a"));
    assert!(app.switch_to_session(&parent));
    assert!(app.queue_message_for_current_session("queued follow-up".to_string(), Vec::new()));
    assert!(app.has_queued_messages_for_session(&parent));
    assert!(app.session_has_active_stream(&parent));

    app.interrupt_child_streams_for_parent(&parent);
    app.cancel_streaming_for_session(&parent);
    app.mark_streamed_assistant_interrupted(&parent);
    app.finalize_and_persist_streamed_messages(
        &parent,
        Some("Streaming interrupted to send queued messages"),
    );
    app.set_session_status(&parent, SessionStatus::Interrupted, None);
    app.cleanup_streaming_for_session(&parent);

    assert!(!app.session_has_active_stream("child-a"));
    let child = session(&app, "child-a");
    assert_eq!(child.status, SessionStatus::Interrupted);
    assert!(child.messages[1].was_interrupted);
}

#[test]
fn cancelling_from_subagent_session_cancels_parent_stream_token() {
    let mut app = test_app();
    let parent = new_session(&mut app, "Parent");
    app.base_focus = BaseFocus::Chat;
    start_stream(&mut app, &parent, 0);
    app.start_subagent_session(&subagent(&parent, "child-a", "general"));

    app.cancel_streaming_for_session("child-a");

    assert!(was_cancelled(&app, &parent));
}

#[test]
fn a_refused_compaction_keeps_the_transcript() {
    let mut app = test_app();
    let id = new_session(&mut app, "Compact");
    app.base_focus = BaseFocus::Chat;
    add_current_session_message(&mut app, Message::user("Prompt"));
    app.compaction = Some(CompactionPending { session_id: id.clone(), before_tokens: 1_000 });
    app.is_streaming = true;

    app.process_compaction_events(
        vec![CompactionEvent::Failed { session_id: id.clone(), error: "no".to_string() }],
        false,
    );

    assert!(app.compaction.is_none());
    assert_eq!(contents(&app.chat.messages), vec!["Prompt"]);
}

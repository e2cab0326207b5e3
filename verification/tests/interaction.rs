#![allow(dead_code, unused_imports)]

use crabcode::agents::{AgentDefinition, AgentMode};
use crabcode::app::{
    App, TerminalNotificationCondition, TerminalNotificationMode, TerminalNotifications,
};
use crabcode::chunks::SubagentStart;
use crabcode::commands::{CommandFacts, InputType, ParsedCommand};
use crabcode::keys::{KeyCode, KeyNext, KeyPress, KeyScene, Submission};
use crabcode::layout::{Area, ChatHeights};
use crabcode::message::Message;
use crabcode::mouse::{ChatTouch, MouseEvent, MouseKind, MouseScene};
use crabcode::queue::{QueuedItem, QueuedUserMessage};
use crabcode::session::{Session, Workspace};
use crabcode::startup::Shell;
use crabcode::state::{ClientSessionState, Effect, StreamState};
use crabcode::ui::{DialogItem, Theme};
use crabcode::choices::{ActionAnswer, PaletteAnswer, RemoteAnswer, WhichKeyAction};
use crabcode::focus::{BaseFocus, OverlayFocus};
use crabcode::keys::DialogAnswer;
use crabcode::layout::SelectedRange;
use crabcode::mouse::MouseNext;
use crabcode::state::{Input, PermissionResponse};
use crabcode::tasks::{ModelsEvent, ModelsResult};
use crabcode::ui::{ModelsTaskKind, RemoteLaunchRequest, SelectionActionTarget};

fn agent(name: &str, mode: AgentMode) -> AgentDefinition {
    AgentDefinition {
        name: name.to_string(),
        description: format!("The {} agent", name),
        mode,
        hidden: false,
        model: None,
        reasoning_effort: None,
    }
}

fn notifications() -> TerminalNotifications {
    TerminalNotifications {
        condition: TerminalNotificationCondition::Always,
        complete: TerminalNotificationMode::Disabled,
        subagent_complete: TerminalNotificationMode::Disabled,
        permission: TerminalNotificationMode::Disabled,
        question: TerminalNotificationMode::Disabled,
        error: TerminalNotificationMode::Disabled,
        bell_supported: false,
        focused: true,
    }
}

fn shell() -> Shell {
    Shell {
        now: 1_000_000,
        cwd: ".".to_string(),
        workspace: Workspace {
            id: 1,
            path: "/tmp/workspace".to_string(),
            name: "workspace".to_string(),
            sort_order: 0,
        },
        next_session_id: "session-1".to_string(),
        themes: vec![Theme { id: "default".to_string(), dark: true }],
        theme_index: 0,
        dark_mode: true,
        transparent: false,
        title_enabled: false,
        notifications: notifications(),
    }
}

fn test_app() -> App {
    let mut app = App::new(shell());
    app.agents = vec![
        agent("build", AgentMode::Primary),
        agent("plan", AgentMode::Primary),
        agent("general", AgentMode::Subagent),
        agent("explore", AgentMode::Subagent),
    ];
    app.model = "test-model".to_string();
    app.provider_name = "test-provider".to_string();
    app.ui.startup_hydrated = true;
    app
}

fn new_session(app: &mut App, title: &str) -> String {
    app.next_session_id = format!("s{}", app.sessions.len() + 1);
    app.create_new_session(title)
}

fn client<'a>(app: &'a mut App, id: &str) -> &'a mut ClientSessionState {
    app.clients.iter_mut().find(|c| c.id == id).expect("client")
}

fn session<'a>(app: &'a App, id: &str) -> &'a Session {
    app.sessions.iter().find(|s| s.id == id).expect("session")
}

fn session_mut<'a>(app: &'a mut App, id: &str) -> &'a mut Session {
    app.sessions.iter_mut().find(|s| s.id == id).expect("session")
}

fn add_current_session_message(app: &mut App, message: Message) {
    let id = app.current.clone().expect("current session");
    app.chat.add_message(message.copy());
    session_mut(app, &id).messages.push(message);
}

fn start_stream(app: &mut App, id: &str, boundary: usize) {
    let now = app.now;
    client(app, id).stream = Some(StreamState::new(
        Some("test-model".to_string()),
        Some("test-provider".to_string()),
        boundary,
        now,
    ));
    app.is_streaming = true;
}

fn queue_text(app: &mut App, id: &str, text: &str) {
    client(app, id).queued_items.push(QueuedItem::Message(QueuedUserMessage {
        text: text.to_string(),
        image_paths: Vec::new(),
    }));
}

fn was_cancelled(app: &App, id: &str) -> bool {
    app.effects
        .iter()
        .any(|e| matches!(e, Effect::CancelStream { session_id } if session_id == id))
}

fn facts(canonical: &str, chat_only: bool) -> CommandFacts {
    CommandFacts {
        custom: false,
        canonical: Some(canonical.to_string()),
        chat_only,
        connected: None,
    }
}

fn command(name: &str) -> InputType {
    InputType::Command(ParsedCommand { name: name.to_string(), args: Vec::new() })
}

fn run_command(app: &mut App, name: &str, chat_only: bool) {
    let f = facts(name, chat_only);
    app.process_input(command(name), &f, true);
}

fn scene() -> KeyScene {
    KeyScene {
        chat_text: None,
        editable: false,
        facts: CommandFacts { custom: false, canonical: None, chat_only: false, connected: None },
    }
}

fn key(code: KeyCode) -> KeyPress {
    KeyPress { code, ctrl: false, shift: false, alt: false, command: false, release: false }
}

fn ctrl(c: char) -> KeyPress {
    KeyPress { ctrl: true, ..key(KeyCode::Char { c }) }
}

fn press(app: &mut App, code: KeyCode) -> KeyNext {
    app.handle_keys(key(code), &scene())
}

fn submit_text(app: &mut App, text: &str) {
    app.submit_prompt(
        Submission {
            input: Some(InputType::Message(text.to_string())),
            images: Vec::new(),
            allowed: true,
        },
        &scene(),
    );
}

fn subagent(parent: &str, id: &str, kind: &str) -> SubagentStart {
    SubagentStart {
        parent_session_id: parent.to_string(),
        session_id: id.to_string(),
        title: format!("A task (@{} subagent)", kind),
        subagent_type: kind.to_string(),
        model: Some("sub-model".to_string()),
        provider: Some("sub-provider".to_string()),
        description: "A task".to_string(),
        prompt: "Check implementation".to_string(),
    }
}

fn mouse(kind: MouseKind, column: u16, row: u16) -> MouseEvent {
    MouseEvent { kind, column, row, shift: false, command: false, other_modifier: false }
}

fn size() -> Area {
    Area::new(0, 0, 80, 24)
}

fn heights() -> ChatHeights {
    ChatHeights { input: 3, queue: 0, footer: 2 }
}

fn mouse_scene(app: &App, message: Option<usize>) -> MouseScene {
    MouseScene {
        chat_area: app.chat_area_for_size(size(), heights()),
        bar_area: None,
        chat_text: None,
        editable: false,
        sticky: None,
        message,
        target: None,
        inside_popup: false,
    }
}

fn touch(has_selection: bool, is_dragging: bool) -> ChatTouch {
    ChatTouch { taken: true, has_selection, is_dragging }
}

fn model_item(id: &str) -> DialogItem {
    DialogItem {
        id: id.to_string(),
        name: "Test Model".to_string(),
        group: "Test".to_string(),
        description: String::new(),
        tip: None,
        provider_id: "test-provider".to_string(),
        active: false,
    }
}

fn contents(messages: &Vec<Message>) -> Vec<String> {
    messages.iter().map(|m| m.content.clone()).collect()
}

fn value_of(content: &str) -> serde_json::Value {
    serde_json::from_str(content).expect("json")
}

fn message_action_names(app: &App, idx: usize) -> Vec<String> {
    app.message_action_items(idx).into_iter().map(|item| item.label).collect()
}

fn timeline_app(prompt: bool) -> App {
    let mut app = test_app();
    new_session(&mut app, "Timeline");
    app.base_focus = BaseFocus::Chat;
    if prompt {
        add_current_session_message(&mut app, Message::user("Prompt"));
    }
    app
}

#[test]
fn coalesced_mouse_scroll_reaches_chat_while_find_bar_is_focused() {
    let mut app = test_app();
    app.base_focus = BaseFocus::Chat;
    app.overlay_focus = OverlayFocus::FindBar;
    let chat = app.chat_area_for_size(size(), heights());

    assert!(app.wheel_scrolls_chat(chat, chat.x, chat.y));
    let m = mouse(MouseKind::ScrollDown, chat.x, chat.y);
    assert_eq!(app.handle_coalesced_mouse_scroll(chat, m, 1, true), 0);
    assert_eq!(app.handle_coalesced_mouse_scroll(chat, m, 3, false), 3);
    assert_eq!(app.handle_coalesced_mouse_scroll(chat, m, 0, false), 1);
}

#[test]
fn resolving_permission_promotes_pending_question() {
    let mut app = test_app();
    app.permissions.push(1);
    app.questions.push(2);
    app.overlay_focus = OverlayFocus::PermissionDialog;

    assert!(app.remote_respond_permission(PermissionResponse::Deny));

    assert_eq!(app.overlay_focus, OverlayFocus::QuestionDialog);
    assert!(!app.questions.is_empty());
}

#[test]
fn resolving_question_promotes_pending_permission() {
    let mut app = test_app();
    app.permissions.push(1);
    app.questions.push(2);
    app.overlay_focus = OverlayFocus::QuestionDialog;

    assert!(app.remote_answer_question());

    assert_eq!(app.overlay_focus, OverlayFocus::PermissionDialog);
    assert!(!app.permissions.is_empty());
}

#[test]
fn title_command_opens_terminal_title_dialog() {
    let mut app = test_app();

    run_command(&mut app, "title", false);

    assert_eq!(app.overlay_focus, OverlayFocus::TitleDialog);
    assert_eq!(app.ui.title.items, crabcode::startup::default_items());
}

#[test]
fn agents_command_opens_primary_agent_dialog() {
    let mut app = test_app();

    run_command(&mut app, "agents", false);

    assert_eq!(app.overlay_focus, OverlayFocus::AgentsDialog);
    let items = crabcode::agents::agent_dialog_items(&app.agents, &app.agent);
    assert!(items.iter().any(|i| i.id == "build" && i.name == "build" && i.active));
    assert!(items.iter().any(|i| i.id == "plan"));
    assert!(!items.iter().any(|i| i.id == "general"));
}

#[test]
fn command_palette_commands_preserve_chat_input_draft() {
    let mut app = test_app();
    app.input.insert_str("draft prompt");

    app.handle_command_palette_action(
        PaletteAnswer::Command {
            command: ParsedCommand { name: "agents".to_string(), args: Vec::new() },
        },
        &facts("agents", false),
    );

    assert_eq!(app.input.text, "draft prompt");
    assert_eq!(app.overlay_focus, OverlayFocus::AgentsDialog);
}

#[test]
fn remote_command_opens_dialog() {
    let mut app = test_app();

    run_command(&mut app, "remote", false);

    assert_eq!(app.overlay_focus, OverlayFocus::RemoteDialog);
    assert!(app.take_remote_launch_request().is_none());
}

#[test]
fn remote_dialog_enter_is_blocked_while_streaming() {
    let mut app = test_app();
    app.show_dialog(OverlayFocus::RemoteDialog);
    app.is_streaming = true;

    assert_eq!(press(&mut app, KeyCode::Enter), KeyNext::Ask);
    app.handle_key_answer(
        key(KeyCode::Enter),
        DialogAnswer::Remote { answer: RemoteAnswer::Blocked },
        &scene(),
    );
    app.submit_remote_launch(RemoteLaunchRequest { bind: "0.0.0.0:1".to_string(), pair_code: None });

    assert!(app.running);
    assert_eq!(app.overlay_focus, OverlayFocus::RemoteDialog);
    assert!(app.take_remote_launch_request().is_none());
}

#[test]
fn a_launch_request_is_handed_out_once() {
    let mut app = test_app();
    app.submit_remote_launch(RemoteLaunchRequest { bind: "0.0.0.0:1".to_string(), pair_code: None });

    let request = app.take_remote_launch_request().expect("request");
    assert_eq!(request.bind, "0.0.0.0:1");
    assert!(app.take_remote_launch_request().is_none());
}

#[test]
fn double_esc_opens_timeline_at_most_recent_message() {
    let mut app = timeline_app(true);
    add_current_session_message(&mut app, Message::assistant("Answer"));

    press(&mut app, KeyCode::Esc);
    assert_eq!(app.overlay_focus, OverlayFocus::Nothing);

    press(&mut app, KeyCode::Esc);
    assert_eq!(app.overlay_focus, OverlayFocus::TimelineDialog);
    assert_eq!(app.chat.highlighted, Some(1));
}

#[test]
fn non_esc_key_clears_pending_double_esc_timeline_open() {
    let mut app = timeline_app(true);

    press(&mut app, KeyCode::Esc);
    assert_eq!(press(&mut app, KeyCode::Char { c: 'a' }), KeyNext::Edit);
    app.finish_edit(
        key(KeyCode::Char { c: 'a' }),
        Input::with_text_and_images("a".to_string(), Vec::new()),
        false,
        true,
    );
    app.input.clear();
    press(&mut app, KeyCode::Esc);
    assert_eq!(app.overlay_focus, OverlayFocus::Nothing);

    press(&mut app, KeyCode::Esc);
    assert_eq!(app.overlay_focus, OverlayFocus::TimelineDialog);
}

#[test]
fn esc_with_draft_does_not_prime_timeline_open() {
    let mut app = timeline_app(true);

    app.input.set_text("draft".to_string());
    press(&mut app, KeyCode::Esc);
    app.input.clear();
    press(&mut app, KeyCode::Esc);

    assert_eq!(app.overlay_focus, OverlayFocus::Nothing);
}

#[test]
fn assistant_message_actions_include_markdown_copy() {
    let mut app = timeline_app(false);
    add_current_session_message(&mut app, Message::assistant("**Markdown**"));

    app.show_message_actions(0);

    assert!(app.message_action_items(0).iter().any(|i| i.id == "copy_response_markdown"));
}

#[test]
fn chat_selection_action_i_adds_to_prompt_and_dismisses_selection() {
    let mut app = test_app();
    app.base_focus = BaseFocus::Chat;
    app.chat.add_message(Message::assistant("alpha beta"));
    app.chat.has_selection = true;
    let chosen = Some("alpha".to_string());

    app.show_selection_action_bar_for(SelectionActionTarget::Chat, &chosen, false);
    assert_eq!(app.ui.selection_bar.map(|s| s.target), Some(SelectionActionTarget::Chat));

    let mut s = scene();
    s.chat_text = chosen;
    app.handle_keys(key(KeyCode::Char { c: 'i' }), &s);

    assert_eq!(app.input.text, "`alpha`");
    assert!(app.ui.selection_bar.is_none());
    assert!(!app.chat.has_selection);
}

fn selected_prompt(dragging: bool) -> Input {
    let mut input = Input::with_text_and_images("alpha beta".to_string(), Vec::new());
    input.has_selection = true;
    input.is_dragging = dragging;
    input.selected_text = "alpha".to_string();
    input
}

#[test]
fn input_selection_action_bar_shows_when_drag_releases_outside_input() {
    let mut app = test_app();
    app.input.set_text("alpha beta".to_string());
    let untouched = Input::with_text_and_images("alpha beta".to_string(), Vec::new());
    app.handle_input_mouse_event(mouse(MouseKind::DownLeft, 2, 20), untouched, false, true);
    app.handle_input_mouse_event(mouse(MouseKind::DragLeft, 7, 20), selected_prompt(true), false, true);
    assert!(app.input.has_selection);
    assert_eq!(app.ui.selection_bar.map(|s| s.target), Some(SelectionActionTarget::Input));
    let range = SelectedRange { start_line: 0, start_col: 0, end_line: 0 };
    let area = app.current_selection_action_bar_area(size(), heights(), 0, range).unwrap();
    assert_eq!(area.width, 12);

    let mut s = mouse_scene(&app, None);
    s.bar_area = Some(area);
    app.handle_mouse_event(mouse(MouseKind::DownLeft, area.x, area.y), &s);
    assert!(!app.input.is_dragging);
    app.handle_mouse_event(mouse(MouseKind::UpLeft, area.x, area.y), &s);
    assert!(app.ui.selection_bar.is_none());
    assert!(!app.input.has_selection);

    app.handle_input_mouse_event(mouse(MouseKind::DragLeft, 7, 20), selected_prompt(true), false, true);
    app.handle_input_mouse_event(mouse(MouseKind::UpLeft, 7, 19), selected_prompt(false), false, false);
    assert_eq!(app.ui.selection_bar.map(|s| s.target), Some(SelectionActionTarget::Input));
}

fn forwards_selection(overlay: OverlayFocus) {
    let mut app = test_app();
    app.base_focus = BaseFocus::Chat;
    app.chat.add_message(Message::assistant("alpha beta gamma"));
    app.permissions.push(1);
    app.questions.push(1);
    app.overlay_focus = overlay;
    let s = mouse_scene(&app, None);

    for (kind, column) in [(MouseKind::DownLeft, 1), (MouseKind::DragLeft, 8)] {
        let m = mouse(kind, column, 1);
        assert_eq!(app.handle_mouse_event(m, &s), MouseNext::Ask);
        let answer = if overlay == OverlayFocus::PermissionDialog {
            DialogAnswer::Permission { answer: crabcode::choices::PermissionAnswer::NotHandled }
        } else {
            DialogAnswer::Question { answer: crabcode::choices::QuestionAnswer::NotHandled }
        };
        assert_eq!(app.handle_mouse_answer(m, answer, true, &scene()), MouseNext::ChatBehind);
        app.forward_chat_mouse_through_dialog(m, touch(kind == MouseKind::DragLeft, true), &s);
    }

    assert!(app.chat.has_selection || app.chat.is_dragging);
}

#[test]
fn permission_dialog_forwards_chat_text_selection() {
    forwards_selection(OverlayFocus::PermissionDialog);
}

#[test]
fn question_dialog_forwards_chat_text_selection() {
    forwards_selection(OverlayFocus::QuestionDialog);
}

#[test]
fn chat_selection_action_bar_shows_before_mouse_up() {
    let mut app = test_app();
    app.base_focus = BaseFocus::Chat;
    app.chat.add_message(Message::assistant("alpha beta"));
    app.chat.has_selection = true;
    app.chat.is_dragging = true;
    let mut s = mouse_scene(&app, None);
    s.chat_text = Some("alpha".to_string());

    let m = mouse(MouseKind::DragLeft, 5, 0);
    assert_eq!(app.handle_mouse_event(m, &s), MouseNext::Chat);
    app.finish_chat_mouse(m, touch(true, true), &s);
    assert!(app.chat.is_dragging);
    assert_eq!(app.ui.selection_bar.map(|b| b.target), Some(SelectionActionTarget::Chat));

    let range = SelectedRange { start_line: 0, start_col: 0, end_line: 0 };
    let area = app.current_selection_action_bar_area(size(), heights(), 0, range).unwrap();
    s.bar_area = Some(area);
    app.handle_mouse_event(mouse(MouseKind::DownLeft, area.x, area.y), &s);
    assert!(!app.chat.is_dragging);
    app.handle_mouse_event(mouse(MouseKind::UpLeft, area.x, area.y), &s);
    assert!(app.ui.selection_bar.is_none());
    assert!(!app.chat.has_selection);
}

fn click(app: &mut App, message: Option<usize>) {
    let s = mouse_scene(app, message);
    let down = mouse(MouseKind::DownLeft, 1, 1);
    if app.handle_mouse_event(down, &s) == MouseNext::Chat {
        app.finish_chat_mouse(down, touch(false, true), &s);
    }
    let up = mouse(MouseKind::UpLeft, 1, 1);
    if app.handle_mouse_event(up, &s) == MouseNext::Chat {
        app.finish_chat_mouse(up, touch(false, false), &s);
    }
}

#[test]
fn clicking_chat_message_opens_message_actions() {
    let mut app = timeline_app(false);
    add_current_session_message(&mut app, Message::user("click me"));

    click(&mut app, Some(0));

    assert_eq!(app.overlay_focus, OverlayFocus::MessageActions);
    assert_eq!(app.ui.message_actions_index, Some(0));
    assert!(!app.effects.iter().any(|e| matches!(e, Effect::ScrollToMessage { .. })));
    assert!(message_action_names(&app, 0).contains(&"Undo".to_string()));
}

#[test]
fn copy_command_opens_action_dialog_with_transcript_default() {
    let mut app = timeline_app(false);

    run_command(&mut app, "copy", true);

    assert_eq!(app.overlay_focus, OverlayFocus::CopyActions);
    let items = crabcode::history::copy_action_items();
    assert_eq!(items[0].id, "transcript");
    assert_eq!(items[0].key, 't');
}

#[test]
fn message_actions_have_shortcuts() {
    let app = timeline_app(true);

    let items = app.message_action_items(0);
    let by_key = |k: char| items.iter().find(|i| i.key == k).map(|i| i.id.as_str());

    assert_eq!(by_key('c'), Some("copy"));
    assert_eq!(by_key('f'), Some("fork"));
    assert_eq!(by_key('u'), Some("undo"));
}

#[test]
fn clicking_assistant_chat_message_does_not_open_message_actions() {
    let mut app = timeline_app(false);
    add_current_session_message(&mut app, Message::assistant("click me"));

    click(&mut app, Some(0));

    assert_eq!(app.overlay_focus, OverlayFocus::Nothing);
    assert_eq!(app.ui.message_actions_index, None);
    assert_eq!(app.chat.highlighted, None);
}

#[test]
fn hovering_chat_message_does_not_set_timeline_highlight() {
    let mut app = timeline_app(false);
    add_current_session_message(&mut app, Message::assistant("hover me"));
    let s = mouse_scene(&app, Some(0));

    assert_eq!(app.handle_mouse_event(mouse(MouseKind::Moved, 1, 1), &s), MouseNext::Done);

    assert_eq!(app.overlay_focus, OverlayFocus::Nothing);
    assert_eq!(app.chat.highlighted, None);
}

#[test]
fn closing_direct_chat_message_actions_returns_to_chat() {
    let mut app = timeline_app(false);
    add_current_session_message(&mut app, Message::user("click me"));

    click(&mut app, Some(0));
    assert_eq!(press(&mut app, KeyCode::Esc), KeyNext::Ask);
    app.handle_key_answer(
        key(KeyCode::Esc),
        DialogAnswer::MessageActions { answer: ActionAnswer::Close },
        &scene(),
    );

    assert_eq!(app.overlay_focus, OverlayFocus::Nothing);
    assert_eq!(app.ui.message_actions_index, None);
    assert_eq!(app.chat.highlighted, None);
}

#[test]
fn message_actions_include_undo_for_user_messages() {
    let mut app = timeline_app(true);

    app.show_message_actions(0);

    assert!(message_action_names(&app, 0).contains(&"Undo".to_string()));
}

#[test]
fn undo_user_message_restores_local_image_attachments_to_input() {
    let mut app = timeline_app(false);
    let mut said = Message::user("see [Image #1]");
    said.local_image_paths = vec!["/tmp/example.png".to_string()];
    add_current_session_message(&mut app, said);
    add_current_session_message(&mut app, Message::assistant("Answer"));
    app.ui.message_actions_index = Some(0);

    app.execute_message_action("undo");

    assert_eq!(app.input.text, "see [Image #1]");
    assert_eq!(app.input.image_paths, vec!["/tmp/example.png".to_string()]);
    assert!(app.chat.messages.is_empty());
}

#[test]
fn message_actions_omit_undo_for_agent_messages() {
    let mut app = timeline_app(true);
    add_current_session_message(&mut app, Message::assistant("Answer"));

    app.show_message_actions(1);

    assert!(!message_action_names(&app, 1).contains(&"Undo".to_string()));
}

#[test]
fn loaded_models_are_applied_from_receiver() {
    let mut app = test_app();
    app.show_models_dialog(Vec::new());
    app.ui.models.loading = true;
    app.ui.models.task = Some(ModelsTaskKind::Load);

    app.process_models_events(
        Some(ModelsEvent {
            kind: ModelsTaskKind::Load,
            result: ModelsResult::Listing { items: vec![model_item("test-model")] },
            providers: None,
        }),
        false,
        &None,
    );

    assert!(app.ui.models.task.is_none());
    assert!(!app.ui.models.loading);
    assert_eq!(app.overlay_focus, OverlayFocus::ModelsDialog);
    assert_eq!(app.ui.models.items.len(), 1);
    assert!(app.ui.models.items[0].active);
}

#[test]
fn loaded_models_reopen_without_starting_another_task() {
    let mut app = test_app();
    app.show_models_dialog(vec![model_item("test-model")]);
    app.ui.models.provider_ids = None;
    app.overlay_focus = OverlayFocus::Nothing;

    app.start_models_command(ModelsTaskKind::Load, false, &None);

    assert!(app.ui.models.task.is_none());
    assert_eq!(app.overlay_focus, OverlayFocus::ModelsDialog);
    assert!(!app.ui.models.loading);
    assert!(app.ui.models.items[0].active);
}

#[test]
fn refresh_completion_closes_compact_dialog() {
    let mut app = test_app();
    app.show_models_dialog(vec![model_item("stale-model")]);
    app.ui.models.task = Some(ModelsTaskKind::Refresh);
    app.overlay_focus = OverlayFocus::RefreshModelsDialog;

    app.process_models_events(
        Some(ModelsEvent {
            kind: ModelsTaskKind::Refresh,
            result: ModelsResult::Other,
            providers: None,
        }),
        false,
        &None,
    );

    assert!(app.ui.models.task.is_none());
    assert_eq!(app.overlay_focus, OverlayFocus::Nothing);
    assert!(app.ui.models.items.is_empty());
}

#[test]
fn model_tasks_keep_animation_loop_active() {
    let mut app = test_app();
    app.base_focus = BaseFocus::Chat;
    app.ui.models.task = Some(ModelsTaskKind::Load);

    assert!(app.is_animation_running(false));
    assert!(!app.is_streaming_animation_only(false));
}

#[test]
fn home_animation_freezes_after_idle() {
    let mut app = test_app();
    app.base_focus = BaseFocus::Home;
    app.note_user_activity();
    assert!(app.is_animation_running(false));

    app.last_user_activity = app.now - 4_000;
    assert!(!app.is_animation_running(false));
}

#[test]
fn chat_only_commands_are_rejected_outside_chat() {
    for name in ["compact", "branch"] {
        let f = facts(name, true);
        assert_eq!(
            crabcode::commands::command_route(name, false, false, &f),
            crabcode::commands::CommandRoute::Rejected
        );
        assert_ne!(
            crabcode::commands::command_route(name, false, true, &f),
            crabcode::commands::CommandRoute::Rejected
        );
    }
    let mut app = test_app();
    run_command(&mut app, "compact", true);
    assert!(app.effects.iter().any(|e| matches!(e, Effect::Toast { .. })));
    assert!(app.compaction.is_none());
}

#[test]
fn ctrl_n_is_not_a_global_new_session_shortcut() {
    let mut app = test_app();
    new_session(&mut app, "Existing");

    assert!(!app.handle_base_keys(ctrl('n')));
    assert!(app.current.is_some());
    assert_eq!(app.sessions.len(), 1);
}

fn draft(cursor: usize) -> Input {
    let mut input = Input::with_text_and_images("draft prompt".to_string(), Vec::new());
    input.cursor = cursor;
    input
}

fn moves_to_both_ends(app: &mut App, back: KeyPress, on: KeyPress) {
    app.input = draft(12);
    assert_eq!(app.handle_keys(back, &scene()), KeyNext::Edit);
    app.finish_edit(back, draft(0), false, true);
    assert_eq!(app.input.cursor, 0);
    assert!(app.chat.thinking_visible);

    assert_eq!(app.handle_keys(on, &scene()), KeyNext::Edit);
    app.finish_edit(on, draft(12), false, true);
    assert!(app.chat.thinking_visible);
    assert_eq!(app.input.text, "draft prompt");
    assert_eq!(app.input.cursor, "draft prompt".chars().count());
}

#[test]
fn ctrl_e_moves_input_cursor_to_end_from_chat() {
    let mut app = test_app();
    app.base_focus = BaseFocus::Chat;
    moves_to_both_ends(&mut app, ctrl('a'), ctrl('e'));
}

#[test]
fn chat_session_allows_command_right_input_cursor_navigation() {
    let mut app = timeline_app(false);
    moves_to_both_ends(
        &mut app,
        KeyPress { command: true, ..key(KeyCode::Left) },
        KeyPress { command: true, ..key(KeyCode::Right) },
    );
}

#[test]
fn chat_session_allows_control_e_terminal_encoding_for_command_right() {
    let mut app = timeline_app(false);
    moves_to_both_ends(&mut app, ctrl('a'), ctrl('e'));
}

#[test]
fn ctrl_x_e_toggles_thinking_from_chat() {
    let mut app = test_app();
    app.base_focus = BaseFocus::Chat;
    assert!(app.chat.thinking_visible);

    app.handle_keys(ctrl('x'), &scene());
    assert_eq!(press(&mut app, KeyCode::Char { c: 'e' }), KeyNext::Ask);
    app.handle_key_answer(
        key(KeyCode::Char { c: 'e' }),
        DialogAnswer::WhichKey { action: WhichKeyAction::ToggleThinking },
        &scene(),
    );

    assert_eq!(app.overlay_focus, OverlayFocus::Nothing);
    assert!(!app.chat.thinking_visible);
}

fn app_in_child() -> App {
    let mut app = test_app();
    let parent = new_session(&mut app, "Parent");
    app.base_focus = BaseFocus::Chat;
    app.start_subagent_session(&subagent(&parent, "child-a", "general"));
    assert!(app.switch_to_latest_child_session());
    app
}

#[test]
fn subagent_session_ignores_text_input() {
    let mut app = app_in_child();

    assert_eq!(press(&mut app, KeyCode::Char { c: 'h' }), KeyNext::Done);
    let next = app.handle_paste(
        " pasted",
        crabcode::paste::PastedImages { count: 0, exact: false },
    );

    assert_eq!(next, crabcode::paste::PasteNext::Done);
    assert_eq!(app.input.text, "");
}

#[test]
fn subagent_session_allows_input_cursor_navigation() {
    let mut app = app_in_child();
    app.input = draft(11);
    let right = KeyPress { command: true, ..key(KeyCode::Right) };

    assert_eq!(app.handle_keys(right, &scene()), KeyNext::Move);
    assert_eq!(app.input.text, "draft prompt");
}

#[test]
fn subagent_session_still_ignores_editing_shortcuts() {
    let mut app = app_in_child();
    app.input = draft(12);

    assert_eq!(app.handle_keys(ctrl('u'), &scene()), KeyNext::Done);
    let backspace = KeyPress { command: true, ..key(KeyCode::Other) };
    assert_eq!(app.handle_keys(backspace, &scene()), KeyNext::Done);

    assert_eq!(app.input.text, "draft prompt");
}

#[test]
fn the_release_of_a_key_does_nothing() {
    let mut app = timeline_app(true);
    let release = KeyPress { release: true, ..key(KeyCode::Esc) };

    assert_eq!(app.handle_keys(release, &scene()), KeyNext::Done);

    assert!(!app.esc_is_primed());
    assert!(app.effects.is_empty() || app.overlay_focus == OverlayFocus::Nothing);
}

#[test]
fn ctrl_c_clears_and_twice_quits() {
    let mut app = test_app();
    app.now = app.now + 5_000;
    app.input.insert_str("draft");

    app.handle_keys(ctrl('c'), &scene());
    assert!(app.input.is_empty());
    assert!(app.running);

    app.handle_keys(ctrl('c'), &scene());
    assert!(!app.running);
}

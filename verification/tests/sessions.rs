#![allow(dead_code, unused_imports)]

use crabcode::agents::{AgentDefinition, AgentMode};
use crabcode::app::{
    App, TerminalNotificationCondition, TerminalNotificationMode, TerminalNotifications,
};
use crabcode::chunks::SubagentStart;
use crabcode::commands::{CommandFacts, InputType, ParsedCommand};
use crabcode::keys::{KeyCode, KeyNext, KeyPress, KeyScene, Submission};
use crabcode::layout::{Area, ChatHeights};
use crabcode::message::Message;
use crabcode::mouse::{ChatTouch, MouseEvent, MouseKind, MouseScene};
use crabcode::queue::{QueuedItem, QueuedUserMessage};
use crabcode::session::{Session, Workspace};
use crabcode::startup::Shell;
use crabcode::state::{ClientSessionState, Effect, StreamState};
use crabcode::ui::{DialogItem, Theme};
use crabcode::answers::SessionsAnswer;
use crabcode::commands::CommandRoute;
use crabcode::drain::StreamSource;
use crabcode::focus::{BaseFocus, OverlayFocus};
use crabcode::keys::DialogAnswer;
use crabcode::reasoning::ReasoningEffort;
use crabcode::session_list::{sessions_list_target, ListTarget, SessionsDialogFilter};
use crabcode::ui::TerminalTitleItem;
use crabcode::chunks::StreamingRetryStatus;

fn agent(name: &str, mode: AgentMode) -> AgentDefinition {
    AgentDefinition {
        name: name.to_string(),
        description: format!("The {} agent", name),
        mode,
        hidden: false,
        model: None,
        reasoning_effort: None,
    }
}

fn notifications() -> TerminalNotifications {
    TerminalNotifications {
        condition: TerminalNotificationCondition::Always,
        complete: TerminalNotificationMode::Disabled,
        subagent_complete: TerminalNotificationMode::Disabled,
        permission: TerminalNotificationMode::Disabled,
        question: TerminalNotificationMode::Disabled,
        error: TerminalNotificationMode::Disabled,
        bell_supported: false,
        focused: true,
    }
}

fn shell() -> Shell {
    Shell {
        now: 1_000_000,
        cwd: ".".to_string(),
        workspace: Workspace {
            id: 1,
            path: "/tmp/workspace".to_string(),
            name: "workspace".to_string(),
            sort_order: 0,
        },
        next_session_id: "session-1".to_string(),
        themes: vec![Theme { id: "default".to_string(), dark: true }],
        theme_index: 0,
        dark_mode: true,
        transparent: false,
        title_enabled: false,
        notifications: notifications(),
    }
}

fn test_app() -> App {
    let mut app = App::new(shell());
    app.agents = vec![
        agent("build", AgentMode::Primary),
        agent("plan", AgentMode::Primary),
        agent("general", AgentMode::Subagent),
        agent("explore", AgentMode::Subagent),
    ];
    app.model = "test-model".to_string();
    app.provider_name = "test-provider".to_string();
    app.ui.startup_hydrated = true;
    app
}

fn new_session(app: &mut App, title: &str) -> String {
    app.next_session_id = format!("s{}", app.sessions.len() + 1);
    app.create_new_session(title)
}

fn client<'a>(app: &'a mut App, id: &str) -> &'a mut ClientSessionState {
    app.clients.iter_mut().find(|c| c.id == id).expect("client")
}

fn session<'a>(app: &'a App, id: &str) -> &'a Session {
    app.sessions.iter().find(|s| s.id == id).expect("session")
}

fn session_mut<'a>(app: &'a mut App, id: &str) -> &'a mut Session {
    app.sessions.iter_mut().find(|s| s.id == id).expect("session")
}

fn add_current_session_message(app: &mut App, message: Message) {
    let id = app.current.clone().expect("current session");
    app.chat.add_message(message.copy());
    session_mut(app, &id).messages.push(message);
}

fn start_stream(app: &mut App, id: &str, boundary: usize) {
    let now = app.now;
    client(app, id).stream = Some(StreamState::new(
        Some("test-model".to_string()),
        Some("test-provider".to_string()),
        boundary,
        now,
    ));
    app.is_streaming = true;
}

fn queue_text(app: &mut App, id: &str, text: &str) {
    client(app, id).queued_items.push(QueuedItem::Message(QueuedUserMessage {
        text: text.to_string(),
        image_paths: Vec::new(),
    }));
}

fn was_cancelled(app: &App, id: &str) -> bool {
    app.effects
        .iter()
        .any(|e| matches!(e, Effect::CancelStream { session_id } if session_id == id))
}

fn facts(canonical: &str, chat_only: bool) -> CommandFacts {
    CommandFacts {
        custom: false,
        canonical: Some(canonical.to_string()),
        chat_only,
        connected: None,
    }
}

fn command(name: &str) -> InputType {
    InputType::Command(ParsedCommand { name: name.to_string(), args: Vec::new() })
}

fn run_command(app: &mut App, name: &str, chat_only: bool) {
    let f = facts(name, chat_only);
    app.process_input(command(name), &f, true);
}

fn scene() -> KeyScene {
    KeyScene {
        chat_text: None,
        editable: false,
        facts: CommandFacts { custom: false, canonical: None, chat_only: false, connected: None },
    }
}

fn key(code: KeyCode) -> KeyPress {
    KeyPress { code, ctrl: false, shift: false, alt: false, command: false, release: false }
}

fn ctrl(c: char) -> KeyPress {
    KeyPress { ctrl: true, ..key(KeyCode::Char { c }) }
}

fn press(app: &mut App, code: KeyCode) -> KeyNext {
    app.handle_keys(key(code), &scene())
}

fn submit_text(app: &mut App, text: &str) {
    app.submit_prompt(
        Submission {
            input: Some(InputType::Message(text.to_string())),
            images: Vec::new(),
            allowed: true,
        },
        &scene(),
    );
}

fn subagent(parent: &str, id: &str, kind: &str) -> SubagentStart {
    SubagentStart {
        parent_session_id: parent.to_string(),
        session_id: id.to_string(),
        title: format!("A task (@{} subagent)", kind),
        subagent_type: kind.to_string(),
        model: Some("sub-model".to_string()),
        provider: Some("sub-provider".to_string()),
        description: "A task".to_string(),
        prompt: "Check implementation".to_string(),
    }
}

fn mouse(kind: MouseKind, column: u16, row: u16) -> MouseEvent {
    MouseEvent { kind, column, row, shift: false, command: false, other_modifier: false }
}

fn size() -> Area {
    Area::new(0, 0, 80, 24)
}

fn heights() -> ChatHeights {
    ChatHeights { input: 3, queue: 0, footer: 2 }
}

fn mouse_scene(app: &App, message: Option<usize>) -> MouseScene {
    MouseScene {
        chat_area: app.chat_area_for_size(size(), heights()),
        bar_area: None,
        chat_text: None,
        editable: false,
        sticky: None,
        message,
        target: None,
        inside_popup: false,
    }
}

fn touch(has_selection: bool, is_dragging: bool) -> ChatTouch {
    ChatTouch { taken: true, has_selection, is_dragging }
}

fn model_item(id: &str) -> DialogItem {
    DialogItem {
        id: id.to_string(),
        name: "Test Model".to_string(),
        group: "Test".to_string(),
        description: String::new(),
        tip: None,
        provider_id: "test-provider".to_string(),
        active: false,
    }
}

fn contents(messages: &Vec<Message>) -> Vec<String> {
    messages.iter().map(|m| m.content.clone()).collect()
}

fn value_of(content: &str) -> serde_json::Value {
    serde_json::from_str(content).expect("json")
}

#[test]
fn reasoning_effort_overrides_are_instance_local() {
    let mut first = test_app();
    let second = test_app();

    first.reasoning.set_reasoning_effort_override_for_model(
        "openai",
        "gpt-5",
        Some(ReasoningEffort::High),
        Ok(()),
    )
    .unwrap();

    assert_eq!(
        first.reasoning.reasoning_effort_override_for_model("openai", "gpt-5"),
        Some(ReasoningEffort::High)
    );
    assert_eq!(second.reasoning.reasoning_effort_override_for_model("openai", "gpt-5"), None);
}

#[test]
fn reasoning_effort_overrides_load_from_persisted_preferences() {
    let prefs = crabcode::json::JsonDoc::empty().with_str("openai/gpt-5", "high");

    let overrides = crabcode::reasoning::reasoning_effort_overrides_from_prefs(&prefs);

    assert_eq!(overrides.len(), 1);
    assert_eq!(overrides[0].provider, "openai");
    assert_eq!(overrides[0].model, "gpt-5");
    assert_eq!(overrides[0].effort, ReasoningEffort::High);
}

#[test]
fn terminal_title_uses_workspace_leaf_when_idle() {
    let mut app = test_app();
    app.ui.cwd = "/tmp/sheetpilot".to_string();

    assert_eq!(app.terminal_title_text(), "sheetpilot");
}

#[test]
fn terminal_title_prefixes_spinner_while_streaming() {
    let mut app = test_app();
    let id = new_session(&mut app, "test");
    session_mut(&mut app, &id).workspace_path = "/tmp/sheetpilot".to_string();
    let now = app.now;
    client(&mut app, &id).external_stream = Some(StreamState::new(
        Some("test-model".to_string()),
        Some("test-provider".to_string()),
        0,
        now,
    ));

    let title = app.terminal_title_text();
    assert_eq!(title, format!("{} sheetpilot", app.terminal_title_spinner_frame()));
}

#[test]
fn terminal_title_marks_action_required() {
    let mut app = test_app();
    app.ui.cwd = "/tmp/sheetpilot".to_string();
    app.overlay_focus = OverlayFocus::PermissionDialog;

    assert_eq!(app.terminal_title_text(), "[!] sheetpilot");
}

#[test]
fn the_title_is_put_once() {
    let mut app = test_app();
    app.ui.cwd = "/tmp/sheetpilot".to_string();
    app.ui.title.enabled = true;
    app.ui.title.items = vec![TerminalTitleItem::ProjectName];
    app.update_terminal_title_signal();
    assert_eq!(app.take_effects().len(), 1);
    app.finish_terminal_title("sheetpilot".to_string(), Ok(()));
    app.update_terminal_title_signal();
    assert!(app.take_effects().is_empty());
}

#[test]
fn a_title_that_the_terminal_refuses_is_put_again() {
    let mut app = test_app();
    app.ui.cwd = "/tmp/sheetpilot".to_string();
    app.ui.title.enabled = true;
    app.ui.title.items = vec![TerminalTitleItem::ProjectName];
    app.ui.title.last = Some("before".to_string());
    app.update_terminal_title_signal();
    assert!(matches!(
        app.take_effects().last(),
        Some(Effect::SetTerminalTitle { title }) if title == "sheetpilot"
    ));
    app.finish_terminal_title("sheetpilot".to_string(), Err("closed".to_string()));
    assert_eq!(app.ui.title.last.as_deref(), Some("before"));
    app.update_terminal_title_signal();
    assert!(matches!(
        app.take_effects().last(),
        Some(Effect::SetTerminalTitle { title }) if title == "sheetpilot"
    ));
}

fn designer(mode: AgentMode) -> AgentDefinition {
    AgentDefinition {
        name: "designer".to_string(),
        description: "Design UI".to_string(),
        mode,
        hidden: false,
        model: Some("openai/gpt-5".to_string()),
        reasoning_effort: None,
    }
}

fn frontend(mode: AgentMode) -> AgentDefinition {
    AgentDefinition {
        name: "frontend-agent".to_string(),
        description: "Fast frontend agent".to_string(),
        mode,
        hidden: false,
        model: Some("xai/grok-composer-2.5-fast".to_string()),
        reasoning_effort: Some(ReasoningEffort::Low),
    }
}

#[test]
fn agent_dialog_includes_config_all_mode_agents() {
    let mut app = test_app();
    app.agents.push(designer(AgentMode::All));
    app.agents.push(agent("auditor", AgentMode::Subagent));

    let items = crabcode::agents::agent_dialog_items(&app.agents, &app.agent);

    assert!(items.iter().any(|i| {
        i.id == "designer"
            && i.name == "designer"
            && i.group == "Primary + Subagent"
            && i.tip.as_deref() == Some("openai/gpt-5")
    }));
    assert!(!items.iter().any(|i| i.id == "auditor"));
}

#[test]
fn agent_dialog_excludes_subagents_even_when_they_are_mentionable() {
    let mut app = test_app();
    app.agents.push(frontend(AgentMode::Subagent));

    assert!(crabcode::agents::visible_agent_names_for_mentions(&app.agents)
        .contains(&"frontend-agent".to_string()));
    assert!(!crabcode::agents::agent_dialog_items(&app.agents, &app.agent)
        .iter()
        .any(|i| i.id == "frontend-agent"));
    assert!(!app.set_agent_mode("frontend-agent"));
}

#[test]
fn mode_all_agent_can_be_selected_and_overrides_model_and_reasoning() {
    let mut app = test_app();
    app.agents.push(frontend(AgentMode::All));

    assert!(app.set_agent_mode("frontend-agent"));
    assert_eq!(app.agent, "Frontend-agent");
    assert_eq!(
        app.active_primary_agent_model_provider(),
        ("xai".to_string(), "grok-composer-2.5-fast".to_string())
    );
    assert_eq!(
        crabcode::agents::primary_agent_reasoning_effort(&app.agents, &app.agent, None),
        Some(ReasoningEffort::Low)
    );
}

#[test]
fn tab_cycles_through_config_primary_agents() {
    let mut app = test_app();
    app.agents.insert(1, designer(AgentMode::All));

    assert_eq!(app.agent, "Build");
    app.toggle_agent_mode();
    assert_eq!(app.agent, "Designer");
    app.toggle_agent_mode();
    assert_eq!(app.agent, "Plan");
}

fn forked_app() -> (App, String) {
    let mut app = test_app();
    let original = new_session(&mut app, "Original");
    app.base_focus = BaseFocus::Chat;
    add_current_session_message(&mut app, Message::user("Prompt"));
    app.next_session_id = "fork".to_string();
    (app, original)
}

#[test]
fn fork_command_clones_current_session() {
    let (mut app, original) = forked_app();
    add_current_session_message(&mut app, Message::assistant("Answer"));

    run_command(&mut app, "fork", true);

    let forked = app.current.clone().expect("forked session");
    assert_ne!(forked, original);
    assert_eq!(app.base_focus, BaseFocus::Chat);
    assert_eq!(contents(&app.chat.messages), vec!["Prompt", "Answer"]);
    assert_eq!(session(&app, &original).messages.len(), 2);
    assert_eq!(session(&app, &forked).title, "[fork1] Original");
    assert_eq!(contents(&session(&app, &forked).messages), vec!["Prompt", "Answer"]);
}

#[test]
fn fork_command_submitted_from_input_does_not_restore_as_original_session_draft() {
    let (mut app, original) = forked_app();
    app.input.set_text("/fork".to_string());

    assert_eq!(press(&mut app, KeyCode::Enter), KeyNext::Submit);
    let mut s = scene();
    s.facts = facts("fork", true);
    app.submit_prompt(
        Submission { input: Some(command("fork")), images: Vec::new(), allowed: true },
        &s,
    );

    assert_eq!(app.current.as_deref(), Some("fork"));
    assert!(app.switch_to_session(&original));
    assert!(app.input.is_empty());
}

#[test]
fn branch_alias_forks_current_session() {
    let (mut app, original) = forked_app();
    let f = facts("fork", true);
    assert_eq!(
        crabcode::commands::command_route("branch", false, true, &f),
        CommandRoute::Fork
    );

    app.process_input(command("branch"), &f, true);

    let forked = app.current.clone().expect("forked session");
    assert_ne!(forked, original);
    assert_eq!(session(&app, &forked).title, "[fork1] Original");
    assert_eq!(contents(&session(&app, &forked).messages), vec!["Prompt"]);
}

#[test]
fn sessions_dialog_streaming_only_uses_streaming_poll_cadence() {
    let mut app = test_app();
    app.overlay_focus = OverlayFocus::SessionsDialog;
    app.sessions_dialog.visible = true;
    app.is_streaming = false;
    app.base_focus = BaseFocus::Home;

    assert!(!app.is_streaming_animation_only(false));

    let background = new_session(&mut app, "bg");
    new_session(&mut app, "foreground");
    let now = app.now;
    client(&mut app, &background).stream = Some(StreamState::new(None, None, 0, now));

    app.refresh_sessions_dialog();
    assert!(app.is_animation_running(false));
    assert!(app.is_streaming_animation_only(false));
}

#[test]
fn the_list_is_passive_only_while_the_current_session_rests() {
    let mut app = test_app();
    let background = new_session(&mut app, "bg");
    let foreground = new_session(&mut app, "foreground");
    app.base_focus = BaseFocus::Home;
    app.overlay_focus = OverlayFocus::SessionsDialog;
    app.sessions_dialog.visible = true;
    assert!(!app.sessions_dialog_passive_streaming_view());
    start_stream(&mut app, &background, 0);
    app.is_streaming = false;
    assert!(app.sessions_dialog_passive_streaming_view());
    assert!(app.is_streaming_animation_only(false));
    start_stream(&mut app, &foreground, 0);
    assert!(!app.sessions_dialog_passive_streaming_view());
    assert!(!app.is_streaming_animation_only(false));
    app.sessions_dialog.visible = false;
    assert!(!app.sessions_dialog_passive_streaming_view());
}

#[test]
fn background_retry_does_not_force_foreground_stream_to_fast_animation_cadence() {
    let mut app = test_app();
    let background = new_session(&mut app, "background");
    let foreground = new_session(&mut app, "foreground");
    app.base_focus = BaseFocus::Chat;
    app.is_streaming = true;
    client(&mut app, &background).retry_status = Some(StreamingRetryStatus {
        attempt: 1,
        message: "retrying background stream".to_string(),
        next_epoch_ms: 1,
    });

    assert_eq!(app.current.as_deref(), Some(foreground.as_str()));
    assert!(app.is_streaming_animation_only(false));
}

fn child(id: &str, parent: &str, title: &str, workspace: &Workspace) -> Session {
    Session::new(id, Some(parent.to_string()), title, workspace, 0)
}

#[test]
fn switching_sessions_keeps_family_render_caches_and_releases_others() {
    let mut app = test_app();
    let other = new_session(&mut app, "Other");
    app.chat.add_message(Message::user("other session"));
    app.chat.render_cached = true;

    let root = new_session(&mut app, "Root");
    app.chat.add_message(Message::user("root session"));
    let a = child("child-a", &root, "Subagent A", &app.workspace);
    let b = child("child-b", &root, "Subagent B", &app.workspace);
    app.sessions.push(a);
    app.sessions.push(b);

    assert!(app.switch_to_session("child-a"));
    app.chat.add_message(Message::user("child a transcript"));
    app.chat.render_cached = true;
    assert!(app.switch_to_session("child-b"));

    assert!(client(&mut app, "child-a").chat.render_cached);
    assert!(!client(&mut app, &other).chat.render_cached);
}

#[test]
fn start_blank_session_does_not_create_session_record() {
    let mut app = test_app();
    new_session(&mut app, "Existing");

    app.start_blank_session(None);

    assert!(app.current.is_none());
    assert_eq!(app.sessions.len(), 1);
    assert_eq!(app.base_focus, BaseFocus::Home);
}

#[test]
fn start_blank_session_keeps_optional_title_for_next_real_session() {
    let mut app = test_app();

    app.start_blank_session(Some("  Named draft  "));

    assert!(app.sessions.is_empty());
    assert_eq!(app.pending_session_title.as_deref(), Some("Named draft"));
}

#[test]
fn generated_title_replaces_auto_title_but_not_manual_title() {
    let mut app = test_app();
    let prompt = "You are so cool";
    let auto = new_session(&mut app, &crabcode::titles::generate_title_from_message(prompt));
    app.chat.add_message(Message::user(prompt));
    app.apply_generated_session_title(&auto, "Friendly greeting");
    assert_eq!(session(&app, &auto).title, "Friendly greeting");

    let manual = new_session(&mut app, "Manual title");
    app.chat.add_message(Message::user(prompt));
    app.apply_generated_session_title(&manual, "Should not apply");
    assert_eq!(session(&app, &manual).title, "Manual title");
}

#[test]
fn title_generation_only_applies_to_first_user_message() {
    let mut app = test_app();
    let first = "First prompt";
    let id = new_session(&mut app, &crabcode::titles::generate_title_from_message(first));
    app.chat.add_message(Message::user(first));
    assert!(app.session_prompt_is_first_user_message(&id, first));

    app.chat.add_message(Message::assistant("response"));
    app.chat.add_message(Message::user("Second prompt"));
    assert!(!app.session_prompt_is_first_user_message(&id, "Second prompt"));

    app.apply_generated_session_title(&id, "Late title");
    assert_eq!(session(&app, &id).title, "First prompt");
}

#[test]
fn sessions_dialog_defaults_to_all_unarchived_workspaces() {
    let mut app = test_app();
    let current = new_session(&mut app, "Current");
    let other = new_session(&mut app, "Other");
    {
        let s = session_mut(&mut app, &other);
        s.workspace_id = 42;
        s.workspace_path = "/tmp/other-workspace".to_string();
        s.workspace_name = "other-workspace".to_string();
    }

    app.open_sessions_dialog();

    assert_eq!(app.sessions_dialog.filter, SessionsDialogFilter::All);
    let rows = &app.sessions_dialog.rows;
    assert!(rows.iter().any(|r| r.id == current));
    assert!(rows.iter().any(|r| r.id == other && r.group == "other-workspace"));
}

#[test]
fn sessions_dialog_focuses_current_workspace_from_home_without_current_session() {
    let mut app = test_app();
    let current = new_session(&mut app, "Current");
    let other = new_session(&mut app, "Other");
    {
        let s = session_mut(&mut app, &other);
        s.workspace_id = -1;
        s.workspace_path = "/tmp/other-workspace".to_string();
        s.workspace_name = "other-workspace".to_string();
    }

    app.start_blank_session(None);
    app.open_sessions_dialog();

    assert_eq!(app.base_focus, BaseFocus::Home);
    assert!(app.current.is_none());
    assert_eq!(app.sessions_dialog.filter, SessionsDialogFilter::All);
    let rows = &app.sessions_dialog.rows;
    match sessions_list_target(rows, &app.current, app.workspace.id) {
        ListTarget::Row(i) => assert_eq!(rows[i].group, app.workspace.name),
        ListTarget::Workspace(_) => panic!("expected a row"),
    }
    assert!(rows.iter().any(|r| r.id == current));
    assert!(rows.iter().any(|r| r.id == other));
}

#[test]
fn status_workspace_path_follows_active_session() {
    let mut app = test_app();
    app.ui.cwd = "/tmp/fallback-workspace".to_string();
    let first = new_session(&mut app, "First");
    let second = new_session(&mut app, "Second");
    session_mut(&mut app, &first).workspace_path = "/tmp/workspace-a".to_string();
    session_mut(&mut app, &second).workspace_path = "/tmp/workspace-b".to_string();

    assert!(app.switch_to_session(&first));
    assert_eq!(app.active_workspace_path(), "/tmp/workspace-a");
    assert!(app.switch_to_session(&second));
    assert_eq!(app.active_workspace_path(), "/tmp/workspace-b");

    app.current = None;
    assert_eq!(app.active_workspace_path(), "/tmp/fallback-workspace");
}

fn answer_list(app: &mut App, pressed: KeyPress, answer: SessionsAnswer) {
    assert_eq!(app.handle_keys(pressed, &scene()), KeyNext::Ask);
    app.handle_key_answer(pressed, DialogAnswer::Sessions { answer, visible: true }, &scene());
}

#[test]
fn deleting_current_session_keeps_sessions_dialog_focused() {
    let mut app = test_app();
    new_session(&mut app, "First");
    new_session(&mut app, "Second");
    app.open_sessions_dialog();
    let deleted = app.sessions_dialog.rows.last().expect("row").id.clone();
    assert!(app.switch_to_session(&deleted));
    app.overlay_focus = OverlayFocus::SessionsDialog;

    answer_list(&mut app, ctrl('d'), SessionsAnswer::Handled);
    answer_list(
        &mut app,
        ctrl('d'),
        SessionsAnswer::Delete { id: deleted.clone(), pending: None },
    );

    assert_eq!(app.overlay_focus, OverlayFocus::SessionsDialog);
    assert!(app.sessions_dialog.visible);
    assert!(app.current.is_none());
    assert!(!app.sessions.iter().any(|s| s.id == deleted));
    assert_eq!(app.sessions_dialog.rows.len(), 1);
    assert_ne!(app.sessions_dialog.rows[0].id, deleted);
}

#[test]
fn deleting_only_current_session_keeps_empty_sessions_dialog_open() {
    let mut app = test_app();
    let only = new_session(&mut app, "Only");
    app.open_sessions_dialog();

    answer_list(&mut app, ctrl('d'), SessionsAnswer::Handled);
    answer_list(&mut app, ctrl('d'), SessionsAnswer::Delete { id: only, pending: None });

    assert_eq!(app.overlay_focus, OverlayFocus::SessionsDialog);
    assert!(app.sessions_dialog.visible);
    assert!(app.sessions.is_empty());
    assert!(app.current.is_none());
    assert!(app.sessions_dialog.rows.is_empty());
}

#[test]
fn archiving_last_visible_current_session_focuses_previous_session() {
    let mut app = test_app();
    new_session(&mut app, "First");
    new_session(&mut app, "Second");
    app.open_sessions_dialog();
    let archived = app.sessions_dialog.rows.last().expect("row").id.clone();
    assert!(app.switch_to_session(&archived));
    app.overlay_focus = OverlayFocus::SessionsDialog;

    answer_list(&mut app, ctrl('a'), SessionsAnswer::Archive { id: archived.clone() });

    assert_eq!(app.overlay_focus, OverlayFocus::SessionsDialog);
    assert!(app.sessions_dialog.visible);
    assert!(app.current.is_none());
    assert!(session(&app, &archived).archived);
    assert_eq!(app.sessions_dialog.rows.len(), 1);
    assert_ne!(app.sessions_dialog.rows[0].id, archived);
}

#[test]
fn child_session_navigation_matches_opencode_flow() {
    let mut app = test_app();
    let parent = new_session(&mut app, "Parent");
    app.base_focus = BaseFocus::Chat;
    app.start_subagent_session(&subagent(&parent, "child-a", "explore"));
    app.start_subagent_session(&subagent(&parent, "child-b", "general"));

    assert_eq!(app.current.as_deref(), Some(parent.as_str()));
    assert!(app.switch_to_latest_child_session());
    assert_eq!(app.current.as_deref(), Some("child-b"));
    assert!(app.handle_base_keys(key(KeyCode::Right)));
    assert_eq!(app.current.as_deref(), Some("child-a"));
    assert!(app.handle_base_keys(key(KeyCode::Left)));
    assert_eq!(app.current.as_deref(), Some("child-b"));
    assert!(app.handle_base_keys(key(KeyCode::Up)));
    assert_eq!(app.current.as_deref(), Some(parent.as_str()));
}

#[test]
fn a_source_of_an_ended_turn_is_dropped() {
    let mut app = test_app();
    let running = new_session(&mut app, "Running");
    let ended = new_session(&mut app, "Ended");
    start_stream(&mut app, &running, 0);
    let (_s1, r1) = tokio::sync::mpsc::unbounded_channel();
    let (_s2, r2) = tokio::sync::mpsc::unbounded_channel();
    let all = vec![
        StreamSource { session_id: running.clone(), receiver: r1 },
        StreamSource { session_id: ended, receiver: r2 },
    ];

    let live = app.live_sources(all);

    assert_eq!(live.len(), 1);
    assert_eq!(live[0].session_id, running);
}

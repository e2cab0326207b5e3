#![allow(dead_code, unused_imports)]

use crabcode::agents::{AgentDefinition, AgentMode};
use crabcode::app::{
    App, TerminalNotificationCondition, TerminalNotificationMode, TerminalNotifications,
};
use crabcode::chunks::SubagentStart;
use crabcode::commands::{CommandFacts, InputType, ParsedCommand};
use crabcode::keys::{KeyCode, KeyNext, KeyPress, KeyScene, Submission};
use crabcode::layout::{Area, ChatHeights};
use crabcode::message::Message;
use crabcode::mouse::{ChatTouch, MouseEvent, MouseKind, MouseScene};
use crabcode::queue::{QueuedItem, QueuedUserMessage};
use crabcode::session::{Session, Workspace};
use crabcode::startup::Shell;
use crabcode::state::{ClientSessionState, Effect, StreamState};
use crabcode::ui::{DialogItem, Theme};
use crabcode::catalog::{ModelInfo, ModelPrefs, ModelRef};
use crabcode::focus::{BaseFocus, OverlayFocus};
use crabcode::paste::{PasteNext, PastedImages, MAX_PASTE_SIZE};
use crabcode::prompting::AgentMention;
use crabcode::reasoning::{ModelCapability, ReasoningEffort};
use crabcode::remote::{Suggestion, SuggestionKind};
use crabcode::screen::FrameScene;
use crabcode::startup::Configuration;
use crabcode::state::{Input, ToastLevel};
use crabcode::usage::{answer_timing, AnswerTimes, UsageFacts};
use crabcode::workspace::{ArchivedWorkspace, Folder};

fn agent(name: &str, mode: AgentMode) -> AgentDefinition {
    AgentDefinition {
        name: name.to_string(),
        description: format!("The {} agent", name),
        mode,
        hidden: false,
        model: None,
        reasoning_effort: None,
    }
}

fn notifications() -> TerminalNotifications {
    TerminalNotifications {
        condition: TerminalNotificationCondition::Always,
        complete: TerminalNotificationMode::Disabled,
        subagent_complete: TerminalNotificationMode::Disabled,
        permission: TerminalNotificationMode::Disabled,
        question: TerminalNotificationMode::Disabled,
        error: TerminalNotificationMode::Disabled,
        bell_supported: false,
        focused: true,
    }
}

fn shell() -> Shell {
    Shell {
        now: 1_000_000,
        cwd: ".".to_string(),
        workspace: Workspace {
            id: 1,
            path: "/tmp/workspace".to_string(),
            name: "workspace".to_string(),
            sort_order: 0,
        },
        next_session_id: "session-1".to_string(),
        themes: vec![Theme { id: "default".to_string(), dark: true }],
        theme_index: 0,
        dark_mode: true,
        transparent: false,
        title_enabled: false,
        notifications: notifications(),
    }
}

fn test_app() -> App {
    let mut app = App::new(shell());
    app.agents = vec![
        agent("build", AgentMode::Primary),
        agent("plan", AgentMode::Primary),
        agent("general", AgentMode::Subagent),
        agent("explore", AgentMode::Subagent),
    ];
    app.model = "test-model".to_string();
    app.provider_name = "test-provider".to_string();
    app.ui.startup_hydrated = true;
    app
}

fn new_session(app: &mut App, title: &str) -> String {
    app.next_session_id = format!("s{}", app.sessions.len() + 1);
    app.create_new_session(title)
}

fn client<'a>(app: &'a mut App, id: &str) -> &'a mut ClientSessionState {
    app.clients.iter_mut().find(|c| c.id == id).expect("client")
}

fn session<'a>(app: &'a App, id: &str) -> &'a Session {
    app.sessions.iter().find(|s| s.id == id).expect("session")
}

fn session_mut<'a>(app: &'a mut App, id: &str) -> &'a mut Session {
    app.sessions.iter_mut().find(|s| s.id == id).expect("session")
}

fn add_current_session_message(app: &mut App, message: Message) {
    let id = app.current.clone().expect("current session");
    app.chat.add_message(message.copy());
    session_mut(app, &id).messages.push(message);
}

fn start_stream(app: &mut App, id: &str, boundary: usize) {
    let now = app.now;
    client(app, id).stream = Some(StreamState::new(
        Some("test-model".to_string()),
        Some("test-provider".to_string()),
        boundary,
        now,
    ));
    app.is_streaming = true;
}

fn queue_text(app: &mut App, id: &str, text: &str) {
    client(app, id).queued_items.push(QueuedItem::Message(QueuedUserMessage {
        text: text.to_string(),
        image_paths: Vec::new(),
    }));
}

fn was_cancelled(app: &App, id: &str) -> bool {
    app.effects
        .iter()
        .any(|e| matches!(e, Effect::CancelStream { session_id } if session_id == id))
}

fn facts(canonical: &str, chat_only: bool) -> CommandFacts {
    CommandFacts {
        custom: false,
        canonical: Some(canonical.to_string()),
        chat_only,
        connected: None,
    }
}

fn command(name: &str) -> InputType {
    InputType::Command(ParsedCommand { name: name.to_string(), args: Vec::new() })
}

fn run_command(app: &mut App, name: &str, chat_only: bool) {
    let f = facts(name, chat_only);
    app.process_input(command(name), &f, true);
}

fn scene() -> KeyScene {
    KeyScene {
        chat_text: None,
        editable: false,
        facts: CommandFacts { custom: false, canonical: None, chat_only: false, connected: None },
    }
}

fn key(code: KeyCode) -> KeyPress {
    KeyPress { code, ctrl: false, shift: false, alt: false, command: false, release: false }
}

fn ctrl(c: char) -> KeyPress {
    KeyPress { ctrl: true, ..key(KeyCode::Char { c }) }
}

fn press(app: &mut App, code: KeyCode) -> KeyNext {
    app.handle_keys(key(code), &scene())
}

fn submit_text(app: &mut App, text: &str) {
    app.submit_prompt(
        Submission {
            input: Some(InputType::Message(text.to_string())),
            images: Vec::new(),
            allowed: true,
        },
        &scene(),
    );
}

fn subagent(parent: &str, id: &str, kind: &str) -> SubagentStart {
    SubagentStart {
        parent_session_id: parent.to_string(),
        session_id: id.to_string(),
        title: format!("A task (@{} subagent)", kind),
        subagent_type: kind.to_string(),
        model: Some("sub-model".to_string()),
        provider: Some("sub-provider".to_string()),
        description: "A task".to_string(),
        prompt: "Check implementation".to_string(),
    }
}

fn mouse(kind: MouseKind, column: u16, row: u16) -> MouseEvent {
    MouseEvent { kind, column, row, shift: false, command: false, other_modifier: false }
}

fn size() -> Area {
    Area::new(0, 0, 80, 24)
}

fn heights() -> ChatHeights {
    ChatHeights { input: 3, queue: 0, footer: 2 }
}

fn mouse_scene(app: &App, message: Option<usize>) -> MouseScene {
    MouseScene {
        chat_area: app.chat_area_for_size(size(), heights()),
        bar_area: None,
        chat_text: None,
        editable: false,
        sticky: None,
        message,
        target: None,
        inside_popup: false,
    }
}

fn touch(has_selection: bool, is_dragging: bool) -> ChatTouch {
    ChatTouch { taken: true, has_selection, is_dragging }
}

fn model_item(id: &str) -> DialogItem {
    DialogItem {
        id: id.to_string(),
        name: "Test Model".to_string(),
        group: "Test".to_string(),
        description: String::new(),
        tip: None,
        provider_id: "test-provider".to_string(),
        active: false,
    }
}

fn contents(messages: &Vec<Message>) -> Vec<String> {
    messages.iter().map(|m| m.content.clone()).collect()
}

fn value_of(content: &str) -> serde_json::Value {
    serde_json::from_str(content).expect("json")
}

fn images(count: usize) -> PastedImages {
    PastedImages { count, exact: false }
}

fn toasts(app: &App) -> Vec<(ToastLevel, String)> {
    app.effects
        .iter()
        .filter_map(|e| match e {
            Effect::Toast { level, text, .. } => Some((*level, text.clone())),
            _ => None,
        })
        .collect()
}

#[test]
fn quoted_paths_are_single_words() {
    let mut app = test_app();
    assert_eq!(app.handle_paste("'/tmp/my pic.png' /tmp/b.png", images(2)), PasteNext::Attach);
    assert_eq!(app.handle_paste("see /tmp/b.png", images(1)), PasteNext::Prompt);
    assert_eq!(app.handle_paste("/tmp/it's.png\n/tmp/b.png", images(2)), PasteNext::Attach);
    assert_eq!(app.handle_paste("/tmp/it's.png", images(2)), PasteNext::Prompt);
    assert_eq!(
        app.handle_paste("/tmp/my pic.png", PastedImages { count: 1, exact: true }),
        PasteNext::Attach
    );
    assert_eq!(app.handle_paste("plain text", images(0)), PasteNext::Prompt);
}

#[test]
fn attached_images_are_told() {
    let mut app = test_app();
    let input = || Input::with_text_and_images("[Image #1] ".to_string(), vec!["/a.png".to_string()]);
    app.finish_image_paste(input(), false, 1);
    app.finish_image_paste(input(), true, 2);
    assert_eq!(app.overlay_focus, OverlayFocus::SuggestionsPopup);
    assert_eq!(
        toasts(&app),
        vec![
            (ToastLevel::Info, "Attached image".to_string()),
            (ToastLevel::Info, "Attached 2 images".to_string()),
        ]
    );
}

#[test]
fn a_paste_that_is_too_large_is_refused() {
    let mut app = test_app();
    let text = "x".repeat(MAX_PASTE_SIZE + 1);
    assert_eq!(app.handle_paste(&text, images(0)), PasteNext::Done);
    assert_eq!(
        toasts(&app),
        vec![(
            ToastLevel::Warning,
            "Paste content too large (20MB). Maximum is 20MB.".to_string()
        )]
    );
    assert!(app.input.is_empty());
}

#[test]
fn a_paste_goes_to_the_dialog_that_takes_text() {
    let mut app = test_app();
    app.overlay_focus = OverlayFocus::ModelsDialog;
    assert_eq!(app.handle_paste("gpt", images(0)), PasteNext::Overlay);
    app.overlay_focus = OverlayFocus::PermissionDialog;
    assert_eq!(app.handle_paste("gpt", images(0)), PasteNext::Done);
    app.overlay_focus = OverlayFocus::Nothing;
    app.finish_paste(Input::with_text_and_images("gpt".to_string(), Vec::new()), true);
    assert_eq!(app.overlay_focus, OverlayFocus::Nothing);
    assert_eq!(app.input.text, "gpt");
}

#[test]
fn folders_are_seen_from_the_current_one() {
    let app = test_app();
    let home = Some("/home/me".to_string());
    let path = |raw: &str| app.workspace_path_from(raw, &home);
    assert_eq!(path("~"), Ok("/home/me".to_string()));
    assert_eq!(path("~/code"), Ok("/home/me/code".to_string()));
    assert_eq!(path(" src "), Ok("/tmp/workspace/src".to_string()));
    assert_eq!(path("/etc"), Ok("/etc".to_string()));
    assert_eq!(path("  "), Err("folder path cannot be empty".to_string()));
    assert_eq!(app.workspace_path_from("~", &None), Ok("/tmp/workspace/~".to_string()));
}

#[test]
fn a_path_in_the_home_folder_ends_as_it_was_given() {
    let app = test_app();
    let path = app.resolve_remote_workspace_path("~/code").expect("path");
    assert!(path.ends_with("/code"));
    assert!(path.starts_with('/'));
    assert_eq!(app.resolve_remote_workspace_path("/etc"), Ok("/etc".to_string()));
    assert!(app.resolve_remote_workspace_path("").is_err());
}

#[test]
fn the_workspace_has_a_name() {
    let mut app = test_app();
    assert_eq!(app.remote_workspace_path(), "/tmp/workspace");
    assert_eq!(app.remote_workspace_name(), "workspace");
    app.workspace.name = " ".to_string();
    app.workspace.path = "/tmp/other/".to_string();
    assert_eq!(app.remote_workspace_name(), "other");
    app.workspace.path = "/".to_string();
    assert_eq!(app.remote_workspace_name(), "Workspace");
}

fn folder(path: &str) -> Folder {
    Folder {
        path: path.to_string(),
        workspace: Ok(Workspace {
            id: 7,
            path: path.to_string(),
            name: "seven".to_string(),
            sort_order: 3,
        }),
    }
}

#[test]
fn a_blank_session_can_start_in_another_folder() {
    let mut app = test_app();
    new_session(&mut app, "Existing");
    assert_eq!(app.remote_start_blank_session(Some(Ok(folder("/tmp/seven")))), Ok(()));
    assert!(app.current.is_none());
    assert_eq!(app.ui.cwd, "/tmp/seven");
    assert_eq!(app.workspace.id, 7);

    assert_eq!(app.remote_select_workspace(Err("gone".to_string())), Err("gone".to_string()));
    assert_eq!(app.ui.cwd, "/tmp/seven");
    let refused = Folder { path: "/tmp/eight".to_string(), workspace: Err("store".to_string()) };
    assert_eq!(app.remote_select_workspace(Ok(refused)), Err("store".to_string()));
    assert_eq!(app.ui.cwd, "/tmp/eight");
    assert_eq!(app.workspace.id, 7);
    assert_eq!(
        crabcode::workspace::requested_folder(&Some("  a ".to_string())),
        Some("a".to_string())
    );
    assert_eq!(crabcode::workspace::requested_folder(&Some(" ".to_string())), None);
}

#[test]
fn archiving_the_active_workspace_leaves_it() {
    let mut app = test_app();
    let id = new_session(&mut app, "Existing");
    app.base_focus = BaseFocus::Chat;
    let done = |path: &str| ArchivedWorkspace {
        stored: Ok(Workspace {
            id: 7,
            path: path.to_string(),
            name: "seven".to_string(),
            sort_order: 3,
        }),
        fallback: Some(folder(path)),
    };
    assert_eq!(
        app.remote_archive_workspace("  ", done("/tmp/seven")),
        Err("workspace path cannot be empty".to_string())
    );
    assert_eq!(app.current.as_deref(), Some(id.as_str()));
    assert_eq!(app.remote_archive_workspace("/tmp/workspace", done("/tmp/seven")), Ok(()));
    assert!(app.current.is_none());
    assert_eq!(app.base_focus, BaseFocus::Home);
    assert_eq!(app.ui.cwd, "/tmp/seven");
}

#[test]
fn archiving_the_current_session_leaves_it() {
    let mut app = test_app();
    let id = new_session(&mut app, "Existing");
    assert_eq!(app.remote_archive_session(&id, Err("no".to_string())), Err("no".to_string()));
    assert!(!session(&app, &id).archived);
    assert_eq!(app.remote_archive_session(&id, Ok(())), Ok(()));
    assert!(session(&app, &id).archived);
    assert!(app.current.is_none());
}

#[test]
fn switching_enters_the_folder_of_the_session() {
    let mut app = test_app();
    let first = new_session(&mut app, "First");
    new_session(&mut app, "Second");
    assert_eq!(app.session_folder(&first), Some("/tmp/workspace".to_string()));
    assert!(!app.remote_switch_session("nowhere", None));
    assert!(app.remote_switch_session(&first, Some(folder("/tmp/seven"))));
    assert_eq!(app.current.as_deref(), Some(first.as_str()));
    assert_eq!(app.ui.cwd, "/tmp/seven");
}

fn message(text: &str) -> InputType {
    InputType::Message(text.to_string())
}

#[test]
fn remote_input_is_refused_for_a_reason() {
    let mut app = test_app();
    let f = facts("compact", true);
    let none = || CommandFacts { custom: false, canonical: None, chat_only: false, connected: None };
    assert_eq!(
        app.remote_submit_input("  ".to_string(), message(""), &f, true),
        Err("prompt cannot be empty".to_string())
    );
    assert_eq!(
        app.remote_submit_input("/x".to_string(), command("x"), &none(), true),
        Err("Unknown command: x".to_string())
    );
    assert_eq!(
        app.remote_submit_input("/themes".to_string(), command("themes"), &facts("themes", false), true),
        Err("Command /themes is not available in the browser UI".to_string())
    );
    assert_eq!(
        app.remote_submit_input("/compact".to_string(), command("compact"), &f, true),
        Err("Command /compact requires an active chat".to_string())
    );
    assert_eq!(
        app.remote_submit_input_with_images(
            "/compact".to_string(),
            vec!["/a.png".to_string()],
            command("compact"),
            &f,
            true
        ),
        Err("Images can only be attached to chat prompts".to_string())
    );
    assert!(app.sessions.is_empty());
    assert!(app.effects.is_empty());
}

#[test]
fn a_remote_message_starts_a_turn_and_the_next_one_waits() {
    let mut app = test_app();
    let f = facts("", false);
    app.next_session_id = "new".to_string();
    assert_eq!(
        app.remote_submit_input("Hello".to_string(), message("Hello"), &f, true),
        Ok("new".to_string())
    );
    assert!(app.session_has_active_stream("new"));
    assert!(app.is_streaming);
    assert_eq!(
        app.remote_submit_input("And then".to_string(), message("And then"), &f, true),
        Ok("new".to_string())
    );
    assert_eq!(app.remote_queued_message_previews(), vec!["And then".to_string()]);
    let mention = || {
        InputType::AgentMention(AgentMention {
            agent: "general".to_string(),
            prompt: "look".to_string(),
            raw: "@general look".to_string(),
        })
    };
    assert_eq!(
        app.remote_submit_input("@general look".to_string(), mention(), &f, true),
        Err("Cannot start @general while streaming".to_string())
    );
    assert!(app.remote_cancel_current());
    assert!(was_cancelled(&app, "new"));
}

#[test]
fn a_mention_without_a_task_is_told_how() {
    let mut app = test_app();
    let f = facts("", false);
    let mention = InputType::AgentMention(AgentMention {
        agent: "general".to_string(),
        prompt: " ".to_string(),
        raw: "@general".to_string(),
    });
    assert_eq!(
        app.remote_submit_input("@general".to_string(), mention, &f, true),
        Err("Usage: @general <task>".to_string())
    );
}

fn suggestion(name: &str) -> Suggestion {
    Suggestion {
        kind: SuggestionKind::Command,
        name: name.to_string(),
        description: String::new(),
    }
}

#[test]
fn browsers_are_suggested_what_they_can_do() {
    let app = test_app();
    let names = |trigger: &str, query: &str| -> Vec<String> {
        app.remote_autocomplete_suggestions(
            trigger,
            query,
            vec![suggestion("themes"), suggestion("compact")],
            vec![suggestion("src/lib.rs")],
        )
        .into_iter()
        .map(|s| s.name)
        .collect()
    };
    assert_eq!(names("slash", ""), vec!["compact"]);
    assert_eq!(names("mention", "GEN"), vec!["general", "src/lib.rs"]);
    assert!(names("other", "").is_empty());
}

#[test]
fn efforts_are_set_by_name() {
    let mut app = test_app();
    assert_eq!(app.remote_set_reasoning_effort(Some("high".to_string()), Ok(())), Ok(false));
    assert!(app.remote_reasoning_effort_options().is_empty());
    app.reasoning.capabilities.push(ModelCapability {
        provider: "test-provider".to_string(),
        model: "test-model".to_string(),
        values: vec![ReasoningEffort::Low, ReasoningEffort::High],
    });
    assert_eq!(
        app.remote_reasoning_effort_options(),
        vec!["off".to_string(), "low".to_string(), "high".to_string()]
    );
    assert_eq!(app.remote_reasoning_effort_label(), None);
    assert_eq!(app.remote_set_reasoning_effort(Some(" high ".to_string()), Ok(())), Ok(true));
    assert_eq!(app.remote_reasoning_effort_label(), Some("high".to_string()));
    assert_eq!(app.remote_set_reasoning_effort(Some("medium".to_string()), Ok(())), Ok(false));
    assert_eq!(
        app.remote_set_reasoning_effort(Some("huge".to_string()), Ok(())),
        Err("unknown reasoning effort: huge".to_string())
    );
    assert_eq!(app.remote_reasoning_effort_label(), Some("high".to_string()));
    assert_eq!(app.remote_set_reasoning_effort(Some("OFF".to_string()), Ok(())), Ok(true));
    assert_eq!(app.remote_reasoning_effort_label(), None);
}

#[test]
fn an_effort_that_cannot_be_saved_is_not_set() {
    let mut app = test_app();
    app.reasoning.capabilities.push(ModelCapability {
        provider: "test-provider".to_string(),
        model: "test-model".to_string(),
        values: vec![ReasoningEffort::Low, ReasoningEffort::High],
    });
    let low = Some("low".to_string());
    assert_eq!(app.remote_effort_to_save(&low), Some(Some(ReasoningEffort::Low)));
    assert_eq!(app.remote_effort_to_save(&None), Some(None));
    assert_eq!(app.remote_effort_to_save(&Some("huge".to_string())), None);
    assert_eq!(app.remote_effort_to_save(&Some("medium".to_string())), None);
    assert_eq!(
        app.remote_set_reasoning_effort(low.clone(), Err("disk full".to_string())),
        Err("disk full".to_string())
    );
    assert_eq!(app.remote_reasoning_effort_label(), None);
    assert_eq!(app.remote_set_reasoning_effort(low, Ok(())), Ok(true));
    assert_eq!(app.remote_reasoning_effort_label(), Some("low".to_string()));
    assert_eq!(
        app.remote_set_reasoning_effort(None, Err("disk full".to_string())),
        Err("disk full".to_string())
    );
    assert_eq!(app.remote_reasoning_effort_label(), Some("low".to_string()));
}

fn info(provider: &str, id: &str) -> ModelInfo {
    ModelInfo {
        provider_id: provider.to_string(),
        provider_name: provider.to_string(),
        id: id.to_string(),
        name: id.to_string(),
        description: String::new(),
        selectable: true,
        efforts: Vec::new(),
    }
}

#[test]
fn only_listed_models_can_be_set() {
    let mut app = test_app();
    let models = vec![info("openai", "gpt-5"), info("xai", "grok")];
    let prefs = ModelPrefs {
        favorites: vec![ModelRef { provider_id: "xai".to_string(), model_id: "grok".to_string() }],
        recents: Vec::new(),
    };
    let items = app.remote_model_items(&models, &prefs);
    assert_eq!(items[0].id, "grok");
    assert!(items.iter().any(|i| i.id == "gpt-5"));
    assert!(!app.remote_set_model("openai", "gpt-6", &models, &prefs));
    assert_eq!(app.model, "test-model");
    assert!(app.remote_set_model("openai", "gpt-5", &models, &prefs));
    assert_eq!(app.model, "gpt-5");
    assert_eq!(app.provider_name, "openai");
}

#[test]
fn a_client_that_quits_does_not_end_the_application() {
    let mut app = test_app();
    app.running = false;
    app.overlay_focus = OverlayFocus::ModelsDialog;
    app.input.insert_str("draft");
    app.remote_recover_after_client_quit();
    assert!(app.running);
    assert_eq!(app.overlay_focus, OverlayFocus::Nothing);
    assert!(app.input.is_empty());

    new_session(&mut app, "Existing");
    app.input.insert_str("draft");
    app.running = false;
    app.remote_recover_after_client_quit();
    assert!(app.running);
    assert_eq!(app.input.text, "draft");
}

#[test]
fn the_leading_agent_can_be_set_remotely() {
    let mut app = test_app();
    app.remote_toggle_agent_mode();
    assert_eq!(app.agent, "Plan");
    assert!(!app.remote_set_agent_mode("nobody"));
    assert!(app.remote_set_agent_mode("BUILD"));
    assert_eq!(app.agent, "Build");
}

fn configuration() -> Configuration {
    Configuration {
        agents: vec![agent("build", AgentMode::Primary), agent("plan", AgentMode::Primary)],
        default_agent: None,
        model: Some("openai/gpt-5".to_string()),
        small_model: None,
        compact_mode: None,
        notifications: notifications(),
        has_preferences: true,
        saved_model: None,
        saved_overrides: Vec::new(),
        saved_compact_mode: Some(false),
        saved_title_items: None,
    }
}

#[test]
fn the_configuration_is_taken_in_once() {
    let mut app = App::new(shell());
    assert_eq!(app.model, "big-pickle");
    assert_eq!(app.provider_name, "opencode");
    assert_eq!(app.agent, "Build");

    assert_eq!(app.ensure_startup_hydrated(configuration()), Ok(()));
    assert_eq!(app.model, "gpt-5");
    assert_eq!(app.provider_name, "openai");
    assert!(!app.ui.compact_mode);
    assert!(app.effects.iter().any(|e| matches!(
        e,
        Effect::SaveModel { provider, model } if provider == "openai" && model == "gpt-5"
    )));

    let mut other = configuration();
    other.model = Some("xai/grok".to_string());
    assert_eq!(app.ensure_startup_hydrated(other), Ok(()));
    assert_eq!(app.model, "gpt-5");
}

#[test]
fn what_was_asked_for_on_the_command_line_wins() {
    let mut app = App::new_with_model_override(
        shell(),
        Some("xai/grok".to_string()),
        Some(" plan ".to_string()),
    );
    assert_eq!(app.agent, "Plan");
    assert_eq!(app.ensure_startup_hydrated(configuration()), Ok(()));
    assert_eq!((app.provider_name.as_str(), app.model.as_str()), ("xai", "grok"));
    assert_eq!(app.agent, "Plan");
    assert!(app.effects.is_empty());

    let mut app = App::new_with_model_override(shell(), None, Some("nobody".to_string()));
    assert_eq!(
        app.ensure_startup_hydrated(configuration()),
        Err("Unknown agent 'nobody'. Available: build, plan".to_string())
    );
    assert!(!app.ui.startup_hydrated);
}

fn frame(overlay: bool) -> FrameScene {
    streamed(overlay, 0)
}

fn streamed(overlay: bool, tokens: usize) -> FrameScene {
    FrameScene {
        size: size(),
        heights: heights(),
        streamed_tokens: tokens,
        overlay,
        padding: 5,
    }
}

#[test]
fn usage_is_counted_again_where_it_may_have_changed() {
    let mut app = test_app();
    new_session(&mut app, "Usage");
    app.base_focus = BaseFocus::Chat;
    app.usage_stale = false;
    app.render(&frame(false), &None);
    assert!(!app.render(&frame(false), &None).count_usage);

    app.chat.add_message(Message::user("hello"));
    assert!(app.render(&frame(false), &None).count_usage);
    assert!(!app.render(&frame(false), &None).count_usage);

    assert!(!app.render(&streamed(false, 900), &None).count_usage);
    app.is_streaming = true;
    assert!(!app.render(&streamed(false, 255), &None).count_usage);
    assert!(app.render(&streamed(false, 256), &None).count_usage);
    assert!(!app.render(&streamed(false, 511), &None).count_usage);
    assert!(app.render(&streamed(false, 512), &None).count_usage);
    app.is_streaming = false;
    assert!(app.render(&streamed(false, 512), &None).count_usage);
    assert!(!app.render(&streamed(false, 512), &None).count_usage);

    app.chat.add_message(Message::incomplete(""));
    app.render(&frame(false), &None);
    app.chat.append_to_last_assistant("more");
    assert!(!app.render(&frame(false), &None).count_usage);
    app.chat.clear();
    assert!(app.render(&frame(false), &None).count_usage);
}

#[test]
fn the_transcript_stands_above_the_prompt() {
    let mut app = test_app();
    app.base_focus = BaseFocus::Chat;
    assert_eq!(app.chat_area_for_size(size(), heights()), Area::new(0, 0, 80, 18));
    assert_eq!(app.suggestions_popup_anchor_area(size(), heights()), Area::new(0, 21, 80, 3));
    let queued = ChatHeights { input: 3, queue: 2, footer: 2 };
    assert_eq!(app.chat_area_for_size(Area::new(4, 2, 60, 20), queued), Area::new(4, 2, 60, 12));
    assert_eq!(app.dialog_below_chat_height(queued), 8);
}

#[test]
fn a_frame_draws_the_focused_overlay() {
    let mut app = test_app();
    app.usage_stale = true;
    app.suggestions = true;
    let plan = app.render(&frame(true), &None);
    assert!(plan.chat.is_none());
    assert!(plan.overlay.is_none());
    assert!(plan.count_usage);
    assert_eq!(plan.popup.map(|p| p.anchor), Some(Area::new(0, 21, 80, 3)));
    assert_eq!(plan.status.model, "test-model");
    app.suggestions = false;
    let plan = app.render(&frame(true), &None);
    assert!(!plan.count_usage);
    assert!(plan.popup.is_none());
    app.suggestions = true;

    app.overlay_focus = OverlayFocus::ModelsDialog;
    let plan = app.render(&frame(true), &None);
    assert_eq!(plan.overlay, Some(OverlayFocus::ModelsDialog));
    assert!(plan.popup.is_none());
    assert!(app.render(&frame(false), &None).overlay.is_none());

    new_session(&mut app, "Chat");
    app.base_focus = BaseFocus::Chat;
    app.permissions.push(1);
    app.overlay_focus = OverlayFocus::PermissionDialog;
    let plan = app.render(&frame(false), &None);
    assert_eq!(plan.overlay, Some(OverlayFocus::PermissionDialog));
    assert_eq!(plan.padding, 5);
    let chat = plan.chat.expect("chat");
    assert_eq!(chat.title.as_deref(), Some("Chat"));
    assert!(!chat.prompt_focused);
    assert_eq!(chat.padding, 5);
}

#[test]
fn session_usage_text_includes_compaction_stats() {
    let app = test_app();
    let f = UsageFacts {
        tokens: Some("360".to_string()),
        percent: None,
        price: None,
        compacting: String::new(),
        last_compact: Some("saved 97%".to_string()),
    };
    assert_eq!(app.session_usage_text(&f), "360 \u{00b7} last compact saved 97%");
}

#[test]
fn the_line_of_usage_tells_the_price() {
    let app = test_app();
    let f = UsageFacts {
        tokens: Some("12K".to_string()),
        percent: Some(6),
        price: Some("0.12".to_string()),
        compacting: String::new(),
        last_compact: None,
    };
    assert_eq!(app.session_usage_text(&f), "12K (6%) \u{00b7} $0.12");
}

#[test]
fn streaming_usage_base_caches_completed_messages_and_tracks_appends() {
    let mut app = test_app();
    app.chat.add_message(Message::user("hello there"));
    app.chat.add_message(Message::assistant("finished answer"));
    app.chat.add_message(Message::incomplete("streaming..."));
    let mut base = None;

    let counts = vec![3, 100, 7];
    assert!(app.needs_counts(&base));
    assert_eq!(app.streaming_context_tokens_cached(&mut base, &counts, 5), 108);
    assert!(!app.needs_counts(&base));
    assert_eq!(app.streaming_context_tokens_cached(&mut base, &Vec::new(), 5), 108);
    let cached = base.as_ref().expect("base cached").base_tokens;
    assert_eq!(cached, 103);

    app.chat.messages.insert(2, Message::assistant("more context"));
    let counts = vec![3, 100, 40, 7];
    assert!(app.needs_counts(&base));
    assert_eq!(app.streaming_context_tokens_cached(&mut base, &counts, 5), 148);
    assert_ne!(base.as_ref().expect("base cached").base_tokens, cached);
}

#[test]
fn an_answer_is_timed() {
    let none = AnswerTimes {
        asked: None,
        began: None,
        ended: None,
        duration: None,
        output_tokens: None,
        token_count: None,
    };
    assert!(answer_timing(none).is_none());
    let timed = AnswerTimes {
        asked: Some(1_000),
        began: Some(1_500),
        ended: Some(4_000),
        output_tokens: Some(51),
        ..none
    };
    let t = answer_timing(timed).expect("timing");
    assert_eq!((t.total, t.tokens, t.writing), (3_000, 51, 2_500));
    assert!(t.has_speed());
    let counted = AnswerTimes { token_count: Some(1), duration: Some(700), ..none };
    let t = answer_timing(counted).expect("timing");
    assert_eq!((t.total, t.tokens, t.writing), (700, 1, 700));
    assert!(!t.has_speed());
}

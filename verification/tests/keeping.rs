#![allow(dead_code, unused_imports)]

use crabcode::answers::connect_method_items;
use crabcode::agents::{agent_after, AgentDefinition, AgentMode};
use crabcode::app::{
    App, TerminalNotificationCondition, TerminalNotificationMode, TerminalNotifications,
};
use crabcode::catalog::{
    mcp_items, model_items, models_dialog_provider_ids, models_to_look_up, skill_items, Lookup,
    McpServer, ModelInfo, ModelPrefs, ModelRef, ProviderFacts, Skill,
};
use crabcode::chunks::{ChunkMessage, SubagentStart, ToolCall};
use crabcode::commands::{CommandFacts, CommandResult};
use crabcode::compaction::{judge_compaction, Compacted, Verdict};
use crabcode::focus::{BaseFocus, OverlayFocus};
use crabcode::history::session_transcript;
use crabcode::json::{JsonDoc, JsonField};
use crabcode::message::{
    is_running_tool_message, request_messages, CompactionStats, Message, MessageRole,
};
use crabcode::outcomes::{
    mention_description, mention_outcome, turn_outcome, TargetKind, TurnResult,
};
use crabcode::palette::{Palette, Shade};
use crabcode::queue::{split_queue, QueuedItem, QueuedUserMessage};
use crabcode::reasoning::{ModelCapability, ReasoningEffort};
use crabcode::session::{Session, SessionStatus, Workspace};
use crabcode::keys::{KeyCode, KeyPress, KeyScene};
use crabcode::session_list::{
    build_sessions_dialog_list, session_row_name, streaming_row_ids, workspace_of_group,
    SessionsDialogFilter,
};
use crabcode::sorting::sort;
use crabcode::startup::Shell;
use crabcode::state::{ClientSessionState, Effect, Input, SoundEvent, StreamState, ToastLevel};
use crabcode::tasks::{Disconnection, LocalConnection};
use crabcode::titles::fork_title_from_session_title;
use crabcode::ui::{OAuthProvider, Theme};
use crabcode::workspace::{check_folder, entering_failed, Found};

fn agent(name: &str, mode: AgentMode) -> AgentDefinition {
    AgentDefinition {
        name: name.to_string(),
        description: format!("The {} agent", name),
        mode,
        hidden: false,
        model: None,
        reasoning_effort: None,
    }
}

fn notifications() -> TerminalNotifications {
    TerminalNotifications {
        condition: TerminalNotificationCondition::Always,
        complete: TerminalNotificationMode::Disabled,
        subagent_complete: TerminalNotificationMode::Disabled,
        permission: TerminalNotificationMode::Disabled,
        question: TerminalNotificationMode::Disabled,
        error: TerminalNotificationMode::Disabled,
        bell_supported: false,
        focused: true,
    }
}

fn shell() -> Shell {
    Shell {
        now: 1_000_000,
        cwd: ".".to_string(),
        workspace: Workspace {
            id: 1,
            path: "/tmp/workspace".to_string(),
            name: "workspace".to_string(),
            sort_order: 0,
        },
        next_session_id: "session-1".to_string(),
        themes: vec![Theme { id: "default".to_string(), dark: true }],
        theme_index: 0,
        dark_mode: true,
        transparent: false,
        title_enabled: false,
        notifications: notifications(),
    }
}

fn test_app() -> App {
    let mut app = App::new(shell());
    app.agents = vec![
        agent("build", AgentMode::Primary),
        agent("plan", AgentMode::Primary),
        agent("general", AgentMode::Subagent),
        agent("explore", AgentMode::Subagent),
    ];
    app.model = "test-model".to_string();
    app.provider_name = "test-provider".to_string();
    app.ui.startup_hydrated = true;
    app
}

fn new_session(app: &mut App, title: &str) -> String {
    app.next_session_id = format!("s{}", app.sessions.len() + 1);
    app.create_new_session(title)
}

fn client<'a>(app: &'a mut App, id: &str) -> &'a mut ClientSessionState {
    app.clients.iter_mut().find(|c| c.id == id).expect("client")
}

fn session<'a>(app: &'a App, id: &str) -> &'a Session {
    app.sessions.iter().find(|s| s.id == id).expect("session")
}

fn start_stream(app: &mut App, id: &str, boundary: usize) {
    let now = app.now;
    client(app, id).stream = Some(StreamState::new(
        Some("test-model".to_string()),
        Some("test-provider".to_string()),
        boundary,
        now,
    ));
    app.is_streaming = true;
}

fn queue_text(app: &mut App, id: &str, text: &str) {
    client(app, id).queued_items.push(QueuedItem::Message(QueuedUserMessage {
        text: text.to_string(),
        image_paths: Vec::new(),
    }));
}

fn subagent(parent: &str, id: &str, kind: &str) -> SubagentStart {
    SubagentStart {
        parent_session_id: parent.to_string(),
        session_id: id.to_string(),
        title: format!("A task (@{} subagent)", kind),
        subagent_type: kind.to_string(),
        model: Some("sub-model".to_string()),
        provider: Some("sub-provider".to_string()),
        description: "A task".to_string(),
        prompt: "Check implementation".to_string(),
    }
}

fn contents(messages: &Vec<Message>) -> Vec<String> {
    messages.iter().map(|m| m.content.clone()).collect()
}

fn value_of(content: &str) -> serde_json::Value {
    serde_json::from_str(content).expect("json")
}

fn model(provider: &str, id: &str, name: &str, selectable: bool) -> ModelInfo {
    ModelInfo {
        provider_id: provider.to_string(),
        provider_name: provider.to_uppercase(),
        id: id.to_string(),
        name: name.to_string(),
        description: String::new(),
        selectable,
        efforts: Vec::new(),
    }
}

fn reference(provider: &str, id: &str) -> ModelRef {
    ModelRef { provider_id: provider.to_string(), model_id: id.to_string() }
}

fn compacted(before: usize, after: usize) -> Compacted {
    Compacted {
        messages: vec![Message::user("summary")],
        marker: Some(0),
        stats: CompactionStats {
            before_tokens: before,
            after_tokens: after,
            before_messages: 9,
            after_messages: 1,
        },
        stats_text: format!("{} to {}", before, after),
    }
}

#[test]
fn sessions_come_back_as_they_were_left() {
    let mut app = test_app();
    let first = new_session(&mut app, "First");
    app.chat.add_message(Message::user("hello"));
    let second = new_session(&mut app, "Second");
    app.chat.add_message(Message::user("something else"));

    assert!(app.switch_to_session(&first));
    app.input.set_text("half a thought".to_string());
    assert_eq!(contents(&app.chat.messages), vec!["hello"]);

    assert!(app.switch_to_session(&second));
    assert_eq!(contents(&app.chat.messages), vec!["something else"]);
    assert_eq!(app.input.text, "");

    assert!(app.switch_to_session(&first));
    assert_eq!(app.current.as_deref(), Some(first.as_str()));
    assert_eq!(contents(&app.chat.messages), vec!["hello"]);
    assert_eq!(app.input.text, "half a thought");
}

#[test]
fn one_compact_waits_however_often_it_is_asked_for() {
    let mut app = test_app();
    let id = new_session(&mut app, "Long");
    start_stream(&mut app, &id, 0);

    app.start_compact_session(&id);
    queue_text(&mut app, &id, "and then");
    app.start_compact_session(&id);

    let queued = &client(&mut app, &id).queued_items;
    assert_eq!(queued.len(), 2);
    assert!(matches!(queued[0], QueuedItem::Compact));
    assert!(matches!(queued[1], QueuedItem::Message(_)));
}

#[test]
fn waiting_messages_go_out_as_one_prompt() {
    let mut app = test_app();
    let id = new_session(&mut app, "Talk");
    queue_text(&mut app, &id, "one");
    queue_text(&mut app, &id, "two");
    client(&mut app, &id).queued_items.push(QueuedItem::Compact);
    queue_text(&mut app, &id, "three");

    assert!(app.submit_queued_messages_for_session(&id));

    assert_eq!(contents(&app.chat.messages), vec!["one\ntwo", ""]);
    assert!(app.session_has_active_stream(&id));
    assert!(matches!(
        app.effects.last(),
        Some(Effect::StartStream { session_id, guidance: None, .. }) if *session_id == id
    ));
    let left = &client(&mut app, &id).queued_items;
    assert_eq!(left.len(), 2);
    assert!(matches!(left[0], QueuedItem::Compact));
    assert!(matches!(left[1], QueuedItem::Message(_)));
}

#[test]
fn a_split_queue_keeps_everything() {
    let message = |text: &str| QueuedItem::Message(QueuedUserMessage {
        text: text.to_string(),
        image_paths: Vec::new(),
    });
    let split = split_queue(vec![message("a"), QueuedItem::Compact, message("b"), QueuedItem::Compact]);
    assert_eq!(split.messages.len(), 1);
    assert_eq!(split.messages[0].text, "a");
    assert!(split.compact);
    assert_eq!(split.rest.len(), 2);
    assert!(matches!(split.rest[1], QueuedItem::Compact));
}

#[test]
fn new_sessions_are_empty_and_on_the_screen() {
    let mut app = test_app();
    let first = new_session(&mut app, "First");
    app.chat.add_message(Message::user("hello"));
    app.input.set_text("draft".to_string());

    let second = new_session(&mut app, "Second");

    assert_ne!(first, second);
    assert_eq!(app.current.as_deref(), Some(second.as_str()));
    assert!(app.chat.messages.is_empty());
    assert_eq!(app.input.text, "");
    assert_eq!(app.base_focus, BaseFocus::Home);
    assert_eq!(app.sessions.len(), 2);
    assert_eq!(session(&app, &second).title, "Second");
    assert!(session(&app, &second).messages.is_empty());
    assert_eq!(contents(&client(&mut app, &first).chat.messages), vec!["hello"]);
}

#[test]
fn deleted_sessions_are_gone_and_the_others_stay() {
    let mut app = test_app();
    let first = new_session(&mut app, "First");
    let second = new_session(&mut app, "Second");
    let third = new_session(&mut app, "Third");
    app.sessions[1].messages.push(Message::user("kept"));

    app.delete_session(&third, Some(first.clone()));

    assert_eq!(app.current, None);
    assert_eq!(app.sessions.len(), 1);
    assert_eq!(app.sessions[0].id, second);
    assert_eq!(contents(&app.sessions[0].messages), vec!["kept"]);
    assert!(app.clients.iter().all(|c| c.id != first && c.id != third));
}

#[test]
fn cancelling_stops_everything_below() {
    let mut app = test_app();
    let parent = new_session(&mut app, "Parent");
    start_stream(&mut app, &parent, 0);
    app.start_subagent_session(&subagent(&parent, "child", "general"));
    app.start_subagent_session(&subagent("child", "grandchild", "explore"));
    let other = new_session(&mut app, "Other");
    start_stream(&mut app, &other, 0);
    assert!(app.session_has_active_stream("grandchild"));

    app.cancelled_streaming_session(&parent);

    assert!(!app.session_has_active_stream(&parent));
    assert!(!app.session_has_active_stream("child"));
    assert!(!app.session_has_active_stream("grandchild"));
    assert!(app.session_has_active_stream(&other));
}

#[test]
fn settled_turns_are_saved() {
    let mut app = test_app();
    let id = new_session(&mut app, "Talk");
    app.chat.add_message(Message::user("ask"));
    app.chat.add_message(Message::incomplete("answer"));
    start_stream(&mut app, &id, 1);
    assert!(session(&app, &id).messages.is_empty());

    assert!(app.finalize_and_persist_streamed_messages(&id, None));

    assert_eq!(contents(&session(&app, &id).messages), vec!["ask", "answer"]);
    assert!(session(&app, &id).messages[1].is_complete);
    assert_eq!(session(&app, &id).messages[1].model.as_deref(), Some("test-model"));
    assert!(app.chat.messages[1].is_complete);
}

#[test]
fn no_tool_runs_after_an_error() {
    let mut app = test_app();
    let id = new_session(&mut app, "Talk");
    let mut answer = Message::incomplete("working");
    answer.add_tool_call_part("call-1", "read", JsonField::Raw("{\"path\":[1,2.5]}".to_string()));
    app.chat.add_message(answer);
    app.chat.add_message(Message::tool("{\"id\":\"call-2\",\"status\":\"running\",\"args\":{\"n\":[1,{}]}}"));
    start_stream(&mut app, &id, 0);
    assert!(app.session_has_running_tool_messages(&id));

    assert!(app.finalize_and_persist_streamed_messages(&id, Some("lost it")));

    assert!(!app.session_has_running_tool_messages(&id));
    let result = app.chat.messages[0].tool_result_part_data("call-1").expect("result");
    assert_eq!(result.get_str("status").as_deref(), Some("error"));
    assert_eq!(result.get_str("output_preview").as_deref(), Some("lost it"));
    let told = value_of(&app.chat.messages[1].content);
    assert_eq!(told["id"], "call-2");
    assert_eq!(told["status"], "error");
    assert_eq!(told["title"], "Tool failed");
    assert_eq!(told["args"]["n"][0], 1);
}

#[test]
fn a_report_that_is_no_object_stays_as_it_is() {
    for content in ["[1,2]", "\"text\"", "17", "not json"] {
        let mut message = Message::tool(content);
        message.fail_running_tools("gone");
        assert_eq!(message.content, content);
        assert!(is_running_tool_message(&message));
    }
    let mut message = Message::tool("null");
    message.fail_running_tools("gone");
    assert_eq!(value_of(&message.content)["status"], "error");
    assert!(!is_running_tool_message(&message));
}

#[test]
fn what_is_set_in_a_document_is_read() {
    let doc = JsonDoc::Null.with_str("a", "1").with_str("b", "2").with_str("a", "3");
    assert_eq!(doc.get_str("a").as_deref(), Some("3"));
    assert_eq!(doc.get_str("b").as_deref(), Some("2"));
    assert_eq!(doc.get_str("c"), None);
}

#[test]
fn a_transcript_quotes_and_indents_arguments() {
    let messages = vec![
        Message::tool("{\"name\":\"read\",\"args\":\"a \\\"b\\\"\",\"output_preview\":\"out\"}"),
        Message::tool("{\"name\":\"list\",\"args\":{\"path\":\".\"}}"),
    ];
    let text = session_transcript("Title", &messages, &Vec::new());
    assert_eq!(
        text,
        "# Title\n\n**Tool Result**\n\n**Tool:** read\n**Arguments:**\n```json\n\"a \\\"b\\\"\"\n```\n\
         **Output:**\n```\nout\n```\n\n---\n\n**Tool Result**\n\n**Tool:** list\n**Arguments:**\n\
         ```json\n{\n  \"path\": \".\"\n}\n```\n\n---\n\n"
    );
}

#[test]
fn output_reaches_only_its_own_session() {
    let mut app = test_app();
    let first = new_session(&mut app, "First");
    app.chat.add_message(Message::incomplete(""));
    start_stream(&mut app, &first, 0);
    let second = new_session(&mut app, "Second");
    app.chat.add_message(Message::user("mine"));

    app.process_streaming_chunk_for_session(&first, ChunkMessage::Text("theirs".to_string()));
    app.process_streaming_chunk_for_session(
        &first,
        ChunkMessage::ToolCalls(vec![ToolCall {
            id: "call-1".to_string(),
            name: "read".to_string(),
            arguments: "{}".to_string(),
        }]),
    );
    app.process_streaming_chunk_for_session(&first, ChunkMessage::Failed("boom".to_string()));

    assert_eq!(app.current.as_deref(), Some(second.as_str()));
    assert_eq!(contents(&app.chat.messages), vec!["mine"]);
    assert_eq!(contents(&session(&app, &first).messages), vec!["theirs"]);
    assert!(session(&app, &second).messages.is_empty());
}

#[test]
fn what_a_subagent_writes_stays_in_its_session() {
    let mut app = test_app();
    let parent = new_session(&mut app, "Parent");
    start_stream(&mut app, &parent, 0);
    app.start_subagent_session(&subagent(&parent, "child", "general"));
    let before = contents(&app.chat.messages);

    app.process_streaming_chunk_for_session(
        &parent,
        ChunkMessage::SubagentChunk {
            session_id: "child".to_string(),
            chunk: Box::new(ChunkMessage::Text("found it".to_string())),
        },
    );

    assert_eq!(contents(&app.chat.messages), before);
    let child = client(&mut app, "child");
    assert_eq!(child.chat.messages.last().expect("answer").content, "found it");
}

#[test]
fn previews_of_themes_leave_no_trace() {
    let mut app = test_app();
    app.ui.themes.themes = vec![
        Theme { id: "night".to_string(), dark: true },
        Theme { id: "day".to_string(), dark: false },
        Theme { id: "dusk".to_string(), dark: true },
    ];
    app.ui.themes.index = 2;
    app.show_themes_dialog();
    app.preview_theme_by_id("day");
    assert_eq!(app.ui.themes.index, 1);
    assert!(!app.ui.themes.dark_mode);
    app.preview_theme_by_id("night");
    app.preview_theme_by_id("no such theme");
    assert_eq!(app.ui.themes.index, 0);
    app.leave_themes_dialog();
    assert_eq!(app.ui.themes.index, 2);
    assert!(app.ui.themes.dark_mode);

    app.show_themes_dialog();
    app.commit_theme_by_id("day");
    app.leave_themes_dialog();
    assert_eq!(app.ui.themes.index, 1);
    assert!(!app.ui.themes.dark_mode);
}

#[test]
fn forks_count_on() {
    let once = fork_title_from_session_title("  Fix the build ");
    assert_eq!(once, "[fork1] Fix the build");
    let twice = fork_title_from_session_title(&once);
    assert_eq!(twice, "[fork2] Fix the build");
    assert_eq!(fork_title_from_session_title("[fork9]"), "[fork10] fork");
    assert_eq!(fork_title_from_session_title(""), "[fork1] fork");
    assert_eq!(fork_title_from_session_title("[forkx] y"), "[fork1] [forkx] y");
    let last = format!("[fork{}] x", usize::MAX);
    assert_eq!(fork_title_from_session_title(&last), last);
}

#[test]
fn agents_follow_one_another() {
    let agents = vec![
        agent("build", AgentMode::Primary),
        agent("plan", AgentMode::Primary),
        agent("general", AgentMode::Subagent),
    ];
    assert_eq!(agent_after(&agents, "Build").as_deref(), Some("plan"));
    assert_eq!(agent_after(&agents, "Plan").as_deref(), Some("build"));
    assert_eq!(agent_after(&agents, "general").as_deref(), Some("build"));
    assert_eq!(agent_after(&Vec::new(), "Plan"), None);
}

#[test]
fn steps_through_the_efforts_undo_each_other() {
    let mut app = test_app();
    app.reasoning.capabilities.push(ModelCapability {
        provider: "p".to_string(),
        model: "m".to_string(),
        values: vec![ReasoningEffort::Off, ReasoningEffort::Low, ReasoningEffort::High],
    });
    let forward = [Some(ReasoningEffort::Low), Some(ReasoningEffort::High), None];
    for step in forward {
        let before = app.reasoning.reasoning_effort_override_for_model("p", "m");
        let next = app.reasoning.next_effort_for_model("p", "m", true).expect("efforts");
        assert_eq!(next, step);
        app.reasoning.set_reasoning_effort_override_for_model("p", "m", next, Ok(())).unwrap();
        assert_eq!(app.reasoning.next_effort_for_model("p", "m", false), Some(before));
    }
}

#[test]
fn models_are_listed_in_order() {
    let models = vec![
        model("zeta", "z-1", "Zed", true),
        model("alpha", "a-2", "Beta", true),
        model("alpha", "a-1", "Able", true),
        model("alpha", "a-0", "Aaron", false),
    ];
    let prefs = ModelPrefs { favorites: vec![reference("zeta", "z-1")], recents: Vec::new() };
    let items = model_items(&models, &prefs, &reference("alpha", "a-2"));
    let seen: Vec<(String, String)> =
        items.iter().map(|i| (i.group.clone(), i.id.clone())).collect();
    let expected: Vec<(String, String)> = vec![
        ("Favorite".to_string(), "z-1".to_string()),
        ("ALPHA".to_string(), "a-1".to_string()),
        ("ALPHA".to_string(), "a-2".to_string()),
    ];
    assert_eq!(seen, expected);
    assert!(items.iter().any(|i| i.id == "a-2" && i.active));
}

#[test]
fn sorting_keeps_everything() {
    let words = vec!["pear".to_string(), "apple".to_string(), "fig".to_string(), "apple".to_string()];
    assert_eq!(sort(words), vec!["apple", "apple", "fig", "pear"]);
}

#[test]
fn providers_are_marked_sorted_and_listed_once() {
    let connected = Some(vec!["xai".to_string(), "openai".to_string()]);
    let custom = vec!["zz".to_string(), "auth:xai".to_string()];
    assert_eq!(
        models_dialog_provider_ids(connected, custom),
        Some(vec!["auth:openai".to_string(), "auth:xai".to_string(), "zz".to_string()])
    );
    assert_eq!(models_dialog_provider_ids(None, Vec::new()), None);
}

#[test]
fn filters_part_the_sessions() {
    let mut app = test_app();
    let kept = new_session(&mut app, "Kept");
    let gone = new_session(&mut app, "Gone");
    app.start_subagent_session(&subagent(&kept, "child", "general"));
    app.set_session_archived(&gone, true);
    let list = |filter| -> Vec<String> {
        build_sessions_dialog_list(&app.sessions, &app.clients, filter, 1)
            .iter()
            .map(|r| r.id.clone())
            .collect()
    };
    assert_eq!(list(SessionsDialogFilter::All), vec![kept.clone()]);
    assert_eq!(list(SessionsDialogFilter::Active), vec![kept.clone()]);
    assert_eq!(list(SessionsDialogFilter::Archived), vec![gone.clone()]);
}

#[test]
fn a_compaction_has_to_shrink() {
    assert!(matches!(judge_compaction(Ok(compacted(100, 40)), false), Verdict::Success { .. }));
    assert!(matches!(judge_compaction(Ok(compacted(100, 40)), true), Verdict::Cancelled));
    assert!(matches!(
        judge_compaction(Ok(compacted(100, 100)), false),
        Verdict::Failed { error } if error == "Compaction did not reduce context (100 to 100)"
    ));
    assert!(matches!(
        judge_compaction(Err("no model".to_string()), false),
        Verdict::Failed { error } if error == "no model"
    ));
}

#[test]
fn skills_and_servers_are_listed() {
    let skills = skill_items(vec![
        Skill { name: "review".to_string(), description: Some("Looks".to_string()) },
        Skill { name: "audit".to_string(), description: None },
    ]);
    assert_eq!(skills.len(), 2);
    let servers = mcp_items(vec![McpServer { name: "files".to_string(), enabled: true }]);
    assert_eq!(servers.len(), 1);
    assert_eq!(servers[0].id, "files");
    assert!(servers[0].active);
}

#[test]
fn the_built_in_colours_stand_in_for_a_theme() {
    let mut app = test_app();
    app.ui.themes.transparent = true;
    assert_eq!(
        app.get_current_theme_colors(),
        Palette::Listed { index: 0, dark: true, transparent: true }
    );
    app.ui.themes.themes.clear();
    match app.get_current_theme_colors() {
        Palette::BuiltIn { colors } => {
            assert_eq!(colors.primary, Shade::Rgb { red: 255, green: 140, blue: 0 });
            assert_eq!(colors.text, Shade::Reset);
            assert_eq!(colors.diff_gutter, Shade::Rgb { red: 140, green: 140, blue: 140 });
        }
        other => panic!("{:?}", other),
    }
}

fn last_toast(app: &App) -> Option<(ToastLevel, String, u64)> {
    match app.effects.last() {
        Some(Effect::Toast { level, text, seconds }) => Some((*level, text.clone(), *seconds)),
        _ => None,
    }
}

#[test]
fn the_user_is_told_how_copying_ended() {
    let mut app = test_app();
    app.finish_copy("Copied it", Ok(()));
    assert_eq!(last_toast(&app), Some((ToastLevel::Info, "Copied it".to_string(), 0)));
    app.effects.clear();
    app.finish_copy("Copied it", Err("no clipboard".to_string()));
    assert!(matches!(app.effects[0], Effect::Sound { event: SoundEvent::Error }));
    assert_eq!(
        last_toast(&app),
        Some((ToastLevel::Error, "Failed to copy: no clipboard".to_string(), 3))
    );
    app.effects.clear();
    app.finish_copy("", Err("no clipboard".to_string()));
    assert!(app.effects.is_empty());
    app.finish_copy_link("Copied link", Err("no clipboard".to_string()));
    assert_eq!(
        last_toast(&app),
        Some((ToastLevel::Error, "Failed to copy link: no clipboard".to_string(), 0))
    );
}

#[test]
fn the_user_is_told_how_opening_ended() {
    let mut app = test_app();
    app.finish_open_target(TargetKind::File, "src/lib.rs", Ok(()));
    assert_eq!(last_toast(&app), Some((ToastLevel::Info, "Opened src/lib.rs".to_string(), 0)));
    app.finish_open_target(TargetKind::Link, "https://x", Err("offline".to_string()));
    assert_eq!(
        last_toast(&app),
        Some((ToastLevel::Error, "Failed to open link: offline".to_string(), 0))
    );
    app.finish_open_folder("/tmp", Ok(()));
    assert_eq!(last_toast(&app), Some((ToastLevel::Info, "Opened /tmp".to_string(), 2)));
}

#[test]
fn an_image_from_the_clipboard_is_attached() {
    let mut app = test_app();
    let input = Input::with_text_and_images("[Image #1] ".to_string(), vec!["a.png".to_string()]);
    app.finish_clipboard_image(Ok((input, false)));
    assert_eq!(app.input.text, "[Image #1] ");
    assert_eq!(
        last_toast(&app),
        Some((ToastLevel::Info, "Attached image from clipboard".to_string(), 0))
    );
    app.finish_clipboard_image(Err("empty".to_string()));
    assert_eq!(
        last_toast(&app),
        Some((ToastLevel::Warning, "Clipboard image paste failed: empty".to_string(), 0))
    );
}

#[test]
fn a_turn_ends_with_one_event() {
    assert!(matches!(turn_outcome(TurnResult::Done), ChunkMessage::End));
    assert!(matches!(
        turn_outcome(TurnResult::Failed { error: "bad key".to_string() }),
        ChunkMessage::Failed(e) if e == "bad key"
    ));
    assert!(matches!(
        turn_outcome(TurnResult::TimedOut { limit: 30000 }),
        ChunkMessage::Failed(e) if e == "Timeout: No response within 30000 ms"
    ));
    let events = mention_outcome(Ok("found".to_string()));
    assert_eq!(events.len(), 2);
    assert!(matches!(&events[0], ChunkMessage::Text(t) if t == "found"));
    assert!(matches!(events[1], ChunkMessage::End));
    assert_eq!(mention_outcome(Err("no".to_string())).len(), 1);
    assert_eq!(mention_description("explore"), "explore mention");
}

#[test]
fn a_request_begins_with_a_system_prompt() {
    let bare = vec![Message::user("hi")];
    let sent = request_messages(&bare, "be brief", Some(" go on "));
    assert_eq!(contents(&sent), vec!["be brief\n\ngo on", "hi"]);
    assert_eq!(sent[0].role, MessageRole::System);
    let own = vec![Message::system("mine"), Message::user("hi")];
    assert_eq!(contents(&request_messages(&own, "be brief", None)), vec!["mine", "hi"]);
}

#[test]
fn folders_are_checked() {
    assert_eq!(
        check_folder("/a", Found::Nothing),
        Err("folder not found or not accessible: /a".to_string())
    );
    assert_eq!(
        check_folder("/a", Found::File { path: "/real/a".to_string() }),
        Err("folder path is not a directory: /real/a".to_string())
    );
    assert_eq!(
        check_folder("/a", Found::Folder { path: "/real/a".to_string() }),
        Ok("/real/a".to_string())
    );
    assert_eq!(entering_failed("/a"), "failed to switch to /a");
}

fn no_facts() -> CommandFacts {
    CommandFacts { custom: false, canonical: None, chat_only: false, connected: None }
}

#[test]
fn a_provider_can_be_connected_in_three_ways() {
    let ids = |login| -> Vec<String> {
        connect_method_items(login).iter().map(|i| i.id.clone()).collect()
    };
    assert_eq!(
        ids(OAuthProvider::OpenAI),
        vec!["openai-oauth-browser", "openai-oauth-headless", "openai-api-key"]
    );
    assert_eq!(
        ids(OAuthProvider::XAI),
        vec!["xai-oauth-browser", "xai-oauth-headless", "xai-api-key"]
    );
}

#[test]
fn models_are_looked_up_where_there_can_be_any() {
    let none = ProviderFacts {
        any_connected: false,
        any_lasting_connected: false,
        any_configured: false,
        runtime_connected: false,
        runtime_in_use: false,
        free_in_use: false,
    };
    assert_eq!(models_to_look_up(none), Lookup { lasting: true, runtime: false });
    let local = ProviderFacts { any_connected: true, runtime_connected: true, ..none };
    assert_eq!(models_to_look_up(local), Lookup { lasting: false, runtime: true });

    let mut app = test_app();
    assert!(!app.model_lookup_failed(Lookup { lasting: true, runtime: false }, "offline", true));
    assert!(app.effects.is_empty());
    assert!(app.model_lookup_failed(Lookup { lasting: true, runtime: true }, "offline", true));
    assert_eq!(
        last_toast(&app),
        Some((ToastLevel::Warning, "Failed to refresh models: offline".to_string(), 3))
    );
}

#[test]
fn a_failed_command_of_the_users_own_is_told() {
    let mut app = test_app();
    app.apply_command_result("mine", true, CommandResult::Success { text: "done".to_string() });
    assert!(app.effects.is_empty());
    app.apply_command_result("mine", true, CommandResult::Error { text: "broken".to_string() });
    assert_eq!(last_toast(&app), Some((ToastLevel::Error, "broken".to_string(), 3)));
}

#[test]
fn disconnecting_is_told() {
    let mut app = test_app();
    app.finish_disconnect(
        Disconnection::RemovalFailed { name: "xAI".to_string(), why: "locked".to_string() },
        &no_facts(),
    );
    assert_eq!(
        last_toast(&app),
        Some((ToastLevel::Error, "Failed to disconnect xAI: locked".to_string(), 0))
    );
    app.finish_disconnect(Disconnection::NotConnected { name: "xAI".to_string() }, &no_facts());
    assert_eq!(last_toast(&app), Some((ToastLevel::Info, "xAI is not connected".to_string(), 0)));
}

#[test]
fn connecting_a_local_provider_is_told() {
    let mut app = test_app();
    app.overlay_focus = OverlayFocus::ConnectDialog;
    app.connect_local_provider(LocalConnection::Done { name: "Ollama".to_string(), models: 2 });
    assert_eq!(app.overlay_focus, OverlayFocus::Nothing);
    assert!(app.effects.iter().any(|e| matches!(
        e,
        Effect::Toast { level: ToastLevel::Success, text, .. }
            if text == "Connected Ollama (2 local models)"
    )));
    app.connect_local_provider(LocalConnection::Unknown { provider: "x".to_string() });
    assert_eq!(
        last_toast(&app),
        Some((ToastLevel::Error, "Unknown local model provider: x".to_string(), 5))
    );
}

#[test]
fn themes_go_round_and_switch() {
    let mut app = test_app();
    app.ui.themes.themes = vec![
        Theme { id: "night".to_string(), dark: true },
        Theme { id: "day".to_string(), dark: false },
    ];
    app.cycle_theme();
    assert_eq!(app.ui.themes.index, 1);
    assert!(matches!(app.effects.last(), Some(Effect::SaveTheme { id }) if id == "day"));
    app.cycle_theme();
    assert_eq!(app.ui.themes.index, 0);
    app.toggle_dark_mode();
    assert!(!app.ui.themes.dark_mode);
    app.finish_theme_paste(Some("day".to_string()));
    assert_eq!(app.ui.themes.index, 1);
    app.finish_theme_paste(None);
    assert_eq!(app.ui.themes.index, 1);
}

#[test]
fn an_overlay_that_esc_closes_is_noted_once() {
    let mut app = test_app();
    app.overlay_focus = OverlayFocus::RefreshModelsDialog;
    let esc = KeyPress {
        code: KeyCode::Esc,
        ctrl: false,
        shift: false,
        alt: false,
        command: false,
        release: false,
    };
    app.handle_keys(esc, &KeyScene { chat_text: None, editable: false, facts: no_facts() });
    assert_eq!(app.overlay_focus, OverlayFocus::Nothing);
    assert!(app.take_just_closed_overlay());
    assert!(!app.take_just_closed_overlay());
}

#[test]
fn only_the_spinner_of_a_subagent_is_drawn_alone() {
    let mut app = test_app();
    let parent = new_session(&mut app, "Parent");
    start_stream(&mut app, &parent, 0);
    app.base_focus = BaseFocus::Chat;
    assert_eq!(app.isolated_subagent_spinner_interval(Some(80)), None);
    app.start_subagent_session(&subagent(&parent, "child", "general"));
    assert!(app.switch_to_session("child"));
    assert_eq!(app.isolated_subagent_spinner_interval(Some(80)), Some(80));
    assert_eq!(app.isolated_subagent_spinner_interval(None), None);
}

#[test]
fn what_waits_can_be_sent_at_once() {
    let mut app = test_app();
    assert!(!app.remote_send_queued_now());
    let id = new_session(&mut app, "Talk");
    app.chat.add_message(Message::incomplete("half"));
    start_stream(&mut app, &id, 0);
    assert!(!app.remote_send_queued_now());
    queue_text(&mut app, &id, "instead");
    assert!(app.remote_send_queued_now());
    assert_eq!(contents(&app.chat.messages), vec!["half", "instead", ""]);
    assert!(app.chat.messages[0].was_interrupted);
}

#[test]
fn rows_name_their_sessions() {
    let mut app = test_app();
    let id = new_session(&mut app, "Talk");
    app.sessions[0].pinned = true;
    let rows = build_sessions_dialog_list(&app.sessions, &app.clients, SessionsDialogFilter::All, 1);
    assert_eq!(session_row_name(&rows[0], "*"), "★ Talk");
    assert!(streaming_row_ids(&rows).is_empty());
    start_stream(&mut app, &id, 0);
    let rows = build_sessions_dialog_list(&app.sessions, &app.clients, SessionsDialogFilter::All, 1);
    assert_eq!(session_row_name(&rows[0], "*"), "* ★ Talk");
    assert_eq!(streaming_row_ids(&rows), vec![id]);
    assert_eq!(workspace_of_group(&rows, "workspace"), Some(1));
    assert_eq!(workspace_of_group(&rows, "elsewhere"), None);
}

#[test]
fn a_branch_is_looked_up_again_after_a_while() {
    let mut app = test_app();
    assert!(app.git_branch_is_stale("/tmp"));
    app.set_git_branch("/tmp", Some("main".to_string()));
    assert!(!app.git_branch_is_stale("/tmp"));
    assert!(app.git_branch_is_stale("/elsewhere"));
    app.now += 2000;
    assert!(app.git_branch_is_stale("/tmp"));
}

#[test]
fn the_terminal_knows_whether_it_is_looked_at() {
    let mut app = test_app();
    app.notifications.condition = TerminalNotificationCondition::Unfocused;
    app.notifications.error = TerminalNotificationMode::Auto;
    app.notifications.bell_supported = true;
    app.set_terminal_focused(true);
    assert!(!app.notifications.should_ring(SoundEvent::Error));
    app.set_terminal_focused(false);
    assert!(app.notifications.should_ring(SoundEvent::Error));
    assert_eq!(app.current_session_id(), None);
}

fn with_efforts(app: &mut App) {
    app.reasoning.capabilities.push(ModelCapability {
        provider: "test-provider".to_string(),
        model: "test-model".to_string(),
        values: vec![ReasoningEffort::Off, ReasoningEffort::Low, ReasoningEffort::High],
    });
}

#[test]
fn an_effort_is_chosen_once_it_is_remembered() {
    let mut app = test_app();
    assert!(!app.cycle_active_reasoning_effort());
    assert!(app.effects.is_empty());
    with_efforts(&mut app);
    assert!(app.cycle_active_reasoning_effort());
    assert!(matches!(
        app.take_effects().last(),
        Some(Effect::SaveEffort { effort: Some(ReasoningEffort::Low), relist: false, .. })
    ));
    let chosen =
        |app: &App| app.reasoning.reasoning_effort_override_for_model("test-provider", "test-model");
    assert_eq!(chosen(&app), None);
    let low = Some(ReasoningEffort::Low);
    let failed = app.finish_effort_saved(
        "test-provider",
        "test-model",
        low,
        true,
        Err("disk full".to_string()),
    );
    assert_eq!(failed, Err("disk full".to_string()));
    assert_eq!(chosen(&app), None);
    assert!(app.effects.is_empty());
    assert_eq!(
        app.finish_effort_saved("test-provider", "test-model", low, true, Ok(())),
        Ok(true)
    );
    assert_eq!(chosen(&app), low);
    assert!(matches!(app.effects.last(), Some(Effect::RefreshModels)));
}

#[test]
fn a_refused_snapshot_is_tried_again() {
    let mut app = test_app();
    let id = new_session(&mut app, "Talk");
    app.chat.add_message(Message::incomplete("half"));
    start_stream(&mut app, &id, 0);
    app.take_effects();
    let began = app.now;
    app.mark_streaming_snapshot_pending(&id);
    app.maybe_persist_streaming_snapshot_for_session(&id, false);
    assert!(app.effects.is_empty());
    app.now += 60_000;
    app.maybe_persist_streaming_snapshot_for_session(&id, false);
    assert_eq!(contents(&session(&app, &id).messages), vec!["half"]);
    assert!(matches!(
        app.take_effects().last(),
        Some(Effect::StoreSnapshot { session_id }) if *session_id == id
    ));
    app.finish_snapshot_stored(&id, Err("disk full".to_string()));
    let stream = client(&mut app, &id).stream.as_ref().expect("stream");
    assert!(stream.pending_snapshot);
    assert_eq!(stream.last_snapshot, began);
    app.maybe_persist_streaming_snapshot_for_session(&id, false);
    assert_eq!(app.take_effects().len(), 1);
    app.finish_snapshot_stored(&id, Ok(()));
    let now = app.now;
    let stream = client(&mut app, &id).stream.as_ref().expect("stream");
    assert!(!stream.pending_snapshot);
    assert_eq!(stream.last_snapshot, now);
    app.mark_streaming_snapshot_pending(&id);
    app.maybe_persist_streaming_snapshot_for_session(&id, false);
    assert!(app.effects.is_empty());
}

fn key(code: KeyCode) -> KeyPress {
    KeyPress { code, ctrl: false, shift: false, alt: false, command: false, release: false }
}

fn press(app: &mut App, key: KeyPress) {
    app.handle_keys(key, &KeyScene { chat_text: None, editable: false, facts: no_facts() });
}

fn talk(app: &mut App) -> String {
    let id = new_session(app, "Talk");
    app.chat.add_message(Message::user("Prompt"));
    app.persist_chat_messages_for_session(&id);
    app.base_focus = BaseFocus::Chat;
    app.take_effects();
    id
}

#[test]
fn two_esc_open_the_timeline_at_the_last_message() {
    let mut app = test_app();
    talk(&mut app);
    press(&mut app, key(KeyCode::Esc));
    assert_eq!(app.overlay_focus, OverlayFocus::Nothing);
    assert!(app.effects.is_empty());
    app.now += 4999;
    press(&mut app, key(KeyCode::Esc));
    assert_eq!(app.overlay_focus, OverlayFocus::TimelineDialog);
    assert_eq!(app.chat.highlighted, Some(0));
    assert!(matches!(app.effects.last(), Some(Effect::ScrollToMessage { index: 0 })));
    assert!(!app.esc_is_primed());
}

#[test]
fn another_key_between_two_esc_disarms() {
    let mut app = test_app();
    talk(&mut app);
    press(&mut app, key(KeyCode::Esc));
    assert!(app.esc_is_primed());
    press(&mut app, key(KeyCode::Tab));
    assert!(!app.esc_is_primed());
    press(&mut app, key(KeyCode::Esc));
    assert_eq!(app.overlay_focus, OverlayFocus::Nothing);
    assert!(app.esc_is_primed());
    app.now += 5000;
    assert!(!app.esc_is_primed());
    let armed = app.esc_primed_at;
    press(&mut app, KeyPress { release: true, ..key(KeyCode::Esc) });
    assert_eq!(app.esc_primed_at, armed);
    assert_eq!(app.overlay_focus, OverlayFocus::Nothing);
}

#[test]
fn a_failed_turn_is_closed_as_a_whole() {
    let mut app = test_app();
    let id = new_session(&mut app, "Talk");
    app.chat.add_message(Message::tool("{\"id\":\"old\",\"status\":\"running\"}"));
    app.chat.add_message(Message::incomplete("half"));
    app.chat.add_message(Message::tool("{\"id\":\"one\",\"status\":\"running\"}"));
    app.chat.add_message(Message::tool("{\"id\":\"two\",\"status\":\"ok\"}"));
    start_stream(&mut app, &id, 1);
    app.fail_streaming_session(&id, "boom");
    let messages = &app.chat.messages;
    assert_eq!(messages.len(), 4);
    assert_eq!(messages[0].content, "{\"id\":\"old\",\"status\":\"running\"}");
    assert!(messages[1].is_complete);
    assert_eq!(messages[1].model.as_deref(), Some("test-model"));
    assert_eq!(messages[1].provider.as_deref(), Some("test-provider"));
    let report = value_of(&messages[2].content);
    assert_eq!(report["id"], "one");
    assert_eq!(report["status"], "error");
    assert_eq!(report["output_preview"], "boom");
    assert_eq!(messages[3].content, "{\"id\":\"two\",\"status\":\"ok\"}");
    let after = contents(messages);
    assert_eq!(contents(&session(&app, &id).messages), after);
    assert_eq!(session(&app, &id).error.as_deref(), Some("boom"));
    assert!(client(&mut app, &id).stream.is_none());
    app.take_effects();
    app.fail_streaming_session(&id, "again");
    assert_eq!(contents(&app.chat.messages), after);
    assert_eq!(session(&app, &id).error.as_deref(), Some("boom"));
    assert!(app.effects.is_empty());
}

#[test]
fn a_step_to_a_sibling_and_back_comes_home() {
    let mut app = test_app();
    let parent = new_session(&mut app, "Parent");
    assert!(!app.switch_child_session(true));
    for id in ["one", "two", "three"] {
        app.start_subagent_session(&subagent(&parent, id, "general"));
    }
    assert!(!app.switch_child_session(true));
    assert_eq!(app.current.as_deref(), Some(parent.as_str()));
    assert!(app.switch_to_session("three"));
    assert!(app.switch_child_session(true));
    assert_eq!(app.current.as_deref(), Some("one"));
    assert!(app.switch_child_session(false));
    assert_eq!(app.current.as_deref(), Some("three"));
    assert!(app.switch_child_session(false));
    assert_eq!(app.current.as_deref(), Some("two"));
}

#[test]
fn tab_shows_each_agent_once_round() {
    let mut app = test_app();
    app.agents.push(agent("review", AgentMode::All));
    app.agent = "Nobody".to_string();
    let mut shown = Vec::new();
    for _ in 0..4 {
        press(&mut app, key(KeyCode::Tab));
        shown.push(app.agent.clone());
    }
    assert_eq!(shown, vec!["Build", "Plan", "Review", "Build"]);
    app.agents.clear();
    press(&mut app, key(KeyCode::Tab));
    assert_eq!(app.agent, "Build");
}

#[test]
fn sessions_stand_behind_their_parents() {
    let mut app = test_app();
    let first = new_session(&mut app, "First");
    app.start_subagent_session(&subagent(&first, "child", "general"));
    app.start_subagent_session(&subagent("child", "grandchild", "general"));
    let second = new_session(&mut app, "Second");
    app.delete_session(&second, None);
    app.delete_session("child", None);
    let ids: Vec<String> = app.sessions.iter().map(|s| s.id.clone()).collect();
    assert_eq!(ids, vec![first, "grandchild".to_string()]);
    for (i, s) in app.sessions.iter().enumerate() {
        let parent = s.parent_id.as_ref().and_then(|p| app.sessions.iter().position(|x| x.id == *p));
        assert!(parent.map_or(true, |p| p < i));
    }
}

#[test]
fn a_finished_turn_is_closed_as_a_whole() {
    let mut app = test_app();
    let id = new_session(&mut app, "Talk");
    app.chat.add_message(Message::incomplete("before"));
    app.chat.add_message(Message::incomplete("answer"));
    app.chat.add_message(Message::tool("{\"id\":\"one\",\"status\":\"ok\"}"));
    start_stream(&mut app, &id, 1);
    app.finish_streaming_session(&id);
    let messages = &app.chat.messages;
    assert!(!messages[0].is_complete);
    assert!(messages[1].is_complete);
    assert_eq!(messages[1].model.as_deref(), Some("test-model"));
    assert_eq!(messages[1].provider.as_deref(), Some("test-provider"));
    assert_eq!(messages[2].content, "{\"id\":\"one\",\"status\":\"ok\"}");
    assert_eq!(contents(&session(&app, &id).messages), contents(&app.chat.messages));
    assert_eq!(session(&app, &id).status, SessionStatus::Idle);
    assert!(client(&mut app, &id).stream.is_none());
    app.take_effects();
    app.finish_streaming_session(&id);
    assert!(app.effects.is_empty());
}

#[test]
fn an_interrupted_turn_is_closed_as_a_whole() {
    let mut app = test_app();
    let id = new_session(&mut app, "Talk");
    app.chat.add_message(Message::assistant("before"));
    app.chat.add_message(Message::incomplete("half"));
    app.chat.add_message(Message::tool("{\"id\":\"one\",\"status\":\"running\"}"));
    start_stream(&mut app, &id, 1);
    app.cancelled_streaming_session(&id);
    let messages = &app.chat.messages;
    assert!(!messages[0].was_interrupted);
    assert!(messages[1].was_interrupted);
    assert!(messages[1].is_complete);
    let report = value_of(&messages[2].content);
    assert_eq!(report["status"], "error");
    assert_eq!(report["output_preview"], "Streaming cancelled by user");
    assert_eq!(contents(&session(&app, &id).messages), contents(&app.chat.messages));
    assert_eq!(session(&app, &id).status, SessionStatus::Interrupted);
    assert!(client(&mut app, &id).stream.is_none());
}

#[test]
fn ctrl_c_clears_and_then_quits() {
    let mut app = test_app();
    talk(&mut app);
    app.input.text = "half a prompt".to_string();
    let ctrl_c = KeyPress { ctrl: true, ..key(KeyCode::Char { c: 'c' }) };
    press(&mut app, ctrl_c);
    assert_eq!(app.input.text, "");
    assert!(app.running);
    app.now += 1000;
    press(&mut app, ctrl_c);
    assert!(app.running);
    app.now += 999;
    press(&mut app, ctrl_c);
    assert!(!app.running);
}

#[test]
fn remembered_efforts_step_back() {
    let mut app = test_app();
    with_efforts(&mut app);
    let mut step = |forward: bool| -> Option<ReasoningEffort> {
        assert!(app.cycle_reasoning_effort_for_model("test-provider", "test-model", forward, false));
        match app.take_effects().pop() {
            Some(Effect::SaveEffort { provider, model, effort, relist }) => {
                assert_eq!(
                    app.finish_effort_saved(&provider, &model, effort, relist, Ok(())),
                    Ok(true)
                );
            }
            other => panic!("{:?}", other),
        }
        app.reasoning.reasoning_effort_override_for_model("test-provider", "test-model")
    };
    assert_eq!(step(true), Some(ReasoningEffort::Low));
    assert_eq!(step(true), Some(ReasoningEffort::High));
    assert_eq!(step(false), Some(ReasoningEffort::Low));
    assert_eq!(step(false), None);
}

#[test]
fn only_the_agents_in_the_list_go_round() {
    let mut app = test_app();
    app.agents.push(agent(" odd one ", AgentMode::Subagent));
    let mut hidden = agent("PLAN", AgentMode::Primary);
    hidden.hidden = true;
    app.agents.insert(0, hidden);
    app.agents.push(agent("\u{65e5}\u{672c}", AgentMode::Primary));
    app.agent = "Build".to_string();
    let mut shown = Vec::new();
    for _ in 0..3 {
        app.toggle_agent_mode();
        shown.push(app.agent.clone());
    }
    assert_eq!(shown, vec!["PLAN", "\u{65e5}\u{672c}", "Build"]);
}

#[test]
fn a_child_that_stands_before_its_parent_has_it_too() {
    let mut app = test_app();
    let workspace = shell().workspace;
    let listed = |id: &str, parent: Option<&str>| {
        Session::new(id, parent.map(|p| p.to_string()), id, &workspace, 0)
    };
    app.sessions = vec![
        listed("grandchild", Some("child")),
        listed("child", Some("parent")),
        listed("parent", None),
    ];
    for id in ["grandchild", "child", "parent"] {
        assert!(app.switch_to_session(id));
        start_stream(&mut app, id, 0);
    }

    app.cancelled_streaming_session("parent");

    assert!(!app.session_has_active_stream("child"));
    assert!(!app.session_has_active_stream("grandchild"));
}

fn scrolls(app: &mut App) -> usize {
    app.take_effects().iter().filter(|e| matches!(e, Effect::ScrollToBottom)).count()
}

#[test]
fn a_changed_transcript_is_shown_from_its_end() {
    let mut app = test_app();
    let id = talk(&mut app);
    new_session(&mut app, "Other");
    app.take_effects();
    assert!(app.switch_to_session(&id));
    assert_eq!(scrolls(&mut app), 1);

    app.base_focus = BaseFocus::Chat;
    app.chat.add_message(Message::assistant("Answer"));
    app.persist_chat_messages_for_session(&id);
    app.take_effects();
    let before = app.chat.revision;
    app.ui.message_actions_index = Some(0);
    app.execute_message_action("undo");
    assert!(scrolls(&mut app) >= 1);
    assert!(app.chat.messages.is_empty());
    assert_ne!(app.chat.revision, before);
}

#[test]
fn dialogs_empty_the_popup() {
    let mut app = test_app();
    talk(&mut app);
    app.set_suggestions(true);
    assert!(app.suggestions);
    app.clear_suggestions_and_blur();
    assert!(!app.suggestions);
    assert_eq!(app.overlay_focus, OverlayFocus::Nothing);

    app.set_suggestions(true);
    app.open_find_bar();
    assert!(!app.suggestions);
    assert_eq!(app.overlay_focus, OverlayFocus::FindBar);
    let asked = app.take_effects();
    assert!(asked.iter().any(|e| matches!(e, Effect::ClearSearch)));
    assert!(matches!(
        asked.last(),
        Some(Effect::ShowDialog { dialog: OverlayFocus::FindBar })
    ));
}

#[test]
fn a_title_is_asked_for_once_and_only_where_one_is_due() {
    let mut app = test_app();
    let id = new_session(&mut app, "Manual title");
    app.small_model = Some("openai/gpt-5-mini".to_string());
    app.chat.add_message(Message::user("hello"));
    app.take_effects();
    app.start_session_title_generation(&id, "hello");
    assert!(!app.title_generation);
    assert!(app.take_effects().is_empty());

    let id = new_session(&mut app, "hello");
    app.chat.add_message(Message::user("hello"));
    app.take_effects();
    app.start_session_title_generation(&id, " hello ");
    assert!(app.title_generation);
    assert!(matches!(
        app.take_effects().last(),
        Some(Effect::GenerateTitle { provider, model, prompt, .. })
            if provider == "openai" && model == "gpt-5-mini" && prompt == "hello"
    ));
    app.start_session_title_generation(&id, "hello");
    assert!(app.take_effects().is_empty());
}

#[test]
fn the_terminal_is_looked_at_to_begin_with() {
    let mut s = shell();
    s.notifications.focused = false;
    assert!(App::new(s).notifications.focused);
}

//! What the user types: commands, messages and mentions, and what a command comes to.

use crate::app;
use crate::app::{App, AppView};
use crate::dialogs;
use crate::focus::{BaseFocus, OverlayFocus};
use crate::history;
use crate::message;
use crate::message::{Message, MessageRole};
use crate::prompting;
use crate::prompting::{AgentMention, MentionView};
use crate::session;
use crate::session::SessionView;
use crate::state;
use crate::state::{Effect, EffectView, SoundEvent, ToastLevel};
use crate::terminal_title;
use crate::text;
use crate::ui;
use crate::ui::{
    ConnectDialogMode, DialogItem, ItemView, LaunchView, ModelsTaskKind, RemoteLaunchRequest, Ui,
    UiView,
};
use vstd::prelude::*;
use vstd::string::*;

verus! {

/// A command and its arguments.
#[derive(Debug)]
pub struct ParsedCommand {
    pub name: String,
    pub args: Vec<String>,
}

pub struct CommandView {
    pub name: Seq<char>,
    pub args: Seq<Seq<char>>,
}

impl View for ParsedCommand {
    type V = CommandView;

    open spec fn view(&self) -> CommandView {
        CommandView { name: self.name@, args: text::views(self.args@) }
    }
}

/// What the registry knows of a command, and the providers that are connected.
#[derive(Debug)]
pub struct CommandFacts {
    pub custom: bool,
    pub canonical: Option<String>,
    pub chat_only: bool,
    pub connected: Option<Vec<String>>,
}

pub struct FactsView {
    pub custom: bool,
    pub canonical: Option<Seq<char>>,
    pub chat_only: bool,
    pub connected: Option<Seq<Seq<char>>>,
}

impl View for CommandFacts {
    type V = FactsView;

    open spec fn view(&self) -> FactsView {
        FactsView {
            custom: self.custom,
            canonical: text::opt_view(self.canonical),
            chat_only: self.chat_only,
            connected: ui::opt_views(self.connected),
        }
    }
}

/// What a line of input is.
#[derive(Debug)]
pub enum InputType {
    Command(ParsedCommand),
    Message(String),
    AgentMention(AgentMention),
}

pub enum InputTypeView {
    Command(CommandView),
    Message(Seq<char>),
    AgentMention(MentionView),
}

impl View for InputType {
    type V = InputTypeView;

    open spec fn view(&self) -> InputTypeView {
        match self {
            InputType::Command(c) => InputTypeView::Command(c@),
            InputType::Message(m) => InputTypeView::Message(m@),
            InputType::AgentMention(m) => InputTypeView::AgentMention(m@),
        }
    }
}

/// Who takes a command.
#[derive(Debug, Clone, Copy, PartialEq, Eq, Structural)]
pub enum CommandRoute {
    Custom,
    Models,
    RefreshModels,
    CopyActions,
    Sessions,
    Agents,
    New,
    Home,
    Themes,
    Skills,
    Mcp,
    Title,
    Remote,
    Rename,
    Timeline,
    Move,
    Compact,
    CompactMode,
    Fork,
    Rejected,
    Execute,
}

/// The commands that work in a chat alone.
pub open spec fn chat_route(name: Seq<char>, has_args: bool, f: FactsView) -> Option<CommandRoute> {
    if name == "copy"@ {
        Some(CommandRoute::CopyActions)
    } else if name == "rename"@ && !has_args {
        Some(CommandRoute::Rename)
    } else if name == "timeline"@ {
        Some(CommandRoute::Timeline)
    } else if name == "move"@ {
        Some(CommandRoute::Move)
    } else if name == "compact"@ {
        Some(CommandRoute::Compact)
    } else if name == "compact-mode"@ {
        Some(CommandRoute::CompactMode)
    } else if f.canonical == Some("fork"@) {
        Some(CommandRoute::Fork)
    } else {
        None
    }
}

/// The commands that work everywhere.
pub open spec fn plain_route(name: Seq<char>) -> Option<CommandRoute> {
    if name == "models"@ {
        Some(CommandRoute::Models)
    } else if name == "refreshmodels"@ {
        Some(CommandRoute::RefreshModels)
    } else if name == "sessions"@ {
        Some(CommandRoute::Sessions)
    } else if name == "agents"@ {
        Some(CommandRoute::Agents)
    } else if name == "new"@ {
        Some(CommandRoute::New)
    } else if name == "home"@ {
        Some(CommandRoute::Home)
    } else if name == "themes"@ {
        Some(CommandRoute::Themes)
    } else if name == "skills"@ {
        Some(CommandRoute::Skills)
    } else if name == "mcp"@ {
        Some(CommandRoute::Mcp)
    } else if name == "title"@ {
        Some(CommandRoute::Title)
    } else if name == "remote"@ {
        Some(CommandRoute::Remote)
    } else {
        None
    }
}

/// Who takes a command: the user's own come first, then those of the application; the registry
/// has the rest, but not those that belong to a chat when there is none.
pub open spec fn route_of(
    name: Seq<char>,
    has_args: bool,
    in_chat: bool,
    f: FactsView,
) -> CommandRoute {
    if f.custom {
        CommandRoute::Custom
    } else {
        match plain_route(name) {
            Some(r) => r,
            None => match chat_route(name, has_args, f) {
                Some(r) => if in_chat {
                    r
                } else if f.chat_only {
                    CommandRoute::Rejected
                } else {
                    CommandRoute::Execute
                },
                None => if !in_chat && f.chat_only {
                    CommandRoute::Rejected
                } else {
                    CommandRoute::Execute
                },
            },
        }
    }
}

fn plain_command_route(name: &str) -> (r: Option<CommandRoute>)
    ensures
        r == plain_route(name@),
{
    if text::same(name, "models") {
        return Some(CommandRoute::Models);
    }
    if text::same(name, "refreshmodels") {
        return Some(CommandRoute::RefreshModels);
    }
    if text::same(name, "sessions") {
        return Some(CommandRoute::Sessions);
    }
    if text::same(name, "agents") {
        return Some(CommandRoute::Agents);
    }
    if text::same(name, "new") {
        return Some(CommandRoute::New);
    }
    if text::same(name, "home") {
        return Some(CommandRoute::Home);
    }
    if text::same(name, "themes") {
        return Some(CommandRoute::Themes);
    }
    if text::same(name, "skills") {
        return Some(CommandRoute::Skills);
    }
    if text::same(name, "mcp") {
        return Some(CommandRoute::Mcp);
    }
    if text::same(name, "title") {
        return Some(CommandRoute::Title);
    }
    if text::same(name, "remote") {
        return Some(CommandRoute::Remote);
    }
    None
}

fn chat_command_route(name: &str, has_args: bool, f: &CommandFacts) -> (r: Option<CommandRoute>)
    ensures
        r == chat_route(name@, has_args, f@),
{
    if text::same(name, "copy") {
        return Some(CommandRoute::CopyActions);
    }
    if text::same(name, "rename") && !has_args {
        return Some(CommandRoute::Rename);
    }
    if text::same(name, "timeline") {
        return Some(CommandRoute::Timeline);
    }
    if text::same(name, "move") {
        return Some(CommandRoute::Move);
    }
    if text::same(name, "compact") {
        return Some(CommandRoute::Compact);
    }
    if text::same(name, "compact-mode") {
        return Some(CommandRoute::CompactMode);
    }
    match &f.canonical {
        Some(c) => if text::same(c.as_str(), "fork") {
            Some(CommandRoute::Fork)
        } else {
            None
        },
        None => None,
    }
}

pub fn command_route(name: &str, has_args: bool, in_chat: bool, f: &CommandFacts) -> (r:
    CommandRoute)
    ensures
        r == route_of(name@, has_args, in_chat, f@),
{
    if f.custom {
        return CommandRoute::Custom;
    }
    match plain_command_route(name) {
        Some(r) => {
            return r;
        },
        None => {},
    }
    match chat_command_route(name, has_args, f) {
        Some(r) => {
            if in_chat {
                return r;
            }
        },
        None => {},
    }
    if !in_chat && f.chat_only {
        CommandRoute::Rejected
    } else {
        CommandRoute::Execute
    }
}

/// A command that takes no arguments, or says so.
pub open spec fn usage_or(a: AppView, has_args: bool, usage: Seq<char>, b: AppView) -> AppView {
    if has_args {
        prompting::complained(a, usage, 3)
    } else {
        b
    }
}

pub open spec fn command_sent(a: AppView, c: CommandView, custom: bool) -> AppView {
    app::with_effect(
        a,
        EffectView::ExecuteCommand { name: c.name, args: c.args, custom },
    )
}

pub open spec fn named_blank(a: AppView, args: Seq<Seq<char>>) -> AppView {
    prompting::blank_session(
        a,
        if args.len() == 0 {
            None
        } else {
            Some(text::join(args, " "@))
        },
    )
}

pub open spec fn dispatched(a: AppView, c: CommandView, f: FactsView) -> AppView {
    match route_of(c.name, c.args.len() > 0, a.base_focus == BaseFocus::Chat, f) {
        CommandRoute::Custom => command_sent(a, c, true),
        CommandRoute::Models => dialogs::models_asked(
            a,
            ModelsTaskKind::Load,
            c.args.len() > 0,
            f.connected,
        ),
        CommandRoute::RefreshModels => dialogs::models_asked(
            a,
            ModelsTaskKind::Refresh,
            c.args.len() > 0,
            f.connected,
        ),
        CommandRoute::CopyActions => dialogs::shown(a, OverlayFocus::CopyActions),
        CommandRoute::Sessions => dialogs::sessions_shown(a),
        CommandRoute::Agents => dialogs::shown(a, OverlayFocus::AgentsDialog),
        CommandRoute::New => named_blank(a, c.args),
        CommandRoute::Home => prompting::blank_session(a, None),
        CommandRoute::Themes => dialogs::themes_shown(a),
        CommandRoute::Skills => dialogs::shown(a, OverlayFocus::SkillsDialog),
        CommandRoute::Mcp => dialogs::shown(a, OverlayFocus::McpDialog),
        CommandRoute::Title => terminal_title::title_shown(a),
        CommandRoute::Remote => usage_or(
            a,
            c.args.len() > 0,
            "Usage: /remote"@,
            dialogs::shown(a, OverlayFocus::RemoteDialog),
        ),
        CommandRoute::Rename => dialogs::rename_shown(a),
        CommandRoute::Timeline => dialogs::timeline_shown(a),
        CommandRoute::Move => usage_or(
            a,
            c.args.len() > 0,
            "Usage: /move"@,
            dialogs::move_shown(a),
        ),
        CommandRoute::Compact => usage_or(
            a,
            c.args.len() > 0,
            "Usage: /compact"@,
            dialogs::compact_commanded(a),
        ),
        CommandRoute::CompactMode => dialogs::compact_mode_set(a, !a.ui.compact_mode),
        CommandRoute::Fork => usage_or(
            a,
            c.args.len() > 0,
            "Usage: /fork"@,
            history::forked(a, None),
        ),
        CommandRoute::Rejected => prompting::complained(
            a,
            "/"@ + c.name + " is only available during chat"@,
            3,
        ),
        CommandRoute::Execute => command_sent(a, c, false),
    }
}

/// A command, remembered and taken.
#[verifier::opaque]
pub open spec fn commanded(a: AppView, c: CommandView, f: FactsView) -> AppView {
    dispatched(app::with_effect(a, EffectView::TouchCommand { name: c.name }), c, f)
}

/// A line of input, whatever it is.
pub open spec fn input_taken(
    a: AppView,
    input: InputTypeView,
    f: FactsView,
    allowed: bool,
) -> AppView {
    match input {
        InputTypeView::Command(c) => commanded(a, c, f),
        InputTypeView::Message(m) => prompting::message_sent(a, m, Seq::empty()),
        InputTypeView::AgentMention(m) => prompting::mentioned(a, m, Seq::empty(), allowed),
    }
}

/// A command can always be sent; anything else waits for the running turn.
pub open spec fn can_go_out(input: InputTypeView, is_streaming: bool) -> bool {
    input is Command || !is_streaming
}

pub fn can_submit_input(input: &InputType, is_streaming: bool) -> (r: bool)
    ensures
        r == can_go_out(input@, is_streaming),
{
    match input {
        InputType::Command(_) => true,
        _ => !is_streaming,
    }
}

/// What the registry made of a command.
#[derive(Debug)]
pub enum CommandResult {
    Success { text: String },
    Error { text: String },
    RunPrompt { prompt: String, agent: Option<String>, model: Option<String> },
    ShowDialog { title: String, items: Vec<DialogItem> },
}

pub enum ResultView {
    Success { text: Seq<char> },
    Error { text: Seq<char> },
    RunPrompt { prompt: Seq<char>, agent: Option<Seq<char>>, model: Option<Seq<char>> },
    ShowDialog { title: Seq<char>, items: Seq<ItemView> },
}

impl View for CommandResult {
    type V = ResultView;

    open spec fn view(&self) -> ResultView {
        match self {
            CommandResult::Success { text } => ResultView::Success { text: text@ },
            CommandResult::Error { text } => ResultView::Error { text: text@ },
            CommandResult::RunPrompt { prompt, agent, model } => ResultView::RunPrompt {
                prompt: prompt@,
                agent: text::opt_view(*agent),
                model: text::opt_view(*model),
            },
            CommandResult::ShowDialog { title, items } => ResultView::ShowDialog {
                title: title@,
                items: ui::item_views(items@),
            },
        }
    }
}

/// What the application itself says, recorded as an answer.
#[verifier::opaque]
pub open spec fn answer_added(a: AppView, t: Seq<char>) -> AppView {
    let m = message::new_message(MessageRole::Assistant, t, true);
    AppView {
        sessions: match dialogs::current_place(a) {
            Some(i) => a.sessions.update(
                i,
                SessionView {
                    messages: a.sessions[i].messages.push(m),
                    updated_at: a.now,
                    ..a.sessions[i]
                },
            ),
            None => a.sessions,
        },
        chat: state::with_messages(a.chat, a.chat.messages.push(m)),
        ..a
    }
}

/// Where the screen stands after a command.
#[verifier::opaque]
pub open spec fn screen_after(a: AppView, name: Seq<char>) -> AppView {
    if name == "new"@ || name == "home"@ {
        AppView {
            chat: state::cleared_chat(a.chat),
            base_focus: BaseFocus::Home,
            last_user_activity: a.now,
            pending_session_title: None,
            current: None,
            ..a
        }
    } else if a.base_focus == BaseFocus::Home && name != "refreshmodels"@ {
        AppView { base_focus: BaseFocus::Chat, ..a }
    } else {
        a
    }
}

pub open spec fn succeeded(a: AppView, name: Seq<char>, t: Seq<char>) -> AppView {
    let b = screen_after(a, name);
    if name == "exit"@ {
        dialogs::has_quit(b)
    } else if t.len() > 0 {
        answer_added(b, t)
    } else {
        b
    }
}

pub open spec fn command_failed(a: AppView, t: Seq<char>) -> AppView {
    if "Unknown command:"@.is_prefix_of(t) {
        prompting::complained(a, t, 3)
    } else {
        answer_added(app::sounded(a, SoundEvent::Error), "Error: "@ + t)
    }
}

pub open spec fn connect_shown(a: AppView) -> AppView {
    dialogs::shown(
        AppView {
            ui: UiView { connect_mode: ConnectDialogMode::ProviderSelection, ..a.ui },
            ..a
        },
        OverlayFocus::ConnectDialog,
    )
}

pub open spec fn listing_shown(a: AppView, title: Seq<char>, items: Seq<ItemView>) -> AppView {
    if title == "Connect a provider"@ {
        connect_shown(a)
    } else if title == "Sessions"@ {
        dialogs::sessions_shown(a)
    } else {
        dialogs::models_shown(a, items)
    }
}

/// What the result of a command does to the application.
pub open spec fn result_applied(
    a: AppView,
    name: Seq<char>,
    custom: bool,
    r: ResultView,
) -> AppView {
    match r {
        ResultView::RunPrompt { prompt, agent, model } => prompting::custom_prompt_run(
            a,
            prompt,
            agent,
            model,
        ),
        ResultView::Error { text } => if custom {
            prompting::complained(a, text, 3)
        } else {
            command_failed(a, text)
        },
        ResultView::Success { text } => if custom {
            a
        } else {
            succeeded(a, name, text)
        },
        ResultView::ShowDialog { title, items } => if custom {
            a
        } else {
            listing_shown(a, title, items)
        },
    }
}

impl App {
    fn send_command(&mut self, c: ParsedCommand, custom: bool)
        ensures
            final(self)@ == command_sent(old(self)@, c@, custom),
    {
        self.push_effect(Effect::ExecuteCommand { name: c.name, args: c.args, custom });
    }

    fn start_named_blank(&mut self, args: &Vec<String>)
        ensures
            final(self)@ == named_blank(old(self)@, text::views(args@)),
    {
        if args.len() == 0 {
            self.start_blank_session(None);
        } else {
            let title = text::join_strings(args, " ");
            self.start_blank_session(Some(title.as_str()));
        }
    }

    pub fn handle_remote_command_args(&mut self, has_args: bool)
        ensures
            final(self)@ == usage_or(
                old(self)@,
                has_args,
                "Usage: /remote"@,
                dialogs::shown(old(self)@, OverlayFocus::RemoteDialog),
            ),
    {
        if has_args {
            self.complain("Usage: /remote", 3);
        } else {
            self.show_dialog(OverlayFocus::RemoteDialog);
        }
    }

    pub fn handle_move_command(&mut self, has_args: bool)
        ensures
            final(self)@ == usage_or(
                old(self)@,
                has_args,
                "Usage: /move"@,
                dialogs::move_shown(old(self)@),
            ),
    {
        if has_args {
            self.complain("Usage: /move", 3);
        } else {
            self.open_move_session_dialog();
        }
    }

    pub fn handle_compact_command(&mut self, has_args: bool)
        ensures
            final(self)@ == usage_or(
                old(self)@,
                has_args,
                "Usage: /compact"@,
                dialogs::compact_commanded(old(self)@),
            ),
    {
        if has_args {
            self.complain("Usage: /compact", 3);
        } else {
            self.compact_current_session();
        }
    }

    pub fn handle_fork_command(&mut self, has_args: bool)
        ensures
            final(self)@ == usage_or(
                old(self)@,
                has_args,
                "Usage: /fork"@,
                history::forked(old(self)@, None),
            ),
    {
        if has_args {
            self.complain("Usage: /fork", 3);
        } else {
            self.fork_current_session(None);
        }
    }

    fn reject_chat_only_command(&mut self, name: &str)
        ensures
            final(self)@ == prompting::complained(
                old(self)@,
                "/"@ + name@ + " is only available during chat"@,
                3,
            ),
    {
        let mut t = "/".to_string();
        t.append(name);
        t.append(" is only available during chat");
        self.complain(t.as_str(), 3);
    }

    fn toggle_compact_mode(&mut self)
        ensures
            final(self)@ == dialogs::compact_mode_set(old(self)@, !old(self)@.ui.compact_mode),
    {
        reveal(<Ui as View>::view);
        let compact = !self.ui.compact_mode;
        self.set_compact_mode(compact);
    }

    fn dispatch(&mut self, c: ParsedCommand, f: &CommandFacts)
        ensures
            final(self)@ == dispatched(old(self)@, c@, f@),
    {
        let has_args = c.args.len() > 0;
        let in_chat = self.base_focus == BaseFocus::Chat;
        let route = command_route(c.name.as_str(), has_args, in_chat, f);
        match route {
            CommandRoute::Custom => self.send_command(c, true),
            CommandRoute::Models => self.start_models_command(
                ModelsTaskKind::Load,
                has_args,
                &f.connected,
            ),
            CommandRoute::RefreshModels => self.start_models_command(
                ModelsTaskKind::Refresh,
                has_args,
                &f.connected,
            ),
            CommandRoute::CopyActions => self.show_dialog(OverlayFocus::CopyActions),
            CommandRoute::Sessions => self.open_sessions_dialog(),
            CommandRoute::Agents => self.show_dialog(OverlayFocus::AgentsDialog),
            CommandRoute::New => self.start_named_blank(&c.args),
            CommandRoute::Home => self.start_blank_session(None),
            CommandRoute::Themes => self.show_themes_dialog(),
            CommandRoute::Skills => self.show_dialog(OverlayFocus::SkillsDialog),
            CommandRoute::Mcp => self.show_dialog(OverlayFocus::McpDialog),
            CommandRoute::Title => self.open_title_dialog(),
            CommandRoute::Remote => self.handle_remote_command_args(has_args),
            CommandRoute::Rename => self.open_rename_dialog(),
            CommandRoute::Timeline => self.open_timeline_dialog(),
            CommandRoute::Move => self.handle_move_command(has_args),
            CommandRoute::Compact => self.handle_compact_command(has_args),
            CommandRoute::CompactMode => self.toggle_compact_mode(),
            CommandRoute::Fork => self.handle_fork_command(has_args),
            CommandRoute::Rejected => self.reject_chat_only_command(c.name.as_str()),
            CommandRoute::Execute => self.send_command(c, false),
        }
    }

    /// Takes a command.
    pub fn process_command_input(&mut self, c: ParsedCommand, f: &CommandFacts)
        ensures
            final(self)@ == commanded(old(self)@, c@, f@),
    {
        reveal(commanded);
        self.push_effect(Effect::TouchCommand { name: c.name.clone() });
        self.dispatch(c, f);
    }

    /// Takes a line of input.
    pub fn process_input(&mut self, input: InputType, f: &CommandFacts, allowed: bool)
        ensures
            final(self)@ == input_taken(old(self)@, input@, f@, allowed),
    {
        let none: Vec<String> = Vec::new();
        assert(text::views(none@) =~= Seq::<Seq<char>>::empty());
        match input {
            InputType::Command(c) => self.process_command_input(c, f),
            InputType::Message(m) => self.handle_message_input_with_images(m.as_str(), &none),
            InputType::AgentMention(m) => {
                self.handle_agent_mention_input(&m, &none, allowed);
            },
        }
    }

    fn save_answer(&mut self, i: usize, m: Message)
        requires
            i < old(self).sessions@.len(),
        ensures
            final(self)@ == (AppView {
                sessions: old(self)@.sessions.update(
                    i as int,
                    SessionView {
                        messages: old(self)@.sessions[i as int].messages.push(m@),
                        updated_at: old(self)@.now,
                        ..old(self)@.sessions[i as int]
                    },
                ),
                ..old(self)@
            }),
    {
        let ghost before = self.sessions@;
        let ghost said = self.sessions@[i as int].messages@;
        self.sessions[i].messages.push(m);
        self.sessions[i].updated_at = self.now;
        proof {
            assert(message::messages_view(said.push(m)) =~= message::messages_view(said).push(m@));
            assert(self.sessions@ =~= before.update(i as int, self.sessions@[i as int]));
            app::lemma_sessions_update(before, i as int, self.sessions@[i as int]);
        }
    }

    fn add_answer(&mut self, t: &str)
        ensures
            final(self)@ == answer_added(old(self)@, t@),
    {
        reveal(answer_added);
        match self.find_current_session() {
            Some(i) => {
                self.save_answer(i, Message::assistant(t));
            },
            None => {},
        }
        self.chat.add_message(Message::assistant(t));
    }

    fn leave_for_home(&mut self)
        ensures
            final(self)@ == (AppView {
                chat: state::cleared_chat(old(self)@.chat),
                base_focus: BaseFocus::Home,
                last_user_activity: old(self)@.now,
                pending_session_title: None,
                current: None,
                ..old(self)@
            }),
    {
        self.chat.clear();
        self.base_focus = BaseFocus::Home;
        self.note_user_activity();
        self.pending_session_title = None;
        self.current = None;
    }

    fn settle_screen(&mut self, name: &str)
        ensures
            final(self)@ == screen_after(old(self)@, name@),
    {
        reveal(screen_after);
        if text::same(name, "new") || text::same(name, "home") {
            self.leave_for_home();
            return ;
        }
        if self.base_focus == BaseFocus::Home && !text::same(name, "refreshmodels") {
            self.base_focus = BaseFocus::Chat;
        }
    }

    fn command_succeeded(&mut self, name: &str, t: &str)
        ensures
            final(self)@ == succeeded(old(self)@, name@, t@),
    {
        self.settle_screen(name);
        if text::same(name, "exit") {
            self.quit();
            return ;
        }
        if !t.is_empty() {
            self.add_answer(t);
        }
    }

    fn command_erred(&mut self, t: &str)
        ensures
            final(self)@ == command_failed(old(self)@, t@),
    {
        if text::starts_with(t, "Unknown command:") {
            self.complain(t, 3);
            return ;
        }
        self.play_sound_event(SoundEvent::Error);
        let mut told = "Error: ".to_string();
        told.append(t);
        self.add_answer(told.as_str());
    }

    pub fn show_connect_dialog(&mut self)
        ensures
            final(self)@ == connect_shown(old(self)@),
    {
        reveal(<Ui as View>::view);
        self.ui.connect_mode = ConnectDialogMode::ProviderSelection;
        self.show_dialog(OverlayFocus::ConnectDialog);
    }

    fn show_listing(&mut self, title: &str, items: Vec<DialogItem>)
        ensures
            final(self)@ == listing_shown(old(self)@, title@, ui::item_views(items@)),
    {
        if text::same(title, "Connect a provider") {
            self.show_connect_dialog();
            return ;
        }
        if text::same(title, "Sessions") {
            self.open_sessions_dialog();
            return ;
        }
        self.show_models_dialog(items);
    }

    /// Acts on what a command came to.
    pub fn apply_command_result(&mut self, name: &str, custom: bool, result: CommandResult)
        ensures
            final(self)@ == result_applied(old(self)@, name@, custom, result@),
    {
        match result {
            CommandResult::RunPrompt { prompt, agent, model } => {
                self.run_custom_command_prompt(prompt.as_str(), agent, model);
            },
            CommandResult::Error { text } => {
                if custom {
                    self.complain(text.as_str(), 3);
                } else {
                    self.command_erred(text.as_str());
                }
            },
            CommandResult::Success { text } => {
                if !custom {
                    self.command_succeeded(name, text.as_str());
                }
            },
            CommandResult::ShowDialog { title, items } => {
                if !custom {
                    self.show_listing(title.as_str(), items);
                }
            },
        }
    }
}

/// Whether a remote client can take over: nothing is under way.
pub open spec fn is_idle(a: AppView) -> bool {
    !a.is_streaming && a.compaction is None && !terminal_title::any_streams(a.clients)
}

pub open spec fn launch_blocked(a: AppView) -> AppView {
    app::toasted(
        a,
        ToastLevel::Warning,
        "Wait for the current response to finish before starting remote mode"@,
        3,
    )
}

pub open spec fn launched(a: AppView, r: LaunchView) -> AppView {
    if is_idle(a) {
        dialogs::has_quit(
            dialogs::blurred(AppView { ui: UiView { remote_launch: Some(r), ..a.ui }, ..a }),
        )
    } else {
        launch_blocked(a)
    }
}

impl App {
    pub fn can_launch_remote_now(&self) -> (r: bool)
        ensures
            r == is_idle(self@),
    {
        !self.is_streaming && self.compaction.is_none() && !terminal_title::has_any_stream(
            &self.clients,
        )
    }

    pub fn block_remote_launch(&mut self)
        ensures
            final(self)@ == launch_blocked(old(self)@),
    {
        self.push_toast(
            ToastLevel::Warning,
            "Wait for the current response to finish before starting remote mode",
            3,
        );
    }

    fn set_remote_launch(&mut self, request: RemoteLaunchRequest)
        ensures
            final(self)@ == (AppView {
                ui: UiView { remote_launch: Some(ui::launch_view(request)), ..old(self)@.ui },
                ..old(self)@
            }),
    {
        reveal(<Ui as View>::view);
        self.ui.remote_launch = Some(request);
    }

    /// Asks for a remote client in the place of this one.
    pub fn submit_remote_launch(&mut self, request: RemoteLaunchRequest)
        ensures
            final(self)@ == launched(old(self)@, ui::launch_view(request)),
    {
        if !self.can_launch_remote_now() {
            self.block_remote_launch();
            return ;
        }
        self.set_remote_launch(request);
        self.blur();
        self.quit();
    }

    pub fn take_remote_launch_request(&mut self) -> (r: Option<RemoteLaunchRequest>)
        ensures
            ui::opt_launch(r) == old(self)@.ui.remote_launch,
            final(self)@ == (AppView {
                ui: UiView { remote_launch: None, ..old(self)@.ui },
                ..old(self)@
            }),
    {
        reveal(<Ui as View>::view);
        let mut taken: Option<RemoteLaunchRequest> = None;
        std::mem::swap(&mut taken, &mut self.ui.remote_launch);
        taken
    }
}

/// A command of the user's own is theirs, whatever the application calls by that name.
pub proof fn law_custom_commands_come_first(
    name: Seq<char>,
    has_args: bool,
    in_chat: bool,
    f: FactsView,
)
    requires
        f.custom,
    ensures
        route_of(name, has_args, in_chat, f) == CommandRoute::Custom,
{
}

/// Outside a chat no command that belongs to one is taken.
pub proof fn law_chat_commands_stay_in_the_chat(name: Seq<char>, has_args: bool, f: FactsView)
    requires
        f.chat_only,
        !f.custom,
        plain_route(name) is None,
    ensures
        route_of(name, has_args, false, f) == CommandRoute::Rejected,
{
}

/// A remote client takes over only when nothing is under way, and the request is handed out
/// once.
pub proof fn law_launch_needs_rest(a: AppView, r: LaunchView)
    ensures
        launched(a, r).ui.remote_launch != a.ui.remote_launch ==> is_idle(a),
        is_idle(a) ==> launched(a, r).ui.remote_launch == Some(r) && !launched(a, r).running,
{
}

} // verus!

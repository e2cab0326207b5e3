//! More of what is chosen in the dialogs.

use crate::answers;
use crate::app;
use crate::app::{App, AppView};
use crate::commands;
use crate::commands::{CommandFacts, CommandView, FactsView, ParsedCommand};
use crate::dialogs;
use crate::events;
use crate::focus::OverlayFocus;
use crate::history;
use crate::navigation;
use crate::prompting;
use crate::requests;
use crate::session;
use crate::session::{SessionView, Workspace, WorkspaceView};
use crate::state;
use crate::state::{ChatView, Effect, EffectView, PermissionResponse, ToastLevel};
use crate::text;
use crate::ui;
use crate::ui::{LaunchView, RemoteLaunchRequest, Ui, UiView};
use vstd::prelude::*;
use vstd::string::*;

verus! {

/// What was done in the dialog that renames a session.
#[derive(Debug)]
pub enum RenameAnswer {
    Handled,
    NotHandled,
    Cancel,
    Submit { id: String, title: String },
}

pub enum RenameAnswerView {
    Handled,
    NotHandled,
    Cancel,
    Submit { id: Seq<char>, title: Seq<char> },
}

impl View for RenameAnswer {
    type V = RenameAnswerView;

    open spec fn view(&self) -> RenameAnswerView {
        match self {
            RenameAnswer::Handled => RenameAnswerView::Handled,
            RenameAnswer::NotHandled => RenameAnswerView::NotHandled,
            RenameAnswer::Cancel => RenameAnswerView::Cancel,
            RenameAnswer::Submit { id, title } => RenameAnswerView::Submit {
                id: id@,
                title: title@,
            },
        }
    }
}

#[verifier::opaque]
pub open spec fn renamed(a: AppView, id: Seq<char>, title: Seq<char>) -> AppView {
    match session::session_at(a.sessions, id) {
        Some(i) => answers::with_session(a, i, SessionView { title, ..a.sessions[i] }),
        None => a,
    }
}

pub open spec fn rename_answered(a: AppView, answer: RenameAnswerView, visible: bool) -> AppView {
    match answer {
        RenameAnswerView::Handled => a,
        RenameAnswerView::NotHandled => a,
        RenameAnswerView::Cancel => if visible {
            a
        } else {
            AppView { overlay_focus: OverlayFocus::SessionsDialog, ..a }
        },
        RenameAnswerView::Submit { id, title } => dialogs::sessions_shown(renamed(a, id, title)),
    }
}

pub open spec fn rename_takes(answer: RenameAnswerView) -> bool {
    answer is Handled || answer is Submit
}

/// What was done in the dialog that moves a session.
#[derive(Debug)]
pub enum MoveAnswer {
    Nothing,
    Close,
    To { workspace: Workspace, stored: Result<bool, String> },
}

pub enum MoveAnswerView {
    Nothing,
    Close,
    To { workspace: WorkspaceView, stored: Result<bool, Seq<char>> },
}

impl View for MoveAnswer {
    type V = MoveAnswerView;

    open spec fn view(&self) -> MoveAnswerView {
        match self {
            MoveAnswer::Nothing => MoveAnswerView::Nothing,
            MoveAnswer::Close => MoveAnswerView::Close,
            MoveAnswer::To { workspace, stored } => MoveAnswerView::To {
                workspace: workspace@,
                stored: answers::stored(*stored),
            },
        }
    }
}

/// A session in another workspace.
pub open spec fn relocated(s: SessionView, w: WorkspaceView) -> SessionView {
    SessionView {
        workspace_id: w.id,
        workspace_path: w.path,
        workspace_name: w.name,
        workspace_sort_order: w.sort_order,
        ..s
    }
}

#[verifier::opaque]
pub open spec fn moved(a: AppView, w: WorkspaceView) -> AppView {
    match dialogs::current_place(a) {
        Some(i) => answers::with_session(a, i, relocated(a.sessions[i], w)),
        None => a,
    }
}

#[verifier::opaque]
pub open spec fn move_told(
    a: AppView,
    w: WorkspaceView,
    stored: Result<bool, Seq<char>>,
) -> AppView {
    if a.current is None {
        prompting::complained(a, "No active session to move"@, 3)
    } else {
        match stored {
            Ok(done) => if done {
                app::toasted(app::relisted(moved(a, w)), ToastLevel::Info, "Session moved"@, 3)
            } else {
                a
            },
            Err(why) => prompting::complained(a, "Failed to move session: "@ + why, 3),
        }
    }
}

pub open spec fn move_answered(a: AppView, answer: MoveAnswerView) -> AppView {
    match answer {
        MoveAnswerView::Nothing => a,
        MoveAnswerView::Close => dialogs::blurred(a),
        MoveAnswerView::To { workspace, stored } => move_told(
            dialogs::blurred(a),
            workspace,
            stored,
        ),
    }
}

/// What was done in the dialog that starts a remote client.
#[derive(Debug)]
pub enum RemoteAnswer {
    Handled,
    NotHandled,
    Cancel,
    Blocked,
    Submit { request: RemoteLaunchRequest },
}

pub enum RemoteAnswerView {
    Handled,
    NotHandled,
    Cancel,
    Blocked,
    Submit { request: LaunchView },
}

impl View for RemoteAnswer {
    type V = RemoteAnswerView;

    open spec fn view(&self) -> RemoteAnswerView {
        match self {
            RemoteAnswer::Handled => RemoteAnswerView::Handled,
            RemoteAnswer::NotHandled => RemoteAnswerView::NotHandled,
            RemoteAnswer::Cancel => RemoteAnswerView::Cancel,
            RemoteAnswer::Blocked => RemoteAnswerView::Blocked,
            RemoteAnswer::Submit { request } => RemoteAnswerView::Submit {
                request: ui::launch_view(*request),
            },
        }
    }
}

pub open spec fn remote_answered(a: AppView, answer: RemoteAnswerView) -> AppView {
    match answer {
        RemoteAnswerView::Handled => a,
        RemoteAnswerView::NotHandled => a,
        RemoteAnswerView::Cancel => dialogs::blurred(a),
        RemoteAnswerView::Blocked => commands::launch_blocked(a),
        RemoteAnswerView::Submit { request } => commands::launched(a, request),
    }
}

/// What was done to a permission request.
#[derive(Debug, Clone, Copy, PartialEq, Eq, Structural)]
pub enum PermissionAnswer {
    Handled,
    NotHandled,
    Respond { response: PermissionResponse },
}

pub open spec fn permission_settled(a: AppView, answer: PermissionAnswer) -> AppView {
    match answer {
        PermissionAnswer::Respond { response } => requests::permission_answered(a, response),
        _ => a,
    }
}

/// What was done to a question.
#[derive(Debug, Clone, Copy, PartialEq, Eq, Structural)]
pub enum QuestionAnswer {
    Handled,
    NotHandled,
    Submit,
    Cancel,
}

/// A question settled; turned down with the mouse, whatever waits next is shown, and from the
/// keyboard the search gets it back.
pub open spec fn question_settled(a: AppView, answer: QuestionAnswer, mouse: bool) -> AppView {
    match answer {
        QuestionAnswer::Submit => requests::question_answered(a),
        QuestionAnswer::Cancel => if mouse {
            requests::question_cancelled(a)
        } else {
            requests::question_left(a)
        },
        _ => a,
    }
}

/// What was done in the list of servers: one was switched, with what became of it.
pub open spec fn mcp_answered(
    a: AppView,
    switched: Option<Result<(), Seq<char>>>,
    visible: bool,
) -> AppView {
    match switched {
        Some(r) => match r {
            Ok(_) => answers::unless_visible(
                app::with_effect(a, EffectView::ShowDialog { dialog: OverlayFocus::McpDialog }),
                true,
            ),
            Err(why) => answers::unless_visible(
                prompting::complained(a, "Failed to toggle MCP server: "@ + why, 3),
                visible,
            ),
        },
        None => answers::unless_visible(a, visible),
    }
}

pub open spec fn opt_stored(r: Option<Result<(), String>>) -> Option<Result<(), Seq<char>>> {
    match r {
        Some(x) => Some(answers::stored(x)),
        None => None,
    }
}

/// What was done in the timeline.
#[derive(Debug, Clone, Copy, PartialEq, Eq, Structural)]
pub enum TimelineAnswer {
    Handled,
    NotHandled,
    Close,
    Select { index: usize },
    Navigate { index: usize },
}

pub open spec fn timeline_answered(a: AppView, answer: TimelineAnswer) -> AppView {
    match answer {
        TimelineAnswer::Handled => a,
        TimelineAnswer::NotHandled => a,
        TimelineAnswer::Close => dialogs::blurred(dialogs::highlighted(a, None)),
        TimelineAnswer::Select { index } => history::actions_shown(
            dialogs::message_visited(a, index),
            index,
            OverlayFocus::TimelineDialog,
        ),
        TimelineAnswer::Navigate { index } => dialogs::message_visited(a, index),
    }
}

/// What was done in a dialog of actions.
#[derive(Debug)]
pub enum ActionAnswer {
    Nothing,
    Close,
    Chosen { action: String },
}

pub enum ActionAnswerView {
    Nothing,
    Close,
    Chosen { action: Seq<char> },
}

impl View for ActionAnswer {
    type V = ActionAnswerView;

    open spec fn view(&self) -> ActionAnswerView {
        match self {
            ActionAnswer::Nothing => ActionAnswerView::Nothing,
            ActionAnswer::Close => ActionAnswerView::Close,
            ActionAnswer::Chosen { action } => ActionAnswerView::Chosen { action: action@ },
        }
    }
}

pub open spec fn copy_answered(
    a: AppView,
    answer: ActionAnswerView,
    durations: Seq<Seq<char>>,
) -> AppView {
    match answer {
        ActionAnswerView::Nothing => a,
        ActionAnswerView::Close => dialogs::blurred(a),
        ActionAnswerView::Chosen { action } => history::copy_done(a, action, durations),
    }
}

pub open spec fn actions_answered(a: AppView, answer: ActionAnswerView) -> AppView {
    match answer {
        ActionAnswerView::Nothing => a,
        ActionAnswerView::Close => history::actions_closed(a),
        ActionAnswerView::Chosen { action } => history::action_done(a, action),
    }
}

/// The actions of the palette that are no commands.
#[derive(Debug, Clone, Copy, PartialEq, Eq, Structural)]
pub enum PaletteAction {
    ToggleAgentMode,
    OpenAgentsDialog,
    OpenFind,
    SetThinkingVisible { visible: bool },
    CycleReasoningEffort,
    SetCompactMode { enabled: bool },
    OpenStorage,
    OpenSkillsDialog,
    OpenMcpDialog,
}

#[derive(Debug)]
pub enum PaletteAnswer {
    Nothing,
    Command { command: ParsedCommand },
    Action { action: PaletteAction },
}

pub enum PaletteAnswerView {
    Nothing,
    Command { command: CommandView },
    Action { action: PaletteAction },
}

impl View for PaletteAnswer {
    type V = PaletteAnswerView;

    open spec fn view(&self) -> PaletteAnswerView {
        match self {
            PaletteAnswer::Nothing => PaletteAnswerView::Nothing,
            PaletteAnswer::Command { command } => PaletteAnswerView::Command {
                command: command@,
            },
            PaletteAnswer::Action { action } => PaletteAnswerView::Action { action: *action },
        }
    }
}

pub open spec fn thinking_set(a: AppView, visible: bool) -> AppView {
    AppView { chat: ChatView { thinking_visible: visible, ..a.chat }, ..a }
}

pub open spec fn active_effort_cycled(a: AppView) -> AppView {
    dialogs::effort_cycled(a, a.provider_name, a.model, true, false)
}

pub open spec fn palette_action_done(a: AppView, action: PaletteAction) -> AppView {
    match action {
        PaletteAction::ToggleAgentMode => dialogs::agent_toggled(a),
        PaletteAction::OpenAgentsDialog => dialogs::shown(a, OverlayFocus::AgentsDialog),
        PaletteAction::OpenFind => dialogs::find_opened(a),
        PaletteAction::SetThinkingVisible { visible } => thinking_set(a, visible),
        PaletteAction::CycleReasoningEffort => active_effort_cycled(a),
        PaletteAction::SetCompactMode { enabled } => dialogs::compact_mode_set(a, enabled),
        PaletteAction::OpenStorage => dialogs::storage_shown(a),
        PaletteAction::OpenSkillsDialog => dialogs::shown(a, OverlayFocus::SkillsDialog),
        PaletteAction::OpenMcpDialog => dialogs::shown(a, OverlayFocus::McpDialog),
    }
}

#[verifier::opaque]
pub open spec fn palette_chosen(a: AppView, answer: PaletteAnswerView, f: FactsView) -> AppView {
    match answer {
        PaletteAnswerView::Nothing => a,
        PaletteAnswerView::Command { command } => dialogs::suggestions_blurred(
            commands::commanded(dialogs::blurred(a), command, f),
        ),
        PaletteAnswerView::Action { action } => dialogs::suggestions_blurred(
            palette_action_done(dialogs::blurred(a), action),
        ),
    }
}

/// A dialog gone from the screen, if it is no longer visible and no other has taken its place.
pub open spec fn unless_kept(a: AppView, dialog: OverlayFocus, visible: bool) -> AppView {
    if !visible && a.overlay_focus == dialog {
        dialogs::blurred(a)
    } else {
        a
    }
}

pub open spec fn palette_answered(
    a: AppView,
    answer: PaletteAnswerView,
    f: FactsView,
    visible: bool,
) -> AppView {
    unless_kept(palette_chosen(a, answer, f), OverlayFocus::CommandPalette, visible)
}

/// What was done in the dialog of the storage.
#[derive(Debug)]
pub enum StorageAnswer {
    Nothing,
    Close,
    Refresh,
    Open { path: Option<String> },
}

pub enum StorageAnswerView {
    Nothing,
    Close,
    Refresh,
    Open { path: Option<Seq<char>> },
}

impl View for StorageAnswer {
    type V = StorageAnswerView;

    open spec fn view(&self) -> StorageAnswerView {
        match self {
            StorageAnswer::Nothing => StorageAnswerView::Nothing,
            StorageAnswer::Close => StorageAnswerView::Close,
            StorageAnswer::Refresh => StorageAnswerView::Refresh,
            StorageAnswer::Open { path } => StorageAnswerView::Open {
                path: text::opt_view(*path),
            },
        }
    }
}

pub open spec fn folder_opened(a: AppView, path: Option<Seq<char>>) -> AppView {
    match path {
        Some(p) => app::with_effect(a, EffectView::OpenFolder { path: p }),
        None => app::toasted(
            a,
            ToastLevel::Warning,
            "Storage location is not available yet"@,
            3,
        ),
    }
}

pub open spec fn storage_chosen(a: AppView, answer: StorageAnswerView) -> AppView {
    match answer {
        StorageAnswerView::Nothing => a,
        StorageAnswerView::Close => dialogs::blurred(a),
        StorageAnswerView::Refresh => dialogs::storage_check_started(a),
        StorageAnswerView::Open { path } => folder_opened(a, path),
    }
}

pub open spec fn storage_answered(a: AppView, answer: StorageAnswerView, visible: bool) -> AppView {
    unless_kept(storage_chosen(a, answer), OverlayFocus::StorageDialog, visible)
}

/// The keys that follow the leader key.
#[derive(Debug, Clone, Copy, PartialEq, Eq, Structural)]
pub enum WhichKeyAction {
    ShowModels,
    ShowThemes,
    ShowSessions,
    ShowTimeline,
    ToggleThinking,
    GoChild,
    GoParent,
    PreviousChild,
    NextChild,
    NewSession,
    Quit,
    ScrollUp,
    ScrollDown,
    Nothing,
}

pub open spec fn plain_command(a: AppView, name: Seq<char>, f: FactsView) -> AppView {
    commands::commanded(a, CommandView { name, args: Seq::empty() }, f)
}

pub open spec fn which_key_done(a: AppView, action: WhichKeyAction, f: FactsView) -> AppView {
    match action {
        WhichKeyAction::ShowModels => plain_command(a, "models"@, f),
        WhichKeyAction::ShowThemes => plain_command(a, "themes"@, f),
        WhichKeyAction::ShowSessions => plain_command(a, "sessions"@, f),
        WhichKeyAction::ShowTimeline => dialogs::timeline_shown(a),
        WhichKeyAction::ToggleThinking => thinking_set(a, !a.chat.thinking_visible),
        WhichKeyAction::GoChild => navigation::gone_to(a, navigation::target_child(a)),
        WhichKeyAction::GoParent => navigation::gone_to(a, navigation::target_parent(a)),
        WhichKeyAction::PreviousChild => navigation::gone_to(
            a,
            navigation::target_sibling(a, false),
        ),
        WhichKeyAction::NextChild => navigation::gone_to(a, navigation::target_sibling(a, true)),
        WhichKeyAction::NewSession => plain_command(a, "new"@, f),
        WhichKeyAction::Quit => dialogs::has_quit(a),
        WhichKeyAction::ScrollUp => app::with_effect(a, EffectView::ScrollChat { down: false }),
        WhichKeyAction::ScrollDown => app::with_effect(a, EffectView::ScrollChat { down: true }),
        WhichKeyAction::Nothing => a,
    }
}

/// The action of a key after the leader key, which closes its list first.
pub open spec fn which_key_answered(a: AppView, action: WhichKeyAction, f: FactsView) -> AppView {
    which_key_done(dialogs::blurred(a), action, f)
}

/// What was done in the search bar.
#[derive(Debug)]
pub enum FindAnswer {
    Commit { query: String },
    Go { forward: bool, matches: usize, query: String },
    Close,
    Edited { changed: bool },
}

pub enum FindAnswerView {
    Commit { query: Seq<char> },
    Go { forward: bool, matches: usize, query: Seq<char> },
    Close,
    Edited { changed: bool },
}

impl View for FindAnswer {
    type V = FindAnswerView;

    open spec fn view(&self) -> FindAnswerView {
        match self {
            FindAnswer::Commit { query } => FindAnswerView::Commit { query: query@ },
            FindAnswer::Go { forward, matches, query } => FindAnswerView::Go {
                forward: *forward,
                matches: *matches,
                query: query@,
            },
            FindAnswer::Close => FindAnswerView::Close,
            FindAnswer::Edited { changed } => FindAnswerView::Edited { changed: *changed },
        }
    }
}

pub open spec fn searched(a: AppView, query: Seq<char>) -> AppView {
    if text::is_blank(query) {
        app::with_effect(a, EffectView::ClearSearch)
    } else {
        app::with_effect(a, EffectView::Search { query })
    }
}

/// What is done in the search bar; a query with no match is looked up again.
pub open spec fn find_answered(a: AppView, answer: FindAnswerView) -> AppView {
    match answer {
        FindAnswerView::Commit { query } => searched(a, query),
        FindAnswerView::Go { forward, matches, query } => if matches == 0 && query.len() > 0 {
            searched(a, query)
        } else {
            app::with_effect(a, EffectView::NextMatch { forward })
        },
        FindAnswerView::Close => dialogs::find_closed(a),
        FindAnswerView::Edited { changed } => if changed {
            app::with_effect(a, EffectView::ClearSearch)
        } else {
            a
        },
    }
}

impl App {
    pub fn rename_session(&mut self, id: &str, title: String)
        ensures
            final(self)@ == renamed(old(self)@, id@, title@),
    {
        reveal(renamed);
        match session::find_session(&self.sessions, id) {
            Some(i) => {
                let ghost before = self.sessions@;
                self.sessions[i].title = title;
                proof {
                    assert(self.sessions@ =~= before.update(i as int, self.sessions@[i as int]));
                    app::lemma_sessions_update(before, i as int, self.sessions@[i as int]);
                }
            },
            None => {},
        }
    }

    pub fn answer_rename(&mut self, answer: RenameAnswer, visible: bool) -> (r: bool)
        ensures
            r == rename_takes(answer@),
            final(self)@ == rename_answered(old(self)@, answer@, visible),
    {
        match answer {
            RenameAnswer::Handled => true,
            RenameAnswer::NotHandled => false,
            RenameAnswer::Cancel => {
                if !visible {
                    self.overlay_focus = OverlayFocus::SessionsDialog;
                }
                false
            },
            RenameAnswer::Submit { id, title } => {
                self.rename_session(id.as_str(), title);
                self.open_sessions_dialog();
                true
            },
        }
    }

    fn move_current(&mut self, w: Workspace)
        ensures
            final(self)@ == moved(old(self)@, w@),
    {
        reveal(moved);
        match self.find_current_session() {
            Some(i) => {
                let ghost before = self.sessions@;
                self.sessions[i].workspace_id = w.id;
                self.sessions[i].workspace_path = w.path;
                self.sessions[i].workspace_name = w.name;
                self.sessions[i].workspace_sort_order = w.sort_order;
                proof {
                    assert(self.sessions@ =~= before.update(i as int, self.sessions@[i as int]));
                    app::lemma_sessions_update(before, i as int, self.sessions@[i as int]);
                }
            },
            None => {},
        }
    }

    fn tell_move(&mut self, w: Workspace, stored: Result<bool, String>)
        ensures
            final(self)@ == move_told(old(self)@, w@, answers::stored(stored)),
    {
        reveal(move_told);
        if self.current.is_none() {
            self.complain("No active session to move", 3);
            return ;
        }
        match stored {
            Ok(done) => {
                if done {
                    self.move_current(w);
                    self.refresh_sessions_dialog();
                    self.push_toast(ToastLevel::Info, "Session moved", 3);
                }
            },
            Err(why) => {
                let mut t = "Failed to move session: ".to_string();
                t.append(why.as_str());
                self.complain(t.as_str(), 3);
            },
        }
    }

    pub fn handle_move_session_dialog_action(&mut self, answer: MoveAnswer) -> (r: bool)
        ensures
            r == !(answer@ is Nothing),
            final(self)@ == move_answered(old(self)@, answer@),
    {
        match answer {
            MoveAnswer::Nothing => false,
            MoveAnswer::Close => {
                self.blur();
                true
            },
            MoveAnswer::To { workspace, stored } => {
                self.blur();
                self.tell_move(workspace, stored);
                true
            },
        }
    }

    pub fn handle_remote_dialog_action(&mut self, answer: RemoteAnswer) -> (r: bool)
        ensures
            r == !(answer@ is NotHandled),
            final(self)@ == remote_answered(old(self)@, answer@),
    {
        match answer {
            RemoteAnswer::Handled => true,
            RemoteAnswer::NotHandled => false,
            RemoteAnswer::Cancel => {
                self.blur();
                true
            },
            RemoteAnswer::Blocked => {
                self.block_remote_launch();
                true
            },
            RemoteAnswer::Submit { request } => {
                self.submit_remote_launch(request);
                true
            },
        }
    }

    pub fn answer_permission(&mut self, answer: PermissionAnswer)
        ensures
            final(self)@ == permission_settled(old(self)@, answer),
    {
        match answer {
            PermissionAnswer::Respond { response } => {
                self.remote_respond_permission(response);
            },
            _ => {},
        }
    }

    pub fn answer_question(&mut self, answer: QuestionAnswer, mouse: bool)
        ensures
            final(self)@ == question_settled(old(self)@, answer, mouse),
    {
        match answer {
            QuestionAnswer::Submit => {
                self.remote_answer_question();
            },
            QuestionAnswer::Cancel => {
                if mouse {
                    self.remote_cancel_question();
                } else {
                    self.leave_question();
                }
            },
            _ => {},
        }
    }

    fn hide_if(&mut self, visible: bool)
        ensures
            final(self)@ == answers::unless_visible(old(self)@, visible),
    {
        if !visible {
            self.overlay_focus = OverlayFocus::Nothing;
        }
    }

    pub fn answer_mcp(&mut self, switched: Option<Result<(), String>>, visible: bool)
        ensures
            final(self)@ == mcp_answered(old(self)@, opt_stored(switched), visible),
    {
        match switched {
            Some(Ok(_)) => {
                self.push_effect(Effect::ShowDialog { dialog: OverlayFocus::McpDialog });
            },
            Some(Err(why)) => {
                let mut t = "Failed to toggle MCP server: ".to_string();
                t.append(why.as_str());
                self.complain(t.as_str(), 3);
                self.hide_if(visible);
            },
            None => {
                self.hide_if(visible);
            },
        }
    }

    fn leave_timeline_dialog(&mut self)
        ensures
            final(self)@ == dialogs::blurred(dialogs::highlighted(old(self)@, None)),
    {
        self.chat.highlighted = None;
        self.overlay_focus = OverlayFocus::Nothing;
    }

    pub fn answer_timeline(&mut self, answer: TimelineAnswer) -> (r: bool)
        ensures
            r == (answer != TimelineAnswer::NotHandled),
            final(self)@ == timeline_answered(old(self)@, answer),
    {
        match answer {
            TimelineAnswer::Handled => true,
            TimelineAnswer::NotHandled => false,
            TimelineAnswer::Close => {
                self.leave_timeline_dialog();
                true
            },
            TimelineAnswer::Select { index } => {
                self.visit_message(index);
                self.show_message_actions_from(index, OverlayFocus::TimelineDialog);
                true
            },
            TimelineAnswer::Navigate { index } => {
                self.visit_message(index);
                true
            },
        }
    }

    pub fn handle_copy_actions_event(&mut self, answer: ActionAnswer, durations: &Vec<String>)
        ensures
            final(self)@ == copy_answered(old(self)@, answer@, text::views(durations@)),
    {
        match answer {
            ActionAnswer::Nothing => {},
            ActionAnswer::Close => {
                self.blur();
            },
            ActionAnswer::Chosen { action } => {
                self.execute_copy_action(action.as_str(), durations);
            },
        }
    }

    pub fn answer_message_actions(&mut self, answer: ActionAnswer)
        ensures
            final(self)@ == actions_answered(old(self)@, answer@),
    {
        match answer {
            ActionAnswer::Nothing => {},
            ActionAnswer::Close => {
                self.close_message_actions();
            },
            ActionAnswer::Chosen { action } => {
                self.execute_message_action(action.as_str());
            },
        }
    }

    fn set_thinking_visible(&mut self, visible: bool)
        ensures
            final(self)@ == thinking_set(old(self)@, visible),
    {
        self.chat.thinking_visible = visible;
    }

    pub fn cycle_active_reasoning_effort(&mut self) -> (r: bool)
        ensures
            r == dialogs::has_efforts(old(self)@, old(self)@.provider_name, old(self)@.model),
            final(self)@ == active_effort_cycled(old(self)@),
    {
        let provider = self.provider_name.clone();
        let model = self.model.clone();
        self.cycle_reasoning_effort_for_model(provider.as_str(), model.as_str(), true, false)
    }

    fn do_palette_action(&mut self, action: PaletteAction)
        ensures
            final(self)@ == palette_action_done(old(self)@, action),
    {
        match action {
            PaletteAction::ToggleAgentMode => self.toggle_agent_mode(),
            PaletteAction::OpenAgentsDialog => self.show_dialog(OverlayFocus::AgentsDialog),
            PaletteAction::OpenFind => self.open_find_bar(),
            PaletteAction::SetThinkingVisible { visible } => self.set_thinking_visible(visible),
            PaletteAction::CycleReasoningEffort => {
                self.cycle_active_reasoning_effort();
            },
            PaletteAction::SetCompactMode { enabled } => self.set_compact_mode(enabled),
            PaletteAction::OpenStorage => self.open_storage_dialog(),
            PaletteAction::OpenSkillsDialog => self.show_dialog(OverlayFocus::SkillsDialog),
            PaletteAction::OpenMcpDialog => self.show_dialog(OverlayFocus::McpDialog),
        }
    }

    pub fn handle_command_palette_action(&mut self, answer: PaletteAnswer, f: &CommandFacts)
        ensures
            final(self)@ == palette_chosen(old(self)@, answer@, f@),
    {
        reveal(palette_chosen);
        match answer {
            PaletteAnswer::Nothing => {},
            PaletteAnswer::Command { command } => {
                self.blur();
                self.process_command_input(command, f);
                self.clear_suggestions_and_blur();
            },
            PaletteAnswer::Action { action } => {
                self.blur();
                self.do_palette_action(action);
                self.clear_suggestions_and_blur();
            },
        }
    }

    fn hide_kept(&mut self, dialog: OverlayFocus, visible: bool)
        ensures
            final(self)@ == unless_kept(old(self)@, dialog, visible),
    {
        if !visible && self.overlay_focus == dialog {
            self.overlay_focus = OverlayFocus::Nothing;
        }
    }

    pub fn answer_palette(&mut self, answer: PaletteAnswer, f: &CommandFacts, visible: bool)
        ensures
            final(self)@ == palette_answered(old(self)@, answer@, f@, visible),
    {
        self.handle_command_palette_action(answer, f);
        self.hide_kept(OverlayFocus::CommandPalette, visible);
    }

    fn open_storage_category(&mut self, path: Option<String>)
        ensures
            final(self)@ == folder_opened(old(self)@, text::opt_view(path)),
    {
        match path {
            Some(path) => {
                self.push_effect(Effect::OpenFolder { path });
            },
            None => {
                self.push_toast(ToastLevel::Warning, "Storage location is not available yet", 3);
            },
        }
    }

    fn handle_storage_dialog_action(&mut self, answer: StorageAnswer)
        ensures
            final(self)@ == storage_chosen(old(self)@, answer@),
    {
        match answer {
            StorageAnswer::Nothing => {},
            StorageAnswer::Close => self.blur(),
            StorageAnswer::Refresh => self.start_storage_refresh(),
            StorageAnswer::Open { path } => self.open_storage_category(path),
        }
    }

    pub fn answer_storage(&mut self, answer: StorageAnswer, visible: bool)
        ensures
            final(self)@ == storage_answered(old(self)@, answer@, visible),
    {
        self.handle_storage_dialog_action(answer);
        self.hide_kept(OverlayFocus::StorageDialog, visible);
    }

    pub fn run_plain_command(&mut self, name: &str, f: &CommandFacts)
        ensures
            final(self)@ == plain_command(old(self)@, name@, f@),
    {
        let args: Vec<String> = Vec::new();
        assert(text::views(args@) =~= Seq::<Seq<char>>::empty());
        self.process_command_input(ParsedCommand { name: name.to_owned(), args }, f);
    }

    fn do_which_key(&mut self, action: WhichKeyAction, f: &CommandFacts)
        ensures
            final(self)@ == which_key_done(old(self)@, action, f@),
    {
        match action {
            WhichKeyAction::ShowModels => self.run_plain_command("models", f),
            WhichKeyAction::ShowThemes => self.run_plain_command("themes", f),
            WhichKeyAction::ShowSessions => self.run_plain_command("sessions", f),
            WhichKeyAction::ShowTimeline => self.open_timeline_dialog(),
            WhichKeyAction::ToggleThinking => {
                let visible = !self.chat.thinking_visible;
                self.set_thinking_visible(visible);
            },
            WhichKeyAction::GoChild => {
                self.switch_to_latest_child_session();
            },
            WhichKeyAction::GoParent => {
                self.switch_to_parent_session();
            },
            WhichKeyAction::PreviousChild => {
                self.switch_child_session(false);
            },
            WhichKeyAction::NextChild => {
                self.switch_child_session(true);
            },
            WhichKeyAction::NewSession => self.run_plain_command("new", f),
            WhichKeyAction::Quit => self.quit(),
            WhichKeyAction::ScrollUp => self.push_effect(Effect::ScrollChat { down: false }),
            WhichKeyAction::ScrollDown => self.push_effect(Effect::ScrollChat { down: true }),
            WhichKeyAction::Nothing => {},
        }
    }

    pub fn answer_which_key(&mut self, action: WhichKeyAction, f: &CommandFacts)
        ensures
            final(self)@ == which_key_answered(old(self)@, action, f@),
    {
        self.blur();
        self.do_which_key(action, f);
    }

    fn commit_find_query(&mut self, query: String)
        ensures
            final(self)@ == searched(old(self)@, query@),
    {
        if text::blank(query.as_str()) {
            self.push_effect(Effect::ClearSearch);
        } else {
            self.push_effect(Effect::Search { query });
        }
    }

    pub fn answer_find(&mut self, answer: FindAnswer)
        ensures
            final(self)@ == find_answered(old(self)@, answer@),
    {
        match answer {
            FindAnswer::Commit { query } => self.commit_find_query(query),
            FindAnswer::Go { forward, matches, query } => {
                if matches == 0 && !query.as_str().is_empty() {
                    self.commit_find_query(query);
                } else {
                    self.push_effect(Effect::NextMatch { forward });
                }
            },
            FindAnswer::Close => self.close_find_bar_focus(),
            FindAnswer::Edited { changed } => {
                if changed {
                    self.push_effect(Effect::ClearSearch);
                }
            },
        }
    }
}

} // verus!

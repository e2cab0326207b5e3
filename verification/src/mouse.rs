//! The mouse. What it does to a dialog, to the transcript or to the prompt the caller finds out,
//! and hands back.

use crate::answers;
use crate::answers::SessionsAnswer;
use crate::app;
use crate::app::{App, AppView};
use crate::choices;
use crate::choices::{PermissionAnswer, QuestionAnswer, TimelineAnswer};
use crate::dialogs;
use crate::focus::{BaseFocus, OverlayFocus};
use crate::history;
use crate::keys;
use crate::keys::{DialogAnswer, KeyScene, LoginAnswer, SuggestionAnswer};
use crate::layout;
use crate::layout::Area;
use crate::message::{MessageRole, MessageView};
use crate::navigation;
use crate::prompting;
use crate::selection;
use crate::selection::SelectionAction;
use crate::state;
use crate::state::{ChatView, Effect, EffectView, Input, InputView};
use crate::text;
use crate::ui::{SelectionActionBarState, SelectionActionTarget, Ui, UiView};
use vstd::prelude::*;

verus! {

#[derive(Debug, Clone, Copy, PartialEq, Eq, Structural)]
pub enum MouseKind {
    Moved,
    DownLeft,
    DownOther,
    DragLeft,
    UpLeft,
    ScrollUp,
    ScrollDown,
    Other,
}

#[derive(Debug, Clone, Copy, PartialEq, Eq, Structural)]
pub struct MouseEvent {
    pub kind: MouseKind,
    pub column: u16,
    pub row: u16,
    pub shift: bool,
    pub command: bool,
    pub other_modifier: bool,
}

impl MouseEvent {
    pub open spec fn bare(self) -> bool {
        !self.shift && !self.command && !self.other_modifier
    }

    pub open spec fn presses(self) -> bool {
        self.kind == MouseKind::DownLeft || self.kind == MouseKind::DownOther
    }

    pub fn is_bare(&self) -> (r: bool)
        ensures
            r == self.bare(),
    {
        !self.shift && !self.command && !self.other_modifier
    }

    pub fn is_press(&self) -> (r: bool)
        ensures
            r == self.presses(),
    {
        self.kind == MouseKind::DownLeft || self.kind == MouseKind::DownOther
    }
}

/// An image, a file or a link.
#[derive(Debug)]
pub struct OpenTarget {
    pub target: String,
    pub label: String,
}

/// What lies under the pointer, as the caller has drawn it.
#[derive(Debug)]
pub struct MouseScene {
    pub chat_area: Area,
    pub bar_area: Option<Area>,
    pub chat_text: Option<String>,
    pub editable: bool,
    pub sticky: Option<(Area, usize)>,
    pub message: Option<usize>,
    pub target: Option<OpenTarget>,
    pub inside_popup: bool,
}

/// What the caller does with the event next.
#[derive(Debug, Clone, Copy, PartialEq, Eq, Structural)]
pub enum MouseNext {
    /// Nothing more.
    Done,
    /// Hand it to the dialog that is open.
    Ask,
    /// Hand it to the transcript.
    Chat,
    /// Hand it to the transcript behind the dialog.
    ChatBehind,
    /// Hand it to the prompt.
    Input,
}

pub open spec fn is_dragged(a: AppView, target: SelectionActionTarget) -> bool {
    match target {
        SelectionActionTarget::Chat => a.chat.is_dragging,
        SelectionActionTarget::Input => a.input.is_dragging,
    }
}

/// A drag that has ended outside the terminal.
pub open spec fn drag_ended(a: AppView, target: SelectionActionTarget) -> AppView {
    match target {
        SelectionActionTarget::Chat => AppView {
            chat: ChatView { is_dragging: false, ..a.chat },
            ..a
        },
        SelectionActionTarget::Input => AppView {
            input: InputView { is_dragging: false, ..a.input },
            ..a
        },
    }
}

/// An action of the bar, and whether the event ends with it.
#[verifier::opaque]
pub open spec fn bar_action(
    a: AppView,
    bar: SelectionActionBarState,
    action: SelectionAction,
    scene: MouseScene,
) -> (AppView, bool) {
    match action {
        SelectionAction::AddToPrompt => (
            selection::added_to_prompt(a, bar.target, text::opt_view(scene.chat_text)),
            selection::adds_to_prompt(a, bar.target, text::opt_view(scene.chat_text)),
        ),
        SelectionAction::Copy => (
            selection::selection_copied(a, text::opt_view(scene.chat_text)),
            true,
        ),
        SelectionAction::OpenInEditor => (selection::editor_asked(a, scene.editable), true),
        SelectionAction::Dismiss => (selection::dismissed(a), selection::is_selected(a)),
    }
}

pub open spec fn column_in(area: Area, column: u16) -> usize {
    if column > area.x {
        (column - area.x) as usize
    } else {
        0
    }
}

/// The mouse on the bar beside selected text, and whether the event ends there. A press on the
/// bar also ends a drag whose end was never seen.
#[verifier::opaque]
pub open spec fn bar_touched(a: AppView, m: MouseEvent, scene: MouseScene) -> (AppView, bool) {
    match (a.ui.selection_bar, scene.bar_area) {
        (Some(bar), Some(area)) => if !area.holds(m.column, m.row) {
            (a, false)
        } else if is_dragged(a, bar.target) {
            if m.kind == MouseKind::DownLeft {
                (drag_ended(a, bar.target), true)
            } else {
                (a, false)
            }
        } else if m.kind == MouseKind::UpLeft {
            bar_action(a, bar, selection::action_at(bar, column_in(area, m.column)), scene)
        } else {
            (a, true)
        },
        _ => (a, false),
    }
}

/// The dialogs that the mouse reaches.
pub open spec fn takes_mouse(dialog: OverlayFocus) -> bool {
    dialog == OverlayFocus::AgentsDialog || dialog == OverlayFocus::ModelsDialog || dialog
        == OverlayFocus::PermissionDialog || dialog == OverlayFocus::QuestionDialog || dialog
        == OverlayFocus::RemoteDialog || dialog == OverlayFocus::ThemesDialog || dialog
        == OverlayFocus::ConnectDialog || dialog == OverlayFocus::ProviderOAuthFlow || dialog
        == OverlayFocus::SessionsDialog || dialog == OverlayFocus::SkillsDialog || dialog
        == OverlayFocus::McpDialog || dialog == OverlayFocus::TimelineDialog || dialog
        == OverlayFocus::CopyActions || dialog == OverlayFocus::MessageActions || dialog
        == OverlayFocus::CommandPalette || dialog == OverlayFocus::MoveSessionDialog || dialog
        == OverlayFocus::StorageDialog || dialog == OverlayFocus::TitleDialog || dialog
        == OverlayFocus::SuggestionsPopup
}

pub open spec fn unclicked(a: AppView) -> AppView {
    AppView { ui: UiView { pending_click: None, ..a.ui }, ..a }
}

pub open spec fn target_opened(a: AppView, t: OpenTarget) -> AppView {
    app::with_effect(a, EffectView::OpenTarget { target: t.target@, label: t.label@ })
}

/// A click that misses the actions of a message and hits something that can be opened.
pub open spec fn misses_actions(a: AppView, m: MouseEvent, scene: MouseScene) -> bool {
    a.overlay_focus == OverlayFocus::MessageActions && (m.kind == MouseKind::DownLeft || m.kind
        == MouseKind::UpLeft) && !scene.inside_popup && scene.target is Some
}

pub open spec fn dialog_clicked(a: AppView, m: MouseEvent, scene: MouseScene) -> (
    AppView,
    MouseNext,
) {
    if misses_actions(a, m, scene) {
        (
            target_opened(history::actions_closed(unclicked(a)), scene.target->0),
            MouseNext::Done,
        )
    } else if takes_mouse(a.overlay_focus) {
        (a, MouseNext::Ask)
    } else {
        (a, MouseNext::Done)
    }
}

/// Whether a press beside the transcript ends a selection in it.
pub open spec fn presses_beside(a: AppView, m: MouseEvent, scene: MouseScene) -> bool {
    m.kind == MouseKind::DownLeft && a.chat.has_selection && !a.chat.is_dragging && a.base_focus
        == BaseFocus::Chat && !scene.chat_area.holds(m.column, m.row)
}

pub open spec fn on_sticky(m: MouseEvent, scene: MouseScene) -> bool {
    m.kind == MouseKind::DownLeft && m.bare() && (scene.sticky matches Some(s) && s.0.holds(
        m.column,
        m.row,
    ))
}

pub open spec fn is_unselected(a: AppView) -> bool {
    !a.chat.has_selection && !a.chat.is_dragging
}

/// The message to offer actions for: none for what an agent wrote.
pub open spec fn actionable(ms: Seq<MessageView>, index: Option<usize>) -> Option<usize> {
    match index {
        Some(i) => if i < ms.len() && ms[i as int].role != MessageRole::Assistant {
            Some(i)
        } else {
            None
        },
        None => None,
    }
}

pub open spec fn with_click(a: AppView, index: Option<usize>) -> AppView {
    AppView { ui: UiView { pending_click: index, ..a.ui }, ..a }
}

/// A press in the transcript: it opens what it hits, or may become a click on a message.
#[verifier::opaque]
pub open spec fn chat_pressed(a: AppView, m: MouseEvent, scene: MouseScene) -> (
    AppView,
    MouseNext,
) {
    match scene.target {
        Some(t) => (target_opened(unclicked(a), t), MouseNext::Done),
        None => (
            if m.bare() {
                with_click(a, actionable(a.chat.messages, scene.message))
            } else {
                a
            },
            MouseNext::Chat,
        ),
    }
}

/// The mouse in the transcript, before the transcript gets it.
pub open spec fn chat_clicked(a: AppView, m: MouseEvent, scene: MouseScene) -> (
    AppView,
    MouseNext,
) {
    if on_sticky(m, scene) {
        (
            unclicked(
                app::with_effect(
                    a,
                    EffectView::ScrollToMessage { index: (scene.sticky->0).1 },
                ),
            ),
            MouseNext::Done,
        )
    } else if m.kind == MouseKind::Moved && is_unselected(a) && scene.message is Some {
        (a, MouseNext::Done)
    } else if m.kind == MouseKind::DownLeft && (m.bare() || m.command) && is_unselected(a) {
        chat_pressed(a, m, scene)
    } else if m.kind == MouseKind::DragLeft {
        (unclicked(a), MouseNext::Chat)
    } else {
        (a, MouseNext::Chat)
    }
}

/// The prompt before it gets the mouse; that of an agent's session does not.
pub open spec fn input_clicked(a: AppView, m: MouseEvent) -> (AppView, MouseNext) {
    if navigation::in_child(a) {
        (a, MouseNext::Done)
    } else {
        (
            if m.kind == MouseKind::DownLeft {
                selection::with_bar(a, None)
            } else {
                a
            },
            MouseNext::Input,
        )
    }
}

#[verifier::opaque]
pub open spec fn base_clicked(a: AppView, m: MouseEvent, scene: MouseScene) -> (
    AppView,
    MouseNext,
) {
    let b = if presses_beside(a, m, scene) {
        selection::dismissed(a)
    } else {
        a
    };
    if b.base_focus == BaseFocus::Chat {
        chat_clicked(b, m, scene)
    } else {
        input_clicked(b, m)
    }
}

/// Whether a press on a dialog takes a selection back instead.
pub open spec fn press_deselects(a: AppView, m: MouseEvent) -> bool {
    a.overlay_focus != OverlayFocus::Nothing && a.overlay_focus != OverlayFocus::PermissionDialog
        && a.overlay_focus != OverlayFocus::QuestionDialog && selection::is_selected(a)
        && a.ui.selection_bar is None && m.presses()
}

#[verifier::opaque]
pub open spec fn unbarred(a: AppView, m: MouseEvent, scene: MouseScene) -> (AppView, MouseNext) {
    if a.ui.selection_bar is Some && m.kind == MouseKind::DownLeft {
        (selection::dismissed(a), MouseNext::Done)
    } else if a.overlay_focus == OverlayFocus::TerminalSessionDialog && a.terminals.len() > 0 {
        (a, MouseNext::Done)
    } else if press_deselects(a, m) {
        (selection::dismissed(a), MouseNext::Done)
    } else if a.overlay_focus == OverlayFocus::Nothing {
        base_clicked(a, m, scene)
    } else {
        dialog_clicked(a, m, scene)
    }
}

pub open spec fn noticed(a: AppView, m: MouseEvent) -> AppView {
    if m.kind == MouseKind::Moved {
        a
    } else {
        prompting::active_now(a)
    }
}

/// What an event of the mouse does, and what is to be done with it next.
pub open spec fn moused(a: AppView, m: MouseEvent, scene: MouseScene) -> (AppView, MouseNext) {
    let b = bar_touched(noticed(a, m), m, scene);
    if b.1 {
        (b.0, MouseNext::Done)
    } else {
        unbarred(b.0, m, scene)
    }
}

impl App {
    fn bar_now(&self) -> (r: Option<SelectionActionBarState>)
        ensures
            r == self@.ui.selection_bar,
    {
        reveal(<Ui as View>::view);
        self.ui.selection_bar
    }

    fn end_drag(&mut self, target: SelectionActionTarget)
        ensures
            final(self)@ == drag_ended(old(self)@, target),
    {
        match target {
            SelectionActionTarget::Chat => {
                self.chat.is_dragging = false;
            },
            SelectionActionTarget::Input => {
                self.input.is_dragging = false;
            },
        }
    }

    fn do_bar_action(
        &mut self,
        bar: SelectionActionBarState,
        action: SelectionAction,
        scene: &MouseScene,
    ) -> (r: bool)
        ensures
            (final(self)@, r) == bar_action(old(self)@, bar, action, *scene),
    {
        reveal(bar_action);
        match action {
            SelectionAction::AddToPrompt => self.add_selection_to_prompt(
                bar.target,
                &scene.chat_text,
            ),
            SelectionAction::Copy => {
                self.try_copy_selection(&scene.chat_text);
                true
            },
            SelectionAction::OpenInEditor => {
                self.open_selection_in_editor(scene.editable);
                true
            },
            SelectionAction::Dismiss => self.dismiss_selection_actions(),
        }
    }

    pub fn handle_selection_action_mouse(&mut self, m: MouseEvent, scene: &MouseScene) -> (r: bool)
        ensures
            (final(self)@, r) == bar_touched(old(self)@, m, *scene),
    {
        reveal(bar_touched);
        let bar = match self.bar_now() {
            Some(bar) => bar,
            None => {
                return false;
            },
        };
        let area = match scene.bar_area {
            Some(area) => area,
            None => {
                return false;
            },
        };
        if !area.contains(m.column, m.row) {
            return false;
        }
        let dragged = match bar.target {
            SelectionActionTarget::Chat => self.chat.is_dragging,
            SelectionActionTarget::Input => self.input.is_dragging,
        };
        if dragged {
            if m.kind == MouseKind::DownLeft {
                self.end_drag(bar.target);
                return true;
            }
            return false;
        }
        if m.kind == MouseKind::UpLeft {
            let column: usize = if m.column > area.x {
                (m.column - area.x) as usize
            } else {
                0
            };
            let action = selection::selection_action_for_column(bar, column);
            return self.do_bar_action(bar, action, scene);
        }
        true
    }

    fn set_click(&mut self, index: Option<usize>)
        ensures
            final(self)@ == with_click(old(self)@, index),
    {
        reveal(<Ui as View>::view);
        self.ui.pending_click = index;
    }

    fn open_target(&mut self, t: &OpenTarget)
        ensures
            final(self)@ == target_opened(old(self)@, *t),
    {
        self.push_effect(Effect::OpenTarget { target: t.target.clone(), label: t.label.clone() });
    }

    fn overlay_takes_mouse(&self) -> (r: bool)
        ensures
            r == takes_mouse(self@.overlay_focus),
    {
        match self.overlay_focus {
            OverlayFocus::AgentsDialog | OverlayFocus::ModelsDialog
            | OverlayFocus::PermissionDialog | OverlayFocus::QuestionDialog
            | OverlayFocus::RemoteDialog | OverlayFocus::ThemesDialog
            | OverlayFocus::ConnectDialog | OverlayFocus::ProviderOAuthFlow
            | OverlayFocus::SessionsDialog | OverlayFocus::SkillsDialog | OverlayFocus::McpDialog
            | OverlayFocus::TimelineDialog | OverlayFocus::CopyActions
            | OverlayFocus::MessageActions | OverlayFocus::CommandPalette
            | OverlayFocus::MoveSessionDialog | OverlayFocus::StorageDialog
            | OverlayFocus::TitleDialog | OverlayFocus::SuggestionsPopup => true,
            _ => false,
        }
    }

    fn click_dialog(&mut self, m: MouseEvent, scene: &MouseScene) -> (r: MouseNext)
        ensures
            (final(self)@, r) == dialog_clicked(old(self)@, m, *scene),
    {
        if self.overlay_focus == OverlayFocus::MessageActions && (m.kind == MouseKind::DownLeft
            || m.kind == MouseKind::UpLeft) && !scene.inside_popup {
            match &scene.target {
                Some(t) => {
                    self.set_click(None);
                    self.close_message_actions();
                    self.open_target(t);
                    return MouseNext::Done;
                },
                None => {},
            }
        }
        if self.overlay_takes_mouse() {
            MouseNext::Ask
        } else {
            MouseNext::Done
        }
    }

    pub fn message_actions_index_at_position(&self, index: Option<usize>) -> (r: Option<usize>)
        ensures
            r == actionable(self@.chat.messages, index),
    {
        match index {
            Some(i) => if i < self.chat.messages.len() && self.chat.messages[i].role
                != MessageRole::Assistant {
                Some(i)
            } else {
                None
            },
            None => None,
        }
    }

    fn press_chat(&mut self, m: MouseEvent, scene: &MouseScene) -> (r: MouseNext)
        ensures
            (final(self)@, r) == chat_pressed(old(self)@, m, *scene),
    {
        reveal(chat_pressed);
        match &scene.target {
            Some(t) => {
                self.set_click(None);
                self.open_target(t);
                return MouseNext::Done;
            },
            None => {},
        }
        if m.is_bare() {
            let index = self.message_actions_index_at_position(scene.message);
            self.set_click(index);
        }
        MouseNext::Chat
    }

    fn click_chat(&mut self, m: MouseEvent, scene: &MouseScene) -> (r: MouseNext)
        ensures
            (final(self)@, r) == chat_clicked(old(self)@, m, *scene),
    {
        if m.kind == MouseKind::DownLeft && m.is_bare() {
            match scene.sticky {
                Some((area, index)) => {
                    if area.contains(m.column, m.row) {
                        self.push_effect(Effect::ScrollToMessage { index });
                        self.set_click(None);
                        return MouseNext::Done;
                    }
                },
                None => {},
            }
        }
        let unselected = !self.chat.has_selection && !self.chat.is_dragging;
        if m.kind == MouseKind::Moved && unselected && scene.message.is_some() {
            return MouseNext::Done;
        }
        if m.kind == MouseKind::DownLeft && (m.is_bare() || m.command) && unselected {
            return self.press_chat(m, scene);
        }
        if m.kind == MouseKind::DragLeft {
            self.set_click(None);
        }
        MouseNext::Chat
    }

    fn click_input(&mut self, m: MouseEvent) -> (r: MouseNext)
        ensures
            (final(self)@, r) == input_clicked(old(self)@, m),
    {
        if self.is_subagent_session_active() {
            return MouseNext::Done;
        }
        if m.kind == MouseKind::DownLeft {
            self.set_selection_bar(None);
        }
        MouseNext::Input
    }

    fn click_base(&mut self, m: MouseEvent, scene: &MouseScene) -> (r: MouseNext)
        ensures
            (final(self)@, r) == base_clicked(old(self)@, m, *scene),
    {
        reveal(base_clicked);
        if m.kind == MouseKind::DownLeft && self.chat.has_selection && !self.chat.is_dragging
            && self.base_focus == BaseFocus::Chat && !scene.chat_area.contains(m.column, m.row) {
            self.dismiss_selection_actions();
        }
        if self.base_focus == BaseFocus::Chat {
            return self.click_chat(m, scene);
        }
        self.click_input(m)
    }

    fn click_unbarred(&mut self, m: MouseEvent, scene: &MouseScene) -> (r: MouseNext)
        ensures
            (final(self)@, r) == unbarred(old(self)@, m, *scene),
    {
        reveal(unbarred);
        assert(self@.terminals.len() == self.terminals@.len());
        let barred = self.bar_now().is_some();
        if barred && m.kind == MouseKind::DownLeft {
            self.dismiss_selection_actions();
            return MouseNext::Done;
        }
        if self.overlay_focus == OverlayFocus::TerminalSessionDialog && self.terminals.len() > 0 {
            return MouseNext::Done;
        }
        if self.overlay_focus != OverlayFocus::Nothing && self.overlay_focus
            != OverlayFocus::PermissionDialog && self.overlay_focus != OverlayFocus::QuestionDialog
            && (self.chat.has_selection || self.input.has_selection) && !barred && m.is_press() {
            self.dismiss_selection_actions();
            return MouseNext::Done;
        }
        if self.overlay_focus == OverlayFocus::Nothing {
            return self.click_base(m, scene);
        }
        self.click_dialog(m, scene)
    }

    fn notice(&mut self, m: MouseEvent)
        ensures
            final(self)@ == noticed(old(self)@, m),
    {
        if m.kind != MouseKind::Moved {
            self.note_user_activity();
        }
    }

    /// Takes an event of the mouse.
    pub fn handle_mouse_event(&mut self, m: MouseEvent, scene: &MouseScene) -> (r: MouseNext)
        ensures
            (final(self)@, r) == moused(old(self)@, m, *scene),
    {
        self.notice(m);
        if self.handle_selection_action_mouse(m, scene) {
            return MouseNext::Done;
        }
        self.click_unbarred(m, scene)
    }
}

/// Whether an event passes through a dialog that asks something to the transcript behind it.
pub open spec fn passes_through(a: AppView, m: MouseEvent) -> bool {
    a.base_focus == BaseFocus::Chat && (m.kind == MouseKind::ScrollDown || m.kind
        == MouseKind::ScrollUp || m.kind == MouseKind::DownLeft || m.kind == MouseKind::DragLeft
        || m.kind == MouseKind::UpLeft)
}

pub open spec fn through(a: AppView, m: MouseEvent) -> MouseNext {
    if passes_through(a, m) {
        MouseNext::ChatBehind
    } else {
        MouseNext::Done
    }
}

/// The list of sessions takes less from the mouse than from the keyboard.
pub open spec fn sessions_clicked(a: AppView, answer: SessionsAnswer, visible: bool) -> AppView {
    match answer {
        SessionsAnswer::Select { id } => answers::session_picked(a, id@),
        SessionsAnswer::Close => dialogs::blurred(a),
        _ => answers::unless_visible(a, visible),
    }
}

pub open spec fn login_clicked(a: AppView, answer: LoginAnswer) -> AppView {
    match answer {
        LoginAnswer::Close => dialogs::blurred(a),
        LoginAnswer::CopyLink { link } => answers::link_copied(a, link@, "OpenAI"@),
        _ => a,
    }
}

pub open spec fn timeline_clicked(a: AppView, answer: TimelineAnswer, visible: bool) -> AppView {
    let b = choices::timeline_answered(a, answer);
    if visible {
        b
    } else {
        dialogs::blurred(dialogs::highlighted(b, None))
    }
}

pub open spec fn actions_clicked(
    a: AppView,
    answer: choices::ActionAnswerView,
    visible: bool,
) -> AppView {
    let b = choices::actions_answered(a, answer);
    if visible {
        b
    } else {
        history::actions_closed(b)
    }
}

pub open spec fn suggestion_clicked(
    a: AppView,
    m: MouseEvent,
    answer: SuggestionAnswer,
    scene: KeyScene,
) -> (AppView, MouseNext) {
    if answer is NotHandled {
        if navigation::in_child(a) {
            (
                if m.kind == MouseKind::DownLeft {
                    dialogs::suggestions_blurred(a)
                } else {
                    a
                },
                MouseNext::Done,
            )
        } else {
            input_clicked(a, m)
        }
    } else {
        (keys::suggestion_answered(a, answer, scene).0, MouseNext::Done)
    }
}

/// What the answer of a dialog to the mouse changes. `visible` says whether the dialog is still
/// there where its answer does not.
pub open spec fn mouse_answered(
    a: AppView,
    m: MouseEvent,
    answer: DialogAnswer,
    visible: bool,
    scene: KeyScene,
) -> (AppView, MouseNext) {
    match answer {
        DialogAnswer::Permission { answer } => (
            choices::permission_settled(a, answer),
            if answer == PermissionAnswer::NotHandled {
                through(a, m)
            } else {
                MouseNext::Done
            },
        ),
        DialogAnswer::Question { answer } => (
            choices::question_settled(a, answer, true),
            if answer == QuestionAnswer::NotHandled {
                through(a, m)
            } else {
                MouseNext::Done
            },
        ),
        DialogAnswer::Sessions { answer, visible } => (
            sessions_clicked(a, answer, visible),
            MouseNext::Done,
        ),
        DialogAnswer::Login { answer } => (login_clicked(a, answer), MouseNext::Done),
        DialogAnswer::Timeline { answer } => (
            timeline_clicked(a, answer, visible),
            MouseNext::Done,
        ),
        DialogAnswer::MessageActions { answer } => (
            actions_clicked(a, answer@, visible),
            MouseNext::Done,
        ),
        DialogAnswer::Move { answer } => (
            choices::unless_kept(
                choices::move_answered(a, answer@),
                OverlayFocus::MoveSessionDialog,
                visible,
            ),
            MouseNext::Done,
        ),
        DialogAnswer::Suggestions { answer } => suggestion_clicked(a, m, answer, scene),
        _ => (keys::dialog_done(a, answer, scene).0, MouseNext::Done),
    }
}

impl App {
    fn pass_through(&self, m: MouseEvent) -> (r: MouseNext)
        ensures
            r == through(self@, m),
    {
        if self.base_focus == BaseFocus::Chat && (m.kind == MouseKind::ScrollDown || m.kind
            == MouseKind::ScrollUp || m.kind == MouseKind::DownLeft || m.kind
            == MouseKind::DragLeft || m.kind == MouseKind::UpLeft) {
            MouseNext::ChatBehind
        } else {
            MouseNext::Done
        }
    }

    fn click_sessions(&mut self, answer: SessionsAnswer, visible: bool)
        ensures
            final(self)@ == sessions_clicked(old(self)@, answer, visible),
    {
        match answer {
            SessionsAnswer::Select { id } => {
                self.pick_session(id.as_str());
            },
            SessionsAnswer::Close => {
                self.blur();
            },
            _ => {
                if !visible {
                    self.blur();
                }
            },
        }
    }

    fn click_login(&mut self, answer: LoginAnswer)
        ensures
            final(self)@ == login_clicked(old(self)@, answer),
    {
        match answer {
            LoginAnswer::Close => {
                self.blur();
            },
            LoginAnswer::CopyLink { link } => {
                self.copy_login_link(link.as_str(), "OpenAI");
            },
            _ => {},
        }
    }

    fn click_timeline(&mut self, answer: TimelineAnswer, visible: bool)
        ensures
            final(self)@ == timeline_clicked(old(self)@, answer, visible),
    {
        self.answer_timeline(answer);
        if !visible {
            self.chat.highlighted = None;
            self.overlay_focus = OverlayFocus::Nothing;
        }
    }

    fn click_actions(&mut self, answer: choices::ActionAnswer, visible: bool)
        ensures
            final(self)@ == actions_clicked(old(self)@, answer@, visible),
    {
        self.answer_message_actions(answer);
        if !visible {
            self.close_message_actions();
        }
    }

    fn click_move(&mut self, answer: choices::MoveAnswer, visible: bool)
        ensures
            final(self)@ == choices::unless_kept(
                choices::move_answered(old(self)@, answer@),
                OverlayFocus::MoveSessionDialog,
                visible,
            ),
    {
        self.handle_move_session_dialog_action(answer);
        if !visible && self.overlay_focus == OverlayFocus::MoveSessionDialog {
            self.blur();
        }
    }

    fn click_suggestion(&mut self, m: MouseEvent, answer: SuggestionAnswer, scene: &KeyScene) -> (r:
        MouseNext)
        ensures
            (final(self)@, r) == suggestion_clicked(old(self)@, m, answer, *scene),
    {
        let handed_on = match &answer {
            SuggestionAnswer::NotHandled => true,
            _ => false,
        };
        if !handed_on {
            self.answer_suggestions(answer, scene);
            return MouseNext::Done;
        }
        if self.is_subagent_session_active() {
            if m.kind == MouseKind::DownLeft {
                self.clear_suggestions_and_blur();
            }
            return MouseNext::Done;
        }
        self.click_input(m)
    }

    fn click_other(&mut self, answer: DialogAnswer, scene: &KeyScene)
        ensures
            final(self)@ == keys::dialog_done(old(self)@, answer, *scene).0,
    {
        self.answer_dialog(answer, scene);
    }

    /// Goes on with an event of the mouse after the dialog has answered.
    pub fn handle_mouse_answer(
        &mut self,
        m: MouseEvent,
        answer: DialogAnswer,
        visible: bool,
        scene: &KeyScene,
    ) -> (r: MouseNext)
        ensures
            (final(self)@, r) == mouse_answered(old(self)@, m, answer, visible, *scene),
    {
        match answer {
            DialogAnswer::Permission { answer } => {
                let next = if answer == PermissionAnswer::NotHandled {
                    self.pass_through(m)
                } else {
                    MouseNext::Done
                };
                self.answer_permission(answer);
                next
            },
            DialogAnswer::Question { answer } => {
                let next = if answer == QuestionAnswer::NotHandled {
                    self.pass_through(m)
                } else {
                    MouseNext::Done
                };
                self.answer_question(answer, true);
                next
            },
            DialogAnswer::Sessions { answer, visible } => {
                self.click_sessions(answer, visible);
                MouseNext::Done
            },
            DialogAnswer::Login { answer } => {
                self.click_login(answer);
                MouseNext::Done
            },
            DialogAnswer::Timeline { answer } => {
                self.click_timeline(answer, visible);
                MouseNext::Done
            },
            DialogAnswer::MessageActions { answer } => {
                self.click_actions(answer, visible);
                MouseNext::Done
            },
            DialogAnswer::Move { answer } => {
                self.click_move(answer, visible);
                MouseNext::Done
            },
            DialogAnswer::Suggestions { answer } => self.click_suggestion(m, answer, scene),
            other => {
                self.click_other(other, scene);
                MouseNext::Done
            },
        }
    }
}

/// What the transcript made of an event: whether it took it, and what is selected now.
#[derive(Debug, Clone, Copy, PartialEq, Eq, Structural)]
pub struct ChatTouch {
    pub taken: bool,
    pub has_selection: bool,
    pub is_dragging: bool,
}

pub open spec fn chat_selected(a: AppView, touch: ChatTouch) -> AppView {
    AppView {
        chat: ChatView {
            has_selection: touch.has_selection,
            is_dragging: touch.is_dragging,
            ..a.chat
        },
        ..a
    }
}

/// Whether a drag has come to a selection: it goes on, or it has ended.
pub open spec fn drag_selects(was_dragging: bool, m: MouseEvent, touch: ChatTouch) -> bool {
    was_dragging && (!touch.is_dragging || m.kind == MouseKind::DragLeft)
}

/// The bar after an event of the transcript.
pub open spec fn bar_followed(
    a: AppView,
    m: MouseEvent,
    was_dragging: bool,
    touch: ChatTouch,
    scene: MouseScene,
) -> AppView {
    if drag_selects(was_dragging, m, touch) {
        selection::bar_shown(
            a,
            SelectionActionTarget::Chat,
            text::opt_view(scene.chat_text),
            scene.editable,
        )
    } else {
        a
    }
}

pub open spec fn unbarred_by_press(a: AppView, m: MouseEvent) -> AppView {
    if m.kind == MouseKind::DownLeft {
        selection::with_bar(a, None)
    } else {
        a
    }
}

/// The transcript behind a dialog after it got an event.
#[verifier::opaque]
pub open spec fn behind_touched(
    a: AppView,
    m: MouseEvent,
    touch: ChatTouch,
    scene: MouseScene,
) -> AppView {
    let b = chat_selected(a, touch);
    if touch.taken {
        bar_followed(unbarred_by_press(b, m), m, a.chat.is_dragging, touch, scene)
    } else {
        b
    }
}

/// The message that was clicked: pressed and released, with nothing selected in between.
pub open spec fn clicked_message(
    a: AppView,
    m: MouseEvent,
    touch: ChatTouch,
    scene: MouseScene,
) -> Option<usize> {
    if m.kind == MouseKind::UpLeft && !m.shift && !touch.has_selection && a.ui.pending_click
        == scene.message {
        a.ui.pending_click
    } else {
        None
    }
}

pub open spec fn message_clicked(a: AppView, index: usize) -> AppView {
    history::actions_shown(
        dialogs::highlighted(unclicked(a), Some(index)),
        index,
        OverlayFocus::Nothing,
    )
}

pub open spec fn released(a: AppView, m: MouseEvent) -> AppView {
    if m.kind == MouseKind::UpLeft {
        unclicked(a)
    } else {
        a
    }
}

/// The transcript after it got an event; what it does not take goes to the prompt.
#[verifier::opaque]
pub open spec fn chat_touched(
    a: AppView,
    m: MouseEvent,
    touch: ChatTouch,
    scene: MouseScene,
) -> (AppView, MouseNext) {
    let b = chat_selected(a, touch);
    if !touch.taken {
        input_clicked(b, m)
    } else {
        match clicked_message(a, m, touch, scene) {
            Some(index) => (message_clicked(unbarred_by_press(b, m), index), MouseNext::Done),
            None => (
                bar_followed(
                    released(unbarred_by_press(b, m), m),
                    m,
                    a.chat.is_dragging,
                    touch,
                    scene,
                ),
                MouseNext::Done,
            ),
        }
    }
}

pub open spec fn prompt_selected(a: AppView) -> bool {
    a.input.has_selection && a.input.selected_text.len() > 0
}

pub open spec fn prompt_barred(a: AppView) -> AppView {
    selection::bar_shown(a, SelectionActionTarget::Input, None, false)
}

/// The bar after an event of the prompt.
pub open spec fn prompt_bar_followed(a: AppView, m: MouseEvent) -> AppView {
    if m.kind == MouseKind::DragLeft && prompt_selected(a) {
        prompt_barred(a)
    } else if m.kind == MouseKind::UpLeft {
        if prompt_selected(a) {
            prompt_barred(a)
        } else {
            selection::with_bar(a, None)
        }
    } else {
        a
    }
}

/// The prompt after it got an event.
#[verifier::opaque]
pub open spec fn input_touched(
    a: AppView,
    m: MouseEvent,
    input: InputView,
    suggestions: bool,
    taken: bool,
) -> AppView {
    let b = AppView { input, ..a };
    if taken {
        keys::with_suggestions(prompt_bar_followed(b, m), suggestions)
    } else if m.kind == MouseKind::UpLeft && prompt_selected(b) {
        keys::with_suggestions(prompt_barred(b), suggestions)
    } else if m.kind == MouseKind::DownLeft {
        dialogs::suggestions_blurred(b)
    } else {
        b
    }
}

impl App {
    fn select_in_chat(&mut self, touch: ChatTouch)
        ensures
            final(self)@ == chat_selected(old(self)@, touch),
    {
        self.chat.has_selection = touch.has_selection;
        self.chat.is_dragging = touch.is_dragging;
    }

    fn follow_bar(
        &mut self,
        m: MouseEvent,
        was_dragging: bool,
        touch: ChatTouch,
        scene: &MouseScene,
    )
        ensures
            final(self)@ == bar_followed(old(self)@, m, was_dragging, touch, *scene),
    {
        if was_dragging && (!touch.is_dragging || m.kind == MouseKind::DragLeft) {
            self.show_selection_action_bar_for(
                SelectionActionTarget::Chat,
                &scene.chat_text,
                scene.editable,
            );
        }
    }

    fn unbar_by_press(&mut self, m: MouseEvent)
        ensures
            final(self)@ == unbarred_by_press(old(self)@, m),
    {
        if m.kind == MouseKind::DownLeft {
            self.set_selection_bar(None);
        }
    }

    /// Goes on after the transcript behind a dialog got an event.
    pub fn forward_chat_mouse_through_dialog(
        &mut self,
        m: MouseEvent,
        touch: ChatTouch,
        scene: &MouseScene,
    )
        ensures
            final(self)@ == behind_touched(old(self)@, m, touch, *scene),
    {
        reveal(behind_touched);
        let was_dragging = self.chat.is_dragging;
        self.select_in_chat(touch);
        if !touch.taken {
            return ;
        }
        self.unbar_by_press(m);
        self.follow_bar(m, was_dragging, touch, scene);
    }

    fn find_clicked_message(&self, m: MouseEvent, touch: ChatTouch, scene: &MouseScene) -> (r:
        Option<usize>)
        ensures
            r == clicked_message(self@, m, touch, *scene),
    {
        reveal(<Ui as View>::view);
        if m.kind != MouseKind::UpLeft || m.shift || touch.has_selection {
            return None;
        }
        match (self.ui.pending_click, scene.message) {
            (Some(i), Some(j)) => if i == j {
                Some(i)
            } else {
                None
            },
            _ => None,
        }
    }

    fn click_message(&mut self, index: usize)
        ensures
            final(self)@ == message_clicked(old(self)@, index),
    {
        self.set_click(None);
        self.chat.highlighted = Some(index);
        self.show_message_actions_from(index, OverlayFocus::Nothing);
    }

    fn release_click(&mut self, m: MouseEvent)
        ensures
            final(self)@ == released(old(self)@, m),
    {
        if m.kind == MouseKind::UpLeft {
            self.set_click(None);
        }
    }

    /// Goes on after the transcript got an event.
    pub fn finish_chat_mouse(&mut self, m: MouseEvent, touch: ChatTouch, scene: &MouseScene) -> (r:
        MouseNext)
        ensures
            (final(self)@, r) == chat_touched(old(self)@, m, touch, *scene),
    {
        reveal(chat_touched);
        let was_dragging = self.chat.is_dragging;
        let clicked = self.find_clicked_message(m, touch, scene);
        self.select_in_chat(touch);
        if !touch.taken {
            return self.click_input(m);
        }
        self.unbar_by_press(m);
        match clicked {
            Some(index) => {
                self.click_message(index);
                return MouseNext::Done;
            },
            None => {},
        }
        self.release_click(m);
        self.follow_bar(m, was_dragging, touch, scene);
        MouseNext::Done
    }

    fn is_prompt_selected(&self) -> (r: bool)
        ensures
            r == prompt_selected(self@),
    {
        self.input.has_selection && !self.input.selected_text.as_str().is_empty()
    }

    fn bar_prompt(&mut self)
        ensures
            final(self)@ == prompt_barred(old(self)@),
    {
        self.show_selection_action_bar_for(SelectionActionTarget::Input, &None, false);
    }

    fn follow_prompt_bar(&mut self, m: MouseEvent)
        ensures
            final(self)@ == prompt_bar_followed(old(self)@, m),
    {
        let selected = self.is_prompt_selected();
        if m.kind == MouseKind::DragLeft && selected {
            self.bar_prompt();
            return ;
        }
        if m.kind == MouseKind::UpLeft {
            if selected {
                self.bar_prompt();
                return ;
            }
            self.set_selection_bar(None);
        }
    }

    /// Goes on after the prompt got an event.
    pub fn handle_input_mouse_event(
        &mut self,
        m: MouseEvent,
        input: Input,
        suggestions: bool,
        taken: bool,
    )
        ensures
            final(self)@ == input_touched(old(self)@, m, input@, suggestions, taken),
    {
        reveal(input_touched);
        self.input = input;
        if taken {
            self.follow_prompt_bar(m);
            self.set_suggestions(suggestions);
            return ;
        }
        if m.kind == MouseKind::UpLeft && self.is_prompt_selected() {
            self.bar_prompt();
            self.set_suggestions(suggestions);
            return ;
        }
        if m.kind == MouseKind::DownLeft {
            self.clear_suggestions_and_blur();
        }
    }
}

/// What an agent wrote is never offered for actions by a click.
pub proof fn law_answers_are_not_clicked(ms: Seq<MessageView>, index: Option<usize>)
    ensures
        actionable(ms, index) matches Some(i) ==> i < ms.len() && ms[i as int].role
            != MessageRole::Assistant,
{
}

/// How often an event stands for turns of the wheel that came in one go: never once the
/// transcript has scrolled by all of them.
pub open spec fn wheel_events(a: AppView, chat: Area, m: MouseEvent, notches: usize, scrolled: bool) -> int {
    if layout::wheel_is_for_chat(a, chat, m.column, m.row) && scrolled {
        0
    } else if notches > 1 {
        notches as int
    } else {
        1
    }
}

impl App {
    /// Takes several turns of the wheel in one go. `scrolled` tells whether the transcript has
    /// scrolled by them, which it is asked to where `wheel_scrolls_chat` holds; the result is how
    /// often the event is to be handled on its own.
    pub fn handle_coalesced_mouse_scroll(
        &self,
        chat: Area,
        m: MouseEvent,
        notches: usize,
        scrolled: bool,
    ) -> (r: usize)
        ensures
            r == wheel_events(self@, chat, m, notches, scrolled),
    {
        if scrolled && self.wheel_scrolls_chat(chat, m.column, m.row) {
            return 0;
        }
        if notches > 1 {
            notches
        } else {
            1
        }
    }
}

} // verus!

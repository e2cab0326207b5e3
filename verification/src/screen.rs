//! What a frame shows.

use crate::app::{App, AppView, UsageCheck};
use crate::chunks::StreamingRetryStatus;
use crate::commands;
use crate::dialogs;
use crate::focus::{BaseFocus, OverlayFocus};
use crate::keys;
use crate::layout;
use crate::layout::{Area, ChatHeights, SelectedRange};
use crate::live;
use crate::navigation;
use crate::navigation::{SubagentTabs, TabsView};
use crate::remote;
use crate::state;
use crate::terminal_title;
use crate::text;
use crate::ui::{SelectionActionBarState, SelectionActionTarget, Ui};
use vstd::prelude::*;

verus! {

/// What the caller knows of its own parts before it draws.
#[derive(Debug, Clone, Copy, PartialEq, Eq, Structural)]
pub struct FrameScene {
    pub size: Area,
    pub heights: ChatHeights,
    /// How many tokens of an answer have streamed in.
    pub streamed_tokens: usize,
    /// The overlay that has the keyboard has something to show.
    pub overlay: bool,
    /// How far a request over the transcript pushes it up.
    pub padding: usize,
}

/// The popup of suggestions.
#[derive(Debug, Clone, Copy, PartialEq, Eq, Structural)]
pub struct PopupPlan {
    pub anchor: Area,
    pub focused: bool,
}

/// The line of status, which both screens have.
#[derive(Debug)]
pub struct StatusLine {
    pub path: String,
    pub branch: Option<String>,
    pub agent: String,
    pub model: String,
    pub provider: String,
    pub effort: Option<String>,
}

pub struct StatusView {
    pub path: Seq<char>,
    pub branch: Option<Seq<char>>,
    pub agent: Seq<char>,
    pub model: Seq<char>,
    pub provider: Seq<char>,
    pub effort: Option<Seq<char>>,
}

impl View for StatusLine {
    type V = StatusView;

    open spec fn view(&self) -> StatusView {
        StatusView {
            path: self.path@,
            branch: text::opt_view(self.branch),
            agent: self.agent@,
            model: self.model@,
            provider: self.provider@,
            effort: text::opt_view(self.effort),
        }
    }
}

/// What the chat shows besides its transcript and its prompt.
#[derive(Debug)]
pub struct ChatPlan {
    pub title: Option<String>,
    pub tabs: Option<SubagentTabs>,
    pub queued: Vec<String>,
    pub retry: Option<StreamingRetryStatus>,
    pub streaming: bool,
    pub compacting: bool,
    pub esc_primed: bool,
    pub prompt_focused: bool,
    pub padding: usize,
}

pub struct ChatPlanView {
    pub title: Option<Seq<char>>,
    pub tabs: Option<TabsView>,
    pub queued: Seq<Seq<char>>,
    pub retry: Option<state::RetryView>,
    pub streaming: bool,
    pub compacting: bool,
    pub esc_primed: bool,
    pub prompt_focused: bool,
    pub padding: usize,
}

pub open spec fn opt_tabs(t: Option<SubagentTabs>) -> Option<TabsView> {
    match t {
        Some(x) => Some(x@),
        None => None,
    }
}

impl View for ChatPlan {
    type V = ChatPlanView;

    open spec fn view(&self) -> ChatPlanView {
        ChatPlanView {
            title: text::opt_view(self.title),
            tabs: opt_tabs(self.tabs),
            queued: text::views(self.queued@),
            retry: state::opt_retry(self.retry),
            streaming: self.streaming,
            compacting: self.compacting,
            esc_primed: self.esc_primed,
            prompt_focused: self.prompt_focused,
            padding: self.padding,
        }
    }
}

/// A frame: the home screen or the chat, what hangs over it, and whether the usage has to be
/// counted anew.
#[derive(Debug)]
pub struct FramePlan {
    pub status: StatusLine,
    /// The chat; nothing for the home screen.
    pub chat: Option<ChatPlan>,
    pub popup: Option<PopupPlan>,
    pub overlay: Option<OverlayFocus>,
    pub effort_control: Option<String>,
    pub can_launch: bool,
    pub spinner_frame: usize,
    pub padding: usize,
    pub bar: Option<SelectionActionBarState>,
    pub count_usage: bool,
}

pub open spec fn status_of(a: AppView) -> StatusView {
    let shown = if a.base_focus == BaseFocus::Home {
        (a.agent, a.model)
    } else {
        navigation::shown_now(a)
    };
    StatusView {
        path: terminal_title::active_path(a),
        branch: a.ui.title.branch,
        agent: shown.0,
        model: shown.1,
        provider: a.provider_name,
        effort: remote::effort_label(a),
    }
}

/// A request stands over the transcript.
pub open spec fn asks_over_chat(a: AppView) -> bool {
    (a.overlay_focus == OverlayFocus::QuestionDialog && a.questions.len() > 0) || (a.overlay_focus
        == OverlayFocus::PermissionDialog && a.permissions.len() > 0)
}

pub open spec fn padding_of(a: AppView, scene: FrameScene) -> usize {
    if asks_over_chat(a) {
        scene.padding
    } else {
        0
    }
}

pub open spec fn chat_plan(a: AppView, scene: FrameScene) -> ChatPlanView {
    ChatPlanView {
        title: match dialogs::current_place(a) {
            Some(i) => Some(a.sessions[i].title),
            None => None,
        },
        tabs: navigation::tabs_of(a),
        queued: remote::previews(a),
        retry: live::retry_of(a),
        streaming: a.is_streaming,
        compacting: a.compaction is Some,
        esc_primed: a.is_streaming && keys::primed(a),
        prompt_focused: a.overlay_focus == OverlayFocus::Nothing,
        padding: padding_of(a, scene),
    }
}

/// What the usage would be counted for now.
pub open spec fn usage_now(a: AppView, scene: FrameScene) -> UsageCheck {
    UsageCheck {
        messages: a.chat.messages.len() as usize,
        revision: a.chat.revision,
        tokens: if a.is_streaming {
            scene.streamed_tokens / 256
        } else {
            0
        },
    }
}

/// The popup gives way to the dialogs that stand where it does.
pub open spec fn shows_popup(a: AppView) -> bool {
    a.suggestions && a.overlay_focus != OverlayFocus::AgentsDialog && a.overlay_focus
        != OverlayFocus::ModelsDialog && a.overlay_focus != OverlayFocus::ThemesDialog
}

/// The one overlay that is drawn: that with the keyboard, if it has something to show.
pub open spec fn drawn_overlay(a: AppView, scene: FrameScene) -> Option<OverlayFocus> {
    match a.overlay_focus {
        OverlayFocus::Nothing => None,
        OverlayFocus::SuggestionsPopup => None,
        OverlayFocus::FindBar => None,
        OverlayFocus::RefreshModelsDialog => Some(a.overlay_focus),
        OverlayFocus::WhichKey => Some(a.overlay_focus),
        OverlayFocus::PermissionDialog => if a.permissions.len() > 0 {
            Some(a.overlay_focus)
        } else {
            None
        },
        OverlayFocus::QuestionDialog => if a.questions.len() > 0 {
            Some(a.overlay_focus)
        } else {
            None
        },
        OverlayFocus::TerminalSessionDialog => if a.terminals.len() > 0 {
            Some(a.overlay_focus)
        } else {
            None
        },
        _ => if scene.overlay {
            Some(a.overlay_focus)
        } else {
            None
        },
    }
}

impl App {
    fn frame_branch(&self) -> (r: Option<String>)
        ensures
            text::opt_view(r) == self@.ui.title.branch,
    {
        reveal(<Ui as View>::view);
        text::copy_opt(&self.ui.title.branch)
    }

    fn plan_status(&self) -> (r: StatusLine)
        ensures
            r@ == status_of(self@),
    {
        let (agent, model) = if self.base_focus == BaseFocus::Home {
            (self.agent.clone(), self.model.clone())
        } else {
            self.current_session_agent_model_for_display()
        };
        StatusLine {
            path: self.active_workspace_path(),
            branch: self.frame_branch(),
            agent,
            model,
            provider: self.provider_name.clone(),
            effort: self.active_reasoning_effort_label(),
        }
    }

    fn find_padding(&self, scene: &FrameScene) -> (r: usize)
        ensures
            r == padding_of(self@, *scene),
    {
        if (self.overlay_focus == OverlayFocus::QuestionDialog && self.questions.len() > 0) || (
        self.overlay_focus == OverlayFocus::PermissionDialog && self.permissions.len() > 0) {
            scene.padding
        } else {
            0
        }
    }

    pub fn current_session_retry_status(&self) -> (r: Option<StreamingRetryStatus>)
        ensures
            state::opt_retry(r) == live::retry_of(self@),
    {
        match &self.current {
            Some(id) => match state::find_client(&self.clients, id.as_str()) {
                Some(k) => {
                    assert(self@.clients[k as int] == self.clients@[k as int]@);
                    match &self.clients[k].retry_status {
                        Some(s) => Some(
                            StreamingRetryStatus {
                                attempt: s.attempt,
                                message: s.message.clone(),
                                next_epoch_ms: s.next_epoch_ms,
                            },
                        ),
                        None => None,
                    }
                },
                None => None,
            },
            None => None,
        }
    }

    fn current_title(&self) -> (r: Option<String>)
        ensures
            text::opt_view(r) == match dialogs::current_place(self@) {
                Some(i) => Some(self@.sessions[i].title),
                None => None,
            },
    {
        match self.find_current_session() {
            Some(i) => Some(self.sessions[i].title.clone()),
            None => None,
        }
    }

    fn plan_chat(&self, scene: &FrameScene) -> (r: ChatPlan)
        ensures
            r@ == chat_plan(self@, *scene),
    {
        ChatPlan {
            title: self.current_title(),
            tabs: self.subagent_tabs_for_current_session(),
            queued: self.remote_queued_message_previews(),
            retry: self.current_session_retry_status(),
            streaming: self.is_streaming,
            compacting: self.compaction.is_some(),
            esc_primed: self.is_streaming && self.esc_is_primed(),
            prompt_focused: self.overlay_focus == OverlayFocus::Nothing,
            padding: self.find_padding(scene),
        }
    }

    fn plan_popup(&self, scene: &FrameScene) -> (r: Option<PopupPlan>)
        ensures
            r is Some <==> shows_popup(self@),
            r matches Some(p) ==> p.focused == (self@.overlay_focus
                == OverlayFocus::SuggestionsPopup) && layout::is_anchor_area(
                self@,
                scene.size,
                scene.heights,
                p.anchor,
            ),
    {
        if !self.suggestions || self.overlay_focus == OverlayFocus::AgentsDialog
            || self.overlay_focus == OverlayFocus::ModelsDialog || self.overlay_focus
            == OverlayFocus::ThemesDialog {
            return None;
        }
        Some(
            PopupPlan {
                anchor: self.suggestions_popup_anchor_area(scene.size, scene.heights),
                focused: self.overlay_focus == OverlayFocus::SuggestionsPopup,
            },
        )
    }

    fn plan_overlay(&self, scene: &FrameScene) -> (r: Option<OverlayFocus>)
        ensures
            r == drawn_overlay(self@, *scene),
    {
        let shown = match self.overlay_focus {
            OverlayFocus::Nothing => false,
            OverlayFocus::SuggestionsPopup => false,
            OverlayFocus::FindBar => false,
            OverlayFocus::RefreshModelsDialog => true,
            OverlayFocus::WhichKey => true,
            OverlayFocus::PermissionDialog => self.permissions.len() > 0,
            OverlayFocus::QuestionDialog => self.questions.len() > 0,
            OverlayFocus::TerminalSessionDialog => self.terminals.len() > 0,
            _ => scene.overlay,
        };
        assert(self@.terminals.len() == self.terminals@.len());
        if shown {
            Some(self.overlay_focus)
        } else {
            None
        }
    }

    fn frame_ui(&self) -> (r: (usize, Option<SelectionActionBarState>))
        ensures
            r.0 == self@.ui.spinner_frame,
            r.1 == self@.ui.selection_bar,
    {
        reveal(<Ui as View>::view);
        (self.ui.spinner_frame, self.ui.selection_bar)
    }

    /// What the dialog of the models says of the selected model's effort.
    pub fn selected_model_reasoning_control_label(&self, selected: &Option<(String, String)>) -> (r:
        Option<String>)
        ensures
            text::opt_view(r) == match selected {
                Some(m) => self@.reasoning.control_label(m.0@, m.1@),
                None => None,
            },
    {
        match selected {
            Some(m) => self.reasoning.reasoning_control_label_for_model(
                m.0.as_str(),
                m.1.as_str(),
            ),
            None => None,
        }
    }

    /// Plans a frame. `selected` is the provider and the id of the model under the cursor of the
    /// models' dialog.
    pub fn render(&mut self, scene: &FrameScene, selected: &Option<(String, String)>) -> (r:
        FramePlan)
        ensures
            final(self)@ == (AppView {
                usage_stale: false,
                usage_check: usage_now(old(self)@, *scene),
                ..old(self)@
            }),
            r.count_usage == (old(self)@.usage_stale || old(self)@.usage_check != usage_now(
                old(self)@,
                *scene,
            )),
            r.status@ == status_of(old(self)@),
            match r.chat {
                Some(c) => old(self)@.base_focus == BaseFocus::Chat && c@ == chat_plan(
                    old(self)@,
                    *scene,
                ),
                None => old(self)@.base_focus == BaseFocus::Home,
            },
            r.popup is Some <==> shows_popup(old(self)@),
            r.popup matches Some(p) ==> p.focused == (old(self)@.overlay_focus
                == OverlayFocus::SuggestionsPopup) && layout::is_anchor_area(
                old(self)@,
                scene.size,
                scene.heights,
                p.anchor,
            ),
            r.overlay == drawn_overlay(old(self)@, *scene),
            text::opt_view(r.effort_control) == match selected {
                Some(m) => old(self)@.reasoning.control_label(m.0@, m.1@),
                None => None,
            },
            r.can_launch == commands::is_idle(old(self)@),
            r.spinner_frame == old(self)@.ui.spinner_frame,
            r.padding == padding_of(old(self)@, *scene),
            r.bar == old(self)@.ui.selection_bar,
    {
        let (spinner_frame, bar) = self.frame_ui();
        let check = UsageCheck {
            messages: self.chat.messages.len(),
            revision: self.chat.revision,
            tokens: if self.is_streaming {
                scene.streamed_tokens / 256
            } else {
                0
            },
        };
        let chat = if self.base_focus == BaseFocus::Home {
            None
        } else {
            Some(self.plan_chat(scene))
        };
        let plan = FramePlan {
            status: self.plan_status(),
            chat,
            popup: self.plan_popup(scene),
            overlay: self.plan_overlay(scene),
            effort_control: self.selected_model_reasoning_control_label(selected),
            can_launch: self.can_launch_remote_now(),
            spinner_frame,
            padding: self.find_padding(scene),
            bar,
            count_usage: self.usage_stale || self.usage_check != check,
        };
        self.usage_stale = false;
        self.usage_check = check;
        plan
    }

    /// Where the bar of actions beside selected text stands.
    pub fn current_selection_action_bar_area(
        &self,
        size: Area,
        h: ChatHeights,
        scroll: usize,
        range: SelectedRange,
    ) -> (r: Option<Area>)
        requires
            layout::can_anchor(scroll, range.start_line, range.end_line),
        ensures
            match (self@.ui.selection_bar, r) {
                (None, None) => true,
                (Some(bar), Some(area)) => match bar.target {
                    SelectionActionTarget::Chat => exists|chat: Area| #[trigger]
                        layout::is_chat_area(self@, size, h, chat) && area == layout::chat_bar_area(
                            chat,
                            scroll,
                            range,
                            bar,
                        ),
                    SelectionActionTarget::Input => exists|input: Area| #[trigger]
                        layout::is_anchor_area(self@, size, h, input) && area
                            == layout::input_bar_area(size, input),
                },
                _ => false,
            },
    {
        match self.frame_ui().1 {
            None => None,
            Some(bar) => match bar.target {
                SelectionActionTarget::Chat => {
                    let chat = self.chat_area_for_size(size, h);
                    Some(layout::chat_selection_action_bar_area(chat, scroll, range, bar))
                },
                SelectionActionTarget::Input => {
                    let input = self.suggestions_popup_anchor_area(size, h);
                    Some(layout::input_selection_action_bar_area(size, input))
                },
            },
        }
    }
}

/// A frame draws at most one overlay: the one that has the keyboard.
pub proof fn law_only_the_focused_overlay_is_drawn(a: AppView, scene: FrameScene)
    ensures
        drawn_overlay(a, scene) matches Some(o) ==> o == a.overlay_focus,
{
}

/// A request of a running turn is drawn whatever the caller says of its dialogs, as long as it
/// waits.
pub proof fn law_waiting_requests_are_drawn(a: AppView, scene: FrameScene)
    requires
        a.overlay_focus == OverlayFocus::PermissionDialog && a.permissions.len() > 0 || (
        a.overlay_focus == OverlayFocus::QuestionDialog && a.questions.len() > 0) || (
        a.overlay_focus == OverlayFocus::TerminalSessionDialog && a.terminals.len() > 0),
    ensures
        drawn_overlay(a, scene) == Some(a.overlay_focus),
{
}

} // verus!

//! Going back in a session: copying from it, forking it, and undoing what was said.

use crate::app;
use crate::app::{App, AppView};
use crate::branching;
use crate::dialogs;
use crate::focus::{BaseFocus, OverlayFocus};
use crate::json;
use crate::json::{DocView, FieldView, JsonDoc, JsonField};
use crate::message;
use crate::message::{Message, MessageRole, MessageView};
use crate::prompting;
use crate::session;
use crate::session::SessionView;
use crate::state;
use crate::state::{ChatView, Effect, EffectView, Input, ToastLevel};
use crate::stream;
use crate::text;
use crate::titles;
use crate::ui::{Ui, UiView};
use vstd::prelude::*;
use vstd::string::*;

verus! {

/// What an agent wrote or a tool reported.
pub open spec fn is_answer(m: MessageView) -> bool {
    m.role == MessageRole::Assistant || m.role == MessageRole::Tool
}

/// Where the answer that ends before `i` begins.
pub open spec fn answer_start(ms: Seq<MessageView>, i: int) -> int
    decreases i,
{
    if 0 < i <= ms.len() && is_answer(ms[i - 1]) {
        answer_start(ms, i - 1)
    } else {
        i
    }
}

/// Where the answer that goes on at `i` ends.
pub open spec fn answer_end(ms: Seq<MessageView>, i: int) -> int
    decreases ms.len() - i,
{
    if 0 <= i < ms.len() && is_answer(ms[i]) {
        answer_end(ms, i + 1)
    } else {
        i
    }
}

/// The messages that belong together around message `i`: a whole answer, or a prompt alone.
pub open spec fn block_of(ms: Seq<MessageView>, i: int) -> Option<(int, int)> {
    if i < 0 || i >= ms.len() {
        None
    } else if is_answer(ms[i]) {
        Some((answer_start(ms, i), answer_end(ms, i + 1)))
    } else {
        Some((i, i + 1))
    }
}

pub proof fn lemma_answer_bounds(ms: Seq<MessageView>, i: int)
    requires
        0 <= i <= ms.len(),
    ensures
        0 <= answer_start(ms, i) <= i,
        i <= answer_end(ms, i) <= ms.len(),
    decreases ms.len() - i,
{
    lemma_answer_start(ms, i);
    if i < ms.len() && is_answer(ms[i]) {
        lemma_answer_bounds(ms, i + 1);
    }
}

proof fn lemma_answer_start(ms: Seq<MessageView>, i: int)
    requires
        0 <= i <= ms.len(),
    ensures
        0 <= answer_start(ms, i) <= i,
    decreases i,
{
    if i > 0 && is_answer(ms[i - 1]) {
        lemma_answer_start(ms, i - 1);
    }
}

fn is_answer_message(m: &Message) -> (r: bool)
    ensures
        r == is_answer(m@),
{
    m.role == MessageRole::Assistant || m.role == MessageRole::Tool
}

pub fn logical_message_block_range(ms: &Vec<Message>, i: usize) -> (r: Option<(usize, usize)>)
    ensures
        block_of(message::messages_view(ms@), i as int) == match r {
            Some(b) => Some((b.0 as int, b.1 as int)),
            None => None,
        },
        r matches Some(b) ==> b.0 <= i < b.1 <= ms@.len(),
{
    let ghost all = message::messages_view(ms@);
    let n: usize = ms.len();
    if i >= n {
        return None;
    }
    assert(all[i as int] == ms@[i as int]@);
    if !is_answer_message(&ms[i]) {
        return Some((i, i + 1));
    }
    let mut start: usize = i;
    while start > 0 && is_answer_message(&ms[start - 1])
        invariant
            start <= i < n,
            n == ms@.len(),
            all == message::messages_view(ms@),
            answer_start(all, start as int) == answer_start(all, i as int),
        decreases start,
    {
        start -= 1;
    }
    let mut end: usize = i + 1;
    while end < n && is_answer_message(&ms[end])
        invariant
            i < end <= n,
            n == ms@.len(),
            all == message::messages_view(ms@),
            answer_end(all, end as int) == answer_end(all, i as int + 1),
        decreases n - end,
    {
        end += 1;
    }
    Some((start, end))
}

/// How many messages a fork takes along: all, or those through the block of one message.
pub open spec fn fork_end(ms: Seq<MessageView>, through: Option<usize>) -> int {
    match through {
        Some(i) => match block_of(ms, i as int) {
            Some(b) => b.1,
            None => ms.len() as int,
        },
        None => ms.len() as int,
    }
}

/// A session filled with messages that were said elsewhere.
#[verifier::opaque]
pub open spec fn refilled(a: AppView, ms: Seq<MessageView>) -> AppView {
    app::with_effect(
        AppView {
            sessions: match dialogs::current_place(a) {
                Some(i) => a.sessions.update(
                    i,
                    SessionView {
                        messages: a.sessions[i].messages + ms,
                        updated_at: a.now,
                        ..a.sessions[i]
                    },
                ),
                None => a.sessions,
            },
            chat: state::with_messages(state::cleared_chat(a.chat), ms),
            base_focus: BaseFocus::Chat,
            ..a
        },
        EffectView::ScrollToBottom,
    )
}

pub open spec fn fork_notice(through: Option<usize>) -> Seq<char> {
    match through {
        Some(i) => "Forked session from message "@ + text::decimal((i + 1) as nat),
        None => "Forked session"@,
    }
}

/// What a fork would take along; nothing where there is no session.
pub open spec fn fork_messages(a: AppView, through: Option<usize>) -> Option<Seq<MessageView>> {
    match dialogs::current_place(a) {
        Some(i) => Some(
            a.sessions[i].messages.take(fork_end(a.sessions[i].messages, through)),
        ),
        None => None,
    }
}

pub open spec fn can_fork(a: AppView, through: Option<usize>) -> bool {
    fork_messages(a, through) matches Some(ms) && ms.len() > 0
}

/// A new session that begins with the messages of the current one.
#[verifier::opaque]
pub open spec fn forked(a: AppView, through: Option<usize>) -> AppView {
    match fork_messages(a, through) {
        None => prompting::complained(a, "No active session to fork"@, 3),
        Some(ms) => if ms.len() == 0 {
            prompting::complained(a, "Nothing to fork"@, 3)
        } else {
            app::toasted(
                refilled(
                    prompting::session_created(
                        a,
                        titles::fork_title(a.sessions[dialogs::current_place(a)->0].title),
                    ),
                    ms,
                ),
                ToastLevel::Info,
                fork_notice(through),
                0,
            )
        },
    }
}

/// Message `idx` of the current session, as it is saved.
pub open spec fn saved_message(a: AppView, idx: usize) -> Option<MessageView> {
    match dialogs::current_place(a) {
        Some(i) => if idx < a.sessions[i].messages.len() {
            Some(a.sessions[i].messages[idx as int])
        } else {
            None
        },
        None => None,
    }
}

/// Only what the user said can be undone.
pub open spec fn can_undo(a: AppView, idx: usize) -> bool {
    saved_message(a, idx) matches Some(m) && m.role == MessageRole::User
}

pub open spec fn has_markdown(a: AppView, idx: usize) -> bool {
    saved_message(a, idx) matches Some(m) && message::response_text(m) is Some
}

/// An action that a dialog offers.
#[derive(Debug)]
pub struct ActionItem {
    pub id: String,
    pub key: char,
    pub label: String,
    pub description: String,
}

pub struct ActionView {
    pub id: Seq<char>,
    pub key: char,
    pub label: Seq<char>,
    pub description: Seq<char>,
}

impl View for ActionItem {
    type V = ActionView;

    open spec fn view(&self) -> ActionView {
        ActionView {
            id: self.id@,
            key: self.key,
            label: self.label@,
            description: self.description@,
        }
    }
}

pub open spec fn action_views(v: Seq<ActionItem>) -> Seq<ActionView> {
    v.map_values(|i: ActionItem| i@)
}

pub open spec fn copy_action() -> ActionView {
    ActionView {
        id: "copy"@,
        key: 'c',
        label: "Copy"@,
        description: "Copy message to clipboard"@,
    }
}

pub open spec fn markdown_action() -> ActionView {
    ActionView {
        id: "copy_response_markdown"@,
        key: 'm',
        label: "Copy text response as markdown"@,
        description: "Copy only the assistant's text response as Markdown"@,
    }
}

pub open spec fn fork_action() -> ActionView {
    ActionView {
        id: "fork"@,
        key: 'f',
        label: "Fork at this point"@,
        description: "Create new session (Will include this message)"@,
    }
}

pub open spec fn undo_action() -> ActionView {
    ActionView {
        id: "undo"@,
        key: 'u',
        label: "Undo"@,
        description: "Remove messages from here onward"@,
    }
}

pub open spec fn message_actions(a: AppView, idx: usize) -> Seq<ActionView> {
    seq![copy_action()] + (if has_markdown(a, idx) {
        seq![markdown_action()]
    } else {
        Seq::empty()
    }) + seq![fork_action()] + (if can_undo(a, idx) {
        seq![undo_action()]
    } else {
        Seq::empty()
    })
}

/// The actions for a message, with the dialog that was on the screen to come back to.
pub open spec fn actions_shown(a: AppView, idx: usize, back: OverlayFocus) -> AppView {
    dialogs::shown(
        AppView {
            ui: UiView {
                message_actions_index: Some(idx),
                message_actions_return: back,
                ..a.ui
            },
            ..a
        },
        OverlayFocus::MessageActions,
    )
}

/// The actions put away; where they came from the chat, its light goes out.
pub open spec fn actions_closed(a: AppView) -> AppView {
    if a.ui.message_actions_return == OverlayFocus::Nothing {
        dialogs::highlighted(actions_left(a), None)
    } else {
        actions_left(a)
    }
}

#[verifier::opaque]
pub open spec fn actions_left(a: AppView) -> AppView {
    AppView {
        overlay_focus: a.ui.message_actions_return,
        ui: UiView {
            message_actions_index: None,
            message_actions_return: OverlayFocus::TimelineDialog,
            ..a.ui
        },
        ..a
    }
}

pub open spec fn copied(a: AppView, t: Seq<char>, done: Seq<char>) -> AppView {
    app::with_effect(a, EffectView::CopyText { text: t, done })
}

pub open spec fn block_copied(a: AppView, idx: usize) -> AppView {
    match dialogs::current_place(a) {
        Some(i) => match block_of(a.sessions[i].messages, idx as int) {
            Some(b) => app::toasted(
                copied(a, message::block_text(a.sessions[i].messages, b.0, b.1), ""@),
                ToastLevel::Info,
                "Copied to clipboard"@,
                0,
            ),
            None => a,
        },
        None => a,
    }
}

pub open spec fn markdown_copied(a: AppView, idx: usize) -> AppView {
    match saved_message(a, idx) {
        Some(m) => match message::response_text(m) {
            Some(t) => copied(a, t, "Text response copied as Markdown"@),
            None => a,
        },
        None => a,
    }
}

pub open spec fn timeline_gone(a: AppView) -> AppView {
    app::with_effect(
        dialogs::blurred(actions_closed(a)),
        EffectView::HideDialog { dialog: OverlayFocus::TimelineDialog },
    )
}

/// The session without the messages from `idx` on, and the prompt back in the input.
#[verifier::opaque]
pub open spec fn undone(a: AppView, idx: usize) -> AppView {
    match dialogs::current_place(a) {
        Some(i) => {
            let ms = a.sessions[i].messages;
            let m = ms[idx as int];
            app::with_effect(
                AppView {
                    sessions: a.sessions.update(
                        i,
                        SessionView { messages: ms.take(idx as int), ..a.sessions[i] },
                    ),
                    chat: ChatView {
                        highlighted: None,
                        ..state::with_messages(a.chat, ms.take(idx as int))
                    },
                    input: state::input_of(m.content, m.local_image_paths),
                    ..a
                },
                EffectView::ScrollToBottom,
            )
        },
        None => a,
    }
}

pub open spec fn undo_done(a: AppView, idx: usize) -> AppView {
    if can_undo(a, idx) {
        timeline_gone(
            app::toasted(
                undone(a, idx),
                ToastLevel::Info,
                "Removed "@ + text::decimal(idx as nat) + " message(s)"@,
                0,
            ),
        )
    } else {
        actions_closed(a)
    }
}

pub open spec fn fork_done(a: AppView, idx: usize) -> AppView {
    if can_fork(a, Some(idx)) {
        timeline_gone(forked(a, Some(idx)))
    } else {
        forked(a, Some(idx))
    }
}

/// What an action does to the message that was picked.
pub open spec fn action_done(a: AppView, action: Seq<char>) -> AppView {
    match a.ui.message_actions_index {
        Some(idx) => if action == "copy"@ {
            actions_closed(block_copied(a, idx))
        } else if action == "copy_response_markdown"@ {
            actions_closed(markdown_copied(a, idx))
        } else if action == "fork"@ {
            fork_done(a, idx)
        } else if action == "undo"@ {
            undo_done(a, idx)
        } else {
            a
        },
        None => a,
    }
}

impl App {
    fn messages_to_fork(&self, through: Option<usize>) -> (r: Option<Vec<Message>>)
        ensures
            fork_messages(self@, through) == match r {
                Some(ms) => Some(message::messages_view(ms@)),
                None => None,
            },
    {
        match self.find_current_session() {
            Some(i) => {
                let n: usize = self.sessions[i].messages.len();
                let end: usize = match through {
                    Some(idx) => match logical_message_block_range(&self.sessions[i].messages, idx) {
                        Some(b) => b.1,
                        None => n,
                    },
                    None => n,
                };
                assert(message::messages_view(self.sessions@[i as int].messages@).take(end as int)
                    =~= message::messages_view(
                    self.sessions@[i as int].messages@.take(end as int),
                ));
                Some(message::copy_messages_to(&self.sessions[i].messages, end))
            },
            None => None,
        }
    }

    fn refill(&mut self, messages: Vec<Message>)
        ensures
            final(self)@ == refilled(old(self)@, message::messages_view(messages@)),
    {
        reveal(refilled);
        let copies = message::copy_messages(&messages);
        match self.find_current_session() {
            Some(i) => {
                self.add_saved_messages(i, copies);
            },
            None => {},
        }
        self.chat.clear();
        self.chat.replace_messages(messages);
        self.base_focus = BaseFocus::Chat;
        self.push_effect(Effect::ScrollToBottom);
    }

    fn add_saved_messages(&mut self, i: usize, messages: Vec<Message>)
        requires
            i < old(self).sessions@.len(),
        ensures
            final(self)@ == (AppView {
                sessions: old(self)@.sessions.update(
                    i as int,
                    SessionView {
                        messages: old(self)@.sessions[i as int].messages
                            + message::messages_view(messages@),
                        updated_at: old(self)@.now,
                        ..old(self)@.sessions[i as int]
                    },
                ),
                ..old(self)@
            }),
    {
        let ghost before = self.sessions@;
        append_messages(&mut self.sessions[i].messages, messages);
        self.sessions[i].updated_at = self.now;
        proof {
            assert(self.sessions@ =~= before.update(i as int, self.sessions@[i as int]));
            app::lemma_sessions_update(before, i as int, self.sessions@[i as int]);
        }
    }

    /// Forks the current session; says whether that was done.
    pub fn fork_current_session(&mut self, through: Option<usize>) -> (r: bool)
        ensures
            r == can_fork(old(self)@, through),
            final(self)@ == forked(old(self)@, through),
            dialogs::current_place(old(self)@) is Some && old(self)@.sessions[dialogs::current_place(
                old(self)@,
            )->0].messages.len() > 0 && !stream::exists_session(
                old(self)@,
                old(self)@.next_session_id,
            ) ==> branching::is_forked(
                old(self)@.sessions[dialogs::current_place(old(self)@)->0].messages,
                through,
                final(self)@.chat.messages,
            ),
    {
        proof {
            if let Some(p) = dialogs::current_place(self@) {
                if self@.sessions[p].messages.len() > 0 && !stream::exists_session(
                    self@,
                    self@.next_session_id,
                ) {
                    branching::law_forks_hold_what_was_picked(self@, p, through);
                }
            }
        }
        reveal(forked);
        let messages = match self.messages_to_fork(through) {
            Some(ms) => ms,
            None => {
                self.complain("No active session to fork", 3);
                return false;
            },
        };
        assert(message::messages_view(messages@).len() == messages@.len());
        if messages.len() == 0 {
            self.complain("Nothing to fork", 3);
            return false;
        }
        let title = match self.find_current_session() {
            Some(i) => titles::fork_title_from_session_title(self.sessions[i].title.as_str()),
            None => String::new(),
        };
        self.create_new_session(title.as_str());
        self.refill(messages);
        let notice = fork_notice_text(through);
        self.push_toast(ToastLevel::Info, notice.as_str(), 0);
        true
    }

    fn find_saved_message(&self, idx: usize) -> (r: Option<(usize, usize)>)
        ensures
            match r {
                Some(p) => p.0 < self.sessions@.len() && p.1 == idx && idx
                    < self.sessions@[p.0 as int].messages@.len() && saved_message(self@, idx)
                    == Some(self.sessions@[p.0 as int].messages@[idx as int]@)
                    && dialogs::current_place(self@) == Some(p.0 as int),
                None => saved_message(self@, idx) is None,
            },
    {
        match self.find_current_session() {
            Some(i) => if idx < self.sessions[i].messages.len() {
                Some((i, idx))
            } else {
                None
            },
            None => None,
        }
    }

    pub fn selected_message_can_undo(&self, idx: usize) -> (r: bool)
        ensures
            r == can_undo(self@, idx),
    {
        match self.find_saved_message(idx) {
            Some((i, j)) => self.sessions[i].messages[j].role == MessageRole::User,
            None => false,
        }
    }

    fn message_has_markdown(&self, idx: usize) -> (r: bool)
        ensures
            r == has_markdown(self@, idx),
    {
        match self.find_saved_message(idx) {
            Some((i, j)) => {
                message::message_response_markdown(&self.sessions[i].messages[j]).is_some()
            },
            None => false,
        }
    }

    /// The actions to offer for a message.
    pub fn message_action_items(&self, idx: usize) -> (r: Vec<ActionItem>)
        ensures
            action_views(r@) == message_actions(self@, idx),
    {
        let mut items: Vec<ActionItem> = Vec::new();
        items.push(make_action("copy", 'c', "Copy", "Copy message to clipboard"));
        assert(action_views(items@) =~= seq![copy_action()] + Seq::<ActionView>::empty());
        if self.message_has_markdown(idx) {
            items.push(
                make_action(
                    "copy_response_markdown",
                    'm',
                    "Copy text response as markdown",
                    "Copy only the assistant's text response as Markdown",
                ),
            );
            assert(action_views(items@) =~= seq![copy_action()] + seq![markdown_action()]);
        }
        let ghost before = action_views(items@);
        items.push(
            make_action(
                "fork",
                'f',
                "Fork at this point",
                "Create new session (Will include this message)",
            ),
        );
        assert(action_views(items@) =~= before + seq![fork_action()] + Seq::<ActionView>::empty());
        if self.selected_message_can_undo(idx) {
            items.push(
                make_action("undo", 'u', "Undo", "Remove messages from here onward"),
            );
            assert(action_views(items@) =~= before + seq![fork_action()] + seq![undo_action()]);
        }
        items
    }

    pub fn show_message_actions_from(&mut self, idx: usize, back: OverlayFocus)
        ensures
            final(self)@ == actions_shown(old(self)@, idx, back),
    {
        reveal(<Ui as View>::view);
        self.ui.message_actions_index = Some(idx);
        self.ui.message_actions_return = back;
        self.show_dialog(OverlayFocus::MessageActions);
    }

    /// Offers the actions for a message, from the timeline if that is on the screen.
    pub fn show_message_actions(&mut self, idx: usize)
        ensures
            final(self)@ == actions_shown(
                old(self)@,
                idx,
                if old(self)@.overlay_focus == OverlayFocus::TimelineDialog {
                    OverlayFocus::TimelineDialog
                } else {
                    OverlayFocus::Nothing
                },
            ),
    {
        let back = if self.overlay_focus == OverlayFocus::TimelineDialog {
            OverlayFocus::TimelineDialog
        } else {
            OverlayFocus::Nothing
        };
        self.show_message_actions_from(idx, back);
    }

    fn leave_message_actions(&mut self) -> (r: OverlayFocus)
        ensures
            r == old(self)@.ui.message_actions_return,
            final(self)@ == actions_left(old(self)@),
    {
        reveal(<Ui as View>::view);
        reveal(actions_left);
        let back = self.ui.message_actions_return;
        self.ui.message_actions_index = None;
        self.ui.message_actions_return = OverlayFocus::TimelineDialog;
        self.overlay_focus = back;
        back
    }

    pub fn close_message_actions(&mut self)
        ensures
            final(self)@ == actions_closed(old(self)@),
    {
        let back = self.leave_message_actions();
        if back == OverlayFocus::Nothing {
            self.highlight(None);
        }
    }

    fn highlight(&mut self, idx: Option<usize>)
        ensures
            final(self)@ == dialogs::highlighted(old(self)@, idx),
    {
        self.chat.highlighted = idx;
    }

    pub fn copy_text(&mut self, t: &str, done: &str)
        ensures
            final(self)@ == copied(old(self)@, t@, done@),
    {
        self.push_effect(Effect::CopyText { text: t.to_owned(), done: done.to_owned() });
    }

    fn copy_block(&mut self, idx: usize)
        ensures
            final(self)@ == block_copied(old(self)@, idx),
    {
        let t = match self.find_current_session() {
            Some(i) => match logical_message_block_range(&self.sessions[i].messages, idx) {
                Some(b) => message::message_block_clipboard_text(
                    &self.sessions[i].messages,
                    b.0,
                    b.1,
                ),
                None => {
                    return ;
                },
            },
            None => {
                return ;
            },
        };
        self.copy_text(t.as_str(), "");
        self.push_toast(ToastLevel::Info, "Copied to clipboard", 0);
    }

    fn copy_markdown(&mut self, idx: usize)
        ensures
            final(self)@ == markdown_copied(old(self)@, idx),
    {
        let t = match self.find_saved_message(idx) {
            Some((i, j)) => match message::message_response_markdown(&self.sessions[i].messages[j]) {
                Some(t) => t,
                None => {
                    return ;
                },
            },
            None => {
                return ;
            },
        };
        self.copy_text(t.as_str(), "Text response copied as Markdown");
    }

    fn leave_timeline(&mut self)
        ensures
            final(self)@ == timeline_gone(old(self)@),
    {
        self.close_message_actions();
        self.overlay_focus = OverlayFocus::Nothing;
        self.push_effect(Effect::HideDialog { dialog: OverlayFocus::TimelineDialog });
    }

    fn undo(&mut self, idx: usize)
        requires
            can_undo(old(self)@, idx),
        ensures
            final(self)@ == undone(old(self)@, idx),
    {
        reveal(undone);
        match self.find_saved_message(idx) {
            Some((i, j)) => {
                let said = self.sessions[i].messages[j].copy();
                self.truncate_saved(i, idx);
                let rest = message::copy_messages(&self.sessions[i].messages);
                assert(self@.sessions[i as int] == self.sessions@[i as int]@);
                self.chat.replace_messages(rest);
                self.chat.highlighted = None;
                self.input = Input::with_text_and_images(said.content, said.local_image_paths);
                self.push_effect(Effect::ScrollToBottom);
            },
            None => {},
        }
    }

    fn truncate_saved(&mut self, i: usize, n: usize)
        requires
            i < old(self).sessions@.len(),
            n < old(self).sessions@[i as int].messages@.len(),
        ensures
            final(self)@ == (AppView {
                sessions: old(self)@.sessions.update(
                    i as int,
                    SessionView {
                        messages: old(self)@.sessions[i as int].messages.take(n as int),
                        ..old(self)@.sessions[i as int]
                    },
                ),
                ..old(self)@
            }),
            final(self).sessions@.len() == old(self).sessions@.len(),
    {
        let ghost before = self.sessions@;
        let ghost said = self.sessions@[i as int].messages@;
        self.sessions[i].messages.truncate(n);
        proof {
            assert(message::messages_view(said.take(n as int)) =~= message::messages_view(
                said,
            ).take(n as int));
            assert(self.sessions@[i as int].messages@ =~= said.take(n as int));
            assert(self.sessions@ =~= before.update(i as int, self.sessions@[i as int]));
            app::lemma_sessions_update(before, i as int, self.sessions@[i as int]);
        }
    }

    fn do_undo(&mut self, idx: usize)
        ensures
            final(self)@ == undo_done(old(self)@, idx),
    {
        if !self.selected_message_can_undo(idx) {
            self.close_message_actions();
            return ;
        }
        self.undo(idx);
        let mut t = "Removed ".to_string();
        t.append(text::decimal_of(idx).as_str());
        t.append(" message(s)");
        self.push_toast(ToastLevel::Info, t.as_str(), 0);
        self.leave_timeline();
    }

    fn do_fork(&mut self, idx: usize)
        ensures
            final(self)@ == fork_done(old(self)@, idx),
    {
        if self.fork_current_session(Some(idx)) {
            self.leave_timeline();
        }
    }

    /// Does what was chosen for the message that was picked.
    pub fn execute_message_action(&mut self, action: &str)
        ensures
            final(self)@ == action_done(old(self)@, action@),
    {
        reveal(<Ui as View>::view);
        let idx = match self.ui.message_actions_index {
            Some(idx) => idx,
            None => {
                return ;
            },
        };
        if text::same(action, "copy") {
            self.copy_block(idx);
            self.close_message_actions();
            return ;
        }
        if text::same(action, "copy_response_markdown") {
            self.copy_markdown(idx);
            self.close_message_actions();
            return ;
        }
        if text::same(action, "fork") {
            self.do_fork(idx);
            return ;
        }
        if text::same(action, "undo") {
            self.do_undo(idx);
        }
    }
}

fn fork_notice_text(through: Option<usize>) -> (r: String)
    ensures
        r@ == fork_notice(through),
{
    match through {
        Some(i) => {
            let mut t = "Forked session from message ".to_string();
            t.append(text::decimal_after(i).as_str());
            t
        },
        None => "Forked session".to_string(),
    }
}

fn make_action(id: &str, key: char, label: &str, description: &str) -> (r: ActionItem)
    ensures
        r@ == (ActionView { id: id@, key, label: label@, description: description@ }),
{
    ActionItem {
        id: id.to_owned(),
        key,
        label: label.to_owned(),
        description: description.to_owned(),
    }
}

fn append_messages(messages: &mut Vec<Message>, added: Vec<Message>)
    ensures
        message::messages_view(final(messages)@) == message::messages_view(old(messages)@)
            + message::messages_view(added@),
{
    let ghost before = message::messages_view(messages@);
    let ghost all = message::messages_view(added@);
    assert(message::messages_view(messages@) =~= before + all.take(0));
    for m in it: added
        invariant
            all == message::messages_view(it.seq()),
            message::messages_view(messages@) == before + all.take(it.index()),
    {
        let ghost so_far = messages@;
        messages.push(m);
        assert(all[it.index()] == m@);
        assert(all.take(it.index() + 1) =~= all.take(it.index()).push(m@));
        assert(message::messages_view(messages@) =~= message::messages_view(so_far).push(m@));
        assert(message::messages_view(messages@) =~= before + all.take(it.index() + 1));
    }
    assert(all.take(all.len() as int) =~= all);
}

/// How one message stands in a copied transcript.
pub open spec fn transcript_entry(m: MessageView, duration: Seq<char>) -> Seq<char> {
    match m.role {
        MessageRole::User => "## User\n\n"@ + m.content + "\n\n---\n\n"@,
        MessageRole::Assistant => "## Assistant ("@ + (match m.agent_mode {
            Some(agent) => agent,
            None => "Build"@,
        }) + " · "@ + (match m.model {
            Some(model) => model,
            None => "unknown"@,
        }) + duration + ")\n\n"@ + m.content + "\n\n---\n\n"@,
        MessageRole::Tool => "**Tool Result**\n\n"@ + tool_entry(json::json_parse(m.content))
            + "\n---\n\n"@,
        MessageRole::System => ""@,
    }
}

pub open spec fn args_text(f: FieldView) -> Seq<char> {
    match f {
        FieldView::Text(s) => json::json_quoted(s),
        FieldView::Raw(s) => message::pretty_or_same(s),
    }
}

/// What a tool's report says of its name, its arguments and its output.
pub open spec fn tool_entry(report: Option<DocView>) -> Seq<char> {
    match report {
        Some(doc) => (match json::doc_str(doc, "name"@) {
            Some(name) => "**Tool:** "@ + name + "\n"@,
            None => ""@,
        }) + (match json::doc_member(doc, "args"@) {
            Some(f) => "**Arguments:**\n```json\n"@ + args_text(f) + "\n```\n"@,
            None => ""@,
        }) + (match json::doc_str(doc, "output_preview"@) {
            Some(out) => "**Output:**\n```\n"@ + out + "\n```\n"@,
            None => ""@,
        }),
        None => ""@,
    }
}

pub open spec fn transcript_body(ms: Seq<MessageView>, durations: Seq<Seq<char>>) -> Seq<char>
    decreases ms.len(),
{
    if ms.len() == 0 {
        Seq::empty()
    } else {
        transcript_body(ms.drop_last(), durations) + transcript_entry(
            ms.last(),
            if ms.len() <= durations.len() {
                durations[ms.len() - 1]
            } else {
                ""@
            },
        )
    }
}

/// A session as Markdown. How long each answer took is told by the caller, answer by answer, as
/// it is to be shown.
pub open spec fn transcript_of(
    title: Seq<char>,
    ms: Seq<MessageView>,
    durations: Seq<Seq<char>>,
) -> Seq<char> {
    "# "@ + title + "\n\n"@ + transcript_body(ms, durations)
}

fn optional(lead: &str, middle: Option<String>, tail: &str) -> (r: String)
    ensures
        r@ == match text::opt_view(middle) {
            Some(m) => lead@ + m + tail@,
            None => ""@,
        },
{
    match middle {
        Some(m) => {
            let mut out = lead.to_owned();
            out.append(m.as_str());
            out.append(tail);
            out
        },
        None => "".to_string(),
    }
}

fn write_tool_entry(content: &str) -> (r: String)
    ensures
        r@ == tool_entry(json::json_parse(content@)),
{
    match json::parse_json(content) {
        Some(doc) => {
            let mut out = optional("**Tool:** ", doc.get_str("name"), "\n");
            let args: Option<String> = match doc.get("args") {
                Some(JsonField::Text(s)) => Some(json::quote_json(s.as_str())),
                Some(JsonField::Raw(s)) => Some(message::prettied(s)),
                None => None,
            };
            let middle = optional("**Arguments:**\n```json\n", args, "\n```\n");
            out.append(middle.as_str());
            let tail = optional("**Output:**\n```\n", doc.get_str("output_preview"), "\n```\n");
            out.append(tail.as_str());
            out
        },
        None => "".to_string(),
    }
}

fn write_entry(m: &Message, duration: &str) -> (r: String)
    ensures
        r@ == transcript_entry(m@, duration@),
{
    match m.role {
        MessageRole::User => {
            let mut out = "## User\n\n".to_string();
            out.append(m.content.as_str());
            out.append("\n\n---\n\n");
            out
        },
        MessageRole::Assistant => {
            let mut out = "## Assistant (".to_string();
            match &m.agent_mode {
                Some(agent) => out.append(agent.as_str()),
                None => out.append("Build"),
            }
            out.append(" · ");
            match &m.model {
                Some(model) => out.append(model.as_str()),
                None => out.append("unknown"),
            }
            out.append(duration);
            out.append(")\n\n");
            out.append(m.content.as_str());
            out.append("\n\n---\n\n");
            out
        },
        MessageRole::Tool => {
            let mut out = "**Tool Result**\n\n".to_string();
            let entry = write_tool_entry(m.content.as_str());
            out.append(entry.as_str());
            out.append("\n---\n\n");
            out
        },
        MessageRole::System => "".to_string(),
    }
}

pub fn session_transcript(title: &str, ms: &Vec<Message>, durations: &Vec<String>) -> (r: String)
    ensures
        r@ == transcript_of(title@, message::messages_view(ms@), text::views(durations@)),
{
    let ghost all = message::messages_view(ms@);
    let ghost times = text::views(durations@);
    let mut out = "# ".to_string();
    out.append(title);
    out.append("\n\n");
    let ghost head = out@;
    assert(out@ =~= head + transcript_body(all.take(0), times));
    for i in 0..ms.len()
        invariant
            all == message::messages_view(ms@),
            times == text::views(durations@),
            out@ == head + transcript_body(all.take(i as int), times),
    {
        proof {
            assert(all.take(i as int + 1).drop_last() =~= all.take(i as int));
            assert(all.take(i as int + 1).last() == ms@[i as int]@);
        }
        let entry = if i < durations.len() {
            write_entry(&ms[i], durations[i].as_str())
        } else {
            write_entry(&ms[i], "")
        };
        let ghost before = out@;
        out.append(entry.as_str());
        assert(out@ =~= head + transcript_body(all.take(i as int + 1), times));
    }
    assert(all.take(all.len() as int) =~= all);
    out
}

pub open spec fn current_title(a: AppView) -> Option<Seq<char>> {
    match dialogs::current_place(a) {
        Some(i) => Some(a.sessions[i].title),
        None => None,
    }
}

#[verifier::opaque]
pub open spec fn transcript_copied(a: AppView, durations: Seq<Seq<char>>) -> AppView {
    copied(
        a,
        transcript_of(
            match current_title(a) {
                Some(t) => t,
                None => "Untitled"@,
            },
            a.chat.messages,
            durations,
        ),
        "Session transcript copied to clipboard!"@,
    )
}

/// What is chosen in the copy dialog, which then closes.
pub open spec fn copy_done(a: AppView, action: Seq<char>, durations: Seq<Seq<char>>) -> AppView {
    dialogs::blurred(
        if action == "transcript"@ {
            transcript_copied(a, durations)
        } else if action == "id"@ {
            id_copied(a)
        } else if action == "title"@ {
            title_copied(a)
        } else {
            a
        },
    )
}

#[verifier::opaque]
pub open spec fn id_copied(a: AppView) -> AppView {
    match a.current {
        Some(id) => copied(a, id, "Session id copied to clipboard"@),
        None => prompting::complained(a, "No active session id to copy"@, 3),
    }
}

#[verifier::opaque]
pub open spec fn title_copied(a: AppView) -> AppView {
    match current_title(a) {
        Some(t) => copied(a, t, "Session title copied to clipboard"@),
        None => prompting::complained(a, "No active session title to copy"@, 3),
    }
}

impl App {
    pub fn copy_session_transcript(&mut self, durations: &Vec<String>)
        ensures
            final(self)@ == transcript_copied(old(self)@, text::views(durations@)),
    {
        reveal(transcript_copied);
        let title = match self.find_current_session() {
            Some(i) => self.sessions[i].title.clone(),
            None => "Untitled".to_string(),
        };
        let t = session_transcript(title.as_str(), &self.chat.messages, durations);
        self.copy_text(t.as_str(), "Session transcript copied to clipboard!");
    }

    fn copy_id(&mut self)
        ensures
            final(self)@ == id_copied(old(self)@),
    {
        reveal(id_copied);
        match text::copy_opt(&self.current) {
            Some(id) => {
                self.copy_text(id.as_str(), "Session id copied to clipboard");
            },
            None => {
                self.complain("No active session id to copy", 3);
            },
        }
    }

    fn copy_title(&mut self)
        ensures
            final(self)@ == title_copied(old(self)@),
    {
        reveal(title_copied);
        let title = match self.find_current_session() {
            Some(i) => self.sessions[i].title.clone(),
            None => {
                self.complain("No active session title to copy", 3);
                return ;
            },
        };
        self.copy_text(title.as_str(), "Session title copied to clipboard");
    }

    pub fn execute_copy_action(&mut self, action: &str, durations: &Vec<String>)
        ensures
            final(self)@ == copy_done(old(self)@, action@, text::views(durations@)),
    {
        if text::same(action, "transcript") {
            self.copy_session_transcript(durations);
            self.blur();
            return ;
        }
        if text::same(action, "id") {
            self.copy_id();
            self.blur();
            return ;
        }
        if text::same(action, "title") {
            self.copy_title();
            self.blur();
            return ;
        }
        self.blur();
    }
}

/// A fork takes the picked message along, and what it takes is the beginning of the session.
pub proof fn law_fork_takes_the_picked_message(ms: Seq<MessageView>, through: usize)
    requires
        through < ms.len(),
    ensures
        through < fork_end(ms, Some(through)) <= ms.len(),
        fork_end(ms, None) == ms.len(),
{
    lemma_answer_bounds(ms, through + 1);
}

/// What an undo removes and what it leaves make up the session, and the prompt it removes comes
/// back as it was said.
pub proof fn law_undo_brings_the_prompt_back(a: AppView, idx: usize)
    requires
        can_undo(a, idx),
    ensures
        ({
            let i = dialogs::current_place(a)->0;
            let b = undone(a, idx);
            &&& b.sessions[i].messages == a.sessions[i].messages.take(idx as int)
            &&& b.chat.messages == b.sessions[i].messages
            &&& b.input.text == a.sessions[i].messages[idx as int].content
            &&& b.input.image_paths == a.sessions[i].messages[idx as int].local_image_paths
        }),
{
    reveal(undone);
    session::lemma_session_from(a.sessions, a.current->0, 0);
}

/// What the dialog of things to copy offers.
pub open spec fn copy_actions() -> Seq<ActionView> {
    seq![
        ActionView {
            id: "transcript"@,
            key: 't',
            label: "Copy session transcript"@,
            description: "Full conversation as Markdown"@,
        },
        ActionView {
            id: "id"@,
            key: 'i',
            label: "Copy session id"@,
            description: "Current session identifier"@,
        },
        ActionView {
            id: "title"@,
            key: 'n',
            label: "Copy session title"@,
            description: "Current session name"@,
        },
    ]
}

pub fn copy_action_items() -> (r: Vec<ActionItem>)
    ensures
        action_views(r@) == copy_actions(),
{
    let mut items: Vec<ActionItem> = Vec::new();
    items.push(
        make_action(
            "transcript",
            't',
            "Copy session transcript",
            "Full conversation as Markdown",
        ),
    );
    items.push(make_action("id", 'i', "Copy session id", "Current session identifier"));
    items.push(make_action("title", 'n', "Copy session title", "Current session name"));
    assert(action_views(items@) =~= copy_actions());
    items
}

} // verus!

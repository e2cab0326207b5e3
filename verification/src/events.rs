//! What each event of a streamed turn does.

use crate::app;
use crate::app::{App, AppView};
use crate::arriving;
use crate::asking;
use crate::chunks;
use crate::chunks::{
    ChunkMessage, ChunkView, LeafView, StreamingRetryStatus, SubagentStart, ToolCall,
    ToolCallResult,
};
use crate::drain;
use crate::drain::{Drained, StreamSource};
use crate::focus;
use crate::focus::OverlayFocus;
use crate::message;
use crate::message::{Message, MessageRole, MessageView};
use crate::session;
use crate::session::{Session, SessionStatus, SessionView};
use crate::state;
use crate::state::{
    Chat, ChatView, ClientView, RetryView, SoundEvent, StreamState, ToastLevel, ToolCallPlace,
    ToolCallViewState, ToolCallsView, ToolPlaceView,
};
use crate::stream;
use crate::text;
use crate::transcript;
use crate::turns;
use vstd::prelude::*;
use vstd::string::*;

verus! {

/// What a session is told about a retry, or that there is none.
pub open spec fn retry_set(a: AppView, id: Seq<char>, status: Option<RetryView>) -> AppView {
    let e = app::ensured(a, id);
    let c = app::client_of(e, id)->0;
    app::with_client(e, id, ClientView { retry_status: status, ..c })
}

#[verifier::opaque]
pub open spec fn text_streamed(a: AppView, id: Seq<char>, t: Seq<char>) -> AppView {
    let b = retry_set(a, id, None);
    app::marked_pending(
        app::with_transcript(b, id, transcript::text_appended(app::transcript(b, id), t)),
        id,
    )
}

#[verifier::opaque]
pub open spec fn reasoning_streamed(a: AppView, id: Seq<char>, t: Seq<char>) -> AppView {
    let b = retry_set(a, id, None);
    app::marked_pending(
        app::with_transcript(b, id, transcript::reasoning_appended(app::transcript(b, id), t)),
        id,
    )
}

#[verifier::opaque]
pub open spec fn stream_rolled_back(
    a: AppView,
    id: Seq<char>,
    t: Seq<char>,
    r: Seq<char>,
) -> AppView {
    app::marked_pending(
        app::with_transcript(a, id, transcript::output_rolled_back(app::transcript(a, id), t, r)),
        id,
    )
}

/// Tool calls recorded in the transcript, and where they stand.
#[verifier::opaque]
pub open spec fn tools_called(a: AppView, id: Seq<char>, calls: Seq<ToolCall>) -> AppView {
    let b = retry_set(a, id, None);
    let chat = app::transcript(b, id);
    let c = app::with_transcript(b, id, transcript::calls_added(chat, calls));
    let d = match app::client_of(c, id) {
        Some(own) => app::with_client(
            c,
            id,
            ClientView {
                tool_calls: ToolCallsView {
                    places: own.tool_calls.places + transcript::call_places(chat, calls),
                    ..own.tool_calls
                },
                ..own
            },
        ),
        None => c,
    };
    app::marked_pending(d, id)
}

/// Where the latest call of that id stands, among the first `n`.
pub open spec fn call_place(places: Seq<ToolPlaceView>, id: Seq<char>, n: int) -> Option<usize>
    decreases n,
{
    if n <= 0 || n > places.len() {
        None
    } else if places[n - 1].id == id {
        Some(places[n - 1].index)
    } else {
        call_place(places, id, n - 1)
    }
}

pub open spec fn call_target(a: AppView, id: Seq<char>, call: Seq<char>) -> Option<usize> {
    match app::client_of(a, id) {
        Some(c) => call_place(c.tool_calls.places, call, c.tool_calls.places.len() as int),
        None => None,
    }
}

#[verifier::opaque]
pub open spec fn result_recorded(
    a: AppView,
    id: Seq<char>,
    call: Seq<char>,
    name: Seq<char>,
    content: Seq<char>,
) -> AppView {
    app::marked_pending(
        app::with_transcript(
            a,
            id,
            transcript::result_added(
                app::transcript(a, id),
                call_target(a, id, call),
                call,
                name,
                content,
            ),
        ),
        id,
    )
}

pub open spec fn is_deferred(a: AppView, id: Seq<char>) -> bool {
    match app::client_of(a, id) {
        Some(c) => c.tool_calls.deferred_finish,
        None => false,
    }
}

/// After a result: an end that was put off comes now if no tool is at work, else what is queued
/// may go out. The flag says whether the turn goes on.
pub open spec fn after_result(a: AppView, id: Seq<char>) -> (AppView, bool) {
    if is_deferred(a, id) && !turns::runs_tools(a, id) {
        (turns::finished(turns::with_deferred(a, id, false), id), false)
    } else if app::streams(a, id) && stream::queue_of(a, id).len() > 0 && !turns::runs_tools(
        a,
        id,
    ) {
        (
            turns::interrupted_for_queue(a, id),
            !(turns::can_interrupt_for_queue(a, id) && stream::can_submit(
                turns::stopped_for_queue(a, id),
                id,
            )),
        )
    } else {
        (a, true)
    }
}

pub open spec fn subagent_prompt(description: Seq<char>, prompt: Seq<char>) -> Seq<char> {
    "## Task Description\n"@ + description + "\n\n## Task Prompt\n"@ + prompt
}

pub open spec fn or_else(a: Option<Seq<char>>, b: Seq<char>) -> Option<Seq<char>> {
    match a {
        Some(x) => Some(x),
        None => Some(b),
    }
}

/// A session for a subagent, below the one that called it.
pub open spec fn child_made(a: AppView, s: SubagentStart) -> AppView {
    if session::session_at(a.sessions, s.session_id@) is Some {
        a
    } else {
        AppView {
            sessions: a.sessions.push(
                session::new_session(
                    s.session_id@,
                    Some(s.parent_session_id@),
                    s.title@,
                    a.workspace,
                    a.now,
                ),
            ),
            ..a
        }
    }
}

/// The transcript with which a subagent begins: its task and an empty answer.
pub open spec fn subagent_chat(s: SubagentStart) -> ChatView {
    let task = MessageView {
        agent_mode: Some(s.subagent_type@),
        model: text::opt_view(s.model),
        provider: text::opt_view(s.provider),
        ..message::new_message(
            MessageRole::User,
            subagent_prompt(s.description@, s.prompt@),
            true,
        )
    };
    let answer = MessageView {
        agent_mode: Some(s.subagent_type@),
        model: text::opt_view(s.model),
        provider: text::opt_view(s.provider),
        ..message::new_message(MessageRole::Assistant, ""@, false)
    };
    state::chat_of(seq![task, answer])
}

/// What the client keeps of a subagent's session as its work begins.
pub open spec fn subagent_client(a: AppView, c: ClientView, s: SubagentStart) -> ClientView {
    ClientView {
        chat: subagent_chat(s),
        tool_calls: state::no_tool_calls(),
        retry_status: None,
        external_stream: Some(
            state::new_stream(
                or_else(text::opt_view(s.model), a.model),
                or_else(text::opt_view(s.provider), a.provider_name),
                1,
                a.now,
            ),
        ),
        unread_completed: true,
        ..c
    }
}

#[verifier::opaque]
pub open spec fn subagent_seeded(a: AppView, s: SubagentStart) -> AppView {
    let b = app::ensured(a, s.session_id@);
    app::with_client(
        b,
        s.session_id@,
        subagent_client(a, app::client_of(b, s.session_id@)->0, s),
    )
}

/// A subagent at work in a session of its own.
#[verifier::opaque]
pub open spec fn subagent_started(a: AppView, s: SubagentStart) -> AppView {
    let id = s.session_id@;
    let b = subagent_seeded(child_made(a, s), s);
    app::synced(
        app::relisted(
            app::status_set(app::persisted(b, id), id, SessionStatus::Streaming, None),
        ),
    )
}

/// A session that waits for the user is brought to the screen.
#[verifier::opaque]
pub open spec fn waiting(a: AppView, id: Seq<char>, event: SoundEvent) -> AppView {
    let b = app::status_set(app::snapshot(a, id, true), id, SessionStatus::Waiting, None);
    let c = if !app::is_current(b, id) && stream::exists_session(b, id) {
        stream::switched(b, id)
    } else {
        b
    };
    let d = app::alerted(c, event);
    if app::is_current(d, id) {
        d
    } else {
        app::ensured(d, id)
    }
}

pub open spec fn permission_asked(a: AppView, id: Seq<char>, request: u64) -> AppView {
    let b = waiting(a, id, SoundEvent::Permission);
    app::dirtied(
        AppView {
            permissions: b.permissions.push(request),
            overlay_focus: if b.overlay_focus.asks_user() {
                b.overlay_focus
            } else {
                OverlayFocus::PermissionDialog
            },
            ..b
        },
    )
}

pub open spec fn question_asked(a: AppView, id: Seq<char>, request: u64) -> AppView {
    let b = waiting(a, id, SoundEvent::Question);
    app::dirtied(
        AppView {
            questions: b.questions.push(request),
            overlay_focus: if b.overlay_focus.asks_user() {
                b.overlay_focus
            } else {
                OverlayFocus::QuestionDialog
            },
            ..b
        },
    )
}

pub open spec fn terminal_asked(a: AppView, id: Seq<char>, call: Seq<char>) -> AppView {
    let b = waiting(a, id, SoundEvent::Permission);
    app::dirtied(
        AppView {
            terminals: b.terminals.push(call),
            overlay_focus: if b.overlay_focus == OverlayFocus::PermissionDialog
                || b.overlay_focus == OverlayFocus::QuestionDialog {
                b.overlay_focus
            } else {
                OverlayFocus::TerminalSessionDialog
            },
            ..b
        },
    )
}

pub open spec fn claim(a: AppView) -> Option<OverlayFocus> {
    focus::claimed_overlay(a.permissions.len(), a.questions.len(), a.terminals.len())
}

/// The next request has the keyboard; where there is none, the turn goes on.
pub open spec fn wait_over(a: AppView) -> AppView {
    match claim(a) {
        Some(overlay) => AppView { overlay_focus: overlay, ..a },
        None => AppView {
            overlay_focus: OverlayFocus::Nothing,
            ..match a.current {
                Some(id) => app::status_set(a, id, SessionStatus::Streaming, None),
                None => a,
            }
        },
    }
}

/// A terminal that has ended: the one on the screen closes.
pub open spec fn terminal_ended(a: AppView, call: Seq<char>) -> AppView {
    if a.terminals.len() > 0 && a.terminals[0] == call {
        terminal_closed(AppView { terminals: a.terminals.drop_first(), ..a })
    } else {
        a
    }
}

/// After a terminal: the next terminal first, then the other requests.
pub open spec fn terminal_closed(a: AppView) -> AppView {
    if a.terminals.len() > 0 {
        AppView { overlay_focus: OverlayFocus::TerminalSessionDialog, ..a }
    } else {
        wait_over(a)
    }
}

/// What an event does to a session. The flag says whether the turn goes on.
pub open spec fn leaf_applied(a: AppView, id: Seq<char>, leaf: LeafView) -> (AppView, bool) {
    match leaf {
        LeafView::Text(t) => (text_streamed(a, id, t), true),
        LeafView::Reasoning(t) => (reasoning_streamed(a, id, t), true),
        LeafView::Retry(status) => (retry_set(a, id, Some(state::retry_view(status))), true),
        LeafView::Other(chunk) => match chunk {
            ChunkMessage::StreamRollback { text, reasoning } => (
                stream_rolled_back(a, id, text@, reasoning@),
                true,
            ),
            ChunkMessage::Warning(msg) => (app::toasted(a, ToastLevel::Warning, msg@, 0), true),
            ChunkMessage::End => (turns::finished(a, id), false),
            ChunkMessage::Failed(error) => (turns::failed(a, id, error@), false),
            ChunkMessage::Cancelled => (turns::cancelled(a, id), false),
            ChunkMessage::ToolCalls(calls) => (tools_called(a, id, calls@), true),
            ChunkMessage::ToolResult(result) => after_result(
                result_recorded(a, id, result.tool_call_id@, result.name@, result.content@),
                id,
            ),
            ChunkMessage::SubagentStarted(s) => (subagent_started(a, s), true),
            ChunkMessage::PermissionRequest(request) => (permission_asked(a, id, request), true),
            ChunkMessage::QuestionRequest(request) => (question_asked(a, id, request), true),
            ChunkMessage::TerminalSessionRequest(call) => (terminal_asked(a, id, call@), true),
            ChunkMessage::TerminalSessionEvent { tool_call_id, ended } => (
                if ended {
                    terminal_ended(a, tool_call_id@)
                } else {
                    a
                },
                true,
            ),
            _ => (a, true),
        },
    }
}

/// An event on its way to the session at the end of its route. On the way it is dropped where
/// no turn is under way; what happens below never ends the turn above.
pub open spec fn applied(a: AppView, id: Seq<char>, c: ChunkView) -> (AppView, bool)
    decreases c.route.len(),
{
    if c.route.len() == 0 {
        leaf_applied(a, id, c.leaf)
    } else {
        let child = c.route[0];
        if !app::streams(a, child) {
            (a, true)
        } else {
            let r = applied(a, child, ChunkView { route: c.route.drop_first(), leaf: c.leaf });
            (
                if r.1 {
                    app::snapshot(r.0, child, false)
                } else {
                    r.0
                },
                true,
            )
        }
    }
}

/// Events applied one after the other, from place `i` on, until one ends the turn.
pub open spec fn all_applied(
    a: AppView,
    id: Seq<char>,
    chunks: Seq<ChunkView>,
    i: int,
) -> (AppView, bool)
    decreases chunks.len() - i,
{
    if i < 0 || i >= chunks.len() {
        (a, true)
    } else {
        let r = applied(a, id, chunks[i]);
        if r.1 {
            all_applied(r.0, id, chunks, i + 1)
        } else {
            r
        }
    }
}

/// What was taken from one session's channel. A channel that closes before the turn has ended
/// is a failure.
pub open spec fn burst_applied(
    a: AppView,
    id: Seq<char>,
    chunks: Seq<ChunkView>,
    disconnected: bool,
) -> AppView {
    let r = all_applied(a, id, chunks::coalesced(chunks), 0);
    if !r.1 {
        r.0
    } else {
        let b = app::snapshot(r.0, id, false);
        if disconnected && (app::client_of(b, id) matches Some(c) && c.stream is Some) {
            turns::failed(
                b,
                id,
                "stream disconnected before completion: stream task ended before sending a completion event"@,
            )
        } else {
            b
        }
    }
}

impl App {
    pub fn set_session_retry_status(&mut self, id: &str, status: Option<StreamingRetryStatus>)
        ensures
            final(self)@ == retry_set(old(self)@, id@, state::opt_retry(status)),
    {
        let k = self.ensure_session_view_state(id);
        let ghost before = self.clients@;
        self.clients[k].retry_status = status;
        proof {
            assert(self.clients@ =~= before.update(k as int, self.clients@[k as int]));
            app::lemma_clients_update(before, k as int, self.clients@[k as int]);
        }
    }

    fn stream_text(&mut self, id: &str, t: &str)
        ensures
            final(self)@ == text_streamed(old(self)@, id@, t@),
    {
        reveal(text_streamed);
        self.set_session_retry_status(id, None);
        match self.chat_slot(id) {
            None => {
                self.chat.append_to_last_assistant(t);
            },
            Some(k) => {
                let ghost before = self.clients@;
                self.clients[k].chat.append_to_last_assistant(t);
                proof {
                    assert(self.clients@ =~= before.update(k as int, self.clients@[k as int]));
                    app::lemma_clients_update(before, k as int, self.clients@[k as int]);
                }
            },
        }
        self.mark_streaming_snapshot_pending(id);
    }

    fn stream_reasoning(&mut self, id: &str, t: &str)
        ensures
            final(self)@ == reasoning_streamed(old(self)@, id@, t@),
    {
        reveal(reasoning_streamed);
        self.set_session_retry_status(id, None);
        match self.chat_slot(id) {
            None => {
                self.chat.append_reasoning_to_last_assistant(t);
            },
            Some(k) => {
                let ghost before = self.clients@;
                self.clients[k].chat.append_reasoning_to_last_assistant(t);
                proof {
                    assert(self.clients@ =~= before.update(k as int, self.clients@[k as int]));
                    app::lemma_clients_update(before, k as int, self.clients@[k as int]);
                }
            },
        }
        self.mark_streaming_snapshot_pending(id);
    }

    fn roll_back_stream(&mut self, id: &str, t: &str, r: &str)
        ensures
            final(self)@ == stream_rolled_back(old(self)@, id@, t@, r@),
    {
        reveal(stream_rolled_back);
        match self.chat_slot(id) {
            None => {
                self.chat.rollback_streamed_output(t, r);
            },
            Some(k) => {
                let ghost before = self.clients@;
                self.clients[k].chat.rollback_streamed_output(t, r);
                proof {
                    assert(self.clients@ =~= before.update(k as int, self.clients@[k as int]));
                    app::lemma_clients_update(before, k as int, self.clients@[k as int]);
                }
            },
        }
        self.mark_streaming_snapshot_pending(id);
    }

    fn record_calls(&mut self, id: &str, calls: &Vec<ToolCall>) -> (r: Vec<ToolCallPlace>)
        ensures
            final(self)@ == app::with_transcript(
                old(self)@,
                id@,
                transcript::calls_added(app::transcript(old(self)@, id@), calls@),
            ),
            state::tool_places(r@) == transcript::call_places(
                app::transcript(old(self)@, id@),
                calls@,
            ),
    {
        match self.chat_slot(id) {
            None => self.chat.add_tool_calls(calls),
            Some(k) => {
                let ghost before = self.clients@;
                let places = self.clients[k].chat.add_tool_calls(calls);
                proof {
                    assert(self.clients@ =~= before.update(k as int, self.clients@[k as int]));
                    app::lemma_clients_update(before, k as int, self.clients@[k as int]);
                }
                places
            },
        }
    }

    pub fn add_tool_calls_to_session(&mut self, id: &str, calls: &Vec<ToolCall>)
        ensures
            final(self)@ == tools_called(old(self)@, id@, calls@),
    {
        reveal(tools_called);
        self.set_session_retry_status(id, None);
        let places = self.record_calls(id, calls);
        match state::find_client(&self.clients, id) {
            Some(k) => {
                let ghost before = self.clients@;
                append_places(&mut self.clients[k].tool_calls.places, places);
                proof {
                    assert(self.clients@ =~= before.update(k as int, self.clients@[k as int]));
                    app::lemma_clients_update(before, k as int, self.clients@[k as int]);
                }
            },
            None => {},
        }
        self.mark_streaming_snapshot_pending(id);
    }

    fn put_result(&mut self, id: &str, target: Option<usize>, result: &ToolCallResult)
        ensures
            final(self)@ == app::with_transcript(
                old(self)@,
                id@,
                transcript::result_added(
                    app::transcript(old(self)@, id@),
                    target,
                    result.tool_call_id@,
                    result.name@,
                    result.content@,
                ),
            ),
    {
        match self.chat_slot(id) {
            None => {
                self.chat.add_tool_result(target, result);
            },
            Some(k) => {
                let ghost before = self.clients@;
                self.clients[k].chat.add_tool_result(target, result);
                proof {
                    assert(self.clients@ =~= before.update(k as int, self.clients@[k as int]));
                    app::lemma_clients_update(before, k as int, self.clients@[k as int]);
                }
            },
        }
    }

    fn record_result(&mut self, id: &str, result: &ToolCallResult)
        ensures
            final(self)@ == result_recorded(
                old(self)@,
                id@,
                result.tool_call_id@,
                result.name@,
                result.content@,
            ),
    {
        reveal(result_recorded);
        let target: Option<usize> = match state::find_client(&self.clients, id) {
            Some(k) => find_call_place(
                &self.clients[k].tool_calls.places,
                result.tool_call_id.as_str(),
            ),
            None => None,
        };
        self.put_result(id, target, result);
        self.mark_streaming_snapshot_pending(id);
    }

    /// Takes in a tool's result; says whether the turn goes on.
    pub fn add_tool_result_to_session(&mut self, id: &str, result: &ToolCallResult) -> (r: bool)
        ensures
            (final(self)@, r) == after_result(
                result_recorded(
                    old(self)@,
                    id@,
                    result.tool_call_id@,
                    result.name@,
                    result.content@,
                ),
                id@,
            ),
    {
        self.record_result(id, result);
        let deferred = match state::find_client(&self.clients, id) {
            Some(k) => self.clients[k].tool_calls.deferred_finish,
            None => false,
        };
        let running = self.session_has_running_tool_messages(id);
        if deferred && !running {
            self.set_deferred(id, false);
            self.finish_streaming_session(id);
            return false;
        }
        if self.session_has_active_stream(id) && self.has_queued_messages_for_session(id)
            && !running {
            return !self.interrupt_streaming_to_send_queued_for_session(id);
        }
        true
    }

    fn make_child(&mut self, s: &SubagentStart)
        ensures
            final(self)@ == child_made(old(self)@, *s),
    {
        if session::find_session(&self.sessions, s.session_id.as_str()).is_none() {
            let child = Session::new(
                s.session_id.as_str(),
                Some(s.parent_session_id.clone()),
                s.title.as_str(),
                &self.workspace,
                self.now,
            );
            let ghost before = self.sessions@;
            self.sessions.push(child);
            assert(session::sessions_view(self.sessions@) =~= session::sessions_view(before).push(
                child@,
            ));
        }
    }

    fn seed_subagent(&mut self, s: &SubagentStart)
        ensures
            final(self)@ == subagent_seeded(old(self)@, *s),
    {
        reveal(subagent_seeded);
        let model: Option<String> = match &s.model {
            Some(m) => Some(m.clone()),
            None => Some(self.model.clone()),
        };
        let provider: Option<String> = match &s.provider {
            Some(p) => Some(p.clone()),
            None => Some(self.provider_name.clone()),
        };
        let stream = StreamState::new(model, provider, 1, self.now);
        let chat = make_subagent_chat(s);
        let k = self.ensure_session_view_state(s.session_id.as_str());
        let ghost before = self.clients@;
        self.clients[k].chat = chat;
        self.clients[k].tool_calls = ToolCallViewState::new();
        self.clients[k].retry_status = None;
        self.clients[k].external_stream = Some(stream);
        self.clients[k].unread_completed = true;
        proof {
            assert(self.clients@ =~= before.update(k as int, self.clients@[k as int]));
            app::lemma_clients_update(before, k as int, self.clients@[k as int]);
        }
    }

    pub fn start_subagent_session(&mut self, s: &SubagentStart)
        ensures
            final(self)@ == subagent_started(old(self)@, *s),
            !app::is_current(old(self)@, s.session_id@) ==> s.prompt@.is_suffix_of(
                arriving::messages(final(self)@, s.session_id@)[0].content,
            ),
    {
        proof {
            if !app::is_current(self@, s.session_id@) {
                asking::law_subagents_are_told_their_task(self@, s.session_id@, *s);
            }
        }
        reveal(subagent_started);
        let id = s.session_id.as_str();
        self.make_child(s);
        self.seed_subagent(s);
        self.persist_chat_messages_for_session(id);
        self.set_session_status(id, SessionStatus::Streaming, None);
        self.refresh_sessions_dialog();
        self.sync_active_streaming_flag();
    }

    fn wait_for_user(&mut self, id: &str, event: SoundEvent)
        ensures
            final(self)@ == waiting(old(self)@, id@, event),
    {
        reveal(waiting);
        self.maybe_persist_streaming_snapshot_for_session(id, true);
        self.set_session_status(id, SessionStatus::Waiting, None);
        if !self.is_active_session(id) {
            self.switch_to_session(id);
        }
        self.alert(event);
        if !self.is_active_session(id) {
            self.ensure_session_view_state(id);
        }
    }

    fn ask_permission(&mut self, id: &str, request: u64)
        ensures
            final(self)@ == permission_asked(old(self)@, id@, request),
    {
        self.wait_for_user(id, SoundEvent::Permission);
        self.permissions.push(request);
        if !self.overlay_focus.is_user_request() {
            self.overlay_focus = OverlayFocus::PermissionDialog;
        }
        self.mark_sessions_dialog_live_dirty();
    }

    fn ask_question(&mut self, id: &str, request: u64)
        ensures
            final(self)@ == question_asked(old(self)@, id@, request),
    {
        self.wait_for_user(id, SoundEvent::Question);
        self.questions.push(request);
        if !self.overlay_focus.is_user_request() {
            self.overlay_focus = OverlayFocus::QuestionDialog;
        }
        self.mark_sessions_dialog_live_dirty();
    }

    fn ask_terminal(&mut self, id: &str, call: String)
        ensures
            final(self)@ == terminal_asked(old(self)@, id@, call@),
    {
        self.wait_for_user(id, SoundEvent::Permission);
        let ghost before = self.terminals@;
        self.terminals.push(call);
        assert(text::views(self.terminals@) =~= text::views(before).push(call@));
        if self.overlay_focus != OverlayFocus::PermissionDialog && self.overlay_focus
            != OverlayFocus::QuestionDialog {
            self.overlay_focus = OverlayFocus::TerminalSessionDialog;
        }
        self.mark_sessions_dialog_live_dirty();
    }

    /// Gives the keyboard to the next request; says whether there is one.
    pub fn focus_pending_priority_overlay(&mut self) -> (r: bool)
        ensures
            r == (claim(old(self)@) is Some),
            final(self)@ == match claim(old(self)@) {
                Some(overlay) => AppView { overlay_focus: overlay, ..old(self)@ },
                None => old(self)@,
            },
    {
        match focus::pending_priority_overlay(
            self.permissions.len(),
            self.questions.len(),
            self.terminals.len(),
        ) {
            Some(overlay) => {
                self.overlay_focus = overlay;
                true
            },
            None => false,
        }
    }

    pub fn resume_remote_wait_if_clear(&mut self)
        ensures
            final(self)@ == wait_over(old(self)@),
    {
        if self.focus_pending_priority_overlay() {
            return ;
        }
        match text::copy_opt(&self.current) {
            Some(id) => {
                self.set_session_status(id.as_str(), SessionStatus::Streaming, None);
            },
            None => {},
        }
        self.overlay_focus = OverlayFocus::Nothing;
    }

    pub fn after_terminal_session_overlay_closed(&mut self)
        ensures
            final(self)@ == terminal_closed(old(self)@),
    {
        if self.terminals.len() > 0 {
            self.overlay_focus = OverlayFocus::TerminalSessionDialog;
            return ;
        }
        self.resume_remote_wait_if_clear();
    }

    pub fn handle_terminal_session_end(&mut self, call: &str)
        ensures
            final(self)@ == terminal_ended(old(self)@, call@),
    {
        if self.terminals.len() > 0 {
            assert(text::views(self.terminals@)[0] == self.terminals@[0]@);
            if text::same(self.terminals[0].as_str(), call) {
                let ghost before = self.terminals@;
                self.terminals.remove(0);
                assert(text::views(self.terminals@) =~= text::views(before).drop_first());
                self.after_terminal_session_overlay_closed();
            }
        }
    }

    /// Does what one event asks for; says whether the turn goes on.
    #[verifier::rlimit(30)]
    pub fn process_streaming_chunk_for_session(&mut self, id: &str, chunk: ChunkMessage) -> (r: bool)
        ensures
            (final(self)@, r) == applied(old(self)@, id@, chunks::chunk_view(chunk)),
        decreases chunk,
    {
        match chunk {
            ChunkMessage::Text(t) => {
                self.stream_text(id, t.as_str());
                true
            },
            ChunkMessage::Reasoning(t) => {
                self.stream_reasoning(id, t.as_str());
                true
            },
            ChunkMessage::Retry(status) => {
                self.set_session_retry_status(id, Some(status));
                true
            },
            ChunkMessage::StreamRollback { text: t, reasoning } => {
                self.roll_back_stream(id, t.as_str(), reasoning.as_str());
                true
            },
            ChunkMessage::Warning(msg) => {
                self.push_toast(ToastLevel::Warning, msg.as_str(), 0);
                true
            },
            ChunkMessage::End => {
                self.finish_streaming_session(id);
                false
            },
            ChunkMessage::Failed(error) => {
                self.fail_streaming_session(id, error.as_str());
                false
            },
            ChunkMessage::Cancelled => {
                self.cancelled_streaming_session(id);
                false
            },
            ChunkMessage::Metrics { token_count, duration_ms } => true,
            ChunkMessage::ToolCalls(calls) => {
                self.add_tool_calls_to_session(id, &calls);
                true
            },
            ChunkMessage::ToolResult(result) => self.add_tool_result_to_session(id, &result),
            ChunkMessage::SubagentStarted(s) => {
                self.start_subagent_session(&s);
                true
            },
            ChunkMessage::SubagentChunk { session_id, chunk: inner } => {
                let ghost c = chunks::chunk_view(chunk);
                let ghost inside = chunks::chunk_view(*inner);
                assert(c.route.drop_first() =~= inside.route);
                assert(c.route[0] == session_id@);
                if !self.session_has_active_stream(session_id.as_str()) {
                    return true;
                }
                if self.process_streaming_chunk_for_session(session_id.as_str(), *inner) {
                    self.maybe_persist_streaming_snapshot_for_session(session_id.as_str(), false);
                }
                true
            },
            ChunkMessage::PermissionRequest(request) => {
                self.ask_permission(id, request);
                true
            },
            ChunkMessage::QuestionRequest(request) => {
                self.ask_question(id, request);
                true
            },
            ChunkMessage::TerminalSessionRequest(call) => {
                self.ask_terminal(id, call);
                true
            },
            ChunkMessage::TerminalSessionEvent { tool_call_id, ended } => {
                if ended {
                    self.handle_terminal_session_end(tool_call_id.as_str());
                }
                true
            },
        }
    }

    /// Applies what was taken from a session's channel.
    pub fn apply_stream_burst(&mut self, id: &str, chunks: Vec<ChunkMessage>, disconnected: bool)
        ensures
            final(self)@ == burst_applied(
                old(self)@,
                id@,
                chunks::chunk_views(chunks@),
                disconnected,
            ),
    {
        let ghost a = self@;
        let merged = chunks::coalesce_streaming_chunks(chunks);
        let ghost all = chunks::chunk_views(merged@);
        let mut more = true;
        for chunk in it: merged
            invariant
                all == chunks::chunk_views(it.seq()),
                more ==> all_applied(self@, id@, all, it.index()) == all_applied(a, id@, all, 0),
                !more ==> (self@, false) == all_applied(a, id@, all, 0),
        {
            assert(all[it.index()] == chunks::chunk_view(chunk));
            if more {
                more = self.process_streaming_chunk_for_session(id, chunk);
            }
        }
        if more {
            assert(all_applied(self@, id@, all, all.len() as int) == (self@, true));
            self.maybe_persist_streaming_snapshot_for_session(id, false);
            let open = match state::find_client(&self.clients, id) {
                Some(k) => self.clients[k].stream.is_some(),
                None => false,
            };
            if disconnected && open {
                self.fail_streaming_session(
                    id,
                    "stream disconnected before completion: stream task ended before sending a completion event",
                );
            }
        }
    }
}

fn append_places(places: &mut Vec<ToolCallPlace>, added: Vec<ToolCallPlace>)
    ensures
        state::tool_places(final(places)@) == state::tool_places(old(places)@)
            + state::tool_places(added@),
{
    let ghost before = state::tool_places(places@);
    let ghost all = state::tool_places(added@);
    assert(state::tool_places(places@) =~= before + all.take(0));
    for place in it: added
        invariant
            all == state::tool_places(it.seq()),
            state::tool_places(places@) == before + all.take(it.index()),
    {
        let ghost so_far = places@;
        places.push(place);
        assert(all[it.index()] == place@);
        assert(all.take(it.index() + 1) =~= all.take(it.index()).push(place@));
        assert(state::tool_places(places@) =~= state::tool_places(so_far).push(place@));
        assert(state::tool_places(places@) =~= before + all.take(it.index() + 1));
    }
    assert(all.take(all.len() as int) =~= all);
}

fn find_call_place(places: &Vec<ToolCallPlace>, id: &str) -> (r: Option<usize>)
    ensures
        r == call_place(state::tool_places(places@), id@, places@.len() as int),
{
    let mut n: usize = places.len();
    while n > 0
        invariant
            n <= places@.len(),
            call_place(state::tool_places(places@), id@, n as int) == call_place(
                state::tool_places(places@),
                id@,
                places@.len() as int,
            ),
        decreases n,
    {
        if text::same(places[n - 1].id.as_str(), id) {
            return Some(places[n - 1].index);
        }
        n -= 1;
    }
    None
}

fn make_subagent_chat(s: &SubagentStart) -> (r: Chat)
    ensures
        r@ == subagent_chat(*s),
{
    let mut prompt = "## Task Description\n".to_string();
    prompt.append(s.description.as_str());
    prompt.append("\n\n## Task Prompt\n");
    prompt.append(s.prompt.as_str());
    let mut task = Message::user(prompt.as_str());
    task.agent_mode = Some(s.subagent_type.clone());
    task.model = text::copy_opt(&s.model);
    task.provider = text::copy_opt(&s.provider);
    let mut answer = Message::incomplete("");
    answer.agent_mode = Some(s.subagent_type.clone());
    answer.model = text::copy_opt(&s.model);
    answer.provider = text::copy_opt(&s.provider);
    let mut messages: Vec<Message> = Vec::new();
    messages.push(task);
    messages.push(answer);
    assert(message::messages_view(messages@) =~= seq![task@, answer@]);
    Chat::with_messages(messages)
}

} // verus!

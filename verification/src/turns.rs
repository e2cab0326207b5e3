//! How turns end: by themselves, by a failure, or because somebody stops them.

use crate::app;
use crate::app::{App, AppView};
use crate::focus;
use crate::focus::OverlayFocus;
use crate::keeping;
use crate::message;
use crate::session;
use crate::session::{Session, SessionStatus, SessionView};
use crate::state;
use crate::state::{
    ChatView, ClientSessionState, ClientView, Effect, EffectView, SoundEvent, StreamView,
    ToastLevel, ToolCallsView,
};
use crate::stream;
use crate::text;
use crate::titles;
use crate::transcript;
use vstd::prelude::*;
use vstd::string::*;

verus! {

pub open spec fn permissions_dropped(a: AppView) -> AppView {
    if a.overlay_focus == OverlayFocus::PermissionDialog {
        app::with_effect(
            AppView { permissions: Seq::empty(), overlay_focus: OverlayFocus::Nothing, ..a },
            EffectView::DenyPermissions,
        )
    } else {
        a
    }
}

pub open spec fn questions_dropped(a: AppView) -> AppView {
    if a.overlay_focus == OverlayFocus::QuestionDialog {
        app::with_effect(
            AppView { questions: Seq::empty(), overlay_focus: OverlayFocus::Nothing, ..a },
            EffectView::DropQuestions,
        )
    } else {
        a
    }
}

pub open spec fn terminals_stopped(a: AppView) -> AppView {
    if a.terminals.len() > 0 {
        app::with_effect(AppView { terminals: Seq::empty(), ..a }, EffectView::StopTerminals)
    } else {
        a
    }
}

/// The requests on the screen dropped with the turn that made them.
#[verifier::opaque]
pub open spec fn requests_dropped(a: AppView) -> AppView {
    let b = terminals_stopped(questions_dropped(permissions_dropped(a)));
    if b.overlay_focus == OverlayFocus::TerminalSessionDialog {
        AppView { overlay_focus: OverlayFocus::Nothing, ..b }
    } else {
        b
    }
}

pub open spec fn client_at_rest(c: ClientView) -> ClientView {
    ClientView {
        stream: None,
        external_stream: None,
        tool_calls: ToolCallsView { deferred_finish: false, ..c.tool_calls },
        retry_status: None,
        ..c
    }
}

pub open spec fn client_rested(a: AppView, id: Seq<char>) -> AppView {
    match app::client_of(a, id) {
        Some(c) => app::with_client(a, id, client_at_rest(c)),
        None => a,
    }
}

/// A session whose turn is over.
#[verifier::opaque]
pub open spec fn cleaned(a: AppView, id: Seq<char>) -> AppView {
    let b = client_rested(a, id);
    app::dirtied(
        app::synced(
            if app::is_current(b, id) {
                requests_dropped(b)
            } else {
                b
            },
        ),
    )
}

/// A cancellation goes to the turn itself; that of a subagent goes to its parent, and so on for
/// at most `steps` parents.
pub open spec fn cancelled_up(a: AppView, id: Seq<char>, steps: nat) -> AppView
    decreases steps,
{
    let b = match app::client_of(a, id) {
        Some(c) => if c.stream is Some {
            app::with_effect(a, EffectView::CancelStream { session_id: id })
        } else if c.external_stream is Some {
            match session::parent_id_of(a.sessions, id) {
                Some(parent) => if steps > 0 {
                    cancelled_up(a, parent, (steps - 1) as nat)
                } else {
                    a
                },
                None => a,
            }
        } else {
            a
        },
        None => a,
    };
    if app::compacts(a, id) {
        app::with_effect(b, EffectView::CancelCompaction)
    } else {
        b
    }
}

/// A turn cancelled. The way up is at most as long as there are sessions.
#[verifier::opaque]
pub open spec fn stream_cancelled(a: AppView, id: Seq<char>) -> AppView {
    cancelled_up(a, id, a.sessions.len())
}

/// The last answer of the turn under way marked as interrupted.
#[verifier::opaque]
pub open spec fn answer_interrupted(a: AppView, id: Seq<char>) -> AppView {
    match app::boundary(a, id) {
        Some(b) => app::with_transcript(
            a,
            id,
            transcript::turn_interrupted(app::transcript(a, id), b.boundary as int),
        ),
        None => a,
    }
}

/// The turn under way settled and saved.
#[verifier::opaque]
pub open spec fn finalized(a: AppView, id: Seq<char>, error: Option<Seq<char>>) -> AppView {
    match app::boundary(a, id) {
        Some(b) => app::persisted(
            app::with_transcript(
                a,
                id,
                transcript::turn_settled(
                    app::transcript(a, id),
                    b.boundary as int,
                    b.model,
                    b.provider,
                    error,
                ),
            ),
            id,
        ),
        None => a,
    }
}

/// The failure of a turn heard and seen.
#[verifier::opaque]
pub open spec fn failure_told(a: AppView, error: Seq<char>) -> AppView {
    let b = app::alerted(a, SoundEvent::Error);
    match titles::lost_connection_warning(error) {
        Some(warning) => app::toasted(b, ToastLevel::Warning, warning, 0),
        None => app::toasted(b, ToastLevel::Error, "LLM error: "@ + error, 0),
    }
}

/// A turn that failed.
#[verifier::opaque]
pub open spec fn failed(a: AppView, id: Seq<char>, error: Seq<char>) -> AppView {
    let b = app::snapshot(a, id, true);
    if app::boundary(b, id) is None {
        b
    } else {
        let c = app::status_set(
            finalized(b, id, Some(error)),
            id,
            SessionStatus::Failed,
            Some(error),
        );
        stream::submitted(cleaned(failure_told(c, error), id), id, None)
    }
}

/// A turn that was stopped for a reason.
#[verifier::opaque]
pub open spec fn interrupted(a: AppView, id: Seq<char>, reason: Seq<char>, tell: bool) -> AppView {
    let b = app::snapshot(answer_interrupted(a, id), id, true);
    if app::boundary(b, id) is None {
        b
    } else {
        let c = app::status_set(
            finalized(b, id, Some(reason)),
            id,
            SessionStatus::Interrupted,
            None,
        );
        let d = if tell {
            app::toasted(c, ToastLevel::Info, "Streaming cancelled"@, 0)
        } else {
            c
        };
        stream::submitted(cleaned(d, id), id, None)
    }
}

/// A session by what it descends from.
#[derive(Debug)]
pub struct Kin {
    pub id: String,
    pub parent_id: Option<String>,
}

pub struct KinView {
    pub id: Seq<char>,
    pub parent_id: Option<Seq<char>>,
}

pub open spec fn kin_of(s: SessionView) -> KinView {
    KinView { id: s.id, parent_id: s.parent_id }
}

pub open spec fn family(s: Seq<SessionView>) -> Seq<KinView> {
    s.map_values(|x: SessionView| kin_of(x))
}

pub open spec fn kin_views(v: Seq<Kin>) -> Seq<KinView> {
    v.map_values(|k: Kin| KinView { id: k.id@, parent_id: text::opt_view(k.parent_id) })
}

/// A child stopped along with its parent.
pub open spec fn child_stopped(a: AppView, id: Seq<char>, reason: Seq<char>) -> AppView {
    if app::streams(a, id) {
        interrupted(a, id, reason, false)
    } else {
        match session::session_at(a.sessions, id) {
            Some(i) => if a.sessions[i].status.active() {
                app::status_set(a, id, SessionStatus::Interrupted, None)
            } else {
                a
            },
            None => a,
        }
    }
}

/// Everything below `parent` stopped, for `depth` more generations, from place `i` of the family
/// on, and in each branch what is below first.
pub open spec fn children_stopped(
    a: AppView,
    kin: Seq<KinView>,
    parent: Seq<char>,
    depth: nat,
    i: int,
    reason: Seq<char>,
) -> AppView
    decreases depth, kin.len() - i,
{
    if i < 0 || i >= kin.len() {
        a
    } else {
        let b = if kin[i].parent_id == Some(parent) {
            child_stopped(
                if depth > 0 {
                    children_stopped(a, kin, kin[i].id, (depth - 1) as nat, 0, reason)
                } else {
                    a
                },
                kin[i].id,
                reason,
            )
        } else {
            a
        };
        children_stopped(b, kin, parent, depth, i + 1, reason)
    }
}

/// There are at most as many generations as sessions.
pub open spec fn subagents_stopped(a: AppView, id: Seq<char>) -> AppView {
    children_stopped(
        a,
        family(a.sessions),
        id,
        a.sessions.len(),
        0,
        "Stopped because parent agent was interrupted"@,
    )
}

/// A turn that the user cancelled, and every turn below it.
#[verifier::opaque]
pub open spec fn cancelled(a: AppView, id: Seq<char>) -> AppView {
    interrupted(subagents_stopped(a, id), id, "Streaming cancelled by user"@, true)
}

pub open spec fn can_interrupt_for_queue(a: AppView, id: Seq<char>) -> bool {
    app::is_current(a, id) && stream::has_message(stream::queue_of(a, id)) && app::streams(a, id)
}

/// A turn stopped so that what is queued can go out, before that goes out.
#[verifier::opaque]
pub open spec fn stopped_for_queue(a: AppView, id: Seq<char>) -> AppView {
    let b = answer_interrupted(stream_cancelled(subagents_stopped(a, id), id), id);
    cleaned(
        app::status_set(
            finalized(b, id, Some("Streaming interrupted to send queued messages"@)),
            id,
            SessionStatus::Interrupted,
            None,
        ),
        id,
    )
}

pub open spec fn interrupted_for_queue(a: AppView, id: Seq<char>) -> AppView {
    if can_interrupt_for_queue(a, id) {
        stream::submitted(
            stopped_for_queue(a, id),
            id,
            Some(message::INTERRUPTED_TURN_CONTINUATION_GUIDANCE@),
        )
    } else {
        a
    }
}

/// Whether a tool of the turn under way is still at work.
pub open spec fn runs_tools(a: AppView, id: Seq<char>) -> bool {
    match app::boundary(a, id) {
        Some(b) => match app::chat_for(a, id) {
            Some(c) => transcript::runs_tools(c.messages, b.boundary as int),
            None => false,
        },
        None => false,
    }
}

pub open spec fn with_deferred(a: AppView, id: Seq<char>, deferred: bool) -> AppView {
    match app::client_of(a, id) {
        Some(c) => app::with_client(
            a,
            id,
            ClientView {
                tool_calls: ToolCallsView { deferred_finish: deferred, ..c.tool_calls },
                ..c
            },
        ),
        None => a,
    }
}

pub open spec fn completion_event(a: AppView, id: Seq<char>) -> SoundEvent {
    if session::is_child(a.sessions, id) {
        SoundEvent::SubagentComplete
    } else {
        SoundEvent::Complete
    }
}

/// A turn settled and put to rest, before anything that is queued goes out.
#[verifier::opaque]
pub open spec fn rested(a: AppView, id: Seq<char>) -> AppView {
    let b = app::status_set(finalized(a, id, None), id, SessionStatus::Idle, None);
    let c = if app::is_current(b, id) {
        b
    } else {
        match app::client_of(b, id) {
            Some(own) => app::with_client(b, id, ClientView { unread_completed: true, ..own }),
            None => b,
        }
    };
    cleaned(c, id)
}

/// A turn that has come to its end. While its tools are at work the end is put off; what is
/// queued goes out; and only where nothing is, the end is told.
#[verifier::opaque]
pub open spec fn finished(a: AppView, id: Seq<char>) -> AppView {
    let b = app::snapshot(a, id, true);
    if runs_tools(b, id) {
        with_deferred(b, id, true)
    } else if app::boundary(b, id) is None {
        b
    } else {
        let c = rested(b, id);
        if stream::can_submit(c, id) {
            stream::submitted(c, id, None)
        } else {
            let event = completion_event(c, id);
            app::rung(
                app::with_effect(c, EffectView::CompletionSound { event, session_id: id }),
                event,
            )
        }
    }
}

impl App {
    fn drop_permissions(&mut self)
        ensures
            final(self)@ == permissions_dropped(old(self)@),
    {
        if self.overlay_focus == OverlayFocus::PermissionDialog {
            self.permissions = Vec::new();
            self.overlay_focus = OverlayFocus::Nothing;
            self.push_effect(Effect::DenyPermissions);
        }
    }

    fn drop_questions(&mut self)
        ensures
            final(self)@ == questions_dropped(old(self)@),
    {
        if self.overlay_focus == OverlayFocus::QuestionDialog {
            self.questions = Vec::new();
            self.overlay_focus = OverlayFocus::Nothing;
            self.push_effect(Effect::DropQuestions);
        }
    }

    pub fn stop_terminals(&mut self)
        ensures
            final(self)@ == terminals_stopped(old(self)@),
    {
        if self.terminals.len() > 0 {
            self.terminals = Vec::new();
            assert(text::views(self.terminals@) =~= Seq::<Seq<char>>::empty());
            self.push_effect(Effect::StopTerminals);
        }
    }

    fn drop_requests(&mut self)
        ensures
            final(self)@ == requests_dropped(old(self)@),
    {
        reveal(requests_dropped);
        self.drop_permissions();
        self.drop_questions();
        self.stop_terminals();
        if self.overlay_focus == OverlayFocus::TerminalSessionDialog {
            self.overlay_focus = OverlayFocus::Nothing;
        }
    }

    fn rest_client(&mut self, id: &str)
        ensures
            final(self)@ == client_rested(old(self)@, id@),
    {
        match state::find_client(&self.clients, id) {
            Some(k) => {
                let ghost before = self.clients@;
                self.clients[k].stream = None;
                self.clients[k].external_stream = None;
                self.clients[k].tool_calls.deferred_finish = false;
                self.clients[k].retry_status = None;
                proof {
                    assert(self.clients@ =~= before.update(k as int, self.clients@[k as int]));
                    app::lemma_clients_update(before, k as int, self.clients@[k as int]);
                }
            },
            None => {},
        }
    }

    pub fn cleanup_streaming_for_session(&mut self, id: &str)
        ensures
            final(self)@ == cleaned(old(self)@, id@),
    {
        reveal(cleaned);
        self.rest_client(id);
        if self.is_active_session(id) {
            self.drop_requests();
        }
        self.sync_active_streaming_flag();
        self.mark_sessions_dialog_live_dirty();
    }

    pub fn cancel_streaming_for_session(&mut self, id: &str)
        ensures
            final(self)@ == stream_cancelled(old(self)@, id@),
    {
        reveal(stream_cancelled);
        let steps: usize = self.sessions.len();
        assert(self@.sessions.len() == steps);
        self.cancel_up(id, steps);
    }

    fn cancel_up(&mut self, id: &str, steps: usize)
        ensures
            final(self)@ == cancelled_up(old(self)@, id@, steps as nat),
        decreases steps,
    {
        let compacting = self.session_has_active_compaction(id);
        let (own, other) = match state::find_client(&self.clients, id) {
            Some(k) => (
                self.clients[k].stream.is_some(),
                self.clients[k].external_stream.is_some(),
            ),
            None => (false, false),
        };
        if own {
            self.push_effect(Effect::CancelStream { session_id: id.to_owned() });
        } else if other && steps > 0 {
            match session::find_parent_id(&self.sessions, id) {
                Some(parent) => {
                    self.cancel_up(parent.as_str(), steps - 1);
                },
                None => {},
            }
        }
        if compacting {
            self.push_effect(Effect::CancelCompaction);
        }
    }

    /// Cancels what runs in the current session.
    pub fn cancel_streaming(&mut self)
        ensures
            final(self)@ == match old(self)@.current {
                Some(id) => stream_cancelled(old(self)@, id),
                None => old(self)@,
            },
    {
        match text::copy_opt(&self.current) {
            Some(id) => {
                self.cancel_streaming_for_session(id.as_str());
            },
            None => {},
        }
    }

    pub fn streaming_boundary_for_session(&self, id: &str) -> (r: Option<(
        usize,
        Option<String>,
        Option<String>,
    )>)
        ensures
            match r {
                Some(b) => app::boundary(self@, id@) matches Some(s) && s.boundary == b.0 && s.model
                    == text::opt_view(b.1) && s.provider == text::opt_view(b.2),
                None => app::boundary(self@, id@) is None,
            },
    {
        match state::find_client(&self.clients, id) {
            Some(k) => match &self.clients[k].stream {
                Some(s) => Some(
                    (s.boundary, text::copy_opt(&s.model), text::copy_opt(&s.provider)),
                ),
                None => match &self.clients[k].external_stream {
                    Some(s) => Some(
                        (s.boundary, text::copy_opt(&s.model), text::copy_opt(&s.provider)),
                    ),
                    None => None,
                },
            },
            None => None,
        }
    }

    /// Where the transcript of a session stands: on the screen, or with what is kept.
    pub fn chat_slot(&mut self, id: &str) -> (r: Option<usize>)
        ensures
            match r {
                None => app::is_current(old(self)@, id@) && final(self)@ == old(self)@,
                Some(k) => !app::is_current(old(self)@, id@) && final(self)@ == app::ensured(
                    old(self)@,
                    id@,
                ) && k < final(self).clients@.len() && state::client_at(
                    final(self)@.clients,
                    id@,
                ) == Some(k as int) && final(self).clients@[k as int].chat@ == app::transcript(
                    old(self)@,
                    id@,
                ),
            },
    {
        if self.is_active_session(id) {
            None
        } else {
            let ghost before = self@;
            let k = self.ensure_session_view_state(id);
            proof {
                if state::client_at(before.clients, id@) is None {
                    state::lemma_client_push(
                        before.clients,
                        state::client_of(
                            id@,
                            state::chat_of(app::saved_messages(before, id@)),
                        ),
                        0,
                    );
                }
                assert(self@.clients[k as int] == self.clients@[k as int]@);
            }
            Some(k)
        }
    }

    pub fn mark_streamed_assistant_interrupted(&mut self, id: &str)
        ensures
            final(self)@ == answer_interrupted(old(self)@, id@),
    {
        reveal(answer_interrupted);
        let start = match self.streaming_boundary_for_session(id) {
            Some(b) => b.0,
            None => {
                return ;
            },
        };
        match self.chat_slot(id) {
            None => {
                self.chat.mark_turn_interrupted(start);
            },
            Some(k) => {
                let ghost before = self.clients@;
                self.clients[k].chat.mark_turn_interrupted(start);
                proof {
                    assert(self.clients@ =~= before.update(k as int, self.clients@[k as int]));
                    app::lemma_clients_update(before, k as int, self.clients@[k as int]);
                }
            },
        }
    }

    fn settle(
        &mut self,
        id: &str,
        start: usize,
        model: &Option<String>,
        provider: &Option<String>,
        error: Option<&str>,
    )
        ensures
            final(self)@ == app::with_transcript(
                old(self)@,
                id@,
                transcript::turn_settled(
                    app::transcript(old(self)@, id@),
                    start as int,
                    text::opt_view(*model),
                    text::opt_view(*provider),
                    match error {
                        Some(e) => Some(e@),
                        None => None,
                    },
                ),
            ),
            error is Some && transcript::can_fail_from(
                app::transcript(old(self)@, id@).messages,
                start as int,
            ) ==> !transcript::runs_tools(app::transcript(final(self)@, id@).messages, start as int),
    {
        proof {
            keeping::lemma_with_transcript(
                self@,
                id@,
                transcript::turn_settled(
                    app::transcript(self@, id@),
                    start as int,
                    text::opt_view(*model),
                    text::opt_view(*provider),
                    match error {
                        Some(e) => Some(e@),
                        None => None,
                    },
                ),
            );
        }
        match self.chat_slot(id) {
            None => {
                self.chat.settle_turn(start, model, provider, error);
            },
            Some(k) => {
                let ghost before = self.clients@;
                self.clients[k].chat.settle_turn(start, model, provider, error);
                proof {
                    assert(self.clients@ =~= before.update(k as int, self.clients@[k as int]));
                    app::lemma_clients_update(before, k as int, self.clients@[k as int]);
                }
            },
        }
    }

    /// Settles and saves the turn under way; says whether there is one. After an error none of its
    /// tools is under way, as far as its messages can say so.
    pub fn finalize_and_persist_streamed_messages(&mut self, id: &str, error: Option<&str>) -> (r:
        bool)
        ensures
            r == (app::boundary(old(self)@, id@) is Some),
            final(self)@ == finalized(
                old(self)@,
                id@,
                match error {
                    Some(e) => Some(e@),
                    None => None,
                },
            ),
            app::boundary(old(self)@, id@) matches Some(b) ==> (error is Some
                && transcript::can_fail_from(
                app::transcript(old(self)@, id@).messages,
                b.boundary as int,
            ) ==> !runs_tools(final(self)@, id@)),
    {
        reveal(finalized);
        let ghost before = self@;
        match self.streaming_boundary_for_session(id) {
            Some((start, model, provider)) => {
                self.settle(id, start, &model, &provider, error);
                proof {
                    keeping::lemma_with_transcript(
                        before,
                        id@,
                        transcript::turn_settled(
                            app::transcript(before, id@),
                            start as int,
                            text::opt_view(model),
                            text::opt_view(provider),
                            match error {
                                Some(e) => Some(e@),
                                None => None,
                            },
                        ),
                    );
                    if app::can_save(self@, id@) {
                        keeping::lemma_persisted(self@, id@);
                    }
                }
                self.persist_chat_messages_for_session(id);
                true
            },
            None => false,
        }
    }

    fn tell_failure(&mut self, error: &str)
        ensures
            final(self)@ == failure_told(old(self)@, error@),
    {
        reveal(failure_told);
        self.alert(SoundEvent::Error);
        match titles::disconnected_stream_warning_message(error) {
            Some(warning) => {
                self.push_toast(ToastLevel::Warning, warning.as_str(), 0);
            },
            None => {
                let mut t = "LLM error: ".to_string();
                t.append(error);
                self.push_toast(ToastLevel::Error, t.as_str(), 0);
            },
        }
    }

    pub fn fail_streaming_session(&mut self, id: &str, error: &str)
        ensures
            final(self)@ == failed(old(self)@, id@, error@),
    {
        reveal(failed);
        self.maybe_persist_streaming_snapshot_for_session(id, true);
        if !self.finalize_and_persist_streamed_messages(id, Some(error)) {
            proof {
                reveal(finalized);
            }
            return ;
        }
        self.set_session_status(id, SessionStatus::Failed, Some(error.to_owned()));
        self.tell_failure(error);
        self.cleanup_streaming_for_session(id);
        self.submit_queued_messages_for_session(id);
    }

    pub fn interrupt_streaming_session_with_reason(&mut self, id: &str, reason: &str, tell: bool)
        ensures
            final(self)@ == interrupted(old(self)@, id@, reason@, tell),
    {
        reveal(interrupted);
        self.mark_streamed_assistant_interrupted(id);
        self.maybe_persist_streaming_snapshot_for_session(id, true);
        if !self.finalize_and_persist_streamed_messages(id, Some(reason)) {
            proof {
                reveal(finalized);
            }
            return ;
        }
        self.set_session_status(id, SessionStatus::Interrupted, None);
        if tell {
            self.push_toast(ToastLevel::Info, "Streaming cancelled", 0);
        }
        self.cleanup_streaming_for_session(id);
        self.submit_queued_messages_for_session(id);
    }

    fn stop_child(&mut self, id: &str, reason: &str)
        ensures
            final(self)@ == child_stopped(old(self)@, id@, reason@),
    {
        if self.session_has_active_stream(id) {
            self.interrupt_streaming_session_with_reason(id, reason, false);
        } else {
            match session::find_session(&self.sessions, id) {
                Some(i) => {
                    if self.sessions[i].status.is_active() {
                        self.set_session_status(id, SessionStatus::Interrupted, None);
                    }
                },
                None => {},
            }
        }
    }

    fn stop_children(&mut self, kin: &Vec<Kin>, parent: &str, depth: usize, reason: &str)
        ensures
            final(self)@ == children_stopped(
                old(self)@,
                kin_views(kin@),
                parent@,
                depth as nat,
                0,
                reason@,
            ),
        decreases depth,
    {
        let ghost all = kin_views(kin@);
        let ghost goal = children_stopped(self@, all, parent@, depth as nat, 0, reason@);
        let n: usize = kin.len();
        let mut i: usize = 0;
        while i < n
            invariant
                n == kin@.len(),
                all == kin_views(kin@),
                i <= n,
                goal == children_stopped(
                    self@,
                    all,
                    parent@,
                    depth as nat,
                    i as int,
                    reason@,
                ),
            decreases n - i,
        {
            assert(all[i as int].id == kin@[i as int].id@);
            let below = match &kin[i].parent_id {
                Some(p) => text::same(p.as_str(), parent),
                None => false,
            };
            if below {
                if depth > 0 {
                    self.stop_children(kin, kin[i].id.as_str(), depth - 1, reason);
                }
                self.stop_child(kin[i].id.as_str(), reason);
            }
            i += 1;
        }
    }

    pub fn interrupt_child_streams_for_parent(&mut self, id: &str)
        ensures
            final(self)@ == subagents_stopped(old(self)@, id@),
    {
        let kin = list_kin(&self.sessions);
        let generations: usize = self.sessions.len();
        assert(self@.sessions.len() == generations);
        self.stop_children(
            &kin,
            id,
            generations,
            "Stopped because parent agent was interrupted",
        );
    }

    pub fn cancelled_streaming_session(&mut self, id: &str)
        ensures
            final(self)@ == cancelled(old(self)@, id@),
    {
        reveal(cancelled);
        self.interrupt_child_streams_for_parent(id);
        self.interrupt_streaming_session_with_reason(id, "Streaming cancelled by user", true);
    }

    fn stop_for_queue(&mut self, id: &str)
        ensures
            final(self)@ == stopped_for_queue(old(self)@, id@),
    {
        reveal(stopped_for_queue);
        self.interrupt_child_streams_for_parent(id);
        self.cancel_streaming_for_session(id);
        self.mark_streamed_assistant_interrupted(id);
        self.finalize_and_persist_streamed_messages(
            id,
            Some("Streaming interrupted to send queued messages"),
        );
        self.set_session_status(id, SessionStatus::Interrupted, None);
        self.cleanup_streaming_for_session(id);
    }

    /// Stops the turn on the screen to send out what is queued; says whether that went out.
    pub fn interrupt_streaming_to_send_queued_for_session(&mut self, id: &str) -> (r: bool)
        ensures
            r == (can_interrupt_for_queue(old(self)@, id@) && stream::can_submit(
                stopped_for_queue(old(self)@, id@),
                id@,
            )),
            final(self)@ == interrupted_for_queue(old(self)@, id@),
    {
        if !self.is_active_session(id) || !self.has_queued_user_messages_for_session(id)
            || !self.session_has_active_stream(id) {
            return false;
        }
        self.stop_for_queue(id);
        self.submit_queued_messages_for_session_with_guidance(
            id,
            Some(message::INTERRUPTED_TURN_CONTINUATION_GUIDANCE.to_string()),
        )
    }

    pub fn session_has_running_tool_messages(&self, id: &str) -> (r: bool)
        ensures
            r == runs_tools(self@, id@),
    {
        let start = match self.streaming_boundary_for_session(id) {
            Some(b) => b.0,
            None => {
                return false;
            },
        };
        if self.is_active_session(id) {
            self.chat.has_running_tools(start)
        } else {
            match state::find_client(&self.clients, id) {
                Some(k) => self.clients[k].chat.has_running_tools(start),
                None => false,
            }
        }
    }

    pub fn set_deferred(&mut self, id: &str, deferred: bool)
        ensures
            final(self)@ == with_deferred(old(self)@, id@, deferred),
    {
        match state::find_client(&self.clients, id) {
            Some(k) => {
                let ghost before = self.clients@;
                self.clients[k].tool_calls.deferred_finish = deferred;
                proof {
                    assert(self.clients@ =~= before.update(k as int, self.clients@[k as int]));
                    app::lemma_clients_update(before, k as int, self.clients@[k as int]);
                }
            },
            None => {},
        }
    }

    fn put_to_rest(&mut self, id: &str)
        ensures
            final(self)@ == rested(old(self)@, id@),
    {
        reveal(rested);
        self.finalize_and_persist_streamed_messages(id, None);
        self.set_session_status(id, SessionStatus::Idle, None);
        if !self.is_active_session(id) {
            match state::find_client(&self.clients, id) {
                Some(k) => {
                    let ghost before = self.clients@;
                    self.clients[k].unread_completed = true;
                    proof {
                        assert(self.clients@ =~= before.update(k as int, self.clients@[k as int]));
                        app::lemma_clients_update(before, k as int, self.clients@[k as int]);
                    }
                },
                None => {},
            }
        }
        self.cleanup_streaming_for_session(id);
    }

    pub fn finish_streaming_session(&mut self, id: &str)
        ensures
            final(self)@ == finished(old(self)@, id@),
    {
        reveal(finished);
        self.maybe_persist_streaming_snapshot_for_session(id, true);
        if self.session_has_running_tool_messages(id) {
            self.set_deferred(id, true);
            return ;
        }
        if self.streaming_boundary_for_session(id).is_none() {
            return ;
        }
        self.put_to_rest(id);
        if self.submit_queued_messages_for_session(id) {
            return ;
        }
        proof {
            reveal(stream::submitted);
        }
        let event = if session::has_parent(&self.sessions, id) {
            SoundEvent::SubagentComplete
        } else {
            SoundEvent::Complete
        };
        self.push_effect(Effect::CompletionSound { event, session_id: id.to_owned() });
        self.notify_terminal_event(event);
    }
}

fn list_kin(sessions: &Vec<Session>) -> (r: Vec<Kin>)
    ensures
        kin_views(r@) == family(session::sessions_view(sessions@)),
{
    let ghost all = family(session::sessions_view(sessions@));
    let mut out: Vec<Kin> = Vec::new();
    assert(kin_views(out@) =~= all.take(0));
    for i in 0..sessions.len()
        invariant
            all == family(session::sessions_view(sessions@)),
            kin_views(out@) == all.take(i as int),
    {
        let ghost before = out@;
        let k = Kin {
            id: sessions[i].id.clone(),
            parent_id: text::copy_opt(&sessions[i].parent_id),
        };
        out.push(k);
        assert(all.take(i as int + 1) =~= all.take(i as int).push(all[i as int]));
        assert(kin_views(out@) =~= kin_views(before).push(all[i as int]));
    }
    assert(all.take(all.len() as int) =~= all);
    out
}

} // verus!

//! Compactions: starting one, judging its result, and taking it in.

use crate::app;
use crate::app::{App, AppView};
use crate::message;
use crate::message::{CompactionStats, Message, MessageView};
use crate::prompting;
use crate::reasoning;
use crate::reasoning::ReasoningEffort;
use crate::session;
use crate::session::{SessionStatus, SessionView};
use crate::state;
use crate::state::{
    Chat, ChatView, ClientView, CompactionPending, CompactionView, Effect, EffectView, SoundEvent,
    ToastLevel, ToolCallViewState,
};
use crate::stream;
use crate::text;
use vstd::prelude::*;
use vstd::string::*;

verus! {

/// The effort to summarise with.
pub open spec fn summary_effort(a: AppView) -> Option<ReasoningEffort> {
    reasoning::compaction_effort(
        reasoning::capability_of(a.reasoning.capabilities, a.provider_name, a.model),
        a.reasoning.resolved(a.provider_name, a.model),
    )
}

/// A compaction under way.
#[verifier::opaque]
pub open spec fn compaction_begun(a: AppView, id: Seq<char>, before_tokens: usize) -> AppView {
    let b = app::status_set(
        AppView {
            compaction: Some(CompactionView { session_id: id, before_tokens }),
            is_streaming: true,
            usage_stale: true,
            ..a
        },
        id,
        SessionStatus::Streaming,
        None,
    );
    app::with_effect(
        app::toasted(b, ToastLevel::Info, "Compacting session..."@, 2),
        EffectView::StartCompaction {
            session_id: id,
            provider: a.provider_name,
            model: a.model,
            agent: a.agent,
            effort: summary_effort(a),
        },
    )
}

/// What follows once the caller knows whether there is anything to summarise, and how much the
/// session takes up.
pub open spec fn compaction_selected(
    a: AppView,
    id: Seq<char>,
    before_tokens: Option<usize>,
) -> AppView {
    match before_tokens {
        Some(n) => compaction_begun(a, id, n),
        None => prompting::complained(a, "Nothing to compact"@, 3),
    }
}

impl App {
    fn effort_for_summary(&self) -> (r: Option<ReasoningEffort>)
        ensures
            r == summary_effort(self@),
    {
        let active = self.reasoning.resolved_reasoning_effort_for_model(
            self.provider_name.as_str(),
            self.model.as_str(),
        );
        reasoning::effort_for_compaction(
            self.reasoning.reasoning_capability_for_model(
                self.provider_name.as_str(),
                self.model.as_str(),
            ),
            active,
        )
    }

    fn set_compacting(&mut self, id: &str, before_tokens: usize)
        ensures
            final(self)@ == (AppView {
                compaction: Some(CompactionView { session_id: id@, before_tokens }),
                is_streaming: true,
                usage_stale: true,
                ..old(self)@
            }),
    {
        self.compaction = Some(CompactionPending { session_id: id.to_owned(), before_tokens });
        self.is_streaming = true;
        self.usage_stale = true;
    }

    fn begin_compaction(&mut self, id: &str, before_tokens: usize)
        ensures
            final(self)@ == compaction_begun(old(self)@, id@, before_tokens),
    {
        reveal(compaction_begun);
        let effort = self.effort_for_summary();
        let provider = self.provider_name.clone();
        let model = self.model.clone();
        let agent = self.agent.clone();
        self.set_compacting(id, before_tokens);
        self.set_session_status(id, SessionStatus::Streaming, None);
        self.push_toast(ToastLevel::Info, "Compacting session...", 2);
        self.push_effect(
            Effect::StartCompaction { session_id: id.to_owned(), provider, model, agent, effort },
        );
    }

    /// Starts a compaction, or says that there is nothing to compact.
    pub fn compaction_selection(&mut self, id: &str, before_tokens: Option<usize>)
        ensures
            final(self)@ == compaction_selected(old(self)@, id@, before_tokens),
    {
        match before_tokens {
            Some(n) => self.begin_compaction(id, n),
            None => self.complain("Nothing to compact", 3),
        }
    }
}

/// A session with a summary in it, and what that saves.
#[derive(Debug)]
pub struct Compacted {
    pub messages: Vec<Message>,
    pub marker: Option<usize>,
    pub stats: CompactionStats,
    pub stats_text: String,
}

/// What a compaction comes to.
#[derive(Debug)]
pub enum Verdict {
    Success { messages: Vec<Message> },
    Failed { error: String },
    Cancelled,
}

pub enum VerdictView {
    Success { messages: Seq<MessageView> },
    Failed { error: Seq<char> },
    Cancelled,
}

impl View for Verdict {
    type V = VerdictView;

    open spec fn view(&self) -> VerdictView {
        match self {
            Verdict::Success { messages } => VerdictView::Success {
                messages: message::messages_view(messages@),
            },
            Verdict::Failed { error } => VerdictView::Failed { error: error@ },
            Verdict::Cancelled => VerdictView::Cancelled,
        }
    }
}

/// The messages with the savings noted at the marker.
pub open spec fn with_stats(
    ms: Seq<MessageView>,
    marker: Option<usize>,
    stats: CompactionStats,
) -> Seq<MessageView> {
    match marker {
        Some(i) => if i < ms.len() {
            ms.update(
                i as int,
                MessageView { compaction_stats: Some(stats), ..ms[i as int] },
            )
        } else {
            ms
        },
        None => ms,
    }
}

/// An error, unless it was the user who wanted it.
pub open spec fn failure(error: Seq<char>, cancelled: bool) -> VerdictView {
    if cancelled || text::contains(text::lower_all(error), "cancelled"@) {
        VerdictView::Cancelled
    } else {
        VerdictView::Failed { error }
    }
}

/// A summary counts only if it makes the context smaller.
pub open spec fn verdict(result: Result<Compacted, String>, cancelled: bool) -> VerdictView {
    match result {
        Ok(c) => if cancelled {
            VerdictView::Cancelled
        } else if c.stats.after_tokens >= c.stats.before_tokens {
            failure("Compaction did not reduce context ("@ + c.stats_text@ + ")"@, cancelled)
        } else {
            VerdictView::Success {
                messages: with_stats(message::messages_view(c.messages@), c.marker, c.stats),
            }
        },
        Err(e) => failure(e@, cancelled),
    }
}

fn judge_failure(error: String, cancelled: bool) -> (r: Verdict)
    ensures
        r@ == failure(error@, cancelled),
{
    let lower = text::lowered(error.as_str());
    if cancelled || text::contains_str(lower.as_str(), "cancelled") {
        Verdict::Cancelled
    } else {
        Verdict::Failed { error }
    }
}

fn note_stats(messages: Vec<Message>, marker: Option<usize>, stats: CompactionStats) -> (r: Vec<
    Message,
>)
    ensures
        message::messages_view(r@) == with_stats(
            message::messages_view(messages@),
            marker,
            stats,
        ),
{
    let mut ms = messages;
    match marker {
        Some(i) => {
            if i < ms.len() {
                let ghost before = ms@;
                ms[i].compaction_stats = Some(stats);
                assert(message::messages_view(ms@) =~= message::messages_view(before).update(
                    i as int,
                    ms@[i as int]@,
                ));
            }
        },
        None => {},
    }
    ms
}

/// Judges the result of a compaction.
pub fn judge_compaction(result: Result<Compacted, String>, cancelled: bool) -> (r: Verdict)
    ensures
        r@ == verdict(result, cancelled),
{
    match result {
        Ok(c) => {
            if cancelled {
                return Verdict::Cancelled;
            }
            if c.stats.after_tokens >= c.stats.before_tokens {
                let mut t = "Compaction did not reduce context (".to_string();
                t.append(c.stats_text.as_str());
                t.append(")");
                return judge_failure(t, cancelled);
            }
            Verdict::Success { messages: note_stats(c.messages, c.marker, c.stats) }
        },
        Err(e) => judge_failure(e, cancelled),
    }
}

/// A compaction never makes a context larger.
pub proof fn law_compaction_shrinks(c: Compacted, cancelled: bool)
    requires
        verdict(Ok(c), cancelled) is Success,
    ensures
        c.stats.after_tokens < c.stats.before_tokens,
        !cancelled,
{
}

/// What the task of a compaction reports. What the caller has stored comes with its result.
#[derive(Debug)]
pub enum CompactionEvent {
    Success {
        session_id: String,
        messages: Vec<Message>,
        marker: Option<usize>,
        stats_text: String,
        stored: Result<(), String>,
    },
    Failed { session_id: String, error: String },
    Cancelled { session_id: String },
}

pub enum CompactionEventView {
    Success {
        session_id: Seq<char>,
        messages: Seq<MessageView>,
        marker: Option<usize>,
        stats_text: Seq<char>,
        stored: Result<(), Seq<char>>,
    },
    Failed { session_id: Seq<char>, error: Seq<char> },
    Cancelled { session_id: Seq<char> },
}

impl View for CompactionEvent {
    type V = CompactionEventView;

    open spec fn view(&self) -> CompactionEventView {
        match self {
            CompactionEvent::Success { session_id, messages, marker, stats_text, stored } => {
                CompactionEventView::Success {
                    session_id: session_id@,
                    messages: message::messages_view(messages@),
                    marker: *marker,
                    stats_text: stats_text@,
                    stored: crate::answers::stored(*stored),
                }
            },
            CompactionEvent::Failed { session_id, error } => CompactionEventView::Failed {
                session_id: session_id@,
                error: error@,
            },
            CompactionEvent::Cancelled { session_id } => CompactionEventView::Cancelled {
                session_id: session_id@,
            },
        }
    }
}

impl CompactionEventView {
    pub open spec fn id(self) -> Seq<char> {
        match self {
            CompactionEventView::Success { session_id, .. } => session_id,
            CompactionEventView::Failed { session_id, .. } => session_id,
            CompactionEventView::Cancelled { session_id } => session_id,
        }
    }
}

pub open spec fn event_views(v: Seq<CompactionEvent>) -> Seq<CompactionEventView> {
    v.map_values(|e: CompactionEvent| e@)
}

#[verifier::opaque]
pub open spec fn messages_replaced(a: AppView, id: Seq<char>, ms: Seq<MessageView>) -> AppView {
    match session::session_at(a.sessions, id) {
        Some(i) => AppView {
            sessions: a.sessions.update(
                i,
                SessionView { messages: ms, updated_at: a.now, ..a.sessions[i] },
            ),
            ..a
        },
        None => a,
    }
}

/// The transcript on the screen replaced, with the marker lit, and its end in sight.
pub open spec fn screen_replaced(
    a: AppView,
    ms: Seq<MessageView>,
    marker: Option<usize>,
) -> AppView {
    app::with_effect(
        AppView {
            chat: ChatView { highlighted: marker, ..state::with_messages(a.chat, ms) },
            ..a
        },
        EffectView::ScrollToBottom,
    )
}

pub open spec fn parked_client(
    c: ClientView,
    ms: Seq<MessageView>,
    marker: Option<usize>,
    current: bool,
) -> ClientView {
    ClientView {
        chat: if current {
            c.chat
        } else {
            ChatView { highlighted: marker, ..state::chat_of(ms) }
        },
        tool_calls: state::no_tool_calls(),
        unread_completed: !current,
        ..c
    }
}

/// What is kept of a session that was compacted. The transcript on the screen is not kept twice.
#[verifier::opaque]
pub open spec fn parked(
    a: AppView,
    id: Seq<char>,
    ms: Seq<MessageView>,
    marker: Option<usize>,
) -> AppView {
    let e = app::ensured(a, id);
    app::with_client(
        e,
        id,
        parked_client(app::client_of(e, id)->0, ms, marker, app::is_current(a, id)),
    )
}

#[verifier::opaque]
pub open spec fn compacted(
    a: AppView,
    id: Seq<char>,
    ms: Seq<MessageView>,
    marker: Option<usize>,
    stats_text: Seq<char>,
) -> AppView {
    let b = messages_replaced(a, id, ms);
    let c = if app::is_current(b, id) {
        screen_replaced(b, ms, marker)
    } else {
        b
    };
    let d = app::status_set(parked(c, id, ms, marker), id, SessionStatus::Idle, None);
    app::toasted(
        app::relisted(app::with_stale_usage(d)),
        ToastLevel::Info,
        "Context compacted ("@ + stats_text + ")"@,
        3,
    )
}

/// Why a compacted session was not kept.
pub open spec fn loss(stored: Result<(), Seq<char>>) -> Seq<char> {
    match stored {
        Ok(_) => "NotFound"@,
        Err(why) => why,
    }
}

#[verifier::opaque]
pub open spec fn event_done(a: AppView, e: CompactionEventView) -> AppView {
    match e {
        CompactionEventView::Success { session_id, messages, marker, stats_text, stored } => {
            if stored is Ok && stream::exists_session(a, session_id) {
                compacted(a, session_id, messages, marker, stats_text)
            } else {
                prompting::complained(
                    app::status_set(a, session_id, SessionStatus::Idle, None),
                    "Failed to save compacted session: "@ + loss(stored),
                    3,
                )
            }
        },
        CompactionEventView::Failed { session_id, error } => prompting::complained(
            app::status_set(a, session_id, SessionStatus::Idle, None),
            "Failed to compact session: "@ + error,
            3,
        ),
        CompactionEventView::Cancelled { session_id } => app::toasted(
            app::status_set(a, session_id, SessionStatus::Idle, None),
            ToastLevel::Info,
            "Compaction cancelled"@,
            2,
        ),
    }
}

pub open spec fn events_done(a: AppView, events: Seq<CompactionEventView>) -> AppView
    decreases events.len(),
{
    if events.len() == 0 {
        a
    } else {
        event_done(events_done(a, events.drop_last()), events.last())
    }
}

/// What is queued in the sessions goes out, one after the other.
pub open spec fn queues_sent(a: AppView, events: Seq<CompactionEventView>) -> AppView
    decreases events.len(),
{
    if events.len() == 0 {
        a
    } else {
        stream::submitted(queues_sent(a, events.drop_last()), events.last().id(), None)
    }
}

pub open spec fn compaction_ended(a: AppView) -> AppView {
    AppView { compaction: None, usage_stale: true, ..a }
}

/// The task of a compaction heard: it has ended once it reports anything, or ends without a
/// word; then what had to wait for it goes out.
#[verifier::opaque]
pub open spec fn compaction_heard(
    a: AppView,
    events: Seq<CompactionEventView>,
    disconnected: bool,
) -> AppView {
    app::synced(
        if events.len() > 0 {
            queues_sent(events_done(compaction_ended(a), events), events)
        } else if disconnected {
            match a.compaction {
                Some(p) => stream::submitted(compaction_ended(a), p.session_id, None),
                None => compaction_ended(a),
            }
        } else {
            a
        },
    )
}

impl App {
    fn replace_on_screen(&mut self, messages: Vec<Message>, marker: Option<usize>)
        ensures
            final(self)@ == screen_replaced(
                old(self)@,
                message::messages_view(messages@),
                marker,
            ),
    {
        self.chat.replace_messages(messages);
        self.chat.highlighted = marker;
        self.push_effect(Effect::ScrollToBottom);
    }

    fn park(&mut self, id: &str, messages: Vec<Message>, marker: Option<usize>)
        ensures
            final(self)@ == parked(old(self)@, id@, message::messages_view(messages@), marker),
    {
        reveal(parked);
        let current = self.is_active_session(id);
        let k = self.ensure_session_view_state(id);
        self.park_at(k, messages, marker, current);
    }

    fn park_at(&mut self, k: usize, messages: Vec<Message>, marker: Option<usize>, current: bool)
        requires
            k < old(self).clients@.len(),
        ensures
            final(self)@ == (AppView {
                clients: old(self)@.clients.update(
                    k as int,
                    parked_client(
                        old(self)@.clients[k as int],
                        message::messages_view(messages@),
                        marker,
                        current,
                    ),
                ),
                ..old(self)@
            }),
    {
        let ghost before = self.clients@;
        self.clients[k].tool_calls = ToolCallViewState::new();
        self.clients[k].unread_completed = !current;
        if !current {
            let mut chat = Chat::with_messages(messages);
            chat.highlighted = marker;
            self.clients[k].chat = chat;
        }
        proof {
            assert(self.clients@ =~= before.update(k as int, self.clients@[k as int]));
            app::lemma_clients_update(before, k as int, self.clients@[k as int]);
        }
    }

    fn put_messages(&mut self, id: &str, messages: Vec<Message>)
        ensures
            final(self)@ == messages_replaced(
                old(self)@,
                id@,
                message::messages_view(messages@),
            ),
    {
        reveal(messages_replaced);
        self.replace_session_messages(id, messages);
    }

    fn take_compacted(
        &mut self,
        id: &str,
        messages: Vec<Message>,
        marker: Option<usize>,
        stats_text: &str,
    )
        ensures
            final(self)@ == compacted(
                old(self)@,
                id@,
                message::messages_view(messages@),
                marker,
                stats_text@,
            ),
    {
        reveal(compacted);
        self.put_messages(id, message::copy_messages(&messages));
        if self.is_active_session(id) {
            self.replace_on_screen(message::copy_messages(&messages), marker);
        }
        self.park(id, messages, marker);
        self.set_session_status(id, SessionStatus::Idle, None);
        self.usage_stale = true;
        self.refresh_sessions_dialog();
        let mut t = "Context compacted (".to_string();
        t.append(stats_text);
        t.append(")");
        self.push_toast(ToastLevel::Info, t.as_str(), 3);
    }

    fn give_up_compaction(&mut self, id: &str, what: &str, why: &str)
        ensures
            final(self)@ == prompting::complained(
                app::status_set(old(self)@, id@, SessionStatus::Idle, None),
                what@ + why@,
                3,
            ),
    {
        self.set_session_status(id, SessionStatus::Idle, None);
        let mut t = what.to_owned();
        t.append(why);
        self.complain(t.as_str(), 3);
    }

    fn take_compaction_event(&mut self, e: &CompactionEvent)
        ensures
            final(self)@ == event_done(old(self)@, e@),
    {
        reveal(event_done);
        match e {
            CompactionEvent::Success { session_id, messages, marker, stats_text, stored } => {
                let known = session::find_session(&self.sessions, session_id.as_str()).is_some();
                match stored {
                    Ok(_) => {
                        if known {
                            self.take_compacted(
                                session_id.as_str(),
                                message::copy_messages(messages),
                                *marker,
                                stats_text.as_str(),
                            );
                        } else {
                            self.give_up_compaction(
                                session_id.as_str(),
                                "Failed to save compacted session: ",
                                "NotFound",
                            );
                        }
                    },
                    Err(why) => {
                        self.give_up_compaction(
                            session_id.as_str(),
                            "Failed to save compacted session: ",
                            why.as_str(),
                        );
                    },
                }
            },
            CompactionEvent::Failed { session_id, error } => {
                self.give_up_compaction(
                    session_id.as_str(),
                    "Failed to compact session: ",
                    error.as_str(),
                );
            },
            CompactionEvent::Cancelled { session_id } => {
                self.set_session_status(session_id.as_str(), SessionStatus::Idle, None);
                self.push_toast(ToastLevel::Info, "Compaction cancelled", 2);
            },
        }
    }

    fn take_compaction_events(&mut self, events: &Vec<CompactionEvent>)
        ensures
            final(self)@ == events_done(old(self)@, event_views(events@)),
    {
        let ghost start = self@;
        let ghost all = event_views(events@);
        assert(all.take(0) =~= Seq::<CompactionEventView>::empty());
        for i in 0..events.len()
            invariant
                all == event_views(events@),
                self@ == events_done(start, all.take(i as int)),
        {
            proof {
                assert(all.take(i as int + 1).drop_last() =~= all.take(i as int));
                assert(all.take(i as int + 1).last() == events@[i as int]@);
            }
            self.take_compaction_event(&events[i]);
        }
        assert(all.take(all.len() as int) =~= all);
    }

    fn send_queues(&mut self, events: &Vec<CompactionEvent>)
        ensures
            final(self)@ == queues_sent(old(self)@, event_views(events@)),
    {
        let ghost start = self@;
        let ghost all = event_views(events@);
        assert(all.take(0) =~= Seq::<CompactionEventView>::empty());
        for i in 0..events.len()
            invariant
                all == event_views(events@),
                self@ == queues_sent(start, all.take(i as int)),
        {
            proof {
                assert(all.take(i as int + 1).drop_last() =~= all.take(i as int));
                assert(all.take(i as int + 1).last() == events@[i as int]@);
            }
            let id = event_session(&events[i]);
            self.submit_queued_messages_for_session(id.as_str());
        }
        assert(all.take(all.len() as int) =~= all);
    }

    fn end_compaction(&mut self)
        ensures
            final(self)@ == compaction_ended(old(self)@),
    {
        self.compaction = None;
        self.usage_stale = true;
    }

    /// Takes in what the task of a compaction reports.
    pub fn process_compaction_events(&mut self, events: Vec<CompactionEvent>, disconnected: bool)
        ensures
            final(self)@ == compaction_heard(old(self)@, event_views(events@), disconnected),
    {
        reveal(compaction_heard);
        assert(event_views(events@).len() == events@.len());
        if events.len() > 0 {
            self.end_compaction();
            self.take_compaction_events(&events);
            self.send_queues(&events);
            self.sync_active_streaming_flag();
            return ;
        }
        if disconnected {
            let pending: Option<String> = match &self.compaction {
                Some(p) => Some(p.session_id.clone()),
                None => None,
            };
            self.end_compaction();
            match pending {
                Some(id) => {
                    self.submit_queued_messages_for_session(id.as_str());
                },
                None => {},
            }
            self.sync_active_streaming_flag();
            return ;
        }
        self.sync_active_streaming_flag();
    }
}

fn event_session(e: &CompactionEvent) -> (r: String)
    ensures
        r@ == e@.id(),
{
    match e {
        CompactionEvent::Success { session_id, .. } => session_id.clone(),
        CompactionEvent::Failed { session_id, .. } => session_id.clone(),
        CompactionEvent::Cancelled { session_id } => session_id.clone(),
    }
}

} // verus!

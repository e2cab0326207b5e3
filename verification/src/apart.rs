//! What happens in one session leaves the others alone.

use crate::app;
use crate::app::AppView;
use crate::chunks::{ChunkMessage, ChunkView, LeafView};
use crate::events;
use crate::keeping;
use crate::queue;
use crate::queue::QueuedView;
use crate::session;
use crate::session::{SessionStatus, SessionView};
use crate::state;
use crate::state::{ChatView, ClientView};
use crate::stream;
use crate::titles;
use crate::transcript;
use crate::turns;
use vstd::prelude::*;

verus! {

/// Session `other` is as it was: on the screen, in what is kept of it and in what is saved.
pub open spec fn is_untouched(a: AppView, r: AppView, other: Seq<char>) -> bool {
    &&& r.current == a.current
    &&& app::is_current(a, other) ==> r.chat == a.chat
    &&& app::client_of(r, other) == app::client_of(a, other)
    &&& match session::session_at(a.sessions, other) {
        Some(i) => session::session_at(r.sessions, other) matches Some(j) && r.sessions[j]
            == a.sessions[i],
        None => session::session_at(r.sessions, other) is None,
    }
}

proof fn lemma_client_apart(a: AppView, id: Seq<char>, c: ClientView, other: Seq<char>)
    requires
        other != id,
        c.id == id,
    ensures
        is_untouched(a, app::with_client(a, id, c), other),
{
    if app::client_of(a, id) is Some {
        keeping::lemma_with_client(a, id, c, other);
    }
}

/// A session changed in its place leaves the others as they are.
proof fn lemma_session_apart(a: AppView, i: int, s: SessionView, other: Seq<char>)
    requires
        0 <= i < a.sessions.len(),
        s.id == a.sessions[i].id,
        s.id != other,
    ensures
        is_untouched(a, (AppView { sessions: a.sessions.update(i, s), ..a }), other),
{
    let after = a.sessions.update(i, s);
    session::lemma_same_ids(a.sessions, after, other, 0);
    session::lemma_session_from(a.sessions, other, 0);
}

proof fn lemma_transcript_apart(a: AppView, id: Seq<char>, chat: ChatView, other: Seq<char>)
    requires
        other != id,
    ensures
        is_untouched(a, app::with_transcript(a, id, chat), other),
{
    if !app::is_current(a, id) {
        keeping::lemma_ensured(a, id, other);
        let e = app::ensured(a, id);
        lemma_client_apart(e, id, ClientView { chat, ..app::client_of(e, id)->0 }, other);
    }
}

proof fn lemma_marked_apart(a: AppView, id: Seq<char>, other: Seq<char>)
    requires
        other != id,
    ensures
        is_untouched(a, app::marked_pending(a, id), other),
{
    state::lemma_client_from(a.clients, id, 0);
    if let Some(c) = app::client_of(a, id) {
        lemma_client_apart(a, id, app::client_marked(c), other);
    }
}

proof fn lemma_persisted_apart(a: AppView, id: Seq<char>, other: Seq<char>)
    requires
        other != id,
    ensures
        is_untouched(a, app::persisted(a, id), other),
{
    session::lemma_session_from(a.sessions, id, 0);
    if app::can_save(a, id) {
        let i = session::session_at(a.sessions, id)->0;
        let messages = app::transcript(a, id).messages;
        lemma_session_apart(
            a,
            i,
            SessionView { messages, updated_at: a.now, ..a.sessions[i] },
            other,
        );
    }
}

proof fn lemma_status_apart(
    a: AppView,
    id: Seq<char>,
    status: SessionStatus,
    error: Option<Seq<char>>,
    other: Seq<char>,
)
    requires
        other != id,
    ensures
        is_untouched(a, app::status_set(a, id, status, error), other),
{
    session::lemma_session_from(a.sessions, id, 0);
    if let Some(i) = session::session_at(a.sessions, id) {
        lemma_session_apart(a, i, SessionView { status, error, ..a.sessions[i] }, other);
    }
}

proof fn lemma_snapshot_apart(a: AppView, id: Seq<char>, force: bool, other: Seq<char>)
    requires
        other != id,
    ensures
        is_untouched(a, app::snapshot(a, id, force), other),
{
    reveal(app::snapshot);
    state::lemma_client_from(a.clients, id, 0);
    lemma_persisted_apart(a, id, other);
    if let Some(c) = app::client_of(a, id) {
        lemma_client_apart(
            app::persisted(a, id),
            id,
            app::with_asked(c),
            other,
        );
    }
}

proof fn lemma_cleaned_apart(a: AppView, id: Seq<char>, other: Seq<char>)
    requires
        other != id,
    ensures
        is_untouched(a, turns::cleaned(a, id), other),
{
    reveal(turns::cleaned);
    reveal(turns::requests_dropped);
    state::lemma_client_from(a.clients, id, 0);
    if let Some(c) = app::client_of(a, id) {
        lemma_client_apart(a, id, turns::client_at_rest(c), other);
    }
}

proof fn lemma_finalized_apart(
    a: AppView,
    id: Seq<char>,
    error: Option<Seq<char>>,
    other: Seq<char>,
)
    requires
        other != id,
    ensures
        is_untouched(a, turns::finalized(a, id, error), other),
{
    reveal(turns::finalized);
    if let Some(b) = app::boundary(a, id) {
        let settled = transcript::turn_settled(
            app::transcript(a, id),
            b.boundary as int,
            b.model,
            b.provider,
            error,
        );
        lemma_transcript_apart(a, id, settled, other);
        lemma_persisted_apart(app::with_transcript(a, id, settled), id, other);
    }
}

proof fn lemma_started_apart(
    a: AppView,
    id: Seq<char>,
    prompt: Seq<char>,
    guidance: Option<Seq<char>>,
    other: Seq<char>,
)
    requires
        other != id,
        a.current == Some(id),
    ensures
        is_untouched(a, stream::turn_started(a, id, prompt, guidance), other),
{
    reveal(stream::turn_started);
    reveal(stream::title_asked);
    reveal(stream::turn_begun);
    keeping::lemma_ensured(a, id, other);
    let e = app::ensured(a, id);
    let begun = ClientView {
        stream: Some(
            state::new_stream(
                Some(a.model),
                Some(a.provider_name),
                a.chat.messages.len() as usize,
                a.now,
            ),
        ),
        tool_calls: state::no_tool_calls(),
        unread_completed: false,
        retry_status: None,
        ..app::client_of(e, id)->0
    };
    lemma_client_apart(e, id, begun, other);
    let b = AppView {
        chat: stream::turn_begun(a, id).chat,
        is_streaming: true,
        ..app::with_client(e, id, begun)
    };
    lemma_persisted_apart(b, id, other);
    lemma_status_apart(app::persisted(b, id), id, SessionStatus::Streaming, None, other);
}

pub proof fn lemma_submitted_apart(
    a: AppView,
    id: Seq<char>,
    guidance: Option<Seq<char>>,
    other: Seq<char>,
)
    requires
        other != id,
    ensures
        is_untouched(a, stream::submitted(a, id, guidance), other),
{
    reveal(stream::submitted);
    if stream::can_submit(a, id) {
        reveal(stream::dequeued);
        state::lemma_client_from(a.clients, id, 0);
        let c = app::client_of(a, id)->0;
        lemma_client_apart(
            a,
            id,
            ClientView { queued_items: stream::left_queued(c.queued_items), ..c },
            other,
        );
        let d = stream::dequeued(a, id);
        assert(is_untouched(a, d, other));
        let front = queue::leading(stream::queue_of(a, id));
        if front.len() > 0 {
            reveal(stream::user_message_added);
            let prompt = queue::combined(front);
            let u = stream::user_message_added(d, prompt.text, prompt.image_paths);
            session::lemma_session_from(d.sessions, id, 0);
            if let Some(i) = session::session_at(d.sessions, id) {
                lemma_session_apart(d, i, u.sessions[i], other);
            }
            assert(is_untouched(d, u, other));
            lemma_started_apart(u, id, prompt.text, guidance, other);
        } else {
            reveal(stream::compaction_asked);
            keeping::lemma_ensured(d, id, other);
            let e = app::ensured(d, id);
            let own = app::client_of(e, id)->0;
            lemma_client_apart(
                e,
                id,
                ClientView { queued_items: own.queued_items.push(QueuedView::Compact), ..own },
                other,
            );
        }
    }
}

proof fn lemma_failed_apart(a: AppView, id: Seq<char>, error: Seq<char>, other: Seq<char>)
    requires
        other != id,
    ensures
        is_untouched(a, turns::failed(a, id, error), other),
{
    reveal(turns::failed);
    reveal(turns::failure_told);
    lemma_snapshot_apart(a, id, true, other);
    let b = app::snapshot(a, id, true);
    lemma_finalized_apart(b, id, Some(error), other);
    let f = turns::finalized(b, id, Some(error));
    lemma_status_apart(f, id, SessionStatus::Failed, Some(error), other);
    let c = app::alerted(
        app::status_set(f, id, SessionStatus::Failed, Some(error)),
        state::SoundEvent::Error,
    );
    let d = match titles::lost_connection_warning(error) {
        Some(warning) => app::toasted(c, state::ToastLevel::Warning, warning, 0),
        None => app::toasted(c, state::ToastLevel::Error, "LLM error: "@ + error, 0),
    };
    lemma_cleaned_apart(d, id, other);
    lemma_submitted_apart(turns::cleaned(d, id), id, None, other);
}

proof fn lemma_finished_apart(a: AppView, id: Seq<char>, other: Seq<char>)
    requires
        other != id,
    ensures
        is_untouched(a, turns::finished(a, id), other),
{
    reveal(turns::finished);
    reveal(turns::rested);
    lemma_snapshot_apart(a, id, true, other);
    let b = app::snapshot(a, id, true);
    state::lemma_client_from(b.clients, id, 0);
    if turns::runs_tools(b, id) {
        let own = app::client_of(b, id)->0;
        lemma_client_apart(
            b,
            id,
            ClientView {
                tool_calls: state::ToolCallsView { deferred_finish: true, ..own.tool_calls },
                ..own
            },
            other,
        );
    } else if app::boundary(b, id) is Some {
        lemma_finalized_apart(b, id, None, other);
        let f = turns::finalized(b, id, None);
        lemma_status_apart(f, id, SessionStatus::Idle, None, other);
        let s = app::status_set(f, id, SessionStatus::Idle, None);
        state::lemma_client_from(s.clients, id, 0);
        if let Some(own) = app::client_of(s, id) {
            lemma_client_apart(s, id, ClientView { unread_completed: true, ..own }, other);
        }
        let c = if app::is_current(s, id) {
            s
        } else {
            match app::client_of(s, id) {
                Some(own) => app::with_client(
                    s,
                    id,
                    ClientView { unread_completed: true, ..own },
                ),
                None => s,
            }
        };
        lemma_cleaned_apart(c, id, other);
        lemma_submitted_apart(turns::cleaned(c, id), id, None, other);
    }
}

/// What an agent writes and calls, and that its turn ends or fails.
pub open spec fn is_output(leaf: LeafView) -> bool {
    match leaf {
        LeafView::Text(_) => true,
        LeafView::Reasoning(_) => true,
        LeafView::Retry(_) => true,
        LeafView::Other(chunk) => match chunk {
            ChunkMessage::StreamRollback { .. } => true,
            ChunkMessage::Warning(_) => true,
            ChunkMessage::ToolCalls(_) => true,
            ChunkMessage::End => true,
            ChunkMessage::Failed(_) => true,
            _ => false,
        },
    }
}

proof fn lemma_retry_apart(a: AppView, id: Seq<char>, other: Seq<char>)
    requires
        other != id,
    ensures
        forall|status: Option<state::RetryView>|
            is_untouched(a, #[trigger] events::retry_set(a, id, status), other),
{
    keeping::lemma_ensured(a, id, other);
    let e = app::ensured(a, id);
    let c = app::client_of(e, id)->0;
    assert forall|status: Option<state::RetryView>|
        is_untouched(a, #[trigger] events::retry_set(a, id, status), other) by {
        lemma_client_apart(e, id, ClientView { retry_status: status, ..c }, other);
    }
}

proof fn lemma_leaf_apart(a: AppView, id: Seq<char>, leaf: LeafView, other: Seq<char>)
    requires
        other != id,
        is_output(leaf),
    ensures
        is_untouched(a, events::leaf_applied(a, id, leaf).0, other),
{
    reveal(events::text_streamed);
    reveal(events::reasoning_streamed);
    reveal(events::stream_rolled_back);
    reveal(events::tools_called);
    lemma_retry_apart(a, id, other);
    let b = events::retry_set(a, id, None);
    match leaf {
        LeafView::Text(t) => {
            let chat = transcript::text_appended(app::transcript(b, id), t);
            lemma_transcript_apart(b, id, chat, other);
            lemma_marked_apart(app::with_transcript(b, id, chat), id, other);
        },
        LeafView::Reasoning(t) => {
            let chat = transcript::reasoning_appended(app::transcript(b, id), t);
            lemma_transcript_apart(b, id, chat, other);
            lemma_marked_apart(app::with_transcript(b, id, chat), id, other);
        },
        LeafView::Retry(_) => {},
        LeafView::Other(chunk) => match chunk {
            ChunkMessage::StreamRollback { text, reasoning } => {
                let chat = transcript::output_rolled_back(
                    app::transcript(a, id),
                    text@,
                    reasoning@,
                );
                lemma_transcript_apart(a, id, chat, other);
                lemma_marked_apart(app::with_transcript(a, id, chat), id, other);
            },
            ChunkMessage::ToolCalls(calls) => {
                let old_chat = app::transcript(b, id);
                let chat = transcript::calls_added(old_chat, calls@);
                lemma_transcript_apart(b, id, chat, other);
                let c = app::with_transcript(b, id, chat);
                state::lemma_client_from(c.clients, id, 0);
                if let Some(own) = app::client_of(c, id) {
                    let more = ClientView {
                        tool_calls: state::ToolCallsView {
                            places: own.tool_calls.places + transcript::call_places(
                                old_chat,
                                calls@,
                            ),
                            ..own.tool_calls
                        },
                        ..own
                    };
                    lemma_client_apart(c, id, more, other);
                    lemma_marked_apart(app::with_client(c, id, more), id, other);
                }
                lemma_marked_apart(c, id, other);
            },
            ChunkMessage::End => lemma_finished_apart(a, id, other),
            ChunkMessage::Failed(error) => lemma_failed_apart(a, id, error@, other),
            _ => {},
        },
    }
}

/// What an agent writes, and the end of its turn, reach only the session that they are for:
/// every session that is not on their route is as it was, on the screen, in what is kept of it and
/// in what is saved, and so is the session that a subagent works for.
pub proof fn law_output_reaches_its_own_session(
    a: AppView,
    id: Seq<char>,
    c: ChunkView,
    other: Seq<char>,
)
    requires
        is_output(c.leaf),
        c.route.len() == 0 ==> other != id,
        !c.route.contains(other),
    ensures
        is_untouched(a, events::applied(a, id, c).0, other),
    decreases c.route.len(),
{
    if c.route.len() == 0 {
        lemma_leaf_apart(a, id, c.leaf, other);
    } else {
        let child = c.route[0];
        if app::streams(a, child) {
            let rest = ChunkView { route: c.route.drop_first(), leaf: c.leaf };
            assert(c.route.contains(child));
            assert(!rest.route.contains(other)) by {
                if rest.route.contains(other) {
                    let i = rest.route.index_of(other);
                    assert(c.route[i + 1] == other);
                }
            }
            law_output_reaches_its_own_session(a, child, rest, other);
            lemma_snapshot_apart(events::applied(a, child, rest).0, child, false, other);
        }
    }
}

} // verus!

//! What becomes of a session whose turn ends: by itself, by a failure or by being stopped.

use crate::app;
use crate::app::AppView;
use crate::json;
use crate::keeping;
use crate::message;
use crate::message::{MessageRole, MessageView, PartView};
use crate::session;
use crate::session::SessionStatus;
use crate::state;
use crate::state::{ClientView, EffectView, StreamView, ToastLevel};
use crate::stream;
use crate::transcript;
use crate::turns;
use vstd::prelude::*;

verus! {

/// The messages of a failed turn: as many as before; those from before the turn untouched; the
/// answers of the turn complete, with what they were written by; its running tools reported as
/// failed with the error; and its finished tools untouched.
pub open spec fn is_failed_turn(
    before: Seq<MessageView>,
    after: Seq<MessageView>,
    turn: StreamView,
    error: Seq<char>,
) -> bool {
    &&& after.len() == before.len()
    &&& forall|i: int|
        0 <= i < before.len() && i < turn.boundary ==> #[trigger] after[i] == before[i]
    &&& forall|i: int|
        turn.boundary <= i < before.len() && before[i].role == MessageRole::Assistant ==> (
        #[trigger] after[i]).is_complete && after[i].model == turn.model && after[i].provider
            == turn.provider && after[i].content == before[i].content && after[i].reasoning
            == before[i].reasoning && after[i].was_interrupted == before[i].was_interrupted
            && tells_failures(before[i].parts, after[i].parts, error)
    &&& forall|i: int|
        0 <= i < before.len() ==> (#[trigger] after[i]).role == before[i].role && (before[i].role
            != MessageRole::Tool ==> after[i].content == before[i].content)
            && after[i].local_image_paths == before[i].local_image_paths && after[i].agent_mode
            == before[i].agent_mode
    &&& forall|i: int|
        turn.boundary <= i < before.len() && before[i].role == MessageRole::Tool ==> {
            &&& !message::is_running_tool(before[i]) ==> #[trigger] after[i] == before[i]
            &&& is_running_report(before[i].content) ==> says_failed(
                json::json_parse(before[i].content)->0,
                after[i].content,
                error,
            )
        }
}

/// What an answer shows stays, and behind it every call that was still at work is told to have
/// failed, with the error.
pub open spec fn tells_failures(
    before: Seq<PartView>,
    after: Seq<PartView>,
    error: Seq<char>,
) -> bool {
    &&& before.is_prefix_of(after)
    &&& forall|k: int|
        0 <= k < before.len() && #[trigger] message::is_running_call(before, k) && !(
        before[k].data is Other) ==> exists|j: int|
            before.len() <= j < after.len() && #[trigger] is_failure_of(
                before[k],
                after[j],
                error,
            )
}

/// The record of a call that failed.
pub open spec fn is_failure_of(call: PartView, p: PartView, error: Seq<char>) -> bool {
    &&& p.part_type == "tool_result"@
    &&& json::doc_str(p.data, "id"@) == json::doc_str(call.data, "id"@)
    &&& json::doc_str(p.data, "status"@) == Some("error"@)
    &&& json::doc_str(p.data, "output_preview"@) == Some(error)
}

proof fn lemma_tells_failures(parts: Seq<PartView>, n: int, error: Seq<char>)
    requires
        0 <= n <= parts.len(),
    ensures
        ({
            let after = message::failed_calls(parts, n, error);
            &&& parts.is_prefix_of(after)
            &&& forall|k: int|
                0 <= k < n && #[trigger] message::is_running_call(parts, k) && !(
                parts[k].data is Other) ==> exists|j: int|
                    parts.len() <= j < after.len() && #[trigger] is_failure_of(
                        parts[k],
                        after[j],
                        error,
                    )
        }),
    decreases n,
{
    let after = message::failed_calls(parts, n, error);
    if n == 0 {
        assert(after.subrange(0, parts.len() as int) =~= parts);
    } else {
        let before = message::failed_calls(parts, n - 1, error);
        lemma_tells_failures(parts, n - 1, error);
        assert(after.subrange(0, parts.len() as int) =~= before.subrange(0, parts.len() as int));
        assert forall|k: int|
            0 <= k < n && #[trigger] message::is_running_call(parts, k) && !(
            parts[k].data is Other) implies exists|j: int|
            parts.len() <= j < after.len() && #[trigger] is_failure_of(parts[k], after[j], error) by {
            if k < n - 1 {
                let j = choose|j: int|
                    parts.len() <= j < before.len() && #[trigger] is_failure_of(
                        parts[k],
                        before[j],
                        error,
                    );
                assert(after[j] == before[j]);
            } else {
                message::lemma_failure_doc(parts[k].data, error);
                assert(is_failure_of(parts[k], after[after.len() - 1], error));
            }
        }
    }
}

/// The report of a tool at work: an object, or `null`.
pub open spec fn is_running_report(content: Seq<char>) -> bool {
    json::json_parse(content) matches Some(doc) && !(doc is Other) && message::says_running(doc)
}

/// A report of a tool that failed: that of the same call, with the status and the error.
pub open spec fn says_failed(doc: json::DocView, content: Seq<char>, error: Seq<char>) -> bool {
    let report = message::failure_doc(doc, error);
    &&& content == json::json_text(report)
    &&& json::doc_str(report, "id"@) == json::doc_str(doc, "id"@)
    &&& json::doc_str(report, "status"@) == Some("error"@)
    &&& json::doc_str(report, "output_preview"@) == Some(error)
}

proof fn lemma_settled(
    before: Seq<MessageView>,
    turn: StreamView,
    error: Seq<char>,
)
    ensures
        is_failed_turn(
            before,
            transcript::settled_until(
                before,
                turn.boundary as int,
                before.len() as int,
                turn.model,
                turn.provider,
                Some(error),
            ),
            turn,
            error,
        ),
{
    let after = transcript::settled_until(
        before,
        turn.boundary as int,
        before.len() as int,
        turn.model,
        turn.provider,
        Some(error),
    );
    assert forall|i: int|
        turn.boundary <= i < before.len() && before[i].role == MessageRole::Assistant implies (
    #[trigger] after[i]).is_complete && after[i].model == turn.model && after[i].provider
        == turn.provider && after[i].content == before[i].content && after[i].reasoning
        == before[i].reasoning && after[i].was_interrupted == before[i].was_interrupted
        && tells_failures(before[i].parts, after[i].parts, error) by {
        lemma_tells_failures(before[i].parts, before[i].parts.len() as int, error);
    }
    assert forall|i: int|
        turn.boundary <= i < before.len() && before[i].role == MessageRole::Tool implies {
        &&& !message::is_running_tool(before[i]) ==> #[trigger] after[i] == before[i]
        &&& is_running_report(before[i].content) ==> says_failed(
            json::json_parse(before[i].content)->0,
            after[i].content,
            error,
        )
    } by {
        let m = before[i];
        if !message::is_running_tool(m) {
            message::lemma_no_call_fails(m.parts, m.parts.len() as int, error);
        }
        if let Some(doc) = json::json_parse(m.content) {
            if !(doc is Other) {
                message::lemma_failure_doc(doc, error);
            }
        }
    }
}

/// Saving what a turn has written leaves the transcript, the turn and the session as they are.
pub proof fn lemma_snapshot(a: AppView, id: Seq<char>, force: bool)
    requires
        app::boundary(a, id) is Some,
        stream::exists_session(a, id),
    ensures
        ({
            let b = app::snapshot(a, id, force);
            &&& app::transcript(b, id) == app::transcript(a, id)
            &&& app::boundary(b, id) matches Some(s) && s.boundary == app::boundary(
                a,
                id,
            )->0.boundary && s.model == app::boundary(a, id)->0.model && s.provider
                == app::boundary(a, id)->0.provider
            &&& stream::exists_session(b, id)
            &&& stream::queue_of(b, id) == stream::queue_of(a, id)
        }),
{
    reveal(app::snapshot);
    state::lemma_client_from(a.clients, id, 0);
    let c = app::client_of(a, id)->0;
    let p = app::persisted(a, id);
    if app::can_save(a, id) {
        keeping::lemma_persisted(a, id);
        session::lemma_session_from(a.sessions, id, 0);
        session::lemma_same_ids(a.sessions, p.sessions, id, 0);
    }
    keeping::lemma_with_client(p, id, app::with_asked(c), id);
}

/// The turn settled leaves what waits in the session, and it is still the turn of the session.
proof fn lemma_finalized(a: AppView, id: Seq<char>, error: Option<Seq<char>>)
    requires
        app::boundary(a, id) is Some,
        stream::exists_session(a, id),
    ensures
        ({
            let f = turns::finalized(a, id, error);
            &&& app::client_of(f, id) is Some
            &&& stream::queue_of(f, id) == stream::queue_of(a, id)
            &&& stream::exists_session(f, id)
        }),
{
    reveal(turns::finalized);
    let b = app::boundary(a, id)->0;
    let chat = transcript::turn_settled(
        app::transcript(a, id),
        b.boundary as int,
        b.model,
        b.provider,
        error,
    );
    state::lemma_client_from(a.clients, id, 0);
    keeping::lemma_with_transcript(a, id, chat);
    if !app::is_current(a, id) {
        keeping::lemma_with_client(a, id, ClientView { chat, ..app::client_of(a, id)->0 }, id);
    }
    let t = app::with_transcript(a, id, chat);
    keeping::lemma_persisted(t, id);
    session::lemma_session_from(t.sessions, id, 0);
    session::lemma_same_ids(t.sessions, app::persisted(t, id).sessions, id, 0);
}

/// The status of a session is no part of its messages, nor of what is under way.
proof fn lemma_status_set(
    a: AppView,
    id: Seq<char>,
    status: SessionStatus,
    error: Option<Seq<char>>,
)
    requires
        stream::exists_session(a, id),
        app::client_of(a, id) is Some,
    ensures
        ({
            let b = app::status_set(a, id, status, error);
            &&& b == (AppView { sessions: b.sessions, ..a })
            &&& session::session_at(b.sessions, id) == session::session_at(a.sessions, id)
            &&& app::saved_messages(b, id) == app::saved_messages(a, id)
            &&& app::transcript(b, id) == app::transcript(a, id)
            &&& b.sessions[session::session_at(b.sessions, id)->0].status == status
            &&& b.sessions[session::session_at(b.sessions, id)->0].error == error
        }),
{
    session::lemma_session_from(a.sessions, id, 0);
    session::lemma_same_ids(a.sessions, app::status_set(a, id, status, error).sessions, id, 0);
}

/// A session put to rest keeps its transcript.
proof fn lemma_cleaned(a: AppView, id: Seq<char>)
    requires
        app::client_of(a, id) is Some,
    ensures
        ({
            let b = turns::cleaned(a, id);
            &&& app::client_of(b, id) == Some(turns::client_at_rest(app::client_of(a, id)->0))
            &&& app::transcript(b, id) == app::transcript(a, id)
            &&& b.sessions == a.sessions
        }),
{
    reveal(turns::cleaned);
    reveal(turns::requests_dropped);
    state::lemma_client_from(a.clients, id, 0);
    keeping::lemma_with_client(a, id, turns::client_at_rest(app::client_of(a, id)->0), id);
}

/// To tell of a failure changes nothing.
proof fn lemma_told(a: AppView, error: Seq<char>, id: Seq<char>)
    ensures
        ({
            let b = turns::failure_told(a, error);
            &&& app::client_of(b, id) == app::client_of(a, id)
            &&& app::transcript(b, id) == app::transcript(a, id)
            &&& b.sessions == a.sessions
        }),
{
    reveal(turns::failure_told);
}

proof fn lemma_failed(a: AppView, id: Seq<char>, error: Seq<char>)
    requires
        app::boundary(a, id) is Some,
        stream::exists_session(a, id),
        stream::queue_of(a, id).len() == 0,
    ensures
        ({
            let r = turns::failed(a, id, error);
            let turn = app::boundary(a, id)->0;
            let before = app::transcript(a, id).messages;
            let k = session::session_at(r.sessions, id)->0;
            &&& session::session_at(r.sessions, id) is Some
            &&& r.sessions[k].status == SessionStatus::Failed
            &&& r.sessions[k].error == Some(error)
            &&& app::client_of(r, id) matches Some(c) && c.stream is None && c.external_stream
                is None
            &&& app::transcript(r, id).messages == transcript::settled_until(
                before,
                turn.boundary as int,
                before.len() as int,
                turn.model,
                turn.provider,
                Some(error),
            )
            &&& app::saved_messages(r, id) == app::transcript(r, id).messages
        }),
{
    let b = app::snapshot(a, id, true);
    lemma_snapshot(a, id, true);
    let f = turns::finalized(b, id, Some(error));
    keeping::law_settled_turns_are_saved(b, id, Some(error));
    lemma_finalized(b, id, Some(error));
    let s = app::status_set(f, id, SessionStatus::Failed, Some(error));
    lemma_status_set(f, id, SessionStatus::Failed, Some(error));
    let d = turns::failure_told(s, error);
    lemma_told(s, error, id);
    lemma_cleaned(d, id);
    let e = turns::cleaned(d, id);
    assert(stream::queue_of(e, id).len() == 0);
    assert(stream::submitted(e, id, None) == e) by {
        reveal(stream::submitted);
    }
    assert(turns::failed(a, id, error) == e) by {
        reveal(turns::failed);
    }
}

/// A turn that fails, as a whole, where nothing waits in its session: the session has failed with
/// the error, no turn is left, and the messages are those of a failed turn, in the session as on
/// the screen. Failing once more changes nothing.
pub proof fn law_failed_turns_are_closed(
    a: AppView,
    id: Seq<char>,
    error: Seq<char>,
    again: Seq<char>,
)
    requires
        app::boundary(a, id) is Some,
        stream::exists_session(a, id),
        stream::queue_of(a, id).len() == 0,
    ensures
        ({
            let r = turns::failed(a, id, error);
            &&& session::session_at(r.sessions, id) matches Some(k) && r.sessions[k].status
                == SessionStatus::Failed && r.sessions[k].error == Some(error)
            &&& !app::streams(r, id)
            &&& is_failed_turn(
                app::transcript(a, id).messages,
                app::transcript(r, id).messages,
                app::boundary(a, id)->0,
                error,
            )
            &&& app::saved_messages(r, id) == app::transcript(r, id).messages
            &&& turns::failed(r, id, again) == r
        }),
{
    lemma_failed(a, id, error);
    lemma_settled(app::transcript(a, id).messages, app::boundary(a, id)->0, error);
    let r = turns::failed(a, id, error);
    assert(turns::failed(r, id, again) == r) by {
        reveal(turns::failed);
        reveal(app::snapshot);
    }
}

/// The messages of a turn that came to its end: the answers of the turn complete, with what they
/// were written by, and everything else untouched.
pub open spec fn is_finished_turn(
    before: Seq<MessageView>,
    after: Seq<MessageView>,
    turn: StreamView,
) -> bool {
    &&& after.len() == before.len()
    &&& forall|i: int|
        0 <= i < before.len() ==> #[trigger] after[i] == (if turn.boundary <= i && before[i].role
            == MessageRole::Assistant {
            MessageView {
                is_complete: true,
                model: turn.model,
                provider: turn.provider,
                ..before[i]
            }
        } else {
            before[i]
        })
}

proof fn lemma_marked_unread(a: AppView, id: Seq<char>)
    requires
        app::client_of(a, id) is Some,
    ensures
        ({
            let own = app::client_of(a, id)->0;
            let b = app::with_client(a, id, ClientView { unread_completed: true, ..own });
            &&& app::client_of(b, id) == Some(ClientView { unread_completed: true, ..own })
            &&& app::transcript(b, id) == app::transcript(a, id)
            &&& b.sessions == a.sessions
        }),
{
    state::lemma_client_from(a.clients, id, 0);
    let own = app::client_of(a, id)->0;
    keeping::lemma_with_client(a, id, ClientView { unread_completed: true, ..own }, id);
}

pub proof fn lemma_rested(a: AppView, id: Seq<char>)
    requires
        app::boundary(a, id) is Some,
        stream::exists_session(a, id),
        stream::queue_of(a, id).len() == 0,
    ensures
        ({
            let r = turns::rested(a, id);
            let turn = app::boundary(a, id)->0;
            let before = app::transcript(a, id).messages;
            let k = session::session_at(r.sessions, id)->0;
            &&& session::session_at(r.sessions, id) is Some
            &&& r.sessions[k].status == SessionStatus::Idle
            &&& r.sessions[k].error is None
            &&& app::client_of(r, id) matches Some(c) && c.stream is None && c.external_stream
                is None && c.queued_items.len() == 0
            &&& app::transcript(r, id).messages == transcript::settled_until(
                before,
                turn.boundary as int,
                before.len() as int,
                turn.model,
                turn.provider,
                None,
            )
            &&& app::saved_messages(r, id) == app::transcript(r, id).messages
        }),
{
    let f = turns::finalized(a, id, None);
    keeping::law_settled_turns_are_saved(a, id, None);
    lemma_finalized(a, id, None);
    let s = app::status_set(f, id, SessionStatus::Idle, None);
    lemma_status_set(f, id, SessionStatus::Idle, None);
    assert(app::client_of(s, id) == app::client_of(f, id));
    lemma_marked_unread(s, id);
    let c = if app::is_current(s, id) {
        s
    } else {
        app::with_client(
            s,
            id,
            ClientView { unread_completed: true, ..app::client_of(s, id)->0 },
        )
    };
    lemma_cleaned(c, id);
    assert(turns::rested(a, id) == turns::cleaned(c, id)) by {
        reveal(turns::rested);
    }
}

proof fn lemma_nothing_to_finish(a: AppView, id: Seq<char>)
    requires
        app::client_of(a, id) matches Some(c) && c.stream is None && c.external_stream is None,
    ensures
        turns::finished(a, id) == a,
{
    assert(app::snapshot(a, id, true) == a) by {
        reveal(app::snapshot);
    }
    reveal(turns::finished);
}

/// The end of a turn is told, and nothing goes out.
proof fn lemma_finished(a: AppView, b: AppView, id: Seq<char>)
    requires
        b == app::snapshot(a, id, true),
        app::boundary(b, id) is Some,
        !turns::runs_tools(b, id),
        stream::queue_of(turns::rested(b, id), id).len() == 0,
    ensures
        ({
            let c = turns::rested(b, id);
            let r = turns::finished(a, id);
            &&& app::client_of(r, id) == app::client_of(c, id)
            &&& app::transcript(r, id) == app::transcript(c, id)
            &&& r.sessions == c.sessions
        }),
{
    let c = turns::rested(b, id);
    assert(!stream::can_submit(c, id));
    let event = turns::completion_event(c, id);
    let d = app::with_effect(c, EffectView::CompletionSound { event, session_id: id });
    assert(turns::finished(a, id) == app::rung(d, event)) by {
        reveal(turns::finished);
    }
}

/// A turn that comes to its end, as a whole, where no tool of it is at work and nothing waits in
/// its session: the session is idle, no turn is left, and the messages are those of a finished
/// turn, in the session as on the screen. To end once more changes nothing.
pub proof fn law_finished_turns_are_closed(a: AppView, id: Seq<char>)
    requires
        app::boundary(a, id) is Some,
        stream::exists_session(a, id),
        stream::queue_of(a, id).len() == 0,
        !turns::runs_tools(a, id),
    ensures
        ({
            let r = turns::finished(a, id);
            &&& session::session_at(r.sessions, id) matches Some(k) && r.sessions[k].status
                == SessionStatus::Idle && r.sessions[k].error is None
            &&& !app::streams(r, id)
            &&& is_finished_turn(
                app::transcript(a, id).messages,
                app::transcript(r, id).messages,
                app::boundary(a, id)->0,
            )
            &&& app::saved_messages(r, id) == app::transcript(r, id).messages
            &&& turns::finished(r, id) == r
        }),
{
    let b = app::snapshot(a, id, true);
    lemma_snapshot(a, id, true);
    assert(app::chat_for(a, id) is Some && app::chat_for(b, id) is Some);
    assert(!turns::runs_tools(b, id));
    lemma_rested(b, id);
    lemma_finished(a, b, id);
    lemma_nothing_to_finish(turns::finished(a, id), id);
}

proof fn lemma_answer_interrupted(a: AppView, id: Seq<char>)
    requires
        app::boundary(a, id) is Some,
        stream::exists_session(a, id),
    ensures
        ({
            let m = turns::answer_interrupted(a, id);
            &&& app::transcript(m, id) == transcript::turn_interrupted(
                app::transcript(a, id),
                app::boundary(a, id)->0.boundary as int,
            )
            &&& app::boundary(m, id) == app::boundary(a, id)
            &&& stream::exists_session(m, id)
            &&& stream::queue_of(m, id) == stream::queue_of(a, id)
        }),
{
    reveal(turns::answer_interrupted);
    let chat = transcript::turn_interrupted(
        app::transcript(a, id),
        app::boundary(a, id)->0.boundary as int,
    );
    state::lemma_client_from(a.clients, id, 0);
    keeping::lemma_with_transcript(a, id, chat);
    if !app::is_current(a, id) {
        keeping::lemma_with_client(a, id, ClientView { chat, ..app::client_of(a, id)->0 }, id);
    }
}

/// A turn that is stopped, as a whole, where nothing waits in its session: the session was
/// interrupted, no turn is left, and the messages are those of a failed turn whose last answer is
/// marked as interrupted, in the session as on the screen. To stop it once more changes nothing.
pub proof fn law_interrupted_turns_are_closed(
    a: AppView,
    id: Seq<char>,
    reason: Seq<char>,
    tell: bool,
)
    requires
        app::boundary(a, id) is Some,
        stream::exists_session(a, id),
        stream::queue_of(a, id).len() == 0,
    ensures
        ({
            let r = turns::interrupted(a, id, reason, tell);
            let turn = app::boundary(a, id)->0;
            &&& session::session_at(r.sessions, id) matches Some(k) && r.sessions[k].status
                == SessionStatus::Interrupted && r.sessions[k].error is None
            &&& !app::streams(r, id)
            &&& is_failed_turn(
                transcript::turn_interrupted(
                    app::transcript(a, id),
                    turn.boundary as int,
                ).messages,
                app::transcript(r, id).messages,
                turn,
                reason,
            )
            &&& app::saved_messages(r, id) == app::transcript(r, id).messages
            &&& turns::interrupted(r, id, reason, tell) == r
        }),
{
    let m = turns::answer_interrupted(a, id);
    lemma_answer_interrupted(a, id);
    let b = app::snapshot(m, id, true);
    lemma_snapshot(m, id, true);
    let f = turns::finalized(b, id, Some(reason));
    keeping::law_settled_turns_are_saved(b, id, Some(reason));
    lemma_finalized(b, id, Some(reason));
    let s = app::status_set(f, id, SessionStatus::Interrupted, None);
    lemma_status_set(f, id, SessionStatus::Interrupted, None);
    let d = if tell {
        app::toasted(s, ToastLevel::Info, "Streaming cancelled"@, 0)
    } else {
        s
    };
    assert(app::client_of(d, id) == app::client_of(f, id));
    assert(app::transcript(d, id) == app::transcript(f, id) && d.sessions == s.sessions);
    lemma_cleaned(d, id);
    let e = turns::cleaned(d, id);
    assert(stream::queue_of(e, id).len() == 0);
    assert(stream::submitted(e, id, None) == e) by {
        reveal(stream::submitted);
    }
    assert(turns::interrupted(a, id, reason, tell) == e) by {
        reveal(turns::interrupted);
    }
    lemma_settled(app::transcript(m, id).messages, app::boundary(a, id)->0, reason);
    assert(turns::interrupted(e, id, reason, tell) == e) by {
        reveal(turns::interrupted);
        reveal(turns::answer_interrupted);
        reveal(app::snapshot);
    }
}

} // verus!

//! What an agent asks, warns of or fails with is put before the user as it came.

use crate::app;
use crate::app::AppView;
use crate::arriving;
use crate::chunks::{ChunkMessage, StreamingRetryStatus};
use crate::events;
use crate::focus::OverlayFocus;
use crate::keeping;
use crate::message::MessageView;
use crate::queue;
use crate::session;
use crate::session::SessionStatus;
use crate::state;
use crate::state::{ChatView, ClientView, EffectView, SoundEvent, ToastLevel};
use crate::stream;
use crate::titles;
use crate::transcript;
use crate::turns;
use vstd::prelude::*;

verus! {

/// What waits for the user's answer is the same in both.
pub open spec fn asks_the_same(a: AppView, b: AppView) -> bool {
    &&& b.permissions == a.permissions
    &&& b.questions == a.questions
    &&& b.terminals == a.terminals
    &&& b.overlay_focus == a.overlay_focus
}

proof fn lemma_begun_asks(a: AppView, id: Seq<char>)
    ensures
        asks_the_same(a, stream::turn_begun(a, id)),
{
    reveal(stream::turn_begun);
    keeping::lemma_ensured(a, id, id);
}

proof fn lemma_submitted_asks(a: AppView, id: Seq<char>, guidance: Option<Seq<char>>)
    ensures
        asks_the_same(a, stream::submitted(a, id, guidance)),
{
    if stream::can_submit(a, id) {
        let d = stream::dequeued(a, id);
        assert(asks_the_same(a, d) && d.current == a.current) by {
            reveal(stream::dequeued);
        }
        let front = queue::leading(stream::queue_of(a, id));
        let prompt = queue::combined(front);
        let u = stream::user_message_added(d, prompt.text, prompt.image_paths);
        assert(asks_the_same(d, u) && u.current == d.current) by {
            reveal(stream::user_message_added);
        }
        let t = stream::turn_begun(u, id);
        lemma_begun_asks(u, id);
        let s = stream::turn_started(u, id, prompt.text, guidance);
        assert(asks_the_same(t, s)) by {
            reveal(stream::turn_started);
            reveal(stream::title_asked);
        }
        let c = stream::compaction_asked(d, id);
        assert(asks_the_same(d, c)) by {
            reveal(stream::compaction_asked);
            keeping::lemma_ensured(d, id, id);
        }
        assert(asks_the_same(a, stream::submitted(a, id, guidance))) by {
            reveal(stream::submitted);
        }
    } else {
        reveal(stream::submitted);
    }
}

proof fn lemma_switched_asks(a: AppView, id: Seq<char>)
    ensures
        asks_the_same(a, stream::switched(a, id)),
{
    let p = app::put_away(a);
    assert(asks_the_same(a, p)) by {
        reveal(app::put_away);
        if let Some(own) = a.current {
            keeping::lemma_ensured(a, own, own);
        }
    }
    let q = AppView { current: Some(id), pending_session_title: None, ..p };
    let u = app::brought_up(q, id);
    assert(asks_the_same(q, u)) by {
        reveal(app::brought_up);
        keeping::lemma_ensured(q, id, id);
    }
    let b = stream::focused_base(stream::brought_in(a, id), id);
    assert(asks_the_same(u, b)) by {
        reveal(stream::brought_in);
    }
    lemma_submitted_asks(b, id, None);
    assert(stream::switched(a, id) == b || stream::switched(a, id) == stream::submitted(b, id, None))
        by {
        reveal(stream::switched);
    }
}

proof fn lemma_waiting_asks(a: AppView, id: Seq<char>, event: SoundEvent)
    ensures
        asks_the_same(a, events::waiting(a, id, event)),
{
    let s = app::snapshot(a, id, true);
    assert(asks_the_same(a, s)) by {
        reveal(app::snapshot);
    }
    let b = app::status_set(s, id, SessionStatus::Waiting, None);
    lemma_switched_asks(b, id);
    let c = if !app::is_current(b, id) && stream::exists_session(b, id) {
        stream::switched(b, id)
    } else {
        b
    };
    let d = app::alerted(c, event);
    keeping::lemma_ensured(d, id, id);
    assert(events::waiting(a, id, event) == d || events::waiting(a, id, event) == app::ensured(
        d,
        id,
    )) by {
        reveal(events::waiting);
    }
}

/// A request that an agent makes waits behind those that wait already, under its own number, and
/// is put before the user unless another request is: nothing that waits is lost.
pub proof fn law_requests_wait_in_line(a: AppView, id: Seq<char>, request: u64, call: String)
    ensures
        ({
            let r = arriving::heard(a, id, ChunkMessage::PermissionRequest(request));
            &&& r.permissions == a.permissions.push(request)
            &&& r.questions == a.questions
            &&& r.terminals == a.terminals
            &&& !a.overlay_focus.asks_user() ==> r.overlay_focus == OverlayFocus::PermissionDialog
            &&& a.overlay_focus.asks_user() ==> r.overlay_focus == a.overlay_focus
        }),
        ({
            let r = arriving::heard(a, id, ChunkMessage::QuestionRequest(request));
            &&& r.questions == a.questions.push(request)
            &&& r.permissions == a.permissions
            &&& r.terminals == a.terminals
            &&& !a.overlay_focus.asks_user() ==> r.overlay_focus == OverlayFocus::QuestionDialog
            &&& a.overlay_focus.asks_user() ==> r.overlay_focus == a.overlay_focus
        }),
        ({
            let r = arriving::heard(a, id, ChunkMessage::TerminalSessionRequest(call));
            &&& r.terminals == a.terminals.push(call@)
            &&& r.permissions == a.permissions
            &&& r.questions == a.questions
            &&& a.overlay_focus == OverlayFocus::Nothing ==> r.overlay_focus
                == OverlayFocus::TerminalSessionDialog
        }),
{
    lemma_waiting_asks(a, id, SoundEvent::Permission);
    lemma_waiting_asks(a, id, SoundEvent::Question);
}

/// Requests have the screen to themselves: permissions, questions and terminals, and no other
/// dialog.
pub proof fn law_requests_are_told_from_dialogs(dialog: OverlayFocus)
    ensures
        dialog.asks_user() <==> dialog == OverlayFocus::PermissionDialog || dialog
            == OverlayFocus::QuestionDialog || dialog == OverlayFocus::TerminalSessionDialog,
{
}

/// A session on the screen that asks for something waits, and what it has written is safe; the
/// user hears of it.
pub proof fn law_asking_sessions_wait(a: AppView, id: Seq<char>, request: u64, i: int)
    requires
        a.current == Some(id),
        session::session_at(a.sessions, id) == Some(i),
    ensures
        ({
            let r = arriving::heard(a, id, ChunkMessage::PermissionRequest(request));
            &&& r.current == Some(id)
            &&& r.chat == a.chat
            &&& session::session_at(r.sessions, id) == Some(i)
            &&& r.sessions[i].status == SessionStatus::Waiting
            &&& r.effects.contains(EffectView::Sound { event: SoundEvent::Permission })
        }),
{
    let s = app::snapshot(a, id, true);
    session::lemma_session_from(a.sessions, id, 0);
    assert(s.current == a.current && s.chat == a.chat && session::session_at(s.sessions, id)
        == Some(i)) by {
        reveal(app::snapshot);
        if app::can_save(a, id) {
            session::lemma_same_ids(a.sessions, app::persisted(a, id).sessions, id, 0);
        }
    }
    let b = app::status_set(s, id, SessionStatus::Waiting, None);
    session::lemma_session_from(s.sessions, id, 0);
    session::lemma_same_ids(s.sessions, b.sessions, id, 0);
    let d = app::alerted(b, SoundEvent::Permission);
    let n = b.effects.len() as int;
    let w = events::waiting(a, id, SoundEvent::Permission);
    assert(w == d) by {
        reveal(events::waiting);
    }
    assert(d.effects[n] == EffectView::Sound { event: SoundEvent::Permission });
}

/// Whether the bell rings: never for what is switched off, nor while the terminal is looked at
/// where it is to ring only then; and always where it is switched on.
pub proof fn law_the_bell_rings_when_wanted(a: AppView, event: SoundEvent)
    ensures
        ({
            let r = app::alerted(a, event);
            let heard = a.effects.push(EffectView::Sound { event });
            let n = a.notifications;
            let unseen = n.condition == app::TerminalNotificationCondition::Always || !n.focused;
            let mode = match event {
                SoundEvent::Complete => n.complete,
                SoundEvent::SubagentComplete => n.subagent_complete,
                SoundEvent::Permission => n.permission,
                SoundEvent::Question => n.question,
                SoundEvent::Error => n.error,
            };
            &&& r.effects == heard || r.effects == heard.push(EffectView::Bell)
            &&& r.effects == heard.push(EffectView::Bell) <==> unseen && (mode
                == app::TerminalNotificationMode::Enabled || (mode
                == app::TerminalNotificationMode::Auto && n.bell_supported))
            &&& r == (AppView { effects: r.effects, ..a })
        }),
{
    let heard = a.effects.push(EffectView::Sound { event });
    assert(heard.len() != heard.push(EffectView::Bell).len());
}

/// A warning is shown as it came, and changes nothing else.
pub proof fn law_warnings_are_shown(a: AppView, id: Seq<char>, msg: String)
    ensures
        ({
            let r = arriving::heard(a, id, ChunkMessage::Warning(msg));
            &&& r == (AppView { effects: r.effects, ..a })
            &&& r.effects.len() == a.effects.len() + 1
            &&& r.effects.take(a.effects.len() as int) == a.effects
            &&& r.effects.last() matches EffectView::Toast { level, text: t, .. } && level
                == ToastLevel::Warning && t == msg@
        }),
{
    let r = arriving::heard(a, id, ChunkMessage::Warning(msg));
    assert(r.effects.take(a.effects.len() as int) =~= a.effects);
}

/// An attempt that is repeated is told of in its session, with its number, its reason and its
/// time; as soon as text comes again, it is not told of any more.
pub proof fn law_retries_are_told_until_text_comes(
    a: AppView,
    id: Seq<char>,
    status: StreamingRetryStatus,
    t: String,
)
    ensures
        ({
            let r = arriving::heard(a, id, ChunkMessage::Retry(status));
            &&& app::client_of(r, id) matches Some(c) && (c.retry_status matches Some(s)
                && s.attempt == status.attempt && s.message == status.message@ && s.next_epoch_ms
                == status.next_epoch_ms)
            &&& arriving::messages(r, id) == arriving::messages(a, id)
            &&& r.effects == a.effects
        }),
        ({
            let r = arriving::heard(a, id, ChunkMessage::Text(t));
            app::client_of(r, id) matches Some(c) && c.retry_status is None
        }),
{
    reveal(events::text_streamed);
    arriving::lemma_retry(a, id, Some(state::retry_view(status)));
    arriving::lemma_retry(a, id, None);
    keeping::lemma_ensured(a, id, id);
    let b = events::retry_set(a, id, None);
    let chat = transcript::text_appended(app::transcript(b, id), t@);
    let w = app::with_transcript(b, id, chat);
    state::lemma_client_from(b.clients, id, 0);
    if !app::is_current(b, id) {
        keeping::lemma_with_client(b, id, ClientView { chat, ..app::client_of(b, id)->0 }, id);
    }
    arriving::lemma_marked(w, id);
}

/// The user is told why a turn failed: the error as it came, or that the connection was lost.
pub proof fn law_failures_are_told(a: AppView, error: Seq<char>)
    ensures
        ({
            let r = turns::failure_told(a, error);
            &&& r == (AppView { effects: r.effects, ..a })
            &&& r.effects.contains(EffectView::Sound { event: SoundEvent::Error })
            &&& r.effects.last() matches EffectView::Toast { text: t, level, .. } && (
            titles::lost_connection_warning(error) is None ==> error.is_suffix_of(t) && level
                == ToastLevel::Error)
        }),
{
    reveal(turns::failure_told);
    let t = "LLM error: "@ + error;
    assert(t.subrange(t.len() - error.len(), t.len() as int) =~= error);
    let r = turns::failure_told(a, error);
    assert(r.effects[a.effects.len() as int] == EffectView::Sound { event: SoundEvent::Error });
}

/// A turn that is interrupted marks its latest answer so, keeps what was said in it, and leaves
/// every other message alone.
pub proof fn law_interruptions_mark_the_latest_answer(c: ChatView, start: int, i: int)
    requires
        arriving::is_latest_answer(c.messages, i),
    ensures
        ({
            let after = transcript::turn_interrupted(c, start).messages;
            &&& arriving::is_changed_only_at(c.messages, after, i)
            &&& i >= start ==> after[i] == (MessageView { was_interrupted: true, ..c.messages[i] })
            &&& i < start ==> after[i] == c.messages[i]
        }),
{
    arriving::lemma_latest(c.messages, i, c.messages.len() as int);
}

/// A turn at its end is told of as what it was: the end of a subagent's, or of one of the user's.
pub proof fn law_ends_are_told_for_what_they_are(a: AppView, id: Seq<char>, i: int)
    requires
        session::session_at(a.sessions, id) == Some(i),
    ensures
        a.sessions[i].parent_id is Some ==> turns::completion_event(a, id)
            == SoundEvent::SubagentComplete,
        a.sessions[i].parent_id is None ==> turns::completion_event(a, id) == SoundEvent::Complete,
{
}

/// A terminal that has ended is gone, if it was the one on the screen; those behind it go on
/// waiting, and the next of them has the screen.
pub proof fn law_ended_terminals_close(a: AppView, id: Seq<char>, call: String)
    requires
        a.terminals.len() > 0,
    ensures
        ({
            let r = arriving::heard(
                a,
                id,
                ChunkMessage::TerminalSessionEvent { tool_call_id: call, ended: true },
            );
            &&& a.terminals[0] == call@ ==> r.terminals == a.terminals.drop_first()
            &&& a.terminals[0] == call@ && a.terminals.len() > 1 ==> r.overlay_focus
                == OverlayFocus::TerminalSessionDialog
            &&& a.terminals[0] != call@ ==> r == a
            &&& r.permissions == a.permissions && r.questions == a.questions && r.chat == a.chat
        }),
        arriving::heard(
            a,
            id,
            ChunkMessage::TerminalSessionEvent { tool_call_id: call, ended: false },
        ) == a,
{
}

} // verus!

//! What holds of the sessions across calls: what is kept of them, what is saved, what is queued
//! and what is gone.

use crate::answers;
use crate::apart;
use crate::app;
use crate::app::AppView;
use crate::focus::BaseFocus;
use crate::keys;
use crate::message;
use crate::message::MessageRole;
use crate::prompting;
use crate::queue;
use crate::queue::QueuedView;
use crate::session;
use crate::session::SessionView;
use crate::state;
use crate::state::{ChatView, ClientView, EffectView, StreamView};
use crate::stream;
use crate::transcript;
use crate::turns;
use vstd::prelude::*;

verus! {

proof fn lemma_push_keeps_others(v: Seq<ClientView>, c: ClientView, id: Seq<char>, i: int)
    requires
        0 <= i,
        c.id != id,
    ensures
        state::client_from(v.push(c), id, i) == state::client_from(v, id, i),
    decreases v.len() + 1 - i,
{
    if i <= v.len() {
        lemma_push_keeps_others(v, c, id, i + 1);
        if i < v.len() {
            assert(v.push(c)[i] == v[i]);
        }
    }
}

/// After it is ensured, something is kept of a session, and nothing else has changed.
pub proof fn lemma_ensured(a: AppView, id: Seq<char>, other: Seq<char>)
    ensures
        app::client_of(app::ensured(a, id), id) is Some,
        (app::client_of(app::ensured(a, id), id)->0).id == id,
        app::client_of(a, id) is Some ==> app::ensured(a, id) == a,
        app::client_of(a, id) is None ==> app::client_of(app::ensured(a, id), id) == Some(
            state::client_of(id, state::chat_of(app::saved_messages(a, id))),
        ),
        other != id ==> app::client_of(app::ensured(a, id), other) == app::client_of(a, other),
        app::ensured(a, id) == (AppView { clients: app::ensured(a, id).clients, ..a }),
{
    state::lemma_client_from(a.clients, id, 0);
    state::lemma_client_from(a.clients, other, 0);
    if state::client_at(a.clients, id) is None {
        let c = state::client_of(id, state::chat_of(app::saved_messages(a, id)));
        state::lemma_client_push(a.clients, c, 0);
        if other != id {
            lemma_push_keeps_others(a.clients, c, other, 0);
        }
    }
}

/// What is put in the place of what is kept of a session is kept, and nothing else changes.
pub proof fn lemma_with_client(a: AppView, id: Seq<char>, c: ClientView, other: Seq<char>)
    requires
        app::client_of(a, id) is Some,
        c.id == id,
    ensures
        app::client_of(app::with_client(a, id, c), id) == Some(c),
        other != id ==> app::client_of(app::with_client(a, id, c), other) == app::client_of(
            a,
            other,
        ),
        app::with_client(a, id, c) == (AppView { clients: app::with_client(a, id, c).clients, ..a }),
{
    state::lemma_client_from(a.clients, id, 0);
    state::lemma_client_from(a.clients, other, 0);
    let k = state::client_at(a.clients, id)->0;
    let after = a.clients.update(k, c);
    state::lemma_same_client_ids(a.clients, after, id, 0);
    state::lemma_same_client_ids(a.clients, after, other, 0);
}

/// A session's transcript is the one that was put there.
pub proof fn lemma_with_transcript(a: AppView, id: Seq<char>, chat: ChatView)
    ensures
        app::transcript(app::with_transcript(a, id, chat), id) == chat,
        app::chat_for(app::with_transcript(a, id, chat), id) == Some(chat),
        app::with_transcript(a, id, chat).sessions == a.sessions,
        app::client_of(a, id) is Some ==> app::boundary(app::with_transcript(a, id, chat), id)
            == app::boundary(a, id),
{
    if !app::is_current(a, id) {
        lemma_ensured(a, id, id);
        let e = app::ensured(a, id);
        lemma_with_client(e, id, ClientView { chat, ..app::client_of(e, id)->0 }, id);
    }
}

/// Saving a transcript leaves it, and what is under way, as it is.
pub proof fn lemma_persisted(a: AppView, id: Seq<char>)
    requires
        app::can_save(a, id),
    ensures
        app::saved_messages(app::persisted(a, id), id) == app::transcript(a, id).messages,
        app::transcript(app::persisted(a, id), id) == app::transcript(a, id),
        app::boundary(app::persisted(a, id), id) == app::boundary(a, id),
        app::persisted(a, id).clients == a.clients,
{
    session::lemma_session_from(a.sessions, id, 0);
    session::lemma_same_ids(a.sessions, app::persisted(a, id).sessions, id, 0);
}

/// What a turn has left in the transcript of a session is what is saved of the session.
pub proof fn law_settled_turns_are_saved(a: AppView, id: Seq<char>, error: Option<Seq<char>>)
    requires
        app::boundary(a, id) is Some,
        stream::exists_session(a, id),
    ensures
        ({
            let b = app::boundary(a, id)->0;
            let after = turns::finalized(a, id, error);
            let settled = transcript::turn_settled(
                app::transcript(a, id),
                b.boundary as int,
                b.model,
                b.provider,
                error,
            );
            &&& app::transcript(after, id) == settled
            &&& app::saved_messages(after, id) == settled.messages
        }),
{
    reveal(turns::finalized);
    let b = app::boundary(a, id)->0;
    let settled = transcript::turn_settled(
        app::transcript(a, id),
        b.boundary as int,
        b.model,
        b.provider,
        error,
    );
    lemma_with_transcript(a, id, settled);
    lemma_persisted(app::with_transcript(a, id, settled), id);
}

/// Putting the screen away keeps it with the current session.
pub proof fn lemma_put_away(a: AppView, id: Seq<char>, other: Seq<char>)
    requires
        a.current == Some(id),
    ensures
        ({
            let b = app::put_away(a);
            let kept = app::client_of(b, id);
            &&& kept is Some
            &&& (kept->0).id == id
            &&& (kept->0).chat == a.chat
            &&& (kept->0).find_active == a.find_active
            &&& !session::is_child(a.sessions, id) ==> (kept->0).input_draft == a.input.text
            &&& other != id ==> app::client_of(b, other) == app::client_of(a, other)
            &&& b.sessions == a.sessions
        }),
{
    reveal(app::put_away);
    lemma_ensured(a, id, other);
    let e = app::ensured(a, id);
    let c = ClientView {
        chat: a.chat,
        find_active: a.find_active,
        input_draft: if session::is_child(a.sessions, id) {
            Seq::empty()
        } else {
            a.input.text
        },
        ..app::client_of(e, id)->0
    };
    lemma_with_client(e, id, c, other);
    let b = app::put_away(a);
    assert(b.clients == app::with_client(e, id, c).clients);
}

/// A session brought up shows what is kept of it, and keeps what is kept of the others.
pub proof fn lemma_brought_up(a: AppView, id: Seq<char>, other: Seq<char>)
    requires
        app::client_of(a, id) is Some,
        (app::client_of(a, id)->0).id == id,
    ensures
        ({
            let b = app::brought_up(a, id);
            let c = app::client_of(a, id)->0;
            &&& b.chat == c.chat
            &&& b.find_active == c.find_active
            &&& !session::is_child(a.sessions, id) ==> b.input == state::input_of(
                c.input_draft,
                Seq::empty(),
            )
            &&& other != id ==> app::client_of(b, other) == app::client_of(a, other)
            &&& b.sessions == a.sessions
            &&& b.current == a.current
        }),
{
    reveal(app::brought_up);
    lemma_ensured(a, id, other);
    let c = app::client_of(a, id)->0;
    let child = session::is_child(a.sessions, id);
    let emptied = ClientView {
        chat: state::chat_of(Seq::empty()),
        find_active: false,
        input_draft: if child {
            Seq::empty()
        } else {
            c.input_draft
        },
        unread_completed: false,
        ..c
    };
    lemma_with_client(a, id, emptied, other);
    assert(app::brought_up(a, id).clients == app::with_client(a, id, emptied).clients);
}

/// What can be drawn again may be dropped, and nothing else.
pub proof fn lemma_released(a: AppView, id: Seq<char>)
    ensures
        app::client_of(app::released(a), id) is Some <==> app::client_of(a, id) is Some,
        app::client_of(a, id) is Some ==> ({
            let c = app::client_of(a, id)->0;
            let d = app::client_of(app::released(a), id)->0;
            d == (ClientView {
                chat: ChatView { render_cached: d.chat.render_cached, ..c.chat },
                ..c
            })
        }),
{
    let after = app::released(a).clients;
    assert forall|k: int| 0 <= k < a.clients.len() implies #[trigger] a.clients[k].id
        == after[k].id by {
        assert(after[k] == app::released_client(a.clients[k], a.sessions, a.current));
    }
    state::lemma_same_client_ids(a.clients, after, id, 0);
    state::lemma_client_from(a.clients, id, 0);
    if let Some(k) = state::client_at(a.clients, id) {
        assert(after[k] == app::released_client(a.clients[k], a.sessions, a.current));
    }
}

/// A session that is left for another is kept as it was on the screen.
pub proof fn lemma_left(a: AppView, id: Seq<char>, other: Seq<char>)
    requires
        a.current == Some(id),
        other != id,
        !session::is_child(a.sessions, id),
    ensures
        ({
            let m = stream::brought_in(a, other);
            &&& m.current == Some(other)
            &&& m.sessions == a.sessions
            &&& app::client_of(m, id) matches Some(c) && c.id == id && c.chat == (ChatView {
                render_cached: c.chat.render_cached,
                ..a.chat
            }) && c.input_draft == a.input.text && c.find_active == a.find_active
        }),
{
    reveal(stream::brought_in);
    lemma_put_away(a, id, other);
    let p = app::put_away(a);
    let away = AppView { current: Some(other), pending_session_title: None, ..p };
    assert(app::client_of(away, id) == app::client_of(p, id));
    lemma_ensured(away, other, id);
    let e = app::ensured(away, other);
    assert(app::brought_up(away, other) == app::brought_up(e, other)) by {
        reveal(app::brought_up);
    }
    lemma_brought_up(e, other, id);
    let there = app::brought_up(away, other);
    lemma_released(there, id);
    assert(stream::brought_in(a, other) == app::released(there));
}

/// A session that is come back to shows what was kept of it.
proof fn lemma_returned(m: AppView, id: Seq<char>, other: Seq<char>)
    requires
        m.current == Some(other),
        other != id,
        !session::is_child(m.sessions, id),
        app::client_of(m, id) matches Some(c) && c.id == id,
    ensures
        ({
            let c = app::client_of(m, id)->0;
            let b = stream::brought_in(m, id);
            &&& b.current == Some(id)
            &&& b.chat == c.chat
            &&& b.input.text == c.input_draft
            &&& b.find_active == c.find_active
            &&& b.sessions == m.sessions
        }),
{
    reveal(stream::brought_in);
    lemma_put_away(m, other, id);
    let q = app::put_away(m);
    let back = AppView { current: Some(id), pending_session_title: None, ..q };
    assert(app::client_of(back, id) == app::client_of(q, id));
    lemma_brought_up(back, id, id);
    assert(stream::brought_in(m, id) == app::released(app::brought_up(back, id)));
}

proof fn lemma_ensured_work(a: AppView, id: Seq<char>, x: Seq<char>)
    ensures
        stream::queue_of(app::ensured(a, id), x) == stream::queue_of(a, x),
        app::streams(app::ensured(a, id), x) == app::streams(a, x),
{
    lemma_ensured(a, id, x);
}

/// What waits in a session, and whether a turn is under way there, does not change by another
/// coming to the screen.
pub proof fn lemma_brought_in_work(a: AppView, id: Seq<char>, x: Seq<char>)
    ensures
        stream::queue_of(stream::brought_in(a, id), x) == stream::queue_of(a, x),
        app::streams(stream::brought_in(a, id), x) == app::streams(a, x),
{
    let p = app::put_away(a);
    assert(stream::queue_of(p, x) == stream::queue_of(a, x) && app::streams(p, x) == app::streams(
        a,
        x,
    )) by {
        reveal(app::put_away);
        if let Some(own) = a.current {
            let e = app::ensured(a, own);
            lemma_ensured_work(a, own, x);
            lemma_ensured(a, own, own);
            state::lemma_client_from(e.clients, own, 0);
            let c = app::client_of(e, own)->0;
            let kept = ClientView {
                chat: a.chat,
                find_active: a.find_active,
                input_draft: if session::is_child(a.sessions, own) {
                    Seq::empty()
                } else {
                    a.input.text
                },
                ..c
            };
            lemma_with_client(e, own, kept, x);
            assert(p.clients == app::with_client(e, own, kept).clients);
        }
    }
    let q = AppView { current: Some(id), pending_session_title: None, ..p };
    assert(app::client_of(q, x) == app::client_of(p, x));
    let b = app::brought_up(q, id);
    assert(stream::queue_of(b, x) == stream::queue_of(q, x) && app::streams(b, x) == app::streams(
        q,
        x,
    )) by {
        reveal(app::brought_up);
        let e = app::ensured(q, id);
        lemma_ensured_work(q, id, x);
        lemma_ensured(q, id, id);
        state::lemma_client_from(e.clients, id, 0);
        let c = app::client_of(e, id)->0;
        let shown = ClientView {
            chat: state::chat_of(Seq::empty()),
            find_active: false,
            input_draft: if session::is_child(q.sessions, id) {
                Seq::empty()
            } else {
                c.input_draft
            },
            unread_completed: false,
            ..c
        };
        lemma_with_client(e, id, shown, x);
        assert(b.clients == app::with_client(e, id, shown).clients);
    }
    lemma_released(b, x);
    assert(stream::brought_in(a, id) == app::released(b)) by {
        reveal(stream::brought_in);
    }
}

/// Something waits in a session and goes out as soon as the session is shown.
pub open spec fn goes_out_when_shown(a: AppView, id: Seq<char>) -> bool {
    stream::queue_of(a, id).len() > 0 && !app::streams(a, id)
}

/// A session that is left for another and come back to shows the same messages, the same draft and
/// the same search as before, unless something waits in it to go out.
pub proof fn law_sessions_come_back_as_left(a: AppView, id: Seq<char>, other: Seq<char>)
    requires
        a.current == Some(id),
        other != id,
        !session::is_child(a.sessions, id),
        !goes_out_when_shown(a, id),
    ensures
        ({
            let b = stream::switched(stream::switched(a, other), id);
            &&& b.current == Some(id)
            &&& b.chat == (ChatView { render_cached: b.chat.render_cached, ..a.chat })
            &&& b.input.text == a.input.text
            &&& b.find_active == a.find_active
            &&& app::saved_messages(b, id) == app::saved_messages(a, id)
            &&& !goes_out_when_shown(a, other) ==> b.sessions == a.sessions
        }),
{
    let m = stream::brought_in(a, other);
    lemma_left(a, id, other);
    lemma_brought_in_work(a, other, other);
    lemma_brought_in_work(a, other, id);
    let f = stream::focused_base(m, other);
    assert(app::client_of(f, id) == app::client_of(m, id));
    assert(app::client_of(f, other) == app::client_of(m, other));
    apart::lemma_submitted_apart(f, other, None, id);
    let n = stream::switched(a, other);
    assert(n == f || n == stream::submitted(f, other, None)) by {
        reveal(stream::switched);
    }
    assert(!goes_out_when_shown(a, other) ==> n == f) by {
        reveal(stream::switched);
    }
    session::lemma_session_from(f.sessions, id, 0);
    session::lemma_session_from(n.sessions, id, 0);
    assert(apart::is_untouched(f, n, id));
    assert(app::client_of(n, id) == app::client_of(m, id));
    assert(session::is_child(n.sessions, id) == session::is_child(a.sessions, id));
    assert(app::saved_messages(n, id) == app::saved_messages(a, id));
    lemma_returned(n, id, other);
    lemma_brought_in_work(n, id, id);
    let b = stream::brought_in(n, id);
    let c = stream::focused_base(b, id);
    assert(app::client_of(c, id) == app::client_of(b, id));
    assert(!goes_out_when_shown(n, id));
    assert(stream::switched(n, id) == c) by {
        reveal(stream::switched);
    }
}

/// Of two places in a queue, not both hold a `/compact`.
pub open spec fn has_one_compact(items: Seq<QueuedView>) -> bool {
    forall|i: int, j: int|
        0 <= i < j < items.len() ==> !(#[trigger] items[i] is Compact && #[trigger] items[j] is Compact)
}

/// However often `/compact` is asked for, it waits once; and what goes out leaves no more of them
/// behind than there were.
pub proof fn law_one_compact_waits(a: AppView, id: Seq<char>, item: QueuedView)
    requires
        a.current == Some(id),
        has_one_compact(stream::queue_of(a, id)),
    ensures
        has_one_compact(stream::queue_of(stream::queued(a, item), id)),
        has_one_compact(stream::left_queued(stream::queue_of(a, id))),
{
    lemma_ensured(a, id, id);
    let e = app::ensured(a, id);
    let c = app::client_of(e, id)->0;
    lemma_with_client(e, id, ClientView { queued_items: c.queued_items.push(item), ..c }, id);
    let items = stream::queue_of(a, id);
    assert(c.queued_items =~= items);
    if !(item is Compact && stream::has_compact(items)) {
        let more = items.push(item);
        assert forall|i: int, j: int| 0 <= i < j < more.len() implies !(
        #[trigger] more[i] is Compact && #[trigger] more[j] is Compact) by {
            assert(more[i] == items[i]);
        }
    }
    queue::lemma_leading_count(items);
    let n = queue::leading_count(items) as int;
    let rest = queue::behind_compact(items);
    assert forall|i: int| 0 <= i < rest.len() implies #[trigger] rest[i] == items[n + 1 + i] by {}
    let left = stream::left_queued(items);
    assert forall|i: int, j: int| 0 <= i < j < left.len() implies !(
    #[trigger] left[i] is Compact && #[trigger] left[j] is Compact) by {
        if queue::leading(items).len() > 0 && n < items.len() {
            assert(left[j] == items[n + j]);
            assert(items[n] is Compact);
        }
    }
}

/// Messages that wait go out as one prompt: the user is on record with it, an answer is begun, the
/// agent is asked with the guidance given, and what waits behind a `/compact` goes on waiting.
pub proof fn law_waiting_messages_go_out(a: AppView, id: Seq<char>, guidance: Option<Seq<char>>)
    requires
        stream::can_submit(a, id),
        queue::leading(stream::queue_of(a, id)).len() > 0,
    ensures
        ({
            let r = stream::submitted(a, id, guidance);
            let prompt = queue::combined(queue::leading(stream::queue_of(a, id)));
            &&& r.chat.messages == a.chat.messages.push(
                stream::user_message(a, prompt.text, prompt.image_paths),
            ).push(message::new_message(MessageRole::Assistant, ""@, false))
            &&& r.effects.len() > a.effects.len()
            &&& r.effects.last() matches EffectView::StartStream {
                session_id,
                guidance: told,
                ..
            } && session_id == id && told == guidance
            &&& stream::queue_of(r, id) == stream::left_queued(stream::queue_of(a, id))
            &&& app::streams(r, id)
        }),
{
    reveal(stream::submitted);
    reveal(stream::dequeued);
    reveal(stream::user_message_added);
    reveal(stream::turn_started);
    reveal(stream::title_asked);
    reveal(stream::turn_begun);
    let c = app::client_of(a, id)->0;
    state::lemma_client_from(a.clients, id, 0);
    let fewer = ClientView { queued_items: stream::left_queued(c.queued_items), ..c };
    lemma_with_client(a, id, fewer, id);
    let prompt = queue::combined(queue::leading(stream::queue_of(a, id)));
    let d = stream::dequeued(a, id);
    let u = stream::user_message_added(d, prompt.text, prompt.image_paths);
    assert(d.clients == app::with_client(a, id, fewer).clients);
    assert(app::client_of(u, id) == Some(fewer));
    lemma_ensured(u, id, id);
    let begun = ClientView {
        stream: Some(
            state::new_stream(
                Some(u.model),
                Some(u.provider_name),
                u.chat.messages.len() as usize,
                u.now,
            ),
        ),
        tool_calls: state::no_tool_calls(),
        unread_completed: false,
        retry_status: None,
        ..fewer
    };
    lemma_with_client(u, id, begun, id);
    let t = stream::turn_begun(u, id);
    assert(t.clients == app::with_client(u, id, begun).clients);
    let r = stream::submitted(a, id, guidance);
    assert(r.clients == t.clients);
    assert(app::client_of(r, id) == Some(begun));
}

pub proof fn lemma_session_push(s: Seq<SessionView>, x: SessionView, id: Seq<char>, i: int)
    requires
        0 <= i <= s.len(),
    ensures
        session::session_from(s.push(x), id, i) == match session::session_from(s, id, i) {
            Some(k) => Some(k),
            None => if x.id == id {
                Some(s.len() as int)
            } else {
                None
            },
        },
    decreases s.len() - i,
{
    if i < s.len() {
        assert(s.push(x)[i] == s[i]);
        lemma_session_push(s, x, id, i + 1);
    } else {
        assert(s.push(x)[i] == x);
        assert(session::session_from(s.push(x), id, i + 1) is None);
    }
}

/// A new session is the one on the screen; nothing has been said in it, and nothing is lost of
/// the others.
pub proof fn law_new_sessions_are_empty(a: AppView, title: Seq<char>)
    requires
        !stream::exists_session(a, a.next_session_id),
    ensures
        ({
            let r = prompting::session_created(a, title);
            let id = a.next_session_id;
            &&& r.current == Some(id)
            &&& r.chat.messages.len() == 0
            &&& r.input == state::empty_input()
            &&& r.base_focus == BaseFocus::Home
            &&& r.sessions == a.sessions.push(
                session::new_session(id, None, title, a.workspace, a.now),
            )
            &&& session::session_at(r.sessions, id) == Some(a.sessions.len() as int)
            &&& app::saved_messages(r, id).len() == 0
            &&& a.current matches Some(old_id) ==> old_id != id ==> (app::client_of(
                r,
                old_id,
            ) matches Some(c) && c.chat == a.chat)
        }),
{
    reveal(prompting::session_created);
    reveal(prompting::home_shown);
    let id = a.next_session_id;
    let p = app::put_away(a);
    assert(p.sessions == a.sessions && p.workspace == a.workspace && p.now == a.now
        && p.next_session_id == id) by {
        reveal(app::put_away);
        if let Some(old_id) = a.current {
            lemma_ensured(a, old_id, old_id);
        }
    }
    let b = prompting::session_added(p, title);
    lemma_session_push(
        a.sessions,
        session::new_session(id, None, title, a.workspace, a.now),
        id,
        0,
    );
    let empty = state::client_of(id, state::chat_of(Seq::empty()));
    lemma_ensured(b, id, id);
    lemma_with_client(app::ensured(b, id), id, empty, id);
    let r = prompting::session_created(a, title);
    if let Some(old_id) = a.current {
        lemma_put_away(a, old_id, id);
        if old_id != id {
            lemma_ensured(b, id, old_id);
            lemma_with_client(app::ensured(b, id), id, empty, old_id);
            assert(app::client_of(b, old_id) == app::client_of(p, old_id));
            assert(r.clients == app::with_client(app::ensured(b, id), id, empty).clients);
        }
    }
}

proof fn lemma_without_session(s: Seq<SessionView>, id: Seq<char>, other: Seq<char>)
    ensures
        session::session_at(answers::sessions_without(s, id), id) is None,
        other != id ==> match session::session_at(s, other) {
            Some(i) => match session::session_at(answers::sessions_without(s, id), other) {
                Some(j) => answers::sessions_without(s, id)[j] == s[i],
                None => false,
            },
            None => session::session_at(answers::sessions_without(s, id), other) is None,
        },
    decreases s.len(),
{
    reveal(Seq::filter);
    if s.len() > 0 {
        let before = s.drop_last();
        let x = s.last();
        lemma_without_session(before, id, other);
        let rest = answers::sessions_without(before, id);
        assert(s =~= before.push(x));
        session::lemma_session_from(before, other, 0);
        session::lemma_session_from(rest, other, 0);
        lemma_session_push(before, x, other, 0);
        if x.id != id {
            assert(answers::sessions_without(s, id) =~= rest.push(x));
            lemma_session_push(rest, x, id, 0);
            lemma_session_push(rest, x, other, 0);
        } else {
            assert(answers::sessions_without(s, id) =~= rest);
        }
    }
}

proof fn lemma_without_client(v: Seq<ClientView>, id: Seq<char>)
    ensures
        state::client_at(answers::clients_without(v, id), id) is None,
{
    let kept = answers::clients_without(v, id);
    state::lemma_client_from(kept, id, 0);
    if let Some(k) = state::client_at(kept, id) {
        v.lemma_filter_pred(|x: ClientView| x.id != id, k);
    }
}

/// A deleted session is gone: it is not listed, not kept and not on the screen; the others, but
/// for a second one deleted with it, are as they were.
pub proof fn law_deleted_sessions_are_gone(
    a: AppView,
    id: Seq<char>,
    pending: Option<Seq<char>>,
    other: Seq<char>,
)
    ensures
        ({
            let r = answers::deleted(a, id, pending);
            &&& !stream::exists_session(r, id)
            &&& app::client_of(r, id) is None
            &&& r.current != Some(id)
            &&& other != id && pending != Some(other) ==> app::saved_messages(r, other)
                == app::saved_messages(a, other) && stream::exists_session(r, other)
                == stream::exists_session(a, other)
        }),
{
    reveal(answers::deleted);
    reveal(prompting::home_shown);
    lemma_without_session(a.sessions, id, other);
    lemma_without_client(a.clients, id);
    let one = answers::forgotten(a, id);
    if let Some(more) = pending {
        lemma_without_session(one.sessions, more, other);
        lemma_without_session(one.sessions, more, id);
        lemma_without_client(one.clients, more);
        let left = answers::clients_without(one.clients, more);
        state::lemma_client_from(left, id, 0);
        if let Some(k) = state::client_at(left, id) {
            one.clients.lemma_filter_contains_rev(|x: ClientView| x.id != more, left[k]);
            a.clients.lemma_filter_pred(|x: ClientView| x.id != id, one.clients.index_of(left[k]));
        }
    }
}

/// The flag that says something is at work says so exactly when a turn of the session on the
/// screen, or a compaction, is under way; and a session whose turn is over has none under way.
pub proof fn law_the_flag_follows_the_work(a: AppView, id: Seq<char>)
    ensures
        turns::cleaned(a, id).is_streaming == app::at_work(turns::cleaned(a, id)),
        !app::streams(turns::cleaned(a, id), id),
        app::brought_up(a, id).is_streaming == app::at_work(app::brought_up(a, id)),
        prompting::home_shown(a).is_streaming == app::at_work(prompting::home_shown(a)),
{
    reveal(turns::cleaned);
    reveal(app::brought_up);
    reveal(prompting::home_shown);
    lemma_cleaned(a, id, id);
}

/// A session whose turn is over has none under way, and no other session is touched.
proof fn lemma_cleaned(a: AppView, id: Seq<char>, other: Seq<char>)
    ensures
        !app::streams(turns::cleaned(a, id), id),
        other != id ==> app::client_of(turns::cleaned(a, id), other) == app::client_of(a, other),
        stream::queue_of(turns::cleaned(a, id), id) == stream::queue_of(a, id),
        turns::cleaned(a, id).current == a.current,
        turns::cleaned(a, id).sessions == a.sessions,
{
    reveal(turns::cleaned);
    reveal(turns::requests_dropped);
    state::lemma_client_from(a.clients, id, 0);
    let b = turns::client_rested(a, id);
    if let Some(c) = app::client_of(a, id) {
        lemma_with_client(a, id, turns::client_at_rest(c), other);
    }
    assert(turns::cleaned(a, id).clients == b.clients);
}

/// What goes out in a session starts a turn in no other.
proof fn lemma_submitted_touches_one(
    a: AppView,
    id: Seq<char>,
    guidance: Option<Seq<char>>,
    other: Seq<char>,
)
    requires
        other != id,
    ensures
        app::streams(stream::submitted(a, id, guidance), other) == app::streams(a, other),
{
    reveal(stream::submitted);
    if stream::can_submit(a, id) {
        reveal(stream::dequeued);
        let c = app::client_of(a, id)->0;
        state::lemma_client_from(a.clients, id, 0);
        let fewer = ClientView { queued_items: stream::left_queued(c.queued_items), ..c };
        lemma_with_client(a, id, fewer, other);
        let d = stream::dequeued(a, id);
        assert(d.clients == app::with_client(a, id, fewer).clients);
        assert(app::streams(d, other) == app::streams(a, other));
        let front = queue::leading(stream::queue_of(a, id));
        if front.len() > 0 {
            reveal(stream::user_message_added);
            reveal(stream::turn_started);
            reveal(stream::title_asked);
            reveal(stream::turn_begun);
            let prompt = queue::combined(front);
            let u = stream::user_message_added(d, prompt.text, prompt.image_paths);
            lemma_ensured(u, id, other);
            let e = app::ensured(u, id);
            let begun = ClientView {
                stream: Some(
                    state::new_stream(
                        Some(u.model),
                        Some(u.provider_name),
                        u.chat.messages.len() as usize,
                        u.now,
                    ),
                ),
                tool_calls: state::no_tool_calls(),
                unread_completed: false,
                retry_status: None,
                ..app::client_of(e, id)->0
            };
            lemma_with_client(e, id, begun, other);
            assert(stream::turn_begun(u, id).clients == app::with_client(e, id, begun).clients);
            assert(stream::submitted(a, id, guidance).clients == stream::turn_begun(u, id).clients);
        } else {
            reveal(stream::compaction_asked);
            lemma_ensured(d, id, other);
            let e = app::ensured(d, id);
            let own = app::client_of(e, id)->0;
            lemma_with_client(
                e,
                id,
                ClientView { queued_items: own.queued_items.push(QueuedView::Compact), ..own },
                other,
            );
        }
    }
}

/// Putting another transcript in place touches nothing else that is kept.
proof fn lemma_transcript_touches_one(a: AppView, id: Seq<char>, chat: ChatView, other: Seq<char>)
    requires
        app::client_of(a, id) is Some,
    ensures
        app::streams(app::with_transcript(a, id, chat), other) == app::streams(a, other),
        stream::queue_of(app::with_transcript(a, id, chat), other) == stream::queue_of(a, other),
        app::with_transcript(a, id, chat).current == a.current,
        app::client_of(app::with_transcript(a, id, chat), id) is Some,
{
    state::lemma_client_from(a.clients, id, 0);
    if !app::is_current(a, id) {
        lemma_ensured(a, id, other);
        let c = app::client_of(a, id)->0;
        lemma_with_client(a, id, ClientView { chat, ..c }, other);
    }
}

/// What is under way, what waits and what is on the screen do not change by saving.
proof fn lemma_snapshot_touches_nothing(a: AppView, id: Seq<char>, force: bool, other: Seq<char>)
    ensures
        app::streams(app::snapshot(a, id, force), other) == app::streams(a, other),
        stream::queue_of(app::snapshot(a, id, force), other) == stream::queue_of(a, other),
        app::snapshot(a, id, force).current == a.current,
        app::client_of(app::snapshot(a, id, force), id) is Some <==> app::client_of(a, id) is Some,
{
    reveal(app::snapshot);
    state::lemma_client_from(a.clients, id, 0);
    if let Some(c) = app::client_of(a, id) {
        let p = app::persisted(a, id);
        assert(p.clients == a.clients);
        lemma_with_client(p, id, app::with_asked(c), other);
    }
}

/// A snapshot that the store has taken is not pending, and the interval to the next runs from then
/// on; one that it has refused is pending still, and the interval runs as if it had not been tried.
pub proof fn law_refused_snapshot_stays_pending(a: AppView, id: Seq<char>, force: bool)
    requires
        app::client_of(a, id) matches Some(c) && c.stream matches Some(s) && !s.asked_snapshot
            && app::is_due(c.stream, a.now, force),
        app::can_save(a, id),
    ensures
        ({
            let s = app::client_of(a, id)->0.stream->0;
            let stored = app::snapshot_answered(app::snapshot(a, id, force), id, true);
            let refused = app::snapshot_answered(app::snapshot(a, id, force), id, false);
            &&& app::client_of(stored, id)->0.stream == Some(
                StreamView { pending_snapshot: false, last_snapshot: a.now, ..s },
            )
            &&& app::client_of(refused, id)->0.stream == Some(s)
        }),
{
    reveal(app::snapshot);
    state::lemma_client_from(a.clients, id, 0);
    let c = app::client_of(a, id)->0;
    let p = app::persisted(a, id);
    lemma_with_client(p, id, app::with_asked(c), id);
    let r = app::snapshot(a, id, force);
    assert(app::client_of(r, id) == Some(app::with_asked(c)));
    state::lemma_client_from(r.clients, id, 0);
    let d = app::with_asked(c);
    lemma_with_client(
        r,
        id,
        ClientView {
            stream: app::as_answered(d.stream, r.now, true),
            external_stream: app::as_answered(d.external_stream, r.now, true),
            ..d
        },
        id,
    );
    lemma_with_client(
        r,
        id,
        ClientView {
            stream: app::as_answered(d.stream, r.now, false),
            external_stream: app::as_answered(d.external_stream, r.now, false),
            ..d
        },
        id,
    );
}

/// A turn that is stopped is over, and nothing else is started or stopped by it, unless what
/// waits in its session goes out.
proof fn lemma_interrupted(a: AppView, id: Seq<char>, reason: Seq<char>, tell: bool, other: Seq<char>)
    requires
        app::streams(a, id),
    ensures
        other != id ==> app::streams(turns::interrupted(a, id, reason, tell), other)
            == app::streams(a, other),
        !(app::is_current(a, id) && stream::queue_of(a, id).len() > 0) ==> {
            &&& !app::streams(turns::interrupted(a, id, reason, tell), id)
            &&& stream::queue_of(turns::interrupted(a, id, reason, tell), other)
                == stream::queue_of(a, other)
            &&& turns::interrupted(a, id, reason, tell).current == a.current
        },
{
    reveal(turns::interrupted);
    reveal(turns::answer_interrupted);
    reveal(turns::finalized);
    let started = app::boundary(a, id)->0;
    let marked = transcript::turn_interrupted(
        app::transcript(a, id),
        started.boundary as int,
    );
    lemma_transcript_touches_one(a, id, marked, other);
    lemma_transcript_touches_one(a, id, marked, id);
    let m = turns::answer_interrupted(a, id);
    lemma_snapshot_touches_nothing(m, id, true, other);
    lemma_snapshot_touches_nothing(m, id, true, id);
    let b = app::snapshot(m, id, true);
    assert(app::streams(b, id));
    assert(app::boundary(b, id) is Some);
    let s = app::boundary(b, id)->0;
    let settled = transcript::turn_settled(
        app::transcript(b, id),
        s.boundary as int,
        s.model,
        s.provider,
        Some(reason),
    );
    lemma_transcript_touches_one(b, id, settled, other);
    lemma_transcript_touches_one(b, id, settled, id);
    let c = app::status_set(
        turns::finalized(b, id, Some(reason)),
        id,
        session::SessionStatus::Interrupted,
        None,
    );
    assert(c.clients == app::with_transcript(b, id, settled).clients);
    let d = if tell {
        app::toasted(c, state::ToastLevel::Info, "Streaming cancelled"@, 0)
    } else {
        c
    };
    assert(d.clients == c.clients && d.current == c.current);
    lemma_cleaned(d, id, other);
    lemma_cleaned(d, id, id);
    let e = turns::cleaned(d, id);
    if other != id {
        lemma_submitted_touches_one(e, id, None, other);
    }
    if !(app::is_current(a, id) && stream::queue_of(a, id).len() > 0) {
        assert(!stream::can_submit(e, id));
        assert(stream::submitted(e, id, None) == e) by {
            reveal(stream::submitted);
        }
    }
}

/// Session `j` of a family descends from `parent`: it is a child, or the child of a child, and so
/// on through at most `depth` generations between.
pub open spec fn descends(kin: Seq<turns::KinView>, parent: Seq<char>, depth: nat, j: int) -> bool
    decreases depth,
{
    0 <= j < kin.len() && (kin[j].parent_id == Some(parent) || depth > 0 && exists|i: int|
        0 <= i < kin.len() && (#[trigger] kin[i]).parent_id == Some(parent) && descends(
            kin,
            kin[i].id,
            (depth - 1) as nat,
            j,
        ))
}

/// Session `j` is one of those that are stopped from place `i` on.
spec fn is_stopped(
    kin: Seq<turns::KinView>,
    parent: Seq<char>,
    depth: nat,
    i: int,
    j: int,
) -> bool {
    0 <= j < kin.len() && exists|k: int|
        i <= k < kin.len() && (#[trigger] kin[k]).parent_id == Some(parent) && (k == j || depth > 0
            && descends(kin, kin[k].id, (depth - 1) as nat, j))
}

/// No child that is on the screen has anything waiting.
pub open spec fn no_child_waits(a: AppView, kin: Seq<turns::KinView>) -> bool {
    forall|k: int|
        0 <= k < kin.len() && (#[trigger] kin[k]).parent_id is Some ==> !(app::is_current(
            a,
            kin[k].id,
        ) && stream::queue_of(a, kin[k].id).len() > 0)
}

proof fn lemma_child_stopped(a: AppView, id: Seq<char>, reason: Seq<char>, other: Seq<char>)
    requires
        !(app::is_current(a, id) && stream::queue_of(a, id).len() > 0),
    ensures
        !app::streams(turns::child_stopped(a, id, reason), id),
        app::streams(turns::child_stopped(a, id, reason), other) ==> app::streams(a, other),
        stream::queue_of(turns::child_stopped(a, id, reason), other) == stream::queue_of(a, other),
        turns::child_stopped(a, id, reason).current == a.current,
{
    if app::streams(a, id) {
        lemma_interrupted(a, id, reason, false, other);
        lemma_interrupted(a, id, reason, false, id);
    }
}

#[verifier::spinoff_prover]
proof fn lemma_children_stopped(
    a: AppView,
    kin: Seq<turns::KinView>,
    parent: Seq<char>,
    depth: nat,
    i: int,
    reason: Seq<char>,
)
    requires
        0 <= i,
        no_child_waits(a, kin),
    ensures
        ({
            let r = turns::children_stopped(a, kin, parent, depth, i, reason);
            &&& r.current == a.current
            &&& forall|x: Seq<char>| #[trigger] stream::queue_of(r, x) == stream::queue_of(a, x)
            &&& forall|x: Seq<char>| #[trigger] app::streams(r, x) ==> app::streams(a, x)
            &&& forall|j: int| #[trigger] is_stopped(kin, parent, depth, i, j) ==> !app::streams(
                r,
                kin[j].id,
            )
        }),
    decreases depth, kin.len() - i,
{
    let r = turns::children_stopped(a, kin, parent, depth, i, reason);
    if i >= kin.len() {
        assert(r == a);
    } else {
        let is_child = kin[i].parent_id == Some(parent);
        let below = if depth > 0 {
            turns::children_stopped(a, kin, kin[i].id, (depth - 1) as nat, 0, reason)
        } else {
            a
        };
        let b = if is_child {
            turns::child_stopped(below, kin[i].id, reason)
        } else {
            a
        };
        if is_child {
            if depth > 0 {
                lemma_children_stopped(a, kin, kin[i].id, (depth - 1) as nat, 0, reason);
            }
            assert(stream::queue_of(below, kin[i].id) == stream::queue_of(a, kin[i].id));
            assert forall|x: Seq<char>| #[trigger] stream::queue_of(b, x) == stream::queue_of(a, x)
                && b.current == a.current by {
                lemma_child_stopped(below, kin[i].id, reason, x);
                assert(stream::queue_of(below, x) == stream::queue_of(a, x));
            }
            assert forall|x: Seq<char>| #[trigger] app::streams(b, x) implies app::streams(a, x) by {
                lemma_child_stopped(below, kin[i].id, reason, x);
                assert(app::streams(below, x));
            }
            lemma_child_stopped(below, kin[i].id, reason, kin[i].id);
            if depth > 0 {
                assert forall|j: int|
                    descends(kin, kin[i].id, (depth - 1) as nat, j) implies !app::streams(
                    b,
                    (#[trigger] kin[j]).id,
                ) by {
                    lemma_child_stopped(below, kin[i].id, reason, kin[j].id);
                    lemma_descends_is_stopped(kin, kin[i].id, (depth - 1) as nat, j);
                    assert(is_stopped(kin, kin[i].id, (depth - 1) as nat, 0, j));
                }
            }
        }
        assert(no_child_waits(b, kin)) by {
            assert forall|k: int| 0 <= k < kin.len() && (#[trigger] kin[k]).parent_id is Some
                implies !(app::is_current(b, kin[k].id) && stream::queue_of(b, kin[k].id).len() > 0)
                by {
                assert(stream::queue_of(b, kin[k].id) == stream::queue_of(a, kin[k].id));
            }
        }
        lemma_children_stopped(b, kin, parent, depth, i + 1, reason);
        assert(r == turns::children_stopped(b, kin, parent, depth, i + 1, reason));
        assert forall|x: Seq<char>| #[trigger] stream::queue_of(r, x) == stream::queue_of(a, x) by {
            assert(stream::queue_of(b, x) == stream::queue_of(a, x));
        }
        assert forall|x: Seq<char>| #[trigger] app::streams(r, x) implies app::streams(a, x) by {
            assert(app::streams(b, x));
        }
        assert forall|j: int| #[trigger] is_stopped(kin, parent, depth, i, j) implies !app::streams(
            r,
            kin[j].id,
        ) by {
            let k = choose|k: int|
                i <= k < kin.len() && (#[trigger] kin[k]).parent_id == Some(parent) && (k == j
                    || depth > 0 && descends(kin, kin[k].id, (depth - 1) as nat, j));
            if k == i {
                assert(!app::streams(b, kin[j].id));
                if app::streams(r, kin[j].id) {
                    assert(app::streams(b, kin[j].id));
                }
            } else {
                assert(is_stopped(kin, parent, depth, i + 1, j));
            }
        }
    }
}

proof fn lemma_descends_is_stopped(kin: Seq<turns::KinView>, parent: Seq<char>, depth: nat, j: int)
    requires
        descends(kin, parent, depth, j),
    ensures
        is_stopped(kin, parent, depth, 0, j),
{
    if kin[j].parent_id == Some(parent) {
        assert(0 <= j);
    } else {
        let i = choose|i: int|
            0 <= i < kin.len() && (#[trigger] kin[i]).parent_id == Some(parent) && descends(
                kin,
                kin[i].id,
                (depth - 1) as nat,
                j,
            );
        assert(kin[i].parent_id == Some(parent));
    }
}

/// When the user cancels a turn, no session below it has a turn under way any more.
pub proof fn law_cancelling_stops_everything_below(a: AppView, id: Seq<char>, j: int)
    requires
        no_child_waits(a, turns::family(a.sessions)),
        descends(turns::family(a.sessions), id, a.sessions.len(), j),
        a.sessions[j].id != id,
    ensures
        !app::streams(turns::cancelled(a, id), a.sessions[j].id),
{
    reveal(turns::cancelled);
    let kin = turns::family(a.sessions);
    let reason = "Stopped because parent agent was interrupted"@;
    let depth = a.sessions.len();
    lemma_children_stopped(a, kin, id, depth, 0, reason);
    lemma_descends_is_stopped(kin, id, depth, j);
    let b = turns::subagents_stopped(a, id);
    assert(is_stopped(kin, id, depth, 0, j));
    assert(!app::streams(b, kin[j].id));
    assert(kin[j].id == a.sessions[j].id);
    if app::streams(b, id) {
        lemma_interrupted(b, id, "Streaming cancelled by user"@, true, a.sessions[j].id);
    } else {
        reveal(turns::interrupted);
        reveal(turns::answer_interrupted);
        reveal(app::snapshot);
    }
}

} // verus!

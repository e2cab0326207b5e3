//! Compactions, titles and logins: what comes back is what is taken, in the session it is for.

use crate::app;
use crate::app::AppView;
use crate::arriving;
use crate::choices;
use crate::compaction;
use crate::compaction::{Compacted, CompactionEventView, VerdictView};
use crate::dialogs;
use crate::keeping;
use crate::message::MessageView;
use crate::reasoning;
use crate::session;
use crate::session::{SessionStatus, SessionView};
use crate::state;
use crate::state::{EffectView, ToastLevel};
use crate::tasks;
use crate::tasks::LoginEventView;
use crate::text;
use crate::ui::OAuthProvider;
use vstd::prelude::*;

verus! {

/// A compaction that begins is for the session that asked for it, with the provider, the model and
/// the agent that are chosen; the session says so, and nothing that was said is lost yet.
pub proof fn law_compactions_go_to_the_chosen_model(a: AppView, id: Seq<char>, tokens: usize)
    ensures
        ({
            let r = compaction::compaction_selected(a, id, Some(tokens));
            &&& r.effects.last() matches EffectView::StartCompaction {
                session_id,
                provider,
                model,
                agent,
                effort,
            } && session_id == id && provider == a.provider_name && model == a.model && agent
                == a.agent && effort == reasoning::compaction_effort(
                reasoning::capability_of(a.reasoning.capabilities, a.provider_name, a.model),
                a.reasoning.resolved(a.provider_name, a.model),
            )
            &&& r.compaction matches Some(c) && c.session_id == id && c.before_tokens == tokens
            &&& r.is_streaming
            &&& r.chat == a.chat && r.current == a.current && r.clients == a.clients
            &&& app::saved_messages(r, id) == app::saved_messages(a, id)
            &&& session::session_at(r.sessions, id) matches Some(i) ==> r.sessions[i].status
                == SessionStatus::Streaming
        }),
        ({
            let r = compaction::compaction_selected(a, id, None);
            &&& r == (AppView { effects: r.effects, ..a })
            &&& r.effects.last() matches EffectView::Toast { level, .. } && level
                == ToastLevel::Error
        }),
{
    reveal(compaction::compaction_begun);
    let b = AppView {
        compaction: Some(state::CompactionView { session_id: id, before_tokens: tokens }),
        is_streaming: true,
        usage_stale: true,
        ..a
    };
    let c = app::status_set(b, id, SessionStatus::Streaming, None);
    session::lemma_session_from(a.sessions, id, 0);
    if session::session_at(a.sessions, id) is Some {
        session::lemma_same_ids(a.sessions, c.sessions, id, 0);
    }
}

/// What is kept of a session that was compacted.
proof fn lemma_parked(c: AppView, id: Seq<char>, ms: Seq<MessageView>, marker: Option<usize>)
    ensures
        ({
            let p = compaction::parked(c, id, ms, marker);
            &&& p == (AppView { clients: p.clients, ..c })
            &&& app::client_of(p, id) matches Some(own) && own.id == id && (!app::is_current(c, id)
                ==> own.chat.messages == ms && own.chat.highlighted == marker)
        }),
{
    reveal(compaction::parked);
    keeping::lemma_ensured(c, id, id);
    let e = app::ensured(c, id);
    let own = compaction::parked_client(
        app::client_of(e, id)->0,
        ms,
        marker,
        app::is_current(c, id),
    );
    keeping::lemma_with_client(e, id, own, id);
}

proof fn lemma_rested(p: AppView, id: Seq<char>, i: int, stats: Seq<char>)
    requires
        session::session_at(p.sessions, id) == Some(i),
    ensures
        ({
            let d = app::status_set(p, id, SessionStatus::Idle, None);
            let r = app::toasted(
                app::relisted(app::with_stale_usage(d)),
                ToastLevel::Info,
                "Context compacted ("@ + stats + ")"@,
                3,
            );
            &&& 0 <= i < p.sessions.len()
            &&& session::session_at(r.sessions, id) == Some(i)
            &&& r.sessions == p.sessions.update(
                i,
                SessionView { status: SessionStatus::Idle, error: None, ..p.sessions[i] },
            )
            &&& r.chat == p.chat && r.clients == p.clients && r.current == p.current
            &&& r.effects.last() matches EffectView::Toast { text: t, .. } && text::contains(
                t,
                stats,
            )
        }),
{
    session::lemma_session_from(p.sessions, id, 0);
    let d = app::status_set(p, id, SessionStatus::Idle, None);
    session::lemma_same_ids(p.sessions, d.sessions, id, 0);
    let t = "Context compacted ("@ + stats + ")"@;
    let at = "Context compacted ("@.len() as int;
    assert(t.subrange(at, at + stats.len()) =~= stats);
    assert(text::occurs_at(t, stats, at));
}

proof fn lemma_replaced(a: AppView, id: Seq<char>, ms: Seq<MessageView>, i: int)
    requires
        session::session_at(a.sessions, id) == Some(i),
    ensures
        ({
            let b = compaction::messages_replaced(a, id, ms);
            &&& 0 <= i < a.sessions.len()
            &&& session::session_at(b.sessions, id) == Some(i)
            &&& b == (AppView { sessions: b.sessions, ..a })
            &&& b.sessions == a.sessions.update(
                i,
                SessionView { messages: ms, updated_at: a.now, ..a.sessions[i] },
            )
        }),
{
    reveal(compaction::messages_replaced);
    session::lemma_session_from(a.sessions, id, 0);
    let b = compaction::messages_replaced(a, id, ms);
    session::lemma_same_ids(a.sessions, b.sessions, id, 0);
}

/// A session that was compacted holds the messages that came of it, on the screen and saved, and is
/// at rest; no other session is touched.
pub proof fn law_compacted_sessions_hold_the_summary(
    a: AppView,
    id: Seq<char>,
    ms: Seq<MessageView>,
    marker: Option<usize>,
    stats: Seq<char>,
    i: int,
)
    requires
        session::session_at(a.sessions, id) == Some(i),
    ensures
        ({
            let r = compaction::event_done(
                a,
                CompactionEventView::Success {
                    session_id: id,
                    messages: ms,
                    marker,
                    stats_text: stats,
                    stored: Ok(()),
                },
            );
            &&& app::saved_messages(r, id) == ms
            &&& arriving::messages(r, id) == ms
            &&& app::transcript(r, id).highlighted == marker
            &&& session::session_at(r.sessions, id) == Some(i)
            &&& r.sessions[i].status == SessionStatus::Idle
            &&& r.sessions[i].title == a.sessions[i].title
            &&& r.sessions.len() == a.sessions.len()
            &&& forall|j: int|
                0 <= j < a.sessions.len() && j != i ==> #[trigger] r.sessions[j] == a.sessions[j]
            &&& r.current == a.current
            &&& !app::is_current(a, id) ==> r.chat == a.chat
            &&& r.effects.last() matches EffectView::Toast { text: t, .. } && text::contains(
                t,
                stats,
            )
        }),
{
    lemma_replaced(a, id, ms, i);
    let b = compaction::messages_replaced(a, id, ms);
    let c = if app::is_current(b, id) {
        compaction::screen_replaced(b, ms, marker)
    } else {
        b
    };
    lemma_parked(c, id, ms, marker);
    let p = compaction::parked(c, id, ms, marker);
    lemma_rested(p, id, i, stats);
    let r = compaction::event_done(
        a,
        CompactionEventView::Success {
            session_id: id,
            messages: ms,
            marker,
            stats_text: stats,
            stored: Ok(()),
        },
    );
    let d = app::status_set(p, id, SessionStatus::Idle, None);
    let told = app::toasted(
        app::relisted(app::with_stale_usage(d)),
        ToastLevel::Info,
        "Context compacted ("@ + stats + ")"@,
        3,
    );
    assert(r == told) by {
        reveal(compaction::event_done);
        reveal(compaction::compacted);
    }
    assert(app::client_of(r, id) == app::client_of(p, id));
}

/// A compaction that failed or was cancelled leaves every message where it was; its session is at
/// rest, and the user is told, of a failure with its reason.
pub proof fn law_failed_compactions_lose_nothing(a: AppView, id: Seq<char>, error: Seq<char>, other: Seq<char>)
    ensures
        ({
            let r = compaction::event_done(
                a,
                CompactionEventView::Failed { session_id: id, error },
            );
            &&& app::saved_messages(r, other) == app::saved_messages(a, other)
            &&& r.chat == a.chat && r.clients == a.clients && r.current == a.current
            &&& session::session_at(r.sessions, id) matches Some(i) ==> r.sessions[i].status
                == SessionStatus::Idle
            &&& r.effects.len() == a.effects.len() + 2
            &&& r.effects.last() matches EffectView::Toast { level, text: t, .. } && level
                == ToastLevel::Error && error.is_suffix_of(t)
        }),
        ({
            let r = compaction::event_done(a, CompactionEventView::Cancelled { session_id: id });
            &&& app::saved_messages(r, other) == app::saved_messages(a, other)
            &&& r.chat == a.chat && r.clients == a.clients && r.current == a.current
            &&& session::session_at(r.sessions, id) matches Some(i) ==> r.sessions[i].status
                == SessionStatus::Idle
            &&& r.effects.len() == a.effects.len() + 1
        }),
{
    reveal(compaction::event_done);
    let d = app::status_set(a, id, SessionStatus::Idle, None);
    session::lemma_session_from(a.sessions, id, 0);
    session::lemma_session_from(a.sessions, other, 0);
    if session::session_at(a.sessions, id) is Some {
        session::lemma_same_ids(a.sessions, d.sessions, id, 0);
        session::lemma_same_ids(a.sessions, d.sessions, other, 0);
    }
    let t = "Failed to compact session: "@ + error;
    assert(t.subrange(t.len() - error.len(), t.len() as int) =~= error);
}

/// A compaction is taken only where it was not cancelled and makes the context smaller; its
/// messages are those that it made, but that the marker tells what was saved.
pub proof fn law_compactions_are_judged_by_their_size(c: Compacted, cancelled: bool, k: usize)
    ensures
        ({
            let v = compaction::verdict(Ok(c), cancelled);
            &&& v is Success <==> !cancelled && c.stats.after_tokens < c.stats.before_tokens
            &&& cancelled ==> v is Cancelled
            &&& v matches VerdictView::Success { messages: ms } ==> {
                &&& ms.len() == c.messages@.len()
                &&& k < ms.len() ==> ms[k as int].content == c.messages@[k as int]@.content
                    && ms[k as int].role == c.messages@[k as int]@.role
                &&& k < ms.len() && c.marker == Some(k) ==> ms[k as int].compaction_stats == Some(
                    c.stats,
                )
                &&& k < ms.len() && c.marker != Some(k) ==> ms[k as int] == c.messages@[k as int]@
            }
        }),
{
}

/// A title that was made for a session is given to that session alone, without the white space
/// around it, and only where the session had none of its own.
pub proof fn law_made_titles_go_to_their_session(a: AppView, id: Seq<char>, title: Seq<char>)
    ensures
        ({
            let r = tasks::retitled(a, id, title);
            &&& r.sessions.len() == a.sessions.len()
            &&& tasks::can_retitle(a, id) && !text::is_blank(title) ==> (session::session_at(
                a.sessions,
                id,
            ) matches Some(i) && r.sessions[i] == (SessionView {
                title: text::trim(title),
                ..a.sessions[i]
            }) && (forall|j: int|
                0 <= j < a.sessions.len() && j != i ==> #[trigger] r.sessions[j] == a.sessions[j]))
            &&& text::is_blank(title) || !tasks::can_retitle(a, id) ==> r == a
        }),
{
    reveal(tasks::retitled);
    reveal(choices::renamed);
    session::lemma_session_from(a.sessions, id, 0);
}

/// A login that succeeds puts its own provider to use, with a model of it, and that is remembered;
/// one that fails changes neither. Either way it is over.
pub proof fn law_logins_connect_their_provider(a: AppView, login: OAuthProvider, error: Seq<char>)
    ensures
        ({
            let r = tasks::login_heard(a, LoginEventView::Success { login });
            &&& r.provider_name == login.id()
            &&& r.model == login.first_model()
            &&& r.ui.oauth_in_progress is None
            &&& r.effects[a.effects.len() as int] == EffectView::SaveModel {
                provider: r.provider_name,
                model: r.model,
            }
            &&& r.sessions == a.sessions && r.chat == a.chat && r.agent == a.agent
        }),
        ({
            let r = tasks::login_heard(a, LoginEventView::Failed { login, error });
            &&& r.provider_name == a.provider_name
            &&& r.model == a.model
            &&& r.ui.oauth_in_progress is None
            &&& r.effects.last() matches EffectView::Toast { level, text: t, .. } && level
                == ToastLevel::Error && error.is_suffix_of(t)
        }),
        OAuthProvider::OpenAI.id() == "openai"@,
        OAuthProvider::XAI.id() == "xai"@,
{
    reveal(tasks::login_ended);
    let t = login.name() + " OAuth failed: "@ + error;
    assert(t.subrange(t.len() - error.len(), t.len() as int) =~= error);
}

/// What the user did not choose is not remembered in its place: however a look-up of the models
/// ends, the model in use stays.
pub proof fn law_looking_up_models_keeps_the_model(
    a: AppView,
    e: Option<tasks::ModelsEvent>,
    gone: bool,
    connected: Option<Seq<Seq<char>>>,
)
    ensures
        ({
            let r = tasks::models_heard(a, e, gone, connected);
            &&& r.provider_name == a.provider_name && r.model == a.model && r.agent == a.agent
            &&& r.sessions == a.sessions && r.chat == a.chat && r.input == a.input
            &&& e is Some || gone ==> r.ui.models.task is None
            &&& e is None && gone ==> !r.ui.models.loading
        }),
{
    reveal(tasks::models_heard);
    reveal(tasks::models_found);
    reveal(dialogs::models_shown);
}

} // verus!

//! What the user says goes to the agent and the model that were chosen, as it was said.

use crate::agents;
use crate::agents::{AgentMode, AgentView};
use crate::app;
use crate::app::AppView;
use crate::arriving;
use crate::chunks::{ChunkMessage, SubagentStart};
use crate::events;
use crate::focus::BaseFocus;
use crate::keeping;
use crate::message;
use crate::message::{MessageRole, MessageView};
use crate::prompting;
use crate::prompting::MentionView;
use crate::reasoning::ReasoningEffort;
use crate::session;
use crate::session::SessionStatus;
use crate::state;
use crate::state::{ClientView, EffectView};
use crate::stream;
use crate::text;
use crate::titles;
use vstd::prelude::*;

verus! {

/// Agent `i` can lead, bears the name, and none before it does both.
pub open spec fn is_leader(v: Seq<AgentView>, name: Seq<char>, i: int) -> bool {
    &&& 0 <= i < v.len()
    &&& v[i].mode != AgentMode::Subagent
    &&& text::lower_all(v[i].name) == text::lower_all(name)
    &&& forall|j: int|
        0 <= j < i ==> (#[trigger] v[j]).mode == AgentMode::Subagent || text::lower_all(v[j].name)
            != text::lower_all(name)
}

/// A reference to a model: its provider, a slash and its name.
pub open spec fn is_reference(m: Seq<char>, provider: Seq<char>, model: Seq<char>) -> bool {
    &&& m == provider + seq!['/'] + model
    &&& provider.len() > 0 && model.len() > 0
    &&& text::trim(provider) == provider
    &&& text::trim(model) == model
    &&& forall|i: int| 0 <= i < provider.len() ==> #[trigger] provider[i] != '/'
}

/// A reference names its provider and its model, and white space around it makes no difference.
pub proof fn law_references_name_their_model(m: Seq<char>, provider: Seq<char>, model: Seq<char>)
    requires
        is_reference(m, provider, model),
    ensures
        titles::model_ref(m) == (provider, model),
{
    text::lemma_is_trimmed(provider);
    text::lemma_is_trimmed(model);
    text::lemma_is_trimmed(m);
    assert(m[0] == provider[0]);
    assert(m.last() == model.last());
    assert forall|j: int| 0 <= j < provider.len() implies m[j] != '/' by {
        assert(m[j] == provider[j]);
    }
    text::lemma_first_char(m, '/', 0, provider.len() as int);
    assert(m.take(provider.len() as int) =~= provider);
    assert(m.skip(provider.len() as int + 1) =~= model);
}

pub proof fn lemma_leader(v: Seq<AgentView>, name: Seq<char>, i: int, k: int)
    requires
        0 <= k <= i,
        is_leader(v, name, i),
    ensures
        agents::agent_from(v, name, true, k) == Some(i),
    decreases i - k,
{
    if k < i {
        assert(v[k].mode == AgentMode::Subagent || text::lower_all(v[k].name) != text::lower_all(
            name,
        ));
        lemma_leader(v, name, i, k + 1);
    }
}

pub proof fn lemma_no_leader(v: Seq<AgentView>, name: Seq<char>, k: int)
    requires
        0 <= k,
        forall|j: int|
            0 <= j < k && j < v.len() ==> (#[trigger] v[j]).mode == AgentMode::Subagent
                || text::lower_all(v[j].name) != text::lower_all(name),
    ensures
        agents::agent_from(v, name, true, k) matches Some(i) ==> is_leader(v, name, i),
    decreases v.len() - k,
{
    if k < v.len() {
        if agents::same_name(v[k].name, name) && v[k].leads() {
            assert(is_leader(v, name, k));
        } else {
            lemma_no_leader(v, name, k + 1);
        }
    }
}

/// The provider and the model are those that the user has chosen, unless the agent that leads has
/// a model of its own: then it is that one.
pub open spec fn is_route(a: AppView, provider: Seq<char>, model: Seq<char>) -> bool {
    &&& (forall|i: int| #[trigger] is_leader(a.agents, a.agent, i) ==> a.agents[i].model is None)
        ==> provider == a.provider_name && model == a.model
    &&& forall|i: int, p: Seq<char>, m: Seq<char>|
        #![trigger is_leader(a.agents, a.agent, i), is_reference(a.agents[i].model->0, p, m)]
        is_leader(a.agents, a.agent, i) && a.agents[i].model is Some && is_reference(
            a.agents[i].model->0,
            p,
            m,
        ) ==> provider == p && model == m
}

/// The effort is the one of the agent that leads, or else the one that is set for the model.
pub open spec fn is_effort(a: AppView, effort: Option<ReasoningEffort>) -> bool {
    &&& (forall|i: int|
        #[trigger] is_leader(a.agents, a.agent, i) ==> a.agents[i].reasoning_effort is None)
        ==> effort == a.reasoning.resolved(a.provider_name, a.model)
    &&& forall|i: int|
        #[trigger] is_leader(a.agents, a.agent, i) && a.agents[i].reasoning_effort is Some
            ==> effort == a.agents[i].reasoning_effort
}

proof fn lemma_route(a: AppView)
    ensures
        ({
            let r = agents::agent_route(a.agents, a.agent, a.provider_name, a.model);
            is_route(a, r.0, r.1)
        }),
        is_effort(
            a,
            agents::agent_effort(
                a.agents,
                a.agent,
                a.reasoning.resolved(a.provider_name, a.model),
            ),
        ),
{
    lemma_no_leader(a.agents, a.agent, 0);
    let r = agents::agent_route(a.agents, a.agent, a.provider_name, a.model);
    let effort = agents::agent_effort(
        a.agents,
        a.agent,
        a.reasoning.resolved(a.provider_name, a.model),
    );
    assert forall|i: int, p: Seq<char>, m: Seq<char>|
        #![trigger is_leader(a.agents, a.agent, i), is_reference(a.agents[i].model->0, p, m)]
        is_leader(a.agents, a.agent, i) && a.agents[i].model is Some && is_reference(
            a.agents[i].model->0,
            p,
            m,
        ) implies r.0 == p && r.1 == m by {
        lemma_leader(a.agents, a.agent, i, 0);
        law_references_name_their_model(a.agents[i].model->0, p, m);
    }
    assert forall|i: int| #[trigger] is_leader(
        a.agents,
        a.agent,
        i,
    ) && a.agents[i].reasoning_effort is Some implies effort == a.agents[i].reasoning_effort by {
        lemma_leader(a.agents, a.agent, i, 0);
    }
}

/// What the user has chosen is the same in both.
pub open spec fn is_same_choice(a: AppView, b: AppView) -> bool {
    &&& b.agents == a.agents
    &&& b.agent == a.agent
    &&& b.provider_name == a.provider_name
    &&& b.model == a.model
    &&& b.reasoning == a.reasoning
}

pub proof fn lemma_put_away_choice(a: AppView)
    ensures
        is_same_choice(a, app::put_away(a)),
        app::put_away(a).next_session_id == a.next_session_id,
        app::put_away(a).sessions == a.sessions,
{
    reveal(app::put_away);
    if let Some(id) = a.current {
        keeping::lemma_ensured(a, id, id);
    }
}

pub proof fn lemma_created_choice(a: AppView, title: Seq<char>)
    ensures
        ({
            let r = prompting::session_created(a, title);
            &&& is_same_choice(a, r)
            &&& r.current == Some(a.next_session_id)
            &&& r.chat.messages.len() == 0
            &&& r.sessions.len() == a.sessions.len() + 1
            &&& r.sessions.last().id == a.next_session_id
            &&& r.sessions.last().title == title
            &&& r.sessions.last().messages.len() == 0
            &&& r.sessions.drop_last() == a.sessions
            &&& r.effects == app::put_away(a).effects
        }),
{
    reveal(prompting::session_created);
    reveal(prompting::home_shown);
    reveal(app::relisted);
    lemma_put_away_choice(a);
    let id = a.next_session_id;
    let b = prompting::session_added(app::put_away(a), title);
    keeping::lemma_ensured(b, id, id);
    keeping::lemma_with_client(
        app::ensured(b, id),
        id,
        state::client_of(id, state::chat_of(Seq::empty())),
        id,
    );
    assert(prompting::session_created(a, title).sessions == b.sessions);
    assert(b.sessions.drop_last() =~= a.sessions);
}

/// The user is on record with what was said, in the chat and in the session, under the agent and
/// the model that are chosen.
pub open spec fn is_said(a: AppView, m: MessageView, said: Seq<char>, images: Seq<Seq<char>>) -> bool {
    &&& m.role == MessageRole::User
    &&& m.content == said
    &&& m.local_image_paths == images
    &&& m.agent_mode == Some(a.agent)
    &&& m.model == Some(a.model)
    &&& m.provider == Some(a.provider_name)
    &&& m.is_complete
}

/// An answer that has not begun.
pub open spec fn is_awaited(m: MessageView) -> bool {
    &&& m.role == MessageRole::Assistant
    &&& m.content.len() == 0
    &&& m.parts.len() == 0
    &&& m.reasoning is None
    &&& !m.is_complete
}

/// A turn is under way in session `id`: it writes to the answer behind the `boundary` messages
/// that were there, the session says so, and what is saved is what is shown.
pub open spec fn is_under_way(a: AppView, id: Seq<char>, boundary: int) -> bool {
    &&& a.is_streaming
    &&& app::client_of(a, id) matches Some(c) && (c.stream matches Some(s) && s.boundary == boundary
        && s.model == Some(a.model) && s.provider == Some(a.provider_name)) && c.retry_status is None
        && c.tool_calls.places.len() == 0
    &&& session::session_at(a.sessions, id) matches Some(i) ==> a.sessions[i].status
        == SessionStatus::Streaming && a.sessions[i].messages == a.chat.messages
}

proof fn lemma_begun(a: AppView, id: Seq<char>)
    requires
        a.current == Some(id),
        a.chat.messages.len() < usize::MAX,
    ensures
        ({
            let b = stream::turn_begun(a, id);
            &&& is_same_choice(a, b)
            &&& b.current == Some(id)
            &&& b.effects == a.effects
            &&& b.base_focus == a.base_focus
            &&& b.small_model == a.small_model
            &&& b.title_generation == a.title_generation
            &&& b.chat.messages.len() == a.chat.messages.len() + 1
            &&& b.chat.messages.drop_last() == a.chat.messages
            &&& is_awaited(b.chat.messages.last())
            &&& is_under_way(b, id, a.chat.messages.len() as int)
        }),
{
    reveal(stream::turn_begun);
    reveal_strlit("");
    let e = app::ensured(a, id);
    keeping::lemma_ensured(a, id, id);
    let c = app::client_of(e, id)->0;
    let begun = ClientView {
        stream: Some(
            state::new_stream(
                Some(a.model),
                Some(a.provider_name),
                a.chat.messages.len() as usize,
                a.now,
            ),
        ),
        tool_calls: state::no_tool_calls(),
        unread_completed: false,
        retry_status: None,
        ..c
    };
    keeping::lemma_with_client(e, id, begun, id);
    let b = AppView {
        chat: state::with_messages(
            a.chat,
            a.chat.messages.push(message::new_message(MessageRole::Assistant, ""@, false)),
        ),
        is_streaming: true,
        ..app::with_client(e, id, begun)
    };
    let p = app::persisted(b, id);
    let q = app::status_set(p, id, SessionStatus::Streaming, None);
    session::lemma_session_from(b.sessions, id, 0);
    if session::session_at(b.sessions, id) is Some {
        session::lemma_same_ids(b.sessions, p.sessions, id, 0);
        session::lemma_same_ids(p.sessions, q.sessions, id, 0);
    }
    assert(b.chat.messages.drop_last() =~= a.chat.messages);
    assert(app::client_of(q, id) == Some(begun));
}

/// What the agent is asked to do when it is asked to answer.
pub open spec fn is_asked_to_answer(a: AppView, e: EffectView, id: Seq<char>, told: Option<Seq<char>>) -> bool {
    e matches EffectView::StartStream { session_id, provider, model, agent, effort, guidance }
        && session_id == id && is_route(a, provider, model) && agent == a.agent && is_effort(
        a,
        effort,
    ) && guidance == told
}

pub proof fn lemma_asked(a: AppView, id: Seq<char>, prompt: Seq<char>, guidance: Option<Seq<char>>)
    requires
        a.current == Some(id),
        a.chat.messages.len() < usize::MAX,
    ensures
        ({
            let b = stream::turn_started(a, id, prompt, guidance);
            &&& is_same_choice(a, b)
            &&& b.current == Some(id)
            &&& b.effects.len() > a.effects.len()
            &&& is_asked_to_answer(a, b.effects.last(), id, guidance)
            &&& b.base_focus == a.base_focus
            &&& b.chat.messages.len() == a.chat.messages.len() + 1
            &&& b.chat.messages.drop_last() == a.chat.messages
            &&& is_awaited(b.chat.messages.last())
            &&& is_under_way(b, id, a.chat.messages.len() as int)
        }),
{
    reveal(stream::turn_started);
    reveal(stream::title_asked);
    lemma_begun(a, id);
    lemma_route(a);
    let b = stream::turn_begun(a, id);
    let t = stream::title_asked(b, id, prompt);
    assert(t.clients == b.clients && t.sessions == b.sessions && t.chat == b.chat);
}

proof fn lemma_said(a: AppView, said: Seq<char>, images: Seq<Seq<char>>)
    ensures
        ({
            let b = stream::user_message_added(a, said, images);
            &&& is_same_choice(a, b)
            &&& b.current == a.current
            &&& b.effects == a.effects
            &&& b.clients == a.clients
            &&& b.base_focus == a.base_focus
            &&& b.chat.messages.len() == a.chat.messages.len() + 1
            &&& b.chat.messages.drop_last() == a.chat.messages
            &&& is_said(a, b.chat.messages.last(), said, images)
        }),
{
    reveal(stream::user_message_added);
    assert(stream::user_message_added(a, said, images).chat.messages.drop_last()
        =~= a.chat.messages);
}

/// What the user says in a session is on record behind what was said there, as it was said; an
/// answer is begun behind it; and the agent that was chosen is asked for it, with the provider and
/// the model that were chosen, or with those that the agent has of its own.
pub proof fn law_prompts_go_to_the_chosen_model(
    a: AppView,
    id: Seq<char>,
    said: Seq<char>,
    images: Seq<Seq<char>>,
)
    requires
        said.len() > 0 || images.len() > 0,
        a.current == Some(id),
        a.chat.messages.len() < usize::MAX - 1,
    ensures
        ({
            let r = prompting::message_sent(a, said, images);
            let n = a.chat.messages.len() as int;
            &&& r.current == Some(id)
            &&& r.base_focus == BaseFocus::Chat
            &&& is_asked_to_answer(a, r.effects.last(), id, None)
            &&& r.effects.len() > a.effects.len()
            &&& r.chat.messages.len() == n + 2
            &&& r.chat.messages.take(n) == a.chat.messages
            &&& is_said(a, r.chat.messages[n], said, images)
            &&& is_awaited(r.chat.messages[n + 1])
            &&& is_under_way(r, id, n + 1)
        }),
{
    reveal(prompting::message_sent);
    keeping::lemma_ensured(a, id, id);
    let b = if a.base_focus == BaseFocus::Home {
        a
    } else {
        app::ensured(a, id)
    };
    lemma_said(b, said, images);
    let u = AppView {
        base_focus: BaseFocus::Chat,
        ..stream::user_message_added(b, said, images)
    };
    lemma_asked(u, id, said, None);
    let r = stream::turn_started(u, id, said, None);
    assert(is_same_choice(a, u));
    let n = a.chat.messages.len() as int;
    assert(r.chat.messages.take(n) =~= a.chat.messages) by {
        assert(r.chat.messages.drop_last().drop_last() =~= r.chat.messages.take(n));
    }
    assert(r.chat.messages[n] == r.chat.messages.drop_last()[n]);
    lemma_same_route(a, u, r.effects.last(), id);
}

/// The same choice is asked in the same way.
pub proof fn lemma_same_route(a: AppView, b: AppView, e: EffectView, id: Seq<char>)
    requires
        is_same_choice(a, b),
        is_asked_to_answer(b, e, id, None),
    ensures
        is_asked_to_answer(a, e, id, None),
{
}

/// What the user says at home goes to a session made for it, whose title is the one that was asked
/// for, or else the beginning of what was said; the other sessions stay as they are.
pub proof fn law_first_prompts_make_a_session(
    a: AppView,
    said: Seq<char>,
    images: Seq<Seq<char>>,
)
    requires
        said.len() > 0 || images.len() > 0,
        a.current is None,
        a.base_focus == BaseFocus::Home,
        !stream::exists_session(a, a.next_session_id),
    ensures
        ({
            let r = prompting::message_sent(a, said, images);
            let id = a.next_session_id;
            let n = a.sessions.len() as int;
            &&& r.current == Some(id)
            &&& r.base_focus == BaseFocus::Chat
            &&& is_asked_to_answer(a, r.effects.last(), id, None)
            &&& r.chat.messages.len() == 2
            &&& is_said(a, r.chat.messages[0], said, images)
            &&& is_awaited(r.chat.messages[1])
            &&& is_under_way(r, id, 1)
            &&& r.sessions.len() == n + 1
            &&& r.sessions.take(n) == a.sessions
            &&& r.sessions[n].id == id
            &&& r.sessions[n].messages == r.chat.messages
            &&& a.pending_session_title matches Some(t) ==> r.sessions[n].title == t
            &&& a.pending_session_title is None ==> r.sessions[n].title.is_prefix_of(said)
                && r.sessions[n].title.len() <= 30 && (said.len() <= 30 && text::trim_end(said)
                == said ==> r.sessions[n].title == said)
        }),
{
    reveal(prompting::message_sent);
    let id = a.next_session_id;
    let n = a.sessions.len() as int;
    let title = match a.pending_session_title {
        Some(t) => t,
        None => titles::title_of_message(said),
    };
    lemma_created_choice(a, title);
    let c = prompting::session_created(a, title);
    lemma_said(c, said, images);
    let u = AppView {
        base_focus: BaseFocus::Chat,
        ..stream::user_message_added(c, said, images)
    };
    lemma_asked(u, id, said, None);
    let r = stream::turn_started(u, id, said, None);
    assert(is_same_choice(a, u));
    lemma_same_route(a, u, r.effects.last(), id);
    assert(r.chat.messages[0] == r.chat.messages.drop_last()[0]);
    session::lemma_session_from(a.sessions, id, 0);
    assert(c.sessions == a.sessions.push(c.sessions.last())) by {
        assert(c.sessions =~= c.sessions.drop_last().push(c.sessions.last()));
    }
    keeping::lemma_session_push(a.sessions, c.sessions.last(), id, 0);
    assert(session::session_at(c.sessions, id) == Some(n));
    lemma_only_own_session_grows(c, said, images, id, said, n);
    lemma_title_begins(said);
}

/// What is said, and the turn that it begins, change the session that it is said in and no other.
proof fn lemma_only_own_session_grows(
    c: AppView,
    said: Seq<char>,
    images: Seq<Seq<char>>,
    id: Seq<char>,
    prompt: Seq<char>,
    n: int,
)
    requires
        c.current == Some(id),
        session::session_at(c.sessions, id) == Some(n),
        0 <= n < c.sessions.len(),
        c.sessions[n].id == id,
    ensures
        ({
            let u = AppView {
                base_focus: BaseFocus::Chat,
                ..stream::user_message_added(c, said, images)
            };
            let r = stream::turn_started(u, id, prompt, None);
            &&& r.sessions.len() == c.sessions.len()
            &&& session::session_at(r.sessions, id) == Some(n)
            &&& forall|j: int|
                0 <= j < c.sessions.len() && j != n ==> #[trigger] r.sessions[j] == c.sessions[j]
            &&& r.sessions[n].id == id
            &&& r.sessions[n].title == c.sessions[n].title
            &&& r.sessions[n].parent_id == c.sessions[n].parent_id
        }),
{
    reveal(stream::user_message_added);
    reveal(stream::turn_started);
    reveal(stream::title_asked);
    reveal(stream::turn_begun);
    let u = AppView {
        base_focus: BaseFocus::Chat,
        ..stream::user_message_added(c, said, images)
    };
    session::lemma_same_ids(c.sessions, u.sessions, id, 0);
    keeping::lemma_ensured(u, id, id);
    let e = app::ensured(u, id);
    let own = app::client_of(e, id)->0;
    let begun = ClientView {
        stream: Some(
            state::new_stream(
                Some(u.model),
                Some(u.provider_name),
                u.chat.messages.len() as usize,
                u.now,
            ),
        ),
        tool_calls: state::no_tool_calls(),
        unread_completed: false,
        retry_status: None,
        ..own
    };
    let b = AppView {
        chat: state::with_messages(
            u.chat,
            u.chat.messages.push(message::new_message(MessageRole::Assistant, ""@, false)),
        ),
        is_streaming: true,
        ..app::with_client(e, id, begun)
    };
    assert(b.sessions == u.sessions);
    let p = app::persisted(b, id);
    session::lemma_same_ids(u.sessions, p.sessions, id, 0);
    let q = app::status_set(p, id, SessionStatus::Streaming, None);
    session::lemma_same_ids(p.sessions, q.sessions, id, 0);
    assert(stream::turn_begun(u, id).sessions == q.sessions);
}

proof fn lemma_front_of(s: Seq<char>)
    ensures
        text::trim_end(s).len() <= s.len(),
        text::trim_end(s) == s.take(text::trim_end(s).len() as int),
    decreases s.len(),
{
    if s.len() > 0 && text::is_white(s.last()) {
        lemma_front_of(s.drop_last());
        let k = text::trim_end(s).len() as int;
        assert(s.drop_last().take(k) =~= s.take(k));
    } else {
        assert(s.take(s.len() as int) =~= s);
    }
}

proof fn lemma_title_begins(said: Seq<char>)
    ensures
        ({
            let t = titles::title_of_message(said);
            &&& t.is_prefix_of(said)
            &&& t.len() <= 30
            &&& said.len() <= 30 && text::trim_end(said) == said ==> t == said
        }),
{
    let k = if said.len() < 30 {
        said.len() as int
    } else {
        30
    };
    let front = said.take(k);
    lemma_front_of(front);
    let t = titles::title_of_message(said);
    assert(front.take(t.len() as int) =~= said.subrange(0, t.len() as int));
    if said.len() <= 30 {
        assert(front =~= said);
    }
}

/// A task for an agent that was mentioned goes to that agent, as it was written, and to the
/// provider and the model that are chosen; the user is on record with all of what was typed.
pub proof fn law_tasks_go_to_the_mentioned_agent(
    a: AppView,
    id: Seq<char>,
    m: MentionView,
    images: Seq<Seq<char>>,
    i: int,
)
    requires
        a.current == Some(id),
        a.chat.messages.len() < usize::MAX - 1,
        !text::is_blank(m.prompt) || images.len() > 0,
        agents::target_at(a.agents, m.agent) == Some(i),
        !a.agents[i].hidden,
    ensures
        ({
            let r = prompting::mentioned(a, m, images, true);
            let n = a.chat.messages.len() as int;
            &&& r.current == Some(id)
            &&& r.base_focus == BaseFocus::Chat
            &&& r.effects.len() == a.effects.len() + 1
            &&& r.effects.last() matches EffectView::StartMention {
                session_id,
                provider,
                model,
                agent,
                effort,
                target,
                prompt,
            } && session_id == id && provider == a.provider_name && model == a.model && agent
                == a.agent && effort == a.reasoning.resolved(a.provider_name, a.model) && target
                == a.agents[i].name && prompt == m.prompt
            &&& r.chat.messages.len() == n + 2
            &&& r.chat.messages.take(n) == a.chat.messages
            &&& is_said(a, r.chat.messages[n], m.raw, images)
            &&& is_awaited(r.chat.messages[n + 1])
            &&& is_under_way(r, id, n + 1)
        }),
{
    reveal(prompting::mention_taken);
    reveal(prompting::task_started);
    lemma_said(a, m.raw, images);
    let u = AppView {
        base_focus: BaseFocus::Chat,
        ..stream::user_message_added(a, m.raw, images)
    };
    lemma_begun(u, id);
    let r = prompting::mentioned(a, m, images, true);
    let b = stream::turn_begun(u, id);
    assert(r.chat == b.chat && r.clients == b.clients && r.sessions == b.sessions);
    let n = a.chat.messages.len() as int;
    assert(r.chat.messages.drop_last().drop_last() =~= r.chat.messages.take(n));
    assert(r.chat.messages[n] == r.chat.messages.drop_last()[n]);
}

/// An agent that can be given a task bears the name, ignoring case, and is no mere leader; and a
/// task for nobody changes nothing but that the user is told.
pub proof fn law_mentions_need_an_agent(a: AppView, m: MentionView, images: Seq<Seq<char>>, allowed: bool)
    ensures
        agents::target_at(a.agents, m.agent) matches Some(i) ==> 0 <= i < a.agents.len()
            && a.agents[i].mode != AgentMode::Primary && text::lower_all(a.agents[i].name)
            == text::lower_all(m.agent),
        ({
            let refused = (text::is_blank(m.prompt) && images.len() == 0) || match agents::target_at(
                a.agents,
                m.agent,
            ) {
                Some(i) => a.agents[i].hidden || !allowed,
                None => true,
            };
            let r = prompting::mentioned(a, m, images, allowed);
            refused ==> r == (AppView { effects: r.effects, ..a }) && r.effects.len()
                == a.effects.len() + 2 && (r.effects.last() matches EffectView::Toast {
                level,
                ..
            } && level == state::ToastLevel::Error)
        }),
{
    agents::lemma_agent_from(a.agents, m.agent, false, 0);
    lemma_target(a.agents, m.agent, 0);
}

proof fn lemma_target(v: Seq<AgentView>, name: Seq<char>, k: int)
    requires
        0 <= k,
    ensures
        agents::agent_from(v, name, false, k) matches Some(i) ==> k <= i < v.len() && v[i].mode
            != AgentMode::Primary,
    decreases v.len() - k,
{
    if k < v.len() {
        lemma_target(v, name, k + 1);
    }
}

/// A title is asked of the small model, for the session and for what was said in it, and at most
/// once at a time.
pub proof fn law_titles_are_asked_of_the_small_model(
    a: AppView,
    id: Seq<char>,
    said: Seq<char>,
    provider: Seq<char>,
    model: Seq<char>,
)
    requires
        a.small_model matches Some(m) && is_reference(m, provider, model),
    ensures
        ({
            let r = stream::title_asked(a, id, said);
            &&& r == a || (r.effects == a.effects.push(
                EffectView::GenerateTitle {
                    session_id: id,
                    provider,
                    model,
                    prompt: text::trim(said),
                },
            ) && r.title_generation && !a.title_generation && !text::is_blank(said))
            &&& stream::title_asked(r, id, said) == r
        }),
{
    reveal(stream::title_asked);
    law_references_name_their_model(a.small_model->0, provider, model);
}

/// A subagent begins with its whole task before it: what it is about, and behind that, to the end
/// of the message, the prompt that it was given. Its session stands below the one that called it,
/// an answer is begun, and what is saved is what is shown.
pub proof fn law_subagents_are_told_their_task(a: AppView, id: Seq<char>, s: SubagentStart)
    requires
        !app::is_current(a, s.session_id@),
    ensures
        ({
            let r = arriving::heard(a, id, ChunkMessage::SubagentStarted(s));
            let sid = s.session_id@;
            let ms = arriving::messages(r, sid);
            &&& ms.len() == 2
            &&& ms[0].role == MessageRole::User
            &&& (seq!['#', '#', ' '] + "Task Prompt\n"@ + s.prompt@).is_suffix_of(ms[0].content)
            &&& s.prompt@.is_suffix_of(ms[0].content)
            &&& text::contains(ms[0].content, s.description@)
            &&& ms[0].content.len() >= s.description@.len() + s.prompt@.len() + 15
            &&& is_awaited(ms[1])
            &&& ms[0].agent_mode == Some(s.subagent_type@) && ms[1].agent_mode == Some(
                s.subagent_type@,
            )
            &&& ms[1].model == text::opt_view(s.model) && ms[1].provider == text::opt_view(
                s.provider,
            )
            &&& app::streams(r, sid)
            &&& app::saved_messages(r, sid) == ms
            &&& session::session_at(r.sessions, sid) matches Some(i) && r.sessions[i].status
                == SessionStatus::Streaming && (session::session_at(a.sessions, sid) is None
                ==> r.sessions[i].parent_id == Some(s.parent_session_id@) && r.sessions[i].title
                == s.title@)
            &&& r.current == a.current
            &&& r.chat == a.chat
        }),
{
    reveal(events::subagent_started);
    reveal(events::subagent_seeded);
    reveal(app::relisted);
    reveal_strlit("");
    let sid = s.session_id@;
    let c = events::child_made(a, s);
    session::lemma_session_from(a.sessions, sid, 0);
    if session::session_at(a.sessions, sid) is None {
        keeping::lemma_session_push(a.sessions, c.sessions.last(), sid, 0);
    }
    assert(session::session_at(c.sessions, sid) is Some);
    session::lemma_session_from(c.sessions, sid, 0);
    keeping::lemma_ensured(c, sid, sid);
    let e = app::ensured(c, sid);
    let own = events::subagent_client(c, app::client_of(e, sid)->0, s);
    keeping::lemma_with_client(e, sid, own, sid);
    let b = events::subagent_seeded(c, s);
    assert(app::client_of(b, sid) == Some(own));
    let p = app::persisted(b, sid);
    session::lemma_same_ids(b.sessions, p.sessions, sid, 0);
    let q = app::status_set(p, sid, SessionStatus::Streaming, None);
    session::lemma_same_ids(p.sessions, q.sessions, sid, 0);
    let r = arriving::heard(a, id, ChunkMessage::SubagentStarted(s));
    assert(r.sessions == q.sessions && r.clients == q.clients);
    assert(app::client_of(r, sid) == Some(own));
    let content = arriving::messages(r, sid)[0].content;
    let d = s.description@;
    let t = s.prompt@;
    reveal_strlit("## Task Description\n");
    reveal_strlit("\n\n## Task Prompt\n");
    reveal_strlit("Task Prompt\n");
    let tail = seq!['#', '#', ' '] + "Task Prompt\n"@ + t;
    assert(content.subrange(content.len() - tail.len(), content.len() as int) =~= tail);
    assert(content.subrange(content.len() - t.len(), content.len() as int) =~= t);
    let at = "## Task Description\n"@.len() as int;
    assert(content.subrange(at, at + d.len()) =~= d);
    assert(text::occurs_at(content, d, at));
    lemma_streams(r, sid);
}

proof fn lemma_streams(a: AppView, id: Seq<char>)
    requires
        app::client_of(a, id) matches Some(c) && c.has_stream(),
    ensures
        app::streams(a, id),
{
}

} // verus!

//! Turns: how they begin, what streams into them, and how they end.

use crate::agents;
use crate::app;
use crate::app::{App, AppView};
use crate::chunks;
use crate::chunks::{
    ChunkMessage, ChunkView, LeafView, StreamingRetryStatus, SubagentStart, ToolCall,
    ToolCallResult,
};
use crate::focus::{BaseFocus, OverlayFocus};
use crate::message;
use crate::message::{Message, MessageRole, MessageView};
use crate::queue;
use crate::queue::{QueuedItem, QueuedUserMessage, QueuedView};
use crate::session;
use crate::session::{Session, SessionStatus, SessionView};
use crate::state;
use crate::state::{
    Chat, ChatView, ClientSessionState, ClientView, Effect, EffectView, RetryView, SoundEvent,
    StreamState, StreamView, ToastLevel, ToolCallPlace, ToolCallViewState, ToolCallsView,
    ToolPlaceView,
};
use crate::text;
use crate::titles;
use crate::transcript;
use vstd::prelude::*;
use vstd::string::*;

verus! {

/// What the user said, as it is recorded.
pub open spec fn user_message(a: AppView, msg: Seq<char>, images: Seq<Seq<char>>) -> MessageView {
    MessageView {
        local_image_paths: images,
        agent_mode: Some(a.agent),
        model: Some(a.model),
        provider: Some(a.provider_name),
        ..message::new_message(MessageRole::User, msg, true)
    }
}

#[verifier::opaque]
pub open spec fn user_message_added(a: AppView, msg: Seq<char>, images: Seq<Seq<char>>) -> AppView {
    let m = user_message(a, msg, images);
    let place = match a.current {
        Some(id) => session::session_at(a.sessions, id),
        None => None,
    };
    AppView {
        sessions: match place {
            Some(i) => a.sessions.update(
                i,
                SessionView {
                    messages: a.sessions[i].messages.push(m),
                    updated_at: a.now,
                    ..a.sessions[i]
                },
            ),
            None => a.sessions,
        },
        chat: state::with_messages(a.chat, a.chat.messages.push(m)),
        usage_stale: true,
        ..a
    }
}

/// Whether the user has said one thing in a session, and this is it.
pub open spec fn is_only_prompt(a: AppView, id: Seq<char>, prompt: Seq<char>) -> bool {
    match app::chat_for(a, id) {
        Some(c) => match message::role_from(c.messages, MessageRole::User, 0) {
            Some(i) => text::trim(c.messages[i].content) == text::trim(prompt)
                && message::role_from(c.messages, MessageRole::User, i + 1) is None,
            None => false,
        },
        None => false,
    }
}

pub open spec fn has_auto_title(a: AppView, id: Seq<char>, prompt: Seq<char>) -> bool {
    match session::session_at(a.sessions, id) {
        Some(i) => titles::is_auto_title(a.sessions[i].title, prompt),
        None => false,
    }
}

/// A title is asked for once, for a first prompt, if there is a model for it and the session
/// has no title of the user's own.
#[verifier::opaque]
pub open spec fn title_asked(a: AppView, id: Seq<char>, prompt: Seq<char>) -> AppView {
    if a.small_model is None || a.title_generation {
        a
    } else {
        let p = text::trim(prompt);
        if p.len() > 0 && is_only_prompt(a, id, p) && has_auto_title(a, id, p) {
            app::with_effect(
                AppView { title_generation: true, ..a },
                EffectView::GenerateTitle {
                    session_id: id,
                    provider: titles::model_ref(a.small_model->0).0,
                    model: titles::model_ref(a.small_model->0).1,
                    prompt: p,
                },
            )
        } else {
            a
        }
    }
}

/// The current session with a turn begun: an empty answer that is not complete.
#[verifier::opaque]
pub open spec fn turn_begun(a: AppView, id: Seq<char>) -> AppView {
    let e = app::ensured(a, id);
    let c = app::client_of(e, id)->0;
    let b = AppView {
        chat: state::with_messages(
            a.chat,
            a.chat.messages.push(message::new_message(MessageRole::Assistant, ""@, false)),
        ),
        is_streaming: true,
        ..app::with_client(
            e,
            id,
            ClientView {
                stream: Some(
                    state::new_stream(
                        Some(a.model),
                        Some(a.provider_name),
                        a.chat.messages.len() as usize,
                        a.now,
                    ),
                ),
                tool_calls: state::no_tool_calls(),
                unread_completed: false,
                retry_status: None,
                ..c
            },
        )
    };
    app::dirtied(
        app::status_set(app::persisted(b, id), id, SessionStatus::Streaming, None),
    )
}

/// The current session with its turn handed to the agent.
#[verifier::opaque]
pub open spec fn turn_started(
    a: AppView,
    id: Seq<char>,
    prompt: Seq<char>,
    guidance: Option<Seq<char>>,
) -> AppView {
    let b = title_asked(turn_begun(a, id), id, prompt);
    let route = agents::agent_route(a.agents, a.agent, a.provider_name, a.model);
    app::with_effect(
        b,
        EffectView::StartStream {
            session_id: id,
            provider: route.0,
            model: route.1,
            agent: a.agent,
            effort: agents::agent_effort(
                a.agents,
                a.agent,
                a.reasoning.resolved(a.provider_name, a.model),
            ),
            guidance,
        },
    )
}

/// A turn is started where there is a session to start it in.
pub open spec fn started(a: AppView, prompt: Seq<char>, guidance: Option<Seq<char>>) -> AppView {
    match a.current {
        Some(id) => turn_started(a, id, prompt, guidance),
        None => a,
    }
}

/// An item put in the queue of the current session; a second `/compact` is not.
pub open spec fn queued(a: AppView, item: QueuedView) -> AppView {
    match a.current {
        Some(id) => {
            let e = app::ensured(a, id);
            let c = app::client_of(e, id)->0;
            if item is Compact && has_compact(c.queued_items) {
                e
            } else {
                app::with_client(e, id, ClientView { queued_items: c.queued_items.push(item), ..c })
            }
        },
        None => a,
    }
}

pub open spec fn has_compact(items: Seq<QueuedView>) -> bool {
    exists|i: int| 0 <= i < items.len() && #[trigger] items[i] is Compact
}

pub open spec fn has_message(items: Seq<QueuedView>) -> bool {
    exists|i: int| 0 <= i < items.len() && #[trigger] items[i] is Message
}

pub open spec fn queue_of(a: AppView, id: Seq<char>) -> Seq<QueuedView> {
    match app::client_of(a, id) {
        Some(c) => c.queued_items,
        None => Seq::empty(),
    }
}

/// A compaction asked for: not while one runs, and behind a turn that is under way.
#[verifier::opaque]
pub open spec fn compaction_asked(a: AppView, id: Seq<char>) -> AppView {
    if a.compaction is Some {
        app::toasted(a, ToastLevel::Info, "Compaction is already running"@, 3)
    } else if app::streams(a, id) {
        if a.current is Some {
            app::toasted(queued(a, QueuedView::Compact), ToastLevel::Info, "Queued /compact"@, 2)
        } else {
            a
        }
    } else {
        app::with_effect(a, EffectView::SelectForCompaction { session_id: id })
    }
}

pub open spec fn can_submit(a: AppView, id: Seq<char>) -> bool {
    app::is_current(a, id) && !app::streams(a, id) && !app::compacts(a, id) && queue_of(
        a,
        id,
    ).len() > 0
}

/// What stays queued when the leading messages, or a leading `/compact`, go out.
pub open spec fn left_queued(items: Seq<QueuedView>) -> Seq<QueuedView> {
    if queue::leading(items).len() > 0 && queue::leading_count(items) < items.len() {
        seq![QueuedView::Compact] + queue::behind_compact(items)
    } else {
        queue::behind_compact(items)
    }
}

/// The queue of a session without what goes out.
#[verifier::opaque]
pub open spec fn dequeued(a: AppView, id: Seq<char>) -> AppView {
    let c = app::client_of(a, id)->0;
    AppView {
        base_focus: BaseFocus::Chat,
        ..app::with_client(
            a,
            id,
            ClientView { queued_items: left_queued(c.queued_items), ..c },
        )
    }
}

/// What is queued in a session goes out: the messages before the first `/compact` as one
/// prompt, or else the `/compact` itself.
#[verifier::opaque]
pub open spec fn submitted(a: AppView, id: Seq<char>, guidance: Option<Seq<char>>) -> AppView {
    if !can_submit(a, id) {
        a
    } else {
        let front = queue::leading(queue_of(a, id));
        if front.len() > 0 {
            let prompt = queue::combined(front);
            started(
                user_message_added(dequeued(a, id), prompt.text, prompt.image_paths),
                prompt.text,
                guidance,
            )
        } else {
            compaction_asked(dequeued(a, id), id)
        }
    }
}

/// A session brought to the screen in the place of the current one.
#[verifier::opaque]
pub open spec fn brought_in(a: AppView, id: Seq<char>) -> AppView {
    let b = app::put_away(a);
    app::released(
        app::brought_up(AppView { current: Some(id), pending_session_title: None, ..b }, id),
    )
}

/// The home screen for an empty session, the chat for any other.
pub open spec fn focused_base(a: AppView, id: Seq<char>) -> AppView {
    AppView {
        base_focus: if !session::is_child(a.sessions, id) && a.chat.messages.len() == 0
            && !a.is_streaming {
            BaseFocus::Home
        } else {
            BaseFocus::Chat
        },
        ..a
    }
}

/// Shows a session instead of the current one, and sends out what is queued there.
#[verifier::opaque]
pub open spec fn switched(a: AppView, id: Seq<char>) -> AppView {
    let b = focused_base(brought_in(a, id), id);
    if !session::is_child(b.sessions, id) && queue_of(b, id).len() > 0 && !app::streams(b, id) {
        submitted(b, id, None)
    } else {
        b
    }
}

pub open spec fn exists_session(a: AppView, id: Seq<char>) -> bool {
    session::session_at(a.sessions, id) is Some
}

fn has_compact_item(items: &Vec<QueuedItem>) -> (r: bool)
    ensures
        r == has_compact(queue::queue_view(items@)),
{
    for i in 0..items.len()
        invariant
            forall|j: int|
                0 <= j < i ==> !(#[trigger] queue::queue_view(items@)[j] is Compact),
    {
        if !items[i].is_message() {
            assert(queue::queue_view(items@)[i as int] is Compact);
            return true;
        }
    }
    false
}

fn has_message_item(items: &Vec<QueuedItem>) -> (r: bool)
    ensures
        r == has_message(queue::queue_view(items@)),
{
    for i in 0..items.len()
        invariant
            forall|j: int|
                0 <= j < i ==> !(#[trigger] queue::queue_view(items@)[j] is Message),
    {
        if items[i].is_message() {
            assert(queue::queue_view(items@)[i as int] is Message);
            return true;
        }
    }
    false
}

impl App {
    pub fn append_user_message_to_current_session(&mut self, msg: &str, image_paths: &Vec<String>)
        ensures
            final(self)@ == user_message_added(old(self)@, msg@, text::views(image_paths@)),
    {
        reveal(user_message_added);
        let m = self.make_user_message(msg, image_paths);
        let place: Option<usize> = match &self.current {
            Some(id) => session::find_session(&self.sessions, id.as_str()),
            None => None,
        };
        match place {
            Some(i) => {
                let ghost before = self.sessions@;
                let copy = m.copy();
                let ghost said = self.sessions@[i as int].messages@;
                self.sessions[i].messages.push(copy);
                self.sessions[i].updated_at = self.now;
                proof {
                    assert(message::messages_view(said.push(copy)) =~= message::messages_view(
                        said,
                    ).push(m@));
                    assert(self.sessions@ =~= before.update(i as int, self.sessions@[i as int]));
                    app::lemma_sessions_update(before, i as int, self.sessions@[i as int]);
                }
            },
            None => {},
        }
        self.chat.add_message(m);
        self.usage_stale = true;
    }

    fn make_user_message(&self, msg: &str, image_paths: &Vec<String>) -> (r: Message)
        ensures
            r@ == user_message(self@, msg@, text::views(image_paths@)),
    {
        let mut m = Message::user(msg);
        m.local_image_paths = text::copy_strings(image_paths);
        m.agent_mode = Some(self.agent.clone());
        m.model = Some(self.model.clone());
        m.provider = Some(self.provider_name.clone());
        m
    }

    pub fn session_prompt_is_first_user_message(&self, id: &str, prompt: &str) -> (r: bool)
        ensures
            r == is_only_prompt(self@, id@, prompt@),
    {
        if self.is_active_session(id) {
            has_only_prompt(&self.chat.messages, prompt)
        } else {
            match state::find_client(&self.clients, id) {
                Some(k) => has_only_prompt(&self.clients[k].chat.messages, prompt),
                None => false,
            }
        }
    }

    pub fn session_has_auto_title_for_prompt(&self, id: &str, prompt: &str) -> (r: bool)
        ensures
            r == has_auto_title(self@, id@, prompt@),
    {
        match session::find_session(&self.sessions, id) {
            Some(i) => titles::is_auto_session_title_for_prompt(
                self.sessions[i].title.as_str(),
                prompt,
            ),
            None => false,
        }
    }

    pub fn start_session_title_generation(&mut self, id: &str, user_message: &str)
        ensures
            final(self)@ == title_asked(old(self)@, id@, user_message@),
    {
        reveal(title_asked);
        if self.title_generation {
            return ;
        }
        let model = match text::copy_opt(&self.small_model) {
            Some(model) => model,
            None => {
                return ;
            },
        };
        let prompt = text::trimmed(user_message);
        let wanted = !prompt.as_str().is_empty() && self.session_prompt_is_first_user_message(
            id,
            prompt.as_str(),
        ) && self.session_has_auto_title_for_prompt(id, prompt.as_str());
        if wanted {
            self.title_generation = true;
            let (provider, own_model) = titles::parse_model_ref(model.as_str());
            self.push_effect(
                Effect::GenerateTitle {
                    session_id: id.to_owned(),
                    provider,
                    model: own_model,
                    prompt,
                },
            );
        }
    }

    pub fn begin_turn(&mut self, id: &str)
        ensures
            final(self)@ == turn_begun(old(self)@, id@),
    {
        reveal(turn_begun);
        let k = self.ensure_session_view_state(id);
        let boundary: usize = self.chat.messages.len();
        self.is_streaming = true;
        self.chat.add_message(Message::incomplete(""));
        let stream = StreamState::new(
            Some(self.model.clone()),
            Some(self.provider_name.clone()),
            boundary,
            self.now,
        );
        let ghost before = self.clients@;
        self.clients[k].stream = Some(stream);
        self.clients[k].tool_calls = ToolCallViewState::new();
        self.clients[k].unread_completed = false;
        self.clients[k].retry_status = None;
        proof {
            assert(self.clients@ =~= before.update(k as int, self.clients@[k as int]));
            app::lemma_clients_update(before, k as int, self.clients@[k as int]);
        }
        self.persist_chat_messages_for_session(id);
        self.set_session_status(id, SessionStatus::Streaming, None);
        self.mark_sessions_dialog_live_dirty();
    }

    fn start_turn(&mut self, id: &str, prompt: &str, guidance: Option<String>)
        ensures
            final(self)@ == turn_started(old(self)@, id@, prompt@, text::opt_view(guidance)),
    {
        reveal(turn_started);
        let route = agents::primary_agent_model_provider(
            &self.agents,
            self.agent.as_str(),
            self.provider_name.as_str(),
            self.model.as_str(),
        );
        let active = self.reasoning.resolved_reasoning_effort_for_model(
            self.provider_name.as_str(),
            self.model.as_str(),
        );
        let effort = agents::primary_agent_reasoning_effort(
            &self.agents,
            self.agent.as_str(),
            active,
        );
        let agent = self.agent.clone();
        self.begin_turn(id);
        self.start_session_title_generation(id, prompt);
        self.push_effect(
            Effect::StartStream {
                session_id: id.to_owned(),
                provider: route.0,
                model: route.1,
                agent,
                effort,
                guidance,
            },
        );
    }

    /// Starts a turn of the current session; says whether there is one.
    pub fn start_llm_streaming_with_guidance(&mut self, prompt: &str, guidance: Option<String>) -> (r:
        bool)
        ensures
            r == (old(self)@.current is Some),
            final(self)@ == started(old(self)@, prompt@, text::opt_view(guidance)),
    {
        match text::copy_opt(&self.current) {
            Some(id) => {
                self.start_turn(id.as_str(), prompt, guidance);
                true
            },
            None => false,
        }
    }

    /// Queues an item for the current session; says whether there is one.
    pub fn queue_item_for_current_session(&mut self, item: QueuedItem) -> (r: bool)
        ensures
            r == (old(self)@.current is Some),
            final(self)@ == queued(old(self)@, item@),
    {
        let id = match text::copy_opt(&self.current) {
            Some(id) => id,
            None => {
                return false;
            },
        };
        let k = self.ensure_session_view_state(id.as_str());
        if !item.is_message() && has_compact_item(&self.clients[k].queued_items) {
            return true;
        }
        let ghost before = self.clients@;
        let ghost items = self.clients@[k as int].queued_items@;
        self.clients[k].queued_items.push(item);
        proof {
            assert(queue::queue_view(items.push(item)) =~= queue::queue_view(items).push(item@));
            assert(self.clients@ =~= before.update(k as int, self.clients@[k as int]));
            app::lemma_clients_update(before, k as int, self.clients@[k as int]);
        }
        true
    }

    pub fn has_queued_messages_for_session(&self, id: &str) -> (r: bool)
        ensures
            r == (queue_of(self@, id@).len() > 0),
    {
        match state::find_client(&self.clients, id) {
            Some(k) => self.clients[k].queued_items.len() > 0,
            None => false,
        }
    }

    pub fn has_queued_user_messages_for_session(&self, id: &str) -> (r: bool)
        ensures
            r == has_message(queue_of(self@, id@)),
    {
        match state::find_client(&self.clients, id) {
            Some(k) => has_message_item(&self.clients[k].queued_items),
            None => false,
        }
    }

    /// Compacts a session, or puts that off, or says why not.
    pub fn start_compact_session(&mut self, id: &str)
        ensures
            final(self)@ == compaction_asked(old(self)@, id@),
    {
        reveal(compaction_asked);
        if self.compaction.is_some() {
            self.push_toast(ToastLevel::Info, "Compaction is already running", 3);
            return ;
        }
        if self.session_has_active_stream(id) {
            if self.queue_item_for_current_session(QueuedItem::Compact) {
                self.push_toast(ToastLevel::Info, "Queued /compact", 2);
            }
            return ;
        }
        self.push_effect(Effect::SelectForCompaction { session_id: id.to_owned() });
    }

    fn take_queue(&mut self, k: usize) -> (r: Vec<QueuedItem>)
        requires
            k < old(self).clients@.len(),
        ensures
            queue::queue_view(r@) == old(self)@.clients[k as int].queued_items,
            final(self)@ == (AppView {
                clients: old(self)@.clients.update(
                    k as int,
                    ClientView { queued_items: Seq::empty(), ..old(self)@.clients[k as int] },
                ),
                ..old(self)@
            }),
            final(self).clients@.len() == old(self).clients@.len(),
    {
        let ghost before = self.clients@;
        let mut items: Vec<QueuedItem> = Vec::new();
        std::mem::swap(&mut items, &mut self.clients[k].queued_items);
        proof {
            assert(queue::queue_view(self.clients@[k as int].queued_items@) =~= Seq::<
                QueuedView,
            >::empty());
            assert(self.clients@ =~= before.update(k as int, self.clients@[k as int]));
            app::lemma_clients_update(before, k as int, self.clients@[k as int]);
        }
        items
    }

    fn put_queue(&mut self, k: usize, items: Vec<QueuedItem>)
        requires
            k < old(self).clients@.len(),
        ensures
            final(self)@ == (AppView {
                clients: old(self)@.clients.update(
                    k as int,
                    ClientView {
                        queued_items: queue::queue_view(items@),
                        ..old(self)@.clients[k as int]
                    },
                ),
                ..old(self)@
            }),
    {
        let ghost before = self.clients@;
        self.clients[k].queued_items = items;
        proof {
            assert(self.clients@ =~= before.update(k as int, self.clients@[k as int]));
            app::lemma_clients_update(before, k as int, self.clients@[k as int]);
        }
    }

    /// Takes out of the queue what goes out now.
    fn dequeue(&mut self, id: &str) -> (r: Vec<QueuedUserMessage>)
        requires
            app::client_of(old(self)@, id@) is Some,
        ensures
            queue::message_views(r@) == queue::leading(queue_of(old(self)@, id@)),
            final(self)@ == dequeued(old(self)@, id@),
    {
        reveal(dequeued);
        let k = match state::find_client(&self.clients, id) {
            Some(k) => k,
            None => {
                return Vec::new();
            },
        };
        let taken = self.take_queue(k);
        let (messages, left) = split_for_sending(taken);
        self.put_queue(k, left);
        self.base_focus = BaseFocus::Chat;
        assert(self@.clients =~= dequeued(old(self)@, id@).clients);
        messages
    }

    /// Sends out what is queued in the session on the screen; says whether anything went out.
    pub fn submit_queued_messages_for_session_with_guidance(
        &mut self,
        id: &str,
        guidance: Option<String>,
    ) -> (r: bool)
        ensures
            r == can_submit(old(self)@, id@),
            final(self)@ == submitted(old(self)@, id@, text::opt_view(guidance)),
    {
        reveal(submitted);
        if !self.is_active_session(id) || self.session_has_active_stream(id)
            || self.session_has_active_compaction(id) || !self.has_queued_messages_for_session(id) {
            return false;
        }
        let messages = self.dequeue(id);
        assert(queue::message_views(messages@).len() == messages@.len());
        if messages.len() > 0 {
            let prompt = queue::combine_queued_messages(messages);
            self.append_user_message_to_current_session(prompt.text.as_str(), &prompt.image_paths);
            self.start_llm_streaming_with_guidance(prompt.text.as_str(), guidance);
        } else {
            self.start_compact_session(id);
        }
        true
    }

    pub fn submit_queued_messages_for_session(&mut self, id: &str) -> (r: bool)
        ensures
            r == can_submit(old(self)@, id@),
            final(self)@ == submitted(old(self)@, id@, None),
    {
        self.submit_queued_messages_for_session_with_guidance(id, None)
    }

    fn bring_in(&mut self, id: &str)
        ensures
            final(self)@ == brought_in(old(self)@, id@),
    {
        reveal(brought_in);
        self.save_active_session_view_state();
        self.current = Some(id.to_owned());
        self.pending_session_title = None;
        self.load_session_view_state(id);
        self.release_render_caches_outside_current_family();
    }

    fn focus_base(&mut self, id: &str)
        ensures
            final(self)@ == focused_base(old(self)@, id@),
    {
        let child = session::has_parent(&self.sessions, id);
        self.base_focus = if !child && self.chat.messages.len() == 0 && !self.is_streaming {
            BaseFocus::Home
        } else {
            BaseFocus::Chat
        };
    }

    /// Shows another session; says whether there is one of that id.
    pub fn switch_to_session(&mut self, id: &str) -> (r: bool)
        ensures
            r == exists_session(old(self)@, id@),
            final(self)@ == if r {
                switched(old(self)@, id@)
            } else {
                old(self)@
            },
    {
        reveal(switched);
        if session::find_session(&self.sessions, id).is_none() {
            return false;
        }
        self.bring_in(id);
        self.focus_base(id);
        if !session::has_parent(&self.sessions, id) && self.has_queued_messages_for_session(id)
            && !self.session_has_active_stream(id) {
            self.submit_queued_messages_for_session(id);
        }
        true
    }
}

/// Parts a queue into what goes out and what stays.
fn split_for_sending(items: Vec<QueuedItem>) -> (r: (Vec<QueuedUserMessage>, Vec<QueuedItem>))
    ensures
        queue::message_views(r.0@) == queue::leading(queue::queue_view(items@)),
        queue::queue_view(r.1@) == left_queued(queue::queue_view(items@)),
{
    let split = queue::split_queue(items);
    let mut left = split.rest;
    assert(queue::message_views(split.messages@).len() == split.messages@.len());
    if split.messages.len() > 0 && split.compact {
        let ghost rest = left@;
        left.insert(0, QueuedItem::Compact);
        assert(queue::queue_view(left@) =~= seq![QueuedView::Compact] + queue::queue_view(rest));
    }
    (split.messages, left)
}

fn has_only_prompt(ms: &Vec<Message>, prompt: &str) -> (r: bool)
    ensures
        r == match message::role_from(message::messages_view(ms@), MessageRole::User, 0) {
            Some(i) => text::trim(message::messages_view(ms@)[i].content) == text::trim(prompt@) && message::role_from(
                message::messages_view(ms@),
                MessageRole::User,
                i + 1,
            ) is None,
            None => false,
        },
{
    let n: usize = ms.len();
    match message::first_of_role(ms, MessageRole::User, 0) {
        Some(i) => {
            let own = text::trimmed(ms[i].content.as_str());
            let asked = text::trimmed(prompt);
            text::same(own.as_str(), asked.as_str()) && message::first_of_role(
                ms,
                MessageRole::User,
                i + 1,
            ).is_none()
        },
        None => false,
    }
}

} // verus!

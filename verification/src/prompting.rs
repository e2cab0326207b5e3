//! New sessions, and what the user says in them.

use crate::agents;
use crate::app;
use crate::app::{App, AppView};
use crate::asking;
use crate::focus::{BaseFocus, OverlayFocus};
use crate::message;
use crate::session;
use crate::session::{Session, SessionView};
use crate::state;
use crate::state::{
    Chat, ClientSessionState, ClientView, Effect, EffectView, Input, SoundEvent, ToastLevel,
};
use crate::stream;
use crate::text;
use crate::titles;
use vstd::prelude::*;
use vstd::string::*;

verus! {

/// An empty home screen.
pub open spec fn screen_cleared(a: AppView) -> AppView {
    AppView {
        chat: state::cleared_chat(a.chat),
        input: state::empty_input(),
        base_focus: BaseFocus::Home,
        ..a
    }
}

/// A home screen that belongs to what is current now.
#[verifier::opaque]
pub open spec fn home_shown(a: AppView) -> AppView {
    app::with_stale_usage(app::synced(screen_cleared(a)))
}

pub open spec fn active_now(a: AppView) -> AppView {
    AppView { last_user_activity: a.now, ..a }
}

/// The title to give the next session, if it says anything.
pub open spec fn asked_title(title: Option<Seq<char>>) -> Option<Seq<char>> {
    match title {
        Some(t) => if text::trim(t).len() > 0 {
            Some(text::trim(t))
        } else {
            None
        },
        None => None,
    }
}

/// The home screen with no session; one is made when something is said.
#[verifier::opaque]
pub open spec fn blank_session(a: AppView, title: Option<Seq<char>>) -> AppView {
    let b = app::put_away(a);
    app::relisted(
        active_now(
            home_shown(
                AppView { pending_session_title: asked_title(title), current: None, ..b },
            ),
        ),
    )
}

pub open spec fn session_added(a: AppView, title: Seq<char>) -> AppView {
    AppView {
        sessions: a.sessions.push(
            session::new_session(a.next_session_id, None, title, a.workspace, a.now),
        ),
        current: Some(a.next_session_id),
        pending_session_title: None,
        ..a
    }
}

/// A new session on the screen, empty.
#[verifier::opaque]
pub open spec fn session_created(a: AppView, title: Seq<char>) -> AppView {
    let b = session_added(app::put_away(a), title);
    let id = a.next_session_id;
    app::relisted(
        active_now(
            home_shown(
                app::with_client(
                    app::ensured(b, id),
                    id,
                    state::client_of(id, state::chat_of(Seq::empty())),
                ),
            ),
        ),
    )
}

/// A session to speak in: the current one, or a new one with the title asked for, else with
/// one made of what is said.
pub open spec fn with_session(a: AppView, said: Seq<char>) -> AppView {
    if a.current is Some {
        a
    } else {
        session_created(
            a,
            match a.pending_session_title {
                Some(t) => t,
                None => titles::title_of_message(said),
            },
        )
    }
}

/// Something said in a session that is there: it is recorded, and a turn is started.
pub open spec fn spoken(a: AppView, msg: Seq<char>, images: Seq<Seq<char>>) -> AppView {
    stream::started(
        AppView {
            base_focus: BaseFocus::Chat,
            ..stream::user_message_added(a, msg, images)
        },
        msg,
        None,
    )
}

/// Something said: at home it goes to a session made for it; in the chat to the session there.
/// In a chat without a session it is recorded and the failure told.
#[verifier::opaque]
pub open spec fn message_sent(a: AppView, msg: Seq<char>, images: Seq<Seq<char>>) -> AppView {
    if msg.len() == 0 && images.len() == 0 {
        a
    } else if a.base_focus == BaseFocus::Home {
        spoken(with_session(a, msg), msg, images)
    } else {
        match a.current {
            Some(id) => spoken(app::ensured(a, id), msg, images),
            None => app::toasted(
                app::alerted(stream::user_message_added(a, msg, images), SoundEvent::Error),
                ToastLevel::Error,
                "LLM error: No active session"@,
                0,
            ),
        }
    }
}

/// An agent addressed by name.
#[derive(Debug)]
pub struct AgentMention {
    pub agent: String,
    pub prompt: String,
    pub raw: String,
}

pub struct MentionView {
    pub agent: Seq<char>,
    pub prompt: Seq<char>,
    pub raw: Seq<char>,
}

impl View for AgentMention {
    type V = MentionView;

    open spec fn view(&self) -> MentionView {
        MentionView { agent: self.agent@, prompt: self.prompt@, raw: self.raw@ }
    }
}

pub open spec fn complained(a: AppView, t: Seq<char>, seconds: u64) -> AppView {
    app::toasted(app::sounded(a, SoundEvent::Error), ToastLevel::Error, t, seconds)
}

pub open spec fn unknown_agent(a: AppView, name: Seq<char>) -> Seq<char> {
    let available = text::join(agents::names(agents::listed(a.agents, false)), ", "@);
    "Unknown agent: @"@ + name + "."@ + (if available.len() == 0 {
        ""@
    } else {
        " Available agents: "@ + available
    })
}

/// Why a mention is refused, if it is: there is no task, no such agent, one that is not shown,
/// or one that the active agent may not call on.
pub open spec fn mention_refusal(
    a: AppView,
    m: MentionView,
    images: nat,
    allowed: bool,
) -> Option<(Seq<char>, u64)> {
    if images == 0 && text::is_blank(m.prompt) {
        Some(("Usage: @"@ + m.agent + " <task>"@, 3))
    } else {
        match agents::target_at(a.agents, m.agent) {
            Some(i) => if a.agents[i].hidden {
                Some(("Agent @"@ + m.agent + " is not available for direct mention"@, 3))
            } else if !allowed {
                Some((a.agent + " cannot invoke @"@ + a.agents[i].name, 3))
            } else {
                None
            },
            None => Some((unknown_agent(a, m.agent), 4)),
        }
    }
}

/// A turn of the current session that consists in the task of an agent.
#[verifier::opaque]
pub open spec fn task_started(
    a: AppView,
    id: Seq<char>,
    target: Seq<char>,
    prompt: Seq<char>,
) -> AppView {
    app::with_effect(
        stream::turn_begun(a, id),
        EffectView::StartMention {
            session_id: id,
            provider: a.provider_name,
            model: a.model,
            agent: a.agent,
            effort: a.reasoning.resolved(a.provider_name, a.model),
            target,
            prompt,
        },
    )
}

/// A mention that is not refused.
#[verifier::opaque]
pub open spec fn mention_taken(
    a: AppView,
    target: Seq<char>,
    m: MentionView,
    images: Seq<Seq<char>>,
) -> AppView {
    let b = if a.base_focus == BaseFocus::Home || a.current is Some {
        with_session(a, m.raw)
    } else {
        session_created(a, titles::title_of_message(m.raw))
    };
    let c = AppView {
        base_focus: BaseFocus::Chat,
        ..stream::user_message_added(b, m.raw, images)
    };
    match c.current {
        Some(id) => task_started(c, id, target, m.prompt),
        None => app::toasted(c, ToastLevel::Error, "Agent error: No active session"@, 0),
    }
}

pub open spec fn mentioned(
    a: AppView,
    m: MentionView,
    images: Seq<Seq<char>>,
    allowed: bool,
) -> AppView {
    match mention_refusal(a, m, images.len(), allowed) {
        Some(why) => complained(a, why.0, why.1),
        None => mention_taken(
            a,
            a.agents[agents::target_at(a.agents, m.agent)->0].name,
            m,
            images,
        ),
    }
}

pub open spec fn with_agent(a: AppView, agent: Option<Seq<char>>) -> AppView {
    match agent {
        Some(name) => if text::is_blank(name) {
            a
        } else {
            AppView { agent: name, ..a }
        },
        None => a,
    }
}

pub open spec fn with_model(a: AppView, model: Option<Seq<char>>) -> AppView {
    match model {
        Some(m) => if text::is_blank(m) {
            a
        } else {
            AppView {
                provider_name: titles::model_ref(m).0,
                model: titles::model_ref(m).1,
                ..a
            }
        },
        None => a,
    }
}

/// The agent and the model that a command brings along.
pub open spec fn with_override(
    a: AppView,
    agent: Option<Seq<char>>,
    model: Option<Seq<char>>,
) -> AppView {
    with_model(with_agent(a, agent), model)
}

/// The prompt of a command of the user's own: sent with its agent and model, which then make
/// way for those of before.
#[verifier::opaque]
pub open spec fn custom_prompt_run(
    a: AppView,
    prompt: Seq<char>,
    agent: Option<Seq<char>>,
    model: Option<Seq<char>>,
) -> AppView {
    if text::is_blank(prompt) {
        a
    } else if a.is_streaming {
        complained(a, "Cannot run a custom command while streaming"@, 3)
    } else {
        AppView {
            agent: a.agent,
            model: a.model,
            provider_name: a.provider_name,
            ..message_sent(with_override(a, agent, model), prompt, Seq::empty())
        }
    }
}

fn title_asked_for(title: Option<&str>) -> (r: Option<String>)
    ensures
        text::opt_view(r) == asked_title(
            match title {
                Some(t) => Some(t@),
                None => None,
            },
        ),
{
    match title {
        Some(t) => {
            let own = text::trimmed(t);
            if own.as_str().is_empty() {
                None
            } else {
                Some(own)
            }
        },
        None => None,
    }
}

impl App {
    fn clear_screen(&mut self)
        ensures
            final(self)@ == screen_cleared(old(self)@),
    {
        self.chat.clear();
        self.input.clear();
        self.base_focus = BaseFocus::Home;
    }

    pub fn show_home(&mut self)
        ensures
            final(self)@ == home_shown(old(self)@),
    {
        reveal(home_shown);
        self.clear_screen();
        self.sync_active_streaming_flag();
        self.usage_stale = true;
    }

    /// Leaves the current session for an empty home screen.
    pub fn start_blank_session(&mut self, title: Option<&str>)
        ensures
            final(self)@ == blank_session(
                old(self)@,
                match title {
                    Some(t) => Some(t@),
                    None => None,
                },
            ),
    {
        reveal(blank_session);
        self.save_active_session_view_state();
        self.pending_session_title = title_asked_for(title);
        self.current = None;
        self.show_home();
        self.note_user_activity();
        self.refresh_sessions_dialog();
    }

    fn add_session(&mut self, title: &str)
        ensures
            final(self)@ == session_added(old(self)@, title@),
    {
        let id = self.next_session_id.clone();
        let made = Session::new(id.as_str(), None, title, &self.workspace, self.now);
        let ghost before = self.sessions@;
        self.sessions.push(made);
        assert(session::sessions_view(self.sessions@) =~= session::sessions_view(before).push(
            made@,
        ));
        self.current = Some(id);
        self.pending_session_title = None;
    }

    /// Makes a session and shows it.
    pub fn create_new_session(&mut self, title: &str) -> (r: String)
        ensures
            r@ == old(self)@.next_session_id,
            final(self)@ == session_created(old(self)@, title@),
    {
        reveal(session_created);
        let id = self.next_session_id.clone();
        self.save_active_session_view_state();
        proof {
            reveal(app::put_away);
        }
        self.add_session(title);
        let k = self.ensure_session_view_state(id.as_str());
        let ghost before = self.clients@;
        self.clients[k] = ClientSessionState::with_chat(id.clone(), Chat::new());
        proof {
            assert(self.clients@ =~= before.update(k as int, self.clients@[k as int]));
            app::lemma_clients_update(before, k as int, self.clients@[k as int]);
        }
        self.show_home();
        self.note_user_activity();
        self.refresh_sessions_dialog();
        id
    }

    fn ensure_session(&mut self, said: &str)
        ensures
            final(self)@ == with_session(old(self)@, said@),
    {
        if self.current.is_some() {
            return ;
        }
        let title = match text::copy_opt(&self.pending_session_title) {
            Some(t) => t,
            None => titles::generate_title_from_message(said),
        };
        self.create_new_session(title.as_str());
    }

    fn speak(&mut self, msg: &str, image_paths: &Vec<String>)
        ensures
            final(self)@ == spoken(old(self)@, msg@, text::views(image_paths@)),
    {
        self.append_user_message_to_current_session(msg, image_paths);
        self.base_focus = BaseFocus::Chat;
        self.start_llm_streaming_with_guidance(msg, None);
    }

    pub fn handle_message_input_with_images(&mut self, msg: &str, image_paths: &Vec<String>)
        ensures
            final(self)@ == message_sent(old(self)@, msg@, text::views(image_paths@)),
            old(self)@.current is Some && msg@.len() > 0
                && old(self)@.chat.messages.len() < usize::MAX - 1 ==> asking::is_asked_to_answer(
                old(self)@,
                final(self)@.effects.last(),
                old(self)@.current->0,
                None,
            ) && asking::is_said(
                old(self)@,
                final(self)@.chat.messages[old(self)@.chat.messages.len() as int],
                msg@,
                text::views(image_paths@),
            ),
    {
        proof {
            if let Some(id) = self@.current {
                if msg@.len() > 0 && self@.chat.messages.len() < usize::MAX - 1 {
                    asking::law_prompts_go_to_the_chosen_model(
                        self@,
                        id,
                        msg@,
                        text::views(image_paths@),
                    );
                }
            }
        }
        reveal(message_sent);
        assert(text::views(image_paths@).len() == image_paths@.len());
        if msg.is_empty() && image_paths.len() == 0 {
            return ;
        }
        if self.base_focus == BaseFocus::Home {
            self.ensure_session(msg);
            self.speak(msg, image_paths);
            return ;
        }
        match text::copy_opt(&self.current) {
            Some(id) => {
                self.ensure_session_view_state(id.as_str());
                self.speak(msg, image_paths);
            },
            None => {
                self.append_user_message_to_current_session(msg, image_paths);
                self.alert(SoundEvent::Error);
                self.push_toast(ToastLevel::Error, "LLM error: No active session", 0);
            },
        }
    }

    pub fn complain(&mut self, t: &str, seconds: u64)
        ensures
            final(self)@ == complained(old(self)@, t@, seconds),
    {
        self.play_sound_event(SoundEvent::Error);
        self.push_toast(ToastLevel::Error, t, seconds);
    }

    fn start_agent_mention_task(&mut self, id: &str, target: &str, prompt: &str)
        ensures
            final(self)@ == task_started(old(self)@, id@, target@, prompt@),
    {
        reveal(task_started);
        let effort = self.reasoning.resolved_reasoning_effort_for_model(
            self.provider_name.as_str(),
            self.model.as_str(),
        );
        let provider = self.provider_name.clone();
        let model = self.model.clone();
        let agent = self.agent.clone();
        self.begin_turn(id);
        self.push_effect(
            Effect::StartMention {
                session_id: id.to_owned(),
                provider,
                model,
                agent,
                effort,
                target: target.to_owned(),
                prompt: prompt.to_owned(),
            },
        );
    }

    fn take_mention(&mut self, target: &str, mention: &AgentMention, image_paths: &Vec<String>)
        ensures
            final(self)@ == mention_taken(
                old(self)@,
                target@,
                mention@,
                text::views(image_paths@),
            ),
    {
        reveal(mention_taken);
        if self.base_focus == BaseFocus::Home || self.current.is_some() {
            self.ensure_session(mention.raw.as_str());
        } else {
            let title = titles::generate_title_from_message(mention.raw.as_str());
            self.create_new_session(title.as_str());
        }
        self.append_user_message_to_current_session(mention.raw.as_str(), image_paths);
        self.base_focus = BaseFocus::Chat;
        match text::copy_opt(&self.current) {
            Some(id) => {
                self.start_agent_mention_task(id.as_str(), target, mention.prompt.as_str());
            },
            None => {
                self.push_toast(ToastLevel::Error, "Agent error: No active session", 0);
            },
        }
    }

    fn refuse_mention(&self, mention: &AgentMention, images: usize, allowed: bool) -> (r: Option<(
        String,
        u64,
    )>)
        ensures
            mention_refusal(self@, mention@, images as nat, allowed) == match r {
                Some(why) => Some((why.0@, why.1)),
                None => None,
            },
    {
        if images == 0 && text::blank(mention.prompt.as_str()) {
            let mut t = "Usage: @".to_string();
            t.append(mention.agent.as_str());
            t.append(" <task>");
            return Some((t, 3));
        }
        match agents::task_target(&self.agents, mention.agent.as_str()) {
            Some(i) => {
                assert(self@.agents[i as int] == self.agents@[i as int]@);
                if self.agents[i].hidden {
                    let mut t = "Agent @".to_string();
                    t.append(mention.agent.as_str());
                    t.append(" is not available for direct mention");
                    return Some((t, 3));
                }
                if !allowed {
                    let mut t = self.agent.clone();
                    t.append(" cannot invoke @");
                    t.append(self.agents[i].name.as_str());
                    return Some((t, 3));
                }
                None
            },
            None => {
                let names = agents::visible_agent_names_for_mentions(&self.agents);
                let available = text::join_strings(&names, ", ");
                let mut t = "Unknown agent: @".to_string();
                t.append(mention.agent.as_str());
                t.append(".");
                let mut tail = String::new();
                if available.as_str().is_empty() {
                    tail.append("");
                    assert(tail@ =~= ""@);
                } else {
                    tail.append(" Available agents: ");
                    tail.append(available.as_str());
                    assert(tail@ =~= " Available agents: "@ + available@);
                }
                t.append(tail.as_str());
                Some((t, 4))
            },
        }
    }

    /// Gives an agent its task, or says why not. Whether the active agent may call on the other
    /// is for the caller to say.
    pub fn handle_agent_mention_input(
        &mut self,
        mention: &AgentMention,
        image_paths: &Vec<String>,
        allowed: bool,
    )
        ensures
            final(self)@ == mentioned(
                old(self)@,
                mention@,
                text::views(image_paths@),
                allowed,
            ),
    {
        assert(text::views(image_paths@).len() == image_paths@.len());
        match self.refuse_mention(mention, image_paths.len(), allowed) {
            Some((t, seconds)) => {
                self.complain(t.as_str(), seconds);
            },
            None => {
                match agents::task_target(&self.agents, mention.agent.as_str()) {
                    Some(i) => {
                        let target = self.agents[i].name.clone();
                        assert(self@.agents[i as int] == self.agents@[i as int]@);
                        self.take_mention(target.as_str(), mention, image_paths);
                    },
                    None => {},
                }
            },
        }
    }

    fn override_agent(&mut self, agent: &Option<String>)
        ensures
            final(self)@ == with_agent(old(self)@, text::opt_view(*agent)),
    {
        match agent {
            Some(name) => {
                if !text::blank(name.as_str()) {
                    self.agent = name.clone();
                }
            },
            None => {},
        }
    }

    fn override_model(&mut self, model: &Option<String>)
        ensures
            final(self)@ == with_model(old(self)@, text::opt_view(*model)),
    {
        match model {
            Some(m) => {
                if !text::blank(m.as_str()) {
                    let (provider, id) = titles::parse_model_ref(m.as_str());
                    self.provider_name = provider;
                    self.model = id;
                }
            },
            None => {},
        }
    }

    pub fn run_custom_command_prompt(
        &mut self,
        prompt: &str,
        agent: Option<String>,
        model: Option<String>,
    )
        ensures
            final(self)@ == custom_prompt_run(
                old(self)@,
                prompt@,
                text::opt_view(agent),
                text::opt_view(model),
            ),
    {
        reveal(custom_prompt_run);
        if text::blank(prompt) {
            return ;
        }
        if self.is_streaming {
            self.complain("Cannot run a custom command while streaming", 3);
            return ;
        }
        let own_agent = self.agent.clone();
        let own_model = self.model.clone();
        let own_provider = self.provider_name.clone();
        self.override_agent(&agent);
        self.override_model(&model);
        let none: Vec<String> = Vec::new();
        assert(text::views(none@) =~= Seq::<Seq<char>>::empty());
        self.handle_message_input_with_images(prompt, &none);
        self.agent = own_agent;
        self.model = own_model;
        self.provider_name = own_provider;
    }
}

/// Things to ask for.
pub open spec fn hint(i: int) -> Seq<char> {
    if i == 0 {
        "Fix a TODO in the codebase"@
    } else if i == 1 {
        "What is the tech stack of this project?"@
    } else if i == 2 {
        "Write unit tests for this module"@
    } else if i == 3 {
        "Refactor this function for better performance"@
    } else if i == 4 {
        "Add error handling to this code"@
    } else if i == 5 {
        "Explain how this code works"@
    } else if i == 6 {
        "Find and fix a bug in this module"@
    } else if i == 7 {
        "Add documentation to this function"@
    } else if i == 8 {
        "Create a new feature for X"@
    } else if i == 9 {
        "Optimize this database query"@
    } else if i == 10 {
        "Add type hints to this code"@
    } else {
        "Implement caching for this endpoint"@
    }
}

/// What an empty prompt says: one of the things to ask for, picked by the moment.
pub open spec fn placeholder_at(moment: int) -> Seq<char> {
    "Ask anything... \""@ + hint(moment % 12) + "\""@
}

fn pick_hint(i: u64) -> (r: &'static str)
    requires
        i < 12,
    ensures
        r@ == hint(i as int),
{
    if i == 0 {
        "Fix a TODO in the codebase"
    } else if i == 1 {
        "What is the tech stack of this project?"
    } else if i == 2 {
        "Write unit tests for this module"
    } else if i == 3 {
        "Refactor this function for better performance"
    } else if i == 4 {
        "Add error handling to this code"
    } else if i == 5 {
        "Explain how this code works"
    } else if i == 6 {
        "Find and fix a bug in this module"
    } else if i == 7 {
        "Add documentation to this function"
    } else if i == 8 {
        "Create a new feature for X"
    } else if i == 9 {
        "Optimize this database query"
    } else if i == 10 {
        "Add type hints to this code"
    } else {
        "Implement caching for this endpoint"
    }
}

/// What an empty prompt says at a moment.
pub fn placeholder(moment: u64) -> (r: String)
    ensures
        r@ == placeholder_at(moment as int),
{
    let mut t = "Ask anything... \"".to_string();
    t.append(pick_hint(moment % 12));
    t.append("\"");
    t
}

} // verus!

//! Moving between a session and the sessions of its agents.

use crate::agents;
use crate::app;
use crate::app::{App, AppView};
use crate::dialogs;
use crate::focus::BaseFocus;
use crate::message;
use crate::session;
use crate::session::SessionView;
use crate::state;
use crate::state::{ClientView, StreamView};
use crate::stream;
use crate::text;
use crate::titles;
use vstd::prelude::*;
use vstd::string::*;

verus! {

/// Whether the current session is that of an agent at work for another.
pub open spec fn in_child(a: AppView) -> bool {
    match a.current {
        Some(id) => session::is_child(a.sessions, id),
        None => false,
    }
}

/// The place after or before `k` among `n`, round and round.
pub open spec fn step(k: int, n: int, forward: bool) -> int {
    if forward {
        if k + 1 < n {
            k + 1
        } else {
            0
        }
    } else if k > 0 {
        k - 1
    } else {
        n - 1
    }
}

/// The sessions in the family of session `i`, the first one aside.
pub open spec fn kids_of(s: Seq<SessionView>, i: int) -> Seq<int> {
    session::descendants(s, session::root_at(s, i))
}

/// The session after or before `i` in its family.
pub open spec fn sibling(s: Seq<SessionView>, i: int, forward: bool) -> Option<int> {
    let kids = kids_of(s, i);
    if kids.len() <= 1 || !kids.contains(i) {
        None
    } else {
        Some(kids[step(kids.index_of(i), kids.len() as int, forward)])
    }
}

pub open spec fn latest_child(s: Seq<SessionView>, i: int) -> Option<int> {
    let kids = kids_of(s, i);
    if kids.len() == 0 {
        None
    } else {
        Some(kids.last())
    }
}

/// The session at the top of the family, if that is another.
pub open spec fn top_of(s: Seq<SessionView>, i: int) -> Option<int> {
    let root = session::root_at(s, i);
    if s[root].id == s[i].id {
        None
    } else {
        Some(root)
    }
}

/// Shows the session at a place, if there is one.
pub open spec fn gone_to(a: AppView, place: Option<int>) -> AppView {
    match place {
        Some(i) => stream::switched(a, a.sessions[i].id),
        None => a,
    }
}

pub open spec fn target_sibling(a: AppView, forward: bool) -> Option<int> {
    match dialogs::current_place(a) {
        Some(i) => sibling(a.sessions, i, forward),
        None => None,
    }
}

pub open spec fn target_child(a: AppView) -> Option<int> {
    match dialogs::current_place(a) {
        Some(i) => latest_child(a.sessions, i),
        None => None,
    }
}

pub open spec fn target_parent(a: AppView) -> Option<int> {
    match dialogs::current_place(a) {
        Some(i) => top_of(a.sessions, i),
        None => None,
    }
}

fn place_among(kids: &Vec<usize>, i: usize) -> (r: Option<usize>)
    requires
        session::places(kids@).no_duplicates(),
    ensures
        match r {
            Some(k) => k < kids@.len() && session::places(kids@).contains(i as int)
                && session::places(kids@).index_of(i as int) == k,
            None => !session::places(kids@).contains(i as int),
        },
{
    let ghost all = session::places(kids@);
    for k in 0..kids.len()
        invariant
            all == session::places(kids@),
            all.no_duplicates(),
            forall|j: int| 0 <= j < k ==> #[trigger] all[j] != i as int,
    {
        if kids[k] == i {
            assert(all[k as int] == i as int);
            assert(all.index_of(i as int) == k as int);
            return Some(k);
        }
    }
    None
}

impl App {
    pub fn is_subagent_session_active(&self) -> (r: bool)
        ensures
            r == in_child(self@),
    {
        match &self.current {
            Some(id) => session::has_parent(&self.sessions, id.as_str()),
            None => false,
        }
    }

    pub fn should_handle_child_session_arrow(&self) -> (r: bool)
        ensures
            r == (self@.base_focus == BaseFocus::Chat && in_child(self@)),
    {
        self.base_focus == BaseFocus::Chat && self.is_subagent_session_active()
    }

    fn go_to(&mut self, place: Option<usize>) -> (r: bool)
        requires
            place matches Some(i) ==> i < old(self).sessions@.len(),
        ensures
            r == (place is Some),
            final(self)@ == gone_to(
                old(self)@,
                match place {
                    Some(i) => Some(i as int),
                    None => None,
                },
            ),
    {
        match place {
            Some(i) => {
                let id = self.sessions[i].id.clone();
                proof {
                    assert(self@.sessions[i as int].id == id@);
                    lemma_id_is_found(self@.sessions, i as int, 0);
                }
                self.switch_to_session(id.as_str())
            },
            None => false,
        }
    }

    fn find_sibling(&self, forward: bool) -> (r: Option<usize>)
        ensures
            match r {
                Some(i) => i < self.sessions@.len() && target_sibling(self@, forward) == Some(
                    i as int,
                ),
                None => target_sibling(self@, forward) is None,
            },
    {
        let i = match self.find_current_session() {
            Some(i) => i,
            None => {
                return None;
            },
        };
        let root = session::find_root(&self.sessions, i);
        let kids = session::descendant_sessions(&self.sessions, root);
        let n: usize = kids.len();
        proof {
            session::lemma_descendants(self@.sessions, root as int, self@.sessions.len() as int);
            assert(session::places(kids@).len() == n);
        }
        if n <= 1 {
            return None;
        }
        match place_among(&kids, i) {
            Some(k) => {
                let next: usize = if forward {
                    if k + 1 < n {
                        k + 1
                    } else {
                        0
                    }
                } else if k > 0 {
                    k - 1
                } else {
                    n - 1
                };
                assert(session::places(kids@)[next as int] == kids@[next as int] as int);
                Some(kids[next])
            },
            None => None,
        }
    }

    /// Shows the next or the previous session of the family.
    pub fn switch_child_session(&mut self, forward: bool) -> (r: bool)
        ensures
            r == (target_sibling(old(self)@, forward) is Some),
            final(self)@ == gone_to(old(self)@, target_sibling(old(self)@, forward)),
    {
        let place = self.find_sibling(forward);
        self.go_to(place)
    }

    fn find_latest_child(&self) -> (r: Option<usize>)
        ensures
            match r {
                Some(i) => i < self.sessions@.len() && target_child(self@) == Some(i as int),
                None => target_child(self@) is None,
            },
    {
        let i = match self.find_current_session() {
            Some(i) => i,
            None => {
                return None;
            },
        };
        let root = session::find_root(&self.sessions, i);
        let kids = session::descendant_sessions(&self.sessions, root);
        let n: usize = kids.len();
        assert(session::places(kids@).len() == n);
        if n == 0 {
            None
        } else {
            assert(session::places(kids@)[n - 1] == kids@[n - 1] as int);
            Some(kids[n - 1])
        }
    }

    pub fn switch_to_latest_child_session(&mut self) -> (r: bool)
        ensures
            r == (target_child(old(self)@) is Some),
            final(self)@ == gone_to(old(self)@, target_child(old(self)@)),
    {
        let place = self.find_latest_child();
        self.go_to(place)
    }

    fn find_top(&self) -> (r: Option<usize>)
        ensures
            match r {
                Some(i) => i < self.sessions@.len() && target_parent(self@) == Some(i as int),
                None => target_parent(self@) is None,
            },
    {
        let i = match self.find_current_session() {
            Some(i) => i,
            None => {
                return None;
            },
        };
        let root = session::find_root(&self.sessions, i);
        assert(self@.sessions[root as int] == self.sessions@[root as int]@);
        if text::same(self.sessions[root].id.as_str(), self.sessions[i].id.as_str()) {
            None
        } else {
            Some(root)
        }
    }

    pub fn switch_to_parent_session(&mut self) -> (r: bool)
        ensures
            r == (target_parent(old(self)@) is Some),
            final(self)@ == gone_to(old(self)@, target_parent(old(self)@)),
    {
        let place = self.find_top();
        self.go_to(place)
    }
}

proof fn lemma_id_is_found(s: Seq<SessionView>, i: int, from: int)
    requires
        0 <= from <= i < s.len(),
    ensures
        session::session_from(s, s[i].id, from) is Some,
    decreases i - from,
{
    if from < i && s[from].id != s[i].id {
        lemma_id_is_found(s, i, from + 1);
    }
}

/// Going on and going back in a family of sessions undo each other.
pub proof fn law_siblings_go_round(s: Seq<SessionView>, i: int, forward: bool)
    requires
        0 <= i < s.len(),
        sibling(s, i, forward) is Some,
    ensures
        sibling(s, sibling(s, i, forward)->0, !forward) == Some(i),
{
    let kids = kids_of(s, i);
    let root = session::root_at(s, i);
    session::lemma_root_at(s, i);
    session::lemma_descendants(s, root, s.len() as int);
    let k = kids.index_of(i);
    let n = kids.len() as int;
    let m = step(k, n, forward);
    let j = kids[m];
    assert(0 <= k < n && kids[k] == i);
    assert(session::root_at(s, j) == root);
    assert(kids.contains(j));
    assert(kids.index_of(j) == m);
    assert(step(m, n, !forward) == k);
}

/// The model that answers in a session now.
pub open spec fn stream_model(a: AppView, id: Seq<char>) -> Option<Seq<char>> {
    match app::client_of(a, id) {
        Some(c) => match named_model(c.stream) {
            Some(m) => Some(m),
            None => named_model(c.external_stream),
        },
        None => None,
    }
}

pub open spec fn named_model(s: Option<StreamView>) -> Option<Seq<char>> {
    match s {
        Some(x) => x.model,
        None => None,
    }
}

pub open spec fn or_else(a: Option<Seq<char>>, b: Option<Seq<char>>) -> Option<Seq<char>> {
    match a {
        Some(x) => Some(x),
        None => b,
    }
}

pub open spec fn or_text(a: Option<Seq<char>>, b: Seq<char>) -> Seq<char> {
    match a {
        Some(x) => x,
        None => b,
    }
}

/// The agent that the messages of a session tell of: those on the screen before those saved.
pub open spec fn shown_agent(a: AppView, id: Seq<char>) -> Option<Seq<char>> {
    or_else(
        match app::client_of(a, id) {
            Some(c) => message::not_blank(message::agent_mode_from(c.chat.messages, 0)),
            None => None,
        },
        match session::session_at(a.sessions, id) {
            Some(i) => message::not_blank(message::agent_mode_from(a.sessions[i].messages, 0)),
            None => None,
        },
    )
}

/// The model to show for a session: the one that answers, else the last that did.
pub open spec fn shown_model(a: AppView, id: Seq<char>) -> Option<Seq<char>> {
    or_else(
        stream_model(a, id),
        or_else(
            match app::client_of(a, id) {
                Some(c) => message::not_blank(
                    message::model_before(c.chat.messages, c.chat.messages.len() as int),
                ),
                None => None,
            },
            match session::session_at(a.sessions, id) {
                Some(i) => message::not_blank(
                    message::model_before(
                        a.sessions[i].messages,
                        a.sessions[i].messages.len() as int,
                    ),
                ),
                None => None,
            },
        ),
    )
}

/// The agent and the model to show for the current session.
pub open spec fn shown_now(a: AppView) -> (Seq<char>, Seq<char>) {
    match a.current {
        Some(id) => if session::is_child(a.sessions, id) {
            (or_text(shown_agent(a, id), a.agent), or_text(shown_model(a, id), a.model))
        } else {
            (
                a.agent,
                or_text(
                    stream_model(a, id),
                    agents::agent_route(a.agents, a.agent, a.provider_name, a.model).1,
                ),
            )
        },
        None => (a.agent, a.model),
    }
}

fn first_of(a: Option<String>, b: Option<String>) -> (r: Option<String>)
    ensures
        text::opt_view(r) == or_else(text::opt_view(a), text::opt_view(b)),
{
    match a {
        Some(x) => Some(x),
        None => b,
    }
}

fn text_or(a: Option<String>, b: &str) -> (r: String)
    ensures
        r@ == or_text(text::opt_view(a), b@),
{
    match a {
        Some(x) => x,
        None => b.to_owned(),
    }
}

impl App {
    pub fn session_active_stream_model(&self, id: &str) -> (r: Option<String>)
        ensures
            text::opt_view(r) == stream_model(self@, id@),
    {
        match state::find_client(&self.clients, id) {
            Some(k) => {
                let own = match &self.clients[k].stream {
                    Some(s) => text::copy_opt(&s.model),
                    None => None,
                };
                let other = match &self.clients[k].external_stream {
                    Some(s) => text::copy_opt(&s.model),
                    None => None,
                };
                assert(self@.clients[k as int] == self.clients@[k as int]@);
                first_of(own, other)
            },
            None => None,
        }
    }

    fn agent_told(&self, id: &str) -> (r: Option<String>)
        ensures
            text::opt_view(r) == shown_agent(self@, id@),
    {
        let own = match state::find_client(&self.clients, id) {
            Some(k) => {
                assert(self@.clients[k as int] == self.clients@[k as int]@);
                message::first_agent_mode(&self.clients[k].chat.messages)
            },
            None => None,
        };
        let saved = match session::find_session(&self.sessions, id) {
            Some(i) => message::first_agent_mode(&self.sessions[i].messages),
            None => None,
        };
        first_of(own, saved)
    }

    fn model_told(&self, id: &str) -> (r: Option<String>)
        ensures
            text::opt_view(r) == shown_model(self@, id@),
    {
        let own = match state::find_client(&self.clients, id) {
            Some(k) => {
                assert(self@.clients[k as int] == self.clients@[k as int]@);
                message::latest_message_model(&self.clients[k].chat.messages)
            },
            None => None,
        };
        let saved = match session::find_session(&self.sessions, id) {
            Some(i) => message::latest_message_model(&self.sessions[i].messages),
            None => None,
        };
        first_of(self.session_active_stream_model(id), first_of(own, saved))
    }

    pub fn session_model_for_display(&self, id: &str, fallback: &str) -> (r: String)
        ensures
            r@ == or_text(shown_model(self@, id@), fallback@),
    {
        text_or(self.model_told(id), fallback)
    }

    pub fn session_agent_model_for_display(
        &self,
        id: &str,
        fallback_agent: &str,
        fallback_model: &str,
    ) -> (r: (String, String))
        ensures
            r.0@ == or_text(shown_agent(self@, id@), fallback_agent@),
            r.1@ == or_text(shown_model(self@, id@), fallback_model@),
    {
        (
            text_or(self.agent_told(id), fallback_agent),
            self.session_model_for_display(id, fallback_model),
        )
    }

    pub fn active_primary_agent_model_provider(&self) -> (r: (String, String))
        ensures
            (r.0@, r.1@) == agents::agent_route(
                self@.agents,
                self@.agent,
                self@.provider_name,
                self@.model,
            ),
    {
        agents::primary_agent_model_provider(
            &self.agents,
            self.agent.as_str(),
            self.provider_name.as_str(),
            self.model.as_str(),
        )
    }

    pub fn current_session_agent_model_for_display(&self) -> (r: (String, String))
        ensures
            (r.0@, r.1@) == shown_now(self@),
    {
        match &self.current {
            Some(id) => if session::has_parent(&self.sessions, id.as_str()) {
                self.session_agent_model_for_display(
                    id.as_str(),
                    self.agent.as_str(),
                    self.model.as_str(),
                )
            } else {
                let (_, configured) = self.active_primary_agent_model_provider();
                (
                    self.agent.clone(),
                    text_or(self.session_active_stream_model(id.as_str()), configured.as_str()),
                )
            },
            None => (self.agent.clone(), self.model.clone()),
        }
    }
}

/// A tab over the chat, for a session of the family.
#[derive(Debug)]
pub struct SubagentTab {
    pub session_id: String,
    pub label: String,
    pub agent: String,
    pub model: String,
    pub active: bool,
    pub running: bool,
}

pub struct TabView {
    pub session_id: Seq<char>,
    pub label: Seq<char>,
    pub agent: Seq<char>,
    pub model: Seq<char>,
    pub active: bool,
    pub running: bool,
}

impl View for SubagentTab {
    type V = TabView;

    open spec fn view(&self) -> TabView {
        TabView {
            session_id: self.session_id@,
            label: self.label@,
            agent: self.agent@,
            model: self.model@,
            active: self.active,
            running: self.running,
        }
    }
}

#[derive(Debug)]
pub struct SubagentTabs {
    pub root_session_id: String,
    pub is_child_session: bool,
    pub tabs: Vec<SubagentTab>,
}

pub struct TabsView {
    pub root_session_id: Seq<char>,
    pub is_child_session: bool,
    pub tabs: Seq<TabView>,
}

impl View for SubagentTabs {
    type V = TabsView;

    open spec fn view(&self) -> TabsView {
        TabsView {
            root_session_id: self.root_session_id@,
            is_child_session: self.is_child_session,
            tabs: tab_views(self.tabs@),
        }
    }
}

pub open spec fn tab_views(v: Seq<SubagentTab>) -> Seq<TabView> {
    v.map_values(|t: SubagentTab| t@)
}

pub open spec fn is_running(a: AppView, i: int) -> bool {
    a.sessions[i].status.active() || app::streams(a, a.sessions[i].id)
}

pub open spec fn main_tab(a: AppView, root: int, current: Seq<char>) -> TabView {
    TabView {
        session_id: a.sessions[root].id,
        label: "main"@,
        agent: a.agent,
        model: or_text(stream_model(a, a.sessions[root].id), a.model),
        active: current == a.sessions[root].id,
        running: is_running(a, root),
    }
}

pub open spec fn child_tab(a: AppView, i: int, current: Seq<char>) -> TabView {
    let id = a.sessions[i].id;
    TabView {
        session_id: id,
        label: titles::tab_label(a.sessions[i].title, id),
        agent: or_text(shown_agent(a, id), "Subagent"@),
        model: or_text(shown_model(a, id), a.model),
        active: current == id,
        running: is_running(a, i),
    }
}

pub open spec fn child_tabs(a: AppView, kids: Seq<int>, current: Seq<char>) -> Seq<TabView> {
    kids.map_values(|i: int| child_tab(a, i, current))
}

/// The tabs of the family of the current session: the first session, then its agents' in the
/// order in which they were made. A session without agents has no tabs.
pub open spec fn tabs_of(a: AppView) -> Option<TabsView> {
    match dialogs::current_place(a) {
        Some(i) => {
            let root = session::root_at(a.sessions, i);
            let kids = session::descendants(a.sessions, root);
            if kids.len() == 0 {
                None
            } else {
                Some(
                    TabsView {
                        root_session_id: a.sessions[root].id,
                        is_child_session: a.sessions[i].id != a.sessions[root].id,
                        tabs: seq![main_tab(a, root, a.sessions[i].id)] + child_tabs(
                            a,
                            kids,
                            a.sessions[i].id,
                        ),
                    },
                )
            }
        },
        None => None,
    }
}

impl App {
    fn session_is_running(&self, i: usize) -> (r: bool)
        requires
            i < self.sessions@.len(),
        ensures
            r == is_running(self@, i as int),
    {
        assert(self@.sessions[i as int] == self.sessions@[i as int]@);
        self.sessions[i].status.is_active() || self.session_has_active_stream(
            self.sessions[i].id.as_str(),
        )
    }

    fn make_main_tab(&self, root: usize, current: &str) -> (r: SubagentTab)
        requires
            root < self.sessions@.len(),
        ensures
            r@ == main_tab(self@, root as int, current@),
    {
        assert(self@.sessions[root as int] == self.sessions@[root as int]@);
        let id = self.sessions[root].id.clone();
        SubagentTab {
            label: "main".to_string(),
            agent: self.agent.clone(),
            model: text_or(self.session_active_stream_model(id.as_str()), self.model.as_str()),
            active: text::same(current, id.as_str()),
            running: self.session_is_running(root),
            session_id: id,
        }
    }

    fn make_child_tab(&self, i: usize, current: &str) -> (r: SubagentTab)
        requires
            i < self.sessions@.len(),
        ensures
            r@ == child_tab(self@, i as int, current@),
    {
        assert(self@.sessions[i as int] == self.sessions@[i as int]@);
        let id = self.sessions[i].id.clone();
        let (agent, model) = self.session_agent_model_for_display(
            id.as_str(),
            "Subagent",
            self.model.as_str(),
        );
        SubagentTab {
            label: titles::subagent_tab_label(self.sessions[i].title.as_str(), id.as_str()),
            agent,
            model,
            active: text::same(current, id.as_str()),
            running: self.session_is_running(i),
            session_id: id,
        }
    }

    pub fn subagent_tabs_for_current_session(&self) -> (r: Option<SubagentTabs>)
        ensures
            match r {
                Some(t) => tabs_of(self@) == Some(t@),
                None => tabs_of(self@) is None,
            },
    {
        let i = match self.find_current_session() {
            Some(i) => i,
            None => {
                return None;
            },
        };
        let root = session::find_root(&self.sessions, i);
        let kids = session::descendant_sessions(&self.sessions, root);
        let ghost all = session::places(kids@);
        assert(self@.sessions[i as int] == self.sessions@[i as int]@);
        assert(self@.sessions[root as int] == self.sessions@[root as int]@);
        assert(all.len() == kids@.len());
        if kids.len() == 0 {
            return None;
        }
        let current = self.sessions[i].id.clone();
        let ghost first = main_tab(self@, root as int, current@);
        let mut tabs: Vec<SubagentTab> = Vec::new();
        tabs.push(self.make_main_tab(root, current.as_str()));
        assert(tab_views(tabs@) =~= seq![first] + child_tabs(self@, all.take(0), current@));
        for k in 0..kids.len()
            invariant
                all == session::places(kids@),
                forall|j: int| 0 <= j < kids@.len() ==> #[trigger] kids@[j] < self.sessions@.len(),
                tab_views(tabs@) == seq![first] + child_tabs(
                    self@,
                    all.take(k as int),
                    current@,
                ),
        {
            let ghost before = tabs@;
            let ghost j = kids@[k as int];
            let tab = self.make_child_tab(kids[k], current.as_str());
            tabs.push(tab);
            proof {
                assert(all[k as int] == j as int);
                assert(tab_views(tabs@) =~= tab_views(before).push(tab@));
                assert(child_tabs(self@, all.take(k as int + 1), current@) =~= child_tabs(
                    self@,
                    all.take(k as int),
                    current@,
                ).push(child_tab(self@, j as int, current@)));
                assert(tab_views(tabs@) =~= seq![first] + child_tabs(
                    self@,
                    all.take(k as int + 1),
                    current@,
                ));
            }
        }
        assert(all.take(all.len() as int) =~= all);
        Some(
            SubagentTabs {
                root_session_id: self.sessions[root].id.clone(),
                is_child_session: !text::same(
                    self.sessions[i].id.as_str(),
                    self.sessions[root].id.as_str(),
                ),
                tabs,
            },
        )
    }
}

/// Whose colour the spinner of the current session has.
#[derive(Debug, Clone, Copy, PartialEq, Eq, Structural)]
pub enum SpinnerOwner {
    /// The agent that leads.
    Leader,
    /// The agent of the child at this place among all children.
    Child(usize),
}

/// The place of a session among the descendants of its root.
pub open spec fn kid_place(kids: Seq<int>, i: int, n: int) -> Option<int>
    decreases kids.len() - n,
{
    if n < 0 || n >= kids.len() {
        None
    } else if kids[n] == i {
        Some(n)
    } else {
        kid_place(kids, i, n + 1)
    }
}

pub open spec fn spinner_owner(a: AppView) -> Option<SpinnerOwner> {
    match dialogs::current_place(a) {
        Some(i) => if session::root_at(a.sessions, i) == i {
            Some(SpinnerOwner::Leader)
        } else {
            match kid_place(kids_of(a.sessions, i), i, 0) {
                Some(n) => Some(SpinnerOwner::Child(n as usize)),
                None => None,
            }
        },
        None => None,
    }
}

fn find_kid(kids: &Vec<usize>, i: usize) -> (r: Option<usize>)
    ensures
        kid_place(session::places(kids@), i as int, 0) == match r {
            Some(n) => Some(n as int),
            None => None,
        },
{
    let ghost all = session::places(kids@);
    for n in 0..kids.len()
        invariant
            all == session::places(kids@),
            kid_place(all, i as int, n as int) == kid_place(all, i as int, 0),
    {
        assert(all[n as int] == kids@[n as int]);
        if kids[n] == i {
            return Some(n);
        }
    }
    None
}

impl App {
    /// Whose colour the spinner of the current session has.
    pub fn current_session_spinner_owner(&self) -> (r: Option<SpinnerOwner>)
        ensures
            r == spinner_owner(self@),
    {
        let i = match self.find_current_session() {
            Some(i) => i,
            None => {
                return None;
            },
        };
        let root = session::find_root(&self.sessions, i);
        if root == i {
            return Some(SpinnerOwner::Leader);
        }
        let kids = session::descendant_sessions(&self.sessions, root);
        match find_kid(&kids, i) {
            Some(n) => Some(SpinnerOwner::Child(n)),
            None => None,
        }
    }
}

} // verus!

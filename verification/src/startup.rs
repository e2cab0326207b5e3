//! How the application starts: bare at first, then with all that the configuration says.

use crate::agents;
use crate::agents::{AgentDefinition, AgentView};
use crate::app;
use crate::app::{App, AppView, TerminalNotifications, UsageCheck};
use crate::catalog::{ModelRef, RefView};
use crate::focus::{BaseFocus, OverlayFocus};
use crate::reasoning;
use crate::reasoning::{
    CapabilityView, EffortOverride, ModelCapability, OverrideView, ReasoningSettings, ReasoningView,
};
use crate::session;
use crate::session::{Session, SessionView, Workspace, WorkspaceView};
use crate::session_list;
use crate::session_list::{SessionsDialog, SessionsDialogView};
use crate::state;
use crate::state::{Chat, ClientSessionState, ClientView, Effect, EffectView, Input};
use crate::text;
use crate::titles;
use crate::ui;
use crate::ui::{
    ConnectDialogMode, DialogItem, ItemView, ModelsDialog, ModelsView, TerminalTitleItem, Theme,
    ThemeState, ThemesView, TitleState, TitleView, Ui, UiView,
};
use vstd::prelude::*;
use vstd::string::*;

verus! {

/// What the caller knows before the first screen is drawn.
#[derive(Debug)]
pub struct Shell {
    pub now: u64,
    pub cwd: String,
    pub workspace: Workspace,
    pub next_session_id: String,
    pub themes: Vec<Theme>,
    pub theme_index: usize,
    pub dark_mode: bool,
    pub transparent: bool,
    pub title_enabled: bool,
    pub notifications: TerminalNotifications,
}

/// The model to begin with: the one asked for, else a fixed one.
pub open spec fn first_model(asked: Option<Seq<char>>) -> (Seq<char>, Seq<char>) {
    match asked {
        Some(m) => titles::model_ref(m),
        None => ("opencode"@, "big-pickle"@),
    }
}

/// The agent to begin with.
pub open spec fn first_agent(asked: Option<Seq<char>>) -> Seq<char> {
    match asked {
        Some(name) => if text::is_blank(name) {
            "Build"@
        } else {
            titles::agent_title(text::trim(name))
        },
        None => "Build"@,
    }
}

/// What a terminal's title is made of unless the user says otherwise.
pub open spec fn default_title_items() -> Seq<TerminalTitleItem> {
    seq![TerminalTitleItem::Activity, TerminalTitleItem::ProjectName]
}

pub open spec fn fresh_themes(s: Shell) -> ThemesView {
    ThemesView {
        themes: ui::theme_views(s.themes@),
        index: s.theme_index,
        dark_mode: s.dark_mode,
        transparent: s.transparent,
        original_index: 0,
        original_dark_mode: true,
        committed: false,
    }
}

pub open spec fn fresh_title(s: Shell) -> TitleView {
    TitleView {
        enabled: s.title_enabled,
        items: default_title_items(),
        last: None,
        animation_origin: s.now,
        branch: None,
        branch_path: ""@,
        branch_checked: s.now,
    }
}

pub open spec fn fresh_ui(s: Shell, model: Option<Seq<char>>, agent: Option<Seq<char>>) -> UiView {
    UiView {
        compact_mode: true,
        key_overlay: OverlayFocus::Nothing,
        just_closed_overlay: false,
        ctrl_c_presses: 0,
        last_ctrl_c: s.now,
        selection_bar: None,
        pending_click: None,
        message_actions_index: None,
        message_actions_return: OverlayFocus::TimelineDialog,
        themes: fresh_themes(s),
        models: ModelsView {
            items: Seq::empty(),
            task: None,
            loading: false,
            provider_ids: None,
        },
        connect_mode: ConnectDialogMode::ProviderSelection,
        oauth_in_progress: None,
        storage_check: false,
        storage_reported: false,
        remote_launch: None,
        spinner_frame: 0,
        last_spinner: s.now,
        last_animation: s.now,
        drain_rotation: 0,
        title: fresh_title(s),
        cwd: s.cwd@,
        startup_hydrated: false,
        pending_model: model,
        pending_agent: agent,
    }
}

/// The application as it starts: an empty home screen, nothing under way.
pub open spec fn fresh(s: Shell, model: Option<Seq<char>>, agent: Option<Seq<char>>) -> AppView {
    AppView {
        running: true,
        now: s.now,
        last_user_activity: s.now,
        sessions: Seq::empty(),
        current: None,
        workspace: s.workspace@,
        next_session_id: s.next_session_id@,
        clients: Seq::empty(),
        chat: state::chat_of(Seq::empty()),
        input: state::empty_input(),
        find_active: false,
        pending_session_title: None,
        base_focus: BaseFocus::Home,
        overlay_focus: OverlayFocus::Nothing,
        is_streaming: false,
        esc_primed_at: None,
        compaction: None,
        permissions: Seq::empty(),
        questions: Seq::empty(),
        terminals: Seq::empty(),
        sessions_dialog: SessionsDialogView {
            dirty: true,
            last_probe: s.now,
            ..session_list::new_sessions_dialog()
        },
        agent: first_agent(agent),
        model: first_model(model).1,
        provider_name: first_model(model).0,
        agents: Seq::empty(),
        reasoning: ReasoningView { overrides: Seq::empty(), capabilities: Seq::empty() },
        notifications: TerminalNotifications { focused: true, ..s.notifications },
        small_model: None,
        title_generation: false,
        usage_stale: false,
        usage_check: UsageCheck { messages: 0, revision: 0, tokens: 0 },
        suggestions: false,
        ui: fresh_ui(s, model, agent),
        effects: Seq::empty(),
    }
}

fn choose_first_model(asked: &Option<String>) -> (r: (String, String))
    ensures
        (r.0@, r.1@) == first_model(text::opt_view(*asked)),
{
    match asked {
        Some(m) => titles::parse_model_ref(m.as_str()),
        None => ("opencode".to_string(), "big-pickle".to_string()),
    }
}

fn choose_first_agent(asked: &Option<String>) -> (r: String)
    ensures
        r@ == first_agent(text::opt_view(*asked)),
{
    match asked {
        Some(name) => {
            let own = text::trimmed(name.as_str());
            if own.as_str().is_empty() {
                "Build".to_string()
            } else {
                titles::titlecase_agent_name(own.as_str())
            }
        },
        None => "Build".to_string(),
    }
}

pub fn default_items() -> (r: Vec<TerminalTitleItem>)
    ensures
        r@ == default_title_items(),
{
    let mut items: Vec<TerminalTitleItem> = Vec::new();
    items.push(TerminalTitleItem::Activity);
    items.push(TerminalTitleItem::ProjectName);
    items
}

fn new_ui(s: Shell, model: Option<String>, agent: Option<String>) -> (r: Ui)
    ensures
        r@ == fresh_ui(s, text::opt_view(model), text::opt_view(agent)),
{
    reveal(<Ui as View>::view);
    let items: Vec<DialogItem> = Vec::new();
    assert(ui::item_views(items@) =~= Seq::<ItemView>::empty());
    Ui {
        compact_mode: true,
        key_overlay: OverlayFocus::Nothing,
        just_closed_overlay: false,
        ctrl_c_presses: 0,
        last_ctrl_c: s.now,
        selection_bar: None,
        pending_click: None,
        message_actions_index: None,
        message_actions_return: OverlayFocus::TimelineDialog,
        themes: ThemeState {
            themes: s.themes,
            index: s.theme_index,
            dark_mode: s.dark_mode,
            transparent: s.transparent,
            original_index: 0,
            original_dark_mode: true,
            committed: false,
        },
        models: ModelsDialog { items, task: None, loading: false, provider_ids: None },
        connect_mode: ConnectDialogMode::ProviderSelection,
        oauth_in_progress: None,
        storage_check: false,
        storage_reported: false,
        remote_launch: None,
        spinner_frame: 0,
        last_spinner: s.now,
        last_animation: s.now,
        drain_rotation: 0,
        title: TitleState {
            enabled: s.title_enabled,
            items: default_items(),
            last: None,
            animation_origin: s.now,
            branch: None,
            branch_path: "".to_string(),
            branch_checked: s.now,
        },
        cwd: s.cwd,
        startup_hydrated: false,
        pending_model: model,
        pending_agent: agent,
    }
}

impl App {
    pub fn new(s: Shell) -> (r: App)
        ensures
            r@ == fresh(s, None, None),
    {
        App::new_with_model_override(s, None, None)
    }

    /// The application as it starts, with a model and an agent that were asked for.
    pub fn new_with_model_override(s: Shell, model: Option<String>, agent: Option<String>) -> (r:
        App)
        ensures
            r@ == fresh(s, text::opt_view(model), text::opt_view(agent)),
    {
        let (provider_name, first) = choose_first_model(&model);
        let leader = choose_first_agent(&agent);
        let now: u64 = s.now;
        let workspace = Workspace {
            id: s.workspace.id,
            path: s.workspace.path.clone(),
            name: s.workspace.name.clone(),
            sort_order: s.workspace.sort_order,
        };
        let next_session_id = s.next_session_id.clone();
        let notifications = TerminalNotifications { focused: true, ..s.notifications };
        let sessions: Vec<Session> = Vec::new();
        let clients: Vec<ClientSessionState> = Vec::new();
        let terminals: Vec<String> = Vec::new();
        let agents: Vec<AgentDefinition> = Vec::new();
        let overrides: Vec<EffortOverride> = Vec::new();
        let capabilities: Vec<ModelCapability> = Vec::new();
        let effects: Vec<Effect> = Vec::new();
        let mut sessions_dialog = SessionsDialog::new();
        sessions_dialog.dirty = true;
        sessions_dialog.last_probe = now;
        proof {
            assert(session::sessions_view(sessions@) =~= Seq::<SessionView>::empty());
            assert(state::clients_view(clients@) =~= Seq::<ClientView>::empty());
            assert(text::views(terminals@) =~= Seq::<Seq<char>>::empty());
            assert(agents::agents_view(agents@) =~= Seq::<AgentView>::empty());
            assert(reasoning::overrides_view(overrides@) =~= Seq::<OverrideView>::empty());
            assert(reasoning::capabilities_view(capabilities@) =~= Seq::<CapabilityView>::empty());
            assert(state::effects_view(effects@) =~= Seq::<EffectView>::empty());
        }
        let ui = new_ui(s, model, agent);
        App {
            running: true,
            now,
            last_user_activity: now,
            sessions,
            current: None,
            workspace,
            next_session_id,
            clients,
            chat: Chat::new(),
            input: Input::new(),
            find_active: false,
            pending_session_title: None,
            base_focus: BaseFocus::Home,
            overlay_focus: OverlayFocus::Nothing,
            is_streaming: false,
            esc_primed_at: None,
            compaction: None,
            permissions: Vec::new(),
            questions: Vec::new(),
            terminals,
            sessions_dialog,
            agent: leader,
            model: first,
            provider_name,
            agents,
            reasoning: ReasoningSettings { overrides, capabilities },
            notifications,
            small_model: None,
            title_generation: false,
            usage_stale: false,
            usage_check: UsageCheck { messages: 0, revision: 0, tokens: 0 },
            suggestions: false,
            ui,
            effects,
        }
    }
}

/// What the configuration and the saved preferences say.
#[derive(Debug)]
pub struct Configuration {
    pub agents: Vec<AgentDefinition>,
    pub default_agent: Option<String>,
    pub model: Option<String>,
    pub small_model: Option<String>,
    pub compact_mode: Option<bool>,
    pub notifications: TerminalNotifications,
    pub has_preferences: bool,
    pub saved_model: Option<ModelRef>,
    pub saved_overrides: Vec<EffortOverride>,
    pub saved_compact_mode: Option<bool>,
    pub saved_title_items: Option<Vec<TerminalTitleItem>>,
}

pub open spec fn opt_ref(r: Option<ModelRef>) -> Option<RefView> {
    match r {
        Some(x) => Some(x@),
        None => None,
    }
}

/// The agent that was asked for on the command line, if the request says anything.
pub open spec fn asked_agent(a: AppView) -> Option<Seq<char>> {
    match a.ui.pending_agent {
        Some(name) => if text::is_blank(name) {
            None
        } else {
            Some(text::trim(name))
        },
        None => None,
    }
}

/// Why the start fails: an agent was asked for that cannot lead.
pub open spec fn startup_refusal(a: AppView, c: Configuration) -> Option<Seq<char>> {
    match asked_agent(a) {
        Some(name) => if agents::primary_at(agents::agents_view(c.agents@), name) is None {
            Some(
                "Unknown agent '"@ + name + "'. Available: "@ + text::join(
                    agents::names(agents::listed(agents::agents_view(c.agents@), true)),
                    ", "@,
                ),
            )
        } else {
            None
        },
        None => None,
    }
}

/// The agent that leads: the one asked for, else the default, else the one so far.
pub open spec fn startup_agent(a: AppView, c: Configuration) -> Seq<char> {
    match asked_agent(a) {
        Some(name) => titles::agent_title(name),
        None => match text::opt_view(c.default_agent) {
            Some(name) => if !text::is_blank(name) && a.ui.pending_agent is None {
                name
            } else {
                a.agent
            },
            None => a.agent,
        },
    }
}

/// The model in use: the one asked for, else the one used last, else the configured one, else a
/// fixed one.
pub open spec fn startup_model(a: AppView, c: Configuration) -> (Seq<char>, Seq<char>) {
    match a.ui.pending_model {
        Some(m) => titles::model_ref(m),
        None => match opt_ref(c.saved_model) {
            Some(r) => (r.provider_id, r.model_id),
            None => first_model(text::opt_view(c.model)),
        },
    }
}

/// The configured model is remembered when none has been used yet.
pub open spec fn saves_model(a: AppView, c: Configuration) -> bool {
    a.ui.pending_model is None && c.saved_model is None && c.has_preferences && c.model is Some
}

pub open spec fn startup_compact(c: Configuration) -> bool {
    match c.compact_mode {
        Some(compact) => compact,
        None => match c.saved_compact_mode {
            Some(compact) => compact,
            None => true,
        },
    }
}

pub open spec fn startup_title_items(c: Configuration) -> Seq<TerminalTitleItem> {
    match c.saved_title_items {
        Some(items) => items@,
        None => default_title_items(),
    }
}

pub open spec fn hydrated_ui(u: UiView, c: Configuration) -> UiView {
    UiView {
        compact_mode: startup_compact(c),
        title: TitleView { items: startup_title_items(c), ..u.title },
        startup_hydrated: true,
        pending_model: None,
        pending_agent: None,
        ..u
    }
}

#[verifier::opaque]
pub open spec fn configured(a: AppView, c: Configuration) -> AppView {
    AppView {
        agent: startup_agent(a, c),
        agents: agents::agents_view(c.agents@),
        provider_name: startup_model(a, c).0,
        model: startup_model(a, c).1,
        small_model: text::opt_view(c.small_model),
        reasoning: ReasoningView {
            overrides: reasoning::overrides_view(c.saved_overrides@),
            ..a.reasoning
        },
        notifications: TerminalNotifications { focused: a.notifications.focused, ..c.notifications },
        ui: hydrated_ui(a.ui, c),
        ..a
    }
}

/// The application with its configuration taken in, once.
pub open spec fn hydrated(a: AppView, c: Configuration) -> AppView {
    if a.ui.startup_hydrated || startup_refusal(a, c) is Some {
        a
    } else if saves_model(a, c) {
        configured(
            app::with_effect(
                a,
                EffectView::SaveModel {
                    provider: titles::model_ref(c.model->0@).0,
                    model: titles::model_ref(c.model->0@).1,
                },
            ),
            c,
        )
    } else {
        configured(a, c)
    }
}

impl Ui {
    fn hydrate(&mut self, compact: bool, items: Option<Vec<TerminalTitleItem>>)
        ensures
            final(self)@ == (UiView {
                compact_mode: compact,
                title: TitleView {
                    items: match items {
                        Some(v) => v@,
                        None => default_title_items(),
                    },
                    ..old(self)@.title
                },
                startup_hydrated: true,
                pending_model: None,
                pending_agent: None,
                ..old(self)@
            }),
    {
        reveal(<Ui as View>::view);
        self.compact_mode = compact;
        self.title.items = match items {
            Some(v) => v,
            None => default_items(),
        };
        self.startup_hydrated = true;
        self.pending_model = None;
        self.pending_agent = None;
    }
}

fn choose_compact(configured: Option<bool>, saved: Option<bool>) -> (r: bool)
    ensures
        r == match configured {
            Some(compact) => compact,
            None => match saved {
                Some(compact) => compact,
                None => true,
            },
        },
{
    match configured {
        Some(compact) => compact,
        None => match saved {
            Some(compact) => compact,
            None => true,
        },
    }
}

impl App {
    fn agent_asked_for(&self) -> (r: Option<String>)
        ensures
            text::opt_view(r) == asked_agent(self@),
    {
        reveal(<Ui as View>::view);
        match &self.ui.pending_agent {
            Some(name) => {
                let own = text::trimmed(name.as_str());
                if own.as_str().is_empty() {
                    None
                } else {
                    Some(own)
                }
            },
            None => None,
        }
    }

    fn refuse_startup(&self, c: &Configuration) -> (r: Option<String>)
        ensures
            text::opt_view(r) == startup_refusal(self@, *c),
    {
        match self.agent_asked_for() {
            Some(name) => {
                if agents::primary_agent(&c.agents, name.as_str()).is_some() {
                    return None;
                }
                let mut t = "Unknown agent '".to_string();
                t.append(name.as_str());
                t.append("'. Available: ");
                let names = agents::visible_primary_agent_names(&c.agents);
                t.append(text::join_strings(&names, ", ").as_str());
                Some(t)
            },
            None => None,
        }
    }

    fn choose_startup_agent(&self, c: &Configuration) -> (r: String)
        ensures
            r@ == startup_agent(self@, *c),
    {
        reveal(<Ui as View>::view);
        match self.agent_asked_for() {
            Some(name) => titles::titlecase_agent_name(name.as_str()),
            None => match &c.default_agent {
                Some(name) => if !text::blank(name.as_str()) && self.ui.pending_agent.is_none() {
                    name.clone()
                } else {
                    self.agent.clone()
                },
                None => self.agent.clone(),
            },
        }
    }

    fn choose_startup_model(&self, c: &Configuration) -> (r: (String, String))
        ensures
            (r.0@, r.1@) == startup_model(self@, *c),
    {
        reveal(<Ui as View>::view);
        match &self.ui.pending_model {
            Some(m) => titles::parse_model_ref(m.as_str()),
            None => match &c.saved_model {
                Some(r) => (r.provider_id.clone(), r.model_id.clone()),
                None => choose_first_model(&c.model),
            },
        }
    }

    fn save_configured_model(&mut self, c: &Configuration)
        ensures
            final(self)@ == if saves_model(old(self)@, *c) {
                app::with_effect(
                    old(self)@,
                    EffectView::SaveModel {
                        provider: titles::model_ref(c.model->0@).0,
                        model: titles::model_ref(c.model->0@).1,
                    },
                )
            } else {
                old(self)@
            },
    {
        reveal(<Ui as View>::view);
        if self.ui.pending_model.is_some() || c.saved_model.is_some() || !c.has_preferences {
            return ;
        }
        match &c.model {
            Some(m) => {
                let (provider, model) = titles::parse_model_ref(m.as_str());
                self.push_effect(Effect::SaveModel { provider, model });
            },
            None => {},
        }
    }

    fn configure(&mut self, c: Configuration)
        ensures
            final(self)@ == configured(old(self)@, c),
    {
        reveal(configured);
        let agent = self.choose_startup_agent(&c);
        let (provider_name, model) = self.choose_startup_model(&c);
        let compact = choose_compact(c.compact_mode, c.saved_compact_mode);
        let focused = self.notifications.focused;
        self.agent = agent;
        self.agents = c.agents;
        self.provider_name = provider_name;
        self.model = model;
        self.small_model = c.small_model;
        self.reasoning.overrides = c.saved_overrides;
        self.notifications = c.notifications;
        self.notifications.focused = focused;
        self.ui.hydrate(compact, c.saved_title_items);
    }

    fn is_hydrated(&self) -> (r: bool)
        ensures
            r == self@.ui.startup_hydrated,
    {
        reveal(<Ui as View>::view);
        self.ui.startup_hydrated
    }

    /// Takes in the configuration, once; refuses one that cannot give the agent asked for.
    pub fn ensure_startup_hydrated(&mut self, c: Configuration) -> (r: Result<(), String>)
        ensures
            r is Err <==> !old(self)@.ui.startup_hydrated && startup_refusal(old(self)@, c) is Some,
            r matches Err(why) ==> startup_refusal(old(self)@, c) == Some(why@),
            final(self)@ == hydrated(old(self)@, c),
    {
        if self.is_hydrated() {
            return Ok(());
        }
        match self.refuse_startup(&c) {
            Some(why) => {
                return Err(why);
            },
            None => {},
        }
        self.save_configured_model(&c);
        self.configure(c);
        Ok(())
    }
}

/// The configuration is taken in at most once: what comes later changes nothing.
pub proof fn law_hydration_happens_once(a: AppView, c: Configuration, d: Configuration)
    requires
        startup_refusal(a, c) is None,
    ensures
        hydrated(a, c).ui.startup_hydrated,
        hydrated(hydrated(a, c), d) == hydrated(a, c),
{
    reveal(configured);
}

/// A model asked for on the command line is the one in use, whatever is saved or configured.
pub proof fn law_asked_model_wins(a: AppView, c: Configuration, model: Seq<char>)
    requires
        a.ui.pending_model == Some(model),
        !a.ui.startup_hydrated,
        startup_refusal(a, c) is None,
    ensures
        (hydrated(a, c).provider_name, hydrated(a, c).model) == titles::model_ref(model),
        hydrated(a, c).effects == a.effects,
{
    reveal(configured);
}

} // verus!

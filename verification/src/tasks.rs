//! What the tasks in the background report: logins, the storage, the models, and titles.

use crate::answers;
use crate::app;
use crate::app::{App, AppView};
use crate::choices;
use crate::commands;
use crate::commands::{CommandFacts, FactsView};
use crate::dialogs;
use crate::focus::OverlayFocus;
use crate::message;
use crate::prompting;
use crate::session;
use crate::state;
use crate::state::{Effect, EffectView, ToastLevel};
use crate::text;
use crate::titles;
use crate::ui;
use crate::ui::{
    ConnectDialogMode, DialogItem, ItemView, ModelsTaskKind, ModelsView, OAuthProvider, Ui, UiView,
};
use vstd::prelude::*;
use vstd::string::*;

verus! {

/// What a login reports.
#[derive(Debug)]
pub enum LoginEvent {
    HeadlessCode,
    Success { login: OAuthProvider },
    Failed { login: OAuthProvider, error: String },
}

pub enum LoginEventView {
    HeadlessCode,
    Success { login: OAuthProvider },
    Failed { login: OAuthProvider, error: Seq<char> },
}

impl View for LoginEvent {
    type V = LoginEventView;

    open spec fn view(&self) -> LoginEventView {
        match self {
            LoginEvent::HeadlessCode => LoginEventView::HeadlessCode,
            LoginEvent::Success { login } => LoginEventView::Success { login: *login },
            LoginEvent::Failed { login, error } => LoginEventView::Failed {
                login: *login,
                error: error@,
            },
        }
    }
}

/// No login is under way any more, and its dialog is gone.
#[verifier::opaque]
pub open spec fn login_ended(a: AppView) -> AppView {
    let b = AppView { ui: UiView { oauth_in_progress: None, ..a.ui }, ..a };
    app::with_effect(
        if b.overlay_focus == OverlayFocus::ProviderOAuthFlow {
            dialogs::blurred(b)
        } else {
            b
        },
        EffectView::HideDialog { dialog: OverlayFocus::ProviderOAuthFlow },
    )
}

/// A provider connected, with its first model in use.
pub open spec fn logged_in(a: AppView, login: OAuthProvider) -> AppView {
    app::toasted(
        login_ended(
            app::with_effect(
                AppView { provider_name: login.id(), model: login.first_model(), ..a },
                EffectView::SaveModel { provider: login.id(), model: login.first_model() },
            ),
        ),
        ToastLevel::Info,
        login.greeting(),
        0,
    )
}

pub open spec fn login_heard(a: AppView, e: LoginEventView) -> AppView {
    match e {
        LoginEventView::HeadlessCode => AppView {
            overlay_focus: OverlayFocus::ProviderOAuthFlow,
            ..a
        },
        LoginEventView::Success { login } => logged_in(a, login),
        LoginEventView::Failed { login, error } => app::toasted(
            login_ended(a),
            ToastLevel::Error,
            login.name() + " OAuth failed: "@ + error,
            0,
        ),
    }
}

impl App {
    fn end_login(&mut self)
        ensures
            final(self)@ == login_ended(old(self)@),
    {
        reveal(<Ui as View>::view);
        reveal(login_ended);
        self.ui.oauth_in_progress = None;
        if self.overlay_focus == OverlayFocus::ProviderOAuthFlow {
            self.overlay_focus = OverlayFocus::Nothing;
        }
        self.push_effect(Effect::HideDialog { dialog: OverlayFocus::ProviderOAuthFlow });
    }

    fn log_in(&mut self, login: OAuthProvider)
        ensures
            final(self)@ == logged_in(old(self)@, login),
    {
        self.provider_name = login.provider_id().to_string();
        self.model = login.default_model().to_string();
        self.push_effect(
            Effect::SaveModel {
                provider: login.provider_id().to_string(),
                model: login.default_model().to_string(),
            },
        );
        self.end_login();
        self.push_toast(ToastLevel::Info, login.connected_message(), 0);
    }

    /// Takes in what a login reports.
    pub fn process_provider_oauth_event(&mut self, e: LoginEvent)
        ensures
            final(self)@ == login_heard(old(self)@, e@),
    {
        match e {
            LoginEvent::HeadlessCode => {
                self.overlay_focus = OverlayFocus::ProviderOAuthFlow;
            },
            LoginEvent::Success { login } => {
                self.log_in(login);
            },
            LoginEvent::Failed { login, error } => {
                self.end_login();
                let mut t = login.label().to_string();
                t.append(" OAuth failed: ");
                t.append(error.as_str());
                self.push_toast(ToastLevel::Error, t.as_str(), 0);
            },
        }
    }
}

/// What became of disconnecting a provider.
#[derive(Debug)]
pub enum Disconnection {
    NothingSelected,
    StoreFailed { why: String },
    LookupFailed { why: String },
    NotConnected { name: String },
    RemovalFailed { name: String, why: String },
    Done { name: String },
}

pub open spec fn disconnection_text(d: Disconnection) -> Seq<char> {
    match d {
        Disconnection::NothingSelected => "No provider selected"@,
        Disconnection::StoreFailed { why } => "Failed to open auth store: "@ + why@,
        Disconnection::LookupFailed { why } => "Failed to inspect provider auth: "@ + why@,
        Disconnection::NotConnected { name } => name@ + " is not connected"@,
        Disconnection::RemovalFailed { name, why } => "Failed to disconnect "@ + name@ + ": "@
            + why@,
        Disconnection::Done { name } => "Disconnected "@ + name@,
    }
}

pub open spec fn disconnection_level(d: Disconnection) -> ToastLevel {
    match d {
        Disconnection::StoreFailed { .. } => ToastLevel::Error,
        Disconnection::LookupFailed { .. } => ToastLevel::Error,
        Disconnection::RemovalFailed { .. } => ToastLevel::Error,
        _ => ToastLevel::Info,
    }
}

/// What became of it told; after a success the list of providers opens again.
#[verifier::opaque]
pub open spec fn disconnection_told(a: AppView, d: Disconnection, f: FactsView) -> AppView {
    let b = app::toasted(a, disconnection_level(d), disconnection_text(d), 0);
    if d is Done {
        choices::plain_command(b, "connect"@, f)
    } else {
        b
    }
}

fn write_disconnection(d: &Disconnection) -> (r: (ToastLevel, String))
    ensures
        r.0 == disconnection_level(*d),
        r.1@ == disconnection_text(*d),
{
    match d {
        Disconnection::NothingSelected => (ToastLevel::Info, "No provider selected".to_string()),
        Disconnection::StoreFailed { why } => {
            let mut t = "Failed to open auth store: ".to_string();
            t.append(why.as_str());
            (ToastLevel::Error, t)
        },
        Disconnection::LookupFailed { why } => {
            let mut t = "Failed to inspect provider auth: ".to_string();
            t.append(why.as_str());
            (ToastLevel::Error, t)
        },
        Disconnection::NotConnected { name } => {
            let mut t = name.clone();
            t.append(" is not connected");
            (ToastLevel::Info, t)
        },
        Disconnection::RemovalFailed { name, why } => {
            let mut t = "Failed to disconnect ".to_string();
            t.append(name.as_str());
            t.append(": ");
            t.append(why.as_str());
            (ToastLevel::Error, t)
        },
        Disconnection::Done { name } => {
            let mut t = "Disconnected ".to_string();
            t.append(name.as_str());
            (ToastLevel::Info, t)
        },
    }
}

/// What became of connecting a provider on this machine.
#[derive(Debug)]
pub enum LocalConnection {
    Unknown { provider: String },
    Failed { name: String, why: String },
    NotSaved { name: String, why: String },
    Done { name: String, models: usize },
}

pub open spec fn local_told(a: AppView, c: LocalConnection) -> AppView {
    match c {
        LocalConnection::Unknown { provider } => app::toasted(
            a,
            ToastLevel::Error,
            "Unknown local model provider: "@ + provider@,
            5,
        ),
        LocalConnection::Failed { name, why } => app::toasted(
            a,
            ToastLevel::Error,
            "Failed to connect "@ + name@ + ": "@ + why@,
            5,
        ),
        LocalConnection::NotSaved { name, why } => app::toasted(
            a,
            ToastLevel::Error,
            "Failed to save "@ + name@ + " connection: "@ + why@,
            0,
        ),
        LocalConnection::Done { name, models } => app::with_effect(
            answers::with_connect_mode(
                app::toasted(
                    a,
                    ToastLevel::Success,
                    "Connected "@ + name@ + " ("@ + text::decimal(models as nat)
                        + " local models)"@,
                    0,
                ),
                ConnectDialogMode::ProviderSelection,
            ),
            EffectView::ResetConnect,
        ),
    }
}

impl App {
    /// Tells what became of disconnecting a provider.
    pub fn finish_disconnect(&mut self, d: Disconnection, f: &CommandFacts)
        ensures
            final(self)@ == disconnection_told(old(self)@, d, f@),
    {
        reveal(disconnection_told);
        let (level, t) = write_disconnection(&d);
        self.push_toast(level, t.as_str(), 0);
        match d {
            Disconnection::Done { .. } => {
                self.run_plain_command("connect", f);
            },
            _ => {},
        }
    }

    fn tell_local_success(&mut self, name: &str, models: usize)
        ensures
            final(self)@ == app::with_effect(
                answers::with_connect_mode(
                    app::toasted(
                        old(self)@,
                        ToastLevel::Success,
                        "Connected "@ + name@ + " ("@ + text::decimal(models as nat)
                            + " local models)"@,
                        0,
                    ),
                    ConnectDialogMode::ProviderSelection,
                ),
                EffectView::ResetConnect,
            ),
    {
        let mut t = "Connected ".to_string();
        t.append(name);
        t.append(" (");
        t.append(text::decimal_of(models).as_str());
        t.append(" local models)");
        self.push_toast(ToastLevel::Success, t.as_str(), 0);
        reveal(<Ui as View>::view);
        self.ui.connect_mode = ConnectDialogMode::ProviderSelection;
        self.push_effect(Effect::ResetConnect);
    }

    fn tell_local_failure(&mut self, front: &str, name: &str, middle: &str, why: &str, seconds: u64)
        ensures
            final(self)@ == app::toasted(
                old(self)@,
                ToastLevel::Error,
                front@ + name@ + middle@ + why@,
                seconds,
            ),
    {
        let mut t = front.to_owned();
        t.append(name);
        t.append(middle);
        t.append(why);
        self.push_toast(ToastLevel::Error, t.as_str(), seconds);
    }

    /// Tells what became of connecting a provider on this machine.
    pub fn connect_local_provider(&mut self, c: LocalConnection)
        ensures
            final(self)@ == dialogs::blurred(local_told(old(self)@, c)),
    {
        match c {
            LocalConnection::Unknown { provider } => {
                let mut t = "Unknown local model provider: ".to_string();
                t.append(provider.as_str());
                self.push_toast(ToastLevel::Error, t.as_str(), 5);
            },
            LocalConnection::Failed { name, why } => {
                self.tell_local_failure("Failed to connect ", name.as_str(), ": ", why.as_str(), 5);
            },
            LocalConnection::NotSaved { name, why } => {
                self.tell_local_failure(
                    "Failed to save ",
                    name.as_str(),
                    " connection: ",
                    why.as_str(),
                    0,
                );
            },
            LocalConnection::Done { name, models } => {
                self.tell_local_success(name.as_str(), models);
            },
        }
        self.blur();
    }
}

/// The check of the storage heard: it has ended with a report, or without a word.
pub open spec fn storage_heard(a: AppView, reported: bool, disconnected: bool) -> AppView {
    AppView {
        ui: UiView {
            storage_check: a.ui.storage_check && !reported && !disconnected,
            storage_reported: a.ui.storage_reported || reported,
            ..a.ui
        },
        ..a
    }
}

impl App {
    /// Takes in what the check of the storage reports; says whether it broke off.
    pub fn process_storage_events(&mut self, reported: bool, disconnected: bool) -> (r: bool)
        ensures
            r == (disconnected && !reported),
            final(self)@ == storage_heard(old(self)@, reported, disconnected),
    {
        reveal(<Ui as View>::view);
        self.ui.storage_check = self.ui.storage_check && !reported && !disconnected;
        self.ui.storage_reported = self.ui.storage_reported || reported;
        disconnected && !reported
    }
}

/// What the look-up of the models came to.
#[derive(Debug)]
pub enum ModelsResult {
    Listing { items: Vec<DialogItem> },
    Error { text: String },
    Other,
}

/// What the look-up of the models reports, with the providers that were connected when it began.
#[derive(Debug)]
pub struct ModelsEvent {
    pub kind: ModelsTaskKind,
    pub result: ModelsResult,
    pub providers: Option<Vec<String>>,
}

pub open spec fn loaded(a: AppView) -> AppView {
    dialogs::with_models(a, ModelsView { loading: false, ..a.ui.models })
}

pub open spec fn models_left(a: AppView, dialog: OverlayFocus) -> AppView {
    if a.overlay_focus == dialog {
        dialogs::blurred(a)
    } else {
        a
    }
}

/// The models listed; what is known stays good only while the providers are the same.
#[verifier::opaque]
pub open spec fn models_found(
    a: AppView,
    items: Seq<ItemView>,
    providers: Option<Seq<Seq<char>>>,
    connected: Option<Seq<Seq<char>>>,
) -> AppView {
    let b = dialogs::with_models(
        a,
        ModelsView {
            loading: false,
            provider_ids: if providers == connected {
                providers
            } else {
                None
            },
            ..a.ui.models
        },
    );
    if b.overlay_focus == OverlayFocus::ModelsDialog {
        dialogs::models_shown(b, items)
    } else {
        b
    }
}

pub open spec fn models_forgotten(a: AppView) -> AppView {
    models_left(
        dialogs::with_models(
            a,
            ModelsView { items: Seq::empty(), loading: false, provider_ids: None, ..a.ui.models },
        ),
        OverlayFocus::RefreshModelsDialog,
    )
}

pub open spec fn models_event_done(
    a: AppView,
    e: ModelsEvent,
    connected: Option<Seq<Seq<char>>>,
) -> AppView {
    match e.kind {
        ModelsTaskKind::Refresh => models_forgotten(a),
        ModelsTaskKind::Load => match e.result {
            ModelsResult::Listing { items } => models_found(
                a,
                ui::item_views(items@),
                ui::opt_views(e.providers),
                connected,
            ),
            ModelsResult::Error { text } => prompting::complained(
                models_left(loaded(a), OverlayFocus::ModelsDialog),
                text@,
                3,
            ),
            ModelsResult::Other => models_left(loaded(a), OverlayFocus::ModelsDialog),
        },
    }
}

pub open spec fn no_task(a: AppView) -> AppView {
    dialogs::with_models(a, ModelsView { task: None, ..a.ui.models })
}

/// The look-up of the models heard: it has ended with a result, or without a word.
#[verifier::opaque]
pub open spec fn models_heard(
    a: AppView,
    event: Option<ModelsEvent>,
    disconnected: bool,
    connected: Option<Seq<Seq<char>>>,
) -> AppView {
    match event {
        Some(e) => models_event_done(no_task(a), e, connected),
        None => if disconnected {
            app::toasted(
                models_left(
                    models_left(loaded(no_task(a)), OverlayFocus::ModelsDialog),
                    OverlayFocus::RefreshModelsDialog,
                ),
                ToastLevel::Error,
                "Model discovery ended before returning results"@,
                3,
            )
        } else {
            a
        },
    }
}

impl App {
    fn set_models_loaded(&mut self)
        ensures
            final(self)@ == loaded(old(self)@),
    {
        reveal(<Ui as View>::view);
        self.ui.models.loading = false;
    }

    fn leave_models(&mut self, dialog: OverlayFocus)
        ensures
            final(self)@ == models_left(old(self)@, dialog),
    {
        if self.overlay_focus == dialog {
            self.overlay_focus = OverlayFocus::Nothing;
        }
    }

    fn keep_providers(&mut self, providers: Option<Vec<String>>)
        ensures
            final(self)@ == dialogs::with_models(
                old(self)@,
                ModelsView {
                    loading: false,
                    provider_ids: ui::opt_views(providers),
                    ..old(self)@.ui.models
                },
            ),
    {
        reveal(<Ui as View>::view);
        self.ui.models.loading = false;
        self.ui.models.provider_ids = providers;
    }

    fn find_models(
        &mut self,
        items: Vec<DialogItem>,
        providers: Option<Vec<String>>,
        connected: &Option<Vec<String>>,
    )
        ensures
            final(self)@ == models_found(
                old(self)@,
                ui::item_views(items@),
                ui::opt_views(providers),
                ui::opt_views(*connected),
            ),
    {
        reveal(models_found);
        let same = dialogs::same_ids(&providers, connected);
        self.keep_providers(
            if same {
                providers
            } else {
                None
            },
        );
        if self.overlay_focus == OverlayFocus::ModelsDialog {
            self.show_models_dialog(items);
        }
    }

    fn forget_models(&mut self)
        ensures
            final(self)@ == models_forgotten(old(self)@),
    {
        reveal(<Ui as View>::view);
        let none: Vec<DialogItem> = Vec::new();
        assert(ui::item_views(none@) =~= Seq::<ItemView>::empty());
        self.ui.models.items = none;
        self.ui.models.loading = false;
        self.ui.models.provider_ids = None;
        self.leave_models(OverlayFocus::RefreshModelsDialog);
    }

    fn take_models_event(&mut self, e: ModelsEvent, connected: &Option<Vec<String>>)
        ensures
            final(self)@ == models_event_done(old(self)@, e, ui::opt_views(*connected)),
    {
        match e.kind {
            ModelsTaskKind::Refresh => self.forget_models(),
            ModelsTaskKind::Load => match e.result {
                ModelsResult::Listing { items } => self.find_models(items, e.providers, connected),
                ModelsResult::Error { text } => {
                    self.set_models_loaded();
                    self.leave_models(OverlayFocus::ModelsDialog);
                    self.complain(text.as_str(), 3);
                },
                ModelsResult::Other => {
                    self.set_models_loaded();
                    self.leave_models(OverlayFocus::ModelsDialog);
                },
            },
        }
    }

    fn end_models_task(&mut self)
        ensures
            final(self)@ == no_task(old(self)@),
    {
        reveal(<Ui as View>::view);
        self.ui.models.task = None;
    }

    /// Takes in what the look-up of the models reports.
    pub fn process_models_events(
        &mut self,
        event: Option<ModelsEvent>,
        disconnected: bool,
        connected: &Option<Vec<String>>,
    )
        ensures
            final(self)@ == models_heard(
                old(self)@,
                event,
                disconnected,
                ui::opt_views(*connected),
            ),
    {
        reveal(models_heard);
        match event {
            Some(e) => {
                self.end_models_task();
                self.take_models_event(e, connected);
                return ;
            },
            None => {},
        }
        if disconnected {
            self.end_models_task();
            self.set_models_loaded();
            self.leave_models(OverlayFocus::ModelsDialog);
            self.leave_models(OverlayFocus::RefreshModelsDialog);
            self.push_toast(
                ToastLevel::Error,
                "Model discovery ended before returning results",
                3,
            );
        }
    }
}

/// Whether a session still has the title it was given by itself: then the user has said one
/// thing, and the title is a default or comes from that.
pub open spec fn can_retitle(a: AppView, id: Seq<char>) -> bool {
    match session::session_at(a.sessions, id) {
        Some(i) => match app::chat_for(a, id) {
            Some(c) => message::has_one_user_message(c.messages) && (titles::is_default_title(
                a.sessions[i].title,
            ) || (message::first_prompt(c.messages) matches Some(p) && titles::is_auto_title(
                a.sessions[i].title,
                p,
            ))),
            None => false,
        },
        None => false,
    }
}

/// A title that the small model made, taken where the session has none of its own.
#[verifier::opaque]
pub open spec fn retitled(a: AppView, id: Seq<char>, title: Seq<char>) -> AppView {
    if text::is_blank(title) || !can_retitle(a, id) {
        a
    } else {
        app::relisted(choices::renamed(a, id, text::trim(title)))
    }
}

/// A title made in the background.
#[derive(Debug)]
pub struct GeneratedTitle {
    pub session_id: String,
    pub title: String,
}

pub open spec fn all_retitled(a: AppView, made: Seq<GeneratedTitle>) -> AppView
    decreases made.len(),
{
    if made.len() == 0 {
        a
    } else {
        retitled(
            all_retitled(a, made.drop_last()),
            made.last().session_id@,
            made.last().title@,
        )
    }
}

pub open spec fn titles_heard(a: AppView, made: Seq<GeneratedTitle>, disconnected: bool) -> AppView {
    all_retitled(
        AppView { title_generation: a.title_generation && !disconnected, ..a },
        made,
    )
}

impl App {
    fn title_can_be_replaced(&self, id: &str) -> (r: bool)
        ensures
            r == can_retitle(self@, id@),
    {
        let i = match session::find_session(&self.sessions, id) {
            Some(i) => i,
            None => {
                return false;
            },
        };
        if self.is_active_session(id) {
            return has_own_title(self.sessions[i].title.as_str(), &self.chat.messages);
        }
        match state::find_client(&self.clients, id) {
            Some(k) => {
                assert(self@.clients[k as int] == self.clients@[k as int]@);
                has_own_title(self.sessions[i].title.as_str(), &self.clients[k].chat.messages)
            },
            None => false,
        }
    }

    pub fn apply_generated_session_title(&mut self, id: &str, title: &str)
        ensures
            final(self)@ == retitled(old(self)@, id@, title@),
    {
        reveal(retitled);
        if text::blank(title) || !self.title_can_be_replaced(id) {
            return ;
        }
        self.rename_session(id, text::trimmed(title));
        self.refresh_sessions_dialog();
    }

    /// Takes in the titles that were made.
    pub fn process_title_generation_events(&mut self, made: Vec<GeneratedTitle>, disconnected: bool)
        ensures
            final(self)@ == titles_heard(old(self)@, made@, disconnected),
    {
        self.title_generation = self.title_generation && !disconnected;
        let ghost start = self@;
        let ghost all = made@;
        assert(all.take(0) =~= Seq::<GeneratedTitle>::empty());
        for i in 0..made.len()
            invariant
                all == made@,
                self@ == all_retitled(start, all.take(i as int)),
        {
            proof {
                assert(all.take(i as int + 1).drop_last() =~= all.take(i as int));
                assert(all.take(i as int + 1).last() == made@[i as int]);
            }
            self.apply_generated_session_title(
                made[i].session_id.as_str(),
                made[i].title.as_str(),
            );
        }
        assert(all.take(all.len() as int) =~= all);
    }
}

fn has_own_title(title: &str, ms: &Vec<message::Message>) -> (r: bool)
    ensures
        r == (message::has_one_user_message(message::messages_view(ms@))
            && (titles::is_default_title(title@) || (message::first_prompt(
            message::messages_view(ms@),
        ) matches Some(p) && titles::is_auto_title(title@, p)))),
{
    if !message::has_single_user_message(ms) {
        return false;
    }
    if titles::is_default_session_title(title) {
        return true;
    }
    match message::first_user_prompt(ms) {
        Some(p) => titles::is_auto_session_title_for_prompt(title, p.as_str()),
        None => false,
    }
}

/// A title that the user gave a session stays.
pub proof fn law_given_titles_stay(a: AppView, id: Seq<char>, title: Seq<char>, i: int)
    requires
        session::session_at(a.sessions, id) == Some(i),
        !titles::is_default_title(a.sessions[i].title),
        forall|p: Seq<char>| !#[trigger] titles::is_auto_title(a.sessions[i].title, p),
    ensures
        retitled(a, id, title) == a,
{
    reveal(retitled);
}

} // verus!

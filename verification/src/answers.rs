//! What is chosen in the dialogs, and what it changes.

use crate::app;
use crate::app::{App, AppView};
use crate::commands;
use crate::commands::{CommandFacts, CommandView, FactsView, ParsedCommand};
use crate::dialogs;
use crate::focus::{BaseFocus, OverlayFocus};
use crate::history;
use crate::navigation;
use crate::prompting;
use crate::requests;
use crate::session;
use crate::session::{Session, SessionView, Workspace, WorkspaceView};
use crate::session_list::{SessionsDialogFilter, SessionsDialogView};
use crate::state;
use crate::state::{
    ClientSessionState, ClientView, Effect, EffectView, PermissionResponse, ToastLevel,
};
use crate::stream;
use crate::terminal_title;
use crate::terminal_title::{TitleChoice, TitleChoiceView};
use crate::text;
use crate::ui;
use crate::ui::{ConnectDialogMode, DialogItem, ItemView, LaunchView, OAuthProvider, RemoteLaunchRequest, Ui, UiView};
use vstd::prelude::*;
use vstd::string::*;

verus! {

/// The dialog gone from the screen, if it is no longer visible.
pub open spec fn unless_visible(a: AppView, visible: bool) -> AppView {
    if visible {
        a
    } else {
        dialogs::blurred(a)
    }
}

/// The result of what the caller stores, with the reason of a failure.
pub open spec fn stored<T>(r: Result<T, String>) -> Result<T, Seq<char>> {
    match r {
        Ok(x) => Ok(x),
        Err(e) => Err(e@),
    }
}

pub open spec fn agent_answered(a: AppView, chosen: Option<Seq<char>>, visible: bool) -> AppView {
    unless_visible(
        match chosen {
            Some(name) => dialogs::blurred(dialogs::agent_selected(a, name)),
            None => a,
        },
        visible,
    )
}

/// What was done in the list of models.
#[derive(Debug)]
pub enum ModelsAnswer {
    Nothing,
    Chosen { provider: String, model: String },
    Favorite { favorite: bool },
    Effort { provider: String, model: String, forward: bool },
}

pub enum ModelsAnswerView {
    Nothing,
    Chosen { provider: Seq<char>, model: Seq<char> },
    Favorite { favorite: bool },
    Effort { provider: Seq<char>, model: Seq<char>, forward: bool },
}

impl View for ModelsAnswer {
    type V = ModelsAnswerView;

    open spec fn view(&self) -> ModelsAnswerView {
        match self {
            ModelsAnswer::Nothing => ModelsAnswerView::Nothing,
            ModelsAnswer::Chosen { provider, model } => ModelsAnswerView::Chosen {
                provider: provider@,
                model: model@,
            },
            ModelsAnswer::Favorite { favorite } => ModelsAnswerView::Favorite {
                favorite: *favorite,
            },
            ModelsAnswer::Effort { provider, model, forward } => ModelsAnswerView::Effort {
                provider: provider@,
                model: model@,
                forward: *forward,
            },
        }
    }
}

pub open spec fn favorite_told(a: AppView, favorite: bool) -> AppView {
    app::with_effect(
        app::toasted(
            a,
            ToastLevel::Info,
            if favorite {
                "Added to favorites"@
            } else {
                "Removed from favorites"@
            },
            0,
        ),
        EffectView::RefreshModels,
    )
}

#[verifier::opaque]
pub open spec fn model_answered(a: AppView, answer: ModelsAnswerView) -> AppView {
    match answer {
        ModelsAnswerView::Nothing => a,
        ModelsAnswerView::Chosen { provider, model } => app::toasted(
            dialogs::model_chosen(a, provider, model),
            ToastLevel::Info,
            "Switched to: "@ + model,
            0,
        ),
        ModelsAnswerView::Favorite { favorite } => favorite_told(a, favorite),
        ModelsAnswerView::Effort { provider, model, forward } => dialogs::effort_cycled(
            a,
            provider,
            model,
            forward,
            true,
        ),
    }
}

pub open spec fn models_answered(a: AppView, answer: ModelsAnswerView, visible: bool) -> AppView {
    unless_visible(model_answered(a, answer), visible)
}

/// What was done in the list of themes.
#[derive(Debug)]
pub enum ThemesAnswer {
    Nothing,
    Preview { id: String },
    Chosen { id: String },
    Transparent { transparent: bool },
}

pub enum ThemesAnswerView {
    Nothing,
    Preview { id: Seq<char> },
    Chosen { id: Seq<char> },
    Transparent { transparent: bool },
}

impl View for ThemesAnswer {
    type V = ThemesAnswerView;

    open spec fn view(&self) -> ThemesAnswerView {
        match self {
            ThemesAnswer::Nothing => ThemesAnswerView::Nothing,
            ThemesAnswer::Preview { id } => ThemesAnswerView::Preview { id: id@ },
            ThemesAnswer::Chosen { id } => ThemesAnswerView::Chosen { id: id@ },
            ThemesAnswer::Transparent { transparent } => ThemesAnswerView::Transparent {
                transparent: *transparent,
            },
        }
    }
}

pub open spec fn theme_answered(a: AppView, answer: ThemesAnswerView) -> AppView {
    match answer {
        ThemesAnswerView::Nothing => a,
        ThemesAnswerView::Preview { id } => dialogs::with_themes(
            a,
            dialogs::theme_previewed(a.ui.themes, id),
        ),
        ThemesAnswerView::Chosen { id } => dialogs::theme_committed(a, id),
        ThemesAnswerView::Transparent { transparent } => dialogs::transparency_set(a, transparent),
    }
}

pub open spec fn themes_answered(a: AppView, answer: ThemesAnswerView, visible: bool) -> AppView {
    let b = theme_answered(a, answer);
    if visible {
        b
    } else {
        dialogs::themes_left(b)
    }
}

pub open spec fn with_connect_mode(a: AppView, mode: ConnectDialogMode) -> AppView {
    AppView { ui: UiView { connect_mode: mode, ..a.ui }, ..a }
}

pub open spec fn key_asked(a: AppView, provider: Seq<char>) -> AppView {
    app::with_effect(
        AppView { overlay_focus: OverlayFocus::ApiKeyInput, ..a },
        EffectView::AskApiKey { provider },
    )
}

pub open spec fn methods_shown(a: AppView, login: OAuthProvider) -> AppView {
    app::with_effect(
        AppView {
            overlay_focus: OverlayFocus::ConnectDialog,
            ..with_connect_mode(
                a,
                match login {
                    OAuthProvider::OpenAI => ConnectDialogMode::OpenAIMethodSelection,
                    OAuthProvider::XAI => ConnectDialogMode::XAIMethodSelection,
                },
            )
        },
        EffectView::ShowConnectMethods { login },
    )
}

/// A login begun, one at a time.
#[verifier::opaque]
pub open spec fn login_begun(a: AppView, login: OAuthProvider, headless: bool) -> AppView {
    match a.ui.oauth_in_progress {
        Some(active) => dialogs::blurred(
            app::toasted(
                a,
                ToastLevel::Info,
                active.name() + " OAuth is already in progress"@,
                0,
            ),
        ),
        None => login_started(a, login, headless),
    }
}

#[verifier::opaque]
pub open spec fn login_started(a: AppView, login: OAuthProvider, headless: bool) -> AppView {
    app::with_effect(
        AppView {
            overlay_focus: OverlayFocus::ProviderOAuthFlow,
            ui: UiView {
                oauth_in_progress: Some(login),
                connect_mode: ConnectDialogMode::ProviderSelection,
                ..a.ui
            },
            ..a
        },
        EffectView::StartOAuth { login, headless },
    )
}

pub open spec fn provider_chosen(a: AppView, id: Seq<char>, local: bool) -> AppView {
    if local {
        app::with_effect(a, EffectView::ConnectLocal { provider: id })
    } else if id == "openai"@ {
        methods_shown(a, OAuthProvider::OpenAI)
    } else if id == "xai"@ {
        methods_shown(a, OAuthProvider::XAI)
    } else {
        key_asked(a, id)
    }
}

pub open spec fn method_chosen(
    a: AppView,
    login: OAuthProvider,
    id: Seq<char>,
    browser: Seq<char>,
    headless: Seq<char>,
    key: Seq<char>,
    provider: Seq<char>,
) -> AppView {
    if id == browser {
        login_begun(a, login, false)
    } else if id == headless {
        login_begun(a, login, true)
    } else if id == key {
        with_connect_mode(key_asked(a, provider), ConnectDialogMode::ProviderSelection)
    } else {
        dialogs::blurred(a)
    }
}

/// A provider, or a way to connect one, chosen in the connect dialog.
pub open spec fn connection_chosen(a: AppView, id: Seq<char>, local: bool) -> AppView {
    match a.ui.connect_mode {
        ConnectDialogMode::ProviderSelection => provider_chosen(a, id, local),
        ConnectDialogMode::OpenAIMethodSelection => method_chosen(
            a,
            OAuthProvider::OpenAI,
            id,
            "openai-oauth-browser"@,
            "openai-oauth-headless"@,
            "openai-api-key"@,
            "openai"@,
        ),
        ConnectDialogMode::XAIMethodSelection => method_chosen(
            a,
            OAuthProvider::XAI,
            id,
            "xai-oauth-browser"@,
            "xai-oauth-headless"@,
            "xai-api-key"@,
            "xai"@,
        ),
    }
}

pub open spec fn connect_left(a: AppView) -> AppView {
    dialogs::blurred(with_connect_mode(a, ConnectDialogMode::ProviderSelection))
}

/// A provider to be disconnected: only from the list of providers.
pub open spec fn disconnect_asked(a: AppView) -> AppView {
    if a.ui.connect_mode == ConnectDialogMode::ProviderSelection {
        app::with_effect(a, EffectView::DisconnectProvider)
    } else {
        app::toasted(a, ToastLevel::Info, "Disconnect is available in provider list"@, 0)
    }
}

/// The name to show for the login under way.
pub open spec fn login_name(a: AppView) -> Seq<char> {
    match a.ui.oauth_in_progress {
        Some(p) => p.name(),
        None => "OAuth"@,
    }
}

pub open spec fn link_copied(a: AppView, link: Seq<char>, name: Seq<char>) -> AppView {
    app::with_effect(
        a,
        EffectView::CopyLink { link, done: "Copied "@ + name + " login link"@ },
    )
}

/// The key of a provider kept, and the connect dialog filled anew.
pub open spec fn key_given(a: AppView, kept: bool) -> AppView {
    dialogs::blurred(
        if kept {
            app::with_effect(
                with_connect_mode(a, ConnectDialogMode::ProviderSelection),
                EffectView::ResetConnect,
            )
        } else {
            a
        },
    )
}

impl App {
    fn hide_unless(&mut self, visible: bool)
        ensures
            final(self)@ == unless_visible(old(self)@, visible),
    {
        if !visible {
            self.overlay_focus = OverlayFocus::Nothing;
        }
    }

    pub fn answer_agents(&mut self, chosen: Option<String>, visible: bool)
        ensures
            final(self)@ == agent_answered(old(self)@, text::opt_view(chosen), visible),
    {
        match chosen {
            Some(name) => {
                self.select_agent_from_dialog(name.as_str());
                self.blur();
                self.hide_unless(visible);
            },
            None => {
                self.hide_unless(visible);
            },
        }
    }

    fn tell_favorite(&mut self, favorite: bool)
        ensures
            final(self)@ == favorite_told(old(self)@, favorite),
    {
        let t = if favorite {
            "Added to favorites"
        } else {
            "Removed from favorites"
        };
        self.push_toast(ToastLevel::Info, t, 0);
        self.push_effect(Effect::RefreshModels);
    }

    fn switch_model(&mut self, provider: &str, model: &str)
        ensures
            final(self)@ == app::toasted(
                dialogs::model_chosen(old(self)@, provider@, model@),
                ToastLevel::Info,
                "Switched to: "@ + model@,
                0,
            ),
    {
        self.choose_model(provider, model);
        let mut t = "Switched to: ".to_string();
        t.append(model);
        self.push_toast(ToastLevel::Info, t.as_str(), 0);
    }

    fn answer_model(&mut self, answer: ModelsAnswer)
        ensures
            final(self)@ == model_answered(old(self)@, answer@),
    {
        reveal(model_answered);
        match answer {
            ModelsAnswer::Nothing => {},
            ModelsAnswer::Chosen { provider, model } => {
                self.switch_model(provider.as_str(), model.as_str());
            },
            ModelsAnswer::Favorite { favorite } => {
                self.tell_favorite(favorite);
            },
            ModelsAnswer::Effort { provider, model, forward } => {
                self.cycle_reasoning_effort_for_model(
                    provider.as_str(),
                    model.as_str(),
                    forward,
                    true,
                );
            },
        }
    }

    pub fn answer_models(&mut self, answer: ModelsAnswer, visible: bool)
        ensures
            final(self)@ == models_answered(old(self)@, answer@, visible),
    {
        self.answer_model(answer);
        self.hide_unless(visible);
    }

    fn answer_theme(&mut self, answer: ThemesAnswer)
        ensures
            final(self)@ == theme_answered(old(self)@, answer@),
    {
        match answer {
            ThemesAnswer::Nothing => {},
            ThemesAnswer::Preview { id } => {
                self.preview_theme_by_id(id.as_str());
            },
            ThemesAnswer::Chosen { id } => {
                self.commit_theme_by_id(id.as_str());
            },
            ThemesAnswer::Transparent { transparent } => {
                self.apply_theme_transparent(transparent);
            },
        }
    }

    pub fn answer_themes(&mut self, answer: ThemesAnswer, visible: bool)
        ensures
            final(self)@ == themes_answered(old(self)@, answer@, visible),
    {
        self.answer_theme(answer);
        if !visible {
            self.leave_themes_dialog();
        }
    }

    fn set_connect_mode(&mut self, mode: ConnectDialogMode)
        ensures
            final(self)@ == with_connect_mode(old(self)@, mode),
    {
        reveal(<Ui as View>::view);
        self.ui.connect_mode = mode;
    }

    fn ask_key(&mut self, provider: &str)
        ensures
            final(self)@ == key_asked(old(self)@, provider@),
    {
        self.overlay_focus = OverlayFocus::ApiKeyInput;
        self.push_effect(Effect::AskApiKey { provider: provider.to_owned() });
    }

    fn show_connect_methods(&mut self, login: OAuthProvider)
        ensures
            final(self)@ == methods_shown(old(self)@, login),
    {
        let mode = match login {
            OAuthProvider::OpenAI => ConnectDialogMode::OpenAIMethodSelection,
            OAuthProvider::XAI => ConnectDialogMode::XAIMethodSelection,
        };
        self.set_connect_mode(mode);
        self.overlay_focus = OverlayFocus::ConnectDialog;
        self.push_effect(Effect::ShowConnectMethods { login });
    }

    fn start_login(&mut self, login: OAuthProvider, headless: bool)
        ensures
            final(self)@ == login_started(old(self)@, login, headless),
    {
        reveal(<Ui as View>::view);
        reveal(login_started);
        self.ui.oauth_in_progress = Some(login);
        self.ui.connect_mode = ConnectDialogMode::ProviderSelection;
        self.overlay_focus = OverlayFocus::ProviderOAuthFlow;
        self.push_effect(Effect::StartOAuth { login, headless });
    }

    fn login_under_way(&self) -> (r: Option<OAuthProvider>)
        ensures
            r == self@.ui.oauth_in_progress,
    {
        reveal(<Ui as View>::view);
        self.ui.oauth_in_progress
    }

    /// Starts to log in at a provider.
    pub fn begin_provider_oauth(&mut self, login: OAuthProvider, headless: bool)
        ensures
            final(self)@ == login_begun(old(self)@, login, headless),
    {
        reveal(login_begun);
        match self.login_under_way() {
            Some(active) => {
                let mut t = active.label().to_string();
                t.append(" OAuth is already in progress");
                self.push_toast(ToastLevel::Info, t.as_str(), 0);
                self.blur();
            },
            None => {
                self.start_login(login, headless);
            },
        }
    }

    fn choose_provider(&mut self, id: &str, local: bool)
        ensures
            final(self)@ == provider_chosen(old(self)@, id@, local),
    {
        if local {
            self.push_effect(Effect::ConnectLocal { provider: id.to_owned() });
            return ;
        }
        if text::same(id, "openai") {
            self.show_connect_methods(OAuthProvider::OpenAI);
            return ;
        }
        if text::same(id, "xai") {
            self.show_connect_methods(OAuthProvider::XAI);
            return ;
        }
        self.ask_key(id);
    }

    fn choose_method(
        &mut self,
        login: OAuthProvider,
        id: &str,
        browser: &str,
        headless: &str,
        key: &str,
        provider: &str,
    )
        ensures
            final(self)@ == method_chosen(
                old(self)@,
                login,
                id@,
                browser@,
                headless@,
                key@,
                provider@,
            ),
    {
        if text::same(id, browser) {
            self.begin_provider_oauth(login, false);
            return ;
        }
        if text::same(id, headless) {
            self.begin_provider_oauth(login, true);
            return ;
        }
        if text::same(id, key) {
            self.ask_key(provider);
            self.set_connect_mode(ConnectDialogMode::ProviderSelection);
            return ;
        }
        self.blur();
    }

    /// Acts on a line of the connect dialog.
    pub fn handle_connect_dialog_selection(&mut self, id: &str, local: bool)
        ensures
            final(self)@ == connection_chosen(old(self)@, id@, local),
    {
        reveal(<Ui as View>::view);
        match self.ui.connect_mode {
            ConnectDialogMode::ProviderSelection => self.choose_provider(id, local),
            ConnectDialogMode::OpenAIMethodSelection => self.choose_method(
                OAuthProvider::OpenAI,
                id,
                "openai-oauth-browser",
                "openai-oauth-headless",
                "openai-api-key",
                "openai",
            ),
            ConnectDialogMode::XAIMethodSelection => self.choose_method(
                OAuthProvider::XAI,
                id,
                "xai-oauth-browser",
                "xai-oauth-headless",
                "xai-api-key",
                "xai",
            ),
        }
    }

    pub fn leave_connect_dialog(&mut self)
        ensures
            final(self)@ == connect_left(old(self)@),
    {
        self.set_connect_mode(ConnectDialogMode::ProviderSelection);
        self.blur();
    }

    pub fn disconnect_selected_provider(&mut self)
        ensures
            final(self)@ == disconnect_asked(old(self)@),
    {
        reveal(<Ui as View>::view);
        if self.ui.connect_mode == ConnectDialogMode::ProviderSelection {
            self.push_effect(Effect::DisconnectProvider);
            return ;
        }
        self.push_toast(ToastLevel::Info, "Disconnect is available in provider list", 0);
    }

    pub fn copy_login_link(&mut self, link: &str, name: &str)
        ensures
            final(self)@ == link_copied(old(self)@, link@, name@),
    {
        let mut done = "Copied ".to_string();
        done.append(name);
        done.append(" login link");
        self.push_effect(Effect::CopyLink { link: link.to_owned(), done });
    }

    pub fn login_label(&self) -> (r: String)
        ensures
            r@ == login_name(self@),
    {
        reveal(<Ui as View>::view);
        match self.ui.oauth_in_progress {
            Some(p) => p.label().to_string(),
            None => "OAuth".to_string(),
        }
    }

    /// The key of a provider was given; `kept` says whether the store could be opened.
    pub fn answer_api_key(&mut self, kept: bool)
        ensures
            final(self)@ == key_given(old(self)@, kept),
    {
        if kept {
            self.set_connect_mode(ConnectDialogMode::ProviderSelection);
            self.push_effect(Effect::ResetConnect);
        }
        self.blur();
    }
}

/// What was done in the list of sessions. What the caller has stored already comes with its
/// result.
#[derive(Debug)]
pub enum SessionsAnswer {
    Handled,
    NotHandled,
    Close,
    Select { id: String },
    New,
    Filter { filter: SessionsDialogFilter },
    Pin { id: String, stored: Result<bool, String> },
    Archive { id: String },
    Delete { id: String, pending: Option<String> },
    Rename { id: String, title: String },
    MoveGroup { stored: Result<bool, String> },
}

pub enum SessionsAnswerView {
    Handled,
    NotHandled,
    Close,
    Select { id: Seq<char> },
    New,
    Filter { filter: SessionsDialogFilter },
    Pin { id: Seq<char>, stored: Result<bool, Seq<char>> },
    Archive { id: Seq<char> },
    Delete { id: Seq<char>, pending: Option<Seq<char>> },
    Rename { id: Seq<char>, title: Seq<char> },
    MoveGroup { stored: Result<bool, Seq<char>> },
}

impl View for SessionsAnswer {
    type V = SessionsAnswerView;

    open spec fn view(&self) -> SessionsAnswerView {
        match self {
            SessionsAnswer::Handled => SessionsAnswerView::Handled,
            SessionsAnswer::NotHandled => SessionsAnswerView::NotHandled,
            SessionsAnswer::Close => SessionsAnswerView::Close,
            SessionsAnswer::Select { id } => SessionsAnswerView::Select { id: id@ },
            SessionsAnswer::New => SessionsAnswerView::New,
            SessionsAnswer::Filter { filter } => SessionsAnswerView::Filter { filter: *filter },
            SessionsAnswer::Pin { id, stored } => SessionsAnswerView::Pin {
                id: id@,
                stored: self::stored(*stored),
            },
            SessionsAnswer::Archive { id } => SessionsAnswerView::Archive { id: id@ },
            SessionsAnswer::Delete { id, pending } => SessionsAnswerView::Delete {
                id: id@,
                pending: text::opt_view(*pending),
            },
            SessionsAnswer::Rename { id, title } => SessionsAnswerView::Rename {
                id: id@,
                title: title@,
            },
            SessionsAnswer::MoveGroup { stored } => SessionsAnswerView::MoveGroup {
                stored: self::stored(*stored),
            },
        }
    }
}

/// One session changed.
pub open spec fn with_session(a: AppView, i: int, s: SessionView) -> AppView {
    AppView { sessions: a.sessions.update(i, s), ..a }
}

#[verifier::opaque]
pub open spec fn pinned(a: AppView, id: Seq<char>, pin: bool) -> AppView {
    match session::session_at(a.sessions, id) {
        Some(i) => with_session(a, i, SessionView { pinned: pin, ..a.sessions[i] }),
        None => a,
    }
}

pub open spec fn pin_told(a: AppView, id: Seq<char>, stored: Result<bool, Seq<char>>) -> AppView {
    app::relisted(
        match stored {
            Ok(pin) => app::toasted(
                pinned(a, id, pin),
                ToastLevel::Info,
                if pin {
                    "Pinned session"@
                } else {
                    "Unpinned session"@
                },
                0,
            ),
            Err(why) => app::toasted(
                a,
                ToastLevel::Error,
                "Failed to pin session: "@ + why,
                0,
            ),
        },
    )
}

/// A session put into the archive, or taken out of it.
#[verifier::opaque]
pub open spec fn archive_set(a: AppView, id: Seq<char>, archived: bool) -> AppView {
    match session::session_at(a.sessions, id) {
        Some(i) => with_session(a, i, SessionView { archived, ..a.sessions[i] }),
        None => a,
    }
}

/// The current session left for the home screen.
#[verifier::opaque]
pub open spec fn session_left(a: AppView) -> AppView {
    let b = app::put_away(a);
    prompting::home_shown(AppView { pending_session_title: None, current: None, ..b })
}

/// The session archived, or brought back when it is the archive that is listed; the current
/// session is left when it goes.
#[verifier::opaque]
pub open spec fn archived(a: AppView, id: Seq<char>) -> AppView {
    let archive = a.sessions_dialog.filter != SessionsDialogFilter::Archived;
    let b = archive_set(a, id, archive);
    app::relisted(
        if archive && app::is_current(a, id) {
            session_left(b)
        } else {
            b
        },
    )
}

/// The sessions without those of that id.
pub open spec fn sessions_without(s: Seq<SessionView>, id: Seq<char>) -> Seq<SessionView> {
    s.filter(|x: SessionView| x.id != id)
}

pub open spec fn clients_without(c: Seq<ClientView>, id: Seq<char>) -> Seq<ClientView> {
    c.filter(|x: ClientView| x.id != id)
}

pub open spec fn forgotten(a: AppView, id: Seq<char>) -> AppView {
    AppView {
        sessions: sessions_without(a.sessions, id),
        clients: clients_without(a.clients, id),
        current: if app::is_current(a, id) {
            None
        } else {
            a.current
        },
        ..a
    }
}

pub open spec fn both_forgotten(a: AppView, id: Seq<char>, pending: Option<Seq<char>>) -> AppView {
    let b = forgotten(a, id);
    match pending {
        Some(other) => forgotten(b, other),
        None => b,
    }
}

/// A session deleted; when it was the current one, the home screen is shown.
#[verifier::opaque]
pub open spec fn deleted(a: AppView, id: Seq<char>, pending: Option<Seq<char>>) -> AppView {
    let b = app::relisted(both_forgotten(a, id, pending));
    if app::is_current(a, id) {
        prompting::home_shown(AppView { pending_session_title: None, ..b })
    } else {
        b
    }
}

pub open spec fn rename_asked(a: AppView, id: Seq<char>, title: Seq<char>) -> AppView {
    app::with_effect(
        AppView { overlay_focus: OverlayFocus::SessionRenameDialog, ..a },
        EffectView::ShowRename { session_id: id, title },
    )
}

pub open spec fn group_moved(a: AppView, stored: Result<bool, Seq<char>>) -> AppView {
    match stored {
        Ok(moved) => if moved {
            app::relisted(a)
        } else {
            a
        },
        Err(why) => app::toasted(a, ToastLevel::Error, "Failed to move workspace: "@ + why, 0),
    }
}

pub open spec fn session_picked(a: AppView, id: Seq<char>) -> AppView {
    dialogs::sessions_hidden(
        if stream::exists_session(a, id) {
            stream::switched(a, id)
        } else {
            a
        },
    )
}

pub open spec fn refiltered(a: AppView, filter: SessionsDialogFilter) -> AppView {
    app::relisted(
        AppView { sessions_dialog: SessionsDialogView { filter, ..a.sessions_dialog }, ..a },
    )
}

pub open spec fn sessions_answered(
    a: AppView,
    answer: SessionsAnswerView,
    visible: bool,
) -> AppView {
    match answer {
        SessionsAnswerView::Handled => a,
        SessionsAnswerView::NotHandled => a,
        SessionsAnswerView::Close => unless_visible(a, visible),
        SessionsAnswerView::Select { id } => session_picked(a, id),
        SessionsAnswerView::New => dialogs::sessions_hidden(prompting::blank_session(a, None)),
        SessionsAnswerView::Filter { filter } => refiltered(a, filter),
        SessionsAnswerView::Pin { id, stored } => pin_told(a, id, stored),
        SessionsAnswerView::Archive { id } => archived(a, id),
        SessionsAnswerView::Delete { id, pending } => deleted(a, id, pending),
        SessionsAnswerView::Rename { id, title } => rename_asked(a, id, title),
        SessionsAnswerView::MoveGroup { stored } => group_moved(a, stored),
    }
}

/// Whether a key ends with the list of sessions.
pub open spec fn sessions_takes(answer: SessionsAnswerView) -> bool {
    !(answer is NotHandled || answer is Close)
}

fn sessions_except(s: Vec<Session>, id: &str) -> (r: Vec<Session>)
    ensures
        session::sessions_view(r@) == sessions_without(session::sessions_view(s@), id@),
{
    let ghost all = session::sessions_view(s@);
    let ghost keeps = |x: SessionView| x.id != id@;
    let ghost given = s@;
    let mut out: Vec<Session> = Vec::new();
    proof {
        assert(all.take(0) =~= Seq::<SessionView>::empty());
        reveal(Seq::filter);
        assert(session::sessions_view(out@) =~= all.take(0).filter(keeps));
    }
    for x in it: s
        invariant
            it.seq() == given,
            all == session::sessions_view(given),
            keeps == (|x: SessionView| x.id != id@),
            session::sessions_view(out@) == all.take(it.index()).filter(keeps),
    {
        let ghost before = out@;
        let ghost seen = all.take(it.index() + 1);
        proof {
            reveal(Seq::filter);
            assert(seen.drop_last() =~= all.take(it.index()));
            assert(seen.last() == x@);
        }
        if !text::same(x.id.as_str(), id) {
            out.push(x);
            assert(session::sessions_view(out@) =~= session::sessions_view(before).push(x@));
        }
    }
    assert(all.take(all.len() as int) =~= all);
    out
}

fn clients_except(c: Vec<ClientSessionState>, id: &str) -> (r: Vec<ClientSessionState>)
    ensures
        state::clients_view(r@) == clients_without(state::clients_view(c@), id@),
{
    let ghost all = state::clients_view(c@);
    let ghost keeps = |x: ClientView| x.id != id@;
    let ghost given = c@;
    let mut out: Vec<ClientSessionState> = Vec::new();
    proof {
        assert(all.take(0) =~= Seq::<ClientView>::empty());
        reveal(Seq::filter);
        assert(state::clients_view(out@) =~= all.take(0).filter(keeps));
    }
    for x in it: c
        invariant
            it.seq() == given,
            all == state::clients_view(given),
            keeps == (|x: ClientView| x.id != id@),
            state::clients_view(out@) == all.take(it.index()).filter(keeps),
    {
        let ghost before = out@;
        let ghost seen = all.take(it.index() + 1);
        proof {
            reveal(Seq::filter);
            assert(seen.drop_last() =~= all.take(it.index()));
            assert(seen.last() == x@);
        }
        if !text::same(x.id.as_str(), id) {
            out.push(x);
            assert(state::clients_view(out@) =~= state::clients_view(before).push(x@));
        }
    }
    assert(all.take(all.len() as int) =~= all);
    out
}

impl App {
    fn set_pin(&mut self, id: &str, pin: bool)
        ensures
            final(self)@ == pinned(old(self)@, id@, pin),
    {
        reveal(pinned);
        match session::find_session(&self.sessions, id) {
            Some(i) => {
                let ghost before = self.sessions@;
                self.sessions[i].pinned = pin;
                proof {
                    assert(self.sessions@ =~= before.update(i as int, self.sessions@[i as int]));
                    app::lemma_sessions_update(before, i as int, self.sessions@[i as int]);
                }
            },
            None => {},
        }
    }

    fn tell_pin(&mut self, id: &str, stored: Result<bool, String>)
        ensures
            final(self)@ == pin_told(old(self)@, id@, self::stored(stored)),
    {
        match stored {
            Ok(pin) => {
                self.set_pin(id, pin);
                let t = if pin {
                    "Pinned session"
                } else {
                    "Unpinned session"
                };
                self.push_toast(ToastLevel::Info, t, 0);
                self.refresh_sessions_dialog();
            },
            Err(why) => {
                let mut t = "Failed to pin session: ".to_string();
                t.append(why.as_str());
                self.push_toast(ToastLevel::Error, t.as_str(), 0);
                self.refresh_sessions_dialog();
            },
        }
    }

    pub fn set_session_archived(&mut self, id: &str, archived: bool)
        ensures
            final(self)@ == archive_set(old(self)@, id@, archived),
    {
        reveal(archive_set);
        match session::find_session(&self.sessions, id) {
            Some(i) => {
                let ghost before = self.sessions@;
                self.sessions[i].archived = archived;
                proof {
                    assert(self.sessions@ =~= before.update(i as int, self.sessions@[i as int]));
                    app::lemma_sessions_update(before, i as int, self.sessions@[i as int]);
                }
            },
            None => {},
        }
    }

    /// Leaves the current session for the home screen.
    pub fn leave_session(&mut self)
        ensures
            final(self)@ == session_left(old(self)@),
    {
        reveal(session_left);
        self.save_active_session_view_state();
        self.pending_session_title = None;
        self.current = None;
        self.show_home();
    }

    pub fn archive_session(&mut self, id: &str)
        ensures
            final(self)@ == archived(old(self)@, id@),
    {
        reveal(archived);
        let archive = self.sessions_dialog.filter != SessionsDialogFilter::Archived;
        let leaves = archive && self.is_active_session(id);
        self.set_session_archived(id, archive);
        if leaves {
            self.leave_session();
        }
        self.refresh_sessions_dialog();
    }

    fn forget_session(&mut self, id: &str)
        ensures
            final(self)@ == forgotten(old(self)@, id@),
    {
        let is_current = self.is_active_session(id);
        let mut sessions: Vec<Session> = Vec::new();
        std::mem::swap(&mut sessions, &mut self.sessions);
        self.sessions = sessions_except(sessions, id);
        let mut clients: Vec<ClientSessionState> = Vec::new();
        std::mem::swap(&mut clients, &mut self.clients);
        self.clients = clients_except(clients, id);
        if is_current {
            self.current = None;
        }
    }

    fn forget_sessions(&mut self, id: &str, pending: Option<String>)
        ensures
            final(self)@ == both_forgotten(old(self)@, id@, text::opt_view(pending)),
    {
        self.forget_session(id);
        match pending {
            Some(other) => {
                self.forget_session(other.as_str());
            },
            None => {},
        }
    }

    /// Deletes a session, and one whose deletion was pending.
    pub fn delete_session(&mut self, id: &str, pending: Option<String>)
        ensures
            final(self)@ == deleted(old(self)@, id@, text::opt_view(pending)),
    {
        reveal(deleted);
        let was_current = self.is_active_session(id);
        self.forget_sessions(id, pending);
        self.refresh_sessions_dialog();
        if was_current {
            self.pending_session_title = None;
            self.show_home();
        }
    }

    fn ask_rename(&mut self, id: String, title: String)
        ensures
            final(self)@ == rename_asked(old(self)@, id@, title@),
    {
        self.overlay_focus = OverlayFocus::SessionRenameDialog;
        self.push_effect(Effect::ShowRename { session_id: id, title });
    }

    fn move_group(&mut self, stored: Result<bool, String>)
        ensures
            final(self)@ == group_moved(old(self)@, self::stored(stored)),
    {
        match stored {
            Ok(moved) => {
                if moved {
                    self.refresh_sessions_dialog();
                }
            },
            Err(why) => {
                let mut t = "Failed to move workspace: ".to_string();
                t.append(why.as_str());
                self.push_toast(ToastLevel::Error, t.as_str(), 0);
            },
        }
    }

    pub fn pick_session(&mut self, id: &str)
        ensures
            final(self)@ == session_picked(old(self)@, id@),
    {
        self.switch_to_session(id);
        self.hide_sessions_dialog();
    }

    fn refilter(&mut self, filter: SessionsDialogFilter)
        ensures
            final(self)@ == refiltered(old(self)@, filter),
    {
        self.sessions_dialog.filter = filter;
        self.refresh_sessions_dialog();
    }

    pub fn answer_sessions(&mut self, answer: SessionsAnswer, visible: bool) -> (r: bool)
        ensures
            r == sessions_takes(answer@),
            final(self)@ == sessions_answered(old(self)@, answer@, visible),
    {
        match answer {
            SessionsAnswer::Handled => true,
            SessionsAnswer::NotHandled => false,
            SessionsAnswer::Close => {
                self.hide_unless(visible);
                false
            },
            SessionsAnswer::Select { id } => {
                self.pick_session(id.as_str());
                true
            },
            SessionsAnswer::New => {
                self.start_blank_session(None);
                self.hide_sessions_dialog();
                true
            },
            SessionsAnswer::Filter { filter } => {
                self.refilter(filter);
                true
            },
            SessionsAnswer::Pin { id, stored } => {
                self.tell_pin(id.as_str(), stored);
                true
            },
            SessionsAnswer::Archive { id } => {
                self.archive_session(id.as_str());
                true
            },
            SessionsAnswer::Delete { id, pending } => {
                self.delete_session(id.as_str(), pending);
                true
            },
            SessionsAnswer::Rename { id, title } => {
                self.ask_rename(id, title);
                true
            },
            SessionsAnswer::MoveGroup { stored } => {
                self.move_group(stored);
                true
            },
        }
    }
}

/// A way to connect a provider, as the connect dialog lists it.
pub open spec fn method_line(
    login: OAuthProvider,
    id: Seq<char>,
    name: Seq<char>,
    description: Seq<char>,
) -> ItemView {
    ItemView {
        id,
        name,
        group: login.name(),
        description,
        tip: None,
        provider_id: login.id(),
        active: false,
    }
}

/// The ways to connect a provider.
pub open spec fn connect_methods(login: OAuthProvider) -> Seq<ItemView> {
    match login {
        OAuthProvider::OpenAI => seq![
            method_line(
                login,
                "openai-oauth-browser"@,
                "ChatGPT Plus/Pro (browser)"@,
                "OAuth via browser callback"@,
            ),
            method_line(
                login,
                "openai-oauth-headless"@,
                "ChatGPT Plus/Pro (headless)"@,
                "Device code login flow"@,
            ),
            method_line(
                login,
                "openai-api-key"@,
                "Manually enter API key"@,
                "Use OpenAI API key"@,
            ),
        ],
        OAuthProvider::XAI => seq![
            method_line(
                login,
                "xai-oauth-browser"@,
                "xAI Grok OAuth (SuperGrok Subscription)"@,
                "OAuth via browser callback"@,
            ),
            method_line(
                login,
                "xai-oauth-headless"@,
                "xAI Grok OAuth (Headless / Remote / VPS)"@,
                "Device code login flow"@,
            ),
            method_line(login, "xai-api-key"@, "Manually enter API key"@, "Use xAI API key"@),
        ],
    }
}

fn make_method(login: OAuthProvider, id: &str, name: &str, description: &str) -> (r: DialogItem)
    ensures
        r@ == method_line(login, id@, name@, description@),
{
    DialogItem {
        id: id.to_owned(),
        name: name.to_owned(),
        group: login.label().to_owned(),
        description: description.to_owned(),
        tip: None,
        provider_id: login.provider_id().to_owned(),
        active: false,
    }
}

pub fn connect_method_items(login: OAuthProvider) -> (r: Vec<DialogItem>)
    ensures
        ui::item_views(r@) == connect_methods(login),
{
    let mut items: Vec<DialogItem> = Vec::new();
    match login {
        OAuthProvider::OpenAI => {
            items.push(
                make_method(
                    login,
                    "openai-oauth-browser",
                    "ChatGPT Plus/Pro (browser)",
                    "OAuth via browser callback",
                ),
            );
            items.push(
                make_method(
                    login,
                    "openai-oauth-headless",
                    "ChatGPT Plus/Pro (headless)",
                    "Device code login flow",
                ),
            );
            items.push(
                make_method(
                    login,
                    "openai-api-key",
                    "Manually enter API key",
                    "Use OpenAI API key",
                ),
            );
        },
        OAuthProvider::XAI => {
            items.push(
                make_method(
                    login,
                    "xai-oauth-browser",
                    "xAI Grok OAuth (SuperGrok Subscription)",
                    "OAuth via browser callback",
                ),
            );
            items.push(
                make_method(
                    login,
                    "xai-oauth-headless",
                    "xAI Grok OAuth (Headless / Remote / VPS)",
                    "Device code login flow",
                ),
            );
            items.push(
                make_method(
                    login,
                    "xai-api-key",
                    "Manually enter API key",
                    "Use xAI API key",
                ),
            );
        },
    }
    assert(ui::item_views(items@) =~= connect_methods(login));
    items
}

} // verus!

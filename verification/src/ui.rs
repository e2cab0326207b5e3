//! What the screen keeps besides transcripts and prompts.

use crate::focus::OverlayFocus;
use crate::text;
use vstd::prelude::*;
use vstd::string::*;

verus! {

#[derive(Debug, Clone, Copy, PartialEq, Eq, Structural)]
pub enum OAuthProvider {
    OpenAI,
    XAI,
}

impl OAuthProvider {
    pub open spec fn id(self) -> Seq<char> {
        match self {
            OAuthProvider::OpenAI => "openai"@,
            OAuthProvider::XAI => "xai"@,
        }
    }

    pub open spec fn name(self) -> Seq<char> {
        match self {
            OAuthProvider::OpenAI => "OpenAI"@,
            OAuthProvider::XAI => "xAI"@,
        }
    }

    pub open spec fn greeting(self) -> Seq<char> {
        match self {
            OAuthProvider::OpenAI => "Connected OpenAI via ChatGPT Plus/Pro OAuth"@,
            OAuthProvider::XAI => "Connected xAI via Grok OAuth"@,
        }
    }

    pub open spec fn first_model(self) -> Seq<char> {
        match self {
            OAuthProvider::OpenAI => "gpt-5.3-codex"@,
            OAuthProvider::XAI => "grok-build-0.1"@,
        }
    }

    pub fn provider_id(self) -> (r: &'static str)
        ensures
            r@ == self.id(),
    {
        match self {
            OAuthProvider::OpenAI => "openai",
            OAuthProvider::XAI => "xai",
        }
    }

    pub fn label(self) -> (r: &'static str)
        ensures
            r@ == self.name(),
    {
        match self {
            OAuthProvider::OpenAI => "OpenAI",
            OAuthProvider::XAI => "xAI",
        }
    }

    pub fn connected_message(self) -> (r: &'static str)
        ensures
            r@ == self.greeting(),
    {
        match self {
            OAuthProvider::OpenAI => "Connected OpenAI via ChatGPT Plus/Pro OAuth",
            OAuthProvider::XAI => "Connected xAI via Grok OAuth",
        }
    }

    pub fn default_model(self) -> (r: &'static str)
        ensures
            r@ == self.first_model(),
    {
        match self {
            OAuthProvider::OpenAI => "gpt-5.3-codex",
            OAuthProvider::XAI => "grok-build-0.1",
        }
    }
}

/// What the connect dialog lists: providers, or the ways to connect one of them.
#[derive(Debug, Clone, Copy, PartialEq, Eq, Structural)]
pub enum ConnectDialogMode {
    ProviderSelection,
    OpenAIMethodSelection,
    XAIMethodSelection,
}

#[derive(Debug, Clone, Copy, PartialEq, Eq, Structural)]
pub enum ModelsTaskKind {
    Load,
    Refresh,
}

#[derive(Debug, Clone, Copy, PartialEq, Eq, Structural)]
pub enum SelectionActionTarget {
    Chat,
    Input,
}

/// The bar of actions beside selected text.
#[derive(Debug, Clone, Copy, PartialEq, Eq, Structural)]
pub struct SelectionActionBarState {
    pub target: SelectionActionTarget,
    pub can_open_in_editor: bool,
}

/// A remote client to be started in the place of this one.
#[derive(Debug, Clone, PartialEq, Eq)]
pub struct RemoteLaunchRequest {
    pub bind: String,
    pub pair_code: Option<String>,
}

pub struct LaunchView {
    pub bind: Seq<char>,
    pub pair_code: Option<Seq<char>>,
}

pub open spec fn launch_view(r: RemoteLaunchRequest) -> LaunchView {
    LaunchView { bind: r.bind@, pair_code: text::opt_view(r.pair_code) }
}

pub open spec fn opt_launch(r: Option<RemoteLaunchRequest>) -> Option<LaunchView> {
    match r {
        Some(x) => Some(launch_view(x)),
        None => None,
    }
}

/// A line of a dialog.
#[derive(Debug)]
pub struct DialogItem {
    pub id: String,
    pub name: String,
    pub group: String,
    pub description: String,
    pub tip: Option<String>,
    pub provider_id: String,
    pub active: bool,
}

pub struct ItemView {
    pub id: Seq<char>,
    pub name: Seq<char>,
    pub group: Seq<char>,
    pub description: Seq<char>,
    pub tip: Option<Seq<char>>,
    pub provider_id: Seq<char>,
    pub active: bool,
}

impl View for DialogItem {
    type V = ItemView;

    open spec fn view(&self) -> ItemView {
        ItemView {
            id: self.id@,
            name: self.name@,
            group: self.group@,
            description: self.description@,
            tip: text::opt_view(self.tip),
            provider_id: self.provider_id@,
            active: self.active,
        }
    }
}

pub open spec fn item_views(v: Seq<DialogItem>) -> Seq<ItemView> {
    v.map_values(|i: DialogItem| i@)
}

#[derive(Debug)]
pub struct Theme {
    pub id: String,
    pub dark: bool,
}

pub struct ThemeView {
    pub id: Seq<char>,
    pub dark: bool,
}

impl View for Theme {
    type V = ThemeView;

    open spec fn view(&self) -> ThemeView {
        ThemeView { id: self.id@, dark: self.dark }
    }
}

pub open spec fn theme_views(v: Seq<Theme>) -> Seq<ThemeView> {
    v.map_values(|t: Theme| t@)
}

/// The themes, the one in use, and the one to go back to when the dialog is left.
#[derive(Debug)]
pub struct ThemeState {
    pub themes: Vec<Theme>,
    pub index: usize,
    pub dark_mode: bool,
    pub transparent: bool,
    pub original_index: usize,
    pub original_dark_mode: bool,
    pub committed: bool,
}

pub struct ThemesView {
    pub themes: Seq<ThemeView>,
    pub index: usize,
    pub dark_mode: bool,
    pub transparent: bool,
    pub original_index: usize,
    pub original_dark_mode: bool,
    pub committed: bool,
}

impl View for ThemeState {
    type V = ThemesView;

    open spec fn view(&self) -> ThemesView {
        ThemesView {
            themes: theme_views(self.themes@),
            index: self.index,
            dark_mode: self.dark_mode,
            transparent: self.transparent,
            original_index: self.original_index,
            original_dark_mode: self.original_dark_mode,
            committed: self.committed,
        }
    }
}

/// What the models dialog lists, and the look-up that fills it.
#[derive(Debug)]
pub struct ModelsDialog {
    pub items: Vec<DialogItem>,
    pub task: Option<ModelsTaskKind>,
    pub loading: bool,
    pub provider_ids: Option<Vec<String>>,
}

pub struct ModelsView {
    pub items: Seq<ItemView>,
    pub task: Option<ModelsTaskKind>,
    pub loading: bool,
    pub provider_ids: Option<Seq<Seq<char>>>,
}

pub open spec fn opt_views(v: Option<Vec<String>>) -> Option<Seq<Seq<char>>> {
    match v {
        Some(x) => Some(text::views(x@)),
        None => None,
    }
}

impl View for ModelsDialog {
    type V = ModelsView;

    open spec fn view(&self) -> ModelsView {
        ModelsView {
            items: item_views(self.items@),
            task: self.task,
            loading: self.loading,
            provider_ids: opt_views(self.provider_ids),
        }
    }
}

/// The pieces that a terminal title can be made of.
#[derive(Debug, Clone, Copy, PartialEq, Eq, Structural)]
pub enum TerminalTitleItem {
    Activity,
    ProjectName,
    RunState,
    ThreadTitle,
    ThreadTitleTruncated,
    GitBranch,
}

/// The terminal's title: what it is made of, and what stands there.
#[derive(Debug)]
pub struct TitleState {
    pub enabled: bool,
    pub items: Vec<TerminalTitleItem>,
    pub last: Option<String>,
    pub animation_origin: u64,
    pub branch: Option<String>,
    pub branch_path: String,
    pub branch_checked: u64,
}

pub struct TitleView {
    pub enabled: bool,
    pub items: Seq<TerminalTitleItem>,
    pub last: Option<Seq<char>>,
    pub animation_origin: u64,
    pub branch: Option<Seq<char>>,
    pub branch_path: Seq<char>,
    pub branch_checked: u64,
}

impl View for TitleState {
    type V = TitleView;

    open spec fn view(&self) -> TitleView {
        TitleView {
            enabled: self.enabled,
            items: self.items@,
            last: text::opt_view(self.last),
            animation_origin: self.animation_origin,
            branch: text::opt_view(self.branch),
            branch_path: self.branch_path@,
            branch_checked: self.branch_checked,
        }
    }
}

#[derive(Debug)]
pub struct Ui {
    pub compact_mode: bool,
    pub key_overlay: OverlayFocus,
    pub just_closed_overlay: bool,
    pub ctrl_c_presses: u8,
    pub last_ctrl_c: u64,
    pub selection_bar: Option<SelectionActionBarState>,
    pub pending_click: Option<usize>,
    pub message_actions_index: Option<usize>,
    pub message_actions_return: OverlayFocus,
    pub themes: ThemeState,
    pub models: ModelsDialog,
    pub connect_mode: ConnectDialogMode,
    pub oauth_in_progress: Option<OAuthProvider>,
    pub storage_check: bool,
    pub storage_reported: bool,
    pub remote_launch: Option<RemoteLaunchRequest>,
    pub spinner_frame: usize,
    pub last_spinner: u64,
    pub last_animation: u64,
    pub drain_rotation: usize,
    pub title: TitleState,
    pub cwd: String,
    pub startup_hydrated: bool,
    pub pending_model: Option<String>,
    pub pending_agent: Option<String>,
}

pub struct UiView {
    pub compact_mode: bool,
    pub key_overlay: OverlayFocus,
    pub just_closed_overlay: bool,
    pub ctrl_c_presses: u8,
    pub last_ctrl_c: u64,
    pub selection_bar: Option<SelectionActionBarState>,
    pub pending_click: Option<usize>,
    pub message_actions_index: Option<usize>,
    pub message_actions_return: OverlayFocus,
    pub themes: ThemesView,
    pub models: ModelsView,
    pub connect_mode: ConnectDialogMode,
    pub oauth_in_progress: Option<OAuthProvider>,
    pub storage_check: bool,
    pub storage_reported: bool,
    pub remote_launch: Option<LaunchView>,
    pub spinner_frame: usize,
    pub last_spinner: u64,
    pub last_animation: u64,
    pub drain_rotation: usize,
    pub title: TitleView,
    pub cwd: Seq<char>,
    pub startup_hydrated: bool,
    pub pending_model: Option<Seq<char>>,
    pub pending_agent: Option<Seq<char>>,
}

impl View for Ui {
    type V = UiView;

    #[verifier::opaque]
    open spec fn view(&self) -> UiView {
        UiView {
            compact_mode: self.compact_mode,
            key_overlay: self.key_overlay,
            just_closed_overlay: self.just_closed_overlay,
            ctrl_c_presses: self.ctrl_c_presses,
            last_ctrl_c: self.last_ctrl_c,
            selection_bar: self.selection_bar,
            pending_click: self.pending_click,
            message_actions_index: self.message_actions_index,
            message_actions_return: self.message_actions_return,
            themes: self.themes@,
            models: self.models@,
            connect_mode: self.connect_mode,
            oauth_in_progress: self.oauth_in_progress,
            storage_check: self.storage_check,
            storage_reported: self.storage_reported,
            remote_launch: opt_launch(self.remote_launch),
            spinner_frame: self.spinner_frame,
            last_spinner: self.last_spinner,
            last_animation: self.last_animation,
            drain_rotation: self.drain_rotation,
            title: self.title@,
            cwd: self.cwd@,
            startup_hydrated: self.startup_hydrated,
            pending_model: text::opt_view(self.pending_model),
            pending_agent: text::opt_view(self.pending_agent),
        }
    }
}

} // verus!

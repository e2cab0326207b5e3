//! Which part of the screen has the keyboard, and the order in which requests claim it.

use vstd::prelude::*;

verus! {

/// The screen behind every overlay.
#[derive(Debug, Clone, Copy, PartialEq, Eq, Structural)]
pub enum BaseFocus {
    Home,
    Chat,
}

/// The overlay that has the keyboard.
#[derive(Debug, Clone, Copy, PartialEq, Eq, Structural)]
pub enum OverlayFocus {
    Nothing,
    AgentsDialog,
    ModelsDialog,
    RefreshModelsDialog,
    ThemesDialog,
    ConnectDialog,
    ProviderOAuthFlow,
    ApiKeyInput,
    SuggestionsPopup,
    SessionsDialog,
    SessionRenameDialog,
    MoveSessionDialog,
    PermissionDialog,
    QuestionDialog,
    TerminalSessionDialog,
    RemoteDialog,
    SkillsDialog,
    McpDialog,
    TimelineDialog,
    CopyActions,
    MessageActions,
    CommandPalette,
    FindBar,
    StorageDialog,
    TitleDialog,
    WhichKey,
}

impl OverlayFocus {
    pub open spec fn asks_user(self) -> bool {
        self == OverlayFocus::PermissionDialog || self == OverlayFocus::QuestionDialog || self
            == OverlayFocus::TerminalSessionDialog
    }

    /// The overlay waits for the user on behalf of a running turn.
    pub fn is_user_request(self) -> (r: bool)
        ensures
            r == self.asks_user(),
    {
        self == OverlayFocus::PermissionDialog || self == OverlayFocus::QuestionDialog || self
            == OverlayFocus::TerminalSessionDialog
    }
}

/// The overlay that pending requests claim: permissions first, then questions, then terminals.
pub open spec fn claimed_overlay(permissions: nat, questions: nat, terminals: nat) -> Option<
    OverlayFocus,
> {
    if permissions > 0 {
        Some(OverlayFocus::PermissionDialog)
    } else if questions > 0 {
        Some(OverlayFocus::QuestionDialog)
    } else if terminals > 0 {
        Some(OverlayFocus::TerminalSessionDialog)
    } else {
        None
    }
}

pub fn pending_priority_overlay(permissions: usize, questions: usize, terminals: usize) -> (r:
    Option<OverlayFocus>)
    ensures
        r == claimed_overlay(permissions as nat, questions as nat, terminals as nat),
{
    if permissions > 0 {
        Some(OverlayFocus::PermissionDialog)
    } else if questions > 0 {
        Some(OverlayFocus::QuestionDialog)
    } else if terminals > 0 {
        Some(OverlayFocus::TerminalSessionDialog)
    } else {
        None
    }
}

} // verus!

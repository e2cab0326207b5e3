//! The keyboard. A key goes first to the shortcuts, then to the dialog that has the keyboard, and
//! at last to the prompt. What a dialog or the prompt makes of it the caller finds out, and hands
//! back.

use crate::answers;
use crate::answers::{ModelsAnswer, SessionsAnswer, ThemesAnswer};
use crate::app;
use crate::app::{App, AppView};
use crate::choices;
use crate::choices::{
    ActionAnswer, FindAnswer, MoveAnswer, PaletteAnswer, PermissionAnswer, QuestionAnswer,
    RemoteAnswer, RenameAnswer, StorageAnswer, TimelineAnswer, WhichKeyAction,
};
use crate::commands;
use crate::commands::{CommandFacts, InputType, InputTypeView};
use crate::dialogs;
use crate::events;
use crate::focus::{BaseFocus, OverlayFocus};
use crate::navigation;
use crate::prompting;
use crate::remote::SuggestionKind;
use crate::queue::{QueuedItem, QueuedMessageView, QueuedUserMessage, QueuedView};
use crate::requests;
use crate::selection;
use crate::state;
use crate::state::{Effect, EffectView, Input, InputView};
use crate::stream;
use crate::terminal_title;
use crate::terminal_title::TitleChoice;
use crate::text;
use crate::turns;
use crate::ui::{SelectionActionBarState, SelectionActionTarget, Ui, UiView};
use vstd::prelude::*;

verus! {

/// How long a first Esc counts, in milliseconds.
pub const ESC_ARM_TIMEOUT: u64 = 5000;

/// How soon a second Ctrl-C must follow the first, in milliseconds.
pub const CTRL_C_WINDOW: u64 = 1000;

#[derive(Debug, Clone, Copy, PartialEq, Eq, Structural)]
pub enum KeyCode {
    Char { c: char },
    Enter,
    Esc,
    Tab,
    Left,
    Right,
    Up,
    Other,
}

#[derive(Debug, Clone, Copy, PartialEq, Eq, Structural)]
pub struct KeyPress {
    pub code: KeyCode,
    pub ctrl: bool,
    pub shift: bool,
    pub alt: bool,
    pub command: bool,
    pub release: bool,
}

impl KeyPress {
    pub open spec fn bare(self) -> bool {
        !self.ctrl && !self.shift && !self.alt && !self.command
    }

    pub open spec fn only_ctrl(self, c: char) -> bool {
        self.code == KeyCode::Char { c } && self.ctrl && !self.shift && !self.alt && !self.command
    }

    pub open spec fn just(self, c: char) -> bool {
        self.code == KeyCode::Char { c } && self.bare()
    }

    /// The keys that move the cursor of a prompt that takes no text.
    pub open spec fn moves_cursor(self) -> bool {
        (self.command && (self.code == KeyCode::Left || self.code == KeyCode::Right)) || (self.ctrl
            && (self.code == (KeyCode::Char { c: 'a' }) || self.code == (KeyCode::Char {
            c: 'e',
        })))
    }

    pub fn is_bare(&self) -> (r: bool)
        ensures
            r == self.bare(),
    {
        !self.ctrl && !self.shift && !self.alt && !self.command
    }

    pub fn is_only_ctrl(&self, c: char) -> (r: bool)
        ensures
            r == self.only_ctrl(c),
    {
        self.is_char(c) && self.ctrl && !self.shift && !self.alt && !self.command
    }

    pub fn is_char(&self, c: char) -> (r: bool)
        ensures
            r == (self.code == KeyCode::Char { c }),
    {
        match self.code {
            KeyCode::Char { c: own } => own == c,
            _ => false,
        }
    }

    pub fn is_just(&self, c: char) -> (r: bool)
        ensures
            r == self.just(c),
    {
        self.is_char(c) && self.is_bare()
    }

    pub fn is_input_navigation_key(&self) -> (r: bool)
        ensures
            r == self.moves_cursor(),
    {
        (self.command && (self.code == KeyCode::Left || self.code == KeyCode::Right)) || (self.ctrl
            && (self.is_char('a') || self.is_char('e')))
    }
}

/// What the caller knows when a key comes in: the text selected in the chat, whether it stands on
/// a line that can be edited, and what the registry says of the commands that keys stand for.
#[derive(Debug)]
pub struct KeyScene {
    pub chat_text: Option<String>,
    pub editable: bool,
    pub facts: CommandFacts,
}

/// What the caller does with the key next.
#[derive(Debug, Clone, Copy, PartialEq, Eq, Structural)]
pub enum KeyNext {
    /// Nothing more.
    Done,
    /// Hand it to the dialog that has the keyboard, and report what that made of it.
    Ask,
    /// Hand it to the prompt, and report the change.
    Edit,
    /// Hand it to the prompt, which takes no text.
    Move,
    /// Find out what the prompt says, and send it.
    Submit,
}

pub open spec fn primed(a: AppView) -> bool {
    a.esc_primed_at matches Some(t) && app::elapsed(a.now, t) < ESC_ARM_TIMEOUT
}

pub open spec fn unprimed(a: AppView) -> AppView {
    AppView { esc_primed_at: None, ..a }
}

pub open spec fn armed(a: AppView) -> AppView {
    AppView { esc_primed_at: Some(a.now), ..a }
}

/// Esc closed a dialog, if it did.
pub open spec fn recorded(a: AppView) -> AppView {
    if a.ui.key_overlay != OverlayFocus::Nothing && a.ui.key_overlay
        != OverlayFocus::SuggestionsPopup && a.overlay_focus == OverlayFocus::Nothing {
        AppView { ui: UiView { just_closed_overlay: true, ..a.ui }, ..a }
    } else {
        a
    }
}

pub open spec fn find_checked(a: AppView) -> AppView {
    if a.overlay_focus == OverlayFocus::FindBar && !dialogs::can_find(a) {
        dialogs::find_closed(a)
    } else {
        a
    }
}

/// Before a key is looked at: the user is there, a search bar without a chat is closed, and any
/// key but Esc disarms Esc.
#[verifier::opaque]
pub open spec fn prepared(a: AppView, key: KeyPress) -> AppView {
    let b = find_checked(prompting::active_now(a));
    let c = AppView {
        ui: UiView {
            key_overlay: if key.code == KeyCode::Esc {
                b.overlay_focus
            } else {
                OverlayFocus::Nothing
            },
            ..b.ui
        },
        ..b
    };
    if key.code == KeyCode::Esc {
        c
    } else {
        unprimed(c)
    }
}

/// The shortcuts that come before everything else.
#[derive(Debug, Clone, Copy, PartialEq, Eq, Structural)]
pub enum Shortcut {
    Terminal,
    Palette,
    Find,
    Effort,
    WhichKey,
}

/// Whether no dialog is open but the popup of suggestions.
pub open spec fn at_prompt(a: AppView) -> bool {
    a.overlay_focus == OverlayFocus::Nothing || a.overlay_focus == OverlayFocus::SuggestionsPopup
}

pub open spec fn shortcut(a: AppView, key: KeyPress) -> Option<Shortcut> {
    if a.overlay_focus == OverlayFocus::TerminalSessionDialog && a.terminals.len() > 0 {
        Some(Shortcut::Terminal)
    } else if key.only_ctrl('p') && (at_prompt(a) || a.overlay_focus
        == OverlayFocus::CommandPalette) {
        Some(Shortcut::Palette)
    } else if key.only_ctrl('f') && (at_prompt(a) || a.overlay_focus == OverlayFocus::FindBar)
        && dialogs::can_find(a) {
        Some(Shortcut::Find)
    } else if key.only_ctrl('t') && at_prompt(a) {
        Some(Shortcut::Effort)
    } else if key.only_ctrl('x') && at_prompt(a) {
        Some(Shortcut::WhichKey)
    } else {
        None
    }
}

pub open spec fn shortcut_done(a: AppView, s: Shortcut) -> AppView {
    match s {
        Shortcut::Terminal => a,
        Shortcut::Palette => recorded(dialogs::palette_toggled(a)),
        Shortcut::Find => recorded(dialogs::find_opened(a)),
        Shortcut::Effort => recorded(choices::active_effort_cycled(a)),
        Shortcut::WhichKey => recorded(dialogs::shown(a, OverlayFocus::WhichKey)),
    }
}

/// A key of the bar beside selected text, and whether the bar takes it.
#[verifier::opaque]
pub open spec fn bar_pressed(a: AppView, key: KeyPress, scene: KeyScene) -> (AppView, bool) {
    match a.ui.selection_bar {
        Some(bar) => if key.just('y') {
            (selection::selection_copied(a, text::opt_view(scene.chat_text)), true)
        } else if key.just('i') && bar.target == SelectionActionTarget::Chat {
            (
                selection::added_to_prompt(a, bar.target, text::opt_view(scene.chat_text)),
                selection::adds_to_prompt(a, bar.target, text::opt_view(scene.chat_text)),
            )
        } else if key.just('e') && bar.can_open_in_editor {
            (selection::editor_asked(a, scene.editable), true)
        } else if key.code == KeyCode::Esc && key.bare() {
            (unprimed(selection::dismissed(a)), true)
        } else {
            (a, false)
        },
        None => (a, false),
    }
}

/// Whether an image can be pasted where the cursor is.
pub open spec fn can_paste_image(a: AppView) -> bool {
    !navigation::in_child(a) && at_prompt(a)
}

pub open spec fn image_pasted(a: AppView) -> AppView {
    if can_paste_image(a) {
        app::with_effect(a, EffectView::PasteClipboardImage)
    } else {
        a
    }
}

/// How many times Ctrl-C has been pressed in a row.
pub open spec fn presses(a: AppView) -> u8 {
    if app::elapsed(a.now, a.ui.last_ctrl_c) < CTRL_C_WINDOW {
        if a.ui.ctrl_c_presses < 255 {
            (a.ui.ctrl_c_presses + 1) as u8
        } else {
            255
        }
    } else {
        1
    }
}

pub open spec fn press_counted(a: AppView) -> AppView {
    AppView {
        ui: UiView { ctrl_c_presses: presses(a), last_ctrl_c: a.now, ..a.ui },
        ..a
    }
}

/// Ctrl-C without a selection: it clears the prompt, and twice in a row it quits.
#[verifier::opaque]
pub open spec fn interrupt_pressed(a: AppView) -> AppView {
    let b = press_counted(a);
    if presses(a) == 1 {
        AppView { input: state::empty_input(), ..b }
    } else if presses(a) >= 2 && app::elapsed(a.now, a.ui.last_ctrl_c) < CTRL_C_WINDOW {
        dialogs::has_quit(b)
    } else {
        b
    }
}

/// A turn stopped by a second Esc: for the sake of what is queued, else for good.
#[verifier::opaque]
pub open spec fn turn_stopped(a: AppView) -> AppView {
    match a.current {
        Some(id) => {
            let b = turns::interrupted_for_queue(a, id);
            if turns::can_interrupt_for_queue(a, id) && stream::can_submit(
                turns::stopped_for_queue(a, id),
                id,
            ) {
                b
            } else {
                requests::turn_cancelled(b)
            }
        },
        None => a,
    }
}

/// Esc while a turn runs: the first arms, a second one soon after stops the turn.
pub open spec fn streaming_esc(a: AppView, key: KeyPress) -> (AppView, bool) {
    if !key.bare() {
        (unprimed(a), false)
    } else if primed(a) {
        (turn_stopped(unprimed(a)), true)
    } else {
        (armed(a), true)
    }
}

/// Esc at an empty prompt: the first arms, a second one soon after opens the timeline.
pub open spec fn timeline_esc(a: AppView, key: KeyPress) -> (AppView, bool) {
    if !key.bare() || a.base_focus != BaseFocus::Chat || a.input.text.len() > 0
        || navigation::in_child(a) {
        (unprimed(a), false)
    } else if primed(a) {
        (dialogs::timeline_shown(unprimed(a)), true)
    } else {
        (armed(a), true)
    }
}

pub open spec fn esc_pressed(a: AppView, key: KeyPress) -> (AppView, bool) {
    let b = selection::deselected(a);
    if selection::is_selected(a) {
        (unprimed(b), true)
    } else if b.is_streaming {
        streaming_esc(b, key)
    } else {
        timeline_esc(b, key)
    }
}

pub open spec fn arrows_move(a: AppView, key: KeyPress) -> bool {
    key.bare() && a.base_focus == BaseFocus::Chat && navigation::in_child(a)
}

/// A key that no dialog gets, and whether anything takes it before the prompt.
#[verifier::opaque]
pub open spec fn base_pressed(a: AppView, key: KeyPress) -> (AppView, bool) {
    if key.code == KeyCode::Tab {
        (dialogs::agent_toggled(a), true)
    } else if key.code == KeyCode::Esc {
        esc_pressed(a, key)
    } else if key.code == KeyCode::Left && arrows_move(a, key) {
        let to = navigation::target_sibling(a, false);
        (navigation::gone_to(a, to), to is Some)
    } else if key.code == KeyCode::Right && arrows_move(a, key) {
        let to = navigation::target_sibling(a, true);
        (navigation::gone_to(a, to), to is Some)
    } else if key.code == KeyCode::Up && arrows_move(a, key) {
        let to = navigation::target_parent(a);
        (navigation::gone_to(a, to), to is Some)
    } else {
        (a, false)
    }
}

pub open spec fn selection_dropped(a: AppView) -> AppView {
    if a.ui.selection_bar is Some {
        selection::dismissed(a)
    } else {
        AppView { chat: selection::chat_deselected(a.chat), ..a }
    }
}

/// A key for the prompt. That of an agent's session takes no text.
#[verifier::opaque]
pub open spec fn prompt_pressed(a: AppView, key: KeyPress) -> (AppView, KeyNext) {
    let b = selection_dropped(a);
    if navigation::in_child(b) {
        (recorded(dialogs::blurred(dialogs::suggestions_cleared(b))), if key.moves_cursor() {
            KeyNext::Move
        } else {
            KeyNext::Done
        })
    } else if key.code == KeyCode::Enter && key.bare() {
        (b, KeyNext::Submit)
    } else {
        (b, KeyNext::Edit)
    }
}

pub open spec fn undialogued(a: AppView, key: KeyPress) -> (AppView, KeyNext) {
    let b = base_pressed(a, key);
    if b.1 {
        (recorded(b.0), KeyNext::Done)
    } else if b.0.overlay_focus == OverlayFocus::Nothing {
        prompt_pressed(b.0, key)
    } else {
        (recorded(b.0), KeyNext::Done)
    }
}

pub open spec fn connect_commanded(a: AppView, scene: KeyScene) -> AppView {
    choices::plain_command(
        app::with_effect(a, EffectView::HideDialog { dialog: OverlayFocus::ModelsDialog }),
        "connect"@,
        scene.facts@,
    )
}

/// A key for whatever has the keyboard. A few keys of the dialogs are shortcuts of their own.
pub open spec fn focus_pressed(a: AppView, key: KeyPress, scene: KeyScene) -> (AppView, KeyNext) {
    if a.overlay_focus == OverlayFocus::Nothing {
        undialogued(a, key)
    } else if a.overlay_focus == OverlayFocus::ModelsDialog && !a.ui.models.loading
        && key.only_ctrl('a') {
        (recorded(connect_commanded(a, scene)), KeyNext::Done)
    } else if a.overlay_focus == OverlayFocus::RefreshModelsDialog {
        (
            recorded(
                if key.code == KeyCode::Esc {
                    dialogs::blurred(a)
                } else {
                    a
                },
            ),
            KeyNext::Done,
        )
    } else if a.overlay_focus == OverlayFocus::ConnectDialog && key.only_ctrl('d') {
        (recorded(answers::disconnect_asked(a)), KeyNext::Done)
    } else if a.overlay_focus == OverlayFocus::TerminalSessionDialog {
        (recorded(a), KeyNext::Done)
    } else {
        (a, KeyNext::Ask)
    }
}

#[verifier::opaque]
pub open spec fn later_pressed(a: AppView, key: KeyPress, scene: KeyScene) -> (AppView, KeyNext) {
    if key.code == (KeyCode::Char { c: 'v' }) && key.ctrl {
        (recorded(image_pasted(a)), KeyNext::Done)
    } else if key.only_ctrl('c') {
        (
            recorded(
                if selection::is_selected(a) {
                    selection::selection_copied(a, text::opt_view(scene.chat_text))
                } else {
                    interrupt_pressed(a)
                },
            ),
            KeyNext::Done,
        )
    } else {
        focus_pressed(a, key, scene)
    }
}

pub open spec fn unshortcut(a: AppView, key: KeyPress, scene: KeyScene) -> (AppView, KeyNext) {
    let b = bar_pressed(a, key, scene);
    if b.1 {
        (recorded(b.0), KeyNext::Done)
    } else {
        later_pressed(b.0, key, scene)
    }
}

/// What a key does, and what is to be done with it next. The release of a key does nothing.
pub open spec fn pressed(a: AppView, key: KeyPress, scene: KeyScene) -> (AppView, KeyNext) {
    if key.release {
        (a, KeyNext::Done)
    } else {
        let b = prepared(a, key);
        match shortcut(b, key) {
            Some(s) => (shortcut_done(b, s), if s == Shortcut::Terminal {
                KeyNext::Ask
            } else {
                KeyNext::Done
            }),
            None => unshortcut(b, key, scene),
        }
    }
}

impl App {
    pub fn esc_is_primed(&self) -> (r: bool)
        ensures
            r == primed(self@),
    {
        match self.esc_primed_at {
            Some(t) => app::elapsed_since(self.now, t) < ESC_ARM_TIMEOUT,
            None => false,
        }
    }

    pub fn reset_esc_primed_state(&mut self)
        ensures
            final(self)@ == unprimed(old(self)@),
    {
        self.esc_primed_at = None;
    }

    fn arm_esc_primed(&mut self)
        ensures
            final(self)@ == armed(old(self)@),
    {
        self.esc_primed_at = Some(self.now);
    }

    fn record_overlay_close_after_key(&mut self)
        ensures
            final(self)@ == recorded(old(self)@),
    {
        reveal(<Ui as View>::view);
        if self.ui.key_overlay != OverlayFocus::Nothing && self.ui.key_overlay
            != OverlayFocus::SuggestionsPopup && self.overlay_focus == OverlayFocus::Nothing {
            self.ui.just_closed_overlay = true;
        }
    }

    /// Whether Esc has closed a dialog since this was last asked.
    pub fn take_just_closed_overlay(&mut self) -> (r: bool)
        ensures
            r == old(self)@.ui.just_closed_overlay,
            final(self)@ == (AppView {
                ui: UiView { just_closed_overlay: false, ..old(self)@.ui },
                ..old(self)@
            }),
    {
        reveal(<Ui as View>::view);
        let closed = self.ui.just_closed_overlay;
        self.ui.just_closed_overlay = false;
        closed
    }

    fn check_find(&mut self)
        ensures
            final(self)@ == find_checked(old(self)@),
    {
        if self.overlay_focus == OverlayFocus::FindBar && !self.can_open_find_bar() {
            self.close_find_bar_focus();
        }
    }

    fn set_key_overlay(&mut self, overlay: OverlayFocus)
        ensures
            final(self)@ == (AppView {
                ui: UiView { key_overlay: overlay, ..old(self)@.ui },
                ..old(self)@
            }),
    {
        reveal(<Ui as View>::view);
        self.ui.key_overlay = overlay;
    }

    fn prepare_for_key(&mut self, key: KeyPress)
        ensures
            final(self)@ == prepared(old(self)@, key),
    {
        reveal(prepared);
        self.note_user_activity();
        self.check_find();
        if key.code == KeyCode::Esc {
            let overlay = self.overlay_focus;
            self.set_key_overlay(overlay);
            return ;
        }
        self.set_key_overlay(OverlayFocus::Nothing);
        self.reset_esc_primed_state();
    }

    fn is_at_prompt(&self) -> (r: bool)
        ensures
            r == at_prompt(self@),
    {
        self.overlay_focus == OverlayFocus::Nothing || self.overlay_focus
            == OverlayFocus::SuggestionsPopup
    }

    pub fn shortcut_of(&self, key: KeyPress) -> (r: Option<Shortcut>)
        ensures
            r == shortcut(self@, key),
    {
        assert(self@.terminals.len() == self.terminals@.len());
        if self.overlay_focus == OverlayFocus::TerminalSessionDialog && self.terminals.len() > 0 {
            return Some(Shortcut::Terminal);
        }
        if key.is_only_ctrl('p') && (self.is_at_prompt() || self.overlay_focus
            == OverlayFocus::CommandPalette) {
            return Some(Shortcut::Palette);
        }
        if key.is_only_ctrl('f') && (self.is_at_prompt() || self.overlay_focus
            == OverlayFocus::FindBar) && self.can_open_find_bar() {
            return Some(Shortcut::Find);
        }
        if key.is_only_ctrl('t') && self.is_at_prompt() {
            return Some(Shortcut::Effort);
        }
        if key.is_only_ctrl('x') && self.is_at_prompt() {
            return Some(Shortcut::WhichKey);
        }
        None
    }

    fn do_shortcut(&mut self, s: Shortcut)
        ensures
            final(self)@ == shortcut_done(old(self)@, s),
    {
        match s {
            Shortcut::Terminal => {},
            Shortcut::Palette => {
                self.open_command_palette();
                self.record_overlay_close_after_key();
            },
            Shortcut::Find => {
                self.open_find_bar();
                self.record_overlay_close_after_key();
            },
            Shortcut::Effort => {
                self.cycle_active_reasoning_effort();
                self.record_overlay_close_after_key();
            },
            Shortcut::WhichKey => {
                self.show_dialog(OverlayFocus::WhichKey);
                self.record_overlay_close_after_key();
            },
        }
    }

    fn selection_bar(&self) -> (r: Option<SelectionActionBarState>)
        ensures
            r == self@.ui.selection_bar,
    {
        reveal(<Ui as View>::view);
        self.ui.selection_bar
    }

    pub fn handle_selection_action_key(&mut self, key: KeyPress, scene: &KeyScene) -> (r: bool)
        ensures
            (final(self)@, r) == bar_pressed(old(self)@, key, *scene),
    {
        reveal(bar_pressed);
        let bar = match self.selection_bar() {
            Some(bar) => bar,
            None => {
                return false;
            },
        };
        if key.is_just('y') {
            self.try_copy_selection(&scene.chat_text);
            return true;
        }
        if key.is_just('i') && bar.target == SelectionActionTarget::Chat {
            return self.add_selection_to_prompt(bar.target, &scene.chat_text);
        }
        if key.is_just('e') && bar.can_open_in_editor {
            self.open_selection_in_editor(scene.editable);
            return true;
        }
        if key.code == KeyCode::Esc && key.is_bare() {
            self.dismiss_selection_actions();
            self.reset_esc_primed_state();
            return true;
        }
        false
    }

    pub fn handle_clipboard_image_paste(&mut self)
        ensures
            final(self)@ == image_pasted(old(self)@),
    {
        if !self.is_subagent_session_active() && self.is_at_prompt() {
            self.push_effect(Effect::PasteClipboardImage);
        }
    }

    fn press_count(&self) -> (r: (u8, bool))
        ensures
            r.0 == presses(self@),
            r.1 == (app::elapsed(self@.now, self@.ui.last_ctrl_c) < CTRL_C_WINDOW),
    {
        reveal(<Ui as View>::view);
        if app::elapsed_since(self.now, self.ui.last_ctrl_c) < CTRL_C_WINDOW {
            if self.ui.ctrl_c_presses < 255 {
                (self.ui.ctrl_c_presses + 1, true)
            } else {
                (255, true)
            }
        } else {
            (1, false)
        }
    }

    fn count_press(&mut self, n: u8)
        requires
            n == presses(old(self)@),
        ensures
            final(self)@ == press_counted(old(self)@),
    {
        reveal(<Ui as View>::view);
        self.ui.ctrl_c_presses = n;
        self.ui.last_ctrl_c = self.now;
    }

    fn press_interrupt(&mut self)
        ensures
            final(self)@ == interrupt_pressed(old(self)@),
    {
        reveal(interrupt_pressed);
        let (n, again) = self.press_count();
        self.count_press(n);
        if n == 1 {
            self.input.clear();
            return ;
        }
        if n >= 2 && again {
            self.quit();
        }
    }

    fn stop_turn(&mut self)
        ensures
            final(self)@ == turn_stopped(old(self)@),
    {
        reveal(turn_stopped);
        match text::copy_opt(&self.current) {
            Some(id) => {
                if self.interrupt_streaming_to_send_queued_for_session(id.as_str()) {
                    return ;
                }
            },
            None => {
                return ;
            },
        }
        self.cancel_streaming();
    }

    pub fn handle_streaming_esc_key(&mut self, key: KeyPress) -> (r: bool)
        ensures
            (final(self)@, r) == streaming_esc(old(self)@, key),
    {
        if !key.is_bare() {
            self.reset_esc_primed_state();
            return false;
        }
        if self.esc_is_primed() {
            self.reset_esc_primed_state();
            self.stop_turn();
            return true;
        }
        self.arm_esc_primed();
        true
    }

    pub fn handle_timeline_esc_key(&mut self, key: KeyPress) -> (r: bool)
        ensures
            (final(self)@, r) == timeline_esc(old(self)@, key),
    {
        if !key.is_bare() || self.base_focus != BaseFocus::Chat || !self.input.is_empty()
            || self.is_subagent_session_active() {
            self.reset_esc_primed_state();
            return false;
        }
        if self.esc_is_primed() {
            self.reset_esc_primed_state();
            self.open_timeline_dialog();
            return true;
        }
        self.arm_esc_primed();
        true
    }

    fn handle_esc_key(&mut self, key: KeyPress) -> (r: bool)
        ensures
            (final(self)@, r) == esc_pressed(old(self)@, key),
    {
        if self.clear_selection() {
            self.reset_esc_primed_state();
            return true;
        }
        if self.is_streaming {
            return self.handle_streaming_esc_key(key);
        }
        self.handle_timeline_esc_key(key)
    }

    fn arrows_move_here(&self, key: KeyPress) -> (r: bool)
        ensures
            r == arrows_move(self@, key),
    {
        key.is_bare() && self.should_handle_child_session_arrow()
    }

    pub fn handle_base_keys(&mut self, key: KeyPress) -> (r: bool)
        ensures
            (final(self)@, r) == base_pressed(old(self)@, key),
    {
        reveal(base_pressed);
        match key.code {
            KeyCode::Tab => {
                self.toggle_agent_mode();
                true
            },
            KeyCode::Esc => self.handle_esc_key(key),
            KeyCode::Left => if self.arrows_move_here(key) {
                self.switch_child_session(false)
            } else {
                false
            },
            KeyCode::Right => if self.arrows_move_here(key) {
                self.switch_child_session(true)
            } else {
                false
            },
            KeyCode::Up => if self.arrows_move_here(key) {
                self.switch_to_parent_session()
            } else {
                false
            },
            _ => false,
        }
    }

    fn drop_selection(&mut self)
        ensures
            final(self)@ == selection_dropped(old(self)@),
    {
        if self.selection_bar().is_some() {
            self.dismiss_selection_actions();
        } else {
            self.chat.has_selection = false;
            self.chat.is_dragging = false;
        }
    }

    pub fn handle_input_and_app_keys(&mut self, key: KeyPress) -> (r: KeyNext)
        ensures
            (final(self)@, r) == prompt_pressed(old(self)@, key),
    {
        reveal(prompt_pressed);
        self.drop_selection();
        if self.is_subagent_session_active() {
            self.clear_suggestions();
            self.blur();
            self.record_overlay_close_after_key();
            return if key.is_input_navigation_key() {
                KeyNext::Move
            } else {
                KeyNext::Done
            };
        }
        if key.code == KeyCode::Enter && key.is_bare() {
            KeyNext::Submit
        } else {
            KeyNext::Edit
        }
    }

    fn press_undialogued(&mut self, key: KeyPress) -> (r: KeyNext)
        ensures
            (final(self)@, r) == undialogued(old(self)@, key),
    {
        if self.handle_base_keys(key) {
            self.record_overlay_close_after_key();
            return KeyNext::Done;
        }
        if self.overlay_focus == OverlayFocus::Nothing {
            return self.handle_input_and_app_keys(key);
        }
        self.record_overlay_close_after_key();
        KeyNext::Done
    }

    fn models_are_loading(&self) -> (r: bool)
        ensures
            r == self@.ui.models.loading,
    {
        reveal(<Ui as View>::view);
        self.ui.models.loading
    }

    fn command_connect(&mut self, scene: &KeyScene)
        ensures
            final(self)@ == connect_commanded(old(self)@, *scene),
    {
        self.push_effect(Effect::HideDialog { dialog: OverlayFocus::ModelsDialog });
        self.run_plain_command("connect", &scene.facts);
    }

    fn press_focus(&mut self, key: KeyPress, scene: &KeyScene) -> (r: KeyNext)
        ensures
            (final(self)@, r) == focus_pressed(old(self)@, key, *scene),
    {
        if self.overlay_focus == OverlayFocus::Nothing {
            return self.press_undialogued(key);
        }
        if self.overlay_focus == OverlayFocus::ModelsDialog && !self.models_are_loading()
            && key.is_only_ctrl('a') {
            self.command_connect(scene);
            self.record_overlay_close_after_key();
            return KeyNext::Done;
        }
        if self.overlay_focus == OverlayFocus::RefreshModelsDialog {
            if key.code == KeyCode::Esc {
                self.blur();
            }
            self.record_overlay_close_after_key();
            return KeyNext::Done;
        }
        if self.overlay_focus == OverlayFocus::ConnectDialog && key.is_only_ctrl('d') {
            self.disconnect_selected_provider();
            self.record_overlay_close_after_key();
            return KeyNext::Done;
        }
        if self.overlay_focus == OverlayFocus::TerminalSessionDialog {
            self.record_overlay_close_after_key();
            return KeyNext::Done;
        }
        KeyNext::Ask
    }

    fn press_later(&mut self, key: KeyPress, scene: &KeyScene) -> (r: KeyNext)
        ensures
            (final(self)@, r) == later_pressed(old(self)@, key, *scene),
    {
        reveal(later_pressed);
        if key.is_char('v') && key.ctrl {
            self.handle_clipboard_image_paste();
            self.record_overlay_close_after_key();
            return KeyNext::Done;
        }
        if key.is_only_ctrl('c') {
            if self.chat.has_selection || self.input.has_selection {
                self.try_copy_selection(&scene.chat_text);
                self.record_overlay_close_after_key();
                return KeyNext::Done;
            }
            self.press_interrupt();
            self.record_overlay_close_after_key();
            return KeyNext::Done;
        }
        self.press_focus(key, scene)
    }

    fn press_unshortcut(&mut self, key: KeyPress, scene: &KeyScene) -> (r: KeyNext)
        ensures
            (final(self)@, r) == unshortcut(old(self)@, key, *scene),
    {
        if self.handle_selection_action_key(key, scene) {
            self.record_overlay_close_after_key();
            return KeyNext::Done;
        }
        self.press_later(key, scene)
    }

    /// Takes a key.
    pub fn handle_keys(&mut self, key: KeyPress, scene: &KeyScene) -> (r: KeyNext)
        ensures
            (final(self)@, r) == pressed(old(self)@, key, *scene),
    {
        if key.release {
            return KeyNext::Done;
        }
        self.prepare_for_key(key);
        match self.shortcut_of(key) {
            Some(s) => {
                self.do_shortcut(s);
                if s == Shortcut::Terminal {
                    KeyNext::Ask
                } else {
                    KeyNext::Done
                }
            },
            None => self.press_unshortcut(key, scene),
        }
    }
}

/// What the connect dialog made of a key.
#[derive(Debug)]
pub enum ConnectAnswer {
    Handled,
    NotHandled,
    Chosen { id: String, local: bool },
    Left,
}

/// What the dialog of a login made of a key.
#[derive(Debug)]
pub enum LoginAnswer {
    Handled,
    NotHandled,
    Close,
    CopyLink { link: String },
}

/// What the field for a key made of a key.
#[derive(Debug, Clone, Copy, PartialEq, Eq, Structural)]
pub enum ApiKeyAnswer {
    Submitted { kept: bool },
    Cancelled,
    Continue,
}

/// The suggestion that is selected: the prompt with it filled in and whether there would be more
/// to suggest then; and what a slash and its replacement are read as, and whether that may be sent
/// on.
#[derive(Debug)]
pub struct SelectedSuggestion {
    pub kind: SuggestionKind,
    pub replacement: String,
    /// A command of the user's own.
    pub custom: bool,
    pub filled: Input,
    pub suggestions: bool,
    pub read_as: InputType,
    pub allowed: bool,
}

/// What the popup of suggestions made of a key.
#[derive(Debug)]
pub enum SuggestionAnswer {
    Handled,
    NotHandled,
    Picked { selected: Option<SelectedSuggestion> },
}

/// What a picked suggestion does: it fills the prompt, or it is a command that runs at once.
#[derive(Debug)]
pub enum Picked {
    Fill,
    Run { command: String },
}

/// A command of the application's own runs at once. One of the user's own may take arguments, and
/// an agent or a file is only a part of a prompt.
pub open spec fn runs_at_once(kind: SuggestionKind, custom: bool) -> bool {
    kind == SuggestionKind::Command && !custom
}

pub fn picked_suggestion(kind: SuggestionKind, replacement: &str, custom: bool) -> (r: Picked)
    ensures
        match r {
            Picked::Run { command } => runs_at_once(kind, custom) && command@ == "/"@
                + replacement@,
            Picked::Fill => !runs_at_once(kind, custom),
        },
{
    if kind == SuggestionKind::Command && !custom {
        let mut command = "/".to_string();
        command.append(replacement);
        Picked::Run { command }
    } else {
        Picked::Fill
    }
}

/// What the dialog that has the keyboard made of a key, or of the mouse.
#[derive(Debug)]
pub enum DialogAnswer {
    Terminal { closed: bool },
    Suggestions { answer: SuggestionAnswer },
    Agents { chosen: Option<String>, visible: bool },
    Find { answer: FindAnswer },
    Models { answer: ModelsAnswer, visible: bool },
    Themes { answer: ThemesAnswer, visible: bool },
    Connect { answer: ConnectAnswer },
    Login { answer: LoginAnswer },
    ApiKey { answer: ApiKeyAnswer },
    Sessions { answer: SessionsAnswer, visible: bool },
    Rename { answer: RenameAnswer, visible: bool },
    Move { answer: MoveAnswer },
    Permission { answer: PermissionAnswer },
    Question { answer: QuestionAnswer },
    Remote { answer: RemoteAnswer },
    Skills { chosen: bool, visible: bool },
    Mcp { switched: Option<Result<(), String>>, visible: bool },
    Timeline { answer: TimelineAnswer },
    Copy { answer: ActionAnswer, durations: Vec<String> },
    MessageActions { answer: ActionAnswer },
    Palette { answer: PaletteAnswer, visible: bool },
    Storage { answer: StorageAnswer, visible: bool },
    Title { choice: TitleChoice },
    WhichKey { action: WhichKeyAction },
}

pub open spec fn terminal_answered(a: AppView, closed: bool) -> AppView {
    if closed {
        events::terminal_closed(a)
    } else {
        a
    }
}

/// The prompt with suggestions, or without.
pub open spec fn with_suggestions(a: AppView, suggestions: bool) -> AppView {
    AppView {
        suggestions,
        overlay_focus: if suggestions {
            OverlayFocus::SuggestionsPopup
        } else {
            OverlayFocus::Nothing
        },
        ..a
    }
}

#[verifier::opaque]
pub open spec fn suggestion_run(
    a: AppView,
    input: InputTypeView,
    scene: KeyScene,
    allowed: bool,
) -> AppView {
    dialogs::suggestions_blurred(
        commands::input_taken(
            AppView { input: state::empty_input(), ..a },
            input,
            scene.facts@,
            allowed,
        ),
    )
}

/// What becomes of a suggestion that is picked; the popup is empty afterwards.
pub open spec fn suggestion_picked(
    a: AppView,
    selected: Option<SelectedSuggestion>,
    scene: KeyScene,
) -> AppView {
    match selected {
        Some(s) => if runs_at_once(s.kind, s.custom) {
            suggestion_run(a, s.read_as@, scene, s.allowed)
        } else {
            dialogs::suggestions_blurred(
                with_suggestions(AppView { input: s.filled@, ..a }, s.suggestions),
            )
        },
        None => dialogs::suggestions_blurred(a),
    }
}

/// What becomes of an answer of the popup, and whether the key ends there.
pub open spec fn suggestion_answered(
    a: AppView,
    answer: SuggestionAnswer,
    scene: KeyScene,
) -> (AppView, bool) {
    match answer {
        SuggestionAnswer::Handled => (a, true),
        SuggestionAnswer::NotHandled => if navigation::in_child(a) {
            (dialogs::blurred(dialogs::suggestions_cleared(a)), true)
        } else {
            (a, false)
        },
        SuggestionAnswer::Picked { selected } => (suggestion_picked(a, selected, scene), true),
    }
}

pub open spec fn connect_answered(a: AppView, answer: ConnectAnswer) -> (AppView, bool) {
    match answer {
        ConnectAnswer::Handled => (a, true),
        ConnectAnswer::NotHandled => (a, false),
        ConnectAnswer::Chosen { id, local } => (answers::connection_chosen(a, id@, local), true),
        ConnectAnswer::Left => (answers::connect_left(a), false),
    }
}

pub open spec fn login_answered(a: AppView, answer: LoginAnswer) -> (AppView, bool) {
    match answer {
        LoginAnswer::Handled => (a, true),
        LoginAnswer::NotHandled => (a, false),
        LoginAnswer::Close => (dialogs::blurred(a), true),
        LoginAnswer::CopyLink { link } => (
            answers::link_copied(a, link@, answers::login_name(a)),
            true,
        ),
    }
}

pub open spec fn api_key_answered(a: AppView, answer: ApiKeyAnswer) -> (AppView, bool) {
    match answer {
        ApiKeyAnswer::Submitted { kept } => (answers::key_given(a, kept), true),
        ApiKeyAnswer::Cancelled => (dialogs::blurred(a), true),
        ApiKeyAnswer::Continue => (a, false),
    }
}

/// What an answer changes, and whether the key ends there.
pub open spec fn dialog_done(a: AppView, answer: DialogAnswer, scene: KeyScene) -> (AppView, bool) {
    match answer {
        DialogAnswer::Terminal { closed } => (terminal_answered(a, closed), true),
        DialogAnswer::Suggestions { answer } => suggestion_answered(a, answer, scene),
        DialogAnswer::Agents { chosen, visible } => (
            answers::agent_answered(a, text::opt_view(chosen), visible),
            true,
        ),
        DialogAnswer::Find { answer } => (choices::find_answered(a, answer@), true),
        DialogAnswer::Models { answer, visible } => (
            answers::models_answered(a, answer@, visible),
            true,
        ),
        DialogAnswer::Themes { answer, visible } => (
            answers::themes_answered(a, answer@, visible),
            true,
        ),
        DialogAnswer::Connect { answer } => connect_answered(a, answer),
        DialogAnswer::Login { answer } => login_answered(a, answer),
        DialogAnswer::ApiKey { answer } => api_key_answered(a, answer),
        DialogAnswer::Sessions { answer, visible } => (
            answers::sessions_answered(a, answer@, visible),
            answers::sessions_takes(answer@),
        ),
        DialogAnswer::Rename { answer, visible } => (
            choices::rename_answered(a, answer@, visible),
            choices::rename_takes(answer@),
        ),
        DialogAnswer::Move { answer } => (
            choices::move_answered(a, answer@),
            !(answer@ is Nothing),
        ),
        DialogAnswer::Permission { answer } => (choices::permission_settled(a, answer), true),
        DialogAnswer::Question { answer } => (choices::question_settled(a, answer, false), true),
        DialogAnswer::Remote { answer } => (
            choices::remote_answered(a, answer@),
            !(answer@ is NotHandled),
        ),
        DialogAnswer::Skills { chosen, visible } => (answers::unless_visible(a, visible), chosen),
        DialogAnswer::Mcp { switched, visible } => (
            choices::mcp_answered(a, choices::opt_stored(switched), visible),
            true,
        ),
        DialogAnswer::Timeline { answer } => (
            choices::timeline_answered(a, answer),
            answer != TimelineAnswer::NotHandled,
        ),
        DialogAnswer::Copy { answer, durations } => (
            choices::copy_answered(a, answer@, text::views(durations@)),
            true,
        ),
        DialogAnswer::MessageActions { answer } => (choices::actions_answered(a, answer@), true),
        DialogAnswer::Palette { answer, visible } => (
            choices::palette_answered(a, answer@, scene.facts@, visible),
            true,
        ),
        DialogAnswer::Storage { answer, visible } => (
            choices::storage_answered(a, answer@, visible),
            true,
        ),
        DialogAnswer::Title { choice } => (terminal_title::title_chosen(a, choice@), true),
        DialogAnswer::WhichKey { action } => (
            choices::which_key_answered(a, action, scene.facts@),
            true,
        ),
    }
}

/// Whether an answer hands the key on to the prompt under the popup.
pub open spec fn hands_on(a: AppView, answer: DialogAnswer) -> bool {
    answer matches DialogAnswer::Suggestions { answer: s } && s is NotHandled
        && !navigation::in_child(a)
}

/// A key after the dialog has answered: what it leaves goes to the prompt.
pub open spec fn answered(a: AppView, key: KeyPress, answer: DialogAnswer, scene: KeyScene) -> (
    AppView,
    KeyNext,
) {
    let b = dialog_done(a, answer, scene);
    if b.1 {
        (recorded(b.0), KeyNext::Done)
    } else if hands_on(a, answer) {
        (b.0, KeyNext::Edit)
    } else if b.0.overlay_focus == OverlayFocus::Nothing {
        prompt_pressed(b.0, key)
    } else {
        (recorded(b.0), KeyNext::Done)
    }
}

impl App {
    fn answer_terminal(&mut self, closed: bool)
        ensures
            final(self)@ == terminal_answered(old(self)@, closed),
    {
        if closed {
            self.after_terminal_session_overlay_closed();
        }
    }

    pub fn set_suggestions(&mut self, suggestions: bool)
        ensures
            final(self)@ == with_suggestions(old(self)@, suggestions),
    {
        self.suggestions = suggestions;
        self.overlay_focus = if suggestions {
            OverlayFocus::SuggestionsPopup
        } else {
            OverlayFocus::Nothing
        };
    }

    fn run_suggestion(&mut self, input: InputType, scene: &KeyScene, allowed: bool)
        ensures
            final(self)@ == suggestion_run(old(self)@, input@, *scene, allowed),
    {
        reveal(suggestion_run);
        self.input.clear();
        self.process_input(input, &scene.facts, allowed);
        self.clear_suggestions_and_blur();
    }

    /// Fills in the selected suggestion, or runs it.
    pub fn autocomplete_and_submit(
        &mut self,
        selected: Option<SelectedSuggestion>,
        scene: &KeyScene,
    )
        ensures
            final(self)@ == suggestion_picked(old(self)@, selected, *scene),
    {
        match selected {
            Some(s) => match picked_suggestion(s.kind, s.replacement.as_str(), s.custom) {
                Picked::Run { .. } => {
                    self.run_suggestion(s.read_as, scene, s.allowed);
                },
                Picked::Fill => {
                    self.input = s.filled;
                    self.set_suggestions(s.suggestions);
                    self.clear_suggestions_and_blur();
                },
            },
            None => {
                self.clear_suggestions_and_blur();
            },
        }
    }

    pub fn answer_suggestions(&mut self, answer: SuggestionAnswer, scene: &KeyScene) -> (r: bool)
        ensures
            (final(self)@, r) == suggestion_answered(old(self)@, answer, *scene),
    {
        match answer {
            SuggestionAnswer::Handled => true,
            SuggestionAnswer::NotHandled => if self.is_subagent_session_active() {
                self.clear_suggestions();
                self.blur();
                true
            } else {
                false
            },
            SuggestionAnswer::Picked { selected } => {
                self.autocomplete_and_submit(selected, scene);
                true
            },
        }
    }

    fn answer_connect(&mut self, answer: ConnectAnswer) -> (r: bool)
        ensures
            (final(self)@, r) == connect_answered(old(self)@, answer),
    {
        match answer {
            ConnectAnswer::Handled => true,
            ConnectAnswer::NotHandled => false,
            ConnectAnswer::Chosen { id, local } => {
                self.handle_connect_dialog_selection(id.as_str(), local);
                true
            },
            ConnectAnswer::Left => {
                self.leave_connect_dialog();
                false
            },
        }
    }

    fn answer_login(&mut self, answer: LoginAnswer) -> (r: bool)
        ensures
            (final(self)@, r) == login_answered(old(self)@, answer),
    {
        match answer {
            LoginAnswer::Handled => true,
            LoginAnswer::NotHandled => false,
            LoginAnswer::Close => {
                self.blur();
                true
            },
            LoginAnswer::CopyLink { link } => {
                let name = self.login_label();
                self.copy_login_link(link.as_str(), name.as_str());
                true
            },
        }
    }

    fn answer_key_field(&mut self, answer: ApiKeyAnswer) -> (r: bool)
        ensures
            (final(self)@, r) == api_key_answered(old(self)@, answer),
    {
        match answer {
            ApiKeyAnswer::Submitted { kept } => {
                self.answer_api_key(kept);
                true
            },
            ApiKeyAnswer::Cancelled => {
                self.blur();
                true
            },
            ApiKeyAnswer::Continue => false,
        }
    }

    fn answer_skills(&mut self, visible: bool)
        ensures
            final(self)@ == answers::unless_visible(old(self)@, visible),
    {
        if !visible {
            self.overlay_focus = OverlayFocus::Nothing;
        }
    }

    pub fn answer_dialog(&mut self, answer: DialogAnswer, scene: &KeyScene) -> (r: bool)
        ensures
            (final(self)@, r) == dialog_done(old(self)@, answer, *scene),
    {
        match answer {
            DialogAnswer::Terminal { closed } => {
                self.answer_terminal(closed);
                true
            },
            DialogAnswer::Suggestions { answer } => self.answer_suggestions(answer, scene),
            DialogAnswer::Agents { chosen, visible } => {
                self.answer_agents(chosen, visible);
                true
            },
            DialogAnswer::Find { answer } => {
                self.answer_find(answer);
                true
            },
            DialogAnswer::Models { answer, visible } => {
                self.answer_models(answer, visible);
                true
            },
            DialogAnswer::Themes { answer, visible } => {
                self.answer_themes(answer, visible);
                true
            },
            DialogAnswer::Connect { answer } => self.answer_connect(answer),
            DialogAnswer::Login { answer } => self.answer_login(answer),
            DialogAnswer::ApiKey { answer } => self.answer_key_field(answer),
            DialogAnswer::Sessions { answer, visible } => self.answer_sessions(answer, visible),
            DialogAnswer::Rename { answer, visible } => self.answer_rename(answer, visible),
            DialogAnswer::Move { answer } => self.handle_move_session_dialog_action(answer),
            DialogAnswer::Permission { answer } => {
                self.answer_permission(answer);
                true
            },
            DialogAnswer::Question { answer } => {
                self.answer_question(answer, false);
                true
            },
            DialogAnswer::Remote { answer } => self.handle_remote_dialog_action(answer),
            DialogAnswer::Skills { chosen, visible } => {
                self.answer_skills(visible);
                chosen
            },
            DialogAnswer::Mcp { switched, visible } => {
                self.answer_mcp(switched, visible);
                true
            },
            DialogAnswer::Timeline { answer } => self.answer_timeline(answer),
            DialogAnswer::Copy { answer, durations } => {
                self.handle_copy_actions_event(answer, &durations);
                true
            },
            DialogAnswer::MessageActions { answer } => {
                self.answer_message_actions(answer);
                true
            },
            DialogAnswer::Palette { answer, visible } => {
                self.answer_palette(answer, &scene.facts, visible);
                true
            },
            DialogAnswer::Storage { answer, visible } => {
                self.answer_storage(answer, visible);
                true
            },
            DialogAnswer::Title { choice } => {
                self.handle_title_dialog_action(choice);
                true
            },
            DialogAnswer::WhichKey { action } => {
                self.answer_which_key(action, &scene.facts);
                true
            },
        }
    }

    fn will_hand_on(&self, answer: &DialogAnswer) -> (r: bool)
        ensures
            r == hands_on(self@, *answer),
    {
        match answer {
            DialogAnswer::Suggestions { answer: SuggestionAnswer::NotHandled } => {
                !self.is_subagent_session_active()
            },
            _ => false,
        }
    }

    /// Goes on with a key after the dialog has answered.
    pub fn handle_key_answer(
        &mut self,
        key: KeyPress,
        answer: DialogAnswer,
        scene: &KeyScene,
    ) -> (r: KeyNext)
        ensures
            (final(self)@, r) == answered(old(self)@, key, answer, *scene),
    {
        let edits = self.will_hand_on(&answer);
        if self.answer_dialog(answer, scene) {
            self.record_overlay_close_after_key();
            return KeyNext::Done;
        }
        if edits {
            return KeyNext::Edit;
        }
        if self.overlay_focus == OverlayFocus::Nothing {
            return self.handle_input_and_app_keys(key);
        }
        self.record_overlay_close_after_key();
        KeyNext::Done
    }
}

/// The prompt after the caller has edited it. What the popup had let through, and the prompt did
/// not take either, comes back to the prompt as a key of its own.
pub open spec fn edited(
    a: AppView,
    key: KeyPress,
    input: InputView,
    suggestions: bool,
    taken: bool,
) -> (AppView, KeyNext) {
    let popup = a.overlay_focus == OverlayFocus::SuggestionsPopup;
    let b = with_suggestions(AppView { input, ..a }, suggestions);
    if popup && !taken && !suggestions {
        prompt_pressed(b, key)
    } else {
        (recorded(b), KeyNext::Done)
    }
}

/// What the prompt says, with the images it refers to; nothing where it is empty.
#[derive(Debug)]
pub struct Submission {
    pub input: Option<InputType>,
    pub images: Vec<String>,
    pub allowed: bool,
}

pub open spec fn history_saved(a: AppView, images: Seq<Seq<char>>) -> AppView {
    if images.len() == 0 {
        app::with_effect(a, EffectView::SaveHistory)
    } else {
        a
    }
}

/// Whether a message can wait behind what runs in the current session.
pub open spec fn can_queue(a: AppView) -> bool {
    a.current matches Some(id) && (app::streams(a, id) || app::compacts(a, id))
}

pub open spec fn prompt_cleared(a: AppView) -> AppView {
    dialogs::suggestions_blurred(
        if a.input.text.len() > 0 {
            AppView { input: state::empty_input(), ..a }
        } else {
            a
        },
    )
}

#[verifier::opaque]
pub open spec fn message_submitted(
    a: AppView,
    msg: Seq<char>,
    images: Seq<Seq<char>>,
) -> AppView {
    let b = history_saved(a, images);
    if b.is_streaming && can_queue(b) {
        prompt_cleared(
            stream::queued(
                b,
                QueuedView::Message(QueuedMessageView { text: msg, image_paths: images }),
            ),
        )
    } else if !b.is_streaming {
        prompt_cleared(prompting::message_sent(b, msg, images))
    } else {
        b
    }
}

#[verifier::opaque]
pub open spec fn mention_submitted(
    a: AppView,
    m: prompting::MentionView,
    images: Seq<Seq<char>>,
    allowed: bool,
) -> AppView {
    let b = history_saved(a, images);
    if b.is_streaming {
        b
    } else {
        prompt_cleared(prompting::mentioned(b, m, images, allowed))
    }
}

#[verifier::opaque]
pub open spec fn command_submitted(a: AppView, c: commands::CommandView, scene: KeyScene) -> AppView {
    prompt_cleared(
        commands::commanded(AppView { input: state::empty_input(), ..a }, c, scene.facts@),
    )
}

/// The prompt sent: a command runs, a message goes out or waits its turn, and what cannot go out
/// while a turn runs stays in the prompt.
pub open spec fn submitted(a: AppView, s: Submission, scene: KeyScene) -> AppView {
    match s.input {
        Some(input) => match input@ {
            InputTypeView::Command(c) => command_submitted(a, c, scene),
            InputTypeView::Message(m) => message_submitted(a, m, text::views(s.images@)),
            InputTypeView::AgentMention(m) => mention_submitted(
                a,
                m,
                text::views(s.images@),
                s.allowed,
            ),
        },
        None => a,
    }
}

impl App {
    /// Goes on with a key after the caller has edited the prompt.
    pub fn finish_edit(&mut self, key: KeyPress, input: Input, suggestions: bool, taken: bool) -> (r:
        KeyNext)
        ensures
            (final(self)@, r) == edited(old(self)@, key, input@, suggestions, taken),
    {
        let popup = self.overlay_focus == OverlayFocus::SuggestionsPopup;
        self.input = input;
        self.set_suggestions(suggestions);
        if popup && !taken && !suggestions {
            return self.handle_input_and_app_keys(key);
        }
        self.record_overlay_close_after_key();
        KeyNext::Done
    }

    fn save_history(&mut self, images: &Vec<String>)
        ensures
            final(self)@ == history_saved(old(self)@, text::views(images@)),
    {
        assert(text::views(images@).len() == images@.len());
        if images.len() == 0 {
            self.push_effect(Effect::SaveHistory);
        }
    }

    pub fn can_queue_message(&self) -> (r: bool)
        ensures
            r == can_queue(self@),
    {
        match &self.current {
            Some(id) => self.session_has_active_stream(id.as_str())
                || self.session_has_active_compaction(id.as_str()),
            None => false,
        }
    }

    fn clear_prompt(&mut self)
        ensures
            final(self)@ == prompt_cleared(old(self)@),
    {
        if !self.input.is_empty() {
            self.input.clear();
        }
        self.clear_suggestions_and_blur();
    }

    pub fn queue_message_for_current_session(&mut self, msg: String, images: Vec<String>) -> (r:
        bool)
        ensures
            r == (old(self)@.current is Some),
            final(self)@ == stream::queued(
                old(self)@,
                QueuedView::Message(
                    QueuedMessageView { text: msg@, image_paths: text::views(images@) },
                ),
            ),
    {
        self.queue_item_for_current_session(
            QueuedItem::Message(QueuedUserMessage { text: msg, image_paths: images }),
        )
    }

    fn submit_message(&mut self, msg: String, images: Vec<String>)
        ensures
            final(self)@ == message_submitted(old(self)@, msg@, text::views(images@)),
    {
        reveal(message_submitted);
        self.save_history(&images);
        if self.is_streaming && self.can_queue_message() {
            self.queue_message_for_current_session(msg, images);
            self.clear_prompt();
            return ;
        }
        if !self.is_streaming {
            self.handle_message_input_with_images(msg.as_str(), &images);
            self.clear_prompt();
        }
    }

    fn submit_mention(&mut self, m: &prompting::AgentMention, images: &Vec<String>, allowed: bool)
        ensures
            final(self)@ == mention_submitted(old(self)@, m@, text::views(images@), allowed),
    {
        reveal(mention_submitted);
        self.save_history(images);
        if self.is_streaming {
            return ;
        }
        self.handle_agent_mention_input(m, images, allowed);
        self.clear_prompt();
    }

    fn submit_command(&mut self, c: commands::ParsedCommand, scene: &KeyScene)
        ensures
            final(self)@ == command_submitted(old(self)@, c@, *scene),
    {
        reveal(command_submitted);
        self.input.clear();
        self.process_command_input(c, &scene.facts);
        self.clear_prompt();
    }

    /// Sends what the prompt says.
    pub fn submit_prompt(&mut self, s: Submission, scene: &KeyScene)
        ensures
            final(self)@ == recorded(submitted(old(self)@, s, *scene)),
    {
        match s.input {
            Some(InputType::Command(c)) => self.submit_command(c, scene),
            Some(InputType::Message(m)) => self.submit_message(m, s.images),
            Some(InputType::AgentMention(m)) => self.submit_mention(&m, &s.images, s.allowed),
            None => {},
        }
        self.record_overlay_close_after_key();
    }
}

/// A turn runs in the session on the screen, with no dialog and no selection over it.
pub open spec fn at_busy_prompt(a: AppView) -> bool {
    &&& a.overlay_focus == OverlayFocus::Nothing
    &&& a.is_streaming
    &&& !selection::is_selected(a)
    &&& a.ui.selection_bar is None
}

/// What Esc finds before it is looked at.
pub open spec fn esc_noted(a: AppView) -> AppView {
    AppView {
        last_user_activity: a.now,
        ui: UiView { key_overlay: OverlayFocus::Nothing, ..a.ui },
        ..a
    }
}

proof fn lemma_esc_reaches_the_base(a: AppView, key: KeyPress, scene: KeyScene)
    requires
        a.overlay_focus == OverlayFocus::Nothing,
        !selection::is_selected(a),
        a.ui.selection_bar is None,
        is_bare_esc(key),
    ensures
        prepared(a, key) == esc_noted(a),
        pressed(a, key, scene) == undialogued(esc_noted(a), key),
        base_pressed(esc_noted(a), key) == (if a.is_streaming {
            streaming_esc(esc_noted(a), key)
        } else {
            timeline_esc(esc_noted(a), key)
        }),
        primed(esc_noted(a)) == primed(a),
{
    let b = esc_noted(a);
    assert(prepared(a, key) == b) by {
        reveal(prepared);
    }
    assert(shortcut(b, key) is None);
    assert(bar_pressed(b, key, scene) == (b, false)) by {
        reveal(bar_pressed);
    }
    assert(later_pressed(b, key, scene) == undialogued(b, key)) by {
        reveal(later_pressed);
    }
    assert(selection::deselected(b) == b) by {
        reveal(selection::deselected);
    }
    assert(base_pressed(b, key) == esc_pressed(b, key)) by {
        reveal(base_pressed);
    }
}

/// One Esc never stops a turn: unless an earlier one has armed it not long ago, it arms, and
/// everything else stays as it is.
pub proof fn law_one_esc_stops_nothing(a: AppView, key: KeyPress, scene: KeyScene)
    requires
        at_busy_prompt(a),
        is_bare_esc(key),
        !primed(a),
    ensures
        pressed(a, key, scene) == (armed(esc_noted(a)), KeyNext::Done),
        primed(pressed(a, key, scene).0),
        at_busy_prompt(pressed(a, key, scene).0),
{
    lemma_esc_reaches_the_base(a, key, scene);
}

/// Two of them do, while the first still counts. Where nothing waits that could go out instead,
/// the turn is cancelled.
pub proof fn law_two_esc_stop_the_turn(
    a: AppView,
    key: KeyPress,
    scene: KeyScene,
    later: u64,
    id: Seq<char>,
)
    requires
        at_busy_prompt(a),
        is_bare_esc(key),
        !primed(a),
        app::elapsed(later, a.now) < ESC_ARM_TIMEOUT,
        a.current == Some(id),
    ensures
        ({
            let once = AppView { now: later, ..pressed(a, key, scene).0 };
            let twice = pressed(once, key, scene);
            &&& twice == (recorded(turn_stopped(unprimed(esc_noted(once)))), KeyNext::Done)
            &&& !stream::has_message(stream::queue_of(a, id)) && !app::compacts(a, id) && (
            app::client_of(a, id) matches Some(c) && c.stream is Some) ==> twice.0.effects
                == a.effects.push(EffectView::CancelStream { session_id: id }) && twice.0.clients
                == a.clients && twice.0.esc_primed_at is None
        }),
{
    law_one_esc_stops_nothing(a, key, scene);
    let once = AppView { now: later, ..pressed(a, key, scene).0 };
    lemma_esc_reaches_the_base(once, key, scene);
    let b = unprimed(esc_noted(once));
    assert(app::client_of(b, id) == app::client_of(a, id));
    if !stream::has_message(stream::queue_of(a, id)) && !app::compacts(a, id) && (app::client_of(
        a,
        id,
    ) matches Some(c) && c.stream is Some) {
        assert(turns::stream_cancelled(b, id) == app::with_effect(
            b,
            EffectView::CancelStream { session_id: id },
        )) by {
            reveal(turns::stream_cancelled);
        }
        assert(turn_stopped(b) == turns::stream_cancelled(b, id)) by {
            reveal(turn_stopped);
        }
    }
}

/// The chat is on the screen with nothing in the prompt, no dialog, no selection and no turn under
/// way, and it is not that of an agent.
pub open spec fn at_empty_prompt(a: AppView) -> bool {
    &&& a.base_focus == BaseFocus::Chat
    &&& a.overlay_focus == OverlayFocus::Nothing
    &&& !a.is_streaming
    &&& !selection::is_selected(a)
    &&& a.ui.selection_bar is None
    &&& a.input.text.len() == 0
    &&& !navigation::in_child(a)
}

pub open spec fn is_bare_esc(key: KeyPress) -> bool {
    key.code == KeyCode::Esc && key.bare() && !key.release
}

proof fn lemma_esc_at_empty_prompt(a: AppView, key: KeyPress, scene: KeyScene)
    requires
        at_empty_prompt(a),
        is_bare_esc(key),
    ensures
        pressed(a, key, scene) == (if primed(a) {
            dialogs::timeline_shown(unprimed(esc_noted(a)))
        } else {
            armed(esc_noted(a))
        }, KeyNext::Done),
{
    lemma_esc_reaches_the_base(a, key, scene);
    let b = esc_noted(a);
    let c = dialogs::timeline_shown(unprimed(b));
    assert(c.ui == b.ui) by {
        reveal(dialogs::timeline_shown);
    }
    assert(recorded(c) == c);
    assert(recorded(armed(b)) == armed(b));
}

/// A bare Esc at an empty prompt opens nothing and arms; a second one soon after opens the
/// timeline at the last message of the session, which is lit up, and disarms.
pub proof fn law_two_esc_open_the_timeline(
    a: AppView,
    key: KeyPress,
    scene: KeyScene,
    later: u64,
    i: int,
)
    requires
        at_empty_prompt(a),
        is_bare_esc(key),
        !primed(a),
        app::elapsed(later, a.now) < ESC_ARM_TIMEOUT,
        dialogs::current_place(a) == Some(i),
    ensures
        ({
            let once = pressed(a, key, scene);
            let twice = pressed(AppView { now: later, ..once.0 }, key, scene);
            let n = a.sessions[i].messages.len();
            &&& once.1 == KeyNext::Done
            &&& at_empty_prompt(once.0)
            &&& primed(once.0)
            &&& once.0.effects == a.effects
            &&& twice.1 == KeyNext::Done
            &&& twice.0.overlay_focus == OverlayFocus::TimelineDialog
            &&& twice.0.esc_primed_at is None
            &&& n > 0 ==> twice.0.chat.highlighted == Some((n - 1) as usize)
                && twice.0.effects.last() == (EffectView::ScrollToMessage {
                index: (n - 1) as usize,
            })
        }),
{
    lemma_esc_at_empty_prompt(a, key, scene);
    let once = pressed(a, key, scene).0;
    let again = AppView { now: later, ..once };
    assert(at_empty_prompt(again));
    lemma_esc_at_empty_prompt(again, key, scene);
    reveal(dialogs::timeline_shown);
}

/// Any other key at an empty prompt disarms: a bare Esc there afterwards, whenever it comes, opens
/// nothing and only arms.
pub proof fn law_other_keys_disarm(
    a: AppView,
    other: KeyPress,
    scene: KeyScene,
    b: AppView,
    key: KeyPress,
)
    requires
        at_empty_prompt(a),
        other.code != KeyCode::Esc,
        !other.release,
        at_empty_prompt(b),
        b.esc_primed_at == pressed(a, other, scene).0.esc_primed_at,
        is_bare_esc(key),
    ensures
        pressed(a, other, scene).0.esc_primed_at is None,
        pressed(b, key, scene).0.overlay_focus == OverlayFocus::Nothing,
        pressed(b, key, scene).0.esc_primed_at == Some(b.now),
{
    lemma_other_key_disarms(a, other, scene);
    lemma_esc_at_empty_prompt(b, key, scene);
}

proof fn lemma_shortcut_stays_disarmed(b: AppView, s: Shortcut)
    requires
        b.esc_primed_at is None,
    ensures
        shortcut_done(b, s).esc_primed_at is None,
{
}

proof fn lemma_prompt_stays_disarmed(b: AppView, key: KeyPress)
    requires
        at_empty_prompt(b),
        key.code != KeyCode::Esc,
        b.esc_primed_at is None,
    ensures
        undialogued(b, key).0.esc_primed_at is None,
{
    assert(base_pressed(b, key) == (if key.code == KeyCode::Tab {
        (dialogs::agent_toggled(b), true)
    } else {
        (b, false)
    })) by {
        reveal(base_pressed);
    }
    assert(prompt_pressed(b, key).0.esc_primed_at is None) by {
        reveal(prompt_pressed);
    }
}

proof fn lemma_other_key_disarms(a: AppView, key: KeyPress, scene: KeyScene)
    requires
        at_empty_prompt(a),
        key.code != KeyCode::Esc,
        !key.release,
    ensures
        pressed(a, key, scene).0.esc_primed_at is None,
{
    let b = prepared(a, key);
    assert(at_empty_prompt(b) && b.esc_primed_at is None) by {
        reveal(prepared);
    }
    match shortcut(b, key) {
        Some(s) => {
            lemma_shortcut_stays_disarmed(b, s);
        },
        None => {
            assert(bar_pressed(b, key, scene) == (b, false)) by {
                reveal(bar_pressed);
            }
            assert(interrupt_pressed(b).esc_primed_at is None) by {
                reveal(interrupt_pressed);
            }
            lemma_prompt_stays_disarmed(b, key);
            assert(later_pressed(b, key, scene).0.esc_primed_at is None) by {
                reveal(later_pressed);
            }
        },
    }
}

pub open spec fn is_ctrl_c(key: KeyPress) -> bool {
    key.only_ctrl('c') && !key.release
}

proof fn lemma_ctrl_c(a: AppView, key: KeyPress, scene: KeyScene)
    requires
        at_prompt(a),
        !selection::is_selected(a),
        is_ctrl_c(key),
    ensures
        ({
            let b = prepared(a, key);
            let r = pressed(a, key, scene);
            &&& r == (recorded(interrupt_pressed(b)), KeyNext::Done)
            &&& b.now == a.now && b.running == a.running && b.overlay_focus == a.overlay_focus
            &&& b.ui == (UiView { key_overlay: OverlayFocus::Nothing, ..a.ui })
            &&& b.chat == a.chat && b.input == a.input
        }),
{
    let b = prepared(a, key);
    assert(b == unprimed(
        AppView {
            last_user_activity: a.now,
            ui: UiView { key_overlay: OverlayFocus::Nothing, ..a.ui },
            ..a
        },
    )) by {
        reveal(prepared);
    }
    assert(shortcut(b, key) is None);
    assert(bar_pressed(b, key, scene) == (b, false)) by {
        reveal(bar_pressed);
    }
    assert(later_pressed(b, key, scene) == (recorded(interrupt_pressed(b)), KeyNext::Done)) by {
        reveal(later_pressed);
    }
}

/// One Ctrl-C at the prompt clears it and goes on; a second one soon after quits.
pub proof fn law_ctrl_c_twice_quits(a: AppView, key: KeyPress, scene: KeyScene, later: u64)
    requires
        at_prompt(a),
        !selection::is_selected(a),
        is_ctrl_c(key),
        presses(a) == 1,
        app::elapsed(later, a.now) < CTRL_C_WINDOW,
    ensures
        ({
            let once = pressed(a, key, scene).0;
            let twice = pressed(AppView { now: later, ..once }, key, scene).0;
            &&& once.input == state::empty_input()
            &&& once.running == a.running
            &&& !twice.running
        }),
{
    lemma_ctrl_c(a, key, scene);
    let b = prepared(a, key);
    assert(presses(b) == 1);
    let c = interrupt_pressed(b);
    assert(c == (AppView { input: state::empty_input(), ..press_counted(b) })) by {
        reveal(interrupt_pressed);
    }
    assert(recorded(c) == c);
    let again = AppView { now: later, ..c };
    lemma_ctrl_c(again, key, scene);
    let d = prepared(again, key);
    assert(presses(d) == 2);
    assert(!interrupt_pressed(d).running) by {
        reveal(interrupt_pressed);
    }
}

/// The release of a key does nothing at all.
pub proof fn law_release_does_nothing(a: AppView, key: KeyPress, scene: KeyScene)
    requires
        key.release,
    ensures
        pressed(a, key, scene) == (a, KeyNext::Done),
{
}

} // verus!

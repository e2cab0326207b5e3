//! Selected text, and the bar of actions beside it.

use crate::app;
use crate::app::{App, AppView};
use crate::history;
use crate::state;
use crate::state::{ChatView, Effect, EffectView, Input, InputView, ToastLevel};
use crate::text;
use crate::titles;
use crate::ui::{SelectionActionBarState, SelectionActionTarget, Ui, UiView};
use vstd::prelude::*;
use vstd::string::*;

verus! {

pub const SELECTION_ACTION_BAR_WIDTH: u16 = 47;

pub const CHAT_SELECTION_ACTION_ADD_TO_PROMPT_COL: usize = 8;

pub const CHAT_SELECTION_ACTION_OPEN_IN_EDITOR_COL: usize = 24;

pub const CHAT_SELECTION_ACTION_ESC_COL: usize = 43;

pub const INPUT_SELECTION_ACTION_ESC_COL: usize = 8;

/// What the bar offers.
#[derive(Debug, Clone, Copy, PartialEq, Eq, Structural)]
pub enum SelectionAction {
    AddToPrompt,
    Copy,
    OpenInEditor,
    Dismiss,
}

/// The action under a column of the bar.
pub open spec fn action_at(state: SelectionActionBarState, column: usize) -> SelectionAction {
    match state.target {
        SelectionActionTarget::Chat => if column < 8 {
            SelectionAction::Copy
        } else if column < 24 {
            SelectionAction::AddToPrompt
        } else if column < 43 && state.can_open_in_editor {
            SelectionAction::OpenInEditor
        } else {
            SelectionAction::Dismiss
        },
        SelectionActionTarget::Input => if column < 8 {
            SelectionAction::Copy
        } else {
            SelectionAction::Dismiss
        },
    }
}

pub fn selection_action_for_column(state: SelectionActionBarState, column: usize) -> (r:
    SelectionAction)
    ensures
        r == action_at(state, column),
{
    match state.target {
        SelectionActionTarget::Chat => if column < CHAT_SELECTION_ACTION_ADD_TO_PROMPT_COL {
            SelectionAction::Copy
        } else if column < CHAT_SELECTION_ACTION_OPEN_IN_EDITOR_COL {
            SelectionAction::AddToPrompt
        } else if state.can_open_in_editor && column < CHAT_SELECTION_ACTION_ESC_COL {
            SelectionAction::OpenInEditor
        } else {
            SelectionAction::Dismiss
        },
        SelectionActionTarget::Input => if column < INPUT_SELECTION_ACTION_ESC_COL {
            SelectionAction::Copy
        } else {
            SelectionAction::Dismiss
        },
    }
}

/// How wide the bar is: its labels, and `esc` at the end.
pub open spec fn bar_width(state: SelectionActionBarState) -> u16 {
    match state.target {
        SelectionActionTarget::Chat => if state.can_open_in_editor {
            47
        } else {
            28
        },
        SelectionActionTarget::Input => 12,
    }
}

pub fn selection_action_bar_width(state: SelectionActionBarState) -> (r: u16)
    ensures
        r == bar_width(state),
{
    match state.target {
        SelectionActionTarget::Chat => if state.can_open_in_editor {
            SELECTION_ACTION_BAR_WIDTH
        } else {
            28
        },
        SelectionActionTarget::Input => 12,
    }
}

/// A piece of the bar: a key, or what it does.
#[derive(Debug)]
pub struct BarLabel {
    pub key: bool,
    pub text: &'static str,
}

/// The bar as it is written out, a piece after the other.
pub open spec fn bar_labels(state: SelectionActionBarState) -> Seq<(bool, Seq<char>)> {
    let copy = seq![(false, " "@), (true, "y"@), (false, " copy "@)];
    let end = seq![(true, "esc"@), (false, " "@)];
    match state.target {
        SelectionActionTarget::Chat => {
            let add = copy + seq![(true, "i"@), (false, " add to prompt "@)];
            if state.can_open_in_editor {
                add + seq![(true, "e"@), (false, " open in editor "@)] + end
            } else {
                add + end
            }
        },
        SelectionActionTarget::Input => copy + end,
    }
}

pub open spec fn label_views(v: Seq<BarLabel>) -> Seq<(bool, Seq<char>)> {
    v.map_values(|l: BarLabel| (l.key, l.text@))
}

/// The columns that the first `n` pieces take.
pub open spec fn columns(labels: Seq<(bool, Seq<char>)>, n: int) -> int
    decreases n,
{
    if n <= 0 || n > labels.len() {
        0
    } else {
        columns(labels, n - 1) + labels[n - 1].1.len()
    }
}

pub fn selection_action_bar_labels(state: SelectionActionBarState) -> (r: Vec<BarLabel>)
    ensures
        label_views(r@) == bar_labels(state),
{
    let mut out: Vec<BarLabel> = Vec::new();
    out.push(BarLabel { key: false, text: " " });
    out.push(BarLabel { key: true, text: "y" });
    out.push(BarLabel { key: false, text: " copy " });
    if state.target == SelectionActionTarget::Chat {
        out.push(BarLabel { key: true, text: "i" });
        out.push(BarLabel { key: false, text: " add to prompt " });
        if state.can_open_in_editor {
            out.push(BarLabel { key: true, text: "e" });
            out.push(BarLabel { key: false, text: " open in editor " });
        }
    }
    out.push(BarLabel { key: true, text: "esc" });
    out.push(BarLabel { key: false, text: " " });
    assert(label_views(out@) =~= bar_labels(state));
    out
}

/// The bar has room for its labels, and a click on the key of a label that acts on the selection
/// does what the label says.
pub proof fn law_labels_stand_over_their_actions(state: SelectionActionBarState)
    ensures
        columns(bar_labels(state), bar_labels(state).len() as int) <= bar_width(state),
        action_at(state, columns(bar_labels(state), 1) as usize) == SelectionAction::Copy,
        state.target == SelectionActionTarget::Chat ==> action_at(
            state,
            columns(bar_labels(state), 3) as usize,
        ) == SelectionAction::AddToPrompt,
        state.target == SelectionActionTarget::Chat && state.can_open_in_editor ==> action_at(
            state,
            columns(bar_labels(state), 5) as usize,
        ) == SelectionAction::OpenInEditor,
{
    reveal_strlit(" ");
    reveal_strlit("y");
    reveal_strlit(" copy ");
    reveal_strlit("i");
    reveal_strlit(" add to prompt ");
    reveal_strlit("e");
    reveal_strlit(" open in editor ");
    reveal_strlit("esc");
    reveal_with_fuel(columns, 10);
}

/// A bar that does not offer the editor is exactly as wide as its labels, and a click on "esc"
/// dismisses it.
pub proof fn law_esc_dismisses_the_bar(state: SelectionActionBarState)
    requires
        !(state.target == SelectionActionTarget::Chat && state.can_open_in_editor),
    ensures
        columns(bar_labels(state), bar_labels(state).len() as int) == bar_width(state),
        action_at(
            state,
            columns(bar_labels(state), bar_labels(state).len() - 2) as usize,
        ) == SelectionAction::Dismiss,
{
    reveal_strlit(" ");
    reveal_strlit("y");
    reveal_strlit(" copy ");
    reveal_strlit("i");
    reveal_strlit(" add to prompt ");
    reveal_strlit("esc");
    reveal_with_fuel(columns, 10);
}

/// Every action that the bar offers stands under one of its columns, and the last columns always
/// dismiss it.
pub proof fn law_bar_offers_its_actions(state: SelectionActionBarState)
    ensures
        action_at(state, 0) == SelectionAction::Copy,
        action_at(state, (bar_width(state) - 4) as usize) == SelectionAction::Dismiss,
        state.target == SelectionActionTarget::Chat ==> action_at(state, 8)
            == SelectionAction::AddToPrompt,
        (exists|c: usize| #[trigger] action_at(state, c) == SelectionAction::OpenInEditor) <==> (
        state.target == SelectionActionTarget::Chat && state.can_open_in_editor),
{
    if state.target == SelectionActionTarget::Chat && state.can_open_in_editor {
        assert(action_at(state, 24) == SelectionAction::OpenInEditor);
    }
}

pub open spec fn chat_deselected(c: ChatView) -> ChatView {
    ChatView { has_selection: false, is_dragging: false, ..c }
}

pub open spec fn input_deselected(i: InputView) -> InputView {
    InputView { has_selection: false, is_dragging: false, selected_text: Seq::empty(), ..i }
}

/// Whether anything is selected.
pub open spec fn is_selected(a: AppView) -> bool {
    a.chat.has_selection || a.input.has_selection
}

pub open spec fn with_bar(a: AppView, bar: Option<SelectionActionBarState>) -> AppView {
    AppView { ui: UiView { selection_bar: bar, ..a.ui }, ..a }
}

/// The selection taken back: that of the chat, else that of the input.
#[verifier::opaque]
pub open spec fn deselected(a: AppView) -> AppView {
    let b = with_bar(a, None);
    if a.chat.has_selection {
        AppView { chat: chat_deselected(b.chat), ..b }
    } else if a.input.has_selection {
        AppView { input: input_deselected(b.input), ..b }
    } else {
        b
    }
}

pub open spec fn told_copied(a: AppView, t: Seq<char>) -> AppView {
    app::toasted(
        history::copied(a, t, ""@),
        ToastLevel::Info,
        "Copied to clipboard"@,
        0,
    )
}

/// What is selected, if it says anything; the text of the chat is as the caller sees it.
pub open spec fn selected_text(
    a: AppView,
    target: SelectionActionTarget,
    chat_text: Option<Seq<char>>,
) -> Option<Seq<char>> {
    match target {
        SelectionActionTarget::Chat => if a.chat.has_selection {
            match chat_text {
                Some(t) => if text::is_blank(t) {
                    None
                } else {
                    Some(t)
                },
                None => None,
            }
        } else {
            None
        },
        SelectionActionTarget::Input => if a.input.has_selection && a.input.selected_text.len()
            > 0 {
            Some(a.input.selected_text)
        } else {
            None
        },
    }
}

/// The selection copied and taken back.
#[verifier::opaque]
pub open spec fn selection_copied(a: AppView, chat_text: Option<Seq<char>>) -> AppView {
    if !is_selected(a) {
        a
    } else {
        let target = if a.chat.has_selection {
            SelectionActionTarget::Chat
        } else {
            SelectionActionTarget::Input
        };
        deselected(
            match selected_text(a, target, chat_text) {
                Some(t) => told_copied(a, t),
                None => a,
            },
        )
    }
}

pub open spec fn dismissed(a: AppView) -> AppView {
    let b = deselected(a);
    AppView { ui: UiView { pending_click: None, ..b.ui }, ..b }
}

pub open spec fn with_inserted(i: InputView, added: Seq<char>) -> InputView {
    InputView {
        text: state::inserted(i, added),
        cursor: (state::insertion_point(i) + added.len()) as usize,
        ..i
    }
}

/// The prompt with a quotation added, on a line of its own.
pub open spec fn quotation_added(i: InputView, t: Seq<char>) -> InputView {
    with_inserted(
        if i.text.len() > 0 {
            with_inserted(i, "\n"@)
        } else {
            i
        },
        titles::quoted_selection(t),
    )
}

#[verifier::opaque]
pub open spec fn quoted(a: AppView, t: Seq<char>) -> AppView {
    app::toasted(
        dismissed(AppView { input: quotation_added(a.input, t), ..a }),
        ToastLevel::Info,
        "Added selection to prompt"@,
        0,
    )
}

/// The selection of the chat added to the prompt.
pub open spec fn added_to_prompt(
    a: AppView,
    target: SelectionActionTarget,
    chat_text: Option<Seq<char>>,
) -> AppView {
    if target != SelectionActionTarget::Chat {
        a
    } else {
        match selected_text(a, target, chat_text) {
            Some(t) => quoted(a, t),
            None => dismissed(a),
        }
    }
}

/// Whether adding to the prompt came to anything.
pub open spec fn adds_to_prompt(
    a: AppView,
    target: SelectionActionTarget,
    chat_text: Option<Seq<char>>,
) -> bool {
    target == SelectionActionTarget::Chat && (selected_text(a, target, chat_text) is Some
        || is_selected(a))
}

/// The bar for what is selected.
pub open spec fn bar_shown(
    a: AppView,
    target: SelectionActionTarget,
    chat_text: Option<Seq<char>>,
    editable: bool,
) -> AppView {
    with_bar(
        a,
        match selected_text(a, target, chat_text) {
            Some(_) => Some(
                SelectionActionBarState {
                    target,
                    can_open_in_editor: target == SelectionActionTarget::Chat && editable,
                },
            ),
            None => None,
        },
    )
}

/// The selected line to be opened in an editor.
pub open spec fn editor_asked(a: AppView, editable: bool) -> AppView {
    if editable {
        app::with_effect(a, EffectView::OpenSelection)
    } else {
        app::toasted(a, ToastLevel::Error, "Selection is not on an editable code line"@, 0)
    }
}

pub open spec fn editor_answered(a: AppView, result: Result<Seq<char>, Seq<char>>) -> AppView {
    match result {
        Ok(place) => dismissed(app::toasted(a, ToastLevel::Info, "Opened "@ + place, 0)),
        Err(why) => app::toasted(a, ToastLevel::Error, "Failed to open editor: "@ + why, 0),
    }
}

impl Input {
    pub fn clear_selection(&mut self)
        ensures
            final(self)@ == input_deselected(old(self)@),
    {
        self.has_selection = false;
        self.is_dragging = false;
        self.selected_text = String::new();
    }

    /// Adds a quotation on a line of its own.
    pub fn add_quotation(&mut self, t: &str)
        ensures
            final(self)@ == quotation_added(old(self)@, t@),
    {
        if !self.is_empty() {
            self.insert_str("\n");
        }
        let quotation = titles::format_selection_prompt_addition(t);
        self.insert_str(quotation.as_str());
    }
}

impl App {
    pub fn set_selection_bar(&mut self, bar: Option<SelectionActionBarState>)
        ensures
            final(self)@ == with_bar(old(self)@, bar),
    {
        reveal(<Ui as View>::view);
        self.ui.selection_bar = bar;
    }

    /// Takes the selection back; says whether there was one.
    pub fn clear_selection(&mut self) -> (r: bool)
        ensures
            r == is_selected(old(self)@),
            final(self)@ == deselected(old(self)@),
    {
        reveal(deselected);
        self.set_selection_bar(None);
        if self.chat.has_selection {
            self.chat.has_selection = false;
            self.chat.is_dragging = false;
            return true;
        }
        if self.input.has_selection {
            self.input.clear_selection();
            return true;
        }
        false
    }

    pub fn dismiss_selection_actions(&mut self) -> (r: bool)
        ensures
            r == is_selected(old(self)@),
            final(self)@ == dismissed(old(self)@),
    {
        let had = self.clear_selection();
        reveal(<Ui as View>::view);
        self.ui.pending_click = None;
        had
    }

    pub fn selected_text_for_action(
        &self,
        target: SelectionActionTarget,
        chat_text: &Option<String>,
    ) -> (r: Option<String>)
        ensures
            text::opt_view(r) == selected_text(self@, target, text::opt_view(*chat_text)),
    {
        match target {
            SelectionActionTarget::Chat => if self.chat.has_selection {
                match chat_text {
                    Some(t) => if text::blank(t.as_str()) {
                        None
                    } else {
                        Some(t.clone())
                    },
                    None => None,
                }
            } else {
                None
            },
            SelectionActionTarget::Input => if self.input.has_selection
                && !self.input.selected_text.as_str().is_empty() {
                Some(self.input.selected_text.clone())
            } else {
                None
            },
        }
    }

    fn tell_copied(&mut self, t: &str)
        ensures
            final(self)@ == told_copied(old(self)@, t@),
    {
        self.copy_text(t, "");
        self.push_toast(ToastLevel::Info, "Copied to clipboard", 0);
    }

    /// Copies what is selected; says whether anything was.
    pub fn try_copy_selection(&mut self, chat_text: &Option<String>) -> (r: bool)
        ensures
            r == is_selected(old(self)@),
            final(self)@ == selection_copied(old(self)@, text::opt_view(*chat_text)),
    {
        reveal(selection_copied);
        let target = if self.chat.has_selection {
            SelectionActionTarget::Chat
        } else if self.input.has_selection {
            SelectionActionTarget::Input
        } else {
            return false;
        };
        match self.selected_text_for_action(target, chat_text) {
            Some(t) => {
                self.tell_copied(t.as_str());
            },
            None => {},
        }
        self.clear_selection();
        true
    }

    fn quote(&mut self, t: &str)
        ensures
            final(self)@ == quoted(old(self)@, t@),
    {
        reveal(quoted);
        self.input.add_quotation(t);
        self.dismiss_selection_actions();
        self.push_toast(ToastLevel::Info, "Added selection to prompt", 0);
    }

    pub fn add_selection_to_prompt(
        &mut self,
        target: SelectionActionTarget,
        chat_text: &Option<String>,
    ) -> (r: bool)
        ensures
            r == adds_to_prompt(old(self)@, target, text::opt_view(*chat_text)),
            final(self)@ == added_to_prompt(old(self)@, target, text::opt_view(*chat_text)),
    {
        if target != SelectionActionTarget::Chat {
            return false;
        }
        match self.selected_text_for_action(target, chat_text) {
            Some(t) => {
                self.quote(t.as_str());
                true
            },
            None => self.dismiss_selection_actions(),
        }
    }

    pub fn show_selection_action_bar_for(
        &mut self,
        target: SelectionActionTarget,
        chat_text: &Option<String>,
        editable: bool,
    )
        ensures
            final(self)@ == bar_shown(old(self)@, target, text::opt_view(*chat_text), editable),
    {
        let bar = match self.selected_text_for_action(target, chat_text) {
            Some(_) => Some(
                SelectionActionBarState {
                    target,
                    can_open_in_editor: target == SelectionActionTarget::Chat && editable,
                },
            ),
            None => None,
        };
        self.set_selection_bar(bar);
    }

    pub fn open_selection_in_editor(&mut self, editable: bool)
        ensures
            final(self)@ == editor_asked(old(self)@, editable),
    {
        if editable {
            self.push_effect(Effect::OpenSelection);
        } else {
            self.push_toast(ToastLevel::Error, "Selection is not on an editable code line", 0);
        }
    }

    /// Tells what became of opening the selected line.
    pub fn finish_open_selection(&mut self, result: Result<String, String>)
        ensures
            final(self)@ == editor_answered(
                old(self)@,
                match result {
                    Ok(place) => Ok(place@),
                    Err(why) => Err(why@),
                },
            ),
    {
        match result {
            Ok(place) => {
                let mut t = "Opened ".to_string();
                t.append(place.as_str());
                self.push_toast(ToastLevel::Info, t.as_str(), 0);
                self.dismiss_selection_actions();
            },
            Err(why) => {
                let mut t = "Failed to open editor: ".to_string();
                t.append(why.as_str());
                self.push_toast(ToastLevel::Error, t.as_str(), 0);
            },
        }
    }
}

/// After copying or dismissing, the selection that was acted on is gone, and so is the bar.
pub proof fn law_acting_ends_the_selection(a: AppView, chat_text: Option<Seq<char>>)
    ensures
        dismissed(a).ui.selection_bar is None,
        !dismissed(a).chat.has_selection,
        is_selected(a) ==> selection_copied(a, chat_text).ui.selection_bar is None,
        !selection_copied(a, chat_text).chat.has_selection,
        !is_selected(a) ==> selection_copied(a, chat_text) == a,
{
    reveal(deselected);
    reveal(selection_copied);
}

} // verus!

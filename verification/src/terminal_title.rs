//! The title of the terminal's window.

use crate::app;
use crate::app::{App, AppView};
use crate::dialogs;
use crate::focus::OverlayFocus;
use crate::message::{Message, MessageView};
use crate::prompting;
use crate::session::SessionStatus;
use crate::state;
use crate::state::{ClientSessionState, ClientView, Effect, EffectView, ToastLevel};
use crate::text;
use crate::titles;
use crate::ui::{TerminalTitleItem, TitleState, TitleView, Ui, UiView};
use vstd::prelude::*;
use vstd::string::*;

verus! {

/// How long a frame of the spinner stands, in milliseconds.
pub const SPINNER_INTERVAL: u64 = 100;

/// How long the name of a branch is taken to hold, in milliseconds.
pub const BRANCH_REFRESH: u64 = 2000;

/// Where the last part of a path that ends at `n` begins.
pub open spec fn part_start(s: Seq<char>, n: int) -> int
    decreases n,
{
    if n <= 0 || n > s.len() || s[n - 1] == '/' {
        n
    } else {
        part_start(s, n - 1)
    }
}

proof fn lemma_part_start(s: Seq<char>, n: int)
    requires
        0 <= n <= s.len(),
    ensures
        0 <= part_start(s, n) <= n,
        n > 0 && s[n - 1] != '/' ==> part_start(s, n) < n,
    decreases n,
{
    if n > 0 && s[n - 1] != '/' {
        lemma_part_start(s, n - 1);
    }
}

/// The name of what the path `s`, up to `n`, leads to: its last part, single dots and the
/// separators at the end aside. A path that ends in the way up has none.
pub open spec fn leaf_before(s: Seq<char>, n: int) -> Option<Seq<char>>
    decreases n,
{
    if n <= 0 || n > s.len() {
        None
    } else if s[n - 1] == '/' {
        leaf_before(s, n - 1)
    } else {
        let i = part_start(s, n);
        if i < 0 || i >= n {
            None
        } else if s.subrange(i, n) == "."@ {
            leaf_before(s, i)
        } else if s.subrange(i, n) == ".."@ {
            None
        } else {
            Some(s.subrange(i, n))
        }
    }
}

pub open spec fn leaf(path: Seq<char>) -> Option<Seq<char>> {
    leaf_before(path, path.len() as int)
}

fn start_of_part(v: &Vec<char>, n: usize) -> (i: usize)
    requires
        n <= v@.len(),
    ensures
        i == part_start(v@, n as int),
        i <= n,
        n > 0 && v@[n - 1] != '/' ==> i < n,
{
    let mut i: usize = n;
    while i > 0 && v[i - 1] != '/'
        invariant
            i <= n <= v@.len(),
            part_start(v@, i as int) == part_start(v@, n as int),
        decreases i,
    {
        i -= 1;
    }
    proof {
        lemma_part_start(v@, n as int);
    }
    i
}

/// The last part of a path.
pub fn path_leaf(path: &str) -> (r: Option<String>)
    ensures
        text::opt_view(r) == leaf(path@),
{
    let v = text::chars_of(path);
    let mut n: usize = v.len();
    while n > 0
        invariant
            n <= v@.len(),
            v@ == path@,
            leaf_before(path@, n as int) == leaf(path@),
        decreases n,
    {
        if v[n - 1] == '/' {
            n -= 1;
        } else {
            let i: usize = start_of_part(&v, n);
            let part = text::string_of_range(&v, i, n);
            if text::same(part.as_str(), ".") {
                n = i;
            } else if text::same(part.as_str(), "..") {
                return None;
            } else {
                return Some(part);
            }
        }
    }
    None
}

/// The folder that the current session works in.
pub open spec fn active_path(a: AppView) -> Seq<char> {
    match dialogs::current_place(a) {
        Some(i) => if text::is_blank(a.sessions[i].workspace_path) {
            a.ui.cwd
        } else {
            text::trim(a.sessions[i].workspace_path)
        },
        None => a.ui.cwd,
    }
}

/// The name of the project: that of its folder, if it has one that says something.
pub open spec fn project_name(a: AppView) -> Seq<char> {
    titles::title_part(
        match leaf(active_path(a)) {
            Some(name) => {
                let n = text::trim(name);
                if n.len() == 0 || n == "."@ || n == ".."@ {
                    "crabcode"@
                } else {
                    n
                }
            },
            None => "crabcode"@,
        },
        48,
    )
}

/// Whether the user is waited for.
pub open spec fn needs_action(a: AppView) -> bool {
    a.overlay_focus == OverlayFocus::PermissionDialog || a.overlay_focus
        == OverlayFocus::QuestionDialog || a.overlay_focus == OverlayFocus::TerminalSessionDialog
        || (dialogs::current_place(a) matches Some(i) && a.sessions[i].status
        == SessionStatus::Waiting)
}

pub open spec fn any_streams(clients: Seq<ClientView>) -> bool {
    exists|i: int| 0 <= i < clients.len() && (#[trigger] clients[i]).has_stream()
}

pub open spec fn makes_progress(a: AppView) -> bool {
    a.compaction is Some || any_streams(a.clients)
}

/// An answer that has been thought about and not begun.
pub open spec fn is_thinking(ms: Seq<MessageView>) -> bool {
    ms.len() > 0 && {
        let m = ms.last();
        !m.is_complete && (m.reasoning matches Some(r) && !text::is_blank(r)) && text::is_blank(
            m.content,
        )
    }
}

pub open spec fn run_state(a: AppView) -> Seq<char> {
    if !makes_progress(a) {
        "Ready"@
    } else if is_thinking(a.chat.messages) {
        "Thinking"@
    } else {
        "Working"@
    }
}

pub open spec fn spinner(frame: int) -> Seq<char> {
    if frame == 0 {
        "⠋"@
    } else if frame == 1 {
        "⠙"@
    } else if frame == 2 {
        "⠹"@
    } else if frame == 3 {
        "⠸"@
    } else if frame == 4 {
        "⠼"@
    } else if frame == 5 {
        "⠴"@
    } else if frame == 6 {
        "⠦"@
    } else if frame == 7 {
        "⠧"@
    } else if frame == 8 {
        "⠇"@
    } else {
        "⠏"@
    }
}

pub open spec fn spinner_now(a: AppView) -> Seq<char> {
    spinner((app::elapsed(a.now, a.ui.title.animation_origin) / 100) % 10)
}

pub open spec fn thread_title(a: AppView) -> Option<Seq<char>> {
    match dialogs::current_place(a) {
        Some(i) => if text::is_blank(a.sessions[i].title) {
            None
        } else {
            Some(text::trim(a.sessions[i].title))
        },
        None => None,
    }
}

/// What an item of the title says now.
#[verifier::opaque]
pub open spec fn title_value(a: AppView, item: TerminalTitleItem) -> Option<Seq<char>> {
    match item {
        TerminalTitleItem::Activity => if needs_action(a) {
            Some("[!]"@)
        } else if makes_progress(a) {
            Some(spinner_now(a))
        } else {
            None
        },
        TerminalTitleItem::ProjectName => Some(project_name(a)),
        TerminalTitleItem::RunState => Some(run_state(a)),
        TerminalTitleItem::ThreadTitle => thread_title(a),
        TerminalTitleItem::ThreadTitleTruncated => match thread_title(a) {
            Some(t) => Some(titles::title_part(t, 48)),
            None => None,
        },
        TerminalTitleItem::GitBranch => match a.ui.title.branch {
            Some(b) => Some(titles::title_part(b, 32)),
            None => None,
        },
    }
}

/// What stands between an item and the one before it: a space beside the sign of activity, a
/// bar elsewhere.
pub open spec fn title_separator(
    item: TerminalTitleItem,
    previous: Option<TerminalTitleItem>,
) -> Seq<char> {
    match previous {
        None => ""@,
        Some(p) => if p == TerminalTitleItem::Activity || item == TerminalTitleItem::Activity {
            " "@
        } else {
            " | "@
        },
    }
}

/// The title made of the items that say something, and the last of those.
pub open spec fn title_of(a: AppView, items: Seq<TerminalTitleItem>) -> (
    Seq<char>,
    Option<TerminalTitleItem>,
)
    decreases items.len(),
{
    if items.len() == 0 {
        (Seq::empty(), None)
    } else {
        let before = title_of(a, items.drop_last());
        match title_value(a, items.last()) {
            Some(v) => if text::is_blank(v) {
                before
            } else {
                (before.0 + title_separator(items.last(), before.1) + v, Some(items.last()))
            },
            None => before,
        }
    }
}

pub open spec fn with_title(a: AppView, t: TitleView) -> AppView {
    AppView { ui: UiView { title: t, ..a.ui }, ..a }
}

/// A title is to be put on the window; it is not there before the terminal has taken it.
pub open spec fn title_put(a: AppView, title: Seq<char>) -> AppView {
    app::with_effect(a, EffectView::SetTerminalTitle { title })
}

/// The title once the terminal has taken it; where it has not, the one before stays.
pub open spec fn title_answered(a: AppView, title: Seq<char>, taken: bool) -> AppView {
    if taken {
        with_title(a, TitleView { last: Some(title), ..a.ui.title })
    } else {
        a
    }
}

pub open spec fn title_taken_off(a: AppView) -> AppView {
    if a.ui.title.last is Some {
        app::with_effect(
            with_title(a, TitleView { last: None, ..a.ui.title }),
            EffectView::ClearTerminalTitle,
        )
    } else {
        a
    }
}

/// The title brought up to date; one that is there already is not put there again.
#[verifier::opaque]
pub open spec fn title_updated(a: AppView) -> AppView {
    let title = title_of(a, a.ui.title.items).0;
    if !a.ui.title.enabled {
        a
    } else if title.len() == 0 {
        title_taken_off(a)
    } else if a.ui.title.last == Some(title) {
        a
    } else {
        title_put(a, title)
    }
}

/// The title that other items would give.
#[verifier::opaque]
pub open spec fn title_previewed(a: AppView, items: Seq<TerminalTitleItem>) -> AppView {
    let title = title_of(a, items).0;
    if !a.ui.title.enabled {
        a
    } else if title.len() == 0 {
        title_taken_off(a)
    } else {
        title_put(a, title)
    }
}

/// The dialog in which the title is put together.
pub open spec fn title_shown(a: AppView) -> AppView {
    title_previewed(
        dialogs::shown(dialogs::suggestions_cleared(a), OverlayFocus::TitleDialog),
        a.ui.title.items,
    )
}

/// What was chosen in the dialog of the title.
#[derive(Debug)]
pub enum TitleChoice {
    Changed { items: Vec<TerminalTitleItem> },
    Confirm { items: Vec<TerminalTitleItem>, failure: Option<String> },
    Cancel,
    Open,
}

pub enum TitleChoiceView {
    Changed { items: Seq<TerminalTitleItem> },
    Confirm { items: Seq<TerminalTitleItem>, failure: Option<Seq<char>> },
    Cancel,
    Open,
}

impl View for TitleChoice {
    type V = TitleChoiceView;

    open spec fn view(&self) -> TitleChoiceView {
        match self {
            TitleChoice::Changed { items } => TitleChoiceView::Changed { items: items@ },
            TitleChoice::Confirm { items, failure } => TitleChoiceView::Confirm {
                items: items@,
                failure: text::opt_view(*failure),
            },
            TitleChoice::Cancel => TitleChoiceView::Cancel,
            TitleChoice::Open => TitleChoiceView::Open,
        }
    }
}

pub open spec fn title_confirmed(
    a: AppView,
    items: Seq<TerminalTitleItem>,
    failure: Option<Seq<char>>,
) -> AppView {
    match failure {
        Some(why) => dialogs::blurred(
            title_updated(
                app::toasted(a, ToastLevel::Error, "Failed to save terminal title: "@ + why, 0),
            ),
        ),
        None => title_updated(
            dialogs::blurred(with_title(a, TitleView { items, ..a.ui.title })),
        ),
    }
}

pub open spec fn title_chosen(a: AppView, choice: TitleChoiceView) -> AppView {
    match choice {
        TitleChoiceView::Changed { items } => title_previewed(a, items),
        TitleChoiceView::Confirm { items, failure } => title_confirmed(a, items, failure),
        TitleChoiceView::Cancel => title_updated(dialogs::blurred(a)),
        TitleChoiceView::Open => a,
    }
}

pub fn has_any_stream(clients: &Vec<ClientSessionState>) -> (r: bool)
    ensures
        r == any_streams(state::clients_view(clients@)),
{
    let ghost all = state::clients_view(clients@);
    for i in 0..clients.len()
        invariant
            all == state::clients_view(clients@),
            forall|k: int| 0 <= k < i ==> !(#[trigger] all[k]).has_stream(),
    {
        if clients[i].has_active_stream() {
            assert(all[i as int].has_stream());
            return true;
        }
    }
    false
}

fn is_answer_thought_about(ms: &Vec<Message>) -> (r: bool)
    ensures
        r == is_thinking(crate::message::messages_view(ms@)),
{
    let n: usize = ms.len();
    if n == 0 {
        return false;
    }
    let m = &ms[n - 1];
    assert(crate::message::messages_view(ms@).last() == m@);
    let thought = match &m.reasoning {
        Some(r) => !text::blank(r.as_str()),
        None => false,
    };
    !m.is_complete && thought && text::blank(m.content.as_str())
}

fn spinner_frame(frame: u64) -> (r: &'static str)
    ensures
        r@ == spinner(frame as int),
{
    if frame == 0 {
        "⠋"
    } else if frame == 1 {
        "⠙"
    } else if frame == 2 {
        "⠹"
    } else if frame == 3 {
        "⠸"
    } else if frame == 4 {
        "⠼"
    } else if frame == 5 {
        "⠴"
    } else if frame == 6 {
        "⠦"
    } else if frame == 7 {
        "⠧"
    } else if frame == 8 {
        "⠇"
    } else {
        "⠏"
    }
}

fn separator_from_previous(item: TerminalTitleItem, previous: Option<TerminalTitleItem>) -> (r:
    &'static str)
    ensures
        r@ == title_separator(item, previous),
{
    match previous {
        None => "",
        Some(p) => if p == TerminalTitleItem::Activity || item == TerminalTitleItem::Activity {
            " "
        } else {
            " | "
        },
    }
}

impl App {
    pub fn active_workspace_path(&self) -> (r: String)
        ensures
            r@ == active_path(self@),
    {
        reveal(<Ui as View>::view);
        match self.find_current_session() {
            Some(i) => {
                let path = text::trimmed(self.sessions[i].workspace_path.as_str());
                if path.as_str().is_empty() {
                    self.ui.cwd.clone()
                } else {
                    path
                }
            },
            None => self.ui.cwd.clone(),
        }
    }

    pub fn terminal_title_project_name(&self) -> (r: String)
        ensures
            r@ == project_name(self@),
    {
        let path = self.active_workspace_path();
        let name = match path_leaf(path.as_str()) {
            Some(name) => {
                let n = text::trimmed(name.as_str());
                if n.as_str().is_empty() || text::same(n.as_str(), ".") || text::same(
                    n.as_str(),
                    "..",
                ) {
                    "crabcode".to_string()
                } else {
                    n
                }
            },
            None => "crabcode".to_string(),
        };
        titles::truncate_terminal_title_part(name.as_str(), 48)
    }

    pub fn terminal_title_requires_action(&self) -> (r: bool)
        ensures
            r == needs_action(self@),
    {
        if self.overlay_focus == OverlayFocus::PermissionDialog || self.overlay_focus
            == OverlayFocus::QuestionDialog || self.overlay_focus
            == OverlayFocus::TerminalSessionDialog {
            return true;
        }
        match self.find_current_session() {
            Some(i) => self.sessions[i].status == SessionStatus::Waiting,
            None => false,
        }
    }

    pub fn terminal_title_has_active_progress(&self) -> (r: bool)
        ensures
            r == makes_progress(self@),
    {
        self.compaction.is_some() || has_any_stream(&self.clients)
    }

    pub fn terminal_title_run_state(&self) -> (r: &'static str)
        ensures
            r@ == run_state(self@),
    {
        if !self.terminal_title_has_active_progress() {
            "Ready"
        } else if is_answer_thought_about(&self.chat.messages) {
            "Thinking"
        } else {
            "Working"
        }
    }

    pub fn terminal_title_thread_title(&self) -> (r: Option<String>)
        ensures
            text::opt_view(r) == thread_title(self@),
    {
        match self.find_current_session() {
            Some(i) => {
                let t = text::trimmed(self.sessions[i].title.as_str());
                if t.as_str().is_empty() {
                    None
                } else {
                    Some(t)
                }
            },
            None => None,
        }
    }

    pub fn terminal_title_spinner_frame(&self) -> (r: &'static str)
        ensures
            r@ == spinner_now(self@),
    {
        reveal(<Ui as View>::view);
        let ms: u64 = app::elapsed_since(self.now, self.ui.title.animation_origin);
        spinner_frame((ms / SPINNER_INTERVAL) % 10)
    }

    fn terminal_title_value(&self, item: TerminalTitleItem) -> (r: Option<String>)
        ensures
            text::opt_view(r) == title_value(self@, item),
    {
        reveal(title_value);
        match item {
            TerminalTitleItem::Activity => if self.terminal_title_requires_action() {
                Some("[!]".to_string())
            } else if self.terminal_title_has_active_progress() {
                Some(self.terminal_title_spinner_frame().to_string())
            } else {
                None
            },
            TerminalTitleItem::ProjectName => Some(self.terminal_title_project_name()),
            TerminalTitleItem::RunState => Some(self.terminal_title_run_state().to_string()),
            TerminalTitleItem::ThreadTitle => self.terminal_title_thread_title(),
            TerminalTitleItem::ThreadTitleTruncated => match self.terminal_title_thread_title() {
                Some(t) => Some(titles::truncate_terminal_title_part(t.as_str(), 48)),
                None => None,
            },
            TerminalTitleItem::GitBranch => {
                reveal(<Ui as View>::view);
                match &self.ui.title.branch {
                    Some(b) => Some(titles::truncate_terminal_title_part(b.as_str(), 32)),
                    None => None,
                }
            },
        }
    }

    pub fn terminal_title_text_for_items(&self, items: &Vec<TerminalTitleItem>) -> (r: Option<
        String,
    >)
        ensures
            match r {
                Some(t) => t@ == title_of(self@, items@).0 && t@.len() > 0,
                None => title_of(self@, items@).0.len() == 0,
            },
    {
        let mut title = String::new();
        let mut previous: Option<TerminalTitleItem> = None;
        assert(items@.take(0) =~= Seq::<TerminalTitleItem>::empty());
        for i in 0..items.len()
            invariant
                title_of(self@, items@.take(i as int)) == (title@, previous),
        {
            let ghost seen = items@.take(i as int + 1);
            assert(seen.drop_last() =~= items@.take(i as int));
            assert(seen.last() == items@[i as int]);
            match self.terminal_title_value(items[i]) {
                Some(v) => {
                    if !text::blank(v.as_str()) {
                        title.append(separator_from_previous(items[i], previous));
                        title.append(v.as_str());
                        previous = Some(items[i]);
                    }
                },
                None => {},
            }
        }
        assert(items@.take(items@.len() as int) =~= items@);
        if title.as_str().is_empty() {
            None
        } else {
            Some(title)
        }
    }

    pub fn terminal_title_text(&self) -> (r: String)
        ensures
            r@ == title_of(self@, self@.ui.title.items).0,
    {
        reveal(<Ui as View>::view);
        match self.terminal_title_text_for_items(&self.ui.title.items) {
            Some(t) => t,
            None => {
                let empty = String::new();
                assert(empty@ =~= title_of(self@, self@.ui.title.items).0);
                empty
            },
        }
    }

    fn put_title(&mut self, title: String)
        ensures
            final(self)@ == title_put(old(self)@, title@),
    {
        self.push_effect(Effect::SetTerminalTitle { title });
    }

    /// What came of putting a title on the terminal's window.
    pub fn finish_terminal_title(&mut self, title: String, put: Result<(), String>)
        ensures
            final(self)@ == title_answered(old(self)@, title@, put is Ok),
    {
        reveal(<Ui as View>::view);
        if put.is_ok() {
            self.ui.title.last = Some(title);
        }
    }

    pub fn clear_terminal_title_signal(&mut self)
        ensures
            final(self)@ == title_taken_off(old(self)@),
    {
        reveal(<Ui as View>::view);
        if self.ui.title.last.is_some() {
            self.ui.title.last = None;
            self.push_effect(Effect::ClearTerminalTitle);
        }
    }

    pub fn update_terminal_title_signal(&mut self)
        ensures
            final(self)@ == title_updated(old(self)@),
    {
        reveal(<Ui as View>::view);
        reveal(title_updated);
        if !self.ui.title.enabled {
            return ;
        }
        let title = match self.terminal_title_text_for_items(&self.ui.title.items) {
            Some(title) => title,
            None => {
                self.clear_terminal_title_signal();
                return ;
            },
        };
        let is_there = match &self.ui.title.last {
            Some(last) => text::same(last.as_str(), title.as_str()),
            None => false,
        };
        if is_there {
            return ;
        }
        self.put_title(title);
    }

    pub fn preview_title_dialog_items(&mut self, items: &Vec<TerminalTitleItem>)
        ensures
            final(self)@ == title_previewed(old(self)@, items@),
    {
        reveal(<Ui as View>::view);
        reveal(title_previewed);
        if !self.ui.title.enabled {
            return ;
        }
        match self.terminal_title_text_for_items(items) {
            Some(title) => {
                self.put_title(title);
            },
            None => {
                self.clear_terminal_title_signal();
            },
        }
    }

    fn title_items(&self) -> (r: Vec<TerminalTitleItem>)
        ensures
            r@ == self@.ui.title.items,
    {
        reveal(<Ui as View>::view);
        let mut r: Vec<TerminalTitleItem> = Vec::new();
        for i in 0..self.ui.title.items.len()
            invariant
                r@ == self.ui.title.items@.take(i as int),
        {
            r.push(self.ui.title.items[i]);
        }
        assert(self.ui.title.items@.take(r@.len() as int) =~= self.ui.title.items@);
        r
    }

    pub fn open_title_dialog(&mut self)
        ensures
            final(self)@ == title_shown(old(self)@),
    {
        let items = self.title_items();
        self.clear_suggestions();
        self.show_dialog(OverlayFocus::TitleDialog);
        self.preview_title_dialog_items(&items);
    }

    fn set_title_items(&mut self, items: Vec<TerminalTitleItem>)
        ensures
            final(self)@ == with_title(
                old(self)@,
                TitleView { items: items@, ..old(self)@.ui.title },
            ),
    {
        reveal(<Ui as View>::view);
        self.ui.title.items = items;
    }

    fn confirm_title(&mut self, items: Vec<TerminalTitleItem>, failure: Option<String>)
        ensures
            final(self)@ == title_confirmed(old(self)@, items@, text::opt_view(failure)),
    {
        match failure {
            Some(why) => {
                let mut t = "Failed to save terminal title: ".to_string();
                t.append(why.as_str());
                self.push_toast(ToastLevel::Error, t.as_str(), 0);
                self.update_terminal_title_signal();
                self.blur();
            },
            None => {
                self.set_title_items(items);
                self.blur();
                self.update_terminal_title_signal();
            },
        }
    }

    pub fn handle_title_dialog_action(&mut self, choice: TitleChoice)
        ensures
            final(self)@ == title_chosen(old(self)@, choice@),
    {
        match choice {
            TitleChoice::Changed { items } => {
                self.preview_title_dialog_items(&items);
            },
            TitleChoice::Confirm { items, failure } => {
                self.confirm_title(items, failure);
            },
            TitleChoice::Cancel => {
                self.blur();
                self.update_terminal_title_signal();
            },
            TitleChoice::Open => {},
        }
    }

    /// Whether the branch of the folder has to be looked up.
    pub fn git_branch_is_stale(&self, cwd: &str) -> (r: bool)
        ensures
            r == (self@.ui.title.branch_path != cwd@ || app::elapsed(
                self@.now,
                self@.ui.title.branch_checked,
            ) >= BRANCH_REFRESH),
    {
        reveal(<Ui as View>::view);
        !text::same(self.ui.title.branch_path.as_str(), cwd) || app::elapsed_since(
            self.now,
            self.ui.title.branch_checked,
        ) >= BRANCH_REFRESH
    }

    /// Keeps the branch that was looked up.
    pub fn set_git_branch(&mut self, cwd: &str, branch: Option<String>)
        ensures
            final(self)@ == with_title(
                old(self)@,
                TitleView {
                    branch: text::opt_view(branch),
                    branch_path: cwd@,
                    branch_checked: old(self)@.now,
                    ..old(self)@.ui.title
                },
            ),
    {
        reveal(<Ui as View>::view);
        self.ui.title.branch = branch;
        self.ui.title.branch_path = cwd.to_owned();
        self.ui.title.branch_checked = self.now;
    }
}

/// Whether bringing the title up to date asks the terminal for one, and for which.
pub open spec fn asked_title(a: AppView) -> Option<Seq<char>> {
    let title = title_of(a, a.ui.title.items).0;
    if a.ui.title.enabled && title.len() > 0 && a.ui.title.last != Some(title) {
        Some(title)
    } else {
        None
    }
}

/// A title that the terminal has taken is not put there again, and one that it has not taken is.
pub proof fn law_title_is_put_until_taken(a: AppView, taken: bool)
    ensures
        asked_title(a) matches Some(title) ==> {
            &&& title_updated(a) == title_put(a, title)
            &&& ({
                let b = title_answered(title_put(a, title), title, taken);
                if taken {
                    title_updated(b) == b
                } else {
                    title_updated(b) == title_put(b, title)
                }
            })
        },
{
    if let Some(title) = asked_title(a) {
        let b = title_answered(title_put(a, title), title, taken);
        lemma_title_of(a, b, a.ui.title.items);
        reveal(title_updated);
    }
}

/// Where no title is asked for, bringing it up to date twice is bringing it up to date once.
pub proof fn law_title_rests(a: AppView)
    requires
        asked_title(a) is None,
    ensures
        title_updated(title_updated(a)) == title_updated(a),
{
    let title = title_of(a, a.ui.title.items).0;
    if a.ui.title.enabled && title.len() == 0 {
        let b = title_taken_off(a);
        assert(title_updated(a) == b) by {
            reveal(title_updated);
        }
        lemma_title_of(a, b, a.ui.title.items);
        assert(title_updated(b) == b) by {
            reveal(title_updated);
        }
    } else {
        assert(title_updated(a) == a) by {
            reveal(title_updated);
        }
    }
}

proof fn lemma_title_of(a: AppView, b: AppView, items: Seq<TerminalTitleItem>)
    requires
        b == (AppView {
            ui: UiView { title: TitleView { last: b.ui.title.last, ..a.ui.title }, ..a.ui },
            effects: b.effects,
            ..a
        }),
    ensures
        title_of(a, items) == title_of(b, items),
    decreases items.len(),
{
    if items.len() > 0 {
        lemma_title_of(a, b, items.drop_last());
        assert(title_value(a, items.last()) == title_value(b, items.last())) by {
            reveal(title_value);
        }
    }
}

} // verus!

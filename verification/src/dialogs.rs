//! Opening dialogs, and what is chosen in them.

use crate::agents;
use crate::app;
use crate::app::{App, AppView};
use crate::focus::{BaseFocus, OverlayFocus};
use crate::message;
use crate::message::{Message, MessageRole, MessageView};
use crate::prompting;
use crate::reasoning;
use crate::reasoning::{ReasoningEffort, ReasoningView};
use crate::session;
use crate::session::SessionView;
use crate::session_list::SessionsDialogView;
use crate::state;
use crate::state::{ChatView, Effect, EffectView, SoundEvent, ToastLevel};
use crate::stream;
use crate::text;
use crate::titles;
use crate::ui;
use crate::ui::{
    DialogItem, ItemView, ModelsTaskKind, ModelsView, Theme, ThemeState, ThemesView, Ui, UiView,
};
use vstd::prelude::*;
use vstd::string::*;

verus! {

/// A dialog that the caller fills has the keyboard.
pub open spec fn shown(a: AppView, dialog: OverlayFocus) -> AppView {
    app::with_effect(
        AppView { overlay_focus: dialog, ..a },
        EffectView::ShowDialog { dialog },
    )
}

pub open spec fn blurred(a: AppView) -> AppView {
    AppView { overlay_focus: OverlayFocus::Nothing, ..a }
}

/// The popup of suggestions emptied.
pub open spec fn suggestions_cleared(a: AppView) -> AppView {
    AppView { suggestions: false, ..a }
}

/// The popup of suggestions emptied, and the keyboard given back if it was there.
pub open spec fn suggestions_blurred(a: AppView) -> AppView {
    if a.overlay_focus == OverlayFocus::SuggestionsPopup {
        blurred(suggestions_cleared(a))
    } else {
        suggestions_cleared(a)
    }
}

/// The sessions dialog, listed anew.
pub open spec fn sessions_shown(a: AppView) -> AppView {
    let b = app::relisted(a);
    shown(
        AppView { sessions_dialog: SessionsDialogView { visible: true, ..b.sessions_dialog }, ..b },
        OverlayFocus::SessionsDialog,
    )
}

pub open spec fn sessions_hidden(a: AppView) -> AppView {
    app::with_effect(
        blurred(
            AppView {
                sessions_dialog: SessionsDialogView { visible: false, ..a.sessions_dialog },
                ..a
            },
        ),
        EffectView::HideDialog { dialog: OverlayFocus::SessionsDialog },
    )
}

pub open spec fn with_themes(a: AppView, t: ThemesView) -> AppView {
    AppView { ui: UiView { themes: t, ..a.ui }, ..a }
}

/// What to go back to, remembered.
pub open spec fn themes_remembered(t: ThemesView) -> ThemesView {
    ThemesView {
        original_index: t.index,
        original_dark_mode: t.dark_mode,
        committed: false,
        ..t
    }
}

/// The themes dialog, which remembers what to go back to.
pub open spec fn themes_shown(a: AppView) -> AppView {
    shown(with_themes(a, themes_remembered(a.ui.themes)), OverlayFocus::ThemesDialog)
}

pub open spec fn theme_from(themes: Seq<ui::ThemeView>, id: Seq<char>, i: int) -> Option<int>
    decreases themes.len() - i,
{
    if i < 0 || i >= themes.len() {
        None
    } else if themes[i].id == id {
        Some(i)
    } else {
        theme_from(themes, id, i + 1)
    }
}

/// The theme of that id in use, if there is one.
pub open spec fn theme_previewed(t: ThemesView, id: Seq<char>) -> ThemesView {
    match theme_from(t.themes, id, 0) {
        Some(i) => ThemesView { index: i as usize, dark_mode: t.themes[i].dark, ..t },
        None => t,
    }
}

pub open spec fn committed_theme(t: ThemesView, id: Seq<char>) -> ThemesView {
    match theme_from(t.themes, id, 0) {
        Some(i) => ThemesView { committed: true, ..theme_previewed(t, id) },
        None => t,
    }
}

/// A theme chosen for good.
pub open spec fn theme_committed(a: AppView, id: Seq<char>) -> AppView {
    if theme_from(a.ui.themes.themes, id, 0) is Some {
        app::toasted(
            app::with_effect(
                with_themes(a, committed_theme(a.ui.themes, id)),
                EffectView::SaveTheme { id },
            ),
            ToastLevel::Info,
            "Theme: "@ + id,
            0,
        )
    } else {
        a
    }
}

pub open spec fn transparency_set(a: AppView, transparent: bool) -> AppView {
    app::with_effect(
        with_themes(a, ThemesView { transparent, ..a.ui.themes }),
        EffectView::SaveTransparency { transparent },
    )
}

/// Without a choice, the theme of before.
pub open spec fn theme_restored(t: ThemesView) -> ThemesView {
    if t.committed {
        t
    } else {
        ThemesView { index: t.original_index, dark_mode: t.original_dark_mode, ..t }
    }
}

/// The themes dialog left: without a choice, the theme of before comes back.
pub open spec fn themes_left(a: AppView) -> AppView {
    blurred(with_themes(a, theme_restored(a.ui.themes)))
}

/// Themes looked at one after the other.
pub open spec fn themes_previewed(t: ThemesView, ids: Seq<Seq<char>>) -> ThemesView
    decreases ids.len(),
{
    if ids.len() == 0 {
        t
    } else {
        theme_previewed(themes_previewed(t, ids.drop_last()), ids.last())
    }
}

proof fn lemma_previews_keep(t: ThemesView, ids: Seq<Seq<char>>)
    ensures
        themes_previewed(t, ids) == (ThemesView {
            index: themes_previewed(t, ids).index,
            dark_mode: themes_previewed(t, ids).dark_mode,
            ..t
        }),
    decreases ids.len(),
{
    if ids.len() > 0 {
        lemma_previews_keep(t, ids.drop_last());
    }
}

/// Whatever themes are looked at in the dialog, the theme of before comes back when none is chosen.
pub proof fn law_previews_leave_no_trace(t: ThemesView, ids: Seq<Seq<char>>)
    ensures
        ({
            let left = theme_restored(themes_previewed(themes_remembered(t), ids));
            &&& left.index == t.index
            &&& left.dark_mode == t.dark_mode
            &&& left.themes == t.themes
            &&& left.transparent == t.transparent
        }),
{
    lemma_previews_keep(themes_remembered(t), ids);
}

/// The place of the next theme in the list.
pub open spec fn next_theme(t: ThemesView) -> int {
    (t.index + 1) % (t.themes.len() as int)
}

/// The next theme in the list, and from the last on the first again.
pub open spec fn theme_cycled(a: AppView) -> AppView {
    if a.ui.themes.themes.len() == 0 {
        a
    } else {
        let next = next_theme(a.ui.themes);
        app::with_effect(
            with_themes(a, ThemesView { index: next as usize, ..a.ui.themes }),
            EffectView::SaveTheme { id: a.ui.themes.themes[next].id },
        )
    }
}

/// The lines of the models dialog with the active model marked.
pub open spec fn with_active_marked(
    items: Seq<ItemView>,
    provider: Seq<char>,
    model: Seq<char>,
) -> Seq<ItemView> {
    items.map_values(
        |i: ItemView| ItemView { active: i.id == model && i.provider_id == provider, ..i },
    )
}

pub open spec fn with_models(a: AppView, m: ModelsView) -> AppView {
    AppView { ui: UiView { models: m, ..a.ui }, ..a }
}

pub open spec fn models_listed(a: AppView, items: Seq<ItemView>) -> AppView {
    with_models(
        a,
        ModelsView {
            items: with_active_marked(items, a.provider_name, a.model),
            loading: false,
            ..a.ui.models
        },
    )
}

/// The models dialog with the given lines.
#[verifier::opaque]
pub open spec fn models_shown(a: AppView, items: Seq<ItemView>) -> AppView {
    shown(models_listed(a, items), OverlayFocus::ModelsDialog)
}

/// The models dialog, empty until they have been looked up.
#[verifier::opaque]
pub open spec fn models_loading(a: AppView) -> AppView {
    let b = models_shown(a, Seq::empty());
    app::with_effect(
        with_models(
            b,
            ModelsView { task: Some(ModelsTaskKind::Load), loading: true, ..b.ui.models },
        ),
        EffectView::StartModels { refresh: false },
    )
}

/// `/models` and `/refreshmodels`: one look-up at a time; what is known is shown again while
/// the connected providers are the same.
#[verifier::opaque]
pub open spec fn models_asked(
    a: AppView,
    kind: ModelsTaskKind,
    has_args: bool,
    connected: Option<Seq<Seq<char>>>,
) -> AppView {
    if a.ui.models.task is Some {
        app::toasted(a, ToastLevel::Info, "Model discovery is already running"@, 2)
    } else if kind == ModelsTaskKind::Load && !has_args && a.ui.models.items.len() > 0
        && a.ui.models.provider_ids == connected {
        models_shown(a, a.ui.models.items)
    } else if kind == ModelsTaskKind::Load {
        models_loading(a)
    } else {
        app::with_effect(
            AppView {
                overlay_focus: OverlayFocus::RefreshModelsDialog,
                ..with_models(a, ModelsView { task: Some(kind), ..a.ui.models })
            },
            EffectView::StartModels { refresh: true },
        )
    }
}

/// A model chosen.
pub open spec fn model_chosen(a: AppView, provider: Seq<char>, model: Seq<char>) -> AppView {
    app::with_effect(
        app::with_stale_usage(AppView { provider_name: provider, model, ..a }),
        EffectView::SaveModel { provider, model },
    )
}

/// The agent that leads, by its name; nothing changes where there is none of that name.
pub open spec fn agent_set(a: AppView, name: Seq<char>) -> AppView {
    match agents::primary_at(a.agents, text::trim(name)) {
        Some(i) => AppView { agent: titles::agent_title(a.agents[i].name), ..a },
        None => a,
    }
}

pub open spec fn agent_toggled(a: AppView) -> AppView {
    match agents::next_agent(a.agents, a.agent) {
        Some(name) => agent_set(a, name),
        None => a,
    }
}

pub open spec fn agent_selected(a: AppView, name: Seq<char>) -> AppView {
    if agents::primary_at(a.agents, text::trim(name)) is Some {
        let b = agent_set(a, name);
        app::toasted(b, ToastLevel::Info, "Switched agent to: "@ + b.agent, 0)
    } else {
        prompting::complained(a, "Unknown primary agent: "@ + name, 3)
    }
}

pub open spec fn has_efforts(a: AppView, provider: Seq<char>, model: Seq<char>) -> bool {
    reasoning::capability_of(a.reasoning.capabilities, provider, model) matches Some(v)
        && reasoning::choices(v).len() > 0
}

/// The effort that comes next for a model.
pub open spec fn next_effort(
    a: AppView,
    provider: Seq<char>,
    model: Seq<char>,
    forward: bool,
) -> Option<ReasoningEffort> {
    reasoning::next_choice(
        reasoning::capability_of(a.reasoning.capabilities, provider, model)->0,
        reasoning::override_of(a.reasoning.overrides, provider, model),
        forward,
    )
}

/// The next effort for a model is to be remembered; until it is, nothing is chosen.
pub open spec fn effort_cycled(
    a: AppView,
    provider: Seq<char>,
    model: Seq<char>,
    forward: bool,
    relist: bool,
) -> AppView {
    if has_efforts(a, provider, model) {
        app::with_effect(
            a,
            EffectView::SaveEffort {
                provider,
                model,
                effort: next_effort(a, provider, model, forward),
                relist,
            },
        )
    } else {
        a
    }
}

/// An effort that was remembered is the one chosen.
pub open spec fn effort_chosen(
    a: AppView,
    provider: Seq<char>,
    model: Seq<char>,
    effort: Option<ReasoningEffort>,
) -> AppView {
    AppView {
        reasoning: ReasoningView {
            overrides: reasoning::with_override(a.reasoning.overrides, provider, model, effort),
            ..a.reasoning
        },
        ..a
    }
}

pub open spec fn effort_saved(
    a: AppView,
    provider: Seq<char>,
    model: Seq<char>,
    effort: Option<ReasoningEffort>,
    relist: bool,
) -> AppView {
    if relist {
        app::with_effect(effort_chosen(a, provider, model, effort), EffectView::RefreshModels)
    } else {
        effort_chosen(a, provider, model, effort)
    }
}

pub open spec fn compact_mode_set(a: AppView, compact: bool) -> AppView {
    if a.ui.compact_mode == compact {
        a
    } else {
        app::toasted(
            app::with_effect(
                AppView { ui: UiView { compact_mode: compact, ..a.ui }, ..a },
                EffectView::SaveCompactMode { compact },
            ),
            ToastLevel::Info,
            if compact {
                "Compact mode enabled"@
            } else {
                "Compact mode disabled"@
            },
            2,
        )
    }
}

pub open spec fn current_place(a: AppView) -> Option<int> {
    match a.current {
        Some(id) => session::session_at(a.sessions, id),
        None => None,
    }
}

pub open spec fn highlighted(a: AppView, index: Option<usize>) -> AppView {
    AppView { chat: ChatView { highlighted: index, ..a.chat }, ..a }
}

/// The timeline of the current session, at its most recent message.
#[verifier::opaque]
pub open spec fn timeline_shown(a: AppView) -> AppView {
    let b = AppView { esc_primed_at: None, ..a };
    match current_place(b) {
        Some(i) => {
            let c = shown(b, OverlayFocus::TimelineDialog);
            let n = b.sessions[i].messages.len();
            if n > 0 {
                message_visited(c, (n - 1) as usize)
            } else {
                c
            }
        },
        None => b,
    }
}

/// A message brought to the screen and lit up.
pub open spec fn message_visited(a: AppView, index: usize) -> AppView {
    app::with_effect(highlighted(a, Some(index)), EffectView::ScrollToMessage { index })
}

pub open spec fn rename_shown(a: AppView) -> AppView {
    match current_place(a) {
        Some(i) => app::with_effect(
            AppView { overlay_focus: OverlayFocus::SessionRenameDialog, ..a },
            EffectView::ShowRename { session_id: a.sessions[i].id, title: a.sessions[i].title },
        ),
        None => a,
    }
}

pub open spec fn move_shown(a: AppView) -> AppView {
    if a.current is Some {
        shown(a, OverlayFocus::MoveSessionDialog)
    } else {
        prompting::complained(a, "No active session to move"@, 3)
    }
}

/// Whether there is a transcript to search.
pub open spec fn can_find(a: AppView) -> bool {
    a.base_focus == BaseFocus::Chat && a.current is Some
}

pub open spec fn find_opened(a: AppView) -> AppView {
    if can_find(a) {
        shown(
            app::with_effect(
                AppView { find_active: true, ..suggestions_cleared(a) },
                EffectView::ClearSearch,
            ),
            OverlayFocus::FindBar,
        )
    } else {
        a
    }
}

pub open spec fn find_closed(a: AppView) -> AppView {
    let b = AppView { find_active: false, ..a };
    app::with_effect(
        if b.overlay_focus == OverlayFocus::FindBar {
            blurred(b)
        } else {
            b
        },
        EffectView::HideDialog { dialog: OverlayFocus::FindBar },
    )
}

/// The palette opens, or closes if it is open.
pub open spec fn palette_toggled(a: AppView) -> AppView {
    if a.overlay_focus == OverlayFocus::CommandPalette {
        app::with_effect(
            blurred(a),
            EffectView::HideDialog { dialog: OverlayFocus::CommandPalette },
        )
    } else {
        shown(suggestions_cleared(a), OverlayFocus::CommandPalette)
    }
}

pub open spec fn storage_check_started(a: AppView) -> AppView {
    if a.ui.storage_check {
        a
    } else {
        app::with_effect(
            AppView { ui: UiView { storage_check: true, ..a.ui }, ..a },
            EffectView::StartStorageCheck,
        )
    }
}

/// The storage dialog; its first showing starts a check.
pub open spec fn storage_shown(a: AppView) -> AppView {
    let b = shown(suggestions_cleared(a), OverlayFocus::StorageDialog);
    if a.ui.storage_reported {
        b
    } else {
        storage_check_started(b)
    }
}

pub open spec fn has_quit(a: AppView) -> AppView {
    AppView { running: false, ..crate::turns::terminals_stopped(a) }
}

/// `/compact`: not while a compaction runs; queued behind a turn; else started.
#[verifier::opaque]
pub open spec fn compact_commanded(a: AppView) -> AppView {
    match a.current {
        Some(id) => if a.compaction is Some {
            app::toasted(a, ToastLevel::Info, "Already compacting..."@, 2)
        } else if app::streams(a, id) || a.is_streaming {
            app::toasted(
                stream::queued(a, crate::queue::QueuedView::Compact),
                ToastLevel::Info,
                "Queued /compact"@,
                2,
            )
        } else {
            stream::compaction_asked(a, id)
        },
        None => prompting::complained(a, "No active session to compact"@, 3),
    }
}

fn find_theme(themes: &Vec<Theme>, id: &str) -> (r: Option<usize>)
    ensures
        match r {
            Some(i) => i < themes@.len() && theme_from(ui::theme_views(themes@), id@, 0) == Some(
                i as int,
            ),
            None => theme_from(ui::theme_views(themes@), id@, 0) is None,
        },
{
    let mut i: usize = 0;
    while i < themes.len()
        invariant
            i <= themes@.len(),
            theme_from(ui::theme_views(themes@), id@, i as int) == theme_from(
                ui::theme_views(themes@),
                id@,
                0,
            ),
        decreases themes@.len() - i,
    {
        if text::same(themes[i].id.as_str(), id) {
            return Some(i);
        }
        i += 1;
    }
    None
}

impl ThemeState {
    pub fn preview(&mut self, id: &str) -> (r: bool)
        ensures
            r == (theme_from(old(self)@.themes, id@, 0) is Some),
            final(self)@ == theme_previewed(old(self)@, id@),
    {
        match find_theme(&self.themes, id) {
            Some(i) => {
                self.index = i;
                self.dark_mode = self.themes[i].dark;
                true
            },
            None => false,
        }
    }

    pub fn commit(&mut self, id: &str) -> (r: bool)
        ensures
            r == (theme_from(old(self)@.themes, id@, 0) is Some),
            final(self)@ == committed_theme(old(self)@, id@),
    {
        if self.preview(id) {
            self.committed = true;
            true
        } else {
            false
        }
    }

    pub fn remember(&mut self)
        ensures
            final(self)@ == themes_remembered(old(self)@),
    {
        self.original_index = self.index;
        self.original_dark_mode = self.dark_mode;
        self.committed = false;
    }

    pub fn restore(&mut self)
        ensures
            final(self)@ == theme_restored(old(self)@),
    {
        if !self.committed {
            self.index = self.original_index;
            self.dark_mode = self.original_dark_mode;
        }
    }

    /// Moves on to the next theme and gives its id.
    pub fn advance(&mut self) -> (r: String)
        requires
            old(self)@.themes.len() > 0,
            old(self)@.index < usize::MAX,
        ensures
            0 <= next_theme(old(self)@) < old(self)@.themes.len(),
            r@ == old(self)@.themes[next_theme(old(self)@)].id,
            final(self)@ == (ThemesView {
                index: next_theme(old(self)@) as usize,
                ..old(self)@
            }),
    {
        let n: usize = self.themes.len();
        let next: usize = (self.index + 1) % n;
        assert(self@.themes[next as int] == self.themes@[next as int]@);
        self.index = next;
        self.themes[next].id.clone()
    }
}

fn mark_active(items: Vec<DialogItem>, provider: &str, model: &str) -> (r: Vec<DialogItem>)
    ensures
        ui::item_views(r@) == with_active_marked(ui::item_views(items@), provider@, model@),
{
    let ghost all = with_active_marked(ui::item_views(items@), provider@, model@);
    let ghost given = items@;
    let mut out: Vec<DialogItem> = Vec::new();
    assert(ui::item_views(out@) =~= all.take(0));
    for item in it: items
        invariant
            it.seq() == given,
            all == with_active_marked(ui::item_views(given), provider@, model@),
            ui::item_views(out@) == all.take(it.index()),
    {
        let ghost before = out@;
        let active = text::same(item.id.as_str(), model) && text::same(
            item.provider_id.as_str(),
            provider,
        );
        let marked = DialogItem { active, ..item };
        out.push(marked);
        assert(all[it.index()] == marked@);
        assert(all.take(it.index() + 1) =~= all.take(it.index()).push(marked@));
        assert(ui::item_views(out@) =~= ui::item_views(before).push(marked@));
    }
    assert(all.take(all.len() as int) =~= all);
    out
}

impl App {
    pub fn show_dialog(&mut self, dialog: OverlayFocus)
        ensures
            final(self)@ == shown(old(self)@, dialog),
    {
        self.overlay_focus = dialog;
        self.push_effect(Effect::ShowDialog { dialog });
    }

    pub fn blur(&mut self)
        ensures
            final(self)@ == blurred(old(self)@),
    {
        self.overlay_focus = OverlayFocus::Nothing;
    }

    pub fn clear_suggestions_and_blur(&mut self)
        ensures
            final(self)@ == suggestions_blurred(old(self)@),
    {
        self.suggestions = false;
        if self.overlay_focus == OverlayFocus::SuggestionsPopup {
            self.overlay_focus = OverlayFocus::Nothing;
        }
    }

    pub fn clear_suggestions(&mut self)
        ensures
            final(self)@ == suggestions_cleared(old(self)@),
    {
        self.suggestions = false;
    }

    pub fn open_sessions_dialog(&mut self)
        ensures
            final(self)@ == sessions_shown(old(self)@),
    {
        self.refresh_sessions_dialog();
        self.sessions_dialog.visible = true;
        self.show_dialog(OverlayFocus::SessionsDialog);
    }

    pub fn hide_sessions_dialog(&mut self)
        ensures
            final(self)@ == sessions_hidden(old(self)@),
    {
        self.sessions_dialog.visible = false;
        self.overlay_focus = OverlayFocus::Nothing;
        self.push_effect(Effect::HideDialog { dialog: OverlayFocus::SessionsDialog });
    }

    pub fn show_themes_dialog(&mut self)
        ensures
            final(self)@ == themes_shown(old(self)@),
    {
        reveal(<Ui as View>::view);
        self.ui.themes.remember();
        self.show_dialog(OverlayFocus::ThemesDialog);
    }

    pub fn preview_theme_by_id(&mut self, id: &str)
        ensures
            final(self)@ == with_themes(
                old(self)@,
                theme_previewed(old(self)@.ui.themes, id@),
            ),
    {
        reveal(<Ui as View>::view);
        self.ui.themes.preview(id);
    }

    fn commit_theme(&mut self, id: &str) -> (r: bool)
        ensures
            r == (theme_from(old(self)@.ui.themes.themes, id@, 0) is Some),
            final(self)@ == with_themes(
                old(self)@,
                committed_theme(old(self)@.ui.themes, id@),
            ),
    {
        reveal(<Ui as View>::view);
        self.ui.themes.commit(id)
    }

    pub fn commit_theme_by_id(&mut self, id: &str)
        ensures
            final(self)@ == theme_committed(old(self)@, id@),
    {
        if !self.commit_theme(id) {
            return ;
        }
        self.push_effect(Effect::SaveTheme { id: id.to_owned() });
        let mut t = "Theme: ".to_string();
        t.append(id);
        self.push_toast(ToastLevel::Info, t.as_str(), 0);
    }

    pub fn apply_theme_transparent(&mut self, transparent: bool)
        ensures
            final(self)@ == transparency_set(old(self)@, transparent),
    {
        reveal(<Ui as View>::view);
        self.ui.themes.transparent = transparent;
        self.push_effect(Effect::SaveTransparency { transparent });
    }

    pub fn leave_themes_dialog(&mut self)
        ensures
            final(self)@ == themes_left(old(self)@),
    {
        reveal(<Ui as View>::view);
        self.ui.themes.restore();
        self.overlay_focus = OverlayFocus::Nothing;
    }

    /// Takes the next theme.
    pub fn cycle_theme(&mut self)
        requires
            old(self)@.ui.themes.index < usize::MAX,
        ensures
            final(self)@ == theme_cycled(old(self)@),
    {
        reveal(<Ui as View>::view);
        if self.ui.themes.themes.len() == 0 {
            return ;
        }
        let id = self.ui.themes.advance();
        self.push_effect(Effect::SaveTheme { id });
    }

    pub fn toggle_dark_mode(&mut self)
        ensures
            final(self)@ == with_themes(
                old(self)@,
                (ThemesView { dark_mode: !old(self)@.ui.themes.dark_mode, ..old(self)@.ui.themes }),
            ),
    {
        reveal(<Ui as View>::view);
        self.ui.themes.dark_mode = !self.ui.themes.dark_mode;
    }

    fn list_models(&mut self, items: Vec<DialogItem>)
        ensures
            final(self)@ == models_listed(old(self)@, ui::item_views(items@)),
    {
        reveal(<Ui as View>::view);
        let marked = mark_active(items, self.provider_name.as_str(), self.model.as_str());
        self.ui.models.items = marked;
        self.ui.models.loading = false;
    }

    pub fn show_models_dialog(&mut self, items: Vec<DialogItem>)
        ensures
            final(self)@ == models_shown(old(self)@, ui::item_views(items@)),
    {
        reveal(models_shown);
        self.list_models(items);
        self.show_dialog(OverlayFocus::ModelsDialog);
    }

    fn take_model_items(&mut self) -> (r: Vec<DialogItem>)
        ensures
            ui::item_views(r@) == old(self)@.ui.models.items,
            final(self)@ == with_models(
                old(self)@,
                (ModelsView { items: Seq::empty(), ..old(self)@.ui.models }),
            ),
    {
        reveal(<Ui as View>::view);
        let mut items: Vec<DialogItem> = Vec::new();
        std::mem::swap(&mut items, &mut self.ui.models.items);
        assert(ui::item_views(self.ui.models.items@) =~= Seq::<ItemView>::empty());
        items
    }

    fn reshow_models(&mut self)
        ensures
            final(self)@ == models_shown(old(self)@, old(self)@.ui.models.items),
    {
        reveal(models_shown);
        let items = self.take_model_items();
        self.show_models_dialog(items);
    }

    fn set_models_task(&mut self, kind: Option<ModelsTaskKind>, loading: bool)
        ensures
            final(self)@ == with_models(
                old(self)@,
                (ModelsView { task: kind, loading, ..old(self)@.ui.models }),
            ),
    {
        reveal(<Ui as View>::view);
        self.ui.models.task = kind;
        self.ui.models.loading = loading;
    }

    fn load_models(&mut self)
        ensures
            final(self)@ == models_loading(old(self)@),
    {
        reveal(models_shown);
        reveal(models_loading);
        let none: Vec<DialogItem> = Vec::new();
        assert(ui::item_views(none@) =~= Seq::<ItemView>::empty());
        self.show_models_dialog(none);
        self.set_models_task(Some(ModelsTaskKind::Load), true);
        self.push_effect(Effect::StartModels { refresh: false });
    }

    /// Shows or looks up the models.
    pub fn start_models_command(
        &mut self,
        kind: ModelsTaskKind,
        has_args: bool,
        connected: &Option<Vec<String>>,
    )
        ensures
            final(self)@ == models_asked(old(self)@, kind, has_args, ui::opt_views(*connected)),
    {
        reveal(models_asked);
        reveal(<Ui as View>::view);
        if self.ui.models.task.is_some() {
            self.push_toast(ToastLevel::Info, "Model discovery is already running", 2);
            return ;
        }
        if kind == ModelsTaskKind::Load {
            if !has_args && self.ui.models.items.len() > 0 && same_ids(
                &self.ui.models.provider_ids,
                connected,
            ) {
                self.reshow_models();
                return ;
            }
            self.load_models();
            return ;
        }
        self.ui.models.task = Some(kind);
        self.overlay_focus = OverlayFocus::RefreshModelsDialog;
        self.push_effect(Effect::StartModels { refresh: true });
    }

    pub fn choose_model(&mut self, provider: &str, model: &str)
        ensures
            final(self)@ == model_chosen(old(self)@, provider@, model@),
            final(self)@.provider_name == provider@,
            final(self)@.model == model@,
    {
        self.provider_name = provider.to_owned();
        self.model = model.to_owned();
        self.usage_stale = true;
        self.push_effect(
            Effect::SaveModel { provider: provider.to_owned(), model: model.to_owned() },
        );
    }

    /// Lets another agent lead; says whether there is one of that name.
    pub fn set_agent_mode(&mut self, name: &str) -> (r: bool)
        ensures
            r == (agents::primary_at(old(self)@.agents, text::trim(name@)) is Some),
            final(self)@ == agent_set(old(self)@, name@),
            agents::primary_at(old(self)@.agents, text::trim(name@)) matches Some(i)
                && titles::is_shown_as_named(old(self)@.agents[i].name) ==> agents::same_name(
                final(self)@.agent,
                text::trim(name@),
            ),
    {
        let own = text::trimmed(name);
        match agents::primary_agent(&self.agents, own.as_str()) {
            Some(i) => {
                assert(self@.agents[i as int] == self.agents@[i as int]@);
                proof {
                    agents::lemma_agent_from(self@.agents, own@, true, 0);
                }
                self.agent = titles::titlecase_agent_name(self.agents[i].name.as_str());
                true
            },
            None => false,
        }
    }

    /// The next agent leads. Where the agents in the list are shown under their own names, the
    /// one shown is the one that follows.
    pub fn toggle_agent_mode(&mut self)
        ensures
            final(self)@ == agent_toggled(old(self)@),
            agents::are_shown_as_named(old(self)@.agents) ==> agents::follows(
                old(self)@.agents,
                old(self)@.agent,
                final(self)@.agent,
            ),
    {
        match agents::agent_after(&self.agents, self.agent.as_str()) {
            Some(name) => {
                proof {
                    if agents::are_shown_as_named(self@.agents) {
                        agents::lemma_next_agent(self@.agents, self@.agent);
                    }
                }
                self.set_agent_mode(name.as_str());
            },
            None => {},
        }
    }

    pub fn select_agent_from_dialog(&mut self, name: &str)
        ensures
            final(self)@ == agent_selected(old(self)@, name@),
    {
        if self.set_agent_mode(name) {
            let mut t = "Switched agent to: ".to_string();
            t.append(self.agent.as_str());
            self.push_toast(ToastLevel::Info, t.as_str(), 0);
            return ;
        }
        let mut t = "Unknown primary agent: ".to_string();
        t.append(name);
        self.complain(t.as_str(), 3);
    }

    /// Asks for the next effort of a model to be remembered, if the model has efforts; what came
    /// of it goes to `finish_effort_saved`, which makes the choice.
    pub fn cycle_reasoning_effort_for_model(
        &mut self,
        provider: &str,
        model: &str,
        forward: bool,
        relist: bool,
    ) -> (r: bool)
        ensures
            r == has_efforts(old(self)@, provider@, model@),
            final(self)@ == effort_cycled(old(self)@, provider@, model@, forward, relist),
    {
        let effort = match self.reasoning.next_effort_for_model(provider, model, forward) {
            Some(next) => next,
            None => {
                return false;
            },
        };
        self.push_effect(
            Effect::SaveEffort {
                provider: provider.to_owned(),
                model: model.to_owned(),
                effort,
                relist,
            },
        );
        true
    }

    /// What came of remembering an effort: it is chosen once it is remembered, and the efforts
    /// stay as they are where it could not be.
    pub fn finish_effort_saved(
        &mut self,
        provider: &str,
        model: &str,
        effort: Option<ReasoningEffort>,
        relist: bool,
        saved: Result<(), String>,
    ) -> (r: Result<bool, String>)
        ensures
            saved is Ok ==> r == Ok::<bool, String>(true) && final(self)@ == effort_saved(
                old(self)@,
                provider@,
                model@,
                effort,
                relist,
            ),
            saved matches Err(why) ==> r == Err::<bool, String>(why) && final(self)@ == old(self)@,
    {
        match self.reasoning.set_reasoning_effort_override_for_model(
            provider,
            model,
            effort,
            saved,
        ) {
            Ok(()) => {},
            Err(why) => {
                return Err(why);
            },
        }
        if relist {
            self.push_effect(Effect::RefreshModels);
        }
        Ok(true)
    }

    pub fn set_compact_mode(&mut self, compact: bool)
        ensures
            final(self)@ == compact_mode_set(old(self)@, compact),
    {
        reveal(<Ui as View>::view);
        if self.ui.compact_mode == compact {
            return ;
        }
        self.ui.compact_mode = compact;
        self.push_effect(Effect::SaveCompactMode { compact });
        let t = if compact {
            "Compact mode enabled"
        } else {
            "Compact mode disabled"
        };
        self.push_toast(ToastLevel::Info, t, 2);
    }

    pub fn visit_message(&mut self, index: usize)
        ensures
            final(self)@ == message_visited(old(self)@, index),
    {
        self.chat.highlighted = Some(index);
        self.push_effect(Effect::ScrollToMessage { index });
    }

    pub fn find_current_session(&self) -> (r: Option<usize>)
        ensures
            match r {
                Some(i) => i < self.sessions@.len() && current_place(self@) == Some(i as int)
                    && self@.sessions[i as int] == self.sessions@[i as int]@,
                None => current_place(self@) is None,
            },
    {
        match &self.current {
            Some(id) => session::find_session(&self.sessions, id.as_str()),
            None => None,
        }
    }

    pub fn open_timeline_dialog(&mut self)
        ensures
            final(self)@ == timeline_shown(old(self)@),
    {
        reveal(timeline_shown);
        self.esc_primed_at = None;
        let n: usize = match self.find_current_session() {
            Some(i) => self.sessions[i].messages.len(),
            None => {
                return ;
            },
        };
        self.show_dialog(OverlayFocus::TimelineDialog);
        if n > 0 {
            self.visit_message(n - 1);
        }
    }

    pub fn open_rename_dialog(&mut self)
        ensures
            final(self)@ == rename_shown(old(self)@),
    {
        match self.find_current_session() {
            Some(i) => {
                let session_id = self.sessions[i].id.clone();
                let title = self.sessions[i].title.clone();
                self.overlay_focus = OverlayFocus::SessionRenameDialog;
                self.push_effect(Effect::ShowRename { session_id, title });
            },
            None => {},
        }
    }

    pub fn open_move_session_dialog(&mut self)
        ensures
            final(self)@ == move_shown(old(self)@),
    {
        if self.current.is_some() {
            self.show_dialog(OverlayFocus::MoveSessionDialog);
            return ;
        }
        self.complain("No active session to move", 3);
    }

    pub fn can_open_find_bar(&self) -> (r: bool)
        ensures
            r == can_find(self@),
    {
        self.base_focus == BaseFocus::Chat && self.current.is_some()
    }

    pub fn open_find_bar(&mut self)
        ensures
            final(self)@ == find_opened(old(self)@),
    {
        if !self.can_open_find_bar() {
            return ;
        }
        self.clear_suggestions();
        self.find_active = true;
        self.push_effect(Effect::ClearSearch);
        self.show_dialog(OverlayFocus::FindBar);
    }

    pub fn close_find_bar_focus(&mut self)
        ensures
            final(self)@ == find_closed(old(self)@),
    {
        self.find_active = false;
        if self.overlay_focus == OverlayFocus::FindBar {
            self.overlay_focus = OverlayFocus::Nothing;
        }
        self.push_effect(Effect::HideDialog { dialog: OverlayFocus::FindBar });
    }

    pub fn open_command_palette(&mut self)
        ensures
            final(self)@ == palette_toggled(old(self)@),
    {
        if self.overlay_focus == OverlayFocus::CommandPalette {
            self.overlay_focus = OverlayFocus::Nothing;
            self.push_effect(Effect::HideDialog { dialog: OverlayFocus::CommandPalette });
            return ;
        }
        self.clear_suggestions();
        self.show_dialog(OverlayFocus::CommandPalette);
    }

    pub fn start_storage_refresh(&mut self)
        ensures
            final(self)@ == storage_check_started(old(self)@),
    {
        reveal(<Ui as View>::view);
        if self.ui.storage_check {
            return ;
        }
        self.ui.storage_check = true;
        self.push_effect(Effect::StartStorageCheck);
    }

    pub fn open_storage_dialog(&mut self)
        ensures
            final(self)@ == storage_shown(old(self)@),
    {
        reveal(<Ui as View>::view);
        let known = self.ui.storage_reported;
        self.clear_suggestions();
        self.show_dialog(OverlayFocus::StorageDialog);
        if !known {
            self.start_storage_refresh();
        }
    }

    pub fn quit(&mut self)
        ensures
            final(self)@ == has_quit(old(self)@),
    {
        self.stop_terminals();
        self.running = false;
    }

    pub fn compact_current_session(&mut self)
        ensures
            final(self)@ == compact_commanded(old(self)@),
    {
        reveal(compact_commanded);
        let id = match text::copy_opt(&self.current) {
            Some(id) => id,
            None => {
                self.complain("No active session to compact", 3);
                return ;
            },
        };
        if self.compaction.is_some() {
            self.push_toast(ToastLevel::Info, "Already compacting...", 2);
            return ;
        }
        if self.session_has_active_stream(id.as_str()) || self.is_streaming {
            self.queue_item_for_current_session(crate::queue::QueuedItem::Compact);
            self.push_toast(ToastLevel::Info, "Queued /compact", 2);
            return ;
        }
        self.start_compact_session(id.as_str());
    }
}

pub fn same_ids(a: &Option<Vec<String>>, b: &Option<Vec<String>>) -> (r: bool)
    ensures
        r == (ui::opt_views(*a) == ui::opt_views(*b)),
{
    match (a, b) {
        (Some(x), Some(y)) => text::same_strings(x, y),
        (None, None) => true,
        _ => false,
    }
}

/// A step through the efforts of a model and a step back, each remembered, leave the effort of
/// before; the efforts of other models stay as they are.
pub proof fn law_remembered_efforts_step_back(
    a: AppView,
    provider: Seq<char>,
    model: Seq<char>,
    forward: bool,
    relist: bool,
    other: Seq<char>,
)
    requires
        has_efforts(a, provider, model),
        reasoning::each_once(a.reasoning.overrides),
        ({
            let all = reasoning::choices(
                reasoning::capability_of(a.reasoning.capabilities, provider, model)->0,
            );
            &&& all.no_duplicates()
            &&& reasoning::override_of(a.reasoning.overrides, provider, model) matches Some(e)
                ==> all.contains(e)
        }),
    ensures
        ({
            let first = next_effort(a, provider, model, forward);
            let b = effort_saved(a, provider, model, first, relist);
            let second = next_effort(b, provider, model, !forward);
            let c = effort_saved(b, provider, model, second, relist);
            &&& reasoning::override_of(b.reasoning.overrides, provider, model) == first
            &&& second == reasoning::override_of(a.reasoning.overrides, provider, model)
            &&& reasoning::override_of(c.reasoning.overrides, provider, model)
                == reasoning::override_of(a.reasoning.overrides, provider, model)
            &&& other != model ==> reasoning::override_of(c.reasoning.overrides, provider, other)
                == reasoning::override_of(a.reasoning.overrides, provider, other)
        }),
{
    let v = a.reasoning.overrides;
    let values = reasoning::capability_of(a.reasoning.capabilities, provider, model)->0;
    let now = reasoning::override_of(v, provider, model);
    let first = next_effort(a, provider, model, forward);
    reasoning::law_effort_steps_undo_each_other(values, now, forward);
    reasoning::law_override_is_read(v, provider, model, first, provider, other);
    let w = reasoning::with_override(v, provider, model, first);
    reasoning::law_override_is_read(w, provider, model, now, provider, other);
}

} // verus!

//! The models to choose from, and other lists that dialogs show.

use crate::app;
use crate::app::{App, AppView};
use crate::dialogs;
use crate::reasoning;
use crate::reasoning::{CapabilityView, ModelCapability, ReasoningEffort, ReasoningView};
use crate::sorting;
use crate::sorting::Ranked;
use crate::state::ToastLevel;
use crate::text;
use crate::ui;
use crate::ui::{DialogItem, ItemView, ModelsView, Ui, UiView};
use vstd::prelude::*;
use vstd::string::*;

verus! {

impl Ranked for String {
    open spec fn precedes(a: Seq<char>, b: Seq<char>) -> bool {
        sorting::text_precedes(a, b)
    }

    proof fn lemma_rank(a: Seq<char>, b: Seq<char>, c: Seq<char>) {
        sorting::lemma_text_order(a, b, c);
        sorting::lemma_text_order(b, a, c);
    }

    fn goes_before(&self, other: &Self) -> bool {
        sorting::text_before(self.as_str(), other.as_str())
    }
}

pub open spec fn auth_marks(ids: Seq<Seq<char>>) -> Seq<Seq<char>> {
    ids.map_values(|id: Seq<char>| "auth:"@ + id)
}

/// What the list of models depends on: the providers with credentials and those of the user's
/// own, in order and each once. Nothing is known where the credentials cannot be read.
pub open spec fn provider_signature(
    connected: Option<Seq<Seq<char>>>,
    custom: Seq<Seq<char>>,
) -> Option<Seq<Seq<char>>> {
    match connected {
        Some(ids) => Some(
            reasoning::without_repeats(sorting::sorted::<String>(auth_marks(ids) + custom)),
        ),
        None => None,
    }
}

pub fn models_dialog_provider_ids(connected: Option<Vec<String>>, custom: Vec<String>) -> (r: Option<
    Vec<String>,
>)
    ensures
        ui::opt_views(r) == provider_signature(ui::opt_views(connected), text::views(custom@)),
{
    let ids = match connected {
        Some(ids) => ids,
        None => {
            return None;
        },
    };
    let ghost marks = auth_marks(text::views(ids@));
    let ghost own = text::views(custom@);
    let mut all: Vec<String> = Vec::new();
    assert(text::views(all@) =~= marks.take(0));
    for i in 0..ids.len()
        invariant
            marks == auth_marks(text::views(ids@)),
            text::views(all@) == marks.take(i as int),
    {
        let ghost before = all@;
        let mut mark = "auth:".to_string();
        mark.append(ids[i].as_str());
        all.push(mark);
        assert(marks[i as int] == mark@);
        assert(text::views(all@) =~= text::views(before).push(mark@));
        assert(marks.take(i as int + 1) =~= marks.take(i as int).push(mark@));
    }
    assert(marks.take(marks.len() as int) =~= marks);
    assert(text::views(all@) =~= marks + own.take(0));
    for i in 0..custom.len()
        invariant
            own == text::views(custom@),
            text::views(all@) == marks + own.take(i as int),
    {
        let ghost before = all@;
        all.push(custom[i].clone());
        assert(own[i as int] == custom@[i as int]@);
        assert(text::views(all@) =~= text::views(before).push(custom@[i as int]@));
        assert(marks + own.take(i as int + 1) =~= (marks + own.take(i as int)).push(
            custom@[i as int]@,
        ));
    }
    assert(own.take(own.len() as int) =~= own);
    assert(sorting::shown(all@) =~= text::views(all@));
    let in_order = sorting::sort(all);
    assert(text::views(in_order@) =~= sorting::shown(in_order@));
    Some(reasoning::dedup_names(in_order))
}

/// A model that can be chosen, as the providers tell of it.
#[derive(Debug)]
pub struct ModelInfo {
    pub provider_id: String,
    pub provider_name: String,
    pub id: String,
    pub name: String,
    pub description: String,
    pub selectable: bool,
    pub efforts: Vec<ReasoningEffort>,
}

pub struct ModelView {
    pub provider_id: Seq<char>,
    pub provider_name: Seq<char>,
    pub id: Seq<char>,
    pub name: Seq<char>,
    pub description: Seq<char>,
    pub selectable: bool,
    pub efforts: Seq<ReasoningEffort>,
}

impl View for ModelInfo {
    type V = ModelView;

    open spec fn view(&self) -> ModelView {
        ModelView {
            provider_id: self.provider_id@,
            provider_name: self.provider_name@,
            id: self.id@,
            name: self.name@,
            description: self.description@,
            selectable: self.selectable,
            efforts: self.efforts@,
        }
    }
}

pub open spec fn model_views(v: Seq<ModelInfo>) -> Seq<ModelView> {
    v.map_values(|m: ModelInfo| m@)
}

/// A model by its provider and its id.
#[derive(Debug)]
pub struct ModelRef {
    pub provider_id: String,
    pub model_id: String,
}

pub struct RefView {
    pub provider_id: Seq<char>,
    pub model_id: Seq<char>,
}

impl View for ModelRef {
    type V = RefView;

    open spec fn view(&self) -> RefView {
        RefView { provider_id: self.provider_id@, model_id: self.model_id@ }
    }
}

pub open spec fn ref_views(v: Seq<ModelRef>) -> Seq<RefView> {
    v.map_values(|r: ModelRef| r@)
}

pub open spec fn is_named(m: ModelView, r: RefView) -> bool {
    m.provider_id == r.provider_id && m.id == r.model_id
}

pub open spec fn ref_of(m: ModelView) -> RefView {
    RefView { provider_id: m.provider_id, model_id: m.id }
}

/// The last of the first `n` models that goes by that name and can be chosen.
pub open spec fn chosen_before(models: Seq<ModelView>, r: RefView, n: int) -> Option<int>
    decreases n,
{
    if n <= 0 || n > models.len() {
        None
    } else if models[n - 1].selectable && is_named(models[n - 1], r) {
        Some(n - 1)
    } else {
        chosen_before(models, r, n - 1)
    }
}

pub open spec fn choice(models: Seq<ModelView>, r: RefView) -> Option<int> {
    chosen_before(models, r, models.len() as int)
}

/// What the user has marked, has used, and uses now.
#[derive(Debug)]
pub struct ModelPrefs {
    pub favorites: Vec<ModelRef>,
    pub recents: Vec<ModelRef>,
}

/// The line of a model; a favorite has a heart.
pub open spec fn line_of(
    m: ModelView,
    group: Seq<char>,
    favorites: Seq<RefView>,
    active: RefView,
) -> ItemView {
    ItemView {
        id: m.id,
        name: m.name,
        group,
        description: m.description,
        tip: if favorites.contains(ref_of(m)) {
            Some("❤︎"@)
        } else {
            None
        },
        provider_id: m.provider_id,
        active: is_named(m, active),
    }
}

/// The favorites that can be chosen, in the order in which they were marked.
pub open spec fn favorite_lines(
    models: Seq<ModelView>,
    favorites: Seq<RefView>,
    marked: Seq<RefView>,
    active: RefView,
) -> Seq<ItemView>
    decreases marked.len(),
{
    if marked.len() == 0 {
        Seq::empty()
    } else {
        let before = favorite_lines(models, favorites, marked.drop_last(), active);
        match choice(models, marked.last()) {
            Some(i) => before.push(line_of(models[i], "Favorite"@, favorites, active)),
            None => before,
        }
    }
}

/// The models used of late that are no favorites.
pub open spec fn recent_lines(
    models: Seq<ModelView>,
    favorites: Seq<RefView>,
    recents: Seq<RefView>,
    active: RefView,
) -> Seq<ItemView>
    decreases recents.len(),
{
    if recents.len() == 0 {
        Seq::empty()
    } else {
        let before = recent_lines(models, favorites, recents.drop_last(), active);
        if favorites.contains(recents.last()) {
            before
        } else {
            match choice(models, recents.last()) {
                Some(i) => before.push(line_of(models[i], "Recent"@, favorites, active)),
                None => before,
            }
        }
    }
}

/// All the other models that can be chosen, by provider.
pub open spec fn other_lines(
    models: Seq<ModelView>,
    favorites: Seq<RefView>,
    recents: Seq<RefView>,
    active: RefView,
) -> Seq<ItemView>
    decreases models.len(),
{
    if models.len() == 0 {
        Seq::empty()
    } else {
        let before = other_lines(models.drop_last(), favorites, recents, active);
        let m = models.last();
        if m.selectable && !favorites.contains(ref_of(m)) && !recents.contains(ref_of(m)) {
            before.push(line_of(m, m.provider_name, favorites, active))
        } else {
            before
        }
    }
}

/// Favorites come first, what was used of late next, then the providers.
pub open spec fn group_rank(group: Seq<char>) -> int {
    if group == "Favorite"@ {
        0
    } else if group == "Recent"@ {
        1
    } else {
        2
    }
}

impl Ranked for DialogItem {
    /// By the rank of the group; the providers by name, and their models by name.
    open spec fn precedes(a: ItemView, b: ItemView) -> bool {
        group_rank(a.group) < group_rank(b.group) || (group_rank(a.group) == 2 && group_rank(
            b.group,
        ) == 2 && (sorting::text_precedes(a.group, b.group) || (a.group == b.group
            && sorting::text_precedes(a.name, b.name))))
    }

    proof fn lemma_rank(a: ItemView, b: ItemView, c: ItemView) {
        sorting::lemma_text_order(a.group, b.group, c.group);
        sorting::lemma_text_order(a.name, b.name, c.name);
        sorting::lemma_text_order(b.group, a.group, c.group);
        sorting::lemma_text_order(b.name, a.name, c.name);
        sorting::lemma_text_order(c.group, b.group, a.group);
        sorting::lemma_text_order(c.name, b.name, a.name);
    }

    fn goes_before(&self, other: &Self) -> (r: bool) {
        let own = find_group_rank(self.group.as_str());
        let its = find_group_rank(other.group.as_str());
        own < its || (own == 2 && its == 2 && (sorting::text_before(
            self.group.as_str(),
            other.group.as_str(),
        ) || (text::same(self.group.as_str(), other.group.as_str()) && sorting::text_before(
            self.name.as_str(),
            other.name.as_str(),
        ))))
    }
}

fn find_group_rank(group: &str) -> (r: u8)
    ensures
        r == group_rank(group@),
{
    if text::same(group, "Favorite") {
        0
    } else if text::same(group, "Recent") {
        1
    } else {
        2
    }
}

/// The list of models.
pub open spec fn catalogue(
    models: Seq<ModelView>,
    favorites: Seq<RefView>,
    recents: Seq<RefView>,
    active: RefView,
) -> Seq<ItemView> {
    sorting::sorted::<DialogItem>(
        favorite_lines(models, favorites, favorites, active) + recent_lines(
            models,
            favorites,
            recents,
            active,
        ) + other_lines(models, favorites, recents, active),
    )
}

fn names_model(m: &ModelInfo, provider: &str, id: &str) -> (r: bool)
    ensures
        r == is_named(m@, RefView { provider_id: provider@, model_id: id@ }),
{
    text::same(m.provider_id.as_str(), provider) && text::same(m.id.as_str(), id)
}

fn find_choice(models: &Vec<ModelInfo>, r: &ModelRef) -> (p: Option<usize>)
    ensures
        match p {
            Some(i) => i < models@.len() && choice(model_views(models@), r@) == Some(i as int),
            None => choice(model_views(models@), r@) is None,
        },
{
    let ghost all = model_views(models@);
    let mut n: usize = models.len();
    while n > 0
        invariant
            n <= models@.len(),
            all == model_views(models@),
            chosen_before(all, r@, n as int) == choice(all, r@),
        decreases n,
    {
        assert(all[n - 1] == models@[n - 1]@);
        if models[n - 1].selectable && names_model(
            &models[n - 1],
            r.provider_id.as_str(),
            r.model_id.as_str(),
        ) {
            return Some(n - 1);
        }
        n -= 1;
    }
    None
}

fn holds_ref(refs: &Vec<ModelRef>, provider: &str, id: &str) -> (r: bool)
    ensures
        r == ref_views(refs@).contains(RefView { provider_id: provider@, model_id: id@ }),
{
    let ghost all = ref_views(refs@);
    let ghost wanted = RefView { provider_id: provider@, model_id: id@ };
    for i in 0..refs.len()
        invariant
            all == ref_views(refs@),
            wanted == (RefView { provider_id: provider@, model_id: id@ }),
            forall|k: int| 0 <= k < i ==> #[trigger] all[k] != wanted,
    {
        if text::same(refs[i].provider_id.as_str(), provider) && text::same(
            refs[i].model_id.as_str(),
            id,
        ) {
            assert(all[i as int] == wanted);
            return true;
        }
        assert(all[i as int] == refs@[i as int]@);
    }
    false
}

fn make_line(m: &ModelInfo, group: &str, favorites: &Vec<ModelRef>, active: &ModelRef) -> (r:
    DialogItem)
    ensures
        r@ == line_of(m@, group@, ref_views(favorites@), active@),
{
    let tip = if holds_ref(favorites, m.provider_id.as_str(), m.id.as_str()) {
        Some("❤︎".to_string())
    } else {
        None
    };
    DialogItem {
        id: m.id.clone(),
        name: m.name.clone(),
        group: group.to_owned(),
        description: m.description.clone(),
        tip,
        provider_id: m.provider_id.clone(),
        active: names_model(m, active.provider_id.as_str(), active.model_id.as_str()),
    }
}

proof fn lemma_items_push(v: Seq<DialogItem>, i: DialogItem)
    ensures
        sorting::shown(v.push(i)) == sorting::shown(v).push(i@),
{
    assert(sorting::shown(v.push(i)) =~= sorting::shown(v).push(i@));
}

fn add_favorites(
    items: &mut Vec<DialogItem>,
    models: &Vec<ModelInfo>,
    favorites: &Vec<ModelRef>,
    active: &ModelRef,
)
    ensures
        sorting::shown(final(items)@) == sorting::shown(old(items)@) + favorite_lines(
            model_views(models@),
            ref_views(favorites@),
            ref_views(favorites@),
            active@,
        ),
{
    let ghost start = sorting::shown(items@);
    let ghost ms = model_views(models@);
    let ghost favs = ref_views(favorites@);
    assert(sorting::shown(items@) =~= start + favorite_lines(ms, favs, favs.take(0), active@));
    for i in 0..favorites.len()
        invariant
            ms == model_views(models@),
            favs == ref_views(favorites@),
            sorting::shown(items@) == start + favorite_lines(
                ms,
                favs,
                favs.take(i as int),
                active@,
            ),
    {
        let ghost seen = favs.take(i as int + 1);
        proof {
            assert(seen.drop_last() =~= favs.take(i as int));
            assert(seen.last() == favorites@[i as int]@);
        }
        let ghost before = items@;
        match find_choice(models, &favorites[i]) {
            Some(k) => {
                let line = make_line(&models[k], "Favorite", favorites, active);
                items.push(line);
                proof {
                    lemma_items_push(before, line);
                    assert(ms[k as int] == models@[k as int]@);
                    assert(sorting::shown(items@) =~= start + favorite_lines(
                        ms,
                        favs,
                        seen,
                        active@,
                    ));
                }
            },
            None => {},
        }
    }
    assert(favs.take(favs.len() as int) =~= favs);
}

fn add_recents(
    items: &mut Vec<DialogItem>,
    models: &Vec<ModelInfo>,
    favorites: &Vec<ModelRef>,
    recents: &Vec<ModelRef>,
    active: &ModelRef,
)
    ensures
        sorting::shown(final(items)@) == sorting::shown(old(items)@) + recent_lines(
            model_views(models@),
            ref_views(favorites@),
            ref_views(recents@),
            active@,
        ),
{
    let ghost start = sorting::shown(items@);
    let ghost ms = model_views(models@);
    let ghost favs = ref_views(favorites@);
    let ghost recs = ref_views(recents@);
    assert(sorting::shown(items@) =~= start + recent_lines(ms, favs, recs.take(0), active@));
    for i in 0..recents.len()
        invariant
            ms == model_views(models@),
            favs == ref_views(favorites@),
            recs == ref_views(recents@),
            sorting::shown(items@) == start + recent_lines(ms, favs, recs.take(i as int), active@),
    {
        let ghost seen = recs.take(i as int + 1);
        proof {
            assert(seen.drop_last() =~= recs.take(i as int));
            assert(seen.last() == recents@[i as int]@);
        }
        let ghost before = items@;
        if !holds_ref(
            favorites,
            recents[i].provider_id.as_str(),
            recents[i].model_id.as_str(),
        ) {
            match find_choice(models, &recents[i]) {
                Some(k) => {
                    let line = make_line(&models[k], "Recent", favorites, active);
                    items.push(line);
                    proof {
                        lemma_items_push(before, line);
                        assert(ms[k as int] == models@[k as int]@);
                        assert(sorting::shown(items@) =~= start + recent_lines(
                            ms,
                            favs,
                            seen,
                            active@,
                        ));
                    }
                },
                None => {},
            }
        }
    }
    assert(recs.take(recs.len() as int) =~= recs);
}

fn add_others(
    items: &mut Vec<DialogItem>,
    models: &Vec<ModelInfo>,
    favorites: &Vec<ModelRef>,
    recents: &Vec<ModelRef>,
    active: &ModelRef,
)
    ensures
        sorting::shown(final(items)@) == sorting::shown(old(items)@) + other_lines(
            model_views(models@),
            ref_views(favorites@),
            ref_views(recents@),
            active@,
        ),
{
    let ghost start = sorting::shown(items@);
    let ghost ms = model_views(models@);
    let ghost favs = ref_views(favorites@);
    let ghost recs = ref_views(recents@);
    assert(sorting::shown(items@) =~= start + other_lines(ms.take(0), favs, recs, active@));
    for i in 0..models.len()
        invariant
            ms == model_views(models@),
            favs == ref_views(favorites@),
            recs == ref_views(recents@),
            sorting::shown(items@) == start + other_lines(ms.take(i as int), favs, recs, active@),
    {
        let ghost seen = ms.take(i as int + 1);
        proof {
            assert(seen.drop_last() =~= ms.take(i as int));
            assert(seen.last() == models@[i as int]@);
        }
        let ghost before = items@;
        let m = &models[i];
        if m.selectable && !holds_ref(favorites, m.provider_id.as_str(), m.id.as_str())
            && !holds_ref(recents, m.provider_id.as_str(), m.id.as_str()) {
            let line = make_line(m, m.provider_name.as_str(), favorites, active);
            items.push(line);
            proof {
                lemma_items_push(before, line);
                assert(sorting::shown(items@) =~= start + other_lines(seen, favs, recs, active@));
            }
        }
    }
    assert(ms.take(ms.len() as int) =~= ms);
}

/// Lists the models.
pub fn model_items(models: &Vec<ModelInfo>, prefs: &ModelPrefs, active: &ModelRef) -> (r: Vec<
    DialogItem,
>)
    ensures
        ui::item_views(r@) == catalogue(
            model_views(models@),
            ref_views(prefs.favorites@),
            ref_views(prefs.recents@),
            active@,
        ),
{
    let mut items: Vec<DialogItem> = Vec::new();
    let ghost none = Seq::<ItemView>::empty();
    assert(sorting::shown(items@) =~= none);
    add_favorites(&mut items, models, &prefs.favorites, active);
    add_recents(&mut items, models, &prefs.favorites, &prefs.recents, active);
    add_others(&mut items, models, &prefs.favorites, &prefs.recents, active);
    proof {
        let ms = model_views(models@);
        let favs = ref_views(prefs.favorites@);
        let recs = ref_views(prefs.recents@);
        assert(none + favorite_lines(ms, favs, favs, active@) =~= favorite_lines(
            ms,
            favs,
            favs,
            active@,
        ));
    }
    let in_order = sorting::sort(items);
    assert(ui::item_views(in_order@) =~= sorting::shown(in_order@));
    in_order
}

/// What the models take, the last of those that go by one name first.
pub open spec fn capabilities_of(models: Seq<ModelView>) -> Seq<CapabilityView>
    decreases models.len(),
{
    if models.len() == 0 {
        Seq::empty()
    } else {
        let m = models.last();
        seq![
            CapabilityView { provider: m.provider_id, model: m.id, values: m.efforts },
        ] + capabilities_of(models.drop_last())
    }
}

fn list_capabilities(models: &Vec<ModelInfo>) -> (r: Vec<ModelCapability>)
    ensures
        reasoning::capabilities_view(r@) == capabilities_of(model_views(models@)),
{
    let ghost ms = model_views(models@);
    let mut out: Vec<ModelCapability> = Vec::new();
    let mut n: usize = models.len();
    assert(ms.take(n as int) =~= ms);
    assert(reasoning::capabilities_view(out@) =~= Seq::<CapabilityView>::empty());
    while n > 0
        invariant
            n <= models@.len(),
            ms == model_views(models@),
            reasoning::capabilities_view(out@) + capabilities_of(ms.take(n as int))
                == capabilities_of(ms),
        decreases n,
    {
        let ghost before = out@;
        let ghost left = ms.take(n as int);
        let m = &models[n - 1];
        let c = ModelCapability {
            provider: m.provider_id.clone(),
            model: m.id.clone(),
            values: copy_efforts(&m.efforts),
        };
        out.push(c);
        proof {
            assert(left.last() == m@);
            assert(left.drop_last() =~= ms.take(n - 1));
            assert(reasoning::capabilities_view(out@) =~= reasoning::capabilities_view(
                before,
            ).push(c@));
            assert(reasoning::capabilities_view(out@) + capabilities_of(ms.take(n - 1))
                =~= reasoning::capabilities_view(before) + capabilities_of(left));
        }
        n -= 1;
    }
    assert(ms.take(0) =~= Seq::<ModelView>::empty());
    assert(reasoning::capabilities_view(out@) =~= capabilities_of(ms));
    out
}

fn copy_efforts(v: &Vec<ReasoningEffort>) -> (r: Vec<ReasoningEffort>)
    ensures
        r@ == v@,
{
    let mut out: Vec<ReasoningEffort> = Vec::new();
    for i in 0..v.len()
        invariant
            out@ == v@.take(i as int),
    {
        out.push(v[i]);
    }
    assert(v@.take(v@.len() as int) =~= v@);
    out
}

pub open spec fn active_ref(a: AppView) -> RefView {
    RefView { provider_id: a.provider_name, model_id: a.model }
}

/// The list of models made anew, with what the models take.
#[verifier::opaque]
pub open spec fn models_refreshed(
    a: AppView,
    models: Seq<ModelView>,
    favorites: Seq<RefView>,
    recents: Seq<RefView>,
) -> AppView {
    dialogs::with_models(
        AppView {
            reasoning: ReasoningView { capabilities: capabilities_of(models), ..a.reasoning },
            ..a
        },
        ModelsView {
            items: catalogue(models, favorites, recents, active_ref(a)),
            ..a.ui.models
        },
    )
}

/// The line of a model in the list, from place `i` on.
pub open spec fn listed_from(
    items: Seq<ItemView>,
    provider: Seq<char>,
    model: Seq<char>,
    i: int,
) -> bool
    decreases items.len() - i,
{
    if i < 0 || i >= items.len() {
        false
    } else {
        (items[i].provider_id == provider && items[i].id == model) || listed_from(
            items,
            provider,
            model,
            i + 1,
        )
    }
}

impl App {
    fn set_model_items(&mut self, items: Vec<DialogItem>)
        ensures
            final(self)@ == dialogs::with_models(
                old(self)@,
                ModelsView { items: ui::item_views(items@), ..old(self)@.ui.models },
            ),
    {
        reveal(<Ui as View>::view);
        self.ui.models.items = items;
    }

    /// Lists the models anew.
    pub fn refresh_models_dialog(&mut self, models: &Vec<ModelInfo>, prefs: &ModelPrefs)
        ensures
            final(self)@ == models_refreshed(
                old(self)@,
                model_views(models@),
                ref_views(prefs.favorites@),
                ref_views(prefs.recents@),
            ),
    {
        reveal(models_refreshed);
        self.reasoning.capabilities = list_capabilities(models);
        let active = ModelRef {
            provider_id: self.provider_name.clone(),
            model_id: self.model.clone(),
        };
        let items = model_items(models, prefs, &active);
        self.set_model_items(items);
    }

    fn model_is_listed(&self, provider: &str, model: &str) -> (r: bool)
        ensures
            r == listed_from(self@.ui.models.items, provider@, model@, 0),
    {
        reveal(<Ui as View>::view);
        let ghost all = ui::item_views(self.ui.models.items@);
        let mut i: usize = 0;
        while i < self.ui.models.items.len()
            invariant
                i <= self.ui.models.items@.len(),
                all == ui::item_views(self.ui.models.items@),
                self@.ui.models.items == all,
                listed_from(all, provider@, model@, i as int) == listed_from(
                    all,
                    provider@,
                    model@,
                    0,
                ),
            decreases self.ui.models.items@.len() - i,
        {
            assert(all[i as int] == self.ui.models.items@[i as int]@);
            if text::same(self.ui.models.items[i].provider_id.as_str(), provider) && text::same(
                self.ui.models.items[i].id.as_str(),
                model,
            ) {
                return true;
            }
            i += 1;
        }
        false
    }

    /// Chooses a model of the list from afar; says whether it is there.
    pub fn remote_set_model(
        &mut self,
        provider: &str,
        model: &str,
        models: &Vec<ModelInfo>,
        prefs: &ModelPrefs,
    ) -> (r: bool)
        ensures
            ({
                let b = models_refreshed(
                    old(self)@,
                    model_views(models@),
                    ref_views(prefs.favorites@),
                    ref_views(prefs.recents@),
                );
                &&& r == listed_from(b.ui.models.items, provider@, model@, 0)
                &&& final(self)@ == if r {
                    dialogs::model_chosen(b, provider@, model@)
                } else {
                    b
                }
            }),
    {
        self.refresh_models_dialog(models, prefs);
        if !self.model_is_listed(provider, model) {
            return false;
        }
        self.choose_model(provider, model);
        true
    }
}

/// What the caller knows of the providers before it looks models up.
#[derive(Debug, Clone, Copy, PartialEq, Eq, Structural)]
pub struct ProviderFacts {
    pub any_connected: bool,
    pub any_lasting_connected: bool,
    pub any_configured: bool,
    pub runtime_connected: bool,
    pub runtime_in_use: bool,
    pub free_in_use: bool,
}

/// Where to look models up.
#[derive(Debug, Clone, Copy, PartialEq, Eq, Structural)]
pub struct Lookup {
    pub lasting: bool,
    pub runtime: bool,
}

/// Models of providers on this machine are looked up where one is connected or in use, and the
/// free ones also where nothing is connected.
pub open spec fn lookup_of(f: ProviderFacts) -> Lookup {
    Lookup {
        lasting: f.any_lasting_connected || f.any_configured || f.free_in_use || !f.any_connected,
        runtime: f.runtime_connected || f.runtime_in_use,
    }
}

pub fn models_to_look_up(f: ProviderFacts) -> (r: Lookup)
    ensures
        r == lookup_of(f),
{
    Lookup {
        lasting: f.any_lasting_connected || f.any_configured || f.free_in_use || !f.any_connected,
        runtime: f.runtime_connected || f.runtime_in_use,
    }
}

impl App {
    /// A look-up of the providers' models failed; says whether the list can be made of those on
    /// this machine alone.
    pub fn model_lookup_failed(&mut self, lookup: Lookup, why: &str, runtime_empty: bool) -> (r: bool)
        ensures
            r == lookup.runtime,
            final(self)@ == if lookup.runtime && runtime_empty {
                app::toasted(
                    old(self)@,
                    ToastLevel::Warning,
                    "Failed to refresh models: "@ + why@,
                    3,
                )
            } else {
                old(self)@
            },
    {
        if !lookup.runtime {
            return false;
        }
        if runtime_empty {
            let mut t = "Failed to refresh models: ".to_string();
            t.append(why);
            self.push_toast(ToastLevel::Warning, t.as_str(), 3);
        }
        true
    }
}

/// Every model listed under its provider can be chosen.
pub proof fn law_provider_models_are_selectable(
    models: Seq<ModelView>,
    favorites: Seq<RefView>,
    recents: Seq<RefView>,
    active: RefView,
)
    ensures
        forall|k: int|
            0 <= k < other_lines(models, favorites, recents, active).len() ==> exists|i: int|
                0 <= i < models.len() && models[i].selectable && #[trigger] line_of(
                    models[i],
                    models[i].provider_name,
                    favorites,
                    active,
                ) == #[trigger] other_lines(models, favorites, recents, active)[k],
    decreases models.len(),
{
    if models.len() > 0 {
        let rest = models.drop_last();
        law_provider_models_are_selectable(rest, favorites, recents, active);
        let before = other_lines(rest, favorites, recents, active);
        let all = other_lines(models, favorites, recents, active);
        assert forall|k: int| 0 <= k < all.len() implies exists|i: int|
            0 <= i < models.len() && models[i].selectable && #[trigger] line_of(
                models[i],
                models[i].provider_name,
                favorites,
                active,
            ) == #[trigger] all[k] by {
            if k < before.len() {
                let i = choose|i: int|
                    0 <= i < rest.len() && rest[i].selectable && #[trigger] line_of(
                        rest[i],
                        rest[i].provider_name,
                        favorites,
                        active,
                    ) == before[k];
                assert(models[i] == rest[i]);
            } else {
                let i = models.len() - 1;
                assert(models[i] == models.last());
            }
        }
    }
}

/// The list is in order: favorites, then what was used of late, then the providers by name.
pub proof fn law_models_are_in_order(
    models: Seq<ModelView>,
    favorites: Seq<RefView>,
    recents: Seq<RefView>,
    active: RefView,
)
    ensures
        sorting::is_in_order::<DialogItem>(catalogue(models, favorites, recents, active)),
{
    sorting::law_sorted::<DialogItem>(
        favorite_lines(models, favorites, favorites, active) + recent_lines(
            models,
            favorites,
            recents,
            active,
        ) + other_lines(models, favorites, recents, active),
    );
}

/// A skill, as it is listed.
#[derive(Debug)]
pub struct Skill {
    pub name: String,
    pub description: Option<String>,
}

pub struct SkillView {
    pub name: Seq<char>,
    pub description: Option<Seq<char>>,
}

impl View for Skill {
    type V = SkillView;

    open spec fn view(&self) -> SkillView {
        SkillView { name: self.name@, description: text::opt_view(self.description) }
    }
}

impl Ranked for Skill {
    open spec fn precedes(a: SkillView, b: SkillView) -> bool {
        sorting::text_precedes(a.name, b.name)
    }

    proof fn lemma_rank(a: SkillView, b: SkillView, c: SkillView) {
        sorting::lemma_text_order(a.name, b.name, c.name);
        sorting::lemma_text_order(b.name, a.name, c.name);
    }

    fn goes_before(&self, other: &Self) -> bool {
        sorting::text_before(self.name.as_str(), other.name.as_str())
    }
}

pub open spec fn skill_line(s: SkillView) -> ItemView {
    ItemView {
        id: s.name,
        name: s.name,
        group: "Skills"@,
        description: match s.description {
            Some(d) => d,
            None => ""@,
        },
        tip: match s.description {
            Some(_) => None,
            None => Some("No description"@),
        },
        provider_id: ""@,
        active: false,
    }
}

/// The skills by name.
pub open spec fn skill_lines(skills: Seq<SkillView>) -> Seq<ItemView> {
    sorting::sorted::<Skill>(skills).map_values(|s: SkillView| skill_line(s))
}

pub fn skill_items(skills: Vec<Skill>) -> (r: Vec<DialogItem>)
    ensures
        ui::item_views(r@) == skill_lines(sorting::shown(skills@)),
{
    let in_order = sorting::sort(skills);
    let ghost all = sorting::shown(in_order@).map_values(|s: SkillView| skill_line(s));
    let mut out: Vec<DialogItem> = Vec::new();
    assert(ui::item_views(out@) =~= all.take(0));
    for i in 0..in_order.len()
        invariant
            all == sorting::shown(in_order@).map_values(|s: SkillView| skill_line(s)),
            ui::item_views(out@) == all.take(i as int),
    {
        let ghost before = out@;
        let s = &in_order[i];
        let item = DialogItem {
            id: s.name.clone(),
            name: s.name.clone(),
            group: "Skills".to_string(),
            description: match &s.description {
                Some(d) => d.clone(),
                None => "".to_string(),
            },
            tip: match &s.description {
                Some(_) => None,
                None => Some("No description".to_string()),
            },
            provider_id: "".to_string(),
            active: false,
        };
        out.push(item);
        assert(all[i as int] == item@);
        assert(ui::item_views(out@) =~= ui::item_views(before).push(item@));
        assert(all.take(i as int + 1) =~= all.take(i as int).push(item@));
    }
    assert(all.take(all.len() as int) =~= all);
    out
}

/// A server of tools, as it is listed.
#[derive(Debug)]
pub struct McpServer {
    pub name: String,
    pub enabled: bool,
}

pub struct McpView {
    pub name: Seq<char>,
    pub enabled: bool,
}

impl View for McpServer {
    type V = McpView;

    open spec fn view(&self) -> McpView {
        McpView { name: self.name@, enabled: self.enabled }
    }
}

impl Ranked for McpServer {
    open spec fn precedes(a: McpView, b: McpView) -> bool {
        sorting::text_precedes(a.name, b.name)
    }

    proof fn lemma_rank(a: McpView, b: McpView, c: McpView) {
        sorting::lemma_text_order(a.name, b.name, c.name);
        sorting::lemma_text_order(b.name, a.name, c.name);
    }

    fn goes_before(&self, other: &Self) -> bool {
        sorting::text_before(self.name.as_str(), other.name.as_str())
    }
}

pub open spec fn mcp_line(s: McpView) -> ItemView {
    ItemView {
        id: s.name,
        name: s.name,
        group: "MCP"@,
        description: ""@,
        tip: Some(
            if s.enabled {
                "enabled"@
            } else {
                "disabled"@
            },
        ),
        provider_id: ""@,
        active: s.enabled,
    }
}

/// The servers by name.
pub open spec fn mcp_lines(servers: Seq<McpView>) -> Seq<ItemView> {
    sorting::sorted::<McpServer>(servers).map_values(|s: McpView| mcp_line(s))
}

pub fn mcp_items(servers: Vec<McpServer>) -> (r: Vec<DialogItem>)
    ensures
        ui::item_views(r@) == mcp_lines(sorting::shown(servers@)),
{
    let in_order = sorting::sort(servers);
    let ghost all = sorting::shown(in_order@).map_values(|s: McpView| mcp_line(s));
    let mut out: Vec<DialogItem> = Vec::new();
    assert(ui::item_views(out@) =~= all.take(0));
    for i in 0..in_order.len()
        invariant
            all == sorting::shown(in_order@).map_values(|s: McpView| mcp_line(s)),
            ui::item_views(out@) == all.take(i as int),
    {
        let ghost before = out@;
        let s = &in_order[i];
        let tip = if s.enabled {
            "enabled"
        } else {
            "disabled"
        };
        let item = DialogItem {
            id: s.name.clone(),
            name: s.name.clone(),
            group: "MCP".to_string(),
            description: "".to_string(),
            tip: Some(tip.to_string()),
            provider_id: "".to_string(),
            active: s.enabled,
        };
        out.push(item);
        assert(all[i as int] == item@);
        assert(ui::item_views(out@) =~= ui::item_views(before).push(item@));
        assert(all.take(i as int + 1) =~= all.take(i as int).push(item@));
    }
    assert(all.take(all.len() as int) =~= all);
    out
}

} // verus!

//! What the user is offered and told is what there is, and what the model is sent is what was said.

use crate::agents;
use crate::agents::AgentView;
use crate::answers;
use crate::app;
use crate::app::AppView;
use crate::catalog;
use crate::catalog::{McpServer, McpView, ModelView, RefView, Skill, SkillView};
use crate::focus::OverlayFocus;
use crate::message;
use crate::message::{MessageRole, MessageView};
use crate::outcomes;
use crate::outcomes::{TargetKind, TurnResult};
use crate::palette;
use crate::palette::Palette;
use crate::reasoning;
use crate::reasoning::{ReasoningEffort, ReasoningView};
use crate::sorting;
use crate::state::{EffectView, ToastLevel};
use crate::text;
use crate::titles;
use crate::ui::{ConnectDialogMode, DialogItem, ItemView, OAuthProvider};
use crate::usage;
use crate::usage::{AnswerTimes, UsageFacts};
use vstd::prelude::*;

verus! {

proof fn lemma_role_from(ms: Seq<MessageView>, role: MessageRole, i: int)
    requires
        0 <= i,
    ensures
        message::role_from(ms, role, i) matches Some(k) ==> i <= k < ms.len() && ms[k].role == role,
        message::role_from(ms, role, i) is None ==> forall|k: int|
            i <= k < ms.len() ==> (#[trigger] ms[k]).role != role,
    decreases ms.len() - i,
{
    if i < ms.len() && ms[i].role != role {
        lemma_role_from(ms, role, i + 1);
    }
}

/// The agent is sent all that was said, message for message and in order; behind the system prompt
/// where the transcript has none of its own.
pub proof fn law_requests_hold_the_transcript(ms: Seq<MessageView>, system: Seq<char>)
    ensures
        ({
            let r = message::request_of(ms, system, None);
            let has_own = exists|i: int|
                0 <= i < ms.len() && (#[trigger] ms[i]).role == MessageRole::System;
            &&& has_own ==> r == ms
            &&& !has_own ==> r.len() == ms.len() + 1 && r.skip(1) == ms && r[0].role
                == MessageRole::System && r[0].content == system
        }),
{
    lemma_role_from(ms, MessageRole::System, 0);
    let r = message::request_of(ms, system, None);
    if !message::has_system(ms) {
        assert(r.skip(1) =~= ms);
    }
}

/// Guidance for a turn is told in the system prompt, behind what that says; everything else is
/// sent as it was said.
pub proof fn law_guidance_is_told_in_the_system_prompt(
    ms: Seq<MessageView>,
    system: Seq<char>,
    guidance: Seq<char>,
)
    requires
        !text::is_blank(guidance),
    ensures
        ({
            let plain = message::request_of(ms, system, None);
            let r = message::request_of(ms, system, Some(guidance));
            &&& r.len() == plain.len()
            &&& exists|i: int|
                0 <= i < r.len() && (#[trigger] r[i]).role == MessageRole::System
                    && text::trim(guidance).is_suffix_of(r[i].content)
                    && plain[i].content.is_prefix_of(r[i].content) && forall|j: int|
                    0 <= j < r.len() && j != i ==> #[trigger] r[j] == plain[j]
        }),
{
    let plain = message::request_of(ms, system, None);
    let r = message::request_of(ms, system, Some(guidance));
    let g = text::trim(guidance);
    lemma_role_from(ms, MessageRole::System, 0);
    lemma_role_from(plain, MessageRole::System, 0);
    if !message::has_system(ms) {
        assert(plain[0].role == MessageRole::System);
    }
    let i = message::role_from(plain, MessageRole::System, 0)->0;
    let old = plain[i].content;
    let new = r[i].content;
    assert(new.subrange(0, old.len() as int) =~= old);
    assert(new.subrange(new.len() - g.len(), new.len() as int) =~= g);
}

/// A line of the list of models is that of the model: its id, its name and its provider, with a
/// mark where it is a favorite, and lit where it is the one in use.
pub open spec fn is_line_of(i: ItemView, m: ModelView, favorites: Seq<RefView>, active: RefView) -> bool {
    &&& i.id == m.id
    &&& i.name == m.name
    &&& i.provider_id == m.provider_id
    &&& i.description == m.description
    &&& i.active <==> m.provider_id == active.provider_id && m.id == active.model_id
    &&& i.tip is Some <==> favorites.contains(
        RefView { provider_id: m.provider_id, model_id: m.id },
    )
}

/// Every line is that of a model that can be chosen.
pub open spec fn are_lines(
    items: Seq<ItemView>,
    models: Seq<ModelView>,
    favorites: Seq<RefView>,
    active: RefView,
) -> bool {
    forall|k: int|
        0 <= k < items.len() ==> is_line(#[trigger] items[k], models, favorites, active)
}

/// The line is that of a model that can be chosen.
pub open spec fn is_line(
    item: ItemView,
    models: Seq<ModelView>,
    favorites: Seq<RefView>,
    active: RefView,
) -> bool {
    exists|i: int|
        0 <= i < models.len() && models[i].selectable && #[trigger] is_line_of(
            item,
            models[i],
            favorites,
            active,
        )
}

proof fn lemma_chosen(models: Seq<ModelView>, r: RefView, n: int)
    requires
        0 <= n <= models.len(),
    ensures
        catalog::chosen_before(models, r, n) matches Some(i) ==> 0 <= i < n && models[i].selectable
            && models[i].provider_id == r.provider_id && models[i].id == r.model_id,
        catalog::chosen_before(models, r, n) is None ==> forall|i: int|
            0 <= i < n ==> !((#[trigger] models[i]).selectable && catalog::is_named(models[i], r)),
    decreases n,
{
    if n > 0 {
        lemma_chosen(models, r, n - 1);
    }
}

/// The list has a line for the model.
pub open spec fn offers(items: Seq<ItemView>, m: ModelView) -> bool {
    exists|k: int|
        0 <= k < items.len() && (#[trigger] items[k]).id == m.id && items[k].provider_id
            == m.provider_id
}

proof fn lemma_one_more_line(
    before: Seq<ItemView>,
    m: ModelView,
    g: Seq<char>,
    models: Seq<ModelView>,
    i: int,
    favorites: Seq<RefView>,
    active: RefView,
)
    requires
        are_lines(before, models, favorites, active),
        0 <= i < models.len(),
        models[i].selectable,
        m == models[i],
    ensures
        ({
            let all = before.push(catalog::line_of(m, g, favorites, active));
            &&& are_lines(all, models, favorites, active)
            &&& offers(all, m)
            &&& forall|x: ModelView| #[trigger] offers(before, x) ==> offers(all, x)
        }),
{
    let line = catalog::line_of(m, g, favorites, active);
    let all = before.push(line);
    assert(is_line_of(line, models[i], favorites, active));
    assert forall|k: int| 0 <= k < all.len() implies is_line(
        #[trigger] all[k],
        models,
        favorites,
        active,
    ) by {
        if k < before.len() {
            assert(all[k] == before[k]);
        }
    }
    assert(all[all.len() - 1].id == m.id);
    assert forall|x: ModelView| #[trigger] offers(before, x) implies offers(all, x) by {
        let k = choose|k: int|
            0 <= k < before.len() && (#[trigger] before[k]).id == x.id && before[k].provider_id
                == x.provider_id;
        assert(all[k] == before[k]);
    }
}

proof fn lemma_favorites(
    models: Seq<ModelView>,
    favorites: Seq<RefView>,
    marked: Seq<RefView>,
    active: RefView,
    x: ModelView,
)
    ensures
        ({
            let all = catalog::favorite_lines(models, favorites, marked, active);
            &&& are_lines(all, models, favorites, active)
            &&& x.selectable && models.contains(x) && marked.contains(catalog::ref_of(x))
                ==> offers(all, x)
        }),
    decreases marked.len(),
{
    if marked.len() > 0 {
        let front = marked.drop_last();
        let before = catalog::favorite_lines(models, favorites, front, active);
        lemma_favorites(models, favorites, front, active, x);
        lemma_chosen(models, marked.last(), models.len() as int);
        if let Some(i) = catalog::choice(models, marked.last()) {
            lemma_one_more_line(before, models[i], "Favorite"@, models, i, favorites, active);
        }
        if x.selectable && models.contains(x) && marked.contains(catalog::ref_of(x)) {
            let k = marked.index_of(catalog::ref_of(x));
            if k < front.len() {
                assert(front[k] == catalog::ref_of(x));
                assert(front.contains(catalog::ref_of(x)));
            } else {
                let j = models.index_of(x);
                assert(models[j].selectable && catalog::is_named(models[j], marked.last()));
                assert(catalog::choice(models, marked.last()) is Some);
            }
        }
    }
}

proof fn lemma_recents(
    models: Seq<ModelView>,
    favorites: Seq<RefView>,
    recents: Seq<RefView>,
    active: RefView,
    x: ModelView,
)
    ensures
        ({
            let all = catalog::recent_lines(models, favorites, recents, active);
            &&& are_lines(all, models, favorites, active)
            &&& x.selectable && models.contains(x) && recents.contains(catalog::ref_of(x))
                && !favorites.contains(catalog::ref_of(x)) ==> offers(all, x)
        }),
    decreases recents.len(),
{
    if recents.len() > 0 {
        let front = recents.drop_last();
        let before = catalog::recent_lines(models, favorites, front, active);
        lemma_recents(models, favorites, front, active, x);
        lemma_chosen(models, recents.last(), models.len() as int);
        if let Some(i) = catalog::choice(models, recents.last()) {
            lemma_one_more_line(before, models[i], "Recent"@, models, i, favorites, active);
        }
        if x.selectable && models.contains(x) && recents.contains(catalog::ref_of(x))
            && !favorites.contains(catalog::ref_of(x)) {
            let k = recents.index_of(catalog::ref_of(x));
            if k < front.len() {
                assert(front[k] == catalog::ref_of(x));
                assert(front.contains(catalog::ref_of(x)));
            } else {
                let j = models.index_of(x);
                assert(models[j].selectable && catalog::is_named(models[j], recents.last()));
                assert(catalog::choice(models, recents.last()) is Some);
            }
        }
    }
}

proof fn lemma_others(
    models: Seq<ModelView>,
    all_models: Seq<ModelView>,
    favorites: Seq<RefView>,
    recents: Seq<RefView>,
    active: RefView,
    x: ModelView,
)
    requires
        models.len() <= all_models.len(),
        models == all_models.take(models.len() as int),
    ensures
        ({
            let all = catalog::other_lines(models, favorites, recents, active);
            &&& are_lines(all, all_models, favorites, active)
            &&& x.selectable && models.contains(x) && !recents.contains(catalog::ref_of(x))
                && !favorites.contains(catalog::ref_of(x)) ==> offers(all, x)
        }),
    decreases models.len(),
{
    if models.len() > 0 {
        let front = models.drop_last();
        let before = catalog::other_lines(front, favorites, recents, active);
        assert(front =~= all_models.take(front.len() as int));
        lemma_others(front, all_models, favorites, recents, active, x);
        let m = models.last();
        assert(all_models[models.len() - 1] == m);
        if m.selectable {
            lemma_one_more_line(
                before,
                m,
                m.provider_name,
                all_models,
                models.len() - 1,
                favorites,
                active,
            );
        }
        if models.contains(x) && x != m {
            let j = models.index_of(x);
            assert(front[j] == x);
            assert(front.contains(x));
        }
    }
}

/// The list of models has a line for every model that can be chosen, and only lines of such; each
/// line is that of its model.
pub proof fn law_every_model_is_offered(
    models: Seq<ModelView>,
    favorites: Seq<RefView>,
    recents: Seq<RefView>,
    active: RefView,
    x: ModelView,
)
    ensures
        are_lines(
            catalog::catalogue(models, favorites, recents, active),
            models,
            favorites,
            active,
        ),
        x.selectable && models.contains(x) ==> offers(
            catalog::catalogue(models, favorites, recents, active),
            x,
        ),
{
    lemma_favorites(models, favorites, favorites, active, x);
    lemma_recents(models, favorites, recents, active, x);
    assert(models =~= models.take(models.len() as int));
    lemma_others(models, models, favorites, recents, active, x);
    let f = catalog::favorite_lines(models, favorites, favorites, active);
    let r = catalog::recent_lines(models, favorites, recents, active);
    let o = catalog::other_lines(models, favorites, recents, active);
    let all = f + r + o;
    let shown = catalog::catalogue(models, favorites, recents, active);
    sorting::law_sorted::<DialogItem>(all);
    broadcast use vstd::seq_lib::to_multiset_contains;

    assert forall|k: int| 0 <= k < shown.len() implies is_line(
        #[trigger] shown[k],
        models,
        favorites,
        active,
    ) by {
        assert(shown.contains(shown[k]));
        assert(all.to_multiset().count(shown[k]) > 0);
        let j = all.index_of(shown[k]);
        if j < f.len() {
            assert(f[j] == shown[k]);
        } else if j < f.len() + r.len() {
            assert(r[j - f.len()] == shown[k]);
        } else {
            assert(o[j - f.len() - r.len()] == shown[k]);
        }
    }
    if x.selectable && models.contains(x) {
        let j = if favorites.contains(catalog::ref_of(x)) {
            choose|k: int|
                0 <= k < f.len() && (#[trigger] f[k]).id == x.id && f[k].provider_id
                    == x.provider_id
        } else if recents.contains(catalog::ref_of(x)) {
            f.len() + choose|k: int|
                0 <= k < r.len() && (#[trigger] r[k]).id == x.id && r[k].provider_id
                    == x.provider_id
        } else {
            f.len() + r.len() + choose|k: int|
                0 <= k < o.len() && (#[trigger] o[k]).id == x.id && o[k].provider_id
                    == x.provider_id
        };
        assert(all[j].id == x.id && all[j].provider_id == x.provider_id);
        assert(all.contains(all[j]));
        assert(all.to_multiset().count(all[j]) > 0);
        assert(shown.contains(all[j]));
        let k = shown.index_of(all[j]);
        assert(shown[k].id == x.id);
    }
}

/// An effort is known by its own name, whatever the case of it.
pub proof fn law_efforts_are_known_by_name(e: ReasoningEffort)
    ensures
        reasoning::effort_named(e.name()) == Some(e),
{
    reveal_strlit("none");
    reveal_strlit("minimal");
    reveal_strlit("low");
    reveal_strlit("medium");
    reveal_strlit("high");
    reveal_strlit("xhigh");
    let name = e.name();
    assert("none"@.len() == 4 && "none"@[0] == 'n');
    assert("minimal"@.len() == 7);
    assert("low"@.len() == 3);
    assert("medium"@.len() == 6);
    assert("high"@.len() == 4 && "high"@[0] == 'h');
    assert("xhigh"@.len() == 5);
    text::lemma_is_trimmed(name);
    assert(text::lower_all(name) =~= name);
}

/// A step forward through the efforts goes from none to the first that there is, from each to the
/// one behind it, and from the last back to none.
pub proof fn law_efforts_step_forward(values: Seq<ReasoningEffort>, k: int)
    requires
        reasoning::choices(values).no_duplicates(),
        0 <= k < reasoning::choices(values).len(),
    ensures
        ({
            let all = reasoning::choices(values);
            &&& reasoning::next_choice(values, None, true) == Some(all[0])
            &&& reasoning::next_choice(values, Some(all[k]), true) == (if k + 1 < all.len() {
                Some(all[k + 1])
            } else {
                None
            })
            &&& values.contains(all[k]) && all[k] != ReasoningEffort::Off
        }),
{
    let all = reasoning::choices(values);
    reasoning::lemma_place_of(all, 0, k);
    values.lemma_filter_pred(|e: ReasoningEffort| e != ReasoningEffort::Off, k);
    values.lemma_filter_contains_rev(|e: ReasoningEffort| e != ReasoningEffort::Off, all[k]);
}

/// A model is asked for the effort that was chosen for it, where it takes that effort and it is
/// not off; else for none.
pub proof fn law_the_chosen_effort_is_asked_for(
    v: ReasoningView,
    provider: Seq<char>,
    model: Seq<char>,
    e: ReasoningEffort,
)
    ensures
        v.resolved(provider, model) == Some(e) <==> reasoning::override_of(
            v.overrides,
            provider,
            model,
        ) == Some(e) && e != ReasoningEffort::Off && (reasoning::capability_of(
            v.capabilities,
            provider,
            model,
        ) matches Some(values) && values.contains(e)),
{
}

/// A summary asks for no more effort than it must: none where the model can do without, else the
/// least that it takes.
pub proof fn law_summaries_ask_for_little(values: Seq<ReasoningEffort>, active: Option<ReasoningEffort>)
    ensures
        values.contains(ReasoningEffort::Off) ==> reasoning::compaction_effort(
            Some(values),
            active,
        ) is None,
        !values.contains(ReasoningEffort::Off) && values.contains(ReasoningEffort::Minimal)
            ==> reasoning::compaction_effort(Some(values), active) == Some(
            ReasoningEffort::Minimal,
        ),
        !values.contains(ReasoningEffort::Off) && !values.contains(ReasoningEffort::Minimal)
            && values.contains(ReasoningEffort::Low) ==> reasoning::compaction_effort(
            Some(values),
            active,
        ) == Some(ReasoningEffort::Low),
        reasoning::compaction_effort(None, active) is None,
{
}

/// Every agent that can lead and is not hidden is offered, under its own name and with what is
/// said of it, and no other is; the one that leads is lit.
pub proof fn law_agents_are_offered(v: Seq<AgentView>, active: Seq<char>, k: int)
    requires
        0 <= k < agents::agent_items(v, active).len(),
    ensures
        ({
            let i = agents::agent_items(v, active)[k];
            let a = agents::listed(v, true)[k];
            &&& agents::agent_items(v, active).len() == agents::listed(v, true).len()
            &&& i.id == a.name && i.name == a.name && i.description == a.description
            &&& i.active <==> text::lower_all(a.name) == text::lower_all(active)
            &&& v.contains(a)
            &&& !a.hidden && a.mode != agents::AgentMode::Subagent
        }),
        forall|j: int|
            0 <= j < v.len() && !(#[trigger] v[j]).hidden && v[j].mode
                != agents::AgentMode::Subagent ==> agents::listed(v, true).contains(v[j]),
{
    lemma_listed(v);
}

proof fn lemma_listed(v: Seq<AgentView>)
    ensures
        forall|k: int|
            0 <= k < agents::listed(v, true).len() ==> v.contains(
                #[trigger] agents::listed(v, true)[k],
            ) && !agents::listed(v, true)[k].hidden && agents::listed(v, true)[k].mode
                != agents::AgentMode::Subagent,
        forall|j: int|
            0 <= j < v.len() && !(#[trigger] v[j]).hidden && v[j].mode
                != agents::AgentMode::Subagent ==> agents::listed(v, true).contains(v[j]),
    decreases v.len(),
{
    if v.len() > 0 {
        let front = v.drop_last();
        lemma_listed(front);
        let before = agents::listed(front, true);
        let all = agents::listed(v, true);
        assert forall|k: int| 0 <= k < all.len() implies v.contains(#[trigger] all[k])
            && !all[k].hidden && all[k].mode != agents::AgentMode::Subagent by {
            if k < before.len() {
                assert(all[k] == before[k]);
                let j = front.index_of(before[k]);
                assert(v[j] == before[k]);
            } else {
                assert(v[v.len() - 1] == all[k]);
            }
        }
        assert forall|j: int|
            0 <= j < v.len() && !(#[trigger] v[j]).hidden && v[j].mode
                != agents::AgentMode::Subagent implies all.contains(v[j]) by {
            if j < v.len() - 1 {
                assert(front[j] == v[j]);
                let k = before.index_of(v[j]);
                assert(all[k] == v[j]);
            } else {
                assert(all[all.len() - 1] == v[j]);
            }
        }
    }
}

/// Every skill and every server has a line, under its own name; a server that is switched on is
/// lit, and no other.
pub proof fn law_skills_and_servers_are_listed(skills: Seq<SkillView>, servers: Seq<McpView>, k: int)
    ensures
        catalog::skill_lines(skills).len() == skills.len(),
        catalog::mcp_lines(servers).len() == servers.len(),
        0 <= k < skills.len() ==> skills.contains(sorting::sorted::<Skill>(skills)[k])
            && catalog::skill_lines(skills)[k].id == sorting::sorted::<Skill>(skills)[k].name,
        0 <= k < servers.len() ==> servers.contains(sorting::sorted::<McpServer>(servers)[k])
            && catalog::mcp_lines(servers)[k].id == sorting::sorted::<McpServer>(servers)[k].name
            && catalog::mcp_lines(servers)[k].active == sorting::sorted::<McpServer>(
            servers,
        )[k].enabled,
{
    sorting::law_sorted::<Skill>(skills);
    sorting::law_sorted::<McpServer>(servers);
    broadcast use vstd::seq_lib::to_multiset_contains;

    let a = sorting::sorted::<Skill>(skills);
    let b = sorting::sorted::<McpServer>(servers);
    if 0 <= k < skills.len() {
        assert(a.contains(a[k]));
        assert(skills.to_multiset().count(a[k]) > 0);
    }
    if 0 <= k < servers.len() {
        assert(b.contains(b[k]));
        assert(servers.to_multiset().count(b[k]) > 0);
    }
}

/// A failure is told with its reason, and a success with what it was about; nothing else changes.
pub proof fn law_outcomes_are_told(
    a: AppView,
    kind: TargetKind,
    label: Seq<char>,
    why: Seq<char>,
)
    ensures
        ({
            let r = outcomes::open_told(a, kind, label, Some(why));
            &&& r.effects.last() matches EffectView::Toast { level, text: t, .. } && level
                == ToastLevel::Error && why.is_suffix_of(t)
            &&& r == (AppView { effects: r.effects, ..a }) && r.effects.len() == a.effects.len() + 1
        }),
        ({
            let r = outcomes::open_told(a, kind, label, None);
            &&& r.effects.last() matches EffectView::Toast { level, text: t, .. } && level
                == ToastLevel::Info && label.is_suffix_of(t)
            &&& r == (AppView { effects: r.effects, ..a }) && r.effects.len() == a.effects.len() + 1
        }),
        ({
            let r = outcomes::copy_told(a, label, Some(why));
            label.len() > 0 ==> (r.effects.last() matches EffectView::Toast {
                level,
                text: t,
                ..
            } && level == ToastLevel::Error && why.is_suffix_of(t)) && r == (AppView {
                effects: r.effects,
                ..a
            })
        }),
        ({
            let r = outcomes::copy_told(a, label, None);
            label.len() > 0 ==> (r.effects.last() matches EffectView::Toast {
                level,
                text: t,
                ..
            } && level == ToastLevel::Info && t == label) && r == (AppView {
                effects: r.effects,
                ..a
            })
        }),
        ({
            let r = outcomes::folder_told(a, label, Some(why));
            r.effects.last() matches EffectView::Toast { level, text: t, .. } && level
                == ToastLevel::Error && why.is_suffix_of(t)
        }),
{
    let f = outcomes::open_failure(kind) + why;
    assert(f.subrange(f.len() - why.len(), f.len() as int) =~= why);
    let o = "Opened "@ + label;
    assert(o.subrange(o.len() - label.len(), o.len() as int) =~= label);
    let c = "Failed to copy: "@ + why;
    assert(c.subrange(c.len() - why.len(), c.len() as int) =~= why);
    let d = "Failed to open storage folder: "@ + why;
    assert(d.subrange(d.len() - why.len(), d.len() as int) =~= why);
}

/// A turn that fails fails with its own error, and one that comes to its end does not fail.
pub proof fn law_turns_fail_with_their_error(error: String, limit: u64)
    ensures
        outcomes::turn_error(TurnResult::Failed { error }) == Some(error@),
        outcomes::turn_error(TurnResult::Done) is None,
        outcomes::turn_error(TurnResult::TimedOut { limit }) matches Some(t) && text::contains(
            t,
            text::decimal(limit as nat),
        ),
{
    let n = text::decimal(limit as nat);
    let t = "Timeout: No response within "@ + n + " ms"@;
    let at = "Timeout: No response within "@.len() as int;
    assert(t.subrange(at, at + n.len()) =~= n);
    assert(text::occurs_at(t, n, at));
}

/// How long an answer took runs from when it was asked for to its end, where all three moments are
/// known and in order; and its tokens are those that the provider has counted.
pub proof fn law_answers_are_timed_from_the_question(asked: u64, began: u64, ended: u64, output: usize, counted: usize)
    requires
        asked <= began <= ended,
    ensures
        ({
            let t = AnswerTimes {
                asked: Some(asked),
                began: Some(began),
                ended: Some(ended),
                duration: None,
                output_tokens: Some(output),
                token_count: Some(counted),
            };
            usage::timing_of(t) matches Some(r) && r.total == ended - asked && r.writing == ended
                - began && r.tokens == output
        }),
        ({
            let t = AnswerTimes {
                asked: None,
                began: None,
                ended: None,
                duration: Some(ended),
                output_tokens: None,
                token_count: Some(counted),
            };
            usage::timing_of(t) matches Some(r) && r.total == ended && r.tokens == counted
        }),
{
}

/// The tokens of the messages add up: one message more counts as many as it has, unless it is the
/// one that is left out.
pub proof fn law_tokens_add_up(counts: Seq<usize>, more: usize, skipped: Option<int>)
    ensures
        usage::tokens_besides(counts.push(more), skipped) == usage::tokens_besides(
            counts,
            skipped,
        ) + (if skipped == Some(counts.len() as int) {
            0int
        } else {
            more as int
        }),
        usage::tokens_besides(Seq::<usize>::empty(), skipped) == 0,
{
    assert(counts.push(more).drop_last() =~= counts);
}

/// The line of usage begins with the tokens, as they were written out, and tells the share of the
/// window, the price, and what a compaction does or did.
pub proof fn law_usage_tells_the_tokens(a: AppView, f: UsageFacts)
    ensures
        f.tokens matches Some(t) ==> t@.is_prefix_of(usage::usage_text(a, f)),
        f.tokens is Some && f.percent is Some ==> text::contains(
            usage::counted_text(f),
            text::decimal(f.percent->0 as nat),
        ),
        f.tokens is Some && f.price is Some ==> (f.price->0)@.is_suffix_of(usage::counted_text(f)),
        (a.current matches Some(id) && app::compacts(a, id)) ==> f.compacting@.is_suffix_of(
            usage::usage_text(a, f),
        ),
        !(a.current matches Some(id) && app::compacts(a, id)) && f.last_compact is Some ==> (
        f.last_compact->0)@.is_suffix_of(usage::usage_text(a, f)),
{
    let counted = usage::counted_text(f);
    let all = usage::usage_text(a, f);
    if let Some(t) = f.tokens {
        let part = match f.percent {
            Some(p) => t@ + " ("@ + text::decimal(p as nat) + "%)"@,
            None => t@,
        };
        if let Some(p) = f.percent {
            let d = text::decimal(p as nat);
            let at = t@.len() + " ("@.len();
            assert(counted.subrange(at as int, (at + d.len()) as int) =~= d);
            assert(text::occurs_at(counted, d, at as int));
        }
        if let Some(price) = f.price {
            assert(counted.subrange(counted.len() - price@.len(), counted.len() as int)
                =~= price@);
        }
        assert(all.subrange(0, t@.len() as int) =~= t@);
    }
    if a.current matches Some(id) && app::compacts(a, id) {
        let n = f.compacting@.len();
        assert(all.subrange(all.len() - n, all.len() as int) =~= f.compacting@);
    } else if let Some(c) = f.last_compact {
        assert(all.subrange(all.len() - c@.len(), all.len() as int) =~= c@);
    }
}

/// A part of a title is the beginning of what it says, no longer than it may be, and all of it
/// where that is short enough.
pub proof fn law_title_parts_are_cut(value: Seq<char>, max: int)
    requires
        max > 3,
    ensures
        titles::title_part(value, max).len() <= max,
        value.len() <= max ==> titles::title_part(value, max) == value,
        value.len() > max ==> titles::title_part(value, max).take(max - 3) == value.take(max - 3),
{
    reveal_strlit("...");
    if value.len() > max {
        assert(titles::title_part(value, max).take(max - 3) =~= value.take(max - 3));
    }
}

/// The screen is drawn in the colours of the theme that is shown.
pub proof fn law_the_shown_theme_colours_the_screen(a: AppView)
    ensures
        a.ui.themes.themes.len() > 0 ==> (palette::palette(a) matches Palette::Listed {
            index,
            dark,
            transparent,
        } && index == a.ui.themes.index && dark == a.ui.themes.dark_mode && transparent
            == a.ui.themes.transparent),
        a.ui.themes.themes.len() == 0 ==> palette::palette(a) is BuiltIn,
{
}

/// A way to connect a provider leads to that provider: to its login, in the browser or without
/// one, or to the field for its key.
pub proof fn law_providers_are_connected_as_chosen(a: AppView, id: Seq<char>)
    requires
        a.ui.oauth_in_progress is None,
    ensures
        a.ui.connect_mode == ConnectDialogMode::OpenAIMethodSelection ==> {
            &&& answers::connection_chosen(a, "openai-oauth-browser"@, false).effects.last() == (
            EffectView::StartOAuth { login: OAuthProvider::OpenAI, headless: false })
            &&& answers::connection_chosen(a, "openai-oauth-headless"@, false).effects.last() == (
            EffectView::StartOAuth { login: OAuthProvider::OpenAI, headless: true })
            &&& answers::connection_chosen(a, "openai-api-key"@, false).effects.last() == (
            EffectView::AskApiKey { provider: "openai"@ })
        },
        a.ui.connect_mode == ConnectDialogMode::XAIMethodSelection ==> {
            &&& answers::connection_chosen(a, "xai-oauth-browser"@, false).effects.last() == (
            EffectView::StartOAuth { login: OAuthProvider::XAI, headless: false })
            &&& answers::connection_chosen(a, "xai-oauth-headless"@, false).effects.last() == (
            EffectView::StartOAuth { login: OAuthProvider::XAI, headless: true })
            &&& answers::connection_chosen(a, "xai-api-key"@, false).effects.last() == (
            EffectView::AskApiKey { provider: "xai"@ })
        },
        a.ui.connect_mode == ConnectDialogMode::ProviderSelection ==> {
            &&& answers::connection_chosen(a, id, true).effects.last() == (
            EffectView::ConnectLocal { provider: id })
            &&& id != "openai"@ && id != "xai"@ ==> answers::connection_chosen(
                a,
                id,
                false,
            ).effects.last() == (EffectView::AskApiKey { provider: id })
                && answers::connection_chosen(a, id, false).overlay_focus
                == OverlayFocus::ApiKeyInput
            &&& answers::connection_chosen(a, "openai"@, false).effects.last() == (
            EffectView::ShowConnectMethods { login: OAuthProvider::OpenAI })
            &&& answers::connection_chosen(a, "xai"@, false).effects.last() == (
            EffectView::ShowConnectMethods { login: OAuthProvider::XAI })
        },
{
    reveal(answers::login_begun);
    reveal(answers::login_started);
    reveal_strlit("openai");
    reveal_strlit("xai");
    reveal_strlit("openai-oauth-browser");
    reveal_strlit("openai-oauth-headless");
    reveal_strlit("openai-api-key");
    reveal_strlit("xai-oauth-browser");
    reveal_strlit("xai-oauth-headless");
    reveal_strlit("xai-api-key");
    assert("openai"@.len() == 6 && "xai"@.len() == 3);
    assert("openai-oauth-browser"@.len() == 20 && "openai-oauth-headless"@.len() == 21
        && "openai-api-key"@.len() == 14);
    assert("xai-oauth-browser"@.len() == 17 && "xai-oauth-headless"@.len() == 18
        && "xai-api-key"@.len() == 11);
}

} // verus!

//! What the user picks is what is done, and is done to what was picked.

use crate::answers;
use crate::answers::{ModelsAnswer, SessionsAnswer, ThemesAnswer};
use crate::app;
use crate::app::AppView;
use crate::arriving;
use crate::asking;
use crate::choices;
use crate::choices::{
    FindAnswer, MoveAnswer, PermissionAnswer, QuestionAnswer, RenameAnswer, TimelineAnswer,
};
use crate::dialogs;
use crate::focus::{BaseFocus, OverlayFocus};
use crate::keeping;
use crate::keys;
use crate::keys::{DialogAnswer, KeyScene};
use crate::prompting;
use crate::reasoning;
use crate::reasoning::ReasoningEffort;
use crate::requests;
use crate::session;
use crate::session::{SessionView, Workspace};
use crate::session_list::SessionsDialogFilter;
use crate::state::{EffectView, PermissionResponse};
use crate::stream;
use crate::text;
use crate::titles;
use crate::turns;
use vstd::prelude::*;

verus! {

/// The application after a dialog has answered.
#[verifier::opaque]
pub open spec fn after(a: AppView, answer: DialogAnswer, scene: KeyScene) -> AppView {
    keys::dialog_done(a, answer, scene).0
}

proof fn lemma_agents_route(a: AppView, chosen: Option<String>, visible: bool, scene: KeyScene)
    ensures
        after(a, DialogAnswer::Agents { chosen, visible }, scene) == answers::agent_answered(
            a,
            text::opt_view(chosen),
            visible,
        ),
{
    reveal(after);
}

proof fn lemma_models_route(a: AppView, answer: ModelsAnswer, visible: bool, scene: KeyScene)
    ensures
        after(a, DialogAnswer::Models { answer, visible }, scene) == answers::models_answered(
            a,
            answer@,
            visible,
        ),
{
    reveal(after);
}

proof fn lemma_themes_route(a: AppView, answer: ThemesAnswer, visible: bool, scene: KeyScene)
    ensures
        after(a, DialogAnswer::Themes { answer, visible }, scene) == answers::themes_answered(
            a,
            answer@,
            visible,
        ),
{
    reveal(after);
}

proof fn lemma_sessions_route(a: AppView, answer: SessionsAnswer, visible: bool, scene: KeyScene)
    ensures
        after(a, DialogAnswer::Sessions { answer, visible }, scene) == answers::sessions_answered(
            a,
            answer@,
            visible,
        ),
{
    reveal(after);
}

proof fn lemma_rename_route(a: AppView, answer: RenameAnswer, visible: bool, scene: KeyScene)
    ensures
        after(a, DialogAnswer::Rename { answer, visible }, scene) == choices::rename_answered(
            a,
            answer@,
            visible,
        ),
{
    reveal(after);
}

proof fn lemma_move_route(a: AppView, answer: MoveAnswer, scene: KeyScene)
    ensures
        after(a, DialogAnswer::Move { answer }, scene) == choices::move_answered(a, answer@),
{
    reveal(after);
}

proof fn lemma_permission_route(a: AppView, answer: PermissionAnswer, scene: KeyScene)
    ensures
        after(a, DialogAnswer::Permission { answer }, scene) == choices::permission_settled(
            a,
            answer,
        ),
{
    reveal(after);
}

proof fn lemma_question_route(a: AppView, answer: QuestionAnswer, scene: KeyScene)
    ensures
        after(a, DialogAnswer::Question { answer }, scene) == choices::question_settled(
            a,
            answer,
            false,
        ),
{
    reveal(after);
}

proof fn lemma_timeline_route(a: AppView, answer: TimelineAnswer, scene: KeyScene)
    ensures
        after(a, DialogAnswer::Timeline { answer }, scene) == choices::timeline_answered(a, answer),
{
    reveal(after);
}

proof fn lemma_find_route(a: AppView, answer: FindAnswer, scene: KeyScene)
    ensures
        after(a, DialogAnswer::Find { answer }, scene) == choices::find_answered(a, answer@),
{
    reveal(after);
}

/// The first permission request that waits is answered, and no other, with the very response that
/// was given; those behind it go on waiting in their order.
pub proof fn law_permissions_are_answered_as_given(
    a: AppView,
    response: PermissionResponse,
    scene: KeyScene,
)
    requires
        a.permissions.len() > 0,
    ensures
        ({
            let r = requests::permission_answered(a, response);
            &&& r.effects == a.effects.push(
                EffectView::AnswerPermission { request: a.permissions[0], response },
            )
            &&& r.permissions == a.permissions.drop_first()
            &&& r.questions == a.questions
            &&& r.terminals == a.terminals
            &&& r.chat == a.chat
            &&& after(
                a,
                DialogAnswer::Permission { answer: PermissionAnswer::Respond { response } },
                scene,
            ) == r
        }),
{
    lemma_permission_route(a, PermissionAnswer::Respond { response }, scene);
    reveal(requests::permission_answered);
    assert(a.permissions.skip(1) =~= a.permissions.drop_first());
}

/// Nothing is answered where nothing is asked.
pub proof fn law_no_answer_without_a_request(a: AppView, response: PermissionResponse)
    ensures
        a.permissions.len() == 0 ==> requests::permission_answered(a, response) == a,
        a.questions.len() == 0 ==> requests::question_answered(a) == a,
{
    reveal(requests::permission_answered);
    reveal(requests::question_answered);
}

/// The first question that waits is answered, and no other.
pub proof fn law_questions_are_answered_in_turn(a: AppView, scene: KeyScene)
    requires
        a.questions.len() > 0,
    ensures
        ({
            let r = requests::question_answered(a);
            &&& r.effects == a.effects.push(
                EffectView::AnswerQuestion { request: a.questions[0] },
            )
            &&& r.questions == a.questions.drop_first()
            &&& r.permissions == a.permissions
            &&& r.chat == a.chat
            &&& after(a, DialogAnswer::Question { answer: QuestionAnswer::Submit }, scene) == r
        }),
{
    lemma_question_route(a, QuestionAnswer::Submit, scene);
    reveal(requests::question_answered);
    assert(a.questions.skip(1) =~= a.questions.drop_first());
}

/// Questions that are turned down are all turned down, and the turn on the screen that asked them
/// is cancelled.
pub proof fn law_refused_questions_cancel_the_turn(a: AppView, id: Seq<char>, scene: KeyScene)
    requires
        a.current == Some(id),
    ensures
        ({
            let r = after(a, DialogAnswer::Question { answer: QuestionAnswer::Cancel }, scene);
            &&& r.questions.len() == 0
            &&& r.permissions == a.permissions
            &&& a.effects.push(EffectView::DropQuestions).is_prefix_of(r.effects)
            &&& (app::client_of(a, id) matches Some(c) && c.stream is Some) && !app::compacts(a, id)
                ==> r.effects == a.effects.push(EffectView::DropQuestions).push(
                EffectView::CancelStream { session_id: id },
            )
        }),
{
    lemma_question_route(a, QuestionAnswer::Cancel, scene);
    reveal(requests::question_left);
    reveal(turns::stream_cancelled);
    let b = requests::focus_restored(requests::questions_cleared(a));
    assert(app::client_of(b, id) == app::client_of(a, id));
    lemma_cancel_adds(b, id, b.sessions.len());
}

/// Two applications that differ in what is to be done alone, and in that by what comes behind.
pub open spec fn asks_more(a: AppView, r: AppView) -> bool {
    &&& r == (AppView { effects: r.effects, ..a })
    &&& a.effects.is_prefix_of(r.effects)
}

proof fn lemma_asks_one(a: AppView, e: EffectView)
    ensures
        asks_more(a, app::with_effect(a, e)),
        asks_more(a, a),
{
    assert(a.effects.push(e).subrange(0, a.effects.len() as int) =~= a.effects);
    assert(a.effects.subrange(0, a.effects.len() as int) =~= a.effects);
}

proof fn lemma_asks_two(a: AppView, b: AppView, c: AppView)
    requires
        asks_more(a, b),
        asks_more(b, c),
    ensures
        asks_more(a, c),
{
    let n = a.effects.len() as int;
    assert(c.effects.subrange(0, b.effects.len() as int).subrange(0, n) =~= c.effects.subrange(
        0,
        n,
    ));
}

proof fn lemma_cancel_adds(a: AppView, id: Seq<char>, steps: nat)
    ensures
        asks_more(a, turns::cancelled_up(a, id, steps)),
    decreases steps,
{
    let b = match app::client_of(a, id) {
        Some(c) => if c.stream is Some {
            app::with_effect(a, EffectView::CancelStream { session_id: id })
        } else if c.external_stream is Some {
            match session::parent_id_of(a.sessions, id) {
                Some(parent) => if steps > 0 {
                    turns::cancelled_up(a, parent, (steps - 1) as nat)
                } else {
                    a
                },
                None => a,
            }
        } else {
            a
        },
        None => a,
    };
    lemma_asks_one(a, EffectView::CancelStream { session_id: id });
    if let Some(parent) = session::parent_id_of(a.sessions, id) {
        if steps > 0 {
            lemma_cancel_adds(a, parent, (steps - 1) as nat);
        }
    }
    assert(asks_more(a, b));
    lemma_asks_one(b, EffectView::CancelCompaction);
    lemma_asks_two(a, b, app::with_effect(b, EffectView::CancelCompaction));
}

/// A model that is chosen is in use from then on, under its own provider, and is the one that is
/// remembered; the agent stays. The next prompt goes to it, unless the agent has a model of its
/// own.
pub proof fn law_chosen_models_are_used(
    a: AppView,
    provider: String,
    model: String,
    visible: bool,
    scene: KeyScene,
)
    ensures
        ({
            let r = after(
                a,
                DialogAnswer::Models { answer: ModelsAnswer::Chosen { provider, model }, visible },
                scene,
            );
            let n = a.effects.len() as int;
            &&& r.provider_name == provider@
            &&& r.model == model@
            &&& r.agent == a.agent
            &&& r.reasoning == a.reasoning
            &&& r.sessions == a.sessions && r.chat == a.chat && r.input == a.input
            &&& r.usage_stale
            &&& r.effects.len() == n + 2
            &&& r.effects.take(n) == a.effects
            &&& r.effects[n] == EffectView::SaveModel { provider: provider@, model: model@ }
            &&& r.effects[n + 1] matches EffectView::Toast { text: t, .. } && model@.is_suffix_of(t)
            &&& visible ==> r.overlay_focus == a.overlay_focus
            &&& !visible ==> r.overlay_focus == OverlayFocus::Nothing
            &&& (forall|i: int|
                #[trigger] asking::is_leader(a.agents, a.agent, i) ==> a.agents[i].model is None)
                ==> forall|p: Seq<char>, m: Seq<char>|
                #[trigger] asking::is_route(r, p, m) ==> p == provider@ && m == model@
        }),
{
    lemma_models_route(a, ModelsAnswer::Chosen { provider, model }, visible, scene);
    reveal(answers::model_answered);
    let r = after(
        a,
        DialogAnswer::Models { answer: ModelsAnswer::Chosen { provider, model }, visible },
        scene,
    );
    let n = a.effects.len() as int;
    assert(r.effects.take(n) =~= a.effects);
    let t = "Switched to: "@ + model@;
    assert(t.subrange(t.len() - model@.len(), t.len() as int) =~= model@);
    assert(r.agents == a.agents && r.agent == a.agent);
}

/// An agent that is chosen leads from then on, and the model stays; where none of that name can
/// lead, the one of before goes on leading.
pub proof fn law_chosen_agents_lead(a: AppView, name: String, visible: bool, scene: KeyScene, i: int)
    ensures
        ({
            let r = after(a, DialogAnswer::Agents { chosen: Some(name), visible }, scene);
            &&& asking::is_leader(a.agents, text::trim(name@), i) ==> r.agent
                == titles::agent_title(a.agents[i].name)
            &&& (forall|k: int| !#[trigger] asking::is_leader(a.agents, text::trim(name@), k))
                ==> r.agent == a.agent
            &&& r.provider_name == a.provider_name && r.model == a.model
            &&& r.sessions == a.sessions && r.chat == a.chat
            &&& r.overlay_focus == OverlayFocus::Nothing
        }),
{
    lemma_agents_route(a, Some(name), visible, scene);
    if asking::is_leader(a.agents, text::trim(name@), i) {
        asking::lemma_leader(a.agents, text::trim(name@), i, 0);
    }
    asking::lemma_no_leader(a.agents, text::trim(name@), 0);
}

/// Theme `k` is the first of that id.
pub open spec fn is_theme(a: AppView, id: Seq<char>, k: int) -> bool {
    &&& 0 <= k < a.ui.themes.themes.len()
    &&& a.ui.themes.themes[k].id == id
    &&& forall|j: int| 0 <= j < k ==> (#[trigger] a.ui.themes.themes[j]).id != id
}

proof fn lemma_theme(a: AppView, id: Seq<char>, k: int, i: int)
    requires
        is_theme(a, id, k),
        0 <= i <= k,
    ensures
        dialogs::theme_from(a.ui.themes.themes, id, i) == Some(k),
    decreases k - i,
{
    if i < k {
        assert(a.ui.themes.themes[i].id != id);
        lemma_theme(a, id, k, i + 1);
    }
}

/// A theme that is looked at is shown, with its own light or darkness, and is not remembered.
pub proof fn law_looked_at_themes_are_shown(a: AppView, id: String, k: int, scene: KeyScene)
    requires
        is_theme(a, id@, k),
        k <= usize::MAX,
    ensures
        ({
            let r = after(
                a,
                DialogAnswer::Themes { answer: ThemesAnswer::Preview { id }, visible: true },
                scene,
            );
            &&& r.ui.themes.index == k
            &&& r.ui.themes.dark_mode == a.ui.themes.themes[k].dark
            &&& r.ui.themes.committed == a.ui.themes.committed
            &&& r.effects == a.effects
        }),
{
    lemma_themes_route(a, ThemesAnswer::Preview { id }, true, scene);
    lemma_theme(a, id@, k, 0);
}

/// A theme that is chosen is shown and remembered under its own id, and stays when the dialog
/// goes.
pub proof fn law_chosen_themes_are_kept(a: AppView, id: String, k: int, scene: KeyScene)
    requires
        is_theme(a, id@, k),
        k <= usize::MAX,
    ensures
        ({
            let r = after(
                a,
                DialogAnswer::Themes { answer: ThemesAnswer::Chosen { id }, visible: false },
                scene,
            );
            let n = a.effects.len() as int;
            &&& r.ui.themes.index == k
            &&& r.ui.themes.dark_mode == a.ui.themes.themes[k].dark
            &&& r.ui.themes.transparent == a.ui.themes.transparent
            &&& r.effects.len() == n + 2
            &&& r.effects[n] == EffectView::SaveTheme { id: id@ }
            &&& r.overlay_focus == OverlayFocus::Nothing
        }),
{
    lemma_themes_route(a, ThemesAnswer::Chosen { id }, false, scene);
    lemma_theme(a, id@, k, 0);
    let t = dialogs::committed_theme(a.ui.themes, id@);
    assert(t.committed && t.index == k && t.dark_mode == a.ui.themes.themes[k].dark
        && t.transparent == a.ui.themes.transparent);
    assert(dialogs::theme_restored(t) == t);
}

/// Whether the themes let the terminal shine through is what was chosen, and is remembered.
pub proof fn law_transparency_is_kept(a: AppView, transparent: bool, scene: KeyScene)
    ensures
        ({
            let r = after(
                a,
                DialogAnswer::Themes {
                    answer: ThemesAnswer::Transparent { transparent },
                    visible: true,
                },
                scene,
            );
            &&& r.ui.themes.transparent == transparent
            &&& r.ui.themes.index == a.ui.themes.index
            &&& r.effects == a.effects.push(EffectView::SaveTransparency { transparent })
        }),
{
    lemma_themes_route(a, ThemesAnswer::Transparent { transparent }, true, scene);
}

/// An effort that is stepped to is to be remembered for the very model that was meant; and once it
/// is, it is the one that is set for that model, and every other model keeps its own.
pub proof fn law_efforts_are_set_for_their_model(
    a: AppView,
    provider: Seq<char>,
    model: Seq<char>,
    forward: bool,
    relist: bool,
    effort: Option<ReasoningEffort>,
    other_provider: Seq<char>,
    other_model: Seq<char>,
)
    requires
        reasoning::each_once(a.reasoning.overrides),
    ensures
        ({
            let r = dialogs::effort_cycled(a, provider, model, forward, relist);
            &&& r == a || (r.effects.len() == a.effects.len() + 1 && r == (AppView {
                effects: r.effects,
                ..a
            }) && (r.effects.last() matches EffectView::SaveEffort {
                provider: p,
                model: m,
                effort: e,
                relist: l,
            } && p == provider && m == model && l == relist && e == reasoning::next_choice(
                reasoning::capability_of(a.reasoning.capabilities, provider, model)->0,
                reasoning::override_of(a.reasoning.overrides, provider, model),
                forward,
            )))
            &&& r == a <==> !dialogs::has_efforts(a, provider, model)
        }),
        ({
            let r = dialogs::effort_saved(a, provider, model, effort, relist);
            &&& reasoning::override_of(r.reasoning.overrides, provider, model) == effort
            &&& !(other_provider == provider && other_model == model) ==> reasoning::override_of(
                r.reasoning.overrides,
                other_provider,
                other_model,
            ) == reasoning::override_of(a.reasoning.overrides, other_provider, other_model)
            &&& r.reasoning.capabilities == a.reasoning.capabilities
            &&& r.provider_name == a.provider_name && r.model == a.model && r.agent == a.agent
        }),
{
    reasoning::law_override_is_read(
        a.reasoning.overrides,
        provider,
        model,
        effort,
        other_provider,
        other_model,
    );
    let r = dialogs::effort_cycled(a, provider, model, forward, relist);
    if dialogs::has_efforts(a, provider, model) {
        assert(r.effects.len() != a.effects.len());
    }
}

/// No session but number `i` is another one.
pub open spec fn is_changed_only_at(a: AppView, r: AppView, i: int) -> bool {
    &&& r.sessions.len() == a.sessions.len()
    &&& forall|j: int|
        0 <= j < a.sessions.len() && j != i ==> #[trigger] r.sessions[j] == a.sessions[j]
}

/// A session gets the title that was entered for it; what was said in it stays, and every other
/// session keeps its own title.
pub proof fn law_renamed_sessions_bear_their_title(
    a: AppView,
    id: String,
    title: String,
    i: int,
    visible: bool,
    scene: KeyScene,
)
    requires
        session::session_at(a.sessions, id@) == Some(i),
    ensures
        ({
            let r = after(
                a,
                DialogAnswer::Rename { answer: RenameAnswer::Submit { id, title }, visible },
                scene,
            );
            &&& is_changed_only_at(a, r, i)
            &&& r.sessions[i] == (SessionView { title: title@, ..a.sessions[i] })
            &&& r.overlay_focus == OverlayFocus::SessionsDialog
            &&& r.current == a.current
        }),
{
    lemma_rename_route(a, RenameAnswer::Submit { id, title }, visible, scene);
    reveal(choices::renamed);
    session::lemma_session_from(a.sessions, id@, 0);
}

/// A session that is pinned or taken from its pin is the one that was meant; nothing else of it
/// changes, and nothing of the others.
pub proof fn law_pins_hold_their_session(
    a: AppView,
    id: String,
    pin: bool,
    i: int,
    visible: bool,
    scene: KeyScene,
)
    requires
        session::session_at(a.sessions, id@) == Some(i),
    ensures
        ({
            let r = after(
                a,
                DialogAnswer::Sessions {
                    answer: SessionsAnswer::Pin { id, stored: Ok(pin) },
                    visible,
                },
                scene,
            );
            &&& is_changed_only_at(a, r, i)
            &&& r.sessions[i] == (SessionView { pinned: pin, ..a.sessions[i] })
            &&& r.current == a.current && r.chat == a.chat
        }),
{
    lemma_sessions_route(a, SessionsAnswer::Pin { id, stored: Ok(pin) }, visible, scene);
    reveal(answers::pinned);
    session::lemma_session_from(a.sessions, id@, 0);
}

/// A session that is put into the archive is there, and leaves the screen if it was on it; from the
/// list of the archive it is brought back. Nothing else of it changes, and nothing of the others.
pub proof fn law_archived_sessions_are_put_aside(
    a: AppView,
    id: String,
    i: int,
    visible: bool,
    scene: KeyScene,
)
    requires
        session::session_at(a.sessions, id@) == Some(i),
    ensures
        ({
            let r = after(
                a,
                DialogAnswer::Sessions { answer: SessionsAnswer::Archive { id }, visible },
                scene,
            );
            let put = a.sessions_dialog.filter != SessionsDialogFilter::Archived;
            &&& is_changed_only_at(a, r, i)
            &&& r.sessions[i] == (SessionView { archived: put, ..a.sessions[i] })
            &&& put && a.current == Some(id@) ==> r.current is None && r.chat.messages.len() == 0
                && r.base_focus == BaseFocus::Home && r.input.text.len() == 0
            &&& !(put && a.current == Some(id@)) ==> r.current == a.current && r.chat == a.chat
                && r.input == a.input
        }),
{
    lemma_sessions_route(a, SessionsAnswer::Archive { id }, visible, scene);
    reveal(answers::archived);
    reveal(answers::archive_set);
    reveal(answers::session_left);
    reveal(prompting::home_shown);
    session::lemma_session_from(a.sessions, id@, 0);
    let put = a.sessions_dialog.filter != SessionsDialogFilter::Archived;
    let b = answers::archive_set(a, id@, put);
    asking::lemma_put_away_choice(b);
}

/// The session on the screen moves to the workspace that was picked, and what was said in it goes
/// along; no other session moves.
#[verifier::rlimit(50)]
pub proof fn law_sessions_move_where_asked(
    a: AppView,
    i: int,
    workspace: Workspace,
    scene: KeyScene,
)
    requires
        dialogs::current_place(a) == Some(i),
    ensures
        ({
            let r = after(
                a,
                DialogAnswer::Move { answer: MoveAnswer::To { workspace, stored: Ok(true) } },
                scene,
            );
            let s = r.sessions[i];
            &&& is_changed_only_at(a, r, i)
            &&& s.workspace_id == workspace.id
            &&& s.workspace_path == workspace.path@
            &&& s.workspace_name == workspace.name@
            &&& s.workspace_sort_order == workspace.sort_order
            &&& s.id == a.sessions[i].id && s.title == a.sessions[i].title && s.messages
                == a.sessions[i].messages && s.parent_id == a.sessions[i].parent_id && s.archived
                == a.sessions[i].archived && s.pinned == a.sessions[i].pinned
            &&& r.overlay_focus == OverlayFocus::Nothing
            &&& r.current == a.current
        }),
{
    lemma_move_route(a, MoveAnswer::To { workspace, stored: Ok(true) }, scene);
    reveal(choices::move_told);
    reveal(choices::moved);
    session::lemma_session_from(a.sessions, a.current->0, 0);
}

/// The session that is picked from the list comes to the screen, with what was said in it, and the
/// one that it takes the place of keeps what was on the screen; the list closes. No session is
/// changed by that, unless something waits in the one picked to go out.
#[verifier::rlimit(60)]
pub proof fn law_picked_sessions_are_shown(
    a: AppView,
    id: String,
    old_id: Seq<char>,
    visible: bool,
    scene: KeyScene,
)
    requires
        stream::exists_session(a, id@),
        a.current == Some(old_id),
        old_id != id@,
        !keeping::goes_out_when_shown(a, id@),
        !session::is_child(a.sessions, old_id),
    ensures
        ({
            let r = after(
                a,
                DialogAnswer::Sessions { answer: SessionsAnswer::Select { id }, visible },
                scene,
            );
            &&& r.current == Some(id@)
            &&& r.chat.messages == arriving::messages(a, id@)
            &&& r.sessions == a.sessions
            &&& arriving::messages(r, old_id) == a.chat.messages
            &&& app::client_of(r, old_id) matches Some(c) && c.input_draft == a.input.text
            &&& r.overlay_focus == OverlayFocus::Nothing
            &&& !r.sessions_dialog.visible
            &&& arriving::messages(a, id@).len() > 0 ==> r.base_focus == BaseFocus::Chat
        }),
{
    lemma_sessions_route(a, SessionsAnswer::Select { id }, visible, scene);
    reveal(stream::switched);
    reveal(stream::brought_in);
    let m = stream::brought_in(a, id@);
    keeping::lemma_left(a, old_id, id@);
    keeping::lemma_brought_in_work(a, id@, id@);
    keeping::lemma_put_away(a, old_id, id@);
    let p = app::put_away(a);
    let away = AppView { current: Some(id@), pending_session_title: None, ..p };
    assert(app::client_of(away, id@) == app::client_of(a, id@));
    keeping::lemma_ensured(away, id@, id@);
    let e = app::ensured(away, id@);
    assert(app::brought_up(away, id@) == app::brought_up(e, id@)) by {
        reveal(app::brought_up);
    }
    keeping::lemma_brought_up(e, id@, id@);
    assert(m.chat == app::brought_up(away, id@).chat);
    assert(app::saved_messages(away, id@) == app::saved_messages(a, id@));
    let f = stream::focused_base(m, id@);
    assert(app::client_of(f, id@) == app::client_of(m, id@));
    assert(app::client_of(f, old_id) == app::client_of(m, old_id));
    let r = after(
        a,
        DialogAnswer::Sessions { answer: SessionsAnswer::Select { id }, visible },
        scene,
    );
    assert(app::client_of(r, old_id) == app::client_of(m, old_id));
}

/// A message that is picked in the timeline is the one that is lit, scrolled to, and acted on.
pub proof fn law_timeline_picks_its_message(a: AppView, index: usize, scene: KeyScene)
    ensures
        ({
            let r = after(
                a,
                DialogAnswer::Timeline { answer: TimelineAnswer::Select { index } },
                scene,
            );
            &&& r.chat.highlighted == Some(index)
            &&& r.ui.message_actions_index == Some(index)
            &&& r.overlay_focus == OverlayFocus::MessageActions
            &&& r.effects.len() == a.effects.len() + 2
            &&& r.effects[a.effects.len() as int] == EffectView::ScrollToMessage { index }
            &&& r.chat.messages == a.chat.messages
        }),
        ({
            let r = after(
                a,
                DialogAnswer::Timeline { answer: TimelineAnswer::Navigate { index } },
                scene,
            );
            &&& r.chat.highlighted == Some(index)
            &&& r.overlay_focus == a.overlay_focus
            &&& r.effects == a.effects.push(EffectView::ScrollToMessage { index })
        }),
        ({
            let r = after(a, DialogAnswer::Timeline { answer: TimelineAnswer::Close }, scene);
            &&& r.chat.highlighted is None
            &&& r.overlay_focus == OverlayFocus::Nothing
            &&& r.effects == a.effects
        }),
{
    lemma_timeline_route(a, TimelineAnswer::Select { index }, scene);
    lemma_timeline_route(a, TimelineAnswer::Navigate { index }, scene);
    lemma_timeline_route(a, TimelineAnswer::Close, scene);
}

/// What is searched for is what was typed, and a step goes the way that was asked for.
pub proof fn law_searches_look_for_what_was_typed(
    a: AppView,
    query: String,
    forward: bool,
    matches: usize,
    scene: KeyScene,
)
    ensures
        ({
            let r = after(
                a,
                DialogAnswer::Find { answer: FindAnswer::Commit { query } },
                scene,
            );
            r.effects == a.effects.push(
                if text::is_blank(query@) {
                    EffectView::ClearSearch
                } else {
                    EffectView::Search { query: query@ }
                },
            )
        }),
        matches > 0 ==> after(
            a,
            DialogAnswer::Find { answer: FindAnswer::Go { forward, matches, query } },
            scene,
        ).effects == a.effects.push(EffectView::NextMatch { forward }),
        ({
            let r = after(a, DialogAnswer::Find { answer: FindAnswer::Close }, scene);
            &&& !r.find_active
            &&& a.overlay_focus == OverlayFocus::FindBar ==> r.overlay_focus
                == OverlayFocus::Nothing
        }),
{
    lemma_find_route(a, FindAnswer::Commit { query }, scene);
    lemma_find_route(a, FindAnswer::Go { forward, matches, query }, scene);
    lemma_find_route(a, FindAnswer::Close, scene);
}

/// A new session is begun on an empty home screen, and the one that was there is kept.
pub proof fn law_new_sessions_start_at_home(a: AppView, visible: bool, scene: KeyScene)
    ensures
        ({
            let r = after(
                a,
                DialogAnswer::Sessions { answer: SessionsAnswer::New, visible },
                scene,
            );
            &&& r.current is None
            &&& r.base_focus == BaseFocus::Home
            &&& r.chat.messages.len() == 0
            &&& r.input.text.len() == 0
            &&& r.sessions == a.sessions
            &&& r.overlay_focus == OverlayFocus::Nothing
            &&& r.pending_session_title is None
            &&& a.current matches Some(id) ==> (app::client_of(r, id) matches Some(c) && c.chat
                == a.chat)
        }),
{
    lemma_sessions_route(a, SessionsAnswer::New, visible, scene);
    reveal(prompting::blank_session);
    reveal(prompting::home_shown);
    asking::lemma_put_away_choice(a);
    if let Some(id) = a.current {
        keeping::lemma_put_away(a, id, id);
        let p = app::put_away(a);
        let r = after(a, DialogAnswer::Sessions { answer: SessionsAnswer::New, visible }, scene);
        assert(r.clients == p.clients);
    }
}

/// The list shows the kind of sessions that was asked for.
pub proof fn law_filters_are_taken(
    a: AppView,
    filter: SessionsDialogFilter,
    visible: bool,
    scene: KeyScene,
)
    ensures
        ({
            let r = after(
                a,
                DialogAnswer::Sessions { answer: SessionsAnswer::Filter { filter }, visible },
                scene,
            );
            &&& r.sessions_dialog.filter == filter
            &&& r.sessions == a.sessions && r.current == a.current && r.chat == a.chat
        }),
{
    lemma_sessions_route(a, SessionsAnswer::Filter { filter }, visible, scene);
}

} // verus!

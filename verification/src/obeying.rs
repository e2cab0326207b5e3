//! Keys, commands of the user's own and remote clients are obeyed to the letter.

use crate::agents;
use crate::agents::AgentView;
use crate::app;
use crate::app::AppView;
use crate::arriving;
use crate::asking;
use crate::commands;
use crate::commands::{FactsView, InputTypeView, ResultView};
use crate::dialogs;
use crate::focus::{BaseFocus, OverlayFocus};
use crate::keeping;
use crate::keys;
use crate::keys::{KeyCode, KeyNext, KeyPress, KeyScene, SelectedSuggestion};
use crate::message::MessageRole;
use crate::navigation;
use crate::prompting;
use crate::queue;
use crate::reasoning;
use crate::reasoning::ReasoningEffort;
use crate::remote;
use crate::remote::{EffortChange, SuggestionKind, SuggestionView};
use crate::selection;
use crate::session;
use crate::state;
use crate::state::{EffectView, InputView};
use crate::text;
use crate::titles;
use vstd::prelude::*;

verus! {

/// No dialog is open, and nothing is selected.
pub open spec fn is_at_the_prompt(a: AppView) -> bool {
    &&& a.overlay_focus == OverlayFocus::Nothing
    &&& a.ui.selection_bar is None
    &&& !selection::is_selected(a)
    &&& !navigation::in_child(a)
}

/// A key is pressed, and it is none of those that are looked at before the others.
proof fn lemma_prepared(a: AppView, key: KeyPress)
    requires
        is_at_the_prompt(a),
        key.code != KeyCode::Esc,
    ensures
        ({
            let b = keys::prepared(a, key);
            &&& b.overlay_focus == OverlayFocus::Nothing
            &&& b.ui.selection_bar is None
            &&& b.ui.key_overlay == OverlayFocus::Nothing
            &&& b.chat == a.chat && b.input == a.input && b.sessions == a.sessions && b.current
                == a.current && b.base_focus == a.base_focus && b.effects == a.effects
            &&& b.terminals == a.terminals && b.agents == a.agents && b.agent == a.agent
        }),
{
    reveal(keys::prepared);
}

/// At the prompt, Ctrl-P opens the palette, Ctrl-F the search of the chat, and Ctrl-X the list of
/// keys; what is typed stays.
pub proof fn law_keys_open_their_dialogs(a: AppView, key: KeyPress, scene: KeyScene)
    requires
        is_at_the_prompt(a),
        !key.release,
        key.ctrl && !key.shift && !key.alt && !key.command,
    ensures
        ({
            let r = keys::pressed(a, key, scene);
            &&& key.code == (KeyCode::Char { c: 'p' }) ==> r.0.overlay_focus
                == OverlayFocus::CommandPalette && r.1 == KeyNext::Done && r.0.input == a.input
            &&& key.code == (KeyCode::Char { c: 'f' }) && a.base_focus == BaseFocus::Chat
                && a.current is Some ==> r.0.overlay_focus == OverlayFocus::FindBar
                && r.0.find_active && r.1 == KeyNext::Done && r.0.input == a.input
            &&& key.code == (KeyCode::Char { c: 'x' }) ==> r.0.overlay_focus
                == OverlayFocus::WhichKey && r.1 == KeyNext::Done && r.0.input == a.input
        }),
{
    if key.code != KeyCode::Esc {
        lemma_prepared(a, key);
    }
}

/// At the prompt, Enter sends what is typed, Tab goes on to the next agent, and every other plain
/// key goes to the prompt; what is typed is not touched before.
#[verifier::rlimit(40)]
pub proof fn law_plain_keys_go_to_the_prompt(a: AppView, key: KeyPress, scene: KeyScene)
    requires
        is_at_the_prompt(a),
        !key.release,
        !key.ctrl && !key.shift && !key.alt && !key.command,
    ensures
        ({
            let r = keys::pressed(a, key, scene);
            &&& key.code == KeyCode::Enter ==> r.1 == KeyNext::Submit && r.0.input == a.input
            &&& key.code is Char ==> r.1 == KeyNext::Edit && r.0.input == a.input
            &&& key.code == KeyCode::Tab ==> r.1 == KeyNext::Done && r.0.agent
                == dialogs::agent_toggled(a).agent && r.0.input == a.input
            &&& key.code != KeyCode::Esc ==> r.0.sessions == a.sessions && r.0.chat.messages
                == a.chat.messages
        }),
{
    if key.code != KeyCode::Esc {
        lemma_prepared(a, key);
        let b = keys::prepared(a, key);
        assert(keys::shortcut(b, key) is None || keys::shortcut(b, key) == Some(
            keys::Shortcut::Terminal,
        ));
        assert(keys::bar_pressed(b, key, scene) == (b, false)) by {
            reveal(keys::bar_pressed);
        }
        assert(keys::later_pressed(b, key, scene) == keys::undialogued(b, key)) by {
            reveal(keys::later_pressed);
        }
        let c = keys::base_pressed(b, key);
        assert(key.code == KeyCode::Tab ==> c == (dialogs::agent_toggled(b), true)) by {
            reveal(keys::base_pressed);
        }
        assert(key.code != KeyCode::Tab ==> c == (b, false)) by {
            reveal(keys::base_pressed);
        }
        assert(!navigation::in_child(b));
        reveal(keys::prompt_pressed);
        reveal(selection::deselected);
    }
}

/// A suggestion that is filled in fills the prompt as it stands, and nothing runs; where none is
/// selected, nothing is filled in. The popup is empty afterwards.
pub proof fn law_suggestions_fill_the_prompt(a: AppView, s: SelectedSuggestion, scene: KeyScene)
    ensures
        ({
            let r = keys::suggestion_picked(a, Some(s), scene);
            (s.kind != SuggestionKind::Command || s.custom) ==> r.input == s.filled@ && r.effects
                == a.effects && r.sessions == a.sessions && r.chat == a.chat && !r.suggestions
        }),
        ({
            let r = keys::suggestion_picked(a, None, scene);
            r.input == a.input && r.effects == a.effects && !r.suggestions
        }),
{
}

/// A command of the application's own that is picked runs, and the prompt is empty then.
pub proof fn law_picked_commands_run(a: AppView, s: SelectedSuggestion, scene: KeyScene)
    requires
        s.kind == SuggestionKind::Command,
        !s.custom,
        s.read_as@ is Command,
    ensures
        ({
            let r = keys::suggestion_picked(a, Some(s), scene);
            let c = s.read_as@->Command_0;
            let ran = commands::commanded(
                AppView { input: state::empty_input(), ..a },
                c,
                scene.facts@,
            );
            &&& !r.suggestions
            &&& r.effects == ran.effects && r.sessions == ran.sessions && r.chat == ran.chat
            &&& r.input == ran.input
        }),
{
    reveal(keys::suggestion_run);
}

/// What the prompt has become by a key is what it is from then on; whether there is anything to
/// suggest decides whether the popup is there.
pub proof fn law_edits_are_kept(a: AppView, key: KeyPress, input: InputView, suggestions: bool)
    ensures
        ({
            let r = keys::edited(a, key, input, suggestions, true);
            &&& r.0.input == input
            &&& r.1 == KeyNext::Done
            &&& r.0.suggestions == suggestions
            &&& suggestions ==> r.0.overlay_focus == OverlayFocus::SuggestionsPopup
            &&& !suggestions ==> r.0.overlay_focus == OverlayFocus::Nothing
            &&& r.0.sessions == a.sessions && r.0.chat == a.chat && r.0.effects == a.effects
        }),
{
}

/// A prompt of the user's own command goes to the agent and the model that the command names, as
/// it stands, and afterwards those of before are chosen again.
pub proof fn law_custom_prompts_go_to_their_model(
    a: AppView,
    id: Seq<char>,
    prompt: Seq<char>,
    agent: Seq<char>,
    reference: Seq<char>,
    provider: Seq<char>,
    model: Seq<char>,
    name: Seq<char>,
)
    requires
        a.current == Some(id),
        !a.is_streaming,
        !text::is_blank(prompt),
        !text::is_blank(agent),
        asking::is_reference(reference, provider, model),
        a.chat.messages.len() < usize::MAX - 1,
    ensures
        ({
            let r = commands::result_applied(
                a,
                name,
                true,
                ResultView::RunPrompt { prompt, agent: Some(agent), model: Some(reference) },
            );
            let meant = AppView { agent, provider_name: provider, model, ..a };
            let n = a.chat.messages.len() as int;
            &&& asking::is_asked_to_answer(meant, r.effects.last(), id, None)
            &&& r.chat.messages.len() == n + 2
            &&& asking::is_said(meant, r.chat.messages[n], prompt, Seq::empty())
            &&& r.agent == a.agent
            &&& r.provider_name == a.provider_name
            &&& r.model == a.model
        }),
{
    reveal(prompting::custom_prompt_run);
    asking::law_references_name_their_model(reference, provider, model);
    let o = prompting::with_override(a, Some(agent), Some(reference));
    let meant = AppView { agent, provider_name: provider, model, ..a };
    text::lemma_blank(reference);
    text::lemma_is_trimmed(reference);
    text::lemma_is_trimmed(provider);
    assert(reference[0] == provider[0]);
    assert(!text::is_blank(reference));
    assert(o == meant);
    if prompt.len() == 0 {
        text::lemma_blank(prompt);
    }
    asking::law_prompts_go_to_the_chosen_model(o, id, prompt, Seq::empty());
}

/// Without an agent or a model of its own a command's prompt goes to those that are chosen; while
/// a turn runs it is refused, and nothing changes.
pub proof fn law_custom_prompts_keep_the_choice(
    a: AppView,
    id: Seq<char>,
    prompt: Seq<char>,
)
    requires
        a.current == Some(id),
        !text::is_blank(prompt),
        a.chat.messages.len() < usize::MAX - 1,
    ensures
        ({
            let r = prompting::custom_prompt_run(a, prompt, None, None);
            &&& !a.is_streaming ==> asking::is_asked_to_answer(a, r.effects.last(), id, None)
                && asking::is_said(
                a,
                r.chat.messages[a.chat.messages.len() as int],
                prompt,
                Seq::empty(),
            )
            &&& a.is_streaming ==> r == (AppView { effects: r.effects, ..a })
                && r.effects.last() is Toast
        }),
{
    reveal(prompting::custom_prompt_run);
    if prompt.len() == 0 {
        text::lemma_blank(prompt);
    }
    if !a.is_streaming {
        asking::law_prompts_go_to_the_chosen_model(a, id, prompt, Seq::empty());
    }
}

/// What a command answers is on record in the session behind what was said there, as an answer; a
/// failure as an error.
pub proof fn law_answers_of_commands_are_recorded(a: AppView, t: Seq<char>, i: int)
    requires
        dialogs::current_place(a) == Some(i),
    ensures
        ({
            let r = commands::answer_added(a, t);
            let n = a.chat.messages.len() as int;
            &&& r.chat.messages.len() == n + 1
            &&& r.chat.messages.take(n) == a.chat.messages
            &&& r.chat.messages[n].role == MessageRole::Assistant && r.chat.messages[n].content == t
                && r.chat.messages[n].is_complete
            &&& r.sessions[i].messages == a.sessions[i].messages.push(r.chat.messages[n])
        }),
        ({
            let r = commands::command_failed(a, t);
            let unknown = "Unknown command:"@.is_prefix_of(t);
            &&& unknown ==> r.chat == a.chat && (r.effects.last() matches EffectView::Toast {
                text: told,
                ..
            } && told == t)
            &&& !unknown ==> r.chat.messages.len() == a.chat.messages.len() + 1 && t.is_suffix_of(
                r.chat.messages.last().content,
            )
        }),
{
    reveal(commands::answer_added);
    let n = a.chat.messages.len() as int;
    session::lemma_session_from(a.sessions, a.current->0, 0);
    assert(commands::answer_added(a, t).chat.messages.take(n) =~= a.chat.messages);
    let e = "Error: "@ + t;
    assert(e.subrange(e.len() - t.len(), e.len() as int) =~= t);
}

/// What a remote client says is sent in the session on the screen, with its images, and the client
/// is told which session that is.
pub proof fn law_remote_prompts_are_sent(
    a: AppView,
    id: Seq<char>,
    prompt: Seq<char>,
    images: Seq<Seq<char>>,
    said: Seq<char>,
    f: FactsView,
    allowed: bool,
)
    requires
        a.current == Some(id),
        !a.is_streaming,
        said.len() > 0,
        !text::is_blank(prompt),
        a.chat.messages.len() < usize::MAX - 1,
    ensures
        ({
            let r = remote::submitted(a, prompt, images, InputTypeView::Message(said), f, allowed);
            let n = a.chat.messages.len() as int;
            &&& r.1 == Ok::<Seq<char>, Seq<char>>(id)
            &&& r.0.chat.messages.len() == n + 2
            &&& r.0.chat.messages.take(n) == a.chat.messages
            &&& asking::is_said(a, r.0.chat.messages[n], said, images)
            &&& asking::is_asked_to_answer(a, r.0.effects.last(), id, None)
        }),
{
    let p = queue::with_placeholders(prompt, images.len());
    queue::law_every_image_is_mentioned(prompt, images.len());
    text::lemma_blank(prompt);
    text::lemma_blank(p);
    let k = choose|k: int| 0 <= k < prompt.len() && !text::is_white(#[trigger] prompt[k]);
    assert(p.take(prompt.len() as int)[k] == p[k]);
    assert(!text::is_blank(p));
    keeping::lemma_ensured(a, id, id);
    let b = remote::ready(a);
    asking::law_prompts_go_to_the_chosen_model(b, id, said, images);
    let c = prompting::message_sent(b, said, images);
    assert(asking::is_same_choice(a, b));
    asking::lemma_same_route(a, b, c.effects.last(), id);
    assert(app::streams(c, id));
}

/// The effort that a remote client names is the one that is set: "off" and nothing at all mean
/// none, and only what the model takes is accepted.
pub proof fn law_named_efforts_are_set(a: AppView, e: ReasoningEffort, values: Seq<ReasoningEffort>)
    requires
        reasoning::capability_of(a.reasoning.capabilities, a.provider_name, a.model) == Some(
            values,
        ),
        e != ReasoningEffort::Off,
    ensures
        values.contains(e) ==> remote::effort_change(a, Some(e.name())) == (EffortChange::To {
            effort: Some(e),
        }),
        !values.contains(e) ==> remote::effort_change(a, Some(e.name())) is Refused,
        remote::effort_change(a, Some("off"@)) == (EffortChange::To { effort: None }),
        remote::effort_change(a, None) == (EffortChange::To { effort: None }),
{
    crate::offering::law_efforts_are_known_by_name(e);
    reveal_strlit("off");
    reveal_strlit("minimal");
    reveal_strlit("low");
    reveal_strlit("medium");
    reveal_strlit("high");
    reveal_strlit("xhigh");
    assert("off"@.len() == 3 && "off"@[0] == 'o' && "low"@[0] == 'l');
    assert("low"@.len() == 3 && "high"@.len() == 4 && "xhigh"@.len() == 5 && "medium"@.len() == 6
        && "minimal"@.len() == 7);
    let name = e.name();
    text::lemma_is_trimmed(name);
    text::lemma_is_trimmed("off"@);
    assert(text::lower_all("off"@) =~= "off"@);
    assert(text::lower_all(name) =~= name);
}

/// The agents that are suggested can be mentioned, and their names begin with what was typed,
/// whatever its case.
pub proof fn law_suggested_agents_begin_as_typed(v: Seq<AgentView>, query: Seq<char>, k: int)
    requires
        0 <= k < remote::agents_like(v, query).len(),
    ensures
        ({
            let s = remote::agents_like(v, query)[k];
            &&& s.kind == SuggestionKind::Agent
            &&& text::lower_all(query).is_prefix_of(text::lower_all(s.name))
            &&& exists|i: int|
                0 <= i < v.len() && (#[trigger] v[i]).name == s.name && v[i].description
                    == s.description && !v[i].hidden && v[i].mode != agents::AgentMode::Primary
        }),
    decreases v.len(),
{
    if v.len() > 0 {
        let front = v.drop_last();
        let before = remote::agents_like(front, query);
        let s = remote::agents_like(v, query)[k];
        if k < before.len() {
            law_suggested_agents_begin_as_typed(front, query, k);
            let i = choose|i: int|
                0 <= i < front.len() && (#[trigger] front[i]).name == s.name
                    && front[i].description == s.description && !front[i].hidden && front[i].mode
                    != agents::AgentMode::Primary;
            assert(v[i] == front[i]);
        } else {
            assert(v[v.len() - 1].name == s.name);
        }
    }
}

/// Behind a slash the commands are suggested, behind an at-sign the agents and then the files, and
/// nothing else anywhere.
pub proof fn law_suggestions_fit_what_was_typed(
    a: AppView,
    query: Seq<char>,
    listed: Seq<SuggestionView>,
    files: Seq<SuggestionView>,
    k: int,
)
    ensures
        ({
            let s = remote::suggestions(a, "slash"@, query, listed, files);
            0 <= k < s.len() ==> listed.contains(s[k]) && !titles::is_browser_unsupported(s[k].name)
        }),
        remote::suggestions(a, "mention"@, query, listed, files) == remote::agents_like(
            a.agents,
            query,
        ) + files,
{
    reveal_strlit("slash");
    reveal_strlit("mention");
    assert("slash"@.len() != "mention"@.len());
    let s = remote::suggestions(a, "slash"@, query, listed, files);
    if 0 <= k < s.len() {
        let keeps = |x: SuggestionView| !titles::is_browser_unsupported(x.name);
        listed.lemma_filter_pred(keeps, k);
        listed.lemma_filter_contains_rev(keeps, s[k]);
    }
}

/// What a running turn has written is saved when it is time, or when it has to be: the session
/// holds then what is shown, and the store is asked to keep it.
pub proof fn law_snapshots_save_what_is_shown(a: AppView, id: Seq<char>, i: int)
    requires
        session::session_at(a.sessions, id) == Some(i),
        app::client_of(a, id) matches Some(c) && (c.stream matches Some(s) && s.pending_snapshot
            && !s.asked_snapshot) && c.external_stream is None,
    ensures
        ({
            let r = app::snapshot(a, id, true);
            &&& app::saved_messages(r, id) == arriving::messages(a, id)
            &&& arriving::messages(r, id) == arriving::messages(a, id)
            &&& r.effects == a.effects.push(EffectView::StoreSnapshot { session_id: id })
            &&& app::client_of(r, id) matches Some(c) && (c.stream matches Some(s)
                && !s.pending_snapshot && s.asked_snapshot)
        }),
{
    reveal(app::snapshot);
    state::lemma_client_from(a.clients, id, 0);
    keeping::lemma_persisted(a, id);
    let p = app::persisted(a, id);
    let c = app::client_of(a, id)->0;
    keeping::lemma_with_client(p, id, app::with_asked(c), id);
    let w = app::with_client(p, id, app::with_asked(c));
    assert(app::saved_messages(w, id) == app::saved_messages(p, id));
    let r = app::snapshot(a, id, true);
    assert(r.clients == w.clients && r.sessions == w.sessions && r.chat == a.chat);
    assert(app::client_of(r, id) == app::client_of(w, id));
}

} // verus!

//! What is pointed at is what is acted on.

use crate::app;
use crate::app::AppView;
use crate::choices;
use crate::choices::{PermissionAnswer, WhichKeyAction};
use crate::commands::FactsView;
use crate::dialogs;
use crate::focus::OverlayFocus;
use crate::keeping;
use crate::keys;
use crate::keys::{DialogAnswer, KeyPress, KeyScene, LoginAnswer};
use crate::live;
use crate::message::MessageRole;
use crate::mouse;
use crate::mouse::{ChatTouch, MouseEvent, MouseKind, MouseNext, MouseScene, OpenTarget};
use crate::navigation;
use crate::paste;
use crate::requests;
use crate::selection;
use crate::session;
use crate::state;
use crate::state::{ClientView, EffectView, InputView, PermissionResponse, SoundEvent};
use crate::stream;
use crate::text;
use crate::turns;
use crate::ui::SelectionActionTarget;
use vstd::prelude::*;

verus! {

/// A permission that is given or denied with the mouse is given or denied as with a key, with the
/// very response that was clicked.
pub proof fn law_clicked_responses_are_given(
    a: AppView,
    m: MouseEvent,
    response: PermissionResponse,
    visible: bool,
    scene: KeyScene,
)
    requires
        a.permissions.len() > 0,
    ensures
        ({
            let r = mouse::mouse_answered(
                a,
                m,
                DialogAnswer::Permission { answer: PermissionAnswer::Respond { response } },
                visible,
                scene,
            );
            &&& r.0.effects == a.effects.push(
                EffectView::AnswerPermission { request: a.permissions[0], response },
            )
            &&& r.0.permissions == a.permissions.drop_first()
            &&& r.1 == MouseNext::Done
        }),
{
    reveal(requests::permission_answered);
    assert(a.permissions.skip(1) =~= a.permissions.drop_first());
}

/// A link that is to be copied is the one on the clipboard.
pub proof fn law_clicked_links_are_copied(
    a: AppView,
    m: MouseEvent,
    link: String,
    visible: bool,
    scene: KeyScene,
)
    ensures
        ({
            let r = mouse::mouse_answered(
                a,
                m,
                DialogAnswer::Login { answer: LoginAnswer::CopyLink { link } },
                visible,
                scene,
            );
            r.0.effects.len() == a.effects.len() + 1 && (r.0.effects.last()
                matches EffectView::CopyLink { link: l, .. } && l == link@)
        }),
        ({
            let r = keys::login_answered(a, LoginAnswer::CopyLink { link });
            r.0.effects.len() == a.effects.len() + 1 && (r.0.effects.last()
                matches EffectView::CopyLink { link: l, .. } && l == link@)
        }),
{
}

/// What a press in the transcript hits and can be opened is what is opened.
pub proof fn law_hit_targets_are_opened(a: AppView, m: MouseEvent, scene: MouseScene, t: OpenTarget)
    requires
        scene.target == Some(t),
    ensures
        ({
            let r = mouse::chat_pressed(a, m, scene);
            &&& r.0.effects == a.effects.push(
                EffectView::OpenTarget { target: t.target@, label: t.label@ },
            )
            &&& r.0.ui.pending_click is None
            &&& r.1 == MouseNext::Done
            &&& r.0.chat == a.chat
        }),
{
    reveal(mouse::chat_pressed);
}

/// A prompt that is pressed and released is the one that actions are offered for; pressed on one
/// message and released on another, none is, and answers of an agent are not clicked.
pub proof fn law_clicked_messages_are_acted_on(
    a: AppView,
    down: MouseEvent,
    up: MouseEvent,
    scene: MouseScene,
    at_release: MouseScene,
    touch: ChatTouch,
    i: usize,
)
    requires
        scene.target is None,
        scene.message == Some(i),
        i < a.chat.messages.len(),
        down.bare(),
        up.kind == MouseKind::UpLeft,
        !up.shift,
        touch.taken,
        !touch.has_selection,
        !touch.is_dragging,
        !a.chat.is_dragging,
    ensures
        ({
            let pressed = mouse::chat_pressed(a, down, scene).0;
            let r = mouse::chat_touched(pressed, up, touch, at_release).0;
            let can = a.chat.messages[i as int].role != MessageRole::Assistant;
            &&& can && at_release.message == Some(i) ==> r.ui.message_actions_index == Some(i)
                && r.chat.highlighted == Some(i) && r.overlay_focus == OverlayFocus::MessageActions
            &&& can && at_release.message is Some && at_release.message != Some(i)
                ==> r.overlay_focus == a.overlay_focus && r.ui.message_actions_index
                == a.ui.message_actions_index
            &&& !can && at_release.message == Some(i) ==> r.overlay_focus == a.overlay_focus
                && r.ui.message_actions_index == a.ui.message_actions_index
            &&& r.chat.messages == a.chat.messages
        }),
{
    reveal(mouse::chat_pressed);
    reveal(mouse::chat_touched);
}

/// The keys of the bar beside a selection do what they say: `y` copies it, `i` adds what is
/// selected in the chat to the prompt, and `e` opens the line in an editor.
pub proof fn law_keys_of_the_bar(a: AppView, key: KeyPress, scene: KeyScene)
    requires
        a.ui.selection_bar is Some,
    ensures
        ({
            let bar = a.ui.selection_bar->0;
            let r = keys::bar_pressed(a, key, scene);
            let t = text::opt_view(scene.chat_text);
            &&& key.just('y') ==> r == (selection::selection_copied(a, t), true)
            &&& key.just('i') && bar.target == SelectionActionTarget::Chat ==> r.0
                == selection::added_to_prompt(a, SelectionActionTarget::Chat, t)
            &&& key.just('e') && bar.can_open_in_editor && scene.editable ==> r.0.effects
                == a.effects.push(EffectView::OpenSelection) && r.1
        }),
{
    reveal(keys::bar_pressed);
}

/// What the prompt has become by the mouse, a paste or an image is what it is from then on.
pub proof fn law_changed_prompts_are_kept(
    a: AppView,
    m: MouseEvent,
    input: InputView,
    suggestions: bool,
    taken: bool,
    count: usize,
)
    ensures
        mouse::input_touched(a, m, input, suggestions, taken).input == input,
        mouse::input_touched(a, m, input, suggestions, taken).chat == a.chat,
        paste::text_put_in(a, input, suggestions).input == input,
        paste::text_put_in(a, input, suggestions).effects == a.effects,
        paste::images_attached(a, input, suggestions, count).input == input,
        paste::images_attached(a, input, suggestions, count).suggestions == suggestions,
        crate::outcomes::image_told(a, Ok((input, suggestions))).input == input,
{
    reveal(mouse::input_touched);
}

/// Turns of the wheel that came in one go count as many as they are, at least one, unless the
/// transcript has taken them all.
pub proof fn law_wheel_turns_are_counted(
    a: AppView,
    chat: crate::layout::Area,
    m: MouseEvent,
    notches: usize,
)
    ensures
        mouse::wheel_events(a, chat, m, notches, false) >= 1,
        notches > 0 ==> mouse::wheel_events(a, chat, m, notches, false) == notches,
        crate::layout::wheel_is_for_chat(a, chat, m.column, m.row) ==> mouse::wheel_events(
            a,
            chat,
            m,
            notches,
            true,
        ) == 0,
{
}

/// The next theme is the one behind the one that is shown, and behind the last the first; it is
/// remembered under its own id.
pub proof fn law_themes_go_round(a: AppView)
    requires
        a.ui.themes.index < a.ui.themes.themes.len() <= usize::MAX,
    ensures
        ({
            let r = dialogs::theme_cycled(a);
            let n = a.ui.themes.themes.len() as int;
            let next = if a.ui.themes.index + 1 < n {
                a.ui.themes.index + 1
            } else {
                0
            };
            &&& r.ui.themes.index == next
            &&& r.effects == a.effects.push(
                EffectView::SaveTheme { id: a.ui.themes.themes[next].id },
            )
            &&& r.ui.themes.themes == a.ui.themes.themes
        }),
{
    let n = a.ui.themes.themes.len() as int;
    let i = a.ui.themes.index as int;
    if i + 1 < n {
        vstd::arithmetic::div_mod::lemma_small_mod((i + 1) as nat, n as nat);
    } else {
        vstd::arithmetic::div_mod::lemma_mod_self_0(n);
    }
}

/// The tabs of a family are its sessions: first the one at the top, then those of the agents in
/// the order in which they were made; the one on the screen is lit, and no other.
pub proof fn law_tabs_are_the_family(a: AppView, i: int, k: int)
    requires
        dialogs::current_place(a) == Some(i),
        navigation::tabs_of(a) is Some,
        0 <= k < session::descendants(a.sessions, session::root_at(a.sessions, i)).len(),
    ensures
        ({
            let root = session::root_at(a.sessions, i);
            let kids = session::descendants(a.sessions, root);
            let t = navigation::tabs_of(a)->0;
            &&& t.tabs.len() == kids.len() + 1
            &&& t.root_session_id == a.sessions[root].id
            &&& t.tabs[0].session_id == a.sessions[root].id
            &&& t.tabs[0].active <==> a.sessions[i].id == a.sessions[root].id
            &&& t.tabs[k + 1].session_id == a.sessions[kids[k]].id
            &&& t.tabs[k + 1].active <==> a.sessions[i].id == a.sessions[kids[k]].id
            &&& t.is_child_session <==> a.sessions[i].id != a.sessions[root].id
        }),
{
}

/// A turn that comes to its end behind the screen is marked as unread, and one on the screen is
/// not; the end is heard, for the session that it is the end of.
pub proof fn law_ends_behind_the_screen_are_marked(a: AppView, id: Seq<char>)
    requires
        app::boundary(a, id) is Some,
        stream::exists_session(a, id),
        stream::queue_of(a, id).len() == 0,
        !turns::runs_tools(a, id),
    ensures
        ({
            let r = turns::finished(a, id);
            &&& r.effects.contains(
                EffectView::CompletionSound {
                    event: if session::is_child(a.sessions, id) {
                        SoundEvent::SubagentComplete
                    } else {
                        SoundEvent::Complete
                    },
                    session_id: id,
                },
            )
            &&& !app::is_current(a, id) ==> (app::client_of(r, id) matches Some(c)
                && c.unread_completed)
        }),
{
    let b = app::snapshot(a, id, true);
    crate::closing::lemma_snapshot(a, id, true);
    assert(b.current == a.current && session::is_child(b.sessions, id) == session::is_child(
        a.sessions,
        id,
    )) by {
        reveal(app::snapshot);
        session::lemma_session_from(a.sessions, id, 0);
        if app::can_save(a, id) {
            session::lemma_same_ids(a.sessions, app::persisted(a, id).sessions, id, 0);
        }
    }
    assert(!turns::runs_tools(b, id)) by {
        assert(app::chat_for(a, id) is Some && app::chat_for(b, id) is Some);
    }
    crate::closing::lemma_rested(b, id);
    let c = turns::rested(b, id);
    lemma_rested_marks(b, id);
    assert(!stream::can_submit(c, id)) by {
        assert(stream::queue_of(c, id).len() == 0);
    }
    let event = turns::completion_event(c, id);
    let e = EffectView::CompletionSound { event, session_id: id };
    let d = app::with_effect(c, e);
    assert(turns::finished(a, id) == app::rung(d, event)) by {
        reveal(turns::finished);
    }
    let r = turns::finished(a, id);
    assert(r.effects[c.effects.len() as int] == e);
    assert(app::client_of(r, id) == app::client_of(c, id));
}

proof fn lemma_finalized_keeps(b: AppView, id: Seq<char>)
    requires
        app::boundary(b, id) is Some,
        stream::exists_session(b, id),
    ensures
        ({
            let f = turns::finalized(b, id, None);
            &&& f.current == b.current
            &&& session::is_child(f.sessions, id) == session::is_child(b.sessions, id)
            &&& app::client_of(f, id) matches Some(c) && c.id == id
        }),
{
    reveal(turns::finalized);
    session::lemma_session_from(b.sessions, id, 0);
    state::lemma_client_from(b.clients, id, 0);
    let turn = app::boundary(b, id)->0;
    let chat = crate::transcript::turn_settled(
        app::transcript(b, id),
        turn.boundary as int,
        turn.model,
        turn.provider,
        None,
    );
    let w = app::with_transcript(b, id, chat);
    keeping::lemma_with_transcript(b, id, chat);
    keeping::lemma_ensured(b, id, id);
    let own = ClientView { chat, ..app::client_of(b, id)->0 };
    keeping::lemma_with_client(b, id, own, id);
    assert(app::client_of(w, id) is Some && (app::client_of(w, id)->0).id == id);
    let p = app::persisted(w, id);
    assert(w.sessions == b.sessions);
    session::lemma_same_ids(w.sessions, p.sessions, id, 0);
    assert(p.clients == w.clients);
    assert(app::client_of(p, id) == app::client_of(w, id));
}

proof fn lemma_cleaned_keeps(m: AppView, id: Seq<char>)
    requires
        app::client_of(m, id) matches Some(c) && c.id == id,
    ensures
        ({
            let c = turns::cleaned(m, id);
            &&& c.sessions == m.sessions
            &&& app::client_of(c, id) matches Some(x) && x.unread_completed == (app::client_of(
                m,
                id,
            )->0).unread_completed
        }),
{
    let x = app::client_of(m, id)->0;
    keeping::lemma_with_client(m, id, turns::client_at_rest(x), id);
    let n = turns::client_rested(m, id);
    assert(app::client_of(n, id) == Some(turns::client_at_rest(x)));
    let c = turns::cleaned(m, id);
    assert(c.clients == n.clients && c.sessions == n.sessions) by {
        reveal(turns::cleaned);
        reveal(turns::requests_dropped);
    }
    assert(app::client_of(c, id) == app::client_of(n, id));
}

proof fn lemma_rested_marks(b: AppView, id: Seq<char>)
    requires
        app::boundary(b, id) is Some,
        stream::exists_session(b, id),
    ensures
        ({
            let c = turns::rested(b, id);
            &&& session::is_child(c.sessions, id) == session::is_child(b.sessions, id)
            &&& !app::is_current(b, id) ==> (app::client_of(c, id) matches Some(x)
                && x.unread_completed)
        }),
{
    lemma_finalized_keeps(b, id);
    let f = turns::finalized(b, id, None);
    let s = app::status_set(f, id, session::SessionStatus::Idle, None);
    session::lemma_session_from(f.sessions, id, 0);
    if session::session_at(f.sessions, id) is Some {
        session::lemma_same_ids(f.sessions, s.sessions, id, 0);
    }
    assert(session::is_child(s.sessions, id) == session::is_child(f.sessions, id));
    assert(app::client_of(s, id) == app::client_of(f, id));
    let own = app::client_of(s, id)->0;
    let marked = ClientView { unread_completed: true, ..own };
    keeping::lemma_with_client(s, id, marked, id);
    let m = if app::is_current(s, id) {
        s
    } else {
        app::with_client(s, id, marked)
    };
    lemma_cleaned_keeps(m, id);
    assert(turns::rested(b, id) == turns::cleaned(m, id)) by {
        reveal(turns::rested);
    }
}

/// The keys behind the leader key do what their list says.
pub proof fn law_leader_keys_do_what_they_say(a: AppView, f: FactsView)
    ensures
        ({
            let up = choices::which_key_answered(a, WhichKeyAction::ScrollUp, f);
            let down = choices::which_key_answered(a, WhichKeyAction::ScrollDown, f);
            &&& up.effects == a.effects.push(EffectView::ScrollChat { down: false })
            &&& down.effects == a.effects.push(EffectView::ScrollChat { down: true })
            &&& up.overlay_focus == OverlayFocus::Nothing && down.overlay_focus
                == OverlayFocus::Nothing
        }),
        choices::which_key_answered(a, WhichKeyAction::ToggleThinking, f).chat.thinking_visible
            == !a.chat.thinking_visible,
        !choices::which_key_answered(a, WhichKeyAction::Quit, f).running,
        choices::which_key_answered(a, WhichKeyAction::Nothing, f) == (AppView {
            overlay_focus: OverlayFocus::Nothing,
            ..a
        }),
{
}

/// The spinner goes through its pictures one by one, and round.
pub proof fn law_the_spinner_turns(a: AppView)
    requires
        a.ui.spinner_frame < 6,
    ensures
        ({
            let r = live::spinner_advanced(a);
            &&& r.ui.spinner_frame == (if a.ui.spinner_frame == 5 {
                0int
            } else {
                a.ui.spinner_frame + 1
            })
            &&& r.ui.last_spinner == a.now
        }),
{
    reveal(live::spinner_advanced);
}

} // verus!

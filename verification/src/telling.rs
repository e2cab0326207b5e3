//! What the screen, the lists and the notices say is what is so.

use crate::app;
use crate::app::AppView;
use crate::asking;
use crate::commands;
use crate::dialogs;
use crate::events;
use crate::focus::{BaseFocus, OverlayFocus};
use crate::history;
use crate::keeping;
use crate::message;
use crate::message::MessageRole;
use crate::navigation;
use crate::queue;
use crate::queue::{QueuedMessageView, QueuedView};
use crate::remote;
use crate::screen;
use crate::screen::FrameScene;
use crate::session;
use crate::session_list;
use crate::session_list::RowView;
use crate::startup;
use crate::startup::Shell;
use crate::state::{EffectView, ToastLevel};
use crate::stream;
use crate::tasks;
use crate::tasks::{Disconnection, LocalConnection};
use crate::text;
use crate::titles;
use crate::turns;
use crate::workspace;
use vstd::prelude::*;

verus! {

/// What is left of a text without the white space around it is a piece of the text: only white
/// space is missing, and none is left at its ends.
pub proof fn law_trimming_takes_white_space_alone(s: Seq<char>)
    ensures
        exists|i: int, j: int|
            0 <= i <= j <= s.len() && text::trim(s) == #[trigger] s.subrange(i, j) && (forall|k: int|
                0 <= k < i || j <= k < s.len() ==> text::is_white(#[trigger] s[k])),
        text::trim(s).len() > 0 ==> !text::is_white(text::trim(s)[0]) && !text::is_white(
            text::trim(s).last(),
        ),
{
    text::lemma_trimmed(s);
    let i = lemma_front(s);
    let t = text::trim_start(s);
    let n = lemma_back(t);
    assert(t.take(n) =~= s.subrange(i, i + n));
    assert forall|k: int| 0 <= k < i || i + n <= k < s.len() implies text::is_white(
        #[trigger] s[k],
    ) by {
        if k >= i + n {
            assert(t[k - i] == s[k]);
        }
    }
}

proof fn lemma_front(s: Seq<char>) -> (i: int)
    ensures
        0 <= i <= s.len(),
        text::trim_start(s) == s.skip(i),
        forall|k: int| 0 <= k < i ==> text::is_white(#[trigger] s[k]),
    decreases s.len(),
{
    if s.len() > 0 && text::is_white(s[0]) {
        let rest = s.drop_first();
        let i = lemma_front(rest);
        assert(rest.skip(i) =~= s.skip(i + 1));
        assert forall|k: int| 0 <= k < i + 1 implies text::is_white(#[trigger] s[k]) by {
            if k > 0 {
                assert(rest[k - 1] == s[k]);
            }
        }
        i + 1
    } else {
        assert(s.skip(0) =~= s);
        0
    }
}

proof fn lemma_back(s: Seq<char>) -> (n: int)
    ensures
        0 <= n <= s.len(),
        text::trim_end(s) == s.take(n),
        forall|k: int| n <= k < s.len() ==> text::is_white(#[trigger] s[k]),
    decreases s.len(),
{
    if s.len() > 0 && text::is_white(s.last()) {
        let rest = s.drop_last();
        let n = lemma_back(rest);
        assert(rest.take(n) =~= s.take(n));
        assert forall|k: int| n <= k < s.len() implies text::is_white(#[trigger] s[k]) by {
            if k < s.len() - 1 {
                assert(rest[k] == s[k]);
            }
        }
        n
    } else {
        assert(s.take(s.len() as int) =~= s);
        s.len() as int
    }
}

/// A number that is written out is read as that number.
pub proof fn law_numbers_read_back(n: usize)
    ensures
        text::parse_usize(text::decimal(n as nat)) == Some(n),
{
    text::lemma_decimal(n as nat);
}

/// The frame of a chat tells of the session on the screen: its title, what waits in it, and whether
/// it is at work; and the line of status the folder, the branch and the provider.
pub proof fn law_frames_tell_the_session(a: AppView, scene: FrameScene, i: int, k: int)
    requires
        dialogs::current_place(a) == Some(i),
    ensures
        ({
            let c = screen::chat_plan(a, scene);
            let s = screen::status_of(a);
            &&& c.title == Some(a.sessions[i].title)
            &&& c.streaming == a.is_streaming
            &&& c.compacting == (a.compaction is Some)
            &&& c.queued.len() == stream::queue_of(a, a.current->0).len()
            &&& 0 <= k < c.queued.len() ==> c.queued[k] == queue::preview_of(
                stream::queue_of(a, a.current->0)[k],
            )
            &&& s.provider == a.provider_name
            &&& s.branch == a.ui.title.branch
            &&& !text::is_blank(a.sessions[i].workspace_path) ==> s.path == text::trim(
                a.sessions[i].workspace_path,
            )
            &&& a.base_focus == BaseFocus::Home ==> s.agent == a.agent && s.model == a.model
        }),
{
    session::lemma_session_from(a.sessions, a.current->0, 0);
}

/// What answers in a session of the user's is told as the agent that leads, with the model that
/// answers just now or the one that would.
pub proof fn law_the_answering_model_is_shown(a: AppView, id: Seq<char>)
    requires
        a.current == Some(id),
        !session::is_child(a.sessions, id),
    ensures
        navigation::shown_now(a).0 == a.agent,
        (app::client_of(a, id) matches Some(c) && (c.stream matches Some(s) && s.model is Some))
            ==> Some(navigation::shown_now(a).1) == (((app::client_of(a, id)->0).stream)->0).model,
        app::client_of(a, id) is None && (forall|i: int|
            #[trigger] asking::is_leader(a.agents, a.agent, i) ==> a.agents[i].model is None)
            ==> navigation::shown_now(a).1 == a.model,
{
    asking::lemma_no_leader(a.agents, a.agent, 0);
}

/// What waits is told in a line of its own: the text on one line, and a `/compact` as such.
pub proof fn law_previews_tell_what_waits(m: QueuedMessageView)
    ensures
        !text::is_blank(m.text) ==> queue::preview_of(QueuedView::Message(m)).len() == m.text.len()
            && (forall|k: int|
            0 <= k < m.text.len() ==> #[trigger] queue::preview_of(QueuedView::Message(m))[k] == (if m.text[k]
                == '\n' {
                ' '
            } else {
                m.text[k]
            })),
        queue::preview_of(QueuedView::Compact) == "/compact"@,
{
}

/// The line of a session ends with its title, and begins with a mark only where it is at work,
/// unread or pinned.
pub proof fn law_lines_end_with_the_title(row: RowView, loading: Seq<char>)
    ensures
        row.title.is_suffix_of(session_list::row_name(row, loading)),
        !row.is_streaming && !row.unread_completed && !row.pinned ==> session_list::row_name(
            row,
            loading,
        ) == row.title,
        row.is_streaming ==> loading.is_prefix_of(session_list::row_name(row, loading)),
{
    let r = session_list::row_name(row, loading);
    reveal_strlit("");
    assert(r.subrange(r.len() - row.title.len(), r.len() as int) =~= row.title);
    if !row.is_streaming && !row.unread_completed && !row.pinned {
        assert(r =~= row.title);
    }
    if row.is_streaming {
        assert(r.subrange(0, loading.len() as int) =~= loading);
    }
}

/// To undo is offered for what the user said, and for nothing else; the text of an answer can be
/// copied alone where it has one. To copy and to fork are always offered.
pub proof fn law_actions_fit_the_message(a: AppView, p: int, idx: usize)
    requires
        dialogs::current_place(a) == Some(p),
        idx < a.sessions[p].messages.len(),
    ensures
        ({
            let m = a.sessions[p].messages[idx as int];
            let all = history::message_actions(a, idx);
            &&& all.contains(history::copy_action())
            &&& all.contains(history::fork_action())
            &&& m.role == MessageRole::User ==> all.last() == history::undo_action()
            &&& m.role != MessageRole::User ==> all.last() == history::fork_action()
            &&& m.role == MessageRole::Assistant && !text::is_blank(m.content) ==> all[1]
                == history::markdown_action()
            &&& all.len() <= 3
        }),
{
    let all = history::message_actions(a, idx);
    assert(all[0] == history::copy_action());
    if history::has_markdown(a, idx) {
        assert(all[2] == history::fork_action());
    } else {
        assert(all[1] == history::fork_action());
    }
}

/// A folder is meant as it is written: an absolute one as it stands, any other as seen from the
/// folder so far, and one behind a tilde as seen from the user's own.
pub proof fn law_folders_are_meant_as_written(a: AppView, raw: Seq<char>, home: Seq<char>)
    requires
        text::trim(raw) == raw,
        raw.len() > 0,
    ensures
        raw[0] == '/' ==> workspace::folder_meant(a, raw, Some(home)) == Some(raw),
        raw[0] != '/' && raw[0] != '~' && workspace::workspace_path(a).len() > 0
            && workspace::workspace_path(a).last() != '/' ==> workspace::folder_meant(
            a,
            raw,
            Some(home),
        ) == Some(workspace::workspace_path(a) + seq!['/'] + raw),
        raw == seq!['~'] && home.len() > 0 && home[0] == '/' ==> workspace::folder_meant(
            a,
            raw,
            Some(home),
        ) == Some(home),
        raw.len() > 2 && raw[0] == '~' && raw[1] == '/' && raw[2] != '/' && home.len() > 0
            && home[0] == '/' && home.last() != '/' ==> workspace::folder_meant(
            a,
            raw,
            Some(home),
        ) == Some(home + raw.skip(1)),
{
    reveal_strlit("~");
    reveal_strlit("~/");
    assert("~"@ =~= seq!['~']);
    assert("~/"@ =~= seq!['~', '/']);
    assert(!text::is_blank(raw));
    let base = workspace::workspace_path(a);
    if raw[0] == '/' {
        assert("~/"@.is_prefix_of(raw) ==> raw.subrange(0, 2)[0] == raw[0]);
    }
    if raw[0] != '/' && raw[0] != '~' {
        assert("~/"@.is_prefix_of(raw) ==> raw.subrange(0, 2)[0] == raw[0]);
        assert(base.push('/') + raw =~= base + seq!['/'] + raw);
    }
    if raw == seq!['~'] {
        assert(raw == "~"@);
    }
    if raw.len() > 2 && raw[0] == '~' && raw[1] == '/' && raw[2] != '/' {
        assert(raw.subrange(0, 2) =~= "~/"@);
        let rest = raw.skip(2);
        assert(rest[0] == raw[2]);
        assert(home.push('/') + rest =~= home + raw.skip(1));
    }
}

/// What became of a provider is told by its name, and of a failure with its reason.
pub proof fn law_connections_are_told_by_name(a: AppView, name: String, why: String, models: usize)
    ensures
        tasks::disconnection_level(Disconnection::RemovalFailed { name, why }) == ToastLevel::Error,
        tasks::disconnection_level(Disconnection::Done { name }) == ToastLevel::Info,
        name@.is_suffix_of(tasks::disconnection_text(Disconnection::Done { name })),
        name@.is_prefix_of(tasks::disconnection_text(Disconnection::NotConnected { name })),
        why@.is_suffix_of(tasks::disconnection_text(Disconnection::RemovalFailed { name, why })),
        why@.is_suffix_of(tasks::disconnection_text(Disconnection::StoreFailed { why })),
        ({
            let r = tasks::local_told(a, LocalConnection::Failed { name, why });
            r.effects.last() matches EffectView::Toast { level, text: t, .. } && level
                == ToastLevel::Error && why@.is_suffix_of(t) && r == (AppView {
                effects: r.effects,
                ..a
            })
        }),
        ({
            let r = tasks::local_told(a, LocalConnection::Done { name, models });
            r.effects.last() == EffectView::ResetConnect && (r.effects[a.effects.len() as int]
                matches EffectView::Toast { level, text: t, .. } && level == ToastLevel::Success
                && text::contains(t, name@))
        }),
{
    let d = tasks::disconnection_text(Disconnection::Done { name });
    assert(d.subrange(d.len() - name@.len(), d.len() as int) =~= name@);
    let n = tasks::disconnection_text(Disconnection::NotConnected { name });
    assert(n.subrange(0, name@.len() as int) =~= name@);
    let f = tasks::disconnection_text(Disconnection::RemovalFailed { name, why });
    assert(f.subrange(f.len() - why@.len(), f.len() as int) =~= why@);
    let s = tasks::disconnection_text(Disconnection::StoreFailed { why });
    assert(s.subrange(s.len() - why@.len(), s.len() as int) =~= why@);
    let l = "Failed to connect "@ + name@ + ": "@ + why@;
    assert(l.subrange(l.len() - why@.len(), l.len() as int) =~= why@);
    let c = "Connected "@ + name@ + " ("@ + text::decimal(models as nat) + " local models)"@;
    let at = "Connected "@.len() as int;
    assert(c.subrange(at, at + name@.len()) =~= name@);
    assert(text::occurs_at(c, name@, at));
}

/// The application starts on an empty home screen, with the model and in the folder that it was
/// started with, and nothing under way.
pub proof fn law_the_start_is_empty(
    s: Shell,
    m: Seq<char>,
    provider: Seq<char>,
    model: Seq<char>,
    agent: Option<Seq<char>>,
)
    ensures
        ({
            let r = startup::fresh(s, Some(m), agent);
            &&& asking::is_reference(m, provider, model) ==> r.provider_name == provider && r.model
                == model
            &&& r.running && r.sessions.len() == 0 && r.current is None && r.chat.messages.len()
                == 0 && r.input.text.len() == 0 && r.effects.len() == 0
            &&& r.base_focus == BaseFocus::Home && !r.is_streaming && r.compaction is None
            &&& r.permissions.len() == 0 && r.questions.len() == 0 && r.terminals.len() == 0
            &&& r.ui.cwd == s.cwd@ && r.workspace == s.workspace@ && r.next_session_id
                == s.next_session_id@
            &&& r.notifications.focused
            &&& r.ui.themes.index == s.theme_index && r.ui.themes.dark_mode == s.dark_mode
                && r.ui.themes.transparent == s.transparent
        }),
{
    if asking::is_reference(m, provider, model) {
        asking::law_references_name_their_model(m, provider, model);
    }
}

/// The command to leave leaves; no other does.
pub proof fn law_exit_leaves(a: AppView, name: Seq<char>, t: Seq<char>)
    ensures
        !commands::succeeded(a, "exit"@, t).running,
        name != "exit"@ ==> commands::succeeded(a, name, t).running == a.running,
{
    reveal(commands::screen_after);
    reveal(commands::answer_added);
}

/// A result that comes while nothing waits and no end was put off is only recorded: the turn goes
/// on.
pub proof fn law_results_let_the_turn_go_on(a: AppView, id: Seq<char>)
    requires
        !events::is_deferred(a, id),
        stream::queue_of(a, id).len() == 0,
    ensures
        events::after_result(a, id) == (a, true),
{
}

/// Messages that wait stop the turn once they may, and go out with the guidance that the turn was
/// interrupted for them.
pub proof fn law_waiting_messages_interrupt_the_turn(a: AppView, id: Seq<char>)
    requires
        turns::can_interrupt_for_queue(a, id),
        stream::can_submit(turns::stopped_for_queue(a, id), id),
        queue::leading(stream::queue_of(turns::stopped_for_queue(a, id), id)).len() > 0,
    ensures
        ({
            let r = turns::interrupted_for_queue(a, id);
            let s = turns::stopped_for_queue(a, id);
            let n = s.chat.messages.len() as int;
            &&& r.effects.last() matches EffectView::StartStream { session_id, guidance, .. }
                && session_id == id && guidance == Some(
                message::INTERRUPTED_TURN_CONTINUATION_GUIDANCE@,
            )
            &&& r.chat.messages.len() == n + 2
            &&& r.chat.messages[n].role == MessageRole::User
            &&& r.chat.messages[n].content == queue::combined(
                queue::leading(stream::queue_of(s, id)),
            ).text
            &&& app::streams(r, id)
        }),
{
    let s = turns::stopped_for_queue(a, id);
    keeping::law_waiting_messages_go_out(
        s,
        id,
        Some(message::INTERRUPTED_TURN_CONTINUATION_GUIDANCE@),
    );
}

/// A session that is archived for a remote client is put aside, and leaves the screen if it was on
/// it; no other session changes.
pub proof fn law_remote_archiving_puts_aside(a: AppView, id: Seq<char>, i: int)
    requires
        session::session_at(a.sessions, id) == Some(i),
    ensures
        ({
            let r = remote::remote_archived(a, id);
            &&& r.sessions.len() == a.sessions.len()
            &&& r.sessions[i].archived && r.sessions[i].messages == a.sessions[i].messages
            &&& forall|j: int|
                0 <= j < a.sessions.len() && j != i ==> #[trigger] r.sessions[j] == a.sessions[j]
            &&& a.current == Some(id) ==> r.current is None
            &&& a.current != Some(id) ==> r.current == a.current && r.chat == a.chat
        }),
{
    reveal(crate::answers::archive_set);
    reveal(crate::answers::session_left);
    reveal(crate::prompting::home_shown);
    session::lemma_session_from(a.sessions, id, 0);
    asking::lemma_put_away_choice(crate::answers::archive_set(a, id, true));
}

/// A lost connection is told as such, with what is left of the error.
pub proof fn law_lost_connections_are_warned_of(detail: Seq<char>)
    requires
        detail.len() > 0,
        text::trim(detail) == detail,
        detail[0] != ':',
    ensures
        titles::lost_connection_warning("stream disconnected before completion: "@ + detail)
            matches Some(w) && detail.is_suffix_of(w),
{
    let mark = "stream disconnected before completion"@;
    let error = "stream disconnected before completion: "@ + detail;
    reveal_strlit("stream disconnected before completion");
    reveal_strlit("stream disconnected before completion: ");
    reveal_strlit("Streaming failed:");
    text::lemma_is_trimmed(detail);
    text::lemma_is_trimmed(error);
    assert(error[0] == 's');
    assert(error.last() == detail.last());
    assert(text::trim(error) == error);
    assert(!"Streaming failed:"@.is_prefix_of(error)) by {
        if "Streaming failed:"@.is_prefix_of(error) {
            assert(error.subrange(0, 17)[0] == 'S');
        }
    }
    assert(titles::bare_stream_error(error) == error);
    let low = text::lower_all(error);
    assert(low.subrange(0, mark.len() as int) =~= mark) by {
        assert forall|k: int| 0 <= k < mark.len() implies low[k] == mark[k] by {
            assert(error[k] == "stream disconnected before completion: "@[k]);
        }
    }
    let rest = error.skip(mark.len() as int);
    assert(rest =~= seq![':', ' '] + detail);
    assert(rest.drop_first() =~= seq![' '] + detail);
    let after = seq![' '] + detail;
    assert(text::trim_start_of(rest, ':') == after) by {
        assert(text::trim_start_of(after, ':') == after);
    }
    assert(after.drop_first() =~= detail);
    assert(text::trim_start(after) == text::trim_start(detail));
    assert(text::trim(after) == detail);
    let w = titles::lost_connection_warning(error)->0;
    assert(w.subrange(w.len() - detail.len(), w.len() as int) =~= detail);
}

/// What is inserted into a prompt stands where the cursor was, between what stood before it and
/// what stood behind it.
pub proof fn law_insertions_keep_the_prompt(i: crate::state::InputView, added: Seq<char>)
    requires
        i.cursor <= i.text.len(),
    ensures
        ({
            let r = crate::state::inserted(i, added);
            let at = i.cursor as int;
            &&& r.len() == i.text.len() + added.len()
            &&& r.take(at) == i.text.take(at)
            &&& r.subrange(at, at + added.len()) == added
            &&& r.skip(at + added.len()) == i.text.skip(at)
        }),
{
    let r = crate::state::inserted(i, added);
    let at = i.cursor as int;
    assert(r.take(at) =~= i.text.take(at));
    assert(r.subrange(at, at + added.len()) =~= added);
    assert(r.skip(at + added.len()) =~= i.text.skip(at));
}

/// A model can be set for a remote client exactly where the list has a line for it.
pub proof fn law_listed_models_can_be_set(
    items: Seq<crate::ui::ItemView>,
    provider: Seq<char>,
    model: Seq<char>,
    i: int,
)
    requires
        0 <= i,
    ensures
        crate::catalog::listed_from(items, provider, model, i) <==> exists|k: int|
            i <= k < items.len() && (#[trigger] items[k]).provider_id == provider && items[k].id
                == model,
    decreases items.len() - i,
{
    if i < items.len() {
        law_listed_models_can_be_set(items, provider, model, i + 1);
    }
}

/// What a model takes is what is on record of it; of several that go by one name the last counts.
pub proof fn law_models_take_what_is_recorded(
    models: Seq<crate::catalog::ModelView>,
    m: crate::catalog::ModelView,
    provider: Seq<char>,
    model: Seq<char>,
)
    ensures
        ({
            let after = crate::catalog::capabilities_of(models.push(m));
            &&& crate::reasoning::capability_of(after, m.provider_id, m.id) == Some(m.efforts)
            &&& !(provider == m.provider_id && model == m.id) ==> crate::reasoning::capability_of(
                after,
                provider,
                model,
            ) == crate::reasoning::capability_of(
                crate::catalog::capabilities_of(models),
                provider,
                model,
            )
        }),
{
    let before = crate::catalog::capabilities_of(models);
    let all = models.push(m);
    assert(all.drop_last() =~= models);
    let after = crate::catalog::capabilities_of(all);
    assert(after[0].provider == m.provider_id && after[0].model == m.id);
    if !(provider == m.provider_id && model == m.id) {
        lemma_capability_skip(after, before, provider, model, 0);
    }
}

proof fn lemma_capability_skip(
    after: Seq<crate::reasoning::CapabilityView>,
    before: Seq<crate::reasoning::CapabilityView>,
    provider: Seq<char>,
    model: Seq<char>,
    i: int,
)
    requires
        after.len() == before.len() + 1,
        forall|k: int| 0 <= k < before.len() ==> #[trigger] before[k] == after[k + 1],
        0 <= i,
    ensures
        crate::reasoning::capability_from(after, provider, model, i + 1)
            == crate::reasoning::capability_from(before, provider, model, i),
    decreases before.len() - i,
{
    if i < before.len() {
        assert(before[i] == after[i + 1]);
        lemma_capability_skip(after, before, provider, model, i + 1);
    }
}

/// A step to the right leads to the session of the agent that was made next, and from the last to
/// the first; a step to the left the other way.
pub proof fn law_steps_go_the_way_they_point(s: Seq<session::SessionView>, i: int, k: int)
    requires
        0 <= i < s.len(),
        0 <= k < navigation::kids_of(s, i).len(),
        navigation::kids_of(s, i)[k] == i,
        navigation::kids_of(s, i).len() > 1,
    ensures
        ({
            let kids = navigation::kids_of(s, i);
            let n = kids.len() as int;
            &&& navigation::sibling(s, i, true) == Some(
                if k + 1 < n {
                    kids[k + 1]
                } else {
                    kids[0]
                },
            )
            &&& navigation::sibling(s, i, false) == Some(
                if k > 0 {
                    kids[k - 1]
                } else {
                    kids[n - 1]
                },
            )
        }),
{
    let kids = navigation::kids_of(s, i);
    session::lemma_descendants(s, session::root_at(s, i), s.len() as int);
    assert(kids.contains(i));
    assert(kids.index_of(i) == k);
}

/// The sessions of the agents stand in the order in which they were made.
pub proof fn law_families_are_in_order(s: Seq<session::SessionView>, root: int, n: int, j: int, k: int)
    requires
        0 <= n <= s.len(),
        0 <= j < k < session::descendants_before(s, root, n).len(),
    ensures
        session::descendants_before(s, root, n)[j] < session::descendants_before(s, root, n)[k] < n,
    decreases n,
{
    session::lemma_descendants(s, root, n);
    if n > 0 {
        let before = session::descendants_before(s, root, n - 1);
        session::lemma_descendants(s, root, n - 1);
        if k < before.len() {
            law_families_are_in_order(s, root, n - 1, j, k);
        } else {
            assert(session::descendants_before(s, root, n)[j] == before[j]);
        }
    }
}

/// In the session of an agent the arrow to the right leads on, the one to the left back, and the
/// one up to the session at the top.
pub proof fn law_arrows_lead_through_the_family(a: AppView, key: crate::keys::KeyPress)
    requires
        key.bare(),
        a.base_focus == BaseFocus::Chat,
        navigation::in_child(a),
    ensures
        key.code == crate::keys::KeyCode::Right ==> crate::keys::base_pressed(a, key).0
            == navigation::gone_to(a, navigation::target_sibling(a, true)),
        key.code == crate::keys::KeyCode::Left ==> crate::keys::base_pressed(a, key).0
            == navigation::gone_to(a, navigation::target_sibling(a, false)),
        key.code == crate::keys::KeyCode::Up ==> crate::keys::base_pressed(a, key).0
            == navigation::gone_to(a, navigation::target_parent(a)),
{
    reveal(crate::keys::base_pressed);
}

/// Of the requests that wait, permissions have the screen before questions, and those before
/// terminals; where none waits, none has it.
pub proof fn law_requests_have_their_rank(p: nat, q: nat, t: nat)
    ensures
        p > 0 ==> crate::focus::claimed_overlay(p, q, t) == Some(OverlayFocus::PermissionDialog),
        p == 0 && q > 0 ==> crate::focus::claimed_overlay(p, q, t) == Some(
            OverlayFocus::QuestionDialog,
        ),
        p == 0 && q == 0 && t > 0 ==> crate::focus::claimed_overlay(p, q, t) == Some(
            OverlayFocus::TerminalSessionDialog,
        ),
        p == 0 && q == 0 && t == 0 ==> crate::focus::claimed_overlay(p, q, t) is None,
{
}

/// A compaction that is asked for waits behind the turn that is under way, and is begun at once
/// where none is, for the session on the screen; while one runs, no other is begun.
pub proof fn law_compactions_wait_for_the_turn(a: AppView, id: Seq<char>)
    requires
        a.current == Some(id),
    ensures
        ({
            let r = dialogs::compact_commanded(a);
            let busy = app::streams(a, id) || a.is_streaming;
            &&& a.compaction is Some ==> r == (AppView { effects: r.effects, ..a })
            &&& a.compaction is None && busy && !stream::has_compact(stream::queue_of(a, id))
                ==> stream::queue_of(r, id) == stream::queue_of(a, id).push(QueuedView::Compact)
            &&& a.compaction is None && busy && stream::has_compact(stream::queue_of(a, id))
                ==> stream::queue_of(r, id) == stream::queue_of(a, id)
            &&& a.compaction is None && !busy ==> r.effects == a.effects.push(
                EffectView::SelectForCompaction { session_id: id },
            )
            &&& r.chat == a.chat && r.sessions == a.sessions
        }),
{
    reveal(dialogs::compact_commanded);
    reveal(stream::compaction_asked);
    keeping::lemma_ensured(a, id, id);
    let e = app::ensured(a, id);
    let c = app::client_of(e, id)->0;
    let more = crate::state::ClientView {
        queued_items: c.queued_items.push(QueuedView::Compact),
        ..c
    };
    keeping::lemma_with_client(e, id, more, id);
    assert(c.queued_items =~= stream::queue_of(a, id));
    let q = stream::queued(a, QueuedView::Compact);
    let told = app::toasted(q, ToastLevel::Info, "Queued /compact"@, 2);
    assert(app::client_of(told, id) == app::client_of(q, id));
}

/// To cancel reaches the turn that is under way in the session; of a subagent, whose work is part
/// of another's turn, the turn of the one that called it.
pub proof fn law_cancelling_reaches_the_turn(a: AppView, id: Seq<char>, parent: Seq<char>)
    requires
        app::client_of(a, id) is Some,
        !app::compacts(a, id),
        !app::compacts(a, parent),
    ensures
        (app::client_of(a, id)->0).stream is Some ==> turns::stream_cancelled(a, id).effects
            == a.effects.push(EffectView::CancelStream { session_id: id }),
        (app::client_of(a, id)->0).stream is None && (app::client_of(a, id)->0).external_stream
            is Some && session::parent_id_of(a.sessions, id) == Some(parent) && (app::client_of(
            a,
            parent,
        ) matches Some(c) && c.stream is Some) ==> turns::stream_cancelled(a, id).effects
            == a.effects.push(EffectView::CancelStream { session_id: parent }),
        (app::client_of(a, id)->0).stream is None && (app::client_of(a, id)->0).external_stream
            is None ==> turns::stream_cancelled(a, id) == a,
{
    reveal(turns::stream_cancelled);
    session::lemma_session_from(a.sessions, id, 0);
    reveal_with_fuel(turns::cancelled_up, 3);
}

/// A session is made as it was asked for: with its own id and title, below its parent, in the
/// workspace that is current, and with nothing said in it yet.
pub proof fn law_sessions_are_made_as_asked(
    id: Seq<char>,
    parent: Option<Seq<char>>,
    title: Seq<char>,
    w: session::WorkspaceView,
    now: u64,
)
    ensures
        ({
            let s = session::new_session(id, parent, title, w, now);
            &&& s.id == id && s.parent_id == parent && s.title == title
            &&& s.workspace_id == w.id && s.workspace_path == w.path && s.workspace_name == w.name
                && s.workspace_sort_order == w.sort_order
            &&& s.messages.len() == 0 && s.status == session::SessionStatus::Idle && s.error is None
            &&& !s.archived && !s.pinned && s.updated_at == now
        }),
{
}

/// What is switched in the palette is as it was switched, and is remembered.
pub proof fn law_palette_switches_what_it_says(a: AppView, on: bool)
    ensures
        crate::choices::palette_action_done(
            a,
            crate::choices::PaletteAction::SetThinkingVisible { visible: on },
        ).chat.thinking_visible == on,
        ({
            let r = crate::choices::palette_action_done(
                a,
                crate::choices::PaletteAction::SetCompactMode { enabled: on },
            );
            &&& r.ui.compact_mode == on
            &&& a.ui.compact_mode != on ==> r.effects[a.effects.len() as int] == (
            EffectView::SaveCompactMode { compact: on })
            &&& a.ui.compact_mode == on ==> r == a
        }),
{
}

/// The agent that was asked for on the command line leads, or else the one that is configured; and
/// one that cannot lead is refused.
pub proof fn law_the_asked_agent_leads(
    a: AppView,
    c: startup::Configuration,
    name: Seq<char>,
)
    requires
        !a.ui.startup_hydrated,
        !text::is_blank(name),
    ensures
        a.ui.pending_agent == Some(name) && startup::startup_refusal(a, c) is None
            ==> startup::hydrated(a, c).agent == titles::agent_title(text::trim(name)),
        a.ui.pending_agent is None && text::opt_view(c.default_agent) == Some(name)
            ==> startup::hydrated(a, c).agent == name,
        a.ui.pending_agent == Some(name) && (forall|i: int|
            !#[trigger] asking::is_leader(
                crate::agents::agents_view(c.agents@),
                text::trim(name),
                i,
            )) ==> startup::startup_refusal(a, c) is Some && startup::hydrated(a, c) == a,
{
    reveal(startup::configured);
    asking::lemma_no_leader(crate::agents::agents_view(c.agents@), text::trim(name), 0);
}

} // verus!

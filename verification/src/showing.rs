//! What is shown, copied and begun with is what is there.

use crate::agents;
use crate::app::AppView;
use crate::asking;
use crate::dialogs;
use crate::focus::OverlayFocus;
use crate::navigation;
use crate::paste;
use crate::paste::{PasteNext, PastedImages};
use crate::reasoning;
use crate::selection;
use crate::session;
use crate::session::{SessionStatus, SessionView};
use crate::session_list;
use crate::session_list::{RowView, SessionRow, SessionsDialogFilter};
use crate::sorting;
use crate::startup;
use crate::startup::Configuration;
use crate::state::{ClientView, EffectView};
use crate::terminal_title;
use crate::text;
use crate::titles;
use crate::ui::{SelectionActionTarget, TerminalTitleItem};
use crate::workspace;
use crate::workspace::Folder;
use vstd::prelude::*;

verus! {

/// What is copied is the very text that is selected, that of the chat before that of the prompt;
/// afterwards it is not selected any more. Without a selection nothing is copied.
pub proof fn law_copied_text_is_the_selected(a: AppView, t: Seq<char>)
    ensures
        ({
            let r = selection::selection_copied(a, Some(t));
            let n = a.effects.len() as int;
            &&& a.chat.has_selection && !text::is_blank(t) ==> r.effects.len() == n + 2 && (
            r.effects[n] matches EffectView::CopyText { text: c, .. } && c == t)
                && !r.chat.has_selection
            &&& !a.chat.has_selection && a.input.has_selection && a.input.selected_text.len() > 0
                ==> r.effects.len() == n + 2 && (r.effects[n] matches EffectView::CopyText {
                text: c,
                ..
            } && c == a.input.selected_text) && !r.input.has_selection
            &&& !a.chat.has_selection && !a.input.has_selection ==> r == a
            &&& r.chat.messages == a.chat.messages && r.input.text == a.input.text && r.sessions
                == a.sessions
        }),
{
    reveal(selection::selection_copied);
    reveal(selection::deselected);
}

/// What is added to the prompt is the selected text, in quotation marks and behind what stands
/// there up to the cursor; nothing that stands there is lost.
pub proof fn law_added_text_is_quoted(a: AppView, t: Seq<char>)
    requires
        a.chat.has_selection,
        !text::is_blank(t),
        a.input.cursor == a.input.text.len(),
        a.input.text.len() + t.len() + 10 < usize::MAX,
    ensures
        ({
            let r = selection::added_to_prompt(a, SelectionActionTarget::Chat, Some(t));
            &&& a.input.text.is_prefix_of(r.input.text)
            &&& titles::quoted_selection(t).is_suffix_of(r.input.text)
            &&& text::contains(r.input.text, text::trim(t))
            &&& !r.chat.has_selection
            &&& r.chat.messages == a.chat.messages
        }),
{
    reveal(selection::quoted);
    reveal(selection::deselected);
    reveal_strlit("\n");
    reveal_strlit("`");
    reveal_strlit("```\n");
    reveal_strlit("\n```");
    let q = titles::quoted_selection(t);
    let old = a.input.text;
    let r = selection::added_to_prompt(a, SelectionActionTarget::Chat, Some(t));
    let mid = if old.len() > 0 {
        selection::with_inserted(a.input, "\n"@)
    } else {
        a.input
    };
    assert(old.skip(old.len() as int) =~= Seq::<char>::empty());
    assert(old.take(old.len() as int) =~= old);
    if old.len() > 0 {
        assert(mid.text =~= old + "\n"@);
    }
    lemma_trim_is_shorter(t);
    assert(mid.text.skip(mid.text.len() as int) =~= Seq::<char>::empty());
    assert(mid.text.take(mid.text.len() as int) =~= mid.text);
    assert(r.input.text =~= mid.text + q);
    assert(r.input.text.subrange(0, old.len() as int) =~= old);
    let all = r.input.text;
    assert(all.subrange(all.len() - q.len(), all.len() as int) =~= q);
    let s = text::trim(t);
    let skip: int = if text::line_count(s) <= 1 {
        1
    } else {
        4
    };
    let at = mid.text.len() + skip;
    assert(all.subrange(at, at + s.len()) =~= s);
    assert(text::occurs_at(all, s, at));
}

proof fn lemma_trim_is_shorter(t: Seq<char>)
    ensures
        text::trim(t).len() <= t.len(),
{
    text::lemma_trim_start(t);
    text::lemma_trim_end(text::trim_start(t));
}

/// A line in the list of sessions is that of the session: its title, its pin, whether it is at
/// work, and when it was last changed.
pub open spec fn is_row_of(row: RowView, s: SessionView) -> bool {
    &&& row.id == s.id
    &&& row.title == s.title
    &&& row.pinned == s.pinned
    &&& row.updated_at == s.updated_at
    &&& row.workspace_id == s.workspace_id
    &&& row.workspace_sort_order == s.workspace_sort_order
    &&& row.status_active == (s.status == SessionStatus::Streaming || s.status
        == SessionStatus::Waiting)
    &&& !text::is_blank(s.workspace_name) ==> row.group == s.workspace_name
}

/// Which sessions a filter lets through: none of a subagent, and of the others those of the
/// archive or the rest.
pub open spec fn is_listed(s: SessionView, filter: SessionsDialogFilter) -> bool {
    &&& s.parent_id is None
    &&& filter == SessionsDialogFilter::All ==> !s.archived
    &&& filter == SessionsDialogFilter::Active ==> !s.archived
    &&& filter == SessionsDialogFilter::Archived ==> s.archived
}

proof fn lemma_kept(
    s: Seq<SessionView>,
    clients: Seq<ClientView>,
    filter: SessionsDialogFilter,
    workspace_id: i64,
    i: int,
)
    requires
        0 <= i < s.len(),
        session_list::is_kept(s[i], clients, filter, workspace_id),
    ensures
        session_list::kept_rows(s, clients, filter, workspace_id).contains(
            session_list::row_of(s[i], clients),
        ),
    decreases s.len(),
{
    let front = session_list::kept_rows(s.drop_last(), clients, filter, workspace_id);
    let all = session_list::kept_rows(s, clients, filter, workspace_id);
    let row = session_list::row_of(s[i], clients);
    if i == s.len() - 1 {
        assert(all[front.len() as int] == row);
    } else {
        assert(s.drop_last()[i] == s[i]);
        lemma_kept(s.drop_last(), clients, filter, workspace_id, i);
        let k = front.index_of(row);
        assert(all[k] == row);
    }
}

/// Every line of the list is that of a session that the filter lets through, and under "all" and
/// "archived" every such session has a line.
pub proof fn law_rows_are_those_of_the_sessions(
    s: Seq<SessionView>,
    clients: Seq<ClientView>,
    filter: SessionsDialogFilter,
    workspace_id: i64,
    k: int,
    i: int,
)
    requires
        0 <= k < session_list::session_rows(s, clients, filter, workspace_id).len(),
    ensures
        ({
            let rows = session_list::session_rows(s, clients, filter, workspace_id);
            &&& exists|j: int|
                0 <= j < s.len() && #[trigger] is_row_of(rows[k], s[j]) && is_listed(s[j], filter)
            &&& 0 <= i < s.len() && is_listed(s[i], filter) && filter
                != SessionsDialogFilter::Active ==> exists|m: int|
                0 <= m < rows.len() && #[trigger] is_row_of(rows[m], s[i])
        }),
{
    let rows = session_list::session_rows(s, clients, filter, workspace_id);
    assert(rows.contains(rows[k]));
    session_list::law_rows_are_top_level(s, clients, filter, workspace_id, rows[k]);
    let j = choose|j: int|
        0 <= j < s.len() && #[trigger] s[j].parent_id is None && rows[k] == session_list::row_of(
            s[j],
            clients,
        ) && session_list::is_kept(s[j], clients, filter, workspace_id);
    assert(is_row_of(rows[k], s[j]) && is_listed(s[j], filter));
    if 0 <= i < s.len() && is_listed(s[i], filter) && filter != SessionsDialogFilter::Active {
        reveal(session_list::session_rows);
        let kept = session_list::kept_rows(s, clients, filter, workspace_id);
        let row = session_list::row_of(s[i], clients);
        lemma_kept(s, clients, filter, workspace_id, i);
        sorting::law_sorted::<SessionRow>(kept);
        broadcast use vstd::seq_lib::to_multiset_contains;

        assert(kept.to_multiset().count(row) > 0);
        assert(rows.contains(row));
        let m = rows.index_of(row);
        assert(is_row_of(rows[m], s[i]));
    }
}

/// The list goes by workspace; in a workspace the pinned sessions stand before the others, of
/// those the ones at work, and of those the ones that were changed last.
pub proof fn law_rows_are_in_order(
    s: Seq<SessionView>,
    clients: Seq<ClientView>,
    filter: SessionsDialogFilter,
    workspace_id: i64,
    i: int,
    j: int,
)
    requires
        0 <= i < j < session_list::session_rows(s, clients, filter, workspace_id).len(),
    ensures
        ({
            let rows = session_list::session_rows(s, clients, filter, workspace_id);
            let a = rows[i];
            let b = rows[j];
            &&& a.workspace_sort_order <= b.workspace_sort_order
            &&& a.workspace_sort_order == b.workspace_sort_order && a.workspace_id
                == b.workspace_id ==> {
                &&& b.pinned ==> a.pinned
                &&& a.pinned == b.pinned && b.status_active ==> a.status_active
                &&& a.pinned == b.pinned && a.status_active == b.status_active ==> a.updated_at
                    >= b.updated_at
            }
        }),
{
    reveal(session_list::session_rows);
    let kept = session_list::kept_rows(s, clients, filter, workspace_id);
    sorting::law_sorted::<SessionRow>(kept);
    let rows = session_list::session_rows(s, clients, filter, workspace_id);
    assert(!<SessionRow as sorting::Ranked>::precedes(rows[j], rows[i]));
}

/// From a session that was made for an agent one comes back to the session at the top: where the
/// parent has none, that is the parent.
pub proof fn law_one_comes_back_to_the_parent(a: AppView, i: int, p: int)
    requires
        dialogs::current_place(a) == Some(i),
        a.sessions[i].parent_id == Some(a.sessions[p].id),
        session::session_at(a.sessions, a.sessions[p].id) == Some(p),
        a.sessions[p].parent_id is None,
        a.sessions[p].id != a.sessions[i].id,
    ensures
        navigation::target_parent(a) == Some(p),
        a.sessions.len() > 1 ==> session::root_at(a.sessions, p) == p,
{
    let s = a.sessions;
    session::lemma_session_from(s, a.current->0, 0);
    session::lemma_session_from(s, s[p].id, 0);
    assert(i != p);
    assert(s.len() >= 2);
    reveal_with_fuel(session::climbed, 3);
    assert(session::climbed(s, p, (s.len() - 1) as nat) == p);
    assert(session::climbed(s, i, s.len()) == p);
}

/// The session of an agent that is gone to is the one that was made last in the family of the
/// session on the screen.
pub proof fn law_the_latest_child_is_gone_to(a: AppView, i: int)
    requires
        dialogs::current_place(a) == Some(i),
    ensures
        ({
            let root = session::root_at(a.sessions, i);
            match navigation::target_child(a) {
                Some(k) => 0 <= k < a.sessions.len() && k != root && session::root_at(a.sessions, k)
                    == root && forall|j: int|
                    k < j < a.sessions.len() && j != root ==> #[trigger] session::root_at(
                        a.sessions,
                        j,
                    ) != root,
                None => forall|j: int|
                    0 <= j < a.sessions.len() && j != root ==> #[trigger] session::root_at(
                        a.sessions,
                        j,
                    ) != root,
            }
        }),
{
    let root = session::root_at(a.sessions, i);
    lemma_last_of(a.sessions, root, a.sessions.len() as int);
}

proof fn lemma_last_of(s: Seq<SessionView>, root: int, n: int)
    requires
        0 <= n <= s.len(),
    ensures
        ({
            let d = session::descendants_before(s, root, n);
            &&& d.len() > 0 ==> 0 <= d.last() < n && d.last() != root && session::root_at(
                s,
                d.last(),
            ) == root && forall|j: int|
                d.last() < j < n && j != root ==> #[trigger] session::root_at(s, j) != root
            &&& d.len() == 0 ==> forall|j: int|
                0 <= j < n && j != root ==> #[trigger] session::root_at(s, j) != root
        }),
    decreases n,
{
    if n > 0 {
        lemma_last_of(s, root, n - 1);
    }
}

/// A title says its items one behind the other: one more item leaves what stands there, and what
/// it says stands at the end.
pub proof fn law_titles_say_their_items(
    a: AppView,
    items: Seq<TerminalTitleItem>,
    item: TerminalTitleItem,
)
    ensures
        ({
            let before = terminal_title::title_of(a, items).0;
            let all = terminal_title::title_of(a, items.push(item)).0;
            &&& before.is_prefix_of(all)
            &&& match terminal_title::title_value(a, item) {
                Some(v) => if text::is_blank(v) {
                    all == before
                } else {
                    v.is_suffix_of(all) && (before.len() == 0 && terminal_title::title_of(
                        a,
                        items,
                    ).1 is None ==> all == v)
                },
                None => all == before,
            }
        }),
{
    let more = items.push(item);
    assert(more.drop_last() =~= items);
    let before = terminal_title::title_of(a, items).0;
    let all = terminal_title::title_of(a, more).0;
    reveal_strlit("");
    assert(all.subrange(0, before.len() as int) =~= before);
    if let Some(v) = terminal_title::title_value(a, item) {
        if !text::is_blank(v) {
            assert(all.subrange(all.len() - v.len(), all.len() as int) =~= v);
            if before.len() == 0 && terminal_title::title_of(a, items).1 is None {
                assert(all =~= v);
            }
        }
    }
}

/// What the items of a title say: the title of the session on the screen, its branch, and that the
/// user is asked for something.
pub proof fn law_title_items_tell_the_session(a: AppView, i: int)
    requires
        dialogs::current_place(a) == Some(i),
    ensures
        !text::is_blank(a.sessions[i].title) ==> terminal_title::title_value(
            a,
            TerminalTitleItem::ThreadTitle,
        ) == Some(text::trim(a.sessions[i].title)),
        a.ui.title.branch matches Some(b) && b.len() <= 32 ==> terminal_title::title_value(
            a,
            TerminalTitleItem::GitBranch,
        ) == a.ui.title.branch,
        a.ui.title.branch is None ==> terminal_title::title_value(
            a,
            TerminalTitleItem::GitBranch,
        ) is None,
        terminal_title::needs_action(a) ==> terminal_title::title_value(
            a,
            TerminalTitleItem::Activity,
        ) == Some(seq!['[', '!', ']']),
{
    reveal(terminal_title::title_value);
    reveal_strlit("[!]");
    assert("[!]"@ =~= seq!['[', '!', ']']);
    if let Some(b) = a.ui.title.branch {
        if b.len() <= 32 {
            assert(b.take(b.len() as int) =~= b);
            assert(titles::title_part(b, 32) =~= b);
        }
    }
}

/// The application begins with what was asked for on the command line, before what was used last,
/// before what is configured; and it has the agents, the small model, the efforts and the notices
/// of the configuration.
pub proof fn law_the_start_follows_the_configuration(
    a: AppView,
    c: Configuration,
    provider: Seq<char>,
    model: Seq<char>,
)
    requires
        !a.ui.startup_hydrated,
        startup::startup_refusal(a, c) is None,
    ensures
        ({
            let r = startup::hydrated(a, c);
            &&& (a.ui.pending_model is Some && asking::is_reference(
                a.ui.pending_model->0,
                provider,
                model,
            )) ==> r.provider_name == provider && r.model == model
            &&& a.ui.pending_model is None && (c.saved_model matches Some(s) && s.provider_id@
                == provider && s.model_id@ == model) ==> r.provider_name == provider && r.model
                == model
            &&& a.ui.pending_model is None && c.saved_model is None && (c.model matches Some(m)
                && asking::is_reference(m@, provider, model)) ==> r.provider_name == provider
                && r.model == model && (c.has_preferences ==> r.effects == a.effects.push(
                EffectView::SaveModel { provider, model },
            ))
            &&& r.agents == agents::agents_view(c.agents@)
            &&& r.small_model == text::opt_view(c.small_model)
            &&& r.reasoning.overrides == reasoning::overrides_view(c.saved_overrides@)
            &&& r.notifications.complete == c.notifications.complete && r.notifications.error
                == c.notifications.error && r.notifications.permission
                == c.notifications.permission && r.notifications.question
                == c.notifications.question && r.notifications.condition
                == c.notifications.condition && r.notifications.focused
                == a.notifications.focused
            &&& c.compact_mode matches Some(on) ==> r.ui.compact_mode == on
            &&& c.compact_mode is None && (c.saved_compact_mode matches Some(on))
                ==> r.ui.compact_mode == c.saved_compact_mode->0
            &&& c.saved_title_items matches Some(items) ==> r.ui.title.items == items@
            &&& r.sessions == a.sessions && r.chat == a.chat && r.input == a.input && r.current
                == a.current
        }),
{
    reveal(startup::configured);
    if let Some(m) = a.ui.pending_model {
        if asking::is_reference(m, provider, model) {
            asking::law_references_name_their_model(m, provider, model);
        }
    }
    if let Some(m) = c.model {
        if asking::is_reference(m@, provider, model) {
            asking::law_references_name_their_model(m@, provider, model);
        }
    }
}

/// The folder that is entered is the one that the application works in, and its workspace the
/// current one; the sessions stay.
pub proof fn law_folders_are_entered(a: AppView, f: Folder)
    ensures
        ({
            let r = workspace::folder_entered(a, f);
            &&& r.ui.cwd == f.path@
            &&& f.workspace matches Ok(w) ==> r.workspace == w@
            &&& f.workspace is Err ==> r.workspace == a.workspace
            &&& r.sessions == a.sessions && r.current == a.current && r.chat == a.chat
                && r.provider_name == a.provider_name && r.model == a.model
        }),
{
    reveal(workspace::folder_entered);
}

/// A paste goes where the keyboard is: to the dialog that takes text, or to the prompt, as images
/// where it names images and nothing else.
pub proof fn law_pastes_go_where_the_keyboard_is(
    a: AppView,
    t: Seq<char>,
    words: Option<Seq<Seq<char>>>,
    images: PastedImages,
)
    requires
        paste::byte_size(t) <= paste::MAX_PASTE_SIZE,
        !navigation::in_child(a),
    ensures
        ({
            let r = paste::pasted(a, t, words, images);
            let free = a.overlay_focus == OverlayFocus::Nothing || a.overlay_focus
                == OverlayFocus::SuggestionsPopup;
            &&& free && images.count == 0 ==> r.1 == PasteNext::Prompt
            &&& free && images.count > 0 && images.exact ==> r.1 == PasteNext::Attach
            &&& a.overlay_focus == OverlayFocus::ModelsDialog || a.overlay_focus
                == OverlayFocus::SessionsDialog || a.overlay_focus == OverlayFocus::FindBar
                || a.overlay_focus == OverlayFocus::ApiKeyInput || a.overlay_focus
                == OverlayFocus::QuestionDialog ==> r.1 == PasteNext::Overlay
            &&& a.overlay_focus == OverlayFocus::PermissionDialog ==> r.1 == PasteNext::Done
            &&& r.0 == (AppView { last_user_activity: a.now, ..a })
        }),
{
}

} // verus!

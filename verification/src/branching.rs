//! Forks, undone prompts and copies hold what was picked, and nothing besides.

use crate::app::AppView;
use crate::dialogs;
use crate::focus::OverlayFocus;
use crate::history;
use crate::keeping;
use crate::message;
use crate::message::{MessageRole, MessageView};
use crate::prompting;
use crate::session;
use crate::state::EffectView;
use crate::stream;
use crate::text;
use crate::titles;
use vstd::prelude::*;

verus! {

/// An agent or one of its tools wrote the message.
pub open spec fn is_agents(m: MessageView) -> bool {
    m.role == MessageRole::Assistant || m.role == MessageRole::Tool
}

/// The block of message `i` ends before message `end`: a prompt is a block of its own, and an
/// answer goes on through all that the agent and its tools wrote.
pub open spec fn is_block_end(ms: Seq<MessageView>, i: int, end: int) -> bool {
    &&& i < end <= ms.len()
    &&& !is_agents(ms[i]) ==> end == i + 1
    &&& is_agents(ms[i]) ==> (forall|j: int| i <= j < end ==> is_agents(#[trigger] ms[j])) && (end
        < ms.len() ==> !is_agents(ms[end]))
}

/// The block of message `i` begins with message `start`.
pub open spec fn is_block_start(ms: Seq<MessageView>, i: int, start: int) -> bool {
    &&& 0 <= start <= i
    &&& !is_agents(ms[i]) ==> start == i
    &&& is_agents(ms[i]) ==> (forall|j: int| start <= j <= i ==> is_agents(#[trigger] ms[j])) && (
    start > 0 ==> !is_agents(ms[start - 1]))
}

proof fn lemma_end(ms: Seq<MessageView>, i: int)
    requires
        0 <= i <= ms.len(),
    ensures
        ({
            let end = history::answer_end(ms, i);
            &&& i <= end <= ms.len()
            &&& forall|j: int| i <= j < end ==> is_agents(#[trigger] ms[j])
            &&& end < ms.len() ==> !is_agents(ms[end])
        }),
    decreases ms.len() - i,
{
    if i < ms.len() && history::is_answer(ms[i]) {
        lemma_end(ms, i + 1);
    }
}

proof fn lemma_start(ms: Seq<MessageView>, i: int)
    requires
        0 <= i <= ms.len(),
    ensures
        ({
            let start = history::answer_start(ms, i);
            &&& 0 <= start <= i
            &&& forall|j: int| start <= j < i ==> is_agents(#[trigger] ms[j])
            &&& start > 0 ==> !is_agents(ms[start - 1])
        }),
    decreases i,
{
    if 0 < i && history::is_answer(ms[i - 1]) {
        lemma_start(ms, i - 1);
    }
}

proof fn lemma_block(ms: Seq<MessageView>, i: int)
    requires
        0 <= i < ms.len(),
    ensures
        history::block_of(ms, i) matches Some(b) && is_block_start(ms, i, b.0) && is_block_end(
            ms,
            i,
            b.1,
        ),
{
    lemma_end(ms, i + 1);
    lemma_start(ms, i);
}

/// Which messages a fork takes: all, or from the first through the block of the one picked.
pub open spec fn is_forked(ms: Seq<MessageView>, through: Option<usize>, taken: Seq<MessageView>) -> bool {
    match through {
        Some(i) => if i < ms.len() {
            is_block_end(ms, i as int, taken.len() as int) && taken == ms.take(taken.len() as int)
        } else {
            taken == ms
        },
        None => taken == ms,
    }
}

/// A fork is a new session, on the screen, that holds the messages of the current one through the
/// block of the message that was picked, and none behind it; the session that was forked, and every
/// other, stays as it is.
pub proof fn law_forks_hold_what_was_picked(a: AppView, p: int, through: Option<usize>)
    requires
        dialogs::current_place(a) == Some(p),
        a.sessions[p].messages.len() > 0,
        !stream::exists_session(a, a.next_session_id),
    ensures
        ({
            let r = history::forked(a, through);
            let n = a.sessions.len() as int;
            let ms = a.sessions[p].messages;
            &&& r.sessions.len() == n + 1
            &&& r.sessions.take(n) == a.sessions
            &&& r.sessions[n].id == a.next_session_id
            &&& r.current == Some(a.next_session_id)
            &&& is_forked(ms, through, r.sessions[n].messages)
            &&& r.chat.messages == r.sessions[n].messages
            &&& r.sessions[n].title == titles::fork_title(a.sessions[p].title)
        }),
{
    reveal(history::forked);
    reveal(history::refilled);
    let ms = a.sessions[p].messages;
    let end = history::fork_end(ms, through);
    let taken = ms.take(end);
    session::lemma_session_from(a.sessions, a.current->0, 0);
    if let Some(i) = through {
        if i < ms.len() {
            lemma_block(ms, i as int);
        }
    }
    assert(0 < end <= ms.len());
    if end == ms.len() {
        assert(taken =~= ms);
    }
    let title = titles::fork_title(a.sessions[p].title);
    keeping::law_new_sessions_are_empty(a, title);
    let c = prompting::session_created(a, title);
    let n = a.sessions.len() as int;
    let r = history::forked(a, through);
    assert(c.sessions[n].messages + taken =~= taken);
    assert(r.sessions.take(n) =~= a.sessions);
}

/// What is undone is gone from the session and from the screen together with all behind it, what
/// came before stays, and the prompt is back in the input as it was said, with its images. Only
/// prompts can be undone.
pub proof fn law_undoing_goes_back_to_the_prompt(a: AppView, p: int, idx: usize)
    requires
        dialogs::current_place(a) == Some(p),
        a.ui.message_actions_index == Some(idx),
        idx < a.sessions[p].messages.len(),
    ensures
        ({
            let r = history::action_done(a, "undo"@);
            let m = a.sessions[p].messages[idx as int];
            &&& m.role == MessageRole::User ==> {
                &&& r.sessions.len() == a.sessions.len()
                &&& r.sessions[p].messages == a.sessions[p].messages.take(idx as int)
                &&& r.chat.messages == a.sessions[p].messages.take(idx as int)
                &&& r.input.text == m.content
                &&& r.input.image_paths == m.local_image_paths
                &&& r.overlay_focus == OverlayFocus::Nothing
                &&& r.current == a.current
                &&& forall|j: int|
                    0 <= j < a.sessions.len() && j != p ==> #[trigger] r.sessions[j]
                        == a.sessions[j]
            }
            &&& m.role != MessageRole::User ==> r.sessions == a.sessions && r.chat.messages
                == a.chat.messages && r.input == a.input
        }),
{
    reveal(history::undone);
    reveal(history::actions_left);
    reveal_strlit("undo");
    reveal_strlit("copy");
    reveal_strlit("fork");
    reveal_strlit("copy_response_markdown");
    assert("undo"@[0] == 'u' && "copy"@[0] == 'c' && "fork"@[0] == 'f'
        && "copy_response_markdown"@[0] == 'c');
    session::lemma_session_from(a.sessions, a.current->0, 0);
}

/// A fork that is chosen for a message is the fork through that message.
pub proof fn law_fork_action_forks_at_the_message(a: AppView, p: int, idx: usize)
    requires
        dialogs::current_place(a) == Some(p),
        a.ui.message_actions_index == Some(idx),
        idx < a.sessions[p].messages.len(),
        !stream::exists_session(a, a.next_session_id),
    ensures
        ({
            let r = history::action_done(a, "fork"@);
            let n = a.sessions.len() as int;
            &&& r.sessions.len() == n + 1
            &&& r.sessions.take(n) == a.sessions
            &&& is_forked(a.sessions[p].messages, Some(idx), r.sessions[n].messages)
            &&& r.chat.messages == r.sessions[n].messages
            &&& r.current == Some(a.next_session_id)
            &&& r.overlay_focus == OverlayFocus::Nothing
        }),
{
    reveal(history::actions_left);
    reveal_strlit("undo");
    reveal_strlit("copy");
    reveal_strlit("fork");
    reveal_strlit("copy_response_markdown");
    assert("fork"@[0] == 'f' && "copy"@[0] == 'c' && "copy_response_markdown"@[0] == 'c');
    law_forks_hold_what_was_picked(a, p, Some(idx));
    lemma_block(a.sessions[p].messages, idx as int);
    let f = history::forked(a, Some(idx));
    assert(history::can_fork(a, Some(idx)));
    let r = history::action_done(a, "fork"@);
    assert(r.sessions == f.sessions && r.chat.messages == f.chat.messages && r.current
        == f.current);
}

proof fn lemma_joined_holds(parts: Seq<Seq<char>>, sep: Seq<char>, k: int)
    requires
        0 <= k < parts.len(),
    ensures
        text::contains(text::join(parts, sep), parts[k]),
    decreases parts.len(),
{
    let whole = text::join(parts, sep);
    if parts.len() == 1 {
        assert(whole.subrange(0, whole.len() as int) =~= parts[0]);
        assert(text::occurs_at(whole, parts[0], 0));
    } else {
        let front = text::join(parts.drop_last(), sep);
        let none = Seq::<char>::empty();
        if k < parts.len() - 1 {
            lemma_joined_holds(parts.drop_last(), sep, k);
            assert(parts.drop_last()[k] == parts[k]);
            text::lemma_contains_more(none, front, sep + parts.last(), parts[k]);
            assert(none + front + (sep + parts.last()) =~= whole);
        } else {
            let at = front.len() + sep.len();
            assert(whole.subrange(at as int, (at + parts[k].len()) as int) =~= parts[k]);
            assert(text::occurs_at(whole, parts[k], at as int));
        }
    }
}

proof fn lemma_section_place(ms: Seq<MessageView>, j: int, s: Seq<char>, q: int)
    requires
        0 <= j < ms.len(),
        0 <= q < message::clipboard_sections(ms[j]).len(),
        message::clipboard_sections(ms[j])[q] == s,
    ensures
        exists|k: int|
            0 <= k < message::sections_of(ms).len() && #[trigger] message::sections_of(ms)[k] == s,
    decreases ms.len(),
{
    let before = message::sections_of(ms.drop_last());
    let all = message::sections_of(ms);
    if j == ms.len() - 1 {
        assert(all[before.len() + q] == s);
    } else {
        assert(ms.drop_last()[j] == ms[j]);
        lemma_section_place(ms.drop_last(), j, s, q);
        let k = choose|k: int| 0 <= k < before.len() && #[trigger] before[k] == s;
        assert(all[k] == s);
    }
}

/// What is copied of a block holds everything that was said in it: each message that is not blank
/// as it was written, and what an agent has thought.
pub proof fn law_copies_hold_what_was_said(ms: Seq<MessageView>, start: int, end: int, j: int)
    requires
        0 <= start <= j < end <= ms.len(),
    ensures
        ms[j].role != MessageRole::Tool && !text::is_blank(ms[j].content) ==> text::contains(
            message::block_text(ms, start, end),
            ms[j].content,
        ),
        ms[j].reasoning matches Some(r) && !text::is_blank(r) ==> text::contains(
            message::block_text(ms, start, end),
            "Thinking:\n"@ + text::trim(ms[j].reasoning->0),
        ),
{
    let block = ms.subrange(start, end);
    let m = block[j - start];
    let all = message::sections_of(block);
    if m.role != MessageRole::Tool && !text::is_blank(m.content) {
        let q = message::reasoning_sections(m).len() as int;
        assert(message::clipboard_sections(m)[q] == m.content);
        lemma_section_place(block, j - start, m.content, q);
        let k = choose|k: int| 0 <= k < all.len() && #[trigger] all[k] == m.content;
        lemma_joined_holds(all, "\n\n"@, k);
    }
    if m.reasoning matches Some(r) && !text::is_blank(r) {
        let s = "Thinking:\n"@ + text::trim(m.reasoning->0);
        assert(message::clipboard_sections(m)[0] == s);
        lemma_section_place(block, j - start, s, 0);
        let k = choose|k: int| 0 <= k < all.len() && #[trigger] all[k] == s;
        lemma_joined_holds(all, "\n\n"@, k);
    }
}

/// A message that is copied is copied with its whole block, and nothing else changes but what is
/// told and shown; the text alone of an answer is its text.
pub proof fn law_copying_takes_the_whole_block(a: AppView, p: int, idx: usize)
    requires
        dialogs::current_place(a) == Some(p),
        a.ui.message_actions_index == Some(idx),
        idx < a.sessions[p].messages.len(),
    ensures
        ({
            let r = history::action_done(a, "copy"@);
            let ms = a.sessions[p].messages;
            &&& r.sessions == a.sessions
            &&& r.chat.messages == a.chat.messages
            &&& r.effects.len() == a.effects.len() + 2
            &&& r.effects[a.effects.len() as int] matches EffectView::CopyText { text: t, .. }
                && exists|start: int, end: int|
                #[trigger] is_block_start(ms, idx as int, start) && #[trigger] is_block_end(
                    ms,
                    idx as int,
                    end,
                ) && t == message::block_text(ms, start, end)
        }),
        ({
            let r = history::action_done(a, "copy_response_markdown"@);
            let m = a.sessions[p].messages[idx as int];
            m.role == MessageRole::Assistant && !text::is_blank(m.content) ==> r.effects.len()
                == a.effects.len() + 1 && (r.effects.last() matches EffectView::CopyText {
                text: t,
                ..
            } && t == text::trim(m.content)) && r.sessions == a.sessions
        }),
{
    reveal(history::actions_left);
    reveal_strlit("copy");
    reveal_strlit("copy_response_markdown");
    assert("copy"@.len() != "copy_response_markdown"@.len());
    lemma_block(a.sessions[p].messages, idx as int);
    let b = history::block_of(a.sessions[p].messages, idx as int)->0;
    assert(is_block_start(a.sessions[p].messages, idx as int, b.0));
    assert(is_block_end(a.sessions[p].messages, idx as int, b.1));
}

proof fn lemma_entries(ms: Seq<MessageView>, durations: Seq<Seq<char>>, j: int)
    requires
        0 <= j < ms.len(),
        ms[j].role == MessageRole::User || ms[j].role == MessageRole::Assistant,
    ensures
        text::contains(history::transcript_body(ms, durations), ms[j].content),
    decreases ms.len(),
{
    let none = Seq::<char>::empty();
    let front = history::transcript_body(ms.drop_last(), durations);
    let whole = history::transcript_body(ms, durations);
    let entry = history::transcript_entry(
        ms.last(),
        if ms.len() <= durations.len() {
            durations[ms.len() - 1]
        } else {
            ""@
        },
    );
    if j < ms.len() - 1 {
        assert(ms.drop_last()[j] == ms[j]);
        lemma_entries(ms.drop_last(), durations, j);
        text::lemma_contains_more(none, front, entry, ms[j].content);
        assert(none + front + entry =~= whole);
    } else {
        let c = ms[j].content;
        let end = "\n\n---\n\n"@;
        let at = whole.len() - end.len() - c.len();
        assert(whole.subrange(at as int, (at + c.len()) as int) =~= c);
        assert(text::occurs_at(whole, c, at as int));
    }
}

/// A copied transcript begins with the title and holds, in their order, everything that the user
/// and the agent have said.
pub proof fn law_transcripts_hold_everything(
    title: Seq<char>,
    ms: Seq<MessageView>,
    durations: Seq<Seq<char>>,
    j: int,
)
    requires
        0 <= j < ms.len(),
    ensures
        ms[j].role == MessageRole::User || ms[j].role == MessageRole::Assistant ==> text::contains(
            history::transcript_of(title, ms, durations),
            ms[j].content,
        ),
        (seq!['#', ' '] + title + seq!['\n', '\n']).is_prefix_of(
            history::transcript_of(title, ms, durations),
        ),
        history::transcript_of(title, ms.take(j), durations).is_prefix_of(
            history::transcript_of(title, ms, durations),
        ),
{
    let whole = history::transcript_of(title, ms, durations);
    let head = "# "@ + title + "\n\n"@;
    reveal_strlit("# ");
    reveal_strlit("\n\n");
    let first = seq!['#', ' '] + title + seq!['\n', '\n'];
    assert(head =~= first);
    assert(whole.subrange(0, head.len() as int) =~= head);
    if ms[j].role == MessageRole::User || ms[j].role == MessageRole::Assistant {
        lemma_entries(ms, durations, j);
        let none = Seq::<char>::empty();
        text::lemma_contains_more(
            head,
            history::transcript_body(ms, durations),
            none,
            ms[j].content,
        );
        assert(head + history::transcript_body(ms, durations) + none =~= whole);
    }
    lemma_body_grows(ms, durations, j);
    let part = history::transcript_of(title, ms.take(j), durations);
    let less = history::transcript_body(ms.take(j), durations);
    assert(whole.subrange(0, part.len() as int) =~= part) by {
        assert(history::transcript_body(ms, durations).subrange(0, less.len() as int) =~= less);
    }
}

proof fn lemma_body_grows(ms: Seq<MessageView>, durations: Seq<Seq<char>>, j: int)
    requires
        0 <= j <= ms.len(),
    ensures
        history::transcript_body(ms.take(j), durations).is_prefix_of(
            history::transcript_body(ms, durations),
        ),
    decreases ms.len(),
{
    let whole = history::transcript_body(ms, durations);
    if j == ms.len() {
        assert(ms.take(j) =~= ms);
        assert(whole.subrange(0, whole.len() as int) =~= whole);
    } else {
        lemma_body_grows(ms.drop_last(), durations, j);
        assert(ms.drop_last().take(j) =~= ms.take(j));
        let less = history::transcript_body(ms.take(j), durations);
        let mid = history::transcript_body(ms.drop_last(), durations);
        assert(mid.subrange(0, less.len() as int) =~= less);
        assert(whole.subrange(0, less.len() as int) =~= less);
    }
}

/// What is copied of a session is what was asked for: its id, its title, or its transcript under
/// its title. Nothing but the dialog changes.
pub proof fn law_copied_sessions_are_named(a: AppView, p: int, durations: Seq<Seq<char>>)
    requires
        dialogs::current_place(a) == Some(p),
    ensures
        ({
            let id = history::copy_done(a, "id"@, durations);
            let title = history::copy_done(a, "title"@, durations);
            let all = history::copy_done(a, "transcript"@, durations);
            &&& id.effects.len() == a.effects.len() + 1 && (id.effects.last()
                matches EffectView::CopyText { text: t, .. } && Some(t) == a.current)
            &&& title.effects.len() == a.effects.len() + 1 && (title.effects.last()
                matches EffectView::CopyText { text: t, .. } && t == a.sessions[p].title)
            &&& all.effects.len() == a.effects.len() + 1 && (all.effects.last()
                matches EffectView::CopyText { text: t, .. } && t == history::transcript_of(
                a.sessions[p].title,
                a.chat.messages,
                durations,
            ))
            &&& id.sessions == a.sessions && title.sessions == a.sessions && all.sessions
                == a.sessions
            &&& id.chat == a.chat && title.chat == a.chat && all.chat == a.chat
        }),
{
    reveal(history::transcript_copied);
    reveal(history::id_copied);
    reveal(history::title_copied);
    reveal_strlit("id");
    reveal_strlit("title");
    reveal_strlit("transcript");
    assert("id"@.len() == 2 && "title"@.len() == 5 && "transcript"@.len() == 10);
}

} // verus!

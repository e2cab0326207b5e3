//! The list of sessions: a session stands behind the one it was made for, and the sessions of a
//! family are gone round.

use crate::answers;
use crate::app;
use crate::app::AppView;
use crate::chunks::SubagentStart;
use crate::dialogs;
use crate::events;
use crate::history;
use crate::keeping;
use crate::message::MessageView;
use crate::navigation;
use crate::prompting;
use crate::session;
use crate::session::{SessionStatus, SessionView};
use crate::stream;
use crate::titles;
use vstd::prelude::*;

verus! {

/// No two sessions have one id.
pub open spec fn has_distinct_ids(s: Seq<SessionView>) -> bool {
    forall|i: int, j: int| 0 <= i < j < s.len() ==> #[trigger] s[i].id != #[trigger] s[j].id
}

/// A session whose parent is in the list stands behind it.
pub open spec fn stands_behind_parent(s: Seq<SessionView>, i: int) -> bool {
    s[i].parent_id matches Some(parent) ==> (session::session_at(s, parent) matches Some(p) ==> p
        < i)
}

/// The sessions have ids of their own and stand behind their parents.
pub open spec fn is_well_ordered(s: Seq<SessionView>) -> bool {
    &&& has_distinct_ids(s)
    &&& forall|i: int| 0 <= i < s.len() ==> #[trigger] stands_behind_parent(s, i)
}

/// An id that no session has, and none names as that of its parent.
pub open spec fn is_fresh(s: Seq<SessionView>, id: Seq<char>) -> bool {
    &&& session::session_at(s, id) is None
    &&& forall|i: int| 0 <= i < s.len() ==> (#[trigger] s[i]).parent_id != Some(id)
}

pub proof fn lemma_own_place(s: Seq<SessionView>, i: int)
    requires
        has_distinct_ids(s),
        0 <= i < s.len(),
    ensures
        session::session_at(s, s[i].id) == Some(i),
{
    session::lemma_session_from(s, s[i].id, 0);
    if let Some(k) = session::session_at(s, s[i].id) {
        if k < i {
            assert(s[k].id != s[i].id);
        } else if i < k {
            assert(s[i].id != s[k].id);
        }
    }
}

/// What is changed in sessions but their ids and their parents leaves the order as it is.
proof fn lemma_same_order(s: Seq<SessionView>, t: Seq<SessionView>)
    requires
        is_well_ordered(s),
        t.len() == s.len(),
        forall|k: int| 0 <= k < s.len() ==> #[trigger] s[k].id == t[k].id,
        forall|k: int| 0 <= k < s.len() ==> (#[trigger] s[k]).parent_id == t[k].parent_id,
    ensures
        is_well_ordered(t),
{
    assert forall|i: int, j: int| 0 <= i < j < t.len() implies #[trigger] t[i].id
        != #[trigger] t[j].id by {
        assert(s[i].id != s[j].id);
    }
    assert forall|i: int| 0 <= i < t.len() implies #[trigger] stands_behind_parent(t, i) by {
        assert(stands_behind_parent(s, i));
        assert(s[i].parent_id == t[i].parent_id);
        if let Some(parent) = t[i].parent_id {
            session::lemma_same_ids(s, t, parent, 0);
        }
    }
}

proof fn lemma_pushed(s: Seq<SessionView>, x: SessionView)
    requires
        is_well_ordered(s),
        is_fresh(s, x.id),
        x.parent_id != Some(x.id),
    ensures
        is_well_ordered(s.push(x)),
{
    let t = s.push(x);
    session::lemma_session_from(s, x.id, 0);
    assert forall|i: int, j: int| 0 <= i < j < t.len() implies #[trigger] t[i].id
        != #[trigger] t[j].id by {
        assert(t[i] == s[i]);
        if j < s.len() {
            assert(t[j] == s[j]);
        }
    }
    assert forall|i: int| 0 <= i < t.len() implies #[trigger] stands_behind_parent(t, i) by {
        if let Some(parent) = t[i].parent_id {
            keeping::lemma_session_push(s, x, parent, 0);
            session::lemma_session_from(s, parent, 0);
            if i < s.len() {
                assert(stands_behind_parent(s, i));
                assert(s[i].parent_id == t[i].parent_id);
            }
        }
    }
}

proof fn lemma_front(s: Seq<SessionView>)
    requires
        is_well_ordered(s),
        s.len() > 0,
    ensures
        is_well_ordered(s.drop_last()),
{
    let t = s.drop_last();
    let x = s.last();
    assert(s =~= t.push(x));
    assert forall|i: int, j: int| 0 <= i < j < t.len() implies #[trigger] t[i].id
        != #[trigger] t[j].id by {
        assert(s[i].id != s[j].id);
    }
    assert forall|i: int| 0 <= i < t.len() implies #[trigger] stands_behind_parent(t, i) by {
        assert(stands_behind_parent(s, i));
        if let Some(parent) = t[i].parent_id {
            keeping::lemma_session_push(t, x, parent, 0);
        }
    }
}

proof fn lemma_removed(s: Seq<SessionView>, id: Seq<char>)
    requires
        is_well_ordered(s),
    ensures
        is_well_ordered(answers::sessions_without(s, id)),
    decreases s.len(),
{
    reveal(Seq::filter);
    if s.len() > 0 {
        let before = s.drop_last();
        let x = s.last();
        let n = before.len() as int;
        assert(s =~= before.push(x));
        assert(s[n] == x);
        lemma_front(s);
        lemma_removed(before, id);
        let rest = answers::sessions_without(before, id);
        if x.id != id {
            assert(answers::sessions_without(s, id) =~= rest.push(x));
            lemma_own_place(s, n);
            assert forall|i: int| 0 <= i < rest.len() implies (#[trigger] rest[i]).id != x.id
                && rest[i].parent_id != Some(x.id) by {
                before.lemma_filter_contains_rev(|y: SessionView| y.id != id, rest[i]);
                let k = before.index_of(rest[i]);
                assert(s[k] == rest[i]);
                assert(s[k].id != s[n].id);
                assert(stands_behind_parent(s, k));
            }
            session::lemma_session_from(rest, x.id, 0);
            assert(stands_behind_parent(s, n));
            lemma_pushed(rest, x);
        } else {
            assert(answers::sessions_without(s, id) =~= rest);
        }
    }
}

proof fn lemma_created(a: AppView, title: Seq<char>)
    ensures
        prompting::session_created(a, title).sessions == a.sessions.push(
            session::new_session(a.next_session_id, None, title, a.workspace, a.now),
        ),
{
    reveal(prompting::session_created);
    reveal(prompting::home_shown);
    reveal(app::put_away);
}

/// A new session keeps the list in order.
pub proof fn law_new_sessions_keep_the_order(a: AppView, title: Seq<char>)
    requires
        is_well_ordered(a.sessions),
        is_fresh(a.sessions, a.next_session_id),
    ensures
        is_well_ordered(prompting::session_created(a, title).sessions),
{
    lemma_created(a, title);
    lemma_pushed(
        a.sessions,
        session::new_session(a.next_session_id, None, title, a.workspace, a.now),
    );
}

/// So does one that begins with the messages of another.
pub proof fn law_forks_keep_the_order(a: AppView, through: Option<usize>)
    requires
        is_well_ordered(a.sessions),
        is_fresh(a.sessions, a.next_session_id),
    ensures
        is_well_ordered(history::forked(a, through).sessions),
{
    reveal(history::forked);
    if history::can_fork(a, through) {
        let title = titles::fork_title(a.sessions[dialogs::current_place(a)->0].title);
        law_new_sessions_keep_the_order(a, title);
        let b = prompting::session_created(a, title);
        let ms = history::fork_messages(a, through)->0;
        lemma_refilled(b, ms);
    }
}

proof fn lemma_refilled(a: AppView, ms: Seq<MessageView>)
    requires
        is_well_ordered(a.sessions),
    ensures
        is_well_ordered(history::refilled(a, ms).sessions),
{
    reveal(history::refilled);
    let b = history::refilled(a, ms);
    if let Some(id) = a.current {
        session::lemma_session_from(a.sessions, id, 0);
    }
    lemma_same_order(a.sessions, b.sessions);
}

/// So does the session of an agent, which stands behind the one that called it, if that is there.
pub proof fn law_agents_stand_behind_their_callers(a: AppView, s: SubagentStart)
    requires
        is_well_ordered(a.sessions),
        stream::exists_session(a, s.session_id@) || is_fresh(a.sessions, s.session_id@),
        s.parent_session_id@ != s.session_id@,
    ensures
        is_well_ordered(events::subagent_started(a, s).sessions),
{
    let id = s.session_id@;
    let b = events::child_made(a, s);
    if !stream::exists_session(a, id) {
        lemma_pushed(
            a.sessions,
            session::new_session(id, Some(s.parent_session_id@), s.title@, a.workspace, a.now),
        );
    }
    let c = events::subagent_seeded(b, s);
    assert(c.sessions == b.sessions) by {
        reveal(events::subagent_seeded);
    }
    let d = app::persisted(c, id);
    session::lemma_session_from(c.sessions, id, 0);
    lemma_same_order(c.sessions, d.sessions);
    let e = app::status_set(d, id, SessionStatus::Streaming, None);
    session::lemma_session_from(d.sessions, id, 0);
    lemma_same_order(d.sessions, e.sessions);
    assert(events::subagent_started(a, s).sessions == e.sessions) by {
        reveal(events::subagent_started);
    }
}

/// And so does a session that is deleted, with a second one that was to be deleted.
pub proof fn law_deleting_keeps_the_order(a: AppView, id: Seq<char>, pending: Option<Seq<char>>)
    requires
        is_well_ordered(a.sessions),
    ensures
        is_well_ordered(answers::deleted(a, id, pending).sessions),
{
    lemma_removed(a.sessions, id);
    let b = answers::forgotten(a, id);
    if let Some(other) = pending {
        lemma_removed(b.sessions, other);
    }
    let c = answers::both_forgotten(a, id, pending);
    assert(answers::deleted(a, id, pending).sessions == c.sessions) by {
        reveal(answers::deleted);
        reveal(prompting::home_shown);
    }
}

proof fn lemma_climbs_to_the_top(s: Seq<SessionView>, i: int, steps: nat)
    requires
        is_well_ordered(s),
        0 <= i < s.len(),
        i <= steps,
    ensures
        session::parent_at(s, session::climbed(s, i, steps)) is None,
    decreases steps,
{
    assert(stands_behind_parent(s, i));
    if let Some(p) = session::parent_at(s, i) {
        session::lemma_session_from(s, s[i].parent_id->0, 0);
        lemma_climbs_to_the_top(s, p, (steps - 1) as nat);
    }
}

/// In a list in order, the way up from a session ends at one that has no parent in the list.
pub proof fn law_families_have_a_top(s: Seq<SessionView>, i: int)
    requires
        is_well_ordered(s),
        0 <= i < s.len(),
    ensures
        0 <= session::root_at(s, i) < s.len(),
        session::parent_at(s, session::root_at(s, i)) is None,
{
    session::lemma_root_at(s, i);
    lemma_climbs_to_the_top(s, i, s.len());
}

/// The session of an agent, shown in the place of the current one.
proof fn lemma_switched_to_child(a: AppView, j: int)
    requires
        has_distinct_ids(a.sessions),
        0 <= j < a.sessions.len(),
        a.sessions[j].parent_id is Some,
    ensures
        ({
            let b = stream::switched(a, a.sessions[j].id);
            &&& b.sessions == a.sessions
            &&& b.current == Some(a.sessions[j].id)
            &&& dialogs::current_place(b) == Some(j)
        }),
{
    let id = a.sessions[j].id;
    lemma_own_place(a.sessions, j);
    let p = app::put_away(a);
    assert(p.sessions == a.sessions) by {
        reveal(app::put_away);
    }
    let b = stream::brought_in(a, id);
    assert(b.sessions == a.sessions && b.current == Some(id)) by {
        reveal(stream::brought_in);
        reveal(app::brought_up);
    }
    assert(stream::switched(a, id) == stream::focused_base(b, id)) by {
        reveal(stream::switched);
    }
}

proof fn lemma_kids_are_children(s: Seq<SessionView>, i: int, m: int)
    requires
        0 <= i < s.len(),
        0 <= m < navigation::kids_of(s, i).len(),
    ensures
        0 <= navigation::kids_of(s, i)[m] < s.len(),
        s[navigation::kids_of(s, i)[m]].parent_id is Some,
{
    let root = session::root_at(s, i);
    session::lemma_descendants(s, root, s.len() as int);
    let j = navigation::kids_of(s, i)[m];
    assert(session::root_at(s, j) == root && j != root);
}

proof fn lemma_step(k: int, n: int, forward: bool)
    requires
        0 <= k < n,
    ensures
        navigation::step(k, n, forward) == (if forward {
            (k + 1) % n
        } else {
            (k + n - 1) % n
        }),
        0 <= navigation::step(k, n, forward) < n,
{
    if forward {
        if k + 1 < n {
            vstd::arithmetic::div_mod::lemma_small_mod((k + 1) as nat, n as nat);
        } else {
            vstd::arithmetic::div_mod::lemma_mod_self_0(n);
        }
    } else if k > 0 {
        vstd::arithmetic::div_mod::lemma_small_mod((k - 1) as nat, n as nat);
        vstd::arithmetic::div_mod::lemma_mod_add_multiples_vanish(k - 1, n);
        assert(k - 1 + n == n + (k - 1));
    } else {
        vstd::arithmetic::div_mod::lemma_small_mod((n - 1) as nat, n as nat);
    }
}

/// A step to the next or the previous session of the family shows that session, round and round,
/// and a step the other way shows the one before again.
pub proof fn law_stepping_on_and_back_comes_home(a: AppView, i: int, forward: bool)
    requires
        has_distinct_ids(a.sessions),
        dialogs::current_place(a) == Some(i),
        navigation::kids_of(a.sessions, i).len() > 1,
        navigation::kids_of(a.sessions, i).contains(i),
    ensures
        ({
            let kids = navigation::kids_of(a.sessions, i);
            let k = kids.index_of(i);
            let n = kids.len() as int;
            let b = navigation::gone_to(a, navigation::target_sibling(a, forward));
            let c = navigation::gone_to(b, navigation::target_sibling(b, !forward));
            let m = if forward {
                (k + 1) % n
            } else {
                (k + n - 1) % n
            };
            &&& navigation::target_sibling(a, forward) == Some(kids[m])
            &&& b.current == Some(a.sessions[kids[m]].id)
            &&& b.sessions == a.sessions
            &&& navigation::target_sibling(b, !forward) == Some(i)
            &&& c.current == a.current
            &&& c.sessions == a.sessions
        }),
{
    let s = a.sessions;
    let kids = navigation::kids_of(s, i);
    let k = kids.index_of(i);
    let n = kids.len() as int;
    session::lemma_session_from(s, a.current->0, 0);
    lemma_step(k, n, forward);
    let m = navigation::step(k, n, forward);
    let j = kids[m];
    assert(navigation::target_sibling(a, forward) == Some(j));
    lemma_kids_are_children(s, i, m);
    lemma_switched_to_child(a, j);
    let b = stream::switched(a, s[j].id);
    assert(b == navigation::gone_to(a, navigation::target_sibling(a, forward)));
    navigation::law_siblings_go_round(s, i, forward);
    assert(navigation::target_sibling(b, !forward) == Some(i));
    lemma_kids_are_children(s, i, k);
    assert(kids[k] == i);
    lemma_switched_to_child(b, i);
}

/// Where there is no other session of an agent in the family, or the session on the screen is none
/// itself, a step changes nothing.
pub proof fn law_without_siblings_nothing_changes(a: AppView, i: int, forward: bool)
    requires
        dialogs::current_place(a) == Some(i),
        navigation::kids_of(a.sessions, i).len() <= 1 || !navigation::kids_of(
            a.sessions,
            i,
        ).contains(i),
    ensures
        navigation::target_sibling(a, forward) is None,
        navigation::gone_to(a, navigation::target_sibling(a, forward)) == a,
{
}

} // verus!

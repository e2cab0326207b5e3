//! What comes in is dealt with in the order in which it came, and what waits goes out in order.

use crate::app;
use crate::app::AppView;
use crate::arriving;
use crate::chunks;
use crate::chunks::{ChunkMessage, ChunkView, LeafView, StreamChunkKind};
use crate::closing;
use crate::compaction;
use crate::compaction::CompactionEventView;
use crate::drain::Drained;
use crate::events;
use crate::keeping;
use crate::live;
use crate::queue;
use crate::queue::{QueuedMessageView, QueuedView};
use crate::session;
use crate::session::SessionStatus;
use crate::state;
use crate::state::ClientView;
use crate::stream;
use crate::turns;
use vstd::prelude::*;

verus! {

/// All the text among the leaves, one piece behind the other.
pub open spec fn words(s: Seq<LeafView>) -> Seq<char>
    decreases s.len(),
{
    if s.len() == 0 {
        Seq::empty()
    } else {
        words(s.drop_last()) + match s.last() {
            LeafView::Text(t) => t,
            _ => Seq::empty(),
        }
    }
}

/// All the reasoning among the leaves, one piece behind the other.
pub open spec fn thoughts(s: Seq<LeafView>) -> Seq<char>
    decreases s.len(),
{
    if s.len() == 0 {
        Seq::empty()
    } else {
        thoughts(s.drop_last()) + match s.last() {
            LeafView::Reasoning(t) => t,
            _ => Seq::empty(),
        }
    }
}

proof fn lemma_fused_words(s: Seq<LeafView>)
    ensures
        words(chunks::fused(s)) == words(s),
        thoughts(chunks::fused(s)) == thoughts(s),
    decreases s.len(),
{
    if s.len() > 0 {
        let front = s.drop_last();
        lemma_fused_words(front);
        let before = chunks::fused(front);
        let leaf = s.last();
        let all = chunks::fused(s);
        let none = Seq::<char>::empty();
        if chunks::is_silent(ChunkView { route: Seq::empty(), leaf }) {
            assert(words(front) + none =~= words(front));
            assert(thoughts(front) + none =~= thoughts(front));
            match leaf {
                LeafView::Text(t) => {
                    assert(t =~= none);
                },
                LeafView::Reasoning(t) => {
                    assert(t =~= none);
                },
                _ => {},
            }
        } else if before.len() > 0 && chunks::kind_of(leaf) is Some && chunks::kind_of(
            before.last(),
        ) == chunks::kind_of(leaf) {
            assert(all.drop_last() =~= before.drop_last());
            match (before.last(), leaf) {
                (LeafView::Text(x), LeafView::Text(y)) => {
                    assert(words(before.drop_last()) + (x + y) =~= words(before.drop_last()) + x
                        + y);
                    assert(thoughts(before.drop_last()) + none + none =~= thoughts(
                        before.drop_last(),
                    ) + none);
                },
                (LeafView::Reasoning(x), LeafView::Reasoning(y)) => {
                    assert(thoughts(before.drop_last()) + (x + y) =~= thoughts(before.drop_last())
                        + x + y);
                    assert(words(before.drop_last()) + none + none =~= words(before.drop_last())
                        + none);
                },
                _ => {
                    assert(words(before.drop_last()) + none + none =~= words(before.drop_last())
                        + none);
                    assert(thoughts(before.drop_last()) + none + none =~= thoughts(
                        before.drop_last(),
                    ) + none);
                },
            }
        } else {
            assert(all.drop_last() =~= before);
        }
    }
}

/// Merging keeps every word for every session: what an agent says, and what it thinks, is on each
/// route the same text before and after, in the order in which it came.
pub proof fn law_merging_keeps_every_word(s: Seq<ChunkView>, r: Seq<Seq<char>>)
    ensures
        words(chunks::on_route(chunks::coalesced(s), r)) == words(chunks::on_route(s, r)),
        thoughts(chunks::on_route(chunks::coalesced(s), r)) == thoughts(chunks::on_route(s, r)),
{
    chunks::law_coalescing_keeps_each_session(s, r);
    lemma_fused_words(chunks::on_route(chunks::coalesced(s), r));
    lemma_fused_words(chunks::on_route(s, r));
}

/// What the leaves of one more event on its route add.
pub proof fn law_words_are_counted_in_order(s: Seq<ChunkView>, r: Seq<Seq<char>>, c: ChunkView)
    ensures
        words(chunks::on_route(s.push(c), r)) == words(chunks::on_route(s, r)) + (if c.route == r {
            match c.leaf {
                LeafView::Text(t) => t,
                _ => Seq::empty(),
            }
        } else {
            Seq::empty()
        }),
{
    assert(s.push(c).drop_last() =~= s);
    let before = chunks::on_route(s, r);
    assert(before.push(c.leaf).drop_last() =~= before);
    assert(words(before) + Seq::<char>::empty() =~= words(before));
}

proof fn lemma_text_burst(pieces: Seq<String>)
    ensures
        ({
            let s = chunks::chunk_views(arriving::as_text(pieces));
            let all = arriving::together(pieces);
            let none = Seq::<Seq<char>>::empty();
            &&& all.len() == 0 ==> chunks::coalesced(s) == Seq::<ChunkView>::empty()
                && chunks::open_slot(s, none, StreamChunkKind::Text) is None
            &&& all.len() > 0 ==> chunks::coalesced(s) == seq![
                ChunkView { route: none, leaf: LeafView::Text(all) },
            ] && chunks::open_slot(s, none, StreamChunkKind::Text) == Some(0int)
        }),
    decreases pieces.len(),
{
    let s = chunks::chunk_views(arriving::as_text(pieces));
    let all = arriving::together(pieces);
    let none = Seq::<Seq<char>>::empty();
    if pieces.len() > 0 {
        let front = pieces.drop_last();
        let t = pieces.last();
        lemma_text_burst(front);
        let before = chunks::chunk_views(arriving::as_text(front));
        assert(s.drop_last() =~= before);
        assert(s.last() == chunks::chunk_view(ChunkMessage::Text(t)));
        assert(s.last().route == none && s.last().leaf == LeafView::Text(t@));
        let so_far = arriving::together(front);
        if t@.len() == 0 {
            assert(so_far + t@ =~= so_far);
        } else if so_far.len() == 0 {
            assert(so_far + t@ =~= t@);
            assert(chunks::coalesced(s) =~= seq![
                ChunkView { route: none, leaf: LeafView::Text(all) },
            ]);
        } else {
            assert(chunks::coalesced(s) =~= seq![
                ChunkView { route: none, leaf: LeafView::Text(all) },
            ]);
        }
    }
}

proof fn lemma_snapshot_keeps(a: AppView, id: Seq<char>, force: bool)
    ensures
        arriving::messages(app::snapshot(a, id, force), id) == arriving::messages(a, id),
{
    reveal(app::snapshot);
    state::lemma_client_from(a.clients, id, 0);
    if let Some(c) = app::client_of(a, id) {
        let p = app::persisted(a, id);
        keeping::lemma_with_client(p, id, app::with_asked(c), id);
    }
}

/// Text that comes in one go, in however many pieces, stands behind what the latest answer said,
/// in the order in which it came; no other message changes.
pub proof fn law_bursts_of_text_arrive_in_order(
    a: AppView,
    id: Seq<char>,
    i: int,
    pieces: Seq<String>,
    whole: String,
)
    requires
        arriving::is_latest_answer(arriving::messages(a, id), i),
        whole@ == arriving::together(pieces),
    ensures
        ({
            let before = arriving::messages(a, id);
            let after = arriving::messages(
                events::burst_applied(
                    a,
                    id,
                    chunks::chunk_views(arriving::as_text(pieces)),
                    false,
                ),
                id,
            );
            &&& arriving::is_changed_only_at(before, after, i)
            &&& after[i].content == before[i].content + arriving::together(pieces)
            &&& arriving::written(after[i].parts) == arriving::written(before[i].parts)
                + arriving::together(pieces)
        }),
{
    lemma_text_burst(pieces);
    let all = arriving::together(pieces);
    let s = chunks::chunk_views(arriving::as_text(pieces));
    let merged = chunks::coalesced(s);
    let before = arriving::messages(a, id);
    let r = events::all_applied(a, id, merged, 0);
    if all.len() == 0 {
        assert(before[i].content + all =~= before[i].content);
        assert(arriving::written(before[i].parts) + all =~= arriving::written(before[i].parts));
        lemma_snapshot_keeps(a, id, false);
    } else {
        let one = seq![whole];
        assert(one.drop_last() =~= Seq::<String>::empty());
        assert(arriving::together(one.drop_last()) =~= Seq::<char>::empty());
        assert(Seq::<char>::empty() + whole@ =~= whole@);
        assert(arriving::together(one) == whole@);
        arriving::law_text_arrives_in_order(a, id, i, one);
        let text_of_one = arriving::as_text(one);
        assert(text_of_one.drop_last() =~= Seq::<ChunkMessage>::empty());
        assert(text_of_one.last() == ChunkMessage::Text(whole));
        let h = arriving::heard(a, id, ChunkMessage::Text(whole));
        assert(arriving::heard_all(a, id, text_of_one.drop_last()) == a);
        assert(arriving::heard_all(a, id, text_of_one) == h);
        let c = chunks::chunk_view(ChunkMessage::Text(whole));
        assert(c.route =~= Seq::<Seq<char>>::empty());
        assert(merged[0] == c);
        assert(events::applied(a, id, merged[0]) == (h, true));
        assert(events::all_applied(h, id, merged, 1) == (h, true));
        assert(r == (h, true));
        lemma_snapshot_keeps(h, id, false);
    }
}

/// Of the events of one session a later one finds what the earlier ones have left, as long as none
/// of those ends the turn; and behind one that ends it nothing is heard.
pub proof fn law_events_are_heard_in_order(a: AppView, id: Seq<char>, c: ChunkView, rest: Seq<ChunkView>)
    ensures
        ({
            let first = events::applied(a, id, c);
            let all = events::all_applied(a, id, seq![c] + rest, 0);
            &&& first.1 ==> all == events::all_applied(first.0, id, rest, 0)
            &&& !first.1 ==> all == first
        }),
{
    let all = seq![c] + rest;
    let first = events::applied(a, id, c);
    assert(all[0] == c);
    if first.1 {
        lemma_shifted(first.0, id, c, rest, 0);
    }
}

proof fn lemma_shifted(a: AppView, id: Seq<char>, c: ChunkView, rest: Seq<ChunkView>, i: int)
    requires
        0 <= i <= rest.len(),
    ensures
        events::all_applied(a, id, seq![c] + rest, i + 1) == events::all_applied(a, id, rest, i),
    decreases rest.len() - i,
{
    let all = seq![c] + rest;
    if i < rest.len() {
        assert(all[i + 1] == rest[i]);
        let r = events::applied(a, id, rest[i]);
        if r.1 {
            lemma_shifted(r.0, id, c, rest, i + 1);
        }
    }
}

/// What was taken from the channels is dealt with turn by turn, in the order in which it was
/// taken.
pub proof fn law_turns_are_dealt_with_in_order(a: AppView, first: Seq<Drained>, rest: Seq<Drained>)
    ensures
        live::turns_applied(a, first + rest) == live::turns_applied(
            live::turns_applied(a, first),
            rest,
        ),
    decreases rest.len(),
{
    if rest.len() == 0 {
        assert(first + rest =~= first);
    } else {
        assert((first + rest).drop_last() =~= first + rest.drop_last());
        assert((first + rest).last() == rest.last());
        law_turns_are_dealt_with_in_order(a, first, rest.drop_last());
    }
}

/// What a subagent says goes to its own session, while that is at work; where it is not, nothing
/// is heard. Either way the turn of the one that called it goes on.
pub proof fn law_subagents_speak_in_their_session(
    a: AppView,
    id: Seq<char>,
    child: String,
    t: String,
    i: int,
)
    requires
        arriving::is_latest_answer(arriving::messages(a, child@), i),
    ensures
        ({
            let c = ChunkMessage::SubagentChunk {
                session_id: child,
                chunk: Box::new(ChunkMessage::Text(t)),
            };
            let r = events::applied(a, id, chunks::chunk_view(c));
            let before = arriving::messages(a, child@);
            let after = arriving::messages(r.0, child@);
            &&& r.1
            &&& app::streams(a, child@) ==> arriving::is_changed_only_at(before, after, i)
                && after[i].content == before[i].content + t@
            &&& !app::streams(a, child@) ==> r.0 == a
        }),
{
    let inner = ChunkMessage::Text(t);
    let c = ChunkMessage::SubagentChunk { session_id: child, chunk: Box::new(inner) };
    let v = chunks::chunk_view(c);
    let w = chunks::chunk_view(inner);
    assert(v.route =~= seq![child@]);
    assert(v.route.drop_first() =~= w.route);
    if app::streams(a, child@) {
        let one = seq![t];
        assert(one.drop_last() =~= Seq::<String>::empty());
        assert(Seq::<char>::empty() + t@ =~= t@);
        assert(arriving::together(one.drop_last()) == Seq::<char>::empty());
        arriving::law_text_arrives_in_order(a, child@, i, one);
        let said = arriving::as_text(one);
        assert(said.drop_last() =~= Seq::<ChunkMessage>::empty());
        assert(said.last() == inner);
        let h = arriving::heard(a, child@, inner);
        assert(arriving::heard_all(a, child@, said.drop_last()) == a);
        assert(arriving::heard_all(a, child@, said) == h);
        assert(ChunkView { route: v.route.drop_first(), leaf: v.leaf } == w);
        assert(events::applied(a, child@, w) == (h, true));
        lemma_snapshot_keeps(h, child@, false);
    }
}

/// A channel that closes before the turn has come to its end is a failure of the turn, which is
/// told as a lost connection.
pub proof fn law_lost_channels_fail_the_turn(a: AppView, id: Seq<char>, i: int)
    requires
        session::session_at(a.sessions, id) == Some(i),
        app::client_of(a, id) matches Some(c) && c.stream is Some && c.queued_items.len() == 0,
    ensures
        ({
            let r = events::burst_applied(a, id, Seq::empty(), true);
            &&& session::session_at(r.sessions, id) matches Some(k) && r.sessions[k].status
                == SessionStatus::Failed && r.sessions[k].error is Some
            &&& !app::streams(r, id)
        }),
{
    assert(chunks::coalesced(Seq::<ChunkView>::empty()) == Seq::<ChunkView>::empty());
    let b = app::snapshot(a, id, false);
    closing::lemma_snapshot(a, id, false);
    assert(app::client_of(b, id) matches Some(c) && c.stream is Some) by {
        reveal(app::snapshot);
        state::lemma_client_from(a.clients, id, 0);
        let c = app::client_of(a, id)->0;
        keeping::lemma_with_client(app::persisted(a, id), id, app::with_asked(c), id);
    }
    let why = "stream disconnected before completion: stream task ended before sending a completion event"@;
    closing::law_failed_turns_are_closed(b, id, why, why);
}

/// A turn whose tools are still at work does not end yet, though the agent has come to its end: its
/// session is not at rest.
pub proof fn law_ends_wait_for_the_tools(a: AppView, id: Seq<char>)
    requires
        app::boundary(a, id) is Some,
        stream::exists_session(a, id),
        turns::runs_tools(a, id),
        app::chat_for(a, id) is Some,
    ensures
        ({
            let r = arriving::heard(a, id, ChunkMessage::End);
            &&& app::streams(r, id)
            &&& app::client_of(r, id) matches Some(c) && c.tool_calls.deferred_finish
            &&& arriving::messages(r, id) == arriving::messages(a, id)
        }),
{
    let b = app::snapshot(a, id, true);
    closing::lemma_snapshot(a, id, true);
    assert(turns::runs_tools(b, id));
    state::lemma_client_from(b.clients, id, 0);
    let c = app::client_of(b, id)->0;
    let d = ClientView {
        tool_calls: state::ToolCallsView { deferred_finish: true, ..c.tool_calls },
        ..c
    };
    keeping::lemma_with_client(b, id, d, id);
    assert(turns::finished(a, id) == turns::with_deferred(b, id, true)) by {
        reveal(turns::finished);
    }
    assert(events::applied(a, id, chunks::chunk_view(ChunkMessage::End)).0 == turns::finished(a, id));
}

/// Queued messages as items.
pub open spec fn as_items(ms: Seq<QueuedMessageView>) -> Seq<QueuedView> {
    ms.map_values(|m: QueuedMessageView| QueuedView::Message(m))
}

proof fn lemma_leading(ms: Seq<QueuedMessageView>, rest: Seq<QueuedView>)
    requires
        rest.len() == 0 || rest[0] is Compact,
    ensures
        queue::leading_count(as_items(ms) + rest) == ms.len(),
        queue::leading(as_items(ms) + rest) == ms,
    decreases ms.len(),
{
    let items = as_items(ms) + rest;
    if ms.len() > 0 {
        lemma_leading(ms.drop_first(), rest);
        assert(items.drop_first() =~= as_items(ms.drop_first()) + rest);
        assert(items[0] == QueuedView::Message(ms[0]));
    } else {
        assert(items =~= rest);
    }
    let got = queue::leading(items);
    assert forall|k: int| 0 <= k < ms.len() implies #[trigger] got[k] == ms[k] by {
        assert(items[k] == QueuedView::Message(ms[k]));
    }
    assert(got =~= ms);
}

/// All the messages before a `/compact` go out together, in their order; the `/compact` and all
/// behind it go on waiting, and only where it is first does it go out itself.
pub proof fn law_what_goes_out_leaves_the_rest(ms: Seq<QueuedMessageView>, rest: Seq<QueuedView>)
    ensures
        queue::leading(as_items(ms)) == ms,
        stream::left_queued(as_items(ms)) == Seq::<QueuedView>::empty(),
        ms.len() > 0 ==> queue::leading(as_items(ms) + seq![QueuedView::Compact] + rest) == ms
            && stream::left_queued(as_items(ms) + seq![QueuedView::Compact] + rest) == seq![
            QueuedView::Compact,
        ] + rest,
        queue::leading(seq![QueuedView::Compact] + rest).len() == 0,
        stream::left_queued(seq![QueuedView::Compact] + rest) == rest,
{
    let none = Seq::<QueuedView>::empty();
    lemma_leading(ms, none);
    assert(as_items(ms) + none =~= as_items(ms));
    let behind = seq![QueuedView::Compact] + rest;
    lemma_leading(ms, behind);
    let all = as_items(ms) + seq![QueuedView::Compact] + rest;
    assert(as_items(ms) + behind =~= all);
    assert(all.skip(ms.len() as int + 1) =~= rest);
    let no_messages = Seq::<QueuedMessageView>::empty();
    lemma_leading(no_messages, behind);
    assert(as_items(no_messages) + behind =~= behind);
    assert(behind.skip(1) =~= rest);
}

/// A compaction is over with its first report, whatever that says: another can begin, and the
/// screen is at work only where something else is.
pub proof fn law_reports_end_the_compaction(a: AppView, id: Seq<char>, error: Seq<char>)
    requires
        stream::queue_of(a, id).len() == 0,
    ensures
        ({
            let r = compaction::compaction_heard(
                a,
                seq![CompactionEventView::Failed { session_id: id, error }],
                false,
            );
            &&& r.compaction is None
            &&& r.is_streaming == app::at_work(r)
            &&& r.chat == a.chat
        }),
        ({
            let r = compaction::compaction_heard(a, Seq::empty(), false);
            r.compaction == a.compaction && r.chat == a.chat && r.sessions == a.sessions
        }),
{
    reveal(compaction::compaction_heard);
    reveal(compaction::event_done);
    let e = CompactionEventView::Failed { session_id: id, error };
    let one = seq![e];
    assert(one.drop_last() =~= Seq::<CompactionEventView>::empty());
    let b = compaction::compaction_ended(a);
    assert(compaction::events_done(b, one.drop_last()) == b);
    let d = compaction::events_done(b, one);
    assert(d == compaction::event_done(b, e));
    assert(app::client_of(d, id) == app::client_of(a, id));
    assert(compaction::queues_sent(d, one.drop_last()) == d);
    assert(stream::submitted(d, id, None) == d) by {
        reveal(stream::submitted);
    }
}

} // verus!

//! Stream chunks and how a burst of them is merged.

use crate::text;
use vstd::prelude::*;
use vstd::string::*;

verus! {

/// What a provider reports while it waits before another attempt.
#[derive(Debug, Clone, PartialEq, Eq)]
pub struct StreamingRetryStatus {
    pub attempt: usize,
    pub message: String,
    pub next_epoch_ms: u64,
}

#[derive(Debug)]
pub struct ToolCall {
    pub id: String,
    pub name: String,
    pub arguments: String,
}

#[derive(Debug)]
pub struct ToolCallResult {
    pub tool_call_id: String,
    pub name: String,
    pub content: String,
}

/// A subagent that begins its work in a session of its own.
#[derive(Debug)]
pub struct SubagentStart {
    pub parent_session_id: String,
    pub session_id: String,
    pub title: String,
    pub subagent_type: String,
    pub model: Option<String>,
    pub provider: Option<String>,
    pub description: String,
    pub prompt: String,
}

/// One event of a streamed turn. Requests carry the number under which the caller keeps what
/// answers them.
#[derive(Debug)]
pub enum ChunkMessage {
    Text(String),
    Reasoning(String),
    Retry(StreamingRetryStatus),
    StreamRollback { text: String, reasoning: String },
    Warning(String),
    End,
    Failed(String),
    Cancelled,
    Metrics { token_count: usize, duration_ms: u64 },
    ToolCalls(Vec<ToolCall>),
    ToolResult(ToolCallResult),
    SubagentStarted(SubagentStart),
    SubagentChunk { session_id: String, chunk: Box<ChunkMessage> },
    PermissionRequest(u64),
    QuestionRequest(u64),
    TerminalSessionRequest(String),
    TerminalSessionEvent { tool_call_id: String, ended: bool },
}

/// The kinds of chunk that can be merged with an earlier one.
#[derive(Debug, Clone, Copy, PartialEq, Eq, Structural)]
pub enum StreamChunkKind {
    Text,
    Reasoning,
    Retry,
}

/// A chunk without the subagent wrappers around it.
pub enum LeafView {
    Text(Seq<char>),
    Reasoning(Seq<char>),
    Retry(StreamingRetryStatus),
    Other(ChunkMessage),
}

/// A chunk as its leaf and the sessions it was routed through, outermost first.
pub struct ChunkView {
    pub route: Seq<Seq<char>>,
    pub leaf: LeafView,
}

pub open spec fn chunk_view(c: ChunkMessage) -> ChunkView
    decreases c,
{
    match c {
        ChunkMessage::SubagentChunk { session_id, chunk } => {
            let inner = chunk_view(*chunk);
            ChunkView { route: seq![session_id@] + inner.route, leaf: inner.leaf }
        },
        _ => ChunkView { route: Seq::empty(), leaf: leaf_view(c) },
    }
}

pub open spec fn leaf_view(c: ChunkMessage) -> LeafView {
    match c {
        ChunkMessage::Text(text) => LeafView::Text(text@),
        ChunkMessage::Reasoning(text) => LeafView::Reasoning(text@),
        ChunkMessage::Retry(status) => LeafView::Retry(status),
        _ => LeafView::Other(c),
    }
}

pub open spec fn chunk_views(s: Seq<ChunkMessage>) -> Seq<ChunkView> {
    s.map_values(|c: ChunkMessage| chunk_view(c))
}

pub open spec fn kind_of(leaf: LeafView) -> Option<StreamChunkKind> {
    match leaf {
        LeafView::Text(_) => Some(StreamChunkKind::Text),
        LeafView::Reasoning(_) => Some(StreamChunkKind::Reasoning),
        LeafView::Retry(_) => Some(StreamChunkKind::Retry),
        LeafView::Other(_) => None,
    }
}

/// Text and reasoning without a character leave no trace.
pub open spec fn is_silent(c: ChunkView) -> bool {
    match c.leaf {
        LeafView::Text(text) => text.len() == 0,
        LeafView::Reasoning(text) => text.len() == 0,
        _ => false,
    }
}

pub open spec fn is_ancestor(r: Seq<Seq<char>>, route: Seq<Seq<char>>) -> bool {
    r.len() < route.len() && r.is_prefix_of(route)
}

/// After `c`, nothing of kind `k` on route `r` may join what came before `c`: another kind of
/// event on the route itself, or any event on a route nested in it.
pub open spec fn separates(c: ChunkView, r: Seq<Seq<char>>, k: StreamChunkKind) -> bool {
    (c.route == r && kind_of(c.leaf) != Some(k)) || is_ancestor(r, c.route)
}

pub open spec fn joined(earlier: LeafView, later: LeafView) -> LeafView {
    match (earlier, later) {
        (LeafView::Text(a), LeafView::Text(b)) => LeafView::Text(a + b),
        (LeafView::Reasoning(a), LeafView::Reasoning(b)) => LeafView::Reasoning(a + b),
        _ => later,
    }
}

/// The merged chunk that a further chunk of kind `k` on route `r` would join.
pub open spec fn open_slot(
    s: Seq<ChunkView>,
    r: Seq<Seq<char>>,
    k: StreamChunkKind,
) -> Option<int>
    decreases s.len(),
{
    if s.len() == 0 {
        None
    } else {
        let before = s.drop_last();
        let c = s.last();
        if is_silent(c) {
            open_slot(before, r, k)
        } else if c.route == r && kind_of(c.leaf) == Some(k) {
            match open_slot(before, r, k) {
                Some(i) => Some(i),
                None => Some(coalesced(before).len() as int),
            }
        } else if separates(c, r, k) {
            None
        } else {
            open_slot(before, r, k)
        }
    }
}

/// The chunks `s`, each silent one left out and each other one joined to its open slot.
pub open spec fn coalesced(s: Seq<ChunkView>) -> Seq<ChunkView>
    decreases s.len(),
{
    if s.len() == 0 {
        Seq::empty()
    } else {
        let out = coalesced(s.drop_last());
        let c = s.last();
        if is_silent(c) {
            out
        } else {
            match kind_of(c.leaf) {
                Some(k) => match open_slot(s.drop_last(), c.route, k) {
                    Some(i) => out.update(
                        i,
                        ChunkView { route: c.route, leaf: joined(out[i].leaf, c.leaf) },
                    ),
                    None => out.push(c),
                },
                None => out.push(c),
            }
        }
    }
}

struct RoutedChunk {
    route: Vec<String>,
    leaf: ChunkMessage,
}

spec fn routed_view(c: RoutedChunk) -> ChunkView {
    ChunkView { route: text::views(c.route@), leaf: leaf_view(c.leaf) }
}

struct OpenSlot {
    route: Vec<String>,
    kind: StreamChunkKind,
    index: usize,
}

spec fn slot_route(p: OpenSlot) -> Seq<Seq<char>> {
    text::views(p.route@)
}

/// `slots` lists exactly the open slots after `s`.
spec fn lists_open_slots(slots: Seq<OpenSlot>, s: Seq<ChunkView>) -> bool {
    &&& forall|j: int|
        0 <= j < slots.len() ==> open_slot(s, slot_route(#[trigger] slots[j]), slots[j].kind)
            == Some(slots[j].index as int)
    &&& forall|r: Seq<Seq<char>>, k: StreamChunkKind| #[trigger]
        open_slot(s, r, k) is Some ==> exists|j: int|
            0 <= j < slots.len() && slot_route(#[trigger] slots[j]) == r && slots[j].kind == k
}

proof fn lemma_open_slot_in_range(s: Seq<ChunkView>, r: Seq<Seq<char>>, k: StreamChunkKind)
    ensures
        open_slot(s, r, k) matches Some(i) ==> 0 <= i < coalesced(s).len() && coalesced(s)[i].route
            == r && kind_of(coalesced(s)[i].leaf) == Some(k),
    decreases s.len(),
{
    if s.len() > 0 {
        let before = s.drop_last();
        let c = s.last();
        lemma_open_slot_in_range(before, r, k);
        if !is_silent(c) && kind_of(c.leaf) is Some {
            lemma_open_slot_in_range(before, c.route, kind_of(c.leaf)->0);
        }
    }
}

fn same_route(a: &Vec<String>, b: &Vec<String>) -> (r: bool)
    ensures
        r == (text::views(a@) == text::views(b@)),
{
    if a.len() != b.len() {
        assert(text::views(a@).len() != text::views(b@).len());
        return false;
    }
    for i in 0..a.len()
        invariant
            a@.len() == b@.len(),
            forall|j: int| 0 <= j < i ==> a@[j]@ == b@[j]@,
    {
        if a[i] != b[i] {
            assert(text::views(a@)[i as int] != text::views(b@)[i as int]);
            return false;
        }
    }
    assert(text::views(a@) =~= text::views(b@));
    true
}

fn is_proper_prefix(a: &Vec<String>, b: &Vec<String>) -> (r: bool)
    ensures
        r == is_ancestor(text::views(a@), text::views(b@)),
{
    let ghost x = text::views(a@);
    let ghost y = text::views(b@);
    if a.len() >= b.len() {
        return false;
    }
    for i in 0..a.len()
        invariant
            a@.len() < b@.len(),
            x == text::views(a@),
            y == text::views(b@),
            forall|j: int| 0 <= j < i ==> a@[j]@ == b@[j]@,
    {
        if a[i] != b[i] {
            proof {
                assert(x[i as int] != y[i as int]);
                if x.is_prefix_of(y) {
                    assert(y.subrange(0, x.len() as int)[i as int] == x[i as int]);
                }
            }
            return false;
        }
    }
    assert(x =~= y.subrange(0, x.len() as int));
    true
}

/// Takes the subagent wrappers off a chunk.
fn split_route(chunk: ChunkMessage) -> (r: RoutedChunk)
    ensures
        routed_view(r) == chunk_view(chunk),
        !(r.leaf is SubagentChunk),
{
    let mut route: Vec<String> = Vec::new();
    let mut current = chunk;
    let ghost whole = chunk_view(chunk);
    assert(text::views(route@) + chunk_view(current).route =~= whole.route);
    loop
        invariant
            text::views(route@) + chunk_view(current).route == whole.route,
            chunk_view(current).leaf == whole.leaf,
            whole == chunk_view(chunk),
        decreases current,
    {
        match current {
            ChunkMessage::SubagentChunk { session_id, chunk: inner } => {
                let ghost rest = chunk_view(*inner).route;
                assert(text::views(route@) + (seq![session_id@] + rest)
                    =~= text::views(route@.push(session_id)) + rest);
                route.push(session_id);
                current = *inner;
            },
            leaf => {
                assert(text::views(route@) + Seq::<Seq<char>>::empty()
                    =~= text::views(route@));
                return RoutedChunk { route, leaf };
            },
        }
    }
}

/// Puts the subagent wrappers back on.
fn wrap_route(routed: RoutedChunk) -> (r: ChunkMessage)
    requires
        !(routed.leaf is SubagentChunk),
    ensures
        chunk_view(r) == routed_view(routed),
{
    let mut route = routed.route;
    let mut chunk = routed.leaf;
    let ghost whole = text::views(route@);
    assert(whole + chunk_view(chunk).route =~= whole);
    while route.len() > 0
        invariant
            text::views(route@) + chunk_view(chunk).route == whole,
            chunk_view(chunk).leaf == leaf_view(routed.leaf),
        decreases route@.len(),
    {
        let ghost before = route@;
        let ghost tail = chunk_view(chunk).route;
        let session_id = route.pop().unwrap();
        assert(before =~= route@.push(session_id));
        assert(text::views(before) + tail =~= text::views(route@) + (
        seq![session_id@] + tail));
        chunk = ChunkMessage::SubagentChunk { session_id, chunk: Box::new(chunk) };
    }
    assert(text::views(route@) + chunk_view(chunk).route =~= chunk_view(chunk).route);
    chunk
}

/// Whether an open slot outlives an event of kind `keep` on `route`.
spec fn outlives(p: OpenSlot, route: Seq<Seq<char>>, keep: Option<StreamChunkKind>) -> bool {
    &&& slot_route(p) == route ==> keep == Some(p.kind)
    &&& !is_ancestor(slot_route(p), route)
}

fn clear_pending_for_event(
    slots: Vec<OpenSlot>,
    route: &Vec<String>,
    keep: Option<StreamChunkKind>,
) -> (r: Vec<OpenSlot>)
    ensures
        forall|j: int|
            0 <= j < r@.len() ==> slots@.contains(#[trigger] r@[j]) && outlives(
                r@[j],
                text::views(route@),
                keep,
            ),
        forall|j: int|
            0 <= j < slots@.len() && outlives(
                #[trigger] slots@[j],
                text::views(route@),
                keep,
            ) ==> r@.contains(slots@[j]),
{
    let ghost all = slots@;
    let mut out: Vec<OpenSlot> = Vec::new();
    for slot in it: slots
        invariant
            it.seq() == all,
            forall|j: int|
                0 <= j < out@.len() ==> all.contains(#[trigger] out@[j]) && outlives(
                    out@[j],
                    text::views(route@),
                    keep,
                ),
            forall|j: int|
                0 <= j < it.index() && outlives(
                    #[trigger] all[j],
                    text::views(route@),
                    keep,
                ) ==> out@.contains(all[j]),
    {
        let own_route = same_route(&slot.route, route);
        let kept = match keep {
            Some(kind) => kind == slot.kind,
            None => false,
        };
        if own_route {
            if kept {
                let ghost before = out@;
                out.push(slot);
                proof {
                    assert(out@.last() == slot);
                    assert forall|x: OpenSlot| before.contains(x) implies out@.contains(x) by {
                        let i = before.index_of(x);
                        assert(out@[i] == x);
                    }
                }
            }
        } else if !is_proper_prefix(&slot.route, route) {
            let ghost before = out@;
            out.push(slot);
            proof {
                assert(out@.last() == slot);
                assert forall|x: OpenSlot| before.contains(x) implies out@.contains(x) by {
                    let i = before.index_of(x);
                    assert(out@[i] == x);
                }
            }
        }
    }
    out
}

proof fn lemma_lists_after_clear(
    slots: Seq<OpenSlot>,
    kept: Seq<OpenSlot>,
    s: Seq<ChunkView>,
    c: ChunkView,
)
    requires
        lists_open_slots(slots, s),
        !is_silent(c),
        forall|j: int|
            0 <= j < kept.len() ==> slots.contains(#[trigger] kept[j]) && outlives(
                kept[j],
                c.route,
                kind_of(c.leaf),
            ),
        forall|j: int|
            0 <= j < slots.len() && outlives(#[trigger] slots[j], c.route, kind_of(c.leaf))
                ==> kept.contains(slots[j]),
        kind_of(c.leaf) is Some ==> open_slot(s, c.route, kind_of(c.leaf)->0) is Some,
    ensures
        lists_open_slots(kept, s.push(c)),
{
    let t = s.push(c);
    assert(t.drop_last() =~= s);
    assert forall|j: int| 0 <= j < kept.len() implies open_slot(
        t,
        slot_route(#[trigger] kept[j]),
        kept[j].kind,
    ) == Some(kept[j].index as int) by {
        let i = slots.index_of(kept[j]);
        assert(slots[i] == kept[j]);
    }
    assert forall|r: Seq<Seq<char>>, k: StreamChunkKind| #[trigger]
        open_slot(t, r, k) is Some implies exists|j: int|
        0 <= j < kept.len() && slot_route(#[trigger] kept[j]) == r && kept[j].kind == k by {
        assert(open_slot(s, r, k) is Some);
        let i = choose|i: int|
            0 <= i < slots.len() && slot_route(#[trigger] slots[i]) == r && slots[i].kind == k;
        assert(outlives(slots[i], c.route, kind_of(c.leaf)));
        let j = kept.index_of(slots[i]);
        assert(kept[j] == slots[i]);
    }
}

proof fn lemma_lists_after_new(
    slots: Seq<OpenSlot>,
    kept: Seq<OpenSlot>,
    s: Seq<ChunkView>,
    c: ChunkView,
    fresh: OpenSlot,
)
    requires
        lists_open_slots(slots, s),
        !is_silent(c),
        kind_of(c.leaf) is Some,
        open_slot(s, c.route, kind_of(c.leaf)->0) is None,
        forall|j: int|
            0 <= j < kept.len() ==> slots.contains(#[trigger] kept[j]) && outlives(
                kept[j],
                c.route,
                kind_of(c.leaf),
            ),
        forall|j: int|
            0 <= j < slots.len() && outlives(#[trigger] slots[j], c.route, kind_of(c.leaf))
                ==> kept.contains(slots[j]),
        slot_route(fresh) == c.route,
        fresh.kind == kind_of(c.leaf)->0,
        fresh.index == coalesced(s).len(),
    ensures
        lists_open_slots(kept.push(fresh), s.push(c)),
{
    let t = s.push(c);
    let all = kept.push(fresh);
    assert(t.drop_last() =~= s);
    assert forall|j: int| 0 <= j < all.len() implies open_slot(
        t,
        slot_route(#[trigger] all[j]),
        all[j].kind,
    ) == Some(all[j].index as int) by {
        if j < kept.len() {
            assert(all[j] == kept[j]);
            let i = slots.index_of(kept[j]);
            assert(slots[i] == kept[j]);
        }
    }
    assert forall|r: Seq<Seq<char>>, k: StreamChunkKind| #[trigger]
        open_slot(t, r, k) is Some implies exists|j: int|
        0 <= j < all.len() && slot_route(#[trigger] all[j]) == r && all[j].kind == k by {
        if c.route == r && kind_of(c.leaf) == Some(k) {
            assert(all[all.len() - 1] == fresh);
        } else {
            assert(open_slot(s, r, k) is Some);
            let i = choose|i: int|
                0 <= i < slots.len() && slot_route(#[trigger] slots[i]) == r && slots[i].kind == k;
            assert(outlives(slots[i], c.route, kind_of(c.leaf)));
            let j = kept.index_of(slots[i]);
            assert(kept[j] == slots[i]);
            assert(all[j] == slots[i]);
        }
    }
}

fn find_slot(slots: &Vec<OpenSlot>, route: &Vec<String>, kind: StreamChunkKind) -> (r: Option<
    usize,
>)
    ensures
        match r {
            Some(j) => j < slots@.len() && slot_route(slots@[j as int]) == text::views(
                route@,
            ) && slots@[j as int].kind == kind,
            None => forall|j: int|
                0 <= j < slots@.len() ==> !(slot_route(#[trigger] slots@[j]) == text::views(
                    route@,
                ) && slots@[j].kind == kind),
        },
{
    for j in 0..slots.len()
        invariant
            forall|i: int|
                0 <= i < j ==> !(slot_route(#[trigger] slots@[i]) == text::views(route@)
                    && slots@[i].kind == kind),
    {
        if slots[j].kind == kind && same_route(&slots[j].route, route) {
            return Some(j);
        }
    }
    None
}

fn leaf_kind(leaf: &ChunkMessage) -> (r: Option<StreamChunkKind>)
    ensures
        r == kind_of(leaf_view(*leaf)),
{
    match leaf {
        ChunkMessage::Text(_) => Some(StreamChunkKind::Text),
        ChunkMessage::Reasoning(_) => Some(StreamChunkKind::Reasoning),
        ChunkMessage::Retry(_) => Some(StreamChunkKind::Retry),
        _ => None,
    }
}

fn leaf_is_silent(leaf: &ChunkMessage) -> (r: bool)
    ensures
        forall|route: Seq<Seq<char>>|
            r == #[trigger] is_silent(ChunkView { route, leaf: leaf_view(*leaf) }),
{
    match leaf {
        ChunkMessage::Text(text) => text.as_str().is_empty(),
        ChunkMessage::Reasoning(text) => text.as_str().is_empty(),
        _ => false,
    }
}

/// Joins `later` to `earlier`, which is of the same kind.
fn join_leaf(earlier: &mut ChunkMessage, later: ChunkMessage)
    requires
        kind_of(leaf_view(*old(earlier))) is Some,
        kind_of(leaf_view(*old(earlier))) == kind_of(leaf_view(later)),
    ensures
        leaf_view(*final(earlier)) == joined(leaf_view(*old(earlier)), leaf_view(later)),
        !(*final(earlier) is SubagentChunk),
{
    match later {
        ChunkMessage::Text(text) => match earlier {
            ChunkMessage::Text(previous) => {
                previous.append(text.as_str());
            },
            _ => {},
        },
        ChunkMessage::Reasoning(text) => match earlier {
            ChunkMessage::Reasoning(previous) => {
                previous.append(text.as_str());
            },
            _ => {},
        },
        other => {
            *earlier = other;
        },
    }
}

/// Merges a burst of chunks: text and reasoning of one session grow together, of several retry
/// notices the last one stays, and no chunk crosses another event of its own session or of a
/// session nested in it.
pub fn coalesce_streaming_chunks(chunks: Vec<ChunkMessage>) -> (r: Vec<ChunkMessage>)
    ensures
        chunk_views(r@) == coalesced(chunk_views(chunks@)),
{
    let ghost all = chunk_views(chunks@);
    let mut merged: Vec<RoutedChunk> = Vec::new();
    let mut slots: Vec<OpenSlot> = Vec::new();
    let ghost view = |c: RoutedChunk| routed_view(c);
    for chunk in it: chunks
        invariant
            all == chunk_views(it.seq()),
            view == (|c: RoutedChunk| routed_view(c)),
            merged@.map_values(view) == coalesced(all.take(it.index())),
            forall|i: int| 0 <= i < merged@.len() ==> !(#[trigger] merged@[i].leaf is SubagentChunk),
            lists_open_slots(slots@, all.take(it.index())),
    {
        let ghost seen = all.take(it.index());
        let routed = split_route(chunk);
        let ghost c = routed_view(routed);
        proof {
            assert(all[it.index()] == c);
            assert(all.take(it.index() + 1) =~= seen.push(c));
            assert(seen.push(c).drop_last() =~= seen);
        }
        if leaf_is_silent(&routed.leaf) {
            assert(is_silent(c));
            proof {
                lemma_lists_silent(slots@, seen, c);
            }
        } else {
            assert(!is_silent(c));
            let kind = leaf_kind(&routed.leaf);
            let ghost slots_before = slots@;
            slots = clear_pending_for_event(slots, &routed.route, kind);
            match kind {
                None => {
                    proof {
                        lemma_lists_after_clear(slots_before, slots@, seen, c);
                    }
                    merged.push(routed);
                    assert(merged@.map_values(view) =~= coalesced(seen).push(c));
                },
                Some(k) => {
                    proof {
                        lemma_open_slot_in_range(seen, c.route, k);
                    }
                    match find_slot(&slots, &routed.route, k) {
                        Some(j) => {
                            let index = slots[j].index;
                            proof {
                                let i = slots_before.index_of(slots@[j as int]);
                                assert(slots_before[i] == slots@[j as int]);
                                assert(open_slot(seen, c.route, k) == Some(index as int));
                                lemma_lists_after_clear(slots_before, slots@, seen, c);
                                assert(merged@.map_values(view)[index as int] == routed_view(
                                    merged@[index as int],
                                ));
                            }
                            let ghost merged_before = merged@;
                            join_leaf(&mut merged[index].leaf, routed.leaf);
                            proof {
                                assert(merged@.map_values(view) =~= coalesced(seen).update(
                                    index as int,
                                    ChunkView {
                                        route: c.route,
                                        leaf: joined(coalesced(seen)[index as int].leaf, c.leaf),
                                    },
                                ));
                            }
                        },
                        None => {
                            proof {
                                if open_slot(seen, c.route, k) is Some {
                                    let i = choose|i: int|
                                        0 <= i < slots_before.len() && slot_route(
                                            #[trigger] slots_before[i],
                                        ) == c.route && slots_before[i].kind == k;
                                    assert(outlives(slots_before[i], c.route, Some(k)));
                                    let j = slots@.index_of(slots_before[i]);
                                    assert(slots@[j] == slots_before[i]);
                                }
                            }
                            let fresh = OpenSlot {
                                route: text::copy_strings(&routed.route),
                                kind: k,
                                index: merged.len(),
                            };
                            proof {
                                assert(merged@.map_values(view).len() == merged@.len());
                                lemma_lists_after_new(slots_before, slots@, seen, c, fresh);
                            }
                            slots.push(fresh);
                            merged.push(routed);
                            assert(merged@.map_values(view) =~= coalesced(seen).push(c));
                        },
                    }
                },
            }
        }
    }
    assert(all.take(all.len() as int) =~= all);
    let ghost parts = merged@;
    let mut out: Vec<ChunkMessage> = Vec::new();
    for routed in it: merged
        invariant
            it.seq() == parts,
            view == (|c: RoutedChunk| routed_view(c)),
            forall|i: int| 0 <= i < parts.len() ==> !(#[trigger] parts[i].leaf is SubagentChunk),
            chunk_views(out@) == parts.map_values(view).take(it.index()),
    {
        let ghost before = out@;
        let chunk = wrap_route(routed);
        out.push(chunk);
        proof {
            assert(parts[it.index()] == routed);
            assert(parts.map_values(view)[it.index()] == routed_view(routed));
            assert(chunk_views(out@) =~= chunk_views(before).push(chunk_view(chunk)));
            assert(parts.map_values(view).take(it.index() + 1) =~= parts.map_values(view).take(
                it.index(),
            ).push(routed_view(routed)));
        }
    }
    assert(parts.map_values(view).take(parts.len() as int) =~= parts.map_values(view));
    out
}

proof fn lemma_lists_silent(slots: Seq<OpenSlot>, s: Seq<ChunkView>, c: ChunkView)
    requires
        lists_open_slots(slots, s),
        is_silent(c),
    ensures
        lists_open_slots(slots, s.push(c)),
{
    assert(s.push(c).drop_last() =~= s);
    assert forall|r: Seq<Seq<char>>, k: StreamChunkKind| #[trigger]
        open_slot(s.push(c), r, k) is Some implies exists|j: int|
        0 <= j < slots.len() && slot_route(#[trigger] slots[j]) == r && slots[j].kind == k by {
        assert(open_slot(s, r, k) is Some);
    }
}

/// The leaves that arrived on route `r`, in order.
pub open spec fn on_route(s: Seq<ChunkView>, r: Seq<Seq<char>>) -> Seq<LeafView>
    decreases s.len(),
{
    if s.len() == 0 {
        Seq::empty()
    } else if s.last().route == r {
        on_route(s.drop_last(), r).push(s.last().leaf)
    } else {
        on_route(s.drop_last(), r)
    }
}

/// What a reader of one session sees: silent leaves gone, neighbours of one kind joined.
pub open spec fn fused(s: Seq<LeafView>) -> Seq<LeafView>
    decreases s.len(),
{
    if s.len() == 0 {
        Seq::empty()
    } else {
        let before = fused(s.drop_last());
        let leaf = s.last();
        if is_silent(ChunkView { route: Seq::empty(), leaf }) {
            before
        } else if before.len() > 0 && kind_of(leaf) is Some && kind_of(before.last()) == kind_of(
            leaf,
        ) {
            before.update(before.len() - 1, joined(before.last(), leaf))
        } else {
            before.push(leaf)
        }
    }
}

/// The events that are neither text nor reasoning nor a retry notice, in order.
pub open spec fn other_events(s: Seq<ChunkView>) -> Seq<ChunkView> {
    s.filter(|c: ChunkView| kind_of(c.leaf) is None)
}

/// An open slot is the last merged chunk on its route.
proof fn lemma_open_slot_is_last(s: Seq<ChunkView>, r: Seq<Seq<char>>, k: StreamChunkKind)
    ensures
        open_slot(s, r, k) matches Some(i) ==> forall|j: int|
            i < j < coalesced(s).len() ==> #[trigger] coalesced(s)[j].route != r,
    decreases s.len(),
{
    if s.len() > 0 {
        let before = s.drop_last();
        let c = s.last();
        lemma_open_slot_is_last(before, r, k);
        lemma_open_slot_in_range(before, r, k);
        if !is_silent(c) && kind_of(c.leaf) is Some {
            lemma_open_slot_in_range(before, c.route, kind_of(c.leaf)->0);
        }
    }
}

proof fn lemma_no_silent_output(s: Seq<ChunkView>)
    ensures
        forall|j: int| 0 <= j < coalesced(s).len() ==> !is_silent(#[trigger] coalesced(s)[j]),
    decreases s.len(),
{
    if s.len() > 0 {
        lemma_no_silent_output(s.drop_last());
        let c = s.last();
        if !is_silent(c) && kind_of(c.leaf) is Some {
            lemma_open_slot_in_range(s.drop_last(), c.route, kind_of(c.leaf)->0);
        }
    }
}

proof fn lemma_on_route_update_elsewhere(
    s: Seq<ChunkView>,
    i: int,
    c: ChunkView,
    r: Seq<Seq<char>>,
)
    requires
        0 <= i < s.len(),
        s[i].route != r,
        c.route != r,
    ensures
        on_route(s.update(i, c), r) == on_route(s, r),
    decreases s.len(),
{
    if i == s.len() - 1 {
        assert(s.update(i, c).drop_last() =~= s.drop_last());
    } else {
        assert(s.update(i, c).drop_last() =~= s.drop_last().update(i, c));
        lemma_on_route_update_elsewhere(s.drop_last(), i, c, r);
    }
}

proof fn lemma_on_route_last(s: Seq<ChunkView>, i: int, c: ChunkView)
    requires
        0 <= i < s.len(),
        s[i].route == c.route,
        forall|j: int| i < j < s.len() ==> #[trigger] s[j].route != c.route,
    ensures
        on_route(s, c.route).len() > 0,
        on_route(s, c.route).last() == s[i].leaf,
        on_route(s.update(i, c), c.route) == on_route(s, c.route).drop_last().push(c.leaf),
    decreases s.len(),
{
    if i == s.len() - 1 {
        assert(s.update(i, c).drop_last() =~= s.drop_last());
        assert(on_route(s.drop_last(), c.route).push(s[i].leaf).drop_last() =~= on_route(
            s.drop_last(),
            c.route,
        ));
    } else {
        assert(s.update(i, c).drop_last() =~= s.drop_last().update(i, c));
        lemma_on_route_last(s.drop_last(), i, c);
    }
}

proof fn lemma_fused_join(s: Seq<LeafView>, a: LeafView, b: LeafView)
    requires
        kind_of(a) is Some,
        kind_of(a) == kind_of(b),
        !is_silent(ChunkView { route: Seq::empty(), leaf: a }),
        !is_silent(ChunkView { route: Seq::empty(), leaf: b }),
    ensures
        fused(s.push(a).push(b)) == fused(s.push(joined(a, b))),
{
    let f = fused(s);
    assert(s.push(a).push(b).drop_last() =~= s.push(a));
    assert(s.push(a).drop_last() =~= s);
    assert(s.push(joined(a, b)).drop_last() =~= s);
    let fa = fused(s.push(a));
    if f.len() > 0 && kind_of(f.last()) == kind_of(a) {
        assert(fa == f.update(f.len() - 1, joined(f.last(), a)));
        assert(joined(joined(f.last(), a), b) == joined(f.last(), joined(a, b))) by {
            match (f.last(), a, b) {
                (LeafView::Text(x), LeafView::Text(y), LeafView::Text(z)) => {
                    assert((x + y) + z =~= x + (y + z));
                },
                (LeafView::Reasoning(x), LeafView::Reasoning(y), LeafView::Reasoning(z)) => {
                    assert((x + y) + z =~= x + (y + z));
                },
                _ => {},
            }
        }
        assert(fused(s.push(a).push(b)) =~= fused(s.push(joined(a, b))));
    } else {
        assert(fa == f.push(a));
        assert(f.push(a).update(f.len() as int, joined(a, b)) =~= f.push(joined(a, b)));
    }
}

/// Merging changes nothing that a reader of a single session sees: on every route the events,
/// with neighbouring text, reasoning and retry notices joined, are the same before and after.
pub proof fn law_coalescing_keeps_each_session(s: Seq<ChunkView>, r: Seq<Seq<char>>)
    ensures
        fused(on_route(coalesced(s), r)) == fused(on_route(s, r)),
    decreases s.len(),
{
    if s.len() > 0 {
        let before = s.drop_last();
        let c = s.last();
        let out = coalesced(before);
        law_coalescing_keeps_each_session(before, r);
        let seen = on_route(before, r);
        let merged = on_route(out, r);
        if c.route == r {
            assert(on_route(s, r) == seen.push(c.leaf));
            assert(seen.push(c.leaf).drop_last() =~= seen);
        }
        if is_silent(c) {
        } else {
            let slot = match kind_of(c.leaf) {
                Some(k) => open_slot(before, c.route, k),
                None => None,
            };
            if kind_of(c.leaf) is Some {
                lemma_open_slot_in_range(before, c.route, kind_of(c.leaf)->0);
                lemma_open_slot_is_last(before, c.route, kind_of(c.leaf)->0);
            }
            match slot {
                None => {
                    assert(out.push(c).drop_last() =~= out);
                    if c.route == r {
                        assert(merged.push(c.leaf).drop_last() =~= merged);
                    }
                },
                Some(i) => {
                    let grown = ChunkView { route: c.route, leaf: joined(out[i].leaf, c.leaf) };
                    if c.route == r {
                        lemma_no_silent_output(before);
                        lemma_on_route_last(out, i, grown);
                        let x = merged.drop_last();
                        assert(merged =~= x.push(out[i].leaf));
                        lemma_fused_join(x, out[i].leaf, c.leaf);
                        assert(merged.push(c.leaf).drop_last() =~= merged);
                        assert(fused(on_route(coalesced(s), r)) == fused(merged.push(c.leaf)));
                        assert(fused(merged.push(c.leaf)) == fused(seen.push(c.leaf)));
                    } else {
                        lemma_on_route_update_elsewhere(out, i, grown, r);
                    }
                },
            }
        }
    }
}

proof fn lemma_filter_update_false(s: Seq<ChunkView>, i: int, c: ChunkView)
    requires
        0 <= i < s.len(),
        kind_of(s[i].leaf) is Some,
        kind_of(c.leaf) is Some,
    ensures
        other_events(s.update(i, c)) == other_events(s),
    decreases s.len(),
{
    reveal(Seq::filter);
    if i == s.len() - 1 {
        assert(s.update(i, c).drop_last() =~= s.drop_last());
    } else {
        assert(s.update(i, c).drop_last() =~= s.drop_last().update(i, c));
        lemma_filter_update_false(s.drop_last(), i, c);
    }
}

/// Every other event comes out once, unchanged and in the order of arrival.
pub proof fn law_coalescing_keeps_other_events(s: Seq<ChunkView>)
    ensures
        other_events(coalesced(s)) == other_events(s),
    decreases s.len(),
{
    reveal(Seq::filter);
    if s.len() > 0 {
        let before = s.drop_last();
        let c = s.last();
        let out = coalesced(before);
        law_coalescing_keeps_other_events(before);
        if !is_silent(c) {
            match kind_of(c.leaf) {
                Some(k) => {
                    lemma_open_slot_in_range(before, c.route, k);
                    match open_slot(before, c.route, k) {
                        Some(i) => lemma_filter_update_false(
                            out,
                            i,
                            ChunkView { route: c.route, leaf: joined(out[i].leaf, c.leaf) },
                        ),
                        None => assert(out.push(c).drop_last() =~= out),
                    }
                },
                None => assert(out.push(c).drop_last() =~= out),
            }
        }
    }
}

/// Merging never makes a burst longer.
pub proof fn law_coalescing_never_grows(s: Seq<ChunkView>)
    ensures
        coalesced(s).len() <= s.len(),
    decreases s.len(),
{
    if s.len() > 0 {
        law_coalescing_never_grows(s.drop_last());
        let c = s.last();
        if !is_silent(c) && kind_of(c.leaf) is Some {
            lemma_open_slot_in_range(s.drop_last(), c.route, kind_of(c.leaf)->0);
        }
    }
}

} // verus!

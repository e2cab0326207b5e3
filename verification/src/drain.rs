//! Taking chunks off the stream channels within a frame's limits.

use crate::chunks::ChunkMessage;
use crate::clock;
use crate::clock::TimeBudget;
use crate::sorting;
use crate::sorting::Ranked;
use vstd::prelude::*;

verus! {

/// Tokio's receiving half of an unbounded channel; opaque.
#[verifier::external_type_specification]
#[verifier::external_body]
#[verifier::reject_recursive_types(T)]
pub struct ExUnboundedReceiver<T>(tokio::sync::mpsc::UnboundedReceiver<T>);

/// At most this many chunks are taken from one session in one turn.
pub const STREAM_CHUNK_DRAIN_LIMIT: usize = 8192;

/// At most this many chunks are taken from all sessions in one frame.
pub const STREAM_CHUNK_GLOBAL_DRAIN_LIMIT: usize = 1024;

/// At most this long is spent on taking chunks in one frame, in nanoseconds.
pub const STREAM_CHUNK_GLOBAL_DRAIN_TIME_BUDGET: u128 = 4_000_000;

/// What one look at a channel gives.
pub enum Received {
    Chunk(ChunkMessage),
    Empty,
    Disconnected,
}

/// A session's channel.
pub struct StreamSource {
    pub session_id: String,
    pub receiver: tokio::sync::mpsc::UnboundedReceiver<ChunkMessage>,
}

/// What was taken from one session in one turn.
pub struct Drained {
    pub session_id: String,
    pub chunks: Vec<ChunkMessage>,
    pub disconnected: bool,
}

pub struct TurnView {
    pub session_id: Seq<char>,
    pub chunks: Seq<ChunkMessage>,
    pub disconnected: bool,
}

impl View for Drained {
    type V = TurnView;

    open spec fn view(&self) -> TurnView {
        TurnView {
            session_id: self.session_id@,
            chunks: self.chunks@,
            disconnected: self.disconnected,
        }
    }
}

pub open spec fn turn_views(turns: Seq<Drained>) -> Seq<TurnView> {
    turns.map_values(|t: Drained| t@)
}

/// Everything that has ever been taken out of a channel, in order.
pub uninterp spec fn taken_from(
    receiver: tokio::sync::mpsc::UnboundedReceiver<ChunkMessage>,
) -> Seq<ChunkMessage>;

/// What every look at a channel has ever told, in order.
pub uninterp spec fn looks_at(
    receiver: tokio::sync::mpsc::UnboundedReceiver<ChunkMessage>,
) -> Seq<Received>;

/// `UnboundedReceiver::try_recv` takes the next chunk without waiting, or tells that there is
/// none now, or that there never will be one; a chunk that it hands out is taken out of the
/// channel, and nothing else is. Which of these comes, and what the senders have put in, rests on
/// the senders, so nothing is claimed of it; what it told is the latest look at the channel.
#[verifier::external_body]
fn receive(receiver: &mut tokio::sync::mpsc::UnboundedReceiver<ChunkMessage>) -> (r: Received)
    ensures
        looks_at(*final(receiver)) == looks_at(*old(receiver)).push(r),
        taken_from(*final(receiver)) == match r {
            Received::Chunk(chunk) => taken_from(*old(receiver)).push(chunk),
            _ => taken_from(*old(receiver)),
        },
{
    match receiver.try_recv() {
        Ok(chunk) => Received::Chunk(chunk),
        Err(tokio::sync::mpsc::error::TryRecvError::Empty) => Received::Empty,
        Err(tokio::sync::mpsc::error::TryRecvError::Disconnected) => Received::Disconnected,
    }
}

/// Puts what one look at a channel gave to what was taken before; the answer tells whether to
/// look again.
pub fn take_received(
    chunks: &mut Vec<ChunkMessage>,
    disconnected: &mut bool,
    received: Received,
) -> (more: bool)
    ensures
        match received {
            Received::Chunk(chunk) => final(chunks)@ == old(chunks)@.push(chunk)
                && *final(disconnected) == *old(disconnected) && more,
            Received::Empty => final(chunks)@ == old(chunks)@ && *final(disconnected) == *old(
                disconnected,
            ) && !more,
            Received::Disconnected => final(chunks)@ == old(chunks)@ && *final(disconnected)
                && !more,
        },
{
    match received {
        Received::Chunk(chunk) => {
            chunks.push(chunk);
            true
        },
        Received::Empty => false,
        Received::Disconnected => {
            *disconnected = true;
            false
        },
    }
}

/// Whether a chunk is one of those after which the clock is read: every sixty-fourth.
pub fn reads_clock(taken: usize) -> (r: bool)
    ensures
        r == (taken % 64 == 0),
{
    taken % 64 == 0
}

/// The looks that gave chunks.
pub open spec fn as_looks(chunks: Seq<ChunkMessage>) -> Seq<Received> {
    chunks.map_values(|c: ChunkMessage| Received::Chunk(c))
}

/// What draining a channel can come to. It is looked at again and again; every look but the last
/// gave a chunk, and the last one too unless it told that the channel is empty, or that its
/// senders are gone. Where no look told either, as many chunks were taken as may be, or the time
/// was up, which can only be after every sixty-fourth.
pub open spec fn is_drained(
    before: Seq<Received>,
    after: Seq<Received>,
    chunks: Seq<ChunkMessage>,
    disconnected: bool,
    limit: usize,
) -> bool {
    let was = before + as_looks(chunks);
    if disconnected {
        after == was.push(Received::Disconnected) && chunks.len() < limit
    } else {
        ||| after == was.push(Received::Empty) && chunks.len() < limit
        ||| after == was && (chunks.len() == limit || (0 < chunks.len() < limit && chunks.len() % 64
            == 0))
    }
}

/// When draining a channel stops for the time: the clock is read after every sixty-fourth chunk,
/// and draining stops at the first reading that is not under the budget, and for no other reason
/// where the channel and the limit would have allowed more.
pub open spec fn keeps_time(
    before: Seq<Received>,
    after: Seq<Received>,
    chunks: Seq<ChunkMessage>,
    limit: usize,
    readings: Seq<u128>,
    budget: u128,
) -> bool {
    &&& readings.len() == chunks.len() / 64
    &&& forall|i: int| 0 <= i < readings.len() - 1 ==> #[trigger] readings[i] < budget
    &&& readings.len() > 0 && readings.last() >= budget ==> chunks.len() % 64 == 0 && after
        == before + as_looks(chunks)
    &&& after == before + as_looks(chunks) && chunks.len() < limit ==> readings.len() > 0
        && readings.last() >= budget
}

/// Takes up to `limit` chunks from one channel, and tells whether its senders are gone. What is
/// handed out is what was taken out of the channel, in order.
pub fn drain_streaming_chunks(
    receiver: &mut tokio::sync::mpsc::UnboundedReceiver<ChunkMessage>,
    limit: usize,
    time: &mut TimeBudget,
) -> (r: (Vec<ChunkMessage>, bool))
    ensures
        taken_from(*final(receiver)) == taken_from(*old(receiver)) + r.0@,
        is_drained(looks_at(*old(receiver)), looks_at(*final(receiver)), r.0@, r.1, limit),
        clock::runs_on(*old(time), *final(time)),
        keeps_time(
            looks_at(*old(receiver)),
            looks_at(*final(receiver)),
            r.0@,
            limit,
            clock::read_since(*old(time), *final(time)),
            old(time).budget(),
        ),
{
    let budget: u128 = time.amount();
    let mut chunks: Vec<ChunkMessage> = Vec::new();
    let mut disconnected = false;
    let mut more = true;
    let ghost first = *time;
    let ghost before = taken_from(*receiver);
    let ghost seen = looks_at(*receiver);
    proof {
        assert(before + chunks@ =~= before);
        assert(seen + as_looks(chunks@) =~= seen);
        assert(first.readings().take(first.readings().len() as int) =~= first.readings());
        assert(clock::read_since(first, *time) =~= Seq::<u128>::empty());
    }
    while more && chunks.len() < limit
        invariant
            clock::runs_on(first, *time),
            first.budget() == budget,
            taken_from(*receiver) == before + chunks@,
            chunks@.len() <= limit,
            more ==> !disconnected && looks_at(*receiver) == seen + as_looks(chunks@) && forall|i: int|
                0 <= i < clock::read_since(first, *time).len() ==> #[trigger] clock::read_since(
                    first,
                    *time,
                )[i] < budget,
            clock::read_since(first, *time).len() == chunks@.len() / 64,
            !more ==> is_drained(seen, looks_at(*receiver), chunks@, disconnected, limit)
                && keeps_time(
                seen,
                looks_at(*receiver),
                chunks@,
                limit,
                clock::read_since(first, *time),
                budget,
            ),
        decreases (if more { 1int } else { 0int }) + limit - chunks@.len(),
    {
        let ghost so_far = chunks@;
        let ghost was = *time;
        let received = receive(receiver);
        let ghost got = received;
        more = take_received(&mut chunks, &mut disconnected, received);
        proof {
            if let Received::Chunk(chunk) = got {
                assert((before + so_far).push(chunk) =~= before + so_far.push(chunk));
                assert((seen + as_looks(so_far)).push(got) =~= seen + as_looks(chunks@));
            } else {
                assert(looks_at(*receiver).len() == seen.len() + so_far.len() + 1);
            }
        }
        if more && reads_clock(chunks.len()) {
            let elapsed = time.elapsed();
            proof {
                clock::lemma_read_on(first, was, *time, elapsed);
            }
            if clock::is_spent(elapsed, budget) {
                more = false;
            }
        }
    }
    (chunks, disconnected)
}

/// A session's channel, by the session's id.
pub struct SourceView {
    pub id: Seq<char>,
    pub receiver: tokio::sync::mpsc::UnboundedReceiver<ChunkMessage>,
}

impl View for StreamSource {
    type V = SourceView;

    open spec fn view(&self) -> SourceView {
        SourceView { id: self.session_id@, receiver: self.receiver }
    }
}

impl Ranked for StreamSource {
    open spec fn precedes(a: SourceView, b: SourceView) -> bool {
        sorting::text_precedes(a.id, b.id)
    }

    proof fn lemma_rank(a: SourceView, b: SourceView, c: SourceView) {
        sorting::lemma_text_order(a.id, b.id, c.id);
        sorting::lemma_text_order(b.id, a.id, c.id);
    }

    fn goes_before(&self, other: &Self) -> bool {
        sorting::text_before(self.session_id.as_str(), other.session_id.as_str())
    }
}

pub open spec fn sources(s: Seq<StreamSource>) -> Seq<SourceView> {
    sorting::shown(s)
}

/// The channels in the order in which they have their turns: by the ids of their sessions.
pub open spec fn in_turn(s: Seq<StreamSource>) -> Seq<SourceView> {
    sorting::sorted::<StreamSource>(sources(s))
}

/// No two channels belong to one session.
pub open spec fn has_distinct_ids(s: Seq<SourceView>) -> bool {
    forall|i: int, j: int| 0 <= i < j < s.len() ==> #[trigger] s[i].id != #[trigger] s[j].id
}

/// The chunks of the turns that bear an id, one turn's after the other's.
pub open spec fn chunks_of(turns: Seq<Drained>, id: Seq<char>) -> Seq<ChunkMessage>
    decreases turns.len(),
{
    if turns.len() == 0 {
        Seq::empty()
    } else {
        chunks_of(turns.drop_last(), id) + if turns.last().session_id@ == id {
            turns.last().chunks@
        } else {
            Seq::empty()
        }
    }
}

/// What was taken out of the channels are the turns: each channel has stayed with its session,
/// and what was taken out of it has grown by the chunks of its session's turns.
pub open spec fn is_fed_by(
    before: Seq<SourceView>,
    after: Seq<SourceView>,
    turns: Seq<Drained>,
) -> bool {
    &&& after.len() == before.len()
    &&& forall|i: int| 0 <= i < before.len() ==> #[trigger] after[i].id == before[i].id
    &&& has_distinct_ids(before) ==> forall|i: int|
        0 <= i < before.len() ==> #[trigger] taken_from(after[i].receiver) == taken_from(
            before[i].receiver,
        ) + chunks_of(turns, before[i].id)
}

/// One look at a channel in a frame: what it gave, what the clock read before it and which of the
/// frame's readings that was, and the readings while the channel was drained.
pub struct Visit {
    pub chunks: Seq<ChunkMessage>,
    pub disconnected: bool,
    pub at: u128,
    pub reading: int,
    pub readings: Seq<u128>,
}

impl Visit {
    pub open spec fn gives(self) -> bool {
        self.chunks.len() > 0 || self.disconnected
    }
}

/// What a frame goes by.
pub struct FrameView {
    pub channels: Seq<SourceView>,
    pub per_session_limit: usize,
    pub global_limit: usize,
    pub budget: u128,
    pub rotation: usize,
}

impl FrameView {
    pub open spec fn count(self) -> int {
        self.channels.len() as int
    }

    /// The channel that is visited as number `k`: one after the other from `rotation` on, round
    /// and round.
    pub open spec fn place(self, k: int) -> int {
        (self.rotation + k) % self.count()
    }

    /// How many chunks the next visit may take.
    pub open spec fn limit(self, taken: nat) -> usize {
        if self.per_session_limit < self.global_limit - taken {
            self.per_session_limit
        } else {
            (self.global_limit - taken) as usize
        }
    }

    /// Where the next frame begins after `visits` visits: behind the channel visited last.
    pub open spec fn next(self, visits: int) -> int {
        if visits == 0 {
            self.rotation as int
        } else {
            self.place(visits)
        }
    }
}

/// How many chunks the visits took.
pub open spec fn taken_in(visits: Seq<Visit>) -> nat
    decreases visits.len(),
{
    if visits.len() == 0 {
        0
    } else {
        taken_in(visits.drop_last()) + visits.last().chunks.len()
    }
}

/// The turns that visits come to: those that gave something, each under the id of its channel.
pub open spec fn turns_of(f: FrameView, visits: Seq<Visit>) -> Seq<TurnView>
    decreases visits.len(),
{
    if visits.len() == 0 {
        Seq::empty()
    } else {
        let v = visits.last();
        let before = turns_of(f, visits.drop_last());
        if v.gives() {
            before.push(
                TurnView {
                    session_id: f.channels[f.place(visits.len() - 1)].id,
                    chunks: v.chunks,
                    disconnected: v.disconnected,
                },
            )
        } else {
            before
        }
    }
}

/// Visit `k` drained its channel, and no other, within what was left of the limits and with an
/// equal share of the time that was left in the round.
pub open spec fn is_visit(
    f: FrameView,
    states: Seq<Seq<SourceView>>,
    visits: Seq<Visit>,
    k: int,
) -> bool {
    let i = f.place(k);
    let v = visits[k];
    let was = states[k][i];
    let is = states[k + 1][i];
    let limit = f.limit(taken_in(visits.take(k)));
    &&& taken_in(visits.take(k)) < f.global_limit
    &&& v.at < f.budget
    &&& states[k + 1] == states[k].update(i, is)
    &&& is.id == was.id
    &&& taken_from(is.receiver) == taken_from(was.receiver) + v.chunks
    &&& is_drained(
        looks_at(was.receiver),
        looks_at(is.receiver),
        v.chunks,
        v.disconnected,
        limit,
    )
    &&& keeps_time(
        looks_at(was.receiver),
        looks_at(is.receiver),
        v.chunks,
        limit,
        v.readings,
        turn_share((f.budget - v.at) as u128, (f.count() - k % f.count()) as nat),
    )
}

/// What the clock read before the visits are readings of the frame's time, one after the other.
pub open spec fn are_read(visits: Seq<Visit>, readings: Seq<u128>) -> bool {
    &&& forall|k: int|
        0 <= k < visits.len() ==> 0 <= (#[trigger] visits[k]).reading < readings.len()
            && readings[visits[k].reading] == visits[k].at
    &&& forall|j: int, k: int|
        0 <= j < k < visits.len() ==> (#[trigger] visits[j]).reading < (#[trigger] visits[k]).reading
}

/// The whole round that ends before visit `k` gave nothing.
pub open spec fn is_idle_round(visits: Seq<Visit>, count: int, k: int) -> bool {
    forall|j: int| k - count <= j < k ==> !(#[trigger] visits[j]).gives()
}

/// A run of visits from the first state of the channels to the last.
pub open spec fn is_run(
    f: FrameView,
    states: Seq<Seq<SourceView>>,
    visits: Seq<Visit>,
    readings: Seq<u128>,
) -> bool {
    &&& states.len() == visits.len() + 1
    &&& states[0] == f.channels
    &&& forall|k: int| 0 <= k < visits.len() ==> #[trigger] is_visit(f, states, visits, k)
    &&& are_read(visits, readings)
    &&& taken_in(visits) <= f.global_limit
}

/// A run ends where the limit is reached, at a reading of the clock that is not under the budget,
/// or where a whole round has given nothing.
pub open spec fn is_over(f: FrameView, visits: Seq<Visit>, readings: Seq<u128>) -> bool {
    ||| taken_in(visits) == f.global_limit
    ||| readings.len() > 0 && readings.last() >= f.budget
    ||| visits.len() > 0 && visits.len() as int % f.count() == 0 && is_idle_round(
        visits,
        f.count(),
        visits.len() as int,
    )
}

/// No earlier visit and no earlier reading was the end of a run.
pub open spec fn is_first_end(f: FrameView, visits: Seq<Visit>, readings: Seq<u128>) -> bool {
    &&& forall|i: int| 0 <= i < readings.len() - 1 ==> #[trigger] readings[i] < f.budget
    &&& forall|k: int|
        0 < k < visits.len() && k % f.count() == 0 ==> !#[trigger] is_idle_round(
            visits,
            f.count(),
            k,
        )
}

/// A whole frame: a run to its end, and the turns that it came to.
pub open spec fn is_frame(
    f: FrameView,
    states: Seq<Seq<SourceView>>,
    visits: Seq<Visit>,
    readings: Seq<u128>,
    turns: Seq<Drained>,
    next: usize,
) -> bool {
    &&& is_run(f, states, visits, readings)
    &&& is_over(f, visits, readings)
    &&& is_first_end(f, visits, readings)
    &&& turn_views(turns) == turns_of(f, visits)
    &&& next == f.next(visits.len() as int)
}

/// What taking chunks in one frame can come to: `turns` out of `before`, which is left as `after`,
/// with the given readings of the clock.
pub open spec fn is_harvest(
    before: Seq<StreamSource>,
    after: Seq<StreamSource>,
    turns: Seq<Drained>,
    f: FrameView,
    readings: Seq<u128>,
    next: usize,
) -> bool {
    &&& f.channels == in_turn(before)
    &&& is_fed_by(in_turn(before), sources(after), turns)
    &&& exists|states: Seq<Seq<SourceView>>, visits: Seq<Visit>| #[trigger]
        is_frame(f, states, visits, readings, turns, next) && states.last() == sources(after)
}

proof fn lemma_sorted_distinct(s: Seq<SourceView>)
    requires
        has_distinct_ids(s),
    ensures
        has_distinct_ids(sorting::sorted::<StreamSource>(s)),
        forall|i: int|
            0 <= i < sorting::sorted::<StreamSource>(s).len() ==> s.contains(
                #[trigger] sorting::sorted::<StreamSource>(s)[i],
            ),
    decreases s.len(),
{
    let r = sorting::sorted::<StreamSource>(s);
    if s.len() > 0 {
        let head = s.drop_last();
        let x = s.last();
        lemma_sorted_distinct(head);
        let t = sorting::sorted::<StreamSource>(head);
        let p = sorting::place::<StreamSource>(t, x);
        sorting::law_sorted::<StreamSource>(head);
        sorting::law_sorted::<StreamSource>(s);
        sorting::lemma_place::<StreamSource>(t, x);
        assert forall|i: int| 0 <= i < t.len() implies (#[trigger] t[i]).id != x.id by {
            assert(head.contains(t[i]));
            let k = head.index_of(t[i]);
            assert(s[k] == t[i]);
            assert(s[k].id != s[s.len() - 1].id);
        }
        assert forall|i: int| 0 <= i < r.len() implies s.contains(#[trigger] r[i]) by {
            if i == p {
                assert(s[s.len() - 1] == x);
            } else {
                let k = if i < p {
                    i
                } else {
                    i - 1
                };
                assert(r[i] == t[k]);
                let m = head.index_of(t[k]);
                assert(s[m] == t[k]);
            }
        }
        assert forall|i: int, j: int| 0 <= i < j < r.len() implies #[trigger] r[i].id
            != #[trigger] r[j].id by {
            let a = if i < p {
                i
            } else {
                i - 1
            };
            let b = if j < p {
                j
            } else {
                j - 1
            };
            if i == p {
                assert(r[j] == t[b]);
            } else if j == p {
                assert(r[i] == t[a]);
            } else {
                assert(r[i] == t[a] && r[j] == t[b]);
                assert(t[a].id != t[b].id);
            }
        }
    }
}

/// Where no two channels belong to one session, each channel gives exactly its session's turns:
/// whatever the order in which the channels were handed in.
pub proof fn law_turns_are_what_was_taken(
    before: Seq<StreamSource>,
    after: Seq<StreamSource>,
    turns: Seq<Drained>,
    i: int,
)
    requires
        has_distinct_ids(sources(before)),
        is_fed_by(in_turn(before), sources(after), turns),
        0 <= i < after.len(),
    ensures
        after[i].session_id@ == in_turn(before)[i].id,
        taken_from(after[i].receiver) == taken_from(in_turn(before)[i].receiver) + chunks_of(
            turns,
            after[i].session_id@,
        ),
{
    lemma_sorted_distinct(sources(before));
    assert(sources(after)[i].id == in_turn(before)[i].id);
    assert(taken_from(sources(after)[i].receiver) == taken_from(in_turn(before)[i].receiver)
        + chunks_of(turns, in_turn(before)[i].id));
}

/// The time that one of `left` sessions may use of what remains, never less than a nanosecond.
/// The share is by a 32-bit count; where that count is zero, all that remains may be used.
pub open spec fn turn_share(remaining: u128, left: nat) -> u128 {
    let divisor = (left % 0x1_0000_0000) as u128;
    let share = if divisor == 0 {
        remaining
    } else {
        remaining / divisor
    };
    if share == 0 {
        1
    } else {
        share
    }
}

pub fn turn_budget(remaining: u128, left: usize) -> (r: u128)
    ensures
        r == turn_share(remaining, left as nat),
{
    let divisor: u128 = (left as u128) % 0x1_0000_0000;
    let share: u128 = if divisor == 0 {
        remaining
    } else {
        remaining / divisor
    };
    if share == 0 {
        1
    } else {
        share
    }
}

/// Notes what one look at a channel gave, if it gave anything; the answer tells whether it did.
pub fn note_turn(
    drained: &mut Vec<Drained>,
    session_id: String,
    chunks: Vec<ChunkMessage>,
    disconnected: bool,
) -> (noted: bool)
    ensures
        noted == (chunks@.len() > 0 || disconnected),
        final(drained)@ == if noted {
            old(drained)@.push(Drained { session_id, chunks, disconnected })
        } else {
            old(drained)@
        },
{
    if chunks.len() > 0 || disconnected {
        drained.push(Drained { session_id, chunks, disconnected });
        true
    } else {
        false
    }
}

proof fn lemma_next_place(start: int, looks: int, count: int)
    requires
        0 <= start,
        0 <= looks,
        0 < count,
    ensures
        ((start + looks) % count + 1) % count == (start + looks + 1) % count,
{
    vstd::arithmetic::div_mod::lemma_add_mod_noop(start + looks, 1, count);
    if count == 1 {
        assert((start + looks + 1) % 1 == 0);
        assert(((start + looks) % 1 + 1) % 1 == 0);
    } else {
        vstd::arithmetic::div_mod::lemma_small_mod(1, count as nat);
    }
}

proof fn lemma_same_place(rotation: int, done: int, step: int, count: int)
    requires
        0 <= rotation,
        0 <= done,
        0 <= step,
        0 < count,
        done % count == 0,
    ensures
        (rotation % count + step) % count == (rotation + (done + step)) % count,
{
    vstd::arithmetic::div_mod::lemma_add_mod_noop(rotation, step, count);
    vstd::arithmetic::div_mod::lemma_add_mod_noop(rotation % count, step, count);
    vstd::arithmetic::div_mod::lemma_mod_twice(rotation, count);
    vstd::arithmetic::div_mod::lemma_add_mod_noop(rotation + step, done, count);
    assert((rotation + step) % count + 0 == (rotation + step) % count);
    vstd::arithmetic::div_mod::lemma_mod_twice(rotation + step, count);
    assert(rotation + step + done == rotation + (done + step));
}

/// A turn more, from the channel at `index`, grows what was taken out of that channel alone.
proof fn lemma_fed(
    before: Seq<SourceView>,
    mid: Seq<SourceView>,
    after: Seq<SourceView>,
    turns: Seq<Drained>,
    more: Seq<Drained>,
    index: int,
    chunks: Seq<ChunkMessage>,
)
    requires
        is_fed_by(before, mid, turns),
        0 <= index < before.len(),
        after.len() == mid.len(),
        forall|i: int| 0 <= i < mid.len() && i != index ==> #[trigger] after[i] == mid[i],
        after[index].id == mid[index].id,
        taken_from(after[index].receiver) == taken_from(mid[index].receiver) + chunks,
        more == turns && chunks.len() == 0 || more.len() == turns.len() + 1 && more.drop_last()
            == turns && more.last().session_id@ == before[index].id && more.last().chunks@ == chunks,
    ensures
        is_fed_by(before, after, more),
{
    assert forall|i: int| 0 <= i < before.len() implies #[trigger] after[i].id == before[i].id by {
        assert(mid[i].id == before[i].id);
    }
    if has_distinct_ids(before) {
        assert forall|i: int| 0 <= i < before.len() implies #[trigger] taken_from(after[i].receiver)
            == taken_from(before[i].receiver) + chunks_of(more, before[i].id) by {
            assert(taken_from(mid[i].receiver) == taken_from(before[i].receiver) + chunks_of(
                turns,
                before[i].id,
            ));
            if i == index {
                if more == turns {
                    assert(taken_from(mid[i].receiver) + chunks =~= taken_from(mid[i].receiver));
                } else {
                    assert(taken_from(before[i].receiver) + chunks_of(turns, before[i].id) + chunks
                        =~= taken_from(before[i].receiver) + (chunks_of(turns, before[i].id)
                        + chunks));
                }
            } else {
                assert(after[i] == mid[i]);
                if i < index {
                    assert(before[i].id != before[index].id);
                } else {
                    assert(before[index].id != before[i].id);
                }
                if more != turns {
                    assert(chunks_of(more, before[i].id) =~= chunks_of(turns, before[i].id));
                }
            }
        }
    }
}

/// The run goes on with one more visit.
proof fn lemma_visited(
    f: FrameView,
    states: Seq<Seq<SourceView>>,
    visits: Seq<Visit>,
    readings: Seq<u128>,
    v: Visit,
    after: Seq<SourceView>,
)
    requires
        is_run(f, states, visits, readings),
        is_visit(f, states.push(after), visits.push(v), visits.len() as int),
        0 <= v.reading < readings.len(),
        readings[v.reading] == v.at,
        forall|k: int| 0 <= k < visits.len() ==> (#[trigger] visits[k]).reading < v.reading,
        taken_in(visits) + v.chunks.len() <= f.global_limit,
    ensures
        is_run(f, states.push(after), visits.push(v), readings),
{
    let s = states.push(after);
    let w = visits.push(v);
    assert(w.drop_last() =~= visits);
    assert forall|k: int| 0 <= k < w.len() implies #[trigger] is_visit(f, s, w, k) by {
        if k < visits.len() {
            assert(is_visit(f, states, visits, k));
            assert(w.take(k) =~= visits.take(k));
            assert(s[k] == states[k] && s[k + 1] == states[k + 1] && w[k] == visits[k]);
        }
    }
}

/// Rounds that were not idle stay so by another visit.
proof fn lemma_busy_rounds(f: FrameView, visits: Seq<Visit>, v: Visit, k: int)
    requires
        0 < k <= visits.len(),
        f.count() > 0,
        k % f.count() == 0,
        !is_idle_round(visits, f.count(), k),
    ensures
        !is_idle_round(visits.push(v), f.count(), k),
{
    let n = f.count();
    let j = choose|j: int| k - n <= j < k && (#[trigger] visits[j]).gives();
    assert(k >= n) by (nonlinear_arith)
        requires
            0 < k,
            k % n == 0,
            n > 0,
    ;
    assert(visits.push(v)[j] == visits[j]);
}

/// Takes chunks from all sessions in turn, in the order of their ids, beginning where the last
/// frame left off, until the frame's limits are reached or no session has more. What comes at each
/// look rests on the senders, and what the clock reads is not known beforehand; what was taken is
/// handed out under the id of the session whose channel it was taken from, in order, and nothing
/// but the limit, the clock and a round in vain ends the frame.
pub fn drain_streaming_chunks_global(
    sessions: &mut Vec<StreamSource>,
    per_session_limit: usize,
    global_limit: usize,
    time: &mut TimeBudget,
    rotation: usize,
) -> (r: (Vec<Drained>, usize))
    ensures
        clock::runs_on(*old(time), *final(time)),
        old(sessions)@.len() == 0 ==> r.0@.len() == 0 && r.1 == rotation && final(sessions)@.len()
            == 0,
        old(sessions)@.len() > 0 ==> is_harvest(
            old(sessions)@,
            final(sessions)@,
            r.0@,
            (FrameView {
                channels: in_turn(old(sessions)@),
                per_session_limit,
                global_limit,
                budget: old(time).budget(),
                rotation,
            }),
            clock::read_since(*old(time), *final(time)),
            r.1,
        ),
{
    let ghost given = sessions@;
    let ghost channels = in_turn(given);
    let ghost first = *time;
    let budget: u128 = time.amount();
    proof {
        sorting::law_sorted::<StreamSource>(sources(given));
        assert(first.readings().take(first.readings().len() as int) =~= first.readings());
        assert(clock::read_since(first, *time) =~= Seq::<u128>::empty());
    }
    if sessions.len() == 0 {
        return (Vec::new(), rotation);
    }
    let mut unsorted: Vec<StreamSource> = Vec::new();
    std::mem::swap(&mut unsorted, sessions);
    *sessions = sorting::sort(unsorted);
    let session_count: usize = sessions.len();
    let ghost count = session_count as int;
    let ghost f = FrameView { channels, per_session_limit, global_limit, budget, rotation };
    let start: usize = rotation % session_count;
    let mut drained: Vec<Drained> = Vec::new();
    let mut next: usize = rotation;
    let mut total: usize = 0;
    let ghost mut visits: Seq<Visit> = Seq::empty();
    let ghost mut states: Seq<Seq<SourceView>> = seq![channels];
    proof {
        assert(sources(sessions@) == channels);
        assert(channels.len() == count);
        assert forall|i: int| 0 <= i < channels.len() implies #[trigger] taken_from(
            channels[i].receiver,
        ) == taken_from(channels[i].receiver) + chunks_of(drained@, channels[i].id) by {
            assert(taken_from(channels[i].receiver) + Seq::<ChunkMessage>::empty() =~= taken_from(
                channels[i].receiver,
            ));
        }
        assert(is_fed_by(channels, sources(sessions@), drained@));
        assert(turn_views(drained@) =~= turns_of(f, visits));
        assert(0int % count == 0) by {
            vstd::arithmetic::div_mod::lemma_small_mod(0, count as nat);
        }
    }
    let mut more = false;
    if total < global_limit {
        let elapsed = time.elapsed();
        proof {
            clock::lemma_read_on(first, first, *time, elapsed);
        }
        more = !clock::is_spent(elapsed, budget);
    }
    while more
        invariant
            session_count == sessions@.len(),
            count == session_count,
            f == (FrameView { channels, per_session_limit, global_limit, budget, rotation }),
            first.budget() == budget,
            clock::runs_on(first, *time),
            count == channels.len(),
            0 < session_count,
            start == rotation % session_count,
            start < session_count,
            is_fed_by(channels, sources(sessions@), drained@),
            is_run(f, states, visits, clock::read_since(first, *time)),
            states.last() == sources(sessions@),
            turn_views(drained@) == turns_of(f, visits),
            next == f.next(visits.len() as int),
            total == taken_in(visits),
            more ==> visits.len() as int % count == 0 && total < global_limit && forall|i: int|
                0 <= i < clock::read_since(first, *time).len() ==> #[trigger] clock::read_since(
                    first,
                    *time,
                )[i] < budget,
            more ==> forall|k: int|
                0 < k <= visits.len() && k % count == 0 ==> !#[trigger] is_idle_round(
                    visits,
                    count,
                    k,
                ),
            !more ==> is_over(f, visits, clock::read_since(first, *time)) && is_first_end(
                f,
                visits,
                clock::read_since(first, *time),
            ),
        decreases (if more { 1int } else { 0int }), usize::MAX - drained@.len(),
    {
        let had: usize = drained.len();
        let mut step: usize = 0;
        let ghost done = visits.len() as int;
        let ghost mut gave: int = -1;
        while more && step < session_count
            invariant
                session_count == sessions@.len(),
                count == session_count,
                f == (FrameView { channels, per_session_limit, global_limit, budget, rotation }),
                first.budget() == budget,
                clock::runs_on(first, *time),
                count == channels.len(),
                0 < session_count,
                start == rotation % session_count,
                start < session_count,
                step <= session_count,
                0 <= done,
                done % count == 0,
                more ==> visits.len() == done + step,
                done <= visits.len(),
                had <= drained@.len(),
                drained@.len() > had ==> done <= gave < visits.len() && visits[gave].gives(),
                drained@.len() == had ==> forall|j: int|
                    done <= j < visits.len() ==> !(#[trigger] visits[j]).gives(),
                is_fed_by(channels, sources(sessions@), drained@),
                is_run(f, states, visits, clock::read_since(first, *time)),
                states.last() == sources(sessions@),
                turn_views(drained@) == turns_of(f, visits),
                next == f.next(visits.len() as int),
                total == taken_in(visits),
                forall|k: int|
                    0 < k <= done && k % count == 0 ==> !#[trigger] is_idle_round(
                        visits,
                        count,
                        k,
                    ),
                visits.len() <= done + count,
                more ==> total < global_limit && forall|i: int|
                    0 <= i < clock::read_since(first, *time).len() ==> #[trigger] clock::read_since(
                        first,
                        *time,
                    )[i] < budget,
                !more ==> (total == global_limit || (clock::read_since(first, *time).len() > 0
                    && clock::read_since(first, *time).last() >= budget)) && forall|i: int|
                    0 <= i < clock::read_since(first, *time).len() - 1 ==> #[trigger]
                        clock::read_since(first, *time)[i] < budget,
            decreases (if more { 1int } else { 0int }), session_count - step,
        {
            let ghost before_reading = *time;
            let ghost rs = clock::read_since(first, *time);
            let elapsed = time.elapsed();
            proof {
                clock::lemma_read_on(first, before_reading, *time, elapsed);
                assert(is_run(f, states, visits, rs.push(elapsed)));
            }
            if clock::is_spent(elapsed, budget) {
                more = false;
            } else {
                let share = turn_budget(budget - elapsed, session_count - step);
                let index: usize = turn_index(start, step, session_count);
                let left: usize = global_limit - total;
                let limit: usize = if per_session_limit < left {
                    per_session_limit
                } else {
                    left
                };
                let ghost mid = sources(sessions@);
                let ghost turns_before = drained@;
                let ghost id = channels[index as int].id;
                let ghost k = visits.len() as int;
                let session_id = sessions[index].session_id.clone();
                proof {
                    assert(mid[index as int].id == id);
                    lemma_same_place(rotation as int, done, step as int, count);
                    lemma_next_place(rotation as int, k, count);
                    lemma_within_round(done, step as int, count);
                    assert(index == f.place(k));
                }
                let mut turn_time = TimeBudget::start(share);
                let ghost turn_start = turn_time;
                let (chunks, disconnected) = drain_streaming_chunks(
                    &mut sessions[index].receiver,
                    limit,
                    &mut turn_time,
                );
                let ghost got = chunks@;
                let ghost visit = Visit {
                    chunks: got,
                    disconnected,
                    at: elapsed,
                    reading: rs.len() as int,
                    readings: clock::read_since(turn_start, turn_time),
                };
                total += chunks.len();
                let noted = note_turn(&mut drained, session_id, chunks, disconnected);
                next = turn_index(index, 1, session_count);
                proof {
                    let after = sources(sessions@);
                    let old_visits = visits;
                    if noted {
                        assert(drained@.drop_last() =~= turns_before);
                        assert(turn_views(drained@) =~= turn_views(turns_before).push(
                            drained@.last()@,
                        ));
                        gave = k;
                    }
                    assert forall|i: int| 0 <= i < mid.len() && i != index implies #[trigger] after[i]
                        == mid[i] by {}
                    lemma_fed(channels, mid, after, turns_before, drained@, index as int, got);
                    visits = visits.push(visit);
                    assert(visits.drop_last() =~= old_visits);
                    assert(visits.take(k) =~= old_visits);
                    assert(states.push(after)[k] == mid);
                    assert(after =~= mid.update(index as int, after[index as int]));
                    lemma_visited(f, states, old_visits, rs.push(elapsed), visit, after);
                    states = states.push(after);
                    assert forall|j: int| 0 < j <= done && j % count == 0 implies !#[trigger]
                        is_idle_round(visits, count, j) by {
                        assert(!is_idle_round(old_visits, count, j));
                        lemma_busy_rounds(f, old_visits, visit, j);
                    }
                }
                if total >= global_limit {
                    more = false;
                } else {
                    let ghost between = *time;
                    let again = time.elapsed();
                    proof {
                        clock::lemma_read_on(first, between, *time, again);
                    }
                    more = !clock::is_spent(again, budget);
                    step += 1;
                }
            }
        }
        proof {
            assert forall|k: int|
                0 < k < visits.len() && k % count == 0 implies !#[trigger] is_idle_round(
                visits,
                count,
                k,
            ) by {
                if k > done {
                    lemma_within_round(done, k - done, count);
                }
            }
            if more {
                vstd::arithmetic::div_mod::lemma_mod_add_multiples_vanish(done, count);
                if drained@.len() > had {
                    assert(visits[gave].gives());
                    assert(!is_idle_round(visits, count, visits.len() as int));
                } else {
                    assert(is_idle_round(visits, count, visits.len() as int));
                }
            }
        }
        if more {
            if drained.len() == had {
                more = false;
            } else {
                let ghost between = *time;
                let again = time.elapsed();
                proof {
                    clock::lemma_read_on(first, between, *time, again);
                }
                more = !clock::is_spent(again, budget);
            }
        }
    }
    proof {
        assert(is_frame(
            f,
            states,
            visits,
            clock::read_since(first, *time),
            drained@,
            next,
        ));
    }
    (drained, next)
}

/// A place within a round is told by the rest.
proof fn lemma_within_round(done: int, step: int, count: int)
    requires
        0 <= done,
        done % count == 0,
        0 <= step < count,
    ensures
        (done + step) % count == step,
{
    vstd::arithmetic::div_mod::lemma_add_mod_noop(done, step, count);
    vstd::arithmetic::div_mod::lemma_small_mod(step as nat, count as nat);
}

/// The position `step` places after `start` in a circle of `count`.
pub fn turn_index(start: usize, step: usize, count: usize) -> (r: usize)
    requires
        start < count,
        step <= count,
    ensures
        r == (start + step) % (count as int),
        r < count,
{
    let sum: u128 = start as u128 + step as u128;
    (sum % (count as u128)) as usize
}

} // verus!

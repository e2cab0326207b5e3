//! What an agent sends arrives in the transcript, whole and in order.

use crate::app;
use crate::app::AppView;
use crate::chunks;
use crate::chunks::{ChunkMessage, ToolCall};
use crate::events;
use crate::json;
use crate::json::{DocView, FieldView, MemberView};
use crate::keeping;
use crate::message;
use crate::message::{MessageRole, MessageView, PartView};
use crate::state;
use crate::state::{ChatView, ClientView, RetryView, ToolPlaceView};
use crate::text;
use crate::transcript;
use vstd::prelude::*;

verus! {

/// Message `i` is the latest that an agent wrote.
pub open spec fn is_latest_answer(ms: Seq<MessageView>, i: int) -> bool {
    &&& 0 <= i < ms.len()
    &&& ms[i].role == MessageRole::Assistant
    &&& forall|j: int| i < j < ms.len() ==> (#[trigger] ms[j]).role != MessageRole::Assistant
}

/// All that the text parts of a message say, one behind the other.
pub open spec fn written(parts: Seq<PartView>) -> Seq<char>
    decreases parts.len(),
{
    if parts.len() == 0 {
        Seq::empty()
    } else {
        let p = parts.last();
        written(parts.drop_last()) + match json::doc_str(p.data, "text"@) {
            Some(t) => if p.part_type == "text"@ {
                t
            } else {
                Seq::empty()
            },
            None => Seq::empty(),
        }
    }
}

/// Texts, one behind the other.
pub open spec fn together(pieces: Seq<String>) -> Seq<char>
    decreases pieces.len(),
{
    if pieces.len() == 0 {
        Seq::empty()
    } else {
        together(pieces.drop_last()) + pieces.last()@
    }
}

/// The application after an event for a session.
pub open spec fn heard(a: AppView, id: Seq<char>, c: ChunkMessage) -> AppView {
    events::applied(a, id, chunks::chunk_view(c)).0
}

/// The application after events for a session that came one after the other.
pub open spec fn heard_all(a: AppView, id: Seq<char>, cs: Seq<ChunkMessage>) -> AppView
    decreases cs.len(),
{
    if cs.len() == 0 {
        a
    } else {
        heard(heard_all(a, id, cs.drop_last()), id, cs.last())
    }
}

pub open spec fn as_text(pieces: Seq<String>) -> Seq<ChunkMessage> {
    pieces.map_values(|s: String| ChunkMessage::Text(s))
}

pub open spec fn as_reasoning(pieces: Seq<String>) -> Seq<ChunkMessage> {
    pieces.map_values(|s: String| ChunkMessage::Reasoning(s))
}

pub open spec fn messages(a: AppView, id: Seq<char>) -> Seq<MessageView> {
    app::transcript(a, id).messages
}

/// No message but number `i` is another one.
pub open spec fn is_changed_only_at(before: Seq<MessageView>, after: Seq<MessageView>, i: int) -> bool {
    &&& after.len() == before.len()
    &&& forall|j: int| 0 <= j < before.len() && j != i ==> #[trigger] after[j] == before[j]
}

/// What a message has thought, if anything.
pub open spec fn thought(m: MessageView) -> Seq<char> {
    match m.reasoning {
        Some(r) => r,
        None => Seq::empty(),
    }
}

pub proof fn lemma_latest(ms: Seq<MessageView>, i: int, n: int)
    requires
        is_latest_answer(ms, i),
        i < n <= ms.len(),
    ensures
        message::last_role(ms, MessageRole::Assistant, n) == Some(i),
    decreases n,
{
    if n - 1 > i {
        assert(ms[n - 1].role != MessageRole::Assistant);
        lemma_latest(ms, i, n - 1);
    }
}

pub proof fn lemma_retry(a: AppView, id: Seq<char>, status: Option<RetryView>)
    ensures
        app::transcript(events::retry_set(a, id, status), id) == app::transcript(a, id),
        app::client_of(events::retry_set(a, id, status), id) is Some,
        (app::client_of(events::retry_set(a, id, status), id)->0).retry_status == status,
        app::client_of(a, id) matches Some(c) ==> (app::client_of(
            events::retry_set(a, id, status),
            id,
        )->0).tool_calls == c.tool_calls,
{
    keeping::lemma_ensured(a, id, id);
    let e = app::ensured(a, id);
    let c = app::client_of(e, id)->0;
    keeping::lemma_with_client(e, id, ClientView { retry_status: status, ..c }, id);
}

pub proof fn lemma_marked(a: AppView, id: Seq<char>)
    ensures
        app::transcript(app::marked_pending(a, id), id) == app::transcript(a, id),
        app::client_of(a, id) matches Some(c) ==> (app::client_of(app::marked_pending(a, id), id)
            matches Some(d) && d.tool_calls == c.tool_calls && d.retry_status == c.retry_status),
{
    state::lemma_client_from(a.clients, id, 0);
    if let Some(c) = app::client_of(a, id) {
        keeping::lemma_with_client(a, id, app::client_marked(c), id);
    }
}

/// An event that goes into the transcript leaves there what it makes of the transcript.
proof fn lemma_put(a: AppView, id: Seq<char>, chat: ChatView)
    ensures
        app::transcript(app::marked_pending(app::with_transcript(a, id, chat), id), id) == chat,
{
    keeping::lemma_with_transcript(a, id, chat);
    lemma_marked(app::with_transcript(a, id, chat), id);
}

proof fn lemma_heard_text(a: AppView, id: Seq<char>, t: String)
    ensures
        app::transcript(heard(a, id, ChunkMessage::Text(t)), id) == transcript::text_appended(
            app::transcript(a, id),
            t@,
        ),
{
    reveal(events::text_streamed);
    lemma_retry(a, id, None);
    let b = events::retry_set(a, id, None);
    lemma_put(b, id, transcript::text_appended(app::transcript(b, id), t@));
}

proof fn lemma_heard_reasoning(a: AppView, id: Seq<char>, t: String)
    ensures
        app::transcript(heard(a, id, ChunkMessage::Reasoning(t)), id)
            == transcript::reasoning_appended(app::transcript(a, id), t@),
{
    reveal(events::reasoning_streamed);
    lemma_retry(a, id, None);
    let b = events::retry_set(a, id, None);
    lemma_put(b, id, transcript::reasoning_appended(app::transcript(b, id), t@));
}

proof fn lemma_heard_rollback(a: AppView, id: Seq<char>, t: String, r: String)
    ensures
        app::transcript(
            heard(a, id, ChunkMessage::StreamRollback { text: t, reasoning: r }),
            id,
        ) == transcript::output_rolled_back(app::transcript(a, id), t@, r@),
{
    reveal(events::stream_rolled_back);
    lemma_put(a, id, transcript::output_rolled_back(app::transcript(a, id), t@, r@));
}

proof fn lemma_text_is_read(d: DocView, t: Seq<char>)
    requires
        !(d is Other),
    ensures
        json::doc_str(json::doc_with(d, "text"@, FieldView::Text(t)), "text"@) == Some(t),
{
    json::law_set_member_is_read(d, "text"@, FieldView::Text(t), "text"@);
}

proof fn lemma_written(parts: Seq<PartView>, added: Seq<char>)
    ensures
        written(transcript::with_text(parts, added)) == written(parts) + added,
{
    let after = transcript::with_text(parts, added);
    if parts.len() > 0 && parts.last().part_type == "text"@ && json::doc_str(
        parts.last().data,
        "text"@,
    ) is Some {
        let own = json::doc_str(parts.last().data, "text"@)->0;
        assert(after.drop_last() =~= parts.drop_last());
        lemma_text_is_read(parts.last().data, own + added);
        assert(written(parts.drop_last()) + (own + added) =~= written(parts.drop_last()) + own
            + added);
    } else {
        assert(after.drop_last() =~= parts);
        lemma_text_is_read(DocView::Null, added);
    }
}

/// What a part of the answer adds to the latest answer.
proof fn lemma_one_text(c: ChatView, i: int, t: Seq<char>)
    requires
        is_latest_answer(c.messages, i),
    ensures
        ({
            let after = transcript::text_appended(c, t).messages;
            let m = c.messages[i];
            &&& is_changed_only_at(c.messages, after, i)
            &&& is_latest_answer(after, i)
            &&& after[i].content == m.content + t
            &&& written(after[i].parts) == written(m.parts) + t
            &&& after[i] == (MessageView {
                content: after[i].content,
                parts: after[i].parts,
                ..m
            })
            &&& m.parts.len() <= after[i].parts.len()
            &&& forall|k: int|
                0 <= k < m.parts.len() && m.parts[k].part_type != "text"@
                    ==> #[trigger] after[i].parts[k] == m.parts[k]
        }),
{
    lemma_latest(c.messages, i, c.messages.len() as int);
    lemma_written(c.messages[i].parts, t);
}

/// Text that is streamed into a session in pieces stands behind what its latest answer said, piece
/// behind piece in the order in which they came: in the answer and in its text parts. Nothing else
/// in the answer changes, no other message does, and what a tool was called with stays.
pub proof fn law_text_arrives_in_order(a: AppView, id: Seq<char>, i: int, pieces: Seq<String>)
    requires
        is_latest_answer(messages(a, id), i),
    ensures
        ({
            let before = messages(a, id);
            let after = messages(heard_all(a, id, as_text(pieces)), id);
            &&& is_changed_only_at(before, after, i)
            &&& is_latest_answer(after, i)
            &&& after[i].content == before[i].content + together(pieces)
            &&& written(after[i].parts) == written(before[i].parts) + together(pieces)
            &&& after[i] == (MessageView {
                content: after[i].content,
                parts: after[i].parts,
                ..before[i]
            })
            &&& before[i].content.is_prefix_of(after[i].content)
            &&& pieces.len() > 0 ==> pieces.last()@.is_suffix_of(after[i].content)
            &&& before[i].parts.len() <= after[i].parts.len()
            &&& forall|k: int|
                0 <= k < before[i].parts.len() && before[i].parts[k].part_type != "text"@
                    ==> #[trigger] after[i].parts[k] == before[i].parts[k]
        }),
    decreases pieces.len(),
{
    let before = messages(a, id);
    if pieces.len() == 0 {
        assert(before[i].content + Seq::<char>::empty() =~= before[i].content);
        assert(before[i].content.subrange(0, before[i].content.len() as int)
            =~= before[i].content);
        assert(written(before[i].parts) + Seq::<char>::empty() =~= written(before[i].parts));
    } else {
        let front = pieces.drop_last();
        let t = pieces.last();
        law_text_arrives_in_order(a, id, i, front);
        assert(as_text(pieces).drop_last() =~= as_text(front));
        assert(as_text(pieces).last() == ChunkMessage::Text(t));
        let b = heard_all(a, id, as_text(front));
        lemma_heard_text(b, id, t);
        lemma_one_text(app::transcript(b, id), i, t@);
        let after = messages(heard_all(a, id, as_text(pieces)), id);
        assert(before[i].content + together(front) + t@ =~= before[i].content + (together(front)
            + t@));
        assert(written(before[i].parts) + together(front) + t@ =~= written(before[i].parts) + (
        together(front) + t@));
        let now = after[i].content;
        assert(now.subrange(0, before[i].content.len() as int) =~= before[i].content);
        assert(now.subrange(now.len() - t@.len(), now.len() as int) =~= t@);
        let mid = messages(b, id);
        assert forall|k: int|
            0 <= k < before[i].parts.len() && before[i].parts[k].part_type != "text"@
            implies #[trigger] after[i].parts[k] == before[i].parts[k] by {
            let said = transcript::text_appended(app::transcript(b, id), t@).messages;
            assert(mid[i].parts[k] == before[i].parts[k]);
            assert(said[i].parts[k] == mid[i].parts[k]);
        }
    }
}

/// The same of what an agent thinks; its text stays as it is.
pub proof fn law_reasoning_arrives_in_order(a: AppView, id: Seq<char>, i: int, pieces: Seq<String>)
    requires
        is_latest_answer(messages(a, id), i),
    ensures
        ({
            let before = messages(a, id);
            let after = messages(heard_all(a, id, as_reasoning(pieces)), id);
            &&& is_changed_only_at(before, after, i)
            &&& is_latest_answer(after, i)
            &&& thought(after[i]) == thought(before[i]) + together(pieces)
            &&& pieces.len() > 0 ==> after[i].reasoning is Some
            &&& after[i] == (MessageView { reasoning: after[i].reasoning, ..before[i] })
        }),
    decreases pieces.len(),
{
    let before = messages(a, id);
    if pieces.len() == 0 {
        assert(thought(before[i]) + Seq::<char>::empty() =~= thought(before[i]));
    } else {
        let front = pieces.drop_last();
        let t = pieces.last();
        law_reasoning_arrives_in_order(a, id, i, front);
        assert(as_reasoning(pieces).drop_last() =~= as_reasoning(front));
        assert(as_reasoning(pieces).last() == ChunkMessage::Reasoning(t));
        let b = heard_all(a, id, as_reasoning(front));
        lemma_heard_reasoning(b, id, t);
        lemma_latest(messages(b, id), i, messages(b, id).len() as int);
        assert(Seq::<char>::empty() + t@ =~= t@);
        assert(thought(before[i]) + together(front) + t@ =~= thought(before[i]) + (together(front)
            + t@));
    }
}

proof fn lemma_set_again(ms: Seq<MemberView>, key: Seq<char>, f: FieldView, g: FieldView)
    ensures
        json::with_member(json::with_member(ms, key, f), key, g) == json::with_member(ms, key, g),
        json::member(ms, key) == Some(g) ==> json::with_member(ms, key, g) == ms,
    decreases ms.len(),
{
    let once = json::with_member(ms, key, f);
    if ms.len() == 0 {
        assert(once.drop_first() =~= Seq::<MemberView>::empty());
        assert(json::with_member(once, key, g) =~= json::with_member(ms, key, g));
    } else if ms[0].key == key {
        assert(once.drop_first() =~= ms.drop_first());
        assert(json::member(ms, key) == Some(g) ==> json::with_member(ms, key, g) =~= ms);
    } else {
        lemma_set_again(ms.drop_first(), key, f, g);
        assert(once.drop_first() =~= json::with_member(ms.drop_first(), key, f));
        assert(json::member(ms, key) == Some(g) ==> json::with_member(ms, key, g) =~= ms);
    }
}

proof fn lemma_doc_again(d: DocView, key: Seq<char>, f: FieldView, g: FieldView)
    ensures
        json::doc_with(json::doc_with(d, key, f), key, g) == json::doc_with(d, key, g),
        json::doc_member(d, key) == Some(g) ==> json::doc_with(d, key, g) == d,
{
    match d {
        DocView::Object(ms) => lemma_set_again(ms, key, f, g),
        DocView::Null => {
            lemma_set_again(Seq::empty(), key, f, g);
        },
        DocView::Other(_) => {},
    }
}

/// Another message in its place is the latest answer as well.
proof fn lemma_twice(c: ChatView, i: int, m: MessageView)
    requires
        is_latest_answer(c.messages, i),
        m.role == MessageRole::Assistant,
    ensures
        is_latest_answer(c.messages.update(i, m), i),
        transcript::last_assistant(c.messages) == Some(i),
        transcript::last_assistant(c.messages.update(i, m)) == Some(i),
{
    let after = c.messages.update(i, m);
    assert forall|j: int| i < j < after.len() implies (#[trigger] after[j]).role
        != MessageRole::Assistant by {
        assert(after[j] == c.messages[j]);
    }
    lemma_latest(c.messages, i, c.messages.len() as int);
    lemma_latest(after, i, c.messages.len() as int);
}

proof fn lemma_parts_again(parts: Seq<PartView>, s: Seq<char>, t: Seq<char>)
    ensures
        transcript::with_text(transcript::with_text(parts, s), t) == transcript::with_text(
            parts,
            s + t,
        ),
{
    let once = transcript::with_text(parts, s);
    if parts.len() > 0 && parts.last().part_type == "text"@ && json::doc_str(
        parts.last().data,
        "text"@,
    ) is Some {
        let own = json::doc_str(parts.last().data, "text"@)->0;
        lemma_text_is_read(parts.last().data, own + s);
        lemma_doc_again(
            parts.last().data,
            "text"@,
            FieldView::Text(own + s),
            FieldView::Text(own + (s + t)),
        );
        assert(own + s + t =~= own + (s + t));
    } else {
        lemma_text_is_read(DocView::Null, s);
        lemma_doc_again(DocView::Null, "text"@, FieldView::Text(s), FieldView::Text(s + t));
    }
    assert(transcript::with_text(once, t) =~= transcript::with_text(parts, s + t));
}

proof fn lemma_grown_again(m: MessageView, s: Seq<char>, t: Seq<char>)
    ensures
        transcript::grown(transcript::grown(m, s), t) == transcript::grown(m, s + t),
        transcript::more_reasoned(transcript::more_reasoned(m, s), t) == transcript::more_reasoned(
            m,
            s + t,
        ),
{
    lemma_parts_again(m.parts, s, t);
    assert(m.content + s + t =~= m.content + (s + t));
    assert(thought(m) + s + t =~= thought(m) + (s + t));
}

/// How a text is cut into pieces makes no difference: two pieces one after the other leave the
/// transcript as the whole text does at once.
pub proof fn law_pieces_are_as_good_as_the_whole(
    a: AppView,
    id: Seq<char>,
    i: int,
    first: String,
    second: String,
    whole: String,
)
    requires
        is_latest_answer(messages(a, id), i),
        whole@ == first@ + second@,
    ensures
        app::transcript(
            heard(heard(a, id, ChunkMessage::Text(first)), id, ChunkMessage::Text(second)),
            id,
        ) == app::transcript(heard(a, id, ChunkMessage::Text(whole)), id),
        app::transcript(
            heard(
                heard(a, id, ChunkMessage::Reasoning(first)),
                id,
                ChunkMessage::Reasoning(second),
            ),
            id,
        ) == app::transcript(heard(a, id, ChunkMessage::Reasoning(whole)), id),
{
    let c = app::transcript(a, id);
    let m = c.messages[i];
    lemma_heard_text(a, id, first);
    lemma_heard_text(heard(a, id, ChunkMessage::Text(first)), id, second);
    lemma_heard_text(a, id, whole);
    lemma_heard_reasoning(a, id, first);
    lemma_heard_reasoning(heard(a, id, ChunkMessage::Reasoning(first)), id, second);
    lemma_heard_reasoning(a, id, whole);
    lemma_grown_again(m, first@, second@);
    lemma_twice(c, i, transcript::grown(m, first@));
    lemma_twice(c, i, transcript::more_reasoned(m, first@));
    assert(c.messages.update(i, transcript::grown(m, first@)).update(
        i,
        transcript::grown(m, whole@),
    ) =~= c.messages.update(i, transcript::grown(m, whole@)));
    assert(c.messages.update(i, transcript::more_reasoned(m, first@)).update(
        i,
        transcript::more_reasoned(m, whole@),
    ) =~= c.messages.update(i, transcript::more_reasoned(m, whole@)));
}

proof fn lemma_tail_off(s: Seq<char>, t: Seq<char>)
    ensures
        transcript::ends_with(s + t, t),
        transcript::without_tail(s + t, t) == s,
{
    assert((s + t).subrange(s.len() as int, (s + t).len() as int) =~= t);
    assert((s + t).take(s.len() as int) =~= s);
}

proof fn lemma_taken_back(m: MessageView, t: Seq<char>, r: Seq<char>)
    requires
        r.len() == 0,
    ensures
        ({
            let g = transcript::grown(m, t);
            let back = transcript::rolled_back(g, t, r);
            &&& transcript::can_roll_back(g, t, r)
            &&& back.content == m.content
            &&& back.reasoning == m.reasoning
            &&& written(back.parts) == written(m.parts)
            &&& m.parts.len() > 0 && m.parts.last().part_type == "text"@ && json::doc_str(
                m.parts.last().data,
                "text"@,
            ) is Some ==> back == m
        }),
{
    let g = transcript::grown(m, t);
    let back = transcript::rolled_back(g, t, r);
    lemma_tail_off(m.content, t);
    if let Some(own) = m.reasoning {
        lemma_tail_off(own, r);
        assert(own + r =~= own);
    }
    if m.parts.len() > 0 && m.parts.last().part_type == "text"@ && json::doc_str(
        m.parts.last().data,
        "text"@,
    ) is Some {
        let data = m.parts.last().data;
        let own = json::doc_str(data, "text"@)->0;
        lemma_text_is_read(data, own + t);
        lemma_doc_again(data, "text"@, FieldView::Text(own + t), FieldView::Text(own));
        lemma_tail_off(own, t);
        if t.len() == 0 {
            assert(own + t =~= own);
        }
        assert(back.parts =~= m.parts);
    } else {
        let none = Seq::<char>::empty();
        lemma_text_is_read(DocView::Null, t);
        lemma_tail_off(none, t);
        assert(none + t =~= t);
        assert(g.parts.drop_last() =~= m.parts);
        assert(back.parts.drop_last() =~= m.parts);
        if t.len() > 0 {
            lemma_text_is_read(g.parts.last().data, none);
        } else {
            assert(t =~= none);
        }
        assert(json::doc_str(back.parts.last().data, "text"@) == Some(none));
        assert(written(m.parts) + none =~= written(m.parts));
    }
}

/// What is taken back right after it was streamed is gone: the answer says and thinks what it did
/// before, and where it ended with text it is the same message.
pub proof fn law_rolling_back_undoes_streaming(a: AppView, id: Seq<char>, i: int, t: String, r: String)
    requires
        is_latest_answer(messages(a, id), i),
        r@.len() == 0,
    ensures
        ({
            let before = messages(a, id);
            let after = messages(
                heard(
                    heard(a, id, ChunkMessage::Text(t)),
                    id,
                    ChunkMessage::StreamRollback { text: t, reasoning: r },
                ),
                id,
            );
            &&& is_changed_only_at(before, after, i)
            &&& after[i].content == before[i].content
            &&& after[i].reasoning == before[i].reasoning
            &&& written(after[i].parts) == written(before[i].parts)
            &&& before[i].parts.len() > 0 && before[i].parts.last().part_type == "text"@
                && json::doc_str(before[i].parts.last().data, "text"@) is Some ==> after[i]
                == before[i]
        }),
{
    let c = app::transcript(a, id);
    let m = c.messages[i];
    let b = heard(a, id, ChunkMessage::Text(t));
    lemma_heard_text(a, id, t);
    lemma_heard_rollback(b, id, t, r);
    lemma_taken_back(m, t@, r@);
    lemma_twice(c, i, transcript::grown(m, t@));
}

/// What a record says of a call of a tool.
pub open spec fn records_call(p: PartView, c: ToolCall) -> bool {
    &&& p.part_type == "tool_call"@
    &&& json::doc_str(p.data, "id"@) == Some(c.id@)
    &&& json::doc_str(p.data, "name"@) == Some(c.name@)
    &&& json::doc_str(p.data, "status"@) == Some("running"@)
    &&& json::json_parse(c.arguments@) is None ==> json::doc_str(p.data, "args"@) == Some(
        c.arguments@,
    )
    &&& json::json_parse(c.arguments@) matches Some(DocView::Other(raw)) ==> json::doc_member(
        p.data,
        "args"@,
    ) == Some(FieldView::Raw(raw))
    &&& json::json_parse(c.arguments@) matches Some(DocView::Object(o)) ==> json::doc_member(
        p.data,
        "args"@,
    ) == Some(FieldView::Raw(json::json_text(DocView::Object(o))))
}

proof fn lemma_keys_differ()
    ensures
        "id"@ != "name"@,
        "id"@ != "status"@,
        "id"@ != "args"@,
        "name"@ != "status"@,
        "name"@ != "args"@,
        "status"@ != "args"@,
        "id"@ != "output_preview"@,
        "name"@ != "output_preview"@,
        "status"@ != "output_preview"@,
        "id"@ != "title"@,
        "name"@ != "title"@,
        "status"@ != "title"@,
        "output_preview"@ != "title"@,
        "id"@ != "metadata"@,
        "name"@ != "metadata"@,
        "status"@ != "metadata"@,
        "output_preview"@ != "metadata"@,
        "id"@ != "line_count"@,
        "name"@ != "line_count"@,
        "status"@ != "line_count"@,
        "output_preview"@ != "line_count"@,
{
    reveal_strlit("id");
    reveal_strlit("name");
    reveal_strlit("status");
    reveal_strlit("args");
    reveal_strlit("output_preview");
    reveal_strlit("title");
    reveal_strlit("metadata");
    reveal_strlit("line_count");
    assert("name"@[0] != "args"@[0]);
    assert("id"@.len() == 2 && "name"@.len() == 4 && "status"@.len() == 6);
    assert("title"@.len() == 5 && "output_preview"@.len() == 14);
    assert("metadata"@.len() == 8 && "line_count"@.len() == 10);
}

proof fn lemma_call_doc(id: Seq<char>, name: Seq<char>, args: FieldView)
    ensures
        ({
            let d = message::call_doc(id, name, args);
            &&& json::doc_member(d, "id"@) == Some(FieldView::Text(id))
            &&& json::doc_member(d, "name"@) == Some(FieldView::Text(name))
            &&& json::doc_member(d, "status"@) == Some(FieldView::Text("running"@))
            &&& json::doc_member(d, "args"@) == Some(args)
        }),
{
    lemma_keys_differ();
    let n = DocView::Null;
    let one = json::doc_with(n, "id"@, FieldView::Text(id));
    let two = json::doc_with(one, "name"@, FieldView::Text(name));
    let three = json::doc_with(two, "status"@, FieldView::Text("running"@));
    json::law_set_member_is_read(n, "id"@, FieldView::Text(id), "id"@);
    json::law_set_member_is_read(one, "name"@, FieldView::Text(name), "id"@);
    json::law_set_member_is_read(two, "status"@, FieldView::Text("running"@), "id"@);
    json::law_set_member_is_read(two, "status"@, FieldView::Text("running"@), "name"@);
    json::law_set_member_is_read(three, "args"@, args, "id"@);
    json::law_set_member_is_read(three, "args"@, args, "name"@);
    json::law_set_member_is_read(three, "args"@, args, "status"@);
}

/// Tools that an agent calls are recorded in its latest answer, behind what stands there, one
/// record for each call and in their order; each names its call and says what the tool was called
/// with. Nothing else changes.
pub proof fn law_calls_are_recorded(a: AppView, id: Seq<char>, i: int, calls: Vec<ToolCall>)
    requires
        is_latest_answer(messages(a, id), i),
    ensures
        ({
            let before = messages(a, id);
            let after = messages(heard(a, id, ChunkMessage::ToolCalls(calls)), id);
            &&& is_changed_only_at(before, after, i)
            &&& after[i] == (MessageView { parts: after[i].parts, ..before[i] })
            &&& after[i].parts.len() == before[i].parts.len() + calls@.len()
            &&& after[i].parts.take(before[i].parts.len() as int) == before[i].parts
            &&& forall|k: int|
                0 <= k < calls@.len() ==> records_call(
                    #[trigger] after[i].parts[before[i].parts.len() + k],
                    calls@[k],
                )
        }),
{
    reveal(events::tools_called);
    reveal(transcript::calls_added);
    lemma_retry(a, id, None);
    let b = events::retry_set(a, id, None);
    let chat = app::transcript(b, id);
    let made = transcript::calls_added(chat, calls@);
    lemma_latest(chat.messages, i, chat.messages.len() as int);
    keeping::lemma_with_transcript(b, id, made);
    let c = app::with_transcript(b, id, made);
    state::lemma_client_from(c.clients, id, 0);
    let places = transcript::call_places(chat, calls@);
    if let Some(own) = app::client_of(c, id) {
        let more = ClientView {
            tool_calls: state::ToolCallsView {
                places: own.tool_calls.places + places,
                ..own.tool_calls
            },
            ..own
        };
        keeping::lemma_with_client(c, id, more, id);
        assert(app::transcript(app::with_client(c, id, more), id) == made);
        lemma_marked(app::with_client(c, id, more), id);
    } else {
        lemma_marked(c, id);
    }
    let before = messages(a, id);
    let after = messages(heard(a, id, ChunkMessage::ToolCalls(calls)), id);
    assert(after == made.messages);
    assert(after[i].parts.take(before[i].parts.len() as int) =~= before[i].parts);
    assert forall|k: int| 0 <= k < calls@.len() implies records_call(
        #[trigger] after[i].parts[before[i].parts.len() + k],
        calls@[k],
    ) by {
        let call = calls@[k];
        lemma_call_doc(call.id@, call.name@, message::args_field(call.arguments@));
    }
}

/// What a record says of the result of a call.
pub open spec fn records_result(p: PartView, call: Seq<char>, name: Seq<char>, content: Seq<char>) -> bool {
    &&& p.part_type == "tool_result"@
    &&& json::doc_str(p.data, "id"@) == Some(call)
    &&& json::doc_str(p.data, "name"@) == Some(name)
    &&& match json::json_parse(content) {
        None => json::doc_str(p.data, "output_preview"@) == Some(content) && json::doc_str(
            p.data,
            "status"@,
        ) == Some(
            if "Error:"@.is_prefix_of(text::trim_start(content)) {
                "error"@
            } else {
                "ok"@
            },
        ),
        Some(DocView::Object(o)) => {
            &&& json::member(o, "output_preview"@) is Some ==> json::doc_member(
                p.data,
                "output_preview"@,
            ) == json::member(o, "output_preview"@)
            &&& json::member(o, "status"@) is Some ==> json::doc_member(p.data, "status"@)
                == json::member(o, "status"@)
            &&& json::member(o, "title"@) is Some ==> json::doc_member(p.data, "title"@)
                == json::member(o, "title"@)
        },
        Some(_) => json::doc_str(p.data, "output_preview"@) == Some(content) && json::doc_str(
            p.data,
            "status"@,
        ) == Some("ok"@),
    }
}

proof fn lemma_copied(d: DocView, report: DocView, key: Seq<char>, other: Seq<char>)
    requires
        !(d is Other),
    ensures
        !(message::copied_member(d, report, key) is Other),
        json::doc_member(report, key) is Some ==> json::doc_member(
            message::copied_member(d, report, key),
            key,
        ) == json::doc_member(report, key),
        other != key ==> json::doc_member(message::copied_member(d, report, key), other)
            == json::doc_member(d, other),
{
    if let Some(f) = json::doc_member(report, key) {
        json::law_set_member_is_read(d, key, f, other);
    }
}

proof fn lemma_set(d: DocView, key: Seq<char>, f: FieldView)
    requires
        !(d is Other),
    ensures
        !(json::doc_with(d, key, f) is Other),
        json::doc_member(json::doc_with(d, key, f), key) == Some(f),
        forall|other: Seq<char>|
            other != key ==> #[trigger] json::doc_member(json::doc_with(d, key, f), other)
                == json::doc_member(d, other),
{
    json::law_set_member_is_read(d, key, f, key);
    assert forall|other: Seq<char>| other != key implies #[trigger] json::doc_member(
        json::doc_with(d, key, f),
        other,
    ) == json::doc_member(d, other) by {
        json::law_set_member_is_read(d, key, f, other);
    }
}

proof fn lemma_merged(record: DocView, call: Seq<char>, name: Seq<char>, content: Seq<char>)
    requires
        !(record is Other),
    ensures
        records_result(
            PartView {
                part_type: "tool_result"@,
                data: message::merged_result(
                    record,
                    call,
                    name,
                    content,
                    json::json_parse(content),
                ),
            },
            call,
            name,
            content,
        ),
{
    lemma_keys_differ();
    let one = json::doc_with(record, "id"@, FieldView::Text(call));
    let named = json::doc_with(one, "name"@, FieldView::Text(name));
    lemma_set(record, "id"@, FieldView::Text(call));
    lemma_set(one, "name"@, FieldView::Text(name));
    let payload = json::json_parse(content);
    if let Some(DocView::Object(o)) = payload {
        let report = DocView::Object(o);
        let status = match json::doc_member(report, "status"@) {
            Some(field) => field,
            None => match json::doc_member(named, "status"@) {
                Some(field) => field,
                None => FieldView::Text("ok"@),
            },
        };
        let d0 = json::doc_with(named, "status"@, status);
        lemma_set(named, "status"@, status);
        let d1 = message::copied_member(d0, report, "title"@);
        let d2 = message::copied_member(d1, report, "metadata"@);
        let d3 = message::copied_member(d2, report, "line_count"@);
        let d4 = message::copied_member(d3, report, "output_preview"@);
        lemma_copied(d0, report, "title"@, "id"@);
        lemma_copied(d0, report, "title"@, "name"@);
        lemma_copied(d0, report, "title"@, "status"@);
        lemma_copied(d1, report, "metadata"@, "id"@);
        lemma_copied(d1, report, "metadata"@, "name"@);
        lemma_copied(d1, report, "metadata"@, "status"@);
        lemma_copied(d1, report, "metadata"@, "title"@);
        lemma_copied(d2, report, "line_count"@, "id"@);
        lemma_copied(d2, report, "line_count"@, "name"@);
        lemma_copied(d2, report, "line_count"@, "status"@);
        lemma_copied(d2, report, "line_count"@, "title"@);
        lemma_copied(d3, report, "output_preview"@, "id"@);
        lemma_copied(d3, report, "output_preview"@, "name"@);
        lemma_copied(d3, report, "output_preview"@, "status"@);
        lemma_copied(d3, report, "output_preview"@, "title"@);
    } else {
        let status = if payload is None && "Error:"@.is_prefix_of(text::trim_start(content)) {
            "error"@
        } else {
            "ok"@
        };
        lemma_set(named, "status"@, FieldView::Text(status));
        let d0 = json::doc_with(named, "status"@, FieldView::Text(status));
        lemma_set(d0, "output_preview"@, FieldView::Text(content));
    }
}

proof fn lemma_part_found(parts: Seq<PartView>, part_type: Seq<char>, id: Seq<char>, i: int)
    requires
        0 <= i,
    ensures
        message::part_from(parts, part_type, id, i) matches Some(k) ==> i <= k < parts.len()
            && message::is_part(parts[k], part_type, id),
    decreases parts.len() - i,
{
    if i < parts.len() {
        lemma_part_found(parts, part_type, id, i + 1);
    }
}

/// Place `k` is the latest at which a call of that id is noted, and leads to message `i`.
pub open spec fn leads_to(places: Seq<ToolPlaceView>, call: Seq<char>, k: int, i: int) -> bool {
    &&& 0 <= k < places.len()
    &&& places[k].id == call
    &&& places[k].index == i
    &&& forall|j: int| k < j < places.len() ==> (#[trigger] places[j]).id != call
}

proof fn lemma_place(places: Seq<ToolPlaceView>, call: Seq<char>, k: int, i: int, n: int)
    requires
        leads_to(places, call, k, i),
        k < n <= places.len(),
    ensures
        events::call_place(places, call, n) == Some(i as usize),
    decreases n,
{
    if n - 1 > k {
        assert(places[n - 1].id != call);
        lemma_place(places, call, k, i, n - 1);
    }
}

/// The result of a call is recorded in the answer that made the call, under the name and the id of
/// the call and with what the tool reported; every other record there stays, and no other message
/// changes.
pub proof fn law_results_reach_their_call(
    a: AppView,
    id: Seq<char>,
    k: int,
    i: int,
    call: Seq<char>,
    name: Seq<char>,
    content: Seq<char>,
)
    requires
        app::client_of(a, id) matches Some(c) && leads_to(c.tool_calls.places, call, k, i),
        0 <= i < messages(a, id).len(),
        messages(a, id)[i].role == MessageRole::Assistant,
    ensures
        ({
            let before = messages(a, id);
            let after = messages(events::result_recorded(a, id, call, name, content), id);
            &&& is_changed_only_at(before, after, i)
            &&& after[i] == (MessageView { parts: after[i].parts, ..before[i] })
            &&& before[i].parts.len() <= after[i].parts.len() <= before[i].parts.len() + 1
            &&& exists|q: int|
                0 <= q < after[i].parts.len() && records_result(
                    #[trigger] after[i].parts[q],
                    call,
                    name,
                    content,
                ) && (forall|j: int|
                    0 <= j < before[i].parts.len() && j != q ==> #[trigger] after[i].parts[j]
                        == before[i].parts[j])
        }),
{
    reveal(events::result_recorded);
    reveal(transcript::result_added);
    lemma_keys_differ();
    let c = app::client_of(a, id)->0;
    lemma_place(c.tool_calls.places, call, k, i, c.tool_calls.places.len() as int);
    let chat = app::transcript(a, id);
    let made = transcript::result_added(
        chat,
        events::call_target(a, id, call),
        call,
        name,
        content,
    );
    lemma_put(a, id, made);
    let m = chat.messages[i];
    lemma_part_found(m.parts, "tool_result"@, call, 0);
    lemma_part_found(m.parts, "tool_call"@, call, 0);
    let record = transcript::call_record(m, call);
    assert(!(record is Other));
    lemma_merged(record, call, name, content);
    let doc = message::merged_result(record, call, name, content, json::json_parse(content));
    let after = made.messages[i].parts;
    let q = match message::part_from(m.parts, "tool_result"@, call, 0) {
        Some(at) => at,
        None => m.parts.len() as int,
    };
    assert(after[q] == PartView { part_type: "tool_result"@, data: doc });
    assert(records_result(after[q], call, name, content));
}

} // verus!

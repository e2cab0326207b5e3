use crabcode::chunks::{coalesce_streaming_chunks, ChunkMessage};
use crabcode::clock::TimeBudget;
use crabcode::drain::{
    drain_streaming_chunks, drain_streaming_chunks_global, note_turn, Drained, StreamSource,
    STREAM_CHUNK_DRAIN_LIMIT, STREAM_CHUNK_GLOBAL_DRAIN_LIMIT,
};

fn text(s: &str) -> ChunkMessage {
    ChunkMessage::Text(s.to_string())
}

fn nested(id: &str, chunk: ChunkMessage) -> ChunkMessage {
    ChunkMessage::SubagentChunk { session_id: id.to_string(), chunk: Box::new(chunk) }
}

fn source(
    id: &str,
    receiver: tokio::sync::mpsc::UnboundedReceiver<ChunkMessage>,
) -> StreamSource {
    StreamSource { session_id: id.to_string(), receiver }
}

fn ample() -> TimeBudget {
    TimeBudget::start(1_000_000_000)
}

fn filled(letter: &str, count: usize) -> tokio::sync::mpsc::UnboundedReceiver<ChunkMessage> {
    let (sender, receiver) = tokio::sync::mpsc::unbounded_channel();
    for _ in 0..count {
        sender.send(text(letter)).unwrap();
    }
    receiver
}

#[test]
fn streaming_text_chunks_are_coalesced() {
    let chunks = coalesce_streaming_chunks(vec![
        text("hello"),
        text(" "),
        text("world"),
        ChunkMessage::Warning("careful".to_string()),
        ChunkMessage::Reasoning("think".to_string()),
        ChunkMessage::Reasoning("ing".to_string()),
    ]);

    assert_eq!(chunks.len(), 3);
    match &chunks[0] {
        ChunkMessage::Text(text) => assert_eq!(text, "hello world"),
        _ => panic!("expected coalesced text chunk"),
    }
    match &chunks[2] {
        ChunkMessage::Reasoning(text) => assert_eq!(text, "thinking"),
        _ => panic!("expected coalesced reasoning chunk"),
    }
}

#[test]
fn interleaved_subagent_text_chunks_are_coalesced_per_session() {
    let mut interleaved = Vec::with_capacity(3 * 1024);
    for _ in 0..1024 {
        interleaved.push(nested("a", text("a")));
        interleaved.push(nested("b", text("b")));
        interleaved.push(nested("c", text("c")));
    }
    let chunks = coalesce_streaming_chunks(interleaved);

    assert_eq!(chunks.len(), 3);
    for (chunk, (expected_session, expected_text)) in chunks.iter().zip([
        ("a", "a".repeat(1024)),
        ("b", "b".repeat(1024)),
        ("c", "c".repeat(1024)),
    ]) {
        match chunk {
            ChunkMessage::SubagentChunk { session_id, chunk } => {
                assert_eq!(session_id, expected_session);
                assert!(matches!(chunk.as_ref(), ChunkMessage::Text(text) if text == &expected_text));
            }
            _ => panic!("expected subagent chunk"),
        }
    }
}

#[test]
fn subagent_coalescing_does_not_cross_same_session_tool_events() {
    let chunks = coalesce_streaming_chunks(vec![
        nested("child", text("before")),
        nested("child", ChunkMessage::Warning("tool boundary".to_string())),
        nested("child", text("after")),
    ]);

    assert_eq!(chunks.len(), 3);
}

#[test]
fn coalescing_preserves_parent_text_boundaries_around_nested_subagent_events() {
    let chunks = coalesce_streaming_chunks(vec![
        text("before"),
        nested("child", text("nested")),
        text("after"),
    ]);

    assert_eq!(chunks.len(), 3);
    assert!(matches!(&chunks[0], ChunkMessage::Text(text) if text == "before"));
    assert!(matches!(&chunks[1], ChunkMessage::SubagentChunk { .. }));
    assert!(matches!(&chunks[2], ChunkMessage::Text(text) if text == "after"));
}

#[test]
fn global_stream_drain_respects_shared_time_budget() {
    let mut sources = vec![source("a", filled("a", 512)), source("b", filled("b", 512))];
    let (drained, _) = drain_streaming_chunks_global(
        &mut sources,
        STREAM_CHUNK_DRAIN_LIMIT,
        STREAM_CHUNK_GLOBAL_DRAIN_LIMIT,
        &mut ample(),
        0,
    );

    let total: usize = drained.iter().map(|d| d.chunks.len()).sum();
    assert_eq!(total, 1024);
    for id in ["a", "b"] {
        let own: usize =
            drained.iter().filter(|d| d.session_id == id).map(|d| d.chunks.len()).sum();
        assert_eq!(own, 512);
    }
}

#[test]
fn global_stream_drain_caps_downstream_chunk_work() {
    let (sender, receiver) = tokio::sync::mpsc::unbounded_channel();
    for _ in 0..4096 {
        sender.send(text("x")).unwrap();
    }
    let mut sources = vec![source("session", receiver)];
    let (drained, _) = drain_streaming_chunks_global(
        &mut sources,
        STREAM_CHUNK_DRAIN_LIMIT,
        128,
        &mut ample(),
        0,
    );

    let total: usize = drained.iter().map(|d| d.chunks.len()).sum();
    assert_eq!(total, 128);
    assert_eq!(sources[0].receiver.len(), 4096 - 128);
}

#[test]
fn global_stream_drain_rotates_fairly_under_tight_budget() {
    let mut sources = vec![
        source("a", filled("a", 256)),
        source("b", filled("b", 256)),
        source("c", filled("c", 256)),
    ];
    let mut rotation = 0usize;
    let mut served = std::collections::HashSet::new();

    for _ in 0..48 {
        let (drained, next) =
            drain_streaming_chunks_global(
                &mut sources,
                64,
                192,
                &mut TimeBudget::start(200_000),
                rotation,
            );
        rotation = next;
        for d in drained {
            if !d.chunks.is_empty() {
                served.insert(d.session_id);
            }
        }
        if served.len() == 3 {
            break;
        }
    }

    assert_eq!(served.len(), 3);
    assert!(served.contains("a"));
    assert!(served.contains("b"));
    assert!(served.contains("c"));
}

#[test]
fn streaming_drain_consumes_bursts_larger_than_the_old_frame_cap() {
    let mut receiver = filled("x", 1024);

    let (chunks, disconnected) =
        drain_streaming_chunks(&mut receiver, STREAM_CHUNK_DRAIN_LIMIT, &mut ample());

    assert_eq!(chunks.len(), 1024);
    assert!(disconnected);
    assert_eq!(coalesce_streaming_chunks(chunks).len(), 1);
}

#[test]
fn an_open_channel_without_chunks_is_not_disconnected() {
    let (sender, mut receiver) = tokio::sync::mpsc::unbounded_channel::<ChunkMessage>();

    let (chunks, disconnected) = drain_streaming_chunks(&mut receiver, 8, &mut ample());

    assert!(chunks.is_empty());
    assert!(!disconnected);
    drop(sender);
}

#[test]
fn coalescing_keeps_what_each_session_reads() {
    let chunks = coalesce_streaming_chunks(vec![
        nested("child", text("t1")),
        text("p"),
        nested("child", text("t2")),
        text("q"),
    ]);

    let mut parent = String::new();
    let mut child = String::new();
    for chunk in &chunks {
        match chunk {
            ChunkMessage::Text(t) => parent.push_str(t),
            ChunkMessage::SubagentChunk { chunk, .. } => match chunk.as_ref() {
                ChunkMessage::Text(t) => child.push_str(t),
                _ => panic!("expected text"),
            },
            _ => panic!("expected text"),
        }
    }
    assert_eq!(parent, "pq");
    assert_eq!(child, "t1t2");
    assert!(chunks.len() <= 4);
}

#[test]
fn other_events_come_out_once_and_in_order() {
    let chunks = coalesce_streaming_chunks(vec![
        ChunkMessage::Warning("one".to_string()),
        ChunkMessage::Warning("two".to_string()),
        ChunkMessage::End,
    ]);
    assert_eq!(chunks.len(), 3);
    assert!(matches!(&chunks[0], ChunkMessage::Warning(w) if w == "one"));
    assert!(matches!(&chunks[1], ChunkMessage::Warning(w) if w == "two"));
    assert!(matches!(&chunks[2], ChunkMessage::End));
}

#[test]
fn a_turn_is_noted_where_there_is_something_to_note() {
    let mut drained: Vec<Drained> = Vec::new();
    assert!(!note_turn(&mut drained, "a".to_string(), Vec::new(), false));
    assert!(drained.is_empty());
    assert!(note_turn(&mut drained, "a".to_string(), vec![text("x")], false));
    assert!(note_turn(&mut drained, "b".to_string(), Vec::new(), true));
    assert_eq!(drained.len(), 2);
    assert_eq!(drained[0].session_id, "a");
    assert_eq!(drained[0].chunks.len(), 1);
    assert!(!drained[0].disconnected);
    assert!(drained[1].disconnected);
}

#[test]
fn what_is_taken_is_handed_out_in_order_and_in_turn() {
    let channel = |name: &str| {
        let (sender, receiver) = tokio::sync::mpsc::unbounded_channel();
        for i in 0..4 {
            sender.send(text(&format!("{}{}", name, i))).unwrap();
        }
        (sender, receiver)
    };
    let (keep_b, b) = channel("b");
    let (keep_a, a) = channel("a");
    let mut sources = vec![source("b", b), source("a", a)];
    let (drained, next) = drain_streaming_chunks_global(&mut sources, 2, 6, &mut ample(), 1);
    let turns: Vec<(String, Vec<String>)> = drained
        .iter()
        .map(|d| {
            let texts = d.chunks.iter().map(|c| match c {
                ChunkMessage::Text(text) => text.clone(),
                _ => String::new(),
            });
            (d.session_id.clone(), texts.collect())
        })
        .collect();
    let turn = |id: &str, x: &str, y: &str| (id.to_string(), vec![x.to_string(), y.to_string()]);
    assert_eq!(turns, vec![turn("b", "b0", "b1"), turn("a", "a0", "a1"), turn("b", "b2", "b3")]);
    assert_eq!(next, 0);
    assert_eq!(sources[0].session_id, "a");
    assert_eq!(sources[0].receiver.len(), 2);
    assert_eq!(sources[1].receiver.len(), 0);
    drop((keep_a, keep_b));
}

#[test]
fn draining_stops_at_the_limit() {
    let mut receiver = filled("x", 3);
    let (chunks, disconnected) = drain_streaming_chunks(&mut receiver, 0, &mut ample());
    assert!(chunks.is_empty());
    assert!(!disconnected);
    assert_eq!(receiver.len(), 3);

    let (chunks, disconnected) = drain_streaming_chunks(&mut receiver, 3, &mut ample());
    assert_eq!(chunks.len(), 3);
    assert!(!disconnected);

    let (chunks, disconnected) = drain_streaming_chunks(&mut receiver, 3, &mut ample());
    assert!(chunks.is_empty());
    assert!(disconnected);
}

#[test]
fn draining_stops_when_the_time_is_up() {
    let mut receiver = filled("x", 1024);
    let (chunks, disconnected) =
        drain_streaming_chunks(&mut receiver, 1024, &mut TimeBudget::start(0));
    assert_eq!(chunks.len(), 64);
    assert!(!disconnected);
    assert_eq!(receiver.len(), 960);

    let mut sources = vec![source("a", filled("a", 8))];
    let (drained, next) =
        drain_streaming_chunks_global(&mut sources, 64, 64, &mut TimeBudget::start(0), 7);
    assert!(drained.is_empty());
    assert_eq!(next, 7);
    assert_eq!(sources[0].receiver.len(), 8);
}

#[test]
fn a_round_without_chunks_ends_the_frame() {
    let (keep, open) = tokio::sync::mpsc::unbounded_channel();
    keep.send(text("one")).unwrap();
    let mut sources = vec![source("open", open), source("shut", filled("s", 0))];
    let (drained, _) = drain_streaming_chunks_global(&mut sources, 8, 64, &mut ample(), 0);
    let open: Vec<&Drained> = drained.iter().filter(|d| d.session_id == "open").collect();
    assert_eq!(open.len(), 1);
    assert_eq!(open[0].chunks.len(), 1);
    assert!(!open[0].disconnected);
    assert!(drained.iter().any(|d| d.session_id == "shut" && d.disconnected));
    drop(keep);
}

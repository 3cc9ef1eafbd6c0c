use evo_agent_sdk::stream::StreamBridge;

fn feed_all(bridge: &mut StreamBridge, input: &[u8]) -> Vec<(String, u64)> {
    bridge
        .push_bytes(input)
        .into_iter()
        .map(|c| (c.delta, c.index))
        .collect()
}

#[test]
fn single_read_stream_aggregates_in_order() {
    let mut bridge = StreamBridge::new();
    let input = b"data: {\"choices\":[{\"delta\":{\"content\":\"Hel\"}}]}\n\ndata: {\"choices\":[{\"delta\":{\"content\":\"lo\"}}]}\ndata: [DONE]\n";
    let chunks = feed_all(&mut bridge, input);
    assert_eq!(
        chunks,
        vec![("Hel".to_string(), 0), ("lo".to_string(), 1)]
    );
    assert_eq!(bridge.aggregate_text(), "Hello");
    assert!(bridge.is_done());
    assert_eq!(bridge.chunk_count(), 2);
}

#[test]
fn split_across_reads_yields_same_aggregate() {
    let input: &[u8] = b"data: {\"choices\":[{\"delta\":{\"content\":\"Hel\"}}]}\ndata: {\"choices\":[{\"delta\":{\"content\":\"lo\"}}]}\ndata: [DONE]\n";
    // every split position, including mid-frame, gives the same result
    for split in 0..input.len() {
        let mut bridge = StreamBridge::new();
        let mut chunks = feed_all(&mut bridge, &input[..split]);
        chunks.extend(feed_all(&mut bridge, &input[split..]));
        assert_eq!(
            chunks,
            vec![("Hel".to_string(), 0), ("lo".to_string(), 1)],
            "split at {split}"
        );
        assert_eq!(bridge.aggregate_text(), "Hello", "split at {split}");
        assert!(bridge.is_done(), "split at {split}");
    }
}

#[test]
fn chunk_indices_are_contiguous_from_zero() {
    let mut bridge = StreamBridge::new();
    let mut indices: Vec<u64> = Vec::new();
    for piece in [
        &b"data: {\"choices\":[{\"delta\":{\"content\":\"a\"}}]}\n"[..],
        &b"data: {\"choices\":[{\"delta\":{\"content\":\"b\"}}]}\ndata: {\"choices\":[{\"delta\":{\"content\":\"c\"}}]}\n"[..],
        &b"data: [DONE]\n"[..],
    ] {
        for chunk in bridge.push_bytes(piece) {
            indices.push(chunk.index);
        }
    }
    assert_eq!(indices, vec![0, 1, 2]);
    assert_eq!(bridge.aggregate_text(), "abc");
}

#[test]
fn sentinel_only_stream_is_empty() {
    let mut bridge = StreamBridge::new();
    let chunks = bridge.push_bytes(b"data: [DONE]\n");
    assert!(chunks.is_empty());
    assert_eq!(bridge.aggregate_text(), "");
    assert!(bridge.is_done());
    assert_eq!(bridge.chunk_count(), 0);
}

#[test]
fn unparsable_and_alien_frames_are_skipped() {
    let mut bridge = StreamBridge::new();
    let input = b"data: not json\n: keep-alive\n\ndata: {\"choices\":[{\"delta\":{\"content\":\"ok\"}}]}\ndata: [DONE]\n";
    let chunks = feed_all(&mut bridge, input);
    assert_eq!(chunks, vec![("ok".to_string(), 0)]);
    assert_eq!(bridge.aggregate_text(), "ok");
}

#[test]
fn empty_delta_emits_no_chunk() {
    let mut bridge = StreamBridge::new();
    let input = b"data: {\"choices\":[{\"delta\":{\"content\":\"\"}}]}\ndata: [DONE]\n";
    let chunks = bridge.push_bytes(input);
    assert!(chunks.is_empty());
    assert_eq!(bridge.aggregate_text(), "");
}

#[test]
fn frames_after_sentinel_are_ignored() {
    let mut bridge = StreamBridge::new();
    bridge.push_bytes(b"data: [DONE]\n");
    let chunks = bridge.push_bytes(b"data: {\"choices\":[{\"delta\":{\"content\":\"x\"}}]}\n");
    assert!(chunks.is_empty());
    assert_eq!(bridge.aggregate_text(), "");
}

#[test]
fn incomplete_line_stays_buffered() {
    let mut bridge = StreamBridge::new();
    let chunks = bridge.push_bytes(b"data: {\"choices\":[{\"delta\":{\"content\":\"x\"}}]}");
    assert!(chunks.is_empty());
    let chunks = bridge.push_bytes(b"\n");
    assert_eq!(chunks.len(), 1);
    assert_eq!(chunks[0].delta, "x");
}

use basalt_server::streaming::{ChunkStreamRate, ChunkView, stream_chunks, take_chunk_batch};

#[test]
fn first_crossing_queues_whole_view_row_major() {
    let mut view = ChunkView::empty();
    let mut rate = ChunkStreamRate::new();
    let unload = stream_chunks(&mut view, &mut rate, 0, 0);
    assert!(unload.is_empty());
    assert_eq!(rate.pending.len(), 121);
    assert_eq!(rate.pending[0], (-5, -5));
    assert_eq!(rate.pending[1], (-5, -4));
    assert_eq!(rate.pending[11], (-4, -5));
    assert_eq!(rate.pending[120], (5, 5));
}

#[test]
fn crossing_unloads_chunks_left_behind() {
    let mut view = ChunkView::empty();
    let mut rate = ChunkStreamRate::new();
    stream_chunks(&mut view, &mut rate, 0, 0);
    let sent = take_chunk_batch(&mut view, &mut rate, 200);
    assert_eq!(sent.len(), 121);
    assert!(rate.pending.is_empty());
    let unload = stream_chunks(&mut view, &mut rate, 1, 0);
    assert_eq!(unload.len(), 11);
    assert!(unload.iter().all(|&(x, _)| x == -5));
    assert_eq!(view.loaded_chunks.len(), 110);
    assert_eq!(rate.pending.len(), 11);
    assert!(rate.pending.iter().all(|&(x, _)| x == 6));
}

#[test]
fn crossing_drops_queued_chunks_out_of_view() {
    let mut view = ChunkView::empty();
    let mut rate = ChunkStreamRate::new();
    stream_chunks(&mut view, &mut rate, 0, 0);
    let unload = stream_chunks(&mut view, &mut rate, 20, 20);
    assert!(unload.is_empty());
    assert_eq!(rate.pending.len(), 121);
    assert!(rate.pending.iter().all(|&(x, z)| (15..=25).contains(&x) && (15..=25).contains(&z)));
}

#[test]
fn batch_takes_oldest_first_within_budget() {
    let mut view = ChunkView::empty();
    let mut rate = ChunkStreamRate::new();
    stream_chunks(&mut view, &mut rate, 0, 0);
    let sent = take_chunk_batch(&mut view, &mut rate, 3);
    assert_eq!(sent, vec![(-5, -5), (-5, -4), (-5, -3)]);
    assert_eq!(rate.pending.len(), 118);
    assert_eq!(rate.pending[0], (-5, -2));
    assert_eq!(view.loaded_chunks, sent);
}

#[test]
fn zero_budget_sends_nothing() {
    let mut view = ChunkView::empty();
    let mut rate = ChunkStreamRate::new();
    stream_chunks(&mut view, &mut rate, 0, 0);
    let sent = take_chunk_batch(&mut view, &mut rate, 0);
    assert!(sent.is_empty());
    assert_eq!(rate.pending.len(), 121);
    assert!(view.loaded_chunks.is_empty());
}

#[test]
fn batch_does_not_duplicate_loaded_chunks() {
    let mut view = ChunkView { loaded_chunks: vec![(0, 0)] };
    let mut rate = ChunkStreamRate { pending: std::collections::VecDeque::from(vec![(0, 0), (1, 0)]) };
    let sent = take_chunk_batch(&mut view, &mut rate, 5);
    assert_eq!(sent, vec![(0, 0), (1, 0)]);
    assert_eq!(view.loaded_chunks, vec![(0, 0), (1, 0)]);
}

use basalt_server::streaming::{chunk_crossing, initial_chunk_queue};

#[test]
fn joining_player_queues_its_view() {
    let q = initial_chunk_queue(2, -3);
    assert_eq!(q.len(), 121);
    assert_eq!(q[0], (-3, -8));
    assert_eq!(q[120], (7, 2));
    let mut view = ChunkView::empty();
    let mut rate = ChunkStreamRate::new();
    stream_chunks(&mut view, &mut rate, 2, -3);
    assert_eq!(rate.pending, q);
}

#[test]
fn chunk_crossings() {
    assert_eq!(chunk_crossing(15, 0, 16, 0), Some((1, 0)));
    assert_eq!(chunk_crossing(0, 0, 15, 15), None);
    assert_eq!(chunk_crossing(0, 0, -1, 0), Some((-1, 0)));
    assert_eq!(chunk_crossing(0, 5, 0, -20), Some((0, -2)));
}

#[test]
fn queue_and_loaded_stay_apart_over_many_moves() {
    let mut view = ChunkView::empty();
    let mut rate = ChunkStreamRate::new();
    let path = [(0, 0), (1, 0), (1, 1), (3, 2), (2, 2), (-4, 7), (-4, 8)];
    for (i, &(cx, cz)) in path.iter().enumerate() {
        stream_chunks(&mut view, &mut rate, cx, cz);
        take_chunk_batch(&mut view, &mut rate, 7 * (i + 1));
        let mut all = view.loaded_chunks.clone();
        all.extend(rate.pending.iter().copied());
        let mut dedup = all.clone();
        dedup.sort();
        dedup.dedup();
        assert_eq!(dedup.len(), all.len());
        assert!(all.iter().all(|&(x, z)| (x - cx).abs() <= 5 && (z - cz).abs() <= 5));
    }
}

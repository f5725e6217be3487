use basalt_server::world::{ActiveChunks, WindowIds, chunk_of, face_offset, flush_due};

#[test]
fn helpers_face_offset_all_directions() {
    assert_eq!(face_offset(0), (0, -1, 0));
    assert_eq!(face_offset(1), (0, 1, 0));
    assert_eq!(face_offset(2), (0, 0, -1));
    assert_eq!(face_offset(3), (0, 0, 1));
    assert_eq!(face_offset(4), (-1, 0, 0));
    assert_eq!(face_offset(5), (1, 0, 0));
    assert_eq!(face_offset(99), (0, 0, 0));
}

#[test]
fn tick_face_offset_all_directions() {
    assert_eq!(face_offset(0), (0, -1, 0));
    assert_eq!(face_offset(1), (0, 1, 0));
    assert_eq!(face_offset(2), (0, 0, -1));
    assert_eq!(face_offset(3), (0, 0, 1));
    assert_eq!(face_offset(4), (-1, 0, 0));
    assert_eq!(face_offset(5), (1, 0, 0));
    assert_eq!(face_offset(99), (0, 0, 0));
}

#[test]
fn game_loop_face_offset_all_directions() {
    assert_eq!(face_offset(0), (0, -1, 0)); // bottom
    assert_eq!(face_offset(1), (0, 1, 0)); // top
    assert_eq!(face_offset(2), (0, 0, -1)); // north
    assert_eq!(face_offset(3), (0, 0, 1)); // south
    assert_eq!(face_offset(4), (-1, 0, 0)); // west
    assert_eq!(face_offset(5), (1, 0, 0)); // east
    assert_eq!(face_offset(99), (0, 0, 0)); // invalid
}

#[test]
fn face_offsets_of_opposite_faces_cancel() {
    for d in 0..6 {
        let a = face_offset(d);
        let b = face_offset(d ^ 1);
        assert_eq!((a.0 + b.0, a.1 + b.1, a.2 + b.2), (0, 0, 0));
    }
}

#[test]
fn chunk_of_floors_negative_blocks() {
    assert_eq!(chunk_of(0), 0);
    assert_eq!(chunk_of(15), 0);
    assert_eq!(chunk_of(16), 1);
    assert_eq!(chunk_of(-1), -1);
    assert_eq!(chunk_of(-16), -1);
    assert_eq!(chunk_of(-17), -2);
}

#[test]
fn window_ids_cycle_through_1_to_127() {
    let mut ids = WindowIds::new();
    assert_eq!(ids.alloc_window_id(), 1);
    assert_eq!(ids.alloc_window_id(), 2);
    for _ in 3..=127 {
        ids.alloc_window_id();
    }
    assert_eq!(ids.alloc_window_id(), 1);
}

#[test]
fn flush_every_interval_ticks() {
    assert!(flush_due(600, 600));
    assert!(!flush_due(601, 600));
    assert!(flush_due(0, 600));
    assert!(!flush_due(5, 0));
}

#[test]
fn active_chunks_follow_players() {
    let mut active = ActiveChunks::new();
    assert!(!active.is_chunk_active(0, 0));
    active.rebuild(&[(0, 0), (10, 10)], 2);
    assert!(active.is_chunk_active(0, 0));
    assert!(active.is_chunk_active(2, -2));
    assert!(!active.is_chunk_active(3, 0));
    assert!(active.is_chunk_active(12, 8));
    active.rebuild(&[], 2);
    assert!(!active.is_chunk_active(0, 0));
}

use basalt_server::world::placement_target;

#[test]
fn placements_land_across_the_clicked_face() {
    assert_eq!(placement_target(16, 63, 10, 1), (16, 64, 10));
    assert_eq!(placement_target(16, 63, 10, 4), (15, 63, 10));
    assert_eq!(placement_target(16, 63, 10, 9), (16, 63, 10));
}

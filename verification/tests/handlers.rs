use basalt_server::handlers::{AIR, BlockInteractionHandler, LifecycleHandler, StorageHandler, WorldHandler};

#[test]
fn block_broken_sets_air_and_queues_responses() {
    let c = BlockInteractionHandler::on_block_broken(5, 64, 3, 42);
    assert_eq!((c.x, c.y, c.z), (5, 64, 3));
    assert_eq!(c.block_state, AIR);
    assert_eq!(c.ack_sequence, 42);
}

#[test]
fn block_placed_keeps_state() {
    let c = BlockInteractionHandler::on_block_placed(5, 100, 3, 1, 7);
    assert_eq!(c.block_state, 1);
    assert_eq!(c.ack_sequence, 7);
}

#[test]
fn storage_persists_the_block_chunk() {
    assert_eq!(StorageHandler::chunk_to_persist(5, 3), (0, 0));
    assert_eq!(StorageHandler::chunk_to_persist(-1, 40), (-1, 2));
}

#[test]
fn chunk_boundary_crossing_queues_stream() {
    assert_eq!(WorldHandler::on_player_moved(0, 0, 16, 0), Some((1, 0)));
}

#[test]
fn same_chunk_movement_no_stream() {
    assert_eq!(WorldHandler::on_player_moved(0, 0, 8, 8), None);
}

#[test]
fn player_left_broadcasts() {
    let notice = LifecycleHandler::on_player_left(0, 1, "Steve".to_string());
    assert_eq!(notice.uuid, 0);
    assert_eq!(notice.entity_id, 1);
    assert_eq!(notice.username, "Steve");
}

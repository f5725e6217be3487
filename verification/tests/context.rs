use basalt_server::context::ResponseQueue;

#[derive(Debug, PartialEq)]
enum Response {
    SendBlockAck { sequence: i32 },
    StreamChunks { new_cx: i32, new_cz: i32 },
}

#[test]
fn response_queue_push_and_drain() {
    let mut queue = ResponseQueue::new();
    queue.push(Response::SendBlockAck { sequence: 1 });
    queue.push(Response::StreamChunks { new_cx: 0, new_cz: 0 });
    let drained = queue.drain();
    assert_eq!(drained.len(), 2);
    assert!(queue.drain().is_empty());
}

#[test]
fn response_queue_default_is_empty() {
    let mut queue: ResponseQueue<Response> = ResponseQueue::default();
    assert!(queue.drain().is_empty());
}

#[test]
fn response_queue_keeps_push_order() {
    let mut queue = ResponseQueue::new();
    queue.push(Response::SendBlockAck { sequence: 7 });
    queue.push(Response::SendBlockAck { sequence: 8 });
    assert_eq!(queue.len(), 2);
    assert_eq!(
        queue.drain(),
        vec![Response::SendBlockAck { sequence: 7 }, Response::SendBlockAck { sequence: 8 }]
    );
    assert!(queue.is_empty());
}

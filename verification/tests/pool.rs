use mtcp::connection_pool::ConnectionPool;
use mtcp::framing::frame_body;
use mtcp::protocol::Message;
use mtcp::registry::StreamRegistry;

#[test]
fn round_robin_cycles_in_order() {
    // Six sends over three connections: each connection gets exactly two,
    // in the order 0, 1, 2, 0, 1, 2.
    let mut pool = ConnectionPool::new(3);
    let mut picked = Vec::new();
    for _ in 0..6 {
        let (idx, _frame) = pool.send_message(&Message::Heartbeat);
        picked.push(idx);
    }
    assert_eq!(picked, vec![0, 1, 2, 0, 1, 2]);
}

#[test]
fn single_connection_pool_always_picks_it() {
    let mut pool = ConnectionPool::new(1);
    for _ in 0..4 {
        let (idx, _frame) = pool.send_message(&Message::Heartbeat);
        assert_eq!(idx, 0);
    }
}

#[test]
fn send_produces_length_prefixed_frame() {
    let mut pool = ConnectionPool::new(2);
    let (_idx, frame) = pool.send_message(&Message::NewStream { stream_id: 5 });
    assert_eq!(frame, vec![0, 0, 0, 5, 0x02, 0, 0, 0, 5]);
    let body = frame_body(&frame).expect("the frame must be whole");
    match Message::decode(&body) {
        Ok(Message::NewStream { stream_id }) => assert_eq!(stream_id, 5),
        _ => panic!("the frame body must decode to the sent message"),
    }
}

#[test]
fn data_goes_to_the_addressed_stream_only() {
    let mut pool = ConnectionPool::new(1);
    pool.start_receiving(1);
    pool.start_receiving(2);
    let delivered = pool.handle_inbound(Message::Data { stream_id: 1, data: vec![0xAB] });
    assert!(delivered);
    assert_eq!(pool.recv_inbound(2), None);
    assert_eq!(pool.recv_inbound(1), Some(vec![0xAB]));
    assert_eq!(pool.recv_inbound(1), None);
}

#[test]
fn non_data_messages_are_ignored_inbound() {
    let mut pool = ConnectionPool::new(1);
    pool.start_receiving(1);
    assert!(!pool.handle_inbound(Message::Heartbeat));
    assert!(!pool.handle_inbound(Message::NewStream { stream_id: 1 }));
    assert!(!pool.handle_inbound(Message::CloseStream { stream_id: 1 }));
    assert_eq!(pool.recv_inbound(1), None);
}

#[test]
fn stop_receiving_drops_later_data() {
    let mut pool = ConnectionPool::new(1);
    pool.start_receiving(5);
    pool.stop_receiving(5);
    let delivered = pool.handle_inbound(Message::Data { stream_id: 5, data: vec![1, 2] });
    assert!(!delivered);
    assert_eq!(pool.recv_inbound(5), None);
}

#[test]
fn unregistered_stream_drops_data() {
    let mut pool = ConnectionPool::new(2);
    let delivered = pool.handle_inbound(Message::Data { stream_id: 99, data: vec![7] });
    assert!(!delivered);
    assert_eq!(pool.recv_inbound(99), None);
}

#[test]
fn registry_queues_in_fifo_order() {
    let mut reg = StreamRegistry::new();
    reg.register(3);
    assert!(reg.is_registered(3));
    assert!(reg.deliver(3, vec![1]));
    assert!(reg.deliver(3, vec![2]));
    assert!(reg.deliver(3, vec![3]));
    assert_eq!(reg.take_next(3), Some(vec![1]));
    assert_eq!(reg.take_next(3), Some(vec![2]));
    assert_eq!(reg.take_next(3), Some(vec![3]));
    assert_eq!(reg.take_next(3), None);
}

#[test]
fn registry_deregister_is_idempotent() {
    let mut reg = StreamRegistry::new();
    reg.register(8);
    reg.deregister(8);
    reg.deregister(8);
    assert!(!reg.is_registered(8));
    assert!(!reg.deliver(8, vec![9]));
    assert_eq!(reg.take_next(8), None);
}

#[test]
fn reregistering_starts_with_an_empty_queue() {
    let mut reg = StreamRegistry::new();
    reg.register(4);
    assert!(reg.deliver(4, vec![1]));
    reg.register(4);
    assert_eq!(reg.take_next(4), None);
}

use rusty_pipe::mux::frame::MuxFrame;
use rusty_pipe::mux::ids::IdAllocator;
use rusty_pipe::mux::multiplexer::ConsumerEvent;
use rusty_pipe::mux::multiplexer::Multiplexer;
use rusty_pipe::mux::multiplexer::MuxAction;
use rusty_pipe::mux::multiplexer::OpenError;
use rusty_pipe::mux::multiplexer::ProducerEvent;

#[test]
fn allocator_hands_out_lowest_first() {
    let mut ids = IdAllocator::new();
    assert_eq!(ids.reserve_id(), Some(1));
    assert_eq!(ids.reserve_id(), Some(2));
    assert_eq!(ids.reserve_id(), Some(3));
    ids.release_id(2);
    assert!(!ids.is_reserved(2));
    assert_eq!(ids.lowest_free(), Some(2));
    assert_eq!(ids.reserve_id(), Some(2));
    assert_eq!(ids.reserve_id(), Some(4));
}

#[test]
fn allocator_release_is_idempotent() {
    let mut ids = IdAllocator::new();
    assert_eq!(ids.reserve_id(), Some(1));
    ids.release_id(1);
    ids.release_id(1);
    ids.release_id(0);
    ids.release_id(255);
    assert_eq!(ids.reserve_id(), Some(1));
    assert_eq!(ids.reserve_id(), Some(2));
}

#[test]
fn allocator_never_hands_out_reserved_ids() {
    let mut ids = IdAllocator::new();
    assert!(!ids.claim_id(0));
    assert!(!ids.claim_id(255));
    assert!(ids.claim_id(254));
    assert!(!ids.claim_id(254));
    assert!(ids.is_reserved(254));
    assert!(!ids.is_reserved(0));
    assert!(!ids.is_reserved(255));
}

#[test]
fn id_exhaustion_refuses_the_255th_stream() {
    let mut mux: Multiplexer<u32> = Multiplexer::new();
    for n in 1..=254u32 {
        assert_eq!(mux.accept_connection(n), Some(n as u8));
    }
    assert_eq!(mux.accept_connection(1000), None);
    match mux.consume_connections(ConsumerEvent::Connect(1001)) {
        MuxAction::Refuse => {}
        _ => panic!("a connection was accepted with every id taken"),
    }
    for n in 1..=254u32 {
        assert_eq!(mux.mailbox(n as u8), Some(&n));
    }
    assert!(!mux.is_open(0));
    assert!(!mux.is_open(255));
}

#[test]
fn id_is_reused_after_close() {
    let mut mux: Multiplexer<&str> = Multiplexer::new();
    assert_eq!(mux.accept_connection("a"), Some(1));
    assert_eq!(mux.accept_connection("b"), Some(2));
    assert_eq!(mux.accept_connection("c"), Some(3));
    assert_eq!(mux.release_connection(2), Some("b"));
    assert_eq!(mux.release_connection(2), None);
    assert!(!mux.is_open(2));
    assert_eq!(mux.accept_connection("d"), Some(2));
    assert_eq!(mux.mailbox(2), Some(&"d"));
}

#[test]
fn close_propagation_frees_the_id_for_254_new_streams() {
    let mut mux: Multiplexer<u8> = Multiplexer::new();
    match mux.consume_connections(ConsumerEvent::Connect(9)) {
        MuxAction::Start { id } => assert_eq!(id, 1),
        _ => panic!("the first connection was not started"),
    }
    match mux.consume_connections(ConsumerEvent::Outgoing(MuxFrame::close(1))) {
        MuxAction::Send(frame) => {
            assert_eq!(frame.stream_id, 255);
            assert_eq!(frame.bytes, vec![1]);
        }
        _ => panic!("the closing frame was not sent"),
    }
    assert!(!mux.is_open(1));
    match mux.consume_connections(ConsumerEvent::Incoming(MuxFrame::close(1))) {
        MuxAction::Discard => {}
        _ => panic!("a closing frame for a closed stream was delivered"),
    }
    for n in 1..=254u8 {
        match mux.consume_connections(ConsumerEvent::Connect(n)) {
            MuxAction::Start { id } => assert_eq!(id, n),
            _ => panic!("stream {} was not started", n),
        }
    }
}

#[test]
fn consumer_routes_frames_from_the_wire() {
    let mut mux: Multiplexer<&str> = Multiplexer::new();
    assert_eq!(mux.accept_connection("one"), Some(1));
    assert_eq!(mux.accept_connection("two"), Some(2));
    match mux.consume_connections(ConsumerEvent::Incoming(MuxFrame::new(2, vec![7, 8]))) {
        MuxAction::Deliver { id, frame } => {
            assert_eq!(id, 2);
            assert_eq!(frame.bytes, vec![7, 8]);
        }
        _ => panic!("a data frame was not delivered"),
    }
    match mux.consume_connections(ConsumerEvent::Incoming(MuxFrame::new(5, vec![7]))) {
        MuxAction::Discard => {}
        _ => panic!("a frame for no stream was not dropped"),
    }
    match mux.consume_connections(ConsumerEvent::Incoming(MuxFrame::open(9))) {
        MuxAction::Discard => {}
        _ => panic!("the consumer took a request to open"),
    }
    assert!(!mux.is_open(9));
    match mux.consume_connections(ConsumerEvent::Incoming(MuxFrame::close(2))) {
        MuxAction::DeliverLast { mailbox, frame } => {
            assert_eq!(mailbox, "two");
            assert_eq!(frame.stream_id, 255);
        }
        _ => panic!("the closing frame was not delivered"),
    }
    assert!(!mux.is_open(2));
    assert!(mux.is_open(1));
    match mux.consume_connections(ConsumerEvent::Incoming(MuxFrame::new(255, vec![]))) {
        MuxAction::Discard => {}
        _ => panic!("a closing frame that names no stream was not dropped"),
    }
    assert!(mux.is_open(1));
}

#[test]
fn producer_opens_streams_that_the_peer_proposes() {
    let mut mux: Multiplexer<&str> = Multiplexer::new();
    match mux.produce_connections(ProducerEvent::Incoming(MuxFrame::open(7))) {
        MuxAction::Open { id } => assert_eq!(id, 7),
        _ => panic!("the request to open was not taken"),
    }
    assert!(!mux.is_open(7));
    match mux.produce_connections(ProducerEvent::Opened { id: 7, mailbox: "seven" }) {
        MuxAction::Start { id } => assert_eq!(id, 7),
        _ => panic!("the stream was not started"),
    }
    assert_eq!(mux.mailbox(7), Some(&"seven"));
    match mux.produce_connections(ProducerEvent::Incoming(MuxFrame::new(7, vec![1, 2, 3]))) {
        MuxAction::Deliver { id, frame } => {
            assert_eq!(id, 7);
            assert_eq!(frame.bytes, vec![1, 2, 3]);
        }
        _ => panic!("a data frame was not delivered"),
    }
    match mux.produce_connections(ProducerEvent::Outgoing(MuxFrame::new(7, vec![4]))) {
        MuxAction::Send(frame) => assert_eq!(frame.stream_id, 7),
        _ => panic!("a data frame was not sent"),
    }
    assert!(mux.is_open(7));
    match mux.produce_connections(ProducerEvent::Incoming(MuxFrame::new(0, vec![]))) {
        MuxAction::Discard => {}
        _ => panic!("a request that names no stream was not dropped"),
    }
}

#[test]
fn producer_rejects_an_id_that_is_in_use() {
    let mut mux: Multiplexer<&str> = Multiplexer::new();
    assert_eq!(mux.create_connection(7, "first"), Ok(()));
    assert_eq!(mux.create_connection(7, "second"), Err(OpenError::InUse));
    assert_eq!(mux.create_connection(0, "zero"), Err(OpenError::Reserved));
    assert_eq!(mux.create_connection(255, "last"), Err(OpenError::Reserved));
    match mux.produce_connections(ProducerEvent::Opened { id: 7, mailbox: "third" }) {
        MuxAction::Send(frame) => {
            assert_eq!(frame.stream_id, 255);
            assert_eq!(frame.bytes, vec![7]);
        }
        _ => panic!("the collision was not answered with a closing frame"),
    }
    assert_eq!(mux.mailbox(7), Some(&"first"));
    match mux.produce_connections(ProducerEvent::Opened { id: 0, mailbox: "zero" }) {
        MuxAction::Discard => {}
        _ => panic!("a reserved id was not dropped"),
    }
    assert!(!mux.is_open(0));
}

#[test]
fn end_of_the_wire_ends_every_stream() {
    let mut mux: Multiplexer<&str> = Multiplexer::new();
    assert_eq!(mux.accept_connection("a"), Some(1));
    assert_eq!(mux.accept_connection("b"), Some(2));
    match mux.consume_connections(ConsumerEvent::WireClosed) {
        MuxAction::Leave => {}
        _ => panic!("the supervisor did not leave"),
    }
    assert!(!mux.is_open(1));
    assert!(!mux.is_open(2));
    assert_eq!(mux.mailbox(1), None);
    assert_eq!(mux.accept_connection("c"), Some(1));

    let mut mux: Multiplexer<&str> = Multiplexer::new();
    assert_eq!(mux.create_connection(9, "nine"), Ok(()));
    match mux.produce_connections(ProducerEvent::WireClosed) {
        MuxAction::Leave => {}
        _ => panic!("the supervisor did not leave"),
    }
    assert!(!mux.is_open(9));
    match mux.produce_connections(ProducerEvent::Incoming(MuxFrame::new(9, vec![1]))) {
        MuxAction::Discard => {}
        _ => panic!("a frame was delivered after the wire had ended"),
    }
    mux.release_all();
    assert!(!mux.is_open(9));
}

use echo_session::codec::ack_line;
use echo_session::queue::CHANNEL_CAPACITY;
use echo_session::server::{FatalError, ReadEvent, ReadOutcome, SessionServer};

#[test]
fn ack_line_fixed_text() {
    assert_eq!(ack_line(), "message received\n");
}

#[test]
fn ping_session() {
    let mut s = SessionServer::new();
    assert!(!s.is_connected());
    s.accept_connection();
    assert!(s.is_connected());

    let r = s.on_network_read(ReadEvent::Data(b"ping\n".to_vec()));
    assert_eq!(r, Ok(ReadOutcome::Forwarded));
    assert_eq!(s.inbound_len(), 1);

    assert_eq!(s.router_step(), Ok(()));
    assert_eq!(s.inbound_len(), 0);
    assert_eq!(s.outbound_len(), 1);

    let msg = s.serve_next();
    assert_eq!(msg, "ping\n");
    assert_eq!(ack_line(), "message received\n");
    assert_eq!(s.served_messages().len(), 1);
    assert_eq!(s.served_messages()[0], "ping\n");

    let r = s.on_network_read(ReadEvent::Closed);
    assert_eq!(r, Ok(ReadOutcome::SessionClosed));
    assert!(s.close_signal_pending());

    let stop = s.on_close_signal(true);
    assert!(stop);
    assert!(!s.is_connected());
    assert!(!s.close_signal_pending());
    assert_eq!(s.served_messages().len(), 1);
    assert_eq!(s.outbound_len(), 0);
}

#[test]
fn two_sequential_connections() {
    let mut s = SessionServer::new();

    s.accept_connection();
    assert_eq!(
        s.on_network_read(ReadEvent::Data(b"one\n".to_vec())),
        Ok(ReadOutcome::Forwarded)
    );
    assert_eq!(s.router_step(), Ok(()));
    assert_eq!(s.serve_next(), "one\n");
    assert_eq!(s.on_network_read(ReadEvent::Closed), Ok(ReadOutcome::SessionClosed));
    assert!(s.on_close_signal(true));
    assert!(!s.is_connected());

    s.accept_connection();
    assert_eq!(
        s.on_network_read(ReadEvent::Data(b"two\n".to_vec())),
        Ok(ReadOutcome::Forwarded)
    );
    assert_eq!(s.router_step(), Ok(()));
    assert_eq!(s.serve_next(), "two\n");

    let served = s.served_messages();
    assert_eq!(served.len(), 2);
    assert_eq!(served[0], "one\n");
    assert_eq!(served[1], "two\n");
}

#[test]
fn pending_outbound_survives_reconnect() {
    let mut s = SessionServer::new();
    assert!(!s.is_connected());

    assert_eq!(s.on_local_line("a\n".to_string()), Ok(()));
    assert_eq!(s.on_local_line("b\n".to_string()), Ok(()));
    assert_eq!(s.router_step(), Ok(()));
    assert_eq!(s.router_step(), Ok(()));
    assert_eq!(s.outbound_len(), 2);
    assert_eq!(s.served_messages().len(), 0);

    s.accept_connection();
    let delivered = s.drain_pending();
    assert_eq!(delivered, 2);
    assert_eq!(s.outbound_len(), 0);
    let served = s.served_messages();
    assert_eq!(served.len(), 2);
    assert_eq!(served[0], "a\n");
    assert_eq!(served[1], "b\n");
}

#[test]
fn enqueue_beyond_capacity_aborts() {
    let mut s = SessionServer::new();
    for i in 0..CHANNEL_CAPACITY {
        assert_eq!(s.on_local_line(format!("line {}\n", i)), Ok(()));
    }
    assert_eq!(s.inbound_len(), CHANNEL_CAPACITY);
    assert_eq!(
        s.on_local_line("one too many\n".to_string()),
        Err(FatalError::InboundFull)
    );
    assert_eq!(s.inbound_len(), CHANNEL_CAPACITY);

    s.accept_connection();
    assert_eq!(
        s.on_network_read(ReadEvent::Data(b"over\n".to_vec())),
        Err(FatalError::InboundFull)
    );
    assert_eq!(s.inbound_len(), CHANNEL_CAPACITY);
}

#[test]
fn router_aborts_when_outbound_full() {
    let mut s = SessionServer::new();
    for i in 0..CHANNEL_CAPACITY {
        assert_eq!(s.on_local_line(format!("m{}\n", i)), Ok(()));
        assert_eq!(s.router_step(), Ok(()));
    }
    assert_eq!(s.outbound_len(), CHANNEL_CAPACITY);

    assert_eq!(s.on_local_line("extra\n".to_string()), Ok(()));
    assert_eq!(s.router_step(), Err(FatalError::OutboundFull));
    assert_eq!(s.inbound_len(), 0);
    assert_eq!(s.outbound_len(), CHANNEL_CAPACITY);
}

#[test]
fn malformed_utf8_is_fatal() {
    let mut s = SessionServer::new();
    s.accept_connection();
    let r = s.on_network_read(ReadEvent::Data(vec![0xff, 0xfe, 0x20]));
    assert_eq!(r, Err(FatalError::MalformedUtf8));
    assert_eq!(s.inbound_len(), 0);
    assert!(s.is_connected());
}

#[test]
fn multibyte_text_is_decoded() {
    let mut s = SessionServer::new();
    s.accept_connection();
    let bytes = "héllo ✓\n".as_bytes().to_vec();
    assert_eq!(
        s.on_network_read(ReadEvent::Data(bytes)),
        Ok(ReadOutcome::Forwarded)
    );
    assert_eq!(s.router_step(), Ok(()));
    assert_eq!(s.serve_next(), "héllo ✓\n");
}

#[test]
fn transient_read_error_is_ignored() {
    let mut s = SessionServer::new();
    s.accept_connection();
    let r = s.on_network_read(ReadEvent::TransientError);
    assert_eq!(r, Ok(ReadOutcome::Ignored));
    assert!(s.is_connected());
    assert_eq!(s.inbound_len(), 0);
    assert_eq!(s.outbound_len(), 0);
    assert_eq!(s.served_messages().len(), 0);
}

#[test]
fn close_signal_false_continues() {
    let mut s = SessionServer::new();
    s.accept_connection();
    assert_eq!(s.on_network_read(ReadEvent::Closed), Ok(ReadOutcome::SessionClosed));
    assert!(s.close_signal_pending());
    let stop = s.on_close_signal(false);
    assert!(!stop);
    assert!(s.is_connected());
    assert!(!s.close_signal_pending());
}

#[test]
fn echo_burst_acks_each_in_order() {
    let mut s = SessionServer::new();
    s.accept_connection();
    let msgs = vec![
        "alpha\n".to_string(),
        "beta\n".to_string(),
        "gamma\n".to_string(),
    ];
    let n = s.echo_burst(msgs);
    assert_eq!(n, 3);
    assert_eq!(s.inbound_len(), 0);
    assert_eq!(s.outbound_len(), 0);
    let served = s.served_messages();
    assert_eq!(served.len(), 3);
    assert_eq!(served[0], "alpha\n");
    assert_eq!(served[1], "beta\n");
    assert_eq!(served[2], "gamma\n");
}

use earendil_core::crypt::{IdentityPublic, Signature};
use earendil_core::daemon::link_connection::{
    link_queues, outgoing_datagram, rpc_line, stream_kind, ConnectError, Delivery, LinkConnection,
    MultiplexRpcTransport, PacketPump, StreamKind, LINK_QUEUE_CAPACITY, POOL_TIMEOUT_MS,
};
use earendil_core::daemon::link_protocol::AuthResponse;
use earendil_core::packet::RawPacket;

fn auth(n: u8) -> AuthResponse {
    AuthResponse {
        full_pk: IdentityPublic::from_bytes(&[n; 32]),
        signature: Signature::from_bytes(&[n; 64]),
    }
}

fn link() -> (LinkConnection<16>, PacketPump<16>) {
    let (queues, pump) = link_queues::<16>();
    match LinkConnection::connect(queues, Some(auth(7)), Some(true)) {
        Ok(conn) => (conn, pump),
        Err(e) => panic!("no link: {:?}", e),
    }
}

fn failed(authenticated: Option<AuthResponse>, peer_key_check: Option<bool>) -> Option<ConnectError> {
    let (queues, _pump) = link_queues::<16>();
    LinkConnection::connect(queues, authenticated, peer_key_check).err()
}

fn packet(n: u32) -> RawPacket<16> {
    let mut bytes = [0u8; 16];
    bytes[..4].copy_from_slice(&n.to_be_bytes());
    RawPacket::new(bytes)
}

#[test]
fn connect_keeps_the_identity_that_the_peer_presented() {
    let (conn, _pump) = link();
    assert_eq!(conn.remote_idpk(), IdentityPublic::from_bytes(&[7; 32]));
}

#[test]
fn connect_fails_by_step() {
    assert_eq!(failed(None, Some(true)), Some(ConnectError::NoAuthResponse));
    assert_eq!(failed(None, None), Some(ConnectError::NoAuthResponse));
    assert_eq!(failed(Some(auth(1)), None), Some(ConnectError::NoPeerKey));
    assert_eq!(failed(Some(auth(1)), Some(false)), Some(ConnectError::BadAuthentication));
}

#[test]
fn connect_errors_name_the_failed_step() {
    assert_eq!(
        ConnectError::NoAuthResponse.message(),
        "did not respond to authenticate"
    );
    assert_eq!(ConnectError::NoPeerKey.message(), "could not obtain peer_pk");
    assert_eq!(
        ConnectError::BadAuthentication.message(),
        "did not authenticated correctly"
    );
}

#[test]
fn packets_pass_in_order() {
    let (conn, pump) = link();
    conn.send_raw_packet(packet(1));
    conn.send_raw_packet(packet(2));
    assert_eq!(pump.next_outgoing(), Some(packet(1).to_bytes()));
    assert_eq!(pump.next_outgoing(), Some(packet(2).to_bytes()));
    assert_eq!(pump.next_outgoing(), None);
}

#[test]
fn onion_loss_under_pressure() {
    let (conn, pump) = link();
    for n in 0..1000u32 {
        conn.send_raw_packet(packet(n));
    }
    let mut sent = vec![];
    while let Some(datagram) = pump.next_outgoing() {
        assert_eq!(datagram.len(), 16);
        sent.push(datagram);
    }
    assert!(sent.len() <= 100);
    assert_eq!(sent.len(), LINK_QUEUE_CAPACITY);
    // the first hundred went through, the rest was dropped
    for (n, datagram) in sent.iter().enumerate() {
        assert_eq!(datagram, &packet(n as u32).to_bytes());
    }
}

#[test]
fn incoming_datagrams_must_have_the_size_of_a_packet() {
    let (conn, pump) = link();
    assert_eq!(pump.deliver(&[0u8; 15]), Delivery::WrongSize);
    assert_eq!(pump.deliver(&[0u8; 17]), Delivery::WrongSize);
    assert_eq!(pump.deliver(&[]), Delivery::WrongSize);
    assert_eq!(conn.recv_raw_packet(), None);
    let mut bytes = [0u8; 16];
    bytes[3] = 9;
    bytes[15] = 1;
    assert_eq!(pump.deliver(&bytes), Delivery::Queued);
    assert_eq!(conn.recv_raw_packet(), Some(RawPacket::new(bytes)));
    assert_eq!(conn.recv_raw_packet(), None);
}

#[test]
fn incoming_packets_are_dropped_when_the_queue_is_full() {
    let (conn, pump) = link();
    for n in 0..100u32 {
        assert_eq!(pump.deliver(&packet(n).to_bytes()), Delivery::Queued);
    }
    assert_eq!(pump.deliver(&packet(100).to_bytes()), Delivery::Dropped);
    assert_eq!(conn.recv_raw_packet(), Some(packet(0)));
    assert_eq!(pump.deliver(&packet(101).to_bytes()), Delivery::Queued);
}

#[test]
fn the_queue_ends_are_shared() {
    let (conn, pump) = link();
    assert!(pump.incoming().try_send(packet(5)).is_ok());
    assert_eq!(conn.incoming().try_recv().ok(), Some(packet(5)));
    conn.send_raw_packet(packet(6));
    assert_eq!(pump.outgoing().try_recv().ok(), Some(packet(6)));
}

#[test]
fn raw_packets_are_their_bytes() {
    let bytes: [u8; 4] = [1, 2, 3, 4];
    assert_eq!(RawPacket::<4>::try_from_bytes(&bytes), Some(RawPacket::new(bytes)));
    assert_eq!(RawPacket::<4>::try_from_bytes(&[1, 2, 3]), None);
    assert_eq!(RawPacket::<4>::try_from_bytes(&[1, 2, 3, 4, 5]), None);
    assert_eq!(RawPacket::new(bytes).to_bytes(), vec![1, 2, 3, 4]);
    assert_eq!(RawPacket::<0>::try_from_bytes(&[]), Some(RawPacket::new([])));
}

#[test]
fn streams_are_told_apart_by_label() {
    assert_eq!(stream_kind("n2n_control"), StreamKind::Control);
    assert_eq!(stream_kind("onion_packets"), StreamKind::OnionPackets);
    assert_eq!(stream_kind("onion_packet"), StreamKind::Unknown);
    assert_eq!(stream_kind(""), StreamKind::Unknown);
    assert_eq!(stream_kind("N2N_CONTROL"), StreamKind::Unknown);
}

#[test]
fn calls_travel_one_per_line() {
    assert_eq!(
        rpc_line("{\"jsonrpc\":\"2.0\",\"method\":\"info\"}"),
        "{\"jsonrpc\":\"2.0\",\"method\":\"info\"}\n"
    );
    assert_eq!(rpc_line(""), "\n");
}

#[test]
fn an_empty_pool_has_no_stream() {
    let mut pool = MultiplexRpcTransport::new();
    let take = pool.get_conn(0);
    assert_eq!(take.stream, None);
    assert!(take.discarded.is_empty());
}

#[test]
fn a_young_stream_is_used_again() {
    let mut pool = MultiplexRpcTransport::new();
    pool.put_conn(1, 1_000);
    assert_eq!(POOL_TIMEOUT_MS, 60_000);
    assert_eq!(pool.get_conn(1_000 + 59_999).stream, Some(1));
    assert_eq!(pool.get_conn(1_000 + 59_999).stream, None);
}

#[test]
fn an_old_stream_is_discarded() {
    let mut pool = MultiplexRpcTransport::new();
    pool.put_conn(1, 1_000);
    let take = pool.get_conn(1_000 + 60_000);
    assert_eq!(take.stream, None);
    assert_eq!(take.discarded, vec![1]);
    // it is gone for good
    assert_eq!(pool.get_conn(1_000).stream, None);
}

#[test]
fn old_streams_before_a_young_one_are_discarded() {
    let mut pool = MultiplexRpcTransport::new();
    pool.put_conn(1, 0);
    pool.put_conn(2, 10_000);
    pool.put_conn(3, 50_000);
    pool.put_conn(4, 55_000);
    // at 75 s the streams 1 and 2 are too old
    let take = pool.get_conn(75_000);
    assert_eq!(take.stream, Some(3));
    assert_eq!(take.discarded, vec![1, 2]);
    assert_eq!(pool.get_conn(75_000).stream, Some(4));
    assert_eq!(pool.get_conn(75_000).stream, None);
}

#[test]
fn two_calls_take_two_streams() {
    // two calls at once never share a stream: each takes its own
    let mut pool = MultiplexRpcTransport::new();
    pool.put_conn(1, 100);
    pool.put_conn(2, 100);
    let first = pool.get_conn(200).stream;
    let second = pool.get_conn(200).stream;
    assert_eq!(first, Some(1));
    assert_eq!(second, Some(2));
    pool.put_conn(2, 300);
    pool.put_conn(1, 400);
    assert_eq!(pool.get_conn(500).stream, Some(2));
}

#[test]
fn a_stream_is_pooled_only_after_a_call_that_went_well() {
    let mut pool = MultiplexRpcTransport::new();
    pool.finish_call(1, 100, false);
    assert_eq!(pool.get_conn(200).stream, None);
    pool.finish_call(2, 100, true);
    assert_eq!(pool.get_conn(200).stream, Some(2));
}

#[test]
fn a_packet_travels_as_its_bytes() {
    assert_eq!(outgoing_datagram(Some(packet(7))), Some(packet(7).to_bytes()));
    assert_eq!(outgoing_datagram(None::<RawPacket<16>>), None);
    let mut bytes = [0u8; 16];
    bytes[15] = 0xee;
    assert_eq!(outgoing_datagram(Some(RawPacket::new(bytes))), Some(bytes.to_vec()));
}

#[test]
fn the_handles_are_the_ends_of_the_links_own_queues() {
    let (conn, pump) = link();
    // what goes into the pump's sending end comes out of the connection's
    // receiving end, and the other way round
    assert!(pump.incoming().try_send(packet(1)).is_ok());
    assert_eq!(conn.recv_raw_packet(), Some(packet(1)));
    conn.send_raw_packet(packet(2));
    assert_eq!(pump.outgoing().try_recv().ok(), Some(packet(2)));
    assert_eq!(pump.deliver(&packet(3).to_bytes()), Delivery::Queued);
    assert_eq!(conn.incoming().try_recv().ok(), Some(packet(3)));
    assert_eq!(conn.incoming().capacity(), Some(LINK_QUEUE_CAPACITY));
    assert_eq!(pump.outgoing().capacity(), Some(LINK_QUEUE_CAPACITY));
}

use earendil_core::crypt::{Fingerprint, IdentitySecret};
use earendil_core::global_rpc::transport::{
    GlobalRpcTransport, RpcAction, RpcEvent, FIRST_TIMEOUT_SECS, MAX_RETRIES,
};
use earendil_core::socket::Endpoint;

fn transport() -> GlobalRpcTransport {
    GlobalRpcTransport::new(
        IdentitySecret::from_bytes(&[9; 32]),
        Fingerprint::from_bytes(&[0x0c; 20]),
        100_001,
    )
}

#[test]
fn requests_go_to_the_rpc_dock_of_the_destination() {
    let t = transport();
    assert_eq!(
        t.endpoint(),
        Endpoint::new(Fingerprint::from_bytes(&[0x0c; 20]), 100_001)
    );
    assert_eq!(t.anon_isk(), IdentitySecret::from_bytes(&[9; 32]));
}

#[test]
fn first_send_waits_four_seconds() {
    let t = transport();
    let (_call, action) = t.call_raw();
    assert_eq!(FIRST_TIMEOUT_SECS, 4);
    assert_eq!(
        action,
        RpcAction::Send { to: t.endpoint(), timeout_secs: 4 }
    );
}

#[test]
fn retry_deadlines_double() {
    let t = transport();
    let (mut call, first) = t.call_raw();
    let mut waits = vec![];
    if let RpcAction::Send { timeout_secs, .. } = first {
        waits.push(timeout_secs);
    }
    for _ in 0..5 {
        match call.on_event(RpcEvent::TimedOut) {
            RpcAction::Send { to, timeout_secs } => {
                assert_eq!(to, t.endpoint());
                waits.push(timeout_secs);
            }
            other => panic!("no resend: {:?}", other),
        }
    }
    assert_eq!(waits, vec![4, 8, 16, 32, 64, 128]);
}

#[test]
fn a_datagram_is_the_answer() {
    let t = transport();
    let (mut call, _) = t.call_raw();
    assert_eq!(
        call.on_event(RpcEvent::Received(b"{\"jsonrpc\":\"2.0\"}".to_vec())),
        RpcAction::Answer("{\"jsonrpc\":\"2.0\"}".to_string())
    );
}

#[test]
fn a_datagram_that_is_not_text_ends_the_call() {
    let t = transport();
    let (mut call, _) = t.call_raw();
    assert_eq!(
        call.on_event(RpcEvent::Received(vec![b'o', b'k', 0xff])),
        RpcAction::Garbled
    );
    let (mut call, _) = t.call_raw();
    assert_eq!(
        call.on_event(RpcEvent::Received(vec![0xc3, 0xa9])),
        RpcAction::Answer("\u{e9}".to_string())
    );
    let (mut call, _) = t.call_raw();
    assert_eq!(
        call.on_event(RpcEvent::Received(vec![])),
        RpcAction::Answer(String::new())
    );
}

#[test]
fn a_socket_failure_is_final() {
    let t = transport();
    let (mut call, _) = t.call_raw();
    assert_eq!(call.on_event(RpcEvent::RecvFailed), RpcAction::Fail);
}

#[test]
fn anonymous_rpc_with_retry() {
    // the destination is offline: the first wait of 4 s ends without an answer
    let t = transport();
    let (mut call, first) = t.call_raw();
    assert_eq!(first, RpcAction::Send { to: t.endpoint(), timeout_secs: 4 });
    // at t = 4 s the request is sent again and the call waits until t = 12 s
    let second = call.on_event(RpcEvent::TimedOut);
    assert_eq!(second, RpcAction::Send { to: t.endpoint(), timeout_secs: 8 });
    // the destination came up at t = 5 s and answers the second request
    let answer = call.on_event(RpcEvent::Received(b"ok".to_vec()));
    assert_eq!(answer, RpcAction::Answer("ok".to_string()));
}

#[test]
fn waits_fit_until_the_last_retry() {
    let t = transport();
    let (mut call, _) = t.call_raw();
    let mut last = 4u64;
    let mut resends = 0u32;
    while call.can_retry() {
        match call.on_event(RpcEvent::TimedOut) {
            RpcAction::Send { timeout_secs, .. } => {
                assert_eq!(timeout_secs, last * 2);
                last = timeout_secs;
            }
            other => panic!("no resend: {:?}", other),
        }
        resends += 1;
    }
    assert_eq!(resends, MAX_RETRIES);
    assert_eq!(last, 1u64 << 63);
}

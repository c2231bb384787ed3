use mitm_core::cert::{alpn_protocols, plan_leaf, san_entries, SanEntry};
use mitm_core::dispatch::{
    classify_connect, connect_target, is_shutdown_noise, process_connect, ConnectRoute, Rewind,
};
use mitm_core::websocket::{
    forward_step, is_reserved_bits_error, plan_websocket_upgrade, strip_sockjs_framing,
    websocket_limits, ForwardAction, ForwardEvent, WsScheme,
};

#[test]
fn internal_returns_bad_request_if_missing_authority() {
    let res = process_connect(b"/foo/bar?baz", true, b"").err().unwrap();
    assert_eq!(res.status, 400);
    assert_eq!(connect_target(b"/foo/bar?baz").err().unwrap().status, 400);
    assert_eq!(connect_target(b"api.test:443").ok(), Some(b"api.test:443".to_vec()));
}

#[test]
fn upgrade_returns_bad_request_if_missing_authority() {
    assert_eq!(plan_websocket_upgrade(b"/foo/bar?baz", None).err().unwrap().status, 400);
    assert_eq!(plan_websocket_upgrade(b"http://example.com/ws", Some(b"http")).ok(), Some(WsScheme::Ws));
    assert_eq!(plan_websocket_upgrade(b"https://example.com/ws", Some(b"https")).ok(), Some(WsScheme::Wss));
}

#[test]
fn connect_routing() {
    assert_eq!(classify_connect(true, b"GET / HTTP/1.1"), ConnectRoute::PlainHttp);
    assert_eq!(classify_connect(true, &[0x16, 0x03, 0x01, 0x00]), ConnectRoute::Tls);
    assert_eq!(classify_connect(true, b"abc"), ConnectRoute::Tunnel);
    assert_eq!(classify_connect(false, &[0x16, 0x03, 0x01]), ConnectRoute::Tunnel);
    assert_eq!(classify_connect(true, b""), ConnectRoute::Tunnel);
    assert!(is_shutdown_noise(b"error shutting down connection: eof"));
    assert!(!is_shutdown_noise(b"other"));
}

#[test]
fn rewind_replays_prefix_first() {
    let mut r = Rewind::new(b"hello".to_vec());
    assert_eq!(r.read_prefix(2), Some(b"he".to_vec()));
    assert_eq!(r.read_prefix(10), Some(b"llo".to_vec()));
    assert!(r.is_exhausted());
    assert_eq!(r.read_prefix(10), None);
}

#[test]
fn sockjs_frames_are_unwrapped() {
    assert_eq!(strip_sockjs_framing(b"a[\"hi\"]"), b"hi".to_vec());
    assert_eq!(strip_sockjs_framing(b"a[1,2]"), b"1,2".to_vec());
    assert_eq!(strip_sockjs_framing(b"a\"x\""), b"x".to_vec());
    assert_eq!(strip_sockjs_framing(b"a[\"]"), b"\"".to_vec());
    assert_eq!(strip_sockjs_framing(b"a\""), b"a\"".to_vec());
    assert_eq!(strip_sockjs_framing(b"hello"), b"hello".to_vec());
}

#[test]
fn forwarder_reactions() {
    assert_eq!(forward_step(ForwardEvent::Received { kept: true }), ForwardAction::Send);
    assert_eq!(forward_step(ForwardEvent::Received { kept: false }), ForwardAction::Skip);
    assert_eq!(forward_step(ForwardEvent::ReadFailed { reserved_bits: true }), ForwardAction::Skip);
    assert_eq!(forward_step(ForwardEvent::ReadFailed { reserved_bits: false }), ForwardAction::CloseAndStop);
    assert_eq!(forward_step(ForwardEvent::Ended), ForwardAction::Stop);
    assert_eq!(forward_step(ForwardEvent::SendFailed), ForwardAction::Stop);
    assert!(is_reserved_bits_error(b"Protocol error: Reserved bits are non-zero"));
    let limits = websocket_limits();
    assert!(limits.accept_unmasked_frames);
    assert_eq!((limits.max_frame_size, limits.max_message_size), (16 << 20, 64 << 20));
}

fn san_names(v: &[SanEntry]) -> Vec<(bool, Vec<u8>)> {
    v.iter()
        .map(|e| match e {
            SanEntry::Dns(d) => (true, d.clone()),
            SanEntry::Ip(a) => (false, a.clone()),
        })
        .collect()
}

#[test]
fn leaf_names_and_window() {
    let sans = san_entries(b"localhost", None);
    assert_eq!(
        san_names(&sans),
        vec![(true, b"localhost".to_vec()), (true, b"*.localhost".to_vec()), (false, vec![127, 0, 0, 1])]
    );
    let wild = san_entries(b"*.example.com", None);
    assert_eq!(san_names(&wild), vec![(true, b"*.example.com".to_vec())]);
    let ip = san_entries(b"10.0.0.1", Some(vec![10, 0, 0, 1]));
    assert_eq!(san_names(&ip).len(), 3);
    let plan = plan_leaf(b"example.com", None, 1_000_000, 42);
    assert_eq!(plan.not_before, 1_000_000 - 60);
    assert_eq!(plan.not_after, 1_000_000 - 60 + 31_536_000);
    assert_eq!(plan.serial, 42);
    assert_eq!(plan.common_name, b"example.com".to_vec());
    assert_eq!(alpn_protocols(true), vec![b"h2".to_vec(), b"http/1.1".to_vec()]);
    assert_eq!(alpn_protocols(false), vec![b"http/1.1".to_vec()]);
}

#[test]
fn declined_interception_tunnels_with_replay() {
    let mut plan = process_connect(b"api.test:443", false, b"abc").ok().unwrap();
    assert_eq!(plan.authority, b"api.test:443".to_vec());
    assert_eq!(plan.route, ConnectRoute::Tunnel);
    assert_eq!(plan.replay.read_prefix(64), Some(b"abc".to_vec()));
    assert_eq!(plan.replay.read_prefix(64), None);
    let tls = process_connect(b"api.test:443", true, &[0x16, 0x03, 0x01]).ok().unwrap();
    assert_eq!(tls.route, ConnectRoute::Tls);
    let plain = process_connect(b"api.test:80", true, b"GET / HTTP/1.1").ok().unwrap();
    assert_eq!(plain.route, ConnectRoute::PlainHttp);
}

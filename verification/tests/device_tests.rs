use oxy::session::{stdin_step, wants_compression, StdinStep, STDIN_CHUNK};
use oxy::tunnel::{tunnel_request, TunTapType};

#[test]
fn tun_request_pads_name_and_appends_flags() {
    let req = tunnel_request(TunTapType::Tun, b"tun0");
    assert_eq!(req.len(), 18);
    assert_eq!(&req[..4], b"tun0");
    assert!(req[4..16].iter().all(|b| *b == 0));
    assert_eq!(&req[16..], &0x1001u16.to_ne_bytes());
}

#[test]
fn tap_request_with_full_length_name() {
    let name = b"abcdefghijklmnop";
    let req = tunnel_request(TunTapType::Tap, name);
    assert_eq!(&req[..16], name);
    assert_eq!(&req[16..], &0x1002u16.to_ne_bytes());
}

#[test]
fn stdin_waits_without_room_or_input() {
    assert_eq!(stdin_step(false, true, false, 10), StdinStep::Wait);
    assert_eq!(stdin_step(true, false, true, 10), StdinStep::Wait);
    assert_eq!(stdin_step(true, true, false, 0), StdinStep::Wait);
}

#[test]
fn stdin_forwards_in_bounded_pieces() {
    assert_eq!(stdin_step(true, true, false, 100), StdinStep::Forward { len: 100, finished: false });
    assert_eq!(stdin_step(true, true, false, 100_000), StdinStep::Forward { len: STDIN_CHUNK, finished: false });
    assert_eq!(STDIN_CHUNK, 8192);
    assert_eq!(stdin_step(true, true, true, 5), StdinStep::Forward { len: 5, finished: false });
    assert_eq!(stdin_step(true, true, true, 0), StdinStep::Forward { len: 0, finished: true });
}

#[test]
fn compression_only_when_asked_and_not_relaying() {
    assert!(!wants_compression(false, false, "copy"));
    assert!(wants_compression(true, false, "server"));
    assert!(!wants_compression(true, true, "server"));
    assert!(wants_compression(true, true, "copy"));
}

use oxy::admission::{listener_change, reexec_args, OpenKnocks, KnockOutcome, ListenerChange};
use oxy::socks::{socks_step, socks_well_formed, SocksState, SocksStep};

#[test]
fn knock_admits_address_for_a_while() {
    let mut open = OpenKnocks::new();
    let home = (false, 0x7f00_0001u128);
    let other = (true, 1u128);
    assert_eq!(open.knock(false, 100, home), KnockOutcome::Rejected);
    assert!(!open.may_connect(home));
    assert_eq!(open.knock(true, 100, home), KnockOutcome::Opened);
    assert!(open.may_connect(home));
    assert!(!open.may_connect(other));
    assert!(open.prune(149));
    assert!(open.may_connect(home));
    assert!(!open.prune(150));
    assert!(!open.may_connect(home));
}

#[test]
fn at_most_a_thousand_open_knocks() {
    let mut open = OpenKnocks::new();
    for i in 0..1000u128 {
        assert_eq!(open.knock(true, 5, (false, i)), KnockOutcome::Opened);
    }
    assert_eq!(open.knock(true, 5, (false, 5000)), KnockOutcome::Full);
    assert!(!open.may_connect((false, 5000)));
}

#[test]
fn listeners_follow_open_knocks() {
    assert_eq!(listener_change(true, false), ListenerChange::Bind);
    assert_eq!(listener_change(true, true), ListenerChange::Keep);
    assert_eq!(listener_change(false, true), ListenerChange::Unbind);
}

#[test]
fn fresh_processes_get_the_server_settings() {
    assert_eq!(reexec_args(7, None, None, false), vec!["reexec".to_string(), "--fd=7".to_string()]);
    assert_eq!(
        reexec_args(12, Some("uptime"), Some("tmux a"), true),
        vec![
            "reexec".to_string(),
            "--fd=12".to_string(),
            "--forced-command=uptime".to_string(),
            "--multiplexer=tmux a".to_string(),
            "--no-tmux".to_string(),
        ]
    );
}

#[test]
fn socks_greeting_and_ipv4_request() {
    let (s, step) = socks_step(SocksState::Initial, &[5, 1, 0]);
    assert_eq!(s, SocksState::Authed);
    assert!(matches!(step, SocksStep::Greet { ref reply } if reply == &vec![5u8, 0]));
    let req = [5, 1, 0, 1, 10, 0, 0, 1, 0x1f, 0x90];
    assert!(socks_well_formed(s, &req));
    match socks_step(s, &req) {
        (SocksState::Authed, SocksStep::Connect { destination, reply }) => {
            assert_eq!(destination, "10.0.0.1:8080");
            assert_eq!(reply, vec![5, 0, 0, 1, 0, 0, 0, 0, 0, 0]);
        },
        other => panic!("unexpected {:?}", other),
    }
}

#[test]
fn socks_host_name_request_and_malformed_data() {
    let mut req = vec![5u8, 1, 0, 3, 11];
    req.extend_from_slice(b"example.org");
    req.extend_from_slice(&[0, 80]);
    match socks_step(SocksState::Authed, &req) {
        (_, SocksStep::Connect { destination, .. }) => assert_eq!(destination, "example.org:80"),
        other => panic!("unexpected {:?}", other),
    }
    assert!(!socks_well_formed(SocksState::Initial, &[4]));
    assert!(!socks_well_formed(SocksState::Authed, &[5, 1, 0, 4, 0, 0]));
    assert!(!socks_well_formed(SocksState::Authed, &[5, 1, 0, 3, 2, 0xff, 0xfe, 0, 1]));
    assert!(!socks_well_formed(SocksState::Authed, &[5, 1, 0, 1, 1, 2]));
    assert!(matches!(socks_step(SocksState::Initial, &[]), (SocksState::Initial, SocksStep::Idle)));
}

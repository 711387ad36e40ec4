use oxy::handler::Side;
use oxy::session::{batched_commands, copy_download_command, post_auth_command, signal_action, SignalAction};
use oxy::session::{connection_chain, copy_source_file, keepalive_expired, multiplexer_command, xauth_cookie, MessageCounter};
use oxy::cli::{bind_address, log_level, permissions_too_loose, rust_log_setting, with_client_subcommand};
use oxy::conf::Conf;
use oxy::session::{client_handshake_keys, HandshakeKeyError};
use oxy::value::TomlValue;
use oxy::config::{Config, Mode};
use oxy::entry::{args_to_config, conversation_id, route_mid_packet, run_args, run_config, ExitHooks, Launch, Route};
use oxy::session::{keep_env_var, knock_destination, may_continue, pty_argv};
use oxy::ui::{on_keys, paint_bytes, progress_bar, progress_line, EscapeState, KeyAction, ProgressState};
use oxy::util::{format_bytes, format_throughput, parse_u16, parse_u64};

#[test]
fn amounts_and_rates_are_formatted() {
    assert_eq!(format_bytes(0), "0 B");
    assert_eq!(format_bytes(1023), "1023 B");
    assert_eq!(format_bytes(1024), "1.0 KiB");
    assert_eq!(format_bytes(1536), "1.5 KiB");
    assert_eq!(format_bytes(3 * 1024 * 1024 + 512 * 1024), "3.5 MiB");
    assert_eq!(format_throughput(10, 0), "10.0 B/s");
    assert_eq!(format_throughput(2048, 2), "1024.0 B/s");
    assert_eq!(format_throughput(3072, 1), "3.0 KiB/s");
}

#[test]
fn numbers_parse_like_std() {
    assert_eq!(parse_u16("+80"), Some(80));
    assert_eq!(parse_u16("65535"), Some(65535));
    assert_eq!(parse_u16("65536"), None);
    assert_eq!(parse_u16(""), None);
    assert_eq!(parse_u16("-1"), None);
    assert_eq!(parse_u64("18446744073709551615"), Some(u64::MAX));
    assert_eq!(parse_u64("18446744073709551616"), None);
    assert_eq!(parse_u64("12a"), None);
}

#[test]
fn escape_sequences_at_the_terminal() {
    let (s, a) = on_keys(EscapeState::Normal, vec![13]);
    assert_eq!(s, EscapeState::AfterEnter);
    assert!(matches!(a, KeyAction::Input { ref data } if data == &vec![13u8]));
    let (s, a) = on_keys(s, vec![126]);
    assert_eq!(s, EscapeState::AfterTilde);
    assert!(matches!(a, KeyAction::Swallow));
    let (s2, a) = on_keys(s, vec![46]);
    assert_eq!(s2, EscapeState::AfterTilde);
    assert!(matches!(a, KeyAction::Exit));
    let (s3, a) = on_keys(s, vec![67]);
    assert_eq!(s3, EscapeState::AfterEnter);
    assert!(matches!(a, KeyAction::ShowPrompt));
    let (s4, a) = on_keys(s, vec![b'x']);
    assert_eq!(s4, EscapeState::Normal);
    assert!(matches!(a, KeyAction::Input { ref data } if data == &vec![126u8, b'x']));
    let (_, a) = on_keys(EscapeState::Normal, vec![126]);
    assert!(matches!(a, KeyAction::Input { ref data } if data == &vec![126u8]));
    let (_, a) = on_keys(EscapeState::Normal, vec![27, 91, 50, 49, 126]);
    assert!(matches!(a, KeyAction::OpenPrompt));
    let (_, a) = on_keys(EscapeState::AfterTilde, vec![27, 91, 50, 52, 126]);
    assert!(matches!(a, KeyAction::Exit));
}

#[test]
fn progress_bar_and_line() {
    assert_eq!(progress_bar(10, 500), "====>");
    assert_eq!(progress_bar(10, 1000), "==========");
    assert_eq!(progress_bar(10, 50), "");
    assert_eq!(progress_line(123, 2048, 2), "12.3%, 2.0 KiB, 2s, throughput: 1024.0 B/s");
    let painted = paint_bytes(b"L", b"B");
    assert_eq!(painted, b"\x1b[s\x1b[100m\x1b[2;1H\x1b[0K\x1b[1;1H\x1b[0KL\nB\n\x1b[0m\x1b[u".to_vec());
}

#[test]
fn progress_restarts_when_it_goes_back() {
    let mut p = ProgressState::new();
    let s = p.update(100, 10);
    assert!(!s.restart && s.repaint);
    let s = p.update(100, 5);
    assert!(!s.restart && !s.repaint);
    assert_eq!(p.bytes, 15);
    let s = p.update(20, 7);
    assert!(s.restart && s.repaint);
    assert_eq!(p.bytes, 7);
    assert_eq!(p.prev, 20);
}

#[test]
fn configs_launch_servers_and_clients() {
    let server = Config { mode: Some(Mode::Server), outer_key: Some(vec![5; 32]), destination: None, remote_public_key: None, local_private_key: None };
    match run_config(&server) {
        Launch::Server { bind, config } => {
            assert_eq!(bind, "127.0.0.1:2600");
            assert_eq!(config.outer_key, Some(vec![5u8; 32]));
        },
        other => panic!("unexpected {:?}", other),
    }
    let client = Config {
        mode: Some(Mode::Client),
        outer_key: None,
        destination: Some("example.org:2600".to_string()),
        remote_public_key: Some(vec![1, 2]),
        local_private_key: Some(vec![3]),
    };
    match run_config(&client) {
        Launch::Client { destination, local_private_key, remote_public_key, .. } => {
            assert_eq!(destination, "example.org:2600");
            assert_eq!(local_private_key, vec![3]);
            assert_eq!(remote_public_key, vec![1, 2]);
        },
        other => panic!("unexpected {:?}", other),
    }
}

#[test]
fn inner_packets_are_routed_by_conversation() {
    let mut mid = vec![0u8; 296];
    assert_eq!(conversation_id(&mid), 0);
    assert_eq!(route_mid_packet(Mode::Server, &mid, false), Route::NewConversation);
    mid[0] = 2;
    mid[1] = 1;
    assert_eq!(conversation_id(&mid), 258);
    assert_eq!(route_mid_packet(Mode::Server, &mid, true), Route::Dispatch { conversation: 258 });
    assert_eq!(route_mid_packet(Mode::Server, &mid, false), Route::Unknown { conversation: 258 });
    assert_eq!(route_mid_packet(Mode::Client, &mid, false), Route::Session);
}

#[test]
fn exit_hooks_run_in_order_once() {
    let mut hooks: ExitHooks<u32> = ExitHooks::new();
    hooks.push_hook(1);
    hooks.push_hook(2);
    assert_eq!(hooks.take_hooks(), vec![1, 2]);
    assert!(hooks.take_hooks().is_empty());
}

#[test]
fn server_environment_and_terminal_programs() {
    assert!(keep_env_var("PATH"));
    assert!(keep_env_var("TERM"));
    assert!(!keep_env_var("LD_PRELOAD"));
    assert!(may_continue(false, false));
    assert!(may_continue(true, true));
    assert!(!may_continue(true, false));
    assert_eq!(pty_argv(None, None, "/bin/bash"), Some(vec!["-bash".to_string()]));
    let tmux = vec!["/usr/bin/tmux".to_string(), "new".to_string()];
    assert_eq!(pty_argv(None, Some(tmux.clone()), "/bin/bash"), Some(tmux));
    assert_eq!(pty_argv(Some(vec!["top".to_string()]), None, "/bin/sh"), Some(vec!["top".to_string()]));
    assert_eq!(pty_argv(Some(vec!["a\0b".to_string()]), None, "/bin/sh"), None);
    assert_eq!(pty_argv(Some(vec![]), None, "/bin/sh"), None);
    assert_eq!(knock_destination("example.org", 2600), "example.org:2600");
}

#[test]
fn client_side_session_decisions() {
    assert_eq!(
        connection_chain(&vec!["a".to_string(), "b".to_string()], "dest"),
        vec!["b".to_string(), "a".to_string(), "dest".to_string()]
    );
    assert_eq!(connection_chain(&vec![], "dest"), vec!["dest".to_string()]);
    assert_eq!(xauth_cookie("host/unix:0  MIT-MAGIC-COOKIE-1  abc123"), "abc123");
    assert_eq!(xauth_cookie("nospace"), "nospace");
    assert_eq!(xauth_cookie("trailing "), "");
    assert!(keepalive_expired(181));
    assert!(!keepalive_expired(180));
    assert_eq!(copy_source_file("host:/a:b"), Some("/a:b".to_string()));
    assert_eq!(copy_source_file("nocolon"), None);
    assert_eq!(
        multiplexer_command(Some("/usr/bin/tmux new-session -A -s oxy")),
        Some(vec!["/usr/bin/tmux".to_string(), "new-session".to_string(), "-A".to_string(), "-s".to_string(), "oxy".to_string()])
    );
    assert_eq!(multiplexer_command(Some("   ")), None);
    assert_eq!(multiplexer_command(Some("'open")), None);
    assert_eq!(multiplexer_command(None), None);
    let mut c = MessageCounter::new();
    assert_eq!(c.tick(), 0);
    assert_eq!(c.tick(), 1);
    assert_eq!(c.next, 2);
}

#[test]
fn command_line_decisions() {
    assert_eq!(log_level(0), "info");
    assert_eq!(log_level(1), "debug");
    assert_eq!(log_level(7), "trace");
    assert_eq!(rust_log_setting(1), "oxy=debug");
    assert_eq!(
        with_client_subcommand(&vec!["oxy".to_string(), "host".to_string()]),
        vec!["oxy".to_string(), "client".to_string(), "host".to_string()]
    );
    assert_eq!(bind_address(None), "0.0.0.0");
    assert_eq!(bind_address(Some("::0")), "::0");
    assert!(permissions_too_loose(0o644));
    assert!(!permissions_too_loose(0o600));
}

#[test]
fn client_handshake_keys_come_from_the_configuration() {
    let server = TomlValue::Table(vec![
        ("name".to_string(), TomlValue::String("home".to_string())),
        ("pubkey".to_string(), TomlValue::String("ONSXE5TFOIWXA5LC".to_string())),
        ("psk".to_string(), TomlValue::String("MZXW6YTBOI".to_string())),
    ]);
    let conf = Conf {
        server: None,
        client: Some(TomlValue::Table(vec![
            ("privkey".to_string(), TomlValue::String("MNWGSZLOOQWWWZLZ".to_string())),
            ("servers".to_string(), TomlValue::Array(vec![server])),
        ])),
    };
    let (privkey, psk, pubkey) = client_handshake_keys(&conf, Some("home")).expect("keys");
    assert_eq!(privkey, b"client-key".to_vec());
    assert_eq!(psk, b"foobar".to_vec());
    assert_eq!(pubkey, b"server-pub".to_vec());
    assert_eq!(client_handshake_keys(&conf, None).err(), Some(HandshakeKeyError::NoPsk));
    assert_eq!(client_handshake_keys(&conf, Some("away")).err(), Some(HandshakeKeyError::NoPsk));
}

#[test]
fn command_line_values_win_over_the_config_file() {
    let file = Config {
        mode: Some(Mode::Server),
        outer_key: Some(vec![9; 32]),
        destination: Some("file.example:1".to_string()),
        remote_public_key: Some(vec![1]),
        local_private_key: Some(vec![2]),
    };
    let c = args_to_config(Some(Mode::Client), Some("cli.example:2"), file.clone());
    assert_eq!(c.mode, Some(Mode::Client));
    assert_eq!(c.destination.as_deref(), Some("cli.example:2"));
    assert_eq!(c.outer_key, Some(vec![9; 32]));
    let kept = args_to_config(None, None, file.clone());
    assert_eq!(kept.mode, Some(Mode::Server));
    assert_eq!(kept.destination.as_deref(), Some("file.example:1"));
    match run_args(Some(Mode::Client), None, file) {
        Launch::Client { destination, .. } => assert_eq!(destination, "file.example:1"),
        other => panic!("unexpected {:?}", other),
    }
}

#[test]
fn signals_and_copy_sources() {
    assert_eq!(signal_action("SIGWINCH", Side::Alice, true, false), SignalAction::AdvertiseSize);
    assert_eq!(signal_action("SIGWINCH", Side::Bob, true, true), SignalAction::Ignore);
    assert_eq!(signal_action("SIGCHLD", Side::Bob, false, true), SignalAction::ReapPty);
    assert_eq!(signal_action("SIGCHLD", Side::Bob, false, false), SignalAction::Ignore);
    assert_eq!(signal_action("SIGHUP", Side::Alice, true, true), SignalAction::Ignore);
    assert_eq!(
        copy_download_command("host:/etc/motd"),
        Some(vec!["download".to_string(), "/etc/motd".to_string(), "/dev/null".to_string()])
    );
    assert_eq!(copy_download_command("plain"), None);
}

#[test]
fn post_auth_command_depends_on_terminal_and_command() {
    let strs = |v: &[&str]| v.iter().map(|s| s.to_string()).collect::<Vec<String>>();
    assert_eq!(post_auth_command(Side::Alice, false, true, None), Some(strs(&["pty"])));
    assert_eq!(post_auth_command(Side::Alice, false, true, Some("top")), Some(strs(&["pty", "top"])));
    assert_eq!(post_auth_command(Side::Alice, false, false, Some("ls -l")), Some(strs(&["pipe", "ls -l"])));
    assert_eq!(post_auth_command(Side::Alice, false, false, None), None);
    assert_eq!(post_auth_command(Side::Alice, true, true, Some("top")), None);
    assert_eq!(post_auth_command(Side::Bob, false, true, None), None);
}

#[test]
fn batched_commands_split_lines_then_forwards() {
    let strs = |v: &[&str]| v.iter().map(|s| s.to_string()).collect::<Vec<String>>();
    let r = batched_commands(
        &strs(&["upload 'a b' c", "hash x"]),
        &strs(&["8080:localhost:80"]),
        &strs(&["9000:localhost:22"]),
        &strs(&["1080", "1081"]),
    );
    assert_eq!(r, Some(vec![
        strs(&["upload", "a b", "c"]),
        strs(&["hash", "x"]),
        strs(&["L", "8080:localhost:80"]),
        strs(&["R", "9000:localhost:22"]),
        strs(&["D", "1080"]),
        strs(&["D", "1081"]),
    ]));
    assert_eq!(batched_commands(&strs(&["ok", "bad 'quote"]), &vec![], &vec![], &vec![]), None);
    assert_eq!(batched_commands(&vec![], &vec![], &vec![], &vec![]), Some(vec![]));
}

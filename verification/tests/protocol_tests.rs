use oxy::handler::{handle_message, may_handle_exec, restrict_message, Action, Side};
use oxy::handler::{admit_message, after_watchers, handle_unclaimed, receive, WatchOutcome};
use oxy::message::OxyMessage;
use oxy::metacommand::{first_message, parse_metacommand, parse_metacommand_line, MetaCommand, MetaError, RemoteBinds};

fn words(s: &[&str]) -> Vec<String> {
    s.iter().map(|x| x.to_string()).collect()
}

#[test]
fn ping_is_answered_and_pong_marks_alive() {
    assert!(matches!(handle_message(Side::Bob, OxyMessage::Ping {}, None, None), Ok(Action::SendPong)));
    assert!(matches!(handle_message(Side::Alice, OxyMessage::Pong {}, None, None), Ok(Action::MarkAlive)));
}

#[test]
fn sides_act_only_on_their_messages() {
    let cmd = OxyMessage::BasicCommand { command: "ls".to_string() };
    assert!(may_handle_exec(Side::Bob, &cmd));
    assert!(!may_handle_exec(Side::Alice, &cmd));
    let out = OxyMessage::PtyOutput { data: vec![1] };
    assert!(may_handle_exec(Side::Alice, &out));
    assert!(!may_handle_exec(Side::Bob, &out));
    assert!(may_handle_exec(Side::Alice, &OxyMessage::Ping {}));
}

#[test]
fn relative_paths_are_taken_from_the_terminal() {
    let r = handle_message(Side::Bob, OxyMessage::StatRequest { path: "notes.txt".to_string() }, Some("/home/u"), None);
    match r {
        Ok(Action::Stat { path }) => assert_eq!(path, "/home/u/notes.txt"),
        other => panic!("unexpected {:?}", other),
    }
    let r = handle_message(Side::Bob, OxyMessage::DownloadRequest { path: "/etc/hosts".to_string() }, Some("/home/u"), None);
    match r {
        Ok(Action::SendFile { path }) => assert_eq!(path, "/etc/hosts"),
        other => panic!("unexpected {:?}", other),
    }
    let r = handle_message(Side::Bob, OxyMessage::ReadDir { path: "x".to_string() }, None, None);
    match r {
        Ok(Action::ListDir { path }) => assert_eq!(path, "x"),
        other => panic!("unexpected {:?}", other),
    }
}

#[test]
fn uploads_land_in_the_right_directory() {
    let up = |path: &str, cwd: Option<&str>| {
        match handle_message(
            Side::Bob,
            OxyMessage::UploadRequest { path: path.to_string(), filepart: "f.bin".to_string() },
            cwd,
            None,
        ) {
            Ok(Action::ReceiveFile { directory, file }) => (directory, file),
            other => panic!("unexpected {:?}", other),
        }
    };
    assert_eq!(up("", Some("/srv")), ("/srv".to_string(), "/srv/f.bin".to_string()));
    assert_eq!(up("in", Some("/srv/")), ("/srv/in".to_string(), "/srv/in/f.bin".to_string()));
    assert_eq!(up("in", None), ("./in".to_string(), "./in/f.bin".to_string()));
    assert_eq!(up("/abs", None), ("/abs".to_string(), "/abs/f.bin".to_string()));
}

#[test]
fn remote_binds_listen_on_localhost_for_bare_ports() {
    match handle_message(Side::Bob, OxyMessage::RemoteBind { addr: "8080".to_string() }, None, None) {
        Ok(Action::Listen { addr, unix }) => {
            assert_eq!(addr, "localhost:8080");
            assert!(!unix);
        },
        other => panic!("unexpected {:?}", other),
    }
    match handle_message(Side::Bob, OxyMessage::RemoteBind { addr: "/tmp/sock".to_string() }, None, None) {
        Ok(Action::Listen { addr, unix }) => {
            assert_eq!(addr, "/tmp/sock");
            assert!(unix);
        },
        other => panic!("unexpected {:?}", other),
    }
}

#[test]
fn accepted_bind_connections_need_a_destination() {
    let m = || OxyMessage::BindConnectionAccepted { reference: 4 };
    assert_eq!(handle_message(Side::Alice, m(), None, None).err(), Some("invalid_reference".to_string()));
    match handle_message(Side::Alice, m(), None, Some("127.0.0.1:22")) {
        Ok(Action::Connect { addr, unix }) => {
            assert_eq!(addr, "127.0.0.1:22");
            assert!(!unix);
        },
        other => panic!("unexpected {:?}", other),
    }
}

#[test]
fn answers_are_left_to_their_watchers() {
    let m = OxyMessage::FileData { reference: 1, data: vec![] };
    assert!(matches!(handle_message(Side::Alice, m, None, None), Ok(Action::Unhandled)));
}

#[test]
fn forced_command_replaces_commands_and_refuses_the_rest() {
    let cmd = OxyMessage::BasicCommand { command: "rm -rf /".to_string() };
    match restrict_message(Side::Bob, Some("uptime"), cmd) {
        Ok(OxyMessage::BasicCommand { command }) => assert_eq!(command, "uptime"),
        other => panic!("unexpected {:?}", other),
    }
    match restrict_message(Side::Bob, Some("uptime"), OxyMessage::PtyRequest { command: "bash".to_string() }) {
        Ok(OxyMessage::PtyRequest { command }) => assert_eq!(command, "uptime"),
        other => panic!("unexpected {:?}", other),
    }
    assert!(restrict_message(Side::Bob, Some("uptime"), OxyMessage::Ping {}).is_ok());
    assert!(restrict_message(Side::Bob, Some("uptime"), OxyMessage::RemoteOpen { addr: "x:1".to_string() }).is_err());
    assert!(restrict_message(Side::Bob, None, OxyMessage::RemoteOpen { addr: "x:1".to_string() }).is_ok());
    assert!(restrict_message(Side::Alice, Some("uptime"), OxyMessage::RemoteOpen { addr: "x:1".to_string() }).is_ok());
}

#[test]
fn metacommand_download_defaults_local_name() {
    match parse_metacommand(&words(&["download", "/var/log/syslog"]), "bash") {
        Ok(MetaCommand::Download { remote, local, start, end }) => {
            assert_eq!(remote, "/var/log/syslog");
            assert_eq!(local, "syslog");
            assert_eq!(start, None);
            assert_eq!(end, None);
        },
        other => panic!("unexpected {:?}", other),
    }
    assert_eq!(parse_metacommand(&words(&["download", "/"]), "bash").err(), Some(MetaError::NoFileName));
}

#[test]
fn metacommand_options_in_both_forms() {
    match parse_metacommand(&words(&["hash", "f", "--start=5", "--end", "9"]), "bash") {
        Ok(MetaCommand::Hash { path, start, end }) => {
            assert_eq!(path, "f");
            assert_eq!(start, Some(5));
            assert_eq!(end, Some(9));
        },
        other => panic!("unexpected {:?}", other),
    }
    assert_eq!(parse_metacommand(&words(&["hash", "f", "--start", "x"]), "bash").err(), Some(MetaError::BadNumber));
    assert_eq!(parse_metacommand(&words(&["hash", "f", "--start=1", "--start=2"]), "bash").err(), Some(MetaError::BadArguments));
    assert_eq!(parse_metacommand(&words(&["hash", "f", "--frob=1"]), "bash").err(), Some(MetaError::BadArguments));
    assert_eq!(parse_metacommand(&words(&["upload", "a", "--end=3"]), "bash").err(), Some(MetaError::BadArguments));
}

#[test]
fn metacommand_errors() {
    assert_eq!(parse_metacommand(&words(&[]), "bash").err(), Some(MetaError::NoCommand));
    assert_eq!(parse_metacommand(&words(&["fly"]), "bash").err(), Some(MetaError::UnknownCommand));
    assert_eq!(parse_metacommand(&words(&["sh"]), "bash").err(), Some(MetaError::MissingArgument));
    assert_eq!(parse_metacommand(&words(&["L", "1"]), "bash").err(), Some(MetaError::MissingArgument));
    assert_eq!(parse_metacommand(&words(&["exit", "now"]), "bash").err(), Some(MetaError::BadArguments));
    assert_eq!(parse_metacommand(&words(&["socks", "-x"]), "bash").err(), Some(MetaError::BadArguments));
}

#[test]
fn metacommand_lines_are_split_like_a_shell() {
    match parse_metacommand_line("sh 'ls -l /tmp'", "bash") {
        Ok(MetaCommand::Sh { command }) => assert_eq!(command, "ls -l /tmp"),
        other => panic!("unexpected {:?}", other),
    }
    match parse_metacommand_line("pty", "zsh") {
        Ok(MetaCommand::Pty { command }) => assert_eq!(command, "zsh"),
        other => panic!("unexpected {:?}", other),
    }
    assert_eq!(parse_metacommand_line("sh 'unclosed", "bash").err(), Some(MetaError::BadQuoting));
}

#[test]
fn metacommand_first_messages() {
    let f10 = parse_metacommand(&words(&["f10"]), "bash").expect("ok");
    match first_message(&f10) {
        Some(OxyMessage::PtyInput { data }) => assert_eq!(data, vec![27, 91, 50, 49, 126]),
        other => panic!("unexpected {:?}", other),
    }
    let r = parse_metacommand(&words(&["R", "9000", "localhost:22"]), "bash").expect("ok");
    match first_message(&r) {
        Some(OxyMessage::RemoteBind { addr }) => assert_eq!(addr, "9000"),
        other => panic!("unexpected {:?}", other),
    }
    let tap = parse_metacommand(&words(&["tap", "tap0", "tap1"]), "bash").expect("ok");
    match first_message(&tap) {
        Some(OxyMessage::TunnelRequest { tap, name }) => {
            assert!(tap);
            assert_eq!(name, "tap1");
        },
        other => panic!("unexpected {:?}", other),
    }
    let l = parse_metacommand(&words(&["L", "1", "2"]), "bash").expect("ok");
    assert!(first_message(&l).is_none());
}

#[test]
fn stat_results_carry_times_and_wait_for_their_watcher() {
    let m = OxyMessage::StatResult {
        reference: 3,
        len: 10,
        is_dir: false,
        is_file: true,
        owner: String::new(),
        group: String::new(),
        octal_permissions: 0o644,
        atime: Some(std::time::SystemTime::now()),
        mtime: None,
        ctime: None,
    };
    assert!(matches!(handle_message(Side::Alice, m, None, None), Ok(Action::Unhandled)));
}

#[test]
fn refused_messages_are_answered_permission_denied() {
    let r = admit_message(Side::Bob, Some("uptime"), OxyMessage::DownloadRequest { path: "/etc/passwd".to_string() });
    assert!(matches!(r, Err(e) if e == "Permission denied"));
    match admit_message(Side::Bob, Some("uptime"), OxyMessage::BasicCommand { command: "rm -rf /".to_string() }) {
        Ok(OxyMessage::BasicCommand { command }) => assert_eq!(command, "uptime"),
        _ => panic!("forced command not applied"),
    }
    assert!(matches!(admit_message(Side::Bob, None, OxyMessage::Ping {}), Ok(OxyMessage::Ping {})));
    assert!(matches!(admit_message(Side::Alice, Some("uptime"), OxyMessage::Pong {}), Ok(OxyMessage::Pong {})));
}

#[test]
fn watchers_that_are_done_leave_and_claims_skip_handling() {
    let outcomes = vec![
        WatchOutcome { done: true, claimed: false },
        WatchOutcome { done: false, claimed: true },
        WatchOutcome { done: false, claimed: false },
    ];
    let (left, claimed) = after_watchers(vec!["a", "b", "c"], &outcomes, vec!["d"]);
    assert_eq!(left, vec!["b", "c", "d"]);
    assert!(claimed);
    let (left, claimed) = after_watchers(vec![1u8, 2u8], &vec![WatchOutcome { done: false, claimed: false }; 2], vec![]);
    assert_eq!(left, vec![1u8, 2u8]);
    assert!(!claimed);
    assert!(matches!(handle_unclaimed(Side::Bob, OxyMessage::Ping {}, true, None, None), Ok(Action::Nothing)));
    assert!(matches!(handle_unclaimed(Side::Bob, OxyMessage::Ping {}, false, None, None), Ok(Action::SendPong)));
    assert!(matches!(handle_unclaimed(Side::Alice, OxyMessage::PtyInput { data: vec![1] }, true, None, None), Ok(Action::Nothing)));
}

#[test]
fn receive_refuses_before_watchers_and_skips_claimed_messages() {
    let keep = WatchOutcome { done: false, claimed: false };
    let (w, r) = receive(Side::Bob, Some("uptime"), OxyMessage::ReadDir { path: "/".to_string() }, vec![1u8, 2u8], &vec![], vec![], None, None);
    assert_eq!(w, vec![1u8, 2u8]);
    assert!(matches!(r, Err(e) if e == "Permission denied"));
    let claim = WatchOutcome { done: true, claimed: true };
    let (w, r) = receive(Side::Bob, None, OxyMessage::Ping {}, vec![1u8, 2u8], &vec![claim, keep], vec![3u8], None, None);
    assert_eq!(w, vec![2u8, 3u8]);
    assert!(matches!(r, Ok(Action::Nothing)));
    let (w, r) = receive(Side::Bob, None, OxyMessage::Ping {}, vec![1u8], &vec![keep], vec![], None, None);
    assert_eq!(w, vec![1u8]);
    assert!(matches!(r, Ok(Action::SendPong)));
}

#[test]
fn double_dash_ends_options() {
    match parse_metacommand(&words(&["hash", "--", "-odd-name"]), "bash") {
        Ok(MetaCommand::Hash { path, start, end }) => {
            assert_eq!(path, "-odd-name");
            assert_eq!(start, None);
            assert_eq!(end, None);
        },
        other => panic!("unexpected {:?}", other),
    }
    match parse_metacommand(&words(&["hash", "--", "--start=5"]), "bash") {
        Ok(MetaCommand::Hash { path, start, .. }) => {
            assert_eq!(path, "--start=5");
            assert_eq!(start, None);
        },
        other => panic!("unexpected {:?}", other),
    }
}

#[test]
fn remote_forwards_remember_their_local_address() {
    let mut binds = RemoteBinds::new();
    let r = parse_metacommand(&words(&["R", "8080", "localhost:80"]), "bash").expect("ok");
    match first_message(&r) {
        Some(OxyMessage::RemoteBind { addr }) => assert_eq!(addr, "8080"),
        other => panic!("unexpected {:?}", other),
    }
    binds.record(&r, 7);
    let sh = parse_metacommand(&words(&["sh", "ls"]), "bash").expect("ok");
    binds.record(&sh, 8);
    assert_eq!(binds.destination(7), Some("localhost:80".to_string()));
    assert_eq!(binds.destination(8), None);
    let dest = binds.destination(7);
    assert!(matches!(
        handle_message(Side::Alice, OxyMessage::BindConnectionAccepted { reference: 7 }, None, dest.as_deref()),
        Ok(Action::Connect { addr, unix: false }) if addr == "localhost:80"
    ));
}

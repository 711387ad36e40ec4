use oxy::transfer::{remote_step, start_remote_source, tick_transfers, RemoteSource, SourceAction, SourceReply, PROGRESS_RESET};
use oxy::transfer::{service_transfers, Outgoing, Sent};
use oxy::transfer::{download_entry_commands, upload_entry_commands};
use oxy::transfer::{copy_plan, plan_local_source, plan_remote_source, CopyError, LocalPlan, RemotePlan};
use oxy::transfer::{
    chunk_end, get_path, get_peer, peers_to_connect, progress_permille, read_be64, remote_source_path, split_source,
    stream_step, transfer_step, upload_target, ChunkStep, ChunkedCopy, CopyQueue, NextCopy, OutStep, StreamStep,
};

fn strings(s: &[&str]) -> Vec<String> {
    s.iter().map(|x| x.to_string()).collect()
}

#[test]
fn locations_name_peers_and_paths() {
    assert_eq!(get_peer("host:/srv/file"), Some("host".to_string()));
    assert_eq!(get_path("host:/srv/file"), "/srv/file");
    assert_eq!(get_peer("/local/file"), None);
    assert_eq!(get_path("/local/file"), "/local/file");
    assert_eq!(get_peer("dir/a:b"), None);
    assert_eq!(get_path("dir/a:b"), "dir/a:b");
    assert_eq!(get_peer("[::1]:/x"), Some("[::1".to_string()));
    assert_eq!(get_path("[::1]:/x"), "/x");
    assert_eq!(get_peer("h:"), Some("h".to_string()));
    assert_eq!(get_path("h:"), "");
}

#[test]
fn sources_split_into_directory_and_name() {
    assert_eq!(split_source("dir/"), ("dir/".to_string(), "".to_string()));
    assert_eq!(split_source("a/b.txt"), ("a".to_string(), "b.txt".to_string()));
    assert_eq!(split_source("b.txt"), ("".to_string(), "b.txt".to_string()));
    assert_eq!(remote_source_path("/srv", "d//"), "/srv/d");
    assert_eq!(upload_target("/dest", "sub/f"), Some(("/dest/sub".to_string(), "f".to_string())));
    assert_eq!(upload_target("", ""), None);
}

#[test]
fn queue_takes_found_files_first() {
    let mut q = CopyQueue::new(strings(&["host:/a/", "/b/c.txt"]));
    match q.next() {
        NextCopy::File { peer, head, tail } => {
            assert_eq!(peer.as_deref(), Some("host"));
            assert_eq!(head, "/a/");
            assert_eq!(tail, "");
        },
        NextCopy::Finished => panic!("not finished"),
    }
    q.add_remote_entries("host", "/a/", "", &strings(&["x", "y/"]));
    q.add_local_entries("/l", "t", &strings(&["n"]));
    let mut order = Vec::new();
    loop {
        match q.next() {
            NextCopy::File { peer, head, tail } => order.push((peer, head, tail)),
            NextCopy::Finished => break,
        }
    }
    assert_eq!(
        order,
        vec![
            (Some("host".to_string()), "/a/".to_string(), "y".to_string()),
            (Some("host".to_string()), "/a/".to_string(), "x".to_string()),
            (None, "/l".to_string(), "t/n".to_string()),
            (None, "/b".to_string(), "c.txt".to_string()),
        ]
    );
}

#[test]
fn servers_to_connect_each_once() {
    let l = strings(&["a:/x", "/local", "b:/y", "a:/z", "b:"]);
    assert_eq!(peers_to_connect(&l), strings(&["a", "b"]));
}

#[test]
fn chunks_of_a_peer_to_peer_copy() {
    assert_eq!(chunk_end(3_000_000, 0), Some(1_048_576));
    assert_eq!(chunk_end(3_000_000, 2_000_000), None);
    assert_eq!(chunk_end(1_048_576, 0), None);
    let mut c = ChunkedCopy::new(2_000_000);
    assert_eq!(c.start_chunk(), (0, Some(1_048_576)));
    assert_eq!(c.on_data(1_000_000), ChunkStep::Forward { progress: 500 });
    assert_eq!(c.on_data(100_000), ChunkStep::Overrun);
    assert_eq!(c.on_data(48_576), ChunkStep::Forward { progress: 524 });
    assert_eq!(c.on_data(0), ChunkStep::ChunkDone);
    assert_eq!(c.start_chunk(), (1_048_576, None));
    assert_eq!(c.on_data(951_424), ChunkStep::Forward { progress: 1000 });
    assert_eq!(c.on_data(0), ChunkStep::Finished { progress: 1000 });
}

#[test]
fn outgoing_transfer_steps() {
    assert_eq!(transfer_step(0, 100, 40), OutStep::More { position: 40, progress: 400 });
    assert_eq!(transfer_step(90, 100, 40), OutStep::Cut { take: 10 });
    assert_eq!(transfer_step(100, 100, 0), OutStep::Last { progress: 1000 });
    assert_eq!(transfer_step(0, 0, 0), OutStep::Last { progress: 1000 });
    assert_eq!(progress_permille(1, 3), 333);
}

#[test]
fn copy_stream_numbering() {
    assert_eq!(read_be64(&[0, 0, 0, 0, 0, 0, 1, 2, 99]), 258);
    assert_eq!(stream_step(0, false, 0), StreamStep::NewFile { ticker: 0 });
    assert_eq!(stream_step(0, true, 0), StreamStep::Continue { ticker: 0 });
    assert_eq!(stream_step(0, true, 1), StreamStep::NewFile { ticker: 1 });
    assert_eq!(stream_step(3, true, 7), StreamStep::OutOfOrder);
    assert_eq!(stream_step(3, true, u64::MAX), StreamStep::Continue { ticker: u64::MAX });
}

#[test]
fn directory_entries_become_prompt_commands() {
    let cmds = download_entry_commands("/srv/d", "out", &strings(&["a", "b/"]));
    assert_eq!(cmds, vec![strings(&["download", "/srv/d/a", "out/a"]), strings(&["download", "/srv/d/b/", "out/b/"])]);
    let up = upload_entry_commands("/home/u/pics", "backup", &strings(&["x.png"])).expect("named");
    assert_eq!(up, vec![strings(&["upload", "/home/u/pics/x.png", "backup/pics"])]);
    assert_eq!(upload_entry_commands("/", "backup", &strings(&["x"])), None);
}

#[test]
fn described_sources_are_planned() {
    assert!(matches!(plan_remote_source(true, "dest", "x"), RemotePlan::ListDir));
    match plan_remote_source(false, "other:/in", "d/f.txt") {
        RemotePlan::PeerToPeer { directory, file } => {
            assert_eq!(directory, "/in/d");
            assert_eq!(file, "f.txt");
        },
        other => panic!("unexpected {:?}", other),
    }
    match plan_remote_source(false, "/local/in", "f.txt") {
        RemotePlan::Download { path, file } => {
            assert_eq!(path, "/local/in/f.txt");
            assert_eq!(file, "f.txt");
        },
        other => panic!("unexpected {:?}", other),
    }
    match plan_local_source(false, "/local/in", "f.txt") {
        LocalPlan::CopyTo { path } => assert_eq!(path, "/local/in/f.txt"),
        other => panic!("unexpected {:?}", other),
    }
    match plan_local_source(false, "srv:/up", "f.txt") {
        LocalPlan::Upload { directory, file } => {
            assert_eq!(directory, "/up");
            assert_eq!(file, "f.txt");
        },
        other => panic!("unexpected {:?}", other),
    }
    assert_eq!(copy_plan(strings(&["only"])).err(), Some(CopyError::TooFewLocations));
    assert_eq!(copy_plan(strings(&["a", "b", "c"])).ok(), Some((strings(&["a", "b"]), "c".to_string())));
}

#[test]
fn servicing_sends_up_to_cutoffs_and_drops_finished_transfers() {
    let mut ts = vec![
        Outgoing { reference: 1, current: 0, cutoff: 100 },
        Outgoing { reference: 2, current: 90, cutoff: 100 },
        Outgoing { reference: 3, current: 5, cutoff: 100 },
    ];
    let sent = service_transfers(&mut ts, &vec![40, 30, 0], true);
    assert_eq!(sent, vec![
        Sent { reference: 1, len: 40 },
        Sent { reference: 2, len: 10 },
        Sent { reference: 2, len: 0 },
        Sent { reference: 3, len: 0 },
    ]);
    assert_eq!(ts, vec![Outgoing { reference: 1, current: 40, cutoff: 100 }]);
    let before = ts.clone();
    assert_eq!(service_transfers(&mut ts, &vec![10], false), vec![]);
    assert_eq!(ts, before);
}

#[test]
fn next_file_resets_progress() {
    let mut q = CopyQueue::new(strings(&["/b/c.txt"]));
    let mut progress = 500u64;
    assert!(matches!(tick_transfers(&mut q, &mut progress), NextCopy::File { .. }));
    assert_eq!(progress, PROGRESS_RESET);
    assert_eq!(PROGRESS_RESET, 1001);
    progress = 7;
    assert!(matches!(tick_transfers(&mut q, &mut progress), NextCopy::Finished));
    assert_eq!(progress, 7);
}

#[test]
fn remote_source_is_described_then_listed_or_copied() {
    let (state, action) = start_remote_source("host", "/srv", "d/");
    assert!(matches!(&action, SourceAction::Stat { path } if path == "/srv/d"));
    let mut q = CopyQueue::new(vec![]);
    let (state, action) = remote_step(state, SourceReply::Described { is_dir: true, len: 0 }, "/local", &mut q);
    assert!(matches!(&action, SourceAction::ReadDir { path } if path == "/srv/d"));
    let (state, action) = remote_step(state, SourceReply::Entries { complete: false, answers: strings(&["x"]) }, "/local", &mut q);
    assert!(matches!(action, SourceAction::Wait));
    assert!(matches!(state, RemoteSource::Listing { .. }));
    let (state, action) = remote_step(state, SourceReply::Entries { complete: true, answers: strings(&["y"]) }, "/local", &mut q);
    assert!(matches!(action, SourceAction::NextSource));
    assert!(matches!(state, RemoteSource::Settled));
    assert_eq!(q.found.len(), 2);
    assert_eq!(q.found[0], (Some("host".to_string()), "/srv".to_string(), "d/y".to_string()));

    let (state, _) = start_remote_source("host", "/srv", "f.txt");
    let (_, action) = remote_step(state, SourceReply::Described { is_dir: false, len: 9 }, "/local", &mut q);
    match action {
        SourceAction::Copy { path, len, plan: RemotePlan::Download { path: to, file } } => {
            assert_eq!(path, "/srv/f.txt");
            assert_eq!(len, 9);
            assert_eq!(to, "/local/f.txt");
            assert_eq!(file, "f.txt");
        },
        other => panic!("unexpected {:?}", other),
    }
    let (state, _) = start_remote_source("host", "/srv", "gone");
    let (state, action) = remote_step(state, SourceReply::Refused, "/local", &mut q);
    assert!(matches!(action, SourceAction::NextSource));
    assert!(matches!(state, RemoteSource::Settled));
}

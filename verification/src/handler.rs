//! What one end of a connection does with each message it receives.
//!
//! The decisions are made here; the caller carries the chosen action out
//! (running commands, touching files and sockets) and reports back.

use vstd::prelude::*;
use vstd::string::*;
use crate::message::OxyMessage;
use crate::paths::{contains_char, is_absolute, join, join_path, path_is_absolute};

verus! {

/// The two ends of a connection: the client (Alice) and the server (Bob).
#[derive(Clone, Copy, Debug, PartialEq, Eq, Structural)]
pub enum Side {
    /// The end that connected.
    Alice,
    /// The end that accepted.
    Bob,
}

/// Messages that only the server acts on.
pub open spec fn server_only(m: OxyMessage) -> bool {
    ||| m is BasicCommand
    ||| m is PtyRequest
    ||| m is PtySizeAdvertisement
    ||| m is PtyInput
    ||| m is DownloadRequest
    ||| m is UploadRequest
    ||| m is RemoteOpen
    ||| m is RemoteBind
    ||| m is TunnelRequest
    ||| m is StatRequest
    ||| m is ReadDir
}

/// Messages that only the client acts on.
pub open spec fn client_only(m: OxyMessage) -> bool {
    ||| m is BasicCommandOutput
    ||| m is PtyOutput
    ||| m is BindConnectionAccepted
}

/// Whether a side may act on a message at all. A message that only the
/// other side acts on is a protocol violation: the receiving end stops
/// rather than handle it, so such messages are not handed to
/// `handle_message`.
pub open spec fn may_handle(side: Side, m: OxyMessage) -> bool {
    &&& server_only(m) ==> side == Side::Bob
    &&& client_only(m) ==> side == Side::Alice
}

/// Whether a side may act on a message. Acting on a message meant for the
/// other side is a protocol violation.
pub fn may_handle_exec(side: Side, m: &OxyMessage) -> (r: bool)
    ensures
        r == may_handle(side, *m),
{
    match m {
        OxyMessage::BasicCommand { .. } | OxyMessage::PtyRequest { .. } | OxyMessage::PtySizeAdvertisement { .. }
        | OxyMessage::PtyInput { .. } | OxyMessage::DownloadRequest { .. } | OxyMessage::UploadRequest { .. }
        | OxyMessage::RemoteOpen { .. } | OxyMessage::RemoteBind { .. } | OxyMessage::TunnelRequest { .. }
        | OxyMessage::StatRequest { .. } | OxyMessage::ReadDir { .. } => side == Side::Bob,
        OxyMessage::BasicCommandOutput { .. } | OxyMessage::PtyOutput { .. } | OxyMessage::BindConnectionAccepted {
            ..
        } => side == Side::Alice,
        _ => true,
    }
}

/// What to do about a received message.
#[derive(Debug)]
pub enum Action {
    /// Nothing.
    Nothing,
    /// Report that the peer refused a request.
    LogRejection { note: String },
    /// Answer with a pong.
    SendPong,
    /// Note that the peer is alive.
    MarkAlive,
    /// Run a command through the shell, without a terminal.
    RunCommand { command: String },
    /// Show what a command wrote.
    ShowCommandOutput { stdout: Vec<u8>, stderr: Vec<u8> },
    /// Open a terminal running a command.
    OpenPty { command: String },
    /// Resize the terminal.
    ResizePty { w: u16, h: u16 },
    /// Type into the terminal.
    WritePty { data: Vec<u8> },
    /// Show what the remote terminal wrote.
    ShowPtyOutput { data: Vec<u8> },
    /// Send a file.
    SendFile { path: String },
    /// Receive a file: create the directory, then write the file.
    ReceiveFile { directory: String, file: String },
    /// Connect to an address, a Unix socket path where `unix` holds.
    Connect { addr: String, unix: bool },
    /// Listen on an address, a Unix socket path where `unix` holds.
    Listen { addr: String, unix: bool },
    /// Pass data to a connection opened for the peer.
    ToRemoteStream { reference: u64, data: Vec<u8> },
    /// Pass data to a connection opened here.
    ToLocalStream { reference: u64, data: Vec<u8> },
    /// Open a tunnel device.
    CreateTunnel { tap: bool, name: String },
    /// Pass a packet to a tunnel.
    ToTunnel { reference: u64, data: Vec<u8> },
    /// Describe a file.
    Stat { path: String },
    /// List a directory.
    ListDir { path: String },
    /// A message that answers a request; whoever waits for it handles it.
    Unhandled,
}

/// A path as the server reads it: relative paths are taken from the
/// terminal's working directory where there is a terminal.
pub open spec fn qualified(path: Seq<char>, cwd: Option<Seq<char>>) -> Seq<char> {
    match cwd {
        Some(c) => if !is_absolute(path) {
            join_path(c, path)
        } else {
            path
        },
        None => path,
    }
}

/// The working directory for uploads: the terminal's, else the current one.
pub open spec fn upload_context(cwd: Option<Seq<char>>) -> Seq<char> {
    match cwd {
        Some(c) => c,
        None => "."@,
    }
}

/// The directory an upload goes to.
pub open spec fn upload_directory(path: Seq<char>, cwd: Option<Seq<char>>) -> Seq<char> {
    let p = if path.len() > 0 {
        path
    } else {
        upload_context(cwd)
    };
    if is_absolute(p) {
        p
    } else {
        join_path(upload_context(cwd), p)
    }
}

/// The address a remote listener binds: a bare port listens on localhost.
pub open spec fn bind_address(addr: Seq<char>) -> Seq<char> {
    if !addr.contains(':') {
        "localhost:"@ + addr
    } else {
        addr
    }
}

/// The model of an optional text argument.
pub open spec fn opt_text(v: Option<&str>) -> Option<Seq<char>> {
    match v {
        Some(x) => Some(x@),
        None => None,
    }
}

fn qualify(path: &str, cwd: Option<&str>) -> (r: String)
    ensures
        r@ == qualified(path@, opt_text(cwd)),
{
    match cwd {
        Some(c) => if !path_is_absolute(path) {
            join(c, path)
        } else {
            path.to_owned()
        },
        None => path.to_owned(),
    }
}

fn context_of(cwd: Option<&str>) -> (r: &str)
    ensures
        r@ == upload_context(opt_text(cwd)),
{
    match cwd {
        Some(c) => c,
        None => ".",
    }
}

/// What handling a received message comes to (see `handle_message`):
/// `cwd` is the terminal's working directory and `bind` the address
/// registered for the listener a `BindConnectionAccepted` names.
pub open spec fn handled_as(message: OxyMessage, cwd: Option<Seq<char>>, bind: Option<Seq<char>>, r: Result<Action, String>) -> bool {
    match message {
        OxyMessage::DummyMessage { .. } => r matches Ok(Action::Nothing),
        OxyMessage::Reject { note, .. } => r matches Ok(Action::LogRejection { note: n }) && n@ == note@,
        OxyMessage::Ping {  } => r matches Ok(Action::SendPong),
        OxyMessage::Pong {  } => r matches Ok(Action::MarkAlive),
        OxyMessage::BasicCommand { command } => r matches Ok(Action::RunCommand { command: c }) && c@ == command@,
        OxyMessage::BasicCommandOutput { stdout, stderr } => r matches Ok(
            Action::ShowCommandOutput { stdout: o, stderr: e },
        ) && o@ == stdout@ && e@ == stderr@,
        OxyMessage::PtyRequest { command } => r matches Ok(Action::OpenPty { command: c }) && c@ == command@,
        OxyMessage::PtySizeAdvertisement { w, h } => r matches Ok(Action::ResizePty { w: w2, h: h2 }) && w2 == w
            && h2 == h,
        OxyMessage::PtyInput { data } => r matches Ok(Action::WritePty { data: d }) && d@ == data@,
        OxyMessage::PtyOutput { data } => r matches Ok(Action::ShowPtyOutput { data: d }) && d@ == data@,
        OxyMessage::DownloadRequest { path } => r matches Ok(Action::SendFile { path: p }) && p@ == qualified(
            path@,
            cwd,
        ),
        OxyMessage::UploadRequest { path, filepart } => r matches Ok(Action::ReceiveFile { directory, file })
            && directory@ == upload_directory(path@, cwd) && file@ == join_path(
            upload_directory(path@, cwd),
            filepart@,
        ),
        OxyMessage::RemoteOpen { addr } => r matches Ok(Action::Connect { addr: a, unix }) && a@ == addr@
            && unix == addr@.contains('/'),
        OxyMessage::RemoteBind { addr } => r matches Ok(Action::Listen { addr: a, unix }) && unix == addr@.contains(
            '/',
        ) && a@ == (if unix {
            addr@
        } else {
            bind_address(addr@)
        }),
        OxyMessage::RemoteStreamData { reference, data } => r matches Ok(
            Action::ToRemoteStream { reference: x, data: d },
        ) && x == reference && d@ == data@,
        OxyMessage::LocalStreamData { reference, data } => r matches Ok(
            Action::ToLocalStream { reference: x, data: d },
        ) && x == reference && d@ == data@,
        OxyMessage::BindConnectionAccepted { .. } => match bind {
            Some(dest) => r matches Ok(Action::Connect { addr: a, unix }) && a@ == dest && unix
                == dest.contains('/'),
            None => r matches Err(e) && e@ == "invalid_reference"@,
        },
        OxyMessage::TunnelRequest { tap, name } => r matches Ok(Action::CreateTunnel { tap: t, name: n }) && t
            == tap && n@ == name@,
        OxyMessage::TunnelData { reference, data } => r matches Ok(Action::ToTunnel { reference: x, data: d })
            && x == reference && d@ == data@,
        OxyMessage::StatRequest { path } => r matches Ok(Action::Stat { path: p }) && p@ == qualified(
            path@,
            cwd,
        ),
        OxyMessage::ReadDir { path } => r matches Ok(Action::ListDir { path: p }) && p@ == qualified(
            path@,
            cwd,
        ),
        _ => r matches Ok(Action::Unhandled),
    }
}

/// Decides what to do about a received message. `cwd` is the working
/// directory of the open terminal, where there is one; `bind_destination`
/// is the address registered for the remote listener a
/// `BindConnectionAccepted` names, where there is one.
pub fn handle_message(side: Side, message: OxyMessage, cwd: Option<&str>, bind_destination: Option<&str>) -> (r: Result<Action, String>)
    requires
        may_handle(side, message),
    ensures
        handled_as(message, opt_text(cwd), opt_text(bind_destination), r),
{
    match message {
        OxyMessage::DummyMessage { .. } => Ok(Action::Nothing),
        OxyMessage::Reject { note, .. } => Ok(Action::LogRejection { note }),
        OxyMessage::Ping {  } => Ok(Action::SendPong),
        OxyMessage::Pong {  } => Ok(Action::MarkAlive),
        OxyMessage::BasicCommand { command } => Ok(Action::RunCommand { command }),
        OxyMessage::BasicCommandOutput { stdout, stderr } => Ok(Action::ShowCommandOutput { stdout, stderr }),
        OxyMessage::PtyRequest { command } => Ok(Action::OpenPty { command }),
        OxyMessage::PtySizeAdvertisement { w, h } => Ok(Action::ResizePty { w, h }),
        OxyMessage::PtyInput { data } => Ok(Action::WritePty { data }),
        OxyMessage::PtyOutput { data } => Ok(Action::ShowPtyOutput { data }),
        OxyMessage::DownloadRequest { path } => Ok(Action::SendFile { path: qualify(path.as_str(), cwd) }),
        OxyMessage::UploadRequest { path, filepart } => {
            let context = context_of(cwd);
            let start: &str = if path.unicode_len() > 0 {
                path.as_str()
            } else {
                context
            };
            let directory = if path_is_absolute(start) {
                start.to_owned()
            } else {
                join(context, start)
            };
            let file = join(directory.as_str(), filepart.as_str());
            Ok(Action::ReceiveFile { directory, file })
        },
        OxyMessage::RemoteOpen { addr } => {
            let unix = contains_char(addr.as_str(), '/');
            Ok(Action::Connect { addr, unix })
        },
        OxyMessage::RemoteBind { addr } => {
            let unix = contains_char(addr.as_str(), '/');
            if unix || contains_char(addr.as_str(), ':') {
                Ok(Action::Listen { addr, unix })
            } else {
                let mut a = String::from_str("localhost:");
                a.append(addr.as_str());
                Ok(Action::Listen { addr: a, unix })
            }
        },
        OxyMessage::RemoteStreamData { reference, data } => Ok(Action::ToRemoteStream { reference, data }),
        OxyMessage::LocalStreamData { reference, data } => Ok(Action::ToLocalStream { reference, data }),
        OxyMessage::BindConnectionAccepted { .. } => match bind_destination {
            Some(dest) => Ok(Action::Connect { addr: dest.to_owned(), unix: contains_char(dest, '/') }),
            None => Err(String::from_str("invalid_reference")),
        },
        OxyMessage::TunnelRequest { tap, name } => Ok(Action::CreateTunnel { tap, name }),
        OxyMessage::TunnelData { reference, data } => Ok(Action::ToTunnel { reference, data }),
        OxyMessage::StatRequest { path } => Ok(Action::Stat { path: qualify(path.as_str(), cwd) }),
        OxyMessage::ReadDir { path } => Ok(Action::ListDir { path: qualify(path.as_str(), cwd) }),
        _ => Ok(Action::Unhandled),
    }
}

/// Whether a message passes unchanged while a forced command is in force.
pub open spec fn passes_forced(m: OxyMessage) -> bool {
    ||| m is PtySizeAdvertisement
    ||| m is PtyInput
    ||| m is Reject
    ||| m is Ping
    ||| m is Pong
}

/// What the server's restrictions make of a received message (see
/// `restrict_message`), for the forced command in force, if any.
pub open spec fn restricted_as(side: Side, forced: Option<Seq<char>>, message: OxyMessage, r: Result<OxyMessage, ()>) -> bool {
    if side == Side::Alice || forced is None {
        r == Ok::<OxyMessage, ()>(message)
    } else {
        let f = forced->0;
        match message {
            OxyMessage::BasicCommand { .. } => r matches Ok(OxyMessage::BasicCommand { command }) && command@ == f,
            OxyMessage::PtyRequest { .. } => r matches Ok(OxyMessage::PtyRequest { command }) && command@ == f,
            _ => if passes_forced(message) {
                r == Ok::<OxyMessage, ()>(message)
            } else {
                r == Err::<OxyMessage, ()>(())
            },
        }
    }
}

/// Applies the server's restrictions to a received message. Where the
/// server forces a command for the peer, command and terminal requests run
/// that command instead, terminal traffic and keepalives pass, and anything
/// else is refused. The client applies no restrictions.
pub fn restrict_message(side: Side, forced_command: Option<&str>, message: OxyMessage) -> (r: Result<OxyMessage, ()>)
    ensures
        restricted_as(side, opt_text(forced_command), message, r),
{
    if side == Side::Alice {
        return Ok(message);
    }
    let forced = match forced_command {
        Some(f) => f,
        None => return Ok(message),
    };
    match message {
        OxyMessage::BasicCommand { .. } => Ok(OxyMessage::BasicCommand { command: forced.to_owned() }),
        OxyMessage::PtyRequest { .. } => Ok(OxyMessage::PtyRequest { command: forced.to_owned() }),
        OxyMessage::PtySizeAdvertisement { .. } | OxyMessage::PtyInput { .. } | OxyMessage::Reject { .. }
        | OxyMessage::Ping {  } | OxyMessage::Pong {  } => Ok(message),
        _ => Err(()),
    }
}

/// Applies the server's restrictions to a received message, refusing it
/// with "Permission denied" where they do not let it through.
pub fn admit_message(side: Side, forced_command: Option<&str>, message: OxyMessage) -> (r: Result<OxyMessage, String>)
    ensures
        match r {
            Ok(m) => restricted_as(side, opt_text(forced_command), message, Ok::<OxyMessage, ()>(m)),
            Err(e) => restricted_as(side, opt_text(forced_command), message, Err::<OxyMessage, ()>(()))
                && e@ == "Permission denied"@,
        },
{
    match restrict_message(side, forced_command, message) {
        Ok(m) => Ok(m),
        Err(()) => Err(String::from_str("Permission denied")),
    }
}

/// What one watcher made of a received message: whether it is done
/// watching, and whether it claimed the message for itself.
#[derive(Clone, Copy, Debug, PartialEq, Eq, Structural)]
pub struct WatchOutcome {
    pub done: bool,
    pub claimed: bool,
}

/// The watchers that stay registered: those not done, in their order.
pub open spec fn still_watching<T>(watchers: Seq<T>, outcomes: Seq<WatchOutcome>) -> Seq<T>
    decreases watchers.len(),
{
    if watchers.len() == 0 {
        watchers
    } else {
        let rest = still_watching(watchers.drop_last(), outcomes.drop_last());
        if outcomes.last().done {
            rest
        } else {
            rest.push(watchers.last())
        }
    }
}

/// Whether some watcher claimed the message.
pub open spec fn any_claimed(outcomes: Seq<WatchOutcome>) -> bool {
    exists|i: int| 0 <= i < outcomes.len() && (#[trigger] outcomes[i]).claimed
}

/// The watchers after each was shown a received message: those not done,
/// in their order, then those registered while they ran; and whether one
/// of them claimed the message. `outcomes[i]` is what `watchers[i]` said.
pub fn after_watchers<T>(watchers: Vec<T>, outcomes: &Vec<WatchOutcome>, added: Vec<T>) -> (r: (Vec<T>, bool))
    requires
        outcomes@.len() == watchers@.len(),
    ensures
        r.0@ == still_watching(watchers@, outcomes@) + added@,
        r.1 == any_claimed(outcomes@),
{
    let ghost ws = watchers@;
    let ghost os = outcomes@;
    let mut rest = watchers;
    let mut kept: Vec<T> = Vec::new();
    let mut claimed = false;
    let mut i: usize = 0;
    while i < outcomes.len()
        invariant
            i <= os.len(),
            os == outcomes@,
            os.len() == ws.len(),
            rest@ == ws.subrange(i as int, ws.len() as int),
            kept@ == still_watching(ws.take(i as int), os.take(i as int)),
            claimed == any_claimed(os.take(i as int)),
        decreases os.len() - i,
    {
        let w = rest.remove(0);
        let o = outcomes[i];
        proof {
            assert(ws.take(i + 1).drop_last() =~= ws.take(i as int));
            assert(os.take(i + 1).drop_last() =~= os.take(i as int));
            assert(w == ws[i as int]);
        }
        if !o.done {
            kept.push(w);
        }
        if o.claimed {
            claimed = true;
        }
        proof {
            assert(rest@ =~= ws.subrange(i + 1, ws.len() as int));
            if claimed {
                if o.claimed {
                    assert(os.take(i + 1)[i as int] == o);
                } else {
                    let j = choose|j: int| 0 <= j < i && (#[trigger] os.take(i as int)[j]).claimed;
                    assert(os.take(i + 1)[j] == os.take(i as int)[j]);
                }
            } else {
                assert forall|j: int| 0 <= j < i + 1 implies !(#[trigger] os.take(i + 1)[j]).claimed by {
                    if j < i {
                        assert(os.take(i + 1)[j] == os.take(i as int)[j]);
                    }
                }
            }
        }
        i = i + 1;
    }
    proof {
        assert(ws.take(ws.len() as int) =~= ws);
        assert(os.take(os.len() as int) =~= os);
    }
    let mut added = added;
    kept.append(&mut added);
    (kept, claimed)
}

/// What one end does about a received message that passed the
/// restrictions and was shown to the watchers: nothing where a watcher
/// claimed it, else what `handle_message` decides.
pub fn handle_unclaimed(
    side: Side,
    message: OxyMessage,
    claimed: bool,
    cwd: Option<&str>,
    bind_destination: Option<&str>,
) -> (r: Result<Action, String>)
    requires
        !claimed ==> may_handle(side, message),
    ensures
        claimed ==> r matches Ok(Action::Nothing),
        !claimed ==> handled_as(message, opt_text(cwd), opt_text(bind_destination), r),
{
    if claimed {
        Ok(Action::Nothing)
    } else {
        handle_message(side, message, cwd, bind_destination)
    }
}

/// The restrictions keep a message's kind, so they keep which side may act
/// on it.
pub proof fn lemma_restriction_keeps_side(side: Side, forced: Option<Seq<char>>, message: OxyMessage, m: OxyMessage)
    requires
        restricted_as(side, forced, message, Ok::<OxyMessage, ()>(m)),
    ensures
        may_handle(side, m) == may_handle(side, message),
{
}

/// What one end does about one received message, with the watchers that
/// wait for replies. A message the server's restrictions refuse is answered
/// "Permission denied": no watcher sees it and the watchers stay as they
/// were. Otherwise the admitted message (see `admit_message`) is shown to
/// each watcher in turn; `outcomes[i]` is what `watchers[i]` said and
/// `added` the watchers registered meanwhile. Those not done stay, in
/// order, followed by the added ones; a message some watcher claimed calls
/// for nothing more, any other for what `handle_message` decides.
pub fn receive<T>(
    side: Side,
    forced_command: Option<&str>,
    message: OxyMessage,
    watchers: Vec<T>,
    outcomes: &Vec<WatchOutcome>,
    added: Vec<T>,
    cwd: Option<&str>,
    bind_destination: Option<&str>,
) -> (r: (Vec<T>, Result<Action, String>))
    requires
        !restricted_as(side, opt_text(forced_command), message, Err::<OxyMessage, ()>(()))
            ==> outcomes@.len() == watchers@.len(),
        !restricted_as(side, opt_text(forced_command), message, Err::<OxyMessage, ()>(())) && !any_claimed(outcomes@)
            ==> may_handle(side, message),
    ensures
        restricted_as(side, opt_text(forced_command), message, Err::<OxyMessage, ()>(())) ==> {
            &&& r.0@ == watchers@
            &&& (r.1 matches Err(e) && e@ == "Permission denied"@)
        },
        !restricted_as(side, opt_text(forced_command), message, Err::<OxyMessage, ()>(())) ==> {
            &&& r.0@ == still_watching(watchers@, outcomes@) + added@
            &&& any_claimed(outcomes@) ==> (r.1 matches Ok(Action::Nothing))
            &&& !any_claimed(outcomes@) ==> exists|m: OxyMessage|
                restricted_as(side, opt_text(forced_command), message, Ok::<OxyMessage, ()>(m))
                    && handled_as(m, opt_text(cwd), opt_text(bind_destination), r.1)
        },
{
    let ghost original = message;
    match admit_message(side, forced_command, message) {
        Err(e) => {
            proof {
                lemma_restriction_outcome_unique(side, opt_text(forced_command), original);
            }
            (watchers, Err(e))
        },
        Ok(m) => {
            proof {
                lemma_restriction_outcome_unique(side, opt_text(forced_command), original);
                lemma_restriction_keeps_side(side, opt_text(forced_command), original, m);
            }
            let (kept, claimed) = after_watchers(watchers, outcomes, added);
            let result = handle_unclaimed(side, m, claimed, cwd, bind_destination);
            (kept, result)
        },
    }
}

/// A message is either refused or let through, not both.
pub proof fn lemma_restriction_outcome_unique(side: Side, forced: Option<Seq<char>>, message: OxyMessage)
    ensures
        restricted_as(side, forced, message, Err::<OxyMessage, ()>(())) ==> forall|m: OxyMessage|
            !#[trigger] restricted_as(side, forced, message, Ok::<OxyMessage, ()>(m)),
{
}

} // verus!

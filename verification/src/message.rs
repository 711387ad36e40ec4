//! The messages that the two ends of a connection exchange.

use vstd::prelude::*;

verus! {

/// A point in time, as the operating system reports it.
#[verifier::external_type_specification]
#[verifier::external_body]
pub struct ExSystemTime(std::time::SystemTime);

/// A message between the client and the server of a connection. Requests
/// are answered by messages that name the request's number as their
/// `reference`.
#[derive(Debug, Clone)]
pub enum OxyMessage {
    /// Padding; carries nothing.
    DummyMessage { data: Vec<u8> },
    /// Run a command without a terminal.
    BasicCommand { command: String },
    /// What a basic command wrote.
    BasicCommandOutput { stdout: Vec<u8>, stderr: Vec<u8> },
    /// A request was refused.
    Reject { message_number: u64, note: String },
    /// Open a terminal running a command.
    PtyRequest { command: String },
    /// Whether a terminal was opened.
    PtyRequestResponse { granted: bool },
    /// The client's terminal size.
    PtySizeAdvertisement { w: u16, h: u16 },
    /// Keystrokes for the remote terminal.
    PtyInput { data: Vec<u8> },
    /// What the remote terminal wrote.
    PtyOutput { data: Vec<u8> },
    /// Send the contents of a file.
    DownloadRequest { path: String },
    /// Receive a file into a directory under a name.
    UploadRequest { path: String, filepart: String },
    /// The size of a file being sent.
    FileSize { reference: u64, size: u64 },
    /// A piece of a file; empty at its end.
    FileData { reference: u64, data: Vec<u8> },
    /// Connect to an address on the server's side.
    RemoteOpen { addr: String },
    /// Listen on an address on the server's side.
    RemoteBind { addr: String },
    /// Data for a connection opened on the server's side.
    RemoteStreamData { reference: u64, data: Vec<u8> },
    /// Data for a connection opened on the client's side.
    LocalStreamData { reference: u64, data: Vec<u8> },
    /// A connection arrived at a remote listener.
    BindConnectionAccepted { reference: u64 },
    /// Open a tunnel (tap or tun) device.
    TunnelRequest { tap: bool, name: String },
    /// A packet for a tunnel.
    TunnelData { reference: u64, data: Vec<u8> },
    /// Are you there?
    Ping {},
    /// Yes.
    Pong {},
    /// Complete a partial path.
    ResolvePathRequest { path: String },
    /// Completions of a partial path.
    ResolvePathAnswers { reference: u64, complete: bool, answers: Vec<String> },
    /// Describe a file.
    StatRequest { path: String },
    /// A description of a file.
    StatResult {
        reference: u64,
        len: u64,
        is_dir: bool,
        is_file: bool,
        owner: String,
        group: String,
        octal_permissions: u16,
        atime: Option<std::time::SystemTime>,
        mtime: Option<std::time::SystemTime>,
        ctime: Option<std::time::SystemTime>,
    },
    /// List a directory.
    ReadDir { path: String },
    /// The entries of a directory.
    ReadDirResult { reference: u64, complete: bool, answers: Vec<String> },
}

} // verus!

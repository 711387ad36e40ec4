//! Entry points: how a loaded config is run, the routing of packets that
//! arrive at a running instance, and the hooks run on exit.

use vstd::prelude::*;
use vstd::string::*;
use crate::config::{Config, ConfigView, Mode};

verus! {

/// The address a server listens on.
pub open spec fn server_bind_address() -> Seq<char> {
    "127.0.0.1:2600"@
}

/// How an instance starts.
#[derive(Debug)]
pub enum Launch {
    /// Listen for packets on a UDP address; the instance runs with `config`.
    Server { bind: String, config: Config },
    /// Open a Noise IK session to a destination with the given keys; the
    /// instance runs with `config`.
    Client { destination: String, local_private_key: Vec<u8>, remote_public_key: Vec<u8>, config: Config },
}

/// Whether a config can be run: it has a mode that can start an instance,
/// and a client has its destination and keys.
pub open spec fn runnable(c: ConfigView) -> bool {
    match c.mode {
        Some(Mode::Server) => true,
        Some(Mode::Client) => c.destination is Some && c.local_private_key is Some && c.remote_public_key is Some,
        _ => false,
    }
}

/// The config an instance runs with.
pub open spec fn launch_config(r: Launch) -> ConfigView {
    match r {
        Launch::Server { config, .. } => config@,
        Launch::Client { config, .. } => config@,
    }
}

/// How a config starts: the instance runs with the whole config; a server
/// listens on its address; a client connects to its destination with its
/// private key and the server's public key.
pub open spec fn launched_as(c: ConfigView, r: Launch) -> bool {
    &&& launch_config(r) == c
    &&& c.mode == Some(Mode::Server) ==> (r matches Launch::Server { bind, .. } && bind@ == server_bind_address())
    &&& c.mode == Some(Mode::Client) ==> (r matches Launch::Client { destination, local_private_key, remote_public_key, .. }
        && Some(destination@) == c.destination && Some(local_private_key@) == c.local_private_key
        && Some(remote_public_key@) == c.remote_public_key)
}

/// Decides how a loaded config is run (see `launched_as`).
pub fn run_config(config: &Config) -> (r: Launch)
    requires
        runnable(config@),
    ensures
        launched_as(config@, r),
{
    match config.mode {
        Some(Mode::Client) => {
            let destination = match &config.destination {
                Some(d) => d.clone(),
                None => String::new(),
            };
            let local_private_key = match &config.local_private_key {
                Some(k) => {
                    let c = k.clone();
                    assert(c@ =~= k@);
                    c
                },
                None => Vec::new(),
            };
            let remote_public_key = match &config.remote_public_key {
                Some(k) => {
                    let c = k.clone();
                    assert(c@ =~= k@);
                    c
                },
                None => Vec::new(),
            };
            Launch::Client { destination, local_private_key, remote_public_key, config: config.clone() }
        },
        _ => Launch::Server { bind: String::from_str("127.0.0.1:2600"), config: config.clone() },
    }
}

/// The config the command line asks for: a mode or destination given on
/// the command line wins over the loaded file's; everything else is the
/// file's.
pub open spec fn args_config(mode: Option<Mode>, destination: Option<Seq<char>>, file: ConfigView) -> ConfigView {
    ConfigView {
        mode: if mode is Some {
            mode
        } else {
            file.mode
        },
        outer_key: file.outer_key,
        destination: if destination is Some {
            destination
        } else {
            file.destination
        },
        remote_public_key: file.remote_public_key,
        local_private_key: file.local_private_key,
    }
}

/// Integrates the mode and destination given on the command line into a
/// loaded config.
pub fn args_to_config(mode: Option<Mode>, destination: Option<&str>, file: Config) -> (r: Config)
    ensures
        r@ == args_config(
            mode,
            match destination {
                Some(d) => Some(d@),
                None => None,
            },
            file@,
        ),
{
    let mut c = file;
    if mode.is_some() {
        c.mode = mode;
    }
    match destination {
        Some(d) => {
            c.destination = Some(d.to_owned());
        },
        None => {},
    }
    c
}

/// How the command line starts an instance from a loaded file: with the
/// file's config, the command line's mode and destination integrated; in the
/// mode given on the command line, else the file's; a server listens on its
/// address; a client connects to the destination given on the command
/// line, else the file's, with the file's keys.
pub open spec fn args_launch(mode: Option<Mode>, destination: Option<Seq<char>>, file: ConfigView, r: Launch) -> bool {
    let m = if mode is Some {
        mode
    } else {
        file.mode
    };
    let d = if destination is Some {
        destination
    } else {
        file.destination
    };
    &&& launch_config(r) == args_config(mode, destination, file)
    &&& m == Some(Mode::Server) ==> (r matches Launch::Server { bind, .. } && bind@ == server_bind_address())
    &&& m == Some(Mode::Client) ==> (r matches Launch::Client { destination, local_private_key, remote_public_key, .. }
        && Some(destination@) == d && Some(local_private_key@) == file.local_private_key
        && Some(remote_public_key@) == file.remote_public_key)
}

/// Running from the command line is running the config it asks for: the
/// loaded file with the command line's mode and destination integrated
/// (`args_config`), started as `run_config` starts a config.
pub proof fn law_run_args_runs_merged_config(mode: Option<Mode>, destination: Option<Seq<char>>, file: ConfigView, r: Launch)
    ensures
        args_launch(mode, destination, file, r) == launched_as(args_config(mode, destination, file), r),
{
}

/// Decides how the config the command line asks for is run (see
/// `args_launch`).
pub fn run_args(mode: Option<Mode>, destination: Option<&str>, file: Config) -> (r: Launch)
    requires
        runnable(
            args_config(
                mode,
                match destination {
                    Some(d) => Some(d@),
                    None => None,
                },
                file@,
            ),
        ),
    ensures
        args_launch(
            mode,
            match destination {
                Some(d) => Some(d@),
                None => None,
            },
            file@,
            r,
        ),
{
    let config = args_to_config(mode, destination, file);
    let r = run_config(&config);
    proof {
        law_run_args_runs_merged_config(
            mode,
            match destination {
                Some(d) => Some(d@),
                None => None,
            },
            file@,
            r,
        );
    }
    r
}

/// The size of a packet between the layers of encryption.
pub const MID_PACKET_SIZE: usize = 296;

/// The size of a packet on the wire: a 24-byte nonce, the sealed inner
/// packet and its 16-byte tag.
pub const OUTER_PACKET_SIZE: usize = 336;

/// Where an inner packet goes.
#[derive(Clone, Copy, Debug, PartialEq, Eq, Structural)]
pub enum Route {
    /// Conversation 0: start a new conversation.
    NewConversation,
    /// A known conversation: hand the packet to it.
    Dispatch { conversation: u64 },
    /// An unknown conversation: drop the packet with a warning.
    Unknown { conversation: u64 },
    /// A client feeds every packet to its session.
    Session,
}

/// The little-endian value of the first eight bytes.
pub open spec fn le64(b: Seq<u8>) -> int {
    b[0] as int + 256 * (b[1] as int + 256 * (b[2] as int + 256 * (b[3] as int + 256 * (b[4] as int + 256 * (
    b[5] as int + 256 * (b[6] as int + 256 * b[7] as int))))))
}

/// The conversation an inner packet belongs to: its first eight bytes,
/// little-endian.
pub fn conversation_id(mid: &[u8]) -> (r: u64)
    requires
        mid@.len() >= 8,
    ensures
        r as int == le64(mid@),
{
    let t7 = mid[7] as u64;
    let t6 = mid[6] as u64 + 256 * t7;
    let t5 = mid[5] as u64 + 256 * t6;
    let t4 = mid[4] as u64 + 256 * t5;
    let t3 = mid[3] as u64 + 256 * t4;
    let t2 = mid[2] as u64 + 256 * t3;
    let t1 = mid[1] as u64 + 256 * t2;
    mid[0] as u64 + 256 * t1
}

/// The server's and the client's handling of an inner packet. A server
/// routes by conversation; `known` says whether the packet's conversation is
/// one the server has.
pub fn route_mid_packet(mode: Mode, mid: &[u8], known: bool) -> (r: Route)
    requires
        mode != Mode::ServerConnection,
        mode == Mode::Server ==> mid@.len() >= 8,
    ensures
        mode == Mode::Client ==> r == Route::Session,
        mode == Mode::Server ==> r == (if le64(mid@) == 0 {
            Route::NewConversation
        } else if known {
            Route::Dispatch { conversation: le64(mid@) as u64 }
        } else {
            Route::Unknown { conversation: le64(mid@) as u64 }
        }),
{
    match mode {
        Mode::Server => {
            let id = conversation_id(mid);
            if id == 0 {
                Route::NewConversation
            } else if known {
                Route::Dispatch { conversation: id }
            } else {
                Route::Unknown { conversation: id }
            }
        },
        _ => Route::Session,
    }
}

/// Hooks to run when the program exits, in the order they were pushed.
pub struct ExitHooks<T> {
    hooks: Vec<T>,
}

impl<T> ExitHooks<T> {
    /// The hooks, in order.
    pub closed spec fn hooks_view(&self) -> Seq<T> {
        self.hooks@
    }

    /// No hooks.
    pub fn new() -> (r: ExitHooks<T>)
        ensures
            r.hooks_view().len() == 0,
    {
        ExitHooks { hooks: Vec::new() }
    }

    /// Registers a hook to run on exit.
    pub fn push_hook(&mut self, callback: T)
        ensures
            final(self).hooks_view() == old(self).hooks_view().push(callback),
    {
        self.hooks.push(callback);
    }

    /// Takes the hooks out to be run, in order; none are left.
    pub fn take_hooks(&mut self) -> (r: Vec<T>)
        ensures
            r@ == old(self).hooks_view(),
            final(self).hooks_view().len() == 0,
    {
        let mut taken: Vec<T> = Vec::new();
        core::mem::swap(&mut taken, &mut self.hooks);
        taken
    }
}

} // verus!

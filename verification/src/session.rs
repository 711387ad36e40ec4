//! Decisions around a connection's session: admitting a client after the
//! first handshake message, what a server process keeps of its
//! environment, what a terminal runs, and where knocks for a hop go.

use vstd::prelude::*;
use vstd::string::*;
use crate::conf::{Conf, RunMode, first_named, peer_list, text_lt};
use crate::keys::{get_peer_for_public_key, pubkey_matches};
use crate::metacommand::{file_name_of, path_file_name};
use crate::util::{append_dec, dec};
use crate::value::str_eq;

verus! {

/// Why a client is refused after its first handshake message.
#[derive(Clone, Copy, Debug, PartialEq, Eq, Structural)]
pub enum AdmitError {
    /// No configured client has the public key it presented.
    UnknownPublicKey,
    /// The client has no pre-shared key.
    NoPsk,
    /// The client's pre-shared key is not 32 bytes long.
    InvalidPsk,
}

/// The client whose key was presented, if one is configured: the first in
/// name order among those with that key.
pub open spec fn client_for_key(c: crate::conf::ConfView, name: Seq<char>, key: Seq<u8>) -> bool {
    &&& first_named(peer_list(c.server, "clients"@), name) is Some
    &&& pubkey_matches(c, name, key)
    &&& forall|m: Seq<char>|
        #![trigger first_named(peer_list(c.server, "clients"@), m)]
        first_named(peer_list(c.server, "clients"@), m) is Some && pubkey_matches(c, m, key) ==> m == name || text_lt(
            name,
            m,
        )
}

/// Admits a client by the public key it presented: finds the configured
/// client with that key and its 32-byte pre-shared key.
pub fn admit_client(conf: &Conf, public_key: &[u8]) -> (r: Result<(String, Vec<u8>), AdmitError>)
    ensures
        match r {
            Ok((name, psk)) => {
                &&& client_for_key(conf@, name@, public_key@)
                &&& conf@.peer_key(RunMode::Server, name@, "psk"@) == Some(psk@)
                &&& psk@.len() == 32
            },
            Err(AdmitError::UnknownPublicKey) => forall|m: Seq<char>|
                #![trigger first_named(peer_list(conf@.server, "clients"@), m)]
                first_named(peer_list(conf@.server, "clients"@), m) is Some ==> !pubkey_matches(conf@, m, public_key@),
            Err(AdmitError::NoPsk) => exists|n: Seq<char>|
                client_for_key(conf@, n, public_key@) && conf@.peer_key(RunMode::Server, n, "psk"@) is None,
            Err(AdmitError::InvalidPsk) => exists|n: Seq<char>|
                client_for_key(conf@, n, public_key@) && (conf@.peer_key(RunMode::Server, n, "psk"@) matches Some(k)
                    && k.len() != 32),
        },
{
    let peer = match get_peer_for_public_key(conf, public_key) {
        Some(p) => p,
        None => return Err(AdmitError::UnknownPublicKey),
    };
    assert(client_for_key(conf@, peer@, public_key@));
    let psk = match conf.peer_static_key(RunMode::Server, peer.as_str()) {
        Some(k) => k,
        None => return Err(AdmitError::NoPsk),
    };
    if psk.len() != 32 {
        return Err(AdmitError::InvalidPsk);
    }
    Ok((peer, psk))
}

/// Whether a server process keeps an environment variable before serving a
/// client.
pub open spec fn env_kept(name: Seq<char>) -> bool {
    ||| name == "LANG"@
    ||| name == "SHELL"@
    ||| name == "HOME"@
    ||| name == "TERM"@
    ||| name == "USER"@
    ||| name == "RUST_BACKTRACE"@
    ||| name == "RUST_LOG"@
    ||| name == "PATH"@
}

/// Whether a server process keeps an environment variable.
pub fn keep_env_var(name: &str) -> (r: bool)
    ensures
        r == env_kept(name@),
{
    str_eq(name, "LANG") || str_eq(name, "SHELL") || str_eq(name, "HOME") || str_eq(name, "TERM") || str_eq(
        name,
        "USER",
    ) || str_eq(name, "RUST_BACKTRACE") || str_eq(name, "RUST_LOG") || str_eq(name, "PATH")
}

/// Whether a server may go on serving: a process running as root must have
/// dropped its privileges.
pub fn may_continue(running_as_root: bool, privileges_dropped: bool) -> (r: bool)
    ensures
        r == (!running_as_root || privileges_dropped),
{
    !running_as_root || privileges_dropped
}

/// The models of some words.
pub open spec fn argv_view(v: Seq<String>) -> Seq<Seq<char>> {
    Seq::new(v.len(), |i: int| v[i]@)
}

/// Whether a word can be passed to a program: it holds no NUL character.
pub open spec fn passable(w: Seq<char>) -> bool {
    !w.contains('\0')
}

/// What a new terminal runs: the requested command; else the multiplexer
/// command, where one is available; else the user's shell as a login shell,
/// named by a dash and the shell's file name. `None` where a word holds a
/// NUL character or the requested command is empty.
pub open spec fn pty_argv_spec(command: Option<Seq<Seq<char>>>, multiplexer: Option<Seq<Seq<char>>>, shell: Seq<char>) -> Option<
    Seq<Seq<char>>,
> {
    match command {
        Some(c) => if c.len() > 0 && (forall|i: int| 0 <= i < c.len() ==> passable(#[trigger] c[i])) {
            Some(c)
        } else {
            None
        },
        None => match multiplexer {
            Some(m) => if m.len() > 0 && (forall|i: int| 0 <= i < m.len() ==> passable(#[trigger] m[i])) {
                Some(m)
            } else {
                None
            },
            None => match path_file_name(shell) {
                Some(f) => if passable(shell) && passable(f) {
                    Some(seq![seq!['-'] + f])
                } else {
                    None
                },
                None => None,
            },
        },
    }
}

fn passable_exec(w: &str) -> (r: bool)
    ensures
        r == passable(w@),
{
    !crate::paths::contains_char(w, '\0')
}

fn all_passable(v: &Vec<String>) -> (r: bool)
    ensures
        r == (forall|i: int| 0 <= i < v@.len() ==> passable(#[trigger] argv_view(v@)[i])),
{
    let mut i: usize = 0;
    while i < v.len()
        invariant
            i <= v@.len(),
            forall|j: int| 0 <= j < i ==> passable(#[trigger] argv_view(v@)[j]),
        decreases v.len() - i,
    {
        if !passable_exec(v[i].as_str()) {
            assert(!passable(argv_view(v@)[i as int]));
            return false;
        }
        i = i + 1;
    }
    true
}

/// The words a new terminal runs: the requested command, else the
/// multiplexer command (`multiplexer`, where a multiplexer is available and
/// wanted), else the shell as a login shell, whose single word is its name
/// after a dash (`-bash`); the program then run is `shell` itself.
pub fn pty_argv(command: Option<Vec<String>>, multiplexer: Option<Vec<String>>, shell: &str) -> (r: Option<Vec<String>>)
    ensures
        match r {
            Some(v) => pty_argv_spec(
                match command {
                    Some(c) => Some(argv_view(c@)),
                    None => None,
                },
                match multiplexer {
                    Some(m) => Some(argv_view(m@)),
                    None => None,
                },
                shell@,
            ) == Some(argv_view(v@)),
            None => pty_argv_spec(
                match command {
                    Some(c) => Some(argv_view(c@)),
                    None => None,
                },
                match multiplexer {
                    Some(m) => Some(argv_view(m@)),
                    None => None,
                },
                shell@,
            ) is None,
        },
{
    match command {
        Some(c) => {
            if c.len() > 0 && all_passable(&c) {
                Some(c)
            } else {
                None
            }
        },
        None => match multiplexer {
            Some(m) => {
                if m.len() > 0 && all_passable(&m) {
                    Some(m)
                } else {
                    None
                }
            },
            None => {
                let f = match file_name_of(shell) {
                    Some(f) => f,
                    None => return None,
                };
                if !passable_exec(shell) || !passable_exec(f.as_str()) {
                    return None;
                }
                let mut login = String::from_str("-");
                login.append(f.as_str());
                proof {
                    reveal_strlit("-");
                }
                assert(login@ =~= seq!['-'] + f@);
                let mut v: Vec<String> = Vec::new();
                v.push(login);
                assert(argv_view(v@) =~= seq![seq!['-'] + f@]);
                Some(v)
            },
        },
    }
}

/// The address a knock for a hop goes to: host, colon, port.
pub open spec fn knock_destination_spec(host: Seq<char>, port: u16) -> Seq<char> {
    host + ":"@ + dec(port as nat)
}

/// The address a knock for a hop goes to.
pub fn knock_destination(host: &str, port: u16) -> (r: String)
    ensures
        r@ == knock_destination_spec(host@, port),
{
    let mut s = host.to_owned();
    s.append(":");
    append_dec(&mut s, port as u64);
    s
}

/// Why a client cannot start its handshake.
#[derive(Clone, Copy, Debug, PartialEq, Eq, Structural)]
pub enum HandshakeKeyError {
    /// No private key is configured.
    NoPrivateKey,
    /// No pre-shared key is configured.
    NoPsk,
    /// The server's public key is not configured.
    NoPeerPublicKey,
}

/// The keys a client starts its handshake with: its private key, the
/// pre-shared key, and the server's public key (a server's own entries
/// first, the client's defaults after).
pub fn client_handshake_keys(conf: &Conf, peer: Option<&str>) -> (r: Result<(Vec<u8>, Vec<u8>, Vec<u8>), HandshakeKeyError>)
    ensures
        ({
            let p = crate::value::opt_str_view(peer);
            let k = conf@.key_with_fallback(RunMode::Client, p, "privkey"@);
            let s = conf@.key_with_fallback(RunMode::Client, p, "psk"@);
            let pk = match p {
                Some(x) => conf@.peer_key(RunMode::Client, x, "pubkey"@),
                None => None,
            };
            match r {
                Ok((a, b, c)) => k == Some(a@) && s == Some(b@) && pk == Some(c@),
                Err(HandshakeKeyError::NoPrivateKey) => k is None,
                Err(HandshakeKeyError::NoPsk) => k is Some && s is None,
                Err(HandshakeKeyError::NoPeerPublicKey) => k is Some && s is Some && pk is None,
            }
        }),
{
    let privkey = match conf.asymmetric_key(RunMode::Client, peer) {
        Some(k) => k,
        None => return Err(HandshakeKeyError::NoPrivateKey),
    };
    let psk = match conf.static_key(RunMode::Client, peer) {
        Some(k) => k,
        None => return Err(HandshakeKeyError::NoPsk),
    };
    let peer_public_key = match conf.public_key(RunMode::Client, peer) {
        Some(k) => k,
        None => return Err(HandshakeKeyError::NoPeerPublicKey),
    };
    Ok((privkey, psk, peer_public_key))
}

/// The words of the multiplexer command, where one is set and can be split
/// like a shell line into at least one word.
pub open spec fn multiplexer_spec(setting: Option<Seq<char>>) -> Option<Seq<Seq<char>>> {
    match setting {
        None => None,
        Some(s) => match crate::metacommand::shell_words(s) {
            Some(w) => if w.len() > 0 {
                Some(w)
            } else {
                None
            },
            None => None,
        },
    }
}

/// The words of the multiplexer command. Whether its program exists is for
/// the caller to see.
pub fn multiplexer_command(setting: Option<&str>) -> (r: Option<Vec<String>>)
    ensures
        match r {
            Some(v) => multiplexer_spec(crate::value::opt_str_view(setting)) == Some(argv_view(v@)),
            None => multiplexer_spec(crate::value::opt_str_view(setting)) is None,
        },
{
    let s = setting?;
    let words = match crate::metacommand::split_words(s) {
        Some(w) => w,
        None => return None,
    };
    assert(crate::metacommand::words_view(words@) =~= argv_view(words@));
    if words.len() == 0 {
        return None;
    }
    Some(words)
}

/// The order connections are made through intermediate servers: the last
/// hop first, each later one through the one before, and the destination
/// last.
pub open spec fn chain_spec(hops: Seq<Seq<char>>, destination: Seq<char>) -> Seq<Seq<char>> {
    hops.reverse().push(destination)
}

/// The order connections are made through intermediate servers.
pub fn connection_chain(hops: &Vec<String>, destination: &str) -> (r: Vec<String>)
    ensures
        argv_view(r@) == chain_spec(argv_view(hops@), destination@),
{
    let ghost h = argv_view(hops@);
    let mut r: Vec<String> = Vec::new();
    let mut i: usize = hops.len();
    while i > 0
        invariant
            i <= hops@.len(),
            h == argv_view(hops@),
            argv_view(r@) == h.subrange(i as int, h.len() as int).reverse(),
        decreases i,
    {
        i = i - 1;
        let ghost before = argv_view(r@);
        r.push(hops[i].clone());
        assert(argv_view(r@) =~= before.push(h[i as int]));
        assert(h.subrange(i as int, h.len() as int).reverse() =~= h.subrange(i + 1, h.len() as int).reverse().push(h[i as int]));
    }
    let ghost before = argv_view(r@);
    r.push(destination.to_owned());
    assert(argv_view(r@) =~= before.push(destination@));
    assert(h.subrange(0, h.len() as int) =~= h);
    r
}

/// The last space-separated word of a text.
pub open spec fn last_word(s: Seq<char>) -> Seq<char>
    decreases s.len(),
{
    if s.len() == 0 {
        s
    } else if s.last() == ' ' {
        Seq::empty()
    } else {
        last_word(s.drop_last()).push(s.last())
    }
}

/// The cookie in what `xauth list` prints: its last space-separated word.
pub fn xauth_cookie(output: &str) -> (r: String)
    ensures
        r@ == last_word(output@),
{
    let n = output.unicode_len();
    let mut start: usize = n;
    assert(output@.take(n as int) =~= output@);
    assert(output@.subrange(n as int, n as int) =~= Seq::<char>::empty());
    assert(last_word(output@) + Seq::<char>::empty() =~= last_word(output@));
    while start > 0 && output.get_char(start - 1) != ' '
        invariant
            start <= n,
            n == output@.len(),
            last_word(output@) == last_word(output@.take(start as int)) + output@.subrange(start as int, n as int),
        decreases start,
    {
        assert(output@.take(start as int).drop_last() =~= output@.take(start - 1));
        assert(output@.take(start as int).last() == output@[start - 1]);
        assert(output@.subrange(start - 1, n as int) =~= seq![output@[start - 1]] + output@.subrange(start as int, n as int));
        assert(last_word(output@.take(start - 1)).push(output@[start - 1]) + output@.subrange(start as int, n as int)
            =~= last_word(output@.take(start - 1)) + output@.subrange(start - 1, n as int));
        start = start - 1;
    }
    proof {
        if start > 0 {
            assert(output@.take(start as int).last() == output@[start - 1]);
        }
        assert(last_word(output@.take(start as int)) =~= Seq::<char>::empty());
    }
    let r = output.substring_char(start, n);
    assert(r@ =~= last_word(output@));
    r.to_owned()
}

/// How long without a word from the peer before a connection is given up,
/// in seconds.
pub const KEEPALIVE_TIMEOUT: u64 = 180;

/// What the keepalive timer does: give up after three minutes of silence,
/// else ping.
pub fn keepalive_expired(silent_seconds: u64) -> (r: bool)
    ensures
        r == (silent_seconds > KEEPALIVE_TIMEOUT),
{
    silent_seconds > KEEPALIVE_TIMEOUT
}

/// The file a copy source names on its server: what comes after its first
/// colon.
pub fn copy_source_file(source: &str) -> (r: Option<String>)
    ensures
        match crate::transfer::after(source@, ':') {
            Some(a) => r matches Some(x) && x@ == a,
            None => r is None,
        },
{
    let n = source.unicode_len();
    let mut i: usize = 0;
    assert(source@.skip(0) =~= source@);
    while i < n
        invariant
            i <= n,
            n == source@.len(),
            crate::metacommand::first_index(source@, ':') == (match crate::metacommand::first_index(source@.skip(i as int), ':') {
                Some(k) => Some(k + i),
                None => None,
            }),
        decreases n - i,
    {
        assert(source@.skip(i as int).drop_first() =~= source@.skip(i + 1));
        if source.get_char(i) == ':' {
            let r = source.substring_char(i + 1, n);
            assert(r@ =~= source@.skip(i + 1));
            return Some(r.to_owned());
        }
        i = i + 1;
    }
    None
}

/// Message numbers for one direction of a connection, counted from 0.
pub struct MessageCounter {
    pub next: u64,
}

impl MessageCounter {
    /// A counter at 0.
    pub fn new() -> (r: MessageCounter)
        ensures
            r.next == 0,
    {
        MessageCounter { next: 0 }
    }

    /// Takes the next message number.
    pub fn tick(&mut self) -> (r: u64)
        requires
            old(self).next < u64::MAX,
        ensures
            r == old(self).next,
            final(self).next == old(self).next + 1,
    {
        let n = self.next;
        self.next = n + 1;
        n
    }
}

/// What a received signal calls for.
#[derive(Clone, Copy, Debug, PartialEq, Eq, Structural)]
pub enum SignalAction {
    /// Tell the server the terminal's new size.
    AdvertiseSize,
    /// Collect the terminal's process, reporting its exit.
    ReapPty,
    /// Nothing.
    Ignore,
}

/// What a received signal calls for: a resized terminal matters to a client
/// with a terminal display, an exited child to a server with a terminal.
pub fn signal_action(name: &str, side: crate::handler::Side, has_ui: bool, has_pty: bool) -> (r: SignalAction)
    ensures
        name@ == "SIGWINCH"@ ==> r == (if side == crate::handler::Side::Alice && has_ui {
            SignalAction::AdvertiseSize
        } else {
            SignalAction::Ignore
        }),
        name@ == "SIGCHLD"@ ==> r == (if has_pty {
            SignalAction::ReapPty
        } else {
            SignalAction::Ignore
        }),
        name@ != "SIGWINCH"@ && name@ != "SIGCHLD"@ ==> r == SignalAction::Ignore,
{
    proof {
        reveal_strlit("SIGWINCH");
        reveal_strlit("SIGCHLD");
        assert("SIGWINCH"@.len() != "SIGCHLD"@.len());
    }
    if str_eq(name, "SIGWINCH") {
        if side == crate::handler::Side::Alice && has_ui {
            SignalAction::AdvertiseSize
        } else {
            SignalAction::Ignore
        }
    } else if str_eq(name, "SIGCHLD") {
        if has_pty {
            SignalAction::ReapPty
        } else {
            SignalAction::Ignore
        }
    } else {
        SignalAction::Ignore
    }
}

/// The prompt command a copy source runs once connected: download the file
/// its location names, into nowhere, so that its data flows to the copy.
/// `None` where the location has no colon.
pub fn copy_download_command(source: &str) -> (r: Option<Vec<String>>)
    ensures
        match crate::transfer::after(source@, ':') {
            Some(f) => r matches Some(v) && argv_view(v@) == seq!["download"@, f, "/dev/null"@],
            None => r is None,
        },
{
    let file = copy_source_file(source)?;
    let mut v: Vec<String> = Vec::new();
    v.push(String::from_str("download"));
    v.push(file);
    v.push(String::from_str("/dev/null"));
    assert(argv_view(v@) =~= seq!["download"@, v@[1]@, "/dev/null"@]);
    Some(v)
}

/// The largest piece of local input forwarded to a remote command at once.
pub const STDIN_CHUNK: usize = 8192;

/// What to do with the input waiting for a remote command.
#[derive(Clone, Copy, Debug, PartialEq, Eq, Structural)]
pub enum StdinStep {
    /// Nothing now.
    Wait,
    /// Forward the next `len` bytes; `finished` where the input has ended
    /// and this (empty) piece tells the remote command so, after which the
    /// input is let go.
    Forward { len: usize, finished: bool },
}

/// What waiting input for a remote command calls for: nothing while the
/// connection has no room, without an input, or with nothing new on an open
/// input; otherwise the waiting bytes, at most `STDIN_CHUNK` of them, and an
/// empty last piece once a closed input is drained.
pub fn stdin_step(write_space: bool, has_input: bool, closed: bool, available: usize) -> (r: StdinStep)
    ensures
        !write_space || !has_input ==> r == StdinStep::Wait,
        write_space && has_input ==> r == (if available == 0 && !closed {
            StdinStep::Wait
        } else {
            StdinStep::Forward {
                len: if available > STDIN_CHUNK { STDIN_CHUNK } else { available },
                finished: closed && available == 0,
            }
        }),
{
    if !write_space || !has_input {
        return StdinStep::Wait;
    }
    let len = if available > STDIN_CHUNK { STDIN_CHUNK } else { available };
    if len == 0 && !closed {
        StdinStep::Wait
    } else {
        StdinStep::Forward { len, finished: closed && len == 0 }
    }
}

/// Whether a session asks its peer for compression: only where it was asked
/// for, and not from a daemon relaying other traffic, unless it copies files.
pub fn wants_compression(requested: bool, is_daemon: bool, mode: &str) -> (r: bool)
    ensures
        r == (requested && (!is_daemon || mode@ == "copy"@)),
{
    requested && (!is_daemon || str_eq(mode, "copy"))
}

/// The prompt command a client starts once authenticated: a terminal
/// (running the given command, if any) where it runs interactively, else a
/// pipe to the given command; nothing without one, nor on a server or a
/// daemon.
pub open spec fn post_auth_spec(
    side: crate::handler::Side,
    is_daemon: bool,
    interactive: bool,
    command: Option<Seq<char>>,
) -> Option<Seq<Seq<char>>> {
    if side != crate::handler::Side::Alice || is_daemon {
        None
    } else if interactive {
        match command {
            Some(c) => Some(seq!["pty"@, c]),
            None => Some(seq!["pty"@]),
        }
    } else {
        match command {
            Some(c) => Some(seq!["pipe"@, c]),
            None => None,
        }
    }
}

/// The prompt command a client starts once authenticated (see
/// `post_auth_spec`).
pub fn post_auth_command(
    side: crate::handler::Side,
    is_daemon: bool,
    interactive: bool,
    command: Option<&str>,
) -> (r: Option<Vec<String>>)
    ensures
        match r {
            Some(v) => post_auth_spec(side, is_daemon, interactive, crate::value::opt_str_view(command))
                == Some(argv_view(v@)),
            None => post_auth_spec(side, is_daemon, interactive, crate::value::opt_str_view(command)) is None,
        },
{
    if side != crate::handler::Side::Alice || is_daemon {
        return None;
    }
    let mut v: Vec<String> = Vec::new();
    if interactive {
        v.push(String::from_str("pty"));
        match command {
            Some(c) => {
                v.push(c.to_string());
                assert(argv_view(v@) =~= seq!["pty"@, c@]);
            },
            None => {
                assert(argv_view(v@) =~= seq!["pty"@]);
            },
        }
        Some(v)
    } else {
        match command {
            Some(c) => {
                v.push(String::from_str("pipe"));
                v.push(c.to_string());
                assert(argv_view(v@) =~= seq!["pipe"@, c@]);
                Some(v)
            },
            None => None,
        }
    }
}

/// The models of a list of commands.
pub open spec fn commands_view(v: Seq<Vec<String>>) -> Seq<Seq<Seq<char>>> {
    Seq::new(v.len(), |i: int| argv_view(v[i]@))
}

/// A two-word command per value: the tag, then the value.
pub open spec fn tagged(tag: Seq<char>, vals: Seq<Seq<char>>) -> Seq<Seq<Seq<char>>> {
    Seq::new(vals.len(), |i: int| seq![tag, vals[i]])
}

/// Each line split into words the way a shell would; `None` where one of
/// them does not split.
pub open spec fn split_lines(lines: Seq<Seq<char>>) -> Option<Seq<Seq<Seq<char>>>>
    decreases lines.len(),
{
    if lines.len() == 0 {
        Some(Seq::empty())
    } else {
        match split_lines(lines.drop_last()) {
            Some(a) => match crate::metacommand::shell_words(lines.last()) {
                Some(w) => Some(a.push(w)),
                None => None,
            },
            None => None,
        }
    }
}

/// The prompt commands a client runs once connected, in order: each line
/// given to run, split into words; then a local forward (`L`) per local
/// forward given, a remote forward (`R`) per remote forward and a SOCKS
/// proxy (`D`) per proxy port. `None` where a line does not split.
pub open spec fn batched_spec(
    lines: Seq<Seq<char>>,
    local: Seq<Seq<char>>,
    remote: Seq<Seq<char>>,
    socks: Seq<Seq<char>>,
) -> Option<Seq<Seq<Seq<char>>>> {
    match split_lines(lines) {
        Some(a) => Some(a + tagged("L"@, local) + tagged("R"@, remote) + tagged("D"@, socks)),
        None => None,
    }
}

/// Appends a two-word command per value: the tag, then the value.
fn push_tagged(out: &mut Vec<Vec<String>>, tag: &str, vals: &Vec<String>)
    ensures
        commands_view(final(out)@) == commands_view(old(out)@) + tagged(tag@, argv_view(vals@)),
{
    let ghost start = commands_view(out@);
    let mut i: usize = 0;
    while i < vals.len()
        invariant
            i <= vals@.len(),
            commands_view(out@) == start + tagged(tag@, argv_view(vals@).take(i as int)),
        decreases vals@.len() - i,
    {
        let mut c: Vec<String> = Vec::new();
        c.push(tag.to_string());
        c.push(vals[i].clone());
        assert(argv_view(c@) =~= seq![tag@, vals@[i as int]@]);
        let ghost before = commands_view(out@);
        out.push(c);
        assert(commands_view(out@) =~= before.push(argv_view(c@)));
        assert(tagged(tag@, argv_view(vals@).take(i + 1)) =~= tagged(tag@, argv_view(vals@).take(i as int)).push(
            seq![tag@, vals@[i as int]@],
        ));
        i = i + 1;
    }
    assert(argv_view(vals@).take(vals@.len() as int) =~= argv_view(vals@));
}

/// The prompt commands a client runs once connected (see `batched_spec`).
pub fn batched_commands(
    lines: &Vec<String>,
    local: &Vec<String>,
    remote: &Vec<String>,
    socks: &Vec<String>,
) -> (r: Option<Vec<Vec<String>>>)
    ensures
        match r {
            Some(v) => batched_spec(argv_view(lines@), argv_view(local@), argv_view(remote@), argv_view(socks@))
                == Some(commands_view(v@)),
            None => batched_spec(argv_view(lines@), argv_view(local@), argv_view(remote@), argv_view(socks@))
                is None,
        },
{
    let ghost ls = argv_view(lines@);
    let mut out: Vec<Vec<String>> = Vec::new();
    let mut i: usize = 0;
    while i < lines.len()
        invariant
            i <= lines@.len(),
            ls == argv_view(lines@),
            split_lines(ls.take(i as int)) == Some(commands_view(out@)),
        decreases lines@.len() - i,
    {
        assert(ls.take(i + 1).drop_last() =~= ls.take(i as int));
        assert(ls.take(i + 1).last() == lines@[i as int]@);
        match crate::metacommand::split_words(lines[i].as_str()) {
            Some(words) => {
                let ghost before = commands_view(out@);
                out.push(words);
                assert(crate::metacommand::words_view(words@) =~= argv_view(words@));
                assert(commands_view(out@) =~= before.push(argv_view(words@)));
            },
            None => {
                assert(split_lines(ls) is None) by {
                    lemma_split_lines_prefix(ls, i as int + 1);
                }
                return None;
            },
        }
        i = i + 1;
    }
    assert(ls.take(lines@.len() as int) =~= ls);
    push_tagged(&mut out, "L", local);
    push_tagged(&mut out, "R", remote);
    push_tagged(&mut out, "D", socks);
    Some(out)
}

/// A list of lines does not split where a prefix of it does not.
proof fn lemma_split_lines_prefix(lines: Seq<Seq<char>>, n: int)
    requires
        0 <= n <= lines.len(),
        split_lines(lines.take(n)) is None,
    ensures
        split_lines(lines) is None,
    decreases lines.len() - n,
{
    if n < lines.len() {
        assert(lines.take(n + 1).drop_last() =~= lines.take(n));
        lemma_split_lines_prefix(lines, n + 1);
    } else {
        assert(lines.take(n) =~= lines);
    }
}

} // verus!

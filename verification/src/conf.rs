//! The server and client configuration files: lookups of keys, knock
//! secrets, ports and per-peer settings.
//!
//! A server configuration holds its own keys and a `clients` array of tables,
//! each naming a client; a client configuration holds a `servers` array of
//! tables, each naming a server.

use vstd::prelude::*;
use vstd::string::*;
use crate::base32::{decode_spec, decode_text};
use crate::util::{dec, append_dec, parse_u16, parse_u16_spec};
use crate::value::{TomlValue, TomlSpec, values_view, opt_view, opt_str_view, opt_string_view, opt_bytes_view, str_eq};

verus! {

/// The subcommand an instance was started with, as far as configuration
/// lookups care.
#[derive(Clone, Copy, Debug, PartialEq, Eq, Structural)]
pub enum RunMode {
    Server,
    ServeOne,
    ReverseServer,
    Client,
    Copy,
    ReverseClient,
    Other,
}

/// The run mode that a subcommand name stands for.
pub open spec fn run_mode_spec(name: Seq<char>) -> RunMode {
    if name == "server"@ {
        RunMode::Server
    } else if name == "serve-one"@ {
        RunMode::ServeOne
    } else if name == "reverse-server"@ {
        RunMode::ReverseServer
    } else if name == "client"@ {
        RunMode::Client
    } else if name == "copy"@ {
        RunMode::Copy
    } else if name == "reverse-client"@ {
        RunMode::ReverseClient
    } else {
        RunMode::Other
    }
}

impl RunMode {
    /// The run mode for a subcommand name.
    pub fn from_name(name: &str) -> (r: RunMode)
        ensures
            r == run_mode_spec(name@),
    {
        if str_eq(name, "server") {
            RunMode::Server
        } else if str_eq(name, "serve-one") {
            RunMode::ServeOne
        } else if str_eq(name, "reverse-server") {
            RunMode::ReverseServer
        } else if str_eq(name, "client") {
            RunMode::Client
        } else if str_eq(name, "copy") {
            RunMode::Copy
        } else if str_eq(name, "reverse-client") {
            RunMode::ReverseClient
        } else {
            RunMode::Other
        }
    }

    /// Modes that read the server configuration (and its clients).
    pub open spec fn server_side(self) -> bool {
        self == RunMode::Server || self == RunMode::ServeOne || self == RunMode::ReverseServer
    }

    /// Modes that read the client configuration (and its servers).
    pub open spec fn client_side(self) -> bool {
        self == RunMode::Client || self == RunMode::Copy || self == RunMode::ReverseClient
    }

    /// Modes whose knock secrets come from the server configuration.
    pub open spec fn knocks_as_server(self) -> bool {
        self == RunMode::Server || self == RunMode::ServeOne
    }

    /// Modes whose knock secrets come from the client configuration.
    pub open spec fn knocks_as_client(self) -> bool {
        self == RunMode::Client || self == RunMode::Copy
    }

    fn is_server_side(self) -> (r: bool)
        ensures
            r == self.server_side(),
    {
        match self {
            RunMode::Server | RunMode::ServeOne | RunMode::ReverseServer => true,
            _ => false,
        }
    }

    fn is_client_side(self) -> (r: bool)
        ensures
            r == self.client_side(),
    {
        match self {
            RunMode::Client | RunMode::Copy | RunMode::ReverseClient => true,
            _ => false,
        }
    }

    /// Which configuration file a mode loads.
    pub fn loads(self) -> (r: ConfSide)
        ensures
            r == (if self.server_side() {
                ConfSide::Server
            } else if self.client_side() {
                ConfSide::Client
            } else {
                ConfSide::Neither
            }),
    {
        if self.is_server_side() {
            ConfSide::Server
        } else if self.is_client_side() {
            ConfSide::Client
        } else {
            ConfSide::Neither
        }
    }
}

/// Which configuration file an instance loads.
#[derive(Clone, Copy, Debug, PartialEq, Eq, Structural)]
pub enum ConfSide {
    Server,
    Client,
    Neither,
}

/// The loaded configuration: the server file and the client file, either
/// of which may be absent.
#[derive(Debug)]
pub struct Conf {
    pub server: Option<TomlValue>,
    pub client: Option<TomlValue>,
}

/// The model of the loaded configuration.
pub struct ConfView {
    pub server: Option<TomlSpec>,
    pub client: Option<TomlSpec>,
}

/// The model of an optional value held by value.
pub open spec fn opt_value_view(v: Option<TomlValue>) -> Option<TomlSpec> {
    match v {
        Some(x) => Some(x@),
        None => None,
    }
}

impl View for Conf {
    type V = ConfView;

    open spec fn view(&self) -> ConfView {
        ConfView { server: opt_value_view(self.server), client: opt_value_view(self.client) }
    }
}

/// Whether a value is a table whose `name` is the given string.
pub open spec fn named(v: TomlSpec, name: Seq<char>) -> bool {
    v.is_table() && v.get_str("name"@) == Some(name)
}

/// The first table in a list that carries the given name.
pub open spec fn first_named(arr: Seq<TomlSpec>, name: Seq<char>) -> Option<TomlSpec>
    decreases arr.len(),
{
    if arr.len() == 0 {
        None
    } else if named(arr[0], name) {
        Some(arr[0])
    } else {
        first_named(arr.drop_first(), name)
    }
}

/// The array stored under `key` in a configuration file, empty when the file
/// is absent, is not a table, or holds no array there.
pub open spec fn peer_list(side: Option<TomlSpec>, key: Seq<char>) -> Seq<TomlSpec> {
    match side {
        Some(v) => match v.get(key) {
            Some(TomlSpec::Array(a)) => a,
            _ => Seq::empty(),
        },
        None => Seq::empty(),
    }
}

/// The table for the client of the given name, from the server file.
pub open spec fn client_spec(c: ConfView, name: Seq<char>) -> Option<TomlSpec> {
    first_named(peer_list(c.server, "clients"@), name)
}

/// The table for the server of the given name, from the client file.
pub open spec fn server_spec(c: ConfView, name: Seq<char>) -> Option<TomlSpec> {
    first_named(peer_list(c.client, "servers"@), name)
}

/// The bytes that the base32 string under `key` decodes to.
pub open spec fn decoded_field(t: Option<TomlSpec>, key: Seq<char>) -> Option<Seq<u8>> {
    match t {
        Some(v) => match v.get_str(key) {
            Some(s) => decode_spec(s),
            None => None,
        },
        None => None,
    }
}

/// The string stored under `key`.
pub open spec fn string_field(t: Option<TomlSpec>, key: Seq<char>) -> Option<Seq<char>> {
    match t {
        Some(v) => v.get_str(key),
        None => None,
    }
}

/// The integer stored under `key`.
pub open spec fn integer_field(t: Option<TomlSpec>, key: Seq<char>) -> Option<i64> {
    match t {
        Some(v) => match v.get(key) {
            Some(x) => x.as_integer(),
            None => None,
        },
        None => None,
    }
}

/// An integer stored under `key`, if there is one, is a valid port number.
pub open spec fn port_field_valid(t: Option<TomlSpec>, key: Seq<char>) -> bool {
    match integer_field(t, key) {
        Some(p) => 0 <= p <= u16::MAX,
        None => true,
    }
}

proof fn lemma_first_named_char(arr: Seq<TomlSpec>, name: Seq<char>, i: int)
    requires
        0 <= i < arr.len(),
        named(arr[i], name),
        forall|j: int| 0 <= j < i ==> !named(#[trigger] arr[j], name),
    ensures
        first_named(arr, name) == Some(arr[i]),
    decreases i,
{
    if i > 0 {
        assert(!named(arr[0], name));
        assert forall|j: int| 0 <= j < i - 1 implies !named(#[trigger] arr.drop_first()[j], name) by {
            assert(arr.drop_first()[j] == arr[j + 1]);
        }
        lemma_first_named_char(arr.drop_first(), name, i - 1);
    }
}

proof fn lemma_first_named_none(arr: Seq<TomlSpec>, name: Seq<char>)
    requires
        forall|j: int| 0 <= j < arr.len() ==> !named(#[trigger] arr[j], name),
    ensures
        first_named(arr, name) is None,
    decreases arr.len(),
{
    if arr.len() > 0 {
        assert(!named(arr[0], name));
        assert forall|j: int| 0 <= j < arr.len() - 1 implies !named(#[trigger] arr.drop_first()[j], name) by {
            assert(arr.drop_first()[j] == arr[j + 1]);
        }
        lemma_first_named_none(arr.drop_first(), name);
    }
}

/// Whether a value is a table whose `name` is the given string.
fn is_named(v: &TomlValue, name: &str) -> (r: bool)
    ensures
        r == named(v@, name@),
{
    if !v.is_table() {
        return false;
    }
    match v.get("name") {
        Some(n) => match n.as_str() {
            Some(s) => str_eq(s, name),
            None => false,
        },
        None => false,
    }
}

/// Finds the first table in a list that carries the given name.
pub fn find_named<'a>(arr: &'a Vec<TomlValue>, name: &str) -> (r: Option<&'a TomlValue>)
    ensures
        opt_view(r) == first_named(values_view(arr@), name@),
{
    let ghost a = values_view(arr@);
    let mut i: usize = 0;
    while i < arr.len()
        invariant
            i <= arr.len(),
            a == values_view(arr@),
            forall|j: int| 0 <= j < i ==> !named(#[trigger] a[j], name@),
        decreases arr.len() - i,
    {
        if is_named(&arr[i], name) {
            proof {
                lemma_first_named_char(a, name@, i as int);
            }
            return Some(&arr[i]);
        }
        i = i + 1;
    }
    proof {
        lemma_first_named_none(a, name@);
    }
    None
}

/// The array stored under `key` in a configuration file.
fn peer_list_exec<'a>(side: &'a Option<TomlValue>, key: &str) -> (r: Option<&'a Vec<TomlValue>>)
    ensures
        r matches Some(a) ==> peer_list(opt_value_view(*side), key@) == values_view(a@),
        r is None ==> peer_list(opt_value_view(*side), key@) == Seq::<TomlSpec>::empty(),
{
    match side {
        Some(v) => match v.get(key) {
            Some(x) => x.as_array(),
            None => None,
        },
        None => None,
    }
}

/// Reads and decodes the base32 string under `key`.
fn decoded_field_exec(t: Option<&TomlValue>, key: &str) -> (r: Option<Vec<u8>>)
    ensures
        opt_bytes_view(r) == decoded_field(opt_view(t), key@),
{
    match t {
        Some(v) => match v.get(key) {
            Some(x) => match x.as_str() {
                Some(s) => decode_text(s),
                None => None,
            },
            None => None,
        },
        None => None,
    }
}

/// Reads the string under `key`.
fn string_field_exec(t: Option<&TomlValue>, key: &str) -> (r: Option<String>)
    ensures
        opt_string_view(r) == string_field(opt_view(t), key@),
{
    match t {
        Some(v) => match v.get(key) {
            Some(x) => match x.as_str() {
                Some(s) => Some(s.to_owned()),
                None => None,
            },
            None => None,
        },
        None => None,
    }
}

/// Reads the integer under `key`.
fn integer_field_exec(t: Option<&TomlValue>, key: &str) -> (r: Option<i64>)
    ensures
        r == integer_field(opt_view(t), key@),
{
    match t {
        Some(v) => match v.get(key) {
            Some(x) => x.as_integer(),
            None => None,
        },
        None => None,
    }
}

/// Why a port could not be determined.
#[derive(Clone, Copy, Debug, PartialEq, Eq, Structural)]
pub enum PortError {
    /// The knock port given on the command line is not a port number.
    BadKnockPortArgument,
    /// The TCP port given on the command line is not a port number.
    BadTcpPortArgument,
    /// No knock port is configured.
    NoKnockPort,
    /// The destination is not a configured server.
    UnknownDestination,
}

/// The knock port for a destination: the command line's, else the one the
/// destination's server table configures.
pub open spec fn knock_port_for_dest_spec(c: ConfView, cli: Option<Seq<char>>, dest: Seq<char>) -> Result<u16, PortError> {
    match cli {
        Some(p) => match parse_u16_spec(p) {
            Some(v) => Ok(v),
            None => Err(PortError::BadKnockPortArgument),
        },
        None => match integer_field(server_spec(c, dest), "knock_port"@) {
            Some(p) => Ok(p as u16),
            None => Err(PortError::NoKnockPort),
        },
    }
}

/// The TCP port for a destination: the command line's, else the configured
/// one, else the knock port.
pub open spec fn tcp_port_for_dest_spec(
    c: ConfView,
    cli_tcp: Option<Seq<char>>,
    cli_knock: Option<Seq<char>>,
    dest: Seq<char>,
) -> Result<u16, PortError> {
    match cli_tcp {
        Some(p) => match parse_u16_spec(p) {
            Some(v) => Ok(v),
            None => Err(PortError::BadTcpPortArgument),
        },
        None => match integer_field(server_spec(c, dest), "tcp_port"@) {
            Some(p) => Ok(p as u16),
            None => knock_port_for_dest_spec(c, cli_knock, dest),
        },
    }
}

/// The knock port a server listens on: the command line's, else the one its
/// configuration file sets.
pub open spec fn server_knock_port_spec(c: ConfView, cli: Option<Seq<char>>) -> Result<u16, PortError> {
    match cli {
        Some(p) => match parse_u16_spec(p) {
            Some(v) => Ok(v),
            None => Err(PortError::BadKnockPortArgument),
        },
        None => match integer_field(c.server, "knock_port"@) {
            Some(p) => Ok(p as u16),
            None => Err(PortError::NoKnockPort),
        },
    }
}

/// The TCP port a server listens on: the command line's, else the configured
/// one, else its knock port.
pub open spec fn server_tcp_port_spec(c: ConfView, cli_tcp: Option<Seq<char>>, cli_knock: Option<Seq<char>>) -> Result<
    u16,
    PortError,
> {
    match cli_tcp {
        Some(p) => match parse_u16_spec(p) {
            Some(v) => Ok(v),
            None => Err(PortError::BadTcpPortArgument),
        },
        None => match integer_field(c.server, "tcp_port"@) {
            Some(p) => Ok(p as u16),
            None => server_knock_port_spec(c, cli_knock),
        },
    }
}

/// A setting that the server side reads: given on the command line, else set
/// for the peer's client table, else set in the server file, else the
/// command line's default.
pub open spec fn serverside_setting_spec(
    c: ConfView,
    peer: Option<Seq<char>>,
    arg_given: bool,
    arg_value: Option<Seq<char>>,
    key: Seq<char>,
) -> Option<Seq<char>> {
    if arg_given && arg_value is Some {
        arg_value
    } else if peer is Some && string_field(client_spec(c, peer->0), key) is Some {
        string_field(client_spec(c, peer->0), key)
    } else if string_field(c.server, key) is Some {
        string_field(c.server, key)
    } else {
        arg_value
    }
}

/// Where a server-side setting comes from, in order: a value given on the
/// command line; else the setting in the peer's own table among the server
/// file's clients (the first table carrying that name), even where the
/// server file also sets it for everyone; else the server file's setting;
/// else the command line's default.
pub proof fn law_serverside_setting_sources(
    c: ConfView,
    peer: Option<Seq<char>>,
    arg_given: bool,
    arg_value: Option<Seq<char>>,
    key: Seq<char>,
)
    ensures
        arg_given && arg_value is Some ==> serverside_setting_spec(c, peer, arg_given, arg_value, key) == arg_value,
        !(arg_given && arg_value is Some) ==> forall|t: TomlSpec|
            peer is Some && first_named(peer_list(c.server, "clients"@), peer->0) == Some(t) && (#[trigger] t.get_str(
                key,
            )) is Some ==> serverside_setting_spec(c, peer, arg_given, arg_value, key) == t.get_str(key),
        !(arg_given && arg_value is Some) && (peer is None || string_field(
            first_named(peer_list(c.server, "clients"@), peer->0),
            key,
        ) is None) ==> serverside_setting_spec(c, peer, arg_given, arg_value, key) == (match c.server {
            Some(t) => match t.get_str(key) {
                Some(w) => Some(w),
                None => arg_value,
            },
            None => arg_value,
        }),
{
}

impl Conf {
    /// The table for the client of the given name, from the server file.
    pub fn client(&self, name: &str) -> (r: Option<&TomlValue>)
        ensures
            opt_view(r) == client_spec(self@, name@),
    {
        match peer_list_exec(&self.server, "clients") {
            Some(a) => find_named(a, name),
            None => None,
        }
    }

    /// The table for the server of the given name, from the client file.
    pub fn server(&self, name: &str) -> (r: Option<&TomlValue>)
        ensures
            opt_view(r) == server_spec(self@, name@),
    {
        match peer_list_exec(&self.client, "servers") {
            Some(a) => find_named(a, name),
            None => None,
        }
    }

    /// The knock secret of the server file.
    pub fn default_server_knock(&self) -> (r: Option<Vec<u8>>)
        ensures
            opt_bytes_view(r) == decoded_field(self@.server, "knock"@),
    {
        decoded_field_exec(self.server.as_ref(), "knock")
    }

    /// The knock secret of the client file.
    pub fn default_client_knock(&self) -> (r: Option<Vec<u8>>)
        ensures
            opt_bytes_view(r) == decoded_field(self@.client, "knock"@),
    {
        decoded_field_exec(self.client.as_ref(), "knock")
    }

    /// The table for a peer: a client of a server, or a server of a client.
    fn peer_table(&self, mode: RunMode, peer: &str, server_modes: bool) -> (r: Option<&TomlValue>)
        ensures
            opt_view(r) == (if (server_modes && mode.knocks_as_server()) || (!server_modes
                && mode.server_side()) {
                client_spec(self@, peer@)
            } else if (server_modes && mode.knocks_as_client()) || (!server_modes
                && mode.client_side()) {
                server_spec(self@, peer@)
            } else {
                None
            }),
    {
        let as_server = match mode {
            RunMode::Server | RunMode::ServeOne => true,
            RunMode::ReverseServer => !server_modes,
            _ => false,
        };
        let as_client = match mode {
            RunMode::Client | RunMode::Copy => true,
            RunMode::ReverseClient => !server_modes,
            _ => false,
        };
        if as_server {
            self.client(peer)
        } else if as_client {
            self.server(peer)
        } else {
            None
        }
    }

    /// The knock secret configured for a peer. Servers and serve-one
    /// instances look among their clients, clients and copies among their
    /// servers.
    pub fn peer_knock(&self, mode: RunMode, peer: &str) -> (r: Option<Vec<u8>>)
        ensures
            opt_bytes_view(r) == decoded_field(
                if mode.knocks_as_server() {
                    client_spec(self@, peer@)
                } else if mode.knocks_as_client() {
                    server_spec(self@, peer@)
                } else {
                    None
                },
                "knock"@,
            ),
    {
        decoded_field_exec(self.peer_table(mode, peer, true), "knock")
    }

    /// The knock secret of this instance's own configuration file.
    pub fn default_knock(&self, mode: RunMode) -> (r: Option<Vec<u8>>)
        ensures
            opt_bytes_view(r) == (if mode.knocks_as_server() {
                decoded_field(self@.server, "knock"@)
            } else if mode.knocks_as_client() {
                decoded_field(self@.client, "knock"@)
            } else {
                None
            }),
    {
        match mode {
            RunMode::Server | RunMode::ServeOne => self.default_server_knock(),
            RunMode::Client | RunMode::Copy => self.default_client_knock(),
            _ => None,
        }
    }

    /// A key of this instance's own configuration file.
    fn own_field(&self, mode: RunMode, key: &str) -> (r: Option<Vec<u8>>)
        ensures
            opt_bytes_view(r) == (if mode.server_side() {
                decoded_field(self@.server, key@)
            } else if mode.client_side() {
                decoded_field(self@.client, key@)
            } else {
                None
            }),
    {
        if mode.is_server_side() {
            decoded_field_exec(self.server.as_ref(), key)
        } else if mode.is_client_side() {
            decoded_field_exec(self.client.as_ref(), key)
        } else {
            None
        }
    }

    /// A key configured for a peer.
    fn peer_field(&self, mode: RunMode, peer: &str, key: &str) -> (r: Option<Vec<u8>>)
        ensures
            opt_bytes_view(r) == decoded_field(
                if mode.server_side() {
                    client_spec(self@, peer@)
                } else if mode.client_side() {
                    server_spec(self@, peer@)
                } else {
                    None
                },
                key@,
            ),
    {
        decoded_field_exec(self.peer_table(mode, peer, false), key)
    }

    /// The private key of this instance's own configuration file.
    pub fn default_asymmetric_key(&self, mode: RunMode) -> (r: Option<Vec<u8>>)
        ensures
            opt_bytes_view(r) == self@.own_key(mode, "privkey"@),
    {
        self.own_field(mode, "privkey")
    }

    /// The private key configured for a peer.
    pub fn peer_asymmetric_key(&self, mode: RunMode, peer: &str) -> (r: Option<Vec<u8>>)
        ensures
            opt_bytes_view(r) == self@.peer_key(mode, peer@, "privkey"@),
    {
        self.peer_field(mode, peer, "privkey")
    }

    /// The pre-shared key configured for a peer.
    pub fn peer_static_key(&self, mode: RunMode, peer: &str) -> (r: Option<Vec<u8>>)
        ensures
            opt_bytes_view(r) == self@.peer_key(mode, peer@, "psk"@),
    {
        self.peer_field(mode, peer, "psk")
    }

    /// The public key configured for a peer.
    pub fn peer_public_key(&self, mode: RunMode, peer: &str) -> (r: Option<Vec<u8>>)
        ensures
            opt_bytes_view(r) == self@.peer_key(mode, peer@, "pubkey"@),
    {
        self.peer_field(mode, peer, "pubkey")
    }

    /// The pre-shared key of this instance's own configuration file.
    pub fn default_static_key(&self, mode: RunMode) -> (r: Option<Vec<u8>>)
        ensures
            opt_bytes_view(r) == self@.own_key(mode, "psk"@),
    {
        self.own_field(mode, "psk")
    }

    /// The private key to use: the peer's, else this instance's own.
    pub fn asymmetric_key(&self, mode: RunMode, peer: Option<&str>) -> (r: Option<Vec<u8>>)
        ensures
            opt_bytes_view(r) == self@.key_with_fallback(mode, opt_str_view(peer), "privkey"@),
    {
        if let Some(peer) = peer {
            if let Some(key) = self.peer_asymmetric_key(mode, peer) {
                return Some(key);
            }
        }
        self.default_asymmetric_key(mode)
    }

    /// The pre-shared key to use: the peer's, else this instance's own.
    pub fn static_key(&self, mode: RunMode, peer: Option<&str>) -> (r: Option<Vec<u8>>)
        ensures
            opt_bytes_view(r) == self@.key_with_fallback(mode, opt_str_view(peer), "psk"@),
    {
        if let Some(peer) = peer {
            if let Some(key) = self.peer_static_key(mode, peer) {
                return Some(key);
            }
        }
        self.default_static_key(mode)
    }

    /// The public key of the peer, if one is named and configured.
    pub fn public_key(&self, mode: RunMode, peer: Option<&str>) -> (r: Option<Vec<u8>>)
        ensures
            opt_bytes_view(r) == (match peer {
                Some(p) => self@.peer_key(mode, p@, "pubkey"@),
                None => None,
            }),
    {
        if let Some(peer) = peer {
            if let Some(key) = self.peer_public_key(mode, peer) {
                return Some(key);
            }
        }
        None
    }

    /// The user a client is to be run as on the server.
    pub fn get_setuser(&self, peer: &str) -> (r: Option<String>)
        ensures
            opt_string_view(r) == string_field(client_spec(self@, peer@), "setuser"@),
    {
        string_field_exec(self.client(peer), "setuser")
    }

    /// The public key configured for a client of the server.
    pub fn pubkey_for_client(&self, client: &str) -> (r: Option<Vec<u8>>)
        ensures
            opt_bytes_view(r) == decoded_field(client_spec(self@, client@), "pubkey"@),
    {
        decoded_field_exec(self.client(client), "pubkey")
    }

    /// The knock port for a destination. An error where the command line's
    /// value is not a port number, or where none is configured.
    pub fn knock_port_for_dest(&self, cli: Option<&str>, dest: &str) -> (r: Result<u16, PortError>)
        requires
            cli is None ==> port_field_valid(server_spec(self@, dest@), "knock_port"@),
        ensures
            r == knock_port_for_dest_spec(self@, opt_str_view(cli), dest@),
    {
        if let Some(port) = cli {
            return match parse_u16(port) {
                Some(p) => Ok(p),
                None => Err(PortError::BadKnockPortArgument),
            };
        }
        match integer_field_exec(self.server(dest), "knock_port") {
            Some(p) => Ok(p as u16),
            None => Err(PortError::NoKnockPort),
        }
    }

    /// The TCP port for a destination, falling back to its knock port.
    pub fn tcp_port_for_dest(&self, cli_tcp: Option<&str>, cli_knock: Option<&str>, dest: &str) -> (r: Result<u16, PortError>)
        requires
            cli_tcp is None ==> port_field_valid(server_spec(self@, dest@), "tcp_port"@),
            cli_knock is None ==> port_field_valid(server_spec(self@, dest@), "knock_port"@),
        ensures
            r == tcp_port_for_dest_spec(self@, opt_str_view(cli_tcp), opt_str_view(cli_knock), dest@),
    {
        if let Some(port) = cli_tcp {
            return match parse_u16(port) {
                Some(p) => Ok(p),
                None => Err(PortError::BadTcpPortArgument),
            };
        }
        match integer_field_exec(self.server(dest), "tcp_port") {
            Some(p) => Ok(p as u16),
            None => self.knock_port_for_dest(cli_knock, dest),
        }
    }

    /// The knock port a server listens on.
    pub fn server_knock_port(&self, cli: Option<&str>) -> (r: Result<u16, PortError>)
        requires
            cli is None ==> port_field_valid(self@.server, "knock_port"@),
        ensures
            r == server_knock_port_spec(self@, opt_str_view(cli)),
    {
        if let Some(port) = cli {
            return match parse_u16(port) {
                Some(p) => Ok(p),
                None => Err(PortError::BadKnockPortArgument),
            };
        }
        match integer_field_exec(self.server.as_ref(), "knock_port") {
            Some(p) => Ok(p as u16),
            None => Err(PortError::NoKnockPort),
        }
    }

    /// The TCP port a server listens on, falling back to its knock port.
    pub fn server_tcp_port(&self, cli_tcp: Option<&str>, cli_knock: Option<&str>) -> (r: Result<u16, PortError>)
        requires
            cli_tcp is None ==> port_field_valid(self@.server, "tcp_port"@),
            cli_knock is None ==> port_field_valid(self@.server, "knock_port"@),
        ensures
            r == server_tcp_port_spec(self@, opt_str_view(cli_tcp), opt_str_view(cli_knock)),
    {
        if let Some(port) = cli_tcp {
            return match parse_u16(port) {
                Some(p) => Ok(p),
                None => Err(PortError::BadTcpPortArgument),
            };
        }
        match integer_field_exec(self.server.as_ref(), "tcp_port") {
            Some(p) => Ok(p as u16),
            None => self.server_knock_port(cli_knock),
        }
    }

    /// The host to connect to for a destination: its configured host, else the
    /// destination itself.
    pub fn host_for_dest(&self, dest: &str) -> (r: String)
        ensures
            r@ == (match string_field(server_spec(self@, dest@), "host"@) {
                Some(h) => h,
                None => dest@,
            }),
    {
        match string_field_exec(self.server(dest), "host") {
            Some(h) => h,
            None => dest.to_owned(),
        }
    }

    /// `host:port` for a configured destination.
    pub fn canonicalize_destination(&self, cli_tcp: Option<&str>, cli_knock: Option<&str>, dest: &str) -> (r: Result<String, PortError>)
        requires
            cli_tcp is None ==> port_field_valid(server_spec(self@, dest@), "tcp_port"@),
            cli_knock is None ==> port_field_valid(server_spec(self@, dest@), "knock_port"@),
        ensures
            server_spec(self@, dest@) is None ==> r == Err::<String, PortError>(PortError::UnknownDestination),
            server_spec(self@, dest@) is Some ==> match tcp_port_for_dest_spec(self@, opt_str_view(cli_tcp), opt_str_view(cli_knock), dest@) {
                Ok(p) => r matches Ok(s) && s@ == (match string_field(server_spec(self@, dest@), "host"@) {
                    Some(h) => h,
                    None => dest@,
                }) + ":"@ + dec(p as nat),
                Err(e) => r == Err::<String, PortError>(e),
            },
    {
        if self.server(dest).is_none() {
            return Err(PortError::UnknownDestination);
        }
        let mut host = self.host_for_dest(dest);
        let port = self.tcp_port_for_dest(cli_tcp, cli_knock, dest);
        match port {
            Ok(p) => {
                host.append(":");
                append_dec(&mut host, p as u64);
                Ok(host)
            },
            Err(e) => Err(e),
        }
    }

    /// A setting that the server side reads. `arg_given` says whether the
    /// command line gave the setting, `arg_value` is the command line's value
    /// or default.
    pub fn serverside_setting(&self, peer: Option<&str>, arg_given: bool, arg_value: Option<&str>, key: &str) -> (r: Option<String>)
        ensures
            opt_string_view(r) == serverside_setting_spec(self@, opt_str_view(peer), arg_given, opt_str_view(arg_value), key@),
    {
        if arg_given {
            if let Some(v) = arg_value {
                return Some(v.to_owned());
            }
        }
        if let Some(peer) = peer {
            if let Some(s) = string_field_exec(self.client(peer), key) {
                return Some(s);
            }
        }
        if let Some(s) = string_field_exec(self.server.as_ref(), key) {
            return Some(s);
        }
        match arg_value {
            Some(v) => Some(v.to_owned()),
            None => None,
        }
    }

    /// The command a client is restricted to, if any.
    pub fn forced_command(&self, peer: Option<&str>, arg_given: bool, arg_value: Option<&str>) -> (r: Option<String>)
        ensures
            opt_string_view(r) == serverside_setting_spec(self@, opt_str_view(peer), arg_given, opt_str_view(arg_value), "forcedcommand"@),
    {
        self.serverside_setting(peer, arg_given, arg_value, "forcedcommand")
    }

    /// The terminal multiplexer command for a client's PTY.
    pub fn multiplexer(&self, peer: Option<&str>, arg_given: bool, arg_value: Option<&str>) -> (r: Option<String>)
        ensures
            opt_string_view(r) == serverside_setting_spec(self@, opt_str_view(peer), arg_given, opt_str_view(arg_value), "multiplexer"@),
    {
        self.serverside_setting(peer, arg_given, arg_value, "multiplexer")
    }
}

impl ConfView {
    /// A key of the instance's own configuration file.
    pub open spec fn own_key(self, mode: RunMode, key: Seq<char>) -> Option<Seq<u8>> {
        if mode.server_side() {
            decoded_field(self.server, key)
        } else if mode.client_side() {
            decoded_field(self.client, key)
        } else {
            None
        }
    }

    /// A key configured for a peer.
    pub open spec fn peer_key(self, mode: RunMode, peer: Seq<char>, key: Seq<char>) -> Option<Seq<u8>> {
        decoded_field(
            if mode.server_side() {
                client_spec(self, peer)
            } else if mode.client_side() {
                server_spec(self, peer)
            } else {
                None
            },
            key,
        )
    }

    /// A key for a peer, falling back to the instance's own.
    pub open spec fn key_with_fallback(self, mode: RunMode, peer: Option<Seq<char>>, key: Seq<char>) -> Option<Seq<u8>> {
        match peer {
            Some(p) => match self.peer_key(mode, p, key) {
                Some(k) => Some(k),
                None => self.own_key(mode, key),
            },
            None => self.own_key(mode, key),
        }
    }
}

// ---------------------------------------------------------------------------
// Named peers in name order.
// ---------------------------------------------------------------------------

/// Lexicographic order of strings by character, the order in which string
/// keys of an ordered map are kept (for UTF-8 text, comparing bytes and
/// comparing characters agree).
pub open spec fn text_lt(a: Seq<char>, b: Seq<char>) -> bool
    decreases a.len(),
{
    if a.len() == 0 {
        b.len() > 0
    } else if b.len() == 0 {
        false
    } else if a[0] != b[0] {
        a[0] < b[0]
    } else {
        text_lt(a.drop_first(), b.drop_first())
    }
}

/// The order is irreflexive and total on distinct texts.
pub proof fn lemma_text_lt_total(a: Seq<char>, b: Seq<char>)
    ensures
        !text_lt(a, a),
        a != b ==> (text_lt(a, b) || text_lt(b, a)),
        !(text_lt(a, b) && text_lt(b, a)),
    decreases a.len(),
{
    if a.len() > 0 && b.len() > 0 {
        lemma_text_lt_total(a.drop_first(), b.drop_first());
        if a[0] == b[0] && a != b {
            assert(a.drop_first() != b.drop_first()) by {
                if a.drop_first() == b.drop_first() {
                    assert(a =~= seq![a[0]] + a.drop_first());
                    assert(b =~= seq![b[0]] + b.drop_first());
                }
            }
        }
    } else if a.len() > 0 {
        lemma_text_lt_total(a.drop_first(), a.drop_first());
    } else if b.len() == 0 {
        assert(a =~= b);
    }
}

/// The order is transitive.
pub proof fn lemma_text_lt_trans(a: Seq<char>, b: Seq<char>, c: Seq<char>)
    requires
        text_lt(a, b),
        text_lt(b, c),
    ensures
        text_lt(a, c),
    decreases a.len(),
{
    if a.len() > 0 && b.len() > 0 && c.len() > 0 {
        if a[0] == b[0] && b[0] == c[0] {
            lemma_text_lt_trans(a.drop_first(), b.drop_first(), c.drop_first());
        }
    }
}

/// Compares two strings in `text_lt` order.
pub fn text_less(a: &str, b: &str) -> (r: bool)
    ensures
        r == text_lt(a@, b@),
{
    let n = a.unicode_len();
    let m = b.unicode_len();
    let mut i: usize = 0;
    assert(a@.skip(0) =~= a@);
    assert(b@.skip(0) =~= b@);
    while i < n && i < m
        invariant
            i <= n,
            i <= m,
            n == a@.len(),
            m == b@.len(),
            text_lt(a@, b@) == text_lt(a@.skip(i as int), b@.skip(i as int)),
        decreases n - i,
    {
        let x = a.get_char(i);
        let y = b.get_char(i);
        proof {
            assert(a@.skip(i as int).drop_first() =~= a@.skip(i + 1));
            assert(b@.skip(i as int).drop_first() =~= b@.skip(i + 1));
        }
        if x != y {
            return x < y;
        }
        i = i + 1;
    }
    i < m && i >= n
}

/// Names are strictly increasing.
pub open spec fn names_sorted(r: Seq<(Seq<char>, TomlSpec)>) -> bool {
    forall|i: int, j: int| 0 <= i < j < r.len() ==> text_lt(r[i].0, r[j].0)
}

/// The named tables of a list, one per name (the first that carries it),
/// ordered by name, as a map keyed by name holds them.
pub open spec fn is_name_index(r: Seq<(Seq<char>, TomlSpec)>, arr: Seq<TomlSpec>) -> bool {
    &&& names_sorted(r)
    &&& forall|i: int| 0 <= i < r.len() ==> first_named(arr, #[trigger] r[i].0) == Some(r[i].1)
    &&& forall|n: Seq<char>| #[trigger] first_named(arr, n) is Some ==> exists|i: int|
        0 <= i < r.len() && r[i].0 == n
}

proof fn lemma_first_named_push(s: Seq<TomlSpec>, e: TomlSpec, n: Seq<char>)
    ensures
        first_named(s.push(e), n) == (match first_named(s, n) {
            Some(x) => Some(x),
            None => if named(e, n) {
                Some(e)
            } else {
                None
            },
        }),
    decreases s.len(),
{
    if s.len() > 0 {
        assert(s.push(e)[0] == s[0]);
        assert(s.push(e).drop_first() =~= s.drop_first().push(e));
        lemma_first_named_push(s.drop_first(), e, n);
    } else {
        assert(s.push(e)[0] == e);
        assert(s.push(e).drop_first() =~= Seq::<TomlSpec>::empty());
        assert(first_named(s.push(e).drop_first(), n) is None);
        assert(first_named(s, n) is None);
    }
}

proof fn lemma_index_same_list(r: Seq<(Seq<char>, TomlSpec)>, a1: Seq<TomlSpec>, a2: Seq<TomlSpec>)
    requires
        is_name_index(r, a1),
        forall|n: Seq<char>| first_named(a2, n) == first_named(a1, n),
    ensures
        is_name_index(r, a2),
{
    assert forall|i: int| 0 <= i < r.len() implies first_named(a2, #[trigger] r[i].0) == Some(r[i].1) by {
        assert(first_named(a1, r[i].0) == Some(r[i].1));
    }
    assert forall|n: Seq<char>| #[trigger] first_named(a2, n) is Some implies exists|i: int|
        0 <= i < r.len() && r[i].0 == n by {
        assert(first_named(a1, n) is Some);
    }
}

/// The name index of a list of tables.
fn collect_named(arr: &Vec<TomlValue>) -> (r: Vec<(String, TomlValue)>)
    ensures
        is_name_index(entries_of(r@), values_view(arr@)),
{
    let ghost a = values_view(arr@);
    let mut r: Vec<(String, TomlValue)> = Vec::new();
    let mut k: usize = 0;
    while k < arr.len()
        invariant
            k <= arr.len(),
            a == values_view(arr@),
            is_name_index(entries_of(r@), a.take(k as int)),
        decreases arr.len() - k,
    {
        let ghost rv = entries_of(r@);
        let ghost pre = a.take(k as int);
        assert(a.take(k + 1) =~= pre.push(a[k as int]));
        let item = &arr[k];
        let mut name_opt: Option<&str> = None;
        if item.is_table() {
            if let Some(n) = item.get("name") {
                name_opt = n.as_str();
            }
        }
        match name_opt {
            None => {
                proof {
                    assert forall|n: Seq<char>| !named(a[k as int], n) by {}
                    assert forall|n: Seq<char>| first_named(a.take(k + 1), n) == first_named(pre, n) by {
                        lemma_first_named_push(pre, a[k as int], n);
                    }
                    lemma_index_same_list(rv, pre, a.take(k + 1));
                }
            },
            Some(name) => {
                assert(named(a[k as int], name@));
                // Find where the name belongs.
                let mut p: usize = 0;
                while p < r.len() && text_less(r[p].0.as_str(), name)
                    invariant
                        p <= r.len(),
                        rv == entries_of(r@),
                        forall|j: int| 0 <= j < p ==> text_lt(#[trigger] rv[j].0, name@),
                    decreases r.len() - p,
                {
                    p = p + 1;
                }
                let dup = p < r.len() && str_eq(r[p].0.as_str(), name);
                if dup {
                    proof {
                        assert forall|n: Seq<char>| first_named(a.take(k + 1), n) == first_named(pre, n) by {
                            lemma_first_named_push(pre, a[k as int], n);
                            if n == name@ {
                                assert(first_named(pre, rv[p as int].0) == Some(rv[p as int].1));
                            } else {
                                if named(a[k as int], n) {
                                    assert(a[k as int].get_str("name"@) == Some(name@));
                                }
                            }
                        }
                        lemma_index_same_list(rv, pre, a.take(k + 1));
                    }
                } else {
                    let c = item.copy_value();
                    let key = name.to_owned();
                    proof {
                        // The name is new: no earlier table carries it.
                        if first_named(pre, name@) is Some {
                            let i = choose|i: int| 0 <= i < rv.len() && rv[i].0 == name@;
                            if i < p {
                                lemma_text_lt_total(name@, name@);
                            } else if i > p {
                                lemma_text_lt_total(rv[p as int].0, name@);
                                assert(text_lt(rv[p as int].0, rv[i].0));
                            }
                        }
                        if p < r.len() {
                            lemma_text_lt_total(rv[p as int].0, name@);
                        }
                    }
                    r.insert(p, (key, c));
                    proof {
                        let nr = entries_of(r@);
                        assert(nr =~= rv.insert(p as int, (name@, a[k as int])));
                        assert forall|i: int, j: int| 0 <= i < j < nr.len() implies text_lt(nr[i].0, nr[j].0) by {
                            if j < p {
                            } else if j == p {
                            } else if i < p {
                                if p < rv.len() {
                                    lemma_text_lt_trans(rv[i].0, name@, rv[p as int].0);
                                }
                                if i < j - 1 {
                                } else {
                                }
                                assert(nr[j] == rv[j - 1]);
                            } else if i == p {
                                assert(nr[j] == rv[j - 1]);
                                if j - 1 > p {
                                    lemma_text_lt_trans(name@, rv[p as int].0, rv[j - 1].0);
                                }
                            } else {
                                assert(nr[i] == rv[i - 1]);
                                assert(nr[j] == rv[j - 1]);
                            }
                        }
                        assert forall|n: Seq<char>| first_named(a.take(k + 1), n) == (if n == name@ {
                            Some(a[k as int])
                        } else {
                            first_named(pre, n)
                        }) by {
                            lemma_first_named_push(pre, a[k as int], n);
                            if n != name@ && named(a[k as int], n) {
                                assert(a[k as int].get_str("name"@) == Some(name@));
                            }
                        }
                        assert forall|i: int| 0 <= i < nr.len() implies first_named(a.take(k + 1), #[trigger] nr[i].0) == Some(nr[i].1) by {
                            if i < p {
                                assert(nr[i] == rv[i]);
                                lemma_text_lt_total(rv[i].0, name@);
                            } else if i > p {
                                assert(nr[i] == rv[i - 1]);
                                lemma_text_lt_total(rv[i - 1].0, name@);
                                if p < rv.len() {
                                    if i - 1 > p {
                                        lemma_text_lt_trans(name@, rv[p as int].0, rv[i - 1].0);
                                    }
                                }
                            }
                        }
                        assert forall|n: Seq<char>| #[trigger] first_named(a.take(k + 1), n) is Some implies exists|i: int|
                            0 <= i < nr.len() && nr[i].0 == n by {
                            if n == name@ {
                                assert(nr[p as int].0 == n);
                            } else {
                                assert(first_named(a.take(k + 1), n) == first_named(pre, n));
                                assert(first_named(pre, n) is Some);
                                let i = choose|i: int| 0 <= i < rv.len() && rv[i].0 == n;
                                if i < p {
                                    assert(nr[i] == rv[i]);
                                    assert(nr[i].0 == n);
                                } else {
                                    assert(nr[i + 1] == rv[i]);
                                    assert(nr[i + 1].0 == n);
                                }
                            }
                        }
                    }
                }
            },
        }
        k = k + 1;
    }
    assert(a.take(arr.len() as int) =~= a);
    r
}

/// The model of a list of named tables.
pub open spec fn entries_of(r: Seq<(String, TomlValue)>) -> Seq<(Seq<char>, TomlSpec)> {
    Seq::new(r.len(), |i: int| (r[i].0@, r[i].1@))
}

impl Conf {
    /// The clients of the server file by name: for each name, the first
    /// client table that carries it, in name order. Tables without a string
    /// name are left out.
    pub fn clients(&self) -> (r: Vec<(String, TomlValue)>)
        ensures
            is_name_index(entries_of(r@), peer_list(self@.server, "clients"@)),
    {
        match peer_list_exec(&self.server, "clients") {
            Some(a) => collect_named(a),
            None => {
                let r: Vec<(String, TomlValue)> = Vec::new();
                assert(entries_of(r@) =~= Seq::<(Seq<char>, TomlSpec)>::empty());
                r
            },
        }
    }

    /// The servers of the client file by name: for each name, the first
    /// server table that carries it, in name order.
    pub fn servers(&self) -> (r: Vec<(String, TomlValue)>)
        ensures
            is_name_index(entries_of(r@), peer_list(self@.client, "servers"@)),
    {
        match peer_list_exec(&self.client, "servers") {
            Some(a) => collect_named(a),
            None => {
                let r: Vec<(String, TomlValue)> = Vec::new();
                assert(entries_of(r@) =~= Seq::<(Seq<char>, TomlSpec)>::empty());
                r
            },
        }
    }

    /// The names of the clients of the server file, in name order, each once.
    pub fn client_names(&self) -> (r: Vec<String>)
        ensures
            is_name_list(names_of(r@), peer_list(self@.server, "clients"@)),
    {
        let cs = self.clients();
        let ghost cv = entries_of(cs@);
        let mut r: Vec<String> = Vec::new();
        let mut i: usize = 0;
        while i < cs.len()
            invariant
                i <= cs.len(),
                cv == entries_of(cs@),
                r@.len() == i,
                forall|j: int| 0 <= j < i ==> r@[j]@ == cv[j].0,
            decreases cs.len() - i,
        {
            r.push(cs[i].0.clone());
            i = i + 1;
        }
        proof {
            let nv = names_of(r@);
            assert forall|j: int| 0 <= j < nv.len() implies nv[j] == cv[j].0 by {}
            assert forall|n: Seq<char>| #[trigger] first_named(peer_list(self@.server, "clients"@), n) is Some implies nv.contains(n) by {
                let j = choose|j: int| 0 <= j < cv.len() && cv[j].0 == n;
                assert(nv[j] == n);
            }
        }
        r
    }
}

/// The model of a list of names.
pub open spec fn names_of(r: Seq<String>) -> Seq<Seq<char>> {
    Seq::new(r.len(), |i: int| r[i]@)
}

/// The names that carry a table in a list, each once, in name order.
pub open spec fn is_name_list(r: Seq<Seq<char>>, arr: Seq<TomlSpec>) -> bool {
    &&& forall|i: int, j: int| 0 <= i < j < r.len() ==> text_lt(r[i], r[j])
    &&& forall|i: int| 0 <= i < r.len() ==> first_named(arr, #[trigger] r[i]) is Some
    &&& forall|n: Seq<char>| #[trigger] first_named(arr, n) is Some ==> r.contains(n)
}

} // verus!

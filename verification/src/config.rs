//! The schema for config files. A given oxy instance is powered entirely off
//! of a config file, and all command line arguments are turned into
//! config file entries before being used at runtime.

use vstd::prelude::*;
use vstd::string::*;
use crate::base32::{base32_encode, decode_spec, serialize, decode_text};
use crate::value::{TomlValue, TomlSpec, entries_view, entries_get, entries_insert, entries_index, find_key, lemma_entries_index_bounds, lemma_view_table, lemma_entries_index_none, lemma_insert_get, lemma_push_get, lemma_entries_index_char, opt_view, opt_bytes_view, opt_string_view, str_eq};

verus! {

/// The modes in which an Oxy instance can run.
#[derive(Clone, Copy, Debug, PartialEq, Eq, Structural)]
pub enum Mode {
    /// A server that manages a UDP socket and passes the data forward to the
    /// relevant connection processor Oxy instance.
    Server,
    /// The server side of a single connection.
    ServerConnection,
    /// The client side of a single connection.
    Client,
}

/// The name under which a mode is written in a config file.
pub open spec fn mode_name(m: Mode) -> Seq<char> {
    match m {
        Mode::Server => "Server"@,
        Mode::ServerConnection => "ServerConnection"@,
        Mode::Client => "Client"@,
    }
}

/// The mode a name in a config file stands for.
pub open spec fn mode_from_name(s: Seq<char>) -> Option<Mode> {
    if s == "Server"@ {
        Some(Mode::Server)
    } else if s == "ServerConnection"@ {
        Some(Mode::ServerConnection)
    } else if s == "Client"@ {
        Some(Mode::Client)
    } else {
        None
    }
}

/// Reading a mode's name gives the mode back.
pub proof fn lemma_mode_name_roundtrip(m: Mode)
    ensures
        mode_from_name(mode_name(m)) == Some(m),
{
    reveal_strlit("Server");
    reveal_strlit("ServerConnection");
    reveal_strlit("Client");
    assert("ServerConnection"@.len() != "Server"@.len());
    assert("Client"@[0] != "Server"@[0]);
    assert("Client"@.len() != "ServerConnection"@.len());
}

impl Mode {
    /// The name under which this mode is written in a config file.
    pub fn name(self) -> (r: &'static str)
        ensures
            r@ == mode_name(self),
    {
        match self {
            Mode::Server => "Server",
            Mode::ServerConnection => "ServerConnection",
            Mode::Client => "Client",
        }
    }

    /// The mode that a name in a config file stands for.
    pub fn from_name(s: &str) -> (r: Option<Mode>)
        ensures
            r == mode_from_name(s@),
    {
        if str_eq(s, "Server") {
            Some(Mode::Server)
        } else if str_eq(s, "ServerConnection") {
            Some(Mode::ServerConnection)
        } else if str_eq(s, "Client") {
            Some(Mode::Client)
        } else {
            None
        }
    }
}

/// An Oxy config.
#[derive(Debug)]
pub struct Config {
    /// The mode of the instance that will be spawned off this config file.
    pub mode: Option<Mode>,
    /// The outer encryption key.
    pub outer_key: Option<Vec<u8>>,
    /// The server to connect to as a client.
    pub destination: Option<String>,
    /// The server public key.
    pub remote_public_key: Option<Vec<u8>>,
    /// The local private key.
    pub local_private_key: Option<Vec<u8>>,
}

/// The model of a config.
pub struct ConfigView {
    pub mode: Option<Mode>,
    pub outer_key: Option<Seq<u8>>,
    pub destination: Option<Seq<char>>,
    pub remote_public_key: Option<Seq<u8>>,
    pub local_private_key: Option<Seq<u8>>,
}

impl View for Config {
    type V = ConfigView;

    open spec fn view(&self) -> ConfigView {
        ConfigView {
            mode: self.mode,
            outer_key: opt_bytes_view(self.outer_key),
            destination: opt_string_view(self.destination),
            remote_public_key: opt_bytes_view(self.remote_public_key),
            local_private_key: opt_bytes_view(self.local_private_key),
        }
    }
}

fn clone_bytes(v: &Option<Vec<u8>>) -> (r: Option<Vec<u8>>)
    ensures
        opt_bytes_view(r) == opt_bytes_view(*v),
{
    match v {
        Some(b) => {
            let c = b.clone();
            assert(c@ =~= b@);
            Some(c)
        },
        None => None,
    }
}

fn clone_string(v: &Option<String>) -> (r: Option<String>)
    ensures
        opt_string_view(r) == opt_string_view(*v),
{
    match v {
        Some(s) => Some(s.clone()),
        None => None,
    }
}

impl Clone for Config {
    fn clone(&self) -> (r: Self)
        ensures
            r@ == self@,
    {
        Config {
            mode: self.mode,
            outer_key: clone_bytes(&self.outer_key),
            destination: clone_string(&self.destination),
            remote_public_key: clone_bytes(&self.remote_public_key),
            local_private_key: clone_bytes(&self.local_private_key),
        }
    }
}

impl Default for Config {
    fn default() -> (r: Self)
        ensures
            r@ == (ConfigView {
                mode: None,
                outer_key: None,
                destination: None,
                remote_public_key: None,
                local_private_key: None,
            }),
    {
        Config {
            mode: None,
            outer_key: None,
            destination: None,
            remote_public_key: None,
            local_private_key: None,
        }
    }
}

// ---------------------------------------------------------------------------
// Merging configuration values.
// ---------------------------------------------------------------------------

/// The result of merging `src` into `dest`: tables are merged key by key,
/// anything else is replaced by `src`.
pub open spec fn merged(dest: TomlSpec, src: TomlSpec) -> TomlSpec
    decreases src, 0nat,
{
    match (dest, src) {
        (TomlSpec::Table(d), TomlSpec::Table(s)) => TomlSpec::Table(merged_entries(d, s, s.len())),
        _ => src,
    }
}

/// The entries `d` after merging the first `n` entries of `s` into them, one
/// at a time: each key of `s` is merged into the value that `d` holds for it,
/// or into `false` where `d` holds none.
pub open spec fn merged_entries(
    d: Seq<(Seq<char>, TomlSpec)>,
    s: Seq<(Seq<char>, TomlSpec)>,
    n: nat,
) -> Seq<(Seq<char>, TomlSpec)>
    decreases s, n,
{
    if n == 0 || n > s.len() {
        d
    } else {
        let prev = merged_entries(d, s, (n - 1) as nat);
        let cur = match entries_get(prev, s[n - 1].0) {
            Some(v) => v,
            None => TomlSpec::Bool(false),
        };
        proof {
            assert(decreases_to!(s => s[n - 1]));
        }
        entries_insert(prev, s[n - 1].0, merged(cur, s[n - 1].1))
    }
}

/// No two entries carry the same key.
pub open spec fn entries_distinct(t: Seq<(Seq<char>, TomlSpec)>) -> bool {
    forall|i: int, j: int| 0 <= i < j < t.len() ==> t[i].0 != t[j].0
}

/// The value a merge starts from for a key: the old value, or `false`.
pub open spec fn value_or_false(v: Option<TomlSpec>) -> TomlSpec {
    match v {
        Some(x) => x,
        None => TomlSpec::Bool(false),
    }
}

proof fn lemma_merged_entries_get(
    d: Seq<(Seq<char>, TomlSpec)>,
    s: Seq<(Seq<char>, TomlSpec)>,
    n: nat,
    k: Seq<char>,
)
    requires
        entries_distinct(s),
        n <= s.len(),
    ensures
        entries_get(merged_entries(d, s, n), k) == (match entries_get(s.take(n as int), k) {
            Some(sv) => Some(merged(value_or_false(entries_get(d, k)), sv)),
            None => entries_get(d, k),
        }),
    decreases n,
{
    if n == 0 {
        lemma_entries_index_none(s.take(0), k);
    } else {
        let m = (n - 1) as nat;
        lemma_merged_entries_get(d, s, m, k);
        let prev = merged_entries(d, s, m);
        let key = s[m as int].0;
        let cur = value_or_false(entries_get(prev, key));
        lemma_insert_get(prev, key, merged(cur, s[m as int].1), k);
        assert(s.take(n as int) == s.take(m as int).push(s[m as int]));
        lemma_push_get(s.take(m as int), s[m as int], k);
        if k == key {
            lemma_merged_entries_get(d, s, m, key);
            assert forall|j: int| 0 <= j < s.take(m as int).len() implies s.take(m as int)[j].0 != key by {
                assert(s[j].0 != s[m as int].0);
            }
            lemma_entries_index_none(s.take(m as int), key);
        }
    }
}

/// Merging a table into a table: a key that the source holds ends up with
/// the merge of its old value (or `false`, where the destination lacks it)
/// with the source's value; a key only the destination holds keeps its
/// value. Merging anything that is not a pair of tables yields the source.
pub proof fn law_merge(dest: TomlSpec, src: TomlSpec, k: Seq<char>)
    requires
        src matches TomlSpec::Table(s) ==> entries_distinct(s),
    ensures
        (dest is Table && src is Table) ==> merged(dest, src).get(k) == (match src.get(k) {
            Some(sv) => Some(merged(value_or_false(dest.get(k)), sv)),
            None => dest.get(k),
        }),
        !(dest is Table && src is Table) ==> merged(dest, src) == src,
{
    match (dest, src) {
        (TomlSpec::Table(d), TomlSpec::Table(s)) => {
            lemma_merged_entries_get(d, s, s.len(), k);
            assert(s.take(s.len() as int) == s);
        },
        _ => {},
    }
}

/// Merges the table entries of `s` into the entries `d`.
fn merge_into_entries(d: &mut Vec<(String, TomlValue)>, s: &Vec<(String, TomlValue)>)
    ensures
        entries_view(final(d)@) == merged_entries(
            entries_view(old(d)@),
            entries_view(s@),
            s@.len(),
        ),
    decreases s, 0nat,
{
    let ghost d0 = entries_view(d@);
    let ghost sv = entries_view(s@);
    let mut i: usize = 0;
    while i < s.len()
        invariant
            i <= s.len(),
            d0 == entries_view(old(d)@),
            sv == entries_view(s@),
            entries_view(d@) == merged_entries(d0, sv, i as nat),
        decreases s.len() - i,
    {
        let ghost prev = entries_view(d@);
        proof {
            assert(decreases_to!(s => s@));
            assert(decreases_to!(s@ => s@[i as int]));
            assert(decreases_to!(s@[i as int] => s@[i as int].1));
        }
        match find_key(d, s[i].0.as_str()) {
            Some(j) => {
                let mut entry = (String::new(), TomlValue::Boolean(false));
                d.set_and_swap(j, &mut entry);
                assert(entry.0@ == prev[j as int].0);
                assert(entry.1@ == prev[j as int].1);
                let (k, mut v) = entry;
                merge(&mut v, &s[i].1);
                assert(v@ == merged(prev[j as int].1, sv[i as int].1));
                assert(entries_index(prev, sv[i as int].0) == Some(j as int));
                proof {
                    lemma_entries_index_bounds(prev, sv[i as int].0);
                }
                d.set(j, (k, v));
                assert(entries_view(d@) =~= entries_insert(prev, sv[i as int].0, merged(prev[j as int].1, sv[i as int].1)));
            },
            None => {
                let mut v = TomlValue::Boolean(false);
                merge(&mut v, &s[i].1);
                d.push((s[i].0.clone(), v));
                assert(entries_view(d@) =~= entries_insert(prev, sv[i as int].0, merged(TomlSpec::Bool(false), sv[i as int].1)));
            },
        }
        i = i + 1;
    }
}

/// Merges `src` into `dest`: tables are merged key by key (a key missing from
/// `dest` starts out as `false`), anything else is replaced by a copy of
/// `src`. Used for combining configs.
pub fn merge(dest: &mut TomlValue, src: &TomlValue)
    ensures
        final(dest)@ == merged(old(dest)@, src@),
    decreases src, 1nat,
{
    match src {
        TomlValue::Table(s) => {
            if dest.is_table() {
                let mut taken = TomlValue::Boolean(false);
                std::mem::swap(dest, &mut taken);
                match taken {
                    TomlValue::Table(mut d) => {
                        proof {
                            lemma_view_table(d);
                            lemma_view_table(*s);
                        }
                        let ghost d_old = d;
                        merge_into_entries(&mut d, s);
                        proof {
                            lemma_view_table(d);
                        }
                        *dest = TomlValue::Table(d);
                    },
                    _ => {},
                }
                return ;
            }
        },
        _ => {},
    }
    *dest = src.copy_value();
}

// ---------------------------------------------------------------------------
// Writing and reading configs as values.
// ---------------------------------------------------------------------------

/// The keys under which the fields of a config are written.
pub proof fn lemma_config_keys_distinct()
    ensures
        "mode"@ != "outer_key"@,
        "mode"@ != "destination"@,
        "mode"@ != "remote_public_key"@,
        "mode"@ != "local_private_key"@,
        "outer_key"@ != "destination"@,
        "outer_key"@ != "remote_public_key"@,
        "outer_key"@ != "local_private_key"@,
        "destination"@ != "remote_public_key"@,
        "destination"@ != "local_private_key"@,
        "remote_public_key"@ != "local_private_key"@,
{
    reveal_strlit("mode");
    reveal_strlit("outer_key");
    reveal_strlit("destination");
    reveal_strlit("remote_public_key");
    reveal_strlit("local_private_key");
    assert("mode"@.len() != "outer_key"@.len());
    assert("mode"@.len() != "destination"@.len());
    assert("mode"@.len() != "remote_public_key"@.len());
    assert("mode"@.len() != "local_private_key"@.len());
    assert("outer_key"@.len() != "destination"@.len());
    assert("outer_key"@.len() != "remote_public_key"@.len());
    assert("outer_key"@.len() != "local_private_key"@.len());
    assert("destination"@.len() != "remote_public_key"@.len());
    assert("destination"@.len() != "local_private_key"@.len());
    assert("remote_public_key"@[0] != "local_private_key"@[0]);
}

/// A config overwritten with another: a field the other sets wins, a field
/// it leaves unset keeps the first's value.
pub open spec fn overwritten(a: ConfigView, b: ConfigView) -> ConfigView {
    ConfigView {
        mode: if b.mode is Some {
            b.mode
        } else {
            a.mode
        },
        outer_key: if b.outer_key is Some {
            b.outer_key
        } else {
            a.outer_key
        },
        destination: if b.destination is Some {
            b.destination
        } else {
            a.destination
        },
        remote_public_key: if b.remote_public_key is Some {
            b.remote_public_key
        } else {
            a.remote_public_key
        },
        local_private_key: if b.local_private_key is Some {
            b.local_private_key
        } else {
            a.local_private_key
        },
    }
}

/// Overwriting a config with itself changes nothing.
pub proof fn law_overwrite_idempotent(a: ConfigView)
    ensures
        overwritten(a, a) == a,
{
}

/// Layering configs does not depend on grouping: overwriting with a config
/// that was itself overwritten gives what overwriting twice gives.
pub proof fn law_overwrite_associative(a: ConfigView, b: ConfigView, c: ConfigView)
    ensures
        overwritten(overwritten(a, b), c) == overwritten(a, overwritten(b, c)),
{
}

/// What the overwriting config sets wins; what it leaves unset keeps the
/// overwritten config's value.
pub proof fn law_overwrite_other_wins(a: ConfigView, b: ConfigView)
    ensures
        b.mode is Some ==> overwritten(a, b).mode == b.mode,
        b.destination is Some ==> overwritten(a, b).destination == b.destination,
        b.outer_key is Some ==> overwritten(a, b).outer_key == b.outer_key,
        b.remote_public_key is Some ==> overwritten(a, b).remote_public_key == b.remote_public_key,
        b.local_private_key is Some ==> overwritten(a, b).local_private_key == b.local_private_key,
        b.mode is None ==> overwritten(a, b).mode == a.mode,
        b.destination is None ==> overwritten(a, b).destination == a.destination,
{
}

impl ConfigView {
    /// The three keys are present and short enough to be written as text.
    pub open spec fn keys_writable(self) -> bool {
        &&& self.outer_key matches Some(k) && k.len() <= usize::MAX / 512
        &&& self.remote_public_key matches Some(k) && k.len() <= usize::MAX / 512
        &&& self.local_private_key matches Some(k) && k.len() <= usize::MAX / 512
    }
}

/// The entries a config is written as: its fields in order, an absent mode or
/// destination left out, the keys as base32 text.
pub open spec fn config_entries(c: ConfigView) -> Seq<(Seq<char>, TomlSpec)> {
    let m = match c.mode {
        Some(m) => seq![("mode"@, TomlSpec::Str(mode_name(m)))],
        None => Seq::empty(),
    };
    let d = match c.destination {
        Some(d) => seq![("destination"@, TomlSpec::Str(d))],
        None => Seq::empty(),
    };
    m + seq![("outer_key"@, TomlSpec::Str(base32_encode(c.outer_key->0)))] + d + seq![
        ("remote_public_key"@, TomlSpec::Str(base32_encode(c.remote_public_key->0))),
        ("local_private_key"@, TomlSpec::Str(base32_encode(c.local_private_key->0))),
    ]
}

/// Reads the mode field: `None` when it is malformed, `Some(None)` when absent.
pub open spec fn read_mode(v: Option<TomlSpec>) -> Option<Option<Mode>> {
    match v {
        None => Some(None),
        Some(x) => match x.as_str() {
            Some(s) => match mode_from_name(s) {
                Some(m) => Some(Some(m)),
                None => None,
            },
            None => None,
        },
    }
}

/// Reads a key field: `None` when it is malformed, `Some(None)` when absent.
pub open spec fn read_key(v: Option<TomlSpec>) -> Option<Option<Seq<u8>>> {
    match v {
        None => Some(None),
        Some(x) => match x.as_str() {
            Some(s) => match decode_spec(s) {
                Some(b) => Some(Some(b)),
                None => None,
            },
            None => None,
        },
    }
}

/// Reads a string field: `None` when it is malformed, `Some(None)` when absent.
pub open spec fn read_string(v: Option<TomlSpec>) -> Option<Option<Seq<char>>> {
    match v {
        None => Some(None),
        Some(x) => match x.as_str() {
            Some(s) => Some(Some(s)),
            None => None,
        },
    }
}

/// The config a value describes, `None` when it describes none. Keys that are
/// not fields of a config are ignored.
pub open spec fn config_read(v: TomlSpec) -> Option<ConfigView> {
    if !v.is_table() {
        None
    } else {
        match (
            read_mode(v.get("mode"@)),
            read_key(v.get("outer_key"@)),
            read_string(v.get("destination"@)),
            read_key(v.get("remote_public_key"@)),
            read_key(v.get("local_private_key"@)),
        ) {
            (Some(m), Some(o), Some(d), Some(r), Some(l)) => Some(
                ConfigView {
                    mode: m,
                    outer_key: o,
                    destination: d,
                    remote_public_key: r,
                    local_private_key: l,
                },
            ),
            _ => None,
        }
    }
}

proof fn lemma_distinct_get(t: Seq<(Seq<char>, TomlSpec)>, k: Seq<char>, i: int)
    requires
        entries_distinct(t),
        0 <= i < t.len(),
        t[i].0 == k,
    ensures
        entries_get(t, k) == Some(t[i].1),
{
    lemma_entries_index_char(t, k, i);
}

/// What reading each field of a written config finds.
proof fn lemma_config_entries_get(c: ConfigView)
    ensures
        entries_distinct(config_entries(c)),
        entries_get(config_entries(c), "mode"@) == (match c.mode {
            Some(m) => Some(TomlSpec::Str(mode_name(m))),
            None => None,
        }),
        entries_get(config_entries(c), "destination"@) == (match c.destination {
            Some(d) => Some(TomlSpec::Str(d)),
            None => None,
        }),
        entries_get(config_entries(c), "outer_key"@) == Some(
            TomlSpec::Str(base32_encode(c.outer_key->0)),
        ),
        entries_get(config_entries(c), "remote_public_key"@) == Some(
            TomlSpec::Str(base32_encode(c.remote_public_key->0)),
        ),
        entries_get(config_entries(c), "local_private_key"@) == Some(
            TomlSpec::Str(base32_encode(c.local_private_key->0)),
        ),
{
    lemma_config_keys_distinct();
    let t = config_entries(c);
    let o = ("outer_key"@, TomlSpec::Str(base32_encode(c.outer_key->0)));
    let r = ("remote_public_key"@, TomlSpec::Str(base32_encode(c.remote_public_key->0)));
    let l = ("local_private_key"@, TomlSpec::Str(base32_encode(c.local_private_key->0)));
    match (c.mode, c.destination) {
        (Some(m), Some(d)) => {
            let me = ("mode"@, TomlSpec::Str(mode_name(m)));
            let de = ("destination"@, TomlSpec::Str(d));
            assert(t =~= seq![me, o, de, r, l]);
            lemma_distinct_get(t, "mode"@, 0);
            lemma_distinct_get(t, "outer_key"@, 1);
            lemma_distinct_get(t, "destination"@, 2);
            lemma_distinct_get(t, "remote_public_key"@, 3);
            lemma_distinct_get(t, "local_private_key"@, 4);
        },
        (Some(m), None) => {
            let me = ("mode"@, TomlSpec::Str(mode_name(m)));
            assert(t =~= seq![me, o, r, l]);
            lemma_distinct_get(t, "mode"@, 0);
            lemma_distinct_get(t, "outer_key"@, 1);
            lemma_entries_index_none(t, "destination"@);
            lemma_distinct_get(t, "remote_public_key"@, 2);
            lemma_distinct_get(t, "local_private_key"@, 3);
        },
        (None, Some(d)) => {
            let de = ("destination"@, TomlSpec::Str(d));
            assert(t =~= seq![o, de, r, l]);
            lemma_entries_index_none(t, "mode"@);
            lemma_distinct_get(t, "outer_key"@, 0);
            lemma_distinct_get(t, "destination"@, 1);
            lemma_distinct_get(t, "remote_public_key"@, 2);
            lemma_distinct_get(t, "local_private_key"@, 3);
        },
        (None, None) => {
            assert(t =~= seq![o, r, l]);
            lemma_entries_index_none(t, "mode"@);
            lemma_distinct_get(t, "outer_key"@, 0);
            lemma_entries_index_none(t, "destination"@);
            lemma_distinct_get(t, "remote_public_key"@, 1);
            lemma_distinct_get(t, "local_private_key"@, 2);
        },
    }
}

fn read_mode_exec(v: Option<&TomlValue>) -> (r: Option<Option<Mode>>)
    ensures
        r == read_mode(opt_view(v)),
{
    match v {
        None => Some(None),
        Some(x) => match x.as_str() {
            Some(s) => match Mode::from_name(s) {
                Some(m) => Some(Some(m)),
                None => None,
            },
            None => None,
        },
    }
}

fn read_key_exec(v: Option<&TomlValue>) -> (r: Option<Option<Vec<u8>>>)
    ensures
        r matches Some(k) ==> read_key(opt_view(v)) == Some(opt_bytes_view(k)),
        r is None ==> read_key(opt_view(v)) is None,
{
    match v {
        None => Some(None),
        Some(x) => match x.as_str() {
            Some(s) => match decode_text(s) {
                Some(b) => Some(Some(b)),
                None => None,
            },
            None => None,
        },
    }
}

fn read_string_exec(v: Option<&TomlValue>) -> (r: Option<Option<String>>)
    ensures
        r matches Some(k) ==> read_string(opt_view(v)) == Some(opt_string_view(k)),
        r is None ==> read_string(opt_view(v)) is None,
{
    match v {
        None => Some(None),
        Some(x) => match x.as_str() {
            Some(s) => Some(Some(s.to_owned())),
            None => None,
        },
    }
}

impl Config {
    /// Writes this config as a table value, the way it is written to a
    /// config file. The three keys must be present.
    pub fn to_toml(&self) -> (r: TomlValue)
        requires
            self@.keys_writable(),
        ensures
            r@ == TomlSpec::Table(config_entries(self@)),
            decode_spec(base32_encode(self@.outer_key->0)) == Some(self@.outer_key->0),
            decode_spec(base32_encode(self@.remote_public_key->0)) == Some(
                self@.remote_public_key->0,
            ),
            decode_spec(base32_encode(self@.local_private_key->0)) == Some(
                self@.local_private_key->0,
            ),
    {
        let mut t: Vec<(String, TomlValue)> = Vec::new();
        match self.mode {
            Some(m) => {
                t.push((String::from_str("mode"), TomlValue::String(String::from_str(m.name()))));
            },
            None => {},
        }
        let o = serialize(&self.outer_key);
        t.push((String::from_str("outer_key"), TomlValue::String(o)));
        match &self.destination {
            Some(d) => {
                t.push((String::from_str("destination"), TomlValue::String(d.clone())));
            },
            None => {},
        }
        let rk = serialize(&self.remote_public_key);
        t.push((String::from_str("remote_public_key"), TomlValue::String(rk)));
        let lk = serialize(&self.local_private_key);
        t.push((String::from_str("local_private_key"), TomlValue::String(lk)));
        proof {
            assert(entries_view(t@) =~= config_entries(self@));
        }
        let r = TomlValue::Table(t);
        proof {
            lemma_view_table(t);
        }
        r
    }

    /// Reads a config from a table value. `None` when the value is not a
    /// table or a field is malformed.
    pub fn from_toml(v: &TomlValue) -> (r: Option<Config>)
        ensures
            r matches Some(c) ==> config_read(v@) == Some(c@),
            r is None ==> config_read(v@) is None,
    {
        if !v.is_table() {
            return None;
        }
        let m = read_mode_exec(v.get("mode"));
        let o = read_key_exec(v.get("outer_key"));
        let d = read_string_exec(v.get("destination"));
        let rk = read_key_exec(v.get("remote_public_key"));
        let lk = read_key_exec(v.get("local_private_key"));
        match (m, o, d, rk, lk) {
            (Some(m), Some(o), Some(d), Some(rk), Some(lk)) => Some(
                Config {
                    mode: m,
                    outer_key: o,
                    destination: d,
                    remote_public_key: rk,
                    local_private_key: lk,
                },
            ),
            _ => None,
        }
    }

    /// Used for combining configs to allow for a system-wide config + a user
    /// level config + a CLI argument config, etc. Both configs are written as
    /// values, the other's is merged into this one's, and the result is read
    /// back: a field the other config sets wins, one it leaves unset keeps
    /// this config's value.
    pub fn overwrite_with(&mut self, other: &Config)
        requires
            old(self)@.keys_writable(),
            other@.keys_writable(),
        ensures
            final(self)@ == overwritten(old(self)@, other@),
            Some(final(self)@) == config_read(
                merged(
                    TomlSpec::Table(config_entries(old(self)@)),
                    TomlSpec::Table(config_entries(other@)),
                ),
            ),
    {
        let src = other.to_toml();
        let mut dest = self.to_toml();
        let ghost s_spec = src@;
        let ghost d_spec = dest@;
        merge(&mut dest, &src);
        proof {
            let sc = other@;
            let oc = old(self)@;
            lemma_config_entries_get(sc);
            lemma_config_entries_get(oc);
            law_merge(d_spec, s_spec, "mode"@);
            law_merge(d_spec, s_spec, "outer_key"@);
            law_merge(d_spec, s_spec, "destination"@);
            law_merge(d_spec, s_spec, "remote_public_key"@);
            law_merge(d_spec, s_spec, "local_private_key"@);
            if let Some(m) = sc.mode {
                lemma_mode_name_roundtrip(m);
            }
            if let Some(m) = oc.mode {
                lemma_mode_name_roundtrip(m);
            }
        }
        match Config::from_toml(&dest) {
            Some(c) => {
                *self = c;
            },
            None => {},
        }
    }
}

} // verus!

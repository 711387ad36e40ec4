//! Editing the peer lists of configuration files: learning and forgetting
//! clients and servers, naming unnamed clients, and a fresh server file.

use vstd::prelude::*;
use vstd::string::*;
use crate::base32::{base32_encode, decode_spec, decode_text, encode_bytes};
use crate::crypto::utf8_string;
use crate::sealed::utf8_text;
use vstd::utf8::{encode_utf8, encode_utf8_decode_utf8, encode_utf8_valid_utf8};
use crate::crypto::random_bytes;
use crate::util::{append_dec, dec, native_u16_value, parse_u16, parse_u16_spec};
use crate::value::{
    entries_insert, entries_remove, entries_view, lemma_view_array, lemma_view_table,
    str_eq, table_insert, table_remove, values_view, TomlSpec, TomlValue,
};

verus! {

/// Whether an item stays when items whose text under `key` is `value` go.
pub open spec fn keeps(item: TomlSpec, key: Seq<char>, value: Seq<char>) -> bool {
    item.get_str(key) != Some(value)
}

/// The items whose text under `key` is not `value`, in their order.
pub open spec fn without(s: Seq<TomlSpec>, key: Seq<char>, value: Seq<char>) -> Seq<TomlSpec>
    decreases s.len(),
{
    if s.len() == 0 {
        s
    } else {
        let r = without(s.drop_last(), key, value);
        if keeps(s.last(), key, value) {
            r.push(s.last())
        } else {
            r
        }
    }
}

/// `without` where a value is given, else the items unchanged.
pub open spec fn without_opt(s: Seq<TomlSpec>, key: Seq<char>, value: Option<Seq<char>>) -> Seq<TomlSpec> {
    match value {
        Some(v) => without(s, key, v),
        None => s,
    }
}

/// Filtering never adds items.
pub proof fn lemma_without_len(s: Seq<TomlSpec>, key: Seq<char>, value: Seq<char>)
    ensures
        without(s, key, value).len() <= s.len(),
    decreases s.len(),
{
    if s.len() > 0 {
        lemma_without_len(s.drop_last(), key, value);
    }
}

/// Filtering keeps exactly the items that stay: each kept item stays, and
/// every item that stays is kept.
pub proof fn lemma_without_members(s: Seq<TomlSpec>, key: Seq<char>, value: Seq<char>)
    ensures
        forall|i: int| 0 <= i < without(s, key, value).len() ==> keeps(#[trigger] without(s, key, value)[i], key, value),
        forall|i: int| 0 <= i < s.len() && keeps(s[i], key, value) ==> without(s, key, value).contains(#[trigger] s[i]),
    decreases s.len(),
{
    if s.len() > 0 {
        let t = s.drop_last();
        lemma_without_members(t, key, value);
        let r = without(t, key, value);
        assert forall|i: int| 0 <= i < s.len() && keeps(s[i], key, value) implies without(s, key, value).contains(#[trigger] s[i]) by {
            if i < s.len() - 1 {
                assert(t[i] == s[i]);
                let j = choose|j: int| 0 <= j < r.len() && r[j] == t[i];
                if keeps(s.last(), key, value) {
                    assert(r.push(s.last())[j] == s[i]);
                }
            } else {
                assert(without(s, key, value) == r.push(s.last()));
                assert(r.push(s.last())[r.len() as int] == s[i]);
            }
        }
    }
}

/// Whether every item that has `key` has text there.
pub open spec fn texts_at(s: Seq<TomlSpec>, key: Seq<char>) -> bool {
    forall|i: int| 0 <= i < s.len() ==> ((#[trigger] s[i]).get(key) matches Some(v) ==> v is Str)
}

/// The array under a key of a table, where there is one.
pub open spec fn array_at(config: TomlSpec, key: Seq<char>) -> Option<Seq<TomlSpec>> {
    match config.get(key) {
        Some(v) => v.as_array(),
        None => None,
    }
}

/// Whether a key of a table is absent or holds an array.
pub open spec fn absent_or_array(config: TomlSpec, key: Seq<char>) -> bool {
    match config.get(key) {
        Some(v) => v is Array,
        None => true,
    }
}

/// The table with the array under `key` set to `items`.
pub open spec fn with_array(config: TomlSpec, key: Seq<char>, items: Seq<TomlSpec>) -> TomlSpec {
    TomlSpec::Table(entries_insert(config->Table_0, key, TomlSpec::Array(items)))
}

/// Whether an item's text under `key` is `value`, for an item read from a
/// configuration file.
fn text_is(item: &TomlValue, key: &str, value: &str) -> (r: bool)
    ensures
        r == !keeps(item@, key@, value@),
{
    match item.get(key) {
        Some(v) => match v.as_str() {
            Some(s) => str_eq(s, value),
            None => false,
        },
        None => false,
    }
}

/// Copies the items whose text under `key` is not `value`.
pub fn array_without(items: &Vec<TomlValue>, key: &str, value: &str) -> (r: Vec<TomlValue>)
    ensures
        values_view(r@) == without(values_view(items@), key@, value@),
{
    let ghost s = values_view(items@);
    let mut r: Vec<TomlValue> = Vec::new();
    let mut i: usize = 0;
    while i < items.len()
        invariant
            i <= items@.len(),
            s == values_view(items@),
            values_view(r@) == without(s.take(i as int), key@, value@),
        decreases items.len() - i,
    {
        assert(s.take(i + 1).drop_last() =~= s.take(i as int));
        assert(s.take(i + 1).last() == items@[i as int]@);
        if !text_is(&items[i], key, value) {
            let c = items[i].copy_value();
            let ghost before = r@;
            r.push(c);
            assert(values_view(r@) =~= values_view(before).push(c@));
        }
        i = i + 1;
    }
    assert(s.take(items@.len() as int) =~= s);
    r
}

/// The array under a key of a table, copied; empty where there is none.
fn copy_array_at(entries: &Vec<(String, TomlValue)>, key: &str) -> (r: Vec<TomlValue>)
    requires
        absent_or_array(TomlSpec::Table(entries_view(entries@)), key@),
    ensures
        values_view(r@) == match array_at(TomlSpec::Table(entries_view(entries@)), key@) {
            Some(a) => a,
            None => Seq::<TomlSpec>::empty(),
        },
{
    match crate::value::find_key(entries, key) {
        Some(i) => match &entries[i].1 {
            TomlValue::Array(items) => {
                proof {
                    lemma_view_array(*items);
                }
                crate::value::copy_values(items)
            },
            _ => Vec::new(),
        },
        None => {
            let r: Vec<TomlValue> = Vec::new();
            assert(values_view(r@) =~= Seq::<TomlSpec>::empty());
            r
        },
    }
}

/// Removes every server entry with the given name from a client
/// configuration.
pub fn drop_server_named(config: &mut TomlValue, name: &str)
    requires
        old(config)@ is Table,
        absent_or_array(old(config)@, "servers"@),
        array_at(old(config)@, "servers"@) matches Some(a) ==> texts_at(a, "name"@),
    ensures
        final(config)@ == match array_at(old(config)@, "servers"@) {
            Some(a) => with_array(old(config)@, "servers"@, without(a, "name"@, name@)),
            None => old(config)@,
        },
{
    let mut taken = TomlValue::Boolean(false);
    core::mem::swap(&mut taken, config);
    match taken {
        TomlValue::Table(mut entries) => {
            proof {
                lemma_view_table(entries);
            }
            match crate::value::find_key(&entries, "servers") {
                Some(_) => {
                    let current = copy_array_at(&entries, "servers");
                    let kept = array_without(&current, "name", name);
                    let arr = TomlValue::Array(kept);
                    proof {
                        lemma_view_array(kept);
                    }
                    table_insert(&mut entries, String::from_str("servers"), arr);
                    proof {
                        lemma_view_table(entries);
                    }
                    *config = TomlValue::Table(entries);
                },
                None => {
                    *config = TomlValue::Table(entries);
                },
            }
        },
        other => {
            *config = other;
        },
    }
}

/// Removes the clients or servers (`which` names the list) whose public key
/// or name is given, and returns how many went. Entries are matched by
/// public key first, then by name.
pub fn delete_client_or_server(config: &mut TomlValue, which: &str, name: Option<&str>, pubkey: Option<&str>) -> (r: usize)
    requires
        which@ == "clients"@ || which@ == "servers"@,
        old(config)@ is Table,
        absent_or_array(old(config)@, which@),
        array_at(old(config)@, which@) matches Some(a) ==> {
            &&& pubkey is Some ==> texts_at(a, "pubkey"@)
            &&& name is Some ==> texts_at(without_opt(a, "pubkey"@, opt_view_str(pubkey)), "name"@)
        },
    ensures
        match array_at(old(config)@, which@) {
            Some(a) => {
                let kept = without_opt(without_opt(a, "pubkey"@, opt_view_str(pubkey)), "name"@, opt_view_str(name));
                &&& final(config)@ == with_array(old(config)@, which@, kept)
                &&& r == a.len() - kept.len()
            },
            None => final(config)@ == old(config)@ && r == 0,
        },
{
    let mut taken = TomlValue::Boolean(false);
    core::mem::swap(&mut taken, config);
    match taken {
        TomlValue::Table(mut entries) => {
            proof {
                lemma_view_table(entries);
            }
            match crate::value::find_key(&entries, which) {
                Some(_) => {
                    let current = copy_array_at(&entries, which);
                    let orig_len = current.len();
                    let ghost a = values_view(current@);
                    let after_key = match pubkey {
                        Some(k) => array_without(&current, "pubkey", k),
                        None => current,
                    };
                    let ghost b = values_view(after_key@);
                    let kept = match name {
                        Some(n) => array_without(&after_key, "name", n),
                        None => after_key,
                    };
                    let new_len = kept.len();
                    proof {
                        match pubkey {
                            Some(k) => lemma_without_len(a, "pubkey"@, k@),
                            None => {},
                        }
                        match name {
                            Some(n) => lemma_without_len(b, "name"@, n@),
                            None => {},
                        }
                        lemma_view_array(kept);
                    }
                    table_insert(&mut entries, which.to_owned(), TomlValue::Array(kept));
                    proof {
                        lemma_view_table(entries);
                    }
                    *config = TomlValue::Table(entries);
                    orig_len - new_len
                },
                None => {
                    *config = TomlValue::Table(entries);
                    0
                },
            }
        },
        other => {
            *config = other;
            0
        },
    }
}

/// The model of an optional text argument.
pub open spec fn opt_view_str(v: Option<&str>) -> Option<Seq<char>> {
    match v {
        Some(x) => Some(x@),
        None => None,
    }
}

/// A table's entries with `key` removed and then, where a value is given,
/// set to that text.
pub open spec fn set_text(t: Seq<(Seq<char>, TomlSpec)>, key: Seq<char>, value: Option<Seq<char>>) -> Seq<(Seq<char>, TomlSpec)> {
    let removed = entries_remove(t, key);
    match value {
        Some(v) => entries_insert(removed, key, TomlSpec::Str(v)),
        None => removed,
    }
}

fn set_text_exec(entries: &mut Vec<(String, TomlValue)>, key: &str, value: Option<&str>)
    ensures
        entries_view(final(entries)@) == set_text(entries_view(old(entries)@), key@, opt_view_str(value)),
{
    let _ = table_remove(entries, key);
    match value {
        Some(v) => table_insert(entries, key.to_owned(), TomlValue::String(v.to_owned())),
        None => {},
    }
}

/// The entry for a client being learned: the imported table with its
/// `name`, `setuser` and `forcedcommand` replaced by those given (or
/// removed where none is given).
pub fn client_entry(import: TomlValue, name: Option<&str>, setuser: Option<&str>, forcedcommand: Option<&str>) -> (r: TomlValue)
    requires
        import@ is Table,
    ensures
        r@ == TomlSpec::Table(
            set_text(
                set_text(set_text(import@->Table_0, "name"@, opt_view_str(name)), "setuser"@, opt_view_str(setuser)),
                "forcedcommand"@,
                opt_view_str(forcedcommand),
            ),
        ),
{
    match import {
        TomlValue::Table(mut entries) => {
            proof {
                lemma_view_table(entries);
            }
            set_text_exec(&mut entries, "name", name);
            set_text_exec(&mut entries, "setuser", setuser);
            set_text_exec(&mut entries, "forcedcommand", forcedcommand);
            proof {
                lemma_view_table(entries);
            }
            TomlValue::Table(entries)
        },
        other => other,
    }
}

/// Appends an item to the array under `key` of a table, creating the array
/// where there is none.
fn push_to_array(config: &mut TomlValue, key: &str, item: TomlValue)
    requires
        old(config)@ is Table,
        absent_or_array(old(config)@, key@),
    ensures
        final(config)@ == with_array(
            old(config)@,
            key@,
            match array_at(old(config)@, key@) {
                Some(a) => a,
                None => Seq::<TomlSpec>::empty(),
            }.push(item@),
        ),
{
    let mut taken = TomlValue::Boolean(false);
    core::mem::swap(&mut taken, config);
    match taken {
        TomlValue::Table(mut entries) => {
            proof {
                lemma_view_table(entries);
            }
            let mut items = copy_array_at(&entries, key);
            let ghost before = values_view(items@);
            items.push(item);
            assert(values_view(items@) =~= before.push(item@));
            proof {
                lemma_view_array(items);
            }
            table_insert(&mut entries, key.to_owned(), TomlValue::Array(items));
            proof {
                lemma_view_table(entries);
            }
            *config = TomlValue::Table(entries);
        },
        other => {
            *config = other;
        },
    }
}

/// Adds a learned client to a server configuration.
pub fn add_client(config: &mut TomlValue, entry: TomlValue)
    requires
        old(config)@ is Table,
        absent_or_array(old(config)@, "clients"@),
    ensures
        final(config)@ == with_array(
            old(config)@,
            "clients"@,
            match array_at(old(config)@, "clients"@) {
                Some(a) => a,
                None => Seq::<TomlSpec>::empty(),
            }.push(entry@),
        ),
{
    push_to_array(config, "clients", entry);
}

/// The base32 text of key bytes, as a configuration value.
pub open spec fn key_text(bytes: Seq<u8>) -> TomlSpec {
    TomlSpec::Str(base32_encode(bytes))
}

fn key_value(bytes: &[u8]) -> (r: TomlValue)
    requires
        bytes@.len() <= usize::MAX / 512,
    ensures
        r@ == key_text(bytes@),
{
    TomlValue::String(encode_bytes(bytes))
}

/// The entry for a server being learned: the imported table with the
/// client's own private and public key, the pre-shared key and the name
/// under which the server is known.
pub fn server_entry(import: TomlValue, name: &str, privkey: &[u8], pubkey: &[u8], psk: &[u8]) -> (r: TomlValue)
    requires
        import@ is Table,
        privkey@.len() <= usize::MAX / 512,
        pubkey@.len() <= usize::MAX / 512,
        psk@.len() <= usize::MAX / 512,
    ensures
        r@ == TomlSpec::Table(
            entries_insert(
                entries_insert(
                    entries_insert(
                        entries_insert(import@->Table_0, "privkey"@, key_text(privkey@)),
                        "my_pubkey"@,
                        key_text(pubkey@),
                    ),
                    "psk"@,
                    key_text(psk@),
                ),
                "name"@,
                TomlSpec::Str(name@),
            ),
        ),
{
    match import {
        TomlValue::Table(mut entries) => {
            proof {
                lemma_view_table(entries);
            }
            table_insert(&mut entries, String::from_str("privkey"), key_value(privkey));
            table_insert(&mut entries, String::from_str("my_pubkey"), key_value(pubkey));
            table_insert(&mut entries, String::from_str("psk"), key_value(psk));
            table_insert(&mut entries, String::from_str("name"), TomlValue::String(name.to_owned()));
            proof {
                lemma_view_table(entries);
            }
            TomlValue::Table(entries)
        },
        other => other,
    }
}

/// Adds a learned server to a client configuration, replacing any server
/// entries with the same name.
pub fn add_server(config: &mut TomlValue, name: &str, entry: TomlValue)
    requires
        old(config)@ is Table,
        absent_or_array(old(config)@, "servers"@),
        array_at(old(config)@, "servers"@) matches Some(a) ==> texts_at(a, "name"@),
    ensures
        final(config)@ == with_array(
            old(config)@,
            "servers"@,
            match array_at(old(config)@, "servers"@) {
                Some(a) => without(a, "name"@, name@),
                None => Seq::<TomlSpec>::empty(),
            }.push(entry@),
        ),
{
    let mut taken = TomlValue::Boolean(false);
    core::mem::swap(&mut taken, config);
    match taken {
        TomlValue::Table(mut entries) => {
            proof {
                lemma_view_table(entries);
            }
            let current = copy_array_at(&entries, "servers");
            let mut items = array_without(&current, "name", name);
            let ghost before = values_view(items@);
            proof {
                if array_at(TomlSpec::Table(entries_view(entries@)), "servers"@) is None {
                    assert(without(Seq::<TomlSpec>::empty(), "name"@, name@) =~= Seq::<TomlSpec>::empty());
                }
            }
            items.push(entry);
            assert(values_view(items@) =~= before.push(entry@));
            proof {
                lemma_view_array(items);
            }
            table_insert(&mut entries, String::from_str("servers"), TomlValue::Array(items));
            proof {
                lemma_view_table(entries);
            }
            *config = TomlValue::Table(entries);
        },
        other => {
            *config = other;
        },
    }
}

/// The import string that carries a text between operators: the base32
/// form of its UTF-8 bytes.
pub open spec fn import_string_spec(text: Seq<char>) -> Seq<char> {
    base32_encode(encode_utf8(text))
}

/// The text an import string carries: its base32 bytes read as UTF-8;
/// `None` where it is not base32 or the bytes are not UTF-8.
pub open spec fn import_text_spec(s: Seq<char>) -> Option<Seq<char>> {
    match decode_spec(s) {
        Some(b) => utf8_text(b),
        None => None,
    }
}

/// The import string for a text. Reading it back gives the text.
pub fn import_string(text: &str) -> (r: String)
    requires
        encode_utf8(text@).len() <= usize::MAX / 512,
    ensures
        r@ == import_string_spec(text@),
        import_text_spec(r@) == Some(text@),
{
    proof {
        assert(text.spec_bytes() == encode_utf8(text@));
        encode_utf8_valid_utf8(text@);
        encode_utf8_decode_utf8(text@);
    }
    encode_bytes(text.as_bytes())
}

/// The text an import string carries (see `import_text_spec`).
pub fn import_text(s: &str) -> (r: Option<String>)
    ensures
        match r {
            Some(t) => import_text_spec(s@) == Some(t@),
            None => import_text_spec(s@) is None,
        },
{
    let bytes = decode_text(s)?;
    utf8_string(bytes.as_slice())
}

/// What a new client shows the server's operator: its pre-shared key and
/// public key.
pub fn server_display(psk: &[u8], pubkey: &[u8]) -> (r: TomlValue)
    requires
        psk@.len() <= usize::MAX / 512,
        pubkey@.len() <= usize::MAX / 512,
    ensures
        r@ == TomlSpec::Table(seq![("psk"@, key_text(psk@)), ("pubkey"@, key_text(pubkey@))]),
{
    let mut entries: Vec<(String, TomlValue)> = Vec::new();
    entries.push((String::from_str("psk"), key_value(psk)));
    entries.push((String::from_str("pubkey"), key_value(pubkey)));
    let ghost e = entries;
    let r = TomlValue::Table(entries);
    proof {
        lemma_view_table(e);
        assert(entries_view(e@) =~= seq![("psk"@, key_text(psk@)), ("pubkey"@, key_text(pubkey@))]);
    }
    r
}

/// The public part of a new server configuration: its public key, knock
/// secret and ports.
pub open spec fn server_public_spec(pubkey: Seq<u8>, knock: Seq<u8>, tcp_port: u16, knock_port: u16) -> Seq<(Seq<char>, TomlSpec)> {
    seq![
        ("pubkey"@, key_text(pubkey)),
        ("knock"@, key_text(knock)),
        ("tcp_port"@, TomlSpec::Int(tcp_port as i64)),
        ("knock_port"@, TomlSpec::Int(knock_port as i64)),
    ]
}

/// A new server configuration: the part shown to its operator, and the
/// whole, which adds the private key.
pub fn server_config(privkey: &[u8], pubkey: &[u8], knock: &[u8], tcp_port: u16, knock_port: u16) -> (r: (TomlValue, TomlValue))
    requires
        privkey@.len() <= usize::MAX / 512,
        pubkey@.len() <= usize::MAX / 512,
        knock@.len() <= usize::MAX / 512,
    ensures
        r.0@ == TomlSpec::Table(server_public_spec(pubkey@, knock@, tcp_port, knock_port)),
        r.1@ == TomlSpec::Table(server_public_spec(pubkey@, knock@, tcp_port, knock_port).push(("privkey"@, key_text(privkey@)))),
{
    let mut shown: Vec<(String, TomlValue)> = Vec::new();
    shown.push((String::from_str("pubkey"), key_value(pubkey)));
    shown.push((String::from_str("knock"), key_value(knock)));
    shown.push((String::from_str("tcp_port"), TomlValue::Integer(tcp_port as i64)));
    shown.push((String::from_str("knock_port"), TomlValue::Integer(knock_port as i64)));
    let mut whole: Vec<(String, TomlValue)> = crate::value::copy_entries(&shown);
    let ghost w0 = entries_view(whole@);
    whole.push((String::from_str("privkey"), key_value(privkey)));
    let ghost s = shown;
    let ghost w = whole;
    let r = (TomlValue::Table(shown), TomlValue::Table(whole));
    proof {
        lemma_view_table(s);
        lemma_view_table(w);
        assert(entries_view(s@) =~= server_public_spec(pubkey@, knock@, tcp_port, knock_port));
        assert(entries_view(w@) =~= w0.push(("privkey"@, key_text(privkey@))));
    }
    r
}

/// The most random draws for a port before giving up: as many as a 64-bit
/// counter holds, so that only a failing random source ends the search.
pub const PORT_DRAWS: u64 = 0xffff_ffff_ffff_ffff;

/// What becomes of a drawn port number: it is taken where it is above 1024,
/// and drawn again otherwise.
pub fn accept_draw(cur: u16) -> (r: Option<u16>)
    ensures
        r == (if cur > 1024 {
            Some(cur)
        } else {
            None
        }),
{
    if cur > 1024 {
        Some(cur)
    } else {
        None
    }
}

/// A random port above 1024, drawn from two random bytes at a time, read
/// in the machine's byte order, drawing again until one lands above 1024.
/// `None` where no random bytes can be had, or (after 2^64 - 1 draws) none
/// landed above 1024.
pub fn random_port() -> (r: Option<u16>)
    ensures
        r matches Some(p) ==> p > 1024,
{
    let mut draws: u64 = 0;
    while draws < PORT_DRAWS
        decreases PORT_DRAWS - draws,
    {
        let buf = random_bytes(2)?;
        let cur: u16 = native_u16_value(buf.as_slice());
        if let Some(p) = accept_draw(cur) {
            return Some(p);
        }
        draws = draws + 1;
    }
    None
}

/// The port to use for a requested one: the request itself, or a random
/// port above 1024 where the request is 0.
pub fn port_or_random(requested: u16) -> (r: Option<u16>)
    ensures
        requested != 0 ==> r == Some(requested),
        requested == 0 ==> (r matches Some(p) ==> p > 1024),
{
    if requested == 0 {
        random_port()
    } else {
        Some(requested)
    }
}

/// The name given to the `k`-th client entry that has none.
pub open spec fn generated_name(k: nat) -> Seq<char> {
    "generated-client-name-"@ + dec(k)
}

/// Whether an item is a table without a name.
pub open spec fn nameless(item: TomlSpec) -> bool {
    item is Table && item.get("name"@) is None
}

/// Whether an item is a table whose name looks generated.
pub open spec fn reserved_name(item: TomlSpec) -> bool {
    item is Table && (item.get_str("name"@) matches Some(n) && "generated-client-name-"@.is_prefix_of(n))
}

/// How many items are tables without a name.
pub open spec fn nameless_count(s: Seq<TomlSpec>) -> nat
    decreases s.len(),
{
    if s.len() == 0 {
        0
    } else {
        nameless_count(s.drop_last()) + if nameless(s.last()) {
            1nat
        } else {
            0nat
        }
    }
}

/// The items with each nameless table named in turn.
pub open spec fn named_items(s: Seq<TomlSpec>) -> Seq<TomlSpec>
    decreases s.len(),
{
    if s.len() == 0 {
        s
    } else {
        let x = s.last();
        named_items(s.drop_last()).push(
            if nameless(x) {
                TomlSpec::Table(
                    entries_insert(x->Table_0, "name"@, TomlSpec::Str(generated_name(nameless_count(s.drop_last())))),
                )
            } else {
                x
            },
        )
    }
}

/// What naming the clients of a loaded server configuration gives: the
/// configuration with every nameless client table named, or an error where
/// a client's own name looks generated.
pub open spec fn named_clients_spec(config: TomlSpec) -> Option<TomlSpec> {
    match array_at(config, "clients"@) {
        Some(a) => if exists|i: int| 0 <= i < a.len() && reserved_name(#[trigger] a[i]) {
            None
        } else {
            Some(with_array(config, "clients"@, named_items(a)))
        },
        None => Some(config),
    }
}

/// Whether a text begins with a prefix.
pub fn starts_with(s: &str, prefix: &str) -> (r: bool)
    ensures
        r == prefix@.is_prefix_of(s@),
{
    let n = prefix.unicode_len();
    if n > s.unicode_len() {
        return false;
    }
    let mut i: usize = 0;
    while i < n
        invariant
            i <= n,
            n == prefix@.len(),
            n <= s@.len(),
            forall|j: int| 0 <= j < i ==> prefix@[j] == s@[j],
        decreases n - i,
    {
        if prefix.get_char(i) != s.get_char(i) {
            return false;
        }
        i = i + 1;
    }
    assert(prefix@ =~= s@.subrange(0, n as int));
    true
}

fn generated_name_exec(k: usize) -> (r: String)
    ensures
        r@ == generated_name(k as nat),
{
    let mut name = String::from_str("generated-client-name-");
    append_dec(&mut name, k as u64);
    name
}

/// Names every client table of a loaded server configuration that has no
/// name, in order, `generated-client-name-0`, `-1`, and so on. An error
/// where a client's own name starts with `generated-client-name-`.
pub fn name_clients(config: &TomlValue) -> (r: Result<TomlValue, String>)
    ensures
        config@ is Table ==> match named_clients_spec(config@) {
            Some(v) => (r matches Ok(x) && x@ == v),
            None => (r matches Err(e) && e@ == "Config file contains statically set client name that starts with 'generated-client-name-'."@),
        },
        !(config@ is Table) ==> (r matches Ok(x) && x@ == config@),
{
    let entries = match config {
        TomlValue::Table(entries) => entries,
        _ => return Ok(config.copy_value()),
    };
    proof {
        lemma_view_table(*entries);
    }
    match config.get("clients") {
        Some(v) => {
            if v.as_array().is_none() {
                return Ok(config.copy_value());
            }
        },
        None => {
            return Ok(config.copy_value());
        },
    }
    let items = copy_array_at(entries, "clients");
    let ghost a = values_view(items@);
    let mut out: Vec<TomlValue> = Vec::new();
    let mut ticker: usize = 0;
    let mut i: usize = 0;
    while i < items.len()
        invariant
            i <= items@.len(),
            a == values_view(items@),
            config@ is Table,
            array_at(config@, "clients"@) == Some(a),
            values_view(out@) == named_items(a.take(i as int)),
            ticker == nameless_count(a.take(i as int)),
            ticker <= i,
            forall|j: int| 0 <= j < i ==> !reserved_name(#[trigger] a[j]),
        decreases items.len() - i,
    {
        assert(a.take(i + 1).drop_last() =~= a.take(i as int));
        assert(a.take(i + 1).last() == items@[i as int]@);
        let item = &items[i];
        let ghost before = out@;
        match item {
            TomlValue::Table(t) => {
                proof {
                    lemma_view_table(*t);
                }
                match item.get("name") {
                    None => {
                        let mut named = crate::value::copy_entries(t);
                        let name = generated_name_exec(ticker);
                        table_insert(&mut named, String::from_str("name"), TomlValue::String(name));
                        let ghost nv = named;
                        out.push(TomlValue::Table(named));
                        proof {
                            lemma_view_table(nv);
                        }
                        ticker = ticker + 1;
                    },
                    Some(n) => {
                        match n.as_str() {
                            Some(text) => {
                                if starts_with(text, "generated-client-name-") {
                                    assert(reserved_name(a[i as int]));
                                    return Err(String::from_str(
                                        "Config file contains statically set client name that starts with 'generated-client-name-'.",
                                    ));
                                }
                            },
                            None => {},
                        }
                        out.push(item.copy_value());
                    },
                }
            },
            _ => {
                out.push(item.copy_value());
            },
        }
        assert(values_view(out@) =~= values_view(before).push(out@.last()@));
        i = i + 1;
    }
    assert(a.take(items@.len() as int) =~= a);
    let mut new_entries = crate::value::copy_entries(entries);
    let ghost ov = values_view(out@);
    proof {
        lemma_view_array(out);
    }
    table_insert(&mut new_entries, String::from_str("clients"), TomlValue::Array(out));
    let ghost ne = new_entries;
    let r = TomlValue::Table(new_entries);
    proof {
        lemma_view_table(ne);
    }
    Ok(r)
}

/// Removing the entries with a name a second time changes nothing: the
/// entries left after one removal all keep.
pub proof fn law_without_idempotent(s: Seq<TomlSpec>, key: Seq<char>, value: Seq<char>)
    ensures
        without(without(s, key, value), key, value) == without(s, key, value),
    decreases s.len(),
{
    if s.len() > 0 {
        let t = s.drop_last();
        law_without_idempotent(t, key, value);
        let r = without(t, key, value);
        if keeps(s.last(), key, value) {
            assert(r.push(s.last()).drop_last() =~= r);
        }
    }
}

/// After a server is learned under a name, exactly one server entry carries
/// that name: the new one, which comes last.
pub proof fn law_learned_server_unique(a: Seq<TomlSpec>, name: Seq<char>, entry: TomlSpec)
    requires
        entry.get_str("name"@) == Some(name),
    ensures
        ({
            let r = without(a, "name"@, name).push(entry);
            &&& r.last() == entry
            &&& forall|i: int| 0 <= i < r.len() - 1 ==> (#[trigger] r[i]).get_str("name"@) != Some(name)
        }),
{
    lemma_without_members(a, "name"@, name);
    let w = without(a, "name"@, name);
    assert forall|i: int| 0 <= i < w.push(entry).len() - 1 implies (#[trigger] w.push(entry)[i]).get_str("name"@) != Some(name) by {
        assert(w.push(entry)[i] == w[i]);
        assert(keeps(w[i], "name"@, name));
    }
}

/// The configuration subcommands.
#[derive(Clone, Copy, Debug, PartialEq, Eq, Structural)]
pub enum ConfigureCommand {
    InitializeServer,
    EncryptConfig,
    DecryptConfig,
    LearnServer,
    LearnClient,
    DeleteClient,
    DeleteServer,
}

/// The name of a configuration subcommand.
pub open spec fn command_name(c: ConfigureCommand) -> Seq<char> {
    match c {
        ConfigureCommand::InitializeServer => "initialize-server"@,
        ConfigureCommand::EncryptConfig => "encrypt-config"@,
        ConfigureCommand::DecryptConfig => "decrypt-config"@,
        ConfigureCommand::LearnServer => "learn-server"@,
        ConfigureCommand::LearnClient => "learn-client"@,
        ConfigureCommand::DeleteClient => "delete-client"@,
        ConfigureCommand::DeleteServer => "delete-server"@,
    }
}

/// The configuration subcommand a name selects.
pub fn configure(subcommand: &str) -> (r: Option<ConfigureCommand>)
    ensures
        match r {
            Some(c) => subcommand@ == command_name(c),
            None => forall|c: ConfigureCommand| subcommand@ != #[trigger] command_name(c),
        },
{
    if str_eq(subcommand, "initialize-server") {
        Some(ConfigureCommand::InitializeServer)
    } else if str_eq(subcommand, "encrypt-config") {
        Some(ConfigureCommand::EncryptConfig)
    } else if str_eq(subcommand, "decrypt-config") {
        Some(ConfigureCommand::DecryptConfig)
    } else if str_eq(subcommand, "learn-server") {
        Some(ConfigureCommand::LearnServer)
    } else if str_eq(subcommand, "learn-client") {
        Some(ConfigureCommand::LearnClient)
    } else if str_eq(subcommand, "delete-client") {
        Some(ConfigureCommand::DeleteClient)
    } else if str_eq(subcommand, "delete-server") {
        Some(ConfigureCommand::DeleteServer)
    } else {
        None
    }
}

/// Forgets clients of a server configuration by public key or name,
/// returning how many went.
pub fn subcommand_delete_client(config: &mut TomlValue, name: Option<&str>, pubkey: Option<&str>) -> (r: usize)
    requires
        old(config)@ is Table,
        absent_or_array(old(config)@, "clients"@),
        array_at(old(config)@, "clients"@) matches Some(a) ==> {
            &&& pubkey is Some ==> texts_at(a, "pubkey"@)
            &&& name is Some ==> texts_at(without_opt(a, "pubkey"@, opt_view_str(pubkey)), "name"@)
        },
    ensures
        match array_at(old(config)@, "clients"@) {
            Some(a) => {
                let kept = without_opt(without_opt(a, "pubkey"@, opt_view_str(pubkey)), "name"@, opt_view_str(name));
                &&& final(config)@ == with_array(old(config)@, "clients"@, kept)
                &&& r == a.len() - kept.len()
            },
            None => final(config)@ == old(config)@ && r == 0,
        },
{
    delete_client_or_server(config, "clients", name, pubkey)
}

/// Forgets servers of a client configuration by public key or name,
/// returning how many went.
pub fn subcommand_delete_server(config: &mut TomlValue, name: Option<&str>, pubkey: Option<&str>) -> (r: usize)
    requires
        old(config)@ is Table,
        absent_or_array(old(config)@, "servers"@),
        array_at(old(config)@, "servers"@) matches Some(a) ==> {
            &&& pubkey is Some ==> texts_at(a, "pubkey"@)
            &&& name is Some ==> texts_at(without_opt(a, "pubkey"@, opt_view_str(pubkey)), "name"@)
        },
    ensures
        match array_at(old(config)@, "servers"@) {
            Some(a) => {
                let kept = without_opt(without_opt(a, "pubkey"@, opt_view_str(pubkey)), "name"@, opt_view_str(name));
                &&& final(config)@ == with_array(old(config)@, "servers"@, kept)
                &&& r == a.len() - kept.len()
            },
            None => final(config)@ == old(config)@ && r == 0,
        },
{
    delete_client_or_server(config, "servers", name, pubkey)
}

/// Learns a client: the imported table, with the name, user and forced
/// command given on the command line, is appended to the server's clients.
pub fn subcommand_learn_client(
    config: &mut TomlValue,
    import: TomlValue,
    name: Option<&str>,
    setuser: Option<&str>,
    forcedcommand: Option<&str>,
)
    requires
        import@ is Table,
        old(config)@ is Table,
        absent_or_array(old(config)@, "clients"@),
    ensures
        final(config)@ == with_array(
            old(config)@,
            "clients"@,
            match array_at(old(config)@, "clients"@) {
                Some(a) => a,
                None => Seq::<TomlSpec>::empty(),
            }.push(
                TomlSpec::Table(
                    set_text(
                        set_text(set_text(import@->Table_0, "name"@, opt_view_str(name)), "setuser"@, opt_view_str(setuser)),
                        "forcedcommand"@,
                        opt_view_str(forcedcommand),
                    ),
                ),
            ),
        ),
{
    let entry = client_entry(import, name, setuser, forcedcommand);
    add_client(config, entry);
}

/// Learns a server under a name: the imported table, with the client's new
/// keys and the name, replaces any server of that name in the client's
/// configuration. Returns what the server's operator is shown: the
/// pre-shared key and the client's public key. Afterwards exactly one
/// server carries the name: the new one, last.
pub fn subcommand_learn_server(
    config: &mut TomlValue,
    import: TomlValue,
    name: &str,
    privkey: &[u8],
    pubkey: &[u8],
    psk: &[u8],
) -> (r: TomlValue)
    requires
        import@ is Table,
        old(config)@ is Table,
        absent_or_array(old(config)@, "servers"@),
        array_at(old(config)@, "servers"@) matches Some(a) ==> texts_at(a, "name"@),
        privkey@.len() <= usize::MAX / 512,
        pubkey@.len() <= usize::MAX / 512,
        psk@.len() <= usize::MAX / 512,
    ensures
        r@ == TomlSpec::Table(seq![("psk"@, key_text(psk@)), ("pubkey"@, key_text(pubkey@))]),
        ({
            let entry = TomlSpec::Table(
                entries_insert(
                    entries_insert(
                        entries_insert(
                            entries_insert(import@->Table_0, "privkey"@, key_text(privkey@)),
                            "my_pubkey"@,
                            key_text(pubkey@),
                        ),
                        "psk"@,
                        key_text(psk@),
                    ),
                    "name"@,
                    TomlSpec::Str(name@),
                ),
            );
            let servers = match array_at(old(config)@, "servers"@) {
                Some(a) => without(a, "name"@, name@),
                None => Seq::<TomlSpec>::empty(),
            }.push(entry);
            &&& final(config)@ == with_array(old(config)@, "servers"@, servers)
            &&& servers.last() == entry
            &&& forall|i: int| 0 <= i < servers.len() - 1 ==> (#[trigger] servers[i]).get_str("name"@) != Some(name@)
        }),
{
    let ghost iv = import@;
    let entry = server_entry(import, name, privkey, pubkey, psk);
    proof {
        crate::value::lemma_insert_get(
            entries_insert(
                entries_insert(entries_insert(iv->Table_0, "privkey"@, key_text(privkey@)), "my_pubkey"@, key_text(pubkey@)),
                "psk"@,
                key_text(psk@),
            ),
            "name"@,
            TomlSpec::Str(name@),
            "name"@,
        );
    }
    let ghost ev = entry@;
    proof {
        match array_at(config@, "servers"@) {
            Some(a) => law_learned_server_unique(a, name@, ev),
            None => law_learned_server_unique(Seq::empty(), name@, ev),
        }
        assert(without(Seq::<TomlSpec>::empty(), "name"@, name@) =~= Seq::<TomlSpec>::empty());
    }
    add_server(config, name, entry);
    server_display(psk, pubkey)
}

/// Why a new server configuration could not be made.
#[derive(Clone, Copy, Debug, PartialEq, Eq, Structural)]
pub enum InitError {
    /// The TCP port given is not a port number.
    BadTcpPort,
    /// The knock port given is not a port number.
    BadKnockPort,
    /// No random port could be drawn.
    NoRandomPort,
}

/// Makes a new server configuration from fresh keys and the ports given on
/// the command line (`0` for a random port above 1024). Returns the part
/// shown to the operator and the whole.
pub fn initialize_server(privkey: &[u8], pubkey: &[u8], knock: &[u8], tcp_port: &str, knock_port: &str) -> (r: Result<
    (TomlValue, TomlValue),
    InitError,
>)
    requires
        privkey@.len() <= usize::MAX / 512,
        pubkey@.len() <= usize::MAX / 512,
        knock@.len() <= usize::MAX / 512,
    ensures
        parse_u16_spec(tcp_port@) is None ==> r == Err::<(TomlValue, TomlValue), InitError>(InitError::BadTcpPort),
        parse_u16_spec(tcp_port@) is Some && parse_u16_spec(knock_port@) is None ==> r == Err::<
            (TomlValue, TomlValue),
            InitError,
        >(InitError::BadKnockPort),
        r matches Ok(v) ==> exists|t: u16, k: u16| {
            &&& (parse_u16_spec(tcp_port@) == Some(0u16) ==> t > 1024)
            &&& (parse_u16_spec(tcp_port@) is Some && parse_u16_spec(tcp_port@) != Some(0u16) ==> Some(t) == parse_u16_spec(tcp_port@))
            &&& (parse_u16_spec(knock_port@) == Some(0u16) ==> k > 1024)
            &&& (parse_u16_spec(knock_port@) is Some && parse_u16_spec(knock_port@) != Some(0u16) ==> Some(k) == parse_u16_spec(knock_port@))
            &&& v.0@ == TomlSpec::Table(server_public_spec(pubkey@, knock@, t, k))
            &&& v.1@ == TomlSpec::Table(server_public_spec(pubkey@, knock@, t, k).push(("privkey"@, key_text(privkey@))))
        },
        r matches Err(e) ==> (e == InitError::NoRandomPort) == (parse_u16_spec(tcp_port@) is Some && parse_u16_spec(knock_port@) is Some),
        r == Err::<(TomlValue, TomlValue), InitError>(InitError::NoRandomPort) ==> (parse_u16_spec(tcp_port@) == Some(0u16)
            || parse_u16_spec(knock_port@) == Some(0u16)),
        ({
            let t = parse_u16_spec(tcp_port@);
            let k = parse_u16_spec(knock_port@);
            t is Some && t != Some(0u16) && k is Some && k != Some(0u16) ==> (r matches Ok(v) && {
                &&& v.0@ == TomlSpec::Table(server_public_spec(pubkey@, knock@, t->0, k->0))
                &&& v.1@ == TomlSpec::Table(
                    server_public_spec(pubkey@, knock@, t->0, k->0).push(("privkey"@, key_text(privkey@))),
                )
            })
        }),
{
    let tcp = match parse_u16(tcp_port) {
        Some(p) => p,
        None => return Err(InitError::BadTcpPort),
    };
    let knock_p = match parse_u16(knock_port) {
        Some(p) => p,
        None => return Err(InitError::BadKnockPort),
    };
    let t = match port_or_random(tcp) {
        Some(p) => p,
        None => return Err(InitError::NoRandomPort),
    };
    let k = match port_or_random(knock_p) {
        Some(p) => p,
        None => return Err(InitError::NoRandomPort),
    };
    let r = server_config(privkey, pubkey, knock, t, k);
    Ok(r)
}

} // verus!

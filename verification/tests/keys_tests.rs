use oxy::conf::{Conf, RunMode};
use oxy::keys::{derive_knock, get_peer_for_public_key, knock_port, knock_port_from, KnockCache, KnockError};
use oxy::session::{admit_client, AdmitError};
use oxy::value::TomlValue;

fn text(s: &str) -> TomlValue {
    TomlValue::String(s.to_string())
}

fn server_conf(entries: Vec<(&str, TomlValue)>) -> Conf {
    Conf {
        server: Some(TomlValue::Table(entries.into_iter().map(|(k, v)| (k.to_string(), v)).collect())),
        client: None,
    }
}

fn client_table(name: &str, pubkey: &str, psk: Option<&str>) -> TomlValue {
    let mut t = vec![("name".to_string(), text(name)), ("pubkey".to_string(), text(pubkey))];
    if let Some(p) = psk {
        t.push(("psk".to_string(), text(p)));
    }
    TomlValue::Table(t)
}

#[test]
fn knock_port_from_first_two_bytes() {
    assert_eq!(knock_port_from(&[0x10, 0x00]), Some(4096));
    assert_eq!(knock_port_from(&[0x04, 0x01, 9, 9]), Some(1025));
}

#[test]
fn knock_port_search_is_deterministic_and_above_1024() {
    let mut secret = vec![0u8, 1];
    secret.extend(vec![b'k'; 30]);
    let a = knock_port_from(&secret).expect("found");
    let b = knock_port_from(&secret).expect("found");
    assert_eq!(a, b);
    assert!(a > 1024);
}

#[test]
fn knock_port_from_configuration() {
    let conf = server_conf(vec![("knock", text("CAAA"))]);
    assert_eq!(knock_port(&conf, RunMode::Server, None), Ok(4096));
    assert_eq!(knock_port(&conf, RunMode::Client, None), Err(KnockError::NoKnockKey));
    let short = server_conf(vec![("knock", text("AA"))]);
    assert_eq!(knock_port(&short, RunMode::Server, None), Err(KnockError::BadKnockKey));
}

#[test]
fn derived_knock_depends_on_period() {
    let a = derive_knock(b"secret", 120);
    let b = derive_knock(b"secret", 180);
    assert_eq!(a.len(), 100);
    assert_eq!(a, derive_knock(b"secret", 120));
    assert_ne!(a, b);
    assert_ne!(derive_knock(b"secret", 0), derive_knock(b"secres", 0));
}

#[test]
fn knock_accepted_in_same_and_next_period() {
    let conf = server_conf(vec![("knock", text("MZXW6YTBOI"))]);
    let mut cache = KnockCache::new();
    let knock = cache.make_knock_at(&conf, RunMode::Server, None, 125).expect("knock");
    assert_eq!(knock, derive_knock(b"foobar", 120));
    assert_eq!(cache.verify_knock_at(&conf, RunMode::Server, None, &knock, 150), Ok(true));
    assert_eq!(cache.verify_knock_at(&conf, RunMode::Server, None, &knock, 185), Ok(true));
    assert_eq!(cache.verify_knock_at(&conf, RunMode::Server, None, &knock, 61), Ok(true));
    assert_eq!(cache.verify_knock_at(&conf, RunMode::Server, None, &knock, 240), Ok(false));
    assert_eq!(cache.verify_knock_at(&conf, RunMode::Server, None, b"nonsense", 150), Ok(false));
}

#[test]
fn knock_without_secret_is_refused() {
    let conf = server_conf(vec![]);
    let mut cache = KnockCache::new();
    assert_eq!(cache.make_knock_at(&conf, RunMode::Server, None, 125), Err(KnockError::NoKnockKey));
    assert_eq!(cache.verify_knock_at(&conf, RunMode::Server, None, b"x", 125), Err(KnockError::NoKnockKey));
}

#[test]
fn peer_found_by_public_key() {
    let clients = TomlValue::Array(vec![
        client_table("zed", "MNWGSZLOOQWWWZLZ", None),
        client_table("amy", "MZXW6YTBOI", None),
        client_table("bob", "MNWGSZLOOQWWWZLZ", None),
    ]);
    let conf = server_conf(vec![("clients", clients)]);
    assert_eq!(get_peer_for_public_key(&conf, b"client-key"), Some("bob".to_string()));
    assert_eq!(get_peer_for_public_key(&conf, b"foobar"), Some("amy".to_string()));
    assert_eq!(get_peer_for_public_key(&conf, b"other"), None);
    assert_eq!(conf.client_names(), vec!["amy".to_string(), "bob".to_string(), "zed".to_string()]);
}

#[test]
fn client_admitted_with_its_psk() {
    let psk32 = "AAAQEAYEAUDAOCAJBIFQYDIOB4IBCEQTCQKRMFYYDENBWHA5DYPQ";
    let clients = TomlValue::Array(vec![
        client_table("amy", "MZXW6YTBOI", Some(psk32)),
        client_table("bob", "MNWGSZLOOQWWWZLZ", Some("MZXW6YTBOI")),
        client_table("cat", "ONSXE5TFOIWXA5LC", None),
    ]);
    let conf = server_conf(vec![("clients", clients)]);
    let (name, psk) = admit_client(&conf, b"foobar").expect("admitted");
    assert_eq!(name, "amy");
    assert_eq!(psk, (0u8..32).collect::<Vec<u8>>());
    assert_eq!(admit_client(&conf, b"client-key"), Err(AdmitError::InvalidPsk));
    assert_eq!(admit_client(&conf, b"server-pub"), Err(AdmitError::NoPsk));
    assert_eq!(admit_client(&conf, b"stranger"), Err(AdmitError::UnknownPublicKey));
}

#[test]
fn knock_made_now_is_accepted_now() {
    let conf = server_conf(vec![("knock", text("MZXW6YTBOI"))]);
    let mut cache = KnockCache::new();
    let knock = cache.make_knock(&conf, RunMode::Server, None).expect("clock");
    assert_eq!(knock.len(), 100);
    assert_eq!(cache.verify_knock(&conf, RunMode::Server, None, &knock), Ok(true));
}

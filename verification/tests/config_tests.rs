use oxy::base32::{deserialize, serialize};
use oxy::config::{merge, Config, Mode};
use oxy::value::TomlValue;

fn keyed_config(mode: Option<Mode>, destination: Option<&str>, key: u8) -> Config {
    Config {
        mode,
        outer_key: Some(vec![key; 32]),
        destination: destination.map(|d| d.to_string()),
        remote_public_key: Some(vec![key + 1; 32]),
        local_private_key: Some(vec![key + 2; 32]),
    }
}

#[test]
fn overwrite_takes_the_other_configs_fields() {
    let mut a = keyed_config(Some(Mode::Client), Some("a.example:1"), 1);
    let b = keyed_config(Some(Mode::Server), Some("b.example:2"), 7);
    a.overwrite_with(&b);
    assert_eq!(a.mode, Some(Mode::Server));
    assert_eq!(a.destination.as_deref(), Some("b.example:2"));
    assert_eq!(a.outer_key, Some(vec![7u8; 32]));
    assert_eq!(a.remote_public_key, Some(vec![8u8; 32]));
    assert_eq!(a.local_private_key, Some(vec![9u8; 32]));
}

#[test]
fn overwrite_keeps_fields_the_other_leaves_unset() {
    let mut a = keyed_config(Some(Mode::Client), Some("a.example:1"), 1);
    let b = keyed_config(None, None, 7);
    a.overwrite_with(&b);
    assert_eq!(a.mode, Some(Mode::Client));
    assert_eq!(a.destination.as_deref(), Some("a.example:1"));
    assert_eq!(a.outer_key, Some(vec![7u8; 32]));
}

#[test]
fn overwrite_example_pair() {
    let mut a = Config {
        mode: Some(Mode::Client),
        destination: Some("a".to_string()),
        outer_key: Some(vec![1]),
        remote_public_key: Some(vec![2]),
        local_private_key: Some(vec![3]),
    };
    let b = Config {
        mode: Some(Mode::Server),
        destination: None,
        outer_key: Some(vec![4]),
        remote_public_key: Some(vec![2]),
        local_private_key: Some(vec![3]),
    };
    a.overwrite_with(&b);
    assert_eq!(a.mode, Some(Mode::Server));
    assert_eq!(a.destination, Some("a".to_string()));
    assert_eq!(a.outer_key, Some(vec![4]));
    assert_eq!(a.remote_public_key, Some(vec![2]));
    assert_eq!(a.local_private_key, Some(vec![3]));
}

#[test]
fn overwrite_with_itself_changes_nothing() {
    let mut a = keyed_config(Some(Mode::ServerConnection), Some("c:3"), 4);
    let b = a.clone();
    a.overwrite_with(&b);
    assert_eq!(a.mode, Some(Mode::ServerConnection));
    assert_eq!(a.destination.as_deref(), Some("c:3"));
    assert_eq!(a.outer_key, Some(vec![4u8; 32]));
}

#[test]
fn overwrite_layering_is_associative() {
    let a0 = keyed_config(None, Some("a:1"), 1);
    let b0 = keyed_config(Some(Mode::Client), None, 5);
    let c0 = keyed_config(Some(Mode::Server), Some("c:3"), 9);
    let mut left = a0.clone();
    left.overwrite_with(&b0);
    left.overwrite_with(&c0);
    let mut bc = b0.clone();
    bc.overwrite_with(&c0);
    let mut right = a0.clone();
    right.overwrite_with(&bc);
    assert_eq!(left.mode, right.mode);
    assert_eq!(left.destination, right.destination);
    assert_eq!(left.mode, Some(Mode::Server));
    assert_eq!(left.destination.as_deref(), Some("c:3"));
    assert_eq!(left.outer_key, right.outer_key);
}

#[test]
fn mode_names_round_trip() {
    for m in [Mode::Server, Mode::ServerConnection, Mode::Client] {
        assert_eq!(Mode::from_name(m.name()), Some(m));
    }
    assert_eq!(Mode::from_name("Server"), Some(Mode::Server));
    assert_eq!(Mode::from_name("nonsense"), None);
}

#[test]
fn merge_prefers_source_and_keeps_destination_only_keys() {
    let mut dest = TomlValue::Table(vec![
        ("a".to_string(), TomlValue::Integer(1)),
        ("b".to_string(), TomlValue::Integer(2)),
    ]);
    let src = TomlValue::Table(vec![
        ("b".to_string(), TomlValue::Integer(20)),
        ("c".to_string(), TomlValue::Integer(30)),
    ]);
    merge(&mut dest, &src);
    assert_eq!(dest.get("a").and_then(|v| v.as_integer()), Some(1));
    assert_eq!(dest.get("b").and_then(|v| v.as_integer()), Some(20));
    assert_eq!(dest.get("c").and_then(|v| v.as_integer()), Some(30));
}

#[test]
fn merge_of_non_tables_takes_source() {
    let mut dest = TomlValue::Integer(5);
    let src = TomlValue::String("x".to_string());
    merge(&mut dest, &src);
    assert_eq!(dest.as_str(), Some("x"));
}

#[test]
fn config_written_and_read_back() {
    let c = keyed_config(Some(Mode::Client), Some("d:4"), 3);
    let v = c.to_toml();
    let back = Config::from_toml(&v).expect("readable");
    assert_eq!(back.mode, Some(Mode::Client));
    assert_eq!(back.destination.as_deref(), Some("d:4"));
    assert_eq!(back.outer_key, Some(vec![3u8; 32]));
    assert_eq!(back.remote_public_key, Some(vec![4u8; 32]));
    assert_eq!(back.local_private_key, Some(vec![5u8; 32]));
}

#[test]
fn base32_known_vector_and_round_trip() {
    assert_eq!(serialize(&Some(b"foobar".to_vec())), "MZXW6YTBOI");
    let back = deserialize("MZXW6YTBOI").expect("valid");
    assert_eq!(back, Some(b"foobar".to_vec()));
    let key = vec![0u8, 1, 2, 250, 251, 252];
    assert_eq!(deserialize(&serialize(&Some(key.clone()))), Ok(Some(key)));
}

#[test]
fn base32_rejects_bad_text() {
    assert_eq!(deserialize("not base32!"), Err("invalid base32".to_string()));
}

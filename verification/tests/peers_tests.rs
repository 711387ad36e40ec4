use oxy::peers::{
    configure, drop_server_named, initialize_server, name_clients, port_or_random, random_port, server_display,
    subcommand_delete_client, subcommand_delete_server, subcommand_learn_client, subcommand_learn_server,
    ConfigureCommand, InitError,
};
use oxy::peers::{accept_draw, import_string, import_text};
use oxy::value::TomlValue;

fn text(s: &str) -> TomlValue {
    TomlValue::String(s.to_string())
}

fn table(entries: Vec<(&str, TomlValue)>) -> TomlValue {
    TomlValue::Table(entries.into_iter().map(|(k, v)| (k.to_string(), v)).collect())
}

fn names(config: &TomlValue, list: &str) -> Vec<Option<String>> {
    config
        .get(list)
        .and_then(|a| a.as_array())
        .map(|a| a.iter().map(|e| e.get("name").and_then(|n| n.as_str()).map(|n| n.to_string())).collect())
        .unwrap_or_default()
}

#[test]
fn dropping_a_server_removes_every_entry_with_its_name() {
    let mut config = table(vec![(
        "servers",
        TomlValue::Array(vec![
            table(vec![("name", text("a"))]),
            table(vec![("name", text("b"))]),
            table(vec![("name", text("a"))]),
            table(vec![("host", text("h"))]),
        ]),
    )]);
    drop_server_named(&mut config, "a");
    assert_eq!(names(&config, "servers"), vec![Some("b".to_string()), None]);
    drop_server_named(&mut config, "a");
    assert_eq!(names(&config, "servers"), vec![Some("b".to_string()), None]);
}

#[test]
fn dropping_without_servers_changes_nothing() {
    let mut config = table(vec![("knock", text("CAAA"))]);
    drop_server_named(&mut config, "a");
    assert!(config.get("servers").is_none());
    assert_eq!(config.get("knock").and_then(|v| v.as_str()), Some("CAAA"));
}

#[test]
fn deleting_clients_by_key_then_name_counts_them() {
    let mut config = table(vec![(
        "clients",
        TomlValue::Array(vec![
            table(vec![("name", text("a")), ("pubkey", text("K1"))]),
            table(vec![("name", text("b")), ("pubkey", text("K2"))]),
            table(vec![("name", text("c")), ("pubkey", text("K1"))]),
            table(vec![("name", text("d"))]),
        ]),
    )]);
    let n = subcommand_delete_client(&mut config, Some("d"), Some("K1"));
    assert_eq!(n, 3);
    assert_eq!(names(&config, "clients"), vec![Some("b".to_string())]);
    assert_eq!(subcommand_delete_client(&mut config, Some("zzz"), None), 0);
}

#[test]
fn deleting_from_a_missing_list_deletes_nothing() {
    let mut config = table(vec![]);
    assert_eq!(subcommand_delete_server(&mut config, Some("x"), None), 0);
    assert!(config.get("servers").is_none());
}

#[test]
fn learned_client_is_appended_with_given_fields() {
    let mut config = table(vec![]);
    let import = table(vec![("pubkey", text("K")), ("name", text("old")), ("setuser", text("root"))]);
    subcommand_learn_client(&mut config, import, Some("laptop"), None, Some("uptime"));
    let clients = config.get("clients").and_then(|v| v.as_array()).expect("clients");
    assert_eq!(clients.len(), 1);
    let c = &clients[0];
    assert_eq!(c.get("name").and_then(|v| v.as_str()), Some("laptop"));
    assert!(c.get("setuser").is_none());
    assert_eq!(c.get("forcedcommand").and_then(|v| v.as_str()), Some("uptime"));
    assert_eq!(c.get("pubkey").and_then(|v| v.as_str()), Some("K"));
}

#[test]
fn learned_server_replaces_same_name() {
    let mut config = table(vec![(
        "servers",
        TomlValue::Array(vec![table(vec![("name", text("home"))]), table(vec![("name", text("work"))])]),
    )]);
    let import = table(vec![("pubkey", text("SERVERKEY")), ("knock_port", TomlValue::Integer(5000))]);
    let shown = subcommand_learn_server(&mut config, import, "home", b"foobar", b"client-key", b"psk");
    assert_eq!(names(&config, "servers"), vec![Some("work".to_string()), Some("home".to_string())]);
    let servers = config.get("servers").and_then(|v| v.as_array()).expect("servers");
    let new = &servers[1];
    assert_eq!(new.get("privkey").and_then(|v| v.as_str()), Some("MZXW6YTBOI"));
    assert_eq!(new.get("my_pubkey").and_then(|v| v.as_str()), Some("MNWGSZLOOQWWWZLZ"));
    assert_eq!(new.get("knock_port").and_then(|v| v.as_integer()), Some(5000));
    assert_eq!(shown.get("pubkey").and_then(|v| v.as_str()), Some("MNWGSZLOOQWWWZLZ"));
    assert_eq!(shown.get("psk").and_then(|v| v.as_str()), server_display(b"psk", b"x").get("psk").and_then(|v| v.as_str()));
}

#[test]
fn unnamed_clients_get_generated_names() {
    let config = table(vec![(
        "clients",
        TomlValue::Array(vec![
            table(vec![("pubkey", text("A"))]),
            table(vec![("name", text("named"))]),
            TomlValue::Integer(7),
            table(vec![("pubkey", text("B"))]),
        ]),
    )]);
    let named = name_clients(&config).expect("no reserved names");
    assert_eq!(
        names(&named, "clients"),
        vec![
            Some("generated-client-name-0".to_string()),
            Some("named".to_string()),
            None,
            Some("generated-client-name-1".to_string()),
        ]
    );
}

#[test]
fn reserved_client_names_are_refused() {
    let config = table(vec![("clients", TomlValue::Array(vec![table(vec![("name", text("generated-client-name-5"))])]))]);
    assert_eq!(
        name_clients(&config).err(),
        Some("Config file contains statically set client name that starts with 'generated-client-name-'.".to_string())
    );
}

#[test]
fn new_server_config_with_given_ports() {
    let (shown, whole) = initialize_server(b"priv", b"pub", b"knock", "2222", "3333").expect("ok");
    assert_eq!(shown.get("tcp_port").and_then(|v| v.as_integer()), Some(2222));
    assert_eq!(shown.get("knock_port").and_then(|v| v.as_integer()), Some(3333));
    assert!(shown.get("privkey").is_none());
    assert!(whole.get("privkey").is_some());
    assert_eq!(whole.get("knock_port").and_then(|v| v.as_integer()), Some(3333));
}

#[test]
fn new_server_config_errors_and_random_ports() {
    assert_eq!(initialize_server(b"p", b"q", b"k", "x", "1").err(), Some(InitError::BadTcpPort));
    assert_eq!(initialize_server(b"p", b"q", b"k", "1", "70000").err(), Some(InitError::BadKnockPort));
    let (shown, _) = initialize_server(b"p", b"q", b"k", "0", "0").expect("random ports");
    assert!(shown.get("tcp_port").and_then(|v| v.as_integer()).unwrap() > 1024);
    assert!(shown.get("knock_port").and_then(|v| v.as_integer()).unwrap() > 1024);
    assert!(random_port().unwrap() > 1024);
    assert_eq!(port_or_random(80), Some(80));
}

#[test]
fn configure_subcommands_by_name() {
    assert_eq!(configure("learn-server"), Some(ConfigureCommand::LearnServer));
    assert_eq!(configure("delete-client"), Some(ConfigureCommand::DeleteClient));
    assert_eq!(configure("frobnicate"), None);
}

#[test]
fn import_strings_carry_text_both_ways() {
    assert_eq!(import_string("a"), "ME");
    assert_eq!(import_text("ME"), Some("a".to_string()));
    let text = "pubkey = \"ABC\"\nknock = \"DEF\"\n";
    assert_eq!(import_text(&import_string(text)), Some(text.to_string()));
    assert_eq!(import_text("not base32!"), None);
    assert_eq!(import_text("74"), None);
}

#[test]
fn drawn_ports_are_taken_above_1024() {
    assert_eq!(accept_draw(1024), None);
    assert_eq!(accept_draw(0), None);
    assert_eq!(accept_draw(1025), Some(1025));
    assert_eq!(accept_draw(65535), Some(65535));
}

use oxy::base32::serialize;
use oxy::conf::Conf;
use oxy::noise::{client_handshake_finish, client_handshake_start, server_handshake, ClientHandshakeError, HandshakeError};
use oxy::session::{AdmitError, HandshakeKeyError};
use oxy::value::TomlValue;

fn text(bytes: &[u8]) -> TomlValue {
    TomlValue::String(serialize(&Some(bytes.to_vec())))
}

fn keypair() -> snow::Keypair {
    let params: snow::params::NoiseParams = "Noise_IKpsk1_25519_AESGCM_SHA512".parse().unwrap();
    snow::Builder::new(params).generate_keypair().unwrap()
}

fn confs(server: &snow::Keypair, client: &snow::Keypair, psk: &[u8]) -> (Conf, Conf) {
    let server_conf = Conf {
        server: Some(TomlValue::Table(vec![
            ("privkey".to_string(), text(&server.private)),
            (
                "clients".to_string(),
                TomlValue::Array(vec![TomlValue::Table(vec![
                    ("name".to_string(), TomlValue::String("laptop".to_string())),
                    ("pubkey".to_string(), text(&client.public)),
                    ("psk".to_string(), text(psk)),
                ])]),
            ),
        ])),
        client: None,
    };
    let client_conf = Conf {
        server: None,
        client: Some(TomlValue::Table(vec![
            ("privkey".to_string(), text(&client.private)),
            (
                "servers".to_string(),
                TomlValue::Array(vec![TomlValue::Table(vec![
                    ("name".to_string(), TomlValue::String("home".to_string())),
                    ("pubkey".to_string(), text(&server.public)),
                    ("psk".to_string(), text(psk)),
                ])]),
            ),
        ])),
    };
    (server_conf, client_conf)
}

#[test]
fn handshake_admits_a_configured_client() {
    let server = keypair();
    let client = keypair();
    let psk = [7u8; 32];
    let (server_conf, client_conf) = confs(&server, &client, &psk);
    let (first, session) = client_handshake_start(&client_conf, Some("home")).expect("client starts");
    let (name, reply, _server_session) = server_handshake(&server_conf, &server.private, &first).expect("server admits");
    assert_eq!(name, "laptop");
    assert!(client_handshake_finish(session, &reply).is_some());
}

#[test]
fn handshake_refuses_unknown_clients_and_wrong_psks() {
    let server = keypair();
    let client = keypair();
    let stranger = keypair();
    let (server_conf, _) = confs(&server, &client, &[7u8; 32]);
    let (_, stranger_conf) = confs(&server, &stranger, &[7u8; 32]);
    let (first, _) = client_handshake_start(&stranger_conf, Some("home")).expect("client starts");
    assert_eq!(
        server_handshake(&server_conf, &server.private, &first).err(),
        Some(HandshakeError::Refused(AdmitError::UnknownPublicKey))
    );
    let (_, wrong_psk_conf) = confs(&server, &client, &[8u8; 32]);
    let (first, _) = client_handshake_start(&wrong_psk_conf, Some("home")).expect("client starts");
    assert_eq!(server_handshake(&server_conf, &server.private, &first).err(), Some(HandshakeError::Failed));
    assert_eq!(server_handshake(&server_conf, &server.private, b"").err(), Some(HandshakeError::NoClientKey));
}

#[test]
fn client_handshake_needs_its_keys() {
    let server = keypair();
    let client = keypair();
    let (_, client_conf) = confs(&server, &client, &[7u8; 5]);
    assert_eq!(client_handshake_start(&client_conf, Some("home")).err(), Some(ClientHandshakeError::BadKeyLength));
    assert_eq!(
        client_handshake_start(&client_conf, Some("away")).err(),
        Some(ClientHandshakeError::MissingKey(HandshakeKeyError::NoPsk))
    );
}

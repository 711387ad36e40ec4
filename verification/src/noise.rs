//! The Noise IKpsk1 handshake (Curve25519, AES-GCM, SHA-512) that opens a
//! session: the calls into `snow`, and the server's and client's decisions
//! around them.

use vstd::prelude::*;
use crate::conf::Conf;
use crate::session::{admit_client, client_for_key, client_handshake_keys, AdmitError, HandshakeKeyError};
use crate::value::opt_bytes_view;

verus! {

/// A session's state once the handshake is done.
#[verifier::external_type_specification]
#[verifier::external_body]
pub struct ExTransportState(snow::TransportState);

/// A session's state during the handshake.
#[verifier::external_type_specification]
#[verifier::external_body]
pub struct ExHandshakeState(snow::HandshakeState);

/// The static public key a client's first handshake message carries, as a
/// responder holding `local_private_key` reads it; `None` where it cannot
/// be read.
pub uninterp spec fn noise_ik_remote_static(local_private_key: Seq<u8>, message: Seq<u8>) -> Option<Seq<u8>>;

/// Whether a responder holding `local_private_key` and the pre-shared key
/// `psk` accepts a client's first handshake message.
pub uninterp spec fn noise_ik_accepts(local_private_key: Seq<u8>, psk: Seq<u8>, message: Seq<u8>) -> bool;

/// Builds a snow responder for `Noise_IKpsk1_25519_AESGCM_SHA512` with the
/// local private key and no pre-shared key, reads the client's first
/// message into it (the read itself fails for want of the pre-shared key)
/// and returns `get_remote_static`. Its result is named by
/// `noise_ik_remote_static`. snow copies the private key into 32 bytes, and
/// panics on a longer one.
#[verifier::external_body]
fn noise_remote_static(local_private_key: &[u8], message: &[u8]) -> (r: Option<Vec<u8>>)
    requires
        local_private_key@.len() <= 32,
    ensures
        opt_bytes_view(r) == noise_ik_remote_static(local_private_key@, message@),
{
    let params: snow::params::NoiseParams = "Noise_IKpsk1_25519_AESGCM_SHA512".parse().ok()?;
    let mut session = snow::Builder::new(params).local_private_key(local_private_key).ok()?.build_responder().ok()?;
    let mut buffer = vec![0u8; 65535];
    let _ = session.read_message(message, &mut buffer);
    session.get_remote_static().map(|k| k.to_vec())
}

/// Builds a snow responder for `Noise_IKpsk1_25519_AESGCM_SHA512` with the
/// local private key and the pre-shared key, reads the client's first
/// message, writes the empty reply and enters transport mode. A reply is
/// only had where the message is accepted (`noise_ik_accepts`); the reply
/// carries a fresh random ephemeral key, so nothing more is stated of it,
/// and where writing fails there is none.
#[verifier::external_body]
fn noise_respond(local_private_key: &[u8], psk: &[u8], message: &[u8]) -> (r: Option<(Vec<u8>, snow::TransportState)>)
    requires
        local_private_key@.len() <= 32,
        psk@.len() == 32,
    ensures
        r is Some ==> noise_ik_accepts(local_private_key@, psk@, message@),
{
    let params: snow::params::NoiseParams = "Noise_IKpsk1_25519_AESGCM_SHA512".parse().ok()?;
    let psk: &[u8; 32] = psk.try_into().ok()?;
    let mut session =
        snow::Builder::new(params).local_private_key(local_private_key).ok()?.psk(1, psk).ok()?.build_responder().ok()?;
    let mut buffer = vec![0u8; 65535];
    session.read_message(message, &mut buffer).ok()?;
    let len = session.write_message(b"", &mut buffer).ok()?;
    buffer.truncate(len);
    Some((buffer, session.into_transport_mode().ok()?))
}

/// The Curve25519 public key of a 32-byte private key, as snow's default
/// resolver derives it.
pub uninterp spec fn x25519_public(private_key: Seq<u8>) -> Seq<u8>;

/// What a first handshake message made with the private key `k`, the
/// pre-shared key `psk` and the server's public key `pk` means to the
/// server that holds the private key of `pk`: it reads the client's public
/// key from it, and accepts it with the same pre-shared key.
pub open spec fn initiated_for(k: Seq<u8>, psk: Seq<u8>, pk: Seq<u8>, message: Seq<u8>) -> bool {
    k.len() == 32 && pk.len() == 32 ==> forall|sk: Seq<u8>|
        sk.len() == 32 && #[trigger] x25519_public(sk) == pk ==> {
            &&& noise_ik_remote_static(sk, message) == Some(x25519_public(k))
            &&& noise_ik_accepts(sk, psk, message)
        }
}

/// Builds a snow initiator for `Noise_IKpsk1_25519_AESGCM_SHA512` with the
/// local private key, the pre-shared key and the server's public key, and
/// writes the first (empty) handshake message. The message carries a fresh
/// random ephemeral key, so its bytes are not stated; what is stated is
/// what the Noise IK pattern gives a responder holding the server's private
/// key (`initiated_for`): the client's public key, read from the message,
/// and acceptance with the same pre-shared key. snow copies the private key
/// into 32 bytes and the public key into 56, and panics on longer ones.
#[verifier::external_body]
fn noise_initiate(local_private_key: &[u8], psk: &[u8], remote_public_key: &[u8]) -> (r: Option<(Vec<u8>, snow::HandshakeState)>)
    requires
        local_private_key@.len() <= 32,
        psk@.len() == 32,
        remote_public_key@.len() <= 56,
    ensures
        r matches Some((m, _)) ==> (local_private_key@.len() == 32 && remote_public_key@.len() == 32 ==> forall|
            sk: Seq<u8>,
        |
            sk.len() == 32 && #[trigger] x25519_public(sk) == remote_public_key@ ==> {
                &&& noise_ik_remote_static(sk, m@) == Some(x25519_public(local_private_key@))
                &&& noise_ik_accepts(sk, psk@, m@)
            }),
{
    let params: snow::params::NoiseParams = "Noise_IKpsk1_25519_AESGCM_SHA512".parse().ok()?;
    let psk: &[u8; 32] = psk.try_into().ok()?;
    let mut session = snow::Builder::new(params)
        .local_private_key(local_private_key).ok()?
        .psk(1, psk).ok()?
        .remote_public_key(remote_public_key).ok()?
        .build_initiator().ok()?;
    let mut buffer = vec![0u8; 65535];
    let len = session.write_message(b"", &mut buffer).ok()?;
    buffer.truncate(len);
    Some((buffer, session))
}

/// Reads the server's reply into a client's handshake with snow's
/// `read_message` and enters transport mode. Whether the reply is accepted
/// depends on the session's random ephemeral key, so nothing is stated of
/// the outcome.
#[verifier::external_body]
fn noise_finish(session: snow::HandshakeState, reply: &[u8]) -> (r: Option<snow::TransportState>) {
    let mut session = session;
    let mut buffer = vec![0u8; 65535];
    session.read_message(reply, &mut buffer).ok()?;
    session.into_transport_mode().ok()
}

/// Why a server refused a client's handshake.
#[derive(Clone, Copy, Debug, PartialEq, Eq, Structural)]
pub enum HandshakeError {
    /// No static key could be read from the client's message.
    NoClientKey,
    /// The client could not be admitted by its key.
    Refused(AdmitError),
    /// The handshake with the client's pre-shared key failed.
    Failed,
}

/// What the server's side of the handshake comes to for a client message
/// that carries the static key `key` (see `server_handshake`).
pub open spec fn server_handshake_outcome(
    conf: crate::conf::ConfView,
    local_private_key: Seq<u8>,
    message: Seq<u8>,
    key: Seq<u8>,
    r: Result<(String, Vec<u8>, snow::TransportState), HandshakeError>,
) -> bool {
    &&& r is Ok ==> exists|psk: Seq<u8>| {
        &&& client_for_key(conf, r->Ok_0.0@, key)
        &&& conf.peer_key(crate::conf::RunMode::Server, r->Ok_0.0@, "psk"@) == Some(psk)
        &&& psk.len() == 32
        &&& noise_ik_accepts(local_private_key, psk, message)
    }
    &&& r != Err::<(String, Vec<u8>, snow::TransportState), HandshakeError>(HandshakeError::NoClientKey)
    &&& r == Err::<(String, Vec<u8>, snow::TransportState), HandshakeError>(
        HandshakeError::Refused(AdmitError::UnknownPublicKey),
    ) ==> forall|m: Seq<char>|
        #![trigger crate::conf::first_named(crate::conf::peer_list(conf.server, "clients"@), m)]
        crate::conf::first_named(crate::conf::peer_list(conf.server, "clients"@), m) is Some
            ==> !crate::keys::pubkey_matches(conf, m, key)
    &&& r == Err::<(String, Vec<u8>, snow::TransportState), HandshakeError>(
        HandshakeError::Refused(AdmitError::NoPsk),
    ) ==> exists|n: Seq<char>|
        client_for_key(conf, n, key) && conf.peer_key(crate::conf::RunMode::Server, n, "psk"@) is None
    &&& r == Err::<(String, Vec<u8>, snow::TransportState), HandshakeError>(
        HandshakeError::Refused(AdmitError::InvalidPsk),
    ) ==> exists|n: Seq<char>|
        client_for_key(conf, n, key) && (conf.peer_key(crate::conf::RunMode::Server, n, "psk"@) matches Some(
            x,
        ) && x.len() != 32)
    &&& r == Err::<(String, Vec<u8>, snow::TransportState), HandshakeError>(HandshakeError::Failed)
        ==> exists|n: Seq<char>, psk: Seq<u8>|
        client_for_key(conf, n, key) && conf.peer_key(crate::conf::RunMode::Server, n, "psk"@) == Some(psk)
            && psk.len() == 32
}

/// The server's side of the handshake: read the client's static key from
/// its first message, admit the client configured with it (see
/// `admit_client`), and answer with the client's pre-shared key. Returns the
/// client's name, the reply to send, and the session.
pub fn server_handshake(conf: &Conf, local_private_key: &[u8], message: &[u8]) -> (r: Result<
    (String, Vec<u8>, snow::TransportState),
    HandshakeError,
>)
    requires
        local_private_key@.len() <= 32,
    ensures
        noise_ik_remote_static(local_private_key@, message@) is None ==> r matches Err(HandshakeError::NoClientKey),
        noise_ik_remote_static(local_private_key@, message@) is Some ==> server_handshake_outcome(
            conf@,
            local_private_key@,
            message@,
            noise_ik_remote_static(local_private_key@, message@)->0,
            r,
        ),
{
    let key = match noise_remote_static(local_private_key, message) {
        Some(k) => k,
        None => return Err(HandshakeError::NoClientKey),
    };
    let ghost k = key@;
    assert(noise_ik_remote_static(local_private_key@, message@) == Some(k));
    let (name, psk) = match admit_client(conf, key.as_slice()) {
        Ok(v) => v,
        Err(e) => {
            proof {
                match e {
                    AdmitError::NoPsk => {
                        let n = choose|n: Seq<char>|
                            client_for_key(conf@, n, k) && conf@.peer_key(crate::conf::RunMode::Server, n, "psk"@) is None;
                        assert(client_for_key(conf@, n, k));
                    },
                    AdmitError::InvalidPsk => {
                        let n = choose|n: Seq<char>|
                            client_for_key(conf@, n, k) && (conf@.peer_key(crate::conf::RunMode::Server, n, "psk"@) matches Some(
                                x,
                            ) && x.len() != 32);
                        assert(client_for_key(conf@, n, k));
                    },
                    AdmitError::UnknownPublicKey => {},
                }
            }
            let r: Result<(String, Vec<u8>, snow::TransportState), HandshakeError> = Err(HandshakeError::Refused(e));
            assert(server_handshake_outcome(conf@, local_private_key@, message@, k, r));
            return r;
        },
    };
    match noise_respond(local_private_key, psk.as_slice(), message) {
        Some((reply, session)) => {
            assert(client_for_key(conf@, name@, k) && conf@.peer_key(crate::conf::RunMode::Server, name@, "psk"@)
                == Some(psk@) && psk@.len() == 32 && noise_ik_accepts(local_private_key@, psk@, message@));
            let r: Result<(String, Vec<u8>, snow::TransportState), HandshakeError> = Ok((name, reply, session));
            assert(server_handshake_outcome(conf@, local_private_key@, message@, k, r));
            r
        },
        None => {
            assert(client_for_key(conf@, name@, k) && conf@.peer_key(crate::conf::RunMode::Server, name@, "psk"@)
                == Some(psk@) && psk@.len() == 32);
            let r: Result<(String, Vec<u8>, snow::TransportState), HandshakeError> = Err(HandshakeError::Failed);
            assert(server_handshake_outcome(conf@, local_private_key@, message@, k, r));
            r
        },
    }
}

/// Why a client could not start its handshake.
#[derive(Clone, Copy, Debug, PartialEq, Eq, Structural)]
pub enum ClientHandshakeError {
    /// A key is missing from the configuration.
    MissingKey(HandshakeKeyError),
    /// A key has the wrong length: the private key over 32 bytes, the
    /// pre-shared key not 32, or the server's public key over 56.
    BadKeyLength,
    /// The handshake could not be started.
    Failed,
}

/// The client's side of the handshake, to the server `peer`: its keys (see
/// `client_handshake_keys`), checked for length, and the first message,
/// made with exactly those keys (`initiated_for`).
pub fn client_handshake_start(conf: &Conf, peer: Option<&str>) -> (r: Result<
    (Vec<u8>, snow::HandshakeState),
    ClientHandshakeError,
>)
    ensures
        ({
            let p = crate::value::opt_str_view(peer);
            let k = conf@.key_with_fallback(crate::conf::RunMode::Client, p, "privkey"@);
            let s = conf@.key_with_fallback(crate::conf::RunMode::Client, p, "psk"@);
            let pk = match p {
                Some(x) => conf@.peer_key(crate::conf::RunMode::Client, x, "pubkey"@),
                None => None,
            };
            &&& k is None ==> r == Err::<(Vec<u8>, snow::HandshakeState), ClientHandshakeError>(
                ClientHandshakeError::MissingKey(HandshakeKeyError::NoPrivateKey),
            )
            &&& k is Some && s is None ==> r == Err::<(Vec<u8>, snow::HandshakeState), ClientHandshakeError>(
                ClientHandshakeError::MissingKey(HandshakeKeyError::NoPsk),
            )
            &&& k is Some && s is Some && pk is None ==> r == Err::<(Vec<u8>, snow::HandshakeState), ClientHandshakeError>(
                ClientHandshakeError::MissingKey(HandshakeKeyError::NoPeerPublicKey),
            )
            &&& k is Some && s is Some && pk is Some ==> (r == Err::<(Vec<u8>, snow::HandshakeState), ClientHandshakeError>(
                ClientHandshakeError::BadKeyLength,
            ) <==> (k->0.len() > 32 || s->0.len() != 32 || pk->0.len() > 56))
            &&& k is Some && s is Some && pk is Some && k->0.len() <= 32 && s->0.len() == 32 && pk->0.len() <= 56 ==> (r is Ok
                || r == Err::<(Vec<u8>, snow::HandshakeState), ClientHandshakeError>(ClientHandshakeError::Failed))
            &&& r matches Ok((m, _)) ==> (k is Some && s is Some && pk is Some && initiated_for(k->0, s->0, pk->0, m@))
        }),
{
    let (privkey, psk, remote) = match client_handshake_keys(conf, peer) {
        Ok(v) => v,
        Err(e) => return Err(ClientHandshakeError::MissingKey(e)),
    };
    if privkey.len() > 32 || psk.len() != 32 || remote.len() > 56 {
        return Err(ClientHandshakeError::BadKeyLength);
    }
    match noise_initiate(privkey.as_slice(), psk.as_slice(), remote.as_slice()) {
        Some(v) => Ok(v),
        None => Err(ClientHandshakeError::Failed),
    }
}

/// The client's side of the handshake once the server replied: the session,
/// where the reply is accepted.
pub fn client_handshake_finish(session: snow::HandshakeState, reply: &[u8]) -> (r: Option<snow::TransportState>) {
    noise_finish(session, reply)
}

} // verus!

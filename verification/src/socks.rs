//! The SOCKS5 proxy a client can serve: the greeting, then one CONNECT
//! request naming an IPv4 address or a host name.

use vstd::prelude::*;
use vstd::string::*;
use vstd::slice::slice_subrange;
use vstd::utf8::{decode_utf8, valid_utf8};
use crate::crypto::utf8_string;
use crate::util::{append_dec, be16, dec, digit_char, read_be16};
use crate::metacommand::first_index;
use crate::transfer::{after, before};

verus! {

/// Where a SOCKS5 conversation is.
#[derive(Clone, Copy, Debug, PartialEq, Eq, Structural)]
pub enum SocksState {
    /// Waiting for the greeting.
    Initial,
    /// Greeted; waiting for the request.
    Authed,
}

/// The greeting's answer: version 5, no authentication.
pub open spec fn greeting_reply() -> Seq<u8> {
    seq![5u8, 0u8]
}

/// The request's answer: version 5, success, an IPv4 address of zeros.
pub open spec fn request_reply() -> Seq<u8> {
    seq![5u8, 0u8, 0u8, 1u8, 0u8, 0u8, 0u8, 0u8, 0u8, 0u8]
}

/// Whether data is what the protocol expects in a state: a version 5
/// greeting; or a version 5 CONNECT request for an IPv4 address (four bytes
/// and a port) or for a UTF-8 host name (a length, the name and a port).
pub open spec fn well_formed(state: SocksState, d: Seq<u8>) -> bool {
    match state {
        SocksState::Initial => d.len() >= 1 && d[0] == 5,
        SocksState::Authed => {
            &&& d.len() >= 4
            &&& d[0] == 5 && d[1] == 1 && d[2] == 0
            &&& (d[3] == 1 && d.len() >= 10) || (d[3] == 3 && d.len() >= 5 && d.len() >= 7 + d[4] && valid_utf8(
                d.subrange(5, 5 + d[4]),
            ))
        },
    }
}

/// The address a request names: `a.b.c.d:port` or `host:port`.
pub open spec fn request_destination(d: Seq<u8>) -> Seq<char> {
    if d[3] == 1 {
        dec(d[4] as nat) + "."@ + dec(d[5] as nat) + "."@ + dec(d[6] as nat) + "."@ + dec(d[7] as nat) + ":"@ + dec(
            be16(d.subrange(8, 10)) as nat,
        )
    } else {
        decode_utf8(d.subrange(5, 5 + d[4])) + ":"@ + dec(be16(d.subrange(5 + d[4], 7 + d[4])) as nat)
    }
}

/// What to do with data from a SOCKS5 client.
#[derive(Debug)]
pub enum SocksStep {
    /// Nothing arrived.
    Idle,
    /// Answer the greeting.
    Greet { reply: Vec<u8> },
    /// Open a remote connection to `destination`, answer, and pass data on.
    Connect { destination: String, reply: Vec<u8> },
}

/// Whether data from a SOCKS5 client is what the protocol expects.
pub fn socks_well_formed(state: SocksState, d: &[u8]) -> (r: bool)
    ensures
        r == well_formed(state, d@),
{
    match state {
        SocksState::Initial => d.len() >= 1 && d[0] == 5,
        SocksState::Authed => {
            if d.len() < 4 || d[0] != 5 || d[1] != 1 || d[2] != 0 {
                return false;
            }
            if d[3] == 1 {
                return d.len() >= 10;
            }
            if d[3] != 3 || d.len() < 5 {
                return false;
            }
            let n = d[4] as usize;
            if d.len() < 7 + n {
                return false;
            }
            let name = slice_subrange(d, 5, 5 + n);
            utf8_string(name).is_some()
        },
    }
}

/// Takes data from a SOCKS5 client in a state; returns the next state and
/// what to do.
pub fn socks_step(state: SocksState, d: &[u8]) -> (r: (SocksState, SocksStep))
    requires
        d@.len() > 0 ==> well_formed(state, d@),
    ensures
        d@.len() == 0 ==> r.0 == state && r.1 is Idle,
        d@.len() > 0 && state == SocksState::Initial ==> r.0 == SocksState::Authed && (r.1 matches SocksStep::Greet {
            reply,
        } && reply@ == greeting_reply()),
        d@.len() > 0 && state == SocksState::Authed ==> r.0 == SocksState::Authed && (r.1 matches SocksStep::Connect {
            destination,
            reply,
        } && destination@ == request_destination(d@) && reply@ == request_reply()),
{
    if d.len() == 0 {
        return (state, SocksStep::Idle);
    }
    match state {
        SocksState::Initial => {
            let reply: Vec<u8> = vec![5u8, 0u8];
            assert(reply@ =~= greeting_reply());
            (SocksState::Authed, SocksStep::Greet { reply })
        },
        SocksState::Authed => {
            let mut dest = String::new();
            if d[3] == 1 {
                append_dec(&mut dest, d[4] as u64);
                dest.append(".");
                append_dec(&mut dest, d[5] as u64);
                dest.append(".");
                append_dec(&mut dest, d[6] as u64);
                dest.append(".");
                append_dec(&mut dest, d[7] as u64);
                dest.append(":");
                let port = read_be16(slice_subrange(d, 8, 10));
                append_dec(&mut dest, port as u64);
                proof {
                    reveal_strlit(".");
                    reveal_strlit(":");
                }
                assert(dest@ =~= request_destination(d@));
            } else {
                let n = d[4] as usize;
                let name = match utf8_string(slice_subrange(d, 5, 5 + n)) {
                    Some(s) => s,
                    None => String::new(),
                };
                dest.append(name.as_str());
                dest.append(":");
                let port = read_be16(slice_subrange(d, 5 + n, 7 + n));
                append_dec(&mut dest, port as u64);
                proof {
                    reveal_strlit(":");
                }
                assert(dest@ =~= request_destination(d@));
            }
            let reply: Vec<u8> = vec![5u8, 0u8, 0u8, 1u8, 0u8, 0u8, 0u8, 0u8, 0u8, 0u8];
            assert(reply@ =~= request_reply());
            (SocksState::Authed, SocksStep::Connect { destination: dest, reply })
        },
    }
}

/// Decimal text holds only digits: no dot and no colon.
proof fn lemma_dec_no_separators(n: nat)
    ensures
        !dec(n).contains('.'),
        !dec(n).contains(':'),
    decreases n,
{
    if n >= 10 {
        lemma_dec_no_separators(n / 10);
        assert(dec(n) == dec(n / 10).push(digit_char(n % 10)));
        assert forall|c: char| c == '.' || c == ':' implies !dec(n).contains(c) by {
            if dec(n).contains(c) {
                let i = choose|i: int| 0 <= i < dec(n).len() && dec(n)[i] == c;
                if i < dec(n / 10).len() {
                    assert(dec(n / 10)[i] == c);
                }
            }
        }
    } else {
        assert(dec(n) == seq![digit_char(n)]);
        assert(!dec(n).contains('.')) by {
            if dec(n).contains('.') {
                assert(dec(n)[0] == '.');
            }
        }
        assert(!dec(n).contains(':')) by {
            if dec(n).contains(':') {
                assert(dec(n)[0] == ':');
            }
        }
    }
}

/// In a text made of a part without a separator, the separator and the
/// rest, the first separator follows that part.
proof fn lemma_split_at_first(x: Seq<char>, c: char, y: Seq<char>)
    requires
        !x.contains(c),
    ensures
        before(x + seq![c] + y, c) == x,
        after(x + seq![c] + y, c) == Some(y),
{
    let s = x + seq![c] + y;
    lemma_first_index_at(x, c, y);
    assert(s.take(x.len() as int) =~= x);
    assert(s.skip(x.len() as int + 1) =~= y);
}

/// The first separator in such a text is the one after the part.
proof fn lemma_first_index_at(x: Seq<char>, c: char, y: Seq<char>)
    requires
        !x.contains(c),
    ensures
        first_index(x + seq![c] + y, c) == Some(x.len() as int),
    decreases x.len(),
{
    let s = x + seq![c] + y;
    if x.len() == 0 {
        assert(s[0] == c);
    } else {
        assert(x[0] != c) by {
            if x[0] == c {
                assert(x.contains(c));
            }
        }
        assert(!x.drop_first().contains(c)) by {
            if x.drop_first().contains(c) {
                let i = choose|i: int| 0 <= i < x.drop_first().len() && x.drop_first()[i] == c;
                assert(x[i + 1] == c);
            }
        }
        lemma_first_index_at(x.drop_first(), c, y);
        assert(s.drop_first() =~= x.drop_first() + seq![c] + y);
        assert(s[0] == x[0]);
    }
}

/// An IPv4 request names its address in order: the host part's four
/// dot-separated fields are the decimal values of bytes 4, 5, 6 and 7 of the
/// request, and the port after the colon is that of bytes 8 and 9.
pub proof fn law_ipv4_destination_fields(d: Seq<u8>)
    requires
        well_formed(SocksState::Authed, d),
        d[3] == 1,
    ensures
        ({
            let s0 = request_destination(d);
            let s1 = after(s0, '.')->0;
            let s2 = after(s1, '.')->0;
            let s3 = after(s2, '.')->0;
            &&& before(s0, '.') == dec(d[4] as nat)
            &&& before(s1, '.') == dec(d[5] as nat)
            &&& before(s2, '.') == dec(d[6] as nat)
            &&& before(s3, ':') == dec(d[7] as nat)
            &&& after(s3, ':') == Some(dec((d[8] as nat) * 256 + d[9] as nat))
        }),
{
    reveal_strlit(".");
    reveal_strlit(":");
    assert("."@ =~= seq!['.']);
    assert(":"@ =~= seq![':']);
    let port = dec(be16(d.subrange(8, 10)) as nat);
    assert(be16(d.subrange(8, 10)) as nat == (d[8] as nat) * 256 + d[9] as nat);
    let a = dec(d[4] as nat);
    let b = dec(d[5] as nat);
    let c = dec(d[6] as nat);
    let e = dec(d[7] as nat);
    lemma_dec_no_separators(d[4] as nat);
    lemma_dec_no_separators(d[5] as nat);
    lemma_dec_no_separators(d[6] as nat);
    lemma_dec_no_separators(d[7] as nat);
    let t3 = e + seq![':'] + port;
    let t2 = c + seq!['.'] + t3;
    let t1 = b + seq!['.'] + t2;
    let t0 = a + seq!['.'] + t1;
    assert(request_destination(d) =~= t0);
    lemma_split_at_first(a, '.', t1);
    lemma_split_at_first(b, '.', t2);
    lemma_split_at_first(c, '.', t3);
    lemma_split_at_first(e, ':', port);
}

} // verus!

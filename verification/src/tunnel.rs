//! The request that attaches a tunnel device: the interface name padded to
//! sixteen bytes, followed by the device flags in the machine's byte order.

use vstd::prelude::*;
use crate::util::{be16_bytes, le16_bytes, native_u16_bytes};

verus! {

/// Whether a tunnel carries IP packets or Ethernet frames.
#[derive(Clone, Copy, Debug, PartialEq, Eq, Structural)]
pub enum TunTapType {
    Tun,
    Tap,
}

/// Device flag: an IP-level tunnel.
pub const IFF_TUN: u16 = 1;

/// Device flag: an Ethernet-level tunnel.
pub const IFF_TAP: u16 = 2;

/// Device flag: no packet information header in front of each packet.
pub const IFF_NO_PI: u16 = 4096;

/// The flags a tunnel of the given type is attached with.
pub open spec fn tunnel_flags(mode: TunTapType) -> u16 {
    match mode {
        TunTapType::Tun => 0x1001u16,
        TunTapType::Tap => 0x1002u16,
    }
}

/// An interface name padded with zero bytes to sixteen.
pub open spec fn padded_name(name: Seq<u8>) -> Seq<u8> {
    Seq::new(16, |i: int| if i < name.len() { name[i] } else { 0u8 })
}

/// The interface request for a tunnel named by the bytes `name`: the name
/// padded with zeros to sixteen bytes, then the device's flags in the
/// machine's byte order. The name may be at most sixteen bytes long.
pub fn tunnel_request(mode: TunTapType, name: &[u8]) -> (req: Vec<u8>)
    requires
        name@.len() <= 16,
    ensures
        req@.len() == 18,
        req@.subrange(0, 16) == padded_name(name@),
        req@.subrange(16, 18) == le16_bytes(tunnel_flags(mode))
            || req@.subrange(16, 18) == be16_bytes(tunnel_flags(mode)),
{
    let mut req: Vec<u8> = Vec::new();
    let mut i: usize = 0;
    while i < name.len()
        invariant
            i <= name@.len() <= 16,
            req@ == name@.subrange(0, i as int),
        decreases name@.len() - i,
    {
        req.push(name[i]);
        i = i + 1;
    }
    while req.len() < 16
        invariant
            name@.len() <= req@.len() <= 16,
            req@.subrange(0, name@.len() as int) == name@,
            forall|j: int| name@.len() <= j < req@.len() ==> req@[j] == 0u8,
        decreases 16 - req@.len(),
    {
        req.push(0u8);
    }
    assert(req@ == padded_name(name@)) by {
        assert forall|j: int| 0 <= j < 16 implies req@[j] == padded_name(name@)[j] by {
            if j < name@.len() {
                assert(req@[j] == req@.subrange(0, name@.len() as int)[j]);
            }
        }
    }
    let flags: u16 = match mode {
        TunTapType::Tun => IFF_TUN | IFF_NO_PI,
        TunTapType::Tap => IFF_TAP | IFF_NO_PI,
    };
    assert(flags == tunnel_flags(mode)) by {
        assert(1u16 | 4096u16 == 0x1001u16) by (bit_vector);
        assert(2u16 | 4096u16 == 0x1002u16) by (bit_vector);
    }
    let encoded = native_u16_bytes(flags);
    let ghost padded = req@;
    req.push(encoded[0]);
    req.push(encoded[1]);
    assert(req@.subrange(0, 16) == padded);
    assert(req@.subrange(16, 18) == encoded@);
    req
}

} // verus!

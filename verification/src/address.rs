//! Which IP addresses count as public, and which networks hold an address.
//! The address tests are the documented ones of `std::net` (unspecified,
//! loopback, multicast, broadcast, the IPv4 form of an IPv6 address), written
//! over octets.
use vstd::prelude::*;

use crate::daemon::dns::IpAddress;

verus! {

/// The big-endian value of a byte sequence.
pub open spec fn be_value(bytes: Seq<u8>) -> nat
    decreases bytes.len(),
{
    if bytes.len() == 0 {
        0
    } else {
        be_value(bytes.drop_last()) * 256 + bytes.last() as nat
    }
}

/// 256 to the power `n`.
pub open spec fn pow256(n: nat) -> nat
    decreases n,
{
    if n == 0 { 1 } else { 256 * pow256((n - 1) as nat) }
}

pub proof fn lemma_be_value_bound(bytes: Seq<u8>)
    ensures
        be_value(bytes) < pow256(bytes.len()),
    decreases bytes.len(),
{
    if bytes.len() > 0 {
        lemma_be_value_bound(bytes.drop_last());
        let p = pow256((bytes.len() - 1) as nat);
        let v = be_value(bytes.drop_last());
        assert(v * 256 + bytes.last() < p * 256) by (nonlinear_arith)
            requires v < p, bytes.last() < 256;
    }
}

proof fn lemma_pow256_mono(a: nat, b: nat)
    requires
        a <= b,
    ensures
        pow256(a) <= pow256(b),
    decreases b,
{
    if a < b {
        lemma_pow256_mono(a, (b - 1) as nat);
    }
}

/// The 32-bit value of an IPv4 address.
pub open spec fn v4_number(octets: [u8; 4]) -> nat {
    be_value(octets@)
}

/// The 128-bit value of an IPv6 address.
pub open spec fn v6_number(octets: [u8; 16]) -> nat {
    be_value(octets@)
}

/// The `i`-th 16-bit segment of an IPv6 address.
pub open spec fn segment(octets: [u8; 16], i: int) -> u16 {
    (octets[2 * i] as u16 * 256 + octets[2 * i + 1] as u16) as u16
}

/// IPv4 ranges that are not public: this network, private, loopback, shared,
/// link-local, protocol assignments, documentation, benchmarking, relay,
/// multicast and reserved, and the broadcast address.
pub open spec fn non_public_v4(octets: [u8; 4]) -> bool {
    let a = octets[0];
    let b = octets[1];
    let c = octets[2];
    ||| a == 0
    ||| a == 10
    ||| a == 127
    ||| (a == 100 && 64 <= b <= 127)
    ||| (a == 169 && b == 254)
    ||| (a == 172 && 16 <= b <= 31)
    ||| (a == 192 && b == 0)
    ||| (a == 192 && b == 168)
    ||| (a == 192 && b == 88 && c == 99)
    ||| (a == 198 && (b == 18 || b == 19))
    ||| (a == 198 && b == 51 && c == 100)
    ||| (a == 203 && b == 0 && c == 113)
    ||| a >= 224
    ||| (octets[0] == 0 && octets[1] == 0 && octets[2] == 0 && octets[3] == 0)
    ||| (octets[0] == 255 && octets[1] == 255 && octets[2] == 255 && octets[3] == 255)
}

/// The IPv4 address an IPv6 address carries: `::a.b.c.d` and
/// `::ffff:a.b.c.d` carry `a.b.c.d`; other addresses carry none.
pub open spec fn embedded_v4(octets: [u8; 16]) -> Option<[u8; 4]> {
    if forall|i: int| 0 <= i < 10 ==> octets[i] == 0 {
        if (octets[10] == 0 && octets[11] == 0) || (octets[10] == 255 && octets[11] == 255) {
            Some([octets[12], octets[13], octets[14], octets[15]])
        } else {
            None
        }
    } else {
        None
    }
}

/// IPv6 ranges that are not public: unspecified, loopback, multicast, unique
/// local, link-local, documentation, anything outside 2000::/3, NAT64, 6to4,
/// Teredo, and non-public embedded IPv4 addresses.
pub open spec fn non_public_v6(octets: [u8; 16]) -> bool {
    let s0 = segment(octets, 0);
    let s1 = segment(octets, 1);
    ||| (forall|i: int| 0 <= i < 16 ==> octets[i] == 0)
    ||| ((forall|i: int| 0 <= i < 15 ==> octets[i] == 0) && octets[15] == 1)
    ||| octets[0] == 255
    ||| (s0 & 0xfe00) == 0xfc00
    ||| (s0 & 0xffc0) == 0xfe80
    ||| (s0 == 0x2001 && s1 == 0x0db8)
    ||| (s0 & 0xe000) != 0x2000
    ||| (s0 == 0x0064 && s1 == 0xff9b)
    ||| s0 == 0x2002
    ||| (s0 == 0x2001 && s1 == 0)
    ||| (embedded_v4(octets) matches Some(v4) && non_public_v4(v4))
}

pub open spec fn non_public(address: IpAddress) -> bool {
    match address {
        IpAddress::V4(octets) => non_public_v4(octets),
        IpAddress::V6(octets) => non_public_v6(octets),
    }
}

/// Whether an IPv4 address is outside public unicast space.
pub fn is_non_public_v4(octets: [u8; 4]) -> (result: bool)
    ensures
        result == non_public_v4(octets),
{
    let a = octets[0];
    let b = octets[1];
    let c = octets[2];
    a == 0 || a == 10 || a == 127 || (a == 100 && 64 <= b && b <= 127) || (a == 169 && b == 254) || (
    a == 172 && 16 <= b && b <= 31) || (a == 192 && (b == 0 || b == 168)) || (a == 192 && b == 88
        && c == 99) || (a == 198 && (b == 18 || b == 19)) || (a == 198 && b == 51 && c == 100) || (
    a == 203 && b == 0 && c == 113) || a >= 224 || (octets[0] == 0 && octets[1] == 0 && octets[2]
        == 0 && octets[3] == 0) || (octets[0] == 255 && octets[1] == 255 && octets[2] == 255
        && octets[3] == 255)
}

fn segment_of(octets: &[u8; 16], i: usize) -> (s: u16)
    requires
        i < 8,
    ensures
        s == segment(*octets, i as int),
{
    octets[2 * i] as u16 * 256 + octets[2 * i + 1] as u16
}

fn zero_prefix(octets: &[u8; 16], n: usize) -> (zero: bool)
    requires
        n <= 16,
    ensures
        zero == forall|i: int| 0 <= i < n ==> octets[i] == 0,
{
    let mut i: usize = 0;
    while i < n
        invariant
            i <= n <= 16,
            forall|j: int| 0 <= j < i ==> octets[j] == 0,
        decreases n - i,
    {
        if octets[i] != 0 {
            return false;
        }
        i = i + 1;
    }
    true
}

/// The IPv4 address carried by an IPv6 address, if any.
pub fn embedded_v4_of(octets: &[u8; 16]) -> (v4: Option<[u8; 4]>)
    ensures
        v4 == embedded_v4(*octets),
{
    if zero_prefix(octets, 10) && ((octets[10] == 0 && octets[11] == 0) || (octets[10] == 255
        && octets[11] == 255)) {
        Some([octets[12], octets[13], octets[14], octets[15]])
    } else {
        None
    }
}

/// Whether an IPv6 address is outside public unicast space.
pub fn is_non_public_v6(octets: &[u8; 16]) -> (result: bool)
    ensures
        result == non_public_v6(*octets),
{
    let s0 = segment_of(octets, 0);
    let s1 = segment_of(octets, 1);
    let unspecified = zero_prefix(octets, 16);
    let loopback = zero_prefix(octets, 15) && octets[15] == 1;
    let embedded = match embedded_v4_of(octets) {
        Some(v4) => is_non_public_v4(v4),
        None => false,
    };
    unspecified || loopback || octets[0] == 255 || (s0 & 0xfe00) == 0xfc00 || (s0 & 0xffc0)
        == 0xfe80 || (s0 == 0x2001 && s1 == 0x0db8) || (s0 & 0xe000) != 0x2000 || (s0 == 0x0064
        && s1 == 0xff9b) || s0 == 0x2002 || (s0 == 0x2001 && s1 == 0) || embedded
}

/// Whether an address is outside public unicast space.
pub fn is_non_public(address: &IpAddress) -> (result: bool)
    ensures
        result == non_public(*address),
{
    match address {
        IpAddress::V4(octets) => is_non_public_v4(*octets),
        IpAddress::V6(octets) => is_non_public_v6(octets),
    }
}

/// Whether two addresses are the same.
pub fn same_address(a: &IpAddress, b: &IpAddress) -> (same: bool)
    ensures
        same == (*a == *b),
{
    match (a, b) {
        (IpAddress::V4(x), IpAddress::V4(y)) => {
            let same = x[0] == y[0] && x[1] == y[1] && x[2] == y[2] && x[3] == y[3];
            proof {
                if same {
                    assert(*x =~= *y);
                }
            }
            same
        },
        (IpAddress::V6(x), IpAddress::V6(y)) => {
            let mut i: usize = 0;
            while i < 16
                invariant
                    i <= 16,
                    *a == IpAddress::V6(*x),
                    *b == IpAddress::V6(*y),
                    forall|j: int| 0 <= j < i ==> x[j] == y[j],
                decreases 16 - i,
            {
                if x[i] != y[i] {
                    proof {
                        assert(x[i as int] != y[i as int]);
                        assert(x@ != y@);
                    }
                    return false;
                }
                i = i + 1;
            }
            proof {
                assert(*x =~= *y);
            }
            true
        },
        _ => false,
    }
}

/// The 32-bit value of an IPv4 address.
pub fn v4_value(octets: [u8; 4]) -> (value: u32)
    ensures
        value == v4_number(octets),
{
    let mut value: u32 = 0;
    let mut i: usize = 0;
    while i < 4
        invariant
            i <= 4,
            value == be_value(octets@.subrange(0, i as int)),
        decreases 4 - i,
    {
        proof {
            let s = octets@.subrange(0, i + 1);
            assert(s.drop_last() =~= octets@.subrange(0, i as int));
            lemma_be_value_bound(octets@.subrange(0, i as int));
            lemma_pow256_mono(i as nat, 3);
            assert(pow256(3) == 0x1000000) by {
                reveal_with_fuel(pow256, 4);
            }
        }
        value = value * 256 + octets[i] as u32;
        i = i + 1;
    }
    proof {
        assert(octets@.subrange(0, 4) =~= octets@);
    }
    value
}

/// The 128-bit value of an IPv6 address.
pub fn v6_value(octets: &[u8; 16]) -> (value: u128)
    ensures
        value == v6_number(*octets),
{
    let mut value: u128 = 0;
    let mut i: usize = 0;
    while i < 16
        invariant
            i <= 16,
            value == be_value(octets@.subrange(0, i as int)),
        decreases 16 - i,
    {
        proof {
            let s = octets@.subrange(0, i + 1);
            assert(s.drop_last() =~= octets@.subrange(0, i as int));
            lemma_be_value_bound(octets@.subrange(0, i as int));
            lemma_pow256_mono(i as nat, 15);
            assert(pow256(15) == 0x1000000000000000000000000000000) by {
                reveal_with_fuel(pow256, 16);
            }
        }
        value = value * 256 + octets[i] as u128;
        i = i + 1;
    }
    proof {
        assert(octets@.subrange(0, 16) =~= octets@);
    }
    value
}

/// A network: an address and a prefix length of at most the address width.
#[derive(Clone, Copy, Debug, PartialEq, Eq)]
pub struct IpNetwork {
    pub address: IpAddress,
    pub prefix_len: u8,
}

/// The prefix length fits the address family.
pub open spec fn network_valid(network: IpNetwork) -> bool {
    match network.address {
        IpAddress::V4(_) => network.prefix_len <= 32,
        IpAddress::V6(_) => network.prefix_len <= 128,
    }
}

/// The network mask of a 32-bit prefix.
pub open spec fn mask32(prefix: u8) -> u32 {
    if prefix == 0 { 0 } else { (0xffff_ffffu32 << (32 - prefix) as u32) as u32 }
}

/// The host mask of a 32-bit prefix.
pub open spec fn hostmask32(prefix: u8) -> u32 {
    if prefix >= 32 { 0 } else { (0xffff_ffffu32 >> prefix as u32) as u32 }
}

pub open spec fn mask128(prefix: u8) -> u128 {
    if prefix == 0 { 0 } else { (u128::MAX << (128 - prefix) as u128) as u128 }
}

pub open spec fn hostmask128(prefix: u8) -> u128 {
    if prefix >= 128 { 0 } else { (u128::MAX >> prefix as u128) as u128 }
}

/// A network holds the addresses of its family from its network address to
/// its broadcast address.
pub open spec fn network_holds(network: IpNetwork, address: IpAddress) -> bool {
    match (network.address, address) {
        (IpAddress::V4(base), IpAddress::V4(candidate)) => {
            let b = v4_number(base) as u32;
            let c = v4_number(candidate);
            (b & mask32(network.prefix_len)) <= c <= (b | hostmask32(network.prefix_len))
        },
        (IpAddress::V6(base), IpAddress::V6(candidate)) => {
            let b = v6_number(base) as u128;
            let c = v6_number(candidate);
            (b & mask128(network.prefix_len)) <= c <= (b | hostmask128(network.prefix_len))
        },
        _ => false,
    }
}

/// Whether the network holds the address.
pub fn network_contains(network: &IpNetwork, address: &IpAddress) -> (held: bool)
    requires
        network_valid(*network),
    ensures
        held == network_holds(*network, *address),
{
    match (&network.address, address) {
        (IpAddress::V4(base), IpAddress::V4(candidate)) => {
            let b = v4_value(*base);
            let c = v4_value(*candidate);
            let p = network.prefix_len;
            let mask: u32 = if p == 0 { 0 } else { 0xffff_ffffu32 << (32 - p) as u32 };
            let host: u32 = if p >= 32 { 0 } else { 0xffff_ffffu32 >> p as u32 };
            (b & mask) <= c && c <= (b | host)
        },
        (IpAddress::V6(base), IpAddress::V6(candidate)) => {
            let b = v6_value(base);
            let c = v6_value(candidate);
            let p = network.prefix_len;
            let mask: u128 = if p == 0 { 0 } else { u128::MAX << (128 - p) as u128 };
            let host: u128 = if p >= 128 { 0 } else { u128::MAX >> p as u128 };
            (b & mask) <= c && c <= (b | host)
        },
        _ => false,
    }
}

/// The reserved IPv4 ranges are never public: this network, 10/8, loopback,
/// shared address space 100.64/10, link-local 169.254/16, the private
/// 172.16/12 (every second octet 16 through 31), IETF and documentation
/// ranges, 192.168/16, benchmarking 198.18/15, multicast and reserved space
/// from 224 up. Ordinary unicast such as 1-9.x.x.x, 11-99.x.x.x, 172.0-15.x.x
/// and 172.32-255.x.x is public.
pub proof fn lemma_v4_reserved_ranges(a: u8, b: u8, c: u8, d: u8)
    ensures
        a == 0 ==> non_public_v4([a, b, c, d]),
        a == 10 ==> non_public_v4([a, b, c, d]),
        a == 127 ==> non_public_v4([a, b, c, d]),
        a == 100 && 64 <= b && b <= 127 ==> non_public_v4([a, b, c, d]),
        a == 169 && b == 254 ==> non_public_v4([a, b, c, d]),
        a == 172 && 16 <= b && b <= 31 ==> non_public_v4([a, b, c, d]),
        a == 192 && b == 168 ==> non_public_v4([a, b, c, d]),
        a == 192 && b == 0 && c == 2 ==> non_public_v4([a, b, c, d]),
        a == 198 && (b == 18 || b == 19) ==> non_public_v4([a, b, c, d]),
        a == 198 && b == 51 && c == 100 ==> non_public_v4([a, b, c, d]),
        a == 203 && b == 0 && c == 113 ==> non_public_v4([a, b, c, d]),
        a >= 224 ==> non_public_v4([a, b, c, d]),
        (1 <= a && a <= 9) || (11 <= a && a <= 99) ==> !non_public_v4([a, b, c, d]),
        a == 172 && (b < 16 || b > 31) ==> !non_public_v4([a, b, c, d]),
{
    let o: [u8; 4] = [a, b, c, d];
    assert(o[0] == a && o[1] == b && o[2] == c && o[3] == d);
}

} // verus!

//! Which network addresses are reachable for everyone.

use vstd::prelude::*;

verus! {

/// An address by its octets or its segments.
#[derive(Clone, Copy, Debug, PartialEq, Eq)]
pub enum IpAddress {
    V4([u8; 4]),
    V6([u16; 8]),
}

/// The number that an IPv4 address is.
pub open spec fn v4_number(a: u8, b: u8, c: u8, d: u8) -> int {
    ((a * 256 + b) * 256 + c) * 256 + d
}

/// Whether an address is in a block: the one that starts here and has so many addresses.
pub open spec fn in_block(n: int, a: u8, b: u8, c: u8, size: int) -> bool {
    v4_number(a, b, c, 0) <= n < v4_number(a, b, c, 0) + size
}

/// The IPv4 blocks that are set aside for a special purpose and not reachable for everyone.
pub open spec fn special_v4(n: int) -> bool {
    // "This network", private and loopback networks.
    ||| in_block(n, 0, 0, 0, 0x100_0000)
    ||| in_block(n, 10, 0, 0, 0x100_0000)
    ||| in_block(n, 127, 0, 0, 0x100_0000)
    // Shared address space, and addresses of one link.
    ||| in_block(n, 100, 64, 0, 0x40_0000)
    ||| in_block(n, 169, 254, 0, 0x1_0000)
    ||| in_block(n, 172, 16, 0, 0x10_0000)
    // Protocol assignments, but for two that are reachable.
    ||| (in_block(n, 192, 0, 0, 0x100) && n != v4_number(192, 0, 0, 9) && n != v4_number(
        192,
        0,
        0,
        10,
    ))
    // Documentation, and relays that are no longer in use.
    ||| in_block(n, 192, 0, 2, 0x100)
    ||| in_block(n, 192, 88, 99, 0x100)
    ||| in_block(n, 192, 168, 0, 0x1_0000)
    // Benchmarks, and documentation again.
    ||| in_block(n, 198, 18, 0, 0x2_0000)
    ||| in_block(n, 198, 51, 100, 0x100)
    ||| in_block(n, 203, 0, 113, 0x100)
    // Multicast, reserved and broadcast.
    ||| n >= v4_number(224, 0, 0, 0)
}

/// Whether an IPv4 address is reachable for everyone.
pub fn is_public_ipv4(octets: [u8; 4]) -> (r: bool)
    ensures
        r == !special_v4(v4_number(octets@[0], octets@[1], octets@[2], octets@[3])),
{
    public_v4(octets[0], octets[1], octets[2], octets[3])
}

fn public_v4(a: u8, b: u8, c: u8, d: u8) -> (r: bool)
    ensures
        r == !special_v4(v4_number(a, b, c, d)),
{
    !(a == 0 || a == 10 || a == 127 || (a == 100 && 64 <= b && b <= 127) || (a == 169 && b == 254)
        || (a == 172 && 16 <= b && b <= 31) || (a == 192 && b == 0 && c == 0 && d != 9 && d != 10)
        || (a == 192 && b == 0 && c == 2) || (a == 192 && b == 88 && c == 99) || (a == 192 && b
        == 168) || (a == 198 && (b == 18 || b == 19)) || (a == 198 && b == 51 && c == 100) || (a
        == 203 && b == 0 && c == 113) || a >= 224)
}

/// Whether segments of an address are zero from one on, up to another.
pub open spec fn zero_between(s: Seq<u16>, from: int, to: int) -> bool {
    forall|i: int| from <= i < to ==> #[trigger] s[i] == 0
}

/// The part of `2001::/23` that is reachable for everyone.
pub open spec fn reachable_assignment(s: Seq<u16>) -> bool {
    ||| (s[1] == 1 && zero_between(s, 2, 7) && 1 <= s[7] <= 3)
    ||| s[1] == 3
    ||| (s[1] == 4 && s[2] == 0x112)
    ||| 0x20 <= s[1] < 0x40
}

/// Whether an IPv6 address is reachable for everyone: it embeds an IPv4 address that is, under the
/// well-known prefix `64:ff9b::/96`, or it is in `2000::/3` and in no block there that is set aside
/// for a special purpose.
pub open spec fn public_v6(s: Seq<u16>) -> bool {
    if s[0] == 0x64 && s[1] == 0xff9b && zero_between(s, 2, 6) {
        !special_v4(s[6] * 0x1_0000 + s[7])
    } else {
        &&& 0x2000 <= s[0] < 0x4000
        &&& (s[0] == 0x2001 && s[1] < 0x200) ==> reachable_assignment(s)
        &&& !(s[0] == 0x2001 && s[1] == 0xdb8)
        &&& s[0] != 0x2002
        &&& !(s[0] == 0x3fff && s[1] < 0x1000)
    }
}

/// Whether an IPv6 address is reachable for everyone.
pub fn is_public_ipv6(segments: [u16; 8]) -> (r: bool)
    ensures
        r == public_v6(segments@),
{
    let s0: u16 = segments[0];
    let s1: u16 = segments[1];
    let s2: u16 = segments[2];
    let s3: u16 = segments[3];
    let s4: u16 = segments[4];
    let s5: u16 = segments[5];
    let s6: u16 = segments[6];
    let s7: u16 = segments[7];
    let ghost s = segments@;
    let translated = s0 == 0x64 && s1 == 0xff9b && s2 == 0 && s3 == 0 && s4 == 0 && s5 == 0;
    proof {
        assert(zero_between(s, 2, 6) <==> s[2] == 0 && s[3] == 0 && s[4] == 0 && s[5] == 0);
        assert(zero_between(s, 2, 7) <==> s[2] == 0 && s[3] == 0 && s[4] == 0 && s[5] == 0 && s[6]
            == 0);
    }
    if translated {
        let a: u8 = (s6 / 256) as u8;
        let b: u8 = (s6 % 256) as u8;
        let c: u8 = (s7 / 256) as u8;
        let d: u8 = (s7 % 256) as u8;
        assert(v4_number(a, b, c, d) == s6 * 0x1_0000 + s7);
        return public_v4(a, b, c, d);
    }
    if s0 < 0x2000 || s0 >= 0x4000 {
        return false;
    }
    if s0 == 0x2001 && s1 < 0x200 {
        let reachable = (s1 == 1 && s2 == 0 && s3 == 0 && s4 == 0 && s5 == 0 && s6 == 0 && 1 <= s7
            && s7 <= 3) || s1 == 3 || (s1 == 4 && s2 == 0x112) || (0x20 <= s1 && s1 < 0x40);
        if !reachable {
            return false;
        }
    }
    !((s0 == 0x2001 && s1 == 0xdb8) || s0 == 0x2002 || (s0 == 0x3fff && s1 < 0x1000))
}

/// Whether an address is reachable for everyone.
pub open spec fn public_address(address: IpAddress) -> bool {
    match address {
        IpAddress::V4(octets) => !special_v4(
            v4_number(octets@[0], octets@[1], octets@[2], octets@[3]),
        ),
        IpAddress::V6(segments) => public_v6(segments@),
    }
}

/// Whether an address is reachable for everyone.
pub fn is_public_ip(address: IpAddress) -> (r: bool)
    ensures
        r == public_address(address),
{
    match address {
        IpAddress::V4(octets) => is_public_ipv4(octets),
        IpAddress::V6(segments) => is_public_ipv6(segments),
    }
}

} // verus!

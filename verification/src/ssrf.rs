//! The guard of proxy mode: a peer must not make this node dial into private,
//! loopback or link-local ranges unless that was allowed.
//!
//! IPv6 addresses that carry an IPv4 address are judged by the IPv4 rules, so
//! that a private IPv4 address cannot pass under an IPv6 form.

use vstd::prelude::*;
use crate::i18n::{said, say1, Catalog};
use crate::net::{IpAddr, Ipv4Addr, Ipv6Addr, SocketAddr};

verus! {

/// Loopback, private, carrier-grade NAT, 6to4 relay anycast, link-local,
/// unspecified, multicast and broadcast addresses.
pub open spec fn blocked_v4(ip: Ipv4Addr) -> bool {
    ||| ip.a == 127
    ||| ip.a == 10
    ||| ip.a == 172 && 16 <= ip.b <= 31
    ||| ip.a == 192 && ip.b == 168
    ||| ip.a == 100 && 64 <= ip.b <= 127
    ||| ip.a == 192 && ip.b == 88 && ip.c == 99
    ||| ip.a == 169 && ip.b == 254
    ||| ip.a == 0 && ip.b == 0 && ip.c == 0 && ip.d == 0
    ||| 224 <= ip.a <= 239
    ||| ip.a == 255 && ip.b == 255 && ip.c == 255 && ip.d == 255
}

/// `::`.
pub open spec fn is_unspecified_v6(ip: Ipv6Addr) -> bool {
    ip.segments() == seq![0u16, 0, 0, 0, 0, 0, 0, 0]
}

/// `::1`.
pub open spec fn is_loopback_v6(ip: Ipv6Addr) -> bool {
    ip.segments() == seq![0u16, 0, 0, 0, 0, 0, 0, 1]
}

/// Loopback, unspecified, multicast (`ff00::/8`), unique local (`fc00::/7`)
/// and link-local (`fe80::/10`) addresses.
pub open spec fn blocked_v6_native(ip: Ipv6Addr) -> bool {
    ||| is_loopback_v6(ip)
    ||| is_unspecified_v6(ip)
    ||| 0xff00 <= ip.s0
    ||| 0xfc00 <= ip.s0 <= 0xfdff
    ||| 0xfe80 <= ip.s0 <= 0xfebf
}

/// The IPv4 address that two segments hold.
pub open spec fn v4_of(hi: u16, lo: u16) -> Ipv4Addr {
    Ipv4Addr {
        a: (hi / 256) as u8,
        b: (hi % 256) as u8,
        c: (lo / 256) as u8,
        d: (lo % 256) as u8,
    }
}

/// The first six segments are zero.
pub open spec fn six_zero(ip: Ipv6Addr) -> bool {
    ip.s0 == 0 && ip.s1 == 0 && ip.s2 == 0 && ip.s3 == 0 && ip.s4 == 0 && ip.s5 == 0
}

/// The IPv4 address of a mapped one (`::ffff:a.b.c.d`).
pub open spec fn mapped(ip: Ipv6Addr) -> Option<Ipv4Addr> {
    if ip.s0 == 0 && ip.s1 == 0 && ip.s2 == 0 && ip.s3 == 0 && ip.s4 == 0 && ip.s5 == 0xffff {
        Some(v4_of(ip.s6, ip.s7))
    } else {
        None
    }
}

/// The IPv4 address inside an IPv4-compatible (`::a.b.c.d`), NAT64
/// (`64:ff9b::a.b.c.d`) or 6to4 (`2002:a.b.c.d::`) address.
pub open spec fn embedded(ip: Ipv6Addr) -> Option<Ipv4Addr> {
    if six_zero(ip) && !is_unspecified_v6(ip) && !is_loopback_v6(ip) {
        Some(v4_of(ip.s6, ip.s7))
    } else if ip.s0 == 0x64 && ip.s1 == 0xff9b && ip.s2 == 0 && ip.s3 == 0 && ip.s4 == 0 && ip.s5
        == 0 {
        Some(v4_of(ip.s6, ip.s7))
    } else if ip.s0 == 0x2002 {
        Some(v4_of(ip.s1, ip.s2))
    } else {
        None
    }
}

/// Whether an address lies in a blocked range. The Teredo prefix
/// (`2001:0::/32`), which hides an IPv4 address, is blocked as a whole.
pub open spec fn blocked_ip(ip: IpAddr) -> bool {
    match ip {
        IpAddr::V4(v4) => blocked_v4(v4),
        IpAddr::V6(v6) => match mapped(v6) {
            Some(v4) => blocked_v4(v4),
            None => match embedded(v6) {
                Some(v4) => blocked_v4(v4),
                None => (v6.s0 == 0x2001 && v6.s1 == 0) || blocked_v6_native(v6),
            },
        },
    }
}

/// An address that passed [`check_proxy_target`].
///
/// Only such a value is dialed, so an address cannot be resolved anew between
/// the check and the connection.
#[derive(Clone, Copy, Debug, PartialEq, Eq, Structural)]
pub struct CheckedTarget {
    target: SocketAddr,
}

impl CheckedTarget {
    /// The address that was checked.
    pub closed spec fn checked(self) -> SocketAddr {
        self.target
    }

    /// The address that was checked.
    pub fn addr(self) -> (r: SocketAddr)
        ensures
            r == self.checked(),
    {
        self.target
    }
}

/// A target that the guard refused.
#[derive(Clone, Copy, Debug, PartialEq, Eq, Structural)]
pub struct BlockedTarget {
    pub target: SocketAddr,
}

impl BlockedTarget {
    /// What is reported; `shown` is the refused address as text.
    pub fn message(&self, catalog: &Catalog, shown: String) -> (r: String)
        ensures
            r@ == said(
                catalog@,
                "target {0} is in a private/loopback/link-local range; blocked in proxy mode (use --allow-private to permit)"@,
                seq![shown@],
            ),
    {
        say1(
            catalog,
            "target {0} is in a private/loopback/link-local range; blocked in proxy mode (use --allow-private to permit)",
            shown,
        )
    }
}

/// Refuses a resolved `target` in a blocked range unless private targets are
/// allowed. The port is not judged.
pub fn check_proxy_target(target: SocketAddr, allow_private: bool) -> (r: Result<
    CheckedTarget,
    BlockedTarget,
>)
    ensures
        match r {
            Ok(c) => c.checked() == target && (allow_private || !blocked_ip(target.ip)),
            Err(e) => e.target == target && !allow_private && blocked_ip(target.ip),
        },
{
    if !allow_private && is_blocked_target(target) {
        Err(BlockedTarget { target })
    } else {
        Ok(CheckedTarget { target })
    }
}

/// Whether `addr` lies in a blocked range.
pub fn is_blocked_target(addr: SocketAddr) -> (r: bool)
    ensures
        r == blocked_ip(addr.ip),
{
    is_blocked_ip(addr.ip)
}

/// Whether `ip` lies in a blocked range.
pub fn is_blocked_ip(ip: IpAddr) -> (r: bool)
    ensures
        r == blocked_ip(ip),
{
    match ip {
        IpAddr::V4(v4) => is_blocked_v4(v4),
        IpAddr::V6(v6) => {
            if let Some(v4) = mapped_ipv4(v6) {
                return is_blocked_v4(v4);
            }
            if let Some(v4) = embedded_ipv4(v6) {
                return is_blocked_v4(v4);
            }
            if v6.s0 == 0x2001 && v6.s1 == 0 {
                return true;
            }
            is_blocked_v6_native(v6)
        },
    }
}

fn is_blocked_v4(ip: Ipv4Addr) -> (r: bool)
    ensures
        r == blocked_v4(ip),
{
    ip.a == 127 || ip.a == 10 || (ip.a == 172 && 16 <= ip.b && ip.b <= 31) || (ip.a == 192 && ip.b
        == 168) || (ip.a == 100 && 64 <= ip.b && ip.b <= 127) || (ip.a == 192 && ip.b == 88 && ip.c
        == 99) || (ip.a == 169 && ip.b == 254) || (ip.a == 0 && ip.b == 0 && ip.c == 0 && ip.d == 0)
        || (224 <= ip.a && ip.a <= 239) || (ip.a == 255 && ip.b == 255 && ip.c == 255 && ip.d
        == 255)
}

fn first_six_zero(ip: Ipv6Addr) -> (r: bool)
    ensures
        r == six_zero(ip),
{
    ip.s0 == 0 && ip.s1 == 0 && ip.s2 == 0 && ip.s3 == 0 && ip.s4 == 0 && ip.s5 == 0
}

proof fn lemma_segments(ip: Ipv6Addr)
    ensures
        is_unspecified_v6(ip) == (six_zero(ip) && ip.s6 == 0 && ip.s7 == 0),
        is_loopback_v6(ip) == (six_zero(ip) && ip.s6 == 0 && ip.s7 == 1),
{
    let s = ip.segments();
    assert(s[0] == ip.s0 && s[1] == ip.s1 && s[2] == ip.s2 && s[3] == ip.s3);
    assert(s[4] == ip.s4 && s[5] == ip.s5 && s[6] == ip.s6 && s[7] == ip.s7);
    let zero = seq![0u16, 0, 0, 0, 0, 0, 0, 0];
    let one = seq![0u16, 0, 0, 0, 0, 0, 0, 1];
    assert(zero[0] == 0 && zero[1] == 0 && zero[2] == 0 && zero[3] == 0);
    assert(zero[4] == 0 && zero[5] == 0 && zero[6] == 0 && zero[7] == 0);
    assert(one[0] == 0 && one[1] == 0 && one[2] == 0 && one[3] == 0);
    assert(one[4] == 0 && one[5] == 0 && one[6] == 0 && one[7] == 1);
    if six_zero(ip) && ip.s6 == 0 && ip.s7 == 0 {
        assert(s =~= zero);
    }
    if six_zero(ip) && ip.s6 == 0 && ip.s7 == 1 {
        assert(s =~= one);
    }
}

fn is_blocked_v6_native(ip: Ipv6Addr) -> (r: bool)
    ensures
        r == blocked_v6_native(ip),
{
    proof {
        lemma_segments(ip);
    }
    (first_six_zero(ip) && ip.s6 == 0 && ip.s7 <= 1) || ip.s0 >= 0xff00 || (0xfc00 <= ip.s0
        && ip.s0 <= 0xfdff) || (0xfe80 <= ip.s0 && ip.s0 <= 0xfebf)
}

fn ipv4_from_u16_pair(hi: u16, lo: u16) -> (r: Ipv4Addr)
    ensures
        r == v4_of(hi, lo),
{
    Ipv4Addr {
        a: (hi / 256) as u8,
        b: (hi % 256) as u8,
        c: (lo / 256) as u8,
        d: (lo % 256) as u8,
    }
}

fn mapped_ipv4(ip: Ipv6Addr) -> (r: Option<Ipv4Addr>)
    ensures
        r == mapped(ip),
{
    if ip.s0 == 0 && ip.s1 == 0 && ip.s2 == 0 && ip.s3 == 0 && ip.s4 == 0 && ip.s5 == 0xffff {
        Some(ipv4_from_u16_pair(ip.s6, ip.s7))
    } else {
        None
    }
}

fn embedded_ipv4(ip: Ipv6Addr) -> (r: Option<Ipv4Addr>)
    ensures
        r == embedded(ip),
{
    proof {
        lemma_segments(ip);
    }
    if first_six_zero(ip) && !(ip.s6 == 0 && ip.s7 <= 1) {
        return Some(ipv4_from_u16_pair(ip.s6, ip.s7));
    }
    if ip.s0 == 0x64 && ip.s1 == 0xff9b && ip.s2 == 0 && ip.s3 == 0 && ip.s4 == 0 && ip.s5 == 0 {
        return Some(ipv4_from_u16_pair(ip.s6, ip.s7));
    }
    if ip.s0 == 0x2002 {
        return Some(ipv4_from_u16_pair(ip.s1, ip.s2));
    }
    None
}

/// An IPv4-mapped, NAT64 or 6to4 address is blocked exactly when the IPv4
/// address that it carries is.
pub proof fn law_embedded_addresses_follow_the_v4_rules(hi: u16, lo: u16, x: Ipv6Addr)
    ensures
        blocked_ip(
            IpAddr::V6(
                Ipv6Addr { s0: 0, s1: 0, s2: 0, s3: 0, s4: 0, s5: 0xffff, s6: hi, s7: lo },
            ),
        ) == blocked_v4(v4_of(hi, lo)),
        blocked_ip(
            IpAddr::V6(
                Ipv6Addr { s0: 0x64, s1: 0xff9b, s2: 0, s3: 0, s4: 0, s5: 0, s6: hi, s7: lo },
            ),
        ) == blocked_v4(v4_of(hi, lo)),
        blocked_ip(
            IpAddr::V6(
                Ipv6Addr {
                    s0: 0x2002,
                    s1: hi,
                    s2: lo,
                    s3: x.s3,
                    s4: x.s4,
                    s5: x.s5,
                    s6: x.s6,
                    s7: x.s7,
                },
            ),
        ) == blocked_v4(v4_of(hi, lo)),
{
}

/// An IPv4-compatible address other than `::1` is blocked exactly when the
/// IPv4 address that it carries is.
pub proof fn law_compatible_addresses_follow_the_v4_rules(hi: u16, lo: u16)
    requires
        !(hi == 0 && lo == 1),
    ensures
        blocked_ip(
            IpAddr::V6(Ipv6Addr { s0: 0, s1: 0, s2: 0, s3: 0, s4: 0, s5: 0, s6: hi, s7: lo }),
        ) == blocked_v4(v4_of(hi, lo)),
{
    lemma_segments(Ipv6Addr { s0: 0, s1: 0, s2: 0, s3: 0, s4: 0, s5: 0, s6: hi, s7: lo });
}

/// The 32-bit number of an IPv4 address.
pub open spec fn number_v4(ip: Ipv4Addr) -> int {
    ip.a * 0x100_0000 + ip.b * 0x1_0000 + ip.c * 0x100 + ip.d
}

/// Whether a number lies in the network of `size` addresses that begins with
/// `network`.
pub open spec fn in_network(n: int, network: int, size: int) -> bool {
    network <= n < network + size
}

/// The IPv4 addresses that are blocked are exactly those of the networks
/// 127.0.0.0/8, 10.0.0.0/8, 172.16.0.0/12, 192.168.0.0/16, 100.64.0.0/10,
/// 192.88.99.0/24, 169.254.0.0/16 and 224.0.0.0/4, and 0.0.0.0 and
/// 255.255.255.255.
pub proof fn law_blocked_v4_networks(ip: Ipv4Addr, r: bool)
    requires
        call_ensures(is_blocked_ip, (IpAddr::V4(ip),), r),
    ensures
        ({
            let n = number_v4(ip);
            r <==> {
                ||| in_network(n, 0x7f00_0000, 0x100_0000)
                ||| in_network(n, 0x0a00_0000, 0x100_0000)
                ||| in_network(n, 0xac10_0000, 0x10_0000)
                ||| in_network(n, 0xc0a8_0000, 0x1_0000)
                ||| in_network(n, 0x6440_0000, 0x40_0000)
                ||| in_network(n, 0xc058_6300, 0x100)
                ||| in_network(n, 0xa9fe_0000, 0x1_0000)
                ||| in_network(n, 0xe000_0000, 0x1000_0000)
                ||| n == 0
                ||| n == 0xffff_ffff
            }
        }),
{
}

/// An IPv6 address that carries an IPv4 address fares as that does: the mapped
/// and the IPv4-compatible form, but for `::` and `::1`, the NAT64 form, and
/// the 6to4 form with anything behind it.
pub proof fn law_carried_addresses_fare_alike(
    v4: Ipv4Addr,
    v6: Ipv6Addr,
    plain: bool,
    carried: bool,
)
    requires
        call_ensures(is_blocked_ip, (IpAddr::V4(v4),), plain),
        call_ensures(is_blocked_ip, (IpAddr::V6(v6),), carried),
        ({
            let hi = v4.a * 256 + v4.b;
            let lo = v4.c * 256 + v4.d;
            let behind = v6.s6 == hi && v6.s7 == lo;
            ||| behind && v6.s0 == 0 && v6.s1 == 0 && v6.s2 == 0 && v6.s3 == 0 && v6.s4 == 0
                && v6.s5 == 0xffff
            ||| behind && v6.s0 == 0 && v6.s1 == 0 && v6.s2 == 0 && v6.s3 == 0 && v6.s4 == 0
                && v6.s5 == 0 && !(hi == 0 && lo <= 1)
            ||| behind && v6.s0 == 0x64 && v6.s1 == 0xff9b && v6.s2 == 0 && v6.s3 == 0 && v6.s4
                == 0 && v6.s5 == 0
            ||| v6.s0 == 0x2002 && v6.s1 == hi && v6.s2 == lo
        }),
    ensures
        plain == carried,
{
    lemma_segments(v6);
    if v6.s0 == 0x2002 {
        assert(v4_of(v6.s1, v6.s2) == v4);
    } else {
        assert(v4_of(v6.s6, v6.s7) == v4);
    }
}

/// The other IPv6 addresses are blocked exactly in `ff00::/8`, `fc00::/7`,
/// `fe80::/10` and `2001::/32`, and where they are `::` or `::1`.
pub proof fn law_blocked_v6_networks(ip: Ipv6Addr, r: bool)
    requires
        call_ensures(is_blocked_ip, (IpAddr::V6(ip),), r),
        ip.s0 != 0x2002,
        !(ip.s0 == 0x64 && ip.s1 == 0xff9b && ip.s2 == 0 && ip.s3 == 0 && ip.s4 == 0 && ip.s5
            == 0),
        !(ip.s0 == 0 && ip.s1 == 0 && ip.s2 == 0 && ip.s3 == 0 && ip.s4 == 0 && ip.s5 == 0xffff),
        !(ip.s0 == 0 && ip.s1 == 0 && ip.s2 == 0 && ip.s3 == 0 && ip.s4 == 0 && ip.s5 == 0 && !(
        ip.s6 == 0 && ip.s7 <= 1)),
    ensures
        r <==> {
            ||| ip.s0 / 0x100 == 0xff
            ||| ip.s0 / 0x200 == 0x7e
            ||| ip.s0 / 0x40 == 0x3fa
            ||| ip.s0 * 0x1_0000 + ip.s1 == 0x2001_0000
            ||| ip.s0 == 0 && ip.s1 == 0 && ip.s2 == 0 && ip.s3 == 0 && ip.s4 == 0 && ip.s5 == 0
        },
{
    lemma_segments(ip);
}

/// The guard lets exactly the targets through that are not blocked, and all of
/// them where private targets are allowed. What it lets through is the target
/// that was asked for, and the port changes nothing.
pub proof fn law_guard_passes_what_is_not_blocked(
    target: SocketAddr,
    allow_private: bool,
    blocked: bool,
    r: Result<CheckedTarget, BlockedTarget>,
    dialed: SocketAddr,
)
    requires
        call_ensures(is_blocked_ip, (target.ip,), blocked),
        call_ensures(check_proxy_target, (target, allow_private), r),
        r matches Ok(c) ==> call_ensures(CheckedTarget::addr, (c,), dialed),
    ensures
        r is Ok <==> allow_private || !blocked,
        r is Ok ==> dialed == target,
        r matches Err(e) ==> e.target == target,
{
}

} // verus!

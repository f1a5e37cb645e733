//! Classification of addresses into the ranges a public-facing proxy must not dial.

use vstd::prelude::*;
use crate::addr::{IpAddress, NetworkAddress};

verus! {

/// The disallowed range that an address falls in. Meant for telemetry only.
#[derive(Clone, Copy, Debug, PartialEq, Eq, Structural)]
pub enum RangeName {
    Unspecified,
    Loopback,
    PrivateUse,
    SharedAddressSpace,
    LinkLocal,
    Multicast,
    Documentation,
    Benchmarking,
    Reserved,
}

impl RangeName {
    /// The range's name as it appears in log events.
    pub open spec fn label(self) -> Seq<char> {
        match self {
            RangeName::Unspecified => "unspecified"@,
            RangeName::Loopback => "loopback"@,
            RangeName::PrivateUse => "private-use"@,
            RangeName::SharedAddressSpace => "shared-address-space"@,
            RangeName::LinkLocal => "link-local"@,
            RangeName::Multicast => "multicast"@,
            RangeName::Documentation => "documentation"@,
            RangeName::Benchmarking => "benchmarking"@,
            RangeName::Reserved => "reserved"@,
        }
    }

    /// The range's name as it appears in log events.
    pub fn name(&self) -> (r: &'static str)
        ensures
            r@ == self.label(),
    {
        match self {
            RangeName::Unspecified => "unspecified",
            RangeName::Loopback => "loopback",
            RangeName::PrivateUse => "private-use",
            RangeName::SharedAddressSpace => "shared-address-space",
            RangeName::LinkLocal => "link-local",
            RangeName::Multicast => "multicast",
            RangeName::Documentation => "documentation",
            RangeName::Benchmarking => "benchmarking",
            RangeName::Reserved => "reserved",
        }
    }
}

/// Whether `a` lies between `first` and `last`, both included.
pub open spec fn within(a: int, first: int, last: int) -> bool {
    first <= a <= last
}

/// The disallowed IPv4 range that holds `a`, if any. Blocks are listed by
/// their first and last address; where two overlap, the earlier line wins.
pub open spec fn v4_range(a: u32) -> Option<RangeName> {
    if within(a as int, 0x0000_0000, 0x00FF_FFFF) {
        Some(RangeName::Unspecified)  // 0.0.0.0/8
    } else if within(a as int, 0x0A00_0000, 0x0AFF_FFFF) {
        Some(RangeName::PrivateUse)  // 10.0.0.0/8
    } else if within(a as int, 0x6440_0000, 0x647F_FFFF) {
        Some(RangeName::SharedAddressSpace)  // 100.64.0.0/10
    } else if within(a as int, 0x7F00_0000, 0x7FFF_FFFF) {
        Some(RangeName::Loopback)  // 127.0.0.0/8
    } else if within(a as int, 0xA9FE_0000, 0xA9FE_FFFF) {
        Some(RangeName::LinkLocal)  // 169.254.0.0/16
    } else if within(a as int, 0xAC10_0000, 0xAC1F_FFFF) {
        Some(RangeName::PrivateUse)  // 172.16.0.0/12
    } else if within(a as int, 0xC000_0000, 0xC000_00FF) {
        Some(RangeName::Reserved)  // 192.0.0.0/24
    } else if within(a as int, 0xC000_0200, 0xC000_02FF) {
        Some(RangeName::Documentation)  // 192.0.2.0/24
    } else if within(a as int, 0xC0A8_0000, 0xC0A8_FFFF) {
        Some(RangeName::PrivateUse)  // 192.168.0.0/16
    } else if within(a as int, 0xC612_0000, 0xC613_FFFF) {
        Some(RangeName::Benchmarking)  // 198.18.0.0/15
    } else if within(a as int, 0xC633_6400, 0xC633_64FF) {
        Some(RangeName::Documentation)  // 198.51.100.0/24
    } else if within(a as int, 0xCB00_7100, 0xCB00_71FF) {
        Some(RangeName::Documentation)  // 203.0.113.0/24
    } else if within(a as int, 0xE000_0000, 0xE000_00FF) {
        Some(RangeName::LinkLocal)  // 224.0.0.0/24, multicast on the local link
    } else if within(a as int, 0xE000_0000, 0xEFFF_FFFF) {
        Some(RangeName::Multicast)  // 224.0.0.0/4
    } else if within(a as int, 0xF000_0000, 0xFFFF_FFFF) {
        Some(RangeName::Reserved)  // 240.0.0.0/4, broadcast included
    } else {
        None
    }
}

/// The disallowed IPv6 range that holds `a`, if any. An address that embeds
/// an IPv4 address (IPv4-mapped, or the well-known NAT64 prefix) is judged by
/// the embedded address.
pub open spec fn v6_range(a: u128) -> Option<RangeName> {
    if a == 0 {
        Some(RangeName::Unspecified)  // ::
    } else if a == 1 {
        Some(RangeName::Loopback)  // ::1
    } else if within(a as int, 0xFFFF_0000_0000, 0xFFFF_FFFF_FFFF) {
        v4_range((a - 0xFFFF_0000_0000) as u32)  // ::ffff:0:0/96
    } else if within(
        a as int,
        0x0064_FF9B_0000_0000_0000_0000_0000_0000,
        0x0064_FF9B_0000_0000_0000_0000_FFFF_FFFF,
    ) {
        v4_range((a - 0x0064_FF9B_0000_0000_0000_0000_0000_0000) as u32)  // 64:ff9b::/96
    } else if within(
        a as int,
        0x2001_0DB8_0000_0000_0000_0000_0000_0000,
        0x2001_0DB8_FFFF_FFFF_FFFF_FFFF_FFFF_FFFF,
    ) {
        Some(RangeName::Documentation)  // 2001:db8::/32
    } else if within(
        a as int,
        0xFC00_0000_0000_0000_0000_0000_0000_0000,
        0xFDFF_FFFF_FFFF_FFFF_FFFF_FFFF_FFFF_FFFF,
    ) {
        Some(RangeName::PrivateUse)  // fc00::/7
    } else if within(
        a as int,
        0xFE80_0000_0000_0000_0000_0000_0000_0000,
        0xFEBF_FFFF_FFFF_FFFF_FFFF_FFFF_FFFF_FFFF,
    ) {
        Some(RangeName::LinkLocal)  // fe80::/10
    } else if within(
        a as int,
        0xFF02_0000_0000_0000_0000_0000_0000_0000,
        0xFF02_FFFF_FFFF_FFFF_FFFF_FFFF_FFFF_FFFF,
    ) {
        Some(RangeName::LinkLocal)  // ff02::/16, multicast on the local link
    } else if within(
        a as int,
        0xFF00_0000_0000_0000_0000_0000_0000_0000,
        0xFFFF_FFFF_FFFF_FFFF_FFFF_FFFF_FFFF_FFFF,
    ) {
        Some(RangeName::Multicast)  // ff00::/8
    } else {
        None
    }
}

/// The disallowed range that holds `ip`, if any.
pub open spec fn dangerous_range(ip: IpAddress) -> Option<RangeName> {
    match ip {
        IpAddress::V4(a) => v4_range(a),
        IpAddress::V6(a) => v6_range(a),
    }
}

/// Whether `ip` may be dialed on behalf of an untrusted caller.
pub open spec fn is_allowed(ip: IpAddress) -> bool {
    dangerous_range(ip) is None
}

/// Classifies an IPv4 address by comparing its leading bits with each block's prefix.
pub fn classify_v4(a: u32) -> (r: Option<RangeName>)
    ensures
        r == v4_range(a),
{
    proof {
        assert((a >> 24u32 == 0x00u32) <==> (a <= 0x00FF_FFFFu32)) by (bit_vector);
        assert((a >> 24u32 == 0x0Au32) <==> (0x0A00_0000u32 <= a && a <= 0x0AFF_FFFFu32))
            by (bit_vector);
        assert((a >> 22u32 == 0x191u32) <==> (0x6440_0000u32 <= a && a <= 0x647F_FFFFu32))
            by (bit_vector);
        assert((a >> 24u32 == 0x7Fu32) <==> (0x7F00_0000u32 <= a && a <= 0x7FFF_FFFFu32))
            by (bit_vector);
        assert((a >> 16u32 == 0xA9FEu32) <==> (0xA9FE_0000u32 <= a && a <= 0xA9FE_FFFFu32))
            by (bit_vector);
        assert((a >> 20u32 == 0xAC1u32) <==> (0xAC10_0000u32 <= a && a <= 0xAC1F_FFFFu32))
            by (bit_vector);
        assert((a >> 8u32 == 0xC0_0000u32) <==> (0xC000_0000u32 <= a && a <= 0xC000_00FFu32))
            by (bit_vector);
        assert((a >> 8u32 == 0xC0_0002u32) <==> (0xC000_0200u32 <= a && a <= 0xC000_02FFu32))
            by (bit_vector);
        assert((a >> 16u32 == 0xC0A8u32) <==> (0xC0A8_0000u32 <= a && a <= 0xC0A8_FFFFu32))
            by (bit_vector);
        assert((a >> 17u32 == 0x6309u32) <==> (0xC612_0000u32 <= a && a <= 0xC613_FFFFu32))
            by (bit_vector);
        assert((a >> 8u32 == 0xC6_3364u32) <==> (0xC633_6400u32 <= a && a <= 0xC633_64FFu32))
            by (bit_vector);
        assert((a >> 8u32 == 0xCB_0071u32) <==> (0xCB00_7100u32 <= a && a <= 0xCB00_71FFu32))
            by (bit_vector);
        assert((a >> 8u32 == 0xE0_0000u32) <==> (0xE000_0000u32 <= a && a <= 0xE000_00FFu32))
            by (bit_vector);
        assert((a >> 28u32 == 0xEu32) <==> (0xE000_0000u32 <= a && a <= 0xEFFF_FFFFu32))
            by (bit_vector);
        assert((a >> 28u32 == 0xFu32) <==> (0xF000_0000u32 <= a)) by (bit_vector);
    }
    if a >> 24 == 0x00 {
        Some(RangeName::Unspecified)
    } else if a >> 24 == 0x0A {
        Some(RangeName::PrivateUse)
    } else if a >> 22 == 0x191 {
        Some(RangeName::SharedAddressSpace)
    } else if a >> 24 == 0x7F {
        Some(RangeName::Loopback)
    } else if a >> 16 == 0xA9FE {
        Some(RangeName::LinkLocal)
    } else if a >> 20 == 0xAC1 {
        Some(RangeName::PrivateUse)
    } else if a >> 8 == 0xC0_0000 {
        Some(RangeName::Reserved)
    } else if a >> 8 == 0xC0_0002 {
        Some(RangeName::Documentation)
    } else if a >> 16 == 0xC0A8 {
        Some(RangeName::PrivateUse)
    } else if a >> 17 == 0x6309 {
        Some(RangeName::Benchmarking)
    } else if a >> 8 == 0xC6_3364 {
        Some(RangeName::Documentation)
    } else if a >> 8 == 0xCB_0071 {
        Some(RangeName::Documentation)
    } else if a >> 8 == 0xE0_0000 {
        Some(RangeName::LinkLocal)
    } else if a >> 28 == 0xE {
        Some(RangeName::Multicast)
    } else if a >> 28 == 0xF {
        Some(RangeName::Reserved)
    } else {
        None
    }
}

/// Classifies an IPv6 address by comparing its leading bits with each block's prefix.
pub fn classify_v6(a: u128) -> (r: Option<RangeName>)
    ensures
        r == v6_range(a),
{
    proof {
        assert((a >> 32u128 == 0xFFFFu128) <==> (0xFFFF_0000_0000u128 <= a && a
            <= 0xFFFF_FFFF_FFFFu128)) by (bit_vector);
        assert((a >> 32u128 == 0xFFFFu128) ==> (a & 0xFFFF_FFFFu128) == a
            - 0xFFFF_0000_0000u128) by (bit_vector);
        assert((a >> 32u128 == 0x0064_FF9B_0000_0000_0000_0000u128) <==> (
        0x0064_FF9B_0000_0000_0000_0000_0000_0000u128 <= a && a
            <= 0x0064_FF9B_0000_0000_0000_0000_FFFF_FFFFu128)) by (bit_vector);
        assert((a >> 32u128 == 0x0064_FF9B_0000_0000_0000_0000u128) ==> (a & 0xFFFF_FFFFu128)
            == a - 0x0064_FF9B_0000_0000_0000_0000_0000_0000u128) by (bit_vector);
        assert((a & 0xFFFF_FFFFu128) <= 0xFFFF_FFFFu128) by (bit_vector);
        assert((a >> 96u128 == 0x2001_0DB8u128) <==> (
        0x2001_0DB8_0000_0000_0000_0000_0000_0000u128 <= a && a
            <= 0x2001_0DB8_FFFF_FFFF_FFFF_FFFF_FFFF_FFFFu128)) by (bit_vector);
        assert((a >> 121u128 == 0x7Eu128) <==> (0xFC00_0000_0000_0000_0000_0000_0000_0000u128
            <= a && a <= 0xFDFF_FFFF_FFFF_FFFF_FFFF_FFFF_FFFF_FFFFu128)) by (bit_vector);
        assert((a >> 118u128 == 0x3FAu128) <==> (0xFE80_0000_0000_0000_0000_0000_0000_0000u128
            <= a && a <= 0xFEBF_FFFF_FFFF_FFFF_FFFF_FFFF_FFFF_FFFFu128)) by (bit_vector);
        assert((a >> 112u128 == 0xFF02u128) <==> (0xFF02_0000_0000_0000_0000_0000_0000_0000u128
            <= a && a <= 0xFF02_FFFF_FFFF_FFFF_FFFF_FFFF_FFFF_FFFFu128)) by (bit_vector);
        assert((a >> 120u128 == 0xFFu128) <==> (0xFF00_0000_0000_0000_0000_0000_0000_0000u128
            <= a)) by (bit_vector);
    }
    if a == 0 {
        Some(RangeName::Unspecified)
    } else if a == 1 {
        Some(RangeName::Loopback)
    } else if a >> 32 == 0xFFFF {
        classify_v4((a & 0xFFFF_FFFF) as u32)
    } else if a >> 32 == 0x0064_FF9B_0000_0000_0000_0000 {
        classify_v4((a & 0xFFFF_FFFF) as u32)
    } else if a >> 96 == 0x2001_0DB8 {
        Some(RangeName::Documentation)
    } else if a >> 121 == 0x7E {
        Some(RangeName::PrivateUse)
    } else if a >> 118 == 0x3FA {
        Some(RangeName::LinkLocal)
    } else if a >> 112 == 0xFF02 {
        Some(RangeName::LinkLocal)
    } else if a >> 120 == 0xFF {
        Some(RangeName::Multicast)
    } else {
        None
    }
}

/// Decides whether `ip` falls in a range that must not be dialed for an
/// untrusted caller, and names the range if so.
pub fn classify_dangerous_ip(ip: &IpAddress) -> (r: Option<RangeName>)
    ensures
        r == dangerous_range(*ip),
{
    match ip {
        IpAddress::V4(a) => classify_v4(*a),
        IpAddress::V6(a) => classify_v6(*a),
    }
}

/// Whether every address of `addrs` lies outside all disallowed ranges.
pub open spec fn all_allowed(addrs: Seq<NetworkAddress>) -> bool {
    forall|i: int| 0 <= i < addrs.len() ==> is_allowed(#[trigger] addrs[i].ip)
}

/// Tests every address of `addrs` against the disallowed ranges.
pub fn all_addresses_allowed(addrs: &Vec<NetworkAddress>) -> (r: bool)
    ensures
        r == all_allowed(addrs@),
{
    let mut i: usize = 0;
    while i < addrs.len()
        invariant
            i <= addrs.len(),
            forall|j: int| 0 <= j < i ==> is_allowed(#[trigger] addrs@[j].ip),
        decreases addrs.len() - i,
    {
        if classify_dangerous_ip(&addrs[i].ip).is_some() {
            assert(!is_allowed(addrs@[i as int].ip));
            return false;
        }
        i += 1;
    }
    true
}

/// An IPv6 address that embeds an IPv4 address, as an IPv4-mapped address
/// or under the well-known prefix `64:ff9b::/96`, is judged as the IPv4
/// address it embeds: no such form reaches a range that the plain form
/// cannot reach.
pub proof fn law_embedded_ipv4_is_judged_alike(a: u32)
    ensures
        v6_range((0xFFFF_0000_0000 + a) as u128) == v4_range(a),
        v6_range((0x0064_FF9B_0000_0000_0000_0000_0000_0000 + a) as u128) == v4_range(a),
{
}

/// The ranges that carry private networks, the local host and the local
/// link are all disallowed, in both address families.
pub proof fn law_internal_ranges_are_disallowed(ip: IpAddress)
    ensures
        ip matches IpAddress::V4(a) && (within(a as int, 0x0A00_0000, 0x0AFF_FFFF) || within(
            a as int,
            0xAC10_0000,
            0xAC1F_FFFF,
        ) || within(a as int, 0xC0A8_0000, 0xC0A8_FFFF)) ==> dangerous_range(ip) == Some(
            RangeName::PrivateUse,
        ),
        ip matches IpAddress::V4(a) && within(a as int, 0x7F00_0000, 0x7FFF_FFFF)
            ==> dangerous_range(ip) == Some(RangeName::Loopback),
        ip matches IpAddress::V4(a) && within(a as int, 0xA9FE_0000, 0xA9FE_FFFF)
            ==> dangerous_range(ip) == Some(RangeName::LinkLocal),
        ip matches IpAddress::V4(a) && a >= 0xE000_0000 ==> !is_allowed(ip),
        ip == IpAddress::V6(1) ==> dangerous_range(ip) == Some(RangeName::Loopback),
        ip matches IpAddress::V6(a) && within(
            a as int,
            0xFC00_0000_0000_0000_0000_0000_0000_0000,
            0xFDFF_FFFF_FFFF_FFFF_FFFF_FFFF_FFFF_FFFF,
        ) ==> dangerous_range(ip) == Some(RangeName::PrivateUse),
        ip matches IpAddress::V6(a) && within(
            a as int,
            0xFE80_0000_0000_0000_0000_0000_0000_0000,
            0xFEBF_FFFF_FFFF_FFFF_FFFF_FFFF_FFFF_FFFF,
        ) ==> dangerous_range(ip) == Some(RangeName::LinkLocal),
        ip matches IpAddress::V6(a) && a >= 0xFF00_0000_0000_0000_0000_0000_0000_0000
            ==> !is_allowed(ip),
{
}

} // verus!

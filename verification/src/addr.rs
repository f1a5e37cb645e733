//! Network addresses as plain integers.

use vstd::prelude::*;

verus! {

/// An IP address of either family, held as the big-endian integer of its bytes.
#[derive(Clone, Copy, Debug, PartialEq, Eq, Structural, Hash)]
pub enum IpAddress {
    /// An IPv4 address: `a.b.c.d` is `a * 2^24 + b * 2^16 + c * 2^8 + d`.
    V4(u32),
    /// An IPv6 address: its sixteen bytes read as one big-endian number.
    V6(u128),
}

/// An IP address and a port: the unit of a connection attempt and of a cache entry.
#[derive(Clone, Copy, Debug, PartialEq, Eq, Structural, Hash)]
pub struct NetworkAddress {
    pub ip: IpAddress,
    pub port: u16,
}

impl NetworkAddress {
    /// Pairs an address with a port.
    pub fn new(ip: IpAddress, port: u16) -> (r: NetworkAddress)
        ensures
            r == (NetworkAddress { ip, port }),
    {
        NetworkAddress { ip, port }
    }
}

/// A copy of `addrs`, element by element.
pub fn copy_addresses(addrs: &Vec<NetworkAddress>) -> (r: Vec<NetworkAddress>)
    ensures
        r@ == addrs@,
{
    let mut out: Vec<NetworkAddress> = Vec::new();
    let mut i: usize = 0;
    while i < addrs.len()
        invariant
            i <= addrs.len(),
            out@ == addrs@.subrange(0, i as int),
        decreases addrs.len() - i,
    {
        out.push(addrs[i]);
        assert(out@ =~= addrs@.subrange(0, i + 1));
        i += 1;
    }
    assert(addrs@.subrange(0, i as int) =~= addrs@);
    out
}

} // verus!

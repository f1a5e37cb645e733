//! Counters of cache use.

use vstd::prelude::*;

verus! {

/// Monotonic counters. Each stops at the largest value of its type.
#[derive(Clone, Copy, Debug, PartialEq, Eq, Structural)]
pub struct MetricsRegistry {
    pub dns_cache_hits_total: u64,
    pub dns_cache_misses_total: u64,
}

/// `n` counted up by one, staying at the maximum once there.
pub open spec fn bumped(n: u64) -> u64 {
    if n == u64::MAX {
        n
    } else {
        (n + 1) as u64
    }
}

impl MetricsRegistry {
    /// A registry with both counters at zero.
    pub fn new() -> (r: MetricsRegistry)
        ensures
            r.dns_cache_hits_total == 0,
            r.dns_cache_misses_total == 0,
    {
        MetricsRegistry { dns_cache_hits_total: 0, dns_cache_misses_total: 0 }
    }

    /// Counts one cache hit.
    pub fn record_hit(&mut self)
        ensures
            final(self).dns_cache_hits_total == bumped(old(self).dns_cache_hits_total),
            final(self).dns_cache_misses_total == old(self).dns_cache_misses_total,
    {
        if self.dns_cache_hits_total < u64::MAX {
            self.dns_cache_hits_total = self.dns_cache_hits_total + 1;
        }
    }

    /// Counts one cache miss.
    pub fn record_miss(&mut self)
        ensures
            final(self).dns_cache_misses_total == bumped(old(self).dns_cache_misses_total),
            final(self).dns_cache_hits_total == old(self).dns_cache_hits_total,
    {
        if self.dns_cache_misses_total < u64::MAX {
            self.dns_cache_misses_total = self.dns_cache_misses_total + 1;
        }
    }
}

} // verus!

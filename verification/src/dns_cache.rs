//! A store of earlier resolutions, each kept until its expiry.
//!
//! Time is a count of seconds on a clock that never runs backwards, handed in
//! by the caller. An entry past its expiry stays in the store until it is
//! replaced, and is never served.
//!
//! Each entry remembers whether it was stored with the guard on. A lookup
//! with the guard on is answered by such entries only, so that addresses
//! resolved without screening never reach a caller that asked for it.

use vstd::prelude::*;
use vstd::string::*;
use crate::addr::{copy_addresses, NetworkAddress};
use crate::ip_guard::{all_addresses_allowed, all_allowed};

verus! {

/// The seconds an entry lives where the cache is given no other default. The
/// resolver hands out no time to live of its own, so a short one is used.
pub const DEFAULT_TTL_SECS: u64 = 60;

/// What the cache holds under one key.
pub struct Entry {
    /// The addresses, in the order they were stored.
    pub addrs: Seq<NetworkAddress>,
    /// The first second at which the entry is no longer served.
    pub expires_at: u64,
    /// Whether the entry was stored with the guard on and holds allowed
    /// addresses only.
    pub screened: bool,
}

/// The expiry of an entry stored at `now` for `ttl_secs`, held at the largest
/// second that can be written.
pub open spec fn expiry(now: u64, ttl_secs: u64) -> u64 {
    if now + ttl_secs > u64::MAX {
        u64::MAX
    } else {
        (now + ttl_secs) as u64
    }
}

/// The entry that storing `addrs` at `now` for `ttl_secs` makes.
pub open spec fn stored(
    addrs: Seq<NetworkAddress>,
    ip_guard_enabled: bool,
    now: u64,
    ttl_secs: u64,
) -> Entry {
    Entry {
        addrs,
        expires_at: expiry(now, ttl_secs),
        screened: ip_guard_enabled && all_allowed(addrs),
    }
}

/// Whether `entry` answers a lookup at `now`: it has not expired, and where
/// the caller has the guard on, it was stored as screened.
pub open spec fn serves(entry: Entry, ip_guard_enabled: bool, now: u64) -> bool {
    now < entry.expires_at && (ip_guard_enabled ==> entry.screened)
}

/// Whether every entry that counts as screened holds allowed addresses only.
pub open spec fn sound(entries: Map<Seq<char>, Entry>) -> bool {
    forall|key: Seq<char>| #[trigger]
        entries.dom().contains(key) && entries[key].screened ==> all_allowed(entries[key].addrs)
}

/// What a lookup of `key` at `now` gives on the cache contents `entries`.
pub open spec fn lookup(
    entries: Map<Seq<char>, Entry>,
    key: Seq<char>,
    ip_guard_enabled: bool,
    now: u64,
) -> Option<Seq<NetworkAddress>> {
    if entries.dom().contains(key) && serves(entries[key], ip_guard_enabled, now) {
        Some(entries[key].addrs)
    } else {
        None
    }
}

struct Slot {
    key: String,
    addrs: Vec<NetworkAddress>,
    expires_at: u64,
    screened: bool,
}

spec fn slot_entry(slot: Slot) -> Entry {
    Entry { addrs: slot.addrs@, expires_at: slot.expires_at, screened: slot.screened }
}

spec fn holds_key(slots: Seq<Slot>, i: int, key: Seq<char>) -> bool {
    0 <= i < slots.len() && slots[i].key@ == key
}

spec fn distinct_keys(slots: Seq<Slot>) -> bool {
    forall|i: int, j: int|
        0 <= i < j < slots.len() ==> #[trigger] slots[i].key@ != #[trigger] slots[j].key@
}

spec fn contents(slots: Seq<Slot>) -> Map<Seq<char>, Entry> {
    Map::new(
        |key: Seq<char>| exists|i: int| holds_key(slots, i, key),
        |key: Seq<char>| slot_entry(slots[choose|i: int| holds_key(slots, i, key)]),
    )
}

proof fn lemma_contents_at(slots: Seq<Slot>, i: int)
    requires
        distinct_keys(slots),
        0 <= i < slots.len(),
    ensures
        contents(slots).dom().contains(slots[i].key@),
        contents(slots)[slots[i].key@] == slot_entry(slots[i]),
{
    let key = slots[i].key@;
    assert(holds_key(slots, i, key));
    let j = choose|j: int| holds_key(slots, j, key);
    assert(holds_key(slots, j, key));
    if j < i {
        assert(slots[j].key@ != slots[i].key@);
    } else if i < j {
        assert(slots[i].key@ != slots[j].key@);
    }
}

proof fn lemma_contents_sound(slots: Seq<Slot>)
    requires
        forall|i: int|
            0 <= i < slots.len() && (#[trigger] slots[i]).screened ==> all_allowed(slots[i].addrs@),
    ensures
        sound(contents(slots)),
{
    let entries = contents(slots);
    assert forall|key: Seq<char>| #[trigger]
        entries.dom().contains(key) && entries[key].screened implies all_allowed(
        entries[key].addrs,
    ) by {
        let i = choose|i: int| holds_key(slots, i, key);
        assert(holds_key(slots, i, key));
        assert(slots[i].screened);
    }
}

proof fn lemma_contents_after_store(before: Seq<Slot>, after: Seq<Slot>, at: int)
    requires
        distinct_keys(before),
        distinct_keys(after),
        0 <= at < after.len(),
        before.len() == after.len() || (before.len() + 1 == after.len() && at == before.len()),
        forall|i: int| 0 <= i < before.len() && i != at ==> before[i] == after[i],
        at < before.len() ==> before[at].key@ == after[at].key@,
        at == before.len() ==> forall|i: int| 0 <= i < before.len() ==> before[i].key@ != after[at].key@,
    ensures
        contents(after) == contents(before).insert(after[at].key@, slot_entry(after[at])),
{
    let key = after[at].key@;
    let want = contents(before).insert(key, slot_entry(after[at]));
    lemma_contents_at(after, at);
    assert forall|k: Seq<char>| contents(after).dom().contains(k) <==> want.dom().contains(k) by {
        if k != key {
            if contents(after).dom().contains(k) {
                let j = choose|j: int| holds_key(after, j, k);
                assert(holds_key(before, j, k));
            }
            if contents(before).dom().contains(k) {
                let j = choose|j: int| holds_key(before, j, k);
                assert(holds_key(after, j, k));
            }
        }
    }
    assert forall|k: Seq<char>| contents(after).dom().contains(k) implies contents(after)[k]
        == want[k] by {
        if k != key {
            let j = choose|j: int| holds_key(after, j, k);
            assert(holds_key(before, j, k));
            lemma_contents_at(after, j);
            lemma_contents_at(before, j);
        }
    }
    assert(contents(after) =~= want);
}

/// The cache: for each key at most one entry.
pub struct DnsCache {
    slots: Vec<Slot>,
    default_ttl_secs: u64,
}

impl DnsCache {
    #[verifier::type_invariant]
    spec fn well_formed(self) -> bool {
        &&& distinct_keys(self.slots@)
        &&& forall|i: int|
            0 <= i < self.slots.len() && (#[trigger] self.slots[i]).screened ==> all_allowed(
                self.slots[i].addrs@,
            )
    }

    /// The entries by key, expired ones included.
    pub closed spec fn view(&self) -> Map<Seq<char>, Entry> {
        contents(self.slots@)
    }

    /// The seconds an entry lives where no other time is given.
    pub closed spec fn default_ttl(&self) -> u64 {
        self.default_ttl_secs
    }

    /// An empty cache whose entries live `default_ttl_secs` unless told otherwise.
    pub fn new(default_ttl_secs: u64) -> (r: DnsCache)
        ensures
            r@ == Map::<Seq<char>, Entry>::empty(),
            r.default_ttl() == default_ttl_secs,
            sound(r@),
    {
        let r = DnsCache { slots: Vec::new(), default_ttl_secs };
        assert(r@ =~= Map::<Seq<char>, Entry>::empty());
        r
    }

    fn position(&self, key: &String) -> (r: Option<usize>)
        ensures
            match r {
                Some(i) => holds_key(self.slots@, i as int, key@),
                None => forall|i: int| !holds_key(self.slots@, i, key@),
            },
    {
        let mut i: usize = 0;
        while i < self.slots.len()
            invariant
                i <= self.slots.len(),
                forall|j: int| 0 <= j < i ==> !holds_key(self.slots@, j, key@),
            decreases self.slots.len() - i,
        {
            if self.slots[i].key == *key {
                return Some(i);
            }
            i += 1;
        }
        None
    }

    /// Looks `key` up at the second `now`.
    ///
    /// Gives the stored addresses if there is an entry for `key` that has not
    /// expired and, where `ip_guard_enabled` is set, was stored as screened;
    /// otherwise nothing. What is given with the guard on are allowed
    /// addresses only. The cache is left as it is.
    pub fn get(&self, key: &str, ip_guard_enabled: bool, now: u64) -> (r: Option<
        Vec<NetworkAddress>,
    >)
        ensures
            match r {
                Some(addrs) => lookup(self@, key@, ip_guard_enabled, now) == Some(addrs@),
                None => lookup(self@, key@, ip_guard_enabled, now) is None,
            },
            ip_guard_enabled ==> (r matches Some(addrs) ==> all_allowed(addrs@)),
            sound(self@),
    {
        proof {
            use_type_invariant(self);
            lemma_contents_sound(self.slots@);
        }
        let owned = String::from_str(key);
        match self.position(&owned) {
            Some(i) => {
                proof {
                    lemma_contents_at(self.slots@, i as int);
                }
                let slot = &self.slots[i];
                if now < slot.expires_at && (!ip_guard_enabled || slot.screened) {
                    Some(copy_addresses(&slot.addrs))
                } else {
                    None
                }
            },
            None => None,
        }
    }

    /// Stores `addrs` under `key` at the second `now`, in place of any entry
    /// that `key` had. The entry expires `ttl_override` seconds after `now`,
    /// or the default time to live where none is given. It counts as
    /// screened where `ip_guard_enabled` is set and every address is allowed.
    pub fn insert(
        &mut self,
        key: &str,
        addrs: Vec<NetworkAddress>,
        ttl_override: Option<u64>,
        ip_guard_enabled: bool,
        now: u64,
    )
        ensures
            final(self)@ == old(self)@.insert(
                key@,
                stored(
                    addrs@,
                    ip_guard_enabled,
                    now,
                    match ttl_override {
                        Some(ttl) => ttl,
                        None => old(self).default_ttl(),
                    },
                ),
            ),
            final(self).default_ttl() == old(self).default_ttl(),
            sound(old(self)@),
            sound(final(self)@),
    {
        proof {
            use_type_invariant(&*self);
            lemma_contents_sound(self.slots@);
        }
        let ttl: u64 = match ttl_override {
            Some(ttl) => ttl,
            None => self.default_ttl_secs,
        };
        let expires_at: u64 = if ttl > u64::MAX - now {
            u64::MAX
        } else {
            now + ttl
        };
        let screened = ip_guard_enabled && all_addresses_allowed(&addrs);
        let owned = String::from_str(key);
        let found = self.position(&owned);
        let slot = Slot { key: owned, addrs, expires_at, screened };
        let mut taken = DnsCache { slots: Vec::new(), default_ttl_secs: self.default_ttl_secs };
        core::mem::swap(self, &mut taken);
        proof {
            use_type_invariant(&taken);
        }
        let mut slots = taken.slots;
        let ghost before = slots@;
        assert forall|i: int| found is None && 0 <= i < before.len() implies #[trigger] before[i].key@
            != key@ by {
            assert(!holds_key(before, i, key@));
        }
        match found {
            Some(i) => {
                slots.set(i, slot);
                proof {
                    assert forall|a: int, b: int| 0 <= a < b < slots@.len() implies #[trigger] slots@[a].key@
                        != #[trigger] slots@[b].key@ by {
                        assert(before[a].key@ != before[b].key@);
                    }
                    lemma_contents_after_store(before, slots@, i as int);
                }
            },
            None => {
                slots.push(slot);
                proof {
                    assert forall|i: int, j: int| 0 <= i < j < slots@.len() implies #[trigger] slots@[i].key@
                        != #[trigger] slots@[j].key@ by {
                        if j < before.len() {
                            assert(before[i].key@ != before[j].key@);
                        } else {
                            assert(before[i].key@ != key@);
                        }
                    }
                    lemma_contents_after_store(before, slots@, before.len() as int);
                }
            },
        }
        proof {
            lemma_contents_sound(slots@);
        }
        *self = DnsCache { slots, default_ttl_secs: taken.default_ttl_secs };
    }
}

/// A lookup with the guard on serves allowed addresses only, and no entry
/// that was stored with the guard off, whatever its addresses.
pub proof fn law_guarded_lookup_is_safe(
    entries: Map<Seq<char>, Entry>,
    key: Seq<char>,
    now: u64,
)
    requires
        sound(entries),
    ensures
        lookup(entries, key, true, now) matches Some(addrs) ==> all_allowed(addrs)
            && entries[key].screened,
{
}

/// Storing an entry keeps the contents sound.
pub proof fn law_storing_keeps_contents_sound(
    entries: Map<Seq<char>, Entry>,
    key: Seq<char>,
    addrs: Seq<NetworkAddress>,
    ip_guard_enabled: bool,
    now: u64,
    ttl_secs: u64,
)
    requires
        sound(entries),
    ensures
        sound(entries.insert(key, stored(addrs, ip_guard_enabled, now, ttl_secs))),
{
    let after = entries.insert(key, stored(addrs, ip_guard_enabled, now, ttl_secs));
    assert forall|k: Seq<char>| #[trigger]
        after.dom().contains(k) && after[k].screened implies all_allowed(after[k].addrs) by {
        if k != key {
            assert(entries.dom().contains(k));
        }
    }
}

/// An entry is served from the second it is stored until its expiry, and
/// never from its expiry on. With the guard on it is served only where it
/// was stored with the guard on and holds allowed addresses only. Storing
/// under one key leaves lookups of every other key as they were.
pub proof fn law_entry_lives_until_expiry(
    entries: Map<Seq<char>, Entry>,
    key: Seq<char>,
    addrs: Seq<NetworkAddress>,
    stored_with_guard: bool,
    stored_at: u64,
    ttl_secs: u64,
    other: Seq<char>,
    ip_guard_enabled: bool,
    now: u64,
)
    ensures
        ({
            let after = entries.insert(key, stored(addrs, stored_with_guard, stored_at, ttl_secs));
            let live = now < expiry(stored_at, ttl_secs);
            &&& live && !ip_guard_enabled ==> lookup(after, key, false, now) == Some(addrs)
            &&& live && ip_guard_enabled && stored_with_guard && all_allowed(addrs) ==> lookup(
                after,
                key,
                true,
                now,
            ) == Some(addrs)
            &&& ip_guard_enabled && !stored_with_guard ==> lookup(after, key, true, now) is None
            &&& !live ==> lookup(after, key, ip_guard_enabled, now) is None
            &&& other != key ==> lookup(after, other, ip_guard_enabled, now) == lookup(
                entries,
                other,
                ip_guard_enabled,
                now,
            )
        }),
{
}

} // verus!

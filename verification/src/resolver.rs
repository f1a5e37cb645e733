//! Screening of resolved addresses: what name resolution gave is reduced to
//! the addresses that may be dialed, or to one terminal failure.

use vstd::prelude::*;
use crate::addr::NetworkAddress;
use crate::error::ConnectError;
use crate::ip_guard::{
    all_allowed, classify_dangerous_ip, dangerous_range, is_allowed, RangeName,
};
use crate::target::{clamp_timeout, clamped_timeout, lookup_target, lookup_target_of};

verus! {

/// A resolved address that was dropped, with the range it fell in. Reported
/// for logging only; no failure handed to the caller carries it.
#[derive(Clone, Copy, Debug, PartialEq, Eq)]
pub struct BlockedAddress {
    pub addr: NetworkAddress,
    pub range: RangeName,
}

/// The name resolution to perform for a host and a port.
#[derive(Debug, PartialEq, Eq)]
pub struct LookupRequest {
    /// The string to resolve.
    pub target: String,
    /// The seconds after which the resolution counts as timed out.
    pub timeout_secs: u64,
}

/// How a name resolution ended.
#[derive(Debug, PartialEq, Eq)]
pub enum LookupOutcome {
    /// It did not complete in time.
    TimedOut,
    /// The resolution mechanism reported a failure, with its error number.
    Failed { code: i32 },
    /// It completed, with these addresses in this order.
    Resolved(Vec<NetworkAddress>),
}

/// What a resolution comes to: the addresses to dial or the failure, and the
/// addresses that were dropped on the way.
#[derive(Debug, PartialEq, Eq)]
pub struct Resolution {
    pub result: Result<Vec<NetworkAddress>, ConnectError>,
    pub blocked: Vec<BlockedAddress>,
}

/// The test that keeps an address: its IP lies in no disallowed range.
pub open spec fn keeps() -> spec_fn(NetworkAddress) -> bool {
    |a: NetworkAddress| is_allowed(a.ip)
}

/// The event for an address, if it is dropped.
pub open spec fn block_event() -> spec_fn(NetworkAddress) -> Option<BlockedAddress> {
    |a: NetworkAddress|
        match dangerous_range(a.ip) {
            Some(range) => Some(BlockedAddress { addr: a, range }),
            None => None,
        }
}

/// The addresses among `addrs` that may be dialed, in their order.
pub open spec fn safe_addresses(addrs: Seq<NetworkAddress>) -> Seq<NetworkAddress> {
    addrs.filter(keeps())
}

/// The addresses among `addrs` that are dropped, in their order, each with its range.
pub open spec fn blocked_addresses(addrs: Seq<NetworkAddress>) -> Seq<BlockedAddress> {
    addrs.filter_map(block_event())
}

/// What a non-empty answer of the resolver comes to: the addresses as they
/// are with the guard off; with it on, those that may be dialed, or the one
/// error that says none may.
pub open spec fn screened(addrs: Seq<NetworkAddress>, ip_guard_enabled: bool) -> Result<
    Seq<NetworkAddress>,
    ConnectError,
> {
    if addrs.len() == 0 {
        Err(ConnectError::NoAddressesFound)
    } else if !ip_guard_enabled {
        Ok(addrs)
    } else if safe_addresses(addrs).len() == 0 {
        Err(ConnectError::AllAddressesBlocked)
    } else {
        Ok(safe_addresses(addrs))
    }
}

/// What a resolution's outcome comes to for the caller.
pub open spec fn resolved(outcome: LookupOutcome, ip_guard_enabled: bool) -> Result<
    Seq<NetworkAddress>,
    ConnectError,
> {
    match outcome {
        LookupOutcome::TimedOut => Err(ConnectError::ResolutionTimeout),
        LookupOutcome::Failed { code } => Err(ConnectError::ResolutionFailure { code }),
        LookupOutcome::Resolved(addrs) => screened(addrs@, ip_guard_enabled),
    }
}

/// The blocked-address events that a resolution's outcome gives rise to.
pub open spec fn logged(outcome: LookupOutcome, ip_guard_enabled: bool) -> Seq<BlockedAddress> {
    match outcome {
        LookupOutcome::Resolved(addrs) if ip_guard_enabled => blocked_addresses(addrs@),
        _ => Seq::empty(),
    }
}

/// A result with its addresses as a sequence.
pub open spec fn result_view(r: Result<Vec<NetworkAddress>, ConnectError>) -> Result<
    Seq<NetworkAddress>,
    ConnectError,
> {
    match r {
        Ok(v) => Ok(v@),
        Err(e) => Err(e),
    }
}

/// Says which resolution to perform for `host` and `port`: the target string,
/// and the caller's timeout clamped to the resolution maximum.
pub fn lookup_request(host: &str, port: u16, timeout_secs: u64) -> (r: LookupRequest)
    ensures
        r.target@ == lookup_target_of(host@, port),
        r.timeout_secs == clamped_timeout(timeout_secs),
{
    LookupRequest { target: lookup_target(host, port), timeout_secs: clamp_timeout(timeout_secs) }
}

/// Splits `addrs` into the addresses that may be dialed and the events for
/// those that may not, both in the order of `addrs`.
pub fn screen(addrs: &Vec<NetworkAddress>) -> (r: (Vec<NetworkAddress>, Vec<BlockedAddress>))
    ensures
        r.0@ == safe_addresses(addrs@),
        r.1@ == blocked_addresses(addrs@),
        all_allowed(r.0@),
{
    proof {
        law_screening_keeps_the_allowed(addrs@);
    }
    let mut safe: Vec<NetworkAddress> = Vec::new();
    let mut blocked: Vec<BlockedAddress> = Vec::new();
    let mut i: usize = 0;
    proof {
        reveal(Seq::filter);
        assert(addrs@.subrange(0, 0) =~= Seq::empty());
    }
    while i < addrs.len()
        invariant
            i <= addrs.len(),
            safe@ == safe_addresses(addrs@.subrange(0, i as int)),
            blocked@ == blocked_addresses(addrs@.subrange(0, i as int)),
        decreases addrs.len() - i,
    {
        let a = addrs[i];
        proof {
            reveal(Seq::filter);
            let next = addrs@.subrange(0, i + 1);
            assert(next.drop_last() =~= addrs@.subrange(0, i as int));
            assert(next.last() == a);
        }
        match classify_dangerous_ip(&a.ip) {
            Some(range) => {
                blocked.push(BlockedAddress { addr: a, range });
                assert(blocked@ =~= blocked_addresses(addrs@.subrange(0, i + 1)));
            },
            None => {
                safe.push(a);
            },
        }
        i += 1;
    }
    assert(addrs@.subrange(0, i as int) =~= addrs@);
    (safe, blocked)
}

/// Turns the outcome of a name resolution into the addresses to dial.
///
/// A timeout, a failure and an empty answer each give their own error. With
/// the guard off, the addresses come back as resolved. With it on, every
/// address in a disallowed range is dropped and reported in `blocked`; if none
/// is left the one error `AllAddressesBlocked` comes back, whatever the
/// addresses were.
pub fn resolve_and_check(outcome: LookupOutcome, ip_guard_enabled: bool) -> (r: Resolution)
    ensures
        result_view(r.result) == resolved(outcome, ip_guard_enabled),
        r.blocked@ == logged(outcome, ip_guard_enabled),
        ip_guard_enabled ==> (r.result matches Ok(addrs) ==> all_allowed(addrs@)),
{
    match outcome {
        LookupOutcome::TimedOut => Resolution {
            result: Err(ConnectError::ResolutionTimeout),
            blocked: Vec::new(),
        },
        LookupOutcome::Failed { code } => Resolution {
            result: Err(ConnectError::ResolutionFailure { code }),
            blocked: Vec::new(),
        },
        LookupOutcome::Resolved(addrs) => {
            if addrs.len() == 0 {
                Resolution { result: Err(ConnectError::NoAddressesFound), blocked: Vec::new() }
            } else if !ip_guard_enabled {
                Resolution { result: Ok(addrs), blocked: Vec::new() }
            } else {
                let (safe, blocked) = screen(&addrs);
                if safe.len() == 0 {
                    Resolution { result: Err(ConnectError::AllAddressesBlocked), blocked }
                } else {
                    Resolution { result: Ok(safe), blocked }
                }
            }
        },
    }
}

/// Screening keeps exactly the allowed addresses: every address it keeps is
/// allowed and was resolved, and every allowed address that was resolved is kept.
pub proof fn law_screening_keeps_the_allowed(addrs: Seq<NetworkAddress>)
    ensures
        forall|i: int|
            0 <= i < safe_addresses(addrs).len() ==> is_allowed(
                (#[trigger] safe_addresses(addrs)[i]).ip,
            ),
        forall|a: NetworkAddress| #[trigger]
            safe_addresses(addrs).contains(a) <==> addrs.contains(a) && is_allowed(a.ip),
        safe_addresses(addrs).len() <= addrs.len(),
{
    let kept = safe_addresses(addrs);
    assert forall|i: int| 0 <= i < kept.len() implies is_allowed((#[trigger] kept[i]).ip) by {
        addrs.lemma_filter_pred(keeps(), i);
    }
    assert forall|a: NetworkAddress| #[trigger] kept.contains(a) <==> addrs.contains(a)
        && is_allowed(a.ip) by {
        if kept.contains(a) {
            addrs.lemma_filter_contains_rev(keeps(), a);
            let i = choose|i: int| 0 <= i < kept.len() && kept[i] == a;
            addrs.lemma_filter_pred(keeps(), i);
        }
        if addrs.contains(a) && is_allowed(a.ip) {
            let i = choose|i: int| 0 <= i < addrs.len() && addrs[i] == a;
            addrs.lemma_filter_contains(keeps(), i);
        }
    }
    addrs.lemma_filter_len(keeps());
}

/// Screening changes nothing in a list whose addresses are all allowed.
pub proof fn law_screening_keeps_an_allowed_list(addrs: Seq<NetworkAddress>)
    requires
        forall|i: int| 0 <= i < addrs.len() ==> is_allowed(#[trigger] addrs[i].ip),
    ensures
        safe_addresses(addrs) == addrs,
    decreases addrs.len(),
{
    reveal(Seq::filter);
    if addrs.len() > 0 {
        law_screening_keeps_an_allowed_list(addrs.drop_last());
        assert(addrs.drop_last().push(addrs.last()) =~= addrs);
    }
}

/// Screening twice gives what screening once gives: a second resolution
/// with the same answer ends in the same addresses.
pub proof fn law_screening_is_idempotent(addrs: Seq<NetworkAddress>)
    ensures
        safe_addresses(safe_addresses(addrs)) == safe_addresses(addrs),
        screened(addrs, true) matches Ok(kept) ==> screened(kept, true) == Ok::<
            Seq<NetworkAddress>,
            ConnectError,
        >(kept),
{
    law_screening_keeps_the_allowed(addrs);
    law_screening_keeps_an_allowed_list(safe_addresses(addrs));
}

/// With the guard on, an answer that holds addresses but none that is
/// allowed fails with `AllAddressesBlocked`, which carries nothing: two such
/// answers fail alike, whatever their addresses and however many.
pub proof fn law_blocked_answers_fail_alike(
    first: Seq<NetworkAddress>,
    second: Seq<NetworkAddress>,
)
    requires
        first.len() > 0,
        second.len() > 0,
        forall|i: int| 0 <= i < first.len() ==> !is_allowed(#[trigger] first[i].ip),
        forall|i: int| 0 <= i < second.len() ==> !is_allowed(#[trigger] second[i].ip),
    ensures
        screened(first, true) == Err::<Seq<NetworkAddress>, ConnectError>(
            ConnectError::AllAddressesBlocked,
        ),
        screened(first, true) == screened(second, true),
{
    lemma_nothing_kept(first);
    lemma_nothing_kept(second);
}

proof fn lemma_nothing_kept(addrs: Seq<NetworkAddress>)
    requires
        forall|i: int| 0 <= i < addrs.len() ==> !is_allowed(#[trigger] addrs[i].ip),
    ensures
        safe_addresses(addrs).len() == 0,
{
    law_screening_keeps_the_allowed(addrs);
    let kept = safe_addresses(addrs);
    if kept.len() > 0 {
        assert(kept.contains(kept[0]));
        let i = choose|i: int| 0 <= i < addrs.len() && addrs[i] == kept[0];
        assert(!is_allowed(addrs[i].ip));
    }
}

/// With the guard on, an answer that holds one allowed address gives
/// candidates: all of them allowed, and that address among them.
pub proof fn law_mixed_answer_gives_the_allowed(addrs: Seq<NetworkAddress>, i: int)
    requires
        0 <= i < addrs.len(),
        is_allowed(addrs[i].ip),
    ensures
        screened(addrs, true) == Ok::<Seq<NetworkAddress>, ConnectError>(safe_addresses(addrs)),
        safe_addresses(addrs).contains(addrs[i]),
        forall|j: int|
            0 <= j < safe_addresses(addrs).len() ==> is_allowed(
                (#[trigger] safe_addresses(addrs)[j]).ip,
            ),
{
    law_screening_keeps_the_allowed(addrs);
    assert(addrs.contains(addrs[i]));
    assert(safe_addresses(addrs).contains(addrs[i]));
}

/// With the guard off, an answer that holds addresses is dialed as it is,
/// whatever ranges its addresses lie in.
pub proof fn law_guard_off_keeps_all(addrs: Seq<NetworkAddress>)
    requires
        addrs.len() > 0,
    ensures
        screened(addrs, false) == Ok::<Seq<NetworkAddress>, ConnectError>(addrs),
{
}

/// A resolution comes to the same thing whenever the resolver answers the
/// same: two outcomes with the same addresses in the same order give the
/// same candidates, or the same error, and the same blocked-address events.
pub proof fn law_same_answer_same_resolution(
    first: LookupOutcome,
    second: LookupOutcome,
    ip_guard_enabled: bool,
)
    requires
        first is Resolved,
        second is Resolved,
        first->Resolved_0@ == second->Resolved_0@,
    ensures
        resolved(first, ip_guard_enabled) == resolved(second, ip_guard_enabled),
        logged(first, ip_guard_enabled) == logged(second, ip_guard_enabled),
{
}

} // verus!

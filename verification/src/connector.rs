//! The connection attempt as a sequence of decisions. The caller performs
//! each resolution and each dial and reports how it ended; the functions here
//! say what comes next.

use vstd::prelude::*;
use crate::addr::{copy_addresses, NetworkAddress};
use crate::dns_cache::{expiry, lookup, sound, stored, DnsCache, Entry};
use crate::error::{AttemptError, ConnectError};
use crate::ip_guard::{all_allowed, is_allowed};
use crate::metrics::{bumped, MetricsRegistry};
use crate::resolver::{
    law_screening_keeps_the_allowed, logged, resolve_and_check, resolved, safe_addresses,
    BlockedAddress, LookupOutcome, LookupRequest,
};
use crate::target::{
    cache_key, cache_key_of, clamp_timeout, clamped_timeout, lookup_target, lookup_target_of,
};

verus! {

/// Seconds of silence after which keep-alive probing of a connection starts.
pub const KEEPALIVE_IDLE_SECS: u64 = 60;

/// Seconds between two keep-alive probes.
pub const KEEPALIVE_INTERVAL_SECS: u64 = 15;

/// The socket settings of a fresh connection.
#[derive(Clone, Copy, Debug, PartialEq, Eq, Structural)]
pub struct SocketTuning {
    pub keepalive_idle_secs: u64,
    pub keepalive_interval_secs: u64,
    /// Whether small writes are sent at once rather than gathered.
    pub nodelay: bool,
}

/// The settings every new connection gets.
pub open spec fn standard_tuning() -> SocketTuning {
    SocketTuning {
        keepalive_idle_secs: KEEPALIVE_IDLE_SECS,
        keepalive_interval_secs: KEEPALIVE_INTERVAL_SECS,
        nodelay: true,
    }
}

/// The settings to apply to a connection once it is established. Applying
/// them is best effort: whether it works does not change the outcome.
pub fn configure_tcp_socket() -> (r: SocketTuning)
    ensures
        r == standard_tuning(),
{
    SocketTuning {
        keepalive_idle_secs: KEEPALIVE_IDLE_SECS,
        keepalive_interval_secs: KEEPALIVE_INTERVAL_SECS,
        nodelay: true,
    }
}

/// How one dial ended.
#[derive(Clone, Copy, Debug, PartialEq, Eq)]
pub enum DialOutcome {
    /// The connection stands.
    Connected,
    /// The dial did not complete within the per-attempt timeout.
    TimedOut,
    /// The dial failed, with the operating system's error number.
    Failed { code: i32 },
}

/// The error that a dial's outcome stands for; none where it connected.
pub open spec fn attempt_error(outcome: DialOutcome) -> Option<AttemptError> {
    match outcome {
        DialOutcome::Connected => None,
        DialOutcome::TimedOut => Some(AttemptError::TimedOut),
        DialOutcome::Failed { code } => Some(AttemptError::Io { code }),
    }
}

/// Dialing in progress, as a value: the candidates, the position of the
/// one to dial now, the timeout of each dial, and the last failure so far.
pub struct DialState {
    pub candidates: Seq<NetworkAddress>,
    pub next: int,
    pub timeout_secs: u64,
    pub last_error: Option<AttemptError>,
}

/// Where a connection attempt stands once its candidates are known.
pub enum Course {
    /// The candidate at `next` is to be dialed.
    Dial(DialState),
    /// A dial connected, to `addr`.
    Connected { addr: NetworkAddress, tuning: SocketTuning },
    /// The attempt is over without a connection.
    Failed { error: ConnectError },
}

/// Where dialing stands before the first dial.
pub open spec fn begin(candidates: Seq<NetworkAddress>, timeout_secs: u64) -> Course {
    if candidates.len() == 0 {
        Course::Failed { error: ConnectError::ConnectFailure { cause: None } }
    } else {
        Course::Dial(DialState { candidates, next: 0, timeout_secs, last_error: None })
    }
}

/// Where dialing stands after the dial of the current candidate ended in `outcome`.
pub open spec fn advance(state: DialState, outcome: DialOutcome) -> Course {
    match attempt_error(outcome) {
        None => Course::Connected {
            addr: state.candidates[state.next],
            tuning: standard_tuning(),
        },
        Some(e) => {
            if state.next + 1 < state.candidates.len() {
                Course::Dial(
                    DialState {
                        candidates: state.candidates,
                        next: state.next + 1,
                        timeout_secs: state.timeout_secs,
                        last_error: Some(e),
                    },
                )
            } else {
                Course::Failed { error: ConnectError::ConnectFailure { cause: Some(e) } }
            }
        },
    }
}

/// Where an attempt stands after the dials that `outcomes` lists, in order.
/// Outcomes beyond the end of the attempt change nothing.
pub open spec fn run(course: Course, outcomes: Seq<DialOutcome>) -> Course
    decreases outcomes.len(),
{
    if outcomes.len() == 0 {
        course
    } else {
        match course {
            Course::Dial(state) => run(advance(state, outcomes[0]), outcomes.drop_first()),
            _ => course,
        }
    }
}

/// Dialing in progress: at least one candidate is still to be dialed.
#[derive(Debug, PartialEq, Eq)]
pub struct Dialing {
    candidates: Vec<NetworkAddress>,
    next: usize,
    timeout_secs: u64,
    last_error: Option<AttemptError>,
}

/// What the caller is to do next, or how the attempt ended.
#[derive(Debug, PartialEq, Eq)]
pub enum Progress {
    /// Dial the current candidate of the state, then report the outcome to it.
    Dial(Dialing),
    /// Connected to `addr`: apply `tuning` and hand the connection out.
    Connected { addr: NetworkAddress, tuning: SocketTuning },
    /// The attempt failed with `error`.
    Failed { error: ConnectError },
}

impl Dialing {
    #[verifier::type_invariant]
    spec fn in_range(self) -> bool {
        self.next < self.candidates.len()
    }

    /// The state as a value.
    pub closed spec fn view(&self) -> DialState {
        DialState {
            candidates: self.candidates@,
            next: self.next as int,
            timeout_secs: self.timeout_secs,
            last_error: self.last_error,
        }
    }

    /// The candidate to dial now.
    pub fn current(&self) -> (r: NetworkAddress)
        ensures
            0 <= self@.next < self@.candidates.len(),
            r == self@.candidates[self@.next],
    {
        proof {
            use_type_invariant(self);
        }
        self.candidates[self.next]
    }

    /// The seconds each dial is given. Every candidate gets the whole of it.
    pub fn timeout_secs(&self) -> (r: u64)
        ensures
            r == self@.timeout_secs,
    {
        self.timeout_secs
    }

    /// The failure of the dial before this one, if there was one.
    pub fn last_error(&self) -> (r: Option<AttemptError>)
        ensures
            r == self@.last_error,
    {
        self.last_error
    }

    /// Takes the outcome of the dial of the current candidate.
    ///
    /// A connection ends the attempt with that candidate's address, the
    /// others are left untried. A failure or a timeout is kept as the last
    /// error and the next candidate in order is to be dialed; after the last
    /// candidate the attempt fails with that last error.
    pub fn on_outcome(self, outcome: DialOutcome) -> (r: Progress)
        ensures
            r@ == advance(self@, outcome),
    {
        proof {
            use_type_invariant(&self);
        }
        let error = match outcome {
            DialOutcome::Connected => {
                return Progress::Connected {
                    addr: self.candidates[self.next],
                    tuning: configure_tcp_socket(),
                };
            },
            DialOutcome::TimedOut => AttemptError::TimedOut,
            DialOutcome::Failed { code } => AttemptError::Io { code },
        };
        if self.next + 1 < self.candidates.len() {
            Progress::Dial(
                Dialing {
                    candidates: self.candidates,
                    next: self.next + 1,
                    timeout_secs: self.timeout_secs,
                    last_error: Some(error),
                },
            )
        } else {
            Progress::Failed { error: ConnectError::ConnectFailure { cause: Some(error) } }
        }
    }
}

impl Progress {
    /// The progress as a value.
    pub open spec fn view(&self) -> Course {
        match *self {
            Progress::Dial(state) => Course::Dial(state@),
            Progress::Connected { addr, tuning } => Course::Connected { addr, tuning },
            Progress::Failed { error } => Course::Failed { error },
        }
    }

    /// Takes the outcomes of several dials at once, in the order the dials
    /// were made. Outcomes that come after the attempt is over are ignored.
    pub fn on_outcomes(self, outcomes: &Vec<DialOutcome>) -> (r: Progress)
        ensures
            r@ == run(self@, outcomes@),
    {
        let ghost start = self@;
        let mut current = self;
        let mut i: usize = 0;
        assert(outcomes@.subrange(0, outcomes@.len() as int) =~= outcomes@);
        while i < outcomes.len()
            invariant
                i <= outcomes.len(),
                start == self@,
                run(current@, outcomes@.subrange(i as int, outcomes@.len() as int)) == run(
                    start,
                    outcomes@,
                ),
            decreases outcomes.len() - i,
        {
            let ghost rest = outcomes@.subrange(i as int, outcomes@.len() as int);
            assert(rest[0] == outcomes@[i as int]);
            assert(rest.drop_first() =~= outcomes@.subrange(i + 1, outcomes@.len() as int));
            match current {
                Progress::Dial(state) => {
                    current = state.on_outcome(outcomes[i]);
                },
                over => {
                    proof {
                        law_finished_attempt_stays(over@, rest);
                    }
                    return over;
                },
            }
            i += 1;
        }
        current
    }
}

/// Starts dialing `addrs` in their order, each with `timeout_secs`. With no
/// address at all the attempt fails at once, without a cause.
pub fn connect_to_addrs(addrs: Vec<NetworkAddress>, timeout_secs: u64) -> (r: Progress)
    ensures
        r@ == begin(addrs@, timeout_secs),
{
    if addrs.len() == 0 {
        Progress::Failed { error: ConnectError::ConnectFailure { cause: None } }
    } else {
        Progress::Dial(Dialing { candidates: addrs, next: 0, timeout_secs, last_error: None })
    }
}

/// An attempt that waits for its name resolution, as a value.
pub struct Pending {
    /// The string to resolve.
    pub target: Seq<char>,
    /// The key under which the resolution is cached.
    pub key: Seq<char>,
    pub lookup_timeout_secs: u64,
    pub dial_timeout_secs: u64,
    pub ip_guard_enabled: bool,
}

/// The attempt for `host` and `port` before its resolution.
pub open spec fn pending(
    host: Seq<char>,
    port: u16,
    timeout_secs: u64,
    ip_guard_enabled: bool,
) -> Pending {
    Pending {
        target: lookup_target_of(host, port),
        key: cache_key_of(host, port),
        lookup_timeout_secs: clamped_timeout(timeout_secs),
        dial_timeout_secs: timeout_secs,
        ip_guard_enabled,
    }
}

/// Where an attempt stands once its resolution ended in `outcome`.
pub open spec fn after_lookup(attempt: Pending, outcome: LookupOutcome) -> Course {
    match resolved(outcome, attempt.ip_guard_enabled) {
        Ok(addrs) => begin(addrs, attempt.dial_timeout_secs),
        Err(error) => Course::Failed { error },
    }
}

/// The cache contents after an attempt's resolution ended in `outcome` at
/// the second `now`: what was resolved for dialing is stored under the
/// attempt's key with the default time to live; a failure stores nothing.
pub open spec fn cache_after_lookup(
    entries: Map<Seq<char>, Entry>,
    default_ttl: u64,
    attempt: Pending,
    outcome: LookupOutcome,
    now: u64,
) -> Map<Seq<char>, Entry> {
    match resolved(outcome, attempt.ip_guard_enabled) {
        Ok(addrs) => entries.insert(
            attempt.key,
            stored(addrs, attempt.ip_guard_enabled, now, default_ttl),
        ),
        Err(_) => entries,
    }
}

/// An attempt that waits for its name resolution.
#[derive(Debug, PartialEq, Eq)]
pub struct Resolving {
    target: String,
    key: String,
    lookup_timeout_secs: u64,
    dial_timeout_secs: u64,
    ip_guard_enabled: bool,
}

impl Resolving {
    /// The attempt as a value.
    pub closed spec fn view(&self) -> Pending {
        Pending {
            target: self.target@,
            key: self.key@,
            lookup_timeout_secs: self.lookup_timeout_secs,
            dial_timeout_secs: self.dial_timeout_secs,
            ip_guard_enabled: self.ip_guard_enabled,
        }
    }

    /// The resolution to perform.
    pub fn request(&self) -> (r: LookupRequest)
        ensures
            r.target@ == self@.target,
            r.timeout_secs == self@.lookup_timeout_secs,
    {
        LookupRequest { target: self.target.clone(), timeout_secs: self.lookup_timeout_secs }
    }

    /// Takes the outcome of the resolution: screens it and starts dialing
    /// what is left, or fails with the resolution's error. The second part
    /// of the result lists the addresses that were dropped, for logging.
    pub fn on_lookup(self, outcome: LookupOutcome) -> (r: (Progress, Vec<BlockedAddress>))
        ensures
            r.0@ == after_lookup(self@, outcome),
            r.1@ == logged(outcome, self@.ip_guard_enabled),
            self@.ip_guard_enabled ==> (r.0@ matches Course::Dial(state) ==> all_allowed(
                state.candidates,
            )),
    {
        let resolution = resolve_and_check(outcome, self.ip_guard_enabled);
        match resolution.result {
            Ok(addrs) => (connect_to_addrs(addrs, self.dial_timeout_secs), resolution.blocked),
            Err(error) => (Progress::Failed { error }, resolution.blocked),
        }
    }

    /// As `on_lookup`, and stores what is to be dialed in `dns_cache` at the
    /// second `now`, under the attempt's key and with the default time to live.
    pub fn on_lookup_with_cache(
        self,
        outcome: LookupOutcome,
        dns_cache: &mut DnsCache,
        now: u64,
    ) -> (r: (Progress, Vec<BlockedAddress>))
        ensures
            r.0@ == after_lookup(self@, outcome),
            r.1@ == logged(outcome, self@.ip_guard_enabled),
            final(dns_cache)@ == cache_after_lookup(
                old(dns_cache)@,
                old(dns_cache).default_ttl(),
                self@,
                outcome,
                now,
            ),
            final(dns_cache).default_ttl() == old(dns_cache).default_ttl(),
            self@.ip_guard_enabled ==> (r.0@ matches Course::Dial(state) ==> all_allowed(
                state.candidates,
            )),
    {
        let resolution = resolve_and_check(outcome, self.ip_guard_enabled);
        match resolution.result {
            Ok(addrs) => {
                let kept = copy_addresses(&addrs);
                dns_cache.insert(self.key.as_str(), kept, None, self.ip_guard_enabled, now);
                (connect_to_addrs(addrs, self.dial_timeout_secs), resolution.blocked)
            },
            Err(error) => (Progress::Failed { error }, resolution.blocked),
        }
    }
}

/// Begins a connection attempt to `host` and `port`.
///
/// Port 0 is refused at once. Otherwise the attempt waits for the resolution
/// of its target, under the caller's timeout clamped to the resolution
/// maximum; each later dial gets the caller's timeout unclamped.
pub fn connect(host: &str, port: u16, timeout_secs: u64, ip_guard_enabled: bool) -> (r: Result<
    Resolving,
    ConnectError,
>)
    ensures
        match r {
            Ok(attempt) => port != 0 && attempt@ == pending(
                host@,
                port,
                timeout_secs,
                ip_guard_enabled,
            ),
            Err(error) => port == 0 && error == ConnectError::InvalidPort,
        },
{
    if port == 0 {
        return Err(ConnectError::InvalidPort);
    }
    Ok(
        Resolving {
            target: lookup_target(host, port),
            key: cache_key(host, port),
            lookup_timeout_secs: clamp_timeout(timeout_secs),
            dial_timeout_secs: timeout_secs,
            ip_guard_enabled,
        },
    )
}

/// How an attempt with a cache begins.
#[derive(Debug, PartialEq, Eq)]
pub enum CacheStart {
    /// The cache answered: no resolution takes place.
    Hit(Progress),
    /// The cache had nothing to serve: the attempt waits for its resolution.
    Miss(Resolving),
}

/// As `CacheStart`, over values.
pub enum CacheCourse {
    Hit(Course),
    Miss(Pending),
}

impl CacheStart {
    /// The start as a value.
    pub open spec fn view(&self) -> CacheCourse {
        match *self {
            CacheStart::Hit(progress) => CacheCourse::Hit(progress@),
            CacheStart::Miss(attempt) => CacheCourse::Miss(attempt@),
        }
    }
}

/// How an attempt to `host` and `port` begins on the cache contents `entries` at `now`.
pub open spec fn cache_start(
    entries: Map<Seq<char>, Entry>,
    host: Seq<char>,
    port: u16,
    timeout_secs: u64,
    ip_guard_enabled: bool,
    now: u64,
) -> CacheCourse {
    match lookup(entries, cache_key_of(host, port), ip_guard_enabled, now) {
        Some(addrs) => CacheCourse::Hit(begin(addrs, timeout_secs)),
        None => CacheCourse::Miss(pending(host, port, timeout_secs, ip_guard_enabled)),
    }
}

/// The counters after an attempt that began on the cache, as a hit or as a miss.
pub open spec fn counted(before: MetricsRegistry, hit: bool) -> MetricsRegistry {
    if hit {
        MetricsRegistry {
            dns_cache_hits_total: bumped(before.dns_cache_hits_total),
            dns_cache_misses_total: before.dns_cache_misses_total,
        }
    } else {
        MetricsRegistry {
            dns_cache_hits_total: before.dns_cache_hits_total,
            dns_cache_misses_total: bumped(before.dns_cache_misses_total),
        }
    }
}

/// Begins a connection attempt to `host` and `port` at the second `now`,
/// looking in `dns_cache` first.
///
/// Port 0 is refused at once, with the counters untouched. Where the cache
/// serves the key of `host` and `port`, one hit is counted and dialing starts
/// on the cached addresses, with no resolution. Otherwise one miss is counted
/// and the attempt waits for its resolution; report that to
/// `on_lookup_with_cache`, which fills the cache. With the guard on, cached
/// candidates are allowed addresses only.
pub fn connect_with_cache(
    host: &str,
    port: u16,
    timeout_secs: u64,
    ip_guard_enabled: bool,
    dns_cache: &DnsCache,
    metrics: Option<&mut MetricsRegistry>,
    now: u64,
) -> (r: Result<CacheStart, ConnectError>)
    ensures
        match r {
            Ok(start) => port != 0 && start@ == cache_start(
                dns_cache@,
                host@,
                port,
                timeout_secs,
                ip_guard_enabled,
                now,
            ),
            Err(error) => port == 0 && error == ConnectError::InvalidPort,
        },
        ip_guard_enabled ==> (r matches Ok(CacheStart::Hit(progress)) ==> (progress@ matches Course::Dial(
            state,
        ) ==> all_allowed(state.candidates))),
        match metrics {
            Some(m) => *final(m) == match r {
                Ok(start) => counted(*m, start is Hit),
                Err(_) => *m,
            },
            None => true,
        },
{
    if port == 0 {
        return Err(ConnectError::InvalidPort);
    }
    let key = cache_key(host, port);
    match dns_cache.get(key.as_str(), ip_guard_enabled, now) {
        Some(cached) => {
            match metrics {
                Some(m) => {
                    m.record_hit();
                },
                None => {},
            }
            Ok(CacheStart::Hit(connect_to_addrs(cached, timeout_secs)))
        },
        None => {
            match metrics {
                Some(m) => {
                    m.record_miss();
                },
                None => {},
            }
            Ok(
                CacheStart::Miss(
                    Resolving {
                        target: lookup_target(host, port),
                        key,
                        lookup_timeout_secs: clamp_timeout(timeout_secs),
                        dial_timeout_secs: timeout_secs,
                        ip_guard_enabled,
                    },
                ),
            )
        },
    }
}

/// An attempt that is over stays as it is, whatever is reported after it.
pub proof fn law_finished_attempt_stays(course: Course, outcomes: Seq<DialOutcome>)
    requires
        !(course is Dial),
    ensures
        run(course, outcomes) == course,
{
}

proof fn lemma_run_connects(state: DialState, outcomes: Seq<DialOutcome>, k: int)
    requires
        0 <= state.next,
        0 <= k < outcomes.len(),
        state.next + k < state.candidates.len(),
        forall|j: int| 0 <= j < k ==> !(#[trigger] outcomes[j] is Connected),
        outcomes[k] is Connected,
    ensures
        run(Course::Dial(state), outcomes) == (Course::Connected {
            addr: state.candidates[state.next + k],
            tuning: standard_tuning(),
        }),
    decreases k,
{
    let rest = outcomes.drop_first();
    if k == 0 {
        law_finished_attempt_stays(advance(state, outcomes[0]), rest);
    } else {
        assert(!(outcomes[0] is Connected));
        let after = advance(state, outcomes[0]);
        assert(after is Dial);
        assert forall|j: int| 0 <= j < k - 1 implies !(#[trigger] rest[j] is Connected) by {
            assert(rest[j] == outcomes[j + 1]);
        }
        assert(rest[k - 1] == outcomes[k]);
        lemma_run_connects(after->Dial_0, rest, k - 1);
    }
}

proof fn lemma_run_fails(state: DialState, outcomes: Seq<DialOutcome>)
    requires
        0 <= state.next < state.candidates.len(),
        outcomes.len() >= state.candidates.len() - state.next,
        forall|j: int|
            0 <= j < state.candidates.len() - state.next ==> !(#[trigger] outcomes[j] is Connected),
    ensures
        run(Course::Dial(state), outcomes) == (Course::Failed {
            error: ConnectError::ConnectFailure {
                cause: attempt_error(outcomes[state.candidates.len() - state.next - 1]),
            },
        }),
    decreases state.candidates.len() - state.next,
{
    let rest = outcomes.drop_first();
    assert(!(outcomes[0] is Connected));
    let after = advance(state, outcomes[0]);
    if state.next + 1 < state.candidates.len() {
        assert forall|j: int|
            0 <= j < state.candidates.len() - state.next - 1 implies !(#[trigger] rest[j] is Connected) by {
            assert(rest[j] == outcomes[j + 1]);
        }
        assert(rest[state.candidates.len() - state.next - 2] == outcomes[state.candidates.len()
            - state.next - 1]);
        lemma_run_fails(after->Dial_0, rest);
    } else {
        law_finished_attempt_stays(after, rest);
    }
}

/// Candidates are dialed in their order and the first connection wins: where
/// the dials before position `k` fail or time out and the one at `k`
/// connects, the attempt ends connected to the candidate at `k`.
pub proof fn law_first_connection_wins(
    candidates: Seq<NetworkAddress>,
    timeout_secs: u64,
    outcomes: Seq<DialOutcome>,
    k: int,
)
    requires
        0 <= k < candidates.len(),
        k < outcomes.len(),
        forall|j: int| 0 <= j < k ==> !(#[trigger] outcomes[j] is Connected),
        outcomes[k] is Connected,
    ensures
        run(begin(candidates, timeout_secs), outcomes) == (Course::Connected {
            addr: candidates[k],
            tuning: standard_tuning(),
        }),
{
    lemma_run_connects(
        DialState { candidates, next: 0, timeout_secs, last_error: None },
        outcomes,
        k,
    );
}

/// Where every candidate's dial fails or times out, the attempt fails with
/// the failure of the last candidate's dial, not with an earlier one.
pub proof fn law_last_failure_is_reported(
    candidates: Seq<NetworkAddress>,
    timeout_secs: u64,
    outcomes: Seq<DialOutcome>,
)
    requires
        candidates.len() > 0,
        outcomes.len() >= candidates.len(),
        forall|j: int| 0 <= j < candidates.len() ==> !(#[trigger] outcomes[j] is Connected),
    ensures
        run(begin(candidates, timeout_secs), outcomes) == (Course::Failed {
            error: ConnectError::ConnectFailure {
                cause: attempt_error(outcomes[candidates.len() - 1]),
            },
        }),
        attempt_error(outcomes[candidates.len() - 1]) is Some,
{
    lemma_run_fails(DialState { candidates, next: 0, timeout_secs, last_error: None }, outcomes);
}

/// Every dial of an attempt gets the whole timeout, and the candidates never change.
pub proof fn law_dialing_keeps_candidates_and_timeout(state: DialState, outcome: DialOutcome)
    ensures
        advance(state, outcome) matches Course::Dial(next) ==> next.candidates == state.candidates
            && next.timeout_secs == state.timeout_secs && next.next == state.next + 1
            && next.last_error == attempt_error(outcome),
{
}

/// After a miss whose resolution gave addresses at the second `stored_at`, a
/// second attempt to the same host and port at `now` is a hit on those
/// addresses while the entry lives, and counts as a hit only; from the
/// entry's expiry on it is a miss again. The second attempt may run without
/// the guard where the first ran with it, not the other way round.
pub proof fn law_second_attempt_is_served(
    entries: Map<Seq<char>, Entry>,
    default_ttl: u64,
    host: Seq<char>,
    port: u16,
    first_timeout_secs: u64,
    ip_guard_enabled: bool,
    outcome: LookupOutcome,
    stored_at: u64,
    second_timeout_secs: u64,
    second_guard: bool,
    now: u64,
    counters: MetricsRegistry,
)
    requires
        resolved(outcome, ip_guard_enabled) is Ok,
        second_guard ==> ip_guard_enabled,
    ensures
        ({
            let attempt = pending(host, port, first_timeout_secs, ip_guard_enabled);
            let after = cache_after_lookup(entries, default_ttl, attempt, outcome, stored_at);
            let second = cache_start(after, host, port, second_timeout_secs, second_guard, now);
            let addrs = resolved(outcome, ip_guard_enabled)->Ok_0;
            &&& now < expiry(stored_at, default_ttl) ==> second == CacheCourse::Hit(
                begin(addrs, second_timeout_secs),
            )
            &&& now >= expiry(stored_at, default_ttl) ==> second == CacheCourse::Miss(
                pending(host, port, second_timeout_secs, second_guard),
            )
        }),
        counted(counters, true).dns_cache_misses_total == counters.dns_cache_misses_total,
        counted(counters, true).dns_cache_hits_total == bumped(counters.dns_cache_hits_total),
{
    if ip_guard_enabled {
        let answer = outcome->Resolved_0@;
        law_screening_keeps_the_allowed(answer);
    }
}

/// With the guard on, the candidates of an attempt are allowed addresses
/// only, whether they come from a resolution or from the cache.
pub proof fn law_guarded_candidates_are_allowed(
    entries: Map<Seq<char>, Entry>,
    host: Seq<char>,
    port: u16,
    timeout_secs: u64,
    outcome: LookupOutcome,
    now: u64,
)
    requires
        sound(entries),
    ensures
        after_lookup(pending(host, port, timeout_secs, true), outcome) matches Course::Dial(state)
            ==> all_allowed(state.candidates),
        cache_start(entries, host, port, timeout_secs, true, now) matches CacheCourse::Hit(
            Course::Dial(state),
        ) ==> all_allowed(state.candidates),
{
    if outcome is Resolved {
        law_screening_keeps_the_allowed(outcome->Resolved_0@);
    }
}

/// With the guard on, an attempt whose answer mixes allowed and disallowed
/// addresses dials the allowed ones only, in their resolved order, and ends
/// connected as soon as one of them connects: the disallowed addresses
/// neither are dialed nor stand in the way.
pub proof fn law_guarded_attempt_connects_to_an_allowed_address(
    host: Seq<char>,
    port: u16,
    timeout_secs: u64,
    outcome: LookupOutcome,
    outcomes: Seq<DialOutcome>,
    k: int,
)
    requires
        outcome is Resolved,
        0 <= k < safe_addresses(outcome->Resolved_0@).len(),
        k < outcomes.len(),
        forall|j: int| 0 <= j < k ==> !(#[trigger] outcomes[j] is Connected),
        outcomes[k] is Connected,
    ensures
        run(after_lookup(pending(host, port, timeout_secs, true), outcome), outcomes) == (
        Course::Connected {
            addr: safe_addresses(outcome->Resolved_0@)[k],
            tuning: standard_tuning(),
        }),
        is_allowed(safe_addresses(outcome->Resolved_0@)[k].ip),
        outcome->Resolved_0@.contains(safe_addresses(outcome->Resolved_0@)[k]),
{
    let answer = outcome->Resolved_0@;
    let kept = safe_addresses(answer);
    law_screening_keeps_the_allowed(answer);
    assert(kept.contains(kept[k]));
    law_first_connection_wins(kept, timeout_secs, outcomes, k);
}

} // verus!

use proxy_connector::addr::{IpAddress, NetworkAddress};
use proxy_connector::connector::{
    configure_tcp_socket, connect, connect_to_addrs, connect_with_cache, CacheStart, DialOutcome,
    Dialing, Progress, Resolving, KEEPALIVE_IDLE_SECS, KEEPALIVE_INTERVAL_SECS,
};
use proxy_connector::dns_cache::DnsCache;
use proxy_connector::error::{AttemptError, ConnectError};
use proxy_connector::ip_guard::RangeName;
use proxy_connector::metrics::MetricsRegistry;
use proxy_connector::resolver::LookupOutcome;

fn addr(a: u8, b: u8, c: u8, d: u8, port: u16) -> NetworkAddress {
    NetworkAddress::new(IpAddress::V4(u32::from_be_bytes([a, b, c, d])), port)
}

fn dialing(p: Progress) -> Dialing {
    match p {
        Progress::Dial(state) => state,
        other => panic!("not dialing: {:?}", other),
    }
}

fn started(host: &str, port: u16, timeout: u64, guard: bool) -> Resolving {
    match connect(host, port, timeout, guard) {
        Ok(attempt) => attempt,
        Err(e) => panic!("refused: {:?}", e),
    }
}

#[test]
fn port_zero_is_refused_at_once() {
    assert_eq!(connect("example.com", 0, 5, true), Err(ConnectError::InvalidPort));
    assert_eq!(connect("example.com", 0, 5, false), Err(ConnectError::InvalidPort));
    let cache = DnsCache::new(60);
    let mut m = MetricsRegistry::new();
    let r = connect_with_cache("example.com", 0, 5, true, &cache, Some(&mut m), 0);
    assert_eq!(r, Err(ConnectError::InvalidPort));
    assert_eq!((m.dns_cache_hits_total, m.dns_cache_misses_total), (0, 0));
}

#[test]
fn attempt_asks_for_its_resolution() {
    let attempt = started("example.com", 443, 120, true);
    let request = attempt.request();
    assert_eq!(request.target, "example.com:443");
    assert_eq!(request.timeout_secs, 30);
    let attempt = started("fe80::1", 22, 7, true);
    assert_eq!(attempt.request().target, "[fe80::1]:22");
    assert_eq!(attempt.request().timeout_secs, 7);
}

#[test]
fn dial_timeout_is_not_clamped() {
    let attempt = started("example.com", 443, 120, true);
    let (progress, _) = attempt.on_lookup(LookupOutcome::Resolved(vec![addr(8, 8, 8, 8, 443)]));
    let state = dialing(progress);
    assert_eq!(state.timeout_secs(), 120);
    assert_eq!(state.current(), addr(8, 8, 8, 8, 443));
    assert_eq!(state.last_error(), None);
}

#[test]
fn resolution_errors_end_the_attempt() {
    let (p, _) = started("a", 1, 5, true).on_lookup(LookupOutcome::TimedOut);
    assert_eq!(p, Progress::Failed { error: ConnectError::ResolutionTimeout });
    let (p, _) = started("a", 1, 5, true).on_lookup(LookupOutcome::Failed { code: 11 });
    assert_eq!(p, Progress::Failed { error: ConnectError::ResolutionFailure { code: 11 } });
    let (p, _) = started("a", 1, 5, true).on_lookup(LookupOutcome::Resolved(Vec::new()));
    assert_eq!(p, Progress::Failed { error: ConnectError::NoAddressesFound });
    let (p, blocked) =
        started("a", 1, 5, true).on_lookup(LookupOutcome::Resolved(vec![addr(127, 0, 0, 1, 1)]));
    assert_eq!(p, Progress::Failed { error: ConnectError::AllAddressesBlocked });
    assert_eq!(blocked.len(), 1);
    assert_eq!(blocked[0].range, RangeName::Loopback);
}

#[test]
fn only_allowed_addresses_are_dialed() {
    let (p, blocked) = started("mixed.example", 80, 5, true).on_lookup(LookupOutcome::Resolved(
        vec![addr(127, 0, 0, 1, 80), addr(93, 184, 216, 34, 80)],
    ));
    let state = dialing(p);
    assert_eq!(state.current(), addr(93, 184, 216, 34, 80));
    assert_eq!(blocked.len(), 1);
    let done = state.on_outcome(DialOutcome::Connected);
    assert_eq!(
        done,
        Progress::Connected { addr: addr(93, 184, 216, 34, 80), tuning: configure_tcp_socket() }
    );
}

#[test]
fn guard_off_dials_loopback() {
    let (p, blocked) = started("localhost", 8080, 5, false)
        .on_lookup(LookupOutcome::Resolved(vec![addr(127, 0, 0, 1, 8080)]));
    assert!(blocked.is_empty());
    let state = dialing(p);
    assert_eq!(state.current(), addr(127, 0, 0, 1, 8080));
    assert_eq!(
        state.on_outcome(DialOutcome::Connected),
        Progress::Connected { addr: addr(127, 0, 0, 1, 8080), tuning: configure_tcp_socket() }
    );
}

#[test]
fn third_candidate_connects_after_two_failures() {
    let list = vec![addr(1, 1, 1, 1, 80), addr(2, 2, 2, 2, 80), addr(3, 3, 3, 3, 80)];
    let first = dialing(connect_to_addrs(list, 9));
    assert_eq!(first.current(), addr(1, 1, 1, 1, 80));
    let second = dialing(first.on_outcome(DialOutcome::Failed { code: 111 }));
    assert_eq!(second.current(), addr(2, 2, 2, 2, 80));
    assert_eq!(second.last_error(), Some(AttemptError::Io { code: 111 }));
    assert_eq!(second.timeout_secs(), 9);
    let third = dialing(second.on_outcome(DialOutcome::TimedOut));
    assert_eq!(third.current(), addr(3, 3, 3, 3, 80));
    assert_eq!(third.last_error(), Some(AttemptError::TimedOut));
    assert_eq!(third.timeout_secs(), 9);
    assert_eq!(
        third.on_outcome(DialOutcome::Connected),
        Progress::Connected { addr: addr(3, 3, 3, 3, 80), tuning: configure_tcp_socket() }
    );
}

#[test]
fn first_connection_leaves_the_rest_untried() {
    let list = vec![addr(1, 1, 1, 1, 80), addr(2, 2, 2, 2, 80)];
    let first = dialing(connect_to_addrs(list, 9));
    assert_eq!(
        first.on_outcome(DialOutcome::Connected),
        Progress::Connected { addr: addr(1, 1, 1, 1, 80), tuning: configure_tcp_socket() }
    );
}

#[test]
fn total_failure_reports_the_last_error() {
    let list = vec![addr(1, 1, 1, 1, 80), addr(2, 2, 2, 2, 80), addr(3, 3, 3, 3, 80)];
    let first = dialing(connect_to_addrs(list, 9));
    let second = dialing(first.on_outcome(DialOutcome::TimedOut));
    let third = dialing(second.on_outcome(DialOutcome::Failed { code: 111 }));
    assert_eq!(
        third.on_outcome(DialOutcome::Failed { code: 113 }),
        Progress::Failed {
            error: ConnectError::ConnectFailure { cause: Some(AttemptError::Io { code: 113 }) }
        }
    );
    let only = dialing(connect_to_addrs(vec![addr(1, 1, 1, 1, 80)], 9));
    assert_eq!(
        only.on_outcome(DialOutcome::TimedOut),
        Progress::Failed {
            error: ConnectError::ConnectFailure { cause: Some(AttemptError::TimedOut) }
        }
    );
}

#[test]
fn no_candidate_fails_without_a_cause() {
    assert_eq!(
        connect_to_addrs(Vec::new(), 9),
        Progress::Failed { error: ConnectError::ConnectFailure { cause: None } }
    );
}

#[test]
fn socket_settings_are_fixed() {
    let t = configure_tcp_socket();
    assert_eq!(t.keepalive_idle_secs, 60);
    assert_eq!(t.keepalive_interval_secs, 15);
    assert!(t.nodelay);
    assert_eq!((KEEPALIVE_IDLE_SECS, KEEPALIVE_INTERVAL_SECS), (60, 15));
}

#[test]
fn miss_then_hit_then_miss_after_expiry() {
    let mut cache = DnsCache::new(60);
    let mut m = MetricsRegistry::new();
    let attempt = match connect_with_cache("example.com", 443, 5, true, &cache, Some(&mut m), 100)
    {
        Ok(CacheStart::Miss(attempt)) => attempt,
        other => panic!("expected a miss: {:?}", other),
    };
    assert_eq!((m.dns_cache_hits_total, m.dns_cache_misses_total), (0, 1));
    assert_eq!(attempt.request().target, "example.com:443");
    let (p, blocked) = attempt.on_lookup_with_cache(
        LookupOutcome::Resolved(vec![addr(10, 0, 0, 1, 443), addr(93, 184, 216, 34, 443)]),
        &mut cache,
        101,
    );
    assert_eq!(blocked.len(), 1);
    assert_eq!(dialing(p).current(), addr(93, 184, 216, 34, 443));
    assert_eq!(cache.get("example.com:443", true, 101), Some(vec![addr(93, 184, 216, 34, 443)]));

    match connect_with_cache("example.com", 443, 8, true, &cache, Some(&mut m), 160) {
        Ok(CacheStart::Hit(p)) => {
            let state = dialing(p);
            assert_eq!(state.current(), addr(93, 184, 216, 34, 443));
            assert_eq!(state.timeout_secs(), 8);
        }
        other => panic!("expected a hit: {:?}", other),
    }
    assert_eq!((m.dns_cache_hits_total, m.dns_cache_misses_total), (1, 1));

    match connect_with_cache("example.com", 443, 8, true, &cache, Some(&mut m), 161) {
        Ok(CacheStart::Miss(_)) => {}
        other => panic!("expected a miss: {:?}", other),
    }
    assert_eq!((m.dns_cache_hits_total, m.dns_cache_misses_total), (1, 2));
}

#[test]
fn another_port_is_another_entry() {
    let mut cache = DnsCache::new(60);
    let attempt = match connect_with_cache("example.com", 80, 5, true, &cache, None, 0) {
        Ok(CacheStart::Miss(attempt)) => attempt,
        other => panic!("expected a miss: {:?}", other),
    };
    let _ = attempt.on_lookup_with_cache(
        LookupOutcome::Resolved(vec![addr(93, 184, 216, 34, 80)]),
        &mut cache,
        0,
    );
    assert!(matches!(
        connect_with_cache("example.com", 80, 5, true, &cache, None, 1),
        Ok(CacheStart::Hit(_))
    ));
    assert!(matches!(
        connect_with_cache("example.com", 8080, 5, true, &cache, None, 1),
        Ok(CacheStart::Miss(_))
    ));
}

#[test]
fn failed_resolution_stores_nothing() {
    let mut cache = DnsCache::new(60);
    let attempt = match connect_with_cache("internal", 80, 5, true, &cache, None, 0) {
        Ok(CacheStart::Miss(attempt)) => attempt,
        other => panic!("expected a miss: {:?}", other),
    };
    let (p, _) = attempt.on_lookup_with_cache(
        LookupOutcome::Resolved(vec![addr(10, 0, 0, 1, 80)]),
        &mut cache,
        0,
    );
    assert_eq!(p, Progress::Failed { error: ConnectError::AllAddressesBlocked });
    assert_eq!(cache.get("internal:80", false, 1), None);
}

#[test]
fn unguarded_entry_is_a_miss_under_the_guard() {
    let mut cache = DnsCache::new(60);
    let attempt = match connect_with_cache("internal", 80, 5, false, &cache, None, 0) {
        Ok(CacheStart::Miss(attempt)) => attempt,
        other => panic!("expected a miss: {:?}", other),
    };
    let (p, _) = attempt.on_lookup_with_cache(
        LookupOutcome::Resolved(vec![addr(10, 0, 0, 1, 80)]),
        &mut cache,
        0,
    );
    assert_eq!(dialing(p).current(), addr(10, 0, 0, 1, 80));
    assert_eq!(cache.get("internal:80", false, 1), Some(vec![addr(10, 0, 0, 1, 80)]));
    assert!(matches!(
        connect_with_cache("internal", 80, 5, false, &cache, None, 1),
        Ok(CacheStart::Hit(_))
    ));
    assert!(matches!(
        connect_with_cache("internal", 80, 5, true, &cache, None, 1),
        Ok(CacheStart::Miss(_))
    ));
}

#[test]
fn outcomes_taken_together_give_the_same_end() {
    let list = vec![addr(1, 1, 1, 1, 80), addr(2, 2, 2, 2, 80), addr(3, 3, 3, 3, 80)];
    let end = connect_to_addrs(list.clone(), 9).on_outcomes(&vec![
        DialOutcome::Failed { code: 111 },
        DialOutcome::TimedOut,
        DialOutcome::Connected,
    ]);
    assert_eq!(
        end,
        Progress::Connected { addr: addr(3, 3, 3, 3, 80), tuning: configure_tcp_socket() }
    );
    let end = connect_to_addrs(list.clone(), 9).on_outcomes(&vec![
        DialOutcome::Failed { code: 111 },
        DialOutcome::Failed { code: 113 },
        DialOutcome::TimedOut,
    ]);
    assert_eq!(
        end,
        Progress::Failed {
            error: ConnectError::ConnectFailure { cause: Some(AttemptError::TimedOut) }
        }
    );
    let end = connect_to_addrs(list.clone(), 9).on_outcomes(&vec![
        DialOutcome::Connected,
        DialOutcome::Failed { code: 1 },
        DialOutcome::Failed { code: 2 },
        DialOutcome::Failed { code: 3 },
    ]);
    assert_eq!(
        end,
        Progress::Connected { addr: addr(1, 1, 1, 1, 80), tuning: configure_tcp_socket() }
    );
    let waiting = connect_to_addrs(list, 9).on_outcomes(&vec![DialOutcome::TimedOut]);
    let state = dialing(waiting);
    assert_eq!(state.current(), addr(2, 2, 2, 2, 80));
    let untouched = connect_to_addrs(vec![addr(1, 1, 1, 1, 80)], 9).on_outcomes(&Vec::new());
    assert_eq!(dialing(untouched).current(), addr(1, 1, 1, 1, 80));
}

#[test]
fn guarded_entry_serves_an_unguarded_attempt() {
    let mut cache = DnsCache::new(60);
    let attempt = match connect_with_cache("example.com", 80, 5, true, &cache, None, 0) {
        Ok(CacheStart::Miss(attempt)) => attempt,
        other => panic!("expected a miss: {:?}", other),
    };
    let _ = attempt.on_lookup_with_cache(
        LookupOutcome::Resolved(vec![addr(93, 184, 216, 34, 80)]),
        &mut cache,
        0,
    );
    match connect_with_cache("example.com", 80, 5, false, &cache, None, 1) {
        Ok(CacheStart::Hit(p)) => assert_eq!(dialing(p).current(), addr(93, 184, 216, 34, 80)),
        other => panic!("expected a hit: {:?}", other),
    }
}

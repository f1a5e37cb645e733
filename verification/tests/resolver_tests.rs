use proxy_connector::addr::{IpAddress, NetworkAddress};
use proxy_connector::error::ConnectError;
use proxy_connector::ip_guard::RangeName;
use proxy_connector::resolver::{
    lookup_request, resolve_and_check, screen, BlockedAddress, LookupOutcome,
};

fn addr(a: u8, b: u8, c: u8, d: u8, port: u16) -> NetworkAddress {
    NetworkAddress::new(IpAddress::V4(u32::from_be_bytes([a, b, c, d])), port)
}

#[test]
fn request_names_target_and_clamped_timeout() {
    let r = lookup_request("example.com", 443, 120);
    assert_eq!(r.target, "example.com:443");
    assert_eq!(r.timeout_secs, 30);
    let r = lookup_request("::1", 0, 3);
    assert_eq!(r.target, "[::1]:0");
    assert_eq!(r.timeout_secs, 3);
}

#[test]
fn timeout_gives_resolution_timeout() {
    let r = resolve_and_check(LookupOutcome::TimedOut, true);
    assert_eq!(r.result, Err(ConnectError::ResolutionTimeout));
    assert!(r.blocked.is_empty());
}

#[test]
fn failure_keeps_its_cause() {
    let r = resolve_and_check(LookupOutcome::Failed { code: -2 }, true);
    assert_eq!(r.result, Err(ConnectError::ResolutionFailure { code: -2 }));
    assert!(r.blocked.is_empty());
}

#[test]
fn empty_answer_gives_no_addresses_found() {
    let r = resolve_and_check(LookupOutcome::Resolved(Vec::new()), true);
    assert_eq!(r.result, Err(ConnectError::NoAddressesFound));
    let r = resolve_and_check(LookupOutcome::Resolved(Vec::new()), false);
    assert_eq!(r.result, Err(ConnectError::NoAddressesFound));
}

#[test]
fn blocked_only_answer_fails_generically() {
    let one = resolve_and_check(LookupOutcome::Resolved(vec![addr(127, 0, 0, 1, 80)]), true);
    let many = resolve_and_check(
        LookupOutcome::Resolved(vec![
            addr(10, 0, 0, 1, 80),
            addr(192, 168, 1, 1, 80),
            addr(169, 254, 169, 254, 80),
        ]),
        true,
    );
    assert_eq!(one.result, Err(ConnectError::AllAddressesBlocked));
    assert_eq!(many.result, Err(ConnectError::AllAddressesBlocked));
    assert_eq!(one.result, many.result);
    assert_eq!(
        one.blocked,
        vec![BlockedAddress { addr: addr(127, 0, 0, 1, 80), range: RangeName::Loopback }]
    );
    assert_eq!(many.blocked.len(), 3);
    assert_eq!(many.blocked[2].range, RangeName::LinkLocal);
}

#[test]
fn mixed_answer_keeps_the_allowed_in_order() {
    let r = resolve_and_check(
        LookupOutcome::Resolved(vec![
            addr(10, 0, 0, 1, 443),
            addr(8, 8, 8, 8, 443),
            addr(127, 0, 0, 1, 443),
            addr(1, 1, 1, 1, 443),
        ]),
        true,
    );
    assert_eq!(r.result, Ok(vec![addr(8, 8, 8, 8, 443), addr(1, 1, 1, 1, 443)]));
    assert_eq!(
        r.blocked,
        vec![
            BlockedAddress { addr: addr(10, 0, 0, 1, 443), range: RangeName::PrivateUse },
            BlockedAddress { addr: addr(127, 0, 0, 1, 443), range: RangeName::Loopback },
        ]
    );
}

#[test]
fn guard_off_keeps_everything() {
    let all = vec![addr(127, 0, 0, 1, 80), addr(8, 8, 8, 8, 80), addr(10, 1, 2, 3, 80)];
    let r = resolve_and_check(LookupOutcome::Resolved(all.clone()), false);
    assert_eq!(r.result, Ok(all));
    assert!(r.blocked.is_empty());
}

#[test]
fn same_answer_screens_to_same_addresses() {
    let answer = vec![addr(8, 8, 4, 4, 53), addr(192, 168, 0, 1, 53), addr(8, 8, 8, 8, 53)];
    let first = resolve_and_check(LookupOutcome::Resolved(answer.clone()), true);
    let second = resolve_and_check(LookupOutcome::Resolved(answer), true);
    assert_eq!(first, second);
    let kept = first.result.unwrap();
    let again = resolve_and_check(LookupOutcome::Resolved(kept.clone()), true);
    assert_eq!(again.result, Ok(kept));
    assert!(again.blocked.is_empty());
}

#[test]
fn port_zero_is_not_the_resolvers_business() {
    let r = resolve_and_check(LookupOutcome::Resolved(vec![addr(8, 8, 8, 8, 0)]), true);
    assert_eq!(r.result, Ok(vec![addr(8, 8, 8, 8, 0)]));
}

#[test]
fn screen_splits_in_order() {
    let (safe, blocked) = screen(&vec![addr(224, 0, 0, 1, 1), addr(9, 9, 9, 9, 1)]);
    assert_eq!(safe, vec![addr(9, 9, 9, 9, 1)]);
    assert_eq!(
        blocked,
        vec![BlockedAddress { addr: addr(224, 0, 0, 1, 1), range: RangeName::LinkLocal }]
    );
    let (safe, blocked) = screen(&Vec::new());
    assert!(safe.is_empty() && blocked.is_empty());
}

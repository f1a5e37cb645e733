//! The strings derived from a host and a port: the resolver's target and the cache key.

use vstd::prelude::*;
use vstd::string::*;

verus! {

/// The longest time, in seconds, that a name resolution may take.
pub const MAX_RESOLUTION_TIMEOUT_SECS: u64 = 30;

/// The decimal digit for `d`, which is below ten.
pub open spec fn digit_char(d: nat) -> char {
    if d == 0 {
        '0'
    } else if d == 1 {
        '1'
    } else if d == 2 {
        '2'
    } else if d == 3 {
        '3'
    } else if d == 4 {
        '4'
    } else if d == 5 {
        '5'
    } else if d == 6 {
        '6'
    } else if d == 7 {
        '7'
    } else if d == 8 {
        '8'
    } else {
        '9'
    }
}

/// `n` written in decimal, without leading zeros.
pub open spec fn decimal(n: nat) -> Seq<char>
    decreases n,
{
    if n < 10 {
        seq![digit_char(n)]
    } else {
        decimal(n / 10).push(digit_char(n % 10))
    }
}

/// The cache key of a host and a port: the two joined by a colon, nothing normalized.
pub open spec fn cache_key_of(host: Seq<char>, port: u16) -> Seq<char> {
    host + seq![':'] + decimal(port as nat)
}

/// What is handed to name resolution: `host:port`, with the host in square
/// brackets where it holds a colon itself (a literal IPv6 address).
pub open spec fn lookup_target_of(host: Seq<char>, port: u16) -> Seq<char> {
    if host.contains(':') {
        seq!['['] + host + seq![']', ':'] + decimal(port as nat)
    } else {
        cache_key_of(host, port)
    }
}

/// The time allowed for a resolution: the caller's, but never above the maximum.
pub open spec fn clamped_timeout(timeout_secs: u64) -> u64 {
    if timeout_secs < MAX_RESOLUTION_TIMEOUT_SECS {
        timeout_secs
    } else {
        MAX_RESOLUTION_TIMEOUT_SECS
    }
}

fn digit_str(d: u16) -> (r: &'static str)
    requires
        d < 10,
    ensures
        r@ == seq![digit_char(d as nat)],
{
    proof {
        reveal_strlit("0");
        reveal_strlit("1");
        reveal_strlit("2");
        reveal_strlit("3");
        reveal_strlit("4");
        reveal_strlit("5");
        reveal_strlit("6");
        reveal_strlit("7");
        reveal_strlit("8");
        reveal_strlit("9");
    }
    let r = if d == 0 {
        "0"
    } else if d == 1 {
        "1"
    } else if d == 2 {
        "2"
    } else if d == 3 {
        "3"
    } else if d == 4 {
        "4"
    } else if d == 5 {
        "5"
    } else if d == 6 {
        "6"
    } else if d == 7 {
        "7"
    } else if d == 8 {
        "8"
    } else {
        "9"
    };
    assert(r@ =~= seq![digit_char(d as nat)]);
    r
}

fn push_decimal(s: &mut String, n: u16)
    ensures
        final(s)@ == old(s)@ + decimal(n as nat),
    decreases n,
{
    if n >= 10 {
        push_decimal(s, n / 10);
    }
    s.append(digit_str(n % 10));
    assert(final(s)@ =~= old(s)@ + decimal(n as nat));
}

/// Whether the host holds a colon.
pub fn has_colon(host: &str) -> (r: bool)
    ensures
        r == host@.contains(':'),
{
    let n = host.unicode_len();
    let mut i: usize = 0;
    while i < n
        invariant
            n == host@.len(),
            i <= n,
            forall|j: int| 0 <= j < i ==> host@[j] != ':',
        decreases n - i,
    {
        if host.get_char(i) == ':' {
            return true;
        }
        i += 1;
    }
    false
}

/// Builds the cache key of a host and a port.
pub fn cache_key(host: &str, port: u16) -> (r: String)
    ensures
        r@ == cache_key_of(host@, port),
{
    proof {
        reveal_strlit(":");
    }
    let mut s = String::new();
    s.append(host);
    s.append(":");
    push_decimal(&mut s, port);
    assert(s@ =~= cache_key_of(host@, port));
    s
}

/// Builds the string that name resolution is asked for.
pub fn lookup_target(host: &str, port: u16) -> (r: String)
    ensures
        r@ == lookup_target_of(host@, port),
{
    if has_colon(host) {
        proof {
            reveal_strlit("[");
            reveal_strlit("]:");
        }
        let mut s = String::new();
        s.append("[");
        s.append(host);
        s.append("]:");
        push_decimal(&mut s, port);
        assert(s@ =~= lookup_target_of(host@, port));
        s
    } else {
        cache_key(host, port)
    }
}

/// Clamps a caller's timeout to the resolution maximum.
pub fn clamp_timeout(timeout_secs: u64) -> (r: u64)
    ensures
        r == clamped_timeout(timeout_secs),
{
    if timeout_secs < MAX_RESOLUTION_TIMEOUT_SECS {
        timeout_secs
    } else {
        MAX_RESOLUTION_TIMEOUT_SECS
    }
}

proof fn lemma_decimal_shape(n: nat)
    ensures
        decimal(n).len() >= 1,
        forall|i: int| 0 <= i < decimal(n).len() ==> #[trigger] decimal(n)[i] != ':',
    decreases n,
{
    if n >= 10 {
        lemma_decimal_shape(n / 10);
    }
}

/// Two numbers with the same decimal writing are the same number.
pub proof fn law_decimal_is_injective(a: nat, b: nat)
    requires
        decimal(a) == decimal(b),
    ensures
        a == b,
    decreases a,
{
    lemma_decimal_shape(a / 10);
    lemma_decimal_shape(b / 10);
    if a < 10 && b < 10 {
        assert(decimal(a)[0] == digit_char(a));
        assert(decimal(b)[0] == digit_char(b));
    } else if a >= 10 && b >= 10 {
        assert(decimal(a).drop_last() =~= decimal(a / 10));
        assert(decimal(b).drop_last() =~= decimal(b / 10));
        assert(decimal(a).last() == digit_char(a % 10));
        assert(decimal(b).last() == digit_char(b % 10));
        law_decimal_is_injective(a / 10, b / 10);
    } else {
        assert(decimal(a).len() != decimal(b).len());
    }
}

/// Each host and port has a cache key of its own: two attempts share a key
/// only where they name the same host, letter for letter, and the same port.
pub proof fn law_cache_keys_are_distinct(
    first_host: Seq<char>,
    first_port: u16,
    second_host: Seq<char>,
    second_port: u16,
)
    requires
        cache_key_of(first_host, first_port) == cache_key_of(second_host, second_port),
    ensures
        first_host == second_host,
        first_port == second_port,
{
    let key = cache_key_of(first_host, first_port);
    let d1 = decimal(first_port as nat);
    let d2 = decimal(second_port as nat);
    let n1 = first_host.len() as int;
    let n2 = second_host.len() as int;
    lemma_decimal_shape(first_port as nat);
    lemma_decimal_shape(second_port as nat);
    assert(key.len() == n1 + 1 + d1.len());
    assert(key.len() == n2 + 1 + d2.len());
    assert(key[n1] == ':');
    assert(cache_key_of(second_host, second_port)[n2] == ':');
    if n1 < n2 {
        assert(key[n2] == d1[n2 - n1 - 1]);
    } else if n2 < n1 {
        assert(cache_key_of(second_host, second_port)[n1] == d2[n1 - n2 - 1]);
    }
    assert(n1 == n2);
    assert(first_host =~= key.subrange(0, n1));
    assert(second_host =~= key.subrange(0, n1));
    assert(d1 =~= key.subrange(n1 + 1, key.len() as int));
    assert(d2 =~= key.subrange(n1 + 1, key.len() as int));
    law_decimal_is_injective(first_port as nat, second_port as nat);
}

} // verus!

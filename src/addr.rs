use vstd::prelude::*;
use vstd::string::*;

use rand::seq::SliceRandom;

verus! {

broadcast use vstd::seq_lib::to_multiset_contains;

/// Host number used for the router when its address carries no readable one.
pub const DEFAULT_ROUTER_HOST: u8 = 222;

pub open spec fn digit_char(d: nat) -> char {
    if d == 0 {
        '0'
    } else if d == 1 {
        '1'
    } else if d == 2 {
        '2'
    } else if d == 3 {
        '3'
    } else if d == 4 {
        '4'
    } else if d == 5 {
        '5'
    } else if d == 6 {
        '6'
    } else if d == 7 {
        '7'
    } else if d == 8 {
        '8'
    } else {
        '9'
    }
}

/// The decimal digits of `n`, without leading zeros.
pub open spec fn decimal(n: nat) -> Seq<char>
    decreases n,
{
    if n < 10 {
        seq![digit_char(n)]
    } else {
        decimal(n / 10).push(digit_char(n % 10))
    }
}

/// The dotted address of host `host` in the subnet whose first three octets are `base`.
pub open spec fn host_text(base: Seq<char>, host: u8) -> Seq<char> {
    base + seq!['.'] + decimal(host as nat)
}

fn digit_str(d: u8) -> (r: &'static str)
    requires
        d < 10,
    ensures
        r@ == seq![digit_char(d as nat)],
{
    proof {
        reveal_strlit("0");
        reveal_strlit("1");
        reveal_strlit("2");
        reveal_strlit("3");
        reveal_strlit("4");
        reveal_strlit("5");
        reveal_strlit("6");
        reveal_strlit("7");
        reveal_strlit("8");
        reveal_strlit("9");
    }
    match d {
        0 => "0",
        1 => "1",
        2 => "2",
        3 => "3",
        4 => "4",
        5 => "5",
        6 => "6",
        7 => "7",
        8 => "8",
        _ => "9",
    }
}

/// The address of host `host` in the subnet `base` (`192.168.50` and 7 give `192.168.50.7`).
pub fn host_address(base: &str, host: u8) -> (r: String)
    ensures
        r@ == host_text(base@, host),
{
    proof {
        reveal_strlit(".");
    }
    let mut r = base.to_owned();
    r.append(".");
    let ghost h = host as nat;
    if host >= 100 {
        r.append(digit_str(host / 100));
        r.append(digit_str(host / 10 % 10));
        assert(decimal(h / 10) =~= decimal(h / 100).push(digit_char(h / 10 % 10)));
    } else if host >= 10 {
        r.append(digit_str(host / 10));
    }
    r.append(digit_str(host % 10));
    proof {
        if h >= 100 {
            assert(h / 100 < 10);
            assert(decimal(h) =~= seq![digit_char(h / 100), digit_char(h / 10 % 10), digit_char(h % 10)]);
        } else if h >= 10 {
            assert(h / 10 < 10);
            assert(decimal(h / 10) == seq![digit_char(h / 10)]);
            assert(decimal(h) =~= seq![digit_char(h / 10), digit_char(h % 10)]);
        }
    }
    assert(r@ =~= host_text(base@, host));
    r
}

/// The text after the last `.` of `s` (all of `s` where it has none).
pub open spec fn last_segment(s: Seq<char>) -> Seq<char>
    decreases s.len(),
{
    if s.len() == 0 {
        s
    } else if s.last() == '.' {
        Seq::empty()
    } else {
        last_segment(s.drop_last()).push(s.last())
    }
}

pub open spec fn is_digit(c: char) -> bool {
    '0' <= c && c <= '9'
}

pub open spec fn digit_value(c: char) -> nat {
    (c as u32 - '0' as u32) as nat
}

/// The number that the decimal digits `s` write.
pub open spec fn digits_value(s: Seq<char>) -> nat
    decreases s.len(),
{
    if s.len() == 0 {
        0
    } else {
        digits_value(s.drop_last()) * 10 + digit_value(s.last())
    }
}

/// The digits of an unsigned number in `s`, after an optional `+`.
pub open spec fn unsigned_digits(s: Seq<char>) -> Seq<char> {
    if s.len() > 0 && s[0] == '+' {
        s.drop_first()
    } else {
        s
    }
}

/// `s` read as a `u8` the way `str::parse::<u8>` reads it: an optional `+`,
/// then at least one decimal digit, for a value up to 255.
pub open spec fn parse_u8(s: Seq<char>) -> Option<u8> {
    let d = unsigned_digits(s);
    if d.len() > 0 && (forall|i: int| 0 <= i < d.len() ==> is_digit(#[trigger] d[i]))
        && digits_value(d) <= 255 {
        Some(digits_value(d) as u8)
    } else {
        None
    }
}

/// The router's host number: its last octet, or the default where that is no number.
pub open spec fn router_host_spec(router: Seq<char>) -> u8 {
    match parse_u8(last_segment(router)) {
        Some(v) => v,
        None => DEFAULT_ROUTER_HOST,
    }
}

/// Reads the host number of a router address such as `192.168.50.222`.
pub fn router_host(router: &str) -> (r: u8)
    ensures
        r == router_host_spec(router@),
{
    let cs = crate::text::chars_of(router);
    let n = cs.len();
    // start of the last segment
    let mut k: usize = n;
    assert(cs@.take(n as int) =~= cs@);
    assert(last_segment(cs@) + cs@.subrange(n as int, n as int) =~= last_segment(cs@));
    while k > 0 && cs[k - 1] != '.'
        invariant
            k <= n == cs@.len(),
            last_segment(cs@) == last_segment(cs@.take(k as int)) + cs@.subrange(
                k as int,
                n as int,
            ),
        decreases k,
    {
        assert(cs@.take(k as int).drop_last() =~= cs@.take(k - 1));
        assert(cs@.subrange(k - 1, n as int) =~= seq![cs@[k - 1]] + cs@.subrange(
            k as int,
            n as int,
        ));
        assert(last_segment(cs@.take(k - 1)).push(cs@[k - 1]) + cs@.subrange(k as int, n as int)
            =~= last_segment(cs@.take(k - 1)) + cs@.subrange(k - 1, n as int));
        k -= 1;
    }
    assert(last_segment(cs@.take(k as int)) =~= Seq::<char>::empty()) by {
        if k > 0 {
            assert(cs@.take(k as int).last() == cs@[k - 1]);
        }
    }
    assert(last_segment(cs@) =~= cs@.subrange(k as int, n as int));
    let ghost seg = cs@.subrange(k as int, n as int);
    let mut i: usize = k;
    if i < n && cs[i] == '+' {
        i += 1;
    }
    let ghost d = cs@.subrange(i as int, n as int);
    assert(d =~= unsigned_digits(seg));
    if i == n {
        return DEFAULT_ROUTER_HOST;
    }
    // the value read so far, held at 256 once it is past 255
    let mut acc: u32 = 0;
    let mut j: usize = i;
    while j < n
        invariant
            i <= j <= n == cs@.len(),
            d == cs@.subrange(i as int, n as int),
            d == unsigned_digits(last_segment(router@)),
            d.len() > 0,
            acc <= 256,
            acc == (if digits_value(cs@.subrange(i as int, j as int)) <= 255 {
                digits_value(cs@.subrange(i as int, j as int))
            } else {
                256
            }),
            forall|t: int| i <= t < j ==> is_digit(#[trigger] cs@[t]),
        decreases n - j,
    {
        let c = cs[j];
        if !('0' <= c && c <= '9') {
            assert(!is_digit(d[j - i]));
            return DEFAULT_ROUTER_HOST;
        }
        assert(cs@.subrange(i as int, j + 1).drop_last() =~= cs@.subrange(i as int, j as int));
        let v = (c as u32) - ('0' as u32);
        acc = if acc * 10 + v > 255 {
            256
        } else {
            acc * 10 + v
        };
        j += 1;
    }
    assert(cs@.subrange(i as int, n as int) =~= d);
    if acc > 255 {
        DEFAULT_ROUTER_HOST
    } else {
        acc as u8
    }
}

/// Whether `s` writes one octet of a dotted quad: one to three decimal
/// digits, without a leading zero, for a value up to 255.
pub open spec fn is_octet(s: Seq<char>) -> bool {
    &&& 1 <= s.len() <= 3
    &&& forall|i: int| 0 <= i < s.len() ==> is_digit(#[trigger] s[i])
    &&& (s.len() == 1 || s[0] != '0')
    &&& digits_value(s) <= 255
}

/// Whether the characters of `s` from `from` to the end write one octet.
pub fn octet_from(s: &Vec<char>, from: usize) -> (r: bool)
    requires
        from <= s@.len(),
    ensures
        r == is_octet(s@.subrange(from as int, s@.len() as int)),
{
    let n = s.len();
    let ghost t = s@.subrange(from as int, n as int);
    if n - from < 1 || n - from > 3 {
        return false;
    }
    if n - from > 1 && s[from] == '0' {
        assert(t[0] == '0');
        return false;
    }
    let mut v: u32 = 0;
    let mut j: usize = from;
    while j < n
        invariant
            from <= j <= n == s@.len(),
            n - from <= 3,
            t == s@.subrange(from as int, n as int),
            v == digits_value(s@.subrange(from as int, j as int)),
            v < (if j - from == 0 {
                1u32
            } else if j - from == 1 {
                10u32
            } else if j - from == 2 {
                100u32
            } else {
                1000u32
            }),
            forall|k: int| from <= k < j ==> is_digit(#[trigger] s@[k]),
        decreases n - j,
    {
        let c = s[j];
        if !('0' <= c && c <= '9') {
            assert(!is_digit(t[j - from]));
            return false;
        }
        assert(s@.subrange(from as int, j + 1).drop_last() =~= s@.subrange(from as int, j as int));
        v = v * 10 + ((c as u32) - ('0' as u32));
        j += 1;
    }
    assert(s@.subrange(from as int, j as int) =~= t);
    assert forall|i: int| 0 <= i < t.len() implies is_digit(#[trigger] t[i]) by {
        assert(t[i] == s@[from + i]);
    }
    v <= 255
}

/// Whether `n` may be handed out in a subnet whose router has host number `router_last`:
/// a host number from 2 to 254 that is not the router's.
pub open spec fn is_candidate(router_last: u8, n: u8) -> bool {
    2 <= n <= 254 && n != router_last
}

/// The host numbers that may be handed out, in ascending order.
pub fn candidate_hosts(router_last: u8) -> (r: Vec<u8>)
    ensures
        forall|n: u8| r@.contains(n) <==> is_candidate(router_last, n),
        forall|i: int, j: int| 0 <= i < j < r@.len() ==> r@[i] < r@[j],
{
    let mut r: Vec<u8> = Vec::new();
    let mut n: u8 = 2;
    while n <= 254
        invariant
            2 <= n <= 255,
            forall|m: u8| r@.contains(m) <==> (is_candidate(router_last, m) && m < n),
            forall|i: int| 0 <= i < r@.len() ==> r@[i] < n,
            forall|i: int, j: int| 0 <= i < j < r@.len() ==> r@[i] < r@[j],
        decreases 255 - n,
    {
        let ghost prev = r@;
        if n != router_last {
            r.push(n);
        }
        proof {
            assert forall|m: u8| r@.contains(m) <==> (is_candidate(router_last, m) && m < n + 1) by {
                if n != router_last {
                    if r@.contains(m) {
                        let t = choose|t: int| 0 <= t < r@.len() && r@[t] == m;
                        if t < prev.len() {
                            assert(prev[t] == m);
                        }
                    }
                    if prev.contains(m) {
                        let t = choose|t: int| 0 <= t < prev.len() && prev[t] == m;
                        assert(r@[t] == m);
                    }
                    if m == n {
                        assert(r@[r@.len() - 1] == m);
                    }
                }
            }
        }
        n += 1;
    }
    r
}

/// Relies on rand's `SliceRandom::shuffle` with `thread_rng`: it only swaps
/// elements, so what comes back is a rearrangement of what went in.
#[verifier::external_body]
fn shuffle(v: &mut Vec<u8>)
    ensures
        final(v)@.len() == old(v)@.len(),
        final(v)@.to_multiset() == old(v)@.to_multiset(),
{
    v.shuffle(&mut rand::thread_rng());
}

/// The host numbers to try, in a random order: each candidate once.
pub fn shuffled_candidates(router_last: u8) -> (r: Vec<u8>)
    ensures
        forall|n: u8| r@.contains(n) <==> is_candidate(router_last, n),
        r@.no_duplicates(),
{
    let mut v = candidate_hosts(router_last);
    let ghost sorted = v@;
    assert(sorted.no_duplicates()) by {
        assert forall|i: int, j: int| 0 <= i < sorted.len() && 0 <= j < sorted.len() && i != j
            implies sorted[i] != sorted[j] by {
            if i < j {
                assert(sorted[i] < sorted[j]);
            } else {
                assert(sorted[j] < sorted[i]);
            }
        }
    }
    shuffle(&mut v);
    proof {
        sorted.lemma_multiset_has_no_duplicates();
        v@.lemma_multiset_has_no_duplicates_conv();
        assert forall|n: u8| v@.contains(n) <==> is_candidate(router_last, n) by {
            assert(v@.contains(n) <==> v@.to_multiset().count(n) > 0);
            assert(sorted.contains(n) <==> sorted.to_multiset().count(n) > 0);
        }
    }
    v
}

} // verus!

use vstd::prelude::*;
use vstd::string::*;

use crate::text::{chars_of, contains, contains_chars, has_prefix, matches_at, trim, trim_bounds};

verus! {

/// How a network service is configured right now.
pub struct NetworkInfo {
    pub is_dhcp: bool,
    pub ip: Option<String>,
}

/// The characters of an optional string.
pub open spec fn text_of(o: Option<String>) -> Option<Seq<char>> {
    match o {
        Some(s) => Some(s@),
        None => None,
    }
}

/// The address that one line of `networksetup -getinfo` reports, if any: the
/// trimmed text after `IP address:`, when it is not empty. A carriage return
/// before the line break is white space and goes with the trim.
pub open spec fn line_address(line: Seq<char>) -> Option<Seq<char>> {
    let p = "IP address:"@;
    if has_prefix(line, p) && trim(line.subrange(p.len() as int, line.len() as int)).len() > 0 {
        Some(trim(line.subrange(p.len() as int, line.len() as int)))
    } else {
        None
    }
}

/// The address of `line` where it reports one, else `found`.
pub open spec fn later_address(found: Option<Seq<char>>, line: Seq<char>) -> Option<Seq<char>> {
    match line_address(line) {
        Some(a) => Some(a),
        None => found,
    }
}

/// Reading `s` line by line: the address of the last complete line that reports
/// one, and the line still open at the end of `s`.
pub open spec fn scan_lines(s: Seq<char>) -> (Option<Seq<char>>, Seq<char>)
    decreases s.len(),
{
    if s.len() == 0 {
        (None, Seq::empty())
    } else {
        let (found, open) = scan_lines(s.drop_last());
        if s.last() == '\n' {
            (later_address(found, open), Seq::empty())
        } else {
            (found, open.push(s.last()))
        }
    }
}

/// The address that the last line reporting one gives.
pub open spec fn reported_address(s: Seq<char>) -> Option<Seq<char>> {
    later_address(scan_lines(s).0, scan_lines(s).1)
}

/// Whether the output describes a service in DHCP mode.
pub open spec fn reports_dhcp(s: Seq<char>) -> bool {
    contains(s, "DHCP Configuration"@) || contains(s, "dhcp"@)
}

pub open spec fn bounds_text(s: Seq<char>, b: Option<(usize, usize)>) -> Option<Seq<char>> {
    match b {
        Some((x, y)) => Some(s.subrange(x as int, y as int)),
        None => None,
    }
}

/// Where the address of the line `cs[start..end]` lies, or `found` where the
/// line reports none.
fn later_bounds(cs: &Vec<char>, prefix: &Vec<char>, start: usize, end: usize, found: Option<
    (usize, usize),
>) -> (r: Option<(usize, usize)>)
    requires
        start <= end <= cs@.len(),
        prefix@ == "IP address:"@,
        found matches Some((x, y)) ==> x <= y <= cs@.len(),
    ensures
        r matches Some((x, y)) ==> x <= y <= cs@.len(),
        bounds_text(cs@, r) == later_address(bounds_text(cs@, found), cs@.subrange(
            start as int,
            end as int,
        )),
{
    let line = Ghost(cs@.subrange(start as int, end as int));
    if prefix.len() <= end - start && matches_at(cs, prefix, start) {
        let (a, b) = trim_bounds(cs, start + prefix.len(), end);
        assert(line@.subrange(0, prefix@.len() as int) =~= cs@.subrange(
            start as int,
            start + prefix@.len(),
        ));
        assert(line@.subrange(prefix@.len() as int, line@.len() as int) =~= cs@.subrange(
            start + prefix@.len(),
            end as int,
        ));
        if a < b {
            Some((a, b))
        } else {
            found
        }
    } else {
        proof {
            if prefix@.len() <= line@.len() {
                assert(line@.subrange(0, prefix@.len() as int) =~= cs@.subrange(
                    start as int,
                    start + prefix@.len(),
                ));
            }
        }
        found
    }
}

/// Reads the output of `networksetup -getinfo <service>`: DHCP mode when it
/// mentions `DHCP Configuration` or `dhcp`, and the address of the last
/// `IP address:` line that gives one.
pub fn parse_network_info(output: &str) -> (r: NetworkInfo)
    ensures
        r.is_dhcp == reports_dhcp(output@),
        text_of(r.ip) == reported_address(output@),
{
    let cs = chars_of(output);
    let is_dhcp = contains_chars(&cs, &chars_of("DHCP Configuration")) || contains_chars(
        &cs,
        &chars_of("dhcp"),
    );
    let prefix = chars_of("IP address:");
    let n = cs.len();
    let mut found: Option<(usize, usize)> = None;
    let mut start: usize = 0;
    let mut i: usize = 0;
    while i < n
        invariant
            n == cs@.len(),
            prefix@ == "IP address:"@,
            start <= i <= n,
            found matches Some((x, y)) ==> x <= y <= cs@.len(),
            scan_lines(cs@.take(i as int)) == (
                bounds_text(cs@, found),
                cs@.subrange(start as int, i as int),
            ),
        decreases n - i,
    {
        assert(cs@.take(i + 1).drop_last() =~= cs@.take(i as int));
        if cs[i] == '\n' {
            found = later_bounds(&cs, &prefix, start, i, found);
            start = i + 1;
            assert(cs@.subrange(start as int, i + 1) =~= Seq::<char>::empty());
        } else {
            assert(cs@.subrange(start as int, i + 1) =~= cs@.subrange(start as int, i as int).push(
                cs@[i as int],
            ));
        }
        i += 1;
    }
    assert(cs@.take(n as int) =~= cs@);
    let found = later_bounds(&cs, &prefix, start, n, found);
    let ip = match found {
        Some((a, b)) => Some(output.substring_char(a, b).to_owned()),
        None => None,
    };
    NetworkInfo { is_dhcp, ip }
}

} // verus!

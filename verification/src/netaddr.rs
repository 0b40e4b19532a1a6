//! Syntax of textual IP addresses.
//!
//! The classifier needs to know whether a trimmed clipboard text is an IP
//! address literal.  The grammar here is the usual one: an IPv4 address is
//! four dot-separated decimal octets, each at most 255, without leading
//! zeroes; an IPv6 address is up to eight colon-separated groups of one to
//! four hexadecimal digits, at most one `::` standing for one or more zero
//! groups, and optionally a trailing embedded IPv4 address in place of the
//! last two groups.  The specification reads the text the way the usual
//! parsers do: greedy digit runs, and at each slot an embedded IPv4
//! address is tried before a plain group.

use vstd::prelude::*;
use vstd::string::StrSliceExecFns;

verus! {

/// A decimal digit.
pub open spec fn is_dec_digit(c: char) -> bool {
    '0' <= c && c <= '9'
}

/// A hexadecimal digit.
pub open spec fn is_hex_digit(c: char) -> bool {
    is_dec_digit(c) || ('a' <= c && c <= 'f') || ('A' <= c && c <= 'F')
}

/// The value of a decimal digit.
pub open spec fn dec_digit_value(c: char) -> int {
    c as int - '0' as int
}

/// The length of the run of decimal digits starting at `pos`.
pub open spec fn dec_run(s: Seq<char>, pos: int) -> int
    decreases s.len() - pos when pos >= 0
{
    if 0 <= pos < s.len() && is_dec_digit(s[pos]) {
        1 + dec_run(s, pos + 1)
    } else {
        0
    }
}

/// The length of the run of hexadecimal digits starting at `pos`.
pub open spec fn hex_run(s: Seq<char>, pos: int) -> int
    decreases s.len() - pos when pos >= 0
{
    if 0 <= pos < s.len() && is_hex_digit(s[pos]) {
        1 + hex_run(s, pos + 1)
    } else {
        0
    }
}

/// The numeric value of the digit run of length `r` at `pos`.
pub open spec fn octet_value(s: Seq<char>, pos: int, r: int) -> int {
    if r == 1 {
        dec_digit_value(s[pos])
    } else if r == 2 {
        10 * dec_digit_value(s[pos]) + dec_digit_value(s[pos + 1])
    } else {
        100 * dec_digit_value(s[pos]) + 10 * dec_digit_value(s[pos + 1]) + dec_digit_value(
            s[pos + 2],
        )
    }
}

/// Reads one IPv4 octet at `pos`: one to three decimal digits, no leading
/// zero, value at most 255.  Yields the position after it.
pub open spec fn octet_end(s: Seq<char>, pos: int) -> Option<int> {
    let r = dec_run(s, pos);
    if r < 1 || r > 3 {
        None
    } else if s[pos] == '0' && r > 1 {
        None
    } else if octet_value(s, pos, r) > 255 {
        None
    } else {
        Some(pos + r)
    }
}

/// Reads a dotted-quad IPv4 address at `pos`.
pub open spec fn ipv4_end(s: Seq<char>, pos: int) -> Option<int> {
    match octet_end(s, pos) {
        None => None,
        Some(p1) => if p1 < s.len() && s[p1] == '.' {
            match octet_end(s, p1 + 1) {
                None => None,
                Some(p2) => if p2 < s.len() && s[p2] == '.' {
                    match octet_end(s, p2 + 1) {
                        None => None,
                        Some(p3) => if p3 < s.len() && s[p3] == '.' {
                            octet_end(s, p3 + 1)
                        } else {
                            None
                        },
                    }
                } else {
                    None
                },
            }
        } else {
            None
        },
    }
}

/// The whole text is one IPv4 address.
pub open spec fn spec_is_ipv4(s: Seq<char>) -> bool {
    ipv4_end(s, 0) == Some(s.len() as int)
}

/// Reads one IPv6 group at `pos`: one to four hexadecimal digits.
pub open spec fn group_end(s: Seq<char>, pos: int) -> Option<int> {
    let r = hex_run(s, pos);
    if 1 <= r <= 4 {
        Some(pos + r)
    } else {
        None
    }
}

/// Reads colon-separated IPv6 groups at `pos` into at most `limit` slots,
/// starting at slot `i`: before every slot but the first a colon, and at
/// every slot but the last an embedded IPv4 address is tried first, which
/// takes two slots and ends the run.  Yields the slot count, the position
/// after what was read, and whether an embedded IPv4 address ended it.
pub open spec fn groups_end(s: Seq<char>, pos: int, i: int, limit: int) -> (int, int, bool)
    decreases limit - i when i <= limit
{
    if i >= limit {
        (i, pos, false)
    } else {
        let gpos = if i == 0 {
            pos
        } else if 0 <= pos < s.len() && s[pos] == ':' {
            pos + 1
        } else {
            -1
        };
        if gpos < 0 {
            (i, pos, false)
        } else if i < limit - 1 && ipv4_end(s, gpos) is Some {
            (i + 2, ipv4_end(s, gpos)->Some_0, true)
        } else {
            match group_end(s, gpos) {
                Some(p2) => groups_end(s, p2, i + 1, limit),
                None => (i, pos, false),
            }
        }
    }
}

/// The whole text is one IPv6 address: eight groups, or fewer than eight,
/// one `::`, and at most seven minus the head's count behind it.
pub open spec fn spec_is_ipv6(s: Seq<char>) -> bool {
    let head = groups_end(s, 0, 0, 8);
    if head.0 == 8 {
        head.1 == s.len()
    } else if head.2 {
        false
    } else if head.1 + 2 <= s.len() && s[head.1] == ':' && s[head.1 + 1] == ':' {
        let tail = groups_end(s, head.1 + 2, 0, 7 - head.0);
        tail.1 == s.len()
    } else {
        false
    }
}

/// The whole text is one IP address literal, version four or six.
pub open spec fn spec_is_ip(s: Seq<char>) -> bool {
    spec_is_ipv4(s) || spec_is_ipv6(s)
}

fn dec_run_at(s: &str, n: usize, pos: usize) -> (r: usize)
    requires
        n == s@.len(),
        pos <= n,
    ensures
        r == dec_run(s@, pos as int),
        pos + r <= n,
    decreases n - pos,
{
    if pos < n {
        let c = s.get_char(pos);
        if '0' <= c && c <= '9' {
            1 + dec_run_at(s, n, pos + 1)
        } else {
            0
        }
    } else {
        0
    }
}

fn hex_run_at(s: &str, n: usize, pos: usize) -> (r: usize)
    requires
        n == s@.len(),
        pos <= n,
    ensures
        r == hex_run(s@, pos as int),
        pos + r <= n,
    decreases n - pos,
{
    if pos < n {
        let c = s.get_char(pos);
        if ('0' <= c && c <= '9') || ('a' <= c && c <= 'f') || ('A' <= c && c <= 'F') {
            1 + hex_run_at(s, n, pos + 1)
        } else {
            0
        }
    } else {
        0
    }
}

fn digit_value_at(s: &str, n: usize, pos: usize) -> (v: u32)
    requires
        n == s@.len(),
        pos < n,
        is_dec_digit(s@[pos as int]),
    ensures
        v == dec_digit_value(s@[pos as int]),
        v <= 9,
{
    let c = s.get_char(pos);
    (c as u32) - ('0' as u32)
}

/// Every position inside a digit run holds a digit.
proof fn lemma_dec_run_digits(s: Seq<char>, pos: int, k: int)
    requires
        0 <= pos,
        0 <= k < dec_run(s, pos),
    ensures
        pos + k < s.len(),
        is_dec_digit(s[pos + k]),
    decreases k,
{
    if k > 0 {
        lemma_dec_run_digits(s, pos + 1, k - 1);
    }
}

fn octet_end_at(s: &str, n: usize, pos: usize) -> (r: Option<usize>)
    requires
        n == s@.len(),
        pos <= n,
    ensures
        (match r {
            Some(p) => octet_end(s@, pos as int) == Some(p as int) && p <= n,
            None => octet_end(s@, pos as int) is None,
        }),
{
    let run = dec_run_at(s, n, pos);
    if run < 1 || run > 3 {
        return None;
    }
    if s.get_char(pos) == '0' && run > 1 {
        return None;
    }
    proof {
        lemma_dec_run_digits(s@, pos as int, 0);
        if run > 1 {
            lemma_dec_run_digits(s@, pos as int, 1);
        }
        if run > 2 {
            lemma_dec_run_digits(s@, pos as int, 2);
        }
    }
    let value: u32 = if run == 1 {
        digit_value_at(s, n, pos)
    } else if run == 2 {
        10 * digit_value_at(s, n, pos) + digit_value_at(s, n, pos + 1)
    } else {
        100 * digit_value_at(s, n, pos) + 10 * digit_value_at(s, n, pos + 1) + digit_value_at(
            s,
            n,
            pos + 2,
        )
    };
    if value > 255 {
        return None;
    }
    Some(pos + run)
}

fn ipv4_end_at(s: &str, n: usize, pos: usize) -> (r: Option<usize>)
    requires
        n == s@.len(),
        pos <= n,
    ensures
        (match r {
            Some(p) => ipv4_end(s@, pos as int) == Some(p as int) && p <= n,
            None => ipv4_end(s@, pos as int) is None,
        }),
{
    let p1 = match octet_end_at(s, n, pos) {
        None => {
            return None;
        },
        Some(p) => p,
    };
    if !(p1 < n && s.get_char(p1) == '.') {
        return None;
    }
    let p2 = match octet_end_at(s, n, p1 + 1) {
        None => {
            return None;
        },
        Some(p) => p,
    };
    if !(p2 < n && s.get_char(p2) == '.') {
        return None;
    }
    let p3 = match octet_end_at(s, n, p2 + 1) {
        None => {
            return None;
        },
        Some(p) => p,
    };
    if !(p3 < n && s.get_char(p3) == '.') {
        return None;
    }
    octet_end_at(s, n, p3 + 1)
}

fn group_end_at(s: &str, n: usize, pos: usize) -> (r: Option<usize>)
    requires
        n == s@.len(),
        pos <= n,
    ensures
        (match r {
            Some(p) => group_end(s@, pos as int) == Some(p as int) && p <= n,
            None => group_end(s@, pos as int) is None,
        }),
{
    let run = hex_run_at(s, n, pos);
    if 1 <= run && run <= 4 {
        Some(pos + run)
    } else {
        None
    }
}

fn groups_end_at(s: &str, n: usize, pos: usize, i: usize, limit: usize) -> (r: (
    usize,
    usize,
    bool,
))
    requires
        n == s@.len(),
        pos <= n,
        i <= limit,
        limit <= 8,
    ensures
        groups_end(s@, pos as int, i as int, limit as int) == (r.0 as int, r.1 as int, r.2),
        r.1 <= n,
        r.0 <= limit,
    decreases limit - i,
{
    if i >= limit {
        return (i, pos, false);
    }
    let has_gpos: bool = if i == 0 {
        true
    } else {
        pos < n && s.get_char(pos) == ':'
    };
    if !has_gpos {
        return (i, pos, false);
    }
    let gpos: usize = if i == 0 {
        pos
    } else {
        pos + 1
    };
    if i < limit - 1 {
        match ipv4_end_at(s, n, gpos) {
            Some(p) => {
                return (i + 2, p, true);
            },
            None => {},
        }
    }
    match group_end_at(s, n, gpos) {
        Some(p2) => groups_end_at(s, n, p2, i + 1, limit),
        None => (i, pos, false),
    }
}

/// Whether the text is an IPv4 address literal.
pub fn is_ipv4_literal(s: &str) -> (r: bool)
    ensures
        r == spec_is_ipv4(s@),
{
    let n = s.unicode_len();
    match ipv4_end_at(s, n, 0) {
        Some(p) => p == n,
        None => false,
    }
}

/// Whether the text is an IPv6 address literal.
pub fn is_ipv6_literal(s: &str) -> (r: bool)
    ensures
        r == spec_is_ipv6(s@),
{
    let n = s.unicode_len();
    let head = groups_end_at(s, n, 0, 0, 8);
    if head.0 == 8 {
        return head.1 == n;
    }
    if head.2 {
        return false;
    }
    if !(head.1 < n && s.get_char(head.1) == ':') {
        return false;
    }
    if !(head.1 + 1 < n && s.get_char(head.1 + 1) == ':') {
        return false;
    }
    let tail = groups_end_at(s, n, head.1 + 2, 0, 7 - head.0);
    tail.1 == n
}

/// Whether the text is an IP address literal of either version.
pub fn is_ip_literal(s: &str) -> (r: bool)
    ensures
        r == spec_is_ip(s@),
{
    is_ipv4_literal(s) || is_ipv6_literal(s)
}

} // verus!

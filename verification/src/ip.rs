//! Textual IP address parsing and classification against the fixed list of
//! reserved (non-routable) ranges.
//!
//! The grammar accepted here is the usual one: an IPv4 address is four
//! decimal octets (no leading zeros, each at most 255) separated by dots; an
//! IPv6 address is up to eight hexadecimal groups of one to four digits
//! separated by colons, with at most one `::` standing for one or more zero
//! groups, and optionally a trailing IPv4 quad standing for the last two
//! groups. Anything else does not parse, and an address that does not parse
//! is classified as non-routable (fail closed).

use vstd::prelude::*;
use vstd::string::StrSliceExecFns;

verus! {

// ---------------------------------------------------------------------------
// Characters and digit runs
// ---------------------------------------------------------------------------

pub open spec fn is_dec_digit(c: char) -> bool {
    48 <= c as u32 && c as u32 <= 57
}

pub open spec fn dec_val(c: char) -> u32 {
    ((c as u32) - 48) as u32
}

pub open spec fn is_hex_digit(c: char) -> bool {
    (48 <= c as u32 && c as u32 <= 57) || (97 <= c as u32 && c as u32 <= 102) || (65 <= c as u32
        && c as u32 <= 70)
}

pub open spec fn hex_val(c: char) -> u32 {
    if 48 <= c as u32 && c as u32 <= 57 {
        ((c as u32) - 48) as u32
    } else if 97 <= c as u32 && c as u32 <= 102 {
        ((c as u32) - 87) as u32
    } else {
        ((c as u32) - 55) as u32
    }
}

/// Length of the run of decimal digits starting at `i`.
pub open spec fn dec_run(s: Seq<char>, i: int) -> int
    decreases s.len() - i
        when 0 <= i <= s.len()
{
    if i < s.len() && is_dec_digit(s[i]) {
        1 + dec_run(s, i + 1)
    } else {
        0
    }
}

/// Length of the run of hexadecimal digits starting at `i`.
pub open spec fn hex_run(s: Seq<char>, i: int) -> int
    decreases s.len() - i
        when 0 <= i <= s.len()
{
    if i < s.len() && is_hex_digit(s[i]) {
        1 + hex_run(s, i + 1)
    } else {
        0
    }
}

/// Value of the `n` decimal digits beginning at `i`.
pub open spec fn dec_value(s: Seq<char>, i: int, n: int) -> int
    decreases n,
{
    if n <= 0 {
        0
    } else {
        dec_value(s, i, n - 1) * 10 + dec_val(s[i + n - 1])
    }
}

/// Value of the `n` hexadecimal digits beginning at `i`.
pub open spec fn hex_value(s: Seq<char>, i: int, n: int) -> int
    decreases n,
{
    if n <= 0 {
        0
    } else {
        hex_value(s, i, n - 1) * 16 + hex_val(s[i + n - 1])
    }
}

proof fn lemma_dec_run_exact(s: Seq<char>, i: int, n: int)
    requires
        0 <= i,
        0 <= n,
        i + n <= s.len(),
        forall|k: int| i <= k < i + n ==> is_dec_digit(s[k]),
        i + n == s.len() || !is_dec_digit(s[i + n]),
    ensures
        dec_run(s, i) == n,
    decreases n,
{
    if n > 0 {
        lemma_dec_run_exact(s, i + 1, n - 1);
    }
}

proof fn lemma_hex_run_exact(s: Seq<char>, i: int, n: int)
    requires
        0 <= i,
        0 <= n,
        i + n <= s.len(),
        forall|k: int| i <= k < i + n ==> is_hex_digit(s[k]),
        i + n == s.len() || !is_hex_digit(s[i + n]),
    ensures
        hex_run(s, i) == n,
    decreases n,
{
    if n > 0 {
        lemma_hex_run_exact(s, i + 1, n - 1);
    }
}

fn exec_is_dec(c: char) -> (r: bool)
    ensures
        r == is_dec_digit(c),
{
    let u = c as u32;
    48 <= u && u <= 57
}

fn exec_is_hex(c: char) -> (r: bool)
    ensures
        r == is_hex_digit(c),
{
    let u = c as u32;
    (48 <= u && u <= 57) || (97 <= u && u <= 102) || (65 <= u && u <= 70)
}

fn exec_dec_val(c: char) -> (r: u32)
    requires
        is_dec_digit(c),
    ensures
        r == dec_val(c),
        r <= 9,
{
    c as u32 - 48
}

fn exec_hex_val(c: char) -> (r: u32)
    requires
        is_hex_digit(c),
    ensures
        r == hex_val(c),
        r <= 15,
{
    let u = c as u32;
    if 48 <= u && u <= 57 {
        u - 48
    } else if 97 <= u && u <= 102 {
        u - 87
    } else {
        u - 55
    }
}

/// Length of the decimal digit run at `i`, with the run's characters known
/// to be digits.
fn dec_run_at(v: &Vec<char>, i: usize) -> (n: usize)
    requires
        i <= v.len(),
    ensures
        n == dec_run(v@, i as int),
        i + n <= v.len(),
        forall|k: int| i <= k < i + n ==> is_dec_digit(v@[k]),
{
    let mut n: usize = 0;
    while i + n < v.len() && exec_is_dec(v[i + n])
        invariant
            i + n <= v.len(),
            forall|k: int| i <= k < i + n ==> is_dec_digit(v@[k]),
        decreases v.len() - i - n,
    {
        n = n + 1;
    }
    proof {
        lemma_dec_run_exact(v@, i as int, n as int);
    }
    n
}

fn hex_run_at(v: &Vec<char>, i: usize) -> (n: usize)
    requires
        i <= v.len(),
    ensures
        n == hex_run(v@, i as int),
        i + n <= v.len(),
        forall|k: int| i <= k < i + n ==> is_hex_digit(v@[k]),
{
    let mut n: usize = 0;
    while i + n < v.len() && exec_is_hex(v[i + n])
        invariant
            i + n <= v.len(),
            forall|k: int| i <= k < i + n ==> is_hex_digit(v@[k]),
        decreases v.len() - i - n,
    {
        n = n + 1;
    }
    proof {
        lemma_hex_run_exact(v@, i as int, n as int);
    }
    n
}

// ---------------------------------------------------------------------------
// IPv4
// ---------------------------------------------------------------------------

/// One decimal octet at `i`: one to three digits, no leading zero, value at
/// most 255. Yields the value and the position after the octet.
pub open spec fn parse_octet(s: Seq<char>, i: int) -> Option<(u32, int)> {
    let n = dec_run(s, i);
    if 1 <= n <= 3 && (n > 1 ==> dec_val(s[i]) != 0) && dec_value(s, i, n) <= 255 {
        Some((dec_value(s, i, n) as u32, i + n))
    } else {
        None
    }
}

/// A dotted quad `a.b.c.d` beginning at `i`: the 32-bit value and the
/// position after the last octet.
pub open spec fn parse_ipv4_at(s: Seq<char>, i: int) -> Option<(u32, int)> {
    match parse_octet(s, i) {
        None => None,
        Some((a, i1)) => if i1 < s.len() && s[i1] == '.' {
            match parse_octet(s, i1 + 1) {
                None => None,
                Some((b, i2)) => if i2 < s.len() && s[i2] == '.' {
                    match parse_octet(s, i2 + 1) {
                        None => None,
                        Some((c, i3)) => if i3 < s.len() && s[i3] == '.' {
                            match parse_octet(s, i3 + 1) {
                                None => None,
                                Some((d, i4)) => Some(
                                    (
                                        (a * 0x1000000 + b * 0x10000 + c * 0x100 + d) as u32,
                                        i4,
                                    ),
                                ),
                            }
                        } else {
                            None
                        },
                    }
                } else {
                    None
                },
            }
        } else {
            None
        },
    }
}

/// The whole string as an IPv4 address.
pub open spec fn spec_parse_ipv4(s: Seq<char>) -> Option<u32> {
    match parse_ipv4_at(s, 0) {
        Some((w, n)) => if n == s.len() {
            Some(w)
        } else {
            None
        },
        None => None,
    }
}

fn take_octet(v: &Vec<char>, i: usize) -> (r: Option<(u32, usize)>)
    requires
        i <= v.len(),
    ensures
        match r {
            Some(p) => parse_octet(v@, i as int) == Some((p.0, p.1 as int)) && i < p.1 && p.1
                <= v.len() && p.0 <= 255,
            None => parse_octet(v@, i as int) is None,
        },
{
    let n = dec_run_at(v, i);
    if n < 1 || n > 3 {
        return None;
    }
    if n > 1 && exec_dec_val(v[i]) == 0 {
        return None;
    }
    let mut acc: u32 = exec_dec_val(v[i]);
    assert(dec_value(v@, i as int, 0) == 0);
    assert(dec_value(v@, i as int, 1) == dec_val(v@[i as int]));
    if n >= 2 {
        acc = acc * 10 + exec_dec_val(v[i + 1]);
        assert(dec_value(v@, i as int, 2) == dec_value(v@, i as int, 1) * 10 + dec_val(
            v@[i as int + 1],
        ));
    }
    if n >= 3 {
        acc = acc * 10 + exec_dec_val(v[i + 2]);
        assert(dec_value(v@, i as int, 3) == dec_value(v@, i as int, 2) * 10 + dec_val(
            v@[i as int + 2],
        ));
    }
    if acc > 255 {
        return None;
    }
    Some((acc, i + n))
}

fn take_ipv4(v: &Vec<char>, i: usize) -> (r: Option<(u32, usize)>)
    requires
        i <= v.len(),
    ensures
        match r {
            Some(p) => parse_ipv4_at(v@, i as int) == Some((p.0, p.1 as int)) && i < p.1 && p.1
                <= v.len(),
            None => parse_ipv4_at(v@, i as int) is None,
        },
{
    let (a, i1) = match take_octet(v, i) {
        Some(p) => p,
        None => {
            return None;
        },
    };
    if !(i1 < v.len() && v[i1] == '.') {
        return None;
    }
    let (b, i2) = match take_octet(v, i1 + 1) {
        Some(p) => p,
        None => {
            return None;
        },
    };
    if !(i2 < v.len() && v[i2] == '.') {
        return None;
    }
    let (c, i3) = match take_octet(v, i2 + 1) {
        Some(p) => p,
        None => {
            return None;
        },
    };
    if !(i3 < v.len() && v[i3] == '.') {
        return None;
    }
    let (d, i4) = match take_octet(v, i3 + 1) {
        Some(p) => p,
        None => {
            return None;
        },
    };
    Some((a * 0x1000000 + b * 0x10000 + c * 0x100 + d, i4))
}

// ---------------------------------------------------------------------------
// IPv6
// ---------------------------------------------------------------------------

/// A hexadecimal group at `i`: one to four digits (leading zeros allowed).
pub open spec fn parse_hex_group(s: Seq<char>, i: int) -> Option<(u32, int)> {
    let n = hex_run(s, i);
    if 1 <= n <= 4 {
        Some((hex_value(s, i, n) as u32, i + n))
    } else {
        None
    }
}

/// A hexadecimal group at `i`, preceded by a `:` separator for every group
/// but the first of a run.
pub open spec fn sep_group(s: Seq<char>, i: int, k: int) -> Option<(u32, int)> {
    if k == 0 {
        parse_hex_group(s, i)
    } else if i < s.len() && s[i] == ':' {
        parse_hex_group(s, i + 1)
    } else {
        None
    }
}

/// A trailing dotted quad at `i`, preceded by a `:` separator for every
/// group but the first of a run.
pub open spec fn sep_ipv4(s: Seq<char>, i: int, k: int) -> Option<(u32, int)> {
    if k == 0 {
        parse_ipv4_at(s, i)
    } else if i < s.len() && s[i] == ':' {
        parse_ipv4_at(s, i + 1)
    } else {
        None
    }
}

/// Reads colon-separated groups starting at `i`, group index `k`, into at
/// most `limit` slots; `acc` holds the groups read so far. A dotted quad is
/// tried first whenever two slots remain and, if present, ends the run and
/// fills two slots. Returns the groups, the position after them, and whether
/// the run ended with a dotted quad.
pub open spec fn read_groups(s: Seq<char>, i: int, k: int, limit: int, acc: Seq<u32>) -> (
    Seq<u32>,
    int,
    bool,
)
    decreases limit - k
        when k <= limit
{
    if k >= limit {
        (acc, i, false)
    } else {
        let quad = if k + 1 < limit {
            sep_ipv4(s, i, k)
        } else {
            None
        };
        match quad {
            Some((w, j)) => (acc.push(w >> 16).push(w & 0xFFFF), j, true),
            None => match sep_group(s, i, k) {
                Some((g, j)) => read_groups(s, j, k + 1, limit, acc.push(g)),
                None => (acc, i, false),
            },
        }
    }
}

pub open spec fn zero_groups(n: int) -> Seq<u32> {
    Seq::new(n as nat, |j: int| 0u32)
}

/// The whole string as an IPv6 address: the eight 16-bit groups.
pub open spec fn spec_parse_ipv6(s: Seq<char>) -> Option<Seq<u32>> {
    let (head, i, head_quad) = read_groups(s, 0, 0, 8, Seq::empty());
    if head.len() == 8 {
        if i == s.len() {
            Some(head)
        } else {
            None
        }
    } else if head_quad {
        None
    } else if i + 1 < s.len() && s[i] == ':' && s[i + 1] == ':' {
        let (tail, j, tail_quad) = read_groups(s, i + 2, 0, 7 - head.len(), Seq::empty());
        if j == s.len() {
            Some(head + zero_groups(8 - head.len() - tail.len()) + tail)
        } else {
            None
        }
    } else {
        None
    }
}

fn take_hex_group(v: &Vec<char>, i: usize) -> (r: Option<(u32, usize)>)
    requires
        i <= v.len(),
    ensures
        match r {
            Some(p) => parse_hex_group(v@, i as int) == Some((p.0, p.1 as int)) && i < p.1 && p.1
                <= v.len() && p.0 <= 0xFFFF,
            None => parse_hex_group(v@, i as int) is None,
        },
{
    let n = hex_run_at(v, i);
    if n < 1 || n > 4 {
        return None;
    }
    let mut acc: u32 = exec_hex_val(v[i]);
    assert(hex_value(v@, i as int, 0) == 0);
    assert(hex_value(v@, i as int, 1) == hex_val(v@[i as int]));
    if n >= 2 {
        acc = acc * 16 + exec_hex_val(v[i + 1]);
        assert(hex_value(v@, i as int, 2) == hex_value(v@, i as int, 1) * 16 + hex_val(
            v@[i as int + 1],
        ));
    }
    if n >= 3 {
        acc = acc * 16 + exec_hex_val(v[i + 2]);
        assert(hex_value(v@, i as int, 3) == hex_value(v@, i as int, 2) * 16 + hex_val(
            v@[i as int + 2],
        ));
    }
    if n >= 4 {
        acc = acc * 16 + exec_hex_val(v[i + 3]);
        assert(hex_value(v@, i as int, 4) == hex_value(v@, i as int, 3) * 16 + hex_val(
            v@[i as int + 3],
        ));
    }
    Some((acc, i + n))
}

fn take_sep_group(v: &Vec<char>, i: usize, k: usize) -> (r: Option<(u32, usize)>)
    requires
        i <= v.len(),
    ensures
        match r {
            Some(p) => sep_group(v@, i as int, k as int) == Some((p.0, p.1 as int)) && i < p.1
                && p.1 <= v.len() && p.0 <= 0xFFFF,
            None => sep_group(v@, i as int, k as int) is None,
        },
{
    if k == 0 {
        take_hex_group(v, i)
    } else if i < v.len() && v[i] == ':' {
        take_hex_group(v, i + 1)
    } else {
        None
    }
}

fn take_sep_ipv4(v: &Vec<char>, i: usize, k: usize) -> (r: Option<(u32, usize)>)
    requires
        i <= v.len(),
    ensures
        match r {
            Some(p) => sep_ipv4(v@, i as int, k as int) == Some((p.0, p.1 as int)) && i < p.1
                && p.1 <= v.len(),
            None => sep_ipv4(v@, i as int, k as int) is None,
        },
{
    if k == 0 {
        take_ipv4(v, i)
    } else if i < v.len() && v[i] == ':' {
        take_ipv4(v, i + 1)
    } else {
        None
    }
}

fn take_groups(v: &Vec<char>, start: usize, limit: usize) -> (r: (Vec<u32>, usize, bool))
    requires
        start <= v.len(),
        limit <= 8,
    ensures
        ({
            let (gs, pos, quad) = read_groups(v@, start as int, 0, limit as int, Seq::empty());
            &&& r.0@ == gs
            &&& r.1 as int == pos
            &&& r.2 == quad
            &&& r.1 <= v.len()
            &&& r.0@.len() <= limit
            &&& forall|t: int| 0 <= t < r.0@.len() ==> r.0@[t] <= 0xFFFF
        }),
{
    let mut groups: Vec<u32> = Vec::new();
    let mut i: usize = start;
    let mut k: usize = 0;
    while k < limit
        invariant
            i <= v.len(),
            k <= limit,
            limit <= 8,
            groups@.len() == k as int,
            read_groups(v@, start as int, 0, limit as int, Seq::empty()) == read_groups(
                v@,
                i as int,
                k as int,
                limit as int,
                groups@,
            ),
            forall|t: int| 0 <= t < groups@.len() ==> groups@[t] <= 0xFFFF,
        decreases limit - k,
    {
        if k + 1 < limit {
            match take_sep_ipv4(v, i, k) {
                Some((w, j)) => {
                    let hi = w >> 16;
                    let lo = w & 0xFFFF;
                    assert(hi <= 0xFFFF && lo <= 0xFFFF) by (bit_vector)
                        requires
                            hi == w >> 16 && lo == w & 0xFFFF,
                    ;
                    groups.push(hi);
                    groups.push(lo);
                    return (groups, j, true);
                },
                None => {},
            }
        }
        match take_sep_group(v, i, k) {
            Some((g, j)) => {
                groups.push(g);
                i = j;
                k = k + 1;
            },
            None => {
                return (groups, i, false);
            },
        }
    }
    (groups, i, false)
}

fn take_ipv6(v: &Vec<char>) -> (r: Option<Vec<u32>>)
    ensures
        match r {
            Some(gs) => spec_parse_ipv6(v@) == Some(gs@) && gs@.len() == 8 && forall|t: int|
                0 <= t < gs@.len() ==> gs@[t] <= 0xFFFF,
            None => spec_parse_ipv6(v@) is None,
        },
{
    let (head, i, head_quad) = take_groups(v, 0, 8);
    if head.len() == 8 {
        if i == v.len() {
            return Some(head);
        } else {
            return None;
        }
    }
    if head_quad {
        return None;
    }
    if !(i < v.len() && v[i] == ':' && i + 1 < v.len() && v[i + 1] == ':') {
        return None;
    }
    let hl = head.len();
    let (tail, j, _tail_quad) = take_groups(v, i + 2, 7 - hl);
    if j != v.len() {
        return None;
    }
    let mut out = head;
    let zeros = 8 - hl - tail.len();
    let mut z: usize = 0;
    while z < zeros
        invariant
            out@ == read_groups(v@, 0, 0, 8, Seq::empty()).0 + zero_groups(z as int),
            z <= zeros,
        decreases zeros - z,
    {
        out.push(0);
        proof {
            assert(zero_groups(z as int).push(0u32) =~= zero_groups(z + 1));
            assert(read_groups(v@, 0, 0, 8, Seq::empty()).0 + zero_groups(z as int).push(0u32)
                =~= (read_groups(v@, 0, 0, 8, Seq::empty()).0 + zero_groups(z as int)).push(0u32));
        }
        z = z + 1;
    }
    let mut t: usize = 0;
    while t < tail.len()
        invariant
            t <= tail@.len(),
            out@ == read_groups(v@, 0, 0, 8, Seq::empty()).0 + zero_groups(zeros as int)
                + tail@.subrange(0, t as int),
        decreases tail@.len() - t,
    {
        let g = tail[t];
        out.push(g);
        proof {
            assert((read_groups(v@, 0, 0, 8, Seq::empty()).0 + zero_groups(zeros as int)
                + tail@.subrange(0, t as int)).push(tail@[t as int]) =~= read_groups(
                v@,
                0,
                0,
                8,
                Seq::empty(),
            ).0 + zero_groups(zeros as int) + tail@.subrange(0, t + 1));
        }
        t = t + 1;
    }
    proof {
        assert(tail@.subrange(0, tail@.len() as int) =~= tail@);
    }
    Some(out)
}

// ---------------------------------------------------------------------------
// Reserved ranges
// ---------------------------------------------------------------------------

/// Membership of a 32-bit IPv4 value in the fixed reserved list:
/// 127.0.0.0/8, 10.0.0.0/8, 172.16.0.0/12, 192.168.0.0/16, 169.254.0.0/16,
/// 100.64.0.0/10, 192.0.2.0/24, 198.51.100.0/24, 203.0.113.0/24, 0.0.0.0/8,
/// 224.0.0.0/4, 240.0.0.0/4, 192.88.99.0/24 and 255.255.255.255/32.
pub open spec fn spec_reserved_v4(a: u32) -> bool {
    ||| a >> 24 == 127
    ||| a >> 24 == 10
    ||| a >> 20 == 0xAC1
    ||| a >> 16 == 0xC0A8
    ||| a >> 16 == 0xA9FE
    ||| a >> 22 == 0x191
    ||| a >> 8 == 0xC00002
    ||| a >> 8 == 0xC63364
    ||| a >> 8 == 0xCB0071
    ||| a >> 24 == 0
    ||| a >> 28 == 0xE
    ||| a >> 28 == 0xF
    ||| a >> 8 == 0xC05863
    ||| a == 0xFFFFFFFF
}

/// Membership of an eight-group IPv6 value in the fixed reserved list:
/// ::1/128, fe80::/10, fc00::/7, ff00::/8, 2001:db8::/32 and ::/128.
pub open spec fn spec_reserved_v6(gs: Seq<u32>) -> bool {
    ||| (gs[0] == 0 && gs[1] == 0 && gs[2] == 0 && gs[3] == 0 && gs[4] == 0 && gs[5] == 0 && gs[6]
        == 0 && (gs[7] == 0 || gs[7] == 1))
    ||| gs[0] & 0xFFC0 == 0xFE80
    ||| gs[0] & 0xFE00 == 0xFC00
    ||| gs[0] & 0xFF00 == 0xFF00
    ||| (gs[0] == 0x2001 && gs[1] == 0x0DB8)
}

pub fn reserved_v4(a: u32) -> (r: bool)
    ensures
        r == spec_reserved_v4(a),
{
    (a >> 24 == 127) || (a >> 24 == 10) || (a >> 20 == 0xAC1) || (a >> 16 == 0xC0A8) || (a >> 16
        == 0xA9FE) || (a >> 22 == 0x191) || (a >> 8 == 0xC00002) || (a >> 8 == 0xC63364) || (a >> 8
        == 0xCB0071) || (a >> 24 == 0) || (a >> 28 == 0xE) || (a >> 28 == 0xF) || (a >> 8
        == 0xC05863) || (a == 0xFFFFFFFF)
}

pub fn reserved_v6(gs: &Vec<u32>) -> (r: bool)
    requires
        gs@.len() == 8,
    ensures
        r == spec_reserved_v6(gs@),
{
    (gs[0] == 0 && gs[1] == 0 && gs[2] == 0 && gs[3] == 0 && gs[4] == 0 && gs[5] == 0 && gs[6] == 0
        && (gs[7] == 0 || gs[7] == 1)) || (gs[0] & 0xFFC0 == 0xFE80) || (gs[0] & 0xFE00 == 0xFC00)
        || (gs[0] & 0xFF00 == 0xFF00) || (gs[0] == 0x2001 && gs[1] == 0x0DB8)
}

// ---------------------------------------------------------------------------
// Classification
// ---------------------------------------------------------------------------

/// The classification rule: a string that parses as neither address family
/// is non-routable (fail closed); a string that parses is non-routable
/// exactly when its value lies in a reserved range of its family.
pub open spec fn spec_is_non_routable(s: Seq<char>) -> bool {
    match spec_parse_ipv4(s) {
        Some(a) => spec_reserved_v4(a),
        None => match spec_parse_ipv6(s) {
            Some(gs) => spec_reserved_v6(gs),
            None => true,
        },
    }
}

/// Copies the characters of a string into a vector.
fn chars_of(s: &str) -> (v: Vec<char>)
    ensures
        v@ == s@,
{
    let n = s.unicode_len();
    let mut v: Vec<char> = Vec::new();
    let mut i: usize = 0;
    while i < n
        invariant
            n == s@.len(),
            i <= n,
            v@ == s@.subrange(0, i as int),
        decreases n - i,
    {
        let c = s.get_char(i);
        v.push(c);
        proof {
            assert(s@.subrange(0, i as int).push(s@[i as int]) =~= s@.subrange(0, i + 1));
        }
        i = i + 1;
    }
    proof {
        assert(s@.subrange(0, s@.len() as int) =~= s@);
    }
    v
}

/// Classifies an address: true when the text does not parse as an IPv4 or
/// IPv6 address, or parses into one of the reserved ranges.
pub fn is_non_routable(text: &str) -> (r: bool)
    ensures
        r == spec_is_non_routable(text@),
{
    let v = chars_of(text);
    match take_ipv4(&v, 0) {
        Some((w, n)) => {
            if n == v.len() {
                return reserved_v4(w);
            }
        },
        None => {},
    }
    match take_ipv6(&v) {
        Some(gs) => reserved_v6(&gs),
        None => true,
    }
}

// ---------------------------------------------------------------------------
// Stated laws of the classifier
// ---------------------------------------------------------------------------

/// A string whose IPv4 value lies in a reserved range is non-routable.
pub proof fn lemma_reserved_v4_non_routable(s: Seq<char>, a: u32)
    requires
        spec_parse_ipv4(s) == Some(a),
        spec_reserved_v4(a),
    ensures
        spec_is_non_routable(s),
{
}

/// A string whose IPv6 groups lie in a reserved range is non-routable.
pub proof fn lemma_reserved_v6_non_routable(s: Seq<char>, gs: Seq<u32>)
    requires
        spec_parse_ipv4(s) is None,
        spec_parse_ipv6(s) == Some(gs),
        spec_reserved_v6(gs),
    ensures
        spec_is_non_routable(s),
{
}

/// No cross-family confusion: text that parses as an IPv4 address does not
/// parse as an IPv6 address, so each family is judged only against its own
/// reserved ranges.
pub proof fn lemma_families_disjoint(s: Seq<char>)
    requires
        spec_parse_ipv4(s) is Some,
    ensures
        spec_parse_ipv6(s) is None,
{
    let head = read_groups(s, 0, 0, 8, Seq::empty());
    assert(sep_ipv4(s, 0, 0) == parse_ipv4_at(s, 0));
    assert(head.0.len() == 2 && head.2);
}

/// A string that parses as neither family is non-routable: the classifier
/// fails closed on syntactically invalid input.
pub proof fn lemma_invalid_non_routable(s: Seq<char>)
    requires
        spec_parse_ipv4(s) is None,
        spec_parse_ipv6(s) is None,
    ensures
        spec_is_non_routable(s),
{
}

} // verus!

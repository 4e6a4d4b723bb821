use vstd::prelude::*;

verus! {

use crate::error::Error;
use crate::req_addr::{utf8_check, ReqAddr, ReqAddrView, SocketAddress};
use vstd::utf8::valid_utf8;

/// A listen address from the configuration: an IP literal, or a hostname
/// to resolve at startup, and a port.  Exactly one of `ip` and `domain`
/// must be set.
pub struct CfgAddr {
    pub ip: Option<Vec<u8>>,
    pub domain: Option<Vec<u8>>,
    pub port: u16,
}

/// The kinds of listener the configuration may name.  Only `Socks5` is
/// implemented; the others are reserved.
#[derive(Clone, Copy, Debug, PartialEq, Eq, Structural)]
pub enum IncomingType {
    Socks5,
    Rocks,
    Deny,
    Redirect,
}

/// The `[incoming]` table of the configuration.
pub struct IncomingConfig {
    pub kind: IncomingType,
    pub userfile: Option<String>,
    pub listen_addr: CfgAddr,
    pub ssl: Option<SslConfig>,
}

/// The kinds of outbound dispatcher the configuration may name.  Only
/// `Direct` is implemented; the others are reserved.
#[derive(Clone, Copy, Debug, PartialEq, Eq, Structural)]
pub enum OutgoingType {
    Rocks,
    Direct,
    Ignore,
}

/// TLS key material locations, used only by the reserved listener kinds.
pub struct SslConfig {
    pub keyfile: String,
    pub certfile: String,
}

/// The `[outgoing]` table of the configuration.
pub struct OutgoingConfig {
    pub kind: OutgoingType,
    pub user: Option<String>,
    pub listen_addr: Option<CfgAddr>,
}

/// The whole configuration file: one incoming table and one outgoing
/// table.
pub struct RocksConfig {
    pub incoming: IncomingConfig,
    pub outgoing: OutgoingConfig,
}

/// A decimal digit byte.
pub open spec fn is_digit(c: u8) -> bool {
    48 <= c <= 57
}

/// Every byte a decimal digit.
pub open spec fn all_digits(s: Seq<u8>) -> bool {
    forall|i: int| 0 <= i < s.len() ==> is_digit(s[i])
}

/// The number a run of decimal digits denotes.
pub open spec fn digits_val(s: Seq<u8>) -> int
    decreases s.len(),
{
    if s.len() == 0 {
        0
    } else {
        digits_val(s.drop_last()) * 10 + (s.last() - 48)
    }
}

/// A canonical octet: one to three digits, no leading zero, at most 255.
pub open spec fn is_octet(s: Seq<u8>) -> bool {
    1 <= s.len() <= 3 && all_digits(s) && (s.len() > 1 ==> s[0] != 48) && digits_val(s) <= 255
}

/// Whether `s` is a dotted-quad IPv4 literal with its dots at the three
/// given positions.
pub open spec fn is_ipv4_literal(s: Seq<u8>, p1: int, p2: int, p3: int) -> bool {
    &&& 0 < p1 && p1 + 1 < p2 && p2 + 1 < p3 && p3 + 1 < s.len()
    &&& s[p1] == 46 && s[p2] == 46 && s[p3] == 46
    &&& is_octet(s.subrange(0, p1))
    &&& is_octet(s.subrange(p1 + 1, p2))
    &&& is_octet(s.subrange(p2 + 1, p3))
    &&& is_octet(s.subrange(p3 + 1, s.len() as int))
}

/// A run of up to three digits denotes at most 999.
proof fn lemma_digits_val_bounds(s: Seq<u8>)
    requires
        all_digits(s),
    ensures
        0 <= digits_val(s),
        s.len() <= 1 ==> digits_val(s) <= 9,
        s.len() <= 2 ==> digits_val(s) <= 99,
        s.len() <= 3 ==> digits_val(s) <= 999,
    decreases s.len(),
{
    if s.len() > 0 {
        assert(all_digits(s.drop_last())) by {
            assert(forall|i: int|
                0 <= i < s.drop_last().len() ==> s.drop_last()[i] == s[i] && is_digit(s[i]));
        }
        lemma_digits_val_bounds(s.drop_last());
    }
}

/// In a dotted-quad literal the dots sit exactly at the three named
/// positions: every other byte is a digit.
proof fn lemma_literal_dots(s: Seq<u8>, p1: int, p2: int, p3: int)
    requires
        is_ipv4_literal(s, p1, p2, p3),
    ensures
        forall|i: int| 0 <= i < s.len() ==> (s[i] == 46 <==> (i == p1 || i == p2 || i == p3)),
{
    assert forall|i: int| 0 <= i < s.len() implies (s[i] == 46 <==> (i == p1 || i == p2 || i
        == p3)) by {
        if i < p1 {
            assert(s.subrange(0, p1)[i] == s[i]);
            assert(is_digit(s.subrange(0, p1)[i]));
        } else if p1 < i && i < p2 {
            assert(s.subrange(p1 + 1, p2)[i - p1 - 1] == s[i]);
            assert(is_digit(s.subrange(p1 + 1, p2)[i - p1 - 1]));
        } else if p2 < i && i < p3 {
            assert(s.subrange(p2 + 1, p3)[i - p2 - 1] == s[i]);
            assert(is_digit(s.subrange(p2 + 1, p3)[i - p2 - 1]));
        } else if p3 < i {
            assert(s.subrange(p3 + 1, s.len() as int)[i - p3 - 1] == s[i]);
            assert(is_digit(s.subrange(p3 + 1, s.len() as int)[i - p3 - 1]));
        }
    }
}

/// Reads the canonical octet `s[from..upto]`, when it is one.
fn parse_octet(s: &[u8], from: usize, upto: usize) -> (r: Option<u8>)
    requires
        from <= upto <= s@.len(),
    ensures
        match r {
            Some(v) => is_octet(s@.subrange(from as int, upto as int)) && v as int == digits_val(
                s@.subrange(from as int, upto as int),
            ),
            None => !is_octet(s@.subrange(from as int, upto as int)),
        },
{
    let ghost part = s@.subrange(from as int, upto as int);
    let len = upto - from;
    if len < 1 || len > 3 {
        return None;
    }
    if len > 1 && s[from] == 48 {
        return None;
    }
    let mut val: u32 = 0;
    let mut i: usize = from;
    while i < upto
        invariant
            from <= i <= upto <= s@.len(),
            upto - from <= 3,
            part == s@.subrange(from as int, upto as int),
            all_digits(s@.subrange(from as int, i as int)),
            val as int == digits_val(s@.subrange(from as int, i as int)),
            0 <= val,
        decreases upto - i,
    {
        let c = s[i];
        if c < 48 || c > 57 {
            proof {
                assert(part[i - from] == c);
            }
            return None;
        }
        proof {
            lemma_digits_val_bounds(s@.subrange(from as int, i as int));
        }
        val = val * 10 + (c - 48) as u32;
        i = i + 1;
        proof {
            let pref = s@.subrange(from as int, i as int);
            assert(pref.drop_last() =~= s@.subrange(from as int, i - 1));
            assert(pref.last() == c);
            assert(all_digits(pref)) by {
                assert(forall|j: int|
                    0 <= j < pref.len() ==> pref[j] == s@.subrange(from as int, i as int)[j]);
            }
        }
    }
    proof {
        assert(s@.subrange(from as int, i as int) =~= part);
    }
    if val > 255 {
        return None;
    }
    Some(val as u8)
}

/// The four octet values of a dotted-quad literal, when `s` is one.  The
/// dots of a literal sit at unique positions, so the choice is determined.
pub open spec fn parse_ipv4_spec(s: Seq<u8>) -> Option<Seq<u8>> {
    if exists|p1: int, p2: int, p3: int| is_ipv4_literal(s, p1, p2, p3) {
        let (p1, p2, p3) = choose|p1: int, p2: int, p3: int| is_ipv4_literal(s, p1, p2, p3);
        Some(
            seq![
                digits_val(s.subrange(0, p1)) as u8,
                digits_val(s.subrange(p1 + 1, p2)) as u8,
                digits_val(s.subrange(p2 + 1, p3)) as u8,
                digits_val(s.subrange(p3 + 1, s.len() as int)) as u8,
            ],
        )
    } else {
        None
    }
}

/// Reads a dotted-quad IPv4 literal.  Succeeds exactly on byte sequences
/// of the form `A.B.C.D` with each part a canonical decimal octet, and
/// returns the four octet values.
pub fn parse_ipv4_literal(s: &[u8]) -> (r: Option<[u8; 4]>)
    ensures
        match r {
            Some(oct) => parse_ipv4_spec(s@) == Some(oct@),
            None => parse_ipv4_spec(s@) is None,
        },
{
    let mut count: usize = 0;
    let mut q1: usize = 0;
    let mut q2: usize = 0;
    let mut q3: usize = 0;
    let mut i: usize = 0;
    while i < s.len()
        invariant
            i <= s@.len(),
            count <= 3,
            count >= 1 ==> q1 < i && s@[q1 as int] == 46,
            count >= 2 ==> q1 < q2 < i && s@[q2 as int] == 46,
            count >= 3 ==> q2 < q3 < i && s@[q3 as int] == 46,
            forall|j: int|
                0 <= j < i && s@[j] == 46 ==> ((count >= 1 && j == q1) || (count >= 2 && j == q2)
                    || (count >= 3 && j == q3)),
        decreases s@.len() - i,
    {
        if s[i] == 46 {
            if count == 0 {
                q1 = i;
            } else if count == 1 {
                q2 = i;
            } else if count == 2 {
                q3 = i;
            } else {
                proof {
                    assert forall|p1: int, p2: int, p3: int| !is_ipv4_literal(
                        s@,
                        p1,
                        p2,
                        p3,
                    ) by {
                        if is_ipv4_literal(s@, p1, p2, p3) {
                            lemma_literal_dots(s@, p1, p2, p3);
                        }
                    }
                }
                return None;
            }
            count = count + 1;
        }
        i = i + 1;
    }
    if count != 3 {
        proof {
            assert forall|p1: int, p2: int, p3: int| !is_ipv4_literal(s@, p1, p2, p3) by {
                if is_ipv4_literal(s@, p1, p2, p3) {
                    lemma_literal_dots(s@, p1, p2, p3);
                }
            }
        }
        return None;
    }
    proof {
        assert forall|p1: int, p2: int, p3: int|
            is_ipv4_literal(s@, p1, p2, p3) implies p1 == q1 as int && p2 == q2 as int && p3
            == q3 as int by {
            lemma_literal_dots(s@, p1, p2, p3);
            assert(s@[p1] == 46 && s@[p2] == 46 && s@[p3] == 46);
        }
    }
    let a = parse_octet(s, 0, q1);
    let b = parse_octet(s, q1 + 1, q2);
    let c = parse_octet(s, q2 + 1, q3);
    let d = parse_octet(s, q3 + 1, s.len());
    match (a, b, c, d) {
        (Some(a), Some(b), Some(c), Some(d)) => {
            let oct: [u8; 4] = [a, b, c, d];
            proof {
                assert(is_ipv4_literal(s@, q1 as int, q2 as int, q3 as int));
                let (c1, c2, c3) = choose|p1: int, p2: int, p3: int|
                    is_ipv4_literal(s@, p1, p2, p3);
                assert(c1 == q1 as int && c2 == q2 as int && c3 == q3 as int);
                assert(oct@ =~= seq![
                    digits_val(s@.subrange(0, c1)) as u8,
                    digits_val(s@.subrange(c1 + 1, c2)) as u8,
                    digits_val(s@.subrange(c2 + 1, c3)) as u8,
                    digits_val(s@.subrange(c3 + 1, s@.len() as int)) as u8,
                ]);
            }
            Some(oct)
        },
        _ => None,
    }
}

/// A hexadecimal digit byte.
pub open spec fn is_hex_digit(c: u8) -> bool {
    (48 <= c <= 57) || (97 <= c <= 102) || (65 <= c <= 70)
}

/// The value of one hexadecimal digit.
pub open spec fn hex_val(c: u8) -> int {
    if 48 <= c <= 57 {
        c - 48
    } else if 97 <= c <= 102 {
        c - 87
    } else {
        c - 55
    }
}

/// The value of a run of hexadecimal digits.
pub open spec fn hex_group_val(s: Seq<u8>) -> int
    decreases s.len(),
{
    if s.len() == 0 {
        0
    } else {
        hex_group_val(s.drop_last()) * 16 + hex_val(s.last())
    }
}

/// A group of an IPv6 literal: one to four hexadecimal digits.
pub open spec fn is_h16(s: Seq<u8>) -> bool {
    1 <= s.len() <= 4 && (forall|i: int| 0 <= i < s.len() ==> is_hex_digit(s[i]))
}

/// A run of up to four hexadecimal digits denotes at most 65535.
proof fn lemma_hex_group_bounds(s: Seq<u8>)
    requires
        forall|i: int| 0 <= i < s.len() ==> is_hex_digit(s[i]),
    ensures
        0 <= hex_group_val(s),
        s.len() <= 1 ==> hex_group_val(s) <= 15,
        s.len() <= 2 ==> hex_group_val(s) <= 255,
        s.len() <= 3 ==> hex_group_val(s) <= 4095,
        s.len() <= 4 ==> hex_group_val(s) <= 65535,
    decreases s.len(),
{
    if s.len() > 0 {
        assert(forall|i: int|
            0 <= i < s.drop_last().len() ==> s.drop_last()[i] == s[i] && is_hex_digit(s[i]));
        lemma_hex_group_bounds(s.drop_last());
    }
}

/// The two big-endian bytes of a group value.
pub open spec fn group_bytes(v: int) -> Seq<u8> {
    seq![(v / 256) as u8, (v % 256) as u8]
}

/// The position of the first colon at or after `i`.
pub open spec fn find_colon(s: Seq<u8>, i: int) -> Option<int>
    decreases s.len() - i,
{
    if i < 0 || i >= s.len() {
        None
    } else if s[i] == 58 {
        Some(i)
    } else {
        find_colon(s, i + 1)
    }
}

/// The position of the first "::" pair at or after `i`.
pub open spec fn find_dcolon(s: Seq<u8>, i: int) -> Option<int>
    decreases s.len() - i,
{
    if i < 0 || i + 1 >= s.len() {
        None
    } else if s[i] == 58 && s[i + 1] == 58 {
        Some(i)
    } else {
        find_dcolon(s, i + 1)
    }
}

/// The address bytes of a colon-separated list of groups: each group one
/// to four hexadecimal digits and, when `allow_v4`, the last group may
/// instead be a dotted-quad IPv4 literal.
pub open spec fn parse_groups(s: Seq<u8>, allow_v4: bool) -> Option<Seq<u8>>
    decreases s.len(),
{
    match find_colon(s, 0) {
        None => if is_h16(s) {
            Some(group_bytes(hex_group_val(s)))
        } else if allow_v4 {
            parse_ipv4_spec(s)
        } else {
            None
        },
        Some(j) => if 0 <= j < s.len() && is_h16(s.take(j)) {
            match parse_groups(s.skip(j + 1), allow_v4) {
                Some(rest) => Some(group_bytes(hex_group_val(s.take(j))) + rest),
                None => None,
            }
        } else {
            None
        },
    }
}

/// `n` zero bytes.
pub open spec fn zero_bytes(n: int) -> Seq<u8> {
    Seq::new(n as nat, |i: int| 0u8)
}

/// An IPv6 literal in the usual textual forms: colon-separated hexadecimal
/// groups making sixteen bytes, at most one "::" standing for the omitted
/// zero groups, and optionally a dotted-quad IPv4 literal as the last
/// group.  The value is the sixteen address bytes.
pub open spec fn parse_ipv6_spec(s: Seq<u8>) -> Option<Seq<u8>> {
    match find_dcolon(s, 0) {
        None => match parse_groups(s, true) {
            Some(b) => if b.len() == 16 {
                Some(b)
            } else {
                None
            },
            None => None,
        },
        Some(i) => {
            let head = s.take(i);
            let tail = s.skip(i + 2);
            let hb = if head.len() == 0 {
                Some(Seq::<u8>::empty())
            } else {
                parse_groups(head, false)
            };
            let tb = if tail.len() == 0 {
                Some(Seq::<u8>::empty())
            } else {
                parse_groups(tail, true)
            };
            match (hb, tb) {
                (Some(h), Some(t)) => if h.len() + t.len() <= 14 {
                    Some(h + zero_bytes(16 - h.len() - t.len()) + t)
                } else {
                    None
                },
                _ => None,
            }
        },
    }
}

/// The address bytes of an IP literal: four for a dotted quad, sixteen
/// for an IPv6 form.
pub open spec fn parse_ip_literal_spec(s: Seq<u8>) -> Option<Seq<u8>> {
    match parse_ipv4_spec(s) {
        Some(b) => Some(b),
        None => parse_ipv6_spec(s),
    }
}

/// The position of the first colon.
#[verifier::loop_isolation(false)]
fn find_colon_exec(s: &[u8]) -> (r: Option<usize>)
    ensures
        match r {
            Some(j) => find_colon(s@, 0) == Some(j as int) && j < s@.len() && s@[j as int] == 58,
            None => find_colon(s@, 0) is None,
        },
{
    let mut i: usize = 0;
    while i < s.len()
        invariant
            i <= s@.len(),
            find_colon(s@, 0) == find_colon(s@, i as int),
        decreases s@.len() - i,
    {
        if s[i] == 58 {
            return Some(i);
        }
        i = i + 1;
    }
    None
}

/// The position of the first "::" pair.
#[verifier::loop_isolation(false)]
fn find_dcolon_exec(s: &[u8]) -> (r: Option<usize>)
    ensures
        match r {
            Some(j) => find_dcolon(s@, 0) == Some(j as int) && j + 1 < s@.len() && s@[j as int]
                == 58 && s@[j as int + 1] == 58,
            None => find_dcolon(s@, 0) is None,
        },
{
    if s.len() == 0 {
        return None;
    }
    let mut i: usize = 0;
    while i + 1 < s.len()
        invariant
            i < s@.len(),
            find_dcolon(s@, 0) == find_dcolon(s@, i as int),
        decreases s@.len() - i,
    {
        if s[i] == 58 && s[i + 1] == 58 {
            return Some(i);
        }
        i = i + 1;
    }
    None
}

/// Reads a group of one to four hexadecimal digits.
#[verifier::loop_isolation(false)]
fn parse_h16(s: &[u8]) -> (r: Option<u16>)
    ensures
        match r {
            Some(v) => is_h16(s@) && v as int == hex_group_val(s@),
            None => !is_h16(s@),
        },
{
    if s.len() < 1 || s.len() > 4 {
        return None;
    }
    let mut val: u32 = 0;
    let mut i: usize = 0;
    while i < s.len()
        invariant
            i <= s@.len(),
            forall|j: int| 0 <= j < i ==> is_hex_digit(s@[j]),
            val as int == hex_group_val(s@.subrange(0, i as int)),
        decreases s@.len() - i,
    {
        let c = s[i];
        if !((48 <= c && c <= 57) || (97 <= c && c <= 102) || (65 <= c && c <= 70)) {
            proof {
                assert(!is_hex_digit(s@[i as int]));
            }
            return None;
        }
        let d: u32 = if c <= 57 {
            (c - 48) as u32
        } else if c >= 97 {
            (c - 87) as u32
        } else {
            (c - 55) as u32
        };
        proof {
            lemma_hex_group_bounds(s@.subrange(0, i as int));
        }
        val = val * 16 + d;
        i = i + 1;
        proof {
            let pref = s@.subrange(0, i as int);
            assert(pref.drop_last() =~= s@.subrange(0, i - 1));
            assert(pref.last() == c);
        }
    }
    proof {
        assert(s@.subrange(0, i as int) =~= s@);
        lemma_hex_group_bounds(s@);
    }
    Some(val as u16)
}

/// Reads a colon-separated group list, per `parse_groups`.
fn parse_groups_exec(s: &[u8], allow_v4: bool) -> (r: Option<Vec<u8>>)
    ensures
        match r {
            Some(v) => parse_groups(s@, allow_v4) == Some(v@),
            None => parse_groups(s@, allow_v4) is None,
        },
    decreases s@.len(),
{
    match find_colon_exec(s) {
        None => {
            match parse_h16(s) {
                Some(v) => {
                    let mut out: Vec<u8> = Vec::new();
                    out.push((v / 256) as u8);
                    out.push((v % 256) as u8);
                    proof {
                        assert(out@ =~= group_bytes(hex_group_val(s@)));
                    }
                    Some(out)
                },
                None => {
                    if allow_v4 {
                        match parse_ipv4_literal(s) {
                            Some(oct) => {
                                let mut out: Vec<u8> = Vec::new();
                                out.push(oct[0]);
                                out.push(oct[1]);
                                out.push(oct[2]);
                                out.push(oct[3]);
                                proof {
                                    assert(out@ =~= oct@);
                                }
                                Some(out)
                            },
                            None => None,
                        }
                    } else {
                        None
                    }
                },
            }
        },
        Some(j) => {
            match parse_h16(&s[0..j]) {
                Some(v) => {
                    let sub = &s[j + 1..s.len()];
                    proof {
                        assert(s@.subrange(0, j as int) =~= s@.take(j as int));
                        assert(sub@ =~= s@.skip(j + 1 as int));
                    }
                    match parse_groups_exec(sub, allow_v4) {
                        Some(rest) => {
                            let mut out: Vec<u8> = Vec::new();
                            out.push((v / 256) as u8);
                            out.push((v % 256) as u8);
                            let mut k: usize = 0;
                            while k < rest.len()
                                invariant
                                    k <= rest@.len(),
                                    out@ =~= group_bytes(hex_group_val(s@.take(j as int)))
                                        + rest@.subrange(0, k as int),
                                decreases rest@.len() - k,
                            {
                                out.push(rest[k]);
                                k = k + 1;
                            }
                            proof {
                                assert(rest@.subrange(0, rest@.len() as int) =~= rest@);
                                assert(out@ =~= group_bytes(hex_group_val(s@.take(j as int)))
                                    + rest@);
                            }
                            Some(out)
                        },
                        None => None,
                    }
                },
                None => {
                    proof {
                        assert(s@.subrange(0, j as int) =~= s@.take(j as int));
                    }
                    None
                },
            }
        },
    }
}

/// Sixteen bytes from a vector known to hold sixteen.
fn bytes16(v: &Vec<u8>) -> (r: [u8; 16])
    requires
        v@.len() == 16,
    ensures
        r@ == v@,
{
    let r: [u8; 16] = [
        v[0],
        v[1],
        v[2],
        v[3],
        v[4],
        v[5],
        v[6],
        v[7],
        v[8],
        v[9],
        v[10],
        v[11],
        v[12],
        v[13],
        v[14],
        v[15],
    ];
    proof {
        assert(r@ =~= v@);
    }
    r
}

/// Reads an IPv6 literal.  Succeeds exactly on the byte sequences that
/// `parse_ipv6_spec` accepts, and returns the sixteen address bytes.
pub fn parse_ipv6_literal(s: &[u8]) -> (r: Option<[u8; 16]>)
    ensures
        match r {
            Some(b) => parse_ipv6_spec(s@) == Some(b@),
            None => parse_ipv6_spec(s@) is None,
        },
{
    match find_dcolon_exec(s) {
        None => {
            match parse_groups_exec(s, true) {
                Some(v) => {
                    if v.len() == 16 {
                        Some(bytes16(&v))
                    } else {
                        None
                    }
                },
                None => None,
            }
        },
        Some(i) => {
            let n = s.len();
            let head = &s[0..i];
            let tail = &s[i + 2..n];
            proof {
                assert(head@ =~= s@.take(i as int));
                assert(tail@ =~= s@.skip(i + 2));
            }
            let hb: Option<Vec<u8>> = if head.len() == 0 {
                Some(Vec::new())
            } else {
                parse_groups_exec(head, false)
            };
            let tb: Option<Vec<u8>> = if tail.len() == 0 {
                Some(Vec::new())
            } else {
                parse_groups_exec(tail, true)
            };
            match (hb, tb) {
                (Some(h), Some(t)) => {
                    let hl = h.len();
                    let tl = t.len();
                    if hl <= 14 && tl <= 14 - hl {
                        let ghost hs = h@;
                        let ghost ts = t@;
                        let mut v = h;
                        let zeros = 16 - hl - tl;
                        let mut z: usize = 0;
                        while z < zeros
                            invariant
                                z <= zeros,
                                v@ =~= hs + zero_bytes(z as int),
                            decreases zeros - z,
                        {
                            v.push(0);
                            z = z + 1;
                        }
                        let mut k: usize = 0;
                        while k < t.len()
                            invariant
                                k <= ts.len(),
                                t@ == ts,
                                v@ =~= hs + zero_bytes(zeros as int) + ts.subrange(0, k as int),
                            decreases ts.len() - k,
                        {
                            v.push(t[k]);
                            k = k + 1;
                        }
                        proof {
                            assert(ts.subrange(0, ts.len() as int) =~= ts);
                            assert(v@ =~= hs + zero_bytes(16 - hs.len() - ts.len()) + ts);
                            assert(v@.len() == 16);
                        }
                        Some(bytes16(&v))
                    } else {
                        None
                    }
                },
                _ => None,
            }
        },
    }
}

impl CfgAddr {
    /// The destination this configuration entry names: the parsed IPv4 or
    /// IPv6 literal, or the hostname awaiting resolution.  Exactly one of
    /// the two must be set; an unparsable literal, an empty or oversized
    /// or non-UTF-8 hostname, and a doubly- or un-set address are refused.
    pub fn into_addr(self) -> (r: Result<ReqAddr, Error>)
        ensures
            match (self.ip, self.domain) {
                (Some(ip), None) => match r {
                    Ok(a) => (parse_ip_literal_spec(ip@) matches Some(oct) && a@
                        == (ReqAddrView::Ip { ip: oct, port: self.port })),
                    Err(e) => e == Error::InvalidConfig && parse_ip_literal_spec(ip@) is None,
                },
                (None, Some(d)) => match r {
                    Ok(a) => a@ == (ReqAddrView::Domain { name: d@, port: self.port }) && 1
                        <= d@.len() <= 255 && valid_utf8(d@),
                    Err(e) => e == Error::InvalidConfig && !(1 <= d@.len() <= 255 && valid_utf8(
                        d@,
                    )),
                },
                _ => r matches Err(e) && e == Error::InvalidConfig,
            },
    {
        match (self.ip, self.domain) {
            (Some(ip), None) => {
                match parse_ipv4_literal(ip.as_slice()) {
                    Some(oct) => Ok(
                        ReqAddr::IP(SocketAddress::V4 { ip: oct, port: self.port }),
                    ),
                    None => match parse_ipv6_literal(ip.as_slice()) {
                        Some(oct) => Ok(
                            ReqAddr::IP(SocketAddress::V6 { ip: oct, port: self.port }),
                        ),
                        None => Err(Error::InvalidConfig),
                    },
                }
            },
            (None, Some(d)) => {
                if d.len() < 1 || d.len() > 255 {
                    return Err(Error::InvalidConfig);
                }
                if !utf8_check(d.as_slice()) {
                    return Err(Error::InvalidConfig);
                }
                Ok(ReqAddr::Domain(d, self.port))
            },
            _ => Err(Error::InvalidConfig),
        }
    }
}

} // verus!

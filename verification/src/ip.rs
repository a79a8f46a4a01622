//! IP header and IP data stages.
//!
//! The IP-version marker (`4` or `6`) selects the header sub-grammar and the
//! textual grammar of the source and destination addresses: dotted-quad
//! decimal for IPv4 (four octets, no leading zeros), colon-separated groups
//! of one to four hex digits for IPv6, with at most one `::` run standing
//! for one or more zero groups. An address token that fails to parse under
//! the family implied by the version marker is an error even if it would be
//! valid under the other family.

use vstd::prelude::*;
use crate::field::{
    SyntaxError, all_dec_digits, all_hex_digits, all_alnum, dec_val, hex_val, is_hex_digit,
    split_parts, spec_token, tok_len, spec_field, spec_dec_field, spec_hex_u8_field,
    spec_opt_alnum_field, spec_alnum_field, spec_text_field, dec_of_tok, split_on, token_prefix,
    split_field, dec_field, hex_u8_field, opt_alnum_field, alnum_field, text_field, fld,
};
use crate::protocol::{Protocol, ProtocolView, spec_proto_name, proto_name_of_tok};

verus! {

/// An IPv4 address as its four octets.
#[derive(Debug, Clone, Copy, PartialEq, Eq, Structural)]
pub struct Ipv4Address(pub u8, pub u8, pub u8, pub u8);

/// An IPv6 address as its eight 16-bit groups.
#[derive(Debug, Clone, Copy, PartialEq, Eq, Structural)]
pub struct Ipv6Address(
    pub u16,
    pub u16,
    pub u16,
    pub u16,
    pub u16,
    pub u16,
    pub u16,
    pub u16,
);

/// A source or destination address of either family.
#[derive(Debug, Clone, Copy, PartialEq, Eq, Structural)]
pub enum IpAddress {
    V4(Ipv4Address),
    V6(Ipv6Address),
}

/// Value of a dotted-quad octet token.
pub open spec fn octet_val(g: Seq<char>) -> u8 {
    dec_val(g) as u8
}

/// A dotted-quad octet: one to three digits, no leading zero except for
/// `0` itself, value at most 255.
pub open spec fn spec_octet_ok(g: Seq<char>) -> bool {
    &&& g.len() > 0
    &&& all_dec_digits(g)
    &&& (g.len() == 1 || g[0] != '0')
    &&& dec_val(g) <= 255
}

pub open spec fn spec_octet(g: Seq<char>) -> Option<u8> {
    if spec_octet_ok(g) {
        Some(octet_val(g))
    } else {
        None
    }
}

/// An IPv4 address token: exactly four octets separated by dots.
pub open spec fn spec_ipv4_addr(t: Seq<char>) -> Option<Ipv4Address> {
    let p = split_parts(t, '.');
    if p.len() == 4 && spec_octet_ok(p[0]) && spec_octet_ok(p[1]) && spec_octet_ok(p[2])
        && spec_octet_ok(p[3]) {
        Some(Ipv4Address(octet_val(p[0]), octet_val(p[1]), octet_val(p[2]), octet_val(p[3])))
    } else {
        None
    }
}

/// Value of an IPv6 group token.
pub open spec fn group_val(g: Seq<char>) -> u16 {
    hex_val(g) as u16
}

/// An IPv6 group: one to four hex digits.
pub open spec fn spec_group_ok(g: Seq<char>) -> bool {
    1 <= g.len() <= 4 && all_hex_digits(g)
}

pub open spec fn groups_ok(p: Seq<Seq<char>>) -> bool {
    forall|i: int| 0 <= i < p.len() ==> spec_group_ok(#[trigger] p[i])
}

/// The group values of a run of group tokens.
pub open spec fn group_vals(p: Seq<Seq<char>>) -> Seq<u16> {
    Seq::new(p.len(), |i: int| group_val(p[i]))
}

pub open spec fn all_parts_nonempty(p: Seq<Seq<char>>) -> bool {
    forall|i: int| 0 <= i < p.len() ==> (#[trigger] p[i]).len() > 0
}

/// Index of the first empty part, or the length if every part is nonempty.
pub open spec fn first_empty(p: Seq<Seq<char>>) -> int
    decreases p.len(),
{
    if p.len() == 0 {
        0
    } else if p[0].len() == 0 {
        0
    } else {
        1 + first_empty(p.skip(1))
    }
}

pub proof fn lemma_first_empty(p: Seq<Seq<char>>)
    ensures
        0 <= first_empty(p) <= p.len(),
        first_empty(p) < p.len() ==> p[first_empty(p)].len() == 0,
        forall|k: int| 0 <= k < first_empty(p) ==> (#[trigger] p[k]).len() > 0,
    decreases p.len(),
{
    if p.len() == 0 || p[0].len() == 0 {
    } else {
        lemma_first_empty(p.skip(1));
        assert forall|k: int| 0 <= k < first_empty(p) implies (#[trigger] p[k]).len() > 0 by {
            if k > 0 {
                assert(p.skip(1)[k - 1].len() > 0);
            }
        }
    }
}

/// The address built from exactly eight group values.
pub open spec fn addr_of_groups(g: Seq<u16>) -> Ipv6Address {
    Ipv6Address(g[0], g[1], g[2], g[3], g[4], g[5], g[6], g[7])
}

/// An IPv6 address token: eight colon-separated groups, or fewer groups
/// with a single `::` run standing for the missing (all-zero) groups.
pub open spec fn spec_ipv6_addr(t: Seq<char>) -> Option<Ipv6Address> {
    let p = split_parts(t, ':');
    let n = p.len() as int;
    let e = first_empty(p);
    if e == n {
        // no empty group token: a full eight-group address
        if n == 8 && groups_ok(p) {
            Some(addr_of_groups(group_vals(p)))
        } else {
            None
        }
    } else if n == 3 && p[0].len() == 0 && p[1].len() == 0 && p[2].len() == 0 {
        // `::` alone: the all-zero address
        Some(addr_of_groups(Seq::new(8nat, |i: int| 0u16)))
    } else if e == 0 {
        // a leading `::`: the two leading parts are empty
        if n >= 3 && p[1].len() == 0 && all_parts_nonempty(p.skip(2)) && n - 2 <= 7 && groups_ok(
            p.skip(2),
        ) {
            Some(addr_of_groups(Seq::new((8 - (n - 2)) as nat, |i: int| 0u16) + group_vals(p.skip(2))))
        } else {
            None
        }
    } else if e == n - 1 {
        // a single trailing colon
        None
    } else if e == n - 2 && p[n - 1].len() == 0 {
        // a trailing `::`: the two trailing parts are empty
        if all_parts_nonempty(p.take(n - 2)) && n - 2 <= 7 && groups_ok(p.take(n - 2)) {
            Some(addr_of_groups(group_vals(p.take(n - 2)) + Seq::new((8 - (n - 2)) as nat, |i: int| 0u16)))
        } else {
            None
        }
    } else {
        // an inner `::`: exactly one empty part strictly inside
        if all_parts_nonempty(p.skip(e + 1)) && n - 1 <= 7 && groups_ok(p.take(e)) && groups_ok(
            p.skip(e + 1),
        ) {
            Some(
                addr_of_groups(
                    group_vals(p.take(e)) + Seq::new((8 - (n - 1)) as nat, |i: int| 0u16) + group_vals(
                        p.skip(e + 1),
                    ),
                ),
            )
        } else {
            None
        }
    }
}

pub open spec fn pow16(n: nat) -> int
    decreases n,
{
    if n == 0 {
        1
    } else {
        16 * pow16((n - 1) as nat)
    }
}

pub proof fn lemma_hex_val_ub(g: Seq<char>)
    requires
        all_hex_digits(g),
    ensures
        hex_val(g) < pow16(g.len()),
    decreases g.len(),
{
    if g.len() > 0 {
        assert(is_hex_digit(g[g.len() - 1]));
        assert forall|i: int| 0 <= i < g.drop_last().len() implies is_hex_digit(
            #[trigger] g.drop_last()[i],
        ) by {
            assert(g.drop_last()[i] == g[i]);
        }
        lemma_hex_val_ub(g.drop_last());
    }
}

/// A valid group's value fits in sixteen bits.
pub proof fn lemma_group_bound(g: Seq<char>)
    requires
        spec_group_ok(g),
    ensures
        0 <= hex_val(g) <= 0xffff,
{
    crate::field::lemma_hex_val_nonneg(g);
    lemma_hex_val_ub(g);
    assert(pow16(0) == 1);
    assert(pow16(1) == 16);
    assert(pow16(2) == 256);
    assert(pow16(3) == 4096);
    assert(pow16(4) == 65536);
}

/// Decodes a dotted-quad octet token.
fn octet_of_tok(g: &str) -> (r: Option<u8>)
    ensures
        match r {
            Some(v) => spec_octet(g@) == Some(v),
            None => spec_octet(g@) is None,
        },
{
    if g.unicode_len() > 1 && g.get_char(0) == '0' {
        return None;
    }
    match dec_of_tok(g, 255) {
        Some(v) => Some(v as u8),
        None => None,
    }
}

/// Decodes an IPv6 group token.
fn hex_group_of_tok(g: &str) -> (r: Option<u16>)
    ensures
        match r {
            Some(v) => spec_group_ok(g@) && v == group_val(g@),
            None => !spec_group_ok(g@),
        },
{
    let len = g.unicode_len();
    if len < 1 || len > 4 {
        return None;
    }
    let mut i: usize = 0;
    let mut acc: u32 = 0;
    while i < len
        invariant
            0 <= i <= len,
            len == g@.len(),
            len <= 4,
            all_hex_digits(g@.take(i as int)),
            acc == hex_val(g@.take(i as int)),
            acc <= 0xffff,
        decreases len - i,
    {
        let c = g.get_char(i);
        let d = c as u32;
        let dv: u32 = if '0' as u32 <= d && d <= '9' as u32 {
            d - '0' as u32
        } else if 'a' as u32 <= d && d <= 'f' as u32 {
            d - 'a' as u32 + 10
        } else if 'A' as u32 <= d && d <= 'F' as u32 {
            d - 'A' as u32 + 10
        } else {
            assert(!is_hex_digit(g@[i as int]));
            return None;
        };
        proof {
            assert(g@.take(i as int + 1).drop_last() =~= g@.take(i as int));
            assert(g@.take(i as int + 1).last() == g@[i as int]);
            assert(all_hex_digits(g@.take(i as int + 1)));
            lemma_group_bound(g@.take(i as int + 1));
        }
        acc = acc * 16 + dv;
        i += 1;
    }
    proof {
        assert(g@.take(len as int) =~= g@);
    }
    Some(acc as u16)
}

/// Decodes a whole token as an IPv4 address.
fn ipv4_of_tok(t: &str) -> (r: Option<Ipv4Address>)
    ensures
        match r {
            Some(a) => spec_ipv4_addr(t@) == Some(a),
            None => spec_ipv4_addr(t@) is None,
        },
{
    let parts = split_on(t, '.');
    if parts.len() != 4 {
        return None;
    }
    let a = match octet_of_tok(parts[0]) {
        Some(v) => v,
        None => {
            return None;
        },
    };
    let b = match octet_of_tok(parts[1]) {
        Some(v) => v,
        None => {
            return None;
        },
    };
    let c = match octet_of_tok(parts[2]) {
        Some(v) => v,
        None => {
            return None;
        },
    };
    let d = match octet_of_tok(parts[3]) {
        Some(v) => v,
        None => {
            return None;
        },
    };
    Some(Ipv4Address(a, b, c, d))
}

/// Index of the first empty part of `parts`, or its length if none.
fn find_first_empty(parts: &Vec<&str>, Ghost(p): Ghost<Seq<Seq<char>>>) -> (r: usize)
    requires
        p.len() == parts@.len(),
        forall|i: int| 0 <= i < p.len() ==> parts@[i]@ == p[i],
    ensures
        r == first_empty(p),
{
    proof {
        lemma_first_empty(p);
    }
    let n = parts.len();
    let mut i: usize = 0;
    while i < n
        invariant
            0 <= i <= n,
            n == p.len(),
            p.len() == parts@.len(),
            forall|i2: int| 0 <= i2 < p.len() ==> parts@[i2]@ == p[i2],
            forall|k: int| 0 <= k < i ==> (#[trigger] p[k]).len() > 0,
        decreases n - i,
    {
        if parts[i].unicode_len() == 0 {
            proof {
                lemma_first_empty(p);
                if i < first_empty(p) {
                    assert(p[i as int].len() > 0);
                }
                if i > first_empty(p) {
                    assert(p[first_empty(p)].len() > 0);
                }
            }
            return i;
        }
        i += 1;
    }
    proof {
        lemma_first_empty(p);
        if first_empty(p) < p.len() {
            assert(p[first_empty(p)].len() > 0);
        }
    }
    i
}

/// Whether every part in `[from, to)` is nonempty.
fn all_nonempty_in(parts: &Vec<&str>, from: usize, to: usize, Ghost(p): Ghost<Seq<Seq<char>>>) -> (r:
    bool)
    requires
        from <= to <= parts@.len(),
        p.len() == parts@.len(),
        forall|i: int| 0 <= i < p.len() ==> parts@[i]@ == p[i],
    ensures
        r == all_parts_nonempty(p.subrange(from as int, to as int)),
{
    let ghost q = p.subrange(from as int, to as int);
    let mut i: usize = from;
    while i < to
        invariant
            from <= i <= to <= parts@.len(),
            p.len() == parts@.len(),
            q == p.subrange(from as int, to as int),
            forall|i2: int| 0 <= i2 < p.len() ==> parts@[i2]@ == p[i2],
            forall|k: int| 0 <= k < i - from ==> (#[trigger] q[k]).len() > 0,
        decreases to - i,
    {
        if parts[i].unicode_len() == 0 {
            proof {
                assert(q[i - from as int].len() == 0);
            }
            return false;
        }
        proof {
            assert(q[i - from as int] == p[i as int]);
        }
        i += 1;
    }
    true
}

/// Decodes the parts in `[from, to)` as IPv6 groups.
fn collect_groups(
    parts: &Vec<&str>,
    from: usize,
    to: usize,
    Ghost(p): Ghost<Seq<Seq<char>>>,
) -> (r: Option<Vec<u16>>)
    requires
        from <= to <= parts@.len(),
        p.len() == parts@.len(),
        forall|i: int| 0 <= i < p.len() ==> parts@[i]@ == p[i],
    ensures
        match r {
            Some(v) => groups_ok(p.subrange(from as int, to as int)) && v@ == group_vals(
                p.subrange(from as int, to as int),
            ),
            None => !groups_ok(p.subrange(from as int, to as int)),
        },
{
    let ghost q = p.subrange(from as int, to as int);
    let mut out: Vec<u16> = Vec::new();
    let mut i: usize = from;
    while i < to
        invariant
            from <= i <= to <= parts@.len(),
            p.len() == parts@.len(),
            q == p.subrange(from as int, to as int),
            forall|i2: int| 0 <= i2 < p.len() ==> parts@[i2]@ == p[i2],
            out@.len() == i - from,
            forall|k: int|
                0 <= k < i - from ==> spec_group_ok(#[trigger] q[k]) && out@[k] == group_val(q[k]),
        decreases to - i,
    {
        proof {
            assert(q[i - from as int] == p[i as int]);
        }
        match hex_group_of_tok(parts[i]) {
            Some(v) => {
                out.push(v);
            },
            None => {
                proof {
                    assert(!spec_group_ok(q[i - from as int]));
                }
                return None;
            },
        }
        i += 1;
    }
    proof {
        assert(out@ =~= group_vals(q));
    }
    Some(out)
}

/// Builds `left`, then zero groups up to eight in all, then `right`.
fn assemble_groups(left: &Vec<u16>, right: &Vec<u16>) -> (r: Vec<u16>)
    requires
        left@.len() + right@.len() <= 8,
    ensures
        r@.len() == 8,
        r@ == left@ + Seq::new((8 - left@.len() - right@.len()) as nat, |i: int| 0u16) + right@,
{
    let nl = left.len();
    let nr = right.len();
    let mut out: Vec<u16> = Vec::new();
    let mut i: usize = 0;
    while i < nl
        invariant
            0 <= i <= nl,
            nl == left@.len(),
            nr == right@.len(),
            nl + nr <= 8,
            out@ == left@.take(i as int),
        decreases nl - i,
    {
        out.push(left[i]);
        proof {
            assert(out@ =~= left@.take(i as int + 1));
        }
        i += 1;
    }
    let nz = 8 - nl - nr;
    let mut z: usize = 0;
    while z < nz
        invariant
            0 <= z <= nz,
            nl == left@.len(),
            nr == right@.len(),
            nl + nr <= 8,
            nz == 8 - nl - nr,
            out@ == left@ + Seq::new(z as nat, |i: int| 0u16),
        decreases nz - z,
    {
        out.push(0);
        proof {
            assert(out@ =~= left@ + Seq::new((z + 1) as nat, |i: int| 0u16));
        }
        z += 1;
    }
    let mut j: usize = 0;
    while j < nr
        invariant
            0 <= j <= nr,
            nl == left@.len(),
            nr == right@.len(),
            nl + nr <= 8,
            nz == 8 - nl - nr,
            out@ == left@ + Seq::new(nz as nat, |i: int| 0u16) + right@.take(j as int),
        decreases nr - j,
    {
        out.push(right[j]);
        proof {
            assert(out@ =~= left@ + Seq::new(nz as nat, |i: int| 0u16) + right@.take(j as int + 1));
        }
        j += 1;
    }
    proof {
        assert(left@.take(nl as int) =~= left@);
        assert(right@.take(nr as int) =~= right@);
        assert(out@ =~= left@ + Seq::new((8 - left@.len() - right@.len()) as nat, |i: int| 0u16) + right@);
    }
    out
}

/// The address with the eight group values of `g`.
fn addr_from_vec(g: &Vec<u16>) -> (r: Ipv6Address)
    requires
        g@.len() == 8,
    ensures
        r == addr_of_groups(g@),
{
    Ipv6Address(g[0], g[1], g[2], g[3], g[4], g[5], g[6], g[7])
}

/// Decodes a whole token as an IPv6 address.
fn ipv6_of_tok(t: &str) -> (r: Option<Ipv6Address>)
    ensures
        match r {
            Some(a) => spec_ipv6_addr(t@) == Some(a),
            None => spec_ipv6_addr(t@) is None,
        },
{
    let parts = split_on(t, ':');
    let ghost p = split_parts(t@, ':');
    let np = parts.len();
    let fe = find_first_empty(&parts, Ghost(p));
    proof {
        lemma_first_empty(p);
    }
    if fe == np {
        // no empty group token: a full eight-group address
        if np != 8 {
            return None;
        }
        match collect_groups(&parts, 0, 8, Ghost(p)) {
            Some(g) => {
                proof {
                    assert(p.subrange(0, 8) =~= p);
                }
                Some(addr_from_vec(&g))
            },
            None => {
                proof {
                    assert(p.subrange(0, 8) =~= p);
                }
                None
            },
        }
    } else if np == 3 && parts[0].unicode_len() == 0 && parts[1].unicode_len() == 0
        && parts[2].unicode_len() == 0 {
        // `::` alone
        let zeros: Vec<u16> = Vec::new();
        let g = assemble_groups(&zeros, &zeros);
        proof {
            assert(g@ =~= Seq::new(8nat, |i: int| 0u16));
        }
        Some(addr_from_vec(&g))
    } else if fe == 0 {
        // a leading `::`
        if np < 3 || np - 2 > 7 {
            return None;
        }
        if parts[1].unicode_len() != 0 {
            return None;
        }
        if !all_nonempty_in(&parts, 2, np, Ghost(p)) {
            proof {
                assert(p.subrange(2, np as int) =~= p.skip(2));
            }
            return None;
        }
        match collect_groups(&parts, 2, np, Ghost(p)) {
            Some(right) => {
                let empty: Vec<u16> = Vec::new();
                let g = assemble_groups(&empty, &right);
                proof {
                    assert(p.subrange(2, np as int) =~= p.skip(2));
                    assert(g@ =~= Seq::new((8 - (np - 2)) as nat, |i: int| 0u16) + group_vals(p.skip(2)));
                }
                Some(addr_from_vec(&g))
            },
            None => {
                proof {
                    assert(p.subrange(2, np as int) =~= p.skip(2));
                }
                None
            },
        }
    } else if fe == np - 1 {
        // a single trailing colon
        None
    } else if fe == np - 2 && parts[np - 1].unicode_len() == 0 {
        // a trailing `::`
        if np - 2 > 7 {
            return None;
        }
        if !all_nonempty_in(&parts, 0, np - 2, Ghost(p)) {
            proof {
                assert(p.subrange(0, np - 2) =~= p.take(np - 2));
            }
            return None;
        }
        match collect_groups(&parts, 0, np - 2, Ghost(p)) {
            Some(left) => {
                let empty: Vec<u16> = Vec::new();
                let g = assemble_groups(&left, &empty);
                proof {
                    assert(p.subrange(0, np - 2) =~= p.take(np - 2));
                    assert(g@ =~= group_vals(p.take(np - 2)) + Seq::new(
                        (8 - (np - 2)) as nat,
                        |i: int| 0u16,
                    ));
                }
                Some(addr_from_vec(&g))
            },
            None => {
                proof {
                    assert(p.subrange(0, np - 2) =~= p.take(np - 2));
                }
                None
            },
        }
    } else {
        // an inner `::`
        if np - 1 > 7 {
            return None;
        }
        if !all_nonempty_in(&parts, fe + 1, np, Ghost(p)) {
            proof {
                assert(p.subrange(fe + 1, np as int) =~= p.skip(fe + 1));
            }
            return None;
        }
        let left = match collect_groups(&parts, 0, fe, Ghost(p)) {
            Some(v) => v,
            None => {
                proof {
                    assert(p.subrange(0, fe as int) =~= p.take(fe as int));
                }
                return None;
            },
        };
        let right = match collect_groups(&parts, fe + 1, np, Ghost(p)) {
            Some(v) => v,
            None => {
                proof {
                    assert(p.subrange(0, fe as int) =~= p.take(fe as int));
                    assert(p.subrange(fe + 1, np as int) =~= p.skip(fe + 1));
                }
                return None;
            },
        };
        let g = assemble_groups(&left, &right);
        proof {
            assert(p.subrange(0, fe as int) =~= p.take(fe as int));
            assert(p.subrange(fe + 1, np as int) =~= p.skip(fe + 1));
            assert(g@ =~= group_vals(p.take(fe as int)) + Seq::new(
                (8 - (np - 1)) as nat,
                |i: int| 0u16,
            ) + group_vals(p.skip(fe + 1)));
        }
        Some(addr_from_vec(&g))
    }
}

/// An IPv4 address token read up to (not including) the next comma.
pub open spec fn spec_parse_ipv4_addr(s: Seq<char>) -> Option<(Ipv4Address, Seq<char>)> {
    match spec_ipv4_addr(spec_token(s)) {
        Some(a) => Some((a, s.skip(tok_len(s)))),
        None => None,
    }
}

/// An IPv6 address token read up to (not including) the next comma.
pub open spec fn spec_parse_ipv6_addr(s: Seq<char>) -> Option<(Ipv6Address, Seq<char>)> {
    match spec_ipv6_addr(spec_token(s)) {
        Some(a) => Some((a, s.skip(tok_len(s)))),
        None => None,
    }
}

/// Reads a dotted-quad IPv4 address without consuming the delimiter after
/// it.
pub fn parse_ipv4_addr<'a>(input: &'a str) -> (r: Result<(&'a str, Ipv4Address), SyntaxError>)
    ensures
        match r {
            Ok((rest, a)) => spec_parse_ipv4_addr(input@) == Some((a, rest@)),
            Err(e) => spec_parse_ipv4_addr(input@) is None,
        },
{
    let (t, rest) = token_prefix(input);
    match ipv4_of_tok(t) {
        Some(a) => Ok((rest, a)),
        None => Err(SyntaxError),
    }
}

/// Reads a colon-hex IPv6 address without consuming the delimiter after it.
pub fn parse_ipv6_addr<'a>(input: &'a str) -> (r: Result<(&'a str, Ipv6Address), SyntaxError>)
    ensures
        match r {
            Ok((rest, a)) => spec_parse_ipv6_addr(input@) == Some((a, rest@)),
            Err(e) => spec_parse_ipv6_addr(input@) is None,
        },
{
    let (t, rest) = token_prefix(input);
    match ipv6_of_tok(t) {
        Some(a) => Ok((rest, a)),
        None => Err(SyntaxError),
    }
}

/// The IPv4-specific header fields.
#[derive(Debug, Clone, PartialEq, Eq)]
pub struct IpV4 {
    pub version: u8,
    pub tos: u8,
    pub ecn: Option<String>,
    pub ttl: u8,
    pub id: u16,
    pub offset: u16,
    pub flags: String,
}

/// Mathematical image of an [`IpV4`].
#[verifier::ext_equal]
pub ghost struct IpV4View {
    pub version: u8,
    pub tos: u8,
    pub ecn: Option<Seq<char>>,
    pub ttl: u8,
    pub id: u16,
    pub offset: u16,
    pub flags: Seq<char>,
}

impl View for IpV4 {
    type V = IpV4View;

    open spec fn view(&self) -> IpV4View {
        IpV4View {
            version: self.version,
            tos: self.tos,
            ecn: match self.ecn {
                Some(e) => Some(e@),
                None => None,
            },
            ttl: self.ttl,
            id: self.id,
            offset: self.offset,
            flags: self.flags@,
        }
    }
}

/// The IPv6-specific header fields.
#[derive(Debug, Clone, PartialEq, Eq)]
pub struct IpV6 {
    pub traffic_class: u8,
    pub flow_label: String,
    pub hoplimit: u8,
}

/// Mathematical image of an [`IpV6`].
#[verifier::ext_equal]
pub ghost struct IpV6View {
    pub traffic_class: u8,
    pub flow_label: Seq<char>,
    pub hoplimit: u8,
}

impl View for IpV6 {
    type V = IpV6View;

    open spec fn view(&self) -> IpV6View {
        IpV6View {
            traffic_class: self.traffic_class,
            flow_label: self.flow_label@,
            hoplimit: self.hoplimit,
        }
    }
}

/// The version-specific part of the IP header.
#[derive(Debug, Clone, PartialEq, Eq)]
pub enum IpSpecific {
    IpV4(IpV4),
    Ipv6(IpV6),
}

/// Mathematical image of an [`IpSpecific`].
pub ghost enum IpSpecificView {
    IpV4(IpV4View),
    Ipv6(IpV6View),
}

impl View for IpSpecific {
    type V = IpSpecificView;

    open spec fn view(&self) -> IpSpecificView {
        match self {
            IpSpecific::IpV4(v) => IpSpecificView::IpV4(v@),
            IpSpecific::Ipv6(v) => IpSpecificView::Ipv6(v@),
        }
    }
}

/// Packet length and source/destination addresses.
#[derive(Debug, Clone, Copy, PartialEq, Eq, Structural)]
pub struct IpData {
    pub length: u16,
    pub src: IpAddress,
    pub dst: IpAddress,
}

/// An address of the family selected by the version decided earlier.
pub open spec fn spec_addr_tok(t: Seq<char>, v4: bool) -> Option<IpAddress> {
    if v4 {
        match spec_ipv4_addr(t) {
            Some(a) => Some(IpAddress::V4(a)),
            None => None,
        }
    } else {
        match spec_ipv6_addr(t) {
            Some(a) => Some(IpAddress::V6(a)),
            None => None,
        }
    }
}

/// The source and destination address fields: address token, comma,
/// address token, comma, with the textual grammar selected by `v4`.
pub open spec fn spec_src_dst_addr(s: Seq<char>, v4: bool) -> Option<
    ((IpAddress, IpAddress), Seq<char>),
> {
    match spec_field(s) {
        Some((t1, s1)) => match spec_addr_tok(t1, v4) {
            Some(src) => match spec_field(s1) {
                Some((t2, s2)) => match spec_addr_tok(t2, v4) {
                    Some(dst) => Some(((src, dst), s2)),
                    None => None,
                },
                None => None,
            },
            None => None,
        },
        None => None,
    }
}

/// The IP data stage: total length, then the two addresses.
pub open spec fn spec_ip_data(s: Seq<char>, v4: bool) -> Option<(IpData, Seq<char>)> {
    match spec_dec_field(s, u16::MAX as int) {
        Some((length, s1)) => match spec_src_dst_addr(s1, v4) {
            Some(((src, dst), s2)) => Some((IpData { length: length as u16, src, dst }, s2)),
            None => None,
        },
        None => None,
    }
}

/// The IPv4 header sub-grammar, yielding the protocol identity as well:
/// type of service, optional ECN, TTL, identification, fragment offset,
/// flags, protocol number, protocol name.
pub open spec fn spec_ipv4_header(s: Seq<char>) -> Option<
    ((ProtocolView, IpSpecificView), Seq<char>),
> {
    match spec_hex_u8_field(s) {
        Some((tos, s1)) => match spec_opt_alnum_field(s1) {
            Some((ecn, s2)) => match spec_dec_field(s2, u8::MAX as int) {
                Some((ttl, s3)) => match spec_dec_field(s3, u16::MAX as int) {
                    Some((id, s4)) => match spec_dec_field(s4, u16::MAX as int) {
                        Some((offset, s5)) => match spec_alnum_field(s5) {
                            Some((flags, s6)) => match spec_dec_field(s6, u8::MAX as int) {
                                Some((protonum, s7)) => match spec_alnum_field(s7) {
                                    Some((protoname, s8)) => Some(
                                        (
                                            (
                                                ProtocolView {
                                                    num: protonum as u8,
                                                    name: spec_proto_name(protoname),
                                                },
                                                IpSpecificView::IpV4(
                                                    IpV4View {
                                                        version: 4,
                                                        tos,
                                                        ecn,
                                                        ttl: ttl as u8,
                                                        id: id as u16,
                                                        offset: offset as u16,
                                                        flags,
                                                    },
                                                ),
                                            ),
                                            s8,
                                        ),
                                    ),
                                    None => None,
                                },
                                None => None,
                            },
                            None => None,
                        },
                        None => None,
                    },
                    None => None,
                },
                None => None,
            },
            None => None,
        },
        None => None,
    }
}

/// The IPv6 header sub-grammar, yielding the protocol identity as well:
/// traffic class, flow label, hop limit, then protocol name (free text)
/// before protocol number, unlike the IPv4 ordering.
pub open spec fn spec_ipv6_header(s: Seq<char>) -> Option<
    ((ProtocolView, IpSpecificView), Seq<char>),
> {
    match spec_hex_u8_field(s) {
        Some((traffic_class, s1)) => match spec_alnum_field(s1) {
            Some((flow_label, s2)) => match spec_dec_field(s2, u8::MAX as int) {
                Some((hoplimit, s3)) => match spec_text_field(s3) {
                    Some((protoname, s4)) => match spec_dec_field(s4, u8::MAX as int) {
                        Some((protonum, s5)) => Some(
                            (
                                (
                                    ProtocolView {
                                        num: protonum as u8,
                                        name: spec_proto_name(protoname),
                                    },
                                    IpSpecificView::Ipv6(
                                        IpV6View {
                                            traffic_class,
                                            flow_label,
                                            hoplimit: hoplimit as u8,
                                        },
                                    ),
                                ),
                                s5,
                            ),
                        ),
                        None => None,
                    },
                    None => None,
                },
                None => None,
            },
            None => None,
        },
        None => None,
    }
}

/// The IP header stage: the version marker field, exactly `4` or `6`,
/// dispatches to the version-specific sub-grammar.
pub open spec fn spec_ip_header(s: Seq<char>) -> Option<
    ((ProtocolView, IpSpecificView), Seq<char>),
> {
    match spec_field(s) {
        Some((t, rest)) => if t == "4"@ {
            spec_ipv4_header(rest)
        } else if t == "6"@ {
            spec_ipv6_header(rest)
        } else {
            None
        },
        None => None,
    }
}

/// Reads the source and destination addresses in the textual grammar of
/// the version decided by the IP header stage.
pub fn parse_src_dst_addr<'a>(input: &'a str, specific: &IpSpecific) -> (r: Result<
    (&'a str, (IpAddress, IpAddress)),
    SyntaxError,
>)
    ensures
        match r {
            Ok((rest, v)) => spec_src_dst_addr(input@, specific@ is IpV4) == Some((v, rest@)),
            Err(e) => spec_src_dst_addr(input@, specific@ is IpV4) is None,
        },
{
    let v4 = match specific {
        IpSpecific::IpV4(_) => true,
        IpSpecific::Ipv6(_) => false,
    };
    let (t1, s1) = match split_field(input) {
        Some(x) => x,
        None => {
            return Err(SyntaxError);
        },
    };
    let src = match addr_of_tok(t1, v4) {
        Some(a) => a,
        None => {
            return Err(SyntaxError);
        },
    };
    let (t2, s2) = match split_field(s1) {
        Some(x) => x,
        None => {
            return Err(SyntaxError);
        },
    };
    let dst = match addr_of_tok(t2, v4) {
        Some(a) => a,
        None => {
            return Err(SyntaxError);
        },
    };
    Ok((s2, (src, dst)))
}

/// Decodes a whole token as an address of the selected family.
fn addr_of_tok(t: &str, v4: bool) -> (r: Option<IpAddress>)
    ensures
        match r {
            Some(a) => spec_addr_tok(t@, v4) == Some(a),
            None => spec_addr_tok(t@, v4) is None,
        },
{
    if v4 {
        match ipv4_of_tok(t) {
            Some(a) => Some(IpAddress::V4(a)),
            None => None,
        }
    } else {
        match ipv6_of_tok(t) {
            Some(a) => Some(IpAddress::V6(a)),
            None => None,
        }
    }
}

/// Reads the IP data stage: total length, then the two addresses.
pub fn parse_ip_data<'a>(input: &'a str, specific: &IpSpecific) -> (r: Result<
    (&'a str, IpData),
    SyntaxError,
>)
    ensures
        match r {
            Ok((rest, d)) => spec_ip_data(input@, specific@ is IpV4) == Some((d, rest@)),
            Err(e) => spec_ip_data(input@, specific@ is IpV4) is None,
        },
{
    let (s1, length) = match dec_field(input, 0xffff) {
        Ok(x) => x,
        Err(e) => {
            return Err(e);
        },
    };
    let (s2, (src, dst)) = match parse_src_dst_addr(s1, specific) {
        Ok(x) => x,
        Err(e) => {
            return Err(e);
        },
    };
    Ok((s2, IpData { length: length as u16, src, dst }))
}

/// Reads the IPv4 header sub-grammar.
fn parse_ipv4_header<'a>(input: &'a str) -> (r: Result<
    (&'a str, (Protocol, IpSpecific)),
    SyntaxError,
>)
    ensures
        match r {
            Ok((rest, v)) => spec_ipv4_header(input@) == Some(((v.0@, v.1@), rest@)),
            Err(e) => spec_ipv4_header(input@) is None,
        },
{
    let (s1, tos) = match hex_u8_field(input) {
        Ok(x) => x,
        Err(e) => {
            return Err(e);
        },
    };
    let (s2, ecn) = match opt_alnum_field(s1) {
        Ok(x) => x,
        Err(e) => {
            return Err(e);
        },
    };
    let (s3, ttl) = match dec_field(s2, 0xff) {
        Ok(x) => x,
        Err(e) => {
            return Err(e);
        },
    };
    let (s4, id) = match dec_field(s3, 0xffff) {
        Ok(x) => x,
        Err(e) => {
            return Err(e);
        },
    };
    let (s5, offset) = match dec_field(s4, 0xffff) {
        Ok(x) => x,
        Err(e) => {
            return Err(e);
        },
    };
    let (s6, flags) = match alnum_field(s5) {
        Ok(x) => x,
        Err(e) => {
            return Err(e);
        },
    };
    let (s7, protonum) = match dec_field(s6, 0xff) {
        Ok(x) => x,
        Err(e) => {
            return Err(e);
        },
    };
    let (s8, protoname) = match alnum_field(s7) {
        Ok(x) => x,
        Err(e) => {
            return Err(e);
        },
    };
    let proto = Protocol { num: protonum as u8, name: proto_name_of_tok(protoname.as_str()) };
    let ipv4 = IpV4 {
        version: 4,
        tos,
        ecn,
        ttl: ttl as u8,
        id: id as u16,
        offset: offset as u16,
        flags,
    };
    Ok((s8, (proto, IpSpecific::IpV4(ipv4))))
}

/// Reads the IPv6 header sub-grammar.
fn parse_ipv6_header<'a>(input: &'a str) -> (r: Result<
    (&'a str, (Protocol, IpSpecific)),
    SyntaxError,
>)
    ensures
        match r {
            Ok((rest, v)) => spec_ipv6_header(input@) == Some(((v.0@, v.1@), rest@)),
            Err(e) => spec_ipv6_header(input@) is None,
        },
{
    let (s1, traffic_class) = match hex_u8_field(input) {
        Ok(x) => x,
        Err(e) => {
            return Err(e);
        },
    };
    let (s2, flow_label) = match alnum_field(s1) {
        Ok(x) => x,
        Err(e) => {
            return Err(e);
        },
    };
    let (s3, hoplimit) = match dec_field(s2, 0xff) {
        Ok(x) => x,
        Err(e) => {
            return Err(e);
        },
    };
    let (s4, protoname) = match text_field(s3) {
        Ok(x) => x,
        Err(e) => {
            return Err(e);
        },
    };
    let (s5, protonum) = match dec_field(s4, 0xff) {
        Ok(x) => x,
        Err(e) => {
            return Err(e);
        },
    };
    let proto = Protocol { num: protonum as u8, name: proto_name_of_tok(protoname.as_str()) };
    let ipv6 = IpV6 { traffic_class, flow_label, hoplimit: hoplimit as u8 };
    Ok((s5, (proto, IpSpecific::Ipv6(ipv6))))
}

/// Reads the IP header stage, dispatching on the version marker.
pub fn parse_ip_header<'a>(input: &'a str) -> (r: Result<
    (&'a str, (Protocol, IpSpecific)),
    SyntaxError,
>)
    ensures
        match r {
            Ok((rest, v)) => spec_ip_header(input@) == Some(((v.0@, v.1@), rest@)),
            Err(e) => spec_ip_header(input@) is None,
        },
{
    let (t, rest) = match split_field(input) {
        Some(x) => x,
        None => {
            return Err(SyntaxError);
        },
    };
    if crate::field::str_eq(t, "4") {
        parse_ipv4_header(rest)
    } else if crate::field::str_eq(t, "6") {
        parse_ipv6_header(rest)
    } else {
        Err(SyntaxError)
    }
}

/// Appending text after a complete IPv4 header leaves it unchanged.
pub proof fn lemma_ipv4_header_append(s: Seq<char>, u: Seq<char>)
    requires
        spec_ipv4_header(s) is Some,
    ensures
        spec_ipv4_header(s + u) == Some(
            (spec_ipv4_header(s)->Some_0.0, spec_ipv4_header(s)->Some_0.1 + u),
        ),
{
    let s1 = spec_hex_u8_field(s)->Some_0.1;
    crate::field::lemma_hex_u8_field_append(s, u);
    let s2 = spec_opt_alnum_field(s1)->Some_0.1;
    crate::field::lemma_opt_alnum_field_append(s1, u);
    let s3 = spec_dec_field(s2, u8::MAX as int)->Some_0.1;
    crate::field::lemma_dec_field_append(s2, u, u8::MAX as int);
    let s4 = spec_dec_field(s3, u16::MAX as int)->Some_0.1;
    crate::field::lemma_dec_field_append(s3, u, u16::MAX as int);
    let s5 = spec_dec_field(s4, u16::MAX as int)->Some_0.1;
    crate::field::lemma_dec_field_append(s4, u, u16::MAX as int);
    let s6 = spec_alnum_field(s5)->Some_0.1;
    crate::field::lemma_alnum_field_append(s5, u);
    let s7 = spec_dec_field(s6, u8::MAX as int)->Some_0.1;
    crate::field::lemma_dec_field_append(s6, u, u8::MAX as int);
    crate::field::lemma_alnum_field_append(s7, u);
}

/// Appending text after a complete IPv6 header leaves it unchanged.
pub proof fn lemma_ipv6_header_append(s: Seq<char>, u: Seq<char>)
    requires
        spec_ipv6_header(s) is Some,
    ensures
        spec_ipv6_header(s + u) == Some(
            (spec_ipv6_header(s)->Some_0.0, spec_ipv6_header(s)->Some_0.1 + u),
        ),
{
    let s1 = spec_hex_u8_field(s)->Some_0.1;
    crate::field::lemma_hex_u8_field_append(s, u);
    let s2 = spec_alnum_field(s1)->Some_0.1;
    crate::field::lemma_alnum_field_append(s1, u);
    let s3 = spec_dec_field(s2, u8::MAX as int)->Some_0.1;
    crate::field::lemma_dec_field_append(s2, u, u8::MAX as int);
    let s4 = spec_text_field(s3)->Some_0.1;
    crate::field::lemma_text_field_append(s3, u);
    crate::field::lemma_dec_field_append(s4, u, u8::MAX as int);
}

/// Appending text after a complete IP header stage leaves it unchanged.
pub proof fn lemma_ip_header_append(s: Seq<char>, u: Seq<char>)
    requires
        spec_ip_header(s) is Some,
    ensures
        spec_ip_header(s + u) == Some(
            (spec_ip_header(s)->Some_0.0, spec_ip_header(s)->Some_0.1 + u),
        ),
{
    let rest = spec_field(s)->Some_0.1;
    crate::field::lemma_field_append(s, u);
    if spec_field(s)->Some_0.0 == "4"@ {
        lemma_ipv4_header_append(rest, u);
    } else {
        lemma_ipv6_header_append(rest, u);
    }
}

/// Appending text after a complete address pair leaves it unchanged.
pub proof fn lemma_src_dst_addr_append(s: Seq<char>, u: Seq<char>, v4: bool)
    requires
        spec_src_dst_addr(s, v4) is Some,
    ensures
        spec_src_dst_addr(s + u, v4) == Some(
            (spec_src_dst_addr(s, v4)->Some_0.0, spec_src_dst_addr(s, v4)->Some_0.1 + u),
        ),
{
    let s1 = spec_field(s)->Some_0.1;
    crate::field::lemma_field_append(s, u);
    crate::field::lemma_field_append(s1, u);
}

/// Appending text after a complete IP data stage leaves it unchanged.
pub proof fn lemma_ip_data_append(s: Seq<char>, u: Seq<char>, v4: bool)
    requires
        spec_ip_data(s, v4) is Some,
    ensures
        spec_ip_data(s + u, v4) == Some(
            (spec_ip_data(s, v4)->Some_0.0, spec_ip_data(s, v4)->Some_0.1 + u),
        ),
{
    let s1 = spec_dec_field(s, u16::MAX as int)->Some_0.1;
    crate::field::lemma_dec_field_append(s, u, u16::MAX as int);
    lemma_src_dst_addr_append(s1, u, v4);
}

/// Completeness of the IPv4 header grammar: a header assembled from
/// well-formed tokens, introduced by the `4` version marker, decodes to
/// exactly those tokens' typed values.
pub proof fn lemma_ipv4_header_intro(
    tos: Seq<char>,
    ecn: Seq<char>,
    ttl: Seq<char>,
    id: Seq<char>,
    offset: Seq<char>,
    flags: Seq<char>,
    protonum: Seq<char>,
    protoname: Seq<char>,
    r: Seq<char>,
)
    requires
        tos.len() >= 3,
        tos[0] == '0',
        tos[1] == 'x' || tos[1] == 'X',
        all_hex_digits(tos.skip(2)),
        hex_val(tos.skip(2)) <= 255,
        all_alnum(ecn),
        ttl.len() > 0,
        all_dec_digits(ttl),
        dec_val(ttl) <= u8::MAX as int,
        id.len() > 0,
        all_dec_digits(id),
        dec_val(id) <= u16::MAX as int,
        offset.len() > 0,
        all_dec_digits(offset),
        dec_val(offset) <= u16::MAX as int,
        flags.len() > 0,
        all_alnum(flags),
        protonum.len() > 0,
        all_dec_digits(protonum),
        dec_val(protonum) <= u8::MAX as int,
        protoname.len() > 0,
        all_alnum(protoname),
    ensures
        spec_ip_header(
            fld(
                "4"@,
                fld(
                    tos,
                    fld(
                        ecn,
                        fld(
                            ttl,
                            fld(id, fld(offset, fld(flags, fld(protonum, fld(protoname, r))))),
                        ),
                    ),
                ),
            ),
        ) == Some(
            (
                (
                    ProtocolView {
                        num: dec_val(protonum) as u8,
                        name: crate::protocol::spec_proto_name(protoname),
                    },
                    IpSpecificView::IpV4(
                        IpV4View {
                            version: 4,
                            tos: hex_val(tos.skip(2)) as u8,
                            ecn: if ecn.len() == 0 {
                                None
                            } else {
                                Some(ecn)
                            },
                            ttl: dec_val(ttl) as u8,
                            id: dec_val(id) as u16,
                            offset: dec_val(offset) as u16,
                            flags,
                        },
                    ),
                ),
                r,
            ),
        ),
{
    reveal_strlit("4");
    let t8 = fld(protoname, r);
    let t7 = fld(protonum, t8);
    let t6 = fld(flags, t7);
    let t5 = fld(offset, t6);
    let t4 = fld(id, t5);
    let t3 = fld(ttl, t4);
    let t2 = fld(ecn, t3);
    let t1 = fld(tos, t2);
    crate::field::lemma_field_intro("4"@, t1);
    crate::field::lemma_hex_u8_field_intro(tos, t2);
    crate::field::lemma_opt_alnum_field_intro(ecn, t3);
    crate::field::lemma_dec_field_intro(ttl, t4, u8::MAX as int);
    crate::field::lemma_dec_field_intro(id, t5, u16::MAX as int);
    crate::field::lemma_dec_field_intro(offset, t6, u16::MAX as int);
    crate::field::lemma_alnum_field_intro(flags, t7);
    crate::field::lemma_dec_field_intro(protonum, t8, u8::MAX as int);
    crate::field::lemma_alnum_field_intro(protoname, r);
}

/// Completeness of the IPv4 data grammar: length and two dotted-quad
/// address tokens decode to exactly those tokens' typed values.
pub proof fn lemma_ipv4_data_intro(
    length: Seq<char>,
    srctok: Seq<char>,
    dsttok: Seq<char>,
    r: Seq<char>,
)
    requires
        length.len() > 0,
        all_dec_digits(length),
        dec_val(length) <= u16::MAX as int,
        forall|k: int| 0 <= k < srctok.len() ==> srctok[k] != ',',
        spec_ipv4_addr(srctok) is Some,
        forall|k: int| 0 <= k < dsttok.len() ==> dsttok[k] != ',',
        spec_ipv4_addr(dsttok) is Some,
    ensures
        spec_ip_data(fld(length, fld(srctok, fld(dsttok, r))), true) == Some(
            (
                IpData {
                    length: dec_val(length) as u16,
                    src: IpAddress::V4(spec_ipv4_addr(srctok)->Some_0),
                    dst: IpAddress::V4(spec_ipv4_addr(dsttok)->Some_0),
                },
                r,
            ),
        ),
{
    let t2 = fld(srctok, fld(dsttok, r));
    crate::field::lemma_dec_field_intro(length, t2, u16::MAX as int);
    crate::field::lemma_field_intro(srctok, fld(dsttok, r));
    crate::field::lemma_field_intro(dsttok, r);
}

} // verus!

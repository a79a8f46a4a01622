//! Field primitives of the comma-delimited log grammar.
//!
//! The log format is comma-delimited. A token is the longest run of
//! non-comma characters at the front of the remaining input; a field is a
//! token together with its single trailing comma delimiter. The spec
//! functions in this module define the grammar of the individual field
//! kinds (decimal, hexadecimal, alphanumeric, free text, each also in an
//! optional flavour where an empty token denotes absence); the exec
//! functions are proved to decide exactly those grammars.

use vstd::prelude::*;

verus! {

/// A field-level parse failure: the input did not match the field's grammar.
#[derive(Debug, Clone, Copy, PartialEq, Eq, Structural)]
pub struct SyntaxError;

/// Length of the longest prefix of `s` free of the separator `sep`.
pub open spec fn part_len(s: Seq<char>, sep: char) -> nat
    decreases s.len(),
{
    if s.len() == 0 || s[0] == sep {
        0
    } else {
        1 + part_len(s.skip(1), sep)
    }
}

/// The leading part ends at the first separator, or at the end of the input.
pub proof fn lemma_part_len(s: Seq<char>, sep: char)
    ensures
        part_len(s, sep) <= s.len(),
        part_len(s, sep) < s.len() ==> s[part_len(s, sep) as int] == sep,
        forall|k: int| 0 <= k < part_len(s, sep) ==> s[k] != sep,
    decreases s.len(),
{
    if s.len() == 0 || s[0] == sep {
    } else {
        lemma_part_len(s.skip(1), sep);
        assert forall|k: int| 0 <= k < part_len(s, sep) implies s[k] != sep by {
            if k > 0 {
                assert(s.skip(1)[k - 1] != sep);
            }
        }
    }
}

/// The parts of `s` between occurrences of the separator `sep`, in order.
/// Splitting the empty sequence yields one empty part.
pub open spec fn split_parts(s: Seq<char>, sep: char) -> Seq<Seq<char>>
    decreases s.len(),
{
    let n = part_len(s, sep);
    if n >= s.len() {
        seq![s]
    } else {
        seq![s.take(n as int)] + split_parts(s.skip(n as int + 1), sep)
    }
}

/// Length of the longest comma-free prefix of `s` (the leading token).
pub open spec fn tok_len(s: Seq<char>) -> int {
    part_len(s, ',') as int
}

/// The leading token ends at the first comma, or at the end of the input.
pub proof fn lemma_tok_len(s: Seq<char>)
    ensures
        0 <= tok_len(s) <= s.len(),
        tok_len(s) < s.len() ==> s[tok_len(s)] == ',',
        forall|k: int| 0 <= k < tok_len(s) ==> s[k] != ',',
{
    lemma_part_len(s, ',');
}

/// The leading token of `s`.
pub open spec fn spec_token(s: Seq<char>) -> Seq<char> {
    s.take(tok_len(s))
}

/// One raw field: the leading token and the remainder after the trailing
/// comma; `None` when no comma terminates the token.
pub open spec fn spec_field(s: Seq<char>) -> Option<(Seq<char>, Seq<char>)> {
    if tok_len(s) < s.len() {
        Some((spec_token(s), s.skip(tok_len(s) + 1)))
    } else {
        None
    }
}

/// One comma delimiter and the remainder after it.
pub open spec fn spec_eat_comma(s: Seq<char>) -> Option<Seq<char>> {
    if s.len() > 0 && s[0] == ',' {
        Some(s.skip(1))
    } else {
        None
    }
}

pub open spec fn is_dec_digit(c: char) -> bool {
    '0' as u32 <= c as u32 && c as u32 <= '9' as u32
}

pub open spec fn dec_digit_val(c: char) -> int {
    c as u32 - '0' as u32
}

pub open spec fn all_dec_digits(t: Seq<char>) -> bool {
    forall|i: int| 0 <= i < t.len() ==> is_dec_digit(#[trigger] t[i])
}

/// Value of a run of decimal digits, most significant first.
pub open spec fn dec_val(t: Seq<char>) -> int
    decreases t.len(),
{
    if t.len() == 0 {
        0
    } else {
        10 * dec_val(t.drop_last()) + dec_digit_val(t.last())
    }
}

pub proof fn lemma_dec_val_nonneg(t: Seq<char>)
    requires
        all_dec_digits(t),
    ensures
        dec_val(t) >= 0,
    decreases t.len(),
{
    if t.len() > 0 {
        assert(is_dec_digit(t[t.len() - 1]));
        assert forall|i: int| 0 <= i < t.drop_last().len() implies is_dec_digit(
            #[trigger] t.drop_last()[i],
        ) by {
            assert(t.drop_last()[i] == t[i]);
        }
        lemma_dec_val_nonneg(t.drop_last());
    }
}

/// The value of a digit run is at least the value of any of its prefixes.
pub proof fn lemma_dec_val_prefix(t: Seq<char>, i: int)
    requires
        all_dec_digits(t),
        0 <= i <= t.len(),
    ensures
        dec_val(t.take(i)) <= dec_val(t),
    decreases t.len() - i,
{
    if i < t.len() {
        assert(t.take(i + 1).drop_last() =~= t.take(i));
        assert(all_dec_digits(t.take(i)));
        lemma_dec_val_nonneg(t.take(i));
        assert(dec_val(t.take(i + 1)) == 10 * dec_val(t.take(i)) + dec_digit_val(t[i]));
        lemma_dec_val_prefix(t, i + 1);
    } else {
        assert(t.take(i) =~= t);
    }
}

pub open spec fn is_hex_digit(c: char) -> bool {
    ||| is_dec_digit(c)
    ||| ('a' as u32 <= c as u32 && c as u32 <= 'f' as u32)
    ||| ('A' as u32 <= c as u32 && c as u32 <= 'F' as u32)
}

pub open spec fn hex_digit_val(c: char) -> int {
    if is_dec_digit(c) {
        c as u32 - '0' as u32
    } else if 'a' as u32 <= c as u32 && c as u32 <= 'f' as u32 {
        c as u32 - 'a' as u32 + 10
    } else {
        c as u32 - 'A' as u32 + 10
    }
}

pub open spec fn all_hex_digits(t: Seq<char>) -> bool {
    forall|i: int| 0 <= i < t.len() ==> is_hex_digit(#[trigger] t[i])
}

/// Value of a run of hexadecimal digits, most significant first.
pub open spec fn hex_val(t: Seq<char>) -> int
    decreases t.len(),
{
    if t.len() == 0 {
        0
    } else {
        16 * hex_val(t.drop_last()) + hex_digit_val(t.last())
    }
}

pub proof fn lemma_hex_val_nonneg(t: Seq<char>)
    requires
        all_hex_digits(t),
    ensures
        hex_val(t) >= 0,
    decreases t.len(),
{
    if t.len() > 0 {
        assert(is_hex_digit(t[t.len() - 1]));
        assert forall|i: int| 0 <= i < t.drop_last().len() implies is_hex_digit(
            #[trigger] t.drop_last()[i],
        ) by {
            assert(t.drop_last()[i] == t[i]);
        }
        lemma_hex_val_nonneg(t.drop_last());
    }
}

/// The value of a hex-digit run is at least the value of any of its prefixes.
pub proof fn lemma_hex_val_prefix(t: Seq<char>, i: int)
    requires
        all_hex_digits(t),
        0 <= i <= t.len(),
    ensures
        hex_val(t.take(i)) <= hex_val(t),
    decreases t.len() - i,
{
    if i < t.len() {
        assert(t.take(i + 1).drop_last() =~= t.take(i));
        assert(all_hex_digits(t.take(i)));
        lemma_hex_val_nonneg(t.take(i));
        assert(hex_val(t.take(i + 1)) == 16 * hex_val(t.take(i)) + hex_digit_val(t[i]));
        lemma_hex_val_prefix(t, i + 1);
    } else {
        assert(t.take(i) =~= t);
    }
}

pub open spec fn is_alnum(c: char) -> bool {
    ||| is_dec_digit(c)
    ||| ('a' as u32 <= c as u32 && c as u32 <= 'z' as u32)
    ||| ('A' as u32 <= c as u32 && c as u32 <= 'Z' as u32)
}

pub open spec fn all_alnum(t: Seq<char>) -> bool {
    forall|i: int| 0 <= i < t.len() ==> is_alnum(#[trigger] t[i])
}

/// Index of the end of the leading separator-free part of `s`.
pub(crate) fn part_end(s: &str, sep: char) -> (n: usize)
    ensures
        n == part_len(s@, sep),
{
    proof {
        lemma_part_len(s@, sep);
    }
    let len = s.unicode_len();
    let mut i: usize = 0;
    while i < len
        invariant
            0 <= i <= len,
            len == s@.len(),
            forall|k: int| 0 <= k < i ==> s@[k] != sep,
        decreases len - i,
    {
        if s.get_char(i) == sep {
            proof {
                lemma_part_len(s@, sep);
                if i < part_len(s@, sep) {
                    assert(s@[i as int] != sep);
                }
                if i > part_len(s@, sep) {
                    assert(s@[part_len(s@, sep) as int] != sep);
                }
            }
            return i;
        }
        i += 1;
    }
    proof {
        lemma_part_len(s@, sep);
        if part_len(s@, sep) < s@.len() {
            assert(s@[part_len(s@, sep) as int] != sep);
        }
    }
    i
}

/// Index of the end of the leading token of `s`.
pub(crate) fn token_end(s: &str) -> (n: usize)
    ensures
        n == tok_len(s@),
{
    part_end(s, ',')
}

/// Splits `s` into its parts between occurrences of `sep`.
pub(crate) fn split_on<'a>(s: &'a str, sep: char) -> (parts: Vec<&'a str>)
    ensures
        parts@.len() == split_parts(s@, sep).len(),
        forall|i: int| 0 <= i < parts@.len() ==> parts@[i]@ == split_parts(s@, sep)[i],
{
    let ghost whole = split_parts(s@, sep);
    let mut parts: Vec<&'a str> = Vec::new();
    let mut rem: &'a str = s;
    loop
        invariant
            whole == split_parts(s@, sep),
            whole.len() == parts@.len() + split_parts(rem@, sep).len(),
            forall|i: int| 0 <= i < parts@.len() ==> parts@[i]@ == whole[i],
            forall|j: int|
                0 <= j < split_parts(rem@, sep).len() ==> split_parts(rem@, sep)[j] == whole[
                    parts@.len() + j
                ],
        decreases rem@.len(),
    {
        let len = rem.unicode_len();
        let n = part_end(rem, sep);
        proof {
            lemma_part_len(rem@, sep);
        }
        if n < len {
            let part = rem.substring_char(0, n);
            let next = rem.substring_char(n + 1, len);
            proof {
                assert(part@ =~= rem@.take(part_len(rem@, sep) as int));
                assert(next@ =~= rem@.skip(part_len(rem@, sep) as int + 1));
                assert(split_parts(rem@, sep) =~= seq![part@] + split_parts(next@, sep));
                assert(split_parts(rem@, sep)[0] == part@);
                assert(part@ == whole[parts@.len() as int]);
                assert forall|j: int| 0 <= j < split_parts(next@, sep).len() implies split_parts(
                    next@,
                    sep,
                )[j] == whole[parts@.len() + 1 + j] by {
                    assert(split_parts(rem@, sep)[j + 1] == split_parts(next@, sep)[j]);
                }
            }
            parts.push(part);
            rem = next;
        } else {
            proof {
                assert(split_parts(rem@, sep) =~= seq![rem@]);
                assert(split_parts(rem@, sep)[0] == rem@);
                assert(rem@ == whole[parts@.len() as int]);
            }
            parts.push(rem);
            return parts;
        }
    }
}

/// The leading token of `s` and the remainder from the token's end (the
/// delimiter, if any, is not consumed).
pub(crate) fn token_prefix<'a>(s: &'a str) -> (r: (&'a str, &'a str))
    ensures
        r.0@ == spec_token(s@),
        r.1@ == s@.skip(tok_len(s@)),
{
    let len = s.unicode_len();
    let n = token_end(s);
    proof {
        lemma_tok_len(s@);
    }
    let t = s.substring_char(0, n);
    let rest = s.substring_char(n, len);
    proof {
        assert(t@ =~= spec_token(s@));
        assert(rest@ =~= s@.skip(tok_len(s@)));
    }
    (t, rest)
}

/// Splits off one raw field: the leading token and the remainder after the
/// trailing comma; fails when no comma terminates the token.
pub(crate) fn split_field<'a>(s: &'a str) -> (r: Option<(&'a str, &'a str)>)
    ensures
        match r {
            Some((t, rest)) => spec_field(s@) == Some((t@, rest@)),
            None => spec_field(s@) is None,
        },
{
    let len = s.unicode_len();
    let n = token_end(s);
    proof {
        lemma_tok_len(s@);
    }
    if n < len {
        let t = s.substring_char(0, n);
        let rest = s.substring_char(n + 1, len);
        proof {
            assert(t@ =~= spec_token(s@));
            assert(rest@ =~= s@.skip(tok_len(s@) + 1));
        }
        Some((t, rest))
    } else {
        None
    }
}

/// Consumes one comma delimiter.
pub(crate) fn eat_comma<'a>(s: &'a str) -> (r: Result<&'a str, SyntaxError>)
    ensures
        match r {
            Ok(rest) => spec_eat_comma(s@) == Some(rest@),
            Err(e) => spec_eat_comma(s@) is None,
        },
{
    let len = s.unicode_len();
    if len == 0 {
        return Err(SyntaxError);
    }
    if s.get_char(0) == ',' {
        let rest = s.substring_char(1, len);
        proof {
            assert(rest@ =~= s@.skip(1));
        }
        Ok(rest)
    } else {
        Err(SyntaxError)
    }
}

/// Character-for-character string equality.
pub(crate) fn str_eq(a: &str, b: &str) -> (r: bool)
    ensures
        r == (a@ == b@),
{
    let alen = a.unicode_len();
    let blen = b.unicode_len();
    if alen != blen {
        return false;
    }
    let mut i: usize = 0;
    while i < alen
        invariant
            0 <= i <= alen,
            alen == a@.len(),
            alen == b@.len(),
            forall|k: int| 0 <= k < i ==> a@[k] == b@[k],
        decreases alen - i,
    {
        if a.get_char(i) != b.get_char(i) {
            return false;
        }
        i += 1;
    }
    proof {
        assert(a@ =~= b@);
    }
    true
}

/// A decimal token: one or more digits whose value is at most `max`.
pub open spec fn spec_dec_tok(t: Seq<char>, max: int) -> Option<int> {
    if t.len() > 0 && all_dec_digits(t) && dec_val(t) <= max {
        Some(dec_val(t))
    } else {
        None
    }
}

/// A hexadecimal byte token: a `0x`/`0X` prefix followed by one or more hex
/// digits, with a value that fits in a byte.
pub open spec fn spec_hex_u8_tok(t: Seq<char>) -> Option<u8> {
    if t.len() >= 3 && t[0] == '0' && (t[1] == 'x' || t[1] == 'X') && all_hex_digits(t.skip(2))
        && hex_val(t.skip(2)) <= 255 {
        Some(hex_val(t.skip(2)) as u8)
    } else {
        None
    }
}

/// Decodes a whole token as an unsigned decimal number bounded by `max`.
pub(crate) fn dec_of_tok(t: &str, max: u64) -> (r: Option<u64>)
    requires
        max <= 0xffff_ffff,
    ensures
        match r {
            Some(v) => spec_dec_tok(t@, max as int) == Some(v as int),
            None => spec_dec_tok(t@, max as int) is None,
        },
{
    let len = t.unicode_len();
    if len == 0 {
        return None;
    }
    let mut i: usize = 0;
    let mut acc: u64 = 0;
    while i < len
        invariant
            0 <= i <= len,
            len == t@.len(),
            max <= 0xffff_ffff,
            all_dec_digits(t@.take(i as int)),
            acc == dec_val(t@.take(i as int)),
            acc <= max,
        decreases len - i,
    {
        let c = t.get_char(i);
        let d = c as u32;
        if d < '0' as u32 || d > '9' as u32 {
            assert(!is_dec_digit(t@[i as int]));
            return None;
        }
        let dv = (d - '0' as u32) as u64;
        proof {
            assert(t@.take(i as int + 1).drop_last() =~= t@.take(i as int));
            assert(t@.take(i as int + 1).last() == t@[i as int]);
            assert(all_dec_digits(t@.take(i as int + 1)));
        }
        let next = acc * 10 + dv;
        if next > max {
            proof {
                if all_dec_digits(t@) {
                    lemma_dec_val_prefix(t@, i as int + 1);
                }
            }
            return None;
        }
        acc = next;
        i += 1;
    }
    proof {
        assert(t@.take(len as int) =~= t@);
    }
    Some(acc)
}

/// Decodes a whole token as a `0x`-prefixed hexadecimal byte.
pub(crate) fn hex_u8_of_tok(t: &str) -> (r: Option<u8>)
    ensures
        match r {
            Some(v) => spec_hex_u8_tok(t@) == Some(v),
            None => spec_hex_u8_tok(t@) is None,
        },
{
    let len = t.unicode_len();
    if len < 3 {
        return None;
    }
    if t.get_char(0) != '0' {
        return None;
    }
    let marker = t.get_char(1);
    if marker != 'x' && marker != 'X' {
        return None;
    }
    let ghost g = t@.skip(2);
    let mut i: usize = 2;
    let mut acc: u32 = 0;
    while i < len
        invariant
            2 <= i <= len,
            len == t@.len(),
            g == t@.skip(2),
            all_hex_digits(g.take(i as int - 2)),
            acc == hex_val(g.take(i as int - 2)),
            acc <= 255,
        decreases len - i,
    {
        let c = t.get_char(i);
        let d = c as u32;
        proof {
            assert(g[i as int - 2] == t@[i as int]);
        }
        let dv: u32 = if '0' as u32 <= d && d <= '9' as u32 {
            d - '0' as u32
        } else if 'a' as u32 <= d && d <= 'f' as u32 {
            d - 'a' as u32 + 10
        } else if 'A' as u32 <= d && d <= 'F' as u32 {
            d - 'A' as u32 + 10
        } else {
            assert(!is_hex_digit(g[i as int - 2]));
            return None;
        };
        proof {
            assert(g.take(i as int - 1).drop_last() =~= g.take(i as int - 2));
            assert(g.take(i as int - 1).last() == g[i as int - 2]);
            assert(all_hex_digits(g.take(i as int - 1)));
        }
        let next = acc * 16 + dv;
        if next > 255 {
            proof {
                if all_hex_digits(g) {
                    lemma_hex_val_prefix(g, i as int - 1);
                }
            }
            return None;
        }
        acc = next;
        i += 1;
    }
    proof {
        assert(g.take(len as int - 2) =~= g);
    }
    Some(acc as u8)
}

/// Whether the whole token consists of ASCII alphanumeric characters.
pub(crate) fn is_alnum_str(t: &str) -> (r: bool)
    ensures
        r == all_alnum(t@),
{
    let len = t.unicode_len();
    let mut i: usize = 0;
    while i < len
        invariant
            0 <= i <= len,
            len == t@.len(),
            forall|k: int| 0 <= k < i ==> is_alnum(#[trigger] t@[k]),
        decreases len - i,
    {
        let d = t.get_char(i) as u32;
        let ok = ('0' as u32 <= d && d <= '9' as u32) || ('a' as u32 <= d && d <= 'z' as u32)
            || ('A' as u32 <= d && d <= 'Z' as u32);
        if !ok {
            assert(!is_alnum(t@[i as int]));
            return false;
        }
        i += 1;
    }
    true
}

/// A mandatory decimal field: digits, then the comma delimiter.
pub open spec fn spec_dec_field(s: Seq<char>, max: int) -> Option<(int, Seq<char>)> {
    match spec_field(s) {
        Some((t, rest)) => match spec_dec_tok(t, max) {
            Some(v) => Some((v, rest)),
            None => None,
        },
        None => None,
    }
}

/// An optional decimal field: an empty token denotes an absent value.
pub open spec fn spec_opt_dec_field(s: Seq<char>, max: int) -> Option<(Option<int>, Seq<char>)> {
    match spec_field(s) {
        Some((t, rest)) => if t.len() == 0 {
            Some((None, rest))
        } else {
            match spec_dec_tok(t, max) {
                Some(v) => Some((Some(v), rest)),
                None => None,
            }
        },
        None => None,
    }
}

/// A mandatory hexadecimal byte field.
pub open spec fn spec_hex_u8_field(s: Seq<char>) -> Option<(u8, Seq<char>)> {
    match spec_field(s) {
        Some((t, rest)) => match spec_hex_u8_tok(t) {
            Some(v) => Some((v, rest)),
            None => None,
        },
        None => None,
    }
}

/// A mandatory alphanumeric field: one or more ASCII alphanumerics.
pub open spec fn spec_alnum_field(s: Seq<char>) -> Option<(Seq<char>, Seq<char>)> {
    match spec_field(s) {
        Some((t, rest)) => if t.len() > 0 && all_alnum(t) {
            Some((t, rest))
        } else {
            None
        },
        None => None,
    }
}

/// An optional alphanumeric field: an empty token denotes an absent value.
pub open spec fn spec_opt_alnum_field(s: Seq<char>) -> Option<(Option<Seq<char>>, Seq<char>)> {
    match spec_field(s) {
        Some((t, rest)) => if t.len() == 0 {
            Some((None, rest))
        } else if all_alnum(t) {
            Some((Some(t), rest))
        } else {
            None
        },
        None => None,
    }
}

/// A free-text field: any run of non-comma characters, including the empty
/// run, then the comma delimiter.
pub open spec fn spec_text_field(s: Seq<char>) -> Option<(Seq<char>, Seq<char>)> {
    spec_field(s)
}

/// Parses a mandatory decimal field bounded by `max`.
pub(crate) fn dec_field<'a>(s: &'a str, max: u64) -> (r: Result<(&'a str, u64), SyntaxError>)
    requires
        max <= 0xffff_ffff,
    ensures
        match r {
            Ok((rest, v)) => spec_dec_field(s@, max as int) == Some((v as int, rest@)),
            Err(e) => spec_dec_field(s@, max as int) is None,
        },
{
    match split_field(s) {
        Some((t, rest)) => match dec_of_tok(t, max) {
            Some(v) => Ok((rest, v)),
            None => Err(SyntaxError),
        },
        None => Err(SyntaxError),
    }
}

/// Parses an optional decimal field bounded by `max`.
pub(crate) fn opt_dec_field<'a>(s: &'a str, max: u64) -> (r: Result<
    (&'a str, Option<u64>),
    SyntaxError,
>)
    requires
        max <= 0xffff_ffff,
    ensures
        match r {
            Ok((rest, v)) => spec_opt_dec_field(s@, max as int) == Some(
                (
                    match v {
                        Some(x) => Some(x as int),
                        None => None,
                    },
                    rest@,
                ),
            ),
            Err(e) => spec_opt_dec_field(s@, max as int) is None,
        },
{
    match split_field(s) {
        Some((t, rest)) => {
            if t.unicode_len() == 0 {
                Ok((rest, None))
            } else {
                match dec_of_tok(t, max) {
                    Some(v) => Ok((rest, Some(v))),
                    None => Err(SyntaxError),
                }
            }
        },
        None => Err(SyntaxError),
    }
}

/// Parses a mandatory hexadecimal byte field.
pub(crate) fn hex_u8_field<'a>(s: &'a str) -> (r: Result<(&'a str, u8), SyntaxError>)
    ensures
        match r {
            Ok((rest, v)) => spec_hex_u8_field(s@) == Some((v, rest@)),
            Err(e) => spec_hex_u8_field(s@) is None,
        },
{
    match split_field(s) {
        Some((t, rest)) => match hex_u8_of_tok(t) {
            Some(v) => Ok((rest, v)),
            None => Err(SyntaxError),
        },
        None => Err(SyntaxError),
    }
}

/// Parses a mandatory alphanumeric field into an owned string.
pub(crate) fn alnum_field<'a>(s: &'a str) -> (r: Result<(&'a str, String), SyntaxError>)
    ensures
        match r {
            Ok((rest, v)) => spec_alnum_field(s@) == Some((v@, rest@)),
            Err(e) => spec_alnum_field(s@) is None,
        },
{
    match split_field(s) {
        Some((t, rest)) => {
            if t.unicode_len() > 0 && is_alnum_str(t) {
                Ok((rest, t.to_owned()))
            } else {
                Err(SyntaxError)
            }
        },
        None => Err(SyntaxError),
    }
}

/// Parses an optional alphanumeric field into an owned string.
pub(crate) fn opt_alnum_field<'a>(s: &'a str) -> (r: Result<
    (&'a str, Option<String>),
    SyntaxError,
>)
    ensures
        match r {
            Ok((rest, v)) => spec_opt_alnum_field(s@) == Some(
                (
                    match v {
                        Some(x) => Some(x@),
                        None => None,
                    },
                    rest@,
                ),
            ),
            Err(e) => spec_opt_alnum_field(s@) is None,
        },
{
    match split_field(s) {
        Some((t, rest)) => {
            if t.unicode_len() == 0 {
                Ok((rest, None))
            } else if is_alnum_str(t) {
                Ok((rest, Some(t.to_owned())))
            } else {
                Err(SyntaxError)
            }
        },
        None => Err(SyntaxError),
    }
}

/// Parses a free-text field into an owned string.
pub(crate) fn text_field<'a>(s: &'a str) -> (r: Result<(&'a str, String), SyntaxError>)
    ensures
        match r {
            Ok((rest, v)) => spec_text_field(s@) == Some((v@, rest@)),
            Err(e) => spec_text_field(s@) is None,
        },
{
    match split_field(s) {
        Some((t, rest)) => Ok((rest, t.to_owned())),
        None => Err(SyntaxError),
    }
}

/// Parses a mandatory decimal field as a 32-bit number.
pub fn dec_u32_field<'a>(s: &'a str) -> (r: Result<(&'a str, u32), SyntaxError>)
    ensures
        match r {
            Ok((rest, v)) => spec_dec_field(s@, u32::MAX as int) == Some((v as int, rest@)),
            Err(e) => spec_dec_field(s@, u32::MAX as int) is None,
        },
{
    match dec_field(s, 0xffff_ffff) {
        Ok((rest, v)) => Ok((rest, v as u32)),
        Err(e) => Err(e),
    }
}

/// Appending text to the input does not change the leading part when a
/// separator already terminates it; otherwise the part extends into the
/// appended text.
pub proof fn lemma_part_len_append(s: Seq<char>, u: Seq<char>, sep: char)
    ensures
        part_len(s + u, sep) == if part_len(s, sep) < s.len() {
            part_len(s, sep) as int
        } else {
            s.len() + part_len(u, sep) as int
        },
    decreases s.len(),
{
    if s.len() == 0 {
        assert(s + u =~= u);
    } else if s[0] == sep {
        assert((s + u)[0] == sep);
    } else {
        assert((s + u)[0] == s[0]);
        assert((s + u).skip(1) =~= s.skip(1) + u);
        lemma_part_len_append(s.skip(1), u, sep);
        lemma_part_len(s.skip(1), sep);
    }
}

/// Appending text after the delimiter of a complete field leaves the field
/// itself unchanged and lands in the remainder.
pub proof fn lemma_field_append(s: Seq<char>, u: Seq<char>)
    requires
        tok_len(s) < s.len(),
    ensures
        spec_field(s + u) == Some((spec_token(s), s.skip(tok_len(s) + 1) + u)),
{
    lemma_part_len_append(s, u, ',');
    lemma_tok_len(s);
    assert((s + u).take(tok_len(s)) =~= s.take(tok_len(s)));
    assert((s + u).skip(tok_len(s) + 1) =~= s.skip(tok_len(s) + 1) + u);
}

/// An empty run between two delimiters always decodes to an absent value:
/// never an error, never a populated value.
pub proof fn lemma_optional_field_absent(s: Seq<char>, max: int)
    requires
        s.len() > 0,
        s[0] == ',',
    ensures
        spec_opt_dec_field(s, max) == Some((None::<int>, s.skip(1))),
        spec_opt_alnum_field(s) == Some((None::<Seq<char>>, s.skip(1))),
{
    assert(tok_len(s) == 0);
    assert(spec_token(s) =~= Seq::<char>::empty());
}

/// A present, well-formed numeric run always decodes to a populated value:
/// never an absent one.
pub proof fn lemma_optional_field_present_dec(s: Seq<char>, max: int)
    requires
        0 < tok_len(s) < s.len(),
        all_dec_digits(spec_token(s)),
        dec_val(spec_token(s)) <= max,
    ensures
        spec_opt_dec_field(s, max) == Some(
            (Some(dec_val(spec_token(s))), s.skip(tok_len(s) + 1)),
        ),
{
    lemma_tok_len(s);
}

/// A present, well-formed alphanumeric run always decodes to a populated
/// value: never an absent one.
pub proof fn lemma_optional_field_present_alnum(s: Seq<char>)
    requires
        0 < tok_len(s) < s.len(),
        all_alnum(spec_token(s)),
    ensures
        spec_opt_alnum_field(s) == Some((Some(spec_token(s)), s.skip(tok_len(s) + 1))),
{
    lemma_tok_len(s);
}

/// Appending text after a complete decimal field leaves it unchanged.
pub proof fn lemma_dec_field_append(s: Seq<char>, u: Seq<char>, max: int)
    requires
        spec_dec_field(s, max) is Some,
    ensures
        spec_dec_field(s + u, max) == Some(
            (spec_dec_field(s, max)->Some_0.0, spec_dec_field(s, max)->Some_0.1 + u),
        ),
{
    lemma_field_append(s, u);
}

/// Appending text after a complete optional decimal field leaves it
/// unchanged.
pub proof fn lemma_opt_dec_field_append(s: Seq<char>, u: Seq<char>, max: int)
    requires
        spec_opt_dec_field(s, max) is Some,
    ensures
        spec_opt_dec_field(s + u, max) == Some(
            (spec_opt_dec_field(s, max)->Some_0.0, spec_opt_dec_field(s, max)->Some_0.1 + u),
        ),
{
    lemma_field_append(s, u);
}

/// Appending text after a complete hexadecimal field leaves it unchanged.
pub proof fn lemma_hex_u8_field_append(s: Seq<char>, u: Seq<char>)
    requires
        spec_hex_u8_field(s) is Some,
    ensures
        spec_hex_u8_field(s + u) == Some(
            (spec_hex_u8_field(s)->Some_0.0, spec_hex_u8_field(s)->Some_0.1 + u),
        ),
{
    lemma_field_append(s, u);
}

/// Appending text after a complete alphanumeric field leaves it unchanged.
pub proof fn lemma_alnum_field_append(s: Seq<char>, u: Seq<char>)
    requires
        spec_alnum_field(s) is Some,
    ensures
        spec_alnum_field(s + u) == Some(
            (spec_alnum_field(s)->Some_0.0, spec_alnum_field(s)->Some_0.1 + u),
        ),
{
    lemma_field_append(s, u);
}

/// Appending text after a complete optional alphanumeric field leaves it
/// unchanged.
pub proof fn lemma_opt_alnum_field_append(s: Seq<char>, u: Seq<char>)
    requires
        spec_opt_alnum_field(s) is Some,
    ensures
        spec_opt_alnum_field(s + u) == Some(
            (spec_opt_alnum_field(s)->Some_0.0, spec_opt_alnum_field(s)->Some_0.1 + u),
        ),
{
    lemma_field_append(s, u);
}

/// Appending text after a complete free-text field leaves it unchanged.
pub proof fn lemma_text_field_append(s: Seq<char>, u: Seq<char>)
    requires
        spec_text_field(s) is Some,
    ensures
        spec_text_field(s + u) == Some(
            (spec_text_field(s)->Some_0.0, spec_text_field(s)->Some_0.1 + u),
        ),
{
    lemma_field_append(s, u);
}

/// Appending text after a consumed comma leaves the step unchanged.
pub proof fn lemma_eat_comma_append(s: Seq<char>, u: Seq<char>)
    requires
        spec_eat_comma(s) is Some,
    ensures
        spec_eat_comma(s + u) == Some(spec_eat_comma(s)->Some_0 + u),
{
    assert((s + u)[0] == s[0]);
    assert((s + u).skip(1) =~= s.skip(1) + u);
}

/// One field of a line under construction: a token, the comma delimiter,
/// and the rest of the line.
pub open spec fn fld(t: Seq<char>, rest: Seq<char>) -> Seq<char> {
    t + seq![','] + rest
}

/// A comma-free token followed by the delimiter forms one complete field.
pub proof fn lemma_field_intro(t: Seq<char>, r: Seq<char>)
    requires
        forall|k: int| 0 <= k < t.len() ==> t[k] != ',',
    ensures
        spec_field(fld(t, r)) == Some((t, r)),
{
    let s = fld(t, r);
    lemma_part_len(t, ',');
    if part_len(t, ',') < t.len() {
        assert(t[part_len(t, ',') as int] == ',');
    }
    assert(s =~= t + (seq![','] + r));
    lemma_part_len_append(t, seq![','] + r, ',');
    assert((seq![','] + r)[0] == ',');
    assert(tok_len(s) == t.len());
    assert(s.take(t.len() as int) =~= t);
    assert(s.skip(t.len() as int + 1) =~= r);
}

/// A digit run is comma-free, so it forms one complete decimal field.
pub proof fn lemma_dec_field_intro(t: Seq<char>, r: Seq<char>, max: int)
    requires
        t.len() > 0,
        all_dec_digits(t),
        dec_val(t) <= max,
    ensures
        spec_dec_field(fld(t, r), max) == Some((dec_val(t), r)),
{
    assert forall|k: int| 0 <= k < t.len() implies t[k] != ',' by {
        assert(is_dec_digit(t[k]));
    }
    lemma_field_intro(t, r);
}

/// An empty or digit-run token forms one complete optional decimal field.
pub proof fn lemma_opt_dec_field_intro(t: Seq<char>, r: Seq<char>, max: int)
    requires
        t.len() == 0 || (all_dec_digits(t) && dec_val(t) <= max),
    ensures
        spec_opt_dec_field(fld(t, r), max) == Some(
            (
                if t.len() == 0 {
                    None
                } else {
                    Some(dec_val(t))
                },
                r,
            ),
        ),
{
    assert forall|k: int| 0 <= k < t.len() implies t[k] != ',' by {
        assert(is_dec_digit(t[k]));
    }
    lemma_field_intro(t, r);
}

/// A hexadecimal byte token forms one complete hexadecimal field.
pub proof fn lemma_hex_u8_field_intro(t: Seq<char>, r: Seq<char>)
    requires
        t.len() >= 3,
        t[0] == '0',
        t[1] == 'x' || t[1] == 'X',
        all_hex_digits(t.skip(2)),
        hex_val(t.skip(2)) <= 255,
    ensures
        spec_hex_u8_field(fld(t, r)) == Some((hex_val(t.skip(2)) as u8, r)),
{
    assert forall|k: int| 0 <= k < t.len() implies t[k] != ',' by {
        if k >= 2 {
            assert(is_hex_digit(t.skip(2)[k - 2]));
        }
    }
    lemma_field_intro(t, r);
}

/// A nonempty alphanumeric token forms one complete alphanumeric field.
pub proof fn lemma_alnum_field_intro(t: Seq<char>, r: Seq<char>)
    requires
        t.len() > 0,
        all_alnum(t),
    ensures
        spec_alnum_field(fld(t, r)) == Some((t, r)),
{
    assert forall|k: int| 0 <= k < t.len() implies t[k] != ',' by {
        assert(is_alnum(t[k]));
    }
    lemma_field_intro(t, r);
}

/// An empty or alphanumeric token forms one complete optional
/// alphanumeric field.
pub proof fn lemma_opt_alnum_field_intro(t: Seq<char>, r: Seq<char>)
    requires
        all_alnum(t),
    ensures
        spec_opt_alnum_field(fld(t, r)) == Some(
            (
                if t.len() == 0 {
                    None
                } else {
                    Some(t)
                },
                r,
            ),
        ),
{
    assert forall|k: int| 0 <= k < t.len() implies t[k] != ',' by {
        assert(is_alnum(t[k]));
    }
    lemma_field_intro(t, r);
}

/// A comma-free token forms one complete free-text field.
pub proof fn lemma_text_field_intro(t: Seq<char>, r: Seq<char>)
    requires
        forall|k: int| 0 <= k < t.len() ==> t[k] != ',',
    ensures
        spec_text_field(fld(t, r)) == Some((t, r)),
{
    lemma_field_intro(t, r);
}

} // verus!


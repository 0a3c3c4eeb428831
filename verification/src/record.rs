//! The device-identifier resolver for the kernel-process-table platform
//! family: parse the calling process's status record.
//!
//! The record is a single line of whitespace-separated fields. One field,
//! the process name, may itself contain spaces and parentheses; it ends at
//! the last `)` of the record. Parsing therefore skips to two positions past
//! that delimiter, splits the remainder on whitespace, takes the token at
//! zero-based offset 4, reads it as a signed 32-bit decimal integer, and
//! widens it to the unsigned 64-bit device-identifier type.

use vstd::prelude::*;

use crate::error::CttyError;

verus! {

/// ASCII whitespace: the separators between the record's fields.
pub open spec fn is_ws(b: u8) -> bool {
    b == 32 || b == 9 || b == 10 || b == 11 || b == 12 || b == 13
}

/// Index of the last `)` in `s`, or `-1` when none occurs.
pub open spec fn last_rparen(s: Seq<u8>) -> int
    decreases s.len(),
{
    if s.len() == 0 {
        -1
    } else if s.last() == 41u8 {
        s.len() - 1
    } else {
        last_rparen(s.drop_last())
    }
}

/// The first position at or after `i` that ends `s` or holds a
/// non-whitespace byte.
pub open spec fn skip_ws_idx(s: Seq<u8>, i: int) -> int
    recommends
        0 <= i,
    decreases s.len() - i,
{
    if i >= s.len() {
        s.len() as int
    } else if is_ws(s[i]) {
        skip_ws_idx(s, i + 1)
    } else {
        i
    }
}

/// The first position at or after `i` that ends `s` or holds a whitespace
/// byte: the end of the token starting at `i`.
pub open spec fn skip_token_idx(s: Seq<u8>, i: int) -> int
    recommends
        0 <= i,
    decreases s.len() - i,
{
    if i >= s.len() {
        s.len() as int
    } else if !is_ws(s[i]) {
        skip_token_idx(s, i + 1)
    } else {
        i
    }
}

/// The position where the token at zero-based offset `n` of the
/// whitespace-separated tokens of `s[i..]` starts; `s.len()` when there are
/// no more than `n` tokens there.
pub open spec fn nth_token_start(s: Seq<u8>, i: int, n: nat) -> int
    recommends
        0 <= i,
    decreases n,
{
    if n == 0 {
        skip_ws_idx(s, i)
    } else {
        nth_token_start(s, skip_token_idx(s, skip_ws_idx(s, i)), (n - 1) as nat)
    }
}

/// An ASCII decimal digit.
pub open spec fn is_digit(b: u8) -> bool {
    48 <= b && b <= 57
}

/// The value of a sequence of decimal digits, most significant first.
pub open spec fn digits_val(t: Seq<u8>) -> int
    decreases t.len(),
{
    if t.len() == 0 {
        0
    } else {
        digits_val(t.drop_last()) * 10 + (t.last() - 48)
    }
}

/// Every byte of `t` is a decimal digit.
pub open spec fn all_digits(t: Seq<u8>) -> bool {
    forall|i: int| 0 <= i < t.len() ==> is_digit(#[trigger] t[i])
}

/// The digits of a decimal integer token, past any single leading `+`
/// or `-` sign.
pub open spec fn int_body(t: Seq<u8>) -> Seq<u8> {
    if t.len() > 0 && (t[0] == 43u8 || t[0] == 45u8) {
        t.drop_first()
    } else {
        t
    }
}

/// The token has the shape of a decimal integer: an optional sign followed
/// by at least one digit and nothing else.
pub open spec fn is_dec_int(t: Seq<u8>) -> bool {
    int_body(t).len() > 0 && all_digits(int_body(t))
}

/// The signed value of a decimal integer token.
pub open spec fn dec_int_val(t: Seq<u8>) -> int {
    if t.len() > 0 && t[0] == 45u8 {
        -digits_val(int_body(t))
    } else {
        digits_val(int_body(t))
    }
}

/// What reading the token as a signed 32-bit decimal integer yields: its
/// value when it has the shape of a decimal integer and the value fits,
/// `None` otherwise.
pub open spec fn parsed_i32(t: Seq<u8>) -> Option<i32> {
    if is_dec_int(t) && -0x8000_0000 <= dec_int_val(t) <= 0x7fff_ffff {
        Some(dec_int_val(t) as i32)
    } else {
        None
    }
}

/// The unsigned 64-bit value with the same two's-complement bits as `v`:
/// how the parsed identifier is widened to the device-identifier type.
pub open spec fn widened_dev(v: i32) -> u64 {
    if v >= 0 {
        v as u64
    } else {
        (v + 0x1_0000_0000_0000_0000) as u64
    }
}

/// What parsing a status record yields. The name delimiter is the last `)`
/// of the record; a record without `)`, with fewer than 5 tokens past the
/// delimiter, or whose token at offset 4 is not a 32-bit decimal integer is
/// malformed.
pub open spec fn record_dev(s: Seq<u8>) -> Result<u64, CttyError> {
    if last_rparen(s) < 0 {
        Err(CttyError::SystemDataParseFailure)
    } else {
        let a = nth_token_start(s, last_rparen(s) + 2, 4);
        if a >= s.len() {
            Err(CttyError::SystemDataParseFailure)
        } else {
            match parsed_i32(s.subrange(a, skip_token_idx(s, a))) {
                Some(v) => Ok(widened_dev(v)),
                None => Err(CttyError::SystemDataParseFailure),
            }
        }
    }
}

/// The name delimiter that parsing uses is the last `)` of the record: it
/// holds `)` and every later byte differs from `)`; when the record has no
/// `)` at all, the delimiter is reported absent.
pub proof fn lemma_delimiter_is_last_rparen(s: Seq<u8>)
    ensures
        -1 <= last_rparen(s) < s.len(),
        last_rparen(s) >= 0 ==> s[last_rparen(s)] == 41u8,
        forall|j: int| last_rparen(s) < j < s.len() ==> s[j] != 41u8,
    decreases s.len(),
{
    if s.len() > 0 && s.last() != 41u8 {
        lemma_delimiter_is_last_rparen(s.drop_last());
        assert forall|j: int| last_rparen(s) < j < s.len() implies s[j] != 41u8 by {
            if j < s.len() - 1 {
                assert(s.drop_last()[j] == s[j]);
            } else {
                assert(s[j] == s.last());
            }
        }
    }
}

/// A sequence of digits is worth at least any of its prefixes, and at
/// least 0: appending a digit multiplies the value by 10 and adds the digit.
proof fn lemma_digits_val_prefix(u: Seq<u8>, m: int)
    requires
        0 <= m <= u.len(),
        all_digits(u),
    ensures
        0 <= digits_val(u.take(m)) <= digits_val(u),
    decreases u.len(),
{
    if u.len() == 0 {
        assert(u.take(m) =~= u);
    } else {
        assert(all_digits(u.drop_last()));
        if m == u.len() {
            assert(u.take(m) =~= u);
            lemma_digits_val_prefix(u.drop_last(), u.len() - 1);
            assert(u.drop_last().take(u.len() - 1) =~= u.drop_last());
        } else {
            lemma_digits_val_prefix(u.drop_last(), m);
            assert(u.drop_last().take(m) =~= u.take(m));
            lemma_digits_val_prefix(u.drop_last(), u.len() - 1);
            assert(u.drop_last().take(u.len() - 1) =~= u.drop_last());
        }
    }
}

/// Past the end of the record there are no tokens: scanning for any token
/// from a position at or past the end stays at the end.
proof fn lemma_nth_token_start_past_end(s: Seq<u8>, i: int, n: nat)
    requires
        i >= s.len(),
    ensures
        nth_token_start(s, i, n) == s.len(),
    decreases n,
{
    if n > 0 {
        lemma_nth_token_start_past_end(s, skip_token_idx(s, skip_ws_idx(s, i)), (n - 1) as nat);
    }
}

/// Exec mirror of [`is_ws`].
fn ws_byte(b: u8) -> (r: bool)
    ensures
        r == is_ws(b),
{
    b == 32 || b == 9 || b == 10 || b == 11 || b == 12 || b == 13
}

/// Scans past whitespace, returning the first position at or after `i` that
/// ends the record or holds a non-whitespace byte.
fn skip_ws_from(s: &[u8], i: usize) -> (r: usize)
    requires
        i <= s@.len(),
    ensures
        i <= r <= s@.len(),
        r == skip_ws_idx(s@, i as int),
{
    let mut j: usize = i;
    while j < s.len() && ws_byte(s[j])
        invariant
            i <= j <= s@.len(),
            skip_ws_idx(s@, i as int) == skip_ws_idx(s@, j as int),
        decreases s@.len() - j,
    {
        j += 1;
    }
    j
}

/// Scans past a token, returning the first position at or after `i` that
/// ends the record or holds a whitespace byte.
fn skip_token_from(s: &[u8], i: usize) -> (r: usize)
    requires
        i <= s@.len(),
    ensures
        i <= r <= s@.len(),
        r == skip_token_idx(s@, i as int),
{
    let mut j: usize = i;
    while j < s.len() && !ws_byte(s[j])
        invariant
            i <= j <= s@.len(),
            skip_token_idx(s@, i as int) == skip_token_idx(s@, j as int),
        decreases s@.len() - j,
    {
        j += 1;
    }
    j
}

/// Finds the index of the last `)` in the record, or `None` when the record
/// holds no `)`.
fn find_last_rparen(s: &[u8]) -> (r: Option<usize>)
    ensures
        match r {
            Some(k) => k < s@.len() && last_rparen(s@) == k as int,
            None => last_rparen(s@) == -1,
        },
{
    let mut found: Option<usize> = None;
    let mut j: usize = 0;
    while j < s.len()
        invariant
            j <= s@.len(),
            match found {
                Some(k) => k < j && last_rparen(s@.take(j as int)) == k as int,
                None => last_rparen(s@.take(j as int)) == -1,
            },
        decreases s@.len() - j,
    {
        proof {
            assert(s@.take(j + 1).drop_last() =~= s@.take(j as int));
            assert(s@.take(j + 1).last() == s@[j as int]);
        }
        if s[j] == 41u8 {
            found = Some(j);
        }
        j += 1;
    }
    proof {
        assert(s@.take(s@.len() as int) =~= s@);
    }
    found
}

/// Reads a token as a signed 32-bit decimal integer, returning `None` when
/// the token is not a decimal integer or its value does not fit.
fn parse_i32_token(t: &[u8]) -> (r: Option<i32>)
    ensures
        r == parsed_i32(t@),
{
    let n = t.len();
    let mut i: usize = 0;
    let mut neg = false;
    if n > 0 && (t[0] == 43u8 || t[0] == 45u8) {
        neg = t[0] == 45u8;
        i = 1;
    }
    proof {
        assert(int_body(t@) =~= t@.subrange(i as int, n as int));
    }
    if i == n {
        return None;
    }
    let ghost body = int_body(t@);
    let mut acc: u64 = 0;
    let mut j: usize = i;
    while j < n
        invariant
            i <= j <= n,
            n == t@.len(),
            body == int_body(t@),
            body =~= t@.subrange(i as int, n as int),
            acc == digits_val(body.take(j - i)),
            acc <= 0x8000_0000,
            all_digits(body.take(j - i)),
        decreases n - j,
    {
        let d = t[j];
        if d < 48 || d > 57 {
            proof {
                assert(body[j - i] == t@[j as int]);
                assert(!is_digit(body[j - i]));
            }
            return None;
        }
        let acc2 = acc * 10 + ((d - 48) as u64);
        proof {
            assert(body.take(j - i + 1).drop_last() =~= body.take(j - i));
            assert(body.take(j - i + 1).last() == t@[j as int]);
            assert(digits_val(body.take(j - i + 1)) == acc2);
            assert(all_digits(body.take(j - i + 1)));
        }
        if acc2 > 0x8000_0000 {
            proof {
                if all_digits(body) {
                    lemma_digits_val_prefix(body, j - i + 1);
                    assert(digits_val(body) >= acc2);
                }
            }
            return None;
        }
        acc = acc2;
        j += 1;
    }
    proof {
        assert(body.take(n - i) =~= body);
    }
    if neg {
        let v: i32 = (-(acc as i64)) as i32;
        Some(v)
    } else {
        if acc > 0x7fff_ffff {
            return None;
        }
        Some(acc as i32)
    }
}

/// Widens a parsed identifier to the unsigned 64-bit device-identifier
/// type, keeping its two's-complement bits.
fn widen_dev(v: i32) -> (r: u64)
    ensures
        r == widened_dev(v),
{
    if v >= 0 {
        v as u64
    } else {
        let m: u64 = (-(v as i64)) as u64;
        (u64::MAX - m) + 1
    }
}

/// Extracts the controlling terminal's device identifier from the calling
/// process's status record, given as the record's raw bytes.
///
/// The token at zero-based offset 4 past the name delimiter — the last `)`
/// of the record, see [`lemma_delimiter_is_last_rparen`] — is read as a
/// signed 32-bit decimal integer and widened to the device-identifier type.
/// A record without `)`, with fewer than 5 tokens past the delimiter, or
/// whose token at offset 4 is not such an integer yields
/// `SystemDataParseFailure`; no input panics.
pub fn ctty_dev_of_record(record: &[u8]) -> (r: Result<u64, CttyError>)
    ensures
        r == record_dev(record@),
{
    let n = record.len();
    let last = match find_last_rparen(record) {
        Some(k) => k,
        None => {
            return Err(CttyError::SystemDataParseFailure);
        },
    };
    let ghost spec_start: int = last_rparen(record@) + 2;
    let start: usize = if n - last > 2 {
        last + 2
    } else {
        n
    };
    proof {
        if spec_start > n {
            lemma_nth_token_start_past_end(record@, spec_start, 4);
            lemma_nth_token_start_past_end(record@, n as int, 4);
        }
    }
    let mut i: usize = start;
    let mut k: usize = 0;
    while k < 4
        invariant
            i <= n,
            n == record@.len(),
            k <= 4,
            nth_token_start(record@, spec_start, 4) == nth_token_start(
                record@,
                i as int,
                (4 - k) as nat,
            ),
        decreases 4 - k,
    {
        let w = skip_ws_from(record, i);
        i = skip_token_from(record, w);
        k += 1;
    }
    let a = skip_ws_from(record, i);
    if a == n {
        return Err(CttyError::SystemDataParseFailure);
    }
    let b = skip_token_from(record, a);
    let tok: &[u8] = &record[a..b];
    match parse_i32_token(tok) {
        Some(v) => Ok(widen_dev(v)),
        None => Err(CttyError::SystemDataParseFailure),
    }
}

} // verus!

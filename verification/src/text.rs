//! Character and string helpers shared by the configuration layer:
//! exact string comparison, ASCII case folding, and decimal parsing.

use vstd::prelude::*;

verus! {

/// ASCII lower-casing of a single character; everything outside `'A'..='Z'`
/// is left as it is.
pub open spec fn spec_lower(c: char) -> char {
    if 'A' <= c && c <= 'Z' {
        (((c as u32) + 32) as u8) as char
    } else {
        c
    }
}

/// A character sequence with every ASCII upper-case letter lowered.
pub open spec fn lower_seq(s: Seq<char>) -> Seq<char> {
    s.map_values(|c: char| spec_lower(c))
}

/// Lower one ASCII character.
pub fn lower_ascii(c: char) -> (r: char)
    ensures
        r == spec_lower(c),
{
    let u: u32 = c as u32;
    if 65 <= u && u <= 90 {
        ((u + 32) as u8) as char
    } else {
        c
    }
}

/// Exact equality of two string slices, decided character by character.
pub fn str_eq(a: &str, b: &str) -> (r: bool)
    ensures
        r == (a@ == b@),
{
    let alen = a.unicode_len();
    let blen = b.unicode_len();
    if alen != blen {
        return false;
    }
    let mut i: usize = 0;
    while i < alen
        invariant
            alen == a@.len(),
            blen == b@.len(),
            alen == blen,
            i <= alen,
            forall|j: int| 0 <= j < i ==> a@[j] == b@[j],
        decreases alen - i,
    {
        if a.get_char(i) != b.get_char(i) {
            return false;
        }
        i += 1;
    }
    proof {
        assert(a@ =~= b@);
    }
    true
}

/// Equality of two string slices up to ASCII case.
pub fn str_eq_ignore_ascii_case(a: &str, b: &str) -> (r: bool)
    ensures
        r == (lower_seq(a@) == lower_seq(b@)),
{
    let alen = a.unicode_len();
    let blen = b.unicode_len();
    if alen != blen {
        assert(lower_seq(a@).len() != lower_seq(b@).len());
        return false;
    }
    let mut i: usize = 0;
    while i < alen
        invariant
            alen == a@.len(),
            blen == b@.len(),
            alen == blen,
            i <= alen,
            forall|j: int| 0 <= j < i ==> lower_seq(a@)[j] == lower_seq(b@)[j],
        decreases alen - i,
    {
        if lower_ascii(a.get_char(i)) != lower_ascii(b.get_char(i)) {
            assert(lower_seq(a@)[i as int] != lower_seq(b@)[i as int]);
            return false;
        }
        i += 1;
    }
    proof {
        assert(lower_seq(a@) =~= lower_seq(b@));
    }
    true
}

/// Is `c` a decimal digit?
pub open spec fn is_dec_digit(c: char) -> bool {
    '0' <= c && c <= '9'
}

/// Numeric value of a decimal digit.
pub open spec fn digit_val(c: char) -> nat {
    ((c as u32) - 48) as nat
}

/// Value of a sequence of decimal digits read most-significant first.
pub open spec fn digits_val(s: Seq<char>) -> nat
    decreases s.len(),
{
    if s.len() == 0 {
        0
    } else {
        digits_val(s.drop_last()) * 10 + digit_val(s.last())
    }
}

/// Every character of `s` is a decimal digit.
pub open spec fn all_dec_digits(s: Seq<char>) -> bool {
    forall|i: int| 0 <= i < s.len() ==> is_dec_digit(s[i])
}

/// The digits of an unsigned decimal literal: an optional leading `'+'`
/// is dropped, everything else is kept.
pub open spec fn unsigned_body(s: Seq<char>) -> Seq<char> {
    if s.len() > 0 && s[0] == '+' {
        s.subrange(1, s.len() as int)
    } else {
        s
    }
}

/// Some all-digit prefix of `s` already exceeds `usize::MAX`.
pub open spec fn digits_overflow_usize(s: Seq<char>) -> bool {
    exists|j: int|
        0 < j <= s.len() && all_dec_digits(#[trigger] s.take(j)) && digits_val(s.take(j))
            > usize::MAX
}

/// The value a string denotes as an unsigned decimal number fitting `usize`,
/// if it denotes one: an optional `'+'`, then at least one digit.
pub open spec fn spec_usize_value(s: Seq<char>) -> Option<nat> {
    let body = unsigned_body(s);
    if body.len() > 0 && all_dec_digits(body) && digits_val(body) <= usize::MAX {
        Some(digits_val(body))
    } else {
        None
    }
}

/// The value of a digit string never shrinks as the string grows.
proof fn lemma_digits_val_mono(s: Seq<char>, j: int, i: int)
    requires
        0 <= j <= i <= s.len(),
    ensures
        digits_val(s.take(j)) <= digits_val(s.take(i)),
    decreases i - j,
{
    if j < i {
        lemma_digits_val_mono(s, j, i - 1);
        assert(s.take(i).drop_last() =~= s.take(i - 1));
        assert(digits_val(s.take(i)) == digits_val(s.take(i - 1)) * 10 + digit_val(
            s.take(i).last(),
        ));
    }
}

/// Why a string failed to parse as an unsigned decimal number, mirroring
/// the distinctions std's integer parsing draws.
#[derive(Debug, Clone, Copy, PartialEq, Eq, Structural)]
pub enum IntParseError {
    Empty,
    InvalidDigit,
    PosOverflow,
}

/// Why a string fails to parse as an unsigned decimal `usize`, if it does
/// fail: empty input, a stray character, or overflow, whichever a
/// left-to-right scan meets first.
pub open spec fn spec_usize_err(s: Seq<char>) -> Option<IntParseError> {
    let body = unsigned_body(s);
    if s.len() == 0 {
        Some(IntParseError::Empty)
    } else if body.len() == 0 {
        Some(IntParseError::InvalidDigit)
    } else if all_dec_digits(body) && digits_val(body) <= usize::MAX {
        None
    } else if digits_overflow_usize(body) {
        Some(IntParseError::PosOverflow)
    } else {
        Some(IntParseError::InvalidDigit)
    }
}

/// Parse an unsigned decimal literal (optional `'+'`, then digits) into a
/// `usize`, reporting empty input, a stray character, and overflow apart.
pub fn parse_usize(s: &str) -> (r: Result<usize, IntParseError>)
    ensures
        match spec_usize_err(s@) {
            None => r matches Ok(n) && n == digits_val(unsigned_body(s@)),
            Some(e) => r == Err::<usize, IntParseError>(e),
        },
{
    let len = s.unicode_len();
    if len == 0 {
        return Err(IntParseError::Empty);
    }
    let first = s.get_char(0);
    let start: usize = if first == '+' {
        1
    } else {
        0
    };
    let ghost body = unsigned_body(s@);
    proof {
        assert(body =~= s@.subrange(start as int, s@.len() as int));
    }
    if start == len {
        // only a sign, no digits
        return Err(IntParseError::InvalidDigit);
    }
    let mut i: usize = start;
    let mut acc: usize = 0;
    while i < len
        invariant
            len == s@.len(),
            start <= i <= len,
            start <= 1,
            body == unsigned_body(s@),
            body == s@.subrange(start as int, s@.len() as int),
            body.len() == len - start,
            s@.len() > 0,
            forall|j: int| 0 <= j < i - start ==> is_dec_digit(body[j]),
            acc == digits_val(body.take(i - start)),
        decreases len - i,
    {
        let c = s.get_char(i);
        proof {
            assert(body[i - start] == s@[i as int]);
        }
        if !('0' <= c && c <= '9') {
            proof {
                assert(!is_dec_digit(body[i - start]));
                assert(!all_dec_digits(body));
                assert forall|j: int|
                    0 < j <= body.len() && all_dec_digits(#[trigger] body.take(j)) implies digits_val(
                    body.take(j),
                ) <= usize::MAX by {
                    if j > i - start {
                        assert(body.take(j)[i - start] == body[i - start]);
                        assert(false);
                    } else {
                        lemma_digits_val_mono(body, j, i - start);
                    }
                }
                assert(!digits_overflow_usize(body));
            }
            return Err(IntParseError::InvalidDigit);
        }
        let d: usize = ((c as u32) - 48) as usize;
        proof {
            assert(is_dec_digit(body[i - start]));
            assert(d == digit_val(body[i - start]));
            assert(d <= 9);
        }
        if acc > (usize::MAX - d) / 10 {
            proof {
                let ghost k = i - start + 1;
                assert(body.take(k).drop_last() =~= body.take(k - 1));
                assert(digits_val(body.take(k)) == acc * 10 + d);
                assert(acc >= (usize::MAX - d) / 10 + 1);
                assert(acc * 10 + d > usize::MAX) by (nonlinear_arith)
                    requires
                        acc >= (usize::MAX - d) / 10 + 1,
                        d <= 9,
                        usize::MAX >= 10,
                ;
                assert(0 < k <= body.len() && all_dec_digits(body.take(k)) && digits_val(
                    body.take(k),
                ) > usize::MAX);
                assert(digits_overflow_usize(body));
                // the full string overflows as well, so the success clause is vacuous
                lemma_digits_val_mono(body, k, body.len() as int);
                assert(body.take(body.len() as int) =~= body);
            }
            return Err(IntParseError::PosOverflow);
        }
        proof {
            assert(acc * 10 + d <= usize::MAX) by (nonlinear_arith)
                requires
                    acc <= (usize::MAX - d) / 10,
                    d <= 9,
                    d <= usize::MAX,
            ;
            let ghost k = i - start + 1;
            assert(body.take(k).drop_last() =~= body.take(k - 1));
        }
        acc = acc * 10 + d;
        i += 1;
    }
    proof {
        assert(body.take(len - start) =~= body);
        assert(all_dec_digits(body));
        assert forall|j: int|
            0 < j <= body.len() && all_dec_digits(#[trigger] body.take(j)) implies digits_val(
            body.take(j),
        ) <= usize::MAX by {
            lemma_digits_val_mono(body, j, body.len() as int);
        }
        assert(!digits_overflow_usize(body));
    }
    Ok(acc)
}

/// The value a string denotes as a boolean, if it denotes one: exactly
/// `"true"` or `"false"`.
pub open spec fn spec_bool_value(s: Seq<char>) -> Option<bool> {
    if s == "true"@ {
        Some(true)
    } else if s == "false"@ {
        Some(false)
    } else {
        None
    }
}

/// Parse `"true"` or `"false"`; anything else is rejected.
pub fn parse_bool(s: &str) -> (r: Result<bool, ()>)
    ensures
        ({
            match spec_bool_value(s@) {
                Some(b) => r == Ok::<bool, ()>(b),
                None => r == Err::<bool, ()>(()),
            }
        }),
{
    if str_eq(s, "true") {
        Ok(true)
    } else if str_eq(s, "false") {
        Ok(false)
    } else {
        Err(())
    }
}

} // verus!

//! Decoding of the numeric and boolean literal texts that appear as quoted
//! values: unsigned and signed integers, the boolean encoding `"1"`/`"0"`,
//! and the numeric-literal shape (optional sign, digits, optional fraction,
//! optional exponent) used for values kept as validated text.
use vstd::prelude::*;
use crate::bytes::{is_ws, trim, trim_bytes};

verus! {

pub open spec fn is_digit(b: u8) -> bool {
    48 <= b <= 57
}

pub fn is_digit_byte(b: u8) -> (r: bool)
    ensures
        r == is_digit(b),
{
    48 <= b && b <= 57
}

/// Length of the longest digit prefix of `s`.
pub open spec fn digits_run(s: Seq<u8>) -> int
    decreases s.len(),
{
    if s.len() > 0 && is_digit(s[0]) {
        1 + digits_run(s.drop_first())
    } else {
        0
    }
}

pub proof fn lemma_digits_run_bounds(s: Seq<u8>)
    ensures
        0 <= digits_run(s) <= s.len(),
        forall|j: int| 0 <= j < digits_run(s) ==> is_digit(s[j]),
        digits_run(s) < s.len() ==> !is_digit(s[digits_run(s)]),
    decreases s.len(),
{
    if s.len() > 0 && is_digit(s[0]) {
        lemma_digits_run_bounds(s.drop_first());
        assert forall|j: int| 0 <= j < digits_run(s) implies is_digit(s[j]) by {
            if j > 0 {
                assert(s[j] == s.drop_first()[j - 1]);
            }
        }
    }
}

/// Counts the leading digits of `s` starting at `from`.
pub fn digits_run_at(s: &[u8], from: usize) -> (r: usize)
    requires
        from <= s@.len(),
    ensures
        r == digits_run(s@.skip(from as int)),
        from + r <= s@.len(),
{
    let mut i: usize = from;
    while i < s.len() && is_digit_byte(s[i])
        invariant
            from <= i <= s@.len(),
            digits_run(s@.skip(from as int)) == (i - from) + digits_run(s@.skip(i as int)),
        decreases s@.len() - i,
    {
        assert(s@.skip(i as int).drop_first() =~= s@.skip(i + 1));
        i += 1;
    }
    assert(digits_run(s@.skip(i as int)) == 0);
    i - from
}

/// The value of a digit string, most significant digit first.
pub open spec fn dec_val(s: Seq<u8>) -> nat
    decreases s.len(),
{
    if s.len() == 0 {
        0
    } else {
        10 * dec_val(s.drop_last()) + (s[s.len() - 1] - 48) as nat
    }
}

pub proof fn lemma_dec_val_step(s: Seq<u8>, i: int)
    requires
        0 <= i < s.len(),
    ensures
        dec_val(s.take(i + 1)) == 10 * dec_val(s.take(i)) + (s[i] - 48) as nat,
{
    assert(s.take(i + 1).drop_last() =~= s.take(i));
    assert(s.take(i + 1)[i] == s[i]);
}

pub proof fn lemma_dec_val_mono(s: Seq<u8>, i: int, j: int)
    requires
        0 <= i <= j <= s.len(),
        forall|k: int| 0 <= k < s.len() ==> is_digit(s[k]),
    ensures
        dec_val(s.take(i)) <= dec_val(s.take(j)),
    decreases j - i,
{
    if i < j {
        lemma_dec_val_mono(s, i, j - 1);
        lemma_dec_val_step(s, j - 1);
    }
}

/// The numeric value of `s` if it is one or more digits, and nothing else.
pub open spec fn parse_digits(s: Seq<u8>) -> Option<nat> {
    if s.len() >= 1 && digits_run(s) == s.len() {
        Some(dec_val(s))
    } else {
        None
    }
}

/// Digit-string value capped for `u32`; `None` when malformed or too large.
pub open spec fn digits_u32(s: Seq<u8>) -> Option<u32> {
    match parse_digits(s) {
        Some(n) => if n <= 0xffff_ffff {
            Some(n as u32)
        } else {
            None
        },
        None => None,
    }
}

pub fn parse_digits_u32(s: &[u8]) -> (r: Option<u32>)
    ensures
        r == digits_u32(s@),
{
    if s.len() == 0 {
        return None;
    }
    let mut i: usize = 0;
    let mut acc: u64 = 0;
    while i < s.len()
        invariant
            0 <= i <= s@.len(),
            forall|k: int| 0 <= k < i ==> is_digit(s@[k]),
            acc == dec_val(s@.take(i as int)),
            acc <= 0xffff_ffff,
        decreases s@.len() - i,
    {
        let b = s[i];
        if !is_digit_byte(b) {
            proof {
                lemma_digits_run_bounds(s@);
                if digits_run(s@) == s@.len() {
                    assert(is_digit(s@[i as int]));
                }
            }
            return None;
        }
        proof {
            lemma_dec_val_step(s@, i as int);
        }
        let next: u64 = acc * 10 + ((b - 48) as u64);
        if next > 0xffff_ffff {
            proof {
                assert(digits_run(s@) == s@.len() ==> {
                    &&& forall|k: int| 0 <= k < s@.len() ==> is_digit(s@[k])
                }) by {
                    lemma_digits_run_bounds(s@);
                }
                if digits_run(s@) == s@.len() {
                    lemma_dec_val_mono(s@, i + 1, s@.len() as int);
                    assert(s@.take(s@.len() as int) =~= s@);
                    assert(dec_val(s@) >= next);
                }
            }
            return None;
        }
        acc = next;
        i += 1;
    }
    proof {
        lemma_digits_run_bounds(s@);
        assert(digits_run(s@) == s@.len()) by {
            if digits_run(s@) < s@.len() {
                assert(!is_digit(s@[digits_run(s@)]));
            }
        }
        assert(s@.take(i as int) =~= s@);
    }
    Some(acc as u32)
}

/// Unsigned integer: optional leading `+`, then digits. Applied to the
/// whitespace-trimmed value text.
pub open spec fn parse_uint_text(s: Seq<u8>) -> Option<nat> {
    let t = trim(s);
    let d = if t.len() > 0 && t[0] == 43 {
        t.drop_first()
    } else {
        t
    };
    parse_digits(d)
}

pub open spec fn parse_u32_text(s: Seq<u8>) -> Option<u32> {
    match parse_uint_text(s) {
        Some(n) => if n <= 0xffff_ffff {
            Some(n as u32)
        } else {
            None
        },
        None => None,
    }
}

pub open spec fn parse_u16_text(s: Seq<u8>) -> Option<u16> {
    match parse_uint_text(s) {
        Some(n) => if n <= 0xffff {
            Some(n as u16)
        } else {
            None
        },
        None => None,
    }
}

pub open spec fn parse_u8_text(s: Seq<u8>) -> Option<u8> {
    match parse_uint_text(s) {
        Some(n) => if n <= 0xff {
            Some(n as u8)
        } else {
            None
        },
        None => None,
    }
}

/// Signed integer: optional `+` or `-`, then digits; must fit in `i32`.
pub open spec fn parse_i32_text(s: Seq<u8>) -> Option<i32> {
    let t = trim(s);
    if t.len() > 0 && t[0] == 45 {
        match parse_digits(t.drop_first()) {
            Some(n) => if n <= 0x8000_0000 {
                Some((-(n as int)) as i32)
            } else {
                None
            },
            None => None,
        }
    } else {
        let d = if t.len() > 0 && t[0] == 43 {
            t.drop_first()
        } else {
            t
        };
        match parse_digits(d) {
            Some(n) => if n <= 0x7fff_ffff {
                Some(n as i32)
            } else {
                None
            },
            None => None,
        }
    }
}

fn strip_plus(t: Vec<u8>) -> (r: Vec<u8>)
    ensures
        r@ == if t@.len() > 0 && t@[0] == 43 {
            t@.drop_first()
        } else {
            t@
        },
{
    if t.len() > 0 && t[0] == 43 {
        crate::bytes::subrange_to_vec(t.as_slice(), 1, t.len())
    } else {
        t
    }
}

pub fn parse_u32_bytes(s: &[u8]) -> (r: Option<u32>)
    ensures
        r == parse_u32_text(s@),
{
    let t = strip_plus(trim_bytes(s));
    parse_digits_u32(t.as_slice())
}

pub fn parse_u16_bytes(s: &[u8]) -> (r: Option<u16>)
    ensures
        r == parse_u16_text(s@),
{
    match parse_u32_bytes(s) {
        Some(n) => if n <= 0xffff {
            Some(n as u16)
        } else {
            proof {
                if parse_uint_text(s@) is Some {
                    let v = parse_uint_text(s@)->Some_0;
                    assert(v == n);
                }
            }
            None
        },
        None => {
            proof {
                if parse_uint_text(s@) is Some {
                    let v = parse_uint_text(s@)->Some_0;
                    assert(v > 0xffff_ffff);
                }
            }
            None
        },
    }
}

pub fn parse_u8_bytes(s: &[u8]) -> (r: Option<u8>)
    ensures
        r == parse_u8_text(s@),
{
    match parse_u32_bytes(s) {
        Some(n) => if n <= 0xff {
            Some(n as u8)
        } else {
            None
        },
        None => {
            proof {
                if parse_uint_text(s@) is Some {
                    let v = parse_uint_text(s@)->Some_0;
                    assert(v > 0xffff_ffff);
                }
            }
            None
        },
    }
}

pub fn parse_i32_bytes(s: &[u8]) -> (r: Option<i32>)
    ensures
        r == parse_i32_text(s@),
{
    let t = trim_bytes(s);
    if t.len() > 0 && t[0] == 45 {
        let d = crate::bytes::subrange_to_vec(t.as_slice(), 1, t.len());
        assert(d@ =~= t@.drop_first());
        match parse_digits_u32(d.as_slice()) {
            Some(n) => if n <= 0x8000_0000 {
                if n == 0x8000_0000 {
                    Some(i32::MIN)
                } else {
                    Some(-(n as i32))
                }
            } else {
                None
            },
            None => {
                proof {
                    if parse_digits(d@) is Some {
                        assert(parse_digits(d@)->Some_0 > 0xffff_ffff);
                    }
                }
                None
            },
        }
    } else {
        let d = strip_plus(t);
        match parse_digits_u32(d.as_slice()) {
            Some(n) => if n <= 0x7fff_ffff {
                Some(n as i32)
            } else {
                None
            },
            None => {
                proof {
                    if parse_digits(d@) is Some {
                        assert(parse_digits(d@)->Some_0 > 0xffff_ffff);
                    }
                }
                None
            },
        }
    }
}

/// The boolean encoding: the trimmed text must be exactly `1` or `0`.
pub open spec fn parse_bool_text(s: Seq<u8>) -> Option<bool> {
    let t = trim(s);
    if t.len() == 1 && t[0] == 49 {
        Some(true)
    } else if t.len() == 1 && t[0] == 48 {
        Some(false)
    } else {
        None
    }
}

pub fn parse_bool_bytes(s: &[u8]) -> (r: Option<bool>)
    ensures
        r == parse_bool_text(s@),
{
    let t = trim_bytes(s);
    if t.len() == 1 && t[0] == 49 {
        Some(true)
    } else if t.len() == 1 && t[0] == 48 {
        Some(false)
    } else {
        None
    }
}

/// One optional leading sign removed.
pub open spec fn strip_sign(s: Seq<u8>) -> Seq<u8> {
    if s.len() > 0 && (s[0] == 43 || s[0] == 45) {
        s.drop_first()
    } else {
        s
    }
}

/// The exponent tail of a numeric literal: empty, or `e`/`E`, an optional
/// sign, and one or more digits reaching the end.
pub open spec fn exp_tail_ok(r: Seq<u8>) -> bool {
    if r.len() == 0 {
        true
    } else if r[0] == 101 || r[0] == 69 {
        let u = strip_sign(r.drop_first());
        u.len() >= 1 && digits_run(u) == u.len()
    } else {
        false
    }
}

/// What may follow the integer part: nothing, a fraction (`.` then digits)
/// possibly followed by an exponent, or an exponent.
pub open spec fn frac_tail_ok(r: Seq<u8>) -> bool {
    if r.len() == 0 {
        true
    } else if r[0] == 46 {
        let d = digits_run(r.drop_first());
        d >= 1 && exp_tail_ok(r.drop_first().skip(d))
    } else {
        exp_tail_ok(r)
    }
}

/// A numeric literal: optional sign, one or more digits, optional fraction,
/// optional exponent. This is the shape of every real-valued field's text.
pub open spec fn is_number_body(s: Seq<u8>) -> bool {
    let u = strip_sign(s);
    let d = digits_run(u);
    d >= 1 && frac_tail_ok(u.skip(d))
}

/// A numeric literal after trimming surrounding whitespace.
pub open spec fn is_number_text(s: Seq<u8>) -> bool {
    is_number_body(trim(s))
}

fn exp_tail_check(s: &[u8], from: usize) -> (r: bool)
    requires
        from <= s@.len(),
    ensures
        r == exp_tail_ok(s@.skip(from as int)),
{
    let ghost t = s@.skip(from as int);
    if from == s.len() {
        true
    } else if s[from] == 101 || s[from] == 69 {
        let mut i: usize = from + 1;
        assert(t.drop_first() =~= s@.skip(from + 1));
        if i < s.len() && (s[i] == 43 || s[i] == 45) {
            assert(s@.skip(from + 1).drop_first() =~= s@.skip(from + 2));
            i += 1;
        }
        let ghost u = strip_sign(t.drop_first());
        assert(u =~= s@.skip(i as int));
        let d = crate::num::digits_run_at(s, i);
        proof {
            lemma_digits_run_bounds(u);
        }
        d >= 1 && i + d == s.len()
    } else {
        false
    }
}

/// Checks whether `s` is a numeric literal once trimmed.
pub fn is_number_bytes(s: &[u8]) -> (r: bool)
    ensures
        r == is_number_text(s@),
{
    let t = trim_bytes(s);
    is_number_body_bytes(t.as_slice())
}

/// Checks the numeric-literal shape without trimming.
pub fn is_number_body_bytes(s: &[u8]) -> (r: bool)
    ensures
        r == is_number_body(s@),
{
    let mut i: usize = 0;
    if s.len() > 0 && (s[0] == 43 || s[0] == 45) {
        i = 1;
    }
    let ghost u = strip_sign(s@);
    assert(u =~= s@.skip(i as int));
    let d = digits_run_at(s, i);
    proof {
        lemma_digits_run_bounds(u);
    }
    if d == 0 {
        return false;
    }
    let j = i + d;
    let ghost rt = u.skip(d as int);
    assert(rt =~= s@.skip(j as int));
    if j == s.len() {
        true
    } else if s[j] == 46 {
        assert(rt.drop_first() =~= s@.skip(j + 1));
        let d2 = digits_run_at(s, j + 1);
        proof {
            lemma_digits_run_bounds(s@.skip(j + 1));
        }
        if d2 == 0 {
            false
        } else {
            assert(rt.drop_first().skip(d2 as int) =~= s@.skip(j + 1 + d2));
            exp_tail_check(s, j + 1 + d2)
        }
    } else {
        exp_tail_check(s, j)
    }
}

} // verus!

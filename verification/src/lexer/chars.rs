//! Character classes used by the lexer.
use vstd::prelude::*;

verus! {

/// Whether `c` has the Unicode `Alphabetic` property, as `char::is_alphabetic` reports it.
pub uninterp spec fn unicode_alphabetic(c: char) -> bool;

/// Whether `c` is alphabetic or numeric in Unicode, as `char::is_alphanumeric` reports it.
pub uninterp spec fn unicode_alphanumeric(c: char) -> bool;

/// Trusted: calls `char::is_alphabetic`. Its result depends on `c` alone
/// (a lookup in the Unicode tables), so it is named by `unicode_alphabetic`.
/// Stated besides: within ASCII exactly the letters `a`-`z` and `A`-`Z`
/// have the Alphabetic property; beyond ASCII nothing more is stated.
#[verifier::external_body]
pub fn is_alphabetic(c: char) -> (r: bool)
    ensures
        r == unicode_alphabetic(c),
        c <= '\x7f' ==> (r == spec_is_ascii_alpha(c)),
{
    c.is_alphabetic()
}

/// Trusted: calls `char::is_alphanumeric`. Its result depends on `c` alone,
/// so it is named by `unicode_alphanumeric`. Stated besides: it holds of
/// every alphabetic char, and within ASCII exactly of the letters and the
/// digits `0`-`9`; beyond ASCII nothing more is stated.
#[verifier::external_body]
pub fn is_alphanumeric(c: char) -> (r: bool)
    ensures
        r == unicode_alphanumeric(c),
        unicode_alphabetic(c) ==> r,
        c <= '\x7f' ==> (r == (spec_is_ascii_alpha(c) || spec_is_digit(c))),
{
    c.is_alphanumeric()
}

pub open spec fn spec_is_digit(c: char) -> bool {
    '0' <= c && c <= '9'
}

pub open spec fn spec_is_ascii_alpha(c: char) -> bool {
    ('a' <= c && c <= 'z') || ('A' <= c && c <= 'Z')
}

pub open spec fn spec_is_hex_digit(c: char) -> bool {
    spec_is_digit(c) || ('a' <= c && c <= 'f') || ('A' <= c && c <= 'F')
}

/// A char that may start an identifier.
pub open spec fn spec_is_letter(c: char) -> bool {
    unicode_alphabetic(c) || c == '_'
}

#[verifier::when_used_as_spec(spec_is_digit)]
pub fn is_digit(c: char) -> (r: bool)
    ensures
        r == spec_is_digit(c),
{
    '0' <= c && c <= '9'
}

#[verifier::when_used_as_spec(spec_is_ascii_alpha)]
pub fn is_ascii_alpha(c: char) -> (r: bool)
    ensures
        r == spec_is_ascii_alpha(c),
{
    ('a' <= c && c <= 'z') || ('A' <= c && c <= 'Z')
}

#[verifier::when_used_as_spec(spec_is_hex_digit)]
pub fn is_hex_digit(c: char) -> (r: bool)
    ensures
        r == spec_is_hex_digit(c),
{
    is_digit(c) || ('a' <= c && c <= 'f') || ('A' <= c && c <= 'F')
}

#[verifier::when_used_as_spec(spec_is_letter)]
pub fn is_letter(c: char) -> (r: bool)
    ensures
        r == spec_is_letter(c),
{
    is_alphabetic(c) || c == '_'
}

/// The value of a digit in bases up to 16 (`0`-`9`, `a`-`f`, `A`-`F`).
pub open spec fn digit_value(c: char) -> int {
    if '0' <= c && c <= '9' {
        c as int - '0' as int
    } else if 'a' <= c && c <= 'f' {
        c as int - 'a' as int + 10
    } else if 'A' <= c && c <= 'F' {
        c as int - 'A' as int + 10
    } else {
        0
    }
}

/// The number a sequence of digits denotes in the given base (most significant first).
pub open spec fn digits_value(d: Seq<char>, radix: int) -> int
    decreases d.len(),
{
    if d.len() == 0 {
        0
    } else {
        digits_value(d.drop_last(), radix) * radix + digit_value(d.last())
    }
}

pub proof fn lemma_digits_value_nonneg(d: Seq<char>, radix: int)
    requires
        radix >= 2,
    ensures
        digits_value(d, radix) >= 0,
    decreases d.len(),
{
    if d.len() > 0 {
        lemma_digits_value_nonneg(d.drop_last(), radix);
        let v = digits_value(d.drop_last(), radix);
        assert(v * radix >= 0) by (nonlinear_arith)
            requires
                v >= 0,
                radix >= 2,
        ;
    }
}

/// A value never gets smaller when more digits are appended.
pub proof fn lemma_digits_value_prefix(d: Seq<char>, k: int, radix: int)
    requires
        0 <= k <= d.len(),
        radix >= 2,
        forall|i: int| 0 <= i < d.len() ==> 0 <= #[trigger] digit_value(d[i]) < radix,
    ensures
        digits_value(d.take(k), radix) <= digits_value(d, radix),
    decreases d.len() - k,
{
    if k < d.len() {
        lemma_digits_value_prefix(d, k + 1, radix);
        let t = d.take(k + 1);
        assert(t.drop_last() =~= d.take(k));
        lemma_digits_value_nonneg(d.take(k), radix);
        let v = digits_value(d.take(k), radix);
        assert(t.last() == d[k]);
        assert(v * radix + digit_value(d[k]) >= v) by (nonlinear_arith)
            requires
                v >= 0,
                radix >= 2,
                digit_value(d[k]) >= 0,
        ;
    } else {
        assert(d.take(k) =~= d);
    }
}

/// Reads the digits `d` in base `radix`; `None` when the value exceeds `max`.
pub fn parse_digits(d: &Vec<char>, radix: u32, max: u64) -> (r: Option<u64>)
    requires
        2 <= radix <= 16,
        max >= 16,
        forall|i: int| 0 <= i < d@.len() ==> 0 <= #[trigger] digit_value(d@[i]) < radix,
    ensures
        r matches Some(v) ==> v == digits_value(d@, radix as int) && v <= max,
        r is None ==> digits_value(d@, radix as int) > max,
{
    let mut acc: u64 = 0;
    let mut i: usize = 0;
    while i < d.len()
        invariant
            0 <= i <= d.len(),
            2 <= radix <= 16,
            max >= 16,
            forall|k: int| 0 <= k < d@.len() ==> 0 <= #[trigger] digit_value(d@[k]) < radix,
            acc == digits_value(d@.take(i as int), radix as int),
            acc <= max,
        decreases d.len() - i,
    {
        let c = d[i];
        let dv: u64 = if '0' <= c && c <= '9' {
            (c as u32 - '0' as u32) as u64
        } else if 'a' <= c && c <= 'f' {
            (c as u32 - 'a' as u32 + 10) as u64
        } else if 'A' <= c && c <= 'F' {
            (c as u32 - 'A' as u32 + 10) as u64
        } else {
            0
        };
        assert(dv == digit_value(c));
        assert(d@.take(i + 1).drop_last() =~= d@.take(i as int));
        assert(d@.take(i + 1).last() == c);
        let r64 = radix as u64;
        let lim = (max - dv) / r64;
        if acc > lim {
            proof {
                assert(acc * r64 + dv > max) by (nonlinear_arith)
                    requires
                        lim == (max - dv) as int / (r64 as int),
                        acc > lim,
                        r64 >= 2,
                        dv < r64,
                        dv <= max,
                ;
                lemma_digits_value_prefix(d@, i + 1, radix as int);
            }
            return None;
        }
        assert(acc * r64 + dv <= max) by (nonlinear_arith)
            requires
                lim == (max - dv) as int / (r64 as int),
                acc <= lim,
                r64 >= 2,
                dv <= max,
        ;
        acc = acc * r64 + dv;
        i += 1;
    }
    assert(d@.take(d.len() as int) =~= d@);
    Some(acc)
}

} // verus!

//! A parser for the helper protocol's wire format: one flat JSON object per
//! line, with string, number, boolean and null fields. Nested objects and
//! arrays do not occur in the protocol and are treated as malformed, as is
//! anything else the grammar below refuses; the reader skips such lines.
//!
//! Numbers are read as integers truncated toward zero; a number whose
//! truncation does not fit `i64` is refused. In strings, the named escapes
//! and `\u00XX` are understood; `\u` escapes above `00FF` are refused.

use vstd::prelude::*;
use crate::text::push_char;

verus! {

/// JSON whitespace.
pub open spec fn spec_is_ws(c: char) -> bool {
    c == ' ' || c == '\t' || c == '\n' || c == '\r'
}

/// The first position at or after `i` that does not hold whitespace.
pub open spec fn spec_skip_ws(s: Seq<char>, i: int) -> int
    decreases s.len() - i,
{
    if 0 <= i < s.len() && spec_is_ws(s[i]) {
        spec_skip_ws(s, i + 1)
    } else {
        i
    }
}

/// An ASCII decimal digit.
pub open spec fn spec_is_digit(c: char) -> bool {
    '0' <= c && c <= '9'
}

/// The value of one decimal digit.
pub open spec fn spec_digit_val(c: char) -> int {
    c as u32 - 48
}

/// The end of the run of decimal digits starting at `i`.
pub open spec fn spec_scan_digits(s: Seq<char>, i: int) -> int
    decreases s.len() - i,
{
    if 0 <= i < s.len() && spec_is_digit(s[i]) {
        spec_scan_digits(s, i + 1)
    } else {
        i
    }
}

/// Scanning digits never moves backwards nor past the end, and everything
/// scanned over is a digit.
pub proof fn lemma_scan_digits_bounds(s: Seq<char>, i: int)
    requires
        0 <= i <= s.len(),
    ensures
        i <= spec_scan_digits(s, i) <= s.len(),
        forall|k: int| i <= k < spec_scan_digits(s, i) ==> spec_is_digit(#[trigger] s[k]),
    decreases s.len() - i,
{
    if i < s.len() && spec_is_digit(s[i]) {
        lemma_scan_digits_bounds(s, i + 1);
    }
}

/// The value of a hex digit, or nothing for any other character.
pub open spec fn spec_hex_val(c: char) -> Option<int> {
    if '0' <= c && c <= '9' {
        Some(c as u32 - 48)
    } else if 'a' <= c && c <= 'f' {
        Some(c as u32 - 87)
    } else if 'A' <= c && c <= 'F' {
        Some(c as u32 - 55)
    } else {
        None
    }
}

/// The characters of a string slice, as a vector the parser can index.
pub fn chars_of(s: &str) -> (v: Vec<char>)
    ensures
        v@ == s@,
{
    let n = s.unicode_len();
    let mut v: Vec<char> = Vec::new();
    let mut i: usize = 0;
    while i < n
        invariant
            n == s@.len(),
            i <= n,
            v@ == s@.take(i as int),
        decreases n - i,
    {
        v.push(s.get_char(i));
        proof {
            assert(v@ =~= s@.take(i + 1 as int));
        }
        i = i + 1;
    }
    proof {
        assert(s@.take(n as int) =~= s@);
    }
    v
}

/// Skips whitespace from `i`.
pub fn skip_ws(v: &Vec<char>, i: usize) -> (j: usize)
    requires
        i <= v@.len(),
    ensures
        j == spec_skip_ws(v@, i as int),
        i <= j <= v@.len(),
    decreases v@.len() - i,
{
    let mut j: usize = i;
    while j < v.len() && is_ws(v[j])
        invariant
            i <= j <= v@.len(),
            spec_skip_ws(v@, i as int) == spec_skip_ws(v@, j as int),
        decreases v@.len() - j,
    {
        j = j + 1;
    }
    j
}

/// Whether `c` is JSON whitespace.
pub fn is_ws(c: char) -> (r: bool)
    ensures
        r == spec_is_ws(c),
{
    c == ' ' || c == '\t' || c == '\n' || c == '\r'
}

/// Whether `c` is a decimal digit.
pub fn is_digit(c: char) -> (r: bool)
    ensures
        r == spec_is_digit(c),
{
    '0' <= c && c <= '9'
}

/// The end of the digit run starting at `i`.
pub fn scan_digits(v: &Vec<char>, i: usize) -> (j: usize)
    requires
        i <= v@.len(),
    ensures
        j == spec_scan_digits(v@, i as int),
        i <= j <= v@.len(),
{
    let mut j: usize = i;
    while j < v.len() && is_digit(v[j])
        invariant
            i <= j <= v@.len(),
            spec_scan_digits(v@, i as int) == spec_scan_digits(v@, j as int),
        decreases v@.len() - j,
    {
        j = j + 1;
    }
    j
}

/// The value of a hex digit.
pub fn hex_val(c: char) -> (r: Option<u8>)
    ensures
        match r {
            Some(n) => spec_hex_val(c) == Some(n as int) && n < 16,
            None => spec_hex_val(c) is None,
        },
{
    if '0' <= c && c <= '9' {
        Some(((c as u32) - 48) as u8)
    } else if 'a' <= c && c <= 'f' {
        Some(((c as u32) - 87) as u8)
    } else if 'A' <= c && c <= 'F' {
        Some(((c as u32) - 55) as u8)
    } else {
        None
    }
}

/// What one escape after a backslash stands for, and where the escape ends:
/// the named escapes, and `\u00XX` for a code point up to 255. Larger `\u`
/// codes do not occur in the protocol and are refused.
pub open spec fn spec_parse_escape(s: Seq<char>, i: int) -> Option<(char, int)> {
    if !(0 <= i < s.len()) {
        None
    } else {
        let c = s[i];
        if c == '"' {
            Some(('"', i + 1))
        } else if c == '\\' {
            Some(('\\', i + 1))
        } else if c == '/' {
            Some(('/', i + 1))
        } else if c == 'b' {
            Some(((8u8) as char, i + 1))
        } else if c == 'f' {
            Some(((12u8) as char, i + 1))
        } else if c == 'n' {
            Some(('\n', i + 1))
        } else if c == 'r' {
            Some(('\r', i + 1))
        } else if c == 't' {
            Some(('\t', i + 1))
        } else if c == 'u' && i + 5 <= s.len() {
            match (
                spec_hex_val(s[i + 1]),
                spec_hex_val(s[i + 2]),
                spec_hex_val(s[i + 3]),
                spec_hex_val(s[i + 4]),
            ) {
                (Some(h1), Some(h2), Some(h3), Some(h4)) => {
                    let code = h1 * 4096 + h2 * 256 + h3 * 16 + h4;
                    if code <= 255 {
                        Some(((code as u8) as char, i + 5))
                    } else {
                        None
                    }
                },
                _ => None,
            }
        } else {
            None
        }
    }
}

/// The characters a string body stands for, read from just after the opening
/// quote, and the position just after the closing quote. Unterminated
/// strings, raw control characters and unknown escapes are refused.
pub open spec fn spec_parse_string_body(s: Seq<char>, i: int) -> Option<(Seq<char>, int)>
    decreases s.len() - i,
{
    if !(0 <= i < s.len()) {
        None
    } else if s[i] == '"' {
        Some((Seq::empty(), i + 1))
    } else if s[i] == '\\' {
        match spec_parse_escape(s, i + 1) {
            None => None,
            Some((c, j)) => {
                if j <= i || j > s.len() {
                    None
                } else {
                    match spec_parse_string_body(s, j) {
                        None => None,
                        Some((rest, end)) => Some((seq![c] + rest, end)),
                    }
                }
            },
        }
    } else if (s[i] as u32) < 0x20 {
        None
    } else {
        match spec_parse_string_body(s, i + 1) {
            None => None,
            Some((rest, end)) => Some((seq![s[i]] + rest, end)),
        }
    }
}

/// A whole string token: the opening quote at `i`, the body, the closing
/// quote.
pub open spec fn spec_parse_string(s: Seq<char>, i: int) -> Option<(Seq<char>, int)> {
    if 0 <= i < s.len() && s[i] == '"' {
        spec_parse_string_body(s, i + 1)
    } else {
        None
    }
}

/// The body end never lies before the start nor past the end of the input.
pub proof fn lemma_string_body_bounds(s: Seq<char>, i: int)
    requires
        0 <= i <= s.len(),
    ensures
        match spec_parse_string_body(s, i) {
            Some((body, end)) => i < end <= s.len(),
            None => true,
        },
    decreases s.len() - i,
{
    if 0 <= i < s.len() {
        if s[i] == '\\' {
            match spec_parse_escape(s, i + 1) {
                Some((c, j)) => {
                    if i < j <= s.len() {
                        lemma_string_body_bounds(s, j);
                    }
                },
                None => {},
            }
        } else if s[i] != '"' && (s[i] as u32) >= 0x20 {
            lemma_string_body_bounds(s, i + 1);
        }
    }
}

/// Reads a string body from just after the opening quote; yields the
/// unescaped contents and the position just after the closing quote.
pub fn parse_string_body(v: &Vec<char>, i: usize) -> (r: Option<(String, usize)>)
    requires
        i <= v@.len(),
    ensures
        match r {
            Some(p) => spec_parse_string_body(v@, i as int) == Some((p.0@, p.1 as int)) && i < p.1
                <= v@.len(),
            None => spec_parse_string_body(v@, i as int) is None,
        },
{
    let mut out = String::new();
    let mut cur: usize = i;
    proof {
        assert(out@ =~= Seq::<char>::empty());
    }
    loop
        invariant
            i <= cur <= v@.len(),
            spec_parse_string_body(v@, cur as int) is None ==> spec_parse_string_body(
                v@,
                i as int,
            ) is None,
            forall|rest: Seq<char>, end: int|
                spec_parse_string_body(v@, cur as int) == Some::<(Seq<char>, int)>((rest, end))
                    ==> spec_parse_string_body(v@, i as int) == Some::<(Seq<char>, int)>(
                    (out@ + rest, end),
                ),
        decreases v@.len() - cur,
    {
        if cur >= v.len() {
            return None;
        }
        let c = v[cur];
        if c == '"' {
            proof {
                assert(spec_parse_string_body(v@, cur as int) == Some(
                    (Seq::<char>::empty(), cur + 1),
                ));
                assert(out@ + Seq::<char>::empty() =~= out@);
                lemma_string_body_bounds(v@, i as int);
            }
            return Some((out, cur + 1));
        } else if c == '\\' {
            if cur + 1 >= v.len() {
                return None;
            }
            let e = v[cur + 1];
            let (ec, j): (char, usize) = if e == '"' {
                ('"', cur + 2)
            } else if e == '\\' {
                ('\\', cur + 2)
            } else if e == '/' {
                ('/', cur + 2)
            } else if e == 'b' {
                ((8u8) as char, cur + 2)
            } else if e == 'f' {
                ((12u8) as char, cur + 2)
            } else if e == 'n' {
                ('\n', cur + 2)
            } else if e == 'r' {
                ('\r', cur + 2)
            } else if e == 't' {
                ('\t', cur + 2)
            } else if e == 'u' && v.len() - cur >= 6 {
                let h1 = hex_val(v[cur + 2]);
                let h2 = hex_val(v[cur + 3]);
                let h3 = hex_val(v[cur + 4]);
                let h4 = hex_val(v[cur + 5]);
                match (h1, h2, h3, h4) {
                    (Some(a), Some(b), Some(cc), Some(d)) => {
                        let code: u32 = (a as u32) * 4096 + (b as u32) * 256 + (cc as u32) * 16 + (
                        d as u32);
                        if code <= 255 {
                            ((code as u8) as char, cur + 6)
                        } else {
                            return None;
                        }
                    },
                    _ => {
                        return None;
                    },
                }
            } else {
                return None;
            };
            proof {
                assert(spec_parse_escape(v@, cur + 1 as int) == Some((ec, j as int)));
            }
            let ghost out0 = out@;
            push_char(&mut out, ec);
            proof {
                assert forall|rest: Seq<char>, end: int|
                    spec_parse_string_body(v@, j as int) == Some::<(Seq<char>, int)>(
                        (rest, end),
                    ) implies spec_parse_string_body(v@, i as int) == Some::<(Seq<char>, int)>(
                    (out@ + rest, end),
                ) by {
                    assert(spec_parse_string_body(v@, cur as int) == Some(
                        (seq![ec] + rest, end),
                    ));
                    assert(out0 + (seq![ec] + rest) =~= out@ + rest);
                }
            }
            cur = j;
        } else if (c as u32) < 0x20 {
            return None;
        } else {
            let ghost out0 = out@;
            push_char(&mut out, c);
            proof {
                assert forall|rest: Seq<char>, end: int|
                    spec_parse_string_body(v@, cur + 1 as int) == Some::<(Seq<char>, int)>(
                        (rest, end),
                    ) implies spec_parse_string_body(v@, i as int) == Some::<(Seq<char>, int)>(
                    (out@ + rest, end),
                ) by {
                    assert(spec_parse_string_body(v@, cur as int) == Some((seq![c] + rest, end)));
                    assert(out0 + (seq![c] + rest) =~= out@ + rest);
                }
            }
            cur = cur + 1;
        }
    }
}

/// Reads a whole string token whose opening quote sits at `i`.
pub fn parse_string(v: &Vec<char>, i: usize) -> (r: Option<(String, usize)>)
    requires
        i <= v@.len(),
    ensures
        match r {
            Some(p) => spec_parse_string(v@, i as int) == Some((p.0@, p.1 as int)) && i < p.1
                <= v@.len(),
            None => spec_parse_string(v@, i as int) is None,
        },
{
    if i < v.len() && v[i] == '"' {
        parse_string_body(v, i + 1)
    } else {
        None
    }
}

/// Ten to the power `n`.
pub open spec fn spec_pow10(n: nat) -> int
    decreases n,
{
    if n == 0 {
        1
    } else {
        10 * spec_pow10((n - 1) as nat)
    }
}

/// The number written by a run of decimal digits.
pub open spec fn spec_digits_val(d: Seq<char>) -> int
    decreases d.len(),
{
    if d.len() == 0 {
        0
    } else {
        spec_digits_val(d.drop_last()) * 10 + spec_digit_val(d.last())
    }
}

/// The number written by the first `k` digit slots of `d`, slots past the
/// end reading as zero. This is the truncation of the decimal `0.d` scaled
/// by ten to the `k`: the whole-number part of `d` with its point shifted to
/// sit after slot `k`.
pub open spec fn spec_prefix_val(d: Seq<char>, k: int) -> int
    decreases k,
{
    if k <= 0 {
        0
    } else {
        spec_prefix_val(d, k - 1) * 10 + (if k - 1 < d.len() {
            spec_digit_val(d[k - 1])
        } else {
            0
        })
    }
}

/// Every slot is a decimal digit.
pub open spec fn spec_all_digits(d: Seq<char>) -> bool {
    forall|m: int| 0 <= m < d.len() ==> spec_is_digit(#[trigger] d[m])
}

/// A digit sequence whose first `k` slots are all zero writes zero.
pub proof fn lemma_prefix_val_zeros(d: Seq<char>, k: int)
    requires
        forall|m: int| 0 <= m < d.len() && m < k ==> (#[trigger] d[m]) == '0',
    ensures
        spec_prefix_val(d, k) == 0,
    decreases k,
{
    if k > 0 {
        lemma_prefix_val_zeros(d, k - 1);
    }
}

/// With zeros in the first `f` slots, the first `k` slots write less than
/// ten to the `k - f`.
pub proof fn lemma_prefix_val_upper(d: Seq<char>, f: int, k: int)
    requires
        spec_all_digits(d),
        0 <= f <= k,
        forall|m: int| 0 <= m < d.len() && m < f ==> (#[trigger] d[m]) == '0',
    ensures
        0 <= spec_prefix_val(d, k) < spec_pow10((k - f) as nat),
    decreases k - f,
{
    if k == f {
        lemma_prefix_val_zeros(d, k);
    } else {
        lemma_prefix_val_upper(d, f, k - 1);
        assert(spec_pow10((k - f) as nat) == 10 * spec_pow10((k - 1 - f) as nat));
    }
}

/// With zeros in the first `f` slots and a nonzero digit in slot `f`, the
/// first `k > f` slots write at least ten to the `k - 1 - f`.
pub proof fn lemma_prefix_val_lower(d: Seq<char>, f: int, k: int)
    requires
        spec_all_digits(d),
        0 <= f < d.len(),
        d[f] != '0',
        spec_is_digit(d[f]),
        f < k,
        forall|m: int| 0 <= m < d.len() && m < f ==> (#[trigger] d[m]) == '0',
    ensures
        spec_prefix_val(d, k) >= spec_pow10((k - 1 - f) as nat),
    decreases k - f,
{
    if k == f + 1 {
        lemma_prefix_val_zeros(d, f);
    } else {
        lemma_prefix_val_lower(d, f, k - 1);
        lemma_prefix_val_upper(d, f, k - 1);
        assert(spec_pow10((k - 1 - f) as nat) == 10 * spec_pow10((k - 2 - f) as nat));
    }
}

/// Digit runs write non-negative numbers.
pub proof fn lemma_digits_val_nonneg(d: Seq<char>)
    requires
        spec_all_digits(d),
    ensures
        spec_digits_val(d) >= 0,
    decreases d.len(),
{
    if d.len() > 0 {
        assert(spec_all_digits(d.drop_last()));
        lemma_digits_val_nonneg(d.drop_last());
    }
}

/// The truncated value a parsed number token stands for — sign, integer
/// digits, fraction digits and exponent — together with the token's end,
/// provided the value fits a signed 64-bit integer; too large a value is
/// refused like a malformed token.
pub open spec fn spec_number_value(
    neg: bool,
    int_digits: Seq<char>,
    frac_digits: Seq<char>,
    e: int,
    end: int,
) -> Option<(int, int)> {
    let d = int_digits + frac_digits;
    let p = int_digits.len() + e;
    let m = spec_prefix_val(d, p);
    let value = if neg {
        -m
    } else {
        m
    };
    if -0x8000_0000_0000_0000 <= value <= 0x7fff_ffff_ffff_ffff {
        Some((value, end))
    } else {
        None
    }
}

/// A whole number token at `i`: optional minus, an integer part without
/// leading zeros, an optional fraction, an optional exponent. Yields the
/// truncated value and the position after the token.
pub open spec fn spec_parse_number(s: Seq<char>, i: int) -> Option<(int, int)> {
    if !(0 <= i < s.len()) {
        None
    } else {
        let neg = s[i] == '-';
        let i1 = if neg {
            i + 1
        } else {
            i
        };
        let i2 = spec_scan_digits(s, i1);
        if i2 == i1 || !(i1 < s.len()) {
            None
        } else if s[i1] == '0' && i2 > i1 + 1 {
            None
        } else {
            let int_digits = s.subrange(i1, i2);
            let has_frac = i2 < s.len() && s[i2] == '.';
            let i3 = if has_frac {
                i2 + 1
            } else {
                i2
            };
            let i4 = if has_frac {
                spec_scan_digits(s, i3)
            } else {
                i3
            };
            if has_frac && i4 == i3 {
                None
            } else {
                let frac_digits = s.subrange(i3, i4);
                let has_exp = i4 < s.len() && (s[i4] == 'e' || s[i4] == 'E');
                if has_exp {
                    let i5 = i4 + 1;
                    let eneg = i5 < s.len() && s[i5] == '-';
                    let epos = i5 < s.len() && s[i5] == '+';
                    let i6 = if eneg || epos {
                        i5 + 1
                    } else {
                        i5
                    };
                    let i7 = spec_scan_digits(s, i6);
                    if i7 == i6 {
                        None
                    } else {
                        let e = spec_digits_val(s.subrange(i6, i7));
                        spec_number_value(
                            neg,
                            int_digits,
                            frac_digits,
                            if eneg {
                                -e
                            } else {
                                e
                            },
                            i7,
                        )
                    }
                } else {
                    spec_number_value(neg, int_digits, frac_digits, 0, i4)
                }
            }
        }
    }
}

/// Ten to the twentieth, written out.
pub proof fn lemma_pow10_twenty()
    ensures
        spec_pow10(20) == 100000000000000000000,
{
    reveal_with_fuel(spec_pow10, 21);
}

/// Ten to the `b` is at least ten to the `a` when `a <= b`, and positive.
pub proof fn lemma_pow10_mono(a: nat, b: nat)
    requires
        a <= b,
    ensures
        0 < spec_pow10(a) <= spec_pow10(b),
    decreases b,
{
    if b == 0 {
    } else if a == b {
        lemma_pow10_mono((a - 1) as nat, (b - 1) as nat);
    } else {
        lemma_pow10_mono(a, (b - 1) as nat);
    }
}

/// The first slot of `d` that holds something other than `'0'`, or the
/// length when there is none.
fn first_nonzero(d: &Vec<char>) -> (f: usize)
    ensures
        f <= d@.len(),
        forall|m: int| 0 <= m < f ==> (#[trigger] d@[m]) == '0',
        f < d@.len() ==> d@[f as int] != '0',
{
    let mut f: usize = 0;
    while f < d.len()
        invariant
            f <= d@.len(),
            forall|m: int| 0 <= m < f ==> (#[trigger] d@[m]) == '0',
        decreases d@.len() - f,
    {
        if d[f] != '0' {
            return f;
        }
        f = f + 1;
    }
    f
}

/// Computes the number written by the first `p` digit slots of `d`, exactly,
/// given that at most twenty of them are significant.
fn prefix_value(d: &Vec<char>, p: u128, f: usize) -> (m: u128)
    requires
        spec_all_digits(d@),
        f <= d@.len(),
        forall|mm: int| 0 <= mm < f ==> (#[trigger] d@[mm]) == '0',
        p <= f + 20,
    ensures
        m as int == spec_prefix_val(d@, p as int),
{
    let mut acc: u128 = 0;
    let mut j: u128 = 0;
    while j < p
        invariant
            j <= p,
            p <= f + 20,
            spec_all_digits(d@),
            f <= d@.len(),
            forall|mm: int| 0 <= mm < f ==> (#[trigger] d@[mm]) == '0',
            acc as int == spec_prefix_val(d@, j as int),
        decreases p - j,
    {
        proof {
            if j <= f {
                lemma_prefix_val_zeros(d@, j as int);
            } else {
                lemma_prefix_val_upper(d@, f as int, j as int);
                lemma_pow10_mono((j - f) as nat, 20);
                lemma_pow10_twenty();
            }
        }
        let dv: u128 = if j < d.len() as u128 {
            ((d[j as usize] as u32) - 48) as u128
        } else {
            0
        };
        acc = acc * 10 + dv;
        j = j + 1;
    }
    acc
}

/// The value step of the number parser: given the collected digit slots,
/// the sign, the point position and the saturated exponent, decides the
/// token's truncated value, or refuses it when it does not fit `i64`.
#[verifier::rlimit(60)]
fn number_value(
    neg: bool,
    d: &Vec<char>,
    int_len: usize,
    eneg: bool,
    e_sat: u128,
    end: usize,
    Ghost(int_digits): Ghost<Seq<char>>,
    Ghost(frac_digits): Ghost<Seq<char>>,
    Ghost(e_abs): Ghost<int>,
) -> (r: Option<(i64, usize)>)
    requires
        spec_all_digits(d@),
        d@ == int_digits + frac_digits,
        int_digits.len() == int_len,
        e_abs >= 0,
        (e_abs <= 100000000000000000000 && e_sat as int == e_abs) || (e_abs
            > 100000000000000000000 && e_sat as int == 100000000000000000000),
    ensures
        ({
            let e_signed: int = if eneg {
                -e_abs
            } else {
                e_abs
            };
            match r {
                Some(p) => spec_number_value(neg, int_digits, frac_digits, e_signed, end as int)
                    == Some((p.0 as int, p.1 as int)) && p.1 == end,
                None => spec_number_value(
                    neg,
                    int_digits,
                    frac_digits,
                    e_signed,
                    end as int,
                ) is None,
            }
        }),
{
    let ghost e_signed: int = if eneg {
        -e_abs
    } else {
        e_abs
    };
    let ghost p_exact: int = int_len + e_signed;
    let ghost sat: int = 100000000000000000000;
    let f = first_nonzero(d);
    if f == d.len() {
        proof {
            lemma_prefix_val_zeros(d@, p_exact);
        }
        return Some((0, end));
    }
    let p_used: i128 = if eneg {
        (int_len as i128) - (e_sat as i128)
    } else {
        (int_len as i128) + (e_sat as i128)
    };
    proof {
        if e_abs != e_sat as int {
            assert(e_abs > sat && e_sat as int == sat);
        }
    }
    if p_used <= f as i128 {
        proof {
            assert(p_exact <= f as int);
            lemma_prefix_val_zeros(d@, p_exact);
        }
        return Some((0, end));
    }
    if p_used > f as i128 + 20 {
        proof {
            assert(p_exact > f as int + 20);
            lemma_prefix_val_lower(d@, f as int, p_exact);
            lemma_pow10_mono(20, (p_exact - 1 - f) as nat);
            lemma_pow10_twenty();
        }
        return None;
    }
    proof {
        assert(e_sat as int == e_abs);
        assert(p_used == p_exact);
    }
    let m = prefix_value(d, p_used as u128, f);
    if !neg {
        if m <= 0x7fff_ffff_ffff_ffff {
            Some((m as i64, end))
        } else {
            None
        }
    } else {
        if m <= 0x8000_0000_0000_0000 {
            let val: i128 = -(m as i128);
            Some((val as i64, end))
        } else {
            None
        }
    }
}

/// Reads a number token at `i` and yields its truncated value and end; a
/// malformed token or one whose truncation does not fit `i64` is refused.
#[verifier::rlimit(60)]
pub fn parse_number(v: &Vec<char>, i: usize) -> (r: Option<(i64, usize)>)
    requires
        i <= v@.len(),
    ensures
        match r {
            Some(p) => spec_parse_number(v@, i as int) == Some((p.0 as int, p.1 as int)) && i < p.1
                <= v@.len(),
            None => spec_parse_number(v@, i as int) is None,
        },
{
    if i >= v.len() {
        return None;
    }
    let neg = v[i] == '-';
    let i1 = if neg {
        i + 1
    } else {
        i
    };
    let i2 = scan_digits(v, i1);
    if i2 == i1 {
        return None;
    }
    if v[i1] == '0' && i2 > i1 + 1 {
        return None;
    }
    let ghost int_digits = v@.subrange(i1 as int, i2 as int);
    let ghost frac_start: int = 0;
    let mut d: Vec<char> = Vec::new();
    let mut j: usize = i1;
    while j < i2
        invariant
            i1 <= j <= i2 <= v@.len(),
            d@ == v@.subrange(i1 as int, j as int),
        decreases i2 - j,
    {
        d.push(v[j]);
        proof {
            assert(d@ =~= v@.subrange(i1 as int, j + 1 as int));
        }
        j = j + 1;
    }
    let int_len = i2 - i1;
    let has_frac = i2 < v.len() && v[i2] == '.';
    let i3 = if has_frac {
        i2 + 1
    } else {
        i2
    };
    let i4 = if has_frac {
        scan_digits(v, i3)
    } else {
        i3
    };
    if has_frac && i4 == i3 {
        return None;
    }
    let ghost frac_digits = v@.subrange(i3 as int, i4 as int);
    let mut j2: usize = i3;
    while j2 < i4
        invariant
            i3 <= j2 <= i4 <= v@.len(),
            i1 <= i2 <= i3,
            d@ == v@.subrange(i1 as int, i2 as int) + v@.subrange(i3 as int, j2 as int),
        decreases i4 - j2,
    {
        d.push(v[j2]);
        proof {
            assert(d@ =~= v@.subrange(i1 as int, i2 as int) + v@.subrange(
                i3 as int,
                j2 + 1 as int,
            ));
        }
        j2 = j2 + 1;
    }
    proof {
        assert(d@ == int_digits + frac_digits);
        lemma_scan_digits_bounds(v@, i1 as int);
        lemma_scan_digits_bounds(v@, i3 as int);
        assert(spec_all_digits(d@));
    }
    let has_exp = i4 < v.len() && (v[i4] == 'e' || v[i4] == 'E');
    let mut end: usize = i4;
    let mut eneg: bool = false;
    let mut e_sat: u128 = 0;
    let ghost sat: int = 100000000000000000000;
    let ghost mut e_abs: int = 0;
    if has_exp {
        let i5 = i4 + 1;
        eneg = i5 < v.len() && v[i5] == '-';
        let epos = i5 < v.len() && v[i5] == '+';
        let i6 = if eneg || epos {
            i5 + 1
        } else {
            i5
        };
        let i7 = scan_digits(v, i6);
        if i7 == i6 {
            return None;
        }
        proof {
            lemma_scan_digits_bounds(v@, i6 as int);
        }
        let mut k: usize = i6;
        while k < i7
            invariant
                i6 <= k <= i7 <= v@.len(),
                forall|m: int| i6 <= m < i7 ==> spec_is_digit(#[trigger] v@[m]),
                ({
                    let cur = spec_digits_val(v@.subrange(i6 as int, k as int));
                    (cur <= sat && e_sat as int == cur) || (cur > sat && e_sat as int == sat)
                }),
                sat == 100000000000000000000,
            decreases i7 - k,
        {
            let ghost pre = v@.subrange(i6 as int, k as int);
            let ghost cur = spec_digits_val(pre);
            proof {
                assert(spec_all_digits(pre));
                lemma_digits_val_nonneg(pre);
                assert(v@.subrange(i6 as int, k + 1 as int).drop_last() =~= pre);
                assert(v@.subrange(i6 as int, k + 1 as int).last() == v@[k as int]);
            }
            let dv: u128 = ((v[k] as u32) - 48) as u128;
            if e_sat >= 100000000000000000000u128 {
                e_sat = 100000000000000000000u128;
            } else {
                let t: u128 = e_sat * 10 + dv;
                if t > 100000000000000000000u128 {
                    e_sat = 100000000000000000000u128;
                } else {
                    e_sat = t;
                }
            }
            k = k + 1;
        }
        proof {
            e_abs = spec_digits_val(v@.subrange(i6 as int, i7 as int));
            lemma_digits_val_nonneg(v@.subrange(i6 as int, i7 as int));
        }
        end = i7;
    }
    proof {
        assert(spec_parse_number(v@, i as int) == spec_number_value(
            neg,
            int_digits,
            frac_digits,
            if eneg {
                -e_abs
            } else {
                e_abs
            },
            end as int,
        ));
        assert(int_digits.len() == int_len);
    }
    let r = number_value(
        neg,
        &d,
        int_len,
        eneg,
        e_sat,
        end,
        Ghost(int_digits),
        Ghost(frac_digits),
        Ghost(e_abs),
    );
    proof {
        if r is Some {
            assert(i < end);
        }
    }
    r
}

/// A field value of the flat protocol object.
pub enum JsonValue {
    Null,
    Bool(bool),
    Num(i64),
    Str(String),
}

/// The mathematical shape of a field value.
pub enum JVal {
    Null,
    Bool(bool),
    Num(int),
    Str(Seq<char>),
}

impl View for JsonValue {
    type V = JVal;

    open spec fn view(&self) -> JVal {
        match self {
            JsonValue::Null => JVal::Null,
            JsonValue::Bool(b) => JVal::Bool(*b),
            JsonValue::Num(n) => JVal::Num(*n as int),
            JsonValue::Str(s) => JVal::Str(s@),
        }
    }
}

/// One field value at `i`: a string, a number, `null`, `true` or `false`.
/// Nested objects and arrays are not part of the protocol and are refused.
pub open spec fn spec_parse_value(s: Seq<char>, i: int) -> Option<(JVal, int)> {
    if !(0 <= i < s.len()) {
        None
    } else if s[i] == '"' {
        match spec_parse_string(s, i) {
            Some((body, end)) => Some((JVal::Str(body), end)),
            None => None,
        }
    } else if s[i] == '-' || spec_is_digit(s[i]) {
        match spec_parse_number(s, i) {
            Some((n, end)) => Some((JVal::Num(n), end)),
            None => None,
        }
    } else if s[i] == 'n' {
        if i + 4 <= s.len() && s[i + 1] == 'u' && s[i + 2] == 'l' && s[i + 3] == 'l' {
            Some((JVal::Null, i + 4))
        } else {
            None
        }
    } else if s[i] == 't' {
        if i + 4 <= s.len() && s[i + 1] == 'r' && s[i + 2] == 'u' && s[i + 3] == 'e' {
            Some((JVal::Bool(true), i + 4))
        } else {
            None
        }
    } else if s[i] == 'f' {
        if i + 5 <= s.len() && s[i + 1] == 'a' && s[i + 2] == 'l' && s[i + 3] == 's' && s[i + 4]
            == 'e' {
            Some((JVal::Bool(false), i + 5))
        } else {
            None
        }
    } else {
        None
    }
}

/// Reads one field value at `i`.
pub fn parse_value(v: &Vec<char>, i: usize) -> (r: Option<(JsonValue, usize)>)
    requires
        i <= v@.len(),
    ensures
        match r {
            Some(p) => spec_parse_value(v@, i as int) == Some((p.0@, p.1 as int)) && i < p.1
                <= v@.len(),
            None => spec_parse_value(v@, i as int) is None,
        },
{
    if i >= v.len() {
        return None;
    }
    let c = v[i];
    if c == '"' {
        match parse_string(v, i) {
            Some((body, end)) => Some((JsonValue::Str(body), end)),
            None => None,
        }
    } else if c == '-' || is_digit(c) {
        match parse_number(v, i) {
            Some((n, end)) => Some((JsonValue::Num(n), end)),
            None => None,
        }
    } else if c == 'n' {
        if v.len() - i >= 4 && v[i + 1] == 'u' && v[i + 2] == 'l' && v[i + 3] == 'l' {
            Some((JsonValue::Null, i + 4))
        } else {
            None
        }
    } else if c == 't' {
        if v.len() - i >= 4 && v[i + 1] == 'r' && v[i + 2] == 'u' && v[i + 3] == 'e' {
            Some((JsonValue::Bool(true), i + 4))
        } else {
            None
        }
    } else if c == 'f' {
        if v.len() - i >= 5 && v[i + 1] == 'a' && v[i + 2] == 'l' && v[i + 3] == 's' && v[i + 4]
            == 'e' {
            Some((JsonValue::Bool(false), i + 5))
        } else {
            None
        }
    } else {
        None
    }
}

/// The mathematical view of a parsed field list.
pub open spec fn spec_pairs_view(ps: Seq<(String, JsonValue)>) -> Seq<(Seq<char>, JVal)> {
    ps.map_values(|p: (String, JsonValue)| (p.0@, p.1@))
}

/// The members of the object, read from the start of a key: `"key" : value`
/// fields separated by commas, up to and including the closing brace.
pub open spec fn spec_parse_members(s: Seq<char>, i: int) -> Option<
    (Seq<(Seq<char>, JVal)>, int),
>
    decreases s.len() - i,
{
    match spec_parse_string(s, i) {
        None => None,
        Some((key, k1)) => {
            let k2 = spec_skip_ws(s, k1);
            if !(k2 < s.len() && s[k2] == ':') {
                None
            } else {
                let k3 = spec_skip_ws(s, k2 + 1);
                match spec_parse_value(s, k3) {
                    None => None,
                    Some((val, k4)) => {
                        let k5 = spec_skip_ws(s, k4);
                        if k5 < s.len() && s[k5] == ',' {
                            let k6 = spec_skip_ws(s, k5 + 1);
                            if k6 <= i || k6 > s.len() {
                                None
                            } else {
                                match spec_parse_members(s, k6) {
                                    None => None,
                                    Some((rest, end)) => Some((seq![(key, val)] + rest, end)),
                                }
                            }
                        } else if k5 < s.len() && s[k5] == '}' {
                            Some((seq![(key, val)], k5 + 1))
                        } else {
                            None
                        }
                    },
                }
            }
        },
    }
}

/// A whole flat object at `i`: the opening brace, its members or nothing,
/// the closing brace.
pub open spec fn spec_parse_object(s: Seq<char>, i: int) -> Option<(Seq<(Seq<char>, JVal)>, int)> {
    if !(0 <= i < s.len() && s[i] == '{') {
        None
    } else {
        let j = spec_skip_ws(s, i + 1);
        if j < s.len() && s[j] == '}' {
            Some((Seq::empty(), j + 1))
        } else {
            spec_parse_members(s, j)
        }
    }
}

/// A whole protocol line: one flat object, surrounded by nothing but
/// whitespace.
pub open spec fn spec_parse_line(s: Seq<char>) -> Option<Seq<(Seq<char>, JVal)>> {
    let i = spec_skip_ws(s, 0);
    match spec_parse_object(s, i) {
        None => None,
        Some((pairs, end)) => {
            if 0 <= end <= s.len() && spec_skip_ws(s, end) == s.len() {
                Some(pairs)
            } else {
                None
            }
        },
    }
}

/// Reads the members of an object from the start of its first key.
fn parse_members(v: &Vec<char>, i: usize) -> (r: Option<(Vec<(String, JsonValue)>, usize)>)
    requires
        i <= v@.len(),
    ensures
        match r {
            Some(p) => spec_parse_members(v@, i as int) == Some(
                (spec_pairs_view(p.0@), p.1 as int),
            ) && i < p.1 <= v@.len(),
            None => spec_parse_members(v@, i as int) is None,
        },
{
    let mut out: Vec<(String, JsonValue)> = Vec::new();
    let mut cur: usize = i;
    proof {
        assert(spec_pairs_view(out@) =~= Seq::<(Seq<char>, JVal)>::empty());
    }
    loop
        invariant
            i <= cur <= v@.len(),
            spec_parse_members(v@, cur as int) is None ==> spec_parse_members(
                v@,
                i as int,
            ) is None,
            forall|rest: Seq<(Seq<char>, JVal)>, end: int|
                spec_parse_members(v@, cur as int) == Some::<(Seq<(Seq<char>, JVal)>, int)>(
                    (rest, end),
                ) ==> spec_parse_members(v@, i as int) == Some::<(Seq<(Seq<char>, JVal)>, int)>(
                    (spec_pairs_view(out@) + rest, end),
                ),
        decreases v@.len() - cur,
    {
        let (key, k1) = match parse_string(v, cur) {
            Some(p) => p,
            None => {
                return None;
            },
        };
        let k2 = skip_ws(v, k1);
        if k2 >= v.len() {
            return None;
        }
        if v[k2] != ':' {
            return None;
        }
        let k3 = skip_ws(v, k2 + 1);
        let (val, k4) = match parse_value(v, k3) {
            Some(p) => p,
            None => {
                return None;
            },
        };
        let k5 = skip_ws(v, k4);
        if k5 < v.len() && v[k5] == ',' {
            let k6 = skip_ws(v, k5 + 1);
            let ghost out0 = out@;
            out.push((key, val));
            proof {
                assert forall|rest: Seq<(Seq<char>, JVal)>, end: int|
                    spec_parse_members(v@, k6 as int) == Some::<(Seq<(Seq<char>, JVal)>, int)>(
                        (rest, end),
                    ) implies spec_parse_members(v@, i as int) == Some::<
                    (Seq<(Seq<char>, JVal)>, int),
                >((spec_pairs_view(out@) + rest, end)) by {
                    assert(spec_parse_members(v@, cur as int) == Some(
                        (seq![(out@.last().0@, out@.last().1@)] + rest, end),
                    ));
                    assert(spec_pairs_view(out0) + (seq![(out@.last().0@, out@.last().1@)] + rest)
                        =~= spec_pairs_view(out@) + rest);
                }
                assert(spec_parse_members(v@, k6 as int) is None ==> spec_parse_members(
                    v@,
                    cur as int,
                ) is None);
            }
            cur = k6;
        } else if k5 < v.len() && v[k5] == '}' {
            let ghost out0 = out@;
            out.push((key, val));
            proof {
                assert(spec_parse_members(v@, cur as int) == Some(
                    (seq![(out@.last().0@, out@.last().1@)], k5 + 1 as int),
                ));
                assert(spec_pairs_view(out0) + seq![(out@.last().0@, out@.last().1@)]
                    =~= spec_pairs_view(out@));
            }
            return Some((out, k5 + 1));
        } else {
            return None;
        }
    }
}

/// Reads a whole flat object at `i`.
pub fn parse_object(v: &Vec<char>, i: usize) -> (r: Option<(Vec<(String, JsonValue)>, usize)>)
    requires
        i <= v@.len(),
    ensures
        match r {
            Some(p) => spec_parse_object(v@, i as int) == Some(
                (spec_pairs_view(p.0@), p.1 as int),
            ) && i < p.1 <= v@.len(),
            None => spec_parse_object(v@, i as int) is None,
        },
{
    if i >= v.len() || v[i] != '{' {
        return None;
    }
    let j = skip_ws(v, i + 1);
    if j < v.len() && v[j] == '}' {
        let out: Vec<(String, JsonValue)> = Vec::new();
        proof {
            assert(spec_pairs_view(out@) =~= Seq::<(Seq<char>, JVal)>::empty());
        }
        Some((out, j + 1))
    } else {
        parse_members(v, j)
    }
}

/// Reads one protocol line: a flat object surrounded by nothing but
/// whitespace. Yields its fields in order, or nothing for a malformed line.
pub fn parse_line(s: &str) -> (r: Option<Vec<(String, JsonValue)>>)
    ensures
        match r {
            Some(pairs) => spec_parse_line(s@) == Some(spec_pairs_view(pairs@)),
            None => spec_parse_line(s@) is None,
        },
{
    let v = chars_of(s);
    let i = skip_ws(&v, 0);
    match parse_object(&v, i) {
        None => None,
        Some((pairs, end)) => {
            let t = skip_ws(&v, end);
            if t == v.len() {
                Some(pairs)
            } else {
                None
            }
        },
    }
}

/// The value under the first occurrence of `key`, or nothing.
pub open spec fn spec_lookup(ps: Seq<(Seq<char>, JVal)>, key: Seq<char>) -> Option<JVal>
    decreases ps.len(),
{
    if ps.len() == 0 {
        None
    } else if ps[0].0 == key {
        Some(ps[0].1)
    } else {
        spec_lookup(ps.drop_first(), key)
    }
}

/// Finds the value under the first occurrence of `key`.
pub fn lookup<'a>(ps: &'a Vec<(String, JsonValue)>, key: &String) -> (r: Option<&'a JsonValue>)
    ensures
        match r {
            Some(val) => spec_lookup(spec_pairs_view(ps@), key@) == Some(val@),
            None => spec_lookup(spec_pairs_view(ps@), key@) is None,
        },
{
    let mut idx: usize = 0;
    proof {
        assert(spec_pairs_view(ps@).skip(0) =~= spec_pairs_view(ps@));
    }
    while idx < ps.len()
        invariant
            idx <= ps@.len(),
            spec_lookup(spec_pairs_view(ps@), key@) == spec_lookup(
                spec_pairs_view(ps@).skip(idx as int),
                key@,
            ),
        decreases ps@.len() - idx,
    {
        proof {
            assert(spec_pairs_view(ps@).skip(idx as int)[0] == (ps@[idx as int].0@, ps@[
                idx as int].1@));
            assert(spec_pairs_view(ps@).skip(idx as int).drop_first() =~= spec_pairs_view(
                ps@,
            ).skip(idx + 1));
        }
        if ps[idx].0.eq(key) {
            return Some(&ps[idx].1);
        }
        idx = idx + 1;
    }
    proof {
        assert(spec_pairs_view(ps@).skip(ps@.len() as int) =~= Seq::<(Seq<char>, JVal)>::empty());
    }
    None
}

} // verus!
//! The helper subprocess protocol: the events the helper reports one JSON
//! line at a time, their translation into the names dispatched to
//! subscribers, the encoder the helper itself writes lines with, the
//! shutdown control line, and the helper's command-line position arguments.

use vstd::prelude::*;
use crate::color::{spec_hex_digit, hex_digit};
use crate::events::Pos;
use crate::json::{
    JVal, JsonValue, spec_parse_line, spec_lookup, spec_parse_number, parse_line, lookup,
    parse_number, chars_of, skip_ws, spec_skip_ws, spec_is_ws, is_ws,
};
use crate::text::push_char;

verus! {

/// What the helper observed: a file hovering over its windows, a file
/// dropped on them, or the hover leaving without a drop.
#[derive(Clone, Copy, PartialEq, Eq, Structural, Debug)]
pub enum HelperEventType {
    Hovered,
    Dropped,
    Cancelled,
}

/// The name the helper writes on the wire for each event.
pub open spec fn spec_helper_type_name(t: HelperEventType) -> Seq<char> {
    match t {
        HelperEventType::Hovered => "hovered"@,
        HelperEventType::Dropped => "dropped"@,
        HelperEventType::Cancelled => "cancelled"@,
    }
}

pub fn helper_type_name(t: HelperEventType) -> (s: &'static str)
    ensures
        s@ == spec_helper_type_name(t),
{
    match t {
        HelperEventType::Hovered => "hovered",
        HelperEventType::Dropped => "dropped",
        HelperEventType::Cancelled => "cancelled",
    }
}

/// The name the event is dispatched under to subscribers.
pub open spec fn spec_translated_name(t: HelperEventType) -> Seq<char> {
    match t {
        HelperEventType::Hovered => "hovered_file"@,
        HelperEventType::Dropped => "dropped_file"@,
        HelperEventType::Cancelled => "hovered_file_cancelled"@,
    }
}

pub fn translated_name(t: HelperEventType) -> (s: &'static str)
    ensures
        s@ == spec_translated_name(t),
{
    match t {
        HelperEventType::Hovered => "hovered_file",
        HelperEventType::Dropped => "dropped_file",
        HelperEventType::Cancelled => "hovered_file_cancelled",
    }
}

/// One event of the helper protocol: the kind, the file path (absent for a
/// cancelled hover), and the pointer position in logical screen units.
#[derive(Debug)]
pub struct HelperEvent {
    pub event_type: HelperEventType,
    pub path: Option<String>,
    pub x: i64,
    pub y: i64,
}

/// The mathematical shape of a helper event.
pub struct HelperEventView {
    pub event_type: HelperEventType,
    pub path: Option<Seq<char>>,
    pub x: int,
    pub y: int,
}

impl View for HelperEvent {
    type V = HelperEventView;

    open spec fn view(&self) -> HelperEventView {
        HelperEventView {
            event_type: self.event_type,
            path: match self.path {
                Some(p) => Some(p@),
                None => None,
            },
            x: self.x as int,
            y: self.y as int,
        }
    }
}

/// The event kind a field value stands for.
pub open spec fn spec_event_type_of(v: JVal) -> Option<HelperEventType> {
    match v {
        JVal::Str(s) => {
            if s == "hovered"@ {
                Some(HelperEventType::Hovered)
            } else if s == "dropped"@ {
                Some(HelperEventType::Dropped)
            } else if s == "cancelled"@ {
                Some(HelperEventType::Cancelled)
            } else {
                None
            }
        },
        _ => None,
    }
}

/// The path a field value stands for: a string, or nothing for `null`.
pub open spec fn spec_path_of(v: JVal) -> Option<Option<Seq<char>>> {
    match v {
        JVal::Str(s) => Some(Some(s)),
        JVal::Null => Some(None),
        _ => None,
    }
}

/// The event one protocol line stands for: the line must parse as a flat
/// object holding an `event_type` with one of the three names, a `path`
/// string or null, and numeric `x` and `y`. Anything else is malformed and
/// yields nothing — the reader skips such lines.
pub open spec fn spec_parse_helper_line(s: Seq<char>) -> Option<HelperEventView> {
    match spec_parse_line(s) {
        None => None,
        Some(pairs) => {
            match (
                spec_lookup(pairs, "event_type"@),
                spec_lookup(pairs, "path"@),
                spec_lookup(pairs, "x"@),
                spec_lookup(pairs, "y"@),
            ) {
                (Some(tv), Some(pv), Some(JVal::Num(xv)), Some(JVal::Num(yv))) => {
                    match (spec_event_type_of(tv), spec_path_of(pv)) {
                        (Some(t), Some(p)) => Some(
                            HelperEventView { event_type: t, path: p, x: xv, y: yv },
                        ),
                        _ => None,
                    }
                },
                _ => None,
            }
        },
    }
}

/// Reads one line of the helper's output. Yields the event it reports, or
/// nothing for a malformed line, which the reader skips.
pub fn parse_helper_line(line: &str) -> (r: Option<HelperEvent>)
    ensures
        match r {
            Some(e) => spec_parse_helper_line(line@) == Some(e@),
            None => spec_parse_helper_line(line@) is None,
        },
{
    let pairs = match parse_line(line) {
        Some(p) => p,
        None => {
            return None;
        },
    };
    let key_type = String::from_str("event_type");
    let key_path = String::from_str("path");
    let key_x = String::from_str("x");
    let key_y = String::from_str("y");
    let tv = match lookup(&pairs, &key_type) {
        Some(v) => v,
        None => {
            return None;
        },
    };
    let event_type = match tv {
        JsonValue::Str(s) => {
            let hovered = String::from_str("hovered");
            let dropped = String::from_str("dropped");
            let cancelled = String::from_str("cancelled");
            if s.eq(&hovered) {
                HelperEventType::Hovered
            } else if s.eq(&dropped) {
                HelperEventType::Dropped
            } else if s.eq(&cancelled) {
                HelperEventType::Cancelled
            } else {
                return None;
            }
        },
        _ => {
            return None;
        },
    };
    let pv = match lookup(&pairs, &key_path) {
        Some(v) => v,
        None => {
            return None;
        },
    };
    let path = match pv {
        JsonValue::Str(s) => Some(s.clone()),
        JsonValue::Null => None,
        _ => {
            return None;
        },
    };
    let x = match lookup(&pairs, &key_x) {
        Some(JsonValue::Num(n)) => *n,
        _ => {
            return None;
        },
    };
    let y = match lookup(&pairs, &key_y) {
        Some(JsonValue::Num(n)) => *n,
        _ => {
            return None;
        },
    };
    Some(HelperEvent { event_type, path, x, y })
}

/// How one character is written inside a JSON string: quote and backslash
/// escaped, control characters as their named escapes or `\u00XX`, and
/// everything else as itself.
pub open spec fn spec_escape_char(c: char) -> Seq<char> {
    if c == '"' {
        seq!['\\', '"']
    } else if c == '\\' {
        seq!['\\', '\\']
    } else if c == '\n' {
        seq!['\\', 'n']
    } else if c == '\r' {
        seq!['\\', 'r']
    } else if c == '\t' {
        seq!['\\', 't']
    } else if c == (8u8) as char {
        seq!['\\', 'b']
    } else if c == (12u8) as char {
        seq!['\\', 'f']
    } else if (c as u32) < 0x20 {
        seq!['\\', 'u', '0', '0', spec_hex_digit((c as u32 / 16) as u8), spec_hex_digit(
            (c as u32 % 16) as u8,
        )]
    } else {
        seq![c]
    }
}

/// How a whole string is written inside quotes.
pub open spec fn spec_escape_string(s: Seq<char>) -> Seq<char>
    decreases s.len(),
{
    if s.len() == 0 {
        Seq::empty()
    } else {
        spec_escape_string(s.drop_last()) + spec_escape_char(s.last())
    }
}

/// Appends the escaped form of `s` to `out`.
fn push_escaped(out: &mut String, s: &str)
    ensures
        final(out)@ == old(out)@ + spec_escape_string(s@),
{
    let ghost out0 = out@;
    let n = s.unicode_len();
    let mut i: usize = 0;
    proof {
        assert(out@ =~= out0 + spec_escape_string(s@.take(0)));
    }
    while i < n
        invariant
            n == s@.len(),
            i <= n,
            out@ == out0 + spec_escape_string(s@.take(i as int)),
        decreases n - i,
    {
        let c = s.get_char(i);
        proof {
            assert(s@.take(i + 1 as int).drop_last() =~= s@.take(i as int));
            assert(s@.take(i + 1 as int).last() == s@[i as int]);
        }
        let ghost mid = out@;
        if c == '"' {
            push_char(out, '\\');
            push_char(out, '"');
        } else if c == '\\' {
            push_char(out, '\\');
            push_char(out, '\\');
        } else if c == '\n' {
            push_char(out, '\\');
            push_char(out, 'n');
        } else if c == '\r' {
            push_char(out, '\\');
            push_char(out, 'r');
        } else if c == '\t' {
            push_char(out, '\\');
            push_char(out, 't');
        } else if c == (8u8) as char {
            push_char(out, '\\');
            push_char(out, 'b');
        } else if c == (12u8) as char {
            push_char(out, '\\');
            push_char(out, 'f');
        } else if (c as u32) < 0x20 {
            push_char(out, '\\');
            push_char(out, 'u');
            push_char(out, '0');
            push_char(out, '0');
            push_char(out, hex_digit(((c as u32) / 16) as u8));
            push_char(out, hex_digit(((c as u32) % 16) as u8));
        } else {
            push_char(out, c);
        }
        proof {
            assert(out@ =~= mid + spec_escape_char(c));
            assert(out@ =~= out0 + spec_escape_string(s@.take(i + 1 as int)));
        }
        i = i + 1;
    }
    proof {
        assert(s@.take(n as int) =~= s@);
    }
}

/// The decimal digit character for a value below ten.
pub open spec fn spec_digit_char(n: int) -> char {
    ((48 + n) as u8) as char
}

/// The decimal digits of a non-negative number.
pub open spec fn spec_nat_dec(n: int) -> Seq<char>
    decreases n,
{
    if n < 10 {
        seq![spec_digit_char(if n >= 0 {
            n
        } else {
            0
        })]
    } else {
        spec_nat_dec(n / 10).push(spec_digit_char(n % 10))
    }
}

/// The decimal rendering of an integer: a minus sign for negatives, then
/// the digits of its magnitude.
pub open spec fn spec_i64_dec(n: int) -> Seq<char> {
    if n < 0 {
        seq!['-'] + spec_nat_dec(-n)
    } else {
        spec_nat_dec(n)
    }
}

/// Appends the decimal digits of `m` to `out`.
fn push_nat_dec(out: &mut String, m: u64)
    ensures
        final(out)@ == old(out)@ + spec_nat_dec(m as int),
    decreases m,
{
    if m < 10 {
        push_char(out, ((48 + m) as u8) as char);
    } else {
        push_nat_dec(out, m / 10);
        push_char(out, ((48 + m % 10) as u8) as char);
        proof {
            assert(old(out)@ + spec_nat_dec(m as int / 10).push(spec_digit_char(m as int % 10))
                =~= (old(out)@ + spec_nat_dec(m as int / 10)).push(spec_digit_char(m as int % 10)));
        }
    }
}

/// Appends the decimal rendering of `n` to `out`.
fn push_i64_dec(out: &mut String, n: i64)
    ensures
        final(out)@ == old(out)@ + spec_i64_dec(n as int),
{
    if n < 0 {
        push_char(out, '-');
        let m: u64 = (-(n as i128)) as u64;
        let ghost mid = out@;
        push_nat_dec(out, m);
        proof {
            assert(out@ =~= old(out)@ + (seq!['-'] + spec_nat_dec(m as int)));
        }
    } else {
        push_nat_dec(out, n as u64);
    }
}

/// The wire form of a helper event: one flat JSON object with the four
/// protocol fields, in the order the helper writes them.
pub open spec fn spec_encode_helper_event(e: HelperEventView) -> Seq<char> {
    "{\"event_type\":\""@ + spec_helper_type_name(e.event_type) + "\",\"path\":"@ + (match e.path {
        Some(p) => seq!['"'] + spec_escape_string(p) + seq!['"'],
        None => "null"@,
    }) + ",\"x\":"@ + spec_i64_dec(e.x) + ",\"y\":"@ + spec_i64_dec(e.y) + seq!['}']
}

/// Writes one helper event as the JSON line the protocol sends, without the
/// trailing newline.
pub fn encode_helper_event(e: &HelperEvent) -> (r: String)
    ensures
        r@ == spec_encode_helper_event(e@),
{
    let mut out = String::new();
    out.append("{\"event_type\":\"");
    out.append(helper_type_name(e.event_type));
    out.append("\",\"path\":");
    match &e.path {
        Some(p) => {
            push_char(&mut out, '"');
            push_escaped(&mut out, p.as_str());
            push_char(&mut out, '"');
        },
        None => {
            out.append("null");
        },
    }
    out.append(",\"x\":");
    push_i64_dec(&mut out, e.x);
    out.append(",\"y\":");
    push_i64_dec(&mut out, e.y);
    push_char(&mut out, '}');
    proof {
        assert(out@ =~= spec_encode_helper_event(e@));
    }
    out
}

/// The positions that remain after trimming whitespace from the right.
pub open spec fn spec_trim_end(s: Seq<char>, j: int) -> int
    decreases j,
{
    if 0 < j <= s.len() && spec_is_ws(s[j - 1]) {
        spec_trim_end(s, j - 1)
    } else {
        j
    }
}

/// The line with surrounding whitespace removed.
pub open spec fn spec_trimmed(s: Seq<char>) -> Seq<char> {
    let a = spec_skip_ws(s, 0);
    let b = spec_trim_end(s, s.len() as int);
    if a < b {
        s.subrange(a, b)
    } else {
        Seq::empty()
    }
}

/// Whether the line, with surrounding whitespace ignored, is the literal
/// shutdown request.
pub open spec fn spec_is_shutdown_line(s: Seq<char>) -> bool {
    spec_trimmed(s) == "shutdown"@
}

/// Trimming from the right never moves forward nor below zero.
pub proof fn lemma_trim_end_bounds(s: Seq<char>, j: int)
    requires
        0 <= j <= s.len(),
    ensures
        0 <= spec_trim_end(s, j) <= j,
    decreases j,
{
    if 0 < j && spec_is_ws(s[j - 1]) {
        lemma_trim_end_bounds(s, j - 1);
    }
}

/// Recognizes the control line that asks the helper to exit.
pub fn is_shutdown_line(line: &str) -> (r: bool)
    ensures
        r == spec_is_shutdown_line(line@),
{
    proof {
        reveal_strlit("shutdown");
    }
    let v = chars_of(line);
    let a = skip_ws(&v, 0);
    let mut b: usize = v.len();
    while b > a && is_ws(v[b - 1])
        invariant
            a <= b <= v@.len(),
            a == spec_skip_ws(v@, 0),
            spec_trim_end(v@, v@.len() as int) == spec_trim_end(v@, b as int),
        decreases b,
    {
        b = b - 1;
    }
    proof {
        lemma_trim_end_bounds(v@, b as int);
        if b > a {
            assert(!(0 < b <= v@.len() && spec_is_ws(v@[b - 1])));
            assert(spec_trim_end(v@, b as int) == b as int);
        }
    }
    if b - a != 8 {
        proof {
            if a < b {
                assert(spec_trimmed(v@).len() == b - a);
            } else {
                assert(spec_trimmed(v@) =~= Seq::<char>::empty());
            }
            assert("shutdown"@.len() == 8);
        }
        return false;
    }
    let r = v[a] == 's' && v[a + 1] == 'h' && v[a + 2] == 'u' && v[a + 3] == 't' && v[a + 4] == 'd'
        && v[a + 5] == 'o' && v[a + 6] == 'w' && v[a + 7] == 'n';
    proof {
        let t = spec_trimmed(v@);
        assert(t =~= v@.subrange(a as int, b as int));
        assert(t.len() == 8);
        assert(t[0] == v@[a as int] && t[1] == v@[a + 1] && t[2] == v@[a + 2] && t[3] == v@[a + 3]
            && t[4] == v@[a + 4] && t[5] == v@[a + 5] && t[6] == v@[a + 6] && t[7] == v@[a + 7]);
        if r {
            assert(t =~= "shutdown"@);
        } else {
            if t == "shutdown"@ {
                assert(t[0] == 's' && t[1] == 'h' && t[2] == 'u' && t[3] == 't' && t[4] == 'd'
                    && t[5] == 'o' && t[6] == 'w' && t[7] == 'n');
                assert(false);
            }
        }
    }
    r
}

/// The rendered digits of a non-negative number are decimal digits, at least
/// one, and never lead with a zero unless the number is zero itself.
pub proof fn lemma_nat_dec_shape(m: int)
    requires
        m >= 0,
    ensures
        crate::json::spec_all_digits(spec_nat_dec(m)),
        spec_nat_dec(m).len() >= 1,
        m >= 1 ==> spec_nat_dec(m)[0] != '0',
        m == 0 ==> spec_nat_dec(m) == seq!['0'],
    decreases m,
{
    if m < 10 {
        assert(spec_nat_dec(m) == seq![spec_digit_char(m)]);
    } else {
        lemma_nat_dec_shape(m / 10);
        assert(spec_nat_dec(m) == spec_nat_dec(m / 10).push(spec_digit_char(m % 10)));
        assert(spec_nat_dec(m)[0] == spec_nat_dec(m / 10)[0]);
    }
}

/// Reading the rendered digits of a non-negative number back as a number
/// yields it again.
pub proof fn lemma_digits_val_nat_dec(m: int)
    requires
        m >= 0,
    ensures
        crate::json::spec_digits_val(spec_nat_dec(m)) == m,
    decreases m,
{
    if m < 10 {
        let d = seq![spec_digit_char(m)];
        assert(spec_digit_char(m) as u32 == 48 + m);
        assert(d.last() == spec_digit_char(m));
        assert(crate::json::spec_digit_val(spec_digit_char(m)) == m);
        assert(d.drop_last() =~= Seq::<char>::empty());
        assert(crate::json::spec_digits_val(d.drop_last()) == 0);
        assert(crate::json::spec_digits_val(d) == m);
    } else {
        lemma_digits_val_nat_dec(m / 10);
        let d = spec_nat_dec(m / 10).push(spec_digit_char(m % 10));
        assert(d.drop_last() =~= spec_nat_dec(m / 10));
        assert(d.last() == spec_digit_char(m % 10));
    }
}

/// Slots before the last one read the same whether or not the last is there,
/// so the prefix they write is the same.
proof fn lemma_prefix_val_drop_last(d: Seq<char>, k: int)
    requires
        d.len() >= 1,
        k <= d.len() - 1,
    ensures
        crate::json::spec_prefix_val(d, k) == crate::json::spec_prefix_val(d.drop_last(), k),
    decreases k,
{
    if k > 0 {
        lemma_prefix_val_drop_last(d, k - 1);
        assert(d.drop_last()[k - 1] == d[k - 1]);
    }
}

/// Reading a whole digit run as prefix slots or as a plain number is the
/// same.
pub proof fn lemma_prefix_val_whole(d: Seq<char>)
    ensures
        crate::json::spec_prefix_val(d, d.len() as int) == crate::json::spec_digits_val(d),
    decreases d.len(),
{
    if d.len() > 0 {
        lemma_prefix_val_whole(d.drop_last());
        lemma_prefix_val_drop_last(d, d.len() - 1);
    }
}

/// The end of a digit run bounded on both sides: when everything from `i` up
/// to `j` is a digit and `j` sits at the end or on a non-digit, the scan from
/// `i` stops exactly at `j`.
pub proof fn lemma_scan_digits_exact(s: Seq<char>, i: int, j: int)
    requires
        0 <= i <= j <= s.len(),
        forall|k: int| i <= k < j ==> crate::json::spec_is_digit(#[trigger] s[k]),
        j == s.len() || !crate::json::spec_is_digit(s[j]),
    ensures
        crate::json::spec_scan_digits(s, i) == j,
    decreases j - i,
{
    if i < j {
        lemma_scan_digits_exact(s, i + 1, j);
    }
}

/// The decimal rendering of an integer reads back as a number token with
/// exactly that value, wherever it stands, provided nothing that could
/// extend the token — a digit, a point or an exponent mark — follows it.
pub proof fn lemma_number_round_trip(s: Seq<char>, i: int, x: int)
    requires
        -0x8000_0000_0000_0000 <= x <= 0x7fff_ffff_ffff_ffff,
        0 <= i,
        i + spec_i64_dec(x).len() <= s.len(),
        s.subrange(i, i + spec_i64_dec(x).len()) == spec_i64_dec(x),
        ({
            let e = i + spec_i64_dec(x).len();
            e == s.len() || !(crate::json::spec_is_digit(s[e]) || s[e] == '.' || s[e] == 'e'
                || s[e] == 'E')
        }),
    ensures
        spec_parse_number(s, i) == Some((x, i + spec_i64_dec(x).len())),
{
    let dec = spec_i64_dec(x);
    let neg = x < 0;
    let m = if neg {
        -x
    } else {
        x
    };
    let nd = spec_nat_dec(m);
    lemma_nat_dec_shape(m);
    lemma_digits_val_nat_dec(m);
    let i1 = if neg {
        i + 1
    } else {
        i
    };
    let sub = s.subrange(i, i + dec.len());
    if neg {
        assert(dec == seq!['-'] + nd);
        assert(s[i] == sub[0] && sub[0] == '-');
        assert forall|k: int| i1 <= k < i1 + nd.len() implies crate::json::spec_is_digit(
            #[trigger] s[k],
        ) by {
            assert(sub[k - i] == s[i + (k - i)]);
            assert(sub[k - i] == nd[k - i1]);
        }
        assert(sub[1] == nd[0] && sub[1] == s[i + 1]);
    } else {
        assert(dec == nd);
        assert forall|k: int| i1 <= k < i1 + nd.len() implies crate::json::spec_is_digit(
            #[trigger] s[k],
        ) by {
            assert(sub[k - i] == s[i + (k - i)]);
            assert(sub[k - i] == nd[k - i1]);
        }
        assert(s[i] == sub[0] && sub[0] == nd[0]);
        assert(crate::json::spec_is_digit(s[i]));
        assert(s[i] != '-');
    }
    let i2 = i1 + nd.len();
    lemma_scan_digits_exact(s, i1, i2);
    assert(s[i1] == nd[0]);
    if m == 0 {
        assert(nd.len() == 1);
    }
    assert(!(s[i1] == '0' && i2 > i1 + 1));
    let int_digits = s.subrange(i1, i2);
    assert forall|k: int| 0 <= k < nd.len() implies int_digits[k] == nd[k] by {
        assert(int_digits[k] == s[i1 + k]);
        assert(sub[i1 + k - i] == s[i + (i1 + k - i)]);
        assert(sub[i1 + k - i] == nd[k]);
    }
    assert(int_digits =~= nd);
    assert(!(i2 < s.len() && s[i2] == '.'));
    assert(!(i2 < s.len() && (s[i2] == 'e' || s[i2] == 'E')));
    let frac_digits = s.subrange(i2, i2);
    assert(frac_digits =~= Seq::<char>::empty());
    assert(nd + frac_digits =~= nd);
    lemma_prefix_val_whole(nd);
    assert(crate::json::spec_prefix_val(nd, nd.len() as int) == m);
    assert(spec_parse_number(s, i) == crate::json::spec_number_value(
        neg,
        int_digits,
        frac_digits,
        0,
        i2,
    ));
}

/// Escaping a concatenation escapes the parts.
pub proof fn lemma_escape_concat(a: Seq<char>, b: Seq<char>)
    ensures
        spec_escape_string(a + b) == spec_escape_string(a) + spec_escape_string(b),
    decreases b.len(),
{
    if b.len() == 0 {
        assert(a + b =~= a);
        assert(spec_escape_string(a) + spec_escape_string(b) =~= spec_escape_string(a));
    } else {
        lemma_escape_concat(a, b.drop_last());
        assert((a + b).drop_last() =~= a + b.drop_last());
        assert((a + b).last() == b.last());
        assert(spec_escape_string(a) + (spec_escape_string(b.drop_last()) + spec_escape_char(
            b.last(),
        )) =~= (spec_escape_string(a) + spec_escape_string(b.drop_last())) + spec_escape_char(
            b.last(),
        ));
    }
}

/// A character code below 256 survives the trip through a byte and back.
proof fn lemma_char_code_round_trip(c: char)
    requires
        (c as u32) <= 255,
    ensures
        (((c as u32) as u8) as char) == c,
{
    assert((((c as u32) as u8) as char) as u32 == c as u32);
}

/// Escaping reads one character at a time from the front.
pub proof fn lemma_escape_first(p: Seq<char>)
    requires
        p.len() >= 1,
    ensures
        spec_escape_string(p) == spec_escape_char(p[0]) + spec_escape_string(p.drop_first()),
    decreases p.len(),
{
    lemma_escape_concat(seq![p[0]], p.drop_first());
    assert(seq![p[0]] + p.drop_first() =~= p);
    let one = seq![p[0]];
    assert(one.drop_last() =~= Seq::<char>::empty());
    assert(one.last() == p[0]);
    assert(spec_escape_string(Seq::<char>::empty()) == Seq::<char>::empty());
    assert(spec_escape_string(one) == spec_escape_string(Seq::<char>::empty()) + spec_escape_char(
        p[0],
    ));
    assert(Seq::<char>::empty() + spec_escape_char(p[0]) =~= spec_escape_char(p[0]));
}

/// A hex digit written by the renderer reads back as its value.
pub proof fn lemma_hex_val_hex_digit(d: u8)
    requires
        d < 16,
    ensures
        crate::json::spec_hex_val(spec_hex_digit(d)) == Some(d as int),
{
}

/// The escaped form of any string, wherever it stands, reads back as exactly
/// that string, ending at the closing quote that follows it.
pub proof fn lemma_string_round_trip(s: Seq<char>, i: int, p: Seq<char>)
    requires
        0 <= i,
        i + spec_escape_string(p).len() < s.len(),
        s.subrange(i, i + spec_escape_string(p).len()) == spec_escape_string(p),
        s[i + spec_escape_string(p).len()] == '"',
    ensures
        crate::json::spec_parse_string_body(s, i) == Some(
            (p, i + spec_escape_string(p).len() + 1),
        ),
    decreases p.len(),
{
    let esc = spec_escape_string(p);
    let sub = s.subrange(i, i + esc.len());
    if p.len() == 0 {
        assert(esc =~= Seq::<char>::empty());
        assert(s[i] == '"');
        assert(crate::json::spec_parse_string_body(s, i) == Some((Seq::<char>::empty(), i + 1)));
        assert(p =~= Seq::<char>::empty());
    } else {
        let c = p[0];
        let ec = spec_escape_char(c);
        let p2 = p.drop_first();
        let esc2 = spec_escape_string(p2);
        lemma_escape_first(p);
        assert(esc == ec + esc2);
        assert forall|k: int| 0 <= k < ec.len() implies s[i + k] == ec[k] by {
            assert(sub[k] == s[i + k]);
            assert(sub[k] == ec[k]);
        }
        let i2 = i + ec.len();
        let sub2 = s.subrange(i2, i2 + esc2.len());
        assert forall|k: int| 0 <= k < esc2.len() implies sub2[k] == esc2[k] by {
            assert(sub2[k] == s[i2 + k]);
            assert(sub[ec.len() + k] == s[i + (ec.len() + k)]);
            assert(sub[ec.len() + k] == esc2[k]);
        }
        assert(sub2 =~= esc2);
        lemma_string_round_trip(s, i2, p2);
        assert(seq![c] + p2 =~= p);
        if c == '"' || c == '\\' || c == '\n' || c == '\r' || c == '\t' || c == (8u8) as char || c
            == (12u8) as char {
            assert(s[i] == '\\');
            assert(crate::json::spec_parse_escape(s, i + 1) == Some((c, i + 2)));
        } else if (c as u32) < 0x20 {
            let code = c as u32;
            let hi = (code / 16) as u8;
            let lo = (code % 16) as u8;
            assert(s[i] == '\\' && s[i + 1] == 'u' && s[i + 2] == '0' && s[i + 3] == '0' && s[i
                + 4] == spec_hex_digit(hi) && s[i + 5] == spec_hex_digit(lo));
            lemma_hex_val_hex_digit(hi);
            lemma_hex_val_hex_digit(lo);
            assert(crate::json::spec_hex_val('0') == Some(0int));
            let parsed = 0 * 4096 + 0 * 256 + (hi as int) * 16 + (lo as int);
            assert(parsed == code);
            lemma_char_code_round_trip(c);
            assert((parsed as u8) == ((c as u32) as u8));
            assert(((parsed as u8) as char) == c);
            assert(crate::json::spec_parse_escape(s, i + 1) == Some((c, i + 6)));
        } else {
            assert(s[i] == c);
            assert(s[i] != '"' && s[i] != '\\' && (s[i] as u32) >= 0x20);
        }
    }
}


/// Escaping leaves a string without quotes, backslashes or control
/// characters unchanged.
pub proof fn lemma_escape_plain(k: Seq<char>)
    requires
        forall|m: int|
            0 <= m < k.len() ==> (#[trigger] k[m]) != '"' && k[m] != '\\' && (k[m] as u32)
                >= 0x20,
    ensures
        spec_escape_string(k) == k,
    decreases k.len(),
{
    if k.len() > 0 {
        lemma_escape_plain(k.drop_last());
        assert(spec_escape_char(k.last()) == seq![k.last()]);
        assert(k.drop_last() + seq![k.last()] =~= k);
    }
}

/// A rendered integer starts with a minus sign or a digit.
pub proof fn lemma_i64_dec_head(x: int)
    ensures
        spec_i64_dec(x).len() >= 1,
        spec_i64_dec(x)[0] == '-' || crate::json::spec_is_digit(spec_i64_dec(x)[0]),
        spec_i64_dec(x)[0] != '"',
{
    if x < 0 {
        lemma_nat_dec_shape(-x);
        assert(spec_i64_dec(x)[0] == '-');
    } else {
        lemma_nat_dec_shape(x);
        assert(spec_i64_dec(x)[0] == spec_nat_dec(x)[0]);
    }
}

/// The path part of an encoded event: the quoted escaped path, or `null`.
spec fn rt_path_part(e: HelperEventView) -> Seq<char> {
    match e.path {
        Some(p) => seq!['"'] + spec_escape_string(p) + seq!['"'],
        None => "null"@,
    }
}

/// The positions of an encoded event's segments.
spec fn rt_b(e: HelperEventView) -> int {
    15 + spec_helper_type_name(e.event_type).len() as int
}

spec fn rt_p0(e: HelperEventView) -> int {
    rt_b(e) + 9
}

spec fn rt_c0(e: HelperEventView) -> int {
    rt_p0(e) + rt_path_part(e).len() as int
}

spec fn rt_x0(e: HelperEventView) -> int {
    rt_c0(e) + 5
}

spec fn rt_d0(e: HelperEventView) -> int {
    rt_x0(e) + spec_i64_dec(e.x).len() as int
}

spec fn rt_y0(e: HelperEventView) -> int {
    rt_d0(e) + 5
}

spec fn rt_z0(e: HelperEventView) -> int {
    rt_y0(e) + spec_i64_dec(e.y).len() as int
}

/// Where each segment of an encoded event lies in the line.
proof fn lemma_rt_layout(e: HelperEventView)
    ensures
        ({
            let l = spec_encode_helper_event(e);
            let nm = spec_helper_type_name(e.event_type);
            let pp = rt_path_part(e);
            let xx = spec_i64_dec(e.x);
            let yy = spec_i64_dec(e.y);
            &&& l.len() == rt_z0(e) + 1
            &&& forall|k: int| 0 <= k < 15 ==> l[k] == "{\"event_type\":\""@[k]
            &&& forall|k: int| 0 <= k < nm.len() ==> l[15 + k] == nm[k]
            &&& forall|k: int| 0 <= k < 9 ==> l[rt_b(e) + k] == "\",\"path\":"@[k]
            &&& forall|k: int| 0 <= k < pp.len() ==> l[rt_p0(e) + k] == pp[k]
            &&& forall|k: int| 0 <= k < 5 ==> l[rt_c0(e) + k] == ",\"x\":"@[k]
            &&& forall|k: int| 0 <= k < xx.len() ==> l[rt_x0(e) + k] == xx[k]
            &&& forall|k: int| 0 <= k < 5 ==> l[rt_d0(e) + k] == ",\"y\":"@[k]
            &&& forall|k: int| 0 <= k < yy.len() ==> l[rt_y0(e) + k] == yy[k]
            &&& l[rt_z0(e)] == '}'
        }),
{
    reveal_strlit("{\"event_type\":\"");
    reveal_strlit("\",\"path\":");
    reveal_strlit(",\"x\":");
    reveal_strlit(",\"y\":");
    let seg0 = "{\"event_type\":\""@;
    let seg1 = "\",\"path\":"@;
    let seg2 = ",\"x\":"@;
    let seg3 = ",\"y\":"@;
    let nm = spec_helper_type_name(e.event_type);
    let pp = rt_path_part(e);
    let xx = spec_i64_dec(e.x);
    let yy = spec_i64_dec(e.y);
    let l = spec_encode_helper_event(e);
    assert(l == seg0 + nm + seg1 + pp + seg2 + xx + seg3 + yy + seq!['}']);
    assert(seg0.len() == 15 && seg1.len() == 9 && seg2.len() == 5 && seg3.len() == 5);
}

/// The first key of the line reads back as `event_type`.
proof fn lemma_rt_key_et(e: HelperEventView)
    ensures
        crate::json::spec_parse_string(spec_encode_helper_event(e), 1) == Some(
            ("event_type"@, 13int),
        ),
{
    reveal_strlit("{\"event_type\":\"");
    reveal_strlit("\",\"path\":");
    reveal_strlit(",\"x\":");
    reveal_strlit(",\"y\":");
    reveal_strlit("event_type");
    let seg0 = "{\"event_type\":\""@;
    let seg1 = "\",\"path\":"@;
    let seg2 = ",\"x\":"@;
    let seg3 = ",\"y\":"@;
    let nm = spec_helper_type_name(e.event_type);
    let pp = rt_path_part(e);
    let xx = spec_i64_dec(e.x);
    let yy = spec_i64_dec(e.y);
    let l = spec_encode_helper_event(e);
    let b = rt_b(e);
    let p0 = rt_p0(e);
    let c0 = rt_c0(e);
    let x0 = rt_x0(e);
    let d0 = rt_d0(e);
    let y0 = rt_y0(e);
    let z0 = rt_z0(e);
    lemma_rt_layout(e);
    let key_et = "event_type"@;
    assert forall|m: int| 0 <= m < key_et.len() implies (#[trigger] key_et[m]) != '"'
        && key_et[m] != '\\' && (key_et[m] as u32) >= 0x20 by {
        if m == 0 {
        } else if m == 1 {
        } else if m == 2 {
        } else if m == 3 {
        } else if m == 4 {
        } else if m == 5 {
        } else if m == 6 {
        } else if m == 7 {
        } else if m == 8 {
        } else {
            assert(m == 9);
        }
    }
    lemma_escape_plain(key_et);
    assert forall|m: int| 0 <= m < 10 implies seg0[2 + m] == key_et[m] by {
        if m == 0 {
        } else if m == 1 {
        } else if m == 2 {
        } else if m == 3 {
        } else if m == 4 {
        } else if m == 5 {
        } else if m == 6 {
        } else if m == 7 {
        } else if m == 8 {
        } else {
            assert(m == 9);
        }
    }
    assert forall|k: int| 0 <= k < 10 implies l.subrange(2, 12)[k] == spec_escape_string(
        key_et,
    )[k] by {
        assert(l.subrange(2, 12)[k] == l[2 + k]);
        assert(l[2 + k] == seg0[2 + k]);
    }
    assert(l.subrange(2, 12) =~= spec_escape_string(key_et));
    assert(l[12] == seg0[12] && seg0[12] == '"');
    lemma_string_round_trip(l, 2, key_et);
    assert(l[1] == seg0[1] && seg0[1] == '"');
}

/// The event name string reads back as the name that was written.
proof fn lemma_rt_name(e: HelperEventView)
    ensures
        crate::json::spec_parse_string(spec_encode_helper_event(e), 14) == Some(
            (spec_helper_type_name(e.event_type), rt_b(e) + 1),
        ),
{
    reveal_strlit("{\"event_type\":\"");
    reveal_strlit("\",\"path\":");
    reveal_strlit(",\"x\":");
    reveal_strlit(",\"y\":");
    reveal_strlit("hovered");
    reveal_strlit("dropped");
    reveal_strlit("cancelled");
    let seg0 = "{\"event_type\":\""@;
    let seg1 = "\",\"path\":"@;
    let seg2 = ",\"x\":"@;
    let seg3 = ",\"y\":"@;
    let nm = spec_helper_type_name(e.event_type);
    let pp = rt_path_part(e);
    let xx = spec_i64_dec(e.x);
    let yy = spec_i64_dec(e.y);
    let l = spec_encode_helper_event(e);
    let b = rt_b(e);
    let p0 = rt_p0(e);
    let c0 = rt_c0(e);
    let x0 = rt_x0(e);
    let d0 = rt_d0(e);
    let y0 = rt_y0(e);
    let z0 = rt_z0(e);
    lemma_rt_layout(e);
    assert(spec_escape_string(nm) == nm) by {
        if e.event_type == HelperEventType::Hovered {
            assert(nm == "hovered"@);
            assert forall|m: int| 0 <= m < nm.len() implies (#[trigger] nm[m]) != '"'
                && nm[m] != '\\' && (nm[m] as u32) >= 0x20 by {
                if m == 0 {
                } else if m == 1 {
                } else if m == 2 {
                } else if m == 3 {
                } else if m == 4 {
                } else if m == 5 {
                } else {
                    assert(m == 6);
                }
            }
            lemma_escape_plain(nm);
        } else if e.event_type == HelperEventType::Dropped {
            assert(nm == "dropped"@);
            assert forall|m: int| 0 <= m < nm.len() implies (#[trigger] nm[m]) != '"'
                && nm[m] != '\\' && (nm[m] as u32) >= 0x20 by {
                if m == 0 {
                } else if m == 1 {
                } else if m == 2 {
                } else if m == 3 {
                } else if m == 4 {
                } else if m == 5 {
                } else {
                    assert(m == 6);
                }
            }
            lemma_escape_plain(nm);
        } else {
            assert(nm == "cancelled"@);
            assert forall|m: int| 0 <= m < nm.len() implies (#[trigger] nm[m]) != '"'
                && nm[m] != '\\' && (nm[m] as u32) >= 0x20 by {
                if m == 0 {
                } else if m == 1 {
                } else if m == 2 {
                } else if m == 3 {
                } else if m == 4 {
                } else if m == 5 {
                } else if m == 6 {
                } else if m == 7 {
                } else {
                    assert(m == 8);
                }
            }
            lemma_escape_plain(nm);
        }
    }
    let nl = nm.len() as int;
    assert forall|k: int| 0 <= k < nl implies l.subrange(15, 15 + nl)[k] == spec_escape_string(
        nm,
    )[k] by {
        assert(l.subrange(15, 15 + nl)[k] == l[15 + k]);
    }
    assert(l.subrange(15, 15 + nl) =~= spec_escape_string(nm));
    assert(l[15 + nl] == seg1[0] && seg1[0] == '"');
    lemma_string_round_trip(l, 15, nm);
    assert(l[14] == seg0[14] && seg0[14] == '"');
}

/// The second key reads back as `path`.
proof fn lemma_rt_key_path(e: HelperEventView)
    ensures
        crate::json::spec_parse_string(spec_encode_helper_event(e), rt_b(e) + 2) == Some(
            ("path"@, rt_b(e) + 8),
        ),
{
    reveal_strlit("{\"event_type\":\"");
    reveal_strlit("\",\"path\":");
    reveal_strlit(",\"x\":");
    reveal_strlit(",\"y\":");
    reveal_strlit("path");
    let seg0 = "{\"event_type\":\""@;
    let seg1 = "\",\"path\":"@;
    let seg2 = ",\"x\":"@;
    let seg3 = ",\"y\":"@;
    let nm = spec_helper_type_name(e.event_type);
    let pp = rt_path_part(e);
    let xx = spec_i64_dec(e.x);
    let yy = spec_i64_dec(e.y);
    let l = spec_encode_helper_event(e);
    let b = rt_b(e);
    let p0 = rt_p0(e);
    let c0 = rt_c0(e);
    let x0 = rt_x0(e);
    let d0 = rt_d0(e);
    let y0 = rt_y0(e);
    let z0 = rt_z0(e);
    lemma_rt_layout(e);
    let key_path = "path"@;
    assert forall|m: int| 0 <= m < key_path.len() implies (#[trigger] key_path[m]) != '"'
        && key_path[m] != '\\' && (key_path[m] as u32) >= 0x20 by {
        if m == 0 {
        } else if m == 1 {
        } else if m == 2 {
        } else {
            assert(m == 3);
        }
    }
    lemma_escape_plain(key_path);
    assert forall|m: int| 0 <= m < 4 implies seg1[3 + m] == key_path[m] by {
        if m == 0 {
        } else if m == 1 {
        } else if m == 2 {
        } else {
            assert(m == 3);
        }
    }
    assert forall|k: int| 0 <= k < 4 implies l.subrange(b + 3, b + 7)[k] == spec_escape_string(
        key_path,
    )[k] by {
        assert(l.subrange(b + 3, b + 7)[k] == l[b + (3 + k)]);
        assert(l[b + (3 + k)] == seg1[3 + k]);
    }
    assert(l.subrange(b + 3, b + 7) =~= spec_escape_string(key_path));
    assert(l[b + 7] == seg1[7] && seg1[7] == '"');
    lemma_string_round_trip(l, b + 3, key_path);
    assert(l[b + 2] == seg1[2] && seg1[2] == '"');
}

/// The third key reads back as `x`.
proof fn lemma_rt_key_x(e: HelperEventView)
    ensures
        crate::json::spec_parse_string(spec_encode_helper_event(e), rt_c0(e) + 1) == Some(
            ("x"@, rt_c0(e) + 4),
        ),
{
    reveal_strlit("{\"event_type\":\"");
    reveal_strlit("\",\"path\":");
    reveal_strlit(",\"x\":");
    reveal_strlit(",\"y\":");
    reveal_strlit("x");
    let seg0 = "{\"event_type\":\""@;
    let seg1 = "\",\"path\":"@;
    let seg2 = ",\"x\":"@;
    let seg3 = ",\"y\":"@;
    let nm = spec_helper_type_name(e.event_type);
    let pp = rt_path_part(e);
    let xx = spec_i64_dec(e.x);
    let yy = spec_i64_dec(e.y);
    let l = spec_encode_helper_event(e);
    let b = rt_b(e);
    let p0 = rt_p0(e);
    let c0 = rt_c0(e);
    let x0 = rt_x0(e);
    let d0 = rt_d0(e);
    let y0 = rt_y0(e);
    let z0 = rt_z0(e);
    lemma_rt_layout(e);
    let key_x = "x"@;
    assert forall|m: int| 0 <= m < key_x.len() implies (#[trigger] key_x[m]) != '"'
        && key_x[m] != '\\' && (key_x[m] as u32) >= 0x20 by {
        assert(m == 0);
    }
    lemma_escape_plain(key_x);
    assert(l.subrange(c0 + 2, c0 + 3) =~= spec_escape_string(key_x)) by {
        assert(l.subrange(c0 + 2, c0 + 3)[0] == l[c0 + 2]);
        assert(l[c0 + 2] == seg2[2] && seg2[2] == 'x');
    }
    assert(l[c0 + 3] == seg2[3] && seg2[3] == '"');
    lemma_string_round_trip(l, c0 + 2, key_x);
    assert(l[c0 + 1] == seg2[1] && seg2[1] == '"');
}

/// The fourth key reads back as `y`.
proof fn lemma_rt_key_y(e: HelperEventView)
    ensures
        crate::json::spec_parse_string(spec_encode_helper_event(e), rt_d0(e) + 1) == Some(
            ("y"@, rt_d0(e) + 4),
        ),
{
    reveal_strlit("{\"event_type\":\"");
    reveal_strlit("\",\"path\":");
    reveal_strlit(",\"x\":");
    reveal_strlit(",\"y\":");
    reveal_strlit("y");
    let seg0 = "{\"event_type\":\""@;
    let seg1 = "\",\"path\":"@;
    let seg2 = ",\"x\":"@;
    let seg3 = ",\"y\":"@;
    let nm = spec_helper_type_name(e.event_type);
    let pp = rt_path_part(e);
    let xx = spec_i64_dec(e.x);
    let yy = spec_i64_dec(e.y);
    let l = spec_encode_helper_event(e);
    let b = rt_b(e);
    let p0 = rt_p0(e);
    let c0 = rt_c0(e);
    let x0 = rt_x0(e);
    let d0 = rt_d0(e);
    let y0 = rt_y0(e);
    let z0 = rt_z0(e);
    lemma_rt_layout(e);
    let key_y = "y"@;
    assert forall|m: int| 0 <= m < key_y.len() implies (#[trigger] key_y[m]) != '"'
        && key_y[m] != '\\' && (key_y[m] as u32) >= 0x20 by {
        assert(m == 0);
    }
    lemma_escape_plain(key_y);
    assert(l.subrange(d0 + 2, d0 + 3) =~= spec_escape_string(key_y)) by {
        assert(l.subrange(d0 + 2, d0 + 3)[0] == l[d0 + 2]);
        assert(l[d0 + 2] == seg3[2] && seg3[2] == 'y');
    }
    assert(l[d0 + 3] == seg3[3] && seg3[3] == '"');
    lemma_string_round_trip(l, d0 + 2, key_y);
    assert(l[d0 + 1] == seg3[1] && seg3[1] == '"');
}

/// The path field reads back as the path that was written, or null.
proof fn lemma_rt_path_value(e: HelperEventView)
    ensures
        crate::json::spec_parse_value(spec_encode_helper_event(e), rt_p0(e)) == Some(
            (
                match e.path {
                    Some(p) => JVal::Str(p),
                    None => JVal::Null,
                },
                rt_c0(e),
            ),
        ),
{
    reveal_strlit("{\"event_type\":\"");
    reveal_strlit("\",\"path\":");
    reveal_strlit(",\"x\":");
    reveal_strlit(",\"y\":");
    reveal_strlit("null");
    let seg0 = "{\"event_type\":\""@;
    let seg1 = "\",\"path\":"@;
    let seg2 = ",\"x\":"@;
    let seg3 = ",\"y\":"@;
    let nm = spec_helper_type_name(e.event_type);
    let pp = rt_path_part(e);
    let xx = spec_i64_dec(e.x);
    let yy = spec_i64_dec(e.y);
    let l = spec_encode_helper_event(e);
    let b = rt_b(e);
    let p0 = rt_p0(e);
    let c0 = rt_c0(e);
    let x0 = rt_x0(e);
    let d0 = rt_d0(e);
    let y0 = rt_y0(e);
    let z0 = rt_z0(e);
    lemma_rt_layout(e);
    if e.path is Some {
        let p = e.path->0;
        let el = spec_escape_string(p).len() as int;
        assert(pp == seq!['"'] + spec_escape_string(p) + seq!['"']);
        assert(pp.len() == el + 2);
        assert forall|k: int| 0 <= k < el implies l.subrange(p0 + 1, p0 + 1 + el)[k]
            == spec_escape_string(p)[k] by {
            assert(l.subrange(p0 + 1, p0 + 1 + el)[k] == l[p0 + (1 + k)]);
            assert(l[p0 + (1 + k)] == pp[1 + k]);
            assert(pp[1 + k] == spec_escape_string(p)[k]);
        }
        assert(l.subrange(p0 + 1, p0 + 1 + el) =~= spec_escape_string(p));
        assert(l[p0 + 1 + el] == pp[1 + el] && pp[1 + el] == '"');
        lemma_string_round_trip(l, p0 + 1, p);
        assert(l[p0] == pp[0] && pp[0] == '"');
    } else {
        assert(pp == "null"@ && pp.len() == 4);
        assert(l[p0] == pp[0] && pp[0] == 'n');
        assert(l[p0 + 1] == pp[1] && pp[1] == 'u');
        assert(l[p0 + 2] == pp[2] && pp[2] == 'l');
        assert(l[p0 + 3] == pp[3] && pp[3] == 'l');
        assert(!crate::json::spec_is_digit('n'));
    }
}

/// The two coordinate fields read back as the numbers that were written.
proof fn lemma_rt_number_values(e: HelperEventView)
    requires
        -0x8000_0000_0000_0000 <= e.x <= 0x7fff_ffff_ffff_ffff,
        -0x8000_0000_0000_0000 <= e.y <= 0x7fff_ffff_ffff_ffff,
    ensures
        crate::json::spec_parse_value(spec_encode_helper_event(e), rt_x0(e)) == Some(
            (JVal::Num(e.x), rt_d0(e)),
        ),
        crate::json::spec_parse_value(spec_encode_helper_event(e), rt_y0(e)) == Some(
            (JVal::Num(e.y), rt_z0(e)),
        ),
{
    reveal_strlit("{\"event_type\":\"");
    reveal_strlit("\",\"path\":");
    reveal_strlit(",\"x\":");
    reveal_strlit(",\"y\":");
    let seg0 = "{\"event_type\":\""@;
    let seg1 = "\",\"path\":"@;
    let seg2 = ",\"x\":"@;
    let seg3 = ",\"y\":"@;
    let nm = spec_helper_type_name(e.event_type);
    let pp = rt_path_part(e);
    let xx = spec_i64_dec(e.x);
    let yy = spec_i64_dec(e.y);
    let l = spec_encode_helper_event(e);
    let b = rt_b(e);
    let p0 = rt_p0(e);
    let c0 = rt_c0(e);
    let x0 = rt_x0(e);
    let d0 = rt_d0(e);
    let y0 = rt_y0(e);
    let z0 = rt_z0(e);
    lemma_rt_layout(e);
    let xl = xx.len() as int;
    let yl = yy.len() as int;
    assert forall|k: int| 0 <= k < xl implies l.subrange(x0, x0 + xl)[k] == xx[k] by {
        assert(l.subrange(x0, x0 + xl)[k] == l[x0 + k]);
    }
    assert(l.subrange(x0, x0 + xl) =~= xx);
    assert(l[x0 + xl] == seg3[0] && seg3[0] == ',');
    assert(!(crate::json::spec_is_digit(l[d0]) || l[d0] == '.' || l[d0] == 'e' || l[d0] == 'E'));
    lemma_number_round_trip(l, x0, e.x);
    assert forall|k: int| 0 <= k < yl implies l.subrange(y0, y0 + yl)[k] == yy[k] by {
        assert(l.subrange(y0, y0 + yl)[k] == l[y0 + k]);
    }
    assert(l.subrange(y0, y0 + yl) =~= yy);
    assert(l[y0 + yl] == '}');
    assert(!(crate::json::spec_is_digit(l[z0]) || l[z0] == '.' || l[z0] == 'e' || l[z0] == 'E'));
    lemma_number_round_trip(l, y0, e.y);
    lemma_i64_dec_head(e.x);
    lemma_i64_dec_head(e.y);
    assert(l[x0] == xx[0] && l[y0] == yy[0]);
}

/// The member list of the encoded line reads back as the four fields in
/// order.
#[verifier::rlimit(100)]
proof fn lemma_rt_members(e: HelperEventView)
    requires
        -0x8000_0000_0000_0000 <= e.x <= 0x7fff_ffff_ffff_ffff,
        -0x8000_0000_0000_0000 <= e.y <= 0x7fff_ffff_ffff_ffff,
    ensures
        ({
            let l = spec_encode_helper_event(e);
            let pathval = match e.path {
                Some(p) => JVal::Str(p),
                None => JVal::Null,
            };
            crate::json::spec_parse_members(l, 1) == Some(
                (
                    seq![("event_type"@, JVal::Str(spec_helper_type_name(e.event_type)))] + (seq![
                        ("path"@, pathval),
                    ] + (seq![("x"@, JVal::Num(e.x))] + seq![("y"@, JVal::Num(e.y))])),
                    rt_z0(e) + 1,
                ),
            )
        }),
{
    reveal_strlit("{\"event_type\":\"");
    reveal_strlit("\",\"path\":");
    reveal_strlit(",\"x\":");
    reveal_strlit(",\"y\":");
    let seg0 = "{\"event_type\":\""@;
    let seg1 = "\",\"path\":"@;
    let seg2 = ",\"x\":"@;
    let seg3 = ",\"y\":"@;
    let nm = spec_helper_type_name(e.event_type);
    let pp = rt_path_part(e);
    let xx = spec_i64_dec(e.x);
    let yy = spec_i64_dec(e.y);
    let l = spec_encode_helper_event(e);
    let b = rt_b(e);
    let p0 = rt_p0(e);
    let c0 = rt_c0(e);
    let x0 = rt_x0(e);
    let d0 = rt_d0(e);
    let y0 = rt_y0(e);
    let z0 = rt_z0(e);
    lemma_rt_layout(e);
    lemma_rt_key_et(e);
    lemma_rt_name(e);
    lemma_rt_key_path(e);
    lemma_rt_key_x(e);
    lemma_rt_key_y(e);
    lemma_rt_path_value(e);
    lemma_rt_number_values(e);
    lemma_i64_dec_head(e.x);
    lemma_i64_dec_head(e.y);
    let pathval = match e.path {
        Some(p) => JVal::Str(p),
        None => JVal::Null,
    };
    assert(l[x0] == xx[0] && l[y0] == yy[0]);
    assert(l[p0] == pp[0] && (pp[0] == '"' || pp[0] == 'n'));

    assert(crate::json::spec_skip_ws(l, d0 + 4) == d0 + 4 && l[d0 + 4] == seg3[4] && seg3[4]
        == ':');
    assert(crate::json::spec_skip_ws(l, d0 + 5) == y0);
    assert(crate::json::spec_skip_ws(l, z0) == z0 && l[z0] == '}');
    let pair_y = ("y"@, JVal::Num(e.y));
    assert(crate::json::spec_parse_value(l, y0) == Some((JVal::Num(e.y), z0)));
    assert(crate::json::spec_parse_members(l, d0 + 1) == Some((seq![pair_y], z0 + 1)));

    assert(crate::json::spec_skip_ws(l, c0 + 4) == c0 + 4 && l[c0 + 4] == seg2[4] && seg2[4]
        == ':');
    assert(crate::json::spec_skip_ws(l, c0 + 5) == x0);
    assert(crate::json::spec_skip_ws(l, d0) == d0 && l[d0] == seg3[0] && seg3[0] == ',');
    assert(crate::json::spec_skip_ws(l, d0 + 1) == d0 + 1);
    let pair_x = ("x"@, JVal::Num(e.x));
    assert(crate::json::spec_parse_members(l, c0 + 1) == Some(
        (seq![pair_x] + seq![pair_y], z0 + 1),
    ));

    assert(crate::json::spec_skip_ws(l, b + 8) == b + 8 && l[b + 8] == seg1[8] && seg1[8] == ':');
    assert(crate::json::spec_skip_ws(l, p0) == p0);
    assert(crate::json::spec_skip_ws(l, c0) == c0 && l[c0] == seg2[0] && seg2[0] == ',');
    assert(crate::json::spec_skip_ws(l, c0 + 1) == c0 + 1);
    let pair_p = ("path"@, pathval);
    assert(crate::json::spec_parse_members(l, b + 2) == Some(
        (seq![pair_p] + (seq![pair_x] + seq![pair_y]), z0 + 1),
    ));

    assert(crate::json::spec_skip_ws(l, 13) == 13 && l[13] == seg0[13] && seg0[13] == ':');
    assert(crate::json::spec_skip_ws(l, 14) == 14);
    assert(crate::json::spec_skip_ws(l, b + 1) == b + 1 && l[b + 1] == seg1[1] && seg1[1] == ',');
    assert(crate::json::spec_skip_ws(l, b + 2) == b + 2);
    let pair_t = ("event_type"@, JVal::Str(nm));
    assert(crate::json::spec_parse_members(l, 1) == Some(
        (seq![pair_t] + (seq![pair_p] + (seq![pair_x] + seq![pair_y])), z0 + 1),
    ));
}

/// An encoded helper event, fed back through the line reader, is read as
/// exactly the event again: the encoder and the parser agree on the wire
/// format, for every event whose coordinates the model can carry.
#[verifier::rlimit(100)]
pub proof fn lemma_encode_parse_round_trip(e: HelperEventView)
    requires
        -0x8000_0000_0000_0000 <= e.x <= 0x7fff_ffff_ffff_ffff,
        -0x8000_0000_0000_0000 <= e.y <= 0x7fff_ffff_ffff_ffff,
    ensures
        spec_parse_helper_line(spec_encode_helper_event(e)) == Some(e),
{
    reveal_strlit("{\"event_type\":\"");
    reveal_strlit("\",\"path\":");
    reveal_strlit(",\"x\":");
    reveal_strlit(",\"y\":");
    reveal_strlit("event_type");
    reveal_strlit("path");
    reveal_strlit("x");
    reveal_strlit("y");
    reveal_strlit("hovered");
    reveal_strlit("dropped");
    reveal_strlit("cancelled");
    let seg0 = "{\"event_type\":\""@;
    let seg1 = "\",\"path\":"@;
    let seg2 = ",\"x\":"@;
    let seg3 = ",\"y\":"@;
    let nm = spec_helper_type_name(e.event_type);
    let pp = rt_path_part(e);
    let xx = spec_i64_dec(e.x);
    let yy = spec_i64_dec(e.y);
    let l = spec_encode_helper_event(e);
    let b = rt_b(e);
    let p0 = rt_p0(e);
    let c0 = rt_c0(e);
    let x0 = rt_x0(e);
    let d0 = rt_d0(e);
    let y0 = rt_y0(e);
    let z0 = rt_z0(e);
    lemma_rt_layout(e);
    lemma_rt_members(e);
    let pathval = match e.path {
        Some(p) => JVal::Str(p),
        None => JVal::Null,
    };
    let key_et = "event_type"@;
    let key_path = "path"@;
    let key_x = "x"@;
    let key_y = "y"@;
    let pair_t = (key_et, JVal::Str(nm));
    let pair_p = (key_path, pathval);
    let pair_x = (key_x, JVal::Num(e.x));
    let pair_y = (key_y, JVal::Num(e.y));
    let pairs = seq![pair_t] + (seq![pair_p] + (seq![pair_x] + seq![pair_y]));
    assert(crate::json::spec_skip_ws(l, 0) == 0 && l[0] == seg0[0] && seg0[0] == '{');
    assert(crate::json::spec_skip_ws(l, 1) == 1 && l[1] == seg0[1] && seg0[1] == '"');
    assert(l[1] != '}');
    assert(crate::json::spec_parse_object(l, 0) == Some((pairs, z0 + 1)));
    assert(crate::json::spec_skip_ws(l, z0 + 1) == z0 + 1);
    assert(spec_parse_line(l) == Some(pairs));

    let tail1 = seq![pair_p] + (seq![pair_x] + seq![pair_y]);
    let tail2 = seq![pair_x] + seq![pair_y];
    assert(pairs[0] == pair_t && pairs.drop_first() =~= tail1);
    assert(tail1[0] == pair_p && tail1.drop_first() =~= tail2);
    assert(tail2[0] == pair_x && tail2.drop_first() =~= seq![pair_y]);
    assert(seq![pair_y][0] == pair_y && seq![pair_y].drop_first() =~= Seq::<(
        Seq<char>,
        JVal,
    )>::empty());
    assert(key_et.len() == 10 && key_path.len() == 4 && key_x.len() == 1 && key_y.len() == 1);
    assert(key_x[0] == 'x' && key_y[0] == 'y');
    assert(key_x != key_y) by {
        if key_x == key_y {
            assert(key_x[0] == key_y[0]);
        }
    }
    assert(spec_lookup(seq![pair_y], key_y) == Some(JVal::Num(e.y)));
    assert(spec_lookup(tail2, key_x) == Some(JVal::Num(e.x)));
    assert(spec_lookup(tail2, key_y) == Some(JVal::Num(e.y)));
    assert(spec_lookup(tail1, key_path) == Some(pathval));
    assert(spec_lookup(tail1, key_x) == Some(JVal::Num(e.x)));
    assert(spec_lookup(tail1, key_y) == Some(JVal::Num(e.y)));
    assert(spec_lookup(pairs, key_et) == Some(JVal::Str(nm)));
    assert(spec_lookup(pairs, key_path) == Some(pathval));
    assert(spec_lookup(pairs, key_x) == Some(JVal::Num(e.x)));
    assert(spec_lookup(pairs, key_y) == Some(JVal::Num(e.y)));

    assert(spec_event_type_of(JVal::Str(nm)) == Some(e.event_type)) by {
        assert("hovered"@.len() == 7 && "dropped"@.len() == 7 && "cancelled"@.len() == 9);
        if e.event_type == HelperEventType::Dropped {
            assert(nm == "dropped"@ && nm[0] == 'd' && "hovered"@[0] == 'h');
            assert(nm != "hovered"@) by {
                if nm == "hovered"@ {
                    assert(nm[0] == 'h');
                }
            }
        }
    }
    assert(spec_path_of(pathval) == Some(e.path));
    assert(spec_parse_helper_line(l) == Some(
        HelperEventView { event_type: e.event_type, path: e.path, x: e.x, y: e.y },
    ));
    assert(HelperEventView { event_type: e.event_type, path: e.path, x: e.x, y: e.y } == e);
}

/// The coordinate a command-line argument stands for: the whole argument
/// must be one number token; its value is truncated toward zero.
pub open spec fn spec_coord_of_arg(s: Seq<char>) -> Option<int> {
    match spec_parse_number(s, 0) {
        Some((value, end)) => {
            if end == s.len() {
                Some(value)
            } else {
                None
            }
        },
        None => None,
    }
}

/// The initial position the helper's command line carries: the program name
/// and then two numeric arguments. Fewer arguments, or arguments that do not
/// parse as numbers, yield nothing and the helper centers itself instead.
pub open spec fn spec_initial_position(args: Seq<Seq<char>>) -> Option<Pos> {
    if args.len() < 3 {
        None
    } else {
        match (spec_coord_of_arg(args[1]), spec_coord_of_arg(args[2])) {
            (Some(x), Some(y)) => {
                if -0x8000_0000_0000_0000 <= x <= 0x7fff_ffff_ffff_ffff && -0x8000_0000_0000_0000
                    <= y <= 0x7fff_ffff_ffff_ffff {
                    Some(Pos { x: x as i64, y: y as i64 })
                } else {
                    None
                }
            },
            _ => None,
        }
    }
}

/// Reads the helper's initial position from its command-line arguments.
pub fn initial_position_from_args(args: &Vec<String>) -> (r: Option<Pos>)
    ensures
        r == spec_initial_position(args@.map_values(|a: String| a@)),
{
    let ghost views = args@.map_values(|a: String| a@);
    if args.len() < 3 {
        return None;
    }
    let vx = chars_of(args[1].as_str());
    let vy = chars_of(args[2].as_str());
    let x = match parse_number(&vx, 0) {
        Some((value, end)) if end == vx.len() => value,
        _ => {
            proof {
                assert(views[1] == args@[1]@);
            }
            return None;
        },
    };
    let y = match parse_number(&vy, 0) {
        Some((value, end)) if end == vy.len() => value,
        _ => {
            proof {
                assert(views[2] == args@[2]@);
            }
            return None;
        },
    };
    proof {
        assert(views[1] == args@[1]@ && views[2] == args@[2]@);
    }
    Some(Pos { x, y })
}

} // verus!

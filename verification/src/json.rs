//! A verified decoder for the service's response body: a JSON array of
//! device objects.
//!
//! The grammar is the one the service speaks: standard JSON, restricted at
//! the top to an array of objects. Each object must carry every field of
//! [`crate::device::SmartDevice`] exactly once, with the right type; fields
//! this library does not know are skipped. Each `spec` function here defines
//! one production of that grammar over a sequence of characters, and the
//! executable function beside it is proved to return exactly what the
//! `spec` function denotes.

use vstd::prelude::*;
use vstd::string::*;
use crate::device::{DeviceModel, SmartDevice};
use crate::text::{push_char, spec_decimal, spec_digit_char};

verus! {

/// Relies on `char::from_u32`: `Some` exactly for Unicode scalar values
/// (below the surrogate range, or between it and the maximum code point),
/// and the returned character has the given code point.
#[verifier::external_body]
fn char_from_code(u: u32) -> (r: Option<char>)
    ensures
        r is Some <==> (u < 0xD800 || (0xE000 <= u && u <= 0x10FFFF)),
        r is Some ==> r->0 as u32 == u,
{
    char::from_u32(u)
}

/// Prepends one character to a string.
fn cons_char(c: char, rest: String) -> (r: String)
    ensures
        r@ == seq![c] + rest@,
{
    let mut out = String::new();
    push_char(&mut out, c);
    out.append(rest.as_str());
    proof {
        assert(Seq::<char>::empty().push(c) =~= seq![c]);
    }
    out
}

/// JSON insignificant whitespace.
pub open spec fn is_json_ws(c: char) -> bool {
    c == ' ' || c == '\t' || c == '\n' || c == '\r'
}

/// The first index at or after `i` that does not hold whitespace.
pub open spec fn spec_skip_ws(s: Seq<char>, i: int) -> int
    decreases s.len() - i,
    when 0 <= i <= s.len()
{
    if i < s.len() && is_json_ws(s[i]) {
        spec_skip_ws(s, i + 1)
    } else {
        i
    }
}

fn skip_ws(s: &Vec<char>, i: usize) -> (r: usize)
    requires
        i <= s.len(),
    ensures
        r as int == spec_skip_ws(s@, i as int),
        i <= r <= s.len(),
    decreases s.len() - i,
{
    if i < s.len() {
        let c = s[i];
        if c == ' ' || c == '\t' || c == '\n' || c == '\r' {
            return skip_ws(s, i + 1);
        }
    }
    i
}

/// A decimal digit.
pub open spec fn is_digit(c: char) -> bool {
    48 <= c as u32 <= 57
}

/// The value of a decimal digit.
pub open spec fn digit_val(c: char) -> int {
    c as u32 - 48
}

/// The first index at or after `i` that does not hold a digit.
pub open spec fn spec_skip_digits(s: Seq<char>, i: int) -> int
    decreases s.len() - i,
    when 0 <= i <= s.len()
{
    if i < s.len() && is_digit(s[i]) {
        spec_skip_digits(s, i + 1)
    } else {
        i
    }
}

fn skip_digits(s: &Vec<char>, i: usize) -> (r: usize)
    requires
        i <= s.len(),
    ensures
        r as int == spec_skip_digits(s@, i as int),
        i <= r <= s.len(),
        i < s.len() && is_digit(s@[i as int]) ==> i < r,
    decreases s.len() - i,
{
    if i < s.len() {
        let c = s[i];
        if 48 <= c as u32 && c as u32 <= 57 {
            return skip_digits(s, i + 1);
        }
    }
    i
}

/// The value of a hexadecimal digit, if the character is one.
pub open spec fn spec_hex_val(c: char) -> Option<int> {
    let u = c as u32;
    if 48 <= u <= 57 {
        Some(u - 48)
    } else if 97 <= u <= 102 {
        Some(u - 97 + 10)
    } else if 65 <= u <= 70 {
        Some(u - 65 + 10)
    } else {
        None
    }
}

fn hex_val(c: char) -> (r: Option<u32>)
    ensures
        match (r, spec_hex_val(c)) {
            (Some(v), Some(sv)) => v as int == sv && v < 16,
            (None, None) => true,
            _ => false,
        },
{
    let u = c as u32;
    if 48 <= u && u <= 57 {
        Some(u - 48)
    } else if 97 <= u && u <= 102 {
        Some(u - 97 + 10)
    } else if 65 <= u && u <= 70 {
        Some(u - 65 + 10)
    } else {
        None
    }
}

/// Four hexadecimal digits starting at `i`, as a number.
pub open spec fn spec_hex4(s: Seq<char>, i: int) -> Option<int> {
    if 0 <= i && i + 4 <= s.len() {
        match (spec_hex_val(s[i]), spec_hex_val(s[i + 1]), spec_hex_val(s[i + 2]), spec_hex_val(
            s[i + 3],
        )) {
            (Some(a), Some(b), Some(c), Some(d)) => Some(a * 0x1000 + b * 0x100 + c * 0x10 + d),
            _ => None,
        }
    } else {
        None
    }
}

fn hex4(s: &Vec<char>, i: usize) -> (r: Option<u32>)
    requires
        i <= s.len(),
    ensures
        match (r, spec_hex4(s@, i as int)) {
            (Some(v), Some(sv)) => v as int == sv && v < 0x10000,
            (None, None) => true,
            _ => false,
        },
{
    if s.len() - i < 4 {
        return None;
    }
    let a = match hex_val(s[i]) {
        Some(v) => v,
        None => {
            return None;
        },
    };
    let b = match hex_val(s[i + 1]) {
        Some(v) => v,
        None => {
            return None;
        },
    };
    let c = match hex_val(s[i + 2]) {
        Some(v) => v,
        None => {
            return None;
        },
    };
    let d = match hex_val(s[i + 3]) {
        Some(v) => v,
        None => {
            return None;
        },
    };
    Some(a * 0x1000 + b * 0x100 + c * 0x10 + d)
}

/// What a single-character escape denotes.
pub open spec fn spec_unescape(c: char) -> Option<char> {
    if c == '"' {
        Some('"')
    } else if c == '\\' {
        Some('\\')
    } else if c == '/' {
        Some('/')
    } else if c == 'b' {
        Some('\u{8}')
    } else if c == 'f' {
        Some('\u{c}')
    } else if c == 'n' {
        Some('\n')
    } else if c == 'r' {
        Some('\r')
    } else if c == 't' {
        Some('\t')
    } else {
        None
    }
}

fn unescape(c: char) -> (r: Option<char>)
    ensures
        r == spec_unescape(c),
{
    if c == '"' {
        Some('"')
    } else if c == '\\' {
        Some('\\')
    } else if c == '/' {
        Some('/')
    } else if c == 'b' {
        Some('\u{8}')
    } else if c == 'f' {
        Some('\u{c}')
    } else if c == 'n' {
        Some('\n')
    } else if c == 'r' {
        Some('\r')
    } else if c == 't' {
        Some('\t')
    } else {
        None
    }
}

/// The character with a given code point, for code points known to be
/// Unicode scalar values.
pub open spec fn spec_char_of(cp: int) -> char {
    (cp as u32) as char
}

/// The rest of a JSON string after its opening quote: the characters it
/// denotes (escapes resolved) and the index just past the closing quote.
pub open spec fn spec_parse_string_body(s: Seq<char>, i: int) -> Option<(Seq<char>, int)>
    decreases s.len() - i,
    when 0 <= i <= s.len()
{
    if i >= s.len() {
        None
    } else {
        let c = s[i];
        if c == '"' {
            Some((Seq::empty(), i + 1))
        } else if c == '\\' {
            if i + 1 >= s.len() {
                None
            } else {
                let e = s[i + 1];
                if e == 'u' {
                    match spec_hex4(s, i + 2) {
                        Some(h) => if 0xD800 <= h < 0xDC00 {
                            // a leading surrogate must be followed by a
                            // trailing one; together they name one character
                            if i + 8 <= s.len() && s[i + 6] == '\\' && s[i + 7] == 'u' {
                                match spec_hex4(s, i + 8) {
                                    Some(l) => if 0xDC00 <= l < 0xE000 {
                                        match spec_parse_string_body(s, i + 12) {
                                            Some((rest, j)) => Some(
                                                (
                                                    seq![
                                                        spec_char_of(
                                                            0x10000 + (h - 0xD800) * 0x400 + (l
                                                                - 0xDC00),
                                                        ),
                                                    ] + rest,
                                                    j,
                                                ),
                                            ),
                                            None => None,
                                        }
                                    } else {
                                        None
                                    },
                                    None => None,
                                }
                            } else {
                                None
                            }
                        } else if 0xDC00 <= h < 0xE000 {
                            None
                        } else {
                            match spec_parse_string_body(s, i + 6) {
                                Some((rest, j)) => Some((seq![spec_char_of(h)] + rest, j)),
                                None => None,
                            }
                        },
                        None => None,
                    }
                } else {
                    match spec_unescape(e) {
                        Some(u) => match spec_parse_string_body(s, i + 2) {
                            Some((rest, j)) => Some((seq![u] + rest, j)),
                            None => None,
                        },
                        None => None,
                    }
                }
            }
        } else if (c as u32) < 32 {
            None
        } else {
            match spec_parse_string_body(s, i + 1) {
                Some((rest, j)) => Some((seq![c] + rest, j)),
                None => None,
            }
        }
    }
}

/// The model of an executable string-parse result.
pub open spec fn str_res_view(r: Option<(String, usize)>) -> Option<(Seq<char>, int)> {
    match r {
        Some((t, j)) => Some((t@, j as int)),
        None => None,
    }
}

fn parse_string_body(s: &Vec<char>, i: usize) -> (r: Option<(String, usize)>)
    requires
        i <= s.len(),
    ensures
        str_res_view(r) == spec_parse_string_body(s@, i as int),
        r matches Some((t, j)) ==> i < j <= s.len(),
    decreases s.len() - i,
{
    if i >= s.len() {
        return None;
    }
    let c = s[i];
    if c == '"' {
        Some((String::new(), i + 1))
    } else if c == '\\' {
        if s.len() - i < 2 {
            return None;
        }
        let e = s[i + 1];
        if e == 'u' {
            let h = match hex4(s, i + 2) {
                Some(h) => h,
                None => {
                    return None;
                },
            };
            if 0xD800 <= h && h < 0xDC00 {
                if s.len() - i >= 8 && s[i + 6] == '\\' && s[i + 7] == 'u' {
                    let l = match hex4(s, i + 8) {
                        Some(l) => l,
                        None => {
                            return None;
                        },
                    };
                    if 0xDC00 <= l && l < 0xE000 {
                        let cp: u32 = 0x10000 + (h - 0xD800) * 0x400 + (l - 0xDC00);
                        let ch = match char_from_code(cp) {
                            Some(ch) => ch,
                            None => {
                                proof {
                                    assert(false);
                                }
                                return None;
                            },
                        };
                        proof {
                            vstd::utf8::char_u32_cast(ch, cp);
                        }
                        match parse_string_body(s, i + 12) {
                            Some((rest, j)) => Some((cons_char(ch, rest), j)),
                            None => None,
                        }
                    } else {
                        None
                    }
                } else {
                    None
                }
            } else if 0xDC00 <= h && h < 0xE000 {
                None
            } else {
                let ch = match char_from_code(h) {
                    Some(ch) => ch,
                    None => {
                        proof {
                            assert(false);
                        }
                        return None;
                    },
                };
                proof {
                    vstd::utf8::char_u32_cast(ch, h);
                }
                match parse_string_body(s, i + 6) {
                    Some((rest, j)) => Some((cons_char(ch, rest), j)),
                    None => None,
                }
            }
        } else {
            let u = match unescape(e) {
                Some(u) => u,
                None => {
                    return None;
                },
            };
            match parse_string_body(s, i + 2) {
                Some((rest, j)) => Some((cons_char(u, rest), j)),
                None => None,
            }
        }
    } else if (c as u32) < 32 {
        None
    } else {
        match parse_string_body(s, i + 1) {
            Some((rest, j)) => Some((cons_char(c, rest), j)),
            None => None,
        }
    }
}

/// The characters of `s` between `st` and `end`, as a string.
fn string_of_range(s: &Vec<char>, st: usize, end: usize) -> (r: String)
    requires
        st <= end <= s.len(),
    ensures
        r@ == s@.subrange(st as int, end as int),
{
    let mut out = String::new();
    let mut k = st;
    proof {
        assert(s@.subrange(st as int, st as int) =~= Seq::<char>::empty());
    }
    while k < end
        invariant
            st <= k <= end <= s.len(),
            out@ == s@.subrange(st as int, k as int),
        decreases end - k,
    {
        push_char(&mut out, s[k]);
        proof {
            assert(s@.subrange(st as int, k + 1 as int) =~= s@.subrange(st as int, k as int).push(
                s@[k as int],
            ));
        }
        k = k + 1;
    }
    out
}

/// The fraction and exponent parts of a number token whose integer part
/// ends at `i2`; the token runs from `st`.
pub open spec fn spec_number_tail(s: Seq<char>, st: int, i2: int) -> Option<(Seq<char>, int)> {
    if !(0 <= st <= i2 <= s.len()) {
        None
    } else {
        let f = if i2 < s.len() && s[i2] == '.' {
            let i3 = spec_skip_digits(s, i2 + 1);
            if i3 == i2 + 1 {
                None
            } else {
                Some(i3)
            }
        } else {
            Some(i2)
        };
        match f {
            None => None,
            Some(i3) => {
                let e = if i3 < s.len() && (s[i3] == 'e' || s[i3] == 'E') {
                    let i4 = if i3 + 1 < s.len() && (s[i3 + 1] == '+' || s[i3 + 1] == '-') {
                        i3 + 2
                    } else {
                        i3 + 1
                    };
                    let i5 = spec_skip_digits(s, i4);
                    if i5 == i4 {
                        None
                    } else {
                        Some(i5)
                    }
                } else {
                    Some(i3)
                };
                match e {
                    None => None,
                    Some(end) => Some((s.subrange(st, end), end)),
                }
            },
        }
    }
}

/// A JSON number token starting at `i`: its text and the index past it.
pub open spec fn spec_parse_number(s: Seq<char>, i: int) -> Option<(Seq<char>, int)> {
    if !(0 <= i <= s.len()) {
        None
    } else {
        let i1 = if i < s.len() && s[i] == '-' {
            i + 1
        } else {
            i
        };
        if i1 >= s.len() {
            None
        } else if s[i1] == '0' {
            spec_number_tail(s, i, i1 + 1)
        } else if is_digit(s[i1]) {
            spec_number_tail(s, i, spec_skip_digits(s, i1))
        } else {
            None
        }
    }
}

fn number_tail(s: &Vec<char>, st: usize, i2: usize) -> (r: Option<usize>)
    requires
        st <= i2 <= s.len(),
    ensures
        match (r, spec_number_tail(s@, st as int, i2 as int)) {
            (Some(end), Some((tok, e))) => end as int == e && i2 <= end <= s.len(),
            (None, None) => true,
            _ => false,
        },
{
    let i3 = if i2 < s.len() && s[i2] == '.' {
        let i3 = skip_digits(s, i2 + 1);
        if i3 == i2 + 1 {
            return None;
        }
        i3
    } else {
        i2
    };
    let end = if i3 < s.len() && (s[i3] == 'e' || s[i3] == 'E') {
        let i4 = if i3 + 1 < s.len() && (s[i3 + 1] == '+' || s[i3 + 1] == '-') {
            i3 + 2
        } else {
            i3 + 1
        };
        let i5 = skip_digits(s, i4);
        if i5 == i4 {
            return None;
        }
        i5
    } else {
        i3
    };
    Some(end)
}

fn parse_number(s: &Vec<char>, i: usize) -> (r: Option<usize>)
    requires
        i <= s.len(),
    ensures
        match (r, spec_parse_number(s@, i as int)) {
            (Some(end), Some((tok, e))) => end as int == e && tok == s@.subrange(
                i as int,
                end as int,
            ) && i < end <= s.len(),
            (None, None) => true,
            _ => false,
        },
{
    let i1 = if i < s.len() && s[i] == '-' {
        i + 1
    } else {
        i
    };
    if i1 >= s.len() {
        return None;
    }
    if s[i1] == '0' {
        number_tail(s, i, i1 + 1)
    } else {
        let c = s[i1];
        if 48 <= c as u32 && c as u32 <= 57 {
            number_tail(s, i, skip_digits(s, i1))
        } else {
            None
        }
    }
}

/// Whether every character of a sequence is a decimal digit.
pub open spec fn all_digits(ds: Seq<char>) -> bool {
    forall|k: int| 0 <= k < ds.len() ==> is_digit(#[trigger] ds[k])
}

/// The numeric value of a run of decimal digits.
pub open spec fn spec_digits_value(ds: Seq<char>) -> int
    decreases ds.len(),
{
    if ds.len() == 0 {
        0
    } else {
        spec_digits_value(ds.drop_last()) * 10 + digit_val(ds.last())
    }
}

/// The device identifier a number token denotes: a plain unsigned integer
/// that fits in 32 bits. Signs, fractions and exponents do not name an
/// identifier.
pub open spec fn spec_u32_of_token(tok: Seq<char>) -> Option<u32> {
    if tok.len() > 0 && all_digits(tok) && spec_digits_value(tok) <= u32::MAX {
        Some(spec_digits_value(tok) as u32)
    } else {
        None
    }
}

proof fn lemma_digits_nonneg(ds: Seq<char>)
    requires
        all_digits(ds),
    ensures
        spec_digits_value(ds) >= 0,
    decreases ds.len(),
{
    if ds.len() > 0 {
        assert(all_digits(ds.drop_last()));
        lemma_digits_nonneg(ds.drop_last());
        assert(is_digit(ds.last()));
    }
}

proof fn lemma_digits_prefix_le(ds: Seq<char>, m: int)
    requires
        0 <= m <= ds.len(),
        all_digits(ds),
    ensures
        spec_digits_value(ds.take(m)) <= spec_digits_value(ds),
    decreases ds.len() - m,
{
    if m < ds.len() {
        lemma_digits_prefix_le(ds, m + 1);
        assert(ds.take(m + 1).drop_last() =~= ds.take(m));
        assert(all_digits(ds.take(m)));
        lemma_digits_nonneg(ds.take(m));
        assert(is_digit(ds.take(m + 1).last()));
    } else {
        assert(ds.take(m) =~= ds);
    }
}

/// Reads the digits between `st` and `end` as a 32-bit identifier.
fn u32_of_range(s: &Vec<char>, st: usize, end: usize) -> (r: Option<u32>)
    requires
        st <= end <= s.len(),
    ensures
        r == spec_u32_of_token(s@.subrange(st as int, end as int)),
{
    let ghost tok = s@.subrange(st as int, end as int);
    if st == end {
        return None;
    }
    let mut acc: u64 = 0;
    let mut k = st;
    proof {
        assert(tok.take(0) =~= Seq::<char>::empty());
    }
    while k < end
        invariant
            st <= k <= end <= s.len(),
            tok == s@.subrange(st as int, end as int),
            all_digits(tok.take(k as int - st as int)),
            acc as int == spec_digits_value(tok.take(k as int - st as int)),
            acc <= u32::MAX,
        decreases end - k,
    {
        let c = s[k];
        if !(48 <= c as u32 && c as u32 <= 57) {
            proof {
                assert(tok[k as int - st as int] == s@[k as int]);
                assert(!is_digit(tok[k as int - st as int]));
            }
            return None;
        }
        let d: u64 = (c as u32 - 48) as u64;
        acc = acc * 10 + d;
        proof {
            assert(tok.take(k as int - st as int + 1).drop_last() =~= tok.take(
                k as int - st as int,
            ));
            assert(tok.take(k as int - st as int + 1).last() == tok[k as int - st as int]);
            assert(tok[k as int - st as int] == s@[k as int]);
        }
        if acc > 0xFFFF_FFFF {
            proof {
                if all_digits(tok) {
                    lemma_digits_prefix_le(tok, k as int - st as int + 1);
                }
            }
            return None;
        }
        k = k + 1;
    }
    proof {
        assert(tok.take(end as int - st as int) =~= tok);
    }
    Some(acc as u32)
}

/// One direction of the decoder's faithfulness on text: a text that needs
/// no escaping (no quote, no backslash, no control character), followed by
/// a closing quote, is read back unchanged, with the read ending just past
/// that quote.
pub proof fn lemma_plain_text_reads_back(s: Seq<char>, i: int, j: int)
    requires
        0 <= i <= j < s.len(),
        s[j] == '"',
        forall|m: int| i <= m < j ==> s[m] != '"' && s[m] != '\\' && (#[trigger] s[m]) as u32 >= 32,
    ensures
        spec_parse_string_body(s, i) == Some((s.subrange(i, j), j + 1)),
    decreases j - i,
{
    if i == j {
        assert(s.subrange(i, j) =~= Seq::<char>::empty());
    } else {
        lemma_plain_text_reads_back(s, i + 1, j);
        assert(seq![s[i]] + s.subrange(i + 1, j) =~= s.subrange(i, j));
    }
}

proof fn lemma_decimal_all_digits(n: nat)
    ensures
        all_digits(spec_decimal(n)),
        spec_decimal(n).len() > 0,
    decreases n,
{
    if n < 10 {
        assert(is_digit(spec_digit_char(n)));
        assert(forall|k: int| 0 <= k < spec_decimal(n).len() ==> is_digit(
            #[trigger] spec_decimal(n)[k],
        ));
    } else {
        lemma_decimal_all_digits(n / 10);
        assert(is_digit(spec_digit_char(n % 10)));
        assert(forall|k: int| 0 <= k < spec_decimal(n).len() ==> is_digit(
            #[trigger] spec_decimal(n)[k],
        ));
    }
}

proof fn lemma_decimal_value(n: nat)
    ensures
        spec_digits_value(spec_decimal(n)) == n,
    decreases n,
{
    assert(spec_digits_value(Seq::<char>::empty()) == 0);
    if n < 10 {
        assert(spec_decimal(n).drop_last() =~= Seq::<char>::empty());
        assert(digit_val(spec_digit_char(n)) == n);
        assert(spec_decimal(n).last() == spec_digit_char(n));
    } else {
        lemma_decimal_value(n / 10);
        assert(spec_decimal(n).drop_last() =~= spec_decimal(n / 10));
        assert(spec_decimal(n).last() == spec_digit_char(n % 10));
        assert(digit_val(spec_digit_char(n % 10)) == n % 10);
        vstd::arithmetic::div_mod::lemma_fundamental_div_mod(n as int, 10);
    }
}

/// One direction of the decoder's faithfulness on identifiers: an
/// identifier rendered in decimal is read back as the same identifier.
pub proof fn lemma_decimal_id_reads_back(id: u32)
    ensures
        spec_u32_of_token(spec_decimal(id as nat)) == Some(id),
{
    lemma_decimal_all_digits(id as nat);
    lemma_decimal_value(id as nat);
}

proof fn lemma_digit_run(s: Seq<char>, i: int, m: int)
    requires
        0 <= i <= m <= s.len(),
        forall|q: int| i <= q < m ==> is_digit(#[trigger] s[q]),
        m == s.len() || !is_digit(s[m]),
    ensures
        spec_skip_digits(s, i) == m,
    decreases m - i,
{
    if i < m {
        lemma_digit_run(s, i + 1, m);
    }
}

/// One direction of the decoder's faithfulness on rates: a number of the
/// plain shape — digits without a needless leading zero, optionally a dot
/// and more digits — followed by a delimiter is read back as exactly its
/// own text. `m` marks the end of the integer part.
pub proof fn lemma_simple_number_reads_back(s: Seq<char>, i: int, m: int, j: int)
    requires
        0 <= i < m <= j < s.len(),
        forall|q: int| i <= q < m ==> is_digit(#[trigger] s[q]),
        s[i] == '0' ==> m == i + 1,
        m < j ==> s[m] == '.' && m + 1 < j,
        forall|q: int| m < q < j ==> is_digit(#[trigger] s[q]),
        !is_digit(s[j]) && s[j] != '.' && s[j] != 'e' && s[j] != 'E',
    ensures
        spec_parse_number(s, i) == Some((s.subrange(i, j), j)),
{
    assert(is_digit(s[i]));
    assert(s[i] != '-');
    if s[i] == '0' {
        assert(m == i + 1);
    } else {
        lemma_digit_run(s, i, m);
    }
    if m < j {
        lemma_digit_run(s, m + 1, j);
    }
}

/// The index past one JSON value starting at `i`, whatever its kind.
///
/// `fuel` bounds the nesting the walk may enter; the entry point hands it
/// the input length, which no well-formed value can exhaust.
pub open spec fn spec_skip_value(s: Seq<char>, i: int, fuel: nat) -> Option<int>
    decreases fuel,
{
    if fuel == 0 || !(0 <= i < s.len()) {
        None
    } else {
        let c = s[i];
        if c == '"' {
            match spec_parse_string_body(s, i + 1) {
                Some((t, j)) => Some(j),
                None => None,
            }
        } else if c == '-' || is_digit(c) {
            match spec_parse_number(s, i) {
                Some((t, j)) => Some(j),
                None => None,
            }
        } else if c == 't' {
            if i + 4 <= s.len() && s[i + 1] == 'r' && s[i + 2] == 'u' && s[i + 3] == 'e' {
                Some(i + 4)
            } else {
                None
            }
        } else if c == 'f' {
            if i + 5 <= s.len() && s[i + 1] == 'a' && s[i + 2] == 'l' && s[i + 3] == 's' && s[i + 4]
                == 'e' {
                Some(i + 5)
            } else {
                None
            }
        } else if c == 'n' {
            if i + 4 <= s.len() && s[i + 1] == 'u' && s[i + 2] == 'l' && s[i + 3] == 'l' {
                Some(i + 4)
            } else {
                None
            }
        } else if c == '[' {
            let j = spec_skip_ws(s, i + 1);
            if j < s.len() && s[j] == ']' {
                Some(j + 1)
            } else {
                spec_skip_array_items(s, j, (fuel - 1) as nat)
            }
        } else if c == '{' {
            let j = spec_skip_ws(s, i + 1);
            if j < s.len() && s[j] == '}' {
                Some(j + 1)
            } else {
                spec_skip_object_members(s, j, (fuel - 1) as nat)
            }
        } else {
            None
        }
    }
}

/// The index past the remaining items of an array, expecting an item at `i`.
pub open spec fn spec_skip_array_items(s: Seq<char>, i: int, fuel: nat) -> Option<int>
    decreases fuel,
{
    if fuel == 0 {
        None
    } else {
        match spec_skip_value(s, i, (fuel - 1) as nat) {
            None => None,
            Some(v) => if !(0 <= v <= s.len()) {
                None
            } else {
                let j = spec_skip_ws(s, v);
                if j < s.len() && s[j] == ',' {
                    spec_skip_array_items(s, spec_skip_ws(s, j + 1), (fuel - 1) as nat)
                } else if j < s.len() && s[j] == ']' {
                    Some(j + 1)
                } else {
                    None
                }
            },
        }
    }
}

/// The index past the remaining members of an object, expecting a member
/// at `i`.
pub open spec fn spec_skip_object_members(s: Seq<char>, i: int, fuel: nat) -> Option<int>
    decreases fuel,
{
    if fuel == 0 || !(0 <= i < s.len()) {
        None
    } else if s[i] != '"' {
        None
    } else {
        match spec_parse_string_body(s, i + 1) {
            None => None,
            Some((k, j)) => if !(0 <= j <= s.len()) {
                None
            } else {
                let j1 = spec_skip_ws(s, j);
                if j1 < s.len() && s[j1] == ':' {
                    let j2 = spec_skip_ws(s, j1 + 1);
                    match spec_skip_value(s, j2, (fuel - 1) as nat) {
                        None => None,
                        Some(v) => if !(0 <= v <= s.len()) {
                            None
                        } else {
                            let j3 = spec_skip_ws(s, v);
                            if j3 < s.len() && s[j3] == ',' {
                                spec_skip_object_members(
                                    s,
                                    spec_skip_ws(s, j3 + 1),
                                    (fuel - 1) as nat,
                                )
                            } else if j3 < s.len() && s[j3] == '}' {
                                Some(j3 + 1)
                            } else {
                                None
                            }
                        },
                    }
                } else {
                    None
                }
            },
        }
    }
}

fn skip_value(s: &Vec<char>, i: usize, fuel: usize) -> (r: Option<usize>)
    requires
        i <= s.len(),
    ensures
        match (r, spec_skip_value(s@, i as int, fuel as nat)) {
            (Some(v), Some(sv)) => v as int == sv && i < v <= s.len(),
            (None, None) => true,
            _ => false,
        },
    decreases fuel,
{
    if fuel == 0 || i >= s.len() {
        return None;
    }
    let c = s[i];
    if c == '"' {
        match parse_string_body(s, i + 1) {
            Some((t, j)) => Some(j),
            None => None,
        }
    } else if c == '-' || (48 <= c as u32 && c as u32 <= 57) {
        match parse_number(s, i) {
            Some(j) => Some(j),
            None => None,
        }
    } else if c == 't' {
        if s.len() - i >= 4 && s[i + 1] == 'r' && s[i + 2] == 'u' && s[i + 3] == 'e' {
            Some(i + 4)
        } else {
            None
        }
    } else if c == 'f' {
        if s.len() - i >= 5 && s[i + 1] == 'a' && s[i + 2] == 'l' && s[i + 3] == 's' && s[i + 4]
            == 'e' {
            Some(i + 5)
        } else {
            None
        }
    } else if c == 'n' {
        if s.len() - i >= 4 && s[i + 1] == 'u' && s[i + 2] == 'l' && s[i + 3] == 'l' {
            Some(i + 4)
        } else {
            None
        }
    } else if c == '[' {
        let j = skip_ws(s, i + 1);
        if j < s.len() && s[j] == ']' {
            Some(j + 1)
        } else {
            skip_array_items(s, j, fuel - 1)
        }
    } else if c == '{' {
        let j = skip_ws(s, i + 1);
        if j < s.len() && s[j] == '}' {
            Some(j + 1)
        } else {
            skip_object_members(s, j, fuel - 1)
        }
    } else {
        None
    }
}

fn skip_array_items(s: &Vec<char>, i: usize, fuel: usize) -> (r: Option<usize>)
    requires
        i <= s.len(),
    ensures
        match (r, spec_skip_array_items(s@, i as int, fuel as nat)) {
            (Some(v), Some(sv)) => v as int == sv && i < v <= s.len(),
            (None, None) => true,
            _ => false,
        },
    decreases fuel,
{
    if fuel == 0 {
        return None;
    }
    match skip_value(s, i, fuel - 1) {
        None => None,
        Some(v) => {
            let j = skip_ws(s, v);
            if j < s.len() && s[j] == ',' {
                skip_array_items(s, skip_ws(s, j + 1), fuel - 1)
            } else if j < s.len() && s[j] == ']' {
                Some(j + 1)
            } else {
                None
            }
        },
    }
}

fn skip_object_members(s: &Vec<char>, i: usize, fuel: usize) -> (r: Option<usize>)
    requires
        i <= s.len(),
    ensures
        match (r, spec_skip_object_members(s@, i as int, fuel as nat)) {
            (Some(v), Some(sv)) => v as int == sv && i < v <= s.len(),
            (None, None) => true,
            _ => false,
        },
    decreases fuel,
{
    if fuel == 0 || i >= s.len() {
        return None;
    }
    if s[i] != '"' {
        return None;
    }
    match parse_string_body(s, i + 1) {
        None => None,
        Some((k, j)) => {
            let j1 = skip_ws(s, j);
            if j1 < s.len() && s[j1] == ':' {
                let j2 = skip_ws(s, j1 + 1);
                match skip_value(s, j2, fuel - 1) {
                    None => None,
                    Some(v) => {
                        let j3 = skip_ws(s, v);
                        if j3 < s.len() && s[j3] == ',' {
                            skip_object_members(s, skip_ws(s, j3 + 1), fuel - 1)
                        } else if j3 < s.len() && s[j3] == '}' {
                            Some(j3 + 1)
                        } else {
                            None
                        }
                    },
                }
            } else {
                None
            }
        },
    }
}

/// The fields gathered so far while reading one object, each at most once.
pub ghost struct PartialModel {
    pub id: Option<u32>,
    pub name: Option<Seq<char>>,
    pub model: Option<Seq<char>>,
    pub avg_data_rate: Option<Seq<char>>,
    pub data_per_hour: Option<Seq<char>>,
    pub namespace_url: Option<Seq<char>>,
    pub description: Option<Seq<char>>,
    pub protocol: Option<Seq<char>>,
}

/// No field seen yet.
pub open spec fn spec_empty_partial() -> PartialModel {
    PartialModel {
        id: None,
        name: None,
        model: None,
        avg_data_rate: None,
        data_per_hour: None,
        namespace_url: None,
        description: None,
        protocol: None,
    }
}

/// A record is complete when every field was seen.
pub open spec fn spec_complete(p: PartialModel) -> Option<DeviceModel> {
    if p.id is Some && p.name is Some && p.model is Some && p.avg_data_rate is Some
        && p.data_per_hour is Some && p.namespace_url is Some && p.description is Some
        && p.protocol is Some {
        Some(
            DeviceModel {
                id: p.id->0,
                name: p.name->0,
                model: p.model->0,
                avg_data_rate: p.avg_data_rate->0,
                data_per_hour: p.data_per_hour->0,
                namespace_url: p.namespace_url->0,
                description: p.description->0,
                protocol: p.protocol->0,
            },
        )
    } else {
        None
    }
}

/// A JSON string starting at `i` (opening quote included).
pub open spec fn spec_parse_string(s: Seq<char>, i: int) -> Option<(Seq<char>, int)> {
    if 0 <= i < s.len() && s[i] == '"' {
        spec_parse_string_body(s, i + 1)
    } else {
        None
    }
}

/// One member's value at `i`, dispatched on the member's name: a known
/// field is read with its required type and recorded (a second occurrence
/// is refused), an unknown field is read and dropped.
pub open spec fn spec_member_value(
    s: Seq<char>,
    i: int,
    key: Seq<char>,
    p: PartialModel,
    fuel: nat,
) -> Option<(PartialModel, int)> {
    if key == "id"@ {
        if p.id is Some {
            None
        } else {
            match spec_parse_number(s, i) {
                Some((tok, j)) => match spec_u32_of_token(tok) {
                    Some(v) => Some((PartialModel { id: Some(v), ..p }, j)),
                    None => None,
                },
                None => None,
            }
        }
    } else if key == "name"@ {
        if p.name is Some {
            None
        } else {
            match spec_parse_string(s, i) {
                Some((t, j)) => Some((PartialModel { name: Some(t), ..p }, j)),
                None => None,
            }
        }
    } else if key == "model"@ {
        if p.model is Some {
            None
        } else {
            match spec_parse_string(s, i) {
                Some((t, j)) => Some((PartialModel { model: Some(t), ..p }, j)),
                None => None,
            }
        }
    } else if key == "avg_data_rate"@ {
        if p.avg_data_rate is Some {
            None
        } else {
            match spec_parse_number(s, i) {
                Some((tok, j)) => Some((PartialModel { avg_data_rate: Some(tok), ..p }, j)),
                None => None,
            }
        }
    } else if key == "data_per_hour"@ {
        if p.data_per_hour is Some {
            None
        } else {
            match spec_parse_number(s, i) {
                Some((tok, j)) => Some((PartialModel { data_per_hour: Some(tok), ..p }, j)),
                None => None,
            }
        }
    } else if key == "namespace_url"@ {
        if p.namespace_url is Some {
            None
        } else {
            match spec_parse_string(s, i) {
                Some((t, j)) => Some((PartialModel { namespace_url: Some(t), ..p }, j)),
                None => None,
            }
        }
    } else if key == "description"@ {
        if p.description is Some {
            None
        } else {
            match spec_parse_string(s, i) {
                Some((t, j)) => Some((PartialModel { description: Some(t), ..p }, j)),
                None => None,
            }
        }
    } else if key == "protocol"@ {
        if p.protocol is Some {
            None
        } else {
            match spec_parse_string(s, i) {
                Some((t, j)) => Some((PartialModel { protocol: Some(t), ..p }, j)),
                None => None,
            }
        }
    } else {
        match spec_skip_value(s, i, fuel) {
            Some(j) => Some((p, j)),
            None => None,
        }
    }
}

/// The members of a device object from `i` on (a member is expected there),
/// up to and past the closing brace.
pub open spec fn spec_parse_members(
    s: Seq<char>,
    i: int,
    p: PartialModel,
    fuel: nat,
) -> Option<(DeviceModel, int)>
    decreases fuel,
{
    if fuel == 0 || !(0 <= i < s.len()) {
        None
    } else if s[i] != '"' {
        None
    } else {
        match spec_parse_string_body(s, i + 1) {
            None => None,
            Some((key, j)) => if !(0 <= j <= s.len()) {
                None
            } else {
                let j1 = spec_skip_ws(s, j);
                if j1 < s.len() && s[j1] == ':' {
                    let j2 = spec_skip_ws(s, j1 + 1);
                    match spec_member_value(s, j2, key, p, fuel) {
                        None => None,
                        Some((p2, j3)) => if !(0 <= j3 <= s.len()) {
                            None
                        } else {
                            let j4 = spec_skip_ws(s, j3);
                            if j4 < s.len() && s[j4] == ',' {
                                spec_parse_members(
                                    s,
                                    spec_skip_ws(s, j4 + 1),
                                    p2,
                                    (fuel - 1) as nat,
                                )
                            } else if j4 < s.len() && s[j4] == '}' {
                                match spec_complete(p2) {
                                    Some(d) => Some((d, j4 + 1)),
                                    None => None,
                                }
                            } else {
                                None
                            }
                        },
                    }
                } else {
                    None
                }
            },
        }
    }
}

/// One device object starting at `i`. An object without all required
/// fields — in particular an empty one — denotes no device.
pub open spec fn spec_parse_device(s: Seq<char>, i: int, fuel: nat) -> Option<(DeviceModel, int)> {
    if 0 <= i < s.len() && s[i] == '{' {
        let j = spec_skip_ws(s, i + 1);
        if j < s.len() && s[j] == '}' {
            None
        } else {
            spec_parse_members(s, j, spec_empty_partial(), fuel)
        }
    } else {
        None
    }
}

/// The items of the top-level array from `i` on (an item is expected
/// there), up to and past the closing bracket, in the order written.
pub open spec fn spec_parse_items(s: Seq<char>, i: int, fuel: nat) -> Option<
    (Seq<DeviceModel>, int),
>
    decreases fuel,
{
    if fuel == 0 {
        None
    } else {
        match spec_parse_device(s, i, fuel) {
            None => None,
            Some((d, j)) => if !(0 <= j <= s.len()) {
                None
            } else {
                let j1 = spec_skip_ws(s, j);
                if j1 < s.len() && s[j1] == ',' {
                    match spec_parse_items(s, spec_skip_ws(s, j1 + 1), (fuel - 1) as nat) {
                        Some((ds, e)) => Some((seq![d] + ds, e)),
                        None => None,
                    }
                } else if j1 < s.len() && s[j1] == ']' {
                    Some((seq![d], j1 + 1))
                } else {
                    None
                }
            },
        }
    }
}

/// What a whole response body denotes: the device records of a JSON array
/// of device objects, in the array's order — or nothing, when the body is
/// not exactly such an array (with nothing but whitespace around it).
pub open spec fn spec_parse_devices(s: Seq<char>) -> Option<Seq<DeviceModel>> {
    let i = spec_skip_ws(s, 0);
    if i < s.len() && s[i] == '[' {
        let j = spec_skip_ws(s, i + 1);
        if j < s.len() && s[j] == ']' {
            if spec_skip_ws(s, j + 1) == s.len() {
                Some(Seq::empty())
            } else {
                None
            }
        } else {
            match spec_parse_items(s, j, s.len()) {
                Some((ds, e)) => if 0 <= e <= s.len() && spec_skip_ws(s, e) == s.len() {
                    Some(ds)
                } else {
                    None
                },
                None => None,
            }
        }
    } else {
        None
    }
}

/// The executable mirror of [`PartialModel`].
pub struct PartialFields {
    pub id: Option<u32>,
    pub name: Option<String>,
    pub model: Option<String>,
    pub avg_data_rate: Option<String>,
    pub data_per_hour: Option<String>,
    pub namespace_url: Option<String>,
    pub description: Option<String>,
    pub protocol: Option<String>,
}

/// The view of an optional string.
pub open spec fn opt_view(o: Option<String>) -> Option<Seq<char>> {
    match o {
        Some(s) => Some(s@),
        None => None,
    }
}

impl View for PartialFields {
    type V = PartialModel;

    open spec fn view(&self) -> PartialModel {
        PartialModel {
            id: self.id,
            name: opt_view(self.name),
            model: opt_view(self.model),
            avg_data_rate: opt_view(self.avg_data_rate),
            data_per_hour: opt_view(self.data_per_hour),
            namespace_url: opt_view(self.namespace_url),
            description: opt_view(self.description),
            protocol: opt_view(self.protocol),
        }
    }
}

fn empty_partial() -> (p: PartialFields)
    ensures
        p@ == spec_empty_partial(),
{
    PartialFields {
        id: None,
        name: None,
        model: None,
        avg_data_rate: None,
        data_per_hour: None,
        namespace_url: None,
        description: None,
        protocol: None,
    }
}

fn complete(p: PartialFields) -> (r: Option<SmartDevice>)
    ensures
        match (r, spec_complete(p@)) {
            (Some(d), Some(sd)) => d@ == sd,
            (None, None) => true,
            _ => false,
        },
{
    match (p.id, p.name, p.model, p.avg_data_rate, p.data_per_hour, p.namespace_url, p.description,
    p.protocol) {
        (
            Some(id),
            Some(name),
            Some(model),
            Some(avg_data_rate),
            Some(data_per_hour),
            Some(namespace_url),
            Some(description),
            Some(protocol),
        ) => Some(
            SmartDevice {
                id,
                name,
                model,
                avg_data_rate,
                data_per_hour,
                namespace_url,
                description,
                protocol,
            },
        ),
        _ => None,
    }
}

fn parse_string(s: &Vec<char>, i: usize) -> (r: Option<(String, usize)>)
    requires
        i <= s.len(),
    ensures
        str_res_view(r) == spec_parse_string(s@, i as int),
        r matches Some((t, j)) ==> i < j <= s.len(),
{
    if i < s.len() && s[i] == '"' {
        parse_string_body(s, i + 1)
    } else {
        None
    }
}

/// The model of an executable member-value result.
pub open spec fn member_res_view(r: Option<(PartialFields, usize)>) -> Option<
    (PartialModel, int),
> {
    match r {
        Some((p, j)) => Some((p@, j as int)),
        None => None,
    }
}

fn member_value(s: &Vec<char>, i: usize, key: &String, p: PartialFields, fuel: usize) -> (r: Option<
    (PartialFields, usize),
>)
    requires
        i <= s.len(),
    ensures
        member_res_view(r) == spec_member_value(s@, i as int, key@, p@, fuel as nat),
        r matches Some((p2, j)) ==> i < j <= s.len(),
{
    if *key == String::from_str("id") {
        if p.id.is_some() {
            return None;
        }
        match parse_number(s, i) {
            Some(end) => match u32_of_range(s, i, end) {
                Some(v) => Some((PartialFields { id: Some(v), ..p }, end)),
                None => None,
            },
            None => None,
        }
    } else if *key == String::from_str("name") {
        if p.name.is_some() {
            return None;
        }
        match parse_string(s, i) {
            Some((t, j)) => Some((PartialFields { name: Some(t), ..p }, j)),
            None => None,
        }
    } else if *key == String::from_str("model") {
        if p.model.is_some() {
            return None;
        }
        match parse_string(s, i) {
            Some((t, j)) => Some((PartialFields { model: Some(t), ..p }, j)),
            None => None,
        }
    } else if *key == String::from_str("avg_data_rate") {
        if p.avg_data_rate.is_some() {
            return None;
        }
        match parse_number(s, i) {
            Some(end) => Some((PartialFields { avg_data_rate: Some(string_of_range(s, i, end)), ..p }, end)),
            None => None,
        }
    } else if *key == String::from_str("data_per_hour") {
        if p.data_per_hour.is_some() {
            return None;
        }
        match parse_number(s, i) {
            Some(end) => Some((PartialFields { data_per_hour: Some(string_of_range(s, i, end)), ..p }, end)),
            None => None,
        }
    } else if *key == String::from_str("namespace_url") {
        if p.namespace_url.is_some() {
            return None;
        }
        match parse_string(s, i) {
            Some((t, j)) => Some((PartialFields { namespace_url: Some(t), ..p }, j)),
            None => None,
        }
    } else if *key == String::from_str("description") {
        if p.description.is_some() {
            return None;
        }
        match parse_string(s, i) {
            Some((t, j)) => Some((PartialFields { description: Some(t), ..p }, j)),
            None => None,
        }
    } else if *key == String::from_str("protocol") {
        if p.protocol.is_some() {
            return None;
        }
        match parse_string(s, i) {
            Some((t, j)) => Some((PartialFields { protocol: Some(t), ..p }, j)),
            None => None,
        }
    } else {
        match skip_value(s, i, fuel) {
            Some(j) => Some((p, j)),
            None => None,
        }
    }
}

/// The model of an executable device-parse result.
pub open spec fn device_res_view(r: Option<(SmartDevice, usize)>) -> Option<(DeviceModel, int)> {
    match r {
        Some((d, j)) => Some((d@, j as int)),
        None => None,
    }
}

fn parse_members(s: &Vec<char>, i: usize, p: PartialFields, fuel: usize) -> (r: Option<
    (SmartDevice, usize),
>)
    requires
        i <= s.len(),
    ensures
        device_res_view(r) == spec_parse_members(s@, i as int, p@, fuel as nat),
        r matches Some((d, j)) ==> i < j <= s.len(),
    decreases fuel,
{
    if fuel == 0 || i >= s.len() {
        return None;
    }
    if s[i] != '"' {
        return None;
    }
    match parse_string_body(s, i + 1) {
        None => None,
        Some((key, j)) => {
            let j1 = skip_ws(s, j);
            if j1 < s.len() && s[j1] == ':' {
                let j2 = skip_ws(s, j1 + 1);
                match member_value(s, j2, &key, p, fuel) {
                    None => None,
                    Some((p2, j3)) => {
                        let j4 = skip_ws(s, j3);
                        if j4 < s.len() && s[j4] == ',' {
                            parse_members(s, skip_ws(s, j4 + 1), p2, fuel - 1)
                        } else if j4 < s.len() && s[j4] == '}' {
                            match complete(p2) {
                                Some(d) => Some((d, j4 + 1)),
                                None => None,
                            }
                        } else {
                            None
                        }
                    },
                }
            } else {
                None
            }
        },
    }
}

fn parse_device(s: &Vec<char>, i: usize, fuel: usize) -> (r: Option<(SmartDevice, usize)>)
    requires
        i <= s.len(),
    ensures
        device_res_view(r) == spec_parse_device(s@, i as int, fuel as nat),
        r matches Some((d, j)) ==> i < j <= s.len(),
{
    if i < s.len() && s[i] == '{' {
        let j = skip_ws(s, i + 1);
        if j < s.len() && s[j] == '}' {
            None
        } else {
            parse_members(s, j, empty_partial(), fuel)
        }
    } else {
        None
    }
}

/// The model of an executable items-parse result.
pub open spec fn items_res_view(r: Option<(Vec<SmartDevice>, usize)>) -> Option<
    (Seq<DeviceModel>, int),
> {
    match r {
        Some((ds, j)) => Some((ds@.map_values(|d: SmartDevice| d@), j as int)),
        None => None,
    }
}

fn parse_items(s: &Vec<char>, i: usize, fuel: usize) -> (r: Option<(Vec<SmartDevice>, usize)>)
    requires
        i <= s.len(),
    ensures
        items_res_view(r) == spec_parse_items(s@, i as int, fuel as nat),
        r matches Some((ds, j)) ==> i < j <= s.len(),
    decreases fuel,
{
    if fuel == 0 {
        return None;
    }
    match parse_device(s, i, fuel) {
        None => None,
        Some((d, j)) => {
            let j1 = skip_ws(s, j);
            if j1 < s.len() && s[j1] == ',' {
                match parse_items(s, skip_ws(s, j1 + 1), fuel - 1) {
                    Some((ds, e)) => {
                        let ghost rest0 = ds@;
                        let mut out = ds;
                        out.insert(0, d);
                        proof {
                            assert(out@ =~= seq![d] + rest0);
                            assert(out@.map_values(|x: SmartDevice| x@) =~= seq![d@]
                                + rest0.map_values(|x: SmartDevice| x@));
                        }
                        Some((out, e))
                    },
                    None => None,
                }
            } else if j1 < s.len() && s[j1] == ']' {
                let mut out: Vec<SmartDevice> = Vec::new();
                out.push(d);
                proof {
                    assert(out@.map_values(|x: SmartDevice| x@) =~= seq![d@]);
                }
                Some((out, j1 + 1))
            } else {
                None
            }
        },
    }
}

/// Decodes a whole response body.
pub fn parse_devices(s: &Vec<char>) -> (r: Option<Vec<SmartDevice>>)
    ensures
        match (r, spec_parse_devices(s@)) {
            (Some(ds), Some(sds)) => ds@.map_values(|d: SmartDevice| d@) == sds,
            (None, None) => true,
            _ => false,
        },
{
    let i = skip_ws(s, 0);
    if i < s.len() && s[i] == '[' {
        let j = skip_ws(s, i + 1);
        if j < s.len() && s[j] == ']' {
            if skip_ws(s, j + 1) == s.len() {
                let out: Vec<SmartDevice> = Vec::new();
                proof {
                    assert(out@.map_values(|d: SmartDevice| d@) =~= Seq::<DeviceModel>::empty());
                }
                Some(out)
            } else {
                None
            }
        } else {
            match parse_items(s, j, s.len()) {
                Some((ds, e)) => {
                    if skip_ws(s, e) == s.len() {
                        Some(ds)
                    } else {
                        None
                    }
                },
                None => None,
            }
        }
    } else {
        None
    }
}

} // verus!

//! A JSON parser over bytes.
//!
//! [`parse_json`] turns a UTF-8 body into a [`Json`] document and is pinned
//! to the specification-level parser [`spec_parse`]: the executable code
//! returns exactly what the specification functions compute, so every fact
//! proved about `spec_parse` holds of the runtime behaviour.
//!
//! The grammar is standard JSON without extensions: numbers reject leading
//! zeros, strings require the escapes of the grammar (including `\uXXXX`
//! with surrogate pairs), and only space, tab, carriage return and line
//! feed count as whitespace. Integers in `i64` range become [`Json::Int`];
//! any other number keeps its raw lexeme as [`Json::Num`].

use vstd::prelude::*;

use crate::json::Json;
use crate::json::JsonV;
use crate::json::jv;
use crate::json::jv_list;
use crate::json::jv_members;

verus! {

/// Whether `b` is JSON whitespace.
pub open spec fn is_ws(b: u8) -> bool {
    b == 0x20 || b == 0x09 || b == 0x0a || b == 0x0d
}

/// The first index at or after `i` that does not hold whitespace.
pub open spec fn spec_ws(s: Seq<u8>, i: int) -> int
    decreases s.len() - i,
{
    if 0 <= i < s.len() && is_ws(s[i]) {
        spec_ws(s, i + 1)
    } else {
        i
    }
}

/// Whether `b` is a decimal digit byte.
pub open spec fn is_digit(b: u8) -> bool {
    0x30 <= b <= 0x39
}

/// The first index at or after `i` that does not hold a digit.
pub open spec fn spec_digits_end(s: Seq<u8>, i: int) -> int
    decreases s.len() - i,
{
    if 0 <= i < s.len() && is_digit(s[i]) {
        spec_digits_end(s, i + 1)
    } else {
        i
    }
}

/// The value of the digit run `s[from..to]`, most significant digit first.
pub open spec fn spec_digits_val(s: Seq<u8>, from: int, to: int) -> nat
    decreases to - from,
{
    if to <= from {
        0
    } else {
        spec_digits_val(s, from, to - 1) * 10 + (s[to - 1] - 0x30) as nat
    }
}

/// Ten to the power `n`.
pub open spec fn pow10(n: nat) -> nat
    decreases n,
{
    if n == 0 {
        1
    } else {
        10 * pow10((n - 1) as nat)
    }
}

/// A digit run is bounded by ten to its length.
proof fn lemma_digits_val_upper(s: Seq<u8>, from: int, to: int)
    requires
        from <= to,
        forall|k: int| from <= k < to ==> is_digit(s[k]),
    ensures
        spec_digits_val(s, from, to) < pow10((to - from) as nat),
    decreases to - from,
{
    if to > from {
        lemma_digits_val_upper(s, from, to - 1);
    }
}

/// A digit run that starts with a nonzero digit reaches ten to one less
/// than its length.
proof fn lemma_digits_val_lower(s: Seq<u8>, from: int, to: int)
    requires
        from < to,
        forall|k: int| from <= k < to ==> is_digit(s[k]),
        s[from] != 0x30,
    ensures
        spec_digits_val(s, from, to) >= pow10((to - from - 1) as nat),
    decreases to - from,
{
    if to == from + 1 {
    } else {
        lemma_digits_val_lower(s, from, to - 1);
    }
}

/// The value of a hexadecimal digit byte, if it is one.
pub open spec fn spec_hexval(b: u8) -> Option<u32> {
    if 0x30 <= b <= 0x39 {
        Some((b - 0x30) as u32)
    } else if 0x61 <= b <= 0x66 {
        Some((b - 0x57) as u32)
    } else if 0x41 <= b <= 0x46 {
        Some((b - 0x37) as u32)
    } else {
        None
    }
}

/// The value of the four hexadecimal digits at `i`, if they are there.
pub open spec fn spec_hex4(s: Seq<u8>, i: int) -> Option<u32> {
    if 0 <= i && i + 4 <= s.len() && spec_hexval(s[i]) is Some && spec_hexval(s[i + 1]) is Some
        && spec_hexval(s[i + 2]) is Some && spec_hexval(s[i + 3]) is Some {
        Some(
            (spec_hexval(s[i])->0 * 0x1000 + spec_hexval(s[i + 1])->0 * 0x100 + spec_hexval(
                s[i + 2],
            )->0 * 0x10 + spec_hexval(s[i + 3])->0) as u32,
        )
    } else {
        None
    }
}

/// The UTF-8 encoding of the scalar value `cp`, which callers keep at or
/// below 0x10FFFF.
pub open spec fn utf8_enc(cp: u32) -> Seq<u8> {
    if cp < 0x80 {
        seq![cp as u8]
    } else if cp < 0x800 {
        seq![(0xc0 + cp / 0x40) as u8, (0x80 + cp % 0x40) as u8]
    } else if cp < 0x10000 {
        seq![
            (0xe0 + cp / 0x1000) as u8,
            (0x80 + (cp / 0x40) % 0x40) as u8,
            (0x80 + cp % 0x40) as u8,
        ]
    } else {
        seq![
            (0xf0 + cp / 0x40000) as u8,
            (0x80 + (cp / 0x1000) % 0x40) as u8,
            (0x80 + (cp / 0x40) % 0x40) as u8,
            (0x80 + cp % 0x40) as u8,
        ]
    }
}

/// Scans string content from `i` (just after the opening quote or the last
/// content byte) with the content read so far in `acc`; yields the full
/// content and the index just past the closing quote.
pub open spec fn spec_scan_string(s: Seq<u8>, i: int, acc: Seq<u8>) -> Option<(Seq<u8>, int)>
    decreases s.len() - i,
{
    if i < 0 || i >= s.len() {
        None
    } else if s[i] == 0x22 {
        Some((acc, i + 1))
    } else if s[i] == 0x5c {
        if i + 1 >= s.len() {
            None
        } else {
            let e = s[i + 1];
            if e == 0x22 {
                spec_scan_string(s, i + 2, acc.push(0x22))
            } else if e == 0x5c {
                spec_scan_string(s, i + 2, acc.push(0x5c))
            } else if e == 0x2f {
                spec_scan_string(s, i + 2, acc.push(0x2f))
            } else if e == 0x62 {
                spec_scan_string(s, i + 2, acc.push(0x08))
            } else if e == 0x66 {
                spec_scan_string(s, i + 2, acc.push(0x0c))
            } else if e == 0x6e {
                spec_scan_string(s, i + 2, acc.push(0x0a))
            } else if e == 0x72 {
                spec_scan_string(s, i + 2, acc.push(0x0d))
            } else if e == 0x74 {
                spec_scan_string(s, i + 2, acc.push(0x09))
            } else if e == 0x75 {
                match spec_hex4(s, i + 2) {
                    None => None,
                    Some(cp) => {
                        if 0xd800 <= cp < 0xdc00 {
                            if i + 8 <= s.len() && s[i + 6] == 0x5c && s[i + 7] == 0x75 {
                                match spec_hex4(s, i + 8) {
                                    None => None,
                                    Some(lo) => {
                                        if 0xdc00 <= lo < 0xe000 {
                                            spec_scan_string(
                                                s,
                                                i + 12,
                                                acc + utf8_enc(
                                                    (0x10000 + (cp - 0xd800) * 0x400 + (lo
                                                        - 0xdc00)) as u32,
                                                ),
                                            )
                                        } else {
                                            None
                                        }
                                    },
                                }
                            } else {
                                None
                            }
                        } else if 0xdc00 <= cp < 0xe000 {
                            None
                        } else {
                            spec_scan_string(s, i + 6, acc + utf8_enc(cp))
                        }
                    },
                }
            } else {
                None
            }
        }
    } else if s[i] < 0x20 {
        None
    } else {
        spec_scan_string(s, i + 1, acc.push(s[i]))
    }
}

/// Parses the number that starts at `i`; yields the document value and the
/// index just past the lexeme.
pub open spec fn spec_number(s: Seq<u8>, i: int) -> Option<(JsonV, int)> {
    if i < 0 || i >= s.len() {
        None
    } else {
        let d0 = if s[i] == 0x2d {
            i + 1
        } else {
            i
        };
        if d0 >= s.len() || !is_digit(s[d0]) {
            None
        } else {
            let e1 = spec_digits_end(s, d0);
            if s[d0] == 0x30 && e1 > d0 + 1 {
                None
            } else {
                let e2 = if e1 < s.len() && s[e1] == 0x2e {
                    spec_digits_end(s, e1 + 1)
                } else {
                    e1
                };
                if e2 != e1 && e2 == e1 + 1 {
                    None
                } else {
                    let e3 = spec_exp_end(s, e2);
                    if e3 < 0 {
                        None
                    } else if e3 == e1 {
                        let v = spec_digits_val(s, d0, e1);
                        if v > i64::MAX {
                            Some((JsonV::Num(s.subrange(i, e1)), e1))
                        } else if s[i] == 0x2d {
                            Some((JsonV::Int(-(v as int)), e1))
                        } else {
                            Some((JsonV::Int(v as int), e1))
                        }
                    } else {
                        Some((JsonV::Num(s.subrange(i, e3)), e3))
                    }
                }
            }
        }
    }
}

/// The end of an optional exponent part starting at `i`, or -1 when an
/// exponent marker is present but malformed.
pub open spec fn spec_exp_end(s: Seq<u8>, i: int) -> int {
    if 0 <= i < s.len() && (s[i] == 0x65 || s[i] == 0x45) {
        let d = if i + 1 < s.len() && (s[i + 1] == 0x2b || s[i + 1] == 0x2d) {
            i + 2
        } else {
            i + 1
        };
        let e = spec_digits_end(s, d);
        if e == d {
            -1
        } else {
            e
        }
    } else {
        i
    }
}

/// Parses the value whose first significant byte stands at `i`; yields the
/// document value and the index just past it.
pub open spec fn spec_value(s: Seq<u8>, i: int) -> Option<(JsonV, int)>
    decreases (if i <= s.len() { s.len() - i } else { 0 }), 0int,
{
    if i < 0 || i >= s.len() {
        None
    } else {
        let b = s[i];
        if b == 0x6e {
            if i + 4 <= s.len() && s[i + 1] == 0x75 && s[i + 2] == 0x6c && s[i + 3] == 0x6c {
                Some((JsonV::Null, i + 4))
            } else {
                None
            }
        } else if b == 0x74 {
            if i + 4 <= s.len() && s[i + 1] == 0x72 && s[i + 2] == 0x75 && s[i + 3] == 0x65 {
                Some((JsonV::Bool(true), i + 4))
            } else {
                None
            }
        } else if b == 0x66 {
            if i + 5 <= s.len() && s[i + 1] == 0x61 && s[i + 2] == 0x6c && s[i + 3] == 0x73 && s[i
                + 4] == 0x65 {
                Some((JsonV::Bool(false), i + 5))
            } else {
                None
            }
        } else if b == 0x22 {
            match spec_scan_string(s, i + 1, Seq::empty()) {
                None => None,
                Some((c, j)) => Some((JsonV::Str(c), j)),
            }
        } else if b == 0x2d || is_digit(b) {
            spec_number(s, i)
        } else if b == 0x5b {
            let j = spec_ws(s, i + 1);
            if j < s.len() && s[j] == 0x5d {
                Some((JsonV::Arr(Seq::empty()), j + 1))
            } else {
                spec_elements(s, i + 1, Seq::empty())
            }
        } else if b == 0x7b {
            let j = spec_ws(s, i + 1);
            if j < s.len() && s[j] == 0x7d {
                Some((JsonV::Obj(Seq::empty()), j + 1))
            } else {
                spec_members(s, i + 1, Seq::empty())
            }
        } else {
            None
        }
    }
}

/// Parses the elements of an array from `i` on (just after `[` or a comma),
/// with the elements read so far in `acc`.
pub open spec fn spec_elements(s: Seq<u8>, i: int, acc: Seq<JsonV>) -> Option<(JsonV, int)>
    decreases (if i <= s.len() { s.len() - i } else { 0 }), 1int,
{
    if i < 0 || i >= s.len() {
        None
    } else {
        let j0 = spec_ws(s, i);
        let j = if j0 > i {
            j0
        } else {
            i
        };
        match spec_value(s, j) {
            None => None,
            Some((v, k)) => {
                let m = spec_ws(s, k);
                if 0 <= m < s.len() {
                    if s[m] == 0x2c {
                        let next = if m + 1 > i + 1 {
                            m + 1
                        } else {
                            i + 1
                        };
                        spec_elements(s, next, acc.push(v))
                    } else if s[m] == 0x5d {
                        Some((JsonV::Arr(acc.push(v)), m + 1))
                    } else {
                        None
                    }
                } else {
                    None
                }
            },
        }
    }
}

/// Parses the members of an object from `i` on (just after `{` or a comma),
/// with the members read so far in `acc`.
pub open spec fn spec_members(s: Seq<u8>, i: int, acc: Seq<(Seq<u8>, JsonV)>) -> Option<
    (JsonV, int),
>
    decreases (if i <= s.len() { s.len() - i } else { 0 }), 1int,
{
    if i < 0 || i >= s.len() {
        None
    } else {
        let j0 = spec_ws(s, i);
        let j = if j0 > i {
            j0
        } else {
            i
        };
        if j < s.len() && s[j] == 0x22 {
            match spec_scan_string(s, j + 1, Seq::empty()) {
                None => None,
                Some((key, k)) => {
                    let c = spec_ws(s, k);
                    if 0 <= c < s.len() && s[c] == 0x3a {
                        let w0 = spec_ws(s, c + 1);
                        let w = if w0 > i + 1 {
                            w0
                        } else {
                            i + 1
                        };
                        match spec_value(s, w) {
                            None => None,
                            Some((v, p)) => {
                                let q = spec_ws(s, p);
                                if 0 <= q < s.len() {
                                    if s[q] == 0x2c {
                                        let next = if q + 1 > i + 1 {
                                            q + 1
                                        } else {
                                            i + 1
                                        };
                                        spec_members(s, next, acc.push((key, v)))
                                    } else if s[q] == 0x7d {
                                        Some((JsonV::Obj(acc.push((key, v))), q + 1))
                                    } else {
                                        None
                                    }
                                } else {
                                    None
                                }
                            },
                        }
                    } else {
                        None
                    }
                },
            }
        } else {
            None
        }
    }
}

/// Parses a whole body: one value, surrounded only by whitespace.
pub open spec fn spec_parse(s: Seq<u8>) -> Option<JsonV> {
    match spec_value(s, spec_ws(s, 0)) {
        None => None,
        Some((v, j)) => {
            if spec_ws(s, j) == s.len() {
                Some(v)
            } else {
                None
            }
        },
    }
}

} // verus!

verus! {

/// Ten to a larger power is at least ten to a smaller one.
proof fn lemma_pow10_le(a: nat, b: nat)
    requires
        a <= b,
    ensures
        pow10(a) <= pow10(b),
    decreases b,
{
    if a < b {
        lemma_pow10_le(a, (b - 1) as nat);
    }
}

/// The concrete value of ten to the nineteenth power.
proof fn lemma_pow10_19()
    ensures
        pow10(19) == 10000000000000000000,
        pow10(18) == 1000000000000000000,
{
    reveal_with_fuel(pow10, 21);
}

/// Every byte of a digit run is a digit, and the run ends the way the
/// scanner says.
proof fn lemma_digits_end_digits(s: Seq<u8>, i: int)
    requires
        0 <= i <= s.len(),
    ensures
        i <= spec_digits_end(s, i) <= s.len(),
        forall|k: int| i <= k < spec_digits_end(s, i) ==> is_digit(s[k]),
        i < s.len() && is_digit(s[i]) ==> spec_digits_end(s, i) > i,
    decreases s.len() - i,
{
    if i < s.len() && is_digit(s[i]) {
        lemma_digits_end_digits(s, i + 1);
    }
}

/// Skips whitespace from `i` on.
fn skip_ws(s: &[u8], i: usize) -> (r: usize)
    requires
        i <= s@.len(),
    ensures
        r as int == spec_ws(s@, i as int),
        i <= r <= s@.len(),
{
    let mut j = i;
    while j < s.len() && (s[j] == 0x20 || s[j] == 0x09 || s[j] == 0x0a || s[j] == 0x0d)
        invariant
            i <= j <= s@.len(),
            spec_ws(s@, i as int) == spec_ws(s@, j as int),
        decreases s@.len() - j,
    {
        j = j + 1;
    }
    j
}

/// Finds the end of the digit run that starts at `i`.
fn digits_end(s: &[u8], i: usize) -> (r: usize)
    requires
        i <= s@.len(),
    ensures
        r as int == spec_digits_end(s@, i as int),
        i <= r <= s@.len(),
{
    let mut j = i;
    while j < s.len() && 0x30 <= s[j] && s[j] <= 0x39
        invariant
            i <= j <= s@.len(),
            spec_digits_end(s@, i as int) == spec_digits_end(s@, j as int),
        decreases s@.len() - j,
    {
        j = j + 1;
    }
    j
}

/// The value of a hexadecimal digit byte.
fn hexval_byte(b: u8) -> (r: Option<u32>)
    ensures
        r == spec_hexval(b),
{
    if 0x30 <= b && b <= 0x39 {
        Some((b - 0x30) as u32)
    } else if 0x61 <= b && b <= 0x66 {
        Some((b - 0x57) as u32)
    } else if 0x41 <= b && b <= 0x46 {
        Some((b - 0x37) as u32)
    } else {
        None
    }
}

/// Reads the four hexadecimal digits at `i`.
fn hex4(s: &[u8], i: usize) -> (r: Option<u32>)
    requires
        i <= s@.len(),
    ensures
        r == spec_hex4(s@, i as int),
        r is Some ==> i + 4 <= s@.len(),
{
    if s.len() < 4 || i > s.len() - 4 {
        return None;
    }
    let h0 = hexval_byte(s[i]);
    let h1 = hexval_byte(s[i + 1]);
    let h2 = hexval_byte(s[i + 2]);
    let h3 = hexval_byte(s[i + 3]);
    match (h0, h1, h2, h3) {
        (Some(a), Some(b), Some(c), Some(d)) => {
            assert(a < 16 && b < 16 && c < 16 && d < 16);
            Some(a * 0x1000 + b * 0x100 + c * 0x10 + d)
        },
        _ => None,
    }
}

/// Appends the UTF-8 encoding of the scalar value `cp` to `out`.
fn push_utf8(cp: u32, out: &mut Vec<u8>)
    requires
        cp < 0x110000,
    ensures
        final(out)@ == old(out)@ + utf8_enc(cp),
{
    if cp < 0x80 {
        out.push(cp as u8);
    } else if cp < 0x800 {
        out.push((0xc0 + cp / 0x40) as u8);
        out.push((0x80 + cp % 0x40) as u8);
    } else if cp < 0x10000 {
        out.push((0xe0 + cp / 0x1000) as u8);
        out.push((0x80 + (cp / 0x40) % 0x40) as u8);
        out.push((0x80 + cp % 0x40) as u8);
    } else {
        out.push((0xf0 + cp / 0x40000) as u8);
        out.push((0x80 + (cp / 0x1000) % 0x40) as u8);
        out.push((0x80 + (cp / 0x40) % 0x40) as u8);
        out.push((0x80 + cp % 0x40) as u8);
    }
    proof {
        assert(final(out)@ =~= old(out)@ + utf8_enc(cp));
    }
}

/// Scans string content from `i`, with the content read so far in `acc`.
fn scan_string(s: &[u8], i: usize, acc: Vec<u8>) -> (r: Option<(Vec<u8>, usize)>)
    requires
        i <= s@.len(),
    ensures
        (r is Some) == (spec_scan_string(s@, i as int, acc@) is Some),
        r matches Some(cp) ==> spec_scan_string(s@, i as int, acc@) == Some((cp.0@, cp.1 as int))
            && i < cp.1 <= s@.len(),
{
    let mut j = i;
    let mut buf = acc;
    loop
        invariant
            i <= j <= s@.len(),
            spec_scan_string(s@, i as int, acc@) == spec_scan_string(s@, j as int, buf@),
        decreases s@.len() - j,
    {
        if j == s.len() {
            return None;
        }
        let b = s[j];
        if b == 0x22 {
            return Some((buf, j + 1));
        } else if b == 0x5c {
            if j + 1 == s.len() {
                return None;
            }
            let e = s[j + 1];
            if e == 0x22 {
                buf.push(0x22);
                j = j + 2;
            } else if e == 0x5c {
                buf.push(0x5c);
                j = j + 2;
            } else if e == 0x2f {
                buf.push(0x2f);
                j = j + 2;
            } else if e == 0x62 {
                buf.push(0x08);
                j = j + 2;
            } else if e == 0x66 {
                buf.push(0x0c);
                j = j + 2;
            } else if e == 0x6e {
                buf.push(0x0a);
                j = j + 2;
            } else if e == 0x72 {
                buf.push(0x0d);
                j = j + 2;
            } else if e == 0x74 {
                buf.push(0x09);
                j = j + 2;
            } else if e == 0x75 {
                match hex4(s, j + 2) {
                    None => {
                        return None;
                    },
                    Some(cp) => {
                        if 0xd800 <= cp && cp < 0xdc00 {
                            if s.len() - j >= 8 && s[j + 6] == 0x5c && s[j + 7] == 0x75 {
                                match hex4(s, j + 8) {
                                    None => {
                                        return None;
                                    },
                                    Some(lo) => {
                                        if 0xdc00 <= lo && lo < 0xe000 {
                                            let comb: u32 = 0x10000 + (cp - 0xd800) * 0x400 + (lo
                                                - 0xdc00);
                                            push_utf8(comb, &mut buf);
                                            j = j + 12;
                                        } else {
                                            return None;
                                        }
                                    },
                                }
                            } else {
                                return None;
                            }
                        } else if 0xdc00 <= cp && cp < 0xe000 {
                            return None;
                        } else {
                            push_utf8(cp, &mut buf);
                            j = j + 6;
                        }
                    },
                }
            } else {
                return None;
            }
        } else if b < 0x20 {
            return None;
        } else {
            buf.push(b);
            j = j + 1;
        }
    }
}

/// Copies `s[from..to]` into a fresh vector.
fn copy_range(s: &[u8], from: usize, to: usize) -> (r: Vec<u8>)
    requires
        from <= to <= s@.len(),
    ensures
        r@ == s@.subrange(from as int, to as int),
{
    let mut out: Vec<u8> = Vec::new();
    let mut k = from;
    while k < to
        invariant
            from <= k <= to <= s@.len(),
            out@ == s@.subrange(from as int, k as int),
        decreases to - k,
    {
        out.push(s[k]);
        proof {
            assert(s@.subrange(from as int, k + 1) =~= s@.subrange(from as int, k as int).push(
                s@[k as int],
            ));
        }
        k = k + 1;
    }
    out
}

/// Parses the number that starts at `i`.
fn parse_number(s: &[u8], i: usize) -> (r: Option<(Json, usize)>)
    requires
        i <= s@.len(),
    ensures
        (r is Some) == (spec_number(s@, i as int) is Some),
        r matches Some(vp) ==> spec_number(s@, i as int) == Some((jv(vp.0), vp.1 as int)) && i
            < vp.1 <= s@.len(),
{
    if i == s.len() {
        return None;
    }
    let neg = s[i] == 0x2d;
    let d0 = if neg {
        i + 1
    } else {
        i
    };
    if d0 == s.len() {
        return None;
    }
    if !(0x30 <= s[d0] && s[d0] <= 0x39) {
        return None;
    }
    let e1 = digits_end(s, d0);
    proof {
        lemma_digits_end_digits(s@, d0 as int);
    }
    if s[d0] == 0x30 && e1 > d0 + 1 {
        return None;
    }
    let e2: usize = if e1 < s.len() && s[e1] == 0x2e {
        let f = digits_end(s, e1 + 1);
        if f == e1 + 1 {
            return None;
        }
        f
    } else {
        e1
    };
    let e3: usize = if e2 < s.len() && (s[e2] == 0x65 || s[e2] == 0x45) {
        let d: usize = if e2 + 1 < s.len() && (s[e2 + 1] == 0x2b || s[e2 + 1] == 0x2d) {
            e2 + 2
        } else {
            e2 + 1
        };
        let e = digits_end(s, d);
        if e == d {
            return None;
        }
        e
    } else {
        e2
    };
    if e3 == e1 {
        let count = e1 - d0;
        let ghost v = spec_digits_val(s@, d0 as int, e1 as int);
        let mut acc: u64 = 0;
        let mut big = count >= 20;
        proof {
            lemma_pow10_19();
            if count >= 20 {
                lemma_digits_val_lower(s@, d0 as int, e1 as int);
                lemma_pow10_le(19, (count - 1) as nat);
                assert(v > i64::MAX);
            }
        }
        if !big {
            let mut k = d0;
            while k < e1
                invariant
                    d0 <= k <= e1 <= s@.len(),
                    e1 - d0 <= 19,
                    e1 as int == spec_digits_end(s@, d0 as int),
                    acc == spec_digits_val(s@, d0 as int, k as int),
                    acc < pow10((k - d0) as nat),
                decreases e1 - k,
            {
                proof {
                    lemma_digits_end_digits(s@, d0 as int);
                    lemma_pow10_19();
                    lemma_pow10_le((k - d0) as nat, 18);
                }
                acc = acc * 10 + (s[k] - 0x30) as u64;
                k = k + 1;
            }
            big = acc > 0x7fffffffffffffff;
            proof {
                assert(acc == v);
            }
        }
        if big {
            let lex = copy_range(s, i, e1);
            return Some((Json::Num(lex), e1));
        }
        proof {
            assert(acc == v);
            assert(d0 < e1);
            assert(!(v > i64::MAX));
        }
        if neg {
            let n: i64 = -(acc as i64);
            return Some((Json::Int(n), e1));
        }
        proof {
            assert(jv(Json::Int(acc as i64)) == JsonV::Int(v as int));
        }
        return Some((Json::Int(acc as i64), e1));
    }
    let lex = copy_range(s, i, e3);
    Some((Json::Num(lex), e3))
}

} // verus!

verus! {

/// Parses the value whose first significant byte stands at `i`.
fn parse_value(s: &[u8], i: usize) -> (r: Option<(Json, usize)>)
    requires
        i <= s@.len(),
    ensures
        (r is Some) == (spec_value(s@, i as int) is Some),
        r matches Some(vp) ==> spec_value(s@, i as int) == Some((jv(vp.0), vp.1 as int)) && i
            < vp.1 <= s@.len(),
    decreases s@.len() - i, 0int,
{
    if i == s.len() {
        return None;
    }
    let b = s[i];
    if b == 0x6e {
        if s.len() - i >= 4 && s[i + 1] == 0x75 && s[i + 2] == 0x6c && s[i + 3] == 0x6c {
            Some((Json::Null, i + 4))
        } else {
            None
        }
    } else if b == 0x74 {
        if s.len() - i >= 4 && s[i + 1] == 0x72 && s[i + 2] == 0x75 && s[i + 3] == 0x65 {
            Some((Json::Bool(true), i + 4))
        } else {
            None
        }
    } else if b == 0x66 {
        if s.len() - i >= 5 && s[i + 1] == 0x61 && s[i + 2] == 0x6c && s[i + 3] == 0x73 && s[i + 4]
            == 0x65 {
            Some((Json::Bool(false), i + 5))
        } else {
            None
        }
    } else if b == 0x22 {
        let acc: Vec<u8> = Vec::new();
        proof {
            assert(acc@ =~= Seq::<u8>::empty());
        }
        match scan_string(s, i + 1, acc) {
            None => None,
            Some((c, j)) => Some((Json::Str(c), j)),
        }
    } else if b == 0x2d || (0x30 <= b && b <= 0x39) {
        parse_number(s, i)
    } else if b == 0x5b {
        let j = skip_ws(s, i + 1);
        if j < s.len() && s[j] == 0x5d {
            let es: Vec<Json> = Vec::new();
            proof {
                assert(jv_list(es@) =~= Seq::<JsonV>::empty());
            }
            Some((Json::Arr(es), j + 1))
        } else {
            let es: Vec<Json> = Vec::new();
            proof {
                assert(jv_list(es@) =~= Seq::<JsonV>::empty());
            }
            parse_elements(s, i + 1, es)
        }
    } else if b == 0x7b {
        let j = skip_ws(s, i + 1);
        if j < s.len() && s[j] == 0x7d {
            let ms: Vec<(Vec<u8>, Json)> = Vec::new();
            proof {
                assert(jv_members(ms@) =~= Seq::<(Seq<u8>, JsonV)>::empty());
            }
            Some((Json::Obj(ms), j + 1))
        } else {
            let ms: Vec<(Vec<u8>, Json)> = Vec::new();
            proof {
                assert(jv_members(ms@) =~= Seq::<(Seq<u8>, JsonV)>::empty());
            }
            parse_members(s, i + 1, ms)
        }
    } else {
        None
    }
}

/// Parses array elements from `i` on, with the elements read so far in
/// `acc`.
fn parse_elements(s: &[u8], i: usize, acc: Vec<Json>) -> (r: Option<(Json, usize)>)
    requires
        i <= s@.len(),
    ensures
        (r is Some) == (spec_elements(s@, i as int, jv_list(acc@)) is Some),
        r matches Some(vp) ==> spec_elements(s@, i as int, jv_list(acc@)) == Some(
            (jv(vp.0), vp.1 as int),
        ) && i < vp.1 <= s@.len(),
    decreases s@.len() - i, 1int,
{
    if i == s.len() {
        return None;
    }
    let j = skip_ws(s, i);
    match parse_value(s, j) {
        None => None,
        Some((v, k)) => {
            let m = skip_ws(s, k);
            if m < s.len() {
                if s[m] == 0x2c {
                    let mut acc2 = acc;
                    let ghost acc2v = jv_list(acc2@);
                    acc2.push(v);
                    proof {
                        assert(acc2@.drop_last() =~= acc@);
                        assert(jv_list(acc2@) == acc2v.push(jv(v)));
                    }
                    parse_elements(s, m + 1, acc2)
                } else if s[m] == 0x5d {
                    let mut acc2 = acc;
                    let ghost acc2v = jv_list(acc2@);
                    acc2.push(v);
                    proof {
                        assert(acc2@.drop_last() =~= acc@);
                        assert(jv_list(acc2@) == acc2v.push(jv(v)));
                    }
                    Some((Json::Arr(acc2), m + 1))
                } else {
                    None
                }
            } else {
                None
            }
        },
    }
}

/// Parses object members from `i` on, with the members read so far in
/// `acc`.
fn parse_members(s: &[u8], i: usize, acc: Vec<(Vec<u8>, Json)>) -> (r: Option<(Json, usize)>)
    requires
        i <= s@.len(),
    ensures
        (r is Some) == (spec_members(s@, i as int, jv_members(acc@)) is Some),
        r matches Some(vp) ==> spec_members(s@, i as int, jv_members(acc@)) == Some(
            (jv(vp.0), vp.1 as int),
        ) && i < vp.1 <= s@.len(),
    decreases s@.len() - i, 1int,
{
    if i == s.len() {
        return None;
    }
    let j = skip_ws(s, i);
    if j < s.len() && s[j] == 0x22 {
        let keyacc: Vec<u8> = Vec::new();
        proof {
            assert(keyacc@ =~= Seq::<u8>::empty());
        }
        match scan_string(s, j + 1, keyacc) {
            None => None,
            Some((key, k)) => {
                let c = skip_ws(s, k);
                if c < s.len() && s[c] == 0x3a {
                    let w = skip_ws(s, c + 1);
                    match parse_value(s, w) {
                        None => None,
                        Some((v, p)) => {
                            let q = skip_ws(s, p);
                            if q < s.len() {
                                if s[q] == 0x2c {
                                    let mut acc2 = acc;
                                    let ghost acc2v = jv_members(acc2@);
                                    acc2.push((key, v));
                                    proof {
                                        assert(acc2@.drop_last() =~= acc@);
                                        assert(jv_members(acc2@) == acc2v.push((key@, jv(v))));
                                    }
                                    parse_members(s, q + 1, acc2)
                                } else if s[q] == 0x7d {
                                    let mut acc2 = acc;
                                    let ghost acc2v = jv_members(acc2@);
                                    acc2.push((key, v));
                                    proof {
                                        assert(acc2@.drop_last() =~= acc@);
                                        assert(jv_members(acc2@) == acc2v.push((key@, jv(v))));
                                    }
                                    Some((Json::Obj(acc2), q + 1))
                                } else {
                                    None
                                }
                            } else {
                                None
                            }
                        },
                    }
                } else {
                    None
                }
            },
        }
    } else {
        None
    }
}

/// Parses a whole body: one JSON value surrounded only by whitespace.
pub fn parse_json(s: &[u8]) -> (r: Option<Json>)
    ensures
        (r is Some) == (spec_parse(s@) is Some),
        r matches Some(v) ==> spec_parse(s@) == Some(jv(v)),
{
    let i = skip_ws(s, 0);
    match parse_value(s, i) {
        None => None,
        Some((v, j)) => {
            let e = skip_ws(s, j);
            if e == s.len() {
                Some(v)
            } else {
                None
            }
        },
    }
}

} // verus!

//! The writer and the parser invert each other.
//!
//! [`lemma_parse_write_round_trip`] states the law: writing a well-formed
//! document and parsing the text back yields the same document. Since
//! [`crate::json::write_json`] and [`crate::parse::parse_json`] are pinned
//! to [`spec_write`] and [`spec_parse`], the law carries over to the
//! executable pair. Well-formed here means: no raw number lexemes (the
//! library's encoders never produce them) and every integer within the
//! symmetric `i64` range that the parser reads back as an integer.

use vstd::prelude::*;

use crate::json::JsonV;
use crate::json::esc_byte;
use crate::json::hex_digit;
use crate::json::spec_dec;
use crate::json::spec_escape;
use crate::json::spec_int_bytes;
use crate::json::spec_str_lit;
use crate::json::spec_write;
use crate::json::spec_write_arr;
use crate::json::spec_write_obj;
use crate::json::spec_member;
use crate::parse::is_digit;
use crate::parse::is_ws;
use crate::parse::spec_digits_end;
use crate::parse::spec_digits_val;
use crate::parse::spec_elements;
use crate::parse::spec_exp_end;
use crate::parse::spec_hex4;
use crate::parse::spec_hexval;
use crate::parse::spec_members;
use crate::parse::spec_number;
use crate::parse::spec_parse;
use crate::parse::spec_scan_string;
use crate::parse::spec_value;
use crate::parse::spec_ws;
use crate::parse::utf8_enc;

verus! {

/// A document the round trip speaks of: no raw number lexeme, and every
/// integer strictly inside the range the parser reads back as an integer.
pub open spec fn wf(v: JsonV) -> bool
    decreases v,
{
    match v {
        JsonV::Null => true,
        JsonV::Bool(_) => true,
        JsonV::Int(i) => -0x7fff_ffff_ffff_ffff <= i <= 0x7fff_ffff_ffff_ffff,
        JsonV::Num(_) => false,
        JsonV::Str(_) => true,
        JsonV::Arr(es) => wf_list(es),
        JsonV::Obj(ms) => wf_members(ms),
    }
}

/// Well-formedness of every element of a list.
pub open spec fn wf_list(es: Seq<JsonV>) -> bool
    decreases es,
{
    if es.len() == 0 {
        true
    } else {
        wf(es[0]) && wf_list(es.drop_first())
    }
}

/// Well-formedness of every member value of an object.
pub open spec fn wf_members(ms: Seq<(Seq<u8>, JsonV)>) -> bool
    decreases ms,
{
    if ms.len() == 0 {
        true
    } else {
        wf(ms[0].1) && wf_members(ms.drop_first())
    }
}

/// Whether position `j` does not continue a number lexeme.
pub open spec fn num_follow_ok(s: Seq<u8>, j: int) -> bool {
    j >= s.len() || !(is_digit(s[j]) || s[j] == 0x2e || s[j] == 0x65 || s[j] == 0x45)
}

/// The decimal rendering is nonempty, all digits, and free of a leading
/// zero unless it is the single digit zero.
proof fn lemma_dec_shape(n: nat)
    ensures
        spec_dec(n).len() >= 1,
        forall|k: int| 0 <= k < spec_dec(n).len() ==> is_digit(#[trigger] spec_dec(n)[k]),
        n >= 10 ==> spec_dec(n)[0] != 0x30,
        n < 10 ==> spec_dec(n).len() == 1,
    decreases n,
{
    if n >= 10 {
        lemma_dec_shape(n / 10);
    }
}

/// A digit run that renders `n` reads back as `n`.
proof fn lemma_dec_value(s: Seq<u8>, from: int, n: nat)
    requires
        0 <= from,
        from + spec_dec(n).len() <= s.len(),
        s.subrange(from, from + spec_dec(n).len() as int) == spec_dec(n),
    ensures
        spec_digits_val(s, from, from + spec_dec(n).len() as int) == n,
    decreases n,
{
    lemma_dec_shape(n);
    assert forall|k: int| 0 <= k < spec_dec(n).len() implies s[from + k] == spec_dec(n)[k] by {
        assert(s[from + k] == s.subrange(from, from + spec_dec(n).len() as int)[k]);
    }
    if n < 10 {
        assert(s[from] == spec_dec(n)[0]);
        assert(spec_digits_val(s, from, from) == 0);
        assert(spec_digits_val(s, from, from + 1) == (s[from] - 0x30) as nat);
    } else {
        let w = spec_dec(n);
        let wp = spec_dec(n / 10);
        assert(w == wp.push((0x30 + n % 10) as u8));
        assert(s.subrange(from, from + wp.len() as int) =~= wp);
        lemma_dec_value(s, from, n / 10);
        assert(s[from + wp.len()] == w[w.len() - 1]);
    }
}

/// The scanner stops exactly at the end of an embedded digit run.
proof fn lemma_digits_end_exact(s: Seq<u8>, from: int, to: int)
    requires
        0 <= from <= to <= s.len(),
        forall|k: int| from <= k < to ==> is_digit(#[trigger] s[k]),
        to == s.len() || !is_digit(s[to]),
    ensures
        spec_digits_end(s, from) == to,
    decreases to - from,
{
    if from < to {
        lemma_digits_end_exact(s, from + 1, to);
    }
}

/// An embedded integer rendering parses back as that integer.
proof fn lemma_rt_int(s: Seq<u8>, i: int, n: int)
    requires
        -0x7fff_ffff_ffff_ffff <= n <= 0x7fff_ffff_ffff_ffff,
        0 <= i,
        i + spec_int_bytes(n).len() <= s.len(),
        s.subrange(i, i + spec_int_bytes(n).len() as int) == spec_int_bytes(n),
        num_follow_ok(s, i + spec_int_bytes(n).len()),
    ensures
        spec_number(s, i) == Some((JsonV::Int(n), i + spec_int_bytes(n).len() as int)),
{
    let w = spec_int_bytes(n);
    let mag: nat = if n >= 0 {
        n as nat
    } else {
        (-n) as nat
    };
    let d0: int = if n >= 0 {
        i
    } else {
        i + 1
    };
    let dl = spec_dec(mag).len() as int;
    lemma_dec_shape(mag);
    assert forall|k: int| 0 <= k < w.len() implies s[i + k] == w[k] by {
        assert(s[i + k] == s.subrange(i, i + w.len() as int)[k]);
    }
    assert(s.subrange(d0, d0 + dl) =~= spec_dec(mag)) by {
        assert forall|k: int| 0 <= k < dl implies s.subrange(d0, d0 + dl)[k] == spec_dec(
            mag,
        )[k] by {
            assert(s.subrange(d0, d0 + dl)[k] == s[d0 + k]);
            assert(s[i + (d0 - i + k)] == w[d0 - i + k]);
        }
    }
    assert forall|k: int| d0 <= k < d0 + dl implies is_digit(#[trigger] s[k]) by {
        assert(s[k] == spec_dec(mag)[k - d0]);
    }
    lemma_digits_end_exact(s, d0, d0 + dl);
    lemma_dec_value(s, d0, mag);
    assert(s[i + 0] == w[0]);
    assert(s[i] == w[0]);
    if n >= 0 {
        assert(s[i] == spec_dec(mag)[0]);
        assert(is_digit(s[i]));
        assert(s[i] != 0x2d);
    } else {
        assert(s[i] == 0x2d);
    }
    let e1 = d0 + dl;
    assert(spec_digits_end(s, d0) == e1);
    if s[d0] == 0x30 {
        assert(spec_dec(mag)[0] == 0x30);
        assert(mag < 10);
        assert(e1 == d0 + 1);
    }
    assert(num_follow_ok(s, e1));
    assert(spec_exp_end(s, e1) == e1);
    assert(spec_digits_val(s, d0, e1) == mag);
    assert(mag <= 0x7fff_ffff_ffff_ffff);
    if n >= 0 {
        assert(spec_number(s, i) == Some((JsonV::Int(mag as int), e1)));
    } else {
        assert(spec_number(s, i) == Some((JsonV::Int(-(mag as int)), e1)));
    }
}

/// The value of a hexadecimal digit byte produced by the writer.
proof fn lemma_hexval_digit(d: nat)
    requires
        d < 16,
    ensures
        spec_hexval(hex_digit(d)) == Some(d as u32),
{
}

/// An embedded escaped content run followed by a closing quote scans back
/// to the content.
#[verifier::rlimit(100)]
proof fn lemma_rt_scan(s: Seq<u8>, i: int, acc: Seq<u8>, c: Seq<u8>)
    requires
        0 <= i,
        i + spec_escape(c).len() + 1 <= s.len(),
        s.subrange(i, i + spec_escape(c).len() as int + 1) == spec_escape(c) + seq![0x22u8],
    ensures
        spec_scan_string(s, i, acc) == Some((acc + c, i + spec_escape(c).len() as int + 1)),
    decreases c.len(),
{
    let whole = spec_escape(c) + seq![0x22u8];
    assert forall|k: int| 0 <= k < whole.len() implies s[i + k] == whole[k] by {
        assert(s[i + k] == s.subrange(i, i + spec_escape(c).len() as int + 1)[k]);
    }
    if c.len() == 0 {
        assert(spec_escape(c) =~= Seq::<u8>::empty());
        assert(s[i + 0] == whole[0]);
        assert(s[i] == 0x22);
        assert(acc + c =~= acc);
    } else {
        let e0 = esc_byte(c[0]);
        let rest = c.drop_first();
        assert(spec_escape(c) == e0 + spec_escape(rest));
        let j = i + e0.len() as int;
        assert(s.subrange(j, j + spec_escape(rest).len() as int + 1) =~= spec_escape(rest)
            + seq![0x22u8]) by {
            assert forall|k: int| 0 <= k < spec_escape(rest).len() + 1 implies s[j + k] == (
            spec_escape(rest) + seq![0x22u8])[k] by {
                assert(s[j + k] == whole[e0.len() + k]);
            }
        }
        assert forall|k: int| 0 <= k < e0.len() implies s[i + k] == e0[k] by {
            assert(s[i + k] == whole[k]);
            assert(whole[k] == e0[k]);
        }
        assert(e0.len() >= 1);
        assert(s[i + 0] == e0[0]);
        assert(s[i] == e0[0]);
        let b = c[0];
        if b == 0x22 || b == 0x5c {
            assert(s[i] == 0x5c && s[i + 1] == b);
            lemma_rt_scan(s, i + 2, acc.push(b), rest);
            assert(acc.push(b) + rest =~= acc + c);
        } else if b == 0x08 || b == 0x0c || b == 0x0a || b == 0x0d || b == 0x09 {
            assert(s[i] == 0x5c);
            lemma_rt_scan(s, i + 2, acc.push(b), rest);
            assert(acc.push(b) + rest =~= acc + c);
        } else if b < 0x20 {
            assert(e0 == seq![
                0x5cu8,
                0x75u8,
                0x30u8,
                0x30u8,
                hex_digit(b as nat / 16),
                hex_digit(b as nat % 16),
            ]);
            assert(s[i] == 0x5c && s[i + 1] == 0x75);
            assert(s[i + 2] == 0x30 && s[i + 3] == 0x30);
            assert(s[i + 4] == hex_digit(b as nat / 16));
            assert(s[i + 5] == hex_digit(b as nat % 16));
            lemma_hexval_digit(b as nat / 16);
            lemma_hexval_digit(b as nat % 16);
            let cp = (b as nat / 16 * 0x10 + b as nat % 16) as u32;
            assert(spec_hex4(s, i + 2) == Some(cp));
            assert(cp == b as u32);
            assert(cp < 0x80);
            assert(utf8_enc(cp) =~= seq![b]);
            lemma_rt_scan(s, i + 6, acc + seq![b], rest);
            assert(acc + seq![b] + rest =~= acc + c);
        } else {
            assert(e0 =~= seq![b]);
            assert(s[i] == b);
            assert(b != 0x22 && b != 0x5c && !(b < 0x20));
            lemma_rt_scan(s, i + 1, acc.push(b), rest);
            assert(acc.push(b) + rest =~= acc + c);
        }
    }
}

/// The first byte of a rendering: never whitespace, never a closing
/// bracket or brace.
proof fn lemma_write_first_byte(v: JsonV)
    requires
        wf(v),
    ensures
        spec_write(v).len() >= 1,
        !is_ws(spec_write(v)[0]),
        spec_write(v)[0] != 0x5d,
        spec_write(v)[0] != 0x7d,
{
    match v {
        JsonV::Int(i) => {
            let mag: nat = if i >= 0 {
                i as nat
            } else {
                (-i) as nat
            };
            lemma_dec_shape(mag);
            if i >= 0 {
                assert(spec_write(v)[0] == spec_dec(mag)[0]);
                assert(is_digit(spec_write(v)[0]));
            }
        },
        _ => {},
    }
}

} // verus!

verus! {

/// A part of an embedded run is itself embedded at its offset.
proof fn lemma_sub_embed(s: Seq<u8>, i: int, w: Seq<u8>, a: int, part: Seq<u8>)
    requires
        0 <= i,
        i + w.len() <= s.len(),
        s.subrange(i, i + w.len() as int) == w,
        0 <= a,
        a + part.len() <= w.len(),
        w.subrange(a, a + part.len() as int) == part,
    ensures
        s.subrange(i + a, i + a + part.len() as int) == part,
{
    assert(s.subrange(i + a, i + a + part.len() as int) =~= part) by {
        assert forall|k: int|
            0 <= k < part.len() implies s.subrange(i + a, i + a + part.len() as int)[k]
                == part.index(k) by {
            assert(s.subrange(i + a, i + a + part.len() as int)[k] == s[i + a + k]);
            assert(s[i + (a + k)] == s.subrange(i, i + w.len() as int)[a + k]);
            assert(w[a + k] == w.subrange(a, a + part.len() as int)[k]);
        }
    }
}

/// An embedded rendering of a well-formed value that is not an array or
/// an object parses back to the value.
#[verifier::rlimit(100)]
proof fn lemma_rt_atom(s: Seq<u8>, i: int, v: JsonV)
    requires
        wf(v),
        !(v is Arr),
        !(v is Obj),
        0 <= i,
        i + spec_write(v).len() <= s.len(),
        s.subrange(i, i + spec_write(v).len() as int) == spec_write(v),
        num_follow_ok(s, i + spec_write(v).len()),
    ensures
        spec_value(s, i) == Some((v, i + spec_write(v).len() as int)),
{
    let w = spec_write(v);
    assert forall|k: int| 0 <= k < w.len() implies s[i + k] == w[k] by {
        assert(s[i + k] == s.subrange(i, i + w.len() as int)[k]);
    }
    lemma_write_first_byte(v);
    assert(s[i + 0] == w[0]);
    match v {
        JsonV::Null => {
            assert(s[i] == 0x6e && s[i + 1] == 0x75 && s[i + 2] == 0x6c && s[i + 3] == 0x6c);
            assert(w.len() == 4);
            assert(spec_value(s, i) == Some((JsonV::Null, i + 4)));
        },
        JsonV::Bool(b) => {
            if b {
                assert(s[i] == 0x74 && s[i + 1] == 0x72 && s[i + 2] == 0x75 && s[i + 3] == 0x65);
                assert(w.len() == 4);
                assert(spec_value(s, i) == Some((JsonV::Bool(true), i + 4)));
            } else {
                assert(s[i] == 0x66 && s[i + 1] == 0x61 && s[i + 2] == 0x6c && s[i + 3] == 0x73
                    && s[i + 4] == 0x65);
                assert(w.len() == 5);
                assert(spec_value(s, i) == Some((JsonV::Bool(false), i + 5)));
            }
        },
        JsonV::Int(n) => {
            lemma_rt_int(s, i, n);
            let mag: nat = if n >= 0 {
                n as nat
            } else {
                (-n) as nat
            };
            lemma_dec_shape(mag);
            if n >= 0 {
                assert(w[0] == spec_dec(mag)[0]);
                assert(is_digit(s[i]));
            } else {
                assert(s[i] == 0x2d);
            }
        },
        JsonV::Num(_) => {
            assert(false);
        },
        JsonV::Str(c) => {
            assert(s[i] == 0x22);
            assert(spec_str_lit(c).subrange(1, 1 + spec_escape(c).len() as int + 1)
                =~= spec_escape(c) + seq![0x22u8]);
            lemma_sub_embed(s, i, w, 1, spec_escape(c) + seq![0x22u8]);
            lemma_rt_scan(s, i + 1, Seq::empty(), c);
            assert(Seq::empty() + c =~= c);
        },
        JsonV::Arr(_) => {
            assert(false);
        },
        JsonV::Obj(_) => {
            assert(false);
        },
    }
}

/// An embedded rendering of a well-formed value parses back to the value.
#[verifier::rlimit(100)]
proof fn lemma_rt_value(s: Seq<u8>, i: int, v: JsonV)
    requires
        wf(v),
        0 <= i,
        i + spec_write(v).len() <= s.len(),
        s.subrange(i, i + spec_write(v).len() as int) == spec_write(v),
        num_follow_ok(s, i + spec_write(v).len()),
    ensures
        spec_value(s, i) == Some((v, i + spec_write(v).len() as int)),
    decreases v, 0int,
{
    let w = spec_write(v);
    assert forall|k: int| 0 <= k < w.len() implies s[i + k] == w[k] by {
        assert(s[i + k] == s.subrange(i, i + w.len() as int)[k]);
    }
    lemma_write_first_byte(v);
    assert(s[i + 0] == w[0]);
    match v {
        JsonV::Arr(es) => {
            assert(s[i] == 0x5b);
            if es.len() == 0 {
                assert(spec_write_arr(es) =~= Seq::<u8>::empty());
                assert(w =~= seq![0x5bu8, 0x5du8]);
                assert(s[i + 1] == 0x5d);
                assert(spec_ws(s, i + 1) == i + 1);
                assert(es =~= Seq::<JsonV>::empty());
                assert(spec_value(s, i) == Some((JsonV::Arr(es), i + 2)));
            } else {
                assert(wf(es[0]));
                lemma_write_first_byte(es[0]);
                let body = spec_write_arr(es) + seq![0x5du8];
                assert(w.subrange(1, 1 + body.len() as int) =~= body);
                lemma_sub_embed(s, i, w, 1, body);
                if es.len() == 1 {
                    assert(spec_write_arr(es) == spec_write(es[0]));
                } else {
                    assert(spec_write_arr(es) == spec_write(es[0]) + seq![0x2cu8]
                        + spec_write_arr(es.drop_first()));
                }
                assert(spec_write_arr(es).len() >= 1);
                assert(spec_write_arr(es)[0] == spec_write(es[0])[0]);
                assert(s[i + 1] == w[1]);
                assert(w[1] == spec_write_arr(es)[0]);
                assert(!is_ws(s[i + 1]) && s[i + 1] != 0x5d);
                assert(spec_ws(s, i + 1) == i + 1);
                lemma_rt_elements(s, i + 1, Seq::empty(), es);
                assert(Seq::empty() + es =~= es);
            }
        },
        JsonV::Obj(ms) => {
            assert(s[i] == 0x7b);
            if ms.len() == 0 {
                assert(spec_write_obj(ms) =~= Seq::<u8>::empty());
                assert(w =~= seq![0x7bu8, 0x7du8]);
                assert(s[i + 1] == 0x7d);
                assert(spec_ws(s, i + 1) == i + 1);
                assert(ms =~= Seq::<(Seq<u8>, JsonV)>::empty());
                assert(spec_value(s, i) == Some((JsonV::Obj(ms), i + 2)));
            } else {
                let body = spec_write_obj(ms) + seq![0x7du8];
                assert(w.subrange(1, 1 + body.len() as int) =~= body);
                lemma_sub_embed(s, i, w, 1, body);
                if ms.len() == 1 {
                    assert(spec_write_obj(ms) == spec_member(ms[0]));
                } else {
                    assert(spec_write_obj(ms) == spec_member(ms[0]) + seq![0x2cu8]
                        + spec_write_obj(ms.drop_first()));
                }
                assert(spec_member(ms[0]) == spec_str_lit(ms[0].0) + seq![0x3au8] + spec_write(
                    ms[0].1,
                ));
                assert(spec_str_lit(ms[0].0)[0] == 0x22);
                assert(spec_member(ms[0])[0] == 0x22);
                assert(spec_write_obj(ms).len() >= 1);
                assert(spec_write_obj(ms)[0] == 0x22);
                assert(s[i + 1] == w[1]);
                assert(w[1] == spec_write_obj(ms)[0]);
                assert(s[i + 1] == 0x22);
                assert(spec_ws(s, i + 1) == i + 1);
                lemma_rt_members(s, i + 1, Seq::empty(), ms);
                assert(Seq::empty() + ms =~= ms);
            }
        },
        _ => {
            lemma_rt_atom(s, i, v);
        },
    }
}

/// Embedded renderings of the remaining elements, closed by a bracket,
/// parse back to the whole array.
#[verifier::rlimit(100)]
proof fn lemma_rt_elements(s: Seq<u8>, i: int, acc: Seq<JsonV>, es: Seq<JsonV>)
    requires
        es.len() > 0,
        wf_list(es),
        0 <= i,
        i + spec_write_arr(es).len() + 1 <= s.len(),
        s.subrange(i, i + spec_write_arr(es).len() as int + 1) == spec_write_arr(es)
            + seq![0x5du8],
    ensures
        spec_elements(s, i, acc) == Some(
            (JsonV::Arr(acc + es), i + spec_write_arr(es).len() as int + 1),
        ),
    decreases es, 1int,
{
    let whole = spec_write_arr(es) + seq![0x5du8];
    assert forall|k: int| 0 <= k < whole.len() implies s[i + k] == whole[k] by {
        assert(s[i + k] == s.subrange(i, i + spec_write_arr(es).len() as int + 1)[k]);
    }
    assert(wf(es[0]));
    lemma_write_first_byte(es[0]);
    let w0 = spec_write(es[0]);
    if es.len() == 1 {
        assert(spec_write_arr(es) == w0);
        assert(whole.subrange(0, w0.len() as int) =~= w0);
        lemma_sub_embed(s, i, whole, 0, w0);
        assert(s[i + w0.len() as int] == whole[w0.len() as int]);
        assert(s[i + w0.len()] == 0x5d);
        assert(num_follow_ok(s, i + w0.len()));
        assert(s[i + 0] == w0[0]);
        assert(spec_ws(s, i) == i);
        lemma_rt_value(s, i, es[0]);
        let k = i + w0.len() as int;
        assert(spec_ws(s, k) == k);
        assert(acc.push(es[0]) =~= acc + es);
        assert(spec_elements(s, i, acc) == Some((JsonV::Arr(acc.push(es[0])), k + 1)));
    } else {
        let rest = es.drop_first();
        assert(wf_list(rest));
        assert(spec_write_arr(es) == w0 + seq![0x2cu8] + spec_write_arr(rest));
        assert(whole.subrange(0, w0.len() as int) =~= w0);
        lemma_sub_embed(s, i, whole, 0, w0);
        assert(s[i + w0.len() as int] == whole[w0.len() as int]);
        assert(s[i + w0.len()] == 0x2c);
        assert(num_follow_ok(s, i + w0.len()));
        assert(s[i + 0] == w0[0]);
        assert(spec_ws(s, i) == i);
        lemma_rt_value(s, i, es[0]);
        let k = i + w0.len() as int;
        assert(spec_ws(s, k) == k);
        let tail = spec_write_arr(rest) + seq![0x5du8];
        assert(whole.subrange(w0.len() as int + 1, w0.len() as int + 1 + tail.len() as int) =~= tail);
        lemma_sub_embed(s, i, whole, w0.len() as int + 1, tail);
        lemma_rt_elements(s, k + 1, acc.push(es[0]), rest);
        assert(acc.push(es[0]) + rest =~= acc + es);
        assert(k + 1 + spec_write_arr(rest).len() + 1 == i + spec_write_arr(es).len() + 1);
    }
}

/// Embedded renderings of the remaining members, closed by a brace,
/// parse back to the whole object.
#[verifier::rlimit(100)]
proof fn lemma_rt_members(s: Seq<u8>, i: int, acc: Seq<(Seq<u8>, JsonV)>, ms: Seq<(Seq<u8>, JsonV)>)
    requires
        ms.len() > 0,
        wf_members(ms),
        0 <= i,
        i + spec_write_obj(ms).len() + 1 <= s.len(),
        s.subrange(i, i + spec_write_obj(ms).len() as int + 1) == spec_write_obj(ms)
            + seq![0x7du8],
    ensures
        spec_members(s, i, acc) == Some(
            (JsonV::Obj(acc + ms), i + spec_write_obj(ms).len() as int + 1),
        ),
    decreases ms, 1int,
{
    let whole = spec_write_obj(ms) + seq![0x7du8];
    assert forall|k: int| 0 <= k < whole.len() implies s[i + k] == whole[k] by {
        assert(s[i + k] == s.subrange(i, i + spec_write_obj(ms).len() as int + 1)[k]);
    }
    assert(wf(ms[0].1));
    let key = ms[0].0;
    let v0 = ms[0].1;
    let m0 = spec_member(ms[0]);
    assert(m0 == spec_str_lit(key) + seq![0x3au8] + spec_write(v0));
    let kl = spec_str_lit(key).len() as int;
    let wl = spec_write(v0).len() as int;
    assert(m0.len() == kl + 1 + wl);
    if ms.len() == 1 {
        assert(spec_write_obj(ms) == m0);
    } else {
        assert(spec_write_obj(ms) == m0 + seq![0x2cu8] + spec_write_obj(ms.drop_first()));
    }
    // The first bytes of the member: the key literal, then the colon.
    assert(whole.subrange(0, m0.len() as int) =~= m0);
    lemma_sub_embed(s, i, whole, 0, m0);
    assert forall|k: int| 0 <= k < m0.len() implies s[i + k] == m0[k] by {
        assert(s[i + k] == s.subrange(i, i + m0.len() as int)[k]);
    }
    assert(s[i + 0] == m0[0]);
    assert(m0[0] == spec_str_lit(key)[0]);
    assert(s[i] == 0x22);
    assert(spec_ws(s, i) == i);
    // The key scans back.
    assert(m0.subrange(1, 1 + spec_escape(key).len() as int + 1) =~= spec_escape(key)
        + seq![0x22u8]);
    lemma_sub_embed(s, i, m0, 1, spec_escape(key) + seq![0x22u8]);
    lemma_rt_scan(s, i + 1, Seq::empty(), key);
    assert(Seq::empty() + key =~= key);
    let c = i + kl;
    assert(i + 1 + spec_escape(key).len() + 1 == c);
    // The colon follows.
    assert(s[i + (kl + 0)] == m0[kl + 0]);
    assert(m0[kl] == 0x3a);
    assert(s[c] == 0x3a);
    assert(spec_ws(s, c) == c);
    // The value follows the colon.
    assert(m0.subrange(kl + 1, kl + 1 + wl) =~= spec_write(v0));
    lemma_sub_embed(s, i, m0, kl + 1, spec_write(v0));
    let p = c + 1 + wl;
    assert(s[i + (kl + 1 + wl)] == whole[kl + 1 + wl]);
    if ms.len() == 1 {
        assert(whole[m0.len() as int] == 0x7d);
        assert(s[p] == 0x7d);
        assert(num_follow_ok(s, p));
        lemma_write_first_byte(v0);
        assert(s[i + (kl + 1) + 0] == spec_write(v0)[0]);
        assert(spec_ws(s, c + 1) == c + 1);
        lemma_rt_value(s, c + 1, v0);
        assert(spec_ws(s, p) == p);
        assert(acc.push((key, v0)) =~= acc + ms);
        assert(spec_members(s, i, acc) == Some((JsonV::Obj(acc.push((key, v0))), p + 1)));
    } else {
        let rest = ms.drop_first();
        assert(wf_members(rest));
        assert(whole[m0.len() as int] == 0x2c);
        assert(s[p] == 0x2c);
        assert(num_follow_ok(s, p));
        lemma_write_first_byte(v0);
        assert(s[i + (kl + 1) + 0] == spec_write(v0)[0]);
        assert(spec_ws(s, c + 1) == c + 1);
        lemma_rt_value(s, c + 1, v0);
        assert(spec_ws(s, p) == p);
        let tail = spec_write_obj(rest) + seq![0x7du8];
        assert(whole.subrange(m0.len() as int + 1, m0.len() as int + 1 + tail.len() as int) =~= tail);
        lemma_sub_embed(s, i, whole, m0.len() as int + 1, tail);
        lemma_rt_members(s, p + 1, acc.push((key, v0)), rest);
        assert(acc.push((key, v0)) + rest =~= acc + ms);
        assert(p + 1 + spec_write_obj(rest).len() + 1 == i + spec_write_obj(ms).len() + 1);
    }
}

/// Writing a well-formed document and parsing the text back yields the
/// same document. Through the contracts of [`crate::json::write_json`]
/// and [`crate::parse::parse_json`], the same holds of the executable
/// writer and parser.
pub proof fn lemma_parse_write_round_trip(v: JsonV)
    requires
        wf(v),
    ensures
        spec_parse(spec_write(v)) == Some(v),
{
    let s = spec_write(v);
    lemma_write_first_byte(v);
    assert(spec_ws(s, 0) == 0);
    assert(s.subrange(0, s.len() as int) =~= s);
    assert(num_follow_ok(s, s.len() as int));
    lemma_rt_value(s, 0, v);
    assert(spec_ws(s, s.len() as int) == s.len());
}

} // verus!

verus! {

/// A list whose elements are all well formed is a well-formed list.
proof fn lemma_wf_list_pointwise(es: Seq<JsonV>)
    requires
        forall|k: int| 0 <= k < es.len() ==> wf(#[trigger] es[k]),
    ensures
        wf_list(es),
    decreases es.len(),
{
    if es.len() > 0 {
        lemma_wf_list_pointwise(es.drop_first());
    }
}

/// Members whose values are all well formed are well-formed members.
proof fn lemma_wf_members_pointwise(ms: Seq<(Seq<u8>, JsonV)>)
    requires
        forall|k: int| 0 <= k < ms.len() ==> wf((#[trigger] ms[k]).1),
    ensures
        wf_members(ms),
    decreases ms.len(),
{
    if ms.len() > 0 {
        lemma_wf_members_pointwise(ms.drop_first());
    }
}

/// Every entry of the `required` list is a string, so the list is well
/// formed.
proof fn lemma_required_wf(fs: Seq<crate::tools::SchemaField>, i: int)
    ensures
        wf_list(crate::tools::spec_required_from(fs, i)),
    decreases
            (if i <= fs.len() {
                fs.len() - i
            } else {
                0
            }),
{
    if 0 <= i < fs.len() {
        lemma_required_wf(fs, i + 1);
        if !fs[i].optional {
            let whole = seq![JsonV::Str(crate::json_types::bytes_of(fs[i].name@))]
                + crate::tools::spec_required_from(fs, i + 1);
            assert(whole.drop_first() =~= crate::tools::spec_required_from(fs, i + 1));
            assert(whole[0] == JsonV::Str(crate::json_types::bytes_of(fs[i].name@)));
            assert(wf(whole[0]));
            assert(wf_list(whole));
            assert(crate::tools::spec_required_from(fs, i) == whole);
        }
    }
}

/// The schema codec only emits strings, booleans, arrays of strings and
/// objects of those, so its document is well formed.
proof fn lemma_schema_doc_wf(fs: Seq<crate::tools::SchemaField>)
    ensures
        wf(crate::tools::spec_schema_doc(fs)),
{
    let doc = crate::tools::spec_schema_doc(fs);
    let ms = doc->Obj_0;
    let props = fs.map_values(|f: crate::tools::SchemaField| crate::tools::spec_property(f));
    assert forall|k: int| 0 <= k < props.len() implies wf((#[trigger] props[k]).1) by {
        let entry = crate::tools::spec_property(fs[k]).1->Obj_0;
        assert(wf(entry[0].1));
        assert(wf(entry[1].1));
        lemma_wf_members_pointwise(entry);
    }
    lemma_wf_members_pointwise(props);
    lemma_required_wf(fs, 0);
    assert(wf(ms[0].1));
    assert(wf(ms[1].1));
    assert(wf(ms[2].1));
    assert(wf(ms[3].1));
    lemma_wf_members_pointwise(ms);
}

/// The schema round trip: serializing the document the codec builds for
/// any parameter shape and parsing the text back yields a structurally
/// equal document - the same document.
pub proof fn lemma_schema_round_trip(fs: Seq<crate::tools::SchemaField>)
    ensures
        spec_parse(spec_write(crate::tools::spec_schema_doc(fs))) == Some(
            crate::tools::spec_schema_doc(fs),
        ),
{
    lemma_schema_doc_wf(fs);
    lemma_parse_write_round_trip(crate::tools::spec_schema_doc(fs));
}

} // verus!

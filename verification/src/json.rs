//! The JSON document model of the crate.
//!
//! Wire bodies are built and read as values of [`Json`]: objects keep their
//! members in insertion order, string contents and raw number lexemes are
//! held as UTF-8 bytes. The writer renders a document to bytes without any
//! whitespace; its output is pinned byte for byte by [`spec_write`].

use vstd::prelude::*;

verus! {

/// A JSON document.
///
/// String contents are raw (unescaped) UTF-8 bytes; `Num` carries the raw
/// lexeme of a number that is not an integer in `i64` range. Objects are
/// ordered lists of members, so insertion order is kept.
#[derive(Debug, PartialEq)]
pub enum Json {
    Null,
    Bool(bool),
    Int(i64),
    Num(Vec<u8>),
    Str(Vec<u8>),
    Arr(Vec<Json>),
    Obj(Vec<(Vec<u8>, Json)>),
}

/// The mathematical shape of a JSON document.
#[verifier::ext_equal]
pub enum JsonV {
    Null,
    Bool(bool),
    Int(int),
    Num(Seq<u8>),
    Str(Seq<u8>),
    Arr(Seq<JsonV>),
    Obj(Seq<(Seq<u8>, JsonV)>),
}

/// The abstraction of a document: every `Vec` becomes a `Seq`.
pub open spec fn jv(j: Json) -> JsonV
    decreases j,
{
    match j {
        Json::Null => JsonV::Null,
        Json::Bool(b) => JsonV::Bool(b),
        Json::Int(i) => JsonV::Int(i as int),
        Json::Num(n) => JsonV::Num(n@),
        Json::Str(s) => JsonV::Str(s@),
        Json::Arr(es) => JsonV::Arr(jv_list(es@)),
        Json::Obj(ms) => JsonV::Obj(jv_members(ms@)),
    }
}

/// The abstractions of a sequence of documents, element by element.
pub open spec fn jv_list(es: Seq<Json>) -> Seq<JsonV>
    decreases es,
{
    if es.len() == 0 {
        Seq::empty()
    } else {
        jv_list(es.drop_last()).push(jv(es.last()))
    }
}

/// The abstractions of a sequence of object members, member by member.
pub open spec fn jv_members(ms: Seq<(Vec<u8>, Json)>) -> Seq<(Seq<u8>, JsonV)>
    decreases ms,
{
    if ms.len() == 0 {
        Seq::empty()
    } else {
        jv_members(ms.drop_last()).push((ms.last().0@, jv(ms.last().1)))
    }
}

/// `jv_list` maps `jv` over the sequence.
pub broadcast proof fn lemma_jv_list(es: Seq<Json>)
    ensures
        (#[trigger] jv_list(es)).len() == es.len(),
        forall|i: int| 0 <= i < es.len() ==> jv_list(es)[i] == jv(es[i]),
    decreases es,
{
    if es.len() > 0 {
        lemma_jv_list(es.drop_last());
    }
}

/// `jv_members` maps key view and `jv` over the members.
pub broadcast proof fn lemma_jv_members(ms: Seq<(Vec<u8>, Json)>)
    ensures
        (#[trigger] jv_members(ms)).len() == ms.len(),
        forall|i: int|
            0 <= i < ms.len() ==> jv_members(ms)[i] == (ms[i].0@, jv(ms[i].1)),
    decreases ms,
{
    if ms.len() > 0 {
        lemma_jv_members(ms.drop_last());
    }
}

impl View for Json {
    type V = JsonV;

    open spec fn view(&self) -> JsonV {
        jv(*self)
    }
}

/// The decimal digit bytes of `n`, most significant first.
pub open spec fn spec_dec(n: nat) -> Seq<u8>
    decreases n,
{
    if n < 10 {
        seq![(0x30 + n) as u8]
    } else {
        spec_dec(n / 10).push((0x30 + n % 10) as u8)
    }
}

/// The rendering of an integer: a minus sign for negatives, then digits.
pub open spec fn spec_int_bytes(i: int) -> Seq<u8> {
    if i >= 0 {
        spec_dec(i as nat)
    } else {
        seq![0x2du8] + spec_dec((-i) as nat)
    }
}

/// The lower-case hexadecimal digit byte for `d < 16`.
pub open spec fn hex_digit(d: nat) -> u8 {
    if d < 10 {
        (0x30 + d) as u8
    } else {
        (0x57 + d) as u8
    }
}

/// The escape of one byte of string content, as it appears between the
/// quotes of a JSON string: the two-character escapes of the JSON grammar,
/// `\u00XX` for the remaining control bytes, and the byte itself otherwise.
pub open spec fn esc_byte(b: u8) -> Seq<u8> {
    if b == 0x22 {
        seq![0x5cu8, 0x22u8]
    } else if b == 0x5c {
        seq![0x5cu8, 0x5cu8]
    } else if b == 0x08 {
        seq![0x5cu8, 0x62u8]
    } else if b == 0x0c {
        seq![0x5cu8, 0x66u8]
    } else if b == 0x0a {
        seq![0x5cu8, 0x6eu8]
    } else if b == 0x0d {
        seq![0x5cu8, 0x72u8]
    } else if b == 0x09 {
        seq![0x5cu8, 0x74u8]
    } else if b < 0x20 {
        seq![0x5cu8, 0x75u8, 0x30u8, 0x30u8, hex_digit(b as nat / 16), hex_digit(b as nat % 16)]
    } else {
        seq![b]
    }
}

/// The escaped form of string content.
pub open spec fn spec_escape(s: Seq<u8>) -> Seq<u8>
    decreases s.len(),
{
    if s.len() == 0 {
        Seq::empty()
    } else {
        esc_byte(s[0]) + spec_escape(s.drop_first())
    }
}

/// A string literal of JSON text: quote, escaped content, quote.
pub open spec fn spec_str_lit(s: Seq<u8>) -> Seq<u8> {
    seq![0x22u8] + spec_escape(s) + seq![0x22u8]
}

/// The JSON text of a document, without any whitespace.
pub open spec fn spec_write(v: JsonV) -> Seq<u8>
    decreases v,
{
    match v {
        JsonV::Null => seq![0x6eu8, 0x75u8, 0x6cu8, 0x6cu8],
        JsonV::Bool(b) => if b {
            seq![0x74u8, 0x72u8, 0x75u8, 0x65u8]
        } else {
            seq![0x66u8, 0x61u8, 0x6cu8, 0x73u8, 0x65u8]
        },
        JsonV::Int(i) => spec_int_bytes(i),
        JsonV::Num(n) => n,
        JsonV::Str(s) => spec_str_lit(s),
        JsonV::Arr(es) => seq![0x5bu8] + spec_write_arr(es) + seq![0x5du8],
        JsonV::Obj(ms) => seq![0x7bu8] + spec_write_obj(ms) + seq![0x7du8],
    }
}

/// The comma-separated renderings of the elements of an array.
pub open spec fn spec_write_arr(es: Seq<JsonV>) -> Seq<u8>
    decreases es,
{
    if es.len() == 0 {
        Seq::empty()
    } else if es.len() == 1 {
        spec_write(es[0])
    } else {
        spec_write(es[0]) + seq![0x2cu8] + spec_write_arr(es.drop_first())
    }
}

/// The comma-separated renderings of the members of an object.
pub open spec fn spec_write_obj(ms: Seq<(Seq<u8>, JsonV)>) -> Seq<u8>
    decreases ms,
{
    if ms.len() == 0 {
        Seq::empty()
    } else if ms.len() == 1 {
        spec_member(ms[0])
    } else {
        spec_member(ms[0]) + seq![0x2cu8] + spec_write_obj(ms.drop_first())
    }
}

/// One object member: key string, colon, value.
pub open spec fn spec_member(m: (Seq<u8>, JsonV)) -> Seq<u8>
    decreases m,
{
    spec_str_lit(m.0) + seq![0x3au8] + spec_write(m.1)
}

/// The rendering of the elements of `es` from index `i` on, with commas.
pub open spec fn spec_list_from(es: Seq<Json>, i: int) -> Seq<u8>
    decreases es.len() - i,
{
    if i < 0 || i >= es.len() {
        Seq::empty()
    } else if i == es.len() - 1 {
        spec_write(jv(es[i]))
    } else {
        spec_write(jv(es[i])) + seq![0x2cu8] + spec_list_from(es, i + 1)
    }
}

/// The rendering of the members of `ms` from index `i` on, with commas.
pub open spec fn spec_members_from(ms: Seq<(Vec<u8>, Json)>, i: int) -> Seq<u8>
    decreases ms.len() - i,
{
    if i < 0 || i >= ms.len() {
        Seq::empty()
    } else if i == ms.len() - 1 {
        spec_member((ms[i].0@, jv(ms[i].1)))
    } else {
        spec_member((ms[i].0@, jv(ms[i].1))) + seq![0x2cu8] + spec_members_from(ms, i + 1)
    }
}

/// The index-based rendering agrees with the one over abstract sequences.
proof fn lemma_list_from(es: Seq<Json>, i: int)
    requires
        0 <= i <= es.len(),
    ensures
        spec_list_from(es, i) == spec_write_arr(jv_list(es).skip(i)),
    decreases es.len() - i,
{
    lemma_jv_list(es);
    if i < es.len() {
        lemma_list_from(es, i + 1);
        assert(jv_list(es).skip(i).len() == es.len() - i);
        assert(jv_list(es).skip(i)[0] == jv(es[i]));
        assert(jv_list(es).skip(i).drop_first() =~= jv_list(es).skip(i + 1));
    } else {
        assert(jv_list(es).skip(i) =~= Seq::<JsonV>::empty());
    }
}

/// The index-based rendering agrees with the one over abstract members.
proof fn lemma_members_from(ms: Seq<(Vec<u8>, Json)>, i: int)
    requires
        0 <= i <= ms.len(),
    ensures
        spec_members_from(ms, i) == spec_write_obj(jv_members(ms).skip(i)),
    decreases ms.len() - i,
{
    lemma_jv_members(ms);
    if i < ms.len() {
        lemma_members_from(ms, i + 1);
        assert(jv_members(ms).skip(i).len() == ms.len() - i);
        assert(jv_members(ms).skip(i)[0] == (ms[i].0@, jv(ms[i].1)));
        assert(jv_members(ms).skip(i).drop_first() =~= jv_members(ms).skip(i + 1));
    } else {
        assert(jv_members(ms).skip(i) =~= Seq::<(Seq<u8>, JsonV)>::empty());
    }
}

/// Escaping distributes over appending one byte.
proof fn lemma_escape_push(s: Seq<u8>, b: u8)
    ensures
        spec_escape(s.push(b)) == spec_escape(s) + esc_byte(b),
    decreases s.len(),
{
    if s.len() == 0 {
        assert(s.push(b).len() == 1);
        assert(s.push(b)[0] == b);
        assert(s.push(b).drop_first() =~= Seq::<u8>::empty());
        assert(spec_escape(s.push(b).drop_first()) == Seq::<u8>::empty());
        assert(spec_escape(s.push(b)) =~= esc_byte(b) + spec_escape(s.push(b).drop_first()));
        assert(spec_escape(s.push(b)) =~= esc_byte(b));
        assert(spec_escape(s) + esc_byte(b) =~= esc_byte(b));
    } else {
        assert(s.push(b).drop_first() =~= s.drop_first().push(b));
        lemma_escape_push(s.drop_first(), b);
        assert(spec_escape(s.push(b)) =~= spec_escape(s) + esc_byte(b));
    }
}

/// The lower-case hexadecimal digit byte, executable form.
fn hex_digit_byte(d: u8) -> (r: u8)
    requires
        d < 16,
    ensures
        r == hex_digit(d as nat),
{
    if d < 10 {
        0x30 + d
    } else {
        0x57 + d
    }
}

/// Appends the escape of one content byte to `out`.
fn push_escaped_byte(b: u8, out: &mut Vec<u8>)
    ensures
        final(out)@ == old(out)@ + esc_byte(b),
{
    if b == 0x22 {
        out.push(0x5c);
        out.push(0x22);
    } else if b == 0x5c {
        out.push(0x5c);
        out.push(0x5c);
    } else if b == 0x08 {
        out.push(0x5c);
        out.push(0x62);
    } else if b == 0x0c {
        out.push(0x5c);
        out.push(0x66);
    } else if b == 0x0a {
        out.push(0x5c);
        out.push(0x6e);
    } else if b == 0x0d {
        out.push(0x5c);
        out.push(0x72);
    } else if b == 0x09 {
        out.push(0x5c);
        out.push(0x74);
    } else if b < 0x20 {
        out.push(0x5c);
        out.push(0x75);
        out.push(0x30);
        out.push(0x30);
        out.push(hex_digit_byte(b / 16));
        out.push(hex_digit_byte(b % 16));
    } else {
        out.push(b);
    }
    proof {
        assert(final(out)@ =~= old(out)@ + esc_byte(b));
    }
}

/// Appends the JSON string literal for content `s` to `out`.
fn write_string_lit(s: &Vec<u8>, out: &mut Vec<u8>)
    ensures
        final(out)@ == old(out)@ + spec_str_lit(s@),
{
    out.push(0x22);
    let n = s.len();
    let mut i: usize = 0;
    while i < n
        invariant
            i <= n,
            n == s@.len(),
            out@ == old(out)@ + seq![0x22u8] + spec_escape(s@.take(i as int)),
        decreases n - i,
    {
        push_escaped_byte(s[i], out);
        proof {
            assert(s@.take(i + 1) =~= s@.take(i as int).push(s@[i as int]));
            lemma_escape_push(s@.take(i as int), s@[i as int]);
        }
        i = i + 1;
    }
    out.push(0x22);
    proof {
        assert(s@.take(n as int) =~= s@);
        assert(final(out)@ =~= old(out)@ + spec_str_lit(s@));
    }
}

/// Appends the decimal digits of `n` to `out`.
fn push_dec_u64(n: u64, out: &mut Vec<u8>)
    ensures
        final(out)@ == old(out)@ + spec_dec(n as nat),
    decreases n,
{
    if n >= 10 {
        push_dec_u64(n / 10, out);
    }
    out.push(0x30 + (n % 10) as u8);
    proof {
        if n < 10 {
            assert(final(out)@ =~= old(out)@ + spec_dec(n as nat));
        } else {
            assert(spec_dec(n as nat) == spec_dec(n as nat / 10).push(
                (0x30 + n as nat % 10) as u8,
            ));
            assert(final(out)@ =~= old(out)@ + spec_dec(n as nat));
        }
    }
}

/// Appends the rendering of a signed integer to `out`.
fn push_int(i: i64, out: &mut Vec<u8>)
    ensures
        final(out)@ == old(out)@ + spec_int_bytes(i as int),
{
    if i >= 0 {
        push_dec_u64(i as u64, out);
    } else {
        out.push(0x2d);
        let mag: u64 = ((-(i + 1)) as u64) + 1;
        assert(mag as nat == -(i as int) as nat);
        push_dec_u64(mag, out);
        proof {
            assert(final(out)@ =~= old(out)@ + spec_int_bytes(i as int));
        }
    }
}

/// Appends the JSON text of `j` to `out`.
pub fn write_value(j: &Json, out: &mut Vec<u8>)
    ensures
        final(out)@ == old(out)@ + spec_write(jv(*j)),
    decreases j, 0int,
{
    match j {
        Json::Null => {
            out.push(0x6e);
            out.push(0x75);
            out.push(0x6c);
            out.push(0x6c);
            proof {
                assert(final(out)@ =~= old(out)@ + spec_write(jv(*j)));
            }
        },
        Json::Bool(b) => {
            if *b {
                out.push(0x74);
                out.push(0x72);
                out.push(0x75);
                out.push(0x65);
            } else {
                out.push(0x66);
                out.push(0x61);
                out.push(0x6c);
                out.push(0x73);
                out.push(0x65);
            }
            proof {
                assert(final(out)@ =~= old(out)@ + spec_write(jv(*j)));
            }
        },
        Json::Int(i) => {
            push_int(*i, out);
        },
        Json::Num(n) => {
            let mut k: usize = 0;
            let len = n.len();
            while k < len
                invariant
                    k <= len,
                    len == n@.len(),
                    out@ == old(out)@ + n@.take(k as int),
                decreases len - k,
            {
                out.push(n[k]);
                proof {
                    assert(n@.take(k + 1) =~= n@.take(k as int).push(n@[k as int]));
                    assert(out@ =~= old(out)@ + n@.take(k + 1));
                }
                k = k + 1;
            }
            proof {
                assert(n@.take(len as int) =~= n@);
            }
        },
        Json::Str(s) => {
            write_string_lit(s, out);
        },
        Json::Arr(es) => {
            out.push(0x5b);
            write_arr_items(es, 0, out);
            out.push(0x5d);
            proof {
                lemma_list_from(es@, 0);
                assert(jv_list(es@).skip(0) =~= jv_list(es@));
                assert(final(out)@ =~= old(out)@ + spec_write(jv(*j)));
            }
        },
        Json::Obj(ms) => {
            out.push(0x7b);
            write_obj_members(ms, 0, out);
            out.push(0x7d);
            proof {
                lemma_members_from(ms@, 0);
                assert(jv_members(ms@).skip(0) =~= jv_members(ms@));
                assert(final(out)@ =~= old(out)@ + spec_write(jv(*j)));
            }
        },
    }
}

/// Appends the elements of `es` from index `i` on, comma separated.
fn write_arr_items(es: &Vec<Json>, i: usize, out: &mut Vec<u8>)
    requires
        i <= es@.len(),
    ensures
        final(out)@ == old(out)@ + spec_list_from(es@, i as int),
    decreases es, es@.len() - i,
{
    if i < es.len() {
        write_value(&es[i], out);
        if i + 1 < es.len() {
            out.push(0x2c);
            write_arr_items(es, i + 1, out);
            proof {
                assert(final(out)@ =~= old(out)@ + spec_list_from(es@, i as int));
            }
        } else {
            proof {
                assert(final(out)@ =~= old(out)@ + spec_list_from(es@, i as int));
            }
        }
    }
}

/// Appends the members of `ms` from index `i` on, comma separated.
fn write_obj_members(ms: &Vec<(Vec<u8>, Json)>, i: usize, out: &mut Vec<u8>)
    requires
        i <= ms@.len(),
    ensures
        final(out)@ == old(out)@ + spec_members_from(ms@, i as int),
    decreases ms, ms@.len() - i,
{
    if i < ms.len() {
        let m = &ms[i];
        write_string_lit(&m.0, out);
        out.push(0x3a);
        write_value(&m.1, out);
        if i + 1 < ms.len() {
            out.push(0x2c);
            write_obj_members(ms, i + 1, out);
            proof {
                assert(final(out)@ =~= old(out)@ + spec_members_from(ms@, i as int));
            }
        } else {
            proof {
                assert(final(out)@ =~= old(out)@ + spec_members_from(ms@, i as int));
            }
        }
    }
}

/// The JSON text of a document, without any whitespace.
pub fn write_json(j: &Json) -> (r: Vec<u8>)
    ensures
        r@ == spec_write(jv(*j)),
{
    let mut out: Vec<u8> = Vec::new();
    write_value(j, &mut out);
    out
}

} // verus!

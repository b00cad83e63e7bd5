//! Lemmas that connect each canonical encoding to what the decoder reads
//! from it: placed at the front of any byte stream, the encoding decodes to
//! the value it was built from and consumes exactly its own bytes.

use vstd::prelude::*;
use vstd::utf8::{encode_utf8, encode_utf8_decode_utf8, encode_utf8_valid_utf8, valid_utf8};

use crate::deserialize::{vi_ok, vi_rest, vi_val, vl_ok, vl_rest, vl_val};
use crate::varint::{
    lemma_varint_round_trip, lemma_varlong_round_trip, varint_len, varint_seq, varlong_len,
    varlong_seq,
};
use crate::wire::{
    be2, be4, be8, prefixed_bytes_wire, string_wire, uuid_wire, Uuid,
};

verus! {

/// A canonical varint at the front of a stream decodes to its value.
pub proof fn lemma_varint_layer(v: u32, rest: Seq<u8>)
    ensures
        vi_ok(varint_seq(v) + rest),
        vi_val(varint_seq(v) + rest) == v,
        vi_rest(varint_seq(v) + rest) == rest,
        varint_seq(v).len() == varint_len(v),
{
    lemma_varint_round_trip(v, rest);
    let s = varint_seq(v) + rest;
    assert(s.take(varint_seq(v).len() as int) == varint_seq(v));
    assert(vi_val(s) as nat == (v as nat) % 0x1_0000_0000);
}

/// A canonical varlong at the front of a stream decodes to its value.
pub proof fn lemma_varlong_layer(v: u64, rest: Seq<u8>)
    ensures
        vl_ok(varlong_seq(v) + rest),
        vl_val(varlong_seq(v) + rest) == v,
        vl_rest(varlong_seq(v) + rest) == rest,
        varlong_seq(v).len() == varlong_len(v),
{
    lemma_varlong_round_trip(v, rest);
    let s = varlong_seq(v) + rest;
    assert(s.take(varlong_seq(v).len() as int) == varlong_seq(v));
    assert(vl_val(s) as nat == (v as nat) % 0x1_0000_0000_0000_0000);
}

/// Big-endian bytes at the front of a stream decode to their value.
pub proof fn lemma_be2_layer(v: u16, rest: Seq<u8>)
    ensures
        (be2(v) + rest).len() == 2 + rest.len(),
        crate::wire::be2_value((be2(v) + rest).take(2)) == v,
        (be2(v) + rest).skip(2) == rest,
{
    crate::wire::lemma_be2_round_trip(v);
    assert((be2(v) + rest).take(2) =~= be2(v));
    assert((be2(v) + rest).skip(2) =~= rest);
}

pub proof fn lemma_be4_layer(v: u32, rest: Seq<u8>)
    ensures
        (be4(v) + rest).len() == 4 + rest.len(),
        crate::wire::be4_value((be4(v) + rest).take(4)) == v,
        (be4(v) + rest).skip(4) == rest,
{
    crate::wire::lemma_be4_round_trip(v);
    assert((be4(v) + rest).take(4) =~= be4(v));
    assert((be4(v) + rest).skip(4) =~= rest);
}

pub proof fn lemma_be8_layer(v: u64, rest: Seq<u8>)
    ensures
        (be8(v) + rest).len() == 8 + rest.len(),
        crate::wire::be8_value((be8(v) + rest).take(8)) == v,
        (be8(v) + rest).skip(8) == rest,
{
    crate::wire::lemma_be8_round_trip(v);
    assert((be8(v) + rest).take(8) =~= be8(v));
    assert((be8(v) + rest).skip(8) =~= rest);
}

/// UUID wire bytes decode to the same UUID.
pub proof fn lemma_uuid_layer(u: Uuid, rest: Seq<u8>)
    ensures
        (uuid_wire(u) + rest).len() == 16 + rest.len(),
        crate::wire::be8_value((uuid_wire(u) + rest).take(8)) == u.hi,
        crate::wire::be8_value((uuid_wire(u) + rest).skip(8).take(8)) == u.lo,
        (uuid_wire(u) + rest).skip(16) == rest,
{
    crate::wire::lemma_be8_round_trip(u.hi);
    crate::wire::lemma_be8_round_trip(u.lo);
    let s = uuid_wire(u) + rest;
    assert(s.take(8) =~= be8(u.hi));
    assert(s.skip(8).take(8) =~= be8(u.lo));
    assert(s.skip(16) =~= rest);
}

/// A canonical length-prefixed byte array at the front of a stream decodes
/// to its bytes and consumes exactly its own encoding.
pub proof fn lemma_prefixed_bytes_layer(b: Seq<u8>, rest: Seq<u8>)
    requires
        b.len() <= 0x7FFF_FFFF,
    ensures
        vi_ok(prefixed_bytes_wire(b) + rest),
        vi_val(prefixed_bytes_wire(b) + rest) == b.len(),
        vi_rest(prefixed_bytes_wire(b) + rest) == b + rest,
        (b + rest).take(b.len() as int) == b,
        (b + rest).skip(b.len() as int) == rest,
{
    lemma_varint_layer(b.len() as u32, b + rest);
    assert(prefixed_bytes_wire(b) + rest =~= varint_seq(b.len() as u32) + (b + rest));
    assert((b + rest).take(b.len() as int) =~= b);
    assert((b + rest).skip(b.len() as int) =~= rest);
}

/// A canonical string at the front of a stream decodes back to the same
/// character sequence, and only to it.
pub proof fn lemma_string_layer(chars: Seq<char>, rest: Seq<u8>)
    requires
        encode_utf8(chars).len() <= 0x7FFF_FFFF,
    ensures
        vi_ok(string_wire(chars) + rest),
        vi_val(string_wire(chars) + rest) == encode_utf8(chars).len(),
        vi_rest(string_wire(chars) + rest).take(encode_utf8(chars).len() as int) == encode_utf8(
            chars,
        ),
        vi_rest(string_wire(chars) + rest).len() >= encode_utf8(chars).len(),
        vi_rest(string_wire(chars) + rest).skip(encode_utf8(chars).len() as int) == rest,
        valid_utf8(encode_utf8(chars)),
{
    lemma_prefixed_bytes_layer(encode_utf8(chars), rest);
    assert(string_wire(chars) =~= prefixed_bytes_wire(encode_utf8(chars)));
    encode_utf8_valid_utf8(chars);
}

/// An ASCII string's UTF-8 encoding has one byte per character.
pub proof fn lemma_ascii_encode_len(s: Seq<char>)
    requires
        vstd::utf8::is_ascii_chars(s),
    ensures
        encode_utf8(s).len() == s.len(),
{
    vstd::utf8::is_ascii_chars_encode_utf8(s);
}

/// Two character sequences with the same UTF-8 bytes are the same sequence.
pub proof fn lemma_utf8_injective(a: Seq<char>, b: Seq<char>)
    requires
        encode_utf8(a) == encode_utf8(b),
    ensures
        a == b,
{
    encode_utf8_decode_utf8(a);
    encode_utf8_decode_utf8(b);
}

} // verus!

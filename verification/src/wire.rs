//! Byte-level model of the protocol's fixed-width primitives.
//!
//! All multibyte integers are big-endian on the wire. Floating-point fields
//! travel as their IEEE-754 bit patterns; this crate carries them as the raw
//! `u32`/`u64` bits throughout, so the codec below never touches a float.

use vstd::prelude::*;
use vstd::utf8::encode_utf8;

use crate::varint::varint_seq;

verus! {

/// The wire form of a string: varint byte count, then the UTF-8 bytes.
pub open spec fn string_wire(chars: Seq<char>) -> Seq<u8> {
    varint_seq(encode_utf8(chars).len() as u32) + encode_utf8(chars)
}

/// The wire form of a length-prefixed byte array.
pub open spec fn prefixed_bytes_wire(b: Seq<u8>) -> Seq<u8> {
    varint_seq(b.len() as u32) + b
}

/// Big-endian bytes of a 16-bit value.
pub open spec fn be2(v: u16) -> Seq<u8> {
    seq![(v / 0x100) as u8, (v % 0x100) as u8]
}

/// Big-endian bytes of a 32-bit value.
pub open spec fn be4(v: u32) -> Seq<u8> {
    seq![
        (v / 0x100_0000) as u8,
        ((v / 0x1_0000) % 0x100) as u8,
        ((v / 0x100) % 0x100) as u8,
        (v % 0x100) as u8,
    ]
}

/// Big-endian bytes of a 64-bit value.
pub open spec fn be8(v: u64) -> Seq<u8> {
    seq![
        (v / 0x100_0000_0000_0000) as u8,
        ((v / 0x1_0000_0000_0000) % 0x100) as u8,
        ((v / 0x100_0000_0000) % 0x100) as u8,
        ((v / 0x1_0000_0000) % 0x100) as u8,
        ((v / 0x100_0000) % 0x100) as u8,
        ((v / 0x1_0000) % 0x100) as u8,
        ((v / 0x100) % 0x100) as u8,
        (v % 0x100) as u8,
    ]
}

/// The value read back from two big-endian bytes.
pub open spec fn be2_value(s: Seq<u8>) -> nat {
    (s[0] as nat) * 0x100 + (s[1] as nat)
}

/// The value read back from four big-endian bytes.
pub open spec fn be4_value(s: Seq<u8>) -> nat {
    (s[0] as nat) * 0x100_0000 + (s[1] as nat) * 0x1_0000 + (s[2] as nat) * 0x100 + (s[3] as nat)
}

/// The value read back from eight big-endian bytes.
pub open spec fn be8_value(s: Seq<u8>) -> nat {
    (s[0] as nat) * 0x100_0000_0000_0000 + (s[1] as nat) * 0x1_0000_0000_0000 + (s[2] as nat)
        * 0x100_0000_0000 + (s[3] as nat) * 0x1_0000_0000 + (s[4] as nat) * 0x100_0000 + (
    s[5] as nat) * 0x1_0000 + (s[6] as nat) * 0x100 + (s[7] as nat)
}

pub proof fn lemma_be2_round_trip(v: u16)
    ensures
        be2(v).len() == 2,
        be2_value(be2(v)) == v,
{
    assert((v / 0x100) as nat * 0x100 + (v % 0x100) as nat == v) by (nonlinear_arith);
}

pub proof fn lemma_be4_round_trip(v: u32)
    ensures
        be4(v).len() == 4,
        be4_value(be4(v)) == v,
{
    assert((v / 0x100_0000) as nat * 0x100_0000 + ((v / 0x1_0000) % 0x100) as nat * 0x1_0000 + ((v
        / 0x100) % 0x100) as nat * 0x100 + (v % 0x100) as nat == v) by (bit_vector);
}

pub proof fn lemma_be8_round_trip(v: u64)
    ensures
        be8(v).len() == 8,
        be8_value(be8(v)) == v,
{
    assert((v / 0x100_0000_0000_0000) as nat * 0x100_0000_0000_0000 + ((v / 0x1_0000_0000_0000)
        % 0x100) as nat * 0x1_0000_0000_0000 + ((v / 0x100_0000_0000) % 0x100) as nat
        * 0x100_0000_0000 + ((v / 0x1_0000_0000) % 0x100) as nat * 0x1_0000_0000 + ((v / 0x100_0000)
        % 0x100) as nat * 0x100_0000 + ((v / 0x1_0000) % 0x100) as nat * 0x1_0000 + ((v / 0x100)
        % 0x100) as nat * 0x100 + (v % 0x100) as nat == v) by (bit_vector);
}

/// The single byte that encodes a boolean.
pub open spec fn bool_byte(b: bool) -> u8 {
    if b {
        1
    } else {
        0
    }
}

/// A 128-bit UUID, stored as its most- and least-significant 64 bits.
/// On the wire it is 16 raw bytes, big-endian.
#[derive(Clone, Copy, Debug, PartialEq, Eq, Structural)]
pub struct Uuid {
    pub hi: u64,
    pub lo: u64,
}

/// The 16 wire bytes of a UUID.
pub open spec fn uuid_wire(u: Uuid) -> Seq<u8> {
    be8(u.hi) + be8(u.lo)
}

} // verus!

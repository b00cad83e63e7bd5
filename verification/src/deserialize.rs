//! The packet deserializer: a cursor over one framed packet body.
//!
//! Every `deserialize_*` method either consumes a prefix of the remaining
//! bytes and returns the decoded value, or fails with a `deserialize::Error`.
//! The contracts say exactly which, as a function of the bytes.

use vstd::prelude::*;
use vstd::utf8::{encode_utf8, valid_utf8};

use crate::state::State;
use crate::varint::{leb_term_index, leb_value};
use crate::wire::{be2_value, be4_value, be8_value, Uuid};

verus! {

/// Why a packet failed to decode.
#[derive(Debug, PartialEq, Eq)]
pub enum Error {
    /// Too few bytes for the value being read.
    EndOfPacket,
    /// `finish` was called with bytes still unread.
    BytesRemaining,
    /// A varint ran to a fifth byte with the continuation bit still set.
    VarintTooLong,
    /// A varlong ran to a tenth byte with the continuation bit still set.
    VarlongTooLong,
    /// The packet id is not assigned in this phase (serverbound).
    InvalidPacketId { state: State, packet_id: i32 },
    /// A field's numeric value names no variant of its enum.
    InvalidEnumVariant { enum_name: &'static str, value: i32 },
    /// A string field's bytes are not valid UTF-8.
    Utf8Error,
}

/// A varint decodes from `s` when a byte without the continuation bit
/// appears among the first five bytes.
pub open spec fn vi_ok(s: Seq<u8>) -> bool {
    leb_term_index(s) < s.len() && leb_term_index(s) <= 4
}

/// The 32-bit value a varint decoder yields on `s`.
pub open spec fn vi_val(s: Seq<u8>) -> u32 {
    (leb_value(s.take(leb_term_index(s) + 1)) % 0x1_0000_0000) as u32
}

/// What follows the varint.
pub open spec fn vi_rest(s: Seq<u8>) -> Seq<u8> {
    s.skip(leb_term_index(s) + 1)
}

/// The error a varint decoder reports on `s` when `!vi_ok(s)`.
pub open spec fn vi_err(s: Seq<u8>) -> Error {
    if s.len() >= 5 && leb_term_index(s) >= 5 {
        Error::VarintTooLong
    } else {
        Error::EndOfPacket
    }
}

/// A varlong decodes from `s` when a byte without the continuation bit
/// appears among the first ten bytes.
pub open spec fn vl_ok(s: Seq<u8>) -> bool {
    leb_term_index(s) < s.len() && leb_term_index(s) <= 9
}

/// The 64-bit value a varlong decoder yields on `s`.
pub open spec fn vl_val(s: Seq<u8>) -> u64 {
    (leb_value(s.take(leb_term_index(s) + 1)) % 0x1_0000_0000_0000_0000) as u64
}

/// What follows the varlong.
pub open spec fn vl_rest(s: Seq<u8>) -> Seq<u8> {
    s.skip(leb_term_index(s) + 1)
}

/// The error a varlong decoder reports on `s` when `!vl_ok(s)`.
pub open spec fn vl_err(s: Seq<u8>) -> Error {
    if s.len() >= 10 && leb_term_index(s) >= 10 {
        Error::VarlongTooLong
    } else {
        Error::EndOfPacket
    }
}

/// Relies on `String::from_utf8`: it succeeds exactly on valid UTF-8, and
/// the resulting string's bytes are the input bytes.
#[verifier::external_body]
fn string_from_utf8(bytes: Vec<u8>) -> (r: Result<String, Error>)
    ensures
        r matches Ok(st) ==> valid_utf8(bytes@) && encode_utf8(st@) == bytes@,
        r matches Err(e) ==> !valid_utf8(bytes@) && e == Error::Utf8Error,
{
    match String::from_utf8(bytes) {
        Ok(st) => Ok(st),
        Err(_) => Err(Error::Utf8Error),
    }
}

/// Cursor over the bytes of one packet body.
pub struct Deserializer {
    bytes: Vec<u8>,
    pos: usize,
}

impl Deserializer {
    pub closed spec fn wf(&self) -> bool {
        self.pos <= self.bytes@.len()
    }

    /// The bytes not yet consumed.
    pub closed spec fn remaining(&self) -> Seq<u8> {
        self.bytes@.skip(self.pos as int)
    }

    pub fn new(bytes: Vec<u8>) -> (d: Deserializer)
        ensures
            d.wf(),
            d.remaining() == bytes@,
    {
        let d = Deserializer { bytes, pos: 0 };
        proof {
            assert(d.remaining() =~= d.bytes@);
        }
        d
    }

    /// How many bytes are left unread.
    pub fn remaining_len(&self) -> (r: usize)
        requires
            self.wf(),
        ensures
            r == self.remaining().len(),
    {
        self.bytes.len() - self.pos
    }

    /// Checks the "all bytes consumed" invariant.
    pub fn finish(&mut self) -> (r: Result<(), Error>)
        requires
            old(self).wf(),
        ensures
            final(self).wf(),
            final(self).remaining() == old(self).remaining(),
            old(self).remaining().len() == 0 ==> r == Ok::<(), Error>(()),
            old(self).remaining().len() != 0 ==> r == Err::<(), Error>(Error::BytesRemaining),
    {
        if self.pos == self.bytes.len() {
            Ok(())
        } else {
            Err(Error::BytesRemaining)
        }
    }

    /// Explicit opt-out of the `finish` invariant: hands out whatever is
    /// left, for packets that end in an opaque payload.
    pub fn take_remaining(&mut self) -> (r: Vec<u8>)
        requires
            old(self).wf(),
        ensures
            final(self).wf(),
            r@ == old(self).remaining(),
            final(self).remaining().len() == 0,
    {
        let n = self.bytes.len() - self.pos;
        let r = self.read_bytes_exact(n);
        proof {
            assert(old(self).remaining().take(n as int) =~= old(self).remaining());
        }
        r
    }

    /// Reads `n` bytes, which the caller has checked are there.
    fn read_bytes_exact(&mut self, n: usize) -> (r: Vec<u8>)
        requires
            old(self).wf(),
            n <= old(self).remaining().len(),
        ensures
            final(self).wf(),
            r@ == old(self).remaining().take(n as int),
            final(self).remaining() == old(self).remaining().skip(n as int),
    {
        let len: usize = self.bytes.len();
        let mut r: Vec<u8> = Vec::new();
        let mut i: usize = 0;
        while i < n
            invariant
                old(self).wf(),
                self.wf(),
                self.bytes@ == old(self).bytes@,
                self.bytes@.len() == len,
                i <= n,
                n <= old(self).remaining().len(),
                old(self).pos + n <= len,
                self.pos == old(self).pos + i,
                r@ == old(self).remaining().take(i as int),
            decreases n - i,
        {
            proof {
                assert(old(self).remaining()[i as int] == self.bytes@[self.pos as int]);
            }
            r.push(self.bytes[self.pos]);
            self.pos = self.pos + 1;
            i = i + 1;
            proof {
                assert(r@ =~= old(self).remaining().take(i as int));
            }
        }
        proof {
            assert(final(self).remaining() =~= old(self).remaining().skip(n as int));
        }
        r
    }

    pub fn deserialize_ubyte(&mut self) -> (r: Result<u8, Error>)
        requires
            old(self).wf(),
        ensures
            final(self).wf(),
            old(self).remaining().len() == 0 ==> r == Err::<u8, Error>(Error::EndOfPacket)
                && final(self).remaining() == old(self).remaining(),
            old(self).remaining().len() > 0 ==> r == Ok::<u8, Error>(old(self).remaining()[0])
                && final(self).remaining() == old(self).remaining().skip(1),
    {
        if self.pos < self.bytes.len() {
            let b = self.bytes[self.pos];
            self.pos = self.pos + 1;
            proof {
                assert(final(self).remaining() =~= old(self).remaining().skip(1));
            }
            Ok(b)
        } else {
            Err(Error::EndOfPacket)
        }
    }

    pub fn deserialize_byte(&mut self) -> (r: Result<i8, Error>)
        requires
            old(self).wf(),
        ensures
            final(self).wf(),
            old(self).remaining().len() == 0 ==> r == Err::<i8, Error>(Error::EndOfPacket)
                && final(self).remaining() == old(self).remaining(),
            old(self).remaining().len() > 0 ==> (r matches Ok(v) && v as u8 == old(
                self,
            ).remaining()[0]) && final(self).remaining() == old(self).remaining().skip(1),
    {
        match self.deserialize_ubyte() {
            Ok(b) => {
                let v: i8 = #[verifier::truncate] (b as i8);
                assert(v as u8 == b) by (bit_vector)
                    requires v == b as i8,
                ;
                Ok(v)
            },
            Err(e) => Err(e),
        }
    }

    /// Any nonzero byte decodes as true.
    pub fn deserialize_boolean(&mut self) -> (r: Result<bool, Error>)
        requires
            old(self).wf(),
        ensures
            final(self).wf(),
            old(self).remaining().len() == 0 ==> r == Err::<bool, Error>(Error::EndOfPacket)
                && final(self).remaining() == old(self).remaining(),
            old(self).remaining().len() > 0 ==> r == Ok::<bool, Error>(
                old(self).remaining()[0] != 0,
            ) && final(self).remaining() == old(self).remaining().skip(1),
    {
        match self.deserialize_ubyte() {
            Ok(b) => Ok(b != 0),
            Err(e) => Err(e),
        }
    }

    pub fn deserialize_ushort(&mut self) -> (r: Result<u16, Error>)
        requires
            old(self).wf(),
        ensures
            final(self).wf(),
            old(self).remaining().len() < 2 ==> r == Err::<u16, Error>(Error::EndOfPacket)
                && final(self).remaining() == old(self).remaining(),
            old(self).remaining().len() >= 2 ==> (r matches Ok(v) && v as nat == be2_value(
                old(self).remaining().take(2),
            )) && final(self).remaining() == old(self).remaining().skip(2),
    {
        if self.bytes.len() - self.pos >= 2 {
            let b0 = self.bytes[self.pos];
            let b1 = self.bytes[self.pos + 1];
            self.pos = self.pos + 2;
            let v: u16 = (b0 as u16) * 0x100 + (b1 as u16);
            proof {
                assert(old(self).remaining()[0] == b0);
                assert(old(self).remaining()[1] == b1);
                assert(final(self).remaining() =~= old(self).remaining().skip(2));
            }
            Ok(v)
        } else {
            Err(Error::EndOfPacket)
        }
    }

    pub fn deserialize_short(&mut self) -> (r: Result<i16, Error>)
        requires
            old(self).wf(),
        ensures
            final(self).wf(),
            old(self).remaining().len() < 2 ==> r == Err::<i16, Error>(Error::EndOfPacket)
                && final(self).remaining() == old(self).remaining(),
            old(self).remaining().len() >= 2 ==> (r matches Ok(v) && (v as u16) as nat
                == be2_value(old(self).remaining().take(2))) && final(self).remaining() == old(
                self,
            ).remaining().skip(2),
    {
        match self.deserialize_ushort() {
            Ok(u) => {
                let v: i16 = #[verifier::truncate] (u as i16);
                assert(v as u16 == u) by (bit_vector)
                    requires v == u as i16,
                ;
                Ok(v)
            },
            Err(e) => Err(e),
        }
    }

    pub fn deserialize_uint(&mut self) -> (r: Result<u32, Error>)
        requires
            old(self).wf(),
        ensures
            final(self).wf(),
            old(self).remaining().len() < 4 ==> r == Err::<u32, Error>(Error::EndOfPacket)
                && final(self).remaining() == old(self).remaining(),
            old(self).remaining().len() >= 4 ==> (r matches Ok(v) && v as nat == be4_value(
                old(self).remaining().take(4),
            )) && final(self).remaining() == old(self).remaining().skip(4),
    {
        if self.bytes.len() - self.pos >= 4 {
            let b0 = self.bytes[self.pos];
            let b1 = self.bytes[self.pos + 1];
            let b2 = self.bytes[self.pos + 2];
            let b3 = self.bytes[self.pos + 3];
            self.pos = self.pos + 4;
            let v: u32 = (b0 as u32) * 0x100_0000 + (b1 as u32) * 0x1_0000 + (b2 as u32) * 0x100 + (
            b3 as u32);
            proof {
                assert(old(self).remaining()[0] == b0);
                assert(old(self).remaining()[1] == b1);
                assert(old(self).remaining()[2] == b2);
                assert(old(self).remaining()[3] == b3);
                assert(final(self).remaining() =~= old(self).remaining().skip(4));
            }
            Ok(v)
        } else {
            Err(Error::EndOfPacket)
        }
    }

    pub fn deserialize_int(&mut self) -> (r: Result<i32, Error>)
        requires
            old(self).wf(),
        ensures
            final(self).wf(),
            old(self).remaining().len() < 4 ==> r == Err::<i32, Error>(Error::EndOfPacket)
                && final(self).remaining() == old(self).remaining(),
            old(self).remaining().len() >= 4 ==> (r matches Ok(v) && (v as u32) as nat
                == be4_value(old(self).remaining().take(4))) && final(self).remaining() == old(
                self,
            ).remaining().skip(4),
    {
        match self.deserialize_uint() {
            Ok(u) => {
                let v: i32 = #[verifier::truncate] (u as i32);
                assert(v as u32 == u) by (bit_vector)
                    requires v == u as i32,
                ;
                Ok(v)
            },
            Err(e) => Err(e),
        }
    }

    pub fn deserialize_ulong(&mut self) -> (r: Result<u64, Error>)
        requires
            old(self).wf(),
        ensures
            final(self).wf(),
            old(self).remaining().len() < 8 ==> r == Err::<u64, Error>(Error::EndOfPacket)
                && final(self).remaining() == old(self).remaining(),
            old(self).remaining().len() >= 8 ==> (r matches Ok(v) && v as nat == be8_value(
                old(self).remaining().take(8),
            )) && final(self).remaining() == old(self).remaining().skip(8),
    {
        if self.bytes.len() - self.pos >= 8 {
            let b0 = self.bytes[self.pos];
            let b1 = self.bytes[self.pos + 1];
            let b2 = self.bytes[self.pos + 2];
            let b3 = self.bytes[self.pos + 3];
            let b4 = self.bytes[self.pos + 4];
            let b5 = self.bytes[self.pos + 5];
            let b6 = self.bytes[self.pos + 6];
            let b7 = self.bytes[self.pos + 7];
            self.pos = self.pos + 8;
            let v: u64 = (b0 as u64) * 0x100_0000_0000_0000 + (b1 as u64) * 0x1_0000_0000_0000 + (
            b2 as u64) * 0x100_0000_0000 + (b3 as u64) * 0x1_0000_0000 + (b4 as u64) * 0x100_0000
                + (b5 as u64) * 0x1_0000 + (b6 as u64) * 0x100 + (b7 as u64);
            proof {
                assert(old(self).remaining()[0] == b0);
                assert(old(self).remaining()[1] == b1);
                assert(old(self).remaining()[2] == b2);
                assert(old(self).remaining()[3] == b3);
                assert(old(self).remaining()[4] == b4);
                assert(old(self).remaining()[5] == b5);
                assert(old(self).remaining()[6] == b6);
                assert(old(self).remaining()[7] == b7);
                assert(final(self).remaining() =~= old(self).remaining().skip(8));
            }
            Ok(v)
        } else {
            Err(Error::EndOfPacket)
        }
    }

    pub fn deserialize_long(&mut self) -> (r: Result<i64, Error>)
        requires
            old(self).wf(),
        ensures
            final(self).wf(),
            old(self).remaining().len() < 8 ==> r == Err::<i64, Error>(Error::EndOfPacket)
                && final(self).remaining() == old(self).remaining(),
            old(self).remaining().len() >= 8 ==> (r matches Ok(v) && (v as u64) as nat
                == be8_value(old(self).remaining().take(8))) && final(self).remaining() == old(
                self,
            ).remaining().skip(8),
    {
        match self.deserialize_ulong() {
            Ok(u) => {
                let v: i64 = #[verifier::truncate] (u as i64);
                assert(v as u64 == u) by (bit_vector)
                    requires v == u as i64,
                ;
                Ok(v)
            },
            Err(e) => Err(e),
        }
    }

    /// A 32-bit float field, handed over as its IEEE-754 bits.
    pub fn deserialize_float_bits(&mut self) -> (r: Result<u32, Error>)
        requires
            old(self).wf(),
        ensures
            final(self).wf(),
            old(self).remaining().len() < 4 ==> r == Err::<u32, Error>(Error::EndOfPacket)
                && final(self).remaining() == old(self).remaining(),
            old(self).remaining().len() >= 4 ==> (r matches Ok(v) && v as nat == be4_value(
                old(self).remaining().take(4),
            )) && final(self).remaining() == old(self).remaining().skip(4),
    {
        self.deserialize_uint()
    }

    /// A 64-bit float field, handed over as its IEEE-754 bits.
    pub fn deserialize_double_bits(&mut self) -> (r: Result<u64, Error>)
        requires
            old(self).wf(),
        ensures
            final(self).wf(),
            old(self).remaining().len() < 8 ==> r == Err::<u64, Error>(Error::EndOfPacket)
                && final(self).remaining() == old(self).remaining(),
            old(self).remaining().len() >= 8 ==> (r matches Ok(v) && v as nat == be8_value(
                old(self).remaining().take(8),
            )) && final(self).remaining() == old(self).remaining().skip(8),
    {
        self.deserialize_ulong()
    }

    /// Reads LEB128 groups until a byte without the continuation bit, for at
    /// most `left` more bytes, and returns their value modulo 2^64.
    fn leb_read(&mut self, left: u8, too_long: Error) -> (r: Result<u64, Error>)
        requires
            old(self).wf(),
            1 <= left <= 10,
        ensures
            final(self).wf(),
            ({
                let s = old(self).remaining();
                let ti = leb_term_index(s);
                &&& (ti < s.len() && ti < left) ==> (r matches Ok(v) && v as nat == leb_value(
                    s.take(ti + 1),
                ) % 0x1_0000_0000_0000_0000 && final(self).remaining() == s.skip(ti + 1))
                &&& (ti >= left && s.len() >= left) ==> r == Err::<u64, Error>(too_long)
                &&& (ti >= s.len() && s.len() < left) ==> r == Err::<u64, Error>(Error::EndOfPacket)
            }),
        decreases left,
    {
        let ghost s = old(self).remaining();
        proof {
            crate::varint::lemma_leb_term_index_range(s);
        }
        let b = match self.deserialize_ubyte() {
            Ok(b) => b,
            Err(e) => {
                return Err(e);
            },
        };
        if b < 0x80 {
            proof {
                assert(leb_term_index(s) == 0);
                let p = s.take(1);
                assert(p[0] == b);
                assert(leb_value(p) == (p[0] % 0x80) as nat + 0x80 * leb_value(p.skip(1)));
                assert(p.skip(1) =~= Seq::<u8>::empty());
                assert(leb_value(p) == b as nat);
                assert(final(self).remaining() =~= s.skip(1));
            }
            Ok(b as u64)
        } else if left == 1 {
            Err(too_long)
        } else {
            proof {
                assert(leb_term_index(s) == 1 + leb_term_index(s.skip(1)));
            }
            let tail = match self.leb_read(left - 1, too_long) {
                Ok(v) => v,
                Err(e) => {
                    return Err(e);
                },
            };
            let t: u128 = (b % 0x80) as u128 + 0x80u128 * (tail as u128);
            let v: u64 = (t % 0x1_0000_0000_0000_0000u128) as u64;
            proof {
                let ti = leb_term_index(s);
                let s1 = s.skip(1);
                let ti1 = leb_term_index(s1);
                crate::varint::lemma_leb_term_index_range(s1);
                if ti < s.len() && ti < left {
                    let p = s.take(ti + 1);
                    assert(p[0] == b);
                    assert(p.skip(1) =~= s1.take(ti1 + 1));
                    assert(leb_value(p) == (b % 0x80) as nat + 0x80 * leb_value(s1.take(ti1 + 1)));
                    crate::varint::lemma_leb_mod_step(
                        (b % 0x80) as nat,
                        leb_value(s1.take(ti1 + 1)),
                        0x1_0000_0000_0000_0000,
                    );
                    assert(v as nat == ((b % 0x80) as nat + 0x80 * (leb_value(s1.take(ti1 + 1))
                        % 0x1_0000_0000_0000_0000)) % 0x1_0000_0000_0000_0000);
                    assert(v as nat == leb_value(p) % 0x1_0000_0000_0000_0000);
                    assert(s1.skip(ti1 + 1) =~= s.skip(ti + 1));
                }
            }
            Ok(v)
        }
    }

    pub fn deserialize_varint(&mut self) -> (r: Result<i32, Error>)
        requires
            old(self).wf(),
        ensures
            final(self).wf(),
            ({
                let s = old(self).remaining();
                &&& vi_ok(s) ==> (r matches Ok(v) && v as u32 == vi_val(s)
                    && final(self).remaining() == vi_rest(s))
                &&& !vi_ok(s) ==> r == Err::<i32, Error>(vi_err(s))
            }),
    {
        let ghost s = old(self).remaining();
        proof {
            crate::varint::lemma_leb_term_index_range(s);
        }
        match self.leb_read(5, Error::VarintTooLong) {
            Ok(v64) => {
                let v: u32 = (v64 % 0x1_0000_0000u64) as u32;
                let r: i32 = #[verifier::truncate] (v as i32);
                proof {
                    let ti = leb_term_index(s);
                    let w = leb_value(s.take(ti + 1));
                    assert(v64 as nat == w % 0x1_0000_0000_0000_0000);
                    assert(v as nat == (w % 0x1_0000_0000_0000_0000) % 0x1_0000_0000);
                    assert((w % 0x1_0000_0000_0000_0000) % 0x1_0000_0000 == w % 0x1_0000_0000)
                        by (nonlinear_arith);
                    assert(r as u32 == v) by (bit_vector)
                        requires
                            r == v as i32,
                    ;
                }
                Ok(r)
            },
            Err(e) => Err(e),
        }
    }

    pub fn deserialize_varlong(&mut self) -> (r: Result<i64, Error>)
        requires
            old(self).wf(),
        ensures
            final(self).wf(),
            ({
                let s = old(self).remaining();
                &&& vl_ok(s) ==> (r matches Ok(v) && v as u64 == vl_val(s)
                    && final(self).remaining() == vl_rest(s))
                &&& !vl_ok(s) ==> r == Err::<i64, Error>(vl_err(s))
            }),
    {
        let ghost s = old(self).remaining();
        proof {
            crate::varint::lemma_leb_term_index_range(s);
        }
        match self.leb_read(10, Error::VarlongTooLong) {
            Ok(v64) => {
                let r: i64 = #[verifier::truncate] (v64 as i64);
                proof {
                    assert(r as u64 == v64) by (bit_vector)
                        requires
                            r == v64 as i64,
                    ;
                }
                Ok(r)
            },
            Err(e) => Err(e),
        }
    }

    /// Varint byte count, then that many raw bytes.
    pub fn deserialize_prefixed_byte_array(&mut self) -> (r: Result<Vec<u8>, Error>)
        requires
            old(self).wf(),
        ensures
            final(self).wf(),
            ({
                let s = old(self).remaining();
                &&& !vi_ok(s) ==> r == Err::<Vec<u8>, Error>(vi_err(s))
                &&& (vi_ok(s) && (vi_val(s) > 0x7FFF_FFFF || vi_rest(s).len() < vi_val(s)))
                    ==> r == Err::<Vec<u8>, Error>(Error::EndOfPacket)
                &&& (vi_ok(s) && vi_val(s) <= 0x7FFF_FFFF && vi_rest(s).len() >= vi_val(s)) ==> (
                r matches Ok(b) && b@ == vi_rest(s).take(vi_val(s) as int)
                    && final(self).remaining() == vi_rest(s).skip(vi_val(s) as int))
            }),
    {
        let l = match self.deserialize_varint() {
            Ok(l) => l,
            Err(e) => {
                return Err(e);
            },
        };
        if l < 0 {
            proof {
                assert(l as u32 >= 0x8000_0000) by (bit_vector)
                    requires l < 0,
                ;
            }
            return Err(Error::EndOfPacket);
        }
        let n = l as usize;
        if self.bytes.len() - self.pos < n {
            return Err(Error::EndOfPacket);
        }
        Ok(self.read_bytes_exact(n))
    }

    /// Varint byte count, then that many bytes of UTF-8.
    pub fn deserialize_string(&mut self) -> (r: Result<String, Error>)
        requires
            old(self).wf(),
        ensures
            final(self).wf(),
            ({
                let s = old(self).remaining();
                &&& !vi_ok(s) ==> r == Err::<String, Error>(vi_err(s))
                &&& (vi_ok(s) && (vi_val(s) > 0x7FFF_FFFF || vi_rest(s).len() < vi_val(s)))
                    ==> r == Err::<String, Error>(Error::EndOfPacket)
                &&& (vi_ok(s) && vi_val(s) <= 0x7FFF_FFFF && vi_rest(s).len() >= vi_val(s)) ==> ({
                    let data = vi_rest(s).take(vi_val(s) as int);
                    &&& valid_utf8(data) ==> (r matches Ok(st) && encode_utf8(st@) == data
                        && final(self).remaining() == vi_rest(s).skip(vi_val(s) as int))
                    &&& !valid_utf8(data) ==> r == Err::<String, Error>(Error::Utf8Error)
                })
            }),
    {
        let bytes = match self.deserialize_prefixed_byte_array() {
            Ok(b) => b,
            Err(e) => {
                return Err(e);
            },
        };
        string_from_utf8(bytes)
    }

    pub fn deserialize_uuid(&mut self) -> (r: Result<Uuid, Error>)
        requires
            old(self).wf(),
        ensures
            final(self).wf(),
            old(self).remaining().len() < 16 ==> r == Err::<Uuid, Error>(Error::EndOfPacket),
            old(self).remaining().len() >= 16 ==> (r matches Ok(u) && u.hi as nat == be8_value(
                old(self).remaining().take(8),
            ) && u.lo as nat == be8_value(old(self).remaining().skip(8).take(8)))
                && final(self).remaining() == old(self).remaining().skip(16),
    {
        if self.bytes.len() - self.pos >= 16 {
            let hi = match self.deserialize_ulong() {
                Ok(v) => v,
                Err(e) => {
                    return Err(e);
                },
            };
            let lo = match self.deserialize_ulong() {
                Ok(v) => v,
                Err(e) => {
                    return Err(e);
                },
            };
            proof {
                assert(old(self).remaining().skip(8).take(8) =~= old(self).remaining().skip(
                    8,
                ).take(8));
                assert(final(self).remaining() =~= old(self).remaining().skip(16));
            }
            Ok(Uuid { hi, lo })
        } else {
            Err(Error::EndOfPacket)
        }
    }
}

} // verus!

//! The append-only packet serializer.
//!
//! A `Serializer` owns a byte buffer; every `serialize_*` method appends the
//! wire encoding of one primitive, and `finish` hands the buffer back. The
//! contracts state the exact bytes appended, in terms of the spec functions
//! of `wire` and `varint`.

use vstd::prelude::*;
use vstd::string::StringSliceAdditionalSpecFns;

use crate::varint::{varint_seq, varlong_seq};
use crate::wire::{be2, be4, be8, bool_byte, uuid_wire, Uuid};

verus! {

/// A value with a fixed wire encoding.
pub trait Serialize {
    /// Inputs on which the encoding is defined (lengths that fit the
    /// format's prefixes, and nothing else).
    spec fn wf(&self) -> bool;

    /// The exact bytes this value serializes to.
    spec fn wire(&self) -> Seq<u8>;

    fn serialize(&self, s: &mut Serializer)
        requires
            self.wf(),
        ensures
            final(s)@ == old(s)@ + self.wire(),
    ;
}

/// Concatenation of the wire encodings of a sequence of values.
pub open spec fn wire_concat<T: Serialize>(items: Seq<T>) -> Seq<u8>
    decreases items.len(),
{
    if items.len() == 0 {
        Seq::empty()
    } else {
        items[0].wire() + wire_concat(items.skip(1))
    }
}

pub proof fn lemma_wire_concat_snoc<T: Serialize>(items: Seq<T>, i: int)
    requires
        0 <= i < items.len(),
    ensures
        wire_concat(items.take(i + 1)) == wire_concat(items.take(i)) + items[i].wire(),
    decreases i,
{
    let a = items.take(i + 1);
    let b = items.take(i);
    if i == 0 {
        assert(a.skip(1) =~= Seq::<T>::empty());
        assert(b =~= Seq::<T>::empty());
        assert(wire_concat(a) == a[0].wire() + wire_concat(a.skip(1)));
        assert(wire_concat(a) =~= a[0].wire());
        assert(wire_concat(b) + items[0].wire() =~= items[0].wire());
    } else {
        lemma_wire_concat_snoc(items.skip(1), i - 1);
        assert(a.skip(1) =~= items.skip(1).take(i));
        assert(b.skip(1) =~= items.skip(1).take(i - 1));
        assert(items.skip(1)[i - 1] == items[i]);
        assert(wire_concat(a) == a[0].wire() + wire_concat(items.skip(1).take(i)));
        assert(wire_concat(b) == b[0].wire() + wire_concat(items.skip(1).take(i - 1)));
        assert(wire_concat(a) =~= wire_concat(b) + items[i].wire());
    }
}

/// Peeling one item off the front of a concatenation of encodings.
pub proof fn lemma_wire_concat_unfold<T: Serialize>(items: Seq<T>, i: int)
    requires
        0 <= i < items.len(),
    ensures
        wire_concat(items.skip(i)) == items[i].wire() + wire_concat(items.skip(i + 1)),
{
    assert(items.skip(i)[0] == items[i]);
    assert(items.skip(i).skip(1) =~= items.skip(i + 1));
    assert(wire_concat(items.skip(i)) == items.skip(i)[0].wire() + wire_concat(
        items.skip(i).skip(1),
    ));
}

/// Append-only serializer over an internal byte buffer. Pure: no I/O.
pub struct Serializer {
    buf: Vec<u8>,
}

impl View for Serializer {
    type V = Seq<u8>;

    closed spec fn view(&self) -> Seq<u8> {
        self.buf@
    }
}

impl Serializer {
    pub fn new() -> (s: Serializer)
        ensures
            s@ == Seq::<u8>::empty(),
    {
        Serializer { buf: Vec::new() }
    }

    pub fn finish(self) -> (r: Vec<u8>)
        ensures
            r@ == self@,
    {
        self.buf
    }

    pub fn serialize_boolean(&mut self, value: bool)
        ensures
            final(self)@ == old(self)@ + seq![bool_byte(value)],
    {
        self.buf.push(if value {
            1
        } else {
            0
        });
    }

    pub fn serialize_byte(&mut self, value: i8)
        ensures
            final(self)@ == old(self)@ + seq![value as u8],
    {
        self.buf.push(value as u8);
    }

    pub fn serialize_ubyte(&mut self, value: u8)
        ensures
            final(self)@ == old(self)@ + seq![value],
    {
        self.buf.push(value);
    }

    pub fn serialize_ushort(&mut self, value: u16)
        ensures
            final(self)@ == old(self)@ + be2(value),
    {
        self.buf.push((value / 0x100) as u8);
        self.buf.push((value % 0x100) as u8);
        assert(self@ =~= old(self)@ + be2(value));
    }

    pub fn serialize_short(&mut self, value: i16)
        ensures
            final(self)@ == old(self)@ + be2(value as u16),
    {
        self.serialize_ushort(value as u16);
    }

    pub fn serialize_uint(&mut self, value: u32)
        ensures
            final(self)@ == old(self)@ + be4(value),
    {
        self.buf.push((value / 0x100_0000) as u8);
        self.buf.push(((value / 0x1_0000) % 0x100) as u8);
        self.buf.push(((value / 0x100) % 0x100) as u8);
        self.buf.push((value % 0x100) as u8);
        assert(self@ =~= old(self)@ + be4(value));
    }

    pub fn serialize_int(&mut self, value: i32)
        ensures
            final(self)@ == old(self)@ + be4(value as u32),
    {
        self.serialize_uint(value as u32);
    }

    pub fn serialize_ulong(&mut self, value: u64)
        ensures
            final(self)@ == old(self)@ + be8(value),
    {
        self.buf.push((value / 0x100_0000_0000_0000) as u8);
        self.buf.push(((value / 0x1_0000_0000_0000) % 0x100) as u8);
        self.buf.push(((value / 0x100_0000_0000) % 0x100) as u8);
        self.buf.push(((value / 0x1_0000_0000) % 0x100) as u8);
        self.buf.push(((value / 0x100_0000) % 0x100) as u8);
        self.buf.push(((value / 0x1_0000) % 0x100) as u8);
        self.buf.push(((value / 0x100) % 0x100) as u8);
        self.buf.push((value % 0x100) as u8);
        assert(self@ =~= old(self)@ + be8(value));
    }

    pub fn serialize_long(&mut self, value: i64)
        ensures
            final(self)@ == old(self)@ + be8(value as u64),
    {
        self.serialize_ulong(value as u64);
    }

    /// A 32-bit float, handed over as its IEEE-754 bits.
    pub fn serialize_float_bits(&mut self, bits: u32)
        ensures
            final(self)@ == old(self)@ + be4(bits),
    {
        self.serialize_uint(bits);
    }

    /// A 64-bit float, handed over as its IEEE-754 bits.
    pub fn serialize_double_bits(&mut self, bits: u64)
        ensures
            final(self)@ == old(self)@ + be8(bits),
    {
        self.serialize_ulong(bits);
    }

    pub fn serialize_varint(&mut self, value: i32)
        ensures
            final(self)@ == old(self)@ + varint_seq(value as u32),
    {
        let ghost init: Seq<u8> = self@;
        let mut v: u32 = value as u32;
        loop
            invariant_except_break
                init + varint_seq(value as u32) == self@ + varint_seq(v),
            ensures
                self@ == init + varint_seq(value as u32),
            decreases v,
        {
            let byte: u8 = (v % 0x80) as u8;
            let rest: u32 = v / 0x80;
            if rest != 0 {
                proof {
                    assert(varint_seq(v) =~= seq![(v % 0x80 + 0x80) as u8] + varint_seq(v / 0x80));
                    assert((init + varint_seq(value as u32)) =~= (self@ + seq![
                        (v % 0x80 + 0x80) as u8,
                    ]) + varint_seq(v / 0x80));
                }
                self.buf.push(byte + 0x80);
                v = rest;
            } else {
                proof {
                    assert(varint_seq(v) =~= seq![v as u8]);
                    assert((init + varint_seq(value as u32)) =~= (self@ + seq![v as u8]));
                }
                self.buf.push(byte);
                assert(self@ =~= init + varint_seq(value as u32));
                break ;
            }
        }
    }

    pub fn serialize_varlong(&mut self, value: i64)
        ensures
            final(self)@ == old(self)@ + varlong_seq(value as u64),
    {
        let ghost init: Seq<u8> = self@;
        let mut v: u64 = value as u64;
        loop
            invariant_except_break
                init + varlong_seq(value as u64) == self@ + varlong_seq(v),
            ensures
                self@ == init + varlong_seq(value as u64),
            decreases v,
        {
            let byte: u8 = (v % 0x80) as u8;
            let rest: u64 = v / 0x80;
            if rest != 0 {
                proof {
                    assert(varlong_seq(v) =~= seq![(v % 0x80 + 0x80) as u8] + varlong_seq(
                        v / 0x80,
                    ));
                    assert((init + varlong_seq(value as u64)) =~= (self@ + seq![
                        (v % 0x80 + 0x80) as u8,
                    ]) + varlong_seq(v / 0x80));
                }
                self.buf.push(byte + 0x80);
                v = rest;
            } else {
                proof {
                    assert(varlong_seq(v) =~= seq![v as u8]);
                    assert((init + varlong_seq(value as u64)) =~= (self@ + seq![v as u8]));
                }
                self.buf.push(byte);
                assert(self@ =~= init + varlong_seq(value as u64));
                break ;
            }
        }
    }

    pub fn serialize_uuid(&mut self, value: Uuid)
        ensures
            final(self)@ == old(self)@ + uuid_wire(value),
    {
        self.serialize_ulong(value.hi);
        self.serialize_ulong(value.lo);
        assert(self@ =~= old(self)@ + uuid_wire(value));
    }

    /// Raw bytes, no length prefix.
    pub fn serialize_byte_array(&mut self, array: &[u8])
        ensures
            final(self)@ == old(self)@ + array@,
    {
        let ghost init: Seq<u8> = self@;
        let mut i: usize = 0;
        while i < array.len()
            invariant
                i <= array.len(),
                self@ == init + array@.take(i as int),
            decreases array.len() - i,
        {
            self.buf.push(array[i]);
            i = i + 1;
            assert(self@ =~= init + array@.take(i as int));
        }
        assert(array@.take(array@.len() as int) =~= array@);
    }

    /// Varint byte count, then the bytes.
    pub fn serialize_prefixed_byte_array(&mut self, array: &[u8])
        requires
            array@.len() <= 0x7FFF_FFFF,
        ensures
            final(self)@ == old(self)@ + varint_seq(array@.len() as u32) + array@,
    {
        self.serialize_varint(array.len() as i32);
        self.serialize_byte_array(array);
    }

    /// Varint byte count of the UTF-8 encoding, then the UTF-8 bytes.
    pub fn serialize_string(&mut self, value: &str)
        requires
            value.spec_bytes().len() <= 0x7FFF_FFFF,
        ensures
            final(self)@ == old(self)@ + varint_seq(value.spec_bytes().len() as u32)
                + value.spec_bytes(),
    {
        self.serialize_prefixed_byte_array(value.as_bytes());
    }

    /// Each item in order, no count.
    pub fn serialize_array<T: Serialize>(&mut self, array: &[T])
        requires
            forall|i: int| 0 <= i < array@.len() ==> array@[i].wf(),
        ensures
            final(self)@ == old(self)@ + wire_concat(array@),
    {
        let ghost init: Seq<u8> = self@;
        let mut i: usize = 0;
        while i < array.len()
            invariant
                i <= array.len(),
                self@ == init + wire_concat(array@.take(i as int)),
                forall|j: int| 0 <= j < array@.len() ==> array@[j].wf(),
            decreases array.len() - i,
        {
            array[i].serialize(self);
            proof {
                lemma_wire_concat_snoc(array@, i as int);
            }
            i = i + 1;
        }
        assert(array@.take(array@.len() as int) =~= array@);
    }

    /// Varint item count, then each item in order.
    pub fn serialize_prefixed_array<T: Serialize>(&mut self, array: &[T])
        requires
            array@.len() <= 0x7FFF_FFFF,
            forall|i: int| 0 <= i < array@.len() ==> array@[i].wf(),
        ensures
            final(self)@ == old(self)@ + varint_seq(array@.len() as u32) + wire_concat(array@),
    {
        self.serialize_varint(array.len() as i32);
        self.serialize_array(array);
    }

    /// Presence byte, then the value if present.
    pub fn serialize_prefixed_optional<T: Serialize>(&mut self, value: &Option<T>)
        requires
            value matches Some(v) ==> v.wf(),
        ensures
            final(self)@ == old(self)@ + match value {
                Some(v) => seq![bool_byte(true)] + v.wire(),
                None => seq![bool_byte(false)],
            },
    {
        match value {
            Some(v) => {
                self.serialize_boolean(true);
                v.serialize(self);
            },
            None => {
                self.serialize_boolean(false);
            },
        }
    }
}

} // verus!

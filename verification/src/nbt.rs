//! The NBT codec: Minecraft's tagged binary tree format.
//!
//! A tag serializes either *named* (kind byte, ushort name length, name
//! bytes, body) or *unnamed* (kind byte, body). A compound body is a stream
//! of named children closed by an unnamed End. The top-level tag inside a
//! packet is written unnamed (network NBT). Floats and doubles are carried
//! as their IEEE-754 bits. ByteArray, List and IntArray never occur in the
//! packets this crate builds, and are excluded by `wf`.

use vstd::prelude::*;
use vstd::utf8::encode_utf8;

use crate::serialize::{Serialize, Serializer};
use crate::wire::{be2, be4, be8};

verus! {

/// The thirteen tag kinds, in wire order starting at zero.
#[derive(Clone, Copy, Debug, PartialEq, Eq, Structural)]
pub enum Kind {
    End,
    Byte,
    Short,
    Int,
    Long,
    Float,
    Double,
    ByteArray,
    String,
    List,
    Compound,
    IntArray,
    LongArray,
}

impl Kind {
    /// The byte that names this kind on the wire.
    pub open spec fn byte_spec(self) -> u8 {
        match self {
            Kind::End => 0,
            Kind::Byte => 1,
            Kind::Short => 2,
            Kind::Int => 3,
            Kind::Long => 4,
            Kind::Float => 5,
            Kind::Double => 6,
            Kind::ByteArray => 7,
            Kind::String => 8,
            Kind::List => 9,
            Kind::Compound => 10,
            Kind::IntArray => 11,
            Kind::LongArray => 12,
        }
    }

    pub fn byte(self) -> (r: u8)
        ensures
            r == self.byte_spec(),
    {
        match self {
            Kind::End => 0,
            Kind::Byte => 1,
            Kind::Short => 2,
            Kind::Int => 3,
            Kind::Long => 4,
            Kind::Float => 5,
            Kind::Double => 6,
            Kind::ByteArray => 7,
            Kind::String => 8,
            Kind::List => 9,
            Kind::Compound => 10,
            Kind::IntArray => 11,
            Kind::LongArray => 12,
        }
    }
}

/// An NBT tree. `Float` and `Double` carry IEEE-754 bits.
#[derive(Debug)]
pub enum Tag {
    End,
    Byte(i8),
    Short(i16),
    Int(i32),
    Long(i64),
    Float(u32),
    Double(u64),
    ByteArray(Vec<u8>),
    String(String),
    List(Vec<Tag>),
    Compound(Vec<(String, Tag)>),
    IntArray(Vec<i32>),
    LongArray(Vec<i64>),
}

/// The wire bytes of a sequence of longs.
pub open spec fn longs_wire(v: Seq<i64>) -> Seq<u8>
    decreases v.len(),
{
    if v.len() == 0 {
        Seq::empty()
    } else {
        be8(v[0] as u64) + longs_wire(v.skip(1))
    }
}

proof fn lemma_longs_wire_snoc(v: Seq<i64>, i: int)
    requires
        0 <= i < v.len(),
    ensures
        longs_wire(v.take(i + 1)) == longs_wire(v.take(i)) + be8(v[i] as u64),
    decreases i,
{
    let a = v.take(i + 1);
    if i == 0 {
        assert(a.skip(1) =~= Seq::<i64>::empty());
        assert(v.take(0) =~= Seq::<i64>::empty());
        assert(longs_wire(a) =~= longs_wire(v.take(0)) + be8(v[0] as u64));
    } else {
        lemma_longs_wire_snoc(v.skip(1), i - 1);
        assert(a.skip(1) =~= v.skip(1).take(i));
        assert(v.take(i).skip(1) =~= v.skip(1).take(i - 1));
        assert(v.skip(1)[i - 1] == v[i]);
        assert(longs_wire(a) =~= longs_wire(v.take(i)) + be8(v[i] as u64));
    }
}

impl Tag {
    pub open spec fn kind_spec(&self) -> Kind {
        match self {
            Tag::End => Kind::End,
            Tag::Byte(..) => Kind::Byte,
            Tag::Short(..) => Kind::Short,
            Tag::Int(..) => Kind::Int,
            Tag::Long(..) => Kind::Long,
            Tag::Float(..) => Kind::Float,
            Tag::Double(..) => Kind::Double,
            Tag::ByteArray(..) => Kind::ByteArray,
            Tag::String(..) => Kind::String,
            Tag::List(..) => Kind::List,
            Tag::Compound(..) => Kind::Compound,
            Tag::IntArray(..) => Kind::IntArray,
            Tag::LongArray(..) => Kind::LongArray,
        }
    }

    pub fn kind(&self) -> (r: Kind)
        ensures
            r == self.kind_spec(),
    {
        match self {
            Tag::End => Kind::End,
            Tag::Byte(..) => Kind::Byte,
            Tag::Short(..) => Kind::Short,
            Tag::Int(..) => Kind::Int,
            Tag::Long(..) => Kind::Long,
            Tag::Float(..) => Kind::Float,
            Tag::Double(..) => Kind::Double,
            Tag::ByteArray(..) => Kind::ByteArray,
            Tag::String(..) => Kind::String,
            Tag::List(..) => Kind::List,
            Tag::Compound(..) => Kind::Compound,
            Tag::IntArray(..) => Kind::IntArray,
            Tag::LongArray(..) => Kind::LongArray,
        }
    }

    /// Tags this codec serializes: every string and name fits the ushort
    /// length prefix, every long array fits the int length prefix, and the
    /// kinds whose bodies no packet here needs do not occur.
    pub open spec fn wf_spec(&self) -> bool
        decreases self,
    {
        match self {
            Tag::End => true,
            Tag::Byte(..) => true,
            Tag::Short(..) => true,
            Tag::Int(..) => true,
            Tag::Long(..) => true,
            Tag::Float(..) => true,
            Tag::Double(..) => true,
            Tag::ByteArray(..) => false,
            Tag::String(s) => encode_utf8(s@).len() <= 0xFFFF,
            Tag::List(..) => false,
            Tag::Compound(entries) => forall|i: int|
                0 <= i < entries@.len() ==> (#[trigger] entries@[i]).1.wf_spec() && encode_utf8(
                    entries@[i].0@,
                ).len() <= 0xFFFF,
            Tag::IntArray(..) => false,
            Tag::LongArray(v) => v@.len() <= 0x7FFF_FFFF,
        }
    }

    /// The body bytes of this tag (no kind byte, no name).
    pub open spec fn body_wire(&self) -> Seq<u8>
        decreases self, 0int,
    {
        match self {
            Tag::End => Seq::empty(),
            Tag::Byte(v) => seq![*v as u8],
            Tag::Short(v) => be2(*v as u16),
            Tag::Int(v) => be4(*v as u32),
            Tag::Long(v) => be8(*v as u64),
            Tag::Float(bits) => be4(*bits),
            Tag::Double(bits) => be8(*bits),
            Tag::ByteArray(..) => Seq::empty(),
            Tag::String(s) => be2(encode_utf8(s@).len() as u16) + encode_utf8(s@),
            Tag::List(..) => Seq::empty(),
            Tag::Compound(entries) => named_seq_wire(entries@) + seq![0u8],
            Tag::IntArray(..) => Seq::empty(),
            Tag::LongArray(v) => be4(v@.len() as u32) + longs_wire(v@),
        }
    }

    /// Kind byte, then the body: how a list element or the top-level tag of
    /// a packet is written.
    pub open spec fn unnamed_wire(&self) -> Seq<u8> {
        seq![self.kind_spec().byte_spec()] + self.body_wire()
    }

    /// Kind byte, ushort name length, name bytes, body: how a compound
    /// member is written.
    pub open spec fn named_wire(&self, name: Seq<char>) -> Seq<u8>
        decreases self, 1int,
    {
        seq![self.kind_spec().byte_spec()] + be2(encode_utf8(name).len() as u16) + encode_utf8(
            name,
        ) + self.body_wire()
    }
}

/// Whether a compound's members include an integer tag of the given name
/// and value.
pub open spec fn compound_has_int(es: Seq<(String, Tag)>, name: Seq<char>, v: i32) -> bool {
    exists|i: int| 0 <= i < es.len() && (#[trigger] es[i]).0@ == name && es[i].1 == Tag::Int(v)
}

/// The wire bytes of a compound's members, in order.
pub open spec fn named_seq_wire(entries: Seq<(String, Tag)>) -> Seq<u8>
    decreases entries, 2int,
{
    if entries.len() == 0 {
        Seq::empty()
    } else {
        entries[0].1.named_wire(entries[0].0@) + named_seq_wire(entries.skip(1))
    }
}

proof fn lemma_named_seq_wire_snoc(entries: Seq<(String, Tag)>, i: int)
    requires
        0 <= i < entries.len(),
    ensures
        named_seq_wire(entries.take(i + 1)) == named_seq_wire(entries.take(i))
            + entries[i].1.named_wire(entries[i].0@),
    decreases i,
{
    let a = entries.take(i + 1);
    if i == 0 {
        assert(a.skip(1) =~= Seq::<(String, Tag)>::empty());
        assert(entries.take(0) =~= Seq::<(String, Tag)>::empty());
        assert(named_seq_wire(a) =~= named_seq_wire(entries.take(0)) + entries[0].1.named_wire(
            entries[0].0@,
        ));
    } else {
        lemma_named_seq_wire_snoc(entries.skip(1), i - 1);
        assert(a.skip(1) =~= entries.skip(1).take(i));
        assert(entries.take(i).skip(1) =~= entries.skip(1).take(i - 1));
        assert(entries.skip(1)[i - 1] == entries[i]);
        assert(named_seq_wire(a) =~= named_seq_wire(entries.take(i)) + entries[i].1.named_wire(
            entries[i].0@,
        ));
    }
}

impl Tag {
    /// Writes the kind byte and body.
    pub fn serialize_unnamed(&self, s: &mut Serializer)
        requires
            self.wf_spec(),
        ensures
            final(s)@ == old(s)@ + self.unnamed_wire(),
        decreases self, 1int,
    {
        s.serialize_ubyte(self.kind().byte());
        self.serialize_body(s);
        assert(s@ =~= old(s)@ + self.unnamed_wire());
    }

    /// Writes the kind byte, the name, and the body.
    pub fn serialize_named(&self, s: &mut Serializer, name: &str)
        requires
            self.wf_spec(),
            encode_utf8(name@).len() <= 0xFFFF,
        ensures
            final(s)@ == old(s)@ + self.named_wire(name@),
        decreases self, 1int,
    {
        s.serialize_ubyte(self.kind().byte());
        let name_bytes = name.as_bytes();
        s.serialize_ushort(name_bytes.len() as u16);
        s.serialize_byte_array(name_bytes);
        self.serialize_body(s);
        assert(s@ =~= old(s)@ + self.named_wire(name@));
    }

    fn serialize_body(&self, s: &mut Serializer)
        requires
            self.wf_spec(),
        ensures
            final(s)@ == old(s)@ + self.body_wire(),
        decreases self, 0int,
    {
        match self {
            Tag::End => {},
            Tag::Byte(v) => s.serialize_byte(*v),
            Tag::Short(v) => s.serialize_short(*v),
            Tag::Int(v) => s.serialize_int(*v),
            Tag::Long(v) => s.serialize_long(*v),
            Tag::Float(bits) => s.serialize_float_bits(*bits),
            Tag::Double(bits) => s.serialize_double_bits(*bits),
            Tag::ByteArray(..) => {
                proof {
                    assert(false);
                }
            },
            Tag::String(v) => {
                let bytes = v.as_str().as_bytes();
                s.serialize_ushort(bytes.len() as u16);
                s.serialize_byte_array(bytes);
                assert(s@ =~= old(s)@ + self.body_wire());
            },
            Tag::List(..) => {
                proof {
                    assert(false);
                }
            },
            Tag::Compound(entries) => {
                serialize_entries(entries, s);
                s.serialize_ubyte(0);
                assert(s@ =~= old(s)@ + self.body_wire());
            },
            Tag::IntArray(..) => {
                proof {
                    assert(false);
                }
            },
            Tag::LongArray(v) => {
                s.serialize_int(v.len() as i32);
                let ghost mid = s@;
                let mut i: usize = 0;
                while i < v.len()
                    invariant
                        i <= v@.len(),
                        s@ == mid + longs_wire(v@.take(i as int)),
                    decreases v@.len() - i,
                {
                    s.serialize_long(v[i]);
                    proof {
                        lemma_longs_wire_snoc(v@, i as int);
                    }
                    i = i + 1;
                }
                assert(v@.take(v@.len() as int) =~= v@);
                assert(s@ =~= old(s)@ + self.body_wire());
            },
        }
    }
}

/// Writes a compound's members, each named, in order.
fn serialize_entries(entries: &Vec<(String, Tag)>, s: &mut Serializer)
    requires
        forall|j: int|
            0 <= j < entries@.len() ==> (#[trigger] entries@[j]).1.wf_spec() && encode_utf8(
                entries@[j].0@,
            ).len() <= 0xFFFF,
    ensures
        final(s)@ == old(s)@ + named_seq_wire(entries@),
    decreases entries@, 2int,
{
    let ghost init = s@;
    let mut i: usize = 0;
    while i < entries.len()
        invariant
            i <= entries@.len(),
            s@ == init + named_seq_wire(entries@.take(i as int)),
            forall|j: int|
                0 <= j < entries@.len() ==> (#[trigger] entries@[j]).1.wf_spec() && encode_utf8(
                    entries@[j].0@,
                ).len() <= 0xFFFF,
        decreases entries@.len() - i,
    {
        let entry = &entries[i];
        entry.1.serialize_named(s, entry.0.as_str());
        proof {
            lemma_named_seq_wire_snoc(entries@, i as int);
        }
        i = i + 1;
    }
    assert(entries@.take(entries@.len() as int) =~= entries@);
}

impl Serialize for Tag {
    open spec fn wf(&self) -> bool {
        self.wf_spec()
    }

    /// A tag inside a packet is written unnamed.
    open spec fn wire(&self) -> Seq<u8> {
        self.unnamed_wire()
    }

    fn serialize(&self, s: &mut Serializer) {
        self.serialize_unnamed(s);
    }
}

} // verus!

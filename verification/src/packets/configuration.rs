//! Configuration phase packets.

use vstd::prelude::*;
use vstd::utf8::encode_utf8;

use crate::deserialize::{vi_err, vi_ok, vi_rest, vi_val, Deserializer, Error};
use crate::nbt::Tag;
use crate::roundtrip::{lemma_string_layer, lemma_utf8_injective, lemma_varint_layer};
use crate::serialize::{wire_concat, Serialize, Serializer};
use crate::state::State;
use crate::varint::varint_seq;
use crate::wire::{bool_byte, string_wire};

verus! {

/// A resource pack the client and server agree on.
#[derive(Debug)]
pub struct KnownPack {
    pub namespace: String,
    pub id: String,
    pub version: String,
}

impl Serialize for KnownPack {
    open spec fn wf(&self) -> bool {
        &&& encode_utf8(self.namespace@).len() <= 0x7FFF_FFFF
        &&& encode_utf8(self.id@).len() <= 0x7FFF_FFFF
        &&& encode_utf8(self.version@).len() <= 0x7FFF_FFFF
    }

    open spec fn wire(&self) -> Seq<u8> {
        string_wire(self.namespace@) + string_wire(self.id@) + string_wire(self.version@)
    }

    fn serialize(&self, s: &mut Serializer) {
        s.serialize_string(self.namespace.as_str());
        s.serialize_string(self.id.as_str());
        s.serialize_string(self.version.as_str());
        assert(s@ =~= old(s)@ + self.wire());
    }
}

/// One entry of a clientbound registry push.
#[derive(Debug)]
pub struct RegistryEntry {
    pub entry_id: String,
    pub entry_data: Option<Tag>,
}

impl Serialize for RegistryEntry {
    open spec fn wf(&self) -> bool {
        &&& encode_utf8(self.entry_id@).len() <= 0x7FFF_FFFF
        &&& self.entry_data matches Some(t) ==> t.wf()
    }

    open spec fn wire(&self) -> Seq<u8> {
        string_wire(self.entry_id@) + match &self.entry_data {
            Some(t) => seq![bool_byte(true)] + t.wire(),
            None => seq![bool_byte(false)],
        }
    }

    fn serialize(&self, s: &mut Serializer) {
        s.serialize_string(self.entry_id.as_str());
        s.serialize_prefixed_optional(&self.entry_data);
        assert(s@ =~= old(s)@ + self.wire());
    }
}

/// Serverbound configuration packets.
#[derive(Debug)]
pub enum Serverbound {
    ClientInformation {
        locale: String,
        view_distance: i8,
        chat_mode: i32,
        chat_colors: bool,
        displayed_skin_parts: u8,
        main_hand: i32,
        enable_text_filtering: bool,
        allow_server_listings: bool,
        particle_status: i32,
    },
    CustomPayload { channel: String, data: Vec<u8> },
    FinishConfiguration,
    SelectKnownPacks { known_packs: Vec<KnownPack> },
}

impl Serverbound {
    /// Same packet, with strings and buffers compared by their contents.
    pub open spec fn eq_view(self, other: Serverbound) -> bool {
        match (self, other) {
            (
                Serverbound::ClientInformation {
                    locale: l1,
                    view_distance: v1,
                    chat_mode: c1,
                    chat_colors: cc1,
                    displayed_skin_parts: d1,
                    main_hand: m1,
                    enable_text_filtering: e1,
                    allow_server_listings: a1,
                    particle_status: p1,
                },
                Serverbound::ClientInformation {
                    locale: l2,
                    view_distance: v2,
                    chat_mode: c2,
                    chat_colors: cc2,
                    displayed_skin_parts: d2,
                    main_hand: m2,
                    enable_text_filtering: e2,
                    allow_server_listings: a2,
                    particle_status: p2,
                },
            ) => l1@ == l2@ && v1 == v2 && c1 == c2 && cc1 == cc2 && d1 == d2 && m1 == m2 && e1
                == e2 && a1 == a2 && p1 == p2,
            (
                Serverbound::CustomPayload { channel: c1, data: d1 },
                Serverbound::CustomPayload { channel: c2, data: d2 },
            ) => c1@ == c2@ && d1@ == d2@,
            (Serverbound::FinishConfiguration, Serverbound::FinishConfiguration) => true,
            (
                Serverbound::SelectKnownPacks { known_packs: k1 },
                Serverbound::SelectKnownPacks { known_packs: k2 },
            ) => k1@.len() == k2@.len() && forall|i: int|
                0 <= i < k1@.len() ==> ((#[trigger] k1@[i]).namespace@ == k2@[i].namespace@
                    && k1@[i].id@ == k2@[i].id@ && k1@[i].version@ == k2@[i].version@),
            _ => false,
        }
    }
}

impl Serialize for Serverbound {
    open spec fn wf(&self) -> bool {
        match self {
            Serverbound::ClientInformation { locale, .. } => encode_utf8(locale@).len()
                <= 0x7FFF_FFFF,
            Serverbound::CustomPayload { channel, data } => encode_utf8(channel@).len()
                <= 0x7FFF_FFFF,
            Serverbound::FinishConfiguration => true,
            Serverbound::SelectKnownPacks { known_packs } => known_packs@.len() <= 0x7FFF_FFFF
                && forall|i: int|
                0 <= i < known_packs@.len() ==> (#[trigger] known_packs@[i]).wf(),
        }
    }

    open spec fn wire(&self) -> Seq<u8> {
        match self {
            Serverbound::ClientInformation {
                locale,
                view_distance,
                chat_mode,
                chat_colors,
                displayed_skin_parts,
                main_hand,
                enable_text_filtering,
                allow_server_listings,
                particle_status,
            } => varint_seq(0) + string_wire(locale@) + seq![*view_distance as u8] + varint_seq(
                *chat_mode as u32,
            ) + seq![bool_byte(*chat_colors)] + seq![*displayed_skin_parts] + varint_seq(
                *main_hand as u32,
            ) + seq![bool_byte(*enable_text_filtering)] + seq![bool_byte(*allow_server_listings)]
                + varint_seq(*particle_status as u32),
            Serverbound::CustomPayload { channel, data } => varint_seq(2) + string_wire(channel@)
                + data@,
            Serverbound::FinishConfiguration => varint_seq(3),
            Serverbound::SelectKnownPacks { known_packs } => varint_seq(7) + varint_seq(
                known_packs@.len() as u32,
            ) + wire_concat(known_packs@),
        }
    }

    #[verifier::rlimit(100)]
    fn serialize(&self, s: &mut Serializer) {
        match self {
            Serverbound::ClientInformation {
                locale,
                view_distance,
                chat_mode,
                chat_colors,
                displayed_skin_parts,
                main_hand,
                enable_text_filtering,
                allow_server_listings,
                particle_status,
            } => {
                s.serialize_varint(0);
                s.serialize_string(locale.as_str());
                s.serialize_byte(*view_distance);
                s.serialize_varint(*chat_mode);
                s.serialize_boolean(*chat_colors);
                s.serialize_ubyte(*displayed_skin_parts);
                s.serialize_varint(*main_hand);
                s.serialize_boolean(*enable_text_filtering);
                s.serialize_boolean(*allow_server_listings);
                s.serialize_varint(*particle_status);
                assert(s@ =~= old(s)@ + self.wire());
            },
            Serverbound::CustomPayload { channel, data } => {
                s.serialize_varint(2);
                s.serialize_string(channel.as_str());
                s.serialize_byte_array(data.as_slice());
                assert(s@ =~= old(s)@ + self.wire());
            },
            Serverbound::FinishConfiguration => {
                s.serialize_varint(3);
                assert(s@ =~= old(s)@ + self.wire());
            },
            Serverbound::SelectKnownPacks { known_packs } => {
                s.serialize_varint(7);
                s.serialize_prefixed_array(known_packs.as_slice());
                assert(s@ =~= old(s)@ + self.wire());
            },
        }
    }
}

/// Clientbound configuration packets.
#[derive(Debug)]
pub enum Clientbound {
    Disconnect { reason: String },
    FinishConfiguration,
    RegistryData { registry_id: String, entries: Vec<RegistryEntry> },
    SelectKnownPacks { known_packs: Vec<KnownPack> },
}

impl Serialize for Clientbound {
    open spec fn wf(&self) -> bool {
        match self {
            Clientbound::Disconnect { reason } => encode_utf8(reason@).len() <= 0xFFFF,
            Clientbound::FinishConfiguration => true,
            Clientbound::RegistryData { registry_id, entries } => encode_utf8(
                registry_id@,
            ).len() <= 0x7FFF_FFFF && entries@.len() <= 0x7FFF_FFFF && forall|i: int|
                0 <= i < entries@.len() ==> (#[trigger] entries@[i]).wf(),
            Clientbound::SelectKnownPacks { known_packs } => known_packs@.len() <= 0x7FFF_FFFF
                && forall|i: int|
                0 <= i < known_packs@.len() ==> (#[trigger] known_packs@[i]).wf(),
        }
    }

    open spec fn wire(&self) -> Seq<u8> {
        match self {
            // The disconnect reason travels as an unnamed NBT string tag.
            Clientbound::Disconnect { reason } => varint_seq(2) + Tag::String(
                *reason,
            ).unnamed_wire(),
            Clientbound::FinishConfiguration => varint_seq(3),
            Clientbound::RegistryData { registry_id, entries } => varint_seq(7) + string_wire(
                registry_id@,
            ) + varint_seq(entries@.len() as u32) + wire_concat(entries@),
            Clientbound::SelectKnownPacks { known_packs } => varint_seq(0x0E) + varint_seq(
                known_packs@.len() as u32,
            ) + wire_concat(known_packs@),
        }
    }

    fn serialize(&self, s: &mut Serializer) {
        match self {
            Clientbound::Disconnect { reason } => {
                s.serialize_varint(2);
                let tag = Tag::String(reason.clone());
                tag.serialize_unnamed(s);
                assert(s@ =~= old(s)@ + self.wire());
            },
            Clientbound::FinishConfiguration => {
                s.serialize_varint(3);
                assert(s@ =~= old(s)@ + self.wire());
            },
            Clientbound::RegistryData { registry_id, entries } => {
                s.serialize_varint(7);
                s.serialize_string(registry_id.as_str());
                s.serialize_prefixed_array(entries.as_slice());
                assert(s@ =~= old(s)@ + self.wire());
            },
            Clientbound::SelectKnownPacks { known_packs } => {
                s.serialize_varint(0x0E);
                s.serialize_prefixed_array(known_packs.as_slice());
                assert(s@ =~= old(s)@ + self.wire());
            },
        }
    }
}

/// Same pack, with its strings compared by their characters.
pub open spec fn pack_eq(a: KnownPack, b: KnownPack) -> bool {
    a.namespace@ == b.namespace@ && a.id@ == b.id@ && a.version@ == b.version@
}

/// Every decode step that a canonical known-pack encoding at the front of a
/// stream passes through.
pub proof fn lemma_pack_layers(kp: KnownPack, rest: Seq<u8>)
    requires
        kp.wf(),
    ensures
        ({
            let s = kp.wire() + rest;
            let nb = encode_utf8(kp.namespace@);
            let s1 = vi_rest(s).skip(nb.len() as int);
            let ib = encode_utf8(kp.id@);
            let s2 = vi_rest(s1).skip(ib.len() as int);
            let vb = encode_utf8(kp.version@);
            &&& vi_ok(s) && vi_val(s) == nb.len() && vi_rest(s).len() >= nb.len()
            &&& vi_rest(s).take(nb.len() as int) == nb && vstd::utf8::valid_utf8(nb)
            &&& vi_ok(s1) && vi_val(s1) == ib.len() && vi_rest(s1).len() >= ib.len()
            &&& vi_rest(s1).take(ib.len() as int) == ib && vstd::utf8::valid_utf8(ib)
            &&& vi_ok(s2) && vi_val(s2) == vb.len() && vi_rest(s2).len() >= vb.len()
            &&& vi_rest(s2).take(vb.len() as int) == vb && vstd::utf8::valid_utf8(vb)
            &&& vi_rest(s2).skip(vb.len() as int) == rest
        }),
{
    let s = kp.wire() + rest;
    let r2: Seq<u8> = string_wire(kp.version@) + rest;
    let r1: Seq<u8> = string_wire(kp.id@) + r2;
    assert(s =~= string_wire(kp.namespace@) + r1);
    lemma_string_layer(kp.namespace@, r1);
    lemma_string_layer(kp.id@, r2);
    lemma_string_layer(kp.version@, rest);
}

/// Every decode step that a canonical serverbound encoding at the front of
/// a stream passes through, and what it leaves unread. A `CustomPayload`
/// body swallows the whole stream: its opaque data comes back extended by
/// whatever followed the encoding.
#[verifier::rlimit(60)]
pub proof fn lemma_wire_layers(q: Serverbound, s: Seq<u8>, rest: Seq<u8>)
    requires
        q.wf(),
        s == q.wire() + rest,
    ensures
        ({
            match q {
                Serverbound::ClientInformation {
                    locale,
                    view_distance,
                    chat_mode,
                    chat_colors,
                    displayed_skin_parts,
                    main_hand,
                    enable_text_filtering,
                    allow_server_listings,
                    particle_status,
                } => {
                    let s1 = vi_rest(s);
                    let lb = encode_utf8(locale@);
                    let s2 = vi_rest(s1).skip(lb.len() as int);
                    let s3 = s2.skip(1);
                    let s4 = vi_rest(s3);
                    let s5 = s4.skip(1);
                    let s6 = s5.skip(1);
                    let s7 = vi_rest(s6);
                    let s8 = s7.skip(1);
                    let s9 = s8.skip(1);
                    &&& vi_ok(s) && vi_val(s) == 0
                    &&& vi_ok(s1) && vi_val(s1) == lb.len() && vi_rest(s1).len() >= lb.len()
                    &&& vi_rest(s1).take(lb.len() as int) == lb
                    &&& vstd::utf8::valid_utf8(lb)
                    &&& s2.len() >= 1 && s2[0] == view_distance as u8
                    &&& vi_ok(s3) && vi_val(s3) == chat_mode as u32
                    &&& s4.len() >= 1 && s4[0] == bool_byte(chat_colors)
                    &&& s5.len() >= 1 && s5[0] == displayed_skin_parts
                    &&& vi_ok(s6) && vi_val(s6) == main_hand as u32
                    &&& s7.len() >= 1 && s7[0] == bool_byte(enable_text_filtering)
                    &&& s8.len() >= 1 && s8[0] == bool_byte(allow_server_listings)
                    &&& vi_ok(s9) && vi_val(s9) == particle_status as u32
                    &&& vi_rest(s9) == rest
                },
                Serverbound::CustomPayload { channel, data } => {
                    let s1 = vi_rest(s);
                    let cb = encode_utf8(channel@);
                    &&& vi_ok(s) && vi_val(s) == 2
                    &&& vi_ok(s1) && vi_val(s1) == cb.len() && vi_rest(s1).len() >= cb.len()
                    &&& vi_rest(s1).take(cb.len() as int) == cb
                    &&& vstd::utf8::valid_utf8(cb)
                    &&& vi_rest(s1).skip(cb.len() as int) == data@ + rest
                },
                Serverbound::FinishConfiguration => {
                    &&& vi_ok(s) && vi_val(s) == 3
                    &&& vi_rest(s) == rest
                },
                Serverbound::SelectKnownPacks { known_packs } => {
                    let s1 = vi_rest(s);
                    &&& vi_ok(s) && vi_val(s) == 7
                    &&& vi_ok(s1) && vi_val(s1) == known_packs@.len()
                    &&& vi_rest(s1) == wire_concat(known_packs@) + rest
                },
            }
        }),
{
    match q {
        Serverbound::ClientInformation {
            locale,
            view_distance,
            chat_mode,
            chat_colors,
            displayed_skin_parts,
            main_hand,
            enable_text_filtering,
            allow_server_listings,
            particle_status,
        } => {
            let r9: Seq<u8> = varint_seq(particle_status as u32) + rest;
            let r8: Seq<u8> = seq![bool_byte(allow_server_listings)] + r9;
            let r7: Seq<u8> = seq![bool_byte(enable_text_filtering)] + r8;
            let r6: Seq<u8> = varint_seq(main_hand as u32) + r7;
            let r5: Seq<u8> = seq![displayed_skin_parts] + r6;
            let r4: Seq<u8> = seq![bool_byte(chat_colors)] + r5;
            let r3: Seq<u8> = varint_seq(chat_mode as u32) + r4;
            let r2: Seq<u8> = seq![view_distance as u8] + r3;
            let r1: Seq<u8> = string_wire(locale@) + r2;
            assert(s =~= varint_seq(0) + r1);
            lemma_varint_layer(0, r1);
            lemma_string_layer(locale@, r2);
            assert(r2.skip(1) =~= r3);
            lemma_varint_layer(chat_mode as u32, r4);
            assert(r4.skip(1) =~= r5);
            assert(r5.skip(1) =~= r6);
            lemma_varint_layer(main_hand as u32, r7);
            assert(r7.skip(1) =~= r8);
            assert(r8.skip(1) =~= r9);
            lemma_varint_layer(particle_status as u32, rest);
        },
        Serverbound::CustomPayload { channel, data } => {
            let r1: Seq<u8> = string_wire(channel@) + (data@ + rest);
            assert(s =~= varint_seq(2) + r1);
            lemma_varint_layer(2, r1);
            lemma_string_layer(channel@, data@ + rest);
        },
        Serverbound::FinishConfiguration => {
            lemma_varint_layer(3, rest);
            assert(s =~= varint_seq(3) + rest);
        },
        Serverbound::SelectKnownPacks { known_packs } => {
            let r1: Seq<u8> = varint_seq(known_packs@.len() as u32) + (wire_concat(known_packs@)
                + rest);
            assert(s =~= varint_seq(7) + r1);
            lemma_varint_layer(7, r1);
            lemma_varint_layer(known_packs@.len() as u32, wire_concat(known_packs@) + rest);
        },
    }
}

/// If a decode stage fails on `s`, no packet other than a `SelectKnownPacks`
/// has `s` as its canonical encoding.
pub proof fn lemma_no_canonical(s: Seq<u8>)
    requires
        ({
            let s1 = vi_rest(s);
            let n = vi_val(s1) as int;
            let s2 = vi_rest(s1).skip(n);
            let s3 = s2.skip(1);
            let s4 = vi_rest(s3);
            let s5 = s4.skip(1);
            let s6 = s5.skip(1);
            let s7 = vi_rest(s6);
            let s8 = s7.skip(1);
            let s9 = s8.skip(1);
            ||| !vi_ok(s)
            ||| !(vi_val(s) == 0 || vi_val(s) == 2 || vi_val(s) == 3 || vi_val(s) == 7)
            ||| vi_val(s) == 7
            ||| (vi_val(s) == 0 || vi_val(s) == 2) && ({
                ||| !vi_ok(s1)
                ||| vi_val(s1) > 0x7FFF_FFFF
                ||| vi_rest(s1).len() < vi_val(s1)
                ||| !vstd::utf8::valid_utf8(vi_rest(s1).take(n))
            })
            ||| vi_val(s) == 0 && ({
                ||| s2.len() < 1
                ||| !vi_ok(s3)
                ||| s4.len() < 1
                ||| s5.len() < 1
                ||| !vi_ok(s6)
                ||| s7.len() < 1
                ||| s8.len() < 1
                ||| !vi_ok(s9)
            })
        }),
    ensures
        forall|q: Serverbound|
            !(q.wf() && #[trigger] wire_prefix(q, s) && !(q
                matches Serverbound::SelectKnownPacks { .. })),
{
    assert forall|q: Serverbound|
        !(q.wf() && #[trigger] wire_prefix(q, s) && !(q matches Serverbound::SelectKnownPacks {
            ..
        })) by {
        if q.wf() && wire_prefix(q, s) {
            assert(s =~= q.wire() + s.skip(q.wire().len() as int));
            lemma_wire_layers(q, s, s.skip(q.wire().len() as int));
        }
    }
}

/// How far a decode of a `SelectKnownPacks` body has come: the first `i`
/// packs are decoded, and the remaining bytes are the encodings of the
/// rest, then whatever followed the packet's encoding.
pub open spec fn skp_progress(
    q: Serverbound,
    decoded: Seq<KnownPack>,
    i: int,
    remaining: Seq<u8>,
    tail: Seq<u8>,
) -> bool {
    match q {
        Serverbound::SelectKnownPacks { known_packs } => {
            &&& known_packs@.len() >= i
            &&& remaining == wire_concat(known_packs@.skip(i)) + tail
            &&& forall|j: int| 0 <= j < i ==> pack_eq(decoded[j], #[trigger] known_packs@[j])
        },
        _ => true,
    }
}

/// Whether a packet's canonical encoding sits at the front of `s`.
pub open spec fn wire_prefix(q: Serverbound, s: Seq<u8>) -> bool {
    q.wire() == s.take(q.wire().len() as int) && q.wire().len() <= s.len()
}

/// If the id or count layer fails on `s`, no `SelectKnownPacks` has `s` as
/// its canonical encoding.
pub proof fn lemma_no_canonical_packs(s: Seq<u8>)
    requires
        ({
            ||| !vi_ok(s)
            ||| vi_val(s) != 7
            ||| !vi_ok(vi_rest(s))
            ||| vi_val(vi_rest(s)) > 0x7FFF_FFFF
        }),
    ensures
        forall|q: Serverbound|
            !(q.wf() && #[trigger] wire_prefix(q, s) && (q
                matches Serverbound::SelectKnownPacks { .. })),
{
    assert forall|q: Serverbound|
        !(q.wf() && #[trigger] wire_prefix(q, s) && (q matches Serverbound::SelectKnownPacks {
            ..
        })) by {
        if q.wf() && wire_prefix(q, s) {
            assert(s =~= q.wire() + s.skip(q.wire().len() as int));
            lemma_wire_layers(q, s, s.skip(q.wire().len() as int));
        }
    }
}

/// Decodes one serverbound configuration packet from a full packet body.
/// A canonical encoding of any packet, the counted `SelectKnownPacks`
/// array included, decodes back to the same packet.
#[verifier::rlimit(100)]
pub fn decode(d: &mut Deserializer) -> (r: Result<Serverbound, Error>)
    requires
        old(d).wf(),
    ensures
        final(d).wf(),
        ({
            let s = old(d).remaining();
            &&& !vi_ok(s) ==> r == Err::<Serverbound, Error>(vi_err(s))
            &&& (vi_ok(s) && vi_val(s) != 0 && vi_val(s) != 2 && vi_val(s) != 3 && vi_val(s) != 7)
                ==> r == Err::<Serverbound, Error>(
                Error::InvalidPacketId { state: State::Configuration, packet_id: vi_val(s) as i32 },
            )
            &&& (r matches Ok(p) ==> p.wf())
            &&& forall|q: Serverbound|
                q.wf() && #[trigger] wire_prefix(q, s) && (q.wire().len() == s.len() || !(q
                    matches Serverbound::CustomPayload { .. })) ==> (r matches Ok(p) && p.eq_view(
                    q,
                ) && final(d).remaining() == s.skip(q.wire().len() as int))
        }),
{
    let ghost s = old(d).remaining();
    let id = match d.deserialize_varint() {
        Ok(v) => v,
        Err(e) => {
            proof {
                lemma_no_canonical(s);
                lemma_no_canonical_packs(s);
            }
            return Err(e);
        },
    };
    if id == 0 {
        let locale = match d.deserialize_string() {
            Ok(v) => v,
            Err(e) => {
                proof {
                    lemma_no_canonical(s);
                    lemma_no_canonical_packs(s);
                }
                return Err(e);
            },
        };
        let view_distance = match d.deserialize_byte() {
            Ok(v) => v,
            Err(e) => {
                proof {
                    lemma_no_canonical(s);
                    lemma_no_canonical_packs(s);
                }
                return Err(e);
            },
        };
        let chat_mode = match d.deserialize_varint() {
            Ok(v) => v,
            Err(e) => {
                proof {
                    lemma_no_canonical(s);
                    lemma_no_canonical_packs(s);
                }
                return Err(e);
            },
        };
        let chat_colors = match d.deserialize_boolean() {
            Ok(v) => v,
            Err(e) => {
                proof {
                    lemma_no_canonical(s);
                    lemma_no_canonical_packs(s);
                }
                return Err(e);
            },
        };
        let displayed_skin_parts = match d.deserialize_ubyte() {
            Ok(v) => v,
            Err(e) => {
                proof {
                    lemma_no_canonical(s);
                    lemma_no_canonical_packs(s);
                }
                return Err(e);
            },
        };
        let main_hand = match d.deserialize_varint() {
            Ok(v) => v,
            Err(e) => {
                proof {
                    lemma_no_canonical(s);
                    lemma_no_canonical_packs(s);
                }
                return Err(e);
            },
        };
        let enable_text_filtering = match d.deserialize_boolean() {
            Ok(v) => v,
            Err(e) => {
                proof {
                    lemma_no_canonical(s);
                    lemma_no_canonical_packs(s);
                }
                return Err(e);
            },
        };
        let allow_server_listings = match d.deserialize_boolean() {
            Ok(v) => v,
            Err(e) => {
                proof {
                    lemma_no_canonical(s);
                    lemma_no_canonical_packs(s);
                }
                return Err(e);
            },
        };
        let particle_status = match d.deserialize_varint() {
            Ok(v) => v,
            Err(e) => {
                proof {
                    lemma_no_canonical(s);
                    lemma_no_canonical_packs(s);
                }
                return Err(e);
            },
        };
        let p = Serverbound::ClientInformation {
            locale,
            view_distance,
            chat_mode,
            chat_colors,
            displayed_skin_parts,
            main_hand,
            enable_text_filtering,
            allow_server_listings,
            particle_status,
        };
        proof {
            assert forall|q: Serverbound|
                q.wf() && #[trigger] wire_prefix(q, s) && (q.wire().len() == s.len() || !(q
                    matches Serverbound::CustomPayload { .. })) implies (p.eq_view(q)
                && final(d).remaining() == s.skip(q.wire().len() as int)) by {
                assert(s =~= q.wire() + s.skip(q.wire().len() as int));
                lemma_wire_layers(q, s, s.skip(q.wire().len() as int));
                match q {
                    Serverbound::ClientInformation {
                        locale: l2,
                        view_distance: v2,
                        chat_mode: c2,
                        main_hand: m2,
                        particle_status: p2,
                        ..
                    } => {
                        assert(encode_utf8(locale@) == encode_utf8(l2@));
                        lemma_utf8_injective(locale@, l2@);
                        assert(view_distance == v2) by (bit_vector)
                            requires
                                view_distance as u8 == v2 as u8,
                        ;
                        assert(chat_mode == c2) by (bit_vector)
                            requires
                                chat_mode as u32 == c2 as u32,
                        ;
                        assert(main_hand == m2) by (bit_vector)
                            requires
                                main_hand as u32 == m2 as u32,
                        ;
                        assert(particle_status == p2) by (bit_vector)
                            requires
                                particle_status as u32 == p2 as u32,
                        ;
                    },
                    _ => {},
                }
            }
        }
        Ok(p)
    } else if id == 2 {
        let channel = match d.deserialize_string() {
            Ok(v) => v,
            Err(e) => {
                proof {
                    lemma_no_canonical(s);
                    lemma_no_canonical_packs(s);
                }
                return Err(e);
            },
        };
        let data = d.take_remaining();
        let p = Serverbound::CustomPayload { channel, data };
        proof {
            assert forall|q: Serverbound|
                q.wf() && #[trigger] wire_prefix(q, s) && (q.wire().len() == s.len() || !(q
                    matches Serverbound::CustomPayload { .. })) implies (p.eq_view(q)
                && final(d).remaining() == s.skip(q.wire().len() as int)) by {
                assert(s =~= q.wire() + s.skip(q.wire().len() as int));
                lemma_wire_layers(q, s, s.skip(q.wire().len() as int));
                match q {
                    Serverbound::CustomPayload { channel: c2, data: d2 } => {
                        assert(encode_utf8(channel@) == encode_utf8(c2@));
                        lemma_utf8_injective(channel@, c2@);
                        assert(s.skip(q.wire().len() as int) =~= Seq::<u8>::empty());
                        assert(d2@ + s.skip(q.wire().len() as int) =~= d2@);
                    },
                    _ => {},
                }
            }
        }
        Ok(p)
    } else if id == 3 {
        proof {
            assert forall|q: Serverbound|
                q.wf() && #[trigger] wire_prefix(q, s) && (q.wire().len() == s.len() || !(q
                    matches Serverbound::CustomPayload { .. })) implies (
            Serverbound::FinishConfiguration.eq_view(q) && final(d).remaining() == s.skip(
                q.wire().len() as int,
            )) by {
                assert(s =~= q.wire() + s.skip(q.wire().len() as int));
                lemma_wire_layers(q, s, s.skip(q.wire().len() as int));
            }
        }
        Ok(Serverbound::FinishConfiguration)
    } else if id == 7 {
        proof {
            lemma_no_canonical(s);
        }
        let ghost s1 = d.remaining();
        let n = match d.deserialize_varint() {
            Ok(v) => v,
            Err(e) => {
                proof {
                    lemma_no_canonical_packs(s);
                }
                return Err(e);
            },
        };
        if n < 0 {
            proof {
                let vv: u32 = vi_val(s1);
                assert(vv > 0x7FFF_FFFF) by (bit_vector)
                    requires
                        n as u32 == vv && n < 0,
                ;
                lemma_no_canonical_packs(s);
            }
            return Err(Error::EndOfPacket);
        }
        let count = n as usize;
        proof {
            assert forall|q: Serverbound|
                q.wf() && #[trigger] wire_prefix(q, s) && (q
                    matches Serverbound::SelectKnownPacks { .. }) implies skp_progress(
                q,
                Seq::<KnownPack>::empty(),
                0,
                d.remaining(),
                s.skip(q.wire().len() as int),
            ) by {
                assert(s =~= q.wire() + s.skip(q.wire().len() as int));
                lemma_wire_layers(q, s, s.skip(q.wire().len() as int));
                match q {
                    Serverbound::SelectKnownPacks { known_packs: qs } => {
                        assert(qs@.skip(0) =~= qs@);
                    },
                    _ => {},
                }
            }
        }
        let mut known_packs: Vec<KnownPack> = Vec::new();
        let mut i: usize = 0;
        while i < count
            invariant
                d.wf(),
                forall|j: int| 0 <= j < known_packs@.len() ==> (#[trigger] known_packs@[j]).wf(),
                known_packs@.len() == i,
                i <= count,
                count <= 0x7FFF_FFFF,
                s == old(d).remaining(),
                s1 == vi_rest(s),
                vi_ok(s) && vi_val(s) == 7,
                vi_ok(s1) && vi_val(s1) == count,
                forall|q: Serverbound|
                    !(q.wf() && #[trigger] wire_prefix(q, s) && !(q
                        matches Serverbound::SelectKnownPacks { .. })),
                forall|q: Serverbound|
                    q.wf() && #[trigger] wire_prefix(q, s) ==> skp_progress(
                        q,
                        known_packs@,
                        i as int,
                        d.remaining(),
                        s.skip(q.wire().len() as int),
                    ),
            decreases count - i,
        {
            let ghost pre = d.remaining();
            let pack = match decode_known_pack(d) {
                Ok(v) => v,
                Err(e) => {
                    proof {
                        assert forall|q: Serverbound| !(q.wf() && #[trigger] wire_prefix(
                            q,
                            s,
                        )) by {
                            if q.wf() && wire_prefix(q, s) {
                                assert(s =~= q.wire() + s.skip(q.wire().len() as int));
                                lemma_wire_layers(q, s, s.skip(q.wire().len() as int));
                                match q {
                                    Serverbound::SelectKnownPacks { known_packs: qs } => {
                                        crate::serialize::lemma_wire_concat_unfold(qs@, i as int);
                                        let kp = qs@[i as int];
                                        assert(kp.wire() == pre.take(kp.wire().len() as int)
                                            && kp.wire().len() <= pre.len()) by {
                                            assert(pre.take(kp.wire().len() as int) =~= kp.wire());
                                        }
                                    },
                                    _ => {},
                                }
                            }
                        }
                    }
                    return Err(e);
                },
            };
            proof {
                assert forall|q: Serverbound|
                    q.wf() && #[trigger] wire_prefix(q, s) implies skp_progress(
                    q,
                    known_packs@.push(pack),
                    i as int + 1,
                    d.remaining(),
                    s.skip(q.wire().len() as int),
                ) by {
                    assert(s =~= q.wire() + s.skip(q.wire().len() as int));
                    lemma_wire_layers(q, s, s.skip(q.wire().len() as int));
                    match q {
                        Serverbound::SelectKnownPacks { known_packs: qs } => {
                            crate::serialize::lemma_wire_concat_unfold(qs@, i as int);
                            let kp = qs@[i as int];
                            assert(kp.wire() == pre.take(kp.wire().len() as int) && kp.wire().len()
                                <= pre.len()) by {
                                assert(pre.take(kp.wire().len() as int) =~= kp.wire());
                            }
                            assert(d.remaining() =~= wire_concat(qs@.skip(i as int + 1)) + s.skip(
                                q.wire().len() as int,
                            ));
                        },
                        _ => {},
                    }
                }
            }
            known_packs.push(pack);
            i = i + 1;
        }
        let p = Serverbound::SelectKnownPacks { known_packs };
        proof {
            assert forall|q: Serverbound|
                q.wf() && #[trigger] wire_prefix(q, s) implies (p.eq_view(q)
                && final(d).remaining() == s.skip(q.wire().len() as int)) by {
                assert(s =~= q.wire() + s.skip(q.wire().len() as int));
                lemma_wire_layers(q, s, s.skip(q.wire().len() as int));
                match q {
                    Serverbound::SelectKnownPacks { known_packs: qs } => {
                        assert(qs@.skip(qs@.len() as int) =~= Seq::<KnownPack>::empty());
                        assert(wire_concat(qs@.skip(qs@.len() as int)) + s.skip(
                            q.wire().len() as int,
                        ) =~= s.skip(q.wire().len() as int));
                    },
                    _ => {},
                }
            }
        }
        Ok(p)
    } else {
        proof {
            let vv: u32 = vi_val(s);
            assert(id == vv as i32 && vv != 0 && vv != 2 && vv != 3 && vv != 7) by (bit_vector)
                requires
                    id as u32 == vv && id != 0 && id != 2 && id != 3 && id != 7,
            ;
            lemma_no_canonical(s);
            lemma_no_canonical_packs(s);
        }
        Err(Error::InvalidPacketId { state: State::Configuration, packet_id: id })
    }
}

/// Decodes one known-pack element: three strings. A canonical pack
/// encoding at the front of the input decodes back to the same pack and
/// consumes exactly itself.
fn decode_known_pack(d: &mut Deserializer) -> (r: Result<KnownPack, Error>)
    requires
        old(d).wf(),
    ensures
        final(d).wf(),
        r matches Ok(p) ==> p.wf(),
        forall|kp: KnownPack|
            kp.wf() && #[trigger] kp.wire() == old(d).remaining().take(kp.wire().len() as int)
                && kp.wire().len() <= old(d).remaining().len() ==> (r matches Ok(p) && pack_eq(
                p,
                kp,
            ) && final(d).remaining() == old(d).remaining().skip(kp.wire().len() as int)),
{
    let ghost s = old(d).remaining();
    let namespace = match d.deserialize_string() {
        Ok(v) => v,
        Err(e) => {
            proof {
                lemma_no_pack_prefix(s);
            }
            return Err(e);
        },
    };
    let id = match d.deserialize_string() {
        Ok(v) => v,
        Err(e) => {
            proof {
                lemma_no_pack_prefix(s);
            }
            return Err(e);
        },
    };
    let version = match d.deserialize_string() {
        Ok(v) => v,
        Err(e) => {
            proof {
                lemma_no_pack_prefix(s);
            }
            return Err(e);
        },
    };
    let p = KnownPack { namespace, id, version };
    proof {
        assert forall|kp: KnownPack|
            kp.wf() && #[trigger] kp.wire() == s.take(kp.wire().len() as int) && kp.wire().len()
                <= s.len() implies (pack_eq(p, kp) && final(d).remaining() == s.skip(
            kp.wire().len() as int,
        )) by {
            let tail = s.skip(kp.wire().len() as int);
            assert(s =~= kp.wire() + tail);
            lemma_pack_layers(kp, tail);
            assert(encode_utf8(namespace@) == encode_utf8(kp.namespace@));
            lemma_utf8_injective(namespace@, kp.namespace@);
            assert(encode_utf8(id@) == encode_utf8(kp.id@));
            lemma_utf8_injective(id@, kp.id@);
            assert(encode_utf8(version@) == encode_utf8(kp.version@));
            lemma_utf8_injective(version@, kp.version@);
        }
    }
    Ok(p)
}

/// If a string stage fails on `s`, no well-formed pack's canonical
/// encoding sits at the front of `s`.
proof fn lemma_no_pack_prefix(s: Seq<u8>)
    requires
        ({
            let n1 = vi_val(s) as int;
            let s1 = vi_rest(s).skip(n1);
            let n2 = vi_val(s1) as int;
            let s2 = vi_rest(s1).skip(n2);
            let n3 = vi_val(s2) as int;
            ||| !vi_ok(s)
            ||| vi_val(s) > 0x7FFF_FFFF
            ||| vi_rest(s).len() < vi_val(s)
            ||| !vstd::utf8::valid_utf8(vi_rest(s).take(n1))
            ||| !vi_ok(s1)
            ||| vi_val(s1) > 0x7FFF_FFFF
            ||| vi_rest(s1).len() < vi_val(s1)
            ||| !vstd::utf8::valid_utf8(vi_rest(s1).take(n2))
            ||| !vi_ok(s2)
            ||| vi_val(s2) > 0x7FFF_FFFF
            ||| vi_rest(s2).len() < vi_val(s2)
            ||| !vstd::utf8::valid_utf8(vi_rest(s2).take(n3))
        }),
    ensures
        forall|kp: KnownPack|
            !(kp.wf() && #[trigger] kp.wire() == s.take(kp.wire().len() as int) && kp.wire().len()
                <= s.len()),
{
    assert forall|kp: KnownPack|
        !(kp.wf() && #[trigger] kp.wire() == s.take(kp.wire().len() as int) && kp.wire().len()
            <= s.len()) by {
        if kp.wf() && kp.wire() == s.take(kp.wire().len() as int) && kp.wire().len() <= s.len() {
            let tail = s.skip(kp.wire().len() as int);
            assert(s =~= kp.wire() + tail);
            lemma_pack_layers(kp, tail);
        }
    }
}


impl Serverbound {
    /// The packet id that opens this packet's body.
    pub open spec fn id_spec(&self) -> u32 {
        match self {
            Serverbound::ClientInformation { .. } => 0,
            Serverbound::CustomPayload { .. } => 2,
            Serverbound::FinishConfiguration => 3,
            Serverbound::SelectKnownPacks { .. } => 7,
        }
    }

    /// Which variant this packet is, as a number.
    pub open spec fn variant_index(&self) -> int {
        match self {
            Serverbound::ClientInformation { .. } => 0,
            Serverbound::CustomPayload { .. } => 1,
            Serverbound::FinishConfiguration => 2,
            Serverbound::SelectKnownPacks { .. } => 3,
        }
    }
}

/// Packet ids are pairwise distinct within this phase and direction: two
/// packets that open with the same id are the same kind of packet.
pub proof fn lemma_serverbound_ids_distinct(p: Serverbound, q: Serverbound)
    ensures
        p.id_spec() == q.id_spec() ==> p.variant_index() == q.variant_index(),
{
}

impl Clientbound {
    /// The packet id that opens this packet's body.
    pub open spec fn id_spec(&self) -> u32 {
        match self {
            Clientbound::Disconnect { .. } => 2,
            Clientbound::FinishConfiguration => 3,
            Clientbound::RegistryData { .. } => 7,
            Clientbound::SelectKnownPacks { .. } => 14,
        }
    }

    /// Which variant this packet is, as a number.
    pub open spec fn variant_index(&self) -> int {
        match self {
            Clientbound::Disconnect { .. } => 0,
            Clientbound::FinishConfiguration => 1,
            Clientbound::RegistryData { .. } => 2,
            Clientbound::SelectKnownPacks { .. } => 3,
        }
    }
}

/// Packet ids are pairwise distinct within this phase and direction: two
/// packets that open with the same id are the same kind of packet.
pub proof fn lemma_clientbound_ids_distinct(p: Clientbound, q: Clientbound)
    ensures
        p.id_spec() == q.id_spec() ==> p.variant_index() == q.variant_index(),
{
}

} // verus!

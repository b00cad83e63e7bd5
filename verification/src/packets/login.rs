//! Login phase packets.

use vstd::prelude::*;
use vstd::utf8::encode_utf8;

use crate::deserialize::{vi_err, vi_ok, vi_rest, vi_val, Deserializer, Error};
use crate::roundtrip::{
    lemma_string_layer, lemma_utf8_injective, lemma_uuid_layer, lemma_varint_layer,
};
use crate::serialize::{Serialize, Serializer};
use crate::state::State;
use crate::varint::varint_seq;
use crate::wire::{prefixed_bytes_wire, string_wire, uuid_wire, Uuid};

verus! {

/// Serverbound login packets.
#[derive(Debug)]
pub enum Serverbound {
    Hello { name: String, player_uuid: Uuid },
    LoginAcknowledged,
}

impl Serverbound {
    /// Same packet, with string fields compared by their characters.
    pub open spec fn eq_view(self, other: Serverbound) -> bool {
        match (self, other) {
            (
                Serverbound::Hello { name: n1, player_uuid: u1 },
                Serverbound::Hello { name: n2, player_uuid: u2 },
            ) => n1@ == n2@ && u1 == u2,
            (Serverbound::LoginAcknowledged, Serverbound::LoginAcknowledged) => true,
            _ => false,
        }
    }
}

impl Serialize for Serverbound {
    open spec fn wf(&self) -> bool {
        match self {
            Serverbound::Hello { name, .. } => encode_utf8(name@).len() <= 0x7FFF_FFFF,
            Serverbound::LoginAcknowledged => true,
        }
    }

    open spec fn wire(&self) -> Seq<u8> {
        match self {
            Serverbound::Hello { name, player_uuid } => varint_seq(0) + string_wire(name@)
                + uuid_wire(*player_uuid),
            Serverbound::LoginAcknowledged => varint_seq(3),
        }
    }

    fn serialize(&self, s: &mut Serializer) {
        match self {
            Serverbound::Hello { name, player_uuid } => {
                s.serialize_varint(0);
                s.serialize_string(name.as_str());
                s.serialize_uuid(*player_uuid);
                assert(s@ =~= old(s)@ + self.wire());
            },
            Serverbound::LoginAcknowledged => {
                s.serialize_varint(3);
                assert(s@ =~= old(s)@ + self.wire());
            },
        }
    }
}

/// Clientbound login packets.
#[derive(Debug)]
pub enum Clientbound {
    LoginDisconnect { reason: String },
    LoginFinished { uuid: Uuid, username: String, properties: Vec<u8> },
}

impl Serialize for Clientbound {
    open spec fn wf(&self) -> bool {
        match self {
            Clientbound::LoginDisconnect { reason } => encode_utf8(reason@).len() <= 0x7FFF_FFFF,
            Clientbound::LoginFinished { username, properties, .. } => encode_utf8(
                username@,
            ).len() <= 0x7FFF_FFFF && properties@.len() <= 0x7FFF_FFFF,
        }
    }

    open spec fn wire(&self) -> Seq<u8> {
        match self {
            Clientbound::LoginDisconnect { reason } => varint_seq(0) + string_wire(reason@),
            Clientbound::LoginFinished { uuid, username, properties } => varint_seq(2) + uuid_wire(
                *uuid,
            ) + string_wire(username@) + prefixed_bytes_wire(properties@),
        }
    }

    fn serialize(&self, s: &mut Serializer) {
        match self {
            Clientbound::LoginDisconnect { reason } => {
                s.serialize_varint(0);
                s.serialize_string(reason.as_str());
                assert(s@ =~= old(s)@ + self.wire());
            },
            Clientbound::LoginFinished { uuid, username, properties } => {
                s.serialize_varint(2);
                s.serialize_uuid(*uuid);
                s.serialize_string(username.as_str());
                s.serialize_prefixed_byte_array(properties.as_slice());
                assert(s@ =~= old(s)@ + self.wire());
            },
        }
    }
}

/// Every decode step that a canonical serverbound encoding at the front of
/// a stream passes through, and what it leaves unread.
pub proof fn lemma_wire_layers(q: Serverbound, s: Seq<u8>, rest: Seq<u8>)
    requires
        q.wf(),
        s == q.wire() + rest,
    ensures
        ({
            match q {
                Serverbound::Hello { name, player_uuid } => {
                    let s1 = vi_rest(s);
                    let nb = encode_utf8(name@);
                    let s2 = vi_rest(s1).skip(nb.len() as int);
                    &&& vi_ok(s) && vi_val(s) == 0
                    &&& vi_ok(s1) && vi_val(s1) == nb.len() && vi_rest(s1).len() >= nb.len()
                    &&& vi_rest(s1).take(nb.len() as int) == nb
                    &&& vstd::utf8::valid_utf8(nb)
                    &&& s2.len() >= 16
                    &&& crate::wire::be8_value(s2.take(8)) == player_uuid.hi
                    &&& crate::wire::be8_value(s2.skip(8).take(8)) == player_uuid.lo
                    &&& s2.skip(16) == rest
                },
                Serverbound::LoginAcknowledged => {
                    &&& vi_ok(s) && vi_val(s) == 3
                    &&& vi_rest(s) == rest
                },
            }
        }),
{
    match q {
        Serverbound::Hello { name, player_uuid } => {
            let r2: Seq<u8> = uuid_wire(player_uuid) + rest;
            let r1: Seq<u8> = string_wire(name@) + r2;
            assert(s =~= varint_seq(0) + r1);
            lemma_varint_layer(0, r1);
            lemma_string_layer(name@, r2);
            lemma_uuid_layer(player_uuid, rest);
        },
        Serverbound::LoginAcknowledged => {
            lemma_varint_layer(3, rest);
            assert(s =~= varint_seq(3) + rest);
        },
    }
}

/// Whether a packet's canonical encoding sits at the front of `s`.
pub open spec fn wire_prefix(q: Serverbound, s: Seq<u8>) -> bool {
    q.wire() == s.take(q.wire().len() as int) && q.wire().len() <= s.len()
}

/// If a decode stage fails on `s`, no packet's canonical encoding sits at
/// the front of `s`.
pub proof fn lemma_no_canonical(s: Seq<u8>)
    requires
        ({
            let s1 = vi_rest(s);
            let n = vi_val(s1) as int;
            let s2 = vi_rest(s1).skip(n);
            ||| !vi_ok(s)
            ||| !(vi_val(s) == 0 || vi_val(s) == 3)
            ||| vi_val(s) == 0 && ({
                ||| !vi_ok(s1)
                ||| vi_val(s1) > 0x7FFF_FFFF
                ||| vi_rest(s1).len() < vi_val(s1)
                ||| !vstd::utf8::valid_utf8(vi_rest(s1).take(n))
                ||| s2.len() < 16
            })
        }),
    ensures
        forall|q: Serverbound| !(q.wf() && #[trigger] wire_prefix(q, s)),
{
    assert forall|q: Serverbound| !(q.wf() && #[trigger] wire_prefix(q, s)) by {
        if q.wf() && wire_prefix(q, s) {
            assert(s =~= q.wire() + s.skip(q.wire().len() as int));
            lemma_wire_layers(q, s, s.skip(q.wire().len() as int));
        }
    }
}

/// Decodes one serverbound login packet from a full packet body.
pub fn decode(d: &mut Deserializer) -> (r: Result<Serverbound, Error>)
    requires
        old(d).wf(),
    ensures
        final(d).wf(),
        ({
            let s = old(d).remaining();
            &&& !vi_ok(s) ==> r == Err::<Serverbound, Error>(vi_err(s))
            &&& (vi_ok(s) && vi_val(s) != 0 && vi_val(s) != 3) ==> r == Err::<Serverbound, Error>(
                Error::InvalidPacketId { state: State::Login, packet_id: vi_val(s) as i32 },
            )
            &&& forall|q: Serverbound|
                q.wf() && #[trigger] wire_prefix(q, s) ==> (r matches Ok(p) && p.eq_view(q)
                    && final(d).remaining() == s.skip(q.wire().len() as int))
        }),
{
    let ghost s = old(d).remaining();
    let id = match d.deserialize_varint() {
        Ok(v) => v,
        Err(e) => {
            proof {
                lemma_no_canonical(s);
            }
            return Err(e);
        },
    };
    if id == 0 {
        let name = match d.deserialize_string() {
            Ok(v) => v,
            Err(e) => {
                proof {
                    lemma_no_canonical(s);
                }
                return Err(e);
            },
        };
        let player_uuid = match d.deserialize_uuid() {
            Ok(v) => v,
            Err(e) => {
                proof {
                    lemma_no_canonical(s);
                }
                return Err(e);
            },
        };
        let p = Serverbound::Hello { name, player_uuid };
        proof {
            assert forall|q: Serverbound|
                q.wf() && #[trigger] wire_prefix(q, s) implies (p.eq_view(q)
                && final(d).remaining() == s.skip(q.wire().len() as int)) by {
                assert(s =~= q.wire() + s.skip(q.wire().len() as int));
                lemma_wire_layers(q, s, s.skip(q.wire().len() as int));
                match q {
                    Serverbound::Hello { name: n2, player_uuid: u2 } => {
                        assert(encode_utf8(name@) == encode_utf8(n2@));
                        lemma_utf8_injective(name@, n2@);
                    },
                    _ => {},
                }
            }
        }
        Ok(p)
    } else if id == 3 {
        proof {
            assert forall|q: Serverbound|
                q.wf() && #[trigger] wire_prefix(q, s) implies (
            Serverbound::LoginAcknowledged.eq_view(q) && final(d).remaining() == s.skip(
                q.wire().len() as int,
            )) by {
                assert(s =~= q.wire() + s.skip(q.wire().len() as int));
                lemma_wire_layers(q, s, s.skip(q.wire().len() as int));
            }
        }
        Ok(Serverbound::LoginAcknowledged)
    } else {
        proof {
            let vv: u32 = vi_val(s);
            assert(id == vv as i32 && vv != 0 && vv != 3) by (bit_vector)
                requires
                    id as u32 == vv && id != 0 && id != 3,
            ;
            lemma_no_canonical(s);
        }
        Err(Error::InvalidPacketId { state: State::Login, packet_id: id })
    }
}


impl Serverbound {
    /// The packet id that opens this packet's body.
    pub open spec fn id_spec(&self) -> u32 {
        match self {
            Serverbound::Hello { .. } => 0,
            Serverbound::LoginAcknowledged => 3,
        }
    }

    /// Which variant this packet is, as a number.
    pub open spec fn variant_index(&self) -> int {
        match self {
            Serverbound::Hello { .. } => 0,
            Serverbound::LoginAcknowledged => 1,
        }
    }
}

/// Packet ids are pairwise distinct within this phase and direction: two
/// packets that open with the same id are the same kind of packet.
pub proof fn lemma_serverbound_ids_distinct(p: Serverbound, q: Serverbound)
    ensures
        p.id_spec() == q.id_spec() ==> p.variant_index() == q.variant_index(),
{
}

impl Clientbound {
    /// The packet id that opens this packet's body.
    pub open spec fn id_spec(&self) -> u32 {
        match self {
            Clientbound::LoginDisconnect { .. } => 0,
            Clientbound::LoginFinished { .. } => 2,
        }
    }

    /// Which variant this packet is, as a number.
    pub open spec fn variant_index(&self) -> int {
        match self {
            Clientbound::LoginDisconnect { .. } => 0,
            Clientbound::LoginFinished { .. } => 1,
        }
    }
}

/// Packet ids are pairwise distinct within this phase and direction: two
/// packets that open with the same id are the same kind of packet.
pub proof fn lemma_clientbound_ids_distinct(p: Clientbound, q: Clientbound)
    ensures
        p.id_spec() == q.id_spec() ==> p.variant_index() == q.variant_index(),
{
}

} // verus!

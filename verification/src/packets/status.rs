//! Status phase packets: the server-list ping.

use vstd::prelude::*;
use vstd::string::StringSliceAdditionalSpecFns;

use crate::deserialize::{vi_err, vi_ok, vi_rest, vi_val, Deserializer, Error};
use crate::json::{status_json, status_json_bytes};
use crate::roundtrip::{lemma_be8_layer, lemma_varint_layer};
use crate::serialize::{Serialize, Serializer};
use crate::state::State;
use crate::varint::varint_seq;
use crate::wire::{be8, prefixed_bytes_wire};

verus! {

/// Serverbound status packets.
#[derive(Clone, Copy, Debug, PartialEq, Eq, Structural)]
pub enum Serverbound {
    StatusRequest,
    PingRequest { timestamp: i64 },
}

/// The game version named in the status document.
#[derive(Debug)]
pub struct Version {
    pub name: String,
    pub protocol: i32,
}

/// Player counts named in the status document.
#[derive(Clone, Copy, Debug, PartialEq, Eq, Structural)]
pub struct Players {
    pub max: u32,
    pub online: u32,
}

/// The server description named in the status document.
#[derive(Debug)]
pub struct TextComponent {
    pub text: String,
}

/// Everything the status document carries.
#[derive(Debug)]
pub struct Status {
    pub version: Version,
    pub players: Players,
    pub description: TextComponent,
}

impl Status {
    /// The JSON bytes this status serializes to.
    pub open spec fn json_spec(&self) -> Seq<u8> {
        status_json_bytes(
            vstd::utf8::encode_utf8(self.version.name@),
            self.version.protocol,
            self.players.max,
            self.players.online,
            vstd::utf8::encode_utf8(self.description.text@),
        )
    }
}

/// Clientbound status packets.
#[derive(Debug)]
pub enum Clientbound {
    StatusResponse { status: Status },
    PongResponse { timestamp: i64 },
}

impl Serialize for Clientbound {
    open spec fn wf(&self) -> bool {
        match self {
            Clientbound::StatusResponse { status } => status.json_spec().len() <= 0x7FFF_FFFF,
            Clientbound::PongResponse { .. } => true,
        }
    }

    open spec fn wire(&self) -> Seq<u8> {
        match self {
            Clientbound::StatusResponse { status } => varint_seq(0) + prefixed_bytes_wire(
                status.json_spec(),
            ),
            Clientbound::PongResponse { timestamp } => varint_seq(1) + be8(*timestamp as u64),
        }
    }

    fn serialize(&self, s: &mut Serializer) {
        match self {
            Clientbound::StatusResponse { status } => {
                s.serialize_varint(0);
                let json = status_json(
                    status.version.name.as_str(),
                    status.version.protocol,
                    status.players.max,
                    status.players.online,
                    status.description.text.as_str(),
                );
                s.serialize_prefixed_byte_array(json.as_slice());
                assert(s@ =~= old(s)@ + self.wire());
            },
            Clientbound::PongResponse { timestamp } => {
                s.serialize_varint(1);
                s.serialize_long(*timestamp);
                assert(s@ =~= old(s)@ + self.wire());
            },
        }
    }
}

impl Serialize for Serverbound {
    open spec fn wf(&self) -> bool {
        true
    }

    open spec fn wire(&self) -> Seq<u8> {
        match self {
            Serverbound::StatusRequest => varint_seq(0),
            Serverbound::PingRequest { timestamp } => varint_seq(1) + be8(*timestamp as u64),
        }
    }

    fn serialize(&self, s: &mut Serializer) {
        match self {
            Serverbound::StatusRequest => {
                s.serialize_varint(0);
                assert(s@ =~= old(s)@ + self.wire());
            },
            Serverbound::PingRequest { timestamp } => {
                s.serialize_varint(1);
                s.serialize_long(*timestamp);
                assert(s@ =~= old(s)@ + self.wire());
            },
        }
    }
}

/// Every decode step that a canonical serverbound encoding at the front of
/// a stream passes through, and what it leaves unread.
pub proof fn lemma_wire_layers(q: Serverbound, s: Seq<u8>, rest: Seq<u8>)
    requires
        q.wf(),
        s == q.wire() + rest,
    ensures
        ({
            match q {
                Serverbound::StatusRequest => {
                    &&& vi_ok(s) && vi_val(s) == 0
                    &&& vi_rest(s) == rest
                },
                Serverbound::PingRequest { timestamp } => {
                    &&& vi_ok(s) && vi_val(s) == 1
                    &&& vi_rest(s).len() >= 8
                    &&& crate::wire::be8_value(vi_rest(s).take(8)) == timestamp as u64
                    &&& vi_rest(s).skip(8) == rest
                },
            }
        }),
{
    match q {
        Serverbound::StatusRequest => {
            lemma_varint_layer(0, rest);
            assert(s =~= varint_seq(0) + rest);
        },
        Serverbound::PingRequest { timestamp } => {
            assert(s =~= varint_seq(1) + (be8(timestamp as u64) + rest));
            lemma_varint_layer(1, be8(timestamp as u64) + rest);
            lemma_be8_layer(timestamp as u64, rest);
        },
    }
}

/// Whether a packet's canonical encoding sits at the front of `s`.
pub open spec fn wire_prefix(q: Serverbound, s: Seq<u8>) -> bool {
    q.wire() == s.take(q.wire().len() as int) && q.wire().len() <= s.len()
}

/// If a decode stage fails on `s`, no packet's canonical encoding sits at
/// the front of `s`.
pub proof fn lemma_no_canonical(s: Seq<u8>)
    requires
        ({
            ||| !vi_ok(s)
            ||| !(vi_val(s) == 0 || vi_val(s) == 1)
            ||| vi_val(s) == 1 && vi_rest(s).len() < 8
        }),
    ensures
        forall|q: Serverbound| !(q.wf() && #[trigger] wire_prefix(q, s)),
{
    assert forall|q: Serverbound| !(q.wf() && #[trigger] wire_prefix(q, s)) by {
        if q.wf() && wire_prefix(q, s) {
            assert(s =~= q.wire() + s.skip(q.wire().len() as int));
            lemma_wire_layers(q, s, s.skip(q.wire().len() as int));
        }
    }
}

/// Decodes one serverbound status packet from a full packet body.
pub fn decode(d: &mut Deserializer) -> (r: Result<Serverbound, Error>)
    requires
        old(d).wf(),
    ensures
        final(d).wf(),
        ({
            let s = old(d).remaining();
            &&& !vi_ok(s) ==> r == Err::<Serverbound, Error>(vi_err(s))
            &&& (vi_ok(s) && vi_val(s) != 0 && vi_val(s) != 1) ==> r == Err::<Serverbound, Error>(
                Error::InvalidPacketId { state: State::Status, packet_id: vi_val(s) as i32 },
            )
            &&& forall|q: Serverbound|
                q.wf() && #[trigger] wire_prefix(q, s) ==> (r matches Ok(p) && p == q
                    && final(d).remaining() == s.skip(q.wire().len() as int))
        }),
{
    let ghost s = old(d).remaining();
    let id = match d.deserialize_varint() {
        Ok(v) => v,
        Err(e) => {
            proof {
                lemma_no_canonical(s);
            }
            return Err(e);
        },
    };
    if id == 0 {
        proof {
            assert forall|q: Serverbound| q.wf() && #[trigger] wire_prefix(q, s) implies (q
                == Serverbound::StatusRequest && final(d).remaining() == s.skip(
                q.wire().len() as int,
            )) by {
                assert(s =~= q.wire() + s.skip(q.wire().len() as int));
                lemma_wire_layers(q, s, s.skip(q.wire().len() as int));
            }
        }
        Ok(Serverbound::StatusRequest)
    } else if id == 1 {
        let timestamp = match d.deserialize_long() {
            Ok(v) => v,
            Err(e) => {
                proof {
                    lemma_no_canonical(s);
                }
                return Err(e);
            },
        };
        proof {
            assert forall|q: Serverbound| q.wf() && #[trigger] wire_prefix(q, s) implies (q
                == Serverbound::PingRequest { timestamp } && final(d).remaining() == s.skip(
                q.wire().len() as int,
            )) by {
                assert(s =~= q.wire() + s.skip(q.wire().len() as int));
                lemma_wire_layers(q, s, s.skip(q.wire().len() as int));
                match q {
                    Serverbound::PingRequest { timestamp: t2 } => {
                        assert(timestamp == t2) by (bit_vector)
                            requires
                                timestamp as u64 == t2 as u64,
                        ;
                    },
                    _ => {},
                }
            }
        }
        Ok(Serverbound::PingRequest { timestamp })
    } else {
        proof {
            let vv: u32 = vi_val(s);
            assert(id == vv as i32 && vv != 0 && vv != 1) by (bit_vector)
                requires
                    id as u32 == vv && id != 0 && id != 1,
            ;
            lemma_no_canonical(s);
        }
        Err(Error::InvalidPacketId { state: State::Status, packet_id: id })
    }
}


impl Serverbound {
    /// The packet id that opens this packet's body.
    pub open spec fn id_spec(&self) -> u32 {
        match self {
            Serverbound::StatusRequest => 0,
            Serverbound::PingRequest { .. } => 1,
        }
    }

    /// Which variant this packet is, as a number.
    pub open spec fn variant_index(&self) -> int {
        match self {
            Serverbound::StatusRequest => 0,
            Serverbound::PingRequest { .. } => 1,
        }
    }
}

/// Packet ids are pairwise distinct within this phase and direction: two
/// packets that open with the same id are the same kind of packet.
pub proof fn lemma_serverbound_ids_distinct(p: Serverbound, q: Serverbound)
    ensures
        p.id_spec() == q.id_spec() ==> p.variant_index() == q.variant_index(),
{
}

impl Clientbound {
    /// The packet id that opens this packet's body.
    pub open spec fn id_spec(&self) -> u32 {
        match self {
            Clientbound::StatusResponse { .. } => 0,
            Clientbound::PongResponse { .. } => 1,
        }
    }

    /// Which variant this packet is, as a number.
    pub open spec fn variant_index(&self) -> int {
        match self {
            Clientbound::StatusResponse { .. } => 0,
            Clientbound::PongResponse { .. } => 1,
        }
    }
}

/// Packet ids are pairwise distinct within this phase and direction: two
/// packets that open with the same id are the same kind of packet.
pub proof fn lemma_clientbound_ids_distinct(p: Clientbound, q: Clientbound)
    ensures
        p.id_spec() == q.id_spec() ==> p.variant_index() == q.variant_index(),
{
}

} // verus!

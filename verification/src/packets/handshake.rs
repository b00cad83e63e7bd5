//! Handshake phase packets (serverbound only).

use vstd::prelude::*;
use vstd::utf8::encode_utf8;

use crate::deserialize::{vi_err, vi_ok, vi_rest, vi_val, Deserializer, Error};
use crate::roundtrip::{lemma_be2_layer, lemma_string_layer, lemma_varint_layer};
use crate::serialize::{Serialize, Serializer};
use crate::state::State;
use crate::varint::varint_seq;
use crate::wire::{be2, string_wire};

verus! {

/// The phase the client asks to move to after the handshake.
#[derive(Clone, Copy, Debug, PartialEq, Eq, Structural)]
pub enum NextState {
    Status,
    Login,
    Transfer,
}

impl NextState {
    /// The varint value that encodes this intention.
    pub open spec fn id_spec(self) -> u32 {
        match self {
            NextState::Status => 1,
            NextState::Login => 2,
            NextState::Transfer => 3,
        }
    }

    pub fn id(self) -> (r: i32)
        ensures
            r as u32 == self.id_spec(),
            1 <= r <= 3,
    {
        match self {
            NextState::Status => 1,
            NextState::Login => 2,
            NextState::Transfer => 3,
        }
    }
}

/// Serverbound handshake packets.
#[derive(Debug)]
pub enum Serverbound {
    Intention {
        protocol_version: i32,
        server_address: String,
        server_port: u16,
        next_state: NextState,
    },
}

impl Serverbound {
    /// Same packet, with string fields compared by their characters.
    pub open spec fn eq_view(self, other: Serverbound) -> bool {
        match (self, other) {
            (
                Serverbound::Intention {
                    protocol_version: pv1,
                    server_address: a1,
                    server_port: sp1,
                    next_state: ns1,
                },
                Serverbound::Intention {
                    protocol_version: pv2,
                    server_address: a2,
                    server_port: sp2,
                    next_state: ns2,
                },
            ) => pv1 == pv2 && a1@ == a2@ && sp1 == sp2 && ns1 == ns2,
        }
    }
}

impl Serialize for Serverbound {
    open spec fn wf(&self) -> bool {
        match self {
            Serverbound::Intention { server_address, .. } => encode_utf8(
                server_address@,
            ).len() <= 0x7FFF_FFFF,
        }
    }

    open spec fn wire(&self) -> Seq<u8> {
        match self {
            Serverbound::Intention {
                protocol_version,
                server_address,
                server_port,
                next_state,
            } => varint_seq(0) + varint_seq(*protocol_version as u32) + string_wire(
                server_address@,
            ) + be2(*server_port) + varint_seq(next_state.id_spec()),
        }
    }

    fn serialize(&self, s: &mut Serializer) {
        match self {
            Serverbound::Intention {
                protocol_version,
                server_address,
                server_port,
                next_state,
            } => {
                s.serialize_varint(0);
                s.serialize_varint(*protocol_version);
                s.serialize_string(server_address.as_str());
                s.serialize_ushort(*server_port);
                s.serialize_varint(next_state.id());
                assert(s@ =~= old(s)@ + self.wire());
            },
        }
    }
}

/// Every decode step that a canonical `Intention` encoding at the front of
/// a stream passes through, and what it leaves unread.
pub proof fn lemma_wire_layers(q: Serverbound, s: Seq<u8>, rest: Seq<u8>)
    requires
        q.wf(),
        s == q.wire() + rest,
    ensures
        ({
            match q {
                Serverbound::Intention {
                    protocol_version,
                    server_address,
                    server_port,
                    next_state,
                } => {
                    let s1 = vi_rest(s);
                    let s2 = vi_rest(s1);
                    let ab = encode_utf8(server_address@);
                    let s3 = vi_rest(s2).skip(ab.len() as int);
                    let s4 = s3.skip(2);
                    &&& vi_ok(s) && vi_val(s) == 0
                    &&& vi_ok(s1) && vi_val(s1) == protocol_version as u32
                    &&& vi_ok(s2) && vi_val(s2) == ab.len() && vi_rest(s2).len() >= ab.len()
                    &&& vi_rest(s2).take(ab.len() as int) == ab
                    &&& vstd::utf8::valid_utf8(ab)
                    &&& s3.len() >= 2 && crate::wire::be2_value(s3.take(2)) == server_port
                    &&& vi_ok(s4) && vi_val(s4) == next_state.id_spec()
                    &&& vi_rest(s4) == rest
                },
            }
        }),
{
    match q {
        Serverbound::Intention {
            protocol_version,
            server_address,
            server_port,
            next_state,
        } => {
            let ab = encode_utf8(server_address@);
            let r4: Seq<u8> = varint_seq(next_state.id_spec()) + rest;
            let r3: Seq<u8> = be2(server_port) + r4;
            let r2: Seq<u8> = string_wire(server_address@) + r3;
            let r1: Seq<u8> = varint_seq(protocol_version as u32) + r2;
            assert(s =~= varint_seq(0) + r1);
            lemma_varint_layer(0, r1);
            lemma_varint_layer(protocol_version as u32, r2);
            lemma_string_layer(server_address@, r3);
            lemma_be2_layer(server_port, r4);
            lemma_varint_layer(next_state.id_spec(), rest);
            assert(vi_rest(vi_rest(s)) == r2);
        },
    }
}

/// Whether a packet's canonical encoding sits at the front of `s`.
pub open spec fn wire_prefix(q: Serverbound, s: Seq<u8>) -> bool {
    q.wire() == s.take(q.wire().len() as int) && q.wire().len() <= s.len()
}

/// If any decode stage fails on `s`, no well-formed packet's canonical
/// encoding sits at the front of `s`.
pub proof fn lemma_no_canonical(s: Seq<u8>)
    requires
        ({
            let s1 = vi_rest(s);
            let s2 = vi_rest(s1);
            let n = vi_val(s2) as int;
            let s3 = vi_rest(s2).skip(n);
            let s4 = s3.skip(2);
            ||| !vi_ok(s)
            ||| vi_val(s) != 0
            ||| !vi_ok(s1)
            ||| !vi_ok(s2)
            ||| vi_val(s2) > 0x7FFF_FFFF
            ||| vi_rest(s2).len() < vi_val(s2)
            ||| !vstd::utf8::valid_utf8(vi_rest(s2).take(n))
            ||| s3.len() < 2
            ||| !vi_ok(s4)
            ||| !(vi_val(s4) == 1 || vi_val(s4) == 2 || vi_val(s4) == 3)
        }),
    ensures
        forall|q: Serverbound| !(q.wf() && #[trigger] wire_prefix(q, s)),
{
    assert forall|q: Serverbound| !(q.wf() && #[trigger] wire_prefix(q, s)) by {
        if q.wf() && wire_prefix(q, s) {
            assert(s =~= q.wire() + s.skip(q.wire().len() as int));
            lemma_wire_layers(q, s, s.skip(q.wire().len() as int));
        }
    }
}

/// A successful decode's values pin the fields of any well-formed packet
/// whose canonical encoding is `s`.
pub proof fn lemma_decode_ok(
    s: Seq<u8>,
    pv: i32,
    addr_chars: Seq<char>,
    port: u16,
    ns_id: u32,
)
    requires
        ({
            let s1 = vi_rest(s);
            let s2 = vi_rest(s1);
            let n = vi_val(s2) as int;
            let s3 = vi_rest(s2).skip(n);
            let s4 = s3.skip(2);
            &&& vi_ok(s) && vi_val(s) == 0
            &&& vi_ok(s1) && pv as u32 == vi_val(s1)
            &&& vi_ok(s2) && vi_val(s2) <= 0x7FFF_FFFF && vi_rest(s2).len() >= vi_val(s2)
            &&& encode_utf8(addr_chars) == vi_rest(s2).take(n)
            &&& s3.len() >= 2 && port as nat == crate::wire::be2_value(s3.take(2))
            &&& vi_ok(s4) && ns_id == vi_val(s4)
        }),
    ensures
        forall|q: Serverbound|
            q.wf() && #[trigger] wire_prefix(q, s) ==> (q matches Serverbound::Intention {
                protocol_version,
                server_address,
                server_port,
                next_state,
            } && protocol_version == pv && server_address@ == addr_chars && server_port == port
                && next_state.id_spec() == ns_id && ({
                let s1 = vi_rest(s);
                let s2 = vi_rest(s1);
                let n = vi_val(s2) as int;
                let s3 = vi_rest(s2).skip(n);
                let s4 = s3.skip(2);
                vi_rest(s4) == s.skip(q.wire().len() as int)
            })),
{
    assert forall|q: Serverbound| q.wf() && #[trigger] wire_prefix(q, s) implies (q
        matches Serverbound::Intention {
        protocol_version,
        server_address,
        server_port,
        next_state,
    } && protocol_version == pv && server_address@ == addr_chars && server_port == port
        && next_state.id_spec() == ns_id && ({
        let s1 = vi_rest(s);
        let s2 = vi_rest(s1);
        let n = vi_val(s2) as int;
        let s3 = vi_rest(s2).skip(n);
        let s4 = s3.skip(2);
        vi_rest(s4) == s.skip(q.wire().len() as int)
    })) by {
        assert(s =~= q.wire() + s.skip(q.wire().len() as int));
        lemma_wire_layers(q, s, s.skip(q.wire().len() as int));
        match q {
            Serverbound::Intention { protocol_version, server_address, server_port, next_state } => {
                assert(pv == protocol_version) by (bit_vector)
                    requires
                        pv as u32 == protocol_version as u32,
                ;
                assert(encode_utf8(addr_chars) == encode_utf8(server_address@));
                crate::roundtrip::lemma_utf8_injective(addr_chars, server_address@);
            },
        }
    }
}

/// Decodes one serverbound handshake packet from a full packet body.
#[verifier::spinoff_prover]
pub fn decode(d: &mut Deserializer) -> (r: Result<Serverbound, Error>)
    requires
        old(d).wf(),
    ensures
        final(d).wf(),
        ({
            let s = old(d).remaining();
            &&& !vi_ok(s) ==> r == Err::<Serverbound, Error>(vi_err(s))
            &&& (vi_ok(s) && vi_val(s) != 0) ==> r == Err::<Serverbound, Error>(
                Error::InvalidPacketId { state: State::Handshake, packet_id: vi_val(s) as i32 },
            )
            &&& forall|q: Serverbound|
                q.wf() && #[trigger] wire_prefix(q, s) ==> (r matches Ok(p) && p.eq_view(q)
                    && final(d).remaining() == s.skip(q.wire().len() as int))
        }),
{
    let ghost s = old(d).remaining();
    let id = match d.deserialize_varint() {
        Ok(v) => v,
        Err(e) => {
            proof {
                lemma_no_canonical(s);
            }
            return Err(e);
        },
    };
    if id != 0 {
        proof {
            let vv: u32 = vi_val(s);
            assert(id == vv as i32 && vv != 0) by (bit_vector)
                requires
                    id as u32 == vv && id != 0,
            ;
            lemma_no_canonical(s);
        }
        return Err(Error::InvalidPacketId { state: State::Handshake, packet_id: id });
    }
    let protocol_version = match d.deserialize_varint() {
        Ok(v) => v,
        Err(e) => {
            proof {
                lemma_no_canonical(s);
            }
            return Err(e);
        },
    };
    let server_address = match d.deserialize_string() {
        Ok(v) => v,
        Err(e) => {
            proof {
                lemma_no_canonical(s);
            }
            return Err(e);
        },
    };
    let server_port = match d.deserialize_ushort() {
        Ok(v) => v,
        Err(e) => {
            proof {
                lemma_no_canonical(s);
            }
            return Err(e);
        },
    };
    let ns_raw = match d.deserialize_varint() {
        Ok(v) => v,
        Err(e) => {
            proof {
                lemma_no_canonical(s);
            }
            return Err(e);
        },
    };
    let next_state = if ns_raw == 1 {
        NextState::Status
    } else if ns_raw == 2 {
        NextState::Login
    } else if ns_raw == 3 {
        NextState::Transfer
    } else {
        proof {
            assert(!(ns_raw as u32 == 1 || ns_raw as u32 == 2 || ns_raw as u32 == 3))
                by (bit_vector)
                requires
                    !(ns_raw == 1 || ns_raw == 2 || ns_raw == 3),
            ;
            lemma_no_canonical(s);
        }
        return Err(Error::InvalidEnumVariant { enum_name: "NextState", value: ns_raw });
    };
    proof {
        lemma_decode_ok(s, protocol_version, server_address@, server_port, ns_raw as u32);
    }
    Ok(Serverbound::Intention { protocol_version, server_address, server_port, next_state })
}


impl Serverbound {
    /// The packet id that opens this packet's body.
    pub open spec fn id_spec(&self) -> u32 {
        match self {
            Serverbound::Intention { .. } => 0,
        }
    }

    /// Which variant this packet is, as a number.
    pub open spec fn variant_index(&self) -> int {
        match self {
            Serverbound::Intention { .. } => 0,
        }
    }
}

/// Packet ids are pairwise distinct within this phase and direction: two
/// packets that open with the same id are the same kind of packet.
pub proof fn lemma_serverbound_ids_distinct(p: Serverbound, q: Serverbound)
    ensures
        p.id_spec() == q.id_spec() ==> p.variant_index() == q.variant_index(),
{
}

} // verus!

//! The per-connection protocol driver: framing, phase-keyed decode dispatch,
//! phase-gated encode, and the error policy.
//!
//! I/O stays outside this crate. The owner of a connection keeps an
//! accumulation buffer, asks `frame_poll` whether a whole frame has arrived,
//! hands frame bodies to `decode_serverbound`, and writes out what
//! `encode_clientbound` returns, framed by `encode_frame`.

use vstd::prelude::*;

use crate::deserialize::{self, vi_ok, vi_rest, vi_val, Deserializer};
use crate::packets::{configuration, handshake, login, play, status};
use crate::serialize::{Serialize, Serializer};
use crate::state::State;
use crate::varint::varint_seq;

verus! {

/// Any serverbound packet, tagged by its phase.
#[derive(Debug)]
pub enum ServerboundPacket {
    Handshake(handshake::Serverbound),
    Status(status::Serverbound),
    Login(login::Serverbound),
    Configuration(configuration::Serverbound),
    Play(play::Serverbound),
}

/// Any clientbound packet, tagged by its phase.
#[derive(Debug)]
pub enum ClientboundPacket {
    Status(status::Clientbound),
    Login(login::Clientbound),
    Configuration(configuration::Clientbound),
    Play(play::Clientbound),
}

impl ClientboundPacket {
    /// The phase a connection must be in for this packet to be sent.
    pub open spec fn expected_state_spec(&self) -> State {
        match self {
            ClientboundPacket::Status(..) => State::Status,
            ClientboundPacket::Login(..) => State::Login,
            ClientboundPacket::Configuration(..) => State::Configuration,
            ClientboundPacket::Play(..) => State::Play,
        }
    }

    pub fn expected_state(&self) -> (r: State)
        ensures
            r == self.expected_state_spec(),
    {
        match self {
            ClientboundPacket::Status(..) => State::Status,
            ClientboundPacket::Login(..) => State::Login,
            ClientboundPacket::Configuration(..) => State::Configuration,
            ClientboundPacket::Play(..) => State::Play,
        }
    }

    pub open spec fn wf(&self) -> bool {
        match self {
            ClientboundPacket::Status(p) => p.wf(),
            ClientboundPacket::Login(p) => p.wf(),
            ClientboundPacket::Configuration(p) => p.wf(),
            ClientboundPacket::Play(p) => p.wf(),
        }
    }

    /// The packet body: id varint, then the fields.
    pub open spec fn wire(&self) -> Seq<u8> {
        match self {
            ClientboundPacket::Status(p) => p.wire(),
            ClientboundPacket::Login(p) => p.wire(),
            ClientboundPacket::Configuration(p) => p.wire(),
            ClientboundPacket::Play(p) => p.wire(),
        }
    }
}

/// Why a connection must be torn down, or a packet skipped.
#[derive(Debug)]
pub enum Error {
    /// Ten seconds passed on a read with no bytes from the client.
    ClientTimedOut,
    /// A packet body failed to decode.
    Deserialize(deserialize::Error),
    /// The handshake asked for the transfer state, which this core does not
    /// implement.
    TransferUnsupported,
}

/// What the connection loop does with an error.
#[derive(Clone, Copy, Debug, PartialEq, Eq, Structural)]
pub enum ErrorAction {
    /// Log and keep the connection: an unknown packet id during Play.
    IgnorePacket,
    /// Drop the connection with no farewell: a receive timeout.
    DropSilently,
    /// Send a phase-appropriate disconnect, then drop.
    Disconnect,
}

impl Error {
    /// The error policy: an unknown packet id during Play is skipped, a
    /// timeout tears the connection down silently, anything else earns a
    /// best-effort disconnect packet.
    pub fn action(&self, state: State) -> (r: ErrorAction)
        ensures
            r == ErrorAction::IgnorePacket <==> (self matches Error::Deserialize(
                deserialize::Error::InvalidPacketId { .. },
            ) && state == State::Play),
            r == ErrorAction::DropSilently <==> self matches Error::ClientTimedOut,
    {
        match self {
            Error::ClientTimedOut => ErrorAction::DropSilently,
            Error::Deserialize(deserialize::Error::InvalidPacketId { .. }) => {
                if state == State::Play {
                    ErrorAction::IgnorePacket
                } else {
                    ErrorAction::Disconnect
                }
            },
            _ => ErrorAction::Disconnect,
        }
    }

    /// A short human-readable reason, for the disconnect packet.
    pub fn message(&self) -> (r: &'static str)
        ensures
            r@.len() > 0,
            r@ == match self {
                Error::ClientTimedOut => "client timed out"@,
                Error::Deserialize(deserialize::Error::EndOfPacket) => "unexpected end of packet"@,
                Error::Deserialize(deserialize::Error::BytesRemaining) => (
                "unread bytes remaining"@),
                Error::Deserialize(deserialize::Error::VarintTooLong) => "varint is too long"@,
                Error::Deserialize(deserialize::Error::VarlongTooLong) => "varlong is too long"@,
                Error::Deserialize(deserialize::Error::InvalidPacketId { .. }) => (
                "invalid packet id"@),
                Error::Deserialize(deserialize::Error::InvalidEnumVariant { .. }) => (
                "invalid enum variant"@),
                Error::Deserialize(deserialize::Error::Utf8Error) => "string is not UTF-8"@,
                Error::TransferUnsupported => "transfer is not supported"@,
            },
    {
        let r = match self {
            Error::ClientTimedOut => "client timed out",
            Error::Deserialize(deserialize::Error::EndOfPacket) => "unexpected end of packet",
            Error::Deserialize(deserialize::Error::BytesRemaining) => "unread bytes remaining",
            Error::Deserialize(deserialize::Error::VarintTooLong) => "varint is too long",
            Error::Deserialize(deserialize::Error::VarlongTooLong) => "varlong is too long",
            Error::Deserialize(deserialize::Error::InvalidPacketId { .. }) => "invalid packet id",
            Error::Deserialize(deserialize::Error::InvalidEnumVariant { .. }) => (
            "invalid enum variant"),
            Error::Deserialize(deserialize::Error::Utf8Error) => "string is not UTF-8",
            Error::TransferUnsupported => "transfer is not supported",
        };
        proof {
            reveal_strlit("client timed out");
            reveal_strlit("unexpected end of packet");
            reveal_strlit("unread bytes remaining");
            reveal_strlit("varint is too long");
            reveal_strlit("varlong is too long");
            reveal_strlit("invalid packet id");
            reveal_strlit("invalid enum variant");
            reveal_strlit("string is not UTF-8");
            reveal_strlit("transfer is not supported");
        }
        r
    }
}

/// The wire envelope of one frame: varint byte count, then the body.
pub open spec fn frame_wire(body: Seq<u8>) -> Seq<u8> {
    varint_seq(body.len() as u32) + body
}

/// Wraps a packet body in a frame envelope.
pub fn encode_frame(body: &[u8]) -> (r: Vec<u8>)
    requires
        body@.len() <= 0x7FFF_FFFF,
    ensures
        r@ == frame_wire(body@),
{
    let mut s = Serializer::new();
    s.serialize_prefixed_byte_array(body);
    let r = s.finish();
    proof {
        assert(r@ =~= frame_wire(body@));
    }
    r
}

/// Tries to split one whole frame off the front of the accumulation buffer.
/// `Some((body, consumed))` hands back the frame body and how many buffer
/// bytes it occupied, envelope included; `None` asks for another read.
pub fn frame_poll(buf: &[u8]) -> (r: Option<(Vec<u8>, usize)>)
    ensures
        ({
            let s = buf@;
            let complete = vi_ok(s) && vi_val(s) <= 0x7FFF_FFFF && vi_rest(s).len() >= vi_val(s);
            &&& complete ==> (r matches Some(f) && f.0@ == vi_rest(s).take(vi_val(s) as int)
                && f.1 <= s.len() && s.skip(f.1 as int) == vi_rest(s).skip(vi_val(s) as int))
            &&& !complete ==> r is None
        }),
{
    let v = vstd::slice::slice_to_vec(buf);
    let mut d = Deserializer::new(v);
    let ghost s = buf@;
    match d.deserialize_prefixed_byte_array() {
        Ok(body) => {
            proof {
                crate::varint::lemma_leb_term_index_range(s);
                assert(d.remaining() =~= s.skip(
                    crate::varint::leb_term_index(s) + 1 + vi_val(s) as int,
                ));
            }
            let consumed = buf.len() - d.remaining_len();
            proof {
                assert(s.skip(consumed as int) =~= d.remaining());
            }
            Some((body, consumed))
        },
        Err(_) => None,
    }
}

/// A framed body polls back out unchanged: decoding the envelope that
/// `encode_frame` wrote yields exactly the body, whatever follows it.
pub proof fn lemma_frame_identity(body: Seq<u8>, extra: Seq<u8>)
    requires
        body.len() <= 0x7FFF_FFFF,
    ensures
        ({
            let s = frame_wire(body) + extra;
            &&& vi_ok(s) && vi_val(s) == body.len() && vi_rest(s).len() >= vi_val(s)
            &&& vi_rest(s).take(vi_val(s) as int) == body
            &&& vi_rest(s).skip(vi_val(s) as int) == extra
        }),
{
    crate::roundtrip::lemma_prefixed_bytes_layer(body, extra);
    assert(frame_wire(body) + extra =~= crate::wire::prefixed_bytes_wire(body) + extra);
}

/// The next phase after a packet decodes, per the transition table: the
/// handshake intention picks Status or Login, the login acknowledgement
/// enters Configuration, and finishing configuration enters Play.
pub open spec fn next_state_spec(state: State, p: ServerboundPacket) -> State {
    match p {
        ServerboundPacket::Handshake(
            handshake::Serverbound::Intention { next_state: handshake::NextState::Status, .. },
        ) => State::Status,
        ServerboundPacket::Handshake(
            handshake::Serverbound::Intention { next_state: handshake::NextState::Login, .. },
        ) => State::Login,
        ServerboundPacket::Login(login::Serverbound::LoginAcknowledged) => State::Configuration,
        ServerboundPacket::Configuration(configuration::Serverbound::FinishConfiguration) => (
        State::Play),
        _ => state,
    }
}

/// Decodes one frame body in the current phase and returns the packet with
/// the phase that now holds. A canonical packet encoding decodes back to
/// the same packet; trailing bytes after it fail with `BytesRemaining`,
/// except behind a `CustomPayload`, whose opaque data swallows the rest of
/// the body. A handshake asking for the transfer state is refused.
pub fn decode_serverbound(state: State, body: Vec<u8>) -> (r: Result<
    (ServerboundPacket, State),
    Error,
>)
    ensures
        ({
            let s = body@;
            &&& (r matches Ok(p) ==> p.1 == next_state_spec(state, p.0))
            &&& state == State::Handshake ==> (forall|q: handshake::Serverbound|
                q.wf() && #[trigger] handshake::wire_prefix(q, s) ==> ({
                    &&& (q.wire().len() == s.len() && !(q
                        matches handshake::Serverbound::Intention {
                        next_state: handshake::NextState::Transfer,
                        ..
                    })) ==> (r matches Ok(p) && p.0 matches ServerboundPacket::Handshake(h)
                        && h.eq_view(q) && p.1 == next_state_spec(state, p.0))
                    &&& (q.wire().len() == s.len() && (q
                        matches handshake::Serverbound::Intention {
                        next_state: handshake::NextState::Transfer,
                        ..
                    })) ==> (r matches Err(e) && e matches Error::TransferUnsupported)
                    &&& q.wire().len() < s.len() ==> r == Err::<(ServerboundPacket, State), Error>(
                        Error::Deserialize(deserialize::Error::BytesRemaining),
                    )
                }))
            &&& state == State::Status ==> (forall|q: status::Serverbound|
                q.wf() && #[trigger] status::wire_prefix(q, s) ==> ({
                    &&& q.wire().len() == s.len() ==> (r matches Ok(p) && p.0
                        matches ServerboundPacket::Status(h) && h == q && p.1 == state)
                    &&& q.wire().len() < s.len() ==> r == Err::<(ServerboundPacket, State), Error>(
                        Error::Deserialize(deserialize::Error::BytesRemaining),
                    )
                }))
            &&& state == State::Login ==> (forall|q: login::Serverbound|
                q.wf() && #[trigger] login::wire_prefix(q, s) ==> ({
                    &&& q.wire().len() == s.len() ==> (r matches Ok(p) && p.0
                        matches ServerboundPacket::Login(h) && h.eq_view(q) && p.1
                        == next_state_spec(state, p.0))
                    &&& q.wire().len() < s.len() ==> r == Err::<(ServerboundPacket, State), Error>(
                        Error::Deserialize(deserialize::Error::BytesRemaining),
                    )
                }))
            &&& state == State::Configuration ==> (forall|q: configuration::Serverbound|
                q.wf() && #[trigger] configuration::wire_prefix(q, s) ==> ({
                    &&& q.wire().len() == s.len() ==> (r matches Ok(p) && p.0
                        matches ServerboundPacket::Configuration(h) && h.eq_view(q) && p.1
                        == next_state_spec(state, p.0))
                    &&& (q.wire().len() < s.len() && !(q
                        matches configuration::Serverbound::CustomPayload { .. })) ==> r == Err::<
                        (ServerboundPacket, State),
                        Error,
                    >(Error::Deserialize(deserialize::Error::BytesRemaining))
                }))
            &&& state == State::Play ==> (forall|q: play::Serverbound|
                q.wf() && #[trigger] play::wire_prefix(q, s) ==> ({
                    &&& q.wire().len() == s.len() ==> (r matches Ok(p) && p.0
                        matches ServerboundPacket::Play(h) && h.eq_view(q) && p.1 == state)
                    &&& (q.wire().len() < s.len() && !(q
                        matches play::Serverbound::CustomPayload { .. })) ==> r == Err::<
                        (ServerboundPacket, State),
                        Error,
                    >(Error::Deserialize(deserialize::Error::BytesRemaining))
                }))
        }),
{
    let mut d = Deserializer::new(body);
    match state {
        State::Handshake => {
            let p = match handshake::decode(&mut d) {
                Ok(p) => p,
                Err(e) => {
                    return Err(Error::Deserialize(e));
                },
            };
            match d.finish() {
                Ok(()) => {},
                Err(e) => {
                    return Err(Error::Deserialize(e));
                },
            }
            let next = match &p {
                handshake::Serverbound::Intention { next_state, .. } => {
                    match next_state {
                        handshake::NextState::Status => State::Status,
                        handshake::NextState::Login => State::Login,
                        handshake::NextState::Transfer => {
                            return Err(Error::TransferUnsupported);
                        },
                    }
                },
            };
            Ok((ServerboundPacket::Handshake(p), next))
        },
        State::Status => {
            let p = match status::decode(&mut d) {
                Ok(p) => p,
                Err(e) => {
                    return Err(Error::Deserialize(e));
                },
            };
            match d.finish() {
                Ok(()) => {},
                Err(e) => {
                    return Err(Error::Deserialize(e));
                },
            }
            Ok((ServerboundPacket::Status(p), State::Status))
        },
        State::Login => {
            let p = match login::decode(&mut d) {
                Ok(p) => p,
                Err(e) => {
                    return Err(Error::Deserialize(e));
                },
            };
            match d.finish() {
                Ok(()) => {},
                Err(e) => {
                    return Err(Error::Deserialize(e));
                },
            }
            let next = match &p {
                login::Serverbound::LoginAcknowledged => State::Configuration,
                _ => State::Login,
            };
            Ok((ServerboundPacket::Login(p), next))
        },
        State::Configuration => {
            let p = match configuration::decode(&mut d) {
                Ok(p) => p,
                Err(e) => {
                    return Err(Error::Deserialize(e));
                },
            };
            match d.finish() {
                Ok(()) => {},
                Err(e) => {
                    return Err(Error::Deserialize(e));
                },
            }
            let next = match &p {
                configuration::Serverbound::FinishConfiguration => State::Play,
                _ => State::Configuration,
            };
            Ok((ServerboundPacket::Configuration(p), next))
        },
        State::Play => {
            let p = match play::decode(&mut d) {
                Ok(p) => p,
                Err(e) => {
                    return Err(Error::Deserialize(e));
                },
            };
            match d.finish() {
                Ok(()) => {},
                Err(e) => {
                    return Err(Error::Deserialize(e));
                },
            }
            Ok((ServerboundPacket::Play(p), State::Play))
        },
    }
}

/// Encodes one clientbound packet body. The packet's phase must be the
/// connection's phase; callers outside this crate check with
/// `expected_state` first.
pub fn encode_clientbound(state: State, packet: &ClientboundPacket) -> (r: Vec<u8>)
    requires
        packet.wf(),
        packet.expected_state_spec() == state,
    ensures
        r@ == packet.wire(),
{
    let mut s = Serializer::new();
    match packet {
        ClientboundPacket::Status(p) => p.serialize(&mut s),
        ClientboundPacket::Login(p) => p.serialize(&mut s),
        ClientboundPacket::Configuration(p) => p.serialize(&mut s),
        ClientboundPacket::Play(p) => p.serialize(&mut s),
    }
    s.finish()
}

/// The phase-appropriate farewell before dropping a connection on an
/// error: nothing in Handshake or Status, a login disconnect in Login, an
/// NBT-text disconnect in Configuration and Play.
pub fn disconnect_packet(state: State, reason: String) -> (r: Option<ClientboundPacket>)
    requires
        vstd::utf8::encode_utf8(reason@).len() <= 0xFFFF,
    ensures
        (state == State::Handshake || state == State::Status) <==> r is None,
        r matches Some(p) ==> p.wf() && p.expected_state_spec() == state,
        state == State::Login ==> (r matches Some(p) && (p matches ClientboundPacket::Login(
            login::Clientbound::LoginDisconnect { reason: r2 },
        ) && r2@ == reason@)),
        state == State::Configuration ==> (r matches Some(p) && (p
            matches ClientboundPacket::Configuration(
            configuration::Clientbound::Disconnect { reason: r2 },
        ) && r2@ == reason@)),
        state == State::Play ==> (r matches Some(p) && (p matches ClientboundPacket::Play(
            play::Clientbound::Disconnect { reason: r2 },
        ) && r2@ == reason@)),
{
    match state {
        State::Handshake => None,
        State::Status => None,
        State::Login => Some(
            ClientboundPacket::Login(login::Clientbound::LoginDisconnect { reason }),
        ),
        State::Configuration => Some(
            ClientboundPacket::Configuration(configuration::Clientbound::Disconnect { reason }),
        ),
        State::Play => Some(ClientboundPacket::Play(play::Clientbound::Disconnect { reason })),
    }
}

} // verus!

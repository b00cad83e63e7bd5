//! Play phase packets. Floats and doubles travel as their IEEE-754 bits.

use vstd::prelude::*;
use vstd::utf8::encode_utf8;

use crate::deserialize::{vi_err, vi_ok, vi_rest, vi_val, Deserializer, Error};
use crate::nbt::Tag;
use crate::roundtrip::{lemma_be8_layer, lemma_string_layer, lemma_utf8_injective, lemma_varint_layer};
use crate::serialize::{Serialize, Serializer};
use crate::state::State;
use crate::varint::varint_seq;
use crate::wire::{be2, be4, be8, bool_byte, prefixed_bytes_wire, string_wire, uuid_wire, Uuid};

verus! {

/// Serverbound play packets.
#[derive(Debug)]
pub enum Serverbound {
    AcceptTeleportation { teleport_id: i32 },
    ChunkBatchReceived { chunks_per_tick_bits: u32 },
    ClientTickEnd,
    CustomPayload { channel: String, data: Vec<u8> },
    MovePlayerPos { x_bits: u64, feet_y_bits: u64, z_bits: u64, flags: i8 },
    MovePlayerPosRot {
        x_bits: u64,
        feet_y_bits: u64,
        z_bits: u64,
        yaw_bits: u32,
        pitch_bits: u32,
        flags: i8,
    },
}

impl Serverbound {
    /// Same packet, with strings and buffers compared by their contents.
    pub open spec fn eq_view(self, other: Serverbound) -> bool {
        match (self, other) {
            (
                Serverbound::AcceptTeleportation { teleport_id: t1 },
                Serverbound::AcceptTeleportation { teleport_id: t2 },
            ) => t1 == t2,
            (
                Serverbound::ChunkBatchReceived { chunks_per_tick_bits: c1 },
                Serverbound::ChunkBatchReceived { chunks_per_tick_bits: c2 },
            ) => c1 == c2,
            (Serverbound::ClientTickEnd, Serverbound::ClientTickEnd) => true,
            (
                Serverbound::CustomPayload { channel: c1, data: d1 },
                Serverbound::CustomPayload { channel: c2, data: d2 },
            ) => c1@ == c2@ && d1@ == d2@,
            (
                Serverbound::MovePlayerPos { x_bits: x1, feet_y_bits: y1, z_bits: z1, flags: f1 },
                Serverbound::MovePlayerPos { x_bits: x2, feet_y_bits: y2, z_bits: z2, flags: f2 },
            ) => x1 == x2 && y1 == y2 && z1 == z2 && f1 == f2,
            (
                Serverbound::MovePlayerPosRot {
                    x_bits: x1,
                    feet_y_bits: y1,
                    z_bits: z1,
                    yaw_bits: w1,
                    pitch_bits: p1,
                    flags: f1,
                },
                Serverbound::MovePlayerPosRot {
                    x_bits: x2,
                    feet_y_bits: y2,
                    z_bits: z2,
                    yaw_bits: w2,
                    pitch_bits: p2,
                    flags: f2,
                },
            ) => x1 == x2 && y1 == y2 && z1 == z2 && w1 == w2 && p1 == p2 && f1 == f2,
            _ => false,
        }
    }
}

impl Serialize for Serverbound {
    open spec fn wf(&self) -> bool {
        match self {
            Serverbound::CustomPayload { channel, .. } => encode_utf8(channel@).len()
                <= 0x7FFF_FFFF,
            _ => true,
        }
    }

    open spec fn wire(&self) -> Seq<u8> {
        match self {
            Serverbound::AcceptTeleportation { teleport_id } => varint_seq(0) + varint_seq(
                *teleport_id as u32,
            ),
            Serverbound::ChunkBatchReceived { chunks_per_tick_bits } => varint_seq(9) + be4(
                *chunks_per_tick_bits,
            ),
            Serverbound::ClientTickEnd => varint_seq(11),
            Serverbound::CustomPayload { channel, data } => varint_seq(20) + string_wire(channel@)
                + data@,
            Serverbound::MovePlayerPos { x_bits, feet_y_bits, z_bits, flags } => varint_seq(28)
                + be8(*x_bits) + be8(*feet_y_bits) + be8(*z_bits) + seq![*flags as u8],
            Serverbound::MovePlayerPosRot {
                x_bits,
                feet_y_bits,
                z_bits,
                yaw_bits,
                pitch_bits,
                flags,
            } => varint_seq(29) + be8(*x_bits) + be8(*feet_y_bits) + be8(*z_bits) + be4(*yaw_bits)
                + be4(*pitch_bits) + seq![*flags as u8],
        }
    }

    fn serialize(&self, s: &mut Serializer) {
        match self {
            Serverbound::AcceptTeleportation { teleport_id } => {
                s.serialize_varint(0);
                s.serialize_varint(*teleport_id);
                assert(s@ =~= old(s)@ + self.wire());
            },
            Serverbound::ChunkBatchReceived { chunks_per_tick_bits } => {
                s.serialize_varint(9);
                s.serialize_float_bits(*chunks_per_tick_bits);
                assert(s@ =~= old(s)@ + self.wire());
            },
            Serverbound::ClientTickEnd => {
                s.serialize_varint(11);
                assert(s@ =~= old(s)@ + self.wire());
            },
            Serverbound::CustomPayload { channel, data } => {
                s.serialize_varint(20);
                s.serialize_string(channel.as_str());
                s.serialize_byte_array(data.as_slice());
                assert(s@ =~= old(s)@ + self.wire());
            },
            Serverbound::MovePlayerPos { x_bits, feet_y_bits, z_bits, flags } => {
                s.serialize_varint(28);
                s.serialize_double_bits(*x_bits);
                s.serialize_double_bits(*feet_y_bits);
                s.serialize_double_bits(*z_bits);
                s.serialize_byte(*flags);
                assert(s@ =~= old(s)@ + self.wire());
            },
            Serverbound::MovePlayerPosRot {
                x_bits,
                feet_y_bits,
                z_bits,
                yaw_bits,
                pitch_bits,
                flags,
            } => {
                s.serialize_varint(29);
                s.serialize_double_bits(*x_bits);
                s.serialize_double_bits(*feet_y_bits);
                s.serialize_double_bits(*z_bits);
                s.serialize_float_bits(*yaw_bits);
                s.serialize_float_bits(*pitch_bits);
                s.serialize_byte(*flags);
                assert(s@ =~= old(s)@ + self.wire());
            },
        }
    }
}

/// Events of the clientbound `GameEvent` packet used here.
#[derive(Clone, Copy, Debug, PartialEq, Eq, Structural)]
pub enum GameEvent {
    StartChunks,
}

impl GameEvent {
    /// The event byte on the wire.
    pub open spec fn byte_spec(self) -> u8 {
        match self {
            GameEvent::StartChunks => 13,
        }
    }

    pub fn byte(self) -> (r: u8)
        ensures
            r == self.byte_spec(),
    {
        match self {
            GameEvent::StartChunks => 13,
        }
    }
}

/// The chunk payload of `LevelChunkWithLight`: heightmaps, then the packed
/// subchunk bytes, then an empty block-entity array.
#[derive(Debug)]
pub struct ChunkData {
    pub heightmaps: Tag,
    pub data: Vec<u8>,
}

impl Serialize for ChunkData {
    open spec fn wf(&self) -> bool {
        &&& self.heightmaps.wf()
        &&& self.data@.len() <= 0x7FFF_FFFF
    }

    open spec fn wire(&self) -> Seq<u8> {
        self.heightmaps.unnamed_wire() + prefixed_bytes_wire(self.data@) + varint_seq(0)
    }

    fn serialize(&self, s: &mut Serializer) {
        self.heightmaps.serialize_unnamed(s);
        s.serialize_prefixed_byte_array(self.data.as_slice());
        s.serialize_varint(0);
        assert(s@ =~= old(s)@ + self.wire());
    }
}

/// The stub light payload: four masks each holding a single zero long, and
/// two empty light arrays.
#[derive(Debug)]
pub struct LightData {}

/// The wire bytes of one single-zero-long mask.
pub open spec fn zero_mask_wire() -> Seq<u8> {
    varint_seq(1) + be8(0)
}

impl Serialize for LightData {
    open spec fn wf(&self) -> bool {
        true
    }

    open spec fn wire(&self) -> Seq<u8> {
        zero_mask_wire() + zero_mask_wire() + zero_mask_wire() + zero_mask_wire() + varint_seq(0)
            + varint_seq(0)
    }

    fn serialize(&self, s: &mut Serializer) {
        s.serialize_varint(1);
        s.serialize_long(0);
        s.serialize_varint(1);
        s.serialize_long(0);
        s.serialize_varint(1);
        s.serialize_long(0);
        s.serialize_varint(1);
        s.serialize_long(0);
        s.serialize_varint(0);
        s.serialize_varint(0);
        assert(s@ =~= old(s)@ + self.wire());
    }
}

/// The fields of the `Login` packet that vary; everything else this core
/// sends is fixed: one dimension named overworld, view and simulation
/// distance eight, no respawn screen tweaks, no death location.
#[derive(Clone, Copy, Debug, PartialEq, Eq, Structural)]
pub struct LoginData {
    pub game_mode: u8,
    pub enforces_secure_chat: bool,
    pub is_flat: bool,
}

/// The wire form of the string `overworld`.
pub open spec fn overworld_wire() -> Seq<u8> {
    seq![0x09u8, 0x6Fu8, 0x76u8, 0x65u8, 0x72u8, 0x77u8, 0x6Fu8, 0x72u8, 0x6Cu8, 0x64u8]
}

fn serialize_overworld(s: &mut Serializer)
    ensures
        final(s)@ == old(s)@ + overworld_wire(),
{
    s.serialize_ubyte(0x09);
    s.serialize_ubyte(0x6F);
    s.serialize_ubyte(0x76);
    s.serialize_ubyte(0x65);
    s.serialize_ubyte(0x72);
    s.serialize_ubyte(0x77);
    s.serialize_ubyte(0x6F);
    s.serialize_ubyte(0x72);
    s.serialize_ubyte(0x6C);
    s.serialize_ubyte(0x64);
    assert(s@ =~= old(s)@ + overworld_wire());
}

impl Serialize for LoginData {
    open spec fn wf(&self) -> bool {
        true
    }

    open spec fn wire(&self) -> Seq<u8> {
        seq![bool_byte(false)] + varint_seq(1) + overworld_wire() + varint_seq(1) + varint_seq(8)
            + varint_seq(8) + seq![bool_byte(false)] + seq![bool_byte(false)] + seq![
            bool_byte(false),
        ] + varint_seq(0) + overworld_wire() + be8(0) + seq![self.game_mode] + seq![0xFFu8] + seq![
            bool_byte(false),
        ] + seq![bool_byte(self.is_flat)] + seq![bool_byte(false)] + varint_seq(0) + varint_seq(0)
            + seq![bool_byte(self.enforces_secure_chat)]
    }

    #[verifier::rlimit(60)]
    fn serialize(&self, s: &mut Serializer) {
        s.serialize_boolean(false);
        s.serialize_varint(1);
        serialize_overworld(s);
        s.serialize_varint(1);
        s.serialize_varint(8);
        s.serialize_varint(8);
        s.serialize_boolean(false);
        s.serialize_boolean(false);
        s.serialize_boolean(false);
        s.serialize_varint(0);
        serialize_overworld(s);
        s.serialize_long(0);
        s.serialize_ubyte(self.game_mode);
        s.serialize_byte(-1);
        s.serialize_boolean(false);
        s.serialize_boolean(self.is_flat);
        s.serialize_boolean(false);
        s.serialize_varint(0);
        s.serialize_varint(0);
        s.serialize_boolean(self.enforces_secure_chat);
        assert((-1i8) as u8 == 0xFFu8) by (bit_vector);
        assert(s@ =~= old(s)@ + self.wire());
    }
}

/// Clientbound play packets.
#[derive(Debug)]
pub enum Clientbound {
    AddEntity {
        entity_id: i32,
        entity_uuid: Uuid,
        entity_type: i32,
        x_bits: u64,
        y_bits: u64,
        z_bits: u64,
        pitch: u8,
        yaw: u8,
        head_yaw: u8,
        data: i32,
        velocity_x: i16,
        velocity_y: i16,
        velocity_z: i16,
    },
    ChunkBatchFinished { batch_size: i32 },
    ChunkBatchStart,
    Disconnect { reason: String },
    EntityPositionSync {
        entity_id: i32,
        x_bits: u64,
        y_bits: u64,
        z_bits: u64,
        velocity_x_bits: u64,
        velocity_y_bits: u64,
        velocity_z_bits: u64,
        yaw_bits: u32,
        pitch_bits: u32,
        on_ground: bool,
    },
    GameEvent { event: GameEvent, value_bits: u32 },
    KeepAlive { keep_alive_id: i64 },
    LevelChunkWithLight { chunk_x: i32, chunk_z: i32, data: ChunkData, light: LightData },
    Login { entity_id: i32, data: LoginData },
    PlayerPosition {
        teleport_id: i32,
        x_bits: u64,
        y_bits: u64,
        z_bits: u64,
        velocity_x_bits: u64,
        velocity_y_bits: u64,
        velocity_z_bits: u64,
        yaw_bits: u32,
        pitch_bits: u32,
        flags: i32,
    },
    SetChunkCacheCenter { chunk_x: i32, chunk_z: i32 },
}

impl Serialize for Clientbound {
    open spec fn wf(&self) -> bool {
        match self {
            Clientbound::Disconnect { reason } => encode_utf8(reason@).len() <= 0xFFFF,
            Clientbound::LevelChunkWithLight { data, .. } => data.wf(),
            _ => true,
        }
    }

    open spec fn wire(&self) -> Seq<u8> {
        match self {
            Clientbound::AddEntity {
                entity_id,
                entity_uuid,
                entity_type,
                x_bits,
                y_bits,
                z_bits,
                pitch,
                yaw,
                head_yaw,
                data,
                velocity_x,
                velocity_y,
                velocity_z,
            } => varint_seq(0x01) + varint_seq(*entity_id as u32) + uuid_wire(*entity_uuid)
                + varint_seq(*entity_type as u32) + be8(*x_bits) + be8(*y_bits) + be8(*z_bits)
                + seq![*pitch] + seq![*yaw] + seq![*head_yaw] + varint_seq(*data as u32) + be2(
                *velocity_x as u16,
            ) + be2(*velocity_y as u16) + be2(*velocity_z as u16),
            Clientbound::ChunkBatchFinished { batch_size } => varint_seq(0x0C) + varint_seq(
                *batch_size as u32,
            ),
            Clientbound::ChunkBatchStart => varint_seq(0x0D),
            // The disconnect reason travels as an unnamed NBT string tag.
            Clientbound::Disconnect { reason } => varint_seq(0x1D) + Tag::String(
                *reason,
            ).unnamed_wire(),
            Clientbound::EntityPositionSync {
                entity_id,
                x_bits,
                y_bits,
                z_bits,
                velocity_x_bits,
                velocity_y_bits,
                velocity_z_bits,
                yaw_bits,
                pitch_bits,
                on_ground,
            } => varint_seq(0x20) + varint_seq(*entity_id as u32) + be8(*x_bits) + be8(*y_bits)
                + be8(*z_bits) + be8(*velocity_x_bits) + be8(*velocity_y_bits) + be8(
                *velocity_z_bits,
            ) + be4(*yaw_bits) + be4(*pitch_bits) + seq![bool_byte(*on_ground)],
            Clientbound::GameEvent { event, value_bits } => varint_seq(0x23) + seq![
                event.byte_spec(),
            ] + be4(*value_bits),
            Clientbound::KeepAlive { keep_alive_id } => varint_seq(0x27) + be8(
                *keep_alive_id as u64,
            ),
            Clientbound::LevelChunkWithLight { chunk_x, chunk_z, data, light } => varint_seq(0x28)
                + be4(*chunk_x as u32) + be4(*chunk_z as u32) + data.wire() + light.wire(),
            Clientbound::Login { entity_id, data } => varint_seq(0x2C) + be4(*entity_id as u32)
                + data.wire(),
            Clientbound::PlayerPosition {
                teleport_id,
                x_bits,
                y_bits,
                z_bits,
                velocity_x_bits,
                velocity_y_bits,
                velocity_z_bits,
                yaw_bits,
                pitch_bits,
                flags,
            } => varint_seq(0x42) + varint_seq(*teleport_id as u32) + be8(*x_bits) + be8(*y_bits)
                + be8(*z_bits) + be8(*velocity_x_bits) + be8(*velocity_y_bits) + be8(
                *velocity_z_bits,
            ) + be4(*yaw_bits) + be4(*pitch_bits) + be4(*flags as u32),
            Clientbound::SetChunkCacheCenter { chunk_x, chunk_z } => varint_seq(0x58) + varint_seq(
                *chunk_x as u32,
            ) + varint_seq(*chunk_z as u32),
        }
    }

    #[verifier::rlimit(100)]
    fn serialize(&self, s: &mut Serializer) {
        match self {
            Clientbound::AddEntity {
                entity_id,
                entity_uuid,
                entity_type,
                x_bits,
                y_bits,
                z_bits,
                pitch,
                yaw,
                head_yaw,
                data,
                velocity_x,
                velocity_y,
                velocity_z,
            } => {
                s.serialize_varint(0x01);
                s.serialize_varint(*entity_id);
                s.serialize_uuid(*entity_uuid);
                s.serialize_varint(*entity_type);
                s.serialize_double_bits(*x_bits);
                s.serialize_double_bits(*y_bits);
                s.serialize_double_bits(*z_bits);
                s.serialize_ubyte(*pitch);
                s.serialize_ubyte(*yaw);
                s.serialize_ubyte(*head_yaw);
                s.serialize_varint(*data);
                s.serialize_short(*velocity_x);
                s.serialize_short(*velocity_y);
                s.serialize_short(*velocity_z);
                assert(s@ =~= old(s)@ + self.wire());
            },
            Clientbound::ChunkBatchFinished { batch_size } => {
                s.serialize_varint(0x0C);
                s.serialize_varint(*batch_size);
                assert(s@ =~= old(s)@ + self.wire());
            },
            Clientbound::ChunkBatchStart => {
                s.serialize_varint(0x0D);
                assert(s@ =~= old(s)@ + self.wire());
            },
            Clientbound::Disconnect { reason } => {
                s.serialize_varint(0x1D);
                let tag = Tag::String(reason.clone());
                tag.serialize_unnamed(s);
                assert(s@ =~= old(s)@ + self.wire());
            },
            Clientbound::EntityPositionSync {
                entity_id,
                x_bits,
                y_bits,
                z_bits,
                velocity_x_bits,
                velocity_y_bits,
                velocity_z_bits,
                yaw_bits,
                pitch_bits,
                on_ground,
            } => {
                s.serialize_varint(0x20);
                s.serialize_varint(*entity_id);
                s.serialize_double_bits(*x_bits);
                s.serialize_double_bits(*y_bits);
                s.serialize_double_bits(*z_bits);
                s.serialize_double_bits(*velocity_x_bits);
                s.serialize_double_bits(*velocity_y_bits);
                s.serialize_double_bits(*velocity_z_bits);
                s.serialize_float_bits(*yaw_bits);
                s.serialize_float_bits(*pitch_bits);
                s.serialize_boolean(*on_ground);
                assert(s@ =~= old(s)@ + self.wire());
            },
            Clientbound::GameEvent { event, value_bits } => {
                s.serialize_varint(0x23);
                s.serialize_ubyte(event.byte());
                s.serialize_float_bits(*value_bits);
                assert(s@ =~= old(s)@ + self.wire());
            },
            Clientbound::KeepAlive { keep_alive_id } => {
                s.serialize_varint(0x27);
                s.serialize_long(*keep_alive_id);
                assert(s@ =~= old(s)@ + self.wire());
            },
            Clientbound::LevelChunkWithLight { chunk_x, chunk_z, data, light } => {
                s.serialize_varint(0x28);
                s.serialize_int(*chunk_x);
                s.serialize_int(*chunk_z);
                data.serialize(s);
                light.serialize(s);
                assert(s@ =~= old(s)@ + self.wire());
            },
            Clientbound::Login { entity_id, data } => {
                s.serialize_varint(0x2C);
                s.serialize_int(*entity_id);
                data.serialize(s);
                assert(s@ =~= old(s)@ + self.wire());
            },
            Clientbound::PlayerPosition {
                teleport_id,
                x_bits,
                y_bits,
                z_bits,
                velocity_x_bits,
                velocity_y_bits,
                velocity_z_bits,
                yaw_bits,
                pitch_bits,
                flags,
            } => {
                s.serialize_varint(0x42);
                s.serialize_varint(*teleport_id);
                s.serialize_double_bits(*x_bits);
                s.serialize_double_bits(*y_bits);
                s.serialize_double_bits(*z_bits);
                s.serialize_double_bits(*velocity_x_bits);
                s.serialize_double_bits(*velocity_y_bits);
                s.serialize_double_bits(*velocity_z_bits);
                s.serialize_float_bits(*yaw_bits);
                s.serialize_float_bits(*pitch_bits);
                s.serialize_int(*flags);
                assert(s@ =~= old(s)@ + self.wire());
            },
            Clientbound::SetChunkCacheCenter { chunk_x, chunk_z } => {
                s.serialize_varint(0x58);
                s.serialize_varint(*chunk_x);
                s.serialize_varint(*chunk_z);
                assert(s@ =~= old(s)@ + self.wire());
            },
        }
    }
}

/// Every decode step that a canonical serverbound encoding at the front of
/// a stream passes through, and what it leaves unread. A `CustomPayload`
/// body swallows the whole stream: its opaque data comes back extended by
/// whatever followed the encoding.
#[verifier::rlimit(60)]
pub proof fn lemma_wire_layers(q: Serverbound, s: Seq<u8>, rest: Seq<u8>)
    requires
        q.wf(),
        s == q.wire() + rest,
    ensures
        ({
            match q {
                Serverbound::AcceptTeleportation { teleport_id } => {
                    let s1 = vi_rest(s);
                    &&& vi_ok(s) && vi_val(s) == 0
                    &&& vi_ok(s1) && vi_val(s1) == teleport_id as u32
                    &&& vi_rest(s1) == rest
                },
                Serverbound::ChunkBatchReceived { chunks_per_tick_bits } => {
                    let s1 = vi_rest(s);
                    &&& vi_ok(s) && vi_val(s) == 9
                    &&& s1.len() >= 4
                    &&& crate::wire::be4_value(s1.take(4)) == chunks_per_tick_bits
                    &&& s1.skip(4) == rest
                },
                Serverbound::ClientTickEnd => {
                    &&& vi_ok(s) && vi_val(s) == 11
                    &&& vi_rest(s) == rest
                },
                Serverbound::CustomPayload { channel, data } => {
                    let s1 = vi_rest(s);
                    let cb = encode_utf8(channel@);
                    &&& vi_ok(s) && vi_val(s) == 20
                    &&& vi_ok(s1) && vi_val(s1) == cb.len() && vi_rest(s1).len() >= cb.len()
                    &&& vi_rest(s1).take(cb.len() as int) == cb
                    &&& vstd::utf8::valid_utf8(cb)
                    &&& vi_rest(s1).skip(cb.len() as int) == data@ + rest
                },
                Serverbound::MovePlayerPos { x_bits, feet_y_bits, z_bits, flags } => {
                    let s1 = vi_rest(s);
                    let s2 = s1.skip(8);
                    let s3 = s2.skip(8);
                    let s4 = s3.skip(8);
                    &&& vi_ok(s) && vi_val(s) == 28
                    &&& s1.len() >= 8 && crate::wire::be8_value(s1.take(8)) == x_bits
                    &&& s2.len() >= 8 && crate::wire::be8_value(s2.take(8)) == feet_y_bits
                    &&& s3.len() >= 8 && crate::wire::be8_value(s3.take(8)) == z_bits
                    &&& s4.len() >= 1 && s4[0] == flags as u8
                    &&& s4.skip(1) == rest
                },
                Serverbound::MovePlayerPosRot {
                    x_bits,
                    feet_y_bits,
                    z_bits,
                    yaw_bits,
                    pitch_bits,
                    flags,
                } => {
                    let s1 = vi_rest(s);
                    let s2 = s1.skip(8);
                    let s3 = s2.skip(8);
                    let s4 = s3.skip(8);
                    let s5 = s4.skip(4);
                    let s6 = s5.skip(4);
                    &&& vi_ok(s) && vi_val(s) == 29
                    &&& s1.len() >= 8 && crate::wire::be8_value(s1.take(8)) == x_bits
                    &&& s2.len() >= 8 && crate::wire::be8_value(s2.take(8)) == feet_y_bits
                    &&& s3.len() >= 8 && crate::wire::be8_value(s3.take(8)) == z_bits
                    &&& s4.len() >= 4 && crate::wire::be4_value(s4.take(4)) == yaw_bits
                    &&& s5.len() >= 4 && crate::wire::be4_value(s5.take(4)) == pitch_bits
                    &&& s6.len() >= 1 && s6[0] == flags as u8
                    &&& s6.skip(1) == rest
                },
            }
        }),
{
    match q {
        Serverbound::AcceptTeleportation { teleport_id } => {
            assert(s =~= varint_seq(0) + (varint_seq(teleport_id as u32) + rest));
            lemma_varint_layer(0, varint_seq(teleport_id as u32) + rest);
            lemma_varint_layer(teleport_id as u32, rest);
        },
        Serverbound::ChunkBatchReceived { chunks_per_tick_bits } => {
            assert(s =~= varint_seq(9) + (be4(chunks_per_tick_bits) + rest));
            lemma_varint_layer(9, be4(chunks_per_tick_bits) + rest);
            crate::roundtrip::lemma_be4_layer(chunks_per_tick_bits, rest);
        },
        Serverbound::ClientTickEnd => {
            lemma_varint_layer(11, rest);
            assert(s =~= varint_seq(11) + rest);
        },
        Serverbound::CustomPayload { channel, data } => {
            let r1: Seq<u8> = string_wire(channel@) + (data@ + rest);
            assert(s =~= varint_seq(20) + r1);
            lemma_varint_layer(20, r1);
            lemma_string_layer(channel@, data@ + rest);
        },
        Serverbound::MovePlayerPos { x_bits, feet_y_bits, z_bits, flags } => {
            let r4: Seq<u8> = seq![flags as u8] + rest;
            let r3: Seq<u8> = be8(z_bits) + r4;
            let r2: Seq<u8> = be8(feet_y_bits) + r3;
            let r1: Seq<u8> = be8(x_bits) + r2;
            assert(s =~= varint_seq(28) + r1);
            lemma_varint_layer(28, r1);
            lemma_be8_layer(x_bits, r2);
            lemma_be8_layer(feet_y_bits, r3);
            lemma_be8_layer(z_bits, r4);
            assert(r4.skip(1) =~= rest);
        },
        Serverbound::MovePlayerPosRot {
            x_bits,
            feet_y_bits,
            z_bits,
            yaw_bits,
            pitch_bits,
            flags,
        } => {
            let r6: Seq<u8> = seq![flags as u8] + rest;
            let r5: Seq<u8> = be4(pitch_bits) + r6;
            let r4: Seq<u8> = be4(yaw_bits) + r5;
            let r3: Seq<u8> = be8(z_bits) + r4;
            let r2: Seq<u8> = be8(feet_y_bits) + r3;
            let r1: Seq<u8> = be8(x_bits) + r2;
            assert(s =~= varint_seq(29) + r1);
            lemma_varint_layer(29, r1);
            lemma_be8_layer(x_bits, r2);
            lemma_be8_layer(feet_y_bits, r3);
            lemma_be8_layer(z_bits, r4);
            crate::roundtrip::lemma_be4_layer(yaw_bits, r5);
            crate::roundtrip::lemma_be4_layer(pitch_bits, r6);
            assert(r6.skip(1) =~= rest);
        },
    }
}

/// Whether a packet's canonical encoding sits at the front of `s`.
pub open spec fn wire_prefix(q: Serverbound, s: Seq<u8>) -> bool {
    q.wire() == s.take(q.wire().len() as int) && q.wire().len() <= s.len()
}

/// If a decode stage fails on `s`, no packet's canonical encoding sits at
/// the front of `s`.
pub proof fn lemma_no_canonical(s: Seq<u8>)
    requires
        ({
            let s1 = vi_rest(s);
            let n = vi_val(s1) as int;
            ||| !vi_ok(s)
            ||| !(vi_val(s) == 0 || vi_val(s) == 9 || vi_val(s) == 11 || vi_val(s) == 20 || vi_val(
                s,
            ) == 28 || vi_val(s) == 29)
            ||| vi_val(s) == 0 && !vi_ok(s1)
            ||| vi_val(s) == 9 && s1.len() < 4
            ||| vi_val(s) == 20 && ({
                ||| !vi_ok(s1)
                ||| vi_val(s1) > 0x7FFF_FFFF
                ||| vi_rest(s1).len() < vi_val(s1)
                ||| !vstd::utf8::valid_utf8(vi_rest(s1).take(n))
            })
            ||| vi_val(s) == 28 && s1.len() < 25
            ||| vi_val(s) == 29 && s1.len() < 33
        }),
    ensures
        forall|q: Serverbound| !(q.wf() && #[trigger] wire_prefix(q, s)),
{
    assert forall|q: Serverbound| !(q.wf() && #[trigger] wire_prefix(q, s)) by {
        if q.wf() && wire_prefix(q, s) {
            assert(s =~= q.wire() + s.skip(q.wire().len() as int));
            lemma_wire_layers(q, s, s.skip(q.wire().len() as int));
        }
    }
}

/// Decodes one serverbound play packet from a full packet body.
pub fn decode(d: &mut Deserializer) -> (r: Result<Serverbound, Error>)
    requires
        old(d).wf(),
    ensures
        final(d).wf(),
        ({
            let s = old(d).remaining();
            &&& !vi_ok(s) ==> r == Err::<Serverbound, Error>(vi_err(s))
            &&& (vi_ok(s) && vi_val(s) != 0 && vi_val(s) != 9 && vi_val(s) != 11 && vi_val(s) != 20
                && vi_val(s) != 28 && vi_val(s) != 29) ==> r == Err::<Serverbound, Error>(
                Error::InvalidPacketId { state: State::Play, packet_id: vi_val(s) as i32 },
            )
            &&& forall|q: Serverbound|
                q.wf() && #[trigger] wire_prefix(q, s) && (q.wire().len() == s.len() || !(q
                    matches Serverbound::CustomPayload { .. })) ==> (r matches Ok(p) && p.eq_view(
                    q,
                ) && final(d).remaining() == s.skip(q.wire().len() as int))
        }),
{
    let ghost s = old(d).remaining();
    let id = match d.deserialize_varint() {
        Ok(v) => v,
        Err(e) => {
            proof {
                lemma_no_canonical(s);
            }
            return Err(e);
        },
    };
    if id == 0 {
        let teleport_id = match d.deserialize_varint() {
            Ok(v) => v,
            Err(e) => {
                proof {
                    lemma_no_canonical(s);
                }
                return Err(e);
            },
        };
        let p = Serverbound::AcceptTeleportation { teleport_id };
        proof {
            assert forall|q: Serverbound|
                q.wf() && #[trigger] wire_prefix(q, s) && (q.wire().len() == s.len() || !(q
                    matches Serverbound::CustomPayload { .. })) implies (p.eq_view(q)
                && final(d).remaining() == s.skip(q.wire().len() as int)) by {
                assert(s =~= q.wire() + s.skip(q.wire().len() as int));
                lemma_wire_layers(q, s, s.skip(q.wire().len() as int));
                match q {
                    Serverbound::AcceptTeleportation { teleport_id: t2 } => {
                        assert(teleport_id == t2) by (bit_vector)
                            requires
                                teleport_id as u32 == t2 as u32,
                        ;
                    },
                    _ => {},
                }
            }
        }
        Ok(p)
    } else if id == 9 {
        let chunks_per_tick_bits = match d.deserialize_float_bits() {
            Ok(v) => v,
            Err(e) => {
                proof {
                    lemma_no_canonical(s);
                }
                return Err(e);
            },
        };
        let p = Serverbound::ChunkBatchReceived { chunks_per_tick_bits };
        proof {
            assert forall|q: Serverbound|
                q.wf() && #[trigger] wire_prefix(q, s) && (q.wire().len() == s.len() || !(q
                    matches Serverbound::CustomPayload { .. })) implies (p.eq_view(q)
                && final(d).remaining() == s.skip(q.wire().len() as int)) by {
                assert(s =~= q.wire() + s.skip(q.wire().len() as int));
                lemma_wire_layers(q, s, s.skip(q.wire().len() as int));
            }
        }
        Ok(p)
    } else if id == 11 {
        proof {
            assert forall|q: Serverbound|
                q.wf() && #[trigger] wire_prefix(q, s) && (q.wire().len() == s.len() || !(q
                    matches Serverbound::CustomPayload { .. })) implies (
            Serverbound::ClientTickEnd.eq_view(q) && final(d).remaining() == s.skip(
                q.wire().len() as int,
            )) by {
                assert(s =~= q.wire() + s.skip(q.wire().len() as int));
                lemma_wire_layers(q, s, s.skip(q.wire().len() as int));
            }
        }
        Ok(Serverbound::ClientTickEnd)
    } else if id == 20 {
        let channel = match d.deserialize_string() {
            Ok(v) => v,
            Err(e) => {
                proof {
                    lemma_no_canonical(s);
                }
                return Err(e);
            },
        };
        let data = d.take_remaining();
        let p = Serverbound::CustomPayload { channel, data };
        proof {
            assert forall|q: Serverbound|
                q.wf() && #[trigger] wire_prefix(q, s) && (q.wire().len() == s.len() || !(q
                    matches Serverbound::CustomPayload { .. })) implies (p.eq_view(q)
                && final(d).remaining() == s.skip(q.wire().len() as int)) by {
                assert(s =~= q.wire() + s.skip(q.wire().len() as int));
                lemma_wire_layers(q, s, s.skip(q.wire().len() as int));
                match q {
                    Serverbound::CustomPayload { channel: c2, .. } => {
                        assert(encode_utf8(channel@) == encode_utf8(c2@));
                        lemma_utf8_injective(channel@, c2@);
                    },
                    _ => {},
                }
            }
        }
        Ok(p)
    } else if id == 28 {
        let x_bits = match d.deserialize_double_bits() {
            Ok(v) => v,
            Err(e) => {
                proof {
                    lemma_no_canonical(s);
                }
                return Err(e);
            },
        };
        let feet_y_bits = match d.deserialize_double_bits() {
            Ok(v) => v,
            Err(e) => {
                proof {
                    lemma_no_canonical(s);
                }
                return Err(e);
            },
        };
        let z_bits = match d.deserialize_double_bits() {
            Ok(v) => v,
            Err(e) => {
                proof {
                    lemma_no_canonical(s);
                }
                return Err(e);
            },
        };
        let flags = match d.deserialize_byte() {
            Ok(v) => v,
            Err(e) => {
                proof {
                    lemma_no_canonical(s);
                }
                return Err(e);
            },
        };
        let p = Serverbound::MovePlayerPos { x_bits, feet_y_bits, z_bits, flags };
        proof {
            assert forall|q: Serverbound|
                q.wf() && #[trigger] wire_prefix(q, s) && (q.wire().len() == s.len() || !(q
                    matches Serverbound::CustomPayload { .. })) implies (p.eq_view(q)
                && final(d).remaining() == s.skip(q.wire().len() as int)) by {
                assert(s =~= q.wire() + s.skip(q.wire().len() as int));
                lemma_wire_layers(q, s, s.skip(q.wire().len() as int));
                match q {
                    Serverbound::MovePlayerPos { flags: f2, .. } => {
                        assert(flags == f2) by (bit_vector)
                            requires
                                flags as u8 == f2 as u8,
                        ;
                    },
                    _ => {},
                }
            }
        }
        Ok(p)
    } else if id == 29 {
        let x_bits = match d.deserialize_double_bits() {
            Ok(v) => v,
            Err(e) => {
                proof {
                    lemma_no_canonical(s);
                }
                return Err(e);
            },
        };
        let feet_y_bits = match d.deserialize_double_bits() {
            Ok(v) => v,
            Err(e) => {
                proof {
                    lemma_no_canonical(s);
                }
                return Err(e);
            },
        };
        let z_bits = match d.deserialize_double_bits() {
            Ok(v) => v,
            Err(e) => {
                proof {
                    lemma_no_canonical(s);
                }
                return Err(e);
            },
        };
        let yaw_bits = match d.deserialize_float_bits() {
            Ok(v) => v,
            Err(e) => {
                proof {
                    lemma_no_canonical(s);
                }
                return Err(e);
            },
        };
        let pitch_bits = match d.deserialize_float_bits() {
            Ok(v) => v,
            Err(e) => {
                proof {
                    lemma_no_canonical(s);
                }
                return Err(e);
            },
        };
        let flags = match d.deserialize_byte() {
            Ok(v) => v,
            Err(e) => {
                proof {
                    lemma_no_canonical(s);
                }
                return Err(e);
            },
        };
        let p = Serverbound::MovePlayerPosRot {
            x_bits,
            feet_y_bits,
            z_bits,
            yaw_bits,
            pitch_bits,
            flags,
        };
        proof {
            assert forall|q: Serverbound|
                q.wf() && #[trigger] wire_prefix(q, s) && (q.wire().len() == s.len() || !(q
                    matches Serverbound::CustomPayload { .. })) implies (p.eq_view(q)
                && final(d).remaining() == s.skip(q.wire().len() as int)) by {
                assert(s =~= q.wire() + s.skip(q.wire().len() as int));
                lemma_wire_layers(q, s, s.skip(q.wire().len() as int));
                match q {
                    Serverbound::MovePlayerPosRot { flags: f2, .. } => {
                        assert(flags == f2) by (bit_vector)
                            requires
                                flags as u8 == f2 as u8,
                        ;
                    },
                    _ => {},
                }
            }
        }
        Ok(p)
    } else {
        proof {
            let vv: u32 = vi_val(s);
            assert(id == vv as i32 && vv != 0 && vv != 9 && vv != 11 && vv != 20 && vv != 28 && vv
                != 29) by (bit_vector)
                requires
                    id as u32 == vv && id != 0 && id != 9 && id != 11 && id != 20 && id != 28 && id
                        != 29,
            ;
            lemma_no_canonical(s);
        }
        Err(Error::InvalidPacketId { state: State::Play, packet_id: id })
    }
}


impl Serverbound {
    /// The packet id that opens this packet's body.
    pub open spec fn id_spec(&self) -> u32 {
        match self {
            Serverbound::AcceptTeleportation { .. } => 0,
            Serverbound::ChunkBatchReceived { .. } => 9,
            Serverbound::ClientTickEnd => 11,
            Serverbound::CustomPayload { .. } => 20,
            Serverbound::MovePlayerPos { .. } => 28,
            Serverbound::MovePlayerPosRot { .. } => 29,
        }
    }

    /// Which variant this packet is, as a number.
    pub open spec fn variant_index(&self) -> int {
        match self {
            Serverbound::AcceptTeleportation { .. } => 0,
            Serverbound::ChunkBatchReceived { .. } => 1,
            Serverbound::ClientTickEnd => 2,
            Serverbound::CustomPayload { .. } => 3,
            Serverbound::MovePlayerPos { .. } => 4,
            Serverbound::MovePlayerPosRot { .. } => 5,
        }
    }
}

/// Packet ids are pairwise distinct within this phase and direction: two
/// packets that open with the same id are the same kind of packet.
pub proof fn lemma_serverbound_ids_distinct(p: Serverbound, q: Serverbound)
    ensures
        p.id_spec() == q.id_spec() ==> p.variant_index() == q.variant_index(),
{
}

impl Clientbound {
    /// The packet id that opens this packet's body.
    pub open spec fn id_spec(&self) -> u32 {
        match self {
            Clientbound::AddEntity { .. } => 1,
            Clientbound::ChunkBatchFinished { .. } => 12,
            Clientbound::ChunkBatchStart => 13,
            Clientbound::Disconnect { .. } => 29,
            Clientbound::EntityPositionSync { .. } => 32,
            Clientbound::GameEvent { .. } => 35,
            Clientbound::KeepAlive { .. } => 39,
            Clientbound::LevelChunkWithLight { .. } => 40,
            Clientbound::Login { .. } => 44,
            Clientbound::PlayerPosition { .. } => 66,
            Clientbound::SetChunkCacheCenter { .. } => 88,
        }
    }

    /// Which variant this packet is, as a number.
    pub open spec fn variant_index(&self) -> int {
        match self {
            Clientbound::AddEntity { .. } => 0,
            Clientbound::ChunkBatchFinished { .. } => 1,
            Clientbound::ChunkBatchStart => 2,
            Clientbound::Disconnect { .. } => 3,
            Clientbound::EntityPositionSync { .. } => 4,
            Clientbound::GameEvent { .. } => 5,
            Clientbound::KeepAlive { .. } => 6,
            Clientbound::LevelChunkWithLight { .. } => 7,
            Clientbound::Login { .. } => 8,
            Clientbound::PlayerPosition { .. } => 9,
            Clientbound::SetChunkCacheCenter { .. } => 10,
        }
    }
}

/// Packet ids are pairwise distinct within this phase and direction: two
/// packets that open with the same id are the same kind of packet.
pub proof fn lemma_clientbound_ids_distinct(p: Clientbound, q: Clientbound)
    ensures
        p.id_spec() == q.id_spec() ==> p.variant_index() == q.variant_index(),
{
}

} // verus!

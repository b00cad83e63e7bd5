//! The session orchestrator: the login, configuration and play choreography
//! for one connection, as a pure function from packet and clock to the
//! packets to send and the hooks to run. The caller performs all I/O,
//! supplies the clock, and invokes the application hooks when asked.

use vstd::prelude::*;

use crate::connection::{ClientboundPacket, ServerboundPacket};
use crate::nbt::{compound_has_int, Tag};
use crate::packets::configuration::{self, KnownPack, RegistryEntry};
use crate::packets::handshake;
use crate::packets::login;
use crate::packets::play;
use crate::packets::status::{self, Players, Status, TextComponent, Version};
use crate::serialize::Serialize;
use crate::wire::Uuid;

verus! {

/// The one protocol version this core speaks.
pub const PROTOCOL_VERSION: i32 = 769;

/// Milliseconds of Play-phase silence after which a keepalive goes out.
pub const KEEPALIVE_INTERVAL_MILLIS: u64 = 10_000;

/// What the application hooks supplied for the status document.
#[derive(Debug)]
pub struct HookData {
    pub description: String,
    pub players_max: u32,
    pub players_online: u32,
}

/// What to do after one inbound packet: packets to send, in order, and
/// which application hook to run afterwards.
#[derive(Debug)]
pub struct Reaction {
    pub responses: Vec<ClientboundPacket>,
    pub run_on_login: bool,
    pub run_on_tick: bool,
}

/// The handshake named a protocol version other than the one this core
/// speaks; the session refuses the client with a disconnect.
#[derive(Debug)]
pub struct ProtocolMismatch {
    pub got: i32,
}

/// Relies on `uuid::Uuid::new_v4` and `Uuid::as_u64_pair`: a fresh random
/// UUID with the version-4 and RFC-variant bits set, split into its
/// most- and least-significant halves.
#[verifier::external_body]
fn fresh_uuid() -> (r: Uuid)
    ensures
        (r.hi >> 12) & 0xF == 4,
        (r.lo >> 62) & 0x3 == 2,
{
    let (hi, lo) = uuid::Uuid::new_v4().as_u64_pair();
    Uuid { hi, lo }
}

/// Drives one inbound packet through the choreography.
///
/// * A handshake intention is checked against the protocol version.
/// * A status request is answered with the status document, a ping with its
///   echo.
/// * A login hello is answered with `LoginFinished` under a fresh UUID.
/// * Client information is answered with the known packs; the client's
///   known-packs choice is answered with the registry push and
///   `FinishConfiguration`; the client's `FinishConfiguration` asks for the
///   `on_login` hook.
/// * Every Play-phase `ClientTickEnd` asks for the `on_tick` hook, and
///   sends one keepalive when at least the keepalive interval has passed
///   since the last one.
pub fn handle_packet(
    packet: &ServerboundPacket,
    now_millis: u64,
    last_keepalive_millis: &mut u64,
    hooks: &HookData,
    dimension_height: i32,
) -> (r: Result<Reaction, ProtocolMismatch>)
    requires
        now_millis >= *old(last_keepalive_millis),
    ensures
        ({
            let keep_due = now_millis - *old(last_keepalive_millis) >= KEEPALIVE_INTERVAL_MILLIS;
            &&& (packet matches ServerboundPacket::Handshake(
                handshake::Serverbound::Intention { protocol_version, .. },
            ) ==> (r is Ok <==> protocol_version == PROTOCOL_VERSION))
            &&& (!(packet matches ServerboundPacket::Handshake(..)) ==> r is Ok)
            &&& (packet matches ServerboundPacket::Status(status::Serverbound::PingRequest {
                timestamp,
            }) ==> (r matches Ok(a) && a.responses@.len() == 1 && (a.responses@[0]
                matches ClientboundPacket::Status(status::Clientbound::PongResponse {
                timestamp: t2,
            }) && t2 == timestamp)))
            &&& (packet matches ServerboundPacket::Status(status::Serverbound::StatusRequest) ==> (
            r matches Ok(a) && a.responses@.len() == 1 && (a.responses@[0]
                matches ClientboundPacket::Status(status::Clientbound::StatusResponse { status })
                && status.players.max == hooks.players_max && status.players.online
                == hooks.players_online && status.version.protocol == PROTOCOL_VERSION
                && status.version.name@ == "1.21.4"@
                && status.description.text@ == hooks.description@)))
            &&& (packet matches ServerboundPacket::Login(login::Serverbound::Hello { name, .. })
                ==> (r matches Ok(a) && a.responses@.len() == 1 && (a.responses@[0]
                matches ClientboundPacket::Login(login::Clientbound::LoginFinished {
                uuid,
                username,
                properties,
            }) && username@ == name@ && properties@.len() == 0 && (uuid.hi >> 12) & 0xF == 4)))
            &&& (packet matches ServerboundPacket::Configuration(
                configuration::Serverbound::ClientInformation { .. },
            ) ==> (r matches Ok(a) && a.responses@.len() == 1 && (a.responses@[0]
                matches ClientboundPacket::Configuration(
                configuration::Clientbound::SelectKnownPacks { known_packs },
            ) && known_packs@.len() == 1 && known_packs@[0].namespace@ == "minecraft"@
                && known_packs@[0].id@ == "core"@ && known_packs@[0].version@ == "1.21.4"@)))
            &&& (packet matches ServerboundPacket::Configuration(
                configuration::Serverbound::SelectKnownPacks { .. },
            ) ==> (r matches Ok(a) && a.responses@.len() == 6 && (a.responses@[5]
                matches ClientboundPacket::Configuration(
                configuration::Clientbound::FinishConfiguration,
            )) && (forall|i: int|
                0 <= i < 5 ==> (#[trigger] a.responses@[i])
                    matches ClientboundPacket::Configuration(
                    configuration::Clientbound::RegistryData { .. },
                )) && (a.responses@[1] matches ClientboundPacket::Configuration(
                configuration::Clientbound::RegistryData { registry_id, entries },
            ) && registry_id@ == "dimension_type"@ && entries@.len() == 1 && (
            entries@[0].entry_data matches Some(t) && (t matches Tag::Compound(es)
                && compound_has_int(es@, "height"@, dimension_height))))))
            &&& (packet matches ServerboundPacket::Configuration(
                configuration::Serverbound::FinishConfiguration,
            ) ==> (r matches Ok(a) && a.run_on_login && a.responses@.len() == 0))
            &&& (packet matches ServerboundPacket::Play(play::Serverbound::ClientTickEnd) ==> (r
                matches Ok(a) && a.run_on_tick && (keep_due ==> (a.responses@.len() == 1
                && a.responses@[0] == ClientboundPacket::Play(
                play::Clientbound::KeepAlive { keep_alive_id: 0 },
            ) && *final(last_keepalive_millis) == now_millis)) && (!keep_due ==> (
            a.responses@.len() == 0 && *final(last_keepalive_millis) == *old(
                last_keepalive_millis,
            )))))
            &&& (!(packet matches ServerboundPacket::Play(play::Serverbound::ClientTickEnd)) ==>
                *final(last_keepalive_millis) == *old(last_keepalive_millis))
            &&& (r matches Ok(a) ==> (a.run_on_login <==> packet
                matches ServerboundPacket::Configuration(
                configuration::Serverbound::FinishConfiguration,
            )))
            &&& (r matches Ok(a) ==> (a.run_on_tick <==> packet matches ServerboundPacket::Play(
                play::Serverbound::ClientTickEnd,
            )))
        }),
{
    match packet {
        ServerboundPacket::Handshake(handshake::Serverbound::Intention {
            protocol_version,
            ..
        }) => {
            if *protocol_version != PROTOCOL_VERSION {
                return Err(ProtocolMismatch { got: *protocol_version });
            }
            Ok(Reaction { responses: Vec::new(), run_on_login: false, run_on_tick: false })
        },
        ServerboundPacket::Status(status::Serverbound::StatusRequest) => {
            let status = Status {
                version: Version {
                    name: game_version_string(),
                    protocol: PROTOCOL_VERSION,
                },
                players: Players { max: hooks.players_max, online: hooks.players_online },
                description: TextComponent { text: clone_string(&hooks.description) },
            };
            let mut responses: Vec<ClientboundPacket> = Vec::new();
            responses.push(
                ClientboundPacket::Status(status::Clientbound::StatusResponse { status }),
            );
            Ok(Reaction { responses, run_on_login: false, run_on_tick: false })
        },
        ServerboundPacket::Status(status::Serverbound::PingRequest { timestamp }) => {
            let mut responses: Vec<ClientboundPacket> = Vec::new();
            responses.push(
                ClientboundPacket::Status(
                    status::Clientbound::PongResponse { timestamp: *timestamp },
                ),
            );
            Ok(Reaction { responses, run_on_login: false, run_on_tick: false })
        },
        ServerboundPacket::Login(login::Serverbound::Hello { name, .. }) => {
            let uuid = fresh_uuid();
            let mut responses: Vec<ClientboundPacket> = Vec::new();
            responses.push(
                ClientboundPacket::Login(
                    login::Clientbound::LoginFinished {
                        uuid,
                        username: clone_string(name),
                        properties: Vec::new(),
                    },
                ),
            );
            Ok(Reaction { responses, run_on_login: false, run_on_tick: false })
        },
        ServerboundPacket::Configuration(configuration::Serverbound::ClientInformation {
            ..
        }) => {
            let mut known_packs: Vec<KnownPack> = Vec::new();
            known_packs.push(
                KnownPack {
                    namespace: String::from_str("minecraft"),
                    id: String::from_str("core"),
                    version: game_version_string(),
                },
            );
            let mut responses: Vec<ClientboundPacket> = Vec::new();
            responses.push(
                ClientboundPacket::Configuration(
                    configuration::Clientbound::SelectKnownPacks { known_packs },
                ),
            );
            Ok(Reaction { responses, run_on_login: false, run_on_tick: false })
        },
        ServerboundPacket::Configuration(configuration::Serverbound::SelectKnownPacks {
            ..
        }) => {
            let mut responses = registry_data_packets(dimension_height);
            responses.push(
                ClientboundPacket::Configuration(configuration::Clientbound::FinishConfiguration),
            );
            Ok(Reaction { responses, run_on_login: false, run_on_tick: false })
        },
        ServerboundPacket::Configuration(configuration::Serverbound::FinishConfiguration) => {
            Ok(Reaction { responses: Vec::new(), run_on_login: true, run_on_tick: false })
        },
        ServerboundPacket::Play(play::Serverbound::ClientTickEnd) => {
            let mut responses: Vec<ClientboundPacket> = Vec::new();
            if now_millis - *last_keepalive_millis >= KEEPALIVE_INTERVAL_MILLIS {
                responses.push(
                    ClientboundPacket::Play(play::Clientbound::KeepAlive { keep_alive_id: 0 }),
                );
                *last_keepalive_millis = now_millis;
            }
            Ok(Reaction { responses, run_on_login: false, run_on_tick: true })
        },
        _ => Ok(Reaction { responses: Vec::new(), run_on_login: false, run_on_tick: false }),
    }
}

/// The game version string this core reports.
pub fn game_version_string() -> (r: String)
    ensures
        r@ == "1.21.4"@,
{
    String::from_str("1.21.4")
}

fn clone_string(s: &String) -> (r: String)
    ensures
        r@ == s@,
{
    String::from_str(s.as_str())
}

/// The fixed registry and field names all fit the length prefixes.
#[verifier::rlimit(100)]
proof fn lemma_fixed_names()
    ensures
        vstd::utf8::encode_utf8("height"@).len() <= 0xFFFF,
        vstd::utf8::encode_utf8("logical_height"@).len() <= 0xFFFF,
        vstd::utf8::encode_utf8("minecraft:overworld"@).len() <= 0xFFFF,
        vstd::utf8::encode_utf8("damage_type"@).len() <= 0xFFFF,
        vstd::utf8::encode_utf8("dimension_type"@).len() <= 0xFFFF,
        vstd::utf8::encode_utf8("painting_variant"@).len() <= 0xFFFF,
        vstd::utf8::encode_utf8("wolf_variant"@).len() <= 0xFFFF,
        vstd::utf8::encode_utf8("worldgen/biome"@).len() <= 0xFFFF,
        vstd::utf8::encode_utf8("minecraft:plains"@).len() <= 0xFFFF,
        vstd::utf8::encode_utf8("minecraft:snowy_taiga"@).len() <= 0xFFFF,
{
    reveal_strlit("height");
    assert(vstd::utf8::is_ascii_chars("height"@));
    crate::roundtrip::lemma_ascii_encode_len("height"@);
    reveal_strlit("logical_height");
    assert(vstd::utf8::is_ascii_chars("logical_height"@));
    crate::roundtrip::lemma_ascii_encode_len("logical_height"@);
    reveal_strlit("minecraft:overworld");
    assert(vstd::utf8::is_ascii_chars("minecraft:overworld"@));
    crate::roundtrip::lemma_ascii_encode_len("minecraft:overworld"@);
    reveal_strlit("damage_type");
    assert(vstd::utf8::is_ascii_chars("damage_type"@));
    crate::roundtrip::lemma_ascii_encode_len("damage_type"@);
    reveal_strlit("dimension_type");
    assert(vstd::utf8::is_ascii_chars("dimension_type"@));
    crate::roundtrip::lemma_ascii_encode_len("dimension_type"@);
    reveal_strlit("painting_variant");
    assert(vstd::utf8::is_ascii_chars("painting_variant"@));
    crate::roundtrip::lemma_ascii_encode_len("painting_variant"@);
    reveal_strlit("wolf_variant");
    assert(vstd::utf8::is_ascii_chars("wolf_variant"@));
    crate::roundtrip::lemma_ascii_encode_len("wolf_variant"@);
    reveal_strlit("worldgen/biome");
    assert(vstd::utf8::is_ascii_chars("worldgen/biome"@));
    crate::roundtrip::lemma_ascii_encode_len("worldgen/biome"@);
    reveal_strlit("minecraft:plains");
    assert(vstd::utf8::is_ascii_chars("minecraft:plains"@));
    crate::roundtrip::lemma_ascii_encode_len("minecraft:plains"@);
    reveal_strlit("minecraft:snowy_taiga");
    assert(vstd::utf8::is_ascii_chars("minecraft:snowy_taiga"@));
    crate::roundtrip::lemma_ascii_encode_len("minecraft:snowy_taiga"@);
}

/// Adds `(name, tag)` to a compound's entries when the name fits the
/// ushort length prefix; the fixed names used here always do.
fn push_entry(entries: &mut Vec<(String, Tag)>, name: &str, tag: Tag)
    requires
        tag.wf(),
        forall|i: int|
            0 <= i < old(entries)@.len() ==> (#[trigger] old(entries)@[i]).1.wf_spec()
                && vstd::utf8::encode_utf8(old(entries)@[i].0@).len() <= 0xFFFF,
    ensures
        forall|i: int|
            0 <= i < final(entries)@.len() ==> (#[trigger] final(entries)@[i]).1.wf_spec()
                && vstd::utf8::encode_utf8(final(entries)@[i].0@).len() <= 0xFFFF,
        final(entries)@.len() >= old(entries)@.len(),
        forall|i: int|
            0 <= i < old(entries)@.len() ==> final(entries)@[i] == old(entries)@[i],
        vstd::utf8::encode_utf8(name@).len() <= 0xFFFF ==> (final(entries)@.len() == old(
            entries,
        )@.len() + 1 && final(entries)@.last().0@ == name@ && final(entries)@.last().1 == tag),
{
    if name.as_bytes().len() <= 0xFFFF {
        entries.push((String::from_str(name), tag));
    }
}

/// A string tag, when the text fits the ushort length prefix; the fixed
/// strings used here always do.
fn tag_string(v: &str) -> (r: Tag)
    ensures
        r.wf(),
        vstd::utf8::encode_utf8(v@).len() <= 0xFFFF ==> (r matches Tag::String(x) && x@ == v@),
{
    if v.as_bytes().len() <= 0xFFFF {
        Tag::String(String::from_str(v))
    } else {
        Tag::End
    }
}

/// One damage-type registry entry: `{exhaustion, message_id, scaling}`.
fn damage_type_entry(entry_id: &str) -> (r: RegistryEntry)
    ensures
        r.wf(),
{
    let mut entries: Vec<(String, Tag)> = Vec::new();
    push_entry(&mut entries, "exhaustion", Tag::Float(0));
    push_entry(&mut entries, "message_id", tag_string("onFire"));
    push_entry(&mut entries, "scaling", tag_string("when_caused_by_living_non_player"));
    let tag = Tag::Compound(entries);
    RegistryEntry { entry_id: limited_string(entry_id), entry_data: Some(tag) }
}

/// An owned copy of the name, when it fits the varint length prefix; the
/// fixed names used here always do.
fn limited_string(v: &str) -> (r: String)
    ensures
        vstd::utf8::encode_utf8(r@).len() <= 0x7FFF_FFFF,
        vstd::utf8::encode_utf8(v@).len() <= 0x7FFF_FFFF ==> r@ == v@,
{
    if v.as_bytes().len() <= 0x7FFF_FFFF {
        String::from_str(v)
    } else {
        String::new()
    }
}

/// The 48 vanilla damage type names.
fn damage_type_names() -> (r: Vec<&'static str>)
    ensures
        r@.len() == 48,
{
    let mut names: Vec<&'static str> = Vec::new();
    names.push("minecraft:arrow");
    names.push("minecraft:bad_respawn_point");
    names.push("minecraft:cactus");
    names.push("minecraft:campfire");
    names.push("minecraft:cramming");
    names.push("minecraft:dragon_breath");
    names.push("minecraft:drown");
    names.push("minecraft:dry_out");
    names.push("minecraft:ender_pearl");
    names.push("minecraft:explosion");
    names.push("minecraft:fall");
    names.push("minecraft:falling_anvil");
    names.push("minecraft:falling_block");
    names.push("minecraft:falling_stalactite");
    names.push("minecraft:fireball");
    names.push("minecraft:fireworks");
    names.push("minecraft:fly_into_wall");
    names.push("minecraft:freeze");
    names.push("minecraft:generic");
    names.push("minecraft:generic_kill");
    names.push("minecraft:hot_floor");
    names.push("minecraft:in_fire");
    names.push("minecraft:in_wall");
    names.push("minecraft:indirect_magic");
    names.push("minecraft:lava");
    names.push("minecraft:lightning_bolt");
    names.push("minecraft:magic");
    names.push("minecraft:mob_attack");
    names.push("minecraft:mob_attack_no_aggro");
    names.push("minecraft:mob_projectile");
    names.push("minecraft:on_fire");
    names.push("minecraft:out_of_world");
    names.push("minecraft:outside_border");
    names.push("minecraft:player_attack");
    names.push("minecraft:player_explosion");
    names.push("minecraft:sonic_boom");
    names.push("minecraft:spit");
    names.push("minecraft:stalagmite");
    names.push("minecraft:starve");
    names.push("minecraft:sting");
    names.push("minecraft:sweet_berry_bush");
    names.push("minecraft:thorns");
    names.push("minecraft:thrown");
    names.push("minecraft:trident");
    names.push("minecraft:unattributed_fireball");
    names.push("minecraft:wind_charge");
    names.push("minecraft:wither");
    names.push("minecraft:wither_skull");
    names
}

/// The dimension-type entry for the overworld: its `height` and
/// `logical_height` fields carry the configured height.
#[verifier::rlimit(100)]
fn dimension_type_entry(height: i32) -> (r: RegistryEntry)
    ensures
        r.wf(),
        r.entry_id@ == "minecraft:overworld"@,
        r.entry_data matches Some(t) && (t matches Tag::Compound(es) && compound_has_int(
            es@,
            "height"@,
            height,
        ) && compound_has_int(es@, "logical_height"@, height)),
{
    let mut light: Vec<(String, Tag)> = Vec::new();
    push_entry(&mut light, "max_inclusive", Tag::Int(7));
    push_entry(&mut light, "min_inclusive", Tag::Int(0));
    push_entry(&mut light, "type", tag_string("minecraft:uniform"));
    let light_tag = Tag::Compound(light);

    let mut entries: Vec<(String, Tag)> = Vec::new();
    push_entry(&mut entries, "ambient_light", Tag::Double(0));
    push_entry(&mut entries, "bed_works", Tag::Int(1));
    // 1.0 as IEEE-754 bits.
    push_entry(&mut entries, "coordinate_scale", Tag::Double(0x3FF0_0000_0000_0000));
    push_entry(&mut entries, "effects", tag_string("minecraft:overworld"));
    push_entry(&mut entries, "has_ceiling", Tag::Int(0));
    push_entry(&mut entries, "has_raids", Tag::Int(1));
    push_entry(&mut entries, "has_skylight", Tag::Int(1));
    proof {
        lemma_fixed_names();
    }
    push_entry(&mut entries, "height", Tag::Int(height));
    let ghost height_idx: int = entries@.len() - 1;
    push_entry(&mut entries, "infiniburn", tag_string("#minecraft:infiniburn_overworld"));
    push_entry(&mut entries, "logical_height", Tag::Int(height));
    let ghost logical_idx: int = entries@.len() - 1;
    push_entry(&mut entries, "min_y", Tag::Int(0));
    push_entry(&mut entries, "monster_spawn_block_light_limit", Tag::Int(0));
    push_entry(&mut entries, "monster_spawn_light_level", light_tag);
    push_entry(&mut entries, "natural", Tag::Int(1));
    push_entry(&mut entries, "piglin_safe", Tag::Int(0));
    push_entry(&mut entries, "respawn_anchor_works", Tag::Int(0));
    push_entry(&mut entries, "ultrawarm", Tag::Int(0));
    proof {
        assert(entries@[height_idx].0@ == "height"@ && entries@[height_idx].1 == Tag::Int(height));
        assert(entries@[logical_idx].0@ == "logical_height"@ && entries@[logical_idx].1
            == Tag::Int(height));
        assert(compound_has_int(entries@, "height"@, height));
        assert(compound_has_int(entries@, "logical_height"@, height));
    }
    RegistryEntry {
        entry_id: limited_string("minecraft:overworld"),
        entry_data: Some(Tag::Compound(entries)),
    }
}

/// One biome entry; downfall 0.4 and mood sound offset 2.0 as IEEE-754
/// bits, temperature per biome.
fn biome_entry(entry_id: &str, temperature_bits: u64) -> (r: RegistryEntry)
    ensures
        r.wf(),
        vstd::utf8::encode_utf8(entry_id@).len() <= 0x7FFF_FFFF ==> r.entry_id@ == entry_id@,
{
    let mut mood: Vec<(String, Tag)> = Vec::new();
    push_entry(&mut mood, "block_search_extent", Tag::Int(8));
    // 2.0 as IEEE-754 bits.
    push_entry(&mut mood, "offset", Tag::Double(0x4000_0000_0000_0000));
    push_entry(&mut mood, "sound", tag_string("minecraft:ambient.cave"));
    push_entry(&mut mood, "tick_delay", Tag::Int(6000));

    let mut effects: Vec<(String, Tag)> = Vec::new();
    push_entry(&mut effects, "fog_color", Tag::Int(12638463));
    push_entry(&mut effects, "mood_sound", Tag::Compound(mood));
    push_entry(&mut effects, "sky_color", Tag::Int(8625919));
    push_entry(&mut effects, "water_color", Tag::Int(4020182));
    push_entry(&mut effects, "water_fog_color", Tag::Int(329011));

    let mut entries: Vec<(String, Tag)> = Vec::new();
    // 0.4000000059604645 as IEEE-754 bits.
    push_entry(&mut entries, "downfall", Tag::Double(0x3FD9_9999_A000_0000));
    push_entry(&mut entries, "effects", Tag::Compound(effects));
    push_entry(&mut entries, "has_precipitation", Tag::Byte(1));
    push_entry(&mut entries, "temperature", Tag::Double(temperature_bits));
    RegistryEntry { entry_id: limited_string(entry_id), entry_data: Some(Tag::Compound(entries)) }
}

/// A placeholder entry with the given fields.
fn placeholder_entry(entry_id: &str, fields: Vec<(String, Tag)>) -> (r: RegistryEntry)
    requires
        forall|i: int|
            0 <= i < fields@.len() ==> (#[trigger] fields@[i]).1.wf_spec()
                && vstd::utf8::encode_utf8(fields@[i].0@).len() <= 0xFFFF,
    ensures
        r.wf(),
{
    RegistryEntry { entry_id: limited_string(entry_id), entry_data: Some(Tag::Compound(fields)) }
}

fn registry_packet(registry_id: &str, entries: Vec<RegistryEntry>) -> (r: ClientboundPacket)
    requires
        entries@.len() <= 0x7FFF_FFFF,
        forall|i: int| 0 <= i < entries@.len() ==> (#[trigger] entries@[i]).wf(),
    ensures
        r matches ClientboundPacket::Configuration(configuration::Clientbound::RegistryData {
            registry_id: rid,
            entries: es,
        }) && es == entries && (vstd::utf8::encode_utf8(registry_id@).len() <= 0x7FFF_FFFF
            ==> rid@ == registry_id@),
        r.wf(),
        r.expected_state_spec() == crate::state::State::Configuration,
{
    ClientboundPacket::Configuration(
        configuration::Clientbound::RegistryData {
            registry_id: limited_string(registry_id),
            entries,
        },
    )
}

/// The five registry pushes the client needs before it will enter Play:
/// the 48 damage types, the overworld dimension type carrying the
/// configured height, a painting and a wolf variant placeholder, and the
/// two biomes.
pub fn registry_data_packets(dimension_height: i32) -> (r: Vec<ClientboundPacket>)
    ensures
        r@.len() == 5,
        forall|i: int|
            0 <= i < r@.len() ==> (#[trigger] r@[i]).wf() && r@[i]
                matches ClientboundPacket::Configuration(
                configuration::Clientbound::RegistryData { .. },
            ),
        r@[0] matches ClientboundPacket::Configuration(configuration::Clientbound::RegistryData {
            registry_id,
            entries,
        }) && registry_id@ == "damage_type"@ && entries@.len() == 48,
        r@[1] matches ClientboundPacket::Configuration(configuration::Clientbound::RegistryData {
            registry_id,
            entries,
        }) && registry_id@ == "dimension_type"@ && entries@.len() == 1 && entries@[0].entry_id@
            == "minecraft:overworld"@ && (entries@[0].entry_data matches Some(t) && (t
            matches Tag::Compound(es) && compound_has_int(es@, "height"@, dimension_height)
            && compound_has_int(es@, "logical_height"@, dimension_height))),
        r@[2] matches ClientboundPacket::Configuration(configuration::Clientbound::RegistryData {
            registry_id,
            entries,
        }) && registry_id@ == "painting_variant"@ && entries@.len() == 1,
        r@[3] matches ClientboundPacket::Configuration(configuration::Clientbound::RegistryData {
            registry_id,
            entries,
        }) && registry_id@ == "wolf_variant"@ && entries@.len() == 1,
        r@[4] matches ClientboundPacket::Configuration(configuration::Clientbound::RegistryData {
            registry_id,
            entries,
        }) && registry_id@ == "worldgen/biome"@ && entries@.len() == 2 && entries@[0].entry_id@
            == "minecraft:snowy_taiga"@ && entries@[1].entry_id@ == "minecraft:plains"@,
{
    proof {
        lemma_fixed_names();
    }
    let mut packets: Vec<ClientboundPacket> = Vec::new();

    let names = damage_type_names();
    let mut damage_types: Vec<RegistryEntry> = Vec::new();
    let mut i: usize = 0;
    while i < names.len()
        invariant
            i <= names@.len(),
            names@.len() <= 48,
            damage_types@.len() == i,
            forall|j: int| 0 <= j < i ==> (#[trigger] damage_types@[j]).wf(),
        decreases names@.len() - i,
    {
        damage_types.push(damage_type_entry(names[i]));
        i = i + 1;
    }
    packets.push(registry_packet("damage_type", damage_types));

    let mut dimension_types: Vec<RegistryEntry> = Vec::new();
    dimension_types.push(dimension_type_entry(dimension_height));
    packets.push(registry_packet("dimension_type", dimension_types));

    let mut painting_fields: Vec<(String, Tag)> = Vec::new();
    push_entry(&mut painting_fields, "asset_id", tag_string("minecraft:alban"));
    push_entry(&mut painting_fields, "width", Tag::Int(1));
    push_entry(&mut painting_fields, "height", Tag::Int(1));
    let mut paintings: Vec<RegistryEntry> = Vec::new();
    paintings.push(placeholder_entry("placeholder", painting_fields));
    packets.push(registry_packet("painting_variant", paintings));

    let mut wolf_fields: Vec<(String, Tag)> = Vec::new();
    push_entry(&mut wolf_fields, "angry_texture", tag_string("minecraft:entity/wolf/wolf_ashen_angry"));
    push_entry(&mut wolf_fields, "biomes", tag_string("minecraft:snowy_taiga"));
    push_entry(&mut wolf_fields, "tame_texture", tag_string("minecraft:entity/wolf/wolf_ashen_tame"));
    push_entry(&mut wolf_fields, "wild_texture", tag_string("minecraft:entity/wolf/wolf_ashen"));
    let mut wolves: Vec<RegistryEntry> = Vec::new();
    wolves.push(placeholder_entry("placeholder", wolf_fields));
    packets.push(registry_packet("wolf_variant", wolves));

    let mut biomes: Vec<RegistryEntry> = Vec::new();
    // -0.5 as IEEE-754 bits.
    biomes.push(biome_entry("minecraft:snowy_taiga", 0xBFE0_0000_0000_0000));
    // 0.8 as IEEE-754 bits.
    biomes.push(biome_entry("minecraft:plains", 0x3FE9_9999_9999_999A));
    packets.push(registry_packet("worldgen/biome", biomes));

    packets
}

} // verus!

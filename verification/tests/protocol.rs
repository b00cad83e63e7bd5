use mcnet::chunk::{Block, BlockIds, Chunk};
use mcnet::connection::{
    decode_serverbound, disconnect_packet, encode_clientbound, encode_frame, frame_poll,
    ClientboundPacket, Error, ErrorAction, ServerboundPacket,
};
use mcnet::nbt::Tag;
use mcnet::deserialize::{self, Deserializer};
use mcnet::packets::configuration;
use mcnet::packets::handshake::{self, NextState};
use mcnet::packets::login;
use mcnet::packets::play;
use mcnet::packets::status;
use mcnet::serialize::{Serialize, Serializer};
use mcnet::session::{
    handle_packet, registry_data_packets, HookData, KEEPALIVE_INTERVAL_MILLIS, PROTOCOL_VERSION,
};
use mcnet::state::State;
use mcnet::registries::{
    BlockEntry, BlockState, BlockStateNotFound, BlockTable, EntityTable, EntityType,
};
use mcnet::wire::Uuid;

fn encode_serverbound_handshake(p: &handshake::Serverbound) -> Vec<u8> {
    let mut s = Serializer::new();
    p.serialize(&mut s);
    s.finish()
}

fn hooks() -> HookData {
    HookData {
        description: "A Minecraft Server".to_owned(),
        players_max: 20,
        players_online: 0,
    }
}

#[test]
fn frame_identity() {
    let body = vec![0x17, 1, 2, 3, 200, 0, 255];
    let framed = encode_frame(&body);
    let (decoded, consumed) = frame_poll(&framed).unwrap();
    assert_eq!(decoded, body);
    assert_eq!(consumed, framed.len());
}

#[test]
fn frame_poll_waits_for_whole_frame() {
    let body = vec![9u8; 10];
    let framed = encode_frame(&body);
    assert!(frame_poll(&framed[..framed.len() - 1]).is_none());
    assert!(frame_poll(&[]).is_none());
}

#[test]
fn handshake_round_trip() {
    let p = handshake::Serverbound::Intention {
        protocol_version: 769,
        server_address: "localhost".to_owned(),
        server_port: 25565,
        next_state: NextState::Status,
    };
    let body = encode_serverbound_handshake(&p);
    let (decoded, next) = decode_serverbound(State::Handshake, body).unwrap();
    match decoded {
        ServerboundPacket::Handshake(handshake::Serverbound::Intention {
            protocol_version,
            server_address,
            server_port,
            next_state,
        }) => {
            assert_eq!(protocol_version, 769);
            assert_eq!(server_address, "localhost");
            assert_eq!(server_port, 25565);
            assert_eq!(next_state, NextState::Status);
        }
        _ => panic!("wrong packet"),
    }
    assert_eq!(next, State::Status);
}

#[test]
fn handshake_login_intention_enters_login() {
    let p = handshake::Serverbound::Intention {
        protocol_version: 769,
        server_address: String::new(),
        server_port: 25565,
        next_state: NextState::Login,
    };
    let (_, next) = decode_serverbound(State::Handshake, encode_serverbound_handshake(&p)).unwrap();
    assert_eq!(next, State::Login);
}

#[test]
fn unknown_packet_id_is_invalid() {
    // Varint id 0x19 with no body is not a handshake packet.
    let r = decode_serverbound(State::Handshake, vec![0x19]);
    match r {
        Err(Error::Deserialize(deserialize::Error::InvalidPacketId { state, packet_id })) => {
            assert_eq!(state, State::Handshake);
            assert_eq!(packet_id, 0x19);
        }
        _ => panic!("expected an invalid packet id"),
    }
}

#[test]
fn trailing_bytes_are_an_error() {
    // StatusRequest followed by a stray byte.
    let r = decode_serverbound(State::Status, vec![0x00, 0x00]);
    assert!(matches!(
        r,
        Err(Error::Deserialize(deserialize::Error::BytesRemaining))
    ));
}

#[test]
fn error_policy() {
    let invalid = Error::Deserialize(deserialize::Error::InvalidPacketId {
        state: State::Play,
        packet_id: 99,
    });
    assert_eq!(invalid.action(State::Play), ErrorAction::IgnorePacket);
    assert_eq!(invalid.action(State::Status), ErrorAction::Disconnect);
    assert_eq!(Error::ClientTimedOut.action(State::Play), ErrorAction::DropSilently);
    assert_eq!(
        Error::Deserialize(deserialize::Error::EndOfPacket).action(State::Play),
        ErrorAction::Disconnect
    );
}

#[test]
fn status_ping_scenario() {
    // Intention with next_state 1, then StatusRequest, then PingRequest{42}.
    let mut last = 0u64;
    let h = hooks();

    let intention = handshake::Serverbound::Intention {
        protocol_version: 769,
        server_address: "localhost".to_owned(),
        server_port: 25565,
        next_state: NextState::Status,
    };
    let (p1, next) =
        decode_serverbound(State::Handshake, encode_serverbound_handshake(&intention)).unwrap();
    assert_eq!(next, State::Status);
    handle_packet(&p1, 0, &mut last, &h, 256).unwrap();

    let (p2, _) = decode_serverbound(State::Status, vec![0x00]).unwrap();
    let a = handle_packet(&p2, 0, &mut last, &h, 256).unwrap();
    assert_eq!(a.responses.len(), 1);
    match &a.responses[0] {
        ClientboundPacket::Status(status::Clientbound::StatusResponse { status }) => {
            assert_eq!(status.players.max, 20);
            assert_eq!(status.players.online, 0);
            assert_eq!(status.version.protocol, 769);
            assert_eq!(status.version.name, "1.21.4");
        }
        _ => panic!("expected a status response"),
    }
    let json = encode_clientbound(State::Status, &a.responses[0]);
    // Body: id 0, then the JSON string.
    let expected = "{\"version\":{\"name\":\"1.21.4\",\"protocol\":769},\"players\":{\"max\":20,\"online\":0},\"description\":{\"text\":\"A Minecraft Server\"}}";
    assert_eq!(json[0], 0x00);
    assert_eq!(json[1] as usize, expected.len());
    assert_eq!(&json[2..], expected.as_bytes());

    let mut ping = Serializer::new();
    ping.serialize_varint(0x01);
    ping.serialize_long(42);
    let (p3, _) = decode_serverbound(State::Status, ping.finish()).unwrap();
    let a = handle_packet(&p3, 0, &mut last, &h, 256).unwrap();
    assert_eq!(a.responses.len(), 1);
    match &a.responses[0] {
        ClientboundPacket::Status(status::Clientbound::PongResponse { timestamp }) => {
            assert_eq!(*timestamp, 42);
        }
        _ => panic!("expected a pong"),
    }
}

#[test]
fn login_refused_on_bad_protocol() {
    // Intention with protocol_version 1 and next_state 2: the session
    // refuses with a protocol mismatch, which the caller turns into a
    // Login-phase disconnect.
    let mut last = 0u64;
    let intention = handshake::Serverbound::Intention {
        protocol_version: 1,
        server_address: String::new(),
        server_port: 25565,
        next_state: NextState::Login,
    };
    let (p, next) =
        decode_serverbound(State::Handshake, encode_serverbound_handshake(&intention)).unwrap();
    assert_eq!(next, State::Login);
    let err = handle_packet(&p, 0, &mut last, &hooks(), 256).unwrap_err();
    assert_eq!(err.got, 1);
}

#[test]
fn minimal_login_play_scenario() {
    let mut last = 0u64;
    let h = hooks();

    // Handshake with protocol 769 into Login.
    let intention = handshake::Serverbound::Intention {
        protocol_version: 769,
        server_address: "localhost".to_owned(),
        server_port: 25565,
        next_state: NextState::Login,
    };
    let (p, state) =
        decode_serverbound(State::Handshake, encode_serverbound_handshake(&intention)).unwrap();
    assert_eq!(state, State::Login);
    handle_packet(&p, 0, &mut last, &h, 256).unwrap();

    // Hello{name: "Steve", uuid: 0}.
    let mut hello = Serializer::new();
    hello.serialize_varint(0x00);
    hello.serialize_string("Steve");
    hello.serialize_uuid(Uuid { hi: 0, lo: 0 });
    let (p, state) = decode_serverbound(State::Login, hello.finish()).unwrap();
    assert_eq!(state, State::Login);
    let a = handle_packet(&p, 0, &mut last, &h, 256).unwrap();
    assert_eq!(a.responses.len(), 1);
    match &a.responses[0] {
        ClientboundPacket::Login(login::Clientbound::LoginFinished {
            uuid,
            username,
            properties,
        }) => {
            assert_eq!(username, "Steve");
            assert!(properties.is_empty());
            // Version nibble of a v4 UUID.
            assert_eq!((uuid.hi >> 12) & 0xF, 4);
        }
        _ => panic!("expected login finished"),
    }

    // LoginAcknowledged enters Configuration.
    let (p, state) = decode_serverbound(State::Login, vec![0x03]).unwrap();
    assert_eq!(state, State::Configuration);
    assert!(matches!(
        p,
        ServerboundPacket::Login(login::Serverbound::LoginAcknowledged)
    ));

    // ClientInformation earns the known packs.
    let mut info = Serializer::new();
    info.serialize_varint(0x00);
    info.serialize_string("en_us");
    info.serialize_byte(8);
    info.serialize_varint(0);
    info.serialize_boolean(true);
    info.serialize_ubyte(0);
    info.serialize_varint(1);
    info.serialize_boolean(false);
    info.serialize_boolean(true);
    info.serialize_varint(0);
    let (p, state) = decode_serverbound(State::Configuration, info.finish()).unwrap();
    assert_eq!(state, State::Configuration);
    let a = handle_packet(&p, 0, &mut last, &h, 256).unwrap();
    assert_eq!(a.responses.len(), 1);
    assert!(matches!(
        &a.responses[0],
        ClientboundPacket::Configuration(configuration::Clientbound::SelectKnownPacks { .. })
    ));

    // The client's SelectKnownPacks earns the registry push and the
    // server's FinishConfiguration.
    let mut skp = Serializer::new();
    skp.serialize_varint(0x07);
    skp.serialize_varint(1);
    skp.serialize_string("minecraft");
    skp.serialize_string("core");
    skp.serialize_string("1.21.4");
    let (p, state) = decode_serverbound(State::Configuration, skp.finish()).unwrap();
    assert_eq!(state, State::Configuration);
    let a = handle_packet(&p, 0, &mut last, &h, 256).unwrap();
    assert_eq!(a.responses.len(), 6);
    for r in &a.responses[..5] {
        assert!(matches!(
            r,
            ClientboundPacket::Configuration(configuration::Clientbound::RegistryData { .. })
        ));
    }
    assert!(matches!(
        &a.responses[5],
        ClientboundPacket::Configuration(configuration::Clientbound::FinishConfiguration)
    ));

    // The client's FinishConfiguration enters Play and runs on_login once.
    let (p, state) = decode_serverbound(State::Configuration, vec![0x03]).unwrap();
    assert_eq!(state, State::Play);
    let a = handle_packet(&p, 0, &mut last, &h, 256).unwrap();
    assert!(a.run_on_login);
    assert!(a.responses.is_empty());
}

#[test]
fn keepalive_cadence() {
    // Eleven seconds of tick-end packets: exactly one keepalive; by
    // twenty-one seconds, exactly two.
    let mut last = 0u64;
    let h = hooks();
    let tick = ServerboundPacket::Play(play::Serverbound::ClientTickEnd);
    let mut keepalives = 0;
    for now in 0..=21_000u64 {
        if now % 50 != 0 {
            continue;
        }
        let a = handle_packet(&tick, now, &mut last, &h, 256).unwrap();
        assert!(a.run_on_tick);
        for r in &a.responses {
            if let ClientboundPacket::Play(play::Clientbound::KeepAlive { keep_alive_id }) = r {
                assert_eq!(*keep_alive_id, 0);
                keepalives += 1;
            }
        }
        if now == 11_000 {
            assert_eq!(keepalives, 1); // the one sent at t=10s
        }
    }
    assert_eq!(keepalives, 2); // at t=10s and t=20s
    assert_eq!(KEEPALIVE_INTERVAL_MILLIS, 10_000);
    assert_eq!(PROTOCOL_VERSION, 769);
}

#[test]
fn registry_data_is_five_packets() {
    let packets = registry_data_packets(256);
    assert_eq!(packets.len(), 5);
    let ids: Vec<String> = packets
        .iter()
        .map(|p| match p {
            ClientboundPacket::Configuration(configuration::Clientbound::RegistryData {
                registry_id,
                ..
            }) => registry_id.clone(),
            _ => panic!("expected registry data"),
        })
        .collect();
    assert_eq!(
        ids,
        vec![
            "damage_type",
            "dimension_type",
            "painting_variant",
            "wolf_variant",
            "worldgen/biome"
        ]
    );
}

#[test]
fn chunk_round_trip() {
    // A 16-tall chunk with one gray concrete block at (7, 7, 15): block
    // count one, palette of exactly air and gray concrete, 256 data longs.
    let ids = BlockIds {
        air: 0,
        gray_concrete: 10688,
        stairs_west_top: 1,
        stairs_west_bottom: 2,
        stairs_east_top: 3,
        stairs_east_bottom: 4,
    };
    let mut chunk = Chunk::empty(1);
    chunk.set_block(7, 7, 15, Block::GrayConcrete);
    assert_eq!(chunk.block(7, 7, 15), Block::GrayConcrete);
    assert_eq!(chunk.block(7, 7, 14), Block::Air);
    let data = chunk.chunk_data(ids);

    let mut d = Deserializer2::new(data);
    // Non-air count.
    assert_eq!(d.short(), 1);
    // Bits per entry.
    assert_eq!(d.byte(), 4);
    // Palette: exactly two entries, air then gray concrete.
    assert_eq!(d.varint(), 2);
    assert_eq!(d.varint(), 0);
    assert_eq!(d.varint(), 10688);
    // Data: 256 longs = 2048 bytes.
    assert_eq!(d.varint(), 256);
    let packed = d.bytes(2048);
    // Block (x=7, y=7, z=15) sits at vector index 2039, the low nibble of
    // packed byte 1019.
    let index = ((7 * 16 + 15) * 16 + 7) / 2;
    assert_eq!(packed[index], 0x01);
    assert_eq!(packed.iter().map(|&b| b as u32).sum::<u32>(), 0x01);
    // Biomes.
    assert_eq!(d.bytes(3), vec![0, 0, 0]);
    assert!(d.done());
}

#[test]
fn light_data_stub() {
    let mut s = Serializer::new();
    play::LightData {}.serialize(&mut s);
    assert_eq!(
        s.finish(),
        vec![
            1, 0, 0, 0, 0, 0, 0, 0, 0, // sky mask: one zero long
            1, 0, 0, 0, 0, 0, 0, 0, 0, // block mask
            1, 0, 0, 0, 0, 0, 0, 0, 0, // empty sky mask
            1, 0, 0, 0, 0, 0, 0, 0, 0, // empty block mask
            0, 0, // empty light arrays
        ]
    );
}

/// A plain test-side reader over produced bytes.
struct Deserializer2 {
    d: Deserializer,
}

impl Deserializer2 {
    fn new(bytes: Vec<u8>) -> Self {
        Deserializer2 { d: Deserializer::new(bytes) }
    }

    fn short(&mut self) -> i16 {
        self.d.deserialize_short().unwrap()
    }

    fn byte(&mut self) -> u8 {
        self.d.deserialize_ubyte().unwrap()
    }

    fn varint(&mut self) -> i32 {
        self.d.deserialize_varint().unwrap()
    }

    fn bytes(&mut self, n: usize) -> Vec<u8> {
        let mut out = Vec::new();
        for _ in 0..n {
            out.push(self.d.deserialize_ubyte().unwrap());
        }
        out
    }

    fn done(&mut self) -> bool {
        self.d.finish().is_ok()
    }
}


#[test]
fn invalid_enum_variant_on_bad_next_state() {
    let mut bad = Serializer::new();
    bad.serialize_varint(0x00);
    bad.serialize_varint(769);
    bad.serialize_string("localhost");
    bad.serialize_ushort(25565);
    bad.serialize_varint(5);
    let r = decode_serverbound(State::Handshake, bad.finish());
    match r {
        Err(Error::Deserialize(deserialize::Error::InvalidEnumVariant { enum_name, value })) => {
            assert_eq!(enum_name, "NextState");
            assert_eq!(value, 5);
        }
        _ => panic!("expected an invalid enum variant"),
    }
}

#[test]
fn transfer_intention_is_refused() {
    let p = handshake::Serverbound::Intention {
        protocol_version: 769,
        server_address: String::new(),
        server_port: 25565,
        next_state: NextState::Transfer,
    };
    let r = decode_serverbound(State::Handshake, encode_serverbound_handshake(&p));
    assert!(matches!(r, Err(Error::TransferUnsupported)));
}

#[test]
fn status_json_escapes_strings() {
    let json = mcnet::json::status_json("1.21.4", 769, 1, 2, "say \"hi\"\\\n");
    let text = String::from_utf8(json).unwrap();
    assert_eq!(
        text,
        "{\"version\":{\"name\":\"1.21.4\",\"protocol\":769},\"players\":{\"max\":1,\"online\":2},\"description\":{\"text\":\"say \\\"hi\\\"\\\\\\u000a\"}}"
    );
}

#[test]
fn play_packets_round_trip() {
    fn check(p: play::Serverbound) -> ServerboundPacket {
        let mut s = Serializer::new();
        p.serialize(&mut s);
        let (decoded, state) = decode_serverbound(State::Play, s.finish()).unwrap();
        assert_eq!(state, State::Play);
        decoded
    }
    match check(play::Serverbound::AcceptTeleportation { teleport_id: -7 }) {
        ServerboundPacket::Play(play::Serverbound::AcceptTeleportation { teleport_id }) => {
            assert_eq!(teleport_id, -7)
        }
        _ => panic!("wrong packet"),
    }
    match check(play::Serverbound::MovePlayerPosRot {
        x_bits: 8.25f64.to_bits(),
        feet_y_bits: (-3.5f64).to_bits(),
        z_bits: 15.5f64.to_bits(),
        yaw_bits: 90.0f32.to_bits(),
        pitch_bits: 0.0f32.to_bits(),
        flags: 1,
    }) {
        ServerboundPacket::Play(play::Serverbound::MovePlayerPosRot {
            x_bits,
            feet_y_bits,
            flags,
            ..
        }) => {
            assert_eq!(f64::from_bits(x_bits), 8.25);
            assert_eq!(f64::from_bits(feet_y_bits), -3.5);
            assert_eq!(flags, 1);
        }
        _ => panic!("wrong packet"),
    }
    match check(play::Serverbound::CustomPayload {
        channel: "minecraft:brand".to_owned(),
        data: vec![1, 2, 3],
    }) {
        ServerboundPacket::Play(play::Serverbound::CustomPayload { channel, data }) => {
            assert_eq!(channel, "minecraft:brand");
            assert_eq!(data, vec![1, 2, 3]);
        }
        _ => panic!("wrong packet"),
    }
    match check(play::Serverbound::ClientTickEnd) {
        ServerboundPacket::Play(play::Serverbound::ClientTickEnd) => {}
        _ => panic!("wrong packet"),
    }
}

#[test]
fn registry_lookups() {
    let table = BlockTable {
        blocks: vec![BlockEntry {
            name: "minecraft:oak_stairs".to_owned(),
            states: vec![
                BlockState {
                    id: 100,
                    properties: vec![("half".to_owned(), "top".to_owned())],
                },
                BlockState {
                    id: 101,
                    properties: vec![("half".to_owned(), "bottom".to_owned())],
                },
                BlockState {
                    id: 102,
                    properties: vec![("half".to_owned(), "bottom".to_owned())],
                },
            ],
        }],
    };
    // First matching state wins.
    let half_bottom = vec![("half".to_owned(), "bottom".to_owned())];
    assert_eq!(table.block_state("minecraft:oak_stairs", &half_bottom).unwrap(), 101);
    assert_eq!(table.block_state("minecraft:oak_stairs", &Vec::new()).unwrap(), 100);
    assert!(matches!(
        table.block_state("minecraft:missing", &Vec::new()),
        Err(BlockStateNotFound::BlockNotFound { .. })
    ));
    let half_left = vec![("half".to_owned(), "left".to_owned())];
    assert!(matches!(
        table.block_state("minecraft:oak_stairs", &half_left),
        Err(BlockStateNotFound::BlockStateNotFound { .. })
    ));

    let entities = EntityTable {
        entries: vec![("minecraft:phantom".to_owned(), EntityType { protocol_id: 118 })],
    };
    assert_eq!(entities.entity_type("minecraft:phantom").unwrap().protocol_id, 118);
    assert!(entities.entity_type("minecraft:zombie").is_err());
}

#[test]
fn configuration_packets_round_trip() {
    let info = configuration::Serverbound::ClientInformation {
        locale: "en_us".to_owned(),
        view_distance: 12,
        chat_mode: 0,
        chat_colors: true,
        displayed_skin_parts: 0x7F,
        main_hand: 1,
        enable_text_filtering: false,
        allow_server_listings: true,
        particle_status: 2,
    };
    let mut s = Serializer::new();
    info.serialize(&mut s);
    let (decoded, state) = decode_serverbound(State::Configuration, s.finish()).unwrap();
    assert_eq!(state, State::Configuration);
    match decoded {
        ServerboundPacket::Configuration(configuration::Serverbound::ClientInformation {
            locale,
            view_distance,
            chat_colors,
            displayed_skin_parts,
            particle_status,
            ..
        }) => {
            assert_eq!(locale, "en_us");
            assert_eq!(view_distance, 12);
            assert!(chat_colors);
            assert_eq!(displayed_skin_parts, 0x7F);
            assert_eq!(particle_status, 2);
        }
        _ => panic!("wrong packet"),
    }

    let packs = configuration::Serverbound::SelectKnownPacks {
        known_packs: vec![configuration::KnownPack {
            namespace: "minecraft".to_owned(),
            id: "core".to_owned(),
            version: "1.21.4".to_owned(),
        }],
    };
    let mut s = Serializer::new();
    packs.serialize(&mut s);
    let (decoded, _) = decode_serverbound(State::Configuration, s.finish()).unwrap();
    match decoded {
        ServerboundPacket::Configuration(configuration::Serverbound::SelectKnownPacks {
            known_packs,
        }) => {
            assert_eq!(known_packs.len(), 1);
            assert_eq!(known_packs[0].namespace, "minecraft");
            assert_eq!(known_packs[0].id, "core");
            assert_eq!(known_packs[0].version, "1.21.4");
        }
        _ => panic!("wrong packet"),
    }
}

#[test]
fn clientbound_bytes_are_exact() {
    // KeepAlive: id 0x27, then the id as a big-endian long.
    let keepalive = ClientboundPacket::Play(play::Clientbound::KeepAlive { keep_alive_id: 7 });
    assert_eq!(
        encode_clientbound(State::Play, &keepalive),
        vec![0x27, 0, 0, 0, 0, 0, 0, 0, 7]
    );

    // FinishConfiguration is just its id.
    let finish =
        ClientboundPacket::Configuration(configuration::Clientbound::FinishConfiguration);
    assert_eq!(encode_clientbound(State::Configuration, &finish), vec![0x03]);

    // LoginFinished: id 2, raw UUID, the name, empty properties.
    let finished = ClientboundPacket::Login(login::Clientbound::LoginFinished {
        uuid: Uuid { hi: 0, lo: 1 },
        username: "Steve".to_owned(),
        properties: Vec::new(),
    });
    assert_eq!(
        encode_clientbound(State::Login, &finished),
        vec![
            0x02, // packet id
            0, 0, 0, 0, 0, 0, 0, 0, 0, 0, 0, 0, 0, 0, 0, 1, // uuid
            5, b'S', b't', b'e', b'v', b'e', // name
            0, // properties
        ]
    );

    // A configuration disconnect carries an unnamed NBT string tag.
    let disconnect = ClientboundPacket::Configuration(configuration::Clientbound::Disconnect {
        reason: "no".to_owned(),
    });
    assert_eq!(
        encode_clientbound(State::Configuration, &disconnect),
        vec![0x02, 0x08, 0, 2, b'n', b'o']
    );
}

#[test]
fn position_packets_bytes_are_exact() {
    // EntityPositionSync: id 0x20, varint entity id, six doubles, two
    // floats, then the on-ground flag.
    let sync = ClientboundPacket::Play(play::Clientbound::EntityPositionSync {
        entity_id: 5,
        x_bits: 1.0f64.to_bits(),
        y_bits: 0.0f64.to_bits(),
        z_bits: 0.0f64.to_bits(),
        velocity_x_bits: 0.0f64.to_bits(),
        velocity_y_bits: 0.0f64.to_bits(),
        velocity_z_bits: 0.0f64.to_bits(),
        yaw_bits: 0.0f32.to_bits(),
        pitch_bits: 0.0f32.to_bits(),
        on_ground: true,
    });
    let bytes = encode_clientbound(State::Play, &sync);
    assert_eq!(bytes.len(), 1 + 1 + 48 + 8 + 1);
    assert_eq!(bytes[0], 0x20);
    assert_eq!(bytes[1], 5);
    assert_eq!(&bytes[2..10], &1.0f64.to_bits().to_be_bytes());
    assert_eq!(bytes[58], 1);

    // PlayerPosition: id 0x42, varint teleport id, six doubles, two floats,
    // then the int flags.
    let position = ClientboundPacket::Play(play::Clientbound::PlayerPosition {
        teleport_id: 1,
        x_bits: 8.0f64.to_bits(),
        y_bits: 17.0f64.to_bits(),
        z_bits: 8.0f64.to_bits(),
        velocity_x_bits: 0.0f64.to_bits(),
        velocity_y_bits: 0.0f64.to_bits(),
        velocity_z_bits: 0.0f64.to_bits(),
        yaw_bits: 0.0f32.to_bits(),
        pitch_bits: 0.0f32.to_bits(),
        flags: 0,
    });
    let bytes = encode_clientbound(State::Play, &position);
    assert_eq!(bytes.len(), 1 + 1 + 48 + 8 + 4);
    assert_eq!(bytes[0], 0x42);
    assert_eq!(bytes[1], 1);
    assert_eq!(&bytes[2..10], &8.0f64.to_bits().to_be_bytes());
}

#[test]
fn disconnect_packet_per_phase() {
    assert!(disconnect_packet(State::Handshake, "bye".to_owned()).is_none());
    assert!(disconnect_packet(State::Status, "bye".to_owned()).is_none());
    match disconnect_packet(State::Login, "bye".to_owned()) {
        Some(ClientboundPacket::Login(login::Clientbound::LoginDisconnect { reason })) => {
            assert_eq!(reason, "bye");
        }
        _ => panic!("expected a login disconnect"),
    }
    let p = disconnect_packet(State::Play, "bye".to_owned()).unwrap();
    assert_eq!(p.expected_state(), State::Play);
    // The Play reason travels as an unnamed NBT string tag.
    assert_eq!(encode_clientbound(State::Play, &p), vec![0x1D, 0x08, 0, 3, b'b', b'y', b'e']);
}

#[test]
fn registry_dimension_carries_height() {
    let packets = registry_data_packets(144);
    match &packets[1] {
        ClientboundPacket::Configuration(configuration::Clientbound::RegistryData {
            registry_id,
            entries,
        }) => {
            assert_eq!(registry_id, "dimension_type");
            assert_eq!(entries.len(), 1);
            assert_eq!(entries[0].entry_id, "minecraft:overworld");
            match &entries[0].entry_data {
                Some(Tag::Compound(es)) => {
                    let heights: Vec<i32> = es
                        .iter()
                        .filter(|(n, _)| n == "height" || n == "logical_height")
                        .map(|(_, t)| match t {
                            Tag::Int(v) => *v,
                            _ => panic!("expected an int tag"),
                        })
                        .collect();
                    assert_eq!(heights, vec![144, 144]);
                }
                _ => panic!("expected a compound"),
            }
        }
        _ => panic!("expected registry data"),
    }
    match &packets[0] {
        ClientboundPacket::Configuration(configuration::Clientbound::RegistryData {
            registry_id,
            entries,
        }) => {
            assert_eq!(registry_id, "damage_type");
            assert_eq!(entries.len(), 48);
        }
        _ => panic!("expected registry data"),
    }
}

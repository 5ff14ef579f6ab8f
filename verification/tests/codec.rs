use plugin_runtime::engine_codec::{EngineCommand, EngineEvent, Primitive};
use plugin_runtime::game_codec::{EnemyType, GameCommand, GameEvent, ItemType};

fn roundtrip_command(c: EngineCommand) -> EngineCommand {
    let bytes = c.to_bytes();
    EngineCommand::from_bytes(&bytes).expect("an encoded command must decode")
}

fn roundtrip_event(e: EngineEvent) -> EngineEvent {
    let bytes = e.to_bytes();
    EngineEvent::from_bytes(&bytes).expect("an encoded event must decode")
}

#[test]
fn engine_command_log_roundtrip() {
    let c = EngineCommand::Log { message: String::from("hello from a guest") };
    let back = roundtrip_command(c);
    assert_eq!(back, EngineCommand::Log { message: String::from("hello from a guest") });
}

#[test]
fn engine_command_spawn_roundtrip_all_primitives() {
    let prims = [
        Primitive::Cube,
        Primitive::Sphere,
        Primitive::Cylinder,
        Primitive::Plane,
        Primitive::Cone,
    ];
    for (i, p) in prims.iter().enumerate() {
        let c = EngineCommand::SpawnPrimitive {
            primitive: *p,
            x_bits: 1.0f32.to_bits(),
            y_bits: 2.0f32.to_bits(),
            z_bits: 3.0f32.to_bits(),
            request_id: 7 + i as u64,
        };
        let back = roundtrip_command(c);
        match back {
            EngineCommand::SpawnPrimitive { primitive, x_bits, y_bits, z_bits, request_id } => {
                assert_eq!(primitive, *p);
                assert_eq!(f32::from_bits(x_bits), 1.0);
                assert_eq!(f32::from_bits(y_bits), 2.0);
                assert_eq!(f32::from_bits(z_bits), 3.0);
                assert_eq!(request_id, 7 + i as u64);
            },
            other => panic!("wrong variant: {:?}", other),
        }
    }
}

#[test]
fn engine_command_every_variant_roundtrips() {
    let cases = vec![
        EngineCommand::Log { message: String::new() },
        EngineCommand::DespawnEntity { entity_id: 12 },
        EngineCommand::SetEntityPosition { entity_id: 1, x_bits: 5, y_bits: 6, z_bits: 7 },
        EngineCommand::SetEntityScale { entity_id: 2, x_bits: 8, y_bits: 9, z_bits: 10 },
        EngineCommand::SetEntityRotation {
            entity_id: 3,
            x_bits: 1,
            y_bits: 2,
            z_bits: 3,
            w_bits: 4,
        },
        EngineCommand::GetEntityPosition { entity_id: 4, request_id: 44 },
        EngineCommand::GetEntityScale { entity_id: 5, request_id: 55 },
        EngineCommand::GetEntityRotation { entity_id: 6, request_id: 66 },
        EngineCommand::ReadFile { path: String::from("data/notes.txt"), request_id: 9 },
        EngineCommand::LoadTexture { path: String::from("logo.png"), request_id: 42 },
        EngineCommand::LoadPrefab {
            path: String::from("models/tree.gltf"),
            x_bits: 0,
            y_bits: 0,
            z_bits: 0,
            request_id: 13,
        },
        EngineCommand::SetEntityMaterial { entity_id: 8, texture_id: 3 },
    ];
    for c in cases {
        let bytes = c.to_bytes();
        let back = EngineCommand::from_bytes(&bytes).expect("decode");
        assert_eq!(back, c);
    }
}

#[test]
fn engine_event_every_variant_roundtrips() {
    let cases = vec![
        EngineEvent::FrameStart { delta_time_bits: 0.016f32.to_bits(), frame_count: 99 },
        EngineEvent::MouseMoved { x_bits: 100, y_bits: 200 },
        EngineEvent::KeyPressed { key_code: 17 },
        EngineEvent::KeyReleased { key_code: 17 },
        EngineEvent::MouseButtonPressed { button: 0 },
        EngineEvent::MouseButtonReleased { button: 8 },
        EngineEvent::EntitySpawned { request_id: 7, entity_id: 1 },
        EngineEvent::EntityPosition { request_id: 1, entity_id: 2, x_bits: 3, y_bits: 4, z_bits: 5 },
        EngineEvent::EntityScale { request_id: 2, entity_id: 3, x_bits: 4, y_bits: 5, z_bits: 6 },
        EngineEvent::EntityRotation {
            request_id: 3,
            entity_id: 4,
            x_bits: 5,
            y_bits: 6,
            z_bits: 7,
            w_bits: 8,
        },
        EngineEvent::EntityNotFound { request_id: 4, entity_id: 5 },
        EngineEvent::FileLoaded { request_id: 5, data: vec![1, 2, 3, 255, 0] },
        EngineEvent::FileError {
            request_id: 9,
            error: String::from("Invalid path: access denied"),
        },
        EngineEvent::TextureLoaded { request_id: 42, texture_id: 1 },
        EngineEvent::AssetError { request_id: 6, error: String::from("No prefabs found in glTF file") },
        EngineEvent::PrefabLoaded { request_id: 13, entity_id: 2 },
    ];
    for e in cases {
        let bytes = e.to_bytes();
        let back = EngineEvent::from_bytes(&bytes).expect("decode");
        assert_eq!(back, e);
    }
}

#[test]
fn engine_event_unicode_string_roundtrips() {
    let e = EngineEvent::FileError { request_id: 1, error: String::from("chemin refusé — désolé ☹") };
    let back = roundtrip_event(e);
    match back {
        EngineEvent::FileError { error, .. } => {
            assert_eq!(error, "chemin refusé — désolé ☹")
        },
        other => panic!("wrong variant: {:?}", other),
    }
}

#[test]
fn game_command_every_variant_roundtrips() {
    let cases = vec![
        GameCommand::SpawnEnemy {
            enemy_type: EnemyType::Dragon,
            x_bits: 1,
            y_bits: 2,
            z_bits: 3,
            request_id: 4,
        },
        GameCommand::DespawnEnemy { enemy_id: 5 },
        GameCommand::DamageEnemy { enemy_id: 6, damage: 25 },
        GameCommand::SpawnItem {
            item_type: ItemType::Shield,
            x_bits: 7,
            y_bits: 8,
            z_bits: 9,
            request_id: 10,
        },
        GameCommand::GivePlayerItem { item_type: ItemType::HealthPotion },
        GameCommand::SetPlayerHealth { health: 100 },
        GameCommand::SetPlayerScore { score: 12345 },
        GameCommand::TriggerGameEvent { event_name: String::from("wave_3_start") },
    ];
    for c in cases {
        let bytes = c.to_bytes();
        let back = GameCommand::from_bytes(&bytes).expect("decode");
        assert_eq!(back, c);
    }
}

#[test]
fn game_event_every_variant_roundtrips() {
    let cases = vec![
        GameEvent::EnemySpawned { request_id: 1, enemy_id: 2, enemy_type: EnemyType::Slime },
        GameEvent::EnemyDied { enemy_id: 3, enemy_type: EnemyType::Skeleton },
        GameEvent::EnemyDamaged { enemy_id: 4, remaining_health: 25 },
        GameEvent::ItemSpawned { request_id: 5, item_id: 6, item_type: ItemType::ManaPotion },
        GameEvent::ItemCollected { item_id: 0, item_type: ItemType::Sword },
        GameEvent::PlayerHealthChanged { health: 75, max_health: 100 },
        GameEvent::PlayerScoreChanged { score: 10 },
        GameEvent::PlayerDied,
        GameEvent::GameEventTriggered { event_name: String::from("boss_fight") },
        GameEvent::WaveStarted { wave_number: 1 },
        GameEvent::WaveCompleted { wave_number: 2 },
    ];
    for e in cases {
        let bytes = e.to_bytes();
        let back = GameEvent::from_bytes(&bytes).expect("decode");
        assert_eq!(back, e);
    }
}

#[test]
fn malformed_buffers_are_rejected() {
    assert_eq!(EngineCommand::from_bytes(&vec![]), None);
    assert_eq!(EngineCommand::from_bytes(&vec![99]), None);
    assert_eq!(EngineEvent::from_bytes(&vec![0, 200]), None);
    assert_eq!(GameEvent::from_bytes(&vec![5, 5, 5, 5]), None);

    // A valid encoding with trailing garbage must not decode.
    let mut bytes = EngineEvent::TextureLoaded { request_id: 1, texture_id: 2 }.to_bytes();
    bytes.push(0);
    assert_eq!(EngineEvent::from_bytes(&bytes), None);

    // A truncated encoding must not decode.
    let bytes = EngineEvent::TextureLoaded { request_id: 1, texture_id: 2 }.to_bytes();
    let truncated: Vec<u8> = bytes[..bytes.len() - 1].to_vec();
    assert_eq!(EngineEvent::from_bytes(&truncated), None);
}

#[test]
fn decoder_rejects_wrong_field_kinds() {
    // Encode a Log command, then change its variant tag to DespawnEntity:
    // the field kinds no longer match the schema.
    let bytes = EngineCommand::Log { message: String::from("x") }.to_bytes();
    let mut forged = bytes.clone();
    assert_eq!(forged[0], 0); // field marker: variant tag
    forged[1] = 2; // variant: DespawnEntity, which wants a U64 field
    assert_eq!(EngineCommand::from_bytes(&forged), None);
}

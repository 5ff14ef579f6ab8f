use plugin_runtime::game::{get_enemy_max_health, parse_u32_str, GameClient, GameState, GameStep};
use plugin_runtime::game_codec::{EnemyType, GameCommand, GameEvent, ItemType};

#[test]
fn enemy_max_health_values() {
    assert_eq!(get_enemy_max_health(&EnemyType::Slime), 20);
    assert_eq!(get_enemy_max_health(&EnemyType::Skeleton), 50);
    assert_eq!(get_enemy_max_health(&EnemyType::Dragon), 200);
}

#[test]
fn spawned_enemy_gets_full_health_and_a_reply() {
    let mut g = GameState::new();
    let step = g.process_game_command(
        1,
        GameCommand::SpawnEnemy {
            enemy_type: EnemyType::Skeleton,
            x_bits: 1,
            y_bits: 2,
            z_bits: 3,
            request_id: 4,
        },
    );
    match step {
        GameStep::SpawnEnemy { plugin_id, request_id, enemy_type, .. } => {
            assert_eq!(plugin_id, 1);
            assert_eq!(request_id, 4);
            assert_eq!(enemy_type, EnemyType::Skeleton);
        },
        other => panic!("wrong step: {:?}", other),
    }
    let (enemy_id, event) = g.on_enemy_spawned(1, 4, EnemyType::Skeleton, 500);
    assert_eq!(
        event,
        GameEvent::EnemySpawned { request_id: 4, enemy_id, enemy_type: EnemyType::Skeleton },
    );
    let rec = g.enemy(enemy_id).expect("the enemy is live");
    assert_eq!(rec.entity, 500);
    assert_eq!(rec.health, 50);
    assert_eq!(g.enemy_count(), 1);
}

#[test]
fn damage_saturates_at_zero_and_is_broadcast() {
    let mut g = GameState::new();
    let (enemy_id, _) = g.on_enemy_spawned(1, 1, EnemyType::Slime, 500);
    let step = g.process_game_command(1, GameCommand::DamageEnemy { enemy_id, damage: 15 });
    match step {
        GameStep::Broadcast { event } => {
            assert_eq!(event, GameEvent::EnemyDamaged { enemy_id, remaining_health: 5 });
        },
        other => panic!("wrong step: {:?}", other),
    }
    // More damage than health: saturate, never wrap.
    let step = g.process_game_command(1, GameCommand::DamageEnemy { enemy_id, damage: 25 });
    match step {
        GameStep::Broadcast { event } => {
            assert_eq!(event, GameEvent::EnemyDamaged { enemy_id, remaining_health: 0 });
        },
        other => panic!("wrong step: {:?}", other),
    }
    // An unknown id does nothing.
    let step = g.process_game_command(1, GameCommand::DamageEnemy { enemy_id: 99, damage: 1 });
    assert_eq!(step, GameStep::Ignore);
}

#[test]
fn despawned_enemy_dies_for_every_plugin() {
    let mut g = GameState::new();
    let (enemy_id, _) = g.on_enemy_spawned(1, 1, EnemyType::Dragon, 777);
    let step = g.process_game_command(2, GameCommand::DespawnEnemy { enemy_id });
    assert_eq!(
        step,
        GameStep::DespawnEnemy {
            host_entity: 777,
            event: GameEvent::EnemyDied { enemy_id, enemy_type: EnemyType::Dragon },
        },
    );
    assert_eq!(g.enemy(enemy_id), None);
    assert_eq!(g.enemy_count(), 0);
    // Despawning again is a no-op.
    let step = g.process_game_command(2, GameCommand::DespawnEnemy { enemy_id });
    assert_eq!(step, GameStep::Ignore);
}

#[test]
fn player_health_is_clamped_to_the_maximum() {
    let mut g = GameState::new();
    let step = g.process_game_command(1, GameCommand::SetPlayerHealth { health: 250 });
    assert_eq!(
        step,
        GameStep::Broadcast {
            event: GameEvent::PlayerHealthChanged { health: 100, max_health: 100 },
        },
    );
    assert_eq!(g.player_health(), 100);
    let step = g.process_game_command(1, GameCommand::SetPlayerHealth { health: 30 });
    assert_eq!(
        step,
        GameStep::Broadcast {
            event: GameEvent::PlayerHealthChanged { health: 30, max_health: 100 },
        },
    );
    assert_eq!(g.player_health(), 30);
}

#[test]
fn score_is_set_and_broadcast() {
    let mut g = GameState::new();
    let step = g.process_game_command(1, GameCommand::SetPlayerScore { score: 135 });
    assert_eq!(
        step,
        GameStep::Broadcast { event: GameEvent::PlayerScoreChanged { score: 135 } },
    );
    assert_eq!(g.player_score(), 135);
}

#[test]
fn items_get_ids_and_replies() {
    let mut g = GameState::new();
    let step = g.process_game_command(
        1,
        GameCommand::SpawnItem {
            item_type: ItemType::Sword,
            x_bits: 0,
            y_bits: 0,
            z_bits: 0,
            request_id: 6,
        },
    );
    match step {
        GameStep::SpawnItem { item_type, request_id, .. } => {
            assert_eq!(item_type, ItemType::Sword);
            assert_eq!(request_id, 6);
        },
        other => panic!("wrong step: {:?}", other),
    }
    let (item_id, event) = g.on_item_spawned(1, 6, ItemType::Sword);
    assert_eq!(event, GameEvent::ItemSpawned { request_id: 6, item_id, item_type: ItemType::Sword });

    let step = g.process_game_command(1, GameCommand::GivePlayerItem { item_type: ItemType::HealthPotion });
    assert_eq!(
        step,
        GameStep::Broadcast {
            event: GameEvent::ItemCollected { item_id: 0, item_type: ItemType::HealthPotion },
        },
    );
}

#[test]
fn wave_trigger_names_are_parsed() {
    let mut g = GameState::new();
    let trig = |g: &mut GameState, name: &str| {
        g.process_game_command(1, GameCommand::TriggerGameEvent { event_name: String::from(name) })
    };
    assert_eq!(
        trig(&mut g, "wave_3_start"),
        GameStep::Broadcast { event: GameEvent::WaveStarted { wave_number: 3 } },
    );
    assert_eq!(
        trig(&mut g, "wave_12_complete"),
        GameStep::Broadcast { event: GameEvent::WaveCompleted { wave_number: 12 } },
    );
    assert_eq!(
        trig(&mut g, "boss_fight"),
        GameStep::Broadcast {
            event: GameEvent::GameEventTriggered { event_name: String::from("boss_fight") },
        },
    );
    // A wave frame with an unreadable number dispatches nothing.
    assert_eq!(trig(&mut g, "wave_x_start"), GameStep::Ignore);
    assert_eq!(trig(&mut g, "wave__start"), GameStep::Ignore);
    assert_eq!(trig(&mut g, "wave_99999999999_start"), GameStep::Ignore);
    // The standard parser accepts a leading plus.
    assert_eq!(
        trig(&mut g, "wave_+7_start"),
        GameStep::Broadcast { event: GameEvent::WaveStarted { wave_number: 7 } },
    );
    // Too short to hold both the frame and a number.
    assert_eq!(
        trig(&mut g, "wave_start"),
        GameStep::Broadcast {
            event: GameEvent::GameEventTriggered { event_name: String::from("wave_start") },
        },
    );
}

#[test]
fn u32_parsing_matches_the_standard_parser() {
    for s in ["0", "7", "42", "007", "4294967295", "+15", "", "x", "1x", "-1", "4294967296", "+"] {
        assert_eq!(parse_u32_str(s), s.parse::<u32>().ok(), "input {:?}", s);
    }
}

#[test]
fn client_mints_fresh_request_ids_and_queues_commands() {
    let mut c = GameClient::new();
    let a = c.spawn_slime(1, 2, 3);
    let b = c.spawn_dragon(4, 5, 6);
    assert!(b > a);
    c.despawn_enemy(9);
    c.damage_enemy(9, 25);
    c.set_player_health(100);
    c.set_player_score(0);
    c.give_player_item(ItemType::Sword);
    c.trigger_game_event("wave_1_start");
    let out = c.drain_game_commands();
    assert_eq!(out.len(), 8);
    assert_eq!(
        out[0],
        GameCommand::SpawnEnemy {
            enemy_type: EnemyType::Slime,
            x_bits: 1,
            y_bits: 2,
            z_bits: 3,
            request_id: a,
        },
    );
    assert_eq!(out[2], GameCommand::DespawnEnemy { enemy_id: 9 });
    assert_eq!(
        out[7],
        GameCommand::TriggerGameEvent { event_name: String::from("wave_1_start") },
    );
    assert_eq!(c.drain_game_commands(), vec![]);
}

#[test]
fn client_keeps_decodable_events_and_drops_garbage() {
    let mut c = GameClient::new();
    let ev = GameEvent::WaveStarted { wave_number: 2 };
    c.game_plugin_receive_event(&ev.to_bytes());
    c.game_plugin_receive_event(&vec![200, 1, 2]);
    let events = c.drain_game_events();
    assert_eq!(events, vec![GameEvent::WaveStarted { wave_number: 2 }]);
    assert_eq!(c.drain_game_events(), vec![]);
}

//! The game-level schema carried over the custom channel.
//!
//! The runtime never interprets these payloads; the host application and
//! the guests do. Positions cross the boundary as IEEE-754 bit patterns of
//! 32-bit floats, carried as `u32`. The codec follows the same field layer
//! and states the same two-direction round-trip contracts as the engine
//! schema.

use vstd::prelude::*;
use crate::field::{
    decode_fields, encode_fields, fields_view, field_str_at, field_tag_at, field_u32_at,
    field_u64_at, lemma_fields_readback, lemma_fields_readforward, spec_enc_fields, wf_fields,
    Field, FieldV,
};
use crate::wire::MAX_FIELD_LEN;

verus! {

#[derive(Clone, Copy, Debug, PartialEq, Eq, Structural)]
pub enum EnemyType {
    Slime,
    Skeleton,
    Dragon,
}

pub open spec fn enemy_type_tag(t: EnemyType) -> u8 {
    match t {
        EnemyType::Slime => 0,
        EnemyType::Skeleton => 1,
        EnemyType::Dragon => 2,
    }
}

pub open spec fn spec_enemy_type_from_tag(t: u8) -> Option<EnemyType> {
    if t == 0 {
        Some(EnemyType::Slime)
    } else if t == 1 {
        Some(EnemyType::Skeleton)
    } else if t == 2 {
        Some(EnemyType::Dragon)
    } else {
        None
    }
}

pub proof fn lemma_enemy_type_tag_inverse(t: EnemyType)
    ensures
        spec_enemy_type_from_tag(enemy_type_tag(t)) == Some(t),
        enemy_type_tag(t) <= 2,
{
}

fn enemy_type_to_tag(t: &EnemyType) -> (r: u8)
    ensures
        r == enemy_type_tag(*t),
{
    match t {
        EnemyType::Slime => 0,
        EnemyType::Skeleton => 1,
        EnemyType::Dragon => 2,
    }
}

fn enemy_type_from_tag(t: u8) -> (r: Option<EnemyType>)
    ensures
        r == spec_enemy_type_from_tag(t),
{
    if t == 0 {
        Some(EnemyType::Slime)
    } else if t == 1 {
        Some(EnemyType::Skeleton)
    } else if t == 2 {
        Some(EnemyType::Dragon)
    } else {
        None
    }
}

#[derive(Clone, Copy, Debug, PartialEq, Eq, Structural)]
pub enum ItemType {
    HealthPotion,
    ManaPotion,
    Sword,
    Shield,
}

pub open spec fn item_type_tag(t: ItemType) -> u8 {
    match t {
        ItemType::HealthPotion => 0,
        ItemType::ManaPotion => 1,
        ItemType::Sword => 2,
        ItemType::Shield => 3,
    }
}

pub open spec fn spec_item_type_from_tag(t: u8) -> Option<ItemType> {
    if t == 0 {
        Some(ItemType::HealthPotion)
    } else if t == 1 {
        Some(ItemType::ManaPotion)
    } else if t == 2 {
        Some(ItemType::Sword)
    } else if t == 3 {
        Some(ItemType::Shield)
    } else {
        None
    }
}

pub proof fn lemma_item_type_tag_inverse(t: ItemType)
    ensures
        spec_item_type_from_tag(item_type_tag(t)) == Some(t),
        item_type_tag(t) <= 3,
{
}

fn item_type_to_tag(t: &ItemType) -> (r: u8)
    ensures
        r == item_type_tag(*t),
{
    match t {
        ItemType::HealthPotion => 0,
        ItemType::ManaPotion => 1,
        ItemType::Sword => 2,
        ItemType::Shield => 3,
    }
}

fn item_type_from_tag(t: u8) -> (r: Option<ItemType>)
    ensures
        r == spec_item_type_from_tag(t),
{
    if t == 0 {
        Some(ItemType::HealthPotion)
    } else if t == 1 {
        Some(ItemType::ManaPotion)
    } else if t == 2 {
        Some(ItemType::Sword)
    } else if t == 3 {
        Some(ItemType::Shield)
    } else {
        None
    }
}

// ---------------------------------------------------------------------------
// Game commands, guest to host
// ---------------------------------------------------------------------------

#[derive(Debug, PartialEq)]
pub enum GameCommand {
    SpawnEnemy { enemy_type: EnemyType, x_bits: u32, y_bits: u32, z_bits: u32, request_id: u64 },
    DespawnEnemy { enemy_id: u64 },
    DamageEnemy { enemy_id: u64, damage: u32 },
    SpawnItem { item_type: ItemType, x_bits: u32, y_bits: u32, z_bits: u32, request_id: u64 },
    GivePlayerItem { item_type: ItemType },
    SetPlayerHealth { health: u32 },
    SetPlayerScore { score: u64 },
    TriggerGameEvent { event_name: String },
}

pub enum GameCommandV {
    SpawnEnemy { enemy_type: EnemyType, x_bits: u32, y_bits: u32, z_bits: u32, request_id: u64 },
    DespawnEnemy { enemy_id: u64 },
    DamageEnemy { enemy_id: u64, damage: u32 },
    SpawnItem { item_type: ItemType, x_bits: u32, y_bits: u32, z_bits: u32, request_id: u64 },
    GivePlayerItem { item_type: ItemType },
    SetPlayerHealth { health: u32 },
    SetPlayerScore { score: u64 },
    TriggerGameEvent { event_name: Seq<char> },
}

impl View for GameCommand {
    type V = GameCommandV;

    open spec fn view(&self) -> GameCommandV {
        match self {
            GameCommand::SpawnEnemy { enemy_type, x_bits, y_bits, z_bits, request_id } => {
                GameCommandV::SpawnEnemy {
                    enemy_type: *enemy_type,
                    x_bits: *x_bits,
                    y_bits: *y_bits,
                    z_bits: *z_bits,
                    request_id: *request_id,
                }
            },
            GameCommand::DespawnEnemy { enemy_id } => GameCommandV::DespawnEnemy {
                enemy_id: *enemy_id,
            },
            GameCommand::DamageEnemy { enemy_id, damage } => GameCommandV::DamageEnemy {
                enemy_id: *enemy_id,
                damage: *damage,
            },
            GameCommand::SpawnItem { item_type, x_bits, y_bits, z_bits, request_id } => {
                GameCommandV::SpawnItem {
                    item_type: *item_type,
                    x_bits: *x_bits,
                    y_bits: *y_bits,
                    z_bits: *z_bits,
                    request_id: *request_id,
                }
            },
            GameCommand::GivePlayerItem { item_type } => GameCommandV::GivePlayerItem {
                item_type: *item_type,
            },
            GameCommand::SetPlayerHealth { health } => GameCommandV::SetPlayerHealth {
                health: *health,
            },
            GameCommand::SetPlayerScore { score } => GameCommandV::SetPlayerScore {
                score: *score,
            },
            GameCommand::TriggerGameEvent { event_name } => GameCommandV::TriggerGameEvent {
                event_name: event_name@,
            },
        }
    }
}

pub open spec fn wf_game_command(c: GameCommandV) -> bool {
    match c {
        GameCommandV::TriggerGameEvent { event_name } => event_name.len() <= MAX_FIELD_LEN,
        _ => true,
    }
}

pub open spec fn spec_game_command_fields(c: GameCommandV) -> Seq<FieldV> {
    match c {
        GameCommandV::SpawnEnemy { enemy_type, x_bits, y_bits, z_bits, request_id } => seq![
            FieldV::Tag(0),
            FieldV::Tag(enemy_type_tag(enemy_type)),
            FieldV::U32(x_bits),
            FieldV::U32(y_bits),
            FieldV::U32(z_bits),
            FieldV::U64(request_id),
        ],
        GameCommandV::DespawnEnemy { enemy_id } => seq![FieldV::Tag(1), FieldV::U64(enemy_id)],
        GameCommandV::DamageEnemy { enemy_id, damage } => seq![
            FieldV::Tag(2),
            FieldV::U64(enemy_id),
            FieldV::U32(damage),
        ],
        GameCommandV::SpawnItem { item_type, x_bits, y_bits, z_bits, request_id } => seq![
            FieldV::Tag(3),
            FieldV::Tag(item_type_tag(item_type)),
            FieldV::U32(x_bits),
            FieldV::U32(y_bits),
            FieldV::U32(z_bits),
            FieldV::U64(request_id),
        ],
        GameCommandV::GivePlayerItem { item_type } => seq![
            FieldV::Tag(4),
            FieldV::Tag(item_type_tag(item_type)),
        ],
        GameCommandV::SetPlayerHealth { health } => seq![FieldV::Tag(5), FieldV::U32(health)],
        GameCommandV::SetPlayerScore { score } => seq![FieldV::Tag(6), FieldV::U64(score)],
        GameCommandV::TriggerGameEvent { event_name } => seq![
            FieldV::Tag(7),
            FieldV::Str(event_name),
        ],
    }
}

pub open spec fn spec_game_command_bytes(c: GameCommandV) -> Seq<u8> {
    spec_enc_fields(spec_game_command_fields(c))
}

proof fn lemma_game_command_fields_wf(c: GameCommandV)
    requires
        wf_game_command(c),
    ensures
        wf_fields(spec_game_command_fields(c)),
{
    match c {
        GameCommandV::SpawnEnemy { .. } => {},
        GameCommandV::DespawnEnemy { .. } => {},
        GameCommandV::DamageEnemy { .. } => {},
        GameCommandV::SpawnItem { .. } => {},
        GameCommandV::GivePlayerItem { .. } => {},
        GameCommandV::SetPlayerHealth { .. } => {},
        GameCommandV::SetPlayerScore { .. } => {},
        GameCommandV::TriggerGameEvent { .. } => {},
    }
}

proof fn lemma_game_command_shape(c: GameCommandV)
    ensures
        spec_game_command_fields(c).len() >= 1,
        spec_game_command_fields(c)[0] == FieldV::Tag(0) ==> c matches GameCommandV::SpawnEnemy {
            ..
        },
        spec_game_command_fields(c)[0] == FieldV::Tag(1) ==> c matches GameCommandV::DespawnEnemy {
            ..
        },
        spec_game_command_fields(c)[0] == FieldV::Tag(2) ==> c matches GameCommandV::DamageEnemy {
            ..
        },
        spec_game_command_fields(c)[0] == FieldV::Tag(3) ==> c matches GameCommandV::SpawnItem {
            ..
        },
        spec_game_command_fields(c)[0] == FieldV::Tag(4)
            ==> c matches GameCommandV::GivePlayerItem { .. },
        spec_game_command_fields(c)[0] == FieldV::Tag(5)
            ==> c matches GameCommandV::SetPlayerHealth { .. },
        spec_game_command_fields(c)[0] == FieldV::Tag(6)
            ==> c matches GameCommandV::SetPlayerScore { .. },
        spec_game_command_fields(c)[0] == FieldV::Tag(7)
            ==> c matches GameCommandV::TriggerGameEvent { .. },
        spec_game_command_fields(c)[0] matches FieldV::Tag(t) && t <= 7,
{
    match c {
        GameCommandV::SpawnEnemy { .. } => {},
        GameCommandV::DespawnEnemy { .. } => {},
        GameCommandV::DamageEnemy { .. } => {},
        GameCommandV::SpawnItem { .. } => {},
        GameCommandV::GivePlayerItem { .. } => {},
        GameCommandV::SetPlayerHealth { .. } => {},
        GameCommandV::SetPlayerScore { .. } => {},
        GameCommandV::TriggerGameEvent { .. } => {},
    }
}

fn game_command_to_fields(c: &GameCommand) -> (fs: Vec<Field>)
    ensures
        fields_view(fs@) == spec_game_command_fields(c@),
{
    let mut fs: Vec<Field> = Vec::new();
    match c {
        GameCommand::SpawnEnemy { enemy_type, x_bits, y_bits, z_bits, request_id } => {
            fs.push(Field::Tag(0));
            fs.push(Field::Tag(enemy_type_to_tag(enemy_type)));
            fs.push(Field::U32(*x_bits));
            fs.push(Field::U32(*y_bits));
            fs.push(Field::U32(*z_bits));
            fs.push(Field::U64(*request_id));
            proof {
                assert(fields_view(fs@) =~= spec_game_command_fields(c@));
            }
        },
        GameCommand::DespawnEnemy { enemy_id } => {
            fs.push(Field::Tag(1));
            fs.push(Field::U64(*enemy_id));
            proof {
                assert(fields_view(fs@) =~= spec_game_command_fields(c@));
            }
        },
        GameCommand::DamageEnemy { enemy_id, damage } => {
            fs.push(Field::Tag(2));
            fs.push(Field::U64(*enemy_id));
            fs.push(Field::U32(*damage));
            proof {
                assert(fields_view(fs@) =~= spec_game_command_fields(c@));
            }
        },
        GameCommand::SpawnItem { item_type, x_bits, y_bits, z_bits, request_id } => {
            fs.push(Field::Tag(3));
            fs.push(Field::Tag(item_type_to_tag(item_type)));
            fs.push(Field::U32(*x_bits));
            fs.push(Field::U32(*y_bits));
            fs.push(Field::U32(*z_bits));
            fs.push(Field::U64(*request_id));
            proof {
                assert(fields_view(fs@) =~= spec_game_command_fields(c@));
            }
        },
        GameCommand::GivePlayerItem { item_type } => {
            fs.push(Field::Tag(4));
            fs.push(Field::Tag(item_type_to_tag(item_type)));
            proof {
                assert(fields_view(fs@) =~= spec_game_command_fields(c@));
            }
        },
        GameCommand::SetPlayerHealth { health } => {
            fs.push(Field::Tag(5));
            fs.push(Field::U32(*health));
            proof {
                assert(fields_view(fs@) =~= spec_game_command_fields(c@));
            }
        },
        GameCommand::SetPlayerScore { score } => {
            fs.push(Field::Tag(6));
            fs.push(Field::U64(*score));
            proof {
                assert(fields_view(fs@) =~= spec_game_command_fields(c@));
            }
        },
        GameCommand::TriggerGameEvent { event_name } => {
            fs.push(Field::Tag(7));
            fs.push(Field::Str(event_name.clone()));
            proof {
                assert(fields_view(fs@) =~= spec_game_command_fields(c@));
            }
        },
    }
    fs
}

fn game_command_from_fields(fs: &Vec<Field>) -> (r: Option<GameCommand>)
    requires
        wf_fields(fields_view(fs@)),
    ensures
        r matches Some(c) ==> wf_game_command(c@) && fields_view(fs@) == spec_game_command_fields(
            c@,
        ),
        forall|m: GameCommandV|
            wf_game_command(m) && fields_view(fs@) == #[trigger] spec_game_command_fields(m) ==> (
            r matches Some(c) && c@ == m),
{
    let ghost fsv = fields_view(fs@);
    let tag = match field_tag_at(fs, 0) {
        Some(t) => t,
        None => {
            proof {
                assert forall|m: GameCommandV|
                    wf_game_command(m) && fsv == #[trigger] spec_game_command_fields(m)
                        implies false by {
                    lemma_game_command_shape(m);
                }
            }
            return None;
        },
    };
    let r: Option<GameCommand> = if tag == 0 {
        if fs.len() == 6 {
            match (field_tag_at(fs, 1), field_u32_at(fs, 2), field_u32_at(fs, 3), field_u32_at(
                fs,
                4,
            ), field_u64_at(fs, 5)) {
                (Some(et), Some(x_bits), Some(y_bits), Some(z_bits), Some(request_id)) => {
                    match enemy_type_from_tag(et) {
                        Some(enemy_type) => Some(
                            GameCommand::SpawnEnemy {
                                enemy_type,
                                x_bits,
                                y_bits,
                                z_bits,
                                request_id,
                            },
                        ),
                        None => None,
                    }
                },
                _ => None,
            }
        } else {
            None
        }
    } else if tag == 1 {
        if fs.len() == 2 {
            match field_u64_at(fs, 1) {
                Some(enemy_id) => Some(GameCommand::DespawnEnemy { enemy_id }),
                None => None,
            }
        } else {
            None
        }
    } else if tag == 2 {
        if fs.len() == 3 {
            match (field_u64_at(fs, 1), field_u32_at(fs, 2)) {
                (Some(enemy_id), Some(damage)) => Some(
                    GameCommand::DamageEnemy { enemy_id, damage },
                ),
                _ => None,
            }
        } else {
            None
        }
    } else if tag == 3 {
        if fs.len() == 6 {
            match (field_tag_at(fs, 1), field_u32_at(fs, 2), field_u32_at(fs, 3), field_u32_at(
                fs,
                4,
            ), field_u64_at(fs, 5)) {
                (Some(it), Some(x_bits), Some(y_bits), Some(z_bits), Some(request_id)) => {
                    match item_type_from_tag(it) {
                        Some(item_type) => Some(
                            GameCommand::SpawnItem {
                                item_type,
                                x_bits,
                                y_bits,
                                z_bits,
                                request_id,
                            },
                        ),
                        None => None,
                    }
                },
                _ => None,
            }
        } else {
            None
        }
    } else if tag == 4 {
        if fs.len() == 2 {
            match field_tag_at(fs, 1) {
                Some(it) => {
                    match item_type_from_tag(it) {
                        Some(item_type) => Some(GameCommand::GivePlayerItem { item_type }),
                        None => None,
                    }
                },
                None => None,
            }
        } else {
            None
        }
    } else if tag == 5 {
        if fs.len() == 2 {
            match field_u32_at(fs, 1) {
                Some(health) => Some(GameCommand::SetPlayerHealth { health }),
                None => None,
            }
        } else {
            None
        }
    } else if tag == 6 {
        if fs.len() == 2 {
            match field_u64_at(fs, 1) {
                Some(score) => Some(GameCommand::SetPlayerScore { score }),
                None => None,
            }
        } else {
            None
        }
    } else if tag == 7 {
        if fs.len() == 2 {
            match field_str_at(fs, 1) {
                Some(event_name) => Some(GameCommand::TriggerGameEvent { event_name }),
                None => None,
            }
        } else {
            None
        }
    } else {
        None
    };
    proof {
        if r is Some {
            let c = r.unwrap();
            assert(fsv =~= spec_game_command_fields(c@));
        }
        assert forall|m: GameCommandV|
            wf_game_command(m) && fsv == #[trigger] spec_game_command_fields(m) implies (
        r matches Some(c) && c@ == m) by {
            lemma_game_command_shape(m);
            match m {
                GameCommandV::SpawnEnemy { enemy_type, .. } => {
                    lemma_enemy_type_tag_inverse(enemy_type);
                },
                GameCommandV::SpawnItem { item_type, .. } => {
                    lemma_item_type_tag_inverse(item_type);
                },
                GameCommandV::GivePlayerItem { item_type } => {
                    lemma_item_type_tag_inverse(item_type);
                },
                _ => {},
            }
        }
    }
    r
}

impl GameCommand {
    /// Encodes the command; `from_bytes` of the result gives the command
    /// back (the round-trip law, stated across the two contracts).
    pub fn to_bytes(&self) -> (out: Vec<u8>)
        requires
            wf_game_command(self@),
        ensures
            out@ == spec_game_command_bytes(self@),
    {
        proof {
            lemma_game_command_fields_wf(self@);
        }
        let fs = game_command_to_fields(self);
        encode_fields(&fs)
    }

    /// Decodes a buffer. Returns a command exactly when the buffer is the
    /// encoding of some well-formed command, and then that command.
    pub fn from_bytes(bytes: &Vec<u8>) -> (r: Option<GameCommand>)
        ensures
            r matches Some(c) ==> wf_game_command(c@) && bytes@ == spec_game_command_bytes(c@),
            forall|m: GameCommandV|
                wf_game_command(m) && bytes@ == #[trigger] spec_game_command_bytes(m) ==> (
                r matches Some(c) && c@ == m),
    {
        let fs = match decode_fields(bytes) {
            Some(fs) => fs,
            None => {
                proof {
                    assert forall|m: GameCommandV|
                        wf_game_command(m) && bytes@ == #[trigger] spec_game_command_bytes(m)
                            implies false by {
                        lemma_game_command_fields_wf(m);
                        assert(bytes@.subrange(0, bytes@.len() as int) =~= bytes@);
                        lemma_fields_readback(bytes@, 0, spec_game_command_fields(m));
                    }
                }
                return None;
            },
        };
        proof {
            lemma_fields_readforward(bytes@, 0, fields_view(fs@));
            assert(bytes@.subrange(0, bytes@.len() as int) =~= bytes@);
            assert forall|m: GameCommandV|
                wf_game_command(m) && bytes@ == #[trigger] spec_game_command_bytes(m)
                    implies fields_view(fs@) == spec_game_command_fields(m) by {
                lemma_game_command_fields_wf(m);
                lemma_fields_readback(bytes@, 0, spec_game_command_fields(m));
            }
        }
        game_command_from_fields(&fs)
    }
}

// ---------------------------------------------------------------------------
// Game events, host to guest
// ---------------------------------------------------------------------------

#[derive(Debug, PartialEq)]
pub enum GameEvent {
    EnemySpawned { request_id: u64, enemy_id: u64, enemy_type: EnemyType },
    EnemyDied { enemy_id: u64, enemy_type: EnemyType },
    EnemyDamaged { enemy_id: u64, remaining_health: u32 },
    ItemSpawned { request_id: u64, item_id: u64, item_type: ItemType },
    ItemCollected { item_id: u64, item_type: ItemType },
    PlayerHealthChanged { health: u32, max_health: u32 },
    PlayerScoreChanged { score: u64 },
    PlayerDied,
    GameEventTriggered { event_name: String },
    WaveStarted { wave_number: u32 },
    WaveCompleted { wave_number: u32 },
}

pub enum GameEventV {
    EnemySpawned { request_id: u64, enemy_id: u64, enemy_type: EnemyType },
    EnemyDied { enemy_id: u64, enemy_type: EnemyType },
    EnemyDamaged { enemy_id: u64, remaining_health: u32 },
    ItemSpawned { request_id: u64, item_id: u64, item_type: ItemType },
    ItemCollected { item_id: u64, item_type: ItemType },
    PlayerHealthChanged { health: u32, max_health: u32 },
    PlayerScoreChanged { score: u64 },
    PlayerDied,
    GameEventTriggered { event_name: Seq<char> },
    WaveStarted { wave_number: u32 },
    WaveCompleted { wave_number: u32 },
}

impl View for GameEvent {
    type V = GameEventV;

    open spec fn view(&self) -> GameEventV {
        match self {
            GameEvent::EnemySpawned { request_id, enemy_id, enemy_type } => {
                GameEventV::EnemySpawned {
                    request_id: *request_id,
                    enemy_id: *enemy_id,
                    enemy_type: *enemy_type,
                }
            },
            GameEvent::EnemyDied { enemy_id, enemy_type } => GameEventV::EnemyDied {
                enemy_id: *enemy_id,
                enemy_type: *enemy_type,
            },
            GameEvent::EnemyDamaged { enemy_id, remaining_health } => GameEventV::EnemyDamaged {
                enemy_id: *enemy_id,
                remaining_health: *remaining_health,
            },
            GameEvent::ItemSpawned { request_id, item_id, item_type } => GameEventV::ItemSpawned {
                request_id: *request_id,
                item_id: *item_id,
                item_type: *item_type,
            },
            GameEvent::ItemCollected { item_id, item_type } => GameEventV::ItemCollected {
                item_id: *item_id,
                item_type: *item_type,
            },
            GameEvent::PlayerHealthChanged { health, max_health } => {
                GameEventV::PlayerHealthChanged { health: *health, max_health: *max_health }
            },
            GameEvent::PlayerScoreChanged { score } => GameEventV::PlayerScoreChanged {
                score: *score,
            },
            GameEvent::PlayerDied => GameEventV::PlayerDied,
            GameEvent::GameEventTriggered { event_name } => GameEventV::GameEventTriggered {
                event_name: event_name@,
            },
            GameEvent::WaveStarted { wave_number } => GameEventV::WaveStarted {
                wave_number: *wave_number,
            },
            GameEvent::WaveCompleted { wave_number } => GameEventV::WaveCompleted {
                wave_number: *wave_number,
            },
        }
    }
}

pub open spec fn wf_game_event(e: GameEventV) -> bool {
    match e {
        GameEventV::GameEventTriggered { event_name } => event_name.len() <= MAX_FIELD_LEN,
        _ => true,
    }
}

pub open spec fn spec_game_event_fields(e: GameEventV) -> Seq<FieldV> {
    match e {
        GameEventV::EnemySpawned { request_id, enemy_id, enemy_type } => seq![
            FieldV::Tag(0),
            FieldV::U64(request_id),
            FieldV::U64(enemy_id),
            FieldV::Tag(enemy_type_tag(enemy_type)),
        ],
        GameEventV::EnemyDied { enemy_id, enemy_type } => seq![
            FieldV::Tag(1),
            FieldV::U64(enemy_id),
            FieldV::Tag(enemy_type_tag(enemy_type)),
        ],
        GameEventV::EnemyDamaged { enemy_id, remaining_health } => seq![
            FieldV::Tag(2),
            FieldV::U64(enemy_id),
            FieldV::U32(remaining_health),
        ],
        GameEventV::ItemSpawned { request_id, item_id, item_type } => seq![
            FieldV::Tag(3),
            FieldV::U64(request_id),
            FieldV::U64(item_id),
            FieldV::Tag(item_type_tag(item_type)),
        ],
        GameEventV::ItemCollected { item_id, item_type } => seq![
            FieldV::Tag(4),
            FieldV::U64(item_id),
            FieldV::Tag(item_type_tag(item_type)),
        ],
        GameEventV::PlayerHealthChanged { health, max_health } => seq![
            FieldV::Tag(5),
            FieldV::U32(health),
            FieldV::U32(max_health),
        ],
        GameEventV::PlayerScoreChanged { score } => seq![FieldV::Tag(6), FieldV::U64(score)],
        GameEventV::PlayerDied => seq![FieldV::Tag(7)],
        GameEventV::GameEventTriggered { event_name } => seq![
            FieldV::Tag(8),
            FieldV::Str(event_name),
        ],
        GameEventV::WaveStarted { wave_number } => seq![FieldV::Tag(9), FieldV::U32(wave_number)],
        GameEventV::WaveCompleted { wave_number } => seq![
            FieldV::Tag(10),
            FieldV::U32(wave_number),
        ],
    }
}

pub open spec fn spec_game_event_bytes(e: GameEventV) -> Seq<u8> {
    spec_enc_fields(spec_game_event_fields(e))
}

proof fn lemma_game_event_fields_wf(e: GameEventV)
    requires
        wf_game_event(e),
    ensures
        wf_fields(spec_game_event_fields(e)),
{
    match e {
        GameEventV::EnemySpawned { .. } => {},
        GameEventV::EnemyDied { .. } => {},
        GameEventV::EnemyDamaged { .. } => {},
        GameEventV::ItemSpawned { .. } => {},
        GameEventV::ItemCollected { .. } => {},
        GameEventV::PlayerHealthChanged { .. } => {},
        GameEventV::PlayerScoreChanged { .. } => {},
        GameEventV::PlayerDied => {},
        GameEventV::GameEventTriggered { .. } => {},
        GameEventV::WaveStarted { .. } => {},
        GameEventV::WaveCompleted { .. } => {},
    }
}

proof fn lemma_game_event_shape(e: GameEventV)
    ensures
        spec_game_event_fields(e).len() >= 1,
        spec_game_event_fields(e)[0] == FieldV::Tag(0) ==> e matches GameEventV::EnemySpawned {
            ..
        },
        spec_game_event_fields(e)[0] == FieldV::Tag(1) ==> e matches GameEventV::EnemyDied { .. },
        spec_game_event_fields(e)[0] == FieldV::Tag(2) ==> e matches GameEventV::EnemyDamaged {
            ..
        },
        spec_game_event_fields(e)[0] == FieldV::Tag(3) ==> e matches GameEventV::ItemSpawned {
            ..
        },
        spec_game_event_fields(e)[0] == FieldV::Tag(4) ==> e matches GameEventV::ItemCollected {
            ..
        },
        spec_game_event_fields(e)[0] == FieldV::Tag(5)
            ==> e matches GameEventV::PlayerHealthChanged { .. },
        spec_game_event_fields(e)[0] == FieldV::Tag(6)
            ==> e matches GameEventV::PlayerScoreChanged { .. },
        spec_game_event_fields(e)[0] == FieldV::Tag(7) ==> e matches GameEventV::PlayerDied,
        spec_game_event_fields(e)[0] == FieldV::Tag(8)
            ==> e matches GameEventV::GameEventTriggered { .. },
        spec_game_event_fields(e)[0] == FieldV::Tag(9) ==> e matches GameEventV::WaveStarted {
            ..
        },
        spec_game_event_fields(e)[0] == FieldV::Tag(10) ==> e matches GameEventV::WaveCompleted {
            ..
        },
        spec_game_event_fields(e)[0] matches FieldV::Tag(t) && t <= 10,
{
    match e {
        GameEventV::EnemySpawned { .. } => {},
        GameEventV::EnemyDied { .. } => {},
        GameEventV::EnemyDamaged { .. } => {},
        GameEventV::ItemSpawned { .. } => {},
        GameEventV::ItemCollected { .. } => {},
        GameEventV::PlayerHealthChanged { .. } => {},
        GameEventV::PlayerScoreChanged { .. } => {},
        GameEventV::PlayerDied => {},
        GameEventV::GameEventTriggered { .. } => {},
        GameEventV::WaveStarted { .. } => {},
        GameEventV::WaveCompleted { .. } => {},
    }
}

fn game_event_to_fields(e: &GameEvent) -> (fs: Vec<Field>)
    ensures
        fields_view(fs@) == spec_game_event_fields(e@),
{
    let mut fs: Vec<Field> = Vec::new();
    match e {
        GameEvent::EnemySpawned { request_id, enemy_id, enemy_type } => {
            fs.push(Field::Tag(0));
            fs.push(Field::U64(*request_id));
            fs.push(Field::U64(*enemy_id));
            fs.push(Field::Tag(enemy_type_to_tag(enemy_type)));
            proof {
                assert(fields_view(fs@) =~= spec_game_event_fields(e@));
            }
        },
        GameEvent::EnemyDied { enemy_id, enemy_type } => {
            fs.push(Field::Tag(1));
            fs.push(Field::U64(*enemy_id));
            fs.push(Field::Tag(enemy_type_to_tag(enemy_type)));
            proof {
                assert(fields_view(fs@) =~= spec_game_event_fields(e@));
            }
        },
        GameEvent::EnemyDamaged { enemy_id, remaining_health } => {
            fs.push(Field::Tag(2));
            fs.push(Field::U64(*enemy_id));
            fs.push(Field::U32(*remaining_health));
            proof {
                assert(fields_view(fs@) =~= spec_game_event_fields(e@));
            }
        },
        GameEvent::ItemSpawned { request_id, item_id, item_type } => {
            fs.push(Field::Tag(3));
            fs.push(Field::U64(*request_id));
            fs.push(Field::U64(*item_id));
            fs.push(Field::Tag(item_type_to_tag(item_type)));
            proof {
                assert(fields_view(fs@) =~= spec_game_event_fields(e@));
            }
        },
        GameEvent::ItemCollected { item_id, item_type } => {
            fs.push(Field::Tag(4));
            fs.push(Field::U64(*item_id));
            fs.push(Field::Tag(item_type_to_tag(item_type)));
            proof {
                assert(fields_view(fs@) =~= spec_game_event_fields(e@));
            }
        },
        GameEvent::PlayerHealthChanged { health, max_health } => {
            fs.push(Field::Tag(5));
            fs.push(Field::U32(*health));
            fs.push(Field::U32(*max_health));
            proof {
                assert(fields_view(fs@) =~= spec_game_event_fields(e@));
            }
        },
        GameEvent::PlayerScoreChanged { score } => {
            fs.push(Field::Tag(6));
            fs.push(Field::U64(*score));
            proof {
                assert(fields_view(fs@) =~= spec_game_event_fields(e@));
            }
        },
        GameEvent::PlayerDied => {
            fs.push(Field::Tag(7));
            proof {
                assert(fields_view(fs@) =~= spec_game_event_fields(e@));
            }
        },
        GameEvent::GameEventTriggered { event_name } => {
            fs.push(Field::Tag(8));
            fs.push(Field::Str(event_name.clone()));
            proof {
                assert(fields_view(fs@) =~= spec_game_event_fields(e@));
            }
        },
        GameEvent::WaveStarted { wave_number } => {
            fs.push(Field::Tag(9));
            fs.push(Field::U32(*wave_number));
            proof {
                assert(fields_view(fs@) =~= spec_game_event_fields(e@));
            }
        },
        GameEvent::WaveCompleted { wave_number } => {
            fs.push(Field::Tag(10));
            fs.push(Field::U32(*wave_number));
            proof {
                assert(fields_view(fs@) =~= spec_game_event_fields(e@));
            }
        },
    }
    fs
}

fn game_event_from_fields(fs: &Vec<Field>) -> (r: Option<GameEvent>)
    requires
        wf_fields(fields_view(fs@)),
    ensures
        r matches Some(e) ==> wf_game_event(e@) && fields_view(fs@) == spec_game_event_fields(e@),
        forall|m: GameEventV|
            wf_game_event(m) && fields_view(fs@) == #[trigger] spec_game_event_fields(m) ==> (
            r matches Some(e) && e@ == m),
{
    let ghost fsv = fields_view(fs@);
    let tag = match field_tag_at(fs, 0) {
        Some(t) => t,
        None => {
            proof {
                assert forall|m: GameEventV|
                    wf_game_event(m) && fsv == #[trigger] spec_game_event_fields(m)
                        implies false by {
                    lemma_game_event_shape(m);
                }
            }
            return None;
        },
    };
    let r: Option<GameEvent> = if tag == 0 {
        if fs.len() == 4 {
            match (field_u64_at(fs, 1), field_u64_at(fs, 2), field_tag_at(fs, 3)) {
                (Some(request_id), Some(enemy_id), Some(et)) => {
                    match enemy_type_from_tag(et) {
                        Some(enemy_type) => Some(
                            GameEvent::EnemySpawned { request_id, enemy_id, enemy_type },
                        ),
                        None => None,
                    }
                },
                _ => None,
            }
        } else {
            None
        }
    } else if tag == 1 {
        if fs.len() == 3 {
            match (field_u64_at(fs, 1), field_tag_at(fs, 2)) {
                (Some(enemy_id), Some(et)) => {
                    match enemy_type_from_tag(et) {
                        Some(enemy_type) => Some(GameEvent::EnemyDied { enemy_id, enemy_type }),
                        None => None,
                    }
                },
                _ => None,
            }
        } else {
            None
        }
    } else if tag == 2 {
        if fs.len() == 3 {
            match (field_u64_at(fs, 1), field_u32_at(fs, 2)) {
                (Some(enemy_id), Some(remaining_health)) => Some(
                    GameEvent::EnemyDamaged { enemy_id, remaining_health },
                ),
                _ => None,
            }
        } else {
            None
        }
    } else if tag == 3 {
        if fs.len() == 4 {
            match (field_u64_at(fs, 1), field_u64_at(fs, 2), field_tag_at(fs, 3)) {
                (Some(request_id), Some(item_id), Some(it)) => {
                    match item_type_from_tag(it) {
                        Some(item_type) => Some(
                            GameEvent::ItemSpawned { request_id, item_id, item_type },
                        ),
                        None => None,
                    }
                },
                _ => None,
            }
        } else {
            None
        }
    } else if tag == 4 {
        if fs.len() == 3 {
            match (field_u64_at(fs, 1), field_tag_at(fs, 2)) {
                (Some(item_id), Some(it)) => {
                    match item_type_from_tag(it) {
                        Some(item_type) => Some(GameEvent::ItemCollected { item_id, item_type }),
                        None => None,
                    }
                },
                _ => None,
            }
        } else {
            None
        }
    } else if tag == 5 {
        if fs.len() == 3 {
            match (field_u32_at(fs, 1), field_u32_at(fs, 2)) {
                (Some(health), Some(max_health)) => Some(
                    GameEvent::PlayerHealthChanged { health, max_health },
                ),
                _ => None,
            }
        } else {
            None
        }
    } else if tag == 6 {
        if fs.len() == 2 {
            match field_u64_at(fs, 1) {
                Some(score) => Some(GameEvent::PlayerScoreChanged { score }),
                None => None,
            }
        } else {
            None
        }
    } else if tag == 7 {
        if fs.len() == 1 {
            Some(GameEvent::PlayerDied)
        } else {
            None
        }
    } else if tag == 8 {
        if fs.len() == 2 {
            match field_str_at(fs, 1) {
                Some(event_name) => Some(GameEvent::GameEventTriggered { event_name }),
                None => None,
            }
        } else {
            None
        }
    } else if tag == 9 {
        if fs.len() == 2 {
            match field_u32_at(fs, 1) {
                Some(wave_number) => Some(GameEvent::WaveStarted { wave_number }),
                None => None,
            }
        } else {
            None
        }
    } else if tag == 10 {
        if fs.len() == 2 {
            match field_u32_at(fs, 1) {
                Some(wave_number) => Some(GameEvent::WaveCompleted { wave_number }),
                None => None,
            }
        } else {
            None
        }
    } else {
        None
    };
    proof {
        if r is Some {
            let e = r.unwrap();
            assert(fsv =~= spec_game_event_fields(e@));
        }
        assert forall|m: GameEventV|
            wf_game_event(m) && fsv == #[trigger] spec_game_event_fields(m) implies (
        r matches Some(e) && e@ == m) by {
            lemma_game_event_shape(m);
            match m {
                GameEventV::EnemySpawned { enemy_type, .. } => {
                    lemma_enemy_type_tag_inverse(enemy_type);
                },
                GameEventV::EnemyDied { enemy_type, .. } => {
                    lemma_enemy_type_tag_inverse(enemy_type);
                },
                GameEventV::ItemSpawned { item_type, .. } => {
                    lemma_item_type_tag_inverse(item_type);
                },
                GameEventV::ItemCollected { item_type, .. } => {
                    lemma_item_type_tag_inverse(item_type);
                },
                _ => {},
            }
        }
    }
    r
}

impl GameEvent {
    /// Encodes the event; `from_bytes` of the result gives the event back
    /// (the round-trip law, stated across the two contracts).
    pub fn to_bytes(&self) -> (out: Vec<u8>)
        requires
            wf_game_event(self@),
        ensures
            out@ == spec_game_event_bytes(self@),
    {
        proof {
            lemma_game_event_fields_wf(self@);
        }
        let fs = game_event_to_fields(self);
        encode_fields(&fs)
    }

    /// Decodes a buffer. Returns an event exactly when the buffer is the
    /// encoding of some well-formed event, and then that event.
    pub fn from_bytes(bytes: &Vec<u8>) -> (r: Option<GameEvent>)
        ensures
            r matches Some(e) ==> wf_game_event(e@) && bytes@ == spec_game_event_bytes(e@),
            forall|m: GameEventV|
                wf_game_event(m) && bytes@ == #[trigger] spec_game_event_bytes(m) ==> (
                r matches Some(e) && e@ == m),
    {
        let fs = match decode_fields(bytes) {
            Some(fs) => fs,
            None => {
                proof {
                    assert forall|m: GameEventV|
                        wf_game_event(m) && bytes@ == #[trigger] spec_game_event_bytes(m)
                            implies false by {
                        lemma_game_event_fields_wf(m);
                        assert(bytes@.subrange(0, bytes@.len() as int) =~= bytes@);
                        lemma_fields_readback(bytes@, 0, spec_game_event_fields(m));
                    }
                }
                return None;
            },
        };
        proof {
            lemma_fields_readforward(bytes@, 0, fields_view(fs@));
            assert(bytes@.subrange(0, bytes@.len() as int) =~= bytes@);
            assert forall|m: GameEventV|
                wf_game_event(m) && bytes@ == #[trigger] spec_game_event_bytes(m)
                    implies fields_view(fs@) == spec_game_event_fields(m) by {
                lemma_game_event_fields_wf(m);
                lemma_fields_readback(bytes@, 0, spec_game_event_fields(m));
            }
        }
        game_event_from_fields(&fs)
    }
}

} // verus!

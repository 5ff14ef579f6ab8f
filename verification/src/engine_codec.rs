//! The engine command and event schema and its wire codec.
//!
//! Commands travel guest to host, events host to guest. Positions, scales,
//! rotations and times cross the boundary as the IEEE-754 bit patterns of
//! the host's 32-bit floats, carried here as `u32` values; the host shell
//! converts at the boundary. Each message encodes as a tagged field
//! sequence (see `field`); the codec contracts state both directions of the
//! round-trip law: `to_bytes` produces exactly the model's encoding, and
//! `from_bytes` returns a message exactly when the buffer is some
//! well-formed message's encoding — and then that message.

use vstd::prelude::*;
use crate::field::{
    decode_fields, encode_fields, fields_view, field_bytes_at, field_str_at, field_tag_at,
    field_u32_at, field_u64_at, lemma_fields_readback, lemma_fields_readforward, spec_enc_fields,
    wf_fields, Field, FieldV,
};
use crate::wire::MAX_FIELD_LEN;

verus! {

// ---------------------------------------------------------------------------
// Primitive shapes
// ---------------------------------------------------------------------------

#[derive(Clone, Copy, Debug, PartialEq, Eq, Structural)]
pub enum Primitive {
    Cube,
    Sphere,
    Cylinder,
    Plane,
    Cone,
}

pub open spec fn primitive_tag(p: Primitive) -> u8 {
    match p {
        Primitive::Cube => 0,
        Primitive::Sphere => 1,
        Primitive::Cylinder => 2,
        Primitive::Plane => 3,
        Primitive::Cone => 4,
    }
}

pub open spec fn spec_primitive_from_tag(t: u8) -> Option<Primitive> {
    if t == 0 {
        Some(Primitive::Cube)
    } else if t == 1 {
        Some(Primitive::Sphere)
    } else if t == 2 {
        Some(Primitive::Cylinder)
    } else if t == 3 {
        Some(Primitive::Plane)
    } else if t == 4 {
        Some(Primitive::Cone)
    } else {
        None
    }
}

pub proof fn lemma_primitive_tag_inverse(p: Primitive)
    ensures
        spec_primitive_from_tag(primitive_tag(p)) == Some(p),
        primitive_tag(p) <= 4,
{
}

fn primitive_to_tag(p: &Primitive) -> (t: u8)
    ensures
        t == primitive_tag(*p),
{
    match p {
        Primitive::Cube => 0,
        Primitive::Sphere => 1,
        Primitive::Cylinder => 2,
        Primitive::Plane => 3,
        Primitive::Cone => 4,
    }
}

fn primitive_from_tag(t: u8) -> (r: Option<Primitive>)
    ensures
        r == spec_primitive_from_tag(t),
{
    if t == 0 {
        Some(Primitive::Cube)
    } else if t == 1 {
        Some(Primitive::Sphere)
    } else if t == 2 {
        Some(Primitive::Cylinder)
    } else if t == 3 {
        Some(Primitive::Plane)
    } else if t == 4 {
        Some(Primitive::Cone)
    } else {
        None
    }
}

// ---------------------------------------------------------------------------
// Commands, guest to host
// ---------------------------------------------------------------------------

/// A guest-to-host request. Every spawn and every get carries a
/// guest-minted request id that the matching reply event echoes.
#[derive(Debug, PartialEq)]
pub enum EngineCommand {
    Log { message: String },
    SpawnPrimitive { primitive: Primitive, x_bits: u32, y_bits: u32, z_bits: u32, request_id: u64 },
    DespawnEntity { entity_id: u64 },
    SetEntityPosition { entity_id: u64, x_bits: u32, y_bits: u32, z_bits: u32 },
    SetEntityScale { entity_id: u64, x_bits: u32, y_bits: u32, z_bits: u32 },
    SetEntityRotation { entity_id: u64, x_bits: u32, y_bits: u32, z_bits: u32, w_bits: u32 },
    GetEntityPosition { entity_id: u64, request_id: u64 },
    GetEntityScale { entity_id: u64, request_id: u64 },
    GetEntityRotation { entity_id: u64, request_id: u64 },
    ReadFile { path: String, request_id: u64 },
    LoadTexture { path: String, request_id: u64 },
    LoadPrefab { path: String, x_bits: u32, y_bits: u32, z_bits: u32, request_id: u64 },
    SetEntityMaterial { entity_id: u64, texture_id: u64 },
}

/// The mathematical model of a command: strings as character sequences.
pub enum EngineCommandV {
    Log { message: Seq<char> },
    SpawnPrimitive { primitive: Primitive, x_bits: u32, y_bits: u32, z_bits: u32, request_id: u64 },
    DespawnEntity { entity_id: u64 },
    SetEntityPosition { entity_id: u64, x_bits: u32, y_bits: u32, z_bits: u32 },
    SetEntityScale { entity_id: u64, x_bits: u32, y_bits: u32, z_bits: u32 },
    SetEntityRotation { entity_id: u64, x_bits: u32, y_bits: u32, z_bits: u32, w_bits: u32 },
    GetEntityPosition { entity_id: u64, request_id: u64 },
    GetEntityScale { entity_id: u64, request_id: u64 },
    GetEntityRotation { entity_id: u64, request_id: u64 },
    ReadFile { path: Seq<char>, request_id: u64 },
    LoadTexture { path: Seq<char>, request_id: u64 },
    LoadPrefab { path: Seq<char>, x_bits: u32, y_bits: u32, z_bits: u32, request_id: u64 },
    SetEntityMaterial { entity_id: u64, texture_id: u64 },
}

impl View for EngineCommand {
    type V = EngineCommandV;

    open spec fn view(&self) -> EngineCommandV {
        match self {
            EngineCommand::Log { message } => EngineCommandV::Log { message: message@ },
            EngineCommand::SpawnPrimitive { primitive, x_bits, y_bits, z_bits, request_id } => {
                EngineCommandV::SpawnPrimitive {
                    primitive: *primitive,
                    x_bits: *x_bits,
                    y_bits: *y_bits,
                    z_bits: *z_bits,
                    request_id: *request_id,
                }
            },
            EngineCommand::DespawnEntity { entity_id } => {
                EngineCommandV::DespawnEntity { entity_id: *entity_id }
            },
            EngineCommand::SetEntityPosition { entity_id, x_bits, y_bits, z_bits } => {
                EngineCommandV::SetEntityPosition {
                    entity_id: *entity_id,
                    x_bits: *x_bits,
                    y_bits: *y_bits,
                    z_bits: *z_bits,
                }
            },
            EngineCommand::SetEntityScale { entity_id, x_bits, y_bits, z_bits } => {
                EngineCommandV::SetEntityScale {
                    entity_id: *entity_id,
                    x_bits: *x_bits,
                    y_bits: *y_bits,
                    z_bits: *z_bits,
                }
            },
            EngineCommand::SetEntityRotation { entity_id, x_bits, y_bits, z_bits, w_bits } => {
                EngineCommandV::SetEntityRotation {
                    entity_id: *entity_id,
                    x_bits: *x_bits,
                    y_bits: *y_bits,
                    z_bits: *z_bits,
                    w_bits: *w_bits,
                }
            },
            EngineCommand::GetEntityPosition { entity_id, request_id } => {
                EngineCommandV::GetEntityPosition {
                    entity_id: *entity_id,
                    request_id: *request_id,
                }
            },
            EngineCommand::GetEntityScale { entity_id, request_id } => {
                EngineCommandV::GetEntityScale { entity_id: *entity_id, request_id: *request_id }
            },
            EngineCommand::GetEntityRotation { entity_id, request_id } => {
                EngineCommandV::GetEntityRotation {
                    entity_id: *entity_id,
                    request_id: *request_id,
                }
            },
            EngineCommand::ReadFile { path, request_id } => {
                EngineCommandV::ReadFile { path: path@, request_id: *request_id }
            },
            EngineCommand::LoadTexture { path, request_id } => {
                EngineCommandV::LoadTexture { path: path@, request_id: *request_id }
            },
            EngineCommand::LoadPrefab { path, x_bits, y_bits, z_bits, request_id } => {
                EngineCommandV::LoadPrefab {
                    path: path@,
                    x_bits: *x_bits,
                    y_bits: *y_bits,
                    z_bits: *z_bits,
                    request_id: *request_id,
                }
            },
            EngineCommand::SetEntityMaterial { entity_id, texture_id } => {
                EngineCommandV::SetEntityMaterial {
                    entity_id: *entity_id,
                    texture_id: *texture_id,
                }
            },
        }
    }
}

/// Whether a command's strings fit the wire format's length prefixes.
pub open spec fn wf_engine_command(c: EngineCommandV) -> bool {
    match c {
        EngineCommandV::Log { message } => message.len() <= MAX_FIELD_LEN,
        EngineCommandV::ReadFile { path, .. } => path.len() <= MAX_FIELD_LEN,
        EngineCommandV::LoadTexture { path, .. } => path.len() <= MAX_FIELD_LEN,
        EngineCommandV::LoadPrefab { path, .. } => path.len() <= MAX_FIELD_LEN,
        _ => true,
    }
}

/// The field sequence of a command.
pub open spec fn spec_engine_command_fields(c: EngineCommandV) -> Seq<FieldV> {
    match c {
        EngineCommandV::Log { message } => seq![FieldV::Tag(0), FieldV::Str(message)],
        EngineCommandV::SpawnPrimitive { primitive, x_bits, y_bits, z_bits, request_id } => seq![
            FieldV::Tag(1),
            FieldV::Tag(primitive_tag(primitive)),
            FieldV::U32(x_bits),
            FieldV::U32(y_bits),
            FieldV::U32(z_bits),
            FieldV::U64(request_id),
        ],
        EngineCommandV::DespawnEntity { entity_id } => seq![
            FieldV::Tag(2),
            FieldV::U64(entity_id),
        ],
        EngineCommandV::SetEntityPosition { entity_id, x_bits, y_bits, z_bits } => seq![
            FieldV::Tag(3),
            FieldV::U64(entity_id),
            FieldV::U32(x_bits),
            FieldV::U32(y_bits),
            FieldV::U32(z_bits),
        ],
        EngineCommandV::SetEntityScale { entity_id, x_bits, y_bits, z_bits } => seq![
            FieldV::Tag(4),
            FieldV::U64(entity_id),
            FieldV::U32(x_bits),
            FieldV::U32(y_bits),
            FieldV::U32(z_bits),
        ],
        EngineCommandV::SetEntityRotation { entity_id, x_bits, y_bits, z_bits, w_bits } => seq![
            FieldV::Tag(5),
            FieldV::U64(entity_id),
            FieldV::U32(x_bits),
            FieldV::U32(y_bits),
            FieldV::U32(z_bits),
            FieldV::U32(w_bits),
        ],
        EngineCommandV::GetEntityPosition { entity_id, request_id } => seq![
            FieldV::Tag(6),
            FieldV::U64(entity_id),
            FieldV::U64(request_id),
        ],
        EngineCommandV::GetEntityScale { entity_id, request_id } => seq![
            FieldV::Tag(7),
            FieldV::U64(entity_id),
            FieldV::U64(request_id),
        ],
        EngineCommandV::GetEntityRotation { entity_id, request_id } => seq![
            FieldV::Tag(8),
            FieldV::U64(entity_id),
            FieldV::U64(request_id),
        ],
        EngineCommandV::ReadFile { path, request_id } => seq![
            FieldV::Tag(9),
            FieldV::Str(path),
            FieldV::U64(request_id),
        ],
        EngineCommandV::LoadTexture { path, request_id } => seq![
            FieldV::Tag(10),
            FieldV::Str(path),
            FieldV::U64(request_id),
        ],
        EngineCommandV::LoadPrefab { path, x_bits, y_bits, z_bits, request_id } => seq![
            FieldV::Tag(11),
            FieldV::Str(path),
            FieldV::U32(x_bits),
            FieldV::U32(y_bits),
            FieldV::U32(z_bits),
            FieldV::U64(request_id),
        ],
        EngineCommandV::SetEntityMaterial { entity_id, texture_id } => seq![
            FieldV::Tag(12),
            FieldV::U64(entity_id),
            FieldV::U64(texture_id),
        ],
    }
}

/// The wire bytes of a command.
pub open spec fn spec_engine_command_bytes(c: EngineCommandV) -> Seq<u8> {
    spec_enc_fields(spec_engine_command_fields(c))
}

proof fn lemma_engine_command_fields_wf(c: EngineCommandV)
    requires
        wf_engine_command(c),
    ensures
        wf_fields(spec_engine_command_fields(c)),
{
    match c {
        EngineCommandV::Log { .. } => {},
        EngineCommandV::SpawnPrimitive { .. } => {},
        EngineCommandV::DespawnEntity { .. } => {},
        EngineCommandV::SetEntityPosition { .. } => {},
        EngineCommandV::SetEntityScale { .. } => {},
        EngineCommandV::SetEntityRotation { .. } => {},
        EngineCommandV::GetEntityPosition { .. } => {},
        EngineCommandV::GetEntityScale { .. } => {},
        EngineCommandV::GetEntityRotation { .. } => {},
        EngineCommandV::ReadFile { .. } => {},
        EngineCommandV::LoadTexture { .. } => {},
        EngineCommandV::LoadPrefab { .. } => {},
        EngineCommandV::SetEntityMaterial { .. } => {},
    }
}

/// The head field pins the variant down: this is what makes the decoder's
/// completeness direction go through at each of its exits.
proof fn lemma_engine_command_shape(c: EngineCommandV)
    ensures
        spec_engine_command_fields(c).len() >= 1,
        spec_engine_command_fields(c)[0] == FieldV::Tag(0) ==> c matches EngineCommandV::Log {
            ..
        },
        spec_engine_command_fields(c)[0] == FieldV::Tag(1)
            ==> c matches EngineCommandV::SpawnPrimitive { .. },
        spec_engine_command_fields(c)[0] == FieldV::Tag(2)
            ==> c matches EngineCommandV::DespawnEntity { .. },
        spec_engine_command_fields(c)[0] == FieldV::Tag(3)
            ==> c matches EngineCommandV::SetEntityPosition { .. },
        spec_engine_command_fields(c)[0] == FieldV::Tag(4)
            ==> c matches EngineCommandV::SetEntityScale { .. },
        spec_engine_command_fields(c)[0] == FieldV::Tag(5)
            ==> c matches EngineCommandV::SetEntityRotation { .. },
        spec_engine_command_fields(c)[0] == FieldV::Tag(6)
            ==> c matches EngineCommandV::GetEntityPosition { .. },
        spec_engine_command_fields(c)[0] == FieldV::Tag(7)
            ==> c matches EngineCommandV::GetEntityScale { .. },
        spec_engine_command_fields(c)[0] == FieldV::Tag(8)
            ==> c matches EngineCommandV::GetEntityRotation { .. },
        spec_engine_command_fields(c)[0] == FieldV::Tag(9) ==> c matches EngineCommandV::ReadFile {
            ..
        },
        spec_engine_command_fields(c)[0] == FieldV::Tag(10)
            ==> c matches EngineCommandV::LoadTexture { .. },
        spec_engine_command_fields(c)[0] == FieldV::Tag(11)
            ==> c matches EngineCommandV::LoadPrefab { .. },
        spec_engine_command_fields(c)[0] == FieldV::Tag(12)
            ==> c matches EngineCommandV::SetEntityMaterial { .. },
        spec_engine_command_fields(c)[0] matches FieldV::Tag(t) && t <= 12,
{
    match c {
        EngineCommandV::Log { .. } => {},
        EngineCommandV::SpawnPrimitive { .. } => {},
        EngineCommandV::DespawnEntity { .. } => {},
        EngineCommandV::SetEntityPosition { .. } => {},
        EngineCommandV::SetEntityScale { .. } => {},
        EngineCommandV::SetEntityRotation { .. } => {},
        EngineCommandV::GetEntityPosition { .. } => {},
        EngineCommandV::GetEntityScale { .. } => {},
        EngineCommandV::GetEntityRotation { .. } => {},
        EngineCommandV::ReadFile { .. } => {},
        EngineCommandV::LoadTexture { .. } => {},
        EngineCommandV::LoadPrefab { .. } => {},
        EngineCommandV::SetEntityMaterial { .. } => {},
    }
}

fn engine_command_to_fields(c: &EngineCommand) -> (fs: Vec<Field>)
    ensures
        fields_view(fs@) == spec_engine_command_fields(c@),
{
    let mut fs: Vec<Field> = Vec::new();
    match c {
        EngineCommand::Log { message } => {
            fs.push(Field::Tag(0));
            fs.push(Field::Str(message.clone()));
            proof {
                assert(fields_view(fs@) =~= spec_engine_command_fields(c@));
            }
        },
        EngineCommand::SpawnPrimitive { primitive, x_bits, y_bits, z_bits, request_id } => {
            fs.push(Field::Tag(1));
            fs.push(Field::Tag(primitive_to_tag(primitive)));
            fs.push(Field::U32(*x_bits));
            fs.push(Field::U32(*y_bits));
            fs.push(Field::U32(*z_bits));
            fs.push(Field::U64(*request_id));
            proof {
                assert(fields_view(fs@) =~= spec_engine_command_fields(c@));
            }
        },
        EngineCommand::DespawnEntity { entity_id } => {
            fs.push(Field::Tag(2));
            fs.push(Field::U64(*entity_id));
            proof {
                assert(fields_view(fs@) =~= spec_engine_command_fields(c@));
            }
        },
        EngineCommand::SetEntityPosition { entity_id, x_bits, y_bits, z_bits } => {
            fs.push(Field::Tag(3));
            fs.push(Field::U64(*entity_id));
            fs.push(Field::U32(*x_bits));
            fs.push(Field::U32(*y_bits));
            fs.push(Field::U32(*z_bits));
            proof {
                assert(fields_view(fs@) =~= spec_engine_command_fields(c@));
            }
        },
        EngineCommand::SetEntityScale { entity_id, x_bits, y_bits, z_bits } => {
            fs.push(Field::Tag(4));
            fs.push(Field::U64(*entity_id));
            fs.push(Field::U32(*x_bits));
            fs.push(Field::U32(*y_bits));
            fs.push(Field::U32(*z_bits));
            proof {
                assert(fields_view(fs@) =~= spec_engine_command_fields(c@));
            }
        },
        EngineCommand::SetEntityRotation { entity_id, x_bits, y_bits, z_bits, w_bits } => {
            fs.push(Field::Tag(5));
            fs.push(Field::U64(*entity_id));
            fs.push(Field::U32(*x_bits));
            fs.push(Field::U32(*y_bits));
            fs.push(Field::U32(*z_bits));
            fs.push(Field::U32(*w_bits));
            proof {
                assert(fields_view(fs@) =~= spec_engine_command_fields(c@));
            }
        },
        EngineCommand::GetEntityPosition { entity_id, request_id } => {
            fs.push(Field::Tag(6));
            fs.push(Field::U64(*entity_id));
            fs.push(Field::U64(*request_id));
            proof {
                assert(fields_view(fs@) =~= spec_engine_command_fields(c@));
            }
        },
        EngineCommand::GetEntityScale { entity_id, request_id } => {
            fs.push(Field::Tag(7));
            fs.push(Field::U64(*entity_id));
            fs.push(Field::U64(*request_id));
            proof {
                assert(fields_view(fs@) =~= spec_engine_command_fields(c@));
            }
        },
        EngineCommand::GetEntityRotation { entity_id, request_id } => {
            fs.push(Field::Tag(8));
            fs.push(Field::U64(*entity_id));
            fs.push(Field::U64(*request_id));
            proof {
                assert(fields_view(fs@) =~= spec_engine_command_fields(c@));
            }
        },
        EngineCommand::ReadFile { path, request_id } => {
            fs.push(Field::Tag(9));
            fs.push(Field::Str(path.clone()));
            fs.push(Field::U64(*request_id));
            proof {
                assert(fields_view(fs@) =~= spec_engine_command_fields(c@));
            }
        },
        EngineCommand::LoadTexture { path, request_id } => {
            fs.push(Field::Tag(10));
            fs.push(Field::Str(path.clone()));
            fs.push(Field::U64(*request_id));
            proof {
                assert(fields_view(fs@) =~= spec_engine_command_fields(c@));
            }
        },
        EngineCommand::LoadPrefab { path, x_bits, y_bits, z_bits, request_id } => {
            fs.push(Field::Tag(11));
            fs.push(Field::Str(path.clone()));
            fs.push(Field::U32(*x_bits));
            fs.push(Field::U32(*y_bits));
            fs.push(Field::U32(*z_bits));
            fs.push(Field::U64(*request_id));
            proof {
                assert(fields_view(fs@) =~= spec_engine_command_fields(c@));
            }
        },
        EngineCommand::SetEntityMaterial { entity_id, texture_id } => {
            fs.push(Field::Tag(12));
            fs.push(Field::U64(*entity_id));
            fs.push(Field::U64(*texture_id));
            proof {
                assert(fields_view(fs@) =~= spec_engine_command_fields(c@));
            }
        },
    }
    fs
}

fn engine_command_from_fields(fs: &Vec<Field>) -> (r: Option<EngineCommand>)
    requires
        wf_fields(fields_view(fs@)),
    ensures
        r matches Some(c) ==> wf_engine_command(c@) && fields_view(fs@)
            == spec_engine_command_fields(c@),
        forall|m: EngineCommandV|
            wf_engine_command(m) && fields_view(fs@) == #[trigger] spec_engine_command_fields(m)
                ==> (r matches Some(c) && c@ == m),
{
    let ghost fsv = fields_view(fs@);
    let tag = match field_tag_at(fs, 0) {
        Some(t) => t,
        None => {
            proof {
                assert forall|m: EngineCommandV|
                    wf_engine_command(m) && fsv == #[trigger] spec_engine_command_fields(m)
                        implies false by {
                    lemma_engine_command_shape(m);
                }
            }
            return None;
        },
    };
    let r: Option<EngineCommand> = if tag == 0 {
        if fs.len() == 2 {
            match field_str_at(fs, 1) {
                Some(message) => Some(EngineCommand::Log { message }),
                None => None,
            }
        } else {
            None
        }
    } else if tag == 1 {
        if fs.len() == 6 {
            match (field_tag_at(fs, 1), field_u32_at(fs, 2), field_u32_at(fs, 3), field_u32_at(
                fs,
                4,
            ), field_u64_at(fs, 5)) {
                (Some(pt), Some(x_bits), Some(y_bits), Some(z_bits), Some(request_id)) => {
                    match primitive_from_tag(pt) {
                        Some(primitive) => Some(
                            EngineCommand::SpawnPrimitive {
                                primitive,
                                x_bits,
                                y_bits,
                                z_bits,
                                request_id,
                            },
                        ),
                        None => None,
                    }
                },
                _ => None,
            }
        } else {
            None
        }
    } else if tag == 2 {
        if fs.len() == 2 {
            match field_u64_at(fs, 1) {
                Some(entity_id) => Some(EngineCommand::DespawnEntity { entity_id }),
                None => None,
            }
        } else {
            None
        }
    } else if tag == 3 {
        if fs.len() == 5 {
            match (field_u64_at(fs, 1), field_u32_at(fs, 2), field_u32_at(fs, 3), field_u32_at(
                fs,
                4,
            )) {
                (Some(entity_id), Some(x_bits), Some(y_bits), Some(z_bits)) => Some(
                    EngineCommand::SetEntityPosition { entity_id, x_bits, y_bits, z_bits },
                ),
                _ => None,
            }
        } else {
            None
        }
    } else if tag == 4 {
        if fs.len() == 5 {
            match (field_u64_at(fs, 1), field_u32_at(fs, 2), field_u32_at(fs, 3), field_u32_at(
                fs,
                4,
            )) {
                (Some(entity_id), Some(x_bits), Some(y_bits), Some(z_bits)) => Some(
                    EngineCommand::SetEntityScale { entity_id, x_bits, y_bits, z_bits },
                ),
                _ => None,
            }
        } else {
            None
        }
    } else if tag == 5 {
        if fs.len() == 6 {
            match (field_u64_at(fs, 1), field_u32_at(fs, 2), field_u32_at(fs, 3), field_u32_at(
                fs,
                4,
            ), field_u32_at(fs, 5)) {
                (Some(entity_id), Some(x_bits), Some(y_bits), Some(z_bits), Some(w_bits)) => Some(
                    EngineCommand::SetEntityRotation { entity_id, x_bits, y_bits, z_bits, w_bits },
                ),
                _ => None,
            }
        } else {
            None
        }
    } else if tag == 6 {
        if fs.len() == 3 {
            match (field_u64_at(fs, 1), field_u64_at(fs, 2)) {
                (Some(entity_id), Some(request_id)) => Some(
                    EngineCommand::GetEntityPosition { entity_id, request_id },
                ),
                _ => None,
            }
        } else {
            None
        }
    } else if tag == 7 {
        if fs.len() == 3 {
            match (field_u64_at(fs, 1), field_u64_at(fs, 2)) {
                (Some(entity_id), Some(request_id)) => Some(
                    EngineCommand::GetEntityScale { entity_id, request_id },
                ),
                _ => None,
            }
        } else {
            None
        }
    } else if tag == 8 {
        if fs.len() == 3 {
            match (field_u64_at(fs, 1), field_u64_at(fs, 2)) {
                (Some(entity_id), Some(request_id)) => Some(
                    EngineCommand::GetEntityRotation { entity_id, request_id },
                ),
                _ => None,
            }
        } else {
            None
        }
    } else if tag == 9 {
        if fs.len() == 3 {
            match (field_str_at(fs, 1), field_u64_at(fs, 2)) {
                (Some(path), Some(request_id)) => Some(
                    EngineCommand::ReadFile { path, request_id },
                ),
                _ => None,
            }
        } else {
            None
        }
    } else if tag == 10 {
        if fs.len() == 3 {
            match (field_str_at(fs, 1), field_u64_at(fs, 2)) {
                (Some(path), Some(request_id)) => Some(
                    EngineCommand::LoadTexture { path, request_id },
                ),
                _ => None,
            }
        } else {
            None
        }
    } else if tag == 11 {
        if fs.len() == 6 {
            match (field_str_at(fs, 1), field_u32_at(fs, 2), field_u32_at(fs, 3), field_u32_at(
                fs,
                4,
            ), field_u64_at(fs, 5)) {
                (Some(path), Some(x_bits), Some(y_bits), Some(z_bits), Some(request_id)) => Some(
                    EngineCommand::LoadPrefab { path, x_bits, y_bits, z_bits, request_id },
                ),
                _ => None,
            }
        } else {
            None
        }
    } else if tag == 12 {
        if fs.len() == 3 {
            match (field_u64_at(fs, 1), field_u64_at(fs, 2)) {
                (Some(entity_id), Some(texture_id)) => Some(
                    EngineCommand::SetEntityMaterial { entity_id, texture_id },
                ),
                _ => None,
            }
        } else {
            None
        }
    } else {
        None
    };
    proof {
        if r is Some {
            let c = r.unwrap();
            assert(fsv =~= spec_engine_command_fields(c@));
        }
        assert forall|m: EngineCommandV|
            wf_engine_command(m) && fsv == #[trigger] spec_engine_command_fields(m) implies (
        r matches Some(c) && c@ == m) by {
            lemma_engine_command_shape(m);
            match m {
                EngineCommandV::SpawnPrimitive { primitive, .. } => {
                    lemma_primitive_tag_inverse(primitive);
                },
                _ => {},
            }
        }
    }
    r
}

impl EngineCommand {
    /// Encodes the command; `from_bytes` of the result gives the command
    /// back (the round-trip law, stated across the two contracts).
    pub fn to_bytes(&self) -> (out: Vec<u8>)
        requires
            wf_engine_command(self@),
        ensures
            out@ == spec_engine_command_bytes(self@),
    {
        proof {
            lemma_engine_command_fields_wf(self@);
        }
        let fs = engine_command_to_fields(self);
        encode_fields(&fs)
    }

    /// Decodes a buffer. Returns a command exactly when the buffer is the
    /// encoding of some well-formed command, and then that command.
    pub fn from_bytes(bytes: &Vec<u8>) -> (r: Option<EngineCommand>)
        ensures
            r matches Some(c) ==> wf_engine_command(c@) && bytes@ == spec_engine_command_bytes(
                c@,
            ),
            forall|m: EngineCommandV|
                wf_engine_command(m) && bytes@ == #[trigger] spec_engine_command_bytes(m) ==> (
                r matches Some(c) && c@ == m),
    {
        let fs = match decode_fields(bytes) {
            Some(fs) => fs,
            None => {
                proof {
                    assert forall|m: EngineCommandV|
                        wf_engine_command(m) && bytes@ == #[trigger] spec_engine_command_bytes(m)
                            implies false by {
                        lemma_engine_command_fields_wf(m);
                        assert(bytes@.subrange(0, bytes@.len() as int) =~= bytes@);
                        lemma_fields_readback(bytes@, 0, spec_engine_command_fields(m));
                    }
                }
                return None;
            },
        };
        proof {
            lemma_fields_readforward(bytes@, 0, fields_view(fs@));
            assert(bytes@.subrange(0, bytes@.len() as int) =~= bytes@);
            assert forall|m: EngineCommandV|
                wf_engine_command(m) && bytes@ == #[trigger] spec_engine_command_bytes(m)
                    implies fields_view(fs@) == spec_engine_command_fields(m) by {
                lemma_engine_command_fields_wf(m);
                lemma_fields_readback(bytes@, 0, spec_engine_command_fields(m));
            }
        }
        engine_command_from_fields(&fs)
    }
}

// ---------------------------------------------------------------------------
// Events, host to guest
// ---------------------------------------------------------------------------

/// A host-to-guest message: an input, a frame boundary, or the reply to a
/// command, echoing the guest's request id.
#[derive(Debug, PartialEq)]
pub enum EngineEvent {
    FrameStart { delta_time_bits: u32, frame_count: u64 },
    MouseMoved { x_bits: u32, y_bits: u32 },
    KeyPressed { key_code: u32 },
    KeyReleased { key_code: u32 },
    MouseButtonPressed { button: u32 },
    MouseButtonReleased { button: u32 },
    EntitySpawned { request_id: u64, entity_id: u64 },
    EntityPosition { request_id: u64, entity_id: u64, x_bits: u32, y_bits: u32, z_bits: u32 },
    EntityScale { request_id: u64, entity_id: u64, x_bits: u32, y_bits: u32, z_bits: u32 },
    EntityRotation {
        request_id: u64,
        entity_id: u64,
        x_bits: u32,
        y_bits: u32,
        z_bits: u32,
        w_bits: u32,
    },
    EntityNotFound { request_id: u64, entity_id: u64 },
    FileLoaded { request_id: u64, data: Vec<u8> },
    FileError { request_id: u64, error: String },
    TextureLoaded { request_id: u64, texture_id: u64 },
    AssetError { request_id: u64, error: String },
    PrefabLoaded { request_id: u64, entity_id: u64 },
}

/// The mathematical model of an event.
pub enum EngineEventV {
    FrameStart { delta_time_bits: u32, frame_count: u64 },
    MouseMoved { x_bits: u32, y_bits: u32 },
    KeyPressed { key_code: u32 },
    KeyReleased { key_code: u32 },
    MouseButtonPressed { button: u32 },
    MouseButtonReleased { button: u32 },
    EntitySpawned { request_id: u64, entity_id: u64 },
    EntityPosition { request_id: u64, entity_id: u64, x_bits: u32, y_bits: u32, z_bits: u32 },
    EntityScale { request_id: u64, entity_id: u64, x_bits: u32, y_bits: u32, z_bits: u32 },
    EntityRotation {
        request_id: u64,
        entity_id: u64,
        x_bits: u32,
        y_bits: u32,
        z_bits: u32,
        w_bits: u32,
    },
    EntityNotFound { request_id: u64, entity_id: u64 },
    FileLoaded { request_id: u64, data: Seq<u8> },
    FileError { request_id: u64, error: Seq<char> },
    TextureLoaded { request_id: u64, texture_id: u64 },
    AssetError { request_id: u64, error: Seq<char> },
    PrefabLoaded { request_id: u64, entity_id: u64 },
}

impl View for EngineEvent {
    type V = EngineEventV;

    open spec fn view(&self) -> EngineEventV {
        match self {
            EngineEvent::FrameStart { delta_time_bits, frame_count } => EngineEventV::FrameStart {
                delta_time_bits: *delta_time_bits,
                frame_count: *frame_count,
            },
            EngineEvent::MouseMoved { x_bits, y_bits } => EngineEventV::MouseMoved {
                x_bits: *x_bits,
                y_bits: *y_bits,
            },
            EngineEvent::KeyPressed { key_code } => EngineEventV::KeyPressed {
                key_code: *key_code,
            },
            EngineEvent::KeyReleased { key_code } => EngineEventV::KeyReleased {
                key_code: *key_code,
            },
            EngineEvent::MouseButtonPressed { button } => EngineEventV::MouseButtonPressed {
                button: *button,
            },
            EngineEvent::MouseButtonReleased { button } => EngineEventV::MouseButtonReleased {
                button: *button,
            },
            EngineEvent::EntitySpawned { request_id, entity_id } => EngineEventV::EntitySpawned {
                request_id: *request_id,
                entity_id: *entity_id,
            },
            EngineEvent::EntityPosition { request_id, entity_id, x_bits, y_bits, z_bits } => {
                EngineEventV::EntityPosition {
                    request_id: *request_id,
                    entity_id: *entity_id,
                    x_bits: *x_bits,
                    y_bits: *y_bits,
                    z_bits: *z_bits,
                }
            },
            EngineEvent::EntityScale { request_id, entity_id, x_bits, y_bits, z_bits } => {
                EngineEventV::EntityScale {
                    request_id: *request_id,
                    entity_id: *entity_id,
                    x_bits: *x_bits,
                    y_bits: *y_bits,
                    z_bits: *z_bits,
                }
            },
            EngineEvent::EntityRotation {
                request_id,
                entity_id,
                x_bits,
                y_bits,
                z_bits,
                w_bits,
            } => EngineEventV::EntityRotation {
                request_id: *request_id,
                entity_id: *entity_id,
                x_bits: *x_bits,
                y_bits: *y_bits,
                z_bits: *z_bits,
                w_bits: *w_bits,
            },
            EngineEvent::EntityNotFound { request_id, entity_id } => {
                EngineEventV::EntityNotFound {
                    request_id: *request_id,
                    entity_id: *entity_id,
                }
            },
            EngineEvent::FileLoaded { request_id, data } => EngineEventV::FileLoaded {
                request_id: *request_id,
                data: data@,
            },
            EngineEvent::FileError { request_id, error } => EngineEventV::FileError {
                request_id: *request_id,
                error: error@,
            },
            EngineEvent::TextureLoaded { request_id, texture_id } => {
                EngineEventV::TextureLoaded {
                    request_id: *request_id,
                    texture_id: *texture_id,
                }
            },
            EngineEvent::AssetError { request_id, error } => EngineEventV::AssetError {
                request_id: *request_id,
                error: error@,
            },
            EngineEvent::PrefabLoaded { request_id, entity_id } => EngineEventV::PrefabLoaded {
                request_id: *request_id,
                entity_id: *entity_id,
            },
        }
    }
}

/// Whether an event's strings and payloads fit the wire format.
pub open spec fn wf_engine_event(e: EngineEventV) -> bool {
    match e {
        EngineEventV::FileLoaded { data, .. } => data.len() <= MAX_FIELD_LEN,
        EngineEventV::FileError { error, .. } => error.len() <= MAX_FIELD_LEN,
        EngineEventV::AssetError { error, .. } => error.len() <= MAX_FIELD_LEN,
        _ => true,
    }
}

/// The field sequence of an event.
pub open spec fn spec_engine_event_fields(e: EngineEventV) -> Seq<FieldV> {
    match e {
        EngineEventV::FrameStart { delta_time_bits, frame_count } => seq![
            FieldV::Tag(0),
            FieldV::U32(delta_time_bits),
            FieldV::U64(frame_count),
        ],
        EngineEventV::MouseMoved { x_bits, y_bits } => seq![
            FieldV::Tag(1),
            FieldV::U32(x_bits),
            FieldV::U32(y_bits),
        ],
        EngineEventV::KeyPressed { key_code } => seq![FieldV::Tag(2), FieldV::U32(key_code)],
        EngineEventV::KeyReleased { key_code } => seq![FieldV::Tag(3), FieldV::U32(key_code)],
        EngineEventV::MouseButtonPressed { button } => seq![FieldV::Tag(4), FieldV::U32(button)],
        EngineEventV::MouseButtonReleased { button } => seq![FieldV::Tag(5), FieldV::U32(button)],
        EngineEventV::EntitySpawned { request_id, entity_id } => seq![
            FieldV::Tag(6),
            FieldV::U64(request_id),
            FieldV::U64(entity_id),
        ],
        EngineEventV::EntityPosition { request_id, entity_id, x_bits, y_bits, z_bits } => seq![
            FieldV::Tag(7),
            FieldV::U64(request_id),
            FieldV::U64(entity_id),
            FieldV::U32(x_bits),
            FieldV::U32(y_bits),
            FieldV::U32(z_bits),
        ],
        EngineEventV::EntityScale { request_id, entity_id, x_bits, y_bits, z_bits } => seq![
            FieldV::Tag(8),
            FieldV::U64(request_id),
            FieldV::U64(entity_id),
            FieldV::U32(x_bits),
            FieldV::U32(y_bits),
            FieldV::U32(z_bits),
        ],
        EngineEventV::EntityRotation {
            request_id,
            entity_id,
            x_bits,
            y_bits,
            z_bits,
            w_bits,
        } => seq![
            FieldV::Tag(9),
            FieldV::U64(request_id),
            FieldV::U64(entity_id),
            FieldV::U32(x_bits),
            FieldV::U32(y_bits),
            FieldV::U32(z_bits),
            FieldV::U32(w_bits),
        ],
        EngineEventV::EntityNotFound { request_id, entity_id } => seq![
            FieldV::Tag(10),
            FieldV::U64(request_id),
            FieldV::U64(entity_id),
        ],
        EngineEventV::FileLoaded { request_id, data } => seq![
            FieldV::Tag(11),
            FieldV::U64(request_id),
            FieldV::Bytes(data),
        ],
        EngineEventV::FileError { request_id, error } => seq![
            FieldV::Tag(12),
            FieldV::U64(request_id),
            FieldV::Str(error),
        ],
        EngineEventV::TextureLoaded { request_id, texture_id } => seq![
            FieldV::Tag(13),
            FieldV::U64(request_id),
            FieldV::U64(texture_id),
        ],
        EngineEventV::AssetError { request_id, error } => seq![
            FieldV::Tag(14),
            FieldV::U64(request_id),
            FieldV::Str(error),
        ],
        EngineEventV::PrefabLoaded { request_id, entity_id } => seq![
            FieldV::Tag(15),
            FieldV::U64(request_id),
            FieldV::U64(entity_id),
        ],
    }
}

/// The wire bytes of an event.
pub open spec fn spec_engine_event_bytes(e: EngineEventV) -> Seq<u8> {
    spec_enc_fields(spec_engine_event_fields(e))
}

proof fn lemma_engine_event_fields_wf(e: EngineEventV)
    requires
        wf_engine_event(e),
    ensures
        wf_fields(spec_engine_event_fields(e)),
{
    match e {
        EngineEventV::FrameStart { .. } => {},
        EngineEventV::MouseMoved { .. } => {},
        EngineEventV::KeyPressed { .. } => {},
        EngineEventV::KeyReleased { .. } => {},
        EngineEventV::MouseButtonPressed { .. } => {},
        EngineEventV::MouseButtonReleased { .. } => {},
        EngineEventV::EntitySpawned { .. } => {},
        EngineEventV::EntityPosition { .. } => {},
        EngineEventV::EntityScale { .. } => {},
        EngineEventV::EntityRotation { .. } => {},
        EngineEventV::EntityNotFound { .. } => {},
        EngineEventV::FileLoaded { .. } => {},
        EngineEventV::FileError { .. } => {},
        EngineEventV::TextureLoaded { .. } => {},
        EngineEventV::AssetError { .. } => {},
        EngineEventV::PrefabLoaded { .. } => {},
    }
}

/// The head field pins the variant down.
proof fn lemma_engine_event_shape(e: EngineEventV)
    ensures
        spec_engine_event_fields(e).len() >= 1,
        spec_engine_event_fields(e)[0] == FieldV::Tag(0) ==> e matches EngineEventV::FrameStart {
            ..
        },
        spec_engine_event_fields(e)[0] == FieldV::Tag(1) ==> e matches EngineEventV::MouseMoved {
            ..
        },
        spec_engine_event_fields(e)[0] == FieldV::Tag(2) ==> e matches EngineEventV::KeyPressed {
            ..
        },
        spec_engine_event_fields(e)[0] == FieldV::Tag(3) ==> e matches EngineEventV::KeyReleased {
            ..
        },
        spec_engine_event_fields(e)[0] == FieldV::Tag(4)
            ==> e matches EngineEventV::MouseButtonPressed { .. },
        spec_engine_event_fields(e)[0] == FieldV::Tag(5)
            ==> e matches EngineEventV::MouseButtonReleased { .. },
        spec_engine_event_fields(e)[0] == FieldV::Tag(6)
            ==> e matches EngineEventV::EntitySpawned { .. },
        spec_engine_event_fields(e)[0] == FieldV::Tag(7)
            ==> e matches EngineEventV::EntityPosition { .. },
        spec_engine_event_fields(e)[0] == FieldV::Tag(8) ==> e matches EngineEventV::EntityScale {
            ..
        },
        spec_engine_event_fields(e)[0] == FieldV::Tag(9)
            ==> e matches EngineEventV::EntityRotation { .. },
        spec_engine_event_fields(e)[0] == FieldV::Tag(10)
            ==> e matches EngineEventV::EntityNotFound { .. },
        spec_engine_event_fields(e)[0] == FieldV::Tag(11) ==> e matches EngineEventV::FileLoaded {
            ..
        },
        spec_engine_event_fields(e)[0] == FieldV::Tag(12) ==> e matches EngineEventV::FileError {
            ..
        },
        spec_engine_event_fields(e)[0] == FieldV::Tag(13)
            ==> e matches EngineEventV::TextureLoaded { .. },
        spec_engine_event_fields(e)[0] == FieldV::Tag(14) ==> e matches EngineEventV::AssetError {
            ..
        },
        spec_engine_event_fields(e)[0] == FieldV::Tag(15)
            ==> e matches EngineEventV::PrefabLoaded { .. },
        spec_engine_event_fields(e)[0] matches FieldV::Tag(t) && t <= 15,
{
    match e {
        EngineEventV::FrameStart { .. } => {},
        EngineEventV::MouseMoved { .. } => {},
        EngineEventV::KeyPressed { .. } => {},
        EngineEventV::KeyReleased { .. } => {},
        EngineEventV::MouseButtonPressed { .. } => {},
        EngineEventV::MouseButtonReleased { .. } => {},
        EngineEventV::EntitySpawned { .. } => {},
        EngineEventV::EntityPosition { .. } => {},
        EngineEventV::EntityScale { .. } => {},
        EngineEventV::EntityRotation { .. } => {},
        EngineEventV::EntityNotFound { .. } => {},
        EngineEventV::FileLoaded { .. } => {},
        EngineEventV::FileError { .. } => {},
        EngineEventV::TextureLoaded { .. } => {},
        EngineEventV::AssetError { .. } => {},
        EngineEventV::PrefabLoaded { .. } => {},
    }
}

fn engine_event_to_fields(e: &EngineEvent) -> (fs: Vec<Field>)
    ensures
        fields_view(fs@) == spec_engine_event_fields(e@),
{
    let mut fs: Vec<Field> = Vec::new();
    match e {
        EngineEvent::FrameStart { delta_time_bits, frame_count } => {
            fs.push(Field::Tag(0));
            fs.push(Field::U32(*delta_time_bits));
            fs.push(Field::U64(*frame_count));
            proof {
                assert(fields_view(fs@) =~= spec_engine_event_fields(e@));
            }
        },
        EngineEvent::MouseMoved { x_bits, y_bits } => {
            fs.push(Field::Tag(1));
            fs.push(Field::U32(*x_bits));
            fs.push(Field::U32(*y_bits));
            proof {
                assert(fields_view(fs@) =~= spec_engine_event_fields(e@));
            }
        },
        EngineEvent::KeyPressed { key_code } => {
            fs.push(Field::Tag(2));
            fs.push(Field::U32(*key_code));
            proof {
                assert(fields_view(fs@) =~= spec_engine_event_fields(e@));
            }
        },
        EngineEvent::KeyReleased { key_code } => {
            fs.push(Field::Tag(3));
            fs.push(Field::U32(*key_code));
            proof {
                assert(fields_view(fs@) =~= spec_engine_event_fields(e@));
            }
        },
        EngineEvent::MouseButtonPressed { button } => {
            fs.push(Field::Tag(4));
            fs.push(Field::U32(*button));
            proof {
                assert(fields_view(fs@) =~= spec_engine_event_fields(e@));
            }
        },
        EngineEvent::MouseButtonReleased { button } => {
            fs.push(Field::Tag(5));
            fs.push(Field::U32(*button));
            proof {
                assert(fields_view(fs@) =~= spec_engine_event_fields(e@));
            }
        },
        EngineEvent::EntitySpawned { request_id, entity_id } => {
            fs.push(Field::Tag(6));
            fs.push(Field::U64(*request_id));
            fs.push(Field::U64(*entity_id));
            proof {
                assert(fields_view(fs@) =~= spec_engine_event_fields(e@));
            }
        },
        EngineEvent::EntityPosition { request_id, entity_id, x_bits, y_bits, z_bits } => {
            fs.push(Field::Tag(7));
            fs.push(Field::U64(*request_id));
            fs.push(Field::U64(*entity_id));
            fs.push(Field::U32(*x_bits));
            fs.push(Field::U32(*y_bits));
            fs.push(Field::U32(*z_bits));
            proof {
                assert(fields_view(fs@) =~= spec_engine_event_fields(e@));
            }
        },
        EngineEvent::EntityScale { request_id, entity_id, x_bits, y_bits, z_bits } => {
            fs.push(Field::Tag(8));
            fs.push(Field::U64(*request_id));
            fs.push(Field::U64(*entity_id));
            fs.push(Field::U32(*x_bits));
            fs.push(Field::U32(*y_bits));
            fs.push(Field::U32(*z_bits));
            proof {
                assert(fields_view(fs@) =~= spec_engine_event_fields(e@));
            }
        },
        EngineEvent::EntityRotation { request_id, entity_id, x_bits, y_bits, z_bits, w_bits } => {
            fs.push(Field::Tag(9));
            fs.push(Field::U64(*request_id));
            fs.push(Field::U64(*entity_id));
            fs.push(Field::U32(*x_bits));
            fs.push(Field::U32(*y_bits));
            fs.push(Field::U32(*z_bits));
            fs.push(Field::U32(*w_bits));
            proof {
                assert(fields_view(fs@) =~= spec_engine_event_fields(e@));
            }
        },
        EngineEvent::EntityNotFound { request_id, entity_id } => {
            fs.push(Field::Tag(10));
            fs.push(Field::U64(*request_id));
            fs.push(Field::U64(*entity_id));
            proof {
                assert(fields_view(fs@) =~= spec_engine_event_fields(e@));
            }
        },
        EngineEvent::FileLoaded { request_id, data } => {
            fs.push(Field::Tag(11));
            fs.push(Field::U64(*request_id));
            fs.push(Field::Bytes(vstd::slice::slice_to_vec(data.as_slice())));
            proof {
                assert(fields_view(fs@) =~= spec_engine_event_fields(e@));
            }
        },
        EngineEvent::FileError { request_id, error } => {
            fs.push(Field::Tag(12));
            fs.push(Field::U64(*request_id));
            fs.push(Field::Str(error.clone()));
            proof {
                assert(fields_view(fs@) =~= spec_engine_event_fields(e@));
            }
        },
        EngineEvent::TextureLoaded { request_id, texture_id } => {
            fs.push(Field::Tag(13));
            fs.push(Field::U64(*request_id));
            fs.push(Field::U64(*texture_id));
            proof {
                assert(fields_view(fs@) =~= spec_engine_event_fields(e@));
            }
        },
        EngineEvent::AssetError { request_id, error } => {
            fs.push(Field::Tag(14));
            fs.push(Field::U64(*request_id));
            fs.push(Field::Str(error.clone()));
            proof {
                assert(fields_view(fs@) =~= spec_engine_event_fields(e@));
            }
        },
        EngineEvent::PrefabLoaded { request_id, entity_id } => {
            fs.push(Field::Tag(15));
            fs.push(Field::U64(*request_id));
            fs.push(Field::U64(*entity_id));
            proof {
                assert(fields_view(fs@) =~= spec_engine_event_fields(e@));
            }
        },
    }
    fs
}

fn engine_event_from_fields(fs: &Vec<Field>) -> (r: Option<EngineEvent>)
    requires
        wf_fields(fields_view(fs@)),
    ensures
        r matches Some(e) ==> wf_engine_event(e@) && fields_view(fs@) == spec_engine_event_fields(
            e@,
        ),
        forall|m: EngineEventV|
            wf_engine_event(m) && fields_view(fs@) == #[trigger] spec_engine_event_fields(m) ==> (
            r matches Some(e) && e@ == m),
{
    let ghost fsv = fields_view(fs@);
    let tag = match field_tag_at(fs, 0) {
        Some(t) => t,
        None => {
            proof {
                assert forall|m: EngineEventV|
                    wf_engine_event(m) && fsv == #[trigger] spec_engine_event_fields(m)
                        implies false by {
                    lemma_engine_event_shape(m);
                }
            }
            return None;
        },
    };
    let r: Option<EngineEvent> = if tag == 0 {
        if fs.len() == 3 {
            match (field_u32_at(fs, 1), field_u64_at(fs, 2)) {
                (Some(delta_time_bits), Some(frame_count)) => Some(
                    EngineEvent::FrameStart { delta_time_bits, frame_count },
                ),
                _ => None,
            }
        } else {
            None
        }
    } else if tag == 1 {
        if fs.len() == 3 {
            match (field_u32_at(fs, 1), field_u32_at(fs, 2)) {
                (Some(x_bits), Some(y_bits)) => Some(EngineEvent::MouseMoved { x_bits, y_bits }),
                _ => None,
            }
        } else {
            None
        }
    } else if tag == 2 {
        if fs.len() == 2 {
            match field_u32_at(fs, 1) {
                Some(key_code) => Some(EngineEvent::KeyPressed { key_code }),
                None => None,
            }
        } else {
            None
        }
    } else if tag == 3 {
        if fs.len() == 2 {
            match field_u32_at(fs, 1) {
                Some(key_code) => Some(EngineEvent::KeyReleased { key_code }),
                None => None,
            }
        } else {
            None
        }
    } else if tag == 4 {
        if fs.len() == 2 {
            match field_u32_at(fs, 1) {
                Some(button) => Some(EngineEvent::MouseButtonPressed { button }),
                None => None,
            }
        } else {
            None
        }
    } else if tag == 5 {
        if fs.len() == 2 {
            match field_u32_at(fs, 1) {
                Some(button) => Some(EngineEvent::MouseButtonReleased { button }),
                None => None,
            }
        } else {
            None
        }
    } else if tag == 6 {
        if fs.len() == 3 {
            match (field_u64_at(fs, 1), field_u64_at(fs, 2)) {
                (Some(request_id), Some(entity_id)) => Some(
                    EngineEvent::EntitySpawned { request_id, entity_id },
                ),
                _ => None,
            }
        } else {
            None
        }
    } else if tag == 7 {
        if fs.len() == 6 {
            match (field_u64_at(fs, 1), field_u64_at(fs, 2), field_u32_at(fs, 3), field_u32_at(
                fs,
                4,
            ), field_u32_at(fs, 5)) {
                (Some(request_id), Some(entity_id), Some(x_bits), Some(y_bits), Some(z_bits)) => {
                    Some(
                        EngineEvent::EntityPosition {
                            request_id,
                            entity_id,
                            x_bits,
                            y_bits,
                            z_bits,
                        },
                    )
                },
                _ => None,
            }
        } else {
            None
        }
    } else if tag == 8 {
        if fs.len() == 6 {
            match (field_u64_at(fs, 1), field_u64_at(fs, 2), field_u32_at(fs, 3), field_u32_at(
                fs,
                4,
            ), field_u32_at(fs, 5)) {
                (Some(request_id), Some(entity_id), Some(x_bits), Some(y_bits), Some(z_bits)) => {
                    Some(
                        EngineEvent::EntityScale { request_id, entity_id, x_bits, y_bits, z_bits },
                    )
                },
                _ => None,
            }
        } else {
            None
        }
    } else if tag == 9 {
        if fs.len() == 7 {
            match (field_u64_at(fs, 1), field_u64_at(fs, 2), field_u32_at(fs, 3), field_u32_at(
                fs,
                4,
            ), field_u32_at(fs, 5), field_u32_at(fs, 6)) {
                (
                    Some(request_id),
                    Some(entity_id),
                    Some(x_bits),
                    Some(y_bits),
                    Some(z_bits),
                    Some(w_bits),
                ) => Some(
                    EngineEvent::EntityRotation {
                        request_id,
                        entity_id,
                        x_bits,
                        y_bits,
                        z_bits,
                        w_bits,
                    },
                ),
                _ => None,
            }
        } else {
            None
        }
    } else if tag == 10 {
        if fs.len() == 3 {
            match (field_u64_at(fs, 1), field_u64_at(fs, 2)) {
                (Some(request_id), Some(entity_id)) => Some(
                    EngineEvent::EntityNotFound { request_id, entity_id },
                ),
                _ => None,
            }
        } else {
            None
        }
    } else if tag == 11 {
        if fs.len() == 3 {
            match (field_u64_at(fs, 1), field_bytes_at(fs, 2)) {
                (Some(request_id), Some(data)) => Some(
                    EngineEvent::FileLoaded { request_id, data },
                ),
                _ => None,
            }
        } else {
            None
        }
    } else if tag == 12 {
        if fs.len() == 3 {
            match (field_u64_at(fs, 1), field_str_at(fs, 2)) {
                (Some(request_id), Some(error)) => Some(
                    EngineEvent::FileError { request_id, error },
                ),
                _ => None,
            }
        } else {
            None
        }
    } else if tag == 13 {
        if fs.len() == 3 {
            match (field_u64_at(fs, 1), field_u64_at(fs, 2)) {
                (Some(request_id), Some(texture_id)) => Some(
                    EngineEvent::TextureLoaded { request_id, texture_id },
                ),
                _ => None,
            }
        } else {
            None
        }
    } else if tag == 14 {
        if fs.len() == 3 {
            match (field_u64_at(fs, 1), field_str_at(fs, 2)) {
                (Some(request_id), Some(error)) => Some(
                    EngineEvent::AssetError { request_id, error },
                ),
                _ => None,
            }
        } else {
            None
        }
    } else if tag == 15 {
        if fs.len() == 3 {
            match (field_u64_at(fs, 1), field_u64_at(fs, 2)) {
                (Some(request_id), Some(entity_id)) => Some(
                    EngineEvent::PrefabLoaded { request_id, entity_id },
                ),
                _ => None,
            }
        } else {
            None
        }
    } else {
        None
    };
    proof {
        if r is Some {
            let e = r.unwrap();
            assert(fsv =~= spec_engine_event_fields(e@));
        }
        assert forall|m: EngineEventV|
            wf_engine_event(m) && fsv == #[trigger] spec_engine_event_fields(m) implies (
        r matches Some(e) && e@ == m) by {
            lemma_engine_event_shape(m);
        }
    }
    r
}

impl EngineEvent {
    /// Encodes the event; `from_bytes` of the result gives the event back
    /// (the round-trip law, stated across the two contracts).
    pub fn to_bytes(&self) -> (out: Vec<u8>)
        requires
            wf_engine_event(self@),
        ensures
            out@ == spec_engine_event_bytes(self@),
    {
        proof {
            lemma_engine_event_fields_wf(self@);
        }
        let fs = engine_event_to_fields(self);
        encode_fields(&fs)
    }

    /// Decodes a buffer. Returns an event exactly when the buffer is the
    /// encoding of some well-formed event, and then that event.
    pub fn from_bytes(bytes: &Vec<u8>) -> (r: Option<EngineEvent>)
        ensures
            r matches Some(e) ==> wf_engine_event(e@) && bytes@ == spec_engine_event_bytes(e@),
            forall|m: EngineEventV|
                wf_engine_event(m) && bytes@ == #[trigger] spec_engine_event_bytes(m) ==> (
                r matches Some(e) && e@ == m),
    {
        let fs = match decode_fields(bytes) {
            Some(fs) => fs,
            None => {
                proof {
                    assert forall|m: EngineEventV|
                        wf_engine_event(m) && bytes@ == #[trigger] spec_engine_event_bytes(m)
                            implies false by {
                        lemma_engine_event_fields_wf(m);
                        assert(bytes@.subrange(0, bytes@.len() as int) =~= bytes@);
                        lemma_fields_readback(bytes@, 0, spec_engine_event_fields(m));
                    }
                }
                return None;
            },
        };
        proof {
            lemma_fields_readforward(bytes@, 0, fields_view(fs@));
            assert(bytes@.subrange(0, bytes@.len() as int) =~= bytes@);
            assert forall|m: EngineEventV|
                wf_engine_event(m) && bytes@ == #[trigger] spec_engine_event_bytes(m)
                    implies fields_view(fs@) == spec_engine_event_fields(m) by {
                lemma_engine_event_fields_wf(m);
                lemma_fields_readback(bytes@, 0, spec_engine_event_fields(m));
            }
        }
        engine_event_from_fields(&fs)
    }
}

} // verus!

use plugin_runtime::assets::run_texture_job;
use plugin_runtime::engine_codec::{EngineCommand, EngineEvent, Primitive};
use plugin_runtime::runtime::{
    position_reply, rotation_reply, scale_reply, AsyncDecision, AsyncResult, Decision, IoDecision,
    PendingIo, PluginRuntime, PrefabDecode, TexturePixels,
};

fn fresh() -> PluginRuntime {
    PluginRuntime::new(String::from("plugins"), String::from("/srv/plugins"))
}

/// A 1x1 24-bit BMP whose single pixel is pure blue.
fn one_pixel_bmp() -> Vec<u8> {
    vec![
        0x42, 0x4D, 0x3A, 0, 0, 0, 0, 0, 0, 0, 0x36, 0, 0, 0, 0x28, 0, 0, 0, 1, 0, 0, 0, 1, 0, 0,
        0, 1, 0, 24, 0, 0, 0, 0, 0, 4, 0, 0, 0, 0x13, 0x0B, 0, 0, 0x13, 0x0B, 0, 0, 0, 0, 0, 0, 0,
        0, 0, 0, 0xFF, 0, 0, 0,
    ]
}

#[test]
fn spawn_cube_is_registered_and_answered() {
    // One plugin spawns a cube at (1, 2, 3) with request id 7 during init.
    let mut rt = fresh();
    let plugin = rt.register_plugin(true, false);
    let cmd = EngineCommand::SpawnPrimitive {
        primitive: Primitive::Cube,
        x_bits: 1.0f32.to_bits(),
        y_bits: 2.0f32.to_bits(),
        z_bits: 3.0f32.to_bits(),
        request_id: 7,
    };
    let d = rt.handle_command(plugin, cmd);
    match d {
        Decision::SpawnPrimitive { plugin_id, request_id, primitive, x_bits, y_bits, z_bits } => {
            assert_eq!(plugin_id, plugin);
            assert_eq!(request_id, 7);
            assert_eq!(primitive, Primitive::Cube);
            assert_eq!(f32::from_bits(x_bits), 1.0);
            assert_eq!(f32::from_bits(y_bits), 2.0);
            assert_eq!(f32::from_bits(z_bits), 3.0);
        },
        other => panic!("wrong decision: {:?}", other),
    }
    // The world spawned host entity 500; the table gets one entry and the
    // guest one reply.
    let (entity_id, event) = rt.on_primitive_spawned(plugin, 7, 500);
    assert_eq!(event, EngineEvent::EntitySpawned { request_id: 7, entity_id });
    assert_eq!(rt.handle_count(), 1);
    assert_eq!(rt.lookup_entity(entity_id), Some(500));
}

#[test]
fn despawn_removes_the_id_for_everyone() {
    let mut rt = fresh();
    let a = rt.register_plugin(true, true);
    let _b = rt.register_plugin(true, true);
    let (id, _) = rt.on_primitive_spawned(a, 1, 500);

    let d = rt.handle_command(a, EngineCommand::DespawnEntity { entity_id: id });
    assert_eq!(d, Decision::DespawnEntity { host_entity: 500 });
    // No plugin can resolve the id any more.
    assert_eq!(rt.lookup_entity(id), None);
    assert_eq!(rt.handle_count(), 0);

    // A second despawn of the same id is an ignored warning.
    let d = rt.handle_command(a, EngineCommand::DespawnEntity { entity_id: id });
    assert_eq!(d, Decision::WarnUnknownEntity { plugin_id: a, entity_id: id });
}

#[test]
fn transforms_go_to_the_mapped_entity_or_warn() {
    let mut rt = fresh();
    let p = rt.register_plugin(true, true);
    let (id, _) = rt.on_primitive_spawned(p, 1, 500);

    let d = rt.handle_command(
        p,
        EngineCommand::SetEntityPosition { entity_id: id, x_bits: 1, y_bits: 2, z_bits: 3 },
    );
    assert_eq!(d, Decision::SetPosition { host_entity: 500, x_bits: 1, y_bits: 2, z_bits: 3 });

    let d = rt.handle_command(
        p,
        EngineCommand::SetEntityRotation { entity_id: 999, x_bits: 0, y_bits: 0, z_bits: 0, w_bits: 0 },
    );
    assert_eq!(d, Decision::WarnUnknownEntity { plugin_id: p, entity_id: 999 });

    let d = rt.handle_command(p, EngineCommand::GetEntityScale { entity_id: id, request_id: 5 });
    assert_eq!(
        d,
        Decision::ReadScale { host_entity: 500, plugin_id: p, request_id: 5, entity_id: id },
    );

    // A get on an unknown id is answered with the typed not-found event.
    let d = rt.handle_command(p, EngineCommand::GetEntityPosition { entity_id: 999, request_id: 6 });
    assert_eq!(
        d,
        Decision::Reply {
            plugin_id: p,
            event: EngineEvent::EntityNotFound { request_id: 6, entity_id: 999 },
        },
    );
}

#[test]
fn read_file_outside_the_tree_gets_exactly_one_error() {
    let mut rt = fresh();
    let p = rt.register_plugin(true, true);
    let d = rt.handle_command(
        p,
        EngineCommand::ReadFile { path: String::from("../etc/passwd"), request_id: 9 },
    );
    // The one decision is the typed error event; no worker job is started.
    match d {
        Decision::RejectPath { plugin_id, path, event } => {
            assert_eq!(plugin_id, p);
            assert_eq!(path, "../etc/passwd");
            assert_eq!(
                event,
                EngineEvent::FileError {
                    request_id: 9,
                    error: String::from("Invalid path: access denied"),
                },
            );
        },
        other => panic!("wrong decision: {:?}", other),
    }
}

#[test]
fn read_file_inside_the_tree_goes_to_the_resolver() {
    let mut rt = fresh();
    let p = rt.register_plugin(true, true);
    let d = rt.handle_command(
        p,
        EngineCommand::ReadFile { path: String::from("data/save.txt"), request_id: 3 },
    );
    match d {
        Decision::ResolvePath { joined, pending } => {
            assert_eq!(joined, "plugins/data/save.txt");
            assert_eq!(pending, PendingIo::File { plugin_id: p, request_id: 3 });
        },
        other => panic!("wrong decision: {:?}", other),
    }
}

#[test]
fn resolver_rejects_paths_that_escape_the_canonical_root() {
    let mut rt = fresh();
    let p = rt.register_plugin(true, true);
    // A symlink inside the tree resolved to somewhere outside it.
    let d = rt.resolve_io(
        PendingIo::File { plugin_id: p, request_id: 9 },
        Some(String::from("/etc/passwd")),
    );
    assert_eq!(
        d,
        IoDecision::Reject {
            plugin_id: p,
            event: EngineEvent::FileError {
                request_id: 9,
                error: String::from("Invalid path: access denied"),
            },
        },
    );
    // Unresolvable (missing) paths are rejected the same way.
    let d = rt.resolve_io(PendingIo::File { plugin_id: p, request_id: 10 }, None);
    match d {
        IoDecision::Reject { .. } => {},
        other => panic!("wrong decision: {:?}", other),
    }
}

#[test]
fn texture_pipeline_records_the_name_only_on_success() {
    let mut rt = fresh();
    let p = rt.register_plugin(true, true);

    // The guest asks for logo.png with request id 42.
    let d = rt.handle_command(
        p,
        EngineCommand::LoadTexture { path: String::from("logo.png"), request_id: 42 },
    );
    let pending = match d {
        Decision::ResolvePath { joined, pending } => {
            assert_eq!(joined, "plugins/logo.png");
            pending
        },
        other => panic!("wrong decision: {:?}", other),
    };

    // The filesystem resolves it under the root; the id is allocated now.
    let d = rt.resolve_io(pending, Some(String::from("/srv/plugins/logo.png")));
    let (texture_id, texture_name) = match d {
        IoDecision::StartTextureJob { path, plugin_id, request_id, texture_id, texture_name } => {
            assert_eq!(path, "/srv/plugins/logo.png");
            assert_eq!(plugin_id, p);
            assert_eq!(request_id, 42);
            (texture_id, texture_name)
        },
        other => panic!("wrong decision: {:?}", other),
    };
    assert_eq!(texture_name, "logo.png");
    // Not recorded yet: the decode has not finished.
    assert_eq!(rt.texture_name(texture_id), None);

    // The worker decodes the image bytes.
    let pixels = run_texture_job(Ok(one_pixel_bmp())).expect("the one-pixel image must decode");
    assert_eq!((pixels.width, pixels.height), (1, 1));
    assert_eq!(pixels.rgba, vec![0, 0, 255, 255]);

    // The main thread drains the envelope: the record is made and the
    // guest is owed exactly one loaded event.
    let d = rt.on_async_result(AsyncResult::Texture {
        plugin_id: p,
        request_id: 42,
        texture_name,
        texture_id,
        result: Ok(pixels),
    });
    match d {
        AsyncDecision::UploadTexture { plugin_id, event, name, pixels } => {
            assert_eq!(plugin_id, p);
            assert_eq!(event, EngineEvent::TextureLoaded { request_id: 42, texture_id });
            assert_eq!(name, "logo.png");
            assert_eq!(pixels.rgba.len(), 4);
        },
        other => panic!("wrong decision: {:?}", other),
    }
    assert_eq!(rt.texture_name(texture_id), Some(String::from("logo.png")));

    // A material change on a mapped entity now finds the texture by name.
    let (entity_id, _) = rt.on_primitive_spawned(p, 1, 500);
    let d = rt.handle_command(
        p,
        EngineCommand::SetEntityMaterial { entity_id, texture_id },
    );
    assert_eq!(
        d,
        Decision::SetMaterial { host_entity: 500, texture_name: String::from("logo.png") },
    );
}

#[test]
fn failed_texture_decode_records_nothing() {
    let mut rt = fresh();
    let p = rt.register_plugin(true, true);
    let d = rt.resolve_io(
        PendingIo::Texture { plugin_id: p, request_id: 8, texture_name: String::from("bad.png") },
        Some(String::from("/srv/plugins/bad.png")),
    );
    let texture_id = match d {
        IoDecision::StartTextureJob { texture_id, .. } => texture_id,
        other => panic!("wrong decision: {:?}", other),
    };
    let result = run_texture_job(Ok(vec![0, 1, 2, 3]));
    assert!(result.is_err());
    let d = rt.on_async_result(AsyncResult::Texture {
        plugin_id: p,
        request_id: 8,
        texture_name: String::from("bad.png"),
        texture_id,
        result,
    });
    match d {
        AsyncDecision::Unicast { event: EngineEvent::AssetError { request_id, .. }, .. } => {
            assert_eq!(request_id, 8);
        },
        other => panic!("wrong decision: {:?}", other),
    }
    // The correctness requirement: no record for an id whose decode failed.
    assert_eq!(rt.texture_name(texture_id), None);
}

#[test]
fn file_results_are_forwarded_as_typed_events() {
    let mut rt = fresh();
    let p = rt.register_plugin(true, true);
    let d = rt.on_async_result(AsyncResult::File {
        plugin_id: p,
        request_id: 5,
        result: Ok(vec![10, 20]),
    });
    assert_eq!(
        d,
        AsyncDecision::Unicast {
            plugin_id: p,
            event: EngineEvent::FileLoaded { request_id: 5, data: vec![10, 20] },
        },
    );
    let d = rt.on_async_result(AsyncResult::File {
        plugin_id: p,
        request_id: 6,
        result: Err(String::from("No such file or directory (os error 2)")),
    });
    assert_eq!(
        d,
        AsyncDecision::Unicast {
            plugin_id: p,
            event: EngineEvent::FileError {
                request_id: 6,
                error: String::from("No such file or directory (os error 2)"),
            },
        },
    );
}

#[test]
fn prefab_results_spawn_or_report_the_empty_file() {
    let mut rt = fresh();
    let p = rt.register_plugin(true, true);
    let bark = (
        String::from("bark.png"),
        TexturePixels { rgba: vec![9, 9, 9, 255], width: 1, height: 1 },
    );
    let d = rt.on_async_result(AsyncResult::Prefab {
        plugin_id: p,
        request_id: 13,
        x_bits: 1,
        y_bits: 2,
        z_bits: 3,
        result: Ok(PrefabDecode {
            has_prefab: true,
            textures: vec![(
                String::from("bark.png"),
                TexturePixels { rgba: vec![9, 9, 9, 255], width: 1, height: 1 },
            )],
        }),
    });
    assert_eq!(
        d,
        AsyncDecision::SpawnPrefab {
            plugin_id: p,
            request_id: 13,
            x_bits: 1,
            y_bits: 2,
            z_bits: 3,
            uploads: vec![bark],
        },
    );
    let (entity_id, event) = rt.on_prefab_spawned(p, 13, 700);
    assert_eq!(event, EngineEvent::PrefabLoaded { request_id: 13, entity_id });
    assert_eq!(rt.lookup_entity(entity_id), Some(700));

    // A scene file without a prefab still has its textures uploaded, but
    // the guest gets a typed error instead of an entity.
    let d = rt.on_async_result(AsyncResult::Prefab {
        plugin_id: p,
        request_id: 14,
        x_bits: 0,
        y_bits: 0,
        z_bits: 0,
        result: Ok(PrefabDecode { has_prefab: false, textures: vec![] }),
    });
    assert_eq!(
        d,
        AsyncDecision::PrefabEmpty {
            plugin_id: p,
            event: EngineEvent::AssetError {
                request_id: 14,
                error: String::from("No prefabs found in glTF file"),
            },
            uploads: vec![],
        },
    );
}

#[test]
fn transform_replies_echo_the_request() {
    assert_eq!(
        position_reply(1, 2, Some((3, 4, 5))),
        EngineEvent::EntityPosition { request_id: 1, entity_id: 2, x_bits: 3, y_bits: 4, z_bits: 5 },
    );
    assert_eq!(
        position_reply(1, 2, None),
        EngineEvent::EntityNotFound { request_id: 1, entity_id: 2 },
    );
    assert_eq!(
        scale_reply(1, 2, Some((3, 4, 5))),
        EngineEvent::EntityScale { request_id: 1, entity_id: 2, x_bits: 3, y_bits: 4, z_bits: 5 },
    );
    assert_eq!(
        rotation_reply(1, 2, Some((3, 4, 5, 6))),
        EngineEvent::EntityRotation {
            request_id: 1,
            entity_id: 2,
            x_bits: 3,
            y_bits: 4,
            z_bits: 5,
            w_bits: 6,
        },
    );
    assert_eq!(
        rotation_reply(7, 8, None),
        EngineEvent::EntityNotFound { request_id: 7, entity_id: 8 },
    );
}

//! The plugin registry and dispatch core.
//!
//! The runtime owns the registry of loaded plugins, the entity handle
//! table, the texture-id table, the pending input queue and the custom
//! channel buffer, and decides everything the host shell then carries out:
//! which events to broadcast at a frame's start, what each guest command
//! asks for, what to do with each asset result. The shell performs the
//! effects — wasm calls, world mutations, filesystem resolution, worker
//! threads — and feeds the outcomes back in as plain values. Every decision
//! function is deterministic in the runtime's state and its arguments, and
//! its contract states the decision in full.
//!
//! Worker threads never touch this state: every method here runs on the
//! host's main thread, and the asset jobs (see `assets`) are functions from
//! plain values to plain values.

use vstd::prelude::*;
use crate::engine_codec::{EngineCommand, EngineCommandV, EngineEvent, EngineEventV, Primitive};
use crate::handles::{spec_keep_valid, spec_lookup, spec_remove_id, HandleTable};
use crate::path::{check_guest_path, guest_path_ok, is_under_root, join_path, spec_join, spec_under_root};
use crate::CLEANUP_INTERVAL_FRAMES;

verus! {

/// What the runtime knows of one loaded plugin: its id and which lifecycle
/// exports its module offers.
#[derive(Clone, Copy, Debug, PartialEq, Eq, Structural)]
pub struct PluginMeta {
    pub id: u64,
    pub has_on_init: bool,
    pub has_on_frame: bool,
}

/// A mouse button, as the windowing layer reports it.
#[derive(Clone, Copy, Debug, PartialEq, Eq, Structural)]
pub enum MouseButton {
    Left,
    Right,
    Middle,
    Back,
    Forward,
    Other(u16),
}

/// The numeric code a button crosses the boundary as.
pub open spec fn mouse_button_code(b: MouseButton) -> u32 {
    match b {
        MouseButton::Left => 0,
        MouseButton::Right => 1,
        MouseButton::Middle => 2,
        MouseButton::Back => 3,
        MouseButton::Forward => 4,
        MouseButton::Other(id) => (id as u32 + 5) as u32,
    }
}

/// An asset job still waiting for the filesystem to resolve its path.
#[derive(Debug, PartialEq)]
pub enum PendingIo {
    File { plugin_id: u64, request_id: u64 },
    Texture { plugin_id: u64, request_id: u64, texture_name: String },
    Prefab { plugin_id: u64, request_id: u64, x_bits: u32, y_bits: u32, z_bits: u32 },
}

/// What one guest command asks the host shell to do.
#[derive(Debug, PartialEq)]
pub enum Decision {
    /// Emit the message through the host logger, tagged with the plugin.
    LogMessage { plugin_id: u64, message: String },
    /// Spawn the primitive in the world, then hand the new host entity to
    /// `on_primitive_spawned`.
    SpawnPrimitive {
        plugin_id: u64,
        request_id: u64,
        primitive: Primitive,
        x_bits: u32,
        y_bits: u32,
        z_bits: u32,
    },
    /// Queue a recursive despawn of this host entity; its id is already
    /// out of the handle table.
    DespawnEntity { host_entity: u64 },
    /// Write the entity's local translation and mark its transform dirty.
    SetPosition { host_entity: u64, x_bits: u32, y_bits: u32, z_bits: u32 },
    /// Write the entity's local scale and mark its transform dirty.
    SetScale { host_entity: u64, x_bits: u32, y_bits: u32, z_bits: u32 },
    /// Write the entity's local rotation (quaternion, scalar last) and mark
    /// its transform dirty.
    SetRotation { host_entity: u64, x_bits: u32, y_bits: u32, z_bits: u32, w_bits: u32 },
    /// Read the entity's translation and answer through `position_reply`.
    ReadPosition { host_entity: u64, plugin_id: u64, request_id: u64, entity_id: u64 },
    /// Read the entity's scale and answer through `scale_reply`.
    ReadScale { host_entity: u64, plugin_id: u64, request_id: u64, entity_id: u64 },
    /// Read the entity's rotation and answer through `rotation_reply`.
    ReadRotation { host_entity: u64, plugin_id: u64, request_id: u64, entity_id: u64 },
    /// Send this event to this plugin.
    Reply { plugin_id: u64, event: EngineEvent },
    /// The raw path failed the sanitizer's first rule: warn, and send the
    /// typed error event to the plugin.
    RejectPath { plugin_id: u64, path: String, event: EngineEvent },
    /// Resolve the joined path through the filesystem and hand the result
    /// to `resolve_io`.
    ResolvePath { joined: String, pending: PendingIo },
    /// Rebuild the entity's material around this texture name.
    SetMaterial { host_entity: u64, texture_name: String },
    /// The command named an entity id that is not in the handle table.
    WarnUnknownEntity { plugin_id: u64, entity_id: u64 },
    /// The command named a texture id that was never recorded.
    WarnUnknownTexture { plugin_id: u64, texture_id: u64 },
}

/// What to do once the filesystem has resolved a sanitized path.
#[derive(Debug, PartialEq)]
pub enum IoDecision {
    /// Read the file on a worker and post a `File` result.
    StartFileJob { path: String, plugin_id: u64, request_id: u64 },
    /// Read and decode the image on a worker and post a `Texture` result.
    /// The texture id is allocated here, before the decode finishes.
    StartTextureJob {
        path: String,
        plugin_id: u64,
        request_id: u64,
        texture_id: u64,
        texture_name: String,
    },
    /// Import the scene file on a worker and post a `Prefab` result.
    StartPrefabJob {
        path: String,
        plugin_id: u64,
        request_id: u64,
        x_bits: u32,
        y_bits: u32,
        z_bits: u32,
    },
    /// The resolved path escaped the root, or resolution failed: send the
    /// typed error event to the plugin.
    Reject { plugin_id: u64, event: EngineEvent },
}

/// A decoded texture ready for upload.
#[derive(Debug, PartialEq)]
pub struct TexturePixels {
    pub rgba: Vec<u8>,
    pub width: u32,
    pub height: u32,
}

/// What the runtime needs to know of a decoded scene file: whether it
/// holds a prefab to instantiate, and the textures it carried, ready for
/// upload. The file's meshes stay with the shell's decoder — they are
/// engine-typed values that never cross this boundary.
#[derive(Debug, PartialEq)]
pub struct PrefabDecode {
    pub has_prefab: bool,
    pub textures: Vec<(String, TexturePixels)>,
}

/// One finished asset job, posted by a worker and drained on the main
/// thread once per frame.
#[derive(Debug, PartialEq)]
pub enum AsyncResult {
    File { plugin_id: u64, request_id: u64, result: Result<Vec<u8>, String> },
    Texture {
        plugin_id: u64,
        request_id: u64,
        texture_name: String,
        texture_id: u64,
        result: Result<TexturePixels, String>,
    },
    Prefab {
        plugin_id: u64,
        request_id: u64,
        x_bits: u32,
        y_bits: u32,
        z_bits: u32,
        result: Result<PrefabDecode, String>,
    },
}

/// What one asset result asks the host shell to do.
#[derive(Debug, PartialEq)]
pub enum AsyncDecision {
    /// Send this event to this plugin.
    Unicast { plugin_id: u64, event: EngineEvent },
    /// Queue the texture upload into the world, then send the event. The
    /// id-to-name record was made only now, on success.
    UploadTexture { plugin_id: u64, event: EngineEvent, name: String, pixels: TexturePixels },
    /// Queue the scene file's texture uploads, instantiate its first
    /// prefab at the requested position, then hand the new host entity to
    /// `on_prefab_spawned`.
    SpawnPrefab {
        plugin_id: u64,
        request_id: u64,
        x_bits: u32,
        y_bits: u32,
        z_bits: u32,
        uploads: Vec<(String, TexturePixels)>,
    },
    /// The scene file decoded but held no prefab: queue its texture
    /// uploads all the same, then send the typed error event.
    PrefabEmpty { plugin_id: u64, event: EngineEvent, uploads: Vec<(String, TexturePixels)> },
}

/// The broadcasts owed at the top of a frame, and whether the stale-handle
/// sweep is due.
#[derive(Debug, PartialEq)]
pub struct FramePlan {
    pub run_gc: bool,
    pub broadcasts: Vec<EngineEvent>,
}

/// The model of an event list.
pub open spec fn events_view(s: Seq<EngineEvent>) -> Seq<EngineEventV> {
    s.map_values(|e: EngineEvent| e@)
}

/// The plugin registry is sound: ids are unique, positive and below the
/// allocation cursor.
pub open spec fn plugins_wf(s: Seq<PluginMeta>, next: u64) -> bool {
    &&& forall|j: int, k: int| 0 <= j < k < s.len() ==> (#[trigger] s[j]).id != (#[trigger] s[k]).id
    &&& forall|j: int| 0 <= j < s.len() ==> 1 <= (#[trigger] s[j]).id < next
}

/// Whether some entry of the registry carries this id.
pub open spec fn has_plugin_in(s: Seq<PluginMeta>, id: u64) -> bool {
    exists|j: int| 0 <= j < s.len() && (#[trigger] s[j]).id == id
}

/// The texture name recorded for an id, if any; a later record for the
/// same id wins, as in the host's map.
pub open spec fn spec_texture_lookup(s: Seq<(u64, Seq<char>)>, id: u64) -> Option<Seq<char>>
    decreases s.len(),
{
    if s.len() == 0 {
        None
    } else if s.last().0 == id {
        Some(s.last().1)
    } else {
        spec_texture_lookup(s.drop_last(), id)
    }
}

/// The plugin runtime's decision state.
pub struct PluginRuntime {
    plugins: Vec<PluginMeta>,
    handles: HandleTable,
    texture_names: Vec<(u64, String)>,
    custom_outbox: Vec<(u64, Vec<u8>)>,
    pending_input_events: Vec<EngineEvent>,
    plugins_base_path: String,
    canonical_base_path: String,
    last_mouse_x_bits: u32,
    last_mouse_y_bits: u32,
    next_texture_id: u64,
    next_plugin_id: u64,
    frames_since_cleanup: u64,
}

impl PluginRuntime {
    pub closed spec fn plugins_v(&self) -> Seq<PluginMeta> {
        self.plugins@
    }

    pub closed spec fn handles_v(&self) -> Seq<(u64, u64)> {
        self.handles@
    }

    pub closed spec fn handles_next_id(&self) -> u64 {
        self.handles.spec_next_id()
    }

    pub closed spec fn textures_v(&self) -> Seq<(u64, Seq<char>)> {
        self.texture_names@.map_values(|p: (u64, String)| (p.0, p.1@))
    }

    pub closed spec fn outbox_v(&self) -> Seq<(u64, Seq<u8>)> {
        self.custom_outbox@.map_values(|p: (u64, Vec<u8>)| (p.0, p.1@))
    }

    pub closed spec fn pending_events_v(&self) -> Seq<EngineEventV> {
        events_view(self.pending_input_events@)
    }

    pub closed spec fn spec_base_path(&self) -> Seq<char> {
        self.plugins_base_path@
    }

    pub closed spec fn spec_canonical_base(&self) -> Seq<char> {
        self.canonical_base_path@
    }

    pub closed spec fn last_mouse(&self) -> (u32, u32) {
        (self.last_mouse_x_bits, self.last_mouse_y_bits)
    }

    pub closed spec fn spec_next_texture_id(&self) -> u64 {
        self.next_texture_id
    }

    pub closed spec fn spec_next_plugin_id(&self) -> u64 {
        self.next_plugin_id
    }

    pub closed spec fn spec_frames_since_cleanup(&self) -> u64 {
        self.frames_since_cleanup
    }

    /// Whether a plugin with this id is loaded.
    pub open spec fn spec_has_plugin(&self, id: u64) -> bool {
        has_plugin_in(self.plugins_v(), id)
    }

    /// The handle table's own well-formedness.
    pub closed spec fn handles_inv(&self) -> bool {
        self.handles.inv()
    }

    /// Well-formedness: the handle table is sound, and plugin ids are
    /// unique, positive and below the allocation cursor.
    pub open spec fn inv(&self) -> bool {
        &&& self.handles_inv()
        &&& self.handles_next_id() >= 1
        &&& self.spec_next_plugin_id() >= 1
        &&& self.spec_next_texture_id() >= 1
        &&& plugins_wf(self.plugins_v(), self.spec_next_plugin_id())
    }

    /// Everything but the handle table and the given frame fields.
    pub open spec fn core_unchanged(a: &PluginRuntime, b: &PluginRuntime) -> bool {
        &&& a.plugins_v() == b.plugins_v()
        &&& a.textures_v() == b.textures_v()
        &&& a.outbox_v() == b.outbox_v()
        &&& a.pending_events_v() == b.pending_events_v()
        &&& a.spec_base_path() == b.spec_base_path()
        &&& a.spec_canonical_base() == b.spec_canonical_base()
        &&& a.last_mouse() == b.last_mouse()
        &&& a.spec_next_texture_id() == b.spec_next_texture_id()
        &&& a.spec_next_plugin_id() == b.spec_next_plugin_id()
        &&& a.spec_frames_since_cleanup() == b.spec_frames_since_cleanup()
        &&& a.handles_next_id() == b.handles_next_id()
    }

    /// Nothing changed at all.
    pub open spec fn state_unchanged(a: &PluginRuntime, b: &PluginRuntime) -> bool {
        &&& Self::core_unchanged(a, b)
        &&& a.handles_v() == b.handles_v()
    }

    /// A fresh runtime over the given plugins directory and its canonical
    /// form (the host resolves the latter at startup, falling back to the
    /// raw path when resolution fails).
    pub fn new(plugins_base_path: String, canonical_base_path: String) -> (rt: PluginRuntime)
        ensures
            rt.inv(),
            rt.plugins_v() == Seq::<PluginMeta>::empty(),
            rt.handles_v() == Seq::<(u64, u64)>::empty(),
            rt.textures_v() =~= Seq::<(u64, Seq<char>)>::empty(),
            rt.outbox_v() =~= Seq::<(u64, Seq<u8>)>::empty(),
            rt.pending_events_v() =~= Seq::<EngineEventV>::empty(),
            rt.spec_base_path() == plugins_base_path@,
            rt.spec_canonical_base() == canonical_base_path@,
            rt.last_mouse() == (0u32, 0u32),
            rt.handles_next_id() == 1,
            rt.spec_next_texture_id() == 1,
            rt.spec_next_plugin_id() == 1,
            rt.spec_frames_since_cleanup() == 0,
    {
        PluginRuntime {
            plugins: Vec::new(),
            handles: HandleTable::new(),
            texture_names: Vec::new(),
            custom_outbox: Vec::new(),
            pending_input_events: Vec::new(),
            plugins_base_path,
            canonical_base_path,
            last_mouse_x_bits: 0,
            last_mouse_y_bits: 0,
            next_texture_id: 1,
            next_plugin_id: 1,
            frames_since_cleanup: 0,
        }
    }

    /// Records one successfully instantiated module and assigns it the
    /// next monotonic plugin id.
    pub fn register_plugin(&mut self, has_on_init: bool, has_on_frame: bool) -> (id: u64)
        requires
            old(self).inv(),
            old(self).spec_next_plugin_id() < u64::MAX,
        ensures
            final(self).inv(),
            id == old(self).spec_next_plugin_id(),
            final(self).plugins_v() == old(self).plugins_v().push(
                PluginMeta { id, has_on_init, has_on_frame },
            ),
            final(self).spec_next_plugin_id() == old(self).spec_next_plugin_id() + 1,
            final(self).handles_v() == old(self).handles_v(),
            final(self).handles_next_id() == old(self).handles_next_id(),
            final(self).textures_v() == old(self).textures_v(),
            final(self).outbox_v() == old(self).outbox_v(),
            final(self).pending_events_v() == old(self).pending_events_v(),
            final(self).spec_base_path() == old(self).spec_base_path(),
            final(self).spec_canonical_base() == old(self).spec_canonical_base(),
            final(self).last_mouse() == old(self).last_mouse(),
            final(self).spec_next_texture_id() == old(self).spec_next_texture_id(),
            final(self).spec_frames_since_cleanup() == old(self).spec_frames_since_cleanup(),
    {
        let id = self.next_plugin_id;
        self.plugins.push(PluginMeta { id, has_on_init, has_on_frame });
        self.next_plugin_id = self.next_plugin_id + 1;
        proof {
            let t = self.plugins@;
            let sv = old(self).plugins@;
            assert(plugins_wf(sv, id));
            assert(forall|j: int| 0 <= j < sv.len() ==> t[j] == sv[j]);
            assert(t[t.len() - 1].id == id);
            assert forall|j: int, k: int| 0 <= j < k < t.len() implies (#[trigger] t[j]).id != (
            #[trigger] t[k]).id by {
                if k == t.len() - 1 {
                    assert(t[j] == sv[j]);
                    assert(1 <= sv[j].id < id);
                }
            }
            assert forall|j: int| 0 <= j < t.len() implies 1 <= (#[trigger] t[j]).id
                < self.next_plugin_id by {
                if j < t.len() - 1 {
                    assert(t[j] == sv[j]);
                    assert(1 <= sv[j].id < id);
                }
            }
        }
        id
    }

    /// How many plugins are loaded.
    pub fn plugin_count(&self) -> (n: usize)
        ensures
            n == self.plugins_v().len(),
    {
        self.plugins.len()
    }

    /// The registry entry at an index, in load order.
    pub fn plugin_at(&self, j: usize) -> (m: PluginMeta)
        requires
            j < self.plugins_v().len(),
        ensures
            m == self.plugins_v()[j as int],
    {
        self.plugins[j]
    }

    /// Whether a plugin with this id is loaded; an event sent to an
    /// unknown id is dropped with a warning.
    pub fn has_plugin(&self, id: u64) -> (r: bool)
        ensures
            r == self.spec_has_plugin(id),
    {
        let mut j: usize = 0;
        while j < self.plugins.len()
            invariant
                j <= self.plugins_v().len(),
                forall|k: int| 0 <= k < j ==> (#[trigger] self.plugins_v()[k]).id != id,
            decreases self.plugins_v().len() - j,
        {
            if self.plugins[j].id == id {
                return true;
            }
            j = j + 1;
        }
        proof {
            if self.spec_has_plugin(id) {
                let k = choose|k: int|
                    0 <= k < self.plugins_v().len() && (#[trigger] self.plugins_v()[k]).id == id;
            }
        }
        false
    }

    /// The entity behind a plugin-facing id.
    pub fn lookup_entity(&self, id: u64) -> (r: Option<u64>)
        ensures
            r == spec_lookup(self.handles_v(), id),
    {
        self.handles.lookup(id)
    }

    /// How many ids the handle table holds.
    pub fn handle_count(&self) -> (n: usize)
        ensures
            n == self.handles_v().len(),
    {
        self.handles.len()
    }

    /// The next plugin id the registry will assign.
    pub fn next_plugin_id(&self) -> (id: u64)
        ensures
            id == self.spec_next_plugin_id(),
    {
        self.next_plugin_id
    }

    /// The next texture id the resolver will allocate.
    pub fn next_texture_id(&self) -> (id: u64)
        ensures
            id == self.spec_next_texture_id(),
    {
        self.next_texture_id
    }

    /// The next entity handle the table will allocate.
    pub fn next_handle_id(&self) -> (id: u64)
        ensures
            id == self.handles_next_id(),
    {
        self.handles.next_id()
    }

    /// How many frames have passed since the last stale-handle sweep.
    pub fn frames_since_cleanup(&self) -> (n: u64)
        ensures
            n == self.spec_frames_since_cleanup(),
    {
        self.frames_since_cleanup
    }

    /// The name recorded for a texture id, if its decode succeeded.
    pub fn texture_name(&self, id: u64) -> (r: Option<String>)
        ensures
            r matches Some(s) ==> spec_texture_lookup(self.textures_v(), id) == Some(s@),
            r is None ==> spec_texture_lookup(self.textures_v(), id) is None,
    {
        proof {
            assert(self.textures_v().take(self.textures_v().len() as int) =~= self.textures_v());
        }
        let mut j: usize = self.texture_names.len();
        while j > 0
            invariant
                j <= self.texture_names@.len(),
                self.textures_v().len() == self.texture_names@.len(),
                forall|k: int|
                    0 <= k < self.texture_names@.len() ==> #[trigger] self.textures_v()[k] == (
                    self.texture_names@[k].0, self.texture_names@[k].1@),
                spec_texture_lookup(self.textures_v(), id) == spec_texture_lookup(
                    self.textures_v().take(j as int),
                    id,
                ),
            decreases j,
        {
            j = j - 1;
            proof {
                assert(self.textures_v().take(j + 1 as int).last() == self.textures_v()[j as int]);
                assert(self.textures_v().take(j + 1 as int).drop_last() =~= self.textures_v().take(
                    j as int,
                ));
            }
            if self.texture_names[j].0 == id {
                return Some(self.texture_names[j].1.clone());
            }
        }
        proof {
            assert(self.textures_v().take(0) =~= Seq::<(u64, Seq<char>)>::empty());
        }
        None
    }

    /// Queues a keyboard event for delivery at the next frame's start.
    pub fn queue_keyboard_event(&mut self, key_code: u32, pressed: bool)
        ensures
            Self::core_unchanged_but_pending(old(self), final(self)),
            final(self).pending_events_v() == old(self).pending_events_v().push(
                if pressed {
                    EngineEventV::KeyPressed { key_code }
                } else {
                    EngineEventV::KeyReleased { key_code }
                },
            ),
    {
        let event = if pressed {
            EngineEvent::KeyPressed { key_code }
        } else {
            EngineEvent::KeyReleased { key_code }
        };
        self.pending_input_events.push(event);
        proof {
            assert(self.pending_events_v() =~= old(self).pending_events_v().push(
                if pressed {
                    EngineEventV::KeyPressed { key_code }
                } else {
                    EngineEventV::KeyReleased { key_code }
                },
            ));
        }
    }

    /// Queues a mouse button event for delivery at the next frame's start.
    pub fn queue_mouse_event(&mut self, pressed: bool, button: MouseButton)
        ensures
            Self::core_unchanged_but_pending(old(self), final(self)),
            final(self).pending_events_v() == old(self).pending_events_v().push(
                if pressed {
                    EngineEventV::MouseButtonPressed { button: mouse_button_code(button) }
                } else {
                    EngineEventV::MouseButtonReleased { button: mouse_button_code(button) }
                },
            ),
    {
        let code: u32 = match button {
            MouseButton::Left => 0,
            MouseButton::Right => 1,
            MouseButton::Middle => 2,
            MouseButton::Back => 3,
            MouseButton::Forward => 4,
            MouseButton::Other(id) => id as u32 + 5,
        };
        let event = if pressed {
            EngineEvent::MouseButtonPressed { button: code }
        } else {
            EngineEvent::MouseButtonReleased { button: code }
        };
        self.pending_input_events.push(event);
        proof {
            assert(self.pending_events_v() =~= old(self).pending_events_v().push(
                if pressed {
                    EngineEventV::MouseButtonPressed { button: mouse_button_code(button) }
                } else {
                    EngineEventV::MouseButtonReleased { button: mouse_button_code(button) }
                },
            ));
        }
    }

    /// Everything except the pending input queue is unchanged, the
    /// invariant included.
    pub open spec fn core_unchanged_but_pending(a: &PluginRuntime, b: &PluginRuntime) -> bool {
        &&& a.inv() ==> b.inv()
        &&& a.plugins_v() == b.plugins_v()
        &&& a.handles_v() == b.handles_v()
        &&& a.handles_next_id() == b.handles_next_id()
        &&& a.textures_v() == b.textures_v()
        &&& a.outbox_v() == b.outbox_v()
        &&& a.spec_base_path() == b.spec_base_path()
        &&& a.spec_canonical_base() == b.spec_canonical_base()
        &&& a.last_mouse() == b.last_mouse()
        &&& a.spec_next_texture_id() == b.spec_next_texture_id()
        &&& a.spec_next_plugin_id() == b.spec_next_plugin_id()
        &&& a.spec_frames_since_cleanup() == b.spec_frames_since_cleanup()
    }

    /// Opens a frame: says whether the stale-handle sweep is due, empties
    /// the input queue, and lists the broadcasts owed, in order — every
    /// queued input event exactly once, then the frame-start event, then a
    /// mouse-move event exactly when the position changed.
    pub fn begin_frame(
        &mut self,
        delta_time_bits: u32,
        frame_count: u64,
        mouse_x_bits: u32,
        mouse_y_bits: u32,
    ) -> (plan: FramePlan)
        requires
            old(self).inv(),
            old(self).spec_frames_since_cleanup() < u64::MAX,
        ensures
            final(self).inv(),
            final(self).plugins_v() == old(self).plugins_v(),
            final(self).handles_v() == old(self).handles_v(),
            final(self).handles_next_id() == old(self).handles_next_id(),
            final(self).textures_v() == old(self).textures_v(),
            final(self).outbox_v() == old(self).outbox_v(),
            final(self).spec_base_path() == old(self).spec_base_path(),
            final(self).spec_canonical_base() == old(self).spec_canonical_base(),
            final(self).spec_next_texture_id() == old(self).spec_next_texture_id(),
            final(self).spec_next_plugin_id() == old(self).spec_next_plugin_id(),
            final(self).pending_events_v() == Seq::<EngineEventV>::empty(),
            final(self).last_mouse() == (mouse_x_bits, mouse_y_bits),
            plan.run_gc == (old(self).spec_frames_since_cleanup() + 1 >= CLEANUP_INTERVAL_FRAMES),
            final(self).spec_frames_since_cleanup() == (if plan.run_gc {
                0u64
            } else {
                (old(self).spec_frames_since_cleanup() + 1) as u64
            }),
            events_view(plan.broadcasts@) == old(self).pending_events_v() + seq![
                EngineEventV::FrameStart { delta_time_bits, frame_count },
            ] + (if (mouse_x_bits, mouse_y_bits) != old(self).last_mouse() {
                seq![EngineEventV::MouseMoved { x_bits: mouse_x_bits, y_bits: mouse_y_bits }]
            } else {
                Seq::<EngineEventV>::empty()
            }),
    {
        self.frames_since_cleanup = self.frames_since_cleanup + 1;
        let run_gc = self.frames_since_cleanup >= CLEANUP_INTERVAL_FRAMES;
        if run_gc {
            self.frames_since_cleanup = 0;
        }
        let mut broadcasts: Vec<EngineEvent> = Vec::new();
        core::mem::swap(&mut broadcasts, &mut self.pending_input_events);
        broadcasts.push(EngineEvent::FrameStart { delta_time_bits, frame_count });
        let moved = mouse_x_bits != self.last_mouse_x_bits || mouse_y_bits
            != self.last_mouse_y_bits;
        if moved {
            broadcasts.push(EngineEvent::MouseMoved { x_bits: mouse_x_bits, y_bits: mouse_y_bits });
        }
        self.last_mouse_x_bits = mouse_x_bits;
        self.last_mouse_y_bits = mouse_y_bits;
        proof {
            assert(self.pending_events_v() =~= Seq::<EngineEventV>::empty());
            if moved {
                assert(events_view(broadcasts@) =~= old(self).pending_events_v() + seq![
                    EngineEventV::FrameStart { delta_time_bits, frame_count },
                ] + seq![
                    EngineEventV::MouseMoved { x_bits: mouse_x_bits, y_bits: mouse_y_bits },
                ]);
            } else {
                assert(events_view(broadcasts@) =~= old(self).pending_events_v() + seq![
                    EngineEventV::FrameStart { delta_time_bits, frame_count },
                ] + Seq::<EngineEventV>::empty());
            }
        }
        FramePlan { run_gc, broadcasts }
    }

    /// Runs the stale-handle sweep against the set of host entities the
    /// world still vouches for; returns how many ids were dropped, for the
    /// host's log line. Every surviving id maps to a vouched-for entity.
    pub fn gc_entities(&mut self, valid: &Vec<u64>) -> (removed: usize)
        requires
            old(self).inv(),
        ensures
            final(self).inv(),
            Self::core_unchanged(old(self), final(self)),
            final(self).handles_v() == spec_keep_valid(old(self).handles_v(), valid@),
            removed == old(self).handles_v().len() - final(self).handles_v().len(),
            forall|k: int|
                0 <= k < final(self).handles_v().len() ==> valid@.contains(
                    (#[trigger] final(self).handles_v()[k]).1,
                ),
            forall|id: u64|
                #[trigger] spec_lookup(final(self).handles_v(), id) == (match spec_lookup(
                    old(self).handles_v(),
                    id,
                ) {
                    Some(e) => if valid@.contains(e) {
                        Some(e)
                    } else {
                        None
                    },
                    None => None::<u64>,
                }),
    {
        self.handles.gc(valid)
    }

    /// Records one opaque custom-channel payload a guest pushed through a
    /// host-registered import.
    pub fn push_custom_command(&mut self, plugin_id: u64, bytes: Vec<u8>)
        requires
            old(self).inv(),
        ensures
            final(self).inv(),
            final(self).outbox_v() == old(self).outbox_v().push((plugin_id, bytes@)),
            final(self).plugins_v() == old(self).plugins_v(),
            final(self).handles_v() == old(self).handles_v(),
            final(self).handles_next_id() == old(self).handles_next_id(),
            final(self).textures_v() == old(self).textures_v(),
            final(self).pending_events_v() == old(self).pending_events_v(),
            final(self).spec_base_path() == old(self).spec_base_path(),
            final(self).spec_canonical_base() == old(self).spec_canonical_base(),
            final(self).last_mouse() == old(self).last_mouse(),
            final(self).spec_next_texture_id() == old(self).spec_next_texture_id(),
            final(self).spec_next_plugin_id() == old(self).spec_next_plugin_id(),
            final(self).spec_frames_since_cleanup() == old(self).spec_frames_since_cleanup(),
    {
        self.custom_outbox.push((plugin_id, bytes));
        proof {
            assert(self.outbox_v() =~= old(self).outbox_v().push((plugin_id, bytes@)));
        }
    }

    /// Decides what one guest command asks for. This is the whole of the
    /// command-handling policy: which commands touch the handle table,
    /// which are answered at once, which go to the filesystem or the
    /// world, and what happens for an unknown id. Only a despawn changes
    /// the runtime's own state here.
    pub fn handle_command(&mut self, plugin_id: u64, cmd: EngineCommand) -> (d: Decision)
        requires
            old(self).inv(),
        ensures
            final(self).inv(),
            Self::frame_unchanged_except_handles(old(self), final(self)),
            final(self).handles_next_id() == old(self).handles_next_id(),
            !(cmd@ matches EngineCommandV::DespawnEntity { .. }) ==> final(self).handles_v() == old(self).handles_v(),
            cmd@ matches EngineCommandV::Log { message } ==> (d matches Decision::LogMessage {
                plugin_id: p,
                message: m,
            } && p == plugin_id && m@ == message),
            cmd@ matches EngineCommandV::SpawnPrimitive {
                primitive,
                x_bits,
                y_bits,
                z_bits,
                request_id,
            } ==> (d matches Decision::SpawnPrimitive {
                plugin_id: p,
                request_id: r,
                primitive: pr,
                x_bits: x,
                y_bits: y,
                z_bits: z,
            } && p == plugin_id && r == request_id && pr == primitive && x == x_bits && y == y_bits
                && z == z_bits),
            cmd@ matches EngineCommandV::DespawnEntity { entity_id } ==> (match spec_lookup(
                old(self).handles_v(),
                entity_id,
            ) {
                Some(e) => (d matches Decision::DespawnEntity { host_entity } && host_entity == e)
                    && final(self).handles_v() == spec_remove_id(old(self).handles_v(), entity_id)
                    && spec_lookup(final(self).handles_v(), entity_id) is None,
                None => (d matches Decision::WarnUnknownEntity { plugin_id: p, entity_id: eid }
                    && p == plugin_id && eid == entity_id) && final(self).handles_v() == old(self).handles_v(),
            }),
            cmd@ matches EngineCommandV::SetEntityPosition { entity_id, x_bits, y_bits, z_bits }
                ==> (match spec_lookup(old(self).handles_v(), entity_id) {
                Some(e) => d matches Decision::SetPosition {
                    host_entity,
                    x_bits: x,
                    y_bits: y,
                    z_bits: z,
                } && host_entity == e && x == x_bits && y == y_bits && z == z_bits,
                None => d matches Decision::WarnUnknownEntity { plugin_id: p, entity_id: eid }
                    && p == plugin_id && eid == entity_id,
            }),
            cmd@ matches EngineCommandV::SetEntityScale { entity_id, x_bits, y_bits, z_bits } ==> (
            match spec_lookup(old(self).handles_v(), entity_id) {
                Some(e) => d matches Decision::SetScale {
                    host_entity,
                    x_bits: x,
                    y_bits: y,
                    z_bits: z,
                } && host_entity == e && x == x_bits && y == y_bits && z == z_bits,
                None => d matches Decision::WarnUnknownEntity { plugin_id: p, entity_id: eid }
                    && p == plugin_id && eid == entity_id,
            }),
            cmd@ matches EngineCommandV::SetEntityRotation {
                entity_id,
                x_bits,
                y_bits,
                z_bits,
                w_bits,
            } ==> (match spec_lookup(old(self).handles_v(), entity_id) {
                Some(e) => d matches Decision::SetRotation {
                    host_entity,
                    x_bits: x,
                    y_bits: y,
                    z_bits: z,
                    w_bits: w,
                } && host_entity == e && x == x_bits && y == y_bits && z == z_bits && w == w_bits,
                None => d matches Decision::WarnUnknownEntity { plugin_id: p, entity_id: eid }
                    && p == plugin_id && eid == entity_id,
            }),
            cmd@ matches EngineCommandV::GetEntityPosition { entity_id, request_id } ==> (
            match spec_lookup(old(self).handles_v(), entity_id) {
                Some(e) => d matches Decision::ReadPosition {
                    host_entity,
                    plugin_id: p,
                    request_id: r,
                    entity_id: eid,
                } && host_entity == e && p == plugin_id && r == request_id && eid == entity_id,
                None => d matches Decision::Reply { plugin_id: p, event } && p == plugin_id && (
                event@ matches EngineEventV::EntityNotFound { request_id: r, entity_id: eid } && r
                    == request_id && eid == entity_id),
            }),
            cmd@ matches EngineCommandV::GetEntityScale { entity_id, request_id } ==> (
            match spec_lookup(old(self).handles_v(), entity_id) {
                Some(e) => d matches Decision::ReadScale {
                    host_entity,
                    plugin_id: p,
                    request_id: r,
                    entity_id: eid,
                } && host_entity == e && p == plugin_id && r == request_id && eid == entity_id,
                None => d matches Decision::Reply { plugin_id: p, event } && p == plugin_id && (
                event@ matches EngineEventV::EntityNotFound { request_id: r, entity_id: eid } && r
                    == request_id && eid == entity_id),
            }),
            cmd@ matches EngineCommandV::GetEntityRotation { entity_id, request_id } ==> (
            match spec_lookup(old(self).handles_v(), entity_id) {
                Some(e) => d matches Decision::ReadRotation {
                    host_entity,
                    plugin_id: p,
                    request_id: r,
                    entity_id: eid,
                } && host_entity == e && p == plugin_id && r == request_id && eid == entity_id,
                None => d matches Decision::Reply { plugin_id: p, event } && p == plugin_id && (
                event@ matches EngineEventV::EntityNotFound { request_id: r, entity_id: eid } && r
                    == request_id && eid == entity_id),
            }),
            cmd@ matches EngineCommandV::ReadFile { path, request_id } ==> (if guest_path_ok(
                path,
            ) {
                d matches Decision::ResolvePath { joined, pending } && joined@ == spec_join(
                    old(self).spec_base_path(),
                    path,
                ) && (pending matches PendingIo::File { plugin_id: p, request_id: r } && p
                    == plugin_id && r == request_id)
            } else {
                d matches Decision::RejectPath { plugin_id: p, path: pp, event } && p == plugin_id
                    && pp@ == path && (event@ matches EngineEventV::FileError {
                    request_id: r,
                    error,
                } && r == request_id && error == "Invalid path: access denied"@)
            }),
            cmd@ matches EngineCommandV::LoadTexture { path, request_id } ==> (if guest_path_ok(
                path,
            ) {
                d matches Decision::ResolvePath { joined, pending } && joined@ == spec_join(
                    old(self).spec_base_path(),
                    path,
                ) && (pending matches PendingIo::Texture {
                    plugin_id: p,
                    request_id: r,
                    texture_name,
                } && p == plugin_id && r == request_id && texture_name@ == path)
            } else {
                d matches Decision::RejectPath { plugin_id: p, path: pp, event } && p == plugin_id
                    && pp@ == path && (event@ matches EngineEventV::AssetError {
                    request_id: r,
                    error,
                } && r == request_id && error == "Invalid path: access denied"@)
            }),
            cmd@ matches EngineCommandV::LoadPrefab {
                path,
                x_bits,
                y_bits,
                z_bits,
                request_id,
            } ==> (if guest_path_ok(path) {
                d matches Decision::ResolvePath { joined, pending } && joined@ == spec_join(
                    old(self).spec_base_path(),
                    path,
                ) && (pending matches PendingIo::Prefab {
                    plugin_id: p,
                    request_id: r,
                    x_bits: x,
                    y_bits: y,
                    z_bits: z,
                } && p == plugin_id && r == request_id && x == x_bits && y == y_bits && z
                    == z_bits)
            } else {
                d matches Decision::RejectPath { plugin_id: p, path: pp, event } && p == plugin_id
                    && pp@ == path && (event@ matches EngineEventV::AssetError {
                    request_id: r,
                    error,
                } && r == request_id && error == "Invalid path: access denied"@)
            }),
            cmd@ matches EngineCommandV::SetEntityMaterial { entity_id, texture_id } ==> (
            match spec_lookup(old(self).handles_v(), entity_id) {
                Some(e) => match spec_texture_lookup(old(self).textures_v(), texture_id) {
                    Some(name) => d matches Decision::SetMaterial { host_entity, texture_name }
                        && host_entity == e && texture_name@ == name,
                    None => d matches Decision::WarnUnknownTexture { plugin_id: p, texture_id: t }
                        && p == plugin_id && t == texture_id,
                },
                None => d matches Decision::WarnUnknownEntity { plugin_id: p, entity_id: eid } && p
                    == plugin_id && eid == entity_id,
            }),
    {
        match cmd {
            EngineCommand::Log { message } => Decision::LogMessage { plugin_id, message },
            EngineCommand::SpawnPrimitive { primitive, x_bits, y_bits, z_bits, request_id } => {
                Decision::SpawnPrimitive {
                    plugin_id,
                    request_id,
                    primitive,
                    x_bits,
                    y_bits,
                    z_bits,
                }
            },
            EngineCommand::DespawnEntity { entity_id } => {
                match self.handles.lookup(entity_id) {
                    Some(host_entity) => {
                        self.handles.unregister(entity_id);
                        Decision::DespawnEntity { host_entity }
                    },
                    None => Decision::WarnUnknownEntity { plugin_id, entity_id },
                }
            },
            EngineCommand::SetEntityPosition { entity_id, x_bits, y_bits, z_bits } => {
                match self.handles.lookup(entity_id) {
                    Some(host_entity) => Decision::SetPosition {
                        host_entity,
                        x_bits,
                        y_bits,
                        z_bits,
                    },
                    None => Decision::WarnUnknownEntity { plugin_id, entity_id },
                }
            },
            EngineCommand::SetEntityScale { entity_id, x_bits, y_bits, z_bits } => {
                match self.handles.lookup(entity_id) {
                    Some(host_entity) => Decision::SetScale { host_entity, x_bits, y_bits, z_bits },
                    None => Decision::WarnUnknownEntity { plugin_id, entity_id },
                }
            },
            EngineCommand::SetEntityRotation { entity_id, x_bits, y_bits, z_bits, w_bits } => {
                match self.handles.lookup(entity_id) {
                    Some(host_entity) => Decision::SetRotation {
                        host_entity,
                        x_bits,
                        y_bits,
                        z_bits,
                        w_bits,
                    },
                    None => Decision::WarnUnknownEntity { plugin_id, entity_id },
                }
            },
            EngineCommand::GetEntityPosition { entity_id, request_id } => {
                match self.handles.lookup(entity_id) {
                    Some(host_entity) => Decision::ReadPosition {
                        host_entity,
                        plugin_id,
                        request_id,
                        entity_id,
                    },
                    None => Decision::Reply {
                        plugin_id,
                        event: EngineEvent::EntityNotFound { request_id, entity_id },
                    },
                }
            },
            EngineCommand::GetEntityScale { entity_id, request_id } => {
                match self.handles.lookup(entity_id) {
                    Some(host_entity) => Decision::ReadScale {
                        host_entity,
                        plugin_id,
                        request_id,
                        entity_id,
                    },
                    None => Decision::Reply {
                        plugin_id,
                        event: EngineEvent::EntityNotFound { request_id, entity_id },
                    },
                }
            },
            EngineCommand::GetEntityRotation { entity_id, request_id } => {
                match self.handles.lookup(entity_id) {
                    Some(host_entity) => Decision::ReadRotation {
                        host_entity,
                        plugin_id,
                        request_id,
                        entity_id,
                    },
                    None => Decision::Reply {
                        plugin_id,
                        event: EngineEvent::EntityNotFound { request_id, entity_id },
                    },
                }
            },
            EngineCommand::ReadFile { path, request_id } => {
                if check_guest_path(path.as_str()) {
                    let joined = join_path(self.plugins_base_path.as_str(), path.as_str());
                    Decision::ResolvePath {
                        joined,
                        pending: PendingIo::File { plugin_id, request_id },
                    }
                } else {
                    Decision::RejectPath {
                        plugin_id,
                        path,
                        event: EngineEvent::FileError {
                            request_id,
                            error: String::from_str("Invalid path: access denied"),
                        },
                    }
                }
            },
            EngineCommand::LoadTexture { path, request_id } => {
                if check_guest_path(path.as_str()) {
                    let joined = join_path(self.plugins_base_path.as_str(), path.as_str());
                    Decision::ResolvePath {
                        joined,
                        pending: PendingIo::Texture { plugin_id, request_id, texture_name: path },
                    }
                } else {
                    Decision::RejectPath {
                        plugin_id,
                        path,
                        event: EngineEvent::AssetError {
                            request_id,
                            error: String::from_str("Invalid path: access denied"),
                        },
                    }
                }
            },
            EngineCommand::LoadPrefab { path, x_bits, y_bits, z_bits, request_id } => {
                if check_guest_path(path.as_str()) {
                    let joined = join_path(self.plugins_base_path.as_str(), path.as_str());
                    Decision::ResolvePath {
                        joined,
                        pending: PendingIo::Prefab {
                            plugin_id,
                            request_id,
                            x_bits,
                            y_bits,
                            z_bits,
                        },
                    }
                } else {
                    Decision::RejectPath {
                        plugin_id,
                        path,
                        event: EngineEvent::AssetError {
                            request_id,
                            error: String::from_str("Invalid path: access denied"),
                        },
                    }
                }
            },
            EngineCommand::SetEntityMaterial { entity_id, texture_id } => {
                match self.handles.lookup(entity_id) {
                    Some(host_entity) => {
                        match self.texture_name(texture_id) {
                            Some(texture_name) => Decision::SetMaterial {
                                host_entity,
                                texture_name,
                            },
                            None => Decision::WarnUnknownTexture { plugin_id, texture_id },
                        }
                    },
                    None => Decision::WarnUnknownEntity { plugin_id, entity_id },
                }
            },
        }
    }

    /// Everything except the handle table is unchanged.
    pub open spec fn frame_unchanged_except_handles(a: &PluginRuntime, b: &PluginRuntime) -> bool {
        &&& a.plugins_v() == b.plugins_v()
        &&& a.textures_v() == b.textures_v()
        &&& a.outbox_v() == b.outbox_v()
        &&& a.pending_events_v() == b.pending_events_v()
        &&& a.spec_base_path() == b.spec_base_path()
        &&& a.spec_canonical_base() == b.spec_canonical_base()
        &&& a.last_mouse() == b.last_mouse()
        &&& a.spec_next_texture_id() == b.spec_next_texture_id()
        &&& a.spec_next_plugin_id() == b.spec_next_plugin_id()
        &&& a.spec_frames_since_cleanup() == b.spec_frames_since_cleanup()
    }

    /// Applies the filesystem's answer for a sanitized path: starts the
    /// matching worker job, or sends the typed error. A texture id is
    /// allocated here, synchronously, before the decode begins; the
    /// id-to-name record is made only if the decode later succeeds.
    pub fn resolve_io(&mut self, pending: PendingIo, canonical: Option<String>) -> (d: IoDecision)
        requires
            old(self).inv(),
            old(self).spec_next_texture_id() < u64::MAX,
        ensures
            final(self).inv(),
            final(self).handles_v() == old(self).handles_v(),
            final(self).handles_next_id() == old(self).handles_next_id(),
            final(self).plugins_v() == old(self).plugins_v(),
            final(self).textures_v() == old(self).textures_v(),
            final(self).outbox_v() == old(self).outbox_v(),
            final(self).pending_events_v() == old(self).pending_events_v(),
            final(self).spec_base_path() == old(self).spec_base_path(),
            final(self).spec_canonical_base() == old(self).spec_canonical_base(),
            final(self).last_mouse() == old(self).last_mouse(),
            final(self).spec_next_plugin_id() == old(self).spec_next_plugin_id(),
            final(self).spec_frames_since_cleanup() == old(self).spec_frames_since_cleanup(),
            pending matches PendingIo::File { plugin_id, request_id } ==> final(self).spec_next_texture_id() == old(self).spec_next_texture_id() && (match canonical {
                Some(q) => if spec_under_root(q@, old(self).spec_canonical_base()) {
                    d matches IoDecision::StartFileJob { path, plugin_id: p, request_id: r }
                        && path@ == q@ && p == plugin_id && r == request_id
                } else {
                    rejects_with_file_error(&d, plugin_id, request_id)
                },
                None => rejects_with_file_error(&d, plugin_id, request_id),
            }),
            pending matches PendingIo::Texture { plugin_id, request_id, texture_name } ==> (
            match canonical {
                Some(q) => if spec_under_root(q@, old(self).spec_canonical_base()) {
                    (d matches IoDecision::StartTextureJob {
                        path,
                        plugin_id: p,
                        request_id: r,
                        texture_id,
                        texture_name: n,
                    } && path@ == q@ && p == plugin_id && r == request_id && texture_id == old(self).spec_next_texture_id() && n@ == texture_name@) && final(self).spec_next_texture_id() == old(self).spec_next_texture_id() + 1
                } else {
                    rejects_with_asset_error(&d, plugin_id, request_id) && final(self).spec_next_texture_id() == old(self).spec_next_texture_id()
                },
                None => rejects_with_asset_error(&d, plugin_id, request_id) && final(self).spec_next_texture_id() == old(self).spec_next_texture_id(),
            }),
            pending matches PendingIo::Prefab { plugin_id, request_id, x_bits, y_bits, z_bits }
                ==> final(self).spec_next_texture_id() == old(self).spec_next_texture_id() && (
            match canonical {
                Some(q) => if spec_under_root(q@, old(self).spec_canonical_base()) {
                    d matches IoDecision::StartPrefabJob {
                        path,
                        plugin_id: p,
                        request_id: r,
                        x_bits: x,
                        y_bits: y,
                        z_bits: z,
                    } && path@ == q@ && p == plugin_id && r == request_id && x == x_bits && y
                        == y_bits && z == z_bits
                } else {
                    rejects_with_asset_error(&d, plugin_id, request_id)
                },
                None => rejects_with_asset_error(&d, plugin_id, request_id),
            }),
    {
        match pending {
            PendingIo::File { plugin_id, request_id } => {
                match canonical {
                    Some(q) => {
                        if is_under_root(q.as_str(), self.canonical_base_path.as_str()) {
                            IoDecision::StartFileJob { path: q, plugin_id, request_id }
                        } else {
                            IoDecision::Reject {
                                plugin_id,
                                event: EngineEvent::FileError {
                                    request_id,
                                    error: String::from_str("Invalid path: access denied"),
                                },
                            }
                        }
                    },
                    None => IoDecision::Reject {
                        plugin_id,
                        event: EngineEvent::FileError {
                            request_id,
                            error: String::from_str("Invalid path: access denied"),
                        },
                    },
                }
            },
            PendingIo::Texture { plugin_id, request_id, texture_name } => {
                match canonical {
                    Some(q) => {
                        if is_under_root(q.as_str(), self.canonical_base_path.as_str()) {
                            let texture_id = self.next_texture_id;
                            self.next_texture_id = self.next_texture_id + 1;
                            IoDecision::StartTextureJob {
                                path: q,
                                plugin_id,
                                request_id,
                                texture_id,
                                texture_name,
                            }
                        } else {
                            IoDecision::Reject {
                                plugin_id,
                                event: EngineEvent::AssetError {
                                    request_id,
                                    error: String::from_str("Invalid path: access denied"),
                                },
                            }
                        }
                    },
                    None => IoDecision::Reject {
                        plugin_id,
                        event: EngineEvent::AssetError {
                            request_id,
                            error: String::from_str("Invalid path: access denied"),
                        },
                    },
                }
            },
            PendingIo::Prefab { plugin_id, request_id, x_bits, y_bits, z_bits } => {
                match canonical {
                    Some(q) => {
                        if is_under_root(q.as_str(), self.canonical_base_path.as_str()) {
                            IoDecision::StartPrefabJob {
                                path: q,
                                plugin_id,
                                request_id,
                                x_bits,
                                y_bits,
                                z_bits,
                            }
                        } else {
                            IoDecision::Reject {
                                plugin_id,
                                event: EngineEvent::AssetError {
                                    request_id,
                                    error: String::from_str("Invalid path: access denied"),
                                },
                            }
                        }
                    },
                    None => IoDecision::Reject {
                        plugin_id,
                        event: EngineEvent::AssetError {
                            request_id,
                            error: String::from_str("Invalid path: access denied"),
                        },
                    },
                }
            },
        }
    }

    /// Records a primitive the world just spawned for a guest: the entity
    /// gets a plugin-facing id (an already-mapped entity keeps its id) and
    /// the reply event echoes the guest's request id.
    pub fn on_primitive_spawned(&mut self, plugin_id: u64, request_id: u64, host_entity: u64) -> (out: (
        u64,
        EngineEvent,
    ))
        requires
            old(self).inv(),
            old(self).handles_next_id() < u64::MAX,
        ensures
            final(self).inv(),
            Self::frame_unchanged_except_handles(old(self), final(self)),
            spec_lookup(final(self).handles_v(), out.0) == Some(host_entity),
            out.1@ == (EngineEventV::EntitySpawned { request_id, entity_id: out.0 }),
            crate::handles::spec_reverse_lookup(old(self).handles_v(), host_entity) matches Some(i)
                ==> out.0 == i && final(self).handles_v() == old(self).handles_v() && final(self).handles_next_id() == old(self).handles_next_id(),
            crate::handles::spec_reverse_lookup(old(self).handles_v(), host_entity) is None ==> out.0
                == old(self).handles_next_id() && final(self).handles_v() == old(self).handles_v().push((out.0, host_entity)) && final(self).handles_next_id() == old(self).handles_next_id() + 1,
            forall|o: u64|
                o != out.0 ==> spec_lookup(final(self).handles_v(), o) == spec_lookup(
                    old(self).handles_v(),
                    o,
                ),
    {
        let entity_id = self.handles.register(host_entity);
        (entity_id, EngineEvent::EntitySpawned { request_id, entity_id })
    }

    /// Records the entity a prefab instantiation produced, exactly as
    /// `on_primitive_spawned` does, and builds the prefab reply.
    pub fn on_prefab_spawned(&mut self, plugin_id: u64, request_id: u64, host_entity: u64) -> (out: (
        u64,
        EngineEvent,
    ))
        requires
            old(self).inv(),
            old(self).handles_next_id() < u64::MAX,
        ensures
            final(self).inv(),
            Self::frame_unchanged_except_handles(old(self), final(self)),
            spec_lookup(final(self).handles_v(), out.0) == Some(host_entity),
            out.1@ == (EngineEventV::PrefabLoaded { request_id, entity_id: out.0 }),
            crate::handles::spec_reverse_lookup(old(self).handles_v(), host_entity) matches Some(i)
                ==> out.0 == i && final(self).handles_v() == old(self).handles_v() && final(self).handles_next_id() == old(self).handles_next_id(),
            crate::handles::spec_reverse_lookup(old(self).handles_v(), host_entity) is None ==> out.0
                == old(self).handles_next_id() && final(self).handles_v() == old(self).handles_v().push((out.0, host_entity)) && final(self).handles_next_id() == old(self).handles_next_id() + 1,
            forall|o: u64|
                o != out.0 ==> spec_lookup(final(self).handles_v(), o) == spec_lookup(
                    old(self).handles_v(),
                    o,
                ),
    {
        let entity_id = self.handles.register(host_entity);
        (entity_id, EngineEvent::PrefabLoaded { request_id, entity_id })
    }

    /// Decides what one finished asset job asks for. A texture that
    /// decoded gets its id-to-name record now — never on failure — and a
    /// scene file with no prefab in it is answered with a typed error.
    pub fn on_async_result(&mut self, r: AsyncResult) -> (d: AsyncDecision)
        requires
            old(self).inv(),
        ensures
            final(self).inv(),
            final(self).handles_v() == old(self).handles_v(),
            final(self).handles_next_id() == old(self).handles_next_id(),
            final(self).plugins_v() == old(self).plugins_v(),
            final(self).outbox_v() == old(self).outbox_v(),
            final(self).pending_events_v() == old(self).pending_events_v(),
            final(self).spec_base_path() == old(self).spec_base_path(),
            final(self).spec_canonical_base() == old(self).spec_canonical_base(),
            final(self).last_mouse() == old(self).last_mouse(),
            final(self).spec_next_texture_id() == old(self).spec_next_texture_id(),
            final(self).spec_next_plugin_id() == old(self).spec_next_plugin_id(),
            final(self).spec_frames_since_cleanup() == old(self).spec_frames_since_cleanup(),
            r matches AsyncResult::File { plugin_id, request_id, result } ==> final(self).textures_v() == old(self).textures_v() && (match result {
                Ok(data) => d matches AsyncDecision::Unicast { plugin_id: p, event } && p
                    == plugin_id && (event@ matches EngineEventV::FileLoaded {
                    request_id: rq,
                    data: dd,
                } && rq == request_id && dd == data@),
                Err(e) => d matches AsyncDecision::Unicast { plugin_id: p, event } && p == plugin_id
                    && (event@ matches EngineEventV::FileError { request_id: rq, error } && rq
                    == request_id && error == e@),
            }),
            r matches AsyncResult::Texture {
                plugin_id,
                request_id,
                texture_name,
                texture_id,
                result,
            } ==> (match result {
                Ok(pixels) => final(self).textures_v() == old(self).textures_v().push(
                    (texture_id, texture_name@),
                ) && (d matches AsyncDecision::UploadTexture {
                    plugin_id: p,
                    event,
                    name,
                    pixels: px,
                } && p == plugin_id && name@ == texture_name@ && px.rgba@ == pixels.rgba@
                    && px.width == pixels.width && px.height == pixels.height && (
                event@ matches EngineEventV::TextureLoaded { request_id: rq, texture_id: t } && rq
                    == request_id && t == texture_id)),
                Err(e) => final(self).textures_v() == old(self).textures_v() && (
                d matches AsyncDecision::Unicast { plugin_id: p, event } && p == plugin_id && (
                event@ matches EngineEventV::AssetError { request_id: rq, error } && rq
                    == request_id && error == e@)),
            }),
            r matches AsyncResult::Prefab {
                plugin_id,
                request_id,
                x_bits,
                y_bits,
                z_bits,
                result,
            } ==> final(self).textures_v() == old(self).textures_v() && (match result {
                Ok(dec) => if dec.has_prefab {
                    d matches AsyncDecision::SpawnPrefab {
                        plugin_id: p,
                        request_id: rq,
                        x_bits: x,
                        y_bits: y,
                        z_bits: z,
                        uploads,
                    } && p == plugin_id && rq == request_id && x == x_bits && y == y_bits && z
                        == z_bits && uploads == dec.textures
                } else {
                    d matches AsyncDecision::PrefabEmpty { plugin_id: p, event, uploads } && p
                        == plugin_id && uploads == dec.textures && (
                    event@ matches EngineEventV::AssetError { request_id: rq, error } && rq
                        == request_id && error == "No prefabs found in glTF file"@)
                },
                Err(e) => d matches AsyncDecision::Unicast { plugin_id: p, event } && p == plugin_id
                    && (event@ matches EngineEventV::AssetError { request_id: rq, error } && rq
                    == request_id && error == e@),
            }),
    {
        match r {
            AsyncResult::File { plugin_id, request_id, result } => {
                let event = match result {
                    Ok(data) => EngineEvent::FileLoaded { request_id, data },
                    Err(error) => EngineEvent::FileError { request_id, error },
                };
                AsyncDecision::Unicast { plugin_id, event }
            },
            AsyncResult::Texture { plugin_id, request_id, texture_name, texture_id, result } => {
                match result {
                    Ok(pixels) => {
                        let name = texture_name.clone();
                        self.texture_names.push((texture_id, texture_name));
                        proof {
                            assert(self.textures_v() =~= old(self).textures_v().push(
                                (texture_id, name@),
                            ));
                        }
                        AsyncDecision::UploadTexture {
                            plugin_id,
                            event: EngineEvent::TextureLoaded { request_id, texture_id },
                            name,
                            pixels,
                        }
                    },
                    Err(error) => AsyncDecision::Unicast {
                        plugin_id,
                        event: EngineEvent::AssetError { request_id, error },
                    },
                }
            },
            AsyncResult::Prefab { plugin_id, request_id, x_bits, y_bits, z_bits, result } => {
                match result {
                    Ok(dec) => {
                        if dec.has_prefab {
                            AsyncDecision::SpawnPrefab {
                                plugin_id,
                                request_id,
                                x_bits,
                                y_bits,
                                z_bits,
                                uploads: dec.textures,
                            }
                        } else {
                            AsyncDecision::PrefabEmpty {
                                plugin_id,
                                event: EngineEvent::AssetError {
                                    request_id,
                                    error: String::from_str("No prefabs found in glTF file"),
                                },
                                uploads: dec.textures,
                            }
                        }
                    },
                    Err(error) => AsyncDecision::Unicast {
                        plugin_id,
                        event: EngineEvent::AssetError { request_id, error },
                    },
                }
            },
        }
    }

    /// Hands out every buffered custom-channel payload, in arrival order,
    /// and empties the buffer. The runtime never reads these bytes.
    pub fn drain_custom_commands(&mut self) -> (out: Vec<(u64, Vec<u8>)>)
        requires
            old(self).inv(),
        ensures
            final(self).inv(),
            out@.map_values(|p: (u64, Vec<u8>)| (p.0, p.1@)) == old(self).outbox_v(),
            final(self).outbox_v() =~= Seq::<(u64, Seq<u8>)>::empty(),
            final(self).plugins_v() == old(self).plugins_v(),
            final(self).handles_v() == old(self).handles_v(),
            final(self).handles_next_id() == old(self).handles_next_id(),
            final(self).textures_v() == old(self).textures_v(),
            final(self).pending_events_v() == old(self).pending_events_v(),
            final(self).spec_base_path() == old(self).spec_base_path(),
            final(self).spec_canonical_base() == old(self).spec_canonical_base(),
            final(self).last_mouse() == old(self).last_mouse(),
            final(self).spec_next_texture_id() == old(self).spec_next_texture_id(),
            final(self).spec_next_plugin_id() == old(self).spec_next_plugin_id(),
            final(self).spec_frames_since_cleanup() == old(self).spec_frames_since_cleanup(),
    {
        let mut out: Vec<(u64, Vec<u8>)> = Vec::new();
        core::mem::swap(&mut out, &mut self.custom_outbox);
        out
    }
}

/// The decision rejects a file request with the access-denied error.
pub open spec fn rejects_with_file_error(d: &IoDecision, plugin_id: u64, request_id: u64) -> bool {
    d matches IoDecision::Reject { plugin_id: p, event } && p == plugin_id && (
    event@ matches EngineEventV::FileError { request_id: r, error } && r == request_id && error
        == "Invalid path: access denied"@)
}

/// The decision rejects an asset request with the access-denied error.
pub open spec fn rejects_with_asset_error(d: &IoDecision, plugin_id: u64, request_id: u64) -> bool {
    d matches IoDecision::Reject { plugin_id: p, event } && p == plugin_id && (
    event@ matches EngineEventV::AssetError { request_id: r, error } && r == request_id && error
        == "Invalid path: access denied"@)
}

/// The reply to a position query: the components read from the world, or
/// the not-found event when the world had no transform for the entity.
pub fn position_reply(request_id: u64, entity_id: u64, read: Option<(u32, u32, u32)>) -> (e:
    EngineEvent)
    ensures
        read matches Some(v) ==> e@ == (EngineEventV::EntityPosition {
            request_id,
            entity_id,
            x_bits: v.0,
            y_bits: v.1,
            z_bits: v.2,
        }),
        read is None ==> e@ == (EngineEventV::EntityNotFound { request_id, entity_id }),
{
    match read {
        Some((x_bits, y_bits, z_bits)) => EngineEvent::EntityPosition {
            request_id,
            entity_id,
            x_bits,
            y_bits,
            z_bits,
        },
        None => EngineEvent::EntityNotFound { request_id, entity_id },
    }
}

/// The reply to a scale query.
pub fn scale_reply(request_id: u64, entity_id: u64, read: Option<(u32, u32, u32)>) -> (e:
    EngineEvent)
    ensures
        read matches Some(v) ==> e@ == (EngineEventV::EntityScale {
            request_id,
            entity_id,
            x_bits: v.0,
            y_bits: v.1,
            z_bits: v.2,
        }),
        read is None ==> e@ == (EngineEventV::EntityNotFound { request_id, entity_id }),
{
    match read {
        Some((x_bits, y_bits, z_bits)) => EngineEvent::EntityScale {
            request_id,
            entity_id,
            x_bits,
            y_bits,
            z_bits,
        },
        None => EngineEvent::EntityNotFound { request_id, entity_id },
    }
}

/// The reply to a rotation query; the quaternion crosses scalar-last.
pub fn rotation_reply(request_id: u64, entity_id: u64, read: Option<(u32, u32, u32, u32)>) -> (e:
    EngineEvent)
    ensures
        read matches Some(v) ==> e@ == (EngineEventV::EntityRotation {
            request_id,
            entity_id,
            x_bits: v.0,
            y_bits: v.1,
            z_bits: v.2,
            w_bits: v.3,
        }),
        read is None ==> e@ == (EngineEventV::EntityNotFound { request_id, entity_id }),
{
    match read {
        Some((x_bits, y_bits, z_bits, w_bits)) => EngineEvent::EntityRotation {
            request_id,
            entity_id,
            x_bits,
            y_bits,
            z_bits,
            w_bits,
        },
        None => EngineEvent::EntityNotFound { request_id, entity_id },
    }
}

} // verus!

use plugin_runtime::engine_codec::EngineEvent;
use plugin_runtime::runtime::{MouseButton, PluginRuntime};
use plugin_runtime::CLEANUP_INTERVAL_FRAMES;

fn fresh() -> PluginRuntime {
    PluginRuntime::new(String::from("plugins"), String::from("/srv/plugins"))
}

#[test]
fn queued_input_is_delivered_once_before_frame_start() {
    let mut rt = fresh();
    rt.queue_keyboard_event(17, true);
    rt.queue_keyboard_event(17, false);
    rt.queue_mouse_event(true, MouseButton::Left);

    let plan = rt.begin_frame(0.016f32.to_bits(), 1, 0, 0);
    assert_eq!(
        plan.broadcasts,
        vec![
            EngineEvent::KeyPressed { key_code: 17 },
            EngineEvent::KeyReleased { key_code: 17 },
            EngineEvent::MouseButtonPressed { button: 0 },
            EngineEvent::FrameStart { delta_time_bits: 0.016f32.to_bits(), frame_count: 1 },
        ],
    );

    // The queue was emptied: the next frame owes only its frame start.
    let plan2 = rt.begin_frame(0.016f32.to_bits(), 2, 0, 0);
    assert_eq!(
        plan2.broadcasts,
        vec![EngineEvent::FrameStart { delta_time_bits: 0.016f32.to_bits(), frame_count: 2 }],
    );
}

#[test]
fn mouse_moved_is_broadcast_only_on_change() {
    let mut rt = fresh();
    let x = 10.5f32.to_bits();
    let y = 20.25f32.to_bits();

    let plan = rt.begin_frame(0, 1, x, y);
    assert_eq!(
        plan.broadcasts,
        vec![
            EngineEvent::FrameStart { delta_time_bits: 0, frame_count: 1 },
            EngineEvent::MouseMoved { x_bits: x, y_bits: y },
        ],
    );

    let plan2 = rt.begin_frame(0, 2, x, y);
    assert_eq!(
        plan2.broadcasts,
        vec![EngineEvent::FrameStart { delta_time_bits: 0, frame_count: 2 }],
    );
}

#[test]
fn mouse_button_codes_follow_the_wire_numbering() {
    let mut rt = fresh();
    rt.queue_mouse_event(true, MouseButton::Right);
    rt.queue_mouse_event(true, MouseButton::Middle);
    rt.queue_mouse_event(false, MouseButton::Back);
    rt.queue_mouse_event(false, MouseButton::Forward);
    rt.queue_mouse_event(true, MouseButton::Other(3));
    let plan = rt.begin_frame(0, 1, 0, 0);
    assert_eq!(
        plan.broadcasts[..5],
        [
            EngineEvent::MouseButtonPressed { button: 1 },
            EngineEvent::MouseButtonPressed { button: 2 },
            EngineEvent::MouseButtonReleased { button: 3 },
            EngineEvent::MouseButtonReleased { button: 4 },
            EngineEvent::MouseButtonPressed { button: 8 },
        ],
    );
}

#[test]
fn gc_becomes_due_every_cleanup_interval() {
    let mut rt = fresh();
    for frame in 1..CLEANUP_INTERVAL_FRAMES {
        let plan = rt.begin_frame(0, frame, 0, 0);
        assert!(!plan.run_gc, "gc must not be due at frame {}", frame);
    }
    let plan = rt.begin_frame(0, CLEANUP_INTERVAL_FRAMES, 0, 0);
    assert!(plan.run_gc);
    // The counter restarts after a sweep.
    let plan = rt.begin_frame(0, CLEANUP_INTERVAL_FRAMES + 1, 0, 0);
    assert!(!plan.run_gc);
}

#[test]
fn plugin_registry_assigns_monotonic_ids() {
    let mut rt = fresh();
    let a = rt.register_plugin(true, true);
    let b = rt.register_plugin(false, true);
    assert_eq!(a, 1);
    assert_eq!(b, 2);
    assert_eq!(rt.plugin_count(), 2);
    assert!(rt.has_plugin(a));
    assert!(rt.has_plugin(b));
    assert!(!rt.has_plugin(3));
    let meta = rt.plugin_at(1);
    assert_eq!(meta.id, b);
    assert!(!meta.has_on_init);
    assert!(meta.has_on_frame);
}

#[test]
fn plugins_are_never_evicted_between_frames() {
    // A trap during a call is a per-call failure: the registry has no
    // removal, so the plugin is still scheduled on the next frame.
    let mut rt = fresh();
    let a = rt.register_plugin(true, true);
    let b = rt.register_plugin(true, true);
    for frame in 1..4 {
        let _ = rt.begin_frame(0, frame, 0, 0);
        assert_eq!(rt.plugin_count(), 2);
        assert!(rt.has_plugin(a));
        assert!(rt.has_plugin(b));
        assert!(rt.plugin_at(0).has_on_frame);
        assert!(rt.plugin_at(1).has_on_frame);
    }
}

#[test]
fn custom_channel_buffers_payloads_in_order() {
    let mut rt = fresh();
    rt.push_custom_command(1, vec![1, 2, 3]);
    rt.push_custom_command(2, vec![4]);
    let drained = rt.drain_custom_commands();
    assert_eq!(drained, vec![(1, vec![1, 2, 3]), (2, vec![4])]);
    assert_eq!(rt.drain_custom_commands(), vec![]);
}

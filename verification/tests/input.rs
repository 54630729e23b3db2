use engine::ecs::bitset::MAX_ENTITIES;
use engine::ecs::components::{BasicMaterial, BoxCollider, Transform};
use engine::ecs::resources::{
    Action, ActiveCamera, InputCache, InputEventQueue, WindowEvent, KEY_A, KEY_D, KEY_Q, KEY_S,
    KEY_W, KEY_Z,
};
use engine::ecs::storage::ComponentStore;
use engine::ecs::systems::{BoxColliderSystem, FrameCount, InputSystem, Movement, PrintFramerate};
use engine::math::{vec2, vec3, Mat3, Real, ToVec3, HALF_BITS, MINUS_ONE_BITS};

fn scalar(value: f32) -> Real {
    Real::from_bits(value.to_bits())
}

#[test]
fn scalars_are_kept_by_their_bits() {
    assert_eq!(Real::zero().to_bits(), 0.0f32.to_bits());
    assert_eq!(Real::one().to_bits(), 1.0f32.to_bits());
    assert_eq!(MINUS_ONE_BITS, (-1.0f32).to_bits());
    assert_eq!(HALF_BITS, 0.5f32.to_bits());
    assert_eq!(Real::from_bits(7).to_bits(), 7);
    let identity = Mat3::identity().words.map(f32::from_bits);
    assert_eq!(identity, [1.0, 0.0, 0.0, 0.0, 1.0, 0.0, 0.0, 0.0, 1.0]);
    assert_eq!(Mat3::zeros().words, [0; 9]);
}

#[test]
fn values_that_spell_out_a_vector() {
    let (a, b, c) = (scalar(1.0), scalar(2.0), scalar(3.0));
    assert_eq!(a.to_vec3(), vec3(a, a, a));
    assert_eq!([a, b, c].to_vec3(), vec3(a, b, c));
    assert_eq!((c, b, a).to_vec3(), vec3(c, b, a));
    assert_eq!(vec2(a, b).y, b);
}

#[test]
fn no_camera_is_active_at_first() {
    assert_eq!(ActiveCamera::default().entity, None);
}

#[test]
fn a_key_is_down_while_it_is_pressed_or_repeated() {
    let mut cache = InputCache::default();
    assert!(!cache.is_key_pressed(KEY_W));
    cache.key_states.insert(KEY_W, Action::Press);
    assert!(cache.is_key_pressed(KEY_W));
    cache.key_states.insert(KEY_W, Action::Repeat);
    assert!(cache.is_key_pressed(KEY_W));
    cache.key_states.insert(KEY_W, Action::Release);
    assert!(!cache.is_key_pressed(KEY_W));
    assert!(!cache.is_key_pressed(KEY_S));
}

#[test]
fn the_queue_is_drained_in_the_order_of_arrival() {
    let mut queue = InputEventQueue::default();
    let mut cache = InputCache::default();
    let mut system = InputSystem;
    assert_eq!(system.run(&mut queue, &mut cache), vec![]);

    queue.queue.push_back(WindowEvent::Key(KEY_W, Action::Press));
    queue.queue.push_back(WindowEvent::CursorPos(scalar(300.0), scalar(200.0)));
    queue.queue.push_back(WindowEvent::Key(KEY_D, Action::Press));
    queue.queue.push_back(WindowEvent::Other);
    queue.queue.push_back(WindowEvent::Key(KEY_D, Action::Release));
    queue.queue.push_back(WindowEvent::CursorPos(scalar(310.0), scalar(190.0)));
    queue.queue.push_back(WindowEvent::Key(KEY_Z, Action::Repeat));
    let steps = system.run(&mut queue, &mut cache);
    assert!(queue.queue.is_empty());
    assert_eq!(steps, vec![Movement::Forward, Movement::Down]);
    assert_eq!(cache.last_cursor_pos, vec2(scalar(310.0), scalar(190.0)));
    assert_eq!(cache.previous_cursor_pos, vec2(scalar(300.0), scalar(200.0)));
    assert_eq!(cache.key_states.get(&KEY_D), Some(&Action::Release));

    // keys stay down until they are released
    assert_eq!(
        system.run(&mut queue, &mut cache),
        vec![Movement::Forward, Movement::Down]
    );
    for key in [KEY_S, KEY_A, KEY_D, KEY_Q] {
        queue.queue.push_back(WindowEvent::Key(key, Action::Press));
    }
    assert_eq!(
        system.run(&mut queue, &mut cache),
        vec![
            Movement::Forward,
            Movement::Backward,
            Movement::Left,
            Movement::Right,
            Movement::Up,
            Movement::Down
        ]
    );
}

#[test]
fn frames_are_reported_once_a_second() {
    let mut counter = PrintFramerate::default();
    assert_eq!(counter.run(400_000_000), None);
    assert_eq!(counter.run(999_999_999), None);
    assert_eq!(
        counter.run(1_000_000_000),
        Some(FrameCount {
            frames: 3,
            nanoseconds: 1_000_000_000
        })
    );
    assert_eq!(counter.run(1_500_000_000), None);
    assert_eq!(
        counter.run(3_000_000_000),
        Some(FrameCount {
            frames: 2,
            nanoseconds: 2_000_000_000
        })
    );
    // a clock that runs backwards reports nothing
    assert_eq!(counter.run(0), None);
    let mut full = PrintFramerate {
        prev: 0,
        frames: u32::MAX,
    };
    assert_eq!(full.run(1), None);
    assert_eq!(full.frames, u32::MAX);
}

#[test]
fn new_boxes_are_found() {
    let mut transforms: ComponentStore<Transform> = ComponentStore::new(64);
    let mut boxes: ComponentStore<BoxCollider> = ComponentStore::new(64);
    let mut system = BoxColliderSystem {
        reader_id: boxes.register_reader(),
        dirty: specs::BitSet::new(),
    };
    let a_box = BoxCollider {
        box_size: vec3(scalar(1.0), scalar(2.0), scalar(3.0)),
        material: BasicMaterial {
            restitution: scalar(0.0),
            friction: scalar(0.5),
        },
    };
    for id in [7u32, 1] {
        assert!(transforms.insert(id, Transform::default()).is_ok());
        assert!(boxes.insert(id, a_box).is_ok());
    }
    assert!(boxes.insert(MAX_ENTITIES - 1, a_box).is_ok());
    assert!(boxes.modify(7, a_box).is_ok());
    assert_eq!(system.run(&transforms, &mut boxes), vec![1, 7]);
    assert!(system.dirty.contains(7));
    assert!(!system.dirty.contains(1));
    assert!(boxes.modify(1, a_box).is_ok());
    assert_eq!(system.run(&transforms, &mut boxes), Vec::<u32>::new());
    // the set of modified boxes is never emptied
    assert!(system.dirty.contains(1) && system.dirty.contains(7));
}

use engine::ecs::bitset::MAX_ENTITIES;
use engine::ecs::channel::ComponentEvent;
use engine::ecs::components::{RigidBody, Transform};
use engine::ecs::world::{Entities, World};

#[test]
fn entities_are_numbered_in_order() {
    let mut world = World::new(64);
    assert_eq!(world.create_entity(), Some(0));
    assert_eq!(world.create_entity(), Some(1));
    assert_eq!(world.create_entity(), Some(2));
    assert!(world.entities.is_alive(1));
    assert!(!world.entities.is_alive(3));
    assert!(world.active_camera.entity.is_none());
}

#[test]
fn an_entity_lives_until_the_world_is_maintained() {
    let mut world = World::new(64);
    let kept = world.create_entity().unwrap();
    let doomed = world.create_entity().unwrap();
    let bare = world.create_entity().unwrap();
    for entity in [kept, doomed] {
        assert!(world.transforms.insert(entity, Transform::default()).is_ok());
        assert!(world.rigidbodies.insert(entity, RigidBody::default()).is_ok());
    }
    let reader = world.rigidbodies.register_reader();

    assert!(world.delete_entity(doomed));
    assert!(world.delete_entity(bare));
    // asking twice changes nothing, asking for what is not there neither
    assert!(world.delete_entity(doomed));
    assert!(!world.delete_entity(77));
    assert!(world.entities.is_alive(doomed));
    assert!(world.transforms.contains(doomed));

    assert_eq!(world.maintain(), vec![doomed, bare]);
    assert!(!world.entities.is_alive(doomed));
    assert!(!world.entities.is_alive(bare));
    assert!(world.entities.is_alive(kept));
    assert!(!world.transforms.contains(doomed));
    assert!(!world.rigidbodies.contains(doomed));
    assert!(world.transforms.contains(kept));
    assert!(world.rigidbodies.contains(kept));
    assert_eq!(world.rigidbodies.read(&reader), vec![ComponentEvent::Removed(doomed)]);

    assert_eq!(world.maintain(), Vec::<u32>::new());
    assert!(!world.delete_entity(doomed));
    // numbers are not handed out again
    assert_eq!(world.create_entity(), Some(3));
}

#[test]
fn a_world_is_maintained_only_while_the_journals_have_room() {
    let mut world = World::new(1);
    let entity = world.create_entity().unwrap();
    assert!(world.transforms.insert(entity, Transform::default()).is_ok());
    let idle = world.transforms.register_reader();
    let other = world.create_entity().unwrap();
    assert!(world.transforms.insert(other, Transform::default()).is_ok());
    assert!(world.transforms.is_starved());
    // nothing is to be destroyed yet, so nothing is to be noted
    assert!(world.can_maintain());
    assert!(world.delete_entity(entity));
    // the journal of the transforms cannot take the note of the removal
    assert!(!world.can_maintain());
    assert_eq!(world.transforms.read(&idle), vec![ComponentEvent::Inserted(other)]);
    assert!(world.can_maintain());
    assert_eq!(world.maintain(), vec![entity]);
    assert!(!world.entities.is_alive(entity));
    assert!(!world.transforms.contains(entity));
    assert!(world.transforms.contains(other));
    assert_eq!(world.transforms.read(&idle), vec![ComponentEvent::Removed(entity)]);
}

#[test]
fn every_journal_is_asked_before_the_world_is_maintained() {
    let mut world = World::new(2);
    let first = world.create_entity().unwrap();
    let second = world.create_entity().unwrap();
    let third = world.create_entity().unwrap();
    let _idle = world.rigidbodies.register_reader();
    assert!(world.delete_entity(first));
    assert!(world.delete_entity(second));
    assert!(world.can_maintain());
    assert!(world.delete_entity(third));
    // three notes are more than the journal of the rigid bodies may hold back
    assert!(!world.can_maintain());
}

#[test]
fn there_are_only_so_many_entities() {
    let mut entities = Entities::new();
    for expected in 0..MAX_ENTITIES {
        assert_eq!(entities.create(), Some(expected));
    }
    assert_eq!(entities.create(), None);
    assert!(entities.is_alive(MAX_ENTITIES - 1));
    assert!(entities.delete(0));
    assert_eq!(entities.take_doomed(), vec![0]);
    assert_eq!(entities.create(), None);
}

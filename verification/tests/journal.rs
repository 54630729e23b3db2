use engine::ecs::bitset::MAX_ENTITIES;
use engine::ecs::channel::{ChannelError, ComponentEvent, EventChannel};
use engine::ecs::storage::{ComponentStore, StoreError};

#[test]
fn a_reader_sees_each_event_once_in_order() {
    let mut channel = EventChannel::with_capacity(16);
    let reader = channel.register_reader();
    assert_eq!(channel.single_write(ComponentEvent::Inserted(1)), Ok(()));
    assert_eq!(channel.single_write(ComponentEvent::Modified(1)), Ok(()));
    assert_eq!(
        channel.read(&reader),
        vec![ComponentEvent::Inserted(1), ComponentEvent::Modified(1)]
    );
    assert_eq!(channel.read(&reader), vec![]);
    assert_eq!(channel.single_write(ComponentEvent::Removed(1)), Ok(()));
    assert_eq!(channel.read(&reader), vec![ComponentEvent::Removed(1)]);
    assert_eq!(channel.read(&reader), vec![]);
}

#[test]
fn readers_do_not_consume_each_others_events() {
    let mut channel = EventChannel::with_capacity(16);
    let eager = channel.register_reader();
    let lazy = channel.register_reader();
    let mut seen_by_eager = Vec::new();
    for id in 0..5 {
        assert_eq!(channel.single_write(ComponentEvent::Inserted(id)), Ok(()));
        seen_by_eager.extend(channel.read(&eager));
    }
    let seen_by_lazy = channel.read(&lazy);
    let expected: Vec<ComponentEvent> = (0..5).map(ComponentEvent::Inserted).collect();
    assert_eq!(seen_by_eager, expected);
    assert_eq!(seen_by_lazy, expected);
}

#[test]
fn a_reader_starts_at_now() {
    let mut channel = EventChannel::with_capacity(16);
    let first = channel.register_reader();
    assert_eq!(channel.single_write(ComponentEvent::Inserted(7)), Ok(()));
    let late = channel.register_reader();
    assert_eq!(channel.single_write(ComponentEvent::Modified(7)), Ok(()));
    assert_eq!(channel.read(&late), vec![ComponentEvent::Modified(7)]);
    assert_eq!(
        channel.read(&first),
        vec![ComponentEvent::Inserted(7), ComponentEvent::Modified(7)]
    );
}

#[test]
fn events_without_a_reader_are_not_kept() {
    let mut channel = EventChannel::with_capacity(2);
    for id in 0..100 {
        assert_eq!(channel.single_write(ComponentEvent::Inserted(id)), Ok(()));
    }
    assert_eq!(channel.retained_len(), 0);
    let reader = channel.register_reader();
    assert_eq!(channel.read(&reader), vec![]);
}

#[test]
fn a_starved_reader_makes_writing_fail() {
    let mut channel = EventChannel::with_capacity(3);
    let idle = channel.register_reader();
    let busy = channel.register_reader();
    for id in 0..3 {
        assert!(!channel.is_starved());
        assert_eq!(channel.single_write(ComponentEvent::Modified(id)), Ok(()));
        assert_eq!(channel.read(&busy), vec![ComponentEvent::Modified(id)]);
    }
    assert!(channel.is_starved());
    assert_eq!(channel.retained_len(), 3);
    assert_eq!(
        channel.single_write(ComponentEvent::Modified(3)),
        Err(ChannelError::Full)
    );
    // nothing was written and nothing was dropped
    assert_eq!(channel.read(&busy), vec![]);
    assert_eq!(
        channel.read(&idle),
        vec![
            ComponentEvent::Modified(0),
            ComponentEvent::Modified(1),
            ComponentEvent::Modified(2)
        ]
    );
    assert!(!channel.is_starved());
    assert_eq!(channel.retained_len(), 0);
    assert_eq!(channel.single_write(ComponentEvent::Modified(3)), Ok(()));
}

#[test]
fn a_channel_without_room_starves_its_readers_at_once() {
    let mut channel = EventChannel::with_capacity(0);
    assert_eq!(channel.limit(), 0);
    assert_eq!(channel.single_write(ComponentEvent::Inserted(0)), Ok(()));
    let _reader = channel.register_reader();
    assert_eq!(
        channel.single_write(ComponentEvent::Inserted(1)),
        Err(ChannelError::Full)
    );
}

#[test]
fn a_reader_that_leaves_frees_its_events() {
    let mut channel = EventChannel::with_capacity(2);
    let idle = channel.register_reader();
    let busy = channel.register_reader();
    assert_eq!(channel.single_write(ComponentEvent::Inserted(1)), Ok(()));
    assert_eq!(channel.single_write(ComponentEvent::Inserted(2)), Ok(()));
    assert_eq!(channel.read(&busy).len(), 2);
    assert!(channel.is_starved());
    channel.unregister_reader(idle);
    assert!(!channel.is_starved());
    assert_eq!(channel.retained_len(), 0);
    assert_eq!(channel.single_write(ComponentEvent::Inserted(3)), Ok(()));
    assert_eq!(channel.read(&busy), vec![ComponentEvent::Inserted(3)]);
    // the slot of the reader that left is used again
    let again = channel.register_reader();
    assert_eq!(channel.single_write(ComponentEvent::Inserted(4)), Ok(()));
    assert_eq!(channel.read(&again), vec![ComponentEvent::Inserted(4)]);
    assert_eq!(channel.read(&busy), vec![ComponentEvent::Inserted(4)]);
}

#[test]
fn the_entity_of_an_event() {
    assert_eq!(ComponentEvent::Inserted(3).entity(), 3);
    assert_eq!(ComponentEvent::Modified(4).entity(), 4);
    assert_eq!(ComponentEvent::Removed(5).entity(), 5);
}

#[test]
fn a_store_notes_what_happens_to_components() {
    let mut store: ComponentStore<u8> = ComponentStore::new(16);
    let reader = store.register_reader();
    assert_eq!(store.insert(3, 30), Ok(None));
    assert_eq!(store.insert(3, 31), Ok(Some(30)));
    assert_eq!(store.modify(3, 32), Ok(Some(31)));
    assert_eq!(store.get(3), Some(&32));
    assert_eq!(store.remove(3), Ok(Some(32)));
    assert_eq!(store.get(3), None);
    assert!(!store.contains(3));
    assert_eq!(
        store.read(&reader),
        vec![
            ComponentEvent::Inserted(3),
            ComponentEvent::Inserted(3),
            ComponentEvent::Modified(3),
            ComponentEvent::Removed(3)
        ]
    );
}

#[test]
fn a_store_leaves_absent_components_alone() {
    let mut store: ComponentStore<u8> = ComponentStore::new(16);
    let reader = store.register_reader();
    assert_eq!(store.modify(1, 10), Ok(None));
    assert_eq!(store.remove(1), Ok(None));
    assert_eq!(store.replace_unflagged(1, 10), None);
    assert_eq!(store.get(1), None);
    assert_eq!(store.read(&reader), vec![]);
    assert_eq!(store.entities(), Vec::<u32>::new());
}

#[test]
fn a_store_refuses_entities_out_of_range() {
    let mut store: ComponentStore<u8> = ComponentStore::new(16);
    let reader = store.register_reader();
    assert_eq!(store.insert(MAX_ENTITIES, 1), Err(StoreError::InvalidEntity));
    assert_eq!(store.insert(u32::MAX, 1), Err(StoreError::InvalidEntity));
    assert_eq!(store.insert(MAX_ENTITIES - 1, 1), Ok(None));
    assert_eq!(
        store.read(&reader),
        vec![ComponentEvent::Inserted(MAX_ENTITIES - 1)]
    );
    assert!(!store.contains(u32::MAX));
}

#[test]
fn a_store_with_a_full_journal_changes_nothing() {
    let mut store: ComponentStore<u8> = ComponentStore::new(2);
    let reader = store.register_reader();
    assert_eq!(store.insert(0, 1), Ok(None));
    assert_eq!(store.insert(1, 2), Ok(None));
    assert!(store.is_starved());
    assert_eq!(store.insert(2, 3), Err(StoreError::JournalFull));
    assert_eq!(store.modify(0, 9), Err(StoreError::JournalFull));
    assert_eq!(store.remove(1), Err(StoreError::JournalFull));
    assert_eq!(store.get(0), Some(&1));
    assert_eq!(store.get(1), Some(&2));
    assert_eq!(store.get(2), None);
    // a write that is not noted goes through
    assert_eq!(store.replace_unflagged(0, 7), Some(1));
    assert_eq!(store.get(0), Some(&7));
    assert_eq!(
        store.read(&reader),
        vec![ComponentEvent::Inserted(0), ComponentEvent::Inserted(1)]
    );
    assert_eq!(store.remove(1), Ok(Some(2)));
}

#[test]
fn the_entities_of_a_store_come_in_increasing_order() {
    let mut store: ComponentStore<u8> = ComponentStore::new(16);
    for id in [9u32, 2, 5, 2, 7] {
        assert!(store.insert(id, 0).is_ok());
    }
    assert_eq!(store.remove(5), Ok(Some(0)));
    assert_eq!(store.entities(), vec![2, 7, 9]);
}

#[test]
fn a_reader_can_leave_a_store() {
    let mut store: ComponentStore<u8> = ComponentStore::new(1);
    let reader = store.register_reader();
    assert_eq!(store.insert(0, 1), Ok(None));
    assert_eq!(store.insert(1, 1), Err(StoreError::JournalFull));
    store.unregister_reader(reader);
    assert_eq!(store.insert(1, 1), Ok(None));
}

#[test]
fn a_channel_knows_how_many_events_it_can_take() {
    let mut channel = EventChannel::with_capacity(3);
    // nobody reads: nothing is held back
    assert!(channel.has_room(1000));
    let slow = channel.register_reader();
    let fast = channel.register_reader();
    assert!(channel.has_room(3));
    assert!(!channel.has_room(4));
    assert!(channel.single_write(ComponentEvent::Inserted(1)).is_ok());
    assert!(channel.single_write(ComponentEvent::Modified(1)).is_ok());
    assert_eq!(channel.read(&fast).len(), 2);
    // the slow reader counts
    assert!(channel.has_room(1));
    assert!(!channel.has_room(2));
    assert!(channel.has_room(0));
    assert!(channel.single_write(ComponentEvent::Removed(1)).is_ok());
    assert!(!channel.has_room(1));
    assert!(channel.has_room(0));
    assert!(channel.is_starved());
    assert_eq!(channel.read(&slow).len(), 3);
    assert!(channel.has_room(2));
    assert!(!channel.has_room(3));
    assert_eq!(channel.read(&fast).len(), 1);
    assert!(channel.has_room(3));
    channel.unregister_reader(slow);
    channel.unregister_reader(fast);
    assert!(channel.has_room(usize::MAX));
}

#[test]
fn a_store_is_purged_where_its_journal_has_room() {
    let mut store: ComponentStore<u8> = ComponentStore::new(2);
    for entity in 0..4u32 {
        assert!(store.insert(entity, entity as u8).is_ok());
    }
    let reader = store.register_reader();
    assert!(store.has_room(2));
    assert!(!store.has_room(3));
    store.purge(&vec![3, 9, 1]);
    assert_eq!(store.entities(), vec![0, 2]);
    assert_eq!(
        store.read(&reader),
        vec![ComponentEvent::Removed(3), ComponentEvent::Removed(1)]
    );
    assert_eq!(store.get(0), Some(&0));
    assert_eq!(store.get(2), Some(&2));
}

use engine::ecs::channel::ComponentEvent;
use engine::ecs::components::Transform;
use engine::ecs::storage::ComponentStore;
use engine::ecs::systems::{ModelWork, TransformSystem};
use engine::gl_wrapper::ModelRecipe;
use engine::math::{vec3, Mat4, Real, ONE_BITS, ZERO_BITS};
use nalgebra::{Matrix4, Point3, Vector3};

fn scalar(value: f32) -> Real {
    Real::from_bits(value.to_bits())
}

fn at(x: f32, y: f32, z: f32) -> Transform {
    Transform {
        position: vec3(scalar(x), scalar(y), scalar(z)),
        ..Transform::default()
    }
}

fn work(entity: u32, transform: Transform) -> ModelWork {
    ModelWork {
        entity,
        recipe: ModelRecipe {
            position: transform.position,
            rotation: transform.rotation,
            scale: transform.scale,
            factor: scalar(1.0),
        },
    }
}

fn entities(work: &[ModelWork]) -> Vec<u32> {
    work.iter().map(|w| w.entity).collect()
}

fn marker(value: f32) -> Mat4 {
    Mat4 {
        words: [value.to_bits(); 16],
    }
}

#[test]
fn the_default_transform() {
    let transform = Transform::default();
    let zero = 0.0f32.to_bits();
    let one = 1.0f32.to_bits();
    assert_eq!(ZERO_BITS, zero);
    assert_eq!(ONE_BITS, one);
    assert_eq!(transform.position, vec3(scalar(0.0), scalar(0.0), scalar(0.0)));
    assert_eq!(transform.rotation, vec3(scalar(0.0), scalar(0.0), scalar(0.0)));
    assert_eq!(transform.scale, vec3(scalar(1.0), scalar(1.0), scalar(1.0)));
    let mut identity = [zero; 16];
    for i in 0..4 {
        identity[5 * i] = one;
    }
    assert_eq!(transform.model_matrix.words, identity);
    assert_eq!(Mat4::identity().words, identity);
}

#[test]
fn a_transform_modified_twice_is_recomputed_once() {
    let mut transforms: ComponentStore<Transform> = ComponentStore::new(64);
    let mut system = TransformSystem::new(&mut transforms);
    assert_eq!(transforms.insert(4, at(0.0, 0.0, 0.0)), Ok(None));
    assert_eq!(system.run(&mut transforms), vec![work(4, at(0.0, 0.0, 0.0))]);
    system.derive(&mut transforms, 4, marker(1.0));

    assert!(transforms.modify(4, at(1.0, 0.0, 0.0)).is_ok());
    assert!(transforms.modify(4, at(2.0, 0.0, 0.0)).is_ok());
    let stale = system.run(&mut transforms);
    // once, with the transform as it is now
    assert_eq!(stale, vec![work(4, at(2.0, 0.0, 0.0))]);
    assert!(system.dirty.contains(4));
    system.derive(&mut transforms, 4, marker(2.0));

    // nobody touches the transform: no work in the following frame
    assert_eq!(system.run(&mut transforms), vec![]);
    assert!(!system.dirty.contains(4));
    assert_eq!(system.run(&mut transforms), vec![]);
    assert_eq!(transforms.get(4).unwrap().model_matrix, marker(2.0));
    assert_eq!(transforms.get(4).unwrap().position, at(2.0, 0.0, 0.0).position);
}

#[test]
fn deriving_the_matrix_is_not_noted() {
    let mut transforms: ComponentStore<Transform> = ComponentStore::new(64);
    let system = TransformSystem::new(&mut transforms);
    let other = transforms.register_reader();
    assert!(transforms.insert(1, at(5.0, 6.0, 7.0)).is_ok());
    assert_eq!(transforms.read(&other), vec![ComponentEvent::Inserted(1)]);
    system.derive(&mut transforms, 1, marker(3.0));
    assert_eq!(transforms.read(&other), vec![]);
    let stored = transforms.get(1).unwrap();
    assert_eq!(stored.model_matrix, marker(3.0));
    assert_eq!(stored.position, at(5.0, 6.0, 7.0).position);
    assert_eq!(stored.scale, Transform::default().scale);
    // an entity without a transform gets none by this
    system.derive(&mut transforms, 2, marker(3.0));
    assert!(!transforms.contains(2));
}

#[test]
fn dirty_entities_come_in_increasing_order_without_the_removed() {
    let mut transforms: ComponentStore<Transform> = ComponentStore::new(64);
    let mut system = TransformSystem::new(&mut transforms);
    for id in [9u32, 3, 6, 1] {
        assert!(transforms.insert(id, Transform::default()).is_ok());
    }
    assert!(transforms.modify(3, at(1.0, 1.0, 1.0)).is_ok());
    assert!(transforms.remove(6).is_ok());
    let stale = system.run(&mut transforms);
    assert_eq!(entities(&stale), vec![1, 3, 9]);
    assert_eq!(stale[1], work(3, at(1.0, 1.0, 1.0)));
    // the set of dirty entities still names the removed one: it was inserted
    assert!(system.dirty.contains(6));
    assert!(system.dirty.contains(1));
    assert!(!system.dirty.contains(2));
    // a removal alone dirties nothing
    assert!(transforms.remove(9).is_ok());
    assert_eq!(system.run(&mut transforms), vec![]);
    assert!(!system.dirty.contains(9));
}

#[test]
fn the_model_matrix_is_translation_after_rotation_after_scaling() {
    // the order in which a model recipe is carried out, on the numbers of
    // the engine: position (1, 0, 0), no rotation, scale 2
    let mut transforms: ComponentStore<Transform> = ComponentStore::new(64);
    let mut system = TransformSystem::new(&mut transforms);
    let transform = Transform {
        position: vec3(scalar(1.0), scalar(0.0), scalar(0.0)),
        rotation: vec3(scalar(0.0), scalar(0.0), scalar(0.0)),
        scale: vec3(scalar(2.0), scalar(2.0), scalar(2.0)),
        ..Transform::default()
    };
    assert!(transforms.insert(0, transform).is_ok());
    let stale = system.run(&mut transforms);
    assert_eq!(stale, vec![work(0, transform)]);
    let recipe = stale[0].recipe;
    let value = |r: Real| f32::from_bits(r.to_bits());
    let position = Vector3::new(value(recipe.position.x), value(recipe.position.y), value(recipe.position.z));
    let scale = Vector3::new(value(recipe.scale.x), value(recipe.scale.y), value(recipe.scale.z))
        * value(recipe.factor);
    let model = Matrix4::new_translation(&position)
        * Matrix4::from_euler_angles(
            value(recipe.rotation.x),
            value(recipe.rotation.y),
            value(recipe.rotation.z),
        )
        * Matrix4::new_nonuniform_scaling(&scale);
    assert_eq!(model.transform_point(&Point3::origin()), Point3::new(1.0, 0.0, 0.0));
    assert_eq!(
        model.transform_point(&Point3::new(1.0, 0.0, 0.0)),
        Point3::new(3.0, 0.0, 0.0)
    );
}

use engine::ecs::components::{
    BasicMaterial, BodyStatus, Collider, RigidBody, Shape, Transform, DEFAULT_SLEEP_THRESHOLD_BITS,
};
use engine::ecs::resources::PhysicsWorld;
use engine::ecs::storage::ComponentStore;
use engine::ecs::systems::physics::{
    iterate_component_events, BodyAction, BodyCommand, BodyPose, ColliderAction, ColliderCommand,
    PhysicsStepperSystem, PoseRequest, SyncBodiesFromPhysicsSystem, SyncBodiesToPhysicsSystem,
    SyncCollidersToPhysicsSystem,
};
use engine::ecs::channel::ComponentEvent;
use engine::math::{vec3, Real, Vec3};
use nphysics3d::nalgebra::Vector3;
use specs::hibitset::BitSetLike;
use nphysics3d::ncollide3d::shape::{Ball, ShapeHandle};
use nphysics3d::object::{
    ActivationStatus, BodyPartHandle, ColliderDesc, DefaultBodyHandle, DefaultBodySet,
    DefaultColliderHandle, DefaultColliderSet, RigidBodyDesc,
};

fn scalar(value: f32) -> Real {
    Real::from_bits(value.to_bits())
}

fn at(x: f32, y: f32, z: f32) -> Transform {
    Transform {
        position: vec3(scalar(x), scalar(y), scalar(z)),
        ..Transform::default()
    }
}

fn body_at(bodies: &mut DefaultBodySet<f32>, x: f32, y: f32, z: f32) -> DefaultBodyHandle {
    bodies.insert(RigidBodyDesc::new().translation(Vector3::new(x, y, z)).build())
}

fn ball_on(
    colliders: &mut DefaultColliderSet<f32>,
    body: DefaultBodyHandle,
) -> DefaultColliderHandle {
    colliders.insert(ColliderDesc::new(ShapeHandle::new(Ball::new(1.0f32))).build(BodyPartHandle(body, 0)))
}

struct World {
    transforms: ComponentStore<Transform>,
    rigidbodies: ComponentStore<RigidBody>,
    system: SyncBodiesToPhysicsSystem,
}

fn world() -> World {
    let mut transforms = ComponentStore::new(256);
    let mut rigidbodies = ComponentStore::new(256);
    let system = SyncBodiesToPhysicsSystem {
        transforms_reader_id: transforms.register_reader(),
        rigidbodies_reader_id: rigidbodies.register_reader(),
    };
    World {
        transforms,
        rigidbodies,
        system,
    }
}

#[test]
fn the_default_rigid_body() {
    let body = RigidBody::default();
    assert_eq!(body.name, "");
    assert!(body.gravity_enabled);
    assert_eq!(body.status, BodyStatus::Dynamic);
    assert_eq!(body.mass, scalar(0.0));
    assert_eq!(body.angular_inertia.words, [0.0f32.to_bits(); 9]);
    assert_eq!(body.velocity.linear, vec3(scalar(0.0), scalar(0.0), scalar(0.0)));
    assert_eq!(body.velocity.angular, vec3(scalar(0.0), scalar(0.0), scalar(0.0)));
    assert_eq!(body.local_center_of_mass, vec3(scalar(0.0), scalar(0.0), scalar(0.0)));
    assert_eq!(body.kinematic_translations, [false; 3]);
    assert_eq!(body.kinematic_rotations, [false; 3]);
    assert_eq!(
        body.sleep_threshold,
        Some(scalar(ActivationStatus::<f32>::default_threshold()))
    );
    assert_eq!(DEFAULT_SLEEP_THRESHOLD_BITS, 0.01f32.to_bits());
}

#[test]
fn events_are_sorted_by_kind() {
    let events = vec![
        ComponentEvent::Inserted(1),
        ComponentEvent::Modified(2),
        ComponentEvent::Removed(3),
        ComponentEvent::Modified(1),
        ComponentEvent::Modified(2),
    ];
    let (inserted, modified, removed) = iterate_component_events(&events);
    assert!(inserted.contains(1) && !inserted.contains(2) && !inserted.contains(3));
    assert!(modified.contains(1) && modified.contains(2) && !modified.contains(3));
    assert!(removed.contains(3) && !removed.contains(1));
    let (inserted, modified, removed) = iterate_component_events(&vec![]);
    assert!(inserted.is_empty() && modified.is_empty() && removed.is_empty());
}

#[test]
fn the_agenda_lists_bodies_to_build_change_move_and_take_out() {
    let mut w = world();
    for id in [5u32, 2, 8] {
        assert!(w.transforms.insert(id, at(0.0, 0.0, 0.0)).is_ok());
        assert!(w.rigidbodies.insert(id, RigidBody::default()).is_ok());
    }
    // a rigid body without a transform gets no body
    assert!(w.rigidbodies.insert(9, RigidBody::default()).is_ok());
    let agenda = w.system.run(&mut w.transforms, &mut w.rigidbodies);
    assert_eq!(
        agenda,
        vec![
            BodyCommand::Create(2),
            BodyCommand::Create(5),
            BodyCommand::Create(8),
            // transforms that were inserted were not modified
        ]
    );

    let heavy = RigidBody {
        mass: scalar(3.0),
        ..RigidBody::default()
    };
    assert!(w.rigidbodies.modify(8, heavy.clone()).is_ok());
    assert!(w.rigidbodies.modify(2, heavy).is_ok());
    assert!(w.transforms.modify(5, at(1.0, 2.0, 3.0)).is_ok());
    assert!(w.rigidbodies.remove(5).is_ok());
    assert!(w.rigidbodies.remove(9).is_ok());
    let agenda = w.system.run(&mut w.transforms, &mut w.rigidbodies);
    assert_eq!(
        agenda,
        vec![
            BodyCommand::UpdateMass(2),
            BodyCommand::UpdateMass(8),
            BodyCommand::UpdatePose(5),
            BodyCommand::Remove(5),
            BodyCommand::Remove(9),
        ]
    );
    assert_eq!(
        w.system.run(&mut w.transforms, &mut w.rigidbodies),
        Vec::<BodyCommand>::new()
    );
}

#[test]
fn a_body_that_is_built_anew_is_not_taken_out() {
    let mut w = world();
    assert!(w.transforms.insert(1, at(0.0, 0.0, 0.0)).is_ok());
    assert!(w.rigidbodies.insert(1, RigidBody::default()).is_ok());
    let _ = w.system.run(&mut w.transforms, &mut w.rigidbodies);
    assert!(w.rigidbodies.remove(1).is_ok());
    assert!(w.rigidbodies.insert(1, RigidBody::default()).is_ok());
    assert_eq!(
        w.system.run(&mut w.transforms, &mut w.rigidbodies),
        vec![BodyCommand::Create(1)]
    );
}

#[test]
fn commands_are_resolved_against_the_handles() {
    let mut bodies = DefaultBodySet::<f32>::new();
    let first = body_at(&mut bodies, 0.0, 0.0, 0.0);
    let second = body_at(&mut bodies, 1.0, 0.0, 0.0);
    assert_ne!(first, second);
    let mut physics = PhysicsWorld::default();

    assert_eq!(
        physics.resolve_body(BodyCommand::Create(4)),
        BodyAction::Create {
            entity: 4,
            stale: None
        }
    );
    physics.insert_body(4, first);
    assert_eq!(physics.body_handle(4), Some(first));
    assert_eq!(
        physics.resolve_body(BodyCommand::UpdateMass(4)),
        BodyAction::SetMass {
            entity: 4,
            handle: first
        }
    );
    assert_eq!(
        physics.resolve_body(BodyCommand::UpdatePose(4)),
        BodyAction::SetPose {
            entity: 4,
            handle: first
        }
    );
    assert_eq!(physics.resolve_body(BodyCommand::UpdateMass(5)), BodyAction::Skip);
    assert_eq!(physics.resolve_body(BodyCommand::UpdatePose(5)), BodyAction::Skip);

    // building a second body for the entity hands the first one out as stale
    assert_eq!(
        physics.resolve_body(BodyCommand::Create(4)),
        BodyAction::Create {
            entity: 4,
            stale: Some(first)
        }
    );
    assert_eq!(physics.body_handle(4), None);
    physics.insert_body(4, second);
    assert_eq!(physics.body_handles.len(), 1);
    assert_eq!(physics.body_handle(4), Some(second));
}

#[test]
fn taking_a_body_out_twice_changes_nothing_the_second_time() {
    let mut bodies = DefaultBodySet::<f32>::new();
    let kept = body_at(&mut bodies, 0.0, 0.0, 0.0);
    let gone = body_at(&mut bodies, 1.0, 0.0, 0.0);
    let mut physics = PhysicsWorld::default();
    physics.insert_body(1, kept);
    physics.insert_body(2, gone);
    assert_eq!(
        physics.resolve_body(BodyCommand::Remove(2)),
        BodyAction::Remove {
            entity: 2,
            handle: gone
        }
    );
    let after_first = physics.body_handles.clone();
    assert_eq!(physics.resolve_body(BodyCommand::Remove(2)), BodyAction::Skip);
    assert_eq!(physics.body_handles, after_first);
    assert_eq!(physics.remove_body(2), None);
    assert_eq!(physics.body_handles, after_first);
    assert_eq!(physics.body_handle(1), Some(kept));
    assert_eq!(physics.remove_body(1), Some(kept));
    assert!(physics.body_handles.is_empty());
}

#[test]
fn a_pose_comes_back_as_it_went_in() {
    // a rigid body is inserted at P, the simulation does not step, and the
    // pose is read back
    let p = (0.4f32, 10.0f32, 0.2f32);
    let mut w = world();
    assert!(w.transforms.insert(3, at(p.0, p.1, p.2)).is_ok());
    assert!(w.rigidbodies.insert(3, RigidBody::default()).is_ok());
    let mut physics = PhysicsWorld::default();
    let mut bodies = DefaultBodySet::<f32>::new();
    for command in w.system.run(&mut w.transforms, &mut w.rigidbodies) {
        match physics.resolve_body(command) {
            BodyAction::Create { entity, stale } => {
                assert_eq!(stale, None);
                let position = w.transforms.get(entity).unwrap().position;
                let value = |r: Real| f32::from_bits(r.to_bits());
                let handle = body_at(
                    &mut bodies,
                    value(position.x),
                    value(position.y),
                    value(position.z),
                );
                physics.insert_body(entity, handle);
            }
            other => panic!("unexpected {:?}", other),
        }
    }

    let mut stepper = PhysicsStepperSystem::new(128);
    assert!(!stepper.run(1_000));

    let mut from_physics = SyncBodiesFromPhysicsSystem;
    let requests = from_physics.targets(&w.transforms, &w.rigidbodies, &physics);
    assert_eq!(
        requests,
        vec![PoseRequest {
            entity: 3,
            handle: physics.body_handle(3).unwrap()
        }]
    );
    let poses: Vec<BodyPose> = requests
        .iter()
        .map(|request| {
            let iso = bodies.rigid_body(request.handle).unwrap().position();
            let (roll, pitch, yaw) = iso.rotation.euler_angles();
            BodyPose {
                entity: request.entity,
                position: vec3(
                    scalar(iso.translation.vector.x),
                    scalar(iso.translation.vector.y),
                    scalar(iso.translation.vector.z),
                ),
                rotation: vec3(scalar(roll), scalar(pitch), scalar(yaw)),
            }
        })
        .collect();
    let reader = w.transforms.register_reader();
    assert!(w.transforms.has_room(poses.len()));
    from_physics.run(&mut w.transforms, &w.rigidbodies, &physics, &poses);
    assert_eq!(w.transforms.get(3).unwrap().position, at(p.0, p.1, p.2).position);
    // the write is noted, so that the model matrix is renewed
    assert_eq!(w.transforms.read(&reader), vec![ComponentEvent::Modified(3)]);
}

#[test]
fn poses_are_written_only_where_a_body_is_known() {
    let mut w = world();
    let mut bodies = DefaultBodySet::<f32>::new();
    let mut physics = PhysicsWorld::default();
    for id in 0..4u32 {
        assert!(w.transforms.insert(id, at(0.0, 0.0, 0.0)).is_ok());
    }
    assert!(w.rigidbodies.insert(0, RigidBody::default()).is_ok());
    assert!(w.rigidbodies.insert(1, RigidBody::default()).is_ok());
    physics.insert_body(1, body_at(&mut bodies, 0.0, 0.0, 0.0));
    physics.insert_body(2, body_at(&mut bodies, 0.0, 0.0, 0.0));
    let moved: Vec3 = vec3(scalar(7.0), scalar(8.0), scalar(9.0));
    let turned: Vec3 = vec3(scalar(0.1), scalar(0.2), scalar(0.3));
    let poses: Vec<BodyPose> = (0..5u32)
        .map(|entity| BodyPose {
            entity,
            position: moved,
            rotation: turned,
        })
        .collect();
    let mut system = SyncBodiesFromPhysicsSystem;
    let reader = w.transforms.register_reader();
    assert!(w.transforms.has_room(poses.len()));
    system.run(&mut w.transforms, &w.rigidbodies, &physics, &poses);
    // entity 0 has no body, entity 2 no rigid body, entity 3 neither, entity 4 no transform
    for id in [0u32, 2, 3] {
        assert_eq!(w.transforms.get(id).unwrap(), &at(0.0, 0.0, 0.0));
    }
    let written = w.transforms.get(1).unwrap();
    assert_eq!(written.position, moved);
    assert_eq!(written.rotation, turned);
    assert_eq!(written.scale, Transform::default().scale);
    assert_eq!(written.model_matrix, Transform::default().model_matrix);
    assert!(!w.transforms.contains(4));
    assert_eq!(w.transforms.read(&reader), vec![ComponentEvent::Modified(1)]);
    assert_eq!(
        system.targets(&w.transforms, &w.rigidbodies, &physics),
        vec![PoseRequest {
            entity: 1,
            handle: physics.body_handle(1).unwrap()
        }]
    );
}

#[test]
fn the_stepper_steps_once_per_timestep() {
    let mut stepper = PhysicsStepperSystem::new(128);
    assert_eq!(stepper.timestep(), Some(7_812_500));
    assert!(!stepper.run(7_812_499));
    assert!(stepper.run(7_812_500));
    // less than a timestep since the last step
    assert!(!stepper.run(7_812_500));
    assert!(!stepper.run(15_624_999));
    // one step, however late
    assert!(stepper.run(100_000_000));
    assert!(!stepper.run(100_000_001));
    // a clock that runs backwards steps nothing
    assert!(!stepper.run(0));
    assert!(stepper.run(107_812_500));
    stepper.set_tickrate(1);
    assert_eq!(stepper.timestep(), Some(1_000_000_000));
    assert!(!stepper.run(1_000_000_000));
    assert!(stepper.run(1_107_812_500));
    assert_eq!(PhysicsStepperSystem::new(3).timestep(), Some(333_333_333));
}

#[test]
fn a_stepper_without_a_rate_never_steps() {
    let mut stepper = PhysicsStepperSystem::new(0);
    assert_eq!(stepper.timestep(), None);
    assert!(!stepper.run(0));
    assert!(!stepper.run(u64::MAX));
}

#[test]
fn colliders_are_built_on_the_body_or_on_the_ground() {
    let mut transforms: ComponentStore<Transform> = ComponentStore::new(64);
    let mut colliders: ComponentStore<Collider> = ComponentStore::new(64);
    let mut system = SyncCollidersToPhysicsSystem {
        colliders_reader_id: colliders.register_reader(),
    };
    let ball = Collider {
        shape: Shape::Ball(scalar(1.0)),
        material: BasicMaterial {
            restitution: scalar(0.5),
            friction: scalar(0.5),
        },
    };
    for id in [6u32, 4] {
        assert!(transforms.insert(id, at(0.0, 0.0, 0.0)).is_ok());
        assert!(colliders.insert(id, ball).is_ok());
    }
    assert!(colliders.insert(7, ball).is_ok());
    assert_eq!(
        system.run(&transforms, &mut colliders),
        vec![ColliderCommand::Create(4), ColliderCommand::Create(6)]
    );

    let mut bodies = DefaultBodySet::<f32>::new();
    let mut set = DefaultColliderSet::<f32>::new();
    let body = body_at(&mut bodies, 0.0, 0.0, 0.0);
    let mut physics = PhysicsWorld::default();
    physics.insert_body(4, body);
    assert_eq!(
        physics.resolve_collider(ColliderCommand::Create(4)),
        ColliderAction::Create {
            entity: 4,
            stale: None,
            parent: Some(body)
        }
    );
    let on_body = ball_on(&mut set, body);
    physics.insert_collider(4, on_body);
    assert_eq!(
        physics.resolve_collider(ColliderCommand::Create(6)),
        ColliderAction::Create {
            entity: 6,
            stale: None,
            parent: None
        }
    );
    assert_eq!(physics.collider_handle(4), Some(on_body));
    assert_eq!(
        physics.resolve_collider(ColliderCommand::Create(4)),
        ColliderAction::Create {
            entity: 4,
            stale: Some(on_body),
            parent: Some(body)
        }
    );
    physics.insert_collider(4, on_body);

    assert!(colliders.remove(4).is_ok());
    assert!(colliders.remove(7).is_ok());
    assert_eq!(
        system.run(&transforms, &mut colliders),
        vec![ColliderCommand::Remove(4), ColliderCommand::Remove(7)]
    );
    assert_eq!(
        physics.resolve_collider(ColliderCommand::Remove(4)),
        ColliderAction::Remove {
            entity: 4,
            handle: on_body
        }
    );
    let after = physics.collider_handles.clone();
    assert_eq!(
        physics.resolve_collider(ColliderCommand::Remove(4)),
        ColliderAction::Skip
    );
    assert_eq!(
        physics.resolve_collider(ColliderCommand::Remove(7)),
        ColliderAction::Skip
    );
    assert_eq!(physics.remove_collider(4), None);
    assert_eq!(physics.collider_handles, after);
    assert_eq!(physics.body_handle(4), Some(body));
}

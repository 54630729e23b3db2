use engine::scheduler::{
    frame_dispatcher, DispatcherBuilder, Stage, PHYSICS, PHYSICS_STEPPER, RIGID_BODIES,
    SYNC_BODIES_FROM_PHYSICS, SYNC_BODIES_TO_PHYSICS, SYNC_COLLIDERS_TO_PHYSICS, TRANSFORMS,
    TRANSFORM_SYSTEM,
};

fn position_of(plan: &[Stage], system: usize) -> usize {
    plan.iter()
        .position(|stage| matches!(stage, Stage::Parallel(members) if members.contains(&system)))
        .unwrap()
}

#[test]
fn a_frame_runs_physics_then_transforms_then_the_renderer() {
    let dispatcher = frame_dispatcher();
    let plan = dispatcher.dispatch();
    assert_eq!(
        plan,
        vec![
            Stage::Parallel(vec![SYNC_BODIES_TO_PHYSICS]),
            Stage::Parallel(vec![SYNC_COLLIDERS_TO_PHYSICS]),
            Stage::Parallel(vec![PHYSICS_STEPPER]),
            Stage::Parallel(vec![SYNC_BODIES_FROM_PHYSICS]),
            Stage::Parallel(vec![TRANSFORM_SYSTEM]),
            Stage::ThreadLocal(0),
        ]
    );
    let to = position_of(&plan, SYNC_BODIES_TO_PHYSICS);
    let step = position_of(&plan, PHYSICS_STEPPER);
    let from = position_of(&plan, SYNC_BODIES_FROM_PHYSICS);
    let recompute = position_of(&plan, TRANSFORM_SYSTEM);
    let render = plan.iter().position(|s| *s == Stage::ThreadLocal(0)).unwrap();
    assert!(to < step && step < from && from < recompute && recompute < render);
    assert_eq!(dispatcher.thread_local, vec!["mesh_renderer_system"]);
    assert_eq!(dispatcher.systems[SYNC_BODIES_TO_PHYSICS].name, "sync_bodies_to_physics_system");
    assert_eq!(dispatcher.systems[TRANSFORM_SYSTEM].name, "transform_system");
    // every dispatch takes the same steps
    assert_eq!(dispatcher.dispatch(), plan);
}

#[test]
fn systems_that_do_not_conflict_share_a_stage() {
    let mut builder = DispatcherBuilder::new();
    let a = builder.with("reads transforms", TRANSFORMS, 0, vec![]);
    let b = builder.with("reads transforms too", TRANSFORMS, 0, vec![]);
    let c = builder.with("writes bodies", 0, RIGID_BODIES, vec![]);
    let d = builder.with("writes transforms", 0, TRANSFORMS, vec![]);
    let e = builder.with("writes transforms too", 0, TRANSFORMS, vec![]);
    let f = builder.with("after the first", 0, 0, vec![a]);
    assert_eq!((a, b, c, d, e, f), (0, 1, 2, 3, 4, 5));
    let dispatcher = builder.build();
    assert_eq!(
        dispatcher.dispatch(),
        vec![
            Stage::Parallel(vec![a, b, c]),
            Stage::Parallel(vec![d, f]),
            Stage::Parallel(vec![e]),
        ]
    );
}

#[test]
fn a_barrier_holds_back_what_comes_after_it() {
    let mut builder = DispatcherBuilder::new();
    let a = builder.with("a", 0, PHYSICS, vec![]);
    let b = builder.with("b", 0, PHYSICS, vec![a]);
    builder.with_barrier();
    let c = builder.with("c", 0, 0, vec![]);
    builder.with_barrier();
    builder.with_barrier();
    let d = builder.with("d", 0, 0, vec![]);
    builder.with_thread_local("first");
    builder.with_thread_local("second");
    let dispatcher = builder.build();
    assert_eq!(dispatcher.stage_count, 4);
    assert_eq!(
        dispatcher.dispatch(),
        vec![
            Stage::Parallel(vec![a]),
            Stage::Parallel(vec![b]),
            Stage::Parallel(vec![c]),
            Stage::Parallel(vec![d]),
            Stage::ThreadLocal(0),
            Stage::ThreadLocal(1),
        ]
    );
    assert_eq!(dispatcher.systems[c].epoch, 1);
    assert_eq!(dispatcher.systems[d].epoch, 3);
}

#[test]
fn an_empty_dispatcher_has_nothing_to_do() {
    let dispatcher = DispatcherBuilder::new().build();
    assert_eq!(dispatcher.dispatch(), vec![]);
    let mut builder = DispatcherBuilder::new();
    builder.with_barrier();
    builder.with_thread_local("alone");
    assert_eq!(builder.build().dispatch(), vec![Stage::ThreadLocal(0)]);
}

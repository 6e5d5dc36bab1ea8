use arete_binding::components::EntityId;
use arete_binding::dispatch::iterate_status;
use arete_binding::dispatch::RunOutcome;
use arete_binding::engine::ComponentRef;
use arete_binding::engine::Engine;
use arete_binding::query::Query;

const TRANSFORM: u16 = 1;
const COLOR: u16 = 2;
const VELOCITY: u16 = 3;

fn component(id: u16, data: &[u8]) -> ComponentRef {
    ComponentRef { component_id: id, data: data.to_vec() }
}

fn spawn_tank(engine: &mut Engine, transform: &[u8], color: &[u8]) -> EntityId {
    let entity = engine.spawn(vec![component(TRANSFORM, transform), component(COLOR, color)]);
    entity
}

#[test]
fn spawned_entities_get_distinct_handles() {
    let mut engine = Engine::new();
    let a = engine.spawn(vec![component(TRANSFORM, &[1])]);
    let b = engine.spawn(vec![component(TRANSFORM, &[2])]);
    assert_ne!(a, b);
}

#[test]
fn spawn_is_absent_from_queries_until_frame_end() {
    let mut engine = Engine::new();
    let early = spawn_tank(&mut engine, &[1, 0], &[9]);
    engine.end_frame();
    let query = Query::new(vec![TRANSFORM, COLOR]);
    assert_eq!(query.matching_entities(&engine), vec![early.0]);

    // a spawn issued mid-frame is invisible to queries evaluated later the
    // same frame
    let late = spawn_tank(&mut engine, &[2, 0], &[8]);
    assert_eq!(query.matching_entities(&engine), vec![early.0]);
    assert_eq!(query.get(&engine, late, TRANSFORM), None);

    // the next frame sees it
    engine.end_frame();
    assert_eq!(query.matching_entities(&engine), vec![early.0, late.0]);
    assert_eq!(query.get(&engine, late, TRANSFORM), Some(vec![2, 0]));
}

#[test]
fn despawn_remains_visible_until_frame_end() {
    let mut engine = Engine::new();
    let tank = spawn_tank(&mut engine, &[1], &[2]);
    engine.end_frame();
    let query = Query::new(vec![TRANSFORM]);
    engine.despawn(tank);
    // still present for the rest of the frame
    assert_eq!(query.matching_entities(&engine), vec![tank.0]);
    assert_eq!(query.get(&engine, tank, TRANSFORM), Some(vec![1]));
    engine.end_frame();
    assert_eq!(query.matching_entities(&engine), Vec::<u64>::new());
    assert_eq!(query.get(&engine, tank, TRANSFORM), None);
}

#[test]
fn spawn_and_despawn_same_frame_never_goes_live() {
    let mut engine = Engine::new();
    let tank = spawn_tank(&mut engine, &[1], &[2]);
    engine.despawn(tank);
    engine.end_frame();
    let query = Query::new(vec![TRANSFORM]);
    assert_eq!(query.matching_entities(&engine), Vec::<u64>::new());
}

#[test]
fn load_asset_is_idempotent() {
    let mut engine = Engine::new();
    let first = engine.load_asset(&b"tank.glb".to_vec());
    let other = engine.load_asset(&b"cube.glb".to_vec());
    let again = engine.load_asset(&b"tank.glb".to_vec());
    assert_eq!(first, again);
    assert_ne!(first, other);
    // and once more, later in the process
    engine.end_frame();
    assert_eq!(engine.load_asset(&b"tank.glb".to_vec()), first);
    assert_eq!(engine.load_asset(&b"cube.glb".to_vec()), other);
}

#[test]
fn point_lookups_respect_the_template() {
    let mut engine = Engine::new();
    let tank = spawn_tank(&mut engine, &[1], &[2]);
    let bare = engine.spawn(vec![component(TRANSFORM, &[3])]);
    engine.end_frame();
    let query = Query::new(vec![TRANSFORM, COLOR]);
    assert_eq!(query.get(&engine, tank, COLOR), Some(vec![2]));
    assert_eq!(query.get(&engine, tank, TRANSFORM), Some(vec![1]));
    // the bare entity lacks a Color, so it is outside this query
    assert_eq!(query.get(&engine, bare, TRANSFORM), None);
    // an entity that never existed
    assert_eq!(query.get(&engine, EntityId(999), TRANSFORM), None);
}

#[test]
fn writes_through_a_query_are_visible() {
    let mut engine = Engine::new();
    let tank = spawn_tank(&mut engine, &[1], &[2]);
    engine.end_frame();
    let query = Query::new(vec![TRANSFORM, COLOR]);
    assert!(query.get_mut(&mut engine, tank, TRANSFORM, vec![7, 7]));
    assert_eq!(query.get(&engine, tank, TRANSFORM), Some(vec![7, 7]));
    assert_eq!(query.get(&engine, tank, COLOR), Some(vec![2]));
    assert!(!query.get_mut(&mut engine, EntityId(999), TRANSFORM, vec![0]));
}

#[test]
fn first_match_serves_single_entity_queries() {
    let mut engine = Engine::new();
    let query = Query::new(vec![COLOR]);
    assert_eq!(query.get_first(&engine, COLOR), None);
    let _decoy = engine.spawn(vec![component(VELOCITY, &[0])]);
    let tank = spawn_tank(&mut engine, &[1], &[5]);
    engine.end_frame();
    assert_eq!(query.get_first(&engine, COLOR), Some(vec![5]));
    assert!(query.get_first_mut(&mut engine, COLOR, vec![6]));
    assert_eq!(query.get(&engine, tank, COLOR), Some(vec![6]));
}

#[test]
fn a_fault_mid_iteration_leaves_the_engine_serviceable() {
    let mut engine = Engine::new();
    spawn_tank(&mut engine, &[1], &[1]);
    spawn_tank(&mut engine, &[2], &[2]);
    spawn_tank(&mut engine, &[3], &[3]);
    engine.end_frame();
    let query = Query::new(vec![TRANSFORM, COLOR]);
    let plan = query.matching_entities(&engine);
    assert_eq!(plan.len(), 3);

    // the routine faults on the second entity; the fault surfaces as a
    // nonzero status instead of unwinding across the boundary
    let mut outcomes = Vec::new();
    for (k, entity) in plan.iter().enumerate() {
        if k == 1 {
            outcomes.push(RunOutcome::Faulted);
        } else {
            let seen = query.get(&engine, EntityId(*entity), TRANSFORM);
            assert!(seen.is_some());
            outcomes.push(RunOutcome::Completed);
        }
    }
    assert_ne!(iterate_status(&outcomes), 0);

    // the module still services unrelated calls afterwards
    let late = spawn_tank(&mut engine, &[4], &[4]);
    engine.end_frame();
    assert_eq!(query.get(&engine, late, COLOR), Some(vec![4]));
    assert_eq!(query.matching_entities(&engine).len(), 4);
    assert_eq!(engine.load_asset(&b"sphere.glb".to_vec()).0, 0);
}

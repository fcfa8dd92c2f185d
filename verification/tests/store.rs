use necs::{MiniTypeId, NodeId, StoreError, World};

#[derive(Debug, PartialEq, Clone, Copy)]
struct Point {
    x: i32,
    y: i32,
}

type PointFactory = fn(Point) -> (Point, i32);
type PointWorld = World<Point, u32, i32, PointFactory>;

const POINT_CODE: u64 = 1;
const OTHER_CODE: u64 = 2;
const VIEW_CODE: u64 = 77;

fn view_y(p: Point) -> (Point, i32) {
    let y = p.y;
    (p, y)
}

fn view_x(p: Point) -> (Point, i32) {
    let x = p.x;
    (p, x)
}

#[test]
fn round_trip_insert_get() {
    let mut world: PointWorld = World::new();
    let tag = world.register_node(POINT_CODE).unwrap();
    let id = world.spawn_node(tag, Point { x: 4, y: -7 }).unwrap();
    let (value, guard) = world.get_node(id).unwrap();
    assert_eq!(value, Point { x: 4, y: -7 });
    world.release_node(guard, value).unwrap();
}

#[test]
fn scenario_point_mutate_remove() {
    let mut world: PointWorld = World::new();
    let tag = world.register_node(POINT_CODE).unwrap();
    let id1 = world.spawn_node(tag, Point { x: 1, y: 2 }).unwrap();

    let (mut p, guard) = world.get_node(id1).unwrap();
    assert_eq!(p, Point { x: 1, y: 2 });
    p.y = 5;
    world.release_node(guard, p).unwrap();

    let (p, guard) = world.get_node(id1).unwrap();
    assert_eq!(p, Point { x: 1, y: 5 });
    world.release_node(guard, p).unwrap();

    world.free_node(&id1).unwrap();
    assert_eq!(world.get_node(id1).unwrap_err(), StoreError::MissingKey);
}

#[test]
fn scenario_two_types_one_each() {
    let mut world: PointWorld = World::new();
    let tag_a = world.register_node(POINT_CODE).unwrap();
    let tag_b = world.register_node(OTHER_CODE).unwrap();
    assert_ne!(tag_a, tag_b);

    let id_a = world.spawn_node(tag_a, Point { x: 1, y: 1 }).unwrap();
    let id_b = world.spawn_node(tag_b, Point { x: 2, y: 2 }).unwrap();

    let items_a = world.get_nodes(tag_a).unwrap();
    assert_eq!(items_a.len(), 1);
    assert_eq!(items_a[0].0, id_a);
    let mut items_a = items_a;
    let (na, va, ga) = items_a.pop().unwrap();
    assert_ne!(na, id_b);
    world.release_node(ga, va).unwrap();

    let items_b = world.get_nodes(tag_b).unwrap();
    assert_eq!(items_b.len(), 1);
    assert_eq!(items_b[0].0, id_b);
    assert_ne!(items_b[0].0, id_a);
    let mut items_b = items_b;
    let (_, vb, gb) = items_b.pop().unwrap();
    world.release_node(gb, vb).unwrap();
}

#[test]
fn exclusive_borrow_twice_fails() {
    let mut world: PointWorld = World::new();
    let tag = world.register_node(POINT_CODE).unwrap();
    let id = world.spawn_node(tag, Point { x: 0, y: 0 }).unwrap();

    let (v, guard) = world.get_node(id).unwrap();
    assert_eq!(world.get_node(id).unwrap_err(), StoreError::AlreadyBorrowed);
    world.release_node(guard, v).unwrap();
    let (v, guard) = world.get_node(id).unwrap();
    world.release_node(guard, v).unwrap();
}

#[test]
fn type_isolation_across_tags() {
    let mut world: PointWorld = World::new();
    let tag_a = world.register_node(POINT_CODE).unwrap();
    let tag_b = world.register_node(OTHER_CODE).unwrap();

    let id_a = world.spawn_node(tag_a, Point { x: 9, y: 9 }).unwrap();
    assert_eq!(world.get_node_ids(tag_b).unwrap().len(), 0);
    let ids_a = world.get_node_ids(tag_a).unwrap();
    assert_eq!(ids_a, vec![id_a]);

    let id_b = world.spawn_node(tag_b, Point { x: 8, y: 8 }).unwrap();
    let ids_b = world.get_node_ids(tag_b).unwrap();
    assert_eq!(ids_b, vec![id_b]);
    assert!(!ids_b.contains(&id_a));
    assert!(!world.get_node_ids(tag_a).unwrap().contains(&id_b));
}

#[test]
fn interface_resolution_iff_registered() {
    let mut world: PointWorld = World::new();
    let tag = world.register_node(POINT_CODE).unwrap();
    let id = world.spawn_node(tag, Point { x: 10, y: 30 }).unwrap();

    assert_eq!(
        world.get_node_resilient(VIEW_CODE, id).unwrap_err(),
        StoreError::UnregisteredInterface
    );

    world.register_trait(VIEW_CODE, tag, view_y as PointFactory);
    assert_eq!(world.get_node_resilient(VIEW_CODE, id).unwrap(), 30);

    // Another interface code stays unregistered.
    assert_eq!(
        world.get_node_resilient(VIEW_CODE + 1, id).unwrap_err(),
        StoreError::UnregisteredInterface
    );

    // Resolution leaves the record stored and unborrowed.
    let (v, guard) = world.get_node(id).unwrap();
    assert_eq!(v, Point { x: 10, y: 30 });
    world.release_node(guard, v).unwrap();

    world.free_node(&id).unwrap();
    assert_eq!(
        world.get_node_resilient(VIEW_CODE, id).unwrap_err(),
        StoreError::MissingKey
    );
}

#[test]
fn interface_resolution_while_borrowed() {
    let mut world: PointWorld = World::new();
    let tag = world.register_node(POINT_CODE).unwrap();
    world.register_trait(VIEW_CODE, tag, view_y as PointFactory);
    let id = world.spawn_node(tag, Point { x: 1, y: 2 }).unwrap();

    let (v, guard) = world.get_node(id).unwrap();
    assert_eq!(
        world.get_node_resilient(VIEW_CODE, id).unwrap_err(),
        StoreError::AlreadyBorrowed
    );
    world.release_node(guard, v).unwrap();
}

#[test]
fn trait_registration_replaces_factory() {
    let mut world: PointWorld = World::new();
    let tag = world.register_node(POINT_CODE).unwrap();
    let id = world.spawn_node(tag, Point { x: 100, y: 200 }).unwrap();

    world.register_trait(VIEW_CODE, tag, view_y as PointFactory);
    assert_eq!(world.get_node_resilient(VIEW_CODE, id).unwrap(), 200);

    world.register_trait(VIEW_CODE, tag, view_x as PointFactory);
    assert_eq!(world.get_node_resilient(VIEW_CODE, id).unwrap(), 100);
}

#[test]
fn stale_id_rejected_after_reuse() {
    let mut world: PointWorld = World::new();
    let tag = world.register_node(POINT_CODE).unwrap();
    let id1 = world.spawn_node(tag, Point { x: 1, y: 1 }).unwrap();
    world.free_node(&id1).unwrap();

    // The freed slot index is reused under a bumped generation.
    let id2 = world.spawn_node(tag, Point { x: 2, y: 2 }).unwrap();
    assert_ne!(id1, id2);
    if id2.instance.index == id1.instance.index {
        assert!(id2.instance.generation > id1.instance.generation);
    }

    assert_eq!(world.get_node(id1).unwrap_err(), StoreError::MissingKey);
    assert_eq!(world.free_node(&id1).unwrap_err(), StoreError::MissingKey);
    let (v, guard) = world.get_node(id2).unwrap();
    assert_eq!(v, Point { x: 2, y: 2 });
    world.release_node(guard, v).unwrap();
}

#[test]
fn spawned_ids_pairwise_distinct() {
    let mut world: PointWorld = World::new();
    let tag = world.register_node(POINT_CODE).unwrap();
    let mut ids: Vec<NodeId> = Vec::new();
    for i in 0..20 {
        ids.push(world.spawn_node(tag, Point { x: i, y: i }).unwrap());
    }
    for i in 0..ids.len() {
        for j in 0..ids.len() {
            if i != j {
                assert_ne!(ids[i], ids[j]);
            }
        }
    }
}

#[test]
fn get_nodes_fails_while_one_is_borrowed() {
    let mut world: PointWorld = World::new();
    let tag = world.register_node(POINT_CODE).unwrap();
    let _ = world.spawn_node(tag, Point { x: 1, y: 0 }).unwrap();
    let id2 = world.spawn_node(tag, Point { x: 2, y: 0 }).unwrap();

    let (v, guard) = world.get_node(id2).unwrap();
    assert_eq!(world.get_nodes(tag).unwrap_err(), StoreError::AlreadyBorrowed);
    world.release_node(guard, v).unwrap();

    let items = world.get_nodes(tag).unwrap();
    assert_eq!(items.len(), 2);
    assert!(items[0].0.instance.index < items[1].0.instance.index);
    for (_, v, guard) in items {
        world.release_node(guard, v).unwrap();
    }
}

#[test]
fn unregistered_tag_is_refused() {
    let mut world: PointWorld = World::new();
    let bad_tag = MiniTypeId::from_index(5);
    assert_eq!(
        world.spawn_node(bad_tag, Point { x: 0, y: 0 }).unwrap_err(),
        StoreError::UnregisteredType
    );
    assert_eq!(world.get_node_ids(bad_tag).unwrap_err(), StoreError::UnregisteredType);
    assert_eq!(world.get_nodes(bad_tag).unwrap_err(), StoreError::UnregisteredType);
    assert_eq!(
        world.storage.nodes.mini_type_of(99).unwrap_err(),
        StoreError::UnregisteredType
    );
}

#[test]
fn node_ids_enumerate_in_index_order() {
    let mut world: PointWorld = World::new();
    let tag = world.register_node(POINT_CODE).unwrap();
    let a = world.spawn_node(tag, Point { x: 0, y: 0 }).unwrap();
    let b = world.spawn_node(tag, Point { x: 1, y: 0 }).unwrap();
    let c = world.spawn_node(tag, Point { x: 2, y: 0 }).unwrap();

    let ids = world.get_node_ids(tag).unwrap();
    assert_eq!(ids.len(), 3);
    for w in ids.windows(2) {
        assert!(w[0].instance.index < w[1].instance.index);
    }

    world.free_node(&b).unwrap();
    let ids = world.get_node_ids(tag).unwrap();
    assert_eq!(ids.len(), 2);
    assert!(ids.contains(&a) && ids.contains(&c) && !ids.contains(&b));
}

#[test]
fn guard_remembers_its_record() {
    let mut world: PointWorld = World::new();
    let tag = world.register_node(POINT_CODE).unwrap();
    let id = world.spawn_node(tag, Point { x: 3, y: 4 }).unwrap();
    let (v, guard) = world.get_node(id).unwrap();
    assert_eq!(guard.id(), id);
    world.release_node(guard, v).unwrap();
}

#[test]
fn release_after_free_reports_missing() {
    let mut world: PointWorld = World::new();
    let tag = world.register_node(POINT_CODE).unwrap();
    let id = world.spawn_node(tag, Point { x: 1, y: 2 }).unwrap();
    let (v, guard) = world.get_node(id).unwrap();
    world.free_node(&id).unwrap();
    let (v_back, e) = world.release_node(guard, v).unwrap_err();
    assert_eq!(e, StoreError::MissingKey);
    assert_eq!(v_back, Point { x: 1, y: 2 });
}

#[test]
fn world_default_is_empty() {
    let world: PointWorld = World::default();
    assert_eq!(
        world.get_node_ids(MiniTypeId::from_index(0)).unwrap_err(),
        StoreError::UnregisteredType
    );
}

#[test]
fn spawn_records_family_ties() {
    let mut world: PointWorld = World::new();
    let tag = world.register_node(POINT_CODE).unwrap();
    let id = world.spawn_node(tag, Point { x: 0, y: 0 }).unwrap();

    assert!(world.community.keys().contains(&id.instance));
    let ties = world.community.take(id.instance).unwrap();
    assert_eq!(ties.parent, None);
    assert!(ties.children.is_empty());
    world.community.put(id.instance, ties).unwrap();

    world.free_node(&id).unwrap();
    assert!(!world.community.keys().contains(&id.instance));
}

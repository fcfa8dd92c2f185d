use necs::World;

#[derive(Debug, PartialEq, Clone, Copy)]
struct Useless;

#[derive(Debug, PartialEq, Clone)]
struct Foo {
    x: Useless,
    y: i32,
    z: i32,
}

type FooFactory = fn(Foo) -> (Foo, i32);
type FooWorld = World<Foo, u32, i32, FooFactory>;

const FOO_CODE: u64 = 10;
const BAR_CODE: u64 = 11;
const PROCESS_CODE: u64 = 20;
const NODE_CODE: u64 = 21;

fn process_foo(f: Foo) -> (Foo, i32) {
    let y = f.y;
    (f, y)
}

fn node_foo(f: Foo) -> (Foo, i32) {
    let z = f.z;
    (f, z)
}

#[test]
fn register_spawn_retrieve() {
    let mut world: FooWorld = World::new();
    let tag = world.register_node(FOO_CODE).unwrap();
    world.register_trait(PROCESS_CODE, tag, process_foo as FooFactory);
    world.register_trait(NODE_CODE, tag, node_foo as FooFactory);
    let bar_tag = world.storage.components.register(BAR_CODE).unwrap();

    let node_id = world
        .spawn_node(tag, Foo { x: Useless, y: 3, z: 2 })
        .unwrap();
    let bar_id = world
        .storage
        .components
        .insert(bar_tag, node_id.instance, 2u32)
        .unwrap();

    // The node can be retrieved as a concrete value.
    let (node, guard) = world.get_node(node_id).unwrap();
    let bar = world.storage.components.get_component(&bar_id).unwrap();
    println!("node.x: {:?} node.bar: {}", node.x, bar);
    println!("node.process():");
    println!("{:?}", &node.y);
    assert_eq!(node.y, 3);
    assert_eq!(bar, 2);
    world.storage.components.put_component(&bar_id, bar).unwrap();
    world.release_node(guard, node).unwrap();

    // Or it may be retrieved as any one of the registered interfaces.
    let processed = world.get_node_resilient(PROCESS_CODE, node_id).unwrap();
    assert_eq!(processed, 3);
    let bar = world.storage.components.get_component(&bar_id).unwrap();
    println!("Process bar: {}", bar);
    world.storage.components.put_component(&bar_id, bar).unwrap();

    // The node-wide interface is registered for this node type too.
    let node_view = world.get_node_resilient(NODE_CODE, node_id).unwrap();
    assert_eq!(node_view, 2);
    let bar = world.storage.components.get_component(&bar_id).unwrap();
    println!("Node bar: {}", bar);
    world.storage.components.put_component(&bar_id, bar).unwrap();

    for (_, mut foo, guard) in world.get_nodes(tag).unwrap() {
        foo.y = 1;
        println!("Found a Foo");
        world.release_node(guard, foo).unwrap();
    }
    let updated = world.get_node_resilient(PROCESS_CODE, node_id).unwrap();
    assert_eq!(updated, 1);
}

use necs::{
    ComponentStorage, ItemKey, KeyAllocator, MiniTypeId, MiniTypeMap, Relations, Storage,
    StoreError, SubStorage, type_not_registered,
};

#[test]
fn minted_keys_pairwise_distinct() {
    let mut alloc = KeyAllocator::new();
    let mut keys: Vec<ItemKey> = Vec::new();
    for _ in 0..100 {
        keys.push(alloc.mint());
    }
    for i in 0..keys.len() {
        assert!(alloc.is_live(&keys[i]));
        for j in 0..keys.len() {
            if i != j {
                assert_ne!(keys[i], keys[j]);
            }
        }
    }
}

#[test]
fn freed_key_goes_stale_and_index_is_reused() {
    let mut alloc = KeyAllocator::new();
    let k = alloc.mint();
    assert!(alloc.is_live(&k));
    assert!(alloc.free(k));
    assert!(!alloc.is_live(&k));
    assert!(!alloc.free(k));

    let k2 = alloc.mint();
    assert_eq!(k2.index, k.index);
    assert!(k2.generation > k.generation);
    assert_ne!(k2, k);
    assert!(!alloc.is_live(&k));
    assert!(alloc.is_live(&k2));
}

#[test]
fn mini_type_id_round_trip() {
    let tag = MiniTypeId::from_index(7);
    assert_eq!(tag.index(), 7);
    assert_eq!(MiniTypeId::from_index(0).index(), 0);
    assert_eq!(MiniTypeId::from_index(65534).index(), 65534);
}

#[test]
fn registry_is_idempotent_and_dense() {
    let mut map: MiniTypeMap<u32> = MiniTypeMap::new();
    let t0 = map.register(500).unwrap();
    let t1 = map.register(900).unwrap();
    assert_eq!(t0.index(), 0);
    assert_eq!(t1.index(), 1);
    assert_eq!(map.register(500).unwrap(), t0);
    assert_eq!(map.register(900).unwrap(), t1);
    assert_eq!(map.mini_type_of(500).unwrap(), t0);
    assert_eq!(map.mini_type_of(900).unwrap(), t1);
    assert_eq!(map.mini_type_of(7).unwrap_err(), StoreError::UnregisteredType);
    assert_eq!(type_not_registered(), StoreError::UnregisteredType);
}

#[test]
fn registry_capacity_is_bounded() {
    // A registry already at the maximum number of distinct types.
    let mut codes: Vec<u64> = Vec::new();
    let mut subs: Vec<SubStorage<u32>> = Vec::new();
    for i in 0..65535u64 {
        codes.push(i);
        subs.push(SubStorage::new());
    }
    let mut map: MiniTypeMap<u32> = MiniTypeMap { codes, subs };
    assert_eq!(map.register(1_000_000).unwrap_err(), StoreError::CapacityExceeded);
    // An already registered code still answers with its tag.
    assert_eq!(map.register(42).unwrap().index(), 42);
}

#[test]
fn sub_storage_checkout_and_checkin() {
    let mut sub: SubStorage<String> = SubStorage::new();
    let k = ItemKey { index: 3, generation: 0 };
    sub.insert(k, String::from("hello"));

    let v = sub.take(k).unwrap();
    assert_eq!(v, "hello");
    assert_eq!(sub.take(k).unwrap_err(), StoreError::AlreadyBorrowed);
    sub.put(k, v).unwrap();

    // Releasing into a cell that is not checked out is refused.
    let (v_back, e) = sub.put(k, String::from("other")).unwrap_err();
    assert_eq!(e, StoreError::NotBorrowed);
    assert_eq!(v_back, "other");

    // A stale generation is rejected as missing.
    let stale = ItemKey { index: 3, generation: 9 };
    assert_eq!(sub.take(stale).unwrap_err(), StoreError::MissingKey);

    assert_eq!(sub.remove(k).unwrap(), Some(String::from("hello")));
    assert_eq!(sub.take(k).unwrap_err(), StoreError::MissingKey);
}

#[test]
fn sub_storage_keys_in_index_order() {
    let mut sub: SubStorage<u32> = SubStorage::new();
    sub.insert(ItemKey { index: 5, generation: 0 }, 50);
    sub.insert(ItemKey { index: 2, generation: 1 }, 20);
    sub.insert(ItemKey { index: 9, generation: 3 }, 90);
    let keys = sub.keys();
    assert_eq!(
        keys,
        vec![
            ItemKey { index: 2, generation: 1 },
            ItemKey { index: 5, generation: 0 },
            ItemKey { index: 9, generation: 3 },
        ]
    );
}

#[test]
fn sub_storage_take_all_is_exclusive() {
    let mut sub: SubStorage<u32> = SubStorage::new();
    sub.insert(ItemKey { index: 0, generation: 0 }, 10);
    sub.insert(ItemKey { index: 4, generation: 0 }, 40);

    let taken = sub.take_all().unwrap();
    assert_eq!(
        taken,
        vec![
            (ItemKey { index: 0, generation: 0 }, 10),
            (ItemKey { index: 4, generation: 0 }, 40),
        ]
    );
    // Everything is now checked out.
    assert_eq!(sub.take(ItemKey { index: 0, generation: 0 }).unwrap_err(), StoreError::AlreadyBorrowed);
    assert_eq!(sub.take_all().unwrap_err(), StoreError::AlreadyBorrowed);
    for (k, v) in taken {
        sub.put(k, v).unwrap();
    }
    assert_eq!(sub.take_all().unwrap().len(), 2);
}

#[test]
fn components_follow_their_owner_key() {
    let mut storage: Storage<u8, u32> = Storage::new();
    let ctag = storage.components.register(11).unwrap();

    let ntag = storage.nodes.register(1).unwrap();
    let id = storage.nodes.spawn(ntag, 0u8).unwrap();

    let cid = storage.components.insert(ctag, id.instance, 2u32).unwrap();
    assert_eq!(cid.component_type, ctag);
    assert_eq!(cid.key, id.instance);

    let c = storage.components.get_component(&cid).unwrap();
    assert_eq!(c, 2);
    assert_eq!(
        storage.components.get_component(&cid).unwrap_err(),
        StoreError::AlreadyBorrowed
    );
    storage.components.put_component(&cid, c + 1).unwrap();
    let c = storage.components.get_component(&cid).unwrap();
    assert_eq!(c, 3);
    storage.components.put_component(&cid, c).unwrap();

    let all = storage.components.get_components(ctag).unwrap();
    assert_eq!(all.len(), 1);
    assert_eq!(all[0].0, cid);
    assert_eq!(all[0].1, 3);
    for (i, c) in all {
        storage.components.put_component(&i, c).unwrap();
    }
}

#[test]
fn component_storage_rejects_unregistered_tag() {
    let mut components: ComponentStorage<u32> = ComponentStorage::new();
    let bad = MiniTypeId::from_index(3);
    assert_eq!(
        components.insert(bad, ItemKey { index: 0, generation: 0 }, 5).unwrap_err(),
        StoreError::UnregisteredType
    );
    assert_eq!(components.get_components(bad).unwrap_err(), StoreError::UnregisteredType);
}

#[test]
fn relations_start_empty() {
    let r = Relations::new(None);
    assert_eq!(r.parent, None);
    assert!(r.children.is_empty());

    let parent = ItemKey { index: 8, generation: 2 };
    let r = Relations::new(Some(parent));
    assert_eq!(r.parent, Some(parent));
    assert!(r.children.is_empty());
}

#[test]
fn storage_default_is_empty() {
    let storage: Storage<u8, u8> = Storage::default();
    assert_eq!(
        storage.nodes.mini_type_of(0).unwrap_err(),
        StoreError::UnregisteredType
    );
}

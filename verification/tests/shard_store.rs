use auria_core::{
    AuriaError, ExpertId, PublicKey, Shard, ShardId, ShardMetadata, ShardStore, Tensor,
    TensorDType,
};

fn shard(id: u8, version: u32, data: Vec<u8>) -> Shard {
    let n = data.len() as u32;
    Shard {
        shard_id: ShardId([id; 32]),
        expert_id: ExpertId([7; 32]),
        tensor: Tensor { data, shape: vec![n], dtype: TensorDType::INT8 },
        metadata: ShardMetadata {
            owner: PublicKey([9; 32]),
            license_hash: Some(auria_core::ids::Hash([3; 32])),
            created_at: 1_700_000_000,
            version,
        },
    }
}

fn same(a: &Shard, b: &Shard) -> bool {
    a.shard_id == b.shard_id
        && a.expert_id == b.expert_id
        && a.tensor.data == b.tensor.data
        && a.tensor.shape == b.tensor.shape
        && a.tensor.dtype == b.tensor.dtype
        && a.metadata.owner == b.metadata.owner
        && a.metadata.license_hash == b.metadata.license_hash
        && a.metadata.created_at == b.metadata.created_at
        && a.metadata.version == b.metadata.version
}

#[test]
fn get_returns_what_put_stored() {
    let mut store = ShardStore::new();
    let s = shard(1, 1, vec![10, 20, 30]);
    let id = store.put(s.clone()).unwrap();
    assert_eq!(id, ShardId([1; 32]));
    let back = store.get(&id, Some(1)).unwrap();
    assert!(same(&back, &s));
    let newest = store.get(&id, None).unwrap();
    assert!(same(&newest, &s));
}

#[test]
fn inconsistent_tensor_is_refused_and_not_stored() {
    let mut store = ShardStore::new();
    let mut s = shard(2, 1, vec![1, 2, 3]);
    s.tensor.shape = vec![4];
    match store.put(s) {
        Err(AuriaError::StorageError(_)) => {}
        other => panic!("unexpected: {:?}", other),
    }
    assert!(!store.contains(&ShardId([2; 32])));
    assert!(matches!(
        store.get(&ShardId([2; 32]), None),
        Err(AuriaError::ShardNotFound(id)) if id == ShardId([2; 32])
    ));
}

#[test]
fn absent_shard_is_not_found() {
    let mut store = ShardStore::new();
    store.put(shard(1, 1, vec![1])).unwrap();
    assert!(matches!(
        store.get(&ShardId([5; 32]), None),
        Err(AuriaError::ShardNotFound(id)) if id == ShardId([5; 32])
    ));
    assert!(matches!(
        store.get(&ShardId([1; 32]), Some(2)),
        Err(AuriaError::ShardNotFound(id)) if id == ShardId([1; 32])
    ));
    assert!(store.contains(&ShardId([1; 32])));
    assert!(!store.contains(&ShardId([5; 32])));
}

#[test]
fn versions_coexist_and_none_means_newest() {
    let mut store = ShardStore::new();
    store.put(shard(1, 2, vec![2, 2])).unwrap();
    store.put(shard(1, 5, vec![5, 5, 5])).unwrap();
    store.put(shard(1, 3, vec![3])).unwrap();
    let id = ShardId([1; 32]);
    assert_eq!(store.get(&id, Some(2)).unwrap().tensor.data, vec![2, 2]);
    assert_eq!(store.get(&id, Some(3)).unwrap().tensor.data, vec![3]);
    assert_eq!(store.get(&id, Some(5)).unwrap().tensor.data, vec![5, 5, 5]);
    let newest = store.get(&id, None).unwrap();
    assert_eq!(newest.metadata.version, 5);
    assert_eq!(newest.tensor.data, vec![5, 5, 5]);
}

#[test]
fn last_writer_wins_for_one_version() {
    let mut store = ShardStore::new();
    store.put(shard(1, 1, vec![1, 1])).unwrap();
    store.put(shard(2, 1, vec![8])).unwrap();
    store.put(shard(1, 1, vec![4, 4, 4, 4])).unwrap();
    let id = ShardId([1; 32]);
    assert_eq!(store.get(&id, Some(1)).unwrap().tensor.data, vec![4, 4, 4, 4]);
    assert_eq!(store.get(&ShardId([2; 32]), None).unwrap().tensor.data, vec![8]);
}

#[test]
fn refused_put_leaves_the_stored_version() {
    let mut store = ShardStore::new();
    store.put(shard(1, 1, vec![1, 1])).unwrap();
    let mut bad = shard(1, 1, vec![9]);
    bad.tensor.shape = vec![2, 2];
    assert!(store.put(bad).is_err());
    assert_eq!(store.get(&ShardId([1; 32]), Some(1)).unwrap().tensor.data, vec![1, 1]);
}

#[test]
fn addressed_put_checks_the_digest() {
    let mut store = ShardStore::new();
    let s = shard(6, 1, vec![1, 2]);
    match store.put_addressed(s.clone(), &auria_core::ids::Hash([5; 32])) {
        Err(AuriaError::SecurityError(_)) => {}
        other => panic!("unexpected: {:?}", other),
    }
    assert!(!store.contains(&ShardId([6; 32])));
    let id = store.put_addressed(s, &auria_core::ids::Hash([6; 32])).unwrap();
    assert_eq!(id, ShardId([6; 32]));
    assert!(store.contains(&id));
    let mut bad = shard(6, 2, vec![1, 2]);
    bad.tensor.shape = vec![3];
    match store.put_addressed(bad, &auria_core::ids::Hash([6; 32])) {
        Err(AuriaError::StorageError(_)) => {}
        other => panic!("unexpected: {:?}", other),
    }
}

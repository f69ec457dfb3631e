use auria_core::assemble::assemble;
use auria_core::{
    AuriaError, Expert, ExpertId, PublicKey, Shard, ShardId, ShardMetadata, ShardStore, Tensor,
    TensorDType, TensorLayout,
};

fn shard(id: u8, version: u32, data: Vec<u8>, dtype: TensorDType) -> Shard {
    let n = data.len() as u32;
    let shape = match dtype {
        TensorDType::FP16 => vec![n / 2],
        TensorDType::INT4 => vec![n * 2],
        _ => vec![n],
    };
    Shard {
        shard_id: ShardId([id; 32]),
        expert_id: ExpertId([1; 32]),
        tensor: Tensor { data, shape, dtype },
        metadata: ShardMetadata {
            owner: PublicKey([9; 32]),
            license_hash: None,
            created_at: 0,
            version,
        },
    }
}

fn expert(shards: Vec<u8>, offset: u64, stride: u32, shape: Vec<u32>) -> Expert {
    Expert {
        expert_id: ExpertId([1; 32]),
        shards: shards.into_iter().map(|b| ShardId([b; 32])).collect(),
        tensor_layout: TensorLayout { offset, stride, shape },
    }
}

#[test]
fn shards_are_written_at_offset_plus_place_times_stride() {
    let mut store = ShardStore::new();
    store.put(shard(1, 1, vec![1, 2, 3], TensorDType::INT8)).unwrap();
    store.put(shard(2, 1, vec![9, 9], TensorDType::INT8)).unwrap();
    let e = expert(vec![1, 2], 2, 4, vec![12]);
    let t = assemble(&e, &store).unwrap();
    assert_eq!(t.data, vec![0, 0, 1, 2, 3, 0, 9, 9, 0, 0, 0, 0]);
    assert_eq!(t.shape, vec![12]);
    assert_eq!(t.dtype, TensorDType::INT8);
    assert!(t.is_consistent());
}

#[test]
fn contiguous_shards_concatenate() {
    let mut store = ShardStore::new();
    store.put(shard(1, 1, vec![1, 2, 3, 4], TensorDType::FP16)).unwrap();
    store.put(shard(2, 1, vec![5, 6, 7, 8], TensorDType::FP16)).unwrap();
    let e = expert(vec![1, 2], 0, 4, vec![2, 2]);
    let t = assemble(&e, &store).unwrap();
    assert_eq!(t.data, vec![1, 2, 3, 4, 5, 6, 7, 8]);
    assert_eq!(t.shape, vec![2, 2]);
    assert_eq!(t.dtype, TensorDType::FP16);
}

#[test]
fn of_overlapping_shards_the_later_stays() {
    let mut store = ShardStore::new();
    store.put(shard(1, 1, vec![1, 1, 1], TensorDType::INT8)).unwrap();
    store.put(shard(2, 1, vec![2, 2, 2], TensorDType::INT8)).unwrap();
    let e = expert(vec![1, 2], 0, 2, vec![5]);
    let t = assemble(&e, &store).unwrap();
    assert_eq!(t.data, vec![1, 1, 2, 2, 2]);
}

#[test]
fn the_newest_version_of_each_shard_is_used() {
    let mut store = ShardStore::new();
    store.put(shard(1, 1, vec![1, 1], TensorDType::INT8)).unwrap();
    store.put(shard(1, 4, vec![4, 4], TensorDType::INT8)).unwrap();
    store.put(shard(1, 2, vec![2, 2], TensorDType::INT8)).unwrap();
    let e = expert(vec![1], 0, 0, vec![2]);
    assert_eq!(assemble(&e, &store).unwrap().data, vec![4, 4]);
}

#[test]
fn the_first_missing_shard_is_reported() {
    let mut store = ShardStore::new();
    store.put(shard(1, 1, vec![1], TensorDType::INT8)).unwrap();
    let e = expert(vec![1, 4, 5], 0, 1, vec![3]);
    assert!(matches!(
        assemble(&e, &store),
        Err(AuriaError::ShardNotFound(id)) if id == ShardId([4; 32])
    ));
    // A missing shard comes before a layout that could not hold the shards.
    let e = expert(vec![1, 4], 100, 1, vec![1]);
    assert!(matches!(
        assemble(&e, &store),
        Err(AuriaError::ShardNotFound(id)) if id == ShardId([4; 32])
    ));
}

#[test]
fn an_expert_without_shards_has_no_tensor() {
    let store = ShardStore::new();
    let e = expert(vec![], 0, 0, vec![0]);
    assert!(matches!(assemble(&e, &store), Err(AuriaError::StorageError(_))));
}

#[test]
fn shards_of_different_element_types_are_refused() {
    let mut store = ShardStore::new();
    store.put(shard(1, 1, vec![1, 2], TensorDType::INT8)).unwrap();
    store.put(shard(2, 1, vec![3, 4], TensorDType::FP16)).unwrap();
    let e = expert(vec![1, 2], 0, 2, vec![4]);
    assert!(matches!(assemble(&e, &store), Err(AuriaError::StorageError(_))));
}

#[test]
fn a_shard_that_lies_outside_the_tensor_is_refused() {
    let mut store = ShardStore::new();
    store.put(shard(1, 1, vec![1, 2, 3], TensorDType::INT8)).unwrap();
    let e = expert(vec![1], 2, 0, vec![4]);
    assert!(matches!(assemble(&e, &store), Err(AuriaError::StorageError(_))));
    let e = expert(vec![1], 1, 0, vec![4]);
    assert_eq!(assemble(&e, &store).unwrap().data, vec![0, 1, 2, 3]);
    let e = expert(vec![1, 1], u64::MAX, u32::MAX, vec![4]);
    assert!(matches!(assemble(&e, &store), Err(AuriaError::StorageError(_))));
}

#[test]
fn a_tensor_too_large_to_size_is_refused() {
    let mut store = ShardStore::new();
    store.put(shard(1, 1, vec![1], TensorDType::INT8)).unwrap();
    let e = expert(vec![1], 0, 0, vec![u32::MAX, u32::MAX, u32::MAX]);
    assert!(matches!(assemble(&e, &store), Err(AuriaError::StorageError(_))));
}

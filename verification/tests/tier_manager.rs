use auria_core::placement::Capacities;
use auria_core::{
    AuriaError, Expert, ExpertCacheEntry, ExpertId, PublicKey, Router, Shard, ShardId,
    ShardMetadata, ShardStore, StorageTier, Tensor, TensorDType, TensorLayout, TierManager,
    Topology,
};

fn entry(id: u8, bytes: usize, used: u64) -> ExpertCacheEntry {
    ExpertCacheEntry {
        expert_id: ExpertId([id; 32]),
        tensor: Tensor { data: vec![id; bytes], shape: vec![bytes as u32], dtype: TensorDType::INT8 },
        last_used_timestamp: used,
    }
}

fn caps(vram: u64, ram: u64, disk: u64) -> Capacities {
    Capacities { vram, ram, disk }
}

fn tier(m: &TierManager, id: u8) -> Option<StorageTier> {
    m.tier_of(&ExpertId([id; 32]))
}

fn shard(id: u8, data: Vec<u8>) -> Shard {
    let n = data.len() as u32;
    Shard {
        shard_id: ShardId([id; 32]),
        expert_id: ExpertId([0; 32]),
        tensor: Tensor { data, shape: vec![n], dtype: TensorDType::INT8 },
        metadata: ShardMetadata {
            owner: PublicKey([9; 32]),
            license_hash: None,
            created_at: 0,
            version: 1,
        },
    }
}

fn expert(id: u8, shards: Vec<u8>, stride: u32, total: u32) -> Expert {
    Expert {
        expert_id: ExpertId([id; 32]),
        shards: shards.into_iter().map(|b| ShardId([b; 32])).collect(),
        tensor_layout: TensorLayout { offset: 0, stride, shape: vec![total] },
    }
}

#[test]
fn a_new_manager_is_empty() {
    let m = TierManager::new(caps(8, 16, 32));
    let s = m.stats();
    assert_eq!((s.vram_count, s.ram_count, s.disk_count), (0, 0, 0));
    assert_eq!(tier(&m, 1), None);
    let b = m.bounds();
    assert_eq!((b.vram, b.ram, b.disk), (8, 16, 32));
}

#[test]
fn a_full_tier_demotes_its_least_recently_used_entry() {
    let mut m = TierManager::new(caps(8, 16, 32));
    assert!(m.place(entry(1, 4, 10), StorageTier::Vram));
    assert!(m.place(entry(2, 4, 20), StorageTier::Vram));
    assert_eq!(m.used_in(StorageTier::Vram), 8);
    assert!(m.place(entry(3, 4, 30), StorageTier::Vram));
    assert_eq!(tier(&m, 1), Some(StorageTier::Ram));
    assert_eq!(tier(&m, 2), Some(StorageTier::Vram));
    assert_eq!(tier(&m, 3), Some(StorageTier::Vram));
    let s = m.stats();
    assert_eq!((s.vram_count, s.ram_count, s.disk_count), (2, 1, 0));
    // The demoted entry kept its tensor.
    let t = m.lookup(&ExpertId([1; 32]), 31).unwrap();
    assert_eq!(t.data, vec![1; 4]);
}

#[test]
fn the_oldest_goes_whatever_the_order_of_placing() {
    let mut m = TierManager::new(caps(8, 16, 32));
    m.place(entry(1, 4, 50), StorageTier::Vram);
    m.place(entry(2, 4, 20), StorageTier::Vram);
    m.place(entry(3, 4, 60), StorageTier::Vram);
    assert_eq!(tier(&m, 2), Some(StorageTier::Ram));
    assert_eq!(tier(&m, 1), Some(StorageTier::Vram));
    assert_eq!(tier(&m, 3), Some(StorageTier::Vram));
}

#[test]
fn of_equally_old_entries_the_one_placed_first_goes() {
    let mut m = TierManager::new(caps(8, 16, 32));
    m.place(entry(1, 4, 7), StorageTier::Vram);
    m.place(entry(2, 4, 7), StorageTier::Vram);
    m.place(entry(3, 4, 7), StorageTier::Vram);
    assert_eq!(tier(&m, 1), Some(StorageTier::Ram));
    assert_eq!(tier(&m, 2), Some(StorageTier::Vram));
}

#[test]
fn eviction_goes_on_until_the_entry_fits() {
    let mut m = TierManager::new(caps(8, 16, 32));
    m.place(entry(1, 3, 1), StorageTier::Vram);
    m.place(entry(2, 3, 2), StorageTier::Vram);
    m.place(entry(3, 2, 3), StorageTier::Vram);
    m.place(entry(4, 5, 4), StorageTier::Vram);
    // 8 bytes were taken; 5 more need 1 and 2 to go, 3 can stay.
    assert_eq!(tier(&m, 1), Some(StorageTier::Ram));
    assert_eq!(tier(&m, 2), Some(StorageTier::Ram));
    assert_eq!(tier(&m, 3), Some(StorageTier::Vram));
    assert_eq!(tier(&m, 4), Some(StorageTier::Vram));
    assert_eq!(m.used_in(StorageTier::Vram), 7);
    assert_eq!(m.used_in(StorageTier::Ram), 6);
}

#[test]
fn demotion_cascades_down_to_the_network_tier() {
    let mut m = TierManager::new(caps(4, 4, 4));
    m.place(entry(1, 4, 1), StorageTier::Vram);
    m.place(entry(2, 4, 2), StorageTier::Vram);
    assert_eq!(tier(&m, 1), Some(StorageTier::Ram));
    m.place(entry(3, 4, 3), StorageTier::Vram);
    assert_eq!(tier(&m, 1), Some(StorageTier::Disk));
    assert_eq!(tier(&m, 2), Some(StorageTier::Ram));
    m.place(entry(4, 4, 4), StorageTier::Vram);
    assert_eq!(tier(&m, 1), Some(StorageTier::Network));
    assert_eq!(tier(&m, 2), Some(StorageTier::Disk));
    assert_eq!(tier(&m, 3), Some(StorageTier::Ram));
    assert_eq!(tier(&m, 4), Some(StorageTier::Vram));
    m.place(entry(5, 4, 5), StorageTier::Vram);
    assert_eq!(tier(&m, 1), Some(StorageTier::Network));
    assert_eq!(tier(&m, 2), Some(StorageTier::Network));
    let s = m.stats();
    assert_eq!((s.vram_count, s.ram_count, s.disk_count), (1, 1, 1));
    assert_eq!(m.count_in(StorageTier::Network), 2);
}

#[test]
fn an_entry_too_large_for_a_tier_lands_below_it() {
    let mut m = TierManager::new(caps(4, 16, 32));
    m.place(entry(1, 4, 1), StorageTier::Vram);
    m.place(entry(2, 8, 2), StorageTier::Vram);
    assert_eq!(tier(&m, 1), Some(StorageTier::Vram));
    assert_eq!(tier(&m, 2), Some(StorageTier::Ram));
    m.place(entry(3, 20, 3), StorageTier::Vram);
    assert_eq!(tier(&m, 3), Some(StorageTier::Disk));
    m.place(entry(4, 33, 4), StorageTier::Vram);
    assert_eq!(tier(&m, 4), Some(StorageTier::Network));
    let s = m.stats();
    assert_eq!((s.vram_count, s.ram_count, s.disk_count), (1, 1, 1));
}

#[test]
fn an_expert_is_never_placed_twice() {
    let mut m = TierManager::new(caps(8, 16, 32));
    assert!(m.place(entry(1, 4, 1), StorageTier::Vram));
    assert!(!m.place(entry(1, 2, 9), StorageTier::Ram));
    assert_eq!(tier(&m, 1), Some(StorageTier::Vram));
    let s = m.stats();
    assert_eq!((s.vram_count, s.ram_count, s.disk_count), (1, 0, 0));
    assert_eq!(m.used_in(StorageTier::Vram), 4);
    let total = m.count_in(StorageTier::Vram)
        + m.count_in(StorageTier::Ram)
        + m.count_in(StorageTier::Disk)
        + m.count_in(StorageTier::Network);
    assert_eq!(total, 1);
}

#[test]
fn every_expert_stays_in_exactly_one_tier_through_many_placings() {
    let mut m = TierManager::new(caps(6, 9, 5));
    for i in 1..=20u8 {
        m.place(entry(i, (i % 5) as usize + 1, (i as u64 * 7) % 11), StorageTier::Vram);
        let total = m.count_in(StorageTier::Vram)
            + m.count_in(StorageTier::Ram)
            + m.count_in(StorageTier::Disk)
            + m.count_in(StorageTier::Network);
        assert_eq!(total, i as usize);
        assert!(m.used_in(StorageTier::Vram) <= 6);
        assert!(m.used_in(StorageTier::Ram) <= 9);
        assert!(m.used_in(StorageTier::Disk) <= 5);
        for j in 1..=i {
            assert!(tier(&m, j).is_some());
        }
    }
}

#[test]
fn a_use_renews_the_entry_and_spares_it_from_eviction() {
    let mut m = TierManager::new(caps(8, 16, 32));
    m.place(entry(1, 4, 10), StorageTier::Vram);
    m.place(entry(2, 4, 20), StorageTier::Vram);
    assert!(m.lookup(&ExpertId([1; 32]), 30).is_some());
    m.place(entry(3, 4, 40), StorageTier::Vram);
    assert_eq!(tier(&m, 1), Some(StorageTier::Vram));
    assert_eq!(tier(&m, 2), Some(StorageTier::Ram));
}

#[test]
fn a_use_promotes_to_the_fastest_tier_with_room() {
    let mut m = TierManager::new(caps(8, 16, 32));
    m.place(entry(1, 4, 1), StorageTier::Disk);
    m.place(entry(2, 6, 2), StorageTier::Vram);
    // Vram has 2 bytes left: the entry of 4 goes to Ram.
    let t = m.lookup(&ExpertId([1; 32]), 5).unwrap();
    assert_eq!(t.data, vec![1; 4]);
    assert_eq!(tier(&m, 1), Some(StorageTier::Ram));
    assert_eq!(tier(&m, 2), Some(StorageTier::Vram));
    // Nothing faster has room for it now: it stays.
    m.lookup(&ExpertId([1; 32]), 6).unwrap();
    assert_eq!(tier(&m, 1), Some(StorageTier::Ram));
    let mut n = TierManager::new(caps(8, 16, 32));
    n.place(entry(1, 4, 1), StorageTier::Network);
    n.lookup(&ExpertId([1; 32]), 2).unwrap();
    assert_eq!(tier(&n, 1), Some(StorageTier::Vram));
}

#[test]
fn a_use_of_an_absent_expert_changes_nothing() {
    let mut m = TierManager::new(caps(8, 16, 32));
    m.place(entry(1, 4, 1), StorageTier::Ram);
    assert!(m.lookup(&ExpertId([2; 32]), 5).is_none());
    assert_eq!(tier(&m, 1), Some(StorageTier::Ram));
}

#[test]
fn routed_experts_resolve_from_cache_and_from_the_store() {
    let mut store = ShardStore::new();
    store.put(shard(10, vec![1, 1, 1, 1])).unwrap();
    store.put(shard(21, vec![2, 2, 2, 2])).unwrap();
    store.put(shard(22, vec![3, 3, 3, 3])).unwrap();
    let mut topology = Topology::new();
    topology.register(expert(1, vec![10], 4, 4));
    topology.register(expert(2, vec![21, 22], 4, 8));
    let router = Router::new(topology);
    let mut tiers = TierManager::new(caps(4, 64, 64));
    let e1 = ExpertId([1; 32]);
    let e2 = ExpertId([2; 32]);
    // E1 is in the Vram tier before the request comes.
    tiers.get_or_load(&e1, router.topology(), &store, 1).unwrap();
    assert_eq!(tiers.tier_of(&e1), Some(StorageTier::Vram));

    let decision = router.route(&vec![e1, e2]).unwrap();
    assert_eq!(decision.expert_ids, vec![e1, e2]);
    let t1 = tiers.get_or_load(&decision.expert_ids[0], router.topology(), &store, 2).unwrap();
    assert_eq!(t1.data, vec![1, 1, 1, 1]);
    let t2 = tiers.get_or_load(&decision.expert_ids[1], router.topology(), &store, 3).unwrap();
    assert_eq!(t2.data, vec![2, 2, 2, 2, 3, 3, 3, 3]);
    assert_eq!(tiers.tier_of(&e1), Some(StorageTier::Vram));
    assert_eq!(tiers.tier_of(&e2), Some(StorageTier::Ram));
    let s = tiers.stats();
    assert_eq!(s.vram_count, 1);
    assert_eq!(s.ram_count, 1);
    assert_eq!(s.disk_count, 0);
}

#[test]
fn a_loaded_expert_is_served_from_the_cache_afterwards() {
    let mut store = ShardStore::new();
    store.put(shard(10, vec![1, 2, 3, 4])).unwrap();
    let mut topology = Topology::new();
    topology.register(expert(1, vec![10], 4, 4));
    let mut tiers = TierManager::new(caps(16, 64, 64));
    let e1 = ExpertId([1; 32]);
    assert_eq!(tiers.get_or_load(&e1, &topology, &store, 1).unwrap().data, vec![1, 2, 3, 4]);
    // Neither the store nor the topology is needed for the next requests.
    let empty_store = ShardStore::new();
    let empty_topology = Topology::new();
    for now in 2..6 {
        let t = tiers.get_or_load(&e1, &empty_topology, &empty_store, now).unwrap();
        assert_eq!(t.data, vec![1, 2, 3, 4]);
    }
    assert_eq!(tiers.stats().vram_count, 1);
}

#[test]
fn a_failed_load_publishes_nothing() {
    let mut store = ShardStore::new();
    store.put(shard(10, vec![1, 2, 3, 4])).unwrap();
    let mut topology = Topology::new();
    topology.register(expert(1, vec![10, 11], 4, 8));
    let mut tiers = TierManager::new(caps(16, 64, 64));
    tiers.place(entry(7, 4, 1), StorageTier::Vram);
    let e1 = ExpertId([1; 32]);
    assert!(matches!(
        tiers.get_or_load(&e1, &topology, &store, 2),
        Err(AuriaError::ShardNotFound(id)) if id == ShardId([11; 32])
    ));
    assert_eq!(tiers.tier_of(&e1), None);
    let unknown = ExpertId([3; 32]);
    assert!(matches!(
        tiers.get_or_load(&unknown, &topology, &store, 3),
        Err(AuriaError::ExpertNotFound(id)) if id == unknown
    ));
    assert_eq!(tiers.tier_of(&unknown), None);
    let s = tiers.stats();
    assert_eq!((s.vram_count, s.ram_count, s.disk_count), (1, 0, 0));
}

#[test]
fn storage_tiers_are_ordered_by_access_cost() {
    assert!(StorageTier::Vram.is_faster_than(&StorageTier::Ram));
    assert!(StorageTier::Ram.is_faster_than(&StorageTier::Disk));
    assert!(StorageTier::Disk.is_faster_than(&StorageTier::Network));
    assert!(!StorageTier::Network.is_faster_than(&StorageTier::Vram));
    assert!(!StorageTier::Ram.is_faster_than(&StorageTier::Ram));
    assert_eq!(StorageTier::Vram.index(), 0);
    assert_eq!(StorageTier::Network.index(), 3);
    assert_eq!(StorageTier::Vram.next_slower(), StorageTier::Ram);
    assert_eq!(StorageTier::Disk.next_slower(), StorageTier::Network);
    assert_eq!(StorageTier::Network.next_slower(), StorageTier::Network);
}

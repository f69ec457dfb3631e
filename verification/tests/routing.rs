use auria_core::{AuriaError, Expert, ExpertId, Router, ShardId, TensorLayout, Topology};

fn expert(id: u8, shards: Vec<u8>) -> Expert {
    Expert {
        expert_id: ExpertId([id; 32]),
        shards: shards.into_iter().map(|b| ShardId([b; 32])).collect(),
        tensor_layout: TensorLayout { offset: 0, stride: 1, shape: vec![1] },
    }
}

#[test]
fn a_selection_of_known_experts_becomes_the_decision_in_order() {
    let mut topology = Topology::new();
    topology.register(expert(1, vec![1]));
    topology.register(expert(2, vec![2]));
    topology.register(expert(3, vec![3]));
    let router = Router::new(topology);
    let selection = vec![ExpertId([3; 32]), ExpertId([1; 32]), ExpertId([3; 32])];
    let decision = router.route(&selection).unwrap();
    assert_eq!(decision.expert_ids, selection);
    let empty = router.route(&Vec::new()).unwrap();
    assert!(empty.expert_ids.is_empty());
}

#[test]
fn the_first_unknown_expert_is_reported() {
    let mut topology = Topology::new();
    topology.register(expert(1, vec![1]));
    let router = Router::new(topology);
    let selection = vec![ExpertId([1; 32]), ExpertId([8; 32]), ExpertId([9; 32])];
    assert!(matches!(
        router.route(&selection),
        Err(AuriaError::ExpertNotFound(id)) if id == ExpertId([8; 32])
    ));
}

#[test]
fn routing_is_the_same_for_the_same_selection() {
    let mut topology = Topology::new();
    topology.register(expert(1, vec![1]));
    topology.register(expert(2, vec![2]));
    let router = Router::new(topology);
    let selection = vec![ExpertId([2; 32]), ExpertId([1; 32])];
    let a = router.route(&selection).unwrap();
    let b = router.route(&selection).unwrap();
    assert_eq!(a.expert_ids, b.expert_ids);
}

#[test]
fn registering_again_replaces_the_expert() {
    let mut topology = Topology::new();
    assert!(!topology.contains(&ExpertId([1; 32])));
    assert!(topology.get(&ExpertId([1; 32])).is_none());
    topology.register(expert(1, vec![1]));
    topology.register(expert(2, vec![2]));
    topology.register(expert(1, vec![5, 6]));
    assert!(topology.contains(&ExpertId([1; 32])));
    let found = topology.get(&ExpertId([1; 32])).unwrap();
    assert_eq!(found.shards, vec![ShardId([5; 32]), ShardId([6; 32])]);
    assert_eq!(topology.get(&ExpertId([2; 32])).unwrap().shards, vec![ShardId([2; 32])]);
}

#[test]
fn a_decision_does_not_change_with_the_topology() {
    let mut topology = Topology::new();
    topology.register(expert(1, vec![1]));
    let router = Router::new(topology);
    let decision = router.route(&vec![ExpertId([1; 32])]).unwrap();
    let mut later = Topology::new();
    later.register(expert(2, vec![2]));
    let other = Router::new(later);
    assert!(other.route(&vec![ExpertId([1; 32])]).is_err());
    assert_eq!(decision.expert_ids, vec![ExpertId([1; 32])]);
    assert_eq!(decision.clone().expert_ids, vec![ExpertId([1; 32])]);
}

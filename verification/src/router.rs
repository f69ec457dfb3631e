//! The topology of the model and the router that checks selections against
//! it.
//!
//! Which experts serve a request is chosen outside this library. The router
//! turns such a selection into a routing decision, in the same order, after
//! it has checked that the topology knows every expert of it.

use vstd::prelude::*;
use crate::error::AuriaError;
use crate::ids::ExpertId;
use crate::tensor::copy_of;
use crate::types::{Expert, ExpertView, RoutingDecision};

verus! {

/// Whether no two experts of the list have the same identifier.
pub open spec fn distinct_experts(experts: Seq<Expert>) -> bool {
    forall|i: int, j: int|
        0 <= i < j < experts.len() ==> (#[trigger] experts[i]).expert_id != (
        #[trigger] experts[j]).expert_id
}

/// Whether the list holds an expert of the identifier `id`.
pub open spec fn names_expert(experts: Seq<Expert>, id: ExpertId) -> bool {
    exists|i: int| 0 <= i < experts.len() && (#[trigger] experts[i]).expert_id == id
}

/// The experts of a list, each under its identifier.
pub open spec fn experts_by_id(experts: Seq<Expert>) -> Map<ExpertId, ExpertView> {
    Map::new(
        |id: ExpertId| names_expert(experts, id),
        |id: ExpertId|
            experts[choose|i: int| 0 <= i < experts.len() && (#[trigger] experts[i]).expert_id == id]@,
    )
}

/// In a list without repeated identifiers, each expert is what the map
/// holds under the expert's identifier.
pub proof fn lemma_expert_at(experts: Seq<Expert>, i: int)
    requires
        distinct_experts(experts),
        0 <= i < experts.len(),
    ensures
        experts_by_id(experts).contains_key(experts[i].expert_id),
        experts_by_id(experts)[experts[i].expert_id] == experts[i]@,
{
    let id = experts[i].expert_id;
    let j = choose|j: int| 0 <= j < experts.len() && (#[trigger] experts[j]).expert_id == id;
    if j < i {
        assert(experts[j].expert_id != experts[i].expert_id);
    } else if i < j {
        assert(experts[i].expert_id != experts[j].expert_id);
    }
}

/// Appending an expert of a new identifier inserts it into the map.
pub proof fn lemma_experts_push(experts: Seq<Expert>, expert: Expert)
    requires
        distinct_experts(experts),
        !names_expert(experts, expert.expert_id),
    ensures
        distinct_experts(experts.push(expert)),
        experts_by_id(experts.push(expert)) == experts_by_id(experts).insert(
            expert.expert_id,
            expert@,
        ),
{
    let after = experts.push(expert);
    let n = experts.len() as int;
    assert(forall|k: int| 0 <= k < n ==> after[k] == experts[k]);
    assert(after[n] == expert);
    assert(distinct_experts(after)) by {
        assert forall|i: int, j: int| 0 <= i < j < after.len() implies (
        #[trigger] after[i]).expert_id != (#[trigger] after[j]).expert_id by {
            if j < n {
                assert(experts[i].expert_id != experts[j].expert_id);
            } else {
                assert(experts[i].expert_id != expert.expert_id);
            }
        }
    }
    let wanted = experts_by_id(experts).insert(expert.expert_id, expert@);
    assert forall|id: ExpertId| experts_by_id(after).contains_key(id) <==> wanted.contains_key(
        id,
    ) by {
        if names_expert(after, id) {
            let i = choose|i: int| 0 <= i < after.len() && (#[trigger] after[i]).expert_id == id;
            if i < n {
                assert(experts[i].expert_id == id);
            }
        }
        if names_expert(experts, id) {
            let i = choose|i: int|
                0 <= i < experts.len() && (#[trigger] experts[i]).expert_id == id;
            assert(after[i].expert_id == id);
        }
        if id == expert.expert_id {
            assert(after[n].expert_id == id);
        }
    }
    assert forall|id: ExpertId| experts_by_id(after).contains_key(id) implies experts_by_id(
        after,
    )[id] == wanted[id] by {
        let i = choose|i: int| 0 <= i < after.len() && (#[trigger] after[i]).expert_id == id;
        lemma_expert_at(after, i);
        if i < n {
            assert(after[i] == experts[i]);
            lemma_expert_at(experts, i);
        }
    }
    assert(experts_by_id(after) =~= wanted);
}

/// Putting an expert in the place of one with the same identifier replaces
/// it in the map.
pub proof fn lemma_experts_replace(experts: Seq<Expert>, i: int, expert: Expert)
    requires
        distinct_experts(experts),
        0 <= i < experts.len(),
        experts[i].expert_id == expert.expert_id,
    ensures
        distinct_experts(experts.update(i, expert)),
        experts_by_id(experts.update(i, expert)) == experts_by_id(experts).insert(
            expert.expert_id,
            expert@,
        ),
{
    let after = experts.update(i, expert);
    assert(forall|k: int|
        0 <= k < after.len() ==> (#[trigger] after[k]).expert_id == experts[k].expert_id);
    assert(distinct_experts(after)) by {
        assert forall|a: int, b: int| 0 <= a < b < after.len() implies (
        #[trigger] after[a]).expert_id != (#[trigger] after[b]).expert_id by {
            assert(experts[a].expert_id != experts[b].expert_id);
        }
    }
    let wanted = experts_by_id(experts).insert(expert.expert_id, expert@);
    assert forall|id: ExpertId| experts_by_id(after).contains_key(id) <==> wanted.contains_key(
        id,
    ) by {
        if names_expert(after, id) {
            let k = choose|k: int| 0 <= k < after.len() && (#[trigger] after[k]).expert_id == id;
            assert(experts[k].expert_id == id);
        }
        if names_expert(experts, id) {
            let k = choose|k: int|
                0 <= k < experts.len() && (#[trigger] experts[k]).expert_id == id;
            assert(after[k].expert_id == id);
        }
        if id == expert.expert_id {
            assert(after[i].expert_id == id);
        }
    }
    assert forall|id: ExpertId| experts_by_id(after).contains_key(id) implies experts_by_id(
        after,
    )[id] == wanted[id] by {
        let k = choose|k: int| 0 <= k < after.len() && (#[trigger] after[k]).expert_id == id;
        lemma_expert_at(after, k);
        assert(experts[k].expert_id == id);
        lemma_expert_at(experts, k);
        if k != i {
            assert(after[k] == experts[k]);
        }
    }
    assert(experts_by_id(after) =~= wanted);
}

/// The experts of the model, by identifier.
pub struct Topology {
    experts: Vec<Expert>,
}

impl View for Topology {
    type V = Map<ExpertId, ExpertView>;

    closed spec fn view(&self) -> Map<ExpertId, ExpertView> {
        experts_by_id(self.experts@)
    }
}

impl Topology {
    /// What holds of every topology: no identifier is there twice.
    pub closed spec fn wf(&self) -> bool {
        distinct_experts(self.experts@)
    }

    /// Every expert of a topology is held under its own identifier.
    pub proof fn lemma_held(&self, id: ExpertId)
        requires
            self.wf(),
            self@.contains_key(id),
        ensures
            self@[id].expert_id == id,
    {
        let i = choose|i: int|
            0 <= i < self.experts.len() && (#[trigger] self.experts@[i]).expert_id == id;
        lemma_expert_at(self.experts@, i);
    }

    /// A topology without experts.
    pub fn new() -> (topology: Self)
        ensures
            topology.wf(),
            topology@ == Map::<ExpertId, ExpertView>::empty(),
    {
        let topology = Topology { experts: Vec::new() };
        assert(topology@ =~= Map::<ExpertId, ExpertView>::empty());
        topology
    }

    /// The place of the expert `id`, if the topology holds it.
    fn position(&self, id: &ExpertId) -> (at: Option<usize>)
        requires
            self.wf(),
        ensures
            at is Some <==> self@.contains_key(*id),
            at is Some ==> at->Some_0 < self.experts.len() && self.experts[at->Some_0 as int].expert_id
                == *id,
    {
        let mut i: usize = 0;
        while i < self.experts.len()
            invariant
                i <= self.experts.len(),
                forall|k: int| 0 <= k < i ==> (#[trigger] self.experts[k]).expert_id != *id,
            decreases self.experts.len() - i,
        {
            if self.experts[i].expert_id == *id {
                assert(self.experts@[i as int].expert_id == *id);
                return Some(i);
            }
            i += 1;
        }
        None
    }

    /// Adds an expert to the topology, in the place of the one that had its
    /// identifier if there was one.
    pub fn register(&mut self, expert: Expert)
        requires
            old(self).wf(),
        ensures
            final(self).wf(),
            final(self)@ == old(self)@.insert(expert.expert_id, expert@),
    {
        match self.position(&expert.expert_id) {
            Some(i) => {
                proof {
                    lemma_experts_replace(self.experts@, i as int, expert);
                }
                self.experts.set(i, expert);
            },
            None => {
                proof {
                    lemma_experts_push(self.experts@, expert);
                }
                self.experts.push(expert);
            },
        }
    }

    /// Whether the topology holds the expert `id`.
    pub fn contains(&self, id: &ExpertId) -> (known: bool)
        requires
            self.wf(),
        ensures
            known == self@.contains_key(*id),
    {
        self.position(id).is_some()
    }

    /// The expert `id`, if the topology holds it.
    pub fn get(&self, id: &ExpertId) -> (found: Option<&Expert>)
        requires
            self.wf(),
        ensures
            found is Some <==> self@.contains_key(*id),
            found is Some ==> found->Some_0@ == self@[*id],
    {
        match self.position(id) {
            Some(i) => {
                proof {
                    lemma_expert_at(self.experts@, i as int);
                }
                Some(&self.experts[i])
            },
            None => None,
        }
    }
}

/// Whether `k` is the first place of a selection whose expert the topology
/// does not hold.
pub open spec fn is_first_unknown(
    topology: Map<ExpertId, ExpertView>,
    selection: Seq<ExpertId>,
    k: int,
) -> bool {
    &&& 0 <= k < selection.len()
    &&& !topology.contains_key(selection[k])
    &&& forall|i: int| 0 <= i < k ==> topology.contains_key(#[trigger] selection[i])
}

/// Whether the topology holds every expert of a selection.
pub open spec fn all_known(topology: Map<ExpertId, ExpertView>, selection: Seq<ExpertId>) -> bool {
    forall|i: int| 0 <= i < selection.len() ==> topology.contains_key(#[trigger] selection[i])
}

/// What routing gives for a selection: the decision that names the same
/// experts in the same order where the topology holds them all, and
/// `ExpertNotFound` for the first that it does not hold.
pub open spec fn routing_gives(
    topology: Map<ExpertId, ExpertView>,
    selection: Seq<ExpertId>,
    r: Result<Seq<ExpertId>, AuriaError>,
) -> bool {
    &&& all_known(topology, selection) ==> r == Ok::<Seq<ExpertId>, AuriaError>(selection)
    &&& forall|k: int|
        is_first_unknown(topology, selection, k) ==> r == Err::<Seq<ExpertId>, AuriaError>(
            AuriaError::ExpertNotFound(selection[k]),
        )
}

/// A selection has one outcome: either the topology holds all its experts
/// or one place is the first that it does not hold.
pub proof fn lemma_first_unknown(topology: Map<ExpertId, ExpertView>, selection: Seq<ExpertId>)
    ensures
        all_known(topology, selection) || exists|k: int| is_first_unknown(topology, selection, k),
    decreases selection.len(),
{
    if selection.len() > 0 {
        let front = selection.drop_last();
        lemma_first_unknown(topology, front);
        assert(forall|i: int| 0 <= i < front.len() ==> front[i] == selection[i]);
        if all_known(topology, front) {
            if topology.contains_key(selection.last()) {
                assert(all_known(topology, selection));
            } else {
                assert(is_first_unknown(topology, selection, selection.len() - 1));
            }
        } else {
            let k = choose|k: int| is_first_unknown(topology, front, k);
            assert(is_first_unknown(topology, selection, k));
        }
    }
}

/// The router of one topology.
pub struct Router {
    topology: Topology,
}

impl Router {
    /// What holds of every router: its topology is well-formed.
    pub closed spec fn wf(&self) -> bool {
        self.topology.wf()
    }

    /// The experts that the router knows.
    pub closed spec fn known(&self) -> Map<ExpertId, ExpertView> {
        self.topology@
    }

    /// A router for the topology.
    pub fn new(topology: Topology) -> (router: Self)
        requires
            topology.wf(),
        ensures
            router.wf(),
            router.known() == topology@,
    {
        Router { topology }
    }

    /// The topology of the router.
    pub fn topology(&self) -> (topology: &Topology)
        requires
            self.wf(),
        ensures
            topology.wf(),
            topology@ == self.known(),
    {
        &self.topology
    }

    /// Turns the selection made for a request into a routing decision: the
    /// same experts in the same order. Fails with `ExpertNotFound` for the
    /// first expert of the selection that the topology does not hold.
    pub fn route(&self, selection: &Vec<ExpertId>) -> (r: Result<RoutingDecision, AuriaError>)
        requires
            self.wf(),
        ensures
            routing_gives(
                self.known(),
                selection@,
                match r {
                    Ok(decision) => Ok(decision@),
                    Err(e) => Err(e),
                },
            ),
    {
        let mut i: usize = 0;
        while i < selection.len()
            invariant
                self.wf(),
                i <= selection.len(),
                forall|k: int| 0 <= k < i ==> self.known().contains_key(#[trigger] selection[k]),
            decreases selection.len() - i,
        {
            if !self.topology.contains(&selection[i]) {
                proof {
                    assert(is_first_unknown(self.known(), selection@, i as int));
                    assert forall|k: int| is_first_unknown(
                        self.known(),
                        selection@,
                        k,
                    ) implies k == i by {}
                    assert(!all_known(self.known(), selection@));
                }
                return Err(AuriaError::ExpertNotFound(selection[i]));
            }
            i += 1;
        }
        proof {
            assert forall|k: int| !is_first_unknown(self.known(), selection@, k) by {}
        }
        Ok(RoutingDecision { expert_ids: copy_of(selection) })
    }
}

} // verus!

//! The execution context of one request.
//!
//! The context owns the state of its request and is the only one to change
//! it. It keeps the order of the cached tensors and counts the position; it
//! knows nothing of what the tensors mean.

use vstd::prelude::*;
use crate::error::AuriaError;
use crate::ids::RequestId;
use crate::tensor::{Tensor, TensorView};
use crate::types::ExecutionState;

verus! {

/// What the state of a request holds.
pub ghost struct StateView {
    pub position: u32,
    pub kv_cache: Seq<TensorView>,
}

/// What each tensor of a list holds, in order.
pub open spec fn tensor_views(tensors: Seq<Tensor>) -> Seq<TensorView> {
    Seq::new(tensors.len(), |i: int| tensors[i]@)
}

impl View for ExecutionState {
    type V = StateView;

    open spec fn view(&self) -> StateView {
        StateView { position: self.position, kv_cache: tensor_views(self.kv_cache@) }
    }
}

/// The state after a step that generated `output_tokens` tokens and cached
/// the tensors `step`: the position is that much further, and the tensors
/// follow those that were cached before, in their order.
pub open spec fn advanced(state: StateView, output_tokens: u32, step: Seq<TensorView>) -> StateView {
    StateView {
        position: (state.position + output_tokens) as u32,
        kv_cache: state.kv_cache + step,
    }
}

/// A step keeps what was cached before, in its order and at its places, and
/// never moves the position back.
pub proof fn lemma_advance_keeps_order(state: StateView, output_tokens: u32, step: Seq<TensorView>)
    requires
        state.position + output_tokens <= u32::MAX,
    ensures
        advanced(state, output_tokens, step).position >= state.position,
        advanced(state, output_tokens, step).kv_cache.len() == state.kv_cache.len() + step.len(),
        forall|i: int|
            0 <= i < state.kv_cache.len() ==> advanced(state, output_tokens, step).kv_cache[i]
                == state.kv_cache[i],
        forall|i: int|
            0 <= i < step.len() ==> advanced(state, output_tokens, step).kv_cache[state.kv_cache.len()
                + i] == step[i],
{
}

/// The context of one request in flight.
pub struct ExecutionContext {
    request_id: RequestId,
    state: ExecutionState,
}

impl ExecutionContext {
    /// The request that the context belongs to.
    pub closed spec fn request(&self) -> RequestId {
        self.request_id
    }

    /// The state of the request.
    pub closed spec fn state_view(&self) -> StateView {
        self.state@
    }

    /// The context of a request that has not run yet: position zero,
    /// nothing cached.
    pub fn new(request_id: RequestId) -> (context: Self)
        ensures
            context.request() == request_id,
            context.state_view() == (StateView { position: 0, kv_cache: Seq::<TensorView>::empty() }),
    {
        let context = ExecutionContext {
            request_id,
            state: ExecutionState { position: 0, kv_cache: Vec::new() },
        };
        assert(context.state@.kv_cache =~= Seq::<TensorView>::empty());
        context
    }

    /// The request that the context belongs to.
    pub fn request_id(&self) -> (id: RequestId)
        ensures
            id == self.request(),
    {
        self.request_id
    }

    /// The state of the request, to read.
    pub fn state(&self) -> (state: &ExecutionState)
        ensures
            state@ == self.state_view(),
    {
        &self.state
    }

    /// The position of the request.
    pub fn position(&self) -> (position: u32)
        ensures
            position == self.state_view().position,
    {
        self.state.position
    }

    /// Records a step of the compute engine: the position moves on by
    /// `output_tokens`, and the tensors of `step` are appended to the cache
    /// in their order. The result is the new position. Where the position
    /// would pass what 32 bits can count, the step is refused with an
    /// execution error and the state stays as it was.
    pub fn advance(&mut self, output_tokens: u32, step: Vec<Tensor>) -> (r: Result<u32, AuriaError>)
        ensures
            final(self).request() == old(self).request(),
            r is Ok <==> old(self).state_view().position + output_tokens <= u32::MAX,
            r is Ok ==> final(self).state_view() == advanced(
                old(self).state_view(),
                output_tokens,
                tensor_views(step@),
            ) && r->Ok_0 == final(self).state_view().position,
            r is Err ==> r->Err_0 is ExecutionError && final(self).state_view() == old(
                self,
            ).state_view(),
    {
        if output_tokens > u32::MAX - self.state.position {
            return Err(
                AuriaError::ExecutionError("the position of the request cannot move on".to_owned()),
            );
        }
        let ghost before = self.state@;
        let ghost added = tensor_views(step@);
        let mut step = step;
        self.state.position = self.state.position + output_tokens;
        self.state.kv_cache.append(&mut step);
        assert(self.state@.kv_cache =~= before.kv_cache + added);
        Ok(self.state.position)
    }

    /// Ends the request and gives up its state.
    pub fn finish(self) -> (state: ExecutionState)
        ensures
            state@ == self.state_view(),
    {
        self.state
    }
}

} // verus!

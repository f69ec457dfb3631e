use auria_core::{AuriaError, ExecutionContext, RequestId, Tensor, TensorDType};

fn tensor(tag: u8) -> Tensor {
    Tensor { data: vec![tag, tag], shape: vec![2], dtype: TensorDType::INT8 }
}

#[test]
fn a_new_context_is_at_position_zero() {
    let c = ExecutionContext::new(RequestId([4; 16]));
    assert_eq!(c.request_id(), RequestId([4; 16]));
    assert_eq!(c.position(), 0);
    assert_eq!(c.state().position, 0);
    assert!(c.state().kv_cache.is_empty());
}

#[test]
fn advance_moves_the_position_and_appends_in_order() {
    let mut c = ExecutionContext::new(RequestId([4; 16]));
    assert_eq!(c.advance(3, vec![tensor(1), tensor(2)]).unwrap(), 3);
    assert_eq!(c.advance(0, Vec::new()).unwrap(), 3);
    assert_eq!(c.advance(5, vec![tensor(3)]).unwrap(), 8);
    assert_eq!(c.position(), 8);
    let tags: Vec<u8> = c.state().kv_cache.iter().map(|t| t.data[0]).collect();
    assert_eq!(tags, vec![1, 2, 3]);
    let state = c.finish();
    assert_eq!(state.position, 8);
    assert_eq!(state.kv_cache.len(), 3);
    assert_eq!(state.kv_cache[2].data, vec![3, 3]);
}

#[test]
fn a_position_that_cannot_move_on_refuses_the_step() {
    let mut c = ExecutionContext::new(RequestId([4; 16]));
    assert_eq!(c.advance(u32::MAX - 1, vec![tensor(1)]).unwrap(), u32::MAX - 1);
    match c.advance(2, vec![tensor(2)]) {
        Err(AuriaError::ExecutionError(_)) => {}
        other => panic!("unexpected: {:?}", other),
    }
    assert_eq!(c.position(), u32::MAX - 1);
    assert_eq!(c.state().kv_cache.len(), 1);
    assert_eq!(c.advance(1, vec![tensor(2)]).unwrap(), u32::MAX);
    assert_eq!(c.state().kv_cache.len(), 2);
}

//! Tensors: a byte payload, a shape and an element type.
//!
//! A tensor is consistent when its payload has exactly the number of bytes
//! that its shape and element type imply.

use vstd::prelude::*;

verus! {

/// The element type of a tensor.
#[derive(Debug, Clone, Copy, PartialEq, Eq, Structural)]
pub enum TensorDType {
    FP16,
    FP8,
    INT8,
    INT4,
}

/// The number of elements of a tensor of this shape: the product of its
/// dimensions, which is 1 for the empty shape.
pub open spec fn element_count(shape: Seq<u32>) -> nat
    decreases shape.len(),
{
    if shape.len() == 0 {
        1
    } else {
        element_count(shape.drop_last()) * (shape.last() as nat)
    }
}

/// The number of bytes that `n` elements of type `dtype` take: two for each
/// 16-bit float, one for each 8-bit element, and one for every two 4-bit
/// elements, a last odd one taking a byte of its own.
pub open spec fn bytes_for(n: nat, dtype: TensorDType) -> nat {
    match dtype {
        TensorDType::FP16 => 2 * n,
        TensorDType::FP8 => n,
        TensorDType::INT8 => n,
        TensorDType::INT4 => (n + 1) / 2,
    }
}

/// The number of bytes of the payload of a tensor of this shape and
/// element type.
pub open spec fn byte_size(shape: Seq<u32>, dtype: TensorDType) -> nat {
    bytes_for(element_count(shape), dtype)
}

/// A shape with a dimension of size zero has no elements.
pub proof fn lemma_zero_dimension(shape: Seq<u32>, k: int)
    requires
        0 <= k < shape.len(),
        shape[k] == 0,
    ensures
        element_count(shape) == 0,
    decreases shape.len(),
{
    if k < shape.len() - 1 {
        lemma_zero_dimension(shape.drop_last(), k);
        assert(element_count(shape.drop_last()) * (shape.last() as nat) == 0) by (nonlinear_arith)
            requires
                element_count(shape.drop_last()) == 0,
        ;
    } else {
        assert(element_count(shape.drop_last()) * (shape.last() as nat) == 0) by (nonlinear_arith)
            requires
                shape.last() == 0,
        ;
    }
}

/// Where no dimension is zero, a shape has at least as many elements as
/// each of its prefixes.
pub proof fn lemma_prefix_count(shape: Seq<u32>, i: int)
    requires
        0 <= i <= shape.len(),
        forall|k: int| 0 <= k < shape.len() ==> shape[k] >= 1,
    ensures
        element_count(shape.take(i)) <= element_count(shape),
    decreases shape.len(),
{
    if i == shape.len() {
        assert(shape.take(i) =~= shape);
    } else {
        let front = shape.drop_last();
        lemma_prefix_count(front, i);
        assert(front.take(i) =~= shape.take(i));
        assert(element_count(front) <= element_count(front) * (shape.last() as nat))
            by (nonlinear_arith)
            requires
                shape.last() >= 1,
        ;
    }
}

/// The element count of a prefix that is one dimension longer.
pub proof fn lemma_count_step(shape: Seq<u32>, i: int)
    requires
        0 <= i < shape.len(),
    ensures
        element_count(shape.take(i + 1)) == element_count(shape.take(i)) * (shape[i] as nat),
{
    assert(shape.take(i + 1).drop_last() =~= shape.take(i));
    assert(shape.take(i + 1).last() == shape[i]);
}

/// The number of bytes that a payload of this shape and element type takes,
/// or `None` where that number does not fit in 64 bits.
pub fn checked_byte_size(shape: &Vec<u32>, dtype: TensorDType) -> (size: Option<u64>)
    ensures
        size is Some <==> byte_size(shape@, dtype) <= u64::MAX,
        size is Some ==> size->Some_0 == byte_size(shape@, dtype),
{
    let mut j: usize = 0;
    while j < shape.len()
        invariant
            j <= shape.len(),
            forall|k: int| 0 <= k < j ==> shape[k] >= 1,
        decreases shape.len() - j,
    {
        if shape[j] == 0 {
            proof {
                lemma_zero_dimension(shape@, j as int);
            }
            return Some(0);
        }
        j += 1;
    }
    let limit: u128 = 2 * (u64::MAX as u128);
    let mut count: u128 = 1;
    let mut i: usize = 0;
    assert(shape@.take(0) =~= Seq::<u32>::empty());
    while i < shape.len()
        invariant
            i <= shape.len(),
            limit == 2 * u64::MAX,
            forall|k: int| 0 <= k < shape.len() ==> shape[k] >= 1,
            count == element_count(shape@.take(i as int)),
            count <= limit,
        decreases shape.len() - i,
    {
        let dim: u128 = shape[i] as u128;
        proof {
            lemma_count_step(shape@, i as int);
            lemma_prefix_count(shape@, i as int + 1);
            assert(count * dim <= limit * 0x1_0000_0000) by (nonlinear_arith)
                requires
                    count <= limit,
                    dim < 0x1_0000_0000,
            ;
        }
        let next: u128 = count * dim;
        if next > limit {
            proof {
                lemma_count_bound(element_count(shape@), dtype);
            }
            return None;
        }
        count = next;
        i += 1;
    }
    assert(shape@.take(i as int) =~= shape@);
    let bytes: u128 = match dtype {
        TensorDType::FP16 => 2 * count,
        TensorDType::FP8 => count,
        TensorDType::INT8 => count,
        TensorDType::INT4 => (count + 1) / 2,
    };
    if bytes > u64::MAX as u128 {
        None
    } else {
        Some(bytes as u64)
    }
}

/// More than twice as many elements as 64 bits can count take more bytes
/// than 64 bits can count, whatever the element type: the smallest element
/// is half a byte.
pub proof fn lemma_count_bound(n: nat, dtype: TensorDType)
    requires
        n > 2 * u64::MAX,
    ensures
        bytes_for(n, dtype) > u64::MAX,
{
}

/// A tensor: raw bytes, the sizes of its dimensions in order, and the type
/// of its elements.
#[derive(Debug)]
pub struct Tensor {
    pub data: Vec<u8>,
    pub shape: Vec<u32>,
    pub dtype: TensorDType,
}

/// What a tensor holds.
pub ghost struct TensorView {
    pub data: Seq<u8>,
    pub shape: Seq<u32>,
    pub dtype: TensorDType,
}

impl TensorView {
    /// Whether the payload has the number of bytes that shape and element
    /// type imply.
    pub open spec fn consistent(self) -> bool {
        self.data.len() == byte_size(self.shape, self.dtype)
    }
}

impl View for Tensor {
    type V = TensorView;

    open spec fn view(&self) -> TensorView {
        TensorView { data: self.data@, shape: self.shape@, dtype: self.dtype }
    }
}

/// A copy of a list of plain values.
pub fn copy_of<T: Copy>(src: &Vec<T>) -> (dst: Vec<T>)
    ensures
        dst@ == src@,
{
    let mut dst: Vec<T> = Vec::with_capacity(src.len());
    let mut i: usize = 0;
    while i < src.len()
        invariant
            i <= src.len(),
            dst@ == src@.take(i as int),
        decreases src.len() - i,
    {
        dst.push(src[i]);
        assert(src@.take(i as int).push(src@[i as int]) =~= src@.take(i as int + 1));
        i += 1;
    }
    assert(src@.take(i as int) =~= src@);
    dst
}

impl Clone for Tensor {
    /// A tensor that holds the same bytes, shape and element type.
    fn clone(&self) -> (copy: Self)
        ensures
            copy@ == self@,
    {
        Tensor { data: copy_of(&self.data), shape: copy_of(&self.shape), dtype: self.dtype }
    }
}

impl Tensor {
    /// Whether the payload has exactly the number of bytes that the shape
    /// and the element type imply.
    pub fn is_consistent(&self) -> (ok: bool)
        ensures
            ok == self@.consistent(),
    {
        let len: usize = self.data.len();
        assert(len <= u64::MAX) by {
            assert(usize::MAX <= u64::MAX);
        }
        match checked_byte_size(&self.shape, self.dtype) {
            Some(size) => len as u64 == size,
            None => false,
        }
    }
}

/// How the shards of an expert are laid out in the expert's weight tensor:
/// the payload of the shard at place `i` of the expert's list starts at byte
/// `offset + i * stride`, and the tensor has the shape `shape`.
#[derive(Debug)]
pub struct TensorLayout {
    pub offset: u64,
    pub stride: u32,
    pub shape: Vec<u32>,
}

/// What a layout holds.
pub ghost struct LayoutView {
    pub offset: u64,
    pub stride: u32,
    pub shape: Seq<u32>,
}

impl View for TensorLayout {
    type V = LayoutView;

    open spec fn view(&self) -> LayoutView {
        LayoutView { offset: self.offset, stride: self.stride, shape: self.shape@ }
    }
}

impl Clone for TensorLayout {
    /// A layout with the same offset, stride and shape.
    fn clone(&self) -> (copy: Self)
        ensures
            copy@ == self@,
    {
        TensorLayout { offset: self.offset, stride: self.stride, shape: copy_of(&self.shape) }
    }
}

} // verus!

//! What a type holds.

use vstd::prelude::*;
use crate::onnx::TensorShapeProto;

verus! {

/// A tensor type: the element type, by its wire number, and the shape.
#[derive(Debug)]
pub struct Tensor {
    pub elem_type: i32,
    pub shape: Option<TensorShapeProto>,
}

/// The kinds of type.
#[derive(Debug)]
pub enum Value {
    TensorType(Tensor),
}

} // verus!

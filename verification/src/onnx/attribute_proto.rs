//! The types of operator attributes.

use vstd::prelude::*;

verus! {

/// The type of an attribute's value.
#[derive(Clone, Copy, Debug, PartialEq, Eq, Structural)]
pub enum AttributeType {
    Undefined,
    Float,
    Int,
    String,
    Tensor,
    Graph,
    Floats,
    Ints,
    Strings,
    Tensors,
    Graphs,
}

impl AttributeType {
    /// The number that stands for the type on the wire.
    pub open spec fn wire(self) -> int {
        match self {
            AttributeType::Undefined => 0,
            AttributeType::Float => 1,
            AttributeType::Int => 2,
            AttributeType::String => 3,
            AttributeType::Tensor => 4,
            AttributeType::Graph => 5,
            AttributeType::Floats => 6,
            AttributeType::Ints => 7,
            AttributeType::Strings => 8,
            AttributeType::Tensors => 9,
            AttributeType::Graphs => 10,
        }
    }

    /// The number that stands for the type on the wire.
    pub fn number(self) -> (r: i32)
        ensures
            r == self.wire(),
    {
        match self {
            AttributeType::Undefined => 0,
            AttributeType::Float => 1,
            AttributeType::Int => 2,
            AttributeType::String => 3,
            AttributeType::Tensor => 4,
            AttributeType::Graph => 5,
            AttributeType::Floats => 6,
            AttributeType::Ints => 7,
            AttributeType::Strings => 8,
            AttributeType::Tensors => 9,
            AttributeType::Graphs => 10,
        }
    }

    /// The type that `value` stands for, if it stands for one.
    pub fn from_i32(value: i32) -> (r: Option<AttributeType>)
        ensures
            r is Some <==> 0 <= value <= 10,
            r is Some ==> r->0.wire() == value,
    {
        match value {
            0 => Some(AttributeType::Undefined),
            1 => Some(AttributeType::Float),
            2 => Some(AttributeType::Int),
            3 => Some(AttributeType::String),
            4 => Some(AttributeType::Tensor),
            5 => Some(AttributeType::Graph),
            6 => Some(AttributeType::Floats),
            7 => Some(AttributeType::Ints),
            8 => Some(AttributeType::Strings),
            9 => Some(AttributeType::Tensors),
            10 => Some(AttributeType::Graphs),
            _ => None,
        }
    }
}

} // verus!

//! Element types and segments of tensors.

use vstd::prelude::*;

verus! {

/// A part of a tensor that is stored in chunks.
#[derive(Clone, Copy, Debug, PartialEq, Eq, Structural)]
pub struct Segment {
    pub begin: i64,
    pub end: i64,
}

/// The element type of a tensor.
#[derive(Clone, Copy, Debug, PartialEq, Eq, Structural)]
pub enum DataType {
    Undefined,
    Float,
    Uint8,
    Int8,
    Uint16,
    Int16,
    Int32,
    Int64,
    String,
    Bool,
    Float16,
    Double,
    Uint32,
    Uint64,
    Complex64,
    Complex128,
}

impl DataType {
    /// The number that stands for the type on the wire.
    pub open spec fn wire(self) -> int {
        match self {
            DataType::Undefined => 0,
            DataType::Float => 1,
            DataType::Uint8 => 2,
            DataType::Int8 => 3,
            DataType::Uint16 => 4,
            DataType::Int16 => 5,
            DataType::Int32 => 6,
            DataType::Int64 => 7,
            DataType::String => 8,
            DataType::Bool => 9,
            DataType::Float16 => 10,
            DataType::Double => 11,
            DataType::Uint32 => 12,
            DataType::Uint64 => 13,
            DataType::Complex64 => 14,
            DataType::Complex128 => 15,
        }
    }

    /// The number that stands for the type on the wire.
    pub fn number(self) -> (r: i32)
        ensures
            r == self.wire(),
    {
        match self {
            DataType::Undefined => 0,
            DataType::Float => 1,
            DataType::Uint8 => 2,
            DataType::Int8 => 3,
            DataType::Uint16 => 4,
            DataType::Int16 => 5,
            DataType::Int32 => 6,
            DataType::Int64 => 7,
            DataType::String => 8,
            DataType::Bool => 9,
            DataType::Float16 => 10,
            DataType::Double => 11,
            DataType::Uint32 => 12,
            DataType::Uint64 => 13,
            DataType::Complex64 => 14,
            DataType::Complex128 => 15,
        }
    }

    /// The type that `value` stands for, if it stands for one.
    pub fn from_i32(value: i32) -> (r: Option<DataType>)
        ensures
            r is Some <==> 0 <= value <= 15,
            r is Some ==> r->0.wire() == value,
    {
        match value {
            0 => Some(DataType::Undefined),
            1 => Some(DataType::Float),
            2 => Some(DataType::Uint8),
            3 => Some(DataType::Int8),
            4 => Some(DataType::Uint16),
            5 => Some(DataType::Int16),
            6 => Some(DataType::Int32),
            7 => Some(DataType::Int64),
            8 => Some(DataType::String),
            9 => Some(DataType::Bool),
            10 => Some(DataType::Float16),
            11 => Some(DataType::Double),
            12 => Some(DataType::Uint32),
            13 => Some(DataType::Uint64),
            14 => Some(DataType::Complex64),
            15 => Some(DataType::Complex128),
            _ => None,
        }
    }
}

} // verus!

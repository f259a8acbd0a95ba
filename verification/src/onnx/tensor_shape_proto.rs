//! The axes of a tensor shape.

use vstd::prelude::*;

pub mod dimension;

verus! {

/// One axis of a shape: a number or a symbolic name, with a denotation.
#[derive(Debug)]
pub struct Dimension {
    pub denotation: String,
    pub value: Option<dimension::Value>,
}

impl Dimension {
    /// The axis has a number for its extent, and the number is not negative
    /// and fits the machine.
    pub open spec fn known(&self) -> bool {
        match self.value {
            Some(dimension::Value::DimValue(v)) => 0 <= v <= usize::MAX,
            _ => false,
        }
    }

    /// The extent of an axis that has one.
    pub open spec fn extent_of(&self) -> usize {
        match self.value {
            Some(dimension::Value::DimValue(v)) => v as usize,
            _ => 0,
        }
    }

    /// The extent of the axis; nothing where it is symbolic, absent or
    /// negative.
    pub fn extent(&self) -> (r: Option<usize>)
        ensures
            r is Some <==> self.known(),
            r is Some ==> r->0 == self.extent_of(),
    {
        match &self.value {
            Some(dimension::Value::DimValue(v)) => {
                if 0 <= *v && (*v as u64) <= (usize::MAX as u64) {
                    Some(*v as usize)
                } else {
                    None
                }
            },
            _ => None,
        }
    }
}

} // verus!

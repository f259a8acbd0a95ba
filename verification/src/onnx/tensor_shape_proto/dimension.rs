//! What an axis holds.

use vstd::prelude::*;

verus! {

/// The extent of an axis: a number, or the name of a parameter.
#[derive(Debug)]
pub enum Value {
    DimValue(i64),
    DimParam(String),
}

} // verus!

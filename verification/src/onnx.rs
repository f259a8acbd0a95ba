//! The model's value declarations: names, element types and shapes as the
//! ONNX schema lays them out.

use vstd::prelude::*;

pub mod attribute_proto;
pub mod tensor_proto;
pub mod tensor_shape_proto;
pub mod type_proto;

verus! {

/// A value of the graph: its name, its type and a description.
#[derive(Debug)]
pub struct ValueInfoProto {
    pub name: String,
    pub value_type: Option<TypeProto>,
    pub doc_string: String,
}

/// One entry of a string-to-string mapping.
#[derive(Debug)]
pub struct StringStringEntryProto {
    pub key: String,
    pub value: String,
}

/// A tensor shape: one dimension per axis.
#[derive(Debug)]
pub struct TensorShapeProto {
    pub dim: Vec<tensor_shape_proto::Dimension>,
}

/// The type of a value.
#[derive(Debug)]
pub struct TypeProto {
    pub denotation: String,
    pub value: Option<type_proto::Value>,
}

/// An operator set and the version of it that a model uses.
#[derive(Debug)]
pub struct OperatorSetIdProto {
    pub domain: String,
    pub version: i64,
}

/// The versions of the intermediate representation.
#[derive(Clone, Copy, Debug, PartialEq, Eq, Structural)]
pub enum Version {
    StartVersion,
    IrVersion20171010,
    IrVersion20171030,
    IrVersion,
}

impl Version {
    /// The number that stands for the version on the wire.
    pub open spec fn wire(self) -> int {
        match self {
            Version::StartVersion => 0,
            Version::IrVersion20171010 => 1,
            Version::IrVersion20171030 => 2,
            Version::IrVersion => 3,
        }
    }

    /// The number that stands for the version on the wire.
    pub fn number(self) -> (r: i32)
        ensures
            r == self.wire(),
    {
        match self {
            Version::StartVersion => 0,
            Version::IrVersion20171010 => 1,
            Version::IrVersion20171030 => 2,
            Version::IrVersion => 3,
        }
    }

    /// The version that `value` stands for, if it stands for one.
    pub fn from_i32(value: i32) -> (r: Option<Version>)
        ensures
            r is Some <==> 0 <= value <= 3,
            r is Some ==> r->0.wire() == value,
    {
        match value {
            0 => Some(Version::StartVersion),
            1 => Some(Version::IrVersion20171010),
            2 => Some(Version::IrVersion20171030),
            3 => Some(Version::IrVersion),
            _ => None,
        }
    }
}

/// The extents of the first `k` axes of `dims`, where each is a number
/// that is not negative.
pub open spec fn known_extents(dims: Seq<tensor_shape_proto::Dimension>, k: int) -> bool {
    forall|j: int| 0 <= j < k ==> (#[trigger] dims[j]).known()
}

impl TensorShapeProto {
    /// Whether every axis has a known extent.
    pub open spec fn known(&self) -> bool {
        known_extents(self.dim@, self.dim@.len() as int)
    }

    /// The extents of the axes.
    pub open spec fn extents_of(&self) -> Seq<usize> {
        Seq::new(self.dim@.len(), |j: int| self.dim@[j].extent_of())
    }

    /// The extents of the axes; nothing where one of them is symbolic,
    /// absent or negative.
    pub fn extents(&self) -> (r: Option<Vec<usize>>)
        ensures
            r is Some <==> self.known(),
            r is Some ==> r->0@ == self.extents_of(),
    {
        let mut out: Vec<usize> = Vec::new();
        let mut j: usize = 0;
        while j < self.dim.len()
            invariant
                j <= self.dim@.len(),
                known_extents(self.dim@, j as int),
                out@.len() == j,
                forall|i: int| 0 <= i < j ==> out@[i] == self.dim@[i].extent_of(),
            decreases self.dim.len() - j,
        {
            match self.dim[j].extent() {
                Some(e) => {
                    out.push(e);
                },
                None => {
                    assert(!self.dim@[j as int].known());
                    return None;
                },
            }
            j += 1;
        }
        assert(out@ =~= self.extents_of());
        Some(out)
    }
}

impl ValueInfoProto {
    /// The declared tensor shape of the value, if it declares one.
    pub open spec fn shape_of(&self) -> Option<TensorShapeProto> {
        match self.value_type {
            Some(t) => match t.value {
                Some(type_proto::Value::TensorType(tensor)) => tensor.shape,
                None => None,
            },
            None => None,
        }
    }

    /// The shape that the value declares; nothing where it declares no
    /// tensor shape or an axis of it has no known extent.
    pub fn declared_shape(&self) -> (r: Option<Vec<usize>>)
        ensures
            r is Some <==> self.shape_of() is Some && self.shape_of()->0.known(),
            r is Some ==> r->0@ == self.shape_of()->0.extents_of(),
    {
        match &self.value_type {
            Some(t) => match &t.value {
                Some(type_proto::Value::TensorType(tensor)) => match &tensor.shape {
                    Some(shape) => shape.extents(),
                    None => None,
                },
                None => None,
            },
            None => None,
        }
    }
}

} // verus!

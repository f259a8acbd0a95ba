use latex_gen::onnx::attribute_proto::AttributeType;
use latex_gen::onnx::tensor_proto::{DataType, Segment};
use latex_gen::onnx::tensor_shape_proto::dimension;
use latex_gen::onnx::tensor_shape_proto::Dimension;
use latex_gen::onnx::type_proto;
use latex_gen::onnx::{
    OperatorSetIdProto, StringStringEntryProto, TensorShapeProto, TypeProto, ValueInfoProto,
    Version,
};

fn dim(value: Option<dimension::Value>) -> Dimension {
    Dimension { denotation: String::new(), value }
}

fn value_info(shape: Option<TensorShapeProto>) -> ValueInfoProto {
    ValueInfoProto {
        name: "x".to_string(),
        value_type: Some(TypeProto {
            denotation: String::new(),
            value: Some(type_proto::Value::TensorType(type_proto::Tensor {
                elem_type: DataType::Float.number(),
                shape,
            })),
        }),
        doc_string: String::new(),
    }
}

#[test]
fn wire_numbers_round_trip() {
    for n in 0..=10 {
        assert_eq!(AttributeType::from_i32(n).unwrap().number(), n);
    }
    assert_eq!(AttributeType::from_i32(11), None);
    assert_eq!(AttributeType::from_i32(-1), None);
    assert_eq!(AttributeType::from_i32(7), Some(AttributeType::Ints));
    for n in 0..=15 {
        assert_eq!(DataType::from_i32(n).unwrap().number(), n);
    }
    assert_eq!(DataType::from_i32(16), None);
    assert_eq!(DataType::from_i32(1), Some(DataType::Float));
    assert_eq!(DataType::from_i32(11), Some(DataType::Double));
    for n in 0..=3 {
        assert_eq!(Version::from_i32(n).unwrap().number(), n);
    }
    assert_eq!(Version::from_i32(4), None);
    assert_eq!(Version::from_i32(3), Some(Version::IrVersion));
}

#[test]
fn extents_of_dimensions() {
    assert_eq!(dim(Some(dimension::Value::DimValue(64))).extent(), Some(64));
    assert_eq!(dim(Some(dimension::Value::DimValue(0))).extent(), Some(0));
    assert_eq!(dim(Some(dimension::Value::DimValue(-1))).extent(), None);
    assert_eq!(dim(Some(dimension::Value::DimParam("N".to_string()))).extent(), None);
    assert_eq!(dim(None).extent(), None);
}

#[test]
fn declared_shapes() {
    let shape = TensorShapeProto {
        dim: vec![
            dim(Some(dimension::Value::DimValue(64))),
            dim(Some(dimension::Value::DimValue(10))),
        ],
    };
    assert_eq!(shape.extents(), Some(vec![64, 10]));
    assert_eq!(value_info(Some(shape)).declared_shape(), Some(vec![64, 10]));
    let symbolic = TensorShapeProto {
        dim: vec![
            dim(Some(dimension::Value::DimParam("batch".to_string()))),
            dim(Some(dimension::Value::DimValue(10))),
        ],
    };
    assert_eq!(value_info(Some(symbolic)).declared_shape(), None);
    assert_eq!(value_info(None).declared_shape(), None);
    assert_eq!(value_info(Some(TensorShapeProto { dim: vec![] })).declared_shape(), Some(vec![]));
    let untyped = ValueInfoProto {
        name: "y".to_string(),
        value_type: None,
        doc_string: String::new(),
    };
    assert_eq!(untyped.declared_shape(), None);
    let valueless = ValueInfoProto {
        name: "z".to_string(),
        value_type: Some(TypeProto { denotation: String::new(), value: None }),
        doc_string: String::new(),
    };
    assert_eq!(valueless.declared_shape(), None);
}

#[test]
fn plain_records() {
    let segment = Segment { begin: 2, end: 9 };
    assert_eq!(segment, Segment { begin: 2, end: 9 });
    let entry = StringStringEntryProto { key: "k".to_string(), value: "v".to_string() };
    assert_eq!(entry.key, "k");
    assert_eq!(entry.value, "v");
    let opset = OperatorSetIdProto { domain: String::new(), version: 13 };
    assert_eq!(opset.version, 13);
}

//! Protocol-buffer message types of TensorFlow, as plain values.
//!
//! The fields follow TensorFlow's `example.proto`, `feature.proto`,
//! `tensor.proto`, `tensor_shape.proto`, `types.proto`,
//! `resource_handle.proto` and `example_parser_configuration.proto`.
//! Floating-point fields hold the IEEE-754 bit patterns of their values:
//! an `f32` as its `u32` bits and an `f64` as its `u64` bits.

use std::collections::HashMap;
use vstd::prelude::*;

verus! {

/// Containers to hold repeated byte strings.
#[derive(Debug, Clone, PartialEq, Default)]
pub struct BytesList {
    pub value: Vec<Vec<u8>>,
}

/// Containers to hold repeated `f32` values, by their bit patterns.
#[derive(Debug, Clone, PartialEq, Default)]
pub struct FloatList {
    pub value: Vec<u32>,
}

/// Containers to hold repeated `i64` values.
#[derive(Debug, Clone, PartialEq, Default)]
pub struct Int64List {
    pub value: Vec<i64>,
}

/// Each feature can be exactly one kind.
#[derive(Debug, Clone, PartialEq)]
pub enum Kind {
    BytesList(BytesList),
    FloatList(FloatList),
    Int64List(Int64List),
}

/// Containers for non-sequential data.
#[derive(Debug, Clone, PartialEq, Default)]
pub struct Feature {
    pub kind: Option<Kind>,
}

/// A list of features.
#[derive(Debug, Clone, PartialEq, Default)]
pub struct FeatureList {
    pub feature: Vec<Feature>,
}

/// One dimension of a tensor.
#[derive(Debug, Clone, PartialEq, Default)]
pub struct Dim {
    /// Size of the tensor in that dimension; -1 is an unknown size.
    pub size: i64,
    /// Optional name of the tensor dimension.
    pub name: String,
}

/// Dimensions of a tensor.
#[derive(Debug, Clone, PartialEq, Default)]
pub struct TensorShapeProto {
    pub dim: Vec<Dim>,
    /// If true, the number of dimensions in the shape is unknown.
    pub unknown_rank: bool,
}

/// The element types of tensors.
#[derive(Debug, Clone, Copy, PartialEq, Eq, Hash, Structural)]
pub enum DataType {
    DtInvalid,
    DtFloat,
    DtDouble,
    DtInt32,
    DtUint8,
    DtInt16,
    DtInt8,
    DtString,
    DtComplex64,
    DtInt64,
    DtBool,
    DtQint8,
    DtQuint8,
    DtQint32,
    DtBfloat16,
    DtQint16,
    DtQuint16,
    DtUint16,
    DtComplex128,
    DtHalf,
    DtResource,
    DtVariant,
    DtUint32,
    DtUint64,
    DtFloatRef,
    DtDoubleRef,
    DtInt32Ref,
    DtUint8Ref,
    DtInt16Ref,
    DtInt8Ref,
    DtStringRef,
    DtComplex64Ref,
    DtInt64Ref,
    DtBoolRef,
    DtQint8Ref,
    DtQuint8Ref,
    DtQint32Ref,
    DtBfloat16Ref,
    DtQint16Ref,
    DtQuint16Ref,
    DtUint16Ref,
    DtComplex128Ref,
    DtHalfRef,
    DtResourceRef,
    DtVariantRef,
    DtUint32Ref,
    DtUint64Ref,
}

impl DataType {
    /// The number that identifies the data type on the wire.
    pub open spec fn spec_value(self) -> i32 {
        match self {
            DataType::DtInvalid => 0,
            DataType::DtFloat => 1,
            DataType::DtDouble => 2,
            DataType::DtInt32 => 3,
            DataType::DtUint8 => 4,
            DataType::DtInt16 => 5,
            DataType::DtInt8 => 6,
            DataType::DtString => 7,
            DataType::DtComplex64 => 8,
            DataType::DtInt64 => 9,
            DataType::DtBool => 10,
            DataType::DtQint8 => 11,
            DataType::DtQuint8 => 12,
            DataType::DtQint32 => 13,
            DataType::DtBfloat16 => 14,
            DataType::DtQint16 => 15,
            DataType::DtQuint16 => 16,
            DataType::DtUint16 => 17,
            DataType::DtComplex128 => 18,
            DataType::DtHalf => 19,
            DataType::DtResource => 20,
            DataType::DtVariant => 21,
            DataType::DtUint32 => 22,
            DataType::DtUint64 => 23,
            DataType::DtFloatRef => 101,
            DataType::DtDoubleRef => 102,
            DataType::DtInt32Ref => 103,
            DataType::DtUint8Ref => 104,
            DataType::DtInt16Ref => 105,
            DataType::DtInt8Ref => 106,
            DataType::DtStringRef => 107,
            DataType::DtComplex64Ref => 108,
            DataType::DtInt64Ref => 109,
            DataType::DtBoolRef => 110,
            DataType::DtQint8Ref => 111,
            DataType::DtQuint8Ref => 112,
            DataType::DtQint32Ref => 113,
            DataType::DtBfloat16Ref => 114,
            DataType::DtQint16Ref => 115,
            DataType::DtQuint16Ref => 116,
            DataType::DtUint16Ref => 117,
            DataType::DtComplex128Ref => 118,
            DataType::DtHalfRef => 119,
            DataType::DtResourceRef => 120,
            DataType::DtVariantRef => 121,
            DataType::DtUint32Ref => 122,
            DataType::DtUint64Ref => 123,
        }
    }

    /// The number that identifies the data type on the wire.
    pub fn as_i32(self) -> (r: i32)
        ensures
            r == self.spec_value(),
    {
        match self {
            DataType::DtInvalid => 0,
            DataType::DtFloat => 1,
            DataType::DtDouble => 2,
            DataType::DtInt32 => 3,
            DataType::DtUint8 => 4,
            DataType::DtInt16 => 5,
            DataType::DtInt8 => 6,
            DataType::DtString => 7,
            DataType::DtComplex64 => 8,
            DataType::DtInt64 => 9,
            DataType::DtBool => 10,
            DataType::DtQint8 => 11,
            DataType::DtQuint8 => 12,
            DataType::DtQint32 => 13,
            DataType::DtBfloat16 => 14,
            DataType::DtQint16 => 15,
            DataType::DtQuint16 => 16,
            DataType::DtUint16 => 17,
            DataType::DtComplex128 => 18,
            DataType::DtHalf => 19,
            DataType::DtResource => 20,
            DataType::DtVariant => 21,
            DataType::DtUint32 => 22,
            DataType::DtUint64 => 23,
            DataType::DtFloatRef => 101,
            DataType::DtDoubleRef => 102,
            DataType::DtInt32Ref => 103,
            DataType::DtUint8Ref => 104,
            DataType::DtInt16Ref => 105,
            DataType::DtInt8Ref => 106,
            DataType::DtStringRef => 107,
            DataType::DtComplex64Ref => 108,
            DataType::DtInt64Ref => 109,
            DataType::DtBoolRef => 110,
            DataType::DtQint8Ref => 111,
            DataType::DtQuint8Ref => 112,
            DataType::DtQint32Ref => 113,
            DataType::DtBfloat16Ref => 114,
            DataType::DtQint16Ref => 115,
            DataType::DtQuint16Ref => 116,
            DataType::DtUint16Ref => 117,
            DataType::DtComplex128Ref => 118,
            DataType::DtHalfRef => 119,
            DataType::DtResourceRef => 120,
            DataType::DtVariantRef => 121,
            DataType::DtUint32Ref => 122,
            DataType::DtUint64Ref => 123,
        }
    }

    /// The data type that a wire number identifies, if any.
    pub fn from_i32(value: i32) -> (r: Option<DataType>)
        ensures
            r matches Some(d) ==> d.spec_value() == value,
            r is None ==> forall|d: DataType| d.spec_value() != value,
    {
        match value {
            0 => Some(DataType::DtInvalid),
            1 => Some(DataType::DtFloat),
            2 => Some(DataType::DtDouble),
            3 => Some(DataType::DtInt32),
            4 => Some(DataType::DtUint8),
            5 => Some(DataType::DtInt16),
            6 => Some(DataType::DtInt8),
            7 => Some(DataType::DtString),
            8 => Some(DataType::DtComplex64),
            9 => Some(DataType::DtInt64),
            10 => Some(DataType::DtBool),
            11 => Some(DataType::DtQint8),
            12 => Some(DataType::DtQuint8),
            13 => Some(DataType::DtQint32),
            14 => Some(DataType::DtBfloat16),
            15 => Some(DataType::DtQint16),
            16 => Some(DataType::DtQuint16),
            17 => Some(DataType::DtUint16),
            18 => Some(DataType::DtComplex128),
            19 => Some(DataType::DtHalf),
            20 => Some(DataType::DtResource),
            21 => Some(DataType::DtVariant),
            22 => Some(DataType::DtUint32),
            23 => Some(DataType::DtUint64),
            101 => Some(DataType::DtFloatRef),
            102 => Some(DataType::DtDoubleRef),
            103 => Some(DataType::DtInt32Ref),
            104 => Some(DataType::DtUint8Ref),
            105 => Some(DataType::DtInt16Ref),
            106 => Some(DataType::DtInt8Ref),
            107 => Some(DataType::DtStringRef),
            108 => Some(DataType::DtComplex64Ref),
            109 => Some(DataType::DtInt64Ref),
            110 => Some(DataType::DtBoolRef),
            111 => Some(DataType::DtQint8Ref),
            112 => Some(DataType::DtQuint8Ref),
            113 => Some(DataType::DtQint32Ref),
            114 => Some(DataType::DtBfloat16Ref),
            115 => Some(DataType::DtQint16Ref),
            116 => Some(DataType::DtQuint16Ref),
            117 => Some(DataType::DtUint16Ref),
            118 => Some(DataType::DtComplex128Ref),
            119 => Some(DataType::DtHalfRef),
            120 => Some(DataType::DtResourceRef),
            121 => Some(DataType::DtVariantRef),
            122 => Some(DataType::DtUint32Ref),
            123 => Some(DataType::DtUint64Ref),
            _ => None,
        }
    }
}

/// Distinct data types have distinct wire numbers, so that
/// [DataType::from_i32] of [DataType::as_i32] gives the data type back.
pub proof fn law_data_type_value_injective(a: DataType, b: DataType)
    requires
        a.spec_value() == b.spec_value(),
    ensures
        a == b,
{
}

/// A pair of a data type and a tensor shape.
#[derive(Debug, Clone, PartialEq, Default)]
pub struct DtypeAndShape {
    pub dtype: i32,
    pub shape: Option<TensorShapeProto>,
}

/// A handle to a TensorFlow resource.
#[derive(Debug, Clone, PartialEq, Default)]
pub struct ResourceHandleProto {
    pub device: String,
    pub container: String,
    pub name: String,
    pub hash_code: u64,
    pub maybe_type_name: String,
    pub dtypes_and_shapes: Vec<DtypeAndShape>,
    pub allowed_devices: Vec<String>,
}

/// A tensor. Floating-point values are held by their bit patterns.
#[derive(Debug, PartialEq, Default)]
pub struct TensorProto {
    pub dtype: i32,
    pub tensor_shape: Option<TensorShapeProto>,
    pub version_number: i32,
    pub tensor_content: Vec<u8>,
    pub half_val: Vec<i32>,
    pub float_val: Vec<u32>,
    pub double_val: Vec<u64>,
    pub int_val: Vec<i32>,
    pub string_val: Vec<Vec<u8>>,
    pub scomplex_val: Vec<u32>,
    pub int64_val: Vec<i64>,
    pub bool_val: Vec<bool>,
    pub dcomplex_val: Vec<u64>,
    pub resource_handle_val: Vec<ResourceHandleProto>,
    pub variant_val: Vec<VariantTensorDataProto>,
    pub uint32_val: Vec<u32>,
    pub uint64_val: Vec<u64>,
}

/// The serialization of an object that holds tensors.
#[derive(Debug, PartialEq, Default)]
pub struct VariantTensorDataProto {
    /// The name of the type of the serialized object.
    pub object_type_name: String,
    pub metadata: Vec<u8>,
    pub tensors: Vec<TensorProto>,
}

/// The configuration of a variable-length feature.
#[derive(Debug, Clone, PartialEq, Default)]
pub struct VarLenFeatureProto {
    pub dtype: i32,
    pub values_output_tensor_name: String,
    pub indices_output_tensor_name: String,
    pub shapes_output_tensor_name: String,
}

/// The configuration of a fixed-length feature.
#[derive(Debug, PartialEq, Default)]
pub struct FixedLenFeatureProto {
    pub dtype: i32,
    pub shape: Option<TensorShapeProto>,
    pub default_value: Option<TensorProto>,
    pub values_output_tensor_name: String,
}

/// Either kind of feature configuration.
#[derive(Debug, PartialEq)]
pub enum Config {
    FixedLenFeature(FixedLenFeatureProto),
    VarLenFeature(VarLenFeatureProto),
}

/// The configuration of one feature.
#[derive(Debug, PartialEq, Default)]
pub struct FeatureConfiguration {
    pub config: Option<Config>,
}

/// The configurations of the features of an example, by feature name.
#[derive(Debug, PartialEq, Default)]
pub struct ExampleParserConfiguration {
    pub feature_map: HashMap<String, FeatureConfiguration>,
}

} // verus!

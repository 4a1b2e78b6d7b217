//! Little-endian byte conversions of the primitive tensor element types.

use crate::conversions::{law_concat_pieces, spec_concat, total_len};
use crate::protos::DataType;
use vstd::bytes::*;
use vstd::prelude::*;

verus! {

/// A helper trait that converts primitive values to little-endian bytes.
pub trait ToLeBytes: Copy + Sized {
    /// The tensor data type of the values.
    spec fn spec_data_type() -> DataType;

    /// The little-endian bytes of the value, in two's complement for signed
    /// values.
    spec fn spec_le_bytes(&self) -> Seq<u8>;

    /// The tensor data type of the values.
    fn data_type() -> (r: DataType)
        ensures
            r == Self::spec_data_type(),
    ;

    /// The little-endian bytes of the value.
    fn to_bytes(&self) -> (r: Vec<u8>)
        ensures
            r@ == self.spec_le_bytes(),
    ;
}

impl ToLeBytes for u8 {
    open spec fn spec_data_type() -> DataType {
        DataType::DtUint8
    }

    open spec fn spec_le_bytes(&self) -> Seq<u8> {
        seq![*self]
    }

    fn data_type() -> (r: DataType) {
        DataType::DtUint8
    }

    fn to_bytes(&self) -> (r: Vec<u8>) {
        vec![*self]
    }
}

impl ToLeBytes for u16 {
    open spec fn spec_data_type() -> DataType {
        DataType::DtUint16
    }

    open spec fn spec_le_bytes(&self) -> Seq<u8> {
        spec_u16_to_le_bytes(*self)
    }

    fn data_type() -> (r: DataType) {
        DataType::DtUint16
    }

    fn to_bytes(&self) -> (r: Vec<u8>) {
        u16_to_le_bytes(*self)
    }
}

impl ToLeBytes for u32 {
    open spec fn spec_data_type() -> DataType {
        DataType::DtUint32
    }

    open spec fn spec_le_bytes(&self) -> Seq<u8> {
        spec_u32_to_le_bytes(*self)
    }

    fn data_type() -> (r: DataType) {
        DataType::DtUint32
    }

    fn to_bytes(&self) -> (r: Vec<u8>) {
        u32_to_le_bytes(*self)
    }
}

impl ToLeBytes for u64 {
    open spec fn spec_data_type() -> DataType {
        DataType::DtUint64
    }

    open spec fn spec_le_bytes(&self) -> Seq<u8> {
        spec_u64_to_le_bytes(*self)
    }

    fn data_type() -> (r: DataType) {
        DataType::DtUint64
    }

    fn to_bytes(&self) -> (r: Vec<u8>) {
        u64_to_le_bytes(*self)
    }
}

impl ToLeBytes for i8 {
    open spec fn spec_data_type() -> DataType {
        DataType::DtInt8
    }

    open spec fn spec_le_bytes(&self) -> Seq<u8> {
        seq![*self as u8]
    }

    fn data_type() -> (r: DataType) {
        DataType::DtInt8
    }

    fn to_bytes(&self) -> (r: Vec<u8>) {
        vec![*self as u8]
    }
}

impl ToLeBytes for i16 {
    open spec fn spec_data_type() -> DataType {
        DataType::DtInt16
    }

    open spec fn spec_le_bytes(&self) -> Seq<u8> {
        spec_u16_to_le_bytes(*self as u16)
    }

    fn data_type() -> (r: DataType) {
        DataType::DtInt16
    }

    fn to_bytes(&self) -> (r: Vec<u8>) {
        u16_to_le_bytes(*self as u16)
    }
}

impl ToLeBytes for i32 {
    open spec fn spec_data_type() -> DataType {
        DataType::DtInt32
    }

    open spec fn spec_le_bytes(&self) -> Seq<u8> {
        spec_u32_to_le_bytes(*self as u32)
    }

    fn data_type() -> (r: DataType) {
        DataType::DtInt32
    }

    fn to_bytes(&self) -> (r: Vec<u8>) {
        u32_to_le_bytes(*self as u32)
    }
}

impl ToLeBytes for i64 {
    open spec fn spec_data_type() -> DataType {
        DataType::DtInt64
    }

    open spec fn spec_le_bytes(&self) -> Seq<u8> {
        spec_u64_to_le_bytes(*self as u64)
    }

    fn data_type() -> (r: DataType) {
        DataType::DtInt64
    }

    fn to_bytes(&self) -> (r: Vec<u8>) {
        u64_to_le_bytes(*self as u64)
    }
}

/// The little-endian bytes of a sequence of values, one after another.
pub open spec fn spec_le_content<T: ToLeBytes>(data: Seq<T>) -> Seq<u8>
    decreases data.len(),
{
    if data.len() == 0 {
        Seq::empty()
    } else {
        spec_le_content(data.drop_last()) + data.last().spec_le_bytes()
    }
}

/// Concatenate the little-endian bytes of the values.
pub(crate) fn le_content<T: ToLeBytes>(data: &[T]) -> (r: Vec<u8>)
    ensures
        r@ == spec_le_content(data@),
{
    let mut out: Vec<u8> = Vec::new();
    let mut i: usize = 0;
    while i < data.len()
        invariant
            i <= data@.len(),
            out@ == spec_le_content(data@.take(i as int)),
        decreases data@.len() - i,
    {
        let mut bytes = data[i].to_bytes();
        proof {
            assert(data@.take(i + 1).drop_last() =~= data@.take(i as int));
        }
        out.append(&mut bytes);
        i = i + 1;
    }
    proof {
        assert(data@.take(data@.len() as int) =~= data@);
    }
    out
}

/// Each element type is stored as TensorFlow's data type of the same
/// signedness and width (`types.proto`: DT_UINT8 = 4, DT_UINT16 = 17,
/// DT_UINT32 = 22, DT_UINT64 = 23, DT_INT8 = 6, DT_INT16 = 5,
/// DT_INT32 = 3, DT_INT64 = 9), and its content bytes are as many as that
/// width and decode, little-endian and in two's complement, to the value.
pub proof fn law_element_data_types()
    ensures
        <u8 as ToLeBytes>::spec_data_type().spec_value() == 4,
        <u16 as ToLeBytes>::spec_data_type().spec_value() == 17,
        <u32 as ToLeBytes>::spec_data_type().spec_value() == 22,
        <u64 as ToLeBytes>::spec_data_type().spec_value() == 23,
        <i8 as ToLeBytes>::spec_data_type().spec_value() == 6,
        <i16 as ToLeBytes>::spec_data_type().spec_value() == 5,
        <i32 as ToLeBytes>::spec_data_type().spec_value() == 3,
        <i64 as ToLeBytes>::spec_data_type().spec_value() == 9,
        forall|v: u8| #[trigger] v.spec_le_bytes() == seq![v],
        forall|v: i8| #[trigger] v.spec_le_bytes().len() == 1 && (v.spec_le_bytes()[0] as i8) == v,
        forall|v: u16|
            #[trigger] v.spec_le_bytes().len() == 2 && spec_u16_from_le_bytes(v.spec_le_bytes()) == v,
        forall|v: i16|
            #[trigger] v.spec_le_bytes().len() == 2 && (spec_u16_from_le_bytes(v.spec_le_bytes()) as i16)
                == v,
        forall|v: u32|
            #[trigger] v.spec_le_bytes().len() == 4 && spec_u32_from_le_bytes(v.spec_le_bytes()) == v,
        forall|v: i32|
            #[trigger] v.spec_le_bytes().len() == 4 && (spec_u32_from_le_bytes(v.spec_le_bytes()) as i32)
                == v,
        forall|v: u64|
            #[trigger] v.spec_le_bytes().len() == 8 && spec_u64_from_le_bytes(v.spec_le_bytes()) == v,
        forall|v: i64|
            #[trigger] v.spec_le_bytes().len() == 8 && (spec_u64_from_le_bytes(v.spec_le_bytes()) as i64)
                == v,
{
    lemma_auto_spec_u16_to_from_le_bytes();
    lemma_auto_spec_u32_to_from_le_bytes();
    lemma_auto_spec_u64_to_from_le_bytes();
    assert forall|v: i8| #[trigger] v.spec_le_bytes().len() == 1 && (v.spec_le_bytes()[0] as i8) == v by {
        assert(((v as u8) as i8) == v) by (bit_vector);
    }
    assert forall|v: i16|
        #[trigger] v.spec_le_bytes().len() == 2 && (spec_u16_from_le_bytes(v.spec_le_bytes()) as i16)
            == v by {
        assert(((v as u16) as i16) == v) by (bit_vector);
    }
    assert forall|v: i32|
        #[trigger] v.spec_le_bytes().len() == 4 && (spec_u32_from_le_bytes(v.spec_le_bytes()) as i32)
            == v by {
        assert(((v as u32) as i32) == v) by (bit_vector);
    }
    assert forall|v: i64|
        #[trigger] v.spec_le_bytes().len() == 8 && (spec_u64_from_le_bytes(v.spec_le_bytes()) as i64)
            == v by {
        assert(((v as u64) as i64) == v) by (bit_vector);
    }
}

/// The little-endian bytes of each value of a sequence.
pub open spec fn value_bytes<T: ToLeBytes>(data: Seq<T>) -> Seq<Seq<u8>> {
    data.map_values(|v: T| v.spec_le_bytes())
}

proof fn lemma_le_content_concat<T: ToLeBytes>(data: Seq<T>)
    ensures
        spec_le_content(data) == spec_concat(value_bytes(data)),
    decreases data.len(),
{
    if data.len() > 0 {
        lemma_le_content_concat(data.drop_last());
        assert(value_bytes(data).drop_last() =~= value_bytes(data.drop_last()));
    } else {
        assert(value_bytes(data) =~= Seq::<Seq<u8>>::empty());
    }
}

/// The content of a tensor of values holds the little-endian bytes of each
/// value, in the order of the values: the bytes of the `i`-th value stand
/// right after those of the values before it, and nothing else is there.
pub proof fn law_le_content_layout<T: ToLeBytes>(data: Seq<T>)
    ensures
        spec_le_content(data).len() == total_len(value_bytes(data)),
        forall|i: int|
            0 <= i < data.len() ==> spec_le_content(data).subrange(
                total_len(#[trigger] value_bytes(data).take(i)) as int,
                total_len(value_bytes(data).take(i + 1)) as int,
            ) == data[i].spec_le_bytes(),
{
    lemma_le_content_concat(data);
    law_concat_pieces(value_bytes(data));
    assert forall|i: int| 0 <= i < data.len() implies spec_le_content(data).subrange(
        total_len(#[trigger] value_bytes(data).take(i)) as int,
        total_len(value_bytes(data).take(i + 1)) as int,
    ) == data[i].spec_le_bytes() by {
        assert(value_bytes(data)[i] == data[i].spec_le_bytes());
    }
}

} // verus!

//! Building tensor protocol buffers from shapes and element data.

use crate::ops::{le_content, spec_le_content, ToLeBytes};
use crate::protos::{DataType, Dim, TensorProto, TensorShapeProto};
use integer_encoding::VarInt;
use vstd::prelude::*;

verus! {

/// The zigzag map of signed to unsigned integers: `0, -1, 1, -2, 2, ...`
/// go to `0, 1, 2, 3, 4, ...`.
pub open spec fn zigzag(value: int) -> nat {
    if value >= 0 {
        (2 * value) as nat
    } else {
        (-2 * value - 1) as nat
    }
}

/// The base-128 variable-length encoding of an unsigned integer: seven
/// bits per byte, least significant group first, the high bit set on every
/// byte but the last.
pub open spec fn spec_varint(n: nat) -> Seq<u8>
    decreases n,
{
    if n < 128 {
        seq![n as u8]
    } else {
        seq![(128 + n % 128) as u8] + spec_varint(n / 128)
    }
}

/// The variable-length encoding of an `i32`: the base-128 encoding of its
/// zigzag value.
pub open spec fn spec_varint_i32(value: i32) -> Seq<u8> {
    spec_varint(zigzag(value as int))
}

/// The number that base-128 bytes encode: seven bits per byte, least
/// significant group first.
pub open spec fn varint_value(bytes: Seq<u8>) -> nat
    decreases bytes.len(),
{
    if bytes.len() == 0 {
        0
    } else {
        (bytes[0] % 128) as nat + 128 * varint_value(bytes.drop_first())
    }
}

/// The signed number that a zigzag value stands for.
pub open spec fn unzigzag(n: nat) -> int {
    if n % 2 == 0 {
        (n / 2) as int
    } else {
        -((n + 1) / 2)
    }
}

/// The base-128 encoding of a number is one or more bytes, every byte but
/// the last with its high bit set and the last without, and the bytes
/// decode to the number; the zigzag value of an `i32` stands for the
/// `i32`. So the encoding of an `i32` decodes back to it.
pub proof fn law_varint_decodes(n: nat, value: i32)
    ensures
        spec_varint(n).len() >= 1,
        forall|i: int| 0 <= i < spec_varint(n).len() - 1 ==> #[trigger] spec_varint(n)[i] >= 128,
        spec_varint(n).last() < 128,
        varint_value(spec_varint(n)) == n,
        unzigzag(zigzag(value as int)) == value,
        varint_value(spec_varint_i32(value)) == zigzag(value as int),
{
    lemma_varint_shape(n);
    lemma_varint_value(n);
    lemma_varint_value(zigzag(value as int));
}

proof fn lemma_varint_shape(n: nat)
    ensures
        spec_varint(n).len() >= 1,
        forall|i: int| 0 <= i < spec_varint(n).len() - 1 ==> #[trigger] spec_varint(n)[i] >= 128,
        spec_varint(n).last() < 128,
    decreases n,
{
    if n >= 128 {
        lemma_varint_shape(n / 128);
        let v = spec_varint(n);
        let rest = spec_varint(n / 128);
        assert(v =~= seq![(128 + n % 128) as u8] + rest);
        assert forall|i: int| 0 <= i < v.len() - 1 implies #[trigger] v[i] >= 128 by {
            if i > 0 {
                assert(v[i] == rest[i - 1]);
            }
        }
        assert(v.last() == rest.last());
    }
}

proof fn lemma_varint_value(n: nat)
    ensures
        varint_value(spec_varint(n)) == n,
    decreases n,
{
    let v = spec_varint(n);
    if n >= 128 {
        lemma_varint_value(n / 128);
        assert(v.drop_first() =~= spec_varint(n / 128));
        let b = (128 + n % 128) as u8;
        assert(b % 128 == n % 128);
        assert(n == n % 128 + 128 * (n / 128)) by (nonlinear_arith);
    } else {
        assert(v.drop_first() =~= Seq::<u8>::empty());
        assert(varint_value(Seq::<u8>::empty()) == 0);
        assert((n as u8) % 128 == n);
    }
}

/// Calls `integer_encoding::VarInt::encode_var_vec` on an `i32`.
///
/// Trusted: the contract claims that the bytes are the base-128 encoding of
/// the value's zigzag value, as the crate's `encode_var` for `i64` writes
/// them into a buffer of exactly the required length.
#[verifier::external_body]
pub(crate) fn encode_var_i32(value: i32) -> (r: Vec<u8>)
    ensures
        r@ == spec_varint_i32(value),
{
    value.encode_var_vec()
}

/// The product of a sequence of integers.
pub open spec fn spec_product(factors: Seq<int>) -> int
    decreases factors.len(),
{
    if factors.len() == 0 {
        1
    } else {
        spec_product(factors.drop_last()) * factors.last()
    }
}

/// Every partial product of the factors, from the first one on, fits in a
/// `usize`.
pub open spec fn product_fits(factors: Seq<int>) -> bool {
    forall|k: int| 0 <= k <= factors.len() ==> #[trigger] spec_product(factors.take(k)) <= usize::MAX
}

/// The factors of a shape's element count.
pub open spec fn shape_factors(shape: Seq<usize>) -> Seq<int> {
    shape.map_values(|sz: usize| sz as int)
}

/// The view of a sequence of byte vectors.
pub open spec fn byte_strings(data: Seq<Vec<u8>>) -> Seq<Seq<u8>> {
    data.map_values(|v: Vec<u8>| v@)
}

/// The encoded lengths of the strings of a string tensor, one after another.
pub open spec fn spec_varint_lengths(data: Seq<Seq<u8>>) -> Seq<u8>
    decreases data.len(),
{
    if data.len() == 0 {
        Seq::empty()
    } else {
        spec_varint_lengths(data.drop_last()) + spec_varint_i32(data.last().len() as i32)
    }
}

/// The bytes of the strings, one after another.
pub open spec fn spec_concat(data: Seq<Seq<u8>>) -> Seq<u8>
    decreases data.len(),
{
    if data.len() == 0 {
        Seq::empty()
    } else {
        spec_concat(data.drop_last()) + data.last()
    }
}

/// The total length of byte strings.
pub open spec fn total_len(parts: Seq<Seq<u8>>) -> nat
    decreases parts.len(),
{
    if parts.len() == 0 {
        0
    } else {
        total_len(parts.drop_last()) + parts.last().len()
    }
}

/// Joining byte strings keeps them in order: the joined bytes are as many
/// as all the strings hold, and the `i`-th string stands right after the
/// strings before it.
pub proof fn law_concat_pieces(parts: Seq<Seq<u8>>)
    ensures
        spec_concat(parts).len() == total_len(parts),
        forall|i: int|
            0 <= i < parts.len() ==> total_len(parts.take(i)) + parts[i].len() == total_len(
                parts.take(i + 1),
            ) && spec_concat(parts).subrange(
                total_len(#[trigger] parts.take(i)) as int,
                total_len(parts.take(i + 1)) as int,
            ) == parts[i],
    decreases parts.len(),
{
    if parts.len() > 0 {
        let init = parts.drop_last();
        let n = parts.len() as int;
        law_concat_pieces(init);
        assert forall|i: int|
            0 <= i < parts.len() implies total_len(parts.take(i)) + parts[i].len() == total_len(
                parts.take(i + 1),
            ) && spec_concat(parts).subrange(
                total_len(#[trigger] parts.take(i)) as int,
                total_len(parts.take(i + 1)) as int,
            ) == parts[i] by {
            if i < n - 1 {
                assert(parts.take(i) =~= init.take(i));
                assert(parts.take(i + 1) =~= init.take(i + 1));
                assert(init.take(i) == init.take(i));
                assert(total_len(init.take(i + 1)) <= total_len(init)) by {
                    lemma_total_len_prefix(init, i + 1);
                }
                assert(spec_concat(parts).subrange(
                    total_len(init.take(i)) as int,
                    total_len(init.take(i + 1)) as int,
                ) =~= spec_concat(init).subrange(
                    total_len(init.take(i)) as int,
                    total_len(init.take(i + 1)) as int,
                ));
            } else {
                assert(parts.take(i) =~= init);
                assert(parts.take(i + 1) =~= parts);
                assert(parts.take(i + 1).drop_last() =~= init);
                assert(spec_concat(parts).subrange(
                    total_len(init) as int,
                    total_len(parts) as int,
                ) =~= parts[i]);
            }
        }
    }
}

/// The strings of a prefix are no longer than all of them.
proof fn lemma_total_len_prefix(parts: Seq<Seq<u8>>, k: int)
    requires
        0 <= k <= parts.len(),
    ensures
        total_len(parts.take(k)) <= total_len(parts),
    decreases parts.len(),
{
    if k < parts.len() {
        lemma_total_len_prefix(parts.drop_last(), k);
        assert(parts.drop_last().take(k) =~= parts.take(k));
    } else {
        assert(parts.take(k) =~= parts);
    }
}

/// The tensor content of a string tensor: the encoded lengths of the
/// strings, then their bytes.
pub open spec fn spec_string_content(data: Seq<Seq<u8>>) -> Seq<u8> {
    spec_varint_lengths(data) + spec_concat(data)
}

/// The encoded lengths of byte strings, one per string.
pub open spec fn encoded_lengths(data: Seq<Seq<u8>>) -> Seq<Seq<u8>> {
    data.map_values(|d: Seq<u8>| spec_varint_i32(d.len() as i32))
}

/// The encoded lengths of a string tensor are the lengths' encodings
/// joined in order.
proof fn lemma_varint_lengths_concat(data: Seq<Seq<u8>>)
    ensures
        spec_varint_lengths(data) == spec_concat(encoded_lengths(data)),
    decreases data.len(),
{
    if data.len() > 0 {
        lemma_varint_lengths_concat(data.drop_last());
        assert(encoded_lengths(data).drop_last() =~= encoded_lengths(data.drop_last()));
    } else {
        assert(encoded_lengths(data) =~= Seq::<Seq<u8>>::empty());
    }
}

/// The content of a string tensor holds first the encoded length of each
/// string, in the order of the strings, then the strings themselves, in
/// the same order: the `i`-th length and the `i`-th string each stand
/// right after those before them.
pub proof fn law_string_content_layout(data: Seq<Seq<u8>>)
    ensures
        spec_string_content(data).len() == total_len(encoded_lengths(data)) + total_len(data),
        forall|i: int|
            0 <= i < data.len() ==> spec_string_content(data).subrange(
                total_len(#[trigger] encoded_lengths(data).take(i)) as int,
                total_len(encoded_lengths(data).take(i + 1)) as int,
            ) == spec_varint_i32(data[i].len() as i32),
        forall|i: int|
            0 <= i < data.len() ==> spec_string_content(data).subrange(
                (total_len(encoded_lengths(data)) + total_len(#[trigger] data.take(i))) as int,
                (total_len(encoded_lengths(data)) + total_len(data.take(i + 1))) as int,
            ) == data[i],
{
    let lens = encoded_lengths(data);
    let l = total_len(lens) as int;
    lemma_varint_lengths_concat(data);
    law_concat_pieces(lens);
    law_concat_pieces(data);
    let content = spec_string_content(data);
    assert forall|i: int| 0 <= i < data.len() implies content.subrange(
        total_len(#[trigger] lens.take(i)) as int,
        total_len(lens.take(i + 1)) as int,
    ) == spec_varint_i32(data[i].len() as i32) by {
        assert(lens[i] == spec_varint_i32(data[i].len() as i32));
        lemma_total_len_prefix(lens, i + 1);
        assert(content.subrange(total_len(lens.take(i)) as int, total_len(lens.take(i + 1)) as int)
            =~= spec_concat(lens).subrange(
            total_len(lens.take(i)) as int,
            total_len(lens.take(i + 1)) as int,
        ));
    }
    assert forall|i: int| 0 <= i < data.len() implies content.subrange(
        l + total_len(#[trigger] data.take(i)),
        l + total_len(data.take(i + 1)),
    ) == data[i] by {
        lemma_total_len_prefix(data, i + 1);
        assert(content.subrange(l + total_len(data.take(i)), l + total_len(data.take(i + 1)))
            =~= spec_concat(data).subrange(
            total_len(data.take(i)) as int,
            total_len(data.take(i + 1)) as int,
        ));
    }
}

/// Whether a tensor leaves every value field but the tensor content empty.
pub open spec fn only_content(t: TensorProto) -> bool {
    &&& t.half_val@.len() == 0
    &&& t.float_val@.len() == 0
    &&& t.double_val@.len() == 0
    &&& t.int_val@.len() == 0
    &&& t.string_val@.len() == 0
    &&& t.scomplex_val@.len() == 0
    &&& t.int64_val@.len() == 0
    &&& t.bool_val@.len() == 0
    &&& t.dcomplex_val@.len() == 0
    &&& t.resource_handle_val@.len() == 0
    &&& t.variant_val@.len() == 0
    &&& t.uint32_val@.len() == 0
    &&& t.uint64_val@.len() == 0
}

/// Whether `dims` are the dimensions of the sizes, in order and unnamed.
pub open spec fn dims_of_sizes(dims: Seq<Dim>, sizes: Seq<i64>) -> bool {
    &&& dims.len() == sizes.len()
    &&& forall|i: int| 0 <= i < dims.len() ==> (#[trigger] dims[i]).size == sizes[i] && dims[i].name@
        == Seq::<char>::empty()
}

/// The string-tensor content of the byte strings.
pub(crate) fn string_content(data: &[Vec<u8>]) -> (r: Vec<u8>)
    ensures
        r@ == spec_string_content(byte_strings(data@)),
{
    let ghost strings = byte_strings(data@);
    let mut lengths: Vec<u8> = Vec::new();
    let mut bytes: Vec<u8> = Vec::new();
    let mut i: usize = 0;
    while i < data.len()
        invariant
            i <= data@.len(),
            strings == byte_strings(data@),
            lengths@ == spec_varint_lengths(strings.take(i as int)),
            bytes@ == spec_concat(strings.take(i as int)),
        decreases data@.len() - i,
    {
        let mut len_bytes = encode_var_i32(data[i].len() as i32);
        let mut elem = data[i].clone();
        proof {
            assert(strings.take(i + 1).drop_last() =~= strings.take(i as int));
            assert(strings.take(i + 1).last() == data@[i as int]@);
        }
        lengths.append(&mut len_bytes);
        bytes.append(&mut elem);
        i = i + 1;
    }
    proof {
        assert(strings.take(data@.len() as int) =~= strings);
    }
    lengths.append(&mut bytes);
    lengths
}

/// A tensor initializer holding the shape.
pub struct TensorProtoInit {
    pub shape: Option<Vec<usize>>,
}

impl TensorProtoInit {
    /// The dimensions of the shape, sizes cast to `i64`.
    pub open spec fn spec_sizes(&self) -> Seq<i64> {
        match self.shape {
            Some(shape) => shape@.map_values(|sz: usize| sz as i64),
            None => Seq::empty(),
        }
    }

    /// Build a tensor of the given element values, in their little-endian
    /// bytes.
    pub fn build_with_data<T: ToLeBytes>(self, data: &[T]) -> (r: TensorProto)
        requires
            self.shape is Some,
            product_fits(shape_factors(self.shape->Some_0@)),
            spec_product(shape_factors(self.shape->Some_0@)) == data@.len(),
        ensures
            r.dtype == T::spec_data_type().spec_value(),
            r.tensor_shape matches Some(s) && dims_of_sizes(s.dim@, self.spec_sizes())
                && !s.unknown_rank,
            r.version_number == 0,
            r.tensor_content@ == spec_le_content(data@),
            only_content(r),
    {
        self.verify_shape(data.len());
        let dtype = T::data_type().as_i32();
        let tensor_content = le_content(data);
        TensorProto {
            dtype,
            tensor_shape: self.build_tensor_shape(),
            version_number: 0,
            tensor_content,
            half_val: vec![],
            float_val: vec![],
            double_val: vec![],
            int_val: vec![],
            string_val: vec![],
            scomplex_val: vec![],
            int64_val: vec![],
            bool_val: vec![],
            dcomplex_val: vec![],
            resource_handle_val: vec![],
            variant_val: vec![],
            uint32_val: vec![],
            uint64_val: vec![],
        }
    }

    /// Build a string tensor of the byte strings: the content holds the
    /// encoded length of each string, then the strings.
    pub fn build_string(self, data: &[Vec<u8>]) -> (r: TensorProto)
        requires
            self.shape is Some,
            product_fits(shape_factors(self.shape->Some_0@)),
            spec_product(shape_factors(self.shape->Some_0@)) == data@.len(),
        ensures
            r.dtype == DataType::DtString.spec_value(),
            r.tensor_shape matches Some(s) && dims_of_sizes(s.dim@, self.spec_sizes())
                && !s.unknown_rank,
            r.version_number == 0,
            r.tensor_content@ == spec_string_content(byte_strings(data@)),
            only_content(r),
    {
        self.verify_shape(data.len());
        let tensor_content = string_content(data);
        TensorProto {
            dtype: DataType::DtString.as_i32(),
            tensor_shape: self.build_tensor_shape(),
            version_number: 0,
            tensor_content,
            half_val: vec![],
            float_val: vec![],
            double_val: vec![],
            int_val: vec![],
            string_val: vec![],
            scomplex_val: vec![],
            int64_val: vec![],
            bool_val: vec![],
            dcomplex_val: vec![],
            resource_handle_val: vec![],
            variant_val: vec![],
            uint32_val: vec![],
            uint64_val: vec![],
        }
    }

    /// The tensor shape of the initializer's shape, if it has one.
    pub fn build_tensor_shape(&self) -> (r: Option<TensorShapeProto>)
        ensures
            self.shape is None ==> r is None,
            self.shape is Some ==> (r matches Some(s) && dims_of_sizes(s.dim@, self.spec_sizes())
                && !s.unknown_rank),
    {
        match &self.shape {
            None => None,
            Some(shape) => {
                let mut dim: Vec<Dim> = Vec::new();
                let mut i: usize = 0;
                while i < shape.len()
                    invariant
                        i <= shape@.len(),
                        self.spec_sizes() == shape@.map_values(|sz: usize| sz as i64),
                        dims_of_sizes(dim@, self.spec_sizes().take(i as int)),
                    decreases shape@.len() - i,
                {
                    dim.push(Dim { size: shape[i] as i64, name: String::new() });
                    i = i + 1;
                }
                proof {
                    assert(self.spec_sizes().take(shape@.len() as int) =~= self.spec_sizes());
                }
                Some(TensorShapeProto { dim, unknown_rank: false })
            },
        }
    }

    /// Check that the shape holds `len` elements.
    fn verify_shape(&self, len: usize)
        requires
            self.shape is Some,
            product_fits(shape_factors(self.shape->Some_0@)),
            spec_product(shape_factors(self.shape->Some_0@)) == len,
    {
        let shape = self.shape.as_ref().unwrap();
        let ghost factors = shape_factors(shape@);
        let mut prod: usize = 1;
        let mut i: usize = 0;
        while i < shape.len()
            invariant
                i <= shape@.len(),
                factors == shape_factors(shape@),
                product_fits(factors),
                prod == spec_product(factors.take(i as int)),
            decreases shape@.len() - i,
        {
            proof {
                assert(factors.take(i + 1).drop_last() =~= factors.take(i as int));
                assert(spec_product(factors.take(i + 1)) <= usize::MAX);
            }
            prod = prod * shape[i];
            i = i + 1;
        }
        proof {
            assert(factors.take(shape@.len() as int) =~= factors);
        }
        assert(prod == len);
    }
}

} // verus!

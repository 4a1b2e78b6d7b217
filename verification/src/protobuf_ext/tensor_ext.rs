//! Building tensor protocol buffers from shapes and element slices.

use crate::conversions::{
    byte_strings, dims_of_sizes, only_content, product_fits, spec_product, spec_string_content,
    string_content,
};
use crate::error::Error;
use crate::ops::{le_content, spec_le_content, ToLeBytes};
use crate::protos::{DataType, Dim, TensorProto, TensorShapeProto};
use vstd::prelude::*;

verus! {

/// Element types of [TensorProto]; their content bytes are little-endian.
pub trait TensorProtoElement: ToLeBytes {

}

impl TensorProtoElement for u8 {

}

impl TensorProtoElement for u16 {

}

impl TensorProtoElement for u32 {

}

impl TensorProtoElement for u64 {

}

impl TensorProtoElement for i8 {

}

impl TensorProtoElement for i16 {

}

impl TensorProtoElement for i32 {

}

impl TensorProtoElement for i64 {

}

/// The factors of the element count of dimensions: each size cast to
/// `usize`.
pub open spec fn dim_factors(dims: Seq<Dim>) -> Seq<int> {
    dims.map_values(|d: Dim| (d.size as usize) as int)
}

/// The number of elements of a tensor with the given dimensions.
pub fn numel(dims: &[Dim]) -> (r: usize)
    requires
        product_fits(dim_factors(dims@)),
    ensures
        r == spec_product(dim_factors(dims@)),
{
    let ghost factors = dim_factors(dims@);
    let mut prod: usize = 1;
    let mut i: usize = 0;
    while i < dims.len()
        invariant
            i <= dims@.len(),
            factors == dim_factors(dims@),
            product_fits(factors),
            prod == spec_product(factors.take(i as int)),
        decreases dims@.len() - i,
    {
        proof {
            assert(factors.take(i + 1).drop_last() =~= factors.take(i as int));
            assert(spec_product(factors.take(i + 1)) <= usize::MAX);
        }
        prod = prod * (dims[i].size as usize);
        i = i + 1;
    }
    proof {
        assert(factors.take(dims@.len() as int) =~= factors);
    }
    prod
}

/// Conversion to a list of dimensions.
pub trait IntoShape {
    /// The sizes of the dimensions.
    spec fn spec_sizes(&self) -> Seq<int>;

    /// The dimensions, unnamed. Every size must fit in an `i64`.
    fn to_shape(&self) -> (r: Vec<Dim>)
        requires
            forall|i: int| 0 <= i < self.spec_sizes().len() ==> #[trigger] self.spec_sizes()[i] <= i64::MAX,
        ensures
            dims_of_sizes(r@, self.spec_sizes().map_values(|s: int| s as i64)),
    ;
}

/// The unnamed dimensions of the sizes.
fn dims_of_u64(sizes: &[u64]) -> (r: Vec<Dim>)
    requires
        forall|i: int| 0 <= i < sizes@.len() ==> #[trigger] sizes@[i] <= i64::MAX,
    ensures
        dims_of_sizes(r@, sizes@.map_values(|s: u64| s as i64)),
{
    let ghost target = sizes@.map_values(|s: u64| s as i64);
    let mut dims: Vec<Dim> = Vec::new();
    let mut i: usize = 0;
    while i < sizes.len()
        invariant
            i <= sizes@.len(),
            target == sizes@.map_values(|s: u64| s as i64),
            forall|k: int| 0 <= k < sizes@.len() ==> #[trigger] sizes@[k] <= i64::MAX,
            dims_of_sizes(dims@, target.take(i as int)),
        decreases sizes@.len() - i,
    {
        dims.push(Dim { size: sizes[i] as i64, name: String::new() });
        i = i + 1;
    }
    proof {
        assert(target.take(sizes@.len() as int) =~= target);
    }
    dims
}

impl IntoShape for Vec<u64> {
    open spec fn spec_sizes(&self) -> Seq<int> {
        self@.map_values(|s: u64| s as int)
    }

    fn to_shape(&self) -> (r: Vec<Dim>) {
        proof {
            assert forall|i: int| 0 <= i < self@.len() implies #[trigger] self@[i] <= i64::MAX by {
                assert(self.spec_sizes()[i] == self@[i]);
            }
        }
        let r = dims_of_u64(self.as_slice());
        proof {
            assert(self.spec_sizes().map_values(|s: int| s as i64) =~= self@.map_values(
                |s: u64| s as i64,
            ));
        }
        r
    }
}

impl IntoShape for Vec<usize> {
    open spec fn spec_sizes(&self) -> Seq<int> {
        self@.map_values(|s: usize| s as int)
    }

    fn to_shape(&self) -> (r: Vec<Dim>) {
        let mut sizes: Vec<u64> = Vec::new();
        let mut i: usize = 0;
        while i < self.len()
            invariant
                i <= self@.len(),
                sizes@.len() == i,
                forall|k: int| 0 <= k < i ==> #[trigger] sizes@[k] == self@[k],
            decreases self@.len() - i,
        {
            sizes.push(self[i] as u64);
            i = i + 1;
        }
        proof {
            assert forall|k: int| 0 <= k < sizes@.len() implies #[trigger] sizes@[k] <= i64::MAX by {
                assert(self.spec_sizes()[k] == self@[k]);
            }
        }
        let r = dims_of_u64(sizes.as_slice());
        proof {
            assert(self.spec_sizes().map_values(|s: int| s as i64) =~= sizes@.map_values(
                |s: u64| s as i64,
            ));
        }
        r
    }
}

impl IntoShape for Vec<u32> {
    open spec fn spec_sizes(&self) -> Seq<int> {
        self@.map_values(|s: u32| s as int)
    }

    fn to_shape(&self) -> (r: Vec<Dim>) {
        let mut sizes: Vec<u64> = Vec::new();
        let mut i: usize = 0;
        while i < self.len()
            invariant
                i <= self@.len(),
                sizes@.len() == i,
                forall|k: int| 0 <= k < i ==> #[trigger] sizes@[k] == self@[k],
            decreases self@.len() - i,
        {
            sizes.push(self[i] as u64);
            i = i + 1;
        }
        let r = dims_of_u64(sizes.as_slice());
        proof {
            assert(self.spec_sizes().map_values(|s: int| s as i64) =~= sizes@.map_values(
                |s: u64| s as i64,
            ));
        }
        r
    }
}

/// The factors of the element count of a shape given by sizes.
pub open spec fn size_factors(sizes: Seq<int>) -> Seq<int> {
    sizes.map_values(|s: int| ((s as i64) as usize) as int)
}

/// Whether a shape's sizes all fit in an `i64`.
pub open spec fn sizes_fit(sizes: Seq<int>) -> bool {
    forall|i: int| 0 <= i < sizes.len() ==> #[trigger] sizes[i] <= i64::MAX
}

/// The layout of an image's samples in a flat buffer: the number of
/// channels, the width and the height, and for each the distance in the
/// buffer from one sample to the next in that direction.
#[derive(Debug, Clone, Copy, PartialEq, Eq, Hash, Structural)]
pub struct SampleLayout {
    pub channels: u8,
    pub channel_stride: usize,
    pub width: u32,
    pub width_stride: usize,
    pub height: u32,
    pub height_stride: usize,
}

impl SampleLayout {
    /// The buffer index of the sample of channel `c` at pixel (`x`, `y`).
    pub open spec fn spec_index(self, c: int, x: int, y: int) -> int {
        c * self.channel_stride + x * self.width_stride + y * self.height_stride
    }

    /// Whether every sample of the image lies in a buffer of `len` samples.
    pub open spec fn samples_within(self, len: int) -> bool {
        forall|c: int, x: int, y: int|
            0 <= c < self.channels && 0 <= x < self.width && 0 <= y < self.height
                ==> #[trigger] self.spec_index(c, x, y) < len
    }

    /// The number of samples of the image.
    pub open spec fn num_samples(self) -> int {
        self.height * self.width * self.channels
    }
}

/// The position of the sample of channel `c` at pixel (`x`, `y`) when the
/// samples are laid out row by row, pixel by pixel, channel by channel.
pub open spec fn hwc_pos(width: int, channels: int, y: int, x: int, c: int) -> int {
    (y * width + x) * channels + c
}

/// The samples of an image in height-width-channel order: row by row,
/// pixel by pixel, channel by channel.
pub open spec fn spec_hwc_samples<T>(layout: SampleLayout, samples: Seq<T>) -> Seq<T> {
    let w = layout.width as int;
    let ch = layout.channels as int;
    Seq::new(
        layout.num_samples() as nat,
        |k: int| samples[layout.spec_index(k % ch, (k / ch) % w, (k / ch) / w)],
    )
}

/// A sample of an earlier pixel, or an earlier channel of the same pixel,
/// comes earlier in height-width-channel order.
proof fn lemma_hwc_pos_before(w: int, ch: int, yy: int, xx: int, cc: int, y: int, x: int, c: int)
    requires
        0 <= xx < w,
        0 <= cc < ch,
        0 <= yy,
        0 <= x,
        0 <= c,
        yy < y || (yy == y && (xx < x || (xx == x && cc < c))),
    ensures
        hwc_pos(w, ch, yy, xx, cc) < hwc_pos(w, ch, y, x, c),
{
    if yy == y && xx == x {
    } else {
        assert(yy * w + xx + 1 <= y * w + x) by (nonlinear_arith)
            requires
                0 <= xx < w,
                0 <= yy,
                0 <= x,
                yy < y || (yy == y && xx < x),
        {
            if yy < y {
                assert(yy * w + w <= y * w);
            }
        }
        assert((yy * w + xx + 1) * ch <= (y * w + x) * ch) by (nonlinear_arith)
            requires
                yy * w + xx + 1 <= y * w + x,
                ch >= 0,
        ;
        assert((yy * w + xx + 1) * ch == (yy * w + xx) * ch + ch) by (nonlinear_arith);
    }
}

/// In height-width-channel order the sample of channel `c` at pixel
/// (`x`, `y`) stands at position `(y * width + x) * channels + c`: rows
/// one after another from the top, pixels of a row from the left, the
/// channels of a pixel in order; and it is the buffer sample at
/// `c * channel_stride + x * width_stride + y * height_stride`. There are
/// `height * width * channels` samples.
pub proof fn law_hwc_samples_order<T>(layout: SampleLayout, samples: Seq<T>)
    ensures
        spec_hwc_samples(layout, samples).len() == layout.height * layout.width * layout.channels,
        forall|y: int, x: int, c: int|
            0 <= y < layout.height && 0 <= x < layout.width && 0 <= c < layout.channels ==> {
                &&& #[trigger] hwc_pos(layout.width as int, layout.channels as int, y, x, c) == (y
                    * layout.width + x) * layout.channels + c
                &&& 0 <= hwc_pos(layout.width as int, layout.channels as int, y, x, c)
                    < layout.height * layout.width * layout.channels
                &&& spec_hwc_samples(layout, samples)[hwc_pos(
                    layout.width as int,
                    layout.channels as int,
                    y,
                    x,
                    c,
                )] == samples[c * layout.channel_stride + x * layout.width_stride + y
                    * layout.height_stride]
            },
{
    let w = layout.width as int;
    let ch = layout.channels as int;
    let h = layout.height as int;
    assert forall|y: int, x: int, c: int| 0 <= y < h && 0 <= x < w && 0 <= c < ch implies {
        &&& #[trigger] hwc_pos(w, ch, y, x, c) == (y * w + x) * ch + c
        &&& 0 <= hwc_pos(w, ch, y, x, c) < h * w * ch
        &&& spec_hwc_samples(layout, samples)[hwc_pos(w, ch, y, x, c)] == samples[c
            * layout.channel_stride + x * layout.width_stride + y * layout.height_stride]
    } by {
        let q = y * w + x;
        let k = q * ch + c;
        assert(0 <= q < h * w) by (nonlinear_arith)
            requires
                0 <= y < h,
                0 <= x < w,
                q == y * w + x,
        {
            assert(y * w + x < y * w + w);
            assert(y * w + w == (y + 1) * w);
            assert((y + 1) * w <= h * w);
        }
        assert(0 <= k < h * w * ch) by (nonlinear_arith)
            requires
                0 <= q < h * w,
                0 <= c < ch,
                k == q * ch + c,
        {
            assert(q * ch + c < q * ch + ch);
            assert(q * ch + ch == (q + 1) * ch);
            assert((q + 1) * ch <= (h * w) * ch);
        }
        vstd::arithmetic::div_mod::lemma_fundamental_div_mod_converse(k, ch, q, c);
        vstd::arithmetic::div_mod::lemma_fundamental_div_mod_converse(q, w, y, x);
    }
}

/// The samples of an image in height-width-channel order: row by row,
/// pixel by pixel, channel by channel, each read where the layout puts it.
/// Every sample must lie in the buffer.
pub fn hwc_samples<T: Copy>(layout: SampleLayout, samples: &[T]) -> (r: Vec<T>)
    requires
        layout.samples_within(samples@.len() as int),
    ensures
        r@ == spec_hwc_samples(layout, samples@),
{
    let n = samples.len();
    let ghost w = layout.width as int;
    let ghost ch = layout.channels as int;
    let ghost h = layout.height as int;
    let mut r: Vec<T> = Vec::new();
    let mut y: u32 = 0;
    proof {
        assert(hwc_pos(w, ch, 0, 0, 0) == 0) by (nonlinear_arith);
    }
    while y < layout.height
        invariant
            n == samples@.len(),
            w == layout.width,
            ch == layout.channels,
            h == layout.height,
            y <= h,
            layout.samples_within(n as int),
            r@.len() == hwc_pos(w, ch, y as int, 0, 0),
            forall|yy: int, xx: int, cc: int|
                0 <= yy < y && 0 <= xx < w && 0 <= cc < ch ==> r@[#[trigger] hwc_pos(
                    w,
                    ch,
                    yy,
                    xx,
                    cc,
                )] == samples@[layout.spec_index(cc, xx, yy)],
        decreases h - y,
    {
        let mut x: u32 = 0;
        while x < layout.width
            invariant
                n == samples@.len(),
                w == layout.width,
                ch == layout.channels,
                h == layout.height,
                y < h,
                x <= w,
                layout.samples_within(n as int),
                r@.len() == hwc_pos(w, ch, y as int, x as int, 0),
                forall|yy: int, xx: int, cc: int|
                    0 <= yy && 0 <= xx < w && 0 <= cc < ch && (yy < y || (yy == y && xx < x))
                        ==> r@[#[trigger] hwc_pos(w, ch, yy, xx, cc)] == samples@[layout.spec_index(
                        cc,
                        xx,
                        yy,
                    )],
            decreases w - x,
        {
            let mut c: u8 = 0;
            while c < layout.channels
                invariant
                    n == samples@.len(),
                    w == layout.width,
                    ch == layout.channels,
                    h == layout.height,
                    y < h,
                    x < w,
                    c <= ch,
                    layout.samples_within(n as int),
                    r@.len() == hwc_pos(w, ch, y as int, x as int, c as int),
                    forall|yy: int, xx: int, cc: int|
                        0 <= yy && 0 <= xx < w && 0 <= cc < ch && (yy < y || (yy == y && (xx < x
                            || (xx == x && cc < c)))) ==> r@[#[trigger] hwc_pos(w, ch, yy, xx, cc)]
                            == samples@[layout.spec_index(cc, xx, yy)],
                decreases ch - c,
            {
                let ghost ci = c as int;
                let ghost xi = x as int;
                let ghost yi = y as int;
                proof {
                    assert(layout.spec_index(ci, xi, yi) < n);
                    assert(0 <= ci * layout.channel_stride && 0 <= xi * layout.width_stride && 0
                        <= yi * layout.height_stride) by (nonlinear_arith)
                        requires
                            0 <= ci,
                            0 <= xi,
                            0 <= yi,
                    ;
                }
                let idx = (c as usize) * layout.channel_stride + (x as usize) * layout.width_stride
                    + (y as usize) * layout.height_stride;
                let ghost old_r = r@;
                r.push(samples[idx]);
                proof {
                    assert forall|yy: int, xx: int, cc: int|
                        0 <= yy && 0 <= xx < w && 0 <= cc < ch && (yy < y || (yy == y && (xx < x
                            || (xx == x && cc < c + 1)))) implies r@[#[trigger] hwc_pos(
                        w,
                        ch,
                        yy,
                        xx,
                        cc,
                    )] == samples@[layout.spec_index(cc, xx, yy)] by {
                        if yy == yi && xx == xi && cc == ci {
                            assert(hwc_pos(w, ch, yy, xx, cc) == old_r.len());
                        } else {
                            lemma_hwc_pos_before(w, ch, yy, xx, cc, yi, xi, ci);
                            assert(r@[hwc_pos(w, ch, yy, xx, cc)] == old_r[hwc_pos(
                                w,
                                ch,
                                yy,
                                xx,
                                cc,
                            )]);
                        }
                    }
                }
                c = c + 1;
            }
            proof {
                assert(hwc_pos(w, ch, y as int, x as int, ch) == hwc_pos(
                    w,
                    ch,
                    y as int,
                    x + 1,
                    0,
                )) by (nonlinear_arith);
            }
            x = x + 1;
        }
        proof {
            assert(hwc_pos(w, ch, y as int, w, 0) == hwc_pos(w, ch, y + 1, 0, 0)) by (
            nonlinear_arith);
        }
        y = y + 1;
    }
    proof {
        let target = spec_hwc_samples(layout, samples@);
        assert(r@.len() == target.len()) by {
            assert(hwc_pos(w, ch, h, 0, 0) == h * w * ch) by (nonlinear_arith);
        }
        assert forall|k: int| 0 <= k < r@.len() implies r@[k] == target[k] by {
            assert(ch > 0 && w > 0) by (nonlinear_arith)
                requires
                    0 <= k < h * w * ch,
                    h >= 0,
                    w >= 0,
                    ch >= 0,
            ;
            let c = k % ch;
            let q = k / ch;
            let x = q % w;
            let yy = q / w;
            vstd::arithmetic::div_mod::lemma_fundamental_div_mod(k, ch);
            vstd::arithmetic::div_mod::lemma_fundamental_div_mod(q, w);
            assert(0 <= c < ch && 0 <= x < w && 0 <= q && 0 <= yy) by {
                vstd::arithmetic::div_mod::lemma_mod_bound(k, ch);
                vstd::arithmetic::div_mod::lemma_mod_bound(q, w);
                vstd::arithmetic::div_mod::lemma_div_pos_is_pos(k, ch);
                vstd::arithmetic::div_mod::lemma_div_pos_is_pos(q, w);
            }
            assert(q < h * w) by (nonlinear_arith)
                requires
                    ch > 0,
                    k == ch * q + c,
                    0 <= c,
                    k < h * w * ch,
            ;
            assert(yy < h) by (nonlinear_arith)
                requires
                    w > 0,
                    q == w * yy + x,
                    0 <= x,
                    q < h * w,
            ;
            assert(hwc_pos(w, ch, yy, x, c) == k) by (nonlinear_arith)
                requires
                    k == ch * q + c,
                    q == w * yy + x,
            ;
        }
        assert(r@ =~= target);
    }
    r
}

impl TensorProto {
    /// Build a tensor of the shape from element values, in their
    /// little-endian bytes. The shape must hold as many elements as `data`.
    pub fn from_slice<T, S>(shape: S, data: &[T]) -> (r: Result<Self, Error>)
        where
            S: IntoShape,
            T: TensorProtoElement,
        requires
            sizes_fit(shape.spec_sizes()),
            product_fits(size_factors(shape.spec_sizes())),
            spec_product(size_factors(shape.spec_sizes())) == data@.len(),
        ensures
            r matches Ok(t) && {
                &&& t.dtype == T::spec_data_type().spec_value()
                &&& t.tensor_shape matches Some(s) && dims_of_sizes(
                    s.dim@,
                    shape.spec_sizes().map_values(|x: int| x as i64),
                ) && !s.unknown_rank
                &&& t.version_number == 0
                &&& t.tensor_content@ == spec_le_content(data@)
                &&& only_content(t)
            },
    {
        let dims = shape.to_shape();
        proof {
            assert(dim_factors(dims@) =~= size_factors(shape.spec_sizes()));
        }
        let n = numel(dims.as_slice());
        assert(n == data@.len());
        let dtype = T::data_type().as_i32();
        let tensor_content = le_content(data);
        Ok(TensorProto {
            dtype,
            tensor_shape: Some(TensorShapeProto { dim: dims, unknown_rank: false }),
            version_number: 0,
            tensor_content,
            half_val: vec![],
            float_val: vec![],
            double_val: vec![],
            int_val: vec![],
            string_val: vec![],
            scomplex_val: vec![],
            int64_val: vec![],
            bool_val: vec![],
            dcomplex_val: vec![],
            resource_handle_val: vec![],
            variant_val: vec![],
            uint32_val: vec![],
            uint64_val: vec![],
        })
    }

    /// Build a tensor of an image's samples, of shape height, width and
    /// channels, with the samples in height-width-channel order. Every
    /// sample must lie in the buffer.
    pub fn from_flat_samples<T: TensorProtoElement>(layout: SampleLayout, samples: &[T]) -> (r:
        Result<TensorProto, Error>)
        requires
            layout.samples_within(samples@.len() as int),
            layout.height * layout.width <= usize::MAX,
        ensures
            r matches Ok(t) && {
                &&& t.dtype == T::spec_data_type().spec_value()
                &&& t.tensor_shape matches Some(s) && dims_of_sizes(
                    s.dim@,
                    seq![layout.height as i64, layout.width as i64, layout.channels as i64],
                ) && !s.unknown_rank
                &&& t.version_number == 0
                &&& t.tensor_content@ == spec_le_content(spec_hwc_samples(layout, samples@))
                &&& only_content(t)
            },
    {
        let data = hwc_samples(layout, samples);
        let len = data.len();
        let shape: Vec<u32> = vec![layout.height, layout.width, layout.channels as u32];
        proof {
            let sizes = shape.spec_sizes();
            let h = layout.height as int;
            let w = layout.width as int;
            let ch = layout.channels as int;
            assert(sizes =~= seq![h, w, ch]);
            let factors = size_factors(sizes);
            assert(factors =~= seq![h, w, ch]);
            assert(factors.take(0) =~= Seq::<int>::empty());
            assert(factors.take(1) =~= seq![h]);
            assert(factors.take(1).drop_last() =~= Seq::<int>::empty());
            assert(factors.take(2) =~= seq![h, w]);
            assert(factors.take(2).drop_last() =~= seq![h]);
            assert(factors.take(3) =~= factors);
            assert(factors.drop_last() =~= seq![h, w]);
            assert(spec_product(factors.take(0)) == 1);
            assert(spec_product(factors.take(1)) == h);
            assert(spec_product(factors.take(2)) == h * w);
            assert(spec_product(factors) == h * w * ch);
            assert forall|k: int| 0 <= k <= factors.len() implies #[trigger] spec_product(
                factors.take(k),
            ) <= usize::MAX by {
                if k == 3 {
                    assert(factors.take(k) =~= factors);
                }
            }
            assert(shape.spec_sizes().map_values(|x: int| x as i64) =~= seq![
                layout.height as i64,
                layout.width as i64,
                layout.channels as i64,
            ]);
        }
        TensorProto::from_slice(shape, data.as_slice())
    }

    /// Build a string tensor of the shape from byte strings: the content
    /// holds the encoded length of each string, then the strings. The shape
    /// must hold as many elements as `data`.
    pub fn from_byte_slices<S>(shape: S, data: &[Vec<u8>]) -> (r: Result<TensorProto, Error>)
        where
            S: IntoShape,
        requires
            sizes_fit(shape.spec_sizes()),
            product_fits(size_factors(shape.spec_sizes())),
            spec_product(size_factors(shape.spec_sizes())) == data@.len(),
        ensures
            r matches Ok(t) && {
                &&& t.dtype == DataType::DtString.spec_value()
                &&& t.tensor_shape matches Some(s) && dims_of_sizes(
                    s.dim@,
                    shape.spec_sizes().map_values(|x: int| x as i64),
                ) && !s.unknown_rank
                &&& t.version_number == 0
                &&& t.tensor_content@ == spec_string_content(byte_strings(data@))
                &&& only_content(t)
            },
    {
        let dims = shape.to_shape();
        proof {
            assert(dim_factors(dims@) =~= size_factors(shape.spec_sizes()));
        }
        let n = numel(dims.as_slice());
        assert(n == data@.len());
        let tensor_content = string_content(data);
        Ok(TensorProto {
            dtype: DataType::DtString.as_i32(),
            tensor_shape: Some(TensorShapeProto { dim: dims, unknown_rank: false }),
            version_number: 0,
            tensor_content,
            half_val: vec![],
            float_val: vec![],
            double_val: vec![],
            int_val: vec![],
            string_val: vec![],
            scomplex_val: vec![],
            int64_val: vec![],
            bool_val: vec![],
            dcomplex_val: vec![],
            resource_handle_val: vec![],
            variant_val: vec![],
            uint32_val: vec![],
            uint64_val: vec![],
        })
    }
}

} // verus!

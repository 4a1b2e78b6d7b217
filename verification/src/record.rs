//! The crate's own feature type and its conversions from and to the
//! protocol-buffer feature.

use crate::protos::{BytesList, Feature as RawFeature, FloatList, Int64List, Kind};
use vstd::prelude::*;

verus! {

/// A feature of an example. `FloatList` holds the bit patterns of the
/// `f32` values.
#[derive(Debug, Clone, PartialEq)]
pub enum Feature {
    BytesList(Vec<Vec<u8>>),
    FloatList(Vec<u32>),
    Int64List(Vec<i64>),
    /// A feature that holds no list.
    Empty,
}

/// The feature that a protocol-buffer feature holds.
pub open spec fn spec_feature_from_raw(from: RawFeature) -> Feature {
    match from.kind {
        Some(Kind::BytesList(BytesList { value })) => Feature::BytesList(value),
        Some(Kind::FloatList(FloatList { value })) => Feature::FloatList(value),
        Some(Kind::Int64List(Int64List { value })) => Feature::Int64List(value),
        None => Feature::Empty,
    }
}

/// The protocol-buffer feature that holds a feature.
pub open spec fn spec_raw_from_feature(from: Feature) -> RawFeature {
    let kind = match from {
        Feature::BytesList(value) => Some(Kind::BytesList(BytesList { value })),
        Feature::FloatList(value) => Some(Kind::FloatList(FloatList { value })),
        Feature::Int64List(value) => Some(Kind::Int64List(Int64List { value })),
        Feature::Empty => None,
    };
    RawFeature { kind }
}

impl From<RawFeature> for Feature {
    fn from(from: RawFeature) -> (r: Self) {
        match from.kind {
            Some(Kind::BytesList(BytesList { value })) => Feature::BytesList(value),
            Some(Kind::FloatList(FloatList { value })) => Feature::FloatList(value),
            Some(Kind::Int64List(Int64List { value })) => Feature::Int64List(value),
            None => Feature::Empty,
        }
    }
}

impl vstd::std_specs::convert::FromSpecImpl<RawFeature> for Feature {
    open spec fn obeys_from_spec() -> bool {
        true
    }

    open spec fn from_spec(from: RawFeature) -> Self {
        spec_feature_from_raw(from)
    }
}

impl From<Feature> for RawFeature {
    fn from(from: Feature) -> (r: Self) {
        let kind = match from {
            Feature::BytesList(value) => Some(Kind::BytesList(BytesList { value })),
            Feature::FloatList(value) => Some(Kind::FloatList(FloatList { value })),
            Feature::Int64List(value) => Some(Kind::Int64List(Int64List { value })),
            Feature::Empty => None,
        };
        Self { kind }
    }
}

impl vstd::std_specs::convert::FromSpecImpl<Feature> for RawFeature {
    open spec fn obeys_from_spec() -> bool {
        true
    }

    open spec fn from_spec(from: Feature) -> Self {
        spec_raw_from_feature(from)
    }
}

/// Converting a feature to its protocol-buffer form and back gives the
/// feature.
pub proof fn law_feature_round_trip(feature: Feature)
    ensures
        spec_feature_from_raw(spec_raw_from_feature(feature)) == feature,
{
}

/// Converting a protocol-buffer feature to a feature and back gives the
/// protocol-buffer feature.
pub proof fn law_raw_feature_round_trip(raw: RawFeature)
    ensures
        spec_raw_from_feature(spec_feature_from_raw(raw)) == raw,
{
}

} // verus!

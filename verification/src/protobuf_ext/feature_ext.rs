//! Constructors and accessors of the protocol-buffer [Feature].

use crate::protos::{BytesList, Feature, FloatList, Int64List, Kind};
use vstd::prelude::*;

verus! {

/// Enumeration of feature kinds returned from [Feature::into_kinds()].
/// `F32` holds the bit patterns of the `f32` values.
#[derive(Debug, Clone, PartialEq)]
pub enum FeatureKind {
    Bytes(Vec<Vec<u8>>),
    F32(Vec<u32>),
    I64(Vec<i64>),
}

impl Feature {
    /// The list that the feature holds, if any.
    pub fn into_kinds(self) -> (r: Option<FeatureKind>)
        ensures
            self.kind matches Some(Kind::BytesList(l)) ==> r == Some(FeatureKind::Bytes(l.value)),
            self.kind matches Some(Kind::FloatList(l)) ==> r == Some(FeatureKind::F32(l.value)),
            self.kind matches Some(Kind::Int64List(l)) ==> r == Some(FeatureKind::I64(l.value)),
            self.kind is None ==> r is None,
    {
        match self.kind {
            Some(Kind::BytesList(BytesList { value })) => Some(FeatureKind::Bytes(value)),
            Some(Kind::FloatList(FloatList { value })) => Some(FeatureKind::F32(value)),
            Some(Kind::Int64List(Int64List { value })) => Some(FeatureKind::I64(value)),
            None => None,
        }
    }

    /// A feature holding a list of byte strings.
    pub fn from_bytes_list(list: Vec<Vec<u8>>) -> (r: Self)
        ensures
            r.kind == Some(Kind::BytesList(BytesList { value: list })),
    {
        Self { kind: Some(Kind::BytesList(BytesList { value: list })) }
    }

    /// A feature holding a list of `f32` values, given by their bit patterns.
    pub fn from_f32_list(list: Vec<u32>) -> (r: Self)
        ensures
            r.kind == Some(Kind::FloatList(FloatList { value: list })),
    {
        Self { kind: Some(Kind::FloatList(FloatList { value: list })) }
    }

    /// A feature holding a list of `i64` values.
    pub fn from_i64_list(list: Vec<i64>) -> (r: Self)
        ensures
            r.kind == Some(Kind::Int64List(Int64List { value: list })),
    {
        Self { kind: Some(Kind::Int64List(Int64List { value: list })) }
    }

    /// A feature holding no list.
    pub fn empty() -> (r: Self)
        ensures
            r.kind is None,
    {
        Self { kind: None }
    }

    /// The byte strings, if the feature holds a list of them.
    pub fn as_bytes_list(&self) -> (r: Option<&[Vec<u8>]>)
        ensures
            self.kind matches Some(Kind::BytesList(l)) ==> (r matches Some(s) && s@ == l.value@),
            !(self.kind matches Some(Kind::BytesList(_))) ==> r is None,
    {
        if let Some(Kind::BytesList(BytesList { value })) = &self.kind {
            Some(value.as_slice())
        } else {
            None
        }
    }

    /// The `f32` bit patterns, if the feature holds a list of them.
    pub fn as_f32_list(&self) -> (r: Option<&[u32]>)
        ensures
            self.kind matches Some(Kind::FloatList(l)) ==> (r matches Some(s) && s@ == l.value@),
            !(self.kind matches Some(Kind::FloatList(_))) ==> r is None,
    {
        if let Some(Kind::FloatList(FloatList { value })) = &self.kind {
            Some(value.as_slice())
        } else {
            None
        }
    }

    /// The `i64` values, if the feature holds a list of them.
    pub fn as_i64_list(&self) -> (r: Option<&[i64]>)
        ensures
            self.kind matches Some(Kind::Int64List(l)) ==> (r matches Some(s) && s@ == l.value@),
            !(self.kind matches Some(Kind::Int64List(_))) ==> r is None,
    {
        if let Some(Kind::Int64List(Int64List { value })) = &self.kind {
            Some(value.as_slice())
        } else {
            None
        }
    }

    /// The byte strings, or the feature itself if it holds another kind.
    pub fn into_bytes_list(self) -> (r: Result<Vec<Vec<u8>>, Self>)
        ensures
            self.kind matches Some(Kind::BytesList(l)) ==> r == Ok::<Vec<Vec<u8>>, Self>(l.value),
            !(self.kind matches Some(Kind::BytesList(_))) ==> r == Err::<Vec<Vec<u8>>, Self>(self),
    {
        if let Some(Kind::BytesList(BytesList { value })) = self.kind {
            Ok(value)
        } else {
            Err(self)
        }
    }

    /// The `f32` bit patterns, or the feature itself if it holds another kind.
    pub fn into_f32_list(self) -> (r: Result<Vec<u32>, Self>)
        ensures
            self.kind matches Some(Kind::FloatList(l)) ==> r == Ok::<Vec<u32>, Self>(l.value),
            !(self.kind matches Some(Kind::FloatList(_))) ==> r == Err::<Vec<u32>, Self>(self),
    {
        if let Some(Kind::FloatList(FloatList { value })) = self.kind {
            Ok(value)
        } else {
            Err(self)
        }
    }

    /// The `i64` values, or the feature itself if it holds another kind.
    pub fn into_i64_list(self) -> (r: Result<Vec<i64>, Self>)
        ensures
            self.kind matches Some(Kind::Int64List(l)) ==> r == Ok::<Vec<i64>, Self>(l.value),
            !(self.kind matches Some(Kind::Int64List(_))) ==> r == Err::<Vec<i64>, Self>(self),
    {
        if let Some(Kind::Int64List(Int64List { value })) = self.kind {
            Ok(value)
        } else {
            Err(self)
        }
    }
}

} // verus!

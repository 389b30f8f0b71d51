//! A convenience wrapper for string-keyed maps.

use crate::prim::PrimValue;
use crate::strmap::{assoc_get, assoc_insert, StrMap};
use crate::value::ArcValueType;
use vstd::prelude::*;

verus! {

/// A string-keyed map of generic values.
#[derive(Debug, Clone)]
pub struct VMap<T> {
    /// The underlying map.
    pub inner: StrMap<T>,
}

impl<T> View for VMap<T> {
    type V = Seq<(Seq<char>, T)>;

    open spec fn view(&self) -> Seq<(Seq<char>, T)> {
        self.inner@
    }
}

impl<T> VMap<T> {
    /// The empty map.
    pub fn new() -> (r: VMap<T>)
        ensures
            r@ == Seq::<(Seq<char>, T)>::empty(),
    {
        VMap { inner: StrMap::new() }
    }

    /// Wrap an existing map.
    pub fn from_hashmap(map: StrMap<T>) -> (r: VMap<T>)
        ensures
            r@ == map@,
    {
        VMap { inner: map }
    }

    /// Look a key up.
    pub fn get(&self, key: &str) -> (r: Option<&T>)
        ensures
            match r {
                Some(v) => assoc_get(self@, key@) == Some(*v),
                None => assoc_get(self@, key@) is None,
            },
    {
        self.inner.get(key)
    }

    /// Bind a key to a value.
    pub fn insert(&mut self, key: String, value: T)
        ensures
            final(self)@ == assoc_insert(old(self)@, key@, value),
    {
        self.inner.insert(key, value);
    }

    /// Unwrap into the underlying map.
    pub fn into_inner(self) -> (r: StrMap<T>)
        ensures
            r@ == self@,
    {
        self.inner
    }

    /// The underlying map.
    pub fn as_hashmap(&self) -> (r: &StrMap<T>)
        ensures
            r@ == self@,
    {
        &self.inner
    }
}

impl<T> Default for VMap<T> {
    /// The default map is empty.
    fn default() -> (r: Self)
        ensures
            r@ == Seq::<(Seq<char>, T)>::empty(),
    {
        VMap::new()
    }
}

impl VMap<PrimValue> {
    /// Turn this map into a map-category tagged value of mixed primitive
    /// values.
    pub fn to_arc_value_type(self) -> (r: ArcValueType)
        ensures
            r@.category == crate::category::ValueCategory::Mapping,
            r@.body == crate::erased::ErasedModel::Eager(
                crate::payload::spec_dyn_map_type_name(),
                crate::payload::PayloadModel::MapDyn(
                    self@.map_values(|kv: (Seq<char>, PrimValue)| (kv.0, kv.1@)),
                ),
            ),
    {
        ArcValueType::from_dyn_map(self.inner)
    }
}

} // verus!

//! A typed collection with a name.

use std::collections::hash_map::DefaultHasher;

use vstd::prelude::*;

use crate::identity::{text_writes, write_text};
use crate::multi_values::{MultiValues, MultiValuesModel};
use crate::multi_values_identity::{
    lemma_multi_values_hash_consistent,
    multi_values_same,
    multi_values_wf,
    multi_values_writes,
};
use crate::multi_values_constructor::collection_of_value;
use crate::named_value::{IntoName, NamedValue};

verus! {

/// A [`MultiValues`] collection associated with a name.
#[derive(Debug, Clone)]
pub struct NamedMultiValues {
    name: String,
    value: MultiValues,
}

impl View for NamedMultiValues {
    type V = (Seq<char>, MultiValuesModel);

    closed spec fn view(&self) -> (Seq<char>, MultiValuesModel) {
        (self.name@, self.value@)
    }
}

impl NamedMultiValues {
    /// Creates a named collection.
    pub fn new(name: impl IntoName, value: MultiValues) -> (r: Self)
        ensures
            r@ == (name.name_model(), value@),
    {
        NamedMultiValues { name: name.into_name(), value }
    }

    /// Builds the named collection a named scalar becomes: an unset value
    /// gives an unset collection of its type, any other value a one-element
    /// collection.
    pub fn from_named_value(named: NamedValue) -> (r: Self)
        ensures
            r@ == (named@.0, collection_of_value(named@.1)),
    {
        let (name, value) = named.into_parts();
        NamedMultiValues { name, value: MultiValues::from_value(value) }
    }

    /// Returns the name.
    pub fn name(&self) -> (r: &str)
        ensures
            r@ == self@.0,
    {
        self.name.as_str()
    }

    /// Replaces the name, keeping the collection.
    pub fn set_name(&mut self, name: impl IntoName)
        ensures
            final(self)@ == (name.name_model(), old(self)@.1),
    {
        self.name = name.into_name();
    }

    /// Borrows the collection.
    pub fn values(&self) -> (r: &MultiValues)
        ensures
            r@ == self@.1,
    {
        &self.value
    }

    /// Borrows the collection mutably; the name is unchanged.
    pub fn values_mut(&mut self) -> (r: &mut MultiValues)
        ensures
            r@ == old(self)@.1,
            final(self)@ == (old(self)@.0, final(r)@),
    {
        &mut self.value
    }

    /// Replaces the collection, keeping the name.
    pub fn set_values(&mut self, values: MultiValues)
        ensures
            final(self)@ == (old(self)@.0, values@),
    {
        self.value = values;
    }

    /// Hashes the identity of this named collection: its name, then its
    /// collection.
    pub fn hash_identity(&self, state: &mut DefaultHasher)
        ensures
            final(state)@ == old(state)@ + text_writes(self@.0) + multi_values_writes(self@.1),
    {
        write_text(state, self.name.as_str());
        self.value.hash_identity(state);
    }

    /// Consumes the named collection and returns its name and collection.
    pub fn into_parts(self) -> (r: (String, MultiValues))
        ensures
            r.0@ == self@.0,
            r.1@ == self@.1,
    {
        (self.name, self.value)
    }

    /// Returns the first element, copied, under the same name; an unset
    /// value of the collection's type when there is no element.
    pub fn first_named_value(&self) -> (r: NamedValue)
        ensures
            r@ == (self@.0, self@.1.first()),
    {
        NamedValue::new(self.name.as_str(), self.value.first_value())
    }

    /// Consumes the named collection and returns its first element, moved,
    /// under the same name; an unset value of the collection's type when
    /// there is no element.
    pub fn into_first_named_value(self) -> (r: NamedValue)
        ensures
            r@ == (self@.0, self@.1.first()),
    {
        let (name, values) = self.into_parts();
        NamedValue::new(name, values.into_first_value())
    }
}

/// Identical named collections of well-formed values write identical
/// bytes.
pub proof fn lemma_named_multi_values_hash_consistent(
    a: (Seq<char>, MultiValuesModel),
    b: (Seq<char>, MultiValuesModel),
)
    requires
        multi_values_wf(a.1),
        multi_values_wf(b.1),
        a.0 == b.0,
        multi_values_same(a.1, b.1),
    ensures
        text_writes(a.0) + multi_values_writes(a.1) == text_writes(b.0) + multi_values_writes(b.1),
{
    lemma_multi_values_hash_consistent(a.1, b.1);
}

impl PartialEq for NamedMultiValues {
    fn eq(&self, other: &Self) -> (r: bool) {
        self.name == other.name && self.value.same(&other.value)
    }
}

impl vstd::std_specs::cmp::PartialEqSpecImpl for NamedMultiValues {
    open spec fn obeys_eq_spec() -> bool {
        true
    }

    open spec fn eq_spec(&self, other: &Self) -> bool {
        self@.0 == other@.0 && multi_values_same(self@.1, other@.1)
    }
}

impl Eq for NamedMultiValues {}

} // verus!

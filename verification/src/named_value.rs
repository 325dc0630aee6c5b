//! A scalar value with a name.

use std::collections::hash_map::DefaultHasher;

use vstd::prelude::*;

use crate::identity::{text_writes, write_text};
use crate::value::{value_same, value_wf, Value, ValueModel};
use crate::value_hash::{hash_value, lemma_value_hash_consistent, value_writes};

verus! {

/// An argument that becomes a name: an owned or borrowed string.
pub trait IntoName: Sized {
    /// Characters of the name this argument denotes.
    spec fn name_model(&self) -> Seq<char>;

    /// Converts this argument into an owned name.
    fn into_name(self) -> (r: String)
        ensures
            r@ == self.name_model(),
    ;
}

impl IntoName for String {
    open spec fn name_model(&self) -> Seq<char> {
        self@
    }

    fn into_name(self) -> (r: String) {
        self
    }
}

impl<'a> IntoName for &'a str {
    open spec fn name_model(&self) -> Seq<char> {
        self@
    }

    fn into_name(self) -> (r: String) {
        self.to_owned()
    }
}

impl<'a> IntoName for &'a String {
    open spec fn name_model(&self) -> Seq<char> {
        self@
    }

    fn into_name(self) -> (r: String) {
        self.clone()
    }
}

/// A scalar [`Value`] associated with a name.
#[derive(Debug, Clone)]
pub struct NamedValue {
    name: String,
    value: Value,
}

impl View for NamedValue {
    type V = (Seq<char>, ValueModel);

    closed spec fn view(&self) -> (Seq<char>, ValueModel) {
        (self.name@, self.value@)
    }
}

impl NamedValue {
    /// Creates a named value.
    pub fn new(name: impl IntoName, value: Value) -> (r: Self)
        ensures
            r@ == (name.name_model(), value@),
    {
        NamedValue { name: name.into_name(), value }
    }

    /// Returns the name.
    pub fn name(&self) -> (r: &str)
        ensures
            r@ == self@.0,
    {
        self.name.as_str()
    }

    /// Replaces the name, keeping the value.
    pub fn set_name(&mut self, name: impl IntoName)
        ensures
            final(self)@ == (name.name_model(), old(self)@.1),
    {
        self.name = name.into_name();
    }

    /// Borrows the value.
    pub fn value(&self) -> (r: &Value)
        ensures
            r@ == self@.1,
    {
        &self.value
    }

    /// Borrows the value mutably; the name is unchanged.
    pub fn value_mut(&mut self) -> (r: &mut Value)
        ensures
            r@ == old(self)@.1,
            final(self)@ == (old(self)@.0, final(r)@),
    {
        &mut self.value
    }

    /// Replaces the value, keeping the name.
    pub fn set_value(&mut self, value: Value)
        ensures
            final(self)@ == (old(self)@.0, value@),
    {
        self.value = value;
    }

    /// Hashes the identity of this named value: its name, then its value.
    pub fn hash_identity(&self, state: &mut DefaultHasher)
        ensures
            final(state)@ == old(state)@ + text_writes(self@.0) + value_writes(self@.1),
    {
        write_text(state, self.name.as_str());
        hash_value(&self.value, state);
    }

    /// Consumes the named value and returns its name and value.
    pub fn into_parts(self) -> (r: (String, Value))
        ensures
            r.0@ == self@.0,
            r.1@ == self@.1,
    {
        (self.name, self.value)
    }
}

/// Identical named values with well-formed values write identical bytes.
pub proof fn lemma_named_value_hash_consistent(a: (Seq<char>, ValueModel), b: (Seq<char>, ValueModel))
    requires
        value_wf(a.1),
        value_wf(b.1),
        a.0 == b.0,
        value_same(a.1, b.1),
    ensures
        text_writes(a.0) + value_writes(a.1) == text_writes(b.0) + value_writes(b.1),
{
    lemma_value_hash_consistent(a.1, b.1);
}

impl PartialEq for NamedValue {
    fn eq(&self, other: &Self) -> (r: bool) {
        self.name == other.name && self.value.same(&other.value)
    }
}

impl vstd::std_specs::cmp::PartialEqSpecImpl for NamedValue {
    open spec fn obeys_eq_spec() -> bool {
        true
    }

    open spec fn eq_spec(&self, other: &Self) -> bool {
        self@.0 == other@.0 && value_same(self@.1, other@.1)
    }
}

impl Eq for NamedValue {}

} // verus!

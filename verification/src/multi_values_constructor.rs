//! Inputs from which a typed collection is built: one element, a vector or
//! slice of elements, borrowed texts, or a scalar [`Value`].

use vstd::prelude::*;

use crate::element::{elements_model, ValueElement};
use crate::into_value_default::{collect_strings, copy_elements, strings_model, texts_model};
use crate::multi_values::{MultiValues, MultiValuesModel};
use crate::data_type::DataType;
use crate::value::{Value, ValueModel};

verus! {

/// The collection a scalar value becomes: an unset value becomes an unset
/// collection of its type, any other value a one-element collection.
pub open spec fn collection_of_value(v: ValueModel) -> MultiValuesModel {
    if v is Unset {
        MultiValuesModel::unset_of(v.data_type())
    } else {
        MultiValuesModel { data_type: v.data_type(), items: Some(seq![v]) }
    }
}

/// The first value of the collection a scalar becomes is the scalar
/// itself, unset or not.
pub proof fn lemma_first_of_value(v: ValueModel)
    ensures
        collection_of_value(v).first() == v,
{
}

/// A concrete collection of texts.
pub open spec fn collection_of_texts(texts: Seq<Seq<char>>) -> MultiValuesModel {
    MultiValuesModel {
        data_type: DataType::String,
        items: Some(texts.map_values(|t: Seq<char>| ValueModel::String(t))),
    }
}

/// An input from which [`MultiValues::new`], [`MultiValues::set`] and
/// [`MultiValues::add`] build a collection.
pub trait IntoMultiValues: Sized {
    /// The collection this input denotes.
    spec fn multi_model(&self) -> MultiValuesModel;

    /// Builds the collection this input denotes.
    fn into_multi_values(self) -> (r: MultiValues)
        ensures
            r@ == self.multi_model(),
    ;
}

/// Builds a concrete string collection from owned strings.
fn strings_collection(values: Vec<String>) -> (r: MultiValues)
    ensures
        r@ == collection_of_texts(strings_model(values@)),
{
    let r = MultiValues::from_elements(values);
    assert(elements_model(values@) =~= strings_model(values@).map_values(|t: Seq<char>| ValueModel::String(t)));
    r
}

impl<T: ValueElement> IntoMultiValues for T {
    open spec fn multi_model(&self) -> MultiValuesModel {
        MultiValuesModel { data_type: T::element_data_type(), items: Some(seq![self.element_model()]) }
    }

    fn into_multi_values(self) -> (r: MultiValues) {
        let ghost x = self;
        let v = vec![self];
        assert(elements_model(v@) =~= seq![x.element_model()]);
        MultiValues::from_elements(v)
    }
}

impl<T: ValueElement> IntoMultiValues for Vec<T> {
    open spec fn multi_model(&self) -> MultiValuesModel {
        MultiValuesModel { data_type: T::element_data_type(), items: Some(elements_model(self@)) }
    }

    fn into_multi_values(self) -> (r: MultiValues) {
        MultiValues::from_elements(self)
    }
}

impl<'a, T: ValueElement> IntoMultiValues for &'a [T] {
    open spec fn multi_model(&self) -> MultiValuesModel {
        MultiValuesModel { data_type: T::element_data_type(), items: Some(elements_model(self@)) }
    }

    fn into_multi_values(self) -> (r: MultiValues) {
        MultiValues::from_elements(copy_elements(self))
    }
}

impl<'a, T: ValueElement> IntoMultiValues for &'a Vec<T> {
    open spec fn multi_model(&self) -> MultiValuesModel {
        MultiValuesModel { data_type: T::element_data_type(), items: Some(elements_model(self@)) }
    }

    fn into_multi_values(self) -> (r: MultiValues) {
        MultiValues::from_elements(copy_elements(self.as_slice()))
    }
}

impl<'a> IntoMultiValues for &'a str {
    open spec fn multi_model(&self) -> MultiValuesModel {
        collection_of_texts(seq![self@])
    }

    fn into_multi_values(self) -> (r: MultiValues) {
        let s = self.to_owned();
        let v = vec![s];
        assert(strings_model(v@) =~= seq![self@]);
        strings_collection(v)
    }
}

impl<'a> IntoMultiValues for Vec<&'a str> {
    open spec fn multi_model(&self) -> MultiValuesModel {
        collection_of_texts(texts_model(self@))
    }

    fn into_multi_values(self) -> (r: MultiValues) {
        strings_collection(collect_strings(self.as_slice()))
    }
}

impl<'a, 'b> IntoMultiValues for &'a [&'b str] {
    open spec fn multi_model(&self) -> MultiValuesModel {
        collection_of_texts(texts_model(self@))
    }

    fn into_multi_values(self) -> (r: MultiValues) {
        strings_collection(collect_strings(self))
    }
}

impl<'a, 'b> IntoMultiValues for &'a Vec<&'b str> {
    open spec fn multi_model(&self) -> MultiValuesModel {
        collection_of_texts(texts_model(self@))
    }

    fn into_multi_values(self) -> (r: MultiValues) {
        strings_collection(collect_strings(self.as_slice()))
    }
}

impl<T: ValueElement, const N: usize> IntoMultiValues for [T; N] {
    open spec fn multi_model(&self) -> MultiValuesModel {
        MultiValuesModel { data_type: T::element_data_type(), items: Some(elements_model(self@)) }
    }

    fn into_multi_values(self) -> (r: MultiValues) {
        MultiValues::from_elements(copy_elements(self.as_slice()))
    }
}

impl<'a, T: ValueElement, const N: usize> IntoMultiValues for &'a [T; N] {
    open spec fn multi_model(&self) -> MultiValuesModel {
        MultiValuesModel { data_type: T::element_data_type(), items: Some(elements_model(self@)) }
    }

    fn into_multi_values(self) -> (r: MultiValues) {
        MultiValues::from_elements(copy_elements(self.as_slice()))
    }
}

impl<'a, const N: usize> IntoMultiValues for [&'a str; N] {
    open spec fn multi_model(&self) -> MultiValuesModel {
        collection_of_texts(texts_model(self@))
    }

    fn into_multi_values(self) -> (r: MultiValues) {
        strings_collection(collect_strings(self.as_slice()))
    }
}

impl<'a, 'b, const N: usize> IntoMultiValues for &'a [&'b str; N] {
    open spec fn multi_model(&self) -> MultiValuesModel {
        collection_of_texts(texts_model(self@))
    }

    fn into_multi_values(self) -> (r: MultiValues) {
        strings_collection(collect_strings(self.as_slice()))
    }
}

impl IntoMultiValues for MultiValues {
    open spec fn multi_model(&self) -> MultiValuesModel {
        self@
    }

    fn into_multi_values(self) -> (r: MultiValues) {
        self
    }
}

impl IntoMultiValues for Value {
    open spec fn multi_model(&self) -> MultiValuesModel {
        collection_of_value(self@)
    }

    fn into_multi_values(self) -> (r: MultiValues) {
        MultiValues::from_value(self)
    }
}

} // verus!

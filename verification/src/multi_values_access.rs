//! Typed adder, setter and first-getter interfaces of [`MultiValues`], one
//! element type at a time.

use vstd::prelude::*;

use crate::element::{elements_model, ValueElement};
use crate::multi_values::{append_outcome, read_first_outcome, MultiValues, MultiValuesModel};
use crate::multi_values_constructor::IntoMultiValues;
use crate::value_error::ValueResult;

verus! {

/// A typed collection whose contents have a [`MultiValuesModel`].
pub trait CollectionModel {
    /// Model of the collection.
    spec fn collection(&self) -> MultiValuesModel;
}

impl CollectionModel for MultiValues {
    open spec fn collection(&self) -> MultiValuesModel {
        self@
    }
}

/// Appends one element of type `T`.
pub trait MultiValuesAdder<T: ValueElement>: CollectionModel {
    /// Appends `value`; a collection of another type refuses it and is left
    /// unchanged.
    fn add_value(&mut self, value: T) -> (r: ValueResult<()>)
        ensures
            append_outcome(old(self).collection(), value.multi_model(), final(self).collection(), r),
    ;
}

/// Appends a vector of elements of type `T`.
pub trait MultiValuesMultiAdder<T: ValueElement>: CollectionModel {
    /// Appends all of `values`; a collection of another type refuses them
    /// and is left unchanged.
    fn add_values(&mut self, values: Vec<T>) -> (r: ValueResult<()>)
        ensures
            append_outcome(old(self).collection(), values.multi_model(), final(self).collection(), r),
    ;
}

/// Appends a slice of elements of type `T`.
pub(crate) trait MultiValuesMultiAdderSlice<T: ValueElement>: CollectionModel {
    /// Appends copies of all of `values`.
    fn add_values_slice(&mut self, values: &[T]) -> (r: ValueResult<()>)
        ensures
            append_outcome(old(self).collection(), values.multi_model(), final(self).collection(), r),
    ;
}

/// Replaces the stored elements with a vector of type `T`.
pub trait MultiValuesSetter<T: ValueElement>: CollectionModel {
    /// Replaces the stored values, type included, with `values`.
    fn set_values(&mut self, values: Vec<T>) -> (r: ValueResult<()>)
        ensures
            r is Ok,
            final(self).collection() == values.multi_model(),
    ;
}

/// Replaces the stored elements with copies of a slice of type `T`.
pub trait MultiValuesSetterSlice<T: ValueElement>: CollectionModel {
    /// Replaces the stored values, type included, with copies of `values`.
    fn set_values_slice(&mut self, values: &[T]) -> (r: ValueResult<()>)
        ensures
            r is Ok,
            final(self).collection() == values.multi_model(),
    ;
}

/// Replaces the stored elements with one element of type `T`.
pub trait MultiValuesSingleSetter<T: ValueElement>: CollectionModel {
    /// Replaces the stored values, type included, with `value` alone.
    fn set_single_value(&mut self, value: T) -> (r: ValueResult<()>)
        ensures
            r is Ok,
            final(self).collection() == value.multi_model(),
    ;
}

/// Reads the first element as type `T`.
pub trait MultiValuesFirstGetter<T: ValueElement>: CollectionModel {
    /// Gets the first stored value as `T`, with no conversion between types.
    fn get_first_value(&self) -> (r: ValueResult<T>)
        ensures
            read_first_outcome::<T>(self.collection(), r),
    ;
}

/// An argument that a collection can be set from.
pub trait MultiValuesSetArg<'a>: IntoMultiValues {
    /// Element type being set.
    type Item: 'a + Clone;

    /// Replaces the contents of `target`, type included, with this argument.
    fn apply(self, target: &mut MultiValues) -> (r: ValueResult<()>)
        ensures
            r is Ok,
            final(target)@ == self.multi_model(),
    ;
}

/// An argument that can be appended to a collection.
pub trait MultiValuesAddArg<'a>: IntoMultiValues {
    /// Element type being added.
    type Item: 'a + Clone;

    /// Appends this argument to `target`; a collection of another type
    /// refuses it and is left unchanged.
    fn apply_add(self, target: &mut MultiValues) -> (r: ValueResult<()>)
        ensures
            append_outcome(old(target)@, self.multi_model(), final(target)@, r),
    ;
}

impl<T: ValueElement> MultiValuesAdder<T> for MultiValues {
    fn add_value(&mut self, value: T) -> (r: ValueResult<()>) {
        self.add(value)
    }
}

impl<T: ValueElement> MultiValuesMultiAdder<T> for MultiValues {
    fn add_values(&mut self, values: Vec<T>) -> (r: ValueResult<()>) {
        self.add(values)
    }
}

impl<T: ValueElement> MultiValuesMultiAdderSlice<T> for MultiValues {
    fn add_values_slice(&mut self, values: &[T]) -> (r: ValueResult<()>) {
        self.add(values)
    }
}

impl<T: ValueElement> MultiValuesSetter<T> for MultiValues {
    fn set_values(&mut self, values: Vec<T>) -> (r: ValueResult<()>) {
        self.set(values);
        Ok(())
    }
}

impl<T: ValueElement> MultiValuesSetterSlice<T> for MultiValues {
    fn set_values_slice(&mut self, values: &[T]) -> (r: ValueResult<()>) {
        self.set(values);
        Ok(())
    }
}

impl<T: ValueElement> MultiValuesSingleSetter<T> for MultiValues {
    fn set_single_value(&mut self, value: T) -> (r: ValueResult<()>) {
        self.set(value);
        Ok(())
    }
}

impl<T: ValueElement> MultiValuesFirstGetter<T> for MultiValues {
    fn get_first_value(&self) -> (r: ValueResult<T>) {
        self.get_first::<T>()
    }
}

impl<'a, T: ValueElement + 'a> MultiValuesSetArg<'a> for Vec<T> {
    type Item = T;

    fn apply(self, target: &mut MultiValues) -> (r: ValueResult<()>) {
        target.set(self);
        Ok(())
    }
}

impl<'a, T: ValueElement + 'a> MultiValuesSetArg<'a> for &'a [T] {
    type Item = T;

    fn apply(self, target: &mut MultiValues) -> (r: ValueResult<()>) {
        target.set(self);
        Ok(())
    }
}

impl<'a, T: ValueElement + 'a> MultiValuesAddArg<'a> for Vec<T> {
    type Item = T;

    fn apply_add(self, target: &mut MultiValues) -> (r: ValueResult<()>) {
        target.add(self)
    }
}

impl<'a, T: ValueElement + 'a> MultiValuesAddArg<'a> for &'a [T] {
    type Item = T;

    fn apply_add(self, target: &mut MultiValues) -> (r: ValueResult<()>) {
        target.add(self)
    }
}

} // verus!

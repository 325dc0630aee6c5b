//! Arguments that stand for the default of a strict read with fallback.

use vstd::prelude::*;

use crate::element::{elements_model, ValueElement};

verus! {

/// Characters of each borrowed text.
pub open spec fn texts_model(s: Seq<&str>) -> Seq<Seq<char>> {
    s.map_values(|x: &str| x@)
}

/// Characters of each owned text.
pub open spec fn strings_model(s: Seq<String>) -> Seq<Seq<char>> {
    s.map_values(|x: String| x@)
}

/// Copies each borrowed text into an owned string, in order.
pub fn collect_strings(values: &[&str]) -> (r: Vec<String>)
    ensures
        strings_model(r@) == texts_model(values@),
{
    let mut out: Vec<String> = Vec::new();
    let n = values.len();
    for i in 0..n
        invariant
            n == values@.len(),
            out@.len() == i,
            forall|j: int| 0 <= j < i ==> (#[trigger] out@[j])@ == values@[j]@,
    {
        out.push(values[i].to_owned());
    }
    assert(strings_model(out@) =~= texts_model(values@));
    out
}

/// Copies each element of `values`, in order.
pub fn copy_elements<T: ValueElement>(values: &[T]) -> (r: Vec<T>)
    ensures
        elements_model(r@) == elements_model(values@),
{
    let mut out: Vec<T> = Vec::new();
    let n = values.len();
    for i in 0..n
        invariant
            n == values@.len(),
            out@.len() == i,
            forall|j: int| 0 <= j < i ==> (#[trigger] out@[j]).element_model() == values@[j].element_model(),
    {
        out.push(values[i].duplicate_element());
    }
    assert(elements_model(out@) =~= elements_model(values@));
    out
}

/// An argument that becomes the default of a strict read with fallback.
///
/// The default is materialized only when it is used, that is when the
/// container is unset.
pub trait IntoValueDefault<T>: Sized {
    /// `r` is the default this argument stands for.
    spec fn default_matches(self, r: T) -> bool;

    /// Converts this argument into the default value.
    fn into_value_default(self) -> (r: T)
        ensures
            self.default_matches(r),
    ;
}

impl<T> IntoValueDefault<T> for T {
    open spec fn default_matches(self, r: T) -> bool {
        r == self
    }

    fn into_value_default(self) -> (r: T) {
        self
    }
}

impl<'a> IntoValueDefault<String> for &'a str {
    open spec fn default_matches(self, r: String) -> bool {
        r@ == self@
    }

    fn into_value_default(self) -> (r: String) {
        self.to_owned()
    }
}

impl<'a> IntoValueDefault<String> for &'a String {
    open spec fn default_matches(self, r: String) -> bool {
        r@ == self@
    }

    fn into_value_default(self) -> (r: String) {
        self.clone()
    }
}

impl<'a, T: ValueElement> IntoValueDefault<Vec<T>> for &'a [T] {
    open spec fn default_matches(self, r: Vec<T>) -> bool {
        elements_model(r@) == elements_model(self@)
    }

    fn into_value_default(self) -> (r: Vec<T>) {
        copy_elements(self)
    }
}

impl<'a, T: ValueElement> IntoValueDefault<Vec<T>> for &'a Vec<T> {
    open spec fn default_matches(self, r: Vec<T>) -> bool {
        elements_model(r@) == elements_model(self@)
    }

    fn into_value_default(self) -> (r: Vec<T>) {
        copy_elements(self.as_slice())
    }
}

impl<'a> IntoValueDefault<Vec<String>> for Vec<&'a str> {
    open spec fn default_matches(self, r: Vec<String>) -> bool {
        strings_model(r@) == texts_model(self@)
    }

    fn into_value_default(self) -> (r: Vec<String>) {
        collect_strings(self.as_slice())
    }
}

impl<'a, 'b> IntoValueDefault<Vec<String>> for &'a [&'b str] {
    open spec fn default_matches(self, r: Vec<String>) -> bool {
        strings_model(r@) == texts_model(self@)
    }

    fn into_value_default(self) -> (r: Vec<String>) {
        collect_strings(self)
    }
}

impl<'a, 'b> IntoValueDefault<Vec<String>> for &'a Vec<&'b str> {
    open spec fn default_matches(self, r: Vec<String>) -> bool {
        strings_model(r@) == texts_model(self@)
    }

    fn into_value_default(self) -> (r: Vec<String>) {
        collect_strings(self.as_slice())
    }
}

impl<T: ValueElement, const N: usize> IntoValueDefault<Vec<T>> for [T; N] {
    open spec fn default_matches(self, r: Vec<T>) -> bool {
        elements_model(r@) == elements_model(self@)
    }

    fn into_value_default(self) -> (r: Vec<T>) {
        copy_elements(self.as_slice())
    }
}

impl<'a, T: ValueElement, const N: usize> IntoValueDefault<Vec<T>> for &'a [T; N] {
    open spec fn default_matches(self, r: Vec<T>) -> bool {
        elements_model(r@) == elements_model(self@)
    }

    fn into_value_default(self) -> (r: Vec<T>) {
        copy_elements(self.as_slice())
    }
}

impl<'a, const N: usize> IntoValueDefault<Vec<String>> for [&'a str; N] {
    open spec fn default_matches(self, r: Vec<String>) -> bool {
        strings_model(r@) == texts_model(self@)
    }

    fn into_value_default(self) -> (r: Vec<String>) {
        collect_strings(self.as_slice())
    }
}

impl<'a, 'b, const N: usize> IntoValueDefault<Vec<String>> for &'a [&'b str; N] {
    open spec fn default_matches(self, r: Vec<String>) -> bool {
        strings_model(r@) == texts_model(self@)
    }

    fn into_value_default(self) -> (r: Vec<String>) {
        collect_strings(self.as_slice())
    }
}

/// The default given as elements stands for exactly those elements, in
/// order: an array, a borrowed array, a slice or a borrowed vector becomes
/// a vector of the same length whose every element is the same value.
pub proof fn lemma_element_defaults<T: ValueElement, const N: usize>(
    array: [T; N],
    slice: &[T],
    vector: &Vec<T>,
    r: Vec<T>,
)
    ensures
        <[T; N] as IntoValueDefault<Vec<T>>>::default_matches(array, r) ==> r@.len() == array@.len()
            && forall|i: int| 0 <= i < r@.len() ==> (#[trigger] r@[i]).element_model() == array@[i].element_model(),
        <&[T; N] as IntoValueDefault<Vec<T>>>::default_matches(&array, r) ==> r@.len() == array@.len()
            && forall|i: int| 0 <= i < r@.len() ==> (#[trigger] r@[i]).element_model() == array@[i].element_model(),
        <&[T] as IntoValueDefault<Vec<T>>>::default_matches(slice, r) ==> r@.len() == slice@.len()
            && forall|i: int| 0 <= i < r@.len() ==> (#[trigger] r@[i]).element_model() == slice@[i].element_model(),
        <&Vec<T> as IntoValueDefault<Vec<T>>>::default_matches(vector, r) ==> r@.len() == vector@.len()
            && forall|i: int| 0 <= i < r@.len() ==> (#[trigger] r@[i]).element_model() == vector@[i].element_model(),
{
    lemma_elements_match(array@, r@);
    lemma_elements_match(slice@, r@);
    lemma_elements_match(vector@, r@);
}

/// Equal element models mean equal lengths and equal elements, index by
/// index.
proof fn lemma_elements_match<T: ValueElement>(a: Seq<T>, r: Seq<T>)
    ensures
        elements_model(r) == elements_model(a) ==> r.len() == a.len() && forall|i: int|
            0 <= i < r.len() ==> (#[trigger] r[i]).element_model() == a[i].element_model(),
{
    if elements_model(r) == elements_model(a) {
        assert(elements_model(r).len() == r.len());
        assert(elements_model(a).len() == a.len());
        assert forall|i: int| 0 <= i < r.len() implies (#[trigger] r[i]).element_model() == a[i].element_model() by {
            assert(elements_model(r)[i] == elements_model(a)[i]);
        }
    }
}

/// The default given as texts stands for exactly those texts, in order, as
/// owned strings; a single text stands for itself; any other default
/// stands for itself.
pub proof fn lemma_text_defaults<'a, const N: usize>(
    texts: Vec<&'a str>,
    slice: &[&'a str],
    array: [&'a str; N],
    text: &'a str,
    string: &String,
    r: Vec<String>,
    s: String,
)
    ensures
        <Vec<&str> as IntoValueDefault<Vec<String>>>::default_matches(texts, r) ==> r@.len() == texts@.len()
            && forall|i: int| 0 <= i < r@.len() ==> (#[trigger] r@[i])@ == texts@[i]@,
        <&Vec<&str> as IntoValueDefault<Vec<String>>>::default_matches(&texts, r) ==> r@.len() == texts@.len()
            && forall|i: int| 0 <= i < r@.len() ==> (#[trigger] r@[i])@ == texts@[i]@,
        <&[&str] as IntoValueDefault<Vec<String>>>::default_matches(slice, r) ==> r@.len() == slice@.len()
            && forall|i: int| 0 <= i < r@.len() ==> (#[trigger] r@[i])@ == slice@[i]@,
        <[&str; N] as IntoValueDefault<Vec<String>>>::default_matches(array, r) ==> r@.len() == array@.len()
            && forall|i: int| 0 <= i < r@.len() ==> (#[trigger] r@[i])@ == array@[i]@,
        <&[&str; N] as IntoValueDefault<Vec<String>>>::default_matches(&array, r) ==> r@.len() == array@.len()
            && forall|i: int| 0 <= i < r@.len() ==> (#[trigger] r@[i])@ == array@[i]@,
        <&str as IntoValueDefault<String>>::default_matches(text, s) ==> s@ == text@,
        <&String as IntoValueDefault<String>>::default_matches(string, s) ==> s@ == string@,
{
    lemma_texts_match(texts@, r@);
    lemma_texts_match(slice@, r@);
    lemma_texts_match(array@, r@);
}

/// A default of the read's own type stands for itself.
pub proof fn lemma_own_default<T>(default: T, r: T)
    ensures
        <T as IntoValueDefault<T>>::default_matches(default, r) ==> r == default,
{
}

/// Equal text models mean equal lengths and equal texts, index by index.
proof fn lemma_texts_match(a: Seq<&str>, r: Seq<String>)
    ensures
        strings_model(r) == texts_model(a) ==> r.len() == a.len() && forall|i: int|
            0 <= i < r.len() ==> (#[trigger] r[i])@ == a[i]@,
{
    if strings_model(r) == texts_model(a) {
        assert(strings_model(r).len() == r.len());
        assert(texts_model(a).len() == a.len());
        assert forall|i: int| 0 <= i < r.len() implies (#[trigger] r[i])@ == a[i]@ by {
            assert(strings_model(r)[i] == texts_model(a)[i]);
        }
    }
}

} // verus!

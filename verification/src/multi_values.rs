//! A homogeneous typed collection that distinguishes an unset collection
//! from a concrete empty one.

use std::collections::hash_map::DefaultHasher;

use vstd::prelude::*;

use crate::data_type::DataType;
use crate::element::{elements_model, ValueElement};
use crate::identity::write_u64;
use crate::json_budget::{account_json, charge_json, BudgetResource, StructureBudget};
use crate::into_value_default::IntoValueDefault;
use crate::multi_values_constructor::{collection_of_value, IntoMultiValues};
use crate::multi_values_identity::{items_writes, multi_values_same, multi_values_writes};
use crate::value::{value_same, Value, ValueModel};
use crate::value_error::{ValueError, ValueMissing, ValueResult};
use crate::value_hash::hash_payload;

verus! {

/// Mathematical model of a [`MultiValues`]: the element type, and the
/// elements when the collection is concrete (`None` when it is unset).
pub struct MultiValuesModel {
    /// Element type, declared or stored.
    pub data_type: DataType,
    /// Elements of a concrete collection, or `None` for an unset one.
    pub items: Option<Seq<ValueModel>>,
}

/// Models of a sequence of values.
pub open spec fn values_model(v: Seq<Value>) -> Seq<ValueModel> {
    v.map_values(|x: Value| x@)
}

/// Every item is a concrete value of type `data_type`.
pub open spec fn items_typed(items: Seq<ValueModel>, data_type: DataType) -> bool {
    forall|i: int| 0 <= i < items.len() ==> (#[trigger] items[i]).data_type() == data_type && !(items[i] is Unset)
}

impl MultiValuesModel {
    /// An unset collection declaring `data_type`.
    pub open spec fn unset_of(data_type: DataType) -> Self {
        MultiValuesModel { data_type, items: None }
    }

    /// Number of elements; an unset collection has none.
    pub open spec fn len(self) -> nat {
        match self.items {
            Some(s) => s.len(),
            None => 0,
        }
    }

    /// The collection is homogeneous: each element is a concrete value of
    /// the collection's type.
    pub open spec fn well_typed(self) -> bool {
        match self.items {
            Some(s) => items_typed(s, self.data_type),
            None => true,
        }
    }

    /// The first element as a value, or an unset value of the collection's
    /// type when there is none.
    pub open spec fn first(self) -> ValueModel {
        match self.items {
            Some(s) => if s.len() > 0 {
                s[0]
            } else {
                ValueModel::Unset(self.data_type)
            },
            None => ValueModel::Unset(self.data_type),
        }
    }
}

/// The collection after `other` is appended to `this`, the two having the
/// same type: nothing changes when `other` has no element; an unset `this`
/// becomes `other`; otherwise the elements of `other` follow those of
/// `this`.
pub open spec fn appended(this: MultiValuesModel, other: MultiValuesModel) -> MultiValuesModel {
    if other.len() == 0 {
        this
    } else {
        match this.items {
            None => other,
            Some(s) => MultiValuesModel { data_type: this.data_type, items: Some(s + other.items.unwrap()) },
        }
    }
}

/// Outcome of appending `other` to `before`, giving `after` and `r`: a type
/// mismatch is refused and changes nothing; otherwise the append succeeds.
pub open spec fn append_outcome(
    before: MultiValuesModel,
    other: MultiValuesModel,
    after: MultiValuesModel,
    r: ValueResult<()>,
) -> bool {
    if before.data_type != other.data_type {
        &&& r == Err::<(), ValueError>(
            ValueError::TypeMismatch { expected: before.data_type, actual: other.data_type },
        )
        &&& after == before
    } else {
        &&& r == Ok::<(), ValueError>(())
        &&& after == appended(before, other)
    }
}

/// The error of a strict read of all elements as type `expected`, if any.
pub open spec fn read_all_error(m: MultiValuesModel, expected: DataType) -> Option<ValueError> {
    if m.data_type != expected {
        Some(ValueError::TypeMismatch { expected, actual: m.data_type })
    } else if m.items is None {
        Some(ValueError::Missing(ValueMissing::UnsetCollection { data_type: expected }))
    } else {
        None
    }
}

/// The error of a strict read of the first element as type `expected`, if
/// any.
pub open spec fn read_first_error(m: MultiValuesModel, expected: DataType) -> Option<ValueError> {
    if m.data_type != expected {
        Some(ValueError::TypeMismatch { expected, actual: m.data_type })
    } else {
        match m.items {
            None => Some(ValueError::Missing(ValueMissing::UnsetCollection { data_type: expected })),
            Some(s) => if s.len() == 0 {
                Some(ValueError::Missing(ValueMissing::EmptyCollection { data_type: expected }))
            } else {
                None
            },
        }
    }
}

/// `r` is the strict read of all elements of `m` as `T`.
pub open spec fn read_all_outcome<T: ValueElement>(m: MultiValuesModel, r: ValueResult<Vec<T>>) -> bool {
    match read_all_error(m, T::element_data_type()) {
        Some(e) => r == Err::<Vec<T>, ValueError>(e),
        None => r matches Ok(v) && m.items == Some(elements_model(v@)),
    }
}

/// `r` is the strict read of the first element of `m` as `T`.
pub open spec fn read_first_outcome<T: ValueElement>(m: MultiValuesModel, r: ValueResult<T>) -> bool {
    match read_first_error(m, T::element_data_type()) {
        Some(e) => r == Err::<T, ValueError>(e),
        None => r matches Ok(x) && x.element_model() == m.items.unwrap()[0],
    }
}

/// The strict read of `m` as type `expected` fails only because the
/// collection is unset; the `_or` readers then fall back to a default.
pub open spec fn unset_of_type(m: MultiValuesModel, expected: DataType) -> bool {
    m.data_type == expected && m.items is None
}

/// The outcome of appending is determined by the two collections: two
/// appends of collections with the same models give the same result and the
/// same collection. So merging `other` is adding a copy of `other`, type
/// mismatch and the no-op on an input without elements included.
pub proof fn lemma_append_outcome_determined(
    before: MultiValuesModel,
    other: MultiValuesModel,
    after1: MultiValuesModel,
    r1: ValueResult<()>,
    after2: MultiValuesModel,
    r2: ValueResult<()>,
)
    requires
        append_outcome(before, other, after1, r1),
        append_outcome(before, other, after2, r2),
    ensures
        after1 == after2,
        r1 == r2,
{
}

/// Charging the JSON documents among `s` in order, each at depth one: the
/// first refusal, if any, and the budget with every charge made before it.
pub open spec fn account_documents(s: Seq<ValueModel>, b: StructureBudget) -> (Option<BudgetResource>, StructureBudget)
    decreases s.len(),
{
    if s.len() == 0 {
        (None, b)
    } else {
        let first = match s[0] {
            ValueModel::Json(j) => account_json(j, 1, b),
            _ => (None, b),
        };
        if first.0 is Some {
            first
        } else {
            account_documents(s.drop_first(), first.1)
        }
    }
}

/// Charging a collection against a JSON budget: the documents of a concrete
/// JSON collection are charged; any other collection charges nothing.
pub open spec fn budget_outcome(m: MultiValuesModel, b: StructureBudget) -> (Option<BudgetResource>, StructureBudget) {
    match m.items {
        Some(s) => if m.data_type == DataType::Json {
            account_documents(s, b)
        } else {
            (None, b)
        },
        None => (None, b),
    }
}

/// A strict read of all elements after a set gives back the elements set.
pub proof fn lemma_get_after_set<T: ValueElement>(values: Seq<T>)
    ensures
        ({
            let m = MultiValuesModel { data_type: T::element_data_type(), items: Some(elements_model(values)) };
            read_all_error(m, T::element_data_type()) is None && m.items == Some(elements_model(values))
        }),
{
}

/// After a successful add to a concrete collection, a strict read gives the
/// earlier elements followed by the added ones, in order.
pub proof fn lemma_get_after_add<T: ValueElement>(before: MultiValuesModel, values: Seq<T>)
    requires
        before.data_type == T::element_data_type(),
        before.items is Some,
    ensures
        ({
            let added = MultiValuesModel { data_type: T::element_data_type(), items: Some(elements_model(values)) };
            let after = appended(before, added);
            &&& read_all_error(after, T::element_data_type()) is None
            &&& after.items == Some(before.items.unwrap() + elements_model(values))
        }),
{
    if values.len() == 0 {
        assert(before.items.unwrap() + elements_model(values) =~= before.items.unwrap());
    }
}

/// Clearing a concrete collection leaves a concrete empty one: a strict read
/// gives no element rather than a missing-value error, and a read with a
/// default does not use the default.
pub proof fn lemma_read_after_clear(data_type: DataType)
    ensures
        ({
            let cleared = MultiValuesModel { data_type, items: Some(Seq::<ValueModel>::empty()) };
            read_all_error(cleared, data_type) is None && !unset_of_type(cleared, data_type)
        }),
{
}

/// Unsetting a collection makes a read of its type fall back to the
/// default, and makes a strict read report the unset collection.
pub proof fn lemma_read_after_unset(data_type: DataType)
    ensures
        unset_of_type(MultiValuesModel::unset_of(data_type), data_type),
        read_all_error(MultiValuesModel::unset_of(data_type), data_type) == Some(
            ValueError::Missing(ValueMissing::UnsetCollection { data_type }),
        ),
{
}

/// Multiple typed runtime values of one element type.
///
/// An unset collection keeps its declared element type and has no concrete
/// vector; a concrete collection may be empty.
#[derive(Debug)]
pub struct MultiValues {
    data_type: DataType,
    items: Option<Vec<Value>>,
}

impl View for MultiValues {
    type V = MultiValuesModel;

    closed spec fn view(&self) -> MultiValuesModel {
        MultiValuesModel {
            data_type: self.data_type,
            items: match self.items {
                Some(v) => Some(values_model(v@)),
                None => None,
            },
        }
    }
}

/// A borrowed, read-only view of a [`MultiValues`]: its element type and,
/// for a concrete collection, its elements in order.
#[derive(Debug, Clone, Copy)]
pub struct MultiValuesRef<'a> {
    data_type: DataType,
    items: Option<&'a [Value]>,
}

impl<'a> View for MultiValuesRef<'a> {
    type V = MultiValuesModel;

    closed spec fn view(&self) -> MultiValuesModel {
        MultiValuesModel {
            data_type: self.data_type,
            items: match self.items {
                Some(v) => Some(values_model(v@)),
                None => None,
            },
        }
    }
}

impl<'a> MultiValuesRef<'a> {
    /// Element type, declared or stored.
    pub fn data_type(&self) -> (r: DataType)
        ensures
            r == self@.data_type,
    {
        self.data_type
    }

    /// Number of elements; an unset collection has none.
    pub fn len(&self) -> (r: usize)
        ensures
            r == self@.len(),
    {
        match self.items {
            Some(v) => v.len(),
            None => 0,
        }
    }

    /// Tests whether the viewed collection is unset.
    pub fn is_unset(&self) -> (r: bool)
        ensures
            r == (self@.items is None),
    {
        self.items.is_none()
    }

    /// Borrows the element at `index`, if there is one.
    pub fn get(&self, index: usize) -> (r: Option<&'a Value>)
        ensures
            match r {
                Some(v) => self@.items is Some && index < self@.len() && v@ == self@.items.unwrap()[index as int],
                None => index >= self@.len(),
            },
    {
        match self.items {
            Some(v) => if index < v.len() {
                Some(&v[index])
            } else {
                None
            },
            None => None,
        }
    }
}

/// Copies each value of `v`.
fn duplicate_values(v: &Vec<Value>) -> (r: Vec<Value>)
    ensures
        values_model(r@) == values_model(v@),
{
    let mut out: Vec<Value> = Vec::new();
    let n = v.len();
    for i in 0..n
        invariant
            n == v@.len(),
            out@.len() == i,
            forall|j: int| 0 <= j < i ==> (#[trigger] out@[j])@ == v@[j]@,
    {
        out.push(v[i].duplicate());
    }
    assert(values_model(out@) =~= values_model(v@));
    out
}

impl MultiValues {
    #[verifier::type_invariant]
    spec fn homogeneous(self) -> bool {
        self@.well_typed()
    }

    /// Creates an unset collection declaring `data_type`.
    pub fn new_unset(data_type: DataType) -> (r: Self)
        ensures
            r@ == MultiValuesModel::unset_of(data_type),
    {
        MultiValues { data_type, items: None }
    }

    /// Creates a concrete collection of `values`, in their order.
    pub fn from_elements<T: ValueElement>(values: Vec<T>) -> (r: Self)
        ensures
            r@ == (MultiValuesModel { data_type: T::element_data_type(), items: Some(elements_model(values@)) }),
    {
        let data_type = T::element_type();
        let ghost source = values@;
        let mut out: Vec<Value> = Vec::new();
        for x in it: values
            invariant
                it.seq() == source,
                out@.len() == it.index(),
                forall|j: int| 0 <= j < out@.len() ==> (#[trigger] out@[j])@ == source[j].element_model(),
        {
            out.push(x.into_value());
        }
        proof {
            assert forall|j: int| 0 <= j < out@.len() implies (#[trigger] values_model(out@)[j]).data_type() == data_type
                && !(values_model(out@)[j] is Unset) by {
                T::lemma_element_typed(source[j]);
            }
            assert(values_model(out@) =~= elements_model(source));
        }
        MultiValues { data_type, items: Some(out) }
    }

    /// Builds the collection a scalar value becomes: an unset value gives an
    /// unset collection of its type, any other value a one-element
    /// collection.
    pub fn from_value(value: Value) -> (r: Self)
        ensures
            r@ == collection_of_value(value@),
    {
        if value.is_unset() {
            MultiValues::new_unset(value.data_type())
        } else {
            let data_type = value.data_type();
            let ghost m = value@;
            let items = vec![value];
            assert(values_model(items@) =~= seq![m]);
            MultiValues { data_type, items: Some(items) }
        }
    }

    /// Builds a collection from any supported input: one element, a vector
    /// or slice of elements, borrowed texts, or a scalar value.
    pub fn new<S: IntoMultiValues>(values: S) -> (r: Self)
        ensures
            r@ == values.multi_model(),
    {
        values.into_multi_values()
    }

    /// Replaces the whole collection, type included, by the collection built
    /// from `values`.
    pub fn set<S: IntoMultiValues>(&mut self, values: S)
        ensures
            final(self)@ == values.multi_model(),
    {
        *self = values.into_multi_values();
    }

    /// Appends the collection built from `values`, which must have the same
    /// element type. An input without elements changes nothing; an unset
    /// collection takes the elements of a non-empty input.
    pub fn add<S: IntoMultiValues>(&mut self, values: S) -> (r: ValueResult<()>)
        ensures
            append_outcome(old(self)@, values.multi_model(), final(self)@, r),
    {
        let other = values.into_multi_values();
        self.append_collection(other)
    }

    /// Returns an equal copy.
    pub fn duplicate(&self) -> (r: Self)
        ensures
            r@ == self@,
    {
        proof {
            use_type_invariant(self);
        }
        match &self.items {
            None => MultiValues { data_type: self.data_type, items: None },
            Some(v) => MultiValues { data_type: self.data_type, items: Some(duplicate_values(v)) },
        }
    }

    /// Tests collection identity: the same element type, both unset or both
    /// concrete, and pairwise identical elements in the same order (floats by
    /// canonical bits, big numbers by value, string maps as maps, JSON
    /// structurally).
    pub fn same(&self, other: &Self) -> (r: bool)
        ensures
            r == multi_values_same(self@, other@),
    {
        if self.data_type != other.data_type {
            return false;
        }
        match (&self.items, &other.items) {
            (None, None) => true,
            (Some(x), Some(y)) => {
                if x.len() != y.len() {
                    return false;
                }
                let n = x.len();
                for i in 0..n
                    invariant
                        n == x@.len(),
                        n == y@.len(),
                        self@.items == Some(values_model(x@)),
                        other@.items == Some(values_model(y@)),
                        forall|j: int| 0 <= j < i ==> #[trigger] value_same(x@[j]@, y@[j]@),
                {
                    if !x[i].same(&y[i]) {
                        assert(values_model(x@)[i as int] == x@[i as int]@);
                        assert(values_model(y@)[i as int] == y@[i as int]@);
                        return false;
                    }
                }
                assert forall|j: int| 0 <= j < n implies #[trigger] value_same(
                    values_model(x@)[j],
                    values_model(y@)[j],
                ) by {
                    assert(value_same(x@[j]@, y@[j]@));
                }
                true
            },
            _ => false,
        }
    }

    /// Hashes the identity of this collection: identical collections write
    /// identical bytes.
    pub fn hash_identity(&self, state: &mut DefaultHasher)
        ensures
            final(state)@ == old(state)@ + multi_values_writes(self@),
    {
        let ordinal = self.data_type.ordinal() as u64;
        match &self.items {
            None => {
                write_u64(state, 0);
                write_u64(state, ordinal);
                assert(final(state)@ =~= old(state)@ + multi_values_writes(self@));
            },
            Some(v) => {
                let ghost s = values_model(v@);
                let ghost start = old(state)@;
                write_u64(state, ordinal + 1);
                write_u64(state, v.len() as u64);
                let ghost head = state@;
                let n = v.len();
                for i in 0..n
                    invariant
                        n == v@.len(),
                        s == values_model(v@),
                        state@ == head + items_writes(s.take(i as int)),
                {
                    hash_payload(&v[i], state);
                    proof {
                        assert(s.take(i + 1).drop_last() =~= s.take(i as int));
                        assert(s.take(i + 1).last() == v@[i as int]@);
                        assert(state@ =~= head + items_writes(s.take(i + 1)));
                    }
                }
                assert(s.take(n as int) =~= s);
                assert(final(state)@ =~= start + multi_values_writes(self@));
            },
        }
    }

    /// Hashes the identity of this collection after charging its JSON
    /// documents to `budget` in one transaction. On success the bytes written
    /// are those of [`MultiValues::hash_identity`] and the charges are kept;
    /// on a refusal neither the hasher nor the budget changes.
    pub fn hash_with_json_budget(&self, state: &mut DefaultHasher, budget: &mut StructureBudget) -> (r: Result<
        (),
        BudgetResource,
    >)
        ensures
            (r is Ok) <==> (budget_outcome(self@, *old(budget)).0 is None),
            r is Ok ==> final(state)@ == old(state)@ + multi_values_writes(self@) && *final(budget)
                == budget_outcome(self@, *old(budget)).1,
            r matches Err(e) ==> budget_outcome(self@, *old(budget)).0 == Some(e) && final(state)@ == old(
                state,
            )@ && *final(budget) == *old(budget),
    {
        proof {
            use_type_invariant(self);
        }
        let mut staged = *budget;
        if self.data_type == DataType::Json {
            if let Some(v) = &self.items {
                let ghost s = values_model(v@);
                let ghost b0 = *budget;
                assert(s.skip(0) =~= s);
                assert(budget_outcome(self@, b0) == account_documents(s, b0));
                let n = v.len();
                for i in 0..n
                    invariant
                        n == v@.len(),
                        budget_outcome(self@, b0) == account_documents(s, b0),
                        b0 == *old(budget),
                        *budget == b0,
                        state@ == old(state)@,
                        s == values_model(v@),
                        items_typed(s, DataType::Json),
                        account_documents(s, b0) == account_documents(s.skip(i as int), staged),
                {
                    proof {
                        assert(s.skip(i as int)[0] == v@[i as int]@);
                        assert(s.skip(i as int).drop_first() =~= s.skip(i + 1));
                        assert(s[i as int].data_type() == DataType::Json && !(s[i as int] is Unset));
                    }
                    match &v[i] {
                        Value::Json(j) => {
                            let ghost before = staged;
                            let ghost rest = s.skip(i as int);
                            assert(rest[0] == ValueModel::Json(j@));
                            let charged = charge_json(j, 1, &mut staged);
                            assert(account_documents(rest, before) == if account_json(j@, 1, before).0 is Some {
                                account_json(j@, 1, before)
                            } else {
                                account_documents(rest.drop_first(), account_json(j@, 1, before).1)
                            });
                            if let Err(e) = charged {
                                return Err(e);
                            }
                        },
                        _ => {
                            assert(false);
                        },
                    }
                }
                assert(s.skip(n as int) =~= Seq::<ValueModel>::empty());
            }
        }
        self.hash_identity(state);
        *budget = staged;
        Ok(())
    }

    /// Borrows a read-only view of this collection.
    pub fn view_ref(&self) -> (r: MultiValuesRef<'_>)
        ensures
            r@ == self@,
    {
        proof {
            use_type_invariant(self);
        }
        match &self.items {
            Some(v) => MultiValuesRef { data_type: self.data_type, items: Some(v.as_slice()) },
            None => MultiValuesRef { data_type: self.data_type, items: None },
        }
    }

    /// Borrows the elements of a concrete collection, in order; `None` for
    /// an unset collection.
    pub fn elements(&self) -> (r: Option<&Vec<Value>>)
        ensures
            match r {
                Some(v) => self@.items == Some(values_model(v@)),
                None => self@.items is None,
            },
    {
        match &self.items {
            Some(v) => Some(v),
            None => None,
        }
    }

    /// Returns the element type, declared or stored.
    pub fn data_type(&self) -> (r: DataType)
        ensures
            r == self@.data_type,
            self@.well_typed(),
    {
        proof {
            use_type_invariant(self);
        }
        self.data_type
    }

    /// Returns the number of elements; an unset collection has none.
    pub fn len(&self) -> (r: usize)
        ensures
            r == self@.len(),
    {
        match &self.items {
            Some(v) => v.len(),
            None => 0,
        }
    }

    /// Tests whether the collection has no element, whether it is unset or
    /// concrete and empty.
    pub fn is_empty(&self) -> (r: bool)
        ensures
            r == (self@.len() == 0),
    {
        self.len() == 0
    }

    /// Tests whether the collection has no concrete vector. A concrete empty
    /// collection is not unset.
    pub fn is_unset(&self) -> (r: bool)
        ensures
            r == (self@.items is None),
    {
        self.items.is_none()
    }

    /// Tests whether a concrete collection has a numeric element type. A
    /// concrete empty numeric collection is numeric; an unset one is not,
    /// whatever its declared type.
    pub fn is_numeric(&self) -> (r: bool)
        ensures
            r == (self@.items is Some && self@.data_type.spec_is_numeric()),
    {
        !self.is_unset() && self.data_type.is_numeric()
    }

    /// Drops the concrete vector, keeping the element type as the declared
    /// type.
    pub fn unset(&mut self)
        ensures
            final(self)@ == MultiValuesModel::unset_of(old(self)@.data_type),
    {
        let data_type = self.data_type;
        *self = MultiValues::new_unset(data_type);
    }

    /// Removes every element of a concrete collection, which stays concrete
    /// and keeps its type. An unset collection stays unset.
    pub fn clear(&mut self)
        ensures
            final(self)@.data_type == old(self)@.data_type,
            final(self)@.items == match old(self)@.items {
                Some(_) => Some(Seq::<ValueModel>::empty()),
                None => None::<Seq<ValueModel>>,
            },
    {
        let data_type = self.data_type;
        if self.items.is_some() {
            let empty: Vec<Value> = Vec::new();
            assert(values_model(empty@) =~= Seq::<ValueModel>::empty());
            *self = MultiValues { data_type, items: Some(empty) };
        }
    }

    /// Changes the element type: a collection of another type becomes an
    /// unset collection declaring `data_type`; one of that type is kept.
    pub fn set_type(&mut self, data_type: DataType)
        ensures
            old(self)@.data_type == data_type ==> final(self)@ == old(self)@,
            old(self)@.data_type != data_type ==> final(self)@ == MultiValuesModel::unset_of(data_type),
    {
        if self.data_type != data_type {
            *self = MultiValues::new_unset(data_type);
        }
    }

    /// Returns a copy of the first element, or an unset value of the
    /// collection's type when there is none.
    pub fn first_value(&self) -> (r: Value)
        ensures
            r@ == self@.first(),
    {
        match &self.items {
            Some(v) => if v.len() > 0 {
                v[0].duplicate()
            } else {
                Value::new_unset(self.data_type)
            },
            None => Value::new_unset(self.data_type),
        }
    }

    /// Consumes the collection and returns its first element, moved out, or
    /// an unset value of the collection's type when there is none.
    pub fn into_first_value(self) -> (r: Value)
        ensures
            r@ == self@.first(),
    {
        let ghost model = self@;
        let MultiValues { data_type, items } = self;
        match items {
            Some(mut v) => if v.len() > 0 {
                let r = v.swap_remove(0);
                r
            } else {
                Value::new_unset(data_type)
            },
            None => Value::new_unset(data_type),
        }
    }

    /// Appends the elements of `other`, taken by value.
    fn append_collection(&mut self, other: MultiValues) -> (r: ValueResult<()>)
        ensures
            append_outcome(old(self)@, other@, final(self)@, r),
    {
        proof {
            use_type_invariant(&*self);
            use_type_invariant(&other);
        }
        if self.data_type != other.data_type {
            return Err(ValueError::TypeMismatch { expected: self.data_type, actual: other.data_type });
        }
        let ghost before = self@;
        let ghost other_model = other@;
        let MultiValues { data_type: _, items: other_items } = other;
        match other_items {
            None => Ok(()),
            Some(mut o) => {
                if o.len() == 0 {
                    return Ok(());
                }
                let mut mine: Option<Vec<Value>> = None;
                std::mem::swap(&mut mine, &mut self.items);
                match mine {
                    None => {
                        self.items = Some(o);
                    },
                    Some(mut v) => {
                        let ghost left = v@;
                        let ghost right = o@;
                        v.append(&mut o);
                        assert(values_model(v@) =~= values_model(left) + values_model(right));
                        self.items = Some(v);
                    },
                }
                Ok(())
            },
        }
    }

    /// Appends copies of all elements of `other`, which must have the same
    /// element type. A collection without elements changes nothing; an unset
    /// collection takes the elements of a non-empty `other`.
    pub fn merge(&mut self, other: &MultiValues) -> (r: ValueResult<()>)
        ensures
            append_outcome(old(self)@, other@, final(self)@, r),
    {
        let copy = other.duplicate();
        self.append_collection(copy)
    }

    /// Reads all elements as `T`, with no conversion between types.
    pub fn get<T: ValueElement>(&self) -> (r: ValueResult<Vec<T>>)
        ensures
            read_all_outcome(self@, r),
    {
        proof {
            use_type_invariant(self);
        }
        let expected = T::element_type();
        if self.data_type != expected {
            return Err(ValueError::TypeMismatch { expected, actual: self.data_type });
        }
        match &self.items {
            None => Err(ValueError::Missing(ValueMissing::UnsetCollection { data_type: expected })),
            Some(v) => {
                let mut out: Vec<T> = Vec::new();
                let n = v.len();
                for i in 0..n
                    invariant
                        n == v@.len(),
                        expected == T::element_data_type(),
                        items_typed(values_model(v@), expected),
                        out@.len() == i,
                        forall|j: int| 0 <= j < i ==> (#[trigger] out@[j]).element_model() == v@[j]@,
                {
                    assert(values_model(v@)[i as int] == v@[i as int]@);
                    match T::from_value(&v[i]) {
                        Some(x) => out.push(x),
                        None => {
                            assert(false);
                        },
                    }
                }
                assert(elements_model(out@) =~= values_model(v@));
                Ok(out)
            },
        }
    }

    /// Reads the first element as `T`, with no conversion between types.
    pub fn get_first<T: ValueElement>(&self) -> (r: ValueResult<T>)
        ensures
            read_first_outcome(self@, r),
    {
        proof {
            use_type_invariant(self);
        }
        let expected = T::element_type();
        if self.data_type != expected {
            return Err(ValueError::TypeMismatch { expected, actual: self.data_type });
        }
        match &self.items {
            None => Err(ValueError::Missing(ValueMissing::UnsetCollection { data_type: expected })),
            Some(v) => {
                if v.len() == 0 {
                    return Err(ValueError::Missing(ValueMissing::EmptyCollection { data_type: expected }));
                }
                assert(values_model(v@)[0] == v@[0]@);
                match T::from_value(&v[0]) {
                    Some(x) => Ok(x),
                    None => {
                        assert(false);
                        Err(ValueError::Missing(ValueMissing::EmptyCollection { data_type: expected }))
                    },
                }
            },
        }
    }

    /// Reads all elements as `T`, or returns `default` when the collection
    /// is unset with type `T`. A concrete empty collection gives an empty
    /// vector; a type mismatch is returned as is.
    pub fn get_or<T: ValueElement>(&self, default: impl IntoValueDefault<Vec<T>>) -> (r: ValueResult<Vec<T>>)
        ensures
            unset_of_type(self@, T::element_data_type()) ==> (r matches Ok(v) && default.default_matches(v)),
            !unset_of_type(self@, T::element_data_type()) ==> read_all_outcome(self@, r),
    {
        let result = self.get::<T>();
        if let Err(ValueError::Missing(missing)) = &result {
            if missing.is_unset() {
                return Ok(default.into_value_default());
            }
        }
        result
    }

    /// Reads all elements as `T`, or calls `default` only when the
    /// collection is unset with type `T`.
    pub fn get_or_else<T: ValueElement, F: FnOnce() -> Vec<T>>(&self, default: F) -> (r: ValueResult<Vec<T>>)
        requires
            default.requires(()),
        ensures
            unset_of_type(self@, T::element_data_type()) ==> (r matches Ok(v) && default.ensures((), v)),
            !unset_of_type(self@, T::element_data_type()) ==> read_all_outcome(self@, r),
    {
        let result = self.get::<T>();
        if let Err(ValueError::Missing(missing)) = &result {
            if missing.is_unset() {
                return Ok(default());
            }
        }
        result
    }

    /// Reads the first element as `T`, or returns `default` when the
    /// collection is unset with type `T`. A concrete empty collection gives
    /// the empty-collection error; a type mismatch is returned as is.
    pub fn get_first_or<T: ValueElement>(&self, default: impl IntoValueDefault<T>) -> (r: ValueResult<T>)
        ensures
            unset_of_type(self@, T::element_data_type()) ==> (r matches Ok(v) && default.default_matches(v)),
            !unset_of_type(self@, T::element_data_type()) ==> read_first_outcome(self@, r),
    {
        let result = self.get_first::<T>();
        if let Err(ValueError::Missing(missing)) = &result {
            if missing.is_unset() {
                return Ok(default.into_value_default());
            }
        }
        result
    }

    /// Reads the first element as `T`, or calls `default` only when the
    /// collection is unset with type `T`.
    pub fn get_first_or_else<T: ValueElement, F: FnOnce() -> T>(&self, default: F) -> (r: ValueResult<T>)
        requires
            default.requires(()),
        ensures
            unset_of_type(self@, T::element_data_type()) ==> (r matches Ok(v) && default.ensures((), v)),
            !unset_of_type(self@, T::element_data_type()) ==> read_first_outcome(self@, r),
    {
        let result = self.get_first::<T>();
        if let Err(ValueError::Missing(missing)) = &result {
            if missing.is_unset() {
                return Ok(default());
            }
        }
        result
    }
}

impl Clone for MultiValues {
    /// Copy with the same model; see [`MultiValues::duplicate`].
    fn clone(&self) -> (r: Self)
        ensures
            r@ == self@,
    {
        self.duplicate()
    }
}

impl PartialEq for MultiValues {
    fn eq(&self, other: &Self) -> (r: bool) {
        self.same(other)
    }
}

impl vstd::std_specs::cmp::PartialEqSpecImpl for MultiValues {
    open spec fn obeys_eq_spec() -> bool {
        true
    }

    open spec fn eq_spec(&self, other: &Self) -> bool {
        multi_values_same(self@, other@)
    }
}

impl Eq for MultiValues {}

} // verus!

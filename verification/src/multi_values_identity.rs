//! Identity of typed collections: element-wise identity and an identity
//! hash that agrees with it.

use vstd::prelude::*;

use crate::data_type::spec_ordinal;
use crate::identity::u64_bytes;
use crate::multi_values::MultiValuesModel;
use crate::value::{
    lemma_value_same_reflexive,
    lemma_value_same_symmetric,
    lemma_value_same_transitive,
    value_same,
    value_wf,
    ValueModel,
};
use crate::value_hash::{lemma_value_hash_consistent, payload_writes};

verus! {

/// Two element sequences have the same length and pairwise identical
/// elements.
pub open spec fn items_same(x: Seq<ValueModel>, y: Seq<ValueModel>) -> bool {
    x.len() == y.len() && forall|i: int| 0 <= i < x.len() ==> #[trigger] value_same(x[i], y[i])
}

/// Identity of two collections: the same element type, both unset or both
/// concrete, and pairwise identical elements in the same order.
pub open spec fn multi_values_same(a: MultiValuesModel, b: MultiValuesModel) -> bool {
    &&& a.data_type == b.data_type
    &&& match (a.items, b.items) {
        (None, None) => true,
        (Some(x), Some(y)) => items_same(x, y),
        _ => false,
    }
}

/// Every element is a well-formed value.
pub open spec fn multi_values_wf(m: MultiValuesModel) -> bool {
    match m.items {
        Some(s) => forall|i: int| 0 <= i < s.len() ==> #[trigger] value_wf(s[i]),
        None => true,
    }
}

/// Identity of collections compares element by element, in order: the same
/// collections have one element type, are both unset or both concrete, have
/// the same length and identical elements at each position; an unset
/// collection is never the same as a concrete empty one.
pub proof fn lemma_collection_identity(a: MultiValuesModel, b: MultiValuesModel)
    ensures
        multi_values_same(a, b) ==> a.data_type == b.data_type && (a.items is None <==> b.items is None) && a.len()
            == b.len(),
        multi_values_same(a, b) && a.items is Some ==> forall|i: int|
            0 <= i < a.len() ==> #[trigger] value_same(a.items.unwrap()[i], b.items.unwrap()[i]),
        a.items is None && b.items == Some(Seq::<ValueModel>::empty()) ==> !multi_values_same(a, b),
{
}

/// Collection identity is reflexive on collections of well-formed values.
pub proof fn lemma_multi_values_same_reflexive(m: MultiValuesModel)
    requires
        multi_values_wf(m),
    ensures
        multi_values_same(m, m),
{
    if let Some(s) = m.items {
        assert forall|i: int| 0 <= i < s.len() implies #[trigger] value_same(s[i], s[i]) by {
            lemma_value_same_reflexive(s[i]);
        }
    }
}

/// Collection identity is symmetric on collections of well-formed values.
pub proof fn lemma_multi_values_same_symmetric(a: MultiValuesModel, b: MultiValuesModel)
    requires
        multi_values_wf(a),
        multi_values_wf(b),
        multi_values_same(a, b),
    ensures
        multi_values_same(b, a),
{
    if let (Some(x), Some(y)) = (a.items, b.items) {
        assert forall|i: int| 0 <= i < y.len() implies #[trigger] value_same(y[i], x[i]) by {
            assert(value_same(x[i], y[i]));
            assert(value_wf(x[i]) && value_wf(y[i]));
            lemma_value_same_symmetric(x[i], y[i]);
        }
    }
}

/// Collection identity is transitive.
pub proof fn lemma_multi_values_same_transitive(a: MultiValuesModel, b: MultiValuesModel, c: MultiValuesModel)
    requires
        multi_values_same(a, b),
        multi_values_same(b, c),
    ensures
        multi_values_same(a, c),
{
    if let (Some(x), Some(y), Some(z)) = (a.items, b.items, c.items) {
        assert forall|i: int| 0 <= i < x.len() implies #[trigger] value_same(x[i], z[i]) by {
            assert(value_same(x[i], y[i]) && value_same(y[i], z[i]));
            lemma_value_same_transitive(x[i], y[i], z[i]);
        }
    }
}

/// Writes of the payloads of a sequence of elements, in order.
pub open spec fn items_writes(s: Seq<ValueModel>) -> Seq<Seq<u8>>
    decreases s.len(),
{
    if s.len() == 0 {
        seq![]
    } else {
        items_writes(s.drop_last()) + payload_writes(s.last())
    }
}

/// Writes of a collection: for an unset one a zero tag and the declared
/// type; for a concrete one a tag naming its type, its length, and the
/// payloads of its elements in order.
pub open spec fn multi_values_writes(m: MultiValuesModel) -> Seq<Seq<u8>> {
    match m.items {
        None => seq![u64_bytes(0), u64_bytes(spec_ordinal(m.data_type) as u64)],
        Some(s) => seq![u64_bytes((spec_ordinal(m.data_type) + 1) as u64), u64_bytes(s.len() as u64)]
            + items_writes(s),
    }
}

/// Element sequences whose payloads write the same bytes, index by index,
/// write the same bytes.
proof fn lemma_items_writes_eq(x: Seq<ValueModel>, y: Seq<ValueModel>)
    requires
        x.len() == y.len(),
        forall|i: int| 0 <= i < x.len() ==> #[trigger] payload_writes(x[i]) == payload_writes(y[i]),
    ensures
        items_writes(x) == items_writes(y),
    decreases x.len(),
{
    if x.len() > 0 {
        let n = x.len() - 1;
        assert(payload_writes(x[n]) == payload_writes(y[n]));
        assert forall|i: int| 0 <= i < x.drop_last().len() implies #[trigger] payload_writes(x.drop_last()[i])
            == payload_writes(y.drop_last()[i]) by {
            assert(payload_writes(x[i]) == payload_writes(y[i]));
        }
        lemma_items_writes_eq(x.drop_last(), y.drop_last());
    }
}

/// Identical collections of well-formed values write identical bytes: the
/// identity hash agrees with collection identity.
pub proof fn lemma_multi_values_hash_consistent(a: MultiValuesModel, b: MultiValuesModel)
    requires
        multi_values_wf(a),
        multi_values_wf(b),
        multi_values_same(a, b),
    ensures
        multi_values_writes(a) == multi_values_writes(b),
{
    if let (Some(x), Some(y)) = (a.items, b.items) {
        assert forall|i: int| 0 <= i < x.len() implies #[trigger] payload_writes(x[i]) == payload_writes(y[i]) by {
            assert(value_same(x[i], y[i]));
            assert(value_wf(x[i]) && value_wf(y[i]));
            lemma_value_hash_consistent(x[i], y[i]);
        }
        lemma_items_writes_eq(x, y);
    }
}

} // verus!

//! A JSON document tree (`serde_json::Value`) held as plain values, and its
//! structural identity.

use vstd::prelude::*;

use crate::float_identity::{f64_bits_eq, f64_is_finite, spec_f64_bits_eq};
use crate::matching::{lemma_matching_onto, related_from, related_in};

verus! {

/// A JSON number, in the three forms `serde_json::Number` keeps apart.
#[derive(Debug, Clone, Copy)]
pub enum JsonNumber {
    /// A non-negative integer.
    PosInt(u64),
    /// A negative integer.
    NegInt(i64),
    /// A finite binary float, by its IEEE-754 bit pattern.
    Float(u64),
}

/// A JSON value. Objects list their members; member keys are expected to be
/// distinct, as in a JSON object map.
#[derive(Debug)]
pub enum JsonValue {
    Null,
    Bool(bool),
    Number(JsonNumber),
    String(String),
    Array(Vec<JsonValue>),
    Object(Vec<(String, JsonValue)>),
}

impl JsonNumber {
    /// Number equality as `serde_json::Number` defines it: the same form and
    /// an equal value, floats compared with IEEE-754 `==`.
    pub open spec fn spec_same(self, other: Self) -> bool {
        match (self, other) {
            (JsonNumber::PosInt(a), JsonNumber::PosInt(b)) => a == b,
            (JsonNumber::NegInt(a), JsonNumber::NegInt(b)) => a == b,
            (JsonNumber::Float(a), JsonNumber::Float(b)) => spec_f64_bits_eq(a, b),
            _ => false,
        }
    }

    /// Tests number equality.
    pub fn same(&self, other: &Self) -> (r: bool)
        ensures
            r == self.spec_same(*other),
    {
        match (self, other) {
            (JsonNumber::PosInt(a), JsonNumber::PosInt(b)) => *a == *b,
            (JsonNumber::NegInt(a), JsonNumber::NegInt(b)) => *a == *b,
            (JsonNumber::Float(a), JsonNumber::Float(b)) => f64_bits_eq(*a, *b),
            _ => false,
        }
    }
}

/// Mathematical model of a JSON value.
pub enum JsonModel {
    Null,
    Bool(bool),
    Number(JsonNumber),
    String(Seq<char>),
    Array(Seq<JsonModel>),
    Object(Seq<(Seq<char>, JsonModel)>),
}

/// The model of a JSON value: texts by their characters, children by their
/// models.
pub open spec fn json_model(v: JsonValue) -> JsonModel
    decreases v,
{
    match v {
        JsonValue::Null => JsonModel::Null,
        JsonValue::Bool(b) => JsonModel::Bool(b),
        JsonValue::Number(n) => JsonModel::Number(n),
        JsonValue::String(s) => JsonModel::String(s@),
        JsonValue::Array(x) => JsonModel::Array(
            Seq::new(
                x@.len(),
                |i: int|
                    if 0 <= i < x@.len() {
                        json_model(x@[i])
                    } else {
                        JsonModel::Null
                    },
            ),
        ),
        JsonValue::Object(x) => JsonModel::Object(
            Seq::new(
                x@.len(),
                |i: int|
                    if 0 <= i < x@.len() {
                        (x@[i].0@, json_model(x@[i].1))
                    } else {
                        (Seq::empty(), JsonModel::Null)
                    },
            ),
        ),
    }
}

impl View for JsonValue {
    type V = JsonModel;

    open spec fn view(&self) -> JsonModel {
        json_model(*self)
    }
}

/// Value of the first member of `members` whose key is `key`.
pub open spec fn json_lookup(members: Seq<(Seq<char>, JsonModel)>, key: Seq<char>) -> Option<JsonModel>
    decreases members.len(),
{
    if members.len() == 0 {
        None
    } else if members[0].0 == key {
        Some(members[0].1)
    } else {
        json_lookup(members.drop_first(), key)
    }
}

/// Structural JSON equality: same kind, equal scalars, pairwise equal array
/// elements, and objects of the same size where every member of the left
/// object has an equal value under the same key in the right object.
pub open spec fn json_same(a: JsonModel, b: JsonModel) -> bool
    decreases a, 1int,
{
    match (a, b) {
        (JsonModel::Null, JsonModel::Null) => true,
        (JsonModel::Bool(x), JsonModel::Bool(y)) => x == y,
        (JsonModel::Number(x), JsonModel::Number(y)) => x.spec_same(y),
        (JsonModel::String(x), JsonModel::String(y)) => x == y,
        (JsonModel::Array(x), JsonModel::Array(y)) => json_elements_same(x, y),
        (JsonModel::Object(x), JsonModel::Object(y)) => x.len() == y.len() && json_members_found(x, y),
        _ => false,
    }
}

/// Two arrays have the same length and pairwise equal elements.
pub open spec fn json_elements_same(x: Seq<JsonModel>, y: Seq<JsonModel>) -> bool
    decreases x, 0int,
{
    if x.len() == 0 {
        y.len() == 0
    } else {
        y.len() > 0 && json_same(x[0], y[0]) && json_elements_same(x.drop_first(), y.drop_first())
    }
}

/// Every member of `x` has an equal value under its key in `y`.
pub open spec fn json_members_found(x: Seq<(Seq<char>, JsonModel)>, y: Seq<(Seq<char>, JsonModel)>) -> bool
    decreases x, 0int,
{
    if x.len() == 0 {
        true
    } else {
        match json_lookup(y, x[0].0) {
            Some(v) => json_same(x[0].1, v) && json_members_found(x.drop_first(), y),
            None => false,
        }
    }
}

/// Member `i` of `x` has an equal value under its key in `y`.
pub open spec fn json_member_same(
    x: Seq<(Seq<char>, JsonModel)>,
    y: Seq<(Seq<char>, JsonModel)>,
    i: int,
) -> bool {
    match json_lookup(y, x[i].0) {
        Some(v) => json_same(x[i].1, v),
        None => false,
    }
}

/// No two members of an object share a key.
pub open spec fn distinct_member_keys(x: Seq<(Seq<char>, JsonModel)>) -> bool {
    forall|i: int, j: int| 0 <= i < x.len() && 0 <= j < x.len() && i != j ==> x[i].0 != x[j].0
}

/// A JSON document as `serde_json` can hold it: finite float numbers, and
/// objects whose member keys are distinct, at every depth.
pub open spec fn json_wf(a: JsonModel) -> bool
    decreases a, 1int,
{
    match a {
        JsonModel::Number(n) => match n {
            JsonNumber::Float(bits) => f64_is_finite(bits),
            _ => true,
        },
        JsonModel::Array(x) => json_all_wf(x),
        JsonModel::Object(x) => distinct_member_keys(x) && json_members_wf(x),
        _ => true,
    }
}

/// Every element of an array is well formed.
pub open spec fn json_all_wf(x: Seq<JsonModel>) -> bool
    decreases x, 0int,
{
    if x.len() == 0 {
        true
    } else {
        json_wf(x[0]) && json_all_wf(x.drop_first())
    }
}

/// Every member value of an object is well formed.
pub open spec fn json_members_wf(x: Seq<(Seq<char>, JsonModel)>) -> bool
    decreases x, 0int,
{
    if x.len() == 0 {
        true
    } else {
        json_wf(x[0].1) && json_members_wf(x.drop_first())
    }
}

/// Well-formedness of an array is that of each element.
pub proof fn lemma_all_wf(x: Seq<JsonModel>)
    ensures
        json_all_wf(x) <==> forall|i: int| 0 <= i < x.len() ==> #[trigger] json_wf(x[i]),
    decreases x.len(),
{
    if x.len() > 0 {
        lemma_all_wf(x.drop_first());
        if forall|i: int| 0 <= i < x.len() ==> #[trigger] json_wf(x[i]) {
            assert(json_wf(x[0]));
            assert forall|i: int| 0 <= i < x.drop_first().len() implies #[trigger] json_wf(x.drop_first()[i]) by {
                assert(json_wf(x[i + 1]));
            }
        }
        if json_all_wf(x) {
            assert forall|i: int| 0 <= i < x.len() implies #[trigger] json_wf(x[i]) by {
                if i > 0 {
                    assert(json_wf(x.drop_first()[i - 1]));
                }
            }
        }
    }
}

/// Well-formedness of an object's values is that of each member value.
pub proof fn lemma_members_wf(x: Seq<(Seq<char>, JsonModel)>)
    ensures
        json_members_wf(x) <==> forall|i: int| 0 <= i < x.len() ==> #[trigger] json_wf(x[i].1),
    decreases x.len(),
{
    if x.len() > 0 {
        lemma_members_wf(x.drop_first());
        if forall|i: int| 0 <= i < x.len() ==> #[trigger] json_wf(x[i].1) {
            assert(json_wf(x[0].1));
            assert forall|i: int| 0 <= i < x.drop_first().len() implies #[trigger] json_wf(x.drop_first()[i].1) by {
                assert(json_wf(x[i + 1].1));
            }
        }
        if json_members_wf(x) {
            assert forall|i: int| 0 <= i < x.len() implies #[trigger] json_wf(x[i].1) by {
                if i > 0 {
                    assert(json_wf(x.drop_first()[i - 1].1));
                }
            }
        }
    }
}

/// With distinct keys, looking up the key of member `i` finds member `i`.
proof fn lemma_lookup_own_key(x: Seq<(Seq<char>, JsonModel)>, i: int)
    requires
        distinct_member_keys(x),
        0 <= i < x.len(),
    ensures
        json_lookup(x, x[i].0) == Some(x[i].1),
{
    lemma_lookup_skip(x, x[i].0, i);
    assert(x.skip(i)[0] == x[i]);
}

/// Structural JSON equality is reflexive on well-formed documents.
pub proof fn lemma_json_same_reflexive(a: JsonModel)
    requires
        json_wf(a),
    ensures
        json_same(a, a),
    decreases a,
{
    match a {
        JsonModel::Array(x) => {
            lemma_all_wf(x);
            assert forall|i: int| 0 <= i < x.len() implies #[trigger] json_same(x[i], x[i]) by {
                assert(json_wf(x[i]));
                lemma_json_same_reflexive(x[i]);
            }
            lemma_elements_same(x, x);
        },
        JsonModel::Object(x) => {
            lemma_members_wf(x);
            assert forall|i: int| 0 <= i < x.len() implies #[trigger] json_member_same(x, x, i) by {
                lemma_lookup_own_key(x, i);
                assert(json_wf(x[i].1));
                lemma_json_same_reflexive(x[i].1);
            }
            lemma_members_found(x, x);
        },
        _ => {},
    }
}

/// A key found by lookup is the key of some member holding the found value.
pub proof fn lemma_lookup_index(y: Seq<(Seq<char>, JsonModel)>, key: Seq<char>)
    requires
        json_lookup(y, key) is Some,
    ensures
        exists|k: int| 0 <= k < y.len() && #[trigger] y[k] == (key, json_lookup(y, key).unwrap()),
    decreases y.len(),
{
    if y[0].0 == key {
        assert(y[0] == (key, json_lookup(y, key).unwrap()));
    } else {
        lemma_lookup_index(y.drop_first(), key);
        let k = choose|k: int| 0 <= k < y.drop_first().len() && #[trigger] y.drop_first()[k] == (
            key,
            json_lookup(y.drop_first(), key).unwrap(),
        );
        assert(y[k + 1] == y.drop_first()[k]);
    }
}

/// Structural JSON equality is symmetric on well-formed documents.
pub proof fn lemma_json_same_symmetric(a: JsonModel, b: JsonModel)
    requires
        json_wf(a),
        json_wf(b),
        json_same(a, b),
    ensures
        json_same(b, a),
    decreases a,
{
    match (a, b) {
        (JsonModel::Array(x), JsonModel::Array(y)) => {
            lemma_elements_same(x, y);
            lemma_all_wf(x);
            lemma_all_wf(y);
            assert forall|i: int| 0 <= i < y.len() implies #[trigger] json_same(y[i], x[i]) by {
                assert(json_same(x[i], y[i]));
                assert(json_wf(x[i]) && json_wf(y[i]));
                lemma_json_same_symmetric(x[i], y[i]);
            }
            lemma_elements_same(y, x);
        },
        (JsonModel::Object(x), JsonModel::Object(y)) => {
            lemma_members_found(x, y);
            lemma_members_wf(x);
            lemma_members_wf(y);
            let r = |u: JsonModel, v: JsonModel| json_same(u, v);
            assert forall|i: int| 0 <= i < x.len() implies #[trigger] related_in(y, x[i], r) by {
                assert(json_member_same(x, y, i));
                lemma_lookup_index(y, x[i].0);
                let v = json_lookup(y, x[i].0).unwrap();
                let k = choose|k: int| 0 <= k < y.len() && #[trigger] y[k] == (x[i].0, v);
                assert(y[k].0 == x[i].0 && r(x[i].1, y[k].1));
            }
            lemma_matching_onto(x, y, r);
            assert forall|j: int| 0 <= j < y.len() implies #[trigger] json_member_same(y, x, j) by {
                assert(related_from(x, y[j], r));
                let i = choose|i: int| 0 <= i < x.len() && x[i].0 == y[j].0 && r(x[i].1, y[j].1);
                assert(json_wf(x[i].1) && json_wf(y[j].1));
                lemma_json_same_symmetric(x[i].1, y[j].1);
                lemma_lookup_own_key(x, i);
            }
            lemma_members_found(y, x);
        },
        _ => {},
    }
}

/// Structural JSON equality is transitive.
pub proof fn lemma_json_same_transitive(a: JsonModel, b: JsonModel, c: JsonModel)
    requires
        json_same(a, b),
        json_same(b, c),
    ensures
        json_same(a, c),
    decreases a,
{
    match (a, b, c) {
        (JsonModel::Array(x), JsonModel::Array(y), JsonModel::Array(z)) => {
            lemma_elements_same(x, y);
            lemma_elements_same(y, z);
            assert forall|i: int| 0 <= i < x.len() implies #[trigger] json_same(x[i], z[i]) by {
                assert(json_same(x[i], y[i]) && json_same(y[i], z[i]));
                lemma_json_same_transitive(x[i], y[i], z[i]);
            }
            lemma_elements_same(x, z);
        },
        (JsonModel::Object(x), JsonModel::Object(y), JsonModel::Object(z)) => {
            lemma_members_found(x, y);
            lemma_members_found(y, z);
            assert forall|i: int| 0 <= i < x.len() implies #[trigger] json_member_same(x, z, i) by {
                assert(json_member_same(x, y, i));
                lemma_lookup_index(y, x[i].0);
                let v = json_lookup(y, x[i].0).unwrap();
                let k = choose|k: int| 0 <= k < y.len() && #[trigger] y[k] == (x[i].0, v);
                assert(json_member_same(y, z, k));
                let w = json_lookup(z, y[k].0).unwrap();
                lemma_json_same_transitive(x[i].1, v, w);
            }
            lemma_members_found(x, z);
        },
        _ => {},
    }
}

/// Array equality is pairwise element equality.
pub proof fn lemma_elements_same(x: Seq<JsonModel>, y: Seq<JsonModel>)
    ensures
        json_elements_same(x, y) <==> (x.len() == y.len() && forall|i: int|
            0 <= i < x.len() ==> #[trigger] json_same(x[i], y[i])),
    decreases x.len(),
{
    if x.len() > 0 && y.len() > 0 {
        lemma_elements_same(x.drop_first(), y.drop_first());
        if x.len() == y.len() && forall|i: int| 0 <= i < x.len() ==> #[trigger] json_same(x[i], y[i]) {
            assert(json_same(x[0], y[0]));
            assert forall|i: int| 0 <= i < x.drop_first().len() implies #[trigger] json_same(
                x.drop_first()[i],
                y.drop_first()[i],
            ) by {
                assert(json_same(x[i + 1], y[i + 1]));
            }
        }
        if json_elements_same(x, y) {
            assert forall|i: int| 0 <= i < x.len() implies #[trigger] json_same(x[i], y[i]) by {
                if i > 0 {
                    assert(json_same(x.drop_first()[i - 1], y.drop_first()[i - 1]));
                }
            }
        }
    }
}

/// Object member matching is member-wise lookup and equality.
pub proof fn lemma_members_found(x: Seq<(Seq<char>, JsonModel)>, y: Seq<(Seq<char>, JsonModel)>)
    ensures
        json_members_found(x, y) <==> forall|i: int|
            0 <= i < x.len() ==> #[trigger] json_member_same(x, y, i),
    decreases x.len(),
{
    if x.len() > 0 {
        lemma_members_found(x.drop_first(), y);
        if forall|i: int| 0 <= i < x.len() ==> #[trigger] json_member_same(x, y, i) {
            assert(json_member_same(x, y, 0));
            assert forall|i: int| 0 <= i < x.drop_first().len() implies #[trigger] json_member_same(
                x.drop_first(),
                y,
                i,
            ) by {
                assert(json_member_same(x, y, i + 1));
            }
        }
        if json_members_found(x, y) {
            assert forall|i: int| 0 <= i < x.len() implies #[trigger] json_member_same(x, y, i) by {
                if i > 0 {
                    assert(json_member_same(x.drop_first(), y, i - 1));
                }
            }
        }
    }
}

/// The model keeps the kind of the value.
pub proof fn lemma_model_kind(v: JsonValue)
    ensures
        (v is Null) == (v@ is Null),
        (v is Bool) == (v@ is Bool),
        (v is Number) == (v@ is Number),
        (v is String) == (v@ is String),
        (v is Array) == (v@ is Array),
        (v is Object) == (v@ is Object),
{
}

/// Looking up past a prefix without the key is looking up in the rest.
proof fn lemma_lookup_skip(members: Seq<(Seq<char>, JsonModel)>, key: Seq<char>, i: int)
    requires
        0 <= i <= members.len(),
        forall|j: int| 0 <= j < i ==> members[j].0 != key,
    ensures
        json_lookup(members, key) == json_lookup(members.skip(i), key),
    decreases i,
{
    if i == 0 {
        assert(members.skip(0) =~= members);
    } else {
        assert(members.skip(i) =~= members.drop_first().skip(i - 1));
        assert(json_lookup(members, key) == json_lookup(members.drop_first(), key));
        lemma_lookup_skip(members.drop_first(), key, i - 1);
    }
}

/// Returns the value of the first member of `members` whose key is `key`.
pub fn json_member<'a>(members: &'a Vec<(String, JsonValue)>, key: &String) -> (r: Option<&'a JsonValue>)
    ensures
        match json_lookup(JsonValue::Object(*members)@->Object_0, key@) {
            Some(v) => r is Some && r.unwrap()@ == v,
            None => r is None,
        },
{
    let ghost model = JsonValue::Object(*members)@->Object_0;
    let n = members.len();
    for i in 0..n
        invariant
            n == members@.len(),
            model == JsonValue::Object(*members)@->Object_0,
            forall|j: int| 0 <= j < i ==> members@[j].0@ != key@,
    {
        if members[i].0 == *key {
            proof {
                assert forall|j: int| 0 <= j < i implies model[j].0 != key@ by {
                    assert(model[j].0 == members@[j].0@);
                }
                lemma_lookup_skip(model, key@, i as int);
                assert(model.skip(i as int)[0] == model[i as int]);
            }
            return Some(&members[i].1);
        }
    }
    proof {
        assert forall|j: int| 0 <= j < n implies model[j].0 != key@ by {
            assert(model[j].0 == members@[j].0@);
        }
        lemma_lookup_skip(model, key@, n as int);
    }
    None
}

/// Number of nodes of a JSON document.
pub open spec fn json_size(j: JsonModel) -> nat
    decreases j, 1int,
{
    1 + match j {
        JsonModel::Array(x) => elements_size(x),
        JsonModel::Object(x) => members_size(x),
        _ => 0,
    }
}

/// Number of nodes of a sequence of documents.
pub open spec fn elements_size(x: Seq<JsonModel>) -> nat
    decreases x, 0int,
{
    if x.len() == 0 {
        0
    } else {
        json_size(x[0]) + elements_size(x.drop_first())
    }
}

/// Number of nodes of the values of a sequence of members.
pub open spec fn members_size(x: Seq<(Seq<char>, JsonModel)>) -> nat
    decreases x, 0int,
{
    if x.len() == 0 {
        0
    } else {
        json_size(x[0].1) + members_size(x.drop_first())
    }
}

/// A pending container in a traversal: its elements or members from index
/// `next` on, at depth `depth`.
#[derive(Clone, Copy)]
pub(crate) enum Pending<'a> {
    Elements(&'a Vec<JsonValue>, usize, u64),
    Members(&'a Vec<(String, JsonValue)>, usize, u64),
}

/// Model of a pending container: the container, the index of its next
/// child and the depth of its children.
pub(crate) open spec fn pending_model(f: Pending) -> (JsonModel, nat, u64) {
    match f {
        Pending::Elements(v, k, d) => (JsonValue::Array(*v)@, k as nat, d),
        Pending::Members(v, k, d) => (JsonValue::Object(*v)@, k as nat, d),
    }
}

/// Work left in a pending container: one for the container, two per node
/// still to come.
pub(crate) open spec fn pending_weight(f: (JsonModel, nat, u64)) -> nat {
    1 + 2 * match f.0 {
        JsonModel::Array(x) => elements_size(x.skip(f.1 as int)),
        JsonModel::Object(x) => members_size(x.skip(f.1 as int)),
        _ => 0,
    }
}

/// Work left in a stack of pending containers.
pub(crate) open spec fn stack_weight(s: Seq<(JsonModel, nat, u64)>) -> nat
    decreases s.len(),
{
    if s.len() == 0 {
        0
    } else {
        stack_weight(s.drop_last()) + pending_weight(s.last())
    }
}

/// Models of a stack of pending containers.
pub(crate) open spec fn stack_model(s: Seq<Pending>) -> Seq<(JsonModel, nat, u64)> {
    s.map_values(|f: Pending| pending_model(f))
}

/// A pending container's index stays within its children.
pub(crate) open spec fn pending_wf(f: Pending) -> bool {
    match f {
        Pending::Elements(v, k, _) => k <= v.len(),
        Pending::Members(v, k, _) => k <= v.len(),
    }
}

/// Pushing a pending container adds its work.
pub(crate) proof fn lemma_weight_push(s: Seq<(JsonModel, nat, u64)>, p: (JsonModel, nat, u64))
    ensures
        stack_weight(s.push(p)) == stack_weight(s) + pending_weight(p),
{
    assert(s.push(p).drop_last() =~= s);
}

/// A pair of containers whose children are still to be compared, from index
/// `next` on: left and right elements, or left members against the right
/// object.
#[derive(Clone, Copy)]
enum PendingPair<'a> {
    Elements(&'a Vec<JsonValue>, &'a Vec<JsonValue>, usize),
    Members(&'a Vec<(String, JsonValue)>, &'a Vec<(String, JsonValue)>, usize),
}

/// Model of a pending pair: the two containers and the next index.
spec fn pair_model(f: PendingPair) -> (JsonModel, JsonModel, nat) {
    match f {
        PendingPair::Elements(x, y, k) => (JsonValue::Array(*x)@, JsonValue::Array(*y)@, k as nat),
        PendingPair::Members(x, y, k) => (JsonValue::Object(*x)@, JsonValue::Object(*y)@, k as nat),
    }
}

/// The children of a pending pair still to come are the same.
spec fn pair_same(f: (JsonModel, JsonModel, nat)) -> bool {
    match (f.0, f.1) {
        (JsonModel::Array(x), JsonModel::Array(y)) => json_elements_same(x.skip(f.2 as int), y.skip(f.2 as int)),
        (JsonModel::Object(x), JsonModel::Object(y)) => json_members_found(x.skip(f.2 as int), y),
        _ => true,
    }
}

/// Every pending pair of a stack is the same.
spec fn stack_same(s: Seq<(JsonModel, JsonModel, nat)>) -> bool
    decreases s.len(),
{
    s.len() == 0 || (pair_same(s.last()) && stack_same(s.drop_last()))
}

/// Work left in a pending pair: one for the pair, two per left node still
/// to come.
spec fn pair_weight(f: (JsonModel, JsonModel, nat)) -> nat {
    1 + 2 * match f.0 {
        JsonModel::Array(x) => elements_size(x.skip(f.2 as int)),
        JsonModel::Object(x) => members_size(x.skip(f.2 as int)),
        _ => 0,
    }
}

/// Work left in a stack of pending pairs.
spec fn pairs_weight(s: Seq<(JsonModel, JsonModel, nat)>) -> nat
    decreases s.len(),
{
    if s.len() == 0 {
        0
    } else {
        pairs_weight(s.drop_last()) + pair_weight(s.last())
    }
}

/// Models of a stack of pending pairs.
spec fn pairs_model(s: Seq<PendingPair>) -> Seq<(JsonModel, JsonModel, nat)> {
    s.map_values(|f: PendingPair| pair_model(f))
}

/// A pending pair's index stays within its children, and paired arrays have
/// the same length.
spec fn pair_wf(f: PendingPair) -> bool {
    match f {
        PendingPair::Elements(x, y, k) => k <= x.len() && x.len() == y.len(),
        PendingPair::Members(x, _, k) => k <= x.len(),
    }
}

/// Pushing a pending pair.
proof fn lemma_pairs_push(s: Seq<(JsonModel, JsonModel, nat)>, p: (JsonModel, JsonModel, nat))
    ensures
        stack_same(s.push(p)) == (pair_same(p) && stack_same(s)),
        pairs_weight(s.push(p)) == pairs_weight(s) + pair_weight(p),
{
    assert(s.push(p).drop_last() =~= s);
}

/// Compares two documents that are not both arrays nor both objects.
fn leaf_same(left: &JsonValue, right: &JsonValue) -> (r: bool)
    requires
        !(left is Array && right is Array),
        !(left is Object && right is Object),
    ensures
        r == json_same(left@, right@),
{
    proof {
        lemma_model_kind(*left);
        lemma_model_kind(*right);
    }
    match (left, right) {
        (JsonValue::Null, JsonValue::Null) => true,
        (JsonValue::Bool(x), JsonValue::Bool(y)) => *x == *y,
        (JsonValue::Number(x), JsonValue::Number(y)) => x.same(y),
        (JsonValue::String(x), JsonValue::String(y)) => *x == *y,
        _ => false,
    }
}

/// Compares one pair of documents: a pair of containers of matching size
/// is pushed for its children to be compared; any other pair is compared
/// at once. `false` means the pair differs.
fn step_pair<'a>(a: &'a JsonValue, b: &'a JsonValue, stack: &mut Vec<PendingPair<'a>>) -> (r: bool)
    requires
        forall|i: int| 0 <= i < old(stack)@.len() ==> pair_wf(#[trigger] old(stack)@[i]),
    ensures
        forall|i: int| 0 <= i < final(stack)@.len() ==> pair_wf(#[trigger] final(stack)@[i]),
        r ==> stack_same(pairs_model(final(stack)@)) == (json_same(a@, b@) && stack_same(
            pairs_model(old(stack)@),
        )),
        r ==> pairs_weight(pairs_model(final(stack)@)) + 1 <= pairs_weight(pairs_model(old(stack)@)) + 2
            * json_size(a@),
        !r ==> !json_same(a@, b@),
{
    proof {
        lemma_model_kind(*a);
        lemma_model_kind(*b);
    }
    let ghost s = pairs_model(stack@);
    match (a, b) {
        (JsonValue::Array(x), JsonValue::Array(y)) => {
            let ghost xm = a@->Array_0;
            let ghost ym = b@->Array_0;
            if x.len() != y.len() {
                proof {
                    lemma_elements_same(xm, ym);
                }
                return false;
            }
            stack.push(PendingPair::Elements(x, y, 0));
            proof {
                assert(xm.skip(0) =~= xm);
                assert(ym.skip(0) =~= ym);
                let p = pair_model(PendingPair::Elements(x, y, 0));
                assert(pairs_model(stack@) =~= s.push(p));
                lemma_pairs_push(s, p);
            }
            true
        },
        (JsonValue::Object(x), JsonValue::Object(y)) => {
            let ghost xm = a@->Object_0;
            let ghost ym = b@->Object_0;
            if x.len() != y.len() {
                return false;
            }
            stack.push(PendingPair::Members(x, y, 0));
            proof {
                assert(xm.skip(0) =~= xm);
                let p = pair_model(PendingPair::Members(x, y, 0));
                assert(pairs_model(stack@) =~= s.push(p));
                lemma_pairs_push(s, p);
            }
            true
        },
        _ => leaf_same(a, b),
    }
}

/// Tests structural JSON equality: same kind, equal scalars, pairwise equal
/// array elements, and same-size objects whose members match by key. The
/// comparison keeps a stack of pending pairs, so nesting does not deepen
/// the call stack.
pub fn json_eq(left: &JsonValue, right: &JsonValue) -> (r: bool)
    ensures
        r == json_same(left@, right@),
{
    let mut stack: Vec<PendingPair> = Vec::new();
    proof {
        assert(stack_same(pairs_model(stack@)));
    }
    if !step_pair(left, right, &mut stack) {
        return false;
    }
    while stack.len() > 0
        invariant
            json_same(left@, right@) == stack_same(pairs_model(stack@)),
            forall|i: int| 0 <= i < stack@.len() ==> pair_wf(#[trigger] stack@[i]),
        decreases pairs_weight(pairs_model(stack@)),
    {
        let ghost s0 = pairs_model(stack@);
        let top = stack.len() - 1;
        let frame = stack[top];
        assert(pair_wf(stack@[top as int]));
        assert(s0.last() == pair_model(frame));
        match frame {
            PendingPair::Elements(x, y, k) => {
                let ghost xm = JsonValue::Array(*x)@->Array_0;
                let ghost ym = JsonValue::Array(*y)@->Array_0;
                if k == x.len() {
                    stack.pop();
                    proof {
                        assert(xm.skip(k as int) =~= Seq::<JsonModel>::empty());
                        assert(ym.skip(k as int) =~= Seq::<JsonModel>::empty());
                        assert(pairs_model(stack@) =~= s0.drop_last());
                    }
                    continue;
                }
                stack.set(top, PendingPair::Elements(x, y, k + 1));
                let ghost s1 = pairs_model(stack@);
                proof {
                    assert(xm.skip(k as int)[0] == x@[k as int]@);
                    assert(ym.skip(k as int)[0] == y@[k as int]@);
                    assert(xm.skip(k as int).drop_first() =~= xm.skip(k + 1));
                    assert(ym.skip(k as int).drop_first() =~= ym.skip(k + 1));
                    assert(s1.drop_last() =~= s0.drop_last());
                    assert(s1.last() == pair_model(PendingPair::Elements(x, y, (k + 1) as usize)));
                    assert(elements_size(xm.skip(k as int)) == json_size(x@[k as int]@) + elements_size(
                        xm.skip(k + 1),
                    ));
                }
                if !step_pair(&x[k], &y[k], &mut stack) {
                    return false;
                }
            },
            PendingPair::Members(x, y, k) => {
                let ghost xm = JsonValue::Object(*x)@->Object_0;
                let ghost ym = JsonValue::Object(*y)@->Object_0;
                if k == x.len() {
                    stack.pop();
                    proof {
                        assert(xm.skip(k as int) =~= Seq::<(Seq<char>, JsonModel)>::empty());
                        assert(pairs_model(stack@) =~= s0.drop_last());
                    }
                    continue;
                }
                stack.set(top, PendingPair::Members(x, y, k + 1));
                let ghost s1 = pairs_model(stack@);
                proof {
                    assert(xm.skip(k as int)[0] == (x@[k as int].0@, x@[k as int].1@));
                    assert(xm.skip(k as int).drop_first() =~= xm.skip(k + 1));
                    assert(s1.drop_last() =~= s0.drop_last());
                    assert(s1.last() == pair_model(PendingPair::Members(x, y, (k + 1) as usize)));
                    assert(members_size(xm.skip(k as int)) == json_size(x@[k as int].1@) + members_size(
                        xm.skip(k + 1),
                    ));
                }
                match json_member(y, &x[k].0) {
                    Some(v) => {
                        if !step_pair(&x[k].1, v, &mut stack) {
                            return false;
                        }
                    },
                    None => {
                        return false;
                    },
                }
            },
        }
    }
    true
}

/// A container being copied: its source, and the copies of its first
/// children.
pub(crate) enum Building<'a> {
    Elements(&'a Vec<JsonValue>, Vec<JsonValue>),
    Members(&'a Vec<(String, JsonValue)>, Vec<(String, JsonValue)>),
}

/// The model of the container being copied.
pub(crate) open spec fn building_source(f: Building) -> JsonModel {
    match f {
        Building::Elements(s, _) => JsonValue::Array(*s)@,
        Building::Members(s, _) => JsonValue::Object(*s)@,
    }
}

/// Number of children copied so far.
pub(crate) open spec fn built_len(f: Building) -> nat {
    match f {
        Building::Elements(_, b) => b.len() as nat,
        Building::Members(_, b) => b.len() as nat,
    }
}

/// Number of children of the container being copied.
pub(crate) open spec fn source_len(f: Building) -> nat {
    match f {
        Building::Elements(s, _) => s.len() as nat,
        Building::Members(s, _) => s.len() as nat,
    }
}

/// The copies made so far equal the first children of the source.
pub(crate) open spec fn building_ok(f: Building) -> bool {
    match f {
        Building::Elements(s, b) => b.len() <= s.len() && forall|j: int|
            0 <= j < b.len() ==> (#[trigger] b@[j])@ == s@[j]@,
        Building::Members(s, b) => b.len() <= s.len() && forall|j: int|
            0 <= j < b.len() ==> (#[trigger] b@[j]).0@ == s@[j].0@ && b@[j].1@ == s@[j].1@,
    }
}

/// The model of the next child to copy.
pub(crate) open spec fn child_of(f: Building) -> JsonModel {
    match f {
        Building::Elements(s, b) => s@[b.len() as int]@,
        Building::Members(s, b) => s@[b.len() as int].1@,
    }
}

/// `child` copies the next child of `parent`.
pub(crate) open spec fn linked(parent: Building, child: Building) -> bool {
    built_len(parent) < source_len(parent) && child_of(parent) == building_source(child)
}

/// Nodes of the children of the source from index `built + extra` on.
pub(crate) open spec fn remaining(f: Building, extra: nat) -> nat {
    match f {
        Building::Elements(s, b) => elements_size(JsonValue::Array(*s)@->Array_0.skip(b.len() + extra)),
        Building::Members(s, b) => members_size(JsonValue::Object(*s)@->Object_0.skip(b.len() + extra)),
    }
}

/// Work left in the enclosing containers: one each, and two per node after
/// the child being copied.
pub(crate) open spec fn inner_weight(s: Seq<Building>) -> nat
    decreases s.len(),
{
    if s.len() == 0 {
        0
    } else {
        inner_weight(s.drop_last()) + 1 + 2 * remaining(s.last(), 1)
    }
}

/// Work left in a stack of containers being copied.
pub(crate) open spec fn building_weight(s: Seq<Building>) -> nat {
    if s.len() == 0 {
        0
    } else {
        inner_weight(s.drop_last()) + 1 + 2 * remaining(s.last(), 0)
    }
}

/// The nodes left from the next child on are those of that child and those
/// after it.
proof fn lemma_remaining_split(f: Building)
    requires
        built_len(f) < source_len(f),
    ensures
        remaining(f, 0) == json_size(child_of(f)) + remaining(f, 1),
{
    match f {
        Building::Elements(s, b) => {
            let xs = JsonValue::Array(*s)@->Array_0;
            assert(xs.skip(b.len() as int)[0] == s@[b.len() as int]@);
            assert(xs.skip(b.len() as int).drop_first() =~= xs.skip(b.len() + 1));
        },
        Building::Members(s, b) => {
            let xs = JsonValue::Object(*s)@->Object_0;
            assert(xs.skip(b.len() as int)[0] == (s@[b.len() as int].0@, s@[b.len() as int].1@));
            assert(xs.skip(b.len() as int).drop_first() =~= xs.skip(b.len() + 1));
        },
    }
}

/// Finishing the innermost container and handing it to its parent leaves
/// less work.
proof fn lemma_weight_finish(s0: Seq<Building>, parent: Building)
    requires
        s0.len() >= 2,
        remaining(parent, 0) == remaining(s0[s0.len() - 2], 1),
    ensures
        building_weight(s0.drop_last().drop_last().push(parent)) < building_weight(s0),
{
    assert(s0.drop_last().drop_last().push(parent).drop_last() =~= s0.drop_last().drop_last());
    assert(s0.drop_last().last() == s0[s0.len() - 2]);
}

/// Starting to copy a child container leaves less work.
proof fn lemma_weight_descend(s0: Seq<Building>, pushed: Building)
    requires
        s0.len() > 0,
        linked(s0.last(), pushed),
        built_len(pushed) == 0,
        remaining(s0.last(), 0) == json_size(child_of(s0.last())) + remaining(s0.last(), 1),
        json_size(building_source(pushed)) == 1 + remaining(pushed, 0),
    ensures
        building_weight(s0.push(pushed)) < building_weight(s0),
{
    assert(s0.push(pushed).drop_last() =~= s0);
}

/// Copying a leaf child leaves less work.
proof fn lemma_weight_leaf(s0: Seq<Building>, f: Building)
    requires
        s0.len() > 0,
        remaining(f, 0) == remaining(s0.last(), 1),
        remaining(s0.last(), 0) == json_size(child_of(s0.last())) + remaining(s0.last(), 1),
    ensures
        building_weight(s0.drop_last().push(f)) < building_weight(s0),
{
    assert(s0.drop_last().push(f).drop_last() =~= s0.drop_last());
}

/// Tests whether every child has been copied.
fn building_done(f: &Building) -> (r: bool)
    ensures
        r == (built_len(*f) == source_len(*f)),
{
    match f {
        Building::Elements(s, b) => b.len() == s.len(),
        Building::Members(s, b) => b.len() == s.len(),
    }
}

/// The copy of a container whose children are all copied.
fn finish_building(f: Building) -> (r: JsonValue)
    requires
        building_ok(f),
        built_len(f) == source_len(f),
    ensures
        r@ == building_source(f),
{
    match f {
        Building::Elements(s, b) => {
            let r = JsonValue::Array(b);
            assert(r@->Array_0 =~= JsonValue::Array(*s)@->Array_0);
            r
        },
        Building::Members(s, b) => {
            let r = JsonValue::Object(b);
            assert(r@->Object_0 =~= JsonValue::Object(*s)@->Object_0);
            r
        },
    }
}

/// The next child to copy.
fn next_child<'a>(f: &Building<'a>) -> (r: &'a JsonValue)
    requires
        built_len(*f) < source_len(*f),
    ensures
        r@ == child_of(*f),
{
    match f {
        Building::Elements(s, b) => &s[b.len()],
        Building::Members(s, b) => &s[b.len()].1,
    }
}

/// Adds the copy of the next child.
fn attach_child<'a>(f: Building<'a>, v: JsonValue) -> (r: Building<'a>)
    requires
        building_ok(f),
        built_len(f) < source_len(f),
        v@ == child_of(f),
    ensures
        building_ok(r),
        building_source(r) == building_source(f),
        built_len(r) == built_len(f) + 1,
        source_len(r) == source_len(f),
        remaining(r, 0) == remaining(f, 1),
{
    match f {
        Building::Elements(s, b) => {
            let mut b = b;
            b.push(v);
            Building::Elements(s, b)
        },
        Building::Members(s, b) => {
            let mut b = b;
            let key = s[b.len()].0.clone();
            b.push((key, v));
            Building::Members(s, b)
        },
    }
}

/// Copies a document that is not a container.
fn copy_leaf(v: &JsonValue) -> (r: JsonValue)
    requires
        !(v is Array),
        !(v is Object),
    ensures
        r@ == v@,
{
    match v {
        JsonValue::Null => JsonValue::Null,
        JsonValue::Bool(b) => JsonValue::Bool(*b),
        JsonValue::Number(n) => JsonValue::Number(*n),
        JsonValue::String(s) => JsonValue::String(s.clone()),
        _ => JsonValue::Null,
    }
}

impl JsonValue {
    /// Tests whether this value is an array or an object.
    pub fn is_container(&self) -> (r: bool)
        ensures
            r == (*self is Array || *self is Object),
    {
        match self {
            JsonValue::Array(_) => true,
            JsonValue::Object(_) => true,
            _ => false,
        }
    }

    /// Returns a deep copy with the same model. The copy keeps a stack of
    /// containers under construction, so nesting does not deepen the call
    /// stack.
    pub fn duplicate(&self) -> (r: Self)
        ensures
            r@ == self@,
    {
        if !self.is_container() {
            return copy_leaf(self);
        }
        let mut stack: Vec<Building> = Vec::new();
        match self {
            JsonValue::Array(x) => stack.push(Building::Elements(x, Vec::new())),
            JsonValue::Object(x) => stack.push(Building::Members(x, Vec::new())),
            _ => {},
        }
        proof {
            assert(building_ok(stack@[0]));
            assert(stack@.len() == 1);
        }
        loop
            invariant
                stack@.len() > 0,
                building_source(stack@[0]) == self@,
                forall|i: int| 0 <= i < stack@.len() ==> building_ok(#[trigger] stack@[i]),
                forall|i: int|
                    1 <= i < stack@.len() ==> linked(#[trigger] stack@[i - 1], stack@[i]),
            decreases building_weight(stack@),
        {
            let ghost s0 = stack@;
            let frame = stack.pop().unwrap();
            proof {
                assert(s0.last() == frame);
                assert(stack@ =~= s0.drop_last());
                assert(building_ok(frame));
            }
            if building_done(&frame) {
                let value = finish_building(frame);
                if stack.len() == 0 {
                    return value;
                }
                let parent = stack.pop().unwrap();
                proof {
                    assert(parent == s0[s0.len() - 2]);
                    assert(linked(parent, frame));
                    assert(stack@ =~= s0.drop_last().drop_last());

                }
                let ghost old_parent = parent;
                let parent = attach_child(parent, value);
                proof {
                    lemma_weight_finish(s0, parent);
                }
                stack.push(parent);
                proof {
                    assert(stack@ =~= s0.drop_last().drop_last().push(parent));
                    assert forall|i: int| 1 <= i < stack@.len() implies linked(#[trigger] stack@[i - 1], stack@[i]) by {
                        assert(linked(s0[i - 1], s0[i]));
                    }
                    assert forall|i: int| 0 <= i < stack@.len() implies building_ok(#[trigger] stack@[i]) by {
                        if i < stack@.len() - 1 {
                            assert(building_ok(s0[i]));
                        }
                    }
                }
            } else {
                let child = next_child(&frame);
                proof {
                    lemma_model_kind(*child);
                    lemma_remaining_split(frame);
                }
                match child {
                    JsonValue::Array(x) => {
                        let pushed = Building::Elements(x, Vec::new());
                        stack.push(frame);
                        stack.push(pushed);
                        proof {
                            assert(JsonValue::Array(*x)@->Array_0.skip(0) =~= JsonValue::Array(*x)@->Array_0);
                            assert(stack@ =~= s0.push(pushed));
                            lemma_weight_descend(s0, pushed);
                        }
                    },
                    JsonValue::Object(x) => {
                        let pushed = Building::Members(x, Vec::new());
                        stack.push(frame);
                        stack.push(pushed);
                        proof {
                            assert(JsonValue::Object(*x)@->Object_0.skip(0) =~= JsonValue::Object(*x)@->Object_0);
                            assert(stack@ =~= s0.push(pushed));
                            lemma_weight_descend(s0, pushed);
                        }
                    },
                    _ => {
                        let leaf = copy_leaf(child);
                        let frame = attach_child(frame, leaf);
                        stack.push(frame);
                        proof {
                            assert(stack@ =~= s0.drop_last().push(frame));
                            lemma_weight_leaf(s0, frame);
                        }
                    },
                }
            }
        }
    }
}

impl Clone for JsonValue {
    /// Deep copy; see [`JsonValue::duplicate`].
    fn clone(&self) -> (r: Self)
        ensures
            r@ == self@,
    {
        self.duplicate()
    }
}

} // verus!

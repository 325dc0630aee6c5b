//! A string-key/string-value map (`HashMap<String, String>`) held as a list
//! of entries with distinct keys.

use vstd::prelude::*;

use crate::matching::{lemma_matching_onto, related_from, related_in};

verus! {

/// String-key/string-value properties. Keys are distinct; the order of
/// entries carries no meaning.
#[derive(Debug)]
pub struct StringMapValue {
    entries: Vec<(String, String)>,
}

/// Model of a string map: its entries as (key text, value text) pairs.
pub type StringMapModel = Seq<(Seq<char>, Seq<char>)>;

/// No two entries share a key.
pub open spec fn distinct_keys(entries: StringMapModel) -> bool {
    forall|i: int, j: int|
        0 <= i < entries.len() && 0 <= j < entries.len() && i != j ==> entries[i].0 != entries[j].0
}

/// The entries hold this key with this value.
pub open spec fn has_entry(entries: StringMapModel, key: Seq<char>, value: Seq<char>) -> bool {
    exists|j: int| 0 <= j < entries.len() && entries[j] == (key, value)
}

/// The entries hold this key.
pub open spec fn has_key(entries: StringMapModel, key: Seq<char>) -> bool {
    exists|j: int| 0 <= j < entries.len() && entries[j].0 == key
}

/// Identity of two string maps: the same number of entries, and every entry
/// of the first is an entry of the second.
pub open spec fn string_map_same(x: StringMapModel, y: StringMapModel) -> bool {
    &&& x.len() == y.len()
    &&& forall|i: int| 0 <= i < x.len() ==> has_entry(y, #[trigger] x[i].0, x[i].1)
}

/// String-map identity is symmetric on maps with distinct keys.
pub proof fn lemma_string_map_same_symmetric(a: StringMapModel, b: StringMapModel)
    requires
        distinct_keys(a),
        distinct_keys(b),
        string_map_same(a, b),
    ensures
        string_map_same(b, a),
{
    let r = |u: Seq<char>, v: Seq<char>| u == v;
    assert forall|i: int| 0 <= i < a.len() implies #[trigger] related_in(b, a[i], r) by {
        assert(has_entry(b, a[i].0, a[i].1));
        let k = choose|k: int| 0 <= k < b.len() && b[k] == (a[i].0, a[i].1);
        assert(b[k].0 == a[i].0 && r(a[i].1, b[k].1));
    }
    lemma_matching_onto(a, b, r);
    assert forall|j: int| 0 <= j < b.len() implies has_entry(a, #[trigger] b[j].0, b[j].1) by {
        assert(related_from(a, b[j], r));
        let i = choose|i: int| 0 <= i < a.len() && a[i].0 == b[j].0 && r(a[i].1, b[j].1);
        assert(a[i] == (b[j].0, b[j].1));
    }
}

/// String-map identity is transitive.
pub proof fn lemma_string_map_same_transitive(a: StringMapModel, b: StringMapModel, c: StringMapModel)
    requires
        string_map_same(a, b),
        string_map_same(b, c),
    ensures
        string_map_same(a, c),
{
    assert forall|i: int| 0 <= i < a.len() implies has_entry(c, #[trigger] a[i].0, a[i].1) by {
        assert(has_entry(b, a[i].0, a[i].1));
        let k = choose|k: int| 0 <= k < b.len() && b[k] == (a[i].0, a[i].1);
        assert(has_entry(c, b[k].0, b[k].1));
    }
}

/// Model of a list of string pairs.
pub open spec fn entries_model(entries: Seq<(String, String)>) -> StringMapModel {
    Seq::new(entries.len(), |i: int| (entries[i].0@, entries[i].1@))
}

impl View for StringMapValue {
    type V = StringMapModel;

    closed spec fn view(&self) -> StringMapModel {
        entries_model(self.entries@)
    }
}

impl StringMapValue {
    /// Keys are distinct.
    #[verifier::type_invariant]
    closed spec fn inv(&self) -> bool {
        distinct_keys(entries_model(self.entries@))
    }

    /// Creates an empty map.
    pub fn new() -> (r: Self)
        ensures
            r@ == Seq::<(Seq<char>, Seq<char>)>::empty(),
    {
        let r = StringMapValue { entries: Vec::new() };
        assert(r@ =~= Seq::<(Seq<char>, Seq<char>)>::empty());
        r
    }

    /// Builds the conversion source of this map from a
    /// `std::collections::HashMap` of copies of its entries and
    /// `qubit_datatype::DataConverter::from`.
    ///
    /// Trusted claim: the source stands for this map.
    #[verifier::external_body]
    pub(crate) fn conversion_source(&self) -> (r: crate::conversion::ConversionSource)
        ensures
            r@ == crate::value::ValueModel::StringMap(self@),
    {
        let map: std::collections::HashMap<String, String> = self.entries.iter().cloned().collect();
        crate::conversion::ConversionSource {
            converter: qubit_datatype::DataConverter::from(map),
            model: Ghost(crate::value::ValueModel::StringMap(self@)),
        }
    }

    /// The keys of the map are distinct.
    pub fn check_distinct_keys(&self)
        ensures
            distinct_keys(self@),
    {
        proof {
            use_type_invariant(self);
        }
    }

    /// Number of entries.
    pub fn len(&self) -> (r: usize)
        ensures
            r == self@.len(),
    {
        self.entries.len()
    }

    /// Borrows the entries, in storage order.
    pub fn entries(&self) -> (r: &Vec<(String, String)>)
        ensures
            entries_model(r@) == self@,
    {
        &self.entries
    }

    /// Position of the entry with key `key`, if any.
    pub fn position(&self, key: &String) -> (r: Option<usize>)
        ensures
            match r {
                Some(i) => i < self@.len() && self@[i as int].0 == key@,
                None => !has_key(self@, key@),
            },
    {
        let n = self.entries.len();
        for i in 0..n
            invariant
                n == self.entries@.len(),
                forall|j: int| 0 <= j < i ==> self@[j].0 != key@,
        {
            if self.entries[i].0 == *key {
                return Some(i);
            }
        }
        None
    }

    /// Returns the value stored under `key`.
    pub fn get(&self, key: &String) -> (r: Option<&String>)
        ensures
            match r {
                Some(v) => has_entry(self@, key@, v@),
                None => !has_key(self@, key@),
            },
    {
        match self.position(key) {
            Some(i) => {
                assert(self@[i as int] == (key@, self.entries@[i as int].1@));
                Some(&self.entries[i].1)
            },
            None => None,
        }
    }

    /// Stores `value` under `key`, replacing a previous value of the same
    /// key. Returns whether a previous value was replaced.
    pub fn insert(&mut self, key: String, value: String) -> (r: bool)
        ensures
            r == has_key(old(self)@, key@),
            has_entry(final(self)@, key@, value@),
            forall|k: Seq<char>, v: Seq<char>|
                k != key@ ==> (has_entry(final(self)@, k, v) <==> has_entry(old(self)@, k, v)),
            final(self)@.len() == old(self)@.len() + if r {
                0int
            } else {
                1int
            },
    {
        proof {
            use_type_invariant(&*self);
        }
        let ghost old_model = self@;
        let mut entries: Vec<(String, String)> = Vec::new();
        std::mem::swap(&mut entries, &mut self.entries);
        let ghost new_entry = (key@, value@);
        match self.position_in(&entries, &key) {
            Some(i) => {
                entries.set(i, (key, value));
                let ghost m = entries_model(entries@);
                proof {
                    assert(m =~= old_model.update(i as int, new_entry));
                    assert forall|k: Seq<char>, v: Seq<char>| k != new_entry.0 implies (has_entry(
                        m,
                        k,
                        v,
                    ) <==> has_entry(old_model, k, v)) by {
                        if has_entry(m, k, v) {
                            let j = choose|j: int| 0 <= j < m.len() && m[j] == (k, v);
                            assert(old_model[j] == m[j]);
                        }
                        if has_entry(old_model, k, v) {
                            let j = choose|j: int| 0 <= j < old_model.len() && old_model[j] == (k, v);
                            assert(old_model[j] == m[j]);
                        }
                    }
                    assert(m[i as int] == new_entry);
                }
                self.entries = entries;
                true
            },
            None => {
                entries.push((key, value));
                let ghost m = entries_model(entries@);
                proof {
                    assert(m =~= old_model.push(new_entry));
                    let n = old_model.len();
                    assert(m[n as int] == new_entry);
                    assert forall|k: Seq<char>, v: Seq<char>| k != new_entry.0 implies (has_entry(
                        m,
                        k,
                        v,
                    ) <==> has_entry(old_model, k, v)) by {
                        if has_entry(m, k, v) {
                            let j = choose|j: int| 0 <= j < m.len() && m[j] == (k, v);
                            assert(old_model[j] == m[j]);
                        }
                        if has_entry(old_model, k, v) {
                            let j = choose|j: int| 0 <= j < old_model.len() && old_model[j] == (k, v);
                            assert(old_model[j] == m[j]);
                        }
                    }
                    assert forall|a: int, b: int|
                        0 <= a < m.len() && 0 <= b < m.len() && a != b implies m[a].0 != m[b].0 by {
                        if a < n && b < n {
                        } else if a < n {
                            assert(old_model[a].0 == m[a].0);
                        } else if b < n {
                            assert(old_model[b].0 == m[b].0);
                        }
                    }
                }
                self.entries = entries;
                false
            },
        }
    }

    /// Position of the entry with key `key` in a list of entries.
    fn position_in(&self, entries: &Vec<(String, String)>, key: &String) -> (r: Option<usize>)
        ensures
            match r {
                Some(i) => i < entries@.len() && entries_model(entries@)[i as int].0 == key@,
                None => !has_key(entries_model(entries@), key@),
            },
    {
        let n = entries.len();
        for i in 0..n
            invariant
                n == entries@.len(),
                forall|j: int| 0 <= j < i ==> entries_model(entries@)[j].0 != key@,
        {
            if entries[i].0 == *key {
                return Some(i);
            }
        }
        None
    }

    /// Tests map identity: equal sizes and every entry of `self` is an entry
    /// of `other`.
    pub fn same(&self, other: &Self) -> (r: bool)
        ensures
            r == string_map_same(self@, other@),
    {
        proof {
            use_type_invariant(other);
        }
        if self.entries.len() != other.entries.len() {
            return false;
        }
        let n = self.entries.len();
        for i in 0..n
            invariant
                n == self@.len(),
                n == other@.len(),
                distinct_keys(other@),
                forall|j: int| 0 <= j < i ==> has_entry(other@, #[trigger] self@[j].0, self@[j].1),
        {
            match other.position(&self.entries[i].0) {
                Some(p) => {
                    if other.entries[p].1 != self.entries[i].1 {
                        proof {
                            assert(self@[i as int] == (self.entries@[i as int].0@, self.entries@[i as int].1@));
                            assert(other@[p as int] == (other.entries@[p as int].0@, other.entries@[p as int].1@));
                            if has_entry(other@, self@[i as int].0, self@[i as int].1) {
                                let j = choose|j: int|
                                    0 <= j < other@.len() && other@[j] == (
                                        self@[i as int].0,
                                        self@[i as int].1,
                                    );
                                assert(j == p);
                            }
                        }
                        assert(!has_entry(other@, self@[i as int].0, self@[i as int].1));
                        return false;
                    }
                    assert(self@[i as int] == (self.entries@[i as int].0@, self.entries@[i as int].1@));
                    assert(other@[p as int] == (other.entries@[p as int].0@, other.entries@[p as int].1@));
                    assert(other@[p as int] == (self@[i as int].0, self@[i as int].1));
                },
                None => {
                    assert(self@[i as int].0 == self.entries@[i as int].0@);
                    assert(!has_entry(other@, self@[i as int].0, self@[i as int].1));
                    return false;
                },
            }
        }
        true
    }

    /// Returns a copy with the same entries in the same order.
    pub fn duplicate(&self) -> (r: Self)
        ensures
            r@ == self@,
    {
        proof {
            use_type_invariant(self);
        }
        let mut entries: Vec<(String, String)> = Vec::new();
        let n = self.entries.len();
        assert(self@.len() == n);
        for i in 0..n
            invariant
                n == self.entries@.len(),
                n == self@.len(),
                self@ == entries_model(self.entries@),
                entries@.len() == i,
                entries_model(entries@) == self@.subrange(0, i as int),
        {
            let key = self.entries[i].0.clone();
            let value = self.entries[i].1.clone();
            assert(key@ == self.entries@[i as int].0@);
            entries.push((key, value));
            assert(entries@.len() == i + 1);
            assert(entries@[i as int].0@ == self.entries@[i as int].0@);
            assert(entries_model(entries@)[i as int] == (entries@[i as int].0@, entries@[i as int].1@));
            assert(entries_model(entries@)[i as int] == self@[i as int]);
            assert(entries_model(entries@) =~= self@.subrange(0, i + 1));
        }
        assert(entries_model(entries@) =~= self@);
        StringMapValue { entries }
    }
}

impl Clone for StringMapValue {
    /// Copy with the same model; see [`StringMapValue::duplicate`].
    fn clone(&self) -> (r: Self)
        ensures
            r@ == self@,
    {
        self.duplicate()
    }
}

} // verus!

//! Resource budgets for walking JSON documents: a node count, a depth limit
//! and a payload-byte limit, charged node by node in pre-order, the first
//! refusal stopping the walk.

use vstd::prelude::*;
use vstd::string::StringSliceAdditionalSpecFns;
use vstd::utf8::encode_utf8;

use vstd::arithmetic::power::pow;

use crate::big_number_hash::{decimal_digits, decimal_text, digit_char};
use crate::json_value::{
    elements_size,
    json_size,
    lemma_model_kind,
    lemma_weight_push,
    members_size,
    pending_model,
    pending_weight,
    pending_wf,
    stack_model,
    stack_weight,
    JsonModel,
    JsonNumber,
    JsonValue,
    Pending,
};

verus! {

/// A resource whose limit refused a charge.
#[derive(Debug, Clone, Copy, PartialEq, Eq, Structural)]
pub enum BudgetResource {
    /// Scalars projected.
    Items,
    /// Bytes of text read from the source.
    InputBytes,
    /// Bytes of text written to the result.
    OutputBytes,
    /// JSON nodes.
    Nodes,
    /// Depth of a JSON node, the root being at depth one.
    Depth,
    /// Bytes of text held by JSON nodes and keys.
    PayloadBytes,
    /// Bytes of one text.
    TextBytes,
    /// Decimal digits of a big integer.
    BigIntegerDigits,
    /// Decimal digits of a big decimal's coefficient.
    BigDecimalDigits,
    /// Magnitude of a big decimal's scale.
    BigDecimalScale,
    /// Elements of one array.
    SequenceItems,
    /// Members of one object.
    MapEntries,
}

/// Limits and usage of a walk over JSON structure.
#[derive(Debug, Clone, Copy, PartialEq, Eq, Structural)]
pub struct StructureBudget {
    /// Largest number of nodes.
    pub max_nodes: u64,
    /// Largest depth of a node.
    pub max_depth: u64,
    /// Largest number of payload bytes.
    pub max_payload_bytes: u64,
    /// Largest number of elements of one array.
    pub max_sequence_items: u64,
    /// Largest number of members of one object.
    pub max_map_entries: u64,
    /// Nodes charged so far.
    pub used_nodes: u64,
    /// Payload bytes charged so far.
    pub used_payload_bytes: u64,
}

/// Outcome of charging one node of `bytes` payload bytes at `depth`: the
/// budget after it, or the resource that refuses it.
pub open spec fn node_outcome(b: StructureBudget, depth: u64, bytes: nat) -> Result<StructureBudget, BudgetResource> {
    if depth > b.max_depth {
        Err(BudgetResource::Depth)
    } else if b.used_nodes >= b.max_nodes {
        Err(BudgetResource::Nodes)
    } else if b.used_payload_bytes + bytes > b.max_payload_bytes {
        Err(BudgetResource::PayloadBytes)
    } else {
        Ok(StructureBudget {
            used_nodes: (b.used_nodes + 1) as u64,
            used_payload_bytes: (b.used_payload_bytes + bytes) as u64,
            ..b
        })
    }
}

/// Outcome of charging a container node at `depth` holding `count`
/// members (`entries`) or elements: its depth, then its size against the
/// limit of its kind, then the node.
pub open spec fn container_outcome(b: StructureBudget, depth: u64, entries: bool, count: nat) -> Result<StructureBudget, BudgetResource> {
    if depth > b.max_depth {
        Err(BudgetResource::Depth)
    } else if !entries && count > b.max_sequence_items {
        Err(BudgetResource::SequenceItems)
    } else if entries && count > b.max_map_entries {
        Err(BudgetResource::MapEntries)
    } else {
        node_outcome(b, depth, 0)
    }
}

/// Outcome of charging the node of a document: a container by its size, any
/// other node by its payload bytes.
pub open spec fn node_admission(b: StructureBudget, depth: u64, j: JsonModel) -> Result<StructureBudget, BudgetResource> {
    match j {
        JsonModel::Array(x) => container_outcome(b, depth, false, x.len()),
        JsonModel::Object(x) => container_outcome(b, depth, true, x.len()),
        _ => node_outcome(b, depth, json_node_bytes(j)),
    }
}

/// Outcome of charging the payload bytes of an object key.
pub open spec fn key_outcome(b: StructureBudget, bytes: nat) -> Result<StructureBudget, BudgetResource> {
    if b.used_payload_bytes + bytes > b.max_payload_bytes {
        Err(BudgetResource::PayloadBytes)
    } else {
        Ok(StructureBudget { used_payload_bytes: (b.used_payload_bytes + bytes) as u64, ..b })
    }
}

impl StructureBudget {
    /// Charges one node of `bytes` payload bytes at `depth`; a refusal
    /// changes nothing.
    pub fn admit_node(&mut self, depth: u64, bytes: usize) -> (r: Result<(), BudgetResource>)
        ensures
            match node_outcome(*old(self), depth, bytes as nat) {
                Ok(nb) => r is Ok && *final(self) == nb,
                Err(e) => r == Err::<(), BudgetResource>(e) && *final(self) == *old(self),
            },
    {
        if depth > self.max_depth {
            return Err(BudgetResource::Depth);
        }
        if self.used_nodes >= self.max_nodes {
            return Err(BudgetResource::Nodes);
        }
        let wide = bytes as u64;
        if self.used_payload_bytes > self.max_payload_bytes || wide > self.max_payload_bytes
            - self.used_payload_bytes {
            return Err(BudgetResource::PayloadBytes);
        }
        self.used_nodes = self.used_nodes + 1;
        self.used_payload_bytes = self.used_payload_bytes + wide;
        Ok(())
    }

    /// Charges a container node at `depth` holding `count` members
    /// (`entries`) or elements; a refusal changes nothing.
    pub fn admit_container(&mut self, depth: u64, entries: bool, count: usize) -> (r: Result<(), BudgetResource>)
        ensures
            match container_outcome(*old(self), depth, entries, count as nat) {
                Ok(nb) => r is Ok && *final(self) == nb,
                Err(e) => r == Err::<(), BudgetResource>(e) && *final(self) == *old(self),
            },
    {
        if depth > self.max_depth {
            return Err(BudgetResource::Depth);
        }
        if !entries && count as u64 > self.max_sequence_items {
            return Err(BudgetResource::SequenceItems);
        }
        if entries && count as u64 > self.max_map_entries {
            return Err(BudgetResource::MapEntries);
        }
        self.admit_node(depth, 0)
    }

    /// Charges the payload bytes of an object key; a refusal changes
    /// nothing.
    pub fn admit_key(&mut self, bytes: usize) -> (r: Result<(), BudgetResource>)
        ensures
            match key_outcome(*old(self), bytes as nat) {
                Ok(nb) => r is Ok && *final(self) == nb,
                Err(e) => r == Err::<(), BudgetResource>(e) && *final(self) == *old(self),
            },
    {
        let wide = bytes as u64;
        if self.used_payload_bytes > self.max_payload_bytes || wide > self.max_payload_bytes
            - self.used_payload_bytes {
            return Err(BudgetResource::PayloadBytes);
        }
        self.used_payload_bytes = self.used_payload_bytes + wide;
        Ok(())
    }
}

/// The depth of the children of a node at `depth`, saturating.
pub open spec fn child_depth(depth: u64) -> u64 {
    if depth == u64::MAX {
        depth
    } else {
        (depth + 1) as u64
    }
}

/// Bytes charged for a float number: the longest text a 64-bit float can
/// display as (`-2.2250738585072014e-308`).
pub const FLOAT_TEXT_BYTES: usize = 24;

/// Bytes of the text of a JSON number: the decimal text of an integer, and
/// [`FLOAT_TEXT_BYTES`] for a float.
pub open spec fn number_text_bytes(n: JsonNumber) -> nat {
    match n {
        JsonNumber::PosInt(u) => decimal_text(u as int).len(),
        JsonNumber::NegInt(i) => decimal_text(i as int).len(),
        JsonNumber::Float(_) => FLOAT_TEXT_BYTES as nat,
    }
}

/// Number of decimal digits of `n`.
pub fn decimal_digit_count(n: u128) -> (r: usize)
    ensures
        r == decimal_digits(n as nat).len(),
        r <= 39,
{
    proof {
        lemma_digits_bound(n as nat);
    }
    let mut rest = n;
    let mut count: usize = 1;
    while rest >= 10
        invariant
            count >= 1,
            decimal_digits(n as nat).len() <= 39,
            decimal_digits(rest as nat).len() >= 1,
            decimal_digits(n as nat).len() == (count - 1) + decimal_digits(rest as nat).len(),
        decreases rest,
    {
        assert(decimal_digits(rest as nat) == decimal_digits((rest / 10) as nat).push(
            digit_char((rest % 10) as int),
        ));
        rest = rest / 10;
        count = count + 1;
    }
    count
}

/// A `u128` has at most 39 decimal digits.
proof fn lemma_digits_bound(n: nat)
    requires
        n <= u128::MAX,
    ensures
        1 <= decimal_digits(n).len() <= 39,
{
    reveal_with_fuel(pow, 40);
    assert(pow(10, 39) == 1_000_000_000_000_000_000_000_000_000_000_000_000_000int);
    lemma_digits_len_pow(n, 39);
}

/// Below `10^k`, a number has at most `k` digits.
proof fn lemma_digits_len_pow(n: nat, k: nat)
    requires
        k >= 1,
        n < pow(10, k),
    ensures
        1 <= decimal_digits(n).len() <= k,
    decreases k,
{
    reveal(pow);
    if n >= 10 {
        assert(k >= 2) by {
            if k == 1 {
                assert(pow(10, 1) == 10 * pow(10, 0));
            }
        }
        assert(pow(10, k) == 10 * pow(10, (k - 1) as nat));
        assert(n / 10 < pow(10, (k - 1) as nat));
        lemma_digits_len_pow(n / 10, (k - 1) as nat);
    }
}

/// Bytes of the decimal text of an integer.
pub fn decimal_text_bytes(value: i128) -> (r: usize)
    ensures
        r == decimal_text(value as int).len(),
{
    if value < 0 {
        let magnitude: u128 = if value == i128::MIN { 0x8000_0000_0000_0000_0000_0000_0000_0000 } else { (-value) as u128 };
        let digits = decimal_digit_count(magnitude);
        digits + 1
    } else {
        decimal_digit_count(value as u128)
    }
}

/// Payload bytes of a JSON node: the UTF-8 bytes of a string or of the text
/// of a number; none for other nodes.
pub open spec fn json_node_bytes(j: JsonModel) -> nat {
    match j {
        JsonModel::String(s) => encode_utf8(s).len(),
        JsonModel::Number(n) => number_text_bytes(n),
        _ => 0,
    }
}

/// Charging a JSON document at `depth`: the node itself, then its elements,
/// or for each member its key and then its value, at the next depth; the
/// first refusal, if any, and the budget with every charge made before it.
pub open spec fn account_json(j: JsonModel, depth: u64, b: StructureBudget) -> (Option<BudgetResource>, StructureBudget)
    decreases j, 1int,
{
    match node_admission(b, depth, j) {
        Err(e) => (Some(e), b),
        Ok(b1) => match j {
            JsonModel::Array(x) => account_elements(x, child_depth(depth), b1),
            JsonModel::Object(x) => account_members(x, child_depth(depth), b1),
            _ => (None, b1),
        },
    }
}

/// Charging the elements of an array, in order.
pub open spec fn account_elements(x: Seq<JsonModel>, depth: u64, b: StructureBudget) -> (Option<BudgetResource>, StructureBudget)
    decreases x, 0int,
{
    if x.len() == 0 {
        (None, b)
    } else {
        let first = account_json(x[0], depth, b);
        if first.0 is Some {
            first
        } else {
            account_elements(x.drop_first(), depth, first.1)
        }
    }
}

/// Charging the members of an object, in order: each key, then its value.
pub open spec fn account_members(x: Seq<(Seq<char>, JsonModel)>, depth: u64, b: StructureBudget) -> (Option<BudgetResource>, StructureBudget)
    decreases x, 0int,
{
    if x.len() == 0 {
        (None, b)
    } else {
        match key_outcome(b, encode_utf8(x[0].0).len()) {
            Err(e) => (Some(e), b),
            Ok(b1) => {
                let first = account_json(x[0].1, depth, b1);
                if first.0 is Some {
                    first
                } else {
                    account_members(x.drop_first(), depth, first.1)
                }
            },
        }
    }
}

/// Outcome of a budget result: the refusing resource, if any, and the
/// budget after.
pub open spec fn node_charge(b: StructureBudget, depth: u64, bytes: nat) -> (Option<BudgetResource>, StructureBudget) {
    match node_outcome(b, depth, bytes) {
        Err(e) => (Some(e), b),
        Ok(b1) => (None, b1),
    }
}

/// Charging the children of a pending container that are still to come.
spec fn account_pending(f: (JsonModel, nat, u64), b: StructureBudget) -> (Option<BudgetResource>, StructureBudget) {
    match f.0 {
        JsonModel::Array(x) => account_elements(x.skip(f.1 as int), f.2, b),
        JsonModel::Object(x) => account_members(x.skip(f.1 as int), f.2, b),
        _ => (None, b),
    }
}

/// Charging a stack of pending containers, the innermost (last) first.
spec fn account_stack(s: Seq<(JsonModel, nat, u64)>, b: StructureBudget) -> (Option<BudgetResource>, StructureBudget)
    decreases s.len(),
{
    if s.len() == 0 {
        (None, b)
    } else {
        let c = account_pending(s.last(), b);
        if c.0 is Some {
            c
        } else {
            account_stack(s.drop_last(), c.1)
        }
    }
}

/// Pushing a pending container charges it first, then the rest.
proof fn lemma_account_push(s: Seq<(JsonModel, nat, u64)>, p: (JsonModel, nat, u64), b: StructureBudget)
    ensures
        account_stack(s.push(p), b) == ({
            let c = account_pending(p, b);
            if c.0 is Some {
                c
            } else {
                account_stack(s, c.1)
            }
        }),
        stack_weight(s.push(p)) == stack_weight(s) + pending_weight(p),
{
    assert(s.push(p).drop_last() =~= s);
    lemma_weight_push(s, p);
}

/// Replacing the innermost pending container by one that continues it after
/// a step `c` keeps the outcome of the stack.
proof fn lemma_account_step(
    s0: Seq<(JsonModel, nat, u64)>,
    s1: Seq<(JsonModel, nat, u64)>,
    b0: StructureBudget,
    c: (Option<BudgetResource>, StructureBudget),
)
    requires
        s0.len() > 0,
        s1.len() == s0.len(),
        s1.drop_last() == s0.drop_last(),
        account_pending(s0.last(), b0) == (if c.0 is Some {
            c
        } else {
            account_pending(s1.last(), c.1)
        }),
    ensures
        account_stack(s0, b0) == (if c.0 is Some {
            c
        } else {
            account_stack(s1, c.1)
        }),
        stack_weight(s0) == stack_weight(s0.drop_last()) + pending_weight(s0.last()),
        stack_weight(s1) == stack_weight(s0.drop_last()) + pending_weight(s1.last()),
{
}

/// Charges the node of a document that is not a container.
fn charge_leaf(value: &JsonValue, depth: u64, budget: &mut StructureBudget) -> (r: Result<(), BudgetResource>)
    requires
        !(value is Array),
        !(value is Object),
    ensures
        ({
            let out = account_json(value@, depth, *old(budget));
            &&& r == match out.0 {
                Some(e) => Err::<(), BudgetResource>(e),
                None => Ok(()),
            }
            &&& *final(budget) == out.1
        }),
{
    proof {
        lemma_model_kind(*value);
    }
    let bytes: usize = match value {
        JsonValue::String(s) => s.as_str().as_bytes().len(),
        JsonValue::Number(n) => match n {
            JsonNumber::PosInt(u) => decimal_text_bytes(*u as i128),
            JsonNumber::NegInt(i) => decimal_text_bytes(*i as i128),
            JsonNumber::Float(_) => FLOAT_TEXT_BYTES,
        },
        _ => 0,
    };
    assert(bytes == json_node_bytes(value@));
    match budget.admit_node(depth, bytes) {
        Ok(()) => Ok(()),
        Err(e) => Err(e),
    }
}

/// Charges a container node, and pushes it to be walked.
fn charge_container<'a>(
    value: &'a JsonValue,
    depth: u64,
    budget: &mut StructureBudget,
    stack: &mut Vec<Pending<'a>>,
) -> (r: Result<(), BudgetResource>)
    requires
        value is Array || value is Object,
        forall|i: int| 0 <= i < old(stack)@.len() ==> pending_wf(#[trigger] old(stack)@[i]),
    ensures
        forall|i: int| 0 <= i < final(stack)@.len() ==> pending_wf(#[trigger] final(stack)@[i]),
        ({
            let n = match node_admission(*old(budget), depth, value@) {
                Err(e) => (Some(e), *old(budget)),
                Ok(b1) => (None, b1),
            };
            &&& r == match n.0 {
                Some(e) => Err::<(), BudgetResource>(e),
                None => Ok(()),
            }
            &&& *final(budget) == n.1
            &&& account_json(value@, depth, *old(budget)) == if n.0 is Some {
                n
            } else {
                account_pending((value@, 0nat, child_depth(depth)), n.1)
            }
            &&& r is Ok ==> stack_model(final(stack)@) == stack_model(old(stack)@).push(
                (value@, 0nat, child_depth(depth)),
            )
            &&& 1 + pending_weight((value@, 0nat, child_depth(depth))) == 2 * json_size(value@)
        }),
{
    proof {
        lemma_model_kind(*value);
        if value is Array {
            assert(value@->Array_0.skip(0) =~= value@->Array_0);
        } else {
            assert(value@->Object_0.skip(0) =~= value@->Object_0);
        }
        assert(json_node_bytes(value@) == 0);
    }
    let ghost s = stack_model(stack@);
    let next: u64 = if depth == u64::MAX {
        depth
    } else {
        depth + 1
    };
    let admitted = match value {
        JsonValue::Array(x) => budget.admit_container(depth, false, x.len()),
        JsonValue::Object(m) => budget.admit_container(depth, true, m.len()),
        _ => Ok(()),
    };
    if let Err(e) = admitted {
        return Err(e);
    }
    match value {
        JsonValue::Array(x) => {
            stack.push(Pending::Elements(x, 0, next));
            proof {
                let xm = value@->Array_0;
                assert(xm.skip(0) =~= xm);
                assert(stack_model(stack@) =~= s.push(pending_model(Pending::Elements(x, 0, next))));
            }
        },
        JsonValue::Object(m) => {
            stack.push(Pending::Members(m, 0, next));
            proof {
                let xm = value@->Object_0;
                assert(xm.skip(0) =~= xm);
                assert(stack_model(stack@) =~= s.push(pending_model(Pending::Members(m, 0, next))));
            }
        },
        _ => {},
    }
    Ok(())
}

/// Charges a JSON document at `depth` in pre-order and returns the first
/// refusal; the budget keeps every charge made before it. The walk keeps a
/// stack of pending containers, so nesting does not deepen the call stack.
pub fn charge_json(value: &JsonValue, depth: u64, budget: &mut StructureBudget) -> (r: Result<(), BudgetResource>)
    ensures
        ({
            let out = account_json(value@, depth, *old(budget));
            &&& r == match out.0 {
                Some(e) => Err::<(), BudgetResource>(e),
                None => Ok(()),
            }
            &&& *final(budget) == out.1
        }),
{
    proof {
        lemma_model_kind(*value);
    }
    let mut stack: Vec<Pending> = Vec::new();
    if !(value.is_container()) {
        return charge_leaf(value, depth, budget);
    }
    let ghost b_start = *budget;
    charge_container(value, depth, budget, &mut stack)?;
    proof {
        let p = (value@, 0nat, child_depth(depth));
        lemma_account_push(Seq::<(JsonModel, nat, u64)>::empty(), p, *budget);
        assert(Seq::<(JsonModel, nat, u64)>::empty().push(p) =~= stack_model(stack@));
        let c = account_pending(p, *budget);
        if c.0 is None {
            assert(account_stack(Seq::<(JsonModel, nat, u64)>::empty(), c.1) == c);
        }
    }
    while stack.len() > 0
        invariant
            account_json(value@, depth, *old(budget)) == account_stack(stack_model(stack@), *budget),
            forall|i: int| 0 <= i < stack@.len() ==> pending_wf(#[trigger] stack@[i]),
        decreases stack_weight(stack_model(stack@)),
    {
        let ghost s0 = stack_model(stack@);
        let ghost b0 = *budget;
        let top = stack.len() - 1;
        let frame = stack[top];
        assert(pending_wf(stack@[top as int]));
        assert(s0.last() == pending_model(frame));
        let (child, d): (&JsonValue, u64) = match frame {
            Pending::Elements(v, k, d) => {
                let ghost xm = JsonValue::Array(*v)@->Array_0;
                if k == v.len() {
                    stack.pop();
                    proof {
                        assert(xm.skip(k as int) =~= Seq::<JsonModel>::empty());
                        assert(stack_model(stack@) =~= s0.drop_last());
                    }
                    continue;
                }
                stack.set(top, Pending::Elements(v, k + 1, d));
                proof {
                    let s1 = stack_model(stack@);
                    assert(xm.skip(k as int)[0] == v@[k as int]@);
                    assert(xm.skip(k as int).drop_first() =~= xm.skip(k + 1));
                    assert(s1.drop_last() =~= s0.drop_last());
                    assert(s1.last() == pending_model(Pending::Elements(v, (k + 1) as usize, d)));
                    assert(elements_size(xm.skip(k as int)) == json_size(v@[k as int]@) + elements_size(
                        xm.skip(k + 1),
                    ));
                    lemma_account_step(s0, s1, b0, account_json(v@[k as int]@, d, b0));
                }
                (&v[k], d)
            },
            Pending::Members(v, k, d) => {
                let ghost xm = JsonValue::Object(*v)@->Object_0;
                if k == v.len() {
                    stack.pop();
                    proof {
                        assert(xm.skip(k as int) =~= Seq::<(Seq<char>, JsonModel)>::empty());
                        assert(stack_model(stack@) =~= s0.drop_last());
                    }
                    continue;
                }
                stack.set(top, Pending::Members(v, k + 1, d));
                let ghost key = key_outcome(b0, encode_utf8(v@[k as int].0@).len());
                proof {
                    let s1 = stack_model(stack@);
                    assert(xm.skip(k as int)[0] == (v@[k as int].0@, v@[k as int].1@));
                    assert(xm.skip(k as int).drop_first() =~= xm.skip(k + 1));
                    assert(s1.drop_last() =~= s0.drop_last());
                    assert(s1.last() == pending_model(Pending::Members(v, (k + 1) as usize, d)));
                    assert(members_size(xm.skip(k as int)) == json_size(v@[k as int].1@) + members_size(
                        xm.skip(k + 1),
                    ));
                }
                budget.admit_key(v[k].0.as_str().as_bytes().len())?;
                proof {
                    let s1 = stack_model(stack@);
                    lemma_account_step(s0, s1, b0, account_json(v@[k as int].1@, d, key->Ok_0));
                }
                (&v[k].1, d)
            },
        };
        let ghost s1 = stack_model(stack@);
        let ghost b1 = *budget;
        if child.is_container() {
            charge_container(child, d, budget, &mut stack)?;
            proof {
                lemma_account_push(s1, (child@, 0nat, child_depth(d)), *budget);
            }
        } else {
            charge_leaf(child, d, budget)?;
        }
    }
    Ok(())
}

} // verus!

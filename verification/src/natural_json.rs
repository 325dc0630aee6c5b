//! Natural JSON projection: `null` for an unset value, JSON numbers, strings,
//! objects and arrays without type tags, each node charged to a
//! [`ProjectionBudget`] in pre-order before any output is kept.

use vstd::arithmetic::power2::{lemma2_to64, lemma_pow2_strictly_increases, lemma_pow2_unfold, pow2};
use vstd::prelude::*;
use vstd::string::{StrSliceExecFns, StringSliceAdditionalSpecFns};
use vstd::utf8::encode_utf8;

use crate::big_number_hash::{decimal_digits, decimal_string, decimal_text, digit_char};
use crate::float_identity::{f32_is_finite, f64_is_finite};
use crate::json_budget::{child_depth, decimal_text_bytes, number_text_bytes, BudgetResource, FLOAT_TEXT_BYTES};
use crate::json_projection::{
    charged,
    display_step,
    default_limits_spec,
    fresh_budget,
    container_step,
    item_step,
    node_step,
    text_step,
    Charge,
    ProjectionBudget,
    ProjectionLimits,
};
use crate::json_value::{
    elements_size,
    json_size,
    lemma_model_kind,
    lemma_weight_push,
    members_size,
    pending_model,
    pending_weight,
    pending_wf,
    stack_model,
    stack_weight,
    JsonModel,
    JsonNumber,
    JsonValue,
    Pending,
};
use crate::payload::{limbs_value, signed_value, BigIntegerValue, Float64Value};
use crate::string_map::{entries_model, StringMapModel, StringMapValue};
use crate::data_type::DataType;
use crate::multi_values::{MultiValues, MultiValuesModel, MultiValuesRef};
use crate::value::{Value, ValueModel};
use crate::value_error::{ValueError, ValueResult};

verus! {

/// Why a value was not projected.
#[derive(Debug, Clone, Copy, PartialEq, Eq, Structural)]
pub enum ProjectionFault {
    /// A limit of the budget refused a charge.
    Limit(BudgetResource),
    /// The value has no JSON form.
    Invalid,
}

/// Outcome of a projection step: the fault, if any, and the budget after.
pub type Outcome = (Option<ProjectionFault>, ProjectionBudget);

/// A budget charge as a projection step.
pub open spec fn lifted(c: Charge) -> Outcome {
    (
        match c.0 {
            Some(e) => Some(ProjectionFault::Limit(e)),
            None => None,
        },
        c.1,
    )
}

/// Admitting a JSON document at `depth`: the node, then its elements, or for
/// each member its key and then its value, at the next depth; strings as
/// source text and numbers by the length of their text. The first refusal,
/// if any, and the budget with every charge made before it.
pub open spec fn admit_outcome(j: JsonModel, depth: u64, b: ProjectionBudget) -> Charge
    decreases j, 1int,
{
    match j {
        JsonModel::Number(n) => display_step(b, number_text_bytes(n), depth),
        JsonModel::String(s) => text_step(b, encode_utf8(s).len(), depth, false),
        JsonModel::Array(x) => {
            let c = container_step(b, depth, false, x.len());
            if c.0 is Some {
                c
            } else {
                admit_elements(x, child_depth(depth), c.1)
            }
        },
        JsonModel::Object(x) => {
            let c = container_step(b, depth, true, x.len());
            if c.0 is Some {
                c
            } else {
                admit_members(x, child_depth(depth), c.1)
            }
        },
        _ => node_step(b, depth, 0),
    }
}

/// Admitting the elements of an array, in order.
pub open spec fn admit_elements(x: Seq<JsonModel>, depth: u64, b: ProjectionBudget) -> Charge
    decreases x, 0int,
{
    if x.len() == 0 {
        (None, b)
    } else {
        let first = admit_outcome(x[0], depth, b);
        if first.0 is Some {
            first
        } else {
            admit_elements(x.drop_first(), depth, first.1)
        }
    }
}

/// Admitting the members of an object, in order: each key as text, then its
/// value.
pub open spec fn admit_members(x: Seq<(Seq<char>, JsonModel)>, depth: u64, b: ProjectionBudget) -> Charge
    decreases x, 0int,
{
    if x.len() == 0 {
        (None, b)
    } else {
        let k = text_step(b, encode_utf8(x[0].0).len(), depth, true);
        if k.0 is Some {
            k
        } else {
            let first = admit_outcome(x[0].1, depth, k.1);
            if first.0 is Some {
                first
            } else {
                admit_members(x.drop_first(), depth, first.1)
            }
        }
    }
}

/// Admitting the children of a pending container that are still to come.
spec fn pending_outcome(f: (JsonModel, nat, u64), b: ProjectionBudget) -> Charge {
    match f.0 {
        JsonModel::Array(x) => admit_elements(x.skip(f.1 as int), f.2, b),
        JsonModel::Object(x) => admit_members(x.skip(f.1 as int), f.2, b),
        _ => (None, b),
    }
}

/// Admitting a stack of pending containers, the innermost (last) first.
spec fn stack_outcome(s: Seq<(JsonModel, nat, u64)>, b: ProjectionBudget) -> Charge
    decreases s.len(),
{
    if s.len() == 0 {
        (None, b)
    } else {
        let c = pending_outcome(s.last(), b);
        if c.0 is Some {
            c
        } else {
            stack_outcome(s.drop_last(), c.1)
        }
    }
}

/// Pushing a pending container runs it first, then the rest of the stack.
proof fn lemma_stack_push(s: Seq<(JsonModel, nat, u64)>, p: (JsonModel, nat, u64), b: ProjectionBudget)
    ensures
        stack_outcome(s.push(p), b) == ({
            let c = pending_outcome(p, b);
            if c.0 is Some {
                c
            } else {
                stack_outcome(s, c.1)
            }
        }),
        stack_weight(s.push(p)) == stack_weight(s) + pending_weight(p),
{
    assert(s.push(p).drop_last() =~= s);
    lemma_weight_push(s, p);
}

/// Replacing the innermost pending container by one that continues it after
/// a step `c` keeps the outcome of the stack.
proof fn lemma_stack_step(
    s0: Seq<(JsonModel, nat, u64)>,
    s1: Seq<(JsonModel, nat, u64)>,
    b0: ProjectionBudget,
    c: Charge,
)
    requires
        s0.len() > 0,
        s1.len() == s0.len(),
        s1.drop_last() == s0.drop_last(),
        pending_outcome(s0.last(), b0) == (if c.0 is Some {
            c
        } else {
            pending_outcome(s1.last(), c.1)
        }),
    ensures
        stack_outcome(s0, b0) == (if c.0 is Some {
            c
        } else {
            stack_outcome(s1, c.1)
        }),
        stack_weight(s0) == stack_weight(s0.drop_last()) + pending_weight(s0.last()),
        stack_weight(s1) == stack_weight(s0.drop_last()) + pending_weight(s1.last()),
{
}

/// Admits a document that is not a container.
fn admit_leaf(value: &JsonValue, depth: u64, budget: &mut ProjectionBudget) -> (r: Result<(), BudgetResource>)
    requires
        !(value is Array),
        !(value is Object),
    ensures
        charged(admit_outcome(value@, depth, *old(budget)), r, *final(budget)),
{
    proof {
        lemma_model_kind(*value);
    }
    match value {
        JsonValue::Number(n) => {
            let len: usize = match n {
                JsonNumber::PosInt(u) => decimal_text_bytes(*u as i128),
                JsonNumber::NegInt(i) => decimal_text_bytes(*i as i128),
                JsonNumber::Float(_) => FLOAT_TEXT_BYTES,
            };
            budget.display_text(len, depth)
        },
        JsonValue::String(t) => budget.text(t.as_str(), depth, false),
        _ => budget.admit_node(depth, 0),
    }
}

/// Admits a JSON document at `depth` in pre-order and returns the first
/// refusal; the budget keeps every charge made before it. The traversal
/// keeps a stack of pending containers, so nesting does not deepen the call
/// stack.
pub fn admit_json(value: &JsonValue, depth: u64, budget: &mut ProjectionBudget) -> (r: Result<(), BudgetResource>)
    ensures
        charged(admit_outcome(value@, depth, *old(budget)), r, *final(budget)),
{
    proof {
        lemma_model_kind(*value);
    }
    let next: u64 = if depth == u64::MAX {
        depth
    } else {
        depth + 1
    };
    let mut stack: Vec<Pending> = Vec::new();
    match value {
        JsonValue::Array(x) => {
            proof {
                let c = container_step(*budget, depth, false, x@.len());
                assert(admit_outcome(value@, depth, *budget) == if c.0 is Some {
                    c
                } else {
                    admit_elements(value@->Array_0, child_depth(depth), c.1)
                });
            }
            budget.admit_container(depth, false, x.len())?;
            stack.push(Pending::Elements(x, 0, next));
            proof {
                let xm = value@->Array_0;
                assert(xm.skip(0) =~= xm);
                let pm = pending_model(Pending::Elements(x, 0, next));
                assert(*value == JsonValue::Array(*x));
                assert(pm.0 == value@);
                assert(stack_model(stack@) =~= Seq::<(JsonModel, nat, u64)>::empty().push(pm));
                lemma_stack_push(Seq::<(JsonModel, nat, u64)>::empty(), pm, *budget);
                let c = pending_outcome(pm, *budget);
                assert(c == admit_elements(xm, next, *budget));
                if c.0 is None {
                    assert(stack_outcome(Seq::<(JsonModel, nat, u64)>::empty(), c.1) == c);
                }
            }
        },
        JsonValue::Object(m) => {
            proof {
                let c = container_step(*budget, depth, true, m@.len());
                assert(admit_outcome(value@, depth, *budget) == if c.0 is Some {
                    c
                } else {
                    admit_members(value@->Object_0, child_depth(depth), c.1)
                });
            }
            budget.admit_container(depth, true, m.len())?;
            stack.push(Pending::Members(m, 0, next));
            proof {
                let xm = value@->Object_0;
                assert(xm.skip(0) =~= xm);
                let pm = pending_model(Pending::Members(m, 0, next));
                assert(*value == JsonValue::Object(*m));
                assert(pm.0 == value@);
                assert(stack_model(stack@) =~= Seq::<(JsonModel, nat, u64)>::empty().push(pm));
                lemma_stack_push(Seq::<(JsonModel, nat, u64)>::empty(), pm, *budget);
                let c = pending_outcome(pm, *budget);
                assert(c == admit_members(xm, next, *budget));
                if c.0 is None {
                    assert(stack_outcome(Seq::<(JsonModel, nat, u64)>::empty(), c.1) == c);
                }
            }
        },
        _ => {
            return admit_leaf(value, depth, budget);
        },
    }
    while stack.len() > 0
        invariant
            admit_outcome(value@, depth, *old(budget)) == stack_outcome(stack_model(stack@), *budget),
            forall|i: int| 0 <= i < stack@.len() ==> pending_wf(#[trigger] stack@[i]),
        decreases stack_weight(stack_model(stack@)),
    {
        let ghost s0 = stack_model(stack@);
        let ghost b0 = *budget;
        let top = stack.len() - 1;
        let frame = stack[top];
        assert(pending_wf(stack@[top as int]));
        assert(s0.last() == pending_model(frame));
        match frame {
            Pending::Elements(v, k, d) => {
                let ghost xm = JsonValue::Array(*v)@->Array_0;
                if k == v.len() {
                    stack.pop();
                    proof {
                        assert(xm.skip(k as int) =~= Seq::<JsonModel>::empty());
                        assert(stack_model(stack@) =~= s0.drop_last());
                    }
                    continue;
                }
                stack.set(top, Pending::Elements(v, k + 1, d));
                let ghost s1 = stack_model(stack@);
                let child = &v[k];
                proof {
                    lemma_model_kind(*child);
                    assert(xm.skip(k as int)[0] == child@);
                    assert(xm.skip(k as int).drop_first() =~= xm.skip(k + 1));
                    assert(s1.drop_last() =~= s0.drop_last());
                    assert(s1.last() == pending_model(Pending::Elements(v, (k + 1) as usize, d)));
                    assert(elements_size(xm.skip(k as int)) == json_size(child@) + elements_size(xm.skip(k + 1)));
                    lemma_stack_step(s0, s1, b0, admit_outcome(child@, d, b0));
                }
                let child_depth_value: u64 = if d == u64::MAX {
                    d
                } else {
                    d + 1
                };
                match child {
                    JsonValue::Array(cx) => {
                        let ghost n = container_step(*budget, d, false, cx@.len());
                        proof {
                            assert(admit_outcome(child@, d, *budget) == if n.0 is Some {
                                n
                            } else {
                                admit_elements(child@->Array_0, child_depth(d), n.1)
                            });
                        }
                        budget.admit_container(d, false, cx.len())?;
                        stack.push(Pending::Elements(cx, 0, child_depth_value));
                        proof {
                            let cm = child@->Array_0;
                            assert(cm.skip(0) =~= cm);
                            assert(stack_model(stack@) =~= s1.push(pending_model(Pending::Elements(cx, 0, child_depth_value))));
                            lemma_stack_push(s1, pending_model(Pending::Elements(cx, 0, child_depth_value)), *budget);
                        }
                    },
                    JsonValue::Object(cm) => {
                        let ghost n = container_step(*budget, d, true, cm@.len());
                        proof {
                            assert(admit_outcome(child@, d, *budget) == if n.0 is Some {
                                n
                            } else {
                                admit_members(child@->Object_0, child_depth(d), n.1)
                            });
                        }
                        budget.admit_container(d, true, cm.len())?;
                        stack.push(Pending::Members(cm, 0, child_depth_value));
                        proof {
                            let mm = child@->Object_0;
                            assert(mm.skip(0) =~= mm);
                            assert(stack_model(stack@) =~= s1.push(pending_model(Pending::Members(cm, 0, child_depth_value))));
                            lemma_stack_push(s1, pending_model(Pending::Members(cm, 0, child_depth_value)), *budget);
                        }
                    },
                    _ => {
                        admit_leaf(child, d, budget)?;
                    },
                }
            },
            Pending::Members(v, k, d) => {
                let ghost xm = JsonValue::Object(*v)@->Object_0;
                if k == v.len() {
                    stack.pop();
                    proof {
                        assert(xm.skip(k as int) =~= Seq::<(Seq<char>, JsonModel)>::empty());
                        assert(stack_model(stack@) =~= s0.drop_last());
                    }
                    continue;
                }
                stack.set(top, Pending::Members(v, k + 1, d));
                let ghost s1 = stack_model(stack@);
                let child = &v[k].1;
                proof {
                    lemma_model_kind(*child);
                    assert(xm.skip(k as int)[0] == (v@[k as int].0@, child@));
                    assert(xm.skip(k as int).drop_first() =~= xm.skip(k + 1));
                    assert(s1.drop_last() =~= s0.drop_last());
                    assert(s1.last() == pending_model(Pending::Members(v, (k + 1) as usize, d)));
                    assert(members_size(xm.skip(k as int)) == json_size(child@) + members_size(xm.skip(k + 1)));
                }
                let ghost key = text_step(b0, encode_utf8(v@[k as int].0@).len(), d, true);
                budget.text(v[k].0.as_str(), d, true)?;
                proof {
                    lemma_stack_step(s0, s1, b0, admit_outcome(child@, d, key.1));
                }
                let child_depth_value: u64 = if d == u64::MAX {
                    d
                } else {
                    d + 1
                };
                match child {
                    JsonValue::Array(cx) => {
                        let ghost n = container_step(*budget, d, false, cx@.len());
                        proof {
                            assert(admit_outcome(child@, d, *budget) == if n.0 is Some {
                                n
                            } else {
                                admit_elements(child@->Array_0, child_depth(d), n.1)
                            });
                        }
                        budget.admit_container(d, false, cx.len())?;
                        stack.push(Pending::Elements(cx, 0, child_depth_value));
                        proof {
                            let cm = child@->Array_0;
                            assert(cm.skip(0) =~= cm);
                            assert(stack_model(stack@) =~= s1.push(pending_model(Pending::Elements(cx, 0, child_depth_value))));
                            lemma_stack_push(s1, pending_model(Pending::Elements(cx, 0, child_depth_value)), *budget);
                        }
                    },
                    JsonValue::Object(cm) => {
                        let ghost n = container_step(*budget, d, true, cm@.len());
                        proof {
                            assert(admit_outcome(child@, d, *budget) == if n.0 is Some {
                                n
                            } else {
                                admit_members(child@->Object_0, child_depth(d), n.1)
                            });
                        }
                        budget.admit_container(d, true, cm.len())?;
                        stack.push(Pending::Members(cm, 0, child_depth_value));
                        proof {
                            let mm = child@->Object_0;
                            assert(mm.skip(0) =~= mm);
                            assert(stack_model(stack@) =~= s1.push(pending_model(Pending::Members(cm, 0, child_depth_value))));
                            lemma_stack_push(s1, pending_model(Pending::Members(cm, 0, child_depth_value)), *budget);
                        }
                    },
                    _ => {
                        admit_leaf(child, d, budget)?;
                    },
                }
            },
        }
    }
    Ok(())
}

/// Text of `chrono::NaiveDate::from_num_days_from_ce_opt(days_from_ce)` as
/// its `Display` writes it; `None` when chrono has no such date.
pub uninterp spec fn date_display(days_from_ce: i32) -> Option<Seq<char>>;

/// Text of `chrono::NaiveTime::from_num_seconds_from_midnight_opt(secs,
/// nanos)` as its `Display` writes it; `None` when chrono has no such time.
pub uninterp spec fn time_display(secs: u32, nanos: u32) -> Option<Seq<char>>;

/// Text of the `chrono::NaiveDateTime` of that date and time as its
/// `Display` writes it; `None` when either part does not exist.
pub uninterp spec fn date_time_display(days_from_ce: i32, secs: u32, nanos: u32) -> Option<Seq<char>>;

/// Text of the `chrono::DateTime<Utc>` of that UTC date and time as its
/// `Display` writes it; `None` when either part does not exist.
pub uninterp spec fn instant_display(days_from_ce: i32, secs: u32, nanos: u32) -> Option<Seq<char>>;

/// Text of `qubit_datatype::DataConverter::from(Duration::new(secs,
/// nanos)).to::<String>()` under the default conversion policy and limits;
/// `None` when that conversion fails.
pub uninterp spec fn duration_display(secs: u64, nanos: u32) -> Option<Seq<char>>;

/// Text of the `bigdecimal::BigDecimal` of that coefficient (sign flag and
/// base-2^32 limbs) and scale as its `Display` writes it.
pub uninterp spec fn big_decimal_display(negative: bool, magnitude: Seq<u32>, scale: i64) -> Seq<char>;

/// The text of an optional string.
pub open spec fn option_text(r: Option<String>) -> Option<Seq<char>> {
    match r {
        Some(s) => Some(s@),
        None => None,
    }
}

/// Renders a date with `chrono::NaiveDate::from_num_days_from_ce_opt` and
/// `to_string`.
///
/// Trusted claim: the result is what `date_display` names; it depends on
/// the day number alone.
#[verifier::external_body]
fn render_date(days_from_ce: i32) -> (r: Option<String>)
    ensures
        option_text(r) == date_display(days_from_ce),
{
    match chrono::NaiveDate::from_num_days_from_ce_opt(days_from_ce) {
        Some(date) => Some(date.to_string()),
        None => None,
    }
}

/// Renders a time of day with
/// `chrono::NaiveTime::from_num_seconds_from_midnight_opt` and `to_string`.
///
/// Trusted claim: the result is what `time_display` names.
#[verifier::external_body]
fn render_time(secs: u32, nanos: u32) -> (r: Option<String>)
    ensures
        option_text(r) == time_display(secs, nanos),
{
    match chrono::NaiveTime::from_num_seconds_from_midnight_opt(secs, nanos) {
        Some(time) => Some(time.to_string()),
        None => None,
    }
}

/// Renders a date and time with `chrono::NaiveDateTime::new` of the two
/// parts and `to_string`.
///
/// Trusted claim: the result is what `date_time_display` names.
#[verifier::external_body]
fn render_date_time(days_from_ce: i32, secs: u32, nanos: u32) -> (r: Option<String>)
    ensures
        option_text(r) == date_time_display(days_from_ce, secs, nanos),
{
    let date = chrono::NaiveDate::from_num_days_from_ce_opt(days_from_ce);
    let time = chrono::NaiveTime::from_num_seconds_from_midnight_opt(secs, nanos);
    match (date, time) {
        (Some(date), Some(time)) => Some(chrono::NaiveDateTime::new(date, time).to_string()),
        _ => None,
    }
}

/// Renders a UTC instant with `chrono::NaiveDateTime::and_utc` of the two
/// parts and `to_string`.
///
/// Trusted claim: the result is what `instant_display` names.
#[verifier::external_body]
fn render_instant(days_from_ce: i32, secs: u32, nanos: u32) -> (r: Option<String>)
    ensures
        option_text(r) == instant_display(days_from_ce, secs, nanos),
{
    let date = chrono::NaiveDate::from_num_days_from_ce_opt(days_from_ce);
    let time = chrono::NaiveTime::from_num_seconds_from_midnight_opt(secs, nanos);
    match (date, time) {
        (Some(date), Some(time)) => Some(chrono::NaiveDateTime::new(date, time).and_utc().to_string()),
        _ => None,
    }
}

/// Renders a duration with `qubit_datatype::DataConverter::to::<String>`.
///
/// Trusted claim: the result is what `duration_display` names; with
/// `nanos` below one second `Duration::new` does not panic.
#[verifier::external_body]
fn render_duration(secs: u64, nanos: u32) -> (r: Option<String>)
    requires
        nanos < 1_000_000_000,
    ensures
        option_text(r) == duration_display(secs, nanos),
{
    qubit_datatype::DataConverter::from(std::time::Duration::new(secs, nanos)).to::<String>().ok()
}

/// Renders a big decimal with `bigdecimal::BigDecimal::new` of the
/// coefficient (`num_bigint::BigInt::from_slice`) and scale, and
/// `to_string`.
///
/// Trusted claim: the result is what `big_decimal_display` names.
#[verifier::external_body]
fn render_big_decimal(v: &crate::payload::BigDecimalValue) -> (r: String)
    ensures
        r@ == big_decimal_display(v.coefficient.negative, v.coefficient.magnitude@, v.scale),
{
    let sign = if v.coefficient.negative { num_bigint::Sign::Minus } else { num_bigint::Sign::Plus };
    let coefficient = num_bigint::BigInt::from_slice(sign, &v.coefficient.magnitude);
    bigdecimal::BigDecimal::new(coefficient, v.scale).to_string()
}

/// The string of one character (`String::from(char)`).
///
/// Trusted claim: the string holds exactly that character.
#[verifier::external_body]
fn char_string(c: char) -> (r: String)
    ensures
        r@ == seq![c],
{
    String::from(c)
}

/// Doubling a subnormal fraction until its leading bit reaches the
/// implicit-bit position of a 24-bit significand, lowering the exponent once
/// per doubling.
pub open spec fn normalize_fraction(mant: nat, exp: int) -> (nat, int)
    decreases (if mant == 0 || mant >= 0x80_0000 {
        0
    } else {
        0x80_0000 - mant
    }),
{
    if mant == 0 || mant >= 0x80_0000 {
        (mant, exp)
    } else {
        normalize_fraction(mant * 2, exp - 1)
    }
}

/// The bits of the 64-bit float equal to the finite 32-bit float with bits
/// `bits`: the sign kept, the exponent rebiased (a subnormal normalized
/// first), the fraction widened by 29 bits.
pub open spec fn widened_f32_bits(bits: u32) -> int {
    let sign = (bits / 0x8000_0000) as int;
    let e = ((bits / 0x80_0000) % 0x100) as int;
    let m = (bits % 0x80_0000) as int;
    let high = sign * 0x8000_0000_0000_0000;
    if e == 0 && m == 0 {
        high
    } else if e == 0 {
        let n = normalize_fraction(m as nat, 897);
        high + n.1 * 0x10_0000_0000_0000 + (n.0 - 0x80_0000) * 0x2000_0000
    } else {
        high + (e + 896) * 0x10_0000_0000_0000 + m * 0x2000_0000
    }
}

/// Widens a finite 32-bit float, given by its bits, to the bits of the equal
/// 64-bit float.
pub fn widen_f32_bits(bits: u32) -> (r: u64)
    ensures
        r == widened_f32_bits(bits),
{
    let sign: u64 = (bits / 0x8000_0000) as u64;
    let e: u64 = ((bits / 0x80_0000) % 0x100) as u64;
    let m: u64 = (bits % 0x80_0000) as u64;
    let high: u64 = sign * 0x8000_0000_0000_0000;
    if e == 0 && m == 0 {
        high
    } else if e == 0 {
        let mut mant: u64 = m;
        let mut exp: u64 = 897;
        let ghost mut k: nat = 0;
        proof {
            lemma2_to64();
        }
        while mant < 0x80_0000
            invariant
                1 <= m < 0x80_0000,
                1 <= mant < 0x100_0000,
                exp + k == 897,
                k <= 23,
                mant >= pow2(k),
                pow2(23) == 0x80_0000,
                normalize_fraction(mant as nat, exp as int) == normalize_fraction(m as nat, 897),
            decreases 0x100_0000 - mant,
        {
            proof {
                if k >= 23 {
                    if k > 23 {
                        lemma_pow2_strictly_increases(23, k);
                    }
                    assert(false);
                }
                lemma_pow2_unfold(k + 1);
                assert(normalize_fraction(mant as nat, exp as int) == normalize_fraction(
                    (mant * 2) as nat,
                    exp - 1,
                ));
            }
            mant = mant * 2;
            exp = exp - 1;
            proof {
                k = k + 1;
            }
        }
        high + exp * 0x10_0000_0000_0000 + (mant - 0x80_0000) * 0x2000_0000
    } else {
        high + (e + 896) * 0x10_0000_0000_0000 + m * 0x2000_0000
    }
}

/// The JSON number of an integer, when `serde_json::Number` holds it: a
/// non-negative one up to `u64::MAX`, a negative one down to `i64::MIN`.
pub open spec fn integer_json(i: int) -> Option<JsonModel> {
    if 0 <= i <= u64::MAX {
        Some(JsonModel::Number(JsonNumber::PosInt(i as u64)))
    } else if i64::MIN <= i < 0 {
        Some(JsonModel::Number(JsonNumber::NegInt(i as i64)))
    } else {
        None
    }
}

/// The JSON number of a float given by its 64-bit bits: `None` when it is
/// not finite.
pub open spec fn float_json(bits: u64) -> Option<JsonModel> {
    if f64_is_finite(bits) {
        Some(JsonModel::Number(JsonNumber::Float(bits)))
    } else {
        None
    }
}

/// The text a value of a rendered type is written as: a character, a date,
/// a time, a date and time, an instant, a duration, a big number or a URL.
pub open spec fn rendered_text(v: ValueModel) -> Option<Seq<char>> {
    match v {
        ValueModel::Char(c) => Some(seq![c]),
        ValueModel::Date(d) => date_display(d.days_from_ce),
        ValueModel::Time(t) => time_display(t.secs_from_midnight, t.nanos),
        ValueModel::DateTime(x) => date_time_display(x.date.days_from_ce, x.time.secs_from_midnight, x.time.nanos),
        ValueModel::Instant(x) => instant_display(
            x.utc.date.days_from_ce,
            x.utc.time.secs_from_midnight,
            x.utc.time.nanos,
        ),
        ValueModel::Duration(d) => if d.nanos < 1_000_000_000 {
            duration_display(d.secs, d.nanos)
        } else {
            None
        },
        ValueModel::BigInteger(m) => Some(decimal_text(signed_value(m))),
        ValueModel::BigDecimal(m) => Some(big_decimal_display(m.0.0, m.0.1, m.1)),
        ValueModel::Url(u) => Some(u),
        _ => None,
    }
}

/// The number a value of a numeric type projects to, if it has one.
pub open spec fn number_json(v: ValueModel) -> Option<JsonModel> {
    match v {
        ValueModel::Int8(x) => integer_json(x as int),
        ValueModel::Int16(x) => integer_json(x as int),
        ValueModel::Int32(x) => integer_json(x as int),
        ValueModel::Int64(x) => integer_json(x as int),
        ValueModel::Int128(x) => integer_json(x as int),
        ValueModel::UInt8(x) => integer_json(x as int),
        ValueModel::UInt16(x) => integer_json(x as int),
        ValueModel::UInt32(x) => integer_json(x as int),
        ValueModel::UInt64(x) => integer_json(x as int),
        ValueModel::UInt128(x) => integer_json(x as int),
        ValueModel::Float32(f) => if f32_is_finite(f.bits) {
            float_json(widened_f32_bits(f.bits) as u64)
        } else {
            None
        },
        ValueModel::Float64(f) => float_json(f.bits),
        _ => None,
    }
}

/// The value belongs to a numeric type.
pub open spec fn is_number_type(v: ValueModel) -> bool {
    ||| v is Int8
    ||| v is Int16
    ||| v is Int32
    ||| v is Int64
    ||| v is Int128
    ||| v is UInt8
    ||| v is UInt16
    ||| v is UInt32
    ||| v is UInt64
    ||| v is UInt128
    ||| v is Float32
    ||| v is Float64
}

/// The members of the JSON object of a string map: each key with its value
/// as a JSON string, in the map's order.
pub open spec fn map_members(m: StringMapModel) -> Seq<(Seq<char>, JsonModel)> {
    Seq::new(m.len(), |i: int| (m[i].0, JsonModel::String(m[i].1)))
}

/// The natural JSON of a scalar: `null` for an unset value, a boolean, a
/// number, a string (texts, and the rendering of the other types), an
/// object for a string map and the document itself for JSON; `None` when
/// the value has no JSON form.
pub open spec fn scalar_json(v: ValueModel) -> Option<JsonModel> {
    match v {
        ValueModel::Unset(_) => Some(JsonModel::Null),
        ValueModel::Bool(b) => Some(JsonModel::Bool(b)),
        ValueModel::String(s) => Some(JsonModel::String(s)),
        ValueModel::StringMap(m) => Some(JsonModel::Object(map_members(m))),
        ValueModel::Json(j) => Some(j),
        _ => if is_number_type(v) {
            number_json(v)
        } else {
            match rendered_text(v) {
                Some(t) => Some(JsonModel::String(t)),
                None => None,
            }
        },
    }
}

/// Charging the entries of a string map: each key, then its value one level
/// deeper.
pub open spec fn map_charge(m: StringMapModel, depth: u64, b: ProjectionBudget) -> Charge
    decreases m.len(),
{
    if m.len() == 0 {
        (None, b)
    } else {
        let k = text_step(b, encode_utf8(m[0].0).len(), depth, true);
        if k.0 is Some {
            k
        } else {
            let v = text_step(k.1, encode_utf8(m[0].1).len(), child_depth(depth), false);
            if v.0 is Some {
                v
            } else {
                map_charge(m.drop_first(), depth, v.1)
            }
        }
    }
}

/// Charging one scalar at `depth`: the scalar itself, then its node (a
/// number by the length of its text, a rendered value by the length of its
/// rendering, a string as source text, a string map with its entries, a
/// JSON document node by node); a value without a JSON form is refused after
/// the scalar is charged.
pub open spec fn scalar_charge(v: ValueModel, depth: u64, b: ProjectionBudget) -> Outcome {
    let it = item_step(b);
    if it.0 is Some {
        lifted(it)
    } else {
        let b1 = it.1;
        match v {
            ValueModel::Unset(_) => lifted(node_step(b1, depth, 0)),
            ValueModel::Bool(_) => lifted(node_step(b1, depth, 0)),
            ValueModel::String(s) => lifted(text_step(b1, encode_utf8(s).len(), depth, false)),
            ValueModel::StringMap(m) => lifted(map_node_charge(m, depth, b1)),
            ValueModel::Json(j) => lifted(admit_outcome(j, depth, b1)),
            _ => if is_number_type(v) {
                match number_json(v) {
                    Some(JsonModel::Number(n)) => lifted(display_step(b1, number_text_bytes(n), depth)),
                    _ => (Some(ProjectionFault::Invalid), b1),
                }
            } else {
                match number_limit(v, b1.limits) {
                    Some(e) => (Some(ProjectionFault::Limit(e)), b1),
                    None => match rendered_text(v) {
                        Some(t) => lifted(display_step(b1, encode_utf8(t).len(), depth)),
                        None => (Some(ProjectionFault::Invalid), b1),
                    },
                }
            },
        }
    }
}

/// A budget refusal as a projection fault.
fn refusal(r: Result<(), BudgetResource>) -> (o: Result<(), ProjectionFault>)
    ensures
        o == match r {
            Ok(()) => Ok::<(), ProjectionFault>(()),
            Err(e) => Err(ProjectionFault::Limit(e)),
        },
{
    match r {
        Ok(()) => Ok(()),
        Err(e) => Err(ProjectionFault::Limit(e)),
    }
}

/// `r` and `after` are the outcome `o` of a projection step, and a
/// projected value is `json`.
pub open spec fn projected(o: Outcome, json: Option<JsonModel>, r: Result<JsonValue, ProjectionFault>, after: ProjectionBudget) -> bool {
    &&& after == o.1
    &&& match r {
        Ok(j) => o.0 is None && json == Some(j@),
        Err(f) => o.0 == Some(f),
    }
}

/// Decimal digits of the magnitude of a big integer.
pub open spec fn magnitude_digits(m: (bool, Seq<u32>)) -> nat {
    decimal_digits(limbs_value(m.1)).len()
}

/// A nonzero magnitude has more decimal digits than `max`.
pub open spec fn digits_exceed(m: (bool, Seq<u32>), max: u64) -> bool {
    limbs_value(m.1) > 0 && magnitude_digits(m) > max
}

/// The big-number limit of `l` a value exceeds, if any: the digits of a big
/// integer; the scale magnitude of a big decimal, then the digits of its
/// coefficient.
pub open spec fn number_limit(v: ValueModel, l: ProjectionLimits) -> Option<BudgetResource> {
    match v {
        ValueModel::BigInteger(m) => if digits_exceed(m, l.max_big_integer_digits) {
            Some(BudgetResource::BigIntegerDigits)
        } else {
            None
        },
        ValueModel::BigDecimal(d) => if (if d.1 < 0 { -d.1 } else { d.1 as int }) > l.max_big_decimal_scale {
            Some(BudgetResource::BigDecimalScale)
        } else if digits_exceed(d.0, l.max_big_decimal_digits) {
            Some(BudgetResource::BigDecimalDigits)
        } else {
            None
        },
        _ => None,
    }
}

/// The decimal digits of a number are never empty.
proof fn lemma_digits_nonempty(n: nat)
    ensures
        decimal_digits(n).len() >= 1,
    decreases n,
{
    if n >= 10 {
        lemma_digits_nonempty(n / 10);
    }
}

/// Only zero is written `"0"`.
proof fn lemma_digits_zero(n: nat)
    ensures
        (decimal_digits(n).len() == 1 && decimal_digits(n)[0] == '0') <==> n == 0,
{
    if n >= 10 {
        lemma_digits_nonempty(n / 10);
    } else {
        assert(decimal_digits(n) == seq![digit_char(n as int)]);
    }
}

/// Tests whether a nonzero magnitude has more decimal digits than `max`.
fn magnitude_exceeds(x: &BigIntegerValue, max: u64) -> (r: bool)
    ensures
        r == digits_exceed(x@, max),
{
    let mut magnitude = x.duplicate();
    magnitude.negative = false;
    let text = decimal_string(&magnitude);
    proof {
        lemma_digits_zero(limbs_value(x@.1));
        assert(text@ == decimal_digits(limbs_value(x@.1)));
        lemma_digits_nonempty(limbs_value(x@.1));
    }
    let n = text.as_str().unicode_len();
    if n == 1 && text.as_str().get_char(0) == '0' {
        return false;
    }
    n as u64 > max
}

/// The JSON number of an integer that fits, with its text charged.
fn project_integer(x: i128, depth: u64, budget: &mut ProjectionBudget) -> (r: Result<JsonValue, ProjectionFault>)
    requires
        i64::MIN <= x <= u64::MAX,
    ensures
        ({
            let n = integer_json(x as int);
            projected(
                lifted(display_step(*old(budget), number_text_bytes(n.unwrap()->Number_0), depth)),
                n,
                r,
                *final(budget),
            )
        }),
{
    let len = decimal_text_bytes(x);
    refusal(budget.display_text(len, depth))?;
    if x >= 0 {
        Ok(JsonValue::Number(JsonNumber::PosInt(x as u64)))
    } else {
        Ok(JsonValue::Number(JsonNumber::NegInt(x as i64)))
    }
}

/// A rendered text as a JSON string, with its length charged.
fn project_text(text: String, depth: u64, budget: &mut ProjectionBudget) -> (r: Result<JsonValue, ProjectionFault>)
    ensures
        projected(
            lifted(display_step(*old(budget), encode_utf8(text@).len(), depth)),
            Some(JsonModel::String(text@)),
            r,
            *final(budget),
        ),
{
    refusal(budget.display_text(text.as_str().as_bytes().len(), depth))?;
    Ok(JsonValue::String(text))
}

/// Charging a string map at `depth`: its object node, then its entries.
pub open spec fn map_node_charge(m: StringMapModel, depth: u64, b: ProjectionBudget) -> Charge {
    let c = container_step(b, depth, true, m.len());
    if c.0 is Some {
        c
    } else {
        map_charge(m, depth, c.1)
    }
}

/// A string map as a JSON object of strings, with its node and entries
/// charged.
fn project_map(m: &StringMapValue, depth: u64, budget: &mut ProjectionBudget) -> (r: Result<JsonValue, ProjectionFault>)
    ensures
        projected(
            lifted(map_node_charge(m@, depth, *old(budget))),
            Some(JsonModel::Object(map_members(m@))),
            r,
            *final(budget),
        ),
{
    let entries = m.entries();
    refusal(budget.admit_container(depth, true, entries.len()))?;
    let ghost mm = entries_model(entries@);
    let next: u64 = if depth == u64::MAX {
        depth
    } else {
        depth + 1
    };
    let mut members: Vec<(String, JsonValue)> = Vec::new();
    let n = entries.len();
    assert(mm.skip(0) =~= mm);
    for i in 0..n
        invariant
            n == entries@.len(),
            mm == entries_model(entries@),
            mm == m@,
            mm.len() == n,
            next == child_depth(depth),
            members@.len() == i,
            forall|j: int| 0 <= j < i ==> (#[trigger] members@[j]).0@ == mm[j].0 && members@[j].1@
                == JsonModel::String(mm[j].1),
            map_node_charge(mm, depth, *old(budget)) == map_charge(mm.skip(i as int), depth, *budget),
    {
        proof {
            assert(mm.skip(i as int)[0] == mm[i as int]);
            assert(mm.skip(i as int).drop_first() =~= mm.skip(i + 1));
        }
        refusal(budget.text(entries[i].0.as_str(), depth, true))?;
        refusal(budget.text(entries[i].1.as_str(), next, false))?;
        members.push((entries[i].0.clone(), JsonValue::String(entries[i].1.clone())));
    }
    assert(mm.skip(n as int) =~= StringMapModel::empty());
    let out = JsonValue::Object(members);
    assert(out@ == JsonModel::Object(map_members(mm))) by {
        assert(out@->Object_0 =~= map_members(mm));
    }
    Ok(out)
}

/// Projects one scalar at `depth`: charges it to `budget` as
/// [`scalar_charge`] says and returns its natural JSON, or the first fault.
#[verifier::rlimit(40)]
pub fn project_scalar(v: &Value, depth: u64, budget: &mut ProjectionBudget) -> (r: Result<JsonValue, ProjectionFault>)
    ensures
        projected(scalar_charge(v@, depth, *old(budget)), scalar_json(v@), r, *final(budget)),
{
    refusal(budget.item())?;
    let ghost b1 = *budget;
    match v {
        Value::Unset(_) => {
            refusal(budget.admit_node(depth, 0))?;
            Ok(JsonValue::Null)
        },
        Value::Bool(x) => {
            refusal(budget.admit_node(depth, 0))?;
            Ok(JsonValue::Bool(*x))
        },
        Value::Int8(x) => project_integer(*x as i128, depth, budget),
        Value::Int16(x) => project_integer(*x as i128, depth, budget),
        Value::Int32(x) => project_integer(*x as i128, depth, budget),
        Value::Int64(x) => project_integer(*x as i128, depth, budget),
        Value::UInt8(x) => project_integer(*x as i128, depth, budget),
        Value::UInt16(x) => project_integer(*x as i128, depth, budget),
        Value::UInt32(x) => project_integer(*x as i128, depth, budget),
        Value::UInt64(x) => project_integer(*x as i128, depth, budget),
        Value::Int128(x) => {
            if *x < -0x8000_0000_0000_0000 || *x > 0xffff_ffff_ffff_ffff {
                return Err(ProjectionFault::Invalid);
            }
            project_integer(*x, depth, budget)
        },
        Value::UInt128(x) => {
            if *x > 0xffff_ffff_ffff_ffff {
                return Err(ProjectionFault::Invalid);
            }
            project_integer(*x as i128, depth, budget)
        },
        Value::Float32(f) => {
            if !f.is_finite() {
                return Err(ProjectionFault::Invalid);
            }
            let bits = widen_f32_bits(f.bits);
            if bits & 0x7ff0_0000_0000_0000 == 0x7ff0_0000_0000_0000 {
                return Err(ProjectionFault::Invalid);
            }
            refusal(budget.display_text(FLOAT_TEXT_BYTES, depth))?;
            Ok(JsonValue::Number(JsonNumber::Float(bits)))
        },
        Value::Float64(f) => {
            if !f.is_finite() {
                return Err(ProjectionFault::Invalid);
            }
            refusal(budget.display_text(FLOAT_TEXT_BYTES, depth))?;
            Ok(JsonValue::Number(JsonNumber::Float(f.bits)))
        },
        Value::String(s) => {
            refusal(budget.text(s.as_str(), depth, false))?;
            Ok(JsonValue::String(s.clone()))
        },
        Value::Char(c) => project_text(char_string(*c), depth, budget),
        Value::Date(d) => match render_date(d.days_from_ce) {
            Some(t) => project_text(t, depth, budget),
            None => Err(ProjectionFault::Invalid),
        },
        Value::Time(t) => match render_time(t.secs_from_midnight, t.nanos) {
            Some(t) => project_text(t, depth, budget),
            None => Err(ProjectionFault::Invalid),
        },
        Value::DateTime(x) => match render_date_time(x.date.days_from_ce, x.time.secs_from_midnight, x.time.nanos) {
            Some(t) => project_text(t, depth, budget),
            None => Err(ProjectionFault::Invalid),
        },
        Value::Instant(x) => match render_instant(
            x.utc.date.days_from_ce,
            x.utc.time.secs_from_midnight,
            x.utc.time.nanos,
        ) {
            Some(t) => project_text(t, depth, budget),
            None => Err(ProjectionFault::Invalid),
        },
        Value::Duration(d) => {
            if d.nanos >= 1_000_000_000 {
                return Err(ProjectionFault::Invalid);
            }
            match render_duration(d.secs, d.nanos) {
                Some(t) => project_text(t, depth, budget),
                None => Err(ProjectionFault::Invalid),
            }
        },
        Value::BigInteger(x) => {
            if magnitude_exceeds(x, budget.limits.max_big_integer_digits) {
                return Err(ProjectionFault::Limit(BudgetResource::BigIntegerDigits));
            }
            project_text(decimal_string(x), depth, budget)
        },
        Value::BigDecimal(x) => {
            let scale: u64 = if x.scale < 0 {
                (-(x.scale as i128)) as u64
            } else {
                x.scale as u64
            };
            if scale > budget.limits.max_big_decimal_scale {
                return Err(ProjectionFault::Limit(BudgetResource::BigDecimalScale));
            }
            if magnitude_exceeds(&x.coefficient, budget.limits.max_big_decimal_digits) {
                return Err(ProjectionFault::Limit(BudgetResource::BigDecimalDigits));
            }
            project_text(render_big_decimal(x), depth, budget)
        },
        Value::Url(u) => project_text(u.text.clone(), depth, budget),
        Value::StringMap(m) => project_map(m, depth, budget),
        Value::Json(j) => {
            refusal(admit_json(j, depth, budget))?;
            Ok(j.duplicate())
        },
    }
}

/// The error of a projection fault, for a value or collection of type
/// `data_type` and the element at `index`, if any.
pub open spec fn fault_error(data_type: DataType, index: Option<usize>, f: ProjectionFault) -> ValueError {
    match f {
        ProjectionFault::Limit(resource) => ValueError::JsonProjectionLimit { data_type, source_index: index, resource },
        ProjectionFault::Invalid => ValueError::JsonProjectionInvalid { data_type, source_index: index },
    }
}

/// Builds the error of a projection fault.
fn to_value_error(data_type: DataType, index: Option<usize>, f: ProjectionFault) -> (r: ValueError)
    ensures
        r == fault_error(data_type, index, f),
{
    match f {
        ProjectionFault::Limit(resource) => ValueError::JsonProjectionLimit { data_type, source_index: index, resource },
        ProjectionFault::Invalid => ValueError::JsonProjectionInvalid { data_type, source_index: index },
    }
}

/// Charging the first `n` elements of a collection, each at depth two: the
/// index and fault of the first refused element, if any, and the budget
/// after.
pub open spec fn items_charge(s: Seq<ValueModel>, n: nat, b: ProjectionBudget) -> (Option<(nat, ProjectionFault)>, ProjectionBudget)
    decreases n,
{
    if n == 0 {
        (None, b)
    } else {
        let p = items_charge(s, (n - 1) as nat, b);
        if p.0 is Some {
            p
        } else {
            let c = scalar_charge(s[n - 1], 2, p.1);
            match c.0 {
                Some(f) => (Some(((n - 1) as nat, f)), c.1),
                None => (None, c.1),
            }
        }
    }
}

/// Once an element is refused, charging more elements changes nothing.
proof fn lemma_items_charge_stops(s: Seq<ValueModel>, k: nat, n: nat, b: ProjectionBudget)
    requires
        k <= n,
        items_charge(s, k, b).0 is Some,
    ensures
        items_charge(s, n, b) == items_charge(s, k, b),
    decreases n,
{
    if n > k {
        lemma_items_charge_stops(s, k, (n - 1) as nat, b);
    }
}

/// The natural JSON of a collection whose every element has one: an array
/// of the elements' JSON, in order.
pub open spec fn array_json(s: Seq<ValueModel>) -> JsonModel {
    JsonModel::Array(Seq::new(s.len(), |i: int| scalar_json(s[i]).unwrap()))
}

/// Projecting a collection: an unset collection is charged as one scalar
/// and becomes `null`; a concrete one is charged as an array node at depth
/// one and then element by element, and becomes the array of their JSON.
/// A fault of an element carries its index; the result and the budget
/// after.
pub open spec fn collection_outcome(m: MultiValuesModel, b: ProjectionBudget) -> (ValueResult<JsonModel>, ProjectionBudget) {
    let dt = m.data_type;
    match m.items {
        None => {
            let it = item_step(b);
            match it.0 {
                Some(e) => (Err(fault_error(dt, None, ProjectionFault::Limit(e))), it.1),
                None => {
                    let c = node_step(it.1, 1, 0);
                    match c.0 {
                        Some(e) => (Err(fault_error(dt, None, ProjectionFault::Limit(e))), c.1),
                        None => (Ok(JsonModel::Null), c.1),
                    }
                },
            }
        },
        Some(s) => {
            let c = container_step(b, 1, false, s.len());
            match c.0 {
                Some(e) => (Err(fault_error(dt, None, ProjectionFault::Limit(e))), c.1),
                None => {
                    let p = items_charge(s, s.len(), c.1);
                    match p.0 {
                        Some((i, f)) => (Err(fault_error(dt, Some(i as usize), f)), p.1),
                        None => (Ok(array_json(s)), p.1),
                    }
                },
            }
        },
    }
}

/// The natural JSON projection of a collection under `limits`.
pub open spec fn json_projection(m: MultiValuesModel, limits: ProjectionLimits) -> ValueResult<JsonModel> {
    collection_outcome(m, fresh_budget(limits)).0
}

/// The integer a value of an integer type holds.
pub open spec fn value_integer(v: ValueModel) -> Option<int> {
    match v {
        ValueModel::Int8(x) => Some(x as int),
        ValueModel::Int16(x) => Some(x as int),
        ValueModel::Int32(x) => Some(x as int),
        ValueModel::Int64(x) => Some(x as int),
        ValueModel::Int128(x) => Some(x as int),
        ValueModel::UInt8(x) => Some(x as int),
        ValueModel::UInt16(x) => Some(x as int),
        ValueModel::UInt32(x) => Some(x as int),
        ValueModel::UInt64(x) => Some(x as int),
        ValueModel::UInt128(x) => Some(x as int),
        _ => None,
    }
}

/// The integer a JSON number denotes, when it is an integer.
pub open spec fn number_integer(n: JsonNumber) -> Option<int> {
    match n {
        JsonNumber::PosInt(u) => Some(u as int),
        JsonNumber::NegInt(i) => Some(i as int),
        JsonNumber::Float(_) => None,
    }
}

/// An integer value projects to the JSON number of that very integer,
/// non-negative ones as `PosInt` and negative ones as `NegInt`, whenever a
/// JSON number can hold it (from `i64::MIN` to `u64::MAX`); outside that
/// range it has no JSON form.
pub proof fn lemma_integer_projection(v: ValueModel)
    requires
        value_integer(v) is Some,
    ensures
        ({
            let i = value_integer(v).unwrap();
            &&& (i64::MIN <= i <= u64::MAX) ==> (scalar_json(v) matches Some(JsonModel::Number(n)) && number_integer(
                n,
            ) == Some(i) && (n is PosInt <==> i >= 0))
            &&& !(i64::MIN <= i <= u64::MAX) ==> scalar_json(v) is None
        }),
{
}

/// The JSON form of the other scalars: `null` for an unset value, the
/// boolean itself, a text as a JSON string, a character as the string of
/// that character, a URL as its text, a big integer as its decimal text, a
/// JSON document as itself, a finite 64-bit float as the number with its
/// bits (none when not finite), and a string map as the object with the
/// map's keys, each mapped to its text.
pub proof fn lemma_scalar_json_forms()
    ensures
        forall|d: DataType| #[trigger] scalar_json(ValueModel::Unset(d)) == Some(JsonModel::Null),
        forall|b: bool| #[trigger] scalar_json(ValueModel::Bool(b)) == Some(JsonModel::Bool(b)),
        forall|t: Seq<char>| #[trigger] scalar_json(ValueModel::String(t)) == Some(JsonModel::String(t)),
        forall|c: char| #[trigger] scalar_json(ValueModel::Char(c)) == Some(JsonModel::String(seq![c])),
        forall|u: Seq<char>| #[trigger] scalar_json(ValueModel::Url(u)) == Some(JsonModel::String(u)),
        forall|m: (bool, Seq<u32>)|
            #[trigger] scalar_json(ValueModel::BigInteger(m)) == Some(JsonModel::String(decimal_text(signed_value(m)))),
        forall|j: JsonModel| #[trigger] scalar_json(ValueModel::Json(j)) == Some(j),
        forall|f: Float64Value|
            #[trigger] scalar_json(ValueModel::Float64(f)) == if f64_is_finite(f.bits) {
                Some(JsonModel::Number(JsonNumber::Float(f.bits)))
            } else {
                None
            },
        forall|m: StringMapModel|
            #![trigger scalar_json(ValueModel::StringMap(m))]
            scalar_json(ValueModel::StringMap(m)) matches Some(JsonModel::Object(x)) && x.len() == m.len() && forall|i: int|
                0 <= i < m.len() ==> #[trigger] x[i] == (m[i].0, JsonModel::String(m[i].1)),
{
}

/// The shape of a projection: an unset collection becomes `null`; a
/// concrete one, empty and one-element ones included, becomes an array with
/// one JSON value per element, in order.
pub proof fn lemma_projection_shape(m: MultiValuesModel, limits: ProjectionLimits)
    requires
        json_projection(m, limits) is Ok,
    ensures
        m.items is None ==> json_projection(m, limits) == Ok::<JsonModel, ValueError>(JsonModel::Null),
        m.items matches Some(s) ==> json_projection(m, limits) matches Ok(JsonModel::Array(x)) && x.len()
            == s.len() && forall|i: int| 0 <= i < s.len() ==> Some(#[trigger] x[i]) == scalar_json(s[i]),
{
    if let Some(s) = m.items {
        let c = container_step(fresh_budget(limits), 1, false, s.len());
        let p = items_charge(s, s.len(), c.1);
        assert(c.0 is None && p.0 is None);
        assert forall|i: int| 0 <= i < s.len() implies scalar_json(s[i]) is Some by {
            lemma_items_charge_defined(s, s.len(), c.1, i);
        }
    }
}

/// Every element charged without a fault has a JSON form.
proof fn lemma_items_charge_defined(s: Seq<ValueModel>, n: nat, b: ProjectionBudget, i: int)
    requires
        n <= s.len(),
        0 <= i < n,
        items_charge(s, n, b).0 is None,
    ensures
        scalar_json(s[i]) is Some,
    decreases n,
{
    let p = items_charge(s, (n - 1) as nat, b);
    if i < n - 1 {
        lemma_items_charge_defined(s, (n - 1) as nat, b, i);
    } else {
        lemma_scalar_charge_defined(s[i], 2, p.1);
    }
}

/// A scalar charged without a fault has a JSON form.
proof fn lemma_scalar_charge_defined(v: ValueModel, depth: u64, b: ProjectionBudget)
    requires
        scalar_charge(v, depth, b).0 is None,
    ensures
        scalar_json(v) is Some,
{
}

/// The natural JSON projection of a scalar under `limits`, at depth one.
pub open spec fn scalar_projection(v: ValueModel, limits: ProjectionLimits) -> ValueResult<JsonModel> {
    let c = scalar_charge(v, 1, fresh_budget(limits));
    match c.0 {
        Some(f) => Err(fault_error(v.data_type(), None, f)),
        None => Ok(scalar_json(v).unwrap()),
    }
}

/// The model of a projection result.
pub open spec fn result_model(r: ValueResult<JsonValue>) -> ValueResult<JsonModel> {
    match r {
        Ok(j) => Ok(j@),
        Err(e) => Err(e),
    }
}

/// Outcome of charging the elements of a concrete collection after its
/// array node.
pub open spec fn array_outcome(dt: DataType, s: Seq<ValueModel>, b: ProjectionBudget) -> (ValueResult<JsonModel>, ProjectionBudget) {
    let p = items_charge(s, s.len(), b);
    match p.0 {
        Some((k, f)) => (Err(fault_error(dt, Some(k as usize), f)), p.1),
        None => (Ok(array_json(s)), p.1),
    }
}

/// Projects a collection, charging `budget` as [`collection_outcome`] says;
/// the error of a refused element carries the element's index.
#[verifier::rlimit(30)]
pub fn prepare_collection(view: MultiValuesRef<'_>, budget: &mut ProjectionBudget) -> (r: ValueResult<JsonValue>)
    ensures
        result_model(r) == collection_outcome(view@, *old(budget)).0,
        *final(budget) == collection_outcome(view@, *old(budget)).1,
{
    let dt = view.data_type();
    if view.is_unset() {
        if let Err(e) = budget.item() {
            return Err(to_value_error(dt, None, ProjectionFault::Limit(e)));
        }
        if let Err(e) = budget.admit_node(1, 0) {
            return Err(to_value_error(dt, None, ProjectionFault::Limit(e)));
        }
        return Ok(JsonValue::Null);
    }
    if let Err(e) = budget.admit_container(1, false, view.len()) {
        return Err(to_value_error(dt, None, ProjectionFault::Limit(e)));
    }
    let ghost s = view@.items.unwrap();
    let ghost b1 = *budget;
    let ghost goal = collection_outcome(view@, *old(budget));
    assert(goal == array_outcome(dt, s, b1));
    let n = view.len();
    let mut out: Vec<JsonValue> = Vec::new();
    for i in 0..n
        invariant
            n == s.len(),
            view@.items == Some(s),
            dt == view@.data_type,
            items_charge(s, i as nat, b1) == (None::<(nat, ProjectionFault)>, *budget),
            goal == collection_outcome(view@, *old(budget)),
            goal == array_outcome(dt, s, b1),
            out@.len() == i,
            forall|j: int| 0 <= j < i ==> Some((#[trigger] out@[j])@) == scalar_json(s[j]),
    {
        let item = match view.get(i) {
            Some(v) => v,
            None => {
                assert(false);
                return Ok(JsonValue::Null);
            },
        };
        match project_scalar(item, 2, budget) {
            Err(f) => {
                proof {
                    lemma_items_charge_stops(s, (i + 1) as nat, n as nat, b1);
                }
                return Err(to_value_error(dt, Some(i), f));
            },
            Ok(j) => {
                out.push(j);
            },
        }
    }
    let result = JsonValue::Array(out);
    assert(result@ == array_json(s)) by {
        assert(result@->Array_0 =~= array_json(s)->Array_0);
    }
    Ok(result)
}

impl MultiValues {
    /// Projects this collection to natural JSON under `limits`: `null` when
    /// unset, otherwise an array of the elements' JSON (also for an empty or
    /// one-element collection). Fails with the first exceeded limit or
    /// element without a JSON form, with that element's index.
    pub fn to_json_value_with(&self, limits: &ProjectionLimits) -> (r: ValueResult<JsonValue>)
        ensures
            result_model(r) == json_projection(self@, *limits),
    {
        let mut budget = ProjectionBudget::new(limits);
        prepare_collection(self.view_ref(), &mut budget)
    }

    /// Projects this collection to natural JSON under the default limits.
    pub fn to_json_value(&self) -> (r: ValueResult<JsonValue>)
        ensures
            result_model(r) == json_projection(self@, default_limits_spec()),
    {
        let limits = ProjectionLimits::default_limits();
        self.to_json_value_with(&limits)
    }
}

impl Value {
    /// Projects this value to natural JSON under `limits`: `null` when
    /// unset, otherwise its JSON number, string, object or document.
    pub fn to_json_value_with(&self, limits: &ProjectionLimits) -> (r: ValueResult<JsonValue>)
        ensures
            result_model(r) == scalar_projection(self@, *limits),
    {
        let mut budget = ProjectionBudget::new(limits);
        match project_scalar(self, 1, &mut budget) {
            Ok(j) => Ok(j),
            Err(f) => Err(to_value_error(self.data_type(), None, f)),
        }
    }

    /// Projects this value to natural JSON under the default limits.
    pub fn to_json_value(&self) -> (r: ValueResult<JsonValue>)
        ensures
            result_model(r) == scalar_projection(self@, default_limits_spec()),
    {
        let limits = ProjectionLimits::default_limits();
        self.to_json_value_with(&limits)
    }
}

} // verus!

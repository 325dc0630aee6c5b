//! Natural JSON projection of collections: plain JSON values without type
//! tags, built under limits on items, input and output text, structure and
//! the length of each text.

use vstd::prelude::*;
use vstd::string::StringSliceAdditionalSpecFns;
use vstd::utf8::encode_utf8;

use crate::data_type::DataType;
use crate::json_budget::{container_outcome, key_outcome, node_outcome, BudgetResource, StructureBudget};

verus! {

/// Limits of a JSON projection.
#[derive(Debug, Clone, Copy, PartialEq, Eq, Structural)]
pub struct ProjectionLimits {
    /// Largest number of scalars projected.
    pub max_items: u64,
    /// Largest number of source text bytes read.
    pub max_input_bytes: u64,
    /// Largest number of text bytes written.
    pub max_output_bytes: u64,
    /// Largest number of JSON nodes.
    pub max_nodes: u64,
    /// Largest depth of a JSON node, the root being at depth one.
    pub max_depth: u64,
    /// Largest number of payload bytes held by JSON nodes and keys.
    pub max_payload_bytes: u64,
    /// Largest number of bytes of one text.
    pub max_text_bytes: u64,
    /// Largest number of elements of one array.
    pub max_sequence_items: u64,
    /// Largest number of members of one object.
    pub max_map_entries: u64,
    /// Largest number of decimal digits of a big integer.
    pub max_big_integer_digits: u64,
    /// Largest number of decimal digits of a big decimal's coefficient.
    pub max_big_decimal_digits: u64,
    /// Largest magnitude of a big decimal's scale.
    pub max_big_decimal_scale: u64,
}

/// The default limits of `qubit_datatype`'s conversion limits.
pub open spec fn default_limits_spec() -> ProjectionLimits {
    ProjectionLimits {
        max_items: 65_536,
        max_input_bytes: 67_108_864,
        max_output_bytes: 67_108_864,
        max_nodes: 262_144,
        max_depth: 128,
        max_payload_bytes: 67_108_864,
        max_text_bytes: 1_048_576,
        max_sequence_items: 65_536,
        max_map_entries: 65_536,
        max_big_integer_digits: 16_384,
        max_big_decimal_digits: 16_384,
        max_big_decimal_scale: 150_000,
    }
}

/// Reads the default operation limits
/// (`qubit_datatype::ConversionOperationLimits::DEFAULT_*`), structured
/// limits (`qubit_datatype::StructuredConversionLimits::DEFAULT_*`) and
/// numeric limits (`qubit_datatype::NumericConversionLimits::DEFAULT_*`).
///
/// Trusted claim: these constants have the values stated.
#[verifier::external_body]
fn default_projection_limits() -> (r: ProjectionLimits)
    ensures
        r == default_limits_spec(),
{
    ProjectionLimits {
        max_items: qubit_datatype::ConversionOperationLimits::DEFAULT_MAX_ITEMS,
        max_input_bytes: qubit_datatype::ConversionOperationLimits::DEFAULT_MAX_INPUT_BYTES,
        max_output_bytes: qubit_datatype::ConversionOperationLimits::DEFAULT_MAX_OUTPUT_BYTES,
        max_nodes: qubit_datatype::ConversionOperationLimits::DEFAULT_MAX_STRUCTURED_NODES,
        max_depth: qubit_datatype::StructuredConversionLimits::DEFAULT_MAX_DEPTH,
        max_payload_bytes: qubit_datatype::ConversionOperationLimits::DEFAULT_MAX_STRUCTURED_PAYLOAD_BYTES,
        max_text_bytes: qubit_datatype::StructuredConversionLimits::DEFAULT_MAX_TEXT_BYTES,
        max_sequence_items: qubit_datatype::StructuredConversionLimits::DEFAULT_MAX_SEQUENCE_ITEMS,
        max_map_entries: qubit_datatype::StructuredConversionLimits::DEFAULT_MAX_MAP_ENTRIES,
        max_big_integer_digits: qubit_datatype::NumericConversionLimits::DEFAULT_MAX_BIG_INTEGER_DIGITS,
        max_big_decimal_digits: qubit_datatype::NumericConversionLimits::DEFAULT_MAX_BIG_DECIMAL_COEFFICIENT_DIGITS,
        max_big_decimal_scale: qubit_datatype::NumericConversionLimits::DEFAULT_MAX_BIG_DECIMAL_SCALE_MAGNITUDE,
    }
}

impl ProjectionLimits {
    /// The default limits.
    pub fn default_limits() -> (r: ProjectionLimits)
        ensures
            r == default_limits_spec(),
    {
        default_projection_limits()
    }
}

/// Usage of a projection against its limits.
#[derive(Debug, Clone, Copy, PartialEq, Eq, Structural)]
pub struct ProjectionBudget {
    /// Limits of the projection.
    pub limits: ProjectionLimits,
    /// Structure usage: nodes, depth and payload bytes.
    pub structure: StructureBudget,
    /// Scalars projected so far.
    pub used_items: u64,
    /// Source text bytes read so far.
    pub used_input_bytes: u64,
    /// Text bytes written so far.
    pub used_output_bytes: u64,
}

/// A fresh budget under `limits`.
pub open spec fn fresh_budget(limits: ProjectionLimits) -> ProjectionBudget {
    ProjectionBudget {
        limits,
        structure: StructureBudget {
            max_nodes: limits.max_nodes,
            max_depth: limits.max_depth,
            max_payload_bytes: limits.max_payload_bytes,
            max_sequence_items: limits.max_sequence_items,
            max_map_entries: limits.max_map_entries,
            used_nodes: 0,
            used_payload_bytes: 0,
        },
        used_items: 0,
        used_input_bytes: 0,
        used_output_bytes: 0,
    }
}

/// Outcome of a charge: the refusing resource, if any, and the budget after.
pub type Charge = (Option<BudgetResource>, ProjectionBudget);

/// Charging one scalar.
pub open spec fn item_step(b: ProjectionBudget) -> Charge {
    if b.used_items >= b.limits.max_items {
        (Some(BudgetResource::Items), b)
    } else {
        (None, ProjectionBudget { used_items: (b.used_items + 1) as u64, ..b })
    }
}

/// Charging `n` bytes of source text.
pub open spec fn input_step(b: ProjectionBudget, n: nat) -> Charge {
    if b.used_input_bytes + n > b.limits.max_input_bytes {
        (Some(BudgetResource::InputBytes), b)
    } else {
        (None, ProjectionBudget { used_input_bytes: (b.used_input_bytes + n) as u64, ..b })
    }
}

/// Charging `n` bytes of written text.
pub open spec fn output_step(b: ProjectionBudget, n: nat) -> Charge {
    if b.used_output_bytes + n > b.limits.max_output_bytes {
        (Some(BudgetResource::OutputBytes), b)
    } else {
        (None, ProjectionBudget { used_output_bytes: (b.used_output_bytes + n) as u64, ..b })
    }
}

/// Charging one JSON node of `bytes` payload bytes at `depth`.
pub open spec fn node_step(b: ProjectionBudget, depth: u64, bytes: nat) -> Charge {
    match node_outcome(b.structure, depth, bytes) {
        Ok(s) => (None, ProjectionBudget { structure: s, ..b }),
        Err(e) => (Some(e), b),
    }
}

/// Charging a container node at `depth` holding `count` members
/// (`entries`) or elements.
pub open spec fn container_step(b: ProjectionBudget, depth: u64, entries: bool, count: nat) -> Charge {
    match container_outcome(b.structure, depth, entries, count) {
        Ok(s) => (None, ProjectionBudget { structure: s, ..b }),
        Err(e) => (Some(e), b),
    }
}

/// Charging the payload bytes of an object key.
pub open spec fn key_step(b: ProjectionBudget, bytes: nat) -> Charge {
    match key_outcome(b.structure, bytes) {
        Ok(s) => (None, ProjectionBudget { structure: s, ..b }),
        Err(e) => (Some(e), b),
    }
}

/// Charging a source text of `len` bytes: its input, its length against the
/// text limit (values only), its node or key, then its output.
pub open spec fn text_step(b: ProjectionBudget, len: nat, depth: u64, key: bool) -> Charge {
    let s1 = input_step(b, len);
    if s1.0 is Some {
        s1
    } else if !key && len > b.limits.max_text_bytes {
        (Some(BudgetResource::TextBytes), s1.1)
    } else {
        let s2 = if key {
            key_step(s1.1, len)
        } else {
            node_step(s1.1, depth, len)
        };
        if s2.0 is Some {
            s2
        } else {
            output_step(s2.1, len)
        }
    }
}

/// Room left under a limit.
pub open spec fn room(used: u64, max: u64) -> nat {
    if used >= max {
        0
    } else {
        (max - used) as nat
    }
}

/// The limit a rendering of text is held to: the smallest of the room left
/// for output, the room left for payload, and the text limit, with the
/// resource that refuses a longer rendering.
pub open spec fn rendering_limit(b: ProjectionBudget) -> (BudgetResource, nat) {
    let out = (BudgetResource::OutputBytes, room(b.used_output_bytes, b.limits.max_output_bytes));
    let pay = room(b.structure.used_payload_bytes, b.structure.max_payload_bytes);
    let first = if pay < out.1 {
        (BudgetResource::PayloadBytes, pay)
    } else {
        out
    };
    if (b.limits.max_text_bytes as nat) < first.1 {
        (BudgetResource::TextBytes, b.limits.max_text_bytes as nat)
    } else {
        first
    }
}

/// Charging a rendered text of `len` bytes at `depth`: a probe of the node's
/// depth and count, the rendering limit, then the node and the output.
pub open spec fn display_step(b: ProjectionBudget, len: nat, depth: u64) -> Charge {
    match node_outcome(b.structure, depth, 0) {
        Err(e) => (Some(e), b),
        Ok(_) => {
            let limit = rendering_limit(b);
            if len > limit.1 {
                (Some(limit.0), b)
            } else {
                let s2 = node_step(b, depth, len);
                if s2.0 is Some {
                    s2
                } else {
                    output_step(s2.1, len)
                }
            }
        },
    }
}

impl ProjectionBudget {
    /// A fresh budget under `limits`.
    pub fn new(limits: &ProjectionLimits) -> (r: ProjectionBudget)
        ensures
            r == fresh_budget(*limits),
    {
        ProjectionBudget {
            limits: *limits,
            structure: StructureBudget {
                max_nodes: limits.max_nodes,
                max_depth: limits.max_depth,
                max_payload_bytes: limits.max_payload_bytes,
                max_sequence_items: limits.max_sequence_items,
                max_map_entries: limits.max_map_entries,
                used_nodes: 0,
                used_payload_bytes: 0,
            },
            used_items: 0,
            used_input_bytes: 0,
            used_output_bytes: 0,
        }
    }

    /// Charges one scalar.
    pub fn item(&mut self) -> (r: Result<(), BudgetResource>)
        ensures
            charged(item_step(*old(self)), r, *final(self)),
    {
        if self.used_items >= self.limits.max_items {
            return Err(BudgetResource::Items);
        }
        self.used_items = self.used_items + 1;
        Ok(())
    }

    /// Charges `n` bytes of source text.
    pub fn input(&mut self, n: usize) -> (r: Result<(), BudgetResource>)
        ensures
            charged(input_step(*old(self), n as nat), r, *final(self)),
    {
        let wide = n as u64;
        if self.used_input_bytes > self.limits.max_input_bytes || wide > self.limits.max_input_bytes
            - self.used_input_bytes {
            return Err(BudgetResource::InputBytes);
        }
        self.used_input_bytes = self.used_input_bytes + wide;
        Ok(())
    }

    /// Charges `n` bytes of written text.
    pub fn output(&mut self, n: usize) -> (r: Result<(), BudgetResource>)
        ensures
            charged(output_step(*old(self), n as nat), r, *final(self)),
    {
        let wide = n as u64;
        if self.used_output_bytes > self.limits.max_output_bytes || wide > self.limits.max_output_bytes
            - self.used_output_bytes {
            return Err(BudgetResource::OutputBytes);
        }
        self.used_output_bytes = self.used_output_bytes + wide;
        Ok(())
    }

    /// Charges a container node at `depth` holding `count` members
    /// (`entries`) or elements.
    pub fn admit_container(&mut self, depth: u64, entries: bool, count: usize) -> (r: Result<(), BudgetResource>)
        ensures
            charged(container_step(*old(self), depth, entries, count as nat), r, *final(self)),
    {
        match self.structure.admit_container(depth, entries, count) {
            Ok(()) => Ok(()),
            Err(e) => Err(e),
        }
    }

    /// Charges one JSON node of `bytes` payload bytes at `depth`.
    pub fn admit_node(&mut self, depth: u64, bytes: usize) -> (r: Result<(), BudgetResource>)
        ensures
            charged(node_step(*old(self), depth, bytes as nat), r, *final(self)),
    {
        match self.structure.admit_node(depth, bytes) {
            Ok(()) => Ok(()),
            Err(e) => Err(e),
        }
    }

    /// Charges a source text: its input bytes, its length against the text
    /// limit (values only), its key or node, then its output bytes. Charges
    /// made before a refusal are kept.
    pub fn text(&mut self, text: &str, depth: u64, key: bool) -> (r: Result<(), BudgetResource>)
        ensures
            charged(text_step(*old(self), encode_utf8(text@).len(), depth, key), r, *final(self)),
    {
        let len = text.as_bytes().len();
        self.input(len)?;
        if !key && (len as u64) > self.limits.max_text_bytes {
            return Err(BudgetResource::TextBytes);
        }
        if key {
            self.structure.admit_key(len)?;
        } else {
            self.structure.admit_node(depth, len)?;
        }
        self.output(len)
    }

    /// Charges a rendered text of `len` bytes at `depth`: a probe of the
    /// node's depth and count, the rendering limit (the smallest of the room
    /// left for output and payload and the text limit), then the node and
    /// the output. Charges made before a refusal are kept.
    pub fn display_text(&mut self, len: usize, depth: u64) -> (r: Result<(), BudgetResource>)
        ensures
            charged(display_step(*old(self), len as nat, depth), r, *final(self)),
    {
        let mut probe = self.structure;
        probe.admit_node(depth, 0)?;
        let room_out: u64 = if self.used_output_bytes >= self.limits.max_output_bytes {
            0
        } else {
            self.limits.max_output_bytes - self.used_output_bytes
        };
        let room_pay: u64 = if self.structure.used_payload_bytes >= self.structure.max_payload_bytes {
            0
        } else {
            self.structure.max_payload_bytes - self.structure.used_payload_bytes
        };
        let mut resource = BudgetResource::OutputBytes;
        let mut limit = room_out;
        if room_pay < limit {
            resource = BudgetResource::PayloadBytes;
            limit = room_pay;
        }
        if self.limits.max_text_bytes < limit {
            resource = BudgetResource::TextBytes;
            limit = self.limits.max_text_bytes;
        }
        if (len as u64) > limit {
            return Err(resource);
        }
        self.structure.admit_node(depth, len)?;
        self.output(len)
    }
}

/// `r` and `after` are the outcome `c` of a charge.
pub open spec fn charged(c: Charge, r: Result<(), BudgetResource>, after: ProjectionBudget) -> bool {
    &&& r == match c.0 {
        Some(e) => Err::<(), BudgetResource>(e),
        None => Ok(()),
    }
    &&& after == c.1
}

} // verus!

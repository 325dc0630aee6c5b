# qubit_value

Typed runtime values, verified with Verus.

- `Value`: one typed scalar, or `Unset` with a declared `DataType`.
- `MultiValues`: a homogeneous collection that tells an unset collection
  from a concrete empty one, with strict typed reads (`get`, `get_first`
  and their `_or` / `_or_else` forms), type-checked appends (`add`,
  `merge`), replacement (`set`) and a borrowed read-only view
  (`view_ref`, a `MultiValuesRef`).
- Converting reads: `to_first`, `to_list` and their `_or` / `_or_else`
  forms convert elements by the shared rules of `qubit_datatype`'s
  `DataConverter` under its default policy and limits, to `bool`, `char`,
  `String` and the integer types. An unset collection reads as missing
  (the `_or` forms fall back only then, or when a conversion reports a
  missing value); a concrete empty one stays an error.
- `NamedValue` and `NamedMultiValues`: the same with a name.
- Identity (`==`) compares floats by canonical bits, big numbers by value,
  string maps as maps and JSON structurally; `hash_identity` writes bytes
  into a `DefaultHasher` that agree with it, laid out as std's `Hash`
  writes them (integers in their own width, texts with a terminator byte,
  dates as `chrono` hashes them). `hash_with_json_budget` does
  the same after charging the JSON documents of a collection to a
  `StructureBudget`, and leaves hasher and budget untouched on a refusal.
- Natural JSON: `to_json_value` / `to_json_value_with` project a value or a
  collection to plain JSON (`null`, numbers, strings, objects, arrays)
  under `ProjectionLimits`, charging each node in pre-order to a
  `ProjectionBudget`; a refused element is reported with its index.

Layout:

- `src/`: the library, written in Verus. The functions that compute have
  contracts proved by Verus; the calls into other crates (number and date
  rendering, big-number arithmetic, hashing, default limits) stand behind
  small trusted wrappers whose contracts are stated in their doc comments.
  Payloads whose Rust types live in other crates (dates, URLs, big
  numbers, JSON, string maps, floats) are held as plain values in
  `src/payload.rs`, `src/json_value.rs` and `src/string_map.rs`. String
  maps and JSON objects are held as `Vec`s of entries whose keys are
  distinct (a type invariant), not as hash maps, so that their contents and
  order are visible to the proofs; identity compares them as maps.
- `tests/`: tests of the library.
- `app/`: conversions between those plain payloads and the `chrono`,
  `url`, `num-bigint`, `bigdecimal` and `serde_json` types they stand for.

JSON documents are compared, copied and charged to budgets with explicit
stacks, so deep nesting does not deepen the call stack; identity hashing
of JSON still recurses into nested documents.

Not here: the `_with` / `_in` conversion forms that take a caller's
policy, limits or session, and the versioned wire format with the JSON
codec of named collections built on it. Floats and JSON documents have no
conversion source, so converting them reports an unsupported conversion.
A float is charged a fixed number of bytes in JSON budgets, and a 32-bit
float projects to the 64-bit float of the same value.

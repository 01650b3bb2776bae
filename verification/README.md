# concerto_core

Concerto model management with machine-checked contracts: models in their JSON
(metamodel) form are read into model files, gathered in a model manager (one
file per namespace), validated as a whole, and used to validate JSON instances.

Layout:

- `src/` — the library, verified with Verus.
  - `json.rs`, `text.rs` — the JSON value the library reads, and string helpers.
  - `metamodel.rs` — the metamodel objects and the rules by which each is read
    from JSON.
  - `model_util.rs` — names, namespaces and identifiers (the identifier
    pattern is matched by the `regex` crate).
  - `introspect/` — declarations, properties, imports, model files, and the
    validation of a set of model files.
  - `rootmodel.rs` — the `concerto@1.0.0` root model, built in code.
  - `model_manager.rs` — the model manager.
  - `validation/object_validator.rs` — validation of JSON instances.
- `tests/` — tests run against the compiled library.
- `app/` — conversions between `serde_json::Value` and the library's JSON value,
  and an error type implementing `std::error::Error`.

Design notes:

- A model manager keeps its model files in a `Vec`, in the order they were
  added, under a type invariant that no two files share a namespace. A map keyed
  by the namespace text would serve as well, but Verus knows little of maps with
  `String` keys, while a sequence with that invariant lets every lookup, every
  addition and the rollback of a batch be proved. For the same reason a model
  file finds a local type by searching its declarations for the last one with
  that name (the one a map from name to position would keep), and the
  inheritance walk keeps the names it has met in a `Vec`.
- The texts of decoding errors (inside `Invalid <kind>: ...`) are the library's
  own: `missing field `x``, `invalid type for field `x``, `invalid type:
  expected an object`, `invalid or missing array field `x``. They do not
  reproduce the wording of serde_json's deserialization errors, which names the
  value found and the type expected.
- With the `strict` option, a model whose namespace has no version is refused.
- With `enable_map_type` off, a model that declares a map type is refused. The
  option is on by default.

# mongosql

Pieces of a SQL-to-MQL compiler for MongoDB, written in Verus with their
behaviour stated as contracts and proved.

Layout of `src/`:

- `rewrites` - the driver that runs fallible rewrite passes over a query, and
  the rewrite errors with their messages.
- `binding_tuple`, `mapping_registry` - datasource keys, the sorted binding
  tuple keyed by them, and the registry that maps each key to its MQL name.
- `mir`, `prefilter_unwinds` - the MIR stages and expressions that the
  prefilter-unwinds optimization reads, and that optimization.
- `air`, `translator` - the translator's view of AIR, the mapping of MIR
  scalar functions, literals and types to AIR, and the naming rules for
  datasources, project keys and let variables.
- `mql`, `codegen` - MQL values and documents (with `bson` insertion
  semantics), and code generation from AIR expressions and stages to MQL.
- `bson_types`, `text` - declarations of the `bson` value types carried
  through literals, and string helpers.

MQL values are the library's own type rather than `bson::Bson` because they
hold doubles, which the verified code keeps as bit patterns; their insertion
and equality follow `bson`. The binding tuple is a sorted vector with a
proved key order rather than a `BTreeMap`, because its keys are structs
holding strings, for which Verus gives a `BTreeMap` no usable specification.

`app/` converts the library's MQL values to `bson` documents and gives the
errors `Display` through `thiserror`. `tests/` holds the executable tests.

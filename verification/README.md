# prost_reflect type descriptors

A verified library of protobuf type descriptors: messages, their fields and oneofs,
extensions, enums and enum values, held in a type map and looked up by name or by
number.

- `src/names.rs`: splitting full names into namespace and short name, and joining them.
- `src/types.rs`: field types, wire types, cardinalities and type ids; the numbers of
  field types and wire types are checked against `prost-types` and `prost`.
- `src/type_map.rs`: the type map, the rules it keeps, building it from its parts,
  lookups by name and the resolution of type names through nested scopes.
- `src/validate.rs`: the checks that building a type map runs.
- `src/file.rs`, `src/message.rs`, `src/enum_type.rs`, `src/extension.rs`: the descriptors.
- `src/laws.rs`: properties that relate several functions.
- `app/lib.rs`: debug output of the descriptors.

The tables from names to types, field numbers and enum value numbers are lists of
(name, value) pairs with a rule that no name occurs twice, not `HashMap`s. vstd
specifies `HashMap` lookups only for keys whose hashing and equality Verus can rely on,
such as integers; with `String` keys nothing about a lookup's result can be proved. A
lookup in these lists is a linear scan, and its result is proved. Maps keyed by field
or value number stay `BTreeMap`s, which vstd specifies.

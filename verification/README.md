# semio_record

Records of the semio model (organizations, folders, modules, enumerations,
animations), the actions that change them, their access control lists, the
request and response messages of the API, and the generator of TypeScript
bindings for the record schemas. The logic is written in Verus and proved
against its contracts.

- `src/` is the verified library. Each record type has its unfrozen, frozen
  and public forms and its actions; `acl` holds the access control lists;
  `bind` holds the schema model, the merge of version schemas, the grouping
  of definitions into scopes and the TypeScript generator (`ast` builds the
  text). Files named `laws.rs` state what holds across calls.
- `tests/` exercises the library on concrete values.
- `app/` is the program that writes the bindings to disk, and the
  asynchronous glue (permission resolution, freezing through a resolver).

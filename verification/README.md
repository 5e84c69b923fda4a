# jellyschema

Generates, from the validated schema of a configuration, the JSON schema that
validates the configuration and the object that tells a user interface how to
show it; and compiles the `max` keyword of a JSON schema into a validator.

- `src/json.rs`: the JSON documents the library reads and writes, with their
  meaning (`Json`) as a specification.
- `src/dsl/`: the validated schema that the generator works on.
- `src/ui_configuration/`: the generator, and how properties stand in the JSON schema.
- `src/output/`: the user interface object built from a document's schema tree.
- `src/keywords/`, `src/validators/`: keyword compilers and the validators they give.
- `app/`: conversion between the library's JSON model and `serde_json` values.

Everything under `src/` is verified with Verus.

`Generator::with`, which builds a generator from a YAML document, is not part of
this crate: it hands the document to the DSL compiler that parses and validates
it, and that compiler is not part of this code base. A `Generator` is built with
`Generator::new` from a `ValidatedSchema`.

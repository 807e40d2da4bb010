# conf

A layered configuration reader. Each program option of a configuration structure is read
from the command line, then the environment (its variable, then its aliases), then a
document, then its default, and every problem found is reported at once. Secret values are
never shown in help text or error messages.

The library is written in Verus: each function states its behaviour in `requires` /
`ensures` contracts, and the properties of the library as a whole are proved in
`src/laws.rs`.

- `src/` — the verified library: reading values (`conf_context`, `initialize`, `document`),
  the command-line model (`parser`, `parsed_args`, `program_option`, `find_parameter`),
  errors and their report (`error`, `error_render`, `error_order`, `error_report`), the
  attribute rules of the derive (`derive_attrs`, `derive_fields`, `derive_struct`,
  `derive_enum`), and value parsers (`duration`, `password`, `shell`, `str_to_bool`).
- `tests/` — tests of the library on concrete values.
- `app/` — what the verifier does not see: command-line parsing with clap, completion
  scripts, serde support, and the builder that runs a parse.

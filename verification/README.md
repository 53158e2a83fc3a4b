# toasty

Migration planning, schema diffing and statement metadata for the Toasty ORM,
written in Verus: every function in `src/` carries a `requires`/`ensures`
contract that Verus proves.

## Layout

- `src/schema/db/` — tables, columns and indices; rename hints; the schema
  diff (`SchemaDiff::from`) with its specification (`schema_changes`); the
  migration history file.
- `src/cli/` — the decisions of the migration tool: snapshot files and the
  rename hints they store, the interactive rename session (one question at a
  time), the `generate`, `apply` and `drop` commands, and the layout of a
  snapshot's TOML document.
- `src/migrator/`, `src/macros.rs` — which embedded migrations are pending,
  and what the `migrate!` macro embeds.
- `src/stmt/` — values, expressions, returning clauses and statements.
- `src/engine/`, `src/driver/`, `src/dynamodb.rs` — the update-count loader,
  the row selection of update-returning plans, driver operations and the
  decisions of DynamoDB's delete-by-key.
- `src/text.rs` — decimal formatting and parsing.
- `tests/` — tests run against the compiled library.
- `app/` — plain Rust around the library: reading and writing files (serde,
  `toml`, `toml_edit`), prompts (`dialoguer`), terminal output (`console`),
  command-line arguments (`clap`), the DynamoDB client and the code the
  `migrate!` macro expands to.

Properties that span several functions are stated as public proof
functions whose names begin with `law_`, next to the functions they speak of.

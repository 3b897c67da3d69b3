# jetemail

A command-line client for the JetEmail API whose core is verified with Verus.

- `src/` — the verified library: key resolution and masking, the config
  file model, the request each command makes (paths, query pairs, and JSON
  bodies put together from the parsed `--body-json` object, the `--field`
  values and the typed flags), path-segment
  percent-encoding, reply shaping for tables and summaries, the update
  decisions (versions, checksums, size caps), and the state machine of the
  live log view. Every function carries a contract; laws such as the key
  resolution order, typed flags winning over the body sources,
  read-after-write of config keys, encoded segments staying one segment,
  what a poll leaves shown in the log view and the calendar round trip are
  proof functions. Reading JSON text (a `--body-json` source, a `--field`
  value) is done by `app/` with serde_json, since JSON numbers are floats.
- `app/` — the program around it: argument parsing, files and standard
  input, HTTP, prompts and spinners, tables, the terminal UI drawing, and
  self-update.
- `tests/` — tests of the library on concrete values.

# token-analyzer

Token and cost accounting for the JSONL session logs of a coding assistant,
with a command-line tool (`cta`) and an MCP server.

- `src/` is the library, verified with Verus: reading and deduplicating
  session records (each line parsed as JSON by `serde_json`), per-model
  and per-tool aggregation, compression detection, usage-pattern signals and classification, token shares and
  trend buckets, the sync decisions, the archive layout and its zstd round
  trip (archiving always succeeds, and restoring its output gives the log
  back), path resolution from the environment, and the text formatting of
  counts, session ids, project names and CSV fields.  Each public function
  states its result in its `ensures`; the properties that span several
  functions are public proof functions (`lemma_*`).
- `app/` is the program around it: file and directory access, SQLite
  storage, the floating-point cost and anomaly statistics, the CLI and the
  MCP tools.
- `tests/` runs the library on concrete inputs.

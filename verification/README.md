# tempo_cli

A command-line client for Grafana Tempo, with its core verified in Verus.

- `src/` is the verified library: resolution of `--start`/`--end` time
  arguments (`time`), the HTTP requests sent to Tempo (`client`, `commands`),
  a model of the JSON documents Tempo returns (`json`), the human-readable
  rendering of traces, search results and tags (`format`), decimal text of
  integers (`text`), the exact binary64 model behind one-decimal
  durations (`binary64`) and an upper bound on the seconds a duration text
  can reach (`duration_bound`).
- `app/` is the program around it: argument parsing, environment, HTTP,
  JSON (de)serialisation and coloured printing.
- `tests/` runs the library on concrete values.

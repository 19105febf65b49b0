# tpi

The core of a coding agent for the terminal, written in Verus.

- `src/` is the library. Every function states what it does, and Verus proves it: the course of
  a run and its recovery from broken streams (`agent`), what the user says and sees (`app`),
  requests and streams of a model (`provider`), the bounds of a context (`context`), sessions and
  the conversations that they come to (`session`, `replay`), configuration (`config`), child
  processes (`process`), remote shells (`remote`), tool servers (`mcp`), evaluation (`eval`) and
  upkeep (`doctor`, `maintenance`).
- `app/` is the program around it: the command line, files, network, processes and the terminal.
- `tests/` runs the library on given values.

What is taken on trust is named where it stands: small functions that call `serde_json`, `uuid`,
`blake3`, `camino`, `time`, `toml`, `reqwest` or the standard library, each with what it claims.
The results of `camino` are those of the platform that the library is built for.

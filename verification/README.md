# Nonoka

Nonoka is an assistant for the terminal and for group chats. This crate holds its decisions as a
library that Verus verifies, and the program around it.

- `src/` is the library. Each function states in its contract what it returns; the laws that span
  functions are public proof functions beside them.
  - `text`, `textmap`, `number`, `alphabet`, `order`, `path`, `encoding`, `json`: strings, numbers,
    orders, paths, bytes and JSON documents.
  - `report`, `tally`: reports with numbers to be filled in, and counts of games and wins.
  - `aoe4`: a server of game statistics: its tools, its cache, its reports and its protocol.
  - `dsh`: the client of an agent host, and the course of a turn with it.
  - `provider`, `provider_config`: the providers of models and the pools that they form.
  - `claude_code`, `embedding`: a model behind a command line, and models for embeddings on disk.
  - `registry`, `vision`, `kb`, `scripts`: the tools that models call.
  - `trigger`, `voice`, `web`: when to answer in a chat, what to listen with, and whose settings.
- `app/` reads and writes: files, databases, sockets, the terminal and the clock. It also holds
  what is floating point.
- `tests/` runs the library with the crates it rests on.

Few things are believed without proof: what `serde_json`, `base64` and `blake3` compute, and three
functions of the standard library. Each is a small function marked `external_body`, or an
`assume_specification`, with its claim above it.

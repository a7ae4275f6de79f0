# sovereign_engine

The decisions of a self-hosted LLM gateway, written in Rust and proved with Verus.

The gateway sits in front of llama.cpp containers. It speaks the OpenAI and the Anthropic API,
logs users in, downloads models and starts and stops their backends. What it decides is in `src/`;
every function there has a contract that says what it returns for each input.

- `api/anthropic`, `api/messages`, `api/stream`: the Anthropic API in terms of the OpenAI API, for
  whole responses and for streams. `api/stream_laws` and `api/stream_inputs` say what holds of
  every translated stream.
- `api/openai`, `api/gateway`: admission, attribution of usage, and what is passed on of a
  backend's answer.
- `api/gguf`, `api/gguf_laws`, `api/kv`: metadata of GGUF files and the memory that a model needs.
- `api/hf`, `api/downloads`, `api/download_run`, `backfill`: which files of a repository to take,
  the state of all downloads, the course of each, and what is filled in at startup.
- `api/common`, `docker`: starting and stopping backends, their command lines and overrides.
- `api/admin`, `api/checks`, `db`: the administrators' API, and what is checked of a request first.
- `auth`, `config`, `routing`, `csp`: logins, sessions, limits, configuration and headers.
- `metrics`, `json`, `text`, `ids`, `reply`: what the rest is built on.

`app/` is the program around the library: HTTP, Docker, the database and files. It hands plain
values to the library and carries out what comes back.

Calls into other crates stand behind small functions with stated contracts: JSON text
(`serde_json`), identifiers (`uuid`), digests and their encoding (`sha2`, `base64`), comparison in
constant time (`subtle`) and the counters of login attempts (`dashmap`).

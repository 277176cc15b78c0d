# codex_api

Verified core of a Chat Completions client for the Codex agent, aimed at
Sarvam AI's OpenAI-compatible endpoint.

- `src/` — the library, proved with Verus:
  - `chat_completions.rs`: turning a Responses API request into a Chat
    Completions request (messages, tool definitions, reasoning effort) and
    its JSON wire shape;
  - `synth.rs`, `tool_defs.rs`: the simplified `edit_file` / `write_file` /
    `read_file` / `glob` / `grep` tools and the `apply_patch` envelopes and
    shell commands built from their arguments;
  - `sse.rs`: the state machine behind the event stream — what each chunk
    does to the accumulated state, which events it yields, and the closing
    events;
  - `index_order.rs`: the keys of a `BTreeMap` of stream indices in
    increasing order, as the closing events list the tool calls;
  - `catalog.rs`: the built-in Sarvam model catalog and provider settings;
  - `json.rs`, `text.rs`, `protocol.rs`: JSON documents, string helpers and
    the shared protocol types.
- `app/` — plain Rust around it: serde forms, the tokio task that reads the
  byte stream and drives the state machine, and the provider's prompt.
- `tests/` — tests of the library on concrete inputs.

# session_protocol

The protocol core of an always-on agent session host: a daemon runs the agent
and keeps its sessions whether or not a GUI window is attached, and GUIs
reattach by subscribing and catching up.

`src/` is the verified library (Verus). Each public function states what it
returns in its `ensures`; properties that span several calls are public proof
functions named `lemma_*`.

- `event_seq`, `event_log`, `acp_tunnel`: event positions, the append-only
  log, catch-up windows and the jsonl snapshot.
- `daemon_id`, `local`: daemon socket identifiers.
- `frame`: length-prefixed, zstd-compressed Envelope frames.
- `jsonrpc`, `methods`, `rpc_dispatch`: JSON-RPC messages and where each is
  handled, on the daemon and on the GUI.
- `gui_ids`, `mux`: several GUIs on one daemon (id remapping, socket pairing,
  outgoing routing).
- `coalesce`, `coalescer`: joining streamed agent text per session.
- `permission`, `host`, `prompts`: prompt policy, settings, prompt deadlines.
- `session_seqs`, `generating`, `session_info`, `models`, `external`,
  `credentials`, `dirty_buffers`, `clone_plan`: the rest of the host's and the
  GUI's bookkeeping.

`app/` is ordinary Rust around the library: serde copies of the wire types,
file I/O, the async stream, and a process-wide flag. `tests/` runs the
library with the real outside crates.

The host's and the GUI's request handlers themselves (the async code that
runs the native agent, spawns ACP children, opens windows and dialogs) are
not here: they are built on Zed's gpui, project and agent crates, which this
workspace cannot build. Every decision they make is a function in `src/`
(routing, replies, coalescing, prompt steps and answers, id remapping,
sequence bookkeeping), which such handlers call with plain values.

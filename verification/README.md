# nanos

A runtime that hosts small LLM agents in a WebAssembly sandbox, with a
message bus between agents, a TCP relay between nodes, an MCP client and
several inference backends.

The decisions of the runtime are written in Verus and proved against their
contracts:

- `src/` is the verified library: manifests and resource limits, the sandbox
  permission rules and host-call answers, the agent loop as a state machine,
  the JSON bridge of the JavaScript agent, the message bus and the node relay,
  the dashboard, trace tables, ChatML handling, the tokenizer and checkpoint
  layout of the built-in model, and the MCP request/response framing.
- `app/` is the program around it: command line, files, sockets, threads,
  the WebAssembly engine, HTTP and the floating-point model code.
- `tests/` runs the library on concrete values.

The agent program that runs inside the sandbox is a separate WebAssembly
module, built on its own and loaded from the manifest's `binary`; it is not
part of this crate. Its turn-by-turn decisions are stated and proved here as
`agent::AgentSession`, which a driver of that module would follow; this
crate's program does not drive it itself.

`resources.max_steps` caps each run twice: the sandbox gets
`max_steps * 100_000` units of fuel, and the host refuses every call beyond
the `max_steps`-th traced one (`sandbox::admit_call`, `JsBridge::admits`).

# gemini_cli

A command-line assistant for Google's Gemini models, with tool servers
that speak JSON-RPC over their standard streams.

- `src/` is the verified library: the JSON model and schema sanitizer,
  message framing, the decisions of the tool servers (command, file system,
  memory stores), the host's bookkeeping of servers and responses, the chat
  history and task-loop rules, configuration switches, and request building for the
  model. Every function there carries a contract checked by Verus; calls
  into `diffy`, `serde_json` and a few std functions sit behind small
  trusted wrappers.
- `tests/` runs the library on concrete values.
- `app/` is the program around it: command-line parsing, files, processes,
  HTTP calls and the terminal.

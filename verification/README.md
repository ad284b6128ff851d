# hyprharness

The verified core of a Hyprland computer-use harness and the thin program
around it.

- `src/` is the library, verified with Verus: monitor geometry and the
  Wayland pointer frame (`models`, `input`), the input safety policy and its
  per-minute rate limits (`policy`), key-name normalisation and `wtype`
  argument vectors (`keyboard`), PNG header parsing and `grim` arguments
  (`capture`), pointer-move planning, monitor and window selection and
  capture digests (`harness`), the decisions of the observe, move and click
  tools as step functions from state and event to state and action, with
  their check order and audit records (`flow`), the Hyprland socket
  protocol text (`ipc`),
  sequence plans (`sequence`), audit-log rotation (`audit`), the pointer
  self-test pattern (`cli`), tool arguments and image payloads (`mcp`), and
  decimal/hex text (`text`).
- `app/` is the program: the loops that carry out the flows' actions, the
  MCP server, the command line, process and
  socket I/O, the Wayland virtual-pointer thread, the audit log file, and the
  serde/schema copies of the library's types.
- `tests/` exercises the library on concrete values.

# browsertools

A browser automation server for AI assistants, driving Chrome over the
DevTools protocol and answering Model Context Protocol tool calls.

- `src/` is the verified library: the JSON model and its compact
  serialization, the formatters (console messages, browser issues, network
  requests, accessibility snapshots), the collectors and page registry, the
  protocol's command framing and result reading, the launch command line and
  configuration, and the decisions inside the tool handlers. Verus checks
  every function there against its contract, except a handful of small
  wrappers around outside calls (marked `external_body`), whose contracts
  are trusted and say what the outside code's documentation promises.
- `app/` is the program around it: the WebSocket client, the tool server,
  the command line, and the floating-point figures (trace metrics, sizes,
  durations, clip regions) that the library takes already rendered.
- `tests/` exercises the library on concrete values.

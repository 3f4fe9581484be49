# zerostack_mcp

The rules of zerostack's MCP (Model Context Protocol) client, verified with
Verus.

- `src/config.rs`: how servers are configured, and the time limits and OAuth
  settings that follow.
- `src/operation.rs`: deadlines of operations, reports while they are pending,
  and the timeout error.
- `src/manager.rs`: the set of live connections and the tools that they offer.
- `src/text.rs`, `src/time.rs`: what the proofs rely on of `CompactString` and
  `Duration`, and decimal numbers.
- `app/`: timers, connections, logging and serialisation around these rules.
  Nothing in it is verified.

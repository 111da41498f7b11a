# arconaut

The core of an AI coding-agent runtime, written in Verus and verified:
the conversation model and its token bookkeeping, context compaction and
system-prompt injection, agent routing, the decisions of an agent turn,
the logic of the built-in tools (editing, line selection, command
screening, ignore rules, search results, utilities), skills, variables,
documents, report layout, the message bus, the output buffer of the
persistent shell, and the state and escape sequences of the terminal
interface.

Layout:

- `src/` — the verified library. Each module states its behaviour in
  `requires`/`ensures` contracts over mathematical models; calls into
  outside crates go through small trusted wrappers whose contracts are
  documented next to them.
- `tests/` — tests of the library on concrete values.
- `app/` — the command-line program around the library: argument
  handling, the HTTP provider, file and process I/O, the persistent shell
  and the terminal user interface.

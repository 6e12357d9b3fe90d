# arcanum

Arcanum gives agents skills. A skill is a folder with a `SKILL.md` in one of the laboratories
that an agent is connected to. The `list_skills` tool lists the named skills, `load_skill` hands
one to the agent and records it, and a monitor per agent puts the loaded skill into the agent's
queue again whenever its token count has grown past a threshold.

- `src/` is the library: parsing, quoting, the rules of the store, the registry of monitors, and
  the state machines of a monitor loop, a load and the notification listener. It is written in
  Verus; each function states what it computes, and the laws that relate them are proof
  functions whose names start with `law_`.
- `app/` is the daemon around it: Postgres, the plugin executor, the MCP server.
- `tests/` runs the library with its outside crates.

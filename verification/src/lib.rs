//! The logic of arcanum: finding the skills in an agent's laboratories, loading one, and
//! keeping it in the agent's context as the agent uses tokens.
//!
//! A skill is a folder with a `SKILL.md`. The `list_skills` tool lists every named skill of
//! the laboratories that an agent is connected to, `load_skill` hands one to the agent and
//! records it, and a monitor per agent puts it into the agent's queue again whenever the
//! agent's token count has grown past a threshold.
//!
//! Everything that reads or writes the world (the database, the laboratories, the agent's
//! queue, the MCP transport) stays outside. It is driven by the decisions made here: a
//! decision takes plain values and gives plain values, and its contract says which.

pub mod db;
pub mod mcp;
pub mod monitor;
pub mod registry;
pub mod text;

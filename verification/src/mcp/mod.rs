//! The MCP tools.

pub mod common;
pub mod frontmatter;
pub mod list_skills;
pub mod load_skill;
pub mod request;
pub mod run;

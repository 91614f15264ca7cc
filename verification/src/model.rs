//! The values the rest of the library speaks of.

pub mod channel_id;
pub mod code;
pub mod compiler;
pub mod compiler_options;
pub mod compiler_spec;
pub mod guild_id;
pub mod language;

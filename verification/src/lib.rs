//! Scoped settings for a code-running chat bot.
//!
//! A community of rooms shares a catalog of languages and compilers. Each room
//! may override a setting; a room without an override reads the community's
//! default, and failing that a built-in default. The settings live in a remote
//! key-value backend which this library never touches: every operation is a
//! small state machine that names the next command for the backend and
//! consumes its reply.
//!
//! - `model`, `table`: the records of the catalog, and the catalog.
//! - `store`: the commands and replies of the backend, and a model of a
//!   backend that works.
//! - `setting`: reads and writes of settings, room by room or for a whole
//!   community; `semantics`: what they come to against the model.
//! - `context`, `action`: which compiler applies, and what a user can ask.
//! - `chat`, `code_input`, `compile_result`: messages in, words out.
//! - `config_file`: the catalog as it is written down.
//! - `memory`: the same rules with the settings kept in memory.
//! - `wandbox`: what is sent to the compile service, and what comes back.

pub mod action;
pub mod chat;
pub mod code_input;
pub mod compile_result;
pub mod config_file;
pub mod context;
pub mod error;
pub mod memory;
pub mod model;
pub mod semantics;
pub mod setting;
pub mod store;
pub mod table;
pub mod wandbox;

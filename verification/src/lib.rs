//! The decisions behind a cache for evaluations of Nix commands.

pub mod command;
pub mod digest;
pub mod input;
pub mod laws;
pub mod miss;
pub mod normal;
pub mod order;
pub mod output;
pub mod path;
pub mod query;
pub mod row;
pub mod state;
pub mod table;
pub mod text;
pub mod time;

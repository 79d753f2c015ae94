pub mod agent;
pub mod api;
pub mod command;
pub mod config;
pub mod context;
pub mod display;
pub mod error;
pub mod json;
pub mod readline;
pub mod session;
pub mod signal;
pub mod skill;
pub mod sse;
pub mod stream;
pub mod text;
pub mod timer;
pub mod tool;
pub mod tooldefs;
pub mod types;
pub mod util;
pub mod wire;

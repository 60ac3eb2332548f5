//! Core logic of a small HTTP server: request routing, URL and file-name
//! handling, the modpack catalogue, visitor bookkeeping and error mapping.
pub mod config;
pub mod logger;
pub mod model;
pub mod modules;
pub mod prerouting_modules;
pub mod router;
pub mod util;

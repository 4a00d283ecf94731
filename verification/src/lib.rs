//! Verified core of a desktop authoring tool's embedded local server:
//! site registration with deterministic identifiers, real-time message
//! fan-out, route resolution for static content, and the server lifecycle,
//! together with the tool's text utilities (naming conversion, game
//! configuration files, thumbnail cache naming).

pub mod copy_progress;
pub mod digits;
pub mod errors;
pub mod fingerprints;
pub mod game_config;
pub mod hub;
pub mod naming;
pub mod registry;
pub mod router;
pub mod server;
pub mod text;
pub mod thumbnail;
pub mod window_target;

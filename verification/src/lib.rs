//! The routing, caching and plugin-admission logic of a small extensible web
//! server: requests are matched against configured routes, answered from a
//! cache or forwarded upstream, and signed WebAssembly plugins are admitted
//! only when one of the trusted keys verifies them.
use vstd::prelude::*;

pub mod cache;
pub mod config;
pub mod json;
pub mod listen;
pub mod plugins;
pub mod reload;
pub mod router;
pub mod text;
pub mod tls;
pub mod websocket;

//! Core of a desktop shell host: a verified model of the multiplexed
//! process-bridge (request/reply correlation over a line-delimited JSON-RPC
//! channel, notification fan-out), the interactive session table, and the
//! request router with its method registries and path allow-list.

pub mod bridge;
pub mod cli;
pub mod codec;
pub mod deeplink;
pub mod gitcfg;
pub mod hostenv;
pub mod paths;
pub mod router;
pub mod rpc;
pub mod state;
pub mod strutil;
pub mod terminal;
pub mod window;

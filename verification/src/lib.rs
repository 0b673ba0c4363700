//! Verified core of a terminal wallet front-end for the Komodo DeFi Framework:
//! coin bookkeeping, the interactive screen state, log buffering, QR rendering,
//! configuration documents and RPC payloads.

pub mod app;
pub mod coins;
pub mod config;
pub mod display;
pub mod events;
pub mod file_manager;
pub mod json;
pub mod kdf_client;
pub mod kdf_process;
pub mod logger;
pub mod qr_compact;
pub mod text;

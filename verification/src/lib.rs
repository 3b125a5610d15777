//! Verified core of the stark-bot backend: amount conversion, URL handling,
//! JSON result interpretation, routing decisions and configuration logic.

pub mod text;
pub mod amounts;
pub mod json;
pub mod tokens;
pub mod url_parts;
pub mod credits;
pub mod protocol;
pub mod bot_config;
pub mod backup;
pub mod config;
pub mod seed;
pub mod bridge;
pub mod instruction;
pub mod crypto;
pub mod router;
pub mod registry;
pub mod provisioning;
pub mod keystore;
pub mod gateway;
pub mod executor;
pub mod web3;
pub mod payments;
pub mod swap;
pub mod abi;

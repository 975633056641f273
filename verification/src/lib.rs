//! Encoding of decided trade solutions into call payloads for an on-chain
//! router or a venue's executor contract.

pub mod approval;
pub mod bytes;
pub mod command;
pub mod encoder_builder;
pub mod errors;
pub mod models;
pub mod strategy_encoder;
pub mod swap_encoder;
pub mod tycho_encoder;
pub mod validation;

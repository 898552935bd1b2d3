//! The Ethereum side of a bridge between two chains.
//!
//! A transfer is started, completed or taken back by a transaction to the initiating
//! contract; what the contract has stored of it can be read, and what it reports can be
//! listened to. This crate decides what is sent and what is made of the answers. The
//! connections themselves are the business of the program that uses it.
pub mod client;
pub mod config;
pub mod events;
pub mod hexadecimal;
pub mod monitoring;
pub mod rlp;
pub mod storage;
pub mod types;
pub mod uint;

pub use client::EthClient;
pub use config::Config;
pub use types::{
    vec_to_array, AbstractBlockainEvent, EthInitiatorError, EthInitiatorEvent,
    MoveCounterpartyError, MoveCounterpartyEvent, SCCResult, SCIResult,
};

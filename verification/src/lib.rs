//! Verified core of the AnchorKit command-line tool: parsing, validation and
//! report rendering, with the process, file and network work left to the binary.

pub mod text;
pub mod version;
pub mod rpc;
pub mod timefmt;
pub mod audit;
pub mod ledger;
pub mod session;
pub mod config;
pub mod register;
pub mod doctor;
pub mod commands;

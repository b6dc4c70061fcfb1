//! Encryption and decryption of the wrapped JSON data files used by
//! RPG Maker MZ games and MV games with a custom data loader.

pub mod crypto;
pub mod paths;
pub mod text;
pub mod patch;
pub mod mz;
pub mod mv;
pub mod param_parser;
pub mod commands;
pub mod detect;
pub mod restore;
pub mod listing;

//! The game's servers: request signatures, account details, transfer codes
//! and the strings the editor keeps inside a save.

pub mod signature;
pub mod account_info;
pub mod password;
pub mod transfer;
pub mod stored_string;

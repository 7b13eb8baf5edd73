//! Reading, editing and writing of Battle Cats save data.

pub mod blocks;
pub mod country_code;
pub mod edits;
pub mod game;
pub mod game_data;
pub mod game_version;
pub mod hash;
pub mod network;
pub mod save;
pub mod text;
pub mod ui;
pub mod stream;

//! Game content the save refers to.

pub mod main_story;

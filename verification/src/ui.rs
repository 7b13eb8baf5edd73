//! What the editor's screens decide: which screens there are, and the checks
//! on a value typed in.

pub mod app;
pub mod editview;

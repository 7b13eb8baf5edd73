//! Blocks of the save that later game versions added, each closed by a
//! marker number.

pub mod marker;
pub mod gv_71;
pub mod gv_72;
pub mod gv_76;
pub mod gv_77;
pub mod gv_70100;
pub mod gv_90300;
pub mod gv_80600;
pub mod gv_80700;
pub mod gv_80000;
pub mod gv_80200;
pub mod gv_80300;
pub mod gv_81000;
pub mod gv_80500;
pub mod gv_90800;
pub mod gv_90900;
pub mod gv_91000;
pub mod gv_90400;
pub mod gv_90500;
pub mod gv_90000;
pub mod gv_90100;
pub mod gv_90700;

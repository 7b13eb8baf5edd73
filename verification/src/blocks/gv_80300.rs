//! The filibuster stage.

use vstd::prelude::*;
use crate::blocks::marker::{read_with_marker, spec_read_with_marker, write_with_marker};
use crate::stream::{Reader, StreamResult, Writer, Readable, Writable, read_result};

verus! {

/// The filibuster stage and whether it is on, then the marker 80300.
#[derive(Debug, Clone, Copy, PartialEq, Eq, Structural)]
pub struct GV80300Block {
    pub filibuster_stage_id: i8,
    pub filibuster_stage_enabled: bool,
}

impl GV80300Block {
    pub fn read(r: &mut Reader) -> (res: StreamResult<Self>)
        ensures
            read_result(
                *old(r),
                *final(r),
                res,
                match spec_read_with_marker::<(i8, bool)>(80300, old(r).rest()) {
                    Some((t, k)) => Some((GV80300Block { filibuster_stage_id: t.0, filibuster_stage_enabled: t.1 }, k)),
                    None => None,
                },
            ),
    {
        let (filibuster_stage_id, filibuster_stage_enabled) = read_with_marker::<(i8, bool)>(r, 80300)?;
        Ok(GV80300Block { filibuster_stage_id, filibuster_stage_enabled })
    }

    pub fn write(&self, w: &mut Writer)
        ensures
            final(w).bytes() == old(w).bytes() + (self.filibuster_stage_id, self.filibuster_stage_enabled).spec_write()
                + 80300i32.spec_write(),
    {
        write_with_marker(w, &(self.filibuster_stage_id, self.filibuster_stage_enabled), 80300);
    }
}

} // verus!

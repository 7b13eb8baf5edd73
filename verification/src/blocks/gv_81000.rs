//! The restart pack.

use vstd::prelude::*;
use crate::blocks::marker::{read_with_marker, spec_read_with_marker, write_with_marker};
use crate::stream::{Reader, StreamResult, Writer, Readable, Writable, read_result};
use crate::stream::compound::Assertable;

verus! {

/// The restart pack state, then the marker 81000.
#[derive(Debug, Clone, Copy)]
pub struct GV81000Block {
    pub restart_pack: i8,
    pub _81000: Assertable,
}

impl GV81000Block {
    pub fn read(r: &mut Reader) -> (res: StreamResult<Self>)
        ensures
            read_result_view_i8(*old(r), *final(r), res, spec_read_with_marker::<i8>(81000, old(r).rest())),
    {
        let restart_pack = read_with_marker::<i8>(r, 81000)?;
        Ok(GV81000Block { restart_pack, _81000: Assertable })
    }

    pub fn write(&self, w: &mut Writer)
        ensures
            final(w).bytes() == old(w).bytes() + self.restart_pack.spec_write() + 81000i32.spec_write(),
    {
        write_with_marker(w, &self.restart_pack, 81000);
    }
}

/// A read of the block against what the format says of its number.
pub open spec fn read_result_view_i8(
    before: Reader,
    after: Reader,
    res: StreamResult<GV81000Block>,
    expected: Option<(i8, int)>,
) -> bool {
    crate::stream::lists::read_result_view(before, after, res, expected, |b: GV81000Block| b.restart_pack)
}

} // verus!

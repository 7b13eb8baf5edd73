//! Two unknown numbers, a date and a timestamp added in version 9.1.

use vstd::prelude::*;
use crate::blocks::marker::{read_with_marker, spec_read_with_marker, write_with_marker};
use crate::stream::{Reader, StreamResult, Writer, Readable, Writable, read_result};
use crate::stream::compound::Assertable;

verus! {

/// Two unknown numbers, a date, a timestamp (the bits of the `f64` it is
/// stored as), then the marker 90100.
#[derive(Debug, Clone, Copy)]
pub struct GV90100Block {
    pub unknown_1: i16,
    pub unknown_2: i16,
    pub unknown_date: i32,
    pub unknown_timestamp: u64,
    pub _90100: Assertable,
}

pub type GV90100Tuple = (i16, (i16, (i32, u64)));

pub open spec fn gv90100_tuple(b: GV90100Block) -> GV90100Tuple {
    (b.unknown_1, (b.unknown_2, (b.unknown_date, b.unknown_timestamp)))
}

impl GV90100Block {
    pub fn read(r: &mut Reader) -> (res: StreamResult<Self>)
        ensures
            crate::stream::lists::read_result_view(
                *old(r),
                *final(r),
                res,
                spec_read_with_marker::<GV90100Tuple>(90100, old(r).rest()),
                |b: Self| gv90100_tuple(b),
            ),
    {
        let (unknown_1, (unknown_2, (unknown_date, unknown_timestamp))) = read_with_marker::<GV90100Tuple>(r, 90100)?;
        Ok(GV90100Block { unknown_1, unknown_2, unknown_date, unknown_timestamp, _90100: Assertable })
    }

    pub fn write(&self, w: &mut Writer)
        ensures
            final(w).bytes() == old(w).bytes() + gv90100_tuple(*self).spec_write() + 90100i32.spec_write(),
    {
        let t = (self.unknown_1, (self.unknown_2, (self.unknown_date, self.unknown_timestamp)));
        assert(t.can_write());
        write_with_marker(w, &t, 90100);
    }
}

} // verus!

//! The officer's club: leadership and the officer cat.

use vstd::prelude::*;
use crate::blocks::marker::{read_with_marker, spec_read_with_marker, write_with_marker};
use crate::save::fields::Formi16;
use crate::stream::{Reader, StreamResult, Writer, Readable, Writable, read_result};

verus! {

/// A flag, leadership, the officer cat and its form, then the marker 80200.
#[derive(Debug, Clone, Copy, PartialEq, Eq, Structural)]
pub struct GV80200Block {
    pub unknown: bool,
    pub leadership: i16,
    pub officer_cat_id: i16,
    pub officer_cat_form: Formi16,
}

pub type GV80200Tuple = (bool, (i16, (i16, Formi16)));

pub open spec fn gv80200_from(t: GV80200Tuple) -> GV80200Block {
    GV80200Block { unknown: t.0, leadership: t.1.0, officer_cat_id: t.1.1.0, officer_cat_form: t.1.1.1 }
}

pub open spec fn gv80200_tuple(b: GV80200Block) -> GV80200Tuple {
    (b.unknown, (b.leadership, (b.officer_cat_id, b.officer_cat_form)))
}

impl GV80200Block {
    pub fn read(r: &mut Reader) -> (res: StreamResult<Self>)
        ensures
            read_result(
                *old(r),
                *final(r),
                res,
                match spec_read_with_marker::<GV80200Tuple>(80200, old(r).rest()) {
                    Some((t, k)) => Some((gv80200_from(t), k)),
                    None => None,
                },
            ),
    {
        let (unknown, (leadership, (officer_cat_id, officer_cat_form))) = read_with_marker::<GV80200Tuple>(r, 80200)?;
        Ok(GV80200Block { unknown, leadership, officer_cat_id, officer_cat_form })
    }

    pub fn write(&self, w: &mut Writer)
        ensures
            final(w).bytes() == old(w).bytes() + gv80200_tuple(*self).spec_write() + 80200i32.spec_write(),
    {
        let t = (self.unknown, (self.leadership, (self.officer_cat_id, self.officer_cat_form)));
        write_with_marker(w, &t, 80200);
    }
}

} // verus!

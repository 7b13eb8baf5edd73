//! Catamin stages, laid out as uncanny legends, with lucky tickets and a flag.

use vstd::prelude::*;
use crate::blocks::gv_76::UncannyChapters;
use crate::blocks::gv_77::{read_uncanny_tickets, spec_read_uncanny_tickets, spec_write_uncanny_tickets, write_uncanny_tickets};
use crate::stream::{Reader, StreamResult, Writer};
use crate::stream::compound::LengthVec;
use crate::stream::lists::read_result_view;

verus! {

/// Catamin stages, lucky tickets and a flag, closed by the marker 77.
#[derive(Debug, Clone)]
pub struct GV70100Block {
    pub catamin_stages: UncannyChapters,
    pub lucky_tickets: LengthVec<i32>,
    pub unknown: bool,
}

impl GV70100Block {
    pub fn read(r: &mut Reader) -> (res: StreamResult<Self>)
        ensures
            read_result_view(
                *old(r),
                *final(r),
                res,
                spec_read_uncanny_tickets(77, old(r).rest()),
                |x: Self| (x.catamin_stages.chapters@, x.catamin_stages.unknown@, x.lucky_tickets.0@, x.unknown),
            ),
    {
        let (catamin_stages, lucky_tickets, unknown, _end) = read_uncanny_tickets(r, 77)?;
        Ok(GV70100Block { catamin_stages, lucky_tickets, unknown })
    }

    pub fn write(&self, w: &mut Writer)
        ensures
            final(w).bytes() == old(w).bytes() + spec_write_uncanny_tickets(
                77,
                self.catamin_stages.chapters@,
                self.catamin_stages.unknown@,
                self.lucky_tickets.0@,
                self.unknown,
            ),
    {
        write_uncanny_tickets(w, &self.catamin_stages, &self.lucky_tickets, self.unknown, 77);
    }
}

} // verus!

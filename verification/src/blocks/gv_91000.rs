//! Names of lineup slots.

use vstd::prelude::*;
use crate::blocks::marker::{read_marker, spec_read_marker};
use crate::save::GVCC;
use crate::stream::{Reader, StreamResult, Writer, Writable};
use crate::stream::compound::{Assertable, LengthString};
use crate::stream::lists::{read_result_view, VecArgsLength};
use crate::stream::modeled::{models, read_models, spec_read_models, spec_write_models, write_models};

verus! {

/// Slot names: 15 before version 11.6, then counted by a byte.
pub open spec fn slot_names_length(gv: u32) -> VecArgsLength {
    if gv < 110600 {
        VecArgsLength::Fixed(15)
    } else {
        VecArgsLength::I8
    }
}

/// The names of the lineup slots.
#[derive(Debug, Clone)]
pub struct SlotNames {
    pub names: Vec<LengthString>,
}

impl SlotNames {
    pub fn read(r: &mut Reader, args: GVCC) -> (res: StreamResult<Self>)
        ensures
            read_result_view(
                *old(r),
                *final(r),
                res,
                spec_read_models::<LengthString>(slot_names_length(args.gv.0), old(r).rest()),
                |x: Self| models(x.names@),
            ),
            res is Ok ==> old(r).position() <= final(r).position(),
    {
        let length = if args.gv.0 < 110600 { VecArgsLength::Fixed(15) } else { VecArgsLength::I8 };
        Ok(SlotNames { names: read_models::<LengthString>(r, length)? })
    }

    /// Writes 15 names (cut, or padded with empty ones) before version 11.6,
    /// then the names preceded by their count as a byte.
    pub fn write(&self, w: &mut Writer, args: GVCC)
        ensures
            final(w).bytes() == old(w).bytes() + spec_write_models::<LengthString>(
                slot_names_length(args.gv.0),
                models(self.names@),
            ),
    {
        let length = if args.gv.0 < 110600 { VecArgsLength::Fixed(15) } else { VecArgsLength::I8 };
        write_models::<LengthString>(w, &self.names, length);
    }
}

/// Slot names, then the marker 91000.
#[derive(Debug, Clone)]
pub struct GV91000Block {
    pub slot_names: SlotNames,
    pub _91000: Assertable,
}

impl GV91000Block {
    pub fn read(r: &mut Reader, args: GVCC) -> (res: StreamResult<Self>)
        ensures
            read_result_view(
                *old(r),
                *final(r),
                res,
                match spec_read_models::<LengthString>(slot_names_length(args.gv.0), old(r).rest()) {
                    Some((n, k1)) => match spec_read_marker(91000, old(r).rest().skip(k1)) {
                        Some(k2) => Some((n, k1 + k2)),
                        None => None,
                    },
                    None => None,
                },
                |x: Self| models(x.slot_names.names@),
            ),
    {
        let ghost start = *old(r);
        let _ = r.remaining();
        let slot_names = SlotNames::read(r, args)?;
        proof {
            Reader::lemma_rest_skip(start, *r);
        }
        let _91000 = read_marker(r, 91000)?;
        Ok(GV91000Block { slot_names, _91000 })
    }

    pub fn write(&self, w: &mut Writer, args: GVCC)
        ensures
            final(w).bytes() == old(w).bytes() + spec_write_models::<LengthString>(
                slot_names_length(args.gv.0),
                models(self.slot_names.names@),
            ) + 91000i32.spec_write(),
    {
        self.slot_names.write(w, args);
        self._91000.write(w, 91000);
    }
}

} // verus!

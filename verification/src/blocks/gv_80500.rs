//! Stages cleared ten times.

use vstd::prelude::*;
use crate::blocks::marker::{read_marker, spec_read_marker};
use crate::stream::{Reader, StreamResult, Writer, Readable, Writable};
use crate::stream::compound::LengthVec;
use crate::stream::lists::{read_result_view, spec_read_vec, spec_write_vec, VecArgsLength, lemma_vec_reader_bounded, vec_reader};

verus! {

/// Stage ids counted by a 32-bit number, then the marker 80500.
#[derive(Debug, Clone)]
pub struct GV80500Block {
    pub stage_ids_10s: Vec<i32>,
}

pub open spec fn spec_read_gv80500(bytes: Seq<u8>) -> Option<(Seq<i32>, int)> {
    match spec_read_vec::<i32>(VecArgsLength::I32, bytes) {
        Some((v, k1)) => match spec_read_marker(80500, bytes.skip(k1)) {
            Some(k2) => Some((v, k1 + k2)),
            None => None,
        },
        None => None,
    }
}

impl GV80500Block {
    pub fn read(r: &mut Reader) -> (res: StreamResult<Self>)
        ensures
            read_result_view(*old(r), *final(r), res, spec_read_gv80500(old(r).rest()), |x: Self| x.stage_ids_10s@),
    {
        let ghost start = *old(r);
        let _ = r.remaining();
        let v = LengthVec::<i32>::read(r, VecArgsLength::I32)?;
        proof {
            lemma_vec_reader_bounded::<i32>(VecArgsLength::I32);
            assert(vec_reader::<i32>(VecArgsLength::I32)(start.rest()) == spec_read_vec::<i32>(VecArgsLength::I32, start.rest()));
            Reader::lemma_rest_skip(start, *r);
        }
        read_marker(r, 80500)?;
        Ok(GV80500Block { stage_ids_10s: v.0 })
    }

    pub fn write(&self, w: &mut Writer)
        ensures
            final(w).bytes() == old(w).bytes() + spec_write_vec::<i32>(VecArgsLength::I32, self.stage_ids_10s@)
                + 80500i32.spec_write(),
    {
        crate::stream::lists::write_vec::<i32>(w, self.stage_ids_10s.as_slice(), crate::stream::lists::VecArgs::new_empty_i32());
        80500i32.write(w);
    }
}

} // verus!

//! A counted list and ten flags.

use vstd::prelude::*;
use crate::blocks::marker::{read_marker, spec_read_marker};
use crate::stream::{Reader, StreamResult, Writer, Readable, Writable};
use crate::stream::compound::LengthVec;
use crate::stream::lists::{read_result_view, spec_read_vec, spec_write_vec, VecArgsLength, lemma_vec_reader_bounded, vec_reader};

verus! {

/// Numbers counted by a 16-bit number, ten flags, then the marker 90800.
#[derive(Debug, Clone)]
pub struct GV90800Block {
    pub u1: Vec<i32>,
    pub u2: [bool; 10],
}

pub open spec fn spec_read_gv90800(bytes: Seq<u8>) -> Option<((Seq<i32>, [bool; 10]), int)> {
    match spec_read_vec::<i32>(VecArgsLength::I16, bytes) {
        Some((v, k1)) => match <[bool; 10]>::spec_read(bytes.skip(k1)) {
            Some((f, k2)) => match spec_read_marker(90800, bytes.skip(k1 + k2)) {
                Some(k3) => Some(((v, f), k1 + k2 + k3)),
                None => None,
            },
            None => None,
        },
        None => None,
    }
}

impl GV90800Block {
    pub fn read(r: &mut Reader) -> (res: StreamResult<Self>)
        ensures
            read_result_view(*old(r), *final(r), res, spec_read_gv90800(old(r).rest()), |x: Self| (x.u1@, x.u2)),
    {
        let ghost start = *old(r);
        let _ = r.remaining();
        let v = LengthVec::<i32>::read(r, VecArgsLength::I16)?;
        proof {
            lemma_vec_reader_bounded::<i32>(VecArgsLength::I16);
            assert(vec_reader::<i32>(VecArgsLength::I16)(start.rest()) == spec_read_vec::<i32>(VecArgsLength::I16, start.rest()));
            Reader::lemma_rest_skip(start, *r);
        }
        let ghost mid = *r;
        let u2 = <[bool; 10]>::read(r)?;
        proof {
            <[bool; 10]>::lemma_read_bounds(mid.rest());
            Reader::lemma_rest_skip(start, *r);
        }
        read_marker(r, 90800)?;
        Ok(GV90800Block { u1: v.0, u2 })
    }

    pub fn write(&self, w: &mut Writer)
        ensures
            final(w).bytes() == old(w).bytes() + spec_write_vec::<i32>(VecArgsLength::I16, self.u1@)
                + self.u2.spec_write() + 90800i32.spec_write(),
    {
        crate::stream::lists::write_vec::<i32>(w, self.u1.as_slice(), crate::stream::lists::VecArgs::new_empty_i16());
        assert(self.u2.can_write());
        self.u2.write(w);
        90800i32.write(w);
    }
}

} // verus!

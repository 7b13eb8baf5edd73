//! Gamatoto collaboration flags and durations, added in version 7.1.

use vstd::prelude::*;
use crate::blocks::marker::{read_marker, spec_read_marker};
use crate::stream::{Reader, StreamResult, Writer, Writable};
use crate::stream::compound::{Assertable, HashMapLength, spec_read_map};
use crate::stream::lists::{
    lemma_vec_reader_bounded, read_result_view, spec_read_vec, spec_write_vec, vec_reader, vec_writable,
    VecArgsLength,
};

verus! {

/// Flags by collaboration, then durations by collaboration (the bits of the
/// `f64` each is stored as), both counted by an `i32`, then the marker 71.
#[derive(Debug, Clone)]
pub struct GV71Block {
    pub gamatoto_collab_flags: HashMapLength<i32, bool>,
    pub gamatoto_collab_durations: HashMapLength<i32, u64>,
}

pub open spec fn spec_read_gv71(bytes: Seq<u8>) -> Option<((Seq<(i32, bool)>, Seq<(i32, u64)>), int)> {
    match spec_read_map::<i32, bool>(VecArgsLength::I32, bytes) {
        Some((f, k1)) => match spec_read_map::<i32, u64>(VecArgsLength::I32, bytes.skip(k1)) {
            Some((d, k2)) => match spec_read_marker(71, bytes.skip(k1 + k2)) {
                Some(k3) => Some(((f, d), k1 + k2 + k3)),
                None => None,
            },
            None => None,
        },
        None => None,
    }
}

pub open spec fn spec_write_gv71(f: Seq<(i32, bool)>, d: Seq<(i32, u64)>) -> Seq<u8> {
    spec_write_vec::<(i32, bool)>(VecArgsLength::I32, f) + spec_write_vec::<(i32, u64)>(VecArgsLength::I32, d)
        + 71i32.spec_write()
}

impl GV71Block {
    pub fn read(r: &mut Reader) -> (res: StreamResult<Self>)
        ensures
            read_result_view(
                *old(r),
                *final(r),
                res,
                spec_read_gv71(old(r).rest()),
                |b: Self| (b.gamatoto_collab_flags.0@, b.gamatoto_collab_durations.0@),
            ),
    {
        let ghost start = *old(r);
        let _ = r.remaining();
        let gamatoto_collab_flags = HashMapLength::<i32, bool>::read(r, VecArgsLength::I32)?;
        let ghost p1 = *r;
        proof {
            lemma_vec_reader_bounded::<(i32, bool)>(VecArgsLength::I32);
            assert(vec_reader::<(i32, bool)>(VecArgsLength::I32)(start.rest()) == spec_read_vec::<(i32, bool)>(
                VecArgsLength::I32,
                start.rest(),
            ));
            Reader::lemma_rest_skip(start, p1);
        }
        let gamatoto_collab_durations = HashMapLength::<i32, u64>::read(r, VecArgsLength::I32)?;
        let ghost p2 = *r;
        proof {
            lemma_vec_reader_bounded::<(i32, u64)>(VecArgsLength::I32);
            assert(vec_reader::<(i32, u64)>(VecArgsLength::I32)(p1.rest()) == spec_read_vec::<(i32, u64)>(
                VecArgsLength::I32,
                p1.rest(),
            ));
            Reader::lemma_rest_skip(p1, p2);
            Reader::lemma_rest_skip(start, p2);
            let k1 = p1.position() - start.position();
            let k2 = p2.position() - p1.position();
            assert(start.rest().skip(k1).skip(k2) =~= start.rest().skip(k1 + k2));
        }
        read_marker(r, 71)?;
        Ok(GV71Block { gamatoto_collab_flags, gamatoto_collab_durations })
    }

    pub fn write(&self, w: &mut Writer)
        ensures
            final(w).bytes() == old(w).bytes() + spec_write_gv71(
                self.gamatoto_collab_flags.0@,
                self.gamatoto_collab_durations.0@,
            ),
    {
        assert(vec_writable(VecArgsLength::I32, self.gamatoto_collab_flags.0@));
        self.gamatoto_collab_flags.write(w, VecArgsLength::I32);
        assert(vec_writable(VecArgsLength::I32, self.gamatoto_collab_durations.0@));
        self.gamatoto_collab_durations.write(w, VecArgsLength::I32);
        let marker = Assertable;
        marker.write(w, 71);
        assert(w.bytes() =~= old(w).bytes() + spec_write_gv71(
            self.gamatoto_collab_flags.0@,
            self.gamatoto_collab_durations.0@,
        ));
    }
}

} // verus!

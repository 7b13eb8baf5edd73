//! Medals.

use vstd::prelude::*;
use crate::stream::{Reader, StreamResult, Writer, Readable, Writable};
use crate::stream::compound::{HashMapLength, LengthVec, spec_read_map};
use crate::stream::lists::{
    read_result_view, spec_read_vec, spec_write_vec, VecArgsLength, lemma_vec_reader_bounded, vec_reader,
    vec_writable,
};

verus! {

/// Three numbers, a list and a map both counted by 16-bit numbers, and a flag.
#[derive(Debug, Clone)]
pub struct Medals {
    pub u1: i32,
    pub u2: i32,
    pub u3: i32,
    pub data_1: LengthVec<i16>,
    pub data_2: HashMapLength<i16, i8>,
    pub u4: bool,
}

pub type MedalsView = ((i32, (i32, i32)), Seq<i16>, Seq<(i16, i8)>, bool);

pub open spec fn spec_read_medals(bytes: Seq<u8>) -> Option<(MedalsView, int)> {
    match <(i32, (i32, i32))>::spec_read(bytes) {
        Some((h, k1)) => match spec_read_vec::<i16>(VecArgsLength::I16, bytes.skip(k1)) {
            Some((d1, k2)) => match spec_read_map::<i16, i8>(VecArgsLength::I16, bytes.skip(k1 + k2)) {
                Some((d2, k3)) => match bool::spec_read(bytes.skip(k1 + k2 + k3)) {
                    Some((b, k4)) => Some(((h, d1, d2, b), k1 + k2 + k3 + k4)),
                    None => None,
                },
                None => None,
            },
            None => None,
        },
        None => None,
    }
}

pub open spec fn spec_write_medals(m: MedalsView) -> Seq<u8> {
    m.0.spec_write() + spec_write_vec::<i16>(VecArgsLength::I16, m.1) + spec_write_vec::<(i16, i8)>(
        VecArgsLength::I16,
        m.2,
    ) + m.3.spec_write()
}

impl Medals {
    pub fn read(r: &mut Reader) -> (res: StreamResult<Self>)
        ensures
            read_result_view(
                *old(r),
                *final(r),
                res,
                spec_read_medals(old(r).rest()),
                |x: Self| ((x.u1, (x.u2, x.u3)), x.data_1.0@, x.data_2.0@, x.u4),
            ),
    {
        let ghost start = *old(r);
        let _ = r.remaining();
        let (u1, (u2, u3)) = <(i32, (i32, i32))>::read(r)?;
        proof {
            <(i32, (i32, i32))>::lemma_read_bounds(start.rest());
            Reader::lemma_rest_skip(start, *r);
        }
        let ghost m1 = *r;
        let data_1 = LengthVec::<i16>::read(r, VecArgsLength::I16)?;
        proof {
            lemma_vec_reader_bounded::<i16>(VecArgsLength::I16);
            assert(vec_reader::<i16>(VecArgsLength::I16)(m1.rest()) == spec_read_vec::<i16>(VecArgsLength::I16, m1.rest()));
            Reader::lemma_rest_skip(start, *r);
        }
        let ghost m2 = *r;
        let data_2 = HashMapLength::<i16, i8>::read(r, VecArgsLength::I16)?;
        proof {
            lemma_vec_reader_bounded::<(i16, i8)>(VecArgsLength::I16);
            assert(vec_reader::<(i16, i8)>(VecArgsLength::I16)(m2.rest()) == spec_read_vec::<(i16, i8)>(
                VecArgsLength::I16,
                m2.rest(),
            ));
            Reader::lemma_rest_skip(start, *r);
        }
        let u4 = bool::read(r)?;
        Ok(Medals { u1, u2, u3, data_1, data_2, u4 })
    }

    pub fn write(&self, w: &mut Writer)
        ensures
            final(w).bytes() == old(w).bytes() + spec_write_medals(
                ((self.u1, (self.u2, self.u3)), self.data_1.0@, self.data_2.0@, self.u4),
            ),
    {
        (self.u1, (self.u2, self.u3)).write(w);
        assert(vec_writable(VecArgsLength::I16, self.data_1.0@));
        self.data_1.write(w, VecArgsLength::I16);
        assert(vec_writable(VecArgsLength::I16, self.data_2.0@));
        self.data_2.write(w, VecArgsLength::I16);
        self.u4.write(w);
        assert(w.bytes() =~= old(w).bytes() + spec_write_medals(
            ((self.u1, (self.u2, self.u3)), self.data_1.0@, self.data_2.0@, self.u4),
        ));
    }
}

} // verus!

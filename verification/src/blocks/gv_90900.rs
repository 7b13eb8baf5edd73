//! The cat shrine, added in version 9.9.

use vstd::prelude::*;
use crate::blocks::marker::{read_marker, spec_read_marker};
use crate::stream::{Reader, StreamResult, Writer, Readable, Writable};
use crate::stream::compound::Assertable;
use crate::stream::lists::{
    lemma_vec_reader_bounded, read_result_view, read_vec, spec_read_vec, spec_write_vec, vec_reader,
    vec_writable, write_vec, VecArgs, VecArgsLength,
};

verus! {

/// The first numbers of the shrine: a flag, two timestamps (the bits of the
/// `f64` each is stored as) and whether the shrine is gone.
pub type ShrineHead = (bool, (u64, (u64, bool)));

/// The cat shrine: its numbers, flags counted by a byte, and the XP offered.
#[derive(Debug, Clone)]
pub struct CatShrine {
    pub unknown: bool,
    pub stamp_1: u64,
    pub stamp_2: u64,
    pub shrine_gone: bool,
    pub flags: Vec<i8>,
    pub xp_offering: i64,
}

pub type CatShrineModel = (ShrineHead, Seq<i8>, i64);

pub open spec fn cat_shrine_model(c: CatShrine) -> CatShrineModel {
    ((c.unknown, (c.stamp_1, (c.stamp_2, c.shrine_gone))), c.flags@, c.xp_offering)
}

pub open spec fn spec_read_cat_shrine(bytes: Seq<u8>) -> Option<(CatShrineModel, int)> {
    match ShrineHead::spec_read(bytes) {
        Some((h, k1)) => match spec_read_vec::<i8>(VecArgsLength::I8, bytes.skip(k1)) {
            Some((f, k2)) => match i64::spec_read(bytes.skip(k1 + k2)) {
                Some((x, k3)) => Some(((h, f, x), k1 + k2 + k3)),
                None => None,
            },
            None => None,
        },
        None => None,
    }
}

pub open spec fn spec_write_cat_shrine(m: CatShrineModel) -> Seq<u8> {
    m.0.spec_write() + spec_write_vec::<i8>(VecArgsLength::I8, m.1) + m.2.spec_write()
}

impl CatShrine {
    pub fn read(r: &mut Reader) -> (res: StreamResult<Self>)
        ensures
            read_result_view(*old(r), *final(r), res, spec_read_cat_shrine(old(r).rest()), |c: Self| cat_shrine_model(c)),
            res is Ok ==> old(r).position() <= final(r).position(),
    {
        let ghost start = *old(r);
        let _ = r.remaining();
        let (unknown, (stamp_1, (stamp_2, shrine_gone))) = ShrineHead::read(r)?;
        let ghost p1 = *r;
        proof {
            ShrineHead::lemma_read_bounds(start.rest());
            Reader::lemma_rest_skip(start, p1);
        }
        let flags = read_vec::<i8>(r, VecArgs::new_empty_i8())?;
        let ghost p2 = *r;
        proof {
            lemma_vec_reader_bounded::<i8>(VecArgsLength::I8);
            assert(vec_reader::<i8>(VecArgsLength::I8)(p1.rest()) == spec_read_vec::<i8>(VecArgsLength::I8, p1.rest()));
            Reader::lemma_rest_skip(p1, p2);
            Reader::lemma_rest_skip(start, p2);
            let k1 = p1.position() - start.position();
            let k2 = p2.position() - p1.position();
            assert(start.rest().skip(k1).skip(k2) =~= start.rest().skip(k1 + k2));
        }
        let xp_offering = i64::read(r)?;
        proof {
            i64::lemma_read_bounds(p2.rest());
        }
        Ok(CatShrine { unknown, stamp_1, stamp_2, shrine_gone, flags, xp_offering })
    }

    pub fn write(&self, w: &mut Writer)
        ensures
            final(w).bytes() == old(w).bytes() + spec_write_cat_shrine(cat_shrine_model(*self)),
    {
        let head = (self.unknown, (self.stamp_1, (self.stamp_2, self.shrine_gone)));
        assert(head.can_write());
        head.write(w);
        assert(vec_writable(VecArgsLength::I8, self.flags@));
        write_vec::<i8>(w, self.flags.as_slice(), VecArgs::new_empty_i8());
        self.xp_offering.write(w);
        assert(w.bytes() =~= old(w).bytes() + spec_write_cat_shrine(cat_shrine_model(*self)));
    }
}

/// The cat shrine, two unknown timestamps (as `f64` bits), then the marker
/// 90900.
#[derive(Debug, Clone)]
pub struct GV90900Block {
    pub cat_shrine: CatShrine,
    pub u1: u64,
    pub u2: u64,
}

pub open spec fn spec_read_gv90900(bytes: Seq<u8>) -> Option<((CatShrineModel, (u64, u64)), int)> {
    match spec_read_cat_shrine(bytes) {
        Some((c, k1)) => match <(u64, u64)>::spec_read(bytes.skip(k1)) {
            Some((u, k2)) => match spec_read_marker(90900, bytes.skip(k1 + k2)) {
                Some(k3) => Some(((c, u), k1 + k2 + k3)),
                None => None,
            },
            None => None,
        },
        None => None,
    }
}

impl GV90900Block {
    pub fn read(r: &mut Reader) -> (res: StreamResult<Self>)
        ensures
            read_result_view(
                *old(r),
                *final(r),
                res,
                spec_read_gv90900(old(r).rest()),
                |b: Self| (cat_shrine_model(b.cat_shrine), (b.u1, b.u2)),
            ),
    {
        let ghost start = *old(r);
        let _ = r.remaining();
        let cat_shrine = CatShrine::read(r)?;
        let ghost p1 = *r;
        proof {
            Reader::lemma_rest_skip(start, p1);
        }
        let (u1, u2) = <(u64, u64)>::read(r)?;
        let ghost p2 = *r;
        proof {
            <(u64, u64)>::lemma_read_bounds(p1.rest());
            Reader::lemma_rest_skip(p1, p2);
            Reader::lemma_rest_skip(start, p2);
            let k1 = p1.position() - start.position();
            let k2 = p2.position() - p1.position();
            assert(start.rest().skip(k1).skip(k2) =~= start.rest().skip(k1 + k2));
        }
        read_marker(r, 90900)?;
        Ok(GV90900Block { cat_shrine, u1, u2 })
    }

    pub fn write(&self, w: &mut Writer)
        ensures
            final(w).bytes() == old(w).bytes() + spec_write_cat_shrine(cat_shrine_model(self.cat_shrine))
                + (self.u1, self.u2).spec_write() + 90900i32.spec_write(),
    {
        self.cat_shrine.write(w);
        (self.u1, self.u2).write(w);
        let marker = Assertable;
        marker.write(w, 90900);
    }
}

} // verus!

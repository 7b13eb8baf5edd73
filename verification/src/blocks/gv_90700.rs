//! Talent orbs: how many of each orb, by 16-bit orb id.

use vstd::prelude::*;
use crate::blocks::marker::{read_marker, spec_read_marker};
use crate::save::GVCC;
use crate::stream::compound::Assertable;
use crate::stream::modeled::{spec_read_model_map, spec_write_models, I8Map, ModelMap};
use crate::stream::lists::{lemma_vec_reader_bounded, spec_read_vec, vec_reader};
use crate::stream::{Reader, StreamResult, Writer, Readable, Writable};
use crate::stream::compound::{HashMapLength, spec_read_map};
use crate::stream::lists::{
    read_result_view, spec_write_vec, write_vec, VecArgs, VecArgsLength, vec_writable,
};

verus! {

/// Orb counts by orb id; before version 11.4 the counts are stored as bytes.
#[derive(Debug, Clone)]
pub struct TalentOrbs(pub HashMapLength<i16, i16>);

/// Byte counts widened to 16 bits.
pub open spec fn widen_orbs(s: Seq<(i16, i8)>) -> Seq<(i16, i16)> {
    s.map_values(|e: (i16, i8)| (e.0, e.1 as i16))
}

/// Counts cut to bytes.
pub open spec fn narrow_orbs(s: Seq<(i16, i16)>) -> Seq<(i16, i8)> {
    s.map_values(|e: (i16, i16)| (e.0, e.1 as i8))
}

pub open spec fn spec_read_talent_orbs(g: GVCC, bytes: Seq<u8>) -> Option<(Seq<(i16, i16)>, int)> {
    if g.gv.0 < 110400 {
        match spec_read_map::<i16, i8>(VecArgsLength::I16, bytes) {
            Some((s, k)) => Some((widen_orbs(s), k)),
            None => None,
        }
    } else {
        spec_read_map::<i16, i16>(VecArgsLength::I16, bytes)
    }
}

pub open spec fn spec_write_talent_orbs(g: GVCC, s: Seq<(i16, i16)>) -> Seq<u8> {
    if g.gv.0 < 110400 {
        spec_write_vec::<(i16, i8)>(VecArgsLength::I16, narrow_orbs(s))
    } else {
        spec_write_vec::<(i16, i16)>(VecArgsLength::I16, s)
    }
}

fn widen(v: &Vec<(i16, i8)>) -> (out: Vec<(i16, i16)>)
    ensures
        out@ == widen_orbs(v@),
{
    let mut out: Vec<(i16, i16)> = Vec::new();
    let mut i: usize = 0;
    while i < v.len()
        invariant
            i <= v.len(),
            out@.len() == i,
            forall|j: int| 0 <= j < i ==> out@[j] == ((#[trigger] v@[j]).0, v@[j].1 as i16),
        decreases v.len() - i,
    {
        let (k, c) = v[i];
        out.push((k, c as i16));
        i = i + 1;
    }
    assert(out@ =~= widen_orbs(v@));
    out
}

fn narrow(v: &Vec<(i16, i16)>) -> (out: Vec<(i16, i8)>)
    ensures
        out@ == narrow_orbs(v@),
{
    let mut out: Vec<(i16, i8)> = Vec::new();
    let mut i: usize = 0;
    while i < v.len()
        invariant
            i <= v.len(),
            out@.len() == i,
            forall|j: int| 0 <= j < i ==> out@[j] == ((#[trigger] v@[j]).0, v@[j].1 as i8),
        decreases v.len() - i,
    {
        let (k, c) = v[i];
        out.push((k, c as i8));
        i = i + 1;
    }
    assert(out@ =~= narrow_orbs(v@));
    out
}

impl TalentOrbs {
    pub fn read(r: &mut Reader, args: GVCC) -> (res: StreamResult<Self>)
        ensures
            read_result_view(*old(r), *final(r), res, spec_read_talent_orbs(args, old(r).rest()), |x: Self| x.0.0@),
    {
        if args.gv.0 < 110400 {
            let m = HashMapLength::<i16, i8>::read(r, VecArgsLength::I16)?;
            Ok(TalentOrbs(HashMapLength(widen(&m.0))))
        } else {
            Ok(TalentOrbs(HashMapLength::<i16, i16>::read(r, VecArgsLength::I16)?))
        }
    }

    /// Writes the counts, cut to bytes before version 11.4.
    pub fn write(&self, w: &mut Writer, args: GVCC)
        ensures
            final(w).bytes() == old(w).bytes() + spec_write_talent_orbs(args, self.0.0@),
    {
        if args.gv.0 < 110400 {
            let other = narrow(&self.0.0);
            assert(vec_writable(VecArgsLength::I16, other@));
            write_vec::<(i16, i8)>(w, other.as_slice(), VecArgs::new_empty_i16());
        } else {
            assert(vec_writable(VecArgsLength::I16, self.0.0@));
            write_vec::<(i16, i16)>(w, self.0.0.as_slice(), VecArgs::new_empty_i16());
        }
    }
}

/// Reading talent orbs takes only bytes that are there.
pub proof fn lemma_talent_orbs_bounds(g: GVCC, bytes: Seq<u8>)
    ensures
        spec_read_talent_orbs(g, bytes) matches Some((_, k)) ==> 0 <= k <= bytes.len(),
{
    lemma_vec_reader_bounded::<(i16, i8)>(VecArgsLength::I16);
    lemma_vec_reader_bounded::<(i16, i16)>(VecArgsLength::I16);
    assert(vec_reader::<(i16, i8)>(VecArgsLength::I16)(bytes) == spec_read_vec::<(i16, i8)>(VecArgsLength::I16, bytes));
    assert(vec_reader::<(i16, i16)>(VecArgsLength::I16)(bytes) == spec_read_vec::<(i16, i16)>(VecArgsLength::I16, bytes));
}

/// Talent orbs, an unknown map of maps (16-bit keys counted by an `i16`, each
/// holding 16-bit values by byte keys counted by a byte), a flag, then the
/// marker 90700.
#[derive(Debug, Clone)]
pub struct GV90700Block {
    pub talent_orbs: TalentOrbs,
    pub unknown: ModelMap<i16, I8Map>,
    pub unknown_2: bool,
}

/// What the block holds: the orb counts, the unknown map and the flag.
pub type GV90700Model = (Seq<(i16, i16)>, Seq<(i16, Seq<(i8, i16)>)>, bool);

pub open spec fn gv90700_model(b: GV90700Block) -> GV90700Model {
    (b.talent_orbs.0.0@, b.unknown.entries(), b.unknown_2)
}

pub open spec fn spec_read_gv90700(g: GVCC, bytes: Seq<u8>) -> Option<(GV90700Model, int)> {
    match spec_read_talent_orbs(g, bytes) {
        Some((orbs, k1)) => match spec_read_model_map::<i16, I8Map>(VecArgsLength::I16, bytes.skip(k1)) {
            Some((m, k2)) => match bool::spec_read(bytes.skip(k1 + k2)) {
                Some((u, k3)) => match spec_read_marker(90700, bytes.skip(k1 + k2 + k3)) {
                    Some(k4) => Some(((orbs, m, u), k1 + k2 + k3 + k4)),
                    None => None,
                },
                None => None,
            },
            None => None,
        },
        None => None,
    }
}

pub open spec fn spec_write_gv90700(g: GVCC, m: GV90700Model) -> Seq<u8> {
    spec_write_talent_orbs(g, m.0) + spec_write_models::<(i16, I8Map)>(VecArgsLength::I16, m.1)
        + m.2.spec_write() + 90700i32.spec_write()
}

impl GV90700Block {
    pub fn read(r: &mut Reader, args: GVCC) -> (res: StreamResult<Self>)
        ensures
            read_result_view(*old(r), *final(r), res, spec_read_gv90700(args, old(r).rest()), |b: Self| gv90700_model(b)),
    {
        let ghost start = *old(r);
        let ghost bytes = start.rest();
        let _ = r.remaining();
        let talent_orbs = TalentOrbs::read(r, args)?;
        let ghost p1 = *r;
        proof {
            lemma_talent_orbs_bounds(args, bytes);
            Reader::lemma_rest_skip(start, p1);
        }
        let unknown = ModelMap::<i16, I8Map>::read(r, VecArgsLength::I16)?;
        let ghost p2 = *r;
        proof {
            Reader::lemma_rest_skip(p1, p2);
            Reader::lemma_rest_skip(start, p2);
            let k1 = p1.position() - start.position();
            let k2 = p2.position() - p1.position();
            assert(bytes.skip(k1).skip(k2) =~= bytes.skip(k1 + k2));
        }
        let unknown_2 = bool::read(r)?;
        let ghost p3 = *r;
        proof {
            bool::lemma_read_bounds(p2.rest());
            Reader::lemma_rest_skip(p2, p3);
            Reader::lemma_rest_skip(start, p3);
        }
        read_marker(r, 90700)?;
        Ok(GV90700Block { talent_orbs, unknown, unknown_2 })
    }

    pub fn write(&self, w: &mut Writer, args: GVCC)
        ensures
            final(w).bytes() == old(w).bytes() + spec_write_gv90700(args, gv90700_model(*self)),
    {
        self.talent_orbs.write(w, args);
        self.unknown.write(w, VecArgsLength::I16);
        self.unknown_2.write(w);
        let marker = Assertable;
        marker.write(w, 90700);
        assert(w.bytes() =~= old(w).bytes() + spec_write_gv90700(args, gv90700_model(*self)));
    }
}

} // verus!

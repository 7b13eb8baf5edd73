//! Collaboration gauntlets and records added with them in version 9.5; later
//! versions add more records, each read only from the version that added it.

use vstd::prelude::*;
use crate::blocks::gv_90300::{spec_read_gauntlet, spec_write_gauntlet, GauntletChapters, GauntletView};
use crate::blocks::marker::{read_marker, spec_read_marker};
use crate::save::GVCC;
use crate::stream::{Codec, Reader, StreamResult, Writer, Readable, Writable};
use crate::stream::compound::{Assertable, HashMapLength, spec_read_map};
use crate::stream::lists::{
    lemma_vec_reader_bounded, read_result_view, spec_read_vec, spec_write_vec, vec_reader, vec_writable,
    VecArgsLength,
};

verus! {

/// A flag, a byte and two timestamps (the bits of the `f64` each is stored
/// as), stored from version 10.3.
#[derive(Debug, Clone, Copy, PartialEq, Eq, Structural)]
pub struct Unknown90500_100300 {
    pub u1: i8,
    pub u2: bool,
    pub timestamp1: u64,
    pub timestamp2: u64,
}

pub type U100300Tuple = (i8, (bool, (u64, u64)));

pub open spec fn u100300_tuple(u: Unknown90500_100300) -> U100300Tuple {
    (u.u1, (u.u2, (u.timestamp1, u.timestamp2)))
}

impl Readable for Unknown90500_100300 {
    open spec fn spec_read(bytes: Seq<u8>) -> Option<(Unknown90500_100300, int)> {
        match U100300Tuple::spec_read(bytes) {
            Some((t, k)) => Some((Unknown90500_100300 { u1: t.0, u2: t.1.0, timestamp1: t.1.1.0, timestamp2: t.1.1.1 }, k)),
            None => None,
        }
    }

    proof fn lemma_read_bounds(bytes: Seq<u8>) {
        U100300Tuple::lemma_read_bounds(bytes);
    }

    fn read(r: &mut Reader) -> (res: StreamResult<Unknown90500_100300>) {
        let (u1, (u2, (timestamp1, timestamp2))) = U100300Tuple::read(r)?;
        Ok(Unknown90500_100300 { u1, u2, timestamp1, timestamp2 })
    }
}

impl Writable for Unknown90500_100300 {
    open spec fn spec_write(&self) -> Seq<u8> {
        u100300_tuple(*self).spec_write()
    }

    open spec fn can_write(&self) -> bool {
        true
    }

    open spec fn spec_default() -> Unknown90500_100300 {
        Unknown90500_100300 { u1: 0, u2: false, timestamp1: 0, timestamp2: 0 }
    }

    fn write(&self, w: &mut Writer) {
        let t = (self.u1, (self.u2, (self.timestamp1, self.timestamp2)));
        assert(t.can_write());
        t.write(w);
    }

    fn default_value() -> (d: Unknown90500_100300) {
        Unknown90500_100300 { u1: 0, u2: false, timestamp1: 0, timestamp2: 0 }
    }

    proof fn lemma_default_writable() {
    }
}

impl Codec for Unknown90500_100300 {
    proof fn lemma_roundtrip(v: Unknown90500_100300, rest: Seq<u8>) {
        assert(u100300_tuple(v).can_write());
        U100300Tuple::lemma_roundtrip(u100300_tuple(v), rest);
    }
}

/// Bytes and timestamps (as `f64` bits) by `i32` keys, each map counted by
/// an `i16`; stored from version 13.7.
#[derive(Debug, Clone)]
pub struct Unknown90500_130700 {
    pub u1: HashMapLength<i32, i8>,
    pub u2: HashMapLength<i32, u64>,
}

pub type U130700Model = (Seq<(i32, i8)>, Seq<(i32, u64)>);

pub open spec fn spec_read_u130700(bytes: Seq<u8>) -> Option<(U130700Model, int)> {
    match spec_read_map::<i32, i8>(VecArgsLength::I16, bytes) {
        Some((a, k1)) => match spec_read_map::<i32, u64>(VecArgsLength::I16, bytes.skip(k1)) {
            Some((b, k2)) => Some(((a, b), k1 + k2)),
            None => None,
        },
        None => None,
    }
}

pub open spec fn spec_write_u130700(m: U130700Model) -> Seq<u8> {
    spec_write_vec::<(i32, i8)>(VecArgsLength::I16, m.0) + spec_write_vec::<(i32, u64)>(VecArgsLength::I16, m.1)
}

/// Reading a map of `i32` keys counted by an `i16` takes only bytes that are
/// there.
proof fn lemma_map_bounds<V: Readable>(bytes: Seq<u8>)
    ensures
        spec_read_map::<i32, V>(VecArgsLength::I16, bytes) matches Some((_, k)) ==> 0 <= k <= bytes.len(),
{
    lemma_vec_reader_bounded::<(i32, V)>(VecArgsLength::I16);
    assert(vec_reader::<(i32, V)>(VecArgsLength::I16)(bytes) == spec_read_vec::<(i32, V)>(VecArgsLength::I16, bytes));
}

impl Unknown90500_130700 {
    pub fn read(r: &mut Reader) -> (res: StreamResult<Self>)
        ensures
            read_result_view(*old(r), *final(r), res, spec_read_u130700(old(r).rest()), |u: Self| (u.u1.0@, u.u2.0@)),
            res is Ok ==> old(r).position() <= final(r).position(),
    {
        let ghost start = *old(r);
        let _ = r.remaining();
        let u1 = HashMapLength::<i32, i8>::read(r, VecArgsLength::I16)?;
        let ghost p1 = *r;
        proof {
            lemma_map_bounds::<i8>(start.rest());
            Reader::lemma_rest_skip(start, p1);
        }
        let u2 = HashMapLength::<i32, u64>::read(r, VecArgsLength::I16)?;
        proof {
            lemma_map_bounds::<u64>(p1.rest());
        }
        Ok(Unknown90500_130700 { u1, u2 })
    }

    pub fn write(&self, w: &mut Writer)
        ensures
            final(w).bytes() == old(w).bytes() + spec_write_u130700((self.u1.0@, self.u2.0@)),
    {
        assert(vec_writable(VecArgsLength::I16, self.u1.0@));
        self.u1.write(w, VecArgsLength::I16);
        assert(vec_writable(VecArgsLength::I16, self.u2.0@));
        self.u2.write(w, VecArgsLength::I16);
    }
}

/// The records after the gauntlets, each present from the version that added
/// it: as values.
pub type OptionalRecords = (Option<Unknown90500_100300>, Option<U130700Model>, Option<Seq<(i32, u64)>>);

/// The records after the gauntlets are read where the version has them and
/// are `None` otherwise.
pub open spec fn spec_read_optional(g: GVCC, bytes: Seq<u8>) -> Option<(OptionalRecords, int)> {
    let r3: Option<(Option<Unknown90500_100300>, int)> = if g.gv.0 >= 100300 {
        match Unknown90500_100300::spec_read(bytes) {
            Some((u, k)) => Some((Some(u), k)),
            None => None,
        }
    } else {
        Some((None, 0))
    };
    match r3 {
        Some((u3, k3)) => {
            let r4: Option<(Option<U130700Model>, int)> = if g.gv.0 >= 130700 {
                match spec_read_u130700(bytes.skip(k3)) {
                    Some((u, k)) => Some((Some(u), k)),
                    None => None,
                }
            } else {
                Some((None, 0))
            };
            match r4 {
                Some((u4, k4)) => {
                    let r5: Option<(Option<Seq<(i32, u64)>>, int)> = if g.gv.0 >= 140100 {
                        match spec_read_map::<i32, u64>(VecArgsLength::I16, bytes.skip(k3 + k4)) {
                            Some((u, k)) => Some((Some(u), k)),
                            None => None,
                        }
                    } else {
                        Some((None, 0))
                    };
                    match r5 {
                        Some((u5, k5)) => Some(((u3, u4, u5), k3 + k4 + k5)),
                        None => None,
                    }
                },
                None => None,
            }
        },
        None => None,
    }
}

/// The record of version 10.3, written from that version on (an empty one
/// where there is none).
pub open spec fn spec_write_opt3(g: GVCC, u: Option<Unknown90500_100300>) -> Seq<u8> {
    if g.gv.0 >= 100300 {
        u.unwrap_or(Unknown90500_100300::spec_default()).spec_write()
    } else {
        Seq::empty()
    }
}

/// The maps of version 13.7, written from that version on.
pub open spec fn spec_write_opt4(g: GVCC, u: Option<U130700Model>) -> Seq<u8> {
    if g.gv.0 >= 130700 {
        spec_write_u130700(u.unwrap_or((Seq::empty(), Seq::empty())))
    } else {
        Seq::empty()
    }
}

/// The map of version 14.1, written from that version on.
pub open spec fn spec_write_opt5(g: GVCC, u: Option<Seq<(i32, u64)>>) -> Seq<u8> {
    if g.gv.0 >= 140100 {
        spec_write_vec::<(i32, u64)>(VecArgsLength::I16, u.unwrap_or(Seq::empty()))
    } else {
        Seq::empty()
    }
}

/// Each record is written where the version has it: the record, or an empty
/// one where there is none.
pub open spec fn spec_write_optional(g: GVCC, m: OptionalRecords) -> Seq<u8> {
    spec_write_opt3(g, m.0) + spec_write_opt4(g, m.1) + spec_write_opt5(g, m.2)
}

/// Collaboration gauntlets, a flag, two timestamps (as `f64` bits), a number,
/// the records later versions add, then the marker 90500.
#[derive(Debug, Clone)]
pub struct GV90500Block {
    pub collab_gauntlets: GauntletChapters,
    pub u1: bool,
    pub timestamp1: u64,
    pub timestamp2: u64,
    pub u2: i32,
    pub u3: Option<Unknown90500_100300>,
    pub u4: Option<Unknown90500_130700>,
    pub u5: Option<HashMapLength<i32, u64>>,
    pub _90500: Assertable,
}

pub type GV90500Head = (bool, (u64, (u64, i32)));

pub type GV90500Model = ((GauntletView, Seq<i8>), GV90500Head, OptionalRecords);

pub open spec fn optional_model(b: GV90500Block) -> OptionalRecords {
    (
        b.u3,
        match b.u4 {
            Some(u) => Some((u.u1.0@, u.u2.0@)),
            None => None,
        },
        match b.u5 {
            Some(m) => Some(m.0@),
            None => None,
        },
    )
}

pub open spec fn gv90500_model(b: GV90500Block) -> GV90500Model {
    (
        (b.collab_gauntlets.chapters@, b.collab_gauntlets.unknown@),
        (b.u1, (b.timestamp1, (b.timestamp2, b.u2))),
        optional_model(b),
    )
}

pub open spec fn spec_read_gv90500(g: GVCC, bytes: Seq<u8>) -> Option<(GV90500Model, int)> {
    match spec_read_gauntlet(bytes) {
        Some((c, k1)) => match GV90500Head::spec_read(bytes.skip(k1)) {
            Some((h, k2)) => match spec_read_optional(g, bytes.skip(k1 + k2)) {
                Some((o, k3)) => match spec_read_marker(90500, bytes.skip(k1 + k2 + k3)) {
                    Some(k4) => Some(((c, h, o), k1 + k2 + k3 + k4)),
                    None => None,
                },
                None => None,
            },
            None => None,
        },
        None => None,
    }
}

pub open spec fn spec_write_gv90500(g: GVCC, m: GV90500Model) -> Seq<u8> {
    spec_write_gauntlet(m.0.0, m.0.1) + m.1.spec_write() + spec_write_optional(g, m.2) + 90500i32.spec_write()
}

/// Reads the records that the version has.
fn read_optional(r: &mut Reader, g: GVCC) -> (res: StreamResult<
    (Option<Unknown90500_100300>, Option<Unknown90500_130700>, Option<HashMapLength<i32, u64>>),
>)
    ensures
        read_result_view(
            *old(r),
            *final(r),
            res,
            spec_read_optional(g, old(r).rest()),
            |t: (Option<Unknown90500_100300>, Option<Unknown90500_130700>, Option<HashMapLength<i32, u64>>)| (
                t.0,
                match t.1 {
                    Some(u) => Some((u.u1.0@, u.u2.0@)),
                    None => None,
                },
                match t.2 {
                    Some(m) => Some(m.0@),
                    None => None,
                },
            ),
        ),
{
    let ghost start = *old(r);
    let ghost bytes = start.rest();
    let _ = r.remaining();
    let u3 = if g.gv.0 >= 100300 {
        let u = Unknown90500_100300::read(r)?;
        proof {
            Unknown90500_100300::lemma_read_bounds(bytes);
        }
        Some(u)
    } else {
        None
    };
    let ghost p3 = *r;
    proof {
        Reader::lemma_rest_skip(start, p3);
    }
    let u4 = if g.gv.0 >= 130700 {
        Some(Unknown90500_130700::read(r)?)
    } else {
        None
    };
    let ghost p4 = *r;
    proof {
        Reader::lemma_rest_skip(p3, p4);
        Reader::lemma_rest_skip(start, p4);
        let k3 = p3.position() - start.position();
        let k4 = p4.position() - p3.position();
        assert(bytes.skip(k3).skip(k4) =~= bytes.skip(k3 + k4));
    }
    let u5 = if g.gv.0 >= 140100 {
        Some(HashMapLength::<i32, u64>::read(r, VecArgsLength::I16)?)
    } else {
        None
    };
    Ok((u3, u4, u5))
}

fn write_opt3(w: &mut Writer, args: GVCC, u: Option<Unknown90500_100300>)
    ensures
        final(w).bytes() == old(w).bytes() + spec_write_opt3(args, u),
{
    if args.gv.0 >= 100300 {
        match u {
            Some(u) => u.write(w),
            None => Unknown90500_100300::default_value().write(w),
        }
    } else {
        assert(w.bytes() =~= old(w).bytes() + Seq::<u8>::empty());
    }
}

fn write_opt4(w: &mut Writer, args: GVCC, u: &Option<Unknown90500_130700>)
    ensures
        final(w).bytes() == old(w).bytes() + spec_write_opt4(
            args,
            match *u {
                Some(x) => Some((x.u1.0@, x.u2.0@)),
                None => None,
            },
        ),
{
    if args.gv.0 >= 130700 {
        match u {
            Some(x) => x.write(w),
            None => {
                let empty = Unknown90500_130700 { u1: HashMapLength(Vec::new()), u2: HashMapLength(Vec::new()) };
                assert(empty.u1.0@ =~= Seq::<(i32, i8)>::empty());
                assert(empty.u2.0@ =~= Seq::<(i32, u64)>::empty());
                empty.write(w);
            },
        }
    } else {
        assert(w.bytes() =~= old(w).bytes() + Seq::<u8>::empty());
    }
}

fn write_opt5(w: &mut Writer, args: GVCC, u: &Option<HashMapLength<i32, u64>>)
    ensures
        final(w).bytes() == old(w).bytes() + spec_write_opt5(
            args,
            match *u {
                Some(m) => Some(m.0@),
                None => None,
            },
        ),
{
    if args.gv.0 >= 140100 {
        match u {
            Some(m) => {
                assert(vec_writable(VecArgsLength::I16, m.0@));
                m.write(w, VecArgsLength::I16);
            },
            None => {
                let empty: HashMapLength<i32, u64> = HashMapLength(Vec::new());
                assert(empty.0@ =~= Seq::<(i32, u64)>::empty());
                assert(vec_writable(VecArgsLength::I16, empty.0@));
                empty.write(w, VecArgsLength::I16);
            },
        }
    } else {
        assert(w.bytes() =~= old(w).bytes() + Seq::<u8>::empty());
    }
}

/// Writes the records that the version has.
fn write_optional(w: &mut Writer, args: GVCC, b: &GV90500Block)
    ensures
        final(w).bytes() == old(w).bytes() + spec_write_optional(args, optional_model(*b)),
{
    write_opt3(w, args, b.u3);
    write_opt4(w, args, &b.u4);
    write_opt5(w, args, &b.u5);
    assert(w.bytes() =~= old(w).bytes() + spec_write_optional(args, optional_model(*b)));
}

impl GV90500Block {
    #[verifier::rlimit(50)]
    pub fn read(r: &mut Reader, args: GVCC) -> (res: StreamResult<Self>)
        ensures
            read_result_view(*old(r), *final(r), res, spec_read_gv90500(args, old(r).rest()), |b: Self| gv90500_model(b)),
    {
        let ghost start = *old(r);
        let ghost bytes = start.rest();
        let _ = r.remaining();
        let collab_gauntlets = GauntletChapters::read(r)?;
        let ghost p1 = *r;
        proof {
            Reader::lemma_rest_skip(start, p1);
        }
        let (u1, (timestamp1, (timestamp2, u2))) = GV90500Head::read(r)?;
        let ghost p2 = *r;
        proof {
            GV90500Head::lemma_read_bounds(p1.rest());
            Reader::lemma_rest_skip(p1, p2);
            Reader::lemma_rest_skip(start, p2);
            let k1 = p1.position() - start.position();
            let k2 = p2.position() - p1.position();
            assert(bytes.skip(k1).skip(k2) =~= bytes.skip(k1 + k2));
        }
        let (u3, u4, u5) = read_optional(r, args)?;
        let ghost p3 = *r;
        proof {
            if let Some((_, k3)) = spec_read_optional(args, p2.rest()) {
                assert(p3.position() == p2.position() + k3);
            }
            lemma_optional_bounds(args, p2.rest());
            Reader::lemma_rest_skip(p2, p3);
            Reader::lemma_rest_skip(start, p3);
            let k12 = p2.position() - start.position();
            let k3 = p3.position() - p2.position();
            assert(bytes.skip(k12).skip(k3) =~= bytes.skip(k12 + k3));
        }
        let _90500 = read_marker(r, 90500)?;
        Ok(GV90500Block { collab_gauntlets, u1, timestamp1, timestamp2, u2, u3, u4, u5, _90500 })
    }

    pub fn write(&self, w: &mut Writer, args: GVCC)
        ensures
            final(w).bytes() == old(w).bytes() + spec_write_gv90500(args, gv90500_model(*self)),
    {
        self.collab_gauntlets.write(w);
        let head = (self.u1, (self.timestamp1, (self.timestamp2, self.u2)));
        assert(head.can_write());
        head.write(w);
        write_optional(w, args, self);
        self._90500.write(w, 90500);
        assert(w.bytes() =~= old(w).bytes() + spec_write_gv90500(args, gv90500_model(*self)));
    }
}

/// Reading the records takes only bytes that are there.
proof fn lemma_optional_bounds(g: GVCC, bytes: Seq<u8>)
    ensures
        spec_read_optional(g, bytes) matches Some((_, k)) ==> 0 <= k <= bytes.len(),
{
    Unknown90500_100300::lemma_read_bounds(bytes);
    let k3: int = if g.gv.0 >= 100300 {
        match Unknown90500_100300::spec_read(bytes) {
            Some((_, k)) => k,
            None => 0,
        }
    } else {
        0
    };
    let b3 = bytes.skip(k3);
    lemma_map_bounds::<i8>(b3);
    if let Some((_, k)) = spec_read_map::<i32, i8>(VecArgsLength::I16, b3) {
        lemma_map_bounds::<u64>(b3.skip(k));
    }
    let k4: int = if g.gv.0 >= 130700 {
        match spec_read_u130700(b3) {
            Some((_, k)) => k,
            None => 0,
        }
    } else {
        0
    };
    lemma_map_bounds::<u64>(bytes.skip(k3 + k4));
}

} // verus!

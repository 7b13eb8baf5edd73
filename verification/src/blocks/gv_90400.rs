//! Enigma stages: which were cleared, the enigma state (energy, level, the
//! stages on offer and, from version 14.5, an extra stage), and the lineups
//! that cleared them.

use vstd::prelude::*;
use crate::blocks::gv_90300::{spec_read_gauntlet, spec_write_gauntlet, GauntletChapters, GauntletView};
use crate::blocks::marker::{read_marker, spec_read_marker};
use crate::save::GVCC;
use crate::save::fields::Formi8;
use crate::stream::compound::Assertable;
use crate::stream::{Codec, Reader, StreamResult, Writer, Readable, Writable};
use crate::stream::compound::{HashMapLength, spec_read_map};
use crate::stream::lists::{
    fixed_items,
    read_result_view, read_vec, spec_read_vec, spec_write_vec, write_vec, VecArgs, VecArgsLength,
    lemma_vec_reader_bounded, vec_reader, vec_writable,
};
use crate::stream::modeled::{ModelCodec, ModelRoundtrip, models, read_models, spec_read_models, spec_write_models, write_models};

verus! {

/// A cat in a slot, and its form.
#[derive(Debug, Clone, Copy, PartialEq, Eq, Structural)]
pub struct CatSlot {
    pub cat_id: i16,
    pub form: Formi8,
}

impl Readable for CatSlot {
    open spec fn spec_read(bytes: Seq<u8>) -> Option<(CatSlot, int)> {
        match <(i16, Formi8)>::spec_read(bytes) {
            Some((t, k)) => Some((CatSlot { cat_id: t.0, form: t.1 }, k)),
            None => None,
        }
    }

    proof fn lemma_read_bounds(bytes: Seq<u8>) {
        <(i16, Formi8)>::lemma_read_bounds(bytes);
    }

    fn read(r: &mut Reader) -> (res: StreamResult<CatSlot>) {
        let (cat_id, form) = <(i16, Formi8)>::read(r)?;
        Ok(CatSlot { cat_id, form })
    }
}

impl Writable for CatSlot {
    open spec fn spec_write(&self) -> Seq<u8> {
        (self.cat_id, self.form).spec_write()
    }

    open spec fn can_write(&self) -> bool {
        true
    }

    open spec fn spec_default() -> CatSlot {
        CatSlot { cat_id: 0, form: Formi8::spec_default() }
    }

    fn write(&self, w: &mut Writer) {
        (self.cat_id, self.form).write(w);
    }

    fn default_value() -> (d: CatSlot) {
        CatSlot { cat_id: 0, form: Formi8::default_value() }
    }

    proof fn lemma_default_writable() {
    }
}

impl Codec for CatSlot {
    proof fn lemma_roundtrip(v: CatSlot, rest: Seq<u8>) {
        <(i16, Formi8)>::lemma_roundtrip((v.cat_id, v.form), rest);
    }
}

/// A lineup: its index, ten cats and three numbers.
#[derive(Debug, Clone, Copy)]
pub struct LineupCat {
    pub index: i16,
    pub cats: [CatSlot; 10],
    pub u1: i8,
    pub u2: i8,
    pub u3: i8,
}

pub type LineupCatTuple = (i16, ([CatSlot; 10], (i8, (i8, i8))));

pub open spec fn lineup_cat_tuple(l: LineupCat) -> LineupCatTuple {
    (l.index, (l.cats, (l.u1, (l.u2, l.u3))))
}

impl Readable for LineupCat {
    open spec fn spec_read(bytes: Seq<u8>) -> Option<(LineupCat, int)> {
        match LineupCatTuple::spec_read(bytes) {
            Some((t, k)) => Some((LineupCat { index: t.0, cats: t.1.0, u1: t.1.1.0, u2: t.1.1.1.0, u3: t.1.1.1.1 }, k)),
            None => None,
        }
    }

    proof fn lemma_read_bounds(bytes: Seq<u8>) {
        LineupCatTuple::lemma_read_bounds(bytes);
    }

    fn read(r: &mut Reader) -> (res: StreamResult<LineupCat>) {
        let (index, (cats, (u1, (u2, u3)))) = LineupCatTuple::read(r)?;
        Ok(LineupCat { index, cats, u1, u2, u3 })
    }
}

impl Writable for LineupCat {
    open spec fn spec_write(&self) -> Seq<u8> {
        lineup_cat_tuple(*self).spec_write()
    }

    open spec fn can_write(&self) -> bool {
        true
    }

    open spec fn spec_default() -> LineupCat {
        LineupCat { index: 0, cats: <[CatSlot; 10]>::spec_default(), u1: 0, u2: 0, u3: 0 }
    }

    fn write(&self, w: &mut Writer) {
        let t = (self.index, (self.cats, (self.u1, (self.u2, self.u3))));
        assert(t.can_write());
        t.write(w);
    }

    fn default_value() -> (d: LineupCat) {
        LineupCat { index: 0, cats: <[CatSlot; 10]>::default_value(), u1: 0, u2: 0, u3: 0 }
    }

    proof fn lemma_default_writable() {
    }
}

impl Codec for LineupCat {
    proof fn lemma_roundtrip(v: LineupCat, rest: Seq<u8>) {
        assert(lineup_cat_tuple(v).can_write());
        LineupCatTuple::lemma_roundtrip(lineup_cat_tuple(v), rest);
    }
}

/// A lineup's index and the stages it cleared, counted by a 16-bit number.
#[derive(Debug, Clone)]
pub struct StageLineup {
    pub index: i16,
    pub stages: Vec<i32>,
}

impl ModelCodec for StageLineup {
    type M = (i16, Seq<i32>);

    open spec fn model(&self) -> (i16, Seq<i32>) {
        (self.index, self.stages@)
    }

    open spec fn spec_read_model(bytes: Seq<u8>) -> Option<((i16, Seq<i32>), int)> {
        match i16::spec_read(bytes) {
            Some((i, k1)) => match spec_read_vec::<i32>(VecArgsLength::I16, bytes.skip(k1)) {
                Some((s, k2)) => Some(((i, s), k1 + k2)),
                None => None,
            },
            None => None,
        }
    }

    open spec fn spec_write_model(m: (i16, Seq<i32>)) -> Seq<u8> {
        m.0.spec_write() + spec_write_vec::<i32>(VecArgsLength::I16, m.1)
    }

    open spec fn default_model() -> (i16, Seq<i32>) {
        (0, Seq::empty())
    }

    proof fn lemma_read_bounds(bytes: Seq<u8>) {
        i16::lemma_read_bounds(bytes);
        if let Some((i, k1)) = i16::spec_read(bytes) {
            lemma_vec_reader_bounded::<i32>(VecArgsLength::I16);
            assert(vec_reader::<i32>(VecArgsLength::I16)(bytes.skip(k1)) == spec_read_vec::<i32>(
                VecArgsLength::I16,
                bytes.skip(k1),
            ));
        }
    }

    fn read_item(r: &mut Reader) -> (res: StreamResult<Self>) {
        let ghost start = *old(r);
        let _ = r.remaining();
        let index = i16::read(r)?;
        proof {
            i16::lemma_read_bounds(start.rest());
            Reader::lemma_rest_skip(start, *r);
        }
        let stages = read_vec::<i32>(r, VecArgs::new_empty_i16())?;
        Ok(StageLineup { index, stages })
    }

    fn write_item(&self, w: &mut Writer) {
        self.index.write(w);
        write_vec::<i32>(w, self.stages.as_slice(), VecArgs::new_empty_i16());
    }

    fn default_item() -> (d: Self) {
        let d = StageLineup { index: 0, stages: Vec::new() };
        assert(d.stages@ =~= Seq::<i32>::empty());
        d
    }
}

impl ModelRoundtrip for StageLineup {
    open spec fn fits(m: (i16, Seq<i32>)) -> bool {
        m.1.len() <= i16::MAX
    }

    proof fn lemma_default_fits() {
    }

    proof fn lemma_model_roundtrip(m: (i16, Seq<i32>), rest: Seq<u8>) {
        let ib = m.0.spec_write();
        let vb = spec_write_vec::<i32>(VecArgsLength::I16, m.1);
        i16::lemma_roundtrip(m.0, vb + rest);
        assert(Self::spec_write_model(m) + rest =~= ib + (vb + rest));
        assert((ib + (vb + rest)).skip(ib.len() as int) =~= vb + rest);
        crate::stream::lists::lemma_vec_roundtrip::<i32>(VecArgsLength::I16, m.1, rest);
        assert(fixed_items(m.1, m.1.len(), 0i32) =~= m.1);
    }
}

/// Lineups and their stages, each counted by a 16-bit number, then flags by
/// 16-bit keys.
#[derive(Debug, Clone)]
pub struct ClearedSlots {
    pub cats: Vec<LineupCat>,
    pub stages: Vec<StageLineup>,
    pub unknown: HashMapLength<i16, bool>,
}

pub open spec fn spec_read_cleared_slots(bytes: Seq<u8>) -> Option<
    ((Seq<LineupCat>, Seq<(i16, Seq<i32>)>, Seq<(i16, bool)>), int),
> {
    match spec_read_vec::<LineupCat>(VecArgsLength::I16, bytes) {
        Some((c, k1)) => match spec_read_models::<StageLineup>(VecArgsLength::I16, bytes.skip(k1)) {
            Some((s, k2)) => match spec_read_map::<i16, bool>(VecArgsLength::I16, bytes.skip(k1 + k2)) {
                Some((m, k3)) => Some(((c, s, m), k1 + k2 + k3)),
                None => None,
            },
            None => None,
        },
        None => None,
    }
}

pub open spec fn spec_write_cleared_slots(c: Seq<LineupCat>, s: Seq<(i16, Seq<i32>)>, m: Seq<(i16, bool)>) -> Seq<u8> {
    spec_write_vec::<LineupCat>(VecArgsLength::I16, c) + spec_write_models::<StageLineup>(VecArgsLength::I16, s)
        + spec_write_vec::<(i16, bool)>(VecArgsLength::I16, m)
}

impl ClearedSlots {
    pub fn read(r: &mut Reader) -> (res: StreamResult<Self>)
        ensures
            read_result_view(
                *old(r),
                *final(r),
                res,
                spec_read_cleared_slots(old(r).rest()),
                |x: Self| (x.cats@, models(x.stages@), x.unknown.0@),
            ),
            res is Ok ==> old(r).position() <= final(r).position(),
    {
        let ghost start = *old(r);
        let _ = r.remaining();
        let cats = read_vec::<LineupCat>(r, VecArgs::new_empty_i16())?;
        proof {
            lemma_vec_reader_bounded::<LineupCat>(VecArgsLength::I16);
            assert(vec_reader::<LineupCat>(VecArgsLength::I16)(start.rest()) == spec_read_vec::<LineupCat>(
                VecArgsLength::I16,
                start.rest(),
            ));
            Reader::lemma_rest_skip(start, *r);
        }
        let stages = read_models::<StageLineup>(r, VecArgsLength::I16)?;
        proof {
            Reader::lemma_rest_skip(start, *r);
        }
        let ghost mid = *r;
        let unknown = HashMapLength::<i16, bool>::read(r, VecArgsLength::I16)?;
        proof {
            lemma_vec_reader_bounded::<(i16, bool)>(VecArgsLength::I16);
            assert(vec_reader::<(i16, bool)>(VecArgsLength::I16)(mid.rest()) == spec_read_vec::<(i16, bool)>(
                VecArgsLength::I16,
                mid.rest(),
            ));
        }
        Ok(ClearedSlots { cats, stages, unknown })
    }

    pub fn write(&self, w: &mut Writer)
        ensures
            final(w).bytes() == old(w).bytes() + spec_write_cleared_slots(self.cats@, models(self.stages@), self.unknown.0@),
    {
        assert(vec_writable(VecArgsLength::I16, self.cats@));
        write_vec::<LineupCat>(w, self.cats.as_slice(), VecArgs::new_empty_i16());
        write_models::<StageLineup>(w, &self.stages, VecArgsLength::I16);
        assert(vec_writable(VecArgsLength::I16, self.unknown.0@));
        self.unknown.write(w, VecArgsLength::I16);
        assert(w.bytes() =~= old(w).bytes() + spec_write_cleared_slots(self.cats@, models(self.stages@), self.unknown.0@));
    }
}

/* The enigma */

/// The numbers of an enigma stage: level, stage id, decoding status and the
/// start time (the bits of the `f64` it is stored as).
pub type EnigmaTuple = (i32, (i32, (i8, u64)));

/// A stage on offer in the enigma.
#[derive(Debug, Clone, Copy, PartialEq, Eq, Structural)]
pub struct EnigmaStage {
    pub level: i32,
    pub stage_id: i32,
    pub decoding_status: i8,
    pub start_time: u64,
}

pub open spec fn enigma_stage_tuple(e: EnigmaStage) -> EnigmaTuple {
    (e.level, (e.stage_id, (e.decoding_status, e.start_time)))
}

impl Readable for EnigmaStage {
    open spec fn spec_read(bytes: Seq<u8>) -> Option<(EnigmaStage, int)> {
        match EnigmaTuple::spec_read(bytes) {
            Some((t, k)) => Some((EnigmaStage { level: t.0, stage_id: t.1.0, decoding_status: t.1.1.0, start_time: t.1.1.1 }, k)),
            None => None,
        }
    }

    proof fn lemma_read_bounds(bytes: Seq<u8>) {
        EnigmaTuple::lemma_read_bounds(bytes);
    }

    fn read(r: &mut Reader) -> (res: StreamResult<EnigmaStage>) {
        let (level, (stage_id, (decoding_status, start_time))) = EnigmaTuple::read(r)?;
        Ok(EnigmaStage { level, stage_id, decoding_status, start_time })
    }
}

impl Writable for EnigmaStage {
    open spec fn spec_write(&self) -> Seq<u8> {
        enigma_stage_tuple(*self).spec_write()
    }

    open spec fn can_write(&self) -> bool {
        true
    }

    open spec fn spec_default() -> EnigmaStage {
        EnigmaStage { level: 0, stage_id: 0, decoding_status: 0, start_time: 0 }
    }

    fn write(&self, w: &mut Writer) {
        let t = (self.level, (self.stage_id, (self.decoding_status, self.start_time)));
        assert(t.can_write());
        t.write(w);
    }

    fn default_value() -> (d: EnigmaStage) {
        EnigmaStage { level: 0, stage_id: 0, decoding_status: 0, start_time: 0 }
    }

    proof fn lemma_default_writable() {
    }
}

impl Codec for EnigmaStage {
    proof fn lemma_roundtrip(v: EnigmaStage, rest: Seq<u8>) {
        assert(enigma_stage_tuple(v).can_write());
        EnigmaTuple::lemma_roundtrip(enigma_stage_tuple(v), rest);
    }
}

/// The numbers of the extra stage; the last is the bits of an `f64`.
#[derive(Debug, Clone, Copy, PartialEq, Eq, Structural)]
pub struct ExtraEnigmaDataInner {
    pub u1: i32,
    pub u2: i32,
    pub u3: i8,
    pub u4: u64,
}

pub open spec fn extra_inner_tuple(e: ExtraEnigmaDataInner) -> EnigmaTuple {
    (e.u1, (e.u2, (e.u3, e.u4)))
}

impl Readable for ExtraEnigmaDataInner {
    open spec fn spec_read(bytes: Seq<u8>) -> Option<(ExtraEnigmaDataInner, int)> {
        match EnigmaTuple::spec_read(bytes) {
            Some((t, k)) => Some((ExtraEnigmaDataInner { u1: t.0, u2: t.1.0, u3: t.1.1.0, u4: t.1.1.1 }, k)),
            None => None,
        }
    }

    proof fn lemma_read_bounds(bytes: Seq<u8>) {
        EnigmaTuple::lemma_read_bounds(bytes);
    }

    fn read(r: &mut Reader) -> (res: StreamResult<ExtraEnigmaDataInner>) {
        let (u1, (u2, (u3, u4))) = EnigmaTuple::read(r)?;
        Ok(ExtraEnigmaDataInner { u1, u2, u3, u4 })
    }
}

impl Writable for ExtraEnigmaDataInner {
    open spec fn spec_write(&self) -> Seq<u8> {
        extra_inner_tuple(*self).spec_write()
    }

    open spec fn can_write(&self) -> bool {
        true
    }

    open spec fn spec_default() -> ExtraEnigmaDataInner {
        ExtraEnigmaDataInner { u1: 0, u2: 0, u3: 0, u4: 0 }
    }

    fn write(&self, w: &mut Writer) {
        let t = (self.u1, (self.u2, (self.u3, self.u4)));
        assert(t.can_write());
        t.write(w);
    }

    fn default_value() -> (d: ExtraEnigmaDataInner) {
        ExtraEnigmaDataInner { u1: 0, u2: 0, u3: 0, u4: 0 }
    }

    proof fn lemma_default_writable() {
    }
}

impl Codec for ExtraEnigmaDataInner {
    proof fn lemma_roundtrip(v: ExtraEnigmaDataInner, rest: Seq<u8>) {
        assert(extra_inner_tuple(v).can_write());
        EnigmaTuple::lemma_roundtrip(extra_inner_tuple(v), rest);
    }
}

/// The extra stage, where there is one; stored from version 14.5 on.
#[derive(Debug, Clone, Copy, PartialEq, Eq, Structural)]
pub struct ExtraEnigmaData(pub Option<ExtraEnigmaDataInner>);

/// Before version 14.5 nothing is read; after, a flag and, where it is set,
/// the extra stage.
pub open spec fn spec_read_extra_enigma(g: GVCC, bytes: Seq<u8>) -> Option<(ExtraEnigmaData, int)> {
    if g.gv.0 < 140500 {
        Some((ExtraEnigmaData(None), 0))
    } else {
        match bool::spec_read(bytes) {
            Some((true, k1)) => match ExtraEnigmaDataInner::spec_read(bytes.skip(k1)) {
                Some((inner, k2)) => Some((ExtraEnigmaData(Some(inner)), k1 + k2)),
                None => None,
            },
            Some((false, k1)) => Some((ExtraEnigmaData(None), k1)),
            None => None,
        }
    }
}

/// Before version 14.5 nothing is written; after, whether there is an extra
/// stage and, where there is, the stage.
pub open spec fn spec_write_extra_enigma(g: GVCC, e: ExtraEnigmaData) -> Seq<u8> {
    if g.gv.0 < 140500 {
        Seq::empty()
    } else {
        match e.0 {
            Some(inner) => true.spec_write() + inner.spec_write(),
            None => false.spec_write(),
        }
    }
}

impl ExtraEnigmaData {
    pub fn read(r: &mut Reader, args: GVCC) -> (res: StreamResult<Self>)
        ensures
            crate::stream::read_result(*old(r), *final(r), res, spec_read_extra_enigma(args, old(r).rest())),
            res is Ok ==> old(r).position() <= final(r).position(),
    {
        let ghost start = *old(r);
        let _ = r.remaining();
        if args.gv.0 < 140500 {
            return Ok(ExtraEnigmaData(None));
        }
        let has_extra = bool::read(r)?;
        proof {
            bool::lemma_read_bounds(start.rest());
            Reader::lemma_rest_skip(start, *r);
        }
        if has_extra {
            let ghost mid = *r;
            let inner = ExtraEnigmaDataInner::read(r)?;
            proof {
                ExtraEnigmaDataInner::lemma_read_bounds(mid.rest());
            }
            Ok(ExtraEnigmaData(Some(inner)))
        } else {
            Ok(ExtraEnigmaData(None))
        }
    }

    pub fn write(&self, w: &mut Writer, args: GVCC)
        ensures
            final(w).bytes() == old(w).bytes() + spec_write_extra_enigma(args, *self),
    {
        if args.gv.0 < 140500 {
            assert(w.bytes() =~= old(w).bytes() + Seq::<u8>::empty());
            return;
        }
        match self.0 {
            Some(inner) => {
                true.write(w);
                inner.write(w);
            },
            None => {
                false.write(w);
            },
        }
        assert(w.bytes() =~= old(w).bytes() + spec_write_extra_enigma(args, *self));
    }
}

/// Writing the extra stage and reading it back gives it again from version
/// 14.5 on; before, nothing is written and nothing is read.
pub proof fn lemma_extra_enigma_roundtrip(g: GVCC, e: ExtraEnigmaData, rest: Seq<u8>)
    ensures
        spec_read_extra_enigma(g, spec_write_extra_enigma(g, e) + rest) == Some((
            if g.gv.0 < 140500 { ExtraEnigmaData(None) } else { e },
            spec_write_extra_enigma(g, e).len() as int,
        )),
{
    let b = spec_write_extra_enigma(g, e);
    if g.gv.0 >= 140500 {
        match e.0 {
            Some(inner) => {
                let t = true.spec_write();
                let i = inner.spec_write();
                bool::lemma_roundtrip(true, i + rest);
                assert(b + rest =~= t + (i + rest));
                assert((b + rest).skip(t.len() as int) =~= i + rest);
                ExtraEnigmaDataInner::lemma_roundtrip(inner, rest);
            },
            None => {
                bool::lemma_roundtrip(false, rest);
            },
        }
    } else {
        assert(b + rest =~= rest);
    }
}

/// The first numbers of the enigma: two energy counters, the level and two
/// unknown values.
pub type EngimaHead = (i32, (i32, (i8, (i8, bool))));

/// The enigma: its numbers, the stages on offer (counted by a byte) and the
/// extra stage.
#[derive(Debug, Clone)]
pub struct Engima {
    pub energy_since_1: i32,
    pub energy_since_2: i32,
    pub enigma_level: i8,
    pub unknown_1: i8,
    pub unknown_2: bool,
    pub stages: Vec<EnigmaStage>,
    pub extra_data: ExtraEnigmaData,
}

/// The enigma as values: its numbers, stages and extra stage.
pub type EngimaModel = (EngimaHead, Seq<EnigmaStage>, ExtraEnigmaData);

pub open spec fn engima_model(e: Engima) -> EngimaModel {
    (
        (e.energy_since_1, (e.energy_since_2, (e.enigma_level, (e.unknown_1, e.unknown_2)))),
        e.stages@,
        e.extra_data,
    )
}

pub open spec fn spec_read_engima(g: GVCC, bytes: Seq<u8>) -> Option<(EngimaModel, int)> {
    match EngimaHead::spec_read(bytes) {
        Some((h, k1)) => match spec_read_vec::<EnigmaStage>(VecArgsLength::I8, bytes.skip(k1)) {
            Some((s, k2)) => match spec_read_extra_enigma(g, bytes.skip(k1 + k2)) {
                Some((x, k3)) => Some(((h, s, x), k1 + k2 + k3)),
                None => None,
            },
            None => None,
        },
        None => None,
    }
}

pub open spec fn spec_write_engima(g: GVCC, m: EngimaModel) -> Seq<u8> {
    m.0.spec_write() + spec_write_vec::<EnigmaStage>(VecArgsLength::I8, m.1) + spec_write_extra_enigma(g, m.2)
}

/// Writing the enigma and reading it back gives it again, where it offers at
/// most 127 stages (the count is a byte) and, before version 14.5, has no
/// extra stage (which is not written then).
pub proof fn lemma_engima_roundtrip(g: GVCC, m: EngimaModel, rest: Seq<u8>)
    requires
        m.1.len() <= 127,
        g.gv.0 < 140500 ==> m.2.0 is None,
    ensures
        spec_read_engima(g, spec_write_engima(g, m) + rest) == Some((m, spec_write_engima(g, m).len() as int)),
{
    let h = m.0.spec_write();
    let v = spec_write_vec::<EnigmaStage>(VecArgsLength::I8, m.1);
    let x = spec_write_extra_enigma(g, m.2);
    let all = spec_write_engima(g, m) + rest;
    assert(all =~= h + (v + (x + rest)));
    assert(m.0.can_write());
    EngimaHead::lemma_roundtrip(m.0, v + (x + rest));
    assert(all.skip(h.len() as int) =~= v + (x + rest));
    assert(vec_writable(VecArgsLength::I8, m.1));
    crate::stream::lists::lemma_vec_roundtrip::<EnigmaStage>(VecArgsLength::I8, m.1, x + rest);
    assert(fixed_items(m.1, m.1.len(), EnigmaStage::spec_default()) =~= m.1);
    assert(all.skip((h.len() + v.len()) as int) =~= x + rest);
    lemma_extra_enigma_roundtrip(g, m.2, rest);
}

impl Engima {
    pub fn read(r: &mut Reader, args: GVCC) -> (res: StreamResult<Self>)
        ensures
            read_result_view(*old(r), *final(r), res, spec_read_engima(args, old(r).rest()), |e: Self| engima_model(e)),
            res is Ok ==> old(r).position() <= final(r).position(),
    {
        let ghost start = *old(r);
        let _ = r.remaining();
        let (energy_since_1, (energy_since_2, (enigma_level, (unknown_1, unknown_2)))) = EngimaHead::read(r)?;
        let ghost p1 = *r;
        proof {
            EngimaHead::lemma_read_bounds(start.rest());
            Reader::lemma_rest_skip(start, p1);
        }
        let stages = read_vec::<EnigmaStage>(r, VecArgs::new_empty_i8())?;
        let ghost p2 = *r;
        proof {
            lemma_vec_reader_bounded::<EnigmaStage>(VecArgsLength::I8);
            assert(vec_reader::<EnigmaStage>(VecArgsLength::I8)(p1.rest()) == spec_read_vec::<EnigmaStage>(
                VecArgsLength::I8,
                p1.rest(),
            ));
            Reader::lemma_rest_skip(p1, p2);
            Reader::lemma_rest_skip(start, p2);
            let k1 = p1.position() - start.position();
            let k2 = p2.position() - p1.position();
            assert(start.rest().skip(k1).skip(k2) =~= start.rest().skip(k1 + k2));
        }
        let extra_data = ExtraEnigmaData::read(r, args)?;
        Ok(Engima { energy_since_1, energy_since_2, enigma_level, unknown_1, unknown_2, stages, extra_data })
    }

    pub fn write(&self, w: &mut Writer, args: GVCC)
        ensures
            final(w).bytes() == old(w).bytes() + spec_write_engima(args, engima_model(*self)),
    {
        let head = (self.energy_since_1, (self.energy_since_2, (self.enigma_level, (self.unknown_1, self.unknown_2))));
        assert(head.can_write());
        head.write(w);
        assert(vec_writable(VecArgsLength::I8, self.stages@));
        write_vec::<EnigmaStage>(w, self.stages.as_slice(), VecArgs::new_empty_i8());
        self.extra_data.write(w, args);
        assert(w.bytes() =~= old(w).bytes() + spec_write_engima(args, engima_model(*self)));
    }
}

/// Cleared enigma stages, the enigma and the lineups that cleared its stages,
/// then the marker 90400.
#[derive(Debug, Clone)]
pub struct GV90400Block {
    pub enigma_clears: GauntletChapters,
    pub enigma: Engima,
    pub cleared_slots: ClearedSlots,
}

/// The block as values.
pub type GV90400Model = (
    (GauntletView, Seq<i8>),
    EngimaModel,
    (Seq<LineupCat>, Seq<(i16, Seq<i32>)>, Seq<(i16, bool)>),
);

pub open spec fn gv90400_model(b: GV90400Block) -> GV90400Model {
    (
        (b.enigma_clears.chapters@, b.enigma_clears.unknown@),
        engima_model(b.enigma),
        (b.cleared_slots.cats@, models(b.cleared_slots.stages@), b.cleared_slots.unknown.0@),
    )
}

pub open spec fn spec_read_gv90400(g: GVCC, bytes: Seq<u8>) -> Option<(GV90400Model, int)> {
    match spec_read_gauntlet(bytes) {
        Some((c, k1)) => match spec_read_engima(g, bytes.skip(k1)) {
            Some((e, k2)) => match spec_read_cleared_slots(bytes.skip(k1 + k2)) {
                Some((s, k3)) => match spec_read_marker(90400, bytes.skip(k1 + k2 + k3)) {
                    Some(k4) => Some(((c, e, s), k1 + k2 + k3 + k4)),
                    None => None,
                },
                None => None,
            },
            None => None,
        },
        None => None,
    }
}

pub open spec fn spec_write_gv90400(g: GVCC, m: GV90400Model) -> Seq<u8> {
    spec_write_gauntlet(m.0.0, m.0.1) + spec_write_engima(g, m.1) + spec_write_cleared_slots(m.2.0, m.2.1, m.2.2)
        + 90400i32.spec_write()
}

impl GV90400Block {
    #[verifier::rlimit(50)]
    pub fn read(r: &mut Reader, args: GVCC) -> (res: StreamResult<Self>)
        ensures
            read_result_view(*old(r), *final(r), res, spec_read_gv90400(args, old(r).rest()), |b: Self| gv90400_model(b)),
    {
        let ghost start = *old(r);
        let _ = r.remaining();
        let enigma_clears = GauntletChapters::read(r)?;
        let ghost p1 = *r;
        proof {
            Reader::lemma_rest_skip(start, p1);
        }
        let enigma = Engima::read(r, args)?;
        let ghost p2 = *r;
        proof {
            Reader::lemma_rest_skip(p1, p2);
            Reader::lemma_rest_skip(start, p2);
            let k1 = p1.position() - start.position();
            let k2 = p2.position() - p1.position();
            assert(start.rest().skip(k1).skip(k2) =~= start.rest().skip(k1 + k2));
        }
        let cleared_slots = ClearedSlots::read(r)?;
        let ghost p3 = *r;
        proof {
            Reader::lemma_rest_skip(p2, p3);
            Reader::lemma_rest_skip(start, p3);
        }
        read_marker(r, 90400)?;
        Ok(GV90400Block { enigma_clears, enigma, cleared_slots })
    }

    pub fn write(&self, w: &mut Writer, args: GVCC)
        ensures
            final(w).bytes() == old(w).bytes() + spec_write_gv90400(args, gv90400_model(*self)),
    {
        self.enigma_clears.write(w);
        self.enigma.write(w, args);
        self.cleared_slots.write(w);
        let marker = Assertable;
        marker.write(w, 90400);
        assert(w.bytes() =~= old(w).bytes() + spec_write_gv90400(args, gv90400_model(*self)));
    }
}

} // verus!

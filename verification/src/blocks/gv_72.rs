//! When maps reset, added in version 7.2.

use vstd::prelude::*;
use crate::blocks::marker::{lemma_marker_roundtrip, read_marker, spec_read_marker};
use crate::stream::{Codec, Reader, StreamResult, Writer, Readable, Writable};
use crate::stream::compound::Assertable;
use crate::stream::lists::{read_result_view, VecArgsLength};
use crate::stream::compound::distinct_keys;
use crate::stream::modeled::{lemma_model_map_roundtrip, spec_read_model_map, spec_write_models, FixedCodec, I32List, ModelMap};

verus! {

/// The ends of a map's yearly, monthly, weekly and daily periods (the bits
/// of the `f64` each is stored as).
#[derive(Debug, Clone, Copy, PartialEq, Eq, Structural)]
pub struct MapResetData {
    pub yearly_end_timestamp: u64,
    pub monthly_end_timestamp: u64,
    pub weekly_end_timestamp: u64,
    pub daily_end_timestamp: u64,
}

pub type MapResetTuple = (u64, (u64, (u64, u64)));

pub open spec fn map_reset_tuple(m: MapResetData) -> MapResetTuple {
    (m.yearly_end_timestamp, (m.monthly_end_timestamp, (m.weekly_end_timestamp, m.daily_end_timestamp)))
}

impl Readable for MapResetData {
    open spec fn spec_read(bytes: Seq<u8>) -> Option<(MapResetData, int)> {
        match MapResetTuple::spec_read(bytes) {
            Some((t, k)) => Some((
                MapResetData {
                    yearly_end_timestamp: t.0,
                    monthly_end_timestamp: t.1.0,
                    weekly_end_timestamp: t.1.1.0,
                    daily_end_timestamp: t.1.1.1,
                },
                k,
            )),
            None => None,
        }
    }

    proof fn lemma_read_bounds(bytes: Seq<u8>) {
        MapResetTuple::lemma_read_bounds(bytes);
    }

    fn read(r: &mut Reader) -> (res: StreamResult<MapResetData>) {
        let (yearly_end_timestamp, (monthly_end_timestamp, (weekly_end_timestamp, daily_end_timestamp))) =
            MapResetTuple::read(r)?;
        Ok(MapResetData { yearly_end_timestamp, monthly_end_timestamp, weekly_end_timestamp, daily_end_timestamp })
    }
}

impl Writable for MapResetData {
    open spec fn spec_write(&self) -> Seq<u8> {
        map_reset_tuple(*self).spec_write()
    }

    open spec fn can_write(&self) -> bool {
        true
    }

    open spec fn spec_default() -> MapResetData {
        MapResetData { yearly_end_timestamp: 0, monthly_end_timestamp: 0, weekly_end_timestamp: 0, daily_end_timestamp: 0 }
    }

    fn write(&self, w: &mut Writer) {
        let t = (self.yearly_end_timestamp, (self.monthly_end_timestamp, (self.weekly_end_timestamp, self.daily_end_timestamp)));
        assert(t.can_write());
        t.write(w);
    }

    fn default_value() -> (d: MapResetData) {
        MapResetData { yearly_end_timestamp: 0, monthly_end_timestamp: 0, weekly_end_timestamp: 0, daily_end_timestamp: 0 }
    }

    proof fn lemma_default_writable() {
    }
}

impl Codec for MapResetData {
    proof fn lemma_roundtrip(v: MapResetData, rest: Seq<u8>) {
        assert(map_reset_tuple(v).can_write());
        MapResetTuple::lemma_roundtrip(map_reset_tuple(v), rest);
    }
}

impl FixedCodec for MapResetData {
    proof fn lemma_always_writable(v: Self) {
    }
}

/// Period ends by map, each map's list counted by an `i32`, then the marker
/// 72.
#[derive(Debug, Clone)]
pub struct GV72Block {
    pub map_resets: ModelMap<i32, I32List<MapResetData>>,
    pub _72: Assertable,
}

pub open spec fn spec_read_gv72(bytes: Seq<u8>) -> Option<(Seq<(i32, Seq<MapResetData>)>, int)> {
    match spec_read_model_map::<i32, I32List<MapResetData>>(VecArgsLength::I32, bytes) {
        Some((m, k1)) => match spec_read_marker(72, bytes.skip(k1)) {
            Some(k2) => Some((m, k1 + k2)),
            None => None,
        },
        None => None,
    }
}

/// The block reads back as what was written, where its maps are distinct
/// and its counts fit an `i32`.
pub proof fn lemma_gv72_roundtrip(s: Seq<(i32, Seq<MapResetData>)>, rest: Seq<u8>)
    requires
        s.len() <= i32::MAX,
        distinct_keys(s),
        forall|i: int| 0 <= i < s.len() ==> (#[trigger] s[i]).1.len() <= i32::MAX,
    ensures
        ({
            let b = spec_write_models::<(i32, I32List<MapResetData>)>(VecArgsLength::I32, s) + 72i32.spec_write();
            spec_read_gv72(b + rest) == Some((s, b.len() as int))
        }),
{
    let mb = spec_write_models::<(i32, I32List<MapResetData>)>(VecArgsLength::I32, s);
    let kb = 72i32.spec_write();
    assert((mb + kb) + rest =~= mb + (kb + rest));
    lemma_model_map_roundtrip::<i32, I32List<MapResetData>>(VecArgsLength::I32, s, kb + rest);
    assert((mb + (kb + rest)).skip(mb.len() as int) =~= kb + rest);
    lemma_marker_roundtrip(72, rest);
}

impl GV72Block {
    pub fn read(r: &mut Reader) -> (res: StreamResult<Self>)
        ensures
            read_result_view(*old(r), *final(r), res, spec_read_gv72(old(r).rest()), |b: Self| b.map_resets.entries()),
    {
        let ghost start = *old(r);
        let _ = r.remaining();
        let map_resets = ModelMap::<i32, I32List<MapResetData>>::read(r, VecArgsLength::I32)?;
        proof {
            Reader::lemma_rest_skip(start, *r);
        }
        let _72 = read_marker(r, 72)?;
        Ok(GV72Block { map_resets, _72 })
    }

    pub fn write(&self, w: &mut Writer)
        ensures
            final(w).bytes() == old(w).bytes() + spec_write_models::<(i32, I32List<MapResetData>)>(
                VecArgsLength::I32,
                self.map_resets.entries(),
            ) + 72i32.spec_write(),
    {
        self.map_resets.write(w, VecArgsLength::I32);
        self._72.write(w, 72);
    }
}

} // verus!

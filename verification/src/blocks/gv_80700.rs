//! An unknown map of lists added in version 8.7.

use vstd::prelude::*;
use crate::blocks::marker::{lemma_marker_roundtrip, read_marker, spec_read_marker};
use crate::stream::{Reader, StreamResult, Writer, Writable};
use crate::stream::compound::Assertable;
use crate::stream::lists::{read_result_view, VecArgsLength};
use crate::stream::compound::distinct_keys;
use crate::stream::modeled::{lemma_model_map_roundtrip, spec_read_model_map, spec_write_models, I32List, ModelMap};

verus! {

/// A map of lists of `i32` by `i32` keys (both counted by an `i32`), then the
/// marker 80700.
#[derive(Debug, Clone)]
pub struct GV80700Block {
    pub unknown: ModelMap<i32, I32List<i32>>,
}

pub open spec fn spec_read_gv80700(bytes: Seq<u8>) -> Option<(Seq<(i32, Seq<i32>)>, int)> {
    match spec_read_model_map::<i32, I32List<i32>>(VecArgsLength::I32, bytes) {
        Some((m, k1)) => match spec_read_marker(80700, bytes.skip(k1)) {
            Some(k2) => Some((m, k1 + k2)),
            None => None,
        },
        None => None,
    }
}

/// The block reads back as what was written, where its keys are distinct
/// and its counts fit an `i32`.
pub proof fn lemma_gv80700_roundtrip(s: Seq<(i32, Seq<i32>)>, rest: Seq<u8>)
    requires
        s.len() <= i32::MAX,
        distinct_keys(s),
        forall|i: int| 0 <= i < s.len() ==> (#[trigger] s[i]).1.len() <= i32::MAX,
    ensures
        ({
            let b = spec_write_models::<(i32, I32List<i32>)>(VecArgsLength::I32, s) + 80700i32.spec_write();
            spec_read_gv80700(b + rest) == Some((s, b.len() as int))
        }),
{
    let mb = spec_write_models::<(i32, I32List<i32>)>(VecArgsLength::I32, s);
    let kb = 80700i32.spec_write();
    assert((mb + kb) + rest =~= mb + (kb + rest));
    lemma_model_map_roundtrip::<i32, I32List<i32>>(VecArgsLength::I32, s, kb + rest);
    assert((mb + (kb + rest)).skip(mb.len() as int) =~= kb + rest);
    lemma_marker_roundtrip(80700, rest);
}

impl GV80700Block {
    pub fn read(r: &mut Reader) -> (res: StreamResult<Self>)
        ensures
            read_result_view(*old(r), *final(r), res, spec_read_gv80700(old(r).rest()), |b: Self| b.unknown.entries()),
    {
        let ghost start = *old(r);
        let _ = r.remaining();
        let unknown = ModelMap::<i32, I32List<i32>>::read(r, VecArgsLength::I32)?;
        proof {
            Reader::lemma_rest_skip(start, *r);
        }
        read_marker(r, 80700)?;
        Ok(GV80700Block { unknown })
    }

    pub fn write(&self, w: &mut Writer)
        ensures
            final(w).bytes() == old(w).bytes() + spec_write_models::<(i32, I32List<i32>)>(
                VecArgsLength::I32,
                self.unknown.entries(),
            ) + 80700i32.spec_write(),
    {
        self.unknown.write(w, VecArgsLength::I32);
        let marker = Assertable;
        marker.write(w, 80700);
    }
}

} // verus!

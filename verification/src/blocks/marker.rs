//! The marker number that closes a block, and values followed by one.

use vstd::prelude::*;
use crate::stream::{Codec, Reader, StreamResult, Writer, Readable, Writable, read_result};
use crate::stream::compound::Assertable;

verus! {

/// An `i32` that must be the given marker.
pub open spec fn spec_read_marker(expected: i32, bytes: Seq<u8>) -> Option<int> {
    match i32::spec_read(bytes) {
        Some((v, k)) => if v == expected {
            Some(k)
        } else {
            None
        },
        None => None,
    }
}

/// Reads a marker; the reader has moved past it where it was right.
pub fn read_marker(r: &mut Reader, expected: i32) -> (res: StreamResult<Assertable>)
    ensures
        final(r).bytes() == old(r).bytes(),
        final(r).in_bounds(),
        match spec_read_marker(expected, old(r).rest()) {
            Some(k) => res is Ok && final(r).position() == old(r).position() + k,
            None => res is Err,
        },
        res is Ok ==> old(r).position() <= final(r).position(),
{
    proof {
        i32::lemma_read_bounds(old(r).rest());
    }
    Assertable::read(r, expected)
}

/// A value followed by the marker.
pub open spec fn spec_read_with_marker<T: Readable>(marker: i32, bytes: Seq<u8>) -> Option<(T, int)> {
    match T::spec_read(bytes) {
        Some((v, k1)) => match spec_read_marker(marker, bytes.skip(k1)) {
            Some(k2) => Some((v, k1 + k2)),
            None => None,
        },
        None => None,
    }
}

pub fn read_with_marker<T: Readable>(r: &mut Reader, marker: i32) -> (res: StreamResult<T>)
    ensures
        read_result(*old(r), *final(r), res, spec_read_with_marker::<T>(marker, old(r).rest())),
{
    let ghost start = *old(r);
    let _ = r.remaining();
    let v = T::read(r)?;
    proof {
        T::lemma_read_bounds(start.rest());
        Reader::lemma_rest_skip(start, *r);
    }
    read_marker(r, marker)?;
    Ok(v)
}

pub fn write_with_marker<T: Writable>(w: &mut Writer, v: &T, marker: i32)
    requires
        v.can_write(),
    ensures
        final(w).bytes() == old(w).bytes() + v.spec_write() + marker.spec_write(),
{
    v.write(w);
    marker.write(w);
}

/// A marker that was written reads back.
pub proof fn lemma_marker_roundtrip(marker: i32, rest: Seq<u8>)
    ensures
        spec_read_marker(marker, marker.spec_write() + rest) == Some(marker.spec_write().len() as int),
{
    i32::lemma_roundtrip(marker, rest);
}

} // verus!

//! Arrays: a fixed number of values one after the other, with no count.

use vstd::prelude::*;
use crate::stream::{Codec, Readable, Reader, StreamResult, Writable, Writer};
use crate::stream::lists::{
    all_writable, item_reader, item_writer, lemma_items_roundtrip, lemma_item_reader_bounded,
    lemma_read_list_bounds, read_items, read_list, write_items, write_list,
};

verus! {

/// The array holding the given values.
pub open spec fn array_of<T, const N: usize>(vs: Seq<T>) -> [T; N] {
    choose|a: [T; N]| a@ == vs
}

/// An array is the array of its values.
pub proof fn lemma_array_of<T, const N: usize>(a: [T; N])
    ensures
        array_of::<T, N>(a@) == a,
{
    let b = array_of::<T, N>(a@);
    assert(exists|x: [T; N]| x@ == a@);
    assert(b@ == a@);
    assert(b =~= a);
}

impl<T: Readable + Writable + Copy, const N: usize> Readable for [T; N] {
    open spec fn spec_read(bytes: Seq<u8>) -> Option<([T; N], int)> {
        match read_list(item_reader::<T>(), bytes, N as nat) {
            Some((vs, k)) => Some((array_of::<T, N>(vs), k)),
            None => None,
        }
    }

    proof fn lemma_read_bounds(bytes: Seq<u8>) {
        lemma_item_reader_bounded::<T>();
        lemma_read_list_bounds(item_reader::<T>(), bytes, N as nat);
    }

    fn read(r: &mut Reader) -> (res: StreamResult<[T; N]>) {
        let ghost bytes = old(r).rest();
        proof {
            lemma_item_reader_bounded::<T>();
            lemma_read_list_bounds(item_reader::<T>(), bytes, N as nat);
        }
        let v = read_items::<T>(r, N)?;
        let d = T::default_value();
        let mut a: [T; N] = [d; N];
        let mut i: usize = 0;
        while i < N
            invariant
                v@.len() == N,
                i <= N,
                forall|j: int| 0 <= j < i ==> a@[j] == v@[j],
            decreases N - i,
        {
            a[i] = v[i];
            i = i + 1;
        }
        assert(a@ =~= v@);
        proof {
            lemma_array_of::<T, N>(a);
        }
        Ok(a)
    }
}

impl<T: Readable + Writable + Copy, const N: usize> Writable for [T; N] {
    open spec fn spec_write(&self) -> Seq<u8> {
        write_list(item_writer::<T>(), self@)
    }

    open spec fn can_write(&self) -> bool {
        all_writable(self@)
    }

    open spec fn spec_default() -> [T; N] {
        array_of::<T, N>(Seq::new(N as nat, |i: int| T::spec_default()))
    }

    fn write(&self, w: &mut Writer) {
        write_items(w, self.as_slice());
    }

    fn default_value() -> (d: [T; N]) {
        let x = T::default_value();
        let a: [T; N] = [x; N];
        assert(a@ =~= Seq::new(N as nat, |i: int| T::spec_default()));
        proof {
            lemma_array_of::<T, N>(a);
            T::lemma_default_writable();
        }
        a
    }

    proof fn lemma_default_writable() {
        T::lemma_default_writable();
        let d = Self::spec_default();
        let s = Seq::new(N as nat, |i: int| T::spec_default());
        assert(exists|x: [T; N]| x@ == s) by {
            let x = vstd::array::spec_array_fill_for_copy_type::<T, N>(T::spec_default());
            assert(x@ =~= s);
        }
    }
}

impl<T: Codec + Copy, const N: usize> Codec for [T; N] {
    proof fn lemma_roundtrip(v: [T; N], rest: Seq<u8>) {
        lemma_items_roundtrip::<T>(v@, rest);
        lemma_array_of::<T, N>(v);
    }
}

} // verus!

//! A byte stream over save data: a reader that walks a byte buffer from the
//! front, a writer that appends to one, and the little-endian encodings of
//! the integer types that the save format is made of.

use vstd::prelude::*;

pub mod array;
pub mod compound;
pub mod lists;
pub mod modeled;
pub mod varint;

verus! {

/// What went wrong while reading.
#[derive(Debug, Clone, PartialEq, Eq)]
pub enum StreamErrorKind {
    /// The data ended before the value did.
    UnexpectedEnd,
    /// A length read from the data was negative.
    NegativeLength,
    /// String data was not valid UTF-8.
    InvalidUtf8,
    /// A key occurred twice in a map.
    DuplicateKey,
    /// A marker value was not the one that was expected.
    AssertionFailed { expected: i32, got: i32 },
    /// A form number outside 0..=3.
    InvalidForm(i32),
    /// Anything else, described in words.
    Message(String),
}

/// An error of the stream, with the position where it happened and what was
/// being read at the time.
#[derive(Debug, Clone)]
pub struct StreamError {
    pub kind: StreamErrorKind,
    pub pos: u64,
    pub context: Vec<String>,
}

pub type StreamResult<T> = Result<T, StreamError>;

impl StreamError {
    pub fn new_context(kind: StreamErrorKind, pos: u64, context: Vec<String>) -> (e: Self)
        ensures
            e.kind == kind,
            e.pos == pos,
            e.context@ == context@,
    {
        StreamError { kind, pos, context }
    }

    pub fn new(kind: StreamErrorKind, pos: u64) -> (e: Self)
        ensures
            e.kind == kind,
            e.pos == pos,
            e.context@.len() == 0,
    {
        StreamError { kind, pos, context: Vec::new() }
    }

    pub fn new_str(message: &str, pos: u64) -> (e: Self)
        ensures
            e.kind matches StreamErrorKind::Message(m) && m@ == message@,
            e.pos == pos,
            e.context@.len() == 0,
    {
        StreamError { kind: StreamErrorKind::Message(message.to_owned()), pos, context: Vec::new() }
    }

    pub fn new_string_context(message: String, pos: u64, context: String) -> (e: Self)
        ensures
            e.kind == StreamErrorKind::Message(message),
            e.pos == pos,
            e.context@ == seq![context],
    {
        let mut ctx = Vec::new();
        ctx.push(context);
        StreamError { kind: StreamErrorKind::Message(message), pos, context: ctx }
    }

    pub fn add_context(self, new_context: String) -> (e: Self)
        ensures
            e.kind == self.kind,
            e.pos == self.pos,
            e.context@ == self.context@.push(new_context),
    {
        let mut context = self.context;
        context.push(new_context);
        StreamError { kind: self.kind, pos: self.pos, context }
    }
}

/// Reads values from the front of a byte buffer.
pub struct Reader {
    data: Vec<u8>,
    pos: usize,
}

impl Reader {
    #[verifier::type_invariant]
    spec fn inv(self) -> bool {
        self.pos <= self.data@.len()
    }

    /// All the bytes of the buffer.
    pub closed spec fn bytes(self) -> Seq<u8> {
        self.data@
    }

    /// How many bytes have been read so far.
    pub closed spec fn position(self) -> int {
        self.pos as int
    }

    /// The bytes that have not been read yet.
    pub open spec fn rest(self) -> Seq<u8> {
        self.bytes().skip(self.position())
    }

    /// The position never passes the end of the buffer.
    pub open spec fn in_bounds(self) -> bool {
        0 <= self.position() <= self.bytes().len()
    }

    /// What is left after moving forward from `before` to `after` is what was
    /// left before, less the bytes in between.
    pub proof fn lemma_rest_skip(before: Reader, after: Reader)
        requires
            after.bytes() == before.bytes(),
            before.in_bounds(),
            after.in_bounds(),
            before.position() <= after.position(),
        ensures
            after.rest() == before.rest().skip(after.position() - before.position()),
    {
        assert(after.rest() =~= before.rest().skip(after.position() - before.position()));
    }

    pub fn new(data: Vec<u8>) -> (r: Self)
        ensures
            r.bytes() == data@,
            r.position() == 0,
            r.rest() == data@,
            r.in_bounds(),
    {
        let r = Reader { data, pos: 0 };
        assert(r.data@.skip(0) =~= r.data@);
        r
    }

    pub fn stream_position(&self) -> (p: usize)
        ensures
            p == self.position(),
            self.in_bounds(),
    {
        proof {
            use_type_invariant(self);
        }
        self.pos
    }

    pub fn len(&self) -> (n: usize)
        ensures
            n == self.bytes().len(),
    {
        self.data.len()
    }

    /// The number of bytes that have not been read yet.
    pub fn remaining(&self) -> (n: usize)
        ensures
            n == self.rest().len(),
            self.in_bounds(),
    {
        proof {
            use_type_invariant(self);
        }
        self.data.len() - self.pos
    }

    /// The error for data that ended too early, at the current position.
    pub fn end_error(&self) -> (e: StreamError)
        ensures
            e.kind == StreamErrorKind::UnexpectedEnd,
            e.pos == self.position(),
    {
        StreamError::new(StreamErrorKind::UnexpectedEnd, self.pos as u64)
    }

    /// Reads the next `n` bytes.
    pub fn read_bytes(&mut self, n: usize) -> (res: StreamResult<Vec<u8>>)
        ensures
            final(self).bytes() == old(self).bytes(),
            final(self).in_bounds(),
            n <= old(self).rest().len() ==> (res matches Ok(b) && b@ == old(self).rest().take(
                n as int,
            ) && final(self).position() == old(self).position() + n),
            n > old(self).rest().len() ==> (res matches Err(e) && e.kind
                == StreamErrorKind::UnexpectedEnd),
    {
        proof {
            use_type_invariant(&*self);
        }
        if n > self.data.len() - self.pos {
            return Err(self.end_error());
        }
        let mut out: Vec<u8> = Vec::new();
        let start = self.pos;
        let total = self.data.len();
        let mut i: usize = 0;
        while i < n
            invariant
                start + n <= total,
                total == self.data@.len(),
                0 <= i <= n,
                out@ == self.data@.subrange(start as int, start + i),
            decreases n - i,
        {
            out.push(self.data[start + i]);
            i = i + 1;
            assert(out@ =~= self.data@.subrange(start as int, start + i));
        }
        self.pos = start + n;
        assert(out@ =~= old(self).rest().take(n as int));
        Ok(out)
    }

    /// Moves the position to `pos`.
    pub fn seek(&mut self, pos: usize)
        requires
            pos <= old(self).bytes().len(),
        ensures
            final(self).bytes() == old(self).bytes(),
            final(self).position() == pos,
            final(self).in_bounds(),
    {
        self.pos = pos;
    }
}

/// Appends values to a byte buffer.
pub struct Writer {
    data: Vec<u8>,
}

impl Writer {
    /// The bytes written so far.
    pub closed spec fn bytes(self) -> Seq<u8> {
        self.data@
    }

    pub fn new() -> (w: Self)
        ensures
            w.bytes() == Seq::<u8>::empty(),
    {
        Writer { data: Vec::new() }
    }

    pub fn into_bytes(self) -> (b: Vec<u8>)
        ensures
            b@ == self.bytes(),
    {
        self.data
    }

    pub fn len(&self) -> (n: usize)
        ensures
            n == self.bytes().len(),
    {
        self.data.len()
    }

    /// A copy of the bytes written so far.
    pub fn bytes_vec(&self) -> (b: Vec<u8>)
        ensures
            b@ == self.bytes(),
    {
        let mut b: Vec<u8> = Vec::new();
        let mut i: usize = 0;
        while i < self.data.len()
            invariant
                i <= self.data@.len(),
                b@ == self.data@.take(i as int),
            decreases self.data@.len() - i,
        {
            b.push(self.data[i]);
            i = i + 1;
            assert(b@ =~= self.data@.take(i as int));
        }
        assert(b@ =~= self.data@);
        b
    }

    pub fn write_u8(&mut self, b: u8)
        ensures
            final(self).bytes() == old(self).bytes().push(b),
    {
        self.data.push(b);
    }

    pub fn write_bytes(&mut self, b: &[u8])
        ensures
            final(self).bytes() == old(self).bytes() + b@,
    {
        let mut i: usize = 0;
        while i < b.len()
            invariant
                0 <= i <= b@.len(),
                self.data@ == old(self).bytes() + b@.take(i as int),
            decreases b@.len() - i,
        {
            self.data.push(b[i]);
            i = i + 1;
            assert(self.data@ =~= old(self).bytes() + b@.take(i as int));
        }
        assert(b@.take(b@.len() as int) =~= b@);
    }
}

/* Values read and written by the stream */

/// The outcome of a read against what the format says of the unread bytes:
/// the read succeeds exactly when the format yields a value, returns that
/// value and moves past the bytes it took; the buffer itself never changes.
pub open spec fn read_result<T>(
    before: Reader,
    after: Reader,
    res: StreamResult<T>,
    expected: Option<(T, int)>,
) -> bool {
    &&& after.bytes() == before.bytes()
    &&& after.in_bounds()
    &&& match expected {
        Some((v, n)) => res matches Ok(x) && x == v && after.position() == before.position() + n,
        None => res is Err,
    }
}

/// A value that can be read from the front of a byte buffer.
pub trait Readable: Sized {
    /// What reading yields from the given bytes: the value and how many
    /// bytes it took, or `None` where the data does not hold one.
    spec fn spec_read(bytes: Seq<u8>) -> Option<(Self, int)>;

    /// A value only ever takes bytes that are there.
    proof fn lemma_read_bounds(bytes: Seq<u8>)
        ensures
            Self::spec_read(bytes) matches Some((_, n)) ==> 0 <= n <= bytes.len(),
    ;

    fn read(r: &mut Reader) -> (res: StreamResult<Self>)
        ensures
            read_result(*old(r), *final(r), res, Self::spec_read(old(r).rest())),
    ;
}

/// A value that can be appended to a byte buffer.
pub trait Writable: Sized {
    /// The bytes that stand for the value.
    spec fn spec_write(&self) -> Seq<u8>;

    /// Whether the value can be written at all.
    spec fn can_write(&self) -> bool;

    /// The value written where the data needs one and none is given.
    spec fn spec_default() -> Self;

    fn write(&self, w: &mut Writer)
        requires
            self.can_write(),
        ensures
            final(w).bytes() == old(w).bytes() + self.spec_write(),
    ;

    fn default_value() -> (d: Self)
        ensures
            d == Self::spec_default(),
            d.can_write(),
    ;

    proof fn lemma_default_writable()
        ensures
            Self::spec_default().can_write(),
    ;
}

/// A value whose reading gives back what writing it wrote.
pub trait Codec: Readable + Writable {
    proof fn lemma_roundtrip(v: Self, rest: Seq<u8>)
        requires
            v.can_write(),
        ensures
            Self::spec_read(v.spec_write() + rest) == Some((v, v.spec_write().len() as int)),
    ;
}

/* Little-endian integers */

/// 256 to the power `k`.
pub open spec fn pow256(k: nat) -> nat
    decreases k,
{
    if k == 0 {
        1
    } else {
        256 * pow256((k - 1) as nat)
    }
}

/// The unsigned number that little-endian bytes stand for.
pub open spec fn le_value(bytes: Seq<u8>) -> nat
    decreases bytes.len(),
{
    if bytes.len() == 0 {
        0
    } else {
        bytes[0] as nat + 256 * le_value(bytes.drop_first())
    }
}

/// The `k` little-endian bytes of `v` (its value modulo 256^k).
pub open spec fn le_bytes(v: nat, k: nat) -> Seq<u8>
    decreases k,
{
    if k == 0 {
        Seq::empty()
    } else {
        seq![(v % 256) as u8] + le_bytes(v / 256, (k - 1) as nat)
    }
}

pub proof fn lemma_le_bytes_len(v: nat, k: nat)
    ensures
        le_bytes(v, k).len() == k,
    decreases k,
{
    if k > 0 {
        lemma_le_bytes_len(v / 256, (k - 1) as nat);
    }
}

pub proof fn lemma_le_value_bound(bytes: Seq<u8>)
    ensures
        le_value(bytes) < pow256(bytes.len()),
    decreases bytes.len(),
{
    if bytes.len() > 0 {
        lemma_le_value_bound(bytes.drop_first());
    }
}

pub proof fn lemma_pow256_mono(a: nat, b: nat)
    requires
        a <= b,
    ensures
        pow256(a) <= pow256(b),
    decreases b,
{
    if a < b {
        lemma_pow256_mono(a, (b - 1) as nat);
    }
}

pub proof fn lemma_pow256_values()
    ensures
        pow256(1) == 0x100,
        pow256(2) == 0x1_0000,
        pow256(4) == 0x1_0000_0000,
        pow256(8) == 0x1_0000_0000_0000_0000,
{
    reveal_with_fuel(pow256, 9);
}

/// Writing `v` in `k` bytes and reading them back gives `v`, when it fits.
pub proof fn lemma_le_roundtrip(v: nat, k: nat)
    requires
        v < pow256(k),
    ensures
        le_value(le_bytes(v, k)) == v,
    decreases k,
{
    if k > 0 {
        let p = pow256((k - 1) as nat);
        assert(v / 256 < p) by (nonlinear_arith)
            requires
                v < 256 * p,
        ;
        lemma_le_roundtrip(v / 256, (k - 1) as nat);
        let b = le_bytes(v, k);
        assert(b.drop_first() =~= le_bytes(v / 256, (k - 1) as nat));
    }
}

/// Reads `k` bytes as a little-endian unsigned number.
pub fn read_le(r: &mut Reader, k: usize) -> (res: StreamResult<u64>)
    requires
        k <= 8,
    ensures
        read_result(
            *old(r),
            *final(r),
            res,
            if k <= old(r).rest().len() {
                Some((le_value(old(r).rest().take(k as int)) as u64, k as int))
            } else {
                None
            },
        ),
        res matches Ok(v) ==> v < pow256(k as nat),
{
    let bytes = r.read_bytes(k)?;
    let ghost s = bytes@;
    let mut acc: u64 = 0;
    let mut i: usize = k;
    proof {
        lemma_pow256_values();
        assert(s.skip(k as int) =~= Seq::<u8>::empty());
    }
    while i > 0
        invariant
            bytes@ == s,
            s.len() == k,
            k <= 8,
            0 <= i <= k,
            acc == le_value(s.skip(i as int)),
            acc < pow256((k - i) as nat),
            pow256(8) == 0x1_0000_0000_0000_0000,
        decreases i,
    {
        let b = bytes[i - 1];
        proof {
            lemma_pow256_mono((k - i) as nat, 7);
            assert(pow256(7) * 256 == pow256(8));
            assert(s.skip(i - 1).drop_first() =~= s.skip(i as int));
        }
        acc = (b as u64) + 256 * acc;
        i = i - 1;
    }
    proof {
        assert(s.skip(0) =~= s);
    }
    Ok(acc)
}

/// Writes the `k` little-endian bytes of `v`.
pub fn write_le(w: &mut Writer, v: u64, k: usize)
    requires
        k <= 8,
    ensures
        final(w).bytes() == old(w).bytes() + le_bytes(v as nat, k as nat),
{
    let mut x: u64 = v;
    let mut i: usize = 0;
    while i < k
        invariant
            0 <= i <= k,
            old(w).bytes() + le_bytes(v as nat, k as nat) == w.bytes() + le_bytes(
                x as nat,
                (k - i) as nat,
            ),
        decreases k - i,
    {
        let ghost before = w.bytes();
        w.write_u8((x % 256) as u8);
        proof {
            assert(le_bytes(x as nat, (k - i) as nat) == seq![(x % 256) as u8] + le_bytes(
                (x / 256) as nat,
                (k - i - 1) as nat,
            ));
            assert(before + le_bytes(x as nat, (k - i) as nat) =~= before.push((x % 256) as u8)
                + le_bytes((x / 256) as nat, (k - i - 1) as nat));
        }
        x = x / 256;
        i = i + 1;
    }
    assert(w.bytes() + le_bytes(x as nat, 0) =~= w.bytes());
}


/* The integer types, little-endian */

impl Readable for u8 {
    open spec fn spec_read(bytes: Seq<u8>) -> Option<(u8, int)> {
        if bytes.len() >= 1 {
            Some((le_value(bytes.take(1)) as u8, 1))
        } else {
            None
        }
    }

    proof fn lemma_read_bounds(bytes: Seq<u8>) {
    }

    fn read(r: &mut Reader) -> (res: StreamResult<u8>) {
        let ghost rest = old(r).rest();
        assert(Self::spec_read(rest) == (if rest.len() >= 1 {
            Some((le_value(rest.take(1)) as u8, 1int))
        } else {
            None
        }));
        let u = match read_le(r, 1) {
            Ok(u) => u,
            Err(e) => {
                return Err(e);
            },
        };
        proof {
            lemma_pow256_values();
            lemma_le_value_bound(rest.take(1));
            assert(u == le_value(rest.take(1)));
        }
        Ok(u as u8)
    }
}

impl Writable for u8 {
    open spec fn spec_write(&self) -> Seq<u8> {
        le_bytes(*self as nat, 1)
    }

    open spec fn can_write(&self) -> bool {
        true
    }

    open spec fn spec_default() -> u8 {
        0
    }

    fn write(&self, w: &mut Writer) {
        let u: u64 = *self as u64;
        write_le(w, u, 1);
    }

    fn default_value() -> (d: u8) {
        0
    }

    proof fn lemma_default_writable() {
    }
}

impl Codec for u8 {
    proof fn lemma_roundtrip(v: u8, rest: Seq<u8>) {
        lemma_pow256_values();
        let b = le_bytes(v as nat, 1);
        lemma_le_bytes_len(v as nat, 1);
        lemma_le_roundtrip(v as nat, 1);
        assert((b + rest).take(1) =~= b);
    }
}

impl Readable for u16 {
    open spec fn spec_read(bytes: Seq<u8>) -> Option<(u16, int)> {
        if bytes.len() >= 2 {
            Some((le_value(bytes.take(2)) as u16, 2))
        } else {
            None
        }
    }

    proof fn lemma_read_bounds(bytes: Seq<u8>) {
    }

    fn read(r: &mut Reader) -> (res: StreamResult<u16>) {
        let ghost rest = old(r).rest();
        let u = match read_le(r, 2) {
            Ok(u) => u,
            Err(e) => {
                return Err(e);
            },
        };
        proof {
            lemma_pow256_values();
            lemma_le_value_bound(rest.take(2));
            assert(u == le_value(rest.take(2)));
        }
        Ok(u as u16)
    }
}

impl Writable for u16 {
    open spec fn spec_write(&self) -> Seq<u8> {
        le_bytes(*self as nat, 2)
    }

    open spec fn can_write(&self) -> bool {
        true
    }

    open spec fn spec_default() -> u16 {
        0
    }

    fn write(&self, w: &mut Writer) {
        let u: u64 = *self as u64;
        write_le(w, u, 2);
    }

    fn default_value() -> (d: u16) {
        0
    }

    proof fn lemma_default_writable() {
    }
}

impl Codec for u16 {
    proof fn lemma_roundtrip(v: u16, rest: Seq<u8>) {
        lemma_pow256_values();
        let b = le_bytes(v as nat, 2);
        lemma_le_bytes_len(v as nat, 2);
        lemma_le_roundtrip(v as nat, 2);
        assert((b + rest).take(2) =~= b);
    }
}

impl Readable for u32 {
    open spec fn spec_read(bytes: Seq<u8>) -> Option<(u32, int)> {
        if bytes.len() >= 4 {
            Some((le_value(bytes.take(4)) as u32, 4))
        } else {
            None
        }
    }

    proof fn lemma_read_bounds(bytes: Seq<u8>) {
    }

    fn read(r: &mut Reader) -> (res: StreamResult<u32>) {
        let ghost rest = old(r).rest();
        let u = match read_le(r, 4) {
            Ok(u) => u,
            Err(e) => {
                return Err(e);
            },
        };
        proof {
            lemma_pow256_values();
            lemma_le_value_bound(rest.take(4));
            assert(u == le_value(rest.take(4)));
        }
        Ok(u as u32)
    }
}

impl Writable for u32 {
    open spec fn spec_write(&self) -> Seq<u8> {
        le_bytes(*self as nat, 4)
    }

    open spec fn can_write(&self) -> bool {
        true
    }

    open spec fn spec_default() -> u32 {
        0
    }

    fn write(&self, w: &mut Writer) {
        let u: u64 = *self as u64;
        write_le(w, u, 4);
    }

    fn default_value() -> (d: u32) {
        0
    }

    proof fn lemma_default_writable() {
    }
}

impl Codec for u32 {
    proof fn lemma_roundtrip(v: u32, rest: Seq<u8>) {
        lemma_pow256_values();
        let b = le_bytes(v as nat, 4);
        lemma_le_bytes_len(v as nat, 4);
        lemma_le_roundtrip(v as nat, 4);
        assert((b + rest).take(4) =~= b);
    }
}

impl Readable for u64 {
    open spec fn spec_read(bytes: Seq<u8>) -> Option<(u64, int)> {
        if bytes.len() >= 8 {
            Some((le_value(bytes.take(8)) as u64, 8))
        } else {
            None
        }
    }

    proof fn lemma_read_bounds(bytes: Seq<u8>) {
    }

    fn read(r: &mut Reader) -> (res: StreamResult<u64>) {
        let ghost rest = old(r).rest();
        let u = match read_le(r, 8) {
            Ok(u) => u,
            Err(e) => {
                return Err(e);
            },
        };
        proof {
            lemma_pow256_values();
            lemma_le_value_bound(rest.take(8));
            assert(u == le_value(rest.take(8)));
        }
        Ok(u as u64)
    }
}

impl Writable for u64 {
    open spec fn spec_write(&self) -> Seq<u8> {
        le_bytes(*self as nat, 8)
    }

    open spec fn can_write(&self) -> bool {
        true
    }

    open spec fn spec_default() -> u64 {
        0
    }

    fn write(&self, w: &mut Writer) {
        let u: u64 = *self as u64;
        write_le(w, u, 8);
    }

    fn default_value() -> (d: u64) {
        0
    }

    proof fn lemma_default_writable() {
    }
}

impl Codec for u64 {
    proof fn lemma_roundtrip(v: u64, rest: Seq<u8>) {
        lemma_pow256_values();
        let b = le_bytes(v as nat, 8);
        lemma_le_bytes_len(v as nat, 8);
        lemma_le_roundtrip(v as nat, 8);
        assert((b + rest).take(8) =~= b);
    }
}

/// The `i8` whose two's complement bits are `u`.
pub open spec fn i8_from_bits(u: nat) -> i8 {
    if u >= 0x80 {
        (u - 0x100) as i8
    } else {
        u as i8
    }
}

/// The two's complement bits of a `i8`.
pub open spec fn i8_bits(v: i8) -> nat {
    if v >= 0 {
        v as nat
    } else {
        (v + 0x100) as nat
    }
}

impl Readable for i8 {
    open spec fn spec_read(bytes: Seq<u8>) -> Option<(i8, int)> {
        if bytes.len() >= 1 {
            Some((i8_from_bits(le_value(bytes.take(1))), 1))
        } else {
            None
        }
    }

    proof fn lemma_read_bounds(bytes: Seq<u8>) {
    }

    fn read(r: &mut Reader) -> (res: StreamResult<i8>) {
        let ghost rest = old(r).rest();
        let u = match read_le(r, 1) {
            Ok(u) => u,
            Err(e) => {
                return Err(e);
            },
        };
        proof {
            lemma_pow256_values();
            lemma_le_value_bound(rest.take(1));
            assert(u == le_value(rest.take(1)));
        }
        if u >= 0x80 {
            Ok((u as i64 - 0x100) as i8)
        } else {
            Ok(u as i8)
        }
    }
}

impl Writable for i8 {
    open spec fn spec_write(&self) -> Seq<u8> {
        le_bytes(i8_bits(*self), 1)
    }

    open spec fn can_write(&self) -> bool {
        true
    }

    open spec fn spec_default() -> i8 {
        0
    }

    fn write(&self, w: &mut Writer) {
        let u: u64 = if *self >= 0 {
            *self as u64
        } else {
            (*self as i64 + 0x100) as u64
        };
        write_le(w, u, 1);
    }

    fn default_value() -> (d: i8) {
        0
    }

    proof fn lemma_default_writable() {
    }
}

impl Codec for i8 {
    proof fn lemma_roundtrip(v: i8, rest: Seq<u8>) {
        lemma_pow256_values();
        let b = le_bytes(i8_bits(v), 1);
        lemma_le_bytes_len(i8_bits(v), 1);
        lemma_le_roundtrip(i8_bits(v), 1);
        assert((b + rest).take(1) =~= b);
    }
}

/// The `i16` whose two's complement bits are `u`.
pub open spec fn i16_from_bits(u: nat) -> i16 {
    if u >= 0x8000 {
        (u - 0x1_0000) as i16
    } else {
        u as i16
    }
}

/// The two's complement bits of a `i16`.
pub open spec fn i16_bits(v: i16) -> nat {
    if v >= 0 {
        v as nat
    } else {
        (v + 0x1_0000) as nat
    }
}

impl Readable for i16 {
    open spec fn spec_read(bytes: Seq<u8>) -> Option<(i16, int)> {
        if bytes.len() >= 2 {
            Some((i16_from_bits(le_value(bytes.take(2))), 2))
        } else {
            None
        }
    }

    proof fn lemma_read_bounds(bytes: Seq<u8>) {
    }

    fn read(r: &mut Reader) -> (res: StreamResult<i16>) {
        let ghost rest = old(r).rest();
        let u = match read_le(r, 2) {
            Ok(u) => u,
            Err(e) => {
                return Err(e);
            },
        };
        proof {
            lemma_pow256_values();
            lemma_le_value_bound(rest.take(2));
            assert(u == le_value(rest.take(2)));
        }
        if u >= 0x8000 {
            Ok((u as i64 - 0x1_0000) as i16)
        } else {
            Ok(u as i16)
        }
    }
}

impl Writable for i16 {
    open spec fn spec_write(&self) -> Seq<u8> {
        le_bytes(i16_bits(*self), 2)
    }

    open spec fn can_write(&self) -> bool {
        true
    }

    open spec fn spec_default() -> i16 {
        0
    }

    fn write(&self, w: &mut Writer) {
        let u: u64 = if *self >= 0 {
            *self as u64
        } else {
            (*self as i64 + 0x1_0000) as u64
        };
        write_le(w, u, 2);
    }

    fn default_value() -> (d: i16) {
        0
    }

    proof fn lemma_default_writable() {
    }
}

impl Codec for i16 {
    proof fn lemma_roundtrip(v: i16, rest: Seq<u8>) {
        lemma_pow256_values();
        let b = le_bytes(i16_bits(v), 2);
        lemma_le_bytes_len(i16_bits(v), 2);
        lemma_le_roundtrip(i16_bits(v), 2);
        assert((b + rest).take(2) =~= b);
    }
}

/// The `i32` whose two's complement bits are `u`.
pub open spec fn i32_from_bits(u: nat) -> i32 {
    if u >= 0x8000_0000 {
        (u - 0x1_0000_0000) as i32
    } else {
        u as i32
    }
}

/// The two's complement bits of a `i32`.
pub open spec fn i32_bits(v: i32) -> nat {
    if v >= 0 {
        v as nat
    } else {
        (v + 0x1_0000_0000) as nat
    }
}

impl Readable for i32 {
    open spec fn spec_read(bytes: Seq<u8>) -> Option<(i32, int)> {
        if bytes.len() >= 4 {
            Some((i32_from_bits(le_value(bytes.take(4))), 4))
        } else {
            None
        }
    }

    proof fn lemma_read_bounds(bytes: Seq<u8>) {
    }

    fn read(r: &mut Reader) -> (res: StreamResult<i32>) {
        let ghost rest = old(r).rest();
        let u = match read_le(r, 4) {
            Ok(u) => u,
            Err(e) => {
                return Err(e);
            },
        };
        proof {
            lemma_pow256_values();
            lemma_le_value_bound(rest.take(4));
            assert(u == le_value(rest.take(4)));
        }
        if u >= 0x8000_0000 {
            Ok((u as i64 - 0x1_0000_0000) as i32)
        } else {
            Ok(u as i32)
        }
    }
}

impl Writable for i32 {
    open spec fn spec_write(&self) -> Seq<u8> {
        le_bytes(i32_bits(*self), 4)
    }

    open spec fn can_write(&self) -> bool {
        true
    }

    open spec fn spec_default() -> i32 {
        0
    }

    fn write(&self, w: &mut Writer) {
        let u: u64 = if *self >= 0 {
            *self as u64
        } else {
            (*self as i64 + 0x1_0000_0000) as u64
        };
        write_le(w, u, 4);
    }

    fn default_value() -> (d: i32) {
        0
    }

    proof fn lemma_default_writable() {
    }
}

impl Codec for i32 {
    proof fn lemma_roundtrip(v: i32, rest: Seq<u8>) {
        lemma_pow256_values();
        let b = le_bytes(i32_bits(v), 4);
        lemma_le_bytes_len(i32_bits(v), 4);
        lemma_le_roundtrip(i32_bits(v), 4);
        assert((b + rest).take(4) =~= b);
    }
}

/// The `i64` whose two's complement bits are `u`.
pub open spec fn i64_from_bits(u: nat) -> i64 {
    if u >= 0x8000_0000_0000_0000 {
        (u - 0x1_0000_0000_0000_0000) as i64
    } else {
        u as i64
    }
}

/// The two's complement bits of a `i64`.
pub open spec fn i64_bits(v: i64) -> nat {
    if v >= 0 {
        v as nat
    } else {
        (v + 0x1_0000_0000_0000_0000) as nat
    }
}

impl Readable for i64 {
    open spec fn spec_read(bytes: Seq<u8>) -> Option<(i64, int)> {
        if bytes.len() >= 8 {
            Some((i64_from_bits(le_value(bytes.take(8))), 8))
        } else {
            None
        }
    }

    proof fn lemma_read_bounds(bytes: Seq<u8>) {
    }

    fn read(r: &mut Reader) -> (res: StreamResult<i64>) {
        let ghost rest = old(r).rest();
        let u = match read_le(r, 8) {
            Ok(u) => u,
            Err(e) => {
                return Err(e);
            },
        };
        proof {
            lemma_pow256_values();
            lemma_le_value_bound(rest.take(8));
            assert(u == le_value(rest.take(8)));
        }
        if u >= 0x8000_0000_0000_0000 {
            Ok(((u - 0x8000_0000_0000_0000) as i64) - 0x4000_0000_0000_0000 - 0x4000_0000_0000_0000)
        } else {
            Ok(u as i64)
        }
    }
}

impl Writable for i64 {
    open spec fn spec_write(&self) -> Seq<u8> {
        le_bytes(i64_bits(*self), 8)
    }

    open spec fn can_write(&self) -> bool {
        true
    }

    open spec fn spec_default() -> i64 {
        0
    }

    fn write(&self, w: &mut Writer) {
        let u: u64 = if *self >= 0 {
            *self as u64
        } else {
            ((*self + 0x4000_0000_0000_0000 + 0x4000_0000_0000_0000) as u64) + 0x8000_0000_0000_0000
        };
        write_le(w, u, 8);
    }

    fn default_value() -> (d: i64) {
        0
    }

    proof fn lemma_default_writable() {
    }
}

impl Codec for i64 {
    proof fn lemma_roundtrip(v: i64, rest: Seq<u8>) {
        lemma_pow256_values();
        let b = le_bytes(i64_bits(v), 8);
        lemma_le_bytes_len(i64_bits(v), 8);
        lemma_le_roundtrip(i64_bits(v), 8);
        assert((b + rest).take(8) =~= b);
    }
}

/* Booleans: one byte, anything but zero is true */

impl Readable for bool {
    open spec fn spec_read(bytes: Seq<u8>) -> Option<(bool, int)> {
        match u8::spec_read(bytes) {
            Some((b, n)) => Some((b != 0, n)),
            None => None,
        }
    }

    proof fn lemma_read_bounds(bytes: Seq<u8>) {
    }

    fn read(r: &mut Reader) -> (res: StreamResult<bool>) {
        let data = u8::read(r)?;
        Ok(data != 0)
    }
}

impl Writable for bool {
    open spec fn spec_write(&self) -> Seq<u8> {
        if *self {
            seq![1u8]
        } else {
            seq![0u8]
        }
    }

    open spec fn can_write(&self) -> bool {
        true
    }

    open spec fn spec_default() -> bool {
        false
    }

    fn write(&self, w: &mut Writer) {
        let data: u8 = if *self {
            1
        } else {
            0
        };
        let ghost before = w.bytes();
        w.write_u8(data);
        assert(w.bytes() =~= before + seq![data]);
    }

    fn default_value() -> (d: bool) {
        false
    }

    proof fn lemma_default_writable() {
    }
}

impl Codec for bool {
    proof fn lemma_roundtrip(v: bool, rest: Seq<u8>) {
        let b: u8 = if v { 1 } else { 0 };
        u8::lemma_roundtrip(b, rest);
        reveal_with_fuel(le_bytes, 2);
        assert(le_bytes(b as nat, 1) =~= seq![b]);
    }
}

} // verus!

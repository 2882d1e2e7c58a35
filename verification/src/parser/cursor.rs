//! The byte cursor: big-endian integers, booleans, fixed arrays, padded
//! variable-length fields and bounded lists, with a cap on nesting depth.

use crate::text::{decimal, i128_text, u128_text};
use vstd::prelude::*;
use vstd::string::StringExecFns;

verus! {

/// The deepest nesting of lists and recursive unions that a decode follows.
pub const MAX_PARSE_DEPTH: usize = 32;

/// Why a decode stopped.
#[derive(Debug, Clone, PartialEq, Eq)]
pub enum ParseError {
    BufferOverflow,
    InvalidType(i32),
    InvalidPadding,
    LengthExceedsMax { actual: usize, max: usize },
    MaxDepthExceeded { depth: usize, max: usize },
}

impl ParseError {
    /// What the error says.
    pub open spec fn text(&self) -> Seq<char> {
        match self {
            ParseError::BufferOverflow => "Buffer overflow: not enough bytes to read"@,
            ParseError::InvalidType(value) => "Invalid type value: "@ + decimal(*value as int),
            ParseError::InvalidPadding => "Invalid padding: non-zero bytes in padding"@,
            ParseError::LengthExceedsMax { actual, max } => "Length "@ + decimal(*actual as int)
                + " exceeds maximum allowed "@ + decimal(*max as int),
            ParseError::MaxDepthExceeded { depth, max } => "Parse depth "@ + decimal(
                *depth as int,
            ) + " exceeds maximum allowed depth "@ + decimal(*max as int),
        }
    }

    /// What the error says.
    pub fn to_string(&self) -> (r: String)
        ensures
            r@ == self.text(),
    {
        match self {
            ParseError::BufferOverflow => String::from_str(
                "Buffer overflow: not enough bytes to read",
            ),
            ParseError::InvalidType(value) => {
                let mut r = String::from_str("Invalid type value: ");
                r.append(i128_text(*value as i128).as_str());
                r
            },
            ParseError::InvalidPadding => String::from_str(
                "Invalid padding: non-zero bytes in padding",
            ),
            ParseError::LengthExceedsMax { actual, max } => {
                let mut r = String::from_str("Length ");
                r.append(u128_text(*actual as u128).as_str());
                r.append(" exceeds maximum allowed ");
                r.append(u128_text(*max as u128).as_str());
                r
            },
            ParseError::MaxDepthExceeded { depth, max } => {
                let mut r = String::from_str("Parse depth ");
                r.append(u128_text(*depth as u128).as_str());
                r.append(" exceeds maximum allowed depth ");
                r.append(u128_text(*max as u128).as_str());
                r
            },
        }
    }
}

/// The value of a 32-bit pattern read as two's complement.
pub open spec fn signed32(x: int) -> int {
    if x >= 0x8000_0000 {
        x - 0x1_0000_0000
    } else {
        x
    }
}

/// The value of a 64-bit pattern read as two's complement.
pub open spec fn signed64(x: int) -> int {
    if x >= 0x8000_0000_0000_0000 {
        x - 0x1_0000_0000_0000_0000
    } else {
        x
    }
}

/// The unsigned big-endian value of the four bytes at `pos`.
pub open spec fn be_u32(data: Seq<u8>, pos: int) -> int {
    data[pos] as int * 0x100_0000 + data[pos + 1] as int * 0x1_0000 + data[pos + 2] as int * 0x100
        + data[pos + 3] as int
}

/// The signed big-endian value of the four bytes at `pos`.
pub open spec fn be_i32(data: Seq<u8>, pos: int) -> int {
    signed32(be_u32(data, pos))
}

/// The unsigned big-endian value of the eight bytes at `pos`.
pub open spec fn be_u64(data: Seq<u8>, pos: int) -> int {
    be_u32(data, pos) * 0x1_0000_0000 + be_u32(data, pos + 4)
}

/// The signed big-endian value of the eight bytes at `pos`.
pub open spec fn be_i64(data: Seq<u8>, pos: int) -> int {
    signed64(be_u64(data, pos))
}

/// The length of a field of `n` bytes once padded to a multiple of four.
pub open spec fn padded_len(n: int) -> int {
    (n + 3) / 4 * 4
}

/// Where a read of `n` bytes at `pos` ends, or the overflow it gives.
pub open spec fn scan_fixed(data: Seq<u8>, pos: int, n: int) -> Result<int, ParseError> {
    if pos + n <= data.len() {
        Ok(pos + n)
    } else {
        Err(ParseError::BufferOverflow)
    }
}

/// Where a boolean at `pos` ends: four bytes that hold 0 or 1.
pub open spec fn scan_bool(data: Seq<u8>, pos: int) -> Result<int, ParseError> {
    if pos + 4 > data.len() {
        Err(ParseError::BufferOverflow)
    } else if be_u32(data, pos) > 1 {
        Err(ParseError::InvalidType(be_i32(data, pos) as i32))
    } else {
        Ok(pos + 4)
    }
}

/// Where a discriminant at `pos` ends: four bytes that hold a code of the
/// union, which `known` says of the code read.
pub open spec fn scan_code(data: Seq<u8>, pos: int, known: bool) -> Result<int, ParseError> {
    if pos + 4 > data.len() {
        Err(ParseError::BufferOverflow)
    } else if !known {
        Err(ParseError::InvalidType(be_i32(data, pos) as i32))
    } else {
        Ok(pos + 4)
    }
}

/// Where an optional integer of `n` bytes at `pos` ends: a boolean, then the
/// integer if the boolean is set.
pub open spec fn scan_optional_fixed(data: Seq<u8>, pos: int, n: int) -> Result<int, ParseError> {
    match scan_bool(data, pos) {
        Err(e) => Err(e),
        Ok(p) => if be_u32(data, pos) == 1 {
            scan_fixed(data, p, n)
        } else {
            Ok(p)
        },
    }
}

/// The optional unsigned 32-bit integer that the bytes at `pos` encode.
pub open spec fn optional_u32(data: Seq<u8>, pos: int) -> Option<u32> {
    if be_u32(data, pos) == 1 {
        Some(be_u32(data, pos + 4) as u32)
    } else {
        None
    }
}

/// The optional signed 64-bit integer that the bytes at `pos` encode.
pub open spec fn optional_i64(data: Seq<u8>, pos: int) -> Option<i64> {
    if be_u32(data, pos) == 1 {
        Some(be_i64(data, pos + 4) as i64)
    } else {
        None
    }
}

/// Whether every byte of `data` from `from` up to `to` is zero.
pub open spec fn all_zero(data: Seq<u8>, from: int, to: int) -> bool {
    forall|i: int| from <= i < to ==> data[i] == 0
}

/// Where a variable-length field at `pos` ends: a length, not above `max`
/// where one is given, then the bytes, then zero bytes up to a multiple of
/// four.
pub open spec fn scan_opaque(
    data: Seq<u8>,
    pos: int,
    max: Option<usize>,
) -> Result<int, ParseError> {
    if pos + 4 > data.len() {
        Err(ParseError::BufferOverflow)
    } else if max is Some && be_u32(data, pos) > max->0 {
        Err(ParseError::LengthExceedsMax { actual: be_u32(data, pos) as usize, max: max->0 })
    } else if pos + 4 + padded_len(be_u32(data, pos)) > data.len() {
        Err(ParseError::BufferOverflow)
    } else if !all_zero(
        data,
        pos + 4 + be_u32(data, pos),
        pos + 4 + padded_len(be_u32(data, pos)),
    ) {
        Err(ParseError::InvalidPadding)
    } else {
        Ok(pos + 4 + padded_len(be_u32(data, pos)))
    }
}

/// The bytes that a variable-length field at `pos` carries.
pub open spec fn opaque_payload(data: Seq<u8>, pos: int) -> Seq<u8> {
    data.subrange(pos + 4, pos + 4 + be_u32(data, pos))
}

/// How the decoding of a value changes when the bytes are cut off at `k`:
/// where the whole bytes hold the value from `pos` up to `end`, the cut bytes
/// hold it too if `end` is not after `k`, and give a buffer overflow if the
/// cut is inside the value.
pub open spec fn cut_short(
    whole: Result<int, ParseError>,
    cut: Result<int, ParseError>,
    pos: int,
    k: int,
    len: int,
) -> bool {
    whole matches Ok(end) ==> {
        &&& pos <= end <= len
        &&& end <= k ==> cut == whole
        &&& pos <= k < end ==> cut == Err::<int, ParseError>(ParseError::BufferOverflow)
    }
}

/// A variable-length field that is cut off fails with a buffer overflow.
pub proof fn lemma_opaque_prefix(data: Seq<u8>, pos: int, max: Option<usize>, k: int)
    requires
        0 <= pos,
        0 <= k <= data.len(),
    ensures
        cut_short(
            scan_opaque(data, pos, max),
            scan_opaque(data.subrange(0, k), pos, max),
            pos,
            k,
            data.len() as int,
        ),
{
    let cut = data.subrange(0, k);
    if scan_opaque(data, pos, max) is Ok {
        let n = be_u32(data, pos);
        let end = pos + 4 + padded_len(n);
        if end <= k {
            assert(be_u32(cut, pos) == n);
            assert(all_zero(cut, pos + 4 + n, end)) by {
                assert forall|i: int| pos + 4 + n <= i < end implies cut[i] == 0 by {
                    assert(data[i] == 0);
                }
            }
        } else if pos <= k {
            if pos + 4 <= k {
                assert(be_u32(cut, pos) == n);
            }
        }
    }
}

/// An optional integer that is cut off fails with a buffer overflow.
pub proof fn lemma_optional_fixed_prefix(data: Seq<u8>, pos: int, n: int, k: int)
    requires
        0 <= pos,
        0 <= n,
        0 <= k <= data.len(),
    ensures
        cut_short(
            scan_optional_fixed(data, pos, n),
            scan_optional_fixed(data.subrange(0, k), pos, n),
            pos,
            k,
            data.len() as int,
        ),
{
    let cut = data.subrange(0, k);
    if pos + 4 <= k {
        assert(be_u32(cut, pos) == be_u32(data, pos));
    }
}

/// A value of fixed size, a boolean and a discriminant that are cut off
/// fail with a buffer overflow.
pub proof fn lemma_fixed_prefix(data: Seq<u8>, pos: int, k: int)
    requires
        0 <= pos,
        0 <= k <= data.len(),
    ensures
        forall|n: int|
            0 <= n ==> cut_short(
                scan_fixed(data, pos, n),
                #[trigger] scan_fixed(data.subrange(0, k), pos, n),
                pos,
                k,
                data.len() as int,
            ),
        cut_short(
            scan_bool(data, pos),
            scan_bool(data.subrange(0, k), pos),
            pos,
            k,
            data.len() as int,
        ),
        forall|known: bool|
            cut_short(
                scan_code(data, pos, known),
                #[trigger] scan_code(data.subrange(0, k), pos, known),
                pos,
                k,
                data.len() as int,
            ),
        pos + 4 <= k ==> be_u32(data.subrange(0, k), pos) == be_u32(data, pos),
        pos + 8 <= k ==> be_u64(data.subrange(0, k), pos) == be_u64(data, pos),
{
    let cut = data.subrange(0, k);
    if pos + 4 <= k {
        assert(be_u32(cut, pos) == be_u32(data, pos));
    }
    if pos + 8 <= k {
        assert(be_u32(cut, pos + 4) == be_u32(data, pos + 4));
    }
}

/// What a read reports of the position it reached: the position on success,
/// the error otherwise.
pub open spec fn outcome<T>(r: Result<T, ParseError>, pos: int) -> Result<int, ParseError> {
    match r {
        Ok(_) => Ok(pos),
        Err(e) => Err(e),
    }
}

/// How deep a decode that starts at `depth` may still nest.
pub open spec fn fuel(depth: int) -> nat {
    if depth < MAX_PARSE_DEPTH {
        (MAX_PARSE_DEPTH - depth) as nat
    } else {
        0
    }
}

/// A cursor over borrowed bytes. What it returns borrows from those bytes.
pub struct Parser<'a> {
    data: &'a [u8],
    offset: usize,
    depth: usize,
}

/// How a cursor changes over one read whose end `scan` describes: same bytes,
/// same depth, and the position that `scan` gives, or its error.
pub open spec fn stepped<'a, T>(
    before: Parser<'a>,
    after: Parser<'a>,
    r: Result<T, ParseError>,
    scan: Result<int, ParseError>,
) -> bool {
    &&& after.wf()
    &&& after.bytes() == before.bytes()
    &&& after.level() == before.level()
    &&& outcome(r, after.pos()) == scan
}

/// Views `N` bytes as an array. `<&[u8; N]>::try_from` succeeds exactly on
/// slices of length `N` and keeps the bytes.
#[verifier::external_body]
fn slice_as_array<'a, const N: usize>(bytes: &'a [u8]) -> (r: &'a [u8; N])
    requires
        bytes@.len() == N,
    ensures
        r@ == bytes@,
{
    <&[u8; N]>::try_from(bytes).unwrap()
}

/// Copies `N` bytes into an array.
fn slice_to_array<const N: usize>(bytes: &[u8]) -> (r: [u8; N])
    requires
        bytes@.len() == N,
    ensures
        r@ == bytes@,
{
    let mut out: [u8; N] = [0u8; N];
    let mut i: usize = 0;
    while i < N
        invariant
            i <= N,
            bytes@.len() == N,
            forall|j: int| 0 <= j < i ==> out@[j] == bytes@[j],
        decreases N - i,
    {
        out[i] = bytes[i];
        i += 1;
    }
    proof {
        assert(out@ =~= bytes@);
    }
    out
}

/// Reads a 32-bit pattern as two's complement.
pub fn reinterpret_i32(u: u32) -> (i: i32)
    ensures
        i == signed32(u as int),
{
    if u >= 0x8000_0000 {
        let low: u32 = u - 0x8000_0000;
        let half: i32 = low as i32;
        half + i32::MIN
    } else {
        u as i32
    }
}

/// Reads a 64-bit pattern as two's complement.
pub fn reinterpret_i64(u: u64) -> (i: i64)
    ensures
        i == signed64(u as int),
{
    if u >= 0x8000_0000_0000_0000 {
        let low: u64 = u - 0x8000_0000_0000_0000;
        let half: i64 = low as i64;
        half + i64::MIN
    } else {
        u as i64
    }
}

fn be_u32_of(b: &[u8; 4]) -> (v: u32)
    ensures
        v == be_u32(b@, 0),
{
    (b[0] as u32) * 0x100_0000 + (b[1] as u32) * 0x1_0000 + (b[2] as u32) * 0x100 + (b[3] as u32)
}

fn be_u64_of(b: &[u8; 8]) -> (v: u64)
    ensures
        v == be_u64(b@, 0),
{
    let hi: u64 = (b[0] as u64) * 0x100_0000 + (b[1] as u64) * 0x1_0000 + (b[2] as u64) * 0x100 + (
    b[3] as u64);
    let lo: u64 = (b[4] as u64) * 0x100_0000 + (b[5] as u64) * 0x1_0000 + (b[6] as u64) * 0x100 + (
    b[7] as u64);
    hi * 0x1_0000_0000 + lo
}

impl<'a> Parser<'a> {
    /// The bytes under the cursor.
    pub closed spec fn bytes(&self) -> Seq<u8> {
        self.data@
    }

    /// How many bytes have been consumed.
    pub closed spec fn pos(&self) -> int {
        self.offset as int
    }

    /// How many recursion guards are entered.
    pub closed spec fn level(&self) -> int {
        self.depth as int
    }

    /// The cursor's invariant: the position lies within the bytes and the
    /// depth within the cap.
    pub open spec fn wf(&self) -> bool {
        &&& 0 <= self.pos() <= self.bytes().len()
        &&& 0 <= self.level() <= MAX_PARSE_DEPTH
    }

    /// A cursor at the start of the bytes.
    pub fn new(data: &'a [u8]) -> (p: Self)
        ensures
            p.wf(),
            p.bytes() == data@,
            p.pos() == 0,
            p.level() == 0,
    {
        Self { data, offset: 0, depth: 0 }
    }

    /// How many bytes have been read.
    pub fn offset(&self) -> (o: usize)
        ensures
            o == self.pos(),
    {
        self.offset
    }

    /// Enters a nested decode, or refuses at the depth cap.
    pub fn enter_recursion(&mut self) -> (r: Result<(), ParseError>)
        requires
            old(self).wf(),
        ensures
            final(self).wf(),
            final(self).bytes() == old(self).bytes(),
            final(self).pos() == old(self).pos(),
            match r {
                Ok(_) => {
                    &&& old(self).level() < MAX_PARSE_DEPTH
                    &&& final(self).level() == old(self).level() + 1
                },
                Err(e) => {
                    &&& old(self).level() >= MAX_PARSE_DEPTH
                    &&& final(self).level() == old(self).level()
                    &&& e == (ParseError::MaxDepthExceeded {
                        depth: (old(self).level() + 1) as usize,
                        max: MAX_PARSE_DEPTH,
                    })
                },
            },
    {
        if self.depth >= MAX_PARSE_DEPTH {
            return Err(
                ParseError::MaxDepthExceeded { depth: self.depth + 1, max: MAX_PARSE_DEPTH },
            );
        }
        self.depth += 1;
        Ok(())
    }

    /// Leaves a nested decode.
    pub fn exit_recursion(&mut self)
        requires
            old(self).wf(),
        ensures
            final(self).wf(),
            final(self).bytes() == old(self).bytes(),
            final(self).pos() == old(self).pos(),
            final(self).level() == if old(self).level() > 0 {
                old(self).level() - 1
            } else {
                0
            },
    {
        self.depth = self.depth.saturating_sub(1);
    }

    /// Whether `n` more bytes can be read.
    pub fn can_read(&self, n: usize) -> (b: bool)
        requires
            self.wf(),
        ensures
            b == (self.pos() + n <= self.bytes().len()),
            self.bytes().len() <= usize::MAX,
    {
        n <= self.data.len() - self.offset
    }

    /// Hands out the next `size` bytes without copying them.
    pub fn read_bytes(&mut self, size: usize) -> (r: Result<&'a [u8], ParseError>)
        requires
            old(self).wf(),
        ensures
            stepped(
                *old(self),
                *final(self),
                r,
                scan_fixed(old(self).bytes(), old(self).pos(), size as int),
            ),
            r matches Ok(b) ==> b@ == old(self).bytes().subrange(
                old(self).pos(),
                old(self).pos() + size,
            ),
            r is Err ==> final(self).pos() == old(self).pos(),
    {
        if !self.can_read(size) {
            return Err(ParseError::BufferOverflow);
        }
        let end = self.offset + size;
        let bytes = vstd::slice::slice_subrange(self.data, self.offset, end);
        self.offset = end;
        Ok(bytes)
    }

    /// Copies the next `N` bytes into an array.
    pub fn read_array<const N: usize>(&mut self) -> (r: Result<[u8; N], ParseError>)
        requires
            old(self).wf(),
        ensures
            stepped(
                *old(self),
                *final(self),
                r,
                scan_fixed(old(self).bytes(), old(self).pos(), N as int),
            ),
            r matches Ok(b) ==> b@ == old(self).bytes().subrange(
                old(self).pos(),
                old(self).pos() + N,
            ),
            r is Err ==> final(self).pos() == old(self).pos(),
    {
        let bytes = self.read_bytes(N)?;
        Ok(slice_to_array::<N>(bytes))
    }

    /// Hands out the next `N` bytes as an array, without copying them.
    pub fn read_array_ref<const N: usize>(&mut self) -> (r: Result<&'a [u8; N], ParseError>)
        requires
            old(self).wf(),
        ensures
            stepped(
                *old(self),
                *final(self),
                r,
                scan_fixed(old(self).bytes(), old(self).pos(), N as int),
            ),
            r matches Ok(b) ==> b@ == old(self).bytes().subrange(
                old(self).pos(),
                old(self).pos() + N,
            ),
            r is Err ==> final(self).pos() == old(self).pos(),
    {
        let bytes = self.read_bytes(N)?;
        Ok(slice_as_array::<N>(bytes))
    }

    /// Reads an unsigned integer of four bytes, the highest first.
    pub fn parse_uint32(&mut self) -> (r: Result<u32, ParseError>)
        requires
            old(self).wf(),
        ensures
            stepped(*old(self), *final(self), r, scan_fixed(old(self).bytes(), old(self).pos(), 4)),
            r matches Ok(v) ==> v == be_u32(old(self).bytes(), old(self).pos()),
            r is Err ==> final(self).pos() == old(self).pos(),
    {
        let b = self.read_array::<4>()?;
        Ok(be_u32_of(&b))
    }

    /// Reads a signed integer of four bytes, the highest first.
    pub fn parse_int32(&mut self) -> (r: Result<i32, ParseError>)
        requires
            old(self).wf(),
        ensures
            stepped(*old(self), *final(self), r, scan_fixed(old(self).bytes(), old(self).pos(), 4)),
            r matches Ok(v) ==> v == be_i32(old(self).bytes(), old(self).pos()),
            r is Err ==> final(self).pos() == old(self).pos(),
    {
        let b = self.read_array::<4>()?;
        Ok(reinterpret_i32(be_u32_of(&b)))
    }

    /// Reads an unsigned integer of eight bytes, the highest first.
    pub fn parse_uint64(&mut self) -> (r: Result<u64, ParseError>)
        requires
            old(self).wf(),
        ensures
            stepped(*old(self), *final(self), r, scan_fixed(old(self).bytes(), old(self).pos(), 8)),
            r matches Ok(v) ==> v == be_u64(old(self).bytes(), old(self).pos()),
            r is Err ==> final(self).pos() == old(self).pos(),
    {
        let b = self.read_array::<8>()?;
        Ok(be_u64_of(&b))
    }

    /// Reads a signed integer of eight bytes, the highest first.
    pub fn parse_int64(&mut self) -> (r: Result<i64, ParseError>)
        requires
            old(self).wf(),
        ensures
            stepped(*old(self), *final(self), r, scan_fixed(old(self).bytes(), old(self).pos(), 8)),
            r matches Ok(v) ==> v == be_i64(old(self).bytes(), old(self).pos()),
            r is Err ==> final(self).pos() == old(self).pos(),
    {
        let b = self.read_array::<8>()?;
        Ok(reinterpret_i64(be_u64_of(&b)))
    }

    /// Reads a boolean: a 32-bit integer that is 0 or 1.
    pub fn parse_bool(&mut self) -> (r: Result<bool, ParseError>)
        requires
            old(self).wf(),
        ensures
            stepped(*old(self), *final(self), r, scan_bool(old(self).bytes(), old(self).pos())),
            r matches Ok(v) ==> v == (be_u32(old(self).bytes(), old(self).pos()) == 1),
    {
        let val = self.parse_uint32()?;
        if val == 0 {
            Ok(false)
        } else if val == 1 {
            Ok(true)
        } else {
            Err(ParseError::InvalidType(reinterpret_i32(val)))
        }
    }

    /// Reads an optional unsigned 32-bit integer.
    pub fn parse_optional_u32(&mut self) -> (r: Result<Option<u32>, ParseError>)
        requires
            old(self).wf(),
        ensures
            stepped(
                *old(self),
                *final(self),
                r,
                scan_optional_fixed(old(self).bytes(), old(self).pos(), 4),
            ),
            r matches Ok(v) ==> v == optional_u32(old(self).bytes(), old(self).pos()),
    {
        if self.parse_bool()? {
            Ok(Some(self.parse_uint32()?))
        } else {
            Ok(None)
        }
    }

    /// Reads an optional signed 64-bit integer.
    pub fn parse_optional_i64(&mut self) -> (r: Result<Option<i64>, ParseError>)
        requires
            old(self).wf(),
        ensures
            stepped(
                *old(self),
                *final(self),
                r,
                scan_optional_fixed(old(self).bytes(), old(self).pos(), 8),
            ),
            r matches Ok(v) ==> v == optional_i64(old(self).bytes(), old(self).pos()),
    {
        if self.parse_bool()? {
            Ok(Some(self.parse_int64()?))
        } else {
            Ok(None)
        }
    }

    /// Rounds a length up to the next multiple of four.
    pub fn aligned_size(size: usize) -> (r: Result<usize, ParseError>)
        ensures
            match r {
                Ok(a) => a == padded_len(size as int),
                Err(e) => e == ParseError::BufferOverflow && padded_len(size as int) > usize::MAX,
            },
    {
        let remainder = size % 4;
        if remainder == 0 {
            Ok(size)
        } else {
            match size.checked_add(4 - remainder) {
                Some(a) => Ok(a),
                None => Err(ParseError::BufferOverflow),
            }
        }
    }

    /// Checks that the bytes from `valid_len` up to `total_len` are zero.
    pub fn check_padding(
        data: &[u8],
        valid_len: usize,
        total_len: usize,
    ) -> (r: Result<(), ParseError>)
        requires
            valid_len <= total_len <= data@.len(),
        ensures
            match r {
                Ok(_) => all_zero(data@, valid_len as int, total_len as int),
                Err(e) => e == ParseError::InvalidPadding && !all_zero(
                    data@,
                    valid_len as int,
                    total_len as int,
                ),
            },
    {
        let mut i = valid_len;
        while i < total_len
            invariant
                valid_len <= i <= total_len <= data@.len(),
                all_zero(data@, valid_len as int, i as int),
            decreases total_len - i,
        {
            if data[i] != 0 {
                return Err(ParseError::InvalidPadding);
            }
            i += 1;
        }
        Ok(())
    }

    /// Reads a variable-length field: a length, the bytes, and zero padding
    /// up to a multiple of four. Returns the bytes without the padding.
    pub fn parse_var_opaque(
        &mut self,
        max_length: Option<usize>,
    ) -> (r: Result<&'a [u8], ParseError>)
        requires
            old(self).wf(),
        ensures
            stepped(
                *old(self),
                *final(self),
                r,
                scan_opaque(old(self).bytes(), old(self).pos(), max_length),
            ),
            r matches Ok(b) ==> b@ == opaque_payload(old(self).bytes(), old(self).pos()),
    {
        let ghost data = self.bytes();
        let ghost pos = self.pos();
        let size = self.parse_uint32()? as usize;
        if let Some(max_len) = max_length {
            if size > max_len {
                return Err(ParseError::LengthExceedsMax { actual: size, max: max_len });
            }
        }
        let total = self.data.len();
        proof {
            assert(data.len() == total);
        }
        let aligned = Self::aligned_size(size)?;
        let padded = self.read_bytes(aligned)?;
        proof {
            assert(forall|i: int| 0 <= i < aligned ==> padded@[i] == data[pos + 4 + i]);
            assert(all_zero(padded@, size as int, aligned as int) ==> all_zero(
                data,
                pos + 4 + size,
                pos + 4 + aligned,
            )) by {
                if all_zero(padded@, size as int, aligned as int) {
                    assert forall|i: int| pos + 4 + size <= i < pos + 4 + aligned implies data[i]
                        == 0 by {
                        assert(padded@[i - pos - 4] == 0);
                    }
                }
            }
            assert(all_zero(data, pos + 4 + size, pos + 4 + aligned) ==> all_zero(
                padded@,
                size as int,
                aligned as int,
            )) by {
                if all_zero(data, pos + 4 + size, pos + 4 + aligned) {
                    assert forall|i: int| size <= i < aligned implies padded@[i] == 0 by {
                        assert(data[pos + 4 + i] == 0);
                    }
                }
            }
        }
        Self::check_padding(padded, size, aligned)?;
        let payload = vstd::slice::slice_subrange(padded, 0, size);
        proof {
            assert(payload@ =~= opaque_payload(data, pos));
        }
        Ok(payload)
    }
}

} // verus!

//! The derivation path of a key: always three segments.

use crate::parser::cursor::be_u32;
use crate::sw::AppSW;
use vstd::prelude::*;

verus! {

/// How many segments a path has.
pub const ALLOWED_PATH_LEN: usize = 3;

/// How many bytes a segment takes.
pub const BYTES_PER_SEGMENT: usize = 4;

/// How many bytes a path takes with the byte in front that gives its length.
pub const SERIALIZED_SIZE: usize = 13;

/// A derivation path of three segments.
#[derive(Debug, Clone, Copy, PartialEq, Eq)]
pub struct Bip32Path(pub [u32; 3]);

impl Bip32Path {
    /// The path of three zero segments.
    pub fn empty() -> (p: Self)
        ensures
            p.0@ == seq![0u32, 0u32, 0u32],
    {
        let segments: [u32; 3] = [0, 0, 0];
        proof {
            assert(segments@ =~= seq![0u32, 0u32, 0u32]);
        }
        Bip32Path(segments)
    }

    /// The segments that the first twelve bytes of `data` hold, each of
    /// four bytes with the first byte highest.
    pub open spec fn segments_of(data: Seq<u8>) -> Seq<u32> {
        seq![be_u32(data, 0) as u32, be_u32(data, 4) as u32, be_u32(data, 8) as u32]
    }

    /// Reads a path from its segments, without a length in front. Bytes
    /// after the twelfth are not looked at.
    pub fn parse(data: &[u8]) -> (r: Result<Self, AppSW>)
        ensures
            match r {
                Ok(p) => data@.len() >= 12 && p.0@ == Self::segments_of(data@),
                Err(e) => data@.len() < 12 && e == AppSW::DataParsingFail,
            },
    {
        if data.len() < ALLOWED_PATH_LEN * BYTES_PER_SEGMENT {
            return Err(AppSW::DataParsingFail);
        }
        let mut path: [u32; 3] = [0, 0, 0];
        let mut i: usize = 0;
        while i < 3
            invariant
                i <= 3,
                data@.len() >= 12,
                forall|j: int| 0 <= j < i ==> #[trigger] path@[j] == be_u32(data@, 4 * j),
            decreases 3 - i,
        {
            let start = i * BYTES_PER_SEGMENT;
            let segment: u32 = (data[start] as u32) * 0x100_0000 + (data[start + 1] as u32)
                * 0x1_0000 + (data[start + 2] as u32) * 0x100 + (data[start + 3] as u32);
            path[i] = segment;
            i += 1;
        }
        proof {
            assert(path@ =~= Self::segments_of(data@));
        }
        Ok(Bip32Path(path))
    }

    /// How many bytes the path takes with the byte in front that gives its
    /// length.
    pub fn serialized_size(&self) -> (n: usize)
        ensures
            n == SERIALIZED_SIZE,
    {
        SERIALIZED_SIZE
    }

    /// The segments.
    pub fn as_ref(&self) -> (s: &[u32])
        ensures
            s@ == self.0@,
    {
        self.0.as_slice()
    }

    /// Reads a path that has its length in front: one byte that must be
    /// three, then the segments.
    pub fn try_from(data: &[u8]) -> (r: Result<Self, AppSW>)
        ensures
            match r {
                Ok(p) => data@.len() >= 13 && data@[0] == 3 && p.0@ == Self::segments_of(
                    data@.subrange(1, data@.len() as int),
                ),
                Err(e) => (data@.len() < 13 || data@[0] != 3) && e == AppSW::WrongApduLength,
            },
    {
        if data.len() == 0 {
            return Err(AppSW::WrongApduLength);
        }
        if data[0] != 3 {
            return Err(AppSW::WrongApduLength);
        }
        if data.len() < SERIALIZED_SIZE {
            return Err(AppSW::WrongApduLength);
        }
        Self::parse(vstd::slice::slice_subrange(data, 1, data.len()))
    }
}

} // verus!

//! What the application keeps between the chunks of one request: the path,
//! the bytes received so far, and whether the review is over.

use crate::bip32::Bip32Path;
use crate::sw::AppSW;
use vstd::prelude::*;

verus! {

/// How many bytes of a request are kept.
pub const MAX_RAW_DATA_LEN: usize = 8192;

/// How many bytes of a request are kept in swap mode.
pub const SWAP_MAX_RAW_DATA_LEN: usize = 1024;

/// The bytes of a request received so far, at most `MAX` of them.
pub struct RawDataBuffer<const MAX: usize> {
    data: [u8; MAX],
    len: usize,
}

impl<const MAX: usize> View for RawDataBuffer<MAX> {
    type V = Seq<u8>;

    closed spec fn view(&self) -> Seq<u8> {
        self.data@.subrange(0, self.len as int)
    }
}

impl<const MAX: usize> RawDataBuffer<MAX> {
    /// The buffer's invariant: what is kept fits.
    pub closed spec fn wf(&self) -> bool {
        self.len <= MAX
    }

    /// An empty buffer.
    pub fn new() -> (b: Self)
        ensures
            b.wf(),
            b@ == Seq::<u8>::empty(),
    {
        Self { data: vstd::array::array_fill_for_copy_types::<u8, MAX>(0), len: 0 }
    }

    /// How many bytes are held.
    pub fn len(&self) -> (n: usize)
        requires
            self.wf(),
        ensures
            n == self@.len(),
            n <= MAX,
    {
        self.len
    }

    /// Adds bytes at the end, all of them or none.
    pub fn extend_from_slice(&mut self, slice: &[u8]) -> (r: Result<(), AppSW>)
        requires
            old(self).wf(),
        ensures
            final(self).wf(),
            match r {
                Ok(_) => final(self)@ == old(self)@ + slice@,
                Err(e) => e == AppSW::RequestDataTooLarge && old(self)@.len() + slice@.len() > MAX
                    && final(self)@ == old(self)@,
            },
    {
        let n = slice.len();
        if n == 0 {
            proof {
                assert(self@ =~= old(self)@ + slice@);
            }
            return Ok(());
        }
        if n > MAX - self.len {
            return Err(AppSW::RequestDataTooLarge);
        }
        let mut i: usize = 0;
        while i < n
            invariant
                i <= n,
                n == slice@.len(),
                self.len == old(self).len + i,
                self.len + (n - i) <= MAX,
                self@ == old(self)@ + slice@.subrange(0, i as int),
            decreases n - i,
        {
            let ghost before = self@;
            self.data[self.len] = slice[i];
            self.len += 1;
            proof {
                assert(self@ =~= before.push(slice@[i as int]));
                assert(slice@.subrange(0, i + 1) =~= slice@.subrange(0, i as int).push(
                    slice@[i as int],
                ));
            }
            i += 1;
        }
        proof {
            assert(slice@.subrange(0, n as int) =~= slice@);
        }
        Ok(())
    }

    /// Empties the buffer.
    pub fn clear(&mut self)
        ensures
            final(self).wf(),
            final(self)@ == Seq::<u8>::empty(),
    {
        self.len = 0;
    }

    /// The bytes that are held.
    pub fn as_slice(&self) -> (s: &[u8])
        requires
            self.wf(),
        ensures
            s@ == self@,
    {
        vstd::slice::slice_subrange(self.data.as_slice(), 0, self.len)
    }
}

/// The state of one request.
pub struct AppContext<const MAX: usize> {
    pub path: Bip32Path,
    pub raw_data: RawDataBuffer<MAX>,
    pub review_finished: bool,
}

impl<const MAX: usize> AppContext<MAX> {
    /// A context that has received nothing.
    pub fn new() -> (c: Self)
        ensures
            c.raw_data.wf(),
            c.raw_data@ == Seq::<u8>::empty(),
            !c.review_finished,
            c.path.0@ == seq![0u32, 0u32, 0u32],
    {
        Self { path: Bip32Path::empty(), raw_data: RawDataBuffer::new(), review_finished: false }
    }

    /// Whether the review of the request is over.
    pub fn finished(&self) -> (b: bool)
        ensures
            b == self.review_finished,
    {
        self.review_finished
    }

    /// Forgets the request.
    pub fn reset(&mut self)
        ensures
            final(self).raw_data.wf(),
            final(self).raw_data@ == Seq::<u8>::empty(),
            !final(self).review_finished,
            final(self).path.0@ == seq![0u32, 0u32, 0u32],
    {
        self.raw_data.clear();
        self.path = Bip32Path::empty();
        self.review_finished = false;
    }

    /// Takes one chunk of a request. The first chunk starts the request
    /// anew: it begins with the path, and what follows the path is kept. Any
    /// other chunk is added to what is kept.
    pub fn handle_chunk(&mut self, data: &[u8], first: bool) -> (r: Result<(), AppSW>)
        requires
            old(self).raw_data.wf(),
        ensures
            final(self).raw_data.wf(),
            first ==> match r {
                Ok(_) => {
                    &&& data@.len() >= 13
                    &&& data@[0] == 3
                    &&& final(self).path.0@ == Bip32Path::segments_of(
                        data@.subrange(1, data@.len() as int),
                    )
                    &&& final(self).raw_data@ == data@.subrange(13, data@.len() as int)
                    &&& !final(self).review_finished
                },
                Err(e) => if data@.len() < 13 || data@[0] != 3 {
                    e == AppSW::WrongApduLength
                } else {
                    e == AppSW::RequestDataTooLarge && data@.len() - 13 > MAX
                },
            },
            !first ==> {
                &&& final(self).path == old(self).path
                &&& final(self).review_finished == old(self).review_finished
                &&& match r {
                    Ok(_) => final(self).raw_data@ == old(self).raw_data@ + data@,
                    Err(e) => {
                        &&& e == AppSW::RequestDataTooLarge
                        &&& old(self).raw_data@.len() + data@.len() > MAX
                        &&& final(self).raw_data@ == old(self).raw_data@
                    },
                }
            },
    {
        if first {
            self.reset();
            self.path = Bip32Path::try_from(data)?;
            let size = self.path.serialized_size();
            let remaining = vstd::slice::slice_subrange(data, size, data.len());
            let r = self.raw_data.extend_from_slice(remaining);
            proof {
                assert(Seq::<u8>::empty() + remaining@ =~= remaining@);
            }
            r
        } else {
            self.raw_data.extend_from_slice(data)
        }
    }
}

} // verus!

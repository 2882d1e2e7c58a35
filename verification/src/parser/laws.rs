//! What holds of every decode: bytes cut short overflow, padding must be
//! zero, and nesting stops at the cap.

use super::codec::{scan_list, scan_nested, XdrParse};
use super::contract::{scval_optional_list_scan, scval_scan};
use super::cursor::{
    all_zero, be_i32, be_u32, padded_len, scan_opaque, ParseError, MAX_PARSE_DEPTH,
};
use super::operations::claim_predicate_scan;
use vstd::prelude::*;

verus! {

/// Bytes that are cut off inside the encoding of a value fail to decode
/// with a buffer overflow: where a value decodes from `pos` up to `end`, it
/// does not decode from the first `k` bytes for any `k` from `pos` up to
/// `end`, and the error is the overflow.
pub proof fn law_cut_off_overflows<'a, T: XdrParse<'a>>(data: Seq<u8>, pos: int, depth: int, k: int)
    requires
        0 <= pos <= k <= data.len(),
        T::scan(data, pos, depth) is Ok,
        k < T::scan(data, pos, depth)->Ok_0,
    ensures
        T::scan(data.subrange(0, k), pos, depth) == Err::<int, ParseError>(
            ParseError::BufferOverflow,
        ),
{
    T::lemma_prefix(data, pos, depth, k);
}

/// A value decodes the same from bytes that are cut off after it: what
/// follows a value has no part in its decoding.
pub proof fn law_what_follows_is_not_read<'a, T: XdrParse<'a>>(
    data: Seq<u8>,
    pos: int,
    depth: int,
    k: int,
)
    requires
        0 <= pos,
        0 <= k <= data.len(),
        T::scan(data, pos, depth) is Ok,
        T::scan(data, pos, depth)->Ok_0 <= k,
    ensures
        T::scan(data.subrange(0, k), pos, depth) == T::scan(data, pos, depth),
        pos <= T::scan(data, pos, depth)->Ok_0 <= data.len(),
{
    T::lemma_prefix(data, pos, depth, k);
}

/// A variable-length field whose length is allowed and whose bytes are all
/// there is refused for its padding where one of the padding bytes is not
/// zero.
pub proof fn law_padding_is_zero(data: Seq<u8>, pos: int, max: Option<usize>, at: int)
    requires
        0 <= pos,
        pos + 4 + padded_len(be_u32(data, pos)) <= data.len(),
        max matches Some(m) ==> be_u32(data, pos) <= m,
        pos + 4 + be_u32(data, pos) <= at < pos + 4 + padded_len(be_u32(data, pos)),
        data[at] != 0,
    ensures
        scan_opaque(data, pos, max) == Err::<int, ParseError>(ParseError::InvalidPadding),
{
    assert(!all_zero(
        data,
        pos + 4 + be_u32(data, pos),
        pos + 4 + padded_len(be_u32(data, pos)),
    ));
}

/// A list is refused at the cap: at depth 32 a list whose count is there
/// and allowed fails with the depth 33 that it would reach, whatever it
/// holds.
pub proof fn law_lists_stop_at_the_cap<'a, T: XdrParse<'a>>(data: Seq<u8>, pos: int, max: int)
    requires
        0 <= pos,
        pos + 4 <= data.len(),
        be_u32(data, pos) <= max,
    ensures
        scan_list::<T>(data, pos, MAX_PARSE_DEPTH as int, max) == Err::<int, ParseError>(
            ParseError::MaxDepthExceeded { depth: 33, max: 32 },
        ),
        scan_nested::<T>(data, pos, MAX_PARSE_DEPTH as int) == Err::<int, ParseError>(
            ParseError::MaxDepthExceeded { depth: 33, max: 32 },
        ),
{
}

/// A list is not refused for its depth below the cap: an empty list
/// decodes at every depth under 32.
pub proof fn law_lists_nest_below_the_cap<'a, T: XdrParse<'a>>(
    data: Seq<u8>,
    pos: int,
    depth: int,
    max: int,
)
    requires
        0 <= pos,
        pos + 4 <= data.len(),
        be_u32(data, pos) == 0,
        0 <= max,
        0 <= depth < MAX_PARSE_DEPTH,
    ensures
        scan_list::<T>(data, pos, depth, max) == Ok::<int, ParseError>(pos + 4),
{
    reveal_with_fuel(super::codec::scan_items, 1);
}

/// A contract value that is a list is refused at the cap, and a claim
/// predicate is refused at the cap whatever its kind.
pub proof fn law_recursive_values_stop_at_the_cap(data: Seq<u8>, pos: int)
    requires
        0 <= pos,
    ensures
        pos + 12 <= data.len() && be_i32(data, pos) == 16 && be_u32(data, pos + 4) == 1
            ==> scval_scan(data, pos, MAX_PARSE_DEPTH as int) == Err::<int, ParseError>(
            ParseError::MaxDepthExceeded { depth: 33, max: 32 },
        ),
        claim_predicate_scan(data, pos, MAX_PARSE_DEPTH as int) == Err::<int, ParseError>(
            ParseError::MaxDepthExceeded { depth: 33, max: 32 },
        ),
{
    if pos + 12 <= data.len() && be_i32(data, pos) == 16 && be_u32(data, pos + 4) == 1 {
        assert(scval_optional_list_scan(data, pos + 4, MAX_PARSE_DEPTH as int) == Err::<
            int,
            ParseError,
        >(ParseError::MaxDepthExceeded { depth: 33, max: 32 }));
    }
}

} // verus!

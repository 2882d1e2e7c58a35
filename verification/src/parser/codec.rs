//! The decode capability that every message type has, and the containers
//! built on it: bounded strings, bounded byte fields and bounded lists.

use super::cursor::{
    be_u32, cut_short, lemma_fixed_prefix, lemma_opaque_prefix, opaque_payload, scan_bool,
    scan_opaque, stepped, ParseError, Parser, MAX_PARSE_DEPTH,
};
use crate::text::utf8_text;
use vstd::prelude::*;
use vstd::string::StringSliceAdditionalSpecFns;
use vstd::utf8::valid_utf8;

verus! {

/// A type that decodes itself from a cursor.
///
/// `scan` says where the encoding that starts at `pos` ends, or with which
/// error its decoding stops. `decoded_from` says that a value is the one
/// those bytes encode. `parse` does both.
pub trait XdrParse<'a>: Sized {
    spec fn scan(data: Seq<u8>, pos: int, depth: int) -> Result<int, ParseError>;

    spec fn decoded_from(&self, data: Seq<u8>, pos: int, depth: int) -> bool;

    fn parse(parser: &mut Parser<'a>) -> (r: Result<Self, ParseError>)
        requires
            old(parser).wf(),
        ensures
            stepped(
                *old(parser),
                *final(parser),
                r,
                Self::scan(old(parser).bytes(), old(parser).pos(), old(parser).level()),
            ),
            r matches Ok(v) ==> v.decoded_from(
                old(parser).bytes(),
                old(parser).pos(),
                old(parser).level(),
            ),
    ;

    /// A value that decodes from the whole bytes decodes from the bytes
    /// cut off after it, and fails with a buffer overflow on the bytes cut
    /// off inside it.
    proof fn lemma_prefix(data: Seq<u8>, pos: int, depth: int, k: int)
        requires
            0 <= pos,
            0 <= k <= data.len(),
        ensures
            cut_short(
                Self::scan(data, pos, depth),
                Self::scan(data.subrange(0, k), pos, depth),
                pos,
                k,
                data.len() as int,
            ),
    ;
}

/// An optional value that is cut off fails with a buffer overflow.
pub proof fn lemma_optional_prefix<'a, T: XdrParse<'a>>(data: Seq<u8>, pos: int, depth: int, k: int)
    requires
        0 <= pos,
        0 <= k <= data.len(),
    ensures
        cut_short(
            scan_optional::<T>(data, pos, depth),
            scan_optional::<T>(data.subrange(0, k), pos, depth),
            pos,
            k,
            data.len() as int,
        ),
{
    lemma_fixed_prefix(data, pos, k);
    if scan_bool(data, pos) is Ok {
        T::lemma_prefix(data, pos + 4, depth, k);
    }
}

/// Where an optional value at `pos` ends: a boolean, then the value if the
/// boolean is set.
pub open spec fn scan_optional<'a, T: XdrParse<'a>>(
    data: Seq<u8>,
    pos: int,
    depth: int,
) -> Result<int, ParseError> {
    match scan_bool(data, pos) {
        Err(e) => Err(e),
        Ok(p) => if be_u32(data, pos) == 1 {
            T::scan(data, p, depth)
        } else {
            Ok(p)
        },
    }
}

/// Whether `v` is the optional value that the bytes at `pos` encode.
pub open spec fn optional_decoded_from<'a, T: XdrParse<'a>>(
    v: Option<T>,
    data: Seq<u8>,
    pos: int,
    depth: int,
) -> bool {
    match v {
        Some(x) => be_u32(data, pos) == 1 && x.decoded_from(data, pos + 4, depth),
        None => be_u32(data, pos) == 0,
    }
}

/// Where a value ends that is decoded one level deeper.
pub open spec fn scan_nested<'a, T: XdrParse<'a>>(
    data: Seq<u8>,
    pos: int,
    depth: int,
) -> Result<int, ParseError> {
    if depth >= MAX_PARSE_DEPTH {
        Err(ParseError::MaxDepthExceeded { depth: (depth + 1) as usize, max: MAX_PARSE_DEPTH })
    } else {
        T::scan(data, pos, depth + 1)
    }
}

impl<'a> Parser<'a> {
    /// Decodes one value of `T`.
    pub fn parse<T: XdrParse<'a>>(&mut self) -> (r: Result<T, ParseError>)
        requires
            old(self).wf(),
        ensures
            stepped(
                *old(self),
                *final(self),
                r,
                T::scan(old(self).bytes(), old(self).pos(), old(self).level()),
            ),
            r matches Ok(v) ==> v.decoded_from(
                old(self).bytes(),
                old(self).pos(),
                old(self).level(),
            ),
    {
        T::parse(self)
    }

    /// Decodes one value of `T` inside a recursion guard. At the depth cap
    /// nothing is read: the position stays where it was.
    pub fn parse_with_depth<T: XdrParse<'a>>(&mut self) -> (r: Result<T, ParseError>)
        requires
            old(self).wf(),
        ensures
            stepped(
                *old(self),
                *final(self),
                r,
                scan_nested::<T>(old(self).bytes(), old(self).pos(), old(self).level()),
            ),
            r matches Ok(v) ==> v.decoded_from(
                old(self).bytes(),
                old(self).pos(),
                old(self).level() + 1,
            ),
            old(self).level() >= MAX_PARSE_DEPTH ==> final(self).pos() == old(self).pos(),
    {
        self.enter_recursion()?;
        let result = T::parse(self);
        self.exit_recursion();
        result
    }

    /// Decodes an optional value: a boolean, then the value if it is set.
    pub fn parse_optional<T: XdrParse<'a>>(&mut self) -> (r: Result<Option<T>, ParseError>)
        requires
            old(self).wf(),
        ensures
            stepped(
                *old(self),
                *final(self),
                r,
                scan_optional::<T>(old(self).bytes(), old(self).pos(), old(self).level()),
            ),
            r matches Ok(v) ==> optional_decoded_from::<T>(
                v,
                old(self).bytes(),
                old(self).pos(),
                old(self).level(),
            ),
    {
        if self.parse_bool()? {
            Ok(Some(T::parse(self)?))
        } else {
            Ok(None)
        }
    }
}

/// A string of at most `MAX` bytes, borrowed from the input.
#[derive(Debug, Clone, PartialEq, Eq)]
pub struct StringM<'a, const MAX: usize> {
    data: &'a [u8],
}

impl<'a, const MAX: usize> View for StringM<'a, MAX> {
    type V = Seq<u8>;

    closed spec fn view(&self) -> Seq<u8> {
        self.data@
    }
}

impl<'a, const MAX: usize> StringM<'a, MAX> {
    /// A string over its bytes.
    pub fn new(data: &'a [u8]) -> (s: Self)
        ensures
            s@ == data@,
    {
        Self { data }
    }

    /// The bytes of the string.
    pub fn as_bytes(&self) -> (b: &'a [u8])
        ensures
            b@ == self@,
    {
        self.data
    }

    /// The string as text, where it is UTF-8.
    pub fn as_str(&self) -> (r: Option<&'a str>)
        ensures
            match r {
                Some(s) => valid_utf8(self@) && s.spec_bytes() == self@,
                None => !valid_utf8(self@),
            },
    {
        utf8_text(self.data)
    }

    /// How many bytes the string has.
    pub fn len(&self) -> (n: usize)
        ensures
            n == self@.len(),
    {
        self.data.len()
    }

    /// Whether the string has no bytes.
    pub fn is_empty(&self) -> (b: bool)
        ensures
            b == (self@.len() == 0),
    {
        self.data.len() == 0
    }
}

impl<'a, const MAX: usize> XdrParse<'a> for StringM<'a, MAX> {
    open spec fn scan(data: Seq<u8>, pos: int, depth: int) -> Result<int, ParseError> {
        scan_opaque(data, pos, Some(MAX))
    }

    open spec fn decoded_from(&self, data: Seq<u8>, pos: int, depth: int) -> bool {
        self@ == opaque_payload(data, pos)
    }

    fn parse(parser: &mut Parser<'a>) -> (r: Result<Self, ParseError>) {
        let data = parser.parse_var_opaque(Some(MAX))?;
        Ok(StringM { data })
    }

    proof fn lemma_prefix(data: Seq<u8>, pos: int, depth: int, k: int) {
        lemma_opaque_prefix(data, pos, Some(MAX), k);
    }
}

/// A byte field of at most `MAX` bytes, borrowed from the input.
#[derive(Debug, Clone, PartialEq, Eq)]
pub struct BytesM<'a, const MAX: usize> {
    data: &'a [u8],
}

impl<'a, const MAX: usize> View for BytesM<'a, MAX> {
    type V = Seq<u8>;

    closed spec fn view(&self) -> Seq<u8> {
        self.data@
    }
}

impl<'a, const MAX: usize> BytesM<'a, MAX> {
    /// A byte string over its bytes.
    pub fn new(data: &'a [u8]) -> (s: Self)
        ensures
            s@ == data@,
    {
        Self { data }
    }

    /// The bytes.
    pub fn as_bytes(&self) -> (b: &'a [u8])
        ensures
            b@ == self@,
    {
        self.data
    }

    /// How many bytes there are.
    pub fn len(&self) -> (n: usize)
        ensures
            n == self@.len(),
    {
        self.data.len()
    }

    /// Whether there are no bytes.
    pub fn is_empty(&self) -> (b: bool)
        ensures
            b == (self@.len() == 0),
    {
        self.data.len() == 0
    }
}

impl<'a, const MAX: usize> XdrParse<'a> for BytesM<'a, MAX> {
    open spec fn scan(data: Seq<u8>, pos: int, depth: int) -> Result<int, ParseError> {
        scan_opaque(data, pos, Some(MAX))
    }

    open spec fn decoded_from(&self, data: Seq<u8>, pos: int, depth: int) -> bool {
        self@ == opaque_payload(data, pos)
    }

    fn parse(parser: &mut Parser<'a>) -> (r: Result<Self, ParseError>) {
        let data = parser.parse_var_opaque(Some(MAX))?;
        Ok(BytesM { data })
    }

    proof fn lemma_prefix(data: Seq<u8>, pos: int, depth: int, k: int) {
        lemma_opaque_prefix(data, pos, Some(MAX), k);
    }
}

/// A list of at most `MAX` items.
#[derive(Debug, Clone, PartialEq, Eq)]
pub struct VecM<T, const MAX: u32>(Vec<T>);

impl<T, const MAX: u32> View for VecM<T, MAX> {
    type V = Seq<T>;

    closed spec fn view(&self) -> Seq<T> {
        self.0@
    }
}

impl<T, const MAX: u32> VecM<T, MAX> {
    /// A list of the given items.
    pub fn new(data: Vec<T>) -> (v: Self)
        ensures
            v@ == data@,
    {
        Self(data)
    }

    /// The items of the list.
    pub fn as_slice(&self) -> (s: &[T])
        ensures
            s@ == self@,
    {
        self.0.as_slice()
    }

    /// How many items the list has.
    pub fn len(&self) -> (n: usize)
        ensures
            n == self@.len(),
    {
        self.0.len()
    }

    /// Whether the list has no items.
    pub fn is_empty(&self) -> (b: bool)
        ensures
            b == (self@.len() == 0),
    {
        self.0.len() == 0
    }

    /// An iterator over the items.
    pub fn iter(&self) -> (items: core::slice::Iter<'_, T>)
        ensures
            vstd::std_specs::slice::into_iter_elts(items) == self@,
    {
        broadcast use vstd::std_specs::slice::axiom_spec_slice_iter;

        let items = self.0.as_slice().iter();
        proof {
            assert(vstd::std_specs::slice::into_iter_elts(items) =~= self@);
        }
        items
    }

    /// The item at `i`.
    pub fn get(&self, i: usize) -> (item: &T)
        requires
            i < self@.len(),
        ensures
            *item == self@[i as int],
    {
        &self.0[i]
    }
}

/// The items of a list are smaller than the list: recursion over them ends.
pub proof fn lemma_items_smaller<T, const MAX: u32>(v: VecM<T, MAX>)
    ensures
        decreases_to!(v => v@),
{
    broadcast use vstd::std_specs::vec::axiom_vec_decreases_to_view;

    assert(decreases_to!(v => v.0));
    assert(decreases_to!(v.0 => v.0@));
}

/// An item of a list is smaller than the list: recursion over a list's items
/// ends.
pub proof fn lemma_item_smaller<T, const MAX: u32>(v: VecM<T, MAX>, i: int)
    requires
        0 <= i < v@.len(),
    ensures
        decreases_to!(v => v@[i]),
{
    assert(decreases_to!(v => v.0));
    assert(decreases_to!(v.0 => v.0@[i]));
}

/// Where the first `n` items end that are encoded back to back from `start`.
pub open spec fn scan_items<'a, T: XdrParse<'a>>(
    data: Seq<u8>,
    start: int,
    depth: int,
    n: nat,
) -> Result<int, ParseError>
    decreases n,
{
    if n == 0 {
        Ok(start)
    } else {
        match scan_items::<T>(data, start, depth, (n - 1) as nat) {
            Ok(p) => T::scan(data, p, depth),
            Err(e) => Err(e),
        }
    }
}

/// An item that fails to decode fails the whole run of items, with its error.
pub proof fn lemma_scan_items_err<'a, T: XdrParse<'a>>(
    data: Seq<u8>,
    start: int,
    depth: int,
    i: nat,
    n: nat,
)
    requires
        i <= n,
        scan_items::<T>(data, start, depth, i) is Err,
    ensures
        scan_items::<T>(data, start, depth, n) == scan_items::<T>(data, start, depth, i),
    decreases n,
{
    if i < n {
        lemma_scan_items_err::<T>(data, start, depth, i, (n - 1) as nat);
    }
}

/// A run of items that is cut off fails with a buffer overflow.
pub proof fn lemma_scan_items_prefix<'a, T: XdrParse<'a>>(
    data: Seq<u8>,
    start: int,
    depth: int,
    n: nat,
    k: int,
)
    requires
        0 <= start <= data.len(),
        0 <= k <= data.len(),
    ensures
        cut_short(
            scan_items::<T>(data, start, depth, n),
            scan_items::<T>(data.subrange(0, k), start, depth, n),
            start,
            k,
            data.len() as int,
        ),
    decreases n,
{
    if n > 0 {
        lemma_scan_items_prefix::<T>(data, start, depth, (n - 1) as nat, k);
        let before = scan_items::<T>(data, start, depth, (n - 1) as nat);
        if before is Ok {
            T::lemma_prefix(data, before->Ok_0, depth, k);
        }
    }
}

/// Where a list at `pos` ends: a count, not above `max`, then one level
/// deeper that many items.
pub open spec fn scan_list<'a, T: XdrParse<'a>>(
    data: Seq<u8>,
    pos: int,
    depth: int,
    max: int,
) -> Result<int, ParseError> {
    if pos + 4 > data.len() {
        Err(ParseError::BufferOverflow)
    } else if be_u32(data, pos) > max {
        Err(ParseError::LengthExceedsMax { actual: be_u32(data, pos) as usize, max: max as usize })
    } else if depth >= MAX_PARSE_DEPTH {
        Err(ParseError::MaxDepthExceeded { depth: (depth + 1) as usize, max: MAX_PARSE_DEPTH })
    } else {
        scan_items::<T>(data, pos + 4, depth + 1, be_u32(data, pos) as nat)
    }
}

/// Whether `items` are the items of the list at `pos`, each taken from the
/// place where the one before it ends.
pub open spec fn items_decoded_from<'a, T: XdrParse<'a>>(
    items: Seq<T>,
    data: Seq<u8>,
    pos: int,
    depth: int,
) -> bool {
    &&& items.len() == be_u32(data, pos)
    &&& forall|i: int|
        0 <= i < items.len() ==> (#[trigger] items[i]).decoded_from(
            data,
            scan_items::<T>(data, pos + 4, depth + 1, i as nat).unwrap(),
            depth + 1,
        )
}

impl<'a, T: XdrParse<'a>, const MAX: u32> XdrParse<'a> for VecM<T, MAX> {
    open spec fn scan(data: Seq<u8>, pos: int, depth: int) -> Result<int, ParseError> {
        scan_list::<T>(data, pos, depth, MAX as int)
    }

    open spec fn decoded_from(&self, data: Seq<u8>, pos: int, depth: int) -> bool {
        items_decoded_from::<T>(self@, data, pos, depth)
    }

    #[verifier::loop_isolation(false)]
    fn parse(parser: &mut Parser<'a>) -> (r: Result<Self, ParseError>) {
        let ghost data = parser.bytes();
        let ghost pos = parser.pos();
        let ghost depth = parser.level();
        let len = parser.parse_uint32()?;
        if len > MAX {
            return Err(ParseError::LengthExceedsMax { actual: len as usize, max: MAX as usize });
        }
        parser.enter_recursion()?;
        let mut items: Vec<T> = Vec::with_capacity(len as usize);
        let mut i: u32 = 0;
        while i < len
            invariant
                parser.wf(),
                parser.bytes() == data,
                parser.level() == depth + 1,
                0 <= i <= len,
                items@.len() == i,
                scan_items::<T>(data, pos + 4, depth + 1, i as nat) == Ok::<int, ParseError>(
                    parser.pos(),
                ),
                forall|j: int|
                    0 <= j < i ==> (#[trigger] items@[j]).decoded_from(
                        data,
                        scan_items::<T>(data, pos + 4, depth + 1, j as nat).unwrap(),
                        depth + 1,
                    ),
            decreases len - i,
        {
            match T::parse(parser) {
                Ok(item) => {
                    items.push(item);
                },
                Err(e) => {
                    proof {
                        assert(scan_items::<T>(data, pos + 4, depth + 1, (i + 1) as nat) == Err::<
                            int,
                            ParseError,
                        >(e));
                        lemma_scan_items_err::<T>(
                            data,
                            pos + 4,
                            depth + 1,
                            (i + 1) as nat,
                            len as nat,
                        );
                    }
                    parser.exit_recursion();
                    return Err(e);
                },
            }
            i += 1;
        }
        parser.exit_recursion();
        Ok(VecM(items))
    }

    proof fn lemma_prefix(data: Seq<u8>, pos: int, depth: int, k: int) {
        lemma_fixed_prefix(data, pos, k);
        if pos + 4 <= data.len() {
            lemma_scan_items_prefix::<T>(data, pos + 4, depth + 1, be_u32(data, pos) as nat, k);
        }
    }
}

} // verus!

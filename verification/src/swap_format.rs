//! Addresses and amounts written into caller-provided buffers, without
//! allocation.

use crate::display::trimmed;
use crate::parser::cursor::be_u64;
use crate::text::{decimal, digit_char, digits, utf8_text};
use vstd::prelude::*;
use vstd::string::StringSliceAdditionalSpecFns;
use vstd::utf8::{decode_utf8, encode_utf8, is_ascii_chars, valid_utf8};

verus! {

/// A text as bytes, one for each character.
pub open spec fn ascii(text: Seq<char>) -> Seq<u8> {
    Seq::new(text.len(), |i: int| text[i] as u8)
}

/// Why a text could not be written.
#[derive(Debug, Clone, Copy, PartialEq, Eq)]
pub enum FormatError {
    /// The buffer is too small for the text.
    BufferTooSmall,
    /// The input cannot be written.
    InvalidInput,
}

/// Writes bytes one after another into a borrowed buffer.
pub struct BufferWriter<'a> {
    pub buffer: &'a mut [u8],
    pub pos: usize,
}

impl<'a> BufferWriter<'a> {
    /// The bytes written so far.
    pub open spec fn written(&self) -> Seq<u8> {
        self.buffer@.subrange(0, self.pos as int)
    }

    /// How many bytes the buffer takes.
    pub open spec fn capacity(&self) -> int {
        self.buffer@.len() as int
    }

    /// The position lies within the buffer.
    pub open spec fn wf(&self) -> bool {
        self.pos <= self.buffer@.len()
    }

    /// A writer at the start of a buffer.
    pub fn new(buffer: &'a mut [u8]) -> (w: Self)
        ensures
            w.wf(),
            w.written() == Seq::<u8>::empty(),
            w.capacity() == old(buffer)@.len(),
            final(buffer)@ == final(w.buffer)@,
    {
        Self { buffer, pos: 0 }
    }

    /// Writes one byte, if there is room.
    pub fn write_byte(&mut self, byte: u8) -> (r: Result<(), FormatError>)
        requires
            old(self).wf(),
        ensures
            final(self).wf(),
            final(self).capacity() == old(self).capacity(),
            final(final(self).buffer)@ == final(old(self).buffer)@,
            match r {
                Ok(_) => final(self).written() == old(self).written().push(byte),
                Err(e) => {
                    &&& e == FormatError::BufferTooSmall
                    &&& old(self).written().len() == old(self).capacity()
                    &&& final(self).written() == old(self).written()
                },
            },
    {
        if self.pos == self.buffer.len() {
            return Err(FormatError::BufferTooSmall);
        }
        self.buffer[self.pos] = byte;
        self.pos += 1;
        proof {
            assert(self.written() =~= old(self).written().push(byte));
        }
        Ok(())
    }

    /// Writes bytes, all of them or none.
    pub fn write_bytes(&mut self, bytes: &[u8]) -> (r: Result<(), FormatError>)
        requires
            old(self).wf(),
        ensures
            final(self).wf(),
            final(self).capacity() == old(self).capacity(),
            final(final(self).buffer)@ == final(old(self).buffer)@,
            match r {
                Ok(_) => final(self).written() == old(self).written() + bytes@,
                Err(e) => {
                    &&& e == FormatError::BufferTooSmall
                    &&& old(self).written().len() + bytes@.len() > old(self).capacity()
                    &&& final(self).written() == old(self).written()
                    &&& final(self).pos == old(self).pos
                },
            },
    {
        let n = bytes.len();
        if n > self.buffer.len() - self.pos {
            return Err(FormatError::BufferTooSmall);
        }
        let mut i: usize = 0;
        while i < n
            invariant
                i <= n,
                n == bytes@.len(),
                self.wf(),
                self.capacity() == old(self).capacity(),
                final(self.buffer)@ == final(old(self).buffer)@,
                self.pos == old(self).pos + i,
                self.pos + (n - i) <= self.buffer@.len(),
                self.written() == old(self).written() + bytes@.subrange(0, i as int),
            decreases n - i,
        {
            let ghost before = self.written();
            self.buffer[self.pos] = bytes[i];
            self.pos += 1;
            proof {
                assert(self.written() =~= before.push(bytes@[i as int]));
                assert(bytes@.subrange(0, i + 1) =~= bytes@.subrange(0, i as int).push(
                    bytes@[i as int],
                ));
            }
            i += 1;
        }
        proof {
            assert(bytes@.subrange(0, n as int) =~= bytes@);
        }
        Ok(())
    }

    /// Writes the bytes of a text, all of them or none.
    pub fn push_str(&mut self, s: &str) -> (r: Result<(), FormatError>)
        requires
            old(self).wf(),
        ensures
            final(self).wf(),
            final(self).capacity() == old(self).capacity(),
            final(final(self).buffer)@ == final(old(self).buffer)@,
            match r {
                Ok(_) => final(self).written() == old(self).written() + s.spec_bytes(),
                Err(e) => {
                    &&& e == FormatError::BufferTooSmall
                    &&& old(self).written().len() + s.spec_bytes().len() > old(self).capacity()
                    &&& final(self).written() == old(self).written()
                    &&& final(self).pos == old(self).pos
                },
            },
    {
        self.write_bytes(s.as_bytes())
    }
}

/// Writes a number in decimal.
pub fn write_integer_u64(value: u64, writer: &mut BufferWriter) -> (r: Result<(), FormatError>)
    requires
        old(writer).wf(),
    ensures
        final(writer).wf(),
        final(writer).capacity() == old(writer).capacity(),
        final(final(writer).buffer)@ == final(old(writer).buffer)@,
        match r {
            Ok(_) => final(writer).written() == old(writer).written() + ascii(
                decimal(value as int),
            ),
            Err(e) => e == FormatError::BufferTooSmall && old(writer).written().len() + decimal(
                value as int,
            ).len() > old(writer).capacity(),
        },
    decreases value,
{
    if value >= 10 {
        write_integer_u64(value / 10, writer)?;
    }
    let digit = (value % 10) as u8;
    let ghost before = writer.written();
    writer.write_byte(48u8 + digit)?;
    proof {
        let d = digit_char(digit as int);
        assert(d as u8 == 48 + digit);
        if value >= 10 {
            assert(ascii(digits(value as nat)) =~= ascii(digits((value / 10) as nat)).push(
                d as u8,
            ));
        } else {
            assert(ascii(digits(value as nat)) =~= seq![d as u8]);
        }
        assert(writer.written() =~= old(writer).written() + ascii(decimal(value as int)));
    }
    Ok(())
}

/// The last `places` decimal digits of a number, with zeros in front where
/// it has fewer.
pub open spec fn low_digits(value: nat, places: nat) -> Seq<char>
    decreases places,
{
    if places == 0 {
        Seq::empty()
    } else {
        low_digits(value / 10, (places - 1) as nat).push(digit_char((value % 10) as int))
    }
}

/// Writes the last `places` decimal digits of a number, without the zeros
/// at their end. There are at most seven places.
pub fn write_decimal_digits_u64(
    value: u64,
    places: usize,
    writer: &mut BufferWriter,
) -> (r: Result<(), FormatError>)
    requires
        old(writer).wf(),
    ensures
        final(writer).wf(),
        final(writer).capacity() == old(writer).capacity(),
        final(final(writer).buffer)@ == final(old(writer).buffer)@,
        match r {
            Ok(_) => places <= 7 && final(writer).written() == old(writer).written() + ascii(
                trimmed(low_digits(value as nat, places as nat)),
            ),
            Err(e) => if places > 7 {
                e == FormatError::InvalidInput
            } else {
                e == FormatError::BufferTooSmall && old(writer).written().len() + trimmed(
                    low_digits(value as nat, places as nat),
                ).len() > old(writer).capacity()
            },
        },
{
    if places > 7 {
        return Err(FormatError::InvalidInput);
    }
    let mut decimal_digits: [u8; 7] = [0u8; 7];
    let mut rest = value;
    let mut slot = places;
    let ghost all = low_digits(value as nat, places as nat);
    proof {
        assert(all =~= low_digits(rest as nat, slot as nat) + Seq::<char>::empty());
    }
    while slot > 0
        invariant
            slot <= places <= 7,
            all == low_digits(value as nat, places as nat),
            all == low_digits(rest as nat, slot as nat) + Seq::new(
                (places - slot) as nat,
                |i: int| decimal_digits@[slot + i] as char,
            ),
            forall|i: int| slot <= i < places ==> 48 <= #[trigger] decimal_digits@[i] <= 57,
        decreases slot,
    {
        let ghost tail = Seq::new(
            (places - slot) as nat,
            |i: int| decimal_digits@[slot + i] as char,
        );
        slot -= 1;
        let digit = (rest % 10) as u8;
        decimal_digits[slot] = 48u8 + digit;
        proof {
            let d = digit_char(digit as int);
            assert(d as u8 == 48 + digit);
            assert((48u8 + digit) as char == d);
            assert(Seq::new((places - slot) as nat, |i: int| decimal_digits@[slot + i] as char)
                =~= seq![d] + tail);
            assert(low_digits(rest as nat, (slot + 1) as nat) == low_digits(
                (rest / 10) as nat,
                slot as nat,
            ).push(d));
            assert(all =~= low_digits((rest / 10) as nat, slot as nat) + (seq![d] + tail));
        }
        rest = rest / 10;
    }
    let ghost shown = Seq::new(places as nat, |i: int| decimal_digits@[i] as char);
    proof {
        assert(all =~= shown);
        assert(shown.subrange(0, places as int) =~= shown);
    }
    let mut last_nonzero = places;
    while last_nonzero > 0 && decimal_digits[last_nonzero - 1] == 48u8
        invariant
            last_nonzero <= places <= 7,
            shown == Seq::new(places as nat, |i: int| decimal_digits@[i] as char),
            forall|i: int| 0 <= i < places ==> 48 <= #[trigger] decimal_digits@[i] <= 57,
            trimmed(shown) == trimmed(shown.subrange(0, last_nonzero as int)),
        decreases last_nonzero,
    {
        proof {
            assert(shown.subrange(0, last_nonzero as int).last() == '0');
            assert(shown.subrange(0, last_nonzero as int).drop_last() =~= shown.subrange(
                0,
                last_nonzero - 1,
            ));
        }
        last_nonzero -= 1;
    }
    proof {
        let kept = shown.subrange(0, last_nonzero as int);
        if last_nonzero > 0 {
            assert(kept.last() == decimal_digits@[last_nonzero - 1] as char);
            assert(kept.last() != '0');
        }
        assert(trimmed(kept) == kept);
        assert(ascii(kept) =~= decimal_digits@.subrange(0, last_nonzero as int));
    }
    if last_nonzero > 0 {
        writer.write_bytes(
            vstd::slice::slice_subrange(decimal_digits.as_slice(), 0, last_nonzero),
        )?;
    } else {
        proof {
            assert(writer.written() =~= old(writer).written() + Seq::<u8>::empty());
        }
    }
    Ok(())
}

/// An amount in stroops in whole units of the native asset, without
/// commas: the units, and after a point the seven decimal places without
/// the zeros at their end, where they are not all zero.
pub open spec fn xlm_amount_text(num: nat) -> Seq<char> {
    if num == 0 {
        seq!['0']
    } else if num % 10_000_000 > 0 {
        decimal((num / 10_000_000) as int).push('.') + trimmed(
            low_digits(num % 10_000_000, 7),
        )
    } else {
        decimal((num / 10_000_000) as int)
    }
}

/// Writes an amount in stroops in whole units of the native asset.
pub fn format_xlm_amount(num: u64, writer: &mut BufferWriter) -> (r: Result<(), FormatError>)
    requires
        old(writer).wf(),
    ensures
        final(writer).wf(),
        final(writer).capacity() == old(writer).capacity(),
        final(final(writer).buffer)@ == final(old(writer).buffer)@,
        match r {
            Ok(_) => final(writer).written() == old(writer).written() + ascii(
                xlm_amount_text(num as nat),
            ),
            Err(e) => e == FormatError::BufferTooSmall && old(writer).written().len()
                + xlm_amount_text(num as nat).len() > old(writer).capacity(),
        },
{
    let integer_part = num / 10_000_000;
    let decimal_part = num % 10_000_000;
    if num == 0 {
        writer.write_byte(48u8)?;
        proof {
            assert(writer.written() =~= old(writer).written() + ascii(xlm_amount_text(0)));
        }
        return Ok(());
    }
    write_integer_u64(integer_part, writer)?;
    if decimal_part > 0 {
        writer.write_byte(46u8)?;
        write_decimal_digits_u64(decimal_part, 7, writer)?;
    }
    proof {
        assert(writer.written() =~= old(writer).written() + ascii(xlm_amount_text(num as nat)));
    }
    Ok(())
}

/// One step of the checksum: a shift to the left, and the polynomial
/// where a bit falls out.
pub open spec fn crc_step(crc: u16) -> u16 {
    if crc & 0x8000 != 0 {
        (crc << 1) ^ 0x1021
    } else {
        crc << 1
    }
}

/// Four steps of the checksum.
pub open spec fn crc_steps4(crc: u16) -> u16 {
    crc_step(crc_step(crc_step(crc_step(crc))))
}

/// The checksum after one more byte: the byte is added to the high half,
/// and eight steps follow.
pub open spec fn crc_byte(crc: u16, byte: u8) -> u16 {
    crc_steps4(crc_steps4(crc ^ ((byte as u16) << 8)))
}

/// The CRC16-XModem checksum of some bytes.
pub open spec fn crc16(data: Seq<u8>) -> u16
    decreases data.len(),
{
    if data.len() == 0 {
        0
    } else {
        crc_byte(crc16(data.drop_last()), data.last())
    }
}

fn step(crc: u16) -> (r: u16)
    ensures
        r == crc_step(crc),
{
    if crc & 0x8000 != 0 {
        (crc << 1) ^ 0x1021
    } else {
        crc << 1
    }
}

fn steps4(crc: u16) -> (r: u16)
    ensures
        r == crc_steps4(crc),
{
    step(step(step(step(crc))))
}

/// Computes the CRC16-XModem checksum of some bytes.
pub fn checksum(data: &[u8]) -> (crc: u16)
    ensures
        crc == crc16(data@),
{
    let mut crc: u16 = 0;
    let mut i: usize = 0;
    proof {
        assert(data@.subrange(0, 0) =~= Seq::<u8>::empty());
    }
    while i < data.len()
        invariant
            i <= data@.len(),
            crc == crc16(data@.subrange(0, i as int)),
        decreases data@.len() - i,
    {
        proof {
            assert(data@.subrange(0, i + 1).drop_last() =~= data@.subrange(0, i as int));
        }
        crc = crc ^ ((data[i] as u16) << 8);
        crc = steps4(steps4(crc));
        i += 1;
    }
    proof {
        assert(data@.subrange(0, data@.len() as int) =~= data@);
    }
    crc
}

/// The value of the five bytes of group `g`, first byte highest.
pub open spec fn group_value(input: Seq<u8>, g: int) -> int {
    input[5 * g] as int * 0x1_0000_0000 + input[5 * g + 1] as int * 0x100_0000 + input[5 * g
        + 2] as int * 0x1_0000 + input[5 * g + 3] as int * 0x100 + input[5 * g + 4] as int
}

/// What a group's value is divided by to bring symbol `k` of the group's
/// eight to the lowest five bits.
pub open spec fn symbol_divisor(k: int) -> int {
    if k == 0 {
        0x8_0000_0000
    } else if k == 1 {
        0x4000_0000
    } else if k == 2 {
        0x200_0000
    } else if k == 3 {
        0x10_0000
    } else if k == 4 {
        0x8000
    } else if k == 5 {
        0x400
    } else if k == 6 {
        0x20
    } else {
        1
    }
}

/// The symbol of a value of five bits: `A` to `Z`, then `2` to `7`.
pub open spec fn base32_symbol(v: int) -> u8 {
    if v < 26 {
        (65 + v) as u8
    } else {
        (24 + v) as u8
    }
}

/// The base32 symbol at place `j` of the encoding of `input`.
pub open spec fn base32_at(input: Seq<u8>, j: int) -> u8 {
    base32_symbol((group_value(input, j / 8) / symbol_divisor(j % 8)) % 32)
}

/// The base32 encoding, without padding, of bytes whose number is a
/// multiple of five: eight symbols for each five bytes.
pub open spec fn base32(input: Seq<u8>) -> Seq<u8> {
    Seq::new((input.len() / 5 * 8) as nat, |j: int| base32_at(input, j))
}

fn symbol_of(v: u64) -> (s: u8)
    requires
        v < 32,
    ensures
        s == base32_symbol(v as int),
{
    if v < 26 {
        65u8 + (v as u8)
    } else {
        24u8 + (v as u8)
    }
}

/// Encodes the 35 bytes of an address in base32 with the Stellar alphabet,
/// into the first 56 bytes of `output`.
pub fn encode_base32(input: &[u8], output: &mut [u8]) -> (r: Result<(), FormatError>)
    ensures
        final(output)@.len() == old(output)@.len(),
        match r {
            Ok(_) => {
                &&& input@.len() == 35
                &&& old(output)@.len() >= 56
                &&& final(output)@.subrange(0, 56) == base32(input@)
                &&& final(output)@.subrange(56, old(output)@.len() as int)
                    == old(output)@.subrange(56, old(output)@.len() as int)
            },
            Err(e) => final(output)@ == old(output)@ && if input@.len() != 35 {
                e == FormatError::InvalidInput
            } else {
                e == FormatError::BufferTooSmall && old(output)@.len() < 56
            },
        },
{
    if input.len() != 35 {
        return Err(FormatError::InvalidInput);
    }
    if output.len() < 56 {
        return Err(FormatError::BufferTooSmall);
    }
    let divisors: [u64; 8] = [
        0x8_0000_0000,
        0x4000_0000,
        0x200_0000,
        0x10_0000,
        0x8000,
        0x400,
        0x20,
        1,
    ];
    let mut g: usize = 0;
    while g < 7
        invariant
            g <= 7,
            input@.len() == 35,
            output@.len() == old(output)@.len(),
            output@.len() >= 56,
            forall|k: int| 0 <= k < 8 ==> #[trigger] divisors@[k] == symbol_divisor(k),
            forall|j: int| 0 <= j < 8 * g ==> #[trigger] output@[j] == base32_at(input@, j),
            forall|j: int| 56 <= j < output@.len() ==> #[trigger] output@[j] == old(output)@[j],
        decreases 7 - g,
    {
        let value: u64 = (input[5 * g] as u64) * 0x1_0000_0000 + (input[5 * g + 1] as u64)
            * 0x100_0000 + (input[5 * g + 2] as u64) * 0x1_0000 + (input[5 * g + 3] as u64) * 0x100
            + (input[5 * g + 4] as u64);
        let mut k: usize = 0;
        while k < 8
            invariant
                k <= 8,
                g < 7,
                input@.len() == 35,
                output@.len() == old(output)@.len(),
                output@.len() >= 56,
                value == group_value(input@, g as int),
                forall|k: int| 0 <= k < 8 ==> #[trigger] divisors@[k] == symbol_divisor(k),
                forall|j: int|
                    0 <= j < 8 * g + k ==> #[trigger] output@[j] == base32_at(input@, j),
                forall|j: int|
                    56 <= j < output@.len() ==> #[trigger] output@[j] == old(output)@[j],
            decreases 8 - k,
        {
            let v = (value / divisors[k]) % 32;
            proof {
                assert((8 * g + k) / 8 == g as int);
                assert((8 * g + k) % 8 == k as int);
            }
            output[8 * g + k] = symbol_of(v);
            k += 1;
        }
        g += 1;
    }
    proof {
        assert(output@.subrange(0, 56) =~= base32(input@));
        assert(output@.subrange(56, old(output)@.len() as int) =~= old(output)@.subrange(
            56,
            old(output)@.len() as int,
        ));
    }
    Ok(())
}

/// The bytes of an account's address: the base32 encoding of a version
/// byte, the key, and the checksum of both, low byte first.
pub open spec fn address_bytes(key: Seq<u8>) -> Seq<u8> {
    let payload = seq![0x30u8] + key;
    let crc = crc16(payload);
    base32(payload.push((crc & 0xff) as u8).push((crc >> 8) as u8))
}

/// Writes the address of an ed25519 public key into the first 56 bytes of
/// `buffer`, and returns how many bytes it wrote.
pub fn format_stellar_address(
    public_key: &[u8; 32],
    buffer: &mut [u8],
) -> (r: Result<usize, FormatError>)
    ensures
        final(buffer)@.len() == old(buffer)@.len(),
        match r {
            Ok(n) => {
                &&& n == 56
                &&& old(buffer)@.len() >= 56
                &&& final(buffer)@.subrange(0, 56) == address_bytes(public_key@)
                &&& final(buffer)@.subrange(56, old(buffer)@.len() as int)
                    == old(buffer)@.subrange(56, old(buffer)@.len() as int)
            },
            Err(e) => {
                &&& e == FormatError::BufferTooSmall
                &&& old(buffer)@.len() < 56
                &&& final(buffer)@ == old(buffer)@
            },
        },
{
    if buffer.len() < 56 {
        return Err(FormatError::BufferTooSmall);
    }
    let mut data: Vec<u8> = Vec::with_capacity(35);
    data.push(0x30u8);
    let mut i: usize = 0;
    while i < 32
        invariant
            i <= 32,
            data@ == seq![0x30u8] + public_key@.subrange(0, i as int),
        decreases 32 - i,
    {
        data.push(public_key[i]);
        proof {
            assert(data@ =~= seq![0x30u8] + public_key@.subrange(0, i + 1));
        }
        i += 1;
    }
    proof {
        assert(public_key@.subrange(0, 32) =~= public_key@);
    }
    let crc = checksum(data.as_slice());
    data.push((crc & 0xff) as u8);
    data.push((crc >> 8) as u8);
    encode_base32(data.as_slice(), buffer)?;
    Ok(56)
}

/// The value of sixteen bytes, first byte highest.
pub open spec fn be_u128(bytes: Seq<u8>) -> int {
    be_u64(bytes, 0) * 0x1_0000_0000_0000_0000 + be_u64(bytes, 8)
}

fn be_u64_at(bytes: &[u8; 16], at: usize) -> (v: u64)
    requires
        at + 8 <= 16,
    ensures
        v == be_u64(bytes@, at as int),
{
    let hi: u64 = (bytes[at] as u64) * 0x100_0000 + (bytes[at + 1] as u64) * 0x1_0000 + (bytes[at
        + 2] as u64) * 0x100 + (bytes[at + 3] as u64);
    let lo: u64 = (bytes[at + 4] as u64) * 0x100_0000 + (bytes[at + 5] as u64) * 0x1_0000 + (
    bytes[at + 6] as u64) * 0x100 + (bytes[at + 7] as u64);
    hi * 0x1_0000_0000 + lo
}

/// An amount in stroops as it is shown: in whole units, followed by
/// ` XLM`.
pub open spec fn printable_amount_text(stroops: nat) -> Seq<char> {
    xlm_amount_text(stroops) + " XLM"@
}

/// A decimal numeral is ASCII.
proof fn lemma_digits_ascii(n: nat)
    ensures
        is_ascii_chars(digits(n)),
    decreases n,
{
    if n >= 10 {
        lemma_digits_ascii(n / 10);
    }
}

/// The last digits of a number are ASCII.
proof fn lemma_low_digits_ascii(value: nat, places: nat)
    ensures
        is_ascii_chars(low_digits(value, places)),
        low_digits(value, places).len() == places,
    decreases places,
{
    if places > 0 {
        lemma_low_digits_ascii(value / 10, (places - 1) as nat);
    }
}

/// What is left of a text without the zeros at its end is its beginning.
proof fn lemma_trimmed_prefix(s: Seq<char>)
    ensures
        trimmed(s).len() <= s.len(),
        trimmed(s) == s.subrange(0, trimmed(s).len() as int),
    decreases s.len(),
{
    if s.len() > 0 && s.last() == '0' {
        lemma_trimmed_prefix(s.drop_last());
        assert(s.drop_last().subrange(0, trimmed(s).len() as int) =~= s.subrange(
            0,
            trimmed(s).len() as int,
        ));
    } else {
        assert(s.subrange(0, s.len() as int) =~= s);
    }
}

/// An amount as it is shown is ASCII, so that its bytes are its UTF-8
/// encoding.
proof fn lemma_printable_amount_ascii(stroops: nat)
    ensures
        is_ascii_chars(printable_amount_text(stroops)),
        encode_utf8(printable_amount_text(stroops)) == ascii(printable_amount_text(stroops)),
        valid_utf8(ascii(printable_amount_text(stroops))),
        ascii(printable_amount_text(stroops)) == ascii(xlm_amount_text(stroops))
            + " XLM".spec_bytes(),
{
    broadcast use vstd::utf8::is_ascii_chars_encode_utf8;
    broadcast use vstd::utf8::encode_utf8_valid_utf8;

    reveal_strlit(" XLM");
    lemma_digits_ascii(stroops / 10_000_000);
    lemma_low_digits_ascii(stroops % 10_000_000, 7);
    lemma_trimmed_prefix(low_digits(stroops % 10_000_000, 7));
    let text = printable_amount_text(stroops);
    assert(is_ascii_chars(" XLM"@));
    assert(is_ascii_chars(text));
    assert(encode_utf8(text) =~= ascii(text));
    assert(encode_utf8(" XLM"@) =~= ascii(" XLM"@));
    assert(ascii(text) =~= ascii(xlm_amount_text(stroops)) + ascii(" XLM"@));
}

/// Writes an amount of stroops, given as sixteen bytes with the first
/// byte highest, in whole units of the native asset followed by ` XLM`.
/// The amount must fit in a signed 64-bit integer.
pub fn format_printable_amount<'a>(
    amount: &[u8; 16],
    buffer: &'a mut [u8],
) -> (r: Result<&'a str, FormatError>)
    ensures
        match r {
            Ok(s) => be_u128(amount@) <= i64::MAX && s@ == printable_amount_text(
                be_u128(amount@) as nat,
            ),
            Err(e) => if be_u128(amount@) > i64::MAX {
                e == FormatError::InvalidInput
            } else {
                e == FormatError::BufferTooSmall && printable_amount_text(
                    be_u128(amount@) as nat,
                ).len() > old(buffer)@.len()
            },
        },
{
    broadcast use vstd::utf8::encode_utf8_decode_utf8;

    let high = be_u64_at(amount, 0);
    let low = be_u64_at(amount, 8);
    if high != 0 || low > 0x7fff_ffff_ffff_ffff {
        return Err(FormatError::InvalidInput);
    }
    proof {
        lemma_printable_amount_ascii(low as nat);
    }
    let written_len = {
        let mut writer = BufferWriter::new(buffer);
        format_xlm_amount(low, &mut writer)?;
        writer.push_str(" XLM")?;
        writer.pos
    };
    let shared: &'a [u8] = buffer;
    let bytes = vstd::slice::slice_subrange(shared, 0, written_len);
    match utf8_text(bytes) {
        Some(s) => {
            proof {
                let text = printable_amount_text(low as nat);
                assert(bytes@ =~= ascii(text));
                assert(s.spec_bytes() == encode_utf8(s@));
                assert(decode_utf8(encode_utf8(s@)) == s@);
                assert(decode_utf8(encode_utf8(text)) == text);
            }
            Ok(s)
        },
        None => Err(FormatError::InvalidInput),
    }
}

} // verus!

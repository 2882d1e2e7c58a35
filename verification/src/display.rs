//! How numbers, amounts, durations and times are written for the user.

use crate::parser::{
    AssetCode, AssetCode12, AssetCode4, BytesM, ClaimableBalanceId, Ed25519SignedPayload,
    Int128Parts, Int256Parts, MuxedAccount, MuxedEd25519, PublicKey, ScAddress, SignerKey,
    StringM, UInt128Parts, UInt256Parts, Uint256,
};
use crate::text::{char_text, decimal, digit_char, i128_text, push_char, u128_text};
use vstd::prelude::*;
use vstd::string::{StrSliceExecFns, StringExecFns};

verus! {

/// The native asset has seven decimal places: one unit is 10^7 stroops.
pub const STELLAR_NATIVE_DECIMAL_PLACES: u32 = 7;

/// An integer that can be written as a decimal numeral.
pub trait Numeral: Copy {
    /// The integer's value.
    spec fn value(&self) -> int;

    /// The integer's decimal numeral.
    fn numeral(&self) -> (r: String)
        ensures
            r@ == decimal(self.value()),
    ;
}

impl Numeral for u8 {
    open spec fn value(&self) -> int {
        *self as int
    }

    fn numeral(&self) -> (r: String) {
        u128_text(*self as u128)
    }
}

impl Numeral for u16 {
    open spec fn value(&self) -> int {
        *self as int
    }

    fn numeral(&self) -> (r: String) {
        u128_text(*self as u128)
    }
}

impl Numeral for u32 {
    open spec fn value(&self) -> int {
        *self as int
    }

    fn numeral(&self) -> (r: String) {
        u128_text(*self as u128)
    }
}

impl Numeral for u64 {
    open spec fn value(&self) -> int {
        *self as int
    }

    fn numeral(&self) -> (r: String) {
        u128_text(*self as u128)
    }
}

impl Numeral for u128 {
    open spec fn value(&self) -> int {
        *self as int
    }

    fn numeral(&self) -> (r: String) {
        u128_text(*self)
    }
}

impl Numeral for i8 {
    open spec fn value(&self) -> int {
        *self as int
    }

    fn numeral(&self) -> (r: String) {
        i128_text(*self as i128)
    }
}

impl Numeral for i16 {
    open spec fn value(&self) -> int {
        *self as int
    }

    fn numeral(&self) -> (r: String) {
        i128_text(*self as i128)
    }
}

impl Numeral for i32 {
    open spec fn value(&self) -> int {
        *self as int
    }

    fn numeral(&self) -> (r: String) {
        i128_text(*self as i128)
    }
}

impl Numeral for i64 {
    open spec fn value(&self) -> int {
        *self as int
    }

    fn numeral(&self) -> (r: String) {
        i128_text(*self as i128)
    }
}

impl Numeral for i128 {
    open spec fn value(&self) -> int {
        *self as int
    }

    fn numeral(&self) -> (r: String) {
        i128_text(*self)
    }
}

/// Whether a text starts with a minus sign.
pub open spec fn is_negative(text: Seq<char>) -> bool {
    text.len() > 0 && text[0] == '-'
}

/// A text without its leading minus sign, if it has one.
pub open spec fn magnitude(text: Seq<char>) -> Seq<char> {
    if is_negative(text) {
        text.drop_first()
    } else {
        text
    }
}

/// The leading minus sign of a text, if it has one.
pub open spec fn sign(text: Seq<char>) -> Seq<char> {
    if is_negative(text) {
        seq!['-']
    } else {
        Seq::empty()
    }
}

/// `n` zeros.
pub open spec fn zeros(n: nat) -> Seq<char> {
    Seq::new(n, |i: int| '0')
}

/// A numeral with a decimal point put `places` digits from its end, and
/// zeros put before it where it is shorter than that.
pub open spec fn with_point(text: Seq<char>, places: nat) -> Seq<char> {
    let body = magnitude(text);
    if places == 0 {
        text
    } else if places >= body.len() {
        sign(text) + "0."@ + zeros((places - body.len()) as nat) + body
    } else {
        sign(text) + body.subrange(0, body.len() - places).push('.') + body.subrange(
            body.len() - places,
            body.len() as int,
        )
    }
}

/// The first `i` characters of `body` with a comma before each, but the
/// first, whose distance to the end of `body` is a multiple of three.
pub open spec fn grouped(body: Seq<char>, i: nat) -> Seq<char>
    decreases i,
{
    if i == 0 {
        Seq::empty()
    } else {
        let k = i - 1;
        let before = grouped(body, k as nat);
        if k > 0 && (body.len() - k) % 3 == 0 {
            before.push(',').push(body[k])
        } else {
            before.push(body[k])
        }
    }
}

/// A numeral with a comma between each group of three digits, counted from
/// its end; a leading minus sign stays in front.
pub open spec fn with_commas(text: Seq<char>) -> Seq<char> {
    sign(text) + grouped(magnitude(text), magnitude(text).len())
}

/// The index of the first `c` in `s` at or after `i`, or the length of `s`.
pub open spec fn index_from(s: Seq<char>, c: char, i: int) -> int
    decreases s.len() - i,
{
    if i < 0 || i >= s.len() {
        s.len() as int
    } else if s[i] == c {
        i
    } else {
        index_from(s, c, i + 1)
    }
}

/// A text without the zeros at its end.
pub open spec fn trimmed(s: Seq<char>) -> Seq<char>
    decreases s.len(),
{
    if s.len() > 0 && s.last() == '0' {
        trimmed(s.drop_last())
    } else {
        s
    }
}

/// A decimal numeral with commas in its integer part and without the zeros
/// at the end of its fraction; a fraction of zeros alone goes with its point.
pub open spec fn number_with_commas(text: Seq<char>) -> Seq<char> {
    let body = magnitude(text);
    let dot = index_from(body, '.', 0);
    let shown = if dot < body.len() {
        let fraction = trimmed(body.subrange(dot + 1, body.len() as int));
        if fraction.len() == 0 {
            with_commas(body.subrange(0, dot))
        } else {
            with_commas(body.subrange(0, dot)).push('.') + fraction
        }
    } else {
        with_commas(body)
    };
    sign(text) + shown
}

/// An amount in smallest units written in whole units of `decimals` places.
pub open spec fn token_amount_text(amount: int, decimals: nat) -> Seq<char> {
    number_with_commas(with_point(decimal(amount), decimals))
}

/// An amount in stroops written in whole units of the native asset.
pub open spec fn native_amount_text(stroops: int) -> Seq<char> {
    token_amount_text(stroops, STELLAR_NATIVE_DECIMAL_PLACES as nat)
}

/// A duration in seconds written in days, hours, minutes and seconds, from
/// the highest unit that is not zero down to the seconds.
pub open spec fn duration_text(seconds: nat) -> Seq<char> {
    let days = seconds / 86400;
    let hours = (seconds % 86400) / 3600;
    let minutes = (seconds % 3600) / 60;
    let secs = seconds % 60;
    let s = decimal(secs as int) + "s"@;
    let ms = decimal(minutes as int) + "m "@ + s;
    let hms = decimal(hours as int) + "h "@ + ms;
    if days > 0 {
        number_with_commas(decimal(days as int)) + "d "@ + hms
    } else if hours > 0 {
        hms
    } else if minutes > 0 {
        ms
    } else {
        s
    }
}

/// Splits a text into whether it has a leading minus sign and the rest.
fn split_sign(text: &str) -> (r: (bool, &str))
    ensures
        r.0 == is_negative(text@),
        r.1@ == magnitude(text@),
{
    let n = text.unicode_len();
    if n > 0 && text.get_char(0) == '-' {
        let rest = text.substring_char(1, n);
        proof {
            assert(rest@ =~= text@.drop_first());
        }
        (true, rest)
    } else {
        (false, text)
    }
}

/// An empty text, or a minus sign.
fn sign_text(negative: bool) -> (r: String)
    ensures
        r@ == if negative {
            seq!['-']
        } else {
            Seq::<char>::empty()
        },
{
    if negative {
        char_text('-')
    } else {
        String::new()
    }
}

/// Writes an integer with a decimal point `decimal_places` digits from its
/// end.
pub fn format_decimal<T: Numeral>(num: T, decimal_places: u32) -> (r: String)
    ensures
        r@ == with_point(decimal(num.value()), decimal_places as nat),
{
    let num_str = num.numeral();
    if decimal_places == 0 {
        return num_str;
    }
    let (negative, body) = split_sign(num_str.as_str());
    let body_len = body.unicode_len();
    let mut result = sign_text(negative);
    if decimal_places as usize >= body_len {
        let zeros_needed = decimal_places as usize - body_len;
        result.append("0.");
        let ghost head = result@;
        let mut i: usize = 0;
        while i < zeros_needed
            invariant
                i <= zeros_needed,
                result@ == head + zeros(i as nat),
            decreases zeros_needed - i,
        {
            push_char(&mut result, '0');
            proof {
                assert(zeros(i as nat).push('0') =~= zeros((i + 1) as nat));
                assert(result@ =~= head + zeros((i + 1) as nat));
            }
            i += 1;
        }
        result.append(body);
        result
    } else {
        let split_point = body_len - decimal_places as usize;
        result.append(body.substring_char(0, split_point));
        push_char(&mut result, '.');
        result.append(body.substring_char(split_point, body_len));
        proof {
            assert(result@ =~= with_point(decimal(num.value()), decimal_places as nat));
        }
        result
    }
}

/// Writes an integer numeral with a comma between each group of three
/// digits.
pub fn add_commas_to_integer(integer_str: &str) -> (r: String)
    ensures
        r@ == with_commas(integer_str@),
{
    let (negative, body) = split_sign(integer_str);
    let len = body.unicode_len();
    let mut result = sign_text(negative);
    let ghost head = result@;
    let mut i: usize = 0;
    while i < len
        invariant
            i <= len,
            len == body@.len(),
            result@ == head + grouped(body@, i as nat),
        decreases len - i,
    {
        let ghost before = result@;
        if i > 0 && (len - i) % 3 == 0 {
            push_char(&mut result, ',');
        }
        push_char(&mut result, body.get_char(i));
        proof {
            assert(result@ =~= head + grouped(body@, (i + 1) as nat));
        }
        i += 1;
    }
    result
}

/// The index of the first `c` in `s`, if there is one.
fn find_char(s: &str, c: char) -> (r: Option<usize>)
    ensures
        match r {
            Some(i) => i < s@.len() && index_from(s@, c, 0) == i,
            None => index_from(s@, c, 0) == s@.len(),
        },
{
    let n = s.unicode_len();
    let mut i: usize = 0;
    while i < n
        invariant
            i <= n,
            n == s@.len(),
            index_from(s@, c, 0) == index_from(s@, c, i as int),
        decreases n - i,
    {
        if s.get_char(i) == c {
            return Some(i);
        }
        i += 1;
    }
    None
}

/// A text without the zeros at its end.
fn trim_trailing_zeros(s: &str) -> (r: &str)
    ensures
        r@ == trimmed(s@),
{
    let mut end = s.unicode_len();
    proof {
        assert(s@.subrange(0, s@.len() as int) =~= s@);
    }
    while end > 0 && s.get_char(end - 1) == '0'
        invariant
            end <= s@.len(),
            trimmed(s@) == trimmed(s@.subrange(0, end as int)),
        decreases end,
    {
        proof {
            assert(s@.subrange(0, end as int).drop_last() =~= s@.subrange(0, end - 1));
        }
        end -= 1;
    }
    s.substring_char(0, end)
}

/// Writes a decimal numeral with commas in its integer part and without
/// the zeros at the end of its fraction.
pub fn format_number_with_commas(decimal_str: &str) -> (r: String)
    ensures
        r@ == number_with_commas(decimal_str@),
{
    let (negative, body) = split_sign(decimal_str);
    let len = body.unicode_len();
    let shown = match find_char(body, '.') {
        Some(dot) => {
            let fraction = trim_trailing_zeros(body.substring_char(dot + 1, len));
            let mut whole = add_commas_to_integer(body.substring_char(0, dot));
            if fraction.unicode_len() == 0 {
                whole
            } else {
                push_char(&mut whole, '.');
                whole.append(fraction);
                whole
            }
        },
        None => add_commas_to_integer(body),
    };
    let mut result = sign_text(negative);
    result.append(shown.as_str());
    result
}

/// Writes a token amount, given in smallest units, in whole units.
pub fn format_token_amount<T: Numeral>(amount: T, decimals: u32) -> (r: String)
    ensures
        r@ == token_amount_text(amount.value(), decimals as nat),
{
    let decimal_str = format_decimal(amount, decimals);
    format_number_with_commas(decimal_str.as_str())
}

/// Writes an amount of the native asset, given in stroops, in whole units.
pub fn format_native_amount<T: Numeral>(stroops: T) -> (r: String)
    ensures
        r@ == native_amount_text(stroops.value()),
{
    format_token_amount(stroops, STELLAR_NATIVE_DECIMAL_PLACES)
}

/// A number followed by a unit.
fn with_unit(n: u64, unit: &str) -> (r: String)
    ensures
        r@ == decimal(n as int) + unit@,
{
    let mut r = u128_text(n as u128);
    r.append(unit);
    r
}

/// Writes a duration in seconds as days, hours, minutes and seconds.
pub fn format_duration(seconds: u64) -> (r: String)
    ensures
        r@ == duration_text(seconds as nat),
{
    let days = seconds / 86400;
    let hours = (seconds % 86400) / 3600;
    let minutes = (seconds % 3600) / 60;
    let secs = seconds % 60;
    let mut result = String::new();
    if days > 0 {
        let day_count = u128_text(days as u128);
        result = format_number_with_commas(day_count.as_str());
        result.append("d ");
    }
    if hours > 0 || days > 0 {
        result.append(with_unit(hours, "h ").as_str());
    }
    if minutes > 0 || hours > 0 || days > 0 {
        result.append(with_unit(minutes, "m ").as_str());
    }
    result.append(with_unit(secs, "s").as_str());
    proof {
        assert(result@ =~= duration_text(seconds as nat));
    }
    result
}

/// The text that chrono gives a time in UTC, `secs` seconds after the start
/// of 1970, where it can represent that time.
pub uninterp spec fn utc_date_time(secs: i64) -> Option<Seq<char>>;

/// Writes a time as chrono does. `DateTime::from_timestamp` gives `None` for
/// seconds out of its range, and the time's `Display` gives its date, time
/// and zone.
#[verifier::external_body]
fn date_time_text(secs: i64) -> (r: Option<String>)
    ensures
        match r {
            Some(s) => utc_date_time(secs) == Some(s@),
            None => utc_date_time(secs) is None,
        },
{
    chrono::DateTime::from_timestamp(secs, 0).map(|t| t.to_string())
}

/// What is shown for a timestamp: the rendered time where there is one, else
/// the plain number of seconds.
pub open spec fn timestamp_text(timestamp: u64, rendered: Option<Seq<char>>) -> Seq<char> {
    match rendered {
        Some(s) => s,
        None => decimal(timestamp as int),
    }
}

/// Picks what is shown for a timestamp, given its rendering where chrono
/// has one.
pub fn timestamp_or_number(timestamp: u64, rendered: Option<String>) -> (r: String)
    ensures
        r@ == timestamp_text(
            timestamp,
            match rendered {
                Some(s) => Some(s@),
                None => None,
            },
        ),
{
    match rendered {
        Some(s) => s,
        None => u128_text(timestamp as u128),
    }
}

/// The rendering of a timestamp: none above the largest signed 64-bit
/// number, else what chrono gives.
pub open spec fn timestamp_rendering(timestamp: u64) -> Option<Seq<char>> {
    if timestamp > i64::MAX as u64 {
        None
    } else {
        utc_date_time(timestamp as i64)
    }
}

/// Writes a Unix timestamp as a date and time in UTC, or as a plain number
/// where the time cannot be represented.
pub fn format_unix_timestamp(timestamp: u64) -> (r: String)
    ensures
        r@ == timestamp_text(timestamp, timestamp_rendering(timestamp)),
{
    if timestamp > i64::MAX as u64 {
        return timestamp_or_number(timestamp, None);
    }
    let rendered = date_time_text(timestamp as i64);
    timestamp_or_number(timestamp, rendered)
}

/// The value of two 64-bit words, high word first.
pub open spec fn pieces128(hi: int, lo: int) -> int {
    hi * 0x1_0000_0000_0000_0000 + lo
}

/// The value of four 64-bit words, highest first.
pub open spec fn pieces256(hi_hi: int, hi_lo: int, lo_hi: int, lo_lo: int) -> int {
    pieces128(hi_hi, hi_lo) * 0x1_0000_0000_0000_0000_0000_0000_0000_0000 + pieces128(lo_hi, lo_lo)
}

fn join_u128(hi: u64, lo: u64) -> (v: u128)
    ensures
        v == pieces128(hi as int, lo as int),
{
    (hi as u128) * 0x1_0000_0000_0000_0000 + (lo as u128)
}

fn join_i128(hi: i64, lo: u64) -> (v: i128)
    ensures
        v == pieces128(hi as int, lo as int),
{
    (hi as i128) * 0x1_0000_0000_0000_0000 + (lo as i128)
}

/// Writes an unsigned 256-bit integer. `U256::from_words` takes the high and
/// the low half, and the number's `Display` gives its decimal numeral.
#[verifier::external_body]
fn u256_text(hi: u128, lo: u128) -> (r: String)
    ensures
        r@ == decimal(hi as int * 0x1_0000_0000_0000_0000_0000_0000_0000_0000 + lo as int),
{
    ethnum::U256::from_words(hi, lo).to_string()
}

/// Writes a signed 256-bit integer. `I256::from_words` takes the high half
/// and the bits of the low half, and the number's `Display` gives its decimal
/// numeral.
#[verifier::external_body]
fn i256_text(hi: i128, lo: u128) -> (r: String)
    ensures
        r@ == decimal(hi as int * 0x1_0000_0000_0000_0000_0000_0000_0000_0000 + lo as int),
{
    ethnum::I256::from_words(hi, lo as i128).to_string()
}

/// Writes the unsigned 128-bit integer that two words make.
pub fn u128_str_from_pieces(hi: u64, lo: u64) -> (r: String)
    ensures
        r@ == decimal(pieces128(hi as int, lo as int)),
{
    u128_text(join_u128(hi, lo))
}

/// Writes the signed 128-bit integer that two words make.
pub fn i128_str_from_pieces(hi: i64, lo: u64) -> (r: String)
    ensures
        r@ == decimal(pieces128(hi as int, lo as int)),
{
    i128_text(join_i128(hi, lo))
}

/// Writes the unsigned 256-bit integer that four words make.
pub fn u256_str_from_pieces(hi_hi: u64, hi_lo: u64, lo_hi: u64, lo_lo: u64) -> (r: String)
    ensures
        r@ == decimal(pieces256(hi_hi as int, hi_lo as int, lo_hi as int, lo_lo as int)),
{
    u256_text(join_u128(hi_hi, hi_lo), join_u128(lo_hi, lo_lo))
}

/// Writes the signed 256-bit integer that four words make.
pub fn i256_str_from_pieces(hi_hi: i64, hi_lo: u64, lo_hi: u64, lo_lo: u64) -> (r: String)
    ensures
        r@ == decimal(pieces256(hi_hi as int, hi_lo as int, lo_hi as int, lo_lo as int)),
{
    i256_text(join_i128(hi_hi, hi_lo), join_u128(lo_hi, lo_lo))
}

impl UInt128Parts {
    /// The number's value.
    pub open spec fn value(&self) -> int {
        pieces128(self.hi as int, self.lo as int)
    }

    /// The text of the value.
    pub fn to_string(&self) -> (r: String)
        ensures
            r@ == decimal(self.value()),
    {
        u128_str_from_pieces(self.hi, self.lo)
    }
}

impl Int128Parts {
    /// The number's value.
    pub open spec fn value(&self) -> int {
        pieces128(self.hi as int, self.lo as int)
    }

    /// The text of the value.
    pub fn to_string(&self) -> (r: String)
        ensures
            r@ == decimal(self.value()),
    {
        i128_str_from_pieces(self.hi, self.lo)
    }
}

impl UInt256Parts {
    /// The number's value.
    pub open spec fn value(&self) -> int {
        pieces256(self.hi_hi as int, self.hi_lo as int, self.lo_hi as int, self.lo_lo as int)
    }

    /// The text of the value.
    pub fn to_string(&self) -> (r: String)
        ensures
            r@ == decimal(self.value()),
    {
        u256_str_from_pieces(self.hi_hi, self.hi_lo, self.lo_hi, self.lo_lo)
    }
}

impl Int256Parts {
    /// The number's value.
    pub open spec fn value(&self) -> int {
        pieces256(self.hi_hi as int, self.hi_lo as int, self.lo_hi as int, self.lo_lo as int)
    }

    /// The text of the value.
    pub fn to_string(&self) -> (r: String)
        ensures
            r@ == decimal(self.value()),
    {
        i256_str_from_pieces(self.hi_hi, self.hi_lo, self.lo_hi, self.lo_lo)
    }
}

/// The character of a hexadecimal digit, in lower case.
pub open spec fn hex_digit(n: int) -> char {
    if n < 10 {
        digit_char(n)
    } else {
        ((87 + n) as u8) as char
    }
}

/// How one byte is written: printable ASCII as it is, but a backslash
/// doubled; NUL, tab, carriage return and line feed as `\0`, `\t`, `\r`
/// and `\n`; any other byte as `\x` and two hexadecimal digits.
pub open spec fn escaped_byte(b: u8) -> Seq<char> {
    if b == 0x5c {
        seq!['\\', '\\']
    } else if b == 0 {
        seq!['\\', '0']
    } else if b == 9 {
        seq!['\\', 't']
    } else if b == 13 {
        seq!['\\', 'r']
    } else if b == 10 {
        seq!['\\', 'n']
    } else if 0x20 <= b <= 0x7e {
        seq![b as char]
    } else {
        seq!['\\', 'x', hex_digit(b as int / 16), hex_digit(b as int % 16)]
    }
}

/// How bytes are written: each byte as `escaped_byte` writes it.
pub open spec fn escaped(bytes: Seq<u8>) -> Seq<char>
    decreases bytes.len(),
{
    if bytes.len() == 0 {
        Seq::empty()
    } else {
        escaped(bytes.drop_last()) + escaped_byte(bytes.last())
    }
}

/// Writes bytes as printable text. `escape_bytes::Escape` yields printable
/// ASCII unchanged, a backslash doubled, NUL, tab, carriage return and line
/// feed as two-character escapes, and every other byte as `\xNN`.
#[verifier::external_body]
pub(crate) fn escape_text(bytes: &[u8]) -> (r: String)
    ensures
        r@ == escaped(bytes@),
{
    escape_bytes::Escape::new(bytes).map(char::from).collect()
}

/// Bytes in hexadecimal: two lower-case digits for each.
pub open spec fn hex_text(bytes: Seq<u8>) -> Seq<char>
    decreases bytes.len(),
{
    if bytes.len() == 0 {
        Seq::empty()
    } else {
        hex_text(bytes.drop_last()).push(hex_digit(bytes.last() as int / 16)).push(
            hex_digit(bytes.last() as int % 16),
        )
    }
}

/// Writes bytes in hexadecimal. `hex::encode` writes each byte as two
/// lower-case hexadecimal digits.
#[verifier::external_body]
pub(crate) fn hex_encode(bytes: &[u8]) -> (r: String)
    ensures
        r@ == hex_text(bytes@),
{
    hex::encode(bytes)
}

/// The strkey of an ed25519 public key.
pub uninterp spec fn strkey_public_key(key: Seq<u8>) -> Seq<char>;

/// The strkey of a multiplexed account: a key and an identifier.
pub uninterp spec fn strkey_muxed_account(key: Seq<u8>, id: u64) -> Seq<char>;

/// The strkey of a signed payload signer: a key and a payload.
pub uninterp spec fn strkey_signed_payload(key: Seq<u8>, payload: Seq<u8>) -> Seq<char>;

/// The strkey of a pre-authorized transaction hash.
pub uninterp spec fn strkey_pre_auth_tx(hash: Seq<u8>) -> Seq<char>;

/// The strkey of a hash whose preimage signs.
pub uninterp spec fn strkey_hash_x(hash: Seq<u8>) -> Seq<char>;

/// The strkey of a contract identifier.
pub uninterp spec fn strkey_contract(id: Seq<u8>) -> Seq<char>;

/// The strkey of a liquidity pool identifier.
pub uninterp spec fn strkey_liquidity_pool(id: Seq<u8>) -> Seq<char>;

/// The strkey of a claimable balance identifier.
pub uninterp spec fn strkey_claimable_balance(id: Seq<u8>) -> Seq<char>;

/// Encodes a public key with `stellar_strkey::ed25519::PublicKey::to_string`.
#[verifier::external_body]
fn encode_public_key(key: &[u8; 32]) -> (r: String)
    ensures
        r@ == strkey_public_key(key@),
{
    stellar_strkey::ed25519::PublicKey(*key).to_string()
}

/// Encodes a multiplexed account with
/// `stellar_strkey::ed25519::MuxedAccount::to_string`.
#[verifier::external_body]
fn encode_muxed_account(key: &[u8; 32], id: u64) -> (r: String)
    ensures
        r@ == strkey_muxed_account(key@, id),
{
    stellar_strkey::ed25519::MuxedAccount { ed25519: *key, id }.to_string()
}

/// Encodes a signed payload signer with
/// `stellar_strkey::ed25519::SignedPayload::to_string`, which takes a
/// payload whose length fits in 32 bits.
#[verifier::external_body]
fn encode_signed_payload(key: &[u8; 32], payload: &[u8]) -> (r: String)
    requires
        payload@.len() <= u32::MAX,
    ensures
        r@ == strkey_signed_payload(key@, payload@),
{
    stellar_strkey::ed25519::SignedPayload { ed25519: *key, payload: payload.into() }.to_string()
}

/// Encodes a pre-authorized transaction hash with
/// `stellar_strkey::PreAuthTx::to_string`.
#[verifier::external_body]
fn encode_pre_auth_tx(hash: &[u8; 32]) -> (r: String)
    ensures
        r@ == strkey_pre_auth_tx(hash@),
{
    stellar_strkey::PreAuthTx(*hash).to_string()
}

/// Encodes a hash whose preimage signs with `stellar_strkey::HashX::to_string`.
#[verifier::external_body]
fn encode_hash_x(hash: &[u8; 32]) -> (r: String)
    ensures
        r@ == strkey_hash_x(hash@),
{
    stellar_strkey::HashX(*hash).to_string()
}

/// Encodes a contract identifier with `stellar_strkey::Contract::to_string`.
#[verifier::external_body]
fn encode_contract(id: &[u8; 32]) -> (r: String)
    ensures
        r@ == strkey_contract(id@),
{
    stellar_strkey::Contract(*id).to_string()
}

/// Encodes a liquidity pool identifier with
/// `stellar_strkey::LiquidityPool::to_string`.
#[verifier::external_body]
fn encode_liquidity_pool(id: &[u8; 32]) -> (r: String)
    ensures
        r@ == strkey_liquidity_pool(id@),
{
    stellar_strkey::LiquidityPool(*id).to_string()
}

/// Encodes a claimable balance identifier with
/// `stellar_strkey::ClaimableBalance::to_string`.
#[verifier::external_body]
fn encode_claimable_balance(id: &[u8; 32]) -> (r: String)
    ensures
        r@ == strkey_claimable_balance(id@),
{
    stellar_strkey::ClaimableBalance::V0(*id).to_string()
}

/// Writes an ed25519 public key as a strkey.
pub fn format_public_key(key: &[u8; 32]) -> (r: String)
    ensures
        r@ == strkey_public_key(key@),
{
    encode_public_key(key)
}

/// Writes a contract identifier as a strkey.
pub fn format_contract_id(contract_id: &Uint256) -> (r: String)
    ensures
        r@ == strkey_contract(contract_id.0@),
{
    encode_contract(contract_id.0)
}

/// Writes a liquidity pool identifier as a strkey.
pub fn format_pool_id(pool_id: &Uint256) -> (r: String)
    ensures
        r@ == strkey_liquidity_pool(pool_id.0@),
{
    encode_liquidity_pool(pool_id.0)
}

impl<'a> PublicKey<'a> {
    /// The key as a strkey.
    pub open spec fn text(&self) -> Seq<char> {
        strkey_public_key(self->PublicKeyTypeEd25519_0.0@)
    }

    /// The text of the value.
    pub fn to_string(&self) -> (r: String)
        ensures
            r@ == self.text(),
    {
        match self {
            PublicKey::PublicKeyTypeEd25519(key) => encode_public_key(key.0),
        }
    }
}

impl<'a> MuxedEd25519<'a> {
    /// The account as a strkey.
    pub open spec fn text(&self) -> Seq<char> {
        strkey_muxed_account(self.ed25519.0@, self.id)
    }

    /// The text of the value.
    pub fn to_string(&self) -> (r: String)
        ensures
            r@ == self.text(),
    {
        encode_muxed_account(self.ed25519.0, self.id)
    }
}

impl<'a> MuxedAccount<'a> {
    /// The account as a strkey.
    pub open spec fn text(&self) -> Seq<char> {
        match self {
            MuxedAccount::KeyTypeEd25519(key) => strkey_public_key(key.0@),
            MuxedAccount::KeyTypeMuxedEd25519(m) => m.text(),
        }
    }

    /// The text of the value.
    pub fn to_string(&self) -> (r: String)
        ensures
            r@ == self.text(),
    {
        match self {
            MuxedAccount::KeyTypeEd25519(key) => encode_public_key(key.0),
            MuxedAccount::KeyTypeMuxedEd25519(m) => m.to_string(),
        }
    }
}

impl<'a> Ed25519SignedPayload<'a> {
    /// Whether the payload is short enough to be written.
    pub open spec fn fits(&self) -> bool {
        self.payload@.len() <= u32::MAX
    }

    /// The signer as a strkey.
    pub open spec fn text(&self) -> Seq<char> {
        strkey_signed_payload(self.ed25519.0@, self.payload@)
    }

    /// The text of the value.
    pub fn to_string(&self) -> (r: String)
        requires
            self.fits(),
        ensures
            r@ == self.text(),
    {
        encode_signed_payload(self.ed25519.0, self.payload)
    }
}

impl<'a> SignerKey<'a> {
    /// Whether the key can be written: a signed payload must be short
    /// enough.
    pub open spec fn fits(&self) -> bool {
        self matches SignerKey::SignerKeyTypeEd25519SignedPayload(p) ==> p.fits()
    }

    /// The key as a strkey.
    pub open spec fn text(&self) -> Seq<char> {
        match self {
            SignerKey::SignerKeyTypeEd25519(key) => strkey_public_key(key.0@),
            SignerKey::SignerKeyTypePreAuthTx(hash) => strkey_pre_auth_tx(hash.0@),
            SignerKey::SignerKeyTypeHashX(hash) => strkey_hash_x(hash.0@),
            SignerKey::SignerKeyTypeEd25519SignedPayload(p) => p.text(),
        }
    }

    /// The text of the value.
    pub fn to_string(&self) -> (r: String)
        requires
            self.fits(),
        ensures
            r@ == self.text(),
    {
        match self {
            SignerKey::SignerKeyTypeEd25519(key) => encode_public_key(key.0),
            SignerKey::SignerKeyTypePreAuthTx(hash) => encode_pre_auth_tx(hash.0),
            SignerKey::SignerKeyTypeHashX(hash) => encode_hash_x(hash.0),
            SignerKey::SignerKeyTypeEd25519SignedPayload(p) => p.to_string(),
        }
    }

    /// Whether the key can be written.
    pub fn check_fits(&self) -> (b: bool)
        ensures
            b == self.fits(),
    {
        match self {
            SignerKey::SignerKeyTypeEd25519SignedPayload(p) => p.payload.len() <= 0xffff_ffff,
            _ => true,
        }
    }
}

impl<'a> ClaimableBalanceId<'a> {
    /// The identifier as a strkey.
    pub open spec fn text(&self) -> Seq<char> {
        strkey_claimable_balance(self->ClaimableBalanceIdTypeV0_0.0@)
    }

    /// The text of the value.
    pub fn to_string(&self) -> (r: String)
        ensures
            r@ == self.text(),
    {
        match self {
            ClaimableBalanceId::ClaimableBalanceIdTypeV0(hash) => encode_claimable_balance(hash.0),
        }
    }
}

impl<'a> ScAddress<'a> {
    /// The address as a strkey.
    pub open spec fn text(&self) -> Seq<char> {
        match self {
            ScAddress::ScAddressTypeAccount(a) => a.text(),
            ScAddress::ScAddressTypeContract(id) => strkey_contract(id.0@),
            ScAddress::ScAddressTypeMuxedAccount(m) => m.text(),
            ScAddress::ScAddressTypeClaimableBalance(id) => id.text(),
            ScAddress::ScAddressTypeLiquidityPool(id) => strkey_liquidity_pool(id.0@),
        }
    }

    /// The text of the value.
    pub fn to_string(&self) -> (r: String)
        ensures
            r@ == self.text(),
    {
        match self {
            ScAddress::ScAddressTypeAccount(a) => a.to_string(),
            ScAddress::ScAddressTypeContract(id) => encode_contract(id.0),
            ScAddress::ScAddressTypeMuxedAccount(m) => m.to_string(),
            ScAddress::ScAddressTypeClaimableBalance(id) => id.to_string(),
            ScAddress::ScAddressTypeLiquidityPool(id) => encode_liquidity_pool(id.0),
        }
    }
}

/// The length of `code` without the zero bytes at its end.
pub open spec fn significant_len(code: Seq<u8>) -> nat
    decreases code.len(),
{
    if code.len() > 0 && code.last() == 0 {
        significant_len(code.drop_last())
    } else {
        code.len()
    }
}

fn significant(code: &[u8]) -> (n: usize)
    ensures
        n == significant_len(code@),
        n <= code@.len(),
{
    let mut end = code.len();
    proof {
        assert(code@.subrange(0, code@.len() as int) =~= code@);
    }
    while end > 0 && code[end - 1] == 0
        invariant
            end <= code@.len(),
            significant_len(code@) == significant_len(code@.subrange(0, end as int)),
        decreases end,
    {
        proof {
            assert(code@.subrange(0, end as int).drop_last() =~= code@.subrange(0, end - 1));
        }
        end -= 1;
    }
    end
}

impl<'a> AssetCode4<'a> {
    /// The code without its padding.
    pub open spec fn text(&self) -> Seq<char> {
        escaped(self.0@.subrange(0, significant_len(self.0@) as int))
    }

    /// The text of the value.
    pub fn to_string(&self) -> (r: String)
        ensures
            r@ == self.text(),
    {
        let code = self.0.as_slice();
        let n = significant(code);
        escape_text(vstd::slice::slice_subrange(code, 0, n))
    }
}

impl<'a> AssetCode12<'a> {
    /// The code without its padding, and at least five characters of it: a
    /// shorter code would be a short code.
    pub open spec fn text(&self) -> Seq<char> {
        escaped(self.0@.subrange(0, 5 + significant_len(self.0@.subrange(5, 12)) as int))
    }

    /// The text of the value.
    pub fn to_string(&self) -> (r: String)
        ensures
            r@ == self.text(),
    {
        let code = self.0.as_slice();
        let n = significant(vstd::slice::slice_subrange(code, 5, 12));
        escape_text(vstd::slice::slice_subrange(code, 0, 5 + n))
    }
}

impl<'a> AssetCode<'a> {
    /// The code without its padding.
    pub open spec fn text(&self) -> Seq<char> {
        match self {
            AssetCode::AssetCode4(c) => c.text(),
            AssetCode::AssetCode12(c) => c.text(),
        }
    }

    /// The text of the value.
    pub fn to_string(&self) -> (r: String)
        ensures
            r@ == self.text(),
    {
        match self {
            AssetCode::AssetCode4(c) => c.to_string(),
            AssetCode::AssetCode12(c) => c.to_string(),
        }
    }
}

impl<'a> Uint256<'a> {
    /// The bytes as printable text.
    pub open spec fn text(&self) -> Seq<char> {
        escaped(self.0@)
    }

    /// The text of the value.
    pub fn to_string(&self) -> (r: String)
        ensures
            r@ == self.text(),
    {
        escape_text(self.0.as_slice())
    }
}

impl<'a, const MAX: usize> BytesM<'a, MAX> {
    /// The bytes as printable text.
    pub open spec fn text(&self) -> Seq<char> {
        escaped(self@)
    }

    /// The text of the value.
    pub fn to_string(&self) -> (r: String)
        ensures
            r@ == self.text(),
    {
        escape_text(self.as_bytes())
    }
}

impl<'a, const MAX: usize> StringM<'a, MAX> {
    /// The string as printable text.
    pub open spec fn text(&self) -> Seq<char> {
        escaped(self@)
    }

    /// The text of the value.
    pub fn to_string(&self) -> (r: String)
        ensures
            r@ == self.text(),
    {
        escape_text(self.as_bytes())
    }
}

} // verus!

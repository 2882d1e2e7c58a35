//! Keys, accounts and assets.

use super::codec::XdrParse;
use super::codes::{AssetType, CryptoKeyType, PublicKeyType, SignerKeyType};
use super::cursor::{
    be_i32, be_u64, lemma_fixed_prefix, lemma_opaque_prefix, opaque_payload, scan_fixed,
    scan_opaque, ParseError, Parser,
};
use crate::text::utf8_text;
use vstd::prelude::*;
use vstd::string::StringSliceAdditionalSpecFns;
use vstd::utf8::valid_utf8;

verus! {

/// Thirty-two bytes: a key, a hash or an identifier.
#[derive(Debug, Clone, PartialEq, Eq)]
pub struct Uint256<'a>(pub &'a [u8; 32]);

impl<'a> XdrParse<'a> for Uint256<'a> {
    open spec fn scan(data: Seq<u8>, pos: int, depth: int) -> Result<int, ParseError> {
        scan_fixed(data, pos, 32)
    }

    open spec fn decoded_from(&self, data: Seq<u8>, pos: int, depth: int) -> bool {
        self.0@ == data.subrange(pos, pos + 32)
    }

    fn parse(parser: &mut Parser<'a>) -> (r: Result<Self, ParseError>) {
        Ok(Uint256(parser.read_array_ref::<32>()?))
    }

    proof fn lemma_prefix(data: Seq<u8>, pos: int, depth: int, k: int) {
        lemma_fixed_prefix(data, pos, k);
    }
}

impl<'a> Uint256<'a> {
    /// The thirty-two bytes.
    pub fn as_bytes(&self) -> (b: &[u8; 32])
        ensures
            b@ == self.0@,
    {
        self.0
    }
}

/// The hash that names the test network.
pub const TESTNET_NETWORK_HASH: [u8; 32] = [
    0xce, 0xe0, 0x30, 0x2d, 0x59, 0x84, 0x4d, 0x32, 0xbd, 0xca, 0x91, 0x5c, 0x82, 0x03, 0xdd, 0x44,
    0xb3, 0x3f, 0xbb, 0x7e, 0xdc, 0x19, 0x05, 0x1e, 0xa3, 0x7a, 0xbe, 0xdf, 0x28, 0xec, 0xd4, 0x72,
];

/// The hash that names the public network.
pub const PUBLIC_NETWORK_HASH: [u8; 32] = [
    0x7a, 0xc3, 0x39, 0x97, 0x54, 0x4e, 0x31, 0x75, 0xd2, 0x66, 0xbd, 0x02, 0x24, 0x39, 0xb2, 0x2c,
    0xdb, 0x16, 0x50, 0x8c, 0x01, 0x16, 0x3f, 0x26, 0xe5, 0xcb, 0x2a, 0x3e, 0x10, 0x45, 0xa9, 0x79,
];

pub type Hash<'a> = Uint256<'a>;

pub type ContractId<'a> = Uint256<'a>;

pub type PoolId<'a> = Uint256<'a>;

pub type TimePoint = u64;

pub type Duration = u64;

pub type SequenceNumber = i64;

/// A public key.
#[derive(Debug, Clone, PartialEq, Eq)]
pub enum PublicKey<'a> {
    PublicKeyTypeEd25519(Uint256<'a>),
}

impl<'a> XdrParse<'a> for PublicKey<'a> {
    open spec fn scan(data: Seq<u8>, pos: int, depth: int) -> Result<int, ParseError> {
        match PublicKeyType::scan(data, pos, depth) {
            Err(e) => Err(e),
            Ok(p) => {
                if be_i32(data, pos) == 0 {
                    Uint256::scan(data, p, depth)
                } else {
                    Err(ParseError::InvalidType(be_i32(data, pos) as i32))
                }
            },
        }
    }

    open spec fn decoded_from(&self, data: Seq<u8>, pos: int, depth: int) -> bool {
        match self {
            PublicKey::PublicKeyTypeEd25519(v0) => {
                &&& be_i32(data, pos) == 0
                &&& v0.decoded_from(data, pos + 4, depth)
            },
        }
    }

    fn parse(parser: &mut Parser<'a>) -> (r: Result<Self, ParseError>) {
        let kind = PublicKeyType::parse(parser)?;
        match kind {
            PublicKeyType::PublicKeyTypeEd25519 => {
                let v0 = Uint256::parse(parser)?;
                Ok(PublicKey::PublicKeyTypeEd25519(v0))
            },
        }
    }

    proof fn lemma_prefix(data: Seq<u8>, pos: int, depth: int, k: int) {
        PublicKeyType::lemma_prefix(data, pos, depth, k);
        lemma_fixed_prefix(data, pos, k);
        if PublicKeyType::scan(data, pos, depth) is Ok {
            let p = pos + 4;
            if be_i32(data, pos) == 0 {
                Uint256::lemma_prefix(data, p, depth, k);
            }
        }
    }
}

impl<'a> PublicKey<'a> {
    /// The key's bytes.
    pub fn as_bytes(&self) -> (b: &[u8; 32])
        ensures
            b@ == self->PublicKeyTypeEd25519_0.0@,
    {
        match self {
            PublicKey::PublicKeyTypeEd25519(key) => key.as_bytes(),
        }
    }

    /// The kind of the key.
    pub fn key_type(&self) -> (t: PublicKeyType)
        ensures
            t == PublicKeyType::PublicKeyTypeEd25519,
    {
        match self {
            PublicKey::PublicKeyTypeEd25519(_) => PublicKeyType::PublicKeyTypeEd25519,
        }
    }
}

pub type AccountId<'a> = PublicKey<'a>;

/// A key together with the payload it signs.
#[derive(Debug, Clone, PartialEq, Eq)]
pub struct Ed25519SignedPayload<'a> {
    pub ed25519: Uint256<'a>,
    pub payload: &'a [u8],
}

impl<'a> XdrParse<'a> for Ed25519SignedPayload<'a> {
    open spec fn scan(data: Seq<u8>, pos: int, depth: int) -> Result<int, ParseError> {
        match Uint256::scan(data, pos, depth) {
            Err(e) => Err(e),
            Ok(p1) => {
                scan_opaque(data, p1, Some(64))
            },
        }
    }

    open spec fn decoded_from(&self, data: Seq<u8>, pos: int, depth: int) -> bool {
        &&& self.ed25519.decoded_from(data, pos, depth)
        &&& self.payload@ == opaque_payload(data, pos + 32)
    }

    fn parse(parser: &mut Parser<'a>) -> (r: Result<Self, ParseError>) {
        let ed25519 = Uint256::parse(parser)?;
        let payload = parser.parse_var_opaque(Some(64))?;
        Ok(Ed25519SignedPayload { ed25519, payload })
    }

    proof fn lemma_prefix(data: Seq<u8>, pos: int, depth: int, k: int) {
        Uint256::lemma_prefix(data, pos, depth, k);
        if Uint256::scan(data, pos, depth) is Ok {
            let p1 = Uint256::scan(data, pos, depth)->Ok_0;
            lemma_opaque_prefix(data, p1, Some(64), k);
        }
    }
}

/// What may sign for an account.
#[derive(Debug, Clone, PartialEq, Eq)]
pub enum SignerKey<'a> {
    SignerKeyTypeEd25519(Uint256<'a>),
    SignerKeyTypePreAuthTx(Uint256<'a>),
    SignerKeyTypeHashX(Uint256<'a>),
    SignerKeyTypeEd25519SignedPayload(Ed25519SignedPayload<'a>),
}

impl<'a> XdrParse<'a> for SignerKey<'a> {
    open spec fn scan(data: Seq<u8>, pos: int, depth: int) -> Result<int, ParseError> {
        match SignerKeyType::scan(data, pos, depth) {
            Err(e) => Err(e),
            Ok(p) => {
                if be_i32(data, pos) == 0 {
                    Uint256::scan(data, p, depth)
                } else if be_i32(data, pos) == 1 {
                    Uint256::scan(data, p, depth)
                } else if be_i32(data, pos) == 2 {
                    Uint256::scan(data, p, depth)
                } else if be_i32(data, pos) == 3 {
                    Ed25519SignedPayload::scan(data, p, depth)
                } else {
                    Err(ParseError::InvalidType(be_i32(data, pos) as i32))
                }
            },
        }
    }

    open spec fn decoded_from(&self, data: Seq<u8>, pos: int, depth: int) -> bool {
        match self {
            SignerKey::SignerKeyTypeEd25519(v0) => {
                &&& be_i32(data, pos) == 0
                &&& v0.decoded_from(data, pos + 4, depth)
            },
            SignerKey::SignerKeyTypePreAuthTx(v0) => {
                &&& be_i32(data, pos) == 1
                &&& v0.decoded_from(data, pos + 4, depth)
            },
            SignerKey::SignerKeyTypeHashX(v0) => {
                &&& be_i32(data, pos) == 2
                &&& v0.decoded_from(data, pos + 4, depth)
            },
            SignerKey::SignerKeyTypeEd25519SignedPayload(v0) => {
                &&& be_i32(data, pos) == 3
                &&& v0.decoded_from(data, pos + 4, depth)
            },
        }
    }

    fn parse(parser: &mut Parser<'a>) -> (r: Result<Self, ParseError>) {
        let kind = SignerKeyType::parse(parser)?;
        match kind {
            SignerKeyType::SignerKeyTypeEd25519 => {
                let v0 = Uint256::parse(parser)?;
                Ok(SignerKey::SignerKeyTypeEd25519(v0))
            },
            SignerKeyType::SignerKeyTypePreAuthTx => {
                let v0 = Uint256::parse(parser)?;
                Ok(SignerKey::SignerKeyTypePreAuthTx(v0))
            },
            SignerKeyType::SignerKeyTypeHashX => {
                let v0 = Uint256::parse(parser)?;
                Ok(SignerKey::SignerKeyTypeHashX(v0))
            },
            SignerKeyType::SignerKeyTypeEd25519SignedPayload => {
                let v0 = Ed25519SignedPayload::parse(parser)?;
                Ok(SignerKey::SignerKeyTypeEd25519SignedPayload(v0))
            },
        }
    }

    proof fn lemma_prefix(data: Seq<u8>, pos: int, depth: int, k: int) {
        SignerKeyType::lemma_prefix(data, pos, depth, k);
        lemma_fixed_prefix(data, pos, k);
        if SignerKeyType::scan(data, pos, depth) is Ok {
            let p = pos + 4;
            if be_i32(data, pos) == 0 {
                Uint256::lemma_prefix(data, p, depth, k);
            } else if be_i32(data, pos) == 1 {
                Uint256::lemma_prefix(data, p, depth, k);
            } else if be_i32(data, pos) == 2 {
                Uint256::lemma_prefix(data, p, depth, k);
            } else if be_i32(data, pos) == 3 {
                Ed25519SignedPayload::lemma_prefix(data, p, depth, k);
            }
        }
    }
}

/// A key with the identifier of a virtual account under it.
#[derive(Debug, Clone, PartialEq, Eq)]
pub struct MuxedEd25519<'a> {
    pub id: u64,
    pub ed25519: Uint256<'a>,
}

impl<'a> XdrParse<'a> for MuxedEd25519<'a> {
    open spec fn scan(data: Seq<u8>, pos: int, depth: int) -> Result<int, ParseError> {
        match scan_fixed(data, pos, 8) {
            Err(e) => Err(e),
            Ok(p1) => {
                Uint256::scan(data, p1, depth)
            },
        }
    }

    open spec fn decoded_from(&self, data: Seq<u8>, pos: int, depth: int) -> bool {
        &&& self.id == be_u64(data, pos)
        &&& self.ed25519.decoded_from(data, pos + 8, depth)
    }

    fn parse(parser: &mut Parser<'a>) -> (r: Result<Self, ParseError>) {
        let id = parser.parse_uint64()?;
        let ed25519 = Uint256::parse(parser)?;
        Ok(MuxedEd25519 { id, ed25519 })
    }

    proof fn lemma_prefix(data: Seq<u8>, pos: int, depth: int, k: int) {
        lemma_fixed_prefix(data, pos, k);
        if scan_fixed(data, pos, 8) is Ok {
            let p1 = scan_fixed(data, pos, 8)->Ok_0;
            Uint256::lemma_prefix(data, p1, depth, k);
        }
    }
}

pub type MuxedEd25519Account<'a> = MuxedEd25519<'a>;

/// An account, plain or multiplexed.
#[derive(Debug, Clone, PartialEq, Eq)]
pub enum MuxedAccount<'a> {
    KeyTypeEd25519(Uint256<'a>),
    KeyTypeMuxedEd25519(MuxedEd25519<'a>),
}

impl<'a> XdrParse<'a> for MuxedAccount<'a> {
    open spec fn scan(data: Seq<u8>, pos: int, depth: int) -> Result<int, ParseError> {
        match CryptoKeyType::scan(data, pos, depth) {
            Err(e) => Err(e),
            Ok(p) => {
                if be_i32(data, pos) == 0 {
                    Uint256::scan(data, p, depth)
                } else if be_i32(data, pos) == 256 {
                    MuxedEd25519::scan(data, p, depth)
                } else {
                    Err(ParseError::InvalidType(be_i32(data, pos) as i32))
                }
            },
        }
    }

    open spec fn decoded_from(&self, data: Seq<u8>, pos: int, depth: int) -> bool {
        match self {
            MuxedAccount::KeyTypeEd25519(v0) => {
                &&& be_i32(data, pos) == 0
                &&& v0.decoded_from(data, pos + 4, depth)
            },
            MuxedAccount::KeyTypeMuxedEd25519(v0) => {
                &&& be_i32(data, pos) == 256
                &&& v0.decoded_from(data, pos + 4, depth)
            },
        }
    }

    fn parse(parser: &mut Parser<'a>) -> (r: Result<Self, ParseError>) {
        let kind = CryptoKeyType::parse(parser)?;
        match kind {
            CryptoKeyType::KeyTypeEd25519 => {
                let v0 = Uint256::parse(parser)?;
                Ok(MuxedAccount::KeyTypeEd25519(v0))
            },
            CryptoKeyType::KeyTypeMuxedEd25519 => {
                let v0 = MuxedEd25519::parse(parser)?;
                Ok(MuxedAccount::KeyTypeMuxedEd25519(v0))
            },
            _ => Err(ParseError::InvalidType(kind.code())),
        }
    }

    proof fn lemma_prefix(data: Seq<u8>, pos: int, depth: int, k: int) {
        CryptoKeyType::lemma_prefix(data, pos, depth, k);
        lemma_fixed_prefix(data, pos, k);
        if CryptoKeyType::scan(data, pos, depth) is Ok {
            let p = pos + 4;
            if be_i32(data, pos) == 0 {
                Uint256::lemma_prefix(data, p, depth, k);
            } else if be_i32(data, pos) == 256 {
                MuxedEd25519::lemma_prefix(data, p, depth, k);
            }
        }
    }
}

/// An asset code of up to four characters, padded with zero bytes.
#[derive(Debug, Clone, PartialEq, Eq)]
pub struct AssetCode4<'a>(pub &'a [u8; 4]);

impl<'a> XdrParse<'a> for AssetCode4<'a> {
    open spec fn scan(data: Seq<u8>, pos: int, depth: int) -> Result<int, ParseError> {
        scan_fixed(data, pos, 4)
    }

    open spec fn decoded_from(&self, data: Seq<u8>, pos: int, depth: int) -> bool {
        self.0@ == data.subrange(pos, pos + 4)
    }

    fn parse(parser: &mut Parser<'a>) -> (r: Result<Self, ParseError>) {
        Ok(AssetCode4(parser.read_array_ref::<4>()?))
    }

    proof fn lemma_prefix(data: Seq<u8>, pos: int, depth: int, k: int) {
        lemma_fixed_prefix(data, pos, k);
    }
}

/// An asset code of five to twelve characters, padded with zero bytes.
#[derive(Debug, Clone, PartialEq, Eq)]
pub struct AssetCode12<'a>(pub &'a [u8; 12]);

impl<'a> XdrParse<'a> for AssetCode12<'a> {
    open spec fn scan(data: Seq<u8>, pos: int, depth: int) -> Result<int, ParseError> {
        scan_fixed(data, pos, 12)
    }

    open spec fn decoded_from(&self, data: Seq<u8>, pos: int, depth: int) -> bool {
        self.0@ == data.subrange(pos, pos + 12)
    }

    fn parse(parser: &mut Parser<'a>) -> (r: Result<Self, ParseError>) {
        Ok(AssetCode12(parser.read_array_ref::<12>()?))
    }

    proof fn lemma_prefix(data: Seq<u8>, pos: int, depth: int, k: int) {
        lemma_fixed_prefix(data, pos, k);
    }
}

/// An asset code of either length.
#[derive(Debug, Clone, PartialEq, Eq)]
pub enum AssetCode<'a> {
    AssetCode4(AssetCode4<'a>),
    AssetCode12(AssetCode12<'a>),
}

impl<'a> XdrParse<'a> for AssetCode<'a> {
    open spec fn scan(data: Seq<u8>, pos: int, depth: int) -> Result<int, ParseError> {
        match AssetType::scan(data, pos, depth) {
            Err(e) => Err(e),
            Ok(p) => {
                if be_i32(data, pos) == 1 {
                    AssetCode4::scan(data, p, depth)
                } else if be_i32(data, pos) == 2 {
                    AssetCode12::scan(data, p, depth)
                } else {
                    Err(ParseError::InvalidType(be_i32(data, pos) as i32))
                }
            },
        }
    }

    open spec fn decoded_from(&self, data: Seq<u8>, pos: int, depth: int) -> bool {
        match self {
            AssetCode::AssetCode4(v0) => {
                &&& be_i32(data, pos) == 1
                &&& v0.decoded_from(data, pos + 4, depth)
            },
            AssetCode::AssetCode12(v0) => {
                &&& be_i32(data, pos) == 2
                &&& v0.decoded_from(data, pos + 4, depth)
            },
        }
    }

    fn parse(parser: &mut Parser<'a>) -> (r: Result<Self, ParseError>) {
        let kind = AssetType::parse(parser)?;
        match kind {
            AssetType::CreditAlphanum4 => {
                let v0 = AssetCode4::parse(parser)?;
                Ok(AssetCode::AssetCode4(v0))
            },
            AssetType::CreditAlphanum12 => {
                let v0 = AssetCode12::parse(parser)?;
                Ok(AssetCode::AssetCode12(v0))
            },
            _ => Err(ParseError::InvalidType(kind.code())),
        }
    }

    proof fn lemma_prefix(data: Seq<u8>, pos: int, depth: int, k: int) {
        AssetType::lemma_prefix(data, pos, depth, k);
        lemma_fixed_prefix(data, pos, k);
        if AssetType::scan(data, pos, depth) is Ok {
            let p = pos + 4;
            if be_i32(data, pos) == 1 {
                AssetCode4::lemma_prefix(data, p, depth, k);
            } else if be_i32(data, pos) == 2 {
                AssetCode12::lemma_prefix(data, p, depth, k);
            }
        }
    }
}

/// An issued asset with a short code.
#[derive(Debug, Clone, PartialEq, Eq)]
pub struct AlphaNum4<'a> {
    pub asset_code: AssetCode4<'a>,
    pub issuer: PublicKey<'a>,
}

impl<'a> XdrParse<'a> for AlphaNum4<'a> {
    open spec fn scan(data: Seq<u8>, pos: int, depth: int) -> Result<int, ParseError> {
        match AssetCode4::scan(data, pos, depth) {
            Err(e) => Err(e),
            Ok(p1) => {
                PublicKey::scan(data, p1, depth)
            },
        }
    }

    open spec fn decoded_from(&self, data: Seq<u8>, pos: int, depth: int) -> bool {
        &&& self.asset_code.decoded_from(data, pos, depth)
        &&& self.issuer.decoded_from(data, pos + 4, depth)
    }

    fn parse(parser: &mut Parser<'a>) -> (r: Result<Self, ParseError>) {
        let asset_code = AssetCode4::parse(parser)?;
        let issuer = PublicKey::parse(parser)?;
        Ok(AlphaNum4 { asset_code, issuer })
    }

    proof fn lemma_prefix(data: Seq<u8>, pos: int, depth: int, k: int) {
        AssetCode4::lemma_prefix(data, pos, depth, k);
        if AssetCode4::scan(data, pos, depth) is Ok {
            let p1 = AssetCode4::scan(data, pos, depth)->Ok_0;
            PublicKey::lemma_prefix(data, p1, depth, k);
        }
    }
}

/// An issued asset with a long code.
#[derive(Debug, Clone, PartialEq, Eq)]
pub struct AlphaNum12<'a> {
    pub asset_code: AssetCode12<'a>,
    pub issuer: PublicKey<'a>,
}

impl<'a> XdrParse<'a> for AlphaNum12<'a> {
    open spec fn scan(data: Seq<u8>, pos: int, depth: int) -> Result<int, ParseError> {
        match AssetCode12::scan(data, pos, depth) {
            Err(e) => Err(e),
            Ok(p1) => {
                PublicKey::scan(data, p1, depth)
            },
        }
    }

    open spec fn decoded_from(&self, data: Seq<u8>, pos: int, depth: int) -> bool {
        &&& self.asset_code.decoded_from(data, pos, depth)
        &&& self.issuer.decoded_from(data, pos + 12, depth)
    }

    fn parse(parser: &mut Parser<'a>) -> (r: Result<Self, ParseError>) {
        let asset_code = AssetCode12::parse(parser)?;
        let issuer = PublicKey::parse(parser)?;
        Ok(AlphaNum12 { asset_code, issuer })
    }

    proof fn lemma_prefix(data: Seq<u8>, pos: int, depth: int, k: int) {
        AssetCode12::lemma_prefix(data, pos, depth, k);
        if AssetCode12::scan(data, pos, depth) is Ok {
            let p1 = AssetCode12::scan(data, pos, depth)->Ok_0;
            PublicKey::lemma_prefix(data, p1, depth, k);
        }
    }
}

/// The index of the first zero byte of `code` at or after `i`, or the
/// length of `code`.
pub open spec fn first_zero(code: Seq<u8>, i: int) -> int
    decreases code.len() - i,
{
    if i < 0 || i >= code.len() {
        code.len() as int
    } else if code[i] == 0 {
        i
    } else {
        first_zero(code, i + 1)
    }
}

/// Whether `text` is the code that the bytes of `code` up to the first
/// zero byte hold: those bytes as text, or a note where they are no text.
pub open spec fn is_code_text(text: &str, code: Seq<u8>) -> bool {
    let bytes = code.subrange(0, first_zero(code, 0));
    if valid_utf8(bytes) {
        text.spec_bytes() == bytes
    } else {
        text@ == "<invalid>"@
    }
}

fn code_text<'a>(code: &'a [u8]) -> (r: &'a str)
    ensures
        is_code_text(r, code@),
{
    let n = code.len();
    let mut len: usize = 0;
    while len < n && code[len] != 0
        invariant
            len <= n,
            n == code@.len(),
            first_zero(code@, 0) == first_zero(code@, len as int),
        decreases n - len,
    {
        len += 1;
    }
    match utf8_text(vstd::slice::slice_subrange(code, 0, len)) {
        Some(s) => s,
        None => "<invalid>",
    }
}

impl<'a> AlphaNum4<'a> {
    /// The asset's code up to its first zero byte, as text.
    pub fn code_str(&self) -> (r: &'a str)
        ensures
            is_code_text(r, self.asset_code.0@),
    {
        code_text(self.asset_code.0.as_slice())
    }
}

impl<'a> AlphaNum12<'a> {
    /// The asset's code up to its first zero byte, as text.
    pub fn code_str(&self) -> (r: &'a str)
        ensures
            is_code_text(r, self.asset_code.0@),
    {
        code_text(self.asset_code.0.as_slice())
    }
}

/// An asset: the native one or an issued one.
#[derive(Debug, Clone, PartialEq, Eq)]
pub enum Asset<'a> {
    Native,
    CreditAlphanum4(AlphaNum4<'a>),
    CreditAlphanum12(AlphaNum12<'a>),
}

impl<'a> XdrParse<'a> for Asset<'a> {
    open spec fn scan(data: Seq<u8>, pos: int, depth: int) -> Result<int, ParseError> {
        match AssetType::scan(data, pos, depth) {
            Err(e) => Err(e),
            Ok(p) => {
                if be_i32(data, pos) == 0 {
                    Ok(p)
                } else if be_i32(data, pos) == 1 {
                    AlphaNum4::scan(data, p, depth)
                } else if be_i32(data, pos) == 2 {
                    AlphaNum12::scan(data, p, depth)
                } else {
                    Err(ParseError::InvalidType(be_i32(data, pos) as i32))
                }
            },
        }
    }

    open spec fn decoded_from(&self, data: Seq<u8>, pos: int, depth: int) -> bool {
        match self {
            Asset::Native => be_i32(data, pos) == 0,
            Asset::CreditAlphanum4(v0) => {
                &&& be_i32(data, pos) == 1
                &&& v0.decoded_from(data, pos + 4, depth)
            },
            Asset::CreditAlphanum12(v0) => {
                &&& be_i32(data, pos) == 2
                &&& v0.decoded_from(data, pos + 4, depth)
            },
        }
    }

    fn parse(parser: &mut Parser<'a>) -> (r: Result<Self, ParseError>) {
        let kind = AssetType::parse(parser)?;
        match kind {
            AssetType::Native => {
                Ok(Asset::Native)
            },
            AssetType::CreditAlphanum4 => {
                let v0 = AlphaNum4::parse(parser)?;
                Ok(Asset::CreditAlphanum4(v0))
            },
            AssetType::CreditAlphanum12 => {
                let v0 = AlphaNum12::parse(parser)?;
                Ok(Asset::CreditAlphanum12(v0))
            },
            _ => Err(ParseError::InvalidType(kind.code())),
        }
    }

    proof fn lemma_prefix(data: Seq<u8>, pos: int, depth: int, k: int) {
        AssetType::lemma_prefix(data, pos, depth, k);
        lemma_fixed_prefix(data, pos, k);
        if AssetType::scan(data, pos, depth) is Ok {
            let p = pos + 4;
            if be_i32(data, pos) == 1 {
                AlphaNum4::lemma_prefix(data, p, depth, k);
            } else if be_i32(data, pos) == 2 {
                AlphaNum12::lemma_prefix(data, p, depth, k);
            }
        }
    }
}

impl<'a> Asset<'a> {
    /// Whether this is the native asset.
    pub fn is_native(&self) -> (b: bool)
        ensures
            b == (self is Native),
    {
        match self {
            Asset::Native => true,
            _ => false,
        }
    }

    /// The asset's code as text: `XLM` for the native asset.
    pub fn code(&self) -> (r: &'a str)
        ensures
            match self {
                Asset::Native => r@ == "XLM"@,
                Asset::CreditAlphanum4(a) => is_code_text(r, a.asset_code.0@),
                Asset::CreditAlphanum12(a) => is_code_text(r, a.asset_code.0@),
            },
    {
        match self {
            Asset::Native => "XLM",
            Asset::CreditAlphanum4(a) => a.code_str(),
            Asset::CreditAlphanum12(a) => a.code_str(),
        }
    }
}

} // verus!

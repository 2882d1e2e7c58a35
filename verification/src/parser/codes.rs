//! The integer codes of the wire format: discriminants of unions and bits
//! of flag words.

use super::codec::XdrParse;
use super::cursor::{be_i32, lemma_fixed_prefix, scan_code, ParseError, Parser};
use vstd::prelude::*;

verus! {

/// The bits of an account's authorization flags.
#[derive(Debug, Clone, Copy, PartialEq, Eq)]
pub enum AccountFlags {
    RequiredFlag,
    RevocableFlag,
    ImmutableFlag,
    ClawbackEnabledFlag,
}

impl AccountFlags {
    /// The code that stands for this variant on the wire.
    pub open spec fn code_of(self) -> int {
        match self {
            AccountFlags::RequiredFlag => 1,
            AccountFlags::RevocableFlag => 2,
            AccountFlags::ImmutableFlag => 4,
            AccountFlags::ClawbackEnabledFlag => 8,
        }
    }

    /// The variant that a code stands for, if any.
    pub open spec fn from_code(code: int) -> Option<Self> {
        if code == 1 {
            Some(AccountFlags::RequiredFlag)
        } else if code == 2 {
            Some(AccountFlags::RevocableFlag)
        } else if code == 4 {
            Some(AccountFlags::ImmutableFlag)
        } else if code == 8 {
            Some(AccountFlags::ClawbackEnabledFlag)
        } else {
            None
        }
    }

    /// The code that stands for this variant on the wire.
    pub fn code(&self) -> (c: i32)
        ensures
            c == self.code_of(),
    {
        match self {
            AccountFlags::RequiredFlag => 1,
            AccountFlags::RevocableFlag => 2,
            AccountFlags::ImmutableFlag => 4,
            AccountFlags::ClawbackEnabledFlag => 8,
        }
    }

    /// The variant that a code stands for; any other code is of an invalid type.
    pub fn from_i32(value: i32) -> (r: Result<Self, ParseError>)
        ensures
            r == match Self::from_code(value as int) {
                Some(k) => Ok::<Self, ParseError>(k),
                None => Err::<Self, ParseError>(ParseError::InvalidType(value)),
            },
            r matches Ok(k) ==> k.code_of() == value,
    {
        if value == 1 {
            Ok(AccountFlags::RequiredFlag)
        } else if value == 2 {
            Ok(AccountFlags::RevocableFlag)
        } else if value == 4 {
            Ok(AccountFlags::ImmutableFlag)
        } else if value == 8 {
            Ok(AccountFlags::ClawbackEnabledFlag)
        } else {
            Err(ParseError::InvalidType(value))
        }
    }
}

/// The kinds of memo.
#[derive(Debug, Clone, Copy, PartialEq, Eq)]
pub enum MemoType {
    MemoNone,
    Text,
    Id,
    Hash,
    Return,
}

impl MemoType {
    /// The code that stands for this variant on the wire.
    pub open spec fn code_of(self) -> int {
        match self {
            MemoType::MemoNone => 0,
            MemoType::Text => 1,
            MemoType::Id => 2,
            MemoType::Hash => 3,
            MemoType::Return => 4,
        }
    }

    /// The variant that a code stands for, if any.
    pub open spec fn from_code(code: int) -> Option<Self> {
        if code == 0 {
            Some(MemoType::MemoNone)
        } else if code == 1 {
            Some(MemoType::Text)
        } else if code == 2 {
            Some(MemoType::Id)
        } else if code == 3 {
            Some(MemoType::Hash)
        } else if code == 4 {
            Some(MemoType::Return)
        } else {
            None
        }
    }

    /// The code that stands for this variant on the wire.
    pub fn code(&self) -> (c: i32)
        ensures
            c == self.code_of(),
    {
        match self {
            MemoType::MemoNone => 0,
            MemoType::Text => 1,
            MemoType::Id => 2,
            MemoType::Hash => 3,
            MemoType::Return => 4,
        }
    }

    /// The variant that a code stands for; any other code is of an invalid type.
    pub fn from_i32(value: i32) -> (r: Result<Self, ParseError>)
        ensures
            r == match Self::from_code(value as int) {
                Some(k) => Ok::<Self, ParseError>(k),
                None => Err::<Self, ParseError>(ParseError::InvalidType(value)),
            },
            r matches Ok(k) ==> k.code_of() == value,
    {
        if value == 0 {
            Ok(MemoType::MemoNone)
        } else if value == 1 {
            Ok(MemoType::Text)
        } else if value == 2 {
            Ok(MemoType::Id)
        } else if value == 3 {
            Ok(MemoType::Hash)
        } else if value == 4 {
            Ok(MemoType::Return)
        } else {
            Err(ParseError::InvalidType(value))
        }
    }
}

impl<'a> XdrParse<'a> for MemoType {
    open spec fn scan(data: Seq<u8>, pos: int, depth: int) -> Result<int, ParseError> {
        scan_code(data, pos, Self::from_code(be_i32(data, pos)) is Some)
    }

    open spec fn decoded_from(&self, data: Seq<u8>, pos: int, depth: int) -> bool {
        self.code_of() == be_i32(data, pos)
    }

    fn parse(parser: &mut Parser<'a>) -> (r: Result<Self, ParseError>) {
        let value = parser.parse_int32()?;
        Self::from_i32(value)
    }

    proof fn lemma_prefix(data: Seq<u8>, pos: int, depth: int, k: int) {
        lemma_fixed_prefix(data, pos, k);
    }
}

/// The kinds of key that the ledger knows.
#[derive(Debug, Clone, Copy, PartialEq, Eq)]
pub enum CryptoKeyType {
    KeyTypeEd25519,
    KeyTypePreAuthTx,
    KeyTypeHashX,
    KeyTypeEd25519SignedPayload,
    KeyTypeMuxedEd25519,
}

impl CryptoKeyType {
    /// The code that stands for this variant on the wire.
    pub open spec fn code_of(self) -> int {
        match self {
            CryptoKeyType::KeyTypeEd25519 => 0,
            CryptoKeyType::KeyTypePreAuthTx => 1,
            CryptoKeyType::KeyTypeHashX => 2,
            CryptoKeyType::KeyTypeEd25519SignedPayload => 3,
            CryptoKeyType::KeyTypeMuxedEd25519 => 256,
        }
    }

    /// The variant that a code stands for, if any.
    pub open spec fn from_code(code: int) -> Option<Self> {
        if code == 0 {
            Some(CryptoKeyType::KeyTypeEd25519)
        } else if code == 1 {
            Some(CryptoKeyType::KeyTypePreAuthTx)
        } else if code == 2 {
            Some(CryptoKeyType::KeyTypeHashX)
        } else if code == 3 {
            Some(CryptoKeyType::KeyTypeEd25519SignedPayload)
        } else if code == 256 {
            Some(CryptoKeyType::KeyTypeMuxedEd25519)
        } else {
            None
        }
    }

    /// The code that stands for this variant on the wire.
    pub fn code(&self) -> (c: i32)
        ensures
            c == self.code_of(),
    {
        match self {
            CryptoKeyType::KeyTypeEd25519 => 0,
            CryptoKeyType::KeyTypePreAuthTx => 1,
            CryptoKeyType::KeyTypeHashX => 2,
            CryptoKeyType::KeyTypeEd25519SignedPayload => 3,
            CryptoKeyType::KeyTypeMuxedEd25519 => 256,
        }
    }

    /// The variant that a code stands for; any other code is of an invalid type.
    pub fn from_i32(value: i32) -> (r: Result<Self, ParseError>)
        ensures
            r == match Self::from_code(value as int) {
                Some(k) => Ok::<Self, ParseError>(k),
                None => Err::<Self, ParseError>(ParseError::InvalidType(value)),
            },
            r matches Ok(k) ==> k.code_of() == value,
    {
        if value == 0 {
            Ok(CryptoKeyType::KeyTypeEd25519)
        } else if value == 1 {
            Ok(CryptoKeyType::KeyTypePreAuthTx)
        } else if value == 2 {
            Ok(CryptoKeyType::KeyTypeHashX)
        } else if value == 3 {
            Ok(CryptoKeyType::KeyTypeEd25519SignedPayload)
        } else if value == 256 {
            Ok(CryptoKeyType::KeyTypeMuxedEd25519)
        } else {
            Err(ParseError::InvalidType(value))
        }
    }
}

impl<'a> XdrParse<'a> for CryptoKeyType {
    open spec fn scan(data: Seq<u8>, pos: int, depth: int) -> Result<int, ParseError> {
        scan_code(data, pos, Self::from_code(be_i32(data, pos)) is Some)
    }

    open spec fn decoded_from(&self, data: Seq<u8>, pos: int, depth: int) -> bool {
        self.code_of() == be_i32(data, pos)
    }

    fn parse(parser: &mut Parser<'a>) -> (r: Result<Self, ParseError>) {
        let value = parser.parse_int32()?;
        Self::from_i32(value)
    }

    proof fn lemma_prefix(data: Seq<u8>, pos: int, depth: int, k: int) {
        lemma_fixed_prefix(data, pos, k);
    }
}

/// The kinds of signer key.
#[derive(Debug, Clone, Copy, PartialEq, Eq)]
pub enum SignerKeyType {
    SignerKeyTypeEd25519,
    SignerKeyTypePreAuthTx,
    SignerKeyTypeHashX,
    SignerKeyTypeEd25519SignedPayload,
}

impl SignerKeyType {
    /// The code that stands for this variant on the wire.
    pub open spec fn code_of(self) -> int {
        match self {
            SignerKeyType::SignerKeyTypeEd25519 => 0,
            SignerKeyType::SignerKeyTypePreAuthTx => 1,
            SignerKeyType::SignerKeyTypeHashX => 2,
            SignerKeyType::SignerKeyTypeEd25519SignedPayload => 3,
        }
    }

    /// The variant that a code stands for, if any.
    pub open spec fn from_code(code: int) -> Option<Self> {
        if code == 0 {
            Some(SignerKeyType::SignerKeyTypeEd25519)
        } else if code == 1 {
            Some(SignerKeyType::SignerKeyTypePreAuthTx)
        } else if code == 2 {
            Some(SignerKeyType::SignerKeyTypeHashX)
        } else if code == 3 {
            Some(SignerKeyType::SignerKeyTypeEd25519SignedPayload)
        } else {
            None
        }
    }

    /// The code that stands for this variant on the wire.
    pub fn code(&self) -> (c: i32)
        ensures
            c == self.code_of(),
    {
        match self {
            SignerKeyType::SignerKeyTypeEd25519 => 0,
            SignerKeyType::SignerKeyTypePreAuthTx => 1,
            SignerKeyType::SignerKeyTypeHashX => 2,
            SignerKeyType::SignerKeyTypeEd25519SignedPayload => 3,
        }
    }

    /// The variant that a code stands for; any other code is of an invalid type.
    pub fn from_i32(value: i32) -> (r: Result<Self, ParseError>)
        ensures
            r == match Self::from_code(value as int) {
                Some(k) => Ok::<Self, ParseError>(k),
                None => Err::<Self, ParseError>(ParseError::InvalidType(value)),
            },
            r matches Ok(k) ==> k.code_of() == value,
    {
        if value == 0 {
            Ok(SignerKeyType::SignerKeyTypeEd25519)
        } else if value == 1 {
            Ok(SignerKeyType::SignerKeyTypePreAuthTx)
        } else if value == 2 {
            Ok(SignerKeyType::SignerKeyTypeHashX)
        } else if value == 3 {
            Ok(SignerKeyType::SignerKeyTypeEd25519SignedPayload)
        } else {
            Err(ParseError::InvalidType(value))
        }
    }
}

impl<'a> XdrParse<'a> for SignerKeyType {
    open spec fn scan(data: Seq<u8>, pos: int, depth: int) -> Result<int, ParseError> {
        scan_code(data, pos, Self::from_code(be_i32(data, pos)) is Some)
    }

    open spec fn decoded_from(&self, data: Seq<u8>, pos: int, depth: int) -> bool {
        self.code_of() == be_i32(data, pos)
    }

    fn parse(parser: &mut Parser<'a>) -> (r: Result<Self, ParseError>) {
        let value = parser.parse_int32()?;
        Self::from_i32(value)
    }

    proof fn lemma_prefix(data: Seq<u8>, pos: int, depth: int, k: int) {
        lemma_fixed_prefix(data, pos, k);
    }
}

/// The kinds of public key.
#[derive(Debug, Clone, Copy, PartialEq, Eq)]
pub enum PublicKeyType {
    PublicKeyTypeEd25519,
}

impl PublicKeyType {
    /// The code that stands for this variant on the wire.
    pub open spec fn code_of(self) -> int {
        match self {
            PublicKeyType::PublicKeyTypeEd25519 => 0,
        }
    }

    /// The variant that a code stands for, if any.
    pub open spec fn from_code(code: int) -> Option<Self> {
        if code == 0 {
            Some(PublicKeyType::PublicKeyTypeEd25519)
        } else {
            None
        }
    }

    /// The code that stands for this variant on the wire.
    pub fn code(&self) -> (c: i32)
        ensures
            c == self.code_of(),
    {
        match self {
            PublicKeyType::PublicKeyTypeEd25519 => 0,
        }
    }

    /// The variant that a code stands for; any other code is of an invalid type.
    pub fn from_i32(value: i32) -> (r: Result<Self, ParseError>)
        ensures
            r == match Self::from_code(value as int) {
                Some(k) => Ok::<Self, ParseError>(k),
                None => Err::<Self, ParseError>(ParseError::InvalidType(value)),
            },
            r matches Ok(k) ==> k.code_of() == value,
    {
        if value == 0 {
            Ok(PublicKeyType::PublicKeyTypeEd25519)
        } else {
            Err(ParseError::InvalidType(value))
        }
    }
}

impl<'a> XdrParse<'a> for PublicKeyType {
    open spec fn scan(data: Seq<u8>, pos: int, depth: int) -> Result<int, ParseError> {
        scan_code(data, pos, Self::from_code(be_i32(data, pos)) is Some)
    }

    open spec fn decoded_from(&self, data: Seq<u8>, pos: int, depth: int) -> bool {
        self.code_of() == be_i32(data, pos)
    }

    fn parse(parser: &mut Parser<'a>) -> (r: Result<Self, ParseError>) {
        let value = parser.parse_int32()?;
        Self::from_i32(value)
    }

    proof fn lemma_prefix(data: Seq<u8>, pos: int, depth: int, k: int) {
        lemma_fixed_prefix(data, pos, k);
    }
}

/// The kinds of asset.
#[derive(Debug, Clone, Copy, PartialEq, Eq)]
pub enum AssetType {
    Native,
    CreditAlphanum4,
    CreditAlphanum12,
    PoolShare,
}

impl AssetType {
    /// The code that stands for this variant on the wire.
    pub open spec fn code_of(self) -> int {
        match self {
            AssetType::Native => 0,
            AssetType::CreditAlphanum4 => 1,
            AssetType::CreditAlphanum12 => 2,
            AssetType::PoolShare => 3,
        }
    }

    /// The variant that a code stands for, if any.
    pub open spec fn from_code(code: int) -> Option<Self> {
        if code == 0 {
            Some(AssetType::Native)
        } else if code == 1 {
            Some(AssetType::CreditAlphanum4)
        } else if code == 2 {
            Some(AssetType::CreditAlphanum12)
        } else if code == 3 {
            Some(AssetType::PoolShare)
        } else {
            None
        }
    }

    /// The code that stands for this variant on the wire.
    pub fn code(&self) -> (c: i32)
        ensures
            c == self.code_of(),
    {
        match self {
            AssetType::Native => 0,
            AssetType::CreditAlphanum4 => 1,
            AssetType::CreditAlphanum12 => 2,
            AssetType::PoolShare => 3,
        }
    }

    /// The variant that a code stands for; any other code is of an invalid type.
    pub fn from_i32(value: i32) -> (r: Result<Self, ParseError>)
        ensures
            r == match Self::from_code(value as int) {
                Some(k) => Ok::<Self, ParseError>(k),
                None => Err::<Self, ParseError>(ParseError::InvalidType(value)),
            },
            r matches Ok(k) ==> k.code_of() == value,
    {
        if value == 0 {
            Ok(AssetType::Native)
        } else if value == 1 {
            Ok(AssetType::CreditAlphanum4)
        } else if value == 2 {
            Ok(AssetType::CreditAlphanum12)
        } else if value == 3 {
            Ok(AssetType::PoolShare)
        } else {
            Err(ParseError::InvalidType(value))
        }
    }
}

impl<'a> XdrParse<'a> for AssetType {
    open spec fn scan(data: Seq<u8>, pos: int, depth: int) -> Result<int, ParseError> {
        scan_code(data, pos, Self::from_code(be_i32(data, pos)) is Some)
    }

    open spec fn decoded_from(&self, data: Seq<u8>, pos: int, depth: int) -> bool {
        self.code_of() == be_i32(data, pos)
    }

    fn parse(parser: &mut Parser<'a>) -> (r: Result<Self, ParseError>) {
        let value = parser.parse_int32()?;
        Self::from_i32(value)
    }

    proof fn lemma_prefix(data: Seq<u8>, pos: int, depth: int, k: int) {
        lemma_fixed_prefix(data, pos, k);
    }
}

/// The kinds of transaction precondition.
#[derive(Debug, Clone, Copy, PartialEq, Eq)]
pub enum PreconditionType {
    PrecondNone,
    Time,
    V2,
}

impl PreconditionType {
    /// The code that stands for this variant on the wire.
    pub open spec fn code_of(self) -> int {
        match self {
            PreconditionType::PrecondNone => 0,
            PreconditionType::Time => 1,
            PreconditionType::V2 => 2,
        }
    }

    /// The variant that a code stands for, if any.
    pub open spec fn from_code(code: int) -> Option<Self> {
        if code == 0 {
            Some(PreconditionType::PrecondNone)
        } else if code == 1 {
            Some(PreconditionType::Time)
        } else if code == 2 {
            Some(PreconditionType::V2)
        } else {
            None
        }
    }

    /// The code that stands for this variant on the wire.
    pub fn code(&self) -> (c: i32)
        ensures
            c == self.code_of(),
    {
        match self {
            PreconditionType::PrecondNone => 0,
            PreconditionType::Time => 1,
            PreconditionType::V2 => 2,
        }
    }

    /// The variant that a code stands for; any other code is of an invalid type.
    pub fn from_i32(value: i32) -> (r: Result<Self, ParseError>)
        ensures
            r == match Self::from_code(value as int) {
                Some(k) => Ok::<Self, ParseError>(k),
                None => Err::<Self, ParseError>(ParseError::InvalidType(value)),
            },
            r matches Ok(k) ==> k.code_of() == value,
    {
        if value == 0 {
            Ok(PreconditionType::PrecondNone)
        } else if value == 1 {
            Ok(PreconditionType::Time)
        } else if value == 2 {
            Ok(PreconditionType::V2)
        } else {
            Err(ParseError::InvalidType(value))
        }
    }
}

impl<'a> XdrParse<'a> for PreconditionType {
    open spec fn scan(data: Seq<u8>, pos: int, depth: int) -> Result<int, ParseError> {
        scan_code(data, pos, Self::from_code(be_i32(data, pos)) is Some)
    }

    open spec fn decoded_from(&self, data: Seq<u8>, pos: int, depth: int) -> bool {
        self.code_of() == be_i32(data, pos)
    }

    fn parse(parser: &mut Parser<'a>) -> (r: Result<Self, ParseError>) {
        let value = parser.parse_int32()?;
        Self::from_i32(value)
    }

    proof fn lemma_prefix(data: Seq<u8>, pos: int, depth: int, k: int) {
        lemma_fixed_prefix(data, pos, k);
    }
}

/// The kinds of envelope and of signed payload.
#[derive(Debug, Clone, Copy, PartialEq, Eq)]
pub enum EnvelopeType {
    EnvelopeTypeTxV0,
    EnvelopeTypeScp,
    EnvelopeTypeTx,
    EnvelopeTypeAuth,
    EnvelopeTypeScpvalue,
    EnvelopeTypeTxFeeBump,
    EnvelopeTypeOpId,
    EnvelopeTypePoolRevokeOpId,
    EnvelopeTypeContractId,
    EnvelopeTypeSorobanAuthorization,
}

impl EnvelopeType {
    /// The code that stands for this variant on the wire.
    pub open spec fn code_of(self) -> int {
        match self {
            EnvelopeType::EnvelopeTypeTxV0 => 0,
            EnvelopeType::EnvelopeTypeScp => 1,
            EnvelopeType::EnvelopeTypeTx => 2,
            EnvelopeType::EnvelopeTypeAuth => 3,
            EnvelopeType::EnvelopeTypeScpvalue => 4,
            EnvelopeType::EnvelopeTypeTxFeeBump => 5,
            EnvelopeType::EnvelopeTypeOpId => 6,
            EnvelopeType::EnvelopeTypePoolRevokeOpId => 7,
            EnvelopeType::EnvelopeTypeContractId => 8,
            EnvelopeType::EnvelopeTypeSorobanAuthorization => 9,
        }
    }

    /// The variant that a code stands for, if any.
    pub open spec fn from_code(code: int) -> Option<Self> {
        if code == 0 {
            Some(EnvelopeType::EnvelopeTypeTxV0)
        } else if code == 1 {
            Some(EnvelopeType::EnvelopeTypeScp)
        } else if code == 2 {
            Some(EnvelopeType::EnvelopeTypeTx)
        } else if code == 3 {
            Some(EnvelopeType::EnvelopeTypeAuth)
        } else if code == 4 {
            Some(EnvelopeType::EnvelopeTypeScpvalue)
        } else if code == 5 {
            Some(EnvelopeType::EnvelopeTypeTxFeeBump)
        } else if code == 6 {
            Some(EnvelopeType::EnvelopeTypeOpId)
        } else if code == 7 {
            Some(EnvelopeType::EnvelopeTypePoolRevokeOpId)
        } else if code == 8 {
            Some(EnvelopeType::EnvelopeTypeContractId)
        } else if code == 9 {
            Some(EnvelopeType::EnvelopeTypeSorobanAuthorization)
        } else {
            None
        }
    }

    /// The code that stands for this variant on the wire.
    pub fn code(&self) -> (c: i32)
        ensures
            c == self.code_of(),
    {
        match self {
            EnvelopeType::EnvelopeTypeTxV0 => 0,
            EnvelopeType::EnvelopeTypeScp => 1,
            EnvelopeType::EnvelopeTypeTx => 2,
            EnvelopeType::EnvelopeTypeAuth => 3,
            EnvelopeType::EnvelopeTypeScpvalue => 4,
            EnvelopeType::EnvelopeTypeTxFeeBump => 5,
            EnvelopeType::EnvelopeTypeOpId => 6,
            EnvelopeType::EnvelopeTypePoolRevokeOpId => 7,
            EnvelopeType::EnvelopeTypeContractId => 8,
            EnvelopeType::EnvelopeTypeSorobanAuthorization => 9,
        }
    }

    /// The variant that a code stands for; any other code is of an invalid type.
    pub fn from_i32(value: i32) -> (r: Result<Self, ParseError>)
        ensures
            r == match Self::from_code(value as int) {
                Some(k) => Ok::<Self, ParseError>(k),
                None => Err::<Self, ParseError>(ParseError::InvalidType(value)),
            },
            r matches Ok(k) ==> k.code_of() == value,
    {
        if value == 0 {
            Ok(EnvelopeType::EnvelopeTypeTxV0)
        } else if value == 1 {
            Ok(EnvelopeType::EnvelopeTypeScp)
        } else if value == 2 {
            Ok(EnvelopeType::EnvelopeTypeTx)
        } else if value == 3 {
            Ok(EnvelopeType::EnvelopeTypeAuth)
        } else if value == 4 {
            Ok(EnvelopeType::EnvelopeTypeScpvalue)
        } else if value == 5 {
            Ok(EnvelopeType::EnvelopeTypeTxFeeBump)
        } else if value == 6 {
            Ok(EnvelopeType::EnvelopeTypeOpId)
        } else if value == 7 {
            Ok(EnvelopeType::EnvelopeTypePoolRevokeOpId)
        } else if value == 8 {
            Ok(EnvelopeType::EnvelopeTypeContractId)
        } else if value == 9 {
            Ok(EnvelopeType::EnvelopeTypeSorobanAuthorization)
        } else {
            Err(ParseError::InvalidType(value))
        }
    }
}

impl<'a> XdrParse<'a> for EnvelopeType {
    open spec fn scan(data: Seq<u8>, pos: int, depth: int) -> Result<int, ParseError> {
        scan_code(data, pos, Self::from_code(be_i32(data, pos)) is Some)
    }

    open spec fn decoded_from(&self, data: Seq<u8>, pos: int, depth: int) -> bool {
        self.code_of() == be_i32(data, pos)
    }

    fn parse(parser: &mut Parser<'a>) -> (r: Result<Self, ParseError>) {
        let value = parser.parse_int32()?;
        Self::from_i32(value)
    }

    proof fn lemma_prefix(data: Seq<u8>, pos: int, depth: int, k: int) {
        lemma_fixed_prefix(data, pos, k);
    }
}

/// The kinds of claimable balance identifier.
#[derive(Debug, Clone, Copy, PartialEq, Eq)]
pub enum ClaimableBalanceIdType {
    ClaimableBalanceIdTypeV0,
}

impl ClaimableBalanceIdType {
    /// The code that stands for this variant on the wire.
    pub open spec fn code_of(self) -> int {
        match self {
            ClaimableBalanceIdType::ClaimableBalanceIdTypeV0 => 0,
        }
    }

    /// The variant that a code stands for, if any.
    pub open spec fn from_code(code: int) -> Option<Self> {
        if code == 0 {
            Some(ClaimableBalanceIdType::ClaimableBalanceIdTypeV0)
        } else {
            None
        }
    }

    /// The code that stands for this variant on the wire.
    pub fn code(&self) -> (c: i32)
        ensures
            c == self.code_of(),
    {
        match self {
            ClaimableBalanceIdType::ClaimableBalanceIdTypeV0 => 0,
        }
    }

    /// The variant that a code stands for; any other code is of an invalid type.
    pub fn from_i32(value: i32) -> (r: Result<Self, ParseError>)
        ensures
            r == match Self::from_code(value as int) {
                Some(k) => Ok::<Self, ParseError>(k),
                None => Err::<Self, ParseError>(ParseError::InvalidType(value)),
            },
            r matches Ok(k) ==> k.code_of() == value,
    {
        if value == 0 {
            Ok(ClaimableBalanceIdType::ClaimableBalanceIdTypeV0)
        } else {
            Err(ParseError::InvalidType(value))
        }
    }
}

impl<'a> XdrParse<'a> for ClaimableBalanceIdType {
    open spec fn scan(data: Seq<u8>, pos: int, depth: int) -> Result<int, ParseError> {
        scan_code(data, pos, Self::from_code(be_i32(data, pos)) is Some)
    }

    open spec fn decoded_from(&self, data: Seq<u8>, pos: int, depth: int) -> bool {
        self.code_of() == be_i32(data, pos)
    }

    fn parse(parser: &mut Parser<'a>) -> (r: Result<Self, ParseError>) {
        let value = parser.parse_int32()?;
        Self::from_i32(value)
    }

    proof fn lemma_prefix(data: Seq<u8>, pos: int, depth: int, k: int) {
        lemma_fixed_prefix(data, pos, k);
    }
}

/// The kinds of contract address.
#[derive(Debug, Clone, Copy, PartialEq, Eq)]
pub enum ScAddressType {
    ScAddressTypeAccount,
    ScAddressTypeContract,
    ScAddressTypeMuxedAccount,
    ScAddressTypeClaimableBalance,
    ScAddressTypeLiquidityPool,
}

impl ScAddressType {
    /// The code that stands for this variant on the wire.
    pub open spec fn code_of(self) -> int {
        match self {
            ScAddressType::ScAddressTypeAccount => 0,
            ScAddressType::ScAddressTypeContract => 1,
            ScAddressType::ScAddressTypeMuxedAccount => 2,
            ScAddressType::ScAddressTypeClaimableBalance => 3,
            ScAddressType::ScAddressTypeLiquidityPool => 4,
        }
    }

    /// The variant that a code stands for, if any.
    pub open spec fn from_code(code: int) -> Option<Self> {
        if code == 0 {
            Some(ScAddressType::ScAddressTypeAccount)
        } else if code == 1 {
            Some(ScAddressType::ScAddressTypeContract)
        } else if code == 2 {
            Some(ScAddressType::ScAddressTypeMuxedAccount)
        } else if code == 3 {
            Some(ScAddressType::ScAddressTypeClaimableBalance)
        } else if code == 4 {
            Some(ScAddressType::ScAddressTypeLiquidityPool)
        } else {
            None
        }
    }

    /// The code that stands for this variant on the wire.
    pub fn code(&self) -> (c: i32)
        ensures
            c == self.code_of(),
    {
        match self {
            ScAddressType::ScAddressTypeAccount => 0,
            ScAddressType::ScAddressTypeContract => 1,
            ScAddressType::ScAddressTypeMuxedAccount => 2,
            ScAddressType::ScAddressTypeClaimableBalance => 3,
            ScAddressType::ScAddressTypeLiquidityPool => 4,
        }
    }

    /// The variant that a code stands for; any other code is of an invalid type.
    pub fn from_i32(value: i32) -> (r: Result<Self, ParseError>)
        ensures
            r == match Self::from_code(value as int) {
                Some(k) => Ok::<Self, ParseError>(k),
                None => Err::<Self, ParseError>(ParseError::InvalidType(value)),
            },
            r matches Ok(k) ==> k.code_of() == value,
    {
        if value == 0 {
            Ok(ScAddressType::ScAddressTypeAccount)
        } else if value == 1 {
            Ok(ScAddressType::ScAddressTypeContract)
        } else if value == 2 {
            Ok(ScAddressType::ScAddressTypeMuxedAccount)
        } else if value == 3 {
            Ok(ScAddressType::ScAddressTypeClaimableBalance)
        } else if value == 4 {
            Ok(ScAddressType::ScAddressTypeLiquidityPool)
        } else {
            Err(ParseError::InvalidType(value))
        }
    }
}

impl<'a> XdrParse<'a> for ScAddressType {
    open spec fn scan(data: Seq<u8>, pos: int, depth: int) -> Result<int, ParseError> {
        scan_code(data, pos, Self::from_code(be_i32(data, pos)) is Some)
    }

    open spec fn decoded_from(&self, data: Seq<u8>, pos: int, depth: int) -> bool {
        self.code_of() == be_i32(data, pos)
    }

    fn parse(parser: &mut Parser<'a>) -> (r: Result<Self, ParseError>) {
        let value = parser.parse_int32()?;
        Self::from_i32(value)
    }

    proof fn lemma_prefix(data: Seq<u8>, pos: int, depth: int, k: int) {
        lemma_fixed_prefix(data, pos, k);
    }
}

/// The kinds of contract value.
#[derive(Debug, Clone, Copy, PartialEq, Eq)]
pub enum ScValType {
    ScvBool,
    ScvVoid,
    ScvError,
    ScvU32,
    ScvI32,
    ScvU64,
    ScvI64,
    ScvTimepoint,
    ScvDuration,
    ScvU128,
    ScvI128,
    ScvU256,
    ScvI256,
    ScvBytes,
    ScvString,
    ScvSymbol,
    ScvVec,
    ScvMap,
    ScvAddress,
    ScvContractInstance,
    ScvLedgerKeyContractInstance,
    ScvLedgerKeyNonce,
}

impl ScValType {
    /// The code that stands for this variant on the wire.
    pub open spec fn code_of(self) -> int {
        match self {
            ScValType::ScvBool => 0,
            ScValType::ScvVoid => 1,
            ScValType::ScvError => 2,
            ScValType::ScvU32 => 3,
            ScValType::ScvI32 => 4,
            ScValType::ScvU64 => 5,
            ScValType::ScvI64 => 6,
            ScValType::ScvTimepoint => 7,
            ScValType::ScvDuration => 8,
            ScValType::ScvU128 => 9,
            ScValType::ScvI128 => 10,
            ScValType::ScvU256 => 11,
            ScValType::ScvI256 => 12,
            ScValType::ScvBytes => 13,
            ScValType::ScvString => 14,
            ScValType::ScvSymbol => 15,
            ScValType::ScvVec => 16,
            ScValType::ScvMap => 17,
            ScValType::ScvAddress => 18,
            ScValType::ScvContractInstance => 19,
            ScValType::ScvLedgerKeyContractInstance => 20,
            ScValType::ScvLedgerKeyNonce => 21,
        }
    }

    /// The variant that a code stands for, if any.
    pub open spec fn from_code(code: int) -> Option<Self> {
        if code == 0 {
            Some(ScValType::ScvBool)
        } else if code == 1 {
            Some(ScValType::ScvVoid)
        } else if code == 2 {
            Some(ScValType::ScvError)
        } else if code == 3 {
            Some(ScValType::ScvU32)
        } else if code == 4 {
            Some(ScValType::ScvI32)
        } else if code == 5 {
            Some(ScValType::ScvU64)
        } else if code == 6 {
            Some(ScValType::ScvI64)
        } else if code == 7 {
            Some(ScValType::ScvTimepoint)
        } else if code == 8 {
            Some(ScValType::ScvDuration)
        } else if code == 9 {
            Some(ScValType::ScvU128)
        } else if code == 10 {
            Some(ScValType::ScvI128)
        } else if code == 11 {
            Some(ScValType::ScvU256)
        } else if code == 12 {
            Some(ScValType::ScvI256)
        } else if code == 13 {
            Some(ScValType::ScvBytes)
        } else if code == 14 {
            Some(ScValType::ScvString)
        } else if code == 15 {
            Some(ScValType::ScvSymbol)
        } else if code == 16 {
            Some(ScValType::ScvVec)
        } else if code == 17 {
            Some(ScValType::ScvMap)
        } else if code == 18 {
            Some(ScValType::ScvAddress)
        } else if code == 19 {
            Some(ScValType::ScvContractInstance)
        } else if code == 20 {
            Some(ScValType::ScvLedgerKeyContractInstance)
        } else if code == 21 {
            Some(ScValType::ScvLedgerKeyNonce)
        } else {
            None
        }
    }

    /// The code that stands for this variant on the wire.
    pub fn code(&self) -> (c: i32)
        ensures
            c == self.code_of(),
    {
        match self {
            ScValType::ScvBool => 0,
            ScValType::ScvVoid => 1,
            ScValType::ScvError => 2,
            ScValType::ScvU32 => 3,
            ScValType::ScvI32 => 4,
            ScValType::ScvU64 => 5,
            ScValType::ScvI64 => 6,
            ScValType::ScvTimepoint => 7,
            ScValType::ScvDuration => 8,
            ScValType::ScvU128 => 9,
            ScValType::ScvI128 => 10,
            ScValType::ScvU256 => 11,
            ScValType::ScvI256 => 12,
            ScValType::ScvBytes => 13,
            ScValType::ScvString => 14,
            ScValType::ScvSymbol => 15,
            ScValType::ScvVec => 16,
            ScValType::ScvMap => 17,
            ScValType::ScvAddress => 18,
            ScValType::ScvContractInstance => 19,
            ScValType::ScvLedgerKeyContractInstance => 20,
            ScValType::ScvLedgerKeyNonce => 21,
        }
    }

    /// The variant that a code stands for; any other code is of an invalid type.
    pub fn from_i32(value: i32) -> (r: Result<Self, ParseError>)
        ensures
            r == match Self::from_code(value as int) {
                Some(k) => Ok::<Self, ParseError>(k),
                None => Err::<Self, ParseError>(ParseError::InvalidType(value)),
            },
            r matches Ok(k) ==> k.code_of() == value,
    {
        if value == 0 {
            Ok(ScValType::ScvBool)
        } else if value == 1 {
            Ok(ScValType::ScvVoid)
        } else if value == 2 {
            Ok(ScValType::ScvError)
        } else if value == 3 {
            Ok(ScValType::ScvU32)
        } else if value == 4 {
            Ok(ScValType::ScvI32)
        } else if value == 5 {
            Ok(ScValType::ScvU64)
        } else if value == 6 {
            Ok(ScValType::ScvI64)
        } else if value == 7 {
            Ok(ScValType::ScvTimepoint)
        } else if value == 8 {
            Ok(ScValType::ScvDuration)
        } else if value == 9 {
            Ok(ScValType::ScvU128)
        } else if value == 10 {
            Ok(ScValType::ScvI128)
        } else if value == 11 {
            Ok(ScValType::ScvU256)
        } else if value == 12 {
            Ok(ScValType::ScvI256)
        } else if value == 13 {
            Ok(ScValType::ScvBytes)
        } else if value == 14 {
            Ok(ScValType::ScvString)
        } else if value == 15 {
            Ok(ScValType::ScvSymbol)
        } else if value == 16 {
            Ok(ScValType::ScvVec)
        } else if value == 17 {
            Ok(ScValType::ScvMap)
        } else if value == 18 {
            Ok(ScValType::ScvAddress)
        } else if value == 19 {
            Ok(ScValType::ScvContractInstance)
        } else if value == 20 {
            Ok(ScValType::ScvLedgerKeyContractInstance)
        } else if value == 21 {
            Ok(ScValType::ScvLedgerKeyNonce)
        } else {
            Err(ParseError::InvalidType(value))
        }
    }
}

impl<'a> XdrParse<'a> for ScValType {
    open spec fn scan(data: Seq<u8>, pos: int, depth: int) -> Result<int, ParseError> {
        scan_code(data, pos, Self::from_code(be_i32(data, pos)) is Some)
    }

    open spec fn decoded_from(&self, data: Seq<u8>, pos: int, depth: int) -> bool {
        self.code_of() == be_i32(data, pos)
    }

    fn parse(parser: &mut Parser<'a>) -> (r: Result<Self, ParseError>) {
        let value = parser.parse_int32()?;
        Self::from_i32(value)
    }

    proof fn lemma_prefix(data: Seq<u8>, pos: int, depth: int, k: int) {
        lemma_fixed_prefix(data, pos, k);
    }
}

/// The origins of a contract error.
#[derive(Debug, Clone, Copy, PartialEq, Eq)]
pub enum SCErrorType {
    SceContract,
    SceWasmVm,
    SceContext,
    SceStorage,
    SceObject,
    SceCrypto,
    SceEvents,
    SceBudget,
    SceValue,
    SceAuth,
}

impl SCErrorType {
    /// The code that stands for this variant on the wire.
    pub open spec fn code_of(self) -> int {
        match self {
            SCErrorType::SceContract => 0,
            SCErrorType::SceWasmVm => 1,
            SCErrorType::SceContext => 2,
            SCErrorType::SceStorage => 3,
            SCErrorType::SceObject => 4,
            SCErrorType::SceCrypto => 5,
            SCErrorType::SceEvents => 6,
            SCErrorType::SceBudget => 7,
            SCErrorType::SceValue => 8,
            SCErrorType::SceAuth => 9,
        }
    }

    /// The variant that a code stands for, if any.
    pub open spec fn from_code(code: int) -> Option<Self> {
        if code == 0 {
            Some(SCErrorType::SceContract)
        } else if code == 1 {
            Some(SCErrorType::SceWasmVm)
        } else if code == 2 {
            Some(SCErrorType::SceContext)
        } else if code == 3 {
            Some(SCErrorType::SceStorage)
        } else if code == 4 {
            Some(SCErrorType::SceObject)
        } else if code == 5 {
            Some(SCErrorType::SceCrypto)
        } else if code == 6 {
            Some(SCErrorType::SceEvents)
        } else if code == 7 {
            Some(SCErrorType::SceBudget)
        } else if code == 8 {
            Some(SCErrorType::SceValue)
        } else if code == 9 {
            Some(SCErrorType::SceAuth)
        } else {
            None
        }
    }

    /// The code that stands for this variant on the wire.
    pub fn code(&self) -> (c: i32)
        ensures
            c == self.code_of(),
    {
        match self {
            SCErrorType::SceContract => 0,
            SCErrorType::SceWasmVm => 1,
            SCErrorType::SceContext => 2,
            SCErrorType::SceStorage => 3,
            SCErrorType::SceObject => 4,
            SCErrorType::SceCrypto => 5,
            SCErrorType::SceEvents => 6,
            SCErrorType::SceBudget => 7,
            SCErrorType::SceValue => 8,
            SCErrorType::SceAuth => 9,
        }
    }

    /// The variant that a code stands for; any other code is of an invalid type.
    pub fn from_i32(value: i32) -> (r: Result<Self, ParseError>)
        ensures
            r == match Self::from_code(value as int) {
                Some(k) => Ok::<Self, ParseError>(k),
                None => Err::<Self, ParseError>(ParseError::InvalidType(value)),
            },
            r matches Ok(k) ==> k.code_of() == value,
    {
        if value == 0 {
            Ok(SCErrorType::SceContract)
        } else if value == 1 {
            Ok(SCErrorType::SceWasmVm)
        } else if value == 2 {
            Ok(SCErrorType::SceContext)
        } else if value == 3 {
            Ok(SCErrorType::SceStorage)
        } else if value == 4 {
            Ok(SCErrorType::SceObject)
        } else if value == 5 {
            Ok(SCErrorType::SceCrypto)
        } else if value == 6 {
            Ok(SCErrorType::SceEvents)
        } else if value == 7 {
            Ok(SCErrorType::SceBudget)
        } else if value == 8 {
            Ok(SCErrorType::SceValue)
        } else if value == 9 {
            Ok(SCErrorType::SceAuth)
        } else {
            Err(ParseError::InvalidType(value))
        }
    }
}

impl<'a> XdrParse<'a> for SCErrorType {
    open spec fn scan(data: Seq<u8>, pos: int, depth: int) -> Result<int, ParseError> {
        scan_code(data, pos, Self::from_code(be_i32(data, pos)) is Some)
    }

    open spec fn decoded_from(&self, data: Seq<u8>, pos: int, depth: int) -> bool {
        self.code_of() == be_i32(data, pos)
    }

    fn parse(parser: &mut Parser<'a>) -> (r: Result<Self, ParseError>) {
        let value = parser.parse_int32()?;
        Self::from_i32(value)
    }

    proof fn lemma_prefix(data: Seq<u8>, pos: int, depth: int, k: int) {
        lemma_fixed_prefix(data, pos, k);
    }
}

/// The codes of a contract error.
#[derive(Debug, Clone, Copy, PartialEq, Eq)]
pub enum SCErrorCode {
    ScecArithDomain,
    ScecIndexBounds,
    ScecInvalidInput,
    ScecMissingValue,
    ScecExistingValue,
    ScecExceededLimit,
    ScecInvalidAction,
    ScecInternalError,
    ScecUnexpectedType,
    ScecUnexpectedSize,
}

impl SCErrorCode {
    /// The code that stands for this variant on the wire.
    pub open spec fn code_of(self) -> int {
        match self {
            SCErrorCode::ScecArithDomain => 0,
            SCErrorCode::ScecIndexBounds => 1,
            SCErrorCode::ScecInvalidInput => 2,
            SCErrorCode::ScecMissingValue => 3,
            SCErrorCode::ScecExistingValue => 4,
            SCErrorCode::ScecExceededLimit => 5,
            SCErrorCode::ScecInvalidAction => 6,
            SCErrorCode::ScecInternalError => 7,
            SCErrorCode::ScecUnexpectedType => 8,
            SCErrorCode::ScecUnexpectedSize => 9,
        }
    }

    /// The variant that a code stands for, if any.
    pub open spec fn from_code(code: int) -> Option<Self> {
        if code == 0 {
            Some(SCErrorCode::ScecArithDomain)
        } else if code == 1 {
            Some(SCErrorCode::ScecIndexBounds)
        } else if code == 2 {
            Some(SCErrorCode::ScecInvalidInput)
        } else if code == 3 {
            Some(SCErrorCode::ScecMissingValue)
        } else if code == 4 {
            Some(SCErrorCode::ScecExistingValue)
        } else if code == 5 {
            Some(SCErrorCode::ScecExceededLimit)
        } else if code == 6 {
            Some(SCErrorCode::ScecInvalidAction)
        } else if code == 7 {
            Some(SCErrorCode::ScecInternalError)
        } else if code == 8 {
            Some(SCErrorCode::ScecUnexpectedType)
        } else if code == 9 {
            Some(SCErrorCode::ScecUnexpectedSize)
        } else {
            None
        }
    }

    /// The code that stands for this variant on the wire.
    pub fn code(&self) -> (c: i32)
        ensures
            c == self.code_of(),
    {
        match self {
            SCErrorCode::ScecArithDomain => 0,
            SCErrorCode::ScecIndexBounds => 1,
            SCErrorCode::ScecInvalidInput => 2,
            SCErrorCode::ScecMissingValue => 3,
            SCErrorCode::ScecExistingValue => 4,
            SCErrorCode::ScecExceededLimit => 5,
            SCErrorCode::ScecInvalidAction => 6,
            SCErrorCode::ScecInternalError => 7,
            SCErrorCode::ScecUnexpectedType => 8,
            SCErrorCode::ScecUnexpectedSize => 9,
        }
    }

    /// The variant that a code stands for; any other code is of an invalid type.
    pub fn from_i32(value: i32) -> (r: Result<Self, ParseError>)
        ensures
            r == match Self::from_code(value as int) {
                Some(k) => Ok::<Self, ParseError>(k),
                None => Err::<Self, ParseError>(ParseError::InvalidType(value)),
            },
            r matches Ok(k) ==> k.code_of() == value,
    {
        if value == 0 {
            Ok(SCErrorCode::ScecArithDomain)
        } else if value == 1 {
            Ok(SCErrorCode::ScecIndexBounds)
        } else if value == 2 {
            Ok(SCErrorCode::ScecInvalidInput)
        } else if value == 3 {
            Ok(SCErrorCode::ScecMissingValue)
        } else if value == 4 {
            Ok(SCErrorCode::ScecExistingValue)
        } else if value == 5 {
            Ok(SCErrorCode::ScecExceededLimit)
        } else if value == 6 {
            Ok(SCErrorCode::ScecInvalidAction)
        } else if value == 7 {
            Ok(SCErrorCode::ScecInternalError)
        } else if value == 8 {
            Ok(SCErrorCode::ScecUnexpectedType)
        } else if value == 9 {
            Ok(SCErrorCode::ScecUnexpectedSize)
        } else {
            Err(ParseError::InvalidType(value))
        }
    }
}

impl<'a> XdrParse<'a> for SCErrorCode {
    open spec fn scan(data: Seq<u8>, pos: int, depth: int) -> Result<int, ParseError> {
        scan_code(data, pos, Self::from_code(be_i32(data, pos)) is Some)
    }

    open spec fn decoded_from(&self, data: Seq<u8>, pos: int, depth: int) -> bool {
        self.code_of() == be_i32(data, pos)
    }

    fn parse(parser: &mut Parser<'a>) -> (r: Result<Self, ParseError>) {
        let value = parser.parse_int32()?;
        Self::from_i32(value)
    }

    proof fn lemma_prefix(data: Seq<u8>, pos: int, depth: int, k: int) {
        lemma_fixed_prefix(data, pos, k);
    }
}

/// The kinds of operation.
#[derive(Debug, Clone, Copy, PartialEq, Eq)]
pub enum OperationType {
    CreateAccount,
    Payment,
    PathPaymentStrictReceive,
    ManageSellOffer,
    CreatePassiveSellOffer,
    SetOptions,
    ChangeTrust,
    AllowTrust,
    AccountMerge,
    Inflation,
    ManageData,
    BumpSequence,
    ManageBuyOffer,
    PathPaymentStrictSend,
    CreateClaimableBalance,
    ClaimClaimableBalance,
    BeginSponsoringFutureReserves,
    EndSponsoringFutureReserves,
    RevokeSponsorship,
    Clawback,
    ClawbackClaimableBalance,
    SetTrustLineFlags,
    LiquidityPoolDeposit,
    LiquidityPoolWithdraw,
    InvokeHostFunction,
    ExtendFootprintTtl,
    RestoreFootprint,
}

impl OperationType {
    /// The code that stands for this variant on the wire.
    pub open spec fn code_of(self) -> int {
        match self {
            OperationType::CreateAccount => 0,
            OperationType::Payment => 1,
            OperationType::PathPaymentStrictReceive => 2,
            OperationType::ManageSellOffer => 3,
            OperationType::CreatePassiveSellOffer => 4,
            OperationType::SetOptions => 5,
            OperationType::ChangeTrust => 6,
            OperationType::AllowTrust => 7,
            OperationType::AccountMerge => 8,
            OperationType::Inflation => 9,
            OperationType::ManageData => 10,
            OperationType::BumpSequence => 11,
            OperationType::ManageBuyOffer => 12,
            OperationType::PathPaymentStrictSend => 13,
            OperationType::CreateClaimableBalance => 14,
            OperationType::ClaimClaimableBalance => 15,
            OperationType::BeginSponsoringFutureReserves => 16,
            OperationType::EndSponsoringFutureReserves => 17,
            OperationType::RevokeSponsorship => 18,
            OperationType::Clawback => 19,
            OperationType::ClawbackClaimableBalance => 20,
            OperationType::SetTrustLineFlags => 21,
            OperationType::LiquidityPoolDeposit => 22,
            OperationType::LiquidityPoolWithdraw => 23,
            OperationType::InvokeHostFunction => 24,
            OperationType::ExtendFootprintTtl => 25,
            OperationType::RestoreFootprint => 26,
        }
    }

    /// The variant that a code stands for, if any.
    pub open spec fn from_code(code: int) -> Option<Self> {
        if code == 0 {
            Some(OperationType::CreateAccount)
        } else if code == 1 {
            Some(OperationType::Payment)
        } else if code == 2 {
            Some(OperationType::PathPaymentStrictReceive)
        } else if code == 3 {
            Some(OperationType::ManageSellOffer)
        } else if code == 4 {
            Some(OperationType::CreatePassiveSellOffer)
        } else if code == 5 {
            Some(OperationType::SetOptions)
        } else if code == 6 {
            Some(OperationType::ChangeTrust)
        } else if code == 7 {
            Some(OperationType::AllowTrust)
        } else if code == 8 {
            Some(OperationType::AccountMerge)
        } else if code == 9 {
            Some(OperationType::Inflation)
        } else if code == 10 {
            Some(OperationType::ManageData)
        } else if code == 11 {
            Some(OperationType::BumpSequence)
        } else if code == 12 {
            Some(OperationType::ManageBuyOffer)
        } else if code == 13 {
            Some(OperationType::PathPaymentStrictSend)
        } else if code == 14 {
            Some(OperationType::CreateClaimableBalance)
        } else if code == 15 {
            Some(OperationType::ClaimClaimableBalance)
        } else if code == 16 {
            Some(OperationType::BeginSponsoringFutureReserves)
        } else if code == 17 {
            Some(OperationType::EndSponsoringFutureReserves)
        } else if code == 18 {
            Some(OperationType::RevokeSponsorship)
        } else if code == 19 {
            Some(OperationType::Clawback)
        } else if code == 20 {
            Some(OperationType::ClawbackClaimableBalance)
        } else if code == 21 {
            Some(OperationType::SetTrustLineFlags)
        } else if code == 22 {
            Some(OperationType::LiquidityPoolDeposit)
        } else if code == 23 {
            Some(OperationType::LiquidityPoolWithdraw)
        } else if code == 24 {
            Some(OperationType::InvokeHostFunction)
        } else if code == 25 {
            Some(OperationType::ExtendFootprintTtl)
        } else if code == 26 {
            Some(OperationType::RestoreFootprint)
        } else {
            None
        }
    }

    /// The code that stands for this variant on the wire.
    pub fn code(&self) -> (c: i32)
        ensures
            c == self.code_of(),
    {
        match self {
            OperationType::CreateAccount => 0,
            OperationType::Payment => 1,
            OperationType::PathPaymentStrictReceive => 2,
            OperationType::ManageSellOffer => 3,
            OperationType::CreatePassiveSellOffer => 4,
            OperationType::SetOptions => 5,
            OperationType::ChangeTrust => 6,
            OperationType::AllowTrust => 7,
            OperationType::AccountMerge => 8,
            OperationType::Inflation => 9,
            OperationType::ManageData => 10,
            OperationType::BumpSequence => 11,
            OperationType::ManageBuyOffer => 12,
            OperationType::PathPaymentStrictSend => 13,
            OperationType::CreateClaimableBalance => 14,
            OperationType::ClaimClaimableBalance => 15,
            OperationType::BeginSponsoringFutureReserves => 16,
            OperationType::EndSponsoringFutureReserves => 17,
            OperationType::RevokeSponsorship => 18,
            OperationType::Clawback => 19,
            OperationType::ClawbackClaimableBalance => 20,
            OperationType::SetTrustLineFlags => 21,
            OperationType::LiquidityPoolDeposit => 22,
            OperationType::LiquidityPoolWithdraw => 23,
            OperationType::InvokeHostFunction => 24,
            OperationType::ExtendFootprintTtl => 25,
            OperationType::RestoreFootprint => 26,
        }
    }

    /// The variant that a code stands for; any other code is of an invalid type.
    pub fn from_i32(value: i32) -> (r: Result<Self, ParseError>)
        ensures
            r == match Self::from_code(value as int) {
                Some(k) => Ok::<Self, ParseError>(k),
                None => Err::<Self, ParseError>(ParseError::InvalidType(value)),
            },
            r matches Ok(k) ==> k.code_of() == value,
    {
        if value == 0 {
            Ok(OperationType::CreateAccount)
        } else if value == 1 {
            Ok(OperationType::Payment)
        } else if value == 2 {
            Ok(OperationType::PathPaymentStrictReceive)
        } else if value == 3 {
            Ok(OperationType::ManageSellOffer)
        } else if value == 4 {
            Ok(OperationType::CreatePassiveSellOffer)
        } else if value == 5 {
            Ok(OperationType::SetOptions)
        } else if value == 6 {
            Ok(OperationType::ChangeTrust)
        } else if value == 7 {
            Ok(OperationType::AllowTrust)
        } else if value == 8 {
            Ok(OperationType::AccountMerge)
        } else if value == 9 {
            Ok(OperationType::Inflation)
        } else if value == 10 {
            Ok(OperationType::ManageData)
        } else if value == 11 {
            Ok(OperationType::BumpSequence)
        } else if value == 12 {
            Ok(OperationType::ManageBuyOffer)
        } else if value == 13 {
            Ok(OperationType::PathPaymentStrictSend)
        } else if value == 14 {
            Ok(OperationType::CreateClaimableBalance)
        } else if value == 15 {
            Ok(OperationType::ClaimClaimableBalance)
        } else if value == 16 {
            Ok(OperationType::BeginSponsoringFutureReserves)
        } else if value == 17 {
            Ok(OperationType::EndSponsoringFutureReserves)
        } else if value == 18 {
            Ok(OperationType::RevokeSponsorship)
        } else if value == 19 {
            Ok(OperationType::Clawback)
        } else if value == 20 {
            Ok(OperationType::ClawbackClaimableBalance)
        } else if value == 21 {
            Ok(OperationType::SetTrustLineFlags)
        } else if value == 22 {
            Ok(OperationType::LiquidityPoolDeposit)
        } else if value == 23 {
            Ok(OperationType::LiquidityPoolWithdraw)
        } else if value == 24 {
            Ok(OperationType::InvokeHostFunction)
        } else if value == 25 {
            Ok(OperationType::ExtendFootprintTtl)
        } else if value == 26 {
            Ok(OperationType::RestoreFootprint)
        } else {
            Err(ParseError::InvalidType(value))
        }
    }
}

impl<'a> XdrParse<'a> for OperationType {
    open spec fn scan(data: Seq<u8>, pos: int, depth: int) -> Result<int, ParseError> {
        scan_code(data, pos, Self::from_code(be_i32(data, pos)) is Some)
    }

    open spec fn decoded_from(&self, data: Seq<u8>, pos: int, depth: int) -> bool {
        self.code_of() == be_i32(data, pos)
    }

    fn parse(parser: &mut Parser<'a>) -> (r: Result<Self, ParseError>) {
        let value = parser.parse_int32()?;
        Self::from_i32(value)
    }

    proof fn lemma_prefix(data: Seq<u8>, pos: int, depth: int, k: int) {
        lemma_fixed_prefix(data, pos, k);
    }
}

/// The kinds of liquidity pool.
#[derive(Debug, Clone, Copy, PartialEq, Eq)]
pub enum LiquidityPoolType {
    ConstantProduct,
}

impl LiquidityPoolType {
    /// The code that stands for this variant on the wire.
    pub open spec fn code_of(self) -> int {
        match self {
            LiquidityPoolType::ConstantProduct => 0,
        }
    }

    /// The variant that a code stands for, if any.
    pub open spec fn from_code(code: int) -> Option<Self> {
        if code == 0 {
            Some(LiquidityPoolType::ConstantProduct)
        } else {
            None
        }
    }

    /// The code that stands for this variant on the wire.
    pub fn code(&self) -> (c: i32)
        ensures
            c == self.code_of(),
    {
        match self {
            LiquidityPoolType::ConstantProduct => 0,
        }
    }

    /// The variant that a code stands for; any other code is of an invalid type.
    pub fn from_i32(value: i32) -> (r: Result<Self, ParseError>)
        ensures
            r == match Self::from_code(value as int) {
                Some(k) => Ok::<Self, ParseError>(k),
                None => Err::<Self, ParseError>(ParseError::InvalidType(value)),
            },
            r matches Ok(k) ==> k.code_of() == value,
    {
        if value == 0 {
            Ok(LiquidityPoolType::ConstantProduct)
        } else {
            Err(ParseError::InvalidType(value))
        }
    }
}

impl<'a> XdrParse<'a> for LiquidityPoolType {
    open spec fn scan(data: Seq<u8>, pos: int, depth: int) -> Result<int, ParseError> {
        scan_code(data, pos, Self::from_code(be_i32(data, pos)) is Some)
    }

    open spec fn decoded_from(&self, data: Seq<u8>, pos: int, depth: int) -> bool {
        self.code_of() == be_i32(data, pos)
    }

    fn parse(parser: &mut Parser<'a>) -> (r: Result<Self, ParseError>) {
        let value = parser.parse_int32()?;
        Self::from_i32(value)
    }

    proof fn lemma_prefix(data: Seq<u8>, pos: int, depth: int, k: int) {
        lemma_fixed_prefix(data, pos, k);
    }
}

/// The kinds of claim predicate.
#[derive(Debug, Clone, Copy, PartialEq, Eq)]
pub enum ClaimPredicateType {
    Unconditional,
    And,
    Or,
    Not,
    BeforeAbsoluteTime,
    BeforeRelativeTime,
}

impl ClaimPredicateType {
    /// The code that stands for this variant on the wire.
    pub open spec fn code_of(self) -> int {
        match self {
            ClaimPredicateType::Unconditional => 0,
            ClaimPredicateType::And => 1,
            ClaimPredicateType::Or => 2,
            ClaimPredicateType::Not => 3,
            ClaimPredicateType::BeforeAbsoluteTime => 4,
            ClaimPredicateType::BeforeRelativeTime => 5,
        }
    }

    /// The variant that a code stands for, if any.
    pub open spec fn from_code(code: int) -> Option<Self> {
        if code == 0 {
            Some(ClaimPredicateType::Unconditional)
        } else if code == 1 {
            Some(ClaimPredicateType::And)
        } else if code == 2 {
            Some(ClaimPredicateType::Or)
        } else if code == 3 {
            Some(ClaimPredicateType::Not)
        } else if code == 4 {
            Some(ClaimPredicateType::BeforeAbsoluteTime)
        } else if code == 5 {
            Some(ClaimPredicateType::BeforeRelativeTime)
        } else {
            None
        }
    }

    /// The code that stands for this variant on the wire.
    pub fn code(&self) -> (c: i32)
        ensures
            c == self.code_of(),
    {
        match self {
            ClaimPredicateType::Unconditional => 0,
            ClaimPredicateType::And => 1,
            ClaimPredicateType::Or => 2,
            ClaimPredicateType::Not => 3,
            ClaimPredicateType::BeforeAbsoluteTime => 4,
            ClaimPredicateType::BeforeRelativeTime => 5,
        }
    }

    /// The variant that a code stands for; any other code is of an invalid type.
    pub fn from_i32(value: i32) -> (r: Result<Self, ParseError>)
        ensures
            r == match Self::from_code(value as int) {
                Some(k) => Ok::<Self, ParseError>(k),
                None => Err::<Self, ParseError>(ParseError::InvalidType(value)),
            },
            r matches Ok(k) ==> k.code_of() == value,
    {
        if value == 0 {
            Ok(ClaimPredicateType::Unconditional)
        } else if value == 1 {
            Ok(ClaimPredicateType::And)
        } else if value == 2 {
            Ok(ClaimPredicateType::Or)
        } else if value == 3 {
            Ok(ClaimPredicateType::Not)
        } else if value == 4 {
            Ok(ClaimPredicateType::BeforeAbsoluteTime)
        } else if value == 5 {
            Ok(ClaimPredicateType::BeforeRelativeTime)
        } else {
            Err(ParseError::InvalidType(value))
        }
    }
}

impl<'a> XdrParse<'a> for ClaimPredicateType {
    open spec fn scan(data: Seq<u8>, pos: int, depth: int) -> Result<int, ParseError> {
        scan_code(data, pos, Self::from_code(be_i32(data, pos)) is Some)
    }

    open spec fn decoded_from(&self, data: Seq<u8>, pos: int, depth: int) -> bool {
        self.code_of() == be_i32(data, pos)
    }

    fn parse(parser: &mut Parser<'a>) -> (r: Result<Self, ParseError>) {
        let value = parser.parse_int32()?;
        Self::from_i32(value)
    }

    proof fn lemma_prefix(data: Seq<u8>, pos: int, depth: int, k: int) {
        lemma_fixed_prefix(data, pos, k);
    }
}

/// The kinds of claimant.
#[derive(Debug, Clone, Copy, PartialEq, Eq)]
pub enum ClaimantType {
    V0,
}

impl ClaimantType {
    /// The code that stands for this variant on the wire.
    pub open spec fn code_of(self) -> int {
        match self {
            ClaimantType::V0 => 0,
        }
    }

    /// The variant that a code stands for, if any.
    pub open spec fn from_code(code: int) -> Option<Self> {
        if code == 0 {
            Some(ClaimantType::V0)
        } else {
            None
        }
    }

    /// The code that stands for this variant on the wire.
    pub fn code(&self) -> (c: i32)
        ensures
            c == self.code_of(),
    {
        match self {
            ClaimantType::V0 => 0,
        }
    }

    /// The variant that a code stands for; any other code is of an invalid type.
    pub fn from_i32(value: i32) -> (r: Result<Self, ParseError>)
        ensures
            r == match Self::from_code(value as int) {
                Some(k) => Ok::<Self, ParseError>(k),
                None => Err::<Self, ParseError>(ParseError::InvalidType(value)),
            },
            r matches Ok(k) ==> k.code_of() == value,
    {
        if value == 0 {
            Ok(ClaimantType::V0)
        } else {
            Err(ParseError::InvalidType(value))
        }
    }
}

impl<'a> XdrParse<'a> for ClaimantType {
    open spec fn scan(data: Seq<u8>, pos: int, depth: int) -> Result<int, ParseError> {
        scan_code(data, pos, Self::from_code(be_i32(data, pos)) is Some)
    }

    open spec fn decoded_from(&self, data: Seq<u8>, pos: int, depth: int) -> bool {
        self.code_of() == be_i32(data, pos)
    }

    fn parse(parser: &mut Parser<'a>) -> (r: Result<Self, ParseError>) {
        let value = parser.parse_int32()?;
        Self::from_i32(value)
    }

    proof fn lemma_prefix(data: Seq<u8>, pos: int, depth: int, k: int) {
        lemma_fixed_prefix(data, pos, k);
    }
}

/// The bits of a trust line's flags.
#[derive(Debug, Clone, Copy, PartialEq, Eq)]
pub enum TrustLineFlags {
    AuthorizedFlag,
    AuthorizedToMaintainLiabilitiesFlag,
    TrustlineClawbackEnabledFlag,
}

impl TrustLineFlags {
    /// The code that stands for this variant on the wire.
    pub open spec fn code_of(self) -> int {
        match self {
            TrustLineFlags::AuthorizedFlag => 1,
            TrustLineFlags::AuthorizedToMaintainLiabilitiesFlag => 2,
            TrustLineFlags::TrustlineClawbackEnabledFlag => 4,
        }
    }

    /// The variant that a code stands for, if any.
    pub open spec fn from_code(code: int) -> Option<Self> {
        if code == 1 {
            Some(TrustLineFlags::AuthorizedFlag)
        } else if code == 2 {
            Some(TrustLineFlags::AuthorizedToMaintainLiabilitiesFlag)
        } else if code == 4 {
            Some(TrustLineFlags::TrustlineClawbackEnabledFlag)
        } else {
            None
        }
    }

    /// The code that stands for this variant on the wire.
    pub fn code(&self) -> (c: i32)
        ensures
            c == self.code_of(),
    {
        match self {
            TrustLineFlags::AuthorizedFlag => 1,
            TrustLineFlags::AuthorizedToMaintainLiabilitiesFlag => 2,
            TrustLineFlags::TrustlineClawbackEnabledFlag => 4,
        }
    }

    /// The variant that a code stands for; any other code is of an invalid type.
    pub fn from_i32(value: i32) -> (r: Result<Self, ParseError>)
        ensures
            r == match Self::from_code(value as int) {
                Some(k) => Ok::<Self, ParseError>(k),
                None => Err::<Self, ParseError>(ParseError::InvalidType(value)),
            },
            r matches Ok(k) ==> k.code_of() == value,
    {
        if value == 1 {
            Ok(TrustLineFlags::AuthorizedFlag)
        } else if value == 2 {
            Ok(TrustLineFlags::AuthorizedToMaintainLiabilitiesFlag)
        } else if value == 4 {
            Ok(TrustLineFlags::TrustlineClawbackEnabledFlag)
        } else {
            Err(ParseError::InvalidType(value))
        }
    }
}

impl<'a> XdrParse<'a> for TrustLineFlags {
    open spec fn scan(data: Seq<u8>, pos: int, depth: int) -> Result<int, ParseError> {
        scan_code(data, pos, Self::from_code(be_i32(data, pos)) is Some)
    }

    open spec fn decoded_from(&self, data: Seq<u8>, pos: int, depth: int) -> bool {
        self.code_of() == be_i32(data, pos)
    }

    fn parse(parser: &mut Parser<'a>) -> (r: Result<Self, ParseError>) {
        let value = parser.parse_int32()?;
        Self::from_i32(value)
    }

    proof fn lemma_prefix(data: Seq<u8>, pos: int, depth: int, k: int) {
        lemma_fixed_prefix(data, pos, k);
    }
}

/// A place kept for later extensions; it holds nothing yet.
#[derive(Debug, Clone, Copy, PartialEq, Eq)]
pub enum ExtensionPoint {
    V0,
}

impl ExtensionPoint {
    /// The code that stands for this variant on the wire.
    pub open spec fn code_of(self) -> int {
        match self {
            ExtensionPoint::V0 => 0,
        }
    }

    /// The variant that a code stands for, if any.
    pub open spec fn from_code(code: int) -> Option<Self> {
        if code == 0 {
            Some(ExtensionPoint::V0)
        } else {
            None
        }
    }

    /// The code that stands for this variant on the wire.
    pub fn code(&self) -> (c: i32)
        ensures
            c == self.code_of(),
    {
        match self {
            ExtensionPoint::V0 => 0,
        }
    }

    /// The variant that a code stands for; any other code is of an invalid type.
    pub fn from_i32(value: i32) -> (r: Result<Self, ParseError>)
        ensures
            r == match Self::from_code(value as int) {
                Some(k) => Ok::<Self, ParseError>(k),
                None => Err::<Self, ParseError>(ParseError::InvalidType(value)),
            },
            r matches Ok(k) ==> k.code_of() == value,
    {
        if value == 0 {
            Ok(ExtensionPoint::V0)
        } else {
            Err(ParseError::InvalidType(value))
        }
    }
}

impl<'a> XdrParse<'a> for ExtensionPoint {
    open spec fn scan(data: Seq<u8>, pos: int, depth: int) -> Result<int, ParseError> {
        scan_code(data, pos, Self::from_code(be_i32(data, pos)) is Some)
    }

    open spec fn decoded_from(&self, data: Seq<u8>, pos: int, depth: int) -> bool {
        self.code_of() == be_i32(data, pos)
    }

    fn parse(parser: &mut Parser<'a>) -> (r: Result<Self, ParseError>) {
        let value = parser.parse_int32()?;
        Self::from_i32(value)
    }

    proof fn lemma_prefix(data: Seq<u8>, pos: int, depth: int, k: int) {
        lemma_fixed_prefix(data, pos, k);
    }
}

/// The kinds of host function.
#[derive(Debug, Clone, Copy, PartialEq, Eq)]
pub enum HostFunctionType {
    InvokeContract,
    CreateContract,
    UploadContractWasm,
    CreateContractV2,
}

impl HostFunctionType {
    /// The code that stands for this variant on the wire.
    pub open spec fn code_of(self) -> int {
        match self {
            HostFunctionType::InvokeContract => 0,
            HostFunctionType::CreateContract => 1,
            HostFunctionType::UploadContractWasm => 2,
            HostFunctionType::CreateContractV2 => 3,
        }
    }

    /// The variant that a code stands for, if any.
    pub open spec fn from_code(code: int) -> Option<Self> {
        if code == 0 {
            Some(HostFunctionType::InvokeContract)
        } else if code == 1 {
            Some(HostFunctionType::CreateContract)
        } else if code == 2 {
            Some(HostFunctionType::UploadContractWasm)
        } else if code == 3 {
            Some(HostFunctionType::CreateContractV2)
        } else {
            None
        }
    }

    /// The code that stands for this variant on the wire.
    pub fn code(&self) -> (c: i32)
        ensures
            c == self.code_of(),
    {
        match self {
            HostFunctionType::InvokeContract => 0,
            HostFunctionType::CreateContract => 1,
            HostFunctionType::UploadContractWasm => 2,
            HostFunctionType::CreateContractV2 => 3,
        }
    }

    /// The variant that a code stands for; any other code is of an invalid type.
    pub fn from_i32(value: i32) -> (r: Result<Self, ParseError>)
        ensures
            r == match Self::from_code(value as int) {
                Some(k) => Ok::<Self, ParseError>(k),
                None => Err::<Self, ParseError>(ParseError::InvalidType(value)),
            },
            r matches Ok(k) ==> k.code_of() == value,
    {
        if value == 0 {
            Ok(HostFunctionType::InvokeContract)
        } else if value == 1 {
            Ok(HostFunctionType::CreateContract)
        } else if value == 2 {
            Ok(HostFunctionType::UploadContractWasm)
        } else if value == 3 {
            Ok(HostFunctionType::CreateContractV2)
        } else {
            Err(ParseError::InvalidType(value))
        }
    }
}

impl<'a> XdrParse<'a> for HostFunctionType {
    open spec fn scan(data: Seq<u8>, pos: int, depth: int) -> Result<int, ParseError> {
        scan_code(data, pos, Self::from_code(be_i32(data, pos)) is Some)
    }

    open spec fn decoded_from(&self, data: Seq<u8>, pos: int, depth: int) -> bool {
        self.code_of() == be_i32(data, pos)
    }

    fn parse(parser: &mut Parser<'a>) -> (r: Result<Self, ParseError>) {
        let value = parser.parse_int32()?;
        Self::from_i32(value)
    }

    proof fn lemma_prefix(data: Seq<u8>, pos: int, depth: int, k: int) {
        lemma_fixed_prefix(data, pos, k);
    }
}

/// The kinds of contract identifier preimage.
#[derive(Debug, Clone, Copy, PartialEq, Eq)]
pub enum ContractIDPreimageType {
    FromAddress,
    FromAsset,
}

impl ContractIDPreimageType {
    /// The code that stands for this variant on the wire.
    pub open spec fn code_of(self) -> int {
        match self {
            ContractIDPreimageType::FromAddress => 0,
            ContractIDPreimageType::FromAsset => 1,
        }
    }

    /// The variant that a code stands for, if any.
    pub open spec fn from_code(code: int) -> Option<Self> {
        if code == 0 {
            Some(ContractIDPreimageType::FromAddress)
        } else if code == 1 {
            Some(ContractIDPreimageType::FromAsset)
        } else {
            None
        }
    }

    /// The code that stands for this variant on the wire.
    pub fn code(&self) -> (c: i32)
        ensures
            c == self.code_of(),
    {
        match self {
            ContractIDPreimageType::FromAddress => 0,
            ContractIDPreimageType::FromAsset => 1,
        }
    }

    /// The variant that a code stands for; any other code is of an invalid type.
    pub fn from_i32(value: i32) -> (r: Result<Self, ParseError>)
        ensures
            r == match Self::from_code(value as int) {
                Some(k) => Ok::<Self, ParseError>(k),
                None => Err::<Self, ParseError>(ParseError::InvalidType(value)),
            },
            r matches Ok(k) ==> k.code_of() == value,
    {
        if value == 0 {
            Ok(ContractIDPreimageType::FromAddress)
        } else if value == 1 {
            Ok(ContractIDPreimageType::FromAsset)
        } else {
            Err(ParseError::InvalidType(value))
        }
    }
}

impl<'a> XdrParse<'a> for ContractIDPreimageType {
    open spec fn scan(data: Seq<u8>, pos: int, depth: int) -> Result<int, ParseError> {
        scan_code(data, pos, Self::from_code(be_i32(data, pos)) is Some)
    }

    open spec fn decoded_from(&self, data: Seq<u8>, pos: int, depth: int) -> bool {
        self.code_of() == be_i32(data, pos)
    }

    fn parse(parser: &mut Parser<'a>) -> (r: Result<Self, ParseError>) {
        let value = parser.parse_int32()?;
        Self::from_i32(value)
    }

    proof fn lemma_prefix(data: Seq<u8>, pos: int, depth: int, k: int) {
        lemma_fixed_prefix(data, pos, k);
    }
}

/// The kinds of contract executable.
#[derive(Debug, Clone, Copy, PartialEq, Eq)]
pub enum ContractExecutableType {
    Wasm,
    StellarAsset,
}

impl ContractExecutableType {
    /// The code that stands for this variant on the wire.
    pub open spec fn code_of(self) -> int {
        match self {
            ContractExecutableType::Wasm => 0,
            ContractExecutableType::StellarAsset => 1,
        }
    }

    /// The variant that a code stands for, if any.
    pub open spec fn from_code(code: int) -> Option<Self> {
        if code == 0 {
            Some(ContractExecutableType::Wasm)
        } else if code == 1 {
            Some(ContractExecutableType::StellarAsset)
        } else {
            None
        }
    }

    /// The code that stands for this variant on the wire.
    pub fn code(&self) -> (c: i32)
        ensures
            c == self.code_of(),
    {
        match self {
            ContractExecutableType::Wasm => 0,
            ContractExecutableType::StellarAsset => 1,
        }
    }

    /// The variant that a code stands for; any other code is of an invalid type.
    pub fn from_i32(value: i32) -> (r: Result<Self, ParseError>)
        ensures
            r == match Self::from_code(value as int) {
                Some(k) => Ok::<Self, ParseError>(k),
                None => Err::<Self, ParseError>(ParseError::InvalidType(value)),
            },
            r matches Ok(k) ==> k.code_of() == value,
    {
        if value == 0 {
            Ok(ContractExecutableType::Wasm)
        } else if value == 1 {
            Ok(ContractExecutableType::StellarAsset)
        } else {
            Err(ParseError::InvalidType(value))
        }
    }
}

impl<'a> XdrParse<'a> for ContractExecutableType {
    open spec fn scan(data: Seq<u8>, pos: int, depth: int) -> Result<int, ParseError> {
        scan_code(data, pos, Self::from_code(be_i32(data, pos)) is Some)
    }

    open spec fn decoded_from(&self, data: Seq<u8>, pos: int, depth: int) -> bool {
        self.code_of() == be_i32(data, pos)
    }

    fn parse(parser: &mut Parser<'a>) -> (r: Result<Self, ParseError>) {
        let value = parser.parse_int32()?;
        Self::from_i32(value)
    }

    proof fn lemma_prefix(data: Seq<u8>, pos: int, depth: int, k: int) {
        lemma_fixed_prefix(data, pos, k);
    }
}

/// The kinds of authorization credentials.
#[derive(Debug, Clone, Copy, PartialEq, Eq)]
pub enum SorobanCredentialsType {
    SourceAccount,
    Address,
}

impl SorobanCredentialsType {
    /// The code that stands for this variant on the wire.
    pub open spec fn code_of(self) -> int {
        match self {
            SorobanCredentialsType::SourceAccount => 0,
            SorobanCredentialsType::Address => 1,
        }
    }

    /// The variant that a code stands for, if any.
    pub open spec fn from_code(code: int) -> Option<Self> {
        if code == 0 {
            Some(SorobanCredentialsType::SourceAccount)
        } else if code == 1 {
            Some(SorobanCredentialsType::Address)
        } else {
            None
        }
    }

    /// The code that stands for this variant on the wire.
    pub fn code(&self) -> (c: i32)
        ensures
            c == self.code_of(),
    {
        match self {
            SorobanCredentialsType::SourceAccount => 0,
            SorobanCredentialsType::Address => 1,
        }
    }

    /// The variant that a code stands for; any other code is of an invalid type.
    pub fn from_i32(value: i32) -> (r: Result<Self, ParseError>)
        ensures
            r == match Self::from_code(value as int) {
                Some(k) => Ok::<Self, ParseError>(k),
                None => Err::<Self, ParseError>(ParseError::InvalidType(value)),
            },
            r matches Ok(k) ==> k.code_of() == value,
    {
        if value == 0 {
            Ok(SorobanCredentialsType::SourceAccount)
        } else if value == 1 {
            Ok(SorobanCredentialsType::Address)
        } else {
            Err(ParseError::InvalidType(value))
        }
    }
}

impl<'a> XdrParse<'a> for SorobanCredentialsType {
    open spec fn scan(data: Seq<u8>, pos: int, depth: int) -> Result<int, ParseError> {
        scan_code(data, pos, Self::from_code(be_i32(data, pos)) is Some)
    }

    open spec fn decoded_from(&self, data: Seq<u8>, pos: int, depth: int) -> bool {
        self.code_of() == be_i32(data, pos)
    }

    fn parse(parser: &mut Parser<'a>) -> (r: Result<Self, ParseError>) {
        let value = parser.parse_int32()?;
        Self::from_i32(value)
    }

    proof fn lemma_prefix(data: Seq<u8>, pos: int, depth: int, k: int) {
        lemma_fixed_prefix(data, pos, k);
    }
}

/// The kinds of authorized function.
#[derive(Debug, Clone, Copy, PartialEq, Eq)]
pub enum SorobanAuthorizedFunctionType {
    ContractFn,
    CreateContractHostFn,
    CreateContractV2HostFn,
}

impl SorobanAuthorizedFunctionType {
    /// The code that stands for this variant on the wire.
    pub open spec fn code_of(self) -> int {
        match self {
            SorobanAuthorizedFunctionType::ContractFn => 0,
            SorobanAuthorizedFunctionType::CreateContractHostFn => 1,
            SorobanAuthorizedFunctionType::CreateContractV2HostFn => 2,
        }
    }

    /// The variant that a code stands for, if any.
    pub open spec fn from_code(code: int) -> Option<Self> {
        if code == 0 {
            Some(SorobanAuthorizedFunctionType::ContractFn)
        } else if code == 1 {
            Some(SorobanAuthorizedFunctionType::CreateContractHostFn)
        } else if code == 2 {
            Some(SorobanAuthorizedFunctionType::CreateContractV2HostFn)
        } else {
            None
        }
    }

    /// The code that stands for this variant on the wire.
    pub fn code(&self) -> (c: i32)
        ensures
            c == self.code_of(),
    {
        match self {
            SorobanAuthorizedFunctionType::ContractFn => 0,
            SorobanAuthorizedFunctionType::CreateContractHostFn => 1,
            SorobanAuthorizedFunctionType::CreateContractV2HostFn => 2,
        }
    }

    /// The variant that a code stands for; any other code is of an invalid type.
    pub fn from_i32(value: i32) -> (r: Result<Self, ParseError>)
        ensures
            r == match Self::from_code(value as int) {
                Some(k) => Ok::<Self, ParseError>(k),
                None => Err::<Self, ParseError>(ParseError::InvalidType(value)),
            },
            r matches Ok(k) ==> k.code_of() == value,
    {
        if value == 0 {
            Ok(SorobanAuthorizedFunctionType::ContractFn)
        } else if value == 1 {
            Ok(SorobanAuthorizedFunctionType::CreateContractHostFn)
        } else if value == 2 {
            Ok(SorobanAuthorizedFunctionType::CreateContractV2HostFn)
        } else {
            Err(ParseError::InvalidType(value))
        }
    }
}

impl<'a> XdrParse<'a> for SorobanAuthorizedFunctionType {
    open spec fn scan(data: Seq<u8>, pos: int, depth: int) -> Result<int, ParseError> {
        scan_code(data, pos, Self::from_code(be_i32(data, pos)) is Some)
    }

    open spec fn decoded_from(&self, data: Seq<u8>, pos: int, depth: int) -> bool {
        self.code_of() == be_i32(data, pos)
    }

    fn parse(parser: &mut Parser<'a>) -> (r: Result<Self, ParseError>) {
        let value = parser.parse_int32()?;
        Self::from_i32(value)
    }

    proof fn lemma_prefix(data: Seq<u8>, pos: int, depth: int, k: int) {
        lemma_fixed_prefix(data, pos, k);
    }
}

/// How long contract data lives.
#[derive(Debug, Clone, Copy, PartialEq, Eq)]
pub enum ContractDataDurability {
    Temporary,
    Persistent,
}

impl ContractDataDurability {
    /// The code that stands for this variant on the wire.
    pub open spec fn code_of(self) -> int {
        match self {
            ContractDataDurability::Temporary => 0,
            ContractDataDurability::Persistent => 1,
        }
    }

    /// The variant that a code stands for, if any.
    pub open spec fn from_code(code: int) -> Option<Self> {
        if code == 0 {
            Some(ContractDataDurability::Temporary)
        } else if code == 1 {
            Some(ContractDataDurability::Persistent)
        } else {
            None
        }
    }

    /// The code that stands for this variant on the wire.
    pub fn code(&self) -> (c: i32)
        ensures
            c == self.code_of(),
    {
        match self {
            ContractDataDurability::Temporary => 0,
            ContractDataDurability::Persistent => 1,
        }
    }

    /// The variant that a code stands for; any other code is of an invalid type.
    pub fn from_i32(value: i32) -> (r: Result<Self, ParseError>)
        ensures
            r == match Self::from_code(value as int) {
                Some(k) => Ok::<Self, ParseError>(k),
                None => Err::<Self, ParseError>(ParseError::InvalidType(value)),
            },
            r matches Ok(k) ==> k.code_of() == value,
    {
        if value == 0 {
            Ok(ContractDataDurability::Temporary)
        } else if value == 1 {
            Ok(ContractDataDurability::Persistent)
        } else {
            Err(ParseError::InvalidType(value))
        }
    }
}

impl<'a> XdrParse<'a> for ContractDataDurability {
    open spec fn scan(data: Seq<u8>, pos: int, depth: int) -> Result<int, ParseError> {
        scan_code(data, pos, Self::from_code(be_i32(data, pos)) is Some)
    }

    open spec fn decoded_from(&self, data: Seq<u8>, pos: int, depth: int) -> bool {
        self.code_of() == be_i32(data, pos)
    }

    fn parse(parser: &mut Parser<'a>) -> (r: Result<Self, ParseError>) {
        let value = parser.parse_int32()?;
        Self::from_i32(value)
    }

    proof fn lemma_prefix(data: Seq<u8>, pos: int, depth: int, k: int) {
        lemma_fixed_prefix(data, pos, k);
    }
}

/// The network configuration settings.
#[derive(Debug, Clone, Copy, PartialEq, Eq)]
pub enum ConfigSettingID {
    ConfigSettingContractMaxSizeBytes,
    ConfigSettingContractComputeV0,
    ConfigSettingContractLedgerCostV0,
    ConfigSettingContractHistoricalDataV0,
    ConfigSettingContractEventsV0,
    ConfigSettingContractBandwidthV0,
    ConfigSettingContractCostParamsCpuInstructions,
    ConfigSettingContractCostParamsMemoryBytes,
    ConfigSettingContractDataKeySizeBytes,
    ConfigSettingContractDataEntrySizeBytes,
    ConfigSettingStateArchival,
    ConfigSettingContractExecutionLanes,
    ConfigSettingLiveSorobanStateSizeWindow,
    ConfigSettingEvictionIterator,
    ConfigSettingContractParallelComputeV0,
    ConfigSettingContractLedgerCostExtV0,
    ConfigSettingScpTiming,
}

impl ConfigSettingID {
    /// The code that stands for this variant on the wire.
    pub open spec fn code_of(self) -> int {
        match self {
            ConfigSettingID::ConfigSettingContractMaxSizeBytes => 0,
            ConfigSettingID::ConfigSettingContractComputeV0 => 1,
            ConfigSettingID::ConfigSettingContractLedgerCostV0 => 2,
            ConfigSettingID::ConfigSettingContractHistoricalDataV0 => 3,
            ConfigSettingID::ConfigSettingContractEventsV0 => 4,
            ConfigSettingID::ConfigSettingContractBandwidthV0 => 5,
            ConfigSettingID::ConfigSettingContractCostParamsCpuInstructions => 6,
            ConfigSettingID::ConfigSettingContractCostParamsMemoryBytes => 7,
            ConfigSettingID::ConfigSettingContractDataKeySizeBytes => 8,
            ConfigSettingID::ConfigSettingContractDataEntrySizeBytes => 9,
            ConfigSettingID::ConfigSettingStateArchival => 10,
            ConfigSettingID::ConfigSettingContractExecutionLanes => 11,
            ConfigSettingID::ConfigSettingLiveSorobanStateSizeWindow => 12,
            ConfigSettingID::ConfigSettingEvictionIterator => 13,
            ConfigSettingID::ConfigSettingContractParallelComputeV0 => 14,
            ConfigSettingID::ConfigSettingContractLedgerCostExtV0 => 15,
            ConfigSettingID::ConfigSettingScpTiming => 16,
        }
    }

    /// The variant that a code stands for, if any.
    pub open spec fn from_code(code: int) -> Option<Self> {
        if code == 0 {
            Some(ConfigSettingID::ConfigSettingContractMaxSizeBytes)
        } else if code == 1 {
            Some(ConfigSettingID::ConfigSettingContractComputeV0)
        } else if code == 2 {
            Some(ConfigSettingID::ConfigSettingContractLedgerCostV0)
        } else if code == 3 {
            Some(ConfigSettingID::ConfigSettingContractHistoricalDataV0)
        } else if code == 4 {
            Some(ConfigSettingID::ConfigSettingContractEventsV0)
        } else if code == 5 {
            Some(ConfigSettingID::ConfigSettingContractBandwidthV0)
        } else if code == 6 {
            Some(ConfigSettingID::ConfigSettingContractCostParamsCpuInstructions)
        } else if code == 7 {
            Some(ConfigSettingID::ConfigSettingContractCostParamsMemoryBytes)
        } else if code == 8 {
            Some(ConfigSettingID::ConfigSettingContractDataKeySizeBytes)
        } else if code == 9 {
            Some(ConfigSettingID::ConfigSettingContractDataEntrySizeBytes)
        } else if code == 10 {
            Some(ConfigSettingID::ConfigSettingStateArchival)
        } else if code == 11 {
            Some(ConfigSettingID::ConfigSettingContractExecutionLanes)
        } else if code == 12 {
            Some(ConfigSettingID::ConfigSettingLiveSorobanStateSizeWindow)
        } else if code == 13 {
            Some(ConfigSettingID::ConfigSettingEvictionIterator)
        } else if code == 14 {
            Some(ConfigSettingID::ConfigSettingContractParallelComputeV0)
        } else if code == 15 {
            Some(ConfigSettingID::ConfigSettingContractLedgerCostExtV0)
        } else if code == 16 {
            Some(ConfigSettingID::ConfigSettingScpTiming)
        } else {
            None
        }
    }

    /// The code that stands for this variant on the wire.
    pub fn code(&self) -> (c: i32)
        ensures
            c == self.code_of(),
    {
        match self {
            ConfigSettingID::ConfigSettingContractMaxSizeBytes => 0,
            ConfigSettingID::ConfigSettingContractComputeV0 => 1,
            ConfigSettingID::ConfigSettingContractLedgerCostV0 => 2,
            ConfigSettingID::ConfigSettingContractHistoricalDataV0 => 3,
            ConfigSettingID::ConfigSettingContractEventsV0 => 4,
            ConfigSettingID::ConfigSettingContractBandwidthV0 => 5,
            ConfigSettingID::ConfigSettingContractCostParamsCpuInstructions => 6,
            ConfigSettingID::ConfigSettingContractCostParamsMemoryBytes => 7,
            ConfigSettingID::ConfigSettingContractDataKeySizeBytes => 8,
            ConfigSettingID::ConfigSettingContractDataEntrySizeBytes => 9,
            ConfigSettingID::ConfigSettingStateArchival => 10,
            ConfigSettingID::ConfigSettingContractExecutionLanes => 11,
            ConfigSettingID::ConfigSettingLiveSorobanStateSizeWindow => 12,
            ConfigSettingID::ConfigSettingEvictionIterator => 13,
            ConfigSettingID::ConfigSettingContractParallelComputeV0 => 14,
            ConfigSettingID::ConfigSettingContractLedgerCostExtV0 => 15,
            ConfigSettingID::ConfigSettingScpTiming => 16,
        }
    }

    /// The variant that a code stands for; any other code is of an invalid type.
    pub fn from_i32(value: i32) -> (r: Result<Self, ParseError>)
        ensures
            r == match Self::from_code(value as int) {
                Some(k) => Ok::<Self, ParseError>(k),
                None => Err::<Self, ParseError>(ParseError::InvalidType(value)),
            },
            r matches Ok(k) ==> k.code_of() == value,
    {
        if value == 0 {
            Ok(ConfigSettingID::ConfigSettingContractMaxSizeBytes)
        } else if value == 1 {
            Ok(ConfigSettingID::ConfigSettingContractComputeV0)
        } else if value == 2 {
            Ok(ConfigSettingID::ConfigSettingContractLedgerCostV0)
        } else if value == 3 {
            Ok(ConfigSettingID::ConfigSettingContractHistoricalDataV0)
        } else if value == 4 {
            Ok(ConfigSettingID::ConfigSettingContractEventsV0)
        } else if value == 5 {
            Ok(ConfigSettingID::ConfigSettingContractBandwidthV0)
        } else if value == 6 {
            Ok(ConfigSettingID::ConfigSettingContractCostParamsCpuInstructions)
        } else if value == 7 {
            Ok(ConfigSettingID::ConfigSettingContractCostParamsMemoryBytes)
        } else if value == 8 {
            Ok(ConfigSettingID::ConfigSettingContractDataKeySizeBytes)
        } else if value == 9 {
            Ok(ConfigSettingID::ConfigSettingContractDataEntrySizeBytes)
        } else if value == 10 {
            Ok(ConfigSettingID::ConfigSettingStateArchival)
        } else if value == 11 {
            Ok(ConfigSettingID::ConfigSettingContractExecutionLanes)
        } else if value == 12 {
            Ok(ConfigSettingID::ConfigSettingLiveSorobanStateSizeWindow)
        } else if value == 13 {
            Ok(ConfigSettingID::ConfigSettingEvictionIterator)
        } else if value == 14 {
            Ok(ConfigSettingID::ConfigSettingContractParallelComputeV0)
        } else if value == 15 {
            Ok(ConfigSettingID::ConfigSettingContractLedgerCostExtV0)
        } else if value == 16 {
            Ok(ConfigSettingID::ConfigSettingScpTiming)
        } else {
            Err(ParseError::InvalidType(value))
        }
    }
}

impl<'a> XdrParse<'a> for ConfigSettingID {
    open spec fn scan(data: Seq<u8>, pos: int, depth: int) -> Result<int, ParseError> {
        scan_code(data, pos, Self::from_code(be_i32(data, pos)) is Some)
    }

    open spec fn decoded_from(&self, data: Seq<u8>, pos: int, depth: int) -> bool {
        self.code_of() == be_i32(data, pos)
    }

    fn parse(parser: &mut Parser<'a>) -> (r: Result<Self, ParseError>) {
        let value = parser.parse_int32()?;
        Self::from_i32(value)
    }

    proof fn lemma_prefix(data: Seq<u8>, pos: int, depth: int, k: int) {
        lemma_fixed_prefix(data, pos, k);
    }
}

/// The kinds of ledger entry.
#[derive(Debug, Clone, Copy, PartialEq, Eq)]
pub enum LedgerEntryType {
    Account,
    Trustline,
    Offer,
    Data,
    ClaimableBalance,
    LiquidityPool,
    ContractData,
    ContractCode,
    ConfigSetting,
    Ttl,
}

impl LedgerEntryType {
    /// The code that stands for this variant on the wire.
    pub open spec fn code_of(self) -> int {
        match self {
            LedgerEntryType::Account => 0,
            LedgerEntryType::Trustline => 1,
            LedgerEntryType::Offer => 2,
            LedgerEntryType::Data => 3,
            LedgerEntryType::ClaimableBalance => 4,
            LedgerEntryType::LiquidityPool => 5,
            LedgerEntryType::ContractData => 6,
            LedgerEntryType::ContractCode => 7,
            LedgerEntryType::ConfigSetting => 8,
            LedgerEntryType::Ttl => 9,
        }
    }

    /// The variant that a code stands for, if any.
    pub open spec fn from_code(code: int) -> Option<Self> {
        if code == 0 {
            Some(LedgerEntryType::Account)
        } else if code == 1 {
            Some(LedgerEntryType::Trustline)
        } else if code == 2 {
            Some(LedgerEntryType::Offer)
        } else if code == 3 {
            Some(LedgerEntryType::Data)
        } else if code == 4 {
            Some(LedgerEntryType::ClaimableBalance)
        } else if code == 5 {
            Some(LedgerEntryType::LiquidityPool)
        } else if code == 6 {
            Some(LedgerEntryType::ContractData)
        } else if code == 7 {
            Some(LedgerEntryType::ContractCode)
        } else if code == 8 {
            Some(LedgerEntryType::ConfigSetting)
        } else if code == 9 {
            Some(LedgerEntryType::Ttl)
        } else {
            None
        }
    }

    /// The code that stands for this variant on the wire.
    pub fn code(&self) -> (c: i32)
        ensures
            c == self.code_of(),
    {
        match self {
            LedgerEntryType::Account => 0,
            LedgerEntryType::Trustline => 1,
            LedgerEntryType::Offer => 2,
            LedgerEntryType::Data => 3,
            LedgerEntryType::ClaimableBalance => 4,
            LedgerEntryType::LiquidityPool => 5,
            LedgerEntryType::ContractData => 6,
            LedgerEntryType::ContractCode => 7,
            LedgerEntryType::ConfigSetting => 8,
            LedgerEntryType::Ttl => 9,
        }
    }

    /// The variant that a code stands for; any other code is of an invalid type.
    pub fn from_i32(value: i32) -> (r: Result<Self, ParseError>)
        ensures
            r == match Self::from_code(value as int) {
                Some(k) => Ok::<Self, ParseError>(k),
                None => Err::<Self, ParseError>(ParseError::InvalidType(value)),
            },
            r matches Ok(k) ==> k.code_of() == value,
    {
        if value == 0 {
            Ok(LedgerEntryType::Account)
        } else if value == 1 {
            Ok(LedgerEntryType::Trustline)
        } else if value == 2 {
            Ok(LedgerEntryType::Offer)
        } else if value == 3 {
            Ok(LedgerEntryType::Data)
        } else if value == 4 {
            Ok(LedgerEntryType::ClaimableBalance)
        } else if value == 5 {
            Ok(LedgerEntryType::LiquidityPool)
        } else if value == 6 {
            Ok(LedgerEntryType::ContractData)
        } else if value == 7 {
            Ok(LedgerEntryType::ContractCode)
        } else if value == 8 {
            Ok(LedgerEntryType::ConfigSetting)
        } else if value == 9 {
            Ok(LedgerEntryType::Ttl)
        } else {
            Err(ParseError::InvalidType(value))
        }
    }
}

impl<'a> XdrParse<'a> for LedgerEntryType {
    open spec fn scan(data: Seq<u8>, pos: int, depth: int) -> Result<int, ParseError> {
        scan_code(data, pos, Self::from_code(be_i32(data, pos)) is Some)
    }

    open spec fn decoded_from(&self, data: Seq<u8>, pos: int, depth: int) -> bool {
        self.code_of() == be_i32(data, pos)
    }

    fn parse(parser: &mut Parser<'a>) -> (r: Result<Self, ParseError>) {
        let value = parser.parse_int32()?;
        Self::from_i32(value)
    }

    proof fn lemma_prefix(data: Seq<u8>, pos: int, depth: int, k: int) {
        lemma_fixed_prefix(data, pos, k);
    }
}

/// The kinds of sponsorship revocation.
#[derive(Debug, Clone, Copy, PartialEq, Eq)]
pub enum RevokeSponsorshipType {
    LedgerEntry,
    Signer,
}

impl RevokeSponsorshipType {
    /// The code that stands for this variant on the wire.
    pub open spec fn code_of(self) -> int {
        match self {
            RevokeSponsorshipType::LedgerEntry => 0,
            RevokeSponsorshipType::Signer => 1,
        }
    }

    /// The variant that a code stands for, if any.
    pub open spec fn from_code(code: int) -> Option<Self> {
        if code == 0 {
            Some(RevokeSponsorshipType::LedgerEntry)
        } else if code == 1 {
            Some(RevokeSponsorshipType::Signer)
        } else {
            None
        }
    }

    /// The code that stands for this variant on the wire.
    pub fn code(&self) -> (c: i32)
        ensures
            c == self.code_of(),
    {
        match self {
            RevokeSponsorshipType::LedgerEntry => 0,
            RevokeSponsorshipType::Signer => 1,
        }
    }

    /// The variant that a code stands for; any other code is of an invalid type.
    pub fn from_i32(value: i32) -> (r: Result<Self, ParseError>)
        ensures
            r == match Self::from_code(value as int) {
                Some(k) => Ok::<Self, ParseError>(k),
                None => Err::<Self, ParseError>(ParseError::InvalidType(value)),
            },
            r matches Ok(k) ==> k.code_of() == value,
    {
        if value == 0 {
            Ok(RevokeSponsorshipType::LedgerEntry)
        } else if value == 1 {
            Ok(RevokeSponsorshipType::Signer)
        } else {
            Err(ParseError::InvalidType(value))
        }
    }
}

impl<'a> XdrParse<'a> for RevokeSponsorshipType {
    open spec fn scan(data: Seq<u8>, pos: int, depth: int) -> Result<int, ParseError> {
        scan_code(data, pos, Self::from_code(be_i32(data, pos)) is Some)
    }

    open spec fn decoded_from(&self, data: Seq<u8>, pos: int, depth: int) -> bool {
        self.code_of() == be_i32(data, pos)
    }

    fn parse(parser: &mut Parser<'a>) -> (r: Result<Self, ParseError>) {
        let value = parser.parse_int32()?;
        Self::from_i32(value)
    }

    proof fn lemma_prefix(data: Seq<u8>, pos: int, depth: int, k: int) {
        lemma_fixed_prefix(data, pos, k);
    }
}

} // verus!

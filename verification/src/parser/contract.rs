//! Contract values, contract calls and their authorizations.

use super::codec::{BytesM, StringM, VecM, XdrParse};
use super::codes::{
    ClaimableBalanceIdType, ContractExecutableType, ContractIDPreimageType, EnvelopeType,
    HostFunctionType, SCErrorCode, SCErrorType, ScAddressType, ScValType,
    SorobanAuthorizedFunctionType, SorobanCredentialsType,
};
use super::cursor::{
    be_i32, be_i64, be_u32, be_u64, cut_short, fuel, lemma_fixed_prefix, lemma_opaque_prefix,
    opaque_payload, scan_bool, scan_fixed, scan_opaque, stepped, ParseError, Parser,
    MAX_PARSE_DEPTH,
};
use super::keys::{Asset, MuxedEd25519, PublicKey, Uint256};
use vstd::prelude::*;

verus! {

/// An unsigned 128-bit integer as two words, high word first.
#[derive(Debug, Clone, PartialEq, Eq)]
pub struct UInt128Parts {
    pub hi: u64,
    pub lo: u64,
}

impl<'a> XdrParse<'a> for UInt128Parts {
    open spec fn scan(data: Seq<u8>, pos: int, depth: int) -> Result<int, ParseError> {
        match scan_fixed(data, pos, 8) {
            Err(e) => Err(e),
            Ok(p1) => {
                scan_fixed(data, p1, 8)
            },
        }
    }

    open spec fn decoded_from(&self, data: Seq<u8>, pos: int, depth: int) -> bool {
        &&& self.hi == be_u64(data, pos)
        &&& self.lo == be_u64(data, pos + 8)
    }

    fn parse(parser: &mut Parser<'a>) -> (r: Result<Self, ParseError>) {
        let hi = parser.parse_uint64()?;
        let lo = parser.parse_uint64()?;
        Ok(UInt128Parts { hi, lo })
    }

    proof fn lemma_prefix(data: Seq<u8>, pos: int, depth: int, k: int) {
        lemma_fixed_prefix(data, pos, k);
        if scan_fixed(data, pos, 8) is Ok {
            let p1 = scan_fixed(data, pos, 8)->Ok_0;
            lemma_fixed_prefix(data, p1, k);
        }
    }
}

/// A signed 128-bit integer as two words, high word first.
#[derive(Debug, Clone, PartialEq, Eq)]
pub struct Int128Parts {
    pub hi: i64,
    pub lo: u64,
}

impl<'a> XdrParse<'a> for Int128Parts {
    open spec fn scan(data: Seq<u8>, pos: int, depth: int) -> Result<int, ParseError> {
        match scan_fixed(data, pos, 8) {
            Err(e) => Err(e),
            Ok(p1) => {
                scan_fixed(data, p1, 8)
            },
        }
    }

    open spec fn decoded_from(&self, data: Seq<u8>, pos: int, depth: int) -> bool {
        &&& self.hi == be_i64(data, pos)
        &&& self.lo == be_u64(data, pos + 8)
    }

    fn parse(parser: &mut Parser<'a>) -> (r: Result<Self, ParseError>) {
        let hi = parser.parse_int64()?;
        let lo = parser.parse_uint64()?;
        Ok(Int128Parts { hi, lo })
    }

    proof fn lemma_prefix(data: Seq<u8>, pos: int, depth: int, k: int) {
        lemma_fixed_prefix(data, pos, k);
        if scan_fixed(data, pos, 8) is Ok {
            let p1 = scan_fixed(data, pos, 8)->Ok_0;
            lemma_fixed_prefix(data, p1, k);
        }
    }
}

/// An unsigned 256-bit integer as four words, highest first.
#[derive(Debug, Clone, PartialEq, Eq)]
pub struct UInt256Parts {
    pub hi_hi: u64,
    pub hi_lo: u64,
    pub lo_hi: u64,
    pub lo_lo: u64,
}

impl<'a> XdrParse<'a> for UInt256Parts {
    open spec fn scan(data: Seq<u8>, pos: int, depth: int) -> Result<int, ParseError> {
        match scan_fixed(data, pos, 8) {
            Err(e) => Err(e),
            Ok(p1) => {
                match scan_fixed(data, p1, 8) {
                    Err(e) => Err(e),
                    Ok(p2) => {
                        match scan_fixed(data, p2, 8) {
                            Err(e) => Err(e),
                            Ok(p3) => {
                                scan_fixed(data, p3, 8)
                            },
                        }
                    },
                }
            },
        }
    }

    open spec fn decoded_from(&self, data: Seq<u8>, pos: int, depth: int) -> bool {
        &&& self.hi_hi == be_u64(data, pos)
        &&& self.hi_lo == be_u64(data, pos + 8)
        &&& self.lo_hi == be_u64(data, pos + 16)
        &&& self.lo_lo == be_u64(data, pos + 24)
    }

    fn parse(parser: &mut Parser<'a>) -> (r: Result<Self, ParseError>) {
        let hi_hi = parser.parse_uint64()?;
        let hi_lo = parser.parse_uint64()?;
        let lo_hi = parser.parse_uint64()?;
        let lo_lo = parser.parse_uint64()?;
        Ok(UInt256Parts { hi_hi, hi_lo, lo_hi, lo_lo })
    }

    proof fn lemma_prefix(data: Seq<u8>, pos: int, depth: int, k: int) {
        lemma_fixed_prefix(data, pos, k);
        if scan_fixed(data, pos, 8) is Ok {
            let p1 = scan_fixed(data, pos, 8)->Ok_0;
            lemma_fixed_prefix(data, p1, k);
            if scan_fixed(data, p1, 8) is Ok {
                let p2 = scan_fixed(data, p1, 8)->Ok_0;
                lemma_fixed_prefix(data, p2, k);
                if scan_fixed(data, p2, 8) is Ok {
                    let p3 = scan_fixed(data, p2, 8)->Ok_0;
                    lemma_fixed_prefix(data, p3, k);
                }
            }
        }
    }
}

/// A signed 256-bit integer as four words, highest first.
#[derive(Debug, Clone, PartialEq, Eq)]
pub struct Int256Parts {
    pub hi_hi: i64,
    pub hi_lo: u64,
    pub lo_hi: u64,
    pub lo_lo: u64,
}

impl<'a> XdrParse<'a> for Int256Parts {
    open spec fn scan(data: Seq<u8>, pos: int, depth: int) -> Result<int, ParseError> {
        match scan_fixed(data, pos, 8) {
            Err(e) => Err(e),
            Ok(p1) => {
                match scan_fixed(data, p1, 8) {
                    Err(e) => Err(e),
                    Ok(p2) => {
                        match scan_fixed(data, p2, 8) {
                            Err(e) => Err(e),
                            Ok(p3) => {
                                scan_fixed(data, p3, 8)
                            },
                        }
                    },
                }
            },
        }
    }

    open spec fn decoded_from(&self, data: Seq<u8>, pos: int, depth: int) -> bool {
        &&& self.hi_hi == be_i64(data, pos)
        &&& self.hi_lo == be_u64(data, pos + 8)
        &&& self.lo_hi == be_u64(data, pos + 16)
        &&& self.lo_lo == be_u64(data, pos + 24)
    }

    fn parse(parser: &mut Parser<'a>) -> (r: Result<Self, ParseError>) {
        let hi_hi = parser.parse_int64()?;
        let hi_lo = parser.parse_uint64()?;
        let lo_hi = parser.parse_uint64()?;
        let lo_lo = parser.parse_uint64()?;
        Ok(Int256Parts { hi_hi, hi_lo, lo_hi, lo_lo })
    }

    proof fn lemma_prefix(data: Seq<u8>, pos: int, depth: int, k: int) {
        lemma_fixed_prefix(data, pos, k);
        if scan_fixed(data, pos, 8) is Ok {
            let p1 = scan_fixed(data, pos, 8)->Ok_0;
            lemma_fixed_prefix(data, p1, k);
            if scan_fixed(data, p1, 8) is Ok {
                let p2 = scan_fixed(data, p1, 8)->Ok_0;
                lemma_fixed_prefix(data, p2, k);
                if scan_fixed(data, p2, 8) is Ok {
                    let p3 = scan_fixed(data, p2, 8)->Ok_0;
                    lemma_fixed_prefix(data, p3, k);
                }
            }
        }
    }
}

pub type ScSymbol<'a> = StringM<'a, 32>;

pub type ScString<'a> = StringM<'a, 4294967295>;

pub type ScBytes<'a> = BytesM<'a, 4294967295>;

/// The identifier of a claimable balance.
#[derive(Debug, Clone, PartialEq, Eq)]
pub enum ClaimableBalanceId<'a> {
    ClaimableBalanceIdTypeV0(Uint256<'a>),
}

impl<'a> XdrParse<'a> for ClaimableBalanceId<'a> {
    open spec fn scan(data: Seq<u8>, pos: int, depth: int) -> Result<int, ParseError> {
        match ClaimableBalanceIdType::scan(data, pos, depth) {
            Err(e) => Err(e),
            Ok(p) => {
                if be_i32(data, pos) == 0 {
                    Uint256::scan(data, p, depth)
                } else {
                    Err(ParseError::InvalidType(be_i32(data, pos) as i32))
                }
            },
        }
    }

    open spec fn decoded_from(&self, data: Seq<u8>, pos: int, depth: int) -> bool {
        match self {
            ClaimableBalanceId::ClaimableBalanceIdTypeV0(v0) => {
                &&& be_i32(data, pos) == 0
                &&& v0.decoded_from(data, pos + 4, depth)
            },
        }
    }

    fn parse(parser: &mut Parser<'a>) -> (r: Result<Self, ParseError>) {
        let kind = ClaimableBalanceIdType::parse(parser)?;
        match kind {
            ClaimableBalanceIdType::ClaimableBalanceIdTypeV0 => {
                let v0 = Uint256::parse(parser)?;
                Ok(ClaimableBalanceId::ClaimableBalanceIdTypeV0(v0))
            },
        }
    }

    proof fn lemma_prefix(data: Seq<u8>, pos: int, depth: int, k: int) {
        ClaimableBalanceIdType::lemma_prefix(data, pos, depth, k);
        lemma_fixed_prefix(data, pos, k);
        if ClaimableBalanceIdType::scan(data, pos, depth) is Ok {
            let p = pos + 4;
            if be_i32(data, pos) == 0 {
                Uint256::lemma_prefix(data, p, depth, k);
            }
        }
    }
}

/// An address that a contract can name.
#[derive(Debug, Clone, PartialEq, Eq)]
pub enum ScAddress<'a> {
    ScAddressTypeAccount(PublicKey<'a>),
    ScAddressTypeContract(Uint256<'a>),
    ScAddressTypeMuxedAccount(MuxedEd25519<'a>),
    ScAddressTypeClaimableBalance(ClaimableBalanceId<'a>),
    ScAddressTypeLiquidityPool(Uint256<'a>),
}

impl<'a> XdrParse<'a> for ScAddress<'a> {
    open spec fn scan(data: Seq<u8>, pos: int, depth: int) -> Result<int, ParseError> {
        match ScAddressType::scan(data, pos, depth) {
            Err(e) => Err(e),
            Ok(p) => {
                if be_i32(data, pos) == 0 {
                    PublicKey::scan(data, p, depth)
                } else if be_i32(data, pos) == 1 {
                    Uint256::scan(data, p, depth)
                } else if be_i32(data, pos) == 2 {
                    MuxedEd25519::scan(data, p, depth)
                } else if be_i32(data, pos) == 3 {
                    ClaimableBalanceId::scan(data, p, depth)
                } else if be_i32(data, pos) == 4 {
                    Uint256::scan(data, p, depth)
                } else {
                    Err(ParseError::InvalidType(be_i32(data, pos) as i32))
                }
            },
        }
    }

    open spec fn decoded_from(&self, data: Seq<u8>, pos: int, depth: int) -> bool {
        match self {
            ScAddress::ScAddressTypeAccount(v0) => {
                &&& be_i32(data, pos) == 0
                &&& v0.decoded_from(data, pos + 4, depth)
            },
            ScAddress::ScAddressTypeContract(v0) => {
                &&& be_i32(data, pos) == 1
                &&& v0.decoded_from(data, pos + 4, depth)
            },
            ScAddress::ScAddressTypeMuxedAccount(v0) => {
                &&& be_i32(data, pos) == 2
                &&& v0.decoded_from(data, pos + 4, depth)
            },
            ScAddress::ScAddressTypeClaimableBalance(v0) => {
                &&& be_i32(data, pos) == 3
                &&& v0.decoded_from(data, pos + 4, depth)
            },
            ScAddress::ScAddressTypeLiquidityPool(v0) => {
                &&& be_i32(data, pos) == 4
                &&& v0.decoded_from(data, pos + 4, depth)
            },
        }
    }

    fn parse(parser: &mut Parser<'a>) -> (r: Result<Self, ParseError>) {
        let kind = ScAddressType::parse(parser)?;
        match kind {
            ScAddressType::ScAddressTypeAccount => {
                let v0 = PublicKey::parse(parser)?;
                Ok(ScAddress::ScAddressTypeAccount(v0))
            },
            ScAddressType::ScAddressTypeContract => {
                let v0 = Uint256::parse(parser)?;
                Ok(ScAddress::ScAddressTypeContract(v0))
            },
            ScAddressType::ScAddressTypeMuxedAccount => {
                let v0 = MuxedEd25519::parse(parser)?;
                Ok(ScAddress::ScAddressTypeMuxedAccount(v0))
            },
            ScAddressType::ScAddressTypeClaimableBalance => {
                let v0 = ClaimableBalanceId::parse(parser)?;
                Ok(ScAddress::ScAddressTypeClaimableBalance(v0))
            },
            ScAddressType::ScAddressTypeLiquidityPool => {
                let v0 = Uint256::parse(parser)?;
                Ok(ScAddress::ScAddressTypeLiquidityPool(v0))
            },
        }
    }

    proof fn lemma_prefix(data: Seq<u8>, pos: int, depth: int, k: int) {
        ScAddressType::lemma_prefix(data, pos, depth, k);
        lemma_fixed_prefix(data, pos, k);
        if ScAddressType::scan(data, pos, depth) is Ok {
            let p = pos + 4;
            if be_i32(data, pos) == 0 {
                PublicKey::lemma_prefix(data, p, depth, k);
            } else if be_i32(data, pos) == 1 {
                Uint256::lemma_prefix(data, p, depth, k);
            } else if be_i32(data, pos) == 2 {
                MuxedEd25519::lemma_prefix(data, p, depth, k);
            } else if be_i32(data, pos) == 3 {
                ClaimableBalanceId::lemma_prefix(data, p, depth, k);
            } else if be_i32(data, pos) == 4 {
                Uint256::lemma_prefix(data, p, depth, k);
            }
        }
    }
}

/// The key under which a nonce is stored.
#[derive(Debug, Clone, PartialEq, Eq)]
pub struct ScNonceKey {
    pub nonce: i64,
}

impl<'a> XdrParse<'a> for ScNonceKey {
    open spec fn scan(data: Seq<u8>, pos: int, depth: int) -> Result<int, ParseError> {
        scan_fixed(data, pos, 8)
    }

    open spec fn decoded_from(&self, data: Seq<u8>, pos: int, depth: int) -> bool {
        self.nonce == be_i64(data, pos)
    }

    fn parse(parser: &mut Parser<'a>) -> (r: Result<Self, ParseError>) {
        let nonce = parser.parse_int64()?;
        Ok(ScNonceKey { nonce })
    }

    proof fn lemma_prefix(data: Seq<u8>, pos: int, depth: int, k: int) {
        lemma_fixed_prefix(data, pos, k);
    }
}

/// An error value of a contract.
#[derive(Debug, Clone, PartialEq, Eq)]
pub enum SCError {
    SceContract(u32),
    SceWasmVm(SCErrorCode),
    SceContext(SCErrorCode),
    SceStorage(SCErrorCode),
    SceObject(SCErrorCode),
    SceCrypto(SCErrorCode),
    SceEvents(SCErrorCode),
    SceBudget(SCErrorCode),
    SceValue(SCErrorCode),
    SceAuth(SCErrorCode),
}

impl<'a> XdrParse<'a> for SCError {
    open spec fn scan(data: Seq<u8>, pos: int, depth: int) -> Result<int, ParseError> {
        match SCErrorType::scan(data, pos, depth) {
            Err(e) => Err(e),
            Ok(p) => {
                if be_i32(data, pos) == 0 {
                    scan_fixed(data, p, 4)
                } else if be_i32(data, pos) == 1 {
                    SCErrorCode::scan(data, p, depth)
                } else if be_i32(data, pos) == 2 {
                    SCErrorCode::scan(data, p, depth)
                } else if be_i32(data, pos) == 3 {
                    SCErrorCode::scan(data, p, depth)
                } else if be_i32(data, pos) == 4 {
                    SCErrorCode::scan(data, p, depth)
                } else if be_i32(data, pos) == 5 {
                    SCErrorCode::scan(data, p, depth)
                } else if be_i32(data, pos) == 6 {
                    SCErrorCode::scan(data, p, depth)
                } else if be_i32(data, pos) == 7 {
                    SCErrorCode::scan(data, p, depth)
                } else if be_i32(data, pos) == 8 {
                    SCErrorCode::scan(data, p, depth)
                } else if be_i32(data, pos) == 9 {
                    SCErrorCode::scan(data, p, depth)
                } else {
                    Err(ParseError::InvalidType(be_i32(data, pos) as i32))
                }
            },
        }
    }

    open spec fn decoded_from(&self, data: Seq<u8>, pos: int, depth: int) -> bool {
        match self {
            SCError::SceContract(v0) => {
                &&& be_i32(data, pos) == 0
                &&& v0 == be_u32(data, pos + 4)
            },
            SCError::SceWasmVm(v0) => {
                &&& be_i32(data, pos) == 1
                &&& v0.decoded_from(data, pos + 4, depth)
            },
            SCError::SceContext(v0) => {
                &&& be_i32(data, pos) == 2
                &&& v0.decoded_from(data, pos + 4, depth)
            },
            SCError::SceStorage(v0) => {
                &&& be_i32(data, pos) == 3
                &&& v0.decoded_from(data, pos + 4, depth)
            },
            SCError::SceObject(v0) => {
                &&& be_i32(data, pos) == 4
                &&& v0.decoded_from(data, pos + 4, depth)
            },
            SCError::SceCrypto(v0) => {
                &&& be_i32(data, pos) == 5
                &&& v0.decoded_from(data, pos + 4, depth)
            },
            SCError::SceEvents(v0) => {
                &&& be_i32(data, pos) == 6
                &&& v0.decoded_from(data, pos + 4, depth)
            },
            SCError::SceBudget(v0) => {
                &&& be_i32(data, pos) == 7
                &&& v0.decoded_from(data, pos + 4, depth)
            },
            SCError::SceValue(v0) => {
                &&& be_i32(data, pos) == 8
                &&& v0.decoded_from(data, pos + 4, depth)
            },
            SCError::SceAuth(v0) => {
                &&& be_i32(data, pos) == 9
                &&& v0.decoded_from(data, pos + 4, depth)
            },
        }
    }

    fn parse(parser: &mut Parser<'a>) -> (r: Result<Self, ParseError>) {
        let kind = SCErrorType::parse(parser)?;
        match kind {
            SCErrorType::SceContract => {
                let v0 = parser.parse_uint32()?;
                Ok(SCError::SceContract(v0))
            },
            SCErrorType::SceWasmVm => {
                let v0 = SCErrorCode::parse(parser)?;
                Ok(SCError::SceWasmVm(v0))
            },
            SCErrorType::SceContext => {
                let v0 = SCErrorCode::parse(parser)?;
                Ok(SCError::SceContext(v0))
            },
            SCErrorType::SceStorage => {
                let v0 = SCErrorCode::parse(parser)?;
                Ok(SCError::SceStorage(v0))
            },
            SCErrorType::SceObject => {
                let v0 = SCErrorCode::parse(parser)?;
                Ok(SCError::SceObject(v0))
            },
            SCErrorType::SceCrypto => {
                let v0 = SCErrorCode::parse(parser)?;
                Ok(SCError::SceCrypto(v0))
            },
            SCErrorType::SceEvents => {
                let v0 = SCErrorCode::parse(parser)?;
                Ok(SCError::SceEvents(v0))
            },
            SCErrorType::SceBudget => {
                let v0 = SCErrorCode::parse(parser)?;
                Ok(SCError::SceBudget(v0))
            },
            SCErrorType::SceValue => {
                let v0 = SCErrorCode::parse(parser)?;
                Ok(SCError::SceValue(v0))
            },
            SCErrorType::SceAuth => {
                let v0 = SCErrorCode::parse(parser)?;
                Ok(SCError::SceAuth(v0))
            },
        }
    }

    proof fn lemma_prefix(data: Seq<u8>, pos: int, depth: int, k: int) {
        SCErrorType::lemma_prefix(data, pos, depth, k);
        lemma_fixed_prefix(data, pos, k);
        if SCErrorType::scan(data, pos, depth) is Ok {
            let p = pos + 4;
            if be_i32(data, pos) == 0 {
                lemma_fixed_prefix(data, p, k);
            } else if be_i32(data, pos) == 1 {
                SCErrorCode::lemma_prefix(data, p, depth, k);
            } else if be_i32(data, pos) == 2 {
                SCErrorCode::lemma_prefix(data, p, depth, k);
            } else if be_i32(data, pos) == 3 {
                SCErrorCode::lemma_prefix(data, p, depth, k);
            } else if be_i32(data, pos) == 4 {
                SCErrorCode::lemma_prefix(data, p, depth, k);
            } else if be_i32(data, pos) == 5 {
                SCErrorCode::lemma_prefix(data, p, depth, k);
            } else if be_i32(data, pos) == 6 {
                SCErrorCode::lemma_prefix(data, p, depth, k);
            } else if be_i32(data, pos) == 7 {
                SCErrorCode::lemma_prefix(data, p, depth, k);
            } else if be_i32(data, pos) == 8 {
                SCErrorCode::lemma_prefix(data, p, depth, k);
            } else if be_i32(data, pos) == 9 {
                SCErrorCode::lemma_prefix(data, p, depth, k);
            }
        }
    }
}

/// What a contract runs.
#[derive(Debug, Clone, PartialEq, Eq)]
pub enum ContractExecutable<'a> {
    Wasm(Uint256<'a>),
    StellarAsset,
}

impl<'a> XdrParse<'a> for ContractExecutable<'a> {
    open spec fn scan(data: Seq<u8>, pos: int, depth: int) -> Result<int, ParseError> {
        match ContractExecutableType::scan(data, pos, depth) {
            Err(e) => Err(e),
            Ok(p) => {
                if be_i32(data, pos) == 0 {
                    Uint256::scan(data, p, depth)
                } else if be_i32(data, pos) == 1 {
                    Ok(p)
                } else {
                    Err(ParseError::InvalidType(be_i32(data, pos) as i32))
                }
            },
        }
    }

    open spec fn decoded_from(&self, data: Seq<u8>, pos: int, depth: int) -> bool {
        match self {
            ContractExecutable::Wasm(v0) => {
                &&& be_i32(data, pos) == 0
                &&& v0.decoded_from(data, pos + 4, depth)
            },
            ContractExecutable::StellarAsset => be_i32(data, pos) == 1,
        }
    }

    fn parse(parser: &mut Parser<'a>) -> (r: Result<Self, ParseError>) {
        let kind = ContractExecutableType::parse(parser)?;
        match kind {
            ContractExecutableType::Wasm => {
                let v0 = Uint256::parse(parser)?;
                Ok(ContractExecutable::Wasm(v0))
            },
            ContractExecutableType::StellarAsset => {
                Ok(ContractExecutable::StellarAsset)
            },
        }
    }

    proof fn lemma_prefix(data: Seq<u8>, pos: int, depth: int, k: int) {
        ContractExecutableType::lemma_prefix(data, pos, depth, k);
        lemma_fixed_prefix(data, pos, k);
        if ContractExecutableType::scan(data, pos, depth) is Ok {
            let p = pos + 4;
            if be_i32(data, pos) == 0 {
                Uint256::lemma_prefix(data, p, depth, k);
            }
        }
    }
}

/// One entry of a contract map.
#[derive(Debug, PartialEq, Eq)]
pub struct ScMapEntry<'a> {
    pub key: ScVal<'a>,
    pub val: ScVal<'a>,
}

/// A contract's executable together with its storage.
#[derive(Debug, PartialEq, Eq)]
pub struct SCContractInstance<'a> {
    pub executable: ContractExecutable<'a>,
    pub storage: Option<VecM<ScMapEntry<'a>, 4294967295>>,
}

/// A value that a contract takes or gives. Lists and maps hold values of this
/// type again, one level deeper.
#[derive(Debug, PartialEq, Eq)]
pub enum ScVal<'a> {
    Bool(bool),
    Void,
    Error(SCError),
    U32(u32),
    I32(i32),
    U64(u64),
    I64(i64),
    Timepoint(u64),
    Duration(u64),
    U128(UInt128Parts),
    I128(Int128Parts),
    U256(UInt256Parts),
    I256(Int256Parts),
    Bytes(BytesM<'a, 4294967295>),
    String(StringM<'a, 4294967295>),
    Symbol(StringM<'a, 32>),
    Vec(Option<VecM<ScVal<'a>, 4294967295>>),
    ScMap(Option<VecM<ScMapEntry<'a>, 4294967295>>),
    Address(ScAddress<'a>),
    ContractInstance(SCContractInstance<'a>),
    LedgerKeyContractInstance,
    LedgerKeyNonce(ScNonceKey),
}

/// Where a contract value at `pos` ends.
pub open spec fn scval_scan(data: Seq<u8>, pos: int, depth: int) -> Result<int, ParseError>
    decreases fuel(depth), 2nat, 0nat,
{
    match ScValType::scan(data, pos, depth) {
        Err(e) => Err(e),
        Ok(p) => {
            if be_i32(data, pos) == 0 {
                scan_bool(data, p)
            } else if be_i32(data, pos) == 1 {
                Ok(p)
            } else if be_i32(data, pos) == 2 {
                SCError::scan(data, p, depth)
            } else if be_i32(data, pos) == 3 {
                scan_fixed(data, p, 4)
            } else if be_i32(data, pos) == 4 {
                scan_fixed(data, p, 4)
            } else if be_i32(data, pos) == 5 {
                scan_fixed(data, p, 8)
            } else if be_i32(data, pos) == 6 {
                scan_fixed(data, p, 8)
            } else if be_i32(data, pos) == 7 {
                scan_fixed(data, p, 8)
            } else if be_i32(data, pos) == 8 {
                scan_fixed(data, p, 8)
            } else if be_i32(data, pos) == 9 {
                UInt128Parts::scan(data, p, depth)
            } else if be_i32(data, pos) == 10 {
                Int128Parts::scan(data, p, depth)
            } else if be_i32(data, pos) == 11 {
                UInt256Parts::scan(data, p, depth)
            } else if be_i32(data, pos) == 12 {
                Int256Parts::scan(data, p, depth)
            } else if be_i32(data, pos) == 13 {
                BytesM::<4294967295>::scan(data, p, depth)
            } else if be_i32(data, pos) == 14 {
                StringM::<4294967295>::scan(data, p, depth)
            } else if be_i32(data, pos) == 15 {
                StringM::<32>::scan(data, p, depth)
            } else if be_i32(data, pos) == 16 {
                scval_optional_list_scan(data, p, depth)
            } else if be_i32(data, pos) == 17 {
                scmap_optional_list_scan(data, p, depth)
            } else if be_i32(data, pos) == 18 {
                ScAddress::scan(data, p, depth)
            } else if be_i32(data, pos) == 19 {
                contract_instance_scan(data, p, depth)
            } else if be_i32(data, pos) == 20 {
                Ok(p)
            } else if be_i32(data, pos) == 21 {
                ScNonceKey::scan(data, p, depth)
            } else {
                Err(ParseError::InvalidType(be_i32(data, pos) as i32))
            }
        },
    }
}

/// Whether `v` is the contract value that the bytes at `pos` encode.
pub open spec fn scval_decoded(v: ScVal, data: Seq<u8>, pos: int, depth: int) -> bool
    decreases fuel(depth), 2nat, 0nat,
{
    match v {
        ScVal::Bool(v0) => {
            &&& be_i32(data, pos) == 0
            &&& v0 == (be_u32(data, pos + 4) == 1)
        },
        ScVal::Void => be_i32(data, pos) == 1,
        ScVal::Error(v0) => {
            &&& be_i32(data, pos) == 2
            &&& v0.decoded_from(data, pos + 4, depth)
        },
        ScVal::U32(v0) => {
            &&& be_i32(data, pos) == 3
            &&& v0 == be_u32(data, pos + 4)
        },
        ScVal::I32(v0) => {
            &&& be_i32(data, pos) == 4
            &&& v0 == be_i32(data, pos + 4)
        },
        ScVal::U64(v0) => {
            &&& be_i32(data, pos) == 5
            &&& v0 == be_u64(data, pos + 4)
        },
        ScVal::I64(v0) => {
            &&& be_i32(data, pos) == 6
            &&& v0 == be_i64(data, pos + 4)
        },
        ScVal::Timepoint(v0) => {
            &&& be_i32(data, pos) == 7
            &&& v0 == be_u64(data, pos + 4)
        },
        ScVal::Duration(v0) => {
            &&& be_i32(data, pos) == 8
            &&& v0 == be_u64(data, pos + 4)
        },
        ScVal::U128(v0) => {
            &&& be_i32(data, pos) == 9
            &&& v0.decoded_from(data, pos + 4, depth)
        },
        ScVal::I128(v0) => {
            &&& be_i32(data, pos) == 10
            &&& v0.decoded_from(data, pos + 4, depth)
        },
        ScVal::U256(v0) => {
            &&& be_i32(data, pos) == 11
            &&& v0.decoded_from(data, pos + 4, depth)
        },
        ScVal::I256(v0) => {
            &&& be_i32(data, pos) == 12
            &&& v0.decoded_from(data, pos + 4, depth)
        },
        ScVal::Bytes(v0) => {
            &&& be_i32(data, pos) == 13
            &&& v0.decoded_from(data, pos + 4, depth)
        },
        ScVal::String(v0) => {
            &&& be_i32(data, pos) == 14
            &&& v0.decoded_from(data, pos + 4, depth)
        },
        ScVal::Symbol(v0) => {
            &&& be_i32(data, pos) == 15
            &&& v0.decoded_from(data, pos + 4, depth)
        },
        ScVal::Vec(v0) => {
            &&& be_i32(data, pos) == 16
            &&& scval_optional_list_decoded(v0, data, pos + 4, depth)
        },
        ScVal::ScMap(v0) => {
            &&& be_i32(data, pos) == 17
            &&& scmap_optional_list_decoded(v0, data, pos + 4, depth)
        },
        ScVal::Address(v0) => {
            &&& be_i32(data, pos) == 18
            &&& v0.decoded_from(data, pos + 4, depth)
        },
        ScVal::ContractInstance(v0) => {
            &&& be_i32(data, pos) == 19
            &&& contract_instance_decoded(v0, data, pos + 4, depth)
        },
        ScVal::LedgerKeyContractInstance => be_i32(data, pos) == 20,
        ScVal::LedgerKeyNonce(v0) => {
            &&& be_i32(data, pos) == 21
            &&& v0.decoded_from(data, pos + 4, depth)
        },
    }
}

/// Decodes a contract value.
pub fn parse_scval<'a>(parser: &mut Parser<'a>) -> (r: Result<ScVal<'a>, ParseError>)
    requires
        old(parser).wf(),
    ensures
        stepped(
            *old(parser),
            *final(parser),
            r,
            scval_scan(old(parser).bytes(), old(parser).pos(), old(parser).level()),
        ),
        r matches Ok(v) ==> scval_decoded(
            v,
            old(parser).bytes(),
            old(parser).pos(),
            old(parser).level(),
        ),
    decreases fuel(old(parser).level()), 2nat, 0nat,
{
    let kind = ScValType::parse(parser)?;
    match kind {
        ScValType::ScvBool => {
            let v0 = parser.parse_bool()?;
            Ok(ScVal::Bool(v0))
        },
        ScValType::ScvVoid => {
            Ok(ScVal::Void)
        },
        ScValType::ScvError => {
            let v0 = SCError::parse(parser)?;
            Ok(ScVal::Error(v0))
        },
        ScValType::ScvU32 => {
            let v0 = parser.parse_uint32()?;
            Ok(ScVal::U32(v0))
        },
        ScValType::ScvI32 => {
            let v0 = parser.parse_int32()?;
            Ok(ScVal::I32(v0))
        },
        ScValType::ScvU64 => {
            let v0 = parser.parse_uint64()?;
            Ok(ScVal::U64(v0))
        },
        ScValType::ScvI64 => {
            let v0 = parser.parse_int64()?;
            Ok(ScVal::I64(v0))
        },
        ScValType::ScvTimepoint => {
            let v0 = parser.parse_uint64()?;
            Ok(ScVal::Timepoint(v0))
        },
        ScValType::ScvDuration => {
            let v0 = parser.parse_uint64()?;
            Ok(ScVal::Duration(v0))
        },
        ScValType::ScvU128 => {
            let v0 = UInt128Parts::parse(parser)?;
            Ok(ScVal::U128(v0))
        },
        ScValType::ScvI128 => {
            let v0 = Int128Parts::parse(parser)?;
            Ok(ScVal::I128(v0))
        },
        ScValType::ScvU256 => {
            let v0 = UInt256Parts::parse(parser)?;
            Ok(ScVal::U256(v0))
        },
        ScValType::ScvI256 => {
            let v0 = Int256Parts::parse(parser)?;
            Ok(ScVal::I256(v0))
        },
        ScValType::ScvBytes => {
            let v0 = BytesM::<4294967295>::parse(parser)?;
            Ok(ScVal::Bytes(v0))
        },
        ScValType::ScvString => {
            let v0 = StringM::<4294967295>::parse(parser)?;
            Ok(ScVal::String(v0))
        },
        ScValType::ScvSymbol => {
            let v0 = StringM::<32>::parse(parser)?;
            Ok(ScVal::Symbol(v0))
        },
        ScValType::ScvVec => {
            let v0 = parse_scval_optional_list(parser)?;
            Ok(ScVal::Vec(v0))
        },
        ScValType::ScvMap => {
            let v0 = parse_scmap_optional_list(parser)?;
            Ok(ScVal::ScMap(v0))
        },
        ScValType::ScvAddress => {
            let v0 = ScAddress::parse(parser)?;
            Ok(ScVal::Address(v0))
        },
        ScValType::ScvContractInstance => {
            let v0 = parse_contract_instance(parser)?;
            Ok(ScVal::ContractInstance(v0))
        },
        ScValType::ScvLedgerKeyContractInstance => {
            Ok(ScVal::LedgerKeyContractInstance)
        },
        ScValType::ScvLedgerKeyNonce => {
            let v0 = ScNonceKey::parse(parser)?;
            Ok(ScVal::LedgerKeyNonce(v0))
        },
    }
}

/// A contract value that is cut off fails with a buffer overflow.
#[verifier::rlimit(60)]
pub proof fn lemma_scval_scan_prefix(data: Seq<u8>, pos: int, depth: int, k: int)
    requires
        0 <= pos,
        0 <= k <= data.len(),
    ensures
        cut_short(
            scval_scan(data, pos, depth),
            scval_scan(data.subrange(0, k), pos, depth),
            pos,
            k,
            data.len() as int,
        ),
    decreases fuel(depth), 2nat, 0nat,
{
    ScValType::lemma_prefix(data, pos, depth, k);
    lemma_fixed_prefix(data, pos, k);
    if ScValType::scan(data, pos, depth) is Ok {
        let p = pos + 4;
        if be_i32(data, pos) == 0 {
            lemma_fixed_prefix(data, p, k);
        } else if be_i32(data, pos) == 2 {
            SCError::lemma_prefix(data, p, depth, k);
        } else if be_i32(data, pos) == 3 {
            lemma_fixed_prefix(data, p, k);
        } else if be_i32(data, pos) == 4 {
            lemma_fixed_prefix(data, p, k);
        } else if be_i32(data, pos) == 5 {
            lemma_fixed_prefix(data, p, k);
        } else if be_i32(data, pos) == 6 {
            lemma_fixed_prefix(data, p, k);
        } else if be_i32(data, pos) == 7 {
            lemma_fixed_prefix(data, p, k);
        } else if be_i32(data, pos) == 8 {
            lemma_fixed_prefix(data, p, k);
        } else if be_i32(data, pos) == 9 {
            UInt128Parts::lemma_prefix(data, p, depth, k);
        } else if be_i32(data, pos) == 10 {
            Int128Parts::lemma_prefix(data, p, depth, k);
        } else if be_i32(data, pos) == 11 {
            UInt256Parts::lemma_prefix(data, p, depth, k);
        } else if be_i32(data, pos) == 12 {
            Int256Parts::lemma_prefix(data, p, depth, k);
        } else if be_i32(data, pos) == 13 {
            BytesM::<4294967295>::lemma_prefix(data, p, depth, k);
        } else if be_i32(data, pos) == 14 {
            StringM::<4294967295>::lemma_prefix(data, p, depth, k);
        } else if be_i32(data, pos) == 15 {
            StringM::<32>::lemma_prefix(data, p, depth, k);
        } else if be_i32(data, pos) == 16 {
            lemma_scval_optional_list_scan_prefix(data, p, depth, k);
        } else if be_i32(data, pos) == 17 {
            lemma_scmap_optional_list_scan_prefix(data, p, depth, k);
        } else if be_i32(data, pos) == 18 {
            ScAddress::lemma_prefix(data, p, depth, k);
        } else if be_i32(data, pos) == 19 {
            lemma_contract_instance_scan_prefix(data, p, depth, k);
        } else if be_i32(data, pos) == 21 {
            ScNonceKey::lemma_prefix(data, p, depth, k);
        }
    }
}

impl<'a> XdrParse<'a> for ScVal<'a> {
    open spec fn scan(data: Seq<u8>, pos: int, depth: int) -> Result<int, ParseError> {
        scval_scan(data, pos, depth)
    }

    open spec fn decoded_from(&self, data: Seq<u8>, pos: int, depth: int) -> bool {
        scval_decoded(*self, data, pos, depth)
    }

    fn parse(parser: &mut Parser<'a>) -> (r: Result<Self, ParseError>) {
        parse_scval(parser)
    }

    proof fn lemma_prefix(data: Seq<u8>, pos: int, depth: int, k: int) {
        lemma_scval_scan_prefix(data, pos, depth, k);
    }
}

/// Where a map entry at `pos` ends: a key, then a value.
pub open spec fn scmap_entry_scan(data: Seq<u8>, pos: int, depth: int) -> Result<int, ParseError>
    decreases fuel(depth), 3nat, 0nat,
{
    match scval_scan(data, pos, depth) {
        Err(e) => Err(e),
        Ok(p) => scval_scan(data, p, depth),
    }
}

/// A map entry that is cut off fails with a buffer overflow.
pub proof fn lemma_scmap_entry_scan_prefix(data: Seq<u8>, pos: int, depth: int, k: int)
    requires
        0 <= pos,
        0 <= k <= data.len(),
    ensures
        cut_short(
            scmap_entry_scan(data, pos, depth),
            scmap_entry_scan(data.subrange(0, k), pos, depth),
            pos,
            k,
            data.len() as int,
        ),
    decreases fuel(depth), 3nat, 0nat,
{
    lemma_scval_scan_prefix(data, pos, depth, k);
    if scval_scan(data, pos, depth) is Ok {
        lemma_scval_scan_prefix(data, scval_scan(data, pos, depth)->Ok_0, depth, k);
    }
}

/// Whether `v` is the map entry that the bytes at `pos` encode.
pub open spec fn scmap_entry_decoded(v: ScMapEntry, data: Seq<u8>, pos: int, depth: int) -> bool
    decreases fuel(depth), 3nat, 0nat,
{
    &&& scval_decoded(v.key, data, pos, depth)
    &&& scval_decoded(v.val, data, scval_scan(data, pos, depth).unwrap(), depth)
}

/// Decodes a map entry.
pub fn parse_scmap_entry<'a>(parser: &mut Parser<'a>) -> (r: Result<ScMapEntry<'a>, ParseError>)
    requires
        old(parser).wf(),
    ensures
        stepped(
            *old(parser),
            *final(parser),
            r,
            scmap_entry_scan(old(parser).bytes(), old(parser).pos(), old(parser).level()),
        ),
        r matches Ok(v) ==> scmap_entry_decoded(
            v,
            old(parser).bytes(),
            old(parser).pos(),
            old(parser).level(),
        ),
    decreases fuel(old(parser).level()), 3nat, 0nat,
{
    let key = parse_scval(parser)?;
    let val = parse_scval(parser)?;
    Ok(ScMapEntry { key, val })
}

impl<'a> XdrParse<'a> for ScMapEntry<'a> {
    open spec fn scan(data: Seq<u8>, pos: int, depth: int) -> Result<int, ParseError> {
        scmap_entry_scan(data, pos, depth)
    }

    open spec fn decoded_from(&self, data: Seq<u8>, pos: int, depth: int) -> bool {
        scmap_entry_decoded(*self, data, pos, depth)
    }

    fn parse(parser: &mut Parser<'a>) -> (r: Result<Self, ParseError>) {
        parse_scmap_entry(parser)
    }

    proof fn lemma_prefix(data: Seq<u8>, pos: int, depth: int, k: int) {
        lemma_scmap_entry_scan_prefix(data, pos, depth, k);
    }
}

/// Where a contract instance at `pos` ends: the executable, then the
/// optional storage map.
pub open spec fn contract_instance_scan(
    data: Seq<u8>,
    pos: int,
    depth: int,
) -> Result<int, ParseError>
    decreases fuel(depth), 1nat, 1nat,
{
    match ContractExecutable::scan(data, pos, depth) {
        Err(e) => Err(e),
        Ok(p) => scmap_optional_list_scan(data, p, depth),
    }
}

/// A contract instance that is cut off fails with a buffer overflow.
pub proof fn lemma_contract_instance_scan_prefix(data: Seq<u8>, pos: int, depth: int, k: int)
    requires
        0 <= pos,
        0 <= k <= data.len(),
    ensures
        cut_short(
            contract_instance_scan(data, pos, depth),
            contract_instance_scan(data.subrange(0, k), pos, depth),
            pos,
            k,
            data.len() as int,
        ),
    decreases fuel(depth), 1nat, 1nat,
{
    ContractExecutable::lemma_prefix(data, pos, depth, k);
    if ContractExecutable::scan(data, pos, depth) is Ok {
        lemma_scmap_optional_list_scan_prefix(
            data,
            ContractExecutable::scan(data, pos, depth)->Ok_0,
            depth,
            k,
        );
    }
}

/// Whether `v` is the contract instance that the bytes at `pos` encode.
pub open spec fn contract_instance_decoded(
    v: SCContractInstance,
    data: Seq<u8>,
    pos: int,
    depth: int,
) -> bool
    decreases fuel(depth), 1nat, 1nat,
{
    &&& v.executable.decoded_from(data, pos, depth)
    &&& scmap_optional_list_decoded(
        v.storage,
        data,
        ContractExecutable::scan(data, pos, depth).unwrap(),
        depth,
    )
}

/// Decodes a contract instance.
pub fn parse_contract_instance<'a>(
    parser: &mut Parser<'a>,
) -> (r: Result<SCContractInstance<'a>, ParseError>)
    requires
        old(parser).wf(),
    ensures
        stepped(
            *old(parser),
            *final(parser),
            r,
            contract_instance_scan(old(parser).bytes(), old(parser).pos(), old(parser).level()),
        ),
        r matches Ok(v) ==> contract_instance_decoded(
            v,
            old(parser).bytes(),
            old(parser).pos(),
            old(parser).level(),
        ),
    decreases fuel(old(parser).level()), 1nat, 1nat,
{
    let executable = ContractExecutable::parse(parser)?;
    let storage = parse_scmap_optional_list(parser)?;
    Ok(SCContractInstance { executable, storage })
}

/// Where the first `n` contract values end that are encoded back to back from `start`.
pub open spec fn scval_items_scan(
    data: Seq<u8>,
    start: int,
    depth: int,
    n: nat,
) -> Result<int, ParseError>
    decreases fuel(depth), 4nat, n,
{
    if n == 0 {
        Ok(start)
    } else {
        match scval_items_scan(data, start, depth, (n - 1) as nat) {
            Ok(p) => scval_scan(data, p, depth),
            Err(e) => Err(e),
        }
    }
}

/// One of the contract values that fails to decode fails the whole run, with its error.
pub proof fn lemma_scval_items_err(data: Seq<u8>, start: int, depth: int, i: nat, n: nat)
    requires
        i <= n,
        scval_items_scan(data, start, depth, i) is Err,
    ensures
        scval_items_scan(data, start, depth, n) == scval_items_scan(data, start, depth, i),
    decreases n,
{
    if i < n {
        lemma_scval_items_err(data, start, depth, i, (n - 1) as nat);
    }
}

/// A run of contract values that is cut off fails with a buffer overflow.
pub proof fn lemma_scval_items_scan_prefix(data: Seq<u8>, start: int, depth: int, n: nat, k: int)
    requires
        0 <= start <= data.len(),
        0 <= k <= data.len(),
    ensures
        cut_short(
            scval_items_scan(data, start, depth, n),
            scval_items_scan(data.subrange(0, k), start, depth, n),
            start,
            k,
            data.len() as int,
        ),
    decreases fuel(depth), 4nat, n,
{
    if n > 0 {
        lemma_scval_items_scan_prefix(data, start, depth, (n - 1) as nat, k);
        let before = scval_items_scan(data, start, depth, (n - 1) as nat);
        if before is Ok {
            lemma_scval_scan_prefix(data, before->Ok_0, depth, k);
        }
    }
}

/// Where a list of contract values at `pos` ends: a count, then one level deeper
/// that many items.
pub open spec fn scval_list_scan(data: Seq<u8>, pos: int, depth: int) -> Result<int, ParseError>
    decreases fuel(depth), 0nat, 0nat,
{
    if pos + 4 > data.len() {
        Err(ParseError::BufferOverflow)
    } else if depth >= MAX_PARSE_DEPTH {
        Err(ParseError::MaxDepthExceeded { depth: (depth + 1) as usize, max: MAX_PARSE_DEPTH })
    } else {
        scval_items_scan(data, pos + 4, depth + 1, be_u32(data, pos) as nat)
    }
}

/// A list of contract values that is cut off fails with a buffer overflow.
pub proof fn lemma_scval_list_scan_prefix(data: Seq<u8>, pos: int, depth: int, k: int)
    requires
        0 <= pos,
        0 <= k <= data.len(),
    ensures
        cut_short(
            scval_list_scan(data, pos, depth),
            scval_list_scan(data.subrange(0, k), pos, depth),
            pos,
            k,
            data.len() as int,
        ),
    decreases fuel(depth), 0nat, 0nat,
{
    lemma_fixed_prefix(data, pos, k);
    if pos + 4 <= data.len() && depth < MAX_PARSE_DEPTH {
        lemma_scval_items_scan_prefix(data, pos + 4, depth + 1, be_u32(data, pos) as nat, k);
    }
}

/// Whether `items` are the contract values of the list at `pos`, each taken from
/// the place where the one before it ends.
pub open spec fn scval_list_decoded(items: Seq<ScVal>, data: Seq<u8>, pos: int, depth: int) -> bool
    decreases fuel(depth), 0nat, 0nat,
{
    &&& depth < MAX_PARSE_DEPTH
    &&& items.len() == be_u32(data, pos)
    &&& forall|i: int|
        0 <= i < items.len() ==> scval_decoded(
            #[trigger] items[i],
            data,
            scval_items_scan(data, pos + 4, depth + 1, i as nat).unwrap(),
            depth + 1,
        )
}

/// Decodes a list of contract values.
#[verifier::loop_isolation(false)]
pub fn parse_scval_list<'a>(
    parser: &mut Parser<'a>,
) -> (r: Result<VecM<ScVal<'a>, 4294967295>, ParseError>)
    requires
        old(parser).wf(),
    ensures
        stepped(
            *old(parser),
            *final(parser),
            r,
            scval_list_scan(old(parser).bytes(), old(parser).pos(), old(parser).level()),
        ),
        r matches Ok(v) ==> scval_list_decoded(
            v@,
            old(parser).bytes(),
            old(parser).pos(),
            old(parser).level(),
        ),
    decreases fuel(old(parser).level()), 0nat, 0nat,
{
    let ghost data = parser.bytes();
    let ghost pos = parser.pos();
    let ghost depth = parser.level();
    let len = parser.parse_uint32()?;
    parser.enter_recursion()?;
    let mut items: Vec<ScVal<'a>> = Vec::with_capacity(len as usize);
    let mut i: u32 = 0;
    while i < len
        invariant
            parser.wf(),
            parser.bytes() == data,
            parser.level() == depth + 1,
            0 <= i <= len,
            items@.len() == i,
            scval_items_scan(data, pos + 4, depth + 1, i as nat) == Ok::<int, ParseError>(
                parser.pos(),
            ),
            forall|j: int|
                0 <= j < i ==> scval_decoded(
                    #[trigger] items@[j],
                    data,
                    scval_items_scan(data, pos + 4, depth + 1, j as nat).unwrap(),
                    depth + 1,
                ),
        decreases len - i,
    {
        match parse_scval(parser) {
            Ok(item) => {
                items.push(item);
            },
            Err(e) => {
                proof {
                    assert(scval_items_scan(data, pos + 4, depth + 1, (i + 1) as nat) == Err::<
                        int,
                        ParseError,
                    >(e));
                    lemma_scval_items_err(data, pos + 4, depth + 1, (i + 1) as nat, len as nat);
                }
                parser.exit_recursion();
                return Err(e);
            },
        }
        i += 1;
    }
    parser.exit_recursion();
    Ok(VecM::new(items))
}

/// Where an optional list of contract values at `pos` ends.
pub open spec fn scval_optional_list_scan(
    data: Seq<u8>,
    pos: int,
    depth: int,
) -> Result<int, ParseError>
    decreases fuel(depth), 1nat, 0nat,
{
    match scan_bool(data, pos) {
        Err(e) => Err(e),
        Ok(p) => if be_u32(data, pos) == 1 {
            scval_list_scan(data, p, depth)
        } else {
            Ok(p)
        },
    }
}

/// An optional list of contract values that is cut off fails with a buffer
/// overflow.
pub proof fn lemma_scval_optional_list_scan_prefix(data: Seq<u8>, pos: int, depth: int, k: int)
    requires
        0 <= pos,
        0 <= k <= data.len(),
    ensures
        cut_short(
            scval_optional_list_scan(data, pos, depth),
            scval_optional_list_scan(data.subrange(0, k), pos, depth),
            pos,
            k,
            data.len() as int,
        ),
    decreases fuel(depth), 1nat, 0nat,
{
    lemma_fixed_prefix(data, pos, k);
    if scan_bool(data, pos) is Ok {
        lemma_scval_list_scan_prefix(data, pos + 4, depth, k);
    }
}

/// Whether `v` is the optional list of contract values that the bytes at `pos` encode.
pub open spec fn scval_optional_list_decoded(
    v: Option<VecM<ScVal, 4294967295>>,
    data: Seq<u8>,
    pos: int,
    depth: int,
) -> bool
    decreases fuel(depth), 1nat, 0nat,
{
    match v {
        Some(items) => be_u32(data, pos) == 1 && scval_list_decoded(items@, data, pos + 4, depth),
        None => be_u32(data, pos) == 0,
    }
}

/// Decodes an optional list of contract values.
pub fn parse_scval_optional_list<'a>(
    parser: &mut Parser<'a>,
) -> (r: Result<Option<VecM<ScVal<'a>, 4294967295>>, ParseError>)
    requires
        old(parser).wf(),
    ensures
        stepped(
            *old(parser),
            *final(parser),
            r,
            scval_optional_list_scan(old(parser).bytes(), old(parser).pos(), old(parser).level()),
        ),
        r matches Ok(v) ==> scval_optional_list_decoded(
            v,
            old(parser).bytes(),
            old(parser).pos(),
            old(parser).level(),
        ),
    decreases fuel(old(parser).level()), 1nat, 0nat,
{
    if parser.parse_bool()? {
        Ok(Some(parse_scval_list(parser)?))
    } else {
        Ok(None)
    }
}

/// Where the first `n` map entries end that are encoded back to back from `start`.
pub open spec fn scmap_items_scan(
    data: Seq<u8>,
    start: int,
    depth: int,
    n: nat,
) -> Result<int, ParseError>
    decreases fuel(depth), 4nat, n,
{
    if n == 0 {
        Ok(start)
    } else {
        match scmap_items_scan(data, start, depth, (n - 1) as nat) {
            Ok(p) => scmap_entry_scan(data, p, depth),
            Err(e) => Err(e),
        }
    }
}

/// One of the map entries that fails to decode fails the whole run, with its error.
pub proof fn lemma_scmap_items_err(data: Seq<u8>, start: int, depth: int, i: nat, n: nat)
    requires
        i <= n,
        scmap_items_scan(data, start, depth, i) is Err,
    ensures
        scmap_items_scan(data, start, depth, n) == scmap_items_scan(data, start, depth, i),
    decreases n,
{
    if i < n {
        lemma_scmap_items_err(data, start, depth, i, (n - 1) as nat);
    }
}

/// A run of map entries that is cut off fails with a buffer overflow.
pub proof fn lemma_scmap_items_scan_prefix(data: Seq<u8>, start: int, depth: int, n: nat, k: int)
    requires
        0 <= start <= data.len(),
        0 <= k <= data.len(),
    ensures
        cut_short(
            scmap_items_scan(data, start, depth, n),
            scmap_items_scan(data.subrange(0, k), start, depth, n),
            start,
            k,
            data.len() as int,
        ),
    decreases fuel(depth), 4nat, n,
{
    if n > 0 {
        lemma_scmap_items_scan_prefix(data, start, depth, (n - 1) as nat, k);
        let before = scmap_items_scan(data, start, depth, (n - 1) as nat);
        if before is Ok {
            lemma_scmap_entry_scan_prefix(data, before->Ok_0, depth, k);
        }
    }
}

/// Where a list of map entries at `pos` ends: a count, then one level deeper
/// that many items.
pub open spec fn scmap_list_scan(data: Seq<u8>, pos: int, depth: int) -> Result<int, ParseError>
    decreases fuel(depth), 0nat, 0nat,
{
    if pos + 4 > data.len() {
        Err(ParseError::BufferOverflow)
    } else if depth >= MAX_PARSE_DEPTH {
        Err(ParseError::MaxDepthExceeded { depth: (depth + 1) as usize, max: MAX_PARSE_DEPTH })
    } else {
        scmap_items_scan(data, pos + 4, depth + 1, be_u32(data, pos) as nat)
    }
}

/// A list of map entries that is cut off fails with a buffer overflow.
pub proof fn lemma_scmap_list_scan_prefix(data: Seq<u8>, pos: int, depth: int, k: int)
    requires
        0 <= pos,
        0 <= k <= data.len(),
    ensures
        cut_short(
            scmap_list_scan(data, pos, depth),
            scmap_list_scan(data.subrange(0, k), pos, depth),
            pos,
            k,
            data.len() as int,
        ),
    decreases fuel(depth), 0nat, 0nat,
{
    lemma_fixed_prefix(data, pos, k);
    if pos + 4 <= data.len() && depth < MAX_PARSE_DEPTH {
        lemma_scmap_items_scan_prefix(data, pos + 4, depth + 1, be_u32(data, pos) as nat, k);
    }
}

/// Whether `items` are the map entries of the list at `pos`, each taken from
/// the place where the one before it ends.
pub open spec fn scmap_list_decoded(
    items: Seq<ScMapEntry>,
    data: Seq<u8>,
    pos: int,
    depth: int,
) -> bool
    decreases fuel(depth), 0nat, 0nat,
{
    &&& depth < MAX_PARSE_DEPTH
    &&& items.len() == be_u32(data, pos)
    &&& forall|i: int|
        0 <= i < items.len() ==> scmap_entry_decoded(
            #[trigger] items[i],
            data,
            scmap_items_scan(data, pos + 4, depth + 1, i as nat).unwrap(),
            depth + 1,
        )
}

/// Decodes a list of map entries.
#[verifier::loop_isolation(false)]
pub fn parse_scmap_list<'a>(
    parser: &mut Parser<'a>,
) -> (r: Result<VecM<ScMapEntry<'a>, 4294967295>, ParseError>)
    requires
        old(parser).wf(),
    ensures
        stepped(
            *old(parser),
            *final(parser),
            r,
            scmap_list_scan(old(parser).bytes(), old(parser).pos(), old(parser).level()),
        ),
        r matches Ok(v) ==> scmap_list_decoded(
            v@,
            old(parser).bytes(),
            old(parser).pos(),
            old(parser).level(),
        ),
    decreases fuel(old(parser).level()), 0nat, 0nat,
{
    let ghost data = parser.bytes();
    let ghost pos = parser.pos();
    let ghost depth = parser.level();
    let len = parser.parse_uint32()?;
    parser.enter_recursion()?;
    let mut items: Vec<ScMapEntry<'a>> = Vec::with_capacity(len as usize);
    let mut i: u32 = 0;
    while i < len
        invariant
            parser.wf(),
            parser.bytes() == data,
            parser.level() == depth + 1,
            0 <= i <= len,
            items@.len() == i,
            scmap_items_scan(data, pos + 4, depth + 1, i as nat) == Ok::<int, ParseError>(
                parser.pos(),
            ),
            forall|j: int|
                0 <= j < i ==> scmap_entry_decoded(
                    #[trigger] items@[j],
                    data,
                    scmap_items_scan(data, pos + 4, depth + 1, j as nat).unwrap(),
                    depth + 1,
                ),
        decreases len - i,
    {
        match parse_scmap_entry(parser) {
            Ok(item) => {
                items.push(item);
            },
            Err(e) => {
                proof {
                    assert(scmap_items_scan(data, pos + 4, depth + 1, (i + 1) as nat) == Err::<
                        int,
                        ParseError,
                    >(e));
                    lemma_scmap_items_err(data, pos + 4, depth + 1, (i + 1) as nat, len as nat);
                }
                parser.exit_recursion();
                return Err(e);
            },
        }
        i += 1;
    }
    parser.exit_recursion();
    Ok(VecM::new(items))
}

/// Where an optional list of map entries at `pos` ends.
pub open spec fn scmap_optional_list_scan(
    data: Seq<u8>,
    pos: int,
    depth: int,
) -> Result<int, ParseError>
    decreases fuel(depth), 1nat, 0nat,
{
    match scan_bool(data, pos) {
        Err(e) => Err(e),
        Ok(p) => if be_u32(data, pos) == 1 {
            scmap_list_scan(data, p, depth)
        } else {
            Ok(p)
        },
    }
}

/// An optional list of map entries that is cut off fails with a buffer
/// overflow.
pub proof fn lemma_scmap_optional_list_scan_prefix(data: Seq<u8>, pos: int, depth: int, k: int)
    requires
        0 <= pos,
        0 <= k <= data.len(),
    ensures
        cut_short(
            scmap_optional_list_scan(data, pos, depth),
            scmap_optional_list_scan(data.subrange(0, k), pos, depth),
            pos,
            k,
            data.len() as int,
        ),
    decreases fuel(depth), 1nat, 0nat,
{
    lemma_fixed_prefix(data, pos, k);
    if scan_bool(data, pos) is Ok {
        lemma_scmap_list_scan_prefix(data, pos + 4, depth, k);
    }
}

/// Whether `v` is the optional list of map entries that the bytes at `pos` encode.
pub open spec fn scmap_optional_list_decoded(
    v: Option<VecM<ScMapEntry, 4294967295>>,
    data: Seq<u8>,
    pos: int,
    depth: int,
) -> bool
    decreases fuel(depth), 1nat, 0nat,
{
    match v {
        Some(items) => be_u32(data, pos) == 1 && scmap_list_decoded(items@, data, pos + 4, depth),
        None => be_u32(data, pos) == 0,
    }
}

/// Decodes an optional list of map entries.
pub fn parse_scmap_optional_list<'a>(
    parser: &mut Parser<'a>,
) -> (r: Result<Option<VecM<ScMapEntry<'a>, 4294967295>>, ParseError>)
    requires
        old(parser).wf(),
    ensures
        stepped(
            *old(parser),
            *final(parser),
            r,
            scmap_optional_list_scan(old(parser).bytes(), old(parser).pos(), old(parser).level()),
        ),
        r matches Ok(v) ==> scmap_optional_list_decoded(
            v,
            old(parser).bytes(),
            old(parser).pos(),
            old(parser).level(),
        ),
    decreases fuel(old(parser).level()), 1nat, 0nat,
{
    if parser.parse_bool()? {
        Ok(Some(parse_scmap_list(parser)?))
    } else {
        Ok(None)
    }
}

/// The address and salt from which a contract identifier is derived.
#[derive(Debug, Clone, PartialEq, Eq)]
pub struct ContractIDPreimageFromAddress<'a> {
    pub address: ScAddress<'a>,
    pub salt: Uint256<'a>,
}

impl<'a> XdrParse<'a> for ContractIDPreimageFromAddress<'a> {
    open spec fn scan(data: Seq<u8>, pos: int, depth: int) -> Result<int, ParseError> {
        match ScAddress::scan(data, pos, depth) {
            Err(e) => Err(e),
            Ok(p1) => {
                Uint256::scan(data, p1, depth)
            },
        }
    }

    open spec fn decoded_from(&self, data: Seq<u8>, pos: int, depth: int) -> bool {
        let p1 = ScAddress::scan(data, pos, depth).unwrap();
        &&& self.address.decoded_from(data, pos, depth)
        &&& self.salt.decoded_from(data, p1, depth)
    }

    fn parse(parser: &mut Parser<'a>) -> (r: Result<Self, ParseError>) {
        let address = ScAddress::parse(parser)?;
        let salt = Uint256::parse(parser)?;
        Ok(ContractIDPreimageFromAddress { address, salt })
    }

    proof fn lemma_prefix(data: Seq<u8>, pos: int, depth: int, k: int) {
        ScAddress::lemma_prefix(data, pos, depth, k);
        if ScAddress::scan(data, pos, depth) is Ok {
            let p1 = ScAddress::scan(data, pos, depth)->Ok_0;
            Uint256::lemma_prefix(data, p1, depth, k);
        }
    }
}

/// What a contract identifier is derived from.
#[derive(Debug, Clone, PartialEq, Eq)]
pub enum ContractIDPreimage<'a> {
    FromAddress(ContractIDPreimageFromAddress<'a>),
    FromAsset(Asset<'a>),
}

impl<'a> XdrParse<'a> for ContractIDPreimage<'a> {
    open spec fn scan(data: Seq<u8>, pos: int, depth: int) -> Result<int, ParseError> {
        match ContractIDPreimageType::scan(data, pos, depth) {
            Err(e) => Err(e),
            Ok(p) => {
                if be_i32(data, pos) == 0 {
                    ContractIDPreimageFromAddress::scan(data, p, depth)
                } else if be_i32(data, pos) == 1 {
                    Asset::scan(data, p, depth)
                } else {
                    Err(ParseError::InvalidType(be_i32(data, pos) as i32))
                }
            },
        }
    }

    open spec fn decoded_from(&self, data: Seq<u8>, pos: int, depth: int) -> bool {
        match self {
            ContractIDPreimage::FromAddress(v0) => {
                &&& be_i32(data, pos) == 0
                &&& v0.decoded_from(data, pos + 4, depth)
            },
            ContractIDPreimage::FromAsset(v0) => {
                &&& be_i32(data, pos) == 1
                &&& v0.decoded_from(data, pos + 4, depth)
            },
        }
    }

    fn parse(parser: &mut Parser<'a>) -> (r: Result<Self, ParseError>) {
        let kind = ContractIDPreimageType::parse(parser)?;
        match kind {
            ContractIDPreimageType::FromAddress => {
                let v0 = ContractIDPreimageFromAddress::parse(parser)?;
                Ok(ContractIDPreimage::FromAddress(v0))
            },
            ContractIDPreimageType::FromAsset => {
                let v0 = Asset::parse(parser)?;
                Ok(ContractIDPreimage::FromAsset(v0))
            },
        }
    }

    proof fn lemma_prefix(data: Seq<u8>, pos: int, depth: int, k: int) {
        ContractIDPreimageType::lemma_prefix(data, pos, depth, k);
        lemma_fixed_prefix(data, pos, k);
        if ContractIDPreimageType::scan(data, pos, depth) is Ok {
            let p = pos + 4;
            if be_i32(data, pos) == 0 {
                ContractIDPreimageFromAddress::lemma_prefix(data, p, depth, k);
            } else if be_i32(data, pos) == 1 {
                Asset::lemma_prefix(data, p, depth, k);
            }
        }
    }
}

/// The arguments of a contract creation.
#[derive(Debug, Clone, PartialEq, Eq)]
pub struct CreateContractArgs<'a> {
    pub contract_id_preimage: ContractIDPreimage<'a>,
    pub executable: ContractExecutable<'a>,
}

impl<'a> XdrParse<'a> for CreateContractArgs<'a> {
    open spec fn scan(data: Seq<u8>, pos: int, depth: int) -> Result<int, ParseError> {
        match ContractIDPreimage::scan(data, pos, depth) {
            Err(e) => Err(e),
            Ok(p1) => {
                ContractExecutable::scan(data, p1, depth)
            },
        }
    }

    open spec fn decoded_from(&self, data: Seq<u8>, pos: int, depth: int) -> bool {
        let p1 = ContractIDPreimage::scan(data, pos, depth).unwrap();
        &&& self.contract_id_preimage.decoded_from(data, pos, depth)
        &&& self.executable.decoded_from(data, p1, depth)
    }

    fn parse(parser: &mut Parser<'a>) -> (r: Result<Self, ParseError>) {
        let contract_id_preimage = ContractIDPreimage::parse(parser)?;
        let executable = ContractExecutable::parse(parser)?;
        Ok(CreateContractArgs { contract_id_preimage, executable })
    }

    proof fn lemma_prefix(data: Seq<u8>, pos: int, depth: int, k: int) {
        ContractIDPreimage::lemma_prefix(data, pos, depth, k);
        if ContractIDPreimage::scan(data, pos, depth) is Ok {
            let p1 = ContractIDPreimage::scan(data, pos, depth)->Ok_0;
            ContractExecutable::lemma_prefix(data, p1, depth, k);
        }
    }
}

/// The arguments of a contract creation with a constructor.
#[derive(Debug, PartialEq, Eq)]
pub struct CreateContractArgsV2<'a> {
    pub contract_id_preimage: ContractIDPreimage<'a>,
    pub executable: ContractExecutable<'a>,
    pub constructor_args: VecM<ScVal<'a>, 4294967295>,
}

impl<'a> XdrParse<'a> for CreateContractArgsV2<'a> {
    open spec fn scan(data: Seq<u8>, pos: int, depth: int) -> Result<int, ParseError> {
        match ContractIDPreimage::scan(data, pos, depth) {
            Err(e) => Err(e),
            Ok(p1) => {
                match ContractExecutable::scan(data, p1, depth) {
                    Err(e) => Err(e),
                    Ok(p2) => {
                        VecM::<ScVal, 4294967295>::scan(data, p2, depth)
                    },
                }
            },
        }
    }

    open spec fn decoded_from(&self, data: Seq<u8>, pos: int, depth: int) -> bool {
        let p1 = ContractIDPreimage::scan(data, pos, depth).unwrap();
        let p2 = ContractExecutable::scan(data, p1, depth).unwrap();
        &&& self.contract_id_preimage.decoded_from(data, pos, depth)
        &&& self.executable.decoded_from(data, p1, depth)
        &&& self.constructor_args.decoded_from(data, p2, depth)
    }

    fn parse(parser: &mut Parser<'a>) -> (r: Result<Self, ParseError>) {
        let contract_id_preimage = ContractIDPreimage::parse(parser)?;
        let executable = ContractExecutable::parse(parser)?;
        let constructor_args = VecM::<ScVal, 4294967295>::parse(parser)?;
        Ok(CreateContractArgsV2 { contract_id_preimage, executable, constructor_args })
    }

    proof fn lemma_prefix(data: Seq<u8>, pos: int, depth: int, k: int) {
        ContractIDPreimage::lemma_prefix(data, pos, depth, k);
        if ContractIDPreimage::scan(data, pos, depth) is Ok {
            let p1 = ContractIDPreimage::scan(data, pos, depth)->Ok_0;
            ContractExecutable::lemma_prefix(data, p1, depth, k);
            if ContractExecutable::scan(data, p1, depth) is Ok {
                let p2 = ContractExecutable::scan(data, p1, depth)->Ok_0;
                VecM::<ScVal, 4294967295>::lemma_prefix(data, p2, depth, k);
            }
        }
    }
}

/// A call of a contract function.
#[derive(Debug, PartialEq, Eq)]
pub struct InvokeContractArgs<'a> {
    pub contract_address: ScAddress<'a>,
    pub function_name: StringM<'a, 32>,
    pub args: VecM<ScVal<'a>, 4294967295>,
}

impl<'a> XdrParse<'a> for InvokeContractArgs<'a> {
    open spec fn scan(data: Seq<u8>, pos: int, depth: int) -> Result<int, ParseError> {
        match ScAddress::scan(data, pos, depth) {
            Err(e) => Err(e),
            Ok(p1) => {
                match StringM::<32>::scan(data, p1, depth) {
                    Err(e) => Err(e),
                    Ok(p2) => {
                        VecM::<ScVal, 4294967295>::scan(data, p2, depth)
                    },
                }
            },
        }
    }

    open spec fn decoded_from(&self, data: Seq<u8>, pos: int, depth: int) -> bool {
        let p1 = ScAddress::scan(data, pos, depth).unwrap();
        let p2 = StringM::<32>::scan(data, p1, depth).unwrap();
        &&& self.contract_address.decoded_from(data, pos, depth)
        &&& self.function_name.decoded_from(data, p1, depth)
        &&& self.args.decoded_from(data, p2, depth)
    }

    fn parse(parser: &mut Parser<'a>) -> (r: Result<Self, ParseError>) {
        let contract_address = ScAddress::parse(parser)?;
        let function_name = StringM::<32>::parse(parser)?;
        let args = VecM::<ScVal, 4294967295>::parse(parser)?;
        Ok(InvokeContractArgs { contract_address, function_name, args })
    }

    proof fn lemma_prefix(data: Seq<u8>, pos: int, depth: int, k: int) {
        ScAddress::lemma_prefix(data, pos, depth, k);
        if ScAddress::scan(data, pos, depth) is Ok {
            let p1 = ScAddress::scan(data, pos, depth)->Ok_0;
            StringM::<32>::lemma_prefix(data, p1, depth, k);
            if StringM::<32>::scan(data, p1, depth) is Ok {
                let p2 = StringM::<32>::scan(data, p1, depth)->Ok_0;
                VecM::<ScVal, 4294967295>::lemma_prefix(data, p2, depth, k);
            }
        }
    }
}

/// What a contract operation asks the host to do.
#[derive(Debug, PartialEq, Eq)]
pub enum HostFunction<'a> {
    InvokeContract(InvokeContractArgs<'a>),
    CreateContract(CreateContractArgs<'a>),
    UploadContractWasm(&'a [u8]),
    CreateContractV2(CreateContractArgsV2<'a>),
}

impl<'a> XdrParse<'a> for HostFunction<'a> {
    open spec fn scan(data: Seq<u8>, pos: int, depth: int) -> Result<int, ParseError> {
        match HostFunctionType::scan(data, pos, depth) {
            Err(e) => Err(e),
            Ok(p) => {
                if be_i32(data, pos) == 0 {
                    InvokeContractArgs::scan(data, p, depth)
                } else if be_i32(data, pos) == 1 {
                    CreateContractArgs::scan(data, p, depth)
                } else if be_i32(data, pos) == 2 {
                    scan_opaque(data, p, None)
                } else if be_i32(data, pos) == 3 {
                    CreateContractArgsV2::scan(data, p, depth)
                } else {
                    Err(ParseError::InvalidType(be_i32(data, pos) as i32))
                }
            },
        }
    }

    open spec fn decoded_from(&self, data: Seq<u8>, pos: int, depth: int) -> bool {
        match self {
            HostFunction::InvokeContract(v0) => {
                &&& be_i32(data, pos) == 0
                &&& v0.decoded_from(data, pos + 4, depth)
            },
            HostFunction::CreateContract(v0) => {
                &&& be_i32(data, pos) == 1
                &&& v0.decoded_from(data, pos + 4, depth)
            },
            HostFunction::UploadContractWasm(v0) => {
                &&& be_i32(data, pos) == 2
                &&& v0@ == opaque_payload(data, pos + 4)
            },
            HostFunction::CreateContractV2(v0) => {
                &&& be_i32(data, pos) == 3
                &&& v0.decoded_from(data, pos + 4, depth)
            },
        }
    }

    fn parse(parser: &mut Parser<'a>) -> (r: Result<Self, ParseError>) {
        let kind = HostFunctionType::parse(parser)?;
        match kind {
            HostFunctionType::InvokeContract => {
                let v0 = InvokeContractArgs::parse(parser)?;
                Ok(HostFunction::InvokeContract(v0))
            },
            HostFunctionType::CreateContract => {
                let v0 = CreateContractArgs::parse(parser)?;
                Ok(HostFunction::CreateContract(v0))
            },
            HostFunctionType::UploadContractWasm => {
                let v0 = parser.parse_var_opaque(None)?;
                Ok(HostFunction::UploadContractWasm(v0))
            },
            HostFunctionType::CreateContractV2 => {
                let v0 = CreateContractArgsV2::parse(parser)?;
                Ok(HostFunction::CreateContractV2(v0))
            },
        }
    }

    proof fn lemma_prefix(data: Seq<u8>, pos: int, depth: int, k: int) {
        HostFunctionType::lemma_prefix(data, pos, depth, k);
        lemma_fixed_prefix(data, pos, k);
        if HostFunctionType::scan(data, pos, depth) is Ok {
            let p = pos + 4;
            if be_i32(data, pos) == 0 {
                InvokeContractArgs::lemma_prefix(data, p, depth, k);
            } else if be_i32(data, pos) == 1 {
                CreateContractArgs::lemma_prefix(data, p, depth, k);
            } else if be_i32(data, pos) == 2 {
                lemma_opaque_prefix(data, p, None, k);
            } else if be_i32(data, pos) == 3 {
                CreateContractArgsV2::lemma_prefix(data, p, depth, k);
            }
        }
    }
}

/// Credentials of an address other than the source account.
#[derive(Debug, PartialEq, Eq)]
pub struct SorobanAddressCredentials<'a> {
    pub address: ScAddress<'a>,
    pub nonce: i64,
    pub signature_expiration_ledger: u32,
    pub signature: ScVal<'a>,
}

impl<'a> XdrParse<'a> for SorobanAddressCredentials<'a> {
    open spec fn scan(data: Seq<u8>, pos: int, depth: int) -> Result<int, ParseError> {
        match ScAddress::scan(data, pos, depth) {
            Err(e) => Err(e),
            Ok(p1) => {
                match scan_fixed(data, p1, 8) {
                    Err(e) => Err(e),
                    Ok(p2) => {
                        match scan_fixed(data, p2, 4) {
                            Err(e) => Err(e),
                            Ok(p3) => {
                                ScVal::scan(data, p3, depth)
                            },
                        }
                    },
                }
            },
        }
    }

    open spec fn decoded_from(&self, data: Seq<u8>, pos: int, depth: int) -> bool {
        let p1 = ScAddress::scan(data, pos, depth).unwrap();
        &&& self.address.decoded_from(data, pos, depth)
        &&& self.nonce == be_i64(data, p1)
        &&& self.signature_expiration_ledger == be_u32(data, p1 + 8)
        &&& self.signature.decoded_from(data, p1 + 12, depth)
    }

    fn parse(parser: &mut Parser<'a>) -> (r: Result<Self, ParseError>) {
        let address = ScAddress::parse(parser)?;
        let nonce = parser.parse_int64()?;
        let signature_expiration_ledger = parser.parse_uint32()?;
        let signature = ScVal::parse(parser)?;
        Ok(SorobanAddressCredentials { address, nonce, signature_expiration_ledger, signature })
    }

    proof fn lemma_prefix(data: Seq<u8>, pos: int, depth: int, k: int) {
        ScAddress::lemma_prefix(data, pos, depth, k);
        if ScAddress::scan(data, pos, depth) is Ok {
            let p1 = ScAddress::scan(data, pos, depth)->Ok_0;
            lemma_fixed_prefix(data, p1, k);
            if scan_fixed(data, p1, 8) is Ok {
                let p2 = scan_fixed(data, p1, 8)->Ok_0;
                lemma_fixed_prefix(data, p2, k);
                if scan_fixed(data, p2, 4) is Ok {
                    let p3 = scan_fixed(data, p2, 4)->Ok_0;
                    ScVal::lemma_prefix(data, p3, depth, k);
                }
            }
        }
    }
}

/// Whose authorization an entry carries.
#[derive(Debug, PartialEq, Eq)]
pub enum SorobanCredentials<'a> {
    SourceAccount,
    Address(SorobanAddressCredentials<'a>),
}

impl<'a> XdrParse<'a> for SorobanCredentials<'a> {
    open spec fn scan(data: Seq<u8>, pos: int, depth: int) -> Result<int, ParseError> {
        match SorobanCredentialsType::scan(data, pos, depth) {
            Err(e) => Err(e),
            Ok(p) => {
                if be_i32(data, pos) == 0 {
                    Ok(p)
                } else if be_i32(data, pos) == 1 {
                    SorobanAddressCredentials::scan(data, p, depth)
                } else {
                    Err(ParseError::InvalidType(be_i32(data, pos) as i32))
                }
            },
        }
    }

    open spec fn decoded_from(&self, data: Seq<u8>, pos: int, depth: int) -> bool {
        match self {
            SorobanCredentials::SourceAccount => be_i32(data, pos) == 0,
            SorobanCredentials::Address(v0) => {
                &&& be_i32(data, pos) == 1
                &&& v0.decoded_from(data, pos + 4, depth)
            },
        }
    }

    fn parse(parser: &mut Parser<'a>) -> (r: Result<Self, ParseError>) {
        let kind = SorobanCredentialsType::parse(parser)?;
        match kind {
            SorobanCredentialsType::SourceAccount => {
                Ok(SorobanCredentials::SourceAccount)
            },
            SorobanCredentialsType::Address => {
                let v0 = SorobanAddressCredentials::parse(parser)?;
                Ok(SorobanCredentials::Address(v0))
            },
        }
    }

    proof fn lemma_prefix(data: Seq<u8>, pos: int, depth: int, k: int) {
        SorobanCredentialsType::lemma_prefix(data, pos, depth, k);
        lemma_fixed_prefix(data, pos, k);
        if SorobanCredentialsType::scan(data, pos, depth) is Ok {
            let p = pos + 4;
            if be_i32(data, pos) == 1 {
                SorobanAddressCredentials::lemma_prefix(data, p, depth, k);
            }
        }
    }
}

/// The function that an invocation authorizes.
#[derive(Debug, PartialEq, Eq)]
pub enum SorobanAuthorizedFunction<'a> {
    ContractFn(InvokeContractArgs<'a>),
    CreateContractHostFn(CreateContractArgs<'a>),
    CreateContractV2HostFn(CreateContractArgsV2<'a>),
}

impl<'a> XdrParse<'a> for SorobanAuthorizedFunction<'a> {
    open spec fn scan(data: Seq<u8>, pos: int, depth: int) -> Result<int, ParseError> {
        match SorobanAuthorizedFunctionType::scan(data, pos, depth) {
            Err(e) => Err(e),
            Ok(p) => {
                if be_i32(data, pos) == 0 {
                    InvokeContractArgs::scan(data, p, depth)
                } else if be_i32(data, pos) == 1 {
                    CreateContractArgs::scan(data, p, depth)
                } else if be_i32(data, pos) == 2 {
                    CreateContractArgsV2::scan(data, p, depth)
                } else {
                    Err(ParseError::InvalidType(be_i32(data, pos) as i32))
                }
            },
        }
    }

    open spec fn decoded_from(&self, data: Seq<u8>, pos: int, depth: int) -> bool {
        match self {
            SorobanAuthorizedFunction::ContractFn(v0) => {
                &&& be_i32(data, pos) == 0
                &&& v0.decoded_from(data, pos + 4, depth)
            },
            SorobanAuthorizedFunction::CreateContractHostFn(v0) => {
                &&& be_i32(data, pos) == 1
                &&& v0.decoded_from(data, pos + 4, depth)
            },
            SorobanAuthorizedFunction::CreateContractV2HostFn(v0) => {
                &&& be_i32(data, pos) == 2
                &&& v0.decoded_from(data, pos + 4, depth)
            },
        }
    }

    fn parse(parser: &mut Parser<'a>) -> (r: Result<Self, ParseError>) {
        let kind = SorobanAuthorizedFunctionType::parse(parser)?;
        match kind {
            SorobanAuthorizedFunctionType::ContractFn => {
                let v0 = InvokeContractArgs::parse(parser)?;
                Ok(SorobanAuthorizedFunction::ContractFn(v0))
            },
            SorobanAuthorizedFunctionType::CreateContractHostFn => {
                let v0 = CreateContractArgs::parse(parser)?;
                Ok(SorobanAuthorizedFunction::CreateContractHostFn(v0))
            },
            SorobanAuthorizedFunctionType::CreateContractV2HostFn => {
                let v0 = CreateContractArgsV2::parse(parser)?;
                Ok(SorobanAuthorizedFunction::CreateContractV2HostFn(v0))
            },
        }
    }

    proof fn lemma_prefix(data: Seq<u8>, pos: int, depth: int, k: int) {
        SorobanAuthorizedFunctionType::lemma_prefix(data, pos, depth, k);
        lemma_fixed_prefix(data, pos, k);
        if SorobanAuthorizedFunctionType::scan(data, pos, depth) is Ok {
            let p = pos + 4;
            if be_i32(data, pos) == 0 {
                InvokeContractArgs::lemma_prefix(data, p, depth, k);
            } else if be_i32(data, pos) == 1 {
                CreateContractArgs::lemma_prefix(data, p, depth, k);
            } else if be_i32(data, pos) == 2 {
                CreateContractArgsV2::lemma_prefix(data, p, depth, k);
            }
        }
    }
}

/// An authorized call and the calls that it authorizes in turn, each one
/// level deeper.
#[derive(Debug, PartialEq, Eq)]
pub struct SorobanAuthorizedInvocation<'a> {
    pub function: SorobanAuthorizedFunction<'a>,
    pub sub_invocations: Vec<SorobanAuthorizedInvocation<'a>>,
}

/// Where an authorized invocation at `pos` ends: the function, then the
/// list of the invocations under it.
pub open spec fn invocation_scan(data: Seq<u8>, pos: int, depth: int) -> Result<int, ParseError>
    decreases fuel(depth), 1nat, 0nat,
{
    match SorobanAuthorizedFunction::scan(data, pos, depth) {
        Err(e) => Err(e),
        Ok(p) => invocation_list_scan(data, p, depth),
    }
}

/// An authorized invocation that is cut off fails with a buffer overflow.
pub proof fn lemma_invocation_scan_prefix(data: Seq<u8>, pos: int, depth: int, k: int)
    requires
        0 <= pos,
        0 <= k <= data.len(),
    ensures
        cut_short(
            invocation_scan(data, pos, depth),
            invocation_scan(data.subrange(0, k), pos, depth),
            pos,
            k,
            data.len() as int,
        ),
    decreases fuel(depth), 1nat, 0nat,
{
    SorobanAuthorizedFunction::lemma_prefix(data, pos, depth, k);
    if SorobanAuthorizedFunction::scan(data, pos, depth) is Ok {
        lemma_invocation_list_scan_prefix(
            data,
            SorobanAuthorizedFunction::scan(data, pos, depth)->Ok_0,
            depth,
            k,
        );
    }
}

/// Whether `v` is the authorized invocation that the bytes at `pos` encode.
pub open spec fn invocation_decoded(
    v: SorobanAuthorizedInvocation,
    data: Seq<u8>,
    pos: int,
    depth: int,
) -> bool
    decreases fuel(depth), 1nat, 0nat,
{
    &&& v.function.decoded_from(data, pos, depth)
    &&& invocation_list_decoded(
        v.sub_invocations@,
        data,
        SorobanAuthorizedFunction::scan(data, pos, depth).unwrap(),
        depth,
    )
}

/// Decodes an authorized invocation.
pub fn parse_invocation<'a>(
    parser: &mut Parser<'a>,
) -> (r: Result<SorobanAuthorizedInvocation<'a>, ParseError>)
    requires
        old(parser).wf(),
    ensures
        stepped(
            *old(parser),
            *final(parser),
            r,
            invocation_scan(old(parser).bytes(), old(parser).pos(), old(parser).level()),
        ),
        r matches Ok(v) ==> invocation_decoded(
            v,
            old(parser).bytes(),
            old(parser).pos(),
            old(parser).level(),
        ),
    decreases fuel(old(parser).level()), 1nat, 0nat,
{
    let function = SorobanAuthorizedFunction::parse(parser)?;
    let sub_invocations = parse_invocation_list(parser)?;
    Ok(SorobanAuthorizedInvocation { function, sub_invocations })
}

impl<'a> XdrParse<'a> for SorobanAuthorizedInvocation<'a> {
    open spec fn scan(data: Seq<u8>, pos: int, depth: int) -> Result<int, ParseError> {
        invocation_scan(data, pos, depth)
    }

    open spec fn decoded_from(&self, data: Seq<u8>, pos: int, depth: int) -> bool {
        invocation_decoded(*self, data, pos, depth)
    }

    fn parse(parser: &mut Parser<'a>) -> (r: Result<Self, ParseError>) {
        parse_invocation(parser)
    }

    proof fn lemma_prefix(data: Seq<u8>, pos: int, depth: int, k: int) {
        lemma_invocation_scan_prefix(data, pos, depth, k);
    }
}

/// Where the first `n` authorized invocations end that are encoded back to back from `start`.
pub open spec fn invocation_items_scan(
    data: Seq<u8>,
    start: int,
    depth: int,
    n: nat,
) -> Result<int, ParseError>
    decreases fuel(depth), 2nat, n,
{
    if n == 0 {
        Ok(start)
    } else {
        match invocation_items_scan(data, start, depth, (n - 1) as nat) {
            Ok(p) => invocation_scan(data, p, depth),
            Err(e) => Err(e),
        }
    }
}

/// One of the authorized invocations that fails to decode fails the whole run, with its error.
pub proof fn lemma_invocation_items_err(data: Seq<u8>, start: int, depth: int, i: nat, n: nat)
    requires
        i <= n,
        invocation_items_scan(data, start, depth, i) is Err,
    ensures
        invocation_items_scan(data, start, depth, n) == invocation_items_scan(
            data,
            start,
            depth,
            i,
        ),
    decreases n,
{
    if i < n {
        lemma_invocation_items_err(data, start, depth, i, (n - 1) as nat);
    }
}

/// A run of authorized invocations that is cut off fails with a buffer overflow.
pub proof fn lemma_invocation_items_scan_prefix(
    data: Seq<u8>,
    start: int,
    depth: int,
    n: nat,
    k: int,
)
    requires
        0 <= start <= data.len(),
        0 <= k <= data.len(),
    ensures
        cut_short(
            invocation_items_scan(data, start, depth, n),
            invocation_items_scan(data.subrange(0, k), start, depth, n),
            start,
            k,
            data.len() as int,
        ),
    decreases fuel(depth), 2nat, n,
{
    if n > 0 {
        lemma_invocation_items_scan_prefix(data, start, depth, (n - 1) as nat, k);
        let before = invocation_items_scan(data, start, depth, (n - 1) as nat);
        if before is Ok {
            lemma_invocation_scan_prefix(data, before->Ok_0, depth, k);
        }
    }
}

/// Where a list of authorized invocations at `pos` ends: a count, then one level deeper
/// that many items.
pub open spec fn invocation_list_scan(
    data: Seq<u8>,
    pos: int,
    depth: int,
) -> Result<int, ParseError>
    decreases fuel(depth), 0nat, 0nat,
{
    if pos + 4 > data.len() {
        Err(ParseError::BufferOverflow)
    } else if depth >= MAX_PARSE_DEPTH {
        Err(ParseError::MaxDepthExceeded { depth: (depth + 1) as usize, max: MAX_PARSE_DEPTH })
    } else {
        invocation_items_scan(data, pos + 4, depth + 1, be_u32(data, pos) as nat)
    }
}

/// A list of authorized invocations that is cut off fails with a buffer overflow.
pub proof fn lemma_invocation_list_scan_prefix(data: Seq<u8>, pos: int, depth: int, k: int)
    requires
        0 <= pos,
        0 <= k <= data.len(),
    ensures
        cut_short(
            invocation_list_scan(data, pos, depth),
            invocation_list_scan(data.subrange(0, k), pos, depth),
            pos,
            k,
            data.len() as int,
        ),
    decreases fuel(depth), 0nat, 0nat,
{
    lemma_fixed_prefix(data, pos, k);
    if pos + 4 <= data.len() && depth < MAX_PARSE_DEPTH {
        lemma_invocation_items_scan_prefix(data, pos + 4, depth + 1, be_u32(data, pos) as nat, k);
    }
}

/// Whether `items` are the authorized invocations of the list at `pos`, each taken from
/// the place where the one before it ends.
pub open spec fn invocation_list_decoded(
    items: Seq<SorobanAuthorizedInvocation>,
    data: Seq<u8>,
    pos: int,
    depth: int,
) -> bool
    decreases fuel(depth), 0nat, 0nat,
{
    &&& depth < MAX_PARSE_DEPTH
    &&& items.len() == be_u32(data, pos)
    &&& forall|i: int|
        0 <= i < items.len() ==> invocation_decoded(
            #[trigger] items[i],
            data,
            invocation_items_scan(data, pos + 4, depth + 1, i as nat).unwrap(),
            depth + 1,
        )
}

/// Decodes a list of authorized invocations.
#[verifier::loop_isolation(false)]
pub fn parse_invocation_list<'a>(
    parser: &mut Parser<'a>,
) -> (r: Result<Vec<SorobanAuthorizedInvocation<'a>>, ParseError>)
    requires
        old(parser).wf(),
    ensures
        stepped(
            *old(parser),
            *final(parser),
            r,
            invocation_list_scan(old(parser).bytes(), old(parser).pos(), old(parser).level()),
        ),
        r matches Ok(v) ==> invocation_list_decoded(
            v@,
            old(parser).bytes(),
            old(parser).pos(),
            old(parser).level(),
        ),
    decreases fuel(old(parser).level()), 0nat, 0nat,
{
    let ghost data = parser.bytes();
    let ghost pos = parser.pos();
    let ghost depth = parser.level();
    let len = parser.parse_uint32()?;
    parser.enter_recursion()?;
    let mut items: Vec<SorobanAuthorizedInvocation<'a>> = Vec::with_capacity(len as usize);
    let mut i: u32 = 0;
    while i < len
        invariant
            parser.wf(),
            parser.bytes() == data,
            parser.level() == depth + 1,
            0 <= i <= len,
            items@.len() == i,
            invocation_items_scan(data, pos + 4, depth + 1, i as nat) == Ok::<int, ParseError>(
                parser.pos(),
            ),
            forall|j: int|
                0 <= j < i ==> invocation_decoded(
                    #[trigger] items@[j],
                    data,
                    invocation_items_scan(data, pos + 4, depth + 1, j as nat).unwrap(),
                    depth + 1,
                ),
        decreases len - i,
    {
        match parse_invocation(parser) {
            Ok(item) => {
                items.push(item);
            },
            Err(e) => {
                proof {
                    assert(invocation_items_scan(data, pos + 4, depth + 1, (i + 1) as nat) == Err::<
                        int,
                        ParseError,
                    >(e));
                    lemma_invocation_items_err(data, pos + 4, depth + 1, (i + 1) as nat, len as nat);
                }
                parser.exit_recursion();
                return Err(e);
            },
        }
        i += 1;
    }
    parser.exit_recursion();
    Ok(items)
}

/// One authorization: whose it is and what it covers.
#[derive(Debug, PartialEq, Eq)]
pub struct SorobanAuthorizationEntry<'a> {
    pub credentials: SorobanCredentials<'a>,
    pub root_invocation: SorobanAuthorizedInvocation<'a>,
}

impl<'a> XdrParse<'a> for SorobanAuthorizationEntry<'a> {
    open spec fn scan(data: Seq<u8>, pos: int, depth: int) -> Result<int, ParseError> {
        match SorobanCredentials::scan(data, pos, depth) {
            Err(e) => Err(e),
            Ok(p1) => {
                SorobanAuthorizedInvocation::scan(data, p1, depth)
            },
        }
    }

    open spec fn decoded_from(&self, data: Seq<u8>, pos: int, depth: int) -> bool {
        let p1 = SorobanCredentials::scan(data, pos, depth).unwrap();
        &&& self.credentials.decoded_from(data, pos, depth)
        &&& self.root_invocation.decoded_from(data, p1, depth)
    }

    fn parse(parser: &mut Parser<'a>) -> (r: Result<Self, ParseError>) {
        let credentials = SorobanCredentials::parse(parser)?;
        let root_invocation = SorobanAuthorizedInvocation::parse(parser)?;
        Ok(SorobanAuthorizationEntry { credentials, root_invocation })
    }

    proof fn lemma_prefix(data: Seq<u8>, pos: int, depth: int, k: int) {
        SorobanCredentials::lemma_prefix(data, pos, depth, k);
        if SorobanCredentials::scan(data, pos, depth) is Ok {
            let p1 = SorobanCredentials::scan(data, pos, depth)->Ok_0;
            SorobanAuthorizedInvocation::lemma_prefix(data, p1, depth, k);
        }
    }
}

/// An operation that runs a host function.
#[derive(Debug, PartialEq, Eq)]
pub struct InvokeHostFunctionOp<'a> {
    pub host_function: HostFunction<'a>,
    pub auth: VecM<SorobanAuthorizationEntry<'a>, 4294967295>,
}

impl<'a> XdrParse<'a> for InvokeHostFunctionOp<'a> {
    open spec fn scan(data: Seq<u8>, pos: int, depth: int) -> Result<int, ParseError> {
        match HostFunction::scan(data, pos, depth) {
            Err(e) => Err(e),
            Ok(p1) => {
                VecM::<SorobanAuthorizationEntry, 4294967295>::scan(data, p1, depth)
            },
        }
    }

    open spec fn decoded_from(&self, data: Seq<u8>, pos: int, depth: int) -> bool {
        let p1 = HostFunction::scan(data, pos, depth).unwrap();
        &&& self.host_function.decoded_from(data, pos, depth)
        &&& self.auth.decoded_from(data, p1, depth)
    }

    fn parse(parser: &mut Parser<'a>) -> (r: Result<Self, ParseError>) {
        let host_function = HostFunction::parse(parser)?;
        let auth = VecM::<SorobanAuthorizationEntry, 4294967295>::parse(parser)?;
        Ok(InvokeHostFunctionOp { host_function, auth })
    }

    proof fn lemma_prefix(data: Seq<u8>, pos: int, depth: int, k: int) {
        HostFunction::lemma_prefix(data, pos, depth, k);
        if HostFunction::scan(data, pos, depth) is Ok {
            let p1 = HostFunction::scan(data, pos, depth)->Ok_0;
            VecM::<SorobanAuthorizationEntry, 4294967295>::lemma_prefix(data, p1, depth, k);
        }
    }
}

/// What is signed for an authorization: the network, a nonce, the ledger at
/// which the signature expires, and the invocation.
#[derive(Debug, PartialEq, Eq)]
pub struct HashIdPreimageSorobanAuthorization<'a> {
    pub network_id: Uint256<'a>,
    pub nonce: i64,
    pub signature_expiration_ledger: u32,
    pub invocation: SorobanAuthorizedInvocation<'a>,
}

impl<'a> XdrParse<'a> for HashIdPreimageSorobanAuthorization<'a> {
    open spec fn scan(data: Seq<u8>, pos: int, depth: int) -> Result<int, ParseError> {
        match Uint256::scan(data, pos, depth) {
            Err(e) => Err(e),
            Ok(p1) => {
                match scan_fixed(data, p1, 8) {
                    Err(e) => Err(e),
                    Ok(p2) => {
                        match scan_fixed(data, p2, 4) {
                            Err(e) => Err(e),
                            Ok(p3) => {
                                SorobanAuthorizedInvocation::scan(data, p3, depth)
                            },
                        }
                    },
                }
            },
        }
    }

    open spec fn decoded_from(&self, data: Seq<u8>, pos: int, depth: int) -> bool {
        &&& self.network_id.decoded_from(data, pos, depth)
        &&& self.nonce == be_i64(data, pos + 32)
        &&& self.signature_expiration_ledger == be_u32(data, pos + 40)
        &&& self.invocation.decoded_from(data, pos + 44, depth)
    }

    fn parse(parser: &mut Parser<'a>) -> (r: Result<Self, ParseError>) {
        let network_id = Uint256::parse(parser)?;
        let nonce = parser.parse_int64()?;
        let signature_expiration_ledger = parser.parse_uint32()?;
        let invocation = SorobanAuthorizedInvocation::parse(parser)?;
        Ok(HashIdPreimageSorobanAuthorization {
            network_id,
            nonce,
            signature_expiration_ledger,
            invocation,
        })
    }

    proof fn lemma_prefix(data: Seq<u8>, pos: int, depth: int, k: int) {
        Uint256::lemma_prefix(data, pos, depth, k);
        if Uint256::scan(data, pos, depth) is Ok {
            let p1 = Uint256::scan(data, pos, depth)->Ok_0;
            lemma_fixed_prefix(data, p1, k);
            if scan_fixed(data, p1, 8) is Ok {
                let p2 = scan_fixed(data, p1, 8)->Ok_0;
                lemma_fixed_prefix(data, p2, k);
                if scan_fixed(data, p2, 4) is Ok {
                    let p3 = scan_fixed(data, p2, 4)->Ok_0;
                    SorobanAuthorizedInvocation::lemma_prefix(data, p3, depth, k);
                }
            }
        }
    }
}

/// A preimage that is hashed and signed.
#[derive(Debug, PartialEq, Eq)]
pub enum HashIDPreimage<'a> {
    SorobanAuthorization(HashIdPreimageSorobanAuthorization<'a>),
}

impl<'a> XdrParse<'a> for HashIDPreimage<'a> {
    open spec fn scan(data: Seq<u8>, pos: int, depth: int) -> Result<int, ParseError> {
        match EnvelopeType::scan(data, pos, depth) {
            Err(e) => Err(e),
            Ok(p) => {
                if be_i32(data, pos) == 9 {
                    HashIdPreimageSorobanAuthorization::scan(data, p, depth)
                } else {
                    Err(ParseError::InvalidType(be_i32(data, pos) as i32))
                }
            },
        }
    }

    open spec fn decoded_from(&self, data: Seq<u8>, pos: int, depth: int) -> bool {
        match self {
            HashIDPreimage::SorobanAuthorization(v0) => {
                &&& be_i32(data, pos) == 9
                &&& v0.decoded_from(data, pos + 4, depth)
            },
        }
    }

    fn parse(parser: &mut Parser<'a>) -> (r: Result<Self, ParseError>) {
        let kind = EnvelopeType::parse(parser)?;
        match kind {
            EnvelopeType::EnvelopeTypeSorobanAuthorization => {
                let v0 = HashIdPreimageSorobanAuthorization::parse(parser)?;
                Ok(HashIDPreimage::SorobanAuthorization(v0))
            },
            _ => Err(ParseError::InvalidType(kind.code())),
        }
    }

    proof fn lemma_prefix(data: Seq<u8>, pos: int, depth: int, k: int) {
        EnvelopeType::lemma_prefix(data, pos, depth, k);
        lemma_fixed_prefix(data, pos, k);
        if EnvelopeType::scan(data, pos, depth) is Ok {
            let p = pos + 4;
            if be_i32(data, pos) == 9 {
                HashIdPreimageSorobanAuthorization::lemma_prefix(data, p, depth, k);
            }
        }
    }
}

} // verus!

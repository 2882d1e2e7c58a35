//! Transactions and the envelopes that are signed.

use super::codec::{
    lemma_optional_prefix, optional_decoded_from, scan_optional, StringM, VecM, XdrParse,
};
use super::codes::{EnvelopeType, MemoType, PreconditionType};
use super::cursor::{
    be_i32, be_i64, be_u32, be_u64, lemma_fixed_prefix, lemma_optional_fixed_prefix, optional_i64,
    scan_fixed, scan_optional_fixed, ParseError, Parser,
};
use super::keys::{MuxedAccount, SignerKey, Uint256};
use vstd::prelude::*;

verus! {

/// The note attached to a transaction.
#[derive(Debug, Clone, PartialEq, Eq)]
pub enum Memo<'a> {
    MemoNone,
    Text(StringM<'a, 28>),
    Id(u64),
    Hash(Uint256<'a>),
    Return(Uint256<'a>),
}

impl<'a> XdrParse<'a> for Memo<'a> {
    open spec fn scan(data: Seq<u8>, pos: int, depth: int) -> Result<int, ParseError> {
        match MemoType::scan(data, pos, depth) {
            Err(e) => Err(e),
            Ok(p) => {
                if be_i32(data, pos) == 0 {
                    Ok(p)
                } else if be_i32(data, pos) == 1 {
                    StringM::<28>::scan(data, p, depth)
                } else if be_i32(data, pos) == 2 {
                    scan_fixed(data, p, 8)
                } else if be_i32(data, pos) == 3 {
                    Uint256::scan(data, p, depth)
                } else if be_i32(data, pos) == 4 {
                    Uint256::scan(data, p, depth)
                } else {
                    Err(ParseError::InvalidType(be_i32(data, pos) as i32))
                }
            },
        }
    }

    open spec fn decoded_from(&self, data: Seq<u8>, pos: int, depth: int) -> bool {
        match self {
            Memo::MemoNone => be_i32(data, pos) == 0,
            Memo::Text(v0) => {
                &&& be_i32(data, pos) == 1
                &&& v0.decoded_from(data, pos + 4, depth)
            },
            Memo::Id(v0) => {
                &&& be_i32(data, pos) == 2
                &&& v0 == be_u64(data, pos + 4)
            },
            Memo::Hash(v0) => {
                &&& be_i32(data, pos) == 3
                &&& v0.decoded_from(data, pos + 4, depth)
            },
            Memo::Return(v0) => {
                &&& be_i32(data, pos) == 4
                &&& v0.decoded_from(data, pos + 4, depth)
            },
        }
    }

    fn parse(parser: &mut Parser<'a>) -> (r: Result<Self, ParseError>) {
        let kind = MemoType::parse(parser)?;
        match kind {
            MemoType::MemoNone => {
                Ok(Memo::MemoNone)
            },
            MemoType::Text => {
                let v0 = StringM::<28>::parse(parser)?;
                Ok(Memo::Text(v0))
            },
            MemoType::Id => {
                let v0 = parser.parse_uint64()?;
                Ok(Memo::Id(v0))
            },
            MemoType::Hash => {
                let v0 = Uint256::parse(parser)?;
                Ok(Memo::Hash(v0))
            },
            MemoType::Return => {
                let v0 = Uint256::parse(parser)?;
                Ok(Memo::Return(v0))
            },
        }
    }

    proof fn lemma_prefix(data: Seq<u8>, pos: int, depth: int, k: int) {
        MemoType::lemma_prefix(data, pos, depth, k);
        lemma_fixed_prefix(data, pos, k);
        if MemoType::scan(data, pos, depth) is Ok {
            let p = pos + 4;
            if be_i32(data, pos) == 1 {
                StringM::<28>::lemma_prefix(data, p, depth, k);
            } else if be_i32(data, pos) == 2 {
                lemma_fixed_prefix(data, p, k);
            } else if be_i32(data, pos) == 3 {
                Uint256::lemma_prefix(data, p, depth, k);
            } else if be_i32(data, pos) == 4 {
                Uint256::lemma_prefix(data, p, depth, k);
            }
        }
    }
}

/// The span of time in which a transaction is valid; zero leaves a side open.
#[derive(Debug, Clone, PartialEq, Eq)]
pub struct TimeBounds {
    pub min_time: u64,
    pub max_time: u64,
}

impl<'a> XdrParse<'a> for TimeBounds {
    open spec fn scan(data: Seq<u8>, pos: int, depth: int) -> Result<int, ParseError> {
        match scan_fixed(data, pos, 8) {
            Err(e) => Err(e),
            Ok(p1) => {
                scan_fixed(data, p1, 8)
            },
        }
    }

    open spec fn decoded_from(&self, data: Seq<u8>, pos: int, depth: int) -> bool {
        &&& self.min_time == be_u64(data, pos)
        &&& self.max_time == be_u64(data, pos + 8)
    }

    fn parse(parser: &mut Parser<'a>) -> (r: Result<Self, ParseError>) {
        let min_time = parser.parse_uint64()?;
        let max_time = parser.parse_uint64()?;
        Ok(TimeBounds { min_time, max_time })
    }

    proof fn lemma_prefix(data: Seq<u8>, pos: int, depth: int, k: int) {
        lemma_fixed_prefix(data, pos, k);
        if scan_fixed(data, pos, 8) is Ok {
            let p1 = scan_fixed(data, pos, 8)->Ok_0;
            lemma_fixed_prefix(data, p1, k);
        }
    }
}

/// The span of ledgers in which a transaction is valid; zero leaves a side open.
#[derive(Debug, Clone, PartialEq, Eq)]
pub struct LedgerBounds {
    pub min_ledger: u32,
    pub max_ledger: u32,
}

impl<'a> XdrParse<'a> for LedgerBounds {
    open spec fn scan(data: Seq<u8>, pos: int, depth: int) -> Result<int, ParseError> {
        match scan_fixed(data, pos, 4) {
            Err(e) => Err(e),
            Ok(p1) => {
                scan_fixed(data, p1, 4)
            },
        }
    }

    open spec fn decoded_from(&self, data: Seq<u8>, pos: int, depth: int) -> bool {
        &&& self.min_ledger == be_u32(data, pos)
        &&& self.max_ledger == be_u32(data, pos + 4)
    }

    fn parse(parser: &mut Parser<'a>) -> (r: Result<Self, ParseError>) {
        let min_ledger = parser.parse_uint32()?;
        let max_ledger = parser.parse_uint32()?;
        Ok(LedgerBounds { min_ledger, max_ledger })
    }

    proof fn lemma_prefix(data: Seq<u8>, pos: int, depth: int, k: int) {
        lemma_fixed_prefix(data, pos, k);
        if scan_fixed(data, pos, 4) is Ok {
            let p1 = scan_fixed(data, pos, 4)->Ok_0;
            lemma_fixed_prefix(data, p1, k);
        }
    }
}

/// The full set of conditions on a transaction.
#[derive(Debug, Clone, PartialEq, Eq)]
pub struct PreconditionsV2<'a> {
    pub time_bounds: Option<TimeBounds>,
    pub ledger_bounds: Option<LedgerBounds>,
    pub min_seq_num: Option<i64>,
    pub min_seq_age: u64,
    pub min_seq_ledger_gap: u32,
    pub extra_signers: VecM<SignerKey<'a>, 2>,
}

impl<'a> XdrParse<'a> for PreconditionsV2<'a> {
    open spec fn scan(data: Seq<u8>, pos: int, depth: int) -> Result<int, ParseError> {
        match scan_optional::<TimeBounds>(data, pos, depth) {
            Err(e) => Err(e),
            Ok(p1) => {
                match scan_optional::<LedgerBounds>(data, p1, depth) {
                    Err(e) => Err(e),
                    Ok(p2) => {
                        match scan_optional_fixed(data, p2, 8) {
                            Err(e) => Err(e),
                            Ok(p3) => {
                                match scan_fixed(data, p3, 8) {
                                    Err(e) => Err(e),
                                    Ok(p4) => {
                                        match scan_fixed(data, p4, 4) {
                                            Err(e) => Err(e),
                                            Ok(p5) => {
                                                VecM::<SignerKey, 2>::scan(data, p5, depth)
                                            },
                                        }
                                    },
                                }
                            },
                        }
                    },
                }
            },
        }
    }

    open spec fn decoded_from(&self, data: Seq<u8>, pos: int, depth: int) -> bool {
        let p1 = scan_optional::<TimeBounds>(data, pos, depth).unwrap();
        let p2 = scan_optional::<LedgerBounds>(data, p1, depth).unwrap();
        let p3 = scan_optional_fixed(data, p2, 8).unwrap();
        &&& optional_decoded_from::<TimeBounds>(self.time_bounds, data, pos, depth)
        &&& optional_decoded_from::<LedgerBounds>(self.ledger_bounds, data, p1, depth)
        &&& self.min_seq_num == optional_i64(data, p2)
        &&& self.min_seq_age == be_u64(data, p3)
        &&& self.min_seq_ledger_gap == be_u32(data, p3 + 8)
        &&& self.extra_signers.decoded_from(data, p3 + 12, depth)
    }

    fn parse(parser: &mut Parser<'a>) -> (r: Result<Self, ParseError>) {
        let time_bounds = parser.parse_optional::<TimeBounds>()?;
        let ledger_bounds = parser.parse_optional::<LedgerBounds>()?;
        let min_seq_num = parser.parse_optional_i64()?;
        let min_seq_age = parser.parse_uint64()?;
        let min_seq_ledger_gap = parser.parse_uint32()?;
        let extra_signers = VecM::<SignerKey, 2>::parse(parser)?;
        Ok(PreconditionsV2 {
            time_bounds,
            ledger_bounds,
            min_seq_num,
            min_seq_age,
            min_seq_ledger_gap,
            extra_signers,
        })
    }

    proof fn lemma_prefix(data: Seq<u8>, pos: int, depth: int, k: int) {
        lemma_optional_prefix::<TimeBounds>(data, pos, depth, k);
        if scan_optional::<TimeBounds>(data, pos, depth) is Ok {
            let p1 = scan_optional::<TimeBounds>(data, pos, depth)->Ok_0;
            lemma_optional_prefix::<LedgerBounds>(data, p1, depth, k);
            if scan_optional::<LedgerBounds>(data, p1, depth) is Ok {
                let p2 = scan_optional::<LedgerBounds>(data, p1, depth)->Ok_0;
                lemma_optional_fixed_prefix(data, p2, 8, k);
                if scan_optional_fixed(data, p2, 8) is Ok {
                    let p3 = scan_optional_fixed(data, p2, 8)->Ok_0;
                    lemma_fixed_prefix(data, p3, k);
                    if scan_fixed(data, p3, 8) is Ok {
                        let p4 = scan_fixed(data, p3, 8)->Ok_0;
                        lemma_fixed_prefix(data, p4, k);
                        if scan_fixed(data, p4, 4) is Ok {
                            let p5 = scan_fixed(data, p4, 4)->Ok_0;
                            VecM::<SignerKey, 2>::lemma_prefix(data, p5, depth, k);
                        }
                    }
                }
            }
        }
    }
}

/// The conditions under which a transaction is valid.
#[derive(Debug, Clone, PartialEq, Eq)]
pub enum Preconditions<'a> {
    PrecondNone,
    Time(TimeBounds),
    V2(PreconditionsV2<'a>),
}

impl<'a> XdrParse<'a> for Preconditions<'a> {
    open spec fn scan(data: Seq<u8>, pos: int, depth: int) -> Result<int, ParseError> {
        match PreconditionType::scan(data, pos, depth) {
            Err(e) => Err(e),
            Ok(p) => {
                if be_i32(data, pos) == 0 {
                    Ok(p)
                } else if be_i32(data, pos) == 1 {
                    TimeBounds::scan(data, p, depth)
                } else if be_i32(data, pos) == 2 {
                    PreconditionsV2::scan(data, p, depth)
                } else {
                    Err(ParseError::InvalidType(be_i32(data, pos) as i32))
                }
            },
        }
    }

    open spec fn decoded_from(&self, data: Seq<u8>, pos: int, depth: int) -> bool {
        match self {
            Preconditions::PrecondNone => be_i32(data, pos) == 0,
            Preconditions::Time(v0) => {
                &&& be_i32(data, pos) == 1
                &&& v0.decoded_from(data, pos + 4, depth)
            },
            Preconditions::V2(v0) => {
                &&& be_i32(data, pos) == 2
                &&& v0.decoded_from(data, pos + 4, depth)
            },
        }
    }

    fn parse(parser: &mut Parser<'a>) -> (r: Result<Self, ParseError>) {
        let kind = PreconditionType::parse(parser)?;
        match kind {
            PreconditionType::PrecondNone => {
                Ok(Preconditions::PrecondNone)
            },
            PreconditionType::Time => {
                let v0 = TimeBounds::parse(parser)?;
                Ok(Preconditions::Time(v0))
            },
            PreconditionType::V2 => {
                let v0 = PreconditionsV2::parse(parser)?;
                Ok(Preconditions::V2(v0))
            },
        }
    }

    proof fn lemma_prefix(data: Seq<u8>, pos: int, depth: int, k: int) {
        PreconditionType::lemma_prefix(data, pos, depth, k);
        lemma_fixed_prefix(data, pos, k);
        if PreconditionType::scan(data, pos, depth) is Ok {
            let p = pos + 4;
            if be_i32(data, pos) == 1 {
                TimeBounds::lemma_prefix(data, p, depth, k);
            } else if be_i32(data, pos) == 2 {
                PreconditionsV2::lemma_prefix(data, p, depth, k);
            }
        }
    }
}

/// A transaction without its operations, which follow it one by one.
#[derive(Debug, Clone, PartialEq, Eq)]
pub struct Transaction<'a> {
    pub source_account: MuxedAccount<'a>,
    pub fee: u32,
    pub seq_num: i64,
    pub cond: Preconditions<'a>,
    pub memo: Memo<'a>,
    pub op_count: u32,
}

impl<'a> XdrParse<'a> for Transaction<'a> {
    open spec fn scan(data: Seq<u8>, pos: int, depth: int) -> Result<int, ParseError> {
        match MuxedAccount::scan(data, pos, depth) {
            Err(e) => Err(e),
            Ok(p1) => {
                match scan_fixed(data, p1, 4) {
                    Err(e) => Err(e),
                    Ok(p2) => {
                        match scan_fixed(data, p2, 8) {
                            Err(e) => Err(e),
                            Ok(p3) => {
                                match Preconditions::scan(data, p3, depth) {
                                    Err(e) => Err(e),
                                    Ok(p4) => {
                                        match Memo::scan(data, p4, depth) {
                                            Err(e) => Err(e),
                                            Ok(p5) => {
                                                scan_fixed(data, p5, 4)
                                            },
                                        }
                                    },
                                }
                            },
                        }
                    },
                }
            },
        }
    }

    open spec fn decoded_from(&self, data: Seq<u8>, pos: int, depth: int) -> bool {
        let p1 = MuxedAccount::scan(data, pos, depth).unwrap();
        let p4 = Preconditions::scan(data, p1 + 12, depth).unwrap();
        let p5 = Memo::scan(data, p4, depth).unwrap();
        &&& self.source_account.decoded_from(data, pos, depth)
        &&& self.fee == be_u32(data, p1)
        &&& self.seq_num == be_i64(data, p1 + 4)
        &&& self.cond.decoded_from(data, p1 + 12, depth)
        &&& self.memo.decoded_from(data, p4, depth)
        &&& self.op_count == be_u32(data, p5)
    }

    fn parse(parser: &mut Parser<'a>) -> (r: Result<Self, ParseError>) {
        let source_account = MuxedAccount::parse(parser)?;
        let fee = parser.parse_uint32()?;
        let seq_num = parser.parse_int64()?;
        let cond = Preconditions::parse(parser)?;
        let memo = Memo::parse(parser)?;
        let op_count = parser.parse_uint32()?;
        Ok(Transaction { source_account, fee, seq_num, cond, memo, op_count })
    }

    proof fn lemma_prefix(data: Seq<u8>, pos: int, depth: int, k: int) {
        MuxedAccount::lemma_prefix(data, pos, depth, k);
        if MuxedAccount::scan(data, pos, depth) is Ok {
            let p1 = MuxedAccount::scan(data, pos, depth)->Ok_0;
            lemma_fixed_prefix(data, p1, k);
            if scan_fixed(data, p1, 4) is Ok {
                let p2 = scan_fixed(data, p1, 4)->Ok_0;
                lemma_fixed_prefix(data, p2, k);
                if scan_fixed(data, p2, 8) is Ok {
                    let p3 = scan_fixed(data, p2, 8)->Ok_0;
                    Preconditions::lemma_prefix(data, p3, depth, k);
                    if Preconditions::scan(data, p3, depth) is Ok {
                        let p4 = Preconditions::scan(data, p3, depth)->Ok_0;
                        Memo::lemma_prefix(data, p4, depth, k);
                        if Memo::scan(data, p4, depth) is Ok {
                            let p5 = Memo::scan(data, p4, depth)->Ok_0;
                            lemma_fixed_prefix(data, p5, k);
                        }
                    }
                }
            }
        }
    }
}

/// The transaction that a fee bump wraps.
#[derive(Debug, Clone, PartialEq, Eq)]
pub enum InnerTransaction<'a> {
    EnvelopeTypeTx(Transaction<'a>),
}

impl<'a> XdrParse<'a> for InnerTransaction<'a> {
    open spec fn scan(data: Seq<u8>, pos: int, depth: int) -> Result<int, ParseError> {
        match EnvelopeType::scan(data, pos, depth) {
            Err(e) => Err(e),
            Ok(p) => {
                if be_i32(data, pos) == 2 {
                    Transaction::scan(data, p, depth)
                } else {
                    Err(ParseError::InvalidType(be_i32(data, pos) as i32))
                }
            },
        }
    }

    open spec fn decoded_from(&self, data: Seq<u8>, pos: int, depth: int) -> bool {
        match self {
            InnerTransaction::EnvelopeTypeTx(v0) => {
                &&& be_i32(data, pos) == 2
                &&& v0.decoded_from(data, pos + 4, depth)
            },
        }
    }

    fn parse(parser: &mut Parser<'a>) -> (r: Result<Self, ParseError>) {
        let kind = EnvelopeType::parse(parser)?;
        match kind {
            EnvelopeType::EnvelopeTypeTx => {
                let v0 = Transaction::parse(parser)?;
                Ok(InnerTransaction::EnvelopeTypeTx(v0))
            },
            _ => Err(ParseError::InvalidType(kind.code())),
        }
    }

    proof fn lemma_prefix(data: Seq<u8>, pos: int, depth: int, k: int) {
        EnvelopeType::lemma_prefix(data, pos, depth, k);
        lemma_fixed_prefix(data, pos, k);
        if EnvelopeType::scan(data, pos, depth) is Ok {
            let p = pos + 4;
            if be_i32(data, pos) == 2 {
                Transaction::lemma_prefix(data, p, depth, k);
            }
        }
    }
}

/// A transaction whose fee another account pays.
#[derive(Debug, Clone, PartialEq, Eq)]
pub struct FeeBumpTransaction<'a> {
    pub fee_source: MuxedAccount<'a>,
    pub fee: i64,
    pub inner_tx: InnerTransaction<'a>,
}

impl<'a> XdrParse<'a> for FeeBumpTransaction<'a> {
    open spec fn scan(data: Seq<u8>, pos: int, depth: int) -> Result<int, ParseError> {
        match MuxedAccount::scan(data, pos, depth) {
            Err(e) => Err(e),
            Ok(p1) => {
                match scan_fixed(data, p1, 8) {
                    Err(e) => Err(e),
                    Ok(p2) => {
                        InnerTransaction::scan(data, p2, depth)
                    },
                }
            },
        }
    }

    open spec fn decoded_from(&self, data: Seq<u8>, pos: int, depth: int) -> bool {
        let p1 = MuxedAccount::scan(data, pos, depth).unwrap();
        &&& self.fee_source.decoded_from(data, pos, depth)
        &&& self.fee == be_i64(data, p1)
        &&& self.inner_tx.decoded_from(data, p1 + 8, depth)
    }

    fn parse(parser: &mut Parser<'a>) -> (r: Result<Self, ParseError>) {
        let fee_source = MuxedAccount::parse(parser)?;
        let fee = parser.parse_int64()?;
        let inner_tx = InnerTransaction::parse(parser)?;
        Ok(FeeBumpTransaction { fee_source, fee, inner_tx })
    }

    proof fn lemma_prefix(data: Seq<u8>, pos: int, depth: int, k: int) {
        MuxedAccount::lemma_prefix(data, pos, depth, k);
        if MuxedAccount::scan(data, pos, depth) is Ok {
            let p1 = MuxedAccount::scan(data, pos, depth)->Ok_0;
            lemma_fixed_prefix(data, p1, k);
            if scan_fixed(data, p1, 8) is Ok {
                let p2 = scan_fixed(data, p1, 8)->Ok_0;
                InnerTransaction::lemma_prefix(data, p2, depth, k);
            }
        }
    }
}

/// A transaction, plain or fee bump.
#[derive(Debug, Clone, PartialEq, Eq)]
pub enum TaggedTransaction<'a> {
    EnvelopeTypeTx(Transaction<'a>),
    EnvelopeTypeTxFeeBump(FeeBumpTransaction<'a>),
}

impl<'a> XdrParse<'a> for TaggedTransaction<'a> {
    open spec fn scan(data: Seq<u8>, pos: int, depth: int) -> Result<int, ParseError> {
        match EnvelopeType::scan(data, pos, depth) {
            Err(e) => Err(e),
            Ok(p) => {
                if be_i32(data, pos) == 2 {
                    Transaction::scan(data, p, depth)
                } else if be_i32(data, pos) == 5 {
                    FeeBumpTransaction::scan(data, p, depth)
                } else {
                    Err(ParseError::InvalidType(be_i32(data, pos) as i32))
                }
            },
        }
    }

    open spec fn decoded_from(&self, data: Seq<u8>, pos: int, depth: int) -> bool {
        match self {
            TaggedTransaction::EnvelopeTypeTx(v0) => {
                &&& be_i32(data, pos) == 2
                &&& v0.decoded_from(data, pos + 4, depth)
            },
            TaggedTransaction::EnvelopeTypeTxFeeBump(v0) => {
                &&& be_i32(data, pos) == 5
                &&& v0.decoded_from(data, pos + 4, depth)
            },
        }
    }

    fn parse(parser: &mut Parser<'a>) -> (r: Result<Self, ParseError>) {
        let kind = EnvelopeType::parse(parser)?;
        match kind {
            EnvelopeType::EnvelopeTypeTx => {
                let v0 = Transaction::parse(parser)?;
                Ok(TaggedTransaction::EnvelopeTypeTx(v0))
            },
            EnvelopeType::EnvelopeTypeTxFeeBump => {
                let v0 = FeeBumpTransaction::parse(parser)?;
                Ok(TaggedTransaction::EnvelopeTypeTxFeeBump(v0))
            },
            _ => Err(ParseError::InvalidType(kind.code())),
        }
    }

    proof fn lemma_prefix(data: Seq<u8>, pos: int, depth: int, k: int) {
        EnvelopeType::lemma_prefix(data, pos, depth, k);
        lemma_fixed_prefix(data, pos, k);
        if EnvelopeType::scan(data, pos, depth) is Ok {
            let p = pos + 4;
            if be_i32(data, pos) == 2 {
                Transaction::lemma_prefix(data, p, depth, k);
            } else if be_i32(data, pos) == 5 {
                FeeBumpTransaction::lemma_prefix(data, p, depth, k);
            }
        }
    }
}

/// What is signed for a transaction: the network and the transaction.
#[derive(Debug, Clone, PartialEq, Eq)]
pub struct TransactionSignaturePayload<'a> {
    pub network_id: Uint256<'a>,
    pub tagged_transaction: TaggedTransaction<'a>,
}

impl<'a> XdrParse<'a> for TransactionSignaturePayload<'a> {
    open spec fn scan(data: Seq<u8>, pos: int, depth: int) -> Result<int, ParseError> {
        match Uint256::scan(data, pos, depth) {
            Err(e) => Err(e),
            Ok(p1) => {
                TaggedTransaction::scan(data, p1, depth)
            },
        }
    }

    open spec fn decoded_from(&self, data: Seq<u8>, pos: int, depth: int) -> bool {
        &&& self.network_id.decoded_from(data, pos, depth)
        &&& self.tagged_transaction.decoded_from(data, pos + 32, depth)
    }

    fn parse(parser: &mut Parser<'a>) -> (r: Result<Self, ParseError>) {
        let network_id = Uint256::parse(parser)?;
        let tagged_transaction = TaggedTransaction::parse(parser)?;
        Ok(TransactionSignaturePayload { network_id, tagged_transaction })
    }

    proof fn lemma_prefix(data: Seq<u8>, pos: int, depth: int, k: int) {
        Uint256::lemma_prefix(data, pos, depth, k);
        if Uint256::scan(data, pos, depth) is Ok {
            let p1 = Uint256::scan(data, pos, depth)->Ok_0;
            TaggedTransaction::lemma_prefix(data, p1, depth, k);
        }
    }
}

} // verus!

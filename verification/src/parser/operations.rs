//! Operations and what they carry.

use super::codec::{
    lemma_optional_prefix, lemma_scan_items_err, lemma_scan_items_prefix, optional_decoded_from,
    scan_items, scan_optional, BytesM, StringM, VecM, XdrParse,
};
use super::codes::{
    AssetType, ClaimPredicateType, ClaimantType, ConfigSettingID, ContractDataDurability,
    ExtensionPoint, LedgerEntryType, LiquidityPoolType, OperationType, RevokeSponsorshipType,
};
use super::contract::{ClaimableBalanceId, InvokeHostFunctionOp, ScAddress, ScVal};
use super::cursor::{
    be_i32, be_i64, be_u32, cut_short, fuel, lemma_fixed_prefix, lemma_optional_fixed_prefix,
    optional_u32, scan_bool, scan_fixed, scan_optional_fixed, stepped, ParseError, Parser,
    MAX_PARSE_DEPTH,
};
use super::keys::{
    AlphaNum12, AlphaNum4, Asset, AssetCode, MuxedAccount, PublicKey, SignerKey, Uint256,
};
use vstd::prelude::*;

verus! {

/// Creates and funds an account.
#[derive(Debug, Clone, PartialEq, Eq)]
pub struct CreateAccountOp<'a> {
    pub destination: PublicKey<'a>,
    pub starting_balance: i64,
}

impl<'a> XdrParse<'a> for CreateAccountOp<'a> {
    open spec fn scan(data: Seq<u8>, pos: int, depth: int) -> Result<int, ParseError> {
        match PublicKey::scan(data, pos, depth) {
            Err(e) => Err(e),
            Ok(p1) => {
                scan_fixed(data, p1, 8)
            },
        }
    }

    open spec fn decoded_from(&self, data: Seq<u8>, pos: int, depth: int) -> bool {
        let p1 = PublicKey::scan(data, pos, depth).unwrap();
        &&& self.destination.decoded_from(data, pos, depth)
        &&& self.starting_balance == be_i64(data, p1)
    }

    fn parse(parser: &mut Parser<'a>) -> (r: Result<Self, ParseError>) {
        let destination = PublicKey::parse(parser)?;
        let starting_balance = parser.parse_int64()?;
        Ok(CreateAccountOp { destination, starting_balance })
    }

    proof fn lemma_prefix(data: Seq<u8>, pos: int, depth: int, k: int) {
        PublicKey::lemma_prefix(data, pos, depth, k);
        if PublicKey::scan(data, pos, depth) is Ok {
            let p1 = PublicKey::scan(data, pos, depth)->Ok_0;
            lemma_fixed_prefix(data, p1, k);
        }
    }
}

/// Sends an amount of an asset.
#[derive(Debug, Clone, PartialEq, Eq)]
pub struct PaymentOp<'a> {
    pub destination: MuxedAccount<'a>,
    pub asset: Asset<'a>,
    pub amount: i64,
}

impl<'a> XdrParse<'a> for PaymentOp<'a> {
    open spec fn scan(data: Seq<u8>, pos: int, depth: int) -> Result<int, ParseError> {
        match MuxedAccount::scan(data, pos, depth) {
            Err(e) => Err(e),
            Ok(p1) => {
                match Asset::scan(data, p1, depth) {
                    Err(e) => Err(e),
                    Ok(p2) => {
                        scan_fixed(data, p2, 8)
                    },
                }
            },
        }
    }

    open spec fn decoded_from(&self, data: Seq<u8>, pos: int, depth: int) -> bool {
        let p1 = MuxedAccount::scan(data, pos, depth).unwrap();
        let p2 = Asset::scan(data, p1, depth).unwrap();
        &&& self.destination.decoded_from(data, pos, depth)
        &&& self.asset.decoded_from(data, p1, depth)
        &&& self.amount == be_i64(data, p2)
    }

    fn parse(parser: &mut Parser<'a>) -> (r: Result<Self, ParseError>) {
        let destination = MuxedAccount::parse(parser)?;
        let asset = Asset::parse(parser)?;
        let amount = parser.parse_int64()?;
        Ok(PaymentOp { destination, asset, amount })
    }

    proof fn lemma_prefix(data: Seq<u8>, pos: int, depth: int, k: int) {
        MuxedAccount::lemma_prefix(data, pos, depth, k);
        if MuxedAccount::scan(data, pos, depth) is Ok {
            let p1 = MuxedAccount::scan(data, pos, depth)->Ok_0;
            Asset::lemma_prefix(data, p1, depth, k);
            if Asset::scan(data, p1, depth) is Ok {
                let p2 = Asset::scan(data, p1, depth)->Ok_0;
                lemma_fixed_prefix(data, p2, k);
            }
        }
    }
}

/// A price as a fraction.
#[derive(Debug, Clone, PartialEq, Eq)]
pub struct Price {
    pub n: i32,
    pub d: i32,
}

impl<'a> XdrParse<'a> for Price {
    open spec fn scan(data: Seq<u8>, pos: int, depth: int) -> Result<int, ParseError> {
        match scan_fixed(data, pos, 4) {
            Err(e) => Err(e),
            Ok(p1) => {
                scan_fixed(data, p1, 4)
            },
        }
    }

    open spec fn decoded_from(&self, data: Seq<u8>, pos: int, depth: int) -> bool {
        &&& self.n == be_i32(data, pos)
        &&& self.d == be_i32(data, pos + 4)
    }

    fn parse(parser: &mut Parser<'a>) -> (r: Result<Self, ParseError>) {
        let n = parser.parse_int32()?;
        let d = parser.parse_int32()?;
        Ok(Price { n, d })
    }

    proof fn lemma_prefix(data: Seq<u8>, pos: int, depth: int, k: int) {
        lemma_fixed_prefix(data, pos, k);
        if scan_fixed(data, pos, 4) is Ok {
            let p1 = scan_fixed(data, pos, 4)->Ok_0;
            lemma_fixed_prefix(data, p1, k);
        }
    }
}

/// Where the path of a path payment at `pos` ends: a count of at most five,
/// then that many assets. The path is checked and not kept.
pub open spec fn scan_path(data: Seq<u8>, pos: int, depth: int) -> Result<int, ParseError> {
    if pos + 4 > data.len() {
        Err(ParseError::BufferOverflow)
    } else if be_u32(data, pos) > 5 {
        Err(ParseError::LengthExceedsMax { actual: be_u32(data, pos) as usize, max: 5 })
    } else {
        scan_items::<Asset>(data, pos + 4, depth, be_u32(data, pos) as nat)
    }
}

/// A path that is cut off fails with a buffer overflow.
pub proof fn lemma_scan_path_prefix(data: Seq<u8>, pos: int, depth: int, k: int)
    requires
        0 <= pos,
        0 <= k <= data.len(),
    ensures
        cut_short(
            scan_path(data, pos, depth),
            scan_path(data.subrange(0, k), pos, depth),
            pos,
            k,
            data.len() as int,
        ),
{
    lemma_fixed_prefix(data, pos, k);
    if pos + 4 <= data.len() {
        lemma_scan_items_prefix::<Asset>(data, pos + 4, depth, be_u32(data, pos) as nat, k);
    }
}

/// Decodes the path of a path payment and drops it.
#[verifier::loop_isolation(false)]
pub fn skip_path<'a>(parser: &mut Parser<'a>) -> (r: Result<(), ParseError>)
    requires
        old(parser).wf(),
    ensures
        stepped(
            *old(parser),
            *final(parser),
            r,
            scan_path(old(parser).bytes(), old(parser).pos(), old(parser).level()),
        ),
{
    let ghost data = parser.bytes();
    let ghost pos = parser.pos();
    let ghost depth = parser.level();
    let len = parser.parse_uint32()?;
    if len > 5 {
        return Err(ParseError::LengthExceedsMax { actual: len as usize, max: 5 });
    }
    let mut i: u32 = 0;
    while i < len
        invariant
            parser.wf(),
            parser.bytes() == data,
            parser.level() == depth,
            0 <= i <= len,
            scan_items::<Asset>(data, pos + 4, depth, i as nat) == Ok::<int, ParseError>(
                parser.pos(),
            ),
        decreases len - i,
    {
        match Asset::parse(parser) {
            Ok(_) => {},
            Err(e) => {
                proof {
                    assert(scan_items::<Asset>(data, pos + 4, depth, (i + 1) as nat) == Err::<
                        int,
                        ParseError,
                    >(e));
                    lemma_scan_items_err::<Asset>(data, pos + 4, depth, (i + 1) as nat, len as nat);
                }
                return Err(e);
            },
        }
        i += 1;
    }
    Ok(())
}

/// Sends through a path so that the destination receives an exact amount.
#[derive(Debug, Clone, PartialEq, Eq)]
pub struct PathPaymentStrictReceiveOp<'a> {
    pub send_asset: Asset<'a>,
    pub send_max: i64,
    pub destination: MuxedAccount<'a>,
    pub dest_asset: Asset<'a>,
    pub dest_amount: i64,
}

impl<'a> XdrParse<'a> for PathPaymentStrictReceiveOp<'a> {
    open spec fn scan(data: Seq<u8>, pos: int, depth: int) -> Result<int, ParseError> {
        match Asset::scan(data, pos, depth) {
            Err(e) => Err(e),
            Ok(p1) => {
                match scan_fixed(data, p1, 8) {
                    Err(e) => Err(e),
                    Ok(p2) => {
                        match MuxedAccount::scan(data, p2, depth) {
                            Err(e) => Err(e),
                            Ok(p3) => {
                                match Asset::scan(data, p3, depth) {
                                    Err(e) => Err(e),
                                    Ok(p4) => {
                                        match scan_fixed(data, p4, 8) {
                                            Err(e) => Err(e),
                                            Ok(p5) => {
                                                scan_path(data, p5, depth)
                                            },
                                        }
                                    },
                                }
                            },
                        }
                    },
                }
            },
        }
    }

    open spec fn decoded_from(&self, data: Seq<u8>, pos: int, depth: int) -> bool {
        let p1 = Asset::scan(data, pos, depth).unwrap();
        let p3 = MuxedAccount::scan(data, p1 + 8, depth).unwrap();
        let p4 = Asset::scan(data, p3, depth).unwrap();
        &&& self.send_asset.decoded_from(data, pos, depth)
        &&& self.send_max == be_i64(data, p1)
        &&& self.destination.decoded_from(data, p1 + 8, depth)
        &&& self.dest_asset.decoded_from(data, p3, depth)
        &&& self.dest_amount == be_i64(data, p4)
    }

    fn parse(parser: &mut Parser<'a>) -> (r: Result<Self, ParseError>) {
        let send_asset = Asset::parse(parser)?;
        let send_max = parser.parse_int64()?;
        let destination = MuxedAccount::parse(parser)?;
        let dest_asset = Asset::parse(parser)?;
        let dest_amount = parser.parse_int64()?;
        skip_path(parser)?;
        Ok(PathPaymentStrictReceiveOp {
            send_asset,
            send_max,
            destination,
            dest_asset,
            dest_amount,
        })
    }

    proof fn lemma_prefix(data: Seq<u8>, pos: int, depth: int, k: int) {
        Asset::lemma_prefix(data, pos, depth, k);
        if Asset::scan(data, pos, depth) is Ok {
            let p1 = Asset::scan(data, pos, depth)->Ok_0;
            lemma_fixed_prefix(data, p1, k);
            if scan_fixed(data, p1, 8) is Ok {
                let p2 = scan_fixed(data, p1, 8)->Ok_0;
                MuxedAccount::lemma_prefix(data, p2, depth, k);
                if MuxedAccount::scan(data, p2, depth) is Ok {
                    let p3 = MuxedAccount::scan(data, p2, depth)->Ok_0;
                    Asset::lemma_prefix(data, p3, depth, k);
                    if Asset::scan(data, p3, depth) is Ok {
                        let p4 = Asset::scan(data, p3, depth)->Ok_0;
                        lemma_fixed_prefix(data, p4, k);
                        if scan_fixed(data, p4, 8) is Ok {
                            let p5 = scan_fixed(data, p4, 8)->Ok_0;
                            lemma_scan_path_prefix(data, p5, depth, k);
                        }
                    }
                }
            }
        }
    }
}

/// Sends an exact amount through a path.
#[derive(Debug, Clone, PartialEq, Eq)]
pub struct PathPaymentStrictSendOp<'a> {
    pub send_asset: Asset<'a>,
    pub send_amount: i64,
    pub destination: MuxedAccount<'a>,
    pub dest_asset: Asset<'a>,
    pub dest_min: i64,
}

impl<'a> XdrParse<'a> for PathPaymentStrictSendOp<'a> {
    open spec fn scan(data: Seq<u8>, pos: int, depth: int) -> Result<int, ParseError> {
        match Asset::scan(data, pos, depth) {
            Err(e) => Err(e),
            Ok(p1) => {
                match scan_fixed(data, p1, 8) {
                    Err(e) => Err(e),
                    Ok(p2) => {
                        match MuxedAccount::scan(data, p2, depth) {
                            Err(e) => Err(e),
                            Ok(p3) => {
                                match Asset::scan(data, p3, depth) {
                                    Err(e) => Err(e),
                                    Ok(p4) => {
                                        match scan_fixed(data, p4, 8) {
                                            Err(e) => Err(e),
                                            Ok(p5) => {
                                                scan_path(data, p5, depth)
                                            },
                                        }
                                    },
                                }
                            },
                        }
                    },
                }
            },
        }
    }

    open spec fn decoded_from(&self, data: Seq<u8>, pos: int, depth: int) -> bool {
        let p1 = Asset::scan(data, pos, depth).unwrap();
        let p3 = MuxedAccount::scan(data, p1 + 8, depth).unwrap();
        let p4 = Asset::scan(data, p3, depth).unwrap();
        &&& self.send_asset.decoded_from(data, pos, depth)
        &&& self.send_amount == be_i64(data, p1)
        &&& self.destination.decoded_from(data, p1 + 8, depth)
        &&& self.dest_asset.decoded_from(data, p3, depth)
        &&& self.dest_min == be_i64(data, p4)
    }

    fn parse(parser: &mut Parser<'a>) -> (r: Result<Self, ParseError>) {
        let send_asset = Asset::parse(parser)?;
        let send_amount = parser.parse_int64()?;
        let destination = MuxedAccount::parse(parser)?;
        let dest_asset = Asset::parse(parser)?;
        let dest_min = parser.parse_int64()?;
        skip_path(parser)?;
        Ok(PathPaymentStrictSendOp { send_asset, send_amount, destination, dest_asset, dest_min })
    }

    proof fn lemma_prefix(data: Seq<u8>, pos: int, depth: int, k: int) {
        Asset::lemma_prefix(data, pos, depth, k);
        if Asset::scan(data, pos, depth) is Ok {
            let p1 = Asset::scan(data, pos, depth)->Ok_0;
            lemma_fixed_prefix(data, p1, k);
            if scan_fixed(data, p1, 8) is Ok {
                let p2 = scan_fixed(data, p1, 8)->Ok_0;
                MuxedAccount::lemma_prefix(data, p2, depth, k);
                if MuxedAccount::scan(data, p2, depth) is Ok {
                    let p3 = MuxedAccount::scan(data, p2, depth)->Ok_0;
                    Asset::lemma_prefix(data, p3, depth, k);
                    if Asset::scan(data, p3, depth) is Ok {
                        let p4 = Asset::scan(data, p3, depth)->Ok_0;
                        lemma_fixed_prefix(data, p4, k);
                        if scan_fixed(data, p4, 8) is Ok {
                            let p5 = scan_fixed(data, p4, 8)->Ok_0;
                            lemma_scan_path_prefix(data, p5, depth, k);
                        }
                    }
                }
            }
        }
    }
}

/// Creates, changes or removes an offer to sell.
#[derive(Debug, Clone, PartialEq, Eq)]
pub struct ManageSellOfferOp<'a> {
    pub selling: Asset<'a>,
    pub buying: Asset<'a>,
    pub amount: i64,
    pub price: Price,
    pub offer_id: i64,
}

impl<'a> XdrParse<'a> for ManageSellOfferOp<'a> {
    open spec fn scan(data: Seq<u8>, pos: int, depth: int) -> Result<int, ParseError> {
        match Asset::scan(data, pos, depth) {
            Err(e) => Err(e),
            Ok(p1) => {
                match Asset::scan(data, p1, depth) {
                    Err(e) => Err(e),
                    Ok(p2) => {
                        match scan_fixed(data, p2, 8) {
                            Err(e) => Err(e),
                            Ok(p3) => {
                                match Price::scan(data, p3, depth) {
                                    Err(e) => Err(e),
                                    Ok(p4) => {
                                        scan_fixed(data, p4, 8)
                                    },
                                }
                            },
                        }
                    },
                }
            },
        }
    }

    open spec fn decoded_from(&self, data: Seq<u8>, pos: int, depth: int) -> bool {
        let p1 = Asset::scan(data, pos, depth).unwrap();
        let p2 = Asset::scan(data, p1, depth).unwrap();
        &&& self.selling.decoded_from(data, pos, depth)
        &&& self.buying.decoded_from(data, p1, depth)
        &&& self.amount == be_i64(data, p2)
        &&& self.price.decoded_from(data, p2 + 8, depth)
        &&& self.offer_id == be_i64(data, p2 + 16)
    }

    fn parse(parser: &mut Parser<'a>) -> (r: Result<Self, ParseError>) {
        let selling = Asset::parse(parser)?;
        let buying = Asset::parse(parser)?;
        let amount = parser.parse_int64()?;
        let price = Price::parse(parser)?;
        let offer_id = parser.parse_int64()?;
        Ok(ManageSellOfferOp { selling, buying, amount, price, offer_id })
    }

    proof fn lemma_prefix(data: Seq<u8>, pos: int, depth: int, k: int) {
        Asset::lemma_prefix(data, pos, depth, k);
        if Asset::scan(data, pos, depth) is Ok {
            let p1 = Asset::scan(data, pos, depth)->Ok_0;
            Asset::lemma_prefix(data, p1, depth, k);
            if Asset::scan(data, p1, depth) is Ok {
                let p2 = Asset::scan(data, p1, depth)->Ok_0;
                lemma_fixed_prefix(data, p2, k);
                if scan_fixed(data, p2, 8) is Ok {
                    let p3 = scan_fixed(data, p2, 8)->Ok_0;
                    Price::lemma_prefix(data, p3, depth, k);
                    if Price::scan(data, p3, depth) is Ok {
                        let p4 = Price::scan(data, p3, depth)->Ok_0;
                        lemma_fixed_prefix(data, p4, k);
                    }
                }
            }
        }
    }
}

/// Creates, changes or removes an offer to buy.
#[derive(Debug, Clone, PartialEq, Eq)]
pub struct ManageBuyOfferOp<'a> {
    pub selling: Asset<'a>,
    pub buying: Asset<'a>,
    pub buy_amount: i64,
    pub price: Price,
    pub offer_id: i64,
}

impl<'a> XdrParse<'a> for ManageBuyOfferOp<'a> {
    open spec fn scan(data: Seq<u8>, pos: int, depth: int) -> Result<int, ParseError> {
        match Asset::scan(data, pos, depth) {
            Err(e) => Err(e),
            Ok(p1) => {
                match Asset::scan(data, p1, depth) {
                    Err(e) => Err(e),
                    Ok(p2) => {
                        match scan_fixed(data, p2, 8) {
                            Err(e) => Err(e),
                            Ok(p3) => {
                                match Price::scan(data, p3, depth) {
                                    Err(e) => Err(e),
                                    Ok(p4) => {
                                        scan_fixed(data, p4, 8)
                                    },
                                }
                            },
                        }
                    },
                }
            },
        }
    }

    open spec fn decoded_from(&self, data: Seq<u8>, pos: int, depth: int) -> bool {
        let p1 = Asset::scan(data, pos, depth).unwrap();
        let p2 = Asset::scan(data, p1, depth).unwrap();
        &&& self.selling.decoded_from(data, pos, depth)
        &&& self.buying.decoded_from(data, p1, depth)
        &&& self.buy_amount == be_i64(data, p2)
        &&& self.price.decoded_from(data, p2 + 8, depth)
        &&& self.offer_id == be_i64(data, p2 + 16)
    }

    fn parse(parser: &mut Parser<'a>) -> (r: Result<Self, ParseError>) {
        let selling = Asset::parse(parser)?;
        let buying = Asset::parse(parser)?;
        let buy_amount = parser.parse_int64()?;
        let price = Price::parse(parser)?;
        let offer_id = parser.parse_int64()?;
        Ok(ManageBuyOfferOp { selling, buying, buy_amount, price, offer_id })
    }

    proof fn lemma_prefix(data: Seq<u8>, pos: int, depth: int, k: int) {
        Asset::lemma_prefix(data, pos, depth, k);
        if Asset::scan(data, pos, depth) is Ok {
            let p1 = Asset::scan(data, pos, depth)->Ok_0;
            Asset::lemma_prefix(data, p1, depth, k);
            if Asset::scan(data, p1, depth) is Ok {
                let p2 = Asset::scan(data, p1, depth)->Ok_0;
                lemma_fixed_prefix(data, p2, k);
                if scan_fixed(data, p2, 8) is Ok {
                    let p3 = scan_fixed(data, p2, 8)->Ok_0;
                    Price::lemma_prefix(data, p3, depth, k);
                    if Price::scan(data, p3, depth) is Ok {
                        let p4 = Price::scan(data, p3, depth)->Ok_0;
                        lemma_fixed_prefix(data, p4, k);
                    }
                }
            }
        }
    }
}

/// Creates an offer to sell that does not take a matching offer.
#[derive(Debug, Clone, PartialEq, Eq)]
pub struct CreatePassiveSellOfferOp<'a> {
    pub selling: Asset<'a>,
    pub buying: Asset<'a>,
    pub amount: i64,
    pub price: Price,
}

impl<'a> XdrParse<'a> for CreatePassiveSellOfferOp<'a> {
    open spec fn scan(data: Seq<u8>, pos: int, depth: int) -> Result<int, ParseError> {
        match Asset::scan(data, pos, depth) {
            Err(e) => Err(e),
            Ok(p1) => {
                match Asset::scan(data, p1, depth) {
                    Err(e) => Err(e),
                    Ok(p2) => {
                        match scan_fixed(data, p2, 8) {
                            Err(e) => Err(e),
                            Ok(p3) => {
                                Price::scan(data, p3, depth)
                            },
                        }
                    },
                }
            },
        }
    }

    open spec fn decoded_from(&self, data: Seq<u8>, pos: int, depth: int) -> bool {
        let p1 = Asset::scan(data, pos, depth).unwrap();
        let p2 = Asset::scan(data, p1, depth).unwrap();
        &&& self.selling.decoded_from(data, pos, depth)
        &&& self.buying.decoded_from(data, p1, depth)
        &&& self.amount == be_i64(data, p2)
        &&& self.price.decoded_from(data, p2 + 8, depth)
    }

    fn parse(parser: &mut Parser<'a>) -> (r: Result<Self, ParseError>) {
        let selling = Asset::parse(parser)?;
        let buying = Asset::parse(parser)?;
        let amount = parser.parse_int64()?;
        let price = Price::parse(parser)?;
        Ok(CreatePassiveSellOfferOp { selling, buying, amount, price })
    }

    proof fn lemma_prefix(data: Seq<u8>, pos: int, depth: int, k: int) {
        Asset::lemma_prefix(data, pos, depth, k);
        if Asset::scan(data, pos, depth) is Ok {
            let p1 = Asset::scan(data, pos, depth)->Ok_0;
            Asset::lemma_prefix(data, p1, depth, k);
            if Asset::scan(data, p1, depth) is Ok {
                let p2 = Asset::scan(data, p1, depth)->Ok_0;
                lemma_fixed_prefix(data, p2, k);
                if scan_fixed(data, p2, 8) is Ok {
                    let p3 = scan_fixed(data, p2, 8)->Ok_0;
                    Price::lemma_prefix(data, p3, depth, k);
                }
            }
        }
    }
}

/// A signer and its weight.
#[derive(Debug, Clone, PartialEq, Eq)]
pub struct Signer<'a> {
    pub key: SignerKey<'a>,
    pub weight: u32,
}

impl<'a> XdrParse<'a> for Signer<'a> {
    open spec fn scan(data: Seq<u8>, pos: int, depth: int) -> Result<int, ParseError> {
        match SignerKey::scan(data, pos, depth) {
            Err(e) => Err(e),
            Ok(p1) => {
                scan_fixed(data, p1, 4)
            },
        }
    }

    open spec fn decoded_from(&self, data: Seq<u8>, pos: int, depth: int) -> bool {
        let p1 = SignerKey::scan(data, pos, depth).unwrap();
        &&& self.key.decoded_from(data, pos, depth)
        &&& self.weight == be_u32(data, p1)
    }

    fn parse(parser: &mut Parser<'a>) -> (r: Result<Self, ParseError>) {
        let key = SignerKey::parse(parser)?;
        let weight = parser.parse_uint32()?;
        Ok(Signer { key, weight })
    }

    proof fn lemma_prefix(data: Seq<u8>, pos: int, depth: int, k: int) {
        SignerKey::lemma_prefix(data, pos, depth, k);
        if SignerKey::scan(data, pos, depth) is Ok {
            let p1 = SignerKey::scan(data, pos, depth)->Ok_0;
            lemma_fixed_prefix(data, p1, k);
        }
    }
}

/// Sets options of an account; an absent field is left as it is.
#[derive(Debug, Clone, PartialEq, Eq)]
pub struct SetOptionsOp<'a> {
    pub inflation_dest: Option<PublicKey<'a>>,
    pub clear_flags: Option<u32>,
    pub set_flags: Option<u32>,
    pub master_weight: Option<u32>,
    pub low_threshold: Option<u32>,
    pub med_threshold: Option<u32>,
    pub high_threshold: Option<u32>,
    pub home_domain: Option<StringM<'a, 32>>,
    pub signer: Option<Signer<'a>>,
}

impl<'a> XdrParse<'a> for SetOptionsOp<'a> {
    open spec fn scan(data: Seq<u8>, pos: int, depth: int) -> Result<int, ParseError> {
        match scan_optional::<PublicKey>(data, pos, depth) {
            Err(e) => Err(e),
            Ok(p1) => {
                match scan_optional_fixed(data, p1, 4) {
                    Err(e) => Err(e),
                    Ok(p2) => {
                        match scan_optional_fixed(data, p2, 4) {
                            Err(e) => Err(e),
                            Ok(p3) => {
                                match scan_optional_fixed(data, p3, 4) {
                                    Err(e) => Err(e),
                                    Ok(p4) => {
                                        match scan_optional_fixed(data, p4, 4) {
                                            Err(e) => Err(e),
                                            Ok(p5) => {
                                                match scan_optional_fixed(data, p5, 4) {
                                                    Err(e) => Err(e),
                                                    Ok(p6) => {
                                                        match scan_optional_fixed(data, p6, 4) {
                                                            Err(e) => Err(e),
                                                            Ok(p7) => {
                                                                match scan_optional::<StringM<32>>(data, p7, depth) {
                                                                    Err(e) => Err(e),
                                                                    Ok(p8) => {
                                                                        scan_optional::<Signer>(data, p8, depth)
                                                                    },
                                                                }
                                                            },
                                                        }
                                                    },
                                                }
                                            },
                                        }
                                    },
                                }
                            },
                        }
                    },
                }
            },
        }
    }

    open spec fn decoded_from(&self, data: Seq<u8>, pos: int, depth: int) -> bool {
        let p1 = scan_optional::<PublicKey>(data, pos, depth).unwrap();
        let p2 = scan_optional_fixed(data, p1, 4).unwrap();
        let p3 = scan_optional_fixed(data, p2, 4).unwrap();
        let p4 = scan_optional_fixed(data, p3, 4).unwrap();
        let p5 = scan_optional_fixed(data, p4, 4).unwrap();
        let p6 = scan_optional_fixed(data, p5, 4).unwrap();
        let p7 = scan_optional_fixed(data, p6, 4).unwrap();
        let p8 = scan_optional::<StringM<32>>(data, p7, depth).unwrap();
        &&& optional_decoded_from::<PublicKey>(self.inflation_dest, data, pos, depth)
        &&& self.clear_flags == optional_u32(data, p1)
        &&& self.set_flags == optional_u32(data, p2)
        &&& self.master_weight == optional_u32(data, p3)
        &&& self.low_threshold == optional_u32(data, p4)
        &&& self.med_threshold == optional_u32(data, p5)
        &&& self.high_threshold == optional_u32(data, p6)
        &&& optional_decoded_from::<StringM<32>>(self.home_domain, data, p7, depth)
        &&& optional_decoded_from::<Signer>(self.signer, data, p8, depth)
    }

    fn parse(parser: &mut Parser<'a>) -> (r: Result<Self, ParseError>) {
        let inflation_dest = parser.parse_optional::<PublicKey>()?;
        let clear_flags = parser.parse_optional_u32()?;
        let set_flags = parser.parse_optional_u32()?;
        let master_weight = parser.parse_optional_u32()?;
        let low_threshold = parser.parse_optional_u32()?;
        let med_threshold = parser.parse_optional_u32()?;
        let high_threshold = parser.parse_optional_u32()?;
        let home_domain = parser.parse_optional::<StringM<32>>()?;
        let signer = parser.parse_optional::<Signer>()?;
        Ok(SetOptionsOp {
            inflation_dest,
            clear_flags,
            set_flags,
            master_weight,
            low_threshold,
            med_threshold,
            high_threshold,
            home_domain,
            signer,
        })
    }

    proof fn lemma_prefix(data: Seq<u8>, pos: int, depth: int, k: int) {
        lemma_optional_prefix::<PublicKey>(data, pos, depth, k);
        if scan_optional::<PublicKey>(data, pos, depth) is Ok {
            let p1 = scan_optional::<PublicKey>(data, pos, depth)->Ok_0;
            lemma_optional_fixed_prefix(data, p1, 4, k);
            if scan_optional_fixed(data, p1, 4) is Ok {
                let p2 = scan_optional_fixed(data, p1, 4)->Ok_0;
                lemma_optional_fixed_prefix(data, p2, 4, k);
                if scan_optional_fixed(data, p2, 4) is Ok {
                    let p3 = scan_optional_fixed(data, p2, 4)->Ok_0;
                    lemma_optional_fixed_prefix(data, p3, 4, k);
                    if scan_optional_fixed(data, p3, 4) is Ok {
                        let p4 = scan_optional_fixed(data, p3, 4)->Ok_0;
                        lemma_optional_fixed_prefix(data, p4, 4, k);
                        if scan_optional_fixed(data, p4, 4) is Ok {
                            let p5 = scan_optional_fixed(data, p4, 4)->Ok_0;
                            lemma_optional_fixed_prefix(data, p5, 4, k);
                            if scan_optional_fixed(data, p5, 4) is Ok {
                                let p6 = scan_optional_fixed(data, p5, 4)->Ok_0;
                                lemma_optional_fixed_prefix(data, p6, 4, k);
                                if scan_optional_fixed(data, p6, 4) is Ok {
                                    let p7 = scan_optional_fixed(data, p6, 4)->Ok_0;
                                    lemma_optional_prefix::<StringM<32>>(data, p7, depth, k);
                                    if scan_optional::<StringM<32>>(data, p7, depth) is Ok {
                                        let p8 = scan_optional::<StringM<32>>(data, p7, depth)->Ok_0;
                                        lemma_optional_prefix::<Signer>(data, p8, depth, k);
                                    }
                                }
                            }
                        }
                    }
                }
            }
        }
    }
}

/// The two assets and the fee of a constant product pool.
#[derive(Debug, Clone, PartialEq, Eq)]
pub struct LiquidityPoolConstantProductParameters<'a> {
    pub asset_a: Asset<'a>,
    pub asset_b: Asset<'a>,
    pub fee: i32,
}

impl<'a> XdrParse<'a> for LiquidityPoolConstantProductParameters<'a> {
    open spec fn scan(data: Seq<u8>, pos: int, depth: int) -> Result<int, ParseError> {
        match Asset::scan(data, pos, depth) {
            Err(e) => Err(e),
            Ok(p1) => {
                match Asset::scan(data, p1, depth) {
                    Err(e) => Err(e),
                    Ok(p2) => {
                        scan_fixed(data, p2, 4)
                    },
                }
            },
        }
    }

    open spec fn decoded_from(&self, data: Seq<u8>, pos: int, depth: int) -> bool {
        let p1 = Asset::scan(data, pos, depth).unwrap();
        let p2 = Asset::scan(data, p1, depth).unwrap();
        &&& self.asset_a.decoded_from(data, pos, depth)
        &&& self.asset_b.decoded_from(data, p1, depth)
        &&& self.fee == be_i32(data, p2)
    }

    fn parse(parser: &mut Parser<'a>) -> (r: Result<Self, ParseError>) {
        let asset_a = Asset::parse(parser)?;
        let asset_b = Asset::parse(parser)?;
        let fee = parser.parse_int32()?;
        Ok(LiquidityPoolConstantProductParameters { asset_a, asset_b, fee })
    }

    proof fn lemma_prefix(data: Seq<u8>, pos: int, depth: int, k: int) {
        Asset::lemma_prefix(data, pos, depth, k);
        if Asset::scan(data, pos, depth) is Ok {
            let p1 = Asset::scan(data, pos, depth)->Ok_0;
            Asset::lemma_prefix(data, p1, depth, k);
            if Asset::scan(data, p1, depth) is Ok {
                let p2 = Asset::scan(data, p1, depth)->Ok_0;
                lemma_fixed_prefix(data, p2, k);
            }
        }
    }
}

/// The parameters of a liquidity pool.
#[derive(Debug, Clone, PartialEq, Eq)]
pub enum LiquidityPoolParameters<'a> {
    ConstantProduct(LiquidityPoolConstantProductParameters<'a>),
}

impl<'a> XdrParse<'a> for LiquidityPoolParameters<'a> {
    open spec fn scan(data: Seq<u8>, pos: int, depth: int) -> Result<int, ParseError> {
        match LiquidityPoolType::scan(data, pos, depth) {
            Err(e) => Err(e),
            Ok(p) => {
                if be_i32(data, pos) == 0 {
                    LiquidityPoolConstantProductParameters::scan(data, p, depth)
                } else {
                    Err(ParseError::InvalidType(be_i32(data, pos) as i32))
                }
            },
        }
    }

    open spec fn decoded_from(&self, data: Seq<u8>, pos: int, depth: int) -> bool {
        match self {
            LiquidityPoolParameters::ConstantProduct(v0) => {
                &&& be_i32(data, pos) == 0
                &&& v0.decoded_from(data, pos + 4, depth)
            },
        }
    }

    fn parse(parser: &mut Parser<'a>) -> (r: Result<Self, ParseError>) {
        let kind = LiquidityPoolType::parse(parser)?;
        match kind {
            LiquidityPoolType::ConstantProduct => {
                let v0 = LiquidityPoolConstantProductParameters::parse(parser)?;
                Ok(LiquidityPoolParameters::ConstantProduct(v0))
            },
        }
    }

    proof fn lemma_prefix(data: Seq<u8>, pos: int, depth: int, k: int) {
        LiquidityPoolType::lemma_prefix(data, pos, depth, k);
        lemma_fixed_prefix(data, pos, k);
        if LiquidityPoolType::scan(data, pos, depth) is Ok {
            let p = pos + 4;
            if be_i32(data, pos) == 0 {
                LiquidityPoolConstantProductParameters::lemma_prefix(data, p, depth, k);
            }
        }
    }
}

/// What a trust line can be opened for.
#[derive(Debug, Clone, PartialEq, Eq)]
pub enum ChangeTrustAsset<'a> {
    Native,
    CreditAlphanum4(AlphaNum4<'a>),
    CreditAlphanum12(AlphaNum12<'a>),
    PoolShare(LiquidityPoolParameters<'a>),
}

impl<'a> XdrParse<'a> for ChangeTrustAsset<'a> {
    open spec fn scan(data: Seq<u8>, pos: int, depth: int) -> Result<int, ParseError> {
        match AssetType::scan(data, pos, depth) {
            Err(e) => Err(e),
            Ok(p) => {
                if be_i32(data, pos) == 0 {
                    Ok(p)
                } else if be_i32(data, pos) == 1 {
                    AlphaNum4::scan(data, p, depth)
                } else if be_i32(data, pos) == 2 {
                    AlphaNum12::scan(data, p, depth)
                } else if be_i32(data, pos) == 3 {
                    LiquidityPoolParameters::scan(data, p, depth)
                } else {
                    Err(ParseError::InvalidType(be_i32(data, pos) as i32))
                }
            },
        }
    }

    open spec fn decoded_from(&self, data: Seq<u8>, pos: int, depth: int) -> bool {
        match self {
            ChangeTrustAsset::Native => be_i32(data, pos) == 0,
            ChangeTrustAsset::CreditAlphanum4(v0) => {
                &&& be_i32(data, pos) == 1
                &&& v0.decoded_from(data, pos + 4, depth)
            },
            ChangeTrustAsset::CreditAlphanum12(v0) => {
                &&& be_i32(data, pos) == 2
                &&& v0.decoded_from(data, pos + 4, depth)
            },
            ChangeTrustAsset::PoolShare(v0) => {
                &&& be_i32(data, pos) == 3
                &&& v0.decoded_from(data, pos + 4, depth)
            },
        }
    }

    fn parse(parser: &mut Parser<'a>) -> (r: Result<Self, ParseError>) {
        let kind = AssetType::parse(parser)?;
        match kind {
            AssetType::Native => {
                Ok(ChangeTrustAsset::Native)
            },
            AssetType::CreditAlphanum4 => {
                let v0 = AlphaNum4::parse(parser)?;
                Ok(ChangeTrustAsset::CreditAlphanum4(v0))
            },
            AssetType::CreditAlphanum12 => {
                let v0 = AlphaNum12::parse(parser)?;
                Ok(ChangeTrustAsset::CreditAlphanum12(v0))
            },
            AssetType::PoolShare => {
                let v0 = LiquidityPoolParameters::parse(parser)?;
                Ok(ChangeTrustAsset::PoolShare(v0))
            },
        }
    }

    proof fn lemma_prefix(data: Seq<u8>, pos: int, depth: int, k: int) {
        AssetType::lemma_prefix(data, pos, depth, k);
        lemma_fixed_prefix(data, pos, k);
        if AssetType::scan(data, pos, depth) is Ok {
            let p = pos + 4;
            if be_i32(data, pos) == 1 {
                AlphaNum4::lemma_prefix(data, p, depth, k);
            } else if be_i32(data, pos) == 2 {
                AlphaNum12::lemma_prefix(data, p, depth, k);
            } else if be_i32(data, pos) == 3 {
                LiquidityPoolParameters::lemma_prefix(data, p, depth, k);
            }
        }
    }
}

/// Opens, changes or removes a trust line.
#[derive(Debug, Clone, PartialEq, Eq)]
pub struct ChangeTrustOp<'a> {
    pub line: ChangeTrustAsset<'a>,
    pub limit: i64,
}

impl<'a> XdrParse<'a> for ChangeTrustOp<'a> {
    open spec fn scan(data: Seq<u8>, pos: int, depth: int) -> Result<int, ParseError> {
        match ChangeTrustAsset::scan(data, pos, depth) {
            Err(e) => Err(e),
            Ok(p1) => {
                scan_fixed(data, p1, 8)
            },
        }
    }

    open spec fn decoded_from(&self, data: Seq<u8>, pos: int, depth: int) -> bool {
        let p1 = ChangeTrustAsset::scan(data, pos, depth).unwrap();
        &&& self.line.decoded_from(data, pos, depth)
        &&& self.limit == be_i64(data, p1)
    }

    fn parse(parser: &mut Parser<'a>) -> (r: Result<Self, ParseError>) {
        let line = ChangeTrustAsset::parse(parser)?;
        let limit = parser.parse_int64()?;
        Ok(ChangeTrustOp { line, limit })
    }

    proof fn lemma_prefix(data: Seq<u8>, pos: int, depth: int, k: int) {
        ChangeTrustAsset::lemma_prefix(data, pos, depth, k);
        if ChangeTrustAsset::scan(data, pos, depth) is Ok {
            let p1 = ChangeTrustAsset::scan(data, pos, depth)->Ok_0;
            lemma_fixed_prefix(data, p1, k);
        }
    }
}

/// Sets the authorization of a trust line.
#[derive(Debug, Clone, PartialEq, Eq)]
pub struct AllowTrustOp<'a> {
    pub trustor: PublicKey<'a>,
    pub asset: AssetCode<'a>,
    pub authorize: u32,
}

impl<'a> XdrParse<'a> for AllowTrustOp<'a> {
    open spec fn scan(data: Seq<u8>, pos: int, depth: int) -> Result<int, ParseError> {
        match PublicKey::scan(data, pos, depth) {
            Err(e) => Err(e),
            Ok(p1) => {
                match AssetCode::scan(data, p1, depth) {
                    Err(e) => Err(e),
                    Ok(p2) => {
                        scan_fixed(data, p2, 4)
                    },
                }
            },
        }
    }

    open spec fn decoded_from(&self, data: Seq<u8>, pos: int, depth: int) -> bool {
        let p1 = PublicKey::scan(data, pos, depth).unwrap();
        let p2 = AssetCode::scan(data, p1, depth).unwrap();
        &&& self.trustor.decoded_from(data, pos, depth)
        &&& self.asset.decoded_from(data, p1, depth)
        &&& self.authorize == be_u32(data, p2)
    }

    fn parse(parser: &mut Parser<'a>) -> (r: Result<Self, ParseError>) {
        let trustor = PublicKey::parse(parser)?;
        let asset = AssetCode::parse(parser)?;
        let authorize = parser.parse_uint32()?;
        Ok(AllowTrustOp { trustor, asset, authorize })
    }

    proof fn lemma_prefix(data: Seq<u8>, pos: int, depth: int, k: int) {
        PublicKey::lemma_prefix(data, pos, depth, k);
        if PublicKey::scan(data, pos, depth) is Ok {
            let p1 = PublicKey::scan(data, pos, depth)->Ok_0;
            AssetCode::lemma_prefix(data, p1, depth, k);
            if AssetCode::scan(data, p1, depth) is Ok {
                let p2 = AssetCode::scan(data, p1, depth)->Ok_0;
                lemma_fixed_prefix(data, p2, k);
            }
        }
    }
}

/// Sets or removes a data entry.
#[derive(Debug, Clone, PartialEq, Eq)]
pub struct ManageDataOp<'a> {
    pub data_name: StringM<'a, 64>,
    pub data_value: Option<BytesM<'a, 64>>,
}

impl<'a> XdrParse<'a> for ManageDataOp<'a> {
    open spec fn scan(data: Seq<u8>, pos: int, depth: int) -> Result<int, ParseError> {
        match StringM::<64>::scan(data, pos, depth) {
            Err(e) => Err(e),
            Ok(p1) => {
                scan_optional::<BytesM<64>>(data, p1, depth)
            },
        }
    }

    open spec fn decoded_from(&self, data: Seq<u8>, pos: int, depth: int) -> bool {
        let p1 = StringM::<64>::scan(data, pos, depth).unwrap();
        &&& self.data_name.decoded_from(data, pos, depth)
        &&& optional_decoded_from::<BytesM<64>>(self.data_value, data, p1, depth)
    }

    fn parse(parser: &mut Parser<'a>) -> (r: Result<Self, ParseError>) {
        let data_name = StringM::<64>::parse(parser)?;
        let data_value = parser.parse_optional::<BytesM<64>>()?;
        Ok(ManageDataOp { data_name, data_value })
    }

    proof fn lemma_prefix(data: Seq<u8>, pos: int, depth: int, k: int) {
        StringM::<64>::lemma_prefix(data, pos, depth, k);
        if StringM::<64>::scan(data, pos, depth) is Ok {
            let p1 = StringM::<64>::scan(data, pos, depth)->Ok_0;
            lemma_optional_prefix::<BytesM<64>>(data, p1, depth, k);
        }
    }
}

/// Raises the sequence number of an account.
#[derive(Debug, Clone, PartialEq, Eq)]
pub struct BumpSequenceOp {
    pub bump_to: i64,
}

impl<'a> XdrParse<'a> for BumpSequenceOp {
    open spec fn scan(data: Seq<u8>, pos: int, depth: int) -> Result<int, ParseError> {
        scan_fixed(data, pos, 8)
    }

    open spec fn decoded_from(&self, data: Seq<u8>, pos: int, depth: int) -> bool {
        self.bump_to == be_i64(data, pos)
    }

    fn parse(parser: &mut Parser<'a>) -> (r: Result<Self, ParseError>) {
        let bump_to = parser.parse_int64()?;
        Ok(BumpSequenceOp { bump_to })
    }

    proof fn lemma_prefix(data: Seq<u8>, pos: int, depth: int, k: int) {
        lemma_fixed_prefix(data, pos, k);
    }
}

/// The condition under which a balance can be claimed. Every predicate is
/// decoded one level deeper than the place that holds it.
#[derive(Debug, PartialEq, Eq)]
pub enum ClaimPredicate {
    Unconditional,
    And(VecM<ClaimPredicate, 2>),
    Or(VecM<ClaimPredicate, 2>),
    Not(Box<ClaimPredicate>),
    BeforeAbsoluteTime(i64),
    BeforeRelativeTime(i64),
}

/// Where a claim predicate at `pos` ends. A negation must hold a predicate:
/// an absent one is an overflow.
pub open spec fn claim_predicate_scan(
    data: Seq<u8>,
    pos: int,
    depth: int,
) -> Result<int, ParseError>
    decreases fuel(depth), 1nat, 0nat,
{
    if depth >= MAX_PARSE_DEPTH {
        Err(ParseError::MaxDepthExceeded { depth: (depth + 1) as usize, max: MAX_PARSE_DEPTH })
    } else {
        match ClaimPredicateType::scan(data, pos, depth) {
            Err(e) => Err(e),
            Ok(p) => {
                if be_i32(data, pos) == 0 {
                    Ok(p)
                } else if be_i32(data, pos) == 1 || be_i32(data, pos) == 2 {
                    claim_predicate_list_scan(data, p, depth + 1)
                } else if be_i32(data, pos) == 3 {
                    match scan_bool(data, p) {
                        Err(e) => Err(e),
                        Ok(q) => if be_u32(data, p) == 1 {
                            claim_predicate_scan(data, q, depth + 1)
                        } else {
                            Err(ParseError::BufferOverflow)
                        },
                    }
                } else {
                    scan_fixed(data, p, 8)
                }
            },
        }
    }
}

/// A claim predicate that is cut off fails with a buffer overflow.
pub proof fn lemma_claim_predicate_scan_prefix(data: Seq<u8>, pos: int, depth: int, k: int)
    requires
        0 <= pos,
        0 <= k <= data.len(),
    ensures
        cut_short(
            claim_predicate_scan(data, pos, depth),
            claim_predicate_scan(data.subrange(0, k), pos, depth),
            pos,
            k,
            data.len() as int,
        ),
    decreases fuel(depth), 1nat, 0nat,
{
    if depth < MAX_PARSE_DEPTH {
        ClaimPredicateType::lemma_prefix(data, pos, depth, k);
        lemma_fixed_prefix(data, pos, k);
        if ClaimPredicateType::scan(data, pos, depth) is Ok {
            let p = pos + 4;
            if be_i32(data, pos) == 1 || be_i32(data, pos) == 2 {
                lemma_claim_predicate_list_scan_prefix(data, p, depth + 1, k);
            } else if be_i32(data, pos) == 3 {
                lemma_fixed_prefix(data, p, k);
                if scan_bool(data, p) is Ok && be_u32(data, p) == 1 {
                    lemma_claim_predicate_scan_prefix(data, p + 4, depth + 1, k);
                }
            } else {
                lemma_fixed_prefix(data, p, k);
            }
        }
    }
}

/// Whether `v` is the claim predicate that the bytes at `pos` encode.
pub open spec fn claim_predicate_decoded(
    v: ClaimPredicate,
    data: Seq<u8>,
    pos: int,
    depth: int,
) -> bool
    decreases fuel(depth), 1nat, 0nat,
{
    &&& depth < MAX_PARSE_DEPTH
    &&& match v {
        ClaimPredicate::Unconditional => be_i32(data, pos) == 0,
        ClaimPredicate::And(items) => {
            &&& be_i32(data, pos) == 1
            &&& claim_predicate_list_decoded(items@, data, pos + 4, depth + 1)
        },
        ClaimPredicate::Or(items) => {
            &&& be_i32(data, pos) == 2
            &&& claim_predicate_list_decoded(items@, data, pos + 4, depth + 1)
        },
        ClaimPredicate::Not(inner) => {
            &&& be_i32(data, pos) == 3
            &&& be_u32(data, pos + 4) == 1
            &&& claim_predicate_decoded(*inner, data, pos + 8, depth + 1)
        },
        ClaimPredicate::BeforeAbsoluteTime(t) => {
            &&& be_i32(data, pos) == 4
            &&& t == be_i64(data, pos + 4)
        },
        ClaimPredicate::BeforeRelativeTime(t) => {
            &&& be_i32(data, pos) == 5
            &&& t == be_i64(data, pos + 4)
        },
    }
}

/// Decodes a claim predicate inside a recursion guard.
pub fn parse_claim_predicate<'a>(parser: &mut Parser<'a>) -> (r: Result<ClaimPredicate, ParseError>)
    requires
        old(parser).wf(),
    ensures
        stepped(
            *old(parser),
            *final(parser),
            r,
            claim_predicate_scan(old(parser).bytes(), old(parser).pos(), old(parser).level()),
        ),
        r matches Ok(v) ==> claim_predicate_decoded(
            v,
            old(parser).bytes(),
            old(parser).pos(),
            old(parser).level(),
        ),
    decreases fuel(old(parser).level()), 1nat, 0nat,
{
    parser.enter_recursion()?;
    let result = parse_claim_predicate_body(parser);
    parser.exit_recursion();
    result
}

/// Decodes what stands inside a claim predicate's guard.
fn parse_claim_predicate_body<'a>(
    parser: &mut Parser<'a>,
) -> (r: Result<ClaimPredicate, ParseError>)
    requires
        old(parser).wf(),
        old(parser).level() >= 1,
    ensures
        stepped(
            *old(parser),
            *final(parser),
            r,
            claim_predicate_scan(old(parser).bytes(), old(parser).pos(), old(parser).level() - 1),
        ),
        r matches Ok(v) ==> claim_predicate_decoded(
            v,
            old(parser).bytes(),
            old(parser).pos(),
            old(parser).level() - 1,
        ),
    decreases fuel(old(parser).level() - 1), 0nat, 1nat,
{
    let kind = ClaimPredicateType::parse(parser)?;
    match kind {
        ClaimPredicateType::Unconditional => Ok(ClaimPredicate::Unconditional),
        ClaimPredicateType::And => {
            let predicates = parse_claim_predicate_list(parser)?;
            Ok(ClaimPredicate::And(predicates))
        },
        ClaimPredicateType::Or => {
            let predicates = parse_claim_predicate_list(parser)?;
            Ok(ClaimPredicate::Or(predicates))
        },
        ClaimPredicateType::Not => {
            if parser.parse_bool()? {
                let predicate = parse_claim_predicate(parser)?;
                Ok(ClaimPredicate::Not(Box::new(predicate)))
            } else {
                Err(ParseError::BufferOverflow)
            }
        },
        ClaimPredicateType::BeforeAbsoluteTime => {
            let abs_before = parser.parse_int64()?;
            Ok(ClaimPredicate::BeforeAbsoluteTime(abs_before))
        },
        ClaimPredicateType::BeforeRelativeTime => {
            let rel_before = parser.parse_int64()?;
            Ok(ClaimPredicate::BeforeRelativeTime(rel_before))
        },
    }
}

impl<'a> XdrParse<'a> for ClaimPredicate {
    open spec fn scan(data: Seq<u8>, pos: int, depth: int) -> Result<int, ParseError> {
        claim_predicate_scan(data, pos, depth)
    }

    open spec fn decoded_from(&self, data: Seq<u8>, pos: int, depth: int) -> bool {
        claim_predicate_decoded(*self, data, pos, depth)
    }

    fn parse(parser: &mut Parser<'a>) -> (r: Result<Self, ParseError>) {
        parse_claim_predicate(parser)
    }

    proof fn lemma_prefix(data: Seq<u8>, pos: int, depth: int, k: int) {
        lemma_claim_predicate_scan_prefix(data, pos, depth, k);
    }
}

/// Where the first `n` claim predicates end that are encoded back to back from `start`.
pub open spec fn claim_predicate_items_scan(
    data: Seq<u8>,
    start: int,
    depth: int,
    n: nat,
) -> Result<int, ParseError>
    decreases fuel(depth), 2nat, n,
{
    if n == 0 {
        Ok(start)
    } else {
        match claim_predicate_items_scan(data, start, depth, (n - 1) as nat) {
            Ok(p) => claim_predicate_scan(data, p, depth),
            Err(e) => Err(e),
        }
    }
}

/// One of the claim predicates that fails to decode fails the whole run, with its error.
pub proof fn lemma_claim_predicate_items_err(data: Seq<u8>, start: int, depth: int, i: nat, n: nat)
    requires
        i <= n,
        claim_predicate_items_scan(data, start, depth, i) is Err,
    ensures
        claim_predicate_items_scan(data, start, depth, n) == claim_predicate_items_scan(
            data,
            start,
            depth,
            i,
        ),
    decreases n,
{
    if i < n {
        lemma_claim_predicate_items_err(data, start, depth, i, (n - 1) as nat);
    }
}

/// A run of claim predicates that is cut off fails with a buffer overflow.
pub proof fn lemma_claim_predicate_items_scan_prefix(
    data: Seq<u8>,
    start: int,
    depth: int,
    n: nat,
    k: int,
)
    requires
        0 <= start <= data.len(),
        0 <= k <= data.len(),
    ensures
        cut_short(
            claim_predicate_items_scan(data, start, depth, n),
            claim_predicate_items_scan(data.subrange(0, k), start, depth, n),
            start,
            k,
            data.len() as int,
        ),
    decreases fuel(depth), 2nat, n,
{
    if n > 0 {
        lemma_claim_predicate_items_scan_prefix(data, start, depth, (n - 1) as nat, k);
        let before = claim_predicate_items_scan(data, start, depth, (n - 1) as nat);
        if before is Ok {
            lemma_claim_predicate_scan_prefix(data, before->Ok_0, depth, k);
        }
    }
}

/// Where a list of claim predicates at `pos` ends: a count, then one level deeper
/// that many items.
pub open spec fn claim_predicate_list_scan(
    data: Seq<u8>,
    pos: int,
    depth: int,
) -> Result<int, ParseError>
    decreases fuel(depth), 0nat, 0nat,
{
    if pos + 4 > data.len() {
        Err(ParseError::BufferOverflow)
    } else if be_u32(data, pos) > 2 {
        Err(ParseError::LengthExceedsMax { actual: be_u32(data, pos) as usize, max: 2 })
    } else if depth >= MAX_PARSE_DEPTH {
        Err(ParseError::MaxDepthExceeded { depth: (depth + 1) as usize, max: MAX_PARSE_DEPTH })
    } else {
        claim_predicate_items_scan(data, pos + 4, depth + 1, be_u32(data, pos) as nat)
    }
}

/// A list of claim predicates that is cut off fails with a buffer overflow.
pub proof fn lemma_claim_predicate_list_scan_prefix(data: Seq<u8>, pos: int, depth: int, k: int)
    requires
        0 <= pos,
        0 <= k <= data.len(),
    ensures
        cut_short(
            claim_predicate_list_scan(data, pos, depth),
            claim_predicate_list_scan(data.subrange(0, k), pos, depth),
            pos,
            k,
            data.len() as int,
        ),
    decreases fuel(depth), 0nat, 0nat,
{
    lemma_fixed_prefix(data, pos, k);
    if pos + 4 <= data.len() && depth < MAX_PARSE_DEPTH {
        lemma_claim_predicate_items_scan_prefix(data, pos + 4, depth + 1, be_u32(data, pos) as nat, k);
    }
}

/// Whether `items` are the claim predicates of the list at `pos`, each taken from
/// the place where the one before it ends.
pub open spec fn claim_predicate_list_decoded(
    items: Seq<ClaimPredicate>,
    data: Seq<u8>,
    pos: int,
    depth: int,
) -> bool
    decreases fuel(depth), 0nat, 0nat,
{
    &&& depth < MAX_PARSE_DEPTH
    &&& items.len() == be_u32(data, pos)
    &&& forall|i: int|
        0 <= i < items.len() ==> claim_predicate_decoded(
            #[trigger] items[i],
            data,
            claim_predicate_items_scan(data, pos + 4, depth + 1, i as nat).unwrap(),
            depth + 1,
        )
}

/// Decodes a list of claim predicates.
#[verifier::loop_isolation(false)]
pub fn parse_claim_predicate_list<'a>(
    parser: &mut Parser<'a>,
) -> (r: Result<VecM<ClaimPredicate, 2>, ParseError>)
    requires
        old(parser).wf(),
    ensures
        stepped(
            *old(parser),
            *final(parser),
            r,
            claim_predicate_list_scan(old(parser).bytes(), old(parser).pos(), old(parser).level()),
        ),
        r matches Ok(v) ==> claim_predicate_list_decoded(
            v@,
            old(parser).bytes(),
            old(parser).pos(),
            old(parser).level(),
        ),
    decreases fuel(old(parser).level()), 0nat, 0nat,
{
    let ghost data = parser.bytes();
    let ghost pos = parser.pos();
    let ghost depth = parser.level();
    let len = parser.parse_uint32()?;
    if len > 2 {
        return Err(ParseError::LengthExceedsMax { actual: len as usize, max: 2 });
    }
    parser.enter_recursion()?;
    let mut items: Vec<ClaimPredicate> = Vec::with_capacity(len as usize);
    let mut i: u32 = 0;
    while i < len
        invariant
            parser.wf(),
            parser.bytes() == data,
            parser.level() == depth + 1,
            0 <= i <= len,
            items@.len() == i,
            claim_predicate_items_scan(data, pos + 4, depth + 1, i as nat) == Ok::<int, ParseError>(
                parser.pos(),
            ),
            forall|j: int|
                0 <= j < i ==> claim_predicate_decoded(
                    #[trigger] items@[j],
                    data,
                    claim_predicate_items_scan(data, pos + 4, depth + 1, j as nat).unwrap(),
                    depth + 1,
                ),
        decreases len - i,
    {
        match parse_claim_predicate(parser) {
            Ok(item) => {
                items.push(item);
            },
            Err(e) => {
                proof {
                    assert(claim_predicate_items_scan(data, pos + 4, depth + 1, (i + 1) as nat) == Err::<
                        int,
                        ParseError,
                    >(e));
                    lemma_claim_predicate_items_err(data, pos + 4, depth + 1, (i + 1) as nat, len as nat);
                }
                parser.exit_recursion();
                return Err(e);
            },
        }
        i += 1;
    }
    parser.exit_recursion();
    Ok(VecM::new(items))
}

/// Who may claim a balance, and when.
#[derive(Debug, PartialEq, Eq)]
pub struct ClaimantV0<'a> {
    pub destination: PublicKey<'a>,
    pub predicate: ClaimPredicate,
}

impl<'a> XdrParse<'a> for ClaimantV0<'a> {
    open spec fn scan(data: Seq<u8>, pos: int, depth: int) -> Result<int, ParseError> {
        match PublicKey::scan(data, pos, depth) {
            Err(e) => Err(e),
            Ok(p1) => {
                ClaimPredicate::scan(data, p1, depth)
            },
        }
    }

    open spec fn decoded_from(&self, data: Seq<u8>, pos: int, depth: int) -> bool {
        let p1 = PublicKey::scan(data, pos, depth).unwrap();
        &&& self.destination.decoded_from(data, pos, depth)
        &&& self.predicate.decoded_from(data, p1, depth)
    }

    fn parse(parser: &mut Parser<'a>) -> (r: Result<Self, ParseError>) {
        let destination = PublicKey::parse(parser)?;
        let predicate = ClaimPredicate::parse(parser)?;
        Ok(ClaimantV0 { destination, predicate })
    }

    proof fn lemma_prefix(data: Seq<u8>, pos: int, depth: int, k: int) {
        PublicKey::lemma_prefix(data, pos, depth, k);
        if PublicKey::scan(data, pos, depth) is Ok {
            let p1 = PublicKey::scan(data, pos, depth)->Ok_0;
            ClaimPredicate::lemma_prefix(data, p1, depth, k);
        }
    }
}

/// A claimant of a claimable balance.
#[derive(Debug, PartialEq, Eq)]
pub enum Claimant<'a> {
    V0(ClaimantV0<'a>),
}

impl<'a> XdrParse<'a> for Claimant<'a> {
    open spec fn scan(data: Seq<u8>, pos: int, depth: int) -> Result<int, ParseError> {
        match ClaimantType::scan(data, pos, depth) {
            Err(e) => Err(e),
            Ok(p) => {
                if be_i32(data, pos) == 0 {
                    ClaimantV0::scan(data, p, depth)
                } else {
                    Err(ParseError::InvalidType(be_i32(data, pos) as i32))
                }
            },
        }
    }

    open spec fn decoded_from(&self, data: Seq<u8>, pos: int, depth: int) -> bool {
        match self {
            Claimant::V0(v0) => {
                &&& be_i32(data, pos) == 0
                &&& v0.decoded_from(data, pos + 4, depth)
            },
        }
    }

    fn parse(parser: &mut Parser<'a>) -> (r: Result<Self, ParseError>) {
        let kind = ClaimantType::parse(parser)?;
        match kind {
            ClaimantType::V0 => {
                let v0 = ClaimantV0::parse(parser)?;
                Ok(Claimant::V0(v0))
            },
        }
    }

    proof fn lemma_prefix(data: Seq<u8>, pos: int, depth: int, k: int) {
        ClaimantType::lemma_prefix(data, pos, depth, k);
        lemma_fixed_prefix(data, pos, k);
        if ClaimantType::scan(data, pos, depth) is Ok {
            let p = pos + 4;
            if be_i32(data, pos) == 0 {
                ClaimantV0::lemma_prefix(data, p, depth, k);
            }
        }
    }
}

/// Sets an amount aside for its claimants.
#[derive(Debug, PartialEq, Eq)]
pub struct CreateClaimableBalanceOp<'a> {
    pub asset: Asset<'a>,
    pub amount: i64,
    pub claimants: VecM<Claimant<'a>, 10>,
}

impl<'a> XdrParse<'a> for CreateClaimableBalanceOp<'a> {
    open spec fn scan(data: Seq<u8>, pos: int, depth: int) -> Result<int, ParseError> {
        match Asset::scan(data, pos, depth) {
            Err(e) => Err(e),
            Ok(p1) => {
                match scan_fixed(data, p1, 8) {
                    Err(e) => Err(e),
                    Ok(p2) => {
                        VecM::<Claimant, 10>::scan(data, p2, depth)
                    },
                }
            },
        }
    }

    open spec fn decoded_from(&self, data: Seq<u8>, pos: int, depth: int) -> bool {
        let p1 = Asset::scan(data, pos, depth).unwrap();
        &&& self.asset.decoded_from(data, pos, depth)
        &&& self.amount == be_i64(data, p1)
        &&& self.claimants.decoded_from(data, p1 + 8, depth)
    }

    fn parse(parser: &mut Parser<'a>) -> (r: Result<Self, ParseError>) {
        let asset = Asset::parse(parser)?;
        let amount = parser.parse_int64()?;
        let claimants = VecM::<Claimant, 10>::parse(parser)?;
        Ok(CreateClaimableBalanceOp { asset, amount, claimants })
    }

    proof fn lemma_prefix(data: Seq<u8>, pos: int, depth: int, k: int) {
        Asset::lemma_prefix(data, pos, depth, k);
        if Asset::scan(data, pos, depth) is Ok {
            let p1 = Asset::scan(data, pos, depth)->Ok_0;
            lemma_fixed_prefix(data, p1, k);
            if scan_fixed(data, p1, 8) is Ok {
                let p2 = scan_fixed(data, p1, 8)->Ok_0;
                VecM::<Claimant, 10>::lemma_prefix(data, p2, depth, k);
            }
        }
    }
}

/// Claims a claimable balance.
#[derive(Debug, Clone, PartialEq, Eq)]
pub struct ClaimClaimableBalanceOp<'a> {
    pub balance_id: ClaimableBalanceId<'a>,
}

impl<'a> XdrParse<'a> for ClaimClaimableBalanceOp<'a> {
    open spec fn scan(data: Seq<u8>, pos: int, depth: int) -> Result<int, ParseError> {
        ClaimableBalanceId::scan(data, pos, depth)
    }

    open spec fn decoded_from(&self, data: Seq<u8>, pos: int, depth: int) -> bool {
        self.balance_id.decoded_from(data, pos, depth)
    }

    fn parse(parser: &mut Parser<'a>) -> (r: Result<Self, ParseError>) {
        let balance_id = ClaimableBalanceId::parse(parser)?;
        Ok(ClaimClaimableBalanceOp { balance_id })
    }

    proof fn lemma_prefix(data: Seq<u8>, pos: int, depth: int, k: int) {
        ClaimableBalanceId::lemma_prefix(data, pos, depth, k);
    }
}

/// Starts to sponsor the reserves of another account.
#[derive(Debug, Clone, PartialEq, Eq)]
pub struct BeginSponsoringFutureReservesOp<'a> {
    pub sponsored_id: PublicKey<'a>,
}

impl<'a> XdrParse<'a> for BeginSponsoringFutureReservesOp<'a> {
    open spec fn scan(data: Seq<u8>, pos: int, depth: int) -> Result<int, ParseError> {
        PublicKey::scan(data, pos, depth)
    }

    open spec fn decoded_from(&self, data: Seq<u8>, pos: int, depth: int) -> bool {
        self.sponsored_id.decoded_from(data, pos, depth)
    }

    fn parse(parser: &mut Parser<'a>) -> (r: Result<Self, ParseError>) {
        let sponsored_id = PublicKey::parse(parser)?;
        Ok(BeginSponsoringFutureReservesOp { sponsored_id })
    }

    proof fn lemma_prefix(data: Seq<u8>, pos: int, depth: int, k: int) {
        PublicKey::lemma_prefix(data, pos, depth, k);
    }
}

/// Takes an amount of an asset back from an account.
#[derive(Debug, Clone, PartialEq, Eq)]
pub struct ClawbackOp<'a> {
    pub asset: Asset<'a>,
    pub from: MuxedAccount<'a>,
    pub amount: i64,
}

impl<'a> XdrParse<'a> for ClawbackOp<'a> {
    open spec fn scan(data: Seq<u8>, pos: int, depth: int) -> Result<int, ParseError> {
        match Asset::scan(data, pos, depth) {
            Err(e) => Err(e),
            Ok(p1) => {
                match MuxedAccount::scan(data, p1, depth) {
                    Err(e) => Err(e),
                    Ok(p2) => {
                        scan_fixed(data, p2, 8)
                    },
                }
            },
        }
    }

    open spec fn decoded_from(&self, data: Seq<u8>, pos: int, depth: int) -> bool {
        let p1 = Asset::scan(data, pos, depth).unwrap();
        let p2 = MuxedAccount::scan(data, p1, depth).unwrap();
        &&& self.asset.decoded_from(data, pos, depth)
        &&& self.from.decoded_from(data, p1, depth)
        &&& self.amount == be_i64(data, p2)
    }

    fn parse(parser: &mut Parser<'a>) -> (r: Result<Self, ParseError>) {
        let asset = Asset::parse(parser)?;
        let from = MuxedAccount::parse(parser)?;
        let amount = parser.parse_int64()?;
        Ok(ClawbackOp { asset, from, amount })
    }

    proof fn lemma_prefix(data: Seq<u8>, pos: int, depth: int, k: int) {
        Asset::lemma_prefix(data, pos, depth, k);
        if Asset::scan(data, pos, depth) is Ok {
            let p1 = Asset::scan(data, pos, depth)->Ok_0;
            MuxedAccount::lemma_prefix(data, p1, depth, k);
            if MuxedAccount::scan(data, p1, depth) is Ok {
                let p2 = MuxedAccount::scan(data, p1, depth)->Ok_0;
                lemma_fixed_prefix(data, p2, k);
            }
        }
    }
}

/// Takes a claimable balance back.
#[derive(Debug, Clone, PartialEq, Eq)]
pub struct ClawbackClaimableBalanceOp<'a> {
    pub balance_id: ClaimableBalanceId<'a>,
}

impl<'a> XdrParse<'a> for ClawbackClaimableBalanceOp<'a> {
    open spec fn scan(data: Seq<u8>, pos: int, depth: int) -> Result<int, ParseError> {
        ClaimableBalanceId::scan(data, pos, depth)
    }

    open spec fn decoded_from(&self, data: Seq<u8>, pos: int, depth: int) -> bool {
        self.balance_id.decoded_from(data, pos, depth)
    }

    fn parse(parser: &mut Parser<'a>) -> (r: Result<Self, ParseError>) {
        let balance_id = ClaimableBalanceId::parse(parser)?;
        Ok(ClawbackClaimableBalanceOp { balance_id })
    }

    proof fn lemma_prefix(data: Seq<u8>, pos: int, depth: int, k: int) {
        ClaimableBalanceId::lemma_prefix(data, pos, depth, k);
    }
}

/// Clears and sets flags of a trust line.
#[derive(Debug, Clone, PartialEq, Eq)]
pub struct SetTrustLineFlagsOp<'a> {
    pub trustor: PublicKey<'a>,
    pub asset: Asset<'a>,
    pub clear_flags: u32,
    pub set_flags: u32,
}

impl<'a> XdrParse<'a> for SetTrustLineFlagsOp<'a> {
    open spec fn scan(data: Seq<u8>, pos: int, depth: int) -> Result<int, ParseError> {
        match PublicKey::scan(data, pos, depth) {
            Err(e) => Err(e),
            Ok(p1) => {
                match Asset::scan(data, p1, depth) {
                    Err(e) => Err(e),
                    Ok(p2) => {
                        match scan_fixed(data, p2, 4) {
                            Err(e) => Err(e),
                            Ok(p3) => {
                                scan_fixed(data, p3, 4)
                            },
                        }
                    },
                }
            },
        }
    }

    open spec fn decoded_from(&self, data: Seq<u8>, pos: int, depth: int) -> bool {
        let p1 = PublicKey::scan(data, pos, depth).unwrap();
        let p2 = Asset::scan(data, p1, depth).unwrap();
        &&& self.trustor.decoded_from(data, pos, depth)
        &&& self.asset.decoded_from(data, p1, depth)
        &&& self.clear_flags == be_u32(data, p2)
        &&& self.set_flags == be_u32(data, p2 + 4)
    }

    fn parse(parser: &mut Parser<'a>) -> (r: Result<Self, ParseError>) {
        let trustor = PublicKey::parse(parser)?;
        let asset = Asset::parse(parser)?;
        let clear_flags = parser.parse_uint32()?;
        let set_flags = parser.parse_uint32()?;
        Ok(SetTrustLineFlagsOp { trustor, asset, clear_flags, set_flags })
    }

    proof fn lemma_prefix(data: Seq<u8>, pos: int, depth: int, k: int) {
        PublicKey::lemma_prefix(data, pos, depth, k);
        if PublicKey::scan(data, pos, depth) is Ok {
            let p1 = PublicKey::scan(data, pos, depth)->Ok_0;
            Asset::lemma_prefix(data, p1, depth, k);
            if Asset::scan(data, p1, depth) is Ok {
                let p2 = Asset::scan(data, p1, depth)->Ok_0;
                lemma_fixed_prefix(data, p2, k);
                if scan_fixed(data, p2, 4) is Ok {
                    let p3 = scan_fixed(data, p2, 4)->Ok_0;
                    lemma_fixed_prefix(data, p3, k);
                }
            }
        }
    }
}

/// Deposits into a liquidity pool.
#[derive(Debug, Clone, PartialEq, Eq)]
pub struct LiquidityPoolDepositOp<'a> {
    pub liquidity_pool_id: Uint256<'a>,
    pub max_amount_a: i64,
    pub max_amount_b: i64,
    pub min_price: Price,
    pub max_price: Price,
}

impl<'a> XdrParse<'a> for LiquidityPoolDepositOp<'a> {
    open spec fn scan(data: Seq<u8>, pos: int, depth: int) -> Result<int, ParseError> {
        match Uint256::scan(data, pos, depth) {
            Err(e) => Err(e),
            Ok(p1) => {
                match scan_fixed(data, p1, 8) {
                    Err(e) => Err(e),
                    Ok(p2) => {
                        match scan_fixed(data, p2, 8) {
                            Err(e) => Err(e),
                            Ok(p3) => {
                                match Price::scan(data, p3, depth) {
                                    Err(e) => Err(e),
                                    Ok(p4) => {
                                        Price::scan(data, p4, depth)
                                    },
                                }
                            },
                        }
                    },
                }
            },
        }
    }

    open spec fn decoded_from(&self, data: Seq<u8>, pos: int, depth: int) -> bool {
        &&& self.liquidity_pool_id.decoded_from(data, pos, depth)
        &&& self.max_amount_a == be_i64(data, pos + 32)
        &&& self.max_amount_b == be_i64(data, pos + 40)
        &&& self.min_price.decoded_from(data, pos + 48, depth)
        &&& self.max_price.decoded_from(data, pos + 56, depth)
    }

    fn parse(parser: &mut Parser<'a>) -> (r: Result<Self, ParseError>) {
        let liquidity_pool_id = Uint256::parse(parser)?;
        let max_amount_a = parser.parse_int64()?;
        let max_amount_b = parser.parse_int64()?;
        let min_price = Price::parse(parser)?;
        let max_price = Price::parse(parser)?;
        Ok(LiquidityPoolDepositOp {
            liquidity_pool_id,
            max_amount_a,
            max_amount_b,
            min_price,
            max_price,
        })
    }

    proof fn lemma_prefix(data: Seq<u8>, pos: int, depth: int, k: int) {
        Uint256::lemma_prefix(data, pos, depth, k);
        if Uint256::scan(data, pos, depth) is Ok {
            let p1 = Uint256::scan(data, pos, depth)->Ok_0;
            lemma_fixed_prefix(data, p1, k);
            if scan_fixed(data, p1, 8) is Ok {
                let p2 = scan_fixed(data, p1, 8)->Ok_0;
                lemma_fixed_prefix(data, p2, k);
                if scan_fixed(data, p2, 8) is Ok {
                    let p3 = scan_fixed(data, p2, 8)->Ok_0;
                    Price::lemma_prefix(data, p3, depth, k);
                    if Price::scan(data, p3, depth) is Ok {
                        let p4 = Price::scan(data, p3, depth)->Ok_0;
                        Price::lemma_prefix(data, p4, depth, k);
                    }
                }
            }
        }
    }
}

/// Withdraws from a liquidity pool.
#[derive(Debug, Clone, PartialEq, Eq)]
pub struct LiquidityPoolWithdrawOp<'a> {
    pub liquidity_pool_id: Uint256<'a>,
    pub amount: i64,
    pub min_amount_a: i64,
    pub min_amount_b: i64,
}

impl<'a> XdrParse<'a> for LiquidityPoolWithdrawOp<'a> {
    open spec fn scan(data: Seq<u8>, pos: int, depth: int) -> Result<int, ParseError> {
        match Uint256::scan(data, pos, depth) {
            Err(e) => Err(e),
            Ok(p1) => {
                match scan_fixed(data, p1, 8) {
                    Err(e) => Err(e),
                    Ok(p2) => {
                        match scan_fixed(data, p2, 8) {
                            Err(e) => Err(e),
                            Ok(p3) => {
                                scan_fixed(data, p3, 8)
                            },
                        }
                    },
                }
            },
        }
    }

    open spec fn decoded_from(&self, data: Seq<u8>, pos: int, depth: int) -> bool {
        &&& self.liquidity_pool_id.decoded_from(data, pos, depth)
        &&& self.amount == be_i64(data, pos + 32)
        &&& self.min_amount_a == be_i64(data, pos + 40)
        &&& self.min_amount_b == be_i64(data, pos + 48)
    }

    fn parse(parser: &mut Parser<'a>) -> (r: Result<Self, ParseError>) {
        let liquidity_pool_id = Uint256::parse(parser)?;
        let amount = parser.parse_int64()?;
        let min_amount_a = parser.parse_int64()?;
        let min_amount_b = parser.parse_int64()?;
        Ok(LiquidityPoolWithdrawOp { liquidity_pool_id, amount, min_amount_a, min_amount_b })
    }

    proof fn lemma_prefix(data: Seq<u8>, pos: int, depth: int, k: int) {
        Uint256::lemma_prefix(data, pos, depth, k);
        if Uint256::scan(data, pos, depth) is Ok {
            let p1 = Uint256::scan(data, pos, depth)->Ok_0;
            lemma_fixed_prefix(data, p1, k);
            if scan_fixed(data, p1, 8) is Ok {
                let p2 = scan_fixed(data, p1, 8)->Ok_0;
                lemma_fixed_prefix(data, p2, k);
                if scan_fixed(data, p2, 8) is Ok {
                    let p3 = scan_fixed(data, p2, 8)->Ok_0;
                    lemma_fixed_prefix(data, p3, k);
                }
            }
        }
    }
}

/// Extends the lifetime of the entries in the footprint.
#[derive(Debug, Clone, PartialEq, Eq)]
pub struct ExtendFootprintTTLOp {
    pub ext: ExtensionPoint,
    pub extend_to: u32,
}

impl<'a> XdrParse<'a> for ExtendFootprintTTLOp {
    open spec fn scan(data: Seq<u8>, pos: int, depth: int) -> Result<int, ParseError> {
        match ExtensionPoint::scan(data, pos, depth) {
            Err(e) => Err(e),
            Ok(p1) => {
                scan_fixed(data, p1, 4)
            },
        }
    }

    open spec fn decoded_from(&self, data: Seq<u8>, pos: int, depth: int) -> bool {
        let p1 = ExtensionPoint::scan(data, pos, depth).unwrap();
        &&& self.ext.decoded_from(data, pos, depth)
        &&& self.extend_to == be_u32(data, p1)
    }

    fn parse(parser: &mut Parser<'a>) -> (r: Result<Self, ParseError>) {
        let ext = ExtensionPoint::parse(parser)?;
        let extend_to = parser.parse_uint32()?;
        Ok(ExtendFootprintTTLOp { ext, extend_to })
    }

    proof fn lemma_prefix(data: Seq<u8>, pos: int, depth: int, k: int) {
        ExtensionPoint::lemma_prefix(data, pos, depth, k);
        if ExtensionPoint::scan(data, pos, depth) is Ok {
            let p1 = ExtensionPoint::scan(data, pos, depth)->Ok_0;
            lemma_fixed_prefix(data, p1, k);
        }
    }
}

/// Restores the archived entries in the footprint.
#[derive(Debug, Clone, PartialEq, Eq)]
pub struct RestoreFootprintOp {
    pub ext: ExtensionPoint,
}

impl<'a> XdrParse<'a> for RestoreFootprintOp {
    open spec fn scan(data: Seq<u8>, pos: int, depth: int) -> Result<int, ParseError> {
        ExtensionPoint::scan(data, pos, depth)
    }

    open spec fn decoded_from(&self, data: Seq<u8>, pos: int, depth: int) -> bool {
        self.ext.decoded_from(data, pos, depth)
    }

    fn parse(parser: &mut Parser<'a>) -> (r: Result<Self, ParseError>) {
        let ext = ExtensionPoint::parse(parser)?;
        Ok(RestoreFootprintOp { ext })
    }

    proof fn lemma_prefix(data: Seq<u8>, pos: int, depth: int, k: int) {
        ExtensionPoint::lemma_prefix(data, pos, depth, k);
    }
}

/// The asset of a trust line.
#[derive(Debug, Clone, PartialEq, Eq)]
pub enum TrustLineAsset<'a> {
    Native,
    CreditAlphanum4(AlphaNum4<'a>),
    CreditAlphanum12(AlphaNum12<'a>),
    PoolShare(Uint256<'a>),
}

impl<'a> XdrParse<'a> for TrustLineAsset<'a> {
    open spec fn scan(data: Seq<u8>, pos: int, depth: int) -> Result<int, ParseError> {
        match AssetType::scan(data, pos, depth) {
            Err(e) => Err(e),
            Ok(p) => {
                if be_i32(data, pos) == 0 {
                    Ok(p)
                } else if be_i32(data, pos) == 1 {
                    AlphaNum4::scan(data, p, depth)
                } else if be_i32(data, pos) == 2 {
                    AlphaNum12::scan(data, p, depth)
                } else if be_i32(data, pos) == 3 {
                    Uint256::scan(data, p, depth)
                } else {
                    Err(ParseError::InvalidType(be_i32(data, pos) as i32))
                }
            },
        }
    }

    open spec fn decoded_from(&self, data: Seq<u8>, pos: int, depth: int) -> bool {
        match self {
            TrustLineAsset::Native => be_i32(data, pos) == 0,
            TrustLineAsset::CreditAlphanum4(v0) => {
                &&& be_i32(data, pos) == 1
                &&& v0.decoded_from(data, pos + 4, depth)
            },
            TrustLineAsset::CreditAlphanum12(v0) => {
                &&& be_i32(data, pos) == 2
                &&& v0.decoded_from(data, pos + 4, depth)
            },
            TrustLineAsset::PoolShare(v0) => {
                &&& be_i32(data, pos) == 3
                &&& v0.decoded_from(data, pos + 4, depth)
            },
        }
    }

    fn parse(parser: &mut Parser<'a>) -> (r: Result<Self, ParseError>) {
        let kind = AssetType::parse(parser)?;
        match kind {
            AssetType::Native => {
                Ok(TrustLineAsset::Native)
            },
            AssetType::CreditAlphanum4 => {
                let v0 = AlphaNum4::parse(parser)?;
                Ok(TrustLineAsset::CreditAlphanum4(v0))
            },
            AssetType::CreditAlphanum12 => {
                let v0 = AlphaNum12::parse(parser)?;
                Ok(TrustLineAsset::CreditAlphanum12(v0))
            },
            AssetType::PoolShare => {
                let v0 = Uint256::parse(parser)?;
                Ok(TrustLineAsset::PoolShare(v0))
            },
        }
    }

    proof fn lemma_prefix(data: Seq<u8>, pos: int, depth: int, k: int) {
        AssetType::lemma_prefix(data, pos, depth, k);
        lemma_fixed_prefix(data, pos, k);
        if AssetType::scan(data, pos, depth) is Ok {
            let p = pos + 4;
            if be_i32(data, pos) == 1 {
                AlphaNum4::lemma_prefix(data, p, depth, k);
            } else if be_i32(data, pos) == 2 {
                AlphaNum12::lemma_prefix(data, p, depth, k);
            } else if be_i32(data, pos) == 3 {
                Uint256::lemma_prefix(data, p, depth, k);
            }
        }
    }
}

/// The key of an account entry.
#[derive(Debug, Clone, PartialEq, Eq)]
pub struct LedgerKeyAccount<'a> {
    pub account_id: PublicKey<'a>,
}

impl<'a> XdrParse<'a> for LedgerKeyAccount<'a> {
    open spec fn scan(data: Seq<u8>, pos: int, depth: int) -> Result<int, ParseError> {
        PublicKey::scan(data, pos, depth)
    }

    open spec fn decoded_from(&self, data: Seq<u8>, pos: int, depth: int) -> bool {
        self.account_id.decoded_from(data, pos, depth)
    }

    fn parse(parser: &mut Parser<'a>) -> (r: Result<Self, ParseError>) {
        let account_id = PublicKey::parse(parser)?;
        Ok(LedgerKeyAccount { account_id })
    }

    proof fn lemma_prefix(data: Seq<u8>, pos: int, depth: int, k: int) {
        PublicKey::lemma_prefix(data, pos, depth, k);
    }
}

/// The key of a trust line entry.
#[derive(Debug, Clone, PartialEq, Eq)]
pub struct LedgerKeyTrustLine<'a> {
    pub account_id: PublicKey<'a>,
    pub asset: TrustLineAsset<'a>,
}

impl<'a> XdrParse<'a> for LedgerKeyTrustLine<'a> {
    open spec fn scan(data: Seq<u8>, pos: int, depth: int) -> Result<int, ParseError> {
        match PublicKey::scan(data, pos, depth) {
            Err(e) => Err(e),
            Ok(p1) => {
                TrustLineAsset::scan(data, p1, depth)
            },
        }
    }

    open spec fn decoded_from(&self, data: Seq<u8>, pos: int, depth: int) -> bool {
        let p1 = PublicKey::scan(data, pos, depth).unwrap();
        &&& self.account_id.decoded_from(data, pos, depth)
        &&& self.asset.decoded_from(data, p1, depth)
    }

    fn parse(parser: &mut Parser<'a>) -> (r: Result<Self, ParseError>) {
        let account_id = PublicKey::parse(parser)?;
        let asset = TrustLineAsset::parse(parser)?;
        Ok(LedgerKeyTrustLine { account_id, asset })
    }

    proof fn lemma_prefix(data: Seq<u8>, pos: int, depth: int, k: int) {
        PublicKey::lemma_prefix(data, pos, depth, k);
        if PublicKey::scan(data, pos, depth) is Ok {
            let p1 = PublicKey::scan(data, pos, depth)->Ok_0;
            TrustLineAsset::lemma_prefix(data, p1, depth, k);
        }
    }
}

/// The key of an offer entry.
#[derive(Debug, Clone, PartialEq, Eq)]
pub struct LedgerKeyOffer<'a> {
    pub seller_id: PublicKey<'a>,
    pub offer_id: i64,
}

impl<'a> XdrParse<'a> for LedgerKeyOffer<'a> {
    open spec fn scan(data: Seq<u8>, pos: int, depth: int) -> Result<int, ParseError> {
        match PublicKey::scan(data, pos, depth) {
            Err(e) => Err(e),
            Ok(p1) => {
                scan_fixed(data, p1, 8)
            },
        }
    }

    open spec fn decoded_from(&self, data: Seq<u8>, pos: int, depth: int) -> bool {
        let p1 = PublicKey::scan(data, pos, depth).unwrap();
        &&& self.seller_id.decoded_from(data, pos, depth)
        &&& self.offer_id == be_i64(data, p1)
    }

    fn parse(parser: &mut Parser<'a>) -> (r: Result<Self, ParseError>) {
        let seller_id = PublicKey::parse(parser)?;
        let offer_id = parser.parse_int64()?;
        Ok(LedgerKeyOffer { seller_id, offer_id })
    }

    proof fn lemma_prefix(data: Seq<u8>, pos: int, depth: int, k: int) {
        PublicKey::lemma_prefix(data, pos, depth, k);
        if PublicKey::scan(data, pos, depth) is Ok {
            let p1 = PublicKey::scan(data, pos, depth)->Ok_0;
            lemma_fixed_prefix(data, p1, k);
        }
    }
}

/// The key of a data entry.
#[derive(Debug, Clone, PartialEq, Eq)]
pub struct LedgerKeyData<'a> {
    pub account_id: PublicKey<'a>,
    pub data_name: StringM<'a, 64>,
}

impl<'a> XdrParse<'a> for LedgerKeyData<'a> {
    open spec fn scan(data: Seq<u8>, pos: int, depth: int) -> Result<int, ParseError> {
        match PublicKey::scan(data, pos, depth) {
            Err(e) => Err(e),
            Ok(p1) => {
                StringM::<64>::scan(data, p1, depth)
            },
        }
    }

    open spec fn decoded_from(&self, data: Seq<u8>, pos: int, depth: int) -> bool {
        let p1 = PublicKey::scan(data, pos, depth).unwrap();
        &&& self.account_id.decoded_from(data, pos, depth)
        &&& self.data_name.decoded_from(data, p1, depth)
    }

    fn parse(parser: &mut Parser<'a>) -> (r: Result<Self, ParseError>) {
        let account_id = PublicKey::parse(parser)?;
        let data_name = StringM::<64>::parse(parser)?;
        Ok(LedgerKeyData { account_id, data_name })
    }

    proof fn lemma_prefix(data: Seq<u8>, pos: int, depth: int, k: int) {
        PublicKey::lemma_prefix(data, pos, depth, k);
        if PublicKey::scan(data, pos, depth) is Ok {
            let p1 = PublicKey::scan(data, pos, depth)->Ok_0;
            StringM::<64>::lemma_prefix(data, p1, depth, k);
        }
    }
}

/// The key of a claimable balance entry.
#[derive(Debug, Clone, PartialEq, Eq)]
pub struct LedgerKeyClaimableBalance<'a> {
    pub balance_id: ClaimableBalanceId<'a>,
}

impl<'a> XdrParse<'a> for LedgerKeyClaimableBalance<'a> {
    open spec fn scan(data: Seq<u8>, pos: int, depth: int) -> Result<int, ParseError> {
        ClaimableBalanceId::scan(data, pos, depth)
    }

    open spec fn decoded_from(&self, data: Seq<u8>, pos: int, depth: int) -> bool {
        self.balance_id.decoded_from(data, pos, depth)
    }

    fn parse(parser: &mut Parser<'a>) -> (r: Result<Self, ParseError>) {
        let balance_id = ClaimableBalanceId::parse(parser)?;
        Ok(LedgerKeyClaimableBalance { balance_id })
    }

    proof fn lemma_prefix(data: Seq<u8>, pos: int, depth: int, k: int) {
        ClaimableBalanceId::lemma_prefix(data, pos, depth, k);
    }
}

/// The key of a liquidity pool entry.
#[derive(Debug, Clone, PartialEq, Eq)]
pub struct LedgerKeyLiquidityPool<'a> {
    pub liquidity_pool_id: Uint256<'a>,
}

impl<'a> XdrParse<'a> for LedgerKeyLiquidityPool<'a> {
    open spec fn scan(data: Seq<u8>, pos: int, depth: int) -> Result<int, ParseError> {
        Uint256::scan(data, pos, depth)
    }

    open spec fn decoded_from(&self, data: Seq<u8>, pos: int, depth: int) -> bool {
        self.liquidity_pool_id.decoded_from(data, pos, depth)
    }

    fn parse(parser: &mut Parser<'a>) -> (r: Result<Self, ParseError>) {
        let liquidity_pool_id = Uint256::parse(parser)?;
        Ok(LedgerKeyLiquidityPool { liquidity_pool_id })
    }

    proof fn lemma_prefix(data: Seq<u8>, pos: int, depth: int, k: int) {
        Uint256::lemma_prefix(data, pos, depth, k);
    }
}

/// The key of a contract data entry.
#[derive(Debug, PartialEq, Eq)]
pub struct LedgerKeyContractData<'a> {
    pub contract: ScAddress<'a>,
    pub key: ScVal<'a>,
    pub durability: ContractDataDurability,
}

impl<'a> XdrParse<'a> for LedgerKeyContractData<'a> {
    open spec fn scan(data: Seq<u8>, pos: int, depth: int) -> Result<int, ParseError> {
        match ScAddress::scan(data, pos, depth) {
            Err(e) => Err(e),
            Ok(p1) => {
                match ScVal::scan(data, p1, depth) {
                    Err(e) => Err(e),
                    Ok(p2) => {
                        ContractDataDurability::scan(data, p2, depth)
                    },
                }
            },
        }
    }

    open spec fn decoded_from(&self, data: Seq<u8>, pos: int, depth: int) -> bool {
        let p1 = ScAddress::scan(data, pos, depth).unwrap();
        let p2 = ScVal::scan(data, p1, depth).unwrap();
        &&& self.contract.decoded_from(data, pos, depth)
        &&& self.key.decoded_from(data, p1, depth)
        &&& self.durability.decoded_from(data, p2, depth)
    }

    fn parse(parser: &mut Parser<'a>) -> (r: Result<Self, ParseError>) {
        let contract = ScAddress::parse(parser)?;
        let key = ScVal::parse(parser)?;
        let durability = ContractDataDurability::parse(parser)?;
        Ok(LedgerKeyContractData { contract, key, durability })
    }

    proof fn lemma_prefix(data: Seq<u8>, pos: int, depth: int, k: int) {
        ScAddress::lemma_prefix(data, pos, depth, k);
        if ScAddress::scan(data, pos, depth) is Ok {
            let p1 = ScAddress::scan(data, pos, depth)->Ok_0;
            ScVal::lemma_prefix(data, p1, depth, k);
            if ScVal::scan(data, p1, depth) is Ok {
                let p2 = ScVal::scan(data, p1, depth)->Ok_0;
                ContractDataDurability::lemma_prefix(data, p2, depth, k);
            }
        }
    }
}

/// The key of a contract code entry.
#[derive(Debug, Clone, PartialEq, Eq)]
pub struct LedgerKeyContractCode<'a> {
    pub hash: Uint256<'a>,
}

impl<'a> XdrParse<'a> for LedgerKeyContractCode<'a> {
    open spec fn scan(data: Seq<u8>, pos: int, depth: int) -> Result<int, ParseError> {
        Uint256::scan(data, pos, depth)
    }

    open spec fn decoded_from(&self, data: Seq<u8>, pos: int, depth: int) -> bool {
        self.hash.decoded_from(data, pos, depth)
    }

    fn parse(parser: &mut Parser<'a>) -> (r: Result<Self, ParseError>) {
        let hash = Uint256::parse(parser)?;
        Ok(LedgerKeyContractCode { hash })
    }

    proof fn lemma_prefix(data: Seq<u8>, pos: int, depth: int, k: int) {
        Uint256::lemma_prefix(data, pos, depth, k);
    }
}

/// The key of a configuration setting entry.
#[derive(Debug, Clone, PartialEq, Eq)]
pub struct LedgerKeyConfigSetting {
    pub config_setting_id: ConfigSettingID,
}

impl<'a> XdrParse<'a> for LedgerKeyConfigSetting {
    open spec fn scan(data: Seq<u8>, pos: int, depth: int) -> Result<int, ParseError> {
        ConfigSettingID::scan(data, pos, depth)
    }

    open spec fn decoded_from(&self, data: Seq<u8>, pos: int, depth: int) -> bool {
        self.config_setting_id.decoded_from(data, pos, depth)
    }

    fn parse(parser: &mut Parser<'a>) -> (r: Result<Self, ParseError>) {
        let config_setting_id = ConfigSettingID::parse(parser)?;
        Ok(LedgerKeyConfigSetting { config_setting_id })
    }

    proof fn lemma_prefix(data: Seq<u8>, pos: int, depth: int, k: int) {
        ConfigSettingID::lemma_prefix(data, pos, depth, k);
    }
}

/// The key of a lifetime entry.
#[derive(Debug, Clone, PartialEq, Eq)]
pub struct LedgerKeyTtl<'a> {
    pub key_hash: Uint256<'a>,
}

impl<'a> XdrParse<'a> for LedgerKeyTtl<'a> {
    open spec fn scan(data: Seq<u8>, pos: int, depth: int) -> Result<int, ParseError> {
        Uint256::scan(data, pos, depth)
    }

    open spec fn decoded_from(&self, data: Seq<u8>, pos: int, depth: int) -> bool {
        self.key_hash.decoded_from(data, pos, depth)
    }

    fn parse(parser: &mut Parser<'a>) -> (r: Result<Self, ParseError>) {
        let key_hash = Uint256::parse(parser)?;
        Ok(LedgerKeyTtl { key_hash })
    }

    proof fn lemma_prefix(data: Seq<u8>, pos: int, depth: int, k: int) {
        Uint256::lemma_prefix(data, pos, depth, k);
    }
}

/// The key of a ledger entry.
#[derive(Debug, PartialEq, Eq)]
pub enum LedgerKey<'a> {
    Account(LedgerKeyAccount<'a>),
    Trustline(LedgerKeyTrustLine<'a>),
    Offer(LedgerKeyOffer<'a>),
    Data(LedgerKeyData<'a>),
    ClaimableBalance(LedgerKeyClaimableBalance<'a>),
    LiquidityPool(LedgerKeyLiquidityPool<'a>),
    ContractData(LedgerKeyContractData<'a>),
    ContractCode(LedgerKeyContractCode<'a>),
    ConfigSetting(LedgerKeyConfigSetting),
    Ttl(LedgerKeyTtl<'a>),
}

impl<'a> XdrParse<'a> for LedgerKey<'a> {
    open spec fn scan(data: Seq<u8>, pos: int, depth: int) -> Result<int, ParseError> {
        match LedgerEntryType::scan(data, pos, depth) {
            Err(e) => Err(e),
            Ok(p) => {
                if be_i32(data, pos) == 0 {
                    LedgerKeyAccount::scan(data, p, depth)
                } else if be_i32(data, pos) == 1 {
                    LedgerKeyTrustLine::scan(data, p, depth)
                } else if be_i32(data, pos) == 2 {
                    LedgerKeyOffer::scan(data, p, depth)
                } else if be_i32(data, pos) == 3 {
                    LedgerKeyData::scan(data, p, depth)
                } else if be_i32(data, pos) == 4 {
                    LedgerKeyClaimableBalance::scan(data, p, depth)
                } else if be_i32(data, pos) == 5 {
                    LedgerKeyLiquidityPool::scan(data, p, depth)
                } else if be_i32(data, pos) == 6 {
                    LedgerKeyContractData::scan(data, p, depth)
                } else if be_i32(data, pos) == 7 {
                    LedgerKeyContractCode::scan(data, p, depth)
                } else if be_i32(data, pos) == 8 {
                    LedgerKeyConfigSetting::scan(data, p, depth)
                } else if be_i32(data, pos) == 9 {
                    LedgerKeyTtl::scan(data, p, depth)
                } else {
                    Err(ParseError::InvalidType(be_i32(data, pos) as i32))
                }
            },
        }
    }

    open spec fn decoded_from(&self, data: Seq<u8>, pos: int, depth: int) -> bool {
        match self {
            LedgerKey::Account(v0) => {
                &&& be_i32(data, pos) == 0
                &&& v0.decoded_from(data, pos + 4, depth)
            },
            LedgerKey::Trustline(v0) => {
                &&& be_i32(data, pos) == 1
                &&& v0.decoded_from(data, pos + 4, depth)
            },
            LedgerKey::Offer(v0) => {
                &&& be_i32(data, pos) == 2
                &&& v0.decoded_from(data, pos + 4, depth)
            },
            LedgerKey::Data(v0) => {
                &&& be_i32(data, pos) == 3
                &&& v0.decoded_from(data, pos + 4, depth)
            },
            LedgerKey::ClaimableBalance(v0) => {
                &&& be_i32(data, pos) == 4
                &&& v0.decoded_from(data, pos + 4, depth)
            },
            LedgerKey::LiquidityPool(v0) => {
                &&& be_i32(data, pos) == 5
                &&& v0.decoded_from(data, pos + 4, depth)
            },
            LedgerKey::ContractData(v0) => {
                &&& be_i32(data, pos) == 6
                &&& v0.decoded_from(data, pos + 4, depth)
            },
            LedgerKey::ContractCode(v0) => {
                &&& be_i32(data, pos) == 7
                &&& v0.decoded_from(data, pos + 4, depth)
            },
            LedgerKey::ConfigSetting(v0) => {
                &&& be_i32(data, pos) == 8
                &&& v0.decoded_from(data, pos + 4, depth)
            },
            LedgerKey::Ttl(v0) => {
                &&& be_i32(data, pos) == 9
                &&& v0.decoded_from(data, pos + 4, depth)
            },
        }
    }

    fn parse(parser: &mut Parser<'a>) -> (r: Result<Self, ParseError>) {
        let kind = LedgerEntryType::parse(parser)?;
        match kind {
            LedgerEntryType::Account => {
                let v0 = LedgerKeyAccount::parse(parser)?;
                Ok(LedgerKey::Account(v0))
            },
            LedgerEntryType::Trustline => {
                let v0 = LedgerKeyTrustLine::parse(parser)?;
                Ok(LedgerKey::Trustline(v0))
            },
            LedgerEntryType::Offer => {
                let v0 = LedgerKeyOffer::parse(parser)?;
                Ok(LedgerKey::Offer(v0))
            },
            LedgerEntryType::Data => {
                let v0 = LedgerKeyData::parse(parser)?;
                Ok(LedgerKey::Data(v0))
            },
            LedgerEntryType::ClaimableBalance => {
                let v0 = LedgerKeyClaimableBalance::parse(parser)?;
                Ok(LedgerKey::ClaimableBalance(v0))
            },
            LedgerEntryType::LiquidityPool => {
                let v0 = LedgerKeyLiquidityPool::parse(parser)?;
                Ok(LedgerKey::LiquidityPool(v0))
            },
            LedgerEntryType::ContractData => {
                let v0 = LedgerKeyContractData::parse(parser)?;
                Ok(LedgerKey::ContractData(v0))
            },
            LedgerEntryType::ContractCode => {
                let v0 = LedgerKeyContractCode::parse(parser)?;
                Ok(LedgerKey::ContractCode(v0))
            },
            LedgerEntryType::ConfigSetting => {
                let v0 = LedgerKeyConfigSetting::parse(parser)?;
                Ok(LedgerKey::ConfigSetting(v0))
            },
            LedgerEntryType::Ttl => {
                let v0 = LedgerKeyTtl::parse(parser)?;
                Ok(LedgerKey::Ttl(v0))
            },
        }
    }

    proof fn lemma_prefix(data: Seq<u8>, pos: int, depth: int, k: int) {
        LedgerEntryType::lemma_prefix(data, pos, depth, k);
        lemma_fixed_prefix(data, pos, k);
        if LedgerEntryType::scan(data, pos, depth) is Ok {
            let p = pos + 4;
            if be_i32(data, pos) == 0 {
                LedgerKeyAccount::lemma_prefix(data, p, depth, k);
            } else if be_i32(data, pos) == 1 {
                LedgerKeyTrustLine::lemma_prefix(data, p, depth, k);
            } else if be_i32(data, pos) == 2 {
                LedgerKeyOffer::lemma_prefix(data, p, depth, k);
            } else if be_i32(data, pos) == 3 {
                LedgerKeyData::lemma_prefix(data, p, depth, k);
            } else if be_i32(data, pos) == 4 {
                LedgerKeyClaimableBalance::lemma_prefix(data, p, depth, k);
            } else if be_i32(data, pos) == 5 {
                LedgerKeyLiquidityPool::lemma_prefix(data, p, depth, k);
            } else if be_i32(data, pos) == 6 {
                LedgerKeyContractData::lemma_prefix(data, p, depth, k);
            } else if be_i32(data, pos) == 7 {
                LedgerKeyContractCode::lemma_prefix(data, p, depth, k);
            } else if be_i32(data, pos) == 8 {
                LedgerKeyConfigSetting::lemma_prefix(data, p, depth, k);
            } else if be_i32(data, pos) == 9 {
                LedgerKeyTtl::lemma_prefix(data, p, depth, k);
            }
        }
    }
}

/// The signer whose sponsorship is revoked.
#[derive(Debug, Clone, PartialEq, Eq)]
pub struct RevokeSponsorshipOpSigner<'a> {
    pub account_id: PublicKey<'a>,
    pub signer_key: SignerKey<'a>,
}

impl<'a> XdrParse<'a> for RevokeSponsorshipOpSigner<'a> {
    open spec fn scan(data: Seq<u8>, pos: int, depth: int) -> Result<int, ParseError> {
        match PublicKey::scan(data, pos, depth) {
            Err(e) => Err(e),
            Ok(p1) => {
                SignerKey::scan(data, p1, depth)
            },
        }
    }

    open spec fn decoded_from(&self, data: Seq<u8>, pos: int, depth: int) -> bool {
        let p1 = PublicKey::scan(data, pos, depth).unwrap();
        &&& self.account_id.decoded_from(data, pos, depth)
        &&& self.signer_key.decoded_from(data, p1, depth)
    }

    fn parse(parser: &mut Parser<'a>) -> (r: Result<Self, ParseError>) {
        let account_id = PublicKey::parse(parser)?;
        let signer_key = SignerKey::parse(parser)?;
        Ok(RevokeSponsorshipOpSigner { account_id, signer_key })
    }

    proof fn lemma_prefix(data: Seq<u8>, pos: int, depth: int, k: int) {
        PublicKey::lemma_prefix(data, pos, depth, k);
        if PublicKey::scan(data, pos, depth) is Ok {
            let p1 = PublicKey::scan(data, pos, depth)->Ok_0;
            SignerKey::lemma_prefix(data, p1, depth, k);
        }
    }
}

/// Revokes the sponsorship of a ledger entry or of a signer.
#[derive(Debug, PartialEq, Eq)]
pub enum RevokeSponsorshipOp<'a> {
    LedgerEntry(LedgerKey<'a>),
    Signer(RevokeSponsorshipOpSigner<'a>),
}

impl<'a> XdrParse<'a> for RevokeSponsorshipOp<'a> {
    open spec fn scan(data: Seq<u8>, pos: int, depth: int) -> Result<int, ParseError> {
        match RevokeSponsorshipType::scan(data, pos, depth) {
            Err(e) => Err(e),
            Ok(p) => {
                if be_i32(data, pos) == 0 {
                    LedgerKey::scan(data, p, depth)
                } else if be_i32(data, pos) == 1 {
                    RevokeSponsorshipOpSigner::scan(data, p, depth)
                } else {
                    Err(ParseError::InvalidType(be_i32(data, pos) as i32))
                }
            },
        }
    }

    open spec fn decoded_from(&self, data: Seq<u8>, pos: int, depth: int) -> bool {
        match self {
            RevokeSponsorshipOp::LedgerEntry(v0) => {
                &&& be_i32(data, pos) == 0
                &&& v0.decoded_from(data, pos + 4, depth)
            },
            RevokeSponsorshipOp::Signer(v0) => {
                &&& be_i32(data, pos) == 1
                &&& v0.decoded_from(data, pos + 4, depth)
            },
        }
    }

    fn parse(parser: &mut Parser<'a>) -> (r: Result<Self, ParseError>) {
        let kind = RevokeSponsorshipType::parse(parser)?;
        match kind {
            RevokeSponsorshipType::LedgerEntry => {
                let v0 = LedgerKey::parse(parser)?;
                Ok(RevokeSponsorshipOp::LedgerEntry(v0))
            },
            RevokeSponsorshipType::Signer => {
                let v0 = RevokeSponsorshipOpSigner::parse(parser)?;
                Ok(RevokeSponsorshipOp::Signer(v0))
            },
        }
    }

    proof fn lemma_prefix(data: Seq<u8>, pos: int, depth: int, k: int) {
        RevokeSponsorshipType::lemma_prefix(data, pos, depth, k);
        lemma_fixed_prefix(data, pos, k);
        if RevokeSponsorshipType::scan(data, pos, depth) is Ok {
            let p = pos + 4;
            if be_i32(data, pos) == 0 {
                LedgerKey::lemma_prefix(data, p, depth, k);
            } else if be_i32(data, pos) == 1 {
                RevokeSponsorshipOpSigner::lemma_prefix(data, p, depth, k);
            }
        }
    }
}

/// What an operation does.
#[derive(Debug, PartialEq, Eq)]
pub enum OperationBody<'a> {
    CreateAccount(CreateAccountOp<'a>),
    Payment(PaymentOp<'a>),
    PathPaymentStrictReceive(PathPaymentStrictReceiveOp<'a>),
    ManageSellOffer(ManageSellOfferOp<'a>),
    CreatePassiveSellOffer(CreatePassiveSellOfferOp<'a>),
    SetOptions(SetOptionsOp<'a>),
    ChangeTrust(ChangeTrustOp<'a>),
    AllowTrust(AllowTrustOp<'a>),
    AccountMerge(MuxedAccount<'a>),
    Inflation,
    ManageData(ManageDataOp<'a>),
    BumpSequence(BumpSequenceOp),
    ManageBuyOffer(ManageBuyOfferOp<'a>),
    PathPaymentStrictSend(PathPaymentStrictSendOp<'a>),
    CreateClaimableBalance(CreateClaimableBalanceOp<'a>),
    ClaimClaimableBalance(ClaimClaimableBalanceOp<'a>),
    BeginSponsoringFutureReserves(BeginSponsoringFutureReservesOp<'a>),
    EndSponsoringFutureReserves,
    RevokeSponsorship(RevokeSponsorshipOp<'a>),
    Clawback(ClawbackOp<'a>),
    ClawbackClaimableBalance(ClawbackClaimableBalanceOp<'a>),
    SetTrustLineFlags(SetTrustLineFlagsOp<'a>),
    LiquidityPoolDeposit(LiquidityPoolDepositOp<'a>),
    LiquidityPoolWithdraw(LiquidityPoolWithdrawOp<'a>),
    InvokeHostFunction(InvokeHostFunctionOp<'a>),
    ExtendFootprintTTL(ExtendFootprintTTLOp),
    RestoreFootprint(RestoreFootprintOp),
}

impl<'a> XdrParse<'a> for OperationBody<'a> {
    open spec fn scan(data: Seq<u8>, pos: int, depth: int) -> Result<int, ParseError> {
        match OperationType::scan(data, pos, depth) {
            Err(e) => Err(e),
            Ok(p) => {
                if be_i32(data, pos) == 0 {
                    CreateAccountOp::scan(data, p, depth)
                } else if be_i32(data, pos) == 1 {
                    PaymentOp::scan(data, p, depth)
                } else if be_i32(data, pos) == 2 {
                    PathPaymentStrictReceiveOp::scan(data, p, depth)
                } else if be_i32(data, pos) == 3 {
                    ManageSellOfferOp::scan(data, p, depth)
                } else if be_i32(data, pos) == 4 {
                    CreatePassiveSellOfferOp::scan(data, p, depth)
                } else if be_i32(data, pos) == 5 {
                    SetOptionsOp::scan(data, p, depth)
                } else if be_i32(data, pos) == 6 {
                    ChangeTrustOp::scan(data, p, depth)
                } else if be_i32(data, pos) == 7 {
                    AllowTrustOp::scan(data, p, depth)
                } else if be_i32(data, pos) == 8 {
                    MuxedAccount::scan(data, p, depth)
                } else if be_i32(data, pos) == 9 {
                    Ok(p)
                } else if be_i32(data, pos) == 10 {
                    ManageDataOp::scan(data, p, depth)
                } else if be_i32(data, pos) == 11 {
                    BumpSequenceOp::scan(data, p, depth)
                } else if be_i32(data, pos) == 12 {
                    ManageBuyOfferOp::scan(data, p, depth)
                } else if be_i32(data, pos) == 13 {
                    PathPaymentStrictSendOp::scan(data, p, depth)
                } else if be_i32(data, pos) == 14 {
                    CreateClaimableBalanceOp::scan(data, p, depth)
                } else if be_i32(data, pos) == 15 {
                    ClaimClaimableBalanceOp::scan(data, p, depth)
                } else if be_i32(data, pos) == 16 {
                    BeginSponsoringFutureReservesOp::scan(data, p, depth)
                } else if be_i32(data, pos) == 17 {
                    Ok(p)
                } else if be_i32(data, pos) == 18 {
                    RevokeSponsorshipOp::scan(data, p, depth)
                } else if be_i32(data, pos) == 19 {
                    ClawbackOp::scan(data, p, depth)
                } else if be_i32(data, pos) == 20 {
                    ClawbackClaimableBalanceOp::scan(data, p, depth)
                } else if be_i32(data, pos) == 21 {
                    SetTrustLineFlagsOp::scan(data, p, depth)
                } else if be_i32(data, pos) == 22 {
                    LiquidityPoolDepositOp::scan(data, p, depth)
                } else if be_i32(data, pos) == 23 {
                    LiquidityPoolWithdrawOp::scan(data, p, depth)
                } else if be_i32(data, pos) == 24 {
                    InvokeHostFunctionOp::scan(data, p, depth)
                } else if be_i32(data, pos) == 25 {
                    ExtendFootprintTTLOp::scan(data, p, depth)
                } else if be_i32(data, pos) == 26 {
                    RestoreFootprintOp::scan(data, p, depth)
                } else {
                    Err(ParseError::InvalidType(be_i32(data, pos) as i32))
                }
            },
        }
    }

    open spec fn decoded_from(&self, data: Seq<u8>, pos: int, depth: int) -> bool {
        match self {
            OperationBody::CreateAccount(v0) => {
                &&& be_i32(data, pos) == 0
                &&& v0.decoded_from(data, pos + 4, depth)
            },
            OperationBody::Payment(v0) => {
                &&& be_i32(data, pos) == 1
                &&& v0.decoded_from(data, pos + 4, depth)
            },
            OperationBody::PathPaymentStrictReceive(v0) => {
                &&& be_i32(data, pos) == 2
                &&& v0.decoded_from(data, pos + 4, depth)
            },
            OperationBody::ManageSellOffer(v0) => {
                &&& be_i32(data, pos) == 3
                &&& v0.decoded_from(data, pos + 4, depth)
            },
            OperationBody::CreatePassiveSellOffer(v0) => {
                &&& be_i32(data, pos) == 4
                &&& v0.decoded_from(data, pos + 4, depth)
            },
            OperationBody::SetOptions(v0) => {
                &&& be_i32(data, pos) == 5
                &&& v0.decoded_from(data, pos + 4, depth)
            },
            OperationBody::ChangeTrust(v0) => {
                &&& be_i32(data, pos) == 6
                &&& v0.decoded_from(data, pos + 4, depth)
            },
            OperationBody::AllowTrust(v0) => {
                &&& be_i32(data, pos) == 7
                &&& v0.decoded_from(data, pos + 4, depth)
            },
            OperationBody::AccountMerge(v0) => {
                &&& be_i32(data, pos) == 8
                &&& v0.decoded_from(data, pos + 4, depth)
            },
            OperationBody::Inflation => be_i32(data, pos) == 9,
            OperationBody::ManageData(v0) => {
                &&& be_i32(data, pos) == 10
                &&& v0.decoded_from(data, pos + 4, depth)
            },
            OperationBody::BumpSequence(v0) => {
                &&& be_i32(data, pos) == 11
                &&& v0.decoded_from(data, pos + 4, depth)
            },
            OperationBody::ManageBuyOffer(v0) => {
                &&& be_i32(data, pos) == 12
                &&& v0.decoded_from(data, pos + 4, depth)
            },
            OperationBody::PathPaymentStrictSend(v0) => {
                &&& be_i32(data, pos) == 13
                &&& v0.decoded_from(data, pos + 4, depth)
            },
            OperationBody::CreateClaimableBalance(v0) => {
                &&& be_i32(data, pos) == 14
                &&& v0.decoded_from(data, pos + 4, depth)
            },
            OperationBody::ClaimClaimableBalance(v0) => {
                &&& be_i32(data, pos) == 15
                &&& v0.decoded_from(data, pos + 4, depth)
            },
            OperationBody::BeginSponsoringFutureReserves(v0) => {
                &&& be_i32(data, pos) == 16
                &&& v0.decoded_from(data, pos + 4, depth)
            },
            OperationBody::EndSponsoringFutureReserves => be_i32(data, pos) == 17,
            OperationBody::RevokeSponsorship(v0) => {
                &&& be_i32(data, pos) == 18
                &&& v0.decoded_from(data, pos + 4, depth)
            },
            OperationBody::Clawback(v0) => {
                &&& be_i32(data, pos) == 19
                &&& v0.decoded_from(data, pos + 4, depth)
            },
            OperationBody::ClawbackClaimableBalance(v0) => {
                &&& be_i32(data, pos) == 20
                &&& v0.decoded_from(data, pos + 4, depth)
            },
            OperationBody::SetTrustLineFlags(v0) => {
                &&& be_i32(data, pos) == 21
                &&& v0.decoded_from(data, pos + 4, depth)
            },
            OperationBody::LiquidityPoolDeposit(v0) => {
                &&& be_i32(data, pos) == 22
                &&& v0.decoded_from(data, pos + 4, depth)
            },
            OperationBody::LiquidityPoolWithdraw(v0) => {
                &&& be_i32(data, pos) == 23
                &&& v0.decoded_from(data, pos + 4, depth)
            },
            OperationBody::InvokeHostFunction(v0) => {
                &&& be_i32(data, pos) == 24
                &&& v0.decoded_from(data, pos + 4, depth)
            },
            OperationBody::ExtendFootprintTTL(v0) => {
                &&& be_i32(data, pos) == 25
                &&& v0.decoded_from(data, pos + 4, depth)
            },
            OperationBody::RestoreFootprint(v0) => {
                &&& be_i32(data, pos) == 26
                &&& v0.decoded_from(data, pos + 4, depth)
            },
        }
    }

    #[verifier::rlimit(60)]
    fn parse(parser: &mut Parser<'a>) -> (r: Result<Self, ParseError>) {
        let kind = OperationType::parse(parser)?;
        match kind {
            OperationType::CreateAccount => {
                let v0 = CreateAccountOp::parse(parser)?;
                Ok(OperationBody::CreateAccount(v0))
            },
            OperationType::Payment => {
                let v0 = PaymentOp::parse(parser)?;
                Ok(OperationBody::Payment(v0))
            },
            OperationType::PathPaymentStrictReceive => {
                let v0 = PathPaymentStrictReceiveOp::parse(parser)?;
                Ok(OperationBody::PathPaymentStrictReceive(v0))
            },
            OperationType::ManageSellOffer => {
                let v0 = ManageSellOfferOp::parse(parser)?;
                Ok(OperationBody::ManageSellOffer(v0))
            },
            OperationType::CreatePassiveSellOffer => {
                let v0 = CreatePassiveSellOfferOp::parse(parser)?;
                Ok(OperationBody::CreatePassiveSellOffer(v0))
            },
            OperationType::SetOptions => {
                let v0 = SetOptionsOp::parse(parser)?;
                Ok(OperationBody::SetOptions(v0))
            },
            OperationType::ChangeTrust => {
                let v0 = ChangeTrustOp::parse(parser)?;
                Ok(OperationBody::ChangeTrust(v0))
            },
            OperationType::AllowTrust => {
                let v0 = AllowTrustOp::parse(parser)?;
                Ok(OperationBody::AllowTrust(v0))
            },
            OperationType::AccountMerge => {
                let v0 = MuxedAccount::parse(parser)?;
                Ok(OperationBody::AccountMerge(v0))
            },
            OperationType::Inflation => {
                Ok(OperationBody::Inflation)
            },
            OperationType::ManageData => {
                let v0 = ManageDataOp::parse(parser)?;
                Ok(OperationBody::ManageData(v0))
            },
            OperationType::BumpSequence => {
                let v0 = BumpSequenceOp::parse(parser)?;
                Ok(OperationBody::BumpSequence(v0))
            },
            OperationType::ManageBuyOffer => {
                let v0 = ManageBuyOfferOp::parse(parser)?;
                Ok(OperationBody::ManageBuyOffer(v0))
            },
            OperationType::PathPaymentStrictSend => {
                let v0 = PathPaymentStrictSendOp::parse(parser)?;
                Ok(OperationBody::PathPaymentStrictSend(v0))
            },
            OperationType::CreateClaimableBalance => {
                let v0 = CreateClaimableBalanceOp::parse(parser)?;
                Ok(OperationBody::CreateClaimableBalance(v0))
            },
            OperationType::ClaimClaimableBalance => {
                let v0 = ClaimClaimableBalanceOp::parse(parser)?;
                Ok(OperationBody::ClaimClaimableBalance(v0))
            },
            OperationType::BeginSponsoringFutureReserves => {
                let v0 = BeginSponsoringFutureReservesOp::parse(parser)?;
                Ok(OperationBody::BeginSponsoringFutureReserves(v0))
            },
            OperationType::EndSponsoringFutureReserves => {
                Ok(OperationBody::EndSponsoringFutureReserves)
            },
            OperationType::RevokeSponsorship => {
                let v0 = RevokeSponsorshipOp::parse(parser)?;
                Ok(OperationBody::RevokeSponsorship(v0))
            },
            OperationType::Clawback => {
                let v0 = ClawbackOp::parse(parser)?;
                Ok(OperationBody::Clawback(v0))
            },
            OperationType::ClawbackClaimableBalance => {
                let v0 = ClawbackClaimableBalanceOp::parse(parser)?;
                Ok(OperationBody::ClawbackClaimableBalance(v0))
            },
            OperationType::SetTrustLineFlags => {
                let v0 = SetTrustLineFlagsOp::parse(parser)?;
                Ok(OperationBody::SetTrustLineFlags(v0))
            },
            OperationType::LiquidityPoolDeposit => {
                let v0 = LiquidityPoolDepositOp::parse(parser)?;
                Ok(OperationBody::LiquidityPoolDeposit(v0))
            },
            OperationType::LiquidityPoolWithdraw => {
                let v0 = LiquidityPoolWithdrawOp::parse(parser)?;
                Ok(OperationBody::LiquidityPoolWithdraw(v0))
            },
            OperationType::InvokeHostFunction => {
                let v0 = InvokeHostFunctionOp::parse(parser)?;
                Ok(OperationBody::InvokeHostFunction(v0))
            },
            OperationType::ExtendFootprintTtl => {
                let v0 = ExtendFootprintTTLOp::parse(parser)?;
                Ok(OperationBody::ExtendFootprintTTL(v0))
            },
            OperationType::RestoreFootprint => {
                let v0 = RestoreFootprintOp::parse(parser)?;
                Ok(OperationBody::RestoreFootprint(v0))
            },
        }
    }

    #[verifier::rlimit(60)]
    proof fn lemma_prefix(data: Seq<u8>, pos: int, depth: int, k: int) {
        OperationType::lemma_prefix(data, pos, depth, k);
        lemma_fixed_prefix(data, pos, k);
        if OperationType::scan(data, pos, depth) is Ok {
            let p = pos + 4;
            if be_i32(data, pos) == 0 {
                CreateAccountOp::lemma_prefix(data, p, depth, k);
            } else if be_i32(data, pos) == 1 {
                PaymentOp::lemma_prefix(data, p, depth, k);
            } else if be_i32(data, pos) == 2 {
                PathPaymentStrictReceiveOp::lemma_prefix(data, p, depth, k);
            } else if be_i32(data, pos) == 3 {
                ManageSellOfferOp::lemma_prefix(data, p, depth, k);
            } else if be_i32(data, pos) == 4 {
                CreatePassiveSellOfferOp::lemma_prefix(data, p, depth, k);
            } else if be_i32(data, pos) == 5 {
                SetOptionsOp::lemma_prefix(data, p, depth, k);
            } else if be_i32(data, pos) == 6 {
                ChangeTrustOp::lemma_prefix(data, p, depth, k);
            } else if be_i32(data, pos) == 7 {
                AllowTrustOp::lemma_prefix(data, p, depth, k);
            } else if be_i32(data, pos) == 8 {
                MuxedAccount::lemma_prefix(data, p, depth, k);
            } else if be_i32(data, pos) == 10 {
                ManageDataOp::lemma_prefix(data, p, depth, k);
            } else if be_i32(data, pos) == 11 {
                BumpSequenceOp::lemma_prefix(data, p, depth, k);
            } else if be_i32(data, pos) == 12 {
                ManageBuyOfferOp::lemma_prefix(data, p, depth, k);
            } else if be_i32(data, pos) == 13 {
                PathPaymentStrictSendOp::lemma_prefix(data, p, depth, k);
            } else if be_i32(data, pos) == 14 {
                CreateClaimableBalanceOp::lemma_prefix(data, p, depth, k);
            } else if be_i32(data, pos) == 15 {
                ClaimClaimableBalanceOp::lemma_prefix(data, p, depth, k);
            } else if be_i32(data, pos) == 16 {
                BeginSponsoringFutureReservesOp::lemma_prefix(data, p, depth, k);
            } else if be_i32(data, pos) == 18 {
                RevokeSponsorshipOp::lemma_prefix(data, p, depth, k);
            } else if be_i32(data, pos) == 19 {
                ClawbackOp::lemma_prefix(data, p, depth, k);
            } else if be_i32(data, pos) == 20 {
                ClawbackClaimableBalanceOp::lemma_prefix(data, p, depth, k);
            } else if be_i32(data, pos) == 21 {
                SetTrustLineFlagsOp::lemma_prefix(data, p, depth, k);
            } else if be_i32(data, pos) == 22 {
                LiquidityPoolDepositOp::lemma_prefix(data, p, depth, k);
            } else if be_i32(data, pos) == 23 {
                LiquidityPoolWithdrawOp::lemma_prefix(data, p, depth, k);
            } else if be_i32(data, pos) == 24 {
                InvokeHostFunctionOp::lemma_prefix(data, p, depth, k);
            } else if be_i32(data, pos) == 25 {
                ExtendFootprintTTLOp::lemma_prefix(data, p, depth, k);
            } else if be_i32(data, pos) == 26 {
                RestoreFootprintOp::lemma_prefix(data, p, depth, k);
            }
        }
    }
}

/// An operation, with the account it acts for where that is not the
/// transaction's.
#[derive(Debug, PartialEq, Eq)]
pub struct Operation<'a> {
    pub source_account: Option<MuxedAccount<'a>>,
    pub body: OperationBody<'a>,
}

impl<'a> XdrParse<'a> for Operation<'a> {
    open spec fn scan(data: Seq<u8>, pos: int, depth: int) -> Result<int, ParseError> {
        match scan_optional::<MuxedAccount>(data, pos, depth) {
            Err(e) => Err(e),
            Ok(p1) => {
                OperationBody::scan(data, p1, depth)
            },
        }
    }

    open spec fn decoded_from(&self, data: Seq<u8>, pos: int, depth: int) -> bool {
        let p1 = scan_optional::<MuxedAccount>(data, pos, depth).unwrap();
        &&& optional_decoded_from::<MuxedAccount>(self.source_account, data, pos, depth)
        &&& self.body.decoded_from(data, p1, depth)
    }

    fn parse(parser: &mut Parser<'a>) -> (r: Result<Self, ParseError>) {
        let source_account = parser.parse_optional::<MuxedAccount>()?;
        let body = OperationBody::parse(parser)?;
        Ok(Operation { source_account, body })
    }

    proof fn lemma_prefix(data: Seq<u8>, pos: int, depth: int, k: int) {
        lemma_optional_prefix::<MuxedAccount>(data, pos, depth, k);
        if scan_optional::<MuxedAccount>(data, pos, depth) is Ok {
            let p1 = scan_optional::<MuxedAccount>(data, pos, depth)->Ok_0;
            OperationBody::lemma_prefix(data, p1, depth, k);
        }
    }
}

} // verus!

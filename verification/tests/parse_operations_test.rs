use stellarlib::parser::{
    AllowTrustOp, AlphaNum12, AlphaNum4, Asset, AssetCode, AssetCode12, AssetCode4,
    BeginSponsoringFutureReservesOp, BumpSequenceOp, BytesM, ChangeTrustAsset, ChangeTrustOp,
    ClaimClaimableBalanceOp, ClaimPredicate, Claimant, ClaimantV0, ClaimableBalanceId,
    ClawbackClaimableBalanceOp, ClawbackOp, ConfigSettingID, ContractDataDurability,
    CreateAccountOp, CreateClaimableBalanceOp, CreatePassiveSellOfferOp, Ed25519SignedPayload,
    ExtendFootprintTTLOp, ExtensionPoint, LedgerKey, LedgerKeyAccount, LedgerKeyClaimableBalance,
    LedgerKeyConfigSetting, LedgerKeyContractCode, LedgerKeyContractData, LedgerKeyData,
    LedgerKeyLiquidityPool, LedgerKeyOffer, LedgerKeyTrustLine, LedgerKeyTtl,
    LiquidityPoolConstantProductParameters, LiquidityPoolDepositOp, LiquidityPoolParameters,
    LiquidityPoolWithdrawOp, ManageBuyOfferOp, ManageDataOp, ManageSellOfferOp, MuxedAccount,
    MuxedEd25519, Operation, OperationBody, ParseError, Parser, PathPaymentStrictReceiveOp,
    PathPaymentStrictSendOp, PaymentOp, Price, PublicKey, RestoreFootprintOp,
    RevokeSponsorshipOp, RevokeSponsorshipOpSigner, ScAddress, ScVal, SetOptionsOp,
    SetTrustLineFlagsOp, Signer, SignerKey, StringM, TrustLineAsset, Uint256, VecM, XdrParse,
};

const KEY_1: [u8; 32] = [
    0x36, 0x3e, 0xaa, 0x38, 0x67, 0x84, 0x1f, 0xba, 0xd0, 0xf4, 0xed, 0x88, 0xc7, 0x79, 0xe4, 0xfe,
    0x66, 0xe5, 0x6a, 0x24, 0x70, 0xdc, 0x98, 0xc0, 0xec, 0x9c, 0x07, 0x3d, 0x05, 0xc7, 0xb1, 0x03,
];

const KEY_2: [u8; 32] = [
    0x3f, 0x0c, 0x34, 0xbf, 0x93, 0xad, 0x0d, 0x99, 0x71, 0xd0, 0x4c, 0xcc, 0x90, 0xf7, 0x05, 0x51,
    0x1c, 0x83, 0x8a, 0xad, 0x97, 0x34, 0xa4, 0xa2, 0xfb, 0x0d, 0x7a, 0x03, 0xfc, 0x7f, 0xe8, 0x9a,
];

fn u32_be(v: u32) -> Vec<u8> {
    v.to_be_bytes().to_vec()
}

fn i32_be(v: i32) -> Vec<u8> {
    v.to_be_bytes().to_vec()
}

fn i64_be(v: i64) -> Vec<u8> {
    v.to_be_bytes().to_vec()
}

fn opaque(bytes: &[u8]) -> Vec<u8> {
    let mut v = u32_be(bytes.len() as u32);
    v.extend_from_slice(bytes);
    while v.len() % 4 != 0 {
        v.push(0);
    }
    v
}

fn join(parts: &[Vec<u8>]) -> Vec<u8> {
    parts.concat()
}

fn account_id(key: &[u8; 32]) -> Vec<u8> {
    join(&[u32_be(0), key.to_vec()])
}

fn muxed(key: &[u8; 32]) -> Vec<u8> {
    join(&[u32_be(0), key.to_vec()])
}

fn native() -> Vec<u8> {
    u32_be(0)
}

fn usd_bytes() -> Vec<u8> {
    join(&[u32_be(1), b"USD\0".to_vec(), account_id(&KEY_1)])
}

fn long_coin_bytes() -> Vec<u8> {
    join(&[u32_be(2), b"LONGCOIN\0\0\0\0".to_vec(), account_id(&KEY_2)])
}

fn operation(code: u32, body: Vec<u8>) -> Vec<u8> {
    join(&[u32_be(0), u32_be(code), body])
}

fn account_1() -> PublicKey<'static> {
    PublicKey::PublicKeyTypeEd25519(Uint256(&KEY_1))
}

fn account_2() -> PublicKey<'static> {
    PublicKey::PublicKeyTypeEd25519(Uint256(&KEY_2))
}

fn usd() -> Asset<'static> {
    Asset::CreditAlphanum4(AlphaNum4 { asset_code: AssetCode4(b"USD\0"), issuer: account_1() })
}

fn long_coin() -> Asset<'static> {
    Asset::CreditAlphanum12(AlphaNum12 {
        asset_code: AssetCode12(b"LONGCOIN\0\0\0\0"),
        issuer: account_2(),
    })
}

fn decoded<'a>(data: &'a [u8]) -> OperationBody<'a> {
    let mut parser = Parser::new(data);
    let op = Operation::parse(&mut parser).unwrap();
    assert_eq!(parser.offset(), data.len());
    assert_eq!(op.source_account, None);
    op.body
}

fn refused(data: &[u8]) -> ParseError {
    let mut parser = Parser::new(data);
    Operation::parse(&mut parser).unwrap_err()
}

#[test]
fn an_account_creation_is_decoded() {
    let data = operation(0, join(&[account_id(&KEY_2), i64_be(50_000_000)]));
    assert_eq!(
        decoded(&data),
        OperationBody::CreateAccount(CreateAccountOp {
            destination: account_2(),
            starting_balance: 50_000_000,
        })
    );
}

#[test]
fn a_payment_to_a_muxed_account_is_decoded() {
    let destination = join(&[u32_be(0x100), 123456u64.to_be_bytes().to_vec(), KEY_1.to_vec()]);
    let data = operation(1, join(&[destination, long_coin_bytes(), i64_be(-3)]));
    assert_eq!(
        decoded(&data),
        OperationBody::Payment(PaymentOp {
            destination: MuxedAccount::KeyTypeMuxedEd25519(MuxedEd25519 {
                id: 123456,
                ed25519: Uint256(&KEY_1),
            }),
            asset: long_coin(),
            amount: -3,
        })
    );
}

#[test]
fn an_operation_may_name_its_own_source() {
    let data = join(&[u32_be(1), muxed(&KEY_1), u32_be(9)]);
    let mut parser = Parser::new(&data);
    let op = Operation::parse(&mut parser).unwrap();
    assert_eq!(parser.offset(), data.len());
    assert_eq!(op.source_account, Some(MuxedAccount::KeyTypeEd25519(Uint256(&KEY_1))));
    assert_eq!(op.body, OperationBody::Inflation);
    let neither = join(&[u32_be(2), muxed(&KEY_1), u32_be(9)]);
    assert_eq!(refused(&neither), ParseError::InvalidType(2));
}

#[test]
fn path_payments_are_decoded_without_their_path() {
    let path = join(&[u32_be(2), usd_bytes(), native()]);
    let receive = operation(
        2,
        join(&[native(), i64_be(100), muxed(&KEY_2), usd_bytes(), i64_be(7), path.clone()]),
    );
    assert_eq!(
        decoded(&receive),
        OperationBody::PathPaymentStrictReceive(PathPaymentStrictReceiveOp {
            send_asset: Asset::Native,
            send_max: 100,
            destination: MuxedAccount::KeyTypeEd25519(Uint256(&KEY_2)),
            dest_asset: usd(),
            dest_amount: 7,
        })
    );
    let send = operation(
        13,
        join(&[usd_bytes(), i64_be(100), muxed(&KEY_2), native(), i64_be(7), u32_be(0)]),
    );
    assert_eq!(
        decoded(&send),
        OperationBody::PathPaymentStrictSend(PathPaymentStrictSendOp {
            send_asset: usd(),
            send_amount: 100,
            destination: MuxedAccount::KeyTypeEd25519(Uint256(&KEY_2)),
            dest_asset: Asset::Native,
            dest_min: 7,
        })
    );
    let six = join(&[u32_be(6), native(), native(), native(), native(), native(), native()]);
    let too_long =
        operation(13, join(&[usd_bytes(), i64_be(100), muxed(&KEY_2), native(), i64_be(7), six]));
    assert_eq!(refused(&too_long), ParseError::LengthExceedsMax { actual: 6, max: 5 });
    let bad_asset = join(&[u32_be(1), u32_be(3)]);
    let broken = operation(
        13,
        join(&[usd_bytes(), i64_be(100), muxed(&KEY_2), native(), i64_be(7), bad_asset]),
    );
    assert_eq!(refused(&broken), ParseError::InvalidType(3));
}

#[test]
fn offers_are_decoded() {
    let sell = operation(
        3,
        join(&[usd_bytes(), native(), i64_be(5), i32_be(3), i32_be(2), i64_be(99)]),
    );
    assert_eq!(
        decoded(&sell),
        OperationBody::ManageSellOffer(ManageSellOfferOp {
            selling: usd(),
            buying: Asset::Native,
            amount: 5,
            price: Price { n: 3, d: 2 },
            offer_id: 99,
        })
    );
    let buy = operation(
        12,
        join(&[native(), usd_bytes(), i64_be(5), i32_be(-1), i32_be(0), i64_be(0)]),
    );
    assert_eq!(
        decoded(&buy),
        OperationBody::ManageBuyOffer(ManageBuyOfferOp {
            selling: Asset::Native,
            buying: usd(),
            buy_amount: 5,
            price: Price { n: -1, d: 0 },
            offer_id: 0,
        })
    );
    let passive = operation(4, join(&[native(), usd_bytes(), i64_be(5), i32_be(1), i32_be(4)]));
    assert_eq!(
        decoded(&passive),
        OperationBody::CreatePassiveSellOffer(CreatePassiveSellOfferOp {
            selling: Asset::Native,
            buying: usd(),
            amount: 5,
            price: Price { n: 1, d: 4 },
        })
    );
}

#[test]
fn options_are_decoded_one_by_one() {
    let nothing = operation(5, [0u8; 36].to_vec());
    assert_eq!(
        decoded(&nothing),
        OperationBody::SetOptions(SetOptionsOp {
            inflation_dest: None,
            clear_flags: None,
            set_flags: None,
            master_weight: None,
            low_threshold: None,
            med_threshold: None,
            high_threshold: None,
            home_domain: None,
            signer: None,
        })
    );
    let payload = [9u8, 8, 7];
    let everything = operation(
        5,
        join(&[
            u32_be(1),
            account_id(&KEY_1),
            u32_be(1),
            u32_be(2),
            u32_be(1),
            u32_be(4),
            u32_be(1),
            u32_be(255),
            u32_be(1),
            u32_be(1),
            u32_be(1),
            u32_be(2),
            u32_be(1),
            u32_be(3),
            u32_be(1),
            opaque(b"example.com"),
            u32_be(1),
            u32_be(3),
            KEY_2.to_vec(),
            opaque(&payload),
            u32_be(10),
        ]),
    );
    assert_eq!(
        decoded(&everything),
        OperationBody::SetOptions(SetOptionsOp {
            inflation_dest: Some(account_1()),
            clear_flags: Some(2),
            set_flags: Some(4),
            master_weight: Some(255),
            low_threshold: Some(1),
            med_threshold: Some(2),
            high_threshold: Some(3),
            home_domain: Some(StringM::new(b"example.com")),
            signer: Some(Signer {
                key: SignerKey::SignerKeyTypeEd25519SignedPayload(Ed25519SignedPayload {
                    ed25519: Uint256(&KEY_2),
                    payload: &payload,
                }),
                weight: 10,
            }),
        })
    );
    let mut long_domain = [0u8; 36].to_vec();
    long_domain[31] = 1;
    long_domain.truncate(32);
    long_domain.extend(opaque(&[b'a'; 33]));
    long_domain.extend(u32_be(0));
    assert_eq!(
        refused(&operation(5, long_domain)),
        ParseError::LengthExceedsMax { actual: 33, max: 32 }
    );
}

#[test]
fn trust_lines_are_decoded() {
    let plain = operation(6, join(&[usd_bytes(), i64_be(i64::MAX)]));
    assert_eq!(
        decoded(&plain),
        OperationBody::ChangeTrust(ChangeTrustOp {
            line: ChangeTrustAsset::CreditAlphanum4(AlphaNum4 {
                asset_code: AssetCode4(b"USD\0"),
                issuer: account_1(),
            }),
            limit: i64::MAX,
        })
    );
    let pool = operation(
        6,
        join(&[u32_be(3), u32_be(0), native(), long_coin_bytes(), i32_be(30), i64_be(0)]),
    );
    assert_eq!(
        decoded(&pool),
        OperationBody::ChangeTrust(ChangeTrustOp {
            line: ChangeTrustAsset::PoolShare(LiquidityPoolParameters::ConstantProduct(
                LiquidityPoolConstantProductParameters {
                    asset_a: Asset::Native,
                    asset_b: long_coin(),
                    fee: 30,
                },
            )),
            limit: 0,
        })
    );
    let allow = operation(7, join(&[account_id(&KEY_2), u32_be(1), b"EUR\0".to_vec(), u32_be(2)]));
    assert_eq!(
        decoded(&allow),
        OperationBody::AllowTrust(AllowTrustOp {
            trustor: account_2(),
            asset: AssetCode::AssetCode4(AssetCode4(b"EUR\0")),
            authorize: 2,
        })
    );
    let allow_long =
        operation(7, join(&[account_id(&KEY_2), u32_be(2), b"EUROTOKEN\0\0\0".to_vec(), u32_be(0)]));
    assert_eq!(
        decoded(&allow_long),
        OperationBody::AllowTrust(AllowTrustOp {
            trustor: account_2(),
            asset: AssetCode::AssetCode12(AssetCode12(b"EUROTOKEN\0\0\0")),
            authorize: 0,
        })
    );
    let native_code = operation(7, join(&[account_id(&KEY_2), u32_be(0), u32_be(0)]));
    assert_eq!(refused(&native_code), ParseError::InvalidType(0));
    let flags = operation(21, join(&[account_id(&KEY_2), usd_bytes(), u32_be(1), u32_be(6)]));
    assert_eq!(
        decoded(&flags),
        OperationBody::SetTrustLineFlags(SetTrustLineFlagsOp {
            trustor: account_2(),
            asset: usd(),
            clear_flags: 1,
            set_flags: 6,
        })
    );
}

#[test]
fn the_operations_without_a_body_are_decoded() {
    assert_eq!(decoded(&operation(9, vec![])), OperationBody::Inflation);
    assert_eq!(decoded(&operation(17, vec![])), OperationBody::EndSponsoringFutureReserves);
    assert_eq!(refused(&operation(27, vec![])), ParseError::InvalidType(27));
    assert_eq!(refused(&join(&[u32_be(0), i32_be(-1)])), ParseError::InvalidType(-1));
    assert_eq!(refused(&u32_be(0)), ParseError::BufferOverflow);
    assert_eq!(refused(&[]), ParseError::BufferOverflow);
}

#[test]
fn merges_data_and_sequence_bumps_are_decoded() {
    assert_eq!(
        decoded(&operation(8, muxed(&KEY_2))),
        OperationBody::AccountMerge(MuxedAccount::KeyTypeEd25519(Uint256(&KEY_2)))
    );
    let set = operation(10, join(&[opaque(b"name"), u32_be(1), opaque(&[1, 2, 3, 4, 5])]));
    assert_eq!(
        decoded(&set),
        OperationBody::ManageData(ManageDataOp {
            data_name: StringM::new(b"name"),
            data_value: Some(BytesM::new(&[1, 2, 3, 4, 5])),
        })
    );
    let remove = operation(10, join(&[opaque(b"name"), u32_be(0)]));
    assert_eq!(
        decoded(&remove),
        OperationBody::ManageData(ManageDataOp { data_name: StringM::new(b"name"), data_value: None })
    );
    let long_value = operation(10, join(&[opaque(b"name"), u32_be(1), opaque(&[0; 65])]));
    assert_eq!(refused(&long_value), ParseError::LengthExceedsMax { actual: 65, max: 64 });
    let mut padded = operation(10, join(&[opaque(b"name1"), u32_be(0)]));
    let last_pad = 8 + 4 + 7;
    padded[last_pad] = 1;
    assert_eq!(refused(&padded), ParseError::InvalidPadding);
    assert_eq!(
        decoded(&operation(11, i64_be(i64::MIN))),
        OperationBody::BumpSequence(BumpSequenceOp { bump_to: i64::MIN })
    );
}

#[test]
fn claimable_balances_are_decoded() {
    let unconditional = join(&[u32_be(0), account_id(&KEY_1), u32_be(0)]);
    let both = join(&[
        u32_be(0),
        account_id(&KEY_2),
        u32_be(1),
        u32_be(2),
        u32_be(4),
        i64_be(1000),
        u32_be(3),
        u32_be(1),
        u32_be(5),
        i64_be(60),
    ]);
    let create =
        operation(14, join(&[usd_bytes(), i64_be(77), u32_be(2), unconditional, both]));
    assert_eq!(
        decoded(&create),
        OperationBody::CreateClaimableBalance(CreateClaimableBalanceOp {
            asset: usd(),
            amount: 77,
            claimants: VecM::new(vec![
                Claimant::V0(ClaimantV0 {
                    destination: account_1(),
                    predicate: ClaimPredicate::Unconditional,
                }),
                Claimant::V0(ClaimantV0 {
                    destination: account_2(),
                    predicate: ClaimPredicate::And(VecM::new(vec![
                        ClaimPredicate::BeforeAbsoluteTime(1000),
                        ClaimPredicate::Not(Box::new(ClaimPredicate::BeforeRelativeTime(60))),
                    ])),
                }),
            ]),
        })
    );
    let eleven = operation(14, join(&[usd_bytes(), i64_be(77), u32_be(11)]));
    assert_eq!(refused(&eleven), ParseError::LengthExceedsMax { actual: 11, max: 10 });
    let claim = operation(15, join(&[u32_be(0), KEY_1.to_vec()]));
    assert_eq!(
        decoded(&claim),
        OperationBody::ClaimClaimableBalance(ClaimClaimableBalanceOp {
            balance_id: ClaimableBalanceId::ClaimableBalanceIdTypeV0(Uint256(&KEY_1)),
        })
    );
    let clawback = operation(20, join(&[u32_be(0), KEY_2.to_vec()]));
    assert_eq!(
        decoded(&clawback),
        OperationBody::ClawbackClaimableBalance(ClawbackClaimableBalanceOp {
            balance_id: ClaimableBalanceId::ClaimableBalanceIdTypeV0(Uint256(&KEY_2)),
        })
    );
    assert_eq!(
        refused(&operation(15, join(&[u32_be(1), KEY_1.to_vec()]))),
        ParseError::InvalidType(1)
    );
}

#[test]
fn sponsorships_are_decoded() {
    assert_eq!(
        decoded(&operation(16, account_id(&KEY_1))),
        OperationBody::BeginSponsoringFutureReserves(BeginSponsoringFutureReservesOp {
            sponsored_id: account_1(),
        })
    );
    let revoke = |key: Vec<u8>| operation(18, join(&[u32_be(0), key]));
    assert_eq!(
        decoded(&revoke(join(&[u32_be(0), account_id(&KEY_1)]))),
        OperationBody::RevokeSponsorship(RevokeSponsorshipOp::LedgerEntry(LedgerKey::Account(
            LedgerKeyAccount { account_id: account_1() }
        )))
    );
    assert_eq!(
        decoded(&revoke(join(&[u32_be(1), account_id(&KEY_1), u32_be(3), KEY_2.to_vec()]))),
        OperationBody::RevokeSponsorship(RevokeSponsorshipOp::LedgerEntry(LedgerKey::Trustline(
            LedgerKeyTrustLine {
                account_id: account_1(),
                asset: TrustLineAsset::PoolShare(Uint256(&KEY_2)),
            }
        )))
    );
    assert_eq!(
        decoded(&revoke(join(&[u32_be(2), account_id(&KEY_1), i64_be(42)]))),
        OperationBody::RevokeSponsorship(RevokeSponsorshipOp::LedgerEntry(LedgerKey::Offer(
            LedgerKeyOffer { seller_id: account_1(), offer_id: 42 }
        )))
    );
    assert_eq!(
        decoded(&revoke(join(&[u32_be(3), account_id(&KEY_1), opaque(b"config")]))),
        OperationBody::RevokeSponsorship(RevokeSponsorshipOp::LedgerEntry(LedgerKey::Data(
            LedgerKeyData { account_id: account_1(), data_name: StringM::new(b"config") }
        )))
    );
    assert_eq!(
        decoded(&revoke(join(&[u32_be(4), u32_be(0), KEY_1.to_vec()]))),
        OperationBody::RevokeSponsorship(RevokeSponsorshipOp::LedgerEntry(
            LedgerKey::ClaimableBalance(LedgerKeyClaimableBalance {
                balance_id: ClaimableBalanceId::ClaimableBalanceIdTypeV0(Uint256(&KEY_1)),
            })
        ))
    );
    assert_eq!(
        decoded(&revoke(join(&[u32_be(5), KEY_1.to_vec()]))),
        OperationBody::RevokeSponsorship(RevokeSponsorshipOp::LedgerEntry(
            LedgerKey::LiquidityPool(LedgerKeyLiquidityPool { liquidity_pool_id: Uint256(&KEY_1) })
        ))
    );
    let signer = operation(18, join(&[u32_be(1), account_id(&KEY_1), u32_be(2), KEY_2.to_vec()]));
    assert_eq!(
        decoded(&signer),
        OperationBody::RevokeSponsorship(RevokeSponsorshipOp::Signer(RevokeSponsorshipOpSigner {
            account_id: account_1(),
            signer_key: SignerKey::SignerKeyTypeHashX(Uint256(&KEY_2)),
        }))
    );
    assert_eq!(refused(&operation(18, u32_be(2))), ParseError::InvalidType(2));
    assert_eq!(refused(&revoke(u32_be(10))), ParseError::InvalidType(10));
}

#[test]
fn the_ledger_keys_of_contracts_are_decoded() {
    let revoke = |key: Vec<u8>| operation(18, join(&[u32_be(0), key]));
    let data = revoke(join(&[u32_be(6), u32_be(1), KEY_1.to_vec(), u32_be(3), u32_be(5), u32_be(1)]));
    assert_eq!(
        decoded(&data),
        OperationBody::RevokeSponsorship(RevokeSponsorshipOp::LedgerEntry(
            LedgerKey::ContractData(LedgerKeyContractData {
                contract: ScAddress::ScAddressTypeContract(Uint256(&KEY_1)),
                key: ScVal::U32(5),
                durability: ContractDataDurability::Persistent,
            })
        ))
    );
    assert_eq!(
        decoded(&revoke(join(&[u32_be(7), KEY_2.to_vec()]))),
        OperationBody::RevokeSponsorship(RevokeSponsorshipOp::LedgerEntry(
            LedgerKey::ContractCode(LedgerKeyContractCode { hash: Uint256(&KEY_2) })
        ))
    );
    assert_eq!(
        decoded(&revoke(join(&[u32_be(8), u32_be(16)]))),
        OperationBody::RevokeSponsorship(RevokeSponsorshipOp::LedgerEntry(
            LedgerKey::ConfigSetting(LedgerKeyConfigSetting {
                config_setting_id: ConfigSettingID::ConfigSettingScpTiming,
            })
        ))
    );
    assert_eq!(
        decoded(&revoke(join(&[u32_be(9), KEY_2.to_vec()]))),
        OperationBody::RevokeSponsorship(RevokeSponsorshipOp::LedgerEntry(LedgerKey::Ttl(
            LedgerKeyTtl { key_hash: Uint256(&KEY_2) }
        )))
    );
    assert_eq!(refused(&revoke(join(&[u32_be(8), u32_be(17)]))), ParseError::InvalidType(17));
}

#[test]
fn clawbacks_and_pools_are_decoded() {
    let clawback = operation(19, join(&[usd_bytes(), muxed(&KEY_2), i64_be(5)]));
    assert_eq!(
        decoded(&clawback),
        OperationBody::Clawback(ClawbackOp {
            asset: usd(),
            from: MuxedAccount::KeyTypeEd25519(Uint256(&KEY_2)),
            amount: 5,
        })
    );
    let deposit = operation(
        22,
        join(&[
            KEY_1.to_vec(),
            i64_be(1),
            i64_be(2),
            i32_be(3),
            i32_be(4),
            i32_be(5),
            i32_be(6),
        ]),
    );
    assert_eq!(
        decoded(&deposit),
        OperationBody::LiquidityPoolDeposit(LiquidityPoolDepositOp {
            liquidity_pool_id: Uint256(&KEY_1),
            max_amount_a: 1,
            max_amount_b: 2,
            min_price: Price { n: 3, d: 4 },
            max_price: Price { n: 5, d: 6 },
        })
    );
    let withdraw = operation(23, join(&[KEY_2.to_vec(), i64_be(1), i64_be(2), i64_be(3)]));
    assert_eq!(
        decoded(&withdraw),
        OperationBody::LiquidityPoolWithdraw(LiquidityPoolWithdrawOp {
            liquidity_pool_id: Uint256(&KEY_2),
            amount: 1,
            min_amount_a: 2,
            min_amount_b: 3,
        })
    );
}

#[test]
fn footprint_operations_are_decoded() {
    assert_eq!(
        decoded(&operation(25, join(&[u32_be(0), u32_be(4096)]))),
        OperationBody::ExtendFootprintTTL(ExtendFootprintTTLOp {
            ext: ExtensionPoint::V0,
            extend_to: 4096,
        })
    );
    assert_eq!(
        decoded(&operation(26, u32_be(0))),
        OperationBody::RestoreFootprint(RestoreFootprintOp { ext: ExtensionPoint::V0 })
    );
    assert_eq!(refused(&operation(26, u32_be(1))), ParseError::InvalidType(1));
}

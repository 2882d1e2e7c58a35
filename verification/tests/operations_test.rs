use stellarlib::formatter::{
    check_operation_fits, format_account_merge_op, format_allow_trust_op,
    format_amount_with_asset, format_begin_sponsoring_future_reserves_op, format_bump_sequence_op,
    format_claim_claimable_balance_op, format_clawback_claimable_balance_op, format_clawback_op,
    format_create_account_op, format_create_passive_sell_offer_op, format_extend_footprint_ttl_op,
    format_liquidity_pool_deposit_op, format_liquidity_pool_withdraw_op, format_operation,
    format_path_payment_strict_receive_op, format_path_payment_strict_send_op, format_payment_op,
    format_restore_footprint_op, format_revoke_sponsorship_op, format_set_trust_line_flags_op,
    format_trust_line_asset, get_operation_intent, DataEntry, FormatConfig, FormatError,
};
use stellarlib::parser::{
    AllowTrustOp, AlphaNum12, AlphaNum4, Asset, AssetCode, AssetCode12, AssetCode4,
    BeginSponsoringFutureReservesOp, BumpSequenceOp, ClaimClaimableBalanceOp, ClaimableBalanceId,
    ClawbackClaimableBalanceOp, ClawbackOp, CreateAccountOp, CreatePassiveSellOfferOp,
    Ed25519SignedPayload, ExtendFootprintTTLOp, ExtensionPoint, LedgerKey,
    LedgerKeyClaimableBalance, LedgerKeyData, LedgerKeyLiquidityPool, LedgerKeyOffer,
    LedgerKeyTrustLine, LiquidityPoolDepositOp, LiquidityPoolWithdrawOp, MuxedAccount,
    MuxedEd25519, Operation, OperationBody, PathPaymentStrictReceiveOp, PathPaymentStrictSendOp,
    PaymentOp, Price, PublicKey, RestoreFootprintOp, RevokeSponsorshipOp,
    RevokeSponsorshipOpSigner, SetTrustLineFlagsOp, SignerKey, StringM, TrustLineAsset, Uint256,
};

const KEY_1: [u8; 32] = [
    0x36, 0x3e, 0xaa, 0x38, 0x67, 0x84, 0x1f, 0xba, 0xd0, 0xf4, 0xed, 0x88, 0xc7, 0x79, 0xe4, 0xfe,
    0x66, 0xe5, 0x6a, 0x24, 0x70, 0xdc, 0x98, 0xc0, 0xec, 0x9c, 0x07, 0x3d, 0x05, 0xc7, 0xb1, 0x03,
];

const ADDRESS_1: &str = "GA3D5KRYM6CB7OWQ6TWYRR3Z4T7GNZLKERYNZGGA5SOAOPIFY6YQHES5";
const MUXED_1: &str = "MA3D5KRYM6CB7OWQ6TWYRR3Z4T7GNZLKERYNZGGA5SOAOPIFY6YQGAAAAAAAAAPCICBKU";
const POOL_1: &str = "LA3D5KRYM6CB7OWQ6TWYRR3Z4T7GNZLKERYNZGGA5SOAOPIFY6YQGZ5J";
const BALANCE_1: &str = "BAADMPVKHBTYIH522D2O3CGHPHSP4ZXFNISHBXEYYDWJYBZ5AXD3CA3GDE";

const KEY_2: [u8; 32] = [
    0x3f, 0x0c, 0x34, 0xbf, 0x93, 0xad, 0x0d, 0x99, 0x71, 0xd0, 0x4c, 0xcc, 0x90, 0xf7, 0x05, 0x51,
    0x1c, 0x83, 0x8a, 0xad, 0x97, 0x34, 0xa4, 0xa2, 0xfb, 0x0d, 0x7a, 0x03, 0xfc, 0x7f, 0xe8, 0x9a,
];

const ADDRESS_2: &str = "GA7QYNF7SOWQ3GLR2BGMZEHXAVIRZA4KVWLTJJFC7MGXUA74P7UJVSGZ";
const BALANCE_2: &str = "BAAD6DBUX6J22DMZOHIEZTEQ64CVCHEDRKWZONFEUL5Q26QD7R76RGR4TU";

const KEY_3: [u8; 32] = [
    0x69, 0xa8, 0xc4, 0xcb, 0xb9, 0xf6, 0x4e, 0x8a, 0x07, 0x98, 0xf6, 0xe1, 0xac, 0x65, 0xd0, 0x6c,
    0x31, 0x62, 0x92, 0x90, 0x56, 0xbc, 0xf4, 0xcd, 0xb7, 0xd3, 0x73, 0x8d, 0x18, 0x55, 0xf3, 0x63,
];

const PRE_AUTH_3: &str = "TBU2RRGLXH3E5CQHTD3ODLDF2BWDCYUSSBLLZ5GNW7JXHDIYKXZWHXL7";
const HASH_X_3: &str = "XBU2RRGLXH3E5CQHTD3ODLDF2BWDCYUSSBLLZ5GNW7JXHDIYKXZWGTOG";

fn pairs(entries: &[DataEntry]) -> Vec<(String, String)> {
    entries.iter().map(|e| (e.title.clone(), e.content.clone())).collect()
}

fn expect(list: &[(&str, &str)]) -> Vec<(String, String)> {
    list.iter().map(|(t, c)| (t.to_string(), c.to_string())).collect()
}

fn account_1() -> PublicKey<'static> {
    PublicKey::PublicKeyTypeEd25519(Uint256(&KEY_1))
}

fn usd() -> Asset<'static> {
    Asset::CreditAlphanum4(AlphaNum4 { asset_code: AssetCode4(b"USD\0"), issuer: account_1() })
}

fn long_coin() -> Asset<'static> {
    Asset::CreditAlphanum12(AlphaNum12 {
        asset_code: AssetCode12(b"LONGCOIN\0\0\0\0"),
        issuer: PublicKey::PublicKeyTypeEd25519(Uint256(&KEY_2)),
    })
}

#[test]
fn an_account_is_created_with_a_balance() {
    let op = CreateAccountOp { destination: account_1(), starting_balance: 1_000_000_000 };
    assert_eq!(
        pairs(&format_create_account_op(&op)),
        expect(&[("Send", "100 XLM"), ("To", ADDRESS_1)])
    );
    let small = CreateAccountOp { destination: account_1(), starting_balance: 1 };
    assert_eq!(format_create_account_op(&small)[0].content, "0.0000001 XLM");
    let body = OperationBody::CreateAccount(op);
    let whole = Operation { source_account: None, body };
    assert_eq!(get_operation_intent(&whole, ADDRESS_2), Some("send XLM".to_string()));
}

#[test]
fn a_payment_names_amount_asset_and_receiver() {
    let op = PaymentOp {
        destination: MuxedAccount::KeyTypeMuxedEd25519(MuxedEd25519 {
            id: 123456,
            ed25519: Uint256(&KEY_1),
        }),
        asset: long_coin(),
        amount: 12_345_678_901,
    };
    assert_eq!(
        pairs(&format_payment_op(&op)),
        expect(&[("Send", "1,234.5678901 LONGCOIN@GA7..VSGZ"), ("To", MUXED_1)])
    );
    let native = PaymentOp {
        destination: MuxedAccount::KeyTypeEd25519(Uint256(&KEY_2)),
        asset: Asset::Native,
        amount: 10_000_000,
    };
    assert_eq!(
        pairs(&format_payment_op(&native)),
        expect(&[("Send", "1 XLM"), ("To", ADDRESS_2)])
    );
}

#[test]
fn amounts_are_joined_to_their_asset() {
    assert_eq!(format_amount_with_asset(10_000_000u64, &Asset::Native), "1 XLM");
    assert_eq!(format_amount_with_asset(0i64, &Asset::Native), "0 XLM");
    assert_eq!(format_amount_with_asset(-15_000_000i64, &usd()), "-1.5 USD@GA3..HES5");
    assert_eq!(
        format_amount_with_asset(u64::MAX, &long_coin()),
        "1,844,674,407,370.9551615 LONGCOIN@GA7..VSGZ"
    );
}

#[test]
fn a_path_payment_with_an_exact_receipt_is_a_payment_or_a_swap() {
    let op = PathPaymentStrictReceiveOp {
        send_asset: Asset::Native,
        send_max: 50_000_000,
        destination: MuxedAccount::KeyTypeEd25519(Uint256(&KEY_1)),
        dest_asset: usd(),
        dest_amount: 25_000_000,
    };
    assert_eq!(
        pairs(&format_path_payment_strict_receive_op(&op, ADDRESS_1)),
        expect(&[("Send Max", "5 XLM"), ("Receive", "2.5 USD@GA3..HES5")])
    );
    assert_eq!(
        pairs(&format_path_payment_strict_receive_op(&op, ADDRESS_2)),
        expect(&[
            ("Send Max", "5 XLM"),
            ("To", ADDRESS_1),
            ("They Receive", "2.5 USD@GA3..HES5"),
        ])
    );
    let whole = Operation {
        source_account: Some(MuxedAccount::KeyTypeEd25519(Uint256(&KEY_1))),
        body: OperationBody::PathPaymentStrictReceive(op),
    };
    assert_eq!(get_operation_intent(&whole, ADDRESS_2), Some("swap".to_string()));
    assert_eq!(
        pairs(&format_operation(&whole, &FormatConfig::default(), ADDRESS_2).unwrap()),
        expect(&[
            ("Send Max", "5 XLM"),
            ("Receive", "2.5 USD@GA3..HES5"),
            ("Op Source", ADDRESS_1),
        ])
    );
}

#[test]
fn a_path_payment_with_an_exact_sending_is_a_payment_or_a_swap() {
    let op = PathPaymentStrictSendOp {
        send_asset: usd(),
        send_amount: 1,
        destination: MuxedAccount::KeyTypeEd25519(Uint256(&KEY_2)),
        dest_asset: Asset::Native,
        dest_min: 70_000_000,
    };
    assert_eq!(
        pairs(&format_path_payment_strict_send_op(&op, ADDRESS_2)),
        expect(&[("Send", "0.0000001 USD@GA3..HES5"), ("Receive Min", "7 XLM")])
    );
    assert_eq!(
        pairs(&format_path_payment_strict_send_op(&op, ADDRESS_1)),
        expect(&[
            ("Send", "0.0000001 USD@GA3..HES5"),
            ("To", ADDRESS_2),
            ("They Receive Min", "7 XLM"),
        ])
    );
    let whole = Operation { source_account: None, body: OperationBody::PathPaymentStrictSend(op) };
    assert_eq!(get_operation_intent(&whole, ADDRESS_1), Some("send USD".to_string()));
}

#[test]
fn a_passive_offer_shows_what_is_sold_and_the_price() {
    let op = CreatePassiveSellOfferOp {
        selling: Asset::Native,
        buying: usd(),
        amount: 30_000_000,
        price: Price { n: 1, d: 4 },
    };
    assert_eq!(
        pairs(&format_create_passive_sell_offer_op(&op).unwrap()),
        expect(&[("Selling", "3 XLM"), ("Buying", "USD@GA3..HES5"), ("Price", "0.25 USD/XLM")])
    );
    let bad = CreatePassiveSellOfferOp {
        selling: Asset::Native,
        buying: usd(),
        amount: 30_000_000,
        price: Price { n: 1, d: 0 },
    };
    assert_eq!(format_create_passive_sell_offer_op(&bad), Err(FormatError::InvalidPrice));
    let whole = Operation { source_account: None, body: OperationBody::CreatePassiveSellOffer(bad) };
    assert_eq!(
        format_operation(&whole, &FormatConfig::default(), ADDRESS_1),
        Err(FormatError::InvalidPrice)
    );
    assert_eq!(get_operation_intent(&whole, ADDRESS_1), Some("create offer".to_string()));
}

#[test]
fn trust_is_allowed_by_flags() {
    let op = AllowTrustOp {
        trustor: account_1(),
        asset: AssetCode::AssetCode4(AssetCode4(b"EUR\0")),
        authorize: 1,
    };
    assert_eq!(
        pairs(&format_allow_trust_op(&op)),
        expect(&[
            ("Operation Type", "Allow Trust"),
            ("Trustor", ADDRESS_1),
            ("Asset Code", "EUR"),
            ("Authorize", "AUTHORIZED"),
        ])
    );
    let none = AllowTrustOp {
        trustor: account_1(),
        asset: AssetCode::AssetCode12(AssetCode12(b"EUROTOKEN\0\0\0")),
        authorize: 0,
    };
    let entries = format_allow_trust_op(&none);
    assert_eq!(entries[2].content, "EUROTOKEN");
    assert_eq!(entries[3].content, "UNAUTHORIZED");
}

#[test]
fn an_account_is_merged_into_another() {
    let destination = MuxedAccount::KeyTypeEd25519(Uint256(&KEY_2));
    assert_eq!(
        pairs(&format_account_merge_op(&destination)),
        expect(&[
            ("Account Merge", "Send all XLM to destination and close account"),
            ("Destination", ADDRESS_2),
        ])
    );
    let whole = Operation { source_account: None, body: OperationBody::AccountMerge(destination) };
    assert_eq!(get_operation_intent(&whole, ADDRESS_1), Some("merge account".to_string()));
}

#[test]
fn the_sequence_number_is_raised() {
    assert_eq!(
        pairs(&format_bump_sequence_op(&BumpSequenceOp { bump_to: 9_007_199_254_740_993 })),
        expect(&[("Operation Type", "Bump Sequence"), ("Bump To", "9007199254740993")])
    );
    assert_eq!(format_bump_sequence_op(&BumpSequenceOp { bump_to: -1 })[1].content, "-1");
    assert_eq!(
        format_bump_sequence_op(&BumpSequenceOp { bump_to: i64::MIN })[1].content,
        "-9223372036854775808"
    );
}

#[test]
fn claimable_balances_are_named_by_their_identifier() {
    let claim = ClaimClaimableBalanceOp {
        balance_id: ClaimableBalanceId::ClaimableBalanceIdTypeV0(Uint256(&KEY_1)),
    };
    assert_eq!(
        pairs(&format_claim_claimable_balance_op(&claim)),
        expect(&[("Operation Type", "Claim Claimable Balance"), ("Balance ID", BALANCE_1)])
    );
    let clawback = ClawbackClaimableBalanceOp {
        balance_id: ClaimableBalanceId::ClaimableBalanceIdTypeV0(Uint256(&KEY_2)),
    };
    assert_eq!(
        pairs(&format_clawback_claimable_balance_op(&clawback)),
        expect(&[("Operation Type", "Clawback Claimable Balance"), ("Balance ID", BALANCE_2)])
    );
}

#[test]
fn a_sponsorship_begins_and_ends() {
    let op = BeginSponsoringFutureReservesOp { sponsored_id: account_1() };
    assert_eq!(
        pairs(&format_begin_sponsoring_future_reserves_op(&op)),
        expect(&[
            ("Operation Type", "Begin Sponsoring Future Reserves"),
            ("Sponsored ID", ADDRESS_1),
        ])
    );
    let begin =
        Operation { source_account: None, body: OperationBody::BeginSponsoringFutureReserves(op) };
    assert_eq!(get_operation_intent(&begin, ADDRESS_1), None);
    let end = Operation { source_account: None, body: OperationBody::EndSponsoringFutureReserves };
    assert_eq!(
        pairs(&format_operation(&end, &FormatConfig::default(), ADDRESS_1).unwrap()),
        expect(&[("Operation Type", "End Sponsoring Future Reserves")])
    );
    assert_eq!(get_operation_intent(&end, ADDRESS_1), None);
    let inflation = Operation { source_account: None, body: OperationBody::Inflation };
    assert_eq!(
        pairs(&format_operation(&inflation, &FormatConfig::default(), ADDRESS_1).unwrap()),
        expect(&[("Operation Type", "Inflation")])
    );
}

#[test]
fn each_kind_of_sponsorship_is_revoked() {
    let trust_line = RevokeSponsorshipOp::LedgerEntry(LedgerKey::Trustline(LedgerKeyTrustLine {
        account_id: account_1(),
        asset: TrustLineAsset::PoolShare(Uint256(&KEY_1)),
    }));
    assert_eq!(
        pairs(&format_revoke_sponsorship_op(&trust_line).unwrap()),
        expect(&[
            ("Operation Type", "Revoke Sponsorship (TRUSTLINE)"),
            ("Account ID", ADDRESS_1),
            ("Asset", &format!("Liquidity Pool ID: {}", POOL_1)),
        ])
    );
    let offer = RevokeSponsorshipOp::LedgerEntry(LedgerKey::Offer(LedgerKeyOffer {
        seller_id: account_1(),
        offer_id: 42,
    }));
    assert_eq!(
        pairs(&format_revoke_sponsorship_op(&offer).unwrap()),
        expect(&[
            ("Operation Type", "Revoke Sponsorship (OFFER)"),
            ("Seller ID", ADDRESS_1),
            ("Offer ID", "42"),
        ])
    );
    let data = RevokeSponsorshipOp::LedgerEntry(LedgerKey::Data(LedgerKeyData {
        account_id: account_1(),
        data_name: StringM::new(b"config"),
    }));
    assert_eq!(
        pairs(&format_revoke_sponsorship_op(&data).unwrap()),
        expect(&[
            ("Operation Type", "Revoke Sponsorship (DATA)"),
            ("Account ID", ADDRESS_1),
            ("Data Name", "config"),
        ])
    );
    let balance = RevokeSponsorshipOp::LedgerEntry(LedgerKey::ClaimableBalance(
        LedgerKeyClaimableBalance {
            balance_id: ClaimableBalanceId::ClaimableBalanceIdTypeV0(Uint256(&KEY_1)),
        },
    ));
    assert_eq!(
        pairs(&format_revoke_sponsorship_op(&balance).unwrap()),
        expect(&[
            ("Operation Type", "Revoke Sponsorship (CLAIMABLE_BALANCE)"),
            ("Balance ID", BALANCE_1),
        ])
    );
    let pool = RevokeSponsorshipOp::LedgerEntry(LedgerKey::LiquidityPool(LedgerKeyLiquidityPool {
        liquidity_pool_id: Uint256(&KEY_1),
    }));
    assert_eq!(
        pairs(&format_revoke_sponsorship_op(&pool).unwrap()),
        expect(&[("Operation Type", "Revoke Sponsorship (LIQUIDITY_POOL)"), ("Pool ID", POOL_1)])
    );
}

#[test]
fn signers_are_revoked_by_their_key() {
    let pre_auth = RevokeSponsorshipOp::Signer(RevokeSponsorshipOpSigner {
        account_id: account_1(),
        signer_key: SignerKey::SignerKeyTypePreAuthTx(Uint256(&KEY_3)),
    });
    assert_eq!(
        pairs(&format_revoke_sponsorship_op(&pre_auth).unwrap()),
        expect(&[
            ("Operation Type", "Revoke Sponsorship (SIGNER_KEY)"),
            ("Account ID", ADDRESS_1),
            ("Signer Key", PRE_AUTH_3),
        ])
    );
    let hash_x = RevokeSponsorshipOp::Signer(RevokeSponsorshipOpSigner {
        account_id: account_1(),
        signer_key: SignerKey::SignerKeyTypeHashX(Uint256(&KEY_3)),
    });
    assert_eq!(format_revoke_sponsorship_op(&hash_x).unwrap()[2].content, HASH_X_3);
    let payload: Vec<u8> = (1u8..=32).collect();
    let signed = RevokeSponsorshipOp::Signer(RevokeSponsorshipOpSigner {
        account_id: account_1(),
        signer_key: SignerKey::SignerKeyTypeEd25519SignedPayload(Ed25519SignedPayload {
            ed25519: Uint256(&KEY_2),
            payload: &payload,
        }),
    });
    let whole = Operation { source_account: None, body: OperationBody::RevokeSponsorship(signed) };
    assert!(check_operation_fits(&whole));
    let entries = format_operation(&whole, &FormatConfig::default(), ADDRESS_1).unwrap();
    assert_eq!(
        entries[2].content,
        "PA7QYNF7SOWQ3GLR2BGMZEHXAVIRZA4KVWLTJJFC7MGXUA74P7UJUAAAAAQACAQDAQCQMBYIBEFAWDANBYHRAEISCMKBKFQXDAMRUGY4DUPB6IBZGM"
    );
    assert_eq!(get_operation_intent(&whole, ADDRESS_1), Some("revoke sponsorship".to_string()));
}

#[test]
fn an_asset_is_clawed_back() {
    let op = ClawbackOp {
        asset: usd(),
        from: MuxedAccount::KeyTypeEd25519(Uint256(&KEY_2)),
        amount: 5_000_000,
    };
    assert_eq!(
        pairs(&format_clawback_op(&op)),
        expect(&[
            ("Operation Type", "Clawback"),
            ("Clawback", "0.5 USD@GA3..HES5"),
            ("From", ADDRESS_2),
        ])
    );
}

#[test]
fn trust_line_flags_are_cleared_and_set() {
    let op = SetTrustLineFlagsOp {
        trustor: account_1(),
        asset: usd(),
        clear_flags: 0,
        set_flags: 7,
    };
    assert_eq!(
        pairs(&format_set_trust_line_flags_op(&op)),
        expect(&[
            ("Operation Type", "Set Trust Line Flags"),
            ("Trustor", ADDRESS_1),
            ("Asset", "USD@GA3..HES5"),
            ("Clear Flags", "[none]"),
            (
                "Set Flags",
                "AUTHORIZED, AUTHORIZED_TO_MAINTAIN_LIABILITIES, TRUSTLINE_CLAWBACK_ENABLED",
            ),
        ])
    );
}

#[test]
fn trust_line_assets_are_named() {
    assert_eq!(format_trust_line_asset(&TrustLineAsset::Native), "XLM");
    assert_eq!(
        format_trust_line_asset(&TrustLineAsset::CreditAlphanum4(AlphaNum4 {
            asset_code: AssetCode4(b"USD\0"),
            issuer: account_1(),
        })),
        "USD@GA3..HES5"
    );
    assert_eq!(
        format_trust_line_asset(&TrustLineAsset::CreditAlphanum12(AlphaNum12 {
            asset_code: AssetCode12(b"LONGCOIN\0\0\0\0"),
            issuer: account_1(),
        })),
        "LONGCOIN@GA3..HES5"
    );
    assert_eq!(
        format_trust_line_asset(&TrustLineAsset::PoolShare(Uint256(&KEY_1))),
        format!("Liquidity Pool ID: {}", POOL_1)
    );
}

#[test]
fn pools_take_deposits_and_give_withdrawals() {
    let deposit = LiquidityPoolDepositOp {
        liquidity_pool_id: Uint256(&KEY_1),
        max_amount_a: 10_000_000,
        max_amount_b: 25_000_000,
        min_price: Price { n: 1, d: 2 },
        max_price: Price { n: 10_000_000, d: 3 },
    };
    assert_eq!(
        pairs(&format_liquidity_pool_deposit_op(&deposit).unwrap()),
        expect(&[
            ("Operation Type", "Liquidity Pool Deposit"),
            ("Pool ID", POOL_1),
            ("Max Amount A", "1"),
            ("Max Amount B", "2.5"),
            ("Min Price", "0.5"),
            ("Max Price", "3,333,333.3333333"),
        ])
    );
    let bad = LiquidityPoolDepositOp {
        liquidity_pool_id: Uint256(&KEY_1),
        max_amount_a: 10_000_000,
        max_amount_b: 25_000_000,
        min_price: Price { n: 1, d: 2 },
        max_price: Price { n: -1, d: 3 },
    };
    assert_eq!(format_liquidity_pool_deposit_op(&bad), Err(FormatError::InvalidPrice));
    let whole = Operation { source_account: None, body: OperationBody::LiquidityPoolDeposit(bad) };
    assert_eq!(get_operation_intent(&whole, ADDRESS_1), Some("deposit into pool ".to_string()));
    let withdraw = LiquidityPoolWithdrawOp {
        liquidity_pool_id: Uint256(&KEY_1),
        amount: 1_000_000_000_000,
        min_amount_a: 1,
        min_amount_b: 0,
    };
    assert_eq!(
        pairs(&format_liquidity_pool_withdraw_op(&withdraw)),
        expect(&[
            ("Operation Type", "Liquidity Pool Withdraw"),
            ("Pool ID", POOL_1),
            ("Amount", "100,000"),
            ("Min Amount A", "0.0000001"),
            ("Min Amount B", "0"),
        ])
    );
}

#[test]
fn footprints_are_extended_and_restored() {
    let extend = ExtendFootprintTTLOp { ext: ExtensionPoint::V0, extend_to: 1000 };
    assert_eq!(
        pairs(&format_extend_footprint_ttl_op(&extend)),
        expect(&[("Operation Type", "Extend Footprint TTL")])
    );
    let restore = RestoreFootprintOp { ext: ExtensionPoint::V0 };
    assert_eq!(
        pairs(&format_restore_footprint_op(&restore)),
        expect(&[("Operation Type", "Restore Footprint")])
    );
    let whole = Operation { source_account: None, body: OperationBody::ExtendFootprintTTL(extend) };
    assert_eq!(get_operation_intent(&whole, ADDRESS_1), Some("extend footprint TTL".to_string()));
    let whole = Operation { source_account: None, body: OperationBody::RestoreFootprint(restore) };
    assert_eq!(get_operation_intent(&whole, ADDRESS_1), Some("restore footprint".to_string()));
}

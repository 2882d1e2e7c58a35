use stellarlib::formatter::{DataEntry, FormatConfig};
use stellarlib::parser::{
    Asset, Memo, MuxedAccount, Operation, OperationBody, ParseError, Parser, Preconditions,
    TaggedTransaction, TransactionSignaturePayload, XdrParse,
};
use stellarlib::review::{prepare_sign_soroban_auth, prepare_sign_tx};
use stellarlib::sw::AppSW;

const PUBLIC_NETWORK: [u8; 32] = [
    0x7a, 0xc3, 0x39, 0x97, 0x54, 0x4e, 0x31, 0x75, 0xd2, 0x66, 0xbd, 0x02, 0x24, 0x39, 0xb2, 0x2c,
    0xdb, 0x16, 0x50, 0x8c, 0x01, 0x16, 0x3f, 0x26, 0xe5, 0xcb, 0x2a, 0x3e, 0x10, 0x45, 0xa9, 0x79,
];

const TEST_NETWORK: [u8; 32] = [
    0xce, 0xe0, 0x30, 0x2d, 0x59, 0x84, 0x4d, 0x32, 0xbd, 0xca, 0x91, 0x5c, 0x82, 0x03, 0xdd, 0x44,
    0xb3, 0x3f, 0xbb, 0x7e, 0xdc, 0x19, 0x05, 0x1e, 0xa3, 0x7a, 0xbe, 0xdf, 0x28, 0xec, 0xd4, 0x72,
];

const KEY_1: [u8; 32] = [
    0x36, 0x3e, 0xaa, 0x38, 0x67, 0x84, 0x1f, 0xba, 0xd0, 0xf4, 0xed, 0x88, 0xc7, 0x79, 0xe4, 0xfe,
    0x66, 0xe5, 0x6a, 0x24, 0x70, 0xdc, 0x98, 0xc0, 0xec, 0x9c, 0x07, 0x3d, 0x05, 0xc7, 0xb1, 0x03,
];

const ADDRESS_1: &str = "GA3D5KRYM6CB7OWQ6TWYRR3Z4T7GNZLKERYNZGGA5SOAOPIFY6YQHES5";

const KEY_2: [u8; 32] = [
    0x3f, 0x0c, 0x34, 0xbf, 0x93, 0xad, 0x0d, 0x99, 0x71, 0xd0, 0x4c, 0xcc, 0x90, 0xf7, 0x05, 0x51,
    0x1c, 0x83, 0x8a, 0xad, 0x97, 0x34, 0xa4, 0xa2, 0xfb, 0x0d, 0x7a, 0x03, 0xfc, 0x7f, 0xe8, 0x9a,
];

const ADDRESS_2: &str = "GA7QYNF7SOWQ3GLR2BGMZEHXAVIRZA4KVWLTJJFC7MGXUA74P7UJVSGZ";

fn account(key: &[u8; 32]) -> Vec<u8> {
    let mut v = vec![0, 0, 0, 0];
    v.extend_from_slice(key);
    v
}

fn plain_transaction(source: &[u8; 32], fee: u32, seq: i64, op_count: u32) -> Vec<u8> {
    let mut v = account(source);
    v.extend_from_slice(&fee.to_be_bytes());
    v.extend_from_slice(&seq.to_be_bytes());
    v.extend_from_slice(&[0, 0, 0, 0]); // no preconditions
    v.extend_from_slice(&[0, 0, 0, 0]); // no memo
    v.extend_from_slice(&op_count.to_be_bytes());
    v
}

fn payment(destination: &[u8; 32], amount: i64) -> Vec<u8> {
    let mut v = vec![0, 0, 0, 0]; // no source of its own
    v.extend_from_slice(&[0, 0, 0, 1]); // payment
    v.extend_from_slice(&account(destination));
    v.extend_from_slice(&[0, 0, 0, 0]); // native asset
    v.extend_from_slice(&amount.to_be_bytes());
    v
}

fn single_payment(network: &[u8; 32]) -> Vec<u8> {
    let mut v = network.to_vec();
    v.extend_from_slice(&[0, 0, 0, 2]);
    v.extend_from_slice(&plain_transaction(&KEY_1, 100, 7, 1));
    v.extend_from_slice(&payment(&KEY_2, 10_000_000));
    v
}

fn fee_bump(network: &[u8; 32]) -> Vec<u8> {
    let mut v = network.to_vec();
    v.extend_from_slice(&[0, 0, 0, 5]);
    v.extend_from_slice(&account(&KEY_2));
    v.extend_from_slice(&400i64.to_be_bytes());
    v.extend_from_slice(&[0, 0, 0, 2]);
    v.extend_from_slice(&plain_transaction(&KEY_1, 100, 7, 1));
    v.extend_from_slice(&payment(&KEY_2, 10_000_000));
    v
}

fn quiet() -> FormatConfig {
    FormatConfig {
        show_sequence_and_nonce: false,
        show_preconditions: false,
        show_nested_authorization: false,
        show_tx_source_if_matches_signer: false,
    }
}

fn pairs(entries: &[DataEntry]) -> Vec<(String, String)> {
    entries.iter().map(|e| (e.title.clone(), e.content.clone())).collect()
}

fn expect(list: &[(&str, &str)]) -> Vec<(String, String)> {
    list.iter().map(|(t, c)| (t.to_string(), c.to_string())).collect()
}

#[test]
fn a_single_payment_decodes_field_by_field() {
    let data = single_payment(&PUBLIC_NETWORK);
    let mut parser = Parser::new(&data);
    let payload = TransactionSignaturePayload::parse(&mut parser).unwrap();
    assert_eq!(payload.network_id.as_bytes(), &PUBLIC_NETWORK);
    let tx = match &payload.tagged_transaction {
        TaggedTransaction::EnvelopeTypeTx(tx) => tx,
        other => panic!("unexpected envelope {:?}", other),
    };
    assert_eq!(tx.source_account.to_string(), ADDRESS_1);
    assert_eq!(tx.fee, 100);
    assert_eq!(tx.seq_num, 7);
    assert_eq!(tx.cond, Preconditions::PrecondNone);
    assert_eq!(tx.memo, Memo::MemoNone);
    assert_eq!(tx.op_count, 1);
    let op = Operation::parse(&mut parser).unwrap();
    assert_eq!(parser.offset(), data.len());
    assert!(op.source_account.is_none());
    match &op.body {
        OperationBody::Payment(p) => {
            assert_eq!(p.amount, 10_000_000);
            assert!(p.asset.is_native());
            assert_eq!(p.asset, Asset::Native);
            assert!(matches!(p.destination, MuxedAccount::KeyTypeEd25519(_)));
            assert_eq!(p.destination.to_string(), ADDRESS_2);
        }
        other => panic!("unexpected operation {:?}", other),
    }
}

#[test]
fn a_message_cut_short_overflows() {
    let data = single_payment(&PUBLIC_NETWORK);
    let envelope_len = 32 + 4 + 36 + 4 + 8 + 4 + 4 + 4;
    for cut in (0..data.len()).step_by(4) {
        let short = &data[..cut];
        let mut parser = Parser::new(short);
        let payload = TransactionSignaturePayload::parse(&mut parser);
        if cut < envelope_len {
            assert_eq!(payload.err(), Some(ParseError::BufferOverflow), "cut at {}", cut);
        } else {
            assert!(payload.is_ok());
            assert_eq!(
                Operation::parse(&mut parser).err(),
                Some(ParseError::BufferOverflow),
                "cut at {}",
                cut
            );
        }
    }
    // one byte less than the whole
    let mut parser = Parser::new(&data[..data.len() - 1]);
    assert!(TransactionSignaturePayload::parse(&mut parser).is_ok());
    assert_eq!(Operation::parse(&mut parser).err(), Some(ParseError::BufferOverflow));
}

#[test]
fn unknown_discriminants_are_invalid_types() {
    let mut data = single_payment(&PUBLIC_NETWORK);
    data[35] = 9; // an envelope type that is no transaction
    let mut parser = Parser::new(&data);
    assert_eq!(
        TransactionSignaturePayload::parse(&mut parser).err(),
        Some(ParseError::InvalidType(9))
    );
    data[35] = 77; // no envelope type at all
    let mut parser = Parser::new(&data);
    assert_eq!(
        TransactionSignaturePayload::parse(&mut parser).err(),
        Some(ParseError::InvalidType(77))
    );
    data[35] = 2;
    data[36 + 3] = 1; // a source account of a kind that no account has
    let mut parser = Parser::new(&data);
    assert_eq!(
        TransactionSignaturePayload::parse(&mut parser).err(),
        Some(ParseError::InvalidType(1))
    );
}

#[test]
fn single_payment_shows_fee_amount_and_destination() {
    let data = single_payment(&PUBLIC_NETWORK);
    let review = prepare_sign_tx(&data, &KEY_1, &quiet(), false).unwrap();
    assert_eq!(
        pairs(&review.entries),
        expect(&[("Max Fee", "0.00001 XLM"), ("Send", "1 XLM"), ("To", ADDRESS_2)])
    );
    assert_eq!(review.title, "Review transaction to send XLM");
    assert_eq!(review.finish_title, "Sign transaction to send XLM?");
    assert!(!review.blind);
}

#[test]
fn the_source_is_shown_where_it_is_not_the_signer() {
    let data = single_payment(&PUBLIC_NETWORK);
    let review = prepare_sign_tx(&data, &KEY_2, &quiet(), false).unwrap();
    assert_eq!(
        pairs(&review.entries),
        expect(&[
            ("Max Fee", "0.00001 XLM"),
            ("Tx Source", ADDRESS_1),
            ("Send", "1 XLM"),
            ("To", ADDRESS_2)
        ])
    );
    let mut config = quiet();
    config.show_tx_source_if_matches_signer = true;
    config.show_sequence_and_nonce = true;
    let review = prepare_sign_tx(&data, &KEY_1, &config, false).unwrap();
    assert_eq!(
        pairs(&review.entries),
        expect(&[
            ("Max Fee", "0.00001 XLM"),
            ("Sequence Num", "7"),
            ("Tx Source", ADDRESS_1),
            ("Send", "1 XLM"),
            ("To", ADDRESS_2)
        ])
    );
}

#[test]
fn the_network_is_named_where_it_is_not_the_public_one() {
    let data = single_payment(&TEST_NETWORK);
    let review = prepare_sign_tx(&data, &KEY_1, &quiet(), false).unwrap();
    assert_eq!(review.entries[0], DataEntry::from_parts("Network", "Testnet"));
    assert_eq!(review.entries.len(), 4);
    let data = single_payment(&[7u8; 32]);
    let review = prepare_sign_tx(&data, &KEY_1, &quiet(), false).unwrap();
    assert_eq!(review.entries[0], DataEntry::new("Network", "Unknown".to_string()));
}

#[test]
fn a_fee_bump_always_shows_the_inner_source() {
    let data = fee_bump(&PUBLIC_NETWORK);
    for signer in [&KEY_1, &KEY_2] {
        let review = prepare_sign_tx(&data, signer, &quiet(), false).unwrap();
        assert_eq!(
            pairs(&review.entries),
            expect(&[
                ("Fee Source", ADDRESS_2),
                ("Max Fee", "0.00004 XLM"),
                ("Inner Tx", "The following details are for the inner transaction"),
                ("Max Fee", "0.00001 XLM"),
                ("Tx Source", ADDRESS_1),
                ("Send", "1 XLM"),
                ("To", ADDRESS_2)
            ])
        );
        assert_eq!(review.title, "Review fee bump transaction");
        assert_eq!(review.finish_title, "Sign fee bump transaction?");
    }
}

#[test]
fn several_operations_are_numbered() {
    let mut data = PUBLIC_NETWORK.to_vec();
    data.extend_from_slice(&[0, 0, 0, 2]);
    data.extend_from_slice(&plain_transaction(&KEY_1, 200, 8, 2));
    data.extend_from_slice(&payment(&KEY_2, 25_000_000));
    data.extend_from_slice(&[0, 0, 0, 0, 0, 0, 0, 9]); // inflation
    let review = prepare_sign_tx(&data, &KEY_1, &quiet(), false).unwrap();
    assert_eq!(
        pairs(&review.entries),
        expect(&[
            ("Max Fee", "0.00002 XLM"),
            ("Operation", "1 of 2"),
            ("Send", "2.5 XLM"),
            ("To", ADDRESS_2),
            ("Operation", "2 of 2"),
            ("Operation Type", "Inflation")
        ])
    );
    assert_eq!(review.title, "Review transaction");
    assert_eq!(review.finish_title, "Sign transaction?");
    // the second operation is missing
    let short = &data[..data.len() - 8];
    assert_eq!(prepare_sign_tx(short, &KEY_1, &quiet(), false).err(), Some(AppSW::DataParsingFail));
}

#[test]
fn what_cannot_be_decoded_or_shown_is_refused() {
    assert_eq!(prepare_sign_tx(&[], &KEY_1, &quiet(), true).err(), Some(AppSW::DataParsingFail));
    // an offer with a price whose denominator is zero
    let mut data = PUBLIC_NETWORK.to_vec();
    data.extend_from_slice(&[0, 0, 0, 2]);
    data.extend_from_slice(&plain_transaction(&KEY_1, 100, 7, 1));
    data.extend_from_slice(&[0, 0, 0, 0, 0, 0, 0, 4]); // passive sell offer
    data.extend_from_slice(&[0, 0, 0, 0, 0, 0, 0, 0]); // native for native
    data.extend_from_slice(&5i64.to_be_bytes());
    data.extend_from_slice(&[0, 0, 0, 1, 0, 0, 0, 0]); // 1 / 0
    assert_eq!(
        prepare_sign_tx(&data, &KEY_1, &quiet(), true).err(),
        Some(AppSW::DataFormattingFail)
    );
}

fn upload_wasm() -> Vec<u8> {
    let mut data = PUBLIC_NETWORK.to_vec();
    data.extend_from_slice(&[0, 0, 0, 2]);
    data.extend_from_slice(&plain_transaction(&KEY_1, 100, 7, 1));
    data.extend_from_slice(&[0, 0, 0, 0, 0, 0, 0, 24]); // invoke host function
    data.extend_from_slice(&[0, 0, 0, 2]); // upload
    data.extend_from_slice(&[0, 0, 0, 3, 1, 2, 3, 0]); // three bytes of code
    data.extend_from_slice(&[0, 0, 0, 0]); // no authorizations
    data
}

#[test]
fn host_functions_need_blind_signing() {
    let data = upload_wasm();
    assert_eq!(
        prepare_sign_tx(&data, &KEY_1, &quiet(), false).err(),
        Some(AppSW::BlindSigningModeNotEnabled)
    );
    let review = prepare_sign_tx(&data, &KEY_1, &quiet(), true).unwrap();
    assert!(review.blind);
    assert_eq!(review.title, "Review transaction to upload WASM");
    assert_eq!(
        pairs(&review.entries),
        expect(&[("Max Fee", "0.00001 XLM"), ("Upload WASM", "Upload Smart Contract WASM")])
    );
}

fn authorization() -> Vec<u8> {
    let mut data = vec![0, 0, 0, 9];
    data.extend_from_slice(&TEST_NETWORK);
    data.extend_from_slice(&(-5i64).to_be_bytes()); // nonce
    data.extend_from_slice(&1234567u32.to_be_bytes()); // expiration
    // the invocation: a contract function
    data.extend_from_slice(&[0, 0, 0, 0]);
    data.extend_from_slice(&[0, 0, 0, 1]); // a contract address
    data.extend_from_slice(&[1u8; 32]);
    data.extend_from_slice(&[0, 0, 0, 5, b'h', b'e', b'l', b'l', b'o', 0, 0, 0]);
    data.extend_from_slice(&[0, 0, 0, 2]); // two arguments
    data.extend_from_slice(&[0, 0, 0, 3, 0, 0, 0x30, 0x39]); // u32 12345
    data.extend_from_slice(&[0, 0, 0, 0, 0, 0, 0, 1]); // true
    // one invocation under it: the creation of an asset contract
    data.extend_from_slice(&[0, 0, 0, 1]);
    data.extend_from_slice(&[0, 0, 0, 1]); // create contract
    data.extend_from_slice(&[0, 0, 0, 1, 0, 0, 0, 0]); // from the native asset
    data.extend_from_slice(&[0, 0, 0, 1]); // the asset contract
    data.extend_from_slice(&[0, 0, 0, 0]); // nothing under it
    data
}

#[test]
fn an_authorization_shows_its_invocations() {
    let data = authorization();
    let config = FormatConfig::default();
    assert_eq!(
        prepare_sign_soroban_auth(&data, &config, false).err(),
        Some(AppSW::BlindSigningModeNotEnabled)
    );
    let review = prepare_sign_soroban_auth(&data, &config, true).unwrap();
    assert!(review.blind);
    assert_eq!(review.title, "Review Soroban Authorization");
    assert_eq!(review.finish_title, "Sign Soroban Authorization?");
    assert_eq!(
        pairs(&review.entries),
        expect(&[
            ("Network", "Testnet"),
            ("Nonce", "-5"),
            ("Sig Exp Ledger", "1234567"),
            ("Contract ID", "CAAQCAIBAEAQCAIBAEAQCAIBAEAQCAIBAEAQCAIBAEAQCAIBAEAQC526"),
            ("Function", "hello"),
            ("Arg 1 of 2", "12,345"),
            ("Arg 2 of 2", "true"),
            ("Nested Authorization", "1"),
            ("Create Contract", "Deploy Stellar asset contract")
        ])
    );
    let review = prepare_sign_soroban_auth(&data, &quiet(), true).unwrap();
    assert_eq!(review.entries.len(), 6);
    assert_eq!(review.entries[1].title, "Sig Exp Ledger");
    assert_eq!(
        prepare_sign_soroban_auth(&data[..data.len() - 4], &config, true).err(),
        Some(AppSW::DataParsingFail)
    );
}

use stellarlib::parser::{
    AlphaNum4, Asset, AssetCode4, BumpSequenceOp, FeeBumpTransaction, InnerTransaction, Memo,
    MuxedAccount, Operation, OperationBody, PaymentOp, Preconditions, PublicKey, StringM,
    TaggedTransaction, Transaction, TransactionSignaturePayload, Uint256,
};
use stellarlib::swap_validation::{
    extract_transaction, validate_amount, validate_destination, validate_envelope, validate_fee,
    validate_memo, validate_network, validate_payment_operation, SwapTxParams,
};

const PUBLIC_NETWORK: [u8; 32] = [
    0x7a, 0xc3, 0x39, 0x97, 0x54, 0x4e, 0x31, 0x75, 0xd2, 0x66, 0xbd, 0x02, 0x24, 0x39, 0xb2, 0x2c,
    0xdb, 0x16, 0x50, 0x8c, 0x01, 0x16, 0x3f, 0x26, 0xe5, 0xcb, 0x2a, 0x3e, 0x10, 0x45, 0xa9, 0x79,
];

const TEST_NETWORK: [u8; 32] = [
    0xce, 0xe0, 0x30, 0x2d, 0x59, 0x84, 0x4d, 0x32, 0xbd, 0xca, 0x91, 0x5c, 0x82, 0x03, 0xdd, 0x44,
    0xb3, 0x3f, 0xbb, 0x7e, 0xdc, 0x19, 0x05, 0x1e, 0xa3, 0x7a, 0xbe, 0xdf, 0x28, 0xec, 0xd4, 0x72,
];

const KEY_1: [u8; 32] = [
    0x36, 0x3e, 0xaa, 0x38, 0x67, 0x84, 0x1f, 0xba, 0xd0, 0xf4, 0xed, 0x88, 0xc7, 0x79, 0xe4, 0xfe,
    0x66, 0xe5, 0x6a, 0x24, 0x70, 0xdc, 0x98, 0xc0, 0xec, 0x9c, 0x07, 0x3d, 0x05, 0xc7, 0xb1, 0x03,
];

const ADDRESS_1: &str = "GA3D5KRYM6CB7OWQ6TWYRR3Z4T7GNZLKERYNZGGA5SOAOPIFY6YQHES5";

const KEY_2: [u8; 32] = [
    0x3f, 0x0c, 0x34, 0xbf, 0x93, 0xad, 0x0d, 0x99, 0x71, 0xd0, 0x4c, 0xcc, 0x90, 0xf7, 0x05, 0x51,
    0x1c, 0x83, 0x8a, 0xad, 0x97, 0x34, 0xa4, 0xa2, 0xfb, 0x0d, 0x7a, 0x03, 0xfc, 0x7f, 0xe8, 0x9a,
];

const ADDRESS_2: &str = "GA7QYNF7SOWQ3GLR2BGMZEHXAVIRZA4KVWLTJJFC7MGXUA74P7UJVSGZ";

const AMOUNT: [u8; 8] = [0, 0, 0, 0, 0x00, 0x98, 0x96, 0x80];
const FEE: [u8; 2] = [0, 100];

fn params() -> SwapTxParams<'static> {
    SwapTxParams {
        amount: &AMOUNT,
        amount_len: 8,
        fee_amount: &FEE,
        fee_amount_len: 2,
        dest_address: ADDRESS_2.as_bytes(),
        dest_address_len: 56,
        dest_address_extra_id: b"memo-1",
        dest_address_extra_id_len: 6,
    }
}

fn transaction(memo: Memo<'static>, fee: u32, op_count: u32) -> Transaction<'static> {
    Transaction {
        source_account: MuxedAccount::KeyTypeEd25519(Uint256(&KEY_1)),
        fee,
        seq_num: 7,
        cond: Preconditions::PrecondNone,
        memo,
        op_count,
    }
}

fn good_transaction() -> Transaction<'static> {
    transaction(Memo::Text(StringM::new(b"memo-1")), 100, 1)
}

fn payload(network: &'static [u8; 32], tx: Transaction<'static>) -> TransactionSignaturePayload<'static> {
    TransactionSignaturePayload {
        network_id: Uint256(network),
        tagged_transaction: TaggedTransaction::EnvelopeTypeTx(tx),
    }
}

fn payment(asset: Asset<'static>, amount: i64) -> PaymentOp<'static> {
    PaymentOp { destination: MuxedAccount::KeyTypeEd25519(Uint256(&KEY_2)), asset, amount }
}

#[test]
fn only_the_public_network_is_taken() {
    assert_eq!(validate_network(&payload(&PUBLIC_NETWORK, good_transaction())), Ok(()));
    assert_eq!(
        validate_network(&payload(&TEST_NETWORK, good_transaction())),
        Err("Unexpected network ID for swap transaction")
    );
    assert_eq!(
        validate_network(&payload(&KEY_1, good_transaction())),
        Err("Unexpected network ID for swap transaction")
    );
}

#[test]
fn a_fee_bump_is_no_swap() {
    let plain = payload(&PUBLIC_NETWORK, good_transaction());
    assert_eq!(extract_transaction(&plain), Ok(&good_transaction()));
    let bump = TransactionSignaturePayload {
        network_id: Uint256(&PUBLIC_NETWORK),
        tagged_transaction: TaggedTransaction::EnvelopeTypeTxFeeBump(FeeBumpTransaction {
            fee_source: MuxedAccount::KeyTypeEd25519(Uint256(&KEY_1)),
            fee: 200,
            inner_tx: InnerTransaction::EnvelopeTypeTx(good_transaction()),
        }),
    };
    assert_eq!(extract_transaction(&bump), Err("Swap transaction must be a regular transaction"));
    assert_eq!(
        validate_envelope(&bump, &params(), ADDRESS_1),
        Err("Swap transaction must be a regular transaction")
    );
}

#[test]
fn the_memo_is_the_extra_identifier() {
    assert_eq!(validate_memo(&good_transaction(), &params()), Ok(()));
    assert_eq!(
        validate_memo(&transaction(Memo::Text(StringM::new(b"memo-12")), 100, 1), &params()),
        Err("Memo does not match provided extra ID")
    );
    assert_eq!(
        validate_memo(&transaction(Memo::MemoNone, 100, 1), &params()),
        Err("Swap transaction memo must be text")
    );
    assert_eq!(
        validate_memo(&transaction(Memo::Id(1), 100, 1), &params()),
        Err("Swap transaction memo must be text")
    );
    let mut shorter = params();
    shorter.dest_address_extra_id_len = 4;
    assert_eq!(validate_memo(&transaction(Memo::Text(StringM::new(b"memo")), 100, 1), &shorter), Ok(()));
    let mut empty = params();
    empty.dest_address_extra_id_len = 0;
    assert_eq!(validate_memo(&transaction(Memo::Text(StringM::new(b"")), 100, 1), &empty), Ok(()));
    let mut too_long = params();
    too_long.dest_address_extra_id_len = 7;
    assert_eq!(validate_memo(&good_transaction(), &too_long), Err("Invalid UTF-8 length"));
}

#[test]
fn the_amount_is_the_one_asked_for() {
    assert_eq!(validate_amount(&payment(Asset::Native, 10_000_000), &params()), Ok(()));
    assert_eq!(
        validate_amount(&payment(Asset::Native, 10_000_001), &params()),
        Err("Amount mismatch between on-chain payment and expected amount")
    );
    assert_eq!(
        validate_amount(&payment(Asset::Native, -10_000_000), &params()),
        Err("Payment amount is negative or invalid")
    );
    let mut narrow = params();
    narrow.amount_len = 2;
    assert_eq!(validate_amount(&payment(Asset::Native, 0x9680), &narrow), Ok(()));
    let mut wide = params();
    wide.amount_len = 9;
    assert_eq!(
        validate_amount(&payment(Asset::Native, 10_000_000), &wide),
        Err("Invalid integer length")
    );
}

#[test]
fn the_destination_is_the_one_asked_for() {
    assert_eq!(validate_destination(&payment(Asset::Native, 1), &params()), Ok(()));
    let mut other = params();
    other.dest_address = ADDRESS_1.as_bytes();
    assert_eq!(
        validate_destination(&payment(Asset::Native, 1), &other),
        Err("Destination address mismatch")
    );
    let mut cut = params();
    cut.dest_address_len = 55;
    assert_eq!(
        validate_destination(&payment(Asset::Native, 1), &cut),
        Err("Destination address mismatch")
    );
    let mut beyond = params();
    beyond.dest_address_len = 57;
    assert_eq!(validate_destination(&payment(Asset::Native, 1), &beyond), Err("Invalid UTF-8 length"));
}

#[test]
fn the_operation_is_a_native_payment_of_the_signer() {
    let good = Operation {
        source_account: None,
        body: OperationBody::Payment(payment(Asset::Native, 10_000_000)),
    };
    assert_eq!(validate_payment_operation(&good, &params(), ADDRESS_1), Ok(()));
    let own = Operation {
        source_account: Some(MuxedAccount::KeyTypeEd25519(Uint256(&KEY_1))),
        body: OperationBody::Payment(payment(Asset::Native, 10_000_000)),
    };
    assert_eq!(validate_payment_operation(&own, &params(), ADDRESS_1), Ok(()));
    assert_eq!(
        validate_payment_operation(&own, &params(), ADDRESS_2),
        Err("Operation source account does not match signer")
    );
    let other = Operation { source_account: None, body: OperationBody::BumpSequence(BumpSequenceOp { bump_to: 1 }) };
    assert_eq!(
        validate_payment_operation(&other, &params(), ADDRESS_1),
        Err("Swap transaction operation is not a payment")
    );
    let usd = Asset::CreditAlphanum4(AlphaNum4 {
        asset_code: AssetCode4(b"USD\0"),
        issuer: PublicKey::PublicKeyTypeEd25519(Uint256(&KEY_1)),
    });
    let credit = Operation { source_account: None, body: OperationBody::Payment(payment(usd, 10_000_000)) };
    assert_eq!(
        validate_payment_operation(&credit, &params(), ADDRESS_1),
        Err("Swap payment asset must be native XLM")
    );
    let less = Operation { source_account: None, body: OperationBody::Payment(payment(Asset::Native, 1)) };
    assert_eq!(
        validate_payment_operation(&less, &params(), ADDRESS_1),
        Err("Amount mismatch between on-chain payment and expected amount")
    );
}

#[test]
fn the_fee_is_the_one_asked_for() {
    assert_eq!(validate_fee(&good_transaction(), &params()), Ok(()));
    assert_eq!(
        validate_fee(&transaction(Memo::MemoNone, 101, 1), &params()),
        Err("Fee mismatch between transaction and expected amount")
    );
    let large = [1u8, 0, 0, 0, 0];
    let mut beyond = params();
    beyond.fee_amount = &large;
    beyond.fee_amount_len = 5;
    assert_eq!(
        validate_fee(&transaction(Memo::MemoNone, 0, 1), &beyond),
        Err("Expected fee does not fit in u32")
    );
    let most = [0xffu8; 4];
    let mut top = params();
    top.fee_amount = &most;
    top.fee_amount_len = 4;
    assert_eq!(validate_fee(&transaction(Memo::MemoNone, u32::MAX, 1), &top), Ok(()));
}

#[test]
fn the_envelope_is_checked_in_a_fixed_order() {
    let good = payload(&PUBLIC_NETWORK, good_transaction());
    assert_eq!(validate_envelope(&good, &params(), ADDRESS_1), Ok(&good_transaction()));
    assert_eq!(
        validate_envelope(&good, &params(), ADDRESS_2),
        Err("Transaction source account does not match signer")
    );
    let everything_wrong = payload(&TEST_NETWORK, transaction(Memo::MemoNone, 0, 2));
    assert_eq!(
        validate_envelope(&everything_wrong, &params(), ADDRESS_2),
        Err("Unexpected network ID for swap transaction")
    );
    let no_memo = payload(&PUBLIC_NETWORK, transaction(Memo::MemoNone, 0, 2));
    assert_eq!(
        validate_envelope(&no_memo, &params(), ADDRESS_2),
        Err("Transaction source account does not match signer")
    );
    assert_eq!(
        validate_envelope(&no_memo, &params(), ADDRESS_1),
        Err("Swap transaction memo must be text")
    );
    let two = payload(
        &PUBLIC_NETWORK,
        transaction(Memo::Text(StringM::new(b"memo-1")), 100, 2),
    );
    assert_eq!(
        validate_envelope(&two, &params(), ADDRESS_1),
        Err("Swap transaction must contain exactly one operation")
    );
    let none = payload(
        &PUBLIC_NETWORK,
        transaction(Memo::Text(StringM::new(b"memo-1")), 100, 0),
    );
    assert_eq!(
        validate_envelope(&none, &params(), ADDRESS_1),
        Err("Swap transaction must contain exactly one operation")
    );
}

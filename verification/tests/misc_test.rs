use stellarlib::apdu::{
    configuration_bytes, message_text, parse_version, prefixed_message, status_to_show,
    Instruction, StatusKind,
};
use stellarlib::bip32::Bip32Path;
use stellarlib::context::{AppContext, RawDataBuffer};
use stellarlib::crypto::convert_to_stellar_pk;
use stellarlib::display::{
    format_contract_id, format_pool_id, format_public_key, i128_str_from_pieces,
    i256_str_from_pieces, u128_str_from_pieces, u256_str_from_pieces,
};
use stellarlib::formatter::format_create_contract_args;
use stellarlib::parser::{
    Asset, AssetCode, AssetCode12, AssetCode4, BytesM, ClaimableBalanceId, ContractExecutable,
    ContractIDPreimage, CreateContractArgs, ScAddress, ScMapEntry, ScVal, SignerKey, StringM,
    Uint256, VecM,
};
use stellarlib::serialize::{scval_to_json, scval_to_key_string};
use stellarlib::sw::AppSW;
use stellarlib::swap_format::{checksum, format_stellar_address};
use stellarlib::swap_validation::{
    bytes_to_u64_be, check_address_matches, check_address_path, utf8_from_prefix,
    validate_swap_transaction, SwapTxParams,
};
use stellarlib::text::{bytes_equal, i128_text, texts_equal, u128_text};

const PUBLIC_NETWORK: [u8; 32] = [
    0x7a, 0xc3, 0x39, 0x97, 0x54, 0x4e, 0x31, 0x75, 0xd2, 0x66, 0xbd, 0x02, 0x24, 0x39, 0xb2, 0x2c,
    0xdb, 0x16, 0x50, 0x8c, 0x01, 0x16, 0x3f, 0x26, 0xe5, 0xcb, 0x2a, 0x3e, 0x10, 0x45, 0xa9, 0x79,
];

const TEST_NETWORK: [u8; 32] = [
    0xce, 0xe0, 0x30, 0x2d, 0x59, 0x84, 0x4d, 0x32, 0xbd, 0xca, 0x91, 0x5c, 0x82, 0x03, 0xdd, 0x44,
    0xb3, 0x3f, 0xbb, 0x7e, 0xdc, 0x19, 0x05, 0x1e, 0xa3, 0x7a, 0xbe, 0xdf, 0x28, 0xec, 0xd4, 0x72,
];

const KEY_1: [u8; 32] = [
    0x36, 0x3e, 0xaa, 0x38, 0x67, 0x84, 0x1f, 0xba, 0xd0, 0xf4, 0xed, 0x88, 0xc7, 0x79, 0xe4, 0xfe,
    0x66, 0xe5, 0x6a, 0x24, 0x70, 0xdc, 0x98, 0xc0, 0xec, 0x9c, 0x07, 0x3d, 0x05, 0xc7, 0xb1, 0x03,
];

const ADDRESS_1: &str = "GA3D5KRYM6CB7OWQ6TWYRR3Z4T7GNZLKERYNZGGA5SOAOPIFY6YQHES5";

const KEY_2: [u8; 32] = [
    0x3f, 0x0c, 0x34, 0xbf, 0x93, 0xad, 0x0d, 0x99, 0x71, 0xd0, 0x4c, 0xcc, 0x90, 0xf7, 0x05, 0x51,
    0x1c, 0x83, 0x8a, 0xad, 0x97, 0x34, 0xa4, 0xa2, 0xfb, 0x0d, 0x7a, 0x03, 0xfc, 0x7f, 0xe8, 0x9a,
];

const ADDRESS_2: &str = "GA7QYNF7SOWQ3GLR2BGMZEHXAVIRZA4KVWLTJJFC7MGXUA74P7UJVSGZ";

fn swap_transaction(network: &[u8; 32], memo: &[u8], op_count: u32, asset: u8) -> Vec<u8> {
    let mut v = network.to_vec();
    v.extend_from_slice(&[0, 0, 0, 2]);
    v.extend_from_slice(&[0, 0, 0, 0]);
    v.extend_from_slice(&KEY_1);
    v.extend_from_slice(&100u32.to_be_bytes());
    v.extend_from_slice(&7i64.to_be_bytes());
    v.extend_from_slice(&[0, 0, 0, 0]);
    v.extend_from_slice(&[0, 0, 0, 1]); // a text memo
    v.extend_from_slice(&(memo.len() as u32).to_be_bytes());
    v.extend_from_slice(memo);
    while v.len() % 4 != 0 {
        v.push(0);
    }
    v.extend_from_slice(&op_count.to_be_bytes());
    for _ in 0..op_count {
        v.extend_from_slice(&[0, 0, 0, 0, 0, 0, 0, 1]);
        v.extend_from_slice(&[0, 0, 0, 0]);
        v.extend_from_slice(&KEY_2);
        v.extend_from_slice(&[0, 0, 0, asset]);
        if asset == 1 {
            v.extend_from_slice(b"USD\0");
            v.extend_from_slice(&[0, 0, 0, 0]);
            v.extend_from_slice(&KEY_1);
        }
        v.extend_from_slice(&10_000_000i64.to_be_bytes());
    }
    v
}

fn swap_params<'a>(amount: &'a [u8; 16], fee: &'a [u8; 16]) -> SwapTxParams<'a> {
    SwapTxParams {
        amount,
        amount_len: 4,
        fee_amount: fee,
        fee_amount_len: 1,
        dest_address: ADDRESS_2.as_bytes(),
        dest_address_len: 56,
        dest_address_extra_id: b"memo-1\0\0\0\0",
        dest_address_extra_id_len: 6,
    }
}

#[test]
fn a_matching_swap_passes() {
    let amount = 10_000_000u128.to_be_bytes();
    let fee = 100u128.to_be_bytes();
    let params = swap_params(&amount, &fee);
    let data = swap_transaction(&PUBLIC_NETWORK, b"memo-1", 1, 0);
    assert_eq!(validate_swap_transaction(&data, &params, ADDRESS_1), Ok(()));
}

#[test]
fn a_swap_must_be_on_the_public_network() {
    let amount = 10_000_000u128.to_be_bytes();
    let fee = 100u128.to_be_bytes();
    let params = swap_params(&amount, &fee);
    let data = swap_transaction(&TEST_NETWORK, b"memo-1", 1, 0);
    assert_eq!(
        validate_swap_transaction(&data, &params, ADDRESS_1),
        Err("Unexpected network ID for swap transaction")
    );
    let elsewhere = swap_transaction(&KEY_2, b"memo-1", 1, 0);
    assert_eq!(
        validate_swap_transaction(&elsewhere, &params, ADDRESS_1),
        Err("Unexpected network ID for swap transaction")
    );
}

#[test]
fn the_envelope_of_a_swap_is_checked_before_its_operation_is_decoded() {
    let amount = 10_000_000u128.to_be_bytes();
    let fee = 100u128.to_be_bytes();
    let params = swap_params(&amount, &fee);
    let wrong_network = swap_transaction(&TEST_NETWORK, b"memo-1", 1, 0);
    assert_eq!(
        validate_swap_transaction(&wrong_network[..wrong_network.len() - 8], &params, ADDRESS_1),
        Err("Unexpected network ID for swap transaction")
    );
    let two = swap_transaction(&PUBLIC_NETWORK, b"memo-1", 2, 0);
    assert_eq!(
        validate_swap_transaction(&two[..two.len() - 60], &params, ADDRESS_1),
        Err("Swap transaction must contain exactly one operation")
    );
    let mut no_operation = swap_transaction(&PUBLIC_NETWORK, b"memo-1", 2, 0);
    no_operation.truncate(32 + 4 + 36 + 4 + 8 + 4 + 4 + 4 + 8 + 4);
    assert_eq!(
        validate_swap_transaction(&no_operation, &params, ADDRESS_1),
        Err("Swap transaction must contain exactly one operation")
    );
    let good = swap_transaction(&PUBLIC_NETWORK, b"memo-1", 1, 0);
    assert_eq!(
        validate_swap_transaction(&good[..good.len() - 8], &params, ADDRESS_1),
        Err("Failed to parse payment operation")
    );
    assert_eq!(
        validate_swap_transaction(&good[..good.len() - 8], &params, ADDRESS_2),
        Err("Transaction source account does not match signer")
    );
}

#[test]
fn a_swap_has_exactly_one_operation() {
    let amount = 10_000_000u128.to_be_bytes();
    let fee = 100u128.to_be_bytes();
    let params = swap_params(&amount, &fee);
    for count in [0u32, 2] {
        let data = swap_transaction(&PUBLIC_NETWORK, b"memo-1", count, 0);
        assert_eq!(
            validate_swap_transaction(&data, &params, ADDRESS_1),
            Err("Swap transaction must contain exactly one operation")
        );
    }
}

#[test]
fn a_swap_pays_the_native_asset() {
    let amount = 10_000_000u128.to_be_bytes();
    let fee = 100u128.to_be_bytes();
    let params = swap_params(&amount, &fee);
    let data = swap_transaction(&PUBLIC_NETWORK, b"memo-1", 1, 1);
    assert_eq!(
        validate_swap_transaction(&data, &params, ADDRESS_1),
        Err("Swap payment asset must be native XLM")
    );
}

#[test]
fn a_swap_is_checked_step_by_step() {
    let amount = 10_000_000u128.to_be_bytes();
    let fee = 100u128.to_be_bytes();
    let params = swap_params(&amount, &fee);
    let good = swap_transaction(&PUBLIC_NETWORK, b"memo-1", 1, 0);
    assert_eq!(
        validate_swap_transaction(&good[..40], &params, ADDRESS_1),
        Err("Failed to parse transaction payload")
    );
    assert_eq!(
        validate_swap_transaction(&good[..good.len() - 1], &params, ADDRESS_1),
        Err("Failed to parse payment operation")
    );
    assert_eq!(
        validate_swap_transaction(&good, &params, ADDRESS_2),
        Err("Transaction source account does not match signer")
    );
    let other_memo = swap_transaction(&PUBLIC_NETWORK, b"memo-2", 1, 0);
    assert_eq!(
        validate_swap_transaction(&other_memo, &params, ADDRESS_1),
        Err("Memo does not match provided extra ID")
    );
    let mut no_memo = good.clone();
    no_memo[32 + 4 + 36 + 4 + 8 + 4 + 3] = 0;
    assert!(validate_swap_transaction(&no_memo, &params, ADDRESS_1).is_err());
    let wrong_amount = 10_000_001u128.to_be_bytes();
    assert_eq!(
        validate_swap_transaction(&good, &swap_params(&wrong_amount, &fee), ADDRESS_1),
        Err("Amount mismatch between on-chain payment and expected amount")
    );
    let wrong_fee = 101u128.to_be_bytes();
    assert_eq!(
        validate_swap_transaction(&good, &swap_params(&amount, &wrong_fee), ADDRESS_1),
        Err("Fee mismatch between transaction and expected amount")
    );
    let mut elsewhere = swap_params(&amount, &fee);
    elsewhere.dest_address = ADDRESS_1.as_bytes();
    assert_eq!(
        validate_swap_transaction(&good, &elsewhere, ADDRESS_1),
        Err("Destination address mismatch")
    );
    let mut bad_length = swap_params(&amount, &fee);
    bad_length.amount_len = 0;
    assert_eq!(
        validate_swap_transaction(&good, &bad_length, ADDRESS_1),
        Err("Invalid integer length")
    );
    let mut huge_fee = swap_params(&amount, &amount);
    huge_fee.fee_amount_len = 8;
    let big = (1u128 << 40).to_be_bytes();
    huge_fee.fee_amount = &big;
    assert_eq!(
        validate_swap_transaction(&good, &huge_fee, ADDRESS_1),
        Err("Expected fee does not fit in u32")
    );
}

#[test]
fn integers_are_read_from_the_end_of_a_buffer() {
    assert_eq!(bytes_to_u64_be(&[9, 9, 1, 2], 2), Ok(258));
    assert_eq!(bytes_to_u64_be(&[0xff; 16], 8), Ok(u64::MAX));
    assert_eq!(bytes_to_u64_be(&[1], 1), Ok(1));
    assert_eq!(bytes_to_u64_be(&[1, 2], 0), Err("Invalid integer length"));
    assert_eq!(bytes_to_u64_be(&[1, 2], 3), Err("Invalid integer length"));
    assert_eq!(bytes_to_u64_be(&[0; 16], 9), Err("Invalid integer length"));
}

#[test]
fn texts_are_read_from_the_start_of_a_buffer() {
    assert_eq!(utf8_from_prefix(b"hello world", 5), Ok("hello"));
    assert_eq!(utf8_from_prefix(b"hello", 0), Ok(""));
    assert_eq!(utf8_from_prefix(b"hello", 6), Err("Invalid UTF-8 length"));
    assert_eq!(utf8_from_prefix(&[b'a', 0xff, b'b'], 3), Err("Invalid UTF-8 data"));
    assert_eq!(utf8_from_prefix("é".as_bytes(), 1), Err("Invalid UTF-8 data"));
    assert_eq!(utf8_from_prefix("é".as_bytes(), 2), Ok("é"));
}

#[test]
fn an_address_is_checked_against_its_key() {
    assert_eq!(check_address_matches(&KEY_1, ADDRESS_1.as_bytes(), 56), Ok(()));
    assert_eq!(check_address_matches(&KEY_1, ADDRESS_2.as_bytes(), 56), Err("Address mismatch"));
    assert_eq!(check_address_matches(&KEY_1, ADDRESS_1.as_bytes(), 55), Err("Address mismatch"));
    assert_eq!(
        check_address_matches(&KEY_1, &[0xff; 56], 56),
        Err("Invalid UTF-8 in reference address")
    );
    assert_eq!(
        check_address_matches(&KEY_1, ADDRESS_1.as_bytes(), 57),
        Err("Invalid UTF-8 in reference address")
    );
    let path = [0x80, 0, 0, 44, 0x80, 0, 0, 148, 0x80, 0, 0, 1, 0, 0, 0, 0];
    assert_eq!(check_address_path(&path, 3), Ok(Bip32Path([0x8000002c, 0x80000094, 0x80000001])));
    assert_eq!(check_address_path(&path, 2), Err("Invalid derivation path length"));
    assert_eq!(check_address_path(&path[..11], 3), Err("Derivation path failure"));
}

#[test]
fn the_own_address_writer_agrees_with_the_strkey() {
    for key in [KEY_1, KEY_2, [0u8; 32], [0xff; 32]] {
        let mut buffer = [0u8; 56];
        assert_eq!(format_stellar_address(&key, &mut buffer), Ok(56));
        assert_eq!(std::str::from_utf8(&buffer).unwrap(), format_public_key(&key));
    }
    assert_eq!(format_public_key(&KEY_1), ADDRESS_1);
    assert_eq!(checksum(b"123456789"), 0x31c3);
    assert_eq!(checksum(b""), 0);
}

#[test]
fn strkeys_have_their_letter_and_length() {
    assert_eq!(
        format_public_key(&[0u8; 32]),
        "GAAAAAAAAAAAAAAAAAAAAAAAAAAAAAAAAAAAAAAAAAAAAAAAAAAAAWHF"
    );
    let id = Uint256(&KEY_1);
    let contract = format_contract_id(&id);
    assert!(contract.starts_with('C'));
    assert_eq!(contract.len(), 56);
    assert_eq!(ScAddress::ScAddressTypeContract(Uint256(&KEY_1)).to_string(), contract);
    let pool = format_pool_id(&id);
    assert!(pool.starts_with('L'));
    assert_eq!(pool.len(), 56);
    assert_eq!(ScAddress::ScAddressTypeLiquidityPool(Uint256(&KEY_1)).to_string(), pool);
    let balance = ClaimableBalanceId::ClaimableBalanceIdTypeV0(Uint256(&KEY_1)).to_string();
    assert!(balance.starts_with('B'));
    assert_eq!(balance.len(), 58);
    let pre_auth = SignerKey::SignerKeyTypePreAuthTx(Uint256(&KEY_1)).to_string();
    assert!(pre_auth.starts_with('T'));
    assert_eq!(pre_auth.len(), 56);
    let hash_x = SignerKey::SignerKeyTypeHashX(Uint256(&KEY_1)).to_string();
    assert!(hash_x.starts_with('X'));
    assert_eq!(hash_x.len(), 56);
    assert_eq!(SignerKey::SignerKeyTypeEd25519(Uint256(&KEY_1)).to_string(), ADDRESS_1);
    assert!(SignerKey::SignerKeyTypeEd25519(Uint256(&KEY_1)).check_fits());
}

#[test]
fn bytes_are_escaped_and_written_in_hex() {
    assert_eq!(message_text(b"plain text ~"), "plain text ~");
    assert_eq!(message_text(b"a\\b"), "a\\\\b");
    assert_eq!(message_text(&[0, 9, 10, 13]), "\\0\\t\\n\\r");
    assert_eq!(message_text(&[1, 0x1f, 0x7f, 0x80, 0xff]), "\\x01\\x1f\\x7f\\x80\\xff");
    assert_eq!(message_text(b""), "");
    assert_eq!(Uint256(&[b'a'; 32]).to_string(), "a".repeat(32));
    assert_eq!(BytesM::<8>::new(&[0xde, 0xad]).to_string(), "\\xde\\xad");
    assert_eq!(StringM::<8>::new(b"hi\n").to_string(), "hi\\n");
    let mut hash = [0u8; 32];
    hash[0] = 0x01;
    hash[1] = 0x0f;
    hash[2] = 0xab;
    hash[31] = 0xff;
    let args = CreateContractArgs {
        contract_id_preimage: ContractIDPreimage::FromAsset(Asset::Native),
        executable: ContractExecutable::Wasm(Uint256(&hash)),
    };
    let entries = format_create_contract_args(&args);
    assert_eq!(entries.len(), 1);
    assert_eq!(entries[0].title, "Create Contract");
    assert_eq!(
        entries[0].content,
        format!("Deploy contract from WASM hash: 010fab{}ff", "00".repeat(28))
    );
}

#[test]
fn asset_codes_lose_their_padding() {
    assert_eq!(AssetCode4(b"USD\0").to_string(), "USD");
    assert_eq!(AssetCode4(b"\0\0\0\0").to_string(), "");
    assert_eq!(AssetCode4(b"A\0B\0").to_string(), "A\\0B");
    assert_eq!(AssetCode4(b"ABCD").to_string(), "ABCD");
    assert_eq!(AssetCode12(b"ABCDEF\0\0\0\0\0\0").to_string(), "ABCDEF");
    assert_eq!(AssetCode12(b"ABC\0\0\0\0\0\0\0\0\0").to_string(), "ABC\\0\\0");
    assert_eq!(AssetCode12(b"ABCDEFGHIJKL").to_string(), "ABCDEFGHIJKL");
    assert_eq!(AssetCode::AssetCode4(AssetCode4(b"XY\0\0")).to_string(), "XY");
}

#[test]
fn wide_integers_are_written_in_decimal() {
    assert_eq!(u128_str_from_pieces(0, 0), "0");
    assert_eq!(u128_str_from_pieces(1, 0), "18446744073709551616");
    assert_eq!(
        u128_str_from_pieces(u64::MAX, u64::MAX),
        "340282366920938463463374607431768211455"
    );
    assert_eq!(i128_str_from_pieces(-1, u64::MAX), "-1");
    assert_eq!(i128_str_from_pieces(-1, 0), "-18446744073709551616");
    assert_eq!(
        i128_str_from_pieces(i64::MIN, 0),
        "-170141183460469231731687303715884105728"
    );
    assert_eq!(
        u256_str_from_pieces(u64::MAX, u64::MAX, u64::MAX, u64::MAX),
        "115792089237316195423570985008687907853269984665640564039457584007913129639935"
    );
    assert_eq!(u256_str_from_pieces(0, 1, 0, 0), "340282366920938463463374607431768211456");
    assert_eq!(i256_str_from_pieces(-1, u64::MAX, u64::MAX, u64::MAX), "-1");
    assert_eq!(
        i256_str_from_pieces(i64::MIN, 0, 0, 0),
        "-57896044618658097711785492504343953926634992332820282019728792003956564819968"
    );
    assert_eq!(i256_str_from_pieces(0, 0, 0, 5), "5");
    assert_eq!(u128_text(0), "0");
    assert_eq!(u128_text(10), "10");
    assert_eq!(i128_text(i128::MIN), "-170141183460469231731687303715884105728");
    assert_eq!(i128_text(-7), "-7");
}

#[test]
fn texts_and_bytes_are_compared() {
    assert!(texts_equal("", ""));
    assert!(texts_equal("abc", "abc"));
    assert!(!texts_equal("abc", "abd"));
    assert!(!texts_equal("abc", "ab"));
    assert!(bytes_equal(&[1, 2], &[1, 2]));
    assert!(!bytes_equal(&[1, 2], &[1, 3]));
    assert!(!bytes_equal(&[1, 2], &[1]));
}

#[test]
fn json_strings_are_quoted() {
    let text = |bytes: &'static [u8]| scval_to_json(&ScVal::Symbol(StringM::new(bytes)));
    assert_eq!(text(b"plain"), "\"plain\"");
    assert_eq!(text(b"a\"b\\c"), "\"a\\\"b\\\\\\\\c\"");
    assert_eq!(text(b"\n"), "\"\\\\n\"");
    assert_eq!(text(b""), "\"\"");
}

#[test]
fn object_members_stay_sorted_and_keys_stay_single() {
    let object = |members: &[(&'static str, u32)]| {
        ScVal::ScMap(Some(VecM::new(
            members
                .iter()
                .map(|(k, v)| ScMapEntry {
                    key: ScVal::Symbol(StringM::new(k.as_bytes())),
                    val: ScVal::U32(*v),
                })
                .collect(),
        )))
    };
    let mixed = object(&[("b", 1), ("a", 2), ("c", 3), ("b", 4), ("", 5)]);
    assert_eq!(scval_to_json(&mixed), r#"{"":"5","a":"2","b":"4","c":"3"}"#);
    assert_eq!(scval_to_key_string(&mixed), r#"{"":"5","a":"2","b":"4","c":"3"}"#);
    let ordered = object(&[("abc", 1), ("a", 2), ("Z", 3), ("ab", 4), ("~", 5), ("A", 6)]);
    assert_eq!(
        scval_to_json(&ordered),
        r#"{"A":"6","Z":"3","a":"2","ab":"4","abc":"1","~":"5"}"#
    );
    assert_eq!(scval_to_json(&object(&[])), "{}");
    assert_eq!(scval_to_json(&ScVal::Vec(Some(VecM::new(vec![])))), "[]");
    let nested = ScVal::Vec(Some(VecM::new(vec![
        object(&[("y", 1), ("x", 2)]),
        ScVal::Void,
        ScVal::Bool(false),
        ScVal::ScMap(None),
    ])));
    assert_eq!(scval_to_json(&nested), r#"[{"x":"2","y":"1"},null,false,null]"#);
    let keyed = ScVal::ScMap(Some(VecM::new(vec![
        ScMapEntry { key: object(&[("y", 1), ("x", 2)]), val: ScVal::Void },
        ScMapEntry { key: ScVal::Void, val: ScVal::U32(1000) },
        ScMapEntry { key: ScVal::Bool(true), val: ScVal::Vec(None) },
    ])));
    assert_eq!(
        scval_to_json(&keyed),
        r#"{"[void]":"1,000","true":null,"{\"x\":\"2\",\"y\":\"1\"}":null}"#
    );
}

#[test]
fn paths_have_three_segments() {
    let data = [3, 0x80, 0, 0, 44, 0x80, 0, 0, 148, 0x80, 0, 0, 5, 0xaa];
    let path = Bip32Path::try_from(&data).unwrap();
    assert_eq!(path.as_ref(), &[0x8000002c, 0x80000094, 0x80000005]);
    assert_eq!(path.serialized_size(), 13);
    assert_eq!(Bip32Path::try_from(&data[..12]), Err(AppSW::WrongApduLength));
    assert_eq!(Bip32Path::try_from(&[]), Err(AppSW::WrongApduLength));
    let mut two = data;
    two[0] = 2;
    assert_eq!(Bip32Path::try_from(&two), Err(AppSW::WrongApduLength));
    assert_eq!(Bip32Path::parse(&data[1..12]), Err(AppSW::DataParsingFail));
    assert_eq!(Bip32Path::parse(&data[1..]), Ok(path));
    assert_eq!(Bip32Path::empty(), Bip32Path([0, 0, 0]));
}

#[test]
fn the_request_buffer_takes_what_fits() {
    let mut buffer: RawDataBuffer<4> = RawDataBuffer::new();
    assert_eq!(buffer.len(), 0);
    assert_eq!(buffer.extend_from_slice(&[]), Ok(()));
    assert_eq!(buffer.extend_from_slice(&[1, 2, 3]), Ok(()));
    assert_eq!(buffer.as_slice(), &[1, 2, 3]);
    assert_eq!(buffer.extend_from_slice(&[4, 5]), Err(AppSW::RequestDataTooLarge));
    assert_eq!(buffer.as_slice(), &[1, 2, 3]);
    assert_eq!(buffer.extend_from_slice(&[4]), Ok(()));
    assert_eq!(buffer.len(), 4);
    buffer.clear();
    assert_eq!(buffer.len(), 0);
    assert_eq!(buffer.as_slice(), &[] as &[u8]);
}

#[test]
fn a_request_is_taken_chunk_by_chunk() {
    let mut ctx: AppContext<8> = AppContext::new();
    assert!(!ctx.finished());
    let first = [3, 0x80, 0, 0, 44, 0x80, 0, 0, 148, 0x80, 0, 0, 5, 1, 2, 3];
    assert_eq!(ctx.handle_chunk(&first, true), Ok(()));
    assert_eq!(ctx.path, Bip32Path([0x8000002c, 0x80000094, 0x80000005]));
    assert_eq!(ctx.raw_data.as_slice(), &[1, 2, 3]);
    assert_eq!(ctx.handle_chunk(&[4, 5], false), Ok(()));
    assert_eq!(ctx.raw_data.as_slice(), &[1, 2, 3, 4, 5]);
    assert_eq!(ctx.handle_chunk(&[6, 7, 8, 9], false), Err(AppSW::RequestDataTooLarge));
    assert_eq!(ctx.raw_data.as_slice(), &[1, 2, 3, 4, 5]);
    ctx.review_finished = true;
    assert!(ctx.finished());
    assert_eq!(ctx.handle_chunk(&first[..13], true), Ok(()));
    assert_eq!(ctx.raw_data.len(), 0);
    assert!(!ctx.finished());
    assert_eq!(ctx.handle_chunk(&first[..12], true), Err(AppSW::WrongApduLength));
    ctx.reset();
    assert_eq!(ctx.path, Bip32Path([0, 0, 0]));
}

#[test]
fn headers_are_read_as_commands() {
    assert_eq!(Instruction::try_from(0x02, 0, 0), Ok(Instruction::GetPubkey { display: false }));
    assert_eq!(Instruction::try_from(0x02, 0, 1), Ok(Instruction::GetPubkey { display: true }));
    assert_eq!(Instruction::try_from(0x02, 0, 2), Err(AppSW::WrongP1P2));
    assert_eq!(Instruction::try_from(0x02, 1, 0), Err(AppSW::WrongP1P2));
    assert_eq!(
        Instruction::try_from(0x04, 0, 0x80),
        Ok(Instruction::SignTx { first: true, more: true })
    );
    assert_eq!(
        Instruction::try_from(0x04, 0x80, 0),
        Ok(Instruction::SignTx { first: false, more: false })
    );
    assert_eq!(Instruction::try_from(0x04, 1, 0), Err(AppSW::WrongP1P2));
    assert_eq!(Instruction::try_from(0x06, 0, 0), Ok(Instruction::GetConfiguration));
    assert_eq!(Instruction::try_from(0x06, 0, 1), Err(AppSW::WrongP1P2));
    assert_eq!(Instruction::try_from(0x08, 0, 0), Ok(Instruction::SignHash));
    assert_eq!(
        Instruction::try_from(0x0a, 0x80, 0x80),
        Ok(Instruction::SignSorobanAuth { first: false, more: true })
    );
    assert_eq!(
        Instruction::try_from(0x0c, 0, 0),
        Ok(Instruction::SignMessage { first: true, more: false })
    );
    assert_eq!(Instruction::try_from(0x0c, 0, 2), Err(AppSW::WrongP1P2));
    assert_eq!(Instruction::try_from(0x03, 0, 0), Err(AppSW::InsNotSupported));
    assert_eq!(Instruction::try_from(0xff, 9, 9), Err(AppSW::InsNotSupported));
    assert_eq!(AppSW::Success.code(), 0x9000);
    assert_eq!(AppSW::Deny.code(), 0x6985);
    assert_eq!(AppSW::BlindSigningModeNotEnabled.code(), 0x6c66);
}

#[test]
fn outcomes_are_shown_after_a_decision() {
    let tx = Instruction::SignTx { first: false, more: false };
    assert_eq!(status_to_show(&tx, AppSW::Success, true), Some(StatusKind::Transaction));
    assert_eq!(status_to_show(&tx, AppSW::Deny, true), Some(StatusKind::Transaction));
    assert_eq!(status_to_show(&tx, AppSW::Success, false), None);
    assert_eq!(status_to_show(&tx, AppSW::DataParsingFail, true), None);
    let shown = Instruction::GetPubkey { display: true };
    assert_eq!(status_to_show(&shown, AppSW::Deny, false), Some(StatusKind::Address));
    let silent = Instruction::GetPubkey { display: false };
    assert_eq!(status_to_show(&silent, AppSW::Success, true), None);
    assert_eq!(
        status_to_show(&Instruction::SignHash, AppSW::Success, false),
        Some(StatusKind::Transaction)
    );
    let message = Instruction::SignMessage { first: true, more: false };
    assert_eq!(status_to_show(&message, AppSW::Success, true), Some(StatusKind::Message));
    assert_eq!(status_to_show(&Instruction::GetConfiguration, AppSW::Success, true), None);
}

#[test]
fn versions_are_read_part_by_part() {
    assert_eq!(parse_version("1.2.3"), (1, 2, 3));
    assert_eq!(parse_version("10.20.255"), (10, 20, 255));
    assert_eq!(parse_version("1.2"), (1, 2, 0));
    assert_eq!(parse_version("7"), (7, 0, 0));
    assert_eq!(parse_version(""), (0, 0, 0));
    assert_eq!(parse_version("1.256.3"), (1, 0, 3));
    assert_eq!(parse_version("1.x.3"), (1, 0, 3));
    assert_eq!(parse_version("1..3"), (1, 0, 3));
    assert_eq!(parse_version("+1.02.3.4"), (1, 2, 3));
    assert_eq!(parse_version("-1.+.3-rc"), (0, 0, 0));
    assert_eq!(configuration_bytes(true, (1, 2, 3), 8192), [1, 1, 2, 3, 0x20, 0x00]);
    assert_eq!(configuration_bytes(false, (0, 0, 9), 1025), [0, 0, 0, 9, 0x04, 0x01]);
    assert_eq!(prefixed_message(b"hi"), b"Stellar Signed Message:\nhi".to_vec());
}

#[test]
fn keys_are_compressed() {
    let mut point = [0u8; 65];
    for (i, b) in point.iter_mut().enumerate() {
        *b = i as u8;
    }
    let key = convert_to_stellar_pk(&point);
    assert_eq!(key[0], 64);
    assert_eq!(key[1], 63);
    assert_eq!(key[31], 33);
    point[32] = 1;
    let key = convert_to_stellar_pk(&point);
    assert_eq!(key[31], 33 | 0x80);
    assert_eq!(key[30], 34);
}

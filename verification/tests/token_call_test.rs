use stellarlib::formatter::{format_invoke_contract_args, DataEntry};
use stellarlib::parser::{
    Int128Parts, InvokeContractArgs, PublicKey, ScAddress, ScVal, StringM, Uint256, VecM,
};
use stellarlib::token_formatter::try_format_token_contract_call;
use stellarlib::tokens::{BTC_CONTRACT, USDC_CONTRACT};

const USDC_ADDRESS: &str = "CCW67TSZV3SSS2HXMBQ5JFGCKJNXKZM7UQUWUZPUTHXSTZLEO7SJMI75";

const KEY_1: [u8; 32] = [
    0x36, 0x3e, 0xaa, 0x38, 0x67, 0x84, 0x1f, 0xba, 0xd0, 0xf4, 0xed, 0x88, 0xc7, 0x79, 0xe4, 0xfe,
    0x66, 0xe5, 0x6a, 0x24, 0x70, 0xdc, 0x98, 0xc0, 0xec, 0x9c, 0x07, 0x3d, 0x05, 0xc7, 0xb1, 0x03,
];

const ADDRESS_1: &str = "GA3D5KRYM6CB7OWQ6TWYRR3Z4T7GNZLKERYNZGGA5SOAOPIFY6YQHES5";
const CONTRACT_1: &str = "CA3D5KRYM6CB7OWQ6TWYRR3Z4T7GNZLKERYNZGGA5SOAOPIFY6YQGAXE";

const KEY_2: [u8; 32] = [
    0x3f, 0x0c, 0x34, 0xbf, 0x93, 0xad, 0x0d, 0x99, 0x71, 0xd0, 0x4c, 0xcc, 0x90, 0xf7, 0x05, 0x51,
    0x1c, 0x83, 0x8a, 0xad, 0x97, 0x34, 0xa4, 0xa2, 0xfb, 0x0d, 0x7a, 0x03, 0xfc, 0x7f, 0xe8, 0x9a,
];

const ADDRESS_2: &str = "GA7QYNF7SOWQ3GLR2BGMZEHXAVIRZA4KVWLTJJFC7MGXUA74P7UJVSGZ";

fn pairs(entries: &[DataEntry]) -> Vec<(String, String)> {
    entries.iter().map(|e| (e.title.clone(), e.content.clone())).collect()
}

fn expect(list: &[(&str, &str)]) -> Vec<(String, String)> {
    list.iter().map(|(t, c)| (t.to_string(), c.to_string())).collect()
}

fn account(key: &'static [u8; 32]) -> ScVal<'static> {
    ScVal::Address(ScAddress::ScAddressTypeAccount(PublicKey::PublicKeyTypeEd25519(Uint256(key))))
}

fn contract(key: &'static [u8; 32]) -> ScVal<'static> {
    ScVal::Address(ScAddress::ScAddressTypeContract(Uint256(key)))
}

fn amount(value: i128) -> ScVal<'static> {
    ScVal::I128(Int128Parts { hi: (value >> 64) as i64, lo: value as u64 })
}

fn usdc(function: &'static [u8], args: Vec<ScVal<'static>>) -> InvokeContractArgs<'static> {
    InvokeContractArgs {
        contract_address: ScAddress::ScAddressTypeContract(Uint256(&USDC_CONTRACT)),
        function_name: StringM::new(function),
        args: VecM::new(args),
    }
}

fn shown(args: &InvokeContractArgs) -> Option<Vec<(String, String)>> {
    try_format_token_contract_call(args).map(|entries| pairs(&entries))
}

#[test]
fn a_transfer_shows_amount_sender_and_receiver() {
    let args = usdc(b"transfer", vec![account(&KEY_1), account(&KEY_2), amount(12_345_678_900)]);
    let expected =
        expect(&[
            ("Transfer", &format!("1,234.56789 USDC@{}", USDC_ADDRESS)),
            ("From", ADDRESS_1),
            ("To", ADDRESS_2),
        ]);
    assert_eq!(shown(&args), Some(expected.clone()));
    assert_eq!(pairs(&format_invoke_contract_args(&args)), expected);
}

#[test]
fn an_approval_shows_the_spender_and_the_expiry() {
    let args = usdc(
        b"approve",
        vec![account(&KEY_1), contract(&KEY_1), amount(1), ScVal::U32(1_234_567)],
    );
    assert_eq!(
        shown(&args),
        Some(expect(&[
            ("Approve", &format!("0.0000001 USDC@{}", USDC_ADDRESS)),
            ("From", ADDRESS_1),
            ("Spender", CONTRACT_1),
            ("Exp Ledger", "1,234,567"),
        ]))
    );
}

#[test]
fn a_transfer_by_a_spender_shows_the_spender_last() {
    let args = usdc(
        b"transfer_from",
        vec![contract(&KEY_1), account(&KEY_1), account(&KEY_2), amount(-70_000_000)],
    );
    assert_eq!(
        shown(&args),
        Some(expect(&[
            ("Transfer", &format!("-7 USDC@{}", USDC_ADDRESS)),
            ("From", ADDRESS_1),
            ("To", ADDRESS_2),
            ("Spender", CONTRACT_1),
        ]))
    );
}

#[test]
fn burns_show_whose_tokens_are_burnt() {
    let burn = usdc(b"burn", vec![account(&KEY_2), amount(0)]);
    assert_eq!(
        shown(&burn),
        Some(expect(&[("Burn", &format!("0 USDC@{}", USDC_ADDRESS)), ("From", ADDRESS_2)]))
    );
    let burn_from = usdc(b"burn_from", vec![account(&KEY_1), account(&KEY_2), amount(i128::MAX)]);
    assert_eq!(
        shown(&burn_from),
        Some(expect(&[
            (
                "Burn",
                &format!("17,014,118,346,046,923,173,168,730,371,588.4105727 USDC@{}", USDC_ADDRESS),
            ),
            ("From", ADDRESS_2),
            ("Spender", ADDRESS_1),
        ]))
    );
    let least = usdc(b"burn", vec![account(&KEY_2), amount(i128::MIN)]);
    assert_eq!(
        shown(&least).unwrap()[0].1,
        format!("-17,014,118,346,046,923,173,168,730,371,588.4105728 USDC@{}", USDC_ADDRESS)
    );
}

#[test]
fn the_other_known_token_has_its_own_symbol() {
    let args = InvokeContractArgs {
        contract_address: ScAddress::ScAddressTypeContract(Uint256(&BTC_CONTRACT)),
        function_name: StringM::new(b"burn"),
        args: VecM::new(vec![account(&KEY_1), amount(250_000_000)]),
    };
    let entries = shown(&args).unwrap();
    assert_eq!(entries.len(), 2);
    assert_eq!(entries[0].0, "Burn");
    assert!(entries[0].1.starts_with("25 BTC@C"));
    assert_eq!(entries[0].1.len(), "25 BTC@".len() + 56);
    assert_eq!(entries[1], ("From".to_string(), ADDRESS_1.to_string()));
}

#[test]
fn other_calls_are_not_token_calls() {
    let unknown_function = usdc(b"mint", vec![account(&KEY_1), amount(1)]);
    assert_eq!(shown(&unknown_function), None);
    let upper_case = usdc(b"Transfer", vec![account(&KEY_1), account(&KEY_2), amount(1)]);
    assert_eq!(shown(&upper_case), None);
    let unknown_contract = InvokeContractArgs {
        contract_address: ScAddress::ScAddressTypeContract(Uint256(&KEY_1)),
        function_name: StringM::new(b"transfer"),
        args: VecM::new(vec![account(&KEY_1), account(&KEY_2), amount(1)]),
    };
    assert_eq!(shown(&unknown_contract), None);
    let not_a_contract = InvokeContractArgs {
        contract_address: ScAddress::ScAddressTypeLiquidityPool(Uint256(&USDC_CONTRACT)),
        function_name: StringM::new(b"transfer"),
        args: VecM::new(vec![account(&KEY_1), account(&KEY_2), amount(1)]),
    };
    assert_eq!(shown(&not_a_contract), None);
}

#[test]
fn a_token_call_needs_the_right_arguments() {
    let too_few = usdc(b"transfer", vec![account(&KEY_1), account(&KEY_2)]);
    assert_eq!(shown(&too_few), None);
    let too_many =
        usdc(b"transfer", vec![account(&KEY_1), account(&KEY_2), amount(1), ScVal::Void]);
    assert_eq!(shown(&too_many), None);
    let amount_of_another_type =
        usdc(b"transfer", vec![account(&KEY_1), account(&KEY_2), ScVal::U64(1)]);
    assert_eq!(shown(&amount_of_another_type), None);
    let no_address = usdc(b"transfer", vec![ScVal::Void, account(&KEY_2), amount(1)]);
    assert_eq!(shown(&no_address), None);
    let expiry_of_another_type =
        usdc(b"approve", vec![account(&KEY_1), account(&KEY_2), amount(1), ScVal::U64(5)]);
    assert_eq!(shown(&expiry_of_another_type), None);
    let fallback = format_invoke_contract_args(&too_few);
    assert_eq!(
        pairs(&fallback),
        expect(&[
            ("Contract ID", USDC_ADDRESS),
            ("Function", "transfer"),
            ("Arg 1 of 2", ADDRESS_1),
            ("Arg 2 of 2", ADDRESS_2),
        ])
    );
}

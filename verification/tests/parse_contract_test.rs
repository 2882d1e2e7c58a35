use stellarlib::parser::{
    Asset, BytesM, ClaimableBalanceId, ContractExecutable, ContractIDPreimage,
    ContractIDPreimageFromAddress, CreateContractArgs, CreateContractArgsV2, Ed25519SignedPayload,
    HashIDPreimage, HostFunction, Int128Parts, Int256Parts, InvokeContractArgs,
    InvokeHostFunctionOp, LedgerBounds, Memo, MuxedAccount, MuxedEd25519, Operation,
    OperationBody, ParseError, Parser, Preconditions, PreconditionsV2, PublicKey,
    SCContractInstance, SCError, SCErrorCode, ScAddress, ScMapEntry, ScNonceKey, ScVal,
    SignerKey, SorobanAddressCredentials, SorobanAuthorizationEntry, SorobanAuthorizedFunction,
    SorobanAuthorizedInvocation, SorobanCredentials, StringM, TimeBounds, Transaction,
    UInt128Parts, UInt256Parts, Uint256, VecM, XdrParse,
};

const KEY_1: [u8; 32] = [
    0x36, 0x3e, 0xaa, 0x38, 0x67, 0x84, 0x1f, 0xba, 0xd0, 0xf4, 0xed, 0x88, 0xc7, 0x79, 0xe4, 0xfe,
    0x66, 0xe5, 0x6a, 0x24, 0x70, 0xdc, 0x98, 0xc0, 0xec, 0x9c, 0x07, 0x3d, 0x05, 0xc7, 0xb1, 0x03,
];

const KEY_2: [u8; 32] = [
    0x3f, 0x0c, 0x34, 0xbf, 0x93, 0xad, 0x0d, 0x99, 0x71, 0xd0, 0x4c, 0xcc, 0x90, 0xf7, 0x05, 0x51,
    0x1c, 0x83, 0x8a, 0xad, 0x97, 0x34, 0xa4, 0xa2, 0xfb, 0x0d, 0x7a, 0x03, 0xfc, 0x7f, 0xe8, 0x9a,
];

fn u32_be(v: u32) -> Vec<u8> {
    v.to_be_bytes().to_vec()
}

fn u64_be(v: u64) -> Vec<u8> {
    v.to_be_bytes().to_vec()
}

fn i64_be(v: i64) -> Vec<u8> {
    v.to_be_bytes().to_vec()
}

fn opaque(bytes: &[u8]) -> Vec<u8> {
    let mut v = u32_be(bytes.len() as u32);
    v.extend_from_slice(bytes);
    while v.len() % 4 != 0 {
        v.push(0);
    }
    v
}

fn join(parts: &[Vec<u8>]) -> Vec<u8> {
    parts.concat()
}

fn value(code: u32, body: Vec<u8>) -> Vec<u8> {
    join(&[u32_be(code), body])
}

fn contract_address(key: &[u8; 32]) -> Vec<u8> {
    join(&[u32_be(1), key.to_vec()])
}

fn decoded<'a>(data: &'a [u8]) -> ScVal<'a> {
    let mut parser = Parser::new(data);
    let v = ScVal::parse(&mut parser).unwrap();
    assert_eq!(parser.offset(), data.len());
    v
}

fn refused(data: &[u8]) -> ParseError {
    let mut parser = Parser::new(data);
    ScVal::parse(&mut parser).unwrap_err()
}

fn call_bytes(key: &[u8; 32], function: &[u8], args: Vec<Vec<u8>>) -> Vec<u8> {
    join(&[contract_address(key), opaque(function), u32_be(args.len() as u32), args.concat()])
}

fn call<'a>(key: &'a [u8; 32], function: &'a [u8], args: Vec<ScVal<'a>>) -> InvokeContractArgs<'a> {
    InvokeContractArgs {
        contract_address: ScAddress::ScAddressTypeContract(Uint256(key)),
        function_name: StringM::new(function),
        args: VecM::new(args),
    }
}

#[test]
fn the_small_values_are_decoded() {
    assert_eq!(decoded(&value(0, u32_be(1))), ScVal::Bool(true));
    assert_eq!(decoded(&value(0, u32_be(0))), ScVal::Bool(false));
    assert_eq!(refused(&value(0, u32_be(2))), ParseError::InvalidType(2));
    assert_eq!(decoded(&value(1, vec![])), ScVal::Void);
    assert_eq!(decoded(&value(3, u32_be(u32::MAX))), ScVal::U32(u32::MAX));
    assert_eq!(decoded(&value(4, u32_be(u32::MAX))), ScVal::I32(-1));
    assert_eq!(decoded(&value(5, u64_be(u64::MAX))), ScVal::U64(u64::MAX));
    assert_eq!(decoded(&value(6, i64_be(i64::MIN))), ScVal::I64(i64::MIN));
    assert_eq!(decoded(&value(7, u64_be(1_703_335_871))), ScVal::Timepoint(1_703_335_871));
    assert_eq!(decoded(&value(8, u64_be(3600))), ScVal::Duration(3600));
    assert_eq!(decoded(&value(20, vec![])), ScVal::LedgerKeyContractInstance);
    assert_eq!(
        decoded(&value(21, i64_be(-9))),
        ScVal::LedgerKeyNonce(ScNonceKey { nonce: -9 })
    );
    assert_eq!(refused(&u32_be(22)), ParseError::InvalidType(22));
    assert_eq!(refused(&value(5, u32_be(1))), ParseError::BufferOverflow);
}

#[test]
fn the_wide_integers_are_decoded_word_by_word() {
    assert_eq!(
        decoded(&value(9, join(&[u64_be(1), u64_be(2)]))),
        ScVal::U128(UInt128Parts { hi: 1, lo: 2 })
    );
    assert_eq!(
        decoded(&value(10, join(&[i64_be(-1), u64_be(u64::MAX)]))),
        ScVal::I128(Int128Parts { hi: -1, lo: u64::MAX })
    );
    assert_eq!(
        decoded(&value(11, join(&[u64_be(1), u64_be(2), u64_be(3), u64_be(4)]))),
        ScVal::U256(UInt256Parts { hi_hi: 1, hi_lo: 2, lo_hi: 3, lo_lo: 4 })
    );
    assert_eq!(
        decoded(&value(12, join(&[i64_be(i64::MIN), u64_be(0), u64_be(0), u64_be(7)]))),
        ScVal::I256(Int256Parts { hi_hi: i64::MIN, hi_lo: 0, lo_hi: 0, lo_lo: 7 })
    );
}

#[test]
fn errors_are_decoded_by_their_origin() {
    assert_eq!(
        decoded(&value(2, join(&[u32_be(0), u32_be(77)]))),
        ScVal::Error(SCError::SceContract(77))
    );
    assert_eq!(
        decoded(&value(2, join(&[u32_be(1), u32_be(9)]))),
        ScVal::Error(SCError::SceWasmVm(SCErrorCode::ScecUnexpectedSize))
    );
    assert_eq!(
        decoded(&value(2, join(&[u32_be(9), u32_be(0)]))),
        ScVal::Error(SCError::SceAuth(SCErrorCode::ScecArithDomain))
    );
    assert_eq!(refused(&value(2, join(&[u32_be(10), u32_be(0)]))), ParseError::InvalidType(10));
    assert_eq!(refused(&value(2, join(&[u32_be(1), u32_be(10)]))), ParseError::InvalidType(10));
}

#[test]
fn byte_strings_are_decoded_with_their_bounds() {
    assert_eq!(decoded(&value(13, opaque(&[1, 2, 3]))), ScVal::Bytes(BytesM::new(&[1, 2, 3])));
    assert_eq!(decoded(&value(14, opaque(b"hello"))), ScVal::String(StringM::new(b"hello")));
    assert_eq!(decoded(&value(14, opaque(b""))), ScVal::String(StringM::new(b"")));
    assert_eq!(decoded(&value(15, opaque(&[b's'; 32]))), ScVal::Symbol(StringM::new(&[b's'; 32])));
    assert_eq!(
        refused(&value(15, opaque(&[b's'; 33]))),
        ParseError::LengthExceedsMax { actual: 33, max: 32 }
    );
    assert_eq!(refused(&value(13, join(&[u32_be(5), vec![1, 2, 3]]))), ParseError::BufferOverflow);
    assert_eq!(
        refused(&value(13, join(&[u32_be(1), vec![1, 0, 0, 9]]))),
        ParseError::InvalidPadding
    );
}

#[test]
fn lists_and_maps_are_decoded_item_by_item() {
    assert_eq!(decoded(&value(16, u32_be(0))), ScVal::Vec(None));
    assert_eq!(decoded(&value(16, join(&[u32_be(1), u32_be(0)]))), ScVal::Vec(Some(VecM::new(vec![]))));
    let list = value(
        16,
        join(&[u32_be(1), u32_be(3), value(3, u32_be(5)), value(1, vec![]), value(16, u32_be(0))]),
    );
    assert_eq!(
        decoded(&list),
        ScVal::Vec(Some(VecM::new(vec![ScVal::U32(5), ScVal::Void, ScVal::Vec(None)])))
    );
    assert_eq!(decoded(&value(17, u32_be(0))), ScVal::ScMap(None));
    let map = value(
        17,
        join(&[
            u32_be(1),
            u32_be(2),
            value(15, opaque(b"a")),
            value(3, u32_be(1)),
            value(15, opaque(b"b")),
            value(16, join(&[u32_be(1), u32_be(1), value(0, u32_be(1))])),
        ]),
    );
    assert_eq!(
        decoded(&map),
        ScVal::ScMap(Some(VecM::new(vec![
            ScMapEntry { key: ScVal::Symbol(StringM::new(b"a")), val: ScVal::U32(1) },
            ScMapEntry {
                key: ScVal::Symbol(StringM::new(b"b")),
                val: ScVal::Vec(Some(VecM::new(vec![ScVal::Bool(true)]))),
            },
        ])))
    );
    let short = value(16, join(&[u32_be(1), u32_be(2), value(1, vec![])]));
    assert_eq!(refused(&short), ParseError::BufferOverflow);
    let half = value(17, join(&[u32_be(1), u32_be(1), value(1, vec![])]));
    assert_eq!(refused(&half), ParseError::BufferOverflow);
    let bad_item = value(16, join(&[u32_be(1), u32_be(2), value(1, vec![]), u32_be(99)]));
    assert_eq!(refused(&bad_item), ParseError::InvalidType(99));
}

#[test]
fn each_kind_of_address_is_decoded() {
    assert_eq!(
        decoded(&value(18, join(&[u32_be(0), u32_be(0), KEY_1.to_vec()]))),
        ScVal::Address(ScAddress::ScAddressTypeAccount(PublicKey::PublicKeyTypeEd25519(
            Uint256(&KEY_1)
        )))
    );
    assert_eq!(
        decoded(&value(18, contract_address(&KEY_2))),
        ScVal::Address(ScAddress::ScAddressTypeContract(Uint256(&KEY_2)))
    );
    assert_eq!(
        decoded(&value(18, join(&[u32_be(2), u64_be(5), KEY_1.to_vec()]))),
        ScVal::Address(ScAddress::ScAddressTypeMuxedAccount(MuxedEd25519 {
            id: 5,
            ed25519: Uint256(&KEY_1),
        }))
    );
    assert_eq!(
        decoded(&value(18, join(&[u32_be(3), u32_be(0), KEY_1.to_vec()]))),
        ScVal::Address(ScAddress::ScAddressTypeClaimableBalance(
            ClaimableBalanceId::ClaimableBalanceIdTypeV0(Uint256(&KEY_1))
        ))
    );
    assert_eq!(
        decoded(&value(18, join(&[u32_be(4), KEY_2.to_vec()]))),
        ScVal::Address(ScAddress::ScAddressTypeLiquidityPool(Uint256(&KEY_2)))
    );
    assert_eq!(refused(&value(18, u32_be(5))), ParseError::InvalidType(5));
    assert_eq!(
        refused(&value(18, join(&[u32_be(0), u32_be(1), KEY_1.to_vec()]))),
        ParseError::InvalidType(1)
    );
}

#[test]
fn a_contract_instance_holds_its_code_and_its_storage() {
    let bare = value(19, join(&[u32_be(1), u32_be(0)]));
    assert_eq!(
        decoded(&bare),
        ScVal::ContractInstance(SCContractInstance {
            executable: ContractExecutable::StellarAsset,
            storage: None,
        })
    );
    let stored = value(
        19,
        join(&[
            u32_be(0),
            KEY_1.to_vec(),
            u32_be(1),
            u32_be(1),
            value(3, u32_be(1)),
            value(19, join(&[u32_be(1), u32_be(0)])),
        ]),
    );
    assert_eq!(
        decoded(&stored),
        ScVal::ContractInstance(SCContractInstance {
            executable: ContractExecutable::Wasm(Uint256(&KEY_1)),
            storage: Some(VecM::new(vec![ScMapEntry {
                key: ScVal::U32(1),
                val: ScVal::ContractInstance(SCContractInstance {
                    executable: ContractExecutable::StellarAsset,
                    storage: None,
                }),
            }])),
        })
    );
    assert_eq!(refused(&value(19, u32_be(2))), ParseError::InvalidType(2));
}

#[test]
fn host_functions_are_decoded() {
    let invoke = join(&[
        u32_be(0),
        u32_be(24),
        u32_be(0),
        call_bytes(&KEY_1, b"run", vec![value(3, u32_be(1)), value(1, vec![])]),
        u32_be(0),
    ]);
    let mut parser = Parser::new(&invoke);
    let op = Operation::parse(&mut parser).unwrap();
    assert_eq!(parser.offset(), invoke.len());
    assert_eq!(
        op.body,
        OperationBody::InvokeHostFunction(InvokeHostFunctionOp {
            host_function: HostFunction::InvokeContract(call(
                &KEY_1,
                b"run",
                vec![ScVal::U32(1), ScVal::Void]
            )),
            auth: VecM::new(vec![]),
        })
    );
    let create = join(&[
        u32_be(1),
        u32_be(0),
        contract_address(&KEY_1),
        KEY_2.to_vec(),
        u32_be(0),
        KEY_2.to_vec(),
    ]);
    let mut parser = Parser::new(&create);
    assert_eq!(
        HostFunction::parse(&mut parser),
        Ok(HostFunction::CreateContract(CreateContractArgs {
            contract_id_preimage: ContractIDPreimage::FromAddress(ContractIDPreimageFromAddress {
                address: ScAddress::ScAddressTypeContract(Uint256(&KEY_1)),
                salt: Uint256(&KEY_2),
            }),
            executable: ContractExecutable::Wasm(Uint256(&KEY_2)),
        }))
    );
    assert_eq!(parser.offset(), create.len());
    let upload = join(&[u32_be(2), opaque(&[0, 0x61, 0x73, 0x6d, 1])]);
    let mut parser = Parser::new(&upload);
    assert_eq!(
        HostFunction::parse(&mut parser),
        Ok(HostFunction::UploadContractWasm(&[0, 0x61, 0x73, 0x6d, 1]))
    );
    let create_v2 =
        join(&[u32_be(3), u32_be(1), u32_be(0), u32_be(1), u32_be(1), value(5, u64_be(9))]);
    let mut parser = Parser::new(&create_v2);
    assert_eq!(
        HostFunction::parse(&mut parser),
        Ok(HostFunction::CreateContractV2(CreateContractArgsV2 {
            contract_id_preimage: ContractIDPreimage::FromAsset(Asset::Native),
            executable: ContractExecutable::StellarAsset,
            constructor_args: VecM::new(vec![ScVal::U64(9)]),
        }))
    );
    let mut parser = Parser::new(&[0, 0, 0, 4]);
    assert_eq!(HostFunction::parse(&mut parser), Err(ParseError::InvalidType(4)));
}

#[test]
fn authorizations_are_decoded_with_what_is_under_them() {
    let inner = join(&[u32_be(0), call_bytes(&KEY_2, b"inner", vec![]), u32_be(0)]);
    let root = join(&[u32_be(0), call_bytes(&KEY_1, b"root", vec![]), u32_be(1), inner]);
    let by_source = join(&[u32_be(0), root.clone()]);
    let mut parser = Parser::new(&by_source);
    let entry = SorobanAuthorizationEntry::parse(&mut parser).unwrap();
    assert_eq!(parser.offset(), by_source.len());
    assert_eq!(entry.credentials, SorobanCredentials::SourceAccount);
    assert_eq!(
        entry.root_invocation,
        SorobanAuthorizedInvocation {
            function: SorobanAuthorizedFunction::ContractFn(call(&KEY_1, b"root", vec![])),
            sub_invocations: vec![SorobanAuthorizedInvocation {
                function: SorobanAuthorizedFunction::ContractFn(call(&KEY_2, b"inner", vec![])),
                sub_invocations: vec![],
            }],
        }
    );
    let by_address = join(&[
        u32_be(1),
        contract_address(&KEY_2),
        i64_be(-1),
        u32_be(99),
        value(1, vec![]),
        root,
    ]);
    let mut parser = Parser::new(&by_address);
    let entry = SorobanAuthorizationEntry::parse(&mut parser).unwrap();
    assert_eq!(parser.offset(), by_address.len());
    assert_eq!(
        entry.credentials,
        SorobanCredentials::Address(SorobanAddressCredentials {
            address: ScAddress::ScAddressTypeContract(Uint256(&KEY_2)),
            nonce: -1,
            signature_expiration_ledger: 99,
            signature: ScVal::Void,
        })
    );
    assert_eq!(entry.root_invocation.sub_invocations.len(), 1);
    let preimage = join(&[
        u32_be(9),
        KEY_1.to_vec(),
        i64_be(3),
        u32_be(4),
        u32_be(1),
        u32_be(1),
        u32_be(0),
        u32_be(1),
        u32_be(0),
    ]);
    let mut parser = Parser::new(&preimage);
    match HashIDPreimage::parse(&mut parser).unwrap() {
        HashIDPreimage::SorobanAuthorization(auth) => {
            assert_eq!(auth.network_id, Uint256(&KEY_1));
            assert_eq!(auth.nonce, 3);
            assert_eq!(auth.signature_expiration_ledger, 4);
            assert_eq!(
                auth.invocation.function,
                SorobanAuthorizedFunction::CreateContractHostFn(CreateContractArgs {
                    contract_id_preimage: ContractIDPreimage::FromAsset(Asset::Native),
                    executable: ContractExecutable::StellarAsset,
                })
            );
            assert!(auth.invocation.sub_invocations.is_empty());
        }
    }
    assert_eq!(parser.offset(), preimage.len());
    let mut parser = Parser::new(&[0, 0, 0, 8]);
    assert_eq!(HashIDPreimage::parse(&mut parser).err(), Some(ParseError::InvalidType(8)));
}

#[test]
fn a_transaction_is_decoded_up_to_its_operations() {
    let payload = [7u8; 5];
    let data = join(&[
        u32_be(0x100),
        u64_be(1),
        KEY_1.to_vec(),
        u32_be(1000),
        i64_be(55),
        u32_be(2),
        u32_be(1),
        u64_be(10),
        u64_be(20),
        u32_be(1),
        u32_be(30),
        u32_be(40),
        u32_be(1),
        i64_be(50),
        u64_be(60),
        u32_be(70),
        u32_be(2),
        u32_be(1),
        KEY_2.to_vec(),
        u32_be(3),
        KEY_2.to_vec(),
        opaque(&payload),
        u32_be(1),
        opaque(b"a memo of twenty-eight bytes"),
        u32_be(3),
    ]);
    let mut parser = Parser::new(&data);
    assert_eq!(
        Transaction::parse(&mut parser),
        Ok(Transaction {
            source_account: MuxedAccount::KeyTypeMuxedEd25519(MuxedEd25519 {
                id: 1,
                ed25519: Uint256(&KEY_1),
            }),
            fee: 1000,
            seq_num: 55,
            cond: Preconditions::V2(PreconditionsV2 {
                time_bounds: Some(TimeBounds { min_time: 10, max_time: 20 }),
                ledger_bounds: Some(LedgerBounds { min_ledger: 30, max_ledger: 40 }),
                min_seq_num: Some(50),
                min_seq_age: 60,
                min_seq_ledger_gap: 70,
                extra_signers: VecM::new(vec![
                    SignerKey::SignerKeyTypePreAuthTx(Uint256(&KEY_2)),
                    SignerKey::SignerKeyTypeEd25519SignedPayload(Ed25519SignedPayload {
                        ed25519: Uint256(&KEY_2),
                        payload: &payload,
                    }),
                ]),
            }),
            memo: Memo::Text(StringM::new(b"a memo of twenty-eight bytes")),
            op_count: 3,
        })
    );
    assert_eq!(parser.offset(), data.len());
}

#[test]
fn memos_and_time_bounds_are_decoded() {
    let head = join(&[u32_be(0), KEY_1.to_vec(), u32_be(100), i64_be(1)]);
    let timed = join(&[head.clone(), u32_be(1), u64_be(5), u64_be(6), u32_be(2), u64_be(77), u32_be(1)]);
    let mut parser = Parser::new(&timed);
    let tx = Transaction::parse(&mut parser).unwrap();
    assert_eq!(tx.cond, Preconditions::Time(TimeBounds { min_time: 5, max_time: 6 }));
    assert_eq!(tx.memo, Memo::Id(77));
    let hashed = join(&[head.clone(), u32_be(0), u32_be(3), KEY_2.to_vec(), u32_be(1)]);
    let mut parser = Parser::new(&hashed);
    assert_eq!(Transaction::parse(&mut parser).unwrap().memo, Memo::Hash(Uint256(&KEY_2)));
    let returned = join(&[head.clone(), u32_be(0), u32_be(4), KEY_2.to_vec(), u32_be(1)]);
    let mut parser = Parser::new(&returned);
    assert_eq!(Transaction::parse(&mut parser).unwrap().memo, Memo::Return(Uint256(&KEY_2)));
    let long_memo = join(&[head.clone(), u32_be(0), u32_be(1), opaque(&[b'm'; 29]), u32_be(1)]);
    let mut parser = Parser::new(&long_memo);
    assert_eq!(
        Transaction::parse(&mut parser).err(),
        Some(ParseError::LengthExceedsMax { actual: 29, max: 28 })
    );
    let bad_memo = join(&[head.clone(), u32_be(0), u32_be(5), u32_be(1)]);
    let mut parser = Parser::new(&bad_memo);
    assert_eq!(Transaction::parse(&mut parser).err(), Some(ParseError::InvalidType(5)));
    let bad_cond = join(&[head.clone(), u32_be(3), u32_be(0), u32_be(1)]);
    let mut parser = Parser::new(&bad_cond);
    assert_eq!(Transaction::parse(&mut parser).err(), Some(ParseError::InvalidType(3)));
    let three_signers =
        join(&[head, u32_be(2), u32_be(0), u32_be(0), u32_be(0), u64_be(0), u32_be(0), u32_be(3)]);
    let mut parser = Parser::new(&three_signers);
    assert_eq!(
        Transaction::parse(&mut parser).err(),
        Some(ParseError::LengthExceedsMax { actual: 3, max: 2 })
    );
}

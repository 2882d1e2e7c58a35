//! The checks that a transaction must pass before it is signed for a swap:
//! it must be the one payment of the native asset that the swap asks for.

use crate::bip32::{Bip32Path, ALLOWED_PATH_LEN};
use crate::parser::keys::PUBLIC_NETWORK_HASH;
use crate::parser::{
    Memo, Operation, OperationBody, Parser, PaymentOp, TaggedTransaction, Transaction,
    TransactionSignaturePayload, XdrParse,
};
use crate::swap_format::{address_bytes, format_stellar_address};
use crate::text::{bytes_equal, texts_equal, utf8_text};
use vstd::prelude::*;
use vstd::string::StringSliceAdditionalSpecFns;
use vstd::utf8::{decode_utf8, encode_utf8, valid_utf8};

verus! {

/// What a swap asks for: the amount and the fee as big-endian integers at
/// the end of their buffers, and the destination and its extra identifier as
/// texts at the start of theirs.
pub struct SwapTxParams<'a> {
    pub amount: &'a [u8],
    pub amount_len: usize,
    pub fee_amount: &'a [u8],
    pub fee_amount_len: usize,
    pub dest_address: &'a [u8],
    pub dest_address_len: usize,
    pub dest_address_extra_id: &'a [u8],
    pub dest_address_extra_id_len: usize,
}

/// The value of bytes read as one big-endian integer.
pub open spec fn be_value(bytes: Seq<u8>) -> int
    decreases bytes.len(),
{
    if bytes.len() == 0 {
        0
    } else {
        be_value(bytes.drop_last()) * 256 + bytes.last() as int
    }
}

/// The integer that the last `len` bytes of a buffer hold, where `len` is
/// from one to eight and not more than the buffer has.
pub open spec fn trailing_integer(bytes: Seq<u8>, len: int) -> Option<int> {
    if len <= 0 || len > 8 || len > bytes.len() {
        None
    } else {
        Some(be_value(bytes.subrange(bytes.len() - len, bytes.len() as int)))
    }
}

/// 256 to the power of `n`.
pub open spec fn pow256(n: nat) -> int
    decreases n,
{
    if n == 0 {
        1
    } else {
        256 * pow256((n - 1) as nat)
    }
}

/// An integer of `n` bytes is less than 256 to the power of `n`.
proof fn lemma_be_value_bound(bytes: Seq<u8>)
    ensures
        0 <= be_value(bytes) < pow256(bytes.len()),
    decreases bytes.len(),
{
    if bytes.len() > 0 {
        lemma_be_value_bound(bytes.drop_last());
    }
}

proof fn lemma_pow256_monotone(a: nat, b: nat)
    requires
        a <= b,
    ensures
        0 < pow256(a) <= pow256(b),
    decreases b,
{
    if a < b {
        lemma_pow256_monotone(a, (b - 1) as nat);
    } else if a > 0 {
        lemma_pow256_monotone((a - 1) as nat, (b - 1) as nat);
    }
}

proof fn lemma_pow256_8()
    ensures
        pow256(8) == 0x1_0000_0000_0000_0000,
{
    reveal_with_fuel(pow256, 9);
}

/// Reads the integer at the end of a buffer.
#[verifier::loop_isolation(false)]
pub fn bytes_to_u64_be(bytes: &[u8], len: usize) -> (r: Result<u64, &'static str>)
    ensures
        match r {
            Ok(v) => trailing_integer(bytes@, len as int) == Some(v as int),
            Err(m) => trailing_integer(bytes@, len as int) is None && m@
                == "Invalid integer length"@,
        },
{
    if len == 0 || len > 8 || len > bytes.len() {
        return Err("Invalid integer length");
    }
    let start = bytes.len() - len;
    let ghost digits = bytes@.subrange(start as int, bytes@.len() as int);
    let mut value: u64 = 0;
    let mut i: usize = 0;
    proof {
        assert(digits.subrange(0, 0) =~= Seq::<u8>::empty());
        lemma_pow256_8();
    }
    while i < len
        invariant
            i <= len,
            value == be_value(digits.subrange(0, i as int)),
        decreases len - i,
    {
        proof {
            lemma_be_value_bound(digits.subrange(0, i as int));
            lemma_be_value_bound(digits.subrange(0, i + 1));
            lemma_pow256_monotone((i + 1) as nat, 8);
            assert(digits.subrange(0, i + 1).drop_last() =~= digits.subrange(0, i as int));
            assert(digits.subrange(0, i + 1).last() == bytes@[start + i]);
        }
        value = value * 256 + bytes[start + i] as u64;
        i += 1;
    }
    proof {
        assert(digits.subrange(0, len as int) =~= digits);
    }
    Ok(value)
}

/// The text that the first `len` bytes of a buffer hold, where there are
/// that many and they are UTF-8.
pub open spec fn leading_text(bytes: Seq<u8>, len: int) -> Result<Seq<char>, Seq<char>> {
    if len < 0 || len > bytes.len() {
        Err("Invalid UTF-8 length"@)
    } else if !valid_utf8(bytes.subrange(0, len)) {
        Err("Invalid UTF-8 data"@)
    } else {
        Ok(decode_utf8(bytes.subrange(0, len)))
    }
}

/// What a check reports: for a text the text, for a message the message.
pub open spec fn text_or_message(r: Result<&str, &'static str>) -> Result<Seq<char>, Seq<char>> {
    match r {
        Ok(s) => Ok(s@),
        Err(m) => Err(m@),
    }
}

/// Reads the text at the start of a buffer.
pub fn utf8_from_prefix<'a>(bytes: &'a [u8], len: usize) -> (r: Result<&'a str, &'static str>)
    ensures
        text_or_message(r) == leading_text(bytes@, len as int),
{
    broadcast use vstd::utf8::encode_utf8_decode_utf8;

    if len > bytes.len() {
        return Err("Invalid UTF-8 length");
    }
    match utf8_text(vstd::slice::slice_subrange(bytes, 0, len)) {
        Some(s) => {
            proof {
                assert(s.spec_bytes() == encode_utf8(s@));
                assert(decode_utf8(encode_utf8(s@)) == s@);
            }
            Ok(s)
        },
        None => Err("Invalid UTF-8 data"),
    }
}

/// Whether a check failed, and with which message.
pub open spec fn failure(r: Result<(), &'static str>) -> Option<Seq<char>> {
    match r {
        Ok(_) => None,
        Err(m) => Some(m@),
    }
}

/// Why a network is not the one of a swap: a swap is on the public network.
pub open spec fn network_failure(payload: TransactionSignaturePayload) -> Option<Seq<char>> {
    if payload.network_id.0@ != PUBLIC_NETWORK_HASH@ {
        Some("Unexpected network ID for swap transaction"@)
    } else {
        None
    }
}

/// Checks that a transaction is on the public network.
pub fn validate_network(payload: &TransactionSignaturePayload) -> (r: Result<(), &'static str>)
    ensures
        failure(r) == network_failure(*payload),
{
    let public = PUBLIC_NETWORK_HASH;
    if !bytes_equal(payload.network_id.0.as_slice(), public.as_slice()) {
        return Err("Unexpected network ID for swap transaction");
    }
    Ok(())
}

/// Takes the transaction out of what is signed: a swap is no fee bump.
pub fn extract_transaction<'a, 'b>(
    payload: &'b TransactionSignaturePayload<'a>,
) -> (r: Result<&'b Transaction<'a>, &'static str>)
    ensures
        match r {
            Ok(tx) => payload.tagged_transaction == TaggedTransaction::EnvelopeTypeTx(*tx),
            Err(m) => !(payload.tagged_transaction is EnvelopeTypeTx) && m@
                == "Swap transaction must be a regular transaction"@,
        },
{
    match &payload.tagged_transaction {
        TaggedTransaction::EnvelopeTypeTx(transaction) => Ok(transaction),
        _ => Err("Swap transaction must be a regular transaction"),
    }
}

/// Why a memo is not the one of a swap: it must be a text, and the text
/// must be the extra identifier of the destination.
pub open spec fn memo_failure(tx: Transaction, params: SwapTxParams) -> Option<Seq<char>> {
    match tx.memo {
        Memo::Text(memo) => match leading_text(
            params.dest_address_extra_id@,
            params.dest_address_extra_id_len as int,
        ) {
            Err(m) => Some(m),
            Ok(extra_id) => if memo.text() != extra_id {
                Some("Memo does not match provided extra ID"@)
            } else {
                None
            },
        },
        _ => Some("Swap transaction memo must be text"@),
    }
}

/// Checks the memo of a swap transaction.
pub fn validate_memo(
    envelope: &Transaction,
    tx_params: &SwapTxParams,
) -> (r: Result<(), &'static str>)
    ensures
        failure(r) == memo_failure(*envelope, *tx_params),
{
    let memo_text = match &envelope.memo {
        Memo::Text(memo) => memo.to_string(),
        _ => {
            return Err("Swap transaction memo must be text");
        },
    };
    let extra_id = utf8_from_prefix(
        tx_params.dest_address_extra_id,
        tx_params.dest_address_extra_id_len,
    )?;
    if !texts_equal(memo_text.as_str(), extra_id) {
        return Err("Memo does not match provided extra ID");
    }
    Ok(())
}

/// Why an amount is not the one of a swap: it must not be negative and
/// must be the amount asked for.
pub open spec fn amount_failure(payment: PaymentOp, params: SwapTxParams) -> Option<Seq<char>> {
    match trailing_integer(params.amount@, params.amount_len as int) {
        None => Some("Invalid integer length"@),
        Some(expected) => if payment.amount < 0 {
            Some("Payment amount is negative or invalid"@)
        } else if payment.amount != expected {
            Some("Amount mismatch between on-chain payment and expected amount"@)
        } else {
            None
        },
    }
}

/// Checks the amount of a swap payment.
pub fn validate_amount(
    payment_op: &PaymentOp,
    tx_params: &SwapTxParams,
) -> (r: Result<(), &'static str>)
    ensures
        failure(r) == amount_failure(*payment_op, *tx_params),
{
    let expected_amount = bytes_to_u64_be(tx_params.amount, tx_params.amount_len)?;
    if payment_op.amount < 0 {
        return Err("Payment amount is negative or invalid");
    }
    let on_chain_amount = payment_op.amount as u64;
    if on_chain_amount != expected_amount {
        return Err("Amount mismatch between on-chain payment and expected amount");
    }
    Ok(())
}

/// Why a destination is not the one of a swap.
pub open spec fn destination_failure(
    payment: PaymentOp,
    params: SwapTxParams,
) -> Option<Seq<char>> {
    match leading_text(params.dest_address@, params.dest_address_len as int) {
        Err(m) => Some(m),
        Ok(expected) => if payment.destination.text() != expected {
            Some("Destination address mismatch"@)
        } else {
            None
        },
    }
}

/// Checks the destination of a swap payment.
pub fn validate_destination(
    payment_op: &PaymentOp,
    tx_params: &SwapTxParams,
) -> (r: Result<(), &'static str>)
    ensures
        failure(r) == destination_failure(*payment_op, *tx_params),
{
    let expected_dest = utf8_from_prefix(tx_params.dest_address, tx_params.dest_address_len)?;
    if !texts_equal(payment_op.destination.to_string().as_str(), expected_dest) {
        return Err("Destination address mismatch");
    }
    Ok(())
}

/// Why an operation is not the one of a swap: it must act for the signer,
/// and be a payment of the native asset, of the amount and to the
/// destination asked for.
pub open spec fn payment_failure(
    op: Operation,
    params: SwapTxParams,
    signer: Seq<char>,
) -> Option<Seq<char>> {
    if op.source_account is Some && op.source_account->0.text() != signer {
        Some("Operation source account does not match signer"@)
    } else {
        match op.body {
            OperationBody::Payment(payment) => if !(payment.asset is Native) {
                Some("Swap payment asset must be native XLM"@)
            } else if amount_failure(payment, params) is Some {
                amount_failure(payment, params)
            } else {
                destination_failure(payment, params)
            },
            _ => Some("Swap transaction operation is not a payment"@),
        }
    }
}

/// Checks the operation of a swap transaction.
pub fn validate_payment_operation(
    operation: &Operation,
    tx_params: &SwapTxParams,
    signer: &str,
) -> (r: Result<(), &'static str>)
    ensures
        failure(r) == payment_failure(*operation, *tx_params, signer@),
{
    if let Some(source) = &operation.source_account {
        if !texts_equal(source.to_string().as_str(), signer) {
            return Err("Operation source account does not match signer");
        }
    }
    let payment_op = match &operation.body {
        OperationBody::Payment(payment) => payment,
        _ => {
            return Err("Swap transaction operation is not a payment");
        },
    };
    if !payment_op.asset.is_native() {
        return Err("Swap payment asset must be native XLM");
    }
    validate_amount(payment_op, tx_params)?;
    validate_destination(payment_op, tx_params)?;
    Ok(())
}

/// Why a fee is not the one of a swap.
pub open spec fn fee_failure(tx: Transaction, params: SwapTxParams) -> Option<Seq<char>> {
    match trailing_integer(params.fee_amount@, params.fee_amount_len as int) {
        None => Some("Invalid integer length"@),
        Some(expected) => if expected > u32::MAX {
            Some("Expected fee does not fit in u32"@)
        } else if tx.fee != expected {
            Some("Fee mismatch between transaction and expected amount"@)
        } else {
            None
        },
    }
}

/// Checks the fee of a swap transaction.
pub fn validate_fee(
    envelope: &Transaction,
    tx_params: &SwapTxParams,
) -> (r: Result<(), &'static str>)
    ensures
        failure(r) == fee_failure(*envelope, *tx_params),
{
    let expected_fee = bytes_to_u64_be(tx_params.fee_amount, tx_params.fee_amount_len)?;
    if expected_fee > 0xffff_ffff {
        return Err("Expected fee does not fit in u32");
    }
    if envelope.fee != expected_fee as u32 {
        return Err("Fee mismatch between transaction and expected amount");
    }
    Ok(())
}

/// Why what is signed is not the envelope of a swap, before its operation
/// is looked at: it must be on the public network, a plain transaction, from
/// the signer, with the extra identifier as its memo, and of one
/// operation.
pub open spec fn envelope_failure(
    payload: TransactionSignaturePayload,
    params: SwapTxParams,
    signer: Seq<char>,
) -> Option<Seq<char>> {
    if network_failure(payload) is Some {
        network_failure(payload)
    } else {
        match payload.tagged_transaction {
            TaggedTransaction::EnvelopeTypeTx(tx) => if tx.source_account.text() != signer {
                Some("Transaction source account does not match signer"@)
            } else if memo_failure(tx, params) is Some {
                memo_failure(tx, params)
            } else if tx.op_count != 1 {
                Some("Swap transaction must contain exactly one operation"@)
            } else {
                None
            },
            _ => Some("Swap transaction must be a regular transaction"@),
        }
    }
}

/// Checks what is signed for a swap before its operation is looked at, and
/// gives the transaction.
pub fn validate_envelope<'a, 'b>(
    payload: &'b TransactionSignaturePayload<'a>,
    tx_params: &SwapTxParams,
    signer: &str,
) -> (r: Result<&'b Transaction<'a>, &'static str>)
    ensures
        match r {
            Ok(tx) => envelope_failure(*payload, *tx_params, signer@) is None
                && payload.tagged_transaction == TaggedTransaction::EnvelopeTypeTx(*tx),
            Err(m) => envelope_failure(*payload, *tx_params, signer@) == Some(m@),
        },
{
    validate_network(payload)?;
    let envelope = extract_transaction(payload)?;
    if !texts_equal(envelope.source_account.to_string().as_str(), signer) {
        return Err("Transaction source account does not match signer");
    }
    validate_memo(envelope, tx_params)?;
    if envelope.op_count != 1 {
        return Err("Swap transaction must contain exactly one operation");
    }
    Ok(envelope)
}

/// Checks a transaction against what a swap asks for. The bytes hold what
/// is signed and, after it, the transaction's one operation.
pub fn validate_swap_transaction(
    raw_data: &[u8],
    tx_params: &SwapTxParams,
    signer: &str,
) -> (r: Result<(), &'static str>)
    ensures
        match r {
            Ok(_) => exists|payload: TransactionSignaturePayload, op: Operation|
                {
                    &&& TransactionSignaturePayload::scan(raw_data@, 0, 0) is Ok
                    &&& payload.decoded_from(raw_data@, 0, 0)
                    &&& envelope_failure(payload, *tx_params, signer@) is None
                    &&& op.decoded_from(
                        raw_data@,
                        TransactionSignaturePayload::scan(raw_data@, 0, 0)->Ok_0,
                        0,
                    )
                    &&& payment_failure(op, *tx_params, signer@) is None
                    &&& fee_failure(payload.tagged_transaction->EnvelopeTypeTx_0, *tx_params)
                        is None
                },
            Err(m) => {
                ||| TransactionSignaturePayload::scan(raw_data@, 0, 0) is Err && m@
                    == "Failed to parse transaction payload"@
                ||| exists|payload: TransactionSignaturePayload|
                    {
                        &&& payload.decoded_from(raw_data@, 0, 0)
                        &&& envelope_failure(payload, *tx_params, signer@) == Some(m@)
                    }
                ||| exists|payload: TransactionSignaturePayload|
                    {
                        &&& TransactionSignaturePayload::scan(raw_data@, 0, 0) is Ok
                        &&& payload.decoded_from(raw_data@, 0, 0)
                        &&& envelope_failure(payload, *tx_params, signer@) is None
                        &&& Operation::scan(
                            raw_data@,
                            TransactionSignaturePayload::scan(raw_data@, 0, 0)->Ok_0,
                            0,
                        ) is Err
                        &&& m@ == "Failed to parse payment operation"@
                    }
                ||| exists|payload: TransactionSignaturePayload, op: Operation|
                    {
                        &&& payload.decoded_from(raw_data@, 0, 0)
                        &&& envelope_failure(payload, *tx_params, signer@) is None
                        &&& op.decoded_from(
                            raw_data@,
                            TransactionSignaturePayload::scan(raw_data@, 0, 0)->Ok_0,
                            0,
                        )
                        &&& (payment_failure(op, *tx_params, signer@) == Some(m@) || (
                        payment_failure(op, *tx_params, signer@) is None && fee_failure(
                            payload.tagged_transaction->EnvelopeTypeTx_0,
                            *tx_params,
                        ) == Some(m@)))
                    }
            },
        },
{
    let mut parser = Parser::new(raw_data);
    let payload = match TransactionSignaturePayload::parse(&mut parser) {
        Ok(p) => p,
        Err(_) => {
            return Err("Failed to parse transaction payload");
        },
    };
    let envelope = validate_envelope(&payload, tx_params, signer)?;
    let operation = match Operation::parse(&mut parser) {
        Ok(op) => op,
        Err(_) => {
            return Err("Failed to parse payment operation");
        },
    };
    validate_payment_operation(&operation, tx_params, signer)?;
    validate_fee(envelope, tx_params)?;
    Ok(())
}

/// Checks the number of segments of the path of an address to check, and
/// reads the path.
pub fn check_address_path(dpath: &[u8], dpath_len: usize) -> (r: Result<Bip32Path, &'static str>)
    ensures
        match r {
            Ok(p) => dpath_len == 3 && dpath@.len() >= 12 && p.0@ == Bip32Path::segments_of(
                dpath@,
            ),
            Err(m) => if dpath_len != 3 {
                m@ == "Invalid derivation path length"@
            } else {
                dpath@.len() < 12 && m@ == "Derivation path failure"@
            },
        },
{
    if dpath_len != ALLOWED_PATH_LEN {
        return Err("Invalid derivation path length");
    }
    match Bip32Path::parse(dpath) {
        Ok(p) => Ok(p),
        Err(_) => Err("Derivation path failure"),
    }
}

/// Why a key is not the one of a reference address.
pub open spec fn address_failure(
    public_key: Seq<u8>,
    ref_address: Seq<u8>,
    len: int,
) -> Option<Seq<char>> {
    if len < 0 || len > ref_address.len() || !valid_utf8(ref_address.subrange(0, len)) {
        Some("Invalid UTF-8 in reference address"@)
    } else if address_bytes(public_key) != ref_address.subrange(0, len) {
        Some("Address mismatch"@)
    } else {
        None
    }
}

/// Checks that the address of a key is the reference address.
pub fn check_address_matches(
    public_key: &[u8; 32],
    ref_address: &[u8],
    ref_address_len: usize,
) -> (r: Result<(), &'static str>)
    ensures
        failure(r) == address_failure(public_key@, ref_address@, ref_address_len as int),
{
    let mut address_buffer: [u8; 64] = [0u8; 64];
    let address_len = match format_stellar_address(
        public_key,
        vstd::array::ref_mut_array_unsizing_coercion(&mut address_buffer),
    ) {
        Ok(n) => n,
        Err(_) => {
            return Err("Address formatting failure");
        },
    };
    if ref_address_len > ref_address.len() {
        return Err("Invalid UTF-8 in reference address");
    }
    let reference = vstd::slice::slice_subrange(ref_address, 0, ref_address_len);
    if utf8_text(reference).is_none() {
        return Err("Invalid UTF-8 in reference address");
    }
    let address = vstd::slice::slice_subrange(address_buffer.as_slice(), 0, address_len);
    if bytes_equal(address, reference) {
        Ok(())
    } else {
        Err("Address mismatch")
    }
}

} // verus!

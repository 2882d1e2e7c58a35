//! What is put before the user for approval: the titles and the fields of a
//! transaction or of an authorization, decoded from the bytes of a request.

use crate::display::{format_public_key, strkey_public_key};
use crate::formatter::{
    append_entries, authorization_preimage_entries, check_operation_fits, check_payload_fits,
    entries_text, format_hash_id_preimage_soroban_authorization, format_operation,
    format_transaction_signature_payload, get_operation_intent, operation_entries,
    operation_fits, operation_intent, payload_fits, push_entry, signature_payload_entries,
    text_if_any, DataEntry, EntryText, FormatConfig,
};
use crate::parser::cursor::stepped;
use crate::parser::{
    HashIDPreimage, InnerTransaction, Operation, OperationBody, ParseError, Parser,
    TaggedTransaction, Transaction, TransactionSignaturePayload, XdrParse,
};
use crate::sw::AppSW;
use crate::text::{decimal, u128_text};
use vstd::prelude::*;
use vstd::string::StringExecFns;

verus! {

/// What is shown for approval.
pub struct Review {
    /// The title of the first page.
    pub title: String,
    /// The question of the last page.
    pub finish_title: String,
    /// Whether the user is warned that not all of the content can be
    /// shown.
    pub blind: bool,
    /// The fields, in the order in which they are shown.
    pub entries: Vec<DataEntry>,
}

/// Where what is signed for a transaction ends in `data`, or the error
/// that its decoding gives.
#[verifier::opaque]
pub open spec fn payload_scan(data: Seq<u8>) -> Result<int, ParseError> {
    TransactionSignaturePayload::scan(data, 0, 0)
}

/// Whether `payload` is what `data` encodes at its start.
#[verifier::opaque]
pub open spec fn decodes_payload(payload: TransactionSignaturePayload, data: Seq<u8>) -> bool {
    payload.decoded_from(data, 0, 0)
}

/// Where an operation at `at` ends, or the error that its decoding gives.
#[verifier::opaque]
pub open spec fn operation_scan(data: Seq<u8>, at: int) -> Result<int, ParseError> {
    Operation::scan(data, at, 0)
}

/// Whether `op` is the operation that `data` encodes at `at`.
#[verifier::opaque]
pub open spec fn decodes_operation(op: Operation, data: Seq<u8>, at: int) -> bool {
    op.decoded_from(data, at, 0)
}

/// The fields of what is signed for a transaction, where they can be
/// written.
#[verifier::opaque]
pub open spec fn payload_fields(
    payload: TransactionSignaturePayload,
    config: FormatConfig,
    signer: Seq<char>,
) -> Option<Seq<EntryText>> {
    if payload_fits(payload) {
        Some(signature_payload_entries(payload, config, signer))
    } else {
        None
    }
}

/// The fields of an operation, where it can be shown.
#[verifier::opaque]
pub open spec fn operation_fields(
    op: Operation,
    config: FormatConfig,
    tx_source: Seq<char>,
) -> Option<Seq<EntryText>> {
    if operation_fits(op) && operation_entries(op, config, tx_source) is Ok {
        Some(operation_entries(op, config, tx_source)->Ok_0)
    } else {
        None
    }
}

/// In a few words what an operation is for, where that can be said.
#[verifier::opaque]
pub open spec fn operation_purpose(op: Operation, tx_source: Seq<char>) -> Option<Seq<char>> {
    operation_intent(op, tx_source)
}

/// The transaction that is signed: the one inside where it is a fee bump.
pub open spec fn signed_transaction(payload: TransactionSignaturePayload) -> Transaction {
    match payload.tagged_transaction {
        TaggedTransaction::EnvelopeTypeTx(tx) => tx,
        TaggedTransaction::EnvelopeTypeTxFeeBump(bump) => bump.inner_tx->EnvelopeTypeTx_0,
    }
}

/// Where the first `n` operations end that follow one another from
/// `start`.
pub open spec fn operations_scan(data: Seq<u8>, start: int, n: nat) -> Result<int, ParseError>
    decreases n,
{
    if n == 0 {
        Ok(start)
    } else {
        match operations_scan(data, start, (n - 1) as nat) {
            Ok(p) => operation_scan(data, p),
            Err(e) => Err(e),
        }
    }
}

/// Whether `ops` are the operations that follow one another in `data`
/// from `start`.
pub open spec fn operations_decoded(ops: Seq<Operation>, data: Seq<u8>, start: int) -> bool {
    forall|i: int|
        0 <= i < ops.len() ==> decodes_operation(
            #[trigger] ops[i],
            data,
            operations_scan(data, start, i as nat).unwrap(),
        )
}

/// The field that stands before an operation where there are several.
pub open spec fn operation_heading(i: int, count: int) -> EntryText {
    ("Operation"@, decimal(i) + " of "@ + decimal(count))
}

/// The fields of the first `n` operations of a transaction of `count`
/// operations, each under a heading where there are several.
pub open spec fn operations_fields(
    ops: Seq<Operation>,
    config: FormatConfig,
    tx_source: Seq<char>,
    count: int,
    n: nat,
) -> Seq<EntryText>
    decreases n,
{
    if n == 0 || n > ops.len() {
        Seq::empty()
    } else {
        operations_fields(ops, config, tx_source, count, (n - 1) as nat) + (if count > 1 {
            seq![operation_heading(n as int, count)]
        } else {
            Seq::empty()
        }) + operation_fields(ops[n - 1], config, tx_source)->0
    }
}

/// The fields of the first operations do not change when more operations
/// follow.
proof fn lemma_operations_fields_prefix(
    before: Seq<Operation>,
    after: Seq<Operation>,
    config: FormatConfig,
    tx_source: Seq<char>,
    count: int,
    n: nat,
)
    requires
        n <= before.len() <= after.len(),
        forall|j: int| 0 <= j < before.len() ==> before[j] == after[j],
    ensures
        operations_fields(before, config, tx_source, count, n) == operations_fields(
            after,
            config,
            tx_source,
            count,
            n,
        ),
    decreases n,
{
    if n > 0 {
        lemma_operations_fields_prefix(before, after, config, tx_source, count, (n - 1) as nat);
    }
}

/// Whether one of the operations runs a host function, so that not all of
/// its content can be shown.
pub open spec fn needs_blind_signing(ops: Seq<Operation>) -> bool {
    exists|i: int| 0 <= i < ops.len() && (#[trigger] ops[i]).body is InvokeHostFunction
}

/// What a transaction is for, where it has one operation and that can be
/// said.
pub open spec fn review_purpose(ops: Seq<Operation>, tx_source: Seq<char>) -> Option<Seq<char>> {
    if ops.len() == 1 {
        operation_purpose(ops[0], tx_source)
    } else {
        None
    }
}

/// The title of the review of a transaction: for a fee bump that it is
/// one, else what the transaction is for where that can be said.
pub open spec fn review_title(fee_bump: bool, purpose: Option<Seq<char>>) -> Seq<char> {
    if fee_bump {
        "Review fee bump transaction"@
    } else {
        match purpose {
            Some(p) => "Review transaction to "@ + p,
            None => "Review transaction"@,
        }
    }
}

/// The question at the end of the review of a transaction.
pub open spec fn review_finish_title(fee_bump: bool, purpose: Option<Seq<char>>) -> Seq<char> {
    if fee_bump {
        "Sign fee bump transaction?"@
    } else {
        match purpose {
            Some(p) => "Sign transaction to "@ + p + "?"@,
            None => "Sign transaction?"@,
        }
    }
}

/// Whether `review` is what is shown for the transaction `payload` with
/// the operations `ops`, signed by `signer`.
pub open spec fn reviews(
    review: Review,
    payload: TransactionSignaturePayload,
    ops: Seq<Operation>,
    config: FormatConfig,
    signer: Seq<char>,
) -> bool {
    let tx_source = signed_transaction(payload).source_account.text();
    let fee_bump = payload.tagged_transaction is EnvelopeTypeTxFeeBump;
    &&& review.title@ == review_title(fee_bump, review_purpose(ops, tx_source))
    &&& review.finish_title@ == review_finish_title(fee_bump, review_purpose(ops, tx_source))
    &&& review.blind == needs_blind_signing(ops)
    &&& payload_fields(payload, config, signer) is Some
    &&& forall|i: int|
        0 <= i < ops.len() ==> operation_fields(#[trigger] ops[i], config, tx_source) is Some
    &&& entries_text(review.entries@) == payload_fields(payload, config, signer)->0
        + operations_fields(ops, config, tx_source, ops.len() as int, ops.len())
}

/// Whether each of the operations can be shown.
pub open spec fn all_shown(ops: Seq<Operation>, config: FormatConfig, tx_source: Seq<char>) -> bool {
    forall|i: int|
        0 <= i < ops.len() ==> operation_fields(#[trigger] ops[i], config, tx_source) is Some
}

/// Whether the review of a transaction's `count` operations stops with
/// the error `e` after the operations `ops`, which follow one another in
/// `data` from `start`: at the first operation that does not decode, at the
/// first that cannot be shown, which is then the last of `ops`, or, after
/// all of them, for a host function that may not be signed blindly.
pub open spec fn stopped(
    e: AppSW,
    ops: Seq<Operation>,
    data: Seq<u8>,
    start: int,
    count: nat,
    config: FormatConfig,
    tx_source: Seq<char>,
    blind_signing_enabled: bool,
) -> bool {
    &&& ops.len() <= count
    &&& operations_decoded(ops, data, start)
    &&& match e {
        AppSW::DataParsingFail => {
            &&& ops.len() < count
            &&& all_shown(ops, config, tx_source)
            &&& operations_scan(data, start, ops.len() + 1) is Err
        },
        AppSW::DataFormattingFail => {
            &&& ops.len() >= 1
            &&& all_shown(ops.drop_last(), config, tx_source)
            &&& operation_fields(ops.last(), config, tx_source) is None
        },
        AppSW::BlindSigningModeNotEnabled => {
            &&& ops.len() == count
            &&& all_shown(ops, config, tx_source)
            &&& needs_blind_signing(ops)
            &&& !blind_signing_enabled
        },
        _ => false,
    }
}

/// The review stops at an operation that cannot be shown.
proof fn lemma_stopped_showing(
    ops: Seq<Operation>,
    op: Operation,
    data: Seq<u8>,
    start: int,
    count: nat,
    config: FormatConfig,
    tx_source: Seq<char>,
    blind_signing_enabled: bool,
)
    requires
        ops.len() < count,
        operations_decoded(ops, data, start),
        all_shown(ops, config, tx_source),
        operations_scan(data, start, ops.len()) is Ok,
        decodes_operation(op, data, operations_scan(data, start, ops.len())->Ok_0),
        operation_fields(op, config, tx_source) is None,
    ensures
        stopped(
            AppSW::DataFormattingFail,
            ops.push(op),
            data,
            start,
            count,
            config,
            tx_source,
            blind_signing_enabled,
        ),
{
    let more = ops.push(op);
    assert(more.drop_last() =~= ops);
    assert forall|i: int| 0 <= i < more.len() implies decodes_operation(
        #[trigger] more[i],
        data,
        operations_scan(data, start, i as nat).unwrap(),
    ) by {
        if i < ops.len() {
            assert(more[i] == ops[i]);
        }
    }
}

fn titles(fee_bump: bool, intent: &Option<String>) -> (r: (String, String))
    ensures
        r.0@ == review_title(fee_bump, text_if_any(*intent)),
        r.1@ == review_finish_title(fee_bump, text_if_any(*intent)),
{
    if fee_bump {
        (
            String::from_str("Review fee bump transaction"),
            String::from_str("Sign fee bump transaction?"),
        )
    } else {
        match intent {
            Some(i) => {
                let mut title = String::from_str("Review transaction to ");
                title.append(i.as_str());
                let mut finish = String::from_str("Sign transaction to ");
                finish.append(i.as_str());
                finish.append("?");
                (title, finish)
            },
            None => (String::from_str("Review transaction"), String::from_str("Sign transaction?")),
        }
    }
}

fn parse_payload<'a>(
    parser: &mut Parser<'a>,
) -> (r: Result<TransactionSignaturePayload<'a>, ParseError>)
    requires
        old(parser).wf(),
        old(parser).pos() == 0,
        old(parser).level() == 0,
    ensures
        stepped(*old(parser), *final(parser), r, payload_scan(old(parser).bytes())),
        r matches Ok(p) ==> decodes_payload(p, old(parser).bytes()),
{
    reveal(payload_scan);
    reveal(decodes_payload);
    TransactionSignaturePayload::parse(parser)
}

fn parse_operation<'a>(parser: &mut Parser<'a>) -> (r: Result<Operation<'a>, ParseError>)
    requires
        old(parser).wf(),
        old(parser).level() == 0,
    ensures
        stepped(
            *old(parser),
            *final(parser),
            r,
            operation_scan(old(parser).bytes(), old(parser).pos()),
        ),
        r matches Ok(op) ==> decodes_operation(op, old(parser).bytes(), old(parser).pos()),
{
    reveal(operation_scan);
    reveal(decodes_operation);
    Operation::parse(parser)
}

fn show_payload(
    payload: &TransactionSignaturePayload,
    config: &FormatConfig,
    signer: &str,
) -> (r: Option<Vec<DataEntry>>)
    ensures
        match r {
            Some(entries) => payload_fields(*payload, *config, signer@) == Some(
                entries_text(entries@),
            ),
            None => payload_fields(*payload, *config, signer@) is None,
        },
{
    reveal(payload_fields);
    if !check_payload_fits(payload) {
        return None;
    }
    match format_transaction_signature_payload(payload, config, signer) {
        Ok(entries) => Some(entries),
        Err(_) => None,
    }
}

fn show_operation(
    op: &Operation,
    config: &FormatConfig,
    tx_source: &str,
) -> (r: Option<Vec<DataEntry>>)
    ensures
        match r {
            Some(entries) => operation_fields(*op, *config, tx_source@) == Some(
                entries_text(entries@),
            ),
            None => operation_fields(*op, *config, tx_source@) is None,
        },
{
    reveal(operation_fields);
    if !check_operation_fits(op) {
        return None;
    }
    match format_operation(op, config, tx_source) {
        Ok(entries) => Some(entries),
        Err(_) => None,
    }
}

fn purpose_of(op: &Operation, tx_source: &str) -> (r: Option<String>)
    ensures
        text_if_any(r) == operation_purpose(*op, tx_source@),
{
    reveal(operation_purpose);
    get_operation_intent(op, tx_source)
}

fn is_host_function(op: &Operation) -> (b: bool)
    ensures
        b == (op.body is InvokeHostFunction),
{
    match &op.body {
        OperationBody::InvokeHostFunction(_) => true,
        _ => false,
    }
}

/// The count of operations, the source and the kind of the transaction
/// that is signed.
fn transaction_facts(payload: &TransactionSignaturePayload) -> (r: (u32, String, bool))
    ensures
        r.0 == signed_transaction(*payload).op_count,
        r.1@ == signed_transaction(*payload).source_account.text(),
        r.2 == (payload.tagged_transaction is EnvelopeTypeTxFeeBump),
{
    match &payload.tagged_transaction {
        TaggedTransaction::EnvelopeTypeTx(tx) => (
            tx.op_count,
            tx.source_account.to_string(),
            false,
        ),
        TaggedTransaction::EnvelopeTypeTxFeeBump(bump) => match &bump.inner_tx {
            InnerTransaction::EnvelopeTypeTx(tx) => (
                tx.op_count,
                tx.source_account.to_string(),
                true,
            ),
        },
    }
}

/// What the operations of a transaction add to its review.
struct OperationsReview<'a> {
    /// Whether one of the operations runs a host function.
    soroban: bool,
    /// What the transaction is for, where it has one operation and that
    /// can be said.
    intent: Option<String>,
    /// The operations that were decoded.
    ops: Ghost<Seq<Operation<'a>>>,
}

/// Decodes the operations of a transaction one at a time, and adds the
/// fields of each.
#[verifier::loop_isolation(false)]
fn review_operations<'a>(
    parser: &mut Parser<'a>,
    op_count: u32,
    config: &FormatConfig,
    tx_source: &str,
    entries: &mut Vec<DataEntry>,
) -> (r: Result<OperationsReview<'a>, AppSW>)
    requires
        old(parser).wf(),
        old(parser).level() == 0,
    ensures
        match r {
            Ok(done) => {
                &&& done.ops@.len() == op_count
                &&& operations_decoded(done.ops@, old(parser).bytes(), old(parser).pos())
                &&& forall|i: int|
                    0 <= i < op_count ==> operation_fields(
                        #[trigger] done.ops@[i],
                        *config,
                        tx_source@,
                    ) is Some
                &&& entries_text(final(entries)@) == entries_text(old(entries)@)
                    + operations_fields(
                    done.ops@,
                    *config,
                    tx_source@,
                    op_count as int,
                    op_count as nat,
                )
                &&& done.soroban == needs_blind_signing(done.ops@)
                &&& text_if_any(done.intent) == review_purpose(done.ops@, tx_source@)
            },
            Err(e) => e != AppSW::BlindSigningModeNotEnabled && exists|ops: Seq<Operation>|
                #[trigger] stopped(
                    e,
                    ops,
                    old(parser).bytes(),
                    old(parser).pos(),
                    op_count as nat,
                    *config,
                    tx_source@,
                    true,
                ),
        },
{
    let ghost data = parser.bytes();
    let ghost start = parser.pos();
    let ghost head = entries_text(entries@);
    let mut intent: Option<String> = None;
    let mut is_soroban_tx = false;
    let ghost mut ops: Seq<Operation> = Seq::empty();
    let mut i: u32 = 0;
    proof {
        assert(entries_text(entries@) =~= head + operations_fields(
            ops,
            *config,
            tx_source@,
            op_count as int,
            0,
        ));
    }
    while i < op_count
        invariant
            i <= op_count,
            parser.wf(),
            parser.bytes() == data,
            parser.level() == 0,
            ops.len() == i,
            operations_scan(data, start, i as nat) == Ok::<int, ParseError>(parser.pos()),
            operations_decoded(ops, data, start),
            forall|j: int|
                0 <= j < i ==> operation_fields(#[trigger] ops[j], *config, tx_source@) is Some,
            entries_text(entries@) == head + operations_fields(
                ops,
                *config,
                tx_source@,
                op_count as int,
                i as nat,
            ),
            is_soroban_tx == needs_blind_signing(ops),
            text_if_any(intent) == (if op_count == 1 && i == 1 {
                operation_purpose(ops[0], tx_source@)
            } else {
                None
            }),
        decreases op_count - i,
    {
        if op_count > 1 {
            let mut content = u128_text((i + 1) as u128);
            content.append(" of ");
            content.append(u128_text(op_count as u128).as_str());
            push_entry(entries, "Operation", content);
        }
        let ghost at = parser.pos();
        let op = match parse_operation(parser) {
            Ok(op) => op,
            Err(e) => {
                proof {
                    assert(operations_scan(data, start, (i + 1) as nat) is Err);
                    assert(stopped(
                        AppSW::DataParsingFail,
                        ops,
                        data,
                        start,
                        op_count as nat,
                        *config,
                        tx_source@,
                        true,
                    ));
                }
                return Err(AppSW::DataParsingFail);
            },
        };
        let op_entries = match show_operation(&op, config, tx_source) {
            Some(e) => e,
            None => {
                proof {
                    lemma_stopped_showing(
                        ops,
                        op,
                        data,
                        start,
                        op_count as nat,
                        *config,
                        tx_source@,
                        true,
                    );
                }
                return Err(AppSW::DataFormattingFail);
            },
        };
        append_entries(entries, op_entries);
        let ghost before = ops;
        proof {
            ops = ops.push(op);
            assert(forall|j: int| 0 <= j < i ==> ops[j] == before[j]);
            lemma_operations_fields_prefix(
                before,
                ops,
                *config,
                tx_source@,
                op_count as int,
                i as nat,
            );
            assert(entries_text(entries@) =~= head + operations_fields(
                ops,
                *config,
                tx_source@,
                op_count as int,
                (i + 1) as nat,
            ));
            assert(decodes_operation(ops[i as int], data, at));
        }
        if is_host_function(&op) {
            is_soroban_tx = true;
            proof {
                assert(ops[i as int].body is InvokeHostFunction);
            }
        } else {
            proof {
                if needs_blind_signing(ops) {
                    let k = choose|k: int|
                        0 <= k < ops.len() && (#[trigger] ops[k]).body is InvokeHostFunction;
                    assert(before[k].body is InvokeHostFunction);
                }
            }
        }
        if op_count == 1 {
            intent = purpose_of(&op, tx_source);
        }
        i += 1;
    }
    Ok(OperationsReview { soroban: is_soroban_tx, intent, ops: Ghost(ops) })
}

/// Decodes a transaction and its operations from the bytes of a request,
/// and prepares what is shown for its approval. The operations are decoded
/// and shown one at a time. A transaction that runs a host function is
/// refused where blind signing is not enabled.
pub fn prepare_sign_tx(
    raw_data: &[u8],
    signer: &[u8; 32],
    config: &FormatConfig,
    blind_signing_enabled: bool,
) -> (r: Result<Review, AppSW>)
    ensures
        match r {
            Ok(review) => exists|payload: TransactionSignaturePayload, ops: Seq<Operation>|
                {
                    &&& payload_scan(raw_data@) is Ok
                    &&& #[trigger] decodes_payload(payload, raw_data@)
                    &&& ops.len() == signed_transaction(payload).op_count
                    &&& #[trigger] operations_decoded(ops, raw_data@, payload_scan(raw_data@)->Ok_0)
                    &&& reviews(review, payload, ops, *config, strkey_public_key(signer@))
                    &&& review.blind ==> blind_signing_enabled
                },
            Err(e) => {
                ||| e == AppSW::DataParsingFail && payload_scan(raw_data@) is Err
                ||| e == AppSW::DataFormattingFail && exists|payload: TransactionSignaturePayload|
                    {
                        &&& #[trigger] decodes_payload(payload, raw_data@)
                        &&& payload_fields(payload, *config, strkey_public_key(signer@)) is None
                    }
                ||| exists|payload: TransactionSignaturePayload, ops: Seq<Operation>|
                    {
                        &&& payload_scan(raw_data@) is Ok
                        &&& #[trigger] decodes_payload(payload, raw_data@)
                        &&& payload_fields(payload, *config, strkey_public_key(signer@)) is Some
                        &&& #[trigger] stopped(
                            e,
                            ops,
                            raw_data@,
                            payload_scan(raw_data@)->Ok_0,
                            signed_transaction(payload).op_count as nat,
                            *config,
                            signed_transaction(payload).source_account.text(),
                            blind_signing_enabled,
                        )
                    }
            },
        },
{
    let signer_text = format_public_key(signer);
    let mut parser = Parser::new(raw_data);
    let payload = match parse_payload(&mut parser) {
        Ok(p) => p,
        Err(_) => {
            return Err(AppSW::DataParsingFail);
        },
    };
    let ghost start = parser.pos();
    let mut entries = match show_payload(&payload, config, signer_text.as_str()) {
        Some(e) => e,
        None => {
            return Err(AppSW::DataFormattingFail);
        },
    };
    let (op_count, tx_source, fee_bump) = transaction_facts(&payload);
    let done = match review_operations(
        &mut parser,
        op_count,
        config,
        tx_source.as_str(),
        &mut entries,
    ) {
        Ok(done) => done,
        Err(e) => {
            proof {
                let ops = choose|ops: Seq<Operation>| #[trigger]
                    stopped(e, ops, raw_data@, start, op_count as nat, *config, tx_source@, true);
                assert(decodes_payload(payload, raw_data@));
                assert(payload_fields(payload, *config, strkey_public_key(signer@)) is Some);
                assert(stopped(
                    e,
                    ops,
                    raw_data@,
                    payload_scan(raw_data@)->Ok_0,
                    signed_transaction(payload).op_count as nat,
                    *config,
                    signed_transaction(payload).source_account.text(),
                    blind_signing_enabled,
                ));
            }
            return Err(e);
        },
    };
    let (title, finish_title) = titles(fee_bump, &done.intent);
    if done.soroban && !blind_signing_enabled {
        proof {
            assert(decodes_payload(payload, raw_data@));
            assert(payload_fields(payload, *config, strkey_public_key(signer@)) is Some);
            assert(stopped(
                AppSW::BlindSigningModeNotEnabled,
                done.ops@,
                raw_data@,
                payload_scan(raw_data@)->Ok_0,
                signed_transaction(payload).op_count as nat,
                *config,
                signed_transaction(payload).source_account.text(),
                blind_signing_enabled,
            ));
        }
        return Err(AppSW::BlindSigningModeNotEnabled);
    }
    let review = Review { title, finish_title, blind: done.soroban, entries };
    proof {
        assert(decodes_payload(payload, raw_data@));
        assert(operations_decoded(done.ops@, raw_data@, payload_scan(raw_data@)->Ok_0));
        assert(reviews(review, payload, done.ops@, *config, strkey_public_key(signer@)));
    }
    Ok(review)
}

/// Decodes an authorization from the bytes of a request, and prepares
/// what is shown for its approval. An authorization is refused where blind
/// signing is not enabled.
pub fn prepare_sign_soroban_auth(
    raw_data: &[u8],
    config: &FormatConfig,
    blind_signing_enabled: bool,
) -> (r: Result<Review, AppSW>)
    ensures
        match r {
            Ok(review) => blind_signing_enabled && review.blind && review.title@
                == "Review Soroban Authorization"@ && review.finish_title@
                == "Sign Soroban Authorization?"@ && exists|preimage: HashIDPreimage|
                {
                    &&& #[trigger] preimage.decoded_from(raw_data@, 0, 0)
                    &&& entries_text(review.entries@) == authorization_preimage_entries(
                        preimage->SorobanAuthorization_0,
                        *config,
                    )
                },
            Err(e) => if !blind_signing_enabled {
                e == AppSW::BlindSigningModeNotEnabled
            } else {
                e == AppSW::DataParsingFail && HashIDPreimage::scan(raw_data@, 0, 0) is Err
            },
        },
{
    if !blind_signing_enabled {
        return Err(AppSW::BlindSigningModeNotEnabled);
    }
    let mut parser = Parser::new(raw_data);
    let preimage = match HashIDPreimage::parse(&mut parser) {
        Ok(p) => p,
        Err(_) => {
            return Err(AppSW::DataParsingFail);
        },
    };
    let entries = match &preimage {
        HashIDPreimage::SorobanAuthorization(auth) => format_hash_id_preimage_soroban_authorization(
            auth,
            config,
        ),
    };
    Ok(
        Review {
            title: String::from_str("Review Soroban Authorization"),
            finish_title: String::from_str("Sign Soroban Authorization?"),
            blind: true,
            entries,
        },
    )
}

} // verus!

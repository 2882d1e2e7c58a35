//! Turns decoded messages into the titled fields that are shown to the user
//! before a signature is given.

use crate::display::{
    format_native_amount, format_pool_id, format_unix_timestamp, hex_encode, hex_text, index_from,
    magnitude, native_amount_text, sign, strkey_liquidity_pool, timestamp_rendering, timestamp_text,
    trimmed, with_point, format_decimal, Numeral,
};
use crate::parser::keys::{PUBLIC_NETWORK_HASH, TESTNET_NETWORK_HASH};
use crate::parser::{
    AllowTrustOp, Asset, BeginSponsoringFutureReservesOp, BumpSequenceOp, ChangeTrustAsset,
    ChangeTrustOp, ClaimClaimableBalanceOp, ClawbackClaimableBalanceOp, ClawbackOp,
    ContractExecutable, CreateAccountOp, CreateClaimableBalanceOp, CreateContractArgs,
    CreateContractArgsV2, CreatePassiveSellOfferOp, ExtendFootprintTTLOp,
    HashIdPreimageSorobanAuthorization, HostFunction, InnerTransaction, InvokeContractArgs,
    InvokeHostFunctionOp, LedgerKey, LiquidityPoolDepositOp, LiquidityPoolParameters,
    LiquidityPoolWithdrawOp, ManageBuyOfferOp, ManageDataOp, ManageSellOfferOp, Memo, MuxedAccount,
    Operation, OperationBody, PathPaymentStrictReceiveOp, PathPaymentStrictSendOp, PaymentOp,
    Preconditions, PreconditionsV2, Price, RestoreFootprintOp, RevokeSponsorshipOp, ScVal,
    SetOptionsOp, SetTrustLineFlagsOp, SignerKey, SorobanAuthorizationEntry,
    SorobanAuthorizedFunction, SorobanAuthorizedInvocation, SorobanCredentials, TaggedTransaction,
    TimeBounds, Transaction, TransactionSignaturePayload, TrustLineAsset, Uint256, VecM,
};
use crate::serialize::{claimant_json, claimant_to_json, scval_key_text, scval_to_key_string};
use crate::token_formatter::{token_call_entries, try_format_token_contract_call};
use crate::text::{bytes_equal, char_text, decimal, i128_text, push_char, texts_equal, u128_text};
use vstd::prelude::*;
use vstd::string::{StrSliceExecFns, StringExecFns};

verus! {

/// One field shown to the user: a title and what stands under it.
#[derive(Debug, Clone, PartialEq, Eq)]
pub struct DataEntry {
    pub title: String,
    pub content: String,
}

/// A field as a pair of texts: its title and its content.
pub type EntryText = (Seq<char>, Seq<char>);

impl View for DataEntry {
    type V = EntryText;

    open spec fn view(&self) -> EntryText {
        (self.title@, self.content@)
    }
}

impl DataEntry {
    /// A field from its title and its content.
    pub fn new(title: &str, content: String) -> (e: Self)
        ensures
            e@ == (title@, content@),
    {
        Self { title: String::from_str(title), content }
    }

    /// A field from its title and a content that is not owned.
    pub fn from_parts(title: &str, content: &str) -> (e: Self)
        ensures
            e@ == (title@, content@),
    {
        Self { title: String::from_str(title), content: String::from_str(content) }
    }
}

/// The fields as pairs of texts.
pub open spec fn entries_text(entries: Seq<DataEntry>) -> Seq<EntryText> {
    Seq::new(entries.len(), |i: int| entries[i]@)
}

/// Adds a field at the end.
pub fn push_entry(entries: &mut Vec<DataEntry>, title: &str, content: String)
    ensures
        entries_text(final(entries)@) == entries_text(old(entries)@).push((title@, content@)),
{
    entries.push(DataEntry::new(title, content));
    proof {
        assert(entries_text(entries@) =~= entries_text(old(entries)@).push((title@, content@)));
    }
}

/// Adds a field whose content is a fixed text.
pub fn push_fixed(entries: &mut Vec<DataEntry>, title: &str, content: &str)
    ensures
        entries_text(final(entries)@) == entries_text(old(entries)@).push((title@, content@)),
{
    push_entry(entries, title, String::from_str(content));
}

/// Adds fields at the end.
pub fn append_entries(entries: &mut Vec<DataEntry>, more: Vec<DataEntry>)
    ensures
        entries_text(final(entries)@) == entries_text(old(entries)@) + entries_text(more@),
{
    let mut more = more;
    let ghost added = more@;
    entries.append(&mut more);
    proof {
        assert(entries_text(entries@) =~= entries_text(old(entries)@) + entries_text(added));
    }
}

/// Which optional parts of a message are shown.
#[derive(Debug, Clone, PartialEq, Eq)]
pub struct FormatConfig {
    /// Whether sequence numbers and nonces are shown.
    pub show_sequence_and_nonce: bool,
    /// Whether a transaction's preconditions are shown.
    pub show_preconditions: bool,
    /// Whether the invocations under an authorized invocation are shown.
    pub show_nested_authorization: bool,
    /// Whether a transaction's source is shown where it is the signer.
    pub show_tx_source_if_matches_signer: bool,
}

impl Default for FormatConfig {
    fn default() -> (c: Self)
        ensures
            c.show_sequence_and_nonce,
            c.show_preconditions,
            c.show_nested_authorization,
            !c.show_tx_source_if_matches_signer,
    {
        Self {
            show_sequence_and_nonce: true,
            show_preconditions: true,
            show_nested_authorization: true,
            show_tx_source_if_matches_signer: false,
        }
    }
}

/// Why a message cannot be shown.
#[derive(Debug, Clone, PartialEq, Eq)]
pub enum FormatError {
    /// A sponsorship is revoked for a kind of ledger entry that is not shown.
    UnsupportedLedgerKey,
    /// A price has a denominator that is not positive, or a negative
    /// numerator.
    InvalidPrice,
}

impl FormatError {
    /// What the error says.
    pub open spec fn text(&self) -> Seq<char> {
        match self {
            FormatError::UnsupportedLedgerKey => "Unsupported ledger key type"@,
            FormatError::InvalidPrice => "Invalid price"@,
        }
    }

    /// What the error says.
    pub fn to_string(&self) -> (r: String)
        ensures
            r@ == self.text(),
    {
        match self {
            FormatError::UnsupportedLedgerKey => String::from_str("Unsupported ledger key type"),
            FormatError::InvalidPrice => String::from_str("Invalid price"),
        }
    }
}

/// The field that names the network, where it is not the public one.
pub open spec fn network_entries(network_id: Seq<u8>) -> Seq<EntryText> {
    if network_id == TESTNET_NETWORK_HASH@ {
        seq![("Network"@, "Testnet"@)]
    } else if network_id != PUBLIC_NETWORK_HASH@ {
        seq![("Network"@, "Unknown"@)]
    } else {
        Seq::empty()
    }
}

/// Adds the field that names the network, where it is not the public one.
pub fn add_network_info_if_needed(entries: &mut Vec<DataEntry>, network_id: &Uint256)
    ensures
        entries_text(final(entries)@) == entries_text(old(entries)@) + network_entries(
            network_id.0@,
        ),
{
    let testnet = TESTNET_NETWORK_HASH;
    let public = PUBLIC_NETWORK_HASH;
    if bytes_equal(network_id.0.as_slice(), testnet.as_slice()) {
        push_fixed(entries, "Network", "Testnet");
    } else if !bytes_equal(network_id.0.as_slice(), public.as_slice()) {
        push_fixed(entries, "Network", "Unknown");
    }
    proof {
        assert(entries_text(entries@) =~= entries_text(old(entries)@) + network_entries(
            network_id.0@,
        ));
    }
}

/// An issuer's address cut short: its first three and its last four
/// characters around two dots, where it has more than twelve.
pub open spec fn issuer_text(issuer: Seq<char>) -> Seq<char> {
    if issuer.len() > 12 {
        issuer.subrange(0, 3) + ".."@ + issuer.subrange(issuer.len() - 4, issuer.len() as int)
    } else {
        issuer
    }
}

/// Cuts an issuer's address short.
pub fn format_issuer(issuer: &str) -> (r: String)
    ensures
        r@ == issuer_text(issuer@),
{
    let n = issuer.unicode_len();
    if n > 12 {
        let mut r = String::from_str(issuer.substring_char(0, 3));
        r.append("..");
        r.append(issuer.substring_char(n - 4, n));
        r
    } else {
        String::from_str(issuer)
    }
}

/// An issued asset: its code, an at sign, and its issuer cut short.
pub open spec fn issued_asset_text(code: Seq<char>, issuer: Seq<char>) -> Seq<char> {
    code.push('@') + issuer_text(issuer)
}

fn format_issued_asset(code: String, issuer: String) -> (r: String)
    ensures
        r@ == issued_asset_text(code@, issuer@),
{
    let mut r = code;
    push_char(&mut r, '@');
    r.append(format_issuer(issuer.as_str()).as_str());
    r
}

/// An asset with its issuer: `XLM` for the native one.
pub open spec fn asset_text(asset: Asset) -> Seq<char> {
    match asset {
        Asset::Native => "XLM"@,
        Asset::CreditAlphanum4(a) => issued_asset_text(a.asset_code.text(), a.issuer.text()),
        Asset::CreditAlphanum12(a) => issued_asset_text(a.asset_code.text(), a.issuer.text()),
    }
}

/// Writes an asset with its issuer.
pub fn format_asset(asset: &Asset) -> (r: String)
    ensures
        r@ == asset_text(*asset),
{
    match asset {
        Asset::Native => String::from_str("XLM"),
        Asset::CreditAlphanum4(a) => format_issued_asset(
            a.asset_code.to_string(),
            a.issuer.to_string(),
        ),
        Asset::CreditAlphanum12(a) => format_issued_asset(
            a.asset_code.to_string(),
            a.issuer.to_string(),
        ),
    }
}

/// An asset's code alone: `XLM` for the native one.
pub open spec fn asset_code_text(asset: Asset) -> Seq<char> {
    match asset {
        Asset::Native => "XLM"@,
        Asset::CreditAlphanum4(a) => a.asset_code.text(),
        Asset::CreditAlphanum12(a) => a.asset_code.text(),
    }
}

/// Writes an asset's code.
pub fn format_asset_code(asset: &Asset) -> (r: String)
    ensures
        r@ == asset_code_text(*asset),
{
    match asset {
        Asset::Native => String::from_str("XLM"),
        Asset::CreditAlphanum4(a) => a.asset_code.to_string(),
        Asset::CreditAlphanum12(a) => a.asset_code.to_string(),
    }
}

/// The asset of a trust line: a pool share by the pool's identifier.
pub open spec fn trust_line_asset_text(asset: TrustLineAsset) -> Seq<char> {
    match asset {
        TrustLineAsset::Native => "XLM"@,
        TrustLineAsset::CreditAlphanum4(a) => issued_asset_text(
            a.asset_code.text(),
            a.issuer.text(),
        ),
        TrustLineAsset::CreditAlphanum12(a) => issued_asset_text(
            a.asset_code.text(),
            a.issuer.text(),
        ),
        TrustLineAsset::PoolShare(id) => "Liquidity Pool ID: "@ + strkey_liquidity_pool(id.0@),
    }
}

/// Writes the asset of a trust line.
pub fn format_trust_line_asset(trust_line_asset: &TrustLineAsset) -> (r: String)
    ensures
        r@ == trust_line_asset_text(*trust_line_asset),
{
    match trust_line_asset {
        TrustLineAsset::Native => String::from_str("XLM"),
        TrustLineAsset::CreditAlphanum4(a) => format_issued_asset(
            a.asset_code.to_string(),
            a.issuer.to_string(),
        ),
        TrustLineAsset::CreditAlphanum12(a) => format_issued_asset(
            a.asset_code.to_string(),
            a.issuer.to_string(),
        ),
        TrustLineAsset::PoolShare(id) => {
            let mut r = String::from_str("Liquidity Pool ID: ");
            r.append(format_pool_id(id).as_str());
            r
        },
    }
}

/// An amount in stroops in whole units, a space, and the asset.
pub open spec fn amount_with_asset_text(amount: int, asset: Asset) -> Seq<char> {
    native_amount_text(amount).push(' ') + asset_text(asset)
}

/// Writes an amount with its asset.
pub fn format_amount_with_asset<T: Numeral>(amount: T, asset: &Asset) -> (r: String)
    ensures
        r@ == amount_with_asset_text(amount.value(), *asset),
{
    let mut r = format_native_amount(amount);
    push_char(&mut r, ' ');
    r.append(format_asset(asset).as_str());
    r
}

/// An amount of the native asset in whole units, followed by ` XLM`.
pub open spec fn xlm_text(stroops: int) -> Seq<char> {
    native_amount_text(stroops) + " XLM"@
}

fn format_xlm<T: Numeral>(stroops: T) -> (r: String)
    ensures
        r@ == xlm_text(stroops.value()),
{
    let mut r = format_native_amount(stroops);
    r.append(" XLM");
    r
}

/// A price to seven decimal places, where it is valid: the numerator is not
/// negative and the denominator is positive.
pub open spec fn price_text(price: Price) -> Option<Seq<char>> {
    if price.d <= 0 || price.n < 0 {
        None
    } else {
        Some(native_amount_text(price.n as int * 10_000_000 / (price.d as int)))
    }
}

/// Writes a price to seven decimal places.
pub fn format_price(price: &Price) -> (r: Result<String, FormatError>)
    ensures
        match r {
            Ok(s) => price_text(*price) == Some(s@),
            Err(e) => price_text(*price) is None && e == FormatError::InvalidPrice,
        },
{
    if price.d <= 0 || price.n < 0 {
        return Err(FormatError::InvalidPrice);
    }
    let numerator = price.n as u64;
    let denominator = price.d as u64;
    let scaled = match numerator.checked_mul(10_000_000) {
        Some(s) => s,
        None => {
            return Err(FormatError::InvalidPrice);
        },
    };
    let result = scaled / denominator;
    proof {
        assert(result as int == price.n as int * 10_000_000 / (price.d as int));
    }
    Ok(format_native_amount(result))
}

/// What an offer operation does to the offer it names.
pub open spec fn offer_action_text(offer_id: i64, amount: i64) -> Seq<char> {
    if offer_id == 0 {
        "create offer"@
    } else if amount == 0 {
        "remove offer"@
    } else {
        "change offer"@
    }
}

/// Says what an offer operation does: it creates an offer where it names
/// none, removes the one it names where the amount is zero, and changes
/// it otherwise.
pub fn offer_action(offer_id: i64, amount: i64) -> (r: String)
    ensures
        r@ == offer_action_text(offer_id, amount),
{
    if offer_id == 0 {
        String::from_str("create offer")
    } else if amount == 0 {
        String::from_str("remove offer")
    } else {
        String::from_str("change offer")
    }
}

/// How many of the first `n` flags of `defs` are set in `flags`.
pub open spec fn flags_set(flags: u32, defs: Seq<(u32, &str)>, n: nat) -> nat
    decreases n,
{
    if n == 0 || n > defs.len() {
        0
    } else if flags & defs[n - 1].0 != 0 {
        flags_set(flags, defs, (n - 1) as nat) + 1
    } else {
        flags_set(flags, defs, (n - 1) as nat)
    }
}

/// The names of those of the first `n` flags of `defs` that are set in
/// `flags`, with a comma and a space between them.
pub open spec fn flag_names(flags: u32, defs: Seq<(u32, &str)>, n: nat) -> Seq<char>
    decreases n,
{
    if n == 0 || n > defs.len() {
        Seq::empty()
    } else if flags & defs[n - 1].0 != 0 {
        if flags_set(flags, defs, (n - 1) as nat) == 0 {
            defs[n - 1].1@
        } else {
            flag_names(flags, defs, (n - 1) as nat) + ", "@ + defs[n - 1].1@
        }
    } else {
        flag_names(flags, defs, (n - 1) as nat)
    }
}

/// A flag word in words: `zero` where no bit is set, the names of the flags
/// that are set, or the number where none of the bits has a name.
pub open spec fn flags_text(flags: u32, defs: Seq<(u32, &str)>, zero: Seq<char>) -> Seq<char> {
    if flags == 0 {
        zero
    } else if flags_set(flags, defs, defs.len()) == 0 {
        decimal(flags as int) + " (unknown flags)"@
    } else {
        flag_names(flags, defs, defs.len())
    }
}

/// Writes a flag word in words.
pub fn format_flags_generic(
    flags: u32,
    flag_definitions: &[(u32, &str)],
    zero_value: &str,
) -> (r: String)
    ensures
        r@ == flags_text(flags, flag_definitions@, zero_value@),
{
    if flags == 0 {
        return String::from_str(zero_value);
    }
    let n = flag_definitions.len();
    let mut names = String::new();
    let mut count: usize = 0;
    let mut i: usize = 0;
    while i < n
        invariant
            i <= n,
            n == flag_definitions@.len(),
            count <= i,
            count == flags_set(flags, flag_definitions@, i as nat),
            names@ == flag_names(flags, flag_definitions@, i as nat),
            count == 0 ==> names@.len() == 0,
        decreases n - i,
    {
        let def = &flag_definitions[i];
        if flags & def.0 != 0 {
            if count > 0 {
                names.append(", ");
            }
            names.append(def.1);
            count += 1;
        }
        proof {
            assert(names@ =~= flag_names(flags, flag_definitions@, (i + 1) as nat));
        }
        i += 1;
    }
    if count == 0 {
        let mut r = u128_text(flags as u128);
        r.append(" (unknown flags)");
        r
    } else {
        names
    }
}

/// The names of an account's flags.
pub open spec fn account_flag_defs() -> Seq<(u32, &'static str)> {
    seq![
        (1u32, "AUTH_REQUIRED"),
        (2u32, "AUTH_REVOCABLE"),
        (4u32, "AUTH_IMMUTABLE"),
        (8u32, "AUTH_CLAWBACK_ENABLED"),
    ]
}

/// The names of the flags that an authorization of a trust line sets.
pub open spec fn allow_trust_flag_defs() -> Seq<(u32, &'static str)> {
    seq![(1u32, "AUTHORIZED"), (2u32, "AUTHORIZED_TO_MAINTAIN_LIABILITIES")]
}

/// The names of a trust line's flags.
pub open spec fn trust_line_flag_defs() -> Seq<(u32, &'static str)> {
    seq![
        (1u32, "AUTHORIZED"),
        (2u32, "AUTHORIZED_TO_MAINTAIN_LIABILITIES"),
        (4u32, "TRUSTLINE_CLAWBACK_ENABLED"),
    ]
}

/// Writes an account's flags by their names.
pub fn format_account_flags(flags: u32) -> (r: String)
    ensures
        r@ == flags_text(flags, account_flag_defs(), "None"@),
{
    let defs: [(u32, &str); 4] = [
        (1u32, "AUTH_REQUIRED"),
        (2u32, "AUTH_REVOCABLE"),
        (4u32, "AUTH_IMMUTABLE"),
        (8u32, "AUTH_CLAWBACK_ENABLED"),
    ];
    proof {
        assert(defs@ =~= account_flag_defs());
    }
    format_flags_generic(flags, defs.as_slice(), "None")
}

/// Writes the flags that an authorization of a trust line sets.
pub fn format_allow_trust_flags(flags: u32) -> (r: String)
    ensures
        r@ == flags_text(flags, allow_trust_flag_defs(), "UNAUTHORIZED"@),
{
    let defs: [(u32, &str); 2] = [
        (1u32, "AUTHORIZED"),
        (2u32, "AUTHORIZED_TO_MAINTAIN_LIABILITIES"),
    ];
    proof {
        assert(defs@ =~= allow_trust_flag_defs());
    }
    format_flags_generic(flags, defs.as_slice(), "UNAUTHORIZED")
}

/// Writes a trust line's flags by their names.
pub fn format_trust_line_flags(flags: u32) -> (r: String)
    ensures
        r@ == flags_text(flags, trust_line_flag_defs(), "[none]"@),
{
    let defs: [(u32, &str); 3] = [
        (1u32, "AUTHORIZED"),
        (2u32, "AUTHORIZED_TO_MAINTAIN_LIABILITIES"),
        (4u32, "TRUSTLINE_CLAWBACK_ENABLED"),
    ];
    proof {
        assert(defs@ =~= trust_line_flag_defs());
    }
    format_flags_generic(flags, defs.as_slice(), "[none]")
}

/// An empty list of fields.
fn no_entries() -> (entries: Vec<DataEntry>)
    ensures
        entries_text(entries@) == Seq::<EntryText>::empty(),
{
    let entries: Vec<DataEntry> = Vec::new();
    proof {
        assert(entries_text(entries@) =~= Seq::<EntryText>::empty());
    }
    entries
}

/// The fields of an account creation.
pub open spec fn create_account_entries(op: CreateAccountOp) -> Seq<EntryText> {
    seq![("Send"@, xlm_text(op.starting_balance as int)), ("To"@, op.destination.text())]
}

/// Shows an account creation.
pub fn format_create_account_op(op: &CreateAccountOp) -> (r: Vec<DataEntry>)
    ensures
        entries_text(r@) == create_account_entries(*op),
{
    let mut entries = no_entries();
    push_entry(&mut entries, "Send", format_xlm(op.starting_balance));
    push_entry(&mut entries, "To", op.destination.to_string());
    proof {
        assert(entries_text(entries@) =~= create_account_entries(*op));
    }
    entries
}

/// The fields of a payment.
pub open spec fn payment_entries(op: PaymentOp) -> Seq<EntryText> {
    seq![
        ("Send"@, amount_with_asset_text(op.amount as int, op.asset)),
        ("To"@, op.destination.text()),
    ]
}

/// Shows a payment.
pub fn format_payment_op(op: &PaymentOp) -> (r: Vec<DataEntry>)
    ensures
        entries_text(r@) == payment_entries(*op),
{
    let mut entries = no_entries();
    push_entry(&mut entries, "Send", format_amount_with_asset(op.amount, &op.asset));
    push_entry(&mut entries, "To", op.destination.to_string());
    proof {
        assert(entries_text(entries@) =~= payment_entries(*op));
    }
    entries
}

/// The fields of a path payment with an exact amount received. Where the
/// destination is the operation's source it is a swap, and no destination
/// is shown.
pub open spec fn path_payment_strict_receive_entries(
    op: PathPaymentStrictReceiveOp,
    op_source: Seq<char>,
) -> Seq<EntryText> {
    if op.destination.text() == op_source {
        seq![
            ("Send Max"@, amount_with_asset_text(op.send_max as int, op.send_asset)),
            ("Receive"@, amount_with_asset_text(op.dest_amount as int, op.dest_asset)),
        ]
    } else {
        seq![
            ("Send Max"@, amount_with_asset_text(op.send_max as int, op.send_asset)),
            ("To"@, op.destination.text()),
            ("They Receive"@, amount_with_asset_text(op.dest_amount as int, op.dest_asset)),
        ]
    }
}

/// Shows a path payment with an exact amount received.
pub fn format_path_payment_strict_receive_op(
    op: &PathPaymentStrictReceiveOp,
    op_source: &str,
) -> (r: Vec<DataEntry>)
    ensures
        entries_text(r@) == path_payment_strict_receive_entries(*op, op_source@),
{
    let destination = op.destination.to_string();
    let mut entries = no_entries();
    push_entry(&mut entries, "Send Max", format_amount_with_asset(op.send_max, &op.send_asset));
    if texts_equal(destination.as_str(), op_source) {
        push_entry(
            &mut entries,
            "Receive",
            format_amount_with_asset(op.dest_amount, &op.dest_asset),
        );
    } else {
        push_entry(&mut entries, "To", destination);
        push_entry(
            &mut entries,
            "They Receive",
            format_amount_with_asset(op.dest_amount, &op.dest_asset),
        );
    }
    proof {
        assert(entries_text(entries@) =~= path_payment_strict_receive_entries(*op, op_source@));
    }
    entries
}

/// The fields of a path payment with an exact amount sent. Where the
/// destination is the operation's source it is a swap, and no destination
/// is shown.
pub open spec fn path_payment_strict_send_entries(
    op: PathPaymentStrictSendOp,
    op_source: Seq<char>,
) -> Seq<EntryText> {
    if op.destination.text() == op_source {
        seq![
            ("Send"@, amount_with_asset_text(op.send_amount as int, op.send_asset)),
            ("Receive Min"@, amount_with_asset_text(op.dest_min as int, op.dest_asset)),
        ]
    } else {
        seq![
            ("Send"@, amount_with_asset_text(op.send_amount as int, op.send_asset)),
            ("To"@, op.destination.text()),
            ("They Receive Min"@, amount_with_asset_text(op.dest_min as int, op.dest_asset)),
        ]
    }
}

/// Shows a path payment with an exact amount sent.
pub fn format_path_payment_strict_send_op(
    op: &PathPaymentStrictSendOp,
    op_source: &str,
) -> (r: Vec<DataEntry>)
    ensures
        entries_text(r@) == path_payment_strict_send_entries(*op, op_source@),
{
    let destination = op.destination.to_string();
    let mut entries = no_entries();
    push_entry(&mut entries, "Send", format_amount_with_asset(op.send_amount, &op.send_asset));
    if texts_equal(destination.as_str(), op_source) {
        push_entry(
            &mut entries,
            "Receive Min",
            format_amount_with_asset(op.dest_min, &op.dest_asset),
        );
    } else {
        push_entry(&mut entries, "To", destination);
        push_entry(
            &mut entries,
            "They Receive Min",
            format_amount_with_asset(op.dest_min, &op.dest_asset),
        );
    }
    proof {
        assert(entries_text(entries@) =~= path_payment_strict_send_entries(*op, op_source@));
    }
    entries
}

/// The text of an offer's identifier.
pub open spec fn offer_id_text(offer_id: i64) -> Seq<char> {
    "Offer ID: "@ + decimal(offer_id as int)
}

fn format_offer_id(offer_id: i64) -> (r: String)
    ensures
        r@ == offer_id_text(offer_id),
{
    let mut r = String::from_str("Offer ID: ");
    r.append(i128_text(offer_id as i128).as_str());
    r
}

/// A price between two assets: the price, a space, and the two codes
/// around a slash.
pub open spec fn price_between_text(price: Seq<char>, first: Asset, second: Asset) -> Seq<char> {
    price.push(' ') + asset_code_text(first).push('/') + asset_code_text(second)
}

fn format_price_between(
    price: &Price,
    first: &Asset,
    second: &Asset,
) -> (r: Result<String, FormatError>)
    ensures
        match r {
            Ok(s) => price_text(*price) is Some && s@ == price_between_text(
                price_text(*price)->0,
                *first,
                *second,
            ),
            Err(e) => price_text(*price) is None && e == FormatError::InvalidPrice,
        },
{
    let mut r = format_price(price)?;
    push_char(&mut r, ' ');
    r.append(format_asset_code(first).as_str());
    push_char(&mut r, '/');
    r.append(format_asset_code(second).as_str());
    proof {
        assert(r@ =~= price_between_text(price_text(*price)->0, *first, *second));
    }
    Ok(r)
}

/// The fields of an offer to sell: the removal of the offer it names where
/// the amount is zero; else what is sold, what is bought and the price, after
/// the offer that is changed where one is named.
pub open spec fn manage_sell_offer_entries(
    op: ManageSellOfferOp,
) -> Result<Seq<EntryText>, FormatError> {
    if op.offer_id != 0 && op.amount == 0 {
        Ok(seq![("Remove Offer"@, offer_id_text(op.offer_id))])
    } else if price_text(op.price) is None {
        Err(FormatError::InvalidPrice)
    } else {
        let head = if op.offer_id != 0 {
            seq![("Change Offer"@, offer_id_text(op.offer_id))]
        } else {
            Seq::<EntryText>::empty()
        };
        Ok(
            head + seq![
                ("Selling"@, amount_with_asset_text(op.amount as int, op.selling)),
                ("Buying"@, asset_text(op.buying)),
                ("Price"@, price_between_text(price_text(op.price)->0, op.buying, op.selling)),
            ],
        )
    }
}

/// What a formatter reports: the fields as texts, or the error.
pub open spec fn shown(
    r: Result<Vec<DataEntry>, FormatError>,
) -> Result<Seq<EntryText>, FormatError> {
    match r {
        Ok(entries) => Ok(entries_text(entries@)),
        Err(e) => Err(e),
    }
}

/// Shows an offer to sell. A price that is not valid is an error.
pub fn format_manage_sell_offer_op(
    op: &ManageSellOfferOp,
) -> (r: Result<Vec<DataEntry>, FormatError>)
    ensures
        shown(r) == manage_sell_offer_entries(*op),
{
    let mut entries = no_entries();
    if op.offer_id != 0 {
        if op.amount == 0 {
            push_entry(&mut entries, "Remove Offer", format_offer_id(op.offer_id));
            proof {
                assert(entries_text(entries@) =~= seq![
                    ("Remove Offer"@, offer_id_text(op.offer_id)),
                ]);
            }
            return Ok(entries);
        }
        push_entry(&mut entries, "Change Offer", format_offer_id(op.offer_id));
    }
    push_entry(&mut entries, "Selling", format_amount_with_asset(op.amount, &op.selling));
    push_entry(&mut entries, "Buying", format_asset(&op.buying));
    let price = format_price_between(&op.price, &op.buying, &op.selling)?;
    push_entry(&mut entries, "Price", price);
    proof {
        assert(entries_text(entries@) =~= manage_sell_offer_entries(*op)->Ok_0);
    }
    Ok(entries)
}

/// The fields of an offer to buy: the removal of the offer it names where
/// the amount is zero; else what is bought, what is sold and the price, after
/// the offer that is changed where one is named.
pub open spec fn manage_buy_offer_entries(
    op: ManageBuyOfferOp,
) -> Result<Seq<EntryText>, FormatError> {
    if op.offer_id != 0 && op.buy_amount == 0 {
        Ok(seq![("Remove Offer"@, offer_id_text(op.offer_id))])
    } else if price_text(op.price) is None {
        Err(FormatError::InvalidPrice)
    } else {
        let head = if op.offer_id != 0 {
            seq![("Change Offer"@, offer_id_text(op.offer_id))]
        } else {
            Seq::<EntryText>::empty()
        };
        Ok(
            head + seq![
                ("Buying"@, amount_with_asset_text(op.buy_amount as int, op.buying)),
                ("Selling"@, asset_text(op.selling)),
                ("Price"@, price_between_text(price_text(op.price)->0, op.selling, op.buying)),
            ],
        )
    }
}

/// Shows an offer to buy. A price that is not valid is an error.
pub fn format_manage_buy_offer_op(op: &ManageBuyOfferOp) -> (r: Result<Vec<DataEntry>, FormatError>)
    ensures
        shown(r) == manage_buy_offer_entries(*op),
{
    let mut entries = no_entries();
    if op.offer_id != 0 {
        if op.buy_amount == 0 {
            push_entry(&mut entries, "Remove Offer", format_offer_id(op.offer_id));
            proof {
                assert(entries_text(entries@) =~= seq![
                    ("Remove Offer"@, offer_id_text(op.offer_id)),
                ]);
            }
            return Ok(entries);
        }
        push_entry(&mut entries, "Change Offer", format_offer_id(op.offer_id));
    }
    push_entry(&mut entries, "Buying", format_amount_with_asset(op.buy_amount, &op.buying));
    push_entry(&mut entries, "Selling", format_asset(&op.selling));
    let price = format_price_between(&op.price, &op.selling, &op.buying)?;
    push_entry(&mut entries, "Price", price);
    proof {
        assert(entries_text(entries@) =~= manage_buy_offer_entries(*op)->Ok_0);
    }
    Ok(entries)
}

/// The fields of a passive offer to sell.
pub open spec fn create_passive_sell_offer_entries(
    op: CreatePassiveSellOfferOp,
) -> Result<Seq<EntryText>, FormatError> {
    if price_text(op.price) is None {
        Err(FormatError::InvalidPrice)
    } else {
        Ok(
            seq![
                ("Selling"@, amount_with_asset_text(op.amount as int, op.selling)),
                ("Buying"@, asset_text(op.buying)),
                ("Price"@, price_between_text(price_text(op.price)->0, op.buying, op.selling)),
            ],
        )
    }
}

/// Shows a passive offer to sell. A price that is not valid is an error.
pub fn format_create_passive_sell_offer_op(
    op: &CreatePassiveSellOfferOp,
) -> (r: Result<Vec<DataEntry>, FormatError>)
    ensures
        shown(r) == create_passive_sell_offer_entries(*op),
{
    let mut entries = no_entries();
    push_entry(&mut entries, "Selling", format_amount_with_asset(op.amount, &op.selling));
    push_entry(&mut entries, "Buying", format_asset(&op.buying));
    let price = format_price_between(&op.price, &op.buying, &op.selling)?;
    push_entry(&mut entries, "Price", price);
    proof {
        assert(entries_text(entries@) =~= create_passive_sell_offer_entries(*op)->Ok_0);
    }
    Ok(entries)
}

/// One field where `present` holds, none otherwise.
pub open spec fn entry_if(present: bool, title: Seq<char>, content: Seq<char>) -> Seq<EntryText> {
    if present {
        seq![(title, content)]
    } else {
        Seq::empty()
    }
}

/// The field of a home domain: a note where the domain is set to nothing.
pub open spec fn home_domain_text(domain: Seq<char>, is_empty: bool) -> Seq<char> {
    if is_empty {
        "[set home domain to empty]"@
    } else {
        domain
    }
}

/// Whether the signer keys of an account's options can be written.
pub open spec fn set_options_fits(op: SetOptionsOp) -> bool {
    op.signer matches Some(s) ==> s.key.fits()
}

/// The fields of a change of an account's options: one for each option
/// that is set. A signer of weight zero is removed, any other is added.
pub open spec fn set_options_entries(op: SetOptionsOp) -> Seq<EntryText> {
    seq![("Operation Type"@, "Set Options"@)] + entry_if(
        op.inflation_dest is Some,
        "Inflation Dest"@,
        op.inflation_dest->0.text(),
    ) + entry_if(
        op.clear_flags is Some,
        "Clear Flags"@,
        flags_text(op.clear_flags->0, account_flag_defs(), "None"@),
    ) + entry_if(
        op.set_flags is Some,
        "Set Flags"@,
        flags_text(op.set_flags->0, account_flag_defs(), "None"@),
    ) + entry_if(
        op.master_weight is Some,
        "Master Weight"@,
        decimal(op.master_weight->0 as int),
    ) + entry_if(op.low_threshold is Some, "Low Threshold"@, decimal(op.low_threshold->0 as int))
        + entry_if(
        op.med_threshold is Some,
        "Medium Threshold"@,
        decimal(op.med_threshold->0 as int),
    ) + entry_if(
        op.high_threshold is Some,
        "High Threshold"@,
        decimal(op.high_threshold->0 as int),
    ) + set_options_tail(op)
}

/// Adds a field for a number, if there is one.
fn push_optional_number(entries: &mut Vec<DataEntry>, title: &str, value: &Option<u32>)
    ensures
        entries_text(final(entries)@) == entries_text(old(entries)@) + entry_if(
            value is Some,
            title@,
            decimal(value->0 as int),
        ),
{
    if let Some(v) = value {
        push_entry(entries, title, u128_text(*v as u128));
    }
    proof {
        assert(entries_text(entries@) =~= entries_text(old(entries)@) + entry_if(
            value is Some,
            title@,
            decimal(value->0 as int),
        ));
    }
}

/// Adds a field for an account's flags, if there are any.
fn push_optional_flags(entries: &mut Vec<DataEntry>, title: &str, value: &Option<u32>)
    ensures
        entries_text(final(entries)@) == entries_text(old(entries)@) + entry_if(
            value is Some,
            title@,
            flags_text(value->0, account_flag_defs(), "None"@),
        ),
{
    if let Some(v) = value {
        push_entry(entries, title, format_account_flags(*v));
    }
    proof {
        assert(entries_text(entries@) =~= entries_text(old(entries)@) + entry_if(
            value is Some,
            title@,
            flags_text(value->0, account_flag_defs(), "None"@),
        ));
    }
}

/// The fields of the part of an account's options that is not a number.
pub open spec fn set_options_tail(op: SetOptionsOp) -> Seq<EntryText> {
    entry_if(
        op.home_domain is Some,
        "Home Domain"@,
        home_domain_text(op.home_domain->0.text(), op.home_domain->0@.len() == 0),
    ) + (match op.signer {
        Some(s) => if s.weight == 0 {
            seq![("Remove Signer"@, s.key.text())]
        } else {
            seq![("Add Signer"@, s.key.text() + " (weight "@ + decimal(s.weight as int) + ")"@)]
        },
        None => Seq::empty(),
    })
}

fn push_set_options_tail(entries: &mut Vec<DataEntry>, op: &SetOptionsOp)
    requires
        set_options_fits(*op),
    ensures
        entries_text(final(entries)@) == entries_text(old(entries)@) + set_options_tail(*op),
{
    if let Some(home_domain) = &op.home_domain {
        if home_domain.is_empty() {
            push_fixed(entries, "Home Domain", "[set home domain to empty]");
        } else {
            push_entry(entries, "Home Domain", home_domain.to_string());
        }
    }
    if let Some(signer) = &op.signer {
        if signer.weight == 0 {
            push_entry(entries, "Remove Signer", signer.key.to_string());
        } else {
            let mut content = signer.key.to_string();
            content.append(" (weight ");
            content.append(u128_text(signer.weight as u128).as_str());
            content.append(")");
            push_entry(entries, "Add Signer", content);
        }
    }
    proof {
        assert(entries_text(entries@) =~= entries_text(old(entries)@) + set_options_tail(*op));
    }
}

/// Adds the field of the destination of inflation, if there is one.
fn push_inflation_dest(entries: &mut Vec<DataEntry>, op: &SetOptionsOp)
    ensures
        entries_text(final(entries)@) == entries_text(old(entries)@) + entry_if(
            op.inflation_dest is Some,
            "Inflation Dest"@,
            op.inflation_dest->0.text(),
        ),
{
    if let Some(inflation_dest) = &op.inflation_dest {
        push_entry(entries, "Inflation Dest", inflation_dest.to_string());
    }
    proof {
        assert(entries_text(entries@) =~= entries_text(old(entries)@) + entry_if(
            op.inflation_dest is Some,
            "Inflation Dest"@,
            op.inflation_dest->0.text(),
        ));
    }
}

/// Shows a change of an account's options: each option that is set, in a fixed order.
#[verifier::rlimit(50)]
pub fn format_set_options_op(op: &SetOptionsOp) -> (r: Vec<DataEntry>)
    requires
        set_options_fits(*op),
    ensures
        entries_text(r@) == set_options_entries(*op),
{
    let mut entries = one_entry("Operation Type", "Set Options");
    push_inflation_dest(&mut entries, op);
    push_optional_flags(&mut entries, "Clear Flags", &op.clear_flags);
    push_optional_flags(&mut entries, "Set Flags", &op.set_flags);
    push_optional_number(&mut entries, "Master Weight", &op.master_weight);
    push_optional_number(&mut entries, "Low Threshold", &op.low_threshold);
    push_optional_number(&mut entries, "Medium Threshold", &op.med_threshold);
    push_optional_number(&mut entries, "High Threshold", &op.high_threshold);
    push_set_options_tail(&mut entries, op);
    proof {
        assert(entries_text(entries@) =~= set_options_entries(*op));
    }
    entries
}

/// A number of hundredths written in units: a decimal numeral without the
/// zeros at the end of its fraction, and without commas.
pub open spec fn hundredths_text(n: int) -> Seq<char> {
    let text = with_point(decimal(n), 2);
    let body = magnitude(text);
    let dot = index_from(body, '.', 0);
    let fraction = trimmed(body.subrange(dot + 1, body.len() as int));
    let shown = if dot >= body.len() {
        body
    } else if fraction.len() == 0 {
        body.subrange(0, dot)
    } else {
        body.subrange(0, dot).push('.') + fraction
    };
    sign(text) + shown
}

/// The fee of a pool, given in hundredths of a percent, in percent.
pub open spec fn fee_rate_text(fee: i32) -> Seq<char> {
    hundredths_text(fee as int).push('%')
}

/// Writes the fee of a liquidity pool in percent.
pub fn format_fee_rate(fee: i32) -> (r: String)
    ensures
        r@ == fee_rate_text(fee),
{
    let text = format_decimal(fee, 2);
    let n = text.as_str().unicode_len();
    let negative = n > 0 && text.as_str().get_char(0) == '-';
    let body = if negative {
        text.as_str().substring_char(1, n)
    } else {
        text.as_str()
    };
    proof {
        if negative {
            assert(body@ =~= text@.drop_first());
        }
    }
    let len = body.unicode_len();
    let mut r = if negative {
        char_text('-')
    } else {
        String::new()
    };
    let mut dot: usize = 0;
    while dot < len && body.get_char(dot) != '.'
        invariant
            dot <= len,
            len == body@.len(),
            index_from(body@, '.', 0) == index_from(body@, '.', dot as int),
        decreases len - dot,
    {
        dot += 1;
    }
    if dot >= len {
        r.append(body);
    } else {
        let mut end = len;
        let ghost tail = body@.subrange(dot + 1, len as int);
        proof {
            assert(tail.subrange(0, tail.len() as int) =~= tail);
        }
        while end > dot + 1 && body.get_char(end - 1) == '0'
            invariant
                dot + 1 <= end <= len,
                len == body@.len(),
                tail == body@.subrange(dot + 1, len as int),
                trimmed(tail) == trimmed(tail.subrange(0, end - dot - 1)),
            decreases end,
        {
            proof {
                assert(tail.subrange(0, end - dot - 1).drop_last() =~= tail.subrange(
                    0,
                    end - dot - 2,
                ));
            }
            end -= 1;
        }
        proof {
            assert(tail.subrange(0, end - dot - 1) =~= body@.subrange(dot + 1, end as int));
        }
        r.append(body.substring_char(0, dot));
        if end > dot + 1 {
            push_char(&mut r, '.');
            r.append(body.substring_char(dot + 1, end));
        }
    }
    push_char(&mut r, '%');
    proof {
        assert(r@ =~= fee_rate_text(fee));
    }
    r
}

/// The fields of a change of a trust line. A limit of zero removes the
/// line; the largest limit is shown as unlimited.
pub open spec fn change_trust_entries(op: ChangeTrustOp) -> Seq<EntryText> {
    let action = if op.limit == 0 {
        "Remove Trust"@
    } else {
        "Change Trust"@
    };
    let line = match op.line {
        ChangeTrustAsset::Native => seq![(action, "XLM"@)],
        ChangeTrustAsset::CreditAlphanum4(a) => seq![
            (action, a.asset_code.text()),
            ("Asset Issuer"@, a.issuer.text()),
        ],
        ChangeTrustAsset::CreditAlphanum12(a) => seq![
            (action, a.asset_code.text()),
            ("Asset Issuer"@, a.issuer.text()),
        ],
        ChangeTrustAsset::PoolShare(LiquidityPoolParameters::ConstantProduct(pool)) => seq![
            (action, "Liquidity Pool Asset"@),
            ("Asset A"@, asset_text(pool.asset_a)),
            ("Asset B"@, asset_text(pool.asset_b)),
            ("Pool Fee Rate"@, fee_rate_text(pool.fee)),
        ],
    };
    line + entry_if(
        op.limit != 0,
        "Trust Limit"@,
        if op.limit == i64::MAX {
            "[unlimited]"@
        } else {
            native_amount_text(op.limit as int)
        },
    )
}

/// Shows a change of a trust line.
pub fn format_change_trust_op(op: &ChangeTrustOp) -> (r: Vec<DataEntry>)
    ensures
        entries_text(r@) == change_trust_entries(*op),
{
    let mut entries = no_entries();
    let action = if op.limit == 0 {
        "Remove Trust"
    } else {
        "Change Trust"
    };
    match &op.line {
        ChangeTrustAsset::Native => {
            push_fixed(&mut entries, action, "XLM");
        },
        ChangeTrustAsset::CreditAlphanum4(a) => {
            push_entry(&mut entries, action, a.asset_code.to_string());
            push_entry(&mut entries, "Asset Issuer", a.issuer.to_string());
        },
        ChangeTrustAsset::CreditAlphanum12(a) => {
            push_entry(&mut entries, action, a.asset_code.to_string());
            push_entry(&mut entries, "Asset Issuer", a.issuer.to_string());
        },
        ChangeTrustAsset::PoolShare(parameters) => {
            push_fixed(&mut entries, action, "Liquidity Pool Asset");
            match parameters {
                LiquidityPoolParameters::ConstantProduct(pool) => {
                    push_entry(&mut entries, "Asset A", format_asset(&pool.asset_a));
                    push_entry(&mut entries, "Asset B", format_asset(&pool.asset_b));
                    push_entry(&mut entries, "Pool Fee Rate", format_fee_rate(pool.fee));
                },
            }
        },
    }
    if op.limit != 0 {
        if op.limit == i64::MAX {
            push_fixed(&mut entries, "Trust Limit", "[unlimited]");
        } else {
            push_entry(&mut entries, "Trust Limit", format_native_amount(op.limit));
        }
    }
    proof {
        assert(entries_text(entries@) =~= change_trust_entries(*op));
    }
    entries
}

/// The fields of an authorization of a trust line.
pub open spec fn allow_trust_entries(op: AllowTrustOp) -> Seq<EntryText> {
    seq![
        ("Operation Type"@, "Allow Trust"@),
        ("Trustor"@, op.trustor.text()),
        ("Asset Code"@, op.asset.text()),
        ("Authorize"@, flags_text(op.authorize, allow_trust_flag_defs(), "UNAUTHORIZED"@)),
    ]
}

/// Shows an authorization of a trust line.
pub fn format_allow_trust_op(op: &AllowTrustOp) -> (r: Vec<DataEntry>)
    ensures
        entries_text(r@) == allow_trust_entries(*op),
{
    let mut entries = no_entries();
    push_fixed(&mut entries, "Operation Type", "Allow Trust");
    push_entry(&mut entries, "Trustor", op.trustor.to_string());
    push_entry(&mut entries, "Asset Code", op.asset.to_string());
    push_entry(&mut entries, "Authorize", format_allow_trust_flags(op.authorize));
    proof {
        assert(entries_text(entries@) =~= allow_trust_entries(*op));
    }
    entries
}

/// The fields of the merge of an account into another.
pub open spec fn account_merge_entries(destination: MuxedAccount) -> Seq<EntryText> {
    seq![
        ("Account Merge"@, "Send all XLM to destination and close account"@),
        ("Destination"@, destination.text()),
    ]
}

/// Shows the merge of an account into another.
pub fn format_account_merge_op(destination: &MuxedAccount) -> (r: Vec<DataEntry>)
    ensures
        entries_text(r@) == account_merge_entries(*destination),
{
    let mut entries = no_entries();
    push_fixed(&mut entries, "Account Merge", "Send all XLM to destination and close account");
    push_entry(&mut entries, "Destination", destination.to_string());
    proof {
        assert(entries_text(entries@) =~= account_merge_entries(*destination));
    }
    entries
}

/// The fields of a change of a data entry: the entry is removed where no
/// value is given.
pub open spec fn manage_data_entries(op: ManageDataOp) -> Seq<EntryText> {
    match op.data_value {
        Some(value) => seq![("Set Data"@, op.data_name.text()), ("Data Value"@, value.text())],
        None => seq![("Remove Data"@, op.data_name.text())],
    }
}

/// Shows a change of a data entry.
pub fn format_manage_data_op(op: &ManageDataOp) -> (r: Vec<DataEntry>)
    ensures
        entries_text(r@) == manage_data_entries(*op),
{
    let mut entries = no_entries();
    if let Some(data_value) = &op.data_value {
        push_entry(&mut entries, "Set Data", op.data_name.to_string());
        push_entry(&mut entries, "Data Value", data_value.to_string());
    } else {
        push_entry(&mut entries, "Remove Data", op.data_name.to_string());
    }
    proof {
        assert(entries_text(entries@) =~= manage_data_entries(*op));
    }
    entries
}

/// The fields of a raise of the sequence number.
pub open spec fn bump_sequence_entries(op: BumpSequenceOp) -> Seq<EntryText> {
    seq![("Operation Type"@, "Bump Sequence"@), ("Bump To"@, decimal(op.bump_to as int))]
}

/// Shows a raise of the sequence number.
pub fn format_bump_sequence_op(op: &BumpSequenceOp) -> (r: Vec<DataEntry>)
    ensures
        entries_text(r@) == bump_sequence_entries(*op),
{
    let mut entries = no_entries();
    push_fixed(&mut entries, "Operation Type", "Bump Sequence");
    push_entry(&mut entries, "Bump To", i128_text(op.bump_to as i128));
    proof {
        assert(entries_text(entries@) =~= bump_sequence_entries(*op));
    }
    entries
}

/// A title made of a word and a number.
pub open spec fn numbered(word: Seq<char>, n: int) -> Seq<char> {
    word + decimal(n)
}

fn numbered_title(word: &str, n: usize) -> (r: String)
    ensures
        r@ == numbered(word@, n as int),
{
    let mut r = String::from_str(word);
    r.append(u128_text(n as u128).as_str());
    r
}

/// The fields of the first `n` claimants, each as JSON under its number.
pub open spec fn claimant_entries(claimants: Seq<crate::parser::Claimant>, n: nat) -> Seq<EntryText>
    decreases n,
{
    if n == 0 || n > claimants.len() {
        Seq::empty()
    } else {
        claimant_entries(claimants, (n - 1) as nat).push(
            (numbered("Claimant "@, n as int), claimant_json(claimants[n - 1])),
        )
    }
}

/// The fields of the creation of a claimable balance.
pub open spec fn create_claimable_balance_entries(op: CreateClaimableBalanceOp) -> Seq<EntryText> {
    seq![
        ("Operation Type"@, "Create Claimable Balance"@),
        ("Balance"@, amount_with_asset_text(op.amount as int, op.asset)),
    ] + claimant_entries(op.claimants@, op.claimants@.len())
}

/// Shows the creation of a claimable balance, with each claimant as JSON.
pub fn format_create_claimable_balance_op(op: &CreateClaimableBalanceOp) -> (r: Vec<DataEntry>)
    ensures
        entries_text(r@) == create_claimable_balance_entries(*op),
{
    let mut entries = no_entries();
    push_fixed(&mut entries, "Operation Type", "Create Claimable Balance");
    push_entry(&mut entries, "Balance", format_amount_with_asset(op.amount, &op.asset));
    let ghost head = entries_text(entries@);
    let n = op.claimants.len();
    let mut i: usize = 0;
    proof {
        assert(entries_text(entries@) =~= head + claimant_entries(op.claimants@, 0));
    }
    while i < n
        invariant
            i <= n,
            n == op.claimants@.len(),
            entries_text(entries@) == head + claimant_entries(op.claimants@, i as nat),
        decreases n - i,
    {
        let title = numbered_title("Claimant ", i + 1);
        push_entry(&mut entries, title.as_str(), claimant_to_json(op.claimants.get(i)));
        proof {
            assert(entries_text(entries@) =~= head + claimant_entries(
                op.claimants@,
                (i + 1) as nat,
            ));
        }
        i += 1;
    }
    proof {
        assert(head =~= seq![
            ("Operation Type"@, "Create Claimable Balance"@),
            ("Balance"@, amount_with_asset_text(op.amount as int, op.asset)),
        ]);
    }
    entries
}

/// The fields of the claim of a claimable balance.
pub open spec fn claim_claimable_balance_entries(op: ClaimClaimableBalanceOp) -> Seq<EntryText> {
    seq![("Operation Type"@, "Claim Claimable Balance"@), ("Balance ID"@, op.balance_id.text())]
}

/// Shows the claim of a claimable balance.
pub fn format_claim_claimable_balance_op(op: &ClaimClaimableBalanceOp) -> (r: Vec<DataEntry>)
    ensures
        entries_text(r@) == claim_claimable_balance_entries(*op),
{
    let mut entries = no_entries();
    push_fixed(&mut entries, "Operation Type", "Claim Claimable Balance");
    push_entry(&mut entries, "Balance ID", op.balance_id.to_string());
    proof {
        assert(entries_text(entries@) =~= claim_claimable_balance_entries(*op));
    }
    entries
}

/// The fields of the start of a sponsorship.
pub open spec fn begin_sponsoring_future_reserves_entries(
    op: BeginSponsoringFutureReservesOp,
) -> Seq<EntryText> {
    seq![
        ("Operation Type"@, "Begin Sponsoring Future Reserves"@),
        ("Sponsored ID"@, op.sponsored_id.text()),
    ]
}

/// Shows the start of a sponsorship.
pub fn format_begin_sponsoring_future_reserves_op(
    op: &BeginSponsoringFutureReservesOp,
) -> (r: Vec<DataEntry>)
    ensures
        entries_text(r@) == begin_sponsoring_future_reserves_entries(*op),
{
    let mut entries = no_entries();
    push_fixed(&mut entries, "Operation Type", "Begin Sponsoring Future Reserves");
    push_entry(&mut entries, "Sponsored ID", op.sponsored_id.to_string());
    proof {
        assert(entries_text(entries@) =~= begin_sponsoring_future_reserves_entries(*op));
    }
    entries
}

/// Whether the signer key of a revocation can be written.
pub open spec fn revoke_sponsorship_fits(op: RevokeSponsorshipOp) -> bool {
    op matches RevokeSponsorshipOp::Signer(s) ==> s.signer_key.fits()
}

/// The fields of the revocation of a sponsorship. Only accounts, trust
/// lines, offers, data entries, claimable balances, liquidity pools and
/// signers are shown; any other ledger entry is an error.
pub open spec fn revoke_sponsorship_entries(
    op: RevokeSponsorshipOp,
) -> Result<Seq<EntryText>, FormatError> {
    match op {
        RevokeSponsorshipOp::LedgerEntry(LedgerKey::Account(k)) => Ok(
            seq![
                ("Operation Type"@, "Revoke Sponsorship (ACCOUNT)"@),
                ("Account ID"@, k.account_id.text()),
            ],
        ),
        RevokeSponsorshipOp::LedgerEntry(LedgerKey::Trustline(k)) => Ok(
            seq![
                ("Operation Type"@, "Revoke Sponsorship (TRUSTLINE)"@),
                ("Account ID"@, k.account_id.text()),
                ("Asset"@, trust_line_asset_text(k.asset)),
            ],
        ),
        RevokeSponsorshipOp::LedgerEntry(LedgerKey::Offer(k)) => Ok(
            seq![
                ("Operation Type"@, "Revoke Sponsorship (OFFER)"@),
                ("Seller ID"@, k.seller_id.text()),
                ("Offer ID"@, decimal(k.offer_id as int)),
            ],
        ),
        RevokeSponsorshipOp::LedgerEntry(LedgerKey::Data(k)) => Ok(
            seq![
                ("Operation Type"@, "Revoke Sponsorship (DATA)"@),
                ("Account ID"@, k.account_id.text()),
                ("Data Name"@, k.data_name.text()),
            ],
        ),
        RevokeSponsorshipOp::LedgerEntry(LedgerKey::ClaimableBalance(k)) => Ok(
            seq![
                ("Operation Type"@, "Revoke Sponsorship (CLAIMABLE_BALANCE)"@),
                ("Balance ID"@, k.balance_id.text()),
            ],
        ),
        RevokeSponsorshipOp::LedgerEntry(LedgerKey::LiquidityPool(k)) => Ok(
            seq![
                ("Operation Type"@, "Revoke Sponsorship (LIQUIDITY_POOL)"@),
                ("Pool ID"@, strkey_liquidity_pool(k.liquidity_pool_id.0@)),
            ],
        ),
        RevokeSponsorshipOp::LedgerEntry(_) => Err(FormatError::UnsupportedLedgerKey),
        RevokeSponsorshipOp::Signer(s) => Ok(
            seq![
                ("Operation Type"@, "Revoke Sponsorship (SIGNER_KEY)"@),
                ("Account ID"@, s.account_id.text()),
                ("Signer Key"@, s.signer_key.text()),
            ],
        ),
    }
}

/// Shows the revocation of a sponsorship. A ledger entry that cannot be shown is an error.
pub fn format_revoke_sponsorship_op(
    op: &RevokeSponsorshipOp,
) -> (r: Result<Vec<DataEntry>, FormatError>)
    requires
        revoke_sponsorship_fits(*op),
    ensures
        shown(r) == revoke_sponsorship_entries(*op),
{
    let mut entries = no_entries();
    match op {
        RevokeSponsorshipOp::LedgerEntry(key) => match key {
            LedgerKey::Account(account) => {
                push_fixed(&mut entries, "Operation Type", "Revoke Sponsorship (ACCOUNT)");
                push_entry(&mut entries, "Account ID", account.account_id.to_string());
            },
            LedgerKey::Trustline(trust_line) => {
                push_fixed(&mut entries, "Operation Type", "Revoke Sponsorship (TRUSTLINE)");
                push_entry(&mut entries, "Account ID", trust_line.account_id.to_string());
                push_entry(&mut entries, "Asset", format_trust_line_asset(&trust_line.asset));
            },
            LedgerKey::Offer(offer) => {
                push_fixed(&mut entries, "Operation Type", "Revoke Sponsorship (OFFER)");
                push_entry(&mut entries, "Seller ID", offer.seller_id.to_string());
                push_entry(&mut entries, "Offer ID", i128_text(offer.offer_id as i128));
            },
            LedgerKey::Data(data) => {
                push_fixed(&mut entries, "Operation Type", "Revoke Sponsorship (DATA)");
                push_entry(&mut entries, "Account ID", data.account_id.to_string());
                push_entry(&mut entries, "Data Name", data.data_name.to_string());
            },
            LedgerKey::ClaimableBalance(balance) => {
                push_fixed(
                    &mut entries,
                    "Operation Type",
                    "Revoke Sponsorship (CLAIMABLE_BALANCE)",
                );
                push_entry(&mut entries, "Balance ID", balance.balance_id.to_string());
            },
            LedgerKey::LiquidityPool(pool) => {
                push_fixed(&mut entries, "Operation Type", "Revoke Sponsorship (LIQUIDITY_POOL)");
                push_entry(&mut entries, "Pool ID", format_pool_id(&pool.liquidity_pool_id));
            },
            _ => {
                return Err(FormatError::UnsupportedLedgerKey);
            },
        },
        RevokeSponsorshipOp::Signer(signer) => {
            push_fixed(&mut entries, "Operation Type", "Revoke Sponsorship (SIGNER_KEY)");
            push_entry(&mut entries, "Account ID", signer.account_id.to_string());
            push_entry(&mut entries, "Signer Key", signer.signer_key.to_string());
        },
    }
    proof {
        assert(entries_text(entries@) =~= revoke_sponsorship_entries(*op)->Ok_0);
    }
    Ok(entries)
}

/// The fields of a clawback.
pub open spec fn clawback_entries(op: ClawbackOp) -> Seq<EntryText> {
    seq![
        ("Operation Type"@, "Clawback"@),
        ("Clawback"@, amount_with_asset_text(op.amount as int, op.asset)),
        ("From"@, op.from.text()),
    ]
}

/// Shows a clawback.
pub fn format_clawback_op(op: &ClawbackOp) -> (r: Vec<DataEntry>)
    ensures
        entries_text(r@) == clawback_entries(*op),
{
    let mut entries = no_entries();
    push_fixed(&mut entries, "Operation Type", "Clawback");
    push_entry(&mut entries, "Clawback", format_amount_with_asset(op.amount, &op.asset));
    push_entry(&mut entries, "From", op.from.to_string());
    proof {
        assert(entries_text(entries@) =~= clawback_entries(*op));
    }
    entries
}

/// The fields of the clawback of a claimable balance.
pub open spec fn clawback_claimable_balance_entries(
    op: ClawbackClaimableBalanceOp,
) -> Seq<EntryText> {
    seq![("Operation Type"@, "Clawback Claimable Balance"@), ("Balance ID"@, op.balance_id.text())]
}

/// Shows the clawback of a claimable balance.
pub fn format_clawback_claimable_balance_op(op: &ClawbackClaimableBalanceOp) -> (r: Vec<DataEntry>)
    ensures
        entries_text(r@) == clawback_claimable_balance_entries(*op),
{
    let mut entries = no_entries();
    push_fixed(&mut entries, "Operation Type", "Clawback Claimable Balance");
    push_entry(&mut entries, "Balance ID", op.balance_id.to_string());
    proof {
        assert(entries_text(entries@) =~= clawback_claimable_balance_entries(*op));
    }
    entries
}

/// The fields of a change of a trust line's flags.
pub open spec fn set_trust_line_flags_entries(op: SetTrustLineFlagsOp) -> Seq<EntryText> {
    seq![
        ("Operation Type"@, "Set Trust Line Flags"@),
        ("Trustor"@, op.trustor.text()),
        ("Asset"@, asset_text(op.asset)),
        ("Clear Flags"@, flags_text(op.clear_flags, trust_line_flag_defs(), "[none]"@)),
        ("Set Flags"@, flags_text(op.set_flags, trust_line_flag_defs(), "[none]"@)),
    ]
}

/// Shows a change of a trust line's flags.
pub fn format_set_trust_line_flags_op(op: &SetTrustLineFlagsOp) -> (r: Vec<DataEntry>)
    ensures
        entries_text(r@) == set_trust_line_flags_entries(*op),
{
    let mut entries = no_entries();
    push_fixed(&mut entries, "Operation Type", "Set Trust Line Flags");
    push_entry(&mut entries, "Trustor", op.trustor.to_string());
    push_entry(&mut entries, "Asset", format_asset(&op.asset));
    push_entry(&mut entries, "Clear Flags", format_trust_line_flags(op.clear_flags));
    push_entry(&mut entries, "Set Flags", format_trust_line_flags(op.set_flags));
    proof {
        assert(entries_text(entries@) =~= set_trust_line_flags_entries(*op));
    }
    entries
}

/// The fields of a deposit into a liquidity pool.
pub open spec fn liquidity_pool_deposit_entries(
    op: LiquidityPoolDepositOp,
) -> Result<Seq<EntryText>, FormatError> {
    if price_text(op.min_price) is None || price_text(op.max_price) is None {
        Err(FormatError::InvalidPrice)
    } else {
        Ok(
            seq![
                ("Operation Type"@, "Liquidity Pool Deposit"@),
                ("Pool ID"@, strkey_liquidity_pool(op.liquidity_pool_id.0@)),
                ("Max Amount A"@, native_amount_text(op.max_amount_a as int)),
                ("Max Amount B"@, native_amount_text(op.max_amount_b as int)),
                ("Min Price"@, price_text(op.min_price)->0),
                ("Max Price"@, price_text(op.max_price)->0),
            ],
        )
    }
}

/// Shows a deposit into a liquidity pool. A price that is not valid is an error.
pub fn format_liquidity_pool_deposit_op(
    op: &LiquidityPoolDepositOp,
) -> (r: Result<Vec<DataEntry>, FormatError>)
    ensures
        shown(r) == liquidity_pool_deposit_entries(*op),
{
    let mut entries = no_entries();
    push_fixed(&mut entries, "Operation Type", "Liquidity Pool Deposit");
    push_entry(&mut entries, "Pool ID", format_pool_id(&op.liquidity_pool_id));
    push_entry(&mut entries, "Max Amount A", format_native_amount(op.max_amount_a));
    push_entry(&mut entries, "Max Amount B", format_native_amount(op.max_amount_b));
    let min_price = format_price(&op.min_price)?;
    push_entry(&mut entries, "Min Price", min_price);
    let max_price = format_price(&op.max_price)?;
    push_entry(&mut entries, "Max Price", max_price);
    proof {
        assert(entries_text(entries@) =~= liquidity_pool_deposit_entries(*op)->Ok_0);
    }
    Ok(entries)
}

/// The fields of a withdrawal from a liquidity pool.
pub open spec fn liquidity_pool_withdraw_entries(op: LiquidityPoolWithdrawOp) -> Seq<EntryText> {
    seq![
        ("Operation Type"@, "Liquidity Pool Withdraw"@),
        ("Pool ID"@, strkey_liquidity_pool(op.liquidity_pool_id.0@)),
        ("Amount"@, native_amount_text(op.amount as int)),
        ("Min Amount A"@, native_amount_text(op.min_amount_a as int)),
        ("Min Amount B"@, native_amount_text(op.min_amount_b as int)),
    ]
}

/// Shows a withdrawal from a liquidity pool.
pub fn format_liquidity_pool_withdraw_op(op: &LiquidityPoolWithdrawOp) -> (r: Vec<DataEntry>)
    ensures
        entries_text(r@) == liquidity_pool_withdraw_entries(*op),
{
    let mut entries = no_entries();
    push_fixed(&mut entries, "Operation Type", "Liquidity Pool Withdraw");
    push_entry(&mut entries, "Pool ID", format_pool_id(&op.liquidity_pool_id));
    push_entry(&mut entries, "Amount", format_native_amount(op.amount));
    push_entry(&mut entries, "Min Amount A", format_native_amount(op.min_amount_a));
    push_entry(&mut entries, "Min Amount B", format_native_amount(op.min_amount_b));
    proof {
        assert(entries_text(entries@) =~= liquidity_pool_withdraw_entries(*op));
    }
    entries
}

/// The field of an extension of the footprint's lifetime.
pub open spec fn extend_footprint_ttl_entries() -> Seq<EntryText> {
    seq![("Operation Type"@, "Extend Footprint TTL"@)]
}

/// Shows an extension of the footprint's lifetime.
pub fn format_extend_footprint_ttl_op(_op: &ExtendFootprintTTLOp) -> (r: Vec<DataEntry>)
    ensures
        entries_text(r@) == extend_footprint_ttl_entries(),
{
    let mut entries = no_entries();
    push_fixed(&mut entries, "Operation Type", "Extend Footprint TTL");
    proof {
        assert(entries_text(entries@) =~= extend_footprint_ttl_entries());
    }
    entries
}

/// The field of a restoration of the footprint.
pub open spec fn restore_footprint_entries() -> Seq<EntryText> {
    seq![("Operation Type"@, "Restore Footprint"@)]
}

/// Shows a restoration of the footprint.
pub fn format_restore_footprint_op(_op: &RestoreFootprintOp) -> (r: Vec<DataEntry>)
    ensures
        entries_text(r@) == restore_footprint_entries(),
{
    let mut entries = no_entries();
    push_fixed(&mut entries, "Operation Type", "Restore Footprint");
    proof {
        assert(entries_text(entries@) =~= restore_footprint_entries());
    }
    entries
}

/// The field of a contract creation: from which code the contract is made.
pub open spec fn create_contract_entries(executable: ContractExecutable) -> Seq<EntryText> {
    match executable {
        ContractExecutable::Wasm(hash) => seq![
            ("Create Contract"@, "Deploy contract from WASM hash: "@ + hex_text(hash.0@)),
        ],
        ContractExecutable::StellarAsset => seq![
            ("Create Contract"@, "Deploy Stellar asset contract"@),
        ],
    }
}

fn format_executable(executable: &ContractExecutable) -> (r: Vec<DataEntry>)
    ensures
        entries_text(r@) == create_contract_entries(*executable),
{
    let mut entries = no_entries();
    match executable {
        ContractExecutable::Wasm(wasm) => {
            let mut content = String::from_str("Deploy contract from WASM hash: ");
            content.append(hex_encode(wasm.0.as_slice()).as_str());
            push_entry(&mut entries, "Create Contract", content);
        },
        ContractExecutable::StellarAsset => {
            push_fixed(&mut entries, "Create Contract", "Deploy Stellar asset contract");
        },
    }
    proof {
        assert(entries_text(entries@) =~= create_contract_entries(*executable));
    }
    entries
}

/// Shows a contract creation.
pub fn format_create_contract_args(args: &CreateContractArgs) -> (r: Vec<DataEntry>)
    ensures
        entries_text(r@) == create_contract_entries(args.executable),
{
    format_executable(&args.executable)
}

/// The title of an argument: its number and how many there are.
pub open spec fn arg_title(i: int, count: int) -> Seq<char> {
    "Arg "@ + decimal(i) + " of "@ + decimal(count)
}

/// The fields of the first `n` arguments of a call, each as the text that
/// stands for it.
pub open spec fn arg_entries(args: Seq<ScVal>, n: nat) -> Seq<EntryText>
    decreases n,
{
    if n == 0 || n > args.len() {
        Seq::empty()
    } else {
        arg_entries(args, (n - 1) as nat).push(
            (arg_title(n as int, args.len() as int), scval_key_text(args[n - 1])),
        )
    }
}

/// Adds a field for each argument.
fn push_args(entries: &mut Vec<DataEntry>, args: &VecM<ScVal, 4294967295>)
    ensures
        entries_text(final(entries)@) == entries_text(old(entries)@) + arg_entries(
            args@,
            args@.len(),
        ),
{
    let ghost head = entries_text(entries@);
    let n = args.len();
    let mut i: usize = 0;
    proof {
        assert(entries_text(entries@) =~= head + arg_entries(args@, 0));
    }
    while i < n
        invariant
            i <= n,
            n == args@.len(),
            entries_text(entries@) == head + arg_entries(args@, i as nat),
        decreases n - i,
    {
        let mut title = String::from_str("Arg ");
        title.append(u128_text((i + 1) as u128).as_str());
        title.append(" of ");
        title.append(u128_text(n as u128).as_str());
        push_entry(entries, title.as_str(), scval_to_key_string(args.get(i)));
        proof {
            assert(entries_text(entries@) =~= head + arg_entries(args@, (i + 1) as nat));
        }
        i += 1;
    }
}

/// The fields of a contract creation with a constructor: the code, then
/// the constructor's arguments.
pub open spec fn create_contract_v2_entries(args: CreateContractArgsV2) -> Seq<EntryText> {
    create_contract_entries(args.executable) + arg_entries(
        args.constructor_args@,
        args.constructor_args@.len(),
    )
}

/// Shows a contract creation with a constructor.
pub fn format_create_contract_args_v2(args: &CreateContractArgsV2) -> (r: Vec<DataEntry>)
    ensures
        entries_text(r@) == create_contract_v2_entries(*args),
{
    let mut entries = format_executable(&args.executable);
    push_args(&mut entries, &args.constructor_args);
    entries
}

/// The fields of a call of a contract: those of a token call where it is
/// one, else the contract, the function and the arguments.
pub open spec fn invoke_contract_entries(args: InvokeContractArgs) -> Seq<EntryText> {
    match token_call_entries(args) {
        Some(entries) => entries,
        None => seq![
            ("Contract ID"@, args.contract_address.text()),
            ("Function"@, args.function_name.text()),
        ] + arg_entries(args.args@, args.args@.len()),
    }
}

/// Shows a call of a contract.
pub fn format_invoke_contract_args(args: &InvokeContractArgs) -> (r: Vec<DataEntry>)
    ensures
        entries_text(r@) == invoke_contract_entries(*args),
{
    if let Some(entries) = try_format_token_contract_call(args) {
        return entries;
    }
    let mut entries = no_entries();
    push_entry(&mut entries, "Contract ID", args.contract_address.to_string());
    push_entry(&mut entries, "Function", args.function_name.to_string());
    proof {
        assert(entries_text(entries@) =~= seq![
            ("Contract ID"@, args.contract_address.text()),
            ("Function"@, args.function_name.text()),
        ]);
    }
    push_args(&mut entries, &args.args);
    entries
}

/// The fields of the function that an invocation authorizes.
pub open spec fn authorized_function_entries(
    function: SorobanAuthorizedFunction,
) -> Seq<EntryText> {
    match function {
        SorobanAuthorizedFunction::ContractFn(args) => invoke_contract_entries(args),
        SorobanAuthorizedFunction::CreateContractHostFn(args) => create_contract_entries(
            args.executable,
        ),
        SorobanAuthorizedFunction::CreateContractV2HostFn(args) => create_contract_v2_entries(
            args,
        ),
    }
}

fn format_authorized_function(function: &SorobanAuthorizedFunction) -> (r: Vec<DataEntry>)
    ensures
        entries_text(r@) == authorized_function_entries(*function),
{
    match function {
        SorobanAuthorizedFunction::ContractFn(args) => format_invoke_contract_args(args),
        SorobanAuthorizedFunction::CreateContractHostFn(args) => format_create_contract_args(args),
        SorobanAuthorizedFunction::CreateContractV2HostFn(args) => format_create_contract_args_v2(
            args,
        ),
    }
}

/// The place of a nested invocation: its number, after its parent's place
/// and a dash where it has a parent.
pub open spec fn nested_index(parent: Option<Seq<char>>, n: int) -> Seq<char> {
    match parent {
        Some(p) => p.push('-') + decimal(n),
        None => decimal(n),
    }
}

/// The invocations under an invocation are smaller than it: recursion over
/// them ends.
pub proof fn lemma_sub_invocations_smaller(invocation: SorobanAuthorizedInvocation)
    ensures
        decreases_to!(invocation => invocation.sub_invocations@),
{
    broadcast use vstd::std_specs::vec::axiom_vec_decreases_to_view;

    assert(decreases_to!(invocation => invocation.sub_invocations));
    assert(decreases_to!(invocation.sub_invocations => invocation.sub_invocations@));
}

/// The fields of the first `n` invocations under an invocation: each after
/// a field that gives its place.
pub open spec fn sub_invocation_entries(
    subs: Seq<SorobanAuthorizedInvocation>,
    parent: Option<Seq<char>>,
    n: nat,
) -> Seq<EntryText>
    decreases subs, n,
{
    if n == 0 || n > subs.len() {
        Seq::empty()
    } else {
        sub_invocation_entries(subs, parent, (n - 1) as nat).push(
            ("Nested Authorization"@, nested_index(parent, n as int)),
        ) + invocation_entries(subs[n - 1], Some(nested_index(parent, n as int)), true)
    }
}

/// The fields of an authorized invocation: its function, then, where
/// nested authorizations are shown, the invocations under it.
pub open spec fn invocation_entries(
    invocation: SorobanAuthorizedInvocation,
    parent: Option<Seq<char>>,
    nested: bool,
) -> Seq<EntryText>
    decreases invocation, 0nat,
{
    authorized_function_entries(invocation.function) + if nested {
        proof {
            lemma_sub_invocations_smaller(invocation);
        }
        sub_invocation_entries(
            invocation.sub_invocations@,
            parent,
            invocation.sub_invocations@.len(),
        )
    } else {
        Seq::empty()
    }
}

/// The text of an optional text.
pub open spec fn optional_text(s: Option<&str>) -> Option<Seq<char>> {
    match s {
        Some(t) => Some(t@),
        None => None,
    }
}

fn format_nested_index(parent: Option<&str>, n: usize) -> (r: String)
    ensures
        r@ == nested_index(optional_text(parent), n as int),
{
    match parent {
        Some(p) => {
            let mut r = String::from_str(p);
            push_char(&mut r, '-');
            r.append(u128_text(n as u128).as_str());
            r
        },
        None => u128_text(n as u128),
    }
}

/// Adds the fields of the invocations under an invocation.
#[verifier::loop_isolation(false)]
fn push_sub_invocations(
    entries: &mut Vec<DataEntry>,
    subs: &Vec<SorobanAuthorizedInvocation>,
    parent: Option<&str>,
    config: &FormatConfig,
)
    requires
        config.show_nested_authorization,
    ensures
        entries_text(final(entries)@) == entries_text(old(entries)@) + sub_invocation_entries(
            subs@,
            optional_text(parent),
            subs@.len(),
        ),
    decreases subs@, 1nat,
{
    let ghost head = entries_text(entries@);
    let n = subs.len();
    let mut i: usize = 0;
    proof {
        assert(entries_text(entries@) =~= head + sub_invocation_entries(
            subs@,
            optional_text(parent),
            0,
        ));
    }
    while i < n
        invariant
            i <= n,
            n == subs@.len(),
            entries_text(entries@) == head + sub_invocation_entries(
                subs@,
                optional_text(parent),
                i as nat,
            ),
        decreases n - i,
    {
        let index = format_nested_index(parent, i + 1);
        push_entry(entries, "Nested Authorization", index.clone());
        let more = format_soroban_authorized_invocation(&subs[i], Some(index.as_str()), config);
        append_entries(entries, more);
        proof {
            assert(entries_text(entries@) =~= head + sub_invocation_entries(
                subs@,
                optional_text(parent),
                (i + 1) as nat,
            ));
        }
        i += 1;
    }
}

/// Shows an authorized invocation.
pub fn format_soroban_authorized_invocation(
    invocation: &SorobanAuthorizedInvocation,
    parent_index: Option<&str>,
    config: &FormatConfig,
) -> (r: Vec<DataEntry>)
    ensures
        entries_text(r@) == invocation_entries(
            *invocation,
            optional_text(parent_index),
            config.show_nested_authorization,
        ),
    decreases *invocation, 0nat,
{
    let mut entries = format_authorized_function(&invocation.function);
    if config.show_nested_authorization {
        proof {
            lemma_sub_invocations_smaller(*invocation);
        }
        push_sub_invocations(
            &mut entries,
            &invocation.sub_invocations,
            parent_index,
            config,
        );
    } else {
        proof {
            assert(entries_text(entries@) =~= invocation_entries(
                *invocation,
                optional_text(parent_index),
                false,
            ));
        }
    }
    entries
}

/// The fields of a host function.
pub open spec fn host_function_entries(function: HostFunction) -> Seq<EntryText> {
    match function {
        HostFunction::InvokeContract(args) => invoke_contract_entries(args),
        HostFunction::CreateContract(args) => create_contract_entries(args.executable),
        HostFunction::UploadContractWasm(_) => seq![
            ("Upload WASM"@, "Upload Smart Contract WASM"@),
        ],
        HostFunction::CreateContractV2(args) => create_contract_v2_entries(args),
    }
}

fn format_host_function(function: &HostFunction) -> (r: Vec<DataEntry>)
    ensures
        entries_text(r@) == host_function_entries(*function),
{
    match function {
        HostFunction::InvokeContract(args) => format_invoke_contract_args(args),
        HostFunction::CreateContract(args) => format_create_contract_args(args),
        HostFunction::UploadContractWasm(_) => {
            let mut entries = no_entries();
            push_fixed(&mut entries, "Upload WASM", "Upload Smart Contract WASM");
            proof {
                assert(entries_text(entries@) =~= host_function_entries(*function));
            }
            entries
        },
        HostFunction::CreateContractV2(args) => format_create_contract_args_v2(args),
    }
}

/// How many of the first `n` authorizations are the source account's.
pub open spec fn own_authorizations(auth: Seq<SorobanAuthorizationEntry>, n: nat) -> nat
    decreases n,
{
    if n == 0 || n > auth.len() {
        0
    } else if auth[n - 1].credentials is SourceAccount {
        own_authorizations(auth, (n - 1) as nat) + 1
    } else {
        own_authorizations(auth, (n - 1) as nat)
    }
}

/// The fields of the first `n` authorizations. Those of the source account
/// are numbered from one, and the invocations under each are shown under
/// its number; those of another address are not the signer's to give and are
/// left out.
pub open spec fn authorization_entries(
    auth: Seq<SorobanAuthorizationEntry>,
    n: nat,
) -> Seq<EntryText>
    decreases n,
{
    if n == 0 || n > auth.len() {
        Seq::empty()
    } else if auth[n - 1].credentials is SourceAccount {
        authorization_entries(auth, (n - 1) as nat) + sub_invocation_entries(
            auth[n - 1].root_invocation.sub_invocations@,
            Some(decimal((own_authorizations(auth, (n - 1) as nat) + 1) as int)),
            auth[n - 1].root_invocation.sub_invocations@.len(),
        )
    } else {
        authorization_entries(auth, (n - 1) as nat)
    }
}

/// The fields of an operation that runs a host function: the function,
/// then, where nested authorizations are shown, its authorizations.
pub open spec fn invoke_host_function_entries(
    op: InvokeHostFunctionOp,
    nested: bool,
) -> Seq<EntryText> {
    host_function_entries(op.host_function) + if nested {
        authorization_entries(op.auth@, op.auth@.len())
    } else {
        Seq::empty()
    }
}

/// Shows an operation that runs a host function.
pub fn format_invoke_host_function_op(
    op: &InvokeHostFunctionOp,
    config: &FormatConfig,
) -> (r: Vec<DataEntry>)
    ensures
        entries_text(r@) == invoke_host_function_entries(*op, config.show_nested_authorization),
{
    let mut entries = format_host_function(&op.host_function);
    let ghost head = entries_text(entries@);
    if config.show_nested_authorization {
        let n = op.auth.len();
        let mut own: usize = 0;
        let mut i: usize = 0;
        proof {
            assert(entries_text(entries@) =~= head + authorization_entries(op.auth@, 0));
        }
        while i < n
            invariant
                i <= n,
                n == op.auth@.len(),
                config.show_nested_authorization,
                own == own_authorizations(op.auth@, i as nat),
                own <= i,
                entries_text(entries@) == head + authorization_entries(op.auth@, i as nat),
            decreases n - i,
        {
            let auth = op.auth.get(i);
            match &auth.credentials {
                SorobanCredentials::SourceAccount => {
                    let parent = u128_text((own + 1) as u128);
                    push_sub_invocations(
                        &mut entries,
                        &auth.root_invocation.sub_invocations,
                        Some(parent.as_str()),
                        config,
                    );
                    own += 1;
                },
                SorobanCredentials::Address(_) => {},
            }
            proof {
                assert(entries_text(entries@) =~= head + authorization_entries(
                    op.auth@,
                    (i + 1) as nat,
                ));
            }
            i += 1;
        }
    } else {
        proof {
            assert(entries_text(entries@) =~= invoke_host_function_entries(*op, false));
        }
    }
    entries
}

/// Whether the signer keys of an operation can be written.
pub open spec fn operation_fits(op: Operation) -> bool {
    match op.body {
        OperationBody::SetOptions(o) => set_options_fits(o),
        OperationBody::RevokeSponsorship(o) => revoke_sponsorship_fits(o),
        _ => true,
    }
}

/// Whether the signer keys of an operation can be written.
pub fn check_operation_fits(op: &Operation) -> (b: bool)
    ensures
        b == operation_fits(*op),
{
    match &op.body {
        OperationBody::SetOptions(o) => match &o.signer {
            Some(s) => s.key.check_fits(),
            None => true,
        },
        OperationBody::RevokeSponsorship(o) => match o {
            RevokeSponsorshipOp::Signer(s) => s.signer_key.check_fits(),
            _ => true,
        },
        _ => true,
    }
}

/// The account for which an operation acts: its own source where it has
/// one, else the transaction's.
pub open spec fn operation_source(op: Operation, tx_source: Seq<char>) -> Seq<char> {
    match op.source_account {
        Some(account) => account.text(),
        None => tx_source,
    }
}

fn effective_source(operation: &Operation, tx_source: &str) -> (r: String)
    ensures
        r@ == operation_source(*operation, tx_source@),
{
    match &operation.source_account {
        Some(account) => account.to_string(),
        None => String::from_str(tx_source),
    }
}

/// The fields of what an operation does.
pub open spec fn body_entries(
    body: OperationBody,
    nested: bool,
    op_source: Seq<char>,
) -> Result<Seq<EntryText>, FormatError> {
    match body {
        OperationBody::CreateAccount(op) => Ok(create_account_entries(op)),
        OperationBody::Payment(op) => Ok(payment_entries(op)),
        OperationBody::PathPaymentStrictReceive(op) => Ok(
            path_payment_strict_receive_entries(op, op_source),
        ),
        OperationBody::ManageSellOffer(op) => manage_sell_offer_entries(op),
        OperationBody::CreatePassiveSellOffer(op) => create_passive_sell_offer_entries(op),
        OperationBody::SetOptions(op) => Ok(set_options_entries(op)),
        OperationBody::ChangeTrust(op) => Ok(change_trust_entries(op)),
        OperationBody::AllowTrust(op) => Ok(allow_trust_entries(op)),
        OperationBody::AccountMerge(destination) => Ok(account_merge_entries(destination)),
        OperationBody::Inflation => Ok(seq![("Operation Type"@, "Inflation"@)]),
        OperationBody::ManageData(op) => Ok(manage_data_entries(op)),
        OperationBody::BumpSequence(op) => Ok(bump_sequence_entries(op)),
        OperationBody::ManageBuyOffer(op) => manage_buy_offer_entries(op),
        OperationBody::PathPaymentStrictSend(op) => Ok(
            path_payment_strict_send_entries(op, op_source),
        ),
        OperationBody::CreateClaimableBalance(op) => Ok(create_claimable_balance_entries(op)),
        OperationBody::ClaimClaimableBalance(op) => Ok(claim_claimable_balance_entries(op)),
        OperationBody::BeginSponsoringFutureReserves(op) => Ok(
            begin_sponsoring_future_reserves_entries(op),
        ),
        OperationBody::EndSponsoringFutureReserves => Ok(
            seq![("Operation Type"@, "End Sponsoring Future Reserves"@)],
        ),
        OperationBody::RevokeSponsorship(op) => revoke_sponsorship_entries(op),
        OperationBody::Clawback(op) => Ok(clawback_entries(op)),
        OperationBody::ClawbackClaimableBalance(op) => Ok(clawback_claimable_balance_entries(op)),
        OperationBody::SetTrustLineFlags(op) => Ok(set_trust_line_flags_entries(op)),
        OperationBody::LiquidityPoolDeposit(op) => liquidity_pool_deposit_entries(op),
        OperationBody::LiquidityPoolWithdraw(op) => Ok(liquidity_pool_withdraw_entries(op)),
        OperationBody::InvokeHostFunction(op) => Ok(invoke_host_function_entries(op, nested)),
        OperationBody::ExtendFootprintTTL(_) => Ok(extend_footprint_ttl_entries()),
        OperationBody::RestoreFootprint(_) => Ok(restore_footprint_entries()),
    }
}

/// Whether an operation's source is shown: where it has one of its own
/// that is not the transaction's.
pub open spec fn op_source_shown(op: Operation, tx_source: Seq<char>) -> bool {
    op.source_account is Some && op.source_account->0.text() != tx_source
}

/// The fields of an operation: those of what it does, then its source
/// where it has one of its own that is not the transaction's.
pub open spec fn operation_entries(
    op: Operation,
    config: FormatConfig,
    tx_source: Seq<char>,
) -> Result<Seq<EntryText>, FormatError> {
    match body_entries(
        op.body,
        config.show_nested_authorization,
        operation_source(op, tx_source),
    ) {
        Ok(entries) => Ok(
            entries + entry_if(
                op_source_shown(op, tx_source),
                "Op Source"@,
                op.source_account->0.text(),
            ),
        ),
        Err(e) => Err(e),
    }
}

/// A single field.
fn one_entry(title: &str, content: &str) -> (r: Vec<DataEntry>)
    ensures
        entries_text(r@) == seq![(title@, content@)],
{
    let mut entries = no_entries();
    push_fixed(&mut entries, title, content);
    proof {
        assert(entries_text(entries@) =~= seq![(title@, content@)]);
    }
    entries
}

#[verifier::rlimit(60)]
fn format_body(
    body: &OperationBody,
    config: &FormatConfig,
    op_source: &str,
) -> (r: Result<Vec<DataEntry>, FormatError>)
    requires
        body matches OperationBody::SetOptions(o) ==> set_options_fits(*o),
        body matches OperationBody::RevokeSponsorship(o) ==> revoke_sponsorship_fits(*o),
    ensures
        shown(r) == body_entries(*body, config.show_nested_authorization, op_source@),
{
    match body {
        OperationBody::CreateAccount(op) => Ok(format_create_account_op(op)),
        OperationBody::Payment(op) => Ok(format_payment_op(op)),
        OperationBody::PathPaymentStrictReceive(op) => Ok(
            format_path_payment_strict_receive_op(op, op_source),
        ),
        OperationBody::ManageSellOffer(op) => format_manage_sell_offer_op(op),
        OperationBody::CreatePassiveSellOffer(op) => format_create_passive_sell_offer_op(op),
        OperationBody::SetOptions(op) => Ok(format_set_options_op(op)),
        OperationBody::ChangeTrust(op) => Ok(format_change_trust_op(op)),
        OperationBody::AllowTrust(op) => Ok(format_allow_trust_op(op)),
        OperationBody::AccountMerge(destination) => Ok(format_account_merge_op(destination)),
        OperationBody::Inflation => Ok(one_entry("Operation Type", "Inflation")),
        OperationBody::ManageData(op) => Ok(format_manage_data_op(op)),
        OperationBody::BumpSequence(op) => Ok(format_bump_sequence_op(op)),
        OperationBody::ManageBuyOffer(op) => format_manage_buy_offer_op(op),
        OperationBody::PathPaymentStrictSend(op) => Ok(
            format_path_payment_strict_send_op(op, op_source),
        ),
        OperationBody::CreateClaimableBalance(op) => Ok(format_create_claimable_balance_op(op)),
        OperationBody::ClaimClaimableBalance(op) => Ok(format_claim_claimable_balance_op(op)),
        OperationBody::BeginSponsoringFutureReserves(op) => Ok(
            format_begin_sponsoring_future_reserves_op(op),
        ),
        OperationBody::EndSponsoringFutureReserves => Ok(
            one_entry("Operation Type", "End Sponsoring Future Reserves"),
        ),
        OperationBody::RevokeSponsorship(op) => format_revoke_sponsorship_op(op),
        OperationBody::Clawback(op) => Ok(format_clawback_op(op)),
        OperationBody::ClawbackClaimableBalance(op) => Ok(
            format_clawback_claimable_balance_op(op),
        ),
        OperationBody::SetTrustLineFlags(op) => Ok(format_set_trust_line_flags_op(op)),
        OperationBody::LiquidityPoolDeposit(op) => format_liquidity_pool_deposit_op(op),
        OperationBody::LiquidityPoolWithdraw(op) => Ok(format_liquidity_pool_withdraw_op(op)),
        OperationBody::InvokeHostFunction(op) => Ok(format_invoke_host_function_op(op, config)),
        OperationBody::ExtendFootprintTTL(op) => Ok(format_extend_footprint_ttl_op(op)),
        OperationBody::RestoreFootprint(op) => Ok(format_restore_footprint_op(op)),
    }
}

/// Shows an operation.
pub fn format_operation(
    operation: &Operation,
    config: &FormatConfig,
    tx_source: &str,
) -> (r: Result<Vec<DataEntry>, FormatError>)
    requires
        operation_fits(*operation),
    ensures
        shown(r) == operation_entries(*operation, *config, tx_source@),
{
    let op_source = effective_source(operation, tx_source);
    let mut entries = format_body(&operation.body, config, op_source.as_str())?;
    if let Some(source) = &operation.source_account {
        let source_text = source.to_string();
        if !texts_equal(source_text.as_str(), tx_source) {
            push_entry(&mut entries, "Op Source", source_text);
        }
    }
    proof {
        assert(entries_text(entries@) =~= operation_entries(
            *operation,
            *config,
            tx_source@,
        )->Ok_0);
    }
    Ok(entries)
}

/// What sending through a path is called: a swap where the destination is
/// the operation's source, else the sending of the asset.
pub open spec fn path_intent(
    destination: Seq<char>,
    op_source: Seq<char>,
    asset: Asset,
) -> Seq<char> {
    if destination == op_source {
        "swap"@
    } else {
        "send "@ + asset_code_text(asset)
    }
}

/// In a few words what an operation is for, where that can be said.
pub open spec fn operation_intent(op: Operation, tx_source: Seq<char>) -> Option<Seq<char>> {
    match op.body {
        OperationBody::CreateAccount(_) => Some("send XLM"@),
        OperationBody::Payment(o) => Some("send "@ + asset_code_text(o.asset)),
        OperationBody::PathPaymentStrictReceive(o) => Some(
            path_intent(o.destination.text(), operation_source(op, tx_source), o.send_asset),
        ),
        OperationBody::PathPaymentStrictSend(o) => Some(
            path_intent(o.destination.text(), operation_source(op, tx_source), o.send_asset),
        ),
        OperationBody::ManageSellOffer(o) => Some(offer_action_text(o.offer_id, o.amount)),
        OperationBody::ManageBuyOffer(o) => Some(offer_action_text(o.offer_id, o.buy_amount)),
        OperationBody::CreatePassiveSellOffer(_) => Some("create offer"@),
        OperationBody::SetOptions(_) => Some("set options"@),
        OperationBody::ChangeTrust(_) => Some("change trust line"@),
        OperationBody::AllowTrust(_) => Some("allow trust"@),
        OperationBody::AccountMerge(_) => Some("merge account"@),
        OperationBody::Inflation => None,
        OperationBody::ManageData(_) => Some("manage data"@),
        OperationBody::BumpSequence(_) => Some("bump sequence"@),
        OperationBody::CreateClaimableBalance(_) => Some("create claimable balance"@),
        OperationBody::ClaimClaimableBalance(_) => Some("claim claimable balance"@),
        OperationBody::BeginSponsoringFutureReserves(_) => None,
        OperationBody::EndSponsoringFutureReserves => None,
        OperationBody::RevokeSponsorship(_) => Some("revoke sponsorship"@),
        OperationBody::Clawback(_) => Some("clawback asset"@),
        OperationBody::ClawbackClaimableBalance(_) => Some("clawback claimable balance"@),
        OperationBody::SetTrustLineFlags(_) => Some("set trust line flags"@),
        OperationBody::LiquidityPoolDeposit(_) => Some("deposit into pool "@),
        OperationBody::LiquidityPoolWithdraw(_) => Some("withdraw from pool"@),
        OperationBody::InvokeHostFunction(o) => Some(
            match o.host_function {
                HostFunction::InvokeContract(_) => "invoke contract"@,
                HostFunction::CreateContract(_) => "create contract"@,
                HostFunction::CreateContractV2(_) => "create contract"@,
                HostFunction::UploadContractWasm(_) => "upload WASM"@,
            },
        ),
        OperationBody::ExtendFootprintTTL(_) => Some("extend footprint TTL"@),
        OperationBody::RestoreFootprint(_) => Some("restore footprint"@),
    }
}

fn send_intent(asset: &Asset) -> (r: String)
    ensures
        r@ == "send "@ + asset_code_text(*asset),
{
    let mut r = String::from_str("send ");
    r.append(format_asset_code(asset).as_str());
    r
}

fn format_path_intent(destination: &MuxedAccount, op_source: &str, asset: &Asset) -> (r: String)
    ensures
        r@ == path_intent(destination.text(), op_source@, *asset),
{
    if texts_equal(destination.to_string().as_str(), op_source) {
        String::from_str("swap")
    } else {
        send_intent(asset)
    }
}

/// What an option of texts holds.
pub open spec fn text_if_any(r: Option<String>) -> Option<Seq<char>> {
    match r {
        Some(s) => Some(s@),
        None => None,
    }
}

/// Says in a few words what an operation is for.
#[verifier::rlimit(40)]
pub fn get_operation_intent(operation: &Operation, tx_source: &str) -> (r: Option<String>)
    ensures
        text_if_any(r) == operation_intent(*operation, tx_source@),
{
    let op_source = effective_source(operation, tx_source);
    match &operation.body {
        OperationBody::CreateAccount(_) => Some(String::from_str("send XLM")),
        OperationBody::Payment(op) => Some(send_intent(&op.asset)),
        OperationBody::PathPaymentStrictReceive(op) => Some(
            format_path_intent(&op.destination, op_source.as_str(), &op.send_asset),
        ),
        OperationBody::PathPaymentStrictSend(op) => Some(
            format_path_intent(&op.destination, op_source.as_str(), &op.send_asset),
        ),
        OperationBody::ManageSellOffer(op) => Some(offer_action(op.offer_id, op.amount)),
        OperationBody::ManageBuyOffer(op) => Some(offer_action(op.offer_id, op.buy_amount)),
        OperationBody::CreatePassiveSellOffer(_) => Some(String::from_str("create offer")),
        OperationBody::SetOptions(_) => Some(String::from_str("set options")),
        OperationBody::ChangeTrust(_) => Some(String::from_str("change trust line")),
        OperationBody::AllowTrust(_) => Some(String::from_str("allow trust")),
        OperationBody::AccountMerge(_) => Some(String::from_str("merge account")),
        OperationBody::Inflation => None,
        OperationBody::ManageData(_) => Some(String::from_str("manage data")),
        OperationBody::BumpSequence(_) => Some(String::from_str("bump sequence")),
        OperationBody::CreateClaimableBalance(_) => Some(
            String::from_str("create claimable balance"),
        ),
        OperationBody::ClaimClaimableBalance(_) => Some(
            String::from_str("claim claimable balance"),
        ),
        OperationBody::BeginSponsoringFutureReserves(_) => None,
        OperationBody::EndSponsoringFutureReserves => None,
        OperationBody::RevokeSponsorship(_) => Some(String::from_str("revoke sponsorship")),
        OperationBody::Clawback(_) => Some(String::from_str("clawback asset")),
        OperationBody::ClawbackClaimableBalance(_) => Some(
            String::from_str("clawback claimable balance"),
        ),
        OperationBody::SetTrustLineFlags(_) => Some(String::from_str("set trust line flags")),
        OperationBody::LiquidityPoolDeposit(_) => Some(String::from_str("deposit into pool ")),
        OperationBody::LiquidityPoolWithdraw(_) => Some(String::from_str("withdraw from pool")),
        OperationBody::InvokeHostFunction(op) => match &op.host_function {
            HostFunction::InvokeContract(_) => Some(String::from_str("invoke contract")),
            HostFunction::CreateContract(_) => Some(String::from_str("create contract")),
            HostFunction::CreateContractV2(_) => Some(String::from_str("create contract")),
            HostFunction::UploadContractWasm(_) => Some(String::from_str("upload WASM")),
        },
        OperationBody::ExtendFootprintTTL(_) => Some(String::from_str("extend footprint TTL")),
        OperationBody::RestoreFootprint(_) => Some(String::from_str("restore footprint")),
    }
}

/// The field of a memo: none for no memo.
pub open spec fn memo_entries(memo: Memo) -> Seq<EntryText> {
    match memo {
        Memo::MemoNone => Seq::empty(),
        Memo::Text(text) => seq![("Memo Text"@, text.text())],
        Memo::Id(id) => seq![("Memo ID"@, decimal(id as int))],
        Memo::Hash(hash) => seq![("Memo Hash"@, hex_text(hash.0@))],
        Memo::Return(hash) => seq![("Memo Return"@, hex_text(hash.0@))],
    }
}

fn push_memo(entries: &mut Vec<DataEntry>, memo: &Memo)
    ensures
        entries_text(final(entries)@) == entries_text(old(entries)@) + memo_entries(*memo),
{
    match memo {
        Memo::MemoNone => {},
        Memo::Text(text) => {
            push_entry(entries, "Memo Text", text.to_string());
        },
        Memo::Id(id) => {
            push_entry(entries, "Memo ID", u128_text(*id as u128));
        },
        Memo::Hash(hash) => {
            push_entry(entries, "Memo Hash", hex_encode(hash.0.as_slice()));
        },
        Memo::Return(hash) => {
            push_entry(entries, "Memo Return", hex_encode(hash.0.as_slice()));
        },
    }
    proof {
        assert(entries_text(entries@) =~= entries_text(old(entries)@) + memo_entries(*memo));
    }
}

/// The text of a point in time.
pub open spec fn time_text(t: u64) -> Seq<char> {
    timestamp_text(t, timestamp_rendering(t))
}

/// The fields of time bounds: each bound that is not zero.
pub open spec fn time_bounds_entries(bounds: TimeBounds) -> Seq<EntryText> {
    entry_if(bounds.min_time != 0, "Valid After"@, time_text(bounds.min_time)) + entry_if(
        bounds.max_time != 0,
        "Valid Before"@,
        time_text(bounds.max_time),
    )
}

fn push_time_bounds(entries: &mut Vec<DataEntry>, bounds: &TimeBounds)
    ensures
        entries_text(final(entries)@) == entries_text(old(entries)@) + time_bounds_entries(
            *bounds,
        ),
{
    if bounds.min_time != 0 {
        push_entry(entries, "Valid After", format_unix_timestamp(bounds.min_time));
    }
    if bounds.max_time != 0 {
        push_entry(entries, "Valid Before", format_unix_timestamp(bounds.max_time));
    }
    proof {
        assert(entries_text(entries@) =~= entries_text(old(entries)@) + time_bounds_entries(
            *bounds,
        ));
    }
}

/// The fields of the first `n` extra signers, each under its number.
pub open spec fn extra_signer_entries(signers: Seq<SignerKey>, n: nat) -> Seq<EntryText>
    decreases n,
{
    if n == 0 || n > signers.len() {
        Seq::empty()
    } else {
        extra_signer_entries(signers, (n - 1) as nat).push(
            (numbered("Extra Signer "@, n as int), signers[n - 1].text()),
        )
    }
}

/// Whether the extra signers of a transaction's conditions can be written.
pub open spec fn conditions_fit(cond: Preconditions) -> bool {
    cond matches Preconditions::V2(v2) ==> forall|i: int|
        0 <= i < v2.extra_signers@.len() ==> (#[trigger] v2.extra_signers@[i]).fits()
}

/// The fields of the numbers among a transaction's conditions: each that
/// is there and not zero.
pub open spec fn condition_number_entries(cond: PreconditionsV2) -> Seq<EntryText> {
    entry_if(
        cond.ledger_bounds is Some && cond.ledger_bounds->0.min_ledger != 0,
        "Min Ledger"@,
        decimal(cond.ledger_bounds->0.min_ledger as int),
    ) + entry_if(
        cond.ledger_bounds is Some && cond.ledger_bounds->0.max_ledger != 0,
        "Max Ledger"@,
        decimal(cond.ledger_bounds->0.max_ledger as int),
    ) + entry_if(
        cond.min_seq_num is Some && cond.min_seq_num->0 != 0,
        "Min Seq Num"@,
        decimal(cond.min_seq_num->0 as int),
    ) + entry_if(cond.min_seq_age != 0, "Min Seq Age"@, decimal(cond.min_seq_age as int))
        + entry_if(
        cond.min_seq_ledger_gap != 0,
        "Min Seq Ledger Gap"@,
        decimal(cond.min_seq_ledger_gap as int),
    )
}

fn push_condition_numbers(entries: &mut Vec<DataEntry>, cond: &PreconditionsV2)
    ensures
        entries_text(final(entries)@) == entries_text(old(entries)@) + condition_number_entries(
            *cond,
        ),
{
    if let Some(ledger_bounds) = &cond.ledger_bounds {
        if ledger_bounds.min_ledger != 0 {
            push_entry(entries, "Min Ledger", u128_text(ledger_bounds.min_ledger as u128));
        }
        if ledger_bounds.max_ledger != 0 {
            push_entry(entries, "Max Ledger", u128_text(ledger_bounds.max_ledger as u128));
        }
    }
    if let Some(min_seq_num) = cond.min_seq_num {
        if min_seq_num != 0 {
            push_entry(entries, "Min Seq Num", i128_text(min_seq_num as i128));
        }
    }
    if cond.min_seq_age != 0 {
        push_entry(entries, "Min Seq Age", u128_text(cond.min_seq_age as u128));
    }
    if cond.min_seq_ledger_gap != 0 {
        push_entry(entries, "Min Seq Ledger Gap", u128_text(cond.min_seq_ledger_gap as u128));
    }
    proof {
        assert(entries_text(entries@) =~= entries_text(old(entries)@) + condition_number_entries(
            *cond,
        ));
    }
}

/// The fields of a transaction's conditions.
pub open spec fn condition_entries(cond: Preconditions) -> Seq<EntryText> {
    match cond {
        Preconditions::PrecondNone => Seq::empty(),
        Preconditions::Time(bounds) => time_bounds_entries(bounds),
        Preconditions::V2(v2) => (match v2.time_bounds {
            Some(bounds) => time_bounds_entries(bounds),
            None => Seq::empty(),
        }) + condition_number_entries(v2) + extra_signer_entries(
            v2.extra_signers@,
            v2.extra_signers@.len(),
        ),
    }
}

fn push_conditions(entries: &mut Vec<DataEntry>, cond: &Preconditions)
    requires
        conditions_fit(*cond),
    ensures
        entries_text(final(entries)@) == entries_text(old(entries)@) + condition_entries(*cond),
{
    match cond {
        Preconditions::PrecondNone => {
            proof {
                assert(entries_text(entries@) =~= entries_text(old(entries)@) + condition_entries(
                    *cond,
                ));
            }
        },
        Preconditions::Time(bounds) => {
            push_time_bounds(entries, bounds);
        },
        Preconditions::V2(v2) => {
            if let Some(bounds) = &v2.time_bounds {
                push_time_bounds(entries, bounds);
            }
            push_condition_numbers(entries, v2);
            let ghost head = entries_text(entries@);
            let n = v2.extra_signers.len();
            let mut i: usize = 0;
            proof {
                assert(entries_text(entries@) =~= head + extra_signer_entries(
                    v2.extra_signers@,
                    0,
                ));
            }
            while i < n
                invariant
                    i <= n,
                    n == v2.extra_signers@.len(),
                    conditions_fit(*cond),
                    *cond == Preconditions::V2(*v2),
                    entries_text(entries@) == head + extra_signer_entries(
                        v2.extra_signers@,
                        i as nat,
                    ),
                decreases n - i,
            {
                let title = numbered_title("Extra Signer ", i + 1);
                let signer = v2.extra_signers.get(i);
                push_entry(entries, title.as_str(), signer.to_string());
                proof {
                    assert(entries_text(entries@) =~= head + extra_signer_entries(
                        v2.extra_signers@,
                        (i + 1) as nat,
                    ));
                }
                i += 1;
            }
            proof {
                assert(entries_text(entries@) =~= entries_text(old(entries)@) + condition_entries(
                    *cond,
                ));
            }
        },
    }
}

/// Whether a transaction's source is shown: always for the transaction
/// inside a fee bump, else where the settings ask for it or the source is
/// not the signer.
pub open spec fn source_shown(
    is_inner_tx: bool,
    config: FormatConfig,
    source: Seq<char>,
    signer: Seq<char>,
) -> bool {
    is_inner_tx || config.show_tx_source_if_matches_signer || source != signer
}

/// Decides whether a transaction's source is shown.
pub fn tx_source_shown(
    is_inner_tx: bool,
    config: &FormatConfig,
    source: &str,
    signer: &str,
) -> (b: bool)
    ensures
        b == source_shown(is_inner_tx, *config, source@, signer@),
{
    is_inner_tx || config.show_tx_source_if_matches_signer || !texts_equal(source, signer)
}

/// The fields of a transaction, in the order in which they are shown: the
/// memo, the fee, the sequence number and the conditions where the
/// settings show them, and the source where it is shown.
pub open spec fn transaction_entries(
    tx: Transaction,
    config: FormatConfig,
    signer: Seq<char>,
    is_inner_tx: bool,
) -> Seq<EntryText> {
    memo_entries(tx.memo).push(("Max Fee"@, xlm_text(tx.fee as int))) + entry_if(
        config.show_sequence_and_nonce,
        "Sequence Num"@,
        decimal(tx.seq_num as int),
    ) + (if config.show_preconditions {
        condition_entries(tx.cond)
    } else {
        Seq::empty()
    }) + entry_if(
        source_shown(is_inner_tx, config, tx.source_account.text(), signer),
        "Tx Source"@,
        tx.source_account.text(),
    )
}

/// Shows a transaction.
pub fn format_transaction(
    transaction: &Transaction,
    config: &FormatConfig,
    signer_address: &str,
    is_inner_tx: bool,
) -> (r: Result<Vec<DataEntry>, FormatError>)
    requires
        conditions_fit(transaction.cond),
    ensures
        r matches Ok(entries) && entries_text(entries@) == transaction_entries(
            *transaction,
            *config,
            signer_address@,
            is_inner_tx,
        ),
{
    let mut entries = no_entries();
    push_memo(&mut entries, &transaction.memo);
    push_entry(&mut entries, "Max Fee", format_xlm(transaction.fee));
    if config.show_sequence_and_nonce {
        push_entry(&mut entries, "Sequence Num", i128_text(transaction.seq_num as i128));
    }
    let ghost before = entries_text(entries@);
    if config.show_preconditions {
        push_conditions(&mut entries, &transaction.cond);
    }
    let source_str = transaction.source_account.to_string();
    if tx_source_shown(is_inner_tx, config, source_str.as_str(), signer_address) {
        push_entry(&mut entries, "Tx Source", source_str);
    }
    proof {
        assert(entries_text(entries@) =~= transaction_entries(
            *transaction,
            *config,
            signer_address@,
            is_inner_tx,
        ));
    }
    Ok(entries)
}

/// Whether the signer keys of a signed payload can be written.
pub open spec fn payload_fits(payload: TransactionSignaturePayload) -> bool {
    match payload.tagged_transaction {
        TaggedTransaction::EnvelopeTypeTx(tx) => conditions_fit(tx.cond),
        TaggedTransaction::EnvelopeTypeTxFeeBump(bump) => conditions_fit(
            bump.inner_tx->EnvelopeTypeTx_0.cond,
        ),
    }
}

/// The fields of what is signed for a transaction: the network where it
/// is not the public one; then the transaction, or for a fee bump the fee's
/// source, the fee, a note, and the transaction inside.
pub open spec fn signature_payload_entries(
    payload: TransactionSignaturePayload,
    config: FormatConfig,
    signer: Seq<char>,
) -> Seq<EntryText> {
    network_entries(payload.network_id.0@) + (match payload.tagged_transaction {
        TaggedTransaction::EnvelopeTypeTx(tx) => transaction_entries(tx, config, signer, false),
        TaggedTransaction::EnvelopeTypeTxFeeBump(bump) => seq![
            ("Fee Source"@, bump.fee_source.text()),
            ("Max Fee"@, xlm_text(bump.fee as int)),
            ("Inner Tx"@, "The following details are for the inner transaction"@),
        ] + transaction_entries(bump.inner_tx->EnvelopeTypeTx_0, config, signer, true),
    })
}

/// Shows what is signed for a transaction.
pub fn format_transaction_signature_payload(
    tx_signature_payload: &TransactionSignaturePayload,
    config: &FormatConfig,
    signer_address: &str,
) -> (r: Result<Vec<DataEntry>, FormatError>)
    requires
        payload_fits(*tx_signature_payload),
    ensures
        r matches Ok(entries) && entries_text(entries@) == signature_payload_entries(
            *tx_signature_payload,
            *config,
            signer_address@,
        ),
{
    let mut entries = no_entries();
    add_network_info_if_needed(&mut entries, &tx_signature_payload.network_id);
    match &tx_signature_payload.tagged_transaction {
        TaggedTransaction::EnvelopeTypeTx(tx) => {
            let tx_entries = format_transaction(tx, config, signer_address, false)?;
            append_entries(&mut entries, tx_entries);
        },
        TaggedTransaction::EnvelopeTypeTxFeeBump(bump) => {
            push_entry(&mut entries, "Fee Source", bump.fee_source.to_string());
            push_entry(&mut entries, "Max Fee", format_xlm(bump.fee));
            push_fixed(
                &mut entries,
                "Inner Tx",
                "The following details are for the inner transaction",
            );
            match &bump.inner_tx {
                InnerTransaction::EnvelopeTypeTx(tx) => {
                    let tx_entries = format_transaction(tx, config, signer_address, true)?;
                    append_entries(&mut entries, tx_entries);
                },
            }
        },
    }
    proof {
        assert(entries_text(entries@) =~= signature_payload_entries(
            *tx_signature_payload,
            *config,
            signer_address@,
        ));
    }
    Ok(entries)
}

/// Whether the extra signers of a signed payload can be written.
pub fn check_payload_fits(payload: &TransactionSignaturePayload) -> (b: bool)
    ensures
        b == payload_fits(*payload),
{
    match &payload.tagged_transaction {
        TaggedTransaction::EnvelopeTypeTx(tx) => check_conditions_fit(&tx.cond),
        TaggedTransaction::EnvelopeTypeTxFeeBump(bump) => match &bump.inner_tx {
            InnerTransaction::EnvelopeTypeTx(tx) => check_conditions_fit(&tx.cond),
        },
    }
}

/// Whether the extra signers of a transaction's conditions can be written.
#[verifier::loop_isolation(false)]
pub fn check_conditions_fit(cond: &Preconditions) -> (b: bool)
    ensures
        b == conditions_fit(*cond),
{
    match cond {
        Preconditions::V2(v2) => {
            let n = v2.extra_signers.len();
            let mut i: usize = 0;
            while i < n
                invariant
                    i <= n,
                    n == v2.extra_signers@.len(),
                    forall|j: int| 0 <= j < i ==> (#[trigger] v2.extra_signers@[j]).fits(),
                decreases n - i,
            {
                if !v2.extra_signers.get(i).check_fits() {
                    proof {
                        assert(!v2.extra_signers@[i as int].fits());
                    }
                    return false;
                }
                i += 1;
            }
            true
        },
        _ => true,
    }
}

/// The fields of what is signed for an authorization: the network where
/// it is not the public one, the nonce where the settings show it, the
/// ledger at which the signature expires, and the invocation.
pub open spec fn authorization_preimage_entries(
    auth: HashIdPreimageSorobanAuthorization,
    config: FormatConfig,
) -> Seq<EntryText> {
    network_entries(auth.network_id.0@) + entry_if(
        config.show_sequence_and_nonce,
        "Nonce"@,
        decimal(auth.nonce as int),
    ).push(("Sig Exp Ledger"@, decimal(auth.signature_expiration_ledger as int)))
        + invocation_entries(auth.invocation, None, config.show_nested_authorization)
}

/// Shows what is signed for an authorization.
pub fn format_hash_id_preimage_soroban_authorization(
    auth: &HashIdPreimageSorobanAuthorization,
    config: &FormatConfig,
) -> (r: Vec<DataEntry>)
    ensures
        entries_text(r@) == authorization_preimage_entries(*auth, *config),
{
    let mut entries = no_entries();
    add_network_info_if_needed(&mut entries, &auth.network_id);
    if config.show_sequence_and_nonce {
        push_entry(&mut entries, "Nonce", i128_text(auth.nonce as i128));
    }
    push_entry(
        &mut entries,
        "Sig Exp Ledger",
        u128_text(auth.signature_expiration_ledger as u128),
    );
    let more = format_soroban_authorized_invocation(&auth.invocation, None, config);
    append_entries(&mut entries, more);
    proof {
        assert(entries_text(entries@) =~= authorization_preimage_entries(*auth, *config));
    }
    entries
}

/// The transaction inside a fee bump always shows its source, whoever
/// signs and whatever the settings are: the source is the last field of what
/// is shown for the fee bump.
pub proof fn law_fee_bump_shows_inner_source(
    payload: TransactionSignaturePayload,
    config: FormatConfig,
    signer: Seq<char>,
)
    requires
        payload.tagged_transaction is EnvelopeTypeTxFeeBump,
    ensures
        signature_payload_entries(payload, config, signer).len() > 0,
        ({
            let bump = payload.tagged_transaction->EnvelopeTypeTxFeeBump_0;
            let inner = bump.inner_tx->EnvelopeTypeTx_0;
            signature_payload_entries(payload, config, signer).last() == (
                "Tx Source"@,
                inner.source_account.text(),
            )
        }),
{
}

/// A transaction that is not inside a fee bump does not show its source
/// where the source is the signer, unless the settings ask for it: what is
/// shown ends with the conditions.
pub proof fn law_own_source_is_left_out(tx: Transaction, config: FormatConfig, signer: Seq<char>)
    requires
        tx.source_account.text() == signer,
        !config.show_tx_source_if_matches_signer,
    ensures
        transaction_entries(tx, config, signer, false) == memo_entries(tx.memo).push(
            ("Max Fee"@, xlm_text(tx.fee as int)),
        ) + entry_if(config.show_sequence_and_nonce, "Sequence Num"@, decimal(tx.seq_num as int))
            + (if config.show_preconditions {
            condition_entries(tx.cond)
        } else {
            Seq::empty()
        }),
{
    assert(transaction_entries(tx, config, signer, false) =~= memo_entries(tx.memo).push(
        ("Max Fee"@, xlm_text(tx.fee as int)),
    ) + entry_if(config.show_sequence_and_nonce, "Sequence Num"@, decimal(tx.seq_num as int)) + (
    if config.show_preconditions {
        condition_entries(tx.cond)
    } else {
        Seq::empty()
    }));
}

/// An operation shows its source, as its last field, where it has one of
/// its own that is not the transaction's; otherwise it shows the fields of
/// what it does and no source.
pub proof fn law_op_source_is_shown_where_distinct(
    op: Operation,
    config: FormatConfig,
    tx_source: Seq<char>,
)
    requires
        operation_entries(op, config, tx_source) is Ok,
    ensures
        op_source_shown(op, tx_source) ==> {
            let shown = operation_entries(op, config, tx_source)->Ok_0;
            shown.len() > 0 && shown.last() == ("Op Source"@, op.source_account->0.text())
        },
        !op_source_shown(op, tx_source) ==> {
            operation_entries(op, config, tx_source) == body_entries(
                op.body,
                config.show_nested_authorization,
                operation_source(op, tx_source),
            )
        },
{
    let fields = body_entries(
        op.body,
        config.show_nested_authorization,
        operation_source(op, tx_source),
    )->Ok_0;
    if !op_source_shown(op, tx_source) {
        assert(fields + Seq::<EntryText>::empty() =~= fields);
    }
}

/// A price is refused exactly where its denominator is not positive or
/// its numerator is negative.
pub proof fn law_price_validity(price: Price)
    ensures
        price_text(price) is None <==> (price.d <= 0 || price.n < 0),
{
}

} // verus!

//! Decoding and on-device rendering of Stellar transactions.
//!
//! The crate decodes the XDR wire form of the messages a hardware wallet is
//! asked to sign and renders them as an ordered list of titled fields.

pub mod apdu;
pub mod bip32;
pub mod context;
pub mod crypto;
pub mod display;
pub mod formatter;
pub mod json;
pub mod parser;
pub mod review;
pub mod serialize;
pub mod settings;
pub mod sw;
pub mod swap_format;
pub mod swap_validation;
pub mod text;
pub mod token_formatter;
pub mod tokens;

pub use formatter::{
    format_hash_id_preimage_soroban_authorization, format_operation,
    format_transaction_signature_payload, get_operation_intent, DataEntry, FormatConfig,
    FormatError,
};
pub use parser::{
    HashIDPreimage, InnerTransaction, Memo, Operation, OperationBody, ParseError, Parser,
    TaggedTransaction, Transaction, TransactionSignaturePayload, XdrParse, PUBLIC_NETWORK_HASH,
    TESTNET_NETWORK_HASH,
};
pub use token_formatter::try_format_token_contract_call;
pub use tokens::{get_token_info, TokenInfo};

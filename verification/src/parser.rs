//! The XDR decoder: the byte cursor and the message types it decodes.

pub mod codec;
pub mod codes;
pub mod contract;
pub mod cursor;
pub mod keys;
pub mod laws;
pub mod operations;
pub mod transaction;

pub use codec::{BytesM, StringM, VecM, XdrParse};
pub use codes::{
    AccountFlags, AssetType, ClaimPredicateType, ClaimableBalanceIdType, ClaimantType,
    ConfigSettingID, ContractDataDurability, ContractExecutableType, ContractIDPreimageType,
    CryptoKeyType, EnvelopeType, ExtensionPoint, HostFunctionType, LedgerEntryType,
    LiquidityPoolType, MemoType, OperationType, PreconditionType, PublicKeyType,
    RevokeSponsorshipType, SCErrorCode, SCErrorType, ScAddressType, ScValType, SignerKeyType,
    SorobanAuthorizedFunctionType, SorobanCredentialsType, TrustLineFlags,
};
pub use contract::{
    ClaimableBalanceId, ContractExecutable, ContractIDPreimage, ContractIDPreimageFromAddress,
    CreateContractArgs, CreateContractArgsV2, HashIDPreimage, HashIdPreimageSorobanAuthorization,
    HostFunction, Int128Parts, Int256Parts, InvokeContractArgs, InvokeHostFunctionOp,
    SCContractInstance, SCError, ScAddress, ScBytes, ScMapEntry, ScNonceKey, ScString, ScSymbol,
    ScVal, SorobanAddressCredentials, SorobanAuthorizationEntry, SorobanAuthorizedFunction,
    SorobanAuthorizedInvocation, SorobanCredentials, UInt128Parts, UInt256Parts,
};
pub use cursor::{ParseError, Parser, MAX_PARSE_DEPTH};
pub use keys::{
    AccountId, AlphaNum12, AlphaNum4, Asset, AssetCode, AssetCode12, AssetCode4, ContractId,
    Duration, Ed25519SignedPayload, MuxedAccount, MuxedEd25519, MuxedEd25519Account,
    PUBLIC_NETWORK_HASH, PoolId, PublicKey, SequenceNumber, SignerKey, TESTNET_NETWORK_HASH,
    TimePoint, Uint256,
};
pub use operations::{
    AllowTrustOp, BeginSponsoringFutureReservesOp, BumpSequenceOp, ChangeTrustAsset, ChangeTrustOp,
    ClaimClaimableBalanceOp, ClaimPredicate, Claimant, ClaimantV0, ClawbackClaimableBalanceOp,
    ClawbackOp, CreateAccountOp, CreateClaimableBalanceOp, CreatePassiveSellOfferOp,
    ExtendFootprintTTLOp, LedgerKey, LedgerKeyAccount, LedgerKeyClaimableBalance,
    LedgerKeyConfigSetting, LedgerKeyContractCode, LedgerKeyContractData, LedgerKeyData,
    LedgerKeyLiquidityPool, LedgerKeyOffer, LedgerKeyTrustLine, LedgerKeyTtl,
    LiquidityPoolConstantProductParameters, LiquidityPoolDepositOp, LiquidityPoolParameters,
    LiquidityPoolWithdrawOp, ManageBuyOfferOp, ManageDataOp, ManageSellOfferOp, Operation,
    OperationBody, PathPaymentStrictReceiveOp, PathPaymentStrictSendOp, PaymentOp, Price,
    RestoreFootprintOp, RevokeSponsorshipOp, RevokeSponsorshipOpSigner, SetOptionsOp,
    SetTrustLineFlagsOp, Signer, TrustLineAsset,
};
pub use transaction::{
    FeeBumpTransaction, InnerTransaction, LedgerBounds, Memo, Preconditions, PreconditionsV2,
    TaggedTransaction, TimeBounds, Transaction, TransactionSignaturePayload,
};

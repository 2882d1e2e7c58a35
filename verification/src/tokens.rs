//! The token contracts whose calls are shown by the token's symbol and in
//! the token's units.

use crate::text::bytes_equal;
use vstd::prelude::*;

verus! {

/// A known token contract.
#[derive(Debug, Clone, Copy, PartialEq, Eq)]
pub struct TokenInfo {
    /// The contract's identifier.
    pub contract_address: [u8; 32],
    /// The token's symbol.
    pub symbol: &'static str,
    /// How many decimal places one unit of the token has.
    pub decimals: u32,
}

/// The contract of the USDC token.
pub const USDC_CONTRACT: [u8; 32] = [
    0xad, 0xef, 0xce, 0x59, 0xae, 0xe5, 0x29, 0x68, 0xf7, 0x60, 0x61, 0xd4, 0x94, 0xc2, 0x52, 0x5b,
    0x75, 0x65, 0x9f, 0xa4, 0x29, 0x6a, 0x65, 0xf4, 0x99, 0xef, 0x29, 0xe5, 0x64, 0x77, 0xe4, 0x96,
];

/// The contract of the BTC token.
pub const BTC_CONTRACT: [u8; 32] = [
    0x1d, 0xf1, 0x8d, 0x2d, 0x33, 0x1d, 0x88, 0x3e, 0x38, 0x1e, 0x3a, 0x9a, 0xe7, 0xb8, 0x22, 0xb9,
    0x48, 0x06, 0x4c, 0x32, 0xc0, 0x4b, 0x44, 0x54, 0x74, 0xe2, 0xc1, 0xc8, 0x2c, 0x35, 0xa4, 0x00,
];

/// The known token contracts, in the order in which they are looked up.
pub open spec fn known_token_list() -> Seq<TokenInfo> {
    seq![
        TokenInfo { contract_address: USDC_CONTRACT, symbol: "USDC", decimals: 7 },
        TokenInfo { contract_address: BTC_CONTRACT, symbol: "BTC", decimals: 7 },
    ]
}

/// The known token contracts.
pub fn known_tokens() -> (tokens: Vec<TokenInfo>)
    ensures
        tokens@ == known_token_list(),
{
    let mut tokens: Vec<TokenInfo> = Vec::new();
    tokens.push(TokenInfo { contract_address: USDC_CONTRACT, symbol: "USDC", decimals: 7 });
    tokens.push(TokenInfo { contract_address: BTC_CONTRACT, symbol: "BTC", decimals: 7 });
    proof {
        assert(tokens@ =~= known_token_list());
    }
    tokens
}

/// The first of the first `n` known tokens whose contract is `contract`.
pub open spec fn find_token(tokens: Seq<TokenInfo>, contract: Seq<u8>, n: nat) -> Option<TokenInfo>
    decreases n,
{
    if n == 0 || n > tokens.len() {
        None
    } else {
        match find_token(tokens, contract, (n - 1) as nat) {
            Some(t) => Some(t),
            None => if tokens[n - 1].contract_address@ == contract {
                Some(tokens[n - 1])
            } else {
                None
            },
        }
    }
}

/// The known token whose contract is `contract`, if there is one.
pub open spec fn known_token(contract: Seq<u8>) -> Option<TokenInfo> {
    find_token(known_token_list(), contract, known_token_list().len())
}

/// Looks a contract up among the known tokens.
pub fn get_token_info(contract_address: &[u8; 32]) -> (r: Option<TokenInfo>)
    ensures
        r == known_token(contract_address@),
{
    let tokens = known_tokens();
    let n = tokens.len();
    let mut i: usize = 0;
    while i < n
        invariant
            i <= n,
            n == tokens@.len(),
            tokens@ == known_token_list(),
            find_token(tokens@, contract_address@, i as nat) is None,
        decreases n - i,
    {
        if bytes_equal(tokens[i].contract_address.as_slice(), contract_address.as_slice()) {
            proof {
                assert(find_token(tokens@, contract_address@, (i + 1) as nat) == Some(
                    tokens@[i as int],
                ));
                lemma_found_stays(tokens@, contract_address@, (i + 1) as nat, n as nat);
            }
            return Some(tokens[i]);
        }
        i += 1;
    }
    None
}

/// A token found among the first `i` is the one found among the first `n`.
proof fn lemma_found_stays(tokens: Seq<TokenInfo>, contract: Seq<u8>, i: nat, n: nat)
    requires
        i <= n <= tokens.len(),
        find_token(tokens, contract, i) is Some,
    ensures
        find_token(tokens, contract, n) == find_token(tokens, contract, i),
    decreases n,
{
    if i < n {
        lemma_found_stays(tokens, contract, i, (n - 1) as nat);
    }
}

} // verus!

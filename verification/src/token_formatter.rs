//! Calls of known token contracts, shown by the token's symbol and in the
//! token's units.

use crate::display::{
    format_number_with_commas, format_token_amount, number_with_commas, token_amount_text,
};
use crate::formatter::{entries_text, push_entry, DataEntry, EntryText};
use crate::parser::{InvokeContractArgs, ScAddress, ScVal};
use crate::text::{decimal, push_char, texts_equal, u128_text};
use crate::tokens::{get_token_info, known_token, TokenInfo};
use vstd::prelude::*;
use vstd::string::StringExecFns;

verus! {

/// The amount that an argument holds, where it is a signed 128-bit integer.
pub open spec fn amount_of(arg: ScVal) -> Option<int> {
    match arg {
        ScVal::I128(parts) => Some(parts.value()),
        _ => None,
    }
}

/// The address that an argument holds, as text.
pub open spec fn address_of(arg: ScVal) -> Option<Seq<char>> {
    match arg {
        ScVal::Address(a) => Some(a.text()),
        _ => None,
    }
}

/// The number that an argument holds, where it is an unsigned 32-bit
/// integer, with commas.
pub open spec fn number_of(arg: ScVal) -> Option<Seq<char>> {
    match arg {
        ScVal::U32(v) => Some(number_with_commas(decimal(v as int))),
        _ => None,
    }
}

/// An amount of a token: the amount in the token's units, the token's
/// symbol, an at sign and the contract.
pub open spec fn token_amount_with_symbol(
    amount: int,
    token: TokenInfo,
    contract: ScAddress,
) -> Seq<char> {
    (token_amount_text(amount, token.decimals as nat).push(' ') + token.symbol@).push('@')
        + contract.text()
}

/// The fields of a call of a known token's function: of `transfer`,
/// `approve`, `transfer_from`, `burn` or `burn_from` with the number and
/// the kinds of arguments that the function takes. Any other call has none.
pub open spec fn token_entries(
    name: Seq<char>,
    args: Seq<ScVal>,
    token: TokenInfo,
    contract: ScAddress,
) -> Option<Seq<EntryText>> {
    if name == "approve"@ {
        if args.len() == 4 && amount_of(args[2]) is Some && address_of(args[0]) is Some
            && address_of(args[1]) is Some && number_of(args[3]) is Some {
            Some(
                seq![
                    ("Approve"@, token_amount_with_symbol(amount_of(args[2])->0, token, contract)),
                    ("From"@, address_of(args[0])->0),
                    ("Spender"@, address_of(args[1])->0),
                    ("Exp Ledger"@, number_of(args[3])->0),
                ],
            )
        } else {
            None
        }
    } else if name == "transfer"@ {
        if args.len() == 3 && amount_of(args[2]) is Some && address_of(args[0]) is Some
            && address_of(args[1]) is Some {
            Some(
                seq![
                    ("Transfer"@, token_amount_with_symbol(amount_of(args[2])->0, token, contract)),
                    ("From"@, address_of(args[0])->0),
                    ("To"@, address_of(args[1])->0),
                ],
            )
        } else {
            None
        }
    } else if name == "transfer_from"@ {
        if args.len() == 4 && amount_of(args[3]) is Some && address_of(args[1]) is Some
            && address_of(args[2]) is Some && address_of(args[0]) is Some {
            Some(
                seq![
                    ("Transfer"@, token_amount_with_symbol(amount_of(args[3])->0, token, contract)),
                    ("From"@, address_of(args[1])->0),
                    ("To"@, address_of(args[2])->0),
                    ("Spender"@, address_of(args[0])->0),
                ],
            )
        } else {
            None
        }
    } else if name == "burn"@ {
        if args.len() == 2 && amount_of(args[1]) is Some && address_of(args[0]) is Some {
            Some(
                seq![
                    ("Burn"@, token_amount_with_symbol(amount_of(args[1])->0, token, contract)),
                    ("From"@, address_of(args[0])->0),
                ],
            )
        } else {
            None
        }
    } else if name == "burn_from"@ {
        if args.len() == 3 && amount_of(args[2]) is Some && address_of(args[1]) is Some
            && address_of(args[0]) is Some {
            Some(
                seq![
                    ("Burn"@, token_amount_with_symbol(amount_of(args[2])->0, token, contract)),
                    ("From"@, address_of(args[1])->0),
                    ("Spender"@, address_of(args[0])->0),
                ],
            )
        } else {
            None
        }
    } else {
        None
    }
}

/// The fields of a call, where it is a call of a known token contract that
/// is shown as such.
pub open spec fn token_call_entries(args: InvokeContractArgs) -> Option<Seq<EntryText>> {
    match args.contract_address {
        ScAddress::ScAddressTypeContract(id) => match known_token(id.0@) {
            Some(token) => token_entries(
                args.function_name.text(),
                args.args@,
                token,
                args.contract_address,
            ),
            None => None,
        },
        _ => None,
    }
}

fn extract_i128(scval: &ScVal) -> (r: Option<i128>)
    ensures
        match r {
            Some(v) => amount_of(*scval) == Some(v as int),
            None => amount_of(*scval) is None,
        },
{
    match scval {
        ScVal::I128(parts) => Some(
            (parts.hi as i128) * 0x1_0000_0000_0000_0000 + (parts.lo as i128),
        ),
        _ => None,
    }
}

fn extract_address(scval: &ScVal) -> (r: Option<String>)
    ensures
        match r {
            Some(s) => address_of(*scval) == Some(s@),
            None => address_of(*scval) is None,
        },
{
    match scval {
        ScVal::Address(a) => Some(a.to_string()),
        _ => None,
    }
}

fn extract_u32(scval: &ScVal) -> (r: Option<u32>)
    ensures
        match r {
            Some(v) => scval matches ScVal::U32(x) && x == v,
            None => !(scval is U32),
        },
{
    match scval {
        ScVal::U32(value) => Some(*value),
        _ => None,
    }
}

/// The field of a token operation: the amount in the token's units, with
/// the token's symbol and contract.
fn create_token_operation_entry(
    operation: &str,
    amount: i128,
    token_info: &TokenInfo,
    contract_address: &ScAddress,
) -> (e: DataEntry)
    ensures
        e@ == (operation@, token_amount_with_symbol(amount as int, *token_info, *contract_address)),
{
    let mut content = format_token_amount(amount, token_info.decimals);
    push_char(&mut content, ' ');
    content.append(token_info.symbol);
    push_char(&mut content, '@');
    content.append(contract_address.to_string().as_str());
    DataEntry::new(operation, content)
}

/// Builds the fields of a token operation one by one, and gives up on the
/// first argument that is not of the kind asked for.
struct TokenOperationBuilder<'a> {
    entries: Vec<DataEntry>,
    args: &'a [ScVal<'a>],
}

impl<'a> TokenOperationBuilder<'a> {
    fn new(args: &'a [ScVal<'a>]) -> (b: Self)
        ensures
            b.args@ == args@,
            entries_text(b.entries@) == Seq::<EntryText>::empty(),
    {
        let entries: Vec<DataEntry> = Vec::new();
        proof {
            assert(entries_text(entries@) =~= Seq::<EntryText>::empty());
        }
        Self { entries, args }
    }

    fn add_operation(
        self,
        operation: &str,
        amount_index: usize,
        token_info: &TokenInfo,
        contract_address: &ScAddress,
    ) -> (r: Option<Self>)
        requires
            amount_index < self.args@.len(),
        ensures
            match r {
                Some(b) => b.args@ == self.args@ && amount_of(self.args@[amount_index as int])
                    is Some && entries_text(b.entries@) == entries_text(self.entries@).push(
                    (
                        operation@,
                        token_amount_with_symbol(
                            amount_of(self.args@[amount_index as int])->0,
                            *token_info,
                            *contract_address,
                        ),
                    ),
                ),
                None => amount_of(self.args@[amount_index as int]) is None,
            },
    {
        let mut builder = self;
        let amount = extract_i128(&builder.args[amount_index])?;
        let ghost before = entries_text(builder.entries@);
        let entry = create_token_operation_entry(
            operation,
            amount,
            token_info,
            contract_address,
        );
        builder.entries.push(entry);
        proof {
            assert(entries_text(builder.entries@) =~= before.push(entry@));
        }
        Some(builder)
    }

    fn add_address(self, label: &str, index: usize) -> (r: Option<Self>)
        requires
            index < self.args@.len(),
        ensures
            match r {
                Some(b) => b.args@ == self.args@ && address_of(self.args@[index as int]) is Some
                    && entries_text(b.entries@) == entries_text(self.entries@).push(
                    (label@, address_of(self.args@[index as int])->0),
                ),
                None => address_of(self.args@[index as int]) is None,
            },
    {
        let mut builder = self;
        let address = extract_address(&builder.args[index])?;
        push_entry(&mut builder.entries, label, address);
        Some(builder)
    }

    fn add_u32(self, label: &str, index: usize) -> (r: Option<Self>)
        requires
            index < self.args@.len(),
        ensures
            match r {
                Some(b) => b.args@ == self.args@ && number_of(self.args@[index as int]) is Some
                    && entries_text(b.entries@) == entries_text(self.entries@).push(
                    (label@, number_of(self.args@[index as int])->0),
                ),
                None => number_of(self.args@[index as int]) is None,
            },
    {
        let mut builder = self;
        let value = extract_u32(&builder.args[index])?;
        let num = format_number_with_commas(u128_text(value as u128).as_str());
        push_entry(&mut builder.entries, label, num);
        Some(builder)
    }

    fn build(self) -> (entries: Vec<DataEntry>)
        ensures
            entries == self.entries,
    {
        self.entries
    }
}

/// What a formatter of a token call reports: the fields as texts, if any.
pub open spec fn shown_if_any(r: Option<Vec<DataEntry>>) -> Option<Seq<EntryText>> {
    match r {
        Some(entries) => Some(entries_text(entries@)),
        None => None,
    }
}

/// Shows `transfer(from, to, amount)`.
fn format_token_transfer(
    args: &InvokeContractArgs,
    token_info: &TokenInfo,
) -> (r: Option<Vec<DataEntry>>)
    ensures
        shown_if_any(r) == token_entries(
            "transfer"@,
            args.args@,
            *token_info,
            args.contract_address,
        ),
{
    proof {
        distinct_names();
    }
    if args.args.len() != 3 {
        return None;
    }
    let builder = TokenOperationBuilder::new(args.args.as_slice());
    let builder = builder.add_operation("Transfer", 2, token_info, &args.contract_address)?;
    let builder = builder.add_address("From", 0)?;
    let builder = builder.add_address("To", 1)?;
    let entries = builder.build();
    proof {
        assert(entries_text(entries@) =~= token_entries(
            "transfer"@,
            args.args@,
            *token_info,
            args.contract_address,
        )->0);
    }
    Some(entries)
}

/// Shows `approve(from, spender, amount, expiration_ledger)`.
fn format_token_approve(
    args: &InvokeContractArgs,
    token_info: &TokenInfo,
) -> (r: Option<Vec<DataEntry>>)
    ensures
        shown_if_any(r) == token_entries(
            "approve"@,
            args.args@,
            *token_info,
            args.contract_address,
        ),
{
    if args.args.len() != 4 {
        return None;
    }
    let builder = TokenOperationBuilder::new(args.args.as_slice());
    let builder = builder.add_operation("Approve", 2, token_info, &args.contract_address)?;
    let builder = builder.add_address("From", 0)?;
    let builder = builder.add_address("Spender", 1)?;
    let builder = builder.add_u32("Exp Ledger", 3)?;
    let entries = builder.build();
    proof {
        assert(entries_text(entries@) =~= token_entries(
            "approve"@,
            args.args@,
            *token_info,
            args.contract_address,
        )->0);
    }
    Some(entries)
}

/// Shows `transfer_from(spender, from, to, amount)`.
fn format_token_transfer_from(
    args: &InvokeContractArgs,
    token_info: &TokenInfo,
) -> (r: Option<Vec<DataEntry>>)
    ensures
        shown_if_any(r) == token_entries(
            "transfer_from"@,
            args.args@,
            *token_info,
            args.contract_address,
        ),
{
    proof {
        distinct_names();
    }
    if args.args.len() != 4 {
        return None;
    }
    let builder = TokenOperationBuilder::new(args.args.as_slice());
    let builder = builder.add_operation("Transfer", 3, token_info, &args.contract_address)?;
    let builder = builder.add_address("From", 1)?;
    let builder = builder.add_address("To", 2)?;
    let builder = builder.add_address("Spender", 0)?;
    let entries = builder.build();
    proof {
        assert(entries_text(entries@) =~= token_entries(
            "transfer_from"@,
            args.args@,
            *token_info,
            args.contract_address,
        )->0);
    }
    Some(entries)
}

/// Shows `burn(from, amount)`.
fn format_token_burn(
    args: &InvokeContractArgs,
    token_info: &TokenInfo,
) -> (r: Option<Vec<DataEntry>>)
    ensures
        shown_if_any(r) == token_entries("burn"@, args.args@, *token_info, args.contract_address),
{
    proof {
        distinct_names();
    }
    if args.args.len() != 2 {
        return None;
    }
    let builder = TokenOperationBuilder::new(args.args.as_slice());
    let builder = builder.add_operation("Burn", 1, token_info, &args.contract_address)?;
    let builder = builder.add_address("From", 0)?;
    let entries = builder.build();
    proof {
        assert(entries_text(entries@) =~= token_entries(
            "burn"@,
            args.args@,
            *token_info,
            args.contract_address,
        )->0);
    }
    Some(entries)
}

/// Shows `burn_from(spender, from, amount)`.
fn format_token_burn_from(
    args: &InvokeContractArgs,
    token_info: &TokenInfo,
) -> (r: Option<Vec<DataEntry>>)
    ensures
        shown_if_any(r) == token_entries(
            "burn_from"@,
            args.args@,
            *token_info,
            args.contract_address,
        ),
{
    proof {
        distinct_names();
    }
    if args.args.len() != 3 {
        return None;
    }
    let builder = TokenOperationBuilder::new(args.args.as_slice());
    let builder = builder.add_operation("Burn", 2, token_info, &args.contract_address)?;
    let builder = builder.add_address("From", 1)?;
    let builder = builder.add_address("Spender", 0)?;
    let entries = builder.build();
    proof {
        assert(entries_text(entries@) =~= token_entries(
            "burn_from"@,
            args.args@,
            *token_info,
            args.contract_address,
        )->0);
    }
    Some(entries)
}

/// The names of the token functions differ from one another.
proof fn distinct_names()
    ensures
        "approve"@ != "transfer"@,
        "approve"@ != "transfer_from"@,
        "approve"@ != "burn"@,
        "approve"@ != "burn_from"@,
        "transfer"@ != "transfer_from"@,
        "transfer"@ != "burn"@,
        "transfer"@ != "burn_from"@,
        "transfer_from"@ != "burn"@,
        "transfer_from"@ != "burn_from"@,
        "burn"@ != "burn_from"@,
{
    reveal_strlit("approve");
    reveal_strlit("transfer");
    reveal_strlit("transfer_from");
    reveal_strlit("burn");
    reveal_strlit("burn_from");
    assert("approve"@.len() == 7 && "approve"@[0] == 'a');
    assert("transfer"@.len() == 8 && "transfer"@[0] == 't');
    assert("transfer_from"@.len() == 13 && "transfer_from"@[0] == 't');
    assert("burn"@.len() == 4 && "burn"@[0] == 'b');
    assert("burn_from"@.len() == 9 && "burn_from"@[0] == 'b');
}

/// Shows a call as a call of a known token contract, where it is one:
/// the contract is a known token's, and the function is one of the token
/// functions with the arguments that it takes.
pub fn try_format_token_contract_call(args: &InvokeContractArgs) -> (r: Option<Vec<DataEntry>>)
    ensures
        shown_if_any(r) == token_call_entries(*args),
{
    let token_info = match &args.contract_address {
        ScAddress::ScAddressTypeContract(contract_id) => get_token_info(contract_id.0)?,
        _ => {
            return None;
        },
    };
    let name = args.function_name.to_string();
    if texts_equal(name.as_str(), "approve") {
        format_token_approve(args, &token_info)
    } else if texts_equal(name.as_str(), "transfer") {
        format_token_transfer(args, &token_info)
    } else if texts_equal(name.as_str(), "transfer_from") {
        format_token_transfer_from(args, &token_info)
    } else if texts_equal(name.as_str(), "burn") {
        format_token_burn(args, &token_info)
    } else if texts_equal(name.as_str(), "burn_from") {
        format_token_burn_from(args, &token_info)
    } else {
        None
    }
}

} // verus!

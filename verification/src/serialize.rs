//! Contract values, claimants and claim predicates as JSON text, the way
//! they are shown to the user. The values are handed to serde_json, which
//! keeps the members of an object in the order of their keys.

use crate::display::{
    duration_text, format_duration, format_number_with_commas, format_unix_timestamp,
    number_with_commas, timestamp_rendering, timestamp_text,
};
use crate::json::{
    joined, json_quoted, json_text, lemma_text_less_at, map_insert, map_new, members_held,
    object_text, put_member, text_less, texts_of, value_array, value_bool, value_null,
    value_number, value_object, value_text, value_to_string,
};
use crate::parser::codec::{lemma_item_smaller, lemma_items_smaller};
use crate::parser::{ClaimPredicate, Claimant, SCError, SCErrorCode, ScMapEntry, ScVal, VecM};
use crate::text::{decimal, i128_text, u128_text};
use vstd::prelude::*;
use vstd::string::StringExecFns;

verus! {

/// An object of one member.
pub open spec fn one_member(key: Seq<char>, value: Seq<char>) -> Seq<char> {
    object_text(seq![(key, value)])
}

/// An object of two members, given in the order of their keys.
pub open spec fn two_members(
    first: (Seq<char>, Seq<char>),
    second: (Seq<char>, Seq<char>),
) -> Seq<char> {
    object_text(seq![first, second])
}

/// Makes an object of one member.
fn one_member_object(key: &str, value: serde_json::Value) -> (r: serde_json::Value)
    ensures
        json_text(r) == one_member(key@, json_text(value)),
{
    let mut map = map_new();
    map_insert(&mut map, String::from_str(key), value);
    value_object(map)
}

/// Makes an object of two members whose keys are given in their order.
fn two_member_object(
    first_key: &str,
    first: serde_json::Value,
    second_key: &str,
    second: serde_json::Value,
) -> (r: serde_json::Value)
    requires
        first_key@ != second_key@,
        text_less(first_key@, second_key@),
        !text_less(second_key@, first_key@),
    ensures
        json_text(r) == two_members(
            (first_key@, json_text(first)),
            (second_key@, json_text(second)),
        ),
{
    let mut map = map_new();
    map_insert(&mut map, String::from_str(first_key), first);
    map_insert(&mut map, String::from_str(second_key), second);
    proof {
        let one = seq![(first_key@, json_text(first))];
        assert(one.drop_first() =~= Seq::empty());
        assert(put_member(one.drop_first(), second_key@, json_text(second)) =~= seq![
            (second_key@, json_text(second)),
        ]);
        assert(members_held(map) =~= seq![
            (first_key@, json_text(first)),
            (second_key@, json_text(second)),
        ]);
    }
    value_object(map)
}

/// The name of a contract error code.
pub open spec fn error_code_name(code: SCErrorCode) -> Seq<char> {
    match code {
        SCErrorCode::ScecArithDomain => "ArithDomain"@,
        SCErrorCode::ScecIndexBounds => "IndexBounds"@,
        SCErrorCode::ScecInvalidInput => "InvalidInput"@,
        SCErrorCode::ScecMissingValue => "MissingValue"@,
        SCErrorCode::ScecExistingValue => "ExistingValue"@,
        SCErrorCode::ScecExceededLimit => "ExceededLimit"@,
        SCErrorCode::ScecInvalidAction => "InvalidAction"@,
        SCErrorCode::ScecInternalError => "InternalError"@,
        SCErrorCode::ScecUnexpectedType => "UnexpectedType"@,
        SCErrorCode::ScecUnexpectedSize => "UnexpectedSize"@,
    }
}

fn error_code_text(code: &SCErrorCode) -> (r: &'static str)
    ensures
        r@ == error_code_name(*code),
{
    match code {
        SCErrorCode::ScecArithDomain => "ArithDomain",
        SCErrorCode::ScecIndexBounds => "IndexBounds",
        SCErrorCode::ScecInvalidInput => "InvalidInput",
        SCErrorCode::ScecMissingValue => "MissingValue",
        SCErrorCode::ScecExistingValue => "ExistingValue",
        SCErrorCode::ScecExceededLimit => "ExceededLimit",
        SCErrorCode::ScecInvalidAction => "InvalidAction",
        SCErrorCode::ScecInternalError => "InternalError",
        SCErrorCode::ScecUnexpectedType => "UnexpectedType",
        SCErrorCode::ScecUnexpectedSize => "UnexpectedSize",
    }
}

/// The name of a contract error's origin.
pub open spec fn error_type_name(e: SCError) -> Seq<char> {
    match e {
        SCError::SceContract(_) => "Contract"@,
        SCError::SceWasmVm(_) => "WasmVm"@,
        SCError::SceContext(_) => "Context"@,
        SCError::SceStorage(_) => "Storage"@,
        SCError::SceObject(_) => "Object"@,
        SCError::SceCrypto(_) => "Crypto"@,
        SCError::SceEvents(_) => "Events"@,
        SCError::SceBudget(_) => "Budget"@,
        SCError::SceValue(_) => "Value"@,
        SCError::SceAuth(_) => "Auth"@,
    }
}

/// The value of a contract error as JSON: a contract's own code as a
/// number, any other code by its name.
pub open spec fn error_value_json(e: SCError) -> Seq<char> {
    match e {
        SCError::SceContract(code) => decimal(code as int),
        SCError::SceWasmVm(c) => json_quoted(error_code_name(c)),
        SCError::SceContext(c) => json_quoted(error_code_name(c)),
        SCError::SceStorage(c) => json_quoted(error_code_name(c)),
        SCError::SceObject(c) => json_quoted(error_code_name(c)),
        SCError::SceCrypto(c) => json_quoted(error_code_name(c)),
        SCError::SceEvents(c) => json_quoted(error_code_name(c)),
        SCError::SceBudget(c) => json_quoted(error_code_name(c)),
        SCError::SceValue(c) => json_quoted(error_code_name(c)),
        SCError::SceAuth(c) => json_quoted(error_code_name(c)),
    }
}

/// A contract error as JSON: an object of its origin and its value.
pub open spec fn error_json(e: SCError) -> Seq<char> {
    two_members(
        ("error_type"@, json_quoted(error_type_name(e))),
        ("error_value"@, error_value_json(e)),
    )
}

fn error_type_text(e: &SCError) -> (r: &'static str)
    ensures
        r@ == error_type_name(*e),
{
    match e {
        SCError::SceContract(_) => "Contract",
        SCError::SceWasmVm(_) => "WasmVm",
        SCError::SceContext(_) => "Context",
        SCError::SceStorage(_) => "Storage",
        SCError::SceObject(_) => "Object",
        SCError::SceCrypto(_) => "Crypto",
        SCError::SceEvents(_) => "Events",
        SCError::SceBudget(_) => "Budget",
        SCError::SceValue(_) => "Value",
        SCError::SceAuth(_) => "Auth",
    }
}

fn error_value(e: &SCError) -> (r: serde_json::Value)
    ensures
        json_text(r) == error_value_json(*e),
{
    match e {
        SCError::SceContract(code) => value_number(*code),
        SCError::SceWasmVm(c) => value_text(String::from_str(error_code_text(c))),
        SCError::SceContext(c) => value_text(String::from_str(error_code_text(c))),
        SCError::SceStorage(c) => value_text(String::from_str(error_code_text(c))),
        SCError::SceObject(c) => value_text(String::from_str(error_code_text(c))),
        SCError::SceCrypto(c) => value_text(String::from_str(error_code_text(c))),
        SCError::SceEvents(c) => value_text(String::from_str(error_code_text(c))),
        SCError::SceBudget(c) => value_text(String::from_str(error_code_text(c))),
        SCError::SceValue(c) => value_text(String::from_str(error_code_text(c))),
        SCError::SceAuth(c) => value_text(String::from_str(error_code_text(c))),
    }
}

/// A contract error as a JSON value.
fn error_value_object(e: &SCError) -> (r: serde_json::Value)
    ensures
        json_text(r) == error_json(*e),
{
    proof {
        reveal_strlit("error_type");
        reveal_strlit("error_value");
        lemma_text_less_at("error_type"@, "error_value"@, 6);
        lemma_text_less_at("error_value"@, "error_type"@, 6);
    }
    two_member_object(
        "error_type",
        value_text(String::from_str(error_type_text(e))),
        "error_value",
        error_value(e),
    )
}

/// Writes a contract error as JSON.
pub fn error_to_json(e: &SCError) -> (r: String)
    ensures
        r@ == error_json(*e),
{
    value_to_string(&error_value_object(e))
}

/// The text that stands for a contract value where it is a text, a number,
/// a time or an address: what is shown of it without JSON around it.
pub open spec fn scval_plain_text(val: ScVal) -> Option<Seq<char>> {
    match val {
        ScVal::U32(v) => Some(number_with_commas(decimal(v as int))),
        ScVal::I32(v) => Some(number_with_commas(decimal(v as int))),
        ScVal::U64(v) => Some(number_with_commas(decimal(v as int))),
        ScVal::I64(v) => Some(number_with_commas(decimal(v as int))),
        ScVal::Timepoint(v) => Some(timestamp_text(v, timestamp_rendering(v))),
        ScVal::Duration(v) => Some(duration_text(v as nat)),
        ScVal::U128(v) => Some(number_with_commas(decimal(v.value()))),
        ScVal::I128(v) => Some(number_with_commas(decimal(v.value()))),
        ScVal::U256(v) => Some(number_with_commas(decimal(v.value()))),
        ScVal::I256(v) => Some(number_with_commas(decimal(v.value()))),
        ScVal::Bytes(b) => Some(b.text()),
        ScVal::String(s) => Some(s.text()),
        ScVal::Symbol(s) => Some(s.text()),
        ScVal::Address(a) => Some(a.text()),
        ScVal::ContractInstance(_) => Some("[ContractInstance]"@),
        ScVal::LedgerKeyContractInstance => Some("[LedgerKeyContractInstance]"@),
        ScVal::LedgerKeyNonce(_) => Some("[LedgerKeyNonce]"@),
        _ => None,
    }
}

/// Writes the plain text of a contract value that has one.
pub fn scval_plain(val: &ScVal) -> (r: Option<String>)
    ensures
        match r {
            Some(s) => scval_plain_text(*val) == Some(s@),
            None => scval_plain_text(*val) is None,
        },
{
    match val {
        ScVal::U32(v) => Some(format_number_with_commas(u128_text(*v as u128).as_str())),
        ScVal::I32(v) => Some(format_number_with_commas(i128_text(*v as i128).as_str())),
        ScVal::U64(v) => Some(format_number_with_commas(u128_text(*v as u128).as_str())),
        ScVal::I64(v) => Some(format_number_with_commas(i128_text(*v as i128).as_str())),
        ScVal::Timepoint(v) => Some(format_unix_timestamp(*v)),
        ScVal::Duration(v) => Some(format_duration(*v)),
        ScVal::U128(v) => Some(format_number_with_commas(v.to_string().as_str())),
        ScVal::I128(v) => Some(format_number_with_commas(v.to_string().as_str())),
        ScVal::U256(v) => Some(format_number_with_commas(v.to_string().as_str())),
        ScVal::I256(v) => Some(format_number_with_commas(v.to_string().as_str())),
        ScVal::Bytes(b) => Some(b.to_string()),
        ScVal::String(s) => Some(s.to_string()),
        ScVal::Symbol(s) => Some(s.to_string()),
        ScVal::Address(a) => Some(a.to_string()),
        ScVal::ContractInstance(_) => Some(String::from_str("[ContractInstance]")),
        ScVal::LedgerKeyContractInstance => Some(String::from_str("[LedgerKeyContractInstance]")),
        ScVal::LedgerKeyNonce(_) => Some(String::from_str("[LedgerKeyNonce]")),
        _ => None,
    }
}

/// The first `n` items of a list of contract values as JSON, with commas
/// between them.
pub open spec fn items_json(items: Seq<ScVal>, n: nat) -> Seq<char>
    decreases items, n,
{
    if n == 0 || n > items.len() {
        Seq::empty()
    } else {
        let sep: Seq<char> = if n > 1 {
            seq![',']
        } else {
            Seq::empty()
        };
        items_json(items, (n - 1) as nat) + sep + scval_json(items[n - 1])
    }
}

/// The members that the first `n` entries of a contract map make: each
/// entry's key as the text that stands for it, its value as JSON.
pub open spec fn map_members(entries: Seq<ScMapEntry>, n: nat) -> Seq<(Seq<char>, Seq<char>)>
    decreases entries, n,
{
    if n == 0 || n > entries.len() {
        Seq::empty()
    } else {
        put_member(
            map_members(entries, (n - 1) as nat),
            scval_key_text(entries[n - 1].key),
            scval_json(entries[n - 1].val),
        )
    }
}

/// A contract value as JSON. Numbers, times, texts and addresses are JSON
/// strings; a list is an array; a map is an object whose keys are the texts
/// that stand for the entries' keys. The members of an object stand in the
/// order of their keys, and of entries with one key the last one stays.
pub open spec fn scval_json(val: ScVal) -> Seq<char>
    decreases val, 0nat,
{
    match val {
        ScVal::Bool(b) => if b {
            "true"@
        } else {
            "false"@
        },
        ScVal::Void => "null"@,
        ScVal::Error(e) => error_json(e),
        ScVal::Vec(None) => "null"@,
        ScVal::Vec(Some(items)) => {
            proof {
                lemma_items_smaller(items);
            }
            seq!['['] + items_json(items@, items@.len()) + seq![']']
        },
        ScVal::ScMap(None) => "null"@,
        ScVal::ScMap(Some(entries)) => {
            proof {
                lemma_items_smaller(entries);
            }
            object_text(map_members(entries@, entries@.len()))
        },
        _ => json_quoted(scval_plain_text(val).unwrap()),
    }
}

/// The text that stands for a contract value on its own, as an argument or
/// as the key of a map: the plain text where the value has one, `true` or
/// `false`, `[void]` for nothing, else the value's JSON.
pub open spec fn scval_key_text(val: ScVal) -> Seq<char>
    decreases val, 1nat,
{
    match val {
        ScVal::Bool(b) => if b {
            "true"@
        } else {
            "false"@
        },
        ScVal::Void => "[void]"@,
        ScVal::Vec(None) => "[void]"@,
        ScVal::ScMap(None) => "[void]"@,
        ScVal::Error(_) => scval_json(val),
        ScVal::Vec(Some(_)) => scval_json(val),
        ScVal::ScMap(Some(_)) => scval_json(val),
        _ => scval_plain_text(val).unwrap(),
    }
}

/// The texts of the first items are those of the items joined.
proof fn lemma_items_joined(items: Seq<ScVal>, texts: Seq<Seq<char>>, n: nat)
    requires
        n <= items.len(),
        texts.len() == items.len(),
        forall|j: int| 0 <= j < n ==> texts[j] == scval_json(items[j]),
    ensures
        joined(texts, n) == items_json(items, n),
    decreases n,
{
    if n > 0 {
        lemma_items_joined(items, texts, (n - 1) as nat);
    }
}

/// A contract value as a JSON value.
#[verifier::loop_isolation(false)]
fn scval_value(val: &ScVal) -> (r: serde_json::Value)
    ensures
        json_text(r) == scval_json(*val),
    decreases val, 0nat,
{
    match val {
        ScVal::Bool(b) => value_bool(*b),
        ScVal::Void => value_null(),
        ScVal::Error(e) => error_value_object(e),
        ScVal::Vec(None) => value_null(),
        ScVal::Vec(Some(items)) => {
            let mut values: Vec<serde_json::Value> = Vec::new();
            let n = items.len();
            let mut i: usize = 0;
            while i < n
                invariant
                    i <= n,
                    n == items@.len(),
                    values@.len() == i,
                    forall|j: int|
                        0 <= j < i ==> json_text(#[trigger] values@[j]) == scval_json(items@[j]),
                decreases n - i,
            {
                proof {
                    lemma_item_smaller(*items, i as int);
                }
                let item = scval_value(items.get(i));
                values.push(item);
                i += 1;
            }
            proof {
                lemma_items_joined(items@, texts_of(values@), n as nat);
            }
            value_array(values)
        },
        ScVal::ScMap(None) => value_null(),
        ScVal::ScMap(Some(entries)) => {
            let mut map = map_new();
            let n = entries.len();
            let mut i: usize = 0;
            while i < n
                invariant
                    i <= n,
                    n == entries@.len(),
                    members_held(map) == map_members(entries@, i as nat),
                decreases n - i,
            {
                proof {
                    lemma_item_smaller(*entries, i as int);
                }
                let entry = entries.get(i);
                let key = scval_to_key_string(&entry.key);
                let value = scval_value(&entry.val);
                map_insert(&mut map, key, value);
                i += 1;
            }
            value_object(map)
        },
        _ => {
            match scval_plain(val) {
                Some(s) => value_text(s),
                None => value_null(),
            }
        },
    }
}

/// Writes a contract value as JSON.
pub fn scval_to_json(val: &ScVal) -> (r: String)
    ensures
        r@ == scval_json(*val),
{
    value_to_string(&scval_value(val))
}

/// Writes the text that stands for a contract value on its own.
pub fn scval_to_key_string(val: &ScVal) -> (r: String)
    ensures
        r@ == scval_key_text(*val),
    decreases val, 1nat,
{
    match val {
        ScVal::Bool(b) => if *b {
            String::from_str("true")
        } else {
            String::from_str("false")
        },
        ScVal::Void => String::from_str("[void]"),
        ScVal::Vec(None) => String::from_str("[void]"),
        ScVal::ScMap(None) => String::from_str("[void]"),
        ScVal::Error(_) => value_to_string(&scval_value(val)),
        ScVal::Vec(Some(_)) => value_to_string(&scval_value(val)),
        ScVal::ScMap(Some(_)) => value_to_string(&scval_value(val)),
        _ => {
            match scval_plain(val) {
                Some(s) => s,
                None => String::new(),
            }
        },
    }
}

/// The first `n` of a list of claim predicates as JSON, with commas between
/// them.
pub open spec fn predicates_json(items: Seq<ClaimPredicate>, n: nat) -> Seq<char>
    decreases items, n,
{
    if n == 0 || n > items.len() {
        Seq::empty()
    } else {
        let sep: Seq<char> = if n > 1 {
            seq![',']
        } else {
            Seq::empty()
        };
        predicates_json(items, (n - 1) as nat) + sep + predicate_json(items[n - 1])
    }
}

/// A claim predicate as JSON: the word `unconditional`, or an object of one
/// member named after the predicate's kind. Times are written as strings.
pub open spec fn predicate_json(p: ClaimPredicate) -> Seq<char>
    decreases p, 0nat,
{
    match p {
        ClaimPredicate::Unconditional => json_quoted("unconditional"@),
        ClaimPredicate::And(items) => {
            proof {
                lemma_items_smaller(items);
            }
            one_member(
                "and"@,
                seq!['['] + predicates_json(items@, items@.len()) + seq![']'],
            )
        },
        ClaimPredicate::Or(items) => {
            proof {
                lemma_items_smaller(items);
            }
            one_member("or"@, seq!['['] + predicates_json(items@, items@.len()) + seq![']'])
        },
        ClaimPredicate::Not(inner) => one_member("not"@, predicate_json(*inner)),
        ClaimPredicate::BeforeAbsoluteTime(t) => one_member(
            "before_absolute_time"@,
            json_quoted(decimal(t as int)),
        ),
        ClaimPredicate::BeforeRelativeTime(t) => one_member(
            "before_relative_time"@,
            json_quoted(decimal(t as int)),
        ),
    }
}

/// A claimant as JSON: an object of its destination and its predicate.
pub open spec fn claimant_json(c: Claimant) -> Seq<char> {
    match c {
        Claimant::V0(v) => two_members(
            ("destination"@, json_quoted(v.destination.text())),
            ("predicate"@, predicate_json(v.predicate)),
        ),
    }
}

/// The texts of the first predicates are those of the predicates joined.
proof fn lemma_predicates_joined(items: Seq<ClaimPredicate>, texts: Seq<Seq<char>>, n: nat)
    requires
        n <= items.len(),
        texts.len() == items.len(),
        forall|j: int| 0 <= j < n ==> texts[j] == predicate_json(items[j]),
    ensures
        joined(texts, n) == predicates_json(items, n),
    decreases n,
{
    if n > 0 {
        lemma_predicates_joined(items, texts, (n - 1) as nat);
    }
}

/// A list of claim predicates as a JSON array.
#[verifier::loop_isolation(false)]
fn predicate_list_value(
    items: &VecM<ClaimPredicate, 2>,
    whole: &ClaimPredicate,
) -> (r: serde_json::Value)
    requires
        decreases_to!(*whole => *items),
    ensures
        json_text(r) == seq!['['] + predicates_json(items@, items@.len()) + seq![']'],
    decreases *whole, 0nat,
{
    let mut values: Vec<serde_json::Value> = Vec::new();
    let n = items.len();
    let mut i: usize = 0;
    while i < n
        invariant
            i <= n,
            n == items@.len(),
            values@.len() == i,
            forall|j: int|
                0 <= j < i ==> json_text(#[trigger] values@[j]) == predicate_json(items@[j]),
        decreases n - i,
    {
        proof {
            lemma_item_smaller(*items, i as int);
        }
        let item = predicate_value(items.get(i));
        values.push(item);
        i += 1;
    }
    proof {
        lemma_predicates_joined(items@, texts_of(values@), n as nat);
    }
    value_array(values)
}

/// A claim predicate as a JSON value.
fn predicate_value(p: &ClaimPredicate) -> (r: serde_json::Value)
    ensures
        json_text(r) == predicate_json(*p),
    decreases *p, 1nat,
{
    match p {
        ClaimPredicate::Unconditional => value_text(String::from_str("unconditional")),
        ClaimPredicate::And(items) => one_member_object("and", predicate_list_value(items, p)),
        ClaimPredicate::Or(items) => one_member_object("or", predicate_list_value(items, p)),
        ClaimPredicate::Not(inner) => one_member_object("not", predicate_value(inner)),
        ClaimPredicate::BeforeAbsoluteTime(t) => one_member_object(
            "before_absolute_time",
            value_text(i128_text(*t as i128)),
        ),
        ClaimPredicate::BeforeRelativeTime(t) => one_member_object(
            "before_relative_time",
            value_text(i128_text(*t as i128)),
        ),
    }
}

/// Writes a claim predicate as JSON.
pub fn predicate_to_json(p: &ClaimPredicate) -> (r: String)
    ensures
        r@ == predicate_json(*p),
{
    value_to_string(&predicate_value(p))
}

/// Writes a claimant as JSON.
pub fn claimant_to_json(c: &Claimant) -> (r: String)
    ensures
        r@ == claimant_json(*c),
{
    match c {
        Claimant::V0(v) => {
            proof {
                reveal_strlit("destination");
                reveal_strlit("predicate");
                lemma_text_less_at("destination"@, "predicate"@, 0);
                lemma_text_less_at("predicate"@, "destination"@, 0);
            }
            let object = two_member_object(
                "destination",
                value_text(v.destination.to_string()),
                "predicate",
                predicate_value(&v.predicate),
            );
            value_to_string(&object)
        },
    }
}

} // verus!

//! The commands of the application: how a command's header is read, what
//! is answered to a request for the configuration, and which outcome is
//! shown on the screen.

use crate::bip32::Bip32Path;
use crate::display::{escape_text, escaped};
use crate::sw::AppSW;
use vstd::prelude::*;
use vstd::string::{StrSliceExecFns, StringSliceAdditionalSpecFns};

verus! {

pub const INS_GET_PK: u8 = 0x02;

pub const INS_SIGN_TX: u8 = 0x04;

pub const INS_GET_CONF: u8 = 0x06;

pub const INS_SIGN_HASH: u8 = 0x08;

pub const INS_SIGN_SOROBAN_AUTH: u8 = 0x0A;

pub const INS_SIGN_MESSAGE: u8 = 0x0C;

/// The first parameter of the first chunk of a request.
pub const P1_FIRST_APDU: u8 = 0x00;

/// The first parameter of any later chunk.
pub const P1_MORE_APDU: u8 = 0x80;

/// The second parameter of the last chunk of a request.
pub const P2_LAST_APDU: u8 = 0x00;

/// The second parameter of any earlier chunk.
pub const P2_MORE_APDU: u8 = 0x80;

/// The second parameter of a request that is not confirmed by the user.
pub const P2_NON_CONFIRM: u8 = 0x00;

/// The second parameter of a request that the user confirms.
pub const P2_CONFIRM: u8 = 0x01;

/// A command.
#[derive(Debug, Clone, Copy, PartialEq, Eq)]
pub enum Instruction {
    GetPubkey { display: bool },
    SignTx { first: bool, more: bool },
    GetConfiguration,
    SignHash,
    SignSorobanAuth { first: bool, more: bool },
    SignMessage { first: bool, more: bool },
}

/// Whether an instruction code is one of the application's.
pub open spec fn known_instruction(ins: u8) -> bool {
    ins == INS_GET_PK || ins == INS_SIGN_TX || ins == INS_GET_CONF || ins == INS_SIGN_HASH || ins
        == INS_SIGN_SOROBAN_AUTH || ins == INS_SIGN_MESSAGE
}

/// Whether the two parameters are those of a chunk.
pub open spec fn chunk_parameters(p1: u8, p2: u8) -> bool {
    (p1 == P1_FIRST_APDU || p1 == P1_MORE_APDU) && (p2 == P2_LAST_APDU || p2 == P2_MORE_APDU)
}

/// The command that a header stands for: an unknown instruction code is
/// not supported, and a known one with parameters that it does not take is
/// refused for its parameters.
pub open spec fn instruction_of(ins: u8, p1: u8, p2: u8) -> Result<Instruction, AppSW> {
    if !known_instruction(ins) {
        Err(AppSW::InsNotSupported)
    } else if ins == INS_GET_PK {
        if p1 == 0 && (p2 == P2_NON_CONFIRM || p2 == P2_CONFIRM) {
            Ok(Instruction::GetPubkey { display: p2 == P2_CONFIRM })
        } else {
            Err(AppSW::WrongP1P2)
        }
    } else if ins == INS_GET_CONF {
        if p1 == 0 && p2 == 0 {
            Ok(Instruction::GetConfiguration)
        } else {
            Err(AppSW::WrongP1P2)
        }
    } else if ins == INS_SIGN_HASH {
        if p1 == 0 && p2 == 0 {
            Ok(Instruction::SignHash)
        } else {
            Err(AppSW::WrongP1P2)
        }
    } else if !chunk_parameters(p1, p2) {
        Err(AppSW::WrongP1P2)
    } else if ins == INS_SIGN_TX {
        Ok(Instruction::SignTx { first: p1 == P1_FIRST_APDU, more: p2 == P2_MORE_APDU })
    } else if ins == INS_SIGN_SOROBAN_AUTH {
        Ok(Instruction::SignSorobanAuth { first: p1 == P1_FIRST_APDU, more: p2 == P2_MORE_APDU })
    } else {
        Ok(Instruction::SignMessage { first: p1 == P1_FIRST_APDU, more: p2 == P2_MORE_APDU })
    }
}

impl Instruction {
    /// Reads a command from the instruction code and the two parameters
    /// of its header.
    pub fn try_from(ins: u8, p1: u8, p2: u8) -> (r: Result<Instruction, AppSW>)
        ensures
            r == instruction_of(ins, p1, p2),
    {
        let chunk = (p1 == P1_FIRST_APDU || p1 == P1_MORE_APDU) && (p2 == P2_LAST_APDU || p2
            == P2_MORE_APDU);
        if ins == INS_GET_PK {
            if p1 == 0 && (p2 == P2_NON_CONFIRM || p2 == P2_CONFIRM) {
                Ok(Instruction::GetPubkey { display: p2 == P2_CONFIRM })
            } else {
                Err(AppSW::WrongP1P2)
            }
        } else if ins == INS_SIGN_TX {
            if chunk {
                Ok(Instruction::SignTx { first: p1 == P1_FIRST_APDU, more: p2 == P2_MORE_APDU })
            } else {
                Err(AppSW::WrongP1P2)
            }
        } else if ins == INS_GET_CONF {
            if p1 == 0 && p2 == 0 {
                Ok(Instruction::GetConfiguration)
            } else {
                Err(AppSW::WrongP1P2)
            }
        } else if ins == INS_SIGN_HASH {
            if p1 == 0 && p2 == 0 {
                Ok(Instruction::SignHash)
            } else {
                Err(AppSW::WrongP1P2)
            }
        } else if ins == INS_SIGN_SOROBAN_AUTH {
            if chunk {
                Ok(
                    Instruction::SignSorobanAuth {
                        first: p1 == P1_FIRST_APDU,
                        more: p2 == P2_MORE_APDU,
                    },
                )
            } else {
                Err(AppSW::WrongP1P2)
            }
        } else if ins == INS_SIGN_MESSAGE {
            if chunk {
                Ok(
                    Instruction::SignMessage {
                        first: p1 == P1_FIRST_APDU,
                        more: p2 == P2_MORE_APDU,
                    },
                )
            } else {
                Err(AppSW::WrongP1P2)
            }
        } else {
            Err(AppSW::InsNotSupported)
        }
    }
}

/// What kind of outcome the screen shows.
#[derive(Debug, Clone, Copy, PartialEq, Eq)]
pub enum StatusKind {
    Address,
    Transaction,
    Message,
}

/// The outcome that is shown after a command: none unless the command was
/// approved or denied; then that of an address that was displayed, of a hash,
/// and of a transaction, an authorization or a message whose review is over.
pub open spec fn status_shown(
    ins: Instruction,
    status: AppSW,
    finished: bool,
) -> Option<StatusKind> {
    if status != AppSW::Deny && status != AppSW::Success {
        None
    } else {
        match ins {
            Instruction::GetPubkey { display } => if display {
                Some(StatusKind::Address)
            } else {
                None
            },
            Instruction::SignTx { .. } => if finished {
                Some(StatusKind::Transaction)
            } else {
                None
            },
            Instruction::SignHash => Some(StatusKind::Transaction),
            Instruction::SignSorobanAuth { .. } => if finished {
                Some(StatusKind::Transaction)
            } else {
                None
            },
            Instruction::SignMessage { .. } => if finished {
                Some(StatusKind::Message)
            } else {
                None
            },
            Instruction::GetConfiguration => None,
        }
    }
}

/// Decides which outcome is shown after a command.
pub fn status_to_show(ins: &Instruction, status: AppSW, finished: bool) -> (r: Option<StatusKind>)
    ensures
        r == status_shown(*ins, status, finished),
{
    let decided = match status {
        AppSW::Deny => true,
        AppSW::Success => true,
        _ => false,
    };
    if !decided {
        return None;
    }
    match ins {
        Instruction::GetPubkey { display } => if *display {
            Some(StatusKind::Address)
        } else {
            None
        },
        Instruction::SignTx { .. } => if finished {
            Some(StatusKind::Transaction)
        } else {
            None
        },
        Instruction::SignHash => Some(StatusKind::Transaction),
        Instruction::SignSorobanAuth { .. } => if finished {
            Some(StatusKind::Transaction)
        } else {
            None
        },
        Instruction::SignMessage { .. } => if finished {
            Some(StatusKind::Message)
        } else {
            None
        },
        Instruction::GetConfiguration => None,
    }
}

/// The number that a part of a version stands for: zero unless the part
/// is a numeral, with or without a plus sign in front, of at most 255.
pub open spec fn version_part(part: Seq<char>) -> int {
    let body = if part.len() > 0 && part[0] == '+' {
        part.drop_first()
    } else {
        part
    };
    if body.len() > 0 && numeral_value(body) is Some && numeral_value(body)->0 <= 255 {
        numeral_value(body)->0
    } else {
        0
    }
}

/// The value of a run of decimal digits, if it is one.
pub open spec fn numeral_value(s: Seq<char>) -> Option<int>
    decreases s.len(),
{
    if s.len() == 0 {
        Some(0)
    } else if '0' <= s.last() <= '9' {
        match numeral_value(s.drop_last()) {
            Some(v) => Some(v * 10 + (s.last() as int - 48)),
            None => None,
        }
    } else {
        None
    }
}

/// A numeral is worth at least what its beginning is worth.
proof fn lemma_numeral_grows(s: Seq<char>, i: int)
    requires
        0 <= i <= s.len(),
        numeral_value(s) is Some,
    ensures
        numeral_value(s.subrange(0, i)) is Some,
        numeral_value(s.subrange(0, i))->0 <= numeral_value(s)->0,
        numeral_value(s)->0 >= 0,
    decreases s.len() - i,
{
    if i == s.len() {
        assert(s.subrange(0, i) =~= s);
        lemma_numeral_nonnegative(s);
    } else {
        lemma_numeral_grows(s, i + 1);
        assert(s.subrange(0, i + 1).drop_last() =~= s.subrange(0, i));
        lemma_numeral_nonnegative(s.subrange(0, i));
    }
}

proof fn lemma_numeral_nonnegative(s: Seq<char>)
    requires
        numeral_value(s) is Some,
    ensures
        numeral_value(s)->0 >= 0,
    decreases s.len(),
{
    if s.len() > 0 {
        lemma_numeral_nonnegative(s.drop_last());
    }
}

/// A text that holds something other than digits is no numeral.
proof fn lemma_not_numeral(s: Seq<char>, i: int)
    requires
        0 <= i < s.len(),
        !('0' <= s[i] <= '9'),
    ensures
        numeral_value(s) is None,
    decreases s.len(),
{
    if i < s.len() - 1 {
        lemma_not_numeral(s.drop_last(), i);
    }
}

#[verifier::loop_isolation(false)]
fn parse_part(part: &str) -> (v: u8)
    ensures
        v == version_part(part@),
{
    let n = part.unicode_len();
    let start: usize = if n > 0 && part.get_char(0) == '+' {
        1
    } else {
        0
    };
    let body = part.substring_char(start, n);
    proof {
        if start == 1 {
            assert(body@ =~= part@.drop_first());
        } else {
            assert(body@ =~= part@);
        }
    }
    let len = body.unicode_len();
    if len == 0 {
        return 0;
    }
    let mut value: u32 = 0;
    let mut i: usize = 0;
    proof {
        assert(body@.subrange(0, 0) =~= Seq::<char>::empty());
    }
    while i < len
        invariant
            i <= len,
            len == body@.len(),
            value <= 255,
            numeral_value(body@.subrange(0, i as int)) == Some(value as int),
        decreases len - i,
    {
        let c = body.get_char(i);
        if c < '0' || c > '9' {
            proof {
                lemma_not_numeral(body@, i as int);
            }
            return 0;
        }
        let digit = (c as u32) - 48;
        proof {
            assert(body@.subrange(0, i + 1).drop_last() =~= body@.subrange(0, i as int));
            assert(body@.subrange(0, i + 1).last() == c);
        }
        value = value * 10 + digit;
        if value > 255 {
            proof {
                if numeral_value(body@) is Some {
                    lemma_numeral_grows(body@, i + 1);
                }
            }
            return 0;
        }
        i += 1;
    }
    proof {
        assert(body@.subrange(0, len as int) =~= body@);
    }
    value as u8
}

/// The part of `s` from `from` up to the next dot, or to the end.
pub open spec fn part_end(s: Seq<char>, from: int) -> int
    decreases s.len() - from,
{
    if from < 0 || from >= s.len() {
        s.len() as int
    } else if s[from] == '.' {
        from
    } else {
        part_end(s, from + 1)
    }
}

/// The three numbers of a version: of each of its first three parts
/// between dots the number that the part stands for, and zero for a part that
/// is not there.
pub open spec fn version_numbers(version: Seq<char>) -> (int, int, int) {
    let e1 = part_end(version, 0);
    let e2 = part_end(version, e1 + 1);
    let e3 = part_end(version, e2 + 1);
    (
        version_part(version.subrange(0, e1)),
        if e1 < version.len() {
            version_part(version.subrange(e1 + 1, e2))
        } else {
            0
        },
        if e1 < version.len() && e2 < version.len() {
            version_part(version.subrange(e2 + 1, e3))
        } else {
            0
        },
    )
}

fn find_part_end(s: &str, from: usize) -> (e: usize)
    requires
        from <= s@.len(),
    ensures
        e == part_end(s@, from as int),
        from <= e <= s@.len(),
{
    let n = s.unicode_len();
    let mut i = from;
    while i < n && s.get_char(i) != '.'
        invariant
            from <= i <= n,
            n == s@.len(),
            part_end(s@, from as int) == part_end(s@, i as int),
        decreases n - i,
    {
        i += 1;
    }
    i
}

/// Reads the three numbers of a version such as `1.2.3`.
pub fn parse_version(version: &str) -> (r: (u8, u8, u8))
    ensures
        (r.0 as int, r.1 as int, r.2 as int) == version_numbers(version@),
{
    let n = version.unicode_len();
    let e1 = find_part_end(version, 0);
    let major = parse_part(version.substring_char(0, e1));
    if e1 >= n {
        return (major, 0, 0);
    }
    let e2 = find_part_end(version, e1 + 1);
    let minor = parse_part(version.substring_char(e1 + 1, e2));
    if e2 >= n {
        return (major, minor, 0);
    }
    let e3 = find_part_end(version, e2 + 1);
    let patch = parse_part(version.substring_char(e2 + 1, e3));
    (major, minor, patch)
}

/// The answer to a request for the configuration: whether blind signing is
/// enabled, the three numbers of the version, and the high and the low byte
/// of the number of bytes that a request may have.
pub fn configuration_bytes(
    blind_signing_enabled: bool,
    version: (u8, u8, u8),
    max_len: usize,
) -> (r: [u8; 6])
    ensures
        r@ == seq![
            if blind_signing_enabled {
                1u8
            } else {
                0u8
            },
            version.0,
            version.1,
            version.2,
            ((max_len / 256) % 256) as u8,
            (max_len % 256) as u8,
        ],
{
    let flag: u8 = if blind_signing_enabled {
        1
    } else {
        0
    };
    let r: [u8; 6] = [
        flag,
        version.0,
        version.1,
        version.2,
        ((max_len / 256) % 256) as u8,
        (max_len % 256) as u8,
    ];
    proof {
        assert(r@ =~= seq![
            flag,
            version.0,
            version.1,
            version.2,
            ((max_len / 256) % 256) as u8,
            (max_len % 256) as u8,
        ]);
    }
    r
}

/// What a signed message is hashed with in front.
pub open spec fn message_prefix() -> Seq<u8> {
    "Stellar Signed Message:\n".spec_bytes()
}

/// The bytes that are hashed for a message: the prefix, then the message.
pub fn prefixed_message(message: &[u8]) -> (r: Vec<u8>)
    ensures
        r@ == message_prefix() + message@,
{
    let prefix = "Stellar Signed Message:\n".as_bytes();
    let mut r: Vec<u8> = Vec::new();
    let mut i: usize = 0;
    while i < prefix.len()
        invariant
            i <= prefix@.len(),
            r@ == prefix@.subrange(0, i as int),
        decreases prefix@.len() - i,
    {
        r.push(prefix[i]);
        proof {
            assert(r@ =~= prefix@.subrange(0, i + 1));
        }
        i += 1;
    }
    proof {
        assert(prefix@.subrange(0, prefix@.len() as int) =~= prefix@);
    }
    let mut j: usize = 0;
    while j < message.len()
        invariant
            j <= message@.len(),
            r@ == prefix@ + message@.subrange(0, j as int),
        decreases message@.len() - j,
    {
        r.push(message[j]);
        proof {
            assert(r@ =~= prefix@ + message@.subrange(0, j + 1));
        }
        j += 1;
    }
    proof {
        assert(message@.subrange(0, message@.len() as int) =~= message@);
    }
    r
}

/// The text of a message as it is shown for review.
pub fn message_text(message: &[u8]) -> (r: String)
    ensures
        r@ == escaped(message@),
{
    escape_text(message)
}

/// How many bytes a hash to sign has.
pub const HASH_SIZE: usize = 32;

/// Reads a request to sign a hash: the path with its length in front,
/// then the 32 bytes of the hash. A hash is only signed where blind signing
/// is enabled.
pub fn sign_hash_request<'a>(
    data: &'a [u8],
    blind_signing_enabled: bool,
) -> (r: Result<(Bip32Path, &'a [u8]), AppSW>)
    ensures
        match r {
            Ok((path, hash)) => data@.len() == 45 && data@[0] == 3 && blind_signing_enabled
                && path.0@ == Bip32Path::segments_of(data@.subrange(1, 45)) && hash@
                == data@.subrange(13, 45),
            Err(e) => if data@.len() != 45 || data@[0] != 3 {
                e == AppSW::WrongApduLength
            } else {
                e == AppSW::BlindSigningModeNotEnabled && !blind_signing_enabled
            },
        },
{
    let path = Bip32Path::try_from(data)?;
    let hash = vstd::slice::slice_subrange(data, path.serialized_size(), data.len());
    if hash.len() != HASH_SIZE {
        return Err(AppSW::WrongApduLength);
    }
    if !blind_signing_enabled {
        return Err(AppSW::BlindSigningModeNotEnabled);
    }
    proof {
        assert(data@.subrange(1, data@.len() as int) =~= data@.subrange(1, 45));
    }
    Ok((path, hash))
}

} // verus!

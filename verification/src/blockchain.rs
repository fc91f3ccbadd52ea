//! What the nodes ask of the contract on the chain, and what they make of its answers.
use crate::encoding::{hex_bytes, hex_decodes, hex_digit_value, hex_round_trip, hex_text};
use crate::text::{contains, contains_text, stands_at};
use alloy::primitives::Address;
use core::str::FromStr;
use vstd::prelude::*;

verus! {

/// A text without a leading `0x` or `0X`.
pub open spec fn without_prefix(text: Seq<char>) -> Seq<char> {
    if text.len() >= 2 && text[0] == '0' && (text[1] == 'x' || text[1] == 'X') {
        text.skip(2)
    } else {
        text
    }
}

/// The address that a text gives: forty hexadecimal digits with or without a prefix.
pub open spec fn address_of(text: Seq<char>) -> Option<Seq<u8>> {
    let digits = without_prefix(text);
    if digits.len() == 40 && hex_decodes(digits) {
        Some(hex_bytes(digits))
    } else {
        None
    }
}

/// Calls `from_str` of `alloy::primitives::Address`: it reads forty hexadecimal digits of either
/// case, with or without a prefix, and looks at no checksum.
#[verifier::external_body]
pub(crate) fn parse_address(text: &str) -> (res: Option<[u8; 20]>)
    ensures
        match res {
            Some(address) => address_of(text@) == Some(address@),
            None => address_of(text@) is None,
        },
{
    Address::from_str(text).ok().map(|address| address.into())
}

/// The Keccak-256 digest of a byte string.
pub uninterp spec fn keccak256(data: Seq<u8>) -> Seq<u8>;

/// Calls `alloy::primitives::keccak256`: the digest is a function of the data.
#[verifier::external_body]
pub(crate) fn keccak256_digest(data: &[u8]) -> (res: [u8; 32])
    ensures
        res@ == keccak256(data@),
{
    alloy::primitives::keccak256(data).into()
}

/// A hexadecimal digit in upper case, where it is a letter.
pub open spec fn upper_digit(c: char) -> char {
    if 97 <= c as int <= 102 {
        (c as int - 32) as char
    } else {
        c
    }
}

/// The text of an address with a checksum in the case of its letters: `0x` and the hexadecimal digits,
/// with a letter in upper case exactly where the digit at its place in the Keccak-256 digest of the
/// lower-case digits is eight or more.
pub open spec fn checksum_text(address: Seq<u8>) -> Seq<char> {
    let digits = hex_text(address);
    let digest = hex_text(keccak256(vstd::utf8::encode_utf8(digits)));
    "0x"@ + Seq::new(
        digits.len(),
        |i: int|
            if hex_digit_value(digest[i]).unwrap() >= 8 {
                upper_digit(digits[i])
            } else {
                digits[i]
            },
    )
}

/// Calls `to_string` of `alloy::primitives::Address`: the text has the checksum in the case of its
/// letters.
#[verifier::external_body]
pub(crate) fn address_text(address: &[u8; 20]) -> (res: String)
    ensures
        res@ == checksum_text(address@),
{
    Address::from(*address).to_string()
}

/// An address can be read back from its text.
pub proof fn checksum_text_round_trip(address: Seq<u8>)
    requires
        address.len() == 20,
    ensures
        address_of(checksum_text(address)) == Some(address),
{
    reveal_strlit("0x");
    let text = checksum_text(address);
    let digits = hex_text(address);
    let rest = without_prefix(text);
    hex_round_trip(address);
    assert(rest.len() == 40);
    assert forall|i: int| 0 <= i < 40 implies hex_digit_value(#[trigger] rest[i])
        == hex_digit_value(digits[i]) by {
        assert(rest[i] == text[i + 2]);
        assert(hex_digit_value(digits[i]) is Some);
    }
    assert(hex_decodes(rest));
    assert(hex_bytes(rest) =~= hex_bytes(digits));
}

/// A call of the contract, with the money that goes with it. Payouts are 256-bit integers, in 32 bytes
/// with the most significant first.
#[derive(Debug)]
pub enum ContractCall {
    Deposit { channel_id: [u8; 32], value: u128 },
    CreateChannel { channel_id: [u8; 32], value: u128 },
    JoinChannel { channel_id: [u8; 32], value: u128 },
    InitiateClose {
        channel_id: [u8; 32],
        nonce: u64,
        recipients: Vec<[u8; 20]>,
        amounts: Vec<[u8; 32]>,
        signature: Vec<u8>,
    },
    DisputeClose {
        channel_id: [u8; 32],
        nonce: u64,
        recipients: Vec<[u8; 20]>,
        amounts: Vec<[u8; 32]>,
        signature: Vec<u8>,
    },
    FinalizeClose { channel_id: [u8; 32] },
    Withdraw,
}

/// The call that locks a deposit for a channel.
pub fn lock_deposit(channel_id: [u8; 32], amount_wei: u128) -> (res: ContractCall)
    ensures
        res == (ContractCall::Deposit { channel_id, value: amount_wei }),
{
    ContractCall::Deposit { channel_id, value: amount_wei }
}

/// The call that creates a channel with a first deposit.
pub fn create_channel(channel_id: [u8; 32], initial_deposit: u128) -> (res: ContractCall)
    ensures
        res == (ContractCall::CreateChannel { channel_id, value: initial_deposit }),
{
    ContractCall::CreateChannel { channel_id, value: initial_deposit }
}

/// The call that joins a channel. It moves no money: the deposit was locked before.
pub fn join_channel(channel_id: [u8; 32]) -> (res: ContractCall)
    ensures
        res == (ContractCall::JoinChannel { channel_id, value: 0 }),
{
    ContractCall::JoinChannel { channel_id, value: 0 }
}

/// The call that starts to close a channel with the given payouts.
pub fn initiate_close(
    channel_id: [u8; 32],
    nonce: u64,
    recipients: Vec<[u8; 20]>,
    amounts: Vec<[u8; 32]>,
    signature: Vec<u8>,
) -> (res: ContractCall)
    ensures
        res == (ContractCall::InitiateClose { channel_id, nonce, recipients, amounts, signature }),
{
    ContractCall::InitiateClose { channel_id, nonce, recipients, amounts, signature }
}

/// The call that disputes how a channel is being closed.
pub fn dispute_close(
    channel_id: [u8; 32],
    nonce: u64,
    recipients: Vec<[u8; 20]>,
    amounts: Vec<[u8; 32]>,
    signature: Vec<u8>,
) -> (res: ContractCall)
    ensures
        res == (ContractCall::DisputeClose { channel_id, nonce, recipients, amounts, signature }),
{
    ContractCall::DisputeClose { channel_id, nonce, recipients, amounts, signature }
}

/// The call that settles a channel that is being closed.
pub fn finalize_close(channel_id: [u8; 32]) -> (res: ContractCall)
    ensures
        res == (ContractCall::FinalizeClose { channel_id }),
{
    ContractCall::FinalizeClose { channel_id }
}

/// The call that pays out what has been settled.
pub fn withdraw_funds() -> (res: ContractCall)
    ensures
        res == ContractCall::Withdraw,
{
    ContractCall::Withdraw
}

/// The failure that a reverted call is reported as; `None` for a call whose receipt is not looked at.
pub open spec fn revert_text(call: ContractCall) -> Option<Seq<char>> {
    match call {
        ContractCall::Deposit { .. } => Some("❌ 交易失败 (Reverted): "@),
        ContractCall::CreateChannel { .. } => Some("❌ 创建失败 (Reverted): "@),
        ContractCall::JoinChannel { .. } => Some("❌ 加入失败 (Reverted): "@),
        _ => None,
    }
}

/// What a call comes to once its receipt is there: the hash of the transaction, or a failure where
/// the receipt is looked at and says that the call was reverted.
pub fn call_outcome(call: &ContractCall, status: bool, tx_hash: String) -> (res: Result<
    String,
    String,
>)
    ensures
        match res {
            Ok(tx) => (status || revert_text(*call) is None) && tx == tx_hash,
            Err(e) => {
                &&& !status
                &&& revert_text(*call) is Some
                &&& e@ == revert_text(*call).unwrap() + tx_hash@
            },
        },
{
    if status {
        return Ok(tx_hash);
    }
    let prefix = match call {
        ContractCall::Deposit { .. } => "❌ 交易失败 (Reverted): ",
        ContractCall::CreateChannel { .. } => "❌ 创建失败 (Reverted): ",
        ContractCall::JoinChannel { .. } => "❌ 加入失败 (Reverted): ",
        _ => return Ok(tx_hash),
    };
    Err(prefix.to_owned().concat(tx_hash.as_str()))
}

/// Whether a channel with the given status code takes payments.
pub fn channel_is_open(status: u8) -> (res: bool)
    ensures
        res == (status == 0),
{
    status == 0
}

/// Whether a failed deposit only says that the deposit was made before.
pub fn deposit_known(error: &str) -> (res: bool)
    ensures
        res == (contains_text(error@, "already known"@) || contains_text(
            error@,
            "nonce too low"@,
        )),
{
    contains(error, "already known") || contains(error, "nonce too low")
}

/// Whether a failure to join says that the user joined before.
pub fn join_known(error: &str) -> (res: bool)
    ensures
        res == (contains_text(error@, "Already joined"@) || contains_text(
            error@,
            "execution reverted"@,
        )),
{
    contains(error, "Already joined") || contains(error, "execution reverted")
}

/// A call carries what it was made with: the channel and the money of a deposit or a new channel, no
/// money where a user joins, and nothing but the channel where it is settled.
pub proof fn calls_carry_their_money(
    channel_id: [u8; 32],
    value: u128,
    deposit: ContractCall,
    creation: ContractCall,
    joining: ContractCall,
    settling: ContractCall,
    withdrawal: ContractCall,
)
    requires
        call_ensures(lock_deposit, (channel_id, value), deposit),
        call_ensures(create_channel, (channel_id, value), creation),
        call_ensures(join_channel, (channel_id,), joining),
        call_ensures(finalize_close, (channel_id,), settling),
        call_ensures(withdraw_funds, (), withdrawal),
    ensures
        deposit matches ContractCall::Deposit { channel_id: id, value: money } && id == channel_id
            && money == value,
        creation matches ContractCall::CreateChannel { channel_id: id, value: money } && id
            == channel_id && money == value,
        joining matches ContractCall::JoinChannel { channel_id: id, value: money } && id
            == channel_id && money == 0,
        settling matches ContractCall::FinalizeClose { channel_id: id } && id == channel_id,
        withdrawal is Withdraw,
{
}

/// Closing a channel and disputing how it is closed both carry the channel, the number, the payouts in
/// their order and the signature that they were made with.
pub proof fn closing_calls_carry_the_payouts(
    channel_id: [u8; 32],
    nonce: u64,
    recipients: Vec<[u8; 20]>,
    amounts: Vec<[u8; 32]>,
    signature: Vec<u8>,
    closing: ContractCall,
    dispute: ContractCall,
)
    requires
        call_ensures(
            initiate_close,
            (channel_id, nonce, recipients, amounts, signature),
            closing,
        ),
        call_ensures(dispute_close, (channel_id, nonce, recipients, amounts, signature), dispute),
    ensures
        closing matches ContractCall::InitiateClose {
            channel_id: id,
            nonce: number,
            recipients: to,
            amounts: paid,
            signature: signed,
        } && id == channel_id && number == nonce && to@ == recipients@ && paid@ == amounts@
            && signed@ == signature@,
        dispute matches ContractCall::DisputeClose {
            channel_id: id,
            nonce: number,
            recipients: to,
            amounts: paid,
            signature: signed,
        } && id == channel_id && number == nonce && to@ == recipients@ && paid@ == amounts@
            && signed@ == signature@,
{
}

/// A call that went through gives the hash of its transaction. One that was reverted fails where it
/// moves a deposit, creates a channel or joins one, with the hash at the end of the failure, and
/// otherwise gives the hash too.
pub proof fn reverted_deposits_fail(
    call: &ContractCall,
    status: bool,
    tx_hash: String,
    res: Result<String, String>,
)
    requires
        call_ensures(call_outcome, (call, status, tx_hash), res),
    ensures
        status ==> res is Ok,
        call is InitiateClose || call is DisputeClose || call is FinalizeClose || call is Withdraw
            ==> res is Ok,
        !status && (call is Deposit || call is CreateChannel || call is JoinChannel) ==> res is Err,
        res matches Ok(tx) ==> tx@ == tx_hash@,
        !status && call is Deposit ==> res->Err_0@ == "❌ 交易失败 (Reverted): "@ + tx_hash@,
        !status && call is CreateChannel ==> res->Err_0@ == "❌ 创建失败 (Reverted): "@
            + tx_hash@,
        !status && call is JoinChannel ==> res->Err_0@ == "❌ 加入失败 (Reverted): "@ + tx_hash@,
{
}

/// A channel takes payments with status zero and with no other.
pub proof fn open_is_status_zero(status: u8, res: bool)
    requires
        call_ensures(channel_is_open, (status,), res),
    ensures
        res <==> status == 0,
{
}

/// Whatever surrounds the words that tell of an earlier deposit or an earlier joining, they are
/// recognised, and a failure that is recognised holds them.
pub proof fn known_failures_are_recognised(
    error: &str,
    before: Seq<char>,
    after: Seq<char>,
    deposited: bool,
    joined: bool,
)
    requires
        call_ensures(deposit_known, (error,), deposited),
        call_ensures(join_known, (error,), joined),
    ensures
        error@ == before + "already known"@ + after ==> deposited,
        error@ == before + "nonce too low"@ + after ==> deposited,
        error@ == before + "Already joined"@ + after ==> joined,
        error@ == before + "execution reverted"@ + after ==> joined,
        deposited ==> exists|i: int|
            0 <= i <= error@.len() && ("already known"@.is_prefix_of(#[trigger] error@.skip(i))
                || "nonce too low"@.is_prefix_of(error@.skip(i))),
        joined ==> exists|i: int|
            0 <= i <= error@.len() && ("Already joined"@.is_prefix_of(#[trigger] error@.skip(i))
                || "execution reverted"@.is_prefix_of(error@.skip(i))),
{
    known_words_are_found(error@, "already known"@, before, after);
    known_words_are_found(error@, "nonce too low"@, before, after);
    known_words_are_found(error@, "Already joined"@, before, after);
    known_words_are_found(error@, "execution reverted"@, before, after);
}

/// A text that holds a pattern holds it from some place on.
proof fn known_words_are_found(
    text: Seq<char>,
    pattern: Seq<char>,
    before: Seq<char>,
    after: Seq<char>,
)
    ensures
        text == before + pattern + after ==> contains_text(text, pattern),
        contains_text(text, pattern) ==> exists|i: int|
            0 <= i <= text.len() && pattern.is_prefix_of(#[trigger] text.skip(i)),
{
    if text == before + pattern + after {
        let i = before.len() as int;
        assert(text.subrange(i, i + pattern.len()) =~= pattern);
        assert(stands_at(text, pattern, i));
    }
    if contains_text(text, pattern) {
        let i = choose|i: int| stands_at(text, pattern, i);
        assert forall|j: int| 0 <= j < pattern.len() implies pattern[j] == text.skip(i)[j] by {
            assert(text.subrange(i, i + pattern.len())[j] == text[i + j]);
        }
        assert(pattern =~= text.skip(i).subrange(0, pattern.len() as int));
        assert(pattern.is_prefix_of(text.skip(i)));
    }
}

/// An address is read from forty hexadecimal digits, with or without `0x` or `0X` before them, as the
/// bytes that the digits give; and it is read from nothing else.
pub proof fn addresses_are_forty_digits(digits: Seq<char>)
    requires
        digits.len() == 40,
    ensures
        hex_decodes(digits) ==> {
            &&& address_of(digits) == Some(hex_bytes(digits))
            &&& address_of("0x"@ + digits) == Some(hex_bytes(digits))
            &&& address_of("0X"@ + digits) == Some(hex_bytes(digits))
        },
        !hex_decodes(digits) ==> {
            &&& address_of(digits) is None
            &&& address_of("0x"@ + digits) is None
            &&& address_of("0X"@ + digits) is None
        },
        forall|text: Seq<char>| #[trigger]
            address_of(text) is Some ==> text.len() == 40 || text.len() == 42 && text[0] == '0' && (
            text[1] == 'x' || text[1] == 'X'),
{
    reveal_strlit("0x");
    reveal_strlit("0X");
    assert(("0x"@ + digits).skip(2) =~= digits);
    assert(("0X"@ + digits).skip(2) =~= digits);
    if digits[0] == '0' && (digits[1] == 'x' || digits[1] == 'X') {
        assert(hex_digit_value(digits[1]) is None);
        assert(!hex_decodes(digits));
    }
}

} // verus!

//! Addresses as they are written down: the base-32 keys of accounts (`G...`)
//! and of contracts (`C...`).
use crate::types::Address;
use core::str::FromStr;
use vstd::prelude::*;
use vstd::utf8;

verus! {

/// The public key that the strkey of an account stands for; nothing where
/// `text` is no such strkey.
pub uninterp spec fn account_key(text: Seq<char>) -> Option<Seq<u8>>;

/// The identifier that the strkey of a contract stands for; nothing where
/// `text` is no such strkey.
pub uninterp spec fn contract_key(text: Seq<char>) -> Option<Seq<u8>>;

/// The bytes of a key.
pub open spec fn key_bytes(key: Option<[u8; 32]>) -> Option<Seq<u8>> {
    match key {
        Some(k) => Some(k@),
        None => None,
    }
}

/// Decodes the strkey of an account with `AccountId::from_str` of
/// `soroban_sdk::xdr`, which checks the alphabet, the length, the leading
/// version byte and the checksum. Trusted: that the outcome depends on the
/// text alone. Which texts are strkeys, and of which keys, is not stated.
#[verifier::external_body]
fn read_account_key(text: &str) -> (r: Option<[u8; 32]>)
    ensures
        key_bytes(r) == account_key(text@),
{
    match soroban_sdk::xdr::AccountId::from_str(text) {
        Ok(id) => match id.0 {
            soroban_sdk::xdr::PublicKey::PublicKeyTypeEd25519(key) => Some(key.0),
        },
        Err(_) => None,
    }
}

/// Decodes the strkey of a contract with `ContractId::from_str` of
/// `soroban_sdk::xdr`, which checks the alphabet, the length, the leading
/// version byte and the checksum. Trusted: that the outcome depends on the
/// text alone. Which texts are strkeys, and of which contracts, is not stated.
#[verifier::external_body]
fn read_contract_key(text: &str) -> (r: Option<[u8; 32]>)
    ensures
        key_bytes(r) == contract_key(text@),
{
    match soroban_sdk::xdr::ContractId::from_str(text) {
        Ok(id) => Some(id.0.0),
        Err(_) => None,
    }
}

/// Decodes UTF-8 with `core::str::from_utf8`. Trusted: that it accepts the
/// bytes that are UTF-8, and no others, and gives the characters that they
/// encode.
#[verifier::external_body]
pub(crate) fn read_text(bytes: &[u8]) -> (r: Option<String>)
    ensures
        r is Some <==> utf8::valid_utf8(bytes@),
        r matches Some(s) ==> s@ == utf8::decode_utf8(bytes@),
{
    match core::str::from_utf8(bytes) {
        Ok(s) => Some(String::from(s)),
        Err(_) => None,
    }
}

/// The address of the account, or else of the contract, that a strkey gave.
pub open spec fn address_of(account: Option<Seq<u8>>, contract: Option<Seq<u8>>) -> Option<
    Address,
> {
    match (account, contract) {
        (Some(key), _) => Some(Address::of(false, key)),
        (None, Some(key)) => Some(Address::of(true, key)),
        (None, None) => None,
    }
}

/// The address that a strkey stands for.
pub open spec fn address(bytes: Seq<u8>) -> Option<Address> {
    if utf8::valid_utf8(bytes) {
        let text = utf8::decode_utf8(bytes);
        address_of(account_key(text), contract_key(text))
    } else {
        None
    }
}

/// The address of the account, or else of the contract, that a strkey gave.
pub fn address_from_keys(account: Option<[u8; 32]>, contract: Option<[u8; 32]>) -> (r: Option<
    Address,
>)
    ensures
        r == address_of(key_bytes(account), key_bytes(contract)),
{
    match (account, contract) {
        (Some(key), _) => Some(Address::from_key(false, &key)),
        (None, Some(key)) => Some(Address::from_key(true, &key)),
        (None, None) => None,
    }
}

/// Reads an address off its strkey; nothing where the bytes are no strkey of
/// an account or a contract.
pub fn read_address(bytes: &[u8]) -> (r: Option<Address>)
    ensures
        r == address(bytes@),
{
    match read_text(bytes) {
        None => None,
        Some(text) => {
            let account = read_account_key(text.as_str());
            let contract = read_contract_key(text.as_str());
            address_from_keys(account, contract)
        },
    }
}

} // verus!

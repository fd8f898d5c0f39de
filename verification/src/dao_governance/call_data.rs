//! What a proposal asks for, encoded in bytes: four bytes that say what kind
//! of action it is, then the fields of that action.
use crate::error::Error;
use crate::strkey;
use crate::types;
use crate::types::{Address, Symbol, WasmHash};
use vstd::prelude::*;
use vstd::utf8;

verus! {

/// The kinds of action.
pub const ACTION_DEPLOY_ASSET: u32 = 0;

pub const ACTION_DEACTIVATE: u32 = 1;

pub const ACTION_UPGRADE_TIER: u32 = 2;

pub const ACTION_ADJUST_EARNINGS: u32 = 3;

pub const ACTION_ADJUST_RATIO: u32 = 4;

pub const ACTION_CREATE_POOL: u32 = 5;

pub const ACTION_ADD_SIGNER: u32 = 6;

pub const ACTION_REMOVE_SIGNER: u32 = 7;

/// Payload: `[addr_len: u8][provider]`.
pub const ACTION_ORACLE_ADD_PROVIDER: u32 = 8;

/// Payload: `[addr_len: u8][provider]`.
pub const ACTION_ORACLE_REMOVE_PROVIDER: u32 = 9;

/// Payload: `[min_providers: u32 LE]`.
pub const ACTION_ORACLE_SET_MIN_PROVIDERS: u32 = 10;

/// Payload: `[addr_len: u8][verifier]`.
pub const ACTION_KYC_ADD_VERIFIER: u32 = 11;

/// Payload: `[addr_len: u8][verifier]`.
pub const ACTION_KYC_REMOVE_VERIFIER: u32 = 12;

/// Payload: `[addr_len: u8][token][allowed: u8]`.
pub const ACTION_SET_COLLATERAL_ALLOWED: u32 = 13;

/// Payload: `[addr_len: u8][owner][name_len: u8][name]`.
pub const ACTION_REGISTER_PARTNER: u32 = 14;

/// Payload: `[symbol_len: u8][symbol]`.
pub const ACTION_ACTIVATE_PARTNER_ASSET: u32 = 15;

/// Payload: `[addr_len: u8][target][wasm_hash: 32 bytes]`.
pub const ACTION_UPGRADE_CONTRACT: u32 = 16;

/// Carried out as nothing.
pub const ACTION_GENERIC: u32 = 99;

/// The longest symbol and the longest name that call data may hold.
pub const MAX_SYMBOL_LEN: u8 = 32;

pub const MAX_STRING_LEN: u8 = 80;

/// What a proposal asks for.
#[derive(Clone, PartialEq, Eq, Debug)]
pub enum Action {
    /// Nothing that the contract knows of.
    Nothing,
    /// A new market, and its collateral token whitelisted.
    DeployAsset {
        symbol: Symbol,
        token: Address,
        oracle_sym: Symbol,
        coll_token: Address,
        coll_oracle: Symbol,
        min_cr: i128,
        liq_cr: i128,
        liq_penalty: i128,
        stab_fee_bps: i128,
        debt_ceiling: i128,
    },
    SetCollateralAllowed { token: Address, allowed: bool },
    Deactivate { partner_id: u32 },
    AdjustEarnings { partner_id: u32, new_share: i128 },
    AdjustRatio { new_cr: Option<i128>, new_penalty: Option<i128> },
    RegisterPartner { owner: Address, name: String },
    ActivatePartnerAsset { symbol: Symbol },
    CreatePool { pool_id: Symbol, token_a: Address, token_b: Address, fee_tier: i128 },
    AddSigner { wallet_id: u32, signer: Address },
    RemoveSigner { wallet_id: u32, signer: Address },
    OracleAddProvider { provider: Address },
    OracleRemoveProvider { provider: Address },
    OracleSetMinProviders { min_providers: u32 },
    KycAddVerifier { verifier: Address },
    KycRemoveVerifier { verifier: Address },
    UpgradeContract { target: Address, wasm_hash: WasmHash },
    /// A parameter in the older encoding, which has no kind.
    SetParam { param_id: u8, value: i128 },
}

/// An action, with the name that it may hold as characters.
#[verifier::ext_equal]
pub enum ActionView {
    RegisterPartner { owner: Address, name: Seq<char> },
    Other(Action),
}

impl View for Action {
    type V = ActionView;

    open spec fn view(&self) -> ActionView {
        match *self {
            Action::RegisterPartner { owner, name } => ActionView::RegisterPartner {
                owner,
                name: name@,
            },
            other => ActionView::Other(other),
        }
    }
}

/// The signed number that sixteen bytes hold, the last one weighing most, in
/// two's complement.
pub open spec fn signed(bytes: Seq<u8>) -> i128 {
    let n = types::little_endian(bytes);
    if n <= i128::MAX {
        n as i128
    } else {
        (n - 0x1_0000_0000_0000_0000_0000_0000_0000_0000) as i128
    }
}

pub open spec fn u32_at(data: Seq<u8>, pos: int) -> Result<(u32, int), Error> {
    if pos + 4 <= data.len() {
        Ok((types::little_endian(data.subrange(pos, pos + 4)) as u32, pos + 4))
    } else {
        Err(Error::CallDataTruncated)
    }
}

pub open spec fn i128_at(data: Seq<u8>, pos: int) -> Result<(i128, int), Error> {
    if pos + 16 <= data.len() {
        Ok((signed(data.subrange(pos, pos + 16)), pos + 16))
    } else {
        Err(Error::CallDataTruncated)
    }
}

/// A field that a byte with its length comes before, and the place behind it.
pub open spec fn field_at(data: Seq<u8>, pos: int) -> Result<(Seq<u8>, int), Error> {
    if pos < data.len() && pos + 1 + data[pos] <= data.len() {
        Ok((data.subrange(pos + 1, pos + 1 + data[pos]), pos + 1 + data[pos]))
    } else {
        Err(Error::CallDataTruncated)
    }
}

pub open spec fn address_at(data: Seq<u8>, pos: int) -> Result<(Address, int), Error> {
    match field_at(data, pos) {
        Err(e) => Err(e),
        Ok((field, next)) => match strkey::address(field) {
            Some(address) => Ok((address, next)),
            None => Err(Error::InvalidAddress),
        },
    }
}

/// The symbol that a field holds.
pub open spec fn symbol_of(field: Seq<u8>) -> Result<Symbol, Error> {
    if !utf8::valid_utf8(field) {
        Err(Error::InvalidUtf8Symbol)
    } else if !types::symbol_text(field) {
        Err(Error::InvalidSymbol)
    } else {
        Ok(Symbol::of(field))
    }
}

pub open spec fn symbol_at(data: Seq<u8>, pos: int) -> Result<(Symbol, int), Error> {
    if pos < data.len() && data[pos] > MAX_SYMBOL_LEN {
        Err(Error::SymbolPayloadTooLong)
    } else {
        match field_at(data, pos) {
            Err(e) => Err(e),
            Ok((field, next)) => match symbol_of(field) {
                Err(e) => Err(e),
                Ok(symbol) => Ok((symbol, next)),
            },
        }
    }
}

pub open spec fn string_at(data: Seq<u8>, pos: int) -> Result<(Seq<char>, int), Error> {
    if pos < data.len() && data[pos] > MAX_STRING_LEN {
        Err(Error::StringPayloadTooLong)
    } else {
        match field_at(data, pos) {
            Err(e) => Err(e),
            Ok((field, next)) => if utf8::valid_utf8(field) {
                Ok((utf8::decode_utf8(field), next))
            } else {
                Err(Error::InvalidUtf8String)
            },
        }
    }
}

pub open spec fn wasm_hash_at(data: Seq<u8>, pos: int) -> Result<WasmHash, Error> {
    if pos + 32 <= data.len() {
        Ok(WasmHash::of(data.subrange(pos, pos + 32)))
    } else {
        Err(Error::WasmHashTruncated)
    }
}

/// The kind of action that call data asks for.
pub open spec fn kind(data: Seq<u8>) -> u32 {
    types::little_endian(data.take(4)) as u32
}

/// `[symbol_len: u8][symbol][token_len: u8][token]`
/// `[oracle_sym_len: u8][oracle_sym][coll_token_len: u8][coll_token]`
/// `[coll_oracle_len: u8][coll_oracle]`
/// `[min_cr][liq_cr][liq_penalty][stab_fee_bps][debt_ceiling]`, the last five
/// `i128 LE`.
pub open spec fn deploy_asset(data: Seq<u8>) -> Result<ActionView, Error> {
    match symbol_at(data, 4) {
        Err(e) => Err(e),
        Ok((symbol, p)) => match address_at(data, p) {
            Err(e) => Err(e),
            Ok((token, p)) => match symbol_at(data, p) {
                Err(e) => Err(e),
                Ok((oracle_sym, p)) => match address_at(data, p) {
                    Err(e) => Err(e),
                    Ok((coll_token, p)) => match symbol_at(data, p) {
                        Err(e) => Err(e),
                        Ok((coll_oracle, p)) => if p + 80 <= data.len() {
                            Ok(
                                ActionView::Other(
                                    Action::DeployAsset {
                                        symbol,
                                        token,
                                        oracle_sym,
                                        coll_token,
                                        coll_oracle,
                                        min_cr: signed(data.subrange(p, p + 16)),
                                        liq_cr: signed(data.subrange(p + 16, p + 32)),
                                        liq_penalty: signed(data.subrange(p + 32, p + 48)),
                                        stab_fee_bps: signed(data.subrange(p + 48, p + 64)),
                                        debt_ceiling: signed(data.subrange(p + 64, p + 80)),
                                    },
                                ),
                            )
                        } else {
                            Err(Error::CallDataTruncated)
                        },
                    },
                },
            },
        },
    }
}

/// `[addr_len: u8][token][allowed: u8]`
pub open spec fn set_collateral_allowed(data: Seq<u8>) -> Result<ActionView, Error> {
    match address_at(data, 4) {
        Err(e) => Err(e),
        Ok((token, p)) => if p < data.len() {
            Ok(ActionView::Other(Action::SetCollateralAllowed { token, allowed: data[p] != 0 }))
        } else {
            Err(Error::CallDataTruncated)
        },
    }
}

/// `[partner_id: u32 LE][new_share: i128 LE]`
pub open spec fn adjust_earnings(data: Seq<u8>) -> Result<ActionView, Error> {
    match u32_at(data, 4) {
        Err(e) => Err(e),
        Ok((partner_id, p)) => match i128_at(data, p) {
            Err(e) => Err(e),
            Ok((new_share, _)) => Ok(
                ActionView::Other(Action::AdjustEarnings { partner_id, new_share }),
            ),
        },
    }
}

/// `[min_cr: i128 LE][liq_penalty: i128 LE]`, the second or both of which may
/// be left out.
pub open spec fn adjust_ratio(data: Seq<u8>) -> Result<ActionView, Error> {
    Ok(
        ActionView::Other(
            Action::AdjustRatio {
                new_cr: if data.len() >= 20 {
                    Some(signed(data.subrange(4, 20)))
                } else {
                    None
                },
                new_penalty: if data.len() >= 36 {
                    Some(signed(data.subrange(20, 36)))
                } else {
                    None
                },
            },
        ),
    )
}

/// `[addr_len: u8][owner][name_len: u8][name]`
pub open spec fn register_partner(data: Seq<u8>) -> Result<ActionView, Error> {
    match address_at(data, 4) {
        Err(e) => Err(e),
        Ok((owner, p)) => match string_at(data, p) {
            Err(e) => Err(e),
            Ok((name, _)) => Ok(ActionView::RegisterPartner { owner, name }),
        },
    }
}

/// `[pool_id_len: u8][pool_id][token_a_len: u8][token_a]`
/// `[token_b_len: u8][token_b][fee_tier: i128 LE]`
pub open spec fn create_pool(data: Seq<u8>) -> Result<ActionView, Error> {
    match symbol_at(data, 4) {
        Err(e) => Err(e),
        Ok((pool_id, p)) => match address_at(data, p) {
            Err(e) => Err(e),
            Ok((token_a, p)) => match address_at(data, p) {
                Err(e) => Err(e),
                Ok((token_b, p)) => match i128_at(data, p) {
                    Err(e) => Err(e),
                    Ok((fee_tier, _)) => Ok(
                        ActionView::Other(
                            Action::CreatePool { pool_id, token_a, token_b, fee_tier },
                        ),
                    ),
                },
            },
        },
    }
}

/// `[wallet_id: u32 LE][addr_len: u8][signer]`; nothing where this is cut
/// short.
pub open spec fn signer_change(data: Seq<u8>) -> Result<Option<(u32, Address)>, Error> {
    if data.len() < 9 || data.len() < 9 + data[8] {
        Ok(None)
    } else {
        match address_at(data, 8) {
            Err(e) => Err(e),
            Ok((signer, _)) => Ok(
                Some((types::little_endian(data.subrange(4, 8)) as u32, signer)),
            ),
        }
    }
}

/// `[addr_len: u8][target][wasm_hash: 32 bytes]`
pub open spec fn upgrade_contract(data: Seq<u8>) -> Result<ActionView, Error> {
    match address_at(data, 4) {
        Err(e) => Err(e),
        Ok((target, p)) => match wasm_hash_at(data, p) {
            Err(e) => Err(e),
            Ok(wasm_hash) => Ok(
                ActionView::Other(Action::UpgradeContract { target, wasm_hash }),
            ),
        },
    }
}

/// What call data asks for.
pub open spec fn decode(data: Seq<u8>) -> Result<ActionView, Error> {
    let kind = kind(data);
    if data.len() < 4 {
        Ok(ActionView::Other(Action::Nothing))
    } else if kind == ACTION_DEPLOY_ASSET {
        deploy_asset(data)
    } else if kind == ACTION_SET_COLLATERAL_ALLOWED {
        set_collateral_allowed(data)
    } else if kind == ACTION_DEACTIVATE {
        match u32_at(data, 4) {
            Err(e) => Err(e),
            Ok((partner_id, _)) => Ok(ActionView::Other(Action::Deactivate { partner_id })),
        }
    } else if kind == ACTION_UPGRADE_TIER {
        Err(Error::UpgradeTierRemoved)
    } else if kind == ACTION_ADJUST_RATIO {
        adjust_ratio(data)
    } else if kind == ACTION_ADJUST_EARNINGS {
        adjust_earnings(data)
    } else if kind == ACTION_REGISTER_PARTNER {
        register_partner(data)
    } else if kind == ACTION_ACTIVATE_PARTNER_ASSET {
        match symbol_at(data, 4) {
            Err(e) => Err(e),
            Ok((symbol, _)) => Ok(ActionView::Other(Action::ActivatePartnerAsset { symbol })),
        }
    } else if kind == ACTION_CREATE_POOL {
        create_pool(data)
    } else if kind == ACTION_ADD_SIGNER {
        match signer_change(data) {
            Err(e) => Err(e),
            Ok(None) => Ok(ActionView::Other(Action::Nothing)),
            Ok(Some((wallet_id, signer))) => Ok(
                ActionView::Other(Action::AddSigner { wallet_id, signer }),
            ),
        }
    } else if kind == ACTION_REMOVE_SIGNER {
        match signer_change(data) {
            Err(e) => Err(e),
            Ok(None) => Ok(ActionView::Other(Action::Nothing)),
            Ok(Some((wallet_id, signer))) => Ok(
                ActionView::Other(Action::RemoveSigner { wallet_id, signer }),
            ),
        }
    } else if kind == ACTION_ORACLE_ADD_PROVIDER {
        match address_at(data, 4) {
            Err(e) => Err(e),
            Ok((provider, _)) => Ok(ActionView::Other(Action::OracleAddProvider { provider })),
        }
    } else if kind == ACTION_ORACLE_REMOVE_PROVIDER {
        match address_at(data, 4) {
            Err(e) => Err(e),
            Ok((provider, _)) => Ok(ActionView::Other(Action::OracleRemoveProvider { provider })),
        }
    } else if kind == ACTION_ORACLE_SET_MIN_PROVIDERS {
        match u32_at(data, 4) {
            Err(_) => Ok(ActionView::Other(Action::Nothing)),
            Ok((min_providers, _)) => Ok(
                ActionView::Other(Action::OracleSetMinProviders { min_providers }),
            ),
        }
    } else if kind == ACTION_KYC_ADD_VERIFIER {
        match address_at(data, 4) {
            Err(e) => Err(e),
            Ok((verifier, _)) => Ok(ActionView::Other(Action::KycAddVerifier { verifier })),
        }
    } else if kind == ACTION_KYC_REMOVE_VERIFIER {
        match address_at(data, 4) {
            Err(e) => Err(e),
            Ok((verifier, _)) => Ok(ActionView::Other(Action::KycRemoveVerifier { verifier })),
        }
    } else if kind == ACTION_UPGRADE_CONTRACT {
        upgrade_contract(data)
    } else if data.len() >= 17 {
        Ok(
            ActionView::Other(
                Action::SetParam { param_id: data[0], value: signed(data.subrange(1, 17)) },
            ),
        )
    } else {
        Ok(ActionView::Other(Action::Nothing))
    }
}

/// Reads a `u32` at `pos`; also gives the place behind it.
pub fn _decode_u32_at(data: &[u8], pos: usize) -> (r: Result<(u32, usize), Error>)
    requires
        pos <= data@.len(),
    ensures
        r is Ok <==> u32_at(data@, pos as int) is Ok,
        r matches Ok(p) ==> u32_at(data@, pos as int) == Ok::<(u32, int), Error>(
            (p.0, p.1 as int),
        ) && p.1 <= data@.len(),
        r matches Err(e) ==> u32_at(data@, pos as int) == Err::<(u32, int), Error>(e),
{
    if data.len() - pos < 4 {
        return Err(Error::CallDataTruncated);
    }
    let n: u128 = types::number_backwards(data, pos, pos + 4);
    proof {
        assert(types::span(4) == 0x1_0000_0000) by {
            reveal_with_fuel(types::span, 5);
        }
    }
    Ok((n as u32, pos + 4))
}

/// The signed number in the sixteen bytes at `pos`.
fn signed_at(data: &[u8], pos: usize) -> (r: i128)
    requires
        pos + 16 <= data.len(),
    ensures
        r == signed(data@.subrange(pos as int, pos + 16)),
{
    let n: u128 = types::number_backwards(data, pos, pos + 16);
    if n <= i128::MAX as u128 {
        n as i128
    } else {
        let above: u128 = n - 0x8000_0000_0000_0000_0000_0000_0000_0000;
        i128::MIN + above as i128
    }
}

/// Reads an `i128` at `pos`; also gives the place behind it.
pub fn _decode_i128_at(data: &[u8], pos: usize) -> (r: Result<(i128, usize), Error>)
    requires
        pos <= data@.len(),
    ensures
        r is Ok <==> i128_at(data@, pos as int) is Ok,
        r matches Ok(p) ==> i128_at(data@, pos as int) == Ok::<(i128, int), Error>(
            (p.0, p.1 as int),
        ) && p.1 <= data@.len(),
        r matches Err(e) ==> i128_at(data@, pos as int) == Err::<(i128, int), Error>(e),
{
    if data.len() - pos < 16 {
        return Err(Error::CallDataTruncated);
    }
    Ok((signed_at(data, pos), pos + 16))
}

/// A copy of some of the bytes.
fn part(data: &[u8], start: usize, end: usize) -> (r: Vec<u8>)
    requires
        start <= end <= data@.len(),
    ensures
        r@ == data@.subrange(start as int, end as int),
{
    let mut r: Vec<u8> = Vec::new();
    let mut i: usize = start;
    while i < end
        invariant
            start <= i <= end <= data@.len(),
            r@ =~= data@.subrange(start as int, i as int),
        decreases end - i,
    {
        r.push(data[i]);
        i = i + 1;
    }
    r
}

/// Reads a field at `pos` that a byte with its length comes before.
fn field(data: &[u8], pos: usize) -> (r: Result<(Vec<u8>, usize), Error>)
    requires
        pos <= data@.len(),
    ensures
        r is Ok <==> field_at(data@, pos as int) is Ok,
        r matches Ok(p) ==> field_at(data@, pos as int) == Ok::<(Seq<u8>, int), Error>(
            (p.0@, p.1 as int),
        ) && p.1 <= data@.len(),
        r matches Err(e) ==> field_at(data@, pos as int) == Err::<(Seq<u8>, int), Error>(e),
{
    if pos == data.len() {
        return Err(Error::CallDataTruncated);
    }
    let n: usize = data[pos] as usize;
    if data.len() - pos - 1 < n {
        return Err(Error::CallDataTruncated);
    }
    Ok((part(data, pos + 1, pos + 1 + n), pos + 1 + n))
}

/// Reads an address at `pos`; also gives the place behind it.
pub fn _decode_address_at(data: &[u8], pos: usize) -> (r: Result<(Address, usize), Error>)
    requires
        pos <= data@.len(),
    ensures
        r is Ok <==> address_at(data@, pos as int) is Ok,
        r matches Ok(p) ==> address_at(data@, pos as int) == Ok::<(Address, int), Error>(
            (p.0, p.1 as int),
        ) && p.1 <= data@.len(),
        r matches Err(e) ==> address_at(data@, pos as int) == Err::<(Address, int), Error>(e),
{
    let (bytes, next) = field(data, pos)?;
    match strkey::read_address(bytes.as_slice()) {
        Some(address) => Ok((address, next)),
        None => Err(Error::InvalidAddress),
    }
}

/// Reads an address at `start`.
pub fn _decode_address_payload(data: &[u8], start: usize) -> (r: Result<Address, Error>)
    requires
        start <= data@.len(),
    ensures
        match address_at(data@, start as int) {
            Err(e) => r == Err::<Address, Error>(e),
            Ok((address, _)) => r == Ok::<Address, Error>(address),
        },
{
    let (address, _next) = _decode_address_at(data, start)?;
    Ok(address)
}

/// Reads a symbol at `pos`; also gives the place behind it.
pub fn _decode_symbol_at(data: &[u8], pos: usize) -> (r: Result<(Symbol, usize), Error>)
    requires
        pos <= data@.len(),
    ensures
        r is Ok <==> symbol_at(data@, pos as int) is Ok,
        r matches Ok(p) ==> symbol_at(data@, pos as int) == Ok::<(Symbol, int), Error>(
            (p.0, p.1 as int),
        ) && p.1 <= data@.len(),
        r matches Err(e) ==> symbol_at(data@, pos as int) == Err::<(Symbol, int), Error>(e),
{
    if pos < data.len() && data[pos] > MAX_SYMBOL_LEN {
        return Err(Error::SymbolPayloadTooLong);
    }
    let (bytes, next) = field(data, pos)?;
    if strkey::read_text(bytes.as_slice()).is_none() {
        return Err(Error::InvalidUtf8Symbol);
    }
    match Symbol::new(bytes.as_slice()) {
        Some(symbol) => Ok((symbol, next)),
        None => Err(Error::InvalidSymbol),
    }
}

/// Reads a text at `pos`; also gives the place behind it.
pub fn _decode_string_at(data: &[u8], pos: usize) -> (r: Result<(String, usize), Error>)
    requires
        pos <= data@.len(),
    ensures
        r is Ok <==> string_at(data@, pos as int) is Ok,
        r matches Ok(p) ==> string_at(data@, pos as int) == Ok::<(Seq<char>, int), Error>(
            (p.0@, p.1 as int),
        ) && p.1 <= data@.len(),
        r matches Err(e) ==> string_at(data@, pos as int) == Err::<(Seq<char>, int), Error>(e),
{
    if pos < data.len() && data[pos] > MAX_STRING_LEN {
        return Err(Error::StringPayloadTooLong);
    }
    let (bytes, next) = field(data, pos)?;
    match strkey::read_text(bytes.as_slice()) {
        Some(text) => Ok((text, next)),
        None => Err(Error::InvalidUtf8String),
    }
}

/// Reads a hash of code at `pos`.
pub fn _decode_bytesn32_at(data: &[u8], pos: usize) -> (r: Result<WasmHash, Error>)
    requires
        pos <= data@.len(),
    ensures
        r == wasm_hash_at(data@, pos as int),
{
    if data.len() - pos < 32 {
        return Err(Error::WasmHashTruncated);
    }
    let hi: u128 = types::number(data, pos, pos + 16);
    let lo: u128 = types::number(data, pos + 16, pos + 32);
    proof {
        let all = data@.subrange(pos as int, pos + 32);
        assert(all.take(16) =~= data@.subrange(pos as int, pos + 16));
        assert(all.skip(16) =~= data@.subrange(pos + 16, pos + 32));
    }
    Ok(WasmHash { hi, lo })
}

fn read_deploy_asset(data: &[u8]) -> (r: Result<Action, Error>)
    requires
        data@.len() >= 4,
    ensures
        crate::error::seen(r) == deploy_asset(data@),
{
    let (symbol, p) = _decode_symbol_at(data, 4)?;
    let (token, p) = _decode_address_at(data, p)?;
    let (oracle_sym, p) = _decode_symbol_at(data, p)?;
    let (coll_token, p) = _decode_address_at(data, p)?;
    let (coll_oracle, p) = _decode_symbol_at(data, p)?;
    let (min_cr, p) = _decode_i128_at(data, p)?;
    let (liq_cr, p) = _decode_i128_at(data, p)?;
    let (liq_penalty, p) = _decode_i128_at(data, p)?;
    let (stab_fee_bps, p) = _decode_i128_at(data, p)?;
    let (debt_ceiling, _p) = _decode_i128_at(data, p)?;
    Ok(
        Action::DeployAsset {
            symbol,
            token,
            oracle_sym,
            coll_token,
            coll_oracle,
            min_cr,
            liq_cr,
            liq_penalty,
            stab_fee_bps,
            debt_ceiling,
        },
    )
}

fn read_create_pool(data: &[u8]) -> (r: Result<Action, Error>)
    requires
        data@.len() >= 4,
    ensures
        crate::error::seen(r) == create_pool(data@),
{
    let (pool_id, p) = _decode_symbol_at(data, 4)?;
    let (token_a, p) = _decode_address_at(data, p)?;
    let (token_b, p) = _decode_address_at(data, p)?;
    let (fee_tier, _p) = _decode_i128_at(data, p)?;
    Ok(Action::CreatePool { pool_id, token_a, token_b, fee_tier })
}

fn read_signer_change(data: &[u8]) -> (r: Result<Option<(u32, Address)>, Error>)
    requires
        data@.len() >= 4,
    ensures
        r == signer_change(data@),
{
    if data.len() < 9 || data.len() - 9 < data[8] as usize {
        return Ok(None);
    }
    let (wallet_id, _p) = _decode_u32_at(data, 4)?;
    let signer = _decode_address_payload(data, 8)?;
    Ok(Some((wallet_id, signer)))
}

/// Reads off the kind of action that call data asks for.
pub fn read_kind(data: &[u8]) -> (r: u32)
    requires
        data@.len() >= 4,
    ensures
        r == kind(data@),
{
    let n: u128 = types::number_backwards(data, 0, 4);
    proof {
        assert(data@.take(4) =~= data@.subrange(0, 4));
        assert(types::span(4) == 0x1_0000_0000) by {
            reveal_with_fuel(types::span, 5);
        }
    }
    n as u32
}

/// Reads off what call data asks for.
pub fn read(data: &[u8]) -> (r: Result<Action, Error>)
    ensures
        crate::error::seen(r) == decode(data@),
{
    if data.len() < 4 {
        return Ok(Action::Nothing);
    }
    let kind: u32 = read_kind(data);
    if kind == ACTION_DEPLOY_ASSET {
        read_deploy_asset(data)
    } else if kind == ACTION_SET_COLLATERAL_ALLOWED {
        let (token, p) = _decode_address_at(data, 4)?;
        if p == data.len() {
            return Err(Error::CallDataTruncated);
        }
        Ok(Action::SetCollateralAllowed { token, allowed: data[p] != 0 })
    } else if kind == ACTION_DEACTIVATE {
        let (partner_id, _p) = _decode_u32_at(data, 4)?;
        Ok(Action::Deactivate { partner_id })
    } else if kind == ACTION_UPGRADE_TIER {
        Err(Error::UpgradeTierRemoved)
    } else if kind == ACTION_ADJUST_RATIO {
        let new_cr = if data.len() >= 20 {
            Some(signed_at(data, 4))
        } else {
            None
        };
        let new_penalty = if data.len() >= 36 {
            Some(signed_at(data, 20))
        } else {
            None
        };
        Ok(Action::AdjustRatio { new_cr, new_penalty })
    } else if kind == ACTION_ADJUST_EARNINGS {
        let (partner_id, p) = _decode_u32_at(data, 4)?;
        let (new_share, _p) = _decode_i128_at(data, p)?;
        Ok(Action::AdjustEarnings { partner_id, new_share })
    } else if kind == ACTION_REGISTER_PARTNER {
        let (owner, p) = _decode_address_at(data, 4)?;
        let (name, _p) = _decode_string_at(data, p)?;
        Ok(Action::RegisterPartner { owner, name })
    } else if kind == ACTION_ACTIVATE_PARTNER_ASSET {
        let (symbol, _p) = _decode_symbol_at(data, 4)?;
        Ok(Action::ActivatePartnerAsset { symbol })
    } else if kind == ACTION_CREATE_POOL {
        read_create_pool(data)
    } else if kind == ACTION_ADD_SIGNER {
        match read_signer_change(data)? {
            None => Ok(Action::Nothing),
            Some((wallet_id, signer)) => Ok(Action::AddSigner { wallet_id, signer }),
        }
    } else if kind == ACTION_REMOVE_SIGNER {
        match read_signer_change(data)? {
            None => Ok(Action::Nothing),
            Some((wallet_id, signer)) => Ok(Action::RemoveSigner { wallet_id, signer }),
        }
    } else if kind == ACTION_ORACLE_ADD_PROVIDER {
        let provider = _decode_address_payload(data, 4)?;
        Ok(Action::OracleAddProvider { provider })
    } else if kind == ACTION_ORACLE_REMOVE_PROVIDER {
        let provider = _decode_address_payload(data, 4)?;
        Ok(Action::OracleRemoveProvider { provider })
    } else if kind == ACTION_ORACLE_SET_MIN_PROVIDERS {
        if data.len() < 8 {
            return Ok(Action::Nothing);
        }
        let (min_providers, _p) = _decode_u32_at(data, 4)?;
        Ok(Action::OracleSetMinProviders { min_providers })
    } else if kind == ACTION_KYC_ADD_VERIFIER {
        let verifier = _decode_address_payload(data, 4)?;
        Ok(Action::KycAddVerifier { verifier })
    } else if kind == ACTION_KYC_REMOVE_VERIFIER {
        let verifier = _decode_address_payload(data, 4)?;
        Ok(Action::KycRemoveVerifier { verifier })
    } else if kind == ACTION_UPGRADE_CONTRACT {
        let (target, p) = _decode_address_at(data, 4)?;
        let wasm_hash = _decode_bytesn32_at(data, p)?;
        Ok(Action::UpgradeContract { target, wasm_hash })
    } else if data.len() >= 17 {
        Ok(Action::SetParam { param_id: data[0], value: signed_at(data, 1) })
    } else {
        Ok(Action::Nothing)
    }
}

} // verus!

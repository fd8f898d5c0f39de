//! How the bytes of a proposal are laid out: each action that can be asked for,
//! told from the bytes that ask for it.
use crate::dao_governance::call_data;
use crate::dao_governance::call_data::{Action, ActionView};
use crate::error::Error;
use crate::strkey;
use crate::types;
use crate::types::{Address, Symbol, WasmHash};
use vstd::prelude::*;
use vstd::utf8;

verus! {

/// The number in the four bytes at a place, the last one weighing most.
pub open spec fn word(data: Seq<u8>, pos: int) -> int {
    data[pos] + 0x100 * data[pos + 1] + 0x1_0000 * data[pos + 2] + 0x100_0000 * data[pos + 3]
}

/// A field as it is written down: its length, and then its bytes.
pub open spec fn written(field: Seq<u8>) -> Seq<u8> {
    seq![field.len() as u8] + field
}

/// Sixteen bytes hold a signed number, the last one weighing most.
pub open spec fn holds(bytes: Seq<u8>, number: int) -> bool {
    &&& bytes.len() == 16
    &&& -0x8000_0000_0000_0000_0000_0000_0000_0000 <= number
        <= 0x7fff_ffff_ffff_ffff_ffff_ffff_ffff_ffff
    &&& number >= 0 ==> types::little_endian(bytes) == number
    &&& number < 0 ==> types::little_endian(bytes) == number
        + 0x1_0000_0000_0000_0000_0000_0000_0000_0000
}

/// A text of at most thirty-two letters, digits and underscores, as bytes.
pub open spec fn plain_name(field: Seq<u8>) -> bool {
    &&& field.len() <= 32
    &&& utf8::valid_utf8(field)
    &&& forall|i: int|
        0 <= i < field.len() ==> {
            let b = #[trigger] field[i];
            ||| 0x30 <= b <= 0x39
            ||| 0x41 <= b <= 0x5a
            ||| 0x61 <= b <= 0x7a
            ||| b == 0x5f
        }
}

pub proof fn lemma_word(data: Seq<u8>, pos: int)
    requires
        0 <= pos,
        pos + 4 <= data.len(),
    ensures
        types::little_endian(data.subrange(pos, pos + 4)) == word(data, pos),
        0 <= word(data, pos) <= u32::MAX,
{
    let a = data.subrange(pos, pos + 4);
    let b = a.drop_first();
    let c = b.drop_first();
    let d = c.drop_first();
    let e = d.drop_first();
    assert(a.first() == data[pos]);
    assert(b.first() == data[pos + 1]);
    assert(c.first() == data[pos + 2]);
    assert(d.first() == data[pos + 3]);
    assert(types::little_endian(e) == 0);
    assert(types::little_endian(d) == d.first() + 256 * types::little_endian(e));
    assert(types::little_endian(c) == c.first() + 256 * types::little_endian(d));
    assert(types::little_endian(b) == b.first() + 256 * types::little_endian(c));
    assert(types::little_endian(a) == a.first() + 256 * types::little_endian(b));
}

pub proof fn lemma_kind(data: Seq<u8>)
    requires
        data.len() >= 4,
    ensures
        call_data::kind(data) == word(data, 0),
{
    lemma_word(data, 0);
    assert(data.take(4) =~= data.subrange(0, 4));
}

proof fn lemma_holds(bytes: Seq<u8>, number: int)
    requires
        holds(bytes, number),
    ensures
        call_data::signed(bytes) == number,
{
}

proof fn lemma_plain_name(field: Seq<u8>)
    requires
        plain_name(field),
    ensures
        call_data::symbol_of(field) == Ok::<Symbol, Error>(Symbol::of(field)),
        Symbol::of(field).text() == field,
{
    assert forall|i: int| 0 <= i < field.len() implies types::symbol_char(#[trigger] field[i]) by {
        let b = field[i];
    }
    Symbol::lemma_text_of(field);
}

// ── Fields ────────────────────────────────────────────────────────

/// A number of four bytes is read where there are four bytes.
pub proof fn law_word(data: Seq<u8>, pos: int)
    requires
        0 <= pos <= data.len(),
    ensures
        pos + 4 <= data.len() ==> (call_data::u32_at(data, pos) matches Ok((n, next)) && n == word(
            data,
            pos,
        ) && next == pos + 4),
        pos + 4 > data.len() ==> call_data::u32_at(data, pos) == Err::<(u32, int), Error>(
            Error::CallDataTruncated,
        ),
        data.len() >= 4 ==> call_data::kind(data) == word(data, 0),
{
    if pos + 4 <= data.len() {
        lemma_word(data, pos);
    }
    if data.len() >= 4 {
        lemma_kind(data);
    }
}

/// A number of sixteen bytes is read where there are sixteen bytes.
pub proof fn law_number(data: Seq<u8>, pos: int, number: int)
    requires
        0 <= pos <= data.len(),
        pos + 16 <= data.len() ==> holds(data.subrange(pos, pos + 16), number),
    ensures
        pos + 16 <= data.len() ==> (call_data::i128_at(data, pos) matches Ok((n, next)) && n
            == number && next == pos + 16),
        pos + 16 > data.len() ==> call_data::i128_at(data, pos) == Err::<(i128, int), Error>(
            Error::CallDataTruncated,
        ),
{
    if pos + 16 <= data.len() {
        lemma_holds(data.subrange(pos, pos + 16), number);
    }
}

/// A written address, symbol or text is read back, and the place behind it; what
/// comes before and after does not matter.
pub proof fn law_fields(before: Seq<u8>, field: Seq<u8>, after: Seq<u8>)
    requires
        field.len() <= 255,
    ensures
        ({
            let data = before + written(field) + after;
            let pos = before.len() as int;
            let next = pos + 1 + field.len();
            &&& match strkey::address(field) {
                Some(address) => call_data::address_at(data, pos) == Ok::<(Address, int), Error>(
                    (address, next),
                ),
                None => call_data::address_at(data, pos) == Err::<(Address, int), Error>(
                    Error::InvalidAddress,
                ),
            }
            &&& plain_name(field) ==> (call_data::symbol_at(data, pos) matches Ok((symbol, place))
                && symbol.text() == field && place == next)
            &&& field.len() > 32 ==> call_data::symbol_at(data, pos) == Err::<
                (Symbol, int),
                Error,
            >(Error::SymbolPayloadTooLong)
            &&& !plain_name(field) ==> call_data::symbol_at(data, pos) is Err
            &&& field.len() <= 80 && utf8::valid_utf8(field) ==> call_data::string_at(data, pos)
                == Ok::<(Seq<char>, int), Error>((utf8::decode_utf8(field), next))
            &&& field.len() <= 80 && !utf8::valid_utf8(field) ==> call_data::string_at(data, pos)
                == Err::<(Seq<char>, int), Error>(Error::InvalidUtf8String)
            &&& field.len() > 80 ==> call_data::string_at(data, pos) == Err::<
                (Seq<char>, int),
                Error,
            >(Error::StringPayloadTooLong)
        }),
{
    lemma_field(before, field, after);
    if plain_name(field) {
        lemma_plain_name(field);
    } else if field.len() <= 32 && utf8::valid_utf8(field) {
        let i = choose|i: int|
            0 <= i < field.len() && !({
                let b = #[trigger] field[i];
                ||| 0x30 <= b <= 0x39
                ||| 0x41 <= b <= 0x5a
                ||| 0x61 <= b <= 0x7a
                ||| b == 0x5f
            });
        assert(!types::symbol_char(field[i]));
    }
}

proof fn lemma_field(before: Seq<u8>, field: Seq<u8>, after: Seq<u8>)
    requires
        field.len() <= 255,
    ensures
        ({
            let data = before + written(field) + after;
            let pos = before.len() as int;
            &&& data[pos] == field.len()
            &&& data.len() == pos + 1 + field.len() + after.len()
            &&& call_data::field_at(data, pos) == Ok::<(Seq<u8>, int), Error>(
                (field, pos + 1 + field.len()),
            )
        }),
{
    let data = before + written(field) + after;
    let pos = before.len() as int;
    assert(data[pos] == written(field)[0]);
    assert(data.subrange(pos + 1, pos + 1 + field.len()) =~= field);
}

/// A field that says it is longer than what is left is not read.
pub proof fn law_short_fields(data: Seq<u8>, pos: int)
    requires
        0 <= pos <= data.len(),
        pos == data.len() || pos + 1 + data[pos] > data.len(),
    ensures
        call_data::address_at(data, pos) == Err::<(Address, int), Error>(Error::CallDataTruncated),
        call_data::symbol_at(data, pos) == Err::<(Symbol, int), Error>(
            if pos < data.len() && data[pos] > 32 {
                Error::SymbolPayloadTooLong
            } else {
                Error::CallDataTruncated
            },
        ),
        call_data::string_at(data, pos) == Err::<(Seq<char>, int), Error>(
            if pos < data.len() && data[pos] > 80 {
                Error::StringPayloadTooLong
            } else {
                Error::CallDataTruncated
            },
        ),
{
}

/// A hash is the thirty-two bytes at a place.
pub proof fn law_hash(data: Seq<u8>, pos: int)
    requires
        0 <= pos <= data.len(),
    ensures
        pos + 32 <= data.len() ==> (call_data::wasm_hash_at(data, pos) matches Ok(h) && h.hi
            == types::big_endian(data.subrange(pos, pos + 16)) && h.lo == types::big_endian(
            data.subrange(pos + 16, pos + 32),
        )),
        pos + 32 > data.len() ==> call_data::wasm_hash_at(data, pos) == Err::<WasmHash, Error>(
            Error::WasmHashTruncated,
        ),
{
    if pos + 32 <= data.len() {
        let all = data.subrange(pos, pos + 32);
        assert(all.take(16) =~= data.subrange(pos, pos + 16));
        assert(all.skip(16) =~= data.subrange(pos + 16, pos + 32));
        types::lemma_sixteen_bytes(all.take(16));
        types::lemma_sixteen_bytes(all.skip(16));
    }
}

// ── Actions ───────────────────────────────────────────────────────

/// Less than four bytes ask for nothing. The kinds that take one address, one
/// number or one symbol read it right behind the kind; the retired kind is
/// refused.
pub proof fn law_short_actions(data: Seq<u8>)
    ensures
        ({
            let r = call_data::decode(data);
            let kind = word(data, 0);
            &&& data.len() < 4 ==> r == Ok::<ActionView, Error>(ActionView::Other(Action::Nothing))
            &&& data.len() >= 4 ==> {
                &&& kind == 2 ==> r == Err::<ActionView, Error>(Error::UpgradeTierRemoved)
                &&& kind == 1 && data.len() >= 8 ==> (r matches Ok(
                    ActionView::Other(Action::Deactivate { partner_id }),
                ) && partner_id == word(data, 4))
                &&& kind == 1 && data.len() < 8 ==> r == Err::<ActionView, Error>(
                    Error::CallDataTruncated,
                )
                &&& kind == 10 && data.len() >= 8 ==> (r matches Ok(
                    ActionView::Other(Action::OracleSetMinProviders { min_providers }),
                ) && min_providers == word(data, 4))
                &&& kind == 10 && data.len() < 8 ==> r == Ok::<ActionView, Error>(
                    ActionView::Other(Action::Nothing),
                )
                &&& kind == 8 ==> r == match call_data::address_at(data, 4) {
                    Ok((a, _)) => Ok(ActionView::Other(Action::OracleAddProvider { provider: a })),
                    Err(e) => Err(e),
                }
                &&& kind == 9 ==> r == match call_data::address_at(data, 4) {
                    Ok((a, _)) => Ok(
                        ActionView::Other(Action::OracleRemoveProvider { provider: a }),
                    ),
                    Err(e) => Err(e),
                }
                &&& kind == 11 ==> r == match call_data::address_at(data, 4) {
                    Ok((a, _)) => Ok(ActionView::Other(Action::KycAddVerifier { verifier: a })),
                    Err(e) => Err(e),
                }
                &&& kind == 12 ==> r == match call_data::address_at(data, 4) {
                    Ok((a, _)) => Ok(ActionView::Other(Action::KycRemoveVerifier { verifier: a })),
                    Err(e) => Err(e),
                }
                &&& kind == 15 ==> r == match call_data::symbol_at(data, 4) {
                    Ok((symbol, _)) => Ok(
                        ActionView::Other(Action::ActivatePartnerAsset { symbol }),
                    ),
                    Err(e) => Err(e),
                }
            }
        }),
{
    if data.len() >= 4 {
        lemma_kind(data);
        law_word(data, 4);
    }
}

/// A kind that there is not asks for nothing, unless there are seventeen bytes:
/// then the first is the number of a parameter, and the others are its value.
pub proof fn law_parameters(data: Seq<u8>, value: int)
    requires
        data.len() >= 4,
        word(data, 0) > 16,
        data.len() >= 17 ==> holds(data.subrange(1, 17), value),
    ensures
        data.len() >= 17 ==> call_data::decode(data) == Ok::<ActionView, Error>(
            ActionView::Other(Action::SetParam { param_id: data[0], value: value as i128 }),
        ),
        data.len() < 17 ==> call_data::decode(data) == Ok::<ActionView, Error>(
            ActionView::Other(Action::Nothing),
        ),
{
    lemma_kind(data);
    if data.len() >= 17 {
        lemma_holds(data.subrange(1, 17), value);
    }
}

/// The ratios are adjusted by the two numbers behind the kind, as many of them
/// as there are.
pub proof fn law_adjust_ratio(data: Seq<u8>, ratio: int, penalty: int)
    requires
        data.len() >= 4,
        word(data, 0) == 4,
        data.len() >= 20 ==> holds(data.subrange(4, 20), ratio),
        data.len() >= 36 ==> holds(data.subrange(20, 36), penalty),
    ensures
        call_data::decode(data) == Ok::<ActionView, Error>(
            ActionView::Other(
                Action::AdjustRatio {
                    new_cr: if data.len() >= 20 {
                        Some(ratio as i128)
                    } else {
                        None
                    },
                    new_penalty: if data.len() >= 36 {
                        Some(penalty as i128)
                    } else {
                        None
                    },
                },
            ),
        ),
{
    lemma_kind(data);
    if data.len() >= 20 {
        lemma_holds(data.subrange(4, 20), ratio);
    }
    if data.len() >= 36 {
        lemma_holds(data.subrange(20, 36), penalty);
    }
}

/// A partner's share is set by the partner's number and the share.
pub proof fn law_adjust_earnings(data: Seq<u8>, share: int)
    requires
        data.len() >= 4,
        word(data, 0) == 3,
        data.len() >= 24 ==> holds(data.subrange(8, 24), share),
    ensures
        data.len() >= 24 ==> call_data::decode(data) == Ok::<ActionView, Error>(
            ActionView::Other(
                Action::AdjustEarnings {
                    partner_id: word(data, 4) as u32,
                    new_share: share as i128,
                },
            ),
        ),
        data.len() < 24 ==> call_data::decode(data) == Err::<ActionView, Error>(
            Error::CallDataTruncated,
        ),
{
    lemma_kind(data);
    if data.len() >= 8 {
        lemma_word(data, 4);
    }
    if data.len() >= 24 {
        lemma_holds(data.subrange(8, 24), share);
    }
}

/// A token is let in as collateral, or no more, by its address and a byte.
pub proof fn law_set_collateral(head: Seq<u8>, token: Seq<u8>, after: Seq<u8>)
    requires
        head.len() == 4,
        word(head, 0) == 13,
        token.len() <= 255,
        strkey::address(token) is Some,
    ensures
        ({
            let data = head + written(token) + after;
            &&& after.len() > 0 ==> call_data::decode(data) == Ok::<ActionView, Error>(
                ActionView::Other(
                    Action::SetCollateralAllowed {
                        token: strkey::address(token)->0,
                        allowed: after[0] != 0,
                    },
                ),
            )
            &&& after.len() == 0 ==> call_data::decode(data) == Err::<ActionView, Error>(
                Error::CallDataTruncated,
            )
        }),
{
    let data = head + written(token) + after;
    law_fields(head, token, after);
    lemma_head(head, written(token) + after);
    assert(data =~= head + (written(token) + after));
    lemma_field(head, token, after);
    if after.len() > 0 {
        assert(data[4int + 1 + token.len()] == after[0]);
    }
}

proof fn lemma_head(head: Seq<u8>, rest: Seq<u8>)
    requires
        head.len() == 4,
    ensures
        call_data::kind(head + rest) == word(head, 0),
        (head + rest).len() >= 4,
{
    lemma_kind(head + rest);
}

/// A partner is registered by the owner's address and a name.
pub proof fn law_register_partner(head: Seq<u8>, owner: Seq<u8>, name: Seq<u8>, after: Seq<u8>)
    requires
        head.len() == 4,
        word(head, 0) == 14,
        owner.len() <= 255,
        strkey::address(owner) is Some,
        name.len() <= 80,
        utf8::valid_utf8(name),
    ensures
        call_data::decode(head + written(owner) + written(name) + after) == Ok::<
            ActionView,
            Error,
        >(
            ActionView::RegisterPartner {
                owner: strkey::address(owner)->0,
                name: utf8::decode_utf8(name),
            },
        ),
{
    let data = head + written(owner) + written(name) + after;
    law_fields(head, owner, written(name) + after);
    assert(data =~= head + written(owner) + (written(name) + after));
    law_fields(head + written(owner), name, after);
    lemma_head(head, written(owner) + written(name) + after);
    assert(data =~= head + (written(owner) + written(name) + after));
}

/// Code is replaced by the target's address and the thirty-two bytes of a hash.
pub proof fn law_upgrade(head: Seq<u8>, target: Seq<u8>, hash: Seq<u8>, after: Seq<u8>)
    requires
        head.len() == 4,
        word(head, 0) == 16,
        target.len() <= 255,
        strkey::address(target) is Some,
        hash.len() == 32,
    ensures
        call_data::decode(head + written(target) + hash + after) matches Ok(
            ActionView::Other(Action::UpgradeContract { target: t, wasm_hash }),
        ) && {
            &&& Some(t) == strkey::address(target)
            &&& wasm_hash.hi == types::big_endian(hash.take(16))
            &&& wasm_hash.lo == types::big_endian(hash.skip(16))
        },
{
    let data = head + written(target) + hash + after;
    law_fields(head, target, hash + after);
    assert(data =~= head + written(target) + (hash + after));
    let p = 4int + 1 + target.len();
    law_hash(data, p);
    assert(data.subrange(p, p + 16) =~= hash.take(16));
    assert(data.subrange(p + 16, p + 32) =~= hash.skip(16));
    lemma_head(head, written(target) + hash + after);
    assert(data =~= head + (written(target) + hash + after));
}

/// A signer joins or leaves a wallet by the wallet's number and an address; what
/// is cut short asks for nothing.
pub proof fn law_signer_change(head: Seq<u8>, wallet: Seq<u8>, signer: Seq<u8>, after: Seq<u8>)
    requires
        head.len() == 4,
        word(head, 0) == 6 || word(head, 0) == 7,
        wallet.len() == 4,
        signer.len() <= 255,
        strkey::address(signer) is Some,
    ensures
        ({
            let wallet_id = word(wallet, 0) as u32;
            let who = strkey::address(signer)->0;
            let r = call_data::decode(head + wallet + written(signer) + after);
            &&& word(head, 0) == 6 ==> r == Ok::<ActionView, Error>(
                ActionView::Other(Action::AddSigner { wallet_id, signer: who }),
            )
            &&& word(head, 0) == 7 ==> r == Ok::<ActionView, Error>(
                ActionView::Other(Action::RemoveSigner { wallet_id, signer: who }),
            )
            &&& call_data::decode(head + wallet) == Ok::<ActionView, Error>(
                ActionView::Other(Action::Nothing),
            )
        }),
{
    let data = head + wallet + written(signer) + after;
    law_fields(head + wallet, signer, after);
    lemma_field(head + wallet, signer, after);
    assert(data =~= (head + wallet) + written(signer) + after);
    lemma_word(data, 4);
    lemma_word(wallet, 0);
    assert(data.subrange(4, 8) =~= wallet);
    assert(wallet.subrange(0, 4) =~= wallet);
    lemma_head(head, wallet + written(signer) + after);
    assert(data =~= head + (wallet + written(signer) + after));
    lemma_head(head, wallet);
}

proof fn lemma_joined(a: Seq<u8>, b: Seq<u8>, c: Seq<u8>)
    ensures
        a + b + c == a + (b + c),
{
    assert(a + b + c =~= a + (b + c));
}

proof fn lemma_read_address(data: Seq<u8>, before: Seq<u8>, field: Seq<u8>, after: Seq<u8>)
    requires
        data == before + written(field) + after,
        field.len() <= 255,
        strkey::address(field) is Some,
    ensures
        call_data::address_at(data, before.len() as int) == Ok::<(Address, int), Error>(
            (strkey::address(field)->0, (before + written(field)).len() as int),
        ),
{
    law_fields(before, field, after);
}

proof fn lemma_read_symbol(data: Seq<u8>, before: Seq<u8>, field: Seq<u8>, after: Seq<u8>)
    requires
        data == before + written(field) + after,
        plain_name(field),
    ensures
        call_data::symbol_at(data, before.len() as int) == Ok::<(Symbol, int), Error>(
            (Symbol::of(field), (before + written(field)).len() as int),
        ),
{
    lemma_plain_name(field);
    lemma_field(before, field, after);
}

proof fn lemma_read_number(data: Seq<u8>, before: Seq<u8>, all: Seq<u8>, after: Seq<u8>, k: int, n: int)
    requires
        data == before + all + after,
        0 <= k,
        k + 16 <= all.len(),
        holds(all.subrange(k, k + 16), n),
    ensures
        before.len() + all.len() <= data.len(),
        call_data::signed(data.subrange(before.len() + k, before.len() + k + 16)) == n,
{
    assert(data.subrange(before.len() + k, before.len() + k + 16) =~= all.subrange(k, k + 16));
    lemma_holds(all.subrange(k, k + 16), n);
}

/// A pool is created by its name, the addresses of its two tokens and its fee.
pub proof fn law_create_pool(
    head: Seq<u8>,
    name: Seq<u8>,
    token_a: Seq<u8>,
    token_b: Seq<u8>,
    fee: Seq<u8>,
    after: Seq<u8>,
    tier: int,
)
    requires
        head.len() == 4,
        word(head, 0) == 5,
        plain_name(name),
        token_a.len() <= 255,
        token_b.len() <= 255,
        strkey::address(token_a) is Some,
        strkey::address(token_b) is Some,
        holds(fee, tier),
    ensures
        call_data::decode(
            head + written(name) + written(token_a) + written(token_b) + fee + after,
        ) == Ok::<ActionView, Error>(
            ActionView::Other(
                Action::CreatePool {
                    pool_id: Symbol::of(name),
                    token_a: strkey::address(token_a)->0,
                    token_b: strkey::address(token_b)->0,
                    fee_tier: tier as i128,
                },
            ),
        ),
        Symbol::of(name).text() == name,
{
    let data = head + written(name) + written(token_a) + written(token_b) + fee + after;
    let one = head + written(name);
    let two = one + written(token_a);
    let three = two + written(token_b);
    let r3 = fee + after;
    let r2 = written(token_b) + r3;
    let r1 = written(token_a) + r2;
    lemma_joined(three, fee, after);
    lemma_joined(two, written(token_b), r3);
    lemma_joined(one, written(token_a), r2);
    lemma_joined(head, written(name), r1);
    lemma_read_symbol(data, head, name, r1);
    lemma_read_address(data, one, token_a, r2);
    lemma_read_address(data, two, token_b, r3);
    assert(fee.subrange(0, 16) =~= fee);
    lemma_read_number(data, three, fee, after, 0, tier);
    lemma_head(head, written(name) + r1);
    lemma_plain_name(name);
}

proof fn lemma_deploy_asset(
    data: Seq<u8>,
    a: Symbol,
    b: Address,
    c: Symbol,
    d: Address,
    e: Symbol,
    places: Seq<int>,
    values: Seq<int>,
)
    requires
        data.len() >= 4,
        call_data::kind(data) == 0,
        places.len() == 5,
        call_data::symbol_at(data, 4) == Ok::<(Symbol, int), Error>((a, places[0])),
        call_data::address_at(data, places[0]) == Ok::<(Address, int), Error>((b, places[1])),
        call_data::symbol_at(data, places[1]) == Ok::<(Symbol, int), Error>((c, places[2])),
        call_data::address_at(data, places[2]) == Ok::<(Address, int), Error>((d, places[3])),
        call_data::symbol_at(data, places[3]) == Ok::<(Symbol, int), Error>((e, places[4])),
        places[4] + 80 <= data.len(),
        values.len() == 5,
        call_data::signed(data.subrange(places[4], places[4] + 16)) == values[0],
        call_data::signed(data.subrange(places[4] + 16, places[4] + 32)) == values[1],
        call_data::signed(data.subrange(places[4] + 32, places[4] + 48)) == values[2],
        call_data::signed(data.subrange(places[4] + 48, places[4] + 64)) == values[3],
        call_data::signed(data.subrange(places[4] + 64, places[4] + 80)) == values[4],
    ensures
        call_data::decode(data) == Ok::<ActionView, Error>(
            ActionView::Other(
                Action::DeployAsset {
                    symbol: a,
                    token: b,
                    oracle_sym: c,
                    coll_token: d,
                    coll_oracle: e,
                    min_cr: values[0] as i128,
                    liq_cr: values[1] as i128,
                    liq_penalty: values[2] as i128,
                    stab_fee_bps: values[3] as i128,
                    debt_ceiling: values[4] as i128,
                },
            ),
        ),
{
}

/// A market is opened by its symbol, its token, the name of its price, the
/// collateral token, the name of that token's price, and five numbers: the least
/// ratio, the ratio at which vaults are liquidated, the penalty, the fee and the
/// ceiling.
#[verifier::rlimit(40)]
pub proof fn law_deploy_asset(
    head: Seq<u8>,
    symbol: Seq<u8>,
    token: Seq<u8>,
    price: Seq<u8>,
    coll: Seq<u8>,
    coll_price: Seq<u8>,
    numbers: Seq<u8>,
    after: Seq<u8>,
    values: Seq<int>,
)
    requires
        head.len() == 4,
        word(head, 0) == 0,
        plain_name(symbol),
        plain_name(price),
        plain_name(coll_price),
        token.len() <= 255,
        coll.len() <= 255,
        strkey::address(token) is Some,
        strkey::address(coll) is Some,
        numbers.len() == 80,
        values.len() == 5,
        holds(numbers.subrange(0, 16), values[0]),
        holds(numbers.subrange(16, 32), values[1]),
        holds(numbers.subrange(32, 48), values[2]),
        holds(numbers.subrange(48, 64), values[3]),
        holds(numbers.subrange(64, 80), values[4]),
    ensures
        call_data::decode(
            head + written(symbol) + written(token) + written(price) + written(coll) + written(
                coll_price,
            ) + numbers + after,
        ) == Ok::<ActionView, Error>(
            ActionView::Other(
                Action::DeployAsset {
                    symbol: Symbol::of(symbol),
                    token: strkey::address(token)->0,
                    oracle_sym: Symbol::of(price),
                    coll_token: strkey::address(coll)->0,
                    coll_oracle: Symbol::of(coll_price),
                    min_cr: values[0] as i128,
                    liq_cr: values[1] as i128,
                    liq_penalty: values[2] as i128,
                    stab_fee_bps: values[3] as i128,
                    debt_ceiling: values[4] as i128,
                },
            ),
        ),
{
    let data = head + written(symbol) + written(token) + written(price) + written(coll) + written(
        coll_price,
    ) + numbers + after;
    let one = head + written(symbol);
    let two = one + written(token);
    let three = two + written(price);
    let four = three + written(coll);
    let five = four + written(coll_price);
    let r5 = numbers + after;
    let r4 = written(coll_price) + r5;
    let r3 = written(coll) + r4;
    let r2 = written(price) + r3;
    let r1 = written(token) + r2;
    lemma_joined(five, numbers, after);
    lemma_joined(four, written(coll_price), r5);
    lemma_joined(three, written(coll), r4);
    lemma_joined(two, written(price), r3);
    lemma_joined(one, written(token), r2);
    lemma_joined(head, written(symbol), r1);
    lemma_read_symbol(data, head, symbol, r1);
    lemma_read_address(data, one, token, r2);
    lemma_read_symbol(data, two, price, r3);
    lemma_read_address(data, three, coll, r4);
    lemma_read_symbol(data, four, coll_price, r5);
    lemma_read_number(data, five, numbers, after, 0, values[0]);
    lemma_read_number(data, five, numbers, after, 16, values[1]);
    lemma_read_number(data, five, numbers, after, 32, values[2]);
    lemma_read_number(data, five, numbers, after, 48, values[3]);
    lemma_read_number(data, five, numbers, after, 64, values[4]);
    lemma_head(head, written(symbol) + r1);
    lemma_deploy_asset(
        data,
        Symbol::of(symbol),
        strkey::address(token)->0,
        Symbol::of(price),
        strkey::address(coll)->0,
        Symbol::of(coll_price),
        seq![
            one.len() as int,
            two.len() as int,
            three.len() as int,
            four.len() as int,
            five.len() as int,
        ],
        values,
    );
}

} // verus!

//! What holds of the token over several calls.
use crate::error;
use crate::error::Error;
use crate::sep41_token::model::{Call, TokenState};
use crate::sep41_token::Effect;
use crate::sums;
use crate::types::{Address, Context};
use vstd::prelude::*;

verus! {

/// Changing one balance changes the sum by as much.
proof fn lemma_balance(s: TokenState, account: Address, balance: i128)
    requires
        s.balances.dom().finite(),
    ensures
        s.balances.insert(account, balance).dom().finite(),
        sums::total(s.balances.insert(account, balance), |a: Address, b: i128| b as int)
            == sums::total(s.balances, |a: Address, b: i128| b as int) + balance - s.balance(
            account,
        ),
{
    sums::lemma_total_insert(s.balances, |a: Address, b: i128| b as int, account, balance);
}

/// Moving an amount that is not negative keeps the token sound.
proof fn lemma_moved(s: TokenState, from: Address, to: Address, amount: i128)
    requires
        s.sound(),
        amount >= 0,
        s.moved(from, to, amount) is Ok,
    ensures
        s.moved(from, to, amount)->Ok_0.sound(),
{
    let mid = s.spent(from, amount)->Ok_0;
    let t = s.moved(from, to, amount)->Ok_0;
    lemma_balance(s, from, mid.balances[from]);
    lemma_balance(mid, to, t.balances[to]);
    assert forall|a: Address| #[trigger] t.balances.contains_key(a) implies t.balances[a] >= 0 by {
        if a != from && a != to {
            assert(s.balances.contains_key(a));
        }
    }
}

/// Destroying an amount that is not negative keeps the token sound.
proof fn lemma_burnt(s: TokenState, from: Address, amount: i128)
    requires
        s.sound(),
        amount >= 0,
        s.burnt(from, amount) is Ok,
    ensures
        s.burnt(from, amount)->Ok_0.sound(),
{
    let t = s.burnt(from, amount)->Ok_0;
    lemma_balance(s, from, t.balances[from]);
    assert forall|a: Address| #[trigger] t.balances.contains_key(a) implies t.balances[a] >= 0 by {
        if a != from {
            assert(s.balances.contains_key(a));
        }
    }
}

/// Using up part of an allowance keeps the token sound.
proof fn lemma_used(s: TokenState, from: Address, spender: Address, amount: i128)
    requires
        s.sound(),
        s.used(from, spender, amount) is Ok,
    ensures
        s.used(from, spender, amount)->Ok_0.sound(),
{
    let t = s.used(from, spender, amount)->Ok_0;
    assert forall|k: (Address, Address)| #[trigger]
        t.allowances.contains_key(k) implies t.allowances[k] >= 0 by {
        if k != (from, spender) {
            assert(s.allowances.contains_key(k));
        }
    }
    assert forall|a: Address| #[trigger] t.balances.contains_key(a) implies t.balances[a] >= 0 by {
        assert(s.balances.contains_key(a));
    }
}

/// The token starts sound.
pub proof fn law_starts_sound()
    ensures
        TokenState::blank().sound(),
{
}

/// Whatever call comes, and whether it is refused or not, the balances add up
/// to the supply and none of them is negative.
pub proof fn law_stays_sound(s: TokenState, env: Context, call: Call)
    requires
        s.sound(),
    ensures
        s.after(env, call).sound(),
{
    let t = s.after(env, call);
    match call {
        Call::Transfer { from, to, amount } => {
            if s.transfer(from, to, amount) is Ok {
                lemma_moved(s, from, to, amount);
            }
        },
        Call::TransferFrom { spender, from, to, amount } => {
            if s.transfer_from(spender, from, to, amount) is Ok {
                lemma_used(s, from, spender, amount);
                lemma_moved(s.used(from, spender, amount)->Ok_0, from, to, amount);
            }
        },
        Call::Approve { from, spender, amount, expiration_ledger } => {
            assert forall|k: (Address, Address)| #[trigger]
                t.allowances.contains_key(k) implies t.allowances[k] >= 0 by {
                if k != (from, spender) {
                    assert(s.allowances.contains_key(k));
                }
            }
        },
        Call::Mint { to, amount } => {
            if s.mint(to, amount) is Ok {
                lemma_balance(s, to, t.balances[to]);
                assert forall|a: Address| #[trigger] t.balances.contains_key(a) implies t.balances[a]
                    >= 0 by {
                    if a != to {
                        assert(s.balances.contains_key(a));
                    }
                }
            }
        },
        Call::Burn { from, amount } => {
            if s.burn(from, amount) is Ok {
                lemma_burnt(s, from, amount);
            }
        },
        Call::BurnFrom { spender, from, amount } => {
            if s.burn_from(spender, from, amount) is Ok {
                lemma_used(s, from, spender, amount);
                lemma_burnt(s.used(from, spender, amount)->Ok_0, from, amount);
            }
        },
        Call::Clawback { admin, from, amount } => {
            if s.clawback(admin, from, amount) is Ok {
                lemma_moved(s, from, admin, amount);
            }
        },
        Call::Initialize { .. } => {},
        Call::SetFrozen { .. } => {},
        Call::SetPaused { .. } => {},
        Call::SetAdmin { .. } => {},
        Call::SetMinter { .. } => {},
    }
}

/// A transfer takes from one account what it gives to the other, and leaves
/// everybody else and the supply as they are.
pub proof fn law_transfer_moves(
    s: TokenState,
    from: Address,
    to: Address,
    amount: i128,
    other: Address,
)
    requires
        other != from,
        other != to,
    ensures
        s.transfer(from, to, amount) matches Ok((t, effects)) ==> {
            &&& from != to ==> t.balance(from) == s.balance(from) - amount && t.balance(to)
                == s.balance(to) + amount
            &&& from == to ==> t.balance(from) == s.balance(from)
            &&& t.balance(other) == s.balance(other)
            &&& t.total_supply == s.total_supply
            &&& effects[0] == Effect::RequireAuth(from)
        },
{
}

/// A spender moves no more than the allowance, which falls by what is moved.
pub proof fn law_allowance(
    s: TokenState,
    spender: Address,
    from: Address,
    to: Address,
    amount: i128,
)
    ensures
        s.transfer_from(spender, from, to, amount) matches Ok((t, effects)) ==> {
            &&& amount <= s.allowance(from, spender)
            &&& t.allowance(from, spender) == s.allowance(from, spender) - amount
            &&& t.balances == s.transfer(from, to, amount)->Ok_0.0.balances
            &&& effects[0] == Effect::RequireAuth(spender)
        },
{
    let used = s.used(from, spender, amount);
    if s.transfer_from(spender, from, to, amount) is Ok {
        let u = used->Ok_0;
        assert(u.spent(from, amount) is Ok);
        assert(s.spent(from, amount) is Ok);
        assert(u.spent(from, amount)->Ok_0.balances == s.spent(from, amount)->Ok_0.balances);
        assert(u.moved(from, to, amount) is Ok);
        assert(s.moved(from, to, amount) is Ok);
    }
}

/// What an owner approves is the allowance, whatever it was before, until the
/// spender uses it.
pub proof fn law_approve(
    s: TokenState,
    env: Context,
    from: Address,
    spender: Address,
    amount: i128,
    expiration_ledger: u32,
)
    ensures
        s.approve(env, from, spender, amount, expiration_ledger) matches Ok((t, effects)) ==> {
            &&& t.allowance(from, spender) == amount
            &&& t == (TokenState { allowances: t.allowances, ..s })
            &&& expiration_ledger >= env.sequence
            &&& effects[0] == Effect::RequireAuth(from)
        },
{
}

/// A balance falls only on the word of its owner, of a spender within the
/// allowance, or of the admin where the account is frozen.
pub proof fn law_balances_are_safe(s: TokenState, env: Context, call: Call, account: Address)
    requires
        s.sound(),
    ensures
        s.after(env, call).balance(account) < s.balance(account) ==> match call {
            Call::Transfer { from, .. } => from == account,
            Call::TransferFrom { spender, from, .. } => from == account && s.balance(account)
                - s.after(env, call).balance(account) <= s.allowance(account, spender),
            Call::Burn { from, .. } => from == account,
            Call::BurnFrom { spender, from, .. } => from == account && s.balance(account)
                - s.after(env, call).balance(account) <= s.allowance(account, spender),
            Call::Clawback { admin, from, .. } => {
                &&& from == account
                &&& s.is_frozen(account)
                &&& s.admin == Some(admin)
            },
            _ => false,
        },
{
    match call {
        Call::Initialize { .. } => {},
        Call::Transfer { .. } => {},
        Call::TransferFrom { .. } => {},
        Call::Approve { .. } => {},
        Call::Mint { .. } => {},
        Call::Burn { .. } => {},
        Call::BurnFrom { .. } => {},
        Call::SetFrozen { .. } => {},
        Call::Clawback { .. } => {},
        Call::SetPaused { .. } => {},
        Call::SetAdmin { .. } => {},
        Call::SetMinter { .. } => {},
    }
}

/// While the token is paused nothing is transferred, minted or burnt by its
/// owner.
pub proof fn law_paused(
    s: TokenState,
    from: Address,
    to: Address,
    spender: Address,
    amount: i128,
)
    requires
        s.paused,
    ensures
        error::refused(s.transfer(from, to, amount), Error::TokenPaused),
        error::refused(s.transfer_from(spender, from, to, amount), Error::TokenPaused),
        error::refused(s.burn(from, amount), Error::TokenPaused),
        s.mint(to, amount) is Err,
{
}

/// A frozen account neither sends nor receives, and gets nothing minted.
pub proof fn law_frozen(
    s: TokenState,
    frozen: Address,
    other: Address,
    spender: Address,
    amount: i128,
)
    requires
        s.is_frozen(frozen),
    ensures
        s.transfer(frozen, other, amount) is Err,
        s.transfer(other, frozen, amount) is Err,
        s.transfer_from(spender, frozen, other, amount) is Err,
        s.transfer_from(spender, other, frozen, amount) is Err,
        s.mint(frozen, amount) is Err,
{
}

/// Tokens are clawed back only from frozen accounts, only by the admin and
/// only to the admin.
pub proof fn law_clawback(s: TokenState, admin: Address, from: Address, amount: i128)
    ensures
        s.clawback(admin, from, amount) matches Ok((t, effects)) ==> {
            &&& s.is_frozen(from)
            &&& s.admin == Some(admin)
            &&& 0 < amount <= s.balance(from)
            &&& t.total_supply == s.total_supply
            &&& from != admin ==> t.balance(from) == s.balance(from) - amount && t.balance(admin)
                == s.balance(admin) + amount
            &&& effects[0] == Effect::RequireAuth(admin)
        },
{
}

/// Only the engine that is stored creates tokens: the supply grows by no other
/// call than a mint, which needs the engine's word and comes at no time while
/// the token is paused.
pub proof fn law_only_the_engine_creates(s: TokenState, env: Context, call: Call)
    requires
        s.sound(),
    ensures
        s.after(env, call).total_supply > s.total_supply ==> {
            &&& call matches Call::Mint { to, amount }
            &&& s.mint(to, amount) matches Ok((_, effects))
            &&& s.minter is Some && effects[0] == Effect::RequireAuth(s.minter->0)
            &&& !s.paused
            &&& s.after(env, call).total_supply == s.total_supply + amount
        },
{
    match call {
        Call::Initialize { .. } => {},
        Call::Transfer { .. } => {},
        Call::TransferFrom { .. } => {},
        Call::Approve { .. } => {},
        Call::Mint { .. } => {},
        Call::Burn { .. } => {},
        Call::BurnFrom { .. } => {},
        Call::SetFrozen { .. } => {},
        Call::Clawback { .. } => {},
        Call::SetPaused { .. } => {},
        Call::SetAdmin { .. } => {},
        Call::SetMinter { .. } => {},
    }
}

/// A mint needs the word of the engine that is stored, and adds what it creates
/// to the balance and to the supply.
pub proof fn law_mint(s: TokenState, to: Address, amount: i128)
    ensures
        s.mint(to, amount) matches Ok((t, effects)) ==> {
            &&& s.minter is Some
            &&& effects[0] == Effect::RequireAuth(s.minter->0)
            &&& t.balance(to) == s.balance(to) + amount
            &&& t.total_supply == s.total_supply + amount
        },
{
}

/// Burning what was minted gives the balances and the supply back.
pub proof fn law_burning_undoes_minting(s: TokenState, to: Address, amount: i128)
    requires
        s.sound(),
    ensures
        s.mint(to, amount) matches Ok((t, _)) ==> (t.burn(to, amount) matches Ok((u, _))
            && u.total_supply == s.total_supply && u.balance(to) == s.balance(to)),
{
    if s.mint(to, amount) is Ok {
        let t = s.mint(to, amount)->Ok_0.0;
        assert(s.balance(to) >= 0);
        assert(t.spent(to, amount) is Ok);
    }
}

/// The roles, the pause and who is frozen change only on the admin's word.
pub proof fn law_admin(s: TokenState, env: Context, call: Call)
    requires
        s.admin is Some,
    ensures
        ({
            let t = s.after(env, call);
            (t.admin != s.admin || t.minter != s.minter || t.paused != s.paused || t.frozen
                != s.frozen) ==> match call {
                Call::SetFrozen { admin, .. } => Some(admin) == s.admin,
                Call::SetPaused { admin, .. } => Some(admin) == s.admin,
                Call::SetAdmin { current, .. } => Some(current) == s.admin,
                Call::SetMinter { admin, .. } => Some(admin) == s.admin,
                _ => false,
            }
        }),
{
    match call {
        Call::Initialize { .. } => {},
        Call::Transfer { .. } => {},
        Call::TransferFrom { .. } => {},
        Call::Approve { .. } => {},
        Call::Mint { .. } => {},
        Call::Burn { .. } => {},
        Call::BurnFrom { .. } => {},
        Call::SetFrozen { .. } => {},
        Call::Clawback { .. } => {},
        Call::SetPaused { .. } => {},
        Call::SetAdmin { .. } => {},
        Call::SetMinter { .. } => {},
    }
}

} // verus!

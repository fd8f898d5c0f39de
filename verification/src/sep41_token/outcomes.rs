//! What the calls on the token move, told from the balances, the allowances and
//! the supply that it stores.
use crate::arith;
use crate::error::Error;
use crate::sep41_token::model::TokenState;
use crate::sep41_token::{
    ApproveEvent, BurnEvent, ClawbackEvent, Effect, FreezeEvent, MintEvent, TransferEvent,
};
use crate::sums;
use crate::types::{Address, Context};
use vstd::prelude::*;

verus! {

/// The account is marked frozen.
pub open spec fn locked(s: TokenState, account: Address) -> bool {
    s.frozen.contains_key(account) && s.frozen[account]
}

/// The balances with an amount moved from one account to another. To move it to
/// the account that it comes from leaves what the account holds.
pub open spec fn shifted(
    balances: Map<Address, i128>,
    from: Address,
    to: Address,
    amount: i128,
) -> Map<Address, i128> {
    if from == to {
        balances.insert(from, sums::amount_at(balances, from) as i128)
    } else {
        balances.insert(from, (sums::amount_at(balances, from) - amount) as i128).insert(
            to,
            (sums::amount_at(balances, to) + amount) as i128,
        )
    }
}

/// Tokens move on the word of their owner: what leaves one account arrives in
/// the other, and nothing else changes. Not while the token is paused, not
/// where either account is frozen, and not more than the owner has.
pub proof fn law_transfer(s: TokenState, from: Address, to: Address, amount: i128)
    ensures
        s.transfer(from, to, amount) is Ok <==> {
            &&& !s.paused
            &&& !locked(s, from)
            &&& !locked(s, to)
            &&& 0 < amount <= sums::amount_at(s.balances, from)
            &&& from != to ==> arith::fits(sums::amount_at(s.balances, to) + amount)
        },
        s.transfer(from, to, amount) matches Ok((t, effects)) ==> {
            &&& t == (TokenState { balances: shifted(s.balances, from, to, amount), ..s })
            &&& effects == seq![
                Effect::RequireAuth(from),
                Effect::Transfer(TransferEvent { from, to, amount }),
            ]
        },
        s.transfer(from, to, amount) matches Err(e) ==> e == (if s.paused {
            Error::TokenPaused
        } else if locked(s, from) || locked(s, to) {
            Error::AccountFrozen
        } else if amount <= 0 {
            Error::AmountNotPositive
        } else if sums::amount_at(s.balances, from) < amount {
            Error::InsufficientBalance
        } else {
            Error::Arithmetic
        }),
{
}

/// A spender moves tokens on its own word, within what the owner lets it move;
/// the allowance shrinks by what was moved. All that a transfer asks is asked.
pub proof fn law_transfer_from(
    s: TokenState,
    spender: Address,
    from: Address,
    to: Address,
    amount: i128,
)
    ensures
        s.transfer_from(spender, from, to, amount) is Ok <==> {
            &&& s.transfer(from, to, amount) is Ok
            &&& amount <= sums::amount_at(s.allowances, (from, spender))
        },
        s.transfer_from(spender, from, to, amount) matches Ok((t, effects)) ==> {
            &&& t == (TokenState {
                balances: shifted(s.balances, from, to, amount),
                allowances: s.allowances.insert(
                    (from, spender),
                    (sums::amount_at(s.allowances, (from, spender)) - amount) as i128,
                ),
                ..s
            })
            &&& effects == seq![
                Effect::RequireAuth(spender),
                Effect::Transfer(TransferEvent { from, to, amount }),
            ]
        },
        !s.paused && !locked(s, from) && !locked(s, to) && amount > 0 && amount > sums::amount_at(
            s.allowances,
            (from, spender),
        ) ==> s.transfer_from(spender, from, to, amount) == Err::<
            (TokenState, Seq<Effect>),
            Error,
        >(Error::AllowanceExceeded),
{
}

/// An allowance is set, whatever it was, and is kept until the ledger that the
/// owner names, which must not be past.
pub proof fn law_approval(
    s: TokenState,
    env: Context,
    from: Address,
    spender: Address,
    amount: i128,
    expiration_ledger: u32,
)
    ensures
        ({
            let step = s.approve(env, from, spender, amount, expiration_ledger);
            &&& step is Ok <==> amount >= 0 && expiration_ledger >= env.sequence
            &&& step matches Ok((t, effects)) ==> {
                &&& t == (TokenState {
                    allowances: s.allowances.insert((from, spender), amount),
                    ..s
                })
                &&& effects == seq![
                    Effect::RequireAuth(from),
                    Effect::ExtendAllowance {
                        from,
                        spender,
                        threshold: 0,
                        extend_to: expiration_ledger,
                    },
                    Effect::Approve(ApproveEvent { from, spender, amount, expiration_ledger }),
                ]
            }
            &&& step matches Err(e) ==> e == (if amount < 0 {
                Error::AmountNegative
            } else {
                Error::ExpirationInPast
            })
        }),
{
}

/// New tokens come on the word of the stored minter: the account has so much
/// more, and there are so many more in all.
pub proof fn law_minting(s: TokenState, to: Address, amount: i128)
    ensures
        s.mint(to, amount) is Ok <==> {
            &&& s.minter is Some
            &&& !s.paused
            &&& !locked(s, to)
            &&& amount > 0
            &&& arith::fits(sums::amount_at(s.balances, to) + amount)
            &&& arith::fits(s.total_supply + amount)
        },
        s.mint(to, amount) matches Ok((t, effects)) ==> {
            &&& t == (TokenState {
                balances: s.balances.insert(
                    to,
                    (sums::amount_at(s.balances, to) + amount) as i128,
                ),
                total_supply: (s.total_supply + amount) as i128,
                ..s
            })
            &&& effects == seq![
                Effect::RequireAuth(s.minter->0),
                Effect::Mint(MintEvent { to, amount }),
            ]
        },
        s.mint(to, amount) matches Err(e) ==> e == (if s.minter is None {
            Error::NotInitialised
        } else if s.paused {
            Error::TokenPaused
        } else if locked(s, to) {
            Error::AccountFrozen
        } else if amount <= 0 {
            Error::AmountNotPositive
        } else {
            Error::Arithmetic
        }),
{
}

/// Tokens are destroyed on the word of their owner: the account has so much
/// less, and there are so many fewer in all.
pub proof fn law_burning(s: TokenState, from: Address, amount: i128)
    ensures
        s.burn(from, amount) is Ok <==> {
            &&& !s.paused
            &&& 0 < amount <= sums::amount_at(s.balances, from)
            &&& arith::fits(s.total_supply - amount)
        },
        s.burn(from, amount) matches Ok((t, effects)) ==> {
            &&& t == (TokenState {
                balances: s.balances.insert(
                    from,
                    (sums::amount_at(s.balances, from) - amount) as i128,
                ),
                total_supply: (s.total_supply - amount) as i128,
                ..s
            })
            &&& effects == seq![
                Effect::RequireAuth(from),
                Effect::Burn(BurnEvent { from, amount }),
            ]
        },
        s.burn(from, amount) matches Err(e) ==> e == (if s.paused {
            Error::TokenPaused
        } else if amount <= 0 {
            Error::AmountNotPositive
        } else if sums::amount_at(s.balances, from) < amount {
            Error::InsufficientBalance
        } else {
            Error::Arithmetic
        }),
{
}

/// A spender destroys tokens on its own word, within what the owner lets it
/// move; the allowance shrinks by as much. A pause does not stop this.
pub proof fn law_burning_from(s: TokenState, spender: Address, from: Address, amount: i128)
    ensures
        s.burn_from(spender, from, amount) is Ok <==> {
            &&& 0 < amount <= sums::amount_at(s.allowances, (from, spender))
            &&& amount <= sums::amount_at(s.balances, from)
            &&& arith::fits(s.total_supply - amount)
        },
        s.burn_from(spender, from, amount) matches Ok((t, effects)) ==> {
            &&& t == (TokenState {
                balances: s.balances.insert(
                    from,
                    (sums::amount_at(s.balances, from) - amount) as i128,
                ),
                allowances: s.allowances.insert(
                    (from, spender),
                    (sums::amount_at(s.allowances, (from, spender)) - amount) as i128,
                ),
                total_supply: (s.total_supply - amount) as i128,
                ..s
            })
            &&& effects == seq![
                Effect::RequireAuth(spender),
                Effect::Burn(BurnEvent { from, amount }),
            ]
        },
        s.burn_from(spender, from, amount) matches Err(e) ==> e == (if amount <= 0 {
            Error::AmountNotPositive
        } else if sums::amount_at(s.allowances, (from, spender)) < amount {
            Error::AllowanceExceeded
        } else if sums::amount_at(s.balances, from) < amount {
            Error::InsufficientBalance
        } else {
            Error::Arithmetic
        }),
{
}

/// The admin takes tokens back from a frozen account, to its own; there are as
/// many in all as before.
pub proof fn law_taking_back(s: TokenState, admin: Address, from: Address, amount: i128)
    ensures
        s.clawback(admin, from, amount) is Ok <==> {
            &&& s.admin == Some(admin)
            &&& locked(s, from)
            &&& 0 < amount <= sums::amount_at(s.balances, from)
            &&& from != admin ==> arith::fits(sums::amount_at(s.balances, admin) + amount)
        },
        s.clawback(admin, from, amount) matches Ok((t, effects)) ==> {
            &&& t == (TokenState { balances: shifted(s.balances, from, admin, amount), ..s })
            &&& effects == seq![
                Effect::RequireAuth(admin),
                Effect::Clawback(ClawbackEvent { from, to: admin, amount }),
            ]
        },
        s.clawback(admin, from, amount) matches Err(e) ==> e == (if s.admin is None {
            Error::NotInitialised
        } else if s.admin != Some(admin) {
            Error::AdminOnly
        } else if !locked(s, from) {
            Error::NotFrozen
        } else if amount <= 0 {
            Error::AmountNotPositive
        } else if sums::amount_at(s.balances, from) < amount {
            Error::InsufficientBalance
        } else {
            Error::Arithmetic
        }),
{
}

/// The admin, and nobody else, freezes accounts and frees them, pauses the
/// token, hands its role on and names the minter. Each call changes the one
/// thing that it is about.
pub proof fn law_settings(
    s: TokenState,
    admin: Address,
    account: Address,
    frozen: bool,
    paused: bool,
    other: Address,
)
    ensures
        s.set_frozen(admin, account, frozen) is Ok <==> s.admin == Some(admin),
        s.set_frozen(admin, account, frozen) matches Ok((t, effects)) ==> {
            &&& t == (TokenState { frozen: s.frozen.insert(account, frozen), ..s })
            &&& effects == seq![
                Effect::RequireAuth(admin),
                Effect::Freeze(FreezeEvent { account, frozen }),
            ]
        },
        s.set_paused(admin, paused) is Ok <==> s.admin == Some(admin),
        s.set_paused(admin, paused) matches Ok((t, effects)) ==> {
            &&& t == (TokenState { paused, ..s })
            &&& effects == seq![Effect::RequireAuth(admin)]
        },
        s.set_admin(admin, other) is Ok <==> s.admin == Some(admin),
        s.set_admin(admin, other) matches Ok((t, effects)) ==> {
            &&& t == (TokenState { admin: Some(other), ..s })
            &&& effects == seq![Effect::RequireAuth(admin)]
        },
        s.set_minter(admin, other) is Ok <==> s.admin == Some(admin),
        s.set_minter(admin, other) matches Ok((t, effects)) ==> {
            &&& t == (TokenState { minter: Some(other), ..s })
            &&& effects == seq![Effect::RequireAuth(admin)]
        },
        s.admin != Some(admin) ==> {
            let refused = Err::<(TokenState, Seq<Effect>), Error>(
                if s.admin is None {
                    Error::NotInitialised
                } else {
                    Error::AdminOnly
                },
            );
            &&& s.set_frozen(admin, account, frozen) == refused
            &&& s.set_paused(admin, paused) == refused
            &&& s.set_admin(admin, other) == refused
            &&& s.set_minter(admin, other) == refused
        },
{
}

/// Setting up stores what it is told, and works once.
pub proof fn law_setup(
    s: TokenState,
    admin: Address,
    minter: Address,
    name: Seq<char>,
    symbol: Seq<char>,
    decimals: u32,
)
    ensures
        ({
            let step = s.initialize(admin, minter, name, symbol, decimals);
            &&& step is Ok <==> s.admin is None
            &&& step matches Err(e) ==> e == Error::AlreadyInitialised
            &&& step matches Ok((t, effects)) ==> {
                &&& effects.len() == 0
                &&& t == (TokenState {
                    admin: Some(admin),
                    minter: Some(minter),
                    name: Some(name),
                    symbol: Some(symbol),
                    decimals: Some(decimals),
                    paused: false,
                    total_supply: 0,
                    ..s
                })
            }
        }),
        ({
            let b = TokenState::blank();
            &&& b.admin is None && b.minter is None
            &&& b.name is None && b.symbol is None && b.decimals is None
            &&& !b.paused && b.total_supply == 0
            &&& b.balances == Map::<Address, i128>::empty()
            &&& b.allowances == Map::<(Address, Address), i128>::empty()
            &&& b.frozen == Map::<Address, bool>::empty()
        }),
{
}

/// What is read is what is stored: an account that was never named holds
/// nothing, lets nobody move anything, and is not frozen.
pub proof fn law_reads(s: TokenState, id: Address, spender: Address)
    ensures
        s.balances.contains_key(id) ==> s.balance(id) == s.balances[id],
        !s.balances.contains_key(id) ==> s.balance(id) == 0,
        s.allowances.contains_key((id, spender)) ==> s.allowance(id, spender)
            == s.allowances[(id, spender)],
        !s.allowances.contains_key((id, spender)) ==> s.allowance(id, spender) == 0,
        s.is_frozen(id) == locked(s, id),
{
}

} // verus!

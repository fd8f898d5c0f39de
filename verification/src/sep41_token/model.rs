//! What each call on the token does to it.
use crate::arith;
use crate::error;
use crate::error::Error;
use crate::sep41_token::{
    ApproveEvent, BurnEvent, ClawbackEvent, Effect, FreezeEvent, MintEvent, TransferEvent,
};
use crate::sums;
use crate::types::{Address, Context};
use vstd::prelude::*;

verus! {

/// The state of the contract.
#[verifier::ext_equal]
pub struct TokenState {
    pub admin: Option<Address>,
    pub minter: Option<Address>,
    pub name: Option<Seq<char>>,
    pub symbol: Option<Seq<char>>,
    pub decimals: Option<u32>,
    pub paused: bool,
    pub total_supply: i128,
    pub balances: Map<Address, i128>,
    pub allowances: Map<(Address, Address), i128>,
    pub frozen: Map<Address, bool>,
}

impl TokenState {
    /// The contract before it is set up.
    pub open spec fn blank() -> TokenState {
        TokenState {
            admin: None,
            minter: None,
            name: None,
            symbol: None,
            decimals: None,
            paused: false,
            total_supply: 0,
            balances: Map::empty(),
            allowances: Map::empty(),
            frozen: Map::empty(),
        }
    }

    pub open spec fn admin_error(self, caller: Address) -> Option<Error> {
        match self.admin {
            None => Some(Error::NotInitialised),
            Some(admin) => if caller == admin {
                None
            } else {
                Some(Error::AdminOnly)
            },
        }
    }

    pub open spec fn balance(self, id: Address) -> i128 {
        if self.balances.contains_key(id) {
            self.balances[id]
        } else {
            0
        }
    }

    pub open spec fn allowance(self, from: Address, spender: Address) -> i128 {
        if self.allowances.contains_key((from, spender)) {
            self.allowances[(from, spender)]
        } else {
            0
        }
    }

    pub open spec fn is_frozen(self, account: Address) -> bool {
        self.frozen.contains_key(account) && self.frozen[account]
    }

    pub open spec fn initialize(
        self,
        admin: Address,
        minter: Address,
        name: Seq<char>,
        symbol: Seq<char>,
        decimals: u32,
    ) -> Result<(Self, Seq<Effect>), Error> {
        if self.admin is Some {
            Err(Error::AlreadyInitialised)
        } else {
            Ok(
                (
                    TokenState {
                        admin: Some(admin),
                        minter: Some(minter),
                        name: Some(name),
                        symbol: Some(symbol),
                        decimals: Some(decimals),
                        paused: false,
                        total_supply: 0,
                        ..self
                    },
                    Seq::empty(),
                ),
            )
        }
    }

    // ── Balances ──────────────────────────────────────────────────

    /// The state with an amount taken from an account.
    pub open spec fn spent(self, from: Address, amount: i128) -> Result<Self, Error> {
        if self.balance(from) < amount {
            Err(Error::InsufficientBalance)
        } else if !arith::fits(self.balance(from) - amount) {
            Err(Error::Arithmetic)
        } else {
            Ok(
                TokenState {
                    balances: self.balances.insert(from, (self.balance(from) - amount) as i128),
                    ..self
                },
            )
        }
    }

    /// The state with an amount added to an account.
    pub open spec fn received(self, to: Address, amount: i128) -> Result<Self, Error> {
        if !arith::fits(self.balance(to) + amount) {
            Err(Error::Arithmetic)
        } else {
            Ok(
                TokenState {
                    balances: self.balances.insert(to, (self.balance(to) + amount) as i128),
                    ..self
                },
            )
        }
    }

    /// The state with an amount moved.
    pub open spec fn moved(self, from: Address, to: Address, amount: i128) -> Result<Self, Error> {
        match self.spent(from, amount) {
            Err(e) => Err(e),
            Ok(next) => next.received(to, amount),
        }
    }

    /// The state with an amount taken from an allowance.
    pub open spec fn used(self, from: Address, spender: Address, amount: i128) -> Result<
        Self,
        Error,
    > {
        if self.allowance(from, spender) < amount {
            Err(Error::AllowanceExceeded)
        } else if !arith::fits(self.allowance(from, spender) - amount) {
            Err(Error::Arithmetic)
        } else {
            Ok(
                TokenState {
                    allowances: self.allowances.insert(
                        (from, spender),
                        (self.allowance(from, spender) - amount) as i128,
                    ),
                    ..self
                },
            )
        }
    }

    /// The state with an amount destroyed.
    pub open spec fn burnt(self, from: Address, amount: i128) -> Result<Self, Error> {
        match self.spent(from, amount) {
            Err(e) => Err(e),
            Ok(next) => if !arith::fits(self.total_supply - amount) {
                Err(Error::Arithmetic)
            } else {
                Ok(TokenState { total_supply: (self.total_supply - amount) as i128, ..next })
            },
        }
    }

    /// Why an amount cannot be moved between two accounts.
    pub open spec fn transfer_error(self, from: Address, to: Address, amount: i128) -> Option<
        Error,
    > {
        if self.paused {
            Some(Error::TokenPaused)
        } else if self.is_frozen(from) || self.is_frozen(to) {
            Some(Error::AccountFrozen)
        } else if amount <= 0 {
            Some(Error::AmountNotPositive)
        } else {
            None
        }
    }

    // ── Calls ─────────────────────────────────────────────────────

    pub open spec fn transfer(self, from: Address, to: Address, amount: i128) -> Result<
        (Self, Seq<Effect>),
        Error,
    > {
        match self.transfer_error(from, to, amount) {
            Some(e) => Err(e),
            None => match self.moved(from, to, amount) {
                Err(e) => Err(e),
                Ok(next) => Ok(
                    (
                        next,
                        seq![
                            Effect::RequireAuth(from),
                            Effect::Transfer(TransferEvent { from, to, amount }),
                        ],
                    ),
                ),
            },
        }
    }

    pub open spec fn transfer_from(
        self,
        spender: Address,
        from: Address,
        to: Address,
        amount: i128,
    ) -> Result<(Self, Seq<Effect>), Error> {
        match self.transfer_error(from, to, amount) {
            Some(e) => Err(e),
            None => match self.used(from, spender, amount) {
                Err(e) => Err(e),
                Ok(used) => match used.moved(from, to, amount) {
                    Err(e) => Err(e),
                    Ok(next) => Ok(
                        (
                            next,
                            seq![
                                Effect::RequireAuth(spender),
                                Effect::Transfer(TransferEvent { from, to, amount }),
                            ],
                        ),
                    ),
                },
            },
        }
    }

    pub open spec fn approve(
        self,
        env: Context,
        from: Address,
        spender: Address,
        amount: i128,
        expiration_ledger: u32,
    ) -> Result<(Self, Seq<Effect>), Error> {
        if amount < 0 {
            Err(Error::AmountNegative)
        } else if expiration_ledger < env.sequence {
            Err(Error::ExpirationInPast)
        } else {
            Ok(
                (
                    TokenState {
                        allowances: self.allowances.insert((from, spender), amount),
                        ..self
                    },
                    seq![
                        Effect::RequireAuth(from),
                        Effect::ExtendAllowance {
                            from,
                            spender,
                            threshold: 0,
                            extend_to: expiration_ledger,
                        },
                        Effect::Approve(
                            ApproveEvent { from, spender, amount, expiration_ledger },
                        ),
                    ],
                ),
            )
        }
    }

    pub open spec fn mint(self, to: Address, amount: i128) -> Result<(Self, Seq<Effect>), Error> {
        match self.minter {
            None => Err(Error::NotInitialised),
            Some(minter) => if self.paused {
                Err(Error::TokenPaused)
            } else if self.is_frozen(to) {
                Err(Error::AccountFrozen)
            } else if amount <= 0 {
                Err(Error::AmountNotPositive)
            } else {
                match self.received(to, amount) {
                    Err(e) => Err(e),
                    Ok(next) => if !arith::fits(self.total_supply + amount) {
                        Err(Error::Arithmetic)
                    } else {
                        Ok(
                            (
                                TokenState {
                                    total_supply: (self.total_supply + amount) as i128,
                                    ..next
                                },
                                seq![
                                    Effect::RequireAuth(minter),
                                    Effect::Mint(MintEvent { to, amount }),
                                ],
                            ),
                        )
                    },
                }
            },
        }
    }

    pub open spec fn burn(self, from: Address, amount: i128) -> Result<(Self, Seq<Effect>), Error> {
        if self.paused {
            Err(Error::TokenPaused)
        } else if amount <= 0 {
            Err(Error::AmountNotPositive)
        } else {
            match self.burnt(from, amount) {
                Err(e) => Err(e),
                Ok(next) => Ok(
                    (
                        next,
                        seq![Effect::RequireAuth(from), Effect::Burn(BurnEvent { from, amount })],
                    ),
                ),
            }
        }
    }

    pub open spec fn burn_from(self, spender: Address, from: Address, amount: i128) -> Result<
        (Self, Seq<Effect>),
        Error,
    > {
        if amount <= 0 {
            Err(Error::AmountNotPositive)
        } else {
            match self.used(from, spender, amount) {
                Err(e) => Err(e),
                Ok(used) => match used.burnt(from, amount) {
                    Err(e) => Err(e),
                    Ok(next) => Ok(
                        (
                            next,
                            seq![
                                Effect::RequireAuth(spender),
                                Effect::Burn(BurnEvent { from, amount }),
                            ],
                        ),
                    ),
                },
            }
        }
    }

    pub open spec fn set_frozen(self, admin: Address, account: Address, frozen: bool) -> Result<
        (Self, Seq<Effect>),
        Error,
    > {
        match self.admin_error(admin) {
            Some(e) => Err(e),
            None => Ok(
                (
                    TokenState { frozen: self.frozen.insert(account, frozen), ..self },
                    seq![
                        Effect::RequireAuth(admin),
                        Effect::Freeze(FreezeEvent { account, frozen }),
                    ],
                ),
            ),
        }
    }

    pub open spec fn clawback(self, admin: Address, from: Address, amount: i128) -> Result<
        (Self, Seq<Effect>),
        Error,
    > {
        match self.admin_error(admin) {
            Some(e) => Err(e),
            None => if !self.is_frozen(from) {
                Err(Error::NotFrozen)
            } else if amount <= 0 {
                Err(Error::AmountNotPositive)
            } else {
                match self.moved(from, admin, amount) {
                    Err(e) => Err(e),
                    Ok(next) => Ok(
                        (
                            next,
                            seq![
                                Effect::RequireAuth(admin),
                                Effect::Clawback(ClawbackEvent { from, to: admin, amount }),
                            ],
                        ),
                    ),
                }
            },
        }
    }

    pub open spec fn set_paused(self, admin: Address, paused: bool) -> Result<
        (Self, Seq<Effect>),
        Error,
    > {
        match self.admin_error(admin) {
            Some(e) => Err(e),
            None => Ok((TokenState { paused, ..self }, seq![Effect::RequireAuth(admin)])),
        }
    }

    pub open spec fn set_admin(self, current: Address, new_admin: Address) -> Result<
        (Self, Seq<Effect>),
        Error,
    > {
        match self.admin_error(current) {
            Some(e) => Err(e),
            None => Ok(
                (
                    TokenState { admin: Some(new_admin), ..self },
                    seq![Effect::RequireAuth(current)],
                ),
            ),
        }
    }

    pub open spec fn set_minter(self, admin: Address, minter: Address) -> Result<
        (Self, Seq<Effect>),
        Error,
    > {
        match self.admin_error(admin) {
            Some(e) => Err(e),
            None => Ok(
                (
                    TokenState { minter: Some(minter), ..self },
                    seq![Effect::RequireAuth(admin)],
                ),
            ),
        }
    }

    // ── What always holds ─────────────────────────────────────────

    /// What holds of the token at all times: the balances add up to the
    /// supply, neither a balance nor an allowance is negative, and nobody
    /// holds anything before the token is set up.
    pub open spec fn sound(self) -> bool {
        &&& self.balances.dom().finite()
        &&& self.total_supply == sums::total(self.balances, |a: Address, b: i128| b as int)
        &&& self.admin is None ==> self.minter is None && self.total_supply == 0
        &&& forall|a: Address| #[trigger]
            self.balances.contains_key(a) && self.admin is None ==> self.balances[a] == 0
        &&& forall|a: Address| #[trigger] self.balances.contains_key(a) ==> self.balances[a] >= 0
        &&& forall|k: (Address, Address)| #[trigger]
            self.allowances.contains_key(k) ==> self.allowances[k] >= 0
    }
}

/// A call that can change the contract.
pub enum Call {
    Initialize {
        admin: Address,
        minter: Address,
        name: Seq<char>,
        symbol: Seq<char>,
        decimals: u32,
    },
    Transfer { from: Address, to: Address, amount: i128 },
    TransferFrom { spender: Address, from: Address, to: Address, amount: i128 },
    Approve { from: Address, spender: Address, amount: i128, expiration_ledger: u32 },
    Mint { to: Address, amount: i128 },
    Burn { from: Address, amount: i128 },
    BurnFrom { spender: Address, from: Address, amount: i128 },
    SetFrozen { admin: Address, account: Address, frozen: bool },
    Clawback { admin: Address, from: Address, amount: i128 },
    SetPaused { admin: Address, paused: bool },
    SetAdmin { current: Address, new_admin: Address },
    SetMinter { admin: Address, minter: Address },
}

impl TokenState {
    /// The contract after a call.
    pub open spec fn after(self, env: Context, call: Call) -> TokenState {
        match call {
            Call::Initialize { admin, minter, name, symbol, decimals } => error::next(
                self,
                self.initialize(admin, minter, name, symbol, decimals),
            ),
            Call::Transfer { from, to, amount } => error::next(
                self,
                self.transfer(from, to, amount),
            ),
            Call::TransferFrom { spender, from, to, amount } => error::next(
                self,
                self.transfer_from(spender, from, to, amount),
            ),
            Call::Approve { from, spender, amount, expiration_ledger } => error::next(
                self,
                self.approve(env, from, spender, amount, expiration_ledger),
            ),
            Call::Mint { to, amount } => error::next(self, self.mint(to, amount)),
            Call::Burn { from, amount } => error::next(self, self.burn(from, amount)),
            Call::BurnFrom { spender, from, amount } => error::next(
                self,
                self.burn_from(spender, from, amount),
            ),
            Call::SetFrozen { admin, account, frozen } => error::next(
                self,
                self.set_frozen(admin, account, frozen),
            ),
            Call::Clawback { admin, from, amount } => error::next(
                self,
                self.clawback(admin, from, amount),
            ),
            Call::SetPaused { admin, paused } => error::next(self, self.set_paused(admin, paused)),
            Call::SetAdmin { current, new_admin } => error::next(
                self,
                self.set_admin(current, new_admin),
            ),
            Call::SetMinter { admin, minter } => error::next(self, self.set_minter(admin, minter)),
        }
    }
}

} // verus!

//! A synthetic asset as a fungible token that can be frozen, paused and
//! clawed back.
pub mod laws;
pub mod model;
pub mod outcomes;

use crate::arith;
use crate::error::Error;
use crate::sep41_token::model::TokenState;
use crate::table::Table;
use crate::types::{Address, Context};
use vstd::prelude::*;

verus! {

#[derive(Clone, Copy, PartialEq, Eq, Structural, Debug)]
pub struct TransferEvent {
    pub from: Address,
    pub to: Address,
    pub amount: i128,
}

#[derive(Clone, Copy, PartialEq, Eq, Structural, Debug)]
pub struct ApproveEvent {
    pub from: Address,
    pub spender: Address,
    pub amount: i128,
    pub expiration_ledger: u32,
}

#[derive(Clone, Copy, PartialEq, Eq, Structural, Debug)]
pub struct MintEvent {
    pub to: Address,
    pub amount: i128,
}

#[derive(Clone, Copy, PartialEq, Eq, Structural, Debug)]
pub struct BurnEvent {
    pub from: Address,
    pub amount: i128,
}

#[derive(Clone, Copy, PartialEq, Eq, Structural, Debug)]
pub struct FreezeEvent {
    pub account: Address,
    pub frozen: bool,
}

#[derive(Clone, Copy, PartialEq, Eq, Structural, Debug)]
pub struct ClawbackEvent {
    pub from: Address,
    pub to: Address,
    pub amount: i128,
}

/// What a call does outside the contract, in the order in which it does it.
#[derive(Clone, Copy, PartialEq, Eq, Structural, Debug)]
pub enum Effect {
    /// The address must have authorised the call.
    RequireAuth(Address),
    /// The allowance is kept, where it would last for fewer ledgers than
    /// `threshold`, for `extend_to` ledgers.
    ExtendAllowance { from: Address, spender: Address, threshold: u32, extend_to: u32 },
    Transfer(TransferEvent),
    Approve(ApproveEvent),
    Mint(MintEvent),
    Burn(BurnEvent),
    Freeze(FreezeEvent),
    Clawback(ClawbackEvent),
}

/// The balances and the allowances.
pub struct SyntheticToken {
    pub admin: Option<Address>,
    /// The engine.
    pub minter: Option<Address>,
    pub name: Option<String>,
    pub symbol: Option<String>,
    pub decimals: Option<u32>,
    pub paused: bool,
    pub total_supply: i128,
    pub balances: Table<Address, i128>,
    /// What an owner lets a spender move.
    pub allowances: Table<(Address, Address), i128>,
    pub frozen: Table<Address, bool>,
}

/// The characters of a text, if there is one.
pub open spec fn text(s: Option<String>) -> Option<Seq<char>> {
    match s {
        Some(t) => Some(t@),
        None => None,
    }
}

impl View for SyntheticToken {
    type V = TokenState;

    open spec fn view(&self) -> TokenState {
        TokenState {
            admin: self.admin,
            minter: self.minter,
            name: text(self.name),
            symbol: text(self.symbol),
            decimals: self.decimals,
            paused: self.paused,
            total_supply: self.total_supply,
            balances: self.balances@,
            allowances: self.allowances@,
            frozen: self.frozen@,
        }
    }
}

impl SyntheticToken {
    /// The contract before it is set up.
    pub fn new() -> (r: SyntheticToken)
        ensures
            r@ == TokenState::blank(),
    {
        SyntheticToken {
            admin: None,
            minter: None,
            name: None,
            symbol: None,
            decimals: None,
            paused: false,
            total_supply: 0,
            balances: Table::new(),
            allowances: Table::new(),
            frozen: Table::new(),
        }
    }

    /// Sets up the token. Once.
    pub fn initialize(
        &mut self,
        admin: Address,
        minter: Address,
        name: String,
        symbol: String,
        decimals: u32,
    ) -> (r: Result<Vec<Effect>, Error>)
        ensures
            crate::error::agrees(
                r,
                old(self)@,
                final(self)@,
                old(self)@.initialize(admin, minter, name@, symbol@, decimals),
            ),
    {
        if self.admin.is_some() {
            return Err(Error::AlreadyInitialised);
        }
        self.admin = Some(admin);
        self.minter = Some(minter);
        self.name = Some(name);
        self.symbol = Some(symbol);
        self.decimals = Some(decimals);
        self.paused = false;
        self.total_supply = 0;
        Ok(Vec::new())
    }

    /// Moves tokens.
    pub fn transfer(&mut self, from: Address, to: Address, amount: i128) -> (r: Result<
        Vec<Effect>,
        Error,
    >)
        ensures
            crate::error::agrees(r, old(self)@, final(self)@, old(self)@.transfer(from, to, amount)),
    {
        self._assert_active()?;
        self._assert_not_frozen(from)?;
        self._assert_not_frozen(to)?;
        if amount <= 0 {
            return Err(Error::AmountNotPositive);
        }
        self.shift(from, to, amount)?;
        Ok(
            vec![
                Effect::RequireAuth(from),
                Effect::Transfer(TransferEvent { from, to, amount }),
            ],
        )
    }

    /// Moves tokens within an allowance.
    pub fn transfer_from(
        &mut self,
        spender: Address,
        from: Address,
        to: Address,
        amount: i128,
    ) -> (r: Result<Vec<Effect>, Error>)
        ensures
            crate::error::agrees(
                r,
                old(self)@,
                final(self)@,
                old(self)@.transfer_from(spender, from, to, amount),
            ),
    {
        self._assert_active()?;
        self._assert_not_frozen(from)?;
        self._assert_not_frozen(to)?;
        if amount <= 0 {
            return Err(Error::AmountNotPositive);
        }
        let allowance: i128 = self.allowance(from, spender);
        if allowance < amount {
            return Err(Error::AllowanceExceeded);
        }
        let left: i128 = arith::minus(allowance, amount)?;
        self.shift(from, to, amount)?;
        self.allowances.insert((from, spender), left);
        Ok(
            vec![
                Effect::RequireAuth(spender),
                Effect::Transfer(TransferEvent { from, to, amount }),
            ],
        )
    }

    /// Lets a spender move tokens.
    pub fn approve(
        &mut self,
        env: &Context,
        from: Address,
        spender: Address,
        amount: i128,
        expiration_ledger: u32,
    ) -> (r: Result<Vec<Effect>, Error>)
        ensures
            crate::error::agrees(
                r,
                old(self)@,
                final(self)@,
                old(self)@.approve(*env, from, spender, amount, expiration_ledger),
            ),
    {
        if amount < 0 {
            return Err(Error::AmountNegative);
        }
        if expiration_ledger < env.sequence {
            return Err(Error::ExpirationInPast);
        }
        self.allowances.insert((from, spender), amount);
        Ok(
            vec![
                Effect::RequireAuth(from),
                Effect::ExtendAllowance {
                    from,
                    spender,
                    threshold: 0,
                    extend_to: expiration_ledger,
                },
                Effect::Approve(ApproveEvent { from, spender, amount, expiration_ledger }),
            ],
        )
    }

    /// Creates tokens. Only the engine does.
    pub fn mint(&mut self, to: Address, amount: i128) -> (r: Result<Vec<Effect>, Error>)
        ensures
            crate::error::agrees(r, old(self)@, final(self)@, old(self)@.mint(to, amount)),
    {
        let minter: Address = match self.minter {
            Some(a) => a,
            None => return Err(Error::NotInitialised),
        };
        self._assert_active()?;
        self._assert_not_frozen(to)?;
        if amount <= 0 {
            return Err(Error::AmountNotPositive);
        }
        let balance: i128 = self._receive_balance(to, amount)?;
        let supply: i128 = arith::plus(self.total_supply, amount)?;
        self.balances.insert(to, balance);
        self.total_supply = supply;
        Ok(vec![Effect::RequireAuth(minter), Effect::Mint(MintEvent { to, amount })])
    }

    /// Destroys tokens.
    pub fn burn(&mut self, from: Address, amount: i128) -> (r: Result<Vec<Effect>, Error>)
        ensures
            crate::error::agrees(r, old(self)@, final(self)@, old(self)@.burn(from, amount)),
    {
        self._assert_active()?;
        if amount <= 0 {
            return Err(Error::AmountNotPositive);
        }
        self.destroy(from, amount)?;
        Ok(vec![Effect::RequireAuth(from), Effect::Burn(BurnEvent { from, amount })])
    }

    /// Destroys tokens within an allowance.
    pub fn burn_from(&mut self, spender: Address, from: Address, amount: i128) -> (r: Result<
        Vec<Effect>,
        Error,
    >)
        ensures
            crate::error::agrees(
                r,
                old(self)@,
                final(self)@,
                old(self)@.burn_from(spender, from, amount),
            ),
    {
        if amount <= 0 {
            return Err(Error::AmountNotPositive);
        }
        let allowance: i128 = self.allowance(from, spender);
        if allowance < amount {
            return Err(Error::AllowanceExceeded);
        }
        let left: i128 = arith::minus(allowance, amount)?;
        self.destroy(from, amount)?;
        self.allowances.insert((from, spender), left);
        Ok(vec![Effect::RequireAuth(spender), Effect::Burn(BurnEvent { from, amount })])
    }

    /// Freezes an account, or unfreezes it.
    pub fn set_frozen(&mut self, admin: Address, account: Address, frozen: bool) -> (r: Result<
        Vec<Effect>,
        Error,
    >)
        ensures
            crate::error::agrees(
                r,
                old(self)@,
                final(self)@,
                old(self)@.set_frozen(admin, account, frozen),
            ),
    {
        self._require_admin(admin)?;
        self.frozen.insert(account, frozen);
        Ok(vec![Effect::RequireAuth(admin), Effect::Freeze(FreezeEvent { account, frozen })])
    }

    /// Moves tokens from a frozen account to the admin.
    pub fn clawback(&mut self, admin: Address, from: Address, amount: i128) -> (r: Result<
        Vec<Effect>,
        Error,
    >)
        ensures
            crate::error::agrees(
                r,
                old(self)@,
                final(self)@,
                old(self)@.clawback(admin, from, amount),
            ),
    {
        self._require_admin(admin)?;
        if !self.is_frozen(from) {
            return Err(Error::NotFrozen);
        }
        if amount <= 0 {
            return Err(Error::AmountNotPositive);
        }
        self.shift(from, admin, amount)?;
        Ok(
            vec![
                Effect::RequireAuth(admin),
                Effect::Clawback(ClawbackEvent { from, to: admin, amount }),
            ],
        )
    }

    /// Pauses the token, or lets it go on.
    pub fn set_paused(&mut self, admin: Address, paused: bool) -> (r: Result<Vec<Effect>, Error>)
        ensures
            crate::error::agrees(r, old(self)@, final(self)@, old(self)@.set_paused(admin, paused)),
    {
        self._require_admin(admin)?;
        self.paused = paused;
        Ok(vec![Effect::RequireAuth(admin)])
    }

    /// Hands the admin's role on.
    pub fn set_admin(&mut self, current: Address, new_admin: Address) -> (r: Result<
        Vec<Effect>,
        Error,
    >)
        ensures
            crate::error::agrees(
                r,
                old(self)@,
                final(self)@,
                old(self)@.set_admin(current, new_admin),
            ),
    {
        self._require_admin(current)?;
        self.admin = Some(new_admin);
        Ok(vec![Effect::RequireAuth(current)])
    }

    /// Sets the engine.
    pub fn set_minter(&mut self, admin: Address, minter: Address) -> (r: Result<
        Vec<Effect>,
        Error,
    >)
        ensures
            crate::error::agrees(r, old(self)@, final(self)@, old(self)@.set_minter(admin, minter)),
    {
        self._require_admin(admin)?;
        self.minter = Some(minter);
        Ok(vec![Effect::RequireAuth(admin)])
    }

    /// What an account holds.
    pub fn balance(&self, id: Address) -> (r: i128)
        ensures
            r == self@.balance(id),
    {
        match self.balances.get(&id) {
            Some(b) => *b,
            None => 0,
        }
    }

    /// What an owner lets a spender move.
    pub fn allowance(&self, from: Address, spender: Address) -> (r: i128)
        ensures
            r == self@.allowance(from, spender),
    {
        match self.allowances.get(&(from, spender)) {
            Some(a) => *a,
            None => 0,
        }
    }

    /// All tokens there are.
    pub fn total_supply(&self) -> (r: i128)
        ensures
            r == self@.total_supply,
    {
        self.total_supply
    }

    /// The number of decimals.
    pub fn decimals(&self) -> (r: Result<u32, Error>)
        ensures
            r == match self@.decimals {
                Some(d) => Ok::<u32, Error>(d),
                None => Err(Error::NotInitialised),
            },
    {
        match self.decimals {
            Some(d) => Ok(d),
            None => Err(Error::NotInitialised),
        }
    }

    /// The name.
    pub fn name(&self) -> (r: Result<String, Error>)
        ensures
            match self@.name {
                Some(n) => r matches Ok(s) && s@ == n,
                None => r == Err::<String, Error>(Error::NotInitialised),
            },
    {
        match &self.name {
            Some(s) => Ok(s.clone()),
            None => Err(Error::NotInitialised),
        }
    }

    /// The symbol.
    pub fn symbol(&self) -> (r: Result<String, Error>)
        ensures
            match self@.symbol {
                Some(n) => r matches Ok(s) && s@ == n,
                None => r == Err::<String, Error>(Error::NotInitialised),
            },
    {
        match &self.symbol {
            Some(s) => Ok(s.clone()),
            None => Err(Error::NotInitialised),
        }
    }

    /// Whether an account is frozen.
    pub fn is_frozen(&self, account: Address) -> (r: bool)
        ensures
            r == self@.is_frozen(account),
    {
        match self.frozen.get(&account) {
            Some(f) => *f,
            None => false,
        }
    }

    /// Whether the token is paused.
    pub fn is_paused(&self) -> (r: bool)
        ensures
            r == self@.paused,
    {
        self.paused
    }

    /// Moves an amount between two accounts.
    fn shift(&mut self, from: Address, to: Address, amount: i128) -> (r: Result<(), Error>)
        ensures
            match old(self)@.moved(from, to, amount) {
                Err(e) => r == Err::<(), Error>(e) && final(self)@ == old(self)@,
                Ok(next) => r is Ok && final(self)@ == next,
            },
    {
        let left: i128 = self._spend_balance(from, amount)?;
        if from == to {
            let back: i128 = arith::plus(left, amount)?;
            self.balances.insert(from, left);
            self.balances.insert(to, back);
        } else {
            let balance: i128 = self._receive_balance(to, amount)?;
            self.balances.insert(from, left);
            self.balances.insert(to, balance);
        }
        Ok(())
    }

    /// Destroys an amount of an account.
    fn destroy(&mut self, from: Address, amount: i128) -> (r: Result<(), Error>)
        ensures
            match old(self)@.burnt(from, amount) {
                Err(e) => r == Err::<(), Error>(e) && final(self)@ == old(self)@,
                Ok(next) => r is Ok && final(self)@ == next,
            },
    {
        let left: i128 = self._spend_balance(from, amount)?;
        let supply: i128 = arith::minus(self.total_supply, amount)?;
        self.balances.insert(from, left);
        self.total_supply = supply;
        Ok(())
    }

    /// What an account holds after it spends an amount.
    fn _spend_balance(&self, from: Address, amount: i128) -> (r: Result<i128, Error>)
        ensures
            match self@.spent(from, amount) {
                Err(e) => r == Err::<i128, Error>(e),
                Ok(next) => r == Ok::<i128, Error>((self@.balance(from) - amount) as i128),
            },
    {
        let balance: i128 = self.balance(from);
        if balance < amount {
            return Err(Error::InsufficientBalance);
        }
        arith::minus(balance, amount)
    }

    /// What an account holds after it receives an amount.
    fn _receive_balance(&self, to: Address, amount: i128) -> (r: Result<i128, Error>)
        ensures
            match self@.received(to, amount) {
                Err(e) => r == Err::<i128, Error>(e),
                Ok(next) => r == Ok::<i128, Error>((self@.balance(to) + amount) as i128),
            },
    {
        arith::plus(self.balance(to), amount)
    }

    fn _assert_active(&self) -> (r: Result<(), Error>)
        ensures
            r == if self@.paused {
                Err::<(), Error>(Error::TokenPaused)
            } else {
                Ok(())
            },
    {
        if self.paused {
            Err(Error::TokenPaused)
        } else {
            Ok(())
        }
    }

    fn _assert_not_frozen(&self, account: Address) -> (r: Result<(), Error>)
        ensures
            r == if self@.is_frozen(account) {
                Err::<(), Error>(Error::AccountFrozen)
            } else {
                Ok(())
            },
    {
        if self.is_frozen(account) {
            Err(Error::AccountFrozen)
        } else {
            Ok(())
        }
    }

    fn _require_admin(&self, caller: Address) -> (r: Result<(), Error>)
        ensures
            r == match self@.admin_error(caller) {
                None => Ok::<(), Error>(()),
                Some(e) => Err(e),
            },
    {
        match self.admin {
            None => Err(Error::NotInitialised),
            Some(admin) => if caller == admin {
                Ok(())
            } else {
                Err(Error::AdminOnly)
            },
        }
    }
}

} // verus!

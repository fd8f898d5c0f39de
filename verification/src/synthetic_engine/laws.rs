//! What holds of the engine over several calls.
use crate::arith;
use crate::error;
use crate::error::Error;
use crate::sums;
use crate::synthetic_engine::model;
use crate::synthetic_engine::model::{Call, EngineState};
use crate::synthetic_engine::{AssetConfig, Effect, Vault, MAX_PENALTY, PRECISION, WAD};
use crate::types::{Address, Context, Symbol, WasmHash};
use vstd::prelude::*;

verus! {

/// Putting a vault in place of another changes the debt of its asset by the
/// difference, and that of no other asset.
proof fn lemma_debt(s: EngineState, key: (Address, Symbol), vault: Vault, synth: Symbol)
    requires
        s.vaults.dom().finite(),
    ensures
        sums::total(s.vaults.insert(key, vault), model::debt_in(synth)) == sums::total(
            s.vaults,
            model::debt_in(synth),
        ) + (if key.1 == synth {
            vault.debt - (if s.vaults.contains_key(key) {
                s.vaults[key].debt as int
            } else {
                0
            })
        } else {
            0
        }),
{
    sums::lemma_total_insert(s.vaults, model::debt_in(synth), key, vault);
}

/// [`lemma_debt`] for a vault that is removed.
proof fn lemma_debt_removed(s: EngineState, key: (Address, Symbol), synth: Symbol)
    requires
        s.vaults.dom().finite(),
        s.vaults.contains_key(key),
    ensures
        sums::total(s.vaults.remove(key), model::debt_in(synth)) == sums::total(
            s.vaults,
            model::debt_in(synth),
        ) - (if key.1 == synth {
            s.vaults[key].debt as int
        } else {
            0
        }),
{
    sums::lemma_total_remove(s.vaults, model::debt_in(synth), key);
}

/// The debt of a vault is part of the debt of its asset.
proof fn lemma_part_of_total(s: EngineState, key: (Address, Symbol))
    requires
        s.sound(),
        s.vaults.contains_key(key),
    ensures
        0 <= s.vaults[key].debt <= s.debt_total(key.1),
{
    let w = model::debt_in(key.1);
    assert(s.vault_sound(key));
    assert forall|k: (Address, Symbol)| #[trigger] s.vaults.contains_key(k) implies w(
        k,
        s.vaults[k],
    ) >= 0 by {
        assert(s.vault_sound(k));
    }
    sums::lemma_total_bounds(s.vaults, w);
    assert(w(key, s.vaults[key]) <= sums::total(s.vaults, w));
}

/// A state that differs in one vault, and in the total of its asset by as
/// much, is sound.
proof fn lemma_vault_changed(s: EngineState, t: EngineState, key: (Address, Symbol), vault: Vault)
    requires
        s.sound(),
        s.vaults.contains_key(key),
        t == (EngineState { vaults: s.vaults.insert(key, vault), debt_totals: t.debt_totals, ..s }),
        t.debt_total(key.1) == s.debt_total(key.1) + vault.debt - s.vaults[key].debt,
        forall|synth: Symbol| synth != key.1 ==> #[trigger] t.debt_total(synth) == s.debt_total(
            synth,
        ),
        vault.owner == key.0,
        vault.synth_asset == key.1,
        vault.collateral >= 0,
        vault.debt >= 0,
    ensures
        t.sound(),
{
    assert forall|synth: Symbol| #[trigger] t.debt_total(synth) == sums::total(
        t.vaults,
        model::debt_in(synth),
    ) by {
        lemma_debt(s, key, vault, synth);
        assert(s.debt_total(synth) == sums::total(s.vaults, model::debt_in(synth)));
    }
    assert(s.vault_sound(key));
    assert forall|k: (Address, Symbol)| #[trigger] t.vaults.contains_key(k) implies t.vault_sound(
        k,
    ) by {
        assert(s.vaults.contains_key(k));
        assert(s.vault_sound(k));
        assert(t.owned(k.0) == s.owned(k.0));
    }
    assert forall|synth: Symbol| #[trigger] t.configs.contains_key(synth) implies t.config_sound(
        synth,
    ) by {
        assert(s.config_sound(synth));
    }
}

/// A state that differs only in its settings is sound where the markets are.
proof fn lemma_settings_changed(s: EngineState, t: EngineState)
    requires
        s.sound(),
        t.vaults == s.vaults,
        t.debt_totals == s.debt_totals,
        t.vaults_by_owner == s.vaults_by_owner,
        (t.admin is Some) == (t.dao is Some),
        (t.oracle is Some) == (t.dao is Some),
        (t.compliance is Some) == (t.dao is Some),
        forall|synth: Symbol| #[trigger] s.configs.contains_key(synth) ==> t.configs.contains_key(
            synth,
        ),
        forall|synth: Symbol| #[trigger] t.configs.contains_key(synth) ==> t.config_sound(synth),
    ensures
        t.sound(),
{
    assert forall|synth: Symbol| #[trigger] t.debt_total(synth) == sums::total(
        t.vaults,
        model::debt_in(synth),
    ) by {
        assert(s.debt_total(synth) == sums::total(s.vaults, model::debt_in(synth)));
    }
    assert forall|k: (Address, Symbol)| #[trigger] t.vaults.contains_key(k) implies t.vault_sound(
        k,
    ) by {
        assert(s.vault_sound(k));
        assert(t.owned(k.0) == s.owned(k.0));
    }
}

/// The engine starts sound.
pub proof fn law_starts_sound()
    ensures
        EngineState::blank().sound(),
{
    let s = EngineState::blank();
    assert forall|synth: Symbol| #[trigger] s.debt_total(synth) == sums::total(
        s.vaults,
        model::debt_in(synth),
    ) by {
        sums::lemma_total_zero(s.vaults, model::debt_in(synth));
    }
}

proof fn lemma_opened(
    s: EngineState,
    env: Context,
    owner: Address,
    synth: Symbol,
    coll_token: Address,
    coll_amount: i128,
)
    requires
        s.sound(),
        s.open_vault(env, owner, synth, coll_token, coll_amount) is Ok,
    ensures
        s.open_vault(env, owner, synth, coll_token, coll_amount)->Ok_0.0.sound(),
{
    let t = s.open_vault(env, owner, synth, coll_token, coll_amount)->Ok_0.0;
    let key = (owner, synth);
    assert forall|sy: Symbol| #[trigger] t.debt_total(sy) == sums::total(
        t.vaults,
        model::debt_in(sy),
    ) by {
        lemma_debt(s, key, t.vaults[key], sy);
        assert(s.debt_total(sy) == sums::total(s.vaults, model::debt_in(sy)));
    }
    assert forall|k: (Address, Symbol)| #[trigger] t.vaults.contains_key(k) implies t.vault_sound(
        k,
    ) by {
        let list = s.owned(owner);
        if k == key {
            assert(list.push(synth)[list.len() as int] == synth);
        } else {
            assert(s.vaults.contains_key(k));
            assert(s.vault_sound(k));
            if k.0 == owner {
                let i = choose|i: int| 0 <= i < list.len() && list[i] == k.1;
                assert(list.push(synth)[i] == k.1);
            }
        }
    }
    assert forall|sy: Symbol| #[trigger] t.configs.contains_key(sy) implies t.config_sound(sy) by {
        assert(s.config_sound(sy));
    }
}

proof fn lemma_liquidated(
    s: EngineState,
    env: Context,
    liquidator: Address,
    owner: Address,
    synth: Symbol,
    repay_amt: i128,
    coll_price: i128,
    synth_price: i128,
)
    requires
        s.sound(),
        s.liquidate(env, liquidator, owner, synth, repay_amt, coll_price, synth_price) is Ok,
    ensures
        s.liquidate(
            env,
            liquidator,
            owner,
            synth,
            repay_amt,
            coll_price,
            synth_price,
        )->Ok_0.0.sound(),
{
    let t = s.liquidate(
        env,
        liquidator,
        owner,
        synth,
        repay_amt,
        coll_price,
        synth_price,
    )->Ok_0.0;
    let key = (owner, synth);
    let vault = s.vaults[key];
    let done = model::settled(vault, s.configs[synth], repay_amt, coll_price, synth_price)->Ok_0;
    lemma_part_of_total(s, key);
    assert(s.vault_sound(key));
    assert(0 <= done.debt && done.repay + done.debt == vault.debt);
    assert(done.collateral >= 0);
    if done.debt == 0 {
        assert forall|sy: Symbol| #[trigger] t.debt_total(sy) == sums::total(
            t.vaults,
            model::debt_in(sy),
        ) by {
            lemma_debt_removed(s, key, sy);
            assert(s.debt_total(sy) == sums::total(s.vaults, model::debt_in(sy)));
        }
        assert forall|k: (Address, Symbol)| #[trigger]
            t.vaults.contains_key(k) implies t.vault_sound(k) by {
            assert(s.vaults.contains_key(k));
            assert(s.vault_sound(k));
            assert(t.owned(k.0) == s.owned(k.0));
        }
        assert forall|sy: Symbol| #[trigger] t.configs.contains_key(sy) implies t.config_sound(
            sy,
        ) by {
            assert(s.config_sound(sy));
        }
    } else {
        lemma_vault_changed(s, t, key, t.vaults[key]);
    }
}

/// Whatever call comes, and whether it is refused or not, the debt of every
/// asset is that of its vaults, and no vault is negative.
pub proof fn law_stays_sound(s: EngineState, env: Context, call: Call)
    requires
        s.sound(),
    ensures
        s.after(env, call).sound(),
{
    let t = s.after(env, call);
    match call {
        Call::Initialize { .. } => {
            assert forall|sy: Symbol| #[trigger] t.configs.contains_key(sy) implies t.config_sound(
                sy,
            ) by {
                assert(s.config_sound(sy));
            }
            lemma_settings_changed(s, t);
        },
        Call::RegisterAsset { symbol, .. } => {
            assert forall|sy: Symbol| #[trigger] t.configs.contains_key(sy) implies t.config_sound(
                sy,
            ) by {
                if s.configs.contains_key(sy) {
                    assert(s.config_sound(sy));
                }
            }
            lemma_settings_changed(s, t);
        },
        Call::SetCollateralAllowed { .. } => {
            assert forall|sy: Symbol| #[trigger] t.configs.contains_key(sy) implies t.config_sound(
                sy,
            ) by {
                assert(s.config_sound(sy));
            }
            lemma_settings_changed(s, t);
        },
        Call::SetAssetEnabled { .. } => {
            assert forall|sy: Symbol| #[trigger] t.configs.contains_key(sy) implies t.config_sound(
                sy,
            ) by {
                assert(s.configs.contains_key(sy));
                assert(s.config_sound(sy));
            }
            lemma_settings_changed(s, t);
        },
        Call::SetDebtCeiling { .. } => {
            assert forall|sy: Symbol| #[trigger] t.configs.contains_key(sy) implies t.config_sound(
                sy,
            ) by {
                assert(s.configs.contains_key(sy));
                assert(s.config_sound(sy));
            }
            lemma_settings_changed(s, t);
        },
        Call::SetStabilityPool { .. } => {
            assert forall|sy: Symbol| #[trigger] t.configs.contains_key(sy) implies t.config_sound(
                sy,
            ) by {
                assert(s.config_sound(sy));
            }
            lemma_settings_changed(s, t);
        },
        Call::SetPaused { .. } => {
            assert forall|sy: Symbol| #[trigger] t.configs.contains_key(sy) implies t.config_sound(
                sy,
            ) by {
                assert(s.config_sound(sy));
            }
            lemma_settings_changed(s, t);
        },
        Call::Upgrade { .. } => {},
        Call::OpenVault { owner, synth, coll_token, coll_amount } => {
            if s.open_vault(env, owner, synth, coll_token, coll_amount) is Ok {
                lemma_opened(s, env, owner, synth, coll_token, coll_amount);
            }
        },
        Call::DepositCollateral { owner, synth, amount } => {
            if s.deposit_collateral(env, owner, synth, amount) is Ok {
                assert(s.vault_sound((owner, synth)));
                lemma_vault_changed(s, t, (owner, synth), t.vaults[(owner, synth)]);
            }
        },
        Call::MintSynth { owner, synth, amount, coll_price, synth_price } => {
            if s.mint_synth(env, owner, synth, amount, coll_price, synth_price) is Ok {
                lemma_part_of_total(s, (owner, synth));
                assert(s.vault_sound((owner, synth)));
                lemma_vault_changed(s, t, (owner, synth), t.vaults[(owner, synth)]);
            }
        },
        Call::BurnSynth { owner, synth, amount } => {
            if s.burn_synth(env, owner, synth, amount) is Ok {
                lemma_part_of_total(s, (owner, synth));
                assert(s.vault_sound((owner, synth)));
                lemma_vault_changed(s, t, (owner, synth), t.vaults[(owner, synth)]);
            }
        },
        Call::WithdrawCollateral { owner, synth, amount, coll_price, synth_price } => {
            if s.withdraw_collateral(env, owner, synth, amount, coll_price, synth_price) is Ok {
                assert(s.vault_sound((owner, synth)));
                lemma_vault_changed(s, t, (owner, synth), t.vaults[(owner, synth)]);
            }
        },
        Call::Liquidate { liquidator, owner, synth, repay_amt, coll_price, synth_price } => {
            if s.liquidate(
                env,
                liquidator,
                owner,
                synth,
                repay_amt,
                coll_price,
                synth_price,
            ) is Ok {
                lemma_liquidated(
                    s,
                    env,
                    liquidator,
                    owner,
                    synth,
                    repay_amt,
                    coll_price,
                    synth_price,
                );
            }
        },
    }
}

/// The products that decide whether a collateral carries a debt are in range.
pub open spec fn in_range(
    collateral: int,
    debt: int,
    cfg: AssetConfig,
    coll_price: i128,
    synth_price: i128,
) -> bool {
    &&& arith::fits(collateral * coll_price)
    &&& arith::fits(collateral * coll_price * PRECISION)
    &&& arith::fits(debt * synth_price)
    &&& arith::fits(debt * synth_price * cfg.min_coll_ratio)
}

/// What is minted is backed: after a mint the vault's collateral is worth at
/// least the smallest ratio of its debt, and the asset's debt is at most its
/// ceiling. The products must be in range: one that is not is held to the
/// range, and no longer shows what it was.
pub proof fn law_mints_are_backed(
    s: EngineState,
    env: Context,
    owner: Address,
    synth: Symbol,
    amount: i128,
    coll_price: i128,
    synth_price: i128,
)
    requires
        s.sound(),
    ensures
        s.mint_synth(env, owner, synth, amount, coll_price, synth_price) matches Ok((t, _)) ==> {
            let vault = t.vaults[(owner, synth)];
            let cfg = s.configs[synth];
            &&& t.debt_total(synth) <= cfg.debt_ceiling
            &&& vault.debt == s.vaults[(owner, synth)].debt + amount
            &&& in_range(
                vault.collateral as int,
                vault.debt as int,
                cfg,
                coll_price,
                synth_price,
            ) ==> vault.collateral * coll_price * PRECISION >= vault.debt * synth_price
                * cfg.min_coll_ratio
        },
{
    if s.mint_synth(env, owner, synth, amount, coll_price, synth_price) is Ok {
        lemma_part_of_total(s, (owner, synth));
    }
}

/// What stays in a vault after a withdrawal still backs its debt.
pub proof fn law_withdrawals_are_backed(
    s: EngineState,
    env: Context,
    owner: Address,
    synth: Symbol,
    amount: i128,
    coll_price: i128,
    synth_price: i128,
)
    ensures
        s.withdraw_collateral(env, owner, synth, amount, coll_price, synth_price) matches Ok((t, _))
            ==> {
            let vault = t.vaults[(owner, synth)];
            let cfg = s.configs[synth];
            &&& 0 <= vault.collateral == s.vaults[(owner, synth)].collateral - amount
            &&& vault.debt > 0 && in_range(
                vault.collateral as int,
                vault.debt as int,
                cfg,
                coll_price,
                synth_price,
            ) ==> vault.collateral * coll_price * PRECISION >= vault.debt * synth_price
                * cfg.min_coll_ratio
        },
{
}

/// What a liquidator is owed for a repayment is worth at most the repayment
/// and the highest penalty.
proof fn lemma_worth(repay: int, penalty: int, coll_price: int, synth_price: int)
    requires
        repay >= 0,
        penalty <= MAX_PENALTY,
        coll_price > 0,
        synth_price >= 0,
        model::worth(repay, penalty, coll_price, synth_price) is Some,
    ensures
        model::worth(repay, penalty, coll_price, synth_price)->0 * coll_price * PRECISION <= repay
            * synth_price * (PRECISION + MAX_PENALTY),
        penalty >= 0 ==> model::worth(repay, penalty, coll_price, synth_price)->0 >= 0,
{
    let value = repay * synth_price;
    assert(value >= 0) by (nonlinear_arith)
        requires
            repay >= 0,
            synth_price >= 0,
            value == repay * synth_price,
    ;
    let repay_usd = model::usd(repay, synth_price);
    arith::lemma_quot_range(value, WAD as int);
    let product = repay_usd * penalty;
    let penalty_usd = arith::quot(product, PRECISION as int);
    assert(product <= repay_usd * MAX_PENALTY && (penalty >= 0 ==> product >= 0))
        by (nonlinear_arith)
        requires
            product == repay_usd * penalty,
            penalty <= MAX_PENALTY,
            repay_usd >= 0,
    ;
    arith::lemma_quot_range(product, PRECISION as int);
    let due = repay_usd + penalty_usd;
    let scaled = due * WAD;
    arith::lemma_quot_range(scaled, coll_price);
    let award = arith::quot(scaled, coll_price);
    assert(penalty_usd * PRECISION <= repay_usd * MAX_PENALTY);
    assert(scaled * PRECISION <= value * (PRECISION + MAX_PENALTY));
    if scaled >= 0 {
        assert(award * coll_price * PRECISION <= scaled * PRECISION);
    } else {
        assert(award * coll_price <= 0) by (nonlinear_arith)
            requires
                award <= 0,
                coll_price > 0,
        ;
        assert(award * coll_price * PRECISION <= 0);
    }
}

/// Only a vault under the liquidation ratio is liquidated; nobody repays more
/// than its debt or takes more than its collateral; and what the liquidator
/// takes is worth at most the repayment and a fifth of it.
pub proof fn law_liquidations_are_fair(
    s: EngineState,
    env: Context,
    liquidator: Address,
    owner: Address,
    synth: Symbol,
    repay_amt: i128,
    coll_price: i128,
    synth_price: i128,
)
    requires
        s.sound(),
        coll_price > 0,
        synth_price > 0,
    ensures
        s.liquidate(
            env,
            liquidator,
            owner,
            synth,
            repay_amt,
            coll_price,
            synth_price,
        ) is Ok ==> {
            let vault = s.vaults[(owner, synth)];
            let cfg = s.configs[synth];
            &&& model::ratio(vault, coll_price, synth_price) matches Ok(cr) && cr < cfg.liq_ratio
            &&& model::settled(vault, cfg, repay_amt, coll_price, synth_price) matches Ok(done)
            &&& 0 < done.repay <= vault.debt
            &&& done.repay <= repay_amt
            &&& done.award <= vault.collateral
            &&& cfg.liq_penalty >= 0 ==> done.award >= 0
            &&& done.award * coll_price * PRECISION <= done.repay * synth_price * (PRECISION
                + MAX_PENALTY)
        },
{
    if s.liquidate(env, liquidator, owner, synth, repay_amt, coll_price, synth_price) is Ok {
        let vault = s.vaults[(owner, synth)];
        let cfg = s.configs[synth];
        let done = model::settled(vault, cfg, repay_amt, coll_price, synth_price)->Ok_0;
        assert(s.vault_sound((owner, synth)));
        assert(s.config_sound(synth));
        assert(0 * synth_price == 0);
        let due = model::worth(
            done.repay as int,
            cfg.liq_penalty as int,
            coll_price as int,
            synth_price as int,
        )->0;
        lemma_worth(
            done.repay as int,
            cfg.liq_penalty as int,
            coll_price as int,
            synth_price as int,
        );
        assert(done.award * coll_price * PRECISION <= due * coll_price * PRECISION)
            by (nonlinear_arith)
            requires
                done.award <= due,
                coll_price > 0,
        ;
    }
}

/// What is asked and what is done agree: a vault that is not liquidatable is
/// not liquidated, and one that is is not refused as healthy.
pub proof fn law_liquidatable(
    s: EngineState,
    env: Context,
    liquidator: Address,
    owner: Address,
    synth: Symbol,
    repay_amt: i128,
    coll_price: i128,
    synth_price: i128,
)
    requires
        s.sound(),
        synth_price >= 0,
    ensures
        s.is_liquidatable(owner, synth, coll_price, synth_price) == Ok::<bool, Error>(false)
            ==> s.liquidate(
            env,
            liquidator,
            owner,
            synth,
            repay_amt,
            coll_price,
            synth_price,
        ) is Err,
        s.is_liquidatable(owner, synth, coll_price, synth_price) == Ok::<bool, Error>(true)
            ==> !error::refused(
            s.liquidate(env, liquidator, owner, synth, repay_amt, coll_price, synth_price),
            Error::NotUndercollateralised,
        ),
{
    if s.vaults.contains_key((owner, synth)) {
        let vault = s.vaults[(owner, synth)];
        assert(s.vault_sound((owner, synth)));
        assert(0 * synth_price == 0);
        assert(vault.debt * synth_price >= 0) by (nonlinear_arith)
            requires
                vault.debt >= 0,
                synth_price >= 0,
        ;
        arith::lemma_quot_range(vault.debt * synth_price, WAD as int);
    }
}

/// A disabled market takes no vault and mints nothing.
pub proof fn law_disabled_market(
    s: EngineState,
    env: Context,
    owner: Address,
    synth: Symbol,
    coll_token: Address,
    amount: i128,
    coll_price: i128,
    synth_price: i128,
)
    requires
        s.configs.contains_key(synth),
        !s.configs[synth].enabled,
    ensures
        s.open_vault(env, owner, synth, coll_token, amount) is Err,
        s.mint_synth(env, owner, synth, amount, coll_price, synth_price) is Err,
{
}

/// Disabling a market stops nobody from repaying, withdrawing or liquidating:
/// the calls have the outcome that they had, and the vaults and totals that
/// follow are the same.
pub proof fn law_disabling_keeps_the_way_out(
    s: EngineState,
    env: Context,
    dao: Address,
    user: Address,
    owner: Address,
    synth: Symbol,
    amount: i128,
    coll_price: i128,
    synth_price: i128,
    enabled: bool,
)
    ensures
        s.set_asset_enabled(dao, synth, enabled) matches Ok((t, _)) ==> {
            &&& same_outcome(
                s.burn_synth(env, owner, synth, amount),
                t.burn_synth(env, owner, synth, amount),
            )
            &&& same_outcome(
                s.withdraw_collateral(env, owner, synth, amount, coll_price, synth_price),
                t.withdraw_collateral(env, owner, synth, amount, coll_price, synth_price),
            )
            &&& same_outcome(
                s.liquidate(env, user, owner, synth, amount, coll_price, synth_price),
                t.liquidate(env, user, owner, synth, amount, coll_price, synth_price),
            )
        },
{
}

/// Two calls end alike: both are refused for one reason, or both leave the
/// same vaults and totals and have the same effects.
pub open spec fn same_outcome(
    a: Result<(EngineState, Seq<Effect>), Error>,
    b: Result<(EngineState, Seq<Effect>), Error>,
) -> bool {
    match (a, b) {
        (Err(e), Err(f)) => e == f,
        (Ok((s, x)), Ok((t, y))) => s.vaults == t.vaults && s.debt_totals == t.debt_totals && x
            == y,
        (Ok(_), Err(_)) => false,
        (Err(_), Ok(_)) => false,
    }
}

/// While the engine is paused nothing is opened, added, minted, withdrawn or
/// liquidated.
pub proof fn law_paused(
    s: EngineState,
    env: Context,
    user: Address,
    owner: Address,
    synth: Symbol,
    token: Address,
    amount: i128,
    coll_price: i128,
    synth_price: i128,
)
    requires
        s.paused,
    ensures
        error::refused(
            s.open_vault(env, owner, synth, token, amount),
            Error::ProtocolPaused,
        ),
        error::refused(
            s.deposit_collateral(env, owner, synth, amount),
            Error::ProtocolPaused,
        ),
        error::refused(
            s.mint_synth(env, owner, synth, amount, coll_price, synth_price),
            Error::ProtocolPaused,
        ),
        error::refused(
            s.withdraw_collateral(env, owner, synth, amount, coll_price, synth_price),
            Error::ProtocolPaused,
        ),
        error::refused(
            s.liquidate(env, user, owner, synth, amount, coll_price, synth_price),
            Error::ProtocolPaused,
        ),
{
}

/// Debt can be repaid at any time, whether the engine is paused or the market
/// disabled.
pub proof fn law_repaying_is_always_open(
    s: EngineState,
    env: Context,
    owner: Address,
    synth: Symbol,
    amount: i128,
)
    requires
        s.sound(),
        s.dao is Some,
        s.vaults.contains_key((owner, synth)),
        amount > 0,
    ensures
        s.burn_synth(env, owner, synth, amount) matches Ok((t, _)) && {
            let debt = s.vaults[(owner, synth)].debt;
            let repay = arith::min(amount as int, debt as int);
            &&& t.vaults[(owner, synth)].debt == debt - repay
            &&& t.debt_total(synth) == s.debt_total(synth) - repay
        },
{
    lemma_part_of_total(s, (owner, synth));
    assert(s.vault_sound((owner, synth)));
}

/// Every user's call is authorised by them and checked against the compliance
/// registry first.
pub proof fn law_users_are_checked(
    s: EngineState,
    env: Context,
    user: Address,
    owner: Address,
    synth: Symbol,
    token: Address,
    amount: i128,
    coll_price: i128,
    synth_price: i128,
)
    ensures
        s.open_vault(env, user, synth, token, amount) matches Ok((_, effects)) ==> effects.take(2)
            == s.gate(env, user),
        s.deposit_collateral(env, user, synth, amount) matches Ok((_, effects)) ==> effects.take(2)
            == s.gate(env, user),
        s.mint_synth(env, user, synth, amount, coll_price, synth_price) matches Ok((_, effects))
            ==> effects.take(2) == s.gate(env, user) && effects[2] == s.transfer_check(
            env,
            user,
            synth,
            amount,
        ),
        s.burn_synth(env, user, synth, amount) matches Ok((_, effects)) ==> effects.take(2)
            == s.gate(env, user),
        s.withdraw_collateral(env, user, synth, amount, coll_price, synth_price) matches Ok(
            (_, effects),
        ) ==> effects.take(2) == s.gate(env, user),
        s.liquidate(env, user, owner, synth, amount, coll_price, synth_price) matches Ok(
            (_, effects),
        ) ==> effects.take(2) == s.gate(env, user),
{
    let gate = s.gate(env, user);
    if s.open_vault(env, user, synth, token, amount) is Ok {
        assert(s.open_vault(env, user, synth, token, amount)->Ok_0.1.take(2) =~= gate);
    }
    if s.deposit_collateral(env, user, synth, amount) is Ok {
        assert(s.deposit_collateral(env, user, synth, amount)->Ok_0.1.take(2) =~= gate);
    }
    if s.mint_synth(env, user, synth, amount, coll_price, synth_price) is Ok {
        assert(s.mint_synth(env, user, synth, amount, coll_price, synth_price)->Ok_0.1.take(2)
            =~= gate);
    }
    if s.burn_synth(env, user, synth, amount) is Ok {
        assert(s.burn_synth(env, user, synth, amount)->Ok_0.1.take(2) =~= gate);
    }
    if s.withdraw_collateral(env, user, synth, amount, coll_price, synth_price) is Ok {
        assert(s.withdraw_collateral(
            env,
            user,
            synth,
            amount,
            coll_price,
            synth_price,
        )->Ok_0.1.take(2) =~= gate);
    }
    if s.liquidate(env, user, owner, synth, amount, coll_price, synth_price) is Ok {
        assert(s.liquidate(
            env,
            user,
            owner,
            synth,
            amount,
            coll_price,
            synth_price,
        )->Ok_0.1.take(2) =~= gate);
    }
}

/// Repaying what was minted gives the vault and the market the debt that they
/// had.
pub proof fn law_repaying_undoes_minting(
    s: EngineState,
    env: Context,
    owner: Address,
    synth: Symbol,
    amount: i128,
    coll_price: i128,
    synth_price: i128,
)
    requires
        s.sound(),
    ensures
        s.mint_synth(env, owner, synth, amount, coll_price, synth_price) matches Ok((t, _)) ==> (
        t.burn_synth(env, owner, synth, amount) matches Ok((u, _)) && u.vaults[(owner, synth)].debt
            == s.vaults[(owner, synth)].debt && u.debt_total(synth) == s.debt_total(synth)),
{
    if s.mint_synth(env, owner, synth, amount, coll_price, synth_price) is Ok {
        lemma_part_of_total(s, (owner, synth));
        assert(s.vault_sound((owner, synth)));
    }
}

/// Withdrawing what was deposited gives the vault the collateral that it had,
/// where it has no debt.
pub proof fn law_withdrawing_undoes_depositing(
    s: EngineState,
    env: Context,
    owner: Address,
    synth: Symbol,
    amount: i128,
    coll_price: i128,
    synth_price: i128,
)
    requires
        s.sound(),
        s.vaults[(owner, synth)].debt == 0,
    ensures
        s.deposit_collateral(env, owner, synth, amount) matches Ok((t, _)) ==> (
        t.withdraw_collateral(
            env,
            owner,
            synth,
            amount,
            coll_price,
            synth_price,
        ) matches Ok((u, _)) && u.vaults[(owner, synth)].collateral
            == s.vaults[(owner, synth)].collateral),
{
    if s.deposit_collateral(env, owner, synth, amount) is Ok {
        assert(s.vault_sound((owner, synth)));
    }
}

/// The fee for a mint is its rate in basis points of it, rounded down, and
/// never more than was minted where the rate is at most one.
pub proof fn law_mint_fee(amount: i128, stab_fee_bps: i128)
    requires
        amount >= 0,
        0 <= stab_fee_bps <= PRECISION,
        arith::fits(amount * stab_fee_bps),
    ensures
        0 <= model::mint_fee(amount as int, stab_fee_bps as int) <= amount,
        model::mint_fee(amount as int, stab_fee_bps as int) * PRECISION <= amount * stab_fee_bps
            < (model::mint_fee(amount as int, stab_fee_bps as int) + 1) * PRECISION,
{
    let scaled = amount * stab_fee_bps;
    assert(0 <= scaled <= amount * PRECISION) by (nonlinear_arith)
        requires
            scaled == amount * stab_fee_bps,
            amount >= 0,
            0 <= stab_fee_bps <= PRECISION,
    ;
    arith::lemma_quot_range(scaled, PRECISION as int);
}

/// Only the DAO changes the markets and the collateral that they take; only
/// the admin pauses the engine and sets the stability pool; the other
/// settings stay for good.
pub proof fn law_settings(s: EngineState, env: Context, call: Call)
    requires
        s.sound(),
        s.dao is Some,
    ensures
        ({
            let t = s.after(env, call);
            &&& t.admin == s.admin && t.oracle == s.oracle && t.compliance == s.compliance
                && t.earnings == s.earnings && t.dao == s.dao
            &&& t.configs != s.configs || t.collateral_allowed != s.collateral_allowed ==> match call {
                Call::RegisterAsset { dao, .. } => s.dao == Some(dao),
                Call::SetCollateralAllowed { dao, .. } => s.dao == Some(dao),
                Call::SetAssetEnabled { dao, .. } => s.dao == Some(dao),
                Call::SetDebtCeiling { dao, .. } => s.dao == Some(dao),
                _ => false,
            }
            &&& t.paused != s.paused || t.stab_pool != s.stab_pool ==> match call {
                Call::SetStabilityPool { admin, .. } => s.admin == Some(admin),
                Call::SetPaused { admin, .. } => s.admin == Some(admin),
                _ => false,
            }
        }),
{
    match call {
        Call::Initialize { .. } => {},
        Call::RegisterAsset { .. } => {},
        Call::SetCollateralAllowed { .. } => {},
        Call::SetAssetEnabled { .. } => {},
        Call::SetDebtCeiling { .. } => {},
        Call::SetStabilityPool { .. } => {},
        Call::SetPaused { .. } => {},
        Call::Upgrade { .. } => {},
        Call::OpenVault { .. } => {},
        Call::DepositCollateral { .. } => {},
        Call::MintSynth { .. } => {},
        Call::BurnSynth { .. } => {},
        Call::WithdrawCollateral { .. } => {},
        Call::Liquidate { .. } => {},
    }
}

/// An upgrade is authorised by the DAO that is stored, and changes nothing
/// else.
pub proof fn law_upgrade(s: EngineState, new_wasm_hash: WasmHash)
    ensures
        s.upgrade(new_wasm_hash) matches Ok((t, effects)) ==> {
            &&& t == s
            &&& effects == seq![Effect::RequireAuth(s.dao->0), Effect::UpdateWasm(new_wasm_hash)]
        },
        error::refused(s.upgrade(new_wasm_hash), Error::NotInitialised) == (s.dao is None),
{
}

} // verus!

//! What the calls on the engine give and leave, told from the numbers that a
//! vault and a market hold.
use crate::arith;
use crate::error::Error;
use crate::sums;
use crate::synthetic_engine::model;
use crate::synthetic_engine::model::EngineState;
use crate::synthetic_engine::{
    AssetConfig, BurnEvent, DepositEvent, Effect, LiquidationEvent, MarketCreatedEvent, MintEvent,
    OpenEvent, Vault, WithdrawEvent,
};
use crate::types::{Address, Context, Symbol, WasmHash};
use vstd::prelude::*;

verus! {

/// What a user's call starts with: the user's word, and the check of the user.
pub open spec fn checked(s: EngineState, env: Context, user: Address) -> Seq<Effect> {
    seq![
        Effect::RequireAuth(user),
        Effect::AssertUserCompliant { registry: s.compliance->0, caller: env.contract, user },
    ]
}

/// A vault is opened with the collateral that its owner pays in, and no debt.
pub proof fn law_open_vault(
    s: EngineState,
    env: Context,
    owner: Address,
    synth: Symbol,
    token: Address,
    amount: i128,
)
    ensures
        s.open_vault(env, owner, synth, token, amount) is Ok <==> {
            &&& !s.paused
            &&& s.compliance is Some
            &&& s.collateral_allowed.contains_key(token) && s.collateral_allowed[token]
            &&& s.configs.contains_key(synth) && s.configs[synth].enabled
            &&& !s.vaults.contains_key((owner, synth))
            &&& amount > 0
        },
        s.open_vault(env, owner, synth, token, amount) matches Ok((t, effects)) ==> {
            let vault = t.vaults[(owner, synth)];
            &&& vault.owner == owner && vault.synth_asset == synth
            &&& vault.collateral == amount && vault.collateral_tok == token && vault.debt == 0
            &&& vault.opened_at == env.timestamp && vault.last_update == env.timestamp
            &&& t == (EngineState {
                vaults: s.vaults.insert((owner, synth), vault),
                vaults_by_owner: t.vaults_by_owner,
                ..s
            })
            &&& t.vaults_by_owner == s.vaults_by_owner.insert(owner, t.vaults_by_owner[owner])
            &&& t.vaults_by_owner[owner] == (if s.vaults_by_owner.contains_key(owner) {
                s.vaults_by_owner[owner]
            } else {
                Seq::empty()
            }).push(synth)
            &&& effects == checked(s, env, owner) + seq![
                Effect::AssertTransferAllowed {
                    registry: s.compliance->0,
                    caller: env.contract,
                    from: owner,
                    to: owner,
                    asset: synth,
                    amount: 0,
                },
                Effect::Transfer { token, from: owner, to: env.contract, amount },
                Effect::Open(
                    OpenEvent {
                        owner,
                        synth_asset: synth,
                        collateral_token: token,
                        collateral_amount: amount,
                    },
                ),
            ]
        },
{
}

/// A deposit adds to the collateral what the owner pays in, of the vault's own
/// token.
pub proof fn law_deposit(
    s: EngineState,
    env: Context,
    owner: Address,
    synth: Symbol,
    amount: i128,
)
    ensures
        s.deposit_collateral(env, owner, synth, amount) is Ok <==> {
            &&& !s.paused
            &&& s.compliance is Some
            &&& amount > 0
            &&& s.vaults.contains_key((owner, synth))
            &&& s.vaults[(owner, synth)].collateral + amount <= i128::MAX
        },
        s.deposit_collateral(env, owner, synth, amount) matches Ok((t, effects)) ==> {
            let vault = s.vaults[(owner, synth)];
            let next = t.vaults[(owner, synth)];
            &&& next.collateral == vault.collateral + amount
            &&& next.last_update == env.timestamp
            &&& next == (Vault {
                collateral: next.collateral,
                last_update: next.last_update,
                ..vault
            })
            &&& t == (EngineState { vaults: s.vaults.insert((owner, synth), next), ..s })
            &&& effects == checked(s, env, owner) + seq![
                Effect::Transfer {
                    token: vault.collateral_tok,
                    from: owner,
                    to: env.contract,
                    amount,
                },
                Effect::Deposit(DepositEvent { owner, synth_asset: synth, amount }),
            ]
        },
{
}

/// The collateral carries the debt at the market's ratio.
pub open spec fn carries(
    collateral: int,
    coll_price: int,
    debt: int,
    synth_price: int,
    ratio: int,
) -> bool {
    collateral * coll_price * 10_000 >= debt * synth_price * ratio
}

proof fn lemma_carries(
    s: EngineState,
    collateral: int,
    debt: int,
    cfg: AssetConfig,
    coll_price: i128,
    synth_price: i128,
)
    requires
        s.oracle is Some,
        arith::fits(collateral * coll_price * 10_000),
        arith::fits(debt * synth_price * cfg.min_coll_ratio),
        collateral >= 0,
        debt >= 0,
        coll_price > 0,
        synth_price > 0,
        cfg.min_coll_ratio > 0,
    ensures
        s.cover_error(collateral, debt, cfg, coll_price, synth_price) is None <==> carries(
            collateral,
            coll_price as int,
            debt,
            synth_price as int,
            cfg.min_coll_ratio as int,
        ),
{
    let x = collateral * coll_price;
    let y = debt * synth_price;
    assert(0 <= x <= x * 10_000 && 0 <= y <= y * cfg.min_coll_ratio) by (nonlinear_arith)
        requires
            x == collateral * coll_price,
            y == debt * synth_price,
            collateral >= 0,
            debt >= 0,
            coll_price > 0,
            synth_price > 0,
            cfg.min_coll_ratio >= 1,
    ;
}

/// A mint adds to the debt of the vault and of the market what the owner gets,
/// and the owner burns the market's fee on it, which the distributor is told of.
/// It goes through where the market is open, its ceiling is not passed and the
/// collateral carries the whole debt at the market's ratio.
pub proof fn law_mint(
    s: EngineState,
    env: Context,
    owner: Address,
    synth: Symbol,
    amount: i128,
    coll_price: i128,
    synth_price: i128,
    fee: int,
)
    requires
        s.sound(),
        coll_price > 0,
        synth_price > 0,
        s.configs.contains_key(synth) ==> s.configs[synth].min_coll_ratio > 0
            && s.configs[synth].stab_fee_bps >= 0,
        fee * 10_000 <= amount * s.configs[synth].stab_fee_bps < (fee + 1) * 10_000,
        arith::fits(amount * s.configs[synth].stab_fee_bps),
        arith::fits(s.vaults[(owner, synth)].collateral * coll_price * 10_000),
        arith::fits(
            (s.vaults[(owner, synth)].debt + amount) * synth_price
                * s.configs[synth].min_coll_ratio,
        ),
    ensures
        s.mint_synth(env, owner, synth, amount, coll_price, synth_price) is Ok <==> {
            &&& !s.paused
            &&& amount > 0
            &&& s.compliance is Some && s.oracle is Some
            &&& s.vaults.contains_key((owner, synth))
            &&& s.configs.contains_key(synth) && s.configs[synth].enabled
            &&& sums::amount_at(s.debt_totals, synth) + amount <= s.configs[synth].debt_ceiling
            &&& carries(
                s.vaults[(owner, synth)].collateral as int,
                coll_price as int,
                s.vaults[(owner, synth)].debt + amount,
                synth_price as int,
                s.configs[synth].min_coll_ratio as int,
            )
        },
        s.mint_synth(env, owner, synth, amount, coll_price, synth_price) matches Ok((t, effects))
            ==> {
            let vault = s.vaults[(owner, synth)];
            let next = t.vaults[(owner, synth)];
            let token = s.configs[synth].token;
            &&& next.debt == vault.debt + amount
            &&& next.last_update == env.timestamp
            &&& next == (Vault { debt: next.debt, last_update: next.last_update, ..vault })
            &&& sums::amount_at(t.debt_totals, synth) == sums::amount_at(s.debt_totals, synth)
                + amount
            &&& t.debt_totals == s.debt_totals.insert(synth, t.debt_totals[synth])
            &&& t == (EngineState {
                vaults: s.vaults.insert((owner, synth), next),
                debt_totals: t.debt_totals,
                ..s
            })
            &&& effects == checked(s, env, owner) + seq![
                Effect::AssertTransferAllowed {
                    registry: s.compliance->0,
                    caller: env.contract,
                    from: owner,
                    to: owner,
                    asset: synth,
                    amount,
                },
                Effect::Mint { token, to: owner, amount },
            ] + (if fee > 0 {
                seq![Effect::Burn { token, from: owner, amount: fee as i128 }]
            } else {
                Seq::empty()
            }) + (if fee > 0 && s.earnings is Some {
                seq![
                    Effect::ReceiveRevenue {
                        distributor: s.earnings->0,
                        sender: env.contract,
                        token,
                        amount: fee as i128,
                        source: Symbol { head: 0x73746162666565, tail: 0 },
                        partner_id: 0,
                    },
                ]
            } else {
                Seq::empty()
            }) + seq![Effect::Minted(MintEvent { owner, synth_asset: synth, amount })]
        },
{
    let step = s.mint_synth(env, owner, synth, amount, coll_price, synth_price);
    let vault = s.vaults[(owner, synth)];
    let cfg = s.configs[synth];
    if amount > 0 && s.vaults.contains_key((owner, synth)) && s.configs.contains_key(synth) {
        assert(s.vault_sound((owner, synth)));
        let y = (vault.debt + amount) * synth_price;
        assert(vault.debt + amount <= y && y <= y * cfg.min_coll_ratio) by (nonlinear_arith)
            requires
                y == (vault.debt + amount) * synth_price,
                vault.debt + amount >= 0,
                synth_price >= 1,
                cfg.min_coll_ratio >= 1,
        ;
        if s.oracle is Some {
            lemma_carries(
                s,
                vault.collateral as int,
                vault.debt + amount,
                cfg,
                coll_price,
                synth_price,
            );
        }
        assert(amount * cfg.stab_fee_bps >= 0) by (nonlinear_arith)
            requires
                amount > 0,
                cfg.stab_fee_bps >= 0,
        ;
        arith::lemma_rounded_down(fee, amount * cfg.stab_fee_bps, 10_000);
        assert(s.debt_total(synth) == sums::amount_at(s.debt_totals, synth));
        if step is Ok {
            let effects = step->Ok_0.1;
            assert(effects =~= checked(s, env, owner) + effects.subrange(2, 4) + (if fee > 0 {
                seq![Effect::Burn { token: cfg.token, from: owner, amount: fee as i128 }]
            } else {
                Seq::empty()
            }) + (if fee > 0 && s.earnings is Some {
                seq![
                    Effect::ReceiveRevenue {
                        distributor: s.earnings->0,
                        sender: env.contract,
                        token: cfg.token,
                        amount: fee as i128,
                        source: Symbol { head: 0x73746162666565, tail: 0 },
                        partner_id: 0,
                    },
                ]
            } else {
                Seq::empty()
            }) + seq![Effect::Minted(MintEvent { owner, synth_asset: synth, amount })]);
        }
    }
}

/// Repaying burns what is asked for, or all the debt there is, and takes it off
/// the vault and the market. It is open at any time.
pub proof fn law_repay(
    s: EngineState,
    env: Context,
    owner: Address,
    synth: Symbol,
    amount: i128,
)
    requires
        s.sound(),
    ensures
        s.burn_synth(env, owner, synth, amount) is Ok <==> {
            &&& amount > 0
            &&& s.compliance is Some
            &&& s.vaults.contains_key((owner, synth))
        },
        s.burn_synth(env, owner, synth, amount) matches Ok((t, effects)) ==> {
            let vault = s.vaults[(owner, synth)];
            let next = t.vaults[(owner, synth)];
            let repaid = if amount <= vault.debt {
                amount
            } else {
                vault.debt
            };
            &&& next.debt == vault.debt - repaid
            &&& next.last_update == env.timestamp
            &&& next == (Vault { debt: next.debt, last_update: next.last_update, ..vault })
            &&& sums::amount_at(t.debt_totals, synth) == sums::amount_at(s.debt_totals, synth)
                - repaid
            &&& t.debt_totals == s.debt_totals.insert(synth, t.debt_totals[synth])
            &&& t == (EngineState {
                vaults: s.vaults.insert((owner, synth), next),
                debt_totals: t.debt_totals,
                ..s
            })
            &&& effects == checked(s, env, owner) + seq![
                Effect::Burn { token: s.configs[synth].token, from: owner, amount: repaid },
                Effect::Burnt(BurnEvent { owner, synth_asset: synth, amount: repaid }),
            ]
        },
{
    if s.vaults.contains_key((owner, synth)) {
        assert(s.vault_sound((owner, synth)));
        lemma_owed(s, (owner, synth));
        assert(s.debt_total(synth) == sums::amount_at(s.debt_totals, synth));
    }
}

/// A vault owes no more than its market does.
proof fn lemma_owed(s: EngineState, key: (Address, Symbol))
    requires
        s.sound(),
        s.vaults.contains_key(key),
    ensures
        0 <= s.vaults[key].debt <= s.debt_total(key.1),
{
    let weight = model::debt_in(key.1);
    assert forall|k: (Address, Symbol)| #[trigger] s.vaults.contains_key(k) implies weight(
        k,
        s.vaults[k],
    ) >= 0 by {
        assert(s.vault_sound(k));
    }
    sums::lemma_total_bounds(s.vaults, weight);
    assert(weight(key, s.vaults[key]) == s.vaults[key].debt);
    assert(s.vault_sound(key));
}

/// A withdrawal pays the owner out of the vault's collateral. It goes through
/// where there is as much, and what is left carries the debt, if there is any,
/// at the market's ratio.
pub proof fn law_withdraw(
    s: EngineState,
    env: Context,
    owner: Address,
    synth: Symbol,
    amount: i128,
    coll_price: i128,
    synth_price: i128,
)
    requires
        s.sound(),
        coll_price > 0,
        synth_price > 0,
        s.configs.contains_key(synth) ==> s.configs[synth].min_coll_ratio > 0,
        arith::fits((s.vaults[(owner, synth)].collateral - amount) * coll_price * 10_000),
        arith::fits(
            s.vaults[(owner, synth)].debt * synth_price * s.configs[synth].min_coll_ratio,
        ),
    ensures
        s.withdraw_collateral(env, owner, synth, amount, coll_price, synth_price) is Ok <==> {
            let vault = s.vaults[(owner, synth)];
            &&& !s.paused
            &&& amount > 0
            &&& s.compliance is Some
            &&& s.vaults.contains_key((owner, synth))
            &&& amount <= vault.collateral
            &&& vault.debt == 0 || carries(
                vault.collateral - amount,
                coll_price as int,
                vault.debt as int,
                synth_price as int,
                s.configs[synth].min_coll_ratio as int,
            )
        },
        s.withdraw_collateral(env, owner, synth, amount, coll_price, synth_price) matches Ok(
            (t, effects),
        ) ==> {
            let vault = s.vaults[(owner, synth)];
            let next = t.vaults[(owner, synth)];
            &&& next.collateral == vault.collateral - amount
            &&& next.last_update == env.timestamp
            &&& next == (Vault {
                collateral: next.collateral,
                last_update: next.last_update,
                ..vault
            })
            &&& t == (EngineState { vaults: s.vaults.insert((owner, synth), next), ..s })
            &&& effects == checked(s, env, owner) + seq![
                Effect::Transfer {
                    token: vault.collateral_tok,
                    from: env.contract,
                    to: owner,
                    amount,
                },
                Effect::Withdraw(WithdrawEvent { owner, synth_asset: synth, amount }),
            ]
        },
{
    if s.vaults.contains_key((owner, synth)) {
        assert(s.vault_sound((owner, synth)));
        let vault = s.vaults[(owner, synth)];
        if vault.collateral >= amount && s.oracle is Some {
            lemma_carries(
                s,
                vault.collateral - amount,
                vault.debt as int,
                s.configs[synth],
                coll_price,
                synth_price,
            );
        }
    }
}

/// The ratio of a vault: the dollars that its collateral is worth over those of
/// its debt, in basis points, each rounded down. A vault without debt has the
/// highest there is. It can be liquidated where the ratio is below the market's.
pub proof fn law_ratio(
    s: EngineState,
    owner: Address,
    synth: Symbol,
    coll_price: i128,
    synth_price: i128,
    coll_usd: int,
    debt_usd: int,
)
    requires
        s.sound(),
        s.vaults.contains_key((owner, synth)),
        coll_price > 0,
        synth_price > 0,
        coll_usd * 10_000_000 <= s.vaults[(owner, synth)].collateral * coll_price < (coll_usd + 1)
            * 10_000_000,
        debt_usd * 10_000_000 <= s.vaults[(owner, synth)].debt * synth_price < (debt_usd + 1)
            * 10_000_000,
    ensures
        s.vaults[(owner, synth)].debt == 0 ==> s.get_cr_bps(owner, synth, coll_price, synth_price)
            == Ok::<i128, Error>(i128::MAX),
        s.vaults[(owner, synth)].debt != 0 ==> (s.get_cr_bps(
            owner,
            synth,
            coll_price,
            synth_price,
        ) matches Ok(cr) ==> cr * debt_usd <= coll_usd * 10_000 < (cr + 1) * debt_usd),
        s.is_liquidatable(owner, synth, coll_price, synth_price) matches Ok(yes) ==> yes == (
        s.vaults[(owner, synth)].debt != 0 && s.get_cr_bps(
            owner,
            synth,
            coll_price,
            synth_price,
        )->Ok_0 < s.configs[synth].liq_ratio),
        s.oracle is Some && debt_usd > 0 && arith::fits(
            s.vaults[(owner, synth)].collateral * coll_price * 10_000,
        ) && arith::fits(s.vaults[(owner, synth)].debt * synth_price) ==> s.get_cr_bps(
            owner,
            synth,
            coll_price,
            synth_price,
        ) is Ok && s.is_liquidatable(owner, synth, coll_price, synth_price) is Ok,
{
    assert(s.vault_sound((owner, synth)));
    lemma_usd(s.vaults[(owner, synth)], coll_price, synth_price, coll_usd, debt_usd);
    let vault = s.vaults[(owner, synth)];
    if debt_usd > 0 {
        arith::lemma_rounded_down(0, coll_usd * 10_000, debt_usd);
    }
    let x = vault.collateral * coll_price;
    assert(x * 10_000 >= x && coll_usd * 10_000 <= x * 10_000) by (nonlinear_arith)
        requires
            x >= 0,
            coll_usd <= x,
    ;
}

/// The dollars of a vault are not negative.
proof fn lemma_usd(
    vault: Vault,
    coll_price: i128,
    synth_price: i128,
    coll_usd: int,
    debt_usd: int,
)
    requires
        vault.collateral >= 0,
        vault.debt >= 0,
        coll_price > 0,
        synth_price > 0,
        arith::rounded_down(coll_usd, vault.collateral * coll_price, 10_000_000),
        arith::rounded_down(debt_usd, vault.debt * synth_price, 10_000_000),
    ensures
        coll_usd == model::usd(vault.collateral as int, coll_price as int),
        debt_usd == model::usd(vault.debt as int, synth_price as int),
        0 <= coll_usd <= vault.collateral * coll_price,
        0 <= debt_usd <= vault.debt * synth_price,
{
    assert(vault.collateral * coll_price >= 0 && vault.debt * synth_price >= 0)
        by (nonlinear_arith)
        requires
            vault.collateral >= 0,
            vault.debt >= 0,
            coll_price > 0,
            synth_price > 0,
    ;
    arith::lemma_rounded_down(coll_usd, vault.collateral * coll_price, 10_000_000);
    arith::lemma_rounded_down(debt_usd, vault.debt * synth_price, 10_000_000);
}

/// A liquidation: the liquidator burns what is asked for, or all the debt there
/// is, and gets its worth in collateral with the market's penalty on top, each
/// step rounded down, or all the collateral there is. A vault without debt is
/// closed, and what it still held goes to the stability pool. It goes through
/// only where the ratio is below the market's.
pub proof fn law_liquidate(
    s: EngineState,
    env: Context,
    liquidator: Address,
    owner: Address,
    synth: Symbol,
    amount: i128,
    coll_price: i128,
    synth_price: i128,
    coll_usd: int,
    debt_usd: int,
    repaid_usd: int,
    penalty_usd: int,
    due: int,
)
    requires
        s.sound(),
        s.vaults.contains_key((owner, synth)),
        amount > 0,
        coll_price > 0,
        synth_price > 0,
        s.configs[synth].liq_penalty >= 0,
        arith::rounded_down(
            coll_usd,
            s.vaults[(owner, synth)].collateral * coll_price,
            10_000_000,
        ),
        arith::rounded_down(debt_usd, s.vaults[(owner, synth)].debt * synth_price, 10_000_000),
        arith::rounded_down(
            repaid_usd,
            (if amount <= s.vaults[(owner, synth)].debt {
                amount
            } else {
                s.vaults[(owner, synth)].debt
            }) * synth_price,
            10_000_000,
        ),
        arith::rounded_down(penalty_usd, repaid_usd * s.configs[synth].liq_penalty, 10_000),
        arith::rounded_down(due, (repaid_usd + penalty_usd) * 10_000_000, coll_price as int),
    ensures
        s.liquidate(
            env,
            liquidator,
            owner,
            synth,
            amount,
            coll_price,
            synth_price,
        ) matches Ok((t, effects)) ==> {
            let vault = s.vaults[(owner, synth)];
            let cfg = s.configs[synth];
            let repaid = if amount <= vault.debt {
                amount
            } else {
                vault.debt
            };
            let award = if due <= vault.collateral {
                due
            } else {
                vault.collateral as int
            };
            let left = vault.collateral - award;
            let next = t.vaults[(owner, synth)];
            &&& !s.paused
            &&& debt_usd > 0 && coll_usd * 10_000 < cfg.liq_ratio * debt_usd
            &&& repaid < vault.debt ==> {
                &&& next.debt == vault.debt - repaid
                &&& next.collateral == left
                &&& next.last_update == env.timestamp
                &&& next == (Vault {
                    debt: next.debt,
                    collateral: next.collateral,
                    last_update: next.last_update,
                    ..vault
                })
                &&& t.vaults == s.vaults.insert((owner, synth), next)
            }
            &&& repaid == vault.debt ==> t.vaults == s.vaults.remove((owner, synth))
            &&& sums::amount_at(t.debt_totals, synth) == sums::amount_at(s.debt_totals, synth)
                - repaid
            &&& t.debt_totals == s.debt_totals.insert(synth, t.debt_totals[synth])
            &&& t == (EngineState { vaults: t.vaults, debt_totals: t.debt_totals, ..s })
            &&& effects == checked(s, env, liquidator) + seq![
                Effect::Burn { token: cfg.token, from: liquidator, amount: repaid },
                Effect::Transfer {
                    token: vault.collateral_tok,
                    from: env.contract,
                    to: liquidator,
                    amount: award as i128,
                },
            ] + (if repaid == vault.debt && left > 0 && s.stab_pool is Some {
                seq![
                    Effect::Transfer {
                        token: vault.collateral_tok,
                        from: env.contract,
                        to: s.stab_pool->0,
                        amount: left as i128,
                    },
                ]
            } else {
                Seq::empty()
            }) + seq![
                Effect::Liquidated(
                    LiquidationEvent {
                        owner,
                        synth_asset: synth,
                        collateral_seized: award as i128,
                    },
                ),
            ]
        },
        !s.paused && s.oracle is Some && debt_usd > 0 && coll_usd * 10_000
            < s.configs[synth].liq_ratio * debt_usd && arith::fits(
            s.vaults[(owner, synth)].collateral * coll_price * 10_000,
        ) && arith::fits(s.vaults[(owner, synth)].debt * synth_price) && arith::fits(
            repaid_usd * s.configs[synth].liq_penalty,
        ) && arith::fits((repaid_usd + penalty_usd) * 10_000_000) ==> s.liquidate(
            env,
            liquidator,
            owner,
            synth,
            amount,
            coll_price,
            synth_price,
        ) is Ok,
{
    let vault = s.vaults[(owner, synth)];
    let cfg = s.configs[synth];
    assert(s.vault_sound((owner, synth)));
    lemma_owed(s, (owner, synth));
    lemma_usd(vault, coll_price, synth_price, coll_usd, debt_usd);
    assert(s.debt_total(synth) == sums::amount_at(s.debt_totals, synth));
    let repaid = arith::min(amount as int, vault.debt as int);
    assert(0 <= repaid * synth_price <= vault.debt * synth_price) by (nonlinear_arith)
        requires
            0 <= repaid <= vault.debt,
            synth_price > 0,
    ;
    arith::lemma_rounded_down(repaid_usd, repaid * synth_price, 10_000_000);
    assert(0 <= repaid_usd * cfg.liq_penalty) by (nonlinear_arith)
        requires
            repaid_usd >= 0,
            cfg.liq_penalty >= 0,
    ;
    arith::lemma_rounded_down(penalty_usd, repaid_usd * cfg.liq_penalty, 10_000);
    arith::lemma_rounded_down(due, (repaid_usd + penalty_usd) * 10_000_000, coll_price as int);
    let x = vault.collateral * coll_price;
    assert(x * 10_000 >= x && coll_usd * 10_000 <= x * 10_000 && coll_usd * 10_000 >= 0)
        by (nonlinear_arith)
        requires
            x >= 0,
            0 <= coll_usd <= x,
    ;
    if debt_usd > 0 {
        let cr = arith::quot(coll_usd * 10_000, debt_usd);
        arith::lemma_rounded_down(cr, coll_usd * 10_000, debt_usd);
        assert(cr < cfg.liq_ratio <==> coll_usd * 10_000 < cfg.liq_ratio * debt_usd)
            by (nonlinear_arith)
            requires
                cr * debt_usd <= coll_usd * 10_000 < (cr + 1) * debt_usd,
                debt_usd > 0,
        ;
    }
    let step = s.liquidate(env, liquidator, owner, synth, amount, coll_price, synth_price);
    if step is Ok {
        let effects = step->Ok_0.1;
        assert(effects.subrange(0, 2) =~= checked(s, env, liquidator));
    }
}

/// The markets: the DAO registers one with the rules that it names, switches it
/// on and off and sets its ceiling, and says which collateral counts. Each call
/// changes what it names and nothing else.
pub proof fn law_markets(
    s: EngineState,
    dao: Address,
    symbol: Symbol,
    token: Address,
    oracle_sym: Symbol,
    coll_oracle: Symbol,
    min_cr: i128,
    liq_cr: i128,
    liq_penalty: i128,
    stab_fee_bps: i128,
    debt_ceiling: i128,
    flag: bool,
)
    ensures
        ({
            let step = s.register_asset(
                dao,
                symbol,
                token,
                oracle_sym,
                coll_oracle,
                min_cr,
                liq_cr,
                liq_penalty,
                stab_fee_bps,
                debt_ceiling,
            );
            &&& step is Ok <==> s.dao == Some(dao) && min_cr > liq_cr && liq_penalty <= 2_000
            &&& step matches Ok((t, effects)) ==> {
                let cfg = t.configs[symbol];
                &&& cfg.token == token && cfg.oracle_symbol == oracle_sym && cfg.coll_oracle_sym
                    == coll_oracle
                &&& cfg.min_coll_ratio == min_cr && cfg.liq_ratio == liq_cr && cfg.liq_penalty
                    == liq_penalty
                &&& cfg.stab_fee_bps == stab_fee_bps && cfg.debt_ceiling == debt_ceiling
                    && cfg.enabled
                &&& t == (EngineState { configs: s.configs.insert(symbol, cfg), ..s })
                &&& effects == seq![
                    Effect::RequireAuth(dao),
                    Effect::MarketCreated(
                        MarketCreatedEvent {
                            symbol,
                            token,
                            oracle_symbol: oracle_sym,
                            coll_oracle_symbol: coll_oracle,
                            min_coll_ratio: min_cr,
                            liq_ratio: liq_cr,
                            liq_penalty,
                            stab_fee_bps,
                            debt_ceiling,
                        },
                    ),
                ]
            }
        }),
        s.set_asset_enabled(dao, symbol, flag) is Ok <==> s.dao == Some(dao)
            && s.configs.contains_key(symbol),
        s.set_asset_enabled(dao, symbol, flag) matches Ok((t, effects)) ==> t == (EngineState {
            configs: s.configs.insert(symbol, AssetConfig { enabled: flag, ..s.configs[symbol] }),
            ..s
        }) && effects == seq![Effect::RequireAuth(dao)],
        s.set_debt_ceiling(dao, symbol, debt_ceiling) is Ok <==> s.dao == Some(dao)
            && s.configs.contains_key(symbol),
        s.set_debt_ceiling(dao, symbol, debt_ceiling) matches Ok((t, effects)) ==> t == (
        EngineState {
            configs: s.configs.insert(symbol, AssetConfig { debt_ceiling, ..s.configs[symbol] }),
            ..s
        }) && effects == seq![Effect::RequireAuth(dao)],
        s.set_collateral_allowed(dao, token, flag) is Ok <==> s.dao == Some(dao),
        s.set_collateral_allowed(dao, token, flag) matches Ok((t, effects)) ==> {
            &&& (t.collateral_allowed.contains_key(token) && t.collateral_allowed[token]) == flag
            &&& forall|other: Address|
                other != token ==> (#[trigger] t.collateral_allowed.contains_key(other)
                    == s.collateral_allowed.contains_key(other)) && t.collateral_allowed[other]
                    == s.collateral_allowed[other]
            &&& t == (EngineState { collateral_allowed: t.collateral_allowed, ..s })
            &&& effects == seq![Effect::RequireAuth(dao)]
        },
{
}

/// The DAO and the admin are asked who they are first; what they ask for comes
/// after that.
pub proof fn law_refused_settings(
    s: EngineState,
    caller: Address,
    symbol: Symbol,
    token: Address,
    min_cr: i128,
    liq_cr: i128,
    liq_penalty: i128,
    amount: i128,
    flag: bool,
    hash: WasmHash,
)
    ensures
        s.dao == Some(caller) ==> {
            &&& s.register_asset(
                caller,
                symbol,
                token,
                symbol,
                symbol,
                min_cr,
                liq_cr,
                liq_penalty,
                amount,
                amount,
            ) matches Err(e) ==> e == (if min_cr <= liq_cr {
                Error::MinRatioTooLow
            } else {
                Error::PenaltyTooHigh
            })
            &&& s.set_asset_enabled(caller, symbol, flag) matches Err(e) ==> e
                == Error::AssetNotConfigured
            &&& s.set_debt_ceiling(caller, symbol, amount) matches Err(e) ==> e
                == Error::AssetNotConfigured
        },
        s.dao is Some && s.dao != Some(caller) ==> {
            &&& s.register_asset(
                caller,
                symbol,
                token,
                symbol,
                symbol,
                min_cr,
                liq_cr,
                liq_penalty,
                amount,
                amount,
            ) matches Err(e) && e == Error::DaoOnly
            &&& s.set_asset_enabled(caller, symbol, flag) matches Err(e) && e == Error::DaoOnly
            &&& s.set_debt_ceiling(caller, symbol, amount) matches Err(e) && e == Error::DaoOnly
            &&& s.set_collateral_allowed(caller, token, flag) matches Err(e) && e == Error::DaoOnly
        },
        s.admin is Some && s.admin != Some(caller) ==> {
            &&& s.set_paused(caller, flag) matches Err(e) && e == Error::AdminOnly
            &&& s.set_stability_pool(caller, token) matches Err(e) && e == Error::AdminOnly
        },
        s.admin is Some ==> (s.initialize(caller, token, token, token, token) matches Err(e) && e
            == Error::AlreadyInitialised),
        s.upgrade(hash) is Ok <==> s.dao is Some,
        s.upgrade(hash) matches Ok((t, effects)) ==> t == s && effects == seq![
            Effect::RequireAuth(s.dao->0),
            Effect::UpdateWasm(hash),
        ],
{
}

/// The engine is set up once; after that its admin pauses it and names the
/// stability pool.
pub proof fn law_setup(
    s: EngineState,
    admin: Address,
    oracle: Address,
    compliance: Address,
    earnings: Address,
    dao: Address,
    pool: Address,
    paused: bool,
)
    ensures
        s.initialize(admin, oracle, compliance, earnings, dao) is Ok <==> s.admin is None,
        s.initialize(admin, oracle, compliance, earnings, dao) matches Ok((t, effects)) ==> t == (
        EngineState {
            admin: Some(admin),
            oracle: Some(oracle),
            compliance: Some(compliance),
            earnings: Some(earnings),
            dao: Some(dao),
            paused: false,
            ..s
        }) && effects == seq![Effect::RequireAuth(admin)],
        s.set_paused(admin, paused) is Ok <==> s.admin == Some(admin),
        s.set_paused(admin, paused) matches Ok((t, effects)) ==> t == (EngineState { paused, ..s })
            && effects == seq![Effect::RequireAuth(admin)],
        s.set_stability_pool(admin, pool) is Ok <==> s.admin == Some(admin),
        s.set_stability_pool(admin, pool) matches Ok((t, effects)) ==> t == (EngineState {
            stab_pool: Some(pool),
            ..s
        }) && effects == seq![Effect::RequireAuth(admin)],
{
}

/// What the getters say is what is on record.
pub proof fn law_reads(s: EngineState, owner: Address, synth: Symbol)
    ensures
        s.debt_total(synth) == sums::amount_at(s.debt_totals, synth),
        s.owned(owner) == if s.vaults_by_owner.contains_key(owner) {
            s.vaults_by_owner[owner]
        } else {
            Seq::empty()
        },
{
}

/// Whatever the prices are, large products count as the largest number there is:
/// a mint goes through where the collateral so counted covers the debt so
/// counted, and a refusal says the first reason against it.
pub proof fn law_mint_at_any_price(
    s: EngineState,
    env: Context,
    owner: Address,
    synth: Symbol,
    amount: i128,
    coll_price: i128,
    synth_price: i128,
    fee: int,
)
    requires
        s.sound(),
        arith::rounded_to_zero(
            fee,
            arith::saturate(amount * s.configs[synth].stab_fee_bps),
            10_000,
        ),
    ensures
        ({
            let vault = s.vaults[(owner, synth)];
            let cfg = s.configs[synth];
            let total = sums::amount_at(s.debt_totals, synth);
            let debt = arith::saturate(vault.debt + amount);
            let covered = arith::saturate(arith::saturate(vault.collateral * coll_price) * 10_000)
                >= arith::saturate(arith::saturate(debt * synth_price) * cfg.min_coll_ratio);
            let step = s.mint_synth(env, owner, synth, amount, coll_price, synth_price);
            &&& step matches Err(e) ==> e == (if s.paused {
                Error::ProtocolPaused
            } else if amount <= 0 {
                Error::AmountNotPositive
            } else if s.compliance is None {
                Error::NotInitialised
            } else if !s.vaults.contains_key((owner, synth)) {
                Error::VaultNotFound
            } else if !s.configs.contains_key(synth) {
                Error::AssetNotConfigured
            } else if !cfg.enabled {
                Error::AssetDisabled
            } else if arith::saturate(total + amount) > cfg.debt_ceiling {
                Error::DebtCeilingExceeded
            } else if s.oracle is None {
                Error::NotInitialised
            } else if !covered {
                Error::CollateralRatioTooLow
            } else {
                Error::Arithmetic
            })
            &&& step is Ok <==> {
                &&& !s.paused
                &&& amount > 0
                &&& s.compliance is Some && s.oracle is Some
                &&& s.vaults.contains_key((owner, synth))
                &&& s.configs.contains_key(synth) && cfg.enabled
                &&& total + amount <= cfg.debt_ceiling
                &&& covered
            }
            &&& step matches Ok((t, effects)) ==> {
                &&& t == (EngineState {
                    vaults: s.vaults.insert(
                        (owner, synth),
                        Vault {
                            debt: (vault.debt + amount) as i128,
                            last_update: env.timestamp,
                            ..vault
                        },
                    ),
                    debt_totals: s.debt_totals.insert(synth, (total + amount) as i128),
                    ..s
                })
                &&& effects.take(4) == checked(s, env, owner) + seq![
                    Effect::AssertTransferAllowed {
                        registry: s.compliance->0,
                        caller: env.contract,
                        from: owner,
                        to: owner,
                        asset: synth,
                        amount,
                    },
                    Effect::Mint { token: cfg.token, to: owner, amount },
                ]
                &&& fee <= 0 ==> effects.len() == 5
                &&& fee > 0 ==> effects[4] == (Effect::Burn {
                    token: cfg.token,
                    from: owner,
                    amount: fee as i128,
                })
                &&& fee > 0 && s.earnings is None ==> effects.len() == 6
                &&& fee > 0 && s.earnings is Some ==> effects.len() == 7 && effects[5] == (
                Effect::ReceiveRevenue {
                    distributor: s.earnings->0,
                    sender: env.contract,
                    token: cfg.token,
                    amount: fee as i128,
                    source: Symbol { head: 0x73746162666565, tail: 0 },
                    partner_id: 0,
                })
                &&& effects.last() == Effect::Minted(
                    MintEvent { owner, synth_asset: synth, amount },
                )
            }
        }),
{
    let vault = s.vaults[(owner, synth)];
    assert(s.debt_total(synth) == sums::amount_at(s.debt_totals, synth));
    arith::lemma_rounded_to_zero(
        fee,
        arith::saturate(amount * s.configs[synth].stab_fee_bps),
        10_000,
    );
    if s.vaults.contains_key((owner, synth)) {
        assert(s.vault_sound((owner, synth)));
        lemma_owed(s, (owner, synth));
    }
    let step = s.mint_synth(env, owner, synth, amount, coll_price, synth_price);
    if step is Ok {
        assert(step->Ok_0.1.take(4) =~= checked(s, env, owner) + step->Ok_0.1.subrange(2, 4));
    }
}

/// Collateral comes out at any price where what is left, counted like that,
/// covers the debt; a refusal says the first reason against it.
pub proof fn law_withdraw_at_any_price(
    s: EngineState,
    env: Context,
    owner: Address,
    synth: Symbol,
    amount: i128,
    coll_price: i128,
    synth_price: i128,
)
    requires
        s.sound(),
    ensures
        ({
            let vault = s.vaults[(owner, synth)];
            let cfg = s.configs[synth];
            let left = vault.collateral - amount;
            let covered = arith::saturate(arith::saturate(left * coll_price) * 10_000)
                >= arith::saturate(arith::saturate(vault.debt * synth_price) * cfg.min_coll_ratio);
            let step = s.withdraw_collateral(env, owner, synth, amount, coll_price, synth_price);
            &&& step is Ok <==> {
                &&& !s.paused
                &&& amount > 0
                &&& s.compliance is Some
                &&& s.vaults.contains_key((owner, synth))
                &&& left >= 0
                &&& vault.debt == 0 || covered
            }
            &&& step matches Ok((t, effects)) ==> {
                &&& t == (EngineState {
                    vaults: s.vaults.insert(
                        (owner, synth),
                        Vault { collateral: left as i128, last_update: env.timestamp, ..vault },
                    ),
                    ..s
                })
                &&& effects == checked(s, env, owner) + seq![
                    Effect::Transfer {
                        token: vault.collateral_tok,
                        from: env.contract,
                        to: owner,
                        amount,
                    },
                    Effect::Withdraw(WithdrawEvent { owner, synth_asset: synth, amount }),
                ]
            }
            &&& step matches Err(e) ==> e == (if s.paused {
                Error::ProtocolPaused
            } else if amount <= 0 {
                Error::AmountNotPositive
            } else if s.compliance is None {
                Error::NotInitialised
            } else if !s.vaults.contains_key((owner, synth)) {
                Error::VaultNotFound
            } else if left < 0 {
                Error::InsufficientCollateral
            } else {
                Error::CollateralRatioTooLow
            })
        }),
{
    if s.vaults.contains_key((owner, synth)) {
        assert(s.vault_sound((owner, synth)));
    }
}

/// What is refused before any price is looked at, and why: the first of the
/// reasons counts.
pub proof fn law_refusals(
    s: EngineState,
    env: Context,
    user: Address,
    owner: Address,
    synth: Symbol,
    token: Address,
    amount: i128,
    coll_price: i128,
    synth_price: i128,
)
    ensures
        ({
            let held = s.vaults.contains_key((owner, synth));
            &&& s.open_vault(env, owner, synth, token, amount) matches Err(e) ==> e == (
            if s.paused {
                Error::ProtocolPaused
            } else if s.compliance is None {
                Error::NotInitialised
            } else if !(s.collateral_allowed.contains_key(token)
                && s.collateral_allowed[token]) {
                Error::CollateralNotWhitelisted
            } else if !s.configs.contains_key(synth) {
                Error::AssetNotRegistered
            } else if !s.configs[synth].enabled {
                Error::AssetDisabled
            } else if held {
                Error::VaultAlreadyOpen
            } else {
                Error::CollateralNotPositive
            })
            &&& s.deposit_collateral(env, owner, synth, amount) matches Err(e) ==> e == (
            if s.paused {
                Error::ProtocolPaused
            } else if s.compliance is None {
                Error::NotInitialised
            } else if amount <= 0 {
                Error::AmountNotPositive
            } else if !held {
                Error::VaultNotFound
            } else {
                Error::Arithmetic
            })
            &&& s.burn_synth(env, owner, synth, amount) matches Err(e) ==> e == (if amount <= 0 {
                Error::AmountNotPositive
            } else if s.compliance is None {
                Error::NotInitialised
            } else if !held {
                Error::VaultNotFound
            } else if !s.configs.contains_key(synth) {
                Error::AssetNotConfigured
            } else {
                Error::Arithmetic
            })
            &&& ({
                let step = s.liquidate(env, user, owner, synth, amount, coll_price, synth_price);
                &&& s.paused ==> (step matches Err(e) && e == Error::ProtocolPaused)
                &&& !s.paused && amount <= 0 ==> (step matches Err(e) && e
                    == Error::RepayNotPositive)
                &&& !s.paused && amount > 0 && s.compliance is Some && !held ==> (step matches Err(
                    e,
                ) && e == Error::VaultNotFound)
            })
            &&& !held ==> {
                &&& s.get_cr_bps(owner, synth, coll_price, synth_price) == Err::<i128, Error>(
                    Error::VaultNotFound,
                )
                &&& s.is_liquidatable(owner, synth, coll_price, synth_price) == Ok::<bool, Error>(
                    false,
                )
            }
        }),
{
}

/// A vault that carries its debt at the market's liquidation ratio, or whose debt
/// is worth nothing, is not liquidated.
pub proof fn law_healthy_vaults(
    s: EngineState,
    env: Context,
    liquidator: Address,
    owner: Address,
    synth: Symbol,
    amount: i128,
    coll_price: i128,
    synth_price: i128,
    coll_usd: int,
    debt_usd: int,
)
    requires
        s.sound(),
        !s.paused,
        s.oracle is Some,
        s.vaults.contains_key((owner, synth)),
        amount > 0,
        coll_price > 0,
        synth_price > 0,
        arith::rounded_down(
            coll_usd,
            s.vaults[(owner, synth)].collateral * coll_price,
            10_000_000,
        ),
        arith::rounded_down(debt_usd, s.vaults[(owner, synth)].debt * synth_price, 10_000_000),
        arith::fits(s.vaults[(owner, synth)].collateral * coll_price * 10_000),
        arith::fits(s.vaults[(owner, synth)].debt * synth_price),
        debt_usd == 0 || coll_usd * 10_000 >= s.configs[synth].liq_ratio * debt_usd,
    ensures
        s.liquidate(
            env,
            liquidator,
            owner,
            synth,
            amount,
            coll_price,
            synth_price,
        ) matches Err(e) && e == Error::NotUndercollateralised,
{
    let vault = s.vaults[(owner, synth)];
    let cfg = s.configs[synth];
    assert(s.vault_sound((owner, synth)));
    lemma_usd(vault, coll_price, synth_price, coll_usd, debt_usd);
    let x = vault.collateral * coll_price;
    assert(x * 10_000 >= x && 0 <= coll_usd * 10_000 <= x * 10_000) by (nonlinear_arith)
        requires
            x >= 0,
            0 <= coll_usd <= x,
    ;
    if debt_usd > 0 {
        let cr = arith::quot(coll_usd * 10_000, debt_usd);
        arith::lemma_rounded_down(cr, coll_usd * 10_000, debt_usd);
        assert(cr >= cfg.liq_ratio) by (nonlinear_arith)
            requires
                coll_usd * 10_000 < (cr + 1) * debt_usd,
                coll_usd * 10_000 >= cfg.liq_ratio * debt_usd,
                debt_usd > 0,
        ;
    }
}

} // verus!

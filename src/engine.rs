//! Cross-pool trade resolution: classifies a trade by where its two assets
//! live, composes the stable-pool solver with the hub pool's own trade rule,
//! and commits the result to the ledger as one unit.
//!
//! The hub pool's trade rule is a collaborator: each resolution takes it as
//! a function from the amount traded in the hub pool to the hub pool's state
//! change (`None` when its math fails). An answer that does not take in (for
//! a sell) or hand out (for a buy) exactly the amount asked is refused as a
//! `Math` failure. Everything is computed and every limit checked before
//! anything is applied.
use vstd::prelude::*;
use crate::stableswap::{
    out_given_in_spec, in_given_out_spec, calculate_out_given_in, calculate_in_given_out,
    shares_for_amount_spec, amount_for_shares_spec, shares_removed_spec, withdraw_one_asset_spec,
    calculate_shares_for_amount, calculate_amount_to_add_for_shares, calculate_shares_removed,
    calculate_withdraw_one_asset,
};
use crate::ledger::{apply_ops, apply_op, Account, Balances, Ledger, LedgerOp};
use crate::subpools::Pallet;
use crate::types::{AssetId, Balance, Capability, Error, HubAssetState, StablePool, TradeStateChange, lemma_index_from_bounds};


verus! {

/// How a trade between two assets is carried out.
#[derive(PartialEq, Eq, Structural, Clone, Copy, Debug)]
pub enum TradeRoute {
    /// Both assets are native to the hub pool: the hub pool trades them.
    Hub,
    /// Both assets live in the same subpool: that stable pool trades them.
    Subpool { pool_id: AssetId },
    /// The assets live in two different subpools.
    BetweenSubpools { pool_in: AssetId, pool_out: AssetId },
    /// A stable asset is sold and a hub-pool asset bought.
    StableIn { pool_in: AssetId },
    /// A hub-pool asset is sold and a stable asset bought.
    StableOut { pool_out: AssetId },
}

/// The effect of a resolved trade, to be committed as one unit.
#[derive(PartialEq, Eq, Structural, Clone, Copy, Debug)]
pub struct Settlement {
    /// Amount the trader pays of the asset sold.
    pub amount_in: Balance,
    /// Amount the trader receives of the asset bought.
    pub amount_out: Balance,
    /// Share tokens of the selling subpool deposited to the hub pool.
    pub shares_minted: Balance,
    /// Share tokens of the buying subpool withdrawn from the hub pool.
    pub shares_burned: Balance,
    /// Withdrawal fee kept by the buying subpool.
    pub withdraw_fee: Balance,
    /// State change to apply to the hub pool.
    pub hub_change: TradeStateChange,
}

impl Settlement {
    /// Ledger writes that carry out the settlement: the trader pays
    /// `amount_in` of `asset_in` into account `into`, receives `amount_out`
    /// of `asset_out` from account `out_of`, share tokens of subpool
    /// `share_in` are minted to the hub pool and those of subpool
    /// `share_out` burned from it.
    pub fn ledger_ops(
        &self,
        trader: Account,
        asset_in: AssetId,
        into: Account,
        asset_out: AssetId,
        out_of: Account,
        share_in: AssetId,
        share_out: AssetId,
    ) -> (r: Vec<LedgerOp>)
        ensures
            r@ == settlement_ops(*self, trader, asset_in, into, asset_out, out_of, share_in, share_out),
    {
        let mut r: Vec<LedgerOp> = Vec::new();
        r.push(LedgerOp::Transfer { asset: asset_in, from: trader, to: into, amount: self.amount_in });
        r.push(LedgerOp::Transfer { asset: asset_out, from: out_of, to: trader, amount: self.amount_out });
        r.push(LedgerOp::Mint { asset: share_in, to: Account::Hub, amount: self.shares_minted });
        r.push(LedgerOp::Burn { asset: share_out, from: Account::Hub, amount: self.shares_burned });
        assert(r@ =~= settlement_ops(*self, trader, asset_in, into, asset_out, out_of, share_in, share_out));
        r
    }
}

/// Ledger writes of a settlement (see [`Settlement::ledger_ops`]).
pub open spec fn settlement_ops(
    s: Settlement,
    trader: Account,
    asset_in: AssetId,
    into: Account,
    asset_out: AssetId,
    out_of: Account,
    share_in: AssetId,
    share_out: AssetId,
) -> Seq<LedgerOp> {
    seq![
        LedgerOp::Transfer { asset: asset_in, from: trader, to: into, amount: s.amount_in },
        LedgerOp::Transfer { asset: asset_out, from: out_of, to: trader, amount: s.amount_out },
        LedgerOp::Mint { asset: share_in, to: Account::Hub, amount: s.shares_minted },
        LedgerOp::Burn { asset: share_out, from: Account::Hub, amount: s.shares_burned },
    ]
}

/// Accounts a trade on `route` moves funds through: where the asset sold
/// goes, where the asset bought comes from, and the subpools whose share
/// tokens are minted to and burned from the hub pool.
pub open spec fn route_accounts(route: TradeRoute) -> (Account, Account, AssetId, AssetId) {
    match route {
        TradeRoute::Hub => (Account::Hub, Account::Hub, 0, 0),
        TradeRoute::Subpool { pool_id } => (Account::Subpool(pool_id), Account::Subpool(pool_id), pool_id, pool_id),
        TradeRoute::BetweenSubpools { pool_in, pool_out } => (Account::Subpool(pool_in), Account::Subpool(pool_out), pool_in, pool_out),
        TradeRoute::StableIn { pool_in } => (Account::Subpool(pool_in), Account::Hub, pool_in, pool_in),
        TradeRoute::StableOut { pool_out } => (Account::Hub, Account::Subpool(pool_out), pool_out, pool_out),
    }
}

fn route_accounts_exec(route: TradeRoute) -> (r: (Account, Account, AssetId, AssetId))
    ensures
        r == route_accounts(route),
{
    match route {
        TradeRoute::Hub => (Account::Hub, Account::Hub, 0, 0),
        TradeRoute::Subpool { pool_id } => (Account::Subpool(pool_id), Account::Subpool(pool_id), pool_id, pool_id),
        TradeRoute::BetweenSubpools { pool_in, pool_out } => (Account::Subpool(pool_in), Account::Subpool(pool_out), pool_in, pool_out),
        TradeRoute::StableIn { pool_in } => (Account::Subpool(pool_in), Account::Hub, pool_in, pool_in),
        TradeRoute::StableOut { pool_out } => (Account::Hub, Account::Subpool(pool_out), pool_out, pool_out),
    }
}

/// Route of a trade given where each asset was migrated, if anywhere.
pub open spec fn route_spec(
    migrated_in: Option<AssetId>,
    migrated_out: Option<AssetId>,
) -> TradeRoute {
    match (migrated_in, migrated_out) {
        (None, None) => TradeRoute::Hub,
        (Some(p), Some(q)) => if p == q {
            TradeRoute::Subpool { pool_id: p }
        } else {
            TradeRoute::BetweenSubpools { pool_in: p, pool_out: q }
        },
        (Some(p), None) => TradeRoute::StableIn { pool_in: p },
        (None, Some(q)) => TradeRoute::StableOut { pool_out: q },
    }
}

impl Pallet {
    /// Subpool an asset was migrated to, if any.
    pub open spec fn pool_of(&self, asset: AssetId) -> Option<AssetId> {
        if self.migrated_view().contains_key(asset) {
            Some(self.migrated_view()[asset].0)
        } else {
            None
        }
    }

    fn pool_of_exec(&self, asset: AssetId) -> (r: Option<AssetId>)
        ensures
            r == self.pool_of(asset),
    {
        match self.migrated_assets(asset) {
            Some((p, _)) => Some(p),
            None => None,
        }
    }

    /// Route of selling `asset_in` for `asset_out`.
    pub fn sell_route(&self, asset_in: AssetId, asset_out: AssetId) -> (r: TradeRoute)
        ensures
            r == route_spec(self.pool_of(asset_in), self.pool_of(asset_out)),
    {
        let pin = self.pool_of_exec(asset_in);
        let pout = self.pool_of_exec(asset_out);
        match (pin, pout) {
            (None, None) => TradeRoute::Hub,
            (Some(p), Some(q)) => if p == q {
                TradeRoute::Subpool { pool_id: p }
            } else {
                TradeRoute::BetweenSubpools { pool_in: p, pool_out: q }
            },
            (Some(p), None) => TradeRoute::StableIn { pool_in: p },
            (None, Some(q)) => TradeRoute::StableOut { pool_out: q },
        }
    }

    /// Route of buying `asset_out` with `asset_in`.
    pub fn buy_route(&self, asset_out: AssetId, asset_in: AssetId) -> (r: TradeRoute)
        ensures
            r == route_spec(self.pool_of(asset_in), self.pool_of(asset_out)),
    {
        self.sell_route(asset_in, asset_out)
    }
}

/// Shares of `pool` minted for depositing `amount` of `asset`.

pub open spec fn deposit_shares(pool: StablePool, asset: AssetId, amount: int, block: u64) -> Option<int> {
    shares_for_amount_spec(pool.balances@, pool.index_of(asset)->0, amount, pool.amplification_spec(block), pool.share_issuance as int)
}

/// Amount of `asset` to deposit into `pool` for `shares` new shares.
pub open spec fn deposit_for_shares(pool: StablePool, asset: AssetId, shares: int, block: u64) -> Option<int> {
    amount_for_shares_spec(pool.balances@, pool.index_of(asset)->0, shares, pool.amplification_spec(block), pool.share_issuance as int)
}

/// Shares of `pool` burned to withdraw `amount` of `asset`.
pub open spec fn withdrawal_shares(pool: StablePool, asset: AssetId, amount: int, block: u64) -> Option<int> {
    shares_removed_spec(
        pool.balances@,
        pool.index_of(asset)->0,
        amount,
        pool.amplification_spec(block),
        pool.share_issuance as int,
        pool.withdraw_fee as int,
    )
}

/// Net payout and fee of `asset` for burning `shares` of `pool`.
pub open spec fn withdrawal_payout(pool: StablePool, asset: AssetId, shares: int, block: u64) -> Option<(int, int)> {
    withdraw_one_asset_spec(
        pool.balances@,
        shares,
        pool.index_of(asset)->0,
        pool.share_issuance as int,
        pool.amplification_spec(block),
        pool.withdraw_fee as int,
    )
}

/// Settlement of a sell whose bought asset is paid out of subpool
/// `pool_out` for the share tokens the hub pool hands out (`q`), after the
/// hub pool was asked to take in `hub_in`. The trader pays `amount_in`;
/// `minted` says whether `hub_in` is share tokens minted to the hub pool.
pub open spec fn sell_to_stable_outcome(
    pool_out: StablePool,
    asset_out: AssetId,
    q: Option<TradeStateChange>,
    hub_in: Balance,
    amount_in: Balance,
    minted: bool,
    min_limit: Balance,
    block: u64,
) -> Result<Settlement, Error> {
    if pool_out.index_of(asset_out) is None {
        Err(Error::NotFound)
    } else {
        match q {
            None => Err(Error::Math),
            Some(q) => if q.delta_reserve_in != hub_in {
                Err(Error::Math)
            } else {
                match withdrawal_payout(pool_out, asset_out, q.delta_reserve_out as int, block) {
                    None => Err(Error::Math),
                    Some((net, fee)) => if net < min_limit {
                        Err(Error::LimitNotReached)
                    } else {
                        Ok(Settlement {
                            amount_in,
                            amount_out: net as u128,
                            shares_minted: if minted {
                                hub_in
                            } else {
                                0
                            },
                            shares_burned: q.delta_reserve_out,
                            withdraw_fee: fee as u128,
                            hub_change: q,
                        })
                    },
                }
            },
        }
    }
}

/// Settlement of a buy whose sold asset is paid into subpool `pool_in` for
/// the share tokens the hub pool takes in (`q`), after the hub pool was
/// asked to hand out `hub_out`. The trader receives `amount_out`; `burned`
/// says whether `hub_out` is share tokens burned from the hub pool.
pub open spec fn buy_from_stable_outcome(
    pool_in: StablePool,
    asset_in: AssetId,
    q: Option<TradeStateChange>,
    hub_out: Balance,
    amount_out: Balance,
    burned: bool,
    max_limit: Balance,
    block: u64,
) -> Result<Settlement, Error> {
    if pool_in.index_of(asset_in) is None {
        Err(Error::NotFound)
    } else {
        match q {
            None => Err(Error::Math),
            Some(q) => if q.delta_reserve_out != hub_out {
                Err(Error::Math)
            } else {
                match deposit_for_shares(pool_in, asset_in, q.delta_reserve_in as int, block) {
                    None => Err(Error::Math),
                    Some(dt) => if dt > max_limit {
                        Err(Error::LimitExceeded)
                    } else {
                        Ok(Settlement {
                            amount_in: dt as u128,
                            amount_out,
                            shares_minted: q.delta_reserve_in,
                            shares_burned: if burned {
                                hub_out
                            } else {
                                0
                            },
                            withdraw_fee: 0,
                            hub_change: q,
                        })
                    },
                }
            },
        }
    }
}

/// Settlement of a sell paid out by the hub pool in a hub-pool asset, after
/// it was asked to take in `hub_in`; `minted` says whether `hub_in` is share
/// tokens minted to the hub pool.
pub open spec fn sell_for_hub_outcome(
    q: Option<TradeStateChange>,
    hub_in: Balance,
    amount_in: Balance,
    minted: bool,
    min_limit: Balance,
) -> Result<Settlement, Error> {
    match q {
        None => Err(Error::Math),
        Some(q) => if q.delta_reserve_in != hub_in {
            Err(Error::Math)
        } else if q.delta_reserve_out < min_limit {
            Err(Error::LimitNotReached)
        } else {
            Ok(Settlement {
                amount_in,
                amount_out: q.delta_reserve_out,
                shares_minted: if minted {
                    hub_in
                } else {
                    0
                },
                shares_burned: 0,
                withdraw_fee: 0,
                hub_change: q,
            })
        },
    }
}

/// Settlement of a buy paid into the hub pool in a hub-pool asset, after it
/// was asked to hand out `hub_out`; `burned` says whether `hub_out` is share
/// tokens burned from the hub pool.
pub open spec fn buy_with_hub_outcome(
    q: Option<TradeStateChange>,
    hub_out: Balance,
    amount_out: Balance,
    burned: bool,
    max_limit: Balance,
) -> Result<Settlement, Error> {
    match q {
        None => Err(Error::Math),
        Some(q) => if q.delta_reserve_out != hub_out {
            Err(Error::Math)
        } else if q.delta_reserve_in > max_limit {
            Err(Error::LimitExceeded)
        } else {
            Ok(Settlement {
                amount_in: q.delta_reserve_in,
                amount_out,
                shares_minted: 0,
                shares_burned: if burned {
                    hub_out
                } else {
                    0
                },
                withdraw_fee: 0,
                hub_change: q,
            })
        },
    }
}

/// Pays out a sell from subpool `pool_out`: withdraws as `asset_out` the
/// share tokens the hub pool hands out in `q` (`None`: the hub pool's math
/// failed), after it was asked to take in `hub_in`, and holds the payout to
/// `min_limit`.
pub fn sell_to_stable(
    pool_out: &StablePool,
    asset_out: AssetId,
    q: Option<TradeStateChange>,
    hub_in: Balance,
    amount_in: Balance,
    minted: bool,
    min_limit: Balance,
    block: u64,
) -> (r: Result<Settlement, Error>)
    requires
        pool_out.wf(),
    ensures
        r == sell_to_stable_outcome(*pool_out, asset_out, q, hub_in, amount_in, minted, min_limit, block),
        r matches Ok(s) ==> s.amount_in == amount_in && s.amount_out >= min_limit,
{
    let j = match pool_out.find_asset(asset_out) {
        Some(j) => j,
        None => {
            return Err(Error::NotFound);
        },
    };
    let q = match q {
        Some(q) => q,
        None => {
            return Err(Error::Math);
        },
    };
    if q.delta_reserve_in != hub_in {
        return Err(Error::Math);
    }
    let amp = pool_out.amplification(block);
    match calculate_withdraw_one_asset(
        &pool_out.balances,
        q.delta_reserve_out,
        j,
        pool_out.share_issuance,
        amp,
        pool_out.withdraw_fee as u128,
    ) {
        None => Err(Error::Math),
        Some((net, fee)) => if net < min_limit {
            Err(Error::LimitNotReached)
        } else {
            Ok(Settlement {
                amount_in,
                amount_out: net,
                shares_minted: if minted {
                    hub_in
                } else {
                    0
                },
                shares_burned: q.delta_reserve_out,
                withdraw_fee: fee,
                hub_change: q,
            })
        },
    }
}

/// Collects a buy into subpool `pool_in`: mints, by depositing `asset_in`,
/// the share tokens the hub pool takes in `q` (`None`: the hub pool's math
/// failed), after it was asked to hand out `hub_out`, and holds the deposit
/// to `max_limit`.
pub fn buy_from_stable(
    pool_in: &StablePool,
    asset_in: AssetId,
    q: Option<TradeStateChange>,
    hub_out: Balance,
    amount_out: Balance,
    burned: bool,
    max_limit: Balance,
    block: u64,
) -> (r: Result<Settlement, Error>)
    requires
        pool_in.wf(),
    ensures
        r == buy_from_stable_outcome(*pool_in, asset_in, q, hub_out, amount_out, burned, max_limit, block),
        r matches Ok(s) ==> s.amount_out == amount_out && s.amount_in <= max_limit,
{
    let i = match pool_in.find_asset(asset_in) {
        Some(i) => i,
        None => {
            return Err(Error::NotFound);
        },
    };
    let q = match q {
        Some(q) => q,
        None => {
            return Err(Error::Math);
        },
    };
    if q.delta_reserve_out != hub_out {
        return Err(Error::Math);
    }
    let amp = pool_in.amplification(block);
    match calculate_amount_to_add_for_shares(&pool_in.balances, i, q.delta_reserve_in, amp, pool_in.share_issuance) {
        None => Err(Error::Math),
        Some(dt) => if dt > max_limit {
            Err(Error::LimitExceeded)
        } else {
            Ok(Settlement {
                amount_in: dt,
                amount_out,
                shares_minted: q.delta_reserve_in,
                shares_burned: if burned {
                    hub_out
                } else {
                    0
                },
                withdraw_fee: 0,
                hub_change: q,
            })
        },
    }
}

/// Settles a sell that the hub pool pays out (`q`) after it was asked to
/// take in `hub_in`, holding the payout to `min_limit`.
pub fn sell_for_hub(
    q: Option<TradeStateChange>,
    hub_in: Balance,
    amount_in: Balance,
    minted: bool,
    min_limit: Balance,
) -> (r: Result<Settlement, Error>)
    ensures
        r == sell_for_hub_outcome(q, hub_in, amount_in, minted, min_limit),
        r matches Ok(s) ==> s.amount_in == amount_in && s.amount_out >= min_limit,
{
    match q {
        None => Err(Error::Math),
        Some(c) => if c.delta_reserve_in != hub_in {
            Err(Error::Math)
        } else if c.delta_reserve_out < min_limit {
            Err(Error::LimitNotReached)
        } else {
            Ok(Settlement {
                amount_in,
                amount_out: c.delta_reserve_out,
                shares_minted: if minted {
                    hub_in
                } else {
                    0
                },
                shares_burned: 0,
                withdraw_fee: 0,
                hub_change: c,
            })
        },
    }
}

/// Settles a buy that the hub pool charges for (`q`) after it was asked to
/// hand out `hub_out`, holding the charge to `max_limit`.
pub fn buy_with_hub(
    q: Option<TradeStateChange>,
    hub_out: Balance,
    amount_out: Balance,
    burned: bool,
    max_limit: Balance,
) -> (r: Result<Settlement, Error>)
    ensures
        r == buy_with_hub_outcome(q, hub_out, amount_out, burned, max_limit),
        r matches Ok(s) ==> s.amount_out == amount_out && s.amount_in <= max_limit,
{
    match q {
        None => Err(Error::Math),
        Some(c) => if c.delta_reserve_out != hub_out {
            Err(Error::Math)
        } else if c.delta_reserve_in > max_limit {
            Err(Error::LimitExceeded)
        } else {
            Ok(Settlement {
                amount_in: c.delta_reserve_in,
                amount_out,
                shares_minted: 0,
                shares_burned: if burned {
                    hub_out
                } else {
                    0
                },
                withdraw_fee: 0,
                hub_change: c,
            })
        },
    }
}

/// Whether `asset_in` may be sold in the hub pool: the hub asset by the hub
/// pool's own permission, any other asset by its tradability.
pub open spec fn hub_side_sellable(state_in: HubAssetState, asset_in: AssetId, hub_asset_id: AssetId, hub_asset_sell_allowed: bool) -> bool {
    if asset_in == hub_asset_id {
        hub_asset_sell_allowed
    } else {
        state_in.tradable@.contains(Capability::Sell)
    }
}

fn hub_side_sellable_exec(state_in: &HubAssetState, asset_in: AssetId, hub_asset_id: AssetId, hub_asset_sell_allowed: bool) -> (r: bool)
    ensures
        r == hub_side_sellable(*state_in, asset_in, hub_asset_id, hub_asset_sell_allowed),
{
    if asset_in == hub_asset_id {
        hub_asset_sell_allowed
    } else {
        state_in.tradable.contains(Capability::Sell)
    }
}

// What each resolution returns, as a predicate on its result `r`.

/// Sell between two hub-pool assets.
pub open spec fn sell_hub_post<F: Fn(Balance) -> Option<TradeStateChange>>(
    state_in: HubAssetState,
    state_out: HubAssetState,
    asset_in: AssetId,
    asset_out: AssetId,
    hub_asset_id: AssetId,
    hub_asset_sell_allowed: bool,
    amount_in: Balance,
    min_limit: Balance,
    hub_sell: F,
    r: Result<Settlement, Error>,
) -> bool {
    &&& asset_out == hub_asset_id ==> r == Err::<Settlement, Error>(Error::NotAllowed)
    &&& asset_out != hub_asset_id && !(hub_side_sellable(state_in, asset_in, hub_asset_id, hub_asset_sell_allowed)
        && state_out.tradable@.contains(Capability::Buy)) ==> r == Err::<Settlement, Error>(Error::NotAllowed)
    &&& asset_out != hub_asset_id && hub_side_sellable(state_in, asset_in, hub_asset_id, hub_asset_sell_allowed)
        && state_out.tradable@.contains(Capability::Buy) ==> exists|q: Option<TradeStateChange>|
        #[trigger] call_ensures(hub_sell, (amount_in,), q) && r == sell_for_hub_outcome(q, amount_in, amount_in, false, min_limit)
    &&& r matches Ok(s) ==> s.amount_in == amount_in && s.amount_out >= min_limit
}

/// Sell within one subpool.
pub open spec fn sell_within_post(
    pool: StablePool,
    asset_in: AssetId,
    asset_out: AssetId,
    amount_in: Balance,
    min_limit: Balance,
    block: u64,
    r: Result<Settlement, Error>,
) -> bool {
    &&& asset_in == asset_out || !(pool.allows(asset_in, Capability::Sell) && pool.allows(asset_out, Capability::Buy))
        ==> r == Err::<Settlement, Error>(Error::NotAllowed)
    &&& asset_in != asset_out && pool.allows(asset_in, Capability::Sell) && pool.allows(asset_out, Capability::Buy)
        ==> match out_given_in_spec(
        pool.balances@,
        pool.index_of(asset_in)->0,
        pool.index_of(asset_out)->0,
        amount_in as int,
        pool.amplification_spec(block),
        pool.trade_fee as int,
    ) {
        None => r == Err::<Settlement, Error>(Error::Math),
        Some(out) => if out < min_limit {
            r == Err::<Settlement, Error>(Error::LimitNotReached)
        } else {
            r == Ok::<Settlement, Error>(Settlement {
                amount_in,
                amount_out: out as u128,
                shares_minted: 0,
                shares_burned: 0,
                withdraw_fee: 0,
                hub_change: no_hub_change(),
            })
        },
    }
    &&& r matches Ok(s) ==> s.amount_in == amount_in && s.amount_out >= min_limit
}

/// Sell from one subpool into another.
pub open spec fn sell_between_post<F: Fn(Balance) -> Option<TradeStateChange>>(
    pool_in: StablePool,
    pool_out: StablePool,
    asset_in: AssetId,
    asset_out: AssetId,
    amount_in: Balance,
    min_limit: Balance,
    block: u64,
    hub_sell: F,
    r: Result<Settlement, Error>,
) -> bool {
    &&& !(pool_in.allows(asset_in, Capability::Sell) && pool_out.allows(asset_out, Capability::Buy))
        ==> r == Err::<Settlement, Error>(Error::NotAllowed)
    &&& pool_in.allows(asset_in, Capability::Sell) && pool_out.allows(asset_out, Capability::Buy)
        ==> match deposit_shares(pool_in, asset_in, amount_in as int, block) {
        None => r == Err::<Settlement, Error>(Error::Math),
        Some(du) => exists|q: Option<TradeStateChange>|
            #[trigger] call_ensures(hub_sell, (du as u128,), q)
                && r == sell_to_stable_outcome(pool_out, asset_out, q, du as u128, amount_in, true, min_limit, block),
    }
    &&& r matches Ok(s) ==> s.amount_in == amount_in && s.amount_out >= min_limit
}

/// Sell of a stable asset for a hub-pool asset.
pub open spec fn sell_iso_out_post<F: Fn(Balance) -> Option<TradeStateChange>>(
    pool_in: StablePool,
    asset_in: AssetId,
    asset_out: AssetId,
    state_out: HubAssetState,
    hub_asset_id: AssetId,
    amount_in: Balance,
    min_limit: Balance,
    block: u64,
    hub_sell: F,
    r: Result<Settlement, Error>,
) -> bool {
    &&& asset_out == hub_asset_id ==> r == Err::<Settlement, Error>(Error::NotAllowed)
    &&& asset_out != hub_asset_id && !(pool_in.allows(asset_in, Capability::Sell) && state_out.tradable@.contains(Capability::Buy))
        ==> r == Err::<Settlement, Error>(Error::NotAllowed)
    &&& asset_out != hub_asset_id && pool_in.allows(asset_in, Capability::Sell) && state_out.tradable@.contains(Capability::Buy)
        ==> match deposit_shares(pool_in, asset_in, amount_in as int, block) {
        None => r == Err::<Settlement, Error>(Error::Math),
        Some(du) => exists|q: Option<TradeStateChange>|
            #[trigger] call_ensures(hub_sell, (du as u128,), q)
                && r == sell_for_hub_outcome(q, du as u128, amount_in, true, min_limit),
    }
    &&& r matches Ok(s) ==> s.amount_in == amount_in && s.amount_out >= min_limit
}

/// Sell of a hub-pool asset (or the hub asset) for a stable asset.
pub open spec fn sell_stable_out_post<F: Fn(Balance) -> Option<TradeStateChange>>(
    pool_out: StablePool,
    asset_in: AssetId,
    asset_out: AssetId,
    state_in: HubAssetState,
    hub_asset_id: AssetId,
    hub_asset_sell_allowed: bool,
    amount_in: Balance,
    min_limit: Balance,
    block: u64,
    hub_sell: F,
    r: Result<Settlement, Error>,
) -> bool {
    &&& !(pool_out.allows(asset_out, Capability::Buy) && hub_side_sellable(state_in, asset_in, hub_asset_id, hub_asset_sell_allowed))
        ==> r == Err::<Settlement, Error>(Error::NotAllowed)
    &&& pool_out.allows(asset_out, Capability::Buy) && hub_side_sellable(state_in, asset_in, hub_asset_id, hub_asset_sell_allowed)
        ==> exists|q: Option<TradeStateChange>|
        #[trigger] call_ensures(hub_sell, (amount_in,), q)
            && r == sell_to_stable_outcome(pool_out, asset_out, q, amount_in, amount_in, false, min_limit, block)
    &&& r matches Ok(s) ==> s.amount_in == amount_in && s.amount_out >= min_limit
}

/// Buy between two hub-pool assets.
pub open spec fn buy_hub_post<F: Fn(Balance) -> Option<TradeStateChange>>(
    state_in: HubAssetState,
    state_out: HubAssetState,
    asset_in: AssetId,
    asset_out: AssetId,
    hub_asset_id: AssetId,
    hub_asset_sell_allowed: bool,
    amount_out: Balance,
    max_limit: Balance,
    hub_buy: F,
    r: Result<Settlement, Error>,
) -> bool {
    &&& asset_out == hub_asset_id ==> r == Err::<Settlement, Error>(Error::NotAllowed)
    &&& asset_out != hub_asset_id && !(hub_side_sellable(state_in, asset_in, hub_asset_id, hub_asset_sell_allowed)
        && state_out.tradable@.contains(Capability::Buy)) ==> r == Err::<Settlement, Error>(Error::NotAllowed)
    &&& asset_out != hub_asset_id && hub_side_sellable(state_in, asset_in, hub_asset_id, hub_asset_sell_allowed)
        && state_out.tradable@.contains(Capability::Buy) ==> exists|q: Option<TradeStateChange>|
        #[trigger] call_ensures(hub_buy, (amount_out,), q) && r == buy_with_hub_outcome(q, amount_out, amount_out, false, max_limit)
    &&& r matches Ok(s) ==> s.amount_out == amount_out && s.amount_in <= max_limit
}

/// Buy within one subpool.
pub open spec fn buy_within_post(
    pool: StablePool,
    asset_in: AssetId,
    asset_out: AssetId,
    amount_out: Balance,
    max_limit: Balance,
    block: u64,
    r: Result<Settlement, Error>,
) -> bool {
    &&& asset_in == asset_out || !(pool.allows(asset_in, Capability::Sell) && pool.allows(asset_out, Capability::Buy))
        ==> r == Err::<Settlement, Error>(Error::NotAllowed)
    &&& asset_in != asset_out && pool.allows(asset_in, Capability::Sell) && pool.allows(asset_out, Capability::Buy)
        ==> match in_given_out_spec(
        pool.balances@,
        pool.index_of(asset_in)->0,
        pool.index_of(asset_out)->0,
        amount_out as int,
        pool.amplification_spec(block),
        pool.trade_fee as int,
    ) {
        None => r == Err::<Settlement, Error>(Error::Math),
        Some(cost) => if cost > max_limit {
            r == Err::<Settlement, Error>(Error::LimitExceeded)
        } else {
            r == Ok::<Settlement, Error>(Settlement {
                amount_in: cost as u128,
                amount_out,
                shares_minted: 0,
                shares_burned: 0,
                withdraw_fee: 0,
                hub_change: no_hub_change(),
            })
        },
    }
    &&& r matches Ok(s) ==> s.amount_out == amount_out && s.amount_in <= max_limit
}

/// Buy from one subpool paid from another.
pub open spec fn buy_between_post<F: Fn(Balance) -> Option<TradeStateChange>>(
    pool_in: StablePool,
    pool_out: StablePool,
    asset_in: AssetId,
    asset_out: AssetId,
    amount_out: Balance,
    max_limit: Balance,
    block: u64,
    hub_buy: F,
    r: Result<Settlement, Error>,
) -> bool {
    &&& !(pool_in.allows(asset_in, Capability::Sell) && pool_out.allows(asset_out, Capability::Buy))
        ==> r == Err::<Settlement, Error>(Error::NotAllowed)
    &&& pool_in.allows(asset_in, Capability::Sell) && pool_out.allows(asset_out, Capability::Buy)
        ==> match withdrawal_shares(pool_out, asset_out, amount_out as int, block) {
        None => r == Err::<Settlement, Error>(Error::Math),
        Some(du) => exists|q: Option<TradeStateChange>|
            #[trigger] call_ensures(hub_buy, (du as u128,), q)
                && r == buy_from_stable_outcome(pool_in, asset_in, q, du as u128, amount_out, true, max_limit, block),
    }
    &&& r matches Ok(s) ==> s.amount_out == amount_out && s.amount_in <= max_limit
}

/// Buy of a hub-pool asset paid in a stable asset.
pub open spec fn buy_stable_in_post<F: Fn(Balance) -> Option<TradeStateChange>>(
    pool_in: StablePool,
    asset_in: AssetId,
    asset_out: AssetId,
    state_out: HubAssetState,
    hub_asset_id: AssetId,
    amount_out: Balance,
    max_limit: Balance,
    block: u64,
    hub_buy: F,
    r: Result<Settlement, Error>,
) -> bool {
    &&& asset_out == hub_asset_id ==> r == Err::<Settlement, Error>(Error::NotAllowed)
    &&& asset_out != hub_asset_id && !(pool_in.allows(asset_in, Capability::Sell) && state_out.tradable@.contains(Capability::Buy))
        ==> r == Err::<Settlement, Error>(Error::NotAllowed)
    &&& asset_out != hub_asset_id && pool_in.allows(asset_in, Capability::Sell) && state_out.tradable@.contains(Capability::Buy)
        ==> exists|q: Option<TradeStateChange>|
        #[trigger] call_ensures(hub_buy, (amount_out,), q)
            && r == buy_from_stable_outcome(pool_in, asset_in, q, amount_out, amount_out, false, max_limit, block)
    &&& r matches Ok(s) ==> s.amount_out == amount_out && s.amount_in <= max_limit
}

/// Buy of a stable asset paid in a hub-pool asset (or the hub asset).
pub open spec fn buy_iso_in_post<F: Fn(Balance) -> Option<TradeStateChange>>(
    pool_out: StablePool,
    asset_in: AssetId,
    asset_out: AssetId,
    state_in: HubAssetState,
    hub_asset_id: AssetId,
    hub_asset_sell_allowed: bool,
    amount_out: Balance,
    max_limit: Balance,
    block: u64,
    hub_buy: F,
    r: Result<Settlement, Error>,
) -> bool {
    &&& !(pool_out.allows(asset_out, Capability::Buy) && hub_side_sellable(state_in, asset_in, hub_asset_id, hub_asset_sell_allowed))
        ==> r == Err::<Settlement, Error>(Error::NotAllowed)
    &&& pool_out.allows(asset_out, Capability::Buy) && hub_side_sellable(state_in, asset_in, hub_asset_id, hub_asset_sell_allowed)
        ==> match withdrawal_shares(pool_out, asset_out, amount_out as int, block) {
        None => r == Err::<Settlement, Error>(Error::Math),
        Some(du) => exists|q: Option<TradeStateChange>|
            #[trigger] call_ensures(hub_buy, (du as u128,), q)
                && r == buy_with_hub_outcome(q, du as u128, amount_out, true, max_limit),
    }
    &&& r matches Ok(s) ==> s.amount_out == amount_out && s.amount_in <= max_limit
}

/// Sells `amount_in` of hub-pool asset (or hub asset) `asset_in` for
/// hub-pool asset `asset_out`, both native to the hub pool: the hub pool
/// (`hub_sell`) trades them. The hub asset itself cannot be bought.
pub fn resolve_hub_sell<F: Fn(Balance) -> Option<TradeStateChange>>(
    state_in: &HubAssetState,
    state_out: &HubAssetState,
    asset_in: AssetId,
    asset_out: AssetId,
    hub_asset_id: AssetId,
    hub_asset_sell_allowed: bool,
    amount_in: Balance,
    min_limit: Balance,
    hub_sell: F,
) -> (r: Result<Settlement, Error>)
    requires
        forall|x: Balance| call_requires(hub_sell, (x,)),
    ensures
        sell_hub_post(*state_in, *state_out, asset_in, asset_out, hub_asset_id, hub_asset_sell_allowed, amount_in, min_limit, hub_sell, r),
{
    if asset_out == hub_asset_id {
        return Err(Error::NotAllowed);
    }
    if !(hub_side_sellable_exec(state_in, asset_in, hub_asset_id, hub_asset_sell_allowed) && state_out.tradable.contains(Capability::Buy)) {
        return Err(Error::NotAllowed);
    }
    let q = hub_sell(amount_in);
    let r = sell_for_hub(q, amount_in, amount_in, false, min_limit);
    assert(call_ensures(hub_sell, (amount_in,), q));
    r
}

/// Sells `amount_in` of `asset_in` from subpool `pool_in` for `asset_out`
/// from subpool `pool_out`: the deposit's shares are sold in the hub pool
/// (`hub_sell`) for the other subpool's shares, which are withdrawn as
/// `asset_out`.
pub fn resolve_sell_between_subpools<F: Fn(Balance) -> Option<TradeStateChange>>(
    pool_in: &StablePool,
    pool_out: &StablePool,
    asset_in: AssetId,
    asset_out: AssetId,
    amount_in: Balance,
    min_limit: Balance,
    block: u64,
    hub_sell: F,
) -> (r: Result<Settlement, Error>)
    requires
        pool_in.wf(),
        pool_out.wf(),
        forall|x: Balance| call_requires(hub_sell, (x,)),
    ensures
        sell_between_post(*pool_in, *pool_out, asset_in, asset_out, amount_in, min_limit, block, hub_sell, r),
{
    if !(pool_in.is_asset_allowed(asset_in, Capability::Sell) && pool_out.is_asset_allowed(asset_out, Capability::Buy)) {
        return Err(Error::NotAllowed);
    }
    let i = match pool_in.find_asset(asset_in) {
        Some(i) => i,
        None => {
            return Err(Error::NotAllowed);
        },
    };
    let amp = pool_in.amplification(block);
    let du = match calculate_shares_for_amount(&pool_in.balances, i, amount_in, amp, pool_in.share_issuance) {
        Some(v) => v,
        None => {
            return Err(Error::Math);
        },
    };
    let q = hub_sell(du);
    let r = sell_to_stable(pool_out, asset_out, q, du, amount_in, true, min_limit, block);
    proof {
        let dus = deposit_shares(*pool_in, asset_in, amount_in as int, block)->0;
        assert(dus as u128 == du);
        assert(call_ensures(hub_sell, (dus as u128,), q));
    }
    r
}

/// Sells `amount_in` of stable asset `asset_in` (subpool `pool_in`) for
/// hub-pool asset `asset_out` (state `state_out`): the deposit's shares are
/// sold in the hub pool (`hub_sell`). The hub asset itself cannot be bought.
pub fn resolve_mixed_trade_iso_out_given_stable_in<F: Fn(Balance) -> Option<TradeStateChange>>(
    pool_in: &StablePool,
    asset_in: AssetId,
    asset_out: AssetId,
    state_out: &HubAssetState,
    hub_asset_id: AssetId,
    amount_in: Balance,
    min_limit: Balance,
    block: u64,
    hub_sell: F,
) -> (r: Result<Settlement, Error>)
    requires
        pool_in.wf(),
        forall|x: Balance| call_requires(hub_sell, (x,)),
    ensures
        sell_iso_out_post(*pool_in, asset_in, asset_out, *state_out, hub_asset_id, amount_in, min_limit, block, hub_sell, r),
{
    if asset_out == hub_asset_id {
        return Err(Error::NotAllowed);
    }
    if !(pool_in.is_asset_allowed(asset_in, Capability::Sell) && state_out.tradable.contains(Capability::Buy)) {
        return Err(Error::NotAllowed);
    }
    let i = match pool_in.find_asset(asset_in) {
        Some(i) => i,
        None => {
            return Err(Error::NotAllowed);
        },
    };
    let amp = pool_in.amplification(block);
    let du = match calculate_shares_for_amount(&pool_in.balances, i, amount_in, amp, pool_in.share_issuance) {
        Some(v) => v,
        None => {
            return Err(Error::Math);
        },
    };
    let q = hub_sell(du);
    let r = sell_for_hub(q, du, amount_in, true, min_limit);
    proof {
        let dus = deposit_shares(*pool_in, asset_in, amount_in as int, block)->0;
        assert(dus as u128 == du);
        assert(call_ensures(hub_sell, (dus as u128,), q));
    }
    r
}

/// Sells `amount_in` of hub-pool asset `asset_in` (state `state_in`) for
/// stable asset `asset_out` (subpool `pool_out`): the hub pool (`hub_sell`)
/// hands out the subpool's shares, which are withdrawn as `asset_out`. When
/// `asset_in` is the hub asset the trade goes through
/// [`resolve_mixed_trade_stable_out_given_hub_asset_in`].
pub fn resolve_mixed_trade_stable_out_given_asset_in<F: Fn(Balance) -> Option<TradeStateChange>>(
    pool_out: &StablePool,
    asset_in: AssetId,
    asset_out: AssetId,
    state_in: &HubAssetState,
    hub_asset_id: AssetId,
    hub_asset_sell_allowed: bool,
    amount_in: Balance,
    min_limit: Balance,
    block: u64,
    hub_sell: F,
) -> (r: Result<Settlement, Error>)
    requires
        pool_out.wf(),
        forall|x: Balance| call_requires(hub_sell, (x,)),
    ensures
        sell_stable_out_post(*pool_out, asset_in, asset_out, *state_in, hub_asset_id, hub_asset_sell_allowed, amount_in, min_limit, block, hub_sell, r),
{
    if asset_in == hub_asset_id {
        return resolve_mixed_trade_stable_out_given_hub_asset_in(
            pool_out,
            asset_in,
            asset_out,
            hub_asset_id,
            hub_asset_sell_allowed,
            amount_in,
            min_limit,
            block,
            hub_sell,
        );
    }
    if !(pool_out.is_asset_allowed(asset_out, Capability::Buy) && state_in.tradable.contains(Capability::Sell)) {
        return Err(Error::NotAllowed);
    }
    let q = hub_sell(amount_in);
    let r = sell_to_stable(pool_out, asset_out, q, amount_in, amount_in, false, min_limit, block);
    assert(call_ensures(hub_sell, (amount_in,), q));
    r
}

/// Sells `amount_in` of the hub asset for stable asset `asset_out`
/// (subpool `pool_out`): the hub pool's hub-asset trade (`hub_sell`) hands
/// out the subpool's shares, which are withdrawn as `asset_out`.
pub fn resolve_mixed_trade_stable_out_given_hub_asset_in<F: Fn(Balance) -> Option<TradeStateChange>>(
    pool_out: &StablePool,
    asset_in: AssetId,
    asset_out: AssetId,
    hub_asset_id: AssetId,
    hub_asset_sell_allowed: bool,
    amount_in: Balance,
    min_limit: Balance,
    block: u64,
    hub_sell: F,
) -> (r: Result<Settlement, Error>)
    requires
        pool_out.wf(),
        forall|x: Balance| call_requires(hub_sell, (x,)),
    ensures
        !(asset_in == hub_asset_id && pool_out.allows(asset_out, Capability::Buy) && hub_asset_sell_allowed)
            ==> r == Err::<Settlement, Error>(Error::NotAllowed),
        asset_in == hub_asset_id && pool_out.allows(asset_out, Capability::Buy) && hub_asset_sell_allowed
            ==> exists|q: Option<TradeStateChange>|
            #[trigger] call_ensures(hub_sell, (amount_in,), q)
                && r == sell_to_stable_outcome(*pool_out, asset_out, q, amount_in, amount_in, false, min_limit, block),
        r matches Ok(s) ==> s.amount_in == amount_in && s.amount_out >= min_limit,
{
    if asset_in != hub_asset_id {
        return Err(Error::NotAllowed);
    }
    if !(pool_out.is_asset_allowed(asset_out, Capability::Buy) && hub_asset_sell_allowed) {
        return Err(Error::NotAllowed);
    }
    let q = hub_sell(amount_in);
    let r = sell_to_stable(pool_out, asset_out, q, amount_in, amount_in, false, min_limit, block);
    assert(call_ensures(hub_sell, (amount_in,), q));
    r
}

/// Buys `amount_out` of hub-pool asset `asset_out` with hub-pool asset (or
/// hub asset) `asset_in`, both native to the hub pool: the hub pool
/// (`hub_buy`) trades them. The hub asset itself cannot be bought.
pub fn resolve_hub_buy<F: Fn(Balance) -> Option<TradeStateChange>>(
    state_in: &HubAssetState,
    state_out: &HubAssetState,
    asset_in: AssetId,
    asset_out: AssetId,
    hub_asset_id: AssetId,
    hub_asset_sell_allowed: bool,
    amount_out: Balance,
    max_limit: Balance,
    hub_buy: F,
) -> (r: Result<Settlement, Error>)
    requires
        forall|x: Balance| call_requires(hub_buy, (x,)),
    ensures
        buy_hub_post(*state_in, *state_out, asset_in, asset_out, hub_asset_id, hub_asset_sell_allowed, amount_out, max_limit, hub_buy, r),
{
    if asset_out == hub_asset_id {
        return Err(Error::NotAllowed);
    }
    if !(hub_side_sellable_exec(state_in, asset_in, hub_asset_id, hub_asset_sell_allowed) && state_out.tradable.contains(Capability::Buy)) {
        return Err(Error::NotAllowed);
    }
    let q = hub_buy(amount_out);
    let r = buy_with_hub(q, amount_out, amount_out, false, max_limit);
    assert(call_ensures(hub_buy, (amount_out,), q));
    r
}

/// Buys `amount_out` of `asset_out` from subpool `pool_out` with `asset_in`
/// of subpool `pool_in`: the shares that withdrawal burns are bought in the
/// hub pool (`hub_buy`) with the first subpool's shares, which are minted by
/// depositing `asset_in`.
pub fn resolve_buy_between_subpools<F: Fn(Balance) -> Option<TradeStateChange>>(
    pool_in: &StablePool,
    pool_out: &StablePool,
    asset_in: AssetId,
    asset_out: AssetId,
    amount_out: Balance,
    max_limit: Balance,
    block: u64,
    hub_buy: F,
) -> (r: Result<Settlement, Error>)
    requires
        pool_in.wf(),
        pool_out.wf(),
        forall|x: Balance| call_requires(hub_buy, (x,)),
    ensures
        buy_between_post(*pool_in, *pool_out, asset_in, asset_out, amount_out, max_limit, block, hub_buy, r),
{
    if !(pool_in.is_asset_allowed(asset_in, Capability::Sell) && pool_out.is_asset_allowed(asset_out, Capability::Buy)) {
        return Err(Error::NotAllowed);
    }
    let j = match pool_out.find_asset(asset_out) {
        Some(j) => j,
        None => {
            return Err(Error::NotAllowed);
        },
    };
    let amp = pool_out.amplification(block);
    let du = match calculate_shares_removed(
        &pool_out.balances,
        j,
        amount_out,
        amp,
        pool_out.share_issuance,
        pool_out.withdraw_fee as u128,
    ) {
        Some(v) => v,
        None => {
            return Err(Error::Math);
        },
    };
    let q = hub_buy(du);
    let r = buy_from_stable(pool_in, asset_in, q, du, amount_out, true, max_limit, block);
    proof {
        let dus = withdrawal_shares(*pool_out, asset_out, amount_out as int, block)->0;
        assert(dus as u128 == du);
        assert(call_ensures(hub_buy, (dus as u128,), q));
    }
    r
}

/// Buys `amount_out` of hub-pool asset `asset_out` (state `state_out`) with
/// stable asset `asset_in` (subpool `pool_in`): the hub pool (`hub_buy`)
/// names the subpool shares it takes, which are minted by depositing
/// `asset_in`. The hub asset itself cannot be bought.
pub fn resolve_mixed_trade_stable_in_given_asset_out<F: Fn(Balance) -> Option<TradeStateChange>>(
    pool_in: &StablePool,
    asset_in: AssetId,
    asset_out: AssetId,
    state_out: &HubAssetState,
    hub_asset_id: AssetId,
    amount_out: Balance,
    max_limit: Balance,
    block: u64,
    hub_buy: F,
) -> (r: Result<Settlement, Error>)
    requires
        pool_in.wf(),
        forall|x: Balance| call_requires(hub_buy, (x,)),
    ensures
        buy_stable_in_post(*pool_in, asset_in, asset_out, *state_out, hub_asset_id, amount_out, max_limit, block, hub_buy, r),
{
    if asset_out == hub_asset_id {
        return Err(Error::NotAllowed);
    }
    if !(pool_in.is_asset_allowed(asset_in, Capability::Sell) && state_out.tradable.contains(Capability::Buy)) {
        return Err(Error::NotAllowed);
    }
    let q = hub_buy(amount_out);
    let r = buy_from_stable(pool_in, asset_in, q, amount_out, amount_out, false, max_limit, block);
    assert(call_ensures(hub_buy, (amount_out,), q));
    r
}

fn buy_stable_with_hub<F: Fn(Balance) -> Option<TradeStateChange>>(
    pool_out: &StablePool,
    asset_out: AssetId,
    amount_out: Balance,
    max_limit: Balance,
    block: u64,
    hub_buy: F,
) -> (r: Result<Settlement, Error>)
    requires
        pool_out.wf(),
        pool_out.allows(asset_out, Capability::Buy),
        forall|x: Balance| call_requires(hub_buy, (x,)),
    ensures
        match withdrawal_shares(*pool_out, asset_out, amount_out as int, block) {
            None => r == Err::<Settlement, Error>(Error::Math),
            Some(du) => exists|q: Option<TradeStateChange>|
                #[trigger] call_ensures(hub_buy, (du as u128,), q) && r == buy_with_hub_outcome(q, du as u128, amount_out, true, max_limit),
        },
        r matches Ok(s) ==> s.amount_out == amount_out && s.amount_in <= max_limit,
{
    let j = match pool_out.find_asset(asset_out) {
        Some(j) => j,
        None => {
            return Err(Error::Math);
        },
    };
    let amp = pool_out.amplification(block);
    let du = match calculate_shares_removed(
        &pool_out.balances,
        j,
        amount_out,
        amp,
        pool_out.share_issuance,
        pool_out.withdraw_fee as u128,
    ) {
        Some(v) => v,
        None => {
            return Err(Error::Math);
        },
    };
    let q = hub_buy(du);
    let r = buy_with_hub(q, du, amount_out, true, max_limit);
    proof {
        let dus = withdrawal_shares(*pool_out, asset_out, amount_out as int, block)->0;
        assert(dus as u128 == du);
        assert(call_ensures(hub_buy, (dus as u128,), q));
    }
    r
}

/// Buys `amount_out` of stable asset `asset_out` (subpool `pool_out`) with
/// hub-pool asset `asset_in` (state `state_in`): the shares that withdrawal
/// burns are bought in the hub pool (`hub_buy`). When `asset_in` is the hub
/// asset the trade goes through
/// [`resolve_mixed_trade_hub_asset_in_given_stable_out`].
pub fn resolve_mixed_trade_iso_in_given_stable_out<F: Fn(Balance) -> Option<TradeStateChange>>(
    pool_out: &StablePool,
    asset_in: AssetId,
    asset_out: AssetId,
    state_in: &HubAssetState,
    hub_asset_id: AssetId,
    hub_asset_sell_allowed: bool,
    amount_out: Balance,
    max_limit: Balance,
    block: u64,
    hub_buy: F,
) -> (r: Result<Settlement, Error>)
    requires
        pool_out.wf(),
        forall|x: Balance| call_requires(hub_buy, (x,)),
    ensures
        buy_iso_in_post(*pool_out, asset_in, asset_out, *state_in, hub_asset_id, hub_asset_sell_allowed, amount_out, max_limit, block, hub_buy, r),
{
    if asset_in == hub_asset_id {
        return resolve_mixed_trade_hub_asset_in_given_stable_out(
            pool_out,
            asset_in,
            asset_out,
            hub_asset_id,
            hub_asset_sell_allowed,
            amount_out,
            max_limit,
            block,
            hub_buy,
        );
    }
    if !(pool_out.is_asset_allowed(asset_out, Capability::Buy) && state_in.tradable.contains(Capability::Sell)) {
        return Err(Error::NotAllowed);
    }
    buy_stable_with_hub(pool_out, asset_out, amount_out, max_limit, block, hub_buy)
}

/// Buys `amount_out` of stable asset `asset_out` (subpool `pool_out`) with
/// the hub asset: the shares that withdrawal burns are bought with the hub
/// asset through the hub pool's hub-asset trade (`hub_buy`), whose
/// `delta_reserve_in` is the hub asset paid and is held to `max_limit`.
pub fn resolve_mixed_trade_hub_asset_in_given_stable_out<F: Fn(Balance) -> Option<TradeStateChange>>(
    pool_out: &StablePool,
    asset_in: AssetId,
    asset_out: AssetId,
    hub_asset_id: AssetId,
    hub_asset_sell_allowed: bool,
    amount_out: Balance,
    max_limit: Balance,
    block: u64,
    hub_buy: F,
) -> (r: Result<Settlement, Error>)
    requires
        pool_out.wf(),
        forall|x: Balance| call_requires(hub_buy, (x,)),
    ensures
        !(asset_in == hub_asset_id && pool_out.allows(asset_out, Capability::Buy) && hub_asset_sell_allowed)
            ==> r == Err::<Settlement, Error>(Error::NotAllowed),
        asset_in == hub_asset_id && pool_out.allows(asset_out, Capability::Buy) && hub_asset_sell_allowed
            ==> match withdrawal_shares(*pool_out, asset_out, amount_out as int, block) {
            None => r == Err::<Settlement, Error>(Error::Math),
            Some(du) => exists|q: Option<TradeStateChange>|
                #[trigger] call_ensures(hub_buy, (du as u128,), q) && r == buy_with_hub_outcome(q, du as u128, amount_out, true, max_limit),
        },
        r matches Ok(s) ==> s.amount_out == amount_out && s.amount_in <= max_limit,
{
    if asset_in != hub_asset_id {
        return Err(Error::NotAllowed);
    }
    if !(pool_out.is_asset_allowed(asset_out, Capability::Buy) && hub_asset_sell_allowed) {
        return Err(Error::NotAllowed);
    }
    buy_stable_with_hub(pool_out, asset_out, amount_out, max_limit, block, hub_buy)
}

pub open spec fn no_hub_change() -> TradeStateChange {
    TradeStateChange { delta_reserve_in: 0, delta_reserve_out: 0, delta_hub_reserve_in: 0, delta_hub_reserve_out: 0, fee: 0 }
}

fn zero_hub_change() -> (r: TradeStateChange)
    ensures
        r == no_hub_change(),
{
    TradeStateChange { delta_reserve_in: 0, delta_reserve_out: 0, delta_hub_reserve_in: 0, delta_hub_reserve_out: 0, fee: 0 }
}

/// Sells `amount_in` of `asset_in` for `asset_out`, both members of
/// `pool`, at the pool's trade fee; no hub-pool interaction.
pub fn resolve_sell_within_subpool(
    pool: &StablePool,
    asset_in: AssetId,
    asset_out: AssetId,
    amount_in: Balance,
    min_limit: Balance,
    block: u64,
) -> (r: Result<Settlement, Error>)
    requires
        pool.wf(),
    ensures
        sell_within_post(*pool, asset_in, asset_out, amount_in, min_limit, block, r),
{
    if asset_in == asset_out || !(pool.is_asset_allowed(asset_in, Capability::Sell) && pool.is_asset_allowed(asset_out, Capability::Buy)) {
        return Err(Error::NotAllowed);
    }
    let (i, j) = match (pool.find_asset(asset_in), pool.find_asset(asset_out)) {
        (Some(i), Some(j)) => (i, j),
        _ => {
            return Err(Error::NotAllowed);
        },
    };
    proof {
        lemma_index_from_bounds(pool.assets@, asset_in, 0);
        lemma_index_from_bounds(pool.assets@, asset_out, 0);
    }
    let amp = pool.amplification(block);
    match calculate_out_given_in(&pool.balances, i, j, amount_in, amp, pool.trade_fee as u128) {
        None => Err(Error::Math),
        Some(out) => if out < min_limit {
            Err(Error::LimitNotReached)
        } else {
            Ok(Settlement {
                amount_in,
                amount_out: out,
                shares_minted: 0,
                shares_burned: 0,
                withdraw_fee: 0,
                hub_change: zero_hub_change(),
            })
        },
    }
}

/// Buys `amount_out` of `asset_out` with `asset_in`, both members of
/// `pool`, at the pool's trade fee; no hub-pool interaction.
pub fn resolve_buy_within_subpool(
    pool: &StablePool,
    asset_in: AssetId,
    asset_out: AssetId,
    amount_out: Balance,
    max_limit: Balance,
    block: u64,
) -> (r: Result<Settlement, Error>)
    requires
        pool.wf(),
    ensures
        buy_within_post(*pool, asset_in, asset_out, amount_out, max_limit, block, r),
{
    if asset_in == asset_out || !(pool.is_asset_allowed(asset_in, Capability::Sell) && pool.is_asset_allowed(asset_out, Capability::Buy)) {
        return Err(Error::NotAllowed);
    }
    let (i, j) = match (pool.find_asset(asset_in), pool.find_asset(asset_out)) {
        (Some(i), Some(j)) => (i, j),
        _ => {
            return Err(Error::NotAllowed);
        },
    };
    proof {
        lemma_index_from_bounds(pool.assets@, asset_in, 0);
        lemma_index_from_bounds(pool.assets@, asset_out, 0);
    }
    let amp = pool.amplification(block);
    match calculate_in_given_out(&pool.balances, i, j, amount_out, amp, pool.trade_fee as u128) {
        None => Err(Error::Math),
        Some(cost) => if cost > max_limit {
            Err(Error::LimitExceeded)
        } else {
            Ok(Settlement {
                amount_in: cost,
                amount_out,
                shares_minted: 0,
                shares_burned: 0,
                withdraw_fee: 0,
                hub_change: zero_hub_change(),
            })
        },
    }
}


/// What committing the resolution `res` gives: a failed resolution is
/// returned as it is; a settlement is committed as its ledger writes, all
/// or none (`BalanceTooLow`). The ledger changes only on success.
pub open spec fn commit_outcome(
    old_balances: Balances,
    new_balances: Balances,
    res: Result<Settlement, Error>,
    r: Result<Settlement, Error>,
    trader: Account,
    asset_in: AssetId,
    into: Account,
    asset_out: AssetId,
    out_of: Account,
    share_in: AssetId,
    share_out: AssetId,
) -> bool {
    match res {
        Err(e) => r == Err::<Settlement, Error>(e) && new_balances == old_balances,
        Ok(s) => match apply_ops(old_balances, settlement_ops(s, trader, asset_in, into, asset_out, out_of, share_in, share_out), 4) {
            Some(m) => r == Ok::<Settlement, Error>(s) && new_balances == m,
            None => r == Err::<Settlement, Error>(Error::BalanceTooLow) && new_balances == old_balances,
        },
    }
}

/// Commits a resolved trade to `ledger` (see [`Settlement::ledger_ops`]),
/// or passes its error on with the ledger untouched.
pub fn commit_settlement(
    ledger: &mut Ledger,
    res: Result<Settlement, Error>,
    trader: Account,
    asset_in: AssetId,
    into: Account,
    asset_out: AssetId,
    out_of: Account,
    share_in: AssetId,
    share_out: AssetId,
) -> (r: Result<Settlement, Error>)
    ensures
        commit_outcome(old(ledger).view(), final(ledger).view(), res, r, trader, asset_in, into, asset_out, out_of, share_in, share_out),
{
    match res {
        Err(e) => Err(e),
        Ok(s) => {
            let ops = s.ledger_ops(trader, asset_in, into, asset_out, out_of, share_in, share_out);
            assert(ops@.len() == 4);
            match ledger.commit(&ops) {
                Ok(()) => Ok(s),
                Err(e) => Err(e),
            }
        },
    }
}

/// A committed settlement takes exactly `amount_in` of the asset sold from
/// the trader and gives exactly `amount_out` of the asset bought, when the
/// trader is a user and the pool accounts are not.
pub proof fn lemma_settlement_moves(
    old_balances: Balances,
    s: Settlement,
    trader: Account,
    asset_in: AssetId,
    into: Account,
    asset_out: AssetId,
    out_of: Account,
    share_in: AssetId,
    share_out: AssetId,
)
    requires
        trader is User,
        !(into is User),
        !(out_of is User),
        asset_in != asset_out,
        apply_ops(old_balances, settlement_ops(s, trader, asset_in, into, asset_out, out_of, share_in, share_out), 4) is Some,
    ensures
        ({
            let m = apply_ops(old_balances, settlement_ops(s, trader, asset_in, into, asset_out, out_of, share_in, share_out), 4)->0;
            &&& m[(asset_in, trader)] == old_balances[(asset_in, trader)] - s.amount_in
            &&& m[(asset_out, trader)] == old_balances[(asset_out, trader)] + s.amount_out
        }),
{
    let ops = settlement_ops(s, trader, asset_in, into, asset_out, out_of, share_in, share_out);
    let m1 = apply_ops(old_balances, ops, 1)->0;
    let m2 = apply_ops(old_balances, ops, 2)->0;
    let m3 = apply_ops(old_balances, ops, 3)->0;
    assert(apply_ops(old_balances, ops, 0) == Some(old_balances));
    assert(apply_ops(old_balances, ops, 1) == apply_op(old_balances, ops[0]));
    assert(apply_ops(old_balances, ops, 2) == apply_op(m1, ops[1]));
    assert(apply_ops(old_balances, ops, 3) == apply_op(m2, ops[2]));
    assert(apply_ops(old_balances, ops, 4) == apply_op(m3, ops[3]));
    assert(trader != into);
    assert(trader != out_of);
    assert(m1[(asset_in, trader)] == old_balances[(asset_in, trader)] - s.amount_in);
    assert(m1[(asset_out, trader)] == old_balances[(asset_out, trader)]);
    assert(m2[(asset_in, trader)] == m1[(asset_in, trader)]);
    assert(m2[(asset_out, trader)] == m1[(asset_out, trader)] + s.amount_out);
}

/// `pool` is the stable pool of subpool `pool_id` as the ledger holds it:
/// each member's balance is the subpool account's balance of that asset.
pub open spec fn pool_backed(pool: StablePool, pool_id: AssetId, balances: Balances) -> bool {
    forall|k: int| 0 <= k < pool.assets@.len() ==> #[trigger] pool.balances@[k] == balances[(pool.assets@[k], Account::Subpool(pool_id))]
}

/// What a sell resolves to on `route` (see the matching `resolve_*`).
pub open spec fn sell_resolution<F: Fn(Balance) -> Option<TradeStateChange>>(
    route: TradeRoute,
    pool_in: StablePool,
    pool_out: StablePool,
    state_in: HubAssetState,
    state_out: HubAssetState,
    hub_asset_id: AssetId,
    hub_asset_sell_allowed: bool,
    asset_in: AssetId,
    asset_out: AssetId,
    amount: Balance,
    min_limit: Balance,
    block: u64,
    hub_sell: F,
    res: Result<Settlement, Error>,
) -> bool {
    match route {
        TradeRoute::Hub => sell_hub_post(state_in, state_out, asset_in, asset_out, hub_asset_id, hub_asset_sell_allowed, amount, min_limit, hub_sell, res),
        TradeRoute::Subpool { .. } => sell_within_post(pool_in, asset_in, asset_out, amount, min_limit, block, res),
        TradeRoute::BetweenSubpools { .. } => sell_between_post(pool_in, pool_out, asset_in, asset_out, amount, min_limit, block, hub_sell, res),
        TradeRoute::StableIn { .. } => sell_iso_out_post(pool_in, asset_in, asset_out, state_out, hub_asset_id, amount, min_limit, block, hub_sell, res),
        TradeRoute::StableOut { .. } => sell_stable_out_post(
            pool_out,
            asset_in,
            asset_out,
            state_in,
            hub_asset_id,
            hub_asset_sell_allowed,
            amount,
            min_limit,
            block,
            hub_sell,
            res,
        ),
    }
}

/// What a buy resolves to on `route` (see the matching `resolve_*`).
pub open spec fn buy_resolution<F: Fn(Balance) -> Option<TradeStateChange>>(
    route: TradeRoute,
    pool_in: StablePool,
    pool_out: StablePool,
    state_in: HubAssetState,
    state_out: HubAssetState,
    hub_asset_id: AssetId,
    hub_asset_sell_allowed: bool,
    asset_in: AssetId,
    asset_out: AssetId,
    amount: Balance,
    max_limit: Balance,
    block: u64,
    hub_buy: F,
    res: Result<Settlement, Error>,
) -> bool {
    match route {
        TradeRoute::Hub => buy_hub_post(state_in, state_out, asset_in, asset_out, hub_asset_id, hub_asset_sell_allowed, amount, max_limit, hub_buy, res),
        TradeRoute::Subpool { .. } => buy_within_post(pool_in, asset_in, asset_out, amount, max_limit, block, res),
        TradeRoute::BetweenSubpools { .. } => buy_between_post(pool_in, pool_out, asset_in, asset_out, amount, max_limit, block, hub_buy, res),
        TradeRoute::StableIn { .. } => buy_stable_in_post(pool_in, asset_in, asset_out, state_out, hub_asset_id, amount, max_limit, block, hub_buy, res),
        TradeRoute::StableOut { .. } => buy_iso_in_post(
            pool_out,
            asset_in,
            asset_out,
            state_in,
            hub_asset_id,
            hub_asset_sell_allowed,
            amount,
            max_limit,
            block,
            hub_buy,
            res,
        ),
    }
}

impl Pallet {
    /// Sells `amount` of `asset_in` for `asset_out` on behalf of user
    /// `trader`, paying out at least `min_buy_amount`, and commits the trade
    /// to `ledger` as one unit.
    ///
    /// `pool_in` and `pool_out` are the subpools `asset_in` and `asset_out`
    /// were migrated to (for a trade inside one subpool, `pool_in`);
    /// `state_in` and `state_out` are their hub-pool states when they are
    /// native to the hub pool. Whatever a side does not use is ignored.
    /// The hub asset can never be bought.
    pub fn sell<F: Fn(Balance) -> Option<TradeStateChange>>(
        &self,
        ledger: &mut Ledger,
        trader: u64,
        pool_in: &StablePool,
        pool_out: &StablePool,
        state_in: &HubAssetState,
        state_out: &HubAssetState,
        hub_asset_id: AssetId,
        hub_asset_sell_allowed: bool,
        asset_in: AssetId,
        asset_out: AssetId,
        amount: Balance,
        min_buy_amount: Balance,
        block: u64,
        hub_sell: F,
    ) -> (r: Result<Settlement, Error>)
        requires
            pool_in.wf(),
            pool_out.wf(),
            forall|x: Balance| call_requires(hub_sell, (x,)),
            self.pool_of(asset_in) matches Some(p) ==> pool_backed(*pool_in, p, old(ledger).view()),
            self.pool_of(asset_out) matches Some(p) ==> pool_backed(*pool_out, p, old(ledger).view()),
        ensures
            asset_out == hub_asset_id ==> r == Err::<Settlement, Error>(Error::NotAllowed),
            asset_out != hub_asset_id ==> exists|res: Result<Settlement, Error>|
                #[trigger] sell_resolution(
                    route_spec(self.pool_of(asset_in), self.pool_of(asset_out)),
                    *pool_in,
                    *pool_out,
                    *state_in,
                    *state_out,
                    hub_asset_id,
                    hub_asset_sell_allowed,
                    asset_in,
                    asset_out,
                    amount,
                    min_buy_amount,
                    block,
                    hub_sell,
                    res,
                ) && ({
                    let acc = route_accounts(route_spec(self.pool_of(asset_in), self.pool_of(asset_out)));
                    commit_outcome(old(ledger).view(), final(ledger).view(), res, r, Account::User(trader), asset_in, acc.0, asset_out, acc.1, acc.2, acc.3)
                }),
            r is Err ==> final(ledger).view() == old(ledger).view(),
            r matches Ok(s) ==> s.amount_in == amount && s.amount_out >= min_buy_amount,
            r matches Ok(s) ==> (asset_in != asset_out ==> final(ledger).view()[(asset_in, Account::User(trader))]
                == old(ledger).view()[(asset_in, Account::User(trader))] - amount
                && final(ledger).view()[(asset_out, Account::User(trader))]
                == old(ledger).view()[(asset_out, Account::User(trader))] + s.amount_out),
    {
        if asset_out == hub_asset_id {
            return Err(Error::NotAllowed);
        }
        let route = self.sell_route(asset_in, asset_out);
        let res = match route {
            TradeRoute::Hub => resolve_hub_sell(
                state_in,
                state_out,
                asset_in,
                asset_out,
                hub_asset_id,
                hub_asset_sell_allowed,
                amount,
                min_buy_amount,
                hub_sell,
            ),
            TradeRoute::Subpool { .. } => resolve_sell_within_subpool(pool_in, asset_in, asset_out, amount, min_buy_amount, block),
            TradeRoute::BetweenSubpools { .. } => resolve_sell_between_subpools(
                pool_in,
                pool_out,
                asset_in,
                asset_out,
                amount,
                min_buy_amount,
                block,
                hub_sell,
            ),
            TradeRoute::StableIn { .. } => resolve_mixed_trade_iso_out_given_stable_in(
                pool_in,
                asset_in,
                asset_out,
                state_out,
                hub_asset_id,
                amount,
                min_buy_amount,
                block,
                hub_sell,
            ),
            TradeRoute::StableOut { .. } => resolve_mixed_trade_stable_out_given_asset_in(
                pool_out,
                asset_in,
                asset_out,
                state_in,
                hub_asset_id,
                hub_asset_sell_allowed,
                amount,
                min_buy_amount,
                block,
                hub_sell,
            ),
        };
        let (into, out_of, share_in, share_out) = route_accounts_exec(route);
        let ghost before = ledger.view();
        let r = commit_settlement(ledger, res, Account::User(trader), asset_in, into, asset_out, out_of, share_in, share_out);
        proof {
            assert(sell_resolution(
                route,
                *pool_in,
                *pool_out,
                *state_in,
                *state_out,
                hub_asset_id,
                hub_asset_sell_allowed,
                asset_in,
                asset_out,
                amount,
                min_buy_amount,
                block,
                hub_sell,
                res,
            ));
            if r is Ok && asset_in != asset_out {
                lemma_settlement_moves(before, res->Ok_0, Account::User(trader), asset_in, into, asset_out, out_of, share_in, share_out);
            }
        }
        r
    }

    /// Buys `amount` of `asset_out` with `asset_in` on behalf of user
    /// `trader`, paying at most `max_sell_amount`, and commits the trade to
    /// `ledger` as one unit.
    ///
    /// `pool_in`, `pool_out`, `state_in` and `state_out` are as for
    /// [`Pallet::sell`]. The hub asset can never be bought.
    pub fn buy<F: Fn(Balance) -> Option<TradeStateChange>>(
        &self,
        ledger: &mut Ledger,
        trader: u64,
        pool_in: &StablePool,
        pool_out: &StablePool,
        state_in: &HubAssetState,
        state_out: &HubAssetState,
        hub_asset_id: AssetId,
        hub_asset_sell_allowed: bool,
        asset_out: AssetId,
        asset_in: AssetId,
        amount: Balance,
        max_sell_amount: Balance,
        block: u64,
        hub_buy: F,
    ) -> (r: Result<Settlement, Error>)
        requires
            pool_in.wf(),
            pool_out.wf(),
            forall|x: Balance| call_requires(hub_buy, (x,)),
            self.pool_of(asset_in) matches Some(p) ==> pool_backed(*pool_in, p, old(ledger).view()),
            self.pool_of(asset_out) matches Some(p) ==> pool_backed(*pool_out, p, old(ledger).view()),
        ensures
            asset_out == hub_asset_id ==> r == Err::<Settlement, Error>(Error::NotAllowed),
            asset_out != hub_asset_id ==> exists|res: Result<Settlement, Error>|
                #[trigger] buy_resolution(
                    route_spec(self.pool_of(asset_in), self.pool_of(asset_out)),
                    *pool_in,
                    *pool_out,
                    *state_in,
                    *state_out,
                    hub_asset_id,
                    hub_asset_sell_allowed,
                    asset_in,
                    asset_out,
                    amount,
                    max_sell_amount,
                    block,
                    hub_buy,
                    res,
                ) && ({
                    let acc = route_accounts(route_spec(self.pool_of(asset_in), self.pool_of(asset_out)));
                    commit_outcome(old(ledger).view(), final(ledger).view(), res, r, Account::User(trader), asset_in, acc.0, asset_out, acc.1, acc.2, acc.3)
                }),
            r is Err ==> final(ledger).view() == old(ledger).view(),
            r matches Ok(s) ==> s.amount_out == amount && s.amount_in <= max_sell_amount,
            r matches Ok(s) ==> (asset_in != asset_out ==> final(ledger).view()[(asset_in, Account::User(trader))]
                == old(ledger).view()[(asset_in, Account::User(trader))] - s.amount_in
                && final(ledger).view()[(asset_out, Account::User(trader))]
                == old(ledger).view()[(asset_out, Account::User(trader))] + amount),
    {
        if asset_out == hub_asset_id {
            return Err(Error::NotAllowed);
        }
        let route = self.buy_route(asset_out, asset_in);
        let res = match route {
            TradeRoute::Hub => resolve_hub_buy(
                state_in,
                state_out,
                asset_in,
                asset_out,
                hub_asset_id,
                hub_asset_sell_allowed,
                amount,
                max_sell_amount,
                hub_buy,
            ),
            TradeRoute::Subpool { .. } => resolve_buy_within_subpool(pool_in, asset_in, asset_out, amount, max_sell_amount, block),
            TradeRoute::BetweenSubpools { .. } => resolve_buy_between_subpools(
                pool_in,
                pool_out,
                asset_in,
                asset_out,
                amount,
                max_sell_amount,
                block,
                hub_buy,
            ),
            TradeRoute::StableIn { .. } => resolve_mixed_trade_stable_in_given_asset_out(
                pool_in,
                asset_in,
                asset_out,
                state_out,
                hub_asset_id,
                amount,
                max_sell_amount,
                block,
                hub_buy,
            ),
            TradeRoute::StableOut { .. } => resolve_mixed_trade_iso_in_given_stable_out(
                pool_out,
                asset_in,
                asset_out,
                state_in,
                hub_asset_id,
                hub_asset_sell_allowed,
                amount,
                max_sell_amount,
                block,
                hub_buy,
            ),
        };
        let (into, out_of, share_in, share_out) = route_accounts_exec(route);
        let ghost before = ledger.view();
        let r = commit_settlement(ledger, res, Account::User(trader), asset_in, into, asset_out, out_of, share_in, share_out);
        proof {
            assert(buy_resolution(
                route,
                *pool_in,
                *pool_out,
                *state_in,
                *state_out,
                hub_asset_id,
                hub_asset_sell_allowed,
                asset_in,
                asset_out,
                amount,
                max_sell_amount,
                block,
                hub_buy,
                res,
            ));
            if r is Ok && asset_in != asset_out {
                lemma_settlement_moves(before, res->Ok_0, Account::User(trader), asset_in, into, asset_out, out_of, share_in, share_out);
            }
        }
        r
    }
}

} // verus!

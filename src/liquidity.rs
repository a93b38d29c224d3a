//! Adding and removing liquidity. A deposit of a migrated asset goes into
//! its subpool, and the shares it mints either stay with the depositor or go
//! on into the hub pool; a deposit of a native asset goes into the hub pool.
//! A removal pays out the hub pool's part of a position and, for a position
//! that denominates in a subpool, redeems it there for one asset. Each
//! deposit and removal is committed to the ledger as one unit.
use vstd::prelude::*;
use crate::engine::{deposit_shares, pool_backed, withdrawal_payout};
use crate::ledger::{apply_ops, apply_op, Account, Balances, Ledger, LedgerOp};
use crate::stableswap::{calculate_shares_for_amount, calculate_withdraw_one_asset};
use crate::subpools::{add_liquidity_change_spec, calculate_add_liquidity_state_changes, lemma_add_liquidity_keeps_reserve_minus_shares, Pallet};
use crate::types::{AssetId, AssetStateIncrease, Balance, Capability, Error, HubAssetState, Position, StablePool};

verus! {

/// Result of a deposit.
#[derive(PartialEq, Eq, Structural, Clone, Copy, Debug)]
pub struct Deposit {
    /// Subpool shares minted for the deposit (zero for a native asset).
    pub shares: Balance,
    /// Whether a hub-pool position is to be opened.
    pub to_hub: bool,
    /// Increase of the hub-pool state of the asset deposited there (the
    /// subpool's share asset, or the native asset); zero when nothing
    /// enters the hub pool.
    pub hub_change: AssetStateIncrease,
}

/// Ledger writes of a subpool deposit: `amount` of `asset` from `who` to
/// subpool `pool_id`, `shares` share tokens minted to `who`, and, when
/// `to_hub` holds, those shares handed on to the hub pool.
pub open spec fn deposit_ops(who: Account, asset: AssetId, pool_id: AssetId, amount: Balance, shares: Balance, to_hub: bool) -> Seq<LedgerOp> {
    let base = seq![
        LedgerOp::Transfer { asset, from: who, to: Account::Subpool(pool_id), amount },
        LedgerOp::Mint { asset: pool_id, to: who, amount: shares },
    ];
    if to_hub {
        base.push(LedgerOp::Transfer { asset: pool_id, from: who, to: Account::Hub, amount: shares })
    } else {
        base
    }
}

/// A hub-pool state increase that changes nothing.
pub open spec fn no_increase() -> AssetStateIncrease {
    AssetStateIncrease { delta_reserve: 0, delta_hub_reserve: 0, delta_shares: 0 }
}

fn deposit_ops_exec(who: Account, asset: AssetId, pool_id: AssetId, amount: Balance, shares: Balance, to_hub: bool) -> (r: Vec<LedgerOp>)
    ensures
        r@ == deposit_ops(who, asset, pool_id, amount, shares, to_hub),
{
    let mut r: Vec<LedgerOp> = Vec::new();
    r.push(LedgerOp::Transfer { asset, from: who, to: Account::Subpool(pool_id), amount });
    r.push(LedgerOp::Mint { asset: pool_id, to: who, amount: shares });
    if to_hub {
        r.push(LedgerOp::Transfer { asset: pool_id, from: who, to: Account::Hub, amount: shares });
    }
    assert(r@ =~= deposit_ops(who, asset, pool_id, amount, shares, to_hub));
    r
}

/// A committed subpool deposit takes `amount` of the asset from the
/// depositor and leaves the minted shares with them unless they went on to
/// the hub pool.
pub proof fn lemma_deposit_moves(old_balances: Balances, who: Account, asset: AssetId, pool_id: AssetId, amount: Balance, shares: Balance, to_hub: bool)
    requires
        who is User,
        asset != pool_id,
        apply_ops(old_balances, deposit_ops(who, asset, pool_id, amount, shares, to_hub), deposit_ops(who, asset, pool_id, amount, shares, to_hub).len()) is Some,
    ensures
        ({
            let ops = deposit_ops(who, asset, pool_id, amount, shares, to_hub);
            let m = apply_ops(old_balances, ops, ops.len())->0;
            &&& m[(asset, who)] == old_balances[(asset, who)] - amount
            &&& m[(pool_id, who)] == old_balances[(pool_id, who)] + if to_hub {
                0int
            } else {
                shares as int
            }
        }),
{
    let ops = deposit_ops(who, asset, pool_id, amount, shares, to_hub);
    let m1 = apply_ops(old_balances, ops, 1)->0;
    let m2 = apply_ops(old_balances, ops, 2)->0;
    assert(apply_ops(old_balances, ops, 0) == Some(old_balances));
    assert(apply_ops(old_balances, ops, 1) == apply_op(old_balances, ops[0]));
    assert(apply_ops(old_balances, ops, 2) == apply_op(m1, ops[1]));
    assert(who != Account::Subpool(pool_id));
    assert(m1[(asset, who)] == old_balances[(asset, who)] - amount);
    assert(m1[(pool_id, who)] == old_balances[(pool_id, who)]);
    assert(m2[(asset, who)] == m1[(asset, who)]);
    assert(m2[(pool_id, who)] == m1[(pool_id, who)] + shares);
    if to_hub {
        assert(apply_ops(old_balances, ops, 3) == apply_op(m2, ops[2]));
        assert(who != Account::Hub);
    }
}

/// What depositing `amount` of migrated asset `asset_id` into `pool` does,
/// given the ledger before and after and the result `r`.
pub open spec fn stable_deposit_post(
    pool_id: AssetId,
    pool: StablePool,
    share_state: HubAssetState,
    who: Account,
    asset_id: AssetId,
    amount: Balance,
    to_hub: bool,
    block: u64,
    old_balances: Balances,
    new_balances: Balances,
    r: Result<Deposit, Error>,
) -> bool {
    if !pool.allows(asset_id, Capability::AddLiquidity) {
        r == Err::<Deposit, Error>(Error::NotAllowed) && new_balances == old_balances
    } else {
        match deposit_shares(pool, asset_id, amount as int, block) {
            None => r == Err::<Deposit, Error>(Error::Math) && new_balances == old_balances,
            Some(sh) => {
                let change = if to_hub {
                    add_liquidity_change_spec(share_state, sh)
                } else {
                    Some(no_increase())
                };
                match change {
                    None => r == Err::<Deposit, Error>(Error::Math) && new_balances == old_balances,
                    Some(c) => {
                        let ops = deposit_ops(who, asset_id, pool_id, amount, sh as u128, to_hub);
                        match apply_ops(old_balances, ops, ops.len()) {
                            None => r == Err::<Deposit, Error>(Error::BalanceTooLow) && new_balances == old_balances,
                            Some(m) => r == Ok::<Deposit, Error>(Deposit { shares: sh as u128, to_hub, hub_change: c })
                                && new_balances == m,
                        }
                    },
                }
            },
        }
    }
}

fn deposit_into_subpool(
    ledger: &mut Ledger,
    who: u64,
    pool_id: AssetId,
    pool: &StablePool,
    share_state: &HubAssetState,
    asset_id: AssetId,
    amount: Balance,
    to_hub: bool,
    block: u64,
) -> (r: Result<Deposit, Error>)
    requires
        pool.wf(),
    ensures
        stable_deposit_post(pool_id, *pool, *share_state, Account::User(who), asset_id, amount, to_hub, block, old(ledger).view(), final(ledger).view(), r),
{
    if !pool.is_asset_allowed(asset_id, Capability::AddLiquidity) {
        return Err(Error::NotAllowed);
    }
    let i = match pool.find_asset(asset_id) {
        Some(i) => i,
        None => {
            return Err(Error::NotAllowed);
        },
    };
    let amp = pool.amplification(block);
    let shares = match calculate_shares_for_amount(&pool.balances, i, amount, amp, pool.share_issuance) {
        Some(v) => v,
        None => {
            return Err(Error::Math);
        },
    };
    let change = if to_hub {
        match calculate_add_liquidity_state_changes(share_state, shares) {
            Some(c) => c,
            None => {
                return Err(Error::Math);
            },
        }
    } else {
        AssetStateIncrease { delta_reserve: 0, delta_hub_reserve: 0, delta_shares: 0 }
    };
    let ops = deposit_ops_exec(Account::User(who), asset_id, pool_id, amount, shares, to_hub);
    match ledger.commit(&ops) {
        Ok(()) => Ok(Deposit { shares, to_hub, hub_change: change }),
        Err(e) => Err(e),
    }
}

impl Pallet {
    /// Deposits `amount` of migrated asset `asset_id` into its subpool
    /// `pool` for user `who`, and commits it to `ledger`. The shares minted
    /// (rounded down) stay with `who`, or, when `mint_nft` holds, go on into
    /// the hub pool, whose share-asset state (`share_state`) grows
    /// proportionally. Fails with `NotStableAsset` for an asset that was
    /// never migrated; on any failure the ledger is unchanged.
    pub fn add_liquidity_stable(
        &self,
        ledger: &mut Ledger,
        who: u64,
        pool: &StablePool,
        share_state: &HubAssetState,
        asset_id: AssetId,
        amount: Balance,
        mint_nft: bool,
        block: u64,
    ) -> (r: Result<Deposit, Error>)
        requires
            pool.wf(),
            self.migrated_view().contains_key(asset_id) ==> pool_backed(*pool, self.migrated_view()[asset_id].0, old(ledger).view()),
        ensures
            !self.migrated_view().contains_key(asset_id) ==> r == Err::<Deposit, Error>(Error::NotStableAsset)
                && final(ledger).view() == old(ledger).view(),
            self.migrated_view().contains_key(asset_id) ==> stable_deposit_post(
                self.migrated_view()[asset_id].0,
                *pool,
                *share_state,
                Account::User(who),
                asset_id,
                amount,
                mint_nft,
                block,
                old(ledger).view(),
                final(ledger).view(),
                r,
            ),
            r is Err ==> final(ledger).view() == old(ledger).view(),
            r matches Ok(d) ==> asset_id != self.migrated_view()[asset_id].0 ==> ({
                let p = self.migrated_view()[asset_id].0;
                &&& final(ledger).view()[(asset_id, Account::User(who))] == old(ledger).view()[(asset_id, Account::User(who))] - amount
                &&& final(ledger).view()[(p, Account::User(who))] == old(ledger).view()[(p, Account::User(who))] + if mint_nft {
                    0int
                } else {
                    d.shares as int
                }
            }),
            r matches Ok(d) ==> (mint_nft && share_state.reserve == share_state.shares ==> (share_state.reserve
                + d.hub_change.delta_reserve) - (share_state.shares + d.hub_change.delta_shares) == share_state.reserve
                - share_state.shares),
    {
        let pool_id = match self.migrated_assets(asset_id) {
            Some((p, _)) => p,
            None => {
                return Err(Error::NotStableAsset);
            },
        };
        let ghost before = ledger.view();
        let r = deposit_into_subpool(ledger, who, pool_id, pool, share_state, asset_id, amount, mint_nft, block);
        proof {
            if r is Ok {
                let sh = deposit_shares(*pool, asset_id, amount as int, block)->0;
                if asset_id != pool_id {
                    lemma_deposit_moves(before, Account::User(who), asset_id, pool_id, amount, sh as u128, mint_nft);
                }
                if mint_nft && share_state.reserve == share_state.shares {
                    lemma_add_liquidity_keeps_reserve_minus_shares(*share_state, sh as u128);
                }
            }
        }
        r
    }

    /// Adds `amount` of `asset_id` as hub-pool liquidity for user `who`, and
    /// commits it to `ledger`. A migrated asset is deposited into its
    /// subpool `pool` and the shares it mints go on into the hub pool
    /// (`hub_state` being the share asset's hub-pool state); a native asset
    /// goes into the hub pool directly (`hub_state` being its own state).
    /// On any failure the ledger is unchanged.
    pub fn add_liquidity(
        &self,
        ledger: &mut Ledger,
        who: u64,
        pool: &StablePool,
        hub_state: &HubAssetState,
        asset_id: AssetId,
        amount: Balance,
        block: u64,
    ) -> (r: Result<Deposit, Error>)
        requires
            pool.wf(),
            self.migrated_view().contains_key(asset_id) ==> pool_backed(*pool, self.migrated_view()[asset_id].0, old(ledger).view()),
        ensures
            self.migrated_view().contains_key(asset_id) ==> stable_deposit_post(
                self.migrated_view()[asset_id].0,
                *pool,
                *hub_state,
                Account::User(who),
                asset_id,
                amount,
                true,
                block,
                old(ledger).view(),
                final(ledger).view(),
                r,
            ),
            !self.migrated_view().contains_key(asset_id) ==> match add_liquidity_change_spec(*hub_state, amount as int) {
                None => r == Err::<Deposit, Error>(Error::Math) && final(ledger).view() == old(ledger).view(),
                Some(c) => {
                    let ops = seq![LedgerOp::Transfer { asset: asset_id, from: Account::User(who), to: Account::Hub, amount }];
                    match apply_ops(old(ledger).view(), ops, 1) {
                        None => r == Err::<Deposit, Error>(Error::BalanceTooLow) && final(ledger).view() == old(ledger).view(),
                        Some(m) => r == Ok::<Deposit, Error>(Deposit { shares: 0, to_hub: true, hub_change: c })
                            && final(ledger).view() == m,
                    }
                },
            },
            r is Err ==> final(ledger).view() == old(ledger).view(),
            r matches Ok(d) ==> (hub_state.reserve == hub_state.shares ==> (hub_state.reserve + d.hub_change.delta_reserve)
                - (hub_state.shares + d.hub_change.delta_shares) == hub_state.reserve - hub_state.shares),
    {
        match self.migrated_assets(asset_id) {
            Some((pool_id, _)) => {
                let r = deposit_into_subpool(ledger, who, pool_id, pool, hub_state, asset_id, amount, true, block);
                proof {
                    if r is Ok && hub_state.reserve == hub_state.shares {
                        let sh = deposit_shares(*pool, asset_id, amount as int, block)->0;
                        lemma_add_liquidity_keeps_reserve_minus_shares(*hub_state, sh as u128);
                    }
                }
                r
            },
            None => {
                let c = match calculate_add_liquidity_state_changes(hub_state, amount) {
                    Some(c) => c,
                    None => {
                        return Err(Error::Math);
                    },
                };
                let mut ops: Vec<LedgerOp> = Vec::new();
                ops.push(LedgerOp::Transfer { asset: asset_id, from: Account::User(who), to: Account::Hub, amount });
                assert(ops@ =~= seq![LedgerOp::Transfer { asset: asset_id, from: Account::User(who), to: Account::Hub, amount }]);
                proof {
                    if hub_state.reserve == hub_state.shares {
                        lemma_add_liquidity_keeps_reserve_minus_shares(*hub_state, amount);
                    }
                }
                match ledger.commit(&ops) {
                    Ok(()) => Ok(Deposit { shares: 0, to_hub: true, hub_change: c }),
                    Err(e) => Err(e),
                }
            },
        }
    }
}


/// Result of removing liquidity.
#[derive(PartialEq, Eq, Structural, Clone, Copy, Debug)]
pub struct Removal {
    /// The position removed from, converted if its asset was migrated; the
    /// caller stores it again when `converted` holds.
    pub position: Position,
    pub converted: bool,
    /// Hub-pool shares removed, counted in the position's (converted) shares.
    pub share_amount: Balance,
    /// Asset withdrawn from the subpool the position denominates in, if it
    /// denominates in one.
    pub withdraw_asset: Option<AssetId>,
    /// What the hub pool paid out, in the position's asset.
    pub received: Balance,
    /// What the remover ends up with: the subpool payout in the withdrawn
    /// asset, or else what the hub pool paid out.
    pub amount_out: Balance,
    /// Withdrawal fee kept by the subpool.
    pub withdraw_fee: Balance,
}

/// Ledger writes of a removal: the hub pool pays `received` of `asset` to
/// `who`; when withdrawing `w` from subpool `asset`, those share tokens are
/// burned and `net` of `w` paid out of the subpool.
pub open spec fn removal_ops(who: Account, asset: AssetId, received: Balance, withdraw: Option<AssetId>, net: Balance) -> Seq<LedgerOp> {
    match withdraw {
        None => seq![LedgerOp::Transfer { asset, from: Account::Hub, to: who, amount: received }],
        Some(w) => seq![
            LedgerOp::Transfer { asset, from: Account::Hub, to: who, amount: received },
            LedgerOp::Burn { asset, from: who, amount: received },
            LedgerOp::Transfer { asset: w, from: Account::Subpool(asset), to: who, amount: net },
        ],
    }
}

/// What a removal settles to once the hub pool has answered `q` (the
/// amount it pays out, `None` when its math failed).
pub open spec fn removal_outcome(
    pool: StablePool,
    who: Account,
    position: Position,
    converted: bool,
    share_amount: Balance,
    withdraw: Option<AssetId>,
    q: Option<Balance>,
    block: u64,
    old_balances: Balances,
    new_balances: Balances,
    r: Result<Removal, Error>,
) -> bool {
    match q {
        None => r == Err::<Removal, Error>(Error::Math) && new_balances == old_balances,
        Some(received) => match withdraw {
            None => match apply_ops(old_balances, removal_ops(who, position.asset_id, received, None, 0), 1) {
                None => r == Err::<Removal, Error>(Error::BalanceTooLow) && new_balances == old_balances,
                Some(m) => new_balances == m && r == Ok::<Removal, Error>(Removal {
                    position,
                    converted,
                    share_amount,
                    withdraw_asset: None,
                    received,
                    amount_out: received,
                    withdraw_fee: 0,
                }),
            },
            Some(w) => if pool.index_of(w) is None {
                r == Err::<Removal, Error>(Error::NotFound) && new_balances == old_balances
            } else {
                match withdrawal_payout(pool, w, received as int, block) {
                    None => r == Err::<Removal, Error>(Error::Math) && new_balances == old_balances,
                    Some((net, fee)) => match apply_ops(
                        old_balances,
                        removal_ops(who, position.asset_id, received, Some(w), net as u128),
                        3,
                    ) {
                        None => r == Err::<Removal, Error>(Error::BalanceTooLow) && new_balances == old_balances,
                        Some(m) => new_balances == m && r == Ok::<Removal, Error>(Removal {
                            position,
                            converted,
                            share_amount,
                            withdraw_asset: Some(w),
                            received,
                            amount_out: net as u128,
                            withdraw_fee: fee as u128,
                        }),
                    },
                }
            },
        },
    }
}

fn settle_removal(
    ledger: &mut Ledger,
    who: u64,
    pool: &StablePool,
    position: Position,
    converted: bool,
    share_amount: Balance,
    withdraw: Option<AssetId>,
    q: Option<Balance>,
    block: u64,
) -> (r: Result<Removal, Error>)
    requires
        pool.wf(),
    ensures
        removal_outcome(*pool, Account::User(who), position, converted, share_amount, withdraw, q, block, old(ledger).view(), final(ledger).view(), r),
{
    let received = match q {
        Some(v) => v,
        None => {
            return Err(Error::Math);
        },
    };
    let who_account = Account::User(who);
    match withdraw {
        None => {
            let mut ops: Vec<LedgerOp> = Vec::new();
            ops.push(LedgerOp::Transfer { asset: position.asset_id, from: Account::Hub, to: who_account, amount: received });
            assert(ops@ =~= removal_ops(who_account, position.asset_id, received, None, 0));
            match ledger.commit(&ops) {
                Ok(()) => Ok(Removal {
                    position,
                    converted,
                    share_amount,
                    withdraw_asset: None,
                    received,
                    amount_out: received,
                    withdraw_fee: 0,
                }),
                Err(e) => Err(e),
            }
        },
        Some(w) => {
            let j = match pool.find_asset(w) {
                Some(j) => j,
                None => {
                    return Err(Error::NotFound);
                },
            };
            let amp = pool.amplification(block);
            let (net, fee) = match calculate_withdraw_one_asset(
                &pool.balances,
                received,
                j,
                pool.share_issuance,
                amp,
                pool.withdraw_fee as u128,
            ) {
                Some(v) => v,
                None => {
                    return Err(Error::Math);
                },
            };
            let mut ops: Vec<LedgerOp> = Vec::new();
            ops.push(LedgerOp::Transfer { asset: position.asset_id, from: Account::Hub, to: who_account, amount: received });
            ops.push(LedgerOp::Burn { asset: position.asset_id, from: who_account, amount: received });
            ops.push(LedgerOp::Transfer { asset: w, from: Account::Subpool(position.asset_id), to: who_account, amount: net });
            assert(ops@ =~= removal_ops(who_account, position.asset_id, received, Some(w), net));
            match ledger.commit(&ops) {
                Ok(()) => Ok(Removal {
                    position,
                    converted,
                    share_amount,
                    withdraw_asset: Some(w),
                    received,
                    amount_out: net,
                    withdraw_fee: fee,
                }),
                Err(e) => Err(e),
            }
        },
    }
}

impl Pallet {
    /// Whether a position on `asset` denominates in a subpool, once
    /// converted: its asset was migrated, or is itself a subpool's share
    /// asset.
    pub open spec fn denominates_in_subpool(&self, asset: AssetId) -> bool {
        self.migrated_view().contains_key(asset) || self.subpools_view().contains(asset)
    }

    /// Removes `share_amount` hub-pool shares of `position` for user `who`
    /// and commits it to `ledger`.
    ///
    /// A position that denominates in a subpool needs `asset`, the asset to
    /// withdraw from it (`WithdrawAssetNotSpecified` otherwise, checked
    /// first). A position opened before its asset was migrated is converted
    /// first. The hub pool's removal (`hub_remove`, from the converted
    /// position and `share_amount` to the amount it pays out) is then paid
    /// to `who`; for a subpool position those share tokens are redeemed in
    /// `pool` for `asset`. On any failure the ledger is unchanged.
    pub fn remove_liquidity<F: Fn(Position, Balance) -> Option<Balance>>(
        &self,
        ledger: &mut Ledger,
        who: u64,
        position: Position,
        share_amount: Balance,
        asset: Option<AssetId>,
        pool: &StablePool,
        block: u64,
        hub_remove: F,
    ) -> (r: Result<Removal, Error>)
        requires
            self.wf(),
            pool.wf(),
            forall|p: Position, x: Balance| call_requires(hub_remove, (p, x)),
            self.resolved(position) matches Some(p) ==> (self.subpools_view().contains(p.asset_id)
                ==> pool_backed(*pool, p.asset_id, old(ledger).view())),
        ensures
            self.denominates_in_subpool(position.asset_id) && asset is None
                ==> r == Err::<Removal, Error>(Error::WithdrawAssetNotSpecified),
            !(self.denominates_in_subpool(position.asset_id) && asset is None) ==> match self.resolved(position) {
                None => r == Err::<Removal, Error>(Error::Math),
                Some(p) => exists|q: Option<Balance>|
                    #[trigger] call_ensures(hub_remove, (p, share_amount), q) && removal_outcome(
                        *pool,
                        Account::User(who),
                        p,
                        self.migrated_view().contains_key(position.asset_id),
                        share_amount,
                        if self.subpools_view().contains(p.asset_id) {
                            asset
                        } else {
                            None
                        },
                        q,
                        block,
                        old(ledger).view(),
                        final(ledger).view(),
                        r,
                    ),
            },
            r is Err ==> final(ledger).view() == old(ledger).view(),
    {
        let migrated = self.migrated_assets(position.asset_id);
        if (migrated.is_some() || self.subpools(position.asset_id)) && asset.is_none() {
            return Err(Error::WithdrawAssetNotSpecified);
        }
        let (p, converted) = match migrated {
            Some((pool_id, detail)) => match Self::convert_position(pool_id, detail, position) {
                Some(p) => (p, true),
                None => {
                    return Err(Error::Math);
                },
            },
            None => (position, false),
        };
        let withdraw = if self.subpools(p.asset_id) {
            asset
        } else {
            None
        };
        let q = hub_remove(p, share_amount);
        let r = settle_removal(ledger, who, pool, p, converted, share_amount, withdraw, q, block);
        assert(call_ensures(hub_remove, (p, share_amount), q));
        r
    }
}

} // verus!

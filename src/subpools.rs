//! Registry of subpools and migrated assets, subpool creation, migration of
//! further assets, position conversion and preparation of liquidity removal.
use vstd::prelude::*;
use std::collections::HashMap;
use std::collections::HashSet;
use crate::math::{lift, mul_div_spec, mul_div, MAX_BALANCE};
use crate::ledger::{apply_ops, Account, Ledger, LedgerOp};
use crate::types::{AssetDetail, AssetId, AssetStateIncrease, Balance, Error, HubAssetState, Position, StablePool, Tradability};

verus! {

broadcast use vstd::std_specs::hash::group_hash_axioms;

/// One, as a price with 18 decimals.
pub const PRICE_ONE: u128 = 1_000_000_000_000_000_000;

/// Price of an asset in the hub asset, with 18 decimals.
pub open spec fn price_spec(hub_reserve: int, reserve: int) -> Option<int> {
    mul_div_spec(hub_reserve, PRICE_ONE as int, reserve)
}

/// A position re-expressed in the subpool's share asset: shares and amount
/// scaled by `share_tokens / shares`, entry price by the inverse ratio.
pub open spec fn convert_position_spec(pool_id: AssetId, detail: AssetDetail, position: Position) -> Option<Position> {
    match (
        mul_div_spec(position.shares as int, detail.share_tokens as int, detail.shares as int),
        mul_div_spec(position.amount as int, detail.share_tokens as int, detail.shares as int),
        mul_div_spec(position.price as int, detail.shares as int, detail.share_tokens as int),
    ) {
        (Some(s), Some(a), Some(p)) => Some(
            Position { asset_id: pool_id, amount: a as u128, shares: s as u128, price: p as u128 },
        ),
        _ => None,
    }
}

/// Proportional deposit of `amount` into a hub-pool asset: the reserve grows
/// by `amount`, shares and hub reserve by the same fraction, rounded down.
pub open spec fn add_liquidity_change_spec(state: HubAssetState, amount: int) -> Option<AssetStateIncrease> {
    match (
        mul_div_spec(amount, state.shares as int, state.reserve as int),
        mul_div_spec(amount, state.hub_reserve as int, state.reserve as int),
    ) {
        (Some(s), Some(q)) => Some(
            AssetStateIncrease { delta_reserve: amount as u128, delta_hub_reserve: q as u128, delta_shares: s as u128 },
        ),
        _ => None,
    }
}

/// Proportional deposit of `amount` into a hub-pool asset.
pub fn calculate_add_liquidity_state_changes(state: &HubAssetState, amount: Balance) -> (r: Option<AssetStateIncrease>)
    ensures
        r == add_liquidity_change_spec(*state, amount as int),
{
    let s = mul_div(amount, state.shares, state.reserve);
    let q = mul_div(amount, state.hub_reserve, state.reserve);
    match (s, q) {
        (Some(s), Some(q)) => Some(AssetStateIncrease { delta_reserve: amount, delta_hub_reserve: q, delta_shares: s }),
        _ => None,
    }
}

/// When a hub-pool asset's reserve equals its shares, as a subpool's share
/// asset does when it is created, a proportional deposit leaves
/// `reserve - shares` unchanged.
pub proof fn lemma_add_liquidity_keeps_reserve_minus_shares(state: HubAssetState, amount: Balance)
    requires
        state.reserve == state.shares,
        add_liquidity_change_spec(state, amount as int) is Some,
    ensures
        ({
            let c = add_liquidity_change_spec(state, amount as int)->0;
            (state.reserve + c.delta_reserve) - (state.shares + c.delta_shares) == state.reserve - state.shares
        }),
{
    assert(amount * state.shares / (state.reserve as int) == amount) by (nonlinear_arith)
        requires
            state.reserve == state.shares,
            state.reserve > 0,
    ;
}

/// Converting a position never raises the value `amount * price` it was
/// opened at, nor the hub-valued share `shares / detail.shares` it holds.
pub proof fn lemma_conversion_preserves_value(pool_id: AssetId, detail: AssetDetail, position: Position)
    requires
        convert_position_spec(pool_id, detail, position) is Some,
    ensures
        ({
            let c = convert_position_spec(pool_id, detail, position)->0;
            &&& c.amount * c.price <= position.amount * position.price
            &&& c.shares * detail.shares <= position.shares * detail.share_tokens
            &&& c.asset_id == pool_id
        }),
{
    let c = convert_position_spec(pool_id, detail, position)->0;
    let u = detail.share_tokens as int;
    let s = detail.shares as int;
    let a = position.amount as int;
    let p = position.price as int;
    assert(c.amount * s <= a * u) by (nonlinear_arith)
        requires
            c.amount == a * u / s,
            s > 0,
    ;
    assert(c.price * u <= p * s) by (nonlinear_arith)
        requires
            c.price == p * s / u,
            u > 0,
    ;
    assert(c.amount * c.price <= a * p) by (nonlinear_arith)
        requires
            c.amount * s <= a * u,
            c.price * u <= p * s,
            c.amount >= 0,
            c.price >= 0,
            s > 0,
            u > 0,
    ;
    assert(c.shares * s <= position.shares * u) by (nonlinear_arith)
        requires
            c.shares == position.shares * u / s,
            s > 0,
    ;
}

/// What a registry change reports.
#[derive(PartialEq, Eq, Structural, Clone, Copy, Debug)]
pub enum Event {
    /// Subpool `id` was created from `asset_a` and `asset_b`.
    SubpoolCreated { id: AssetId, asset_a: AssetId, asset_b: AssetId },
    /// Asset `asset_id` was migrated into subpool `pool_id`.
    AssetMigrated { asset_id: AssetId, pool_id: AssetId },
}

/// Ledger writes of creating subpool `share_asset`: both reserves move from
/// the hub pool to the subpool, and `minted` share tokens go to the hub pool.
pub open spec fn creation_ops(
    share_asset: AssetId,
    asset_a: AssetId,
    reserve_a: Balance,
    asset_b: AssetId,
    reserve_b: Balance,
    minted: Balance,
) -> Seq<LedgerOp> {
    seq![
        LedgerOp::Transfer { asset: asset_a, from: Account::Hub, to: Account::Subpool(share_asset), amount: reserve_a },
        LedgerOp::Transfer { asset: asset_b, from: Account::Hub, to: Account::Subpool(share_asset), amount: reserve_b },
        LedgerOp::Mint { asset: share_asset, to: Account::Hub, amount: minted },
    ]
}

/// Ledger writes of migrating `asset_id` into subpool `pool_id`: its
/// reserve moves from the hub pool to the subpool, and `minted` share
/// tokens go to the hub pool.
pub open spec fn migration_ops(pool_id: AssetId, asset_id: AssetId, reserve: Balance, minted: Balance) -> Seq<LedgerOp> {
    seq![
        LedgerOp::Transfer { asset: asset_id, from: Account::Hub, to: Account::Subpool(pool_id), amount: reserve },
        LedgerOp::Mint { asset: pool_id, to: Account::Hub, amount: minted },
    ]
}

/// Result of creating a subpool from two hub-pool assets.
#[derive(Clone, Debug)]
pub struct SubpoolCreated {
    /// The new stable pool, holding both assets' former hub-pool reserves.
    pub pool: StablePool,
    /// Hub-pool state of the pool's share asset; its reserve is also the
    /// amount of share tokens minted to the hub pool.
    pub share_state: HubAssetState,
    pub detail_a: AssetDetail,
    pub detail_b: AssetDetail,
    pub event: Event,
}

/// Result of migrating one more hub-pool asset into an existing subpool.
#[derive(Clone, Debug)]
pub struct AssetMigrated {
    /// The stable pool with the asset added.
    pub pool: StablePool,
    /// Increase of the share asset's hub-pool state; its reserve delta is
    /// the amount of share tokens minted to the hub pool.
    pub share_state_change: AssetStateIncrease,
    pub detail: AssetDetail,
    pub event: Event,
}

/// Registry of migrated assets (asset id to subpool id and migration
/// detail) and of the stable pools registered as subpools.
pub struct Pallet {
    migrated: HashMap<AssetId, (AssetId, AssetDetail)>,
    subpool_ids: HashSet<AssetId>,
}

impl Pallet {
    pub closed spec fn migrated_view(&self) -> Map<AssetId, (AssetId, AssetDetail)> {
        self.migrated@
    }

    pub closed spec fn subpools_view(&self) -> Set<AssetId> {
        self.subpool_ids@
    }

    /// Every migrated asset points at a registered subpool, and no
    /// subpool's share asset is itself recorded as migrated.
    pub open spec fn wf(&self) -> bool {
        &&& forall|a: AssetId| #[trigger] self.migrated_view().contains_key(a)
            ==> self.subpools_view().contains(self.migrated_view()[a].0)
        &&& forall|p: AssetId| #[trigger] self.subpools_view().contains(p) ==> !self.migrated_view().contains_key(p)
    }

    /// The position as it denominates after the lazy conversion.
    pub open spec fn resolved(&self, position: Position) -> Option<Position> {
        if self.migrated_view().contains_key(position.asset_id) {
            let (pool_id, detail) = self.migrated_view()[position.asset_id];
            convert_position_spec(pool_id, detail, position)
        } else {
            Some(position)
        }
    }

    /// An empty registry.
    pub fn new() -> (r: Pallet)
        ensures
            r.wf(),
            r.migrated_view() == Map::<AssetId, (AssetId, AssetDetail)>::empty(),
            r.subpools_view() == Set::<AssetId>::empty(),
    {
        Pallet { migrated: HashMap::new(), subpool_ids: HashSet::new() }
    }

    /// Subpool and migration detail of a migrated asset.
    pub fn migrated_assets(&self, asset_id: AssetId) -> (r: Option<(AssetId, AssetDetail)>)
        ensures
            r matches Some(v) ==> self.migrated_view().contains_key(asset_id) && v == self.migrated_view()[asset_id],
            r is None ==> !self.migrated_view().contains_key(asset_id),
    {
        match self.migrated.get(&asset_id) {
            Some(v) => Some(*v),
            None => None,
        }
    }

    /// Whether `pool_id` is a registered subpool.
    pub fn subpools(&self, pool_id: AssetId) -> (r: bool)
        ensures
            r == self.subpools_view().contains(pool_id),
    {
        self.subpool_ids.contains(&pool_id)
    }

    /// Re-expresses a position opened on a migrated asset in the share
    /// asset of subpool `pool_id`, keeping its value.
    pub fn convert_position(pool_id: AssetId, migration_details: AssetDetail, position: Position) -> (r: Option<Position>)
        ensures
            r == convert_position_spec(pool_id, migration_details, position),
    {
        let shares = mul_div(position.shares, migration_details.share_tokens, migration_details.shares);
        let amount = mul_div(position.amount, migration_details.share_tokens, migration_details.shares);
        let price = mul_div(position.price, migration_details.shares, migration_details.share_tokens);
        match (shares, amount, price) {
            (Some(s), Some(a), Some(p)) => Some(Position { asset_id: pool_id, amount: a, shares: s, price: p }),
            _ => None,
        }
    }

    /// First reason, if any, that `create_subpool` refuses its arguments.
    pub open spec fn create_subpool_error(
        &self,
        share_asset: AssetId,
        asset_a: AssetId,
        state_a: HubAssetState,
        asset_b: AssetId,
        state_b: HubAssetState,
    ) -> Option<Error> {
        if asset_a == asset_b || share_asset == asset_a || share_asset == asset_b
            || self.subpools_view().contains(share_asset) || self.migrated_view().contains_key(share_asset)
            || self.subpools_view().contains(asset_a) || self.subpools_view().contains(asset_b) {
            Some(Error::NotAllowed)
        } else if self.migrated_view().contains_key(asset_a) || self.migrated_view().contains_key(asset_b) {
            Some(Error::NotFound)
        } else if state_a.hub_reserve + state_b.hub_reserve > u128::MAX
            || price_spec(state_a.hub_reserve as int, state_a.reserve as int) is None
            || price_spec(state_b.hub_reserve as int, state_b.reserve as int) is None {
            Some(Error::Math)
        } else {
            None
        }
    }

    /// Creates subpool `share_asset` from hub-pool assets `asset_a` and
    /// `asset_b` (with hub-pool states `state_a` and `state_b`).
    ///
    /// The new stable pool holds both reserves, keeps each asset's
    /// tradability and a fixed amplification. Its share asset enters the hub
    /// pool with reserve, shares and hub reserve all equal to the two assets'
    /// combined hub reserve, which is also the amount of share tokens minted
    /// to the hub pool. Each asset's migration detail attributes to it share
    /// tokens equal to its hub reserve.
    pub fn create_subpool(
        &mut self,
        ledger: &mut Ledger,
        share_asset: AssetId,
        asset_a: AssetId,
        state_a: &HubAssetState,
        asset_b: AssetId,
        state_b: &HubAssetState,
        share_asset_weight_cap: u32,
        amplification: u16,
        trade_fee: u32,
        withdraw_fee: u32,
    ) -> (r: Result<SubpoolCreated, Error>)
        requires
            old(self).wf(),
        ensures
            final(self).wf(),
            r is Err ==> final(ledger).view() == old(ledger).view(),
            match old(self).create_subpool_error(share_asset, asset_a, *state_a, asset_b, *state_b) {
                Some(e) => r == Err::<SubpoolCreated, Error>(e)
                    && final(self).migrated_view() == old(self).migrated_view()
                    && final(self).subpools_view() == old(self).subpools_view(),
                None => match apply_ops(
                    old(ledger).view(),
                    creation_ops(share_asset, asset_a, state_a.reserve, asset_b, state_b.reserve, (state_a.hub_reserve + state_b.hub_reserve) as u128),
                    3,
                ) {
                    None => r == Err::<SubpoolCreated, Error>(Error::BalanceTooLow)
                        && final(self).migrated_view() == old(self).migrated_view()
                        && final(self).subpools_view() == old(self).subpools_view(),
                    Some(balances) => r matches Ok(c) && {
                    let q = state_a.hub_reserve + state_b.hub_reserve;
                    &&& final(ledger).view() == balances
                    &&& c.pool.assets@ == seq![asset_a, asset_b]
                    &&& c.pool.balances@ == seq![state_a.reserve, state_b.reserve]
                    &&& c.pool.tradable@ == seq![state_a.tradable, state_b.tradable]
                    &&& c.pool.initial_amplification == amplification
                    &&& c.pool.final_amplification == amplification
                    &&& c.pool.trade_fee == trade_fee
                    &&& c.pool.withdraw_fee == withdraw_fee
                    &&& c.pool.share_issuance == q
                    &&& c.share_state.reserve == q
                    &&& c.share_state.hub_reserve == q
                    &&& c.share_state.shares == q
                    &&& c.share_state.protocol_shares == 0
                    &&& c.share_state.cap == share_asset_weight_cap
                    &&& c.share_state.tradable@ == Set::<crate::types::Capability>::full()
                    &&& lift(Some(c.detail_a.price)) == price_spec(state_a.hub_reserve as int, state_a.reserve as int)
                    &&& c.detail_a.shares == state_a.shares
                    &&& c.detail_a.hub_reserve == state_a.hub_reserve
                    &&& c.detail_a.share_tokens == state_a.hub_reserve
                    &&& lift(Some(c.detail_b.price)) == price_spec(state_b.hub_reserve as int, state_b.reserve as int)
                    &&& c.detail_b.shares == state_b.shares
                    &&& c.detail_b.hub_reserve == state_b.hub_reserve
                    &&& c.detail_b.share_tokens == state_b.hub_reserve
                    &&& c.event == (Event::SubpoolCreated { id: share_asset, asset_a, asset_b })
                    &&& final(self).migrated_view() == old(self).migrated_view().insert(asset_a, (share_asset, c.detail_a)).insert(
                        asset_b,
                        (share_asset, c.detail_b),
                    )
                    &&& final(self).subpools_view() == old(self).subpools_view().insert(share_asset)
                    },
                },
            },
    {
        if asset_a == asset_b || share_asset == asset_a || share_asset == asset_b
            || self.subpool_ids.contains(&share_asset) || self.migrated.contains_key(&share_asset)
            || self.subpool_ids.contains(&asset_a) || self.subpool_ids.contains(&asset_b) {
            return Err(Error::NotAllowed);
        }
        if self.migrated.contains_key(&asset_a) || self.migrated.contains_key(&asset_b) {
            return Err(Error::NotFound);
        }
        if state_a.hub_reserve > MAX_BALANCE - state_b.hub_reserve {
            return Err(Error::Math);
        }
        let price_a = mul_div(state_a.hub_reserve, PRICE_ONE, state_a.reserve);
        let price_b = mul_div(state_b.hub_reserve, PRICE_ONE, state_b.reserve);
        let (price_a, price_b) = match (price_a, price_b) {
            (Some(x), Some(y)) => (x, y),
            _ => {
                return Err(Error::Math);
            },
        };
        let q: u128 = state_a.hub_reserve + state_b.hub_reserve;
        let pool = StablePool {
            assets: vec![asset_a, asset_b],
            balances: vec![state_a.reserve, state_b.reserve],
            tradable: vec![state_a.tradable, state_b.tradable],
            initial_amplification: amplification,
            final_amplification: amplification,
            initial_block: 0,
            final_block: 0,
            trade_fee,
            withdraw_fee,
            share_issuance: q,
        };
        let all = Tradability::all();
        proof {
            assert(all@ =~= Set::<crate::types::Capability>::full());
        }
        let share_state = HubAssetState {
            reserve: q,
            hub_reserve: q,
            shares: q,
            protocol_shares: 0,
            cap: share_asset_weight_cap,
            tradable: all,
        };
        let detail_a = AssetDetail {
            price: price_a,
            shares: state_a.shares,
            hub_reserve: state_a.hub_reserve,
            share_tokens: state_a.hub_reserve,
        };
        let detail_b = AssetDetail {
            price: price_b,
            shares: state_b.shares,
            hub_reserve: state_b.hub_reserve,
            share_tokens: state_b.hub_reserve,
        };
        let mut ops: Vec<LedgerOp> = Vec::new();
        ops.push(LedgerOp::Transfer { asset: asset_a, from: Account::Hub, to: Account::Subpool(share_asset), amount: state_a.reserve });
        ops.push(LedgerOp::Transfer { asset: asset_b, from: Account::Hub, to: Account::Subpool(share_asset), amount: state_b.reserve });
        ops.push(LedgerOp::Mint { asset: share_asset, to: Account::Hub, amount: q });
        assert(ops@ =~= creation_ops(share_asset, asset_a, state_a.reserve, asset_b, state_b.reserve, q));
        if ledger.commit(&ops).is_err() {
            return Err(Error::BalanceTooLow);
        }
        self.migrated.insert(asset_a, (share_asset, detail_a));
        self.migrated.insert(asset_b, (share_asset, detail_b));
        self.subpool_ids.insert(share_asset);
        Ok(SubpoolCreated {
            pool,
            share_state,
            detail_a,
            detail_b,
            event: Event::SubpoolCreated { id: share_asset, asset_a, asset_b },
        })
    }

    /// First reason, if any, that `migrate_asset_to_subpool` refuses its
    /// arguments.
    pub open spec fn migrate_error(
        &self,
        pool_id: AssetId,
        asset_id: AssetId,
        asset_state: HubAssetState,
        pool: StablePool,
        share_state: HubAssetState,
    ) -> Option<Error> {
        if !self.subpools_view().contains(pool_id) {
            Some(Error::SubpoolNotFound)
        } else if self.migrated_view().contains_key(asset_id) {
            Some(Error::NotFound)
        } else if asset_id == pool_id || self.subpools_view().contains(asset_id) || pool.index_of(asset_id) is Some {
            Some(Error::NotAllowed)
        } else {
            match (
                mul_div_spec(share_state.reserve as int, asset_state.hub_reserve as int, share_state.hub_reserve as int),
                mul_div_spec(share_state.shares as int, asset_state.hub_reserve as int, share_state.hub_reserve as int),
                price_spec(asset_state.hub_reserve as int, asset_state.reserve as int),
            ) {
                (Some(du), Some(_), Some(_)) => if pool.share_issuance + du > u128::MAX {
                    Some(Error::Math)
                } else {
                    None
                },
                _ => Some(Error::Math),
            }
        }
    }

    /// Moves hub-pool asset `asset_id` (state `asset_state`) into the
    /// existing subpool `pool_id` (stable pool `pool`, share asset state
    /// `share_state` in the hub pool).
    ///
    /// The asset's whole hub reserve moves to the share asset, whose reserve
    /// and shares grow in the same proportion (rounded down), so the share
    /// asset's price and share value are kept. The reserve increase is the
    /// amount of share tokens minted to the hub pool; the shares increase is
    /// what the asset's positions convert into.
    pub fn migrate_asset_to_subpool(
        &mut self,
        ledger: &mut Ledger,
        pool_id: AssetId,
        asset_id: AssetId,
        asset_state: &HubAssetState,
        pool: &StablePool,
        share_state: &HubAssetState,
    ) -> (r: Result<AssetMigrated, Error>)
        requires
            old(self).wf(),
            pool.wf(),
        ensures
            final(self).wf(),
            r is Err ==> final(ledger).view() == old(ledger).view(),
            match old(self).migrate_error(pool_id, asset_id, *asset_state, *pool, *share_state) {
                Some(e) => r == Err::<AssetMigrated, Error>(e)
                    && final(self).migrated_view() == old(self).migrated_view()
                    && final(self).subpools_view() == old(self).subpools_view(),
                None => match apply_ops(
                    old(ledger).view(),
                    migration_ops(
                        pool_id,
                        asset_id,
                        asset_state.reserve,
                        (share_state.reserve * asset_state.hub_reserve / (share_state.hub_reserve as int)) as u128,
                    ),
                    2,
                ) {
                    None => r == Err::<AssetMigrated, Error>(Error::BalanceTooLow)
                        && final(self).migrated_view() == old(self).migrated_view()
                        && final(self).subpools_view() == old(self).subpools_view(),
                    Some(balances) => r matches Ok(m) && {
                    let q = share_state.hub_reserve as int;
                    &&& final(ledger).view() == balances
                    &&& m.share_state_change.delta_hub_reserve == asset_state.hub_reserve
                    &&& m.share_state_change.delta_reserve == share_state.reserve * asset_state.hub_reserve / q
                    &&& m.share_state_change.delta_shares == share_state.shares * asset_state.hub_reserve / q
                    &&& m.pool.assets@ == pool.assets@.push(asset_id)
                    &&& m.pool.balances@ == pool.balances@.push(asset_state.reserve)
                    &&& m.pool.tradable@ == pool.tradable@.push(asset_state.tradable)
                    &&& m.pool.initial_amplification == pool.initial_amplification
                    &&& m.pool.final_amplification == pool.final_amplification
                    &&& m.pool.initial_block == pool.initial_block
                    &&& m.pool.final_block == pool.final_block
                    &&& m.pool.trade_fee == pool.trade_fee
                    &&& m.pool.withdraw_fee == pool.withdraw_fee
                    &&& m.pool.share_issuance == pool.share_issuance + m.share_state_change.delta_reserve
                    &&& m.pool.wf()
                    &&& lift(Some(m.detail.price)) == price_spec(asset_state.hub_reserve as int, asset_state.reserve as int)
                    &&& m.detail.shares == asset_state.shares
                    &&& m.detail.hub_reserve == asset_state.hub_reserve
                    &&& m.detail.share_tokens == m.share_state_change.delta_shares
                    &&& m.event == (Event::AssetMigrated { asset_id, pool_id })
                    &&& final(self).migrated_view() == old(self).migrated_view().insert(asset_id, (pool_id, m.detail))
                    &&& final(self).subpools_view() == old(self).subpools_view()
                    },
                },
            },
    {
        if !self.subpool_ids.contains(&pool_id) {
            return Err(Error::SubpoolNotFound);
        }
        if self.migrated.contains_key(&asset_id) {
            return Err(Error::NotFound);
        }
        if asset_id == pool_id || self.subpool_ids.contains(&asset_id) {
            return Err(Error::NotAllowed);
        }
        if pool.find_asset(asset_id).is_some() {
            return Err(Error::NotAllowed);
        }
        let du = mul_div(share_state.reserve, asset_state.hub_reserve, share_state.hub_reserve);
        let ds = mul_div(share_state.shares, asset_state.hub_reserve, share_state.hub_reserve);
        let price = mul_div(asset_state.hub_reserve, PRICE_ONE, asset_state.reserve);
        let (du, ds, price) = match (du, ds, price) {
            (Some(x), Some(y), Some(z)) => (x, y, z),
            _ => {
                return Err(Error::Math);
            },
        };
        if pool.share_issuance > MAX_BALANCE - du {
            return Err(Error::Math);
        }
        let mut assets = pool.assets.clone();
        assets.push(asset_id);
        let mut balances = pool.balances.clone();
        balances.push(asset_state.reserve);
        let mut tradable = pool.tradable.clone();
        tradable.push(asset_state.tradable);
        let new_pool = StablePool {
            assets,
            balances,
            tradable,
            initial_amplification: pool.initial_amplification,
            final_amplification: pool.final_amplification,
            initial_block: pool.initial_block,
            final_block: pool.final_block,
            trade_fee: pool.trade_fee,
            withdraw_fee: pool.withdraw_fee,
            share_issuance: pool.share_issuance + du,
        };
        let detail = AssetDetail {
            price,
            shares: asset_state.shares,
            hub_reserve: asset_state.hub_reserve,
            share_tokens: ds,
        };
        let mut ops: Vec<LedgerOp> = Vec::new();
        ops.push(LedgerOp::Transfer { asset: asset_id, from: Account::Hub, to: Account::Subpool(pool_id), amount: asset_state.reserve });
        ops.push(LedgerOp::Mint { asset: pool_id, to: Account::Hub, amount: du });
        assert(ops@ =~= migration_ops(pool_id, asset_id, asset_state.reserve, du));
        if ledger.commit(&ops).is_err() {
            return Err(Error::BalanceTooLow);
        }
        self.migrated.insert(asset_id, (pool_id, detail));
        Ok(AssetMigrated {
            pool: new_pool,
            share_state_change: AssetStateIncrease {
                delta_reserve: du,
                delta_hub_reserve: asset_state.hub_reserve,
                delta_shares: ds,
            },
            detail,
            event: Event::AssetMigrated { asset_id, pool_id },
        })
    }
}

/// Conversion is applied once: a position as it denominates after the lazy
/// conversion is left as it is by a second lookup.
pub proof fn lemma_resolution_idempotent(registry: &Pallet, position: Position)
    requires
        registry.wf(),
        registry.resolved(position) is Some,
    ensures
        registry.resolved(registry.resolved(position)->0) == registry.resolved(position),
{
    if registry.migrated_view().contains_key(position.asset_id) {
        let pool_id = registry.migrated_view()[position.asset_id].0;
        assert(registry.subpools_view().contains(pool_id));
    }
}

} // verus!

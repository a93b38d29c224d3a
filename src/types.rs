//! Data model shared by the solver, the migration registry and the trade
//! resolution engine.
use vstd::prelude::*;
use crate::amplification::{amplification_at, calculate_amplification};

verus! {

/// Identifier of an asset; a stable pool is identified by its share asset.
pub type AssetId = u32;

/// Amount of an asset in its smallest unit.
pub type Balance = u128;

/// Errors surfaced by the engine.
#[derive(PartialEq, Eq, Structural, Clone, Copy, Debug)]
pub enum Error {
    /// An asset, pool or position is absent.
    NotFound,
    /// The stable pool is not registered as a subpool.
    SubpoolNotFound,
    /// Removing liquidity from a subpool position without naming the asset to
    /// withdraw.
    WithdrawAssetNotSpecified,
    /// The operation is restricted to migrated assets.
    NotStableAsset,
    /// Overflow, underflow, division by zero or a solve that did not converge.
    Math,
    /// A buy would cost more than the given maximum.
    LimitExceeded,
    /// A sell would pay out less than the given minimum.
    LimitNotReached,
    /// A required tradability tag is absent.
    NotAllowed,
    /// A ledger write would overdraw (or overflow) a balance.
    BalanceTooLow,
}

/// One operation that an asset may permit.
#[derive(PartialEq, Eq, Structural, Clone, Copy, Debug)]
pub enum Capability {
    Sell,
    Buy,
    AddLiquidity,
    RemoveLiquidity,
}

/// The set of operations an asset currently permits.
#[derive(PartialEq, Eq, Structural, Clone, Copy, Debug)]
pub struct Tradability {
    pub sell: bool,
    pub buy: bool,
    pub add_liquidity: bool,
    pub remove_liquidity: bool,
}

impl View for Tradability {
    type V = Set<Capability>;

    open spec fn view(&self) -> Set<Capability> {
        Set::new(
            |c: Capability|
                match c {
                    Capability::Sell => self.sell,
                    Capability::Buy => self.buy,
                    Capability::AddLiquidity => self.add_liquidity,
                    Capability::RemoveLiquidity => self.remove_liquidity,
                },
        )
    }
}

impl Tradability {
    /// Every operation permitted.
    pub fn all() -> (r: Tradability)
        ensures
            forall|c: Capability| r@.contains(c),
    {
        Tradability { sell: true, buy: true, add_liquidity: true, remove_liquidity: true }
    }

    /// Whether operation `c` is permitted.
    pub fn contains(&self, c: Capability) -> (r: bool)
        ensures
            r == self@.contains(c),
    {
        match c {
            Capability::Sell => self.sell,
            Capability::Buy => self.buy,
            Capability::AddLiquidity => self.add_liquidity,
            Capability::RemoveLiquidity => self.remove_liquidity,
        }
    }
}

/// State of one asset in the hub pool.
#[derive(PartialEq, Eq, Structural, Clone, Copy, Debug)]
pub struct HubAssetState {
    /// Amount of the asset held by the hub pool.
    pub reserve: Balance,
    /// Amount of the hub asset that prices the reserve.
    pub hub_reserve: Balance,
    /// Outstanding liquidity shares.
    pub shares: Balance,
    /// Shares owned by the protocol.
    pub protocol_shares: Balance,
    /// Weight cap in parts per million.
    pub cap: u32,
    pub tradable: Tradability,
}

/// Deltas a hub-pool trade applies to the two assets it touches. When the
/// hub asset itself is sold, `delta_reserve_in` is the amount of hub asset
/// paid in.
#[derive(PartialEq, Eq, Structural, Clone, Copy, Debug)]
pub struct TradeStateChange {
    /// Amount of the sold asset that enters the hub pool.
    pub delta_reserve_in: Balance,
    /// Amount of the bought asset that leaves the hub pool.
    pub delta_reserve_out: Balance,
    /// Hub asset added to the sold asset's hub reserve.
    pub delta_hub_reserve_in: Balance,
    /// Hub asset taken from the bought asset's hub reserve.
    pub delta_hub_reserve_out: Balance,
    /// Fee retained by the hub pool.
    pub fee: Balance,
}

/// Increase of a hub-pool asset's state (liquidity added or an asset
/// migrated into a subpool's share asset).
#[derive(PartialEq, Eq, Structural, Clone, Copy, Debug)]
pub struct AssetStateIncrease {
    pub delta_reserve: Balance,
    pub delta_hub_reserve: Balance,
    pub delta_shares: Balance,
}

/// A liquidity position in the hub pool.
#[derive(PartialEq, Eq, Structural, Clone, Copy, Debug)]
pub struct Position {
    /// The asset the position is denominated in.
    pub asset_id: AssetId,
    /// Amount deposited.
    pub amount: Balance,
    /// Hub-pool shares owned.
    pub shares: Balance,
    /// Price of the asset in the hub asset at entry, with 18 decimals.
    pub price: Balance,
}

/// What a migration recorded about an asset, used to re-express positions
/// opened before it.
#[derive(PartialEq, Eq, Structural, Clone, Copy, Debug)]
pub struct AssetDetail {
    /// Price of the asset in the hub asset at migration, with 18 decimals.
    pub price: Balance,
    /// Hub-pool shares of the asset outstanding at migration.
    pub shares: Balance,
    /// Hub reserve of the asset at migration.
    pub hub_reserve: Balance,
    /// Hub-pool shares of the subpool's share asset that replaced them.
    pub share_tokens: Balance,
}

/// A stable pool as read at one block: members, their balances and
/// tradability, the amplification ramp, fees and share issuance.
#[derive(Clone, Debug)]
pub struct StablePool {
    pub assets: Vec<AssetId>,
    pub balances: Vec<Balance>,
    pub tradable: Vec<Tradability>,
    pub initial_amplification: u16,
    pub final_amplification: u16,
    pub initial_block: u64,
    pub final_block: u64,
    /// Trade fee in parts per million.
    pub trade_fee: u32,
    /// Withdrawal fee in parts per million.
    pub withdraw_fee: u32,
    /// Total issuance of the pool's share asset.
    pub share_issuance: Balance,
}

/// Position of the first occurrence of `a` in `s` at or after `i`.
pub open spec fn index_from(s: Seq<AssetId>, a: AssetId, i: int) -> Option<int>
    decreases s.len() - i,
{
    if i < 0 || i >= s.len() {
        None
    } else if s[i] == a {
        Some(i)
    } else {
        index_from(s, a, i + 1)
    }
}

pub proof fn lemma_index_from_bounds(s: Seq<AssetId>, a: AssetId, i: int)
    requires
        0 <= i,
    ensures
        index_from(s, a, i) matches Some(k) ==> i <= k < s.len() && s[k] == a,
        index_from(s, a, i) is None ==> forall|k: int| i <= k < s.len() ==> s[k] != a,
    decreases s.len() - i,
{
    if i < s.len() && s[i] != a {
        lemma_index_from_bounds(s, a, i + 1);
    }
}

impl StablePool {
    /// The three per-asset lists have one entry per member.
    pub open spec fn wf(&self) -> bool {
        &&& self.balances@.len() == self.assets@.len()
        &&& self.tradable@.len() == self.assets@.len()
    }

    /// Index of `asset` among the members.
    pub open spec fn index_of(&self, asset: AssetId) -> Option<int> {
        index_from(self.assets@, asset, 0)
    }

    /// Effective amplification at `block`.
    pub open spec fn amplification_spec(&self, block: u64) -> int {
        amplification_at(
            self.initial_amplification as int,
            self.final_amplification as int,
            self.initial_block as int,
            self.final_block as int,
            block as int,
        )
    }

    /// Whether `asset` is a member that permits operation `c`.
    pub open spec fn allows(&self, asset: AssetId, c: Capability) -> bool {
        match self.index_of(asset) {
            Some(i) => self.tradable@[i]@.contains(c),
            None => false,
        }
    }

    /// Index of `asset` among the pool's members.
    pub fn find_asset(&self, asset: AssetId) -> (r: Option<usize>)
        ensures
            r matches Some(i) ==> self.index_of(asset) == Some(i as int),
            r is None ==> self.index_of(asset) is None,
    {
        let mut i: usize = 0;
        while i < self.assets.len()
            invariant
                i <= self.assets@.len(),
                index_from(self.assets@, asset, 0) == index_from(self.assets@, asset, i as int),
            decreases self.assets@.len() - i,
        {
            if self.assets[i] == asset {
                return Some(i);
            }
            i = i + 1;
        }
        None
    }

    /// Effective amplification at `block`, as the invariant solver uses it.
    pub fn amplification(&self, block: u64) -> (r: u128)
        ensures
            r == self.amplification_spec(block),
    {
        calculate_amplification(
            self.initial_amplification,
            self.final_amplification,
            self.initial_block,
            self.final_block,
            block,
        ) as u128
    }

    /// Whether `asset` is a member that permits operation `c`.
    pub fn is_asset_allowed(&self, asset: AssetId, c: Capability) -> (r: bool)
        requires
            self.wf(),
        ensures
            r == self.allows(asset, c),
    {
        proof {
            lemma_index_from_bounds(self.assets@, asset, 0);
        }
        match self.find_asset(asset) {
            Some(i) => self.tradable[i].contains(c),
            None => false,
        }
    }
}

} // verus!

//! Data of recurring (dollar-cost-averaging) orders.
use vstd::prelude::*;
use crate::types::Balance;

verus! {

/// Most trades a route may hold.
pub const MAX_NUMBER_OF_TRADES: usize = 5;

/// How many times a schedule runs.
#[derive(PartialEq, Eq, Structural, Clone, Copy, Debug)]
pub enum Recurrence {
    Fixed(u128),
    Perpetual,
}

/// Kind of pool a trade of a route executes in.
#[derive(PartialEq, Eq, Structural, Clone, Copy, Debug)]
pub enum PoolType {
    Omnipool,
}

/// A single trade of a route: the asset pair and the pool it runs in.
#[derive(PartialEq, Eq, Structural, Clone, Copy, Debug)]
pub struct Trade<AssetId> {
    pub pool: PoolType,
    pub asset_in: AssetId,
    pub asset_out: AssetId,
}

/// Amount of an asset reserved for a schedule.
#[derive(PartialEq, Eq, Structural, Clone, Copy, Debug)]
pub struct Bond<AssetId> {
    pub asset: AssetId,
    pub amount: Balance,
}

/// A route of at most [`MAX_NUMBER_OF_TRADES`] trades.
#[derive(Clone, Debug)]
pub struct Route<AssetId> {
    trades: Vec<Trade<AssetId>>,
}

impl<AssetId> View for Route<AssetId> {
    type V = Seq<Trade<AssetId>>;

    closed spec fn view(&self) -> Seq<Trade<AssetId>> {
        self.trades@
    }
}

impl<AssetId> Route<AssetId> {
    /// A route never holds more than [`MAX_NUMBER_OF_TRADES`] trades.
    pub closed spec fn wf(&self) -> bool {
        self.trades@.len() <= MAX_NUMBER_OF_TRADES
    }

    /// Number of trades.
    pub fn len(&self) -> (r: usize)
        requires
            self.wf(),
        ensures
            r == self@.len(),
            r <= MAX_NUMBER_OF_TRADES,
    {
        self.trades.len()
    }

    /// The trades, in order.
    pub fn trades(&self) -> (r: &Vec<Trade<AssetId>>)
        ensures
            r@ == self@,
    {
        &self.trades
    }
}

/// Bounds a list of trades as a route.
pub fn create_bounded_vec<AssetId>(trades: Vec<Trade<AssetId>>) -> (r: Route<AssetId>)
    requires
        trades@.len() <= MAX_NUMBER_OF_TRADES,
    ensures
        r.wf(),
        r@ == trades@,
{
    Route { trades }
}

/// A recurring order: sell a fixed amount, or buy a fixed amount, each time.
#[derive(Clone, Debug)]
pub enum Order<AssetId> {
    Sell { asset_in: AssetId, asset_out: AssetId, amount_in: Balance, min_limit: Balance, route: Route<AssetId> },
    Buy { asset_in: AssetId, asset_out: AssetId, amount_out: Balance, max_limit: Balance, route: Route<AssetId> },
}

/// An order repeated every `period` blocks, as often as `recurrence` says.
#[derive(Clone, Debug)]
pub struct Schedule<AssetId, BlockNumber> {
    pub period: BlockNumber,
    pub recurrence: Recurrence,
    pub order: Order<AssetId>,
}

} // verus!

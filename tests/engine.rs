use omnipool_subpools::engine::{
    resolve_buy_between_subpools, resolve_mixed_trade_hub_asset_in_given_stable_out,
    resolve_mixed_trade_iso_in_given_stable_out, resolve_mixed_trade_iso_out_given_stable_in,
    resolve_mixed_trade_stable_in_given_asset_out, resolve_mixed_trade_stable_out_given_asset_in,
    resolve_mixed_trade_stable_out_given_hub_asset_in, resolve_sell_between_subpools, resolve_sell_within_subpool,
    resolve_buy_within_subpool, sell_to_stable, buy_from_stable, sell_for_hub, buy_with_hub, Settlement, TradeRoute,
};
use omnipool_subpools::ledger::{Account, Ledger, LedgerOp};
use omnipool_subpools::subpools::Pallet;
use omnipool_subpools::types::{Error, HubAssetState, StablePool, TradeStateChange, Tradability};

const ONE: u128 = 1_000_000_000_000;
const HUB: u32 = 1;
const POOL_A: u32 = 100;
const POOL_B: u32 = 200;
const TRADER: Account = Account::User(42);

fn pool(assets: Vec<u32>) -> StablePool {
    StablePool {
        assets,
        balances: vec![3_000 * ONE, 4_000 * ONE],
        tradable: vec![Tradability::all(), Tradability::all()],
        initial_amplification: 100,
        final_amplification: 100,
        initial_block: 0,
        final_block: 0,
        trade_fee: 0,
        withdraw_fee: 0,
        share_issuance: 7_000 * ONE,
    }
}

fn native(tradable: Tradability) -> HubAssetState {
    HubAssetState { reserve: 1_000 * ONE, hub_reserve: 500 * ONE, shares: 1_000 * ONE, protocol_shares: 0, cap: 1_000_000, tradable }
}

fn quote(delta_in: u128, delta_out: u128) -> TradeStateChange {
    TradeStateChange { delta_reserve_in: delta_in, delta_reserve_out: delta_out, delta_hub_reserve_in: 1, delta_hub_reserve_out: 1, fee: 0 }
}

fn no_sell() -> Tradability {
    Tradability { sell: false, buy: true, add_liquidity: true, remove_liquidity: true }
}

fn hub_state(reserve: u128) -> HubAssetState {
    HubAssetState { reserve, hub_reserve: reserve, shares: reserve, protocol_shares: 0, cap: 1_000_000, tradable: Tradability::all() }
}

/// Two subpools, A over assets 3 and 4, B over 5 and 6, each holding
/// 3000 and 4000 units and 7000 share tokens in the hub pool, as `pool`
/// describes them; a trader holding 100 units of 3 and of 7.
fn setup() -> (Pallet, Ledger) {
    let mut ledger = Ledger::new();
    let ops = vec![
        LedgerOp::Mint { asset: 3, to: Account::Hub, amount: 3_000 * ONE },
        LedgerOp::Mint { asset: 4, to: Account::Hub, amount: 4_000 * ONE },
        LedgerOp::Mint { asset: 5, to: Account::Hub, amount: 3_000 * ONE },
        LedgerOp::Mint { asset: 6, to: Account::Hub, amount: 4_000 * ONE },
    ];
    assert_eq!(ledger.commit(&ops), Ok(()));
    let mut registry = Pallet::new();
    let (a, b) = (hub_state(3_000 * ONE), hub_state(4_000 * ONE));
    registry.create_subpool(&mut ledger, POOL_A, 3, &a, 4, &b, 0, 100, 0, 0).unwrap();
    registry.create_subpool(&mut ledger, POOL_B, 5, &a, 6, &b, 0, 100, 0, 0).unwrap();
    let ops = vec![
        LedgerOp::Mint { asset: 3, to: TRADER, amount: 100 * ONE },
        LedgerOp::Mint { asset: 7, to: TRADER, amount: 100 * ONE },
        LedgerOp::Mint { asset: 7, to: Account::Hub, amount: 1_000 * ONE },
    ];
    assert_eq!(ledger.commit(&ops), Ok(()));
    (registry, ledger)
}

#[test]
fn trade_routes() {
    let (registry, _) = setup();
    assert_eq!(registry.sell_route(7, 8), TradeRoute::Hub);
    assert_eq!(registry.sell_route(3, 4), TradeRoute::Subpool { pool_id: POOL_A });
    assert_eq!(registry.sell_route(3, 5), TradeRoute::BetweenSubpools { pool_in: POOL_A, pool_out: POOL_B });
    assert_eq!(registry.sell_route(3, 7), TradeRoute::StableIn { pool_in: POOL_A });
    assert_eq!(registry.sell_route(7, 6), TradeRoute::StableOut { pool_out: POOL_B });
    assert_eq!(registry.buy_route(6, 7), TradeRoute::StableOut { pool_out: POOL_B });
    assert_eq!(registry.buy_route(7, 3), TradeRoute::StableIn { pool_in: POOL_A });
}

#[test]
fn sell_between_subpools_settles() {
    let pool_in = pool(vec![3, 4]);
    let pool_out = pool(vec![5, 6]);
    let r = resolve_sell_between_subpools(&pool_in, &pool_out, 3, 6, 10 * ONE, 0, 0, |du| {
        assert_eq!(du, 10_008_410_201_247);
        Some(quote(du, 5 * ONE))
    });
    assert_eq!(
        r,
        Ok(Settlement {
            amount_in: 10 * ONE,
            amount_out: 5_003_168_049_250,
            shares_minted: 10_008_410_201_247,
            shares_burned: 5 * ONE,
            withdraw_fee: 0,
            hub_change: quote(10_008_410_201_247, 5 * ONE),
        })
    );
}

#[test]
fn sell_between_subpools_checks_limit_and_tradability() {
    let pool_in = pool(vec![3, 4]);
    let pool_out = pool(vec![5, 6]);
    let r = resolve_sell_between_subpools(&pool_in, &pool_out, 3, 6, 10 * ONE, 6 * ONE, 0, |du| Some(quote(du, 5 * ONE)));
    assert_eq!(r, Err(Error::LimitNotReached));
    let r = resolve_sell_between_subpools(&pool_in, &pool_out, 3, 6, 10 * ONE, 0, 0, |_| None);
    assert_eq!(r, Err(Error::Math));
    let mut locked = pool(vec![3, 4]);
    locked.tradable[0] = no_sell();
    let r = resolve_sell_between_subpools(&locked, &pool_out, 3, 6, 10 * ONE, 0, 0, |du| Some(quote(du, 5 * ONE)));
    assert_eq!(r, Err(Error::NotAllowed));
    let r = resolve_sell_between_subpools(&pool_in, &pool_out, 9, 6, 10 * ONE, 0, 0, |du| Some(quote(du, 5 * ONE)));
    assert_eq!(r, Err(Error::NotAllowed));
}

#[test]
fn buy_between_subpools_settles() {
    let pool_in = pool(vec![3, 4]);
    let pool_out = pool(vec![5, 6]);
    let r = resolve_buy_between_subpools(&pool_in, &pool_out, 3, 6, 5 * ONE, u128::MAX, 0, |du| {
        assert_eq!(du, 4_996_833_952_117);
        Some(quote(5 * ONE, du))
    });
    assert_eq!(
        r,
        Ok(Settlement {
            amount_in: 4_995_785_400_681,
            amount_out: 5 * ONE,
            shares_minted: 5 * ONE,
            shares_burned: 4_996_833_952_117,
            withdraw_fee: 0,
            hub_change: quote(5 * ONE, 4_996_833_952_117),
        })
    );
    let r = resolve_buy_between_subpools(&pool_in, &pool_out, 3, 6, 5 * ONE, ONE, 0, |du| Some(quote(5 * ONE, du)));
    assert_eq!(r, Err(Error::LimitExceeded));
}

#[test]
fn stable_in_for_native_out() {
    let pool_in = pool(vec![3, 4]);
    let out = native(Tradability::all());
    let r = resolve_mixed_trade_iso_out_given_stable_in(&pool_in, 3, 7, &out, HUB, 10 * ONE, 2 * ONE, 0, |du| Some(quote(du, 3 * ONE)));
    assert_eq!(
        r,
        Ok(Settlement {
            amount_in: 10 * ONE,
            amount_out: 3 * ONE,
            shares_minted: 10_008_410_201_247,
            shares_burned: 0,
            withdraw_fee: 0,
            hub_change: quote(10_008_410_201_247, 3 * ONE),
        })
    );
    let r = resolve_mixed_trade_iso_out_given_stable_in(&pool_in, 3, 7, &out, HUB, 10 * ONE, 4 * ONE, 0, |du| Some(quote(du, 3 * ONE)));
    assert_eq!(r, Err(Error::LimitNotReached));
    let r = resolve_mixed_trade_iso_out_given_stable_in(&pool_in, 3, HUB, &out, HUB, 10 * ONE, 0, 0, |du| Some(quote(du, 3 * ONE)));
    assert_eq!(r, Err(Error::NotAllowed));
}

#[test]
fn native_in_for_stable_out() {
    let pool_out = pool(vec![5, 6]);
    let seller = native(Tradability::all());
    let r = resolve_mixed_trade_stable_out_given_asset_in(&pool_out, 7, 6, &seller, HUB, false, 10 * ONE, 0, 0, |a| Some(quote(a, 5 * ONE)));
    assert_eq!(
        r,
        Ok(Settlement {
            amount_in: 10 * ONE,
            amount_out: 5_003_168_049_250,
            shares_minted: 0,
            shares_burned: 5 * ONE,
            withdraw_fee: 0,
            hub_change: quote(10 * ONE, 5 * ONE),
        })
    );
    let blocked = native(no_sell());
    let r = resolve_mixed_trade_stable_out_given_asset_in(&pool_out, 7, 6, &blocked, HUB, true, 10 * ONE, 0, 0, |a| Some(quote(a, 5 * ONE)));
    assert_eq!(r, Err(Error::NotAllowed));
}

#[test]
fn hub_asset_in_for_stable_out() {
    let pool_out = pool(vec![5, 6]);
    let seller = native(Tradability::all());
    let r = resolve_mixed_trade_stable_out_given_asset_in(&pool_out, HUB, 6, &seller, HUB, false, 10 * ONE, 0, 0, |a| Some(quote(a, 5 * ONE)));
    assert_eq!(r, Err(Error::NotAllowed));
    let r = resolve_mixed_trade_stable_out_given_hub_asset_in(&pool_out, HUB, 6, HUB, true, 10 * ONE, 0, 0, |a| Some(quote(a, 5 * ONE)));
    assert_eq!(r.map(|s| s.amount_out), Ok(5_003_168_049_250));
    let r = resolve_mixed_trade_stable_out_given_hub_asset_in(&pool_out, 7, 6, HUB, true, 10 * ONE, 0, 0, |a| Some(quote(a, 5 * ONE)));
    assert_eq!(r, Err(Error::NotAllowed));
}

#[test]
fn stable_in_for_native_out_buy() {
    let pool_in = pool(vec![3, 4]);
    let out = native(Tradability::all());
    let r = resolve_mixed_trade_stable_in_given_asset_out(&pool_in, 3, 7, &out, HUB, 2 * ONE, u128::MAX, 0, |a| Some(quote(5 * ONE, a)));
    assert_eq!(
        r,
        Ok(Settlement {
            amount_in: 4_995_785_400_681,
            amount_out: 2 * ONE,
            shares_minted: 5 * ONE,
            shares_burned: 0,
            withdraw_fee: 0,
            hub_change: quote(5 * ONE, 2 * ONE),
        })
    );
    let r = resolve_mixed_trade_stable_in_given_asset_out(&pool_in, 3, HUB, &out, HUB, 2 * ONE, u128::MAX, 0, |a| Some(quote(5 * ONE, a)));
    assert_eq!(r, Err(Error::NotAllowed));
}

#[test]
fn native_in_for_stable_out_buy() {
    let pool_out = pool(vec![5, 6]);
    let seller = native(Tradability::all());
    let r = resolve_mixed_trade_iso_in_given_stable_out(&pool_out, 7, 6, &seller, HUB, false, 5 * ONE, 8 * ONE, 0, |du| Some(quote(7 * ONE, du)));
    assert_eq!(
        r,
        Ok(Settlement {
            amount_in: 7 * ONE,
            amount_out: 5 * ONE,
            shares_minted: 0,
            shares_burned: 4_996_833_952_117,
            withdraw_fee: 0,
            hub_change: quote(7 * ONE, 4_996_833_952_117),
        })
    );
    let r = resolve_mixed_trade_iso_in_given_stable_out(&pool_out, 7, 6, &seller, HUB, false, 5 * ONE, 6 * ONE, 0, |du| Some(quote(7 * ONE, du)));
    assert_eq!(r, Err(Error::LimitExceeded));
}

#[test]
fn hub_asset_in_for_stable_out_buy() {
    let pool_out = pool(vec![5, 6]);
    let r = resolve_mixed_trade_hub_asset_in_given_stable_out(&pool_out, HUB, 6, HUB, true, 5 * ONE, 8 * ONE, 0, |du| Some(quote(7 * ONE, du)));
    assert_eq!(r.map(|s| s.amount_in), Ok(7 * ONE));
    let r = resolve_mixed_trade_hub_asset_in_given_stable_out(&pool_out, HUB, 6, HUB, false, 5 * ONE, 8 * ONE, 0, |du| Some(quote(7 * ONE, du)));
    assert_eq!(r, Err(Error::NotAllowed));
    let seller = native(Tradability::all());
    let r = resolve_mixed_trade_iso_in_given_stable_out(&pool_out, HUB, 6, &seller, HUB, true, 5 * ONE, 6 * ONE, 0, |du| Some(quote(7 * ONE, du)));
    assert_eq!(r, Err(Error::LimitExceeded));
}

#[test]
fn trades_within_one_subpool() {
    let p = pool(vec![3, 4]);
    let r = resolve_sell_within_subpool(&p, 3, 4, 10 * ONE, 0, 0);
    assert_eq!(r.map(|s| (s.amount_in, s.amount_out, s.shares_minted)), Ok((10 * ONE, 10_014_658_277_127, 0)));
    assert_eq!(resolve_sell_within_subpool(&p, 3, 4, 10 * ONE, 11 * ONE, 0), Err(Error::LimitNotReached));
    assert_eq!(resolve_sell_within_subpool(&p, 3, 3, 10 * ONE, 0, 0), Err(Error::NotAllowed));
    let mut fee_pool = pool(vec![3, 4]);
    fee_pool.trade_fee = 3_000;
    let r = resolve_buy_within_subpool(&fee_pool, 3, 4, 10 * ONE, u128::MAX, 0);
    assert_eq!(r.map(|s| s.amount_in), Ok(10_015_319_033_060));
    assert_eq!(resolve_buy_within_subpool(&fee_pool, 3, 4, 10 * ONE, 10 * ONE, 0), Err(Error::LimitExceeded));
    assert_eq!(resolve_buy_within_subpool(&fee_pool, 3, 9, 10 * ONE, u128::MAX, 0), Err(Error::NotAllowed));
}

#[test]
fn settling_a_given_hub_answer() {
    let p = pool(vec![5, 6]);
    let r = sell_to_stable(&p, 6, Some(quote(7 * ONE, 5 * ONE)), 7 * ONE, 7 * ONE, false, 0, 0);
    assert_eq!(r.map(|s| (s.amount_in, s.amount_out, s.shares_burned)), Ok((7 * ONE, 5_003_168_049_250, 5 * ONE)));
    assert_eq!(sell_to_stable(&p, 6, Some(quote(6 * ONE, 5 * ONE)), 7 * ONE, 7 * ONE, false, 0, 0), Err(Error::Math));
    assert_eq!(sell_to_stable(&p, 6, None, 7 * ONE, 7 * ONE, false, 0, 0), Err(Error::Math));
    assert_eq!(sell_to_stable(&p, 9, Some(quote(7 * ONE, 5 * ONE)), 7 * ONE, 7 * ONE, false, 0, 0), Err(Error::NotFound));
    let p = pool(vec![3, 4]);
    let r = buy_from_stable(&p, 3, Some(quote(5 * ONE, 2 * ONE)), 2 * ONE, 2 * ONE, false, u128::MAX, 0);
    assert_eq!(r.map(|s| (s.amount_in, s.amount_out, s.shares_minted)), Ok((4_995_785_400_681, 2 * ONE, 5 * ONE)));
    assert_eq!(buy_from_stable(&p, 3, Some(quote(5 * ONE, ONE)), 2 * ONE, 2 * ONE, false, u128::MAX, 0), Err(Error::Math));
    assert_eq!(buy_from_stable(&p, 3, None, 2 * ONE, 2 * ONE, false, u128::MAX, 0), Err(Error::Math));
    assert_eq!(buy_from_stable(&p, 9, None, 2 * ONE, 2 * ONE, false, u128::MAX, 0), Err(Error::NotFound));
    assert_eq!(sell_for_hub(Some(quote(3, 9)), 3, 10, true, 9).map(|s| (s.amount_in, s.amount_out, s.shares_minted)), Ok((10, 9, 3)));
    assert_eq!(sell_for_hub(Some(quote(3, 9)), 3, 10, true, 10), Err(Error::LimitNotReached));
    assert_eq!(sell_for_hub(Some(quote(4, 9)), 3, 10, true, 0), Err(Error::Math));
    assert_eq!(buy_with_hub(Some(quote(8, 3)), 3, 2, true, 8).map(|s| (s.amount_in, s.amount_out, s.shares_burned)), Ok((8, 2, 3)));
    assert_eq!(buy_with_hub(Some(quote(8, 3)), 3, 2, true, 7), Err(Error::LimitExceeded));
    assert_eq!(buy_with_hub(None, 3, 2, true, 8), Err(Error::Math));
}

#[test]
fn sell_between_subpools_commits_to_ledger() {
    let (registry, mut ledger) = setup();
    let (pool_in, pool_out, st) = (pool(vec![3, 4]), pool(vec![5, 6]), native(Tradability::all()));
    let r = registry.sell(&mut ledger, 42, &pool_in, &pool_out, &st, &st, HUB, true, 3, 6, 10 * ONE, 5 * ONE, 0, |du| Some(quote(du, 5 * ONE)));
    let s = r.unwrap();
    assert_eq!(s.amount_out, 5_003_168_049_250);
    assert_eq!(ledger.free_balance(3, TRADER), 90 * ONE);
    assert_eq!(ledger.free_balance(6, TRADER), 5_003_168_049_250);
    assert_eq!(ledger.free_balance(3, Account::Subpool(POOL_A)), 3_010 * ONE);
    assert_eq!(ledger.free_balance(6, Account::Subpool(POOL_B)), 4_000 * ONE - 5_003_168_049_250);
    assert_eq!(ledger.free_balance(POOL_A, Account::Hub), 7_000 * ONE + 10_008_410_201_247);
    assert_eq!(ledger.free_balance(POOL_B, Account::Hub), 6_995 * ONE);
}

#[test]
fn sell_below_minimum_changes_nothing() {
    let (registry, mut ledger) = setup();
    let (pool_in, pool_out, st) = (pool(vec![3, 4]), pool(vec![5, 6]), native(Tradability::all()));
    let r = registry.sell(&mut ledger, 42, &pool_in, &pool_out, &st, &st, HUB, true, 3, 6, 10 * ONE, 6 * ONE, 0, |du| Some(quote(du, 5 * ONE)));
    assert_eq!(r, Err(Error::LimitNotReached));
    assert_eq!(ledger.free_balance(3, TRADER), 100 * ONE);
    assert_eq!(ledger.free_balance(6, TRADER), 0);
    assert_eq!(ledger.free_balance(POOL_B, Account::Hub), 7_000 * ONE);
}

#[test]
fn hub_asset_cannot_be_bought() {
    let (registry, mut ledger) = setup();
    let (p, st) = (pool(vec![3, 4]), native(Tradability::all()));
    let r = registry.sell(&mut ledger, 42, &p, &p, &st, &st, HUB, true, 3, HUB, 10 * ONE, 0, 0, |du| Some(quote(du, ONE)));
    assert_eq!(r, Err(Error::NotAllowed));
    let r = registry.buy(&mut ledger, 42, &p, &p, &st, &st, HUB, true, HUB, 3, ONE, u128::MAX, 0, |du| Some(quote(ONE, du)));
    assert_eq!(r, Err(Error::NotAllowed));
    assert_eq!(ledger.free_balance(3, TRADER), 100 * ONE);
}

#[test]
fn buy_of_stable_with_native_commits_to_ledger() {
    let (registry, mut ledger) = setup();
    let (p, st) = (pool(vec![5, 6]), native(Tradability::all()));
    let r = registry.buy(&mut ledger, 42, &p, &p, &st, &st, HUB, true, 6, 7, 5 * ONE, 8 * ONE, 0, |du| Some(quote(7 * ONE, du)));
    let s = r.unwrap();
    assert_eq!((s.amount_in, s.amount_out, s.shares_burned), (7 * ONE, 5 * ONE, 4_996_833_952_117));
    assert_eq!(ledger.free_balance(7, TRADER), 93 * ONE);
    assert_eq!(ledger.free_balance(6, TRADER), 5 * ONE);
    assert_eq!(ledger.free_balance(7, Account::Hub), 1_007 * ONE);
    let r = registry.buy(&mut ledger, 42, &p, &p, &st, &st, HUB, true, 6, 7, 5 * ONE, 6 * ONE, 0, |du| Some(quote(7 * ONE, du)));
    assert_eq!(r, Err(Error::LimitExceeded));
    assert_eq!(ledger.free_balance(7, TRADER), 93 * ONE);
}

#[test]
fn trade_within_subpool_commits_and_trader_without_funds_changes_nothing() {
    let (registry, mut ledger) = setup();
    let s = native(Tradability::all());
    let p = pool(vec![3, 4]);
    let r = registry.sell(&mut ledger, 43, &p, &p, &s, &s, HUB, true, 3, 4, 10 * ONE, 0, 0, |_| None);
    assert_eq!(r, Err(Error::BalanceTooLow));
    assert_eq!(ledger.free_balance(4, Account::Subpool(POOL_A)), 4_000 * ONE);
    let r = registry.sell(&mut ledger, 42, &p, &p, &s, &s, HUB, true, 3, 4, 10 * ONE, 0, 0, |_| None);
    assert_eq!(r.map(|s| s.amount_out), Ok(10_014_658_277_127));
    assert_eq!(ledger.free_balance(4, TRADER), 10_014_658_277_127);
    assert_eq!(ledger.free_balance(3, TRADER), 90 * ONE);
    assert_eq!(ledger.free_balance(3, Account::Subpool(POOL_A)), 3_010 * ONE);
}

#[test]
fn trade_between_native_assets_goes_through_hub() {
    let (registry, mut ledger) = setup();
    let (p, st) = (pool(vec![3, 4]), native(Tradability::all()));
    let _ = ledger.commit(&vec![LedgerOp::Mint { asset: 8, to: Account::Hub, amount: 50 * ONE }]);
    let r = registry.sell(&mut ledger, 42, &p, &p, &st, &st, HUB, true, 7, 8, 10 * ONE, ONE, 0, |a| Some(quote(a, 2 * ONE)));
    assert_eq!(r.map(|s| (s.amount_in, s.amount_out)), Ok((10 * ONE, 2 * ONE)));
    assert_eq!(ledger.free_balance(8, TRADER), 2 * ONE);
    assert_eq!(ledger.free_balance(7, TRADER), 90 * ONE);
    let r = registry.sell(&mut ledger, 42, &p, &p, &st, &st, HUB, true, 7, 8, 10 * ONE, ONE, 0, |a| Some(quote(a + 1, 2 * ONE)));
    assert_eq!(r, Err(Error::Math));
    let blocked = native(Tradability { sell: true, buy: false, add_liquidity: true, remove_liquidity: true });
    let r = registry.buy(&mut ledger, 42, &p, &p, &st, &blocked, HUB, true, 8, 7, ONE, u128::MAX, 0, |a| Some(quote(3 * ONE, a)));
    assert_eq!(r, Err(Error::NotAllowed));
}

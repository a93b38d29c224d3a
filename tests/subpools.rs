use omnipool_subpools::ledger::{Account, Ledger, LedgerOp};
use omnipool_subpools::subpools::{calculate_add_liquidity_state_changes, Event, Pallet, SubpoolCreated};
use omnipool_subpools::types::{AssetDetail, Error, HubAssetState, Position, Tradability};

const ONE: u128 = 1_000_000_000_000;
const SHARE_ASSET: u32 = 100;
const ASSET_3: u32 = 3;
const ASSET_4: u32 = 4;
const ASSET_5: u32 = 5;
const WHO: u64 = 9;

fn state(reserve: u128, hub_reserve: u128, shares: u128) -> HubAssetState {
    HubAssetState { reserve, hub_reserve, shares, protocol_shares: 0, cap: 1_000_000, tradable: Tradability::all() }
}

fn hub_funded() -> Ledger {
    let mut ledger = Ledger::new();
    let ops = vec![
        LedgerOp::Mint { asset: ASSET_3, to: Account::Hub, amount: 3_000 * ONE },
        LedgerOp::Mint { asset: ASSET_4, to: Account::Hub, amount: 4_000 * ONE },
        LedgerOp::Mint { asset: ASSET_5, to: Account::Hub, amount: 1_000 * ONE },
        LedgerOp::Mint { asset: ASSET_3, to: Account::User(WHO), amount: 1_000 * ONE },
        LedgerOp::Mint { asset: ASSET_5, to: Account::User(WHO), amount: 1_000 * ONE },
    ];
    assert_eq!(ledger.commit(&ops), Ok(()));
    ledger
}

fn created() -> (Pallet, SubpoolCreated, Ledger) {
    let mut registry = Pallet::new();
    let mut ledger = hub_funded();
    let created = registry
        .create_subpool(
            &mut ledger,
            SHARE_ASSET,
            ASSET_3,
            &state(3_000 * ONE, 1_500 * ONE, 3_000 * ONE),
            ASSET_4,
            &state(4_000 * ONE, 2_000 * ONE, 4_000 * ONE),
            1_000_000,
            100,
            0,
            0,
        )
        .unwrap();
    (registry, created, ledger)
}

#[test]
fn created_subpool_share_asset_has_reserve_equal_to_shares() {
    let mut registry = Pallet::new();
    let mut ledger = hub_funded();
    let a = state(3_000 * ONE, 1_500 * ONE, 3_000 * ONE);
    let b = state(4_000 * ONE, 2_000 * ONE, 4_000 * ONE);
    let created = registry.create_subpool(&mut ledger, SHARE_ASSET, ASSET_3, &a, ASSET_4, &b, 500_000, 100, 30, 10).unwrap();
    assert_eq!(created.share_state.reserve, 3_500 * ONE);
    assert_eq!(created.share_state.shares, 3_500 * ONE);
    assert_eq!(created.share_state.hub_reserve, 3_500 * ONE);
    assert_eq!(created.share_state.reserve - created.share_state.shares, 0);
    assert_eq!(created.share_state.cap, 500_000);
    assert_eq!(created.pool.assets, vec![ASSET_3, ASSET_4]);
    assert_eq!(created.pool.balances, vec![3_000 * ONE, 4_000 * ONE]);
    assert_eq!(created.pool.share_issuance, 3_500 * ONE);
    assert_eq!(created.pool.trade_fee, 30);
    assert_eq!(created.pool.withdraw_fee, 10);
    assert_eq!(
        created.detail_a,
        AssetDetail { price: 500_000_000_000_000_000, shares: 3_000 * ONE, hub_reserve: 1_500 * ONE, share_tokens: 1_500 * ONE }
    );
    assert_eq!(created.detail_b.share_tokens, 2_000 * ONE);
    assert_eq!(created.event, Event::SubpoolCreated { id: SHARE_ASSET, asset_a: ASSET_3, asset_b: ASSET_4 });
    assert!(registry.subpools(SHARE_ASSET));
    assert_eq!(registry.migrated_assets(ASSET_3).map(|(p, _)| p), Some(SHARE_ASSET));
    assert_eq!(registry.migrated_assets(ASSET_4).map(|(p, _)| p), Some(SHARE_ASSET));
    assert_eq!(ledger.free_balance(ASSET_3, Account::Hub), 0);
    assert_eq!(ledger.free_balance(ASSET_4, Account::Hub), 0);
    assert_eq!(ledger.free_balance(ASSET_3, Account::Subpool(SHARE_ASSET)), 3_000 * ONE);
    assert_eq!(ledger.free_balance(ASSET_4, Account::Subpool(SHARE_ASSET)), 4_000 * ONE);
    assert_eq!(ledger.free_balance(SHARE_ASSET, Account::Hub), 3_500 * ONE);
}

#[test]
fn create_subpool_refusals() {
    let mut registry = Pallet::new();
    let mut ledger = hub_funded();
    let a = state(3_000 * ONE, 1_500 * ONE, 3_000 * ONE);
    assert_eq!(
        registry.create_subpool(&mut ledger, SHARE_ASSET, ASSET_3, &a, ASSET_3, &a, 0, 100, 0, 0).err(),
        Some(Error::NotAllowed)
    );
    let empty = state(0, 1_500 * ONE, 3_000 * ONE);
    assert_eq!(
        registry.create_subpool(&mut ledger, SHARE_ASSET, ASSET_3, &a, ASSET_4, &empty, 0, 100, 0, 0).err(),
        Some(Error::Math)
    );
    let too_big = state(5_000 * ONE, 1_500 * ONE, 3_000 * ONE);
    assert_eq!(
        registry.create_subpool(&mut ledger, SHARE_ASSET, ASSET_3, &too_big, ASSET_4, &a, 0, 100, 0, 0).err(),
        Some(Error::BalanceTooLow)
    );
    assert!(!registry.subpools(SHARE_ASSET));
    assert_eq!(registry.migrated_assets(ASSET_3), None);
    assert_eq!(ledger.free_balance(ASSET_3, Account::Hub), 3_000 * ONE);
    assert_eq!(ledger.free_balance(SHARE_ASSET, Account::Hub), 0);
    let (mut registry, _, mut ledger) = created();
    assert_eq!(
        registry.create_subpool(&mut ledger, 101, ASSET_3, &a, ASSET_5, &a, 0, 100, 0, 0).err(),
        Some(Error::NotFound)
    );
}

#[test]
fn migrating_into_unknown_subpool_fails() {
    let (mut registry, c, mut ledger) = created();
    let asset = state(1_000 * ONE, 500 * ONE, 1_000 * ONE);
    assert_eq!(
        registry.migrate_asset_to_subpool(&mut ledger, 200, ASSET_5, &asset, &c.pool, &c.share_state).err(),
        Some(Error::SubpoolNotFound)
    );
    assert_eq!(ledger.free_balance(ASSET_5, Account::Hub), 1_000 * ONE);
}

#[test]
fn migrating_an_asset_moves_its_hub_reserve() {
    let (mut registry, created, mut ledger) = created();
    let asset = state(1_000 * ONE, 500 * ONE, 1_000 * ONE);
    let migrated = registry
        .migrate_asset_to_subpool(&mut ledger, SHARE_ASSET, ASSET_5, &asset, &created.pool, &created.share_state)
        .unwrap();
    assert_eq!(migrated.share_state_change.delta_hub_reserve, 500 * ONE);
    assert_eq!(migrated.share_state_change.delta_reserve, 500 * ONE);
    assert_eq!(migrated.share_state_change.delta_shares, 500 * ONE);
    assert_eq!(migrated.pool.assets, vec![ASSET_3, ASSET_4, ASSET_5]);
    assert_eq!(migrated.pool.balances, vec![3_000 * ONE, 4_000 * ONE, 1_000 * ONE]);
    assert_eq!(migrated.pool.share_issuance, 4_000 * ONE);
    assert_eq!(migrated.detail.share_tokens, 500 * ONE);
    assert_eq!(migrated.event, Event::AssetMigrated { asset_id: ASSET_5, pool_id: SHARE_ASSET });
    assert_eq!(registry.migrated_assets(ASSET_5).map(|(p, _)| p), Some(SHARE_ASSET));
    assert_eq!(ledger.free_balance(ASSET_5, Account::Hub), 0);
    assert_eq!(ledger.free_balance(ASSET_5, Account::Subpool(SHARE_ASSET)), 1_000 * ONE);
    assert_eq!(ledger.free_balance(SHARE_ASSET, Account::Hub), 4_000 * ONE);
    assert_eq!(
        registry
            .migrate_asset_to_subpool(&mut ledger, SHARE_ASSET, ASSET_5, &asset, &migrated.pool, &created.share_state)
            .err(),
        Some(Error::NotFound)
    );
}

#[test]
fn migration_without_the_reserve_changes_nothing() {
    let (mut registry, created, mut ledger) = created();
    let asset = state(2_000 * ONE, 500 * ONE, 1_000 * ONE);
    assert_eq!(
        registry
            .migrate_asset_to_subpool(&mut ledger, SHARE_ASSET, ASSET_5, &asset, &created.pool, &created.share_state)
            .err(),
        Some(Error::BalanceTooLow)
    );
    assert_eq!(registry.migrated_assets(ASSET_5), None);
    assert_eq!(ledger.free_balance(ASSET_5, Account::Hub), 1_000 * ONE);
    assert_eq!(ledger.free_balance(SHARE_ASSET, Account::Hub), 3_500 * ONE);
}

#[test]
fn adding_liquidity_through_migrated_asset_keeps_reserve_minus_shares() {
    let (registry, c, mut ledger) = created();
    let d = registry.add_liquidity(&mut ledger, WHO, &c.pool, &c.share_state, ASSET_3, 100 * ONE, 0).unwrap();
    assert_eq!(d.shares, 50_039_753_607_301);
    assert!(d.to_hub);
    let after = c.share_state;
    assert_eq!(
        (after.reserve + d.hub_change.delta_reserve) - (after.shares + d.hub_change.delta_shares),
        after.reserve - after.shares
    );
    assert_eq!(d.hub_change.delta_shares, 50_039_753_607_301);
    assert_eq!(ledger.free_balance(ASSET_3, Account::User(WHO)), 900 * ONE);
    assert_eq!(ledger.free_balance(ASSET_3, Account::Subpool(SHARE_ASSET)), 3_100 * ONE);
    assert_eq!(ledger.free_balance(SHARE_ASSET, Account::User(WHO)), 0);
    assert_eq!(ledger.free_balance(SHARE_ASSET, Account::Hub), 3_500 * ONE + 50_039_753_607_301);
    let change = calculate_add_liquidity_state_changes(&c.share_state, 99_999_987_562_810).unwrap();
    assert_eq!(change.delta_shares, 99_999_987_562_810);
    assert_eq!(change.delta_hub_reserve, 99_999_987_562_810);
}

#[test]
fn add_liquidity_of_native_asset_goes_to_hub() {
    let (registry, c, mut ledger) = created();
    let native = state(1_000 * ONE, 500 * ONE, 2_000 * ONE);
    let d = registry.add_liquidity(&mut ledger, WHO, &c.pool, &native, ASSET_5, 10 * ONE, 0).unwrap();
    assert_eq!(d.shares, 0);
    assert_eq!(d.hub_change.delta_reserve, 10 * ONE);
    assert_eq!(d.hub_change.delta_shares, 20 * ONE);
    assert_eq!(d.hub_change.delta_hub_reserve, 5 * ONE);
    assert_eq!(ledger.free_balance(ASSET_5, Account::User(WHO)), 990 * ONE);
    assert_eq!(ledger.free_balance(ASSET_5, Account::Hub), 1_010 * ONE);
    let r = registry.add_liquidity(&mut ledger, WHO, &c.pool, &native, ASSET_5, 2_000 * ONE, 0);
    assert_eq!(r, Err(Error::BalanceTooLow));
    assert_eq!(ledger.free_balance(ASSET_5, Account::User(WHO)), 990 * ONE);
}

#[test]
fn add_liquidity_stable_keeps_shares_with_depositor() {
    let (registry, c, mut ledger) = created();
    let d = registry.add_liquidity_stable(&mut ledger, WHO, &c.pool, &c.share_state, ASSET_3, 100 * ONE, false, 0).unwrap();
    assert_eq!(d.shares, 50_039_753_607_301);
    assert!(!d.to_hub);
    assert_eq!(ledger.free_balance(ASSET_3, Account::User(WHO)), 900 * ONE);
    assert_eq!(ledger.free_balance(SHARE_ASSET, Account::User(WHO)), 50_039_753_607_301);
    assert_eq!(ledger.free_balance(SHARE_ASSET, Account::Hub), 3_500 * ONE);
}

#[test]
fn add_liquidity_stable_requires_migrated_asset() {
    let (registry, c, mut ledger) = created();
    assert_eq!(
        registry.add_liquidity_stable(&mut ledger, WHO, &c.pool, &c.share_state, ASSET_5, ONE, true, 0),
        Err(Error::NotStableAsset)
    );
    let mut locked = c.pool.clone();
    locked.tradable[0] = Tradability { sell: true, buy: true, add_liquidity: false, remove_liquidity: true };
    assert_eq!(
        registry.add_liquidity_stable(&mut ledger, WHO, &locked, &c.share_state, ASSET_3, ONE, true, 0),
        Err(Error::NotAllowed)
    );
    assert_eq!(ledger.free_balance(ASSET_3, Account::User(WHO)), 1_000 * ONE);
}

#[test]
fn remove_liquidity_without_withdraw_asset_fails() {
    let (registry, c, mut ledger) = created();
    let position = Position { asset_id: ASSET_3, amount: 100 * ONE, shares: 100 * ONE, price: 500_000_000_000_000_000 };
    assert_eq!(
        registry.remove_liquidity(&mut ledger, WHO, position, ONE, None, &c.pool, 0, |_, s| Some(s)),
        Err(Error::WithdrawAssetNotSpecified)
    );
    let on_share_asset = Position { asset_id: SHARE_ASSET, amount: ONE, shares: ONE, price: 1 };
    assert_eq!(
        registry.remove_liquidity(&mut ledger, WHO, on_share_asset, ONE, None, &c.pool, 0, |_, s| Some(s)),
        Err(Error::WithdrawAssetNotSpecified)
    );
    assert_eq!(ledger.free_balance(SHARE_ASSET, Account::Hub), 3_500 * ONE);
}

#[test]
fn missing_withdraw_asset_is_reported_before_conversion() {
    let mut registry = Pallet::new();
    let mut ledger = hub_funded();
    let no_shares = state(3_000 * ONE, 1_500 * ONE, 0);
    let c = registry
        .create_subpool(&mut ledger, SHARE_ASSET, ASSET_3, &no_shares, ASSET_4, &state(4_000 * ONE, 2_000 * ONE, 4_000 * ONE), 0, 100, 0, 0)
        .unwrap();
    let position = Position { asset_id: ASSET_3, amount: ONE, shares: ONE, price: 1 };
    assert_eq!(
        registry.remove_liquidity(&mut ledger, WHO, position, ONE, None, &c.pool, 0, |_, s| Some(s)),
        Err(Error::WithdrawAssetNotSpecified)
    );
    assert_eq!(
        registry.remove_liquidity(&mut ledger, WHO, position, ONE, Some(ASSET_4), &c.pool, 0, |_, s| Some(s)),
        Err(Error::Math)
    );
}

#[test]
fn remove_liquidity_converts_and_withdraws() {
    let (registry, c, mut ledger) = created();
    let position = Position { asset_id: ASSET_3, amount: 100 * ONE, shares: 100 * ONE, price: 500_000_000_000_000_000 };
    let removal = registry
        .remove_liquidity(&mut ledger, WHO, position, 40 * ONE, Some(ASSET_4), &c.pool, 0, |p, s| {
            assert_eq!(p.asset_id, SHARE_ASSET);
            Some(s)
        })
        .unwrap();
    assert!(removal.converted);
    assert_eq!(removal.withdraw_asset, Some(ASSET_4));
    assert_eq!(removal.share_amount, 40 * ONE);
    assert_eq!(removal.received, 40 * ONE);
    assert_eq!(removal.amount_out, 80_048_907_024_366);
    assert_eq!(removal.withdraw_fee, 0);
    assert_eq!(
        removal.position,
        Position { asset_id: SHARE_ASSET, amount: 50 * ONE, shares: 50 * ONE, price: 1_000_000_000_000_000_000 }
    );
    assert_eq!(ledger.free_balance(ASSET_4, Account::User(WHO)), 80_048_907_024_366);
    assert_eq!(ledger.free_balance(ASSET_4, Account::Subpool(SHARE_ASSET)), 4_000 * ONE - 80_048_907_024_366);
    assert_eq!(ledger.free_balance(SHARE_ASSET, Account::Hub), 3_460 * ONE);
    assert_eq!(ledger.free_balance(SHARE_ASSET, Account::User(WHO)), 0);
}

#[test]
fn remove_liquidity_failures_change_nothing() {
    let (registry, c, mut ledger) = created();
    let position = Position { asset_id: ASSET_3, amount: 100 * ONE, shares: 100 * ONE, price: 1 };
    assert_eq!(
        registry.remove_liquidity(&mut ledger, WHO, position, 40 * ONE, Some(ASSET_4), &c.pool, 0, |_, _| None),
        Err(Error::Math)
    );
    assert_eq!(
        registry.remove_liquidity(&mut ledger, WHO, position, 40 * ONE, Some(ASSET_5), &c.pool, 0, |_, s| Some(s)),
        Err(Error::NotFound)
    );
    assert_eq!(
        registry.remove_liquidity(&mut ledger, WHO, position, 40 * ONE, Some(ASSET_4), &c.pool, 0, |_, _| Some(5_000 * ONE)),
        Err(Error::Math)
    );
    assert_eq!(ledger.free_balance(SHARE_ASSET, Account::Hub), 3_500 * ONE);
    assert_eq!(ledger.free_balance(ASSET_4, Account::User(WHO)), 0);
}

#[test]
fn remove_liquidity_of_native_position_pays_from_hub() {
    let (registry, c, mut ledger) = created();
    let position = Position { asset_id: ASSET_5, amount: ONE, shares: ONE, price: 1 };
    let removal = registry.remove_liquidity(&mut ledger, WHO, position, ONE, None, &c.pool, 0, |_, _| Some(5 * ONE)).unwrap();
    assert!(!removal.converted);
    assert_eq!(removal.position, position);
    assert_eq!(removal.withdraw_asset, None);
    assert_eq!(removal.amount_out, 5 * ONE);
    assert_eq!(ledger.free_balance(ASSET_5, Account::User(WHO)), 1_005 * ONE);
    assert_eq!(ledger.free_balance(ASSET_5, Account::Hub), 995 * ONE);
}

#[test]
fn position_conversion_fails_on_zero_shares_detail() {
    let detail = AssetDetail { price: 1, shares: 0, hub_reserve: 1, share_tokens: 1 };
    let position = Position { asset_id: ASSET_3, amount: ONE, shares: ONE, price: 1 };
    assert_eq!(Pallet::convert_position(SHARE_ASSET, detail, position), None);
}

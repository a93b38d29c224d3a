use omnipool_subpools::dca::{create_bounded_vec, Bond, PoolType, Recurrence, Trade};

#[test]
fn bounded_route_keeps_trades_in_order() {
    let trades = vec![
        Trade { pool: PoolType::Omnipool, asset_in: 1u32, asset_out: 2u32 },
        Trade { pool: PoolType::Omnipool, asset_in: 2u32, asset_out: 3u32 },
    ];
    let route = create_bounded_vec(trades.clone());
    assert_eq!(route.len(), 2);
    assert_eq!(route.trades(), &trades);
}

#[test]
fn plain_order_data() {
    let bond = Bond { asset: 7u32, amount: 500 };
    assert_eq!(bond.amount, 500);
    assert_ne!(Recurrence::Fixed(3), Recurrence::Perpetual);
}

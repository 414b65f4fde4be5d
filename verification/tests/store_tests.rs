use order_poller::envelope::FetchOutcome;
use order_poller::order::{order_eq, Order, OrderType};
use order_poller::poller::bootstrap;
use order_poller::store::{format_store_row, get_latest_orders, init, insert_order, parse_store_row, Store, StoreError};

fn order(chain: &str, amount: &str) -> Order {
    Order {
        ty: OrderType::Buy,
        blockchain: chain.to_owned(),
        crypto_amount: amount.to_owned(),
        crypto_symbol: "BTC".to_owned(),
        fiat_amount: "100.0".to_owned(),
        fiat_price: "200.0".to_owned(),
        fiat_symbol: "EUR".to_owned(),
    }
}

#[test]
fn init_twice_never_errors_and_keeps_rows() {
    let mut store = Store::new();
    assert!(init(&mut store).is_ok());
    assert!(insert_order(&order("bitcoin", "1"), &mut store).is_ok());
    assert!(init(&mut store).is_ok());
    let rows = get_latest_orders(&store).expect("initialized store must answer");
    assert_eq!(rows.len(), 1);
    assert!(order_eq(&rows[0], &order("bitcoin", "1")));
}

#[test]
fn uninitialized_store_refuses_operations() {
    let mut store = Store::new();
    assert_eq!(insert_order(&order("bitcoin", "1"), &mut store), Err(StoreError::NotInitialized));
    assert_eq!(get_latest_orders(&store).err(), Some(StoreError::NotInitialized));
}

#[test]
fn latest_orders_come_newest_first_capped_at_ten() {
    let mut store = Store::new();
    init(&mut store).unwrap();
    for i in 0..12 {
        let o = order("bitcoin", &format!("{}", i));
        insert_order(&o, &mut store).unwrap();
    }
    let rows = get_latest_orders(&store).unwrap();
    assert_eq!(rows.len(), 10);
    for (k, row) in rows.iter().enumerate() {
        assert!(order_eq(row, &order("bitcoin", &format!("{}", 11 - k))));
    }
}

#[test]
fn store_rows_round_trip() {
    let o = order("bitcoin", "0.5");
    let line = format_store_row("2024-01-01T00:00:00Z", &o);
    assert_eq!(line, "2024-01-01T00:00:00Z\tbuy\tbitcoin\t0.5\tBTC\t100.0\t200.0\tEUR");
    let (created_at, back) = parse_store_row(&line).expect("a rendered row must parse");
    assert_eq!(created_at, "2024-01-01T00:00:00Z");
    assert!(order_eq(&back, &o));
}

#[test]
fn malformed_store_rows_are_rejected() {
    assert!(parse_store_row("not a row").is_none());
    assert!(parse_store_row("a\tb\tc").is_none());
    assert!(parse_store_row("ts\thodl\tbitcoin\t0.5\tBTC\t100.0\t200.0\tEUR").is_none());
    assert!(parse_store_row("").is_none());
}

#[test]
fn restart_bootstrap_reports_nothing_new() {
    // Persist five records in increasing creation order.
    let mut store = Store::new();
    init(&mut store).unwrap();
    let records: Vec<Order> = (1..=5).map(|i| order("bitcoin", &format!("{}", i))).collect();
    for r in &records {
        insert_order(r, &mut store).unwrap();
    }
    // Restart: initialization is re-run, then the baseline is seeded.
    init(&mut store).unwrap();
    let loaded = get_latest_orders(&store).unwrap();
    assert_eq!(loaded.len(), 5);
    for (k, row) in loaded.iter().enumerate() {
        assert!(order_eq(row, &records[4 - k]));
    }
    let mut base = bootstrap(loaded);
    // An unchanged upstream batch yields zero new records.
    let out = base
        .apply_fetch(FetchOutcome::Orders(records.clone()))
        .expect("a successful fetch runs the cycle");
    assert_eq!(out.new_orders.len(), 0);
    assert!(!out.warn_possibly_missed);
}

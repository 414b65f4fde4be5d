use order_poller::order::{dedup_orders, order_eq, vec_contains_order, Order, OrderType};
use order_poller::poller::bootstrap;

fn order(ty: OrderType, chain: &str, amount: &str) -> Order {
    Order {
        ty,
        blockchain: chain.to_owned(),
        crypto_amount: amount.to_owned(),
        crypto_symbol: "BTC".to_owned(),
        fiat_amount: "100.0".to_owned(),
        fiat_price: "200.0".to_owned(),
        fiat_symbol: "EUR".to_owned(),
    }
}

#[test]
fn describe_lays_the_line_out() {
    let o = Order {
        ty: OrderType::Buy,
        blockchain: "bitcoin".to_owned(),
        crypto_amount: "0.5".to_owned(),
        crypto_symbol: "BTC".to_owned(),
        fiat_amount: "100.0".to_owned(),
        fiat_price: "200.0".to_owned(),
        fiat_symbol: "EUR".to_owned(),
    };
    assert_eq!(o.describe(), "buy 0.5 BTC for 100.0 EUR at 200.0 EUR on bitcoin");
}

#[test]
fn order_equality_is_exact_on_all_fields() {
    let a = order(OrderType::Buy, "bitcoin", "0.5");
    let b = order(OrderType::Buy, "bitcoin", "0.5");
    assert!(order_eq(&a, &b));
    let c = order(OrderType::Sell, "bitcoin", "0.5");
    assert!(!order_eq(&a, &c));
    let d = order(OrderType::Buy, "bitcoin", "0.50");
    assert!(!order_eq(&a, &d));
}

#[test]
fn dedup_collapses_equal_values() {
    let a = order(OrderType::Buy, "bitcoin", "0.5");
    let b = order(OrderType::Sell, "tezos", "7");
    let v = vec![a.clone(), b.clone(), a.clone(), a.clone()];
    let d = dedup_orders(&v);
    assert_eq!(d.len(), 2);
    assert!(vec_contains_order(&d, &a));
    assert!(vec_contains_order(&d, &b));
}

#[test]
fn new_set_is_exactly_the_difference() {
    let a = order(OrderType::Buy, "bitcoin", "1");
    let b = order(OrderType::Sell, "tezos", "2");
    let c = order(OrderType::Buy, "cardano", "3");
    let mut base = bootstrap(vec![a.clone(), b.clone()]);
    let out = base.process_cycle(vec![a.clone(), b.clone(), c.clone()]);
    assert_eq!(out.new_orders.len(), 1);
    assert!(order_eq(&out.new_orders[0], &c));
}

#[test]
fn disjoint_batch_fires_warning_after_first_success() {
    let a = order(OrderType::Buy, "bitcoin", "1");
    let b = order(OrderType::Sell, "tezos", "2");
    let c = order(OrderType::Buy, "cardano", "3");
    let d = order(OrderType::Sell, "solana", "4");
    let mut base = bootstrap(vec![a.clone(), b.clone()]);
    // The very first successful cycle never warns.
    let first = base.process_cycle(vec![a.clone(), b.clone()]);
    assert!(!first.warn_possibly_missed);
    // A fully replaced batch warns, and every record of it is new.
    let out = base.process_cycle(vec![c.clone(), d.clone()]);
    assert!(out.warn_possibly_missed);
    assert_eq!(out.new_orders.len(), 2);
    assert!(vec_contains_order(&out.new_orders, &c));
    assert!(vec_contains_order(&out.new_orders, &d));
}

#[test]
fn overlapping_batch_does_not_warn() {
    let a = order(OrderType::Buy, "bitcoin", "1");
    let b = order(OrderType::Sell, "tezos", "2");
    let c = order(OrderType::Buy, "cardano", "3");
    let mut base = bootstrap(vec![a.clone(), b.clone()]);
    let first = base.process_cycle(vec![a.clone(), b.clone()]);
    assert!(!first.warn_possibly_missed);
    let out = base.process_cycle(vec![a.clone(), c.clone()]);
    assert!(!out.warn_possibly_missed);
    assert_eq!(out.new_orders.len(), 1);
    assert!(order_eq(&out.new_orders[0], &c));
}

#[test]
fn baseline_is_replaced_wholesale() {
    let a = order(OrderType::Buy, "bitcoin", "1");
    let b = order(OrderType::Sell, "tezos", "2");
    let c = order(OrderType::Buy, "cardano", "3");
    let mut base = bootstrap(vec![a.clone()]);
    base.process_cycle(vec![b.clone()]);
    // `a` aged out of the baseline, so it is reported as new again.
    let out = base.process_cycle(vec![a.clone(), b.clone(), c.clone()]);
    assert_eq!(out.new_orders.len(), 2);
    assert!(vec_contains_order(&out.new_orders, &a));
    assert!(vec_contains_order(&out.new_orders, &c));
    assert!(!vec_contains_order(&out.new_orders, &b));
}

#[test]
fn empty_batch_after_success_warns_vacuously() {
    let a = order(OrderType::Buy, "bitcoin", "1");
    let mut base = bootstrap(vec![]);
    let first = base.process_cycle(vec![a.clone()]);
    assert!(!first.warn_possibly_missed);
    let out = base.process_cycle(vec![]);
    assert!(out.warn_possibly_missed);
    assert_eq!(out.new_orders.len(), 0);
}

use order_poller::envelope::{interpret_response, FetchError, FetchOutcome};
use order_poller::order::{order_eq, vec_contains_order, Order, OrderType, ParseError, RawOrder};
use order_poller::envelope::orders_from_rows;
use order_poller::poller::bootstrap;

fn raw(ty: &str, chain: &str, amount: &str) -> RawOrder {
    RawOrder {
        ty: ty.to_owned(),
        blockchain: chain.to_owned(),
        crypto_amount: amount.to_owned(),
        crypto_symbol: "BTC".to_owned(),
        fiat_amount: "100.0".to_owned(),
        fiat_price: "200.0".to_owned(),
        fiat_symbol: "EUR".to_owned(),
    }
}

fn order_json(ty: &str, chain: &str, amount: &str) -> String {
    format!(
        "{{\"type\":\"{}\",\"blockchain\":\"{}\",\"cryptoAmount\":\"{}\",\"cryptoSymbol\":\"BTC\",\"fiatAmount\":\"100.0\",\"fiatPrice\":\"200.0\",\"fiatSymbol\":\"EUR\"}}",
        ty, chain, amount
    )
}

fn expected(ty: OrderType, chain: &str, amount: &str) -> Order {
    Order {
        ty,
        blockchain: chain.to_owned(),
        crypto_amount: amount.to_owned(),
        crypto_symbol: "BTC".to_owned(),
        fiat_amount: "100.0".to_owned(),
        fiat_price: "200.0".to_owned(),
        fiat_symbol: "EUR".to_owned(),
    }
}

#[test]
fn success_envelope_yields_deduplicated_batch() {
    let body = format!(
        "{{\"latestOrders\":[{},{},{}]}}",
        order_json("buy", "bitcoin", "0.5"),
        order_json("sell", "tezos", "7"),
        order_json("buy", "bitcoin", "0.5"),
    );
    match interpret_response(&body) {
        FetchOutcome::Orders(v) => {
            assert_eq!(v.len(), 2);
            assert!(vec_contains_order(&v, &expected(OrderType::Buy, "bitcoin", "0.5")));
            assert!(vec_contains_order(&v, &expected(OrderType::Sell, "tezos", "7")));
        }
        FetchOutcome::Failed(e) => panic!("expected orders, got failure {:?}", e),
    }
}

#[test]
fn failure_envelope_carries_the_message() {
    match interpret_response("{\"message\":\"down\"}") {
        FetchOutcome::Failed(FetchError::Upstream(m)) => assert_eq!(m, "down"),
        other => panic!("expected an upstream failure, got {:?}", other),
    }
}

#[test]
fn failure_leaves_the_baseline_untouched() {
    let a = expected(OrderType::Buy, "bitcoin", "1");
    let b = expected(OrderType::Sell, "tezos", "2");
    let mut base = bootstrap(vec![a.clone()]);
    let outcome = interpret_response("{\"message\":\"down\"}");
    assert!(base.apply_fetch(outcome).is_none());
    // The next cycle still diffs against the untouched baseline.
    let out = base.process_cycle(vec![a.clone(), b.clone()]);
    assert_eq!(out.new_orders.len(), 1);
    assert!(order_eq(&out.new_orders[0], &b));
}

#[test]
fn bad_numeric_voids_the_whole_cycle() {
    // One NaN amount among well-formed rows: nothing is ingested.
    let body = format!(
        "{{\"latestOrders\":[{},{}]}}",
        order_json("buy", "bitcoin", "0.5"),
        order_json("sell", "tezos", "NaN"),
    );
    match interpret_response(&body) {
        FetchOutcome::Failed(FetchError::Malformed(raw_body)) => assert_eq!(raw_body, body),
        other => panic!("expected the raw body back, got {:?}", other),
    }
}

#[test]
fn unparseable_body_is_kept_raw() {
    match interpret_response("not json at all") {
        FetchOutcome::Failed(FetchError::Malformed(raw_body)) => {
            assert_eq!(raw_body, "not json at all")
        }
        other => panic!("expected the raw body back, got {:?}", other),
    }
    match interpret_response("{\"somethingElse\":3}") {
        FetchOutcome::Failed(FetchError::Malformed(_)) => {}
        other => panic!("expected the raw body back, got {:?}", other),
    }
}

#[test]
fn bad_row_with_message_falls_back_to_failure_shape() {
    let body = format!(
        "{{\"latestOrders\":[{}],\"message\":\"degraded\"}}",
        order_json("swap", "bitcoin", "0.5"),
    );
    match interpret_response(&body) {
        FetchOutcome::Failed(FetchError::Upstream(m)) => assert_eq!(m, "degraded"),
        other => panic!("expected the failure shape, got {:?}", other),
    }
}

#[test]
fn fetch_errors_render_their_message() {
    assert_eq!(FetchError::Upstream("down".to_owned()).describe(), "down");
    assert_eq!(
        FetchError::Malformed("not json".to_owned()).describe(),
        "Failed to deserialize 'not json'"
    );
    assert_eq!(FetchError::Transport("timed out".to_owned()).describe(), "timed out");
}

#[test]
fn rows_validate_as_a_whole() {
    let rows = vec![raw("buy", "bitcoin", "0.5"), raw("sell", "tezos", "NaN")];
    assert_eq!(orders_from_rows(&rows).err(), Some(ParseError::NonFiniteAmount));
    let rows = vec![raw("buy", "bitcoin", "0.5"), raw("hodl", "tezos", "1")];
    assert_eq!(orders_from_rows(&rows).err(), Some(ParseError::UnknownOrderType));
    let rows = vec![raw("buy", "bitcoin", "0.5"), raw("buy", "bitcoin", "0.5")];
    let v = orders_from_rows(&rows).expect("valid rows must parse");
    assert_eq!(v.len(), 1);
}

use okx_connector::models::orderbook::{
    prices_are_finite, Orderbook, OrderbookError, OrderbookSnapshotResponse, OrderbookUpdate,
    RawOrderbookData,
};
use okx_connector::models::timestamp::IntParseFault;
use serde_json::Value;

fn level(price: f64, size: f64) -> (u64, u64) {
    (price.to_bits(), size.to_bits())
}

fn number(value: &Value) -> f64 {
    match value {
        Value::String(text) => text.parse::<f64>().unwrap(),
        other => other.as_f64().unwrap(),
    }
}

fn levels(value: &Value) -> Vec<(u64, u64)> {
    value
        .as_array()
        .unwrap()
        .iter()
        .map(|pair| level(number(&pair[0]), number(&pair[1])))
        .collect()
}

fn snapshot(text: &str) -> OrderbookSnapshotResponse {
    let document: Value = serde_json::from_str(text).unwrap();
    OrderbookSnapshotResponse {
        code: document["code"].as_str().unwrap().to_string(),
        msg: document["msg"].as_str().unwrap().to_string(),
        data: document["data"]
            .as_array()
            .unwrap()
            .iter()
            .map(|entry| RawOrderbookData {
                asks: levels(&entry["asks"]),
                bids: levels(&entry["bids"]),
                ts: entry["ts"].as_str().unwrap().to_string(),
            })
            .collect(),
    }
}

fn update(text: &str) -> OrderbookUpdate {
    let document: Value = serde_json::from_str(text).unwrap();
    OrderbookUpdate { asks: levels(&document["asks"]), bids: levels(&document["bids"]) }
}

fn prices(side: &[(u64, u64)]) -> Vec<f64> {
    side.iter().map(|l| f64::from_bits(l.0)).collect()
}

const SNAPSHOT: &str = r#"{"code":"0","msg":"","data":[{"asks":[[41006.8,0.60030921]],"bids":[[41006.3,0.30178210]],"ts":"1621447077008"}]}"#;

#[test]
fn test_orderbook_from_snapshot() {
    let data = r#"{"code":"0","msg":"","data":[{"asks":[[41006.8,0.60030921]],"bids":[[41006.3,0.30178210]],"ts":"1621447077008"}]}"#;
    let orderbook = Orderbook::from_snapshot(snapshot(data)).unwrap();
    assert_eq!(orderbook.asks.len(), 1);
    assert_eq!(orderbook.bids.len(), 1);
    assert_eq!(orderbook.asks[0], level(41006.8, 0.60030921));
    assert_eq!(orderbook.bids[0], level(41006.3, 0.30178210));
    assert_eq!(orderbook.ts, 1621447077008);
}

#[test]
fn test_orderbook_apply_update() {
    let data = r#"{"code":"0","msg":"","data":[{"asks":[[41006.8,0.60030921]],"bids":[[41006.3,0.30178210]],"ts":"1621447077008"}]}"#;
    let mut orderbook = Orderbook::from_snapshot(snapshot(data)).unwrap();
    let delta = r#"{"asks":[[41007.0,0.20000000]],"bids":[[41005.0,0.10000000]]}"#;
    orderbook.apply_update(update(delta)).unwrap();
    assert_eq!(orderbook.asks.len(), 2);
    assert_eq!(orderbook.bids.len(), 2);
    assert_eq!(orderbook.asks[1], level(41007.0, 0.20000000));
    assert_eq!(orderbook.bids[1], level(41005.0, 0.10000000));
}

#[test]
fn test_orderbook_sort_order_book() {
    let mut orderbook = Orderbook {
        asks: vec![level(41007.0, 0.20000000), level(41006.8, 0.60030921)],
        bids: vec![level(41005.0, 0.10000000), level(41006.3, 0.30178210)],
        ts: 1621447077008,
    };
    orderbook.sort_order_book().unwrap();
    assert_eq!(orderbook.asks, vec![level(41006.8, 0.60030921), level(41007.0, 0.20000000)]);
    assert_eq!(orderbook.bids, vec![level(41006.3, 0.30178210), level(41005.0, 0.10000000)]);
}

#[test]
fn test_orderbook_invalid_price_data() {
    let mut orderbook = Orderbook {
        asks: vec![level(f64::NAN, 0.20000000)],
        bids: vec![level(41006.3, 0.30178210)],
        ts: 1621447077008,
    };
    assert!(orderbook.sort_order_book().is_err());
}

#[test]
fn snapshot_accepts_prices_given_as_text() {
    let data = r#"{"code":"0","msg":"","data":[{"asks":[["41006.8","0.60030921"]],"bids":[["41006.3","0.30178210"]],"ts":"1621447077008"}]}"#;
    let orderbook = Orderbook::from_snapshot(snapshot(data)).unwrap();
    assert_eq!(orderbook.asks, vec![level(41006.8, 0.60030921)]);
    assert_eq!(orderbook.bids, vec![level(41006.3, 0.30178210)]);
    assert_eq!(orderbook.ts, 1621447077008);
}

#[test]
fn snapshot_sorts_both_sides() {
    let data = r#"{"code":"0","msg":"","data":[{"asks":[[3.0,1.0],[1.0,2.0],[2.0,3.0],[-1.5,4.0]],"bids":[[1.0,1.0],[3.0,2.0],[2.0,3.0],[0.5,4.0]],"ts":"7"}]}"#;
    let orderbook = Orderbook::from_snapshot(snapshot(data)).unwrap();
    assert_eq!(prices(&orderbook.asks), vec![-1.5, 1.0, 2.0, 3.0]);
    assert_eq!(prices(&orderbook.bids), vec![3.0, 2.0, 1.0, 0.5]);
    assert_eq!(orderbook.asks[0], level(-1.5, 4.0));
    assert_eq!(orderbook.bids[3], level(0.5, 4.0));
    assert_eq!(orderbook.ts, 7);
}

#[test]
fn snapshot_uses_the_first_result_only() {
    let data = r#"{"code":"0","msg":"","data":[{"asks":[[2.0,1.0]],"bids":[],"ts":"1"},{"asks":[[9.0,9.0]],"bids":[[8.0,8.0]],"ts":"not a number"}]}"#;
    let orderbook = Orderbook::from_snapshot(snapshot(data)).unwrap();
    assert_eq!(orderbook.asks, vec![level(2.0, 1.0)]);
    assert!(orderbook.bids.is_empty());
    assert_eq!(orderbook.ts, 1);
}

#[test]
fn snapshot_without_results_is_empty_data() {
    let data = r#"{"code":"0","msg":"","data":[]}"#;
    assert_eq!(Orderbook::from_snapshot(snapshot(data)).unwrap_err(), OrderbookError::EmptyData);
}

#[test]
fn snapshot_with_bad_timestamp_is_refused() {
    let data = r#"{"code":"0","msg":"","data":[{"asks":[[41006.8,0.60030921]],"bids":[[41006.3,0.30178210]],"ts":"yesterday"}]}"#;
    assert_eq!(
        Orderbook::from_snapshot(snapshot(data)).unwrap_err(),
        OrderbookError::InvalidTimestamp(IntParseFault::InvalidDigit)
    );
    let empty = r#"{"code":"0","msg":"","data":[{"asks":[],"bids":[],"ts":""}]}"#;
    assert_eq!(
        Orderbook::from_snapshot(snapshot(empty)).unwrap_err(),
        OrderbookError::InvalidTimestamp(IntParseFault::Empty)
    );
    let large = r#"{"code":"0","msg":"","data":[{"asks":[],"bids":[],"ts":"18446744073709551616"}]}"#;
    assert_eq!(
        Orderbook::from_snapshot(snapshot(large)).unwrap_err(),
        OrderbookError::InvalidTimestamp(IntParseFault::PosOverflow)
    );
    let negative = r#"{"code":"0","msg":"","data":[{"asks":[],"bids":[],"ts":"-5"}]}"#;
    assert_eq!(
        Orderbook::from_snapshot(snapshot(negative)).unwrap_err(),
        OrderbookError::InvalidTimestamp(IntParseFault::InvalidDigit)
    );
}

#[test]
fn snapshot_timestamp_is_checked_before_prices() {
    let response = OrderbookSnapshotResponse {
        code: "0".to_string(),
        msg: String::new(),
        data: vec![RawOrderbookData {
            asks: vec![level(f64::NAN, 1.0)],
            bids: vec![],
            ts: "12x".to_string(),
        }],
    };
    assert_eq!(
        Orderbook::from_snapshot(response).unwrap_err(),
        OrderbookError::InvalidTimestamp(IntParseFault::InvalidDigit)
    );
}

#[test]
fn snapshot_with_a_price_that_is_not_finite_is_refused() {
    for bad in [f64::NAN, -f64::NAN, f64::INFINITY, f64::NEG_INFINITY] {
        for in_asks in [true, false] {
            for at in 0..3 {
                let mut side = vec![level(3.0, 1.0), level(1.0, 1.0), level(2.0, 1.0)];
                side[at] = level(bad, 1.0);
                let good = vec![level(5.0, 1.0), level(4.0, 1.0)];
                let (asks, bids) = if in_asks { (side, good) } else { (good, side) };
                let response = OrderbookSnapshotResponse {
                    code: "0".to_string(),
                    msg: String::new(),
                    data: vec![RawOrderbookData { asks, bids, ts: "1".to_string() }],
                };
                assert_eq!(
                    Orderbook::from_snapshot(response).unwrap_err(),
                    OrderbookError::InvalidPriceData
                );
            }
        }
    }
}

#[test]
fn sizes_are_not_checked() {
    let mut orderbook = Orderbook {
        asks: vec![level(2.0, f64::NAN), level(1.0, f64::INFINITY)],
        bids: vec![level(1.0, 0.0), level(2.0, -1.0)],
        ts: 0,
    };
    assert_eq!(orderbook.sort_order_book(), Ok(()));
    assert_eq!(prices(&orderbook.asks), vec![1.0, 2.0]);
    assert_eq!(orderbook.asks[0].1, f64::INFINITY.to_bits());
    assert_eq!(prices(&orderbook.bids), vec![2.0, 1.0]);
}

#[test]
fn sort_refuses_without_sorting() {
    let asks = vec![level(3.0, 1.0), level(1.0, 1.0)];
    let bids = vec![level(1.0, 1.0), level(f64::INFINITY, 1.0), level(2.0, 1.0)];
    let mut orderbook = Orderbook { asks: asks.clone(), bids: bids.clone(), ts: 9 };
    assert_eq!(orderbook.sort_order_book(), Err(OrderbookError::InvalidPriceData));
    assert_eq!(orderbook.asks, asks);
    assert_eq!(orderbook.bids, bids);
    assert_eq!(orderbook.ts, 9);
}

#[test]
fn update_appends_then_sorts() {
    let data = r#"{"code":"0","msg":"","data":[{"asks":[[41006.8,0.6]],"bids":[],"ts":"1"}]}"#;
    let mut orderbook = Orderbook::from_snapshot(snapshot(data)).unwrap();
    orderbook.apply_update(update(r#"{"asks":[[41007.0,0.2]],"bids":[]}"#)).unwrap();
    assert_eq!(orderbook.asks, vec![level(41006.8, 0.6), level(41007.0, 0.2)]);
    assert_eq!(prices(&orderbook.asks), vec![41006.8, 41007.0]);
    assert_eq!(orderbook.ts, 1);
}

#[test]
fn update_keeps_levels_of_equal_price() {
    let mut orderbook = Orderbook::from_snapshot(snapshot(SNAPSHOT)).unwrap();
    let delta = r#"{"asks":[[41006.8,0.0],[41000.0,1.0]],"bids":[[41006.3,0.0],[41010.0,2.0]]}"#;
    orderbook.apply_update(update(delta)).unwrap();
    assert_eq!(
        orderbook.asks,
        vec![level(41000.0, 1.0), level(41006.8, 0.60030921), level(41006.8, 0.0)]
    );
    assert_eq!(
        orderbook.bids,
        vec![level(41010.0, 2.0), level(41006.3, 0.30178210), level(41006.3, 0.0)]
    );
}

#[test]
fn update_applied_twice_doubles_its_levels() {
    let mut orderbook = Orderbook::from_snapshot(snapshot(SNAPSHOT)).unwrap();
    let delta = r#"{"asks":[[41007.0,0.2]],"bids":[[41005.0,0.1]]}"#;
    orderbook.apply_update(update(delta)).unwrap();
    assert_eq!(orderbook.asks.len(), 2);
    assert_eq!(orderbook.bids.len(), 2);
    orderbook.apply_update(update(delta)).unwrap();
    assert_eq!(
        orderbook.asks,
        vec![level(41006.8, 0.60030921), level(41007.0, 0.2), level(41007.0, 0.2)]
    );
    assert_eq!(
        orderbook.bids,
        vec![level(41006.3, 0.30178210), level(41005.0, 0.1), level(41005.0, 0.1)]
    );
    assert_eq!(orderbook.ts, 1621447077008);
}

#[test]
fn failed_update_leaves_the_levels_appended_and_unsorted() {
    let mut orderbook = Orderbook::from_snapshot(snapshot(SNAPSHOT)).unwrap();
    let bad = OrderbookUpdate {
        asks: vec![level(1.0, 1.0), level(f64::NAN, 1.0)],
        bids: vec![level(50000.0, 1.0)],
    };
    assert_eq!(orderbook.apply_update(bad), Err(OrderbookError::InvalidPriceData));
    assert_eq!(orderbook.asks.len(), 3);
    assert_eq!(orderbook.asks[0], level(41006.8, 0.60030921));
    assert_eq!(orderbook.asks[1], level(1.0, 1.0));
    assert_eq!(orderbook.asks[2], level(f64::NAN, 1.0));
    assert_eq!(orderbook.bids, vec![level(41006.3, 0.30178210), level(50000.0, 1.0)]);
    assert_eq!(orderbook.ts, 1621447077008);
}

#[test]
fn empty_update_changes_nothing() {
    let mut orderbook = Orderbook::from_snapshot(snapshot(SNAPSHOT)).unwrap();
    orderbook.apply_update(OrderbookUpdate { asks: vec![], bids: vec![] }).unwrap();
    assert_eq!(orderbook.asks, vec![level(41006.8, 0.60030921)]);
    assert_eq!(orderbook.bids, vec![level(41006.3, 0.30178210)]);
}

#[test]
fn finite_check_reads_prices_only() {
    assert!(prices_are_finite(&vec![]));
    assert!(prices_are_finite(&vec![level(0.0, f64::NAN), level(-0.0, 1.0), level(f64::MAX, 1.0)]));
    assert!(prices_are_finite(&vec![level(f64::MIN, 1.0), level(f64::MIN_POSITIVE / 4.0, 1.0)]));
    assert!(!prices_are_finite(&vec![level(1.0, 1.0), level(f64::NEG_INFINITY, 1.0)]));
    assert!(!prices_are_finite(&vec![level(f64::NAN, 1.0)]));
}

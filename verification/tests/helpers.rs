use okx_connector::models::timestamp::IntParseFault;
use okx_connector::utils::helpers::{
    parse_order_book, parse_orders, validate_order_book_data, validate_order_book_value,
    OrderbookData, OrderbookError, OrderbookResponse,
};
use serde_json::Value;

fn decimal(value: &Value) -> Option<u64> {
    value.as_str().unwrap().parse::<f64>().ok().map(f64::to_bits)
}

fn pairs(value: &Value) -> Vec<(Option<u64>, Option<u64>)> {
    value.as_array().unwrap().iter().map(|pair| (decimal(&pair[0]), decimal(&pair[1]))).collect()
}

fn response(text: &str) -> OrderbookResponse {
    let document: Value = serde_json::from_str(text).unwrap();
    OrderbookResponse {
        code: document["code"].as_str().unwrap().to_string(),
        msg: document["msg"].as_str().unwrap().to_string(),
        data: document["data"]
            .as_array()
            .unwrap()
            .iter()
            .map(|entry| OrderbookData {
                asks: pairs(&entry["asks"]),
                bids: pairs(&entry["bids"]),
                ts: entry["ts"].as_str().unwrap().to_string(),
            })
            .collect(),
    }
}

fn level(price: f64, size: f64) -> (u64, u64) {
    (price.to_bits(), size.to_bits())
}

#[test]
fn test_parse_order_book() {
    let data = r#"{"code":"0","msg":"","data":[{"asks":[["41006.8","0.60030921"]],"bids":[["41006.3","0.30178210"]],"ts":"1621447077008"}]}"#;
    let orderbook = parse_order_book(&response(data));
    assert!(orderbook.is_ok(), "Failed to parse orderbook: {:?}", orderbook.err());
    let orderbook = orderbook.unwrap();
    assert_eq!(orderbook.asks.len(), 1);
    assert_eq!(orderbook.bids.len(), 1);
    assert_eq!(orderbook.asks[0], level(41006.8, 0.60030921));
    assert_eq!(orderbook.bids[0], level(41006.3, 0.30178210));
    assert_eq!(orderbook.ts, 1621447077008);
}

#[test]
fn test_validate_order_book_data() {
    let valid_data = r#"{"asks":[["41006.8","0.60030921"]],"bids":[["41006.3","0.30178210"]],"ts":"1621447077008"}"#;
    let invalid_data = r#"{"ask":[["41006.8","0.60030921"]],"bids":[["41006.3","0.30178210"]],"ts":"1621447077008"}"#;
    assert!(validate_order_book_data(valid_data).is_ok(), "Valid data failed validation");
    assert!(validate_order_book_data(invalid_data).is_err(), "Invalid data passed validation");
}

#[test]
fn parse_order_book_keeps_the_given_order() {
    let data = r#"{"code":"0","msg":"","data":[{"asks":[["3","1"],["1","2"]],"bids":[["1","1"],["inf","2"]],"ts":"5"}]}"#;
    let orderbook = parse_order_book(&response(data)).unwrap();
    assert_eq!(orderbook.asks, vec![level(3.0, 1.0), level(1.0, 2.0)]);
    assert_eq!(orderbook.bids, vec![level(1.0, 1.0), level(f64::INFINITY, 2.0)]);
    assert_eq!(orderbook.ts, 5);
}

#[test]
fn parse_order_book_without_results() {
    let data = r#"{"code":"0","msg":"","data":[]}"#;
    match parse_order_book(&response(data)) {
        Err(OrderbookError::InvalidData(message)) => assert_eq!(message, "Empty 'data' array"),
        other => panic!("{:?}", other),
    }
}

#[test]
fn parse_order_book_refuses_what_is_no_number() {
    let bad_ask = r#"{"code":"0","msg":"","data":[{"asks":[["1","1"],["one","1"]],"bids":[["1","1"]],"ts":"x"}]}"#;
    assert!(matches!(parse_order_book(&response(bad_ask)), Err(OrderbookError::FloatParseError)));
    let bad_size = r#"{"code":"0","msg":"","data":[{"asks":[["1","1"]],"bids":[["1",""]],"ts":"5"}]}"#;
    assert!(matches!(parse_order_book(&response(bad_size)), Err(OrderbookError::FloatParseError)));
    let bad_ts = r#"{"code":"0","msg":"","data":[{"asks":[["1","1"]],"bids":[["1","2"]],"ts":"5s"}]}"#;
    assert!(matches!(
        parse_order_book(&response(bad_ts)),
        Err(OrderbookError::IntParseError(IntParseFault::InvalidDigit))
    ));
    let no_ts = r#"{"code":"0","msg":"","data":[{"asks":[],"bids":[],"ts":""}]}"#;
    assert!(matches!(
        parse_order_book(&response(no_ts)),
        Err(OrderbookError::IntParseError(IntParseFault::Empty))
    ));
}

#[test]
fn parse_orders_reads_every_pair() {
    let orders = vec![(Some(1.5f64.to_bits()), Some(2.0f64.to_bits())), (Some(0), Some(1))];
    assert_eq!(parse_orders(&orders).unwrap(), vec![(1.5f64.to_bits(), 2.0f64.to_bits()), (0, 1)]);
    assert!(matches!(
        parse_orders(&vec![(Some(1), Some(1)), (Some(1), None)]),
        Err(OrderbookError::FloatParseError)
    ));
}

#[test]
fn validate_tells_the_three_failures_apart() {
    assert!(matches!(validate_order_book_data("{"), Err(OrderbookError::JsonParseError(_))));
    assert!(matches!(validate_order_book_data(""), Err(OrderbookError::JsonParseError(_))));
    match validate_order_book_data(r#"[{"asks":[],"bids":[]}]"#) {
        Err(OrderbookError::InvalidData(message)) => {
            assert_eq!(message, "Data is not a valid JSON object")
        }
        other => panic!("{:?}", other),
    }
    match validate_order_book_data("17") {
        Err(OrderbookError::InvalidData(message)) => {
            assert_eq!(message, "Data is not a valid JSON object")
        }
        other => panic!("{:?}", other),
    }
    for text in [r#"{"asks":[]}"#, r#"{"bids":[]}"#, "{}", r#"{"Asks":[],"bids":[]}"#] {
        match validate_order_book_data(text) {
            Err(OrderbookError::InvalidData(message)) => {
                assert_eq!(message, "Missing required fields: 'asks' or 'bids'")
            }
            other => panic!("{:?}", other),
        }
    }
    assert!(validate_order_book_data(r#"{"asks":null,"bids":7}"#).is_ok());
    assert!(validate_order_book_data(r#"{"action":"update","asks":[],"bids":[],"ts":"1"}"#).is_ok());
}

#[test]
fn validate_reads_a_document_as_it_reads_a_text() {
    let document: Value = serde_json::from_str(r#"{"asks":[],"bids":[]}"#).unwrap();
    assert!(validate_order_book_value(&document).is_ok());
    assert!(validate_order_book_value(&Value::Null).is_err());
    assert!(validate_order_book_value(&Value::Array(vec![])).is_err());
}

//! Reading a book from a response whose prices and sizes came as decimal
//! text, and a first check of an update's shape.

use crate::models::orderbook::Orderbook;
use crate::models::price::{all_decoded, decode_levels, decoded_levels, DecimalPair, PriceLevel};
use crate::models::timestamp::{parse_timestamp, timestamp_of, IntParseFault};
use crate::utils::json::{json_document, json_get, json_is_object, json_members, parse_json};
use vstd::prelude::*;

verus! {

/// Why a response gave no book, or why a document is no update.
#[derive(Debug)]
pub enum OrderbookError {
    /// The text is no JSON document.
    JsonParseError(serde_json::Error),
    /// A price or a size is no decimal number.
    FloatParseError,
    /// The timestamp is no unsigned decimal number.
    IntParseError(IntParseFault),
    /// The document lacks what it must hold; the text says what.
    InvalidData(String),
}

/// One result object of a response, prices and sizes as read from text.
#[derive(Debug, Clone)]
pub struct OrderbookData {
    pub asks: Vec<DecimalPair>,
    pub bids: Vec<DecimalPair>,
    pub ts: String,
}

/// A response: result code, message and result objects.
#[derive(Debug, Clone)]
pub struct OrderbookResponse {
    pub code: String,
    pub msg: String,
    pub data: Vec<OrderbookData>,
}

/// The result is the error `InvalidData` with the given text.
pub open spec fn is_invalid_data<T>(r: Result<T, OrderbookError>, text: Seq<char>) -> bool {
    r matches Err(OrderbookError::InvalidData(message)) && message@ == text
}

/// Builds a book from the first result object of a response, levels in the
/// order in which the response gives them.
///
/// A response without a result object, an ask and then a bid that is no
/// number, and a timestamp that is no number are refused, in this order of
/// precedence.
pub fn parse_order_book(response: &OrderbookResponse) -> (r: Result<Orderbook, OrderbookError>)
    ensures
        response.data@.len() == 0 ==> is_invalid_data(r, "Empty 'data' array"@),
        response.data@.len() > 0 ==> {
            let first = response.data@[0];
            if !all_decoded(first.asks@) || !all_decoded(first.bids@) {
                r matches Err(OrderbookError::FloatParseError)
            } else {
                match timestamp_of(first.ts@) {
                    Err(fault) => r matches Err(OrderbookError::IntParseError(f)) && f == fault,
                    Ok(ts) => {
                        &&& r matches Ok(book)
                        &&& book.asks@ == decoded_levels(first.asks@)
                        &&& book.bids@ == decoded_levels(first.bids@)
                        &&& book.ts == ts
                    },
                }
            }
        },
{
    if response.data.len() == 0 {
        return Err(OrderbookError::InvalidData("Empty 'data' array".to_owned()));
    }
    let orderbook_data = &response.data[0];
    let asks = parse_orders(&orderbook_data.asks)?;
    let bids = parse_orders(&orderbook_data.bids)?;
    match parse_timestamp(orderbook_data.ts.as_str()) {
        Ok(ts) => Ok(Orderbook { asks, bids, ts }),
        Err(fault) => Err(OrderbookError::IntParseError(fault)),
    }
}

/// Turns the pairs of one side into levels. A price or a size that is no
/// number is refused.
pub fn parse_orders(orders: &Vec<DecimalPair>) -> (r: Result<Vec<PriceLevel>, OrderbookError>)
    ensures
        r is Ok <==> all_decoded(orders@),
        r matches Ok(levels) ==> levels@ == decoded_levels(orders@),
        r is Err ==> r matches Err(OrderbookError::FloatParseError),
{
    match decode_levels(orders) {
        Some(levels) => Ok(levels),
        None => Err(OrderbookError::FloatParseError),
    }
}

/// What is wrong with a document that should be an update, or nothing
/// where it is an object with both sides.
pub open spec fn update_complaint(value: serde_json::Value) -> Option<Seq<char>> {
    match json_members(value) {
        None => Some("Data is not a valid JSON object"@),
        Some(members) => if members.contains_key("asks"@) && members.contains_key("bids"@) {
            None
        } else {
            Some("Missing required fields: 'asks' or 'bids'"@)
        },
    }
}

/// Checks that a document is an object with the members `asks` and `bids`.
pub fn validate_order_book_value(value: &serde_json::Value) -> (r: Result<(), OrderbookError>)
    ensures
        match update_complaint(*value) {
            None => r is Ok,
            Some(text) => is_invalid_data(r, text),
        },
{
    if !json_is_object(value) {
        return Err(OrderbookError::InvalidData("Data is not a valid JSON object".to_owned()));
    }
    if json_get(value, "asks").is_none() || json_get(value, "bids").is_none() {
        return Err(
            OrderbookError::InvalidData("Missing required fields: 'asks' or 'bids'".to_owned()),
        );
    }
    Ok(())
}

/// Checks that a text is a JSON object with the members `asks` and `bids`.
pub fn validate_order_book_data(data: &str) -> (r: Result<(), OrderbookError>)
    ensures
        match json_document(data@) {
            None => r matches Err(OrderbookError::JsonParseError(_)),
            Some(value) => match update_complaint(value) {
                None => r is Ok,
                Some(text) => is_invalid_data(r, text),
            },
        },
{
    match parse_json(data) {
        Ok(value) => validate_order_book_value(&value),
        Err(e) => Err(OrderbookError::JsonParseError(e)),
    }
}

} // verus!

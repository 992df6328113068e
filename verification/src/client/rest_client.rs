//! The snapshot service: where to ask for a book, and how to read the
//! answer. Sending the request is the caller's part.

use crate::models::orderbook::Orderbook;
use crate::models::price::{all_decoded, decode_levels, decoded_levels, DecimalPair, PriceLevel};
use crate::models::timestamp::{parse_timestamp, timestamp_of, IntParseFault};
use crate::utils::json::{
    json_as_array, json_clone, json_document, json_elements, json_get, json_members, parse_json,
};
use crate::utils::url::{
    join_url, parse_url, url_as_str, url_join_outcome, url_parse_outcome, url_text,
};
use vstd::prelude::*;

verus! {

/// Why the snapshot service gave no book.
#[derive(Debug)]
pub enum OKXClientError {
    /// The base address, or the request's address, is no address.
    UrlParseError(url::ParseError),
    /// The response is no JSON document.
    DeserializationError(serde_json::Error),
    /// A price or a size is no decimal number.
    ParseFloatError,
    /// The timestamp is no unsigned decimal number.
    ParseIntError(IntParseFault),
    /// The response lacks what it must hold; the text says what.
    UnexpectedResponseStructure(String),
}

/// A result object of the service, prices and sizes as read from text.
#[derive(Debug, Clone)]
pub struct RawOrderbook {
    pub asks: Vec<DecimalPair>,
    pub bids: Vec<DecimalPair>,
    pub ts: String,
}

impl RawOrderbook {
    /// Builds a book, levels in the order in which the service gives them.
    ///
    /// An ask and then a bid that is no number, and a timestamp that is no
    /// number, are refused, in this order of precedence.
    pub fn parse_to_orderbook(&self) -> (r: Result<Orderbook, OKXClientError>)
        ensures
            if !all_decoded(self.asks@) || !all_decoded(self.bids@) {
                r matches Err(OKXClientError::ParseFloatError)
            } else {
                match timestamp_of(self.ts@) {
                    Err(fault) => r matches Err(OKXClientError::ParseIntError(f)) && f == fault,
                    Ok(ts) => {
                        &&& r matches Ok(book)
                        &&& book.asks@ == decoded_levels(self.asks@)
                        &&& book.bids@ == decoded_levels(self.bids@)
                        &&& book.ts == ts
                    },
                }
            },
    {
        let asks = self.parse_vec(&self.asks)?;
        let bids = self.parse_vec(&self.bids)?;
        match parse_timestamp(self.ts.as_str()) {
            Ok(ts) => Ok(Orderbook { asks, bids, ts }),
            Err(fault) => Err(OKXClientError::ParseIntError(fault)),
        }
    }

    /// Turns the pairs of one side into levels. A price or a size that is
    /// no number is refused.
    pub fn parse_vec(&self, vec: &Vec<DecimalPair>) -> (r: Result<Vec<PriceLevel>, OKXClientError>)
        ensures
            r is Ok <==> all_decoded(vec@),
            r matches Ok(levels) ==> levels@ == decoded_levels(vec@),
            r is Err ==> r matches Err(OKXClientError::ParseFloatError),
    {
        match decode_levels(vec) {
            Some(levels) => Ok(levels),
            None => Err(OKXClientError::ParseFloatError),
        }
    }
}

/// The path and query of the request for an instrument's book.
pub open spec fn order_book_reference(symbol: Seq<char>) -> Seq<char> {
    "api/v5/market/books?instId="@ + symbol
}

/// The first result object of a response, or nothing where the response is
/// no object, has no member `data`, or that member is no array or is empty.
pub open spec fn first_result_of(document: serde_json::Value) -> Option<serde_json::Value> {
    match json_members(document) {
        Some(members) => if members.contains_key("data"@) {
            match json_elements(members["data"@]) {
                Some(results) => if results.len() > 0 {
                    Some(results[0])
                } else {
                    None
                },
                None => None,
            }
        } else {
            None
        },
        None => None,
    }
}

/// The result is the error `UnexpectedResponseStructure` with the given text.
pub open spec fn is_unexpected_structure<T>(r: Result<T, OKXClientError>, text: Seq<char>) -> bool {
    r matches Err(OKXClientError::UnexpectedResponseStructure(message)) && message@ == text
}

/// Finds the first result object of a response.
pub fn first_result<'a>(document: &'a serde_json::Value) -> (r: Result<
    &'a serde_json::Value,
    OKXClientError,
>)
    ensures
        match first_result_of(*document) {
            Some(result) => r matches Ok(found) && *found == result,
            None => is_unexpected_structure(r, "Missing 'data' array or empty"@),
        },
{
    let found = match json_get(document, "data") {
        Some(data) => match json_as_array(data) {
            Some(results) => if results.len() > 0 {
                Some(&results[0])
            } else {
                None
            },
            None => None,
        },
        None => None,
    };
    match found {
        Some(result) => Ok(result),
        None => Err(
            OKXClientError::UnexpectedResponseStructure(
                "Missing 'data' array or empty".to_owned(),
            ),
        ),
    }
}

/// Reads a response text and hands out its first result object.
pub fn read_first_result(response_text: &str) -> (r: Result<serde_json::Value, OKXClientError>)
    ensures
        match json_document(response_text@) {
            None => r matches Err(OKXClientError::DeserializationError(_)),
            Some(document) => match first_result_of(document) {
                Some(result) => r matches Ok(found) && found == result,
                None => is_unexpected_structure(r, "Missing 'data' array or empty"@),
            },
        },
{
    let document = match parse_json(response_text) {
        Ok(document) => document,
        Err(e) => {
            return Err(OKXClientError::DeserializationError(e));
        },
    };
    match first_result(&document) {
        Ok(result) => Ok(json_clone(result)),
        Err(e) => Err(e),
    }
}

/// A client for one snapshot service. It holds the base address.
pub struct OKXRestClient {
    base_url: url::Url,
}

impl OKXRestClient {
    /// The text of the base address.
    pub closed spec fn base(&self) -> Seq<char> {
        url_text(self.base_url)
    }

    /// Makes a client for the service at a base address.
    pub fn new(base_url: &str) -> (r: Result<Self, OKXClientError>)
        ensures
            match url_parse_outcome(base_url@) {
                Ok(text) => r matches Ok(client) && client.base() == text,
                Err(e) => r matches Err(OKXClientError::UrlParseError(reason)) && reason == e,
            },
    {
        match parse_url(base_url) {
            Ok(address) => Ok(OKXRestClient { base_url: address }),
            Err(e) => Err(OKXClientError::UrlParseError(e)),
        }
    }

    /// The text of the base address.
    pub fn base_url(&self) -> (r: &str)
        ensures
            r@ == self.base(),
    {
        url_as_str(&self.base_url)
    }

    /// The address to ask for an instrument's book: the request's path and
    /// query, resolved against the base address.
    pub fn order_book_url(&self, symbol: &str) -> (r: Result<String, OKXClientError>)
        ensures
            match url_join_outcome(self.base(), order_book_reference(symbol@)) {
                Ok(text) => r matches Ok(address) && address@ == text,
                Err(e) => r matches Err(OKXClientError::UrlParseError(reason)) && reason == e,
            },
    {
        let mut reference = "api/v5/market/books?instId=".to_owned();
        reference.append(symbol);
        match join_url(&self.base_url, reference.as_str()) {
            Ok(address) => Ok(url_as_str(&address).to_owned()),
            Err(e) => Err(OKXClientError::UrlParseError(e)),
        }
    }
}

} // verus!

//! What is known of each exchange: where its stream or its polling endpoint
//! is, how to subscribe to it, and how to read what it sends.

pub mod binance;
pub mod bitstamp;
pub mod btcmarkets;
pub mod channels;
pub mod coinjar;
pub mod indreserve;
pub mod kraken;
pub mod restapi;
pub mod trades;
pub mod wire;
pub mod wsapi;

use crate::error::FeedError;
use vstd::prelude::*;

verus! {

/// The stream of the exchange `name`; an error for a name that the table of
/// streams does not hold.
pub fn ws(name: &str) -> (r: Result<wsapi::Api, FeedError>)
    ensures
        r is Ok == wsapi::ws_entry(name@) is Some,
        r matches Ok(api) ==> wsapi::ws_entry(name@) == Some(api@),
        r matches Err(e) ==> e == FeedError::UnsupportedExchange,
{
    match wsapi::ws_lookup(name) {
        Some(api) => Ok(api),
        None => Err(FeedError::UnsupportedExchange),
    }
}

/// The polling endpoint of the exchange `name`; an error for a name that
/// the table of polled exchanges does not hold.
pub fn rest(name: &str) -> (r: Result<restapi::Api, FeedError>)
    ensures
        r is Ok == restapi::rest_entry(name@) is Some,
        r matches Ok(api) ==> restapi::rest_entry(name@) == Some(api@),
        r matches Err(e) ==> e == FeedError::UnsupportedExchange,
{
    let table = restapi::Dummy {  };
    match table.get(name) {
        Some(api) => Ok(api),
        None => Err(FeedError::UnsupportedExchange),
    }
}

} // verus!

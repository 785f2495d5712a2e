//! The Binance feed: the stream it subscribes to and the books it gives.

use vstd::prelude::*;
use std::time::Duration;
use crate::currency::Conversion;
use crate::decimal::{decimal, decimal_string};
use crate::level::{levels_from, levels_of, Level};
use crate::order::CommonOrderBook;

verus! {

/// The name that levels of this feed carry.
pub const NAME: &'static str = "binance";

/// The whole milliseconds of a span of time, as `Duration::as_millis` gives
/// them.
pub uninterp spec fn millis_of(window: Duration) -> nat;

/// Calls `Duration::as_millis`: the number of whole milliseconds that the
/// span holds.
#[verifier::external_body]
fn as_millis(window: &Duration) -> (r: u128)
    ensures
        r == millis_of(*window),
{
    window.as_millis()
}

/// The name of the depth stream of `pair` that carries `depth` levels a side
/// every `millis` milliseconds.
pub open spec fn stream_name(pair: Seq<char>, depth: nat, millis: nat) -> Seq<char> {
    pair + "@depth"@ + decimal(depth) + "@"@ + decimal(millis) + "ms"@
}

/// The Binance feed of one trading pair.
#[derive(Debug)]
pub struct Binance {
    endpoint: String,
}

impl Binance {
    /// The stream that the feed subscribes to.
    pub closed spec fn stream(&self) -> Seq<char> {
        self.endpoint@
    }

    /// The feed of `conversion` with `depth` levels a side, updated once in
    /// every `window`.
    pub fn new(depth: u32, window: Duration, conversion: Conversion) -> (r: Binance)
        ensures
            r.stream() == stream_name(conversion.name(), depth as nat, millis_of(window)),
    {
        let millis = as_millis(&window);
        Binance::with_millis(depth, millis, conversion)
    }

    /// The feed of `conversion` with `depth` levels a side, updated every
    /// `millis` milliseconds.
    pub fn with_millis(depth: u32, millis: u128, conversion: Conversion) -> (r: Binance)
        ensures
            r.stream() == stream_name(conversion.name(), depth as nat, millis as nat),
    {
        let mut endpoint = conversion.to_string();
        endpoint.append("@depth");
        endpoint.append(decimal_string(depth as u128).as_str());
        endpoint.append("@");
        endpoint.append(decimal_string(millis).as_str());
        endpoint.append("ms");
        Binance { endpoint }
    }

    /// The name of the stream that the feed subscribes to.
    pub fn endpoint(&self) -> (r: &str)
        ensures
            r@ == self.stream(),
    {
        self.endpoint.as_str()
    }

    /// The book of one depth update: its price-and-amount pairs as levels
    /// under the feed's name.
    pub fn book(bids: &Vec<(u64, u64)>, asks: &Vec<(u64, u64)>) -> (r: CommonOrderBook)
        ensures
            r@.bids.map_values(|l: Level| l@) == levels_from(NAME@, bids@),
            r@.asks.map_values(|l: Level| l@) == levels_from(NAME@, asks@),
    {
        CommonOrderBook { bids: levels_of(NAME, bids), asks: levels_of(NAME, asks) }
    }
}

} // verus!

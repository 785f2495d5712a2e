//! Aggregation of order books from several market feeds into one ranked
//! top-of-book summary.
//!
//! Every feed brings its books to the common form of `order`. Per cycle the
//! merge stage of `pipeline` takes one book from every feed, and the ranking
//! engine makes one summary of them: the levels of either side in the order
//! of `rank`, cut to the first few, and the spread. Prices and amounts are
//! whole numbers of a smallest unit, so ranks are decided exactly.

pub mod binance;
pub mod bitstamp;
pub mod currency;
pub mod decimal;
pub mod level;
pub mod order;
pub mod pipeline;
pub mod rank;

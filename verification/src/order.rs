//! The common book that every feed is brought to, and the summary made of it.

use vstd::prelude::*;
use crate::binance::Binance;
use crate::bitstamp::BitStamp;
use crate::level::{Level, Side};
use crate::pipeline::{MergeStage, MergeState, RankState, RankingEngine};
use crate::rank::{head, lemma_ranked_len, rank, ranked};

verus! {

/// Bids and asks of one source, or of several sources one after another.
#[derive(Debug, PartialEq, Eq)]
pub struct CommonOrderBook {
    pub bids: Vec<Level>,
    pub asks: Vec<Level>,
}

/// What a book holds.
pub struct BookView {
    pub bids: Seq<Level>,
    pub asks: Seq<Level>,
}

impl BookView {
    /// The book of a source that has nothing to say.
    pub open spec fn empty() -> BookView {
        BookView { bids: Seq::empty(), asks: Seq::empty() }
    }
}

impl View for CommonOrderBook {
    type V = BookView;

    open spec fn view(&self) -> BookView {
        BookView { bids: self.bids@, asks: self.asks@ }
    }
}

/// The head of a ranked book: at most `n` levels a side, and the spread.
#[derive(Debug, PartialEq, Eq)]
pub struct Summary {
    pub spread: u64,
    pub bids: Vec<Level>,
    pub asks: Vec<Level>,
}

/// What a summary holds.
pub struct SummaryView {
    pub spread: nat,
    pub bids: Seq<Level>,
    pub asks: Seq<Level>,
}

impl SummaryView {
    /// The summary of a book that lacks a side: no spread, no levels.
    pub open spec fn zero() -> SummaryView {
        SummaryView { spread: 0, bids: Seq::empty(), asks: Seq::empty() }
    }
}

impl View for Summary {
    type V = SummaryView;

    open spec fn view(&self) -> SummaryView {
        SummaryView { spread: self.spread as nat, bids: self.bids@, asks: self.asks@ }
    }
}

/// The distance between two prices.
pub open spec fn gap(a: u64, b: u64) -> nat {
    if a >= b {
        (a - b) as nat
    } else {
        (b - a) as nat
    }
}

/// The summary of a book with the given bids and asks that keeps `n` levels a
/// side. The spread lies between the first bid and the first ask as they
/// stand in the book, before any ranking.
pub open spec fn summary_of(bids: Seq<Level>, asks: Seq<Level>, n: nat) -> SummaryView {
    if bids.len() == 0 || asks.len() == 0 {
        SummaryView::zero()
    } else {
        SummaryView {
            spread: gap(bids[0].price, asks[0].price),
            bids: head(ranked(Side::Bid, bids), n),
            asks: head(ranked(Side::Ask, asks), n),
        }
    }
}

/// A summary never holds more than `n` levels a side.
pub proof fn lemma_summary_bounded(bids: Seq<Level>, asks: Seq<Level>, n: nat)
    ensures
        summary_of(bids, asks, n).bids.len() <= n,
        summary_of(bids, asks, n).asks.len() <= n,
{
}

/// A book that lacks a side has the zero summary, whatever the other side
/// holds.
pub proof fn lemma_summary_of_one_sided_book(bids: Seq<Level>, asks: Seq<Level>, n: nat)
    requires
        bids.len() == 0 || asks.len() == 0,
    ensures
        summary_of(bids, asks, n) == SummaryView::zero(),
{
}

impl Default for CommonOrderBook {
    fn default() -> (r: CommonOrderBook)
        ensures
            r@ == BookView::empty(),
    {
        CommonOrderBook { bids: Vec::new(), asks: Vec::new() }
    }
}

impl Default for Summary {
    fn default() -> (r: Summary)
        ensures
            r@ == SummaryView::zero(),
    {
        Summary { spread: 0, bids: Vec::new(), asks: Vec::new() }
    }
}

impl CommonOrderBook {
    /// Ranks both sides, keeps the first `n` levels of each and measures the
    /// spread.
    pub fn summary(self, n: usize) -> (r: Summary)
        ensures
            r@ == summary_of(self@.bids, self@.asks, n as nat),
            r@.bids.len() <= n,
            r@.asks.len() <= n,
            self@.bids.len() == 0 || self@.asks.len() == 0 ==> r@ == SummaryView::zero(),
    {
        if self.bids.len() == 0 || self.asks.len() == 0 {
            return Summary::default();
        }
        let first_bid: u64 = self.bids[0].price;
        let first_ask: u64 = self.asks[0].price;
        let spread: u64 = if first_bid >= first_ask {
            first_bid - first_ask
        } else {
            first_ask - first_bid
        };
        proof {
            lemma_ranked_len(Side::Bid, self.bids@);
            lemma_ranked_len(Side::Ask, self.asks@);
        }
        let mut bids = rank(Side::Bid, self.bids);
        bids.truncate(n);
        let mut asks = rank(Side::Ask, self.asks);
        asks.truncate(n);
        Summary { spread, bids, asks }
    }

    /// Puts the levels of `other` behind those of this book, side by side.
    pub fn extend(&mut self, other: CommonOrderBook)
        ensures
            final(self)@.bids == old(self)@.bids + other@.bids,
            final(self)@.asks == old(self)@.asks + other@.asks,
    {
        let mut other = other;
        self.bids.append(&mut other.bids);
        self.asks.append(&mut other.asks);
    }
}

/// The service that streams summaries: its two feeds and the number of levels
/// a side that a summary keeps.
#[derive(Debug)]
pub struct OrderbookAggregatorService {
    binance: Binance,
    bitstamp: BitStamp,
    top: usize,
}

impl OrderbookAggregatorService {
    /// The Binance feed of the service.
    pub closed spec fn binance_feed(&self) -> Binance {
        self.binance
    }

    /// The Bitstamp feed of the service.
    pub closed spec fn bitstamp_feed(&self) -> BitStamp {
        self.bitstamp
    }

    /// How many levels a side a summary keeps.
    pub closed spec fn depth(&self) -> nat {
        self.top as nat
    }

    /// The service over the two feeds that keeps `top` levels a side.
    pub fn new(binance: Binance, bitstamp: BitStamp, top: usize) -> (r: OrderbookAggregatorService)
        ensures
            r.binance_feed() == binance,
            r.bitstamp_feed() == bitstamp,
            r.depth() == top,
    {
        OrderbookAggregatorService { binance, bitstamp, top }
    }

    /// The Binance feed.
    pub fn binance(&self) -> (r: &Binance)
        ensures
            *r == self.binance_feed(),
    {
        &self.binance
    }

    /// The Bitstamp feed.
    pub fn bitstamp(&self) -> (r: &BitStamp)
        ensures
            *r == self.bitstamp_feed(),
    {
        &self.bitstamp
    }

    /// How many levels a side a summary keeps.
    pub fn top(&self) -> (r: usize)
        ensures
            r == self.depth(),
    {
        self.top
    }

    /// The merge stage of one consumer's pipeline.
    pub fn merge_stage(&self) -> (r: MergeStage)
        ensures
            r@ == (MergeState { running: true, closed: Seq::empty() }),
    {
        MergeStage::new()
    }

    /// The ranking engine of one consumer's pipeline: it keeps as many levels
    /// a side as the service is set up for.
    pub fn ranking_engine(&self) -> (r: RankingEngine)
        ensures
            r@ == (RankState { running: true, top: self.depth() }),
    {
        RankingEngine::new(self.top)
    }
}

} // verus!

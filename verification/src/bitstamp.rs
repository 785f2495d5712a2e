//! The Bitstamp feed: its subscription, the books it gives, and the course of
//! one connection.

use vstd::prelude::*;
use crate::currency::Conversion;
use crate::level::{levels_from, Level};
use crate::order::CommonOrderBook;

verus! {

/// Where the feed is served.
pub const WEBSOCKET_URL: &'static str = "wss://ws.bitstamp.net";

/// The name that levels of this feed carry.
pub const NAME: &'static str = "bitstamp";

/// The event by which the feed confirms a subscription.
pub const SUBS_SUCCEEDED: &'static str = "bts:subscription_succeeded";

/// The event that asks for a subscription.
pub const SUBSCRIBE: &'static str = "bts:subscribe";

/// What the names of the order book channels begin with.
pub const CHANNEL_PREFIX: &'static str = "order_book_";

/// The feed's answer to a subscription.
#[derive(Debug, PartialEq, Eq)]
pub struct SubsSucceeded {
    pub event: String,
    pub channel: String,
}

/// A request to the feed: the event and the channel that it is about.
#[derive(Debug, PartialEq, Eq)]
pub struct Event {
    pub event: String,
    pub channel: String,
}

/// One bid as the feed gives it.
#[derive(Debug, Clone, Copy, PartialEq, Eq)]
pub struct Bids {
    pub price: u64,
    pub qty: u64,
}

/// One ask as the feed gives it.
#[derive(Debug, Clone, Copy, PartialEq, Eq)]
pub struct Asks {
    pub price: u64,
    pub qty: u64,
}

/// A full book as the feed gives it.
#[derive(Debug, PartialEq, Eq)]
pub struct OrderBook {
    pub timestamp: u64,
    pub microtimestamp: u64,
    pub bids: Vec<Bids>,
    pub asks: Vec<Asks>,
}

/// An error that a feed reports in its own words.
#[derive(Debug, PartialEq, Eq)]
pub struct ContentError {
    pub code: i16,
    pub msg: String,
}

impl OrderBook {
    /// The bids as price-and-amount pairs.
    pub open spec fn bid_quotes(&self) -> Seq<(u64, u64)> {
        self.bids@.map_values(|b: Bids| (b.price, b.qty))
    }

    /// The asks as price-and-amount pairs.
    pub open spec fn ask_quotes(&self) -> Seq<(u64, u64)> {
        self.asks@.map_values(|a: Asks| (a.price, a.qty))
    }

    /// Whether `book` is this book in the common form: level for level, under
    /// the feed's name.
    pub open spec fn is_common(&self, book: CommonOrderBook) -> bool {
        &&& book@.bids.map_values(|l: Level| l@) == levels_from(NAME@, self.bid_quotes())
        &&& book@.asks.map_values(|l: Level| l@) == levels_from(NAME@, self.ask_quotes())
    }

    /// Brings the book to the common form.
    pub fn into(self) -> (r: CommonOrderBook)
        ensures
            self.is_common(r),
    {
        let mut bids: Vec<Level> = Vec::with_capacity(self.bids.len());
        let mut i: usize = 0;
        while i < self.bids.len()
            invariant
                i <= self.bids.len(),
                bids@.map_values(|l: Level| l@) == levels_from(
                    NAME@,
                    self.bid_quotes().take(i as int),
                ),
            decreases self.bids.len() - i,
        {
            let ghost before = bids@;
            let level = Level::new(NAME, self.bids[i].price, self.bids[i].qty);
            bids.push(level);
            proof {
                let quotes = self.bid_quotes();
                assert(quotes.take(i + 1) =~= quotes.take(i as int).push(quotes[i as int]));
                assert(bids@.map_values(|l: Level| l@) =~= before.map_values(|l: Level| l@).push(
                    level@,
                ));
                assert(levels_from(NAME@, quotes.take(i + 1)) =~= levels_from(
                    NAME@,
                    quotes.take(i as int),
                ).push(level@));
            }
            i += 1;
        }
        let mut asks: Vec<Level> = Vec::with_capacity(self.asks.len());
        let mut j: usize = 0;
        while j < self.asks.len()
            invariant
                j <= self.asks.len(),
                asks@.map_values(|l: Level| l@) == levels_from(
                    NAME@,
                    self.ask_quotes().take(j as int),
                ),
            decreases self.asks.len() - j,
        {
            let ghost before = asks@;
            let level = Level::new(NAME, self.asks[j].price, self.asks[j].qty);
            asks.push(level);
            proof {
                let quotes = self.ask_quotes();
                assert(quotes.take(j + 1) =~= quotes.take(j as int).push(quotes[j as int]));
                assert(asks@.map_values(|l: Level| l@) =~= before.map_values(|l: Level| l@).push(
                    level@,
                ));
                assert(levels_from(NAME@, quotes.take(j + 1)) =~= levels_from(
                    NAME@,
                    quotes.take(j as int),
                ).push(level@));
            }
            j += 1;
        }
        proof {
            assert(self.bid_quotes().take(i as int) =~= self.bid_quotes());
            assert(self.ask_quotes().take(j as int) =~= self.ask_quotes());
        }
        CommonOrderBook { bids, asks }
    }
}

/// Whether `answer` confirms a subscription: it could be read, and names the
/// event of success.
pub open spec fn confirms(answer: Option<SubsSucceeded>) -> bool {
    answer matches Some(a) && a.event@ == SUBS_SUCCEEDED@
}

/// Decides whether the feed's first message confirms the subscription.
/// `answer` is that message as far as it could be read.
pub fn is_valid_subs_response(answer: &Option<SubsSucceeded>) -> (r: bool)
    ensures
        r == confirms(*answer),
{
    match answer {
        Some(a) => a.event == String::from_str(SUBS_SUCCEEDED),
        None => false,
    }
}

/// The Bitstamp feed of one trading pair.
#[derive(Debug)]
pub struct BitStamp {
    subs: Event,
}

impl BitStamp {
    /// The channel that the feed subscribes to.
    pub closed spec fn channel(&self) -> Seq<char> {
        self.subs.channel@
    }

    /// The event that the feed sends to subscribe.
    pub closed spec fn request(&self) -> Seq<char> {
        self.subs.event@
    }

    /// The feed of `conver`: a subscription to the order book channel of the
    /// pair.
    pub fn new(conver: Conversion) -> (r: BitStamp)
        ensures
            r.request() == SUBSCRIBE@,
            r.channel() == CHANNEL_PREFIX@ + conver.name(),
    {
        let mut channel = String::from_str(CHANNEL_PREFIX);
        channel.append(conver.to_string().as_str());
        BitStamp { subs: Event { event: String::from_str(SUBSCRIBE), channel } }
    }

    /// The subscription request.
    pub fn subs(&self) -> (r: &Event)
        ensures
            r.event@ == self.request(),
            r.channel@ == self.channel(),
    {
        &self.subs
    }
}

/// Where a connection to the feed stands.
#[derive(Clone, Copy, Debug, PartialEq, Eq, Structural)]
pub enum Phase {
    /// The subscription is sent and not yet confirmed.
    AwaitingAnswer,
    /// Books are coming.
    Streaming,
    /// The stream of books has closed, for good.
    Closed,
}

/// What a connection is told.
#[derive(Debug)]
pub enum FeedEvent {
    /// Reading from the feed failed.
    Unreadable,
    /// A text message came while the answer to the subscription was awaited:
    /// the answer, as far as the text could be read as one.
    Answer(Option<SubsSucceeded>),
    /// A text message came while books were streaming: the book, as far as
    /// the text could be read as one.
    Snapshot(Option<OrderBook>),
    /// A ping, a pong or a binary message came.
    Control,
    /// The feed said goodbye.
    Close,
    /// The feed has nothing more to read.
    Ended,
    /// The consumer has taken the last book.
    Delivered,
    /// The last book could not be sent: the consumer is gone.
    ConsumerGone,
}

/// What a connection asks for.
#[derive(Debug, PartialEq, Eq)]
pub enum FeedAction {
    /// Read the next message.
    Read,
    /// Send the book on.
    Forward(CommonOrderBook),
    /// Close the stream of books and end the task.
    Stop,
}

/// One connection to the feed. It forwards every book that it can read; any
/// failure closes its stream of books for good.
#[derive(Debug)]
pub struct Session {
    phase: Phase,
}

impl View for Session {
    type V = Phase;

    closed spec fn view(&self) -> Phase {
        self.phase
    }
}

impl Session {
    /// Where a connection stands after `event`.
    pub open spec fn next(phase: Phase, event: FeedEvent) -> Phase {
        match phase {
            Phase::Closed => Phase::Closed,
            Phase::AwaitingAnswer => match event {
                FeedEvent::Answer(answer) => if confirms(answer) {
                    Phase::Streaming
                } else {
                    Phase::Closed
                },
                FeedEvent::Control => Phase::AwaitingAnswer,
                FeedEvent::Delivered => Phase::AwaitingAnswer,
                _ => Phase::Closed,
            },
            Phase::Streaming => match event {
                FeedEvent::Snapshot(Some(_)) => Phase::Streaming,
                FeedEvent::Control => Phase::Streaming,
                FeedEvent::Delivered => Phase::Streaming,
                _ => Phase::Closed,
            },
        }
    }

    /// Whether `action` is the connection's answer to `event`.
    pub open spec fn answers(phase: Phase, event: FeedEvent, action: FeedAction) -> bool {
        if Self::next(phase, event) == Phase::Closed {
            action is Stop
        } else {
            match event {
                FeedEvent::Snapshot(Some(book)) => {
                    action matches FeedAction::Forward(common) && book.is_common(common)
                },
                _ => action is Read,
            }
        }
    }

    /// Where a connection stands after `events`, one after another.
    pub open spec fn after(phase: Phase, events: Seq<FeedEvent>) -> Phase
        decreases events.len(),
    {
        if events.len() == 0 {
            phase
        } else {
            Self::next(Self::after(phase, events.drop_last()), events.last())
        }
    }

    /// A connection whose subscription has just been sent.
    pub fn new() -> (r: Session)
        ensures
            r@ == Phase::AwaitingAnswer,
    {
        Session { phase: Phase::AwaitingAnswer }
    }

    /// Whether the next text message is to be read as the answer to the
    /// subscription.
    pub fn awaits_answer(&self) -> (r: bool)
        ensures
            r == (self@ == Phase::AwaitingAnswer),
    {
        self.phase == Phase::AwaitingAnswer
    }

    /// Whether the stream of books has closed.
    pub fn is_closed(&self) -> (r: bool)
        ensures
            r == (self@ == Phase::Closed),
    {
        self.phase == Phase::Closed
    }

    /// Takes one event and says what to do next.
    pub fn step(&mut self, event: FeedEvent) -> (action: FeedAction)
        ensures
            final(self)@ == Self::next(old(self)@, event),
            Self::answers(old(self)@, event, action),
    {
        match self.phase {
            Phase::Closed => FeedAction::Stop,
            Phase::AwaitingAnswer => match event {
                FeedEvent::Answer(answer) => {
                    if is_valid_subs_response(&answer) {
                        self.phase = Phase::Streaming;
                        FeedAction::Read
                    } else {
                        self.phase = Phase::Closed;
                        FeedAction::Stop
                    }
                },
                FeedEvent::Control => FeedAction::Read,
                FeedEvent::Delivered => FeedAction::Read,
                _ => {
                    self.phase = Phase::Closed;
                    FeedAction::Stop
                },
            },
            Phase::Streaming => match event {
                FeedEvent::Snapshot(Some(book)) => FeedAction::Forward(book.into()),
                FeedEvent::Control => FeedAction::Read,
                FeedEvent::Delivered => FeedAction::Read,
                _ => {
                    self.phase = Phase::Closed;
                    FeedAction::Stop
                },
            },
        }
    }
}

/// Whether `event` reports a failure of the feed or the loss of the consumer.
pub open spec fn is_failure(event: FeedEvent) -> bool {
    match event {
        FeedEvent::Unreadable => true,
        FeedEvent::Answer(answer) => !confirms(answer),
        FeedEvent::Snapshot(book) => book is None,
        FeedEvent::Close => true,
        FeedEvent::Ended => true,
        FeedEvent::ConsumerGone => true,
        _ => false,
    }
}

/// Any failure closes the connection's stream of books, and a closed stream
/// stays closed: whatever follows the failure, the connection forwards no
/// book any more.
pub proof fn lemma_session_closes_for_good(phase: Phase, events: Seq<FeedEvent>, i: int)
    requires
        0 <= i < events.len(),
        is_failure(events[i]),
    ensures
        Session::after(phase, events) == Phase::Closed,
        forall|event: FeedEvent, action: FeedAction| #[trigger]
            Session::answers(Phase::Closed, event, action) ==> action is Stop,
    decreases events.len(),
{
    if i < events.len() - 1 {
        lemma_session_closes_for_good(phase, events.drop_last(), i);
    }
}

} // verus!

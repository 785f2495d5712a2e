use std::time::Duration;

use orderbook_aggregator::binance::Binance;
use orderbook_aggregator::bitstamp::BitStamp;
use orderbook_aggregator::currency::{Conversion, Currency};
use orderbook_aggregator::level::Level;
use orderbook_aggregator::order::{CommonOrderBook, OrderbookAggregatorService, Summary};
use orderbook_aggregator::pipeline::{
    MergeAction, MergeEvent, MergeInput, MergeStage, RankAction, RankEvent, RankingEngine,
    FEED_CAPACITY, STAGE_CAPACITY,
};

fn level(exchange: &str, price: u64, amount: u64) -> Level {
    Level { exchange: exchange.to_string(), price, amount }
}

fn first() -> CommonOrderBook {
    CommonOrderBook {
        bids: vec![level("a", 10, 1), level("a", 20, 1)],
        asks: vec![level("a", 30, 1)],
    }
}

fn second() -> CommonOrderBook {
    CommonOrderBook {
        bids: vec![level("b", 5, 1)],
        asks: vec![level("b", 8, 1), level("b", 40, 1)],
    }
}

fn forwarded(action: MergeAction) -> MergeInput {
    match action {
        MergeAction::Forward { input, .. } => input,
        other => panic!("no merge input: {:?}", other),
    }
}

fn emitted(action: RankAction) -> Summary {
    match action {
        RankAction::Emit(summary) => summary,
        other => panic!("no summary: {:?}", other),
    }
}

#[test]
fn channels_hold_one_snapshot_and_two_stage_outputs() {
    assert_eq!(FEED_CAPACITY, 1);
    assert_eq!(STAGE_CAPACITY, 2);
}

#[test]
fn a_cycle_holds_one_book_per_source() {
    let mut marks = vec![];
    let (input, closing) =
        MergeInput::from_snapshots(vec![Some(first()), Some(second())], &mut marks);
    assert_eq!(input, MergeInput { books: vec![first(), second()] });
    assert_eq!(closing, Vec::<usize>::new());
    assert_eq!(marks, vec![false, false]);
}

#[test]
fn a_closed_source_stands_in_with_an_empty_book() {
    let mut marks = vec![];
    let (input, closing) =
        MergeInput::from_snapshots(vec![None, Some(second()), None], &mut marks);
    assert_eq!(
        input,
        MergeInput {
            books: vec![CommonOrderBook::default(), second(), CommonOrderBook::default()]
        }
    );
    assert_eq!(closing, vec![0, 2]);
    assert_eq!(marks, vec![true, false, true]);
}

#[test]
fn a_closed_source_is_named_once_and_stays_closed() {
    let mut marks = vec![false, true];
    let (input, closing) = MergeInput::from_snapshots(vec![None, None], &mut marks);
    assert_eq!(
        input,
        MergeInput { books: vec![CommonOrderBook::default(), CommonOrderBook::default()] }
    );
    assert_eq!(closing, vec![0]);
    assert_eq!(marks, vec![true, true]);
    let (input, closing) =
        MergeInput::from_snapshots(vec![Some(first()), Some(second())], &mut marks);
    assert_eq!(
        input,
        MergeInput { books: vec![CommonOrderBook::default(), CommonOrderBook::default()] }
    );
    assert_eq!(closing, Vec::<usize>::new());
    assert_eq!(marks, vec![true, true]);
}

#[test]
fn marks_cover_every_source_that_was_seen() {
    let mut marks = vec![false, false, true];
    let (input, closing) = MergeInput::from_snapshots(vec![Some(first())], &mut marks);
    assert_eq!(input, MergeInput { books: vec![first()] });
    assert_eq!(closing, Vec::<usize>::new());
    assert_eq!(marks, vec![false, false, true]);
    let mut marks = vec![true];
    let (input, closing) =
        MergeInput::from_snapshots(vec![Some(first()), None, Some(second())], &mut marks);
    assert_eq!(
        input,
        MergeInput {
            books: vec![CommonOrderBook::default(), CommonOrderBook::default(), second()]
        }
    );
    assert_eq!(closing, vec![1]);
    assert_eq!(marks, vec![true, true, false]);
    let mut marks = vec![];
    let (input, closing) = MergeInput::from_snapshots(vec![], &mut marks);
    assert_eq!(input, MergeInput { books: vec![] });
    assert_eq!(closing, Vec::<usize>::new());
    assert_eq!(marks, Vec::<bool>::new());
}

#[test]
fn books_are_combined_source_after_source() {
    let combined = MergeInput { books: vec![first(), second()] }.combined();
    assert_eq!(
        combined,
        CommonOrderBook {
            bids: vec![level("a", 10, 1), level("a", 20, 1), level("b", 5, 1)],
            asks: vec![level("a", 30, 1), level("b", 8, 1), level("b", 40, 1)],
        }
    );
    assert_eq!(MergeInput { books: vec![] }.combined(), CommonOrderBook::default());
}

#[test]
fn the_merge_stage_forwards_every_cycle() {
    let mut stage = MergeStage::new();
    assert!(stage.is_running());
    let action = stage.step(MergeEvent::Snapshots(vec![Some(first()), Some(second())]));
    assert_eq!(
        action,
        MergeAction::Forward {
            input: MergeInput { books: vec![first(), second()] },
            closed: vec![]
        }
    );
    assert_eq!(stage.step(MergeEvent::Delivered), MergeAction::Collect);
    assert!(stage.is_running());
}

#[test]
fn the_pipeline_outlives_a_closed_source() {
    let mut stage = MergeStage::new();
    let mut engine = RankingEngine::new(2);
    let alone = emitted(RankingEngine::new(2).step(RankEvent::Input(MergeInput {
        books: vec![second()],
    })));
    assert!(!stage.has_closed(0));
    for cycle in 0..50 {
        let action = stage.step(MergeEvent::Snapshots(vec![None, Some(second())]));
        let named = if cycle == 0 { vec![0] } else { vec![] };
        assert_eq!(
            action,
            MergeAction::Forward {
                input: MergeInput { books: vec![CommonOrderBook::default(), second()] },
                closed: named
            }
        );
        let summary = emitted(engine.step(RankEvent::Input(forwarded(action))));
        assert_eq!(summary, alone);
        assert_eq!(summary.spread, 3);
        assert_eq!(summary.bids, vec![level("b", 5, 1)]);
        assert_eq!(summary.asks, vec![level("b", 40, 1), level("b", 8, 1)]);
        assert_eq!(stage.step(MergeEvent::Delivered), MergeAction::Collect);
        assert_eq!(engine.step(RankEvent::Delivered), RankAction::Receive);
        assert!(stage.is_running());
        assert!(engine.is_running());
        assert!(stage.has_closed(0));
        assert!(!stage.has_closed(1));
        assert!(!stage.has_closed(2));
    }
}

#[test]
fn a_closed_source_does_not_come_back() {
    let mut stage = MergeStage::new();
    let _ = stage.step(MergeEvent::Snapshots(vec![Some(first()), None]));
    assert!(stage.has_closed(1));
    let action = stage.step(MergeEvent::Snapshots(vec![Some(first()), Some(second())]));
    assert_eq!(
        action,
        MergeAction::Forward {
            input: MergeInput { books: vec![first(), CommonOrderBook::default()] },
            closed: vec![]
        }
    );
    assert!(stage.has_closed(1));
    assert!(!stage.has_closed(0));
}

#[test]
fn with_every_source_closed_the_summary_is_zero() {
    let mut stage = MergeStage::new();
    let mut engine = RankingEngine::new(3);
    let input = forwarded(stage.step(MergeEvent::Snapshots(vec![None, None])));
    assert_eq!(emitted(engine.step(RankEvent::Input(input))), Summary::default());
    assert!(stage.is_running());
    assert!(engine.is_running());
}

#[test]
fn the_merge_stage_stops_when_the_consumer_is_gone() {
    let mut stage = MergeStage::new();
    let _ = stage.step(MergeEvent::Snapshots(vec![Some(first()), Some(second())]));
    assert_eq!(stage.step(MergeEvent::ConsumerGone), MergeAction::Stop);
    assert!(!stage.is_running());
    assert_eq!(
        stage.step(MergeEvent::Snapshots(vec![Some(first()), Some(second())])),
        MergeAction::Stop
    );
    assert_eq!(stage.step(MergeEvent::Delivered), MergeAction::Stop);
    assert_eq!(stage.step(MergeEvent::ConsumerGone), MergeAction::Stop);
    assert!(!stage.is_running());
}

#[test]
fn the_ranking_engine_stops_when_the_consumer_is_gone() {
    let mut engine = RankingEngine::new(2);
    let _ = engine.step(RankEvent::Input(MergeInput { books: vec![first(), second()] }));
    assert_eq!(engine.step(RankEvent::ConsumerGone), RankAction::Stop);
    assert!(!engine.is_running());
    assert_eq!(
        engine.step(RankEvent::Input(MergeInput { books: vec![first(), second()] })),
        RankAction::Stop
    );
    assert_eq!(engine.step(RankEvent::Delivered), RankAction::Stop);
    assert!(!engine.is_running());
}

#[test]
fn the_ranking_engine_stops_when_its_input_ends() {
    let mut engine = RankingEngine::new(2);
    assert_eq!(engine.step(RankEvent::InputClosed), RankAction::Stop);
    assert!(!engine.is_running());
    assert_eq!(
        engine.step(RankEvent::Input(MergeInput { books: vec![first()] })),
        RankAction::Stop
    );
}

#[test]
fn the_ranking_engine_summarises_the_combined_book() {
    let mut engine = RankingEngine::new(2);
    assert_eq!(engine.top(), 2);
    let summary = emitted(engine.step(RankEvent::Input(MergeInput {
        books: vec![first(), second()],
    })));
    assert_eq!(summary.spread, 20);
    assert_eq!(summary.bids, vec![level("b", 5, 1), level("a", 10, 1)]);
    assert_eq!(summary.asks, vec![level("b", 40, 1), level("a", 30, 1)]);
    assert_eq!(engine.step(RankEvent::Delivered), RankAction::Receive);
}

#[test]
fn the_first_source_with_a_side_sets_the_spread() {
    let mut engine = RankingEngine::new(5);
    let bids_only = CommonOrderBook { bids: vec![level("a", 100, 1)], asks: vec![] };
    let asks_only = CommonOrderBook { bids: vec![], asks: vec![level("b", 105, 1)] };
    let summary =
        emitted(engine.step(RankEvent::Input(MergeInput { books: vec![bids_only, asks_only] })));
    assert_eq!(summary.spread, 5);
}

#[test]
fn the_service_sets_up_the_stages() {
    let pair = Conversion::new(Currency::Eth, Currency::Btc);
    let service = OrderbookAggregatorService::new(
        Binance::new(20, Duration::from_millis(100), pair),
        BitStamp::new(pair),
        10,
    );
    assert_eq!(service.top(), 10);
    assert_eq!(service.binance().endpoint(), "ethbtc@depth20@100ms");
    assert_eq!(service.bitstamp().subs().channel, "order_book_ethbtc");
    assert!(service.merge_stage().is_running());
    let engine = service.ranking_engine();
    assert!(engine.is_running());
    assert_eq!(engine.top(), 10);
}

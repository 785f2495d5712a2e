use orderbook_aggregator::level::{levels_of, ranks_before, ratio_is_below, Level, Side};
use orderbook_aggregator::order::{CommonOrderBook, Summary};
use orderbook_aggregator::rank::rank;

fn level(exchange: &str, price: u64, amount: u64) -> Level {
    Level { exchange: exchange.to_string(), price, amount }
}

fn prices(levels: &[Level]) -> Vec<u64> {
    levels.iter().map(|l| l.price).collect()
}

#[test]
fn spread_lies_between_the_first_bid_and_the_first_ask() {
    let mut book = CommonOrderBook { bids: vec![level("a", 100, 1)], asks: vec![] };
    book.extend(CommonOrderBook { bids: vec![], asks: vec![level("b", 105, 1)] });
    let summary = book.summary(10);
    assert_eq!(summary.spread, 5);
    assert_eq!(summary.bids, vec![level("a", 100, 1)]);
    assert_eq!(summary.asks, vec![level("b", 105, 1)]);
}

#[test]
fn spread_is_taken_before_ranking() {
    let book = CommonOrderBook {
        bids: vec![level("a", 50, 1), level("a", 1, 1)],
        asks: vec![level("b", 20, 1), level("b", 90, 1)],
    };
    let summary = book.summary(1);
    assert_eq!(summary.spread, 30);
    assert_eq!(prices(&summary.bids), vec![1]);
    assert_eq!(prices(&summary.asks), vec![90]);
}

#[test]
fn bids_rank_by_ascending_ratio_and_keep_the_head() {
    let book = CommonOrderBook {
        bids: vec![level("a", 10, 1), level("a", 20, 1), level("a", 5, 1)],
        asks: vec![level("b", 7, 1)],
    };
    let summary = book.summary(2);
    assert_eq!(prices(&summary.bids), vec![5, 10]);
    assert_eq!(summary.spread, 3);
}

#[test]
fn asks_rank_by_descending_ratio_and_keep_the_head() {
    let book = CommonOrderBook {
        bids: vec![level("a", 1, 1)],
        asks: vec![level("b", 8, 1), level("b", 3, 1), level("b", 15, 1)],
    };
    let summary = book.summary(2);
    assert_eq!(prices(&summary.asks), vec![15, 8]);
    assert_eq!(summary.spread, 7);
}

#[test]
fn ratio_is_price_per_amount() {
    let book = CommonOrderBook {
        bids: vec![level("a", 100, 50), level("a", 9, 3), level("a", 10, 10)],
        asks: vec![level("b", 100, 50), level("b", 9, 3), level("b", 10, 10)],
    };
    let summary = book.summary(3);
    assert_eq!(prices(&summary.bids), vec![10, 100, 9]);
    assert_eq!(prices(&summary.asks), vec![9, 100, 10]);
}

#[test]
fn summary_never_holds_more_than_n_levels() {
    for n in 0..6usize {
        let book = CommonOrderBook {
            bids: vec![level("a", 4, 1), level("a", 3, 1), level("a", 2, 1), level("a", 1, 1)],
            asks: vec![level("b", 4, 1), level("b", 3, 1), level("b", 2, 1)],
        };
        let summary = book.summary(n);
        assert_eq!(summary.bids.len(), n.min(4));
        assert_eq!(summary.asks.len(), n.min(3));
    }
}

#[test]
fn a_book_without_bids_has_the_zero_summary() {
    let book = CommonOrderBook { bids: vec![], asks: vec![level("b", 105, 1), level("b", 1, 1)] };
    let summary = book.summary(5);
    assert_eq!(summary, Summary { spread: 0, bids: vec![], asks: vec![] });
}

#[test]
fn a_book_without_asks_has_the_zero_summary() {
    let book = CommonOrderBook { bids: vec![level("a", 100, 1)], asks: vec![] };
    let summary = book.summary(5);
    assert_eq!(summary, Summary { spread: 0, bids: vec![], asks: vec![] });
}

#[test]
fn an_empty_book_has_the_zero_summary() {
    assert_eq!(CommonOrderBook::default().summary(3), Summary::default());
    assert_eq!(Summary::default(), Summary { spread: 0, bids: vec![], asks: vec![] });
}

#[test]
fn ties_keep_the_order_of_arrival() {
    let given = vec![
        level("first", 4, 2),
        level("second", 2, 1),
        level("third", 1, 1),
        level("fourth", 6, 3),
    ];
    let bids = rank(Side::Bid, given.clone());
    let names: Vec<&str> = bids.iter().map(|l| l.exchange.as_str()).collect();
    assert_eq!(names, vec!["third", "first", "second", "fourth"]);
    let asks = rank(Side::Ask, given);
    let names: Vec<&str> = asks.iter().map(|l| l.exchange.as_str()).collect();
    assert_eq!(names, vec!["first", "second", "fourth", "third"]);
}

#[test]
fn ranking_keeps_every_level() {
    let given = vec![level("a", 7, 3), level("b", 7, 3), level("a", 1, 9), level("c", 5, 5)];
    let mut ranked = rank(Side::Bid, given.clone());
    assert_eq!(ranked.len(), given.len());
    for l in given.iter() {
        let at = ranked.iter().position(|r| r == l).expect("a level is missing");
        ranked.remove(at);
    }
    assert!(ranked.is_empty());
}

#[test]
fn ranking_nothing_gives_nothing() {
    assert_eq!(rank(Side::Bid, vec![]), vec![]);
    assert_eq!(rank(Side::Ask, vec![level("a", 1, 1)]), vec![level("a", 1, 1)]);
}

#[test]
fn ratios_are_compared_exactly() {
    let third = level("a", 1, 3);
    let nearly = level("a", 333_333_333_333_333_333, 1_000_000_000_000_000_000);
    assert!(ratio_is_below(&nearly, &third));
    assert!(!ratio_is_below(&third, &nearly));
    let same = level("b", 2, 6);
    assert!(!ratio_is_below(&third, &same));
    assert!(!ratio_is_below(&same, &third));
}

#[test]
fn the_largest_values_are_compared_without_overflow() {
    let high = level("a", u64::MAX, 1);
    let low = level("a", 1, u64::MAX);
    let middle = level("a", u64::MAX, u64::MAX);
    assert!(ratio_is_below(&low, &middle));
    assert!(ratio_is_below(&middle, &high));
    assert!(ratio_is_below(&low, &high));
    assert!(!ratio_is_below(&high, &low));
    assert!(!ratio_is_below(&middle, &middle));
}

#[test]
fn a_level_without_amount_has_an_unbounded_ratio() {
    let none = level("a", 5, 0);
    let some = level("a", u64::MAX, 1);
    assert!(ratio_is_below(&some, &none));
    assert!(!ratio_is_below(&none, &some));
    assert!(!ratio_is_below(&none, &level("b", 0, 0)));
    let bids = rank(Side::Bid, vec![none.clone(), some.clone()]);
    assert_eq!(bids, vec![some.clone(), none.clone()]);
    let asks = rank(Side::Ask, vec![some.clone(), none.clone()]);
    assert_eq!(asks, vec![none, some]);
}

#[test]
fn sides_rank_in_opposite_directions() {
    let cheap = level("a", 1, 2);
    let dear = level("a", 3, 2);
    assert!(ranks_before(Side::Bid, &cheap, &dear));
    assert!(!ranks_before(Side::Bid, &dear, &cheap));
    assert!(ranks_before(Side::Ask, &dear, &cheap));
    assert!(!ranks_before(Side::Ask, &cheap, &dear));
    assert!(!ranks_before(Side::Bid, &cheap, &cheap));
    assert!(!ranks_before(Side::Ask, &cheap, &cheap));
}

#[test]
fn extend_puts_the_other_book_behind() {
    let mut book = CommonOrderBook {
        bids: vec![level("a", 1, 1)],
        asks: vec![level("a", 2, 1), level("a", 3, 1)],
    };
    book.extend(CommonOrderBook {
        bids: vec![level("b", 4, 1), level("b", 5, 1)],
        asks: vec![level("b", 6, 1)],
    });
    assert_eq!(prices(&book.bids), vec![1, 4, 5]);
    assert_eq!(prices(&book.asks), vec![2, 3, 6]);
    book.extend(CommonOrderBook::default());
    assert_eq!(prices(&book.bids), vec![1, 4, 5]);
    assert_eq!(prices(&book.asks), vec![2, 3, 6]);
}

#[test]
fn levels_carry_the_name_of_their_source() {
    let levels = levels_of("kraken", &vec![(10, 1), (20, 2)]);
    assert_eq!(levels, vec![level("kraken", 10, 1), level("kraken", 20, 2)]);
    assert_eq!(levels_of("kraken", &vec![]), vec![]);
    assert_eq!(Level::new("x", 3, 4), level("x", 3, 4));
    assert_eq!(Level::new("x", 3, 4).clone(), level("x", 3, 4));
}

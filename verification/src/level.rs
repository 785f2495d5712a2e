//! Price levels and the order in which the two sides of a book rank them.
//!
//! Prices and amounts are whole numbers of the smallest unit that a feed
//! quotes in. A level's ratio is its price per unit of amount; two ratios are
//! compared exactly, by cross-multiplication, so no rounding decides a rank.

use vstd::prelude::*;

verus! {

/// Quantity available at one price from one named source.
#[derive(Debug, PartialEq, Eq)]
pub struct Level {
    pub exchange: String,
    pub price: u64,
    pub amount: u64,
}

/// What a level holds.
pub struct LevelView {
    pub exchange: Seq<char>,
    pub price: u64,
    pub amount: u64,
}

impl View for Level {
    type V = LevelView;

    open spec fn view(&self) -> LevelView {
        LevelView { exchange: self.exchange@, price: self.price, amount: self.amount }
    }
}

/// The levels that `source` gives for its price-and-amount pairs.
pub open spec fn levels_from(source: Seq<char>, quotes: Seq<(u64, u64)>) -> Seq<LevelView> {
    quotes.map_values(|q: (u64, u64)| LevelView { exchange: source, price: q.0, amount: q.1 })
}

impl Clone for Level {
    fn clone(&self) -> (r: Level)
        ensures
            r@ == self@,
    {
        Level { exchange: self.exchange.clone(), price: self.price, amount: self.amount }
    }
}

impl Level {
    /// The level of `amount` at `price` from the source named `exchange`.
    pub fn new(exchange: &str, price: u64, amount: u64) -> (r: Level)
        ensures
            r@ == (LevelView { exchange: exchange@, price, amount }),
    {
        Level { exchange: String::from_str(exchange), price, amount }
    }
}

/// Makes a level under the name of `source` for each price-and-amount pair,
/// in the order of the pairs.
pub fn levels_of(source: &str, quotes: &Vec<(u64, u64)>) -> (r: Vec<Level>)
    ensures
        r@.map_values(|l: Level| l@) == levels_from(source@, quotes@),
{
    let mut levels: Vec<Level> = Vec::with_capacity(quotes.len());
    let mut i: usize = 0;
    while i < quotes.len()
        invariant
            i <= quotes.len(),
            levels@.map_values(|l: Level| l@) == levels_from(source@, quotes@.take(i as int)),
        decreases quotes.len() - i,
    {
        let ghost before = levels@;
        let level = Level::new(source, quotes[i].0, quotes[i].1);
        levels.push(level);
        proof {
            assert(quotes@.take(i + 1) =~= quotes@.take(i as int).push(quotes@[i as int]));
            assert(levels@.map_values(|l: Level| l@) =~= before.map_values(|l: Level| l@).push(
                level@,
            ));
            assert(levels_from(source@, quotes@.take(i + 1)) =~= levels_from(
                source@,
                quotes@.take(i as int),
            ).push(level@));
        }
        i += 1;
    }
    proof {
        assert(quotes@.take(i as int) =~= quotes@);
    }
    levels
}

/// The side of a book that a level stands on.
#[derive(Clone, Copy, Debug, PartialEq, Eq, Structural)]
pub enum Side {
    Bid,
    Ask,
}

/// Whether the ratio `price / amount` of `a` is strictly below that of `b`.
///
/// A level without amount has an unbounded ratio: it is below no level, and
/// every level with an amount is below it.
pub open spec fn ratio_below(a: Level, b: Level) -> bool {
    a.amount > 0 && (b.amount == 0 || a.price * b.amount < b.price * a.amount)
}

/// Whether `a` and `b` have the same ratio.
pub open spec fn same_ratio(a: Level, b: Level) -> bool {
    !ratio_below(a, b) && !ratio_below(b, a)
}

/// Whether `a` ranks strictly before `b` on `side`: bids rank by ascending
/// ratio, asks by descending ratio.
pub open spec fn precedes(side: Side, a: Level, b: Level) -> bool {
    match side {
        Side::Bid => ratio_below(a, b),
        Side::Ask => ratio_below(b, a),
    }
}

/// No level ranks strictly before itself.
pub proof fn lemma_precedes_irreflexive(side: Side, a: Level)
    ensures
        !precedes(side, a, a),
{
}

/// Of two levels at most one ranks strictly before the other.
pub proof fn lemma_precedes_asymmetric(side: Side, a: Level, b: Level)
    ensures
        !(precedes(side, a, b) && precedes(side, b, a)),
{
}

/// If `a` ranks strictly before `c`, then every level `b` has `a` strictly
/// before it or is itself strictly before `c`. With asymmetry this makes
/// `precedes` a strict weak order: ties are an equivalence, and the classes of
/// ties are totally ordered.
pub proof fn lemma_precedes_splits(side: Side, a: Level, b: Level, c: Level)
    requires
        precedes(side, a, c),
    ensures
        precedes(side, a, b) || precedes(side, b, c),
{
    match side {
        Side::Bid => lemma_ratio_below_splits(a, b, c),
        Side::Ask => lemma_ratio_below_splits(c, b, a),
    }
}

proof fn lemma_ratio_below_splits(a: Level, b: Level, c: Level)
    requires
        ratio_below(a, c),
    ensures
        ratio_below(a, b) || ratio_below(b, c),
{
    if b.amount > 0 && c.amount > 0 {
        let (pa, qa) = (a.price as int, a.amount as int);
        let (pb, qb) = (b.price as int, b.amount as int);
        let (pc, qc) = (c.price as int, c.amount as int);
        assert(pa * qb < pb * qa || pb * qc < pc * qb) by (nonlinear_arith)
            requires
                pa * qc < pc * qa,
                qa > 0,
                qb > 0,
                qc > 0,
                pa >= 0,
                pb >= 0,
                pc >= 0,
        {
            if pa * qb >= pb * qa && pb * qc >= pc * qb {
                assert(pa * qb * qc >= pb * qa * qc);
                assert(pb * qc * qa >= pc * qb * qa);
                assert(pb * qa * qc == pb * qc * qa);
                assert(pa * qc * qb >= pc * qa * qb);
                assert((pa * qc) * qb < (pc * qa) * qb);
            }
        }
    }
}

/// Decides `ratio_below` on two levels.
pub fn ratio_is_below(a: &Level, b: &Level) -> (r: bool)
    ensures
        r == ratio_below(*a, *b),
{
    if a.amount == 0 {
        false
    } else if b.amount == 0 {
        true
    } else {
        let (pa, qa) = (a.price as u128, a.amount as u128);
        let (pb, qb) = (b.price as u128, b.amount as u128);
        assert(pa * qb <= u128::MAX && pb * qa <= u128::MAX) by (nonlinear_arith)
            requires
                pa <= u64::MAX,
                qa <= u64::MAX,
                pb <= u64::MAX,
                qb <= u64::MAX,
        ;
        pa * qb < pb * qa
    }
}

/// Decides `precedes` on two levels.
pub fn ranks_before(side: Side, a: &Level, b: &Level) -> (r: bool)
    ensures
        r == precedes(side, *a, *b),
{
    match side {
        Side::Bid => ratio_is_below(a, b),
        Side::Ask => ratio_is_below(b, a),
    }
}

} // verus!

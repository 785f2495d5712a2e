//! The two stages between the feeds and the consumer of summaries.
//!
//! The merge stage waits for one snapshot from every source and hands the set
//! on as one merge input. A source that has nothing to give has closed, for
//! good: from then on an empty book stands for it. The ranking engine turns
//! each merge input into a summary. Each stage is a function from its state
//! and an event to its next state and an action; whoever drives a stage
//! performs the action and reports what came of it as the next event.

use vstd::prelude::*;
use crate::level::Level;
use crate::order::{BookView, CommonOrderBook, Summary, summary_of};

verus! {

/// How many snapshots a feed may have waiting for the merge stage. A feed
/// whose snapshot is not yet taken waits; it drops nothing.
pub const FEED_CAPACITY: usize = 1;

/// How many merge inputs, and how many summaries, may wait for the stage
/// behind.
pub const STAGE_CAPACITY: usize = 2;

/// One book per source for one aggregation cycle, in the order of the sources.
#[derive(Debug, PartialEq, Eq)]
pub struct MergeInput {
    pub books: Vec<CommonOrderBook>,
}

impl View for MergeInput {
    type V = Seq<BookView>;

    open spec fn view(&self) -> Seq<BookView> {
        self.books@.map_values(|b: CommonOrderBook| b@)
    }
}

/// The book of a snapshot; nothing came where a source's stream has closed,
/// and an empty book stands for that.
pub open spec fn snapshot_or_empty(snapshot: Option<CommonOrderBook>) -> BookView {
    match snapshot {
        Some(book) => book@,
        None => BookView::empty(),
    }
}

/// Whether source `i` is marked as closed. A source beyond the marks is not.
pub open spec fn has_closed(closed: Seq<bool>, i: int) -> bool {
    0 <= i < closed.len() && closed[i]
}

/// What source `i` contributes to a cycle: its snapshot, or an empty book
/// where it has closed before or closes now.
pub open spec fn contribution(
    closed: Seq<bool>,
    snapshots: Seq<Option<CommonOrderBook>>,
    i: int,
) -> BookView {
    if has_closed(closed, i) {
        BookView::empty()
    } else {
        snapshot_or_empty(snapshots[i])
    }
}

/// The merge input made of one answer per source, where `closed` marks the
/// sources that have closed before.
pub open spec fn merged(closed: Seq<bool>, snapshots: Seq<Option<CommonOrderBook>>) -> Seq<
    BookView,
> {
    Seq::new(snapshots.len(), |i: int| contribution(closed, snapshots, i))
}

/// The marks after a cycle: a source is closed if it was, or if it gave
/// nothing now.
pub open spec fn closed_after(closed: Seq<bool>, snapshots: Seq<Option<CommonOrderBook>>) -> Seq<
    bool,
> {
    Seq::new(
        if closed.len() >= snapshots.len() {
            closed.len()
        } else {
            snapshots.len()
        },
        |i: int| has_closed(closed, i) || (i < snapshots.len() && snapshots[i] is None),
    )
}

/// The sources that close in this cycle, by position, in ascending order:
/// those that give nothing and had not closed before.
pub open spec fn newly_closed(closed: Seq<bool>, snapshots: Seq<Option<CommonOrderBook>>) -> Seq<
    usize,
>
    decreases snapshots.len(),
{
    if snapshots.len() == 0 {
        Seq::empty()
    } else {
        let last = snapshots.len() - 1;
        let before = newly_closed(closed, snapshots.drop_last());
        if snapshots[last] is None && !has_closed(closed, last) {
            before.push(last as usize)
        } else {
            before
        }
    }
}

/// The bids of every book, source after source.
pub open spec fn all_bids(books: Seq<BookView>) -> Seq<Level>
    decreases books.len(),
{
    if books.len() == 0 {
        Seq::empty()
    } else {
        all_bids(books.drop_last()) + books.last().bids
    }
}

/// The asks of every book, source after source.
pub open spec fn all_asks(books: Seq<BookView>) -> Seq<Level>
    decreases books.len(),
{
    if books.len() == 0 {
        Seq::empty()
    } else {
        all_asks(books.drop_last()) + books.last().asks
    }
}

impl MergeInput {
    /// Makes the merge input of one cycle. `closed` marks the sources that
    /// have closed before; a source that gives nothing now is marked too. An
    /// empty book stands for every marked source. The second result names
    /// the sources that close in this cycle.
    pub fn from_snapshots(snapshots: Vec<Option<CommonOrderBook>>, closed: &mut Vec<bool>) -> (r: (
        MergeInput,
        Vec<usize>,
    ))
        ensures
            r.0@ == merged(old(closed)@, snapshots@),
            r.1@ == newly_closed(old(closed)@, snapshots@),
            final(closed)@ == closed_after(old(closed)@, snapshots@),
    {
        let ghost marks = closed@;
        let mut books: Vec<CommonOrderBook> = Vec::new();
        let mut closing: Vec<usize> = Vec::new();
        let mut i: usize = 0;
        let total: usize = snapshots.len();
        for snapshot in it: snapshots
            invariant
                it.seq() == snapshots@,
                total == snapshots@.len(),
                i == it.index(),
                books@.len() == i,
                forall|j: int|
                    0 <= j < i ==> (#[trigger] books@[j])@ == contribution(marks, snapshots@, j),
                closing@ == newly_closed(marks, snapshots@.take(i as int)),
                closed@.len() == if marks.len() >= i {
                    marks.len()
                } else {
                    i as nat
                },
                forall|j: int|
                    0 <= j < closed@.len() ==> #[trigger] closed@[j] == (has_closed(marks, j) || (j
                        < i && snapshots@[j] is None)),
        {
            proof {
                assert(snapshots@.take(i + 1).drop_last() =~= snapshots@.take(i as int));
                assert(snapshots@.take(i + 1)[i as int] == snapshot);
            }
            let was_closed: bool = i < closed.len() && closed[i];
            let closes: bool = snapshot.is_none();
            match snapshot {
                Some(book) => {
                    if was_closed {
                        books.push(CommonOrderBook::default());
                    } else {
                        books.push(book);
                    }
                },
                None => {
                    if !was_closed {
                        closing.push(i);
                    }
                    books.push(CommonOrderBook::default());
                },
            }
            if i < closed.len() {
                if closes {
                    closed.set(i, true);
                }
            } else {
                closed.push(closes);
            }
            i += 1;
        }
        proof {
            assert(snapshots@.take(i as int) =~= snapshots@);
            assert(books@.map_values(|b: CommonOrderBook| b@) =~= merged(marks, snapshots@));
            assert(closed@ =~= closed_after(marks, snapshots@));
        }
        (MergeInput { books }, closing)
    }

    /// The books of all sources as one: bids behind bids and asks behind asks,
    /// source after source.
    pub fn combined(self) -> (r: CommonOrderBook)
        ensures
            r@.bids == all_bids(self@),
            r@.asks == all_asks(self@),
    {
        let ghost given = self@;
        let mut book = CommonOrderBook::default();
        for next in it: self.books
            invariant
                it.seq() == self.books@,
                given == self.books@.map_values(|b: CommonOrderBook| b@),
                book@.bids == all_bids(given.take(it.index())),
                book@.asks == all_asks(given.take(it.index())),
        {
            proof {
                let k = it.index();
                assert(given.take(k + 1).drop_last() =~= given.take(k));
                assert(given.take(k + 1).last() == next@);
            }
            book.extend(next);
        }
        proof {
            assert(given.take(given.len() as int) =~= given);
        }
        book
    }
}

/// What the merge stage is told.
#[derive(Debug)]
pub enum MergeEvent {
    /// Every source has answered: with its next snapshot, or with nothing
    /// where its stream has closed.
    Snapshots(Vec<Option<CommonOrderBook>>),
    /// The consumer has taken the last merge input.
    Delivered,
    /// The last merge input could not be sent: the consumer is gone.
    ConsumerGone,
}

/// What the merge stage asks for.
#[derive(Debug, PartialEq, Eq)]
pub enum MergeAction {
    /// Wait for the next snapshot of every source.
    Collect,
    /// Send the merge input on; `closed` names the sources that have closed
    /// in this cycle.
    Forward { input: MergeInput, closed: Vec<usize> },
    /// End the task.
    Stop,
}

/// What a merge stage knows: whether it runs, and which of its sources have
/// closed.
pub struct MergeState {
    pub running: bool,
    pub closed: Seq<bool>,
}

/// The stage that joins the feeds. It runs until its consumer is gone; a
/// source that closes does not stop it.
#[derive(Debug)]
pub struct MergeStage {
    running: bool,
    closed: Vec<bool>,
}

impl View for MergeStage {
    type V = MergeState;

    closed spec fn view(&self) -> MergeState {
        MergeState { running: self.running, closed: self.closed@ }
    }
}

impl MergeStage {
    /// What a stage knows after `event`.
    pub open spec fn next(state: MergeState, event: MergeEvent) -> MergeState {
        if !state.running {
            state
        } else {
            match event {
                MergeEvent::Snapshots(snapshots) => MergeState {
                    running: true,
                    closed: closed_after(state.closed, snapshots@),
                },
                MergeEvent::Delivered => state,
                MergeEvent::ConsumerGone => MergeState { running: false, closed: state.closed },
            }
        }
    }

    /// Whether `action` is the stage's answer to `event`.
    pub open spec fn answers(state: MergeState, event: MergeEvent, action: MergeAction) -> bool {
        if !state.running {
            action is Stop
        } else {
            match event {
                MergeEvent::Snapshots(snapshots) => {
                    &&& action matches MergeAction::Forward { input, closed }
                    &&& input@ == merged(state.closed, snapshots@)
                    &&& closed@ == newly_closed(state.closed, snapshots@)
                },
                MergeEvent::Delivered => action is Collect,
                MergeEvent::ConsumerGone => action is Stop,
            }
        }
    }

    /// What a stage knows after `events`, one after another.
    pub open spec fn after(state: MergeState, events: Seq<MergeEvent>) -> MergeState
        decreases events.len(),
    {
        if events.len() == 0 {
            state
        } else {
            Self::next(Self::after(state, events.drop_last()), events.last())
        }
    }

    /// A stage that runs and none of whose sources has closed; its first
    /// action is to collect.
    pub fn new() -> (r: MergeStage)
        ensures
            r@ == (MergeState { running: true, closed: Seq::empty() }),
    {
        MergeStage { running: true, closed: Vec::new() }
    }

    /// Whether the stage has not stopped.
    pub fn is_running(&self) -> (r: bool)
        ensures
            r == self@.running,
    {
        self.running
    }

    /// Whether the source at position `source` has closed.
    pub fn has_closed(&self, source: usize) -> (r: bool)
        ensures
            r == has_closed(self@.closed, source as int),
    {
        source < self.closed.len() && self.closed[source]
    }

    /// Takes one event and says what to do next.
    pub fn step(&mut self, event: MergeEvent) -> (action: MergeAction)
        ensures
            final(self)@ == Self::next(old(self)@, event),
            Self::answers(old(self)@, event, action),
    {
        if !self.running {
            return MergeAction::Stop;
        }
        match event {
            MergeEvent::Snapshots(snapshots) => {
                let (input, closed) = MergeInput::from_snapshots(snapshots, &mut self.closed);
                MergeAction::Forward { input, closed }
            },
            MergeEvent::Delivered => MergeAction::Collect,
            MergeEvent::ConsumerGone => {
                self.running = false;
                MergeAction::Stop
            },
        }
    }
}

/// What the ranking engine is told.
#[derive(Debug)]
pub enum RankEvent {
    /// The next merge input has arrived.
    Input(MergeInput),
    /// No merge input will come any more.
    InputClosed,
    /// The consumer has taken the last summary.
    Delivered,
    /// The last summary could not be sent: the consumer is gone.
    ConsumerGone,
}

/// What the ranking engine asks for.
#[derive(Debug, PartialEq, Eq)]
pub enum RankAction {
    /// Wait for the next merge input.
    Receive,
    /// Send the summary on.
    Emit(Summary),
    /// End the task.
    Stop,
}

/// What a ranking engine knows: whether it runs, and how many levels a side
/// its summaries keep.
pub struct RankState {
    pub running: bool,
    pub top: nat,
}

/// The stage that makes a summary of every merge input, keeping `top` levels
/// a side.
#[derive(Debug)]
pub struct RankingEngine {
    top: usize,
    running: bool,
}

impl View for RankingEngine {
    type V = RankState;

    closed spec fn view(&self) -> RankState {
        RankState { running: self.running, top: self.top as nat }
    }
}

impl RankingEngine {
    /// What an engine knows after `event`.
    pub open spec fn next(state: RankState, event: RankEvent) -> RankState {
        RankState {
            running: state.running && !(event is InputClosed) && !(event is ConsumerGone),
            top: state.top,
        }
    }

    /// Whether `action` is the engine's answer to `event`.
    pub open spec fn answers(state: RankState, event: RankEvent, action: RankAction) -> bool {
        if !state.running {
            action is Stop
        } else {
            match event {
                RankEvent::Input(input) => {
                    &&& action matches RankAction::Emit(summary)
                    &&& summary@ == summary_of(all_bids(input@), all_asks(input@), state.top)
                },
                RankEvent::Delivered => action is Receive,
                RankEvent::InputClosed => action is Stop,
                RankEvent::ConsumerGone => action is Stop,
            }
        }
    }

    /// What an engine knows after `events`, one after another.
    pub open spec fn after(state: RankState, events: Seq<RankEvent>) -> RankState
        decreases events.len(),
    {
        if events.len() == 0 {
            state
        } else {
            Self::next(Self::after(state, events.drop_last()), events.last())
        }
    }

    /// An engine that runs; its first action is to receive.
    pub fn new(top: usize) -> (r: RankingEngine)
        ensures
            r@ == (RankState { running: true, top: top as nat }),
    {
        RankingEngine { top, running: true }
    }

    /// Whether the engine has not stopped.
    pub fn is_running(&self) -> (r: bool)
        ensures
            r == self@.running,
    {
        self.running
    }

    /// How many levels a side a summary keeps.
    pub fn top(&self) -> (r: usize)
        ensures
            r == self@.top,
    {
        self.top
    }

    /// Takes one event and says what to do next. No summary that it emits
    /// holds more levels a side than the engine keeps.
    pub fn step(&mut self, event: RankEvent) -> (action: RankAction)
        ensures
            final(self)@ == Self::next(old(self)@, event),
            Self::answers(old(self)@, event, action),
            action matches RankAction::Emit(summary) ==> summary@.bids.len() <= old(self)@.top
                && summary@.asks.len() <= old(self)@.top,
    {
        if !self.running {
            return RankAction::Stop;
        }
        match event {
            RankEvent::Input(input) => {
                let book = input.combined();
                RankAction::Emit(book.summary(self.top))
            },
            RankEvent::Delivered => RankAction::Receive,
            RankEvent::InputClosed => {
                self.running = false;
                RankAction::Stop
            },
            RankEvent::ConsumerGone => {
                self.running = false;
                RankAction::Stop
            },
        }
    }
}

/// Once its consumer is gone the merge stage has stopped for good: whatever
/// it is told afterwards, it does not run, and a stage that does not run
/// answers every event with `Stop`.
pub proof fn lemma_merge_stage_stops_for_good(state: MergeState, events: Seq<MergeEvent>, i: int)
    requires
        0 <= i < events.len(),
        events[i] is ConsumerGone,
    ensures
        !MergeStage::after(state, events).running,
        forall|stopped: MergeState, event: MergeEvent, action: MergeAction|
            !stopped.running && #[trigger] MergeStage::answers(stopped, event, action)
                ==> action is Stop,
    decreases events.len(),
{
    if i < events.len() - 1 {
        lemma_merge_stage_stops_for_good(state, events.drop_last(), i);
    }
}

/// No closed source stops the merge stage: as long as the consumer takes what
/// is sent, the stage runs, whatever the sources answer, and answers every
/// set of snapshots with a merge input.
pub proof fn lemma_merge_stage_outlives_sources(state: MergeState, events: Seq<MergeEvent>)
    requires
        state.running,
        forall|i: int| 0 <= i < events.len() ==> !(#[trigger] events[i] is ConsumerGone),
    ensures
        MergeStage::after(state, events).running,
        forall|running: MergeState, snapshots: Vec<Option<CommonOrderBook>>, action: MergeAction|
            running.running && #[trigger] MergeStage::answers(
                running,
                MergeEvent::Snapshots(snapshots),
                action,
            ) ==> action is Forward,
    decreases events.len(),
{
    if events.len() > 0 {
        lemma_merge_stage_outlives_sources(state, events.drop_last());
    }
}

/// A source that has closed stays closed, whatever the stage is told
/// afterwards.
pub proof fn lemma_closed_source_stays_closed(state: MergeState, events: Seq<MergeEvent>, k: int)
    requires
        has_closed(state.closed, k),
    ensures
        has_closed(MergeStage::after(state, events).closed, k),
    decreases events.len(),
{
    if events.len() > 0 {
        lemma_closed_source_stays_closed(state, events.drop_last(), k);
    }
}

/// A source that gives nothing closes in that cycle, and an empty book stands
/// for a source that has closed, whatever it gives.
pub proof fn lemma_closed_source_is_silent(
    state: MergeState,
    snapshots: Vec<Option<CommonOrderBook>>,
    k: int,
)
    requires
        state.running,
        0 <= k < snapshots@.len(),
    ensures
        snapshots@[k] is None ==> has_closed(
            MergeStage::next(state, MergeEvent::Snapshots(snapshots)).closed,
            k,
        ),
        has_closed(state.closed, k) ==> merged(state.closed, snapshots@)[k] == BookView::empty(),
        !has_closed(state.closed, k) ==> merged(state.closed, snapshots@)[k] == snapshot_or_empty(
            snapshots@[k],
        ),
{
}

/// Once its consumer is gone, or its input has ended, the ranking engine has
/// stopped for good: whatever it is told afterwards it does not run, and an
/// engine that does not run makes no summary.
pub proof fn lemma_ranking_engine_stops_for_good(state: RankState, events: Seq<RankEvent>, i: int)
    requires
        0 <= i < events.len(),
        events[i] is ConsumerGone || events[i] is InputClosed,
    ensures
        !RankingEngine::after(state, events).running,
        forall|stopped: RankState, event: RankEvent, action: RankAction|
            !stopped.running && #[trigger] RankingEngine::answers(stopped, event, action)
                ==> action is Stop,
    decreases events.len(),
{
    if i < events.len() - 1 {
        lemma_ranking_engine_stops_for_good(state, events.drop_last(), i);
    }
}

/// As long as merge inputs come and the consumer takes the summaries, the
/// ranking engine runs, keeps as many levels a side as before, and answers
/// every merge input with a summary.
pub proof fn lemma_ranking_engine_runs_on(state: RankState, events: Seq<RankEvent>)
    requires
        state.running,
        forall|i: int|
            0 <= i < events.len() ==> (#[trigger] events[i] is Input || events[i] is Delivered),
    ensures
        RankingEngine::after(state, events) == state,
        forall|running: RankState, input: MergeInput, action: RankAction|
            running.running && #[trigger] RankingEngine::answers(
                running,
                RankEvent::Input(input),
                action,
            ) ==> action is Emit,
    decreases events.len(),
{
    if events.len() > 0 {
        lemma_ranking_engine_runs_on(state, events.drop_last());
    }
}

/// The sources that close in a cycle are those that give nothing and had not
/// closed before, each named once, in ascending order.
pub proof fn lemma_newly_closed(closed: Seq<bool>, snapshots: Seq<Option<CommonOrderBook>>)
    requires
        snapshots.len() <= usize::MAX,
    ensures
        forall|i: int|
            0 <= i < snapshots.len() ==> (newly_closed(closed, snapshots).contains(i as usize) <==> (
            #[trigger] snapshots[i]) is None && !has_closed(closed, i)),
        forall|k: int|
            0 <= k < newly_closed(closed, snapshots).len() ==> (#[trigger] newly_closed(
                closed,
                snapshots,
            )[k]) < snapshots.len(),
        forall|k: int, l: int|
            0 <= k < l < newly_closed(closed, snapshots).len() ==> newly_closed(closed, snapshots)[k]
                < newly_closed(closed, snapshots)[l],
    decreases snapshots.len(),
{
    let closing = newly_closed(closed, snapshots);
    if snapshots.len() > 0 {
        let front = snapshots.drop_last();
        let before = newly_closed(closed, front);
        let last = (snapshots.len() - 1) as usize;
        let closes = snapshots.last() is None && !has_closed(closed, last as int);
        lemma_newly_closed(closed, front);
        assert forall|i: int| 0 <= i < snapshots.len() implies (closing.contains(i as usize) <==> (
        #[trigger] snapshots[i]) is None && !has_closed(closed, i)) by {
            if i < front.len() {
                assert(front[i] == snapshots[i]);
                if before.contains(i as usize) {
                    let k = choose|k: int| 0 <= k < before.len() && before[k] == i as usize;
                    assert(closing[k] == i as usize);
                }
                if closing.contains(i as usize) {
                    let k = choose|k: int| 0 <= k < closing.len() && closing[k] == i as usize;
                    if k < before.len() {
                        assert(before[k] == i as usize);
                    }
                }
            } else if closes {
                assert(closing[closing.len() - 1] == last);
            } else if closing.contains(i as usize) {
                let k = choose|k: int| 0 <= k < closing.len() && closing[k] == i as usize;
                assert(before[k] < front.len());
            }
        }
        assert forall|k: int| 0 <= k < closing.len() implies (#[trigger] closing[k])
            < snapshots.len() by {
            if k < before.len() {
                assert(before[k] < front.len());
            }
        }
        assert forall|k: int, l: int| 0 <= k < l < closing.len() implies closing[k] < closing[l] by {
            if l < before.len() {
                assert(before[k] < before[l]);
            } else {
                assert(before[k] < front.len());
            }
        }
    }
}

/// A book without bids adds nothing to the bids of a cycle.
pub proof fn lemma_all_bids_without(books: Seq<BookView>, k: int)
    requires
        0 <= k < books.len(),
        books[k].bids.len() == 0,
    ensures
        all_bids(books) == all_bids(books.remove(k)),
    decreases books.len(),
{
    if k == books.len() - 1 {
        assert(books.remove(k) =~= books.drop_last());
        assert(all_bids(books.drop_last()) + books.last().bids =~= all_bids(books.drop_last()));
    } else {
        lemma_all_bids_without(books.drop_last(), k);
        assert(books.remove(k).drop_last() =~= books.drop_last().remove(k));
        assert(books.remove(k).last() == books.last());
    }
}

/// A book without asks adds nothing to the asks of a cycle.
pub proof fn lemma_all_asks_without(books: Seq<BookView>, k: int)
    requires
        0 <= k < books.len(),
        books[k].asks.len() == 0,
    ensures
        all_asks(books) == all_asks(books.remove(k)),
    decreases books.len(),
{
    if k == books.len() - 1 {
        assert(books.remove(k) =~= books.drop_last());
        assert(all_asks(books.drop_last()) + books.last().asks =~= all_asks(books.drop_last()));
    } else {
        lemma_all_asks_without(books.drop_last(), k);
        assert(books.remove(k).drop_last() =~= books.drop_last().remove(k));
        assert(books.remove(k).last() == books.last());
    }
}

/// A source that has closed, or closes now, leaves the cycle to the others:
/// the summary is the one that the books of the remaining sources alone give.
pub proof fn lemma_closed_source_adds_nothing(
    closed: Seq<bool>,
    snapshots: Seq<Option<CommonOrderBook>>,
    k: int,
    n: nat,
)
    requires
        0 <= k < snapshots.len(),
        has_closed(closed, k) || snapshots[k] is None,
    ensures
        all_bids(merged(closed, snapshots)) == all_bids(merged(closed, snapshots).remove(k)),
        all_asks(merged(closed, snapshots)) == all_asks(merged(closed, snapshots).remove(k)),
        summary_of(all_bids(merged(closed, snapshots)), all_asks(merged(closed, snapshots)), n)
            == summary_of(
            all_bids(merged(closed, snapshots).remove(k)),
            all_asks(merged(closed, snapshots).remove(k)),
            n,
        ),
{
    lemma_all_bids_without(merged(closed, snapshots), k);
    lemma_all_asks_without(merged(closed, snapshots), k);
}

} // verus!

//! The replay of a history through a fresh agent, and what it finds.

use crate::chrysus::{order_views, Chrysus, ChrysusView};
use crate::finance::{
    Book, BookLine, BookView, DiError, DiErrorView, Order, OrderView, Sample, Token, TokenView,
};
use crate::fixed::{change_pct, fx_add, fx_mul, product, sum, SCALE};
use crate::historical_data::{holding_of, window, HistoricalData, Holding};
use crate::indicators::{is_engine, readings_of, Indicator, IndicatorData, Readings};
use crate::laws::lemma_decided_numbered;
use crate::strategy::StrategyView;
use crate::time::{Date, TimeUnit, TimeWindow};
use crate::utils::compute_change_pct;
use vstd::prelude::*;

verus! {

/// The free capital with which every backtest starts: one thousand.
pub const STARTING_CAPITAL: i64 = 1000 * SCALE;

/// What a backtest found: the capital it started with, the balances it
/// ended with, the orders that were given, and the period it covered.
#[derive(Debug)]
pub struct Backtest {
    pub initial_capital: i64,
    pub orders: Vec<Order>,
    pub period: TimeWindow,
    pub currency_balance: i64,
    pub symbol_balance: i64,
}

/// A `Backtest` with its orders as a sequence of order views.
pub ghost struct BacktestView {
    pub initial_capital: int,
    pub orders: Seq<OrderView>,
    pub period: TimeWindow,
    pub currency_balance: int,
    pub symbol_balance: int,
}

impl View for Backtest {
    type V = BacktestView;

    open spec fn view(&self) -> BacktestView {
        BacktestView {
            initial_capital: self.initial_capital as int,
            orders: order_views(self.orders@),
            period: self.period,
            currency_balance: self.currency_balance as int,
            symbol_balance: self.symbol_balance as int,
        }
    }
}

impl Default for Backtest {
    fn default() -> (r: Self)
        ensures
            r@.initial_capital == 0,
            r@.orders.len() == 0,
            r@.period == (TimeWindow { resolution: TimeUnit::Hour(1), count: 0 }),
            r@.currency_balance == 0,
            r@.symbol_balance == 0,
    {
        Backtest {
            initial_capital: 0,
            orders: Vec::new(),
            period: TimeWindow::default(),
            currency_balance: 0,
            symbol_balance: 0,
        }
    }
}

impl Clone for Backtest {
    fn clone(&self) -> (r: Self)
        ensures
            r@ == self@,
    {
        let mut orders: Vec<Order> = Vec::new();
        let mut i: usize = 0;
        while i < self.orders.len()
            invariant
                i <= self.orders@.len(),
                orders@.len() == i,
                forall|j: int| 0 <= j < i ==> orders@[j]@ == self.orders@[j]@,
            decreases self.orders@.len() - i,
        {
            orders.push(self.orders[i].clone());
            i += 1;
        }
        assert(order_views(orders@) =~= order_views(self.orders@));
        Backtest {
            initial_capital: self.initial_capital,
            orders,
            period: self.period,
            currency_balance: self.currency_balance,
            symbol_balance: self.symbol_balance,
        }
    }
}

impl BacktestView {
    /// The gain in percent over the starting capital, with what is held of
    /// the instrument valued at `tick`.
    pub open spec fn profit(self, tick: int) -> int {
        change_pct(
            self.initial_capital,
            sum(self.currency_balance, product(tick, self.symbol_balance)),
        )
    }
}

impl Backtest {
    /// The gain in percent over the starting capital, with what is held of
    /// the instrument valued at `tick`.
    pub fn compute_profit(&self, tick: i64) -> (r: i64)
        ensures
            r == self@.profit(tick as int),
    {
        compute_change_pct(
            self.initial_capital,
            fx_add(self.currency_balance, fx_mul(tick, self.symbol_balance)),
        )
    }
}

/// The history as a replay shows it: at each step, the samples before the
/// one that is replayed.
pub struct BacktestData<'a> {
    pub samples: &'a [Sample],
    pub sample_index: usize,
}

impl<'a> BacktestData<'a> {
    /// A replay of the samples that stands before the first of them.
    pub fn new(samples: &'a [Sample]) -> (r: BacktestData<'a>)
        ensures
            r.samples@ == samples@,
            r.sample_index == 0,
    {
        BacktestData { samples, sample_index: 0 }
    }
}

impl<'a> BacktestData<'a> {
    /// What the replay shows for a window: the samples before the place
    /// that is replayed, and an error where that place lies beyond them.
    pub open spec fn held(&self, duration: TimeWindow) -> Holding {
        if self.sample_index <= self.samples@.len() {
            Ok(window(self.samples@, self.sample_index as int, duration.count as int))
        } else {
            Err(DiErrorView::OutOfBounds)
        }
    }
}

impl<'a> HistoricalData for BacktestData<'a> {
    fn append(&mut self, _token: &Token, _sample: &Sample) -> (r: Result<(), DiError>)
        ensures
            r == Err::<(), DiError>(DiError::NotImplemented),
            *final(self) == *old(self),
    {
        Err(DiError::NotImplemented)
    }

    fn fetch_last(&mut self, _token: &Token, _duration: &TimeWindow) -> (r: Result<(), DiError>)
        ensures
            r == Err::<(), DiError>(DiError::NotImplemented),
            *final(self) == *old(self),
    {
        Err(DiError::NotImplemented)
    }

    fn get_last(&self, _token: &Token, duration: &TimeWindow) -> (r: Result<&[Sample], DiError>)
        ensures
            holding_of(r) == self.held(*duration),
    {
        if self.sample_index > self.samples.len() {
            return Err(DiError::OutOfBounds);
        }
        let first_index: usize = if duration.count < 0 || duration.count as u64
            >= self.sample_index as u64 {
            0
        } else {
            self.sample_index - duration.count as usize
        };
        Ok(&self.samples[first_index..self.sample_index])
    }
}

/// The book that a replay shows for a sample: one bid and one ask of one
/// unit, both at the sample's close.
pub open spec fn replay_book(token: TokenView, sample: Sample) -> BookView {
    BookView {
        token,
        bids: seq![BookLine { price: sample.close, quantity: SCALE }],
        asks: seq![BookLine { price: sample.close, quantity: SCALE }],
    }
}

/// The orders, each dated `date`.
pub open spec fn stamped(orders: Seq<OrderView>, date: Date) -> Seq<OrderView> {
    Seq::new(orders.len(), |i: int| OrderView { date, ..orders[i] })
}

/// The agent after the fills of the first `k` of the orders, in their
/// order.
pub open spec fn filled_all(start: ChrysusView, orders: Seq<OrderView>, k: int) -> ChrysusView
    decreases k,
{
    if k <= 0 {
        start
    } else {
        filled_all(start, orders, k - 1).filled(orders[k - 1])
    }
}

/// The agent with which a replay starts: the token and the strategy of the
/// agent that is tested, the starting capital, and an empty ledger.
pub open spec fn fresh(token: TokenView, strategy: StrategyView) -> ChrysusView {
    ChrysusView {
        active: false,
        token,
        strategy,
        capital: STARTING_CAPITAL as int,
        locked_capital: 0,
        positions: Seq::empty(),
        balance: 0,
        book: BookView::empty(),
        orders: Seq::empty(),
        next_position_index: 0,
        next_order_index: 0,
    }
}

/// One step of a replay, at the sample at place `i`: the agent sees a
/// book at the sample's close and the window of samples before it; each
/// order that it gives is dated with the sample's time and filled at once.
/// Gives the agent after the step and the orders of the step.
pub open spec fn replay_step(
    agent: ChrysusView,
    history: Seq<Sample>,
    readings: Readings,
    i: int,
) -> (ChrysusView, Seq<OrderView>) {
    let now = Date::at(history[i].timestamp as i64);
    let (decided, given) = agent.decided(
        replay_book(agent.token, history[i]),
        Ok(window(history, i, agent.strategy.duration.count as int)),
        now,
        readings,
    );
    let dated = stamped(given, now);
    (filled_all(decided, dated, dated.len() as int), dated)
}

/// The replay of the samples from place `first` up to, and without, place
/// `upto`: the agent after it, and all the orders that were given.
pub open spec fn replayed(
    start: ChrysusView,
    history: Seq<Sample>,
    readings: Readings,
    first: int,
    upto: int,
) -> (ChrysusView, Seq<OrderView>)
    decreases upto - first,
{
    if upto <= first {
        (start, Seq::empty())
    } else {
        let (agent, given) = replayed(start, history, readings, first, upto - 1);
        let (next, more) = replay_step(agent, history, readings, upto - 1);
        (next, given + more)
    }
}

/// The number of samples as a window's count.
pub open spec fn covered(len: nat) -> i64 {
    if len > i64::MAX {
        i64::MAX
    } else {
        len as i64
    }
}

/// The resolution that a backtest covers: that of the history's first
/// sample, or that of the strategy's window where the history is empty.
pub open spec fn covered_resolution(strategy: StrategyView, history: Seq<Sample>) -> TimeUnit {
    if history.len() > 0 {
        history[0].resolution
    } else {
        strategy.duration.resolution
    }
}

/// What the backtest of an agent's strategy over a history finds: the
/// replay starts at the place that the strategy's lookback gives, and
/// covers the history's resolution and length.
pub open spec fn backtested(
    chrysus: ChrysusView,
    history: Seq<Sample>,
    readings: Readings,
) -> BacktestView {
    let (end, orders) = replayed(
        fresh(chrysus.token, chrysus.strategy),
        history,
        readings,
        chrysus.strategy.lookback() as int,
        history.len() as int,
    );
    BacktestView {
        initial_capital: STARTING_CAPITAL as int,
        orders,
        period: TimeWindow {
            resolution: covered_resolution(chrysus.strategy, history),
            count: covered(history.len()),
        },
        currency_balance: end.capital,
        symbol_balance: end.balance,
    }
}

/// What a step of the agent leaves as it was: the token and the strategy.
/// It records each order that it gives, and opens no position.
pub proof fn lemma_decided_records(
    agent: ChrysusView,
    book: BookView,
    held: Holding,
    now: Date,
    readings: Readings,
)
    ensures
        agent.decided(book, held, now, readings).0.token == agent.token,
        agent.decided(book, held, now, readings).0.strategy == agent.strategy,
        agent.decided(book, held, now, readings).0.next_position_index
            == agent.next_position_index,
        agent.decided(book, held, now, readings).0.orders.len() == agent.orders.len()
            + agent.decided(book, held, now, readings).1.len(),
{
}

/// Replays a history through a fresh agent with the strategy of `chrysus`
/// and reports how it ended. `engine` computes the indicators.
pub fn backtest<F: Fn(&Indicator, &[Sample]) -> Result<IndicatorData, DiError>>(
    chrysus: &Chrysus,
    history: &[Sample],
    engine: &F,
) -> (r: Backtest)
    requires
        is_engine(*engine),
        forall|i: int| 0 <= i < history@.len() ==> (#[trigger] history@[i]).timestamp <= i64::MAX,
    ensures
        r@ == backtested(chrysus@, history@, readings_of(*engine)),
        history@.len() <= chrysus@.strategy.lookback() ==> r@.orders.len() == 0,
        forall|i: int| 0 <= i < r@.orders.len() ==> (#[trigger] r@.orders[i]).index == i,
{
    let mut c: Chrysus = Chrysus::new(&chrysus.token);
    c.strategy = chrysus.strategy.clone();
    c.capital = STARTING_CAPITAL;
    let mut backtest_result = Backtest::default();
    backtest_result.initial_capital = STARTING_CAPITAL;
    backtest_result.period = TimeWindow {
        resolution: if history.len() > 0 {
            history[0].resolution
        } else {
            chrysus.strategy.duration.resolution
        },
        count: if history.len() as u64 > i64::MAX as u64 {
            i64::MAX
        } else {
            history.len() as i64
        },
    };
    let mut backtest_data = BacktestData::new(history);
    let offset: usize = chrysus.strategy.required_history_size();
    let ghost start = fresh(chrysus@.token, chrysus@.strategy);
    let ghost readings = readings_of(*engine);
    assert(c@.positions =~= start.positions);
    assert(c@.orders =~= start.orders);
    let mut i: usize = offset;
    while i < history.len()
        invariant
            is_engine(*engine),
            readings == readings_of(*engine),
            start == fresh(chrysus@.token, chrysus@.strategy),
            offset == chrysus@.strategy.lookback(),
            i >= offset,
            i <= history@.len() || i == offset,
            forall|k: int|
                0 <= k < history@.len() ==> (#[trigger] history@[k]).timestamp <= i64::MAX,
            backtest_data.samples@ == history@,
            c.wf(),
            c@.token == chrysus@.token,
            c@.strategy == chrysus@.strategy,
            c@.next_position_index <= c@.orders.len(),
            order_views(backtest_result.orders@).len() == c@.next_order_index,
            forall|k: int|
                0 <= k < backtest_result.orders@.len() ==> (#[trigger] order_views(
                    backtest_result.orders@,
                )[k]).index == k,
            (c@, order_views(backtest_result.orders@)) == replayed(
                start,
                history@,
                readings,
                offset as int,
                i as int,
            ),
            backtest_result.initial_capital == STARTING_CAPITAL,
            backtest_result.period == (TimeWindow {
                resolution: covered_resolution(chrysus@.strategy, history@),
                count: covered(history@.len()),
            }),
        decreases history@.len() - i,
    {
        backtest_data.sample_index = i;
        let book = Book {
            token: chrysus.token.clone(),
            bids: vec![BookLine { price: history[i].close, quantity: SCALE }],
            asks: vec![BookLine { price: history[i].close, quantity: SCALE }],
        };
        let now: Date = Date::from_timestamp(history[i].timestamp);
        let ghost before = c@;
        let ghost so_far = order_views(backtest_result.orders@);
        proof {
            assert(book@.bids =~= replay_book(before.token, history@[i as int]).bids);
            lemma_decided_records(
                before,
                book@,
                backtest_data.held(before.strategy.duration),
                now,
                readings,
            );
            lemma_decided_numbered(
                before,
                book@,
                backtest_data.held(before.strategy.duration),
                now,
                readings,
            );
        }
        let orders = c.decide(book, &backtest_data, now, engine);
        let ghost decided = c@;
        let ghost dated = stamped(order_views(orders@), now);
        let mut j: usize = 0;
        while j < orders.len()
            invariant
                j <= orders@.len(),
                dated == stamped(order_views(orders@), now),
                c.wf(),
                c@ == filled_all(decided, dated, j as int),
                c@.token == chrysus@.token,
                c@.strategy == chrysus@.strategy,
                c@.orders == decided.orders,
                c@.next_position_index + (orders@.len() - j) <= c@.orders.len(),
                c@.next_order_index == so_far.len() + orders@.len(),
                forall|k: int|
                    0 <= k < orders@.len() ==> (#[trigger] order_views(orders@)[k]).index
                        == so_far.len() + k,
                forall|k: int|
                    0 <= k < backtest_result.orders@.len() ==> (#[trigger] order_views(
                        backtest_result.orders@,
                    )[k]).index == k,
                order_views(backtest_result.orders@) == so_far + dated.take(j as int),
                backtest_result.initial_capital == STARTING_CAPITAL,
                backtest_result.period == (TimeWindow {
                    resolution: covered_resolution(chrysus@.strategy, history@),
                    count: covered(history@.len()),
                }),
            decreases orders@.len() - j,
        {
            let mut order: Order = orders[j].clone();
            order.date = now;
            let ghost recorded = order_views(backtest_result.orders@);
            c.realize(&order);
            backtest_result.orders.push(order);
            assert(order_views(backtest_result.orders@) =~= recorded.push(dated[j as int]));
            j += 1;
        }
        i += 1;
    }
    backtest_result.currency_balance = c.capital;
    backtest_result.symbol_balance = c.balance;
    backtest_result
}

} // verus!

//! The trading agent: its ledger, the orders it gives on a decision, and the fills it takes.

use crate::counselor::{Advice, Signal};
use crate::finance::{
    Book, BookView, DiError, Order, OrderView, Position,
    PositionView, Quote, QuoteView, Sample, Side, Token, TokenView,
};
use crate::fixed::{difference, fx_add, fx_div, fx_mul, fx_sub, product, ratio, sum};
use crate::historical_data::{holding_of, HistoricalData, Holding};
use crate::indicators::{is_engine, readings_of, Indicator, IndicatorData, Readings};
use crate::laws::lemma_ordered_numbered;
use crate::strategy::{Decision, Strategy, StrategyView};
use crate::time::Date;
use vstd::prelude::*;

verus! {

/// The trading agent of one instrument: its strategy and its ledger.
/// Amounts are fixed-point numbers. The open positions are kept in the
/// order in which they were opened, each with its index.
#[derive(Debug)]
pub struct Chrysus {
    pub active: bool,
    pub token: Token,
    pub strategy: Strategy,
    /// Free capital.
    pub capital: i64,
    /// Capital committed to buy orders that are not filled yet.
    pub locked_capital: i64,
    pub positions: Vec<(usize, Position)>,
    /// The quantity of the instrument that is held.
    pub balance: i64,
    pub book: Book,
    /// Every order that the agent gave, at the place of its index.
    pub orders: Vec<Order>,
    pub next_position_index: usize,
    pub next_order_index: usize,
}

/// The positions of an agent as a sequence of indices and position views.
pub open spec fn holdings(v: Seq<(usize, Position)>) -> Seq<(nat, PositionView)> {
    Seq::new(v.len(), |i: int| (v[i].0 as nat, v[i].1@))
}

/// Orders as a sequence of order views.
pub open spec fn order_views(v: Seq<Order>) -> Seq<OrderView> {
    Seq::new(v.len(), |i: int| v[i]@)
}

/// The agent as a value of specifications: indices are natural numbers
/// and amounts are integers.
pub ghost struct ChrysusView {
    pub active: bool,
    pub token: TokenView,
    pub strategy: StrategyView,
    pub capital: int,
    pub locked_capital: int,
    pub positions: Seq<(nat, PositionView)>,
    pub balance: int,
    pub book: BookView,
    pub orders: Seq<OrderView>,
    pub next_position_index: nat,
    pub next_order_index: nat,
}

impl View for Chrysus {
    type V = ChrysusView;

    open spec fn view(&self) -> ChrysusView {
        ChrysusView {
            active: self.active,
            token: self.token@,
            strategy: self.strategy@,
            capital: self.capital as int,
            locked_capital: self.locked_capital as int,
            positions: holdings(self.positions@),
            balance: self.balance as int,
            book: self.book@,
            orders: order_views(self.orders@),
            next_position_index: self.next_position_index as nat,
            next_order_index: self.next_order_index as nat,
        }
    }
}

/// Whether a position can be closed at `price`: no order is attached to
/// it, and the price lies above the one at which it was entered.
pub open spec fn closable(position: PositionView, price: int) -> bool {
    position.attached_order.is_none() && price > position.price
}

/// The order that buys `quantity` on a decision.
pub open spec fn buy_order(
    index: nat,
    quote: QuoteView,
    advice: Advice,
    quantity: int,
    now: Date,
) -> OrderView {
    OrderView {
        index,
        position_index: None,
        id: None,
        token: quote.token,
        date: now,
        side: Side::Buy,
        quantity,
        price: advice.stop_price as int,
        stop_price: Some(advice.stop_price as int),
        order_type: advice.order_type,
        tif: advice.tif,
    }
}

/// The order that closes the position with index `key` on a decision.
pub open spec fn close_order(
    index: nat,
    key: nat,
    position: PositionView,
    quote: QuoteView,
    advice: Advice,
    now: Date,
) -> OrderView {
    OrderView {
        index,
        position_index: Some(key),
        id: None,
        token: quote.token,
        date: now,
        side: Side::Sell,
        quantity: position.quantity,
        price: advice.stop_price as int,
        stop_price: Some(advice.stop_price as int),
        order_type: advice.order_type,
        tif: advice.tif,
    }
}

/// The orders that close the closable ones among the first `k` positions.
/// They are numbered from `next` on, in the positions' order.
pub open spec fn closing_orders(
    positions: Seq<(nat, PositionView)>,
    quote: QuoteView,
    advice: Advice,
    now: Date,
    next: nat,
    k: int,
) -> Seq<OrderView>
    decreases k,
{
    if k <= 0 {
        Seq::empty()
    } else {
        let before = closing_orders(positions, quote, advice, now, next, k - 1);
        let (key, position) = positions[k - 1];
        if closable(position, advice.stop_price as int) {
            before.push(close_order(next + before.len(), key, position, quote, advice, now))
        } else {
            before
        }
    }
}

/// The positions after a sell decision has gone through the first `k` of
/// them: each closable one among these has its closing order attached.
pub open spec fn attached_positions(
    positions: Seq<(nat, PositionView)>,
    quote: QuoteView,
    advice: Advice,
    now: Date,
    next: nat,
    k: int,
) -> Seq<(nat, PositionView)> {
    Seq::new(
        positions.len(),
        |j: int|
            if j < k && closable(positions[j].1, advice.stop_price as int) {
                (
                    positions[j].0,
                    PositionView {
                        attached_order: Some(
                            next + closing_orders(positions, quote, advice, now, next, j).len(),
                        ),
                        ..positions[j].1
                    },
                )
            } else {
                positions[j]
            },
    )
}

/// The place of the first position with index `key` at or after `start`,
/// or the number of positions where there is none.
pub open spec fn position_place(positions: Seq<(nat, PositionView)>, key: nat, start: int) -> int
    decreases positions.len() - start,
{
    if start < 0 || start >= positions.len() {
        positions.len() as int
    } else if positions[start].0 == key {
        start
    } else {
        position_place(positions, key, start + 1)
    }
}

/// The positions without the one with index `key`.
pub open spec fn without_position(positions: Seq<(nat, PositionView)>, key: nat) -> Seq<
    (nat, PositionView),
> {
    let place = position_place(positions, key, 0);
    if place < positions.len() {
        positions.remove(place)
    } else {
        positions
    }
}

impl ChrysusView {
    /// The invariant of the ledger: the orders stand at the places of
    /// their indices, and the positions' indices rise and were all given
    /// out already.
    pub open spec fn wf(self) -> bool {
        &&& self.orders.len() == self.next_order_index
        &&& forall|i: int| 0 <= i < self.orders.len() ==> (#[trigger] self.orders[i]).index == i
        &&& forall|i: int, j: int|
            0 <= i < j < self.positions.len() ==> (#[trigger] self.positions[i]).0 < (
            #[trigger] self.positions[j]).0
        &&& forall|i: int|
            0 <= i < self.positions.len() ==> (#[trigger] self.positions[i]).0
                < self.next_position_index
    }

    /// The capital that a buy decision commits.
    pub open spec fn allocation(self, decision: Decision) -> int {
        product(decision.pct as int, self.capital)
    }

    /// The quantity that a buy decision buys.
    pub open spec fn shares(self, decision: Decision) -> int {
        ratio(self.allocation(decision), decision.advice.stop_price as int)
    }

    /// The agent and the orders it gives after a buy decision: where the
    /// quantity is positive, the allocation moves from the free capital to
    /// the locked, and one order is given and recorded.
    pub open spec fn bought(self, quote: QuoteView, decision: Decision, now: Date) -> (
        ChrysusView,
        Seq<OrderView>,
    ) {
        if self.shares(decision) > 0 {
            let order = buy_order(
                self.next_order_index,
                quote,
                decision.advice,
                self.shares(decision),
                now,
            );
            (
                ChrysusView {
                    locked_capital: sum(self.locked_capital, self.allocation(decision)),
                    capital: difference(self.capital, self.allocation(decision)),
                    orders: self.orders.push(order),
                    next_order_index: self.next_order_index + 1,
                    ..self
                },
                seq![order],
            )
        } else {
            (self, Seq::empty())
        }
    }

    /// The agent and the orders it gives after a sell decision: one order
    /// for each closable position, attached to it and recorded.
    pub open spec fn sold(self, quote: QuoteView, decision: Decision, now: Date) -> (
        ChrysusView,
        Seq<OrderView>,
    ) {
        let given = closing_orders(
            self.positions,
            quote,
            decision.advice,
            now,
            self.next_order_index,
            self.positions.len() as int,
        );
        (
            ChrysusView {
                positions: attached_positions(
                    self.positions,
                    quote,
                    decision.advice,
                    now,
                    self.next_order_index,
                    self.positions.len() as int,
                ),
                orders: self.orders + given,
                next_order_index: self.next_order_index + given.len(),
                ..self
            },
            given,
        )
    }

    /// The agent and the orders it gives after a decision.
    pub open spec fn ordered(self, quote: QuoteView, decision: Decision, now: Date) -> (
        ChrysusView,
        Seq<OrderView>,
    ) {
        match decision.advice.signal {
            Signal::Buy => self.bought(quote, decision, now),
            Signal::Sell => self.sold(quote, decision, now),
            Signal::Hold => (self, Seq::empty()),
        }
    }

    /// The agent after the fill of an order. A buy moves the order's value
    /// out of the locked capital and opens a position under the next
    /// position index. A sell closes the position that the order names,
    /// if it is open, and moves the order's value into the free capital.
    pub open spec fn filled(self, order: OrderView) -> ChrysusView {
        match order.side {
            Side::Sell => ChrysusView {
                positions: match order.position_index {
                    Some(key) => without_position(self.positions, key),
                    None => self.positions,
                },
                balance: difference(self.balance, order.quantity),
                capital: sum(self.capital, product(order.quantity, order.price)),
                ..self
            },
            Side::Buy => ChrysusView {
                positions: self.positions.push(
                    (
                        self.next_position_index,
                        PositionView {
                            token: order.token,
                            quantity: order.quantity,
                            price: order.price,
                            date: order.date,
                            attached_order: None,
                        },
                    ),
                ),
                next_position_index: self.next_position_index + 1,
                balance: sum(self.balance, order.quantity),
                locked_capital: difference(
                    self.locked_capital,
                    product(order.quantity, order.price),
                ),
                ..self
            },
        }
    }
}

impl ChrysusView {
    /// The agent and the orders it gives after it has seen a book: none
    /// where the book gives no quote or the source no samples, else those
    /// of the strategy's decision.
    pub open spec fn decided(
        self,
        book: BookView,
        held: Holding,
        now: Date,
        readings: Readings,
    ) -> (ChrysusView, Seq<OrderView>) {
        let seen = ChrysusView { book, ..self };
        match book.quote(now) {
            Some(quote) => match held {
                Ok(samples) => seen.ordered(
                    quote,
                    seen.strategy.decision(quote, samples, readings),
                    now,
                ),
                Err(_) => (seen, Seq::empty()),
            },
            None => (seen, Seq::empty()),
        }
    }
}

impl Clone for Chrysus {
    fn clone(&self) -> (r: Self)
        ensures
            r@ == self@,
    {
        let mut positions: Vec<(usize, Position)> = Vec::new();
        let mut i: usize = 0;
        while i < self.positions.len()
            invariant
                i <= self.positions@.len(),
                positions@.len() == i,
                forall|j: int|
                    0 <= j < i ==> positions@[j].0 == self.positions@[j].0 && positions@[j].1@
                        == self.positions@[j].1@,
            decreases self.positions@.len() - i,
        {
            positions.push((self.positions[i].0, self.positions[i].1.clone()));
            i += 1;
        }
        let mut orders: Vec<Order> = Vec::new();
        let mut k: usize = 0;
        while k < self.orders.len()
            invariant
                k <= self.orders@.len(),
                orders@.len() == k,
                forall|j: int| 0 <= j < k ==> orders@[j]@ == self.orders@[j]@,
            decreases self.orders@.len() - k,
        {
            orders.push(self.orders[k].clone());
            k += 1;
        }
        assert(holdings(positions@) =~= holdings(self.positions@));
        assert(order_views(orders@) =~= order_views(self.orders@));
        Chrysus {
            active: self.active,
            token: self.token.clone(),
            strategy: self.strategy.clone(),
            capital: self.capital,
            locked_capital: self.locked_capital,
            positions,
            balance: self.balance,
            book: self.book.clone(),
            orders,
            next_position_index: self.next_position_index,
            next_order_index: self.next_order_index,
        }
    }
}

impl Chrysus {
    /// The ledger's invariant.
    pub open spec fn wf(&self) -> bool {
        self@.wf()
    }

    /// An agent for `token` with the default strategy and an empty ledger.
    pub fn new(token: &Token) -> (r: Self)
        ensures
            r.wf(),
            r@.token == token@,
            !r@.active,
            r@.capital == 0,
            r@.locked_capital == 0,
            r@.balance == 0,
            r@.positions.len() == 0,
            r@.orders.len() == 0,
            r@.next_position_index == 0,
            r@.next_order_index == 0,
            r@.strategy == StrategyView::empty(),
            r@.book == BookView::empty(),
    {
        Self {
            active: false,
            token: token.clone(),
            strategy: Strategy::default(),
            capital: 0,
            locked_capital: 0,
            positions: Vec::new(),
            balance: 0,
            book: Book::default(),
            orders: Vec::new(),
            next_position_index: 0,
            next_order_index: 0,
        }
    }

    /// The agent's name: its token's, then its strategy's.
    pub fn name(&self) -> (r: String)
        ensures
            r@ == self@.token.display() + " "@ + self@.strategy.label(),
    {
        let mut text: String = self.token.name();
        text.append(" ");
        text.append(self.strategy.name().as_str());
        text
    }

    /// Turns a decision into orders, and records them in the ledger.
    pub fn compute_orders(&mut self, quote: &Quote, decision: &Decision, now: Date) -> (orders: Vec<
        Order,
    >)
        requires
            old(self).wf(),
        ensures
            (final(self)@, order_views(orders@)) == old(self)@.ordered(quote@, *decision, now),
            final(self).wf(),
            forall|i: int|
                0 <= i < orders@.len() ==> (#[trigger] orders@[i]).index == old(
                    self,
                ).next_order_index + i,
            final(self).next_order_index == old(self).next_order_index + orders@.len(),
    {
        let ghost before = self@;
        proof {
            lemma_ordered_numbered(before, quote@, *decision, now);
        }
        let mut orders: Vec<Order> = Vec::new();
        match decision.advice.signal {
            Signal::Buy => {
                let available_capital: i64 = fx_mul(decision.pct, self.capital);
                let shares: i64 = fx_div(available_capital, decision.advice.stop_price);
                if shares > 0 {
                    self.locked_capital = fx_add(self.locked_capital, available_capital);
                    self.capital = fx_sub(self.capital, available_capital);
                    let order = Order {
                        index: self.next_order_index,
                        position_index: None,
                        id: None,
                        token: quote.token.clone(),
                        date: now,
                        quantity: shares,
                        side: Side::Buy,
                        price: decision.advice.stop_price,
                        stop_price: Some(decision.advice.stop_price),
                        order_type: decision.advice.order_type,
                        tif: decision.advice.tif,
                    };
                    orders.push(order.clone());
                    self.orders.push(order);
                    // the orders stand at the places of their indices
                    self.next_order_index = self.orders.len();
                    proof {
                        let given = buy_order(
                            before.next_order_index,
                            quote@,
                            decision.advice,
                            before.shares(*decision),
                            now,
                        );
                        assert(order_views(self.orders@) =~= before.orders.push(given));
                    }
                }
            },
            Signal::Sell => {
                let mut i: usize = 0;
                assert(holdings(self.positions@) =~= attached_positions(
                    before.positions,
                    quote@,
                    decision.advice,
                    now,
                    before.next_order_index,
                    0,
                ));
                while i < self.positions.len()
                    invariant
                        before.wf(),
                        i <= self.positions@.len() == before.positions.len(),
                        order_views(orders@) == closing_orders(
                            before.positions,
                            quote@,
                            decision.advice,
                            now,
                            before.next_order_index,
                            i as int,
                        ),
                        self@ == (ChrysusView {
                            positions: attached_positions(
                                before.positions,
                                quote@,
                                decision.advice,
                                now,
                                before.next_order_index,
                                i as int,
                            ),
                            orders: before.orders + order_views(orders@),
                            next_order_index: before.next_order_index + orders@.len(),
                            ..before
                        }),
                    decreases self.positions@.len() - i,
                {
                    let ghost so_far = order_views(orders@);
                    let ghost held = holdings(self.positions@);
                    let ghost recorded = order_views(self.orders@);
                    let ghost previous = self.positions@;
                    assert(held == attached_positions(
                        before.positions,
                        quote@,
                        decision.advice,
                        now,
                        before.next_order_index,
                        i as int,
                    ));
                    assert(held[i as int] == (
                        self.positions@[i as int].0 as nat,
                        self.positions@[i as int].1@,
                    ));
                    let key: usize = self.positions[i].0;
                    let attached: Option<usize> = self.positions[i].1.attached_order;
                    let price: i64 = self.positions[i].1.price;
                    if attached.is_none() && decision.advice.stop_price > price {
                        let quantity: i64 = self.positions[i].1.quantity;
                        let order = Order {
                            index: self.next_order_index,
                            position_index: Some(key),
                            id: None,
                            token: quote.token.clone(),
                            date: now,
                            quantity,
                            side: Side::Sell,
                            price: decision.advice.stop_price,
                            stop_price: Some(decision.advice.stop_price),
                            order_type: decision.advice.order_type,
                            tif: decision.advice.tif,
                        };
                        self.positions[i].1.attached_order = Some(self.next_order_index);
                        orders.push(order.clone());
                        self.orders.push(order);
                        self.next_order_index = self.orders.len();
                        proof {
                            let given = close_order(
                                before.next_order_index + so_far.len(),
                                key as nat,
                                before.positions[i as int].1,
                                quote@,
                                decision.advice,
                                now,
                            );
                            assert(order_views(orders@) =~= so_far.push(given));
                            assert(order_views(self.orders@) =~= recorded.push(given));
                        }
                    }
                    proof {
                        let target = attached_positions(
                            before.positions,
                            quote@,
                            decision.advice,
                            now,
                            before.next_order_index,
                            i + 1,
                        );
                        assert forall|j: int| 0 <= j < target.len() implies holdings(
                            self.positions@,
                        )[j] == target[j] by {
                            if j != i {
                                assert(held[j] == (previous[j].0 as nat, previous[j].1@));
                            }
                        }
                        assert(holdings(self.positions@) =~= target);
                    }
                    i += 1;
                }
                proof {
                    lemma_sold_keeps_order(before, quote@, *decision, now);
                }
            },
            _ => {},
        }
        proof {
            assert forall|i: int| 0 <= i < orders@.len() implies (#[trigger] orders@[i]).index
                == before.next_order_index + i by {
                assert(order_views(orders@)[i] == orders@[i]@);
            }
        }
        orders
    }

    /// Looks at a new order book and gives the orders that the strategy
    /// decides on, dated `now`, given what the source of samples answered.
    /// A source that failed means no orders. `engine` computes the
    /// indicators.
    pub fn decide_on<F: Fn(&Indicator, &[Sample]) -> Result<IndicatorData, DiError>>(
        &mut self,
        book: Book,
        fetched: Result<&[Sample], DiError>,
        now: Date,
        engine: &F,
    ) -> (orders: Vec<Order>)
        requires
            old(self).wf(),
            is_engine(*engine),
        ensures
            (final(self)@, order_views(orders@)) == old(self)@.decided(
                book@,
                holding_of(fetched),
                now,
                readings_of(*engine),
            ),
            final(self).wf(),
            forall|i: int|
                0 <= i < orders@.len() ==> (#[trigger] orders@[i]).index == old(
                    self,
                ).next_order_index + i,
            final(self).next_order_index == old(self).next_order_index + orders@.len(),
    {
        self.book = book;
        if let Some(quote) = self.book.quote(now) {
            if let Ok(samples) = fetched {
                match self.strategy.run(&quote, samples, engine) {
                    Ok(decision) => {
                        return self.compute_orders(&quote, &decision, now);
                    },
                    Err(_) => {},
                }
            }
        }
        let orders: Vec<Order> = Vec::new();
        orders
    }

    /// Looks at a new order book and gives the orders that the strategy
    /// decides on, dated `now`. Where the book gives a quote, the samples
    /// are asked of `history`, for the agent's token and the strategy's
    /// window; whatever it answers, the orders are those of `decide_on` for
    /// that answer.
    pub fn decide<
        H: HistoricalData,
        F: Fn(&Indicator, &[Sample]) -> Result<IndicatorData, DiError>,
    >(&mut self, book: Book, history: &H, now: Date, engine: &F) -> (orders: Vec<Order>)
        requires
            old(self).wf(),
            is_engine(*engine),
        ensures
            exists|fetched: Result<&[Sample], DiError>| #[trigger]
                old(self).answered(history, fetched, book@, now) && (
                final(self)@,
                order_views(orders@),
            ) == old(self)@.decided(book@, holding_of(fetched), now, readings_of(*engine)),
            final(self).wf(),
            forall|i: int|
                0 <= i < orders@.len() ==> (#[trigger] orders@[i]).index == old(
                    self,
                ).next_order_index + i,
            final(self).next_order_index == old(self).next_order_index + orders@.len(),
    {
        let ghost seen = book@;
        if book.bids.len() == 0 || book.asks.len() == 0 {
            let fetched: Result<&[Sample], DiError> = Err(DiError::Absent);
            assert(self.answered(history, fetched, seen, now));
            self.decide_on(book, fetched, now, engine)
        } else {
            let fetched = history.get_last(&self.token, &self.strategy.duration);
            assert(self.answered(history, fetched, seen, now));
            self.decide_on(book, fetched, now, engine)
        }
    }

    /// Whether `fetched` can stand for what `history` answers when the
    /// agent looks at `book`: where the book gives a quote, it is what
    /// `history` gave for the agent's token and the strategy's window;
    /// where it gives none, nothing was asked.
    pub open spec fn answered<H: HistoricalData>(
        &self,
        history: &H,
        fetched: Result<&[Sample], DiError>,
        book: BookView,
        now: Date,
    ) -> bool {
        book.quote(now).is_some() ==> call_ensures(
            H::get_last,
            (history, &self.token, &self.strategy.duration),
            fetched,
        )
    }

    /// Applies the fill of an order to the ledger. Nothing guards against
    /// a second call for the same fill, which counts it twice.
    pub fn realize(&mut self, order: &Order)
        requires
            order.side == Side::Buy ==> old(self).next_position_index < usize::MAX,
        ensures
            final(self)@ == old(self)@.filled(order@),
            old(self).wf() ==> final(self).wf(),
    {
        let ghost before = self@;
        match order.side {
            Side::Sell => {
                if let Some(position_index) = order.position_index {
                    let place: usize = find_position(&self.positions, position_index);
                    proof {
                        lemma_position_place(before.positions, position_index as nat, 0);
                    }
                    if place < self.positions.len() {
                        self.positions.remove(place);
                        assert(holdings(self.positions@) =~= before.positions.remove(
                            place as int,
                        ));
                    }
                }
                self.balance = fx_sub(self.balance, order.quantity);
                self.capital = fx_add(self.capital, fx_mul(order.quantity, order.price));
            },
            Side::Buy => {
                self.positions.push(
                    (
                        self.next_position_index,
                        Position {
                            price: order.price,
                            token: order.token.clone(),
                            quantity: order.quantity,
                            date: order.date,
                            attached_order: None,
                        },
                    ),
                );
                self.next_position_index = self.next_position_index + 1;
                self.balance = fx_add(self.balance, order.quantity);
                self.locked_capital = fx_sub(
                    self.locked_capital,
                    fx_mul(order.quantity, order.price),
                );
                assert(holdings(self.positions@) =~= before.positions.push(
                    (
                        before.next_position_index,
                        PositionView {
                            token: order@.token,
                            quantity: order@.quantity,
                            price: order@.price,
                            date: order@.date,
                            attached_order: None,
                        },
                    ),
                ));
            },
        }
    }
}

/// The place of the position with index `key`, or the number of positions
/// where none has it.
fn find_position(positions: &Vec<(usize, Position)>, key: usize) -> (place: usize)
    ensures
        place == position_place(holdings(positions@), key as nat, 0),
{
    let mut i: usize = 0;
    while i < positions.len()
        invariant
            i <= positions@.len(),
            position_place(holdings(positions@), key as nat, 0) == position_place(
                holdings(positions@),
                key as nat,
                i as int,
            ),
        decreases positions@.len() - i,
    {
        if positions[i].0 == key {
            return i;
        }
        i += 1;
    }
    i
}

/// The first position with the index `key` at or after `start` lies
/// where `position_place` says, and none with that index lies between.
pub proof fn lemma_position_place(positions: Seq<(nat, PositionView)>, key: nat, start: int)
    requires
        0 <= start <= positions.len(),
    ensures
        start <= position_place(positions, key, start) <= positions.len(),
        position_place(positions, key, start) < positions.len() ==> positions[position_place(
            positions,
            key,
            start,
        )].0 == key,
        forall|j: int|
            start <= j < position_place(positions, key, start) ==> (#[trigger] positions[j]).0
                != key,
    decreases positions.len() - start,
{
    if start < positions.len() && positions[start].0 != key {
        lemma_position_place(positions, key, start + 1);
    }
}

/// Each order that a sell decision gives carries the index that follows
/// those given before it.
pub proof fn lemma_closing_orders_numbered(
    positions: Seq<(nat, PositionView)>,
    quote: QuoteView,
    advice: Advice,
    now: Date,
    next: nat,
    k: int,
)
    requires
        k <= positions.len(),
    ensures
        closing_orders(positions, quote, advice, now, next, k).len() <= if k > 0 {
            k
        } else {
            0
        },
        forall|i: int|
            0 <= i < closing_orders(positions, quote, advice, now, next, k).len() ==> (
            #[trigger] closing_orders(positions, quote, advice, now, next, k)[i]).index == next
                + i,
    decreases k,
{
    if k > 0 {
        lemma_closing_orders_numbered(positions, quote, advice, now, next, k - 1);
    }
}

/// A sell decision keeps the ledger's invariant.
pub proof fn lemma_sold_keeps_order(
    before: ChrysusView,
    quote: QuoteView,
    decision: Decision,
    now: Date,
)
    requires
        before.wf(),
    ensures
        before.sold(quote, decision, now).0.wf(),
{
    lemma_closing_orders_numbered(
        before.positions,
        quote,
        decision.advice,
        now,
        before.next_order_index,
        before.positions.len() as int,
    );
}

} // verus!

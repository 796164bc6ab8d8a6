//! What holds of every run of the agent: orders and positions are numbered once, a position
//! gets one closing order at most, and value is moved, never made.

use crate::backtest::backtested;
use crate::chrysus::{
    closable, closing_orders, lemma_closing_orders_numbered, lemma_position_place,
    lemma_sold_keeps_order, position_place, ChrysusView,
};
use crate::counselor::{Advice, Signal};
use crate::finance::{BookView, OrderView, PositionView, QuoteView, Sample, Side};
use crate::fixed::{product, quotient, SCALE};
use crate::historical_data::Holding;
use crate::indicators::Readings;
use crate::strategy::Decision;
use crate::time::Date;
use vstd::arithmetic::div_mod::lemma_fundamental_div_mod;
use vstd::prelude::*;

verus! {

/// Something that happens to an agent: it sees a book and decides, or an
/// order is filled.
pub ghost enum Event {
    Decide { book: BookView, held: Holding, now: Date },
    Fill { order: OrderView },
}

/// The agent after the first `k` of the events, and the orders that it
/// gave on the way, in the order in which it gave them.
pub open spec fn after_events(
    start: ChrysusView,
    events: Seq<Event>,
    readings: Readings,
    k: int,
) -> (ChrysusView, Seq<OrderView>)
    decreases k,
{
    if k <= 0 {
        (start, Seq::empty())
    } else {
        let (agent, given) = after_events(start, events, readings, k - 1);
        match events[k - 1] {
            Event::Decide { book, held, now } => {
                let (next, more) = agent.decided(book, held, now, readings);
                (next, given + more)
            },
            Event::Fill { order } => (agent.filled(order), given),
        }
    }
}

/// A decision keeps the ledger's invariant, and the orders that it gives
/// carry the indices that follow the last one given before: the first
/// carries the agent's next order index, each further one the next number.
pub proof fn lemma_ordered_numbered(
    agent: ChrysusView,
    quote: QuoteView,
    decision: Decision,
    now: Date,
)
    requires
        agent.wf(),
    ensures
        agent.ordered(quote, decision, now).0.wf(),
        agent.ordered(quote, decision, now).0.next_order_index == agent.next_order_index
            + agent.ordered(quote, decision, now).1.len(),
        forall|i: int|
            0 <= i < agent.ordered(quote, decision, now).1.len() ==> (
            #[trigger] agent.ordered(quote, decision, now).1[i]).index == agent.next_order_index
                + i,
{
    match decision.advice.signal {
        Signal::Sell => {
            lemma_sold_keeps_order(agent, quote, decision, now);
            lemma_closing_orders_numbered(
                agent.positions,
                quote,
                decision.advice,
                now,
                agent.next_order_index,
                agent.positions.len() as int,
            );
        },
        _ => {},
    }
}

/// A fill keeps the ledger's invariant, and gives no order an index.
pub proof fn lemma_filled_keeps_order(agent: ChrysusView, order: OrderView)
    requires
        agent.wf(),
    ensures
        agent.filled(order).wf(),
        agent.filled(order).next_order_index == agent.next_order_index,
        agent.filled(order).orders == agent.orders,
{
    match order.side {
        Side::Sell => {
            match order.position_index {
                Some(key) => {
                    lemma_position_place(agent.positions, key, 0);
                },
                None => {},
            }
        },
        Side::Buy => {},
    }
}

/// A look at a book keeps the ledger's invariant, and the orders that it
/// gives carry the indices that follow the last one given before.
pub proof fn lemma_decided_numbered(
    agent: ChrysusView,
    book: BookView,
    held: Holding,
    now: Date,
    readings: Readings,
)
    requires
        agent.wf(),
    ensures
        agent.decided(book, held, now, readings).0.wf(),
        agent.decided(book, held, now, readings).0.next_order_index == agent.next_order_index
            + agent.decided(book, held, now, readings).1.len(),
        forall|i: int|
            0 <= i < agent.decided(book, held, now, readings).1.len() ==> (
            #[trigger] agent.decided(book, held, now, readings).1[i]).index
                == agent.next_order_index + i,
{
    let seen = ChrysusView { book, ..agent };
    match book.quote(now) {
        Some(quote) => match held {
            Ok(samples) => {
                lemma_ordered_numbered(
                    seen,
                    quote,
                    seen.strategy.decision(quote, samples, readings),
                    now,
                );
            },
            Err(_) => {},
        },
        None => {},
    }
}

/// Over any run of decisions and fills, the orders that an agent gives
/// carry strictly rising indices: the one given as number `i` carries the
/// index that lies `i` above the agent's next order index at the start.
pub proof fn lemma_order_indices_rise(
    start: ChrysusView,
    events: Seq<Event>,
    readings: Readings,
    k: int,
)
    requires
        start.wf(),
        k <= events.len(),
    ensures
        after_events(start, events, readings, k).0.wf(),
        after_events(start, events, readings, k).0.next_order_index == start.next_order_index
            + after_events(start, events, readings, k).1.len(),
        forall|i: int|
            0 <= i < after_events(start, events, readings, k).1.len() ==> (
            #[trigger] after_events(start, events, readings, k).1[i]).index
                == start.next_order_index + i,
        forall|i: int, j: int|
            0 <= i < j < after_events(start, events, readings, k).1.len() ==> (
            #[trigger] after_events(start, events, readings, k).1[i]).index < (
            #[trigger] after_events(start, events, readings, k).1[j]).index,
    decreases k,
{
    if k > 0 {
        lemma_order_indices_rise(start, events, readings, k - 1);
        let (agent, given) = after_events(start, events, readings, k - 1);
        match events[k - 1] {
            Event::Decide { book, held, now } => {
                lemma_decided_numbered(agent, book, held, now, readings);
            },
            Event::Fill { order } => {
                lemma_filled_keeps_order(agent, order);
            },
        }
    }
}

/// Two backtests of the same token and strategy over the same history find
/// the same: the same orders and the same balances, whatever else the two
/// agents hold.
pub proof fn lemma_backtest_deterministic(
    one: ChrysusView,
    other: ChrysusView,
    history: Seq<Sample>,
    readings: Readings,
)
    requires
        one.token == other.token,
        one.strategy == other.strategy,
    ensures
        backtested(one, history, readings) == backtested(other, history, readings),
{
}

/// A backtest over a history that is no longer than the strategy's
/// lookback gives no orders, and ends with the capital it started with.
pub proof fn lemma_short_history_gives_no_orders(
    chrysus: ChrysusView,
    history: Seq<Sample>,
    readings: Readings,
)
    requires
        history.len() <= chrysus.strategy.lookback(),
    ensures
        backtested(chrysus, history, readings).orders.len() == 0,
        backtested(chrysus, history, readings).currency_balance == backtested(
            chrysus,
            history,
            readings,
        ).initial_capital,
        backtested(chrysus, history, readings).symbol_balance == 0,
{
}

/// Each order that a sell decision gives closes a position that was
/// closable: it names the index of one among the first `k`.
pub proof fn lemma_closing_orders_source(
    positions: Seq<(nat, PositionView)>,
    quote: QuoteView,
    advice: Advice,
    now: Date,
    next: nat,
    k: int,
)
    requires
        k <= positions.len(),
    ensures
        forall|i: int|
            0 <= i < closing_orders(positions, quote, advice, now, next, k).len() ==> exists|
                j: int,
            |
                0 <= j < k && closable(positions[j].1, advice.stop_price as int) && (
                #[trigger] closing_orders(positions, quote, advice, now, next, k)[i]).position_index
                    == Some(#[trigger] positions[j].0),
    decreases k,
{
    if k > 0 {
        lemma_closing_orders_source(positions, quote, advice, now, next, k - 1);
        let before = closing_orders(positions, quote, advice, now, next, k - 1);
        let all = closing_orders(positions, quote, advice, now, next, k);
        assert forall|i: int| 0 <= i < all.len() implies exists|j: int|
            0 <= j < k && closable(positions[j].1, advice.stop_price as int) && (
            #[trigger] all[i]).position_index == Some(#[trigger] positions[j].0) by {
            if i < before.len() {
                let j = choose|j: int|
                    0 <= j < k - 1 && closable(positions[j].1, advice.stop_price as int)
                        && before[i].position_index == Some(#[trigger] positions[j].0);
                assert(0 <= j < k && closable(positions[j].1, advice.stop_price as int)
                    && all[i].position_index == Some(positions[j].0));
            } else {
                assert(closable(positions[k - 1].1, advice.stop_price as int)
                    && all[i].position_index == Some(positions[k - 1].0));
            }
        }
    }
}

/// A position to which an order is attached gets no second one: a
/// decision gives no order that names it, and leaves it as it is.
pub proof fn lemma_attached_position_gets_no_order(
    agent: ChrysusView,
    quote: QuoteView,
    decision: Decision,
    now: Date,
    place: int,
)
    requires
        agent.wf(),
        0 <= place < agent.positions.len(),
        agent.positions[place].1.attached_order.is_some(),
    ensures
        agent.ordered(quote, decision, now).0.positions.len() == agent.positions.len(),
        agent.ordered(quote, decision, now).0.positions[place] == agent.positions[place],
        forall|i: int|
            0 <= i < agent.ordered(quote, decision, now).1.len() ==> (
            #[trigger] agent.ordered(quote, decision, now).1[i]).position_index != Some(
                agent.positions[place].0,
            ),
{
    match decision.advice.signal {
        Signal::Sell => {
            let given = agent.ordered(quote, decision, now).1;
            lemma_closing_orders_source(
                agent.positions,
                quote,
                decision.advice,
                now,
                agent.next_order_index,
                agent.positions.len() as int,
            );
            assert forall|i: int| 0 <= i < given.len() implies (#[trigger] given[i]).position_index
                != Some(agent.positions[place].0) by {}
        },
        _ => {},
    }
}

/// After a decision, an order is attached to every position that one of
/// the decision's orders names.
pub proof fn lemma_closing_orders_attach(
    agent: ChrysusView,
    quote: QuoteView,
    decision: Decision,
    now: Date,
)
    requires
        agent.wf(),
    ensures
        agent.ordered(quote, decision, now).0.positions.len() == agent.positions.len(),
        forall|j: int|
            0 <= j < agent.positions.len() ==> (#[trigger] agent.ordered(
                quote,
                decision,
                now,
            ).0.positions[j]).0 == agent.positions[j].0,
        forall|i: int, j: int|
            0 <= i < agent.ordered(quote, decision, now).1.len() && 0 <= j
                < agent.positions.len() && (#[trigger] agent.ordered(
                quote,
                decision,
                now,
            ).1[i]).position_index == Some(agent.positions[j].0) ==> (#[trigger] agent.ordered(
                quote,
                decision,
                now,
            ).0.positions[j]).1.attached_order.is_some(),
{
    match decision.advice.signal {
        Signal::Sell => {
            let given = agent.ordered(quote, decision, now).1;
            let after = agent.ordered(quote, decision, now).0;
            lemma_closing_orders_source(
                agent.positions,
                quote,
                decision.advice,
                now,
                agent.next_order_index,
                agent.positions.len() as int,
            );
            assert forall|i: int, j: int|
                0 <= i < given.len() && 0 <= j < agent.positions.len() && (
                #[trigger] given[i]).position_index == Some(
                    agent.positions[j].0,
                ) implies (#[trigger] after.positions[j]).1.attached_order.is_some() by {}
        },
        _ => {},
    }
}

/// While an order that closes a position is not filled, the next decision
/// gives no second order for that position: no position is named by an
/// order of each of two decisions that follow one another.
pub proof fn lemma_no_second_closing_order(
    agent: ChrysusView,
    quote: QuoteView,
    decision: Decision,
    now: Date,
    next_quote: QuoteView,
    next_decision: Decision,
    later: Date,
)
    requires
        agent.wf(),
    ensures
        forall|i: int, j: int|
            0 <= i < agent.ordered(quote, decision, now).1.len() && 0 <= j < agent.ordered(
                quote,
                decision,
                now,
            ).0.ordered(next_quote, next_decision, later).1.len() && (#[trigger] agent.ordered(
                quote,
                decision,
                now,
            ).1[i]).position_index.is_some() ==> agent.ordered(
                quote,
                decision,
                now,
            ).1[i].position_index != (#[trigger] agent.ordered(quote, decision, now).0.ordered(
                next_quote,
                next_decision,
                later,
            ).1[j]).position_index,
{
    let first = agent.ordered(quote, decision, now);
    let second = first.0.ordered(next_quote, next_decision, later);
    lemma_ordered_numbered(agent, quote, decision, now);
    lemma_closing_orders_attach(agent, quote, decision, now);
    assert forall|i: int, j: int|
        0 <= i < first.1.len() && 0 <= j < second.1.len() && (
        #[trigger] first.1[i]).position_index.is_some() implies first.1[i].position_index != (
    #[trigger] second.1[j]).position_index by {
        match decision.advice.signal {
            Signal::Sell => {
                lemma_closing_orders_source(
                    agent.positions,
                    quote,
                    decision.advice,
                    now,
                    agent.next_order_index,
                    agent.positions.len() as int,
                );
                let w = choose|w: int|
                    0 <= w < agent.positions.len() && closable(
                        agent.positions[w].1,
                        decision.advice.stop_price as int,
                    ) && first.1[i].position_index == Some(#[trigger] agent.positions[w].0);
                lemma_attached_position_gets_no_order(
                    first.0,
                    next_quote,
                    next_decision,
                    later,
                    w,
                );
            },
            _ => {},
        }
    }
}

/// While an order that closes a position is not filled, the agent's next
/// look at a book gives no second order for that position.
pub proof fn lemma_no_second_order_between_decides(
    agent: ChrysusView,
    book: BookView,
    held: Holding,
    now: Date,
    next_book: BookView,
    next_held: Holding,
    later: Date,
    readings: Readings,
)
    requires
        agent.wf(),
    ensures
        forall|i: int, j: int|
            0 <= i < agent.decided(book, held, now, readings).1.len() && 0 <= j < agent.decided(
                book,
                held,
                now,
                readings,
            ).0.decided(next_book, next_held, later, readings).1.len() && (
            #[trigger] agent.decided(book, held, now, readings).1[i]).position_index.is_some()
                ==> agent.decided(book, held, now, readings).1[i].position_index != (
            #[trigger] agent.decided(book, held, now, readings).0.decided(
                next_book,
                next_held,
                later,
                readings,
            ).1[j]).position_index,
{
    let seen = ChrysusView { book, ..agent };
    match book.quote(now) {
        Some(quote) => match held {
            Ok(samples) => {
                let decision = seen.strategy.decision(quote, samples, readings);
                let first = seen.ordered(quote, decision, now);
                let seen_next = ChrysusView { book: next_book, ..first.0 };
                lemma_ordered_numbered(seen, quote, decision, now);
                match next_book.quote(later) {
                    Some(next_quote) => match next_held {
                        Ok(next_samples) => {
                            let next_decision = seen_next.strategy.decision(
                                next_quote,
                                next_samples,
                                readings,
                            );
                            let with_book = ChrysusView { book: next_book, ..seen };
                            lemma_no_second_closing_order(
                                with_book,
                                quote,
                                decision,
                                now,
                                next_quote,
                                next_decision,
                                later,
                            );
                        },
                        Err(_) => {},
                    },
                    None => {},
                }
            },
            Err(_) => {},
        },
        None => {},
    }
}

/// How far the free capital may fall short after a round trip at the
/// price `stop_price`: by the value of less than one raw unit of quantity,
/// and one raw unit of capital for rounding.
pub open spec fn round_trip_tolerance(stop_price: int) -> int {
    stop_price / (SCALE as int) + 1
}

/// Capital is conserved over a round trip. An agent follows a buy
/// decision, the order is filled, and the new position is sold again at
/// the same price: then the positions are what they were, none where there
/// was none, and the free capital is what it was, less at most the
/// tolerance. This is stated for decisions whose quantity can be held.
pub proof fn lemma_round_trip(
    agent: ChrysusView,
    quote: QuoteView,
    decision: Decision,
    now: Date,
    sale: OrderView,
)
    requires
        agent.wf(),
        0 <= agent.capital <= i64::MAX,
        decision.advice.signal == Signal::Buy,
        0 <= decision.pct <= SCALE,
        decision.advice.stop_price > 0,
        quotient(agent.allocation(decision) * SCALE, decision.advice.stop_price as int)
            <= i64::MAX,
        agent.shares(decision) > 0,
        sale.side == Side::Sell,
        sale.position_index == Some(agent.next_position_index),
        sale.quantity == agent.shares(decision),
        sale.price == decision.advice.stop_price,
    ensures
        agent.ordered(quote, decision, now).1.len() == 1,
        agent.ordered(quote, decision, now).0.filled(
            agent.ordered(quote, decision, now).1[0],
        ).positions.len() == agent.positions.len() + 1,
        agent.ordered(quote, decision, now).0.filled(
            agent.ordered(quote, decision, now).1[0],
        ).filled(sale).positions == agent.positions,
        agent.capital - round_trip_tolerance(decision.advice.stop_price as int)
            <= agent.ordered(quote, decision, now).0.filled(
            agent.ordered(quote, decision, now).1[0],
        ).filled(sale).capital <= agent.capital,
{
    let capital = agent.capital;
    let share = decision.pct as int;
    let stop = decision.advice.stop_price as int;
    let scale = SCALE as int;
    assert(scale == 100_000_000);
    // the allocation
    assert(0 <= share * capital <= scale * capital) by (nonlinear_arith)
        requires
            0 <= share <= scale,
            0 <= capital,
    ;
    let allocation = agent.allocation(decision);
    assert(allocation == (share * capital) / scale);
    assert(0 <= allocation <= capital);
    // the quantity
    let raw = allocation * scale;
    let quantity = agent.shares(decision);
    assert(quantity == raw / stop);
    lemma_fundamental_div_mod(raw, stop);
    let value = quantity * stop;
    assert(value == stop * (raw / stop)) by (nonlinear_arith)
        requires
            value == quantity * stop,
            quantity == raw / stop,
    ;
    assert(raw - stop < value <= raw);
    // what the position is worth at the same price
    let worth = product(quantity, stop);
    assert(worth == value / scale);
    assert(allocation - round_trip_tolerance(stop) <= worth <= allocation);
    // the ledger
    let bought = agent.ordered(quote, decision, now);
    let held = bought.0.filled(bought.1[0]);
    let back = held.filled(sale);
    assert(bought.0.capital == capital - allocation);
    assert(held.positions.len() == agent.positions.len() + 1);
    assert(held.positions.last().0 == agent.next_position_index);
    lemma_position_place(held.positions, agent.next_position_index, 0);
    assert(position_place(held.positions, agent.next_position_index, 0)
        == agent.positions.len()) by {
        let place = position_place(held.positions, agent.next_position_index, 0);
        if place < agent.positions.len() {
            assert(held.positions[place] == agent.positions[place]);
        }
    }
    assert(back.positions =~= agent.positions);
    assert(back.capital == capital - allocation + worth);
}

/// What the first `k` positions are worth at the prices at which they
/// were entered.
pub open spec fn positions_value(positions: Seq<(nat, PositionView)>, k: int) -> int
    decreases k,
{
    if k <= 0 {
        0
    } else {
        positions_value(positions, k - 1) + product(
            positions[k - 1].1.quantity,
            positions[k - 1].1.price,
        )
    }
}

/// What an agent holds in all: its free capital, its locked capital, and
/// its positions at the prices at which they were entered.
pub open spec fn total_value(agent: ChrysusView) -> int {
    agent.capital + agent.locked_capital + positions_value(
        agent.positions,
        agent.positions.len() as int,
    )
}

/// Whether an amount can be held.
pub open spec fn holdable(amount: int) -> bool {
    i64::MIN <= amount <= i64::MAX
}

/// Positions that agree in quantity and price, one by one up to the
/// `k`th, are worth the same up to there.
pub proof fn lemma_positions_value_same(
    one: Seq<(nat, PositionView)>,
    other: Seq<(nat, PositionView)>,
    k: int,
)
    requires
        k <= one.len(),
        k <= other.len(),
        forall|i: int|
            0 <= i < k ==> (#[trigger] one[i]).1.quantity == other[i].1.quantity && one[i].1.price
                == other[i].1.price,
    ensures
        positions_value(one, k) == positions_value(other, k),
    decreases k,
{
    if k > 0 {
        lemma_positions_value_same(one, other, k - 1);
    }
}

/// A decision moves value within the agent and neither adds nor takes
/// any: a buy moves its allocation from the free capital to the locked,
/// a sell only attaches orders. This is stated for amounts that can be
/// held.
pub proof fn lemma_decision_conserves_value(
    agent: ChrysusView,
    quote: QuoteView,
    decision: Decision,
    now: Date,
)
    requires
        holdable(agent.capital - agent.allocation(decision)),
        holdable(agent.locked_capital + agent.allocation(decision)),
    ensures
        total_value(agent.ordered(quote, decision, now).0) == total_value(agent),
{
    match decision.advice.signal {
        Signal::Sell => {
            lemma_positions_value_same(
                agent.ordered(quote, decision, now).0.positions,
                agent.positions,
                agent.positions.len() as int,
            );
        },
        _ => {},
    }
}

/// The fill of a buy moves the order's value from the locked capital into
/// a new position, and neither adds nor takes any. This is stated for
/// amounts that can be held.
pub proof fn lemma_buy_fill_conserves_value(agent: ChrysusView, order: OrderView)
    requires
        order.side == Side::Buy,
        holdable(agent.locked_capital - product(order.quantity, order.price)),
    ensures
        total_value(agent.filled(order)) == total_value(agent),
        agent.filled(order).positions.len() == agent.positions.len() + 1,
        agent.filled(order).positions.last().0 == agent.next_position_index,
        agent.filled(order).capital == agent.capital,
{
    let after = agent.filled(order);
    lemma_positions_value_same(after.positions, agent.positions, agent.positions.len() as int);
}

/// Taking out the position at `place` takes out what it is worth.
pub proof fn lemma_positions_value_remove(positions: Seq<(nat, PositionView)>, place: int, k: int)
    requires
        0 <= place < k <= positions.len(),
    ensures
        positions_value(positions.remove(place), k - 1) == positions_value(positions, k) - product(
            positions[place].1.quantity,
            positions[place].1.price,
        ),
    decreases k,
{
    let rest = positions.remove(place);
    if k - 1 > place {
        lemma_positions_value_remove(positions, place, k - 1);
    } else {
        lemma_positions_value_same(rest, positions, place);
    }
}

/// The fill of a sell takes out the worth of the position that the order
/// names, if it is open, and adds the order's value to the free capital.
/// So the fill of an order that sells a position whole at its entry price
/// neither adds nor takes any value, and an order that is filled a second
/// time, when its position is gone, adds its value once more. This is
/// stated for amounts that can be held.
pub proof fn lemma_sell_fill_value(agent: ChrysusView, order: OrderView)
    requires
        order.side == Side::Sell,
        holdable(agent.capital + product(order.quantity, order.price)),
    ensures
        ({
            let place = match order.position_index {
                Some(key) => position_place(agent.positions, key, 0),
                None => agent.positions.len() as int,
            };
            let closed = if place < agent.positions.len() {
                product(agent.positions[place].1.quantity, agent.positions[place].1.price)
            } else {
                0
            };
            total_value(agent.filled(order)) == total_value(agent) - closed + product(
                order.quantity,
                order.price,
            )
        }),
{
    match order.position_index {
        Some(key) => {
            lemma_position_place(agent.positions, key, 0);
            let place = position_place(agent.positions, key, 0);
            if place < agent.positions.len() {
                lemma_positions_value_remove(
                    agent.positions,
                    place,
                    agent.positions.len() as int,
                );
            }
        },
        None => {},
    }
}

/// No index of a position is used twice. Over any run of decisions and
/// fills, the agent's next position index never falls, and a position
/// whose index lies below the next position index of the start was open
/// at the start.
pub proof fn lemma_position_indices_not_reused(
    start: ChrysusView,
    events: Seq<Event>,
    readings: Readings,
    k: int,
)
    requires
        start.wf(),
        k <= events.len(),
    ensures
        after_events(start, events, readings, k).0.wf(),
        after_events(start, events, readings, k).0.next_position_index
            >= start.next_position_index,
        forall|i: int|
            0 <= i < after_events(start, events, readings, k).0.positions.len() && (
            #[trigger] after_events(start, events, readings, k).0.positions[i]).0
                < start.next_position_index ==> exists|j: int|
                0 <= j < start.positions.len() && (#[trigger] start.positions[j]).0 == after_events(
                    start,
                    events,
                    readings,
                    k,
                ).0.positions[i].0,
    decreases k,
{
    lemma_order_indices_rise(start, events, readings, k);
    if k > 0 {
        lemma_position_indices_not_reused(start, events, readings, k - 1);
        lemma_order_indices_rise(start, events, readings, k - 1);
        let (agent, given) = after_events(start, events, readings, k - 1);
        let after = after_events(start, events, readings, k).0;
        match events[k - 1] {
            Event::Decide { book, held, now } => {
                let seen = ChrysusView { book, ..agent };
                match book.quote(now) {
                    Some(quote) => match held {
                        Ok(samples) => {
                            lemma_closing_orders_attach(
                                seen,
                                quote,
                                seen.strategy.decision(quote, samples, readings),
                                now,
                            );
                        },
                        Err(_) => {},
                    },
                    None => {},
                }
                assert forall|i: int|
                    0 <= i < after.positions.len() && (#[trigger] after.positions[i]).0
                        < start.next_position_index implies exists|j: int|
                    0 <= j < start.positions.len() && (#[trigger] start.positions[j]).0
                        == after.positions[i].0 by {}
            },
            Event::Fill { order } => {
                match order.side {
                    Side::Sell => {
                        match order.position_index {
                            Some(key) => {
                                lemma_position_place(agent.positions, key, 0);
                                assert forall|i: int|
                                    0 <= i < after.positions.len() && (
                                    #[trigger] after.positions[i]).0
                                        < start.next_position_index implies exists|j: int|
                                    0 <= j < start.positions.len() && (
                                    #[trigger] start.positions[j]).0 == after.positions[i].0 by {}
                            },
                            None => {},
                        }
                    },
                    Side::Buy => {
                        assert forall|i: int|
                            0 <= i < after.positions.len() && (#[trigger] after.positions[i]).0
                                < start.next_position_index implies exists|j: int|
                            0 <= j < start.positions.len() && (#[trigger] start.positions[j]).0
                                == after.positions[i].0 by {}
                    },
                }
            },
        }
    }
}

/// The orders of one sell decision name positions with different indices.
pub proof fn lemma_closing_orders_differ(
    positions: Seq<(nat, PositionView)>,
    quote: QuoteView,
    advice: Advice,
    now: Date,
    next: nat,
    k: int,
)
    requires
        k <= positions.len(),
        forall|i: int, j: int|
            0 <= i < j < positions.len() ==> (#[trigger] positions[i]).0 < (
            #[trigger] positions[j]).0,
    ensures
        forall|a: int, b: int|
            0 <= a < b < closing_orders(positions, quote, advice, now, next, k).len() ==> (
            #[trigger] closing_orders(positions, quote, advice, now, next, k)[a]).position_index
                != (#[trigger] closing_orders(
                positions,
                quote,
                advice,
                now,
                next,
                k,
            )[b]).position_index,
    decreases k,
{
    if k > 0 {
        lemma_closing_orders_differ(positions, quote, advice, now, next, k - 1);
        lemma_closing_orders_source(positions, quote, advice, now, next, k - 1);
        let before = closing_orders(positions, quote, advice, now, next, k - 1);
        let all = closing_orders(positions, quote, advice, now, next, k);
        assert forall|a: int, b: int| 0 <= a < b < all.len() implies (
        #[trigger] all[a]).position_index != (#[trigger] all[b]).position_index by {
            if b < before.len() {
                assert(all[a] == before[a] && all[b] == before[b]);
            } else {
                let j = choose|j: int|
                    0 <= j < k - 1 && closable(positions[j].1, advice.stop_price as int)
                        && before[a].position_index == Some(#[trigger] positions[j].0);
                assert(positions[j].0 < positions[k - 1].0);
            }
        }
    }
}

/// Whether every position that one of the orders names has an order
/// attached.
pub open spec fn named_are_attached(agent: ChrysusView, given: Seq<OrderView>) -> bool {
    forall|i: int, p: int|
        0 <= i < given.len() && 0 <= p < agent.positions.len() && (
        #[trigger] given[i]).position_index == Some((#[trigger] agent.positions[p]).0)
            ==> agent.positions[p].1.attached_order.is_some()
}

/// Whether every index of a position that one of the orders names was
/// given out already.
pub open spec fn named_are_known(agent: ChrysusView, given: Seq<OrderView>) -> bool {
    forall|i: int|
        0 <= i < given.len() && (#[trigger] given[i]).position_index.is_some()
            ==> given[i].position_index.unwrap() < agent.next_position_index
}

/// Whether no two of the orders name the same position.
pub open spec fn name_different_positions(given: Seq<OrderView>) -> bool {
    forall|a: int, b: int|
        0 <= a < b < given.len() && (#[trigger] given[a]).position_index.is_some()
            ==> given[a].position_index != (#[trigger] given[b]).position_index
}

/// Over any run of decisions and fills, the agent gives at most one order
/// for each position: no two of the orders that it gives name the same
/// position. On the way, every position that an order names and that is
/// still open has an order attached.
pub proof fn lemma_one_closing_order_per_position(
    start: ChrysusView,
    events: Seq<Event>,
    readings: Readings,
    k: int,
)
    requires
        start.wf(),
        k <= events.len(),
    ensures
        after_events(start, events, readings, k).0.wf(),
        named_are_attached(
            after_events(start, events, readings, k).0,
            after_events(start, events, readings, k).1,
        ),
        named_are_known(
            after_events(start, events, readings, k).0,
            after_events(start, events, readings, k).1,
        ),
        name_different_positions(after_events(start, events, readings, k).1),
    decreases k,
{
    lemma_order_indices_rise(start, events, readings, k);
    if k > 0 {
        lemma_one_closing_order_per_position(start, events, readings, k - 1);
        let (agent, given) = after_events(start, events, readings, k - 1);
        let (after, all) = after_events(start, events, readings, k);
        match events[k - 1] {
            Event::Decide { book, held, now } => {
                let seen = ChrysusView { book, ..agent };
                match book.quote(now) {
                    Some(quote) => match held {
                        Ok(samples) => {
                            let decision = seen.strategy.decision(quote, samples, readings);
                            lemma_decision_names_new_positions(seen, given, quote, decision, now);
                        },
                        Err(_) => {
                            assert(all =~= given);
                        },
                    },
                    None => {
                        assert(all =~= given);
                    },
                }
            },
            Event::Fill { order } => {
                lemma_fill_keeps_names(agent, given, order);
            },
        }
    }
}

/// A decision of an agent that gave orders before names only positions
/// that none of those orders names, and each of them once.
pub proof fn lemma_decision_names_new_positions(
    agent: ChrysusView,
    given: Seq<OrderView>,
    quote: QuoteView,
    decision: Decision,
    now: Date,
)
    requires
        agent.wf(),
        named_are_attached(agent, given),
        named_are_known(agent, given),
        name_different_positions(given),
    ensures
        named_are_attached(
            agent.ordered(quote, decision, now).0,
            given + agent.ordered(quote, decision, now).1,
        ),
        named_are_known(
            agent.ordered(quote, decision, now).0,
            given + agent.ordered(quote, decision, now).1,
        ),
        name_different_positions(given + agent.ordered(quote, decision, now).1),
{
    let (after, more) = agent.ordered(quote, decision, now);
    let all = given + more;
    lemma_ordered_numbered(agent, quote, decision, now);
    lemma_closing_orders_attach(agent, quote, decision, now);
    match decision.advice.signal {
        Signal::Sell => {
            lemma_closing_orders_source(
                agent.positions,
                quote,
                decision.advice,
                now,
                agent.next_order_index,
                agent.positions.len() as int,
            );
            lemma_closing_orders_differ(
                agent.positions,
                quote,
                decision.advice,
                now,
                agent.next_order_index,
                agent.positions.len() as int,
            );
        },
        _ => {},
    }
    assert forall|i: int, p: int|
        0 <= i < all.len() && 0 <= p < after.positions.len() && (
        #[trigger] all[i]).position_index == Some(
            (#[trigger] after.positions[p]).0,
        ) implies after.positions[p].1.attached_order.is_some() by {
        assert(after.positions[p].0 == agent.positions[p].0);
        if i < given.len() {
            assert(all[i] == given[i]);
            assert(agent.positions[p].1.attached_order.is_some());
            lemma_attached_position_gets_no_order(agent, quote, decision, now, p);
        } else {
            assert(all[i] == more[i - given.len()]);
        }
    }
    assert forall|i: int| 0 <= i < all.len() && (#[trigger] all[i]).position_index.is_some() implies
        all[i].position_index.unwrap() < after.next_position_index by {
        if i < given.len() {
            assert(all[i] == given[i]);
        } else {
            assert(all[i] == more[i - given.len()]);
            match decision.advice.signal {
                Signal::Sell => {
                    let j = choose|j: int|
                        0 <= j < agent.positions.len() && closable(
                            agent.positions[j].1,
                            decision.advice.stop_price as int,
                        ) && more[i - given.len()].position_index == Some(
                            #[trigger] agent.positions[j].0,
                        );
                    assert(agent.positions[j].0 < agent.next_position_index);
                },
                _ => {},
            }
        }
    }
    assert forall|a: int, b: int|
        0 <= a < b < all.len() && (#[trigger] all[a]).position_index.is_some() implies (
    all[a]).position_index != (#[trigger] all[b]).position_index by {
        if b < given.len() {
            assert(all[a] == given[a] && all[b] == given[b]);
        } else if a >= given.len() {
            assert(all[a] == more[a - given.len()] && all[b] == more[b - given.len()]);
        } else {
            assert(all[a] == given[a] && all[b] == more[b - given.len()]);
            match decision.advice.signal {
                Signal::Sell => {
                    let j = choose|j: int|
                        0 <= j < agent.positions.len() && closable(
                            agent.positions[j].1,
                            decision.advice.stop_price as int,
                        ) && more[b - given.len()].position_index == Some(
                            #[trigger] agent.positions[j].0,
                        );
                    if given[a].position_index == Some(agent.positions[j].0) {
                        assert(agent.positions[j].1.attached_order.is_some());
                    }
                },
                _ => {},
            }
        }
    }
}

/// A fill leaves every open position that an order names with its order
/// attached, and the position that a buy opens is named by none.
pub proof fn lemma_fill_keeps_names(agent: ChrysusView, given: Seq<OrderView>, order: OrderView)
    requires
        agent.wf(),
        named_are_attached(agent, given),
        named_are_known(agent, given),
    ensures
        named_are_attached(agent.filled(order), given),
        named_are_known(agent.filled(order), given),
{
    let after = agent.filled(order);
    match order.side {
        Side::Sell => {
            match order.position_index {
                Some(key) => {
                    lemma_position_place(agent.positions, key, 0);
                    let place = position_place(agent.positions, key, 0);
                    assert forall|i: int, p: int|
                        0 <= i < given.len() && 0 <= p < after.positions.len() && (
                        #[trigger] given[i]).position_index == Some(
                            (#[trigger] after.positions[p]).0,
                        ) implies after.positions[p].1.attached_order.is_some() by {
                        if place < agent.positions.len() && p >= place {
                            assert(after.positions[p] == agent.positions[p + 1]);
                        } else {
                            assert(after.positions[p] == agent.positions[p]);
                        }
                    }
                },
                None => {},
            }
        },
        Side::Buy => {
            assert forall|i: int, p: int|
                0 <= i < given.len() && 0 <= p < after.positions.len() && (
                #[trigger] given[i]).position_index == Some(
                    (#[trigger] after.positions[p]).0,
                ) implies after.positions[p].1.attached_order.is_some() by {
                if p < agent.positions.len() {
                    assert(after.positions[p] == agent.positions[p]);
                }
            }
        },
    }
}

} // verus!

use dionysus::backtest::{backtest, Backtest, BacktestData, STARTING_CAPITAL};
use dionysus::chrysus::Chrysus;
use dionysus::counselor::Counselor;
use dionysus::finance::{DiError, Sample, Side, Token};
use dionysus::fixed::SCALE;
use dionysus::historical_data::HistoricalData;
use dionysus::indicators::{Indicator, IndicatorData};
use dionysus::time::{Date, TimeUnit, TimeWindow};

fn token() -> Token {
    Token::pair("BTC", "USDT")
}

fn history(closes: &[i64]) -> Vec<Sample> {
    let mut v = Vec::new();
    for (i, c) in closes.iter().enumerate() {
        v.push(Sample {
            resolution: TimeUnit::Min(5),
            timestamp: 1000 + 300 * i as u64,
            open: c * SCALE,
            high: c * SCALE,
            low: c * SCALE,
            close: c * SCALE,
            volume: 1,
        });
    }
    v
}

/// Bands one tenth below and above the mean of the closes that are shown.
fn bands(_: &Indicator, samples: &[Sample]) -> Result<IndicatorData, DiError> {
    if samples.is_empty() {
        return Err(DiError::Error);
    }
    let n = samples.len();
    let mean = samples.iter().map(|s| s.close).sum::<i64>() / n as i64;
    Ok(IndicatorData::Matrix(vec![
        vec![mean - mean / 10; n],
        vec![mean; n],
        vec![mean + mean / 10; n],
    ]))
}

fn agent(lookback: usize, count: i64) -> Chrysus {
    let mut c = Chrysus::new(&token());
    c.strategy.counselors.push(Counselor::MeanReversion(lookback));
    c.strategy.duration = TimeWindow { resolution: TimeUnit::Min(5), count };
    c
}

#[test]
fn a_backtest_buys_low_and_sells_high() {
    let h = history(&[100, 100, 100, 80, 100, 130, 100]);
    let r = backtest(&agent(3, 3), &h[..], &bands);
    assert_eq!(r.initial_capital, 1000 * SCALE);
    assert_eq!(STARTING_CAPITAL, 1000 * SCALE);
    assert_eq!(r.period, TimeWindow { resolution: TimeUnit::Min(5), count: 7 });
    // at 80 the mean of the three samples before is 100: buy at the lower band, 90
    // at 130 the mean before is 93.33333333: sell at the upper band, 102.66666666
    assert_eq!(r.orders.len(), 2);
    assert_eq!(r.orders[0].side, Side::Buy);
    assert_eq!(r.orders[0].index, 0);
    assert_eq!(r.orders[0].price, 90 * SCALE);
    assert_eq!(r.orders[0].quantity, 666_666_666);
    assert_eq!(r.orders[0].date, Date::from_timestamp(1900));
    assert_eq!(r.orders[1].side, Side::Sell);
    assert_eq!(r.orders[1].index, 1);
    assert_eq!(r.orders[1].position_index, Some(0));
    assert_eq!(r.orders[1].price, 10_266_666_666);
    assert_eq!(r.orders[1].quantity, 666_666_666);
    assert_eq!(r.orders[1].date, Date::from_timestamp(2500));
    assert_eq!(r.symbol_balance, 0);
    // 400 stayed free; 6.66666666 * 102.66666666 = 684.44444371 came back
    assert_eq!(r.currency_balance, 400 * SCALE + 68_444_444_371);
}

#[test]
fn a_backtest_is_deterministic() {
    let h = history(&[100, 100, 100, 80, 100, 130, 100, 70, 140, 100, 60, 150]);
    let a = backtest(&agent(3, 3), &h[..], &bands);
    let b = backtest(&agent(3, 3), &h[..], &bands);
    assert!(!a.orders.is_empty());
    assert_eq!(a.orders, b.orders);
    assert_eq!(a.currency_balance, b.currency_balance);
    assert_eq!(a.symbol_balance, b.symbol_balance);
    assert_eq!(a.period, b.period);
    // what the agent holds besides its strategy has no part in it
    let mut busy = agent(3, 3);
    busy.capital = 5;
    busy.next_order_index = 7;
    busy.active = true;
    let c = backtest(&busy, &h[..], &bands);
    assert_eq!(a.orders, c.orders);
    assert_eq!(a.currency_balance, c.currency_balance);
}

#[test]
fn a_history_as_long_as_the_lookback_gives_no_orders() {
    let h = history(&[100, 100, 100, 80]);
    let r = backtest(&agent(4, 4), &h[..], &bands);
    assert!(r.orders.is_empty());
    assert_eq!(r.currency_balance, 1000 * SCALE);
    assert_eq!(r.symbol_balance, 0);
    assert_eq!(r.period.count, 4);
    let shorter = backtest(&agent(9, 9), &h[..], &bands);
    assert!(shorter.orders.is_empty());
    // one sample more and the last one is replayed
    let one_more = backtest(&agent(3, 3), &h[..], &bands);
    assert_eq!(one_more.orders.len(), 1);
}

#[test]
fn a_window_shorter_than_the_lookback_never_trades() {
    let h = history(&[100, 100, 100, 80, 100, 130, 100]);
    let r = backtest(&agent(3, 2), &h[..], &bands);
    assert!(r.orders.is_empty());
}

#[test]
fn profit_values_the_holding_at_the_tick() {
    let mut r = Backtest::default();
    r.initial_capital = 1000 * SCALE;
    r.currency_balance = 400 * SCALE;
    r.symbol_balance = 6 * SCALE;
    // 400 + 6 * 150 = 1300: +30 %
    assert_eq!(r.compute_profit(150 * SCALE), 30 * SCALE);
    // 400 + 6 * 50 = 700: -30 %
    assert_eq!(r.compute_profit(50 * SCALE), -30 * SCALE);
    let copy = r.clone();
    assert_eq!(copy.compute_profit(100 * SCALE), 0);
    assert_eq!(copy.orders, r.orders);
}

#[test]
fn replay_shows_the_samples_before_the_index() {
    let h = history(&[1, 2, 3, 4, 5]);
    let mut data = BacktestData::new(&h[..]);
    let t = token();
    let window = |count: i64| TimeWindow { resolution: TimeUnit::Min(5), count };
    assert_eq!(data.get_last(&t, &window(3)), Ok(&h[0..0]));
    data.sample_index = 4;
    assert_eq!(data.get_last(&t, &window(3)), Ok(&h[1..4]));
    assert_eq!(data.get_last(&t, &window(4)), Ok(&h[0..4]));
    assert_eq!(data.get_last(&t, &window(9)), Ok(&h[0..4]));
    assert_eq!(data.get_last(&t, &window(0)), Ok(&h[4..4]));
    assert_eq!(data.get_last(&t, &window(-1)), Ok(&h[0..4]));
    data.sample_index = 5;
    assert_eq!(data.get_last(&t, &window(2)), Ok(&h[3..5]));
    data.sample_index = 6;
    assert_eq!(data.get_last(&t, &window(2)), Err(DiError::OutOfBounds));
    assert_eq!(data.append(&t, &h[0]), Err(DiError::NotImplemented));
    assert_eq!(data.fetch_last(&t, &window(2)), Err(DiError::NotImplemented));
}

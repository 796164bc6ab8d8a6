use dionysus::counselor::{Advice, Counselor, Signal};
use dionysus::finance::{DiError, Quote, Sample, Token};
use dionysus::fixed::SCALE;
use dionysus::indicators::{Indicator, IndicatorData};
use dionysus::strategy::{Decision, Oracle, Strategy, BUY_SHARE, SELL_SHARE};
use dionysus::time::{Date, TimeUnit, TimeWindow};

fn quote(ask: i64) -> Quote {
    Quote {
        token: Token::pair("BTC", "USDT"),
        bid: Some(ask),
        ask: Some(ask),
        biddate: Date::from_timestamp(0),
        askdate: Date::from_timestamp(0),
    }
}

fn flat(n: usize, price: i64) -> Vec<Sample> {
    let mut v = Vec::new();
    for i in 0..n {
        v.push(Sample {
            resolution: TimeUnit::Min(1),
            timestamp: 60 * i as u64,
            open: price,
            high: price + 5,
            low: price - 5,
            close: price,
            volume: 1,
        });
    }
    v
}

/// Bands at 90 and 110 whatever the samples; averages that cross upwards.
fn engine(indicator: &Indicator, samples: &[Sample]) -> Result<IndicatorData, DiError> {
    match indicator {
        Indicator::BollingerBands(_) => Ok(IndicatorData::Matrix(vec![
            vec![90; samples.len()],
            vec![100; samples.len()],
            vec![110; samples.len()],
        ])),
        Indicator::ExponentialMovingAverage(n) => {
            let mut v = vec![50; samples.len()];
            if *n < 10 {
                let last = v.len() - 1;
                v[last] = 60;
            }
            Ok(IndicatorData::Vector(v))
        }
        _ => Err(DiError::NotImplemented),
    }
}

fn with_signal(signal: Signal, stop_price: i64) -> Result<Advice, DiError> {
    let mut a = Advice::default();
    a.signal = signal;
    a.stop_price = stop_price;
    Ok(a)
}

#[test]
fn shares_of_the_two_signals() {
    assert_eq!(BUY_SHARE, 60_000_000);
    assert_eq!(SELL_SHARE, SCALE);
    let d = Decision::default();
    assert_eq!(d.pct, 0);
    assert_eq!(d.advice, Advice::default());
}

#[test]
fn delphi_takes_the_first_signal() {
    let given = vec![
        Err(DiError::Error),
        with_signal(Signal::Hold, 1),
        with_signal(Signal::Sell, 2),
        with_signal(Signal::Buy, 3),
    ];
    let d = Oracle::Delphi.resolve(&given[..]);
    assert_eq!(d.advice.signal, Signal::Sell);
    assert_eq!(d.advice.stop_price, 2);
    assert_eq!(d.pct, SCALE);
    let buy_first = vec![with_signal(Signal::Buy, 3), with_signal(Signal::Sell, 2)];
    let b = Oracle::Delphi.resolve(&buy_first[..]);
    assert_eq!(b.advice.signal, Signal::Buy);
    assert_eq!(b.pct, 60_000_000);
}

#[test]
fn without_a_signal_there_is_no_trade() {
    let none = vec![Err(DiError::NotFound), with_signal(Signal::Hold, 9)];
    assert_eq!(Oracle::Delphi.resolve(&none[..]), Decision::default());
    assert_eq!(Oracle::Delphi.resolve(&[]), Decision::default());
}

#[test]
fn dodona_decides_nothing() {
    let given = vec![with_signal(Signal::Buy, 3)];
    assert_eq!(Oracle::Dodona.resolve(&given[..]), Decision::default());
    let counselors = vec![Counselor::MeanReversion(2)];
    let history = flat(5, 100);
    let seen = Oracle::Dodona.see(&quote(80), &history[..], &counselors[..], &engine);
    assert_eq!(seen, Ok(Decision::default()));
    assert_eq!(Oracle::default(), Oracle::Delphi);
}

#[test]
fn see_asks_the_counselors_in_order() {
    let history = flat(12, 100);
    // the trace says nothing, mean reversion buys below the lower band
    let counselors = vec![Counselor::Trace, Counselor::MeanReversion(10), Counselor::EMACross((5, 10))];
    let d = Oracle::Delphi.see(&quote(80), &history[..], &counselors[..], &engine).unwrap();
    assert_eq!(d.advice.signal, Signal::Buy);
    assert_eq!(d.advice.stop_price, 90);
    assert_eq!(d.pct, BUY_SHARE);
    // within the bands mean reversion holds, and the averages' crossing decides
    let e = Oracle::Delphi.see(&quote(100), &history[..], &counselors[..], &engine).unwrap();
    assert_eq!(e.advice.signal, Signal::Buy);
    assert_eq!(e.advice.stop_price, 105);
    assert_eq!(e.advice.stop_loss, 50);
    assert_eq!(e.advice.take_profit, 160);
    // above the bands mean reversion sells
    let s = Oracle::Delphi.see(&quote(120), &history[..], &counselors[..], &engine).unwrap();
    assert_eq!(s.advice.signal, Signal::Sell);
    assert_eq!(s.advice.stop_price, 110);
    assert_eq!(s.pct, SELL_SHARE);
}

#[test]
fn a_counselor_that_fails_is_passed_over() {
    let history = flat(12, 100);
    // the engine has no MACD: that counselor fails, the next one decides
    let counselors = vec![Counselor::MACDCrossover((3, 6, 2)), Counselor::MeanReversion(10)];
    let d = Oracle::Delphi.see(&quote(80), &history[..], &counselors[..], &engine).unwrap();
    assert_eq!(d.advice.signal, Signal::Buy);
    let only_failing = vec![Counselor::MACDCrossover((3, 6, 2))];
    let n = Oracle::Delphi.see(&quote(80), &history[..], &only_failing[..], &engine);
    assert_eq!(n, Ok(Decision::default()));
}

#[test]
fn a_history_that_is_too_short_is_an_error() {
    let q = quote(80);
    let short = flat(9, 100);
    let enough = flat(10, 100);
    let rule = Counselor::MeanReversion(10);
    assert_eq!(rule.run(&q, &short[..], &engine), Err(DiError::Error));
    assert_eq!(rule.run(&q, &enough[..], &engine).unwrap().signal, Signal::Buy);
    assert_eq!(Counselor::MeanReversion(0).run(&q, &[], &engine), Err(DiError::Error));
    assert_eq!(Counselor::EMACross((0, 0)).run(&q, &[], &engine), Err(DiError::Error));
    assert_eq!(Counselor::MACDZeroCross((1, 2, 3)).run(&q, &short[..1], &engine), Err(DiError::Error));
    // the trace rule needs no history
    assert_eq!(Counselor::Trace.run(&q, &[], &engine).unwrap().stop_price, 80);
    // an engine's own failure comes through
    assert_eq!(
        Counselor::MACDCrossover((1, 2, 3)).run(&q, &enough[..], &engine),
        Err(DiError::NotImplemented)
    );
}

#[test]
fn required_history_is_the_longest_lookback() {
    let mut s = Strategy::default();
    assert_eq!(s.required_history_size(), 0);
    s.counselors.push(Counselor::Trace);
    assert_eq!(s.required_history_size(), 0);
    s.counselors.push(Counselor::MeanReversion(20));
    s.counselors.push(Counselor::MACDCrossover((12, 26, 9)));
    s.counselors.push(Counselor::EMACross((5, 10)));
    assert_eq!(s.required_history_size(), 26);
}

#[test]
fn strategy_name_and_run() {
    let mut s = Strategy::default();
    assert_eq!(s.name(), "Delphi 1h");
    s.oracle = Oracle::Dodona;
    s.duration = TimeWindow { resolution: TimeUnit::Min(15), count: 200 };
    assert_eq!(s.name(), "Dodona 15m");
    assert_eq!(Oracle::Delphi.name(), "Delphi");
    s.oracle = Oracle::Delphi;
    s.counselors.push(Counselor::MeanReversion(3));
    let history = flat(3, 100);
    let d = s.run(&quote(120), &history[..], &engine).unwrap();
    assert_eq!(d.advice.signal, Signal::Sell);
    let copy = s.clone();
    assert_eq!(copy.counselors, s.counselors);
    assert_eq!(copy.duration, s.duration);
    assert_eq!(copy.oracle, s.oracle);
}

#[test]
fn run_series_is_silent_before_the_lookback() {
    let history = flat(12, 100);
    let series = Counselor::EMACross((5, 10)).run_series(&history[..], &engine).unwrap();
    assert_eq!(series.len(), 12);
    assert_eq!(series[0], Advice::default());
    assert_eq!(series[9], Advice::default());
    assert_eq!(series[10].signal, Signal::Buy);
    assert_eq!(series[11].signal, Signal::Buy);
    assert_eq!(series[11].stop_price, 105);
    let failing = Counselor::MACDCrossover((1, 2, 3)).run_series(&history[..], &engine);
    assert_eq!(failing, Err(DiError::NotImplemented));
    // nothing is run where the lookback is never reached
    let never = Counselor::MACDCrossover((1, 12, 3)).run_series(&history[..], &engine).unwrap();
    assert_eq!(never, vec![Advice::default(); 12]);
}

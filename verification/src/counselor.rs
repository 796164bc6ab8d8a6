//! The advisory rules: what each of them advises for a quote and a history.

use crate::crossover::{
    compute_series_cross, compute_zero_cross, series_cross, zero_cross, Crossover,
};
use crate::finance::{
    DiError, DiErrorView, OrderType, Quote, QuoteView, Sample, TimeInForce, Token, TokenView,
};
use crate::fixed::{difference, fx_add, fx_sub, sum, SCALE};
use crate::indicators::{
    consult, is_engine, reading_of, readings_of, Indicator, IndicatorData, IndicatorDataView,
    Reading, Readings,
};
use crate::text::{decimal, decimal_text, period_at, read_period, same_text, to_upper, uppercase};
use crate::time::Date;
use vstd::prelude::*;

verus! {

/// The sentiment of a strategy.
#[derive(Debug, Default, Clone, Copy, PartialEq, Eq, Structural)]
pub enum Signal {
    Buy,
    Sell,
    /// Neither buy nor sell.
    #[default]
    Hold,
}

/// What one counselor advises: a signal, and the shape of the order that
/// would follow it. Prices are fixed-point numbers.
#[derive(Debug, Clone, Copy, PartialEq, Eq, Structural)]
pub struct Advice {
    pub signal: Signal,
    pub order_type: OrderType,
    pub stop_price: i64,
    pub stop_loss: i64,
    pub take_profit: i64,
    pub tif: TimeInForce,
}

impl Advice {
    /// The advice to do nothing.
    pub open spec fn neutral() -> Advice {
        Advice {
            signal: Signal::Hold,
            order_type: OrderType::Market,
            stop_price: 0,
            stop_loss: 0,
            take_profit: 0,
            tif: TimeInForce::GTC,
        }
    }

    /// The advice to buy at `stop_price`, giving up at `stop_loss` and
    /// taking the profit as far above the stop price as the stop loss lies
    /// below it.
    pub open spec fn buy(stop_price: i64, stop_loss: i64) -> Advice {
        Advice {
            signal: Signal::Buy,
            order_type: OrderType::Market,
            stop_price,
            stop_loss,
            take_profit: sum(
                stop_price as int,
                difference(stop_price as int, stop_loss as int),
            ) as i64,
            tif: TimeInForce::GTC,
        }
    }

    /// The advice to sell at `stop_price`, giving up at `stop_loss` and
    /// taking the profit as far below the stop price as the stop loss lies
    /// above it.
    pub open spec fn sell(stop_price: i64, stop_loss: i64) -> Advice {
        Advice {
            signal: Signal::Sell,
            order_type: OrderType::Market,
            stop_price,
            stop_loss,
            take_profit: difference(
                stop_price as int,
                difference(stop_loss as int, stop_price as int),
            ) as i64,
            tif: TimeInForce::GTC,
        }
    }

    /// What a crossing advises: to buy on a crossing upwards, to sell on a
    /// crossing downwards, and nothing otherwise.
    pub open spec fn on_crossing(
        crossing: Crossover,
        buy_stop: i64,
        buy_loss: i64,
        sell_stop: i64,
        sell_loss: i64,
    ) -> Advice {
        match crossing {
            Crossover::CrossingUpwards => Advice::buy(buy_stop, buy_loss),
            Crossover::CrossingDownwards => Advice::sell(sell_stop, sell_loss),
            _ => Advice::neutral(),
        }
    }

    /// What a price outside a band advises: to buy below the lower band, to
    /// sell above the upper one, each at the band's own price.
    pub open spec fn on_bands(ask: i64, lower: i64, upper: i64) -> Advice {
        if ask < lower {
            Advice { signal: Signal::Buy, stop_price: lower, stop_loss: lower, ..Advice::neutral() }
        } else if ask > upper {
            Advice {
                signal: Signal::Sell,
                stop_price: upper,
                stop_loss: upper,
                ..Advice::neutral()
            }
        } else {
            Advice::neutral()
        }
    }
}

impl Default for Advice {
    fn default() -> (r: Self)
        ensures
            r == Advice::neutral(),
    {
        Advice {
            signal: Signal::Hold,
            order_type: OrderType::Market,
            stop_price: 0,
            stop_loss: 0,
            take_profit: 0,
            tif: TimeInForce::GTC,
        }
    }
}

/// What a counselor's run gives, as a value of specifications.
pub type Counsel = Result<Advice, DiErrorView>;

/// The counsel that a run's result stands for.
pub open spec fn counsel_of(r: Result<Advice, DiError>) -> Counsel {
    match r {
        Ok(advice) => Ok(advice),
        Err(e) => Err(e@),
    }
}

/// The width, in standard deviations, of the bands that mean reversion
/// looks at.
pub const BAND_WIDTH: i64 = 2 * SCALE;

/// The stop price that stands for a missing ask.
pub const NO_ASK: i64 = -SCALE;

/// What the trace rule advises: nothing, with the ask as stop price.
pub open spec fn trace_counsel(quote: QuoteView) -> Counsel {
    Ok(
        Advice {
            stop_price: match quote.ask {
                Some(ask) => ask,
                None => NO_ASK,
            },
            ..Advice::neutral()
        },
    )
}

/// What mean reversion advises on the summary of the bands: series 0 is
/// the lower band and series 2 the upper one.
pub open spec fn mean_reversion_counsel(quote: QuoteView, bands: Reading) -> Counsel {
    match bands {
        Ok(IndicatorDataView::Matrix(m)) => {
            if m.len() >= 3 && m[0].len() >= 1 && m[2].len() >= 1 {
                Ok(
                    Advice::on_bands(
                        match quote.ask {
                            Some(ask) => ask,
                            None => 0,
                        },
                        m[0][0],
                        m[2][0],
                    ),
                )
            } else {
                Err(DiErrorView::Error)
            }
        },
        Ok(_) => Err(DiErrorView::Error),
        Err(e) => Err(e),
    }
}

/// What a crossing of the MACD line (series 0) over its signal line
/// (series 1) advises, with the last sample's high and low as stops.
pub open spec fn macd_crossover_counsel(last: Sample, lines: Reading) -> Counsel {
    match lines {
        Ok(IndicatorDataView::Matrix(m)) => {
            if m.len() >= 2 && 0 < m[0].len() <= m[1].len() {
                Ok(
                    Advice::on_crossing(
                        series_cross(m[0], m[1]),
                        last.high,
                        last.low,
                        last.low,
                        last.high,
                    ),
                )
            } else {
                Err(DiErrorView::Error)
            }
        },
        Ok(_) => Err(DiErrorView::Error),
        Err(e) => Err(e),
    }
}

/// What a crossing of the MACD line (series 0) over zero advises, with the
/// last sample's high and low as stops.
pub open spec fn macd_zero_cross_counsel(last: Sample, lines: Reading) -> Counsel {
    match lines {
        Ok(IndicatorDataView::Matrix(m)) => {
            if m.len() >= 1 && 0 < m[0].len() {
                Ok(
                    Advice::on_crossing(
                        zero_cross(m[0]),
                        last.high,
                        last.low,
                        last.low,
                        last.high,
                    ),
                )
            } else {
                Err(DiErrorView::Error)
            }
        },
        Ok(_) => Err(DiErrorView::Error),
        Err(e) => Err(e),
    }
}

/// What a crossing of the fast average over the slow one advises, with the
/// last sample's high or low as stop price and the slow average's last value
/// as stop loss. A failure of the fast average comes before one of the slow.
pub open spec fn ema_cross_counsel(last: Sample, fast: Reading, slow: Reading) -> Counsel {
    match fast {
        Ok(IndicatorDataView::Vector(f)) => match slow {
            Ok(IndicatorDataView::Vector(s)) => {
                if 0 < f.len() <= s.len() {
                    Ok(
                        Advice::on_crossing(
                            series_cross(f, s),
                            last.high,
                            s.last(),
                            last.low,
                            s.last(),
                        ),
                    )
                } else {
                    Err(DiErrorView::Error)
                }
            },
            Ok(_) => Err(DiErrorView::Error),
            Err(e) => Err(e),
        },
        Ok(_) => Err(DiErrorView::Error),
        Err(e) => Err(e),
    }
}

fn buy_advice(stop_price: i64, stop_loss: i64) -> (r: Advice)
    ensures
        r == Advice::buy(stop_price, stop_loss),
{
    Advice {
        signal: Signal::Buy,
        order_type: OrderType::Market,
        stop_price,
        stop_loss,
        take_profit: fx_add(stop_price, fx_sub(stop_price, stop_loss)),
        tif: TimeInForce::GTC,
    }
}

fn sell_advice(stop_price: i64, stop_loss: i64) -> (r: Advice)
    ensures
        r == Advice::sell(stop_price, stop_loss),
{
    Advice {
        signal: Signal::Sell,
        order_type: OrderType::Market,
        stop_price,
        stop_loss,
        take_profit: fx_sub(stop_price, fx_sub(stop_loss, stop_price)),
        tif: TimeInForce::GTC,
    }
}

/// Turns a crossing into advice.
pub fn advise_crossing(
    crossing: Crossover,
    buy_stop: i64,
    buy_loss: i64,
    sell_stop: i64,
    sell_loss: i64,
) -> (r: Advice)
    ensures
        r == Advice::on_crossing(crossing, buy_stop, buy_loss, sell_stop, sell_loss),
{
    match crossing {
        Crossover::CrossingUpwards => buy_advice(buy_stop, buy_loss),
        Crossover::CrossingDownwards => sell_advice(sell_stop, sell_loss),
        _ => Advice::default(),
    }
}

/// The trace rule: advises nothing, and reports the ask as stop price.
pub fn run_trace(quote: &Quote) -> (r: Result<Advice, DiError>)
    ensures
        counsel_of(r) == trace_counsel(quote@),
{
    let mut advice = Advice::default();
    advice.stop_price = match quote.ask {
        Some(ask) => ask,
        None => NO_ASK,
    };
    Ok(advice)
}

/// Mean reversion on bands that were read already.
pub fn advise_mean_reversion(quote: &Quote, bands: Result<IndicatorData, DiError>) -> (r: Result<
    Advice,
    DiError,
>)
    ensures
        counsel_of(r) == mean_reversion_counsel(quote@, reading_of(bands)),
{
    match bands {
        Ok(IndicatorData::Matrix(m)) => {
            if m.len() >= 3 && m[0].len() >= 1 && m[2].len() >= 1 {
                let lower: i64 = m[0][0];
                let upper: i64 = m[2][0];
                let ask: i64 = match quote.ask {
                    Some(ask) => ask,
                    None => 0,
                };
                let mut advice = Advice::default();
                if ask < lower {
                    advice.stop_price = lower;
                    advice.stop_loss = lower;
                    advice.signal = Signal::Buy;
                } else if ask > upper {
                    advice.stop_price = upper;
                    advice.stop_loss = upper;
                    advice.signal = Signal::Sell;
                }
                Ok(advice)
            } else {
                Err(DiError::Error)
            }
        },
        Ok(_) => Err(DiError::Error),
        Err(e) => Err(e),
    }
}

/// The MACD crossover rule on lines that were read already.
pub fn advise_macd_crossover(last: &Sample, lines: Result<IndicatorData, DiError>) -> (r: Result<
    Advice,
    DiError,
>)
    ensures
        counsel_of(r) == macd_crossover_counsel(*last, reading_of(lines)),
{
    match lines {
        Ok(IndicatorData::Matrix(m)) => {
            if m.len() >= 2 {
                if 0 < m[0].len() && m[0].len() <= m[1].len() {
                    let crossing = compute_series_cross(m[0].as_slice(), m[1].as_slice());
                    return Ok(advise_crossing(crossing, last.high, last.low, last.low, last.high));
                }
            }
            Err(DiError::Error)
        },
        Ok(_) => Err(DiError::Error),
        Err(e) => Err(e),
    }
}

/// The MACD zero-cross rule on lines that were read already.
pub fn advise_macd_zero_cross(last: &Sample, lines: Result<IndicatorData, DiError>) -> (r: Result<
    Advice,
    DiError,
>)
    ensures
        counsel_of(r) == macd_zero_cross_counsel(*last, reading_of(lines)),
{
    match lines {
        Ok(IndicatorData::Matrix(m)) => {
            if m.len() >= 1 {
                if 0 < m[0].len() {
                    let crossing = compute_zero_cross(m[0].as_slice());
                    return Ok(advise_crossing(crossing, last.high, last.low, last.low, last.high));
                }
            }
            Err(DiError::Error)
        },
        Ok(_) => Err(DiError::Error),
        Err(e) => Err(e),
    }
}

/// The EMA cross rule on averages that were read already.
pub fn advise_ema_cross(
    last: &Sample,
    fast: Result<IndicatorData, DiError>,
    slow: Result<IndicatorData, DiError>,
) -> (r: Result<Advice, DiError>)
    ensures
        counsel_of(r) == ema_cross_counsel(*last, reading_of(fast), reading_of(slow)),
{
    let f: Vec<i64> = match fast {
        Ok(IndicatorData::Vector(v)) => v,
        Err(e) => {
            return Err(e);
        },
        _ => {
            return Err(DiError::Error);
        },
    };
    let s: Vec<i64> = match slow {
        Ok(IndicatorData::Vector(v)) => v,
        Err(e) => {
            return Err(e);
        },
        _ => {
            return Err(DiError::Error);
        },
    };
    if 0 < f.len() && f.len() <= s.len() {
        let crossing = compute_series_cross(f.as_slice(), s.as_slice());
        let loss: i64 = s[s.len() - 1];
        Ok(advise_crossing(crossing, last.high, loss, last.low, loss))
    } else {
        Err(DiError::Error)
    }
}

/// One advisory rule, with its periods.
#[derive(Debug, Default, Clone, Copy)]
pub enum Counselor {
    #[default]
    Trace,
    MeanReversion(usize),
    MACDCrossover((usize, usize, usize)),
    MACDZeroCross((usize, usize, usize)),
    EMACross((usize, usize)),
}

impl PartialEq for Counselor {
    fn eq(&self, other: &Self) -> (r: bool) {
        match (*self, *other) {
            (Counselor::Trace, Counselor::Trace) => true,
            (Counselor::MeanReversion(a), Counselor::MeanReversion(b)) => a == b,
            (Counselor::MACDCrossover((a, b, c)), Counselor::MACDCrossover((d, e, f))) => a == d
                && b == e && c == f,
            (Counselor::MACDZeroCross((a, b, c)), Counselor::MACDZeroCross((d, e, f))) => a == d
                && b == e && c == f,
            (Counselor::EMACross((a, b)), Counselor::EMACross((c, d))) => a == c && b == d,
            _ => false,
        }
    }
}

impl vstd::std_specs::cmp::PartialEqSpecImpl for Counselor {
    open spec fn obeys_eq_spec() -> bool {
        true
    }

    open spec fn eq_spec(&self, other: &Self) -> bool {
        *self == *other
    }
}

impl Eq for Counselor {

}

/// Three numbers in a text: `(a, b, c)`.
pub open spec fn triple_text(a: usize, b: usize, c: usize) -> Seq<char> {
    "("@ + decimal(a as nat) + ", "@ + decimal(b as nat) + ", "@ + decimal(c as nat) + ")"@
}

impl Counselor {
    /// The number of samples that the rule looks back on.
    pub open spec fn lookback(self) -> usize {
        match self {
            Counselor::Trace => 0,
            Counselor::MeanReversion(n) => n,
            Counselor::MACDCrossover((_, sp, _)) => sp,
            Counselor::MACDZeroCross((_, sp, _)) => sp,
            Counselor::EMACross((_, sp)) => sp,
        }
    }

    /// The indicators that the rule reads.
    pub open spec fn recipes(self) -> Seq<Indicator> {
        match self {
            Counselor::MeanReversion(n) => seq![Indicator::BollingerBands((n, BAND_WIDTH))],
            Counselor::MACDCrossover(p) => seq![Indicator::MovingAverageConvergenceDivergence(p)],
            Counselor::MACDZeroCross(p) => seq![Indicator::MovingAverageConvergenceDivergence(p)],
            Counselor::EMACross((fp, sp)) => seq![
                Indicator::ExponentialMovingAverage(fp),
                Indicator::ExponentialMovingAverage(sp),
            ],
            Counselor::Trace => Seq::empty(),
        }
    }

    /// The rule's name with its periods.
    pub open spec fn label(self) -> Seq<char> {
        match self {
            Counselor::Trace => "trace"@,
            Counselor::MeanReversion(n) => "mean-reversion("@ + decimal(n as nat) + ")"@,
            Counselor::MACDCrossover((fp, sp, ss)) => "macd-crossover"@ + triple_text(fp, sp, ss),
            Counselor::MACDZeroCross((fp, sp, ss)) => "macd-zero-cross"@ + triple_text(fp, sp, ss),
            Counselor::EMACross((fp, sp)) => "ema-cross("@ + decimal(fp as nat) + ", "@ + decimal(
                sp as nat,
            ) + ")"@,
        }
    }

    /// Whether the rule can work on a history of `len` samples: the trace
    /// rule always, every other rule on a history that is not empty and no
    /// shorter than its lookback.
    pub open spec fn has_enough(self, len: nat) -> bool {
        self is Trace || (len > 0 && len >= self.lookback())
    }

    /// What the rule advises for a quote and a history, given the readings
    /// of the indicators. A history that is too short is an error, and so
    /// is a reading that failed or has another shape than the rule's
    /// indicator gives.
    pub open spec fn counsel(
        self,
        quote: QuoteView,
        history: Seq<Sample>,
        readings: Readings,
    ) -> Counsel {
        if !self.has_enough(history.len()) {
            Err(DiErrorView::Error)
        } else {
            match self {
                Counselor::Trace => trace_counsel(quote),
                Counselor::MeanReversion(n) => mean_reversion_counsel(
                    quote,
                    Indicator::BollingerBands((n, BAND_WIDTH)).summary(history, readings),
                ),
                Counselor::MACDCrossover(p) => macd_crossover_counsel(
                    history.last(),
                    readings(Indicator::MovingAverageConvergenceDivergence(p), history),
                ),
                Counselor::MACDZeroCross(p) => macd_zero_cross_counsel(
                    history.last(),
                    readings(Indicator::MovingAverageConvergenceDivergence(p), history),
                ),
                Counselor::EMACross((fp, sp)) => ema_cross_counsel(
                    history.last(),
                    readings(Indicator::ExponentialMovingAverage(fp), history),
                    readings(Indicator::ExponentialMovingAverage(sp), history),
                ),
            }
        }
    }

    /// What the rule advises at place `i` of a series of samples: nothing
    /// before its lookback is reached; from there on, what it advises for
    /// the sample's close as bid and ask, on the samples up to and with it.
    pub open spec fn counsel_at(self, samples: Seq<Sample>, readings: Readings, i: int) -> Counsel {
        if i < self.lookback() {
            Ok(Advice::neutral())
        } else {
            self.counsel(
                QuoteView {
                    token: TokenView::Empty,
                    bid: Some(samples[i].close),
                    ask: Some(samples[i].close),
                    biddate: Date::at(samples[i].timestamp as i64),
                    askdate: Date::at(samples[i].timestamp as i64),
                },
                samples.take(i + 1),
                readings,
            )
        }
    }

    /// The first place at or after `start` at which the rule fails on a
    /// series, or the length of the series where it fails nowhere.
    pub open spec fn first_failure(
        self,
        samples: Seq<Sample>,
        readings: Readings,
        start: int,
    ) -> int
        decreases samples.len() - start,
    {
        if start < 0 || start >= samples.len() {
            samples.len() as int
        } else if self.counsel_at(samples, readings, start).is_err() {
            start
        } else {
            self.first_failure(samples, readings, start + 1)
        }
    }

    /// The number of samples that the rule looks back on.
    pub fn required_samples(&self) -> (r: usize)
        ensures
            r == self.lookback(),
    {
        match self {
            Counselor::Trace => 0,
            Counselor::MeanReversion(n) => *n,
            Counselor::MACDCrossover((_, sp, _)) => *sp,
            Counselor::MACDZeroCross((_, sp, _)) => *sp,
            Counselor::EMACross((_, sp)) => *sp,
        }
    }

    /// Runs the rule on a quote and a history; `engine` computes the
    /// indicators.
    pub fn run<F: Fn(&Indicator, &[Sample]) -> Result<IndicatorData, DiError>>(
        &self,
        quote: &Quote,
        history: &[Sample],
        engine: &F,
    ) -> (r: Result<Advice, DiError>)
        requires
            is_engine(*engine),
        ensures
            counsel_of(r) == self.counsel(quote@, history@, readings_of(*engine)),
    {
        match self {
            Counselor::Trace => run_trace(quote),
            Counselor::MeanReversion(n) => run_mean_reversion(*n, quote, history, engine),
            Counselor::MACDCrossover((fp, sp, ss)) => run_macd_crossover(
                *fp,
                *sp,
                *ss,
                quote,
                history,
                engine,
            ),
            Counselor::MACDZeroCross((fp, sp, ss)) => run_macd_zero_cross(
                *fp,
                *sp,
                *ss,
                quote,
                history,
                engine,
            ),
            Counselor::EMACross((fp, sp)) => run_ema_cross(*fp, *sp, quote, history, engine),
        }
    }

    /// What the rule advises at each sample of a series, looking at the
    /// samples up to and with it: nothing at the samples before the rule's
    /// lookback is reached. The first run that fails is the error of the
    /// whole.
    pub fn run_series<F: Fn(&Indicator, &[Sample]) -> Result<IndicatorData, DiError>>(
        &self,
        samples: &[Sample],
        engine: &F,
    ) -> (r: Result<Vec<Advice>, DiError>)
        requires
            is_engine(*engine),
            forall|i: int|
                0 <= i < samples@.len() ==> (#[trigger] samples@[i]).timestamp <= i64::MAX,
        ensures
            match r {
                Ok(advices) => {
                    &&& self.first_failure(
                        samples@,
                        readings_of(*engine),
                        self.lookback() as int,
                    ) >= samples@.len()
                    &&& advices@.len() == samples@.len()
                    &&& forall|i: int|
                        0 <= i < samples@.len() ==> Ok::<Advice, DiErrorView>(
                            #[trigger] advices@[i],
                        ) == self.counsel_at(samples@, readings_of(*engine), i)
                },
                Err(e) => {
                    let place = self.first_failure(
                        samples@,
                        readings_of(*engine),
                        self.lookback() as int,
                    );
                    &&& place < samples@.len()
                    &&& Err::<Advice, DiErrorView>(e@) == self.counsel_at(
                        samples@,
                        readings_of(*engine),
                        place,
                    )
                },
            },
    {
        let n: usize = self.required_samples();
        let mut advices: Vec<Advice> = Vec::new();
        let mut i: usize = 0;
        while i < samples.len()
            invariant
                is_engine(*engine),
                n == self.lookback(),
                forall|k: int|
                    0 <= k < samples@.len() ==> (#[trigger] samples@[k]).timestamp <= i64::MAX,
                i <= samples@.len(),
                advices@.len() == i,
                self.first_failure(samples@, readings_of(*engine), n as int)
                    == self.first_failure(
                    samples@,
                    readings_of(*engine),
                    if i >= n {
                        i as int
                    } else {
                        n as int
                    },
                ),
                forall|k: int|
                    0 <= k < i ==> Ok::<Advice, DiErrorView>(#[trigger] advices@[k])
                        == self.counsel_at(samples@, readings_of(*engine), k),
            decreases samples@.len() - i,
        {
            if i < n {
                advices.push(Advice::default());
            } else {
                let date: Date = Date::from_timestamp(samples[i].timestamp);
                let quote = Quote {
                    token: Token::default(),
                    bid: Some(samples[i].close),
                    ask: Some(samples[i].close),
                    biddate: date,
                    askdate: date,
                };
                let shown: &[Sample] = &samples[0..i + 1];
                match self.run(&quote, shown, engine) {
                    Ok(advice) => {
                        advices.push(advice);
                    },
                    Err(e) => {
                        return Err(e);
                    },
                }
            }
            i += 1;
        }
        Ok(advices)
    }

    /// The indicators that the rule reads.
    pub fn indicators(&self) -> (r: Vec<Indicator>)
        ensures
            r@ == self.recipes(),
    {
        let mut r: Vec<Indicator> = Vec::new();
        match self {
            Counselor::MeanReversion(n) => {
                r.push(Indicator::BollingerBands((*n, BAND_WIDTH)));
            },
            Counselor::MACDCrossover((fp, sp, ss)) => {
                r.push(Indicator::MovingAverageConvergenceDivergence((*fp, *sp, *ss)));
            },
            Counselor::MACDZeroCross((fp, sp, ss)) => {
                r.push(Indicator::MovingAverageConvergenceDivergence((*fp, *sp, *ss)));
            },
            Counselor::EMACross((fp, sp)) => {
                r.push(Indicator::ExponentialMovingAverage(*fp));
                r.push(Indicator::ExponentialMovingAverage(*sp));
            },
            _ => {},
        }
        r
    }

    /// The rule's name with its periods.
    pub fn name(&self) -> (r: String)
        ensures
            r@ == self.label(),
    {
        match self {
            Counselor::Trace => String::from_str("trace"),
            Counselor::MeanReversion(n) => {
                let mut text: String = String::from_str("mean-reversion(");
                text.append(decimal_text(*n as u64).as_str());
                text.append(")");
                text
            },
            Counselor::MACDCrossover((fp, sp, ss)) => {
                let mut text: String = String::from_str("macd-crossover");
                text.append(triple(*fp, *sp, *ss).as_str());
                text
            },
            Counselor::MACDZeroCross((fp, sp, ss)) => {
                let mut text: String = String::from_str("macd-zero-cross");
                text.append(triple(*fp, *sp, *ss).as_str());
                text
            },
            Counselor::EMACross((fp, sp)) => {
                let mut text: String = String::from_str("ema-cross(");
                text.append(decimal_text(*fp as u64).as_str());
                text.append(", ");
                text.append(decimal_text(*sp as u64).as_str());
                text.append(")");
                text
            },
        }
    }
}

fn triple(a: usize, b: usize, c: usize) -> (r: String)
    ensures
        r@ == triple_text(a, b, c),
{
    let mut text: String = String::from_str("(");
    text.append(decimal_text(a as u64).as_str());
    text.append(", ");
    text.append(decimal_text(b as u64).as_str());
    text.append(", ");
    text.append(decimal_text(c as u64).as_str());
    text.append(")");
    text
}

/// Mean reversion over `n` samples, on the summary of the bands.
pub fn run_mean_reversion<F: Fn(&Indicator, &[Sample]) -> Result<IndicatorData, DiError>>(
    n: usize,
    quote: &Quote,
    history: &[Sample],
    engine: &F,
) -> (r: Result<Advice, DiError>)
    requires
        is_engine(*engine),
    ensures
        counsel_of(r) == Counselor::MeanReversion(n).counsel(
            quote@,
            history@,
            readings_of(*engine),
        ),
{
    if history.len() == 0 || history.len() < n {
        return Err(DiError::Error);
    }
    let bands = Indicator::BollingerBands((n, BAND_WIDTH)).compute(history, engine);
    advise_mean_reversion(quote, bands)
}

/// The MACD crossover rule: the lines are asked of the engine as series.
pub fn run_macd_crossover<F: Fn(&Indicator, &[Sample]) -> Result<IndicatorData, DiError>>(
    fast_period: usize,
    slow_period: usize,
    signal_period: usize,
    _quote: &Quote,
    history: &[Sample],
    engine: &F,
) -> (r: Result<Advice, DiError>)
    requires
        is_engine(*engine),
    ensures
        counsel_of(r) == Counselor::MACDCrossover(
            (fast_period, slow_period, signal_period),
        ).counsel(_quote@, history@, readings_of(*engine)),
{
    if history.len() == 0 || history.len() < slow_period {
        return Err(DiError::Error);
    }
    let lines = consult(
        engine,
        &Indicator::MovingAverageConvergenceDivergence((fast_period, slow_period, signal_period)),
        history,
    );
    advise_macd_crossover(&history[history.len() - 1], lines)
}

/// The MACD zero-cross rule: the lines are asked of the engine as series.
pub fn run_macd_zero_cross<F: Fn(&Indicator, &[Sample]) -> Result<IndicatorData, DiError>>(
    fast_period: usize,
    slow_period: usize,
    signal_period: usize,
    _quote: &Quote,
    history: &[Sample],
    engine: &F,
) -> (r: Result<Advice, DiError>)
    requires
        is_engine(*engine),
    ensures
        counsel_of(r) == Counselor::MACDZeroCross(
            (fast_period, slow_period, signal_period),
        ).counsel(_quote@, history@, readings_of(*engine)),
{
    if history.len() == 0 || history.len() < slow_period {
        return Err(DiError::Error);
    }
    let lines = consult(
        engine,
        &Indicator::MovingAverageConvergenceDivergence((fast_period, slow_period, signal_period)),
        history,
    );
    advise_macd_zero_cross(&history[history.len() - 1], lines)
}

/// The EMA cross rule: both averages are asked of the engine as series.
pub fn run_ema_cross<F: Fn(&Indicator, &[Sample]) -> Result<IndicatorData, DiError>>(
    fast_period: usize,
    slow_period: usize,
    _quote: &Quote,
    history: &[Sample],
    engine: &F,
) -> (r: Result<Advice, DiError>)
    requires
        is_engine(*engine),
    ensures
        counsel_of(r) == Counselor::EMACross((fast_period, slow_period)).counsel(
            _quote@,
            history@,
            readings_of(*engine),
        ),
{
    if history.len() == 0 || history.len() < slow_period {
        return Err(DiError::Error);
    }
    let fast = consult(engine, &Indicator::ExponentialMovingAverage(fast_period), history);
    let slow = consult(engine, &Indicator::ExponentialMovingAverage(slow_period), history);
    advise_ema_cross(&history[history.len() - 1], fast, slow)
}

/// The counselor that a command names. `keyword` is the command's first
/// word in upper case, `words` are all its words: the periods follow the
/// first. Mean reversion takes one period and no further word; the MACD
/// rules take three periods, the EMA rule two.
pub open spec fn counselor_named(keyword: Seq<char>, words: Seq<&str>) -> Option<Counselor> {
    if keyword == "MEAN-REVERSION"@ {
        if words.len() == 2 && period_at(words, 1).is_some() {
            Some(Counselor::MeanReversion(period_at(words, 1).unwrap()))
        } else {
            None
        }
    } else if keyword == "MACD-CROSSOVER"@ {
        if period_at(words, 1).is_some() && period_at(words, 2).is_some() && period_at(
            words,
            3,
        ).is_some() {
            Some(
                Counselor::MACDCrossover(
                    (
                        period_at(words, 1).unwrap(),
                        period_at(words, 2).unwrap(),
                        period_at(words, 3).unwrap(),
                    ),
                ),
            )
        } else {
            None
        }
    } else if keyword == "MACD-ZERO-CROSS"@ {
        if period_at(words, 1).is_some() && period_at(words, 2).is_some() && period_at(
            words,
            3,
        ).is_some() {
            Some(
                Counselor::MACDZeroCross(
                    (
                        period_at(words, 1).unwrap(),
                        period_at(words, 2).unwrap(),
                        period_at(words, 3).unwrap(),
                    ),
                ),
            )
        } else {
            None
        }
    } else if keyword == "EMA-CROSS"@ {
        if period_at(words, 1).is_some() && period_at(words, 2).is_some() {
            Some(
                Counselor::EMACross((period_at(words, 1).unwrap(), period_at(words, 2).unwrap())),
            )
        } else {
            None
        }
    } else if keyword == "TRACE"@ {
        Some(Counselor::Trace)
    } else {
        None
    }
}

/// The counselor that a command names, given its first word in upper case.
pub fn counselor_from_keyword(keyword: &str, words: &[&str]) -> (r: Option<Counselor>)
    ensures
        r == counselor_named(keyword@, words@),
{
    if same_text(keyword, "MEAN-REVERSION") {
        if words.len() == 2 {
            if let Some(n) = read_period(words, 1) {
                return Some(Counselor::MeanReversion(n));
            }
        }
        None
    } else if same_text(keyword, "MACD-CROSSOVER") {
        if let (Some(fp), Some(sp), Some(ss)) = (
            read_period(words, 1),
            read_period(words, 2),
            read_period(words, 3),
        ) {
            return Some(Counselor::MACDCrossover((fp, sp, ss)));
        }
        None
    } else if same_text(keyword, "MACD-ZERO-CROSS") {
        if let (Some(fp), Some(sp), Some(ss)) = (
            read_period(words, 1),
            read_period(words, 2),
            read_period(words, 3),
        ) {
            return Some(Counselor::MACDZeroCross((fp, sp, ss)));
        }
        None
    } else if same_text(keyword, "EMA-CROSS") {
        if let (Some(fp), Some(sp)) = (read_period(words, 1), read_period(words, 2)) {
            return Some(Counselor::EMACross((fp, sp)));
        }
        None
    } else if same_text(keyword, "TRACE") {
        Some(Counselor::Trace)
    } else {
        None
    }
}

/// Reads a counselor from the words of a command. The first word names
/// the rule, in upper or lower case.
pub fn match_oracle_from_text(words: &[&str]) -> (r: Option<Counselor>)
    ensures
        words@.len() == 0 ==> r.is_none(),
        words@.len() > 0 ==> r == counselor_named(uppercase(words@[0]@), words@),
{
    if words.len() == 0 {
        return None;
    }
    let keyword: String = to_upper(words[0]);
    counselor_from_keyword(keyword.as_str(), words)
}

} // verus!

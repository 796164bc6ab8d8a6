//! The recipes of the indicators, what the indicators give, and the engine that computes them.

use crate::decimal::{fixed_label, fixed_text, parse_fixed, parsed_fixed};
use crate::finance::{DiError, DiErrorView, Sample};
use crate::fixed::SCALE;
use crate::text::{decimal, decimal_text, period_at, read_period, same_text, to_upper, uppercase};
use vstd::prelude::*;

verus! {

/// What an indicator is computed from.
#[derive(Debug, Clone, Copy, PartialEq, Eq, Structural)]
pub enum IndicatorSource {
    Candle,
    Volume,
}

/// The scale on which an indicator's values lie.
#[derive(Debug, Default, Clone, Copy, PartialEq, Eq, Structural)]
pub enum IndicatorDomain {
    Percent,
    Unit,
    Cartesian,
    #[default]
    Price,
    Volume,
}

/// The recipe of an indicator: which one, and with which parameters. Widths
/// are fixed-point numbers.
#[derive(Debug, Clone, Copy)]
pub enum Indicator {
    ExponentialMovingAverage(usize),
    SimpleMovingAverage(usize),
    StandardDeviation(usize),
    RelativeStrengthIndex(usize),
    BollingerBands((usize, i64)),
    MovingAverageConvergenceDivergence((usize, usize, usize)),
    SupportLines(i64),
    ResistanceLines(i64),
}

impl PartialEq for Indicator {
    fn eq(&self, other: &Self) -> (r: bool) {
        match (*self, *other) {
            (Indicator::ExponentialMovingAverage(a), Indicator::ExponentialMovingAverage(b)) => a
                == b,
            (Indicator::SimpleMovingAverage(a), Indicator::SimpleMovingAverage(b)) => a == b,
            (Indicator::StandardDeviation(a), Indicator::StandardDeviation(b)) => a == b,
            (Indicator::RelativeStrengthIndex(a), Indicator::RelativeStrengthIndex(b)) => a == b,
            (Indicator::BollingerBands((n, w)), Indicator::BollingerBands((m, v))) => n == m && w
                == v,
            (
                Indicator::MovingAverageConvergenceDivergence((a, b, c)),
                Indicator::MovingAverageConvergenceDivergence((d, e, f)),
            ) => a == d && b == e && c == f,
            (Indicator::SupportLines(a), Indicator::SupportLines(b)) => a == b,
            (Indicator::ResistanceLines(a), Indicator::ResistanceLines(b)) => a == b,
            _ => false,
        }
    }
}

impl vstd::std_specs::cmp::PartialEqSpecImpl for Indicator {
    open spec fn obeys_eq_spec() -> bool {
        true
    }

    open spec fn eq_spec(&self, other: &Self) -> bool {
        *self == *other
    }
}

impl Eq for Indicator {

}

impl Default for Indicator {
    fn default() -> (r: Self)
        ensures
            r == Indicator::SimpleMovingAverage(0),
    {
        Indicator::SimpleMovingAverage(0)
    }
}

impl Indicator {
    /// What the indicator is computed from.
    pub open spec fn input(self) -> IndicatorSource {
        match self {
            Indicator::RelativeStrengthIndex(_) => IndicatorSource::Volume,
            _ => IndicatorSource::Candle,
        }
    }

    /// The scale on which the indicator's values lie.
    pub open spec fn scale(self) -> IndicatorDomain {
        match self {
            Indicator::StandardDeviation(_) => IndicatorDomain::Cartesian,
            Indicator::MovingAverageConvergenceDivergence(_) => IndicatorDomain::Cartesian,
            Indicator::RelativeStrengthIndex(_) => IndicatorDomain::Percent,
            _ => IndicatorDomain::Price,
        }
    }

    /// The indicator's short name with its parameters.
    pub open spec fn label(self) -> Seq<char> {
        match self {
            Indicator::ExponentialMovingAverage(n) => "EMA "@ + decimal(n as nat),
            Indicator::SimpleMovingAverage(n) => "SMA "@ + decimal(n as nat),
            Indicator::StandardDeviation(n) => "sdev "@ + decimal(n as nat),
            Indicator::RelativeStrengthIndex(n) => "rsi "@ + decimal(n as nat),
            Indicator::BollingerBands((n, w)) => "B-Bands "@ + decimal(n as nat) + " "@
                + fixed_label(w as int),
            Indicator::MovingAverageConvergenceDivergence((fp, sp, ss)) => "MACD "@ + decimal(
                fp as nat,
            ) + " "@ + decimal(sp as nat) + " "@ + decimal(ss as nat),
            Indicator::ResistanceLines(w) => "RL "@ + fixed_label(w as int),
            Indicator::SupportLines(w) => "SL "@ + fixed_label(w as int),
        }
    }

    /// The indicator's short name with its parameters.
    pub fn to_string(&self) -> (r: String)
        ensures
            r@ == self.label(),
    {
        match self {
            Indicator::ExponentialMovingAverage(n) => {
                let mut text: String = String::from_str("EMA ");
                text.append(decimal_text(*n as u64).as_str());
                text
            },
            Indicator::SimpleMovingAverage(n) => {
                let mut text: String = String::from_str("SMA ");
                text.append(decimal_text(*n as u64).as_str());
                text
            },
            Indicator::StandardDeviation(n) => {
                let mut text: String = String::from_str("sdev ");
                text.append(decimal_text(*n as u64).as_str());
                text
            },
            Indicator::RelativeStrengthIndex(n) => {
                let mut text: String = String::from_str("rsi ");
                text.append(decimal_text(*n as u64).as_str());
                text
            },
            Indicator::BollingerBands((n, w)) => {
                let mut text: String = String::from_str("B-Bands ");
                text.append(decimal_text(*n as u64).as_str());
                text.append(" ");
                text.append(fixed_text(*w).as_str());
                text
            },
            Indicator::MovingAverageConvergenceDivergence((fp, sp, ss)) => {
                let mut text: String = String::from_str("MACD ");
                text.append(decimal_text(*fp as u64).as_str());
                text.append(" ");
                text.append(decimal_text(*sp as u64).as_str());
                text.append(" ");
                text.append(decimal_text(*ss as u64).as_str());
                text
            },
            Indicator::ResistanceLines(w) => {
                let mut text: String = String::from_str("RL ");
                text.append(fixed_text(*w).as_str());
                text
            },
            Indicator::SupportLines(w) => {
                let mut text: String = String::from_str("SL ");
                text.append(fixed_text(*w).as_str());
                text
            },
        }
    }

    /// What the indicator is computed from.
    pub fn source(&self) -> (r: IndicatorSource)
        ensures
            r == self.input(),
    {
        match self {
            Indicator::ExponentialMovingAverage(_) => IndicatorSource::Candle,
            Indicator::SimpleMovingAverage(_) => IndicatorSource::Candle,
            Indicator::StandardDeviation(_) => IndicatorSource::Candle,
            Indicator::RelativeStrengthIndex(_) => IndicatorSource::Volume,
            Indicator::BollingerBands(_) => IndicatorSource::Candle,
            Indicator::MovingAverageConvergenceDivergence(_) => IndicatorSource::Candle,
            Indicator::ResistanceLines(_) => IndicatorSource::Candle,
            Indicator::SupportLines(_) => IndicatorSource::Candle,
        }
    }

    /// The scale on which the indicator's values lie.
    pub fn domain(&self) -> (r: IndicatorDomain)
        ensures
            r == self.scale(),
    {
        match self {
            Indicator::ExponentialMovingAverage(_) => IndicatorDomain::Price,
            Indicator::SimpleMovingAverage(_) => IndicatorDomain::Price,
            Indicator::StandardDeviation(_) => IndicatorDomain::Cartesian,
            Indicator::RelativeStrengthIndex(_) => IndicatorDomain::Percent,
            Indicator::BollingerBands(_) => IndicatorDomain::Price,
            Indicator::MovingAverageConvergenceDivergence(_) => IndicatorDomain::Cartesian,
            Indicator::SupportLines(_) => IndicatorDomain::Price,
            Indicator::ResistanceLines(_) => IndicatorDomain::Price,
        }
    }
}

/// The width of the bands that a command asks for: two standard
/// deviations.
pub const DEFAULT_BAND_WIDTH: i64 = 2 * SCALE;

/// The width that the word at place `i` stands for, if there is such a
/// word and it is a decimal number that an amount can hold.
pub open spec fn width_at(words: Seq<&str>, i: int) -> Option<i64> {
    if 0 <= i < words.len() {
        parsed_fixed(words[i]@)
    } else {
        None
    }
}

/// The indicator that a command names. `keyword` is the command's first
/// word in upper case, `words` are all its words: the parameters follow
/// the first. The averages, the deviation and the strength index take
/// one period and no further word; MACD takes three periods, the bands
/// one, the lines a width.
pub open spec fn indicator_named(keyword: Seq<char>, words: Seq<&str>) -> Option<Indicator> {
    if keyword == "RSI"@ {
        if words.len() == 2 && period_at(words, 1).is_some() {
            Some(Indicator::RelativeStrengthIndex(period_at(words, 1).unwrap()))
        } else {
            None
        }
    } else if keyword == "EMA"@ {
        if words.len() == 2 && period_at(words, 1).is_some() {
            Some(Indicator::ExponentialMovingAverage(period_at(words, 1).unwrap()))
        } else {
            None
        }
    } else if keyword == "SMA"@ {
        if words.len() == 2 && period_at(words, 1).is_some() {
            Some(Indicator::SimpleMovingAverage(period_at(words, 1).unwrap()))
        } else {
            None
        }
    } else if keyword == "SDEV"@ {
        if words.len() == 2 && period_at(words, 1).is_some() {
            Some(Indicator::StandardDeviation(period_at(words, 1).unwrap()))
        } else {
            None
        }
    } else if keyword == "MACD"@ {
        if period_at(words, 1).is_some() && period_at(words, 2).is_some() && period_at(
            words,
            3,
        ).is_some() {
            Some(
                Indicator::MovingAverageConvergenceDivergence(
                    (
                        period_at(words, 1).unwrap(),
                        period_at(words, 2).unwrap(),
                        period_at(words, 3).unwrap(),
                    ),
                ),
            )
        } else {
            None
        }
    } else if keyword == "BBANDS"@ {
        if period_at(words, 1).is_some() {
            Some(Indicator::BollingerBands((period_at(words, 1).unwrap(), DEFAULT_BAND_WIDTH)))
        } else {
            None
        }
    } else if keyword == "RL"@ {
        if width_at(words, 1).is_some() {
            Some(Indicator::ResistanceLines(width_at(words, 1).unwrap()))
        } else {
            None
        }
    } else if keyword == "SL"@ {
        if width_at(words, 1).is_some() {
            Some(Indicator::SupportLines(width_at(words, 1).unwrap()))
        } else {
            None
        }
    } else {
        None
    }
}

/// Reads the width at place `i` of a command's words.
pub fn read_width(words: &[&str], i: usize) -> (r: Option<i64>)
    ensures
        r == width_at(words@, i as int),
{
    if i < words.len() {
        parse_fixed(words[i])
    } else {
        None
    }
}

/// The indicator of one period that a command names.
fn with_period(words: &[&str]) -> (r: Option<usize>)
    ensures
        r == if words@.len() == 2 {
            period_at(words@, 1)
        } else {
            None
        },
{
    if words.len() == 2 {
        read_period(words, 1)
    } else {
        None
    }
}

/// The indicator that a command names, given its first word in upper case.
pub fn indicator_from_keyword(keyword: &str, words: &[&str]) -> (r: Option<Indicator>)
    ensures
        r == indicator_named(keyword@, words@),
{
    if same_text(keyword, "RSI") {
        match with_period(words) {
            Some(n) => Some(Indicator::RelativeStrengthIndex(n)),
            None => None,
        }
    } else if same_text(keyword, "EMA") {
        match with_period(words) {
            Some(n) => Some(Indicator::ExponentialMovingAverage(n)),
            None => None,
        }
    } else if same_text(keyword, "SMA") {
        match with_period(words) {
            Some(n) => Some(Indicator::SimpleMovingAverage(n)),
            None => None,
        }
    } else if same_text(keyword, "SDEV") {
        match with_period(words) {
            Some(n) => Some(Indicator::StandardDeviation(n)),
            None => None,
        }
    } else if same_text(keyword, "MACD") {
        if let (Some(fp), Some(sp), Some(ss)) = (
            read_period(words, 1),
            read_period(words, 2),
            read_period(words, 3),
        ) {
            return Some(Indicator::MovingAverageConvergenceDivergence((fp, sp, ss)));
        }
        None
    } else if same_text(keyword, "BBANDS") {
        match read_period(words, 1) {
            Some(n) => Some(Indicator::BollingerBands((n, DEFAULT_BAND_WIDTH))),
            None => None,
        }
    } else if same_text(keyword, "RL") {
        match read_width(words, 1) {
            Some(w) => Some(Indicator::ResistanceLines(w)),
            None => None,
        }
    } else if same_text(keyword, "SL") {
        match read_width(words, 1) {
            Some(w) => Some(Indicator::SupportLines(w)),
            None => None,
        }
    } else {
        None
    }
}

/// Reads an indicator from the words of a command. The first word names
/// the indicator, in upper or lower case.
pub fn match_indicator_from_text(words: &[&str]) -> (r: Option<Indicator>)
    ensures
        words@.len() == 0 ==> r.is_none(),
        words@.len() > 0 ==> r == indicator_named(uppercase(words@[0]@), words@),
{
    if words.len() == 0 {
        return None;
    }
    let keyword: String = to_upper(words[0]);
    indicator_from_keyword(keyword.as_str(), words)
}

/// A set of indicators, in the order in which they were added.
#[derive(Debug)]
pub struct Indicators {
    pub indicators: Vec<Indicator>,
}

impl Default for Indicators {
    fn default() -> (r: Self)
        ensures
            r.indicators@.len() == 0,
    {
        Indicators { indicators: Vec::new() }
    }
}

impl Indicators {
    /// Adds an indicator, unless the set holds it already.
    pub fn add(&mut self, indicator: &Indicator)
        ensures
            old(self).indicators@.contains(*indicator) ==> final(self).indicators@ == old(
                self,
            ).indicators@,
            !old(self).indicators@.contains(*indicator) ==> final(self).indicators@ == old(
                self,
            ).indicators@.push(*indicator),
    {
        let mut i: usize = 0;
        while i < self.indicators.len()
            invariant
                i <= self.indicators@.len(),
                self.indicators@ == old(self).indicators@,
                forall|j: int| 0 <= j < i ==> self.indicators@[j] != *indicator,
            decreases self.indicators@.len() - i,
        {
            if self.indicators[i] == *indicator {
                return ;
            }
            i += 1;
        }
        self.indicators.push(*indicator);
    }
}

/// What an indicator gives: one value, one series, or several series. The
/// values are fixed-point numbers.
#[derive(Debug, PartialEq, Eq)]
pub enum IndicatorData {
    Scalar(i64),
    Vector(Vec<i64>),
    Matrix(Vec<Vec<i64>>),
}

/// An `IndicatorData` with its series as sequences.
pub ghost enum IndicatorDataView {
    Scalar(i64),
    Vector(Seq<i64>),
    Matrix(Seq<Seq<i64>>),
}

impl View for IndicatorData {
    type V = IndicatorDataView;

    open spec fn view(&self) -> IndicatorDataView {
        match self {
            IndicatorData::Scalar(v) => IndicatorDataView::Scalar(*v),
            IndicatorData::Vector(v) => IndicatorDataView::Vector(v@),
            IndicatorData::Matrix(m) => IndicatorDataView::Matrix(m.deep_view()),
        }
    }
}

/// What a computation of an indicator gives, as a value of specifications.
pub type Reading = Result<IndicatorDataView, DiErrorView>;

/// For every recipe and history: the series that the indicator gives over
/// that history, one value for each sample.
pub type Readings = spec_fn(Indicator, Seq<Sample>) -> Reading;

/// The reading that a computation's result stands for.
pub open spec fn reading_of(r: Result<IndicatorData, DiError>) -> Reading {
    match r {
        Ok(data) => Ok(data@),
        Err(e) => Err(e@),
    }
}

/// Whether `f` computes indicators: it accepts every recipe and history,
/// and what it gives depends on nothing but the recipe and the samples.
pub open spec fn is_engine<F: Fn(&Indicator, &[Sample]) -> Result<IndicatorData, DiError>>(
    f: F,
) -> bool {
    &&& forall|i: &Indicator, h: &[Sample]| #[trigger] f.requires((i, h))
    &&& forall|
        i1: &Indicator,
        i2: &Indicator,
        h1: &[Sample],
        h2: &[Sample],
        r1: Result<IndicatorData, DiError>,
        r2: Result<IndicatorData, DiError>,
    |
        #[trigger] f.ensures((i1, h1), r1) && #[trigger] f.ensures((i2, h2), r2) && *i1 == *i2
            && h1@ == h2@ ==> reading_of(r1) == reading_of(r2)
}

/// Whether `v` is what `f` reads for the recipe `i` over the history `h`.
pub open spec fn reads<F: Fn(&Indicator, &[Sample]) -> Result<IndicatorData, DiError>>(
    f: F,
    i: Indicator,
    h: Seq<Sample>,
    v: Reading,
) -> bool {
    exists|hs: &[Sample], r: Result<IndicatorData, DiError>|
        hs@ == h && #[trigger] f.ensures((&i, hs), r) && v == reading_of(r)
}

/// The readings of the engine `f`.
pub open spec fn readings_of<F: Fn(&Indicator, &[Sample]) -> Result<IndicatorData, DiError>>(
    f: F,
) -> Readings {
    |i: Indicator, h: Seq<Sample>| choose|v: Reading| reads(f, i, h, v)
}

/// Asks the engine for the series of one indicator over one history.
pub fn consult<F: Fn(&Indicator, &[Sample]) -> Result<IndicatorData, DiError>>(
    engine: &F,
    indicator: &Indicator,
    history: &[Sample],
) -> (r: Result<IndicatorData, DiError>)
    requires
        is_engine(*engine),
    ensures
        reading_of(r) == readings_of(*engine)(*indicator, history@),
{
    let r = engine(indicator, history);
    proof {
        assert(reads(*engine, *indicator, history@, reading_of(r)));
        let v = choose|v: Reading| reads(*engine, *indicator, history@, v);
        let (hs, r2) = choose|hs: &[Sample], r2: Result<IndicatorData, DiError>|
            hs@ == history@ && #[trigger] engine.ensures((indicator, hs), r2) && v == reading_of(
                r2,
            );
    }
    r
}

/// The last `n` samples of a history, or all of them where there are
/// fewer.
pub open spec fn last_samples(samples: Seq<Sample>, n: usize) -> Seq<Sample> {
    if n >= samples.len() {
        samples
    } else {
        samples.subrange(samples.len() - n, samples.len() as int)
    }
}

/// Whether a matrix has `rows` series at least, and none of the first
/// `rows` is empty.
pub open spec fn has_rows(m: Seq<Seq<i64>>, rows: int) -> bool {
    m.len() >= rows && forall|i: int| 0 <= i < rows ==> (#[trigger] m[i]).len() > 0
}

/// The last value of each of the first `rows` series, each as a series of
/// its own.
pub open spec fn last_of_each(m: Seq<Seq<i64>>, rows: int) -> Seq<Seq<i64>> {
    Seq::new(rows as nat, |i: int| seq![m[i].last()])
}

/// The summary of one series: its last value, and zero where it is empty.
/// A reading of another shape is an error.
pub open spec fn last_value(series: Reading) -> Reading {
    match series {
        Ok(IndicatorDataView::Vector(v)) => Ok(
            IndicatorDataView::Scalar(
                if v.len() > 0 {
                    v.last()
                } else {
                    0
                },
            ),
        ),
        Ok(_) => Err(DiErrorView::Error),
        Err(e) => Err(e),
    }
}

/// The summary of several series: the last value of each of the first
/// `rows`. A reading of another shape, or with a series among these that
/// is empty or missing, is an error.
pub open spec fn last_values(series: Reading, rows: int) -> Reading {
    match series {
        Ok(IndicatorDataView::Matrix(m)) => if has_rows(m, rows) {
            Ok(IndicatorDataView::Matrix(last_of_each(m, rows)))
        } else {
            Err(DiErrorView::Error)
        },
        Ok(_) => Err(DiErrorView::Error),
        Err(e) => Err(e),
    }
}

/// Sums up one series that was read already.
pub fn summarize_vector(series: Result<IndicatorData, DiError>) -> (r: Result<
    IndicatorData,
    DiError,
>)
    ensures
        reading_of(r) == last_value(reading_of(series)),
{
    match series {
        Ok(IndicatorData::Vector(v)) => {
            if v.len() > 0 {
                Ok(IndicatorData::Scalar(v[v.len() - 1]))
            } else {
                Ok(IndicatorData::Scalar(0))
            }
        },
        Ok(_) => Err(DiError::Error),
        Err(e) => Err(e),
    }
}

/// Sums up the first `rows` of several series that were read already.
pub fn summarize_matrix(series: Result<IndicatorData, DiError>, rows: usize) -> (r: Result<
    IndicatorData,
    DiError,
>)
    ensures
        reading_of(r) == last_values(reading_of(series), rows as int),
{
    let ghost given = reading_of(series);
    match series {
        Ok(IndicatorData::Matrix(m)) => {
            if m.len() < rows {
                return Err(DiError::Error);
            }
            let mut r: Vec<Vec<i64>> = Vec::new();
            let mut i: usize = 0;
            while i < rows
                invariant
                    i <= rows <= m@.len(),
                    r@.len() == i,
                    given == Ok::<IndicatorDataView, DiErrorView>(
                        IndicatorDataView::Matrix(m.deep_view()),
                    ),
                    given == reading_of(series),
                    forall|j: int| 0 <= j < i ==> (#[trigger] m.deep_view()[j]).len() > 0,
                    forall|j: int|
                        0 <= j < i ==> (#[trigger] r@[j])@ == seq![m.deep_view()[j].last()],
                decreases rows - i,
            {
                assert(m.deep_view()[i as int] == m[i as int]@);
                if m[i].len() == 0 {
                    return Err(DiError::Error);
                }
                let last: i64 = m[i][m[i].len() - 1];
                let mut row: Vec<i64> = Vec::new();
                row.push(last);
                r.push(row);
                i += 1;
            }
            assert(r.deep_view() =~= last_of_each(m.deep_view(), rows as int)) by {
                assert forall|j: int| 0 <= j < rows implies r.deep_view()[j] == last_of_each(
                    m.deep_view(),
                    rows as int,
                )[j] by {}
            }
            Ok(IndicatorData::Matrix(r))
        },
        Ok(_) => Err(DiError::Error),
        Err(e) => Err(e),
    }
}

impl Indicator {
    /// What the indicator gives in sum over a history, given the series
    /// that it gives over every history. An average, a deviation and a
    /// strength index give the last value of their series over the last
    /// samples of their period. The bands give the last value of each of
    /// their three series over the last samples of their period, MACD the
    /// last value of each of its two lines over the last samples of its
    /// slow period. For all of these a history shorter than the period is
    /// an error. The lines give their series whole.
    pub open spec fn summary(self, samples: Seq<Sample>, readings: Readings) -> Reading {
        match self {
            Indicator::ExponentialMovingAverage(n) => self.period_summary(n, samples, readings),
            Indicator::SimpleMovingAverage(n) => self.period_summary(n, samples, readings),
            Indicator::StandardDeviation(n) => self.period_summary(n, samples, readings),
            Indicator::RelativeStrengthIndex(n) => self.period_summary(n, samples, readings),
            Indicator::BollingerBands((n, _)) => if n > samples.len() {
                Err(DiErrorView::Error)
            } else {
                last_values(readings(self, last_samples(samples, n)), 3)
            },
            Indicator::MovingAverageConvergenceDivergence((_, sp, _)) => if sp > samples.len() {
                Err(DiErrorView::Error)
            } else {
                last_values(readings(self, last_samples(samples, sp)), 2)
            },
            Indicator::ResistanceLines(_) => readings(self, samples),
            Indicator::SupportLines(_) => readings(self, samples),
        }
    }

    /// The last value of the indicator's series over the last `n` samples.
    pub open spec fn period_summary(
        self,
        n: usize,
        samples: Seq<Sample>,
        readings: Readings,
    ) -> Reading {
        if n > samples.len() {
            Err(DiErrorView::Error)
        } else {
            last_value(readings(self, last_samples(samples, n)))
        }
    }

    /// One value per sample of the history, as the engine computes it.
    pub fn compute_series<F: Fn(&Indicator, &[Sample]) -> Result<IndicatorData, DiError>>(
        &self,
        samples: &[Sample],
        engine: &F,
    ) -> (r: Result<IndicatorData, DiError>)
        requires
            is_engine(*engine),
        ensures
            reading_of(r) == readings_of(*engine)(*self, samples@),
    {
        match self {
            Indicator::BollingerBands((n, w)) => bollinger_bands_s(*n, *w, samples, engine),
            Indicator::MovingAverageConvergenceDivergence((fp, sp, ss)) => macd_s(
                *fp,
                *sp,
                *ss,
                samples,
                engine,
            ),
            Indicator::ResistanceLines(w) => resistance_lines(*w, false, samples, engine),
            Indicator::SupportLines(w) => resistance_lines(*w, true, samples, engine),
            _ => consult(engine, self, samples),
        }
    }

    /// One summary of the history; `engine` computes the series.
    pub fn compute<F: Fn(&Indicator, &[Sample]) -> Result<IndicatorData, DiError>>(
        &self,
        samples: &[Sample],
        engine: &F,
    ) -> (r: Result<IndicatorData, DiError>)
        requires
            is_engine(*engine),
        ensures
            reading_of(r) == self.summary(samples@, readings_of(*engine)),
    {
        match self {
            Indicator::ExponentialMovingAverage(n) => self.compute_last(*n, samples, engine),
            Indicator::SimpleMovingAverage(n) => self.compute_last(*n, samples, engine),
            Indicator::StandardDeviation(n) => self.compute_last(*n, samples, engine),
            Indicator::RelativeStrengthIndex(n) => self.compute_last(*n, samples, engine),
            Indicator::BollingerBands((n, w)) => bollinger_bands(*n, *w, samples, engine),
            Indicator::MovingAverageConvergenceDivergence((fp, sp, ss)) => macd(
                *fp,
                *sp,
                *ss,
                samples,
                engine,
            ),
            Indicator::ResistanceLines(w) => resistance_lines(*w, false, samples, engine),
            Indicator::SupportLines(w) => resistance_lines(*w, true, samples, engine),
        }
    }

    /// The last value of the indicator's series over the last `n` samples.
    fn compute_last<F: Fn(&Indicator, &[Sample]) -> Result<IndicatorData, DiError>>(
        &self,
        n: usize,
        samples: &[Sample],
        engine: &F,
    ) -> (r: Result<IndicatorData, DiError>)
        requires
            is_engine(*engine),
        ensures
            reading_of(r) == self.period_summary(n, samples@, readings_of(*engine)),
    {
        if n > samples.len() {
            Err(DiError::Error)
        } else {
            summarize_vector(consult(engine, self, tail(samples, n)))
        }
    }
}

/// The three series of the bands over a history: the lower band, the
/// average and the upper band.
pub fn bollinger_bands_s<F: Fn(&Indicator, &[Sample]) -> Result<IndicatorData, DiError>>(
    n: usize,
    w: i64,
    samples: &[Sample],
    engine: &F,
) -> (r: Result<IndicatorData, DiError>)
    requires
        is_engine(*engine),
    ensures
        reading_of(r) == readings_of(*engine)(Indicator::BollingerBands((n, w)), samples@),
{
    consult(engine, &Indicator::BollingerBands((n, w)), samples)
}

/// The bands at the end of a history: the last value of each of their
/// three series over the last `n` samples. A shorter history is an error.
pub fn bollinger_bands<F: Fn(&Indicator, &[Sample]) -> Result<IndicatorData, DiError>>(
    n: usize,
    w: i64,
    samples: &[Sample],
    engine: &F,
) -> (r: Result<IndicatorData, DiError>)
    requires
        is_engine(*engine),
    ensures
        reading_of(r) == Indicator::BollingerBands((n, w)).summary(
            samples@,
            readings_of(*engine),
        ),
{
    if n > samples.len() {
        Err(DiError::Error)
    } else {
        summarize_matrix(bollinger_bands_s(n, w, tail(samples, n), engine), 3)
    }
}

/// The two lines of MACD over a history: the MACD line and its signal
/// line.
pub fn macd_s<F: Fn(&Indicator, &[Sample]) -> Result<IndicatorData, DiError>>(
    fast_period: usize,
    slow_period: usize,
    signal_period: usize,
    samples: &[Sample],
    engine: &F,
) -> (r: Result<IndicatorData, DiError>)
    requires
        is_engine(*engine),
    ensures
        reading_of(r) == readings_of(*engine)(
            Indicator::MovingAverageConvergenceDivergence(
                (fast_period, slow_period, signal_period),
            ),
            samples@,
        ),
{
    consult(
        engine,
        &Indicator::MovingAverageConvergenceDivergence((fast_period, slow_period, signal_period)),
        samples,
    )
}

/// MACD at the end of a history: the last value of each of its two lines
/// over the last samples of the slow period. A shorter history is an
/// error.
pub fn macd<F: Fn(&Indicator, &[Sample]) -> Result<IndicatorData, DiError>>(
    fast_period: usize,
    slow_period: usize,
    signal_period: usize,
    samples: &[Sample],
    engine: &F,
) -> (r: Result<IndicatorData, DiError>)
    requires
        is_engine(*engine),
    ensures
        reading_of(r) == Indicator::MovingAverageConvergenceDivergence(
            (fast_period, slow_period, signal_period),
        ).summary(samples@, readings_of(*engine)),
{
    if slow_period > samples.len() {
        Err(DiError::Error)
    } else {
        summarize_matrix(
            macd_s(fast_period, slow_period, signal_period, tail(samples, slow_period), engine),
            2,
        )
    }
}

/// The lines of support, or of resistance, over a history: one series
/// for each line, as the engine computes them for the width `w`.
pub fn resistance_lines<F: Fn(&Indicator, &[Sample]) -> Result<IndicatorData, DiError>>(
    w: i64,
    is_support: bool,
    samples: &[Sample],
    engine: &F,
) -> (r: Result<IndicatorData, DiError>)
    requires
        is_engine(*engine),
    ensures
        is_support ==> reading_of(r) == readings_of(*engine)(Indicator::SupportLines(w), samples@),
        !is_support ==> reading_of(r) == readings_of(*engine)(
            Indicator::ResistanceLines(w),
            samples@,
        ),
{
    if is_support {
        consult(engine, &Indicator::SupportLines(w), samples)
    } else {
        consult(engine, &Indicator::ResistanceLines(w), samples)
    }
}

/// The last `n` samples of a history, or all of them where there are
/// fewer.
pub fn tail(samples: &[Sample], n: usize) -> (r: &[Sample])
    ensures
        r@ == last_samples(samples@, n),
{
    if n >= samples.len() {
        samples
    } else {
        let r = &samples[samples.len() - n..samples.len()];
        r
    }
}

} // verus!

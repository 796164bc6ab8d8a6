use dionysus::decimal::{fixed_text, parse_fixed};
use dionysus::finance::{DiError, Sample};
use dionysus::fixed::SCALE;
use dionysus::indicators::{
    consult, indicator_from_keyword, match_indicator_from_text, summarize_matrix,
    summarize_vector, tail, Indicator, IndicatorData, IndicatorDomain, IndicatorSource,
    Indicators, DEFAULT_BAND_WIDTH,
};
use dionysus::text::{decimal_text, parse_number, same_text};

#[test]
fn numbers_in_text() {
    assert_eq!(decimal_text(0), "0");
    assert_eq!(decimal_text(7), "7");
    assert_eq!(decimal_text(10), "10");
    assert_eq!(decimal_text(1_234_567_890), "1234567890");
    assert_eq!(decimal_text(u64::MAX), "18446744073709551615");
    assert_eq!(parse_number("0", 10), Some(0));
    assert_eq!(parse_number("10", 10), Some(10));
    assert_eq!(parse_number("11", 10), None);
    assert_eq!(parse_number("+10", 10), Some(10));
    assert_eq!(parse_number("0010", 10), Some(10));
    assert_eq!(parse_number("", 10), None);
    assert_eq!(parse_number("+", 10), None);
    assert_eq!(parse_number("-1", 10), None);
    assert_eq!(parse_number("1 ", 10), None);
    assert_eq!(parse_number("1_0", 10), None);
    assert_eq!(parse_number("18446744073709551615", u64::MAX), Some(u64::MAX));
    assert_eq!(parse_number("18446744073709551616", u64::MAX), None);
    assert_eq!(parse_number("99999999999999999999999999", u64::MAX), None);
    assert!(same_text("abc", "abc"));
    assert!(!same_text("abc", "abd"));
    assert!(!same_text("abc", "ab"));
    assert!(same_text("", ""));
}

#[test]
fn amounts_in_text() {
    assert_eq!(fixed_text(0), "0.0");
    assert_eq!(fixed_text(2 * SCALE), "2.0");
    assert_eq!(fixed_text(5_000_000), "0.05");
    assert_eq!(fixed_text(-5_000_000), "-0.05");
    assert_eq!(fixed_text(1), "0.00000001");
    assert_eq!(fixed_text(-1), "-0.00000001");
    assert_eq!(fixed_text(123 * SCALE + 45_600_000), "123.456");
    assert_eq!(fixed_text(i64::MAX), "92233720368.54775807");
    assert_eq!(fixed_text(i64::MIN), "-92233720368.54775808");
}

#[test]
fn amounts_from_text() {
    assert_eq!(parse_fixed("2"), Some(2 * SCALE));
    assert_eq!(parse_fixed("2.0"), Some(2 * SCALE));
    assert_eq!(parse_fixed("2."), Some(2 * SCALE));
    assert_eq!(parse_fixed(".5"), Some(SCALE / 2));
    assert_eq!(parse_fixed("0.05"), Some(5_000_000));
    assert_eq!(parse_fixed("-0.05"), Some(-5_000_000));
    assert_eq!(parse_fixed("+0.05"), Some(5_000_000));
    assert_eq!(parse_fixed("0.00000001"), Some(1));
    assert_eq!(parse_fixed("0.000000019"), Some(1));
    assert_eq!(parse_fixed("123.456"), Some(123 * SCALE + 45_600_000));
    assert_eq!(parse_fixed("92233720368.54775807"), Some(i64::MAX));
    assert_eq!(parse_fixed("92233720368.54775808"), None);
    assert_eq!(parse_fixed("-92233720368.54775808"), Some(i64::MIN));
    assert_eq!(parse_fixed("-92233720368.54775809"), None);
    assert_eq!(parse_fixed("99999999999999999999999"), None);
    assert_eq!(parse_fixed(""), None);
    assert_eq!(parse_fixed("."), None);
    assert_eq!(parse_fixed("-"), None);
    assert_eq!(parse_fixed("-."), None);
    assert_eq!(parse_fixed("1.2.3"), None);
    assert_eq!(parse_fixed("1e3"), None);
    assert_eq!(parse_fixed(" 1"), None);
    assert_eq!(parse_fixed("--1"), None);
    assert_eq!(parse_fixed("0.0x"), None);
    assert_eq!(parse_fixed("0.000000001x"), None);
    for v in [0, 1, -1, 5_000_000, 2 * SCALE, i64::MAX, i64::MIN, 123_456_789_012] {
        assert_eq!(parse_fixed(fixed_text(v).as_str()), Some(v));
    }
}

#[test]
fn names_of_indicators() {
    assert_eq!(Indicator::ExponentialMovingAverage(5).to_string(), "EMA 5");
    assert_eq!(Indicator::SimpleMovingAverage(50).to_string(), "SMA 50");
    assert_eq!(Indicator::StandardDeviation(7).to_string(), "sdev 7");
    assert_eq!(Indicator::RelativeStrengthIndex(14).to_string(), "rsi 14");
    assert_eq!(Indicator::BollingerBands((20, 2 * SCALE)).to_string(), "B-Bands 20 2.0");
    assert_eq!(
        Indicator::MovingAverageConvergenceDivergence((12, 26, 9)).to_string(),
        "MACD 12 26 9"
    );
    assert_eq!(Indicator::ResistanceLines(5_000_000).to_string(), "RL 0.05");
    assert_eq!(Indicator::SupportLines(SCALE / 10).to_string(), "SL 0.1");
    assert_eq!(Indicator::default(), Indicator::SimpleMovingAverage(0));
}

#[test]
fn sources_and_domains() {
    assert_eq!(Indicator::ExponentialMovingAverage(5).source(), IndicatorSource::Candle);
    assert_eq!(Indicator::RelativeStrengthIndex(5).source(), IndicatorSource::Volume);
    assert_eq!(Indicator::SupportLines(5).source(), IndicatorSource::Candle);
    assert_eq!(Indicator::ExponentialMovingAverage(5).domain(), IndicatorDomain::Price);
    assert_eq!(Indicator::SimpleMovingAverage(5).domain(), IndicatorDomain::Price);
    assert_eq!(Indicator::StandardDeviation(5).domain(), IndicatorDomain::Cartesian);
    assert_eq!(Indicator::RelativeStrengthIndex(5).domain(), IndicatorDomain::Percent);
    assert_eq!(Indicator::BollingerBands((5, 1)).domain(), IndicatorDomain::Price);
    assert_eq!(
        Indicator::MovingAverageConvergenceDivergence((1, 2, 3)).domain(),
        IndicatorDomain::Cartesian
    );
    assert_eq!(Indicator::ResistanceLines(5).domain(), IndicatorDomain::Price);
    assert_eq!(IndicatorDomain::default(), IndicatorDomain::Price);
}

#[test]
fn indicators_from_commands() {
    assert_eq!(match_indicator_from_text(&["rsi", "14"]), Some(Indicator::RelativeStrengthIndex(14)));
    assert_eq!(match_indicator_from_text(&["EMA", "5"]), Some(Indicator::ExponentialMovingAverage(5)));
    assert_eq!(match_indicator_from_text(&["Sma", "50"]), Some(Indicator::SimpleMovingAverage(50)));
    assert_eq!(match_indicator_from_text(&["sdev", "7"]), Some(Indicator::StandardDeviation(7)));
    assert_eq!(match_indicator_from_text(&["sdev"]), None);
    assert_eq!(match_indicator_from_text(&["sdev", "7", "8"]), None);
    assert_eq!(match_indicator_from_text(&["sdev", "seven"]), None);
    assert_eq!(
        match_indicator_from_text(&["macd", "12", "26", "9"]),
        Some(Indicator::MovingAverageConvergenceDivergence((12, 26, 9)))
    );
    assert_eq!(match_indicator_from_text(&["macd", "12", "26"]), None);
    assert_eq!(
        match_indicator_from_text(&["bbands", "20"]),
        Some(Indicator::BollingerBands((20, 2 * SCALE)))
    );
    assert_eq!(DEFAULT_BAND_WIDTH, 2 * SCALE);
    assert_eq!(
        match_indicator_from_text(&["bbands", "20", "3"]),
        Some(Indicator::BollingerBands((20, 2 * SCALE)))
    );
    assert_eq!(match_indicator_from_text(&["bbands"]), None);
    assert_eq!(match_indicator_from_text(&["rl", "0.05"]), Some(Indicator::ResistanceLines(5_000_000)));
    assert_eq!(match_indicator_from_text(&["sl", "2"]), Some(Indicator::SupportLines(2 * SCALE)));
    assert_eq!(match_indicator_from_text(&["sl", "two"]), None);
    assert_eq!(match_indicator_from_text(&["sl"]), None);
    assert_eq!(match_indicator_from_text(&["trace"]), None);
    assert_eq!(match_indicator_from_text(&[]), None);
    assert_eq!(indicator_from_keyword("ema", &["ema", "5"]), None);
    assert_eq!(
        indicator_from_keyword("EMA", &["x", "5"]),
        Some(Indicator::ExponentialMovingAverage(5))
    );
}

#[test]
fn a_set_of_indicators_holds_each_once() {
    let mut set = Indicators::default();
    set.add(&Indicator::ExponentialMovingAverage(5));
    set.add(&Indicator::ExponentialMovingAverage(10));
    set.add(&Indicator::ExponentialMovingAverage(5));
    set.add(&Indicator::SimpleMovingAverage(5));
    set.add(&Indicator::BollingerBands((5, 1)));
    set.add(&Indicator::BollingerBands((5, 2)));
    set.add(&Indicator::BollingerBands((5, 1)));
    assert_eq!(
        set.indicators,
        vec![
            Indicator::ExponentialMovingAverage(5),
            Indicator::ExponentialMovingAverage(10),
            Indicator::SimpleMovingAverage(5),
            Indicator::BollingerBands((5, 1)),
            Indicator::BollingerBands((5, 2)),
        ]
    );
}

/// The closes as the series of every average, three rising lines as the
/// bands, two as MACD.
fn closes(indicator: &Indicator, samples: &[Sample]) -> Result<IndicatorData, DiError> {
    let line: Vec<i64> = samples.iter().map(|s| s.close).collect();
    let plus = |d: i64| -> Vec<i64> { line.iter().map(|c| c + d).collect() };
    match indicator {
        Indicator::SimpleMovingAverage(_) | Indicator::ExponentialMovingAverage(_) => {
            Ok(IndicatorData::Vector(line))
        }
        Indicator::BollingerBands(_) => Ok(IndicatorData::Matrix(vec![plus(-1), plus(0), plus(1)])),
        Indicator::MovingAverageConvergenceDivergence(_) => {
            Ok(IndicatorData::Matrix(vec![plus(10), plus(20)]))
        }
        Indicator::StandardDeviation(_) => Ok(IndicatorData::Scalar(1)),
        Indicator::RelativeStrengthIndex(_) => Ok(IndicatorData::Matrix(vec![])),
        Indicator::ResistanceLines(_) => Ok(IndicatorData::Matrix(vec![line])),
        Indicator::SupportLines(_) => Err(DiError::NotImplemented),
    }
}

fn rising(n: i64) -> Vec<Sample> {
    (1..=n)
        .map(|i| {
            let mut s = Sample::default();
            s.close = i;
            s
        })
        .collect()
}

#[test]
fn consult_hands_the_question_to_the_engine() {
    let samples = rising(3);
    assert_eq!(
        consult(&closes, &Indicator::SimpleMovingAverage(4), &samples[..]),
        Ok(IndicatorData::Vector(vec![1, 2, 3]))
    );
    assert_eq!(
        Indicator::SimpleMovingAverage(4).compute_series(&samples[..], &closes),
        Ok(IndicatorData::Vector(vec![1, 2, 3]))
    );
    assert_eq!(
        consult(&closes, &Indicator::SupportLines(4), &samples[..]),
        Err(DiError::NotImplemented)
    );
}

#[test]
fn a_summary_is_the_last_value_over_the_period() {
    let samples = rising(5);
    assert_eq!(
        Indicator::SimpleMovingAverage(3).compute(&samples[..], &closes),
        Ok(IndicatorData::Scalar(5))
    );
    assert_eq!(
        Indicator::ExponentialMovingAverage(5).compute(&samples[..], &closes),
        Ok(IndicatorData::Scalar(5))
    );
    // a history shorter than the period is an error
    assert_eq!(
        Indicator::ExponentialMovingAverage(6).compute(&samples[..], &closes),
        Err(DiError::Error)
    );
    // a period of no samples gives an empty series, which sums up to zero
    assert_eq!(
        Indicator::SimpleMovingAverage(0).compute(&samples[..], &closes),
        Ok(IndicatorData::Scalar(0))
    );
    // another shape than a series is an error
    assert_eq!(Indicator::StandardDeviation(2).compute(&samples[..], &closes), Err(DiError::Error));
    assert_eq!(
        Indicator::RelativeStrengthIndex(2).compute(&samples[..], &closes),
        Err(DiError::Error)
    );
}

#[test]
fn summaries_of_bands_and_lines() {
    let samples = rising(5);
    assert_eq!(
        Indicator::BollingerBands((3, 2 * SCALE)).compute(&samples[..], &closes),
        Ok(IndicatorData::Matrix(vec![vec![4], vec![5], vec![6]]))
    );
    assert_eq!(
        Indicator::BollingerBands((2, 2 * SCALE)).compute(&samples[..2], &closes),
        Ok(IndicatorData::Matrix(vec![vec![1], vec![2], vec![3]]))
    );
    // a history shorter than the period is an error
    assert_eq!(
        Indicator::BollingerBands((9, 2 * SCALE)).compute(&samples[..2], &closes),
        Err(DiError::Error)
    );
    assert_eq!(
        Indicator::BollingerBands((0, 2 * SCALE)).compute(&[], &closes),
        Err(DiError::Error)
    );
    assert_eq!(
        Indicator::MovingAverageConvergenceDivergence((2, 4, 3)).compute(&samples[..], &closes),
        Ok(IndicatorData::Matrix(vec![vec![15], vec![25]]))
    );
    assert_eq!(
        Indicator::MovingAverageConvergenceDivergence((2, 6, 3)).compute(&samples[..], &closes),
        Err(DiError::Error)
    );
    assert_eq!(
        Indicator::MovingAverageConvergenceDivergence((2, 0, 3)).compute(&samples[..], &closes),
        Err(DiError::Error)
    );
    // the lines are given whole
    assert_eq!(
        Indicator::ResistanceLines(1).compute(&samples[..], &closes),
        Ok(IndicatorData::Matrix(vec![vec![1, 2, 3, 4, 5]]))
    );
    assert_eq!(Indicator::SupportLines(1).compute(&samples[..], &closes), Err(DiError::NotImplemented));
}

#[test]
fn sums_of_readings() {
    assert_eq!(summarize_vector(Ok(IndicatorData::Vector(vec![3, 4]))), Ok(IndicatorData::Scalar(4)));
    assert_eq!(summarize_vector(Ok(IndicatorData::Vector(vec![]))), Ok(IndicatorData::Scalar(0)));
    assert_eq!(summarize_vector(Ok(IndicatorData::Scalar(3))), Err(DiError::Error));
    assert_eq!(summarize_vector(Err(DiError::NotFound)), Err(DiError::NotFound));
    let m = || Ok(IndicatorData::Matrix(vec![vec![1, 2], vec![3], vec![]]));
    assert_eq!(summarize_matrix(m(), 2), Ok(IndicatorData::Matrix(vec![vec![2], vec![3]])));
    assert_eq!(summarize_matrix(m(), 1), Ok(IndicatorData::Matrix(vec![vec![2]])));
    assert_eq!(summarize_matrix(m(), 0), Ok(IndicatorData::Matrix(vec![])));
    assert_eq!(summarize_matrix(m(), 3), Err(DiError::Error));
    assert_eq!(summarize_matrix(m(), 4), Err(DiError::Error));
    assert_eq!(summarize_matrix(Err(DiError::NotFound), 1), Err(DiError::NotFound));
    assert_eq!(summarize_matrix(Ok(IndicatorData::Scalar(1)), 1), Err(DiError::Error));
    let samples = rising(5);
    assert_eq!(tail(&samples[..], 2), &samples[3..]);
    assert_eq!(tail(&samples[..], 5), &samples[..]);
    assert_eq!(tail(&samples[..], 9), &samples[..]);
    assert_eq!(tail(&samples[..], 0), &samples[5..]);
}

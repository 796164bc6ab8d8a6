use dionysus::cache::Cache;
use dionysus::finance::{DiError, Quote, Sample, Token};
use dionysus::historical_data::sample_quotes;
use dionysus::time::{Date, Period, TimeUnit, TimeWindow};

fn sample(resolution: TimeUnit, timestamp: u64, close: i64) -> Sample {
    Sample { resolution, timestamp, open: close, high: close, low: close, close, volume: 1 }
}

fn minutes(stamps: &[u64]) -> Vec<Sample> {
    stamps.iter().map(|t| sample(TimeUnit::Min(1), *t, *t as i64)).collect()
}

fn window(resolution: TimeUnit, count: i64) -> TimeWindow {
    TimeWindow { resolution, count }
}

fn stamps(samples: &[Sample]) -> Vec<u64> {
    samples.iter().map(|s| s.timestamp).collect()
}

#[test]
fn read_gives_the_last_samples() {
    let t = Token::pair("BTC", "USDT");
    let mut c = Cache::default();
    assert_eq!(c.read(&t, &window(TimeUnit::Min(1), 3)), Err(DiError::NotFound));
    assert_eq!(c.write(&t, &minutes(&[60, 120, 180, 240])[..]), Ok(()));
    assert_eq!(stamps(c.read(&t, &window(TimeUnit::Min(1), 3)).unwrap()), vec![120, 180, 240]);
    assert_eq!(stamps(c.read(&t, &window(TimeUnit::Min(1), 9)).unwrap()), vec![60, 120, 180, 240]);
    assert_eq!(stamps(c.read(&t, &window(TimeUnit::Min(1), 0)).unwrap()), Vec::<u64>::new());
    assert_eq!(stamps(c.read(&t, &window(TimeUnit::Min(1), -1)).unwrap()), vec![60, 120, 180, 240]);
    // another resolution or another token is not there
    assert_eq!(c.read(&t, &window(TimeUnit::Min(5), 3)), Err(DiError::NotFound));
    let other = Token::pair("ETH", "USDT");
    assert_eq!(c.read(&other, &window(TimeUnit::Min(1), 3)), Err(DiError::NotFound));
    // the key is the token's text in upper case
    let lower = Token::pair("btc", "usdt");
    assert_eq!(stamps(c.read(&lower, &window(TimeUnit::Min(1), 1)).unwrap()), vec![240]);
}

#[test]
fn write_appends_and_overwrites() {
    let t = Token::pair("BTC", "USDT");
    let mut c = Cache::default();
    assert_eq!(c.write(&t, &[]), Ok(()));
    assert!(c.data.is_empty());
    c.write(&t, &minutes(&[60, 120])[..]).unwrap();
    // the same time overwrites the last sample, a later time follows it
    let mut update = sample(TimeUnit::Min(1), 120, 999);
    update.volume = 7;
    assert_eq!(c.write(&t, &[update, sample(TimeUnit::Min(1), 180, 5)]), Ok(()));
    let kept = c.read(&t, &window(TimeUnit::Min(1), 10)).unwrap();
    assert_eq!(stamps(kept), vec![60, 120, 180]);
    assert_eq!(kept[1].close, 999);
    assert_eq!(kept[1].volume, 7);
    // a second resolution gets a series of its own
    c.write(&t, &[sample(TimeUnit::Hour(1), 3600, 1)]).unwrap();
    assert_eq!(c.data.len(), 2);
    assert_eq!(stamps(c.read(&t, &window(TimeUnit::Hour(1), 10)).unwrap()), vec![3600]);
    assert_eq!(stamps(c.read(&t, &window(TimeUnit::Min(1), 10)).unwrap()), vec![60, 120, 180]);
}

#[test]
fn a_batch_out_of_order_is_refused_as_a_whole() {
    let t = Token::pair("BTC", "USDT");
    let mut c = Cache::default();
    c.write(&t, &minutes(&[60, 120])[..]).unwrap();
    // the first sample could be taken in, the second is older than the last one
    assert_eq!(c.write(&t, &minutes(&[180, 100])[..]), Err(DiError::NotImplemented));
    assert_eq!(stamps(c.read(&t, &window(TimeUnit::Min(1), 10)).unwrap()), vec![60, 120]);
    assert_eq!(c.write(&t, &minutes(&[30])[..]), Err(DiError::NotImplemented));
    // a new series is held to the same rule
    let other = Token::pair("ETH", "USDT");
    assert_eq!(c.write(&other, &minutes(&[120, 60])[..]), Err(DiError::NotImplemented));
    assert_eq!(c.read(&other, &window(TimeUnit::Min(1), 10)), Err(DiError::NotFound));
    assert_eq!(c.write(&other, &minutes(&[60, 60, 120])[..]), Ok(()));
    assert_eq!(stamps(c.read(&other, &window(TimeUnit::Min(1), 10)).unwrap()), vec![60, 120]);
}

#[test]
fn contains_asks_for_the_end_of_the_period() {
    let t = Token::pair("BTC", "USDT");
    let mut c = Cache::default();
    c.write(&t, &minutes(&[600, 660, 720])[..]).unwrap();
    let ending = |end: u64| Period::last(TimeWindow::minutes(5), Date::from_timestamp(end));
    assert!(c.contains(&t, &ending(600)));
    assert!(c.contains(&t, &ending(700)));
    assert!(c.contains(&t, &ending(720)));
    assert!(!c.contains(&t, &ending(599)));
    assert!(!c.contains(&t, &ending(721)));
    assert!(!c.contains(&Token::pair("ETH", "USDT"), &ending(700)));
    let hours = Period::last(TimeWindow { resolution: TimeUnit::Hour(1), count: 0 }, Date::from_timestamp(700));
    assert!(!c.contains(&t, &hours));
    let before_the_epoch = Period::last(TimeWindow::minutes(5), Date::from_seconds(-5));
    assert!(!c.contains(&t, &before_the_epoch));
}

fn quote_at(seconds: i64, bid: Option<i64>) -> Quote {
    Quote {
        token: Token::Symbol("brownian".to_string()),
        bid,
        ask: bid,
        biddate: Date::from_seconds(seconds),
        askdate: Date::from_seconds(seconds),
    }
}

#[test]
fn test_sample_quotes() {
    let start: i64 = 1_700_000_000;
    let quotes: Vec<Quote> = (0..1440).map(|i| quote_at(start + 60 * i, Some(500 + i))).collect();
    assert_eq!(quotes.len(), 1440);
    let samples = sample_quotes(&quotes[..], &TimeUnit::Min(2));
    assert_eq!(samples.len(), 720);
}

#[test]
fn quotes_are_gathered_into_candles() {
    let quotes = vec![
        quote_at(100, Some(10)),
        quote_at(130, Some(14)),
        quote_at(140, None),
        quote_at(159, Some(8)),
        quote_at(160, Some(9)),
        quote_at(400, Some(3)),
    ];
    let samples = sample_quotes(&quotes[..], &TimeUnit::Min(1));
    assert_eq!(
        samples,
        vec![
            Sample {
                resolution: TimeUnit::Min(1),
                timestamp: 100,
                open: 10,
                high: 14,
                low: 8,
                close: 8,
                volume: 3
            },
            Sample {
                resolution: TimeUnit::Min(1),
                timestamp: 160,
                open: 9,
                high: 9,
                low: 9,
                close: 9,
                volume: 1
            },
            Sample {
                resolution: TimeUnit::Min(1),
                timestamp: 400,
                open: 3,
                high: 3,
                low: 3,
                close: 3,
                volume: 1
            },
        ]
    );
    assert!(sample_quotes(&[], &TimeUnit::Min(1)).is_empty());
    assert!(sample_quotes(&[quote_at(5, None)], &TimeUnit::Min(1)).is_empty());
    let early = sample_quotes(&[quote_at(-5, Some(1))], &TimeUnit::Min(1));
    assert_eq!(early[0].timestamp, 0);
}

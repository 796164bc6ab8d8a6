use dionysus::time::{Date, Period, TimeUnit, TimeWindow};

#[test]
fn test_time_unit() {
    assert_eq!(TimeUnit::Min(1).name(), "1m".to_string());
}

#[test]
fn test_period() {
    let now = Date::from_timestamp(1_700_000_000);
    let period = Period::last(TimeWindow::days(100), now);
    assert_eq!(
        period.duration.num_seconds(),
        period.end().seconds_since(period.start())
    );
}

#[test]
fn test_duration() {
    let now = Date::from_timestamp(1_700_000_000);
    let start = now.minus(TimeWindow::days(1));
    let end = now;
    let delta = end.seconds_since(start);
    assert_eq!(delta, 24 * 60 * 60);
}

#[test]
fn names_of_all_units() {
    assert_eq!(TimeUnit::Sec(30).name(), "30s");
    assert_eq!(TimeUnit::Min(15).name(), "15m");
    assert_eq!(TimeUnit::Hour(4).name(), "4h");
    assert_eq!(TimeUnit::Day(1).name(), "1d");
    assert_eq!(TimeUnit::Week(2).name(), "2wk");
    assert_eq!(TimeUnit::Month(3).name(), "3mo");
    assert_eq!(TimeUnit::Year(10).name(), "10y");
    assert_eq!(TimeUnit::Unit(0).name(), "0u");
    assert_eq!(TimeUnit::Sec(4_294_967_295).name(), "4294967295s");
}

#[test]
fn from_name_reads_what_name_writes() {
    assert_eq!(TimeUnit::from_name("30s"), TimeUnit::Sec(30));
    assert_eq!(TimeUnit::from_name("15m"), TimeUnit::Min(15));
    assert_eq!(TimeUnit::from_name("4h"), TimeUnit::Hour(4));
    assert_eq!(TimeUnit::from_name("1d"), TimeUnit::Day(1));
    assert_eq!(TimeUnit::from_name("2wk"), TimeUnit::Week(2));
    assert_eq!(TimeUnit::from_name("3mo"), TimeUnit::Month(3));
    assert_eq!(TimeUnit::from_name("10y"), TimeUnit::Year(10));
}

#[test]
fn from_name_on_other_texts() {
    assert_eq!(TimeUnit::from_name(""), TimeUnit::Unit(0));
    assert_eq!(TimeUnit::from_name("m"), TimeUnit::Unit(0));
    assert_eq!(TimeUnit::from_name("15"), TimeUnit::Unit(0));
    assert_eq!(TimeUnit::from_name("15m "), TimeUnit::Unit(0));
    assert_eq!(TimeUnit::from_name("15x"), TimeUnit::Unit(0));
    assert_eq!(TimeUnit::from_name("1u"), TimeUnit::Unit(0));
    assert_eq!(TimeUnit::from_name("about 15m"), TimeUnit::Min(15));
    assert_eq!(TimeUnit::from_name("a1b2h"), TimeUnit::Hour(2));
    assert_eq!(TimeUnit::from_name("99999999999s"), TimeUnit::Sec(0));
    assert_eq!(TimeUnit::from_name("007d"), TimeUnit::Day(7));
}

#[test]
fn from_parts_and_from_captures() {
    assert_eq!(TimeUnit::from_parts("5", "m"), Some(TimeUnit::Min(5)));
    assert_eq!(TimeUnit::from_parts("x", "h"), Some(TimeUnit::Hour(0)));
    assert_eq!(TimeUnit::from_parts("+7", "d"), Some(TimeUnit::Day(7)));
    assert_eq!(TimeUnit::from_parts("5", "M"), None);
    assert_eq!(TimeUnit::from_parts("4294967296", "s"), Some(TimeUnit::Sec(0)));
    assert_eq!(TimeUnit::from_captures(&None), TimeUnit::Unit(0));
    let unknown_then_known = Some(vec![
        vec![Some("1q".to_string()), Some("1".to_string()), Some("q".to_string())],
        vec![Some("2h".to_string()), Some("2".to_string()), Some("h".to_string())],
    ]);
    assert_eq!(TimeUnit::from_captures(&unknown_then_known), TimeUnit::Hour(2));
    let missing_group = Some(vec![vec![Some("2h".to_string()), None, Some("h".to_string())]]);
    assert_eq!(TimeUnit::from_captures(&missing_group), TimeUnit::Unit(0));
}

#[test]
fn seconds_of_units() {
    assert_eq!(TimeUnit::Unit(7).num_seconds(), 7);
    assert_eq!(TimeUnit::Sec(7).num_seconds(), 7);
    assert_eq!(TimeUnit::Min(2).num_seconds(), 120);
    assert_eq!(TimeUnit::Hour(1).num_seconds(), 3600);
    assert_eq!(TimeUnit::Day(1).num_seconds(), 86_400);
    assert_eq!(TimeUnit::Week(1).num_seconds(), 604_800);
    assert_eq!(TimeUnit::Month(1).num_seconds(), 2_678_400);
    assert_eq!(TimeUnit::Year(1).num_seconds(), 31_536_000);
    assert_eq!(TimeUnit::Year(4_294_967_295).num_seconds(), 31_536_000 * 4_294_967_295i64);
    assert_eq!(TimeUnit::Week(3).count(), 3);
    assert_eq!(TimeUnit::default(), TimeUnit::Hour(1));
}

#[test]
fn windows() {
    assert_eq!(TimeWindow::minutes(90).num_seconds(), 5400);
    assert_eq!(TimeWindow::minutes(90).num_minutes(), 90);
    assert_eq!(TimeWindow::days(1).num_minutes(), 1440);
    assert_eq!(TimeWindow::days(-1).num_seconds(), -86_400);
    let odd = TimeWindow { resolution: TimeUnit::Sec(1), count: -61 };
    assert_eq!(odd.num_minutes(), -1);
    let big = TimeWindow { resolution: TimeUnit::Year(4_000_000_000), count: i64::MAX };
    assert_eq!(big.checked_seconds(), None);
    assert_eq!(TimeWindow::days(2).checked_seconds(), Some(172_800));
    assert_eq!(TimeWindow::default(), TimeWindow { resolution: TimeUnit::Hour(1), count: 0 });
}

#[test]
fn dates() {
    let d = Date::from_timestamp(1000);
    assert_eq!(d.timestamp(), 1000);
    assert_eq!(d.plus(TimeWindow::minutes(1)).timestamp(), 1060);
    assert_eq!(d.minus(TimeWindow::minutes(20)).timestamp(), -200);
    assert_eq!(Date::from_seconds(-5).timestamp(), -5);
    assert_eq!(Date::from_seconds(1000), d);
    let p = Period::last(TimeWindow::minutes(10), d);
    assert_eq!(p.start().timestamp(), 400);
    assert_eq!(p.end().timestamp(), 1000);
}

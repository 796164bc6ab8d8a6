//! Resolutions, windows of time, dates and periods.

use crate::text::{
    captures_of, decimal, decimal_text, parse_number, parsed_number, regex_captures, same_text,
};
use vstd::prelude::*;

verus! {

/// Time measurement unit, with the number of units that make one step.
#[derive(Debug, Clone, Copy, PartialEq, Eq, Structural, Hash)]
pub enum TimeUnit {
    Sec(u32),
    Min(u32),
    Hour(u32),
    Day(u32),
    Week(u32),
    Month(u32),
    Year(u32),
    Unit(u32),
}

impl Default for TimeUnit {
    fn default() -> (r: Self)
        ensures
            r == TimeUnit::Hour(1),
    {
        TimeUnit::Hour(1)
    }
}

/// The pattern of a resolution's name: digits, then letters, at the end of
/// the text.
pub open spec fn resolution_pattern() -> Seq<char> {
    "([0-9]+)([a-zA-Z]+)$"@
}

impl TimeUnit {
    /// The multiplier of the unit.
    pub open spec fn multiplier(self) -> u32 {
        match self {
            TimeUnit::Unit(n) => n,
            TimeUnit::Sec(n) => n,
            TimeUnit::Min(n) => n,
            TimeUnit::Hour(n) => n,
            TimeUnit::Day(n) => n,
            TimeUnit::Week(n) => n,
            TimeUnit::Month(n) => n,
            TimeUnit::Year(n) => n,
        }
    }

    /// Seconds in one unit, with a month of 31 days and a year of 365.
    pub open spec fn unit_seconds(self) -> int {
        match self {
            TimeUnit::Unit(_) => 1,
            TimeUnit::Sec(_) => 1,
            TimeUnit::Min(_) => 60,
            TimeUnit::Hour(_) => 3600,
            TimeUnit::Day(_) => 86400,
            TimeUnit::Week(_) => 604800,
            TimeUnit::Month(_) => 2678400,
            TimeUnit::Year(_) => 31536000,
        }
    }

    /// Seconds in one step of this resolution.
    pub open spec fn seconds(self) -> int {
        self.unit_seconds() * self.multiplier()
    }

    /// The letters that name the unit.
    pub open spec fn suffix(self) -> Seq<char> {
        match self {
            TimeUnit::Sec(_) => "s"@,
            TimeUnit::Min(_) => "m"@,
            TimeUnit::Hour(_) => "h"@,
            TimeUnit::Day(_) => "d"@,
            TimeUnit::Week(_) => "wk"@,
            TimeUnit::Month(_) => "mo"@,
            TimeUnit::Year(_) => "y"@,
            TimeUnit::Unit(_) => "u"@,
        }
    }

    /// The name of the resolution: its multiplier in decimal digits, then
    /// the letters of its unit.
    pub open spec fn label(self) -> Seq<char> {
        decimal(self.multiplier() as nat) + self.suffix()
    }

    /// The resolution that the letters `unit` name, with multiplier `n`.
    pub open spec fn of_unit(n: u32, unit: Seq<char>) -> Option<TimeUnit> {
        if unit == "s"@ {
            Some(TimeUnit::Sec(n))
        } else if unit == "m"@ {
            Some(TimeUnit::Min(n))
        } else if unit == "h"@ {
            Some(TimeUnit::Hour(n))
        } else if unit == "d"@ {
            Some(TimeUnit::Day(n))
        } else if unit == "wk"@ {
            Some(TimeUnit::Week(n))
        } else if unit == "mo"@ {
            Some(TimeUnit::Month(n))
        } else if unit == "y"@ {
            Some(TimeUnit::Year(n))
        } else {
            None
        }
    }

    /// The multiplier that the text `frequency` gives: its number, or zero
    /// where it is no number that fits.
    pub open spec fn frequency_of(frequency: Seq<char>) -> u32 {
        match parsed_number(frequency, u32::MAX as nat) {
            Some(v) => v as u32,
            None => 0,
        }
    }

    /// The resolution that one match of the pattern names, if any: group 1
    /// is the frequency and group 2 the unit.
    pub open spec fn of_match(groups: Seq<Option<Seq<char>>>) -> Option<TimeUnit> {
        if groups.len() == 3 && groups[1].is_some() && groups[2].is_some() {
            Self::of_unit(Self::frequency_of(groups[1].unwrap()), groups[2].unwrap())
        } else {
            None
        }
    }

    /// The resolution that the first match at or after place `start` names.
    pub open spec fn of_matches(found: Seq<Seq<Option<Seq<char>>>>, start: int) -> TimeUnit
        decreases found.len() - start,
    {
        if start < 0 || start >= found.len() {
            TimeUnit::Unit(0)
        } else {
            match Self::of_match(found[start]) {
                Some(unit) => unit,
                None => Self::of_matches(found, start + 1),
            }
        }
    }

    /// The resolution that the matches of the pattern name: the first one
    /// with a known unit, and `Unit(0)` where there is none.
    pub open spec fn of_captures(found: Option<Seq<Seq<Option<Seq<char>>>>>) -> TimeUnit {
        match found {
            Some(matches) => Self::of_matches(matches, 0),
            None => TimeUnit::Unit(0),
        }
    }

    /// The resolution with multiplier read from `frequency` and the unit
    /// that `unit` names, if it names one.
    pub fn from_parts(frequency: &str, unit: &str) -> (r: Option<TimeUnit>)
        ensures
            r == Self::of_unit(Self::frequency_of(frequency@), unit@),
    {
        let n: u32 = match parse_number(frequency, u32::MAX as u64) {
            Some(v) => v as u32,
            None => 0,
        };
        if same_text(unit, "s") {
            Some(TimeUnit::Sec(n))
        } else if same_text(unit, "m") {
            Some(TimeUnit::Min(n))
        } else if same_text(unit, "h") {
            Some(TimeUnit::Hour(n))
        } else if same_text(unit, "d") {
            Some(TimeUnit::Day(n))
        } else if same_text(unit, "wk") {
            Some(TimeUnit::Week(n))
        } else if same_text(unit, "mo") {
            Some(TimeUnit::Month(n))
        } else if same_text(unit, "y") {
            Some(TimeUnit::Year(n))
        } else {
            None
        }
    }

    /// The resolution that the capture groups of the pattern's matches name.
    pub fn from_captures(found: &Option<Vec<Vec<Option<String>>>>) -> (r: TimeUnit)
        ensures
            r == Self::of_captures(found.deep_view()),
    {
        match found {
            None => TimeUnit::Unit(0),
            Some(matches) => {
                let mut i: usize = 0;
                while i < matches.len()
                    invariant
                        i <= matches.len(),
                        found.deep_view() == Some(matches.deep_view()),
                        Self::of_matches(matches.deep_view(), 0) == Self::of_matches(
                            matches.deep_view(),
                            i as int,
                        ),
                    decreases matches.len() - i,
                {
                    let groups = &matches[i];
                    if groups.len() == 3 {
                        match (&groups[1], &groups[2]) {
                            (Some(frequency), Some(unit)) => {
                                if let Some(u) = Self::from_parts(
                                    frequency.as_str(),
                                    unit.as_str(),
                                ) {
                                    return u;
                                }
                            },
                            _ => {},
                        }
                    }
                    i += 1;
                }
                TimeUnit::Unit(0)
            },
        }
    }

    /// Reads a resolution from its name, such as `15m` or `1wk`.
    pub fn from_name(name: &str) -> (r: TimeUnit)
        ensures
            r == Self::of_captures(regex_captures(resolution_pattern(), name@)),
    {
        let found = captures_of("([0-9]+)([a-zA-Z]+)$", name);
        Self::from_captures(&found)
    }

    /// The name of the resolution, such as `15m` or `1wk`.
    pub fn name(&self) -> (r: String)
        ensures
            r@ == self.label(),
    {
        let mut text: String = decimal_text(self.count() as u64);
        match self {
            TimeUnit::Sec(_) => text.append("s"),
            TimeUnit::Min(_) => text.append("m"),
            TimeUnit::Hour(_) => text.append("h"),
            TimeUnit::Day(_) => text.append("d"),
            TimeUnit::Week(_) => text.append("wk"),
            TimeUnit::Month(_) => text.append("mo"),
            TimeUnit::Year(_) => text.append("y"),
            TimeUnit::Unit(_) => text.append("u"),
        }
        text
    }

    /// The multiplier of the unit.
    pub fn count(self) -> (r: u32)
        ensures
            r == self.multiplier(),
    {
        match self {
            TimeUnit::Unit(n) => n,
            TimeUnit::Sec(n) => n,
            TimeUnit::Min(n) => n,
            TimeUnit::Hour(n) => n,
            TimeUnit::Day(n) => n,
            TimeUnit::Week(n) => n,
            TimeUnit::Month(n) => n,
            TimeUnit::Year(n) => n,
        }
    }

    /// Seconds in one step of this resolution.
    pub fn num_seconds(&self) -> (r: i64)
        ensures
            r == self.seconds(),
    {
        match self {
            TimeUnit::Unit(n) => *n as i64,
            TimeUnit::Sec(n) => *n as i64,
            TimeUnit::Min(n) => 60 * (*n as i64),
            TimeUnit::Hour(n) => 3600 * (*n as i64),
            TimeUnit::Day(n) => 86400 * (*n as i64),
            TimeUnit::Week(n) => 604800 * (*n as i64),
            TimeUnit::Month(n) => 2678400 * (*n as i64),
            TimeUnit::Year(n) => 31536000 * (*n as i64),
        }
    }
}

/// A number of steps of one resolution.
#[derive(Debug, Clone, Copy, PartialEq, Eq, Structural)]
pub struct TimeWindow {
    pub resolution: TimeUnit,
    pub count: i64,
}

impl Default for TimeWindow {
    fn default() -> (r: Self)
        ensures
            r == (TimeWindow { resolution: TimeUnit::Hour(1), count: 0 }),
    {
        TimeWindow { resolution: TimeUnit::Hour(1), count: 0 }
    }
}

/// Division of a number of seconds that rounds toward zero.
pub open spec fn whole_part(n: int, d: int) -> int
    recommends
        d > 0,
{
    if n >= 0 {
        n / d
    } else {
        -((-n) / d)
    }
}

impl TimeWindow {
    /// Seconds that the window spans.
    pub open spec fn span(self) -> int {
        self.resolution.seconds() * self.count
    }

    /// Whether the window's span in seconds can be held.
    pub open spec fn in_range(self) -> bool {
        i64::MIN <= self.span() <= i64::MAX
    }

    /// A window of `n` steps of one minute.
    pub fn minutes(n: i64) -> (r: TimeWindow)
        ensures
            r == (TimeWindow { resolution: TimeUnit::Min(1), count: n }),
    {
        TimeWindow { resolution: TimeUnit::Min(1), count: n }
    }

    /// A window of `n` steps of one day.
    pub fn days(n: i64) -> (r: TimeWindow)
        ensures
            r == (TimeWindow { resolution: TimeUnit::Day(1), count: n }),
    {
        TimeWindow { resolution: TimeUnit::Day(1), count: n }
    }

    /// The span in seconds, where it can be held.
    pub fn checked_seconds(&self) -> (r: Option<i64>)
        ensures
            self.in_range() ==> r == Some(self.span() as i64),
            !self.in_range() ==> r.is_none(),
    {
        let step: i128 = self.resolution.num_seconds() as i128;
        let count: i128 = self.count as i128;
        assert(-0x8000_0000_0000_0000 * 0x8000_0000_0000_0000 <= step * count
            <= 0x8000_0000_0000_0000 * 0x8000_0000_0000_0000) by (nonlinear_arith)
            requires
                0 <= step <= 0x8000_0000_0000_0000,
                -0x8000_0000_0000_0000 <= count <= 0x8000_0000_0000_0000,
        ;
        let span: i128 = step * count;
        if span < i64::MIN as i128 || span > i64::MAX as i128 {
            None
        } else {
            Some(span as i64)
        }
    }

    /// Seconds that the window spans.
    pub fn num_seconds(&self) -> (r: i64)
        requires
            self.in_range(),
        ensures
            r == self.span(),
    {
        match self.checked_seconds() {
            Some(span) => span,
            None => 0,
        }
    }

    /// Whole minutes that the window spans, rounded toward zero.
    pub fn num_minutes(&self) -> (r: i64)
        requires
            self.in_range(),
        ensures
            r == whole_part(self.span(), 60),
    {
        let span: i64 = self.num_seconds();
        if span >= 0 {
            span / 60
        } else {
            let positive: i128 = -(span as i128);
            (-(positive / 60)) as i64
        }
    }
}

/// A point in time, counted in whole seconds from the Unix epoch.
#[derive(Debug, Clone, Copy, PartialEq, Eq, Structural)]
pub struct Date {
    pub seconds: i64,
}

impl Date {
    /// Seconds from the epoch to this date.
    pub open spec fn secs(self) -> int {
        self.seconds as int
    }

    /// The date that lies `seconds` after the epoch.
    pub open spec fn at(seconds: i64) -> Date {
        Date { seconds }
    }

    /// Whether the date that lies `delta` seconds after this one can be
    /// held.
    pub open spec fn reaches(self, delta: int) -> bool {
        i64::MIN <= self.secs() + delta <= i64::MAX
    }

    /// The date that lies `timestamp` seconds after the epoch.
    pub fn from_timestamp(timestamp: u64) -> (r: Date)
        requires
            timestamp <= i64::MAX,
        ensures
            r == Self::at(timestamp as i64),
            r.secs() == timestamp,
    {
        Date { seconds: timestamp as i64 }
    }

    /// The date that lies `seconds` after the epoch, or before it where
    /// `seconds` is negative.
    pub fn from_seconds(seconds: i64) -> (r: Date)
        ensures
            r == Self::at(seconds),
            r.secs() == seconds,
    {
        Date { seconds }
    }

    /// Seconds from the epoch to this date.
    pub fn timestamp(&self) -> (r: i64)
        ensures
            r == self.secs(),
    {
        self.seconds
    }

    /// The date one window after this one.
    pub fn plus(self, window: TimeWindow) -> (r: Date)
        requires
            window.in_range(),
            self.reaches(window.span()),
        ensures
            r.secs() == self.secs() + window.span(),
    {
        Date { seconds: self.seconds + window.num_seconds() }
    }

    /// The date one window before this one.
    pub fn minus(self, window: TimeWindow) -> (r: Date)
        requires
            window.in_range(),
            self.reaches(-window.span()),
        ensures
            r.secs() == self.secs() - window.span(),
    {
        Date { seconds: self.seconds - window.num_seconds() }
    }

    /// Seconds from `earlier` to this date.
    pub fn seconds_since(self, earlier: Date) -> (r: i64)
        requires
            i64::MIN <= self.secs() - earlier.secs() <= i64::MAX,
        ensures
            r == self.secs() - earlier.secs(),
    {
        self.seconds - earlier.seconds
    }
}

/// A window of time with a fixed start.
#[derive(Debug, Clone, Copy)]
pub struct Period {
    pub duration: TimeWindow,
    pub start: Date,
}

impl Period {
    /// The period of the given length that ends at `now`.
    pub fn last(time_period: TimeWindow, now: Date) -> (r: Period)
        requires
            time_period.in_range(),
            now.reaches(-time_period.span()),
        ensures
            r.duration == time_period,
            r.start.secs() == now.secs() - time_period.span(),
    {
        Period { duration: time_period, start: now.minus(time_period) }
    }

    /// The date at which the period starts.
    pub fn start(&self) -> (r: Date)
        ensures
            r == self.start,
    {
        self.start
    }

    /// The date at which the period ends.
    pub fn end(&self) -> (r: Date)
        requires
            self.duration.in_range(),
            self.start.reaches(self.duration.span()),
        ensures
            r.secs() == self.start.secs() + self.duration.span(),
    {
        self.start.plus(self.duration)
    }
}

} // verus!

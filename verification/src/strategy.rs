//! Decisions, the oracle that makes one of the counsels of several counselors, and the strategy.

use crate::counselor::{counsel_of, Advice, Counsel, Counselor, Signal};
use crate::finance::{DiError, Quote, QuoteView, Sample};
use crate::fixed::SCALE;
use crate::indicators::{is_engine, readings_of, Indicator, IndicatorData, Readings};
use crate::time::{TimeUnit, TimeWindow};
use vstd::prelude::*;

verus! {

/// The share of the free capital that a buy commits: six tenths.
pub const BUY_SHARE: i64 = 60_000_000;

/// The share that a sell decision carries: all of it.
pub const SELL_SHARE: i64 = SCALE;

/// One advice, and the share of the free capital to commit to it, as a
/// fixed-point number between zero and one.
#[derive(Debug, Clone, Copy, PartialEq, Eq, Structural)]
pub struct Decision {
    pub advice: Advice,
    pub pct: i64,
}

impl Decision {
    /// The decision not to trade.
    pub open spec fn no_trade() -> Decision {
        Decision { advice: Advice::neutral(), pct: 0 }
    }

    /// The decision that an advice with a signal makes, if it has one.
    pub open spec fn following(advice: Advice) -> Option<Decision> {
        match advice.signal {
            Signal::Buy => Some(Decision { advice, pct: BUY_SHARE }),
            Signal::Sell => Some(Decision { advice, pct: SELL_SHARE }),
            Signal::Hold => None,
        }
    }
}

impl Default for Decision {
    fn default() -> (r: Self)
        ensures
            r == Decision::no_trade(),
    {
        Decision { advice: Advice::default(), pct: 0 }
    }
}

/// The decision that the first counsel with a signal makes, looking from
/// place `start` on; counsels that failed are passed over. Where none has a
/// signal, the decision is not to trade.
pub open spec fn first_signal(counsels: Seq<Counsel>, start: int) -> Decision
    decreases counsels.len() - start,
{
    if start < 0 || start >= counsels.len() {
        Decision::no_trade()
    } else {
        match counsels[start] {
            Ok(advice) => match Decision::following(advice) {
                Some(decision) => decision,
                None => first_signal(counsels, start + 1),
            },
            Err(_) => first_signal(counsels, start + 1),
        }
    }
}

/// What each of the counselors advises, in their order.
pub open spec fn counsels(
    counselors: Seq<Counselor>,
    quote: QuoteView,
    history: Seq<Sample>,
    readings: Readings,
) -> Seq<Counsel> {
    Seq::new(counselors.len(), |i: int| counselors[i].counsel(quote, history, readings))
}

/// The policy by which the counsels of several counselors become one
/// decision.
#[derive(Debug, Default, Clone, Copy, PartialEq, Eq, Structural)]
pub enum Oracle {
    /// The first counselor with a signal decides.
    #[default]
    Delphi,
    /// Decides nothing.
    Dodona,
}

impl Oracle {
    /// The decision that the policy makes of the counsels.
    pub open spec fn decision(self, counsels: Seq<Counsel>) -> Decision {
        match self {
            Oracle::Delphi => first_signal(counsels, 0),
            Oracle::Dodona => Decision::no_trade(),
        }
    }

    /// The policy's name.
    pub open spec fn label(self) -> Seq<char> {
        match self {
            Oracle::Delphi => "Delphi"@,
            Oracle::Dodona => "Dodona"@,
        }
    }

    /// Makes one decision of counsels that were taken already.
    pub fn resolve(&self, given: &[Result<Advice, DiError>]) -> (r: Decision)
        ensures
            r == self.decision(Seq::new(given@.len(), |i: int| counsel_of(given@[i]))),
    {
        let ghost all = Seq::new(given@.len(), |i: int| counsel_of(given@[i]));
        match self {
            Oracle::Delphi => {
                let mut i: usize = 0;
                while i < given.len()
                    invariant
                        i <= given@.len(),
                        *self == Oracle::Delphi,
                        all == Seq::new(given@.len(), |i: int| counsel_of(given@[i])),
                        first_signal(all, 0) == first_signal(all, i as int),
                    decreases given@.len() - i,
                {
                    if let Ok(advice) = &given[i] {
                        match advice.signal {
                            Signal::Buy => {
                                return Decision { advice: *advice, pct: BUY_SHARE };
                            },
                            Signal::Sell => {
                                return Decision { advice: *advice, pct: SELL_SHARE };
                            },
                            _ => {},
                        }
                    }
                    i += 1;
                }
                Decision::default()
            },
            Oracle::Dodona => Decision::default(),
        }
    }

    /// Asks the counselors in their order and makes one decision of what
    /// they advise.
    pub fn see<F: Fn(&Indicator, &[Sample]) -> Result<IndicatorData, DiError>>(
        &self,
        quote: &Quote,
        history: &[Sample],
        counselors: &[Counselor],
        engine: &F,
    ) -> (r: Result<Decision, DiError>)
        requires
            is_engine(*engine),
        ensures
            r.is_ok(),
            r.unwrap() == self.decision(
                counsels(counselors@, quote@, history@, readings_of(*engine)),
            ),
    {
        let ghost all = counsels(counselors@, quote@, history@, readings_of(*engine));
        match self {
            Oracle::Delphi => {
                let mut i: usize = 0;
                while i < counselors.len()
                    invariant
                        i <= counselors@.len(),
                        *self == Oracle::Delphi,
                        is_engine(*engine),
                        all == counsels(counselors@, quote@, history@, readings_of(*engine)),
                        first_signal(all, 0) == first_signal(all, i as int),
                    decreases counselors@.len() - i,
                {
                    assert(all[i as int] == counselors@[i as int].counsel(
                        quote@,
                        history@,
                        readings_of(*engine),
                    ));
                    if let Ok(advice) = counselors[i].run(quote, history, engine) {
                        match advice.signal {
                            Signal::Buy => {
                                return Ok(Decision { advice, pct: BUY_SHARE });
                            },
                            Signal::Sell => {
                                return Ok(Decision { advice, pct: SELL_SHARE });
                            },
                            _ => {},
                        }
                    }
                    i += 1;
                }
            },
            Oracle::Dodona => {},
        }
        Ok(Decision::default())
    }

    /// The policy's name.
    pub fn name(&self) -> (r: String)
        ensures
            r@ == self.label(),
    {
        match self {
            Oracle::Delphi => String::from_str("Delphi"),
            Oracle::Dodona => String::from_str("Dodona"),
        }
    }
}

/// The longest lookback among the counselors.
pub open spec fn longest_lookback(counselors: Seq<Counselor>) -> usize
    decreases counselors.len(),
{
    if counselors.len() == 0 {
        0
    } else {
        let rest = longest_lookback(counselors.drop_last());
        if counselors.last().lookback() > rest {
            counselors.last().lookback()
        } else {
            rest
        }
    }
}

/// No counselor looks back further than `longest_lookback`, and where
/// there is a counselor, one looks back that far.
pub proof fn lemma_longest_lookback(counselors: Seq<Counselor>)
    ensures
        forall|i: int|
            0 <= i < counselors.len() ==> (#[trigger] counselors[i]).lookback()
                <= longest_lookback(counselors),
        counselors.len() > 0 ==> exists|i: int|
            0 <= i < counselors.len() && (#[trigger] counselors[i]).lookback()
                == longest_lookback(counselors),
        counselors.len() == 0 ==> longest_lookback(counselors) == 0,
    decreases counselors.len(),
{
    if counselors.len() > 0 {
        let head = counselors.drop_last();
        lemma_longest_lookback(head);
        assert forall|i: int| 0 <= i < counselors.len() implies (
        #[trigger] counselors[i]).lookback() <= longest_lookback(counselors) by {
            if i < head.len() {
                assert(counselors[i] == head[i]);
            }
        }
        if counselors.last().lookback() > longest_lookback(head) || head.len() == 0 {
            assert(counselors[counselors.len() - 1].lookback() == longest_lookback(counselors));
        }
    }
}

/// An oracle, the counselors that it asks, and the window of history that
/// they are shown.
#[derive(Debug)]
pub struct Strategy {
    pub oracle: Oracle,
    pub counselors: Vec<Counselor>,
    pub duration: TimeWindow,
}

impl Default for Strategy {
    fn default() -> (r: Self)
        ensures
            r@ == StrategyView::empty(),
    {
        Strategy {
            oracle: Oracle::Delphi,
            counselors: Vec::new(),
            duration: TimeWindow::default(),
        }
    }
}

/// A `Strategy` with its counselors as a sequence.
pub ghost struct StrategyView {
    pub oracle: Oracle,
    pub counselors: Seq<Counselor>,
    pub duration: TimeWindow,
}

impl StrategyView {
    /// The strategy of the first oracle with no counselors, over no steps
    /// of one hour.
    pub open spec fn empty() -> StrategyView {
        StrategyView {
            oracle: Oracle::Delphi,
            counselors: Seq::empty(),
            duration: TimeWindow { resolution: TimeUnit::Hour(1), count: 0 },
        }
    }

    /// The number of samples that the strategy needs before it can decide.
    pub open spec fn lookback(self) -> usize {
        longest_lookback(self.counselors)
    }

    /// What the strategy decides for a quote and a history.
    pub open spec fn decision(
        self,
        quote: QuoteView,
        history: Seq<Sample>,
        readings: Readings,
    ) -> Decision {
        self.oracle.decision(counsels(self.counselors, quote, history, readings))
    }

    /// The strategy's name: its oracle's, then its resolution's.
    pub open spec fn label(self) -> Seq<char> {
        self.oracle.label() + " "@ + self.duration.resolution.label()
    }
}

impl View for Strategy {
    type V = StrategyView;

    open spec fn view(&self) -> StrategyView {
        StrategyView {
            oracle: self.oracle,
            counselors: self.counselors@,
            duration: self.duration,
        }
    }
}

impl Clone for Strategy {
    fn clone(&self) -> (r: Self)
        ensures
            r@ == self@,
    {
        Strategy {
            oracle: self.oracle,
            counselors: self.counselors.clone(),
            duration: self.duration,
        }
    }
}

impl Strategy {
    /// The longest lookback among the counselors: no counselor needs
    /// more samples, and where there is a counselor, one needs as many.
    pub fn required_history_size(&self) -> (r: usize)
        ensures
            r == self@.lookback(),
            forall|i: int|
                0 <= i < self.counselors@.len() ==> (#[trigger] self.counselors@[i]).lookback()
                    <= r,
            self.counselors@.len() > 0 ==> exists|i: int|
                0 <= i < self.counselors@.len() && (#[trigger] self.counselors@[i]).lookback()
                    == r,
            self.counselors@.len() == 0 ==> r == 0,
    {
        proof {
            lemma_longest_lookback(self.counselors@);
        }
        let mut ans: usize = 0;
        let mut i: usize = 0;
        while i < self.counselors.len()
            invariant
                i <= self.counselors@.len(),
                ans == longest_lookback(self.counselors@.take(i as int)),
            decreases self.counselors@.len() - i,
        {
            assert(self.counselors@.take(i + 1).drop_last() =~= self.counselors@.take(i as int));
            let r: usize = self.counselors[i].required_samples();
            if r > ans {
                ans = r;
            }
            i += 1;
        }
        assert(self.counselors@.take(i as int) =~= self.counselors@);
        ans
    }

    /// What the strategy decides for a quote and a history; `engine` computes
    /// the indicators.
    pub fn run<F: Fn(&Indicator, &[Sample]) -> Result<IndicatorData, DiError>>(
        &self,
        quote: &Quote,
        history: &[Sample],
        engine: &F,
    ) -> (r: Result<Decision, DiError>)
        requires
            is_engine(*engine),
        ensures
            r.is_ok(),
            r.unwrap() == self@.decision(quote@, history@, readings_of(*engine)),
    {
        self.oracle.see(quote, history, self.counselors.as_slice(), engine)
    }

    /// The strategy's name: its oracle's, then its resolution's.
    pub fn name(&self) -> (r: String)
        ensures
            r@ == self@.label(),
    {
        let mut text: String = self.oracle.name();
        text.append(" ");
        text.append(self.duration.resolution.name().as_str());
        text
    }
}

} // verus!

//! Sources of the samples of the past, and the gathering of quotes into samples.

use crate::finance::{DiError, DiErrorView, Quote, QuoteView, Sample, Token};
use crate::time::{Date, TimeUnit, TimeWindow};
use vstd::prelude::*;

verus! {

/// What a source answers to a request for samples, as a value of
/// specifications.
pub type Holding = Result<Seq<Sample>, DiErrorView>;

/// The holding that an answer stands for.
pub open spec fn holding_of(r: Result<&[Sample], DiError>) -> Holding {
    match r {
        Ok(samples) => Ok(samples@),
        Err(e) => Err(e@),
    }
}

/// Where a window of `count` samples that ends before place `index`
/// starts: `count` places earlier, or at the first sample where there are
/// fewer. A negative count stands for every sample.
pub open spec fn window_start(index: int, count: int) -> int {
    if count < 0 || count >= index {
        0
    } else {
        index - count
    }
}

/// The samples that a replay shows at place `index`: the last `count`
/// before it.
pub open spec fn window(samples: Seq<Sample>, index: int, count: int) -> Seq<Sample> {
    samples.subrange(window_start(index, count), index)
}

/// A source of the samples of the past. What a call gives is the
/// source's own affair: nothing is promised of it here.
pub trait HistoricalData {
    /// Adds one sample that was just seen.
    fn append(&mut self, token: &Token, sample: &Sample) -> Result<(), DiError>;

    /// Brings the last samples of the window up to date.
    fn fetch_last(&mut self, token: &Token, duration: &TimeWindow) -> Result<(), DiError>;

    /// The last samples of the window's resolution, at most as many as
    /// the window counts; or the reason why there are none.
    fn get_last(&self, token: &Token, duration: &TimeWindow) -> Result<&[Sample], DiError>;
}

/// Quotes as a sequence of quote views.
pub open spec fn quote_views(quotes: Seq<Quote>) -> Seq<QuoteView> {
    Seq::new(quotes.len(), |i: int| quotes[i]@)
}

/// Where the gathering of quotes into samples stands: the samples that
/// are complete, the one that is being gathered (with volume zero before
/// the first quote), and the time at which it started.
pub ghost struct Sampling {
    pub done: Seq<Sample>,
    pub current: Sample,
    pub start: int,
}

/// The time of a quote as a sample's timestamp: a time before the epoch
/// counts as the epoch.
pub open spec fn stamp_of(date: Date) -> u64 {
    if date.secs() < 0 {
        0
    } else {
        date.secs() as u64
    }
}

/// The gathering after one more quote. A quote without a bid is passed
/// over. A quote that comes a whole step or more after the start of the
/// current sample completes it and starts the next one, as does the first
/// quote; any other quote is counted into the current sample, closes it,
/// and may raise its high or lower its low.
pub open spec fn gathered(state: Sampling, quote: QuoteView, step: int) -> Sampling {
    match quote.bid {
        None => state,
        Some(bid) => {
            if quote.biddate.secs() - state.start >= step || state.current.volume == 0 {
                Sampling {
                    done: if state.current.volume != 0 {
                        state.done.push(state.current)
                    } else {
                        state.done
                    },
                    current: Sample {
                        resolution: state.current.resolution,
                        timestamp: stamp_of(quote.biddate),
                        open: bid,
                        high: bid,
                        low: bid,
                        close: bid,
                        volume: 1,
                    },
                    start: quote.biddate.secs(),
                }
            } else {
                Sampling {
                    current: Sample {
                        volume: (state.current.volume + 1) as u64,
                        close: bid,
                        high: if bid > state.current.high {
                            bid
                        } else {
                            state.current.high
                        },
                        low: if bid < state.current.low {
                            bid
                        } else {
                            state.current.low
                        },
                        ..state.current
                    },
                    ..state
                }
            }
        },
    }
}

/// The gathering after the first `k` quotes.
pub open spec fn gathering(quotes: Seq<QuoteView>, resolution: TimeUnit, k: int) -> Sampling
    decreases k,
{
    if k <= 0 {
        Sampling {
            done: Seq::empty(),
            current: Sample {
                resolution,
                timestamp: 0,
                open: 0,
                high: 0,
                low: 0,
                close: 0,
                volume: 0,
            },
            start: if quotes.len() > 0 {
                quotes[0].biddate.secs()
            } else {
                0
            },
        }
    } else {
        gathered(gathering(quotes, resolution, k - 1), quotes[k - 1], resolution.seconds())
    }
}

/// The samples that the quotes make at a resolution: those that were
/// completed, and the one that was being gathered at the end.
pub open spec fn sampled(quotes: Seq<QuoteView>, resolution: TimeUnit) -> Seq<Sample> {
    let end = gathering(quotes, resolution, quotes.len() as int);
    if end.current.volume != 0 {
        end.done.push(end.current)
    } else {
        end.done
    }
}

/// Whether a sample is a candle: it counts a quote, and its low and high
/// enclose its open and close.
pub open spec fn is_candle(sample: Sample) -> bool {
    &&& sample.volume >= 1
    &&& sample.low <= sample.open <= sample.high
    &&& sample.low <= sample.close <= sample.high
}

/// Every sample that is gathered of quotes is a candle of the resolution
/// asked for, and the samples count no more quotes than there were.
pub proof fn lemma_gathering_makes_candles(quotes: Seq<QuoteView>, resolution: TimeUnit, k: int)
    requires
        k <= quotes.len(),
    ensures
        forall|i: int|
            0 <= i < gathering(quotes, resolution, k).done.len() ==> is_candle(
                #[trigger] gathering(quotes, resolution, k).done[i],
            ) && gathering(quotes, resolution, k).done[i].resolution == resolution,
        gathering(quotes, resolution, k).current.volume != 0 ==> is_candle(
            gathering(quotes, resolution, k).current,
        ),
        gathering(quotes, resolution, k).current.resolution == resolution,
        gathering(quotes, resolution, k).current.volume <= if k > 0 {
            k
        } else {
            0
        },
    decreases k,
{
    if k > 0 {
        lemma_gathering_makes_candles(quotes, resolution, k - 1);
    }
}

/// Gathers quotes into samples of one resolution.
pub fn sample_quotes(quotes: &[Quote], resolution: &TimeUnit) -> (samples: Vec<Sample>)
    ensures
        samples@ == sampled(quote_views(quotes@), *resolution),
        forall|i: int|
            0 <= i < samples@.len() ==> is_candle(#[trigger] samples@[i]) && samples@[i].resolution
                == *resolution,
{
    let mut samples: Vec<Sample> = Vec::new();
    if quotes.len() == 0 {
        return samples;
    }
    let ghost all = quote_views(quotes@);
    let mut sample = Sample {
        resolution: *resolution,
        timestamp: 0,
        open: 0,
        high: 0,
        low: 0,
        close: 0,
        volume: 0,
    };
    let sample_size_in_seconds: i64 = resolution.num_seconds();
    let mut sample_start: Date = quotes[0].biddate;
    let mut k: usize = 0;
    while k < quotes.len()
        invariant
            k <= quotes@.len(),
            quotes@.len() > 0,
            all == quote_views(quotes@),
            sample_size_in_seconds == resolution.seconds(),
            gathering(all, *resolution, k as int) == (Sampling {
                done: samples@,
                current: sample,
                start: sample_start.secs(),
            }),
            sample.volume <= k,
        decreases quotes@.len() - k,
    {
        match quotes[k].bid {
            None => {},
            Some(bid) => {
                let date: Date = quotes[k].biddate;
                let curr_size_in_seconds: i128 = date.timestamp() as i128
                    - sample_start.timestamp() as i128;
                if curr_size_in_seconds >= sample_size_in_seconds as i128 || sample.volume == 0 {
                    if sample.volume != 0 {
                        samples.push(sample);
                    }
                    sample_start = date;
                    sample.timestamp = if date.timestamp() < 0 {
                        0
                    } else {
                        date.timestamp() as u64
                    };
                    sample.open = bid;
                    sample.high = bid;
                    sample.low = bid;
                    sample.close = bid;
                    sample.volume = 1;
                } else {
                    sample.volume += 1;
                    sample.close = bid;
                    if bid > sample.high {
                        sample.high = bid;
                    }
                    if bid < sample.low {
                        sample.low = bid;
                    }
                }
            },
        }
        k += 1;
    }
    proof {
        lemma_gathering_makes_candles(all, *resolution, quotes@.len() as int);
    }
    if sample.volume != 0 {
        samples.push(sample);
    }
    samples
}

} // verus!

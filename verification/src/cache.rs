//! A store of samples by token and resolution, in which every series ascends in time.

use crate::finance::{DiError, Sample, Token};
use crate::historical_data::window;
use crate::text::same_text;
use crate::time::{Period, TimeUnit, TimeWindow};
use vstd::prelude::*;

verus! {

/// The samples that are kept of one token at one resolution.
#[derive(Debug)]
pub struct Series {
    /// The token's key.
    pub key: String,
    pub resolution: TimeUnit,
    pub samples: Vec<Sample>,
}

/// A `Series` with its key and samples as sequences.
pub ghost struct SeriesView {
    pub key: Seq<char>,
    pub resolution: TimeUnit,
    pub samples: Seq<Sample>,
}

impl View for Series {
    type V = SeriesView;

    open spec fn view(&self) -> SeriesView {
        SeriesView { key: self.key@, resolution: self.resolution, samples: self.samples@ }
    }
}

/// A store of samples, by token and resolution.
#[derive(Debug)]
pub struct Cache {
    pub data: Vec<Series>,
}

/// The series of a store as a sequence of views.
pub open spec fn series_views(data: Seq<Series>) -> Seq<SeriesView> {
    Seq::new(data.len(), |i: int| data[i]@)
}

impl View for Cache {
    type V = Seq<SeriesView>;

    open spec fn view(&self) -> Seq<SeriesView> {
        series_views(self.data@)
    }
}

/// Whether each sample is later than the one before it.
pub open spec fn ascending(samples: Seq<Sample>) -> bool {
    forall|i: int, j: int|
        0 <= i < j < samples.len() ==> (#[trigger] samples[i]).timestamp < (
        #[trigger] samples[j]).timestamp
}

/// The place of the first series for a key and a resolution at or after
/// `start`, or the number of series where there is none.
pub open spec fn series_place(
    store: Seq<SeriesView>,
    key: Seq<char>,
    resolution: TimeUnit,
    start: int,
) -> int
    decreases store.len() - start,
{
    if start < 0 || start >= store.len() {
        store.len() as int
    } else if store[start].key == key && store[start].resolution == resolution {
        start
    } else {
        series_place(store, key, resolution, start + 1)
    }
}

/// The samples that a store keeps for a key and a resolution, if any.
pub open spec fn kept(store: Seq<SeriesView>, key: Seq<char>, resolution: TimeUnit) -> Option<
    Seq<Sample>,
> {
    let place = series_place(store, key, resolution, 0);
    if place < store.len() {
        Some(store[place].samples)
    } else {
        None
    }
}

/// A series after it has taken in the first `k` samples of a batch, one
/// by one: a sample as old as the last one replaces it, a later one
/// follows it. Where a sample is older than the last one, the batch is
/// refused.
pub open spec fn absorbed(series: Seq<Sample>, batch: Seq<Sample>, k: int) -> Option<Seq<Sample>>
    decreases k,
{
    if k <= 0 {
        Some(series)
    } else {
        match absorbed(series, batch, k - 1) {
            None => None,
            Some(so_far) => {
                let sample = batch[k - 1];
                if so_far.len() > 0 && sample.timestamp < so_far.last().timestamp {
                    None
                } else if so_far.len() > 0 && sample.timestamp == so_far.last().timestamp {
                    Some(so_far.update(so_far.len() - 1, sample))
                } else {
                    Some(so_far.push(sample))
                }
            },
        }
    }
}

/// A series whose samples ascend still does so after it has taken in a
/// batch, and it has lost none of its length.
pub proof fn lemma_absorbed_ascends(series: Seq<Sample>, batch: Seq<Sample>, k: int)
    requires
        ascending(series),
        k <= batch.len(),
    ensures
        absorbed(series, batch, k).is_some() ==> ascending(absorbed(series, batch, k).unwrap())
            && absorbed(series, batch, k).unwrap().len() >= series.len(),
    decreases k,
{
    if k > 0 {
        lemma_absorbed_ascends(series, batch, k - 1);
    }
}

/// A batch that is refused after `k` samples is refused as a whole.
pub proof fn lemma_absorbed_refused(series: Seq<Sample>, batch: Seq<Sample>, k: int, n: int)
    requires
        k <= n,
        absorbed(series, batch, k).is_none(),
    ensures
        absorbed(series, batch, n).is_none(),
    decreases n - k,
{
    if k < n {
        lemma_absorbed_refused(series, batch, k, n - 1);
    }
}

/// The store after a batch was written under a key. An empty batch
/// changes nothing. The batch goes to the series of the key and of the
/// resolution of the batch's first sample, or to a new series behind the
/// others. `None` where the batch is refused.
pub open spec fn written(store: Seq<SeriesView>, key: Seq<char>, batch: Seq<Sample>) -> Option<
    Seq<SeriesView>,
> {
    if batch.len() == 0 {
        Some(store)
    } else {
        let resolution = batch[0].resolution;
        let place = series_place(store, key, resolution, 0);
        let before = if place < store.len() {
            store[place].samples
        } else {
            Seq::empty()
        };
        match absorbed(before, batch, batch.len() as int) {
            None => None,
            Some(samples) => {
                let series = SeriesView { key, resolution, samples };
                if place < store.len() {
                    Some(store.update(place, series))
                } else {
                    Some(store.push(series))
                }
            },
        }
    }
}

impl Default for Cache {
    fn default() -> (r: Self)
        ensures
            r@.len() == 0,
            r.wf(),
    {
        Cache { data: Vec::new() }
    }
}

impl Cache {
    /// The store's invariant: in every series, each sample is later than
    /// the one before it.
    pub open spec fn wf(&self) -> bool {
        forall|i: int| 0 <= i < self@.len() ==> ascending((#[trigger] self@[i]).samples)
    }

    /// The place of the series for a key and a resolution.
    fn find(&self, key: &str, resolution: &TimeUnit) -> (place: usize)
        ensures
            place == series_place(self@, key@, *resolution, 0),
            place <= self.data@.len(),
    {
        let mut i: usize = 0;
        while i < self.data.len()
            invariant
                i <= self.data@.len(),
                series_place(self@, key@, *resolution, 0) == series_place(
                    self@,
                    key@,
                    *resolution,
                    i as int,
                ),
            decreases self.data@.len() - i,
        {
            if same_text(self.data[i].key.as_str(), key) && self.data[i].resolution
                == *resolution {
                return i;
            }
            i += 1;
        }
        i
    }

    /// Whether the store keeps samples of the token, at the period's
    /// resolution, that reach from no later than the period's end to no
    /// earlier than it.
    pub fn contains(&self, token: &Token, period: &Period) -> (r: bool)
        requires
            period.duration.in_range(),
            period.start.reaches(period.duration.span()),
        ensures
            r == match kept(self@, token@.key(), period.duration.resolution) {
                Some(samples) => {
                    let end = period.start.secs() + period.duration.span();
                    samples.len() > 0 && samples.first().timestamp <= end
                        <= samples.last().timestamp
                },
                None => false,
            },
    {
        let key: String = token.key();
        let resolution: TimeUnit = period.duration.resolution;
        let place: usize = self.find(key.as_str(), &resolution);
        if place < self.data.len() {
            let cache = &self.data[place].samples;
            let end: i64 = period.end().timestamp();
            if cache.len() == 0 || end < 0 {
                return false;
            }
            if cache[0].timestamp > end as u64 {
                return false;
            }
            if cache[cache.len() - 1].timestamp < end as u64 {
                return false;
            }
            return true;
        }
        false
    }

    /// The last samples that the store keeps of the token at the
    /// window's resolution, at most as many as the window counts.
    pub fn read(&self, token: &Token, duration: &TimeWindow) -> (r: Result<&[Sample], DiError>)
        ensures
            match kept(self@, token@.key(), duration.resolution) {
                Some(samples) => r.is_ok() && r.unwrap()@ == window(
                    samples,
                    samples.len() as int,
                    duration.count as int,
                ),
                None => r.is_err() && r.unwrap_err() == DiError::NotFound,
            },
    {
        let key: String = token.key();
        let place: usize = self.find(key.as_str(), &duration.resolution);
        if place < self.data.len() {
            let samples = &self.data[place].samples;
            let first_index: usize = if duration.count < 0 || duration.count as u64
                >= samples.len() as u64 {
                0
            } else {
                samples.len() - duration.count as usize
            };
            Ok(&samples.as_slice()[first_index..samples.len()])
        } else {
            Err(DiError::NotFound)
        }
    }

    /// Writes a batch of samples of the token. A batch with a sample
    /// older than the one before it in the series is refused as a whole,
    /// and the store stays as it was.
    pub fn write(&mut self, token: &Token, samples: &[Sample]) -> (r: Result<(), DiError>)
        requires
            old(self).wf(),
        ensures
            final(self).wf(),
            match written(old(self)@, token@.key(), samples@) {
                Some(store) => r.is_ok() && final(self)@ == store,
                None => r.is_err() && r.unwrap_err() == DiError::NotImplemented && final(self)@
                    == old(self)@,
            },
    {
        if samples.len() == 0 {
            return Ok(());
        }
        let key: String = token.key();
        let resolution: TimeUnit = samples[0].resolution;
        let place: usize = self.find(key.as_str(), &resolution);
        let ghost store = self@;
        let ghost before = if place < store.len() {
            store[place as int].samples
        } else {
            Seq::empty()
        };
        let mut series: Vec<Sample> = Vec::new();
        if place < self.data.len() {
            series = self.data[place].samples.clone();
        }
        let mut k: usize = 0;
        while k < samples.len()
            invariant
                k <= samples@.len(),
                samples@.len() > 0,
                absorbed(before, samples@, k as int) == Some(series@),
                self@ == store,
                self.wf(),
                key@ == token@.key(),
                resolution == samples@[0].resolution,
                place == series_place(store, key@, resolution, 0),
                before == if place < store.len() {
                    store[place as int].samples
                } else {
                    Seq::empty()
                },
            decreases samples@.len() - k,
        {
            let sample: Sample = samples[k];
            let n: usize = series.len();
            if n > 0 && sample.timestamp < series[n - 1].timestamp {
                proof {
                    lemma_absorbed_refused(before, samples@, k + 1, samples@.len() as int);
                }
                return Err(DiError::NotImplemented);
            } else if n > 0 && sample.timestamp == series[n - 1].timestamp {
                series.set(n - 1, sample);
            } else {
                series.push(sample);
            }
            k += 1;
        }
        proof {
            lemma_absorbed_ascends(before, samples@, samples@.len() as int);
        }
        let entry = Series { key, resolution, samples: series };
        if place < self.data.len() {
            self.data.set(place, entry);
            assert(self@ =~= store.update(place as int, entry@));
        } else {
            self.data.push(entry);
            assert(self@ =~= store.push(entry@));
        }
        Ok(())
    }
}

} // verus!

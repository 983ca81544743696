//! The measurement engine: one pipeline for each direction of traffic, from
//! counter readings to the smoothed rate and its history.

use crate::counter::SharedCounter;
use crate::history::{push_bounded, History};
use crate::sampler::{RateSampler, Reading};
use crate::smoother::{lemma_mean_bounds, mean_spec, total, Smoother};
use vstd::prelude::*;

verus! {

/// The number of raw rates that an engine's smoothing windows hold.
pub const SMOOTHING_WINDOW: usize = 5;

/// The number of smoothed rates that an engine's histories hold.
pub const HISTORY_CAPACITY: usize = 60;

/// The state of one pipeline as plain mathematical values.
pub struct PipelineModel {
    /// What the sampler remembers.
    pub sampler: RateSampler,
    /// The raw rates in the smoothing window, oldest first.
    pub window: Seq<u64>,
    /// The largest number of raw rates that the window holds.
    pub window_capacity: nat,
    /// The smoothed rates in the history, oldest first.
    pub history: Seq<u64>,
    /// The largest number of smoothed rates that the history holds.
    pub history_capacity: nat,
}

impl PipelineModel {
    /// The window has room for a rate, and neither the window nor the history
    /// holds more than its capacity.
    pub open spec fn wf(self) -> bool {
        &&& self.window_capacity >= 1
        &&& self.window.len() <= self.window_capacity
        &&& self.history.len() <= self.history_capacity
    }

    /// A pipeline that has taken no sample yet.
    pub open spec fn start(
        initial: u64,
        now: u64,
        window_capacity: nat,
        history_capacity: nat,
    ) -> PipelineModel {
        PipelineModel {
            sampler: RateSampler { previous: initial, previous_time: now, last_rate: 0 },
            window: Seq::empty(),
            window_capacity,
            history: Seq::empty(),
            history_capacity,
        }
    }

    /// The rate on display: the mean of the window, and zero while the window
    /// is empty.
    pub open spec fn smoothed(self) -> nat {
        if self.window.len() == 0 {
            0
        } else {
            mean_spec(self.window)
        }
    }

    /// The pipeline after a tick at `now` on which the counter read
    /// `current`: the sampler's raw rate enters the window, and the mean of
    /// the window enters the history.
    pub open spec fn step(self, current: u64, now: u64) -> PipelineModel {
        let raw = self.sampler.next_rate(current, now) as u64;
        let window = push_bounded(self.window, self.window_capacity, raw);
        PipelineModel {
            sampler: self.sampler.after(current, now),
            window,
            window_capacity: self.window_capacity,
            history: push_bounded(self.history, self.history_capacity, mean_spec(window) as u64),
            history_capacity: self.history_capacity,
        }
    }

    /// The pipeline after one tick for each of `readings`, in order.
    pub open spec fn run(self, readings: Seq<Reading>) -> PipelineModel
        decreases readings.len(),
    {
        if readings.len() == 0 {
            self
        } else {
            self.run(readings.drop_last()).step(readings.last().counter, readings.last().time)
        }
    }
}

/// A tick keeps a pipeline within its capacities, and leaves at least one
/// raw rate in the window.
pub proof fn lemma_step_preserves_wf(model: PipelineModel, current: u64, now: u64)
    requires
        model.wf(),
    ensures
        model.step(current, now).wf(),
        model.step(current, now).window.len() >= 1,
        model.step(current, now).window_capacity == model.window_capacity,
        model.step(current, now).history_capacity == model.history_capacity,
{
}

/// However many ticks a pipeline takes, it stays within its capacities, its
/// sampler is the sampler that took those samples, and each tick adds one
/// entry to the window and one to the history until they are full.
pub proof fn lemma_run_preserves_wf(model: PipelineModel, readings: Seq<Reading>)
    requires
        model.wf(),
    ensures
        model.run(readings).wf(),
        model.run(readings).window_capacity == model.window_capacity,
        model.run(readings).history_capacity == model.history_capacity,
        model.run(readings).sampler == model.sampler.after_all(readings),
        model.run(readings).window.len() == if model.window.len() + readings.len()
            <= model.window_capacity {
            model.window.len() + readings.len()
        } else {
            model.window_capacity
        },
        model.run(readings).history.len() == if model.history.len() + readings.len()
            <= model.history_capacity {
            model.history.len() + readings.len()
        } else {
            model.history_capacity
        },
    decreases readings.len(),
{
    if readings.len() > 0 {
        lemma_run_preserves_wf(model, readings.drop_last());
    }
}

/// The rate on display is the rate on record: after a tick, the newest entry
/// of a history that can hold anything is the smoothed rate of that tick.
pub proof fn lemma_step_records_smoothed(model: PipelineModel, current: u64, now: u64)
    requires
        model.wf(),
        model.history_capacity >= 1,
    ensures
        model.step(current, now).history.len() >= 1,
        model.step(current, now).history.last() == model.step(current, now).smoothed(),
{
    let after = model.step(current, now);
    lemma_mean_bounds(after.window, 0, u64::MAX as nat);
}

/// The first tick of a pipeline is not smoothed away: the raw rate of the
/// first sample is alone in the window, so it is the smoothed rate, and it is
/// the whole history.
pub proof fn lemma_first_step(
    initial: u64,
    start_time: u64,
    window_capacity: nat,
    history_capacity: nat,
    current: u64,
    now: u64,
)
    requires
        window_capacity >= 1,
        history_capacity >= 1,
    ensures
        ({
            let start = PipelineModel::start(initial, start_time, window_capacity, history_capacity);
            let raw = start.sampler.next_rate(current, now) as u64;
            &&& start.step(current, now).window == seq![raw]
            &&& start.step(current, now).smoothed() == raw
            &&& start.step(current, now).history == seq![raw]
        }),
{
    let start = PipelineModel::start(initial, start_time, window_capacity, history_capacity);
    let raw = start.sampler.next_rate(current, now) as u64;
    let window = push_bounded(start.window, window_capacity, raw);
    assert(window =~= seq![raw]);
    assert(window.drop_last() =~= Seq::<u64>::empty());
    assert(total(window) == raw) by {
        reveal_with_fuel(total, 2);
    }
    assert(mean_spec(window) == raw);
    assert(start.step(current, now).history =~= seq![raw]);
}

/// One direction of traffic: a sampler, its smoothing window and the history
/// of the smoothed rates.
pub struct RatePipeline {
    sampler: RateSampler,
    smoother: Smoother,
    history: History,
}

impl View for RatePipeline {
    type V = PipelineModel;

    closed spec fn view(&self) -> PipelineModel {
        PipelineModel {
            sampler: self.sampler,
            window: self.smoother@,
            window_capacity: self.smoother.spec_capacity(),
            history: self.history@,
            history_capacity: self.history.spec_capacity(),
        }
    }
}

impl RatePipeline {
    /// The pipeline's parts are within their capacities.
    pub open spec fn wf(&self) -> bool {
        self@.wf()
    }

    /// A pipeline whose baseline is the counter value `initial` read at
    /// `now`, with an empty window and an empty history of the given
    /// capacities.
    pub fn new(initial: u64, now: u64, window_capacity: usize, history_capacity: usize) -> (pipeline:
        RatePipeline)
        requires
            window_capacity >= 1,
        ensures
            pipeline.wf(),
            pipeline@ == PipelineModel::start(
                initial,
                now,
                window_capacity as nat,
                history_capacity as nat,
            ),
    {
        RatePipeline {
            sampler: RateSampler::new(initial, now),
            smoother: Smoother::new(window_capacity),
            history: History::new(history_capacity),
        }
    }

    /// One tick: `current` is the counter's value and `now` the clock's
    /// reading. Returns the smoothed rate in whole bytes per second.
    pub fn sample(&mut self, current: u64, now: u64) -> (smoothed: u64)
        requires
            old(self).wf(),
        ensures
            final(self).wf(),
            final(self)@ == old(self)@.step(current, now),
            smoothed == final(self)@.smoothed(),
    {
        let raw: u64 = self.sampler.sample(current, now);
        let smoothed: u64 = self.smoother.push(raw);
        self.history.push(smoothed);
        smoothed
    }

    /// One tick on a shared counter: reads `counter` once and takes a sample
    /// of what it read. A producer may add to the counter at any moment, so
    /// the value read is whatever the counter held at that moment; the tick
    /// is the tick of `sample` on that value.
    pub fn sample_counter(&mut self, counter: &SharedCounter, now: u64) -> (smoothed: u64)
        requires
            old(self).wf(),
        ensures
            final(self).wf(),
            exists|current: u64| final(self)@ == #[trigger] old(self)@.step(current, now),
            smoothed == final(self)@.smoothed(),
    {
        let current: u64 = counter.read();
        self.sample(current, now)
    }

    /// An independent copy of the smoothed rates on record, oldest first.
    pub fn history(&self) -> (copy: Vec<u64>)
        ensures
            copy@ == self@.history,
    {
        self.history.snapshot()
    }
}

/// What one tick of the engine reports. The values are the caller's own: the
/// engine keeps no reference to them.
pub struct NetworkStats {
    /// The smoothed download rate, in whole bytes per second.
    pub download_bps: u64,
    /// The smoothed upload rate; zero where the engine measures no upload.
    pub upload_bps: u64,
    /// The download history, oldest first.
    pub download_history: Vec<u64>,
    /// The upload history; empty where the engine measures no upload.
    pub upload_history: Vec<u64>,
}

/// A download pipeline and, where an upload counter is at hand, an upload
/// pipeline beside it. The two share the clock and nothing else.
pub struct NetworkEngine {
    download: RatePipeline,
    upload: Option<RatePipeline>,
}

impl NetworkEngine {
    /// The state of the download pipeline.
    pub closed spec fn download(&self) -> PipelineModel {
        self.download@
    }

    /// The state of the upload pipeline, where the engine has one.
    pub closed spec fn upload(&self) -> Option<PipelineModel> {
        match self.upload {
            Some(pipeline) => Some(pipeline@),
            None => None,
        }
    }

    /// Each pipeline of the engine is within its capacities.
    pub open spec fn wf(&self) -> bool {
        &&& self.download().wf()
        &&& self.upload() matches Some(upload) ==> upload.wf()
    }

    /// An engine whose download baseline is `initial_rx`, read at `now`.
    /// With `Some` upload baseline it measures the upload too.
    pub fn new(initial_rx: u64, initial_tx: Option<u64>, now: u64) -> (engine: NetworkEngine)
        ensures
            engine.wf(),
            engine.download() == PipelineModel::start(
                initial_rx,
                now,
                SMOOTHING_WINDOW as nat,
                HISTORY_CAPACITY as nat,
            ),
            engine.upload() == match initial_tx {
                Some(tx) => Some(
                    PipelineModel::start(
                        tx,
                        now,
                        SMOOTHING_WINDOW as nat,
                        HISTORY_CAPACITY as nat,
                    ),
                ),
                None => None,
            },
    {
        let upload: Option<RatePipeline> = match initial_tx {
            Some(tx) => Some(RatePipeline::new(tx, now, SMOOTHING_WINDOW, HISTORY_CAPACITY)),
            None => None,
        };
        NetworkEngine {
            download: RatePipeline::new(initial_rx, now, SMOOTHING_WINDOW, HISTORY_CAPACITY),
            upload,
        }
    }

    /// One tick of the engine at `now`: `current_rx` and `current_tx` are the
    /// values of the download and the upload counter. Each pipeline takes its
    /// sample; an engine that measures no upload leaves `current_tx` unread.
    pub fn update(&mut self, current_rx: u64, current_tx: u64, now: u64) -> (stats: NetworkStats)
        requires
            old(self).wf(),
        ensures
            final(self).wf(),
            final(self).download() == old(self).download().step(current_rx, now),
            final(self).upload() == match old(self).upload() {
                Some(upload) => Some(upload.step(current_tx, now)),
                None => None,
            },
            stats.download_bps == final(self).download().smoothed(),
            stats.download_history@ == final(self).download().history,
            stats.upload_bps == match final(self).upload() {
                Some(upload) => upload.smoothed(),
                None => 0,
            },
            stats.upload_history@ == match final(self).upload() {
                Some(upload) => upload.history,
                None => Seq::empty(),
            },
    {
        let download_bps: u64 = self.download.sample(current_rx, now);
        let download_history: Vec<u64> = self.download.history();
        let mut upload_bps: u64 = 0;
        let mut upload_history: Vec<u64> = Vec::new();
        match &mut self.upload {
            Some(pipeline) => {
                upload_bps = pipeline.sample(current_tx, now);
                upload_history = pipeline.history();
            },
            None => {},
        }
        NetworkStats { download_bps, upload_bps, download_history, upload_history }
    }
}

} // verus!

//! Bookkeeping core of an exponential moving average over evenly and
//! unevenly spaced time series.
//!
//! The numeric side of an average (blending two samples, the decay
//! `exp(-elapsed / count)`, comparing timestamps) is done by the caller in
//! floating point. This crate decides, for each new observation, whether it
//! is accepted at all, whether it seeds the average or is blended into it,
//! and which observation count the decay is computed from. Every rejected
//! observation leaves the state exactly as it was.
use vstd::prelude::*;

verus! {

/// Errors that are specific to computing moving averages.
#[derive(Debug, Clone, Copy, PartialEq, Eq, Structural)]
pub enum Error {
    /// A fixed-weight operation on a time-weighted average, or the reverse.
    AlgoMismatch,
    /// A timestamp older than the last accepted one.
    StaleData,
}

/// How the smoothing factor of an average is obtained.
#[derive(Debug, Clone, Copy, PartialEq, Eq, Structural)]
pub enum Smoothing {
    /// A constant smoothing factor (evenly spaced observations).
    Static,
    /// A smoothing factor that decays with elapsed time (unevenly spaced
    /// observations).
    Dynamic,
}

/// What the caller does with an observation that was accepted.
#[derive(Debug, Clone, Copy, PartialEq, Eq, Structural)]
pub enum Step {
    /// The observation becomes the average, with no blending; a timed one
    /// also becomes the last accepted timestamp.
    Seed,
    /// The observation is blended into the average. `count` is the number of
    /// observations seen, this one included: a time-weighted average decays
    /// by `exp(-elapsed / count)`.
    Blend { count: u32 },
}

/// The observation count after one more observation. The counter wraps
/// silently past `u32::MAX`, as an unchecked counter would.
pub open spec fn next_count(count: u32) -> u32 {
    if count == u32::MAX {
        0
    } else {
        (count + 1) as u32
    }
}

/// The step owed to an accepted observation that brings the count to `count`.
pub open spec fn step_for(count: u32) -> Step {
    if count == 1 {
        Step::Seed
    } else {
        Step::Blend { count }
    }
}

/// The abstract state of a [`Tracker`].
pub struct TrackerView {
    /// Number of observations accepted so far (modulo `2^32`).
    pub count: u32,
    /// Smoothing strategy, fixed at construction.
    pub strategy: Smoothing,
}

impl TrackerView {
    /// The state right after construction.
    pub open spec fn fresh(strategy: Smoothing) -> TrackerView {
        TrackerView { count: 0, strategy }
    }

    /// Outcome of offering a fixed-weight observation: the result and the
    /// state afterwards.
    pub open spec fn fixed(self) -> (Result<Step, Error>, TrackerView) {
        if self.strategy == Smoothing::Dynamic {
            (Err(Error::AlgoMismatch), self)
        } else {
            let count = next_count(self.count);
            (Ok(step_for(count)), TrackerView { count, ..self })
        }
    }

    /// Outcome of offering a time-weighted observation; `stale` tells whether
    /// its timestamp precedes the last accepted one. Staleness is moot for
    /// the observation that seeds the average.
    pub open spec fn timed(self, stale: bool) -> (Result<Step, Error>, TrackerView) {
        if self.strategy == Smoothing::Static {
            (Err(Error::AlgoMismatch), self)
        } else {
            let count = next_count(self.count);
            if count != 1 && stale {
                (Err(Error::StaleData), self)
            } else {
                (Ok(step_for(count)), TrackerView { count, ..self })
            }
        }
    }

    /// Results of offering time-weighted observations one after the other,
    /// one per entry of `stales`.
    pub open spec fn timed_results(self, stales: Seq<bool>) -> Seq<Result<Step, Error>>
        decreases stales.len(),
    {
        if stales.len() == 0 {
            Seq::empty()
        } else {
            let (r, next) = self.timed(stales[0]);
            seq![r] + next.timed_results(stales.drop_first())
        }
    }
}

/// The first observation offered to a fresh tracker in its own mode is
/// accepted and seeds the average, whatever its timestamp.
pub proof fn lemma_first_observation_seeds(strategy: Smoothing, stale: bool)
    ensures
        strategy == Smoothing::Static ==> TrackerView::fresh(strategy).fixed().0 == Ok::<
            Step,
            Error,
        >(Step::Seed),
        strategy == Smoothing::Dynamic ==> TrackerView::fresh(strategy).timed(stale).0 == Ok::<
            Step,
            Error,
        >(Step::Seed),
{
}

/// An observation offered in the other mode than the tracker's fails with
/// `AlgoMismatch` and leaves the state as it was.
pub proof fn lemma_mode_mismatch_changes_nothing(v: TrackerView, stale: bool)
    ensures
        v.strategy == Smoothing::Dynamic ==> v.fixed() == (Err::<Step, Error>(Error::AlgoMismatch), v),
        v.strategy == Smoothing::Static ==> v.timed(stale) == (Err::<Step, Error>(Error::AlgoMismatch), v),
{
}

/// Once a time-weighted tracker holds an observation, a stale timestamp is
/// refused with `StaleData` and leaves the state as it was, while a timestamp
/// that is not stale (an equal one included) is accepted.
pub proof fn lemma_stale_rejected(v: TrackerView)
    requires
        v.strategy == Smoothing::Dynamic,
        v.count != 0,
    ensures
        v.timed(true) == (Err::<Step, Error>(Error::StaleData), v),
        v.timed(false).0 is Ok,
{
}

/// Observations fed to a time-weighted tracker with no stale timestamp are
/// all accepted.
pub proof fn lemma_ordered_feed_accepted(v: TrackerView, stales: Seq<bool>)
    requires
        v.strategy == Smoothing::Dynamic,
        forall|i: int| 0 <= i < stales.len() ==> !stales[i],
    ensures
        v.timed_results(stales).len() == stales.len(),
        forall|i: int| 0 <= i < stales.len() ==> (#[trigger] v.timed_results(stales)[i]) is Ok,
    decreases stales.len(),
{
    if stales.len() > 0 {
        let next = v.timed(stales[0]).1;
        let rest = stales.drop_first();
        lemma_ordered_feed_accepted(next, rest);
        assert forall|i: int| 0 <= i < stales.len() implies (#[trigger] v.timed_results(stales)[i]) is Ok by {
            if i > 0 {
                assert(v.timed_results(stales)[i] == next.timed_results(rest)[i - 1]);
            }
        }
    }
}

/// Each call keeps the strategy; an accepted observation raises the count by
/// exactly one and a refused one changes nothing.
pub proof fn lemma_one_call(v: TrackerView, stale: bool)
    ensures
        v.fixed().1.strategy == v.strategy,
        v.timed(stale).1.strategy == v.strategy,
        v.fixed().0 is Ok ==> v.fixed().1.count == next_count(v.count),
        v.fixed().0 is Err ==> v.fixed().1 == v,
        v.timed(stale).0 is Ok ==> v.timed(stale).1.count == next_count(v.count),
        v.timed(stale).0 is Err ==> v.timed(stale).1 == v,
{
}

/// Every observation after the first is blended with a count of at least
/// two, so the decay `exp(-elapsed / count)` never divides by zero, unless
/// the counter has just wrapped past `u32::MAX`.
pub proof fn lemma_blend_count(v: TrackerView, stale: bool)
    requires
        v.count != u32::MAX,
    ensures
        v.fixed().0 matches Ok(Step::Blend { count }) ==> count >= 2,
        v.timed(stale).0 matches Ok(Step::Blend { count }) ==> count >= 2,
{
}

/// Bookkeeping of one moving average: how many observations it has accepted
/// and which smoothing strategy it was built with.
pub struct Tracker {
    datapoints: u32,
    strategy: Smoothing,
}

impl View for Tracker {
    type V = TrackerView;

    closed spec fn view(&self) -> TrackerView {
        TrackerView { count: self.datapoints, strategy: self.strategy }
    }
}

impl Tracker {
    /// A tracker that has seen no observation yet.
    pub fn new(strategy: Smoothing) -> (r: Tracker)
        ensures
            r@ == TrackerView::fresh(strategy),
    {
        Tracker { datapoints: 0, strategy }
    }

    /// Number of observations accepted so far.
    pub fn datapoints(&self) -> (r: u32)
        ensures
            r == self@.count,
    {
        self.datapoints
    }

    /// The smoothing strategy the tracker was built with.
    pub fn strategy(&self) -> (r: Smoothing)
        ensures
            r == self@.strategy,
    {
        self.strategy
    }

    /// Offers an observation of an evenly spaced series (`Smoothing::Static`).
    pub fn accept(&mut self) -> (r: Result<Step, Error>)
        ensures
            (r, final(self)@) == old(self)@.fixed(),
    {
        if let Smoothing::Dynamic = self.strategy {
            return Err(Error::AlgoMismatch);
        }
        self.datapoints = self.datapoints.wrapping_add(1);
        Ok(Self::step(self.datapoints))
    }

    /// Offers an observation of an unevenly spaced series
    /// (`Smoothing::Dynamic`). `stale` tells whether its timestamp precedes
    /// the last accepted one; a rejected observation changes nothing.
    pub fn accept_timed(&mut self, stale: bool) -> (r: Result<Step, Error>)
        ensures
            (r, final(self)@) == old(self)@.timed(stale),
    {
        if let Smoothing::Static = self.strategy {
            return Err(Error::AlgoMismatch);
        }
        let count = self.datapoints.wrapping_add(1);
        if count != 1 && stale {
            return Err(Error::StaleData);
        }
        self.datapoints = count;
        Ok(Self::step(count))
    }

    fn step(count: u32) -> (r: Step)
        ensures
            r == step_for(count),
    {
        if count == 1 {
            Step::Seed
        } else {
            Step::Blend { count }
        }
    }
}

} // verus!

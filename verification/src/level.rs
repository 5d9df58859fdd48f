//! Severity levels and the threshold ordering used by routing.
use vstd::prelude::*;

verus! {

/// A severity threshold. `Trace` is the most verbose threshold and `Off`
/// silences everything. An event at level `l` passes a route configured with
/// threshold `t` iff `l.verbosity() <= t.verbosity()`.
#[derive(Clone, Copy, Debug, PartialEq, Eq, Structural)]
pub enum LevelFilter {
    Off,
    Error,
    Warn,
    Info,
    Debug,
    Trace,
}

impl LevelFilter {
    /// How verbose this threshold is: `Off` admits nothing (0), `Trace`
    /// admits everything (5).
    pub open spec fn verbosity(self) -> int {
        match self {
            LevelFilter::Off => 0,
            LevelFilter::Error => 1,
            LevelFilter::Warn => 2,
            LevelFilter::Info => 3,
            LevelFilter::Debug => 4,
            LevelFilter::Trace => 5,
        }
    }

    /// The most verbose threshold.
    pub fn maximum() -> (r: Self)
        ensures
            r == LevelFilter::Trace,
            forall|l: LevelFilter| #[trigger] l.verbosity() <= r.verbosity(),
    {
        LevelFilter::Trace
    }

    /// Does an event at level `self` pass a route whose threshold is `other`?
    pub fn passes(&self, other: &Self) -> (r: bool)
        ensures
            r == (self.verbosity() <= other.verbosity()),
    {
        self.rank() <= other.rank()
    }

    fn rank(&self) -> (r: u8)
        ensures
            r as int == self.verbosity(),
    {
        match self {
            LevelFilter::Off => 0,
            LevelFilter::Error => 1,
            LevelFilter::Warn => 2,
            LevelFilter::Info => 3,
            LevelFilter::Debug => 4,
            LevelFilter::Trace => 5,
        }
    }
}

} // verus!

use vstd::prelude::*;

verus! {

/// Timer options.
#[derive(Debug, Copy, Clone, PartialEq, Eq, Structural)]
pub struct Options {
    /// Bound on the number of timers held in memory; when it is set and
    /// exceeded, the timers farthest in the future are spilled to disk.
    pub num_timers_in_memory_limit: Option<usize>,
}

/// The timer service that the options configure: it reads timers through
/// `timer_reader` and tells time with `clock`.
pub struct TimerService<Clock, TimerReader> {
    pub clock: Clock,
    pub num_timers_in_memory_limit: Option<usize>,
    pub timer_reader: TimerReader,
}

impl<Clock, TimerReader> TimerService<Clock, TimerReader> {
    pub fn new(clock: Clock, num_timers_in_memory_limit: Option<usize>, timer_reader: TimerReader) -> (s: Self)
        ensures
            s.clock == clock,
            s.num_timers_in_memory_limit == num_timers_in_memory_limit,
            s.timer_reader == timer_reader,
    {
        TimerService { clock, num_timers_in_memory_limit, timer_reader }
    }
}

impl Options {
    /// Options with the given bound on in-memory timers.
    pub fn new(num_timers_in_memory_limit: Option<usize>) -> (o: Options)
        ensures
            o.num_timers_in_memory_limit == num_timers_in_memory_limit,
    {
        Options { num_timers_in_memory_limit }
    }

    /// The timer service these options configure.
    pub fn build<TimerReader, Clock>(&self, timer_reader: TimerReader, clock: Clock) -> (s: TimerService<Clock, TimerReader>)
        ensures
            s.clock == clock,
            s.timer_reader == timer_reader,
            s.num_timers_in_memory_limit == self.num_timers_in_memory_limit,
    {
        TimerService::new(clock, self.num_timers_in_memory_limit, timer_reader)
    }
}

impl Default for Options {
    /// By default at most 1024 timers are held in memory.
    fn default() -> (o: Options)
        ensures
            o.num_timers_in_memory_limit == Some(1024usize),
    {
        Options { num_timers_in_memory_limit: Some(1024) }
    }
}

} // verus!

//! Countdown and cooldown timers, advanced by bevy's `Timer`.
use vstd::prelude::*;

verus! {

/// Whether a timer stops when it first finishes or starts over.
#[derive(Clone, Copy, Debug, PartialEq, Eq, Structural)]
pub enum TimerMode {
    Once,
    Repeating,
}

/// A timer counted in nanoseconds.
///
/// A `Once` timer runs up to its duration and then stays finished; a
/// `Repeating` timer wraps around and keeps the time left over past the
/// period boundary.
#[derive(Clone, Copy, Debug)]
pub struct Timer {
    pub duration_ns: u64,
    pub elapsed_ns: u64,
    pub mode: TimerMode,
    pub finished: bool,
    pub times_finished_this_tick: u32,
}

/// What one tick does to a timer.
pub open spec fn tick_spec(t: Timer, delta: int) -> Timer {
    let total = t.elapsed_ns + delta;
    if t.mode == TimerMode::Once && t.finished {
        Timer { times_finished_this_tick: 0, ..t }
    } else if total < t.duration_ns {
        Timer { elapsed_ns: total as u64, finished: false, times_finished_this_tick: 0, ..t }
    } else if t.mode == TimerMode::Repeating {
        Timer {
            elapsed_ns: (total % (t.duration_ns as int)) as u64,
            finished: true,
            times_finished_this_tick: (total / (t.duration_ns as int)) as u32,
            ..t
        }
    } else {
        Timer { elapsed_ns: t.duration_ns, finished: true, times_finished_this_tick: 1, ..t }
    }
}

/// Whether a tick of `delta` nanoseconds stays within what the timer can count.
pub open spec fn tick_fits(t: Timer, delta: int) -> bool {
    t.mode == TimerMode::Repeating ==> (t.elapsed_ns + delta) / (t.duration_ns as int) <= u32::MAX
}

/// Relies on bevy's `Timer::tick` (with `Timer::new` and `Timer::set_elapsed` to
/// rebuild a timer that has not finished): the new elapsed time and how many
/// times the timer finished during the tick.
#[verifier::external_body]
fn bevy_timer_tick(duration_ns: u64, elapsed_ns: u64, mode: TimerMode, delta_ns: u64) -> (r: (
    u64,
    u32,
))
    requires
        0 < duration_ns,
        elapsed_ns < duration_ns,
        mode == TimerMode::Repeating ==> (elapsed_ns + delta_ns) / (duration_ns as int)
            <= u32::MAX,
    ensures
        elapsed_ns + delta_ns < duration_ns ==> r == ((elapsed_ns + delta_ns) as u64, 0u32),
        elapsed_ns + delta_ns >= duration_ns && mode == TimerMode::Repeating ==> r == (
            ((elapsed_ns + delta_ns) % (duration_ns as int)) as u64,
            ((elapsed_ns + delta_ns) / (duration_ns as int)) as u32,
        ),
        elapsed_ns + delta_ns >= duration_ns && mode == TimerMode::Once ==> r == (duration_ns, 1u32),
{
    let m = match mode {
        TimerMode::Once => bevy::time::TimerMode::Once,
        TimerMode::Repeating => bevy::time::TimerMode::Repeating,
    };
    let mut t = bevy::time::Timer::new(std::time::Duration::from_nanos(duration_ns), m);
    t.set_elapsed(std::time::Duration::from_nanos(elapsed_ns));
    t.tick(std::time::Duration::from_nanos(delta_ns));
    (t.elapsed().as_nanos() as u64, t.times_finished_this_tick())
}

impl Timer {
    pub open spec fn spec_new(duration_ns: u64, mode: TimerMode) -> Timer {
        Timer { duration_ns, elapsed_ns: 0, mode, finished: false, times_finished_this_tick: 0 }
    }

    pub open spec fn wf(self) -> bool {
        &&& 0 < self.duration_ns
        &&& self.elapsed_ns <= self.duration_ns
        &&& self.mode == TimerMode::Repeating ==> self.elapsed_ns < self.duration_ns
        &&& self.mode == TimerMode::Once ==> (self.finished <==> self.elapsed_ns
            == self.duration_ns)
    }

    /// A timer that has not started counting.
    pub fn new(duration_ns: u64, mode: TimerMode) -> (r: Timer)
        requires
            0 < duration_ns,
        ensures
            r.wf(),
            r == Timer::spec_new(duration_ns, mode),
    {
        Timer { duration_ns, elapsed_ns: 0, mode, finished: false, times_finished_this_tick: 0 }
    }

    /// Advances the timer by `delta_ns` nanoseconds.
    pub fn tick(&mut self, delta_ns: u64)
        requires
            old(self).wf(),
            tick_fits(*old(self), delta_ns as int),
        ensures
            *final(self) == tick_spec(*old(self), delta_ns as int),
            final(self).wf(),
    {
        if self.mode == TimerMode::Once && self.finished {
            self.times_finished_this_tick = 0;
            return;
        }
        let (elapsed, times) = bevy_timer_tick(self.duration_ns, self.elapsed_ns, self.mode, delta_ns);
        proof {
            let total: int = self.elapsed_ns + delta_ns;
            let d: int = self.duration_ns as int;
            assert(total >= d ==> total / d >= 1) by (nonlinear_arith)
                requires
                    d > 0,
            ;
        }
        self.elapsed_ns = elapsed;
        self.times_finished_this_tick = times;
        self.finished = times > 0;
    }

    /// Whether the last tick made the timer finish at least once.
    pub fn just_finished(&self) -> (r: bool)
        ensures
            r == (self.times_finished_this_tick > 0),
    {
        self.times_finished_this_tick > 0
    }

    /// Whether the timer has finished: for good in `Once` mode, on the last tick
    /// in `Repeating` mode.
    pub fn finished(&self) -> (r: bool)
        ensures
            r == self.finished,
    {
        self.finished
    }
}

/// Total length of the given ticks.
pub open spec fn total_ns(deltas: Seq<u64>) -> int
    decreases deltas.len(),
{
    if deltas.len() == 0 {
        0
    } else {
        total_ns(deltas.drop_last()) + deltas.last()
    }
}

} // verus!

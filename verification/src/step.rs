use vstd::prelude::*;

use crate::time::{max_duration_nanos, Duration};

verus! {

/// A repeating timer that drives the physics steps: it finishes each time its
/// duration is reached or exceeded, and then wraps around.
pub struct StepTimer {
    duration: Duration,
    elapsed: Duration,
    times_finished: u32,
}

impl StepTimer {
    #[verifier::type_invariant]
    spec fn within_duration(self) -> bool {
        self.duration@ > 0 && self.elapsed@ < self.duration@
    }

    /// The time after which the timer finishes.
    pub closed spec fn duration(self) -> Duration {
        self.duration
    }

    /// The time accumulated since the timer last finished.
    pub closed spec fn elapsed(self) -> Duration {
        self.elapsed
    }

    /// How many times the timer finished during its last tick.
    pub closed spec fn times_finished(self) -> u32 {
        self.times_finished
    }
}

/// What `tick` leaves of a timer that had accumulated `elapsed` nanoseconds when it is
/// advanced by `delta`: it finishes once per whole `duration` in the total, and keeps
/// the remainder.
pub open spec fn advanced(before: StepTimer, delta: nat, after: StepTimer) -> bool {
    let total = before.elapsed()@ + delta;
    let period = before.duration()@;
    &&& after.duration() == before.duration()
    &&& if total >= period {
        after.times_finished() == total / period && after.elapsed()@ == total % period
    } else {
        after.times_finished() == 0 && after.elapsed()@ == total
    }
}

/// Advances a running, repeating `bevy_core::Timer` of the given duration, which had
/// accumulated `elapsed`, by `delta`, and returns the time it then holds and how many
/// times it finished during this tick.
///
/// As its source shows, `tick` adds `delta` to the elapsed time (which panics when the
/// sum overflows a `Duration`); when the sum reaches the duration it counts the whole
/// durations in it (as a `u32`) and keeps the remainder; otherwise it counts none.
#[verifier::external_body]
fn tick_repeating_timer(duration: Duration, elapsed: Duration, delta: Duration) -> (ticked: (
    Duration,
    u32,
))
    requires
        duration@ > 0,
        elapsed@ + delta@ <= max_duration_nanos(),
        (elapsed@ + delta@) / duration@ <= u32::MAX,
    ensures
        elapsed@ + delta@ >= duration@ ==> ticked.1 == (elapsed@ + delta@) / duration@
            && ticked.0@ == (elapsed@ + delta@) % duration@,
        elapsed@ + delta@ < duration@ ==> ticked.1 == 0 && ticked.0@ == elapsed@ + delta@,
{
    let to_std = |d: Duration| std::time::Duration::new(d.as_secs(), d.subsec_nanos());
    let mut timer = bevy_core::Timer::new(to_std(duration), true);
    timer.set_elapsed(to_std(elapsed));
    timer.tick(to_std(delta));
    let left = timer.elapsed();
    (Duration::new(left.as_secs(), left.subsec_nanos()), timer.times_finished())
}

/// How the physics steps are scheduled.
pub enum StepMode {
    /// A step every frame, advancing by the frame's time, but by no more than the given maximum.
    MaxDeltaTime(Duration),
    /// A step every frame, always advancing by the given time.
    EveryFrame(Duration),
    /// A step each time the timer finishes.
    Timer(StepTimer),
}

/// Resource that controls how many physics steps are performed per second.
///
/// The physics update is performed at most once per frame: when the frame rate is
/// lower than the rate of steps, the simulation slows down. This tunes precision and
/// cost; it does not change the speed of the simulation.
pub struct PhysicsSteps {
    mode: StepMode,
}

/// The time by which a physics step advances the simulation.
#[derive(Clone, Copy, Debug, PartialEq, Eq, Structural)]
pub enum PhysicsStepDuration {
    /// Advance by exactly this time.
    Exact(Duration),
    /// Advance by the frame's time, or by this maximum if the frame took longer.
    MaxDeltaTime(Duration),
}

impl PhysicsStepDuration {
    /// The time by which to advance, given the time of the frame.
    pub fn exact(&self, delta_time: Duration) -> (step: Duration)
        ensures
            step@ == match *self {
                PhysicsStepDuration::Exact(duration) => duration@,
                PhysicsStepDuration::MaxDeltaTime(max) => if delta_time@ <= max@ {
                    delta_time@
                } else {
                    max@
                },
            },
    {
        match self {
            PhysicsStepDuration::Exact(duration) => *duration,
            PhysicsStepDuration::MaxDeltaTime(max) => delta_time.min(*max),
        }
    }
}

impl PhysicsSteps {
    /// How the steps are scheduled, in specifications.
    pub closed spec fn mode(self) -> StepMode {
        self.mode
    }

    /// Whether the current frame runs a physics step.
    pub open spec fn step_frame(self) -> bool {
        match self.mode() {
            StepMode::Timer(timer) => timer.times_finished() > 0,
            _ => true,
        }
    }

    /// The time by which each physics step advances.
    pub open spec fn step_duration(self) -> PhysicsStepDuration {
        match self.mode() {
            StepMode::EveryFrame(duration) => PhysicsStepDuration::Exact(duration),
            StepMode::Timer(timer) => PhysicsStepDuration::Exact(timer.duration()),
            StepMode::MaxDeltaTime(max) => PhysicsStepDuration::MaxDeltaTime(max),
        }
    }

    /// Whether advancing by `delta` stays within what a timer can count: the sum fits
    /// in a `Duration` and holds at most `u32::MAX` whole periods.
    pub open spec fn can_advance(self, delta: Duration) -> bool {
        match self.mode() {
            StepMode::Timer(timer) => {
                &&& timer.elapsed()@ + delta@ <= max_duration_nanos()
                &&& (timer.elapsed()@ + delta@) / timer.duration()@ <= u32::MAX
            },
            _ => true,
        }
    }

    /// Runs the physics systems, then waits for the given time before running them again.
    ///
    /// The duration must not be zero.
    pub fn from_delta_time(duration: Duration) -> (steps: Self)
        requires
            duration@ != 0,
        ensures
            steps.mode() matches StepMode::Timer(timer) && timer.duration() == duration
                && timer.elapsed()@ == 0 && timer.times_finished() == 0,
    {
        let timer = StepTimer { duration, elapsed: Duration::from_secs(0), times_finished: 0 };
        PhysicsSteps { mode: StepMode::Timer(timer) }
    }

    /// Runs the physics systems every frame, advancing the simulation by the same time
    /// each frame. Meant for tests.
    ///
    /// The duration must not be zero.
    pub fn every_frame(duration: Duration) -> (steps: Self)
        requires
            duration@ != 0,
        ensures
            steps.mode() == StepMode::EveryFrame(duration),
    {
        PhysicsSteps { mode: StepMode::EveryFrame(duration) }
    }

    /// Runs the physics systems every frame, advancing by the frame's time as long as
    /// it does not exceed `max`.
    pub fn from_max_delta_time(max: Duration) -> (steps: Self)
        ensures
            steps.mode() == StepMode::MaxDeltaTime(max),
    {
        PhysicsSteps { mode: StepMode::MaxDeltaTime(max) }
    }

    /// Returns true only on a frame that runs a physics step.
    pub fn is_step_frame(&self) -> (step: bool)
        ensures
            step == self.step_frame(),
    {
        match &self.mode {
            StepMode::EveryFrame(_) | StepMode::MaxDeltaTime(_) => true,
            StepMode::Timer(timer) => timer.times_finished > 0,
        }
    }

    /// The time by which each physics step advances.
    pub fn duration(&self) -> (step: PhysicsStepDuration)
        ensures
            step == self.step_duration(),
    {
        match &self.mode {
            StepMode::EveryFrame(duration) => PhysicsStepDuration::Exact(*duration),
            StepMode::Timer(timer) => PhysicsStepDuration::Exact(timer.duration),
            StepMode::MaxDeltaTime(max) => PhysicsStepDuration::MaxDeltaTime(*max),
        }
    }

    /// Whether `do_update` may be called with `delta`.
    pub fn can_update(&self, delta: Duration) -> (ok: bool)
        ensures
            ok == self.can_advance(delta),
    {
        match &self.mode {
            StepMode::Timer(timer) => {
                proof {
                    use_type_invariant(timer);
                }
                let elapsed = timer.elapsed.as_nanos();
                let total = elapsed + delta.as_nanos();
                total <= Duration::max_as_nanos() && total / timer.duration.as_nanos()
                    <= u32::MAX as u128
            },
            _ => true,
        }
    }

    /// Accounts for a frame that took `delta`: advances the timer, if the steps are
    /// scheduled by one.
    pub fn do_update(&mut self, delta: Duration)
        requires
            old(self).can_advance(delta),
        ensures
            match old(self).mode() {
                StepMode::Timer(before) => final(self).mode() matches StepMode::Timer(after)
                    && advanced(before, delta@, after),
                _ => *final(self) == *old(self),
            },
    {
        let ticked = match &self.mode {
            StepMode::Timer(timer) => {
                proof {
                    use_type_invariant(timer);
                }
                let (elapsed, times_finished) = tick_repeating_timer(
                    timer.duration,
                    timer.elapsed,
                    delta,
                );
                proof {
                    vstd::arithmetic::div_mod::lemma_mod_bound(
                        (timer.elapsed@ + delta@) as int,
                        timer.duration@ as int,
                    );
                }
                Some(StepTimer { duration: timer.duration, elapsed, times_finished })
            },
            _ => None,
        };
        if let Some(timer) = ticked {
            self.mode = StepMode::Timer(timer);
        }
    }
}

impl Default for PhysicsSteps {
    /// A step every frame, advancing by the frame's time up to 20 ms (50 steps per second).
    fn default() -> (steps: Self)
        ensures
            steps.mode() matches StepMode::MaxDeltaTime(max) && max@ == 20_000_000,
    {
        Self::from_max_delta_time(Duration::from_millis(20))
    }
}

/// Whether the physics systems run this frame: on a step frame, while the time scale
/// is positive.
pub fn should_run(physics_steps: &PhysicsSteps, time_scale_is_positive: bool) -> (run: bool)
    ensures
        run == (physics_steps.step_frame() && time_scale_is_positive),
{
    physics_steps.is_step_frame() && time_scale_is_positive
}

/// Ticking loses no time: the time a timer holds afterwards plus one duration per
/// finish is the time it held plus the delta; what it holds stays below its duration;
/// and it finishes during the tick exactly when the sum reaches the duration.
pub proof fn lemma_tick_conserves_time(before: StepTimer, delta: nat, after: StepTimer)
    requires
        before.duration()@ > 0,
        advanced(before, delta, after),
    ensures
        after.elapsed()@ + after.times_finished() * before.duration()@ == before.elapsed()@ + delta,
        after.elapsed()@ < before.duration()@ || before.elapsed()@ + delta < before.duration()@,
        (after.times_finished() > 0) == (before.elapsed()@ + delta >= before.duration()@),
{
    let total = (before.elapsed()@ + delta) as int;
    let period = before.duration()@ as int;
    if total >= period {
        vstd::arithmetic::div_mod::lemma_fundamental_div_mod(total, period);
        vstd::arithmetic::div_mod::lemma_mod_bound(total, period);
        vstd::arithmetic::mul::lemma_mul_is_commutative(total / period, period);
        assert(after.times_finished() as int == total / period);
        assert(after.elapsed()@ as int == total % period);
        assert(after.times_finished() * before.duration()@ == (total / period) * period);
        vstd::arithmetic::div_mod::lemma_div_pos_is_pos(total, period);
        assert(total / period >= 1) by {
            vstd::arithmetic::div_mod::lemma_div_is_ordered(period, total, period);
            vstd::arithmetic::div_mod::lemma_div_by_self(period);
        }
    } else {
        let times = after.times_finished();
        assert(times * before.duration()@ == 0) by (nonlinear_arith)
            requires
                times == 0,
        ;
    }
}

/// A frame runs a physics step exactly when the timer finished at least once while
/// it ticked, however many times: when the time it held plus the frame's time reaches
/// its duration. The other schedules step every frame.
pub proof fn lemma_step_frame_when_timer_finished(
    before: StepTimer,
    delta: nat,
    after: StepTimer,
    steps: PhysicsSteps,
)
    requires
        before.duration()@ > 0,
        advanced(before, delta, after),
        steps.mode() == StepMode::Timer(after),
    ensures
        steps.step_frame() == (before.elapsed()@ + delta >= before.duration()@),
        steps.step_frame() == (after.times_finished() >= 1),
{
    lemma_tick_conserves_time(before, delta, after);
}

/// Schedules other than a timer run a physics step every frame.
pub proof fn lemma_untimed_steps_every_frame(steps: PhysicsSteps)
    requires
        !(steps.mode() is Timer),
    ensures
        steps.step_frame(),
{
}

} // verus!
